//! `REPLCONF listening-port <port>` and `REPLCONF capa <capability>`.

use crate::decimal::{nat_to_digits, parse_u16, parse_u16_spec, push_digits};
use crate::redis::cmd::{
    bulk_string_to_string, command_value_spec, consume_args, consume_args_spec, text_arg_spec,
    word, word_value, CommandArgParser, CommandView, ParseCommandError, ParseCommandErrorView,
    ReplConfView,
};
use crate::redis::client::ClientError;
use crate::redis::resp::{views, Array, BulkString, SimpleString, Value};
use crate::redis::session::{Request, Response, SessionError};
use crate::redis::wire::ValueView;
use crate::text::{is_word, spells};
use vstd::prelude::*;
use vstd::utf8::{decode_utf8, encode_utf8};

verus! {

/// A setting that a replica announces to its master.
#[derive(Debug, PartialEq, Eq)]
pub enum ReplConfArgConfig {
    /// The port on which the replica listens.
    ListeningPort(u16),
    /// A capability of the replica.
    Capabilities(String),
}

impl View for ReplConfArgConfig {
    type V = ReplConfView;

    open spec fn view(&self) -> ReplConfView {
        match self {
            ReplConfArgConfig::ListeningPort(port) => ReplConfView::ListeningPort(*port),
            ReplConfArgConfig::Capabilities(s) => ReplConfView::Capabilities(s@),
        }
    }
}

impl Clone for ReplConfArgConfig {
    fn clone(&self) -> (r: Self)
        ensures
            r@ == self@,
    {
        match self {
            ReplConfArgConfig::ListeningPort(port) => ReplConfArgConfig::ListeningPort(*port),
            ReplConfArgConfig::Capabilities(s) => ReplConfArgConfig::Capabilities(s.clone()),
        }
    }
}

/// The two arguments that are sent for a setting: its name and its value.
pub open spec fn config_words_spec(config: ReplConfView) -> Seq<Option<Seq<u8>>> {
    match config {
        ReplConfView::ListeningPort(port) => seq![
            Some(encode_utf8("listening-port"@)),
            Some(nat_to_digits(port as nat)),
        ],
        ReplConfView::Capabilities(text) => seq![Some(encode_utf8("capa"@)), Some(encode_utf8(text))],
    }
}

impl ReplConfArgConfig {
    /// The two arguments that are sent for the setting.
    pub fn to_bulk_strings(&self) -> (r: Vec<BulkString>)
        ensures
            crate::redis::cmd::bulk_views(r@) == config_words_spec(self@),
    {
        let mut out: Vec<BulkString> = Vec::new();
        match self {
            Self::ListeningPort(port) => {
                let mut digits: Vec<u8> = Vec::new();
                push_digits(&mut digits, *port as u128);
                assert(digits@ =~= nat_to_digits(*port as nat));
                out.push(BulkString::from("listening-port"));
                out.push(BulkString::new(digits));
            },
            Self::Capabilities(s) => {
                out.push(BulkString::from("capa"));
                out.push(BulkString::from(s.clone()));
            },
        }
        proof {
            assert(crate::redis::cmd::bulk_views(out@) =~= config_words_spec(self@));
        }
        out
    }
}

/// The arguments of `REPLCONF`.
#[derive(Debug, PartialEq, Eq)]
pub struct ReplConfArg {
    /// The setting that is announced.
    pub config: ReplConfArgConfig,
}

impl View for ReplConfArg {
    type V = CommandView;

    open spec fn view(&self) -> CommandView {
        CommandView::ReplConf { config: self.config@ }
    }
}

impl Clone for ReplConfArg {
    fn clone(&self) -> (r: Self)
        ensures
            r@ == self@,
    {
        ReplConfArg { config: self.config.clone() }
    }
}

impl CommandArgParser for ReplConfArg {
    /// `REPLCONF` takes two required arguments, both text: the name of a
    /// setting and its value. The name spells `listening-port`, and the
    /// value is then a numeral of an unsigned 16-bit integer, or it spells
    /// `capa`. A value that is no such numeral is an invalid argument, and
    /// so is any other name.
    open spec fn parse_arg_spec(args: Seq<ValueView>) -> Result<
        CommandView,
        ParseCommandErrorView,
    > {
        match consume_args_spec(args, 2, 0) {
            Err(e) => Err(e),
            Ok(taken) => match text_arg_spec(taken[0]) {
                Err(e) => Err(e),
                Ok(name) => match text_arg_spec(taken[1]) {
                    Err(e) => Err(e),
                    Ok(value) => {
                        if spells(name, "listening-port"@) {
                            match parse_u16_spec(value) {
                                Ok(port) => Ok(
                                    CommandView::ReplConf {
                                        config: ReplConfView::ListeningPort(port),
                                    },
                                ),
                                Err(_) => Err(
                                    ParseCommandErrorView::InvalidArgument(
                                        ValueView::BulkString(taken[1]),
                                    ),
                                ),
                            }
                        } else if spells(name, "capa"@) {
                            Ok(
                                CommandView::ReplConf {
                                    config: ReplConfView::Capabilities(decode_utf8(value)),
                                },
                            )
                        } else {
                            Err(
                                ParseCommandErrorView::InvalidArgument(
                                    ValueView::BulkString(taken[0]),
                                ),
                            )
                        }
                    },
                },
            },
        }
    }

    fn parse_arg(args: &[Value]) -> (r: Result<Self, ParseCommandError>) {
        let taken = match consume_args(args, 2, 0) {
            Ok(taken) => taken,
            Err(e) => {
                return Err(e);
            },
        };
        let first = &taken[0];
        let second = &taken[1];
        let name = match bulk_string_to_string(first) {
            Ok(_) => match first.as_bytes() {
                Some(bytes) => bytes,
                None => {
                    return Err(
                        ParseCommandError::InvalidArgument(Value::BulkString(first.clone())),
                    );
                },
            },
            Err(e) => {
                return Err(e);
            },
        };
        let text = match bulk_string_to_string(second) {
            Ok(text) => text,
            Err(e) => {
                return Err(e);
            },
        };
        proof {
            reveal_strlit("listening-port");
            reveal_strlit("capa");
        }
        if is_word(name, "listening-port") {
            let digits = match second.as_bytes() {
                Some(bytes) => bytes,
                None => {
                    return Err(
                        ParseCommandError::InvalidArgument(Value::BulkString(second.clone())),
                    );
                },
            };
            match parse_u16(digits) {
                Ok(port) => Ok(ReplConfArg { config: ReplConfArgConfig::ListeningPort(port) }),
                Err(_) => Err(
                    ParseCommandError::InvalidArgument(Value::BulkString(second.clone())),
                ),
            }
        } else if is_word(name, "capa") {
            Ok(ReplConfArg { config: ReplConfArgConfig::Capabilities(text) })
        } else {
            Err(ParseCommandError::InvalidArgument(Value::BulkString(first.clone())))
        }
    }
}

/// The command `REPLCONF`.
pub struct ReplConf;

impl ReplConf {
    /// The client of `REPLCONF`.
    pub fn client() -> ReplConfClient {
        ReplConfClient {  }
    }

    /// The handler of `REPLCONF`.
    pub fn handler() -> ReplConfHandler {
        ReplConfHandler
    }

    /// The value that is sent for `REPLCONF` with the arguments `arg`.
    pub fn command_value(arg: ReplConfArg) -> (r: Value)
        ensures
            r@ == command_value_spec(arg@),
    {
        let mut parts: Vec<Value> = Vec::new();
        parts.push(word_value("REPLCONF"));
        let mut words = arg.config.to_bulk_strings();
        let ghost sent = words@;
        proof {
            let expected = config_words_spec(arg.config@);
            assert(expected.len() == 2);
            assert(crate::redis::cmd::bulk_views(sent)[0] == sent[0]@);
            assert(crate::redis::cmd::bulk_views(sent)[1] == sent[1]@);
        }
        let value = words.pop();
        let name = words.pop();
        match (name, value) {
            (Some(name), Some(value)) => {
                parts.push(Value::BulkString(name));
                parts.push(Value::BulkString(value));
            },
            _ => {},
        }
        proof {
            assert(views(parts@) =~= seq![
                word("REPLCONF"@),
                ValueView::BulkString(sent[0]@),
                ValueView::BulkString(sent[1]@),
            ]);
            match arg.config@ {
                ReplConfView::ListeningPort(port) => {
                    assert(views(parts@) =~= seq![
                        word("REPLCONF"@),
                        word("listening-port"@),
                        ValueView::BulkString(Some(nat_to_digits(port as nat))),
                    ]);
                },
                ReplConfView::Capabilities(text) => {
                    assert(views(parts@) =~= seq![
                        word("REPLCONF"@),
                        word("capa"@),
                        word(text),
                    ]);
                },
            }
        }
        Value::Array(Array::new(parts))
    }
}

/// The handler of `REPLCONF`.
pub struct ReplConfHandler;

impl ReplConfHandler {
    /// Answers `REPLCONF`: the setting is acknowledged with `OK`, and kept
    /// nowhere.
    pub fn handle(&self, arg: ReplConfArg) -> (r: Value)
        ensures
            r@ == ValueView::SimpleString("OK"@),
    {
        Value::SimpleString(SimpleString::from("OK"))
    }
}

/// The client of `REPLCONF`: what to send, and what to make of the reply.
/// The sending and the waiting are left to the caller.
pub struct ReplConfClient;

impl ReplConfClient {
    /// The request that asks for `REPLCONF` with the arguments `arg`.
    pub fn request(&self, arg: &ReplConfArg) -> (r: Request)
        ensures
            r@ == command_value_spec(arg@),
    {
        Request::new(ReplConf::command_value(arg.clone()))
    }

    /// What the call comes to, given the outcome of sending the request. A
    /// session that failed is passed on. A response is accepted where it is
    /// the simple string `OK`, and is an invalid response otherwise.
    pub fn accept(&self, outcome: Result<Response, SessionError>) -> (r: Result<
        Response,
        ClientError,
    >)
        ensures
            match outcome {
                Err(e) => r matches Err(x) && x == ClientError::Session(e),
                Ok(response) => if response@ == ValueView::SimpleString("OK"@) {
                    r matches Ok(accepted) && accepted@ == response@
                } else {
                    r matches Err(x) && x == ClientError::InvalidResponse
                },
            },
    {
        let response = match outcome {
            Ok(response) => response,
            Err(e) => {
                return Err(ClientError::Session(e));
            },
        };
        if response.is_simple_string("OK") {
            Ok(response)
        } else {
            Err(ClientError::InvalidResponse)
        }
    }
}

} // verus!
