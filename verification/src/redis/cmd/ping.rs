//! `PING [message]`.

use crate::redis::cmd::{
    command_value_spec, consume_args, consume_args_spec, word, word_value, CommandArgParser,
    CommandView, ParseCommandError, ParseCommandErrorView,
};
use crate::redis::client::ClientError;
use crate::redis::resp::{views, Array, BulkString, SimpleString, Value};
use crate::redis::session::{bulk_array_spec, Request, Response, SessionError};
use crate::redis::wire::ValueView;
use vstd::prelude::*;

verus! {

/// The arguments of `PING`.
#[derive(Debug, PartialEq, Eq)]
pub struct PingArg {
    /// The message to send back, if any.
    pub msg: Option<BulkString>,
}

impl View for PingArg {
    type V = CommandView;

    open spec fn view(&self) -> CommandView {
        CommandView::Ping {
            msg: match self.msg {
                Some(m) => Some(m@),
                None => None,
            },
        }
    }
}

impl Clone for PingArg {
    fn clone(&self) -> (r: Self)
        ensures
            r@ == self@,
    {
        match &self.msg {
            Some(m) => PingArg { msg: Some(m.clone()) },
            None => PingArg { msg: None },
        }
    }
}

impl PingArg {
    /// The arguments of a `PING` with the message `msg`, or with none.
    pub fn new(msg: Option<BulkString>) -> (r: Self)
        ensures
            r.msg == msg,
    {
        PingArg { msg }
    }
}

impl CommandArgParser for PingArg {
    /// `PING` takes no required argument and one optional one, the message.
    open spec fn parse_arg_spec(args: Seq<ValueView>) -> Result<
        CommandView,
        ParseCommandErrorView,
    > {
        match consume_args_spec(args, 0, 1) {
            Err(e) => Err(e),
            Ok(taken) => Ok(
                CommandView::Ping {
                    msg: if taken.len() > 0 {
                        Some(taken[0])
                    } else {
                        None
                    },
                },
            ),
        }
    }

    fn parse_arg(args: &[Value]) -> (r: Result<Self, ParseCommandError>) {
        let mut taken = match consume_args(args, 0, 1) {
            Ok(taken) => taken,
            Err(e) => {
                return Err(e);
            },
        };
        let msg = taken.pop();
        Ok(PingArg { msg })
    }
}

/// What the server answers to `PING`: the simple string `PONG` where no
/// message came, else an array of two bulk strings, `PONG` and the message.
pub open spec fn ping_reply_spec(msg: Option<Option<Seq<u8>>>) -> ValueView {
    match msg {
        None => ValueView::SimpleString("PONG"@),
        Some(m) => ValueView::Array(Some(seq![word("PONG"@), ValueView::BulkString(m)])),
    }
}

/// The command `PING`.
pub struct Ping;

impl Ping {
    /// The client of `PING`.
    pub fn client() -> PingClient {
        PingClient {  }
    }

    /// The handler of `PING`.
    pub fn handler() -> PingHandler {
        PingHandler {  }
    }

    /// The value that is sent for `PING` with the arguments `arg`.
    pub fn command_value(arg: PingArg) -> (r: Value)
        ensures
            r@ == command_value_spec(arg@),
    {
        let mut parts: Vec<Value> = Vec::new();
        parts.push(word_value("PING"));
        match arg.msg {
            Some(m) => {
                parts.push(Value::BulkString(m));
                proof {
                    assert(views(parts@) =~= seq![word("PING"@), ValueView::BulkString(m@)]);
                }
            },
            None => {
                proof {
                    assert(views(parts@) =~= seq![word("PING"@)]);
                }
            },
        }
        Value::Array(Array::new(parts))
    }
}

/// The handler of `PING`.
pub struct PingHandler;

impl PingHandler {
    /// Answers `PING`.
    pub fn handle(&self, arg: PingArg) -> (r: Value)
        ensures
            arg@ matches CommandView::Ping { msg } && r@ == ping_reply_spec(msg),
    {
        match arg.msg {
            Some(msg) => {
                let mut parts: Vec<Value> = Vec::new();
                parts.push(word_value("PONG"));
                parts.push(Value::BulkString(msg));
                proof {
                    assert(views(parts@) =~= seq![word("PONG"@), ValueView::BulkString(msg@)]);
                }
                Value::Array(Array::new(parts))
            },
            None => Value::SimpleString(SimpleString::from("PONG")),
        }
    }
}

/// The client of `PING`: what to send, and what to make of the reply. The
/// sending and the waiting are left to the caller.
pub struct PingClient;

impl PingClient {
    /// The request that asks for `PING` with the arguments `arg`.
    pub fn request(&self, arg: &PingArg) -> (r: Request)
        ensures
            r@ == command_value_spec(arg@),
    {
        Request::new(Ping::command_value(arg.clone()))
    }

    /// What the call comes to, given the outcome of sending the request. A
    /// session that failed is passed on. A response is accepted where it is
    /// what the server answers to `PING` with these arguments, and is an
    /// invalid response otherwise.
    pub fn accept(&self, arg: &PingArg, outcome: Result<Response, SessionError>) -> (r: Result<
        Response,
        ClientError,
    >)
        ensures
            match outcome {
                Err(e) => r matches Err(x) && x == ClientError::Session(e),
                Ok(response) => arg@ matches CommandView::Ping { msg } && if response@
                    == ping_reply_spec(msg) {
                    r matches Ok(accepted) && accepted@ == response@
                } else {
                    r matches Err(x) && x == ClientError::InvalidResponse
                },
            },
    {
        let response = match outcome {
            Ok(response) => response,
            Err(e) => {
                return Err(ClientError::Session(e));
            },
        };
        let expected = match &arg.msg {
            Some(msg) => {
                let mut parts: Vec<BulkString> = Vec::new();
                parts.push(BulkString::from("PONG"));
                parts.push(msg.clone());
                proof {
                    assert(bulk_array_spec(parts@)->Array_0->0 =~= seq![
                        word("PONG"@),
                        ValueView::BulkString(msg@),
                    ]);
                }
                response.is_bulk_string_array(parts)
            },
            None => response.is_simple_string("PONG"),
        };
        if expected {
            Ok(response)
        } else {
            Err(ClientError::InvalidResponse)
        }
    }
}

} // verus!
