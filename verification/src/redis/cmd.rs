//! Commands: the requests that the server understands, and how a value is
//! read as one.
//!
//! A command arrives as an array of bulk strings. The first names the
//! command, in any mix of upper and lower case; the others are its
//! arguments. Every command takes a fixed number of required arguments and a
//! fixed number of optional ones, and a request with fewer or more is
//! refused.

pub mod arity;
pub mod echo;
pub mod get;
pub mod info;
pub mod inverse;
pub mod ping;
pub mod replconf;
pub mod set;

pub use echo::{Echo, EchoArg, EchoClient, EchoHandler};
pub use get::{Get, GetArg, GetClient, GetHandler};
pub use info::{Info, InfoArg, InfoClient, InfoHandler, InfoSection};
pub use ping::{Ping, PingArg, PingClient, PingHandler};
pub use replconf::{ReplConf, ReplConfArg, ReplConfArgConfig, ReplConfClient, ReplConfHandler};
pub use set::{SetKey, SetArg, SetClient, SetHandler};

use crate::decimal::{parse_u64, parse_u64_spec};
use crate::redis::resp::{views, BulkString, Value};
use crate::redis::wire::{decode_spec, DecodeError, ValueView};
use crate::text::{is_word, spells};
use vstd::prelude::*;
use vstd::utf8::{decode_utf8, valid_utf8};

verus! {

/// Why a value is not a command.
#[derive(Debug, PartialEq, Eq)]
pub enum ParseCommandError {
    /// The value is no array of bulk strings that starts with the name of a
    /// command.
    InvalidCommand,
    /// An argument is missing, or there is one too many.
    WrongNumArgs,
    /// The argument cannot be taken for what the command needs in its place.
    InvalidArgument(Value),
    /// The bytes are no frame, or an argument is no numeral.
    Decode(DecodeError),
}

/// A parse error as mathematics.
pub enum ParseCommandErrorView {
    InvalidCommand,
    WrongNumArgs,
    InvalidArgument(ValueView),
    Decode(DecodeError),
}

impl View for ParseCommandError {
    type V = ParseCommandErrorView;

    open spec fn view(&self) -> ParseCommandErrorView {
        match self {
            ParseCommandError::InvalidCommand => ParseCommandErrorView::InvalidCommand,
            ParseCommandError::WrongNumArgs => ParseCommandErrorView::WrongNumArgs,
            ParseCommandError::InvalidArgument(v) => ParseCommandErrorView::InvalidArgument(v@),
            ParseCommandError::Decode(e) => ParseCommandErrorView::Decode(*e),
        }
    }
}

impl Clone for ParseCommandError {
    fn clone(&self) -> (r: Self)
        ensures
            r@ == self@,
    {
        match self {
            ParseCommandError::InvalidCommand => ParseCommandError::InvalidCommand,
            ParseCommandError::WrongNumArgs => ParseCommandError::WrongNumArgs,
            ParseCommandError::InvalidArgument(v) => ParseCommandError::InvalidArgument(v.clone()),
            ParseCommandError::Decode(e) => ParseCommandError::Decode(*e),
        }
    }
}

/// A setting that a replica announces to its master.
pub enum ReplConfView {
    /// The port on which the replica listens.
    ListeningPort(u16),
    /// A capability of the replica.
    Capabilities(Seq<char>),
}

/// A command as mathematics. A bulk string is `Some` with its bytes, or
/// `None` where it is the null string.
#[allow(inconsistent_fields)]
pub enum CommandView {
    Ping { msg: Option<Option<Seq<u8>>> },
    Echo { msg: Option<Seq<u8>> },
    Info { section: InfoSection },
    /// `expiry` is in milliseconds.
    SetKey { key: Option<Seq<u8>>, value: Option<Seq<u8>>, expiry: Option<u64> },
    Get { key: Option<Seq<u8>> },
    ReplConf { config: ReplConfView },
}

/// A command that the server understands.
#[derive(Debug, PartialEq, Eq)]
pub enum Command {
    Ping(PingArg),
    Echo(EchoArg),
    Info(InfoArg),
    SetKey(SetArg),
    Get(GetArg),
    ReplConf(ReplConfArg),
}

impl View for Command {
    type V = CommandView;

    open spec fn view(&self) -> CommandView {
        match self {
            Command::Ping(arg) => arg@,
            Command::Echo(arg) => arg@,
            Command::Info(arg) => arg@,
            Command::SetKey(arg) => arg@,
            Command::Get(arg) => arg@,
            Command::ReplConf(arg) => arg@,
        }
    }
}

impl Clone for Command {
    fn clone(&self) -> (r: Self)
        ensures
            r@ == self@,
    {
        match self {
            Command::Ping(arg) => Command::Ping(arg.clone()),
            Command::Echo(arg) => Command::Echo(arg.clone()),
            Command::Info(arg) => Command::Info(arg.clone()),
            Command::SetKey(arg) => Command::SetKey(arg.clone()),
            Command::Get(arg) => Command::Get(arg.clone()),
            Command::ReplConf(arg) => Command::ReplConf(arg.clone()),
        }
    }
}

/// Whether `r` is the outcome `expected`, with views in place of values.
pub open spec fn parsed_as<T: View>(
    r: Result<T, ParseCommandError>,
    expected: Result<T::V, ParseCommandErrorView>,
) -> bool {
    match expected {
        Ok(c) => r matches Ok(arg) && arg@ == c,
        Err(e) => r matches Err(x) && x@ == e,
    }
}

/// One command's way to read its arguments.
pub trait CommandArgParser: Sized + View<V = CommandView> {
    /// The command that the arguments `args` make, or why they make none.
    spec fn parse_arg_spec(args: Seq<ValueView>) -> Result<CommandView, ParseCommandErrorView>;

    /// Reads the arguments `args`: the values that follow the command's
    /// name.
    fn parse_arg(args: &[Value]) -> (r: Result<Self, ParseCommandError>)
        ensures
            parsed_as(r, Self::parse_arg_spec(views(args@))),
    ;
}

/// The first `n` of `vals` as bulk strings. The first value that is none
/// decides the error.
pub open spec fn bulk_prefix_spec(vals: Seq<ValueView>, n: nat) -> Result<
    Seq<Option<Seq<u8>>>,
    ParseCommandErrorView,
>
    decreases n,
{
    if n == 0 {
        Ok(Seq::empty())
    } else {
        match bulk_prefix_spec(vals, (n - 1) as nat) {
            Err(e) => Err(e),
            Ok(prefix) => match vals[n - 1] {
                ValueView::BulkString(b) => Ok(prefix.push(b)),
                other => Err(ParseCommandErrorView::InvalidArgument(other)),
            },
        }
    }
}

/// The arguments of a command that takes `necessary` required arguments and
/// up to `optional` more. Values are taken in order for as many places as
/// there are; one that is no bulk string is an invalid argument. After that,
/// too few or too many values are the wrong number of arguments.
pub open spec fn consume_args_spec(vals: Seq<ValueView>, necessary: nat, optional: nat) -> Result<
    Seq<Option<Seq<u8>>>,
    ParseCommandErrorView,
> {
    let places = if vals.len() <= necessary + optional {
        vals.len()
    } else {
        necessary + optional
    };
    match bulk_prefix_spec(vals, places) {
        Err(e) => Err(e),
        Ok(args) => if vals.len() < necessary || vals.len() > necessary + optional {
            Err(ParseCommandErrorView::WrongNumArgs)
        } else {
            Ok(args)
        },
    }
}

/// The bytes of the argument `arg` where the command needs text: the
/// argument must be a string, not null, and UTF-8.
pub open spec fn text_arg_spec(arg: Option<Seq<u8>>) -> Result<Seq<u8>, ParseCommandErrorView> {
    match arg {
        Some(bytes) if valid_utf8(bytes) => Ok(bytes),
        _ => Err(ParseCommandErrorView::InvalidArgument(ValueView::BulkString(arg))),
    }
}

/// The argument `arg` where the command needs a count: text that is a
/// numeral of an unsigned 64-bit integer.
pub open spec fn uint64_arg_spec(arg: Option<Seq<u8>>) -> Result<u64, ParseCommandErrorView> {
    match text_arg_spec(arg) {
        Err(e) => Err(e),
        Ok(bytes) => match parse_u64_spec(bytes) {
            Ok(n) => Ok(n),
            Err(kind) => Err(ParseCommandErrorView::Decode(DecodeError::ParseInt(kind))),
        },
    }
}

/// The command that the value `v` is, or why it is none. The value must be
/// an array, not null, whose first element is a bulk string that spells the
/// name of a command; the elements after it are the arguments.
pub open spec fn parse_value_spec(v: ValueView) -> Result<CommandView, ParseCommandErrorView> {
    match v {
        ValueView::Array(Some(vals)) => {
            if vals.len() == 0 {
                Err(ParseCommandErrorView::InvalidCommand)
            } else {
                match vals[0] {
                    ValueView::BulkString(Some(name)) => {
                        let args = vals.skip(1);
                        if spells(name, "ping"@) {
                            PingArg::parse_arg_spec(args)
                        } else if spells(name, "echo"@) {
                            EchoArg::parse_arg_spec(args)
                        } else if spells(name, "set"@) {
                            SetArg::parse_arg_spec(args)
                        } else if spells(name, "get"@) {
                            GetArg::parse_arg_spec(args)
                        } else if spells(name, "info"@) {
                            InfoArg::parse_arg_spec(args)
                        } else if spells(name, "replconf"@) {
                            ReplConfArg::parse_arg_spec(args)
                        } else {
                            Err(ParseCommandErrorView::InvalidCommand)
                        }
                    },
                    _ => Err(ParseCommandErrorView::InvalidCommand),
                }
            }
        },
        _ => Err(ParseCommandErrorView::InvalidCommand),
    }
}

/// The command that the buffer `bytes` starts with, or why it starts with
/// none.
pub open spec fn parse_spec(bytes: Seq<u8>) -> Result<CommandView, ParseCommandErrorView> {
    match decode_spec(bytes) {
        Err(e) => Err(ParseCommandErrorView::Decode(e)),
        Ok((v, _)) => parse_value_spec(v),
    }
}

/// The views of the bulk strings `bs`, in order.
pub open spec fn bulk_views(bs: Seq<BulkString>) -> Seq<Option<Seq<u8>>> {
    Seq::new(bs.len(), |i: int| bs[i]@)
}

/// Takes the value for a bulk string.
pub fn value_to_bulk_string(val: &Value) -> (r: Result<BulkString, ParseCommandError>)
    ensures
        match val@ {
            ValueView::BulkString(b) => r matches Ok(bs) && bs@ == b,
            other => r matches Err(e) && e@ == ParseCommandErrorView::InvalidArgument(other),
        },
{
    match val.bulk_string() {
        Some(bs) => Ok(bs.clone()),
        None => Err(ParseCommandError::InvalidArgument(val.clone())),
    }
}

/// Takes the bulk string for text.
pub fn bulk_string_to_string(bs: &BulkString) -> (r: Result<String, ParseCommandError>)
    ensures
        match text_arg_spec(bs@) {
            Ok(bytes) => r matches Ok(s) && s@ == decode_utf8(bytes),
            Err(e) => r matches Err(x) && x@ == e,
        },
{
    match bs.as_str() {
        Some(s) => Ok(s),
        None => Err(ParseCommandError::InvalidArgument(Value::BulkString(bs.clone()))),
    }
}

/// Takes the bulk string for a count.
pub fn bulk_string_to_uint64(bs: &BulkString) -> (r: Result<u64, ParseCommandError>)
    ensures
        match uint64_arg_spec(bs@) {
            Ok(n) => r matches Ok(x) && x == n,
            Err(e) => r matches Err(x) && x@ == e,
        },
{
    match bulk_string_to_string(bs) {
        Err(e) => Err(e),
        Ok(_) => {
            let bytes = bs.as_bytes();
            match bytes {
                Some(b) => match parse_u64(b) {
                    Ok(n) => Ok(n),
                    Err(kind) => Err(ParseCommandError::Decode(DecodeError::ParseInt(kind))),
                },
                None => Err(ParseCommandError::InvalidArgument(Value::BulkString(bs.clone()))),
            }
        },
    }
}

/// Takes the arguments of a command that needs `necessary` of them and
/// accepts up to `optional` more.
pub fn consume_args(args: &[Value], necessary: usize, optional: usize) -> (r: Result<
    Vec<BulkString>,
    ParseCommandError,
>)
    requires
        necessary + optional <= usize::MAX,
    ensures
        match consume_args_spec(views(args@), necessary as nat, optional as nat) {
            Ok(taken) => r matches Ok(v) && bulk_views(v@) == taken && necessary <= taken.len()
                <= necessary + optional && taken.len() == args@.len(),
            Err(e) => r matches Err(x) && x@ == e,
        },
{
    let places: usize = if args.len() <= necessary + optional {
        args.len()
    } else {
        necessary + optional
    };
    let mut taken: Vec<BulkString> = Vec::new();
    let mut i: usize = 0;
    proof {
        assert(bulk_views(taken@) =~= Seq::<Option<Seq<u8>>>::empty());
    }
    while i < places
        invariant
            i <= places <= args@.len(),
            places == if args@.len() <= necessary + optional {
                args@.len()
            } else {
                (necessary + optional) as nat
            },
            taken@.len() == i,
            bulk_prefix_spec(views(args@), i as nat) == Ok::<
                Seq<Option<Seq<u8>>>,
                ParseCommandErrorView,
            >(bulk_views(taken@)),
        decreases places - i,
    {
        let ghost before = bulk_views(taken@);
        assert(views(args@)[i as int] == args@[i as int]@);
        match value_to_bulk_string(&args[i]) {
            Ok(bs) => {
                taken.push(bs);
                proof {
                    assert(bulk_views(taken@) =~= before.push(bs@));
                }
            },
            Err(e) => {
                proof {
                    lemma_bulk_prefix_error(views(args@), (i + 1) as nat, places as nat);
                }
                return Err(e);
            },
        }
        i = i + 1;
    }
    if args.len() < necessary || args.len() > necessary + optional {
        Err(ParseCommandError::WrongNumArgs)
    } else {
        Ok(taken)
    }
}

/// An error among the first `k` values is the error of any longer prefix.
pub proof fn lemma_bulk_prefix_error(vals: Seq<ValueView>, k: nat, n: nat)
    requires
        k <= n,
        bulk_prefix_spec(vals, k) is Err,
    ensures
        bulk_prefix_spec(vals, n) == bulk_prefix_spec(vals, k),
    decreases n - k,
{
    if k < n {
        lemma_bulk_prefix_error(vals, k, (n - 1) as nat);
    }
}

impl Command {
    /// Reads the command that `buf` starts with.
    pub fn parse(buf: &[u8]) -> (r: Result<Self, ParseCommandError>)
        ensures
            parsed_as(r, parse_spec(buf@)),
    {
        match Value::decode(buf) {
            Ok(value) => Self::try_from(value),
            Err(e) => Err(ParseCommandError::Decode(e)),
        }
    }

    /// Reads the value as a command.
    pub fn try_from(value: Value) -> (r: Result<Self, ParseCommandError>)
        ensures
            parsed_as(r, parse_value_spec(value@)),
    {
        let arr = match &value {
            Value::Array(a) => a,
            _ => {
                return Err(ParseCommandError::InvalidCommand);
            },
        };
        let values = match arr.values() {
            Some(v) => v,
            None => {
                return Err(ParseCommandError::InvalidCommand);
            },
        };
        if values.len() == 0 {
            return Err(ParseCommandError::InvalidCommand);
        }
        assert(views(values@)[0] == values@[0]@);
        let name = match values[0].bulk_string() {
            Some(bs) => match bs.as_bytes() {
                Some(bytes) => bytes,
                None => {
                    return Err(ParseCommandError::InvalidCommand);
                },
            },
            None => {
                return Err(ParseCommandError::InvalidCommand);
            },
        };
        let args = vstd::slice::slice_subrange(values, 1, values.len());
        proof {
            assert(views(args@) =~= views(values@).skip(1));
            reveal_strlit("ping");
            reveal_strlit("echo");
            reveal_strlit("set");
            reveal_strlit("get");
            reveal_strlit("info");
            reveal_strlit("replconf");
        }
        if is_word(name, "ping") {
            match PingArg::parse_arg(args) {
                Ok(arg) => Ok(Command::Ping(arg)),
                Err(e) => Err(e),
            }
        } else if is_word(name, "echo") {
            match EchoArg::parse_arg(args) {
                Ok(arg) => Ok(Command::Echo(arg)),
                Err(e) => Err(e),
            }
        } else if is_word(name, "set") {
            match SetArg::parse_arg(args) {
                Ok(arg) => Ok(Command::SetKey(arg)),
                Err(e) => Err(e),
            }
        } else if is_word(name, "get") {
            match GetArg::parse_arg(args) {
                Ok(arg) => Ok(Command::Get(arg)),
                Err(e) => Err(e),
            }
        } else if is_word(name, "info") {
            match InfoArg::parse_arg(args) {
                Ok(arg) => Ok(Command::Info(arg)),
                Err(e) => Err(e),
            }
        } else if is_word(name, "replconf") {
            match ReplConfArg::parse_arg(args) {
                Ok(arg) => Ok(Command::ReplConf(arg)),
                Err(e) => Err(e),
            }
        } else {
            Err(ParseCommandError::InvalidCommand)
        }
    }

    /// The command as the value that is sent for it.
    pub fn into_value(self) -> (r: Value)
        ensures
            r@ == command_value_spec(self@),
    {
        match self {
            Command::Ping(arg) => Ping::command_value(arg),
            Command::Echo(arg) => Echo::command_value(arg),
            Command::Info(arg) => Info::command_value(arg),
            Command::SetKey(arg) => SetKey::command_value(arg),
            Command::Get(arg) => Get::command_value(arg),
            Command::ReplConf(arg) => ReplConf::command_value(arg),
        }
    }
}

/// The text `text` as a bulk string.
pub open spec fn word(text: Seq<char>) -> ValueView {
    ValueView::BulkString(Some(vstd::utf8::encode_utf8(text)))
}

/// The text `text` as a bulk string.
pub fn word_value(text: &str) -> (r: Value)
    ensures
        r@ == word(text@),
{
    Value::BulkString(BulkString::from(text))
}

/// The value that is sent for the command `c`: an array of bulk strings, the
/// name first.
pub open spec fn command_value_spec(c: CommandView) -> ValueView {
    match c {
        CommandView::Ping { msg: None } => ValueView::Array(Some(seq![word("PING"@)])),
        CommandView::Ping { msg: Some(m) } => ValueView::Array(
            Some(seq![word("PING"@), ValueView::BulkString(m)]),
        ),
        CommandView::Echo { msg } => ValueView::Array(
            Some(seq![word("ECHO"@), ValueView::BulkString(msg)]),
        ),
        CommandView::Info { section: InfoSection::Default } => ValueView::Array(
            Some(seq![word("INFO"@)]),
        ),
        CommandView::Info { section: InfoSection::Replication } => ValueView::Array(
            Some(seq![word("INFO"@), word("replication"@)]),
        ),
        CommandView::SetKey { key, value, expiry: None } => ValueView::Array(
            Some(seq![word("SET"@), ValueView::BulkString(key), ValueView::BulkString(value)]),
        ),
        CommandView::SetKey { key, value, expiry: Some(millis) } => ValueView::Array(
            Some(
                seq![
                    word("SET"@),
                    ValueView::BulkString(key),
                    ValueView::BulkString(value),
                    word("px"@),
                    ValueView::BulkString(Some(crate::decimal::nat_to_digits(millis as nat))),
                ],
            ),
        ),
        CommandView::Get { key } => ValueView::Array(
            Some(seq![word("GET"@), ValueView::BulkString(key)]),
        ),
        CommandView::ReplConf { config: ReplConfView::ListeningPort(port) } => ValueView::Array(
            Some(
                seq![
                    word("REPLCONF"@),
                    word("listening-port"@),
                    ValueView::BulkString(Some(crate::decimal::nat_to_digits(port as nat))),
                ],
            ),
        ),
        CommandView::ReplConf { config: ReplConfView::Capabilities(text) } => ValueView::Array(
            Some(seq![word("REPLCONF"@), word("capa"@), word(text)]),
        ),
    }
}

} // verus!
