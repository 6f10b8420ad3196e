//! `ECHO message`.

use crate::redis::cmd::{
    command_value_spec, consume_args, consume_args_spec, word, word_value, CommandArgParser,
    CommandView, ParseCommandError, ParseCommandErrorView,
};
use crate::redis::client::ClientError;
use crate::redis::resp::{views, Array, BulkString, Value};
use crate::redis::session::{Request, Response, SessionError};
use crate::redis::wire::ValueView;
use vstd::prelude::*;

verus! {

/// The arguments of `ECHO`.
#[derive(Debug, PartialEq, Eq)]
pub struct EchoArg {
    /// The message to send back.
    pub msg: BulkString,
}

impl View for EchoArg {
    type V = CommandView;

    open spec fn view(&self) -> CommandView {
        CommandView::Echo { msg: self.msg@ }
    }
}

impl Clone for EchoArg {
    fn clone(&self) -> (r: Self)
        ensures
            r@ == self@,
    {
        EchoArg { msg: self.msg.clone() }
    }
}

impl EchoArg {
    /// The arguments of an `ECHO` of `msg`.
    pub fn new(msg: BulkString) -> (r: Self)
        ensures
            r.msg == msg,
    {
        EchoArg { msg }
    }
}

impl CommandArgParser for EchoArg {
    /// `ECHO` takes one required argument, the message.
    open spec fn parse_arg_spec(args: Seq<ValueView>) -> Result<
        CommandView,
        ParseCommandErrorView,
    > {
        match consume_args_spec(args, 1, 0) {
            Err(e) => Err(e),
            Ok(taken) => Ok(CommandView::Echo { msg: taken[0] }),
        }
    }

    fn parse_arg(args: &[Value]) -> (r: Result<Self, ParseCommandError>) {
        let taken = match consume_args(args, 1, 0) {
            Ok(taken) => taken,
            Err(e) => {
                return Err(e);
            },
        };
        let msg = taken[0].clone();
        Ok(EchoArg { msg })
    }
}

/// The command `ECHO`.
pub struct Echo;

impl Echo {
    /// The client of `ECHO`.
    pub fn client() -> EchoClient {
        EchoClient {  }
    }

    /// The handler of `ECHO`.
    pub fn handler() -> EchoHandler {
        EchoHandler {  }
    }

    /// The value that is sent for `ECHO` with the arguments `arg`.
    pub fn command_value(arg: EchoArg) -> (r: Value)
        ensures
            r@ == command_value_spec(arg@),
    {
        let mut parts: Vec<Value> = Vec::new();
        parts.push(word_value("ECHO"));
        parts.push(Value::BulkString(arg.msg));
        proof {
            assert(views(parts@) =~= seq![word("ECHO"@), ValueView::BulkString(arg.msg@)]);
        }
        Value::Array(Array::new(parts))
    }
}

/// The handler of `ECHO`.
#[derive(Debug)]
pub struct EchoHandler;

impl EchoHandler {
    /// Answers `ECHO`: the message, unchanged, as a bulk string.
    pub fn handle(&self, arg: EchoArg) -> (r: Value)
        ensures
            r@ == ValueView::BulkString(arg.msg@),
    {
        Value::BulkString(arg.msg)
    }
}

/// The client of `ECHO`: what to send, and what to make of the reply. The
/// sending and the waiting are left to the caller.
pub struct EchoClient;

impl EchoClient {
    /// The request that asks for `ECHO` of the message of `arg`. The null
    /// string cannot be sent as a message.
    pub fn request(&self, arg: &EchoArg) -> (r: Result<Request, ClientError>)
        ensures
            match arg.msg@ {
                Some(_) => r matches Ok(request) && request@ == command_value_spec(arg@),
                None => r matches Err(x) && x == ClientError::InvalidArg,
            },
    {
        if arg.msg.as_bytes().is_none() {
            return Err(ClientError::InvalidArg);
        }
        Ok(Request::new(Echo::command_value(arg.clone())))
    }

    /// What the call comes to, given the outcome of sending the request. A
    /// null message is an invalid argument. A session that failed is passed
    /// on. A response is accepted where it is the message as a bulk string,
    /// and is an invalid response otherwise.
    pub fn accept(&self, arg: &EchoArg, outcome: Result<Response, SessionError>) -> (r: Result<
        Response,
        ClientError,
    >)
        ensures
            match (arg.msg@, outcome) {
                (None, _) => r matches Err(x) && x == ClientError::InvalidArg,
                (Some(_), Err(e)) => r matches Err(x) && x == ClientError::Session(e),
                (Some(_), Ok(response)) => if response@ == ValueView::BulkString(arg.msg@) {
                    r matches Ok(accepted) && accepted@ == response@
                } else {
                    r matches Err(x) && x == ClientError::InvalidResponse
                },
            },
    {
        let msg = match arg.msg.as_bytes() {
            Some(bytes) => bytes,
            None => {
                return Err(ClientError::InvalidArg);
            },
        };
        let response = match outcome {
            Ok(response) => response,
            Err(e) => {
                return Err(ClientError::Session(e));
            },
        };
        if response.is_bulk_string(msg) {
            Ok(response)
        } else {
            Err(ClientError::InvalidResponse)
        }
    }
}

} // verus!
