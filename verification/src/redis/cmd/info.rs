//! `INFO [section]`.

use crate::decimal::{nat_to_digits, push_digits};
use crate::redis::cmd::{
    command_value_spec, consume_args, consume_args_spec, text_arg_spec, word, word_value,
    CommandArgParser, CommandView, ParseCommandError, ParseCommandErrorView,
};
use crate::redis::resp::{views, Array, BulkString, SimpleError, Value};
use crate::redis::wire::{ValueView, LF};
use crate::text::{is_word, push_bytes, spells};
use vstd::prelude::*;
use vstd::utf8::encode_utf8;

verus! {

/// A part of what `INFO` can report.
#[derive(Debug, Clone, Copy, PartialEq, Eq, Structural)]
pub enum InfoSection {
    /// No section was named, or one that is not known.
    Default,
    /// The role of the server in replication.
    Replication,
}

/// The arguments of `INFO`.
#[derive(Debug, Clone, Copy, PartialEq, Eq, Structural)]
pub struct InfoArg {
    /// The section asked for.
    pub section: InfoSection,
}

impl View for InfoArg {
    type V = CommandView;

    open spec fn view(&self) -> CommandView {
        CommandView::Info { section: self.section }
    }
}

/// The section that the optional argument `arg` names. The argument must be
/// text. It names the replication section where it spells `replication`;
/// anything else, or no argument, is the default section.
pub open spec fn info_section_spec(arg: Option<Option<Seq<u8>>>) -> Result<
    InfoSection,
    ParseCommandErrorView,
> {
    match arg {
        None => Ok(InfoSection::Default),
        Some(bulk) => match text_arg_spec(bulk) {
            Err(e) => Err(e),
            Ok(bytes) => if spells(bytes, "replication"@) {
                Ok(InfoSection::Replication)
            } else {
                Ok(InfoSection::Default)
            },
        },
    }
}

impl CommandArgParser for InfoArg {
    /// `INFO` takes no required argument and one optional one, the section.
    open spec fn parse_arg_spec(args: Seq<ValueView>) -> Result<
        CommandView,
        ParseCommandErrorView,
    > {
        match consume_args_spec(args, 0, 1) {
            Err(e) => Err(e),
            Ok(taken) => match info_section_spec(
                if taken.len() > 0 {
                    Some(taken[0])
                } else {
                    None
                },
            ) {
                Err(e) => Err(e),
                Ok(section) => Ok(CommandView::Info { section }),
            },
        }
    }

    fn parse_arg(args: &[Value]) -> (r: Result<Self, ParseCommandError>) {
        let taken = match consume_args(args, 0, 1) {
            Ok(taken) => taken,
            Err(e) => {
                return Err(e);
            },
        };
        let section = if taken.len() > 0 {
            Self::parse_info_section(Some(&taken[0]))
        } else {
            Self::parse_info_section(None)
        };
        match section {
            Ok(section) => Ok(InfoArg { section }),
            Err(e) => Err(e),
        }
    }
}

impl InfoArg {
    /// Reads the section that the optional argument names.
    pub fn parse_info_section(opt_bs: Option<&BulkString>) -> (r: Result<
        InfoSection,
        ParseCommandError,
    >)
        ensures
            match info_section_spec(
                match opt_bs {
                    Some(bs) => Some(bs@),
                    None => None,
                },
            ) {
                Ok(section) => r matches Ok(s) && s == section,
                Err(e) => r matches Err(x) && x@ == e,
            },
    {
        let bs = match opt_bs {
            Some(bs) => bs,
            None => {
                return Ok(InfoSection::Default);
            },
        };
        match bs.as_str() {
            None => Err(ParseCommandError::InvalidArgument(Value::BulkString(bs.clone()))),
            Some(_) => {
                proof {
                    reveal_strlit("replication");
                }
                let names_replication = match bs.as_bytes() {
                    Some(bytes) => is_word(bytes, "replication"),
                    None => false,
                };
                if names_replication {
                    Ok(InfoSection::Replication)
                } else {
                    Ok(InfoSection::Default)
                }
            },
        }
    }
}

/// What the replication section reports: `role:slave` for a replica. For a
/// master, `role:master`, followed, where the master has a replication id
/// and offset, by the lines `master_replid:<id>` and
/// `master_repl_offset:<offset>`. Lines are joined by a line feed.
pub open spec fn replication_info_spec(is_replica: bool, master: Option<(Seq<char>, u64)>) -> Seq<
    u8,
> {
    if is_replica {
        encode_utf8("role:slave"@)
    } else {
        match master {
            None => encode_utf8("role:master"@),
            Some((id, offset)) => encode_utf8("role:master"@) + seq![LF] + encode_utf8(
                "master_replid:"@,
            ) + encode_utf8(id) + seq![LF] + encode_utf8("master_repl_offset:"@) + nat_to_digits(
                offset as nat,
            ),
        }
    }
}

/// What the server answers to `INFO`. The replication section is a bulk
/// string. No other section is implemented: asking for the default section
/// is answered with a simple error that says so.
pub open spec fn info_reply_spec(
    section: InfoSection,
    is_replica: bool,
    master: Option<(Seq<char>, u64)>,
) -> ValueView {
    match section {
        InfoSection::Replication => ValueView::BulkString(
            Some(replication_info_spec(is_replica, master)),
        ),
        InfoSection::Default => ValueView::SimpleError("ERR unsupported INFO section"@),
    }
}

/// The command `INFO`.
pub struct Info;

impl Info {
    /// The client of `INFO`.
    pub fn client() -> InfoClient {
        InfoClient {  }
    }

    /// The handler of `INFO` for a server that is a replica or not, and that
    /// has the replication id and offset given, if any.
    pub fn handler(is_replica: bool, master_repl_id_and_offset: Option<(String, u64)>) -> (r:
        InfoHandler)
        ensures
            r.is_replica_spec() == is_replica,
            r.master_spec() == master_view(master_repl_id_and_offset),
    {
        InfoHandler::new(is_replica, master_repl_id_and_offset)
    }

    /// The value that is sent for `INFO` with the arguments `arg`.
    pub fn command_value(arg: InfoArg) -> (r: Value)
        ensures
            r@ == command_value_spec(arg@),
    {
        let mut parts: Vec<Value> = Vec::new();
        parts.push(word_value("INFO"));
        match arg.section {
            InfoSection::Replication => {
                parts.push(word_value("replication"));
                proof {
                    assert(views(parts@) =~= seq![word("INFO"@), word("replication"@)]);
                }
            },
            InfoSection::Default => {
                proof {
                    assert(views(parts@) =~= seq![word("INFO"@)]);
                }
            },
        }
        Value::Array(Array::new(parts))
    }
}

/// The client of `INFO`.
pub struct InfoClient;

/// A replication id and offset as mathematics.
pub open spec fn master_view(master: Option<(String, u64)>) -> Option<(Seq<char>, u64)> {
    match master {
        Some((id, offset)) => Some((id@, offset)),
        None => None,
    }
}

/// The handler of `INFO`.
#[derive(Debug)]
pub struct InfoHandler {
    is_replica: bool,
    master_repl_id_and_offset: Option<(String, u64)>,
}

impl InfoHandler {
    /// Whether the server is a replica.
    pub closed spec fn is_replica_spec(&self) -> bool {
        self.is_replica
    }

    /// The replication id and offset of the server, if it has them.
    pub closed spec fn master_spec(&self) -> Option<(Seq<char>, u64)> {
        master_view(self.master_repl_id_and_offset)
    }

    /// A handler for a server that is a replica or not, and that has the
    /// replication id and offset given, if any.
    pub fn new(is_replica: bool, master_repl_id_and_offset: Option<(String, u64)>) -> (r: Self)
        ensures
            r.is_replica_spec() == is_replica,
            r.master_spec() == master_view(master_repl_id_and_offset),
    {
        Self { is_replica, master_repl_id_and_offset }
    }

    /// Answers `INFO`.
    pub fn handle(&self, arg: InfoArg) -> (r: Value)
        ensures
            r@ == info_reply_spec(arg.section, self.is_replica_spec(), self.master_spec()),
    {
        match arg.section {
            InfoSection::Replication => self.handle_replication(),
            InfoSection::Default => Value::SimpleError(
                SimpleError::from("ERR unsupported INFO section"),
            ),
        }
    }

    /// Reports the replication section.
    pub fn handle_replication(&self) -> (r: Value)
        ensures
            r@ == ValueView::BulkString(
                Some(replication_info_spec(self.is_replica_spec(), self.master_spec())),
            ),
    {
        if self.is_replica {
            Value::BulkString(BulkString::from("role:slave"))
        } else {
            let mut info: Vec<u8> = Vec::new();
            push_bytes(&mut info, "role:master".as_bytes());
            match &self.master_repl_id_and_offset {
                Some(master) => {
                    info.push(LF);
                    push_bytes(&mut info, "master_replid:".as_bytes());
                    push_bytes(&mut info, master.0.as_str().as_bytes());
                    info.push(LF);
                    push_bytes(&mut info, "master_repl_offset:".as_bytes());
                    push_digits(&mut info, master.1 as u128);
                    proof {
                        assert(info@ =~= replication_info_spec(false, self.master_spec()));
                    }
                },
                None => {
                    proof {
                        assert(info@ =~= replication_info_spec(false, self.master_spec()));
                    }
                },
            }
            Value::BulkString(BulkString::new(info))
        }
    }
}

} // verus!
