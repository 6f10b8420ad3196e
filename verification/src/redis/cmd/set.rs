//! `SET key value [PX milliseconds]`.

use crate::decimal::{nat_to_digits, push_digits};
use crate::redis::clock::{Duration, Timestamp};
use crate::redis::cmd::{
    bulk_string_to_uint64, command_value_spec, consume_args, consume_args_spec, uint64_arg_spec,
    word, word_value, CommandArgParser, CommandView, ParseCommandError, ParseCommandErrorView,
};
use crate::redis::resp::{views, Array, BulkString, SimpleString, Value};
use crate::redis::store::{EntryView, Store, StoredData};
use crate::redis::wire::ValueView;
use crate::text::{is_word, spells};
use vstd::prelude::*;

verus! {

/// The arguments of `SET`.
#[derive(Debug, PartialEq, Eq)]
pub struct SetArg {
    /// The key to set.
    pub key: BulkString,
    /// The value to store.
    pub value: BulkString,
    /// How long the entry is to live, if not for ever.
    pub expiry: Option<Duration>,
}

impl View for SetArg {
    type V = CommandView;

    open spec fn view(&self) -> CommandView {
        CommandView::SetKey {
            key: self.key@,
            value: self.value@,
            expiry: match self.expiry {
                Some(span) => Some(span@),
                None => None,
            },
        }
    }
}

impl Clone for SetArg {
    fn clone(&self) -> (r: Self)
        ensures
            r@ == self@,
    {
        SetArg { key: self.key.clone(), value: self.value.clone(), expiry: self.expiry }
    }
}

impl SetArg {
    /// The arguments of a `SET` of `key` to `value` that expires after
    /// `expiry`, if one is given.
    pub fn new(key: BulkString, value: BulkString, expiry: Option<Duration>) -> (r: Self)
        ensures
            r.key == key,
            r.value == value,
            r.expiry == expiry,
    {
        SetArg { key, value, expiry }
    }
}

impl CommandArgParser for SetArg {
    /// `SET` takes two required arguments, the key and the value, and two
    /// optional ones that come together: a word that spells `PX`, and a
    /// count of milliseconds. A third argument that does not spell `PX` is an
    /// invalid argument; `PX` without a count is the wrong number of
    /// arguments.
    open spec fn parse_arg_spec(args: Seq<ValueView>) -> Result<
        CommandView,
        ParseCommandErrorView,
    > {
        match consume_args_spec(args, 2, 2) {
            Err(e) => Err(e),
            Ok(taken) => {
                if taken.len() == 2 {
                    Ok(CommandView::SetKey { key: taken[0], value: taken[1], expiry: None })
                } else if !(taken[2] matches Some(keyword) && spells(keyword, "px"@)) {
                    Err(ParseCommandErrorView::InvalidArgument(ValueView::BulkString(taken[2])))
                } else if taken.len() == 3 {
                    Err(ParseCommandErrorView::WrongNumArgs)
                } else {
                    match uint64_arg_spec(taken[3]) {
                        Err(e) => Err(e),
                        Ok(millis) => Ok(
                            CommandView::SetKey {
                                key: taken[0],
                                value: taken[1],
                                expiry: Some(millis),
                            },
                        ),
                    }
                }
            },
        }
    }

    fn parse_arg(args: &[Value]) -> (r: Result<Self, ParseCommandError>) {
        let taken = match consume_args(args, 2, 2) {
            Ok(taken) => taken,
            Err(e) => {
                return Err(e);
            },
        };
        let key = taken[0].clone();
        let value = taken[1].clone();
        if taken.len() == 2 {
            return Ok(SetArg { key, value, expiry: None });
        }
        let keyword = &taken[2];
        proof {
            reveal_strlit("px");
        }
        let is_px = match keyword.as_bytes() {
            Some(bytes) => is_word(bytes, "px"),
            None => false,
        };
        if !is_px {
            return Err(ParseCommandError::InvalidArgument(Value::BulkString(keyword.clone())));
        }
        if taken.len() == 3 {
            return Err(ParseCommandError::WrongNumArgs);
        }
        match bulk_string_to_uint64(&taken[3]) {
            Ok(millis) => Ok(SetArg { key, value, expiry: Some(Duration::from_millis(millis)) }),
            Err(e) => Err(e),
        }
    }
}

/// The deadline of an entry that is set at the time `now` to live for
/// `expiry` milliseconds: that much later, or none where no expiry is given
/// or the sum is beyond what a timestamp can hold.
pub open spec fn deadline_spec(expiry: Option<u64>, now: u64) -> Option<u64> {
    match expiry {
        Some(span) if now + span <= u64::MAX => Some((now + span) as u64),
        _ => None,
    }
}

/// The store after `SET key value` with the expiry `expiry`, at the time
/// `now`: the key has the new value and the new deadline, whatever it had
/// before.
pub open spec fn set_spec(
    store: Map<Option<Seq<u8>>, EntryView>,
    key: Option<Seq<u8>>,
    value: Option<Seq<u8>>,
    expiry: Option<u64>,
    now: u64,
) -> Map<Option<Seq<u8>>, EntryView> {
    store.insert(key, EntryView { value, deadline: deadline_spec(expiry, now) })
}

/// The command `SET`.
pub struct SetKey;

impl SetKey {
    /// The client of `SET`.
    pub fn client() -> SetClient {
        SetClient {  }
    }

    /// The handler of `SET`, on the store `store`.
    pub fn handler(store: &mut Store) -> (r: SetHandler<'_>)
        ensures
            *r.store == *old(store),
            *final(r.store) == *final(store),
    {
        SetHandler { store }
    }

    /// The value that is sent for `SET` with the arguments `arg`.
    pub fn command_value(arg: SetArg) -> (r: Value)
        ensures
            r@ == command_value_spec(arg@),
    {
        let mut parts: Vec<Value> = Vec::new();
        parts.push(word_value("SET"));
        parts.push(Value::BulkString(arg.key));
        parts.push(Value::BulkString(arg.value));
        match arg.expiry {
            Some(span) => {
                let mut digits: Vec<u8> = Vec::new();
                push_digits(&mut digits, span.as_millis());
                assert(digits@ =~= nat_to_digits(span@ as nat));
                parts.push(word_value("px"));
                parts.push(Value::BulkString(BulkString::new(digits)));
                proof {
                    assert(views(parts@) =~= seq![
                        word("SET"@),
                        ValueView::BulkString(arg.key@),
                        ValueView::BulkString(arg.value@),
                        word("px"@),
                        ValueView::BulkString(Some(nat_to_digits(span@ as nat))),
                    ]);
                }
            },
            None => {
                proof {
                    assert(views(parts@) =~= seq![
                        word("SET"@),
                        ValueView::BulkString(arg.key@),
                        ValueView::BulkString(arg.value@),
                    ]);
                }
            },
        }
        Value::Array(Array::new(parts))
    }
}

/// The client of `SET`.
pub struct SetClient;

/// The handler of `SET`.
#[derive(Debug)]
pub struct SetHandler<'a> {
    /// The store that the handler writes to.
    pub store: &'a mut Store,
}

impl<'a> SetHandler<'a> {
    /// Carries out `SET` as of the time `now`, and answers `OK`.
    pub fn handle_at(&mut self, arg: SetArg, now: Timestamp) -> (r: Value)
        requires
            old(self).store.wf(),
        ensures
            (*final(self).store).wf(),
            arg@ matches CommandView::SetKey { key, value, expiry } && (*final(self).store)@
                == set_spec((*old(self).store)@, key, value, expiry, now@),
            r@ == ValueView::SimpleString("OK"@),
            *final(final(self).store) == *final(old(self).store),
    {
        let deadline = match arg.expiry {
            Some(expiry) => now.checked_add(expiry),
            None => None,
        };
        let data = StoredData { value: arg.value, deadline };
        self.store.insert(arg.key, data);
        Value::SimpleString(SimpleString::from("OK"))
    }

    /// Carries out `SET` as of the time that the system clock shows, and
    /// answers `OK`. Afterwards the store holds the value for the key, and
    /// holds for every other key what it held before. Without an expiry the
    /// entry has no deadline.
    pub fn handle(&mut self, arg: SetArg) -> (r: Value)
        requires
            old(self).store.wf(),
        ensures
            (*final(self).store).wf(),
            arg@ matches CommandView::SetKey { key, value, expiry } && exists|now: u64|
                (*final(self).store)@ == #[trigger] set_spec(
                    (*old(self).store)@,
                    key,
                    value,
                    expiry,
                    now,
                ),
            r@ == ValueView::SimpleString("OK"@),
            *final(final(self).store) == *final(old(self).store),
    {
        let now = Timestamp::now();
        let ghost view = arg@;
        let r = self.handle_at(arg, now);
        proof {
            match view {
                CommandView::SetKey { key, value, expiry } => {
                    assert((*self.store)@ == set_spec(
                        (*old(self).store)@,
                        key,
                        value,
                        expiry,
                        now@,
                    ));
                },
                _ => {},
            }
        }
        r
    }
}

} // verus!
