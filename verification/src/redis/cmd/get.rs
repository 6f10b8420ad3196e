//! `GET key`.

use crate::redis::clock::Timestamp;
use crate::redis::cmd::{
    command_value_spec, consume_args, consume_args_spec, word, word_value, CommandArgParser,
    CommandView, ParseCommandError, ParseCommandErrorView,
};
use crate::redis::resp::{views, Array, BulkString, Value};
use crate::redis::store::{expired_at, EntryView, Store};
use crate::redis::wire::ValueView;
use vstd::prelude::*;

verus! {

/// The arguments of `GET`.
#[derive(Debug, PartialEq, Eq)]
pub struct GetArg {
    /// The key to look up.
    pub key: BulkString,
}

impl View for GetArg {
    type V = CommandView;

    open spec fn view(&self) -> CommandView {
        CommandView::Get { key: self.key@ }
    }
}

impl Clone for GetArg {
    fn clone(&self) -> (r: Self)
        ensures
            r@ == self@,
    {
        GetArg { key: self.key.clone() }
    }
}

impl GetArg {
    /// The arguments of a `GET` of `key`.
    pub fn new(key: BulkString) -> (r: Self)
        ensures
            r.key == key,
    {
        GetArg { key }
    }
}

impl CommandArgParser for GetArg {
    /// `GET` takes one required argument, the key.
    open spec fn parse_arg_spec(args: Seq<ValueView>) -> Result<
        CommandView,
        ParseCommandErrorView,
    > {
        match consume_args_spec(args, 1, 0) {
            Err(e) => Err(e),
            Ok(taken) => Ok(CommandView::Get { key: taken[0] }),
        }
    }

    fn parse_arg(args: &[Value]) -> (r: Result<Self, ParseCommandError>) {
        let taken = match consume_args(args, 1, 0) {
            Ok(taken) => taken,
            Err(e) => {
                return Err(e);
            },
        };
        let key = taken[0].clone();
        Ok(GetArg { key })
    }
}

/// What `GET key` does at the time `now`: the store afterwards, and the
/// reply. A key that the store does not hold gives the null string. An entry
/// that has not expired gives its value. An entry that has expired is
/// removed, and gives the null string.
pub open spec fn get_spec(
    store: Map<Option<Seq<u8>>, EntryView>,
    key: Option<Seq<u8>>,
    now: u64,
) -> (Map<Option<Seq<u8>>, EntryView>, ValueView) {
    if !store.contains_key(key) {
        (store, ValueView::BulkString(None))
    } else if !expired_at(store[key], now) {
        (store, ValueView::BulkString(store[key].value))
    } else {
        (store.remove(key), ValueView::BulkString(None))
    }
}

/// The command `GET`.
pub struct Get;

impl Get {
    /// The client of `GET`.
    pub fn client() -> GetClient {
        GetClient {  }
    }

    /// The handler of `GET`, on the store `store`.
    pub fn handler(store: &mut Store) -> (r: GetHandler<'_>)
        ensures
            *r.store == *old(store),
            *final(r.store) == *final(store),
    {
        GetHandler { store }
    }

    /// The value that is sent for `GET` with the arguments `arg`.
    pub fn command_value(arg: GetArg) -> (r: Value)
        ensures
            r@ == command_value_spec(arg@),
    {
        let mut parts: Vec<Value> = Vec::new();
        parts.push(word_value("GET"));
        parts.push(Value::BulkString(arg.key));
        proof {
            assert(views(parts@) =~= seq![word("GET"@), ValueView::BulkString(arg.key@)]);
        }
        Value::Array(Array::new(parts))
    }
}

/// The client of `GET`.
pub struct GetClient;

/// The handler of `GET`.
pub struct GetHandler<'a> {
    /// The store that the handler reads, and clears of what has expired.
    pub store: &'a mut Store,
}

impl<'a> GetHandler<'a> {
    /// Answers `GET` as of the time `now`.
    pub fn handle_at(&mut self, arg: GetArg, now: Timestamp) -> (r: Value)
        requires
            old(self).store.wf(),
        ensures
            (*final(self).store).wf(),
            ((*final(self).store)@, r@) == get_spec((*old(self).store)@, arg.key@, now@),
            *final(final(self).store) == *final(old(self).store),
    {
        let data = match self.store.get(&arg.key) {
            Some(data) => data.clone(),
            None => {
                return Value::BulkString(BulkString::null());
            },
        };
        if !data.has_expired_at(now) {
            return Value::BulkString(data.value);
        }
        let still_expired = match self.store.get(&arg.key) {
            Some(entry) => entry.has_expired_at(now),
            None => false,
        };
        if still_expired {
            self.store.remove(&arg.key);
        }
        Value::BulkString(BulkString::null())
    }

    /// Answers `GET` as of the time that the system clock shows. The reply
    /// is the null string, or the value that the store holds for the key; a
    /// key that the store does not hold gives the null string, and an entry
    /// without a deadline gives its value.
    pub fn handle(&mut self, arg: GetArg) -> (r: Value)
        requires
            old(self).store.wf(),
        ensures
            (*final(self).store).wf(),
            exists|now: u64|
                ((*final(self).store)@, r@) == #[trigger] get_spec(
                    (*old(self).store)@,
                    arg.key@,
                    now,
                ),
            *final(final(self).store) == *final(old(self).store),
    {
        let now = Timestamp::now();
        let ghost key = arg.key@;
        let r = self.handle_at(arg, now);
        assert(((*self.store)@, r@) == get_spec((*old(self).store)@, key, now@));
        r
    }
}

} // verus!
