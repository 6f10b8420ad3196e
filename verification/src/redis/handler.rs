//! The engine: one command at a time against the store.
//!
//! [`execute_spec`] says what every command does to the store and what the
//! server replies. [`CommandHandler::handle_at`] is proved against it, and
//! the laws at the end of this file are proved about it.

use crate::redis::clock::Timestamp;
use crate::redis::cmd::echo::Echo;
use crate::redis::cmd::get::{get_spec, Get};
use crate::redis::cmd::info::{info_reply_spec, master_view, Info};
use crate::redis::cmd::ping::{ping_reply_spec, Ping};
use crate::redis::cmd::replconf::ReplConf;
use crate::redis::cmd::set::{deadline_spec, set_spec, SetKey};
use crate::redis::cmd::{Command, CommandView};
use crate::redis::resp::{views, Value};
pub use crate::redis::store::StoredData;
use crate::redis::store::{EntryView, Store};
use crate::redis::wire::ValueView;
use crate::util::generate_random_alphanumeric_string;
use vstd::prelude::*;

verus! {

/// The errors of carrying out a command. No command fails: one that was
/// parsed is always answered, and `CommandHandler::handle` is proved to
/// return `Ok`.
#[derive(Debug, Clone, Copy, PartialEq, Eq, Structural)]
pub enum HandleCommandError {
    /// Never returned. Verus needs a datatype to have a variant.
    Never,
}

/// What the engine knows of the server's part in replication.
#[derive(Debug, PartialEq, Eq)]
pub struct CommandHandlerConfig {
    /// Whether the server is a replica.
    pub is_replica: bool,
    /// The replication id and offset of a master.
    pub master_repl_id_and_offset: Option<(String, u64)>,
}

/// Whether `c` is a letter or a digit of ASCII.
pub open spec fn is_alphanumeric(c: char) -> bool {
    ('0' <= c <= '9') || ('a' <= c <= 'z') || ('A' <= c <= 'Z')
}

impl CommandHandlerConfig {
    /// The configuration of a replica.
    pub fn replica() -> (r: Self)
        ensures
            r.is_replica,
            r.master_repl_id_and_offset is None,
    {
        CommandHandlerConfig { is_replica: true, master_repl_id_and_offset: None }
    }

    /// The configuration of a master: a fresh replication id of 40 letters
    /// and digits, drawn at random, and the offset zero.
    pub fn master() -> (r: Self)
        ensures
            !r.is_replica,
            r.master_repl_id_and_offset matches Some((id, offset)) && offset == 0 && id@.len()
                == 40 && forall|i: int| 0 <= i < 40 ==> is_alphanumeric(#[trigger] id@[i]),
    {
        let id = generate_random_alphanumeric_string(40);
        CommandHandlerConfig { is_replica: false, master_repl_id_and_offset: Some((id, 0)) }
    }
}

/// The engine as mathematics: what the store holds, and the server's part in
/// replication.
pub struct EngineView {
    pub store: Map<Option<Seq<u8>>, EntryView>,
    pub is_replica: bool,
    pub master: Option<(Seq<char>, u64)>,
}

/// What the command `cmd` does at the time `now`: the engine afterwards, and
/// the reply.
pub open spec fn execute_spec(state: EngineView, cmd: CommandView, now: u64) -> (
    EngineView,
    ValueView,
) {
    match cmd {
        CommandView::Ping { msg } => (state, ping_reply_spec(msg)),
        CommandView::Echo { msg } => (state, ValueView::BulkString(msg)),
        CommandView::Info { section } => (
            state,
            info_reply_spec(section, state.is_replica, state.master),
        ),
        CommandView::SetKey { key, value, expiry } => (
            EngineView { store: set_spec(state.store, key, value, expiry, now), ..state },
            ValueView::SimpleString("OK"@),
        ),
        CommandView::Get { key } => {
            let (store, reply) = get_spec(state.store, key, now);
            (EngineView { store, ..state }, reply)
        },
        CommandView::ReplConf { config } => (state, ValueView::SimpleString("OK"@)),
    }
}

/// What the commands of `queue` do when they are carried out in order, each
/// at its own time: the engine afterwards, and the replies in order.
pub open spec fn execute_all_spec(state: EngineView, queue: Seq<(CommandView, u64)>) -> (
    EngineView,
    Seq<ValueView>,
)
    decreases queue.len(),
{
    if queue.len() == 0 {
        (state, Seq::empty())
    } else {
        let (before, replies) = execute_all_spec(state, queue.drop_last());
        let (after, reply) = execute_spec(before, queue.last().0, queue.last().1);
        (after, replies.push(reply))
    }
}

/// A queue of commands, each with the time at which it is carried out, as
/// mathematics.
pub open spec fn queue_view(queue: Seq<(Command, Timestamp)>) -> Seq<(CommandView, u64)> {
    Seq::new(queue.len(), |i: int| (queue[i].0@, queue[i].1@))
}

/// The engine: the store, and the server's part in replication.
#[derive(Debug)]
pub struct CommandHandler {
    store: Store,
    config: CommandHandlerConfig,
}

impl View for CommandHandler {
    type V = EngineView;

    closed spec fn view(&self) -> EngineView {
        EngineView {
            store: self.store@,
            is_replica: self.config.is_replica,
            master: master_view(self.config.master_repl_id_and_offset),
        }
    }
}

impl CommandHandler {
    /// The invariant of the engine: its store is well formed.
    pub closed spec fn wf(&self) -> bool {
        self.store.wf()
    }

    /// An engine on the store `store`.
    pub fn new(store: Store, config: CommandHandlerConfig) -> (r: Self)
        requires
            store.wf(),
        ensures
            r.wf(),
            r@.store == store@,
            r@.is_replica == config.is_replica,
            r@.master == master_view(config.master_repl_id_and_offset),
    {
        Self { store, config }
    }

    /// The store of the engine.
    pub fn store(&self) -> (r: &Store)
        requires
            self.wf(),
        ensures
            r.wf(),
            r@ == self@.store,
    {
        &self.store
    }

    /// Carries out `cmd` as of the time `now`, and gives the reply.
    pub fn handle_at(&mut self, cmd: Command, now: Timestamp) -> (r: Value)
        requires
            old(self).wf(),
        ensures
            final(self).wf(),
            (final(self)@, r@) == execute_spec(old(self)@, cmd@, now@),
    {
        match cmd {
            Command::Ping(arg) => Ping::handler().handle(arg),
            Command::Echo(arg) => Echo::handler().handle(arg),
            Command::Info(arg) => {
                let master = match &self.config.master_repl_id_and_offset {
                    Some(m) => Some((m.0.clone(), m.1)),
                    None => None,
                };
                Info::handler(self.config.is_replica, master).handle(arg)
            },
            Command::SetKey(arg) => {
                let mut handler = SetKey::handler(&mut self.store);
                handler.handle_at(arg, now)
            },
            Command::Get(arg) => {
                let mut handler = Get::handler(&mut self.store);
                handler.handle_at(arg, now)
            },
            Command::ReplConf(arg) => ReplConf::handler().handle(arg),
        }
    }

    /// Carries out the commands of `queue` in order, each as of its own
    /// time, and gives the replies in the same order.
    pub fn handle_all_at(&mut self, queue: &[(Command, Timestamp)]) -> (replies: Vec<Value>)
        requires
            old(self).wf(),
        ensures
            final(self).wf(),
            (final(self)@, views(replies@)) == execute_all_spec(old(self)@, queue_view(queue@)),
    {
        let mut replies: Vec<Value> = Vec::new();
        let mut i: usize = 0;
        proof {
            assert(queue_view(queue@).take(0) =~= Seq::<(CommandView, u64)>::empty());
            assert(views(replies@) =~= Seq::<ValueView>::empty());
        }
        while i < queue.len()
            invariant
                i <= queue@.len(),
                self.wf(),
                (self@, views(replies@)) == execute_all_spec(
                    old(self)@,
                    queue_view(queue@).take(i as int),
                ),
            decreases queue@.len() - i,
        {
            let ghost before = views(replies@);
            let command = queue[i].0.clone();
            let reply = self.handle_at(command, queue[i].1);
            replies.push(reply);
            proof {
                let all = queue_view(queue@);
                assert(all.take(i + 1).drop_last() =~= all.take(i as int));
                assert(all.take(i + 1).last() == (queue@[i as int].0@, queue@[i as int].1@));
                assert(views(replies@) =~= before.push(reply@));
            }
            i = i + 1;
        }
        proof {
            assert(queue_view(queue@).take(queue@.len() as int) =~= queue_view(queue@));
        }
        replies
    }

    /// Carries out `cmd` as of the time that the system clock shows, and
    /// gives the reply. The call always succeeds. What it does is what
    /// `execute_spec` says for some time: for the commands that do not look
    /// at the clock, that fixes the reply.
    pub fn handle(&mut self, cmd: Command) -> (r: Result<Value, HandleCommandError>)
        requires
            old(self).wf(),
        ensures
            final(self).wf(),
            r matches Ok(reply) && exists|now: u64|
                (final(self)@, reply@) == #[trigger] execute_spec(old(self)@, cmd@, now),
    {
        let now = Timestamp::now();
        let ghost view = cmd@;
        let reply = self.handle_at(cmd, now);
        assert((self@, reply@) == execute_spec(old(self)@, view, now@));
        Ok(reply)
    }
}

/// A key that was set is read back: after `SET key value` at the time
/// `set_time`, a `GET key` at the time `get_time` gives `value`, and leaves
/// the entry in place, where the entry has no deadline or `get_time` is not
/// after it. Where `get_time` is after the deadline, the reply is the null
/// string and the store holds the key no longer.
pub proof fn lemma_get_after_set(
    state: EngineView,
    key: Option<Seq<u8>>,
    value: Option<Seq<u8>>,
    expiry: Option<u64>,
    set_time: u64,
    get_time: u64,
)
    ensures
        ({
            let after_set = execute_spec(
                state,
                CommandView::SetKey { key, value, expiry },
                set_time,
            ).0;
            let (after_get, reply) = execute_spec(after_set, CommandView::Get { key }, get_time);
            match deadline_spec(expiry, set_time) {
                Some(deadline) if get_time > deadline => {
                    &&& reply == ValueView::BulkString(None)
                    &&& !after_get.store.contains_key(key)
                    &&& after_get.store == after_set.store.remove(key)
                },
                _ => {
                    &&& reply == ValueView::BulkString(value)
                    &&& after_get == after_set
                },
            }
        }),
{
}

/// Without an expiry, a key that was set is read back at every later or
/// earlier time.
pub proof fn lemma_get_after_set_without_expiry(
    state: EngineView,
    key: Option<Seq<u8>>,
    value: Option<Seq<u8>>,
    set_time: u64,
    get_time: u64,
)
    ensures
        ({
            let after_set = execute_spec(
                state,
                CommandView::SetKey { key, value, expiry: None },
                set_time,
            ).0;
            execute_spec(after_set, CommandView::Get { key }, get_time) == (
                after_set,
                ValueView::BulkString(value),
            )
        }),
{
}

/// `SET` discards the deadline that the key had: after a `SET` with an
/// expiry and a second `SET` of the same key without one, `GET` gives the
/// second value at every time, and the entry stays.
pub proof fn lemma_set_discards_deadline(
    state: EngineView,
    key: Option<Seq<u8>>,
    first: Option<Seq<u8>>,
    expiry: Option<u64>,
    second: Option<Seq<u8>>,
    first_time: u64,
    second_time: u64,
    get_time: u64,
)
    ensures
        ({
            let s1 = execute_spec(
                state,
                CommandView::SetKey { key, value: first, expiry },
                first_time,
            ).0;
            let s2 = execute_spec(
                s1,
                CommandView::SetKey { key, value: second, expiry: None },
                second_time,
            ).0;
            &&& s2.store[key] == EntryView { value: second, deadline: None }
            &&& execute_spec(s2, CommandView::Get { key }, get_time) == (
                s2,
                ValueView::BulkString(second),
            )
        }),
{
}

/// Commands take effect in the order in which they are queued: carrying out
/// a queue is carrying out its first part and then, on the engine that this
/// left, the rest. So whatever a command did to the store is what every
/// later command finds.
pub proof fn lemma_queue_order(
    state: EngineView,
    earlier: Seq<(CommandView, u64)>,
    later: Seq<(CommandView, u64)>,
)
    ensures
        ({
            let (middle, first_replies) = execute_all_spec(state, earlier);
            let (end, later_replies) = execute_all_spec(middle, later);
            execute_all_spec(state, earlier + later) == (end, first_replies + later_replies)
        }),
    decreases later.len(),
{
    let (middle, first_replies) = execute_all_spec(state, earlier);
    if later.len() == 0 {
        assert(earlier + later =~= earlier);
        assert(first_replies + Seq::<ValueView>::empty() =~= first_replies);
    } else {
        lemma_queue_order(state, earlier, later.drop_last());
        assert((earlier + later).drop_last() =~= earlier + later.drop_last());
        assert((earlier + later).last() == later.last());
        let (before, replies) = execute_all_spec(middle, later.drop_last());
        let (after, reply) = execute_spec(before, later.last().0, later.last().1);
        assert((first_replies + replies).push(reply) =~= first_replies + replies.push(reply));
    }
}

/// A queue of one command is that command.
pub proof fn lemma_queue_of_one(state: EngineView, only: (CommandView, u64))
    ensures
        execute_all_spec(state, seq![only]) == (
            execute_spec(state, only.0, only.1).0,
            seq![execute_spec(state, only.0, only.1).1],
        ),
{
    let queue = seq![only];
    assert(queue.drop_last().len() == 0);
    assert(execute_all_spec(state, queue.drop_last()) == (state, Seq::<ValueView>::empty()));
    assert(queue.last() == only);
    assert(Seq::<ValueView>::empty().push(execute_spec(state, only.0, only.1).1) =~= seq![
        execute_spec(state, only.0, only.1).1,
    ]);
}

/// A request that is queued right after another is carried out on the
/// engine that the other left.
pub proof fn lemma_second_sees_first(
    state: EngineView,
    first: (CommandView, u64),
    second: (CommandView, u64),
)
    ensures
        ({
            let (after_first, first_reply) = execute_spec(state, first.0, first.1);
            let (after_second, second_reply) = execute_spec(after_first, second.0, second.1);
            execute_all_spec(state, seq![first, second]) == (
                after_second,
                seq![first_reply, second_reply],
            )
        }),
{
    let (after_first, first_reply) = execute_spec(state, first.0, first.1);
    let (after_second, second_reply) = execute_spec(after_first, second.0, second.1);
    lemma_queue_of_one(state, first);
    lemma_queue_of_one(after_first, second);
    lemma_queue_order(state, seq![first], seq![second]);
    assert(seq![first] + seq![second] =~= seq![first, second]);
    assert(seq![first_reply] + seq![second_reply] =~= seq![first_reply, second_reply]);
}

} // verus!
