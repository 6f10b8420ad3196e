//! How many arguments a command takes: laws of the argument parsers.

use crate::redis::cmd::echo::EchoArg;
use crate::redis::cmd::get::GetArg;
use crate::redis::cmd::set::SetArg;
use crate::redis::cmd::{
    bulk_prefix_spec, consume_args_spec, CommandArgParser, CommandView, ParseCommandErrorView,
};
use crate::redis::wire::ValueView;
use crate::text::spells;
use vstd::prelude::*;

verus! {

/// Whether every one of `args` is a bulk string.
pub open spec fn all_bulk(args: Seq<ValueView>) -> bool {
    forall|i: int| 0 <= i < args.len() ==> #[trigger] args[i] is BulkString
}

/// The strings that the bulk strings `args` hold.
pub open spec fn bulks_of(args: Seq<ValueView>) -> Seq<Option<Seq<u8>>> {
    Seq::new(args.len(), |i: int| args[i]->BulkString_0)
}

/// Bulk strings are taken as they are.
pub proof fn lemma_bulk_prefix_of_bulks(args: Seq<ValueView>, n: nat)
    requires
        all_bulk(args),
        n <= args.len(),
    ensures
        bulk_prefix_spec(args, n) == Ok::<Seq<Option<Seq<u8>>>, ParseCommandErrorView>(
            bulks_of(args).take(n as int),
        ),
    decreases n,
{
    if n == 0 {
        assert(bulks_of(args).take(0) =~= Seq::<Option<Seq<u8>>>::empty());
    } else {
        lemma_bulk_prefix_of_bulks(args, (n - 1) as nat);
        assert(args[n - 1] is BulkString);
        assert(bulks_of(args).take(n as int) =~= bulks_of(args).take(n - 1).push(
            args[n - 1]->BulkString_0,
        ));
    }
}

/// The arity is checked exactly: of bulk strings, a command takes all where
/// their number lies between the required arguments and the required plus
/// the optional ones, and refuses them as the wrong number of arguments
/// otherwise. No argument is passed over in silence.
pub proof fn lemma_arity_is_exact(args: Seq<ValueView>, necessary: nat, optional: nat)
    requires
        all_bulk(args),
    ensures
        consume_args_spec(args, necessary, optional) == if necessary <= args.len() <= necessary
            + optional {
            Ok::<Seq<Option<Seq<u8>>>, ParseCommandErrorView>(bulks_of(args))
        } else {
            Err::<Seq<Option<Seq<u8>>>, ParseCommandErrorView>(
                ParseCommandErrorView::WrongNumArgs,
            )
        },
{
    let places = if args.len() <= necessary + optional {
        args.len()
    } else {
        necessary + optional
    };
    lemma_bulk_prefix_of_bulks(args, places);
    if args.len() <= necessary + optional {
        assert(bulks_of(args).take(args.len() as int) =~= bulks_of(args));
    }
}

/// `GET` with no argument, or with two or more, is refused as the wrong
/// number of arguments; with one, it is accepted.
pub proof fn lemma_get_arity(args: Seq<ValueView>)
    requires
        all_bulk(args),
    ensures
        args.len() != 1 ==> GetArg::parse_arg_spec(args) == Err::<
            CommandView,
            ParseCommandErrorView,
        >(ParseCommandErrorView::WrongNumArgs),
        args.len() == 1 ==> GetArg::parse_arg_spec(args) == Ok::<
            CommandView,
            ParseCommandErrorView,
        >(CommandView::Get { key: args[0]->BulkString_0 }),
{
    lemma_arity_is_exact(args, 1, 0);
}

/// `ECHO` with no argument, or with two or more, is refused as the wrong
/// number of arguments; with one, it is accepted.
pub proof fn lemma_echo_arity(args: Seq<ValueView>)
    requires
        all_bulk(args),
    ensures
        args.len() != 1 ==> EchoArg::parse_arg_spec(args) == Err::<
            CommandView,
            ParseCommandErrorView,
        >(ParseCommandErrorView::WrongNumArgs),
        args.len() == 1 ==> EchoArg::parse_arg_spec(args) == Ok::<
            CommandView,
            ParseCommandErrorView,
        >(CommandView::Echo { msg: args[0]->BulkString_0 }),
{
    lemma_arity_is_exact(args, 1, 0);
}

/// `SET` with a third argument that does not spell `PX` is refused: the
/// third argument is invalid.
pub proof fn lemma_set_keyword(args: Seq<ValueView>)
    requires
        all_bulk(args),
        3 <= args.len() <= 4,
        !(args[2] matches ValueView::BulkString(Some(keyword)) && spells(keyword, "px"@)),
    ensures
        SetArg::parse_arg_spec(args) == Err::<CommandView, ParseCommandErrorView>(
            ParseCommandErrorView::InvalidArgument(args[2]),
        ),
{
    lemma_arity_is_exact(args, 2, 2);
    assert(args[2] is BulkString);
}

/// `SET` with fewer than two arguments, or with more than four, is refused
/// as the wrong number of arguments.
pub proof fn lemma_set_arity(args: Seq<ValueView>)
    requires
        all_bulk(args),
        args.len() < 2 || args.len() > 4,
    ensures
        SetArg::parse_arg_spec(args) == Err::<CommandView, ParseCommandErrorView>(
            ParseCommandErrorView::WrongNumArgs,
        ),
{
    lemma_arity_is_exact(args, 2, 2);
}

} // verus!
