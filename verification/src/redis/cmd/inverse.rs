//! Reading undoes writing: the value that is sent for a command is read back
//! as that command.

use crate::decimal::{
    lemma_parse_int_to_decimal, nat_to_digits, parse_u16_spec, IntErrorKind,
};
use crate::redis::cmd::arity::{bulks_of, lemma_arity_is_exact};
use crate::redis::cmd::info::InfoSection;
use crate::redis::cmd::{
    command_value_spec, parse_value_spec, text_arg_spec, uint64_arg_spec, word, CommandView,
    ParseCommandErrorView, ReplConfView,
};
use crate::redis::roundtrip::lemma_decimal_is_plain;
use crate::redis::wire::ValueView;
use crate::text::{lemma_spells_ascii, spells};
use vstd::prelude::*;
use vstd::utf8::encode_utf8;

verus! {

/// Which of the six names of commands the name `PING` spells.
proof fn lemma_name_ping()
    ensures
        spells(encode_utf8("PING"@), "ping"@),
{
    reveal_strlit("PING");
    reveal_strlit("ping");
    lemma_spells_ascii("PING"@, "ping"@);
}

/// Which of the six names of commands the name `ECHO` spells.
proof fn lemma_name_echo()
    ensures
        !spells(encode_utf8("ECHO"@), "ping"@),
        spells(encode_utf8("ECHO"@), "echo"@),
{
    reveal_strlit("ECHO");
    reveal_strlit("ping");
    reveal_strlit("echo");
    lemma_spells_ascii("ECHO"@, "ping"@);
    lemma_spells_ascii("ECHO"@, "echo"@);
    assert("ECHO"@[0] == 'E');
    assert("ping"@[0] == 'p');
}

/// Which of the six names of commands the name `SET` spells.
proof fn lemma_name_set()
    ensures
        !spells(encode_utf8("SET"@), "ping"@),
        !spells(encode_utf8("SET"@), "echo"@),
        spells(encode_utf8("SET"@), "set"@),
{
    reveal_strlit("SET");
    reveal_strlit("ping");
    reveal_strlit("echo");
    reveal_strlit("set");
    lemma_spells_ascii("SET"@, "ping"@);
    lemma_spells_ascii("SET"@, "echo"@);
    lemma_spells_ascii("SET"@, "set"@);
}

/// Which of the six names of commands the name `GET` spells.
proof fn lemma_name_get()
    ensures
        !spells(encode_utf8("GET"@), "ping"@),
        !spells(encode_utf8("GET"@), "echo"@),
        !spells(encode_utf8("GET"@), "set"@),
        spells(encode_utf8("GET"@), "get"@),
{
    reveal_strlit("GET");
    reveal_strlit("ping");
    reveal_strlit("echo");
    reveal_strlit("set");
    reveal_strlit("get");
    lemma_spells_ascii("GET"@, "ping"@);
    lemma_spells_ascii("GET"@, "echo"@);
    lemma_spells_ascii("GET"@, "set"@);
    lemma_spells_ascii("GET"@, "get"@);
    assert("GET"@[0] == 'G');
    assert("set"@[0] == 's');
}

/// Which of the six names of commands the name `INFO` spells.
proof fn lemma_name_info()
    ensures
        !spells(encode_utf8("INFO"@), "ping"@),
        !spells(encode_utf8("INFO"@), "echo"@),
        !spells(encode_utf8("INFO"@), "set"@),
        !spells(encode_utf8("INFO"@), "get"@),
        spells(encode_utf8("INFO"@), "info"@),
{
    reveal_strlit("INFO");
    reveal_strlit("ping");
    reveal_strlit("echo");
    reveal_strlit("set");
    reveal_strlit("get");
    reveal_strlit("info");
    lemma_spells_ascii("INFO"@, "ping"@);
    lemma_spells_ascii("INFO"@, "echo"@);
    lemma_spells_ascii("INFO"@, "set"@);
    lemma_spells_ascii("INFO"@, "get"@);
    lemma_spells_ascii("INFO"@, "info"@);
    assert("INFO"@[0] == 'I');
    assert("ping"@[0] == 'p');
    assert("echo"@[0] == 'e');
}

/// Which of the six names of commands the name `REPLCONF` spells.
proof fn lemma_name_replconf()
    ensures
        !spells(encode_utf8("REPLCONF"@), "ping"@),
        !spells(encode_utf8("REPLCONF"@), "echo"@),
        !spells(encode_utf8("REPLCONF"@), "set"@),
        !spells(encode_utf8("REPLCONF"@), "get"@),
        !spells(encode_utf8("REPLCONF"@), "info"@),
        spells(encode_utf8("REPLCONF"@), "replconf"@),
{
    reveal_strlit("REPLCONF");
    reveal_strlit("ping");
    reveal_strlit("echo");
    reveal_strlit("set");
    reveal_strlit("get");
    reveal_strlit("info");
    reveal_strlit("replconf");
    lemma_spells_ascii("REPLCONF"@, "ping"@);
    lemma_spells_ascii("REPLCONF"@, "echo"@);
    lemma_spells_ascii("REPLCONF"@, "set"@);
    lemma_spells_ascii("REPLCONF"@, "get"@);
    lemma_spells_ascii("REPLCONF"@, "info"@);
    lemma_spells_ascii("REPLCONF"@, "replconf"@);
}

/// The words that stand among the arguments spell themselves.
proof fn lemma_argument_words()
    ensures
        spells(encode_utf8("px"@), "px"@),
        spells(encode_utf8("replication"@), "replication"@),
        spells(encode_utf8("listening-port"@), "listening-port"@),
        !spells(encode_utf8("capa"@), "listening-port"@),
        spells(encode_utf8("capa"@), "capa"@),
{
    reveal_strlit("px");
    reveal_strlit("replication");
    reveal_strlit("listening-port");
    reveal_strlit("capa");
    lemma_spells_ascii("px"@, "px"@);
    lemma_spells_ascii("replication"@, "replication"@);
    lemma_spells_ascii("listening-port"@, "listening-port"@);
    lemma_spells_ascii("capa"@, "listening-port"@);
    lemma_spells_ascii("capa"@, "capa"@);
}

/// The canonical numeral of a number is text, and reads as that number.
proof fn lemma_count_argument(n: u64)
    ensures
        text_arg_spec(Some(nat_to_digits(n as nat))) == Ok::<Seq<u8>, ParseCommandErrorView>(
            nat_to_digits(n as nat),
        ),
        uint64_arg_spec(Some(nat_to_digits(n as nat))) == Ok::<u64, ParseCommandErrorView>(n),
        n <= u16::MAX ==> parse_u16_spec(nat_to_digits(n as nat)) == Ok::<u16, IntErrorKind>(
            n as u16,
        ),
{
    lemma_decimal_is_plain(n as int);
    lemma_parse_int_to_decimal(n as int, false, 0, u64::MAX as int);
    if n <= u16::MAX {
        lemma_parse_int_to_decimal(n as int, false, 0, u16::MAX as int);
    }
}

/// The values after the first of a request are its arguments.
proof fn lemma_arguments(name: ValueView, args: Seq<ValueView>)
    ensures
        (seq![name] + args).skip(1) == args,
        (seq![name] + args)[0] == name,
        (seq![name] + args).len() == args.len() + 1,
{
    assert((seq![name] + args).skip(1) =~= args);
}

/// `PING` is read back.
proof fn lemma_inverse_ping(msg: Option<Option<Seq<u8>>>)
    ensures
        parse_value_spec(command_value_spec(CommandView::Ping { msg })) == Ok::<
            CommandView,
            ParseCommandErrorView,
        >(CommandView::Ping { msg }),
{
    lemma_name_ping();
    let args: Seq<ValueView> = match msg {
        Some(m) => seq![ValueView::BulkString(m)],
        None => Seq::empty(),
    };
    lemma_arguments(word("PING"@), args);
    assert(command_value_spec(CommandView::Ping { msg }) == ValueView::Array(
        Some(seq![word("PING"@)] + args),
    )) by {
        match msg {
            Some(m) => {
                assert(seq![word("PING"@), ValueView::BulkString(m)] =~= seq![word("PING"@)]
                    + args);
            },
            None => {
                assert(seq![word("PING"@)] =~= seq![word("PING"@)] + args);
            },
        }
    }
    lemma_arity_is_exact(args, 0, 1);
}

/// `ECHO` is read back.
proof fn lemma_inverse_echo(msg: Option<Seq<u8>>)
    ensures
        parse_value_spec(command_value_spec(CommandView::Echo { msg })) == Ok::<
            CommandView,
            ParseCommandErrorView,
        >(CommandView::Echo { msg }),
{
    lemma_name_echo();
    let args = seq![ValueView::BulkString(msg)];
    lemma_arguments(word("ECHO"@), args);
    assert(seq![word("ECHO"@), ValueView::BulkString(msg)] =~= seq![word("ECHO"@)] + args);
    lemma_arity_is_exact(args, 1, 0);
}

/// `GET` is read back.
proof fn lemma_inverse_get(key: Option<Seq<u8>>)
    ensures
        parse_value_spec(command_value_spec(CommandView::Get { key })) == Ok::<
            CommandView,
            ParseCommandErrorView,
        >(CommandView::Get { key }),
{
    lemma_name_get();
    let args = seq![ValueView::BulkString(key)];
    lemma_arguments(word("GET"@), args);
    assert(seq![word("GET"@), ValueView::BulkString(key)] =~= seq![word("GET"@)] + args);
    lemma_arity_is_exact(args, 1, 0);
}

/// `SET` is read back.
proof fn lemma_inverse_set(key: Option<Seq<u8>>, value: Option<Seq<u8>>, expiry: Option<u64>)
    ensures
        parse_value_spec(command_value_spec(CommandView::SetKey { key, value, expiry })) == Ok::<
            CommandView,
            ParseCommandErrorView,
        >(CommandView::SetKey { key, value, expiry }),
{
    lemma_name_set();
    lemma_argument_words();
    let c = CommandView::SetKey { key, value, expiry };
    match expiry {
        None => {
            let args = seq![ValueView::BulkString(key), ValueView::BulkString(value)];
            lemma_arguments(word("SET"@), args);
            assert(seq![word("SET"@), ValueView::BulkString(key), ValueView::BulkString(value)]
                =~= seq![word("SET"@)] + args);
            lemma_arity_is_exact(args, 2, 2);
            assert(bulks_of(args).len() == 2);
        },
        Some(millis) => {
            let args = seq![
                ValueView::BulkString(key),
                ValueView::BulkString(value),
                word("px"@),
                ValueView::BulkString(Some(nat_to_digits(millis as nat))),
            ];
            lemma_arguments(word("SET"@), args);
            assert(seq![
                word("SET"@),
                ValueView::BulkString(key),
                ValueView::BulkString(value),
                word("px"@),
                ValueView::BulkString(Some(nat_to_digits(millis as nat))),
            ] =~= seq![word("SET"@)] + args);
            lemma_arity_is_exact(args, 2, 2);
            lemma_count_argument(millis);
            assert(bulks_of(args).len() == 4);
            assert(bulks_of(args)[2] == Some(encode_utf8("px"@)));
            assert(bulks_of(args)[3] == Some(nat_to_digits(millis as nat)));
        },
    }
}

/// `INFO` is read back.
proof fn lemma_inverse_info(section: InfoSection)
    ensures
        parse_value_spec(command_value_spec(CommandView::Info { section })) == Ok::<
            CommandView,
            ParseCommandErrorView,
        >(CommandView::Info { section }),
{
    broadcast use vstd::utf8::encode_utf8_valid_utf8;

    lemma_name_info();
    lemma_argument_words();
    match section {
        InfoSection::Default => {
            let args = Seq::<ValueView>::empty();
            lemma_arguments(word("INFO"@), args);
            assert(seq![word("INFO"@)] =~= seq![word("INFO"@)] + args);
            lemma_arity_is_exact(args, 0, 1);
        },
        InfoSection::Replication => {
            let args = seq![word("replication"@)];
            lemma_arguments(word("INFO"@), args);
            assert(seq![word("INFO"@), word("replication"@)] =~= seq![word("INFO"@)] + args);
            lemma_arity_is_exact(args, 0, 1);
            assert(bulks_of(args)[0] == Some(encode_utf8("replication"@)));
        },
    }
}

/// `REPLCONF` is read back.
proof fn lemma_inverse_replconf(config: ReplConfView)
    ensures
        parse_value_spec(command_value_spec(CommandView::ReplConf { config })) == Ok::<
            CommandView,
            ParseCommandErrorView,
        >(CommandView::ReplConf { config }),
{
    broadcast use {vstd::utf8::encode_utf8_valid_utf8, vstd::utf8::encode_utf8_decode_utf8};

    lemma_name_replconf();
    lemma_argument_words();
    match config {
        ReplConfView::ListeningPort(port) => {
            let args = seq![
                word("listening-port"@),
                ValueView::BulkString(Some(nat_to_digits(port as nat))),
            ];
            lemma_arguments(word("REPLCONF"@), args);
            assert(seq![
                word("REPLCONF"@),
                word("listening-port"@),
                ValueView::BulkString(Some(nat_to_digits(port as nat))),
            ] =~= seq![word("REPLCONF"@)] + args);
            lemma_arity_is_exact(args, 2, 0);
            lemma_count_argument(port as u64);
            assert(bulks_of(args)[0] == Some(encode_utf8("listening-port"@)));
            assert(bulks_of(args)[1] == Some(nat_to_digits(port as nat)));
        },
        ReplConfView::Capabilities(text) => {
            let args = seq![word("capa"@), word(text)];
            lemma_arguments(word("REPLCONF"@), args);
            assert(seq![word("REPLCONF"@), word("capa"@), word(text)] =~= seq![
                word("REPLCONF"@),
            ] + args);
            lemma_arity_is_exact(args, 2, 0);
            assert(bulks_of(args)[0] == Some(encode_utf8("capa"@)));
            assert(bulks_of(args)[1] == Some(encode_utf8(text)));
        },
    }
}

/// Reading undoes writing: the value that is sent for a command is read
/// back as that command.
pub proof fn lemma_parse_command_value(c: CommandView)
    ensures
        parse_value_spec(command_value_spec(c)) == Ok::<CommandView, ParseCommandErrorView>(c),
{
    match c {
        CommandView::Ping { msg } => lemma_inverse_ping(msg),
        CommandView::Echo { msg } => lemma_inverse_echo(msg),
        CommandView::Info { section } => lemma_inverse_info(section),
        CommandView::SetKey { key, value, expiry } => lemma_inverse_set(key, value, expiry),
        CommandView::Get { key } => lemma_inverse_get(key),
        CommandView::ReplConf { config } => lemma_inverse_replconf(config),
    }
}

} // verus!
