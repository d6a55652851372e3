//! Properties of the protocol as a whole: what the client makes of the
//! daemon's replies, and what the daemon reads of the client's requests.

use vstd::prelude::*;

use crate::cli::client::{
    all_ascii_digits, spec_default_addr, spec_interpret, spec_request_line, spec_resolve_addr, EXIT_OP_FAILED,
    EXIT_TRANSPORT,
};
use crate::cli::ipc::{
    is_loopback_host, spec_bind_address, spec_dispatch, spec_response, RequestModel,
    DEFAULT_PORT,
};
use crate::error::{error_text, ErrorModel};
use vstd::utf8::{encode_scalar, encode_utf8, has_width_1_encoding, has_width_2_encoding, has_width_3_encoding, is_scalar};
use crate::text::{
    decimal, digits_value, is_digit, lemma_decimal_denotes, has_prefix, is_first_index, is_ws, join, lemma_first_index_unique, lemma_word_len_bound,
    split_once, tokens, trim, trim_end, trim_start, word_len,
};

verus! {

proof fn lemma_split_once_at(s: Seq<char>, i: int)
    requires
        is_first_index(s, '\n', i),
    ensures
        split_once(s, '\n') == Some((s.take(i), s.skip(i + 1))),
{
    let j = choose|j: int| is_first_index(s, '\n', j);
    lemma_first_index_unique(s, '\n', i, j);
}

/// A successful reply reaches the client intact: exit code 0, and exactly the
/// payload the CLI would have printed on standard output, nothing on
/// standard error.
pub proof fn law_ok_reply_round_trip(payload: Seq<char>)
    ensures
        spec_interpret(spec_response(Ok(payload))) == (0int, payload, Seq::<char>::empty()),
{
    reveal_strlit("ok\n");
    reveal_strlit("ok");
    let s = spec_response(Ok::<Seq<char>, ErrorModel>(payload));
    assert(s =~= seq!['o', 'k', '\n'] + payload);
    assert(is_first_index(s, '\n', 2));
    lemma_split_once_at(s, 2);
    assert(s.take(2) =~= "ok"@);
    assert(s.skip(3) =~= payload);
}

/// A failure reply always makes the client exit with `EXIT_OP_FAILED` and
/// print nothing on standard output; when the error's text is one line, the
/// client prints `Error: <text>` on standard error, as the local CLI does.
pub proof fn law_err_reply_round_trip(e: ErrorModel)
    ensures
        spec_interpret(spec_response(Err(e))).0 == EXIT_OP_FAILED as int,
        spec_interpret(spec_response(Err(e))).1 == Seq::<char>::empty(),
        !error_text(e).contains('\n') ==> spec_interpret(spec_response(Err(e))).2 == "Error: "@
            + error_text(e) + seq!['\n'],
{
    reveal_strlit("err: ");
    reveal_strlit("ok");
    let t = error_text(e);
    let s = spec_response(Err::<Seq<char>, ErrorModel>(e));
    let head = seq!['e', 'r', 'r', ':', ' '];
    assert(s =~= head + t + seq!['\n']);
    let i: int = if exists|j: int| is_first_index(t, '\n', j) {
        choose|j: int| is_first_index(t, '\n', j)
    } else {
        t.len() as int
    };
    if i < t.len() {
        assert(is_first_index(t, '\n', i));
    } else {
        assert forall|k: int| 0 <= k < t.len() implies t[k] != '\n' by {
            if t[k] == '\n' {
                lemma_exists_first_newline(t, k);
            }
        }
    }
    assert(is_first_index(s, '\n', 5 + i));
    lemma_split_once_at(s, 5 + i);
    let first = s.take(5 + i);
    assert(first.take(5) =~= "err: "@);
    assert(has_prefix(first, "err: "@));
    assert(first.len() != "ok"@.len());
    if !t.contains('\n') {
        assert(i == t.len()) by {
            if i < t.len() {
                assert(t[i] == '\n');
            }
        }
        assert(first.skip(5) =~= t);
    }
}

proof fn lemma_exists_first_newline(t: Seq<char>, k: int)
    requires
        0 <= k < t.len(),
        t[k] == '\n',
    ensures
        exists|j: int| is_first_index(t, '\n', j),
    decreases k,
{
    if exists|q: int| 0 <= q < k && t[q] == '\n' {
        let q = choose|q: int| 0 <= q < k && t[q] == '\n';
        lemma_exists_first_newline(t, q);
    } else {
        assert(is_first_index(t, '\n', k));
    }
}

/// Every reply gives one of the three exit codes, and 0 exactly when it
/// starts with an `ok` line.
pub proof fn law_exit_codes(resp: Seq<char>)
    ensures
        spec_interpret(resp).0 == 0 || spec_interpret(resp).0 == EXIT_OP_FAILED as int
            || spec_interpret(resp).0 == EXIT_TRANSPORT as int,
        spec_interpret(resp).0 == 0 <==> has_prefix(resp, "ok\n"@),
{
    reveal_strlit("ok\n");
    reveal_strlit("ok");
    assert("ok\n"@ =~= seq!['o', 'k', '\n']);
    if has_prefix(resp, "ok\n"@) {
        assert(resp[0] == resp.take(3)[0] && resp[1] == resp.take(3)[1] && resp[2] == resp.take(3)[2]);
        assert(is_first_index(resp, '\n', 2));
        lemma_split_once_at(resp, 2);
        assert(resp.take(2) =~= "ok"@);
    } else {
        if let Some((first, rest)) = split_once(resp, '\n') {
            let i = choose|i: int| is_first_index(resp, '\n', i);
            assert(is_first_index(resp, '\n', i));
            if first == "ok"@ {
                assert(first.len() == i);
                assert(resp.take(3) =~= "ok\n"@) by {
                    assert(resp.take(3)[0] == first[0]);
                    assert(resp.take(3)[1] == first[1]);
                }
            }
        }
    }
}

/// All characters of `w` are non-whitespace.
pub open spec fn is_word(w: Seq<char>) -> bool {
    w.len() > 0 && forall|j: int| 0 <= j < w.len() ==> !is_ws(#[trigger] w[j])
}

proof fn lemma_word_len_concat(a: Seq<char>, r: Seq<char>)
    requires
        forall|j: int| 0 <= j < a.len() ==> !is_ws(#[trigger] a[j]),
        r.len() == 0 || is_ws(r[0]),
    ensures
        word_len(a + r) == a.len(),
    decreases a.len(),
{
    if a.len() == 0 {
        assert(a + r =~= r);
    } else {
        assert((a + r).drop_first() =~= a.drop_first() + r);
        lemma_word_len_concat(a.drop_first(), r);
    }
}

proof fn lemma_tokens_word_then(a: Seq<char>, r: Seq<char>)
    requires
        is_word(a),
        r.len() == 0 || is_ws(r[0]),
    ensures
        tokens(a + r) == seq![a] + tokens(r),
{
    let s = a + r;
    lemma_word_len_concat(a, r);
    lemma_word_len_bound(s);
    assert(s.take(a.len() as int) =~= a);
    assert(s.skip(a.len() as int) =~= r);
}

/// Splitting a request line at whitespace gives back the forwarded
/// arguments, when each is a non-empty word without whitespace.
pub proof fn law_request_words_round_trip(args: Seq<Seq<char>>)
    requires
        forall|i: int| 0 <= i < args.len() ==> is_word(#[trigger] args[i]),
    ensures
        tokens(spec_request_line(args)) == args,
    decreases args.len(),
{
    let sp = seq![' '];
    if args.len() == 0 {
        assert(tokens(Seq::<char>::empty()) =~= Seq::<Seq<char>>::empty());
    } else if args.len() == 1 {
        assert(is_word(args[0]));
        lemma_tokens_word_then(args[0], Seq::<char>::empty());
        assert(args[0] + Seq::<char>::empty() =~= args[0]);
        assert(seq![args[0]] + Seq::<Seq<char>>::empty() =~= args);
    } else {
        let rest = args.drop_first();
        assert forall|i: int| 0 <= i < rest.len() implies is_word(#[trigger] rest[i]) by {
            assert(rest[i] == args[i + 1]);
        }
        law_request_words_round_trip(rest);
        let tail = sp + join(rest, sp);
        assert(join(args, sp) =~= args[0] + tail);
        assert(is_word(args[0]));
        lemma_tokens_word_then(args[0], tail);
        assert(tail.drop_first() =~= join(rest, sp));
        assert(tokens(tail) == tokens(join(rest, sp)));
        assert(seq![args[0]] + rest =~= args);
    }
}

proof fn lemma_join_ends(args: Seq<Seq<char>>, sep: Seq<char>)
    requires
        args.len() > 0,
        forall|i: int| 0 <= i < args.len() ==> (#[trigger] args[i]).len() > 0,
    ensures
        join(args, sep).len() > 0,
        join(args, sep)[0] == args[0][0],
        join(args, sep).last() == args.last().last(),
    decreases args.len(),
{
    if args.len() > 1 {
        let rest = args.drop_first();
        assert forall|i: int| 0 <= i < rest.len() implies (#[trigger] rest[i]).len() > 0 by {
            assert(rest[i] == args[i + 1]);
        }
        lemma_join_ends(rest, sep);
        assert(args[0].len() > 0);
    }
}

/// The daemon trims the line it reads (request and newline); for forwarded
/// non-empty words this gives back the request line the client sent.
pub proof fn law_request_line_survives_trim(args: Seq<Seq<char>>)
    requires
        args.len() > 0,
        forall|i: int| 0 <= i < args.len() ==> is_word(#[trigger] args[i]),
    ensures
        trim(spec_request_line(args) + seq!['\n']) == spec_request_line(args),
{
    let sp = seq![' '];
    let line = join(args, sp);
    assert forall|i: int| 0 <= i < args.len() implies (#[trigger] args[i]).len() > 0 by {
        assert(is_word(args[i]));
    }
    lemma_join_ends(args, sp);
    assert(is_word(args[0]));
    assert(is_word(args.last()));
    assert(!is_ws(line[0]));
    assert(!is_ws(line.last()));
    let full = line + seq!['\n'];
    assert(!is_ws(full[0]));
    assert(trim_start(full) == full);
    assert('\n' as u32 == 0x0A);
    assert(full.drop_last() =~= line);
    assert(trim_end(full) == trim_end(line));
    assert(trim_end(line) == line);
}

/// An address given to `--addr` resolves to an address with a port, and
/// resolving it again changes nothing; no `--addr` value means the default.
pub proof fn law_resolve_addr_idempotent(value: Seq<char>)
    ensures
        spec_resolve_addr(value).contains(':'),
        spec_resolve_addr(spec_resolve_addr(value)) == spec_resolve_addr(value),
        spec_resolve_addr(Seq::<char>::empty()) == spec_default_addr(),
{
    reveal_strlit("127.0.0.1:");
    let r = spec_resolve_addr(value);
    if value.len() == 0 {
        assert(r[9] == ':');
    } else if value.contains(':') {
    } else if r == "127.0.0.1:"@ + value {
        assert(r[9] == ':');
    } else {
        assert(r[value.len() as int] == ':');
    }
    assert(r.len() > 0);
}

/// `ping` and `shutdown` lines parse to requests that need no backend, and
/// are answered `ok` with nothing to print, which the client reads as exit
/// code 0 with empty output.
pub proof fn law_ping_and_shutdown_answer_ok(line: Seq<char>)
    requires
        tokens(line) == seq!["ping"@] || tokens(line) == seq!["shutdown"@],
    ensures
        spec_dispatch(line) matches Ok(q) && (q is Ping || q is Shutdown),
        spec_response(Ok(Seq::<char>::empty())) == "ok\n"@,
        spec_interpret(spec_response(Ok(Seq::<char>::empty()))) == (
            0int,
            Seq::<char>::empty(),
            Seq::<char>::empty(),
        ),
{
    reveal_strlit("ping");
    reveal_strlit("shutdown");
    reveal_strlit("get");
    reveal_strlit("set");
    reveal_strlit("list");
    let t = tokens(line);
    assert(t.len() == 1);
    assert(t[0] == seq!["ping"@][0] || t[0] == seq!["shutdown"@][0]);
    assert("ping"@.len() == 4 && "shutdown"@.len() == 8 && "get"@.len() == 3);
    assert("ping"@[0] == 'p' && "list"@[0] == 'l' && "list"@.len() == 4);
    assert(t[0] != "get"@);
    assert(t[0] != "list"@);
    assert(t != seq!["get"@]);
    assert(t != seq!["list"@]);
    assert(seq!['o', 'k', '\n'] + Seq::<char>::empty() =~= seq!['o', 'k', '\n']);
    reveal_strlit("ok\n");
    assert("ok\n"@ + Seq::<char>::empty() =~= "ok\n"@);
    law_ok_reply_round_trip(Seq::<char>::empty());
}

/// A `set` request switches to its second word exactly as written: for every
/// line whose words are `set` and `w`, the request is a switch to `w`.
pub proof fn law_set_switches_to_given_id(line: Seq<char>, w: Seq<char>)
    requires
        tokens(line) == seq!["set"@, w],
    ensures
        spec_dispatch(line) == Ok::<RequestModel, ErrorModel>(RequestModel::Switch(w)),
{
    let t = tokens(line);
    assert(t.len() == 2);
    assert(t[0] == "set"@ && t[1] == w);
}

/// Forwarding `set <id>` through the client reaches the daemon as a switch to
/// that same id, for every id that is one word.
pub proof fn law_forwarded_set_switches_to_id(w: Seq<char>)
    requires
        is_word(w),
    ensures
        spec_dispatch(spec_request_line(seq!["set"@, w])) == Ok::<RequestModel, ErrorModel>(
            RequestModel::Switch(w),
        ),
{
    reveal_strlit("set");
    let args = seq!["set"@, w];
    assert(is_word(args[0]));
    assert forall|i: int| 0 <= i < args.len() implies is_word(#[trigger] args[i]) by {
        if i == 1 {
            assert(args[1] == w);
        }
    }
    law_request_words_round_trip(args);
    law_set_switches_to_given_id(spec_request_line(args), w);
}

/// `c` is one of the ASCII digits `0`..`9` (code points 48..57).
pub open spec fn is_ascii_digit_char(c: char) -> bool {
    48 <= c as u32 <= 57
}

/// All characters are the ASCII digits `0`..`9`.
pub open spec fn all_digit_chars(v: Seq<char>) -> bool {
    forall|i: int| 0 <= i < v.len() ==> is_ascii_digit_char(#[trigger] v[i])
}

proof fn lemma_first_byte_digit(u: u32)
    requires
        is_scalar(u),
    ensures
        encode_scalar(u).len() >= 1,
        (48 <= encode_scalar(u)[0] <= 57) <==> (48 <= u <= 57),
        48 <= u <= 57 ==> encode_scalar(u) == seq![u as u8],
{
    if has_width_1_encoding(u) {
        let b = (u & 0x7F) as u8;
        assert(b as u32 == u) by (bit_vector)
            requires
                u <= 0x7F,
                b == (u & 0x7F) as u8,
        ;
        assert(encode_scalar(u) =~= seq![u as u8]);
    } else if has_width_2_encoding(u) {
        let b = 0xC0u8 | (((u >> 6) & 0x1F) as u8);
        assert(b >= 0xC0u8) by (bit_vector)
            requires
                b == 0xC0u8 | (((u >> 6) & 0x1F) as u8),
        ;
        assert(encode_scalar(u)[0] == b);
    } else if has_width_3_encoding(u) {
        let b = 0xE0u8 | (((u >> 12) & 0x0F) as u8);
        assert(b >= 0xE0u8) by (bit_vector)
            requires
                b == 0xE0u8 | (((u >> 12) & 0x0F) as u8),
        ;
        assert(encode_scalar(u)[0] == b);
    } else {
        let b = 0xF0u8 | (((u >> 18) & 0x7) as u8);
        assert(b >= 0xF0u8) by (bit_vector)
            requires
                b == 0xF0u8 | (((u >> 18) & 0x7) as u8),
        ;
        assert(encode_scalar(u)[0] == b);
    }
}

/// The UTF-8 bytes of `v` are all ASCII digits exactly when its characters are.
pub proof fn lemma_digit_bytes(v: Seq<char>)
    ensures
        all_ascii_digits(encode_utf8(v)) <==> all_digit_chars(v),
    decreases v.len(),
{
    if v.len() > 0 {
        let c = v[0];
        let u = c as u32;
        vstd::utf8::char_is_scalar(c);
        lemma_first_byte_digit(u);
        let rest = v.drop_first();
        lemma_digit_bytes(rest);
        let e = encode_utf8(v);
        let head = encode_scalar(u);
        assert(e == head + encode_utf8(rest));
        assert(is_ascii_digit_char(c) <==> 48 <= u <= 57);
        if all_digit_chars(v) {
            assert(is_ascii_digit_char(v[0]));
            assert forall|i: int| 0 <= i < rest.len() implies is_ascii_digit_char(#[trigger] rest[i]) by {
                assert(rest[i] == v[i + 1]);
            }
            assert(head.len() == 1);
            assert forall|i: int| 0 <= i < e.len() implies 48 <= #[trigger] e[i] <= 57 by {
                if i > 0 {
                    assert(e[i] == encode_utf8(rest)[i - 1]);
                }
            }
        }
        if all_ascii_digits(e) {
            assert(48 <= e[0] <= 57);
            assert(e[0] == head[0]);
            assert(head.len() == 1);
            assert forall|i: int| 0 <= i < encode_utf8(rest).len() implies 48 <= #[trigger] encode_utf8(
                rest,
            )[i] <= 57 by {
                assert(encode_utf8(rest)[i] == e[i + 1]);
            }
            assert forall|i: int| 0 <= i < v.len() implies is_ascii_digit_char(#[trigger] v[i]) by {
                if i > 0 {
                    assert(v[i] == rest[i - 1]);
                }
            }
        }
    } else {
        assert(encode_utf8(v) =~= Seq::<u8>::empty());
    }
}

/// A bare `--addr` value (non-empty, no `:`) made only of digits is a port on
/// 127.0.0.1; any other bare value is a host, kept as given, with the default
/// port after it.
pub proof fn law_bare_addr_is_port_or_host(value: Seq<char>)
    requires
        value.len() > 0,
        !value.contains(':'),
    ensures
        all_digit_chars(value) ==> spec_resolve_addr(value) == "127.0.0.1:"@ + value,
        !all_digit_chars(value) ==> spec_resolve_addr(value) == value + seq![':'] + decimal(
            DEFAULT_PORT as nat,
        ),
{
    lemma_digit_bytes(value);
}

/// The address the daemon binds is the loopback host as given, a `:`, and
/// then a run of digits that denotes the port, for every port; a host that
/// is not loopback is refused.
pub proof fn law_bind_address_keeps_host_and_port(addr: Seq<char>, port: u16)
    ensures
        is_loopback_host(addr) ==> (spec_bind_address(addr, port as nat) matches Ok(r) && {
            let d = r.skip(addr.len() as int + 1);
            &&& r.take(addr.len() as int) == addr
            &&& r[addr.len() as int] == ':'
            &&& d.len() >= 1
            &&& (forall|i: int| 0 <= i < d.len() ==> is_digit(#[trigger] d[i]))
            &&& digits_value(d) == port
        }),
        !is_loopback_host(addr) ==> spec_bind_address(addr, port as nat) is Err,
{
    lemma_decimal_denotes(port as nat);
    if is_loopback_host(addr) {
        let r = addr + seq![':'] + decimal(port as nat);
        assert(r.take(addr.len() as int) =~= addr);
        assert(r.skip(addr.len() as int + 1) =~= decimal(port as nat));
    }
}

} // verus!
