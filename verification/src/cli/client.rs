//! Remote client mode: the request line a forwarded command becomes, the
//! daemon address a `--addr` value names, and how a daemon reply maps to an
//! exit code and the output the local CLI would have printed.

use vstd::prelude::*;

use crate::cli::ipc::DEFAULT_PORT;
use crate::text::{
    chars_of, decimal, find_char, has_prefix, join, join_strings, push_char, push_decimal,
    push_text, split_once, split_once_at, starts_with_text, same_text, string_of, texts,
};

verus! {

/// Exit code: daemon was reached but the operation failed.
pub const EXIT_OP_FAILED: i32 = 1;

/// Exit code: could not talk to the daemon (unreachable / malformed reply).
pub const EXIT_TRANSPORT: i32 = 2;

/// The daemon address used when none is given.
pub open spec fn spec_default_addr() -> Seq<char> {
    "127.0.0.1:"@ + decimal(DEFAULT_PORT as nat)
}

/// Every byte is an ASCII digit.
pub open spec fn all_ascii_digits(b: Seq<u8>) -> bool {
    forall|i: int| 0 <= i < b.len() ==> 48 <= #[trigger] b[i] <= 57
}

/// The daemon address that a `--addr` value names.
pub open spec fn spec_resolve_addr(value: Seq<char>) -> Seq<char> {
    if value.len() == 0 {
        spec_default_addr()
    } else if value.contains(':') {
        value
    } else if all_ascii_digits(vstd::utf8::encode_utf8(value)) {
        "127.0.0.1:"@ + value
    } else {
        value + seq![':'] + decimal(DEFAULT_PORT as nat)
    }
}

/// The request line sent for a forwarded command: its arguments joined by spaces.
pub open spec fn spec_request_line(args: Seq<Seq<char>>) -> Seq<char> {
    join(args, seq![' '])
}

/// What a daemon reply means to the client: exit code, standard output, standard error.
pub open spec fn spec_interpret(resp: Seq<char>) -> (int, Seq<char>, Seq<char>) {
    match split_once(resp, '\n') {
        Some((first, rest)) => if first == "ok"@ {
            (0, rest, seq![])
        } else if has_prefix(first, "err: "@) {
            (EXIT_OP_FAILED as int, seq![], "Error: "@ + first.skip(5) + seq!['\n'])
        } else {
            (EXIT_TRANSPORT as int, seq![], seq![])
        },
        None => (EXIT_TRANSPORT as int, seq![], seq![]),
    }
}

/// The default daemon address, `127.0.0.1:DEFAULT_PORT`.
pub fn default_addr() -> (s: String)
    ensures
        s@ == spec_default_addr(),
{
    let mut s = "127.0.0.1:".to_owned();
    push_decimal(&mut s, DEFAULT_PORT as u64);
    s
}

/// Whether every byte of `b` is an ASCII digit.
fn bytes_all_digits(b: &[u8]) -> (r: bool)
    ensures
        r == all_ascii_digits(b@),
{
    let mut i: usize = 0;
    while i < b.len()
        invariant
            i <= b@.len(),
            forall|k: int| 0 <= k < i ==> 48 <= #[trigger] b@[k] <= 57,
        decreases b.len() - i,
    {
        if b[i] < 48 || b[i] > 57 {
            return false;
        }
        i += 1;
    }
    true
}

/// Resolve a `--addr` value: empty → default, `host:port` as-is, bare digits
/// → `127.0.0.1:port`, bare host → `host:DEFAULT_PORT`.
pub fn resolve_addr(value: &str) -> (s: String)
    ensures
        s@ == spec_resolve_addr(value@),
{
    let cs = chars_of(value);
    if cs.len() == 0 {
        return default_addr();
    }
    let colon = find_char(&cs, ':');
    proof {
        if colon is None {
            assert(!value@.contains(':'));
        } else {
            let i = colon->0 as int;
            assert(value@[i] == ':');
        }
    }
    if colon.is_some() {
        value.to_owned()
    } else if bytes_all_digits(value.as_bytes()) {
        let mut s = "127.0.0.1:".to_owned();
        push_text(&mut s, value);
        s
    } else {
        let mut s = value.to_owned();
        push_char(&mut s, ':');
        push_decimal(&mut s, DEFAULT_PORT as u64);
        s
    }
}

/// The request line for a forwarded command: its arguments joined by spaces.
pub fn request_line(cmd_args: &[String]) -> (s: String)
    ensures
        s@ == spec_request_line(texts(cmd_args@)),
{
    proof {
        reveal_strlit(" ");
        assert(" "@ =~= seq![' ']);
    }
    join_strings(cmd_args, " ")
}

/// Map a daemon response to `(exit_code, stdout, stderr)`.
pub fn interpret(resp: &str) -> (r: (i32, String, String))
    ensures
        r.0 as int == spec_interpret(resp@).0,
        r.1@ == spec_interpret(resp@).1,
        r.2@ == spec_interpret(resp@).2,
{
    let cs = chars_of(resp);
    match split_once_at(&cs, '\n') {
        Some((first, rest)) => {
            if same_text(first.as_str(), "ok") {
                (0, rest, String::new())
            } else if starts_with_text(first.as_str(), "err: ") {
                let fc = chars_of(first.as_str());
                proof {
                    reveal_strlit("err: ");
                }
                let detail = string_of(&fc, 5, fc.len());
                assert(detail@ =~= first@.skip(5));
                let mut err = "Error: ".to_owned();
                push_text(&mut err, detail.as_str());
                push_char(&mut err, '\n');
                (EXIT_OP_FAILED, String::new(), err)
            } else {
                (EXIT_TRANSPORT, String::new(), String::new())
            }
        },
        None => (EXIT_TRANSPORT, String::new(), String::new()),
    }
}

} // verus!
