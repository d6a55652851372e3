//! The daemon's line protocol: a loopback daemon reads one request line,
//! executes it, and writes one response back.
//!
//! Request = one line, the CLI arguments joined by spaces: `get`, `set <id>`,
//! `list`, `ime ...`, `ping`, `shutdown`. Response = line 1 is `ok` or
//! `err: <message>`; for `ok`, the text after the first newline is the output
//! the CLI would have printed.

use vstd::prelude::*;

use crate::error::{error_text, platform_error, ErrorModel, ImSwitchError};
use crate::text::{
    chars_of, digits_value, eq_ignore_ascii_case, is_digit, push_char, push_decimal, push_text,
    same_text, same_text_ignore_ascii_case, split_char, split_chars, split_whitespace, texts,
    tokens, trim, trim_str,
};

verus! {

/// Default TCP port for the IPC daemon.
pub const DEFAULT_PORT: u16 = 7691;

/// A request the daemon understands.
#[derive(Debug)]
pub enum Request {
    /// Report the current input method.
    Get,
    /// Switch to the given input method.
    Switch(String),
    /// List the available input methods.
    List,
    /// Reachability probe; touches no input method.
    Ping,
    /// Reply, then stop serving.
    Shutdown,
}

/// The mathematical value of a [`Request`].
pub enum RequestModel {
    Get,
    Switch(Seq<char>),
    List,
    Ping,
    Shutdown,
}

impl View for Request {
    type V = RequestModel;

    open spec fn view(&self) -> RequestModel {
        match self {
            Request::Get => RequestModel::Get,
            Request::Switch(im) => RequestModel::Switch(im@),
            Request::List => RequestModel::List,
            Request::Ping => RequestModel::Ping,
            Request::Shutdown => RequestModel::Shutdown,
        }
    }
}

/// The value of a parsed request line.
pub open spec fn request_result_view(r: Result<Request, ImSwitchError>) -> Result<
    RequestModel,
    ErrorModel,
> {
    match r {
        Ok(q) => Ok(q@),
        Err(e) => Err(e@),
    }
}

/// The text of the error for `ime` requests on a platform without IME control.
pub open spec fn ime_unsupported_text() -> Seq<char> {
    "ime control is only supported on Windows"@
}

/// What a request line asks for, by its whitespace-separated words.
pub open spec fn spec_dispatch(line: Seq<char>) -> Result<RequestModel, ErrorModel> {
    let t = tokens(line);
    if t == seq!["get"@] {
        Ok(RequestModel::Get)
    } else if t.len() == 2 && t[0] == "set"@ {
        Ok(RequestModel::Switch(t[1]))
    } else if t == seq!["list"@] {
        Ok(RequestModel::List)
    } else if t == seq!["ping"@] {
        Ok(RequestModel::Ping)
    } else if t == seq!["shutdown"@] {
        Ok(RequestModel::Shutdown)
    } else if t.len() >= 1 && t[0] == "ime"@ {
        Err(ErrorModel::Platform(ime_unsupported_text()))
    } else {
        Err(ErrorModel::Platform("unknown command: "@ + line))
    }
}

/// Whether the only word of `t` is `w`.
fn single_word(t: &Vec<String>, w: &str) -> (r: bool)
    ensures
        r == (texts(t@) == seq![w@]),
{
    if t.len() == 1 {
        let r = same_text(t[0].as_str(), w);
        assert(texts(t@)[0] == t@[0]@);
        assert(r ==> texts(t@) =~= seq![w@]);
        r
    } else {
        assert(texts(t@).len() != 1);
        false
    }
}

/// Parse a single (trimmed) command line into the request it names.
///
/// `ime` requests fail: this build has no IME control.
pub fn dispatch_line(line: &str) -> (r: Result<Request, ImSwitchError>)
    ensures
        request_result_view(r) == spec_dispatch(line@),
{
    let toks = split_whitespace(line);
    let ghost t = tokens(line@);
    assert(texts(toks@).len() == toks@.len());
    if single_word(&toks, "get") {
        return Ok(Request::Get);
    }
    if toks.len() == 2 && same_text(toks[0].as_str(), "set") {
        let im = toks[1].clone();
        return Ok(Request::Switch(im));
    }
    if single_word(&toks, "list") {
        return Ok(Request::List);
    }
    if single_word(&toks, "ping") {
        return Ok(Request::Ping);
    }
    if single_word(&toks, "shutdown") {
        return Ok(Request::Shutdown);
    }
    if toks.len() >= 1 && same_text(toks[0].as_str(), "ime") {
        return Err(ImSwitchError::Platform("ime control is only supported on Windows".to_owned()));
    }
    Err(platform_error("unknown command: ", line))
}

/// The request text of a raw line read from a connection: trimmed, or
/// `None` when nothing but whitespace was sent.
pub fn request_text(raw: &str) -> (r: Option<String>)
    ensures
        match r {
            Some(t) => t@ == trim(raw@) && t@.len() > 0,
            None => trim(raw@).len() == 0,
        },
{
    let t = trim_str(raw);
    let cs = chars_of(t.as_str());
    if cs.len() == 0 {
        None
    } else {
        Some(t)
    }
}

/// The result of executing a request.
#[derive(Debug)]
pub enum Outcome {
    /// The current input method.
    Current(String),
    /// The available input methods.
    Methods(Vec<String>),
    /// Done, with nothing to print.
    Done,
}

/// The lines of `ms`, each ended by a newline.
pub open spec fn lines_of(ms: Seq<Seq<char>>) -> Seq<char>
    decreases ms.len(),
{
    if ms.len() == 0 {
        seq![]
    } else {
        lines_of(ms.drop_last()) + ms.last() + seq!['\n']
    }
}

/// What the CLI prints for an outcome.
pub open spec fn payload_text(o: &Outcome) -> Seq<char> {
    match o {
        Outcome::Current(im) => im@ + seq!['\n'],
        Outcome::Methods(ms) => lines_of(texts(ms@)),
        Outcome::Done => seq![],
    }
}

/// The response for the result of a request.
pub open spec fn spec_response(r: Result<Seq<char>, ErrorModel>) -> Seq<char> {
    match r {
        Ok(p) => "ok\n"@ + p,
        Err(e) => "err: "@ + error_text(e) + seq!['\n'],
    }
}

/// The value of the result of a request, by its printed payload.
pub open spec fn outcome_result_view(r: &Result<Outcome, ImSwitchError>) -> Result<
    Seq<char>,
    ErrorModel,
> {
    match r {
        Ok(o) => Ok(payload_text(o)),
        Err(e) => Err(e@),
    }
}

/// What the CLI prints for an outcome: the current input method, or one line
/// per listed input method, or nothing.
pub fn payload(o: &Outcome) -> (s: String)
    ensures
        s@ == payload_text(o),
{
    match o {
        Outcome::Current(im) => {
            let mut s = im.clone();
            push_char(&mut s, '\n');
            s
        },
        Outcome::Methods(ms) => {
            let mut s = String::new();
            let mut i: usize = 0;
            while i < ms.len()
                invariant
                    i <= ms@.len(),
                    s@ == lines_of(texts(ms@).take(i as int)),
                decreases ms.len() - i,
            {
                push_text(&mut s, ms[i].as_str());
                push_char(&mut s, '\n');
                assert(texts(ms@).take(i + 1).drop_last() =~= texts(ms@).take(i as int));
                i += 1;
            }
            assert(texts(ms@).take(ms@.len() as int) =~= texts(ms@));
            s
        },
        Outcome::Done => String::new(),
    }
}

/// The response written back for the result of a request: `ok` and the
/// payload, or `err: ` and the error's text.
pub fn response_text(result: &Result<Outcome, ImSwitchError>) -> (s: String)
    ensures
        s@ == spec_response(outcome_result_view(result)),
{
    match result {
        Ok(o) => {
            let p = payload(o);
            let mut s = "ok\n".to_owned();
            push_text(&mut s, p.as_str());
            s
        },
        Err(e) => {
            let m = e.message();
            let mut s = "err: ".to_owned();
            push_text(&mut s, m.as_str());
            push_char(&mut s, '\n');
            s
        },
    }
}

/// The outcome of a request that needs no input method backend: `ping` and
/// `shutdown` are done with nothing to print; every other request is for the
/// backend (`None`).
pub fn answer_without_backend(r: &Request) -> (o: Option<Outcome>)
    ensures
        (r@ is Ping || r@ is Shutdown) <==> o is Some,
        o matches Some(x) ==> x is Done && payload_text(&x) == Seq::<char>::empty(),
{
    match r {
        Request::Ping | Request::Shutdown => Some(Outcome::Done),
        _ => None,
    }
}

/// Whether the daemon stops serving after answering `r`.
pub fn ends_session(r: &Request) -> (b: bool)
    ensures
        b == (r@ is Shutdown),
{
    match r {
        Request::Shutdown => true,
        _ => false,
    }
}

/// A valid IPv4 octet in dotted-decimal form: one to three digits, no
/// leading zero, at most 255.
pub open spec fn is_octet(t: Seq<char>) -> bool {
    &&& 1 <= t.len() <= 3
    &&& forall|i: int| 0 <= i < t.len() ==> is_digit(#[trigger] t[i])
    &&& (t.len() > 1 ==> t[0] != '0')
    &&& digits_value(t) <= 255
}

/// A dotted-decimal IPv4 address in the loopback network 127.0.0.0/8.
pub open spec fn is_loopback_ipv4(h: Seq<char>) -> bool {
    let f = split_char(h, '.');
    &&& f.len() == 4
    &&& f[0] == "127"@
    &&& forall|i: int| 0 <= i < 4 ==> is_octet(#[trigger] f[i])
}

/// A host that only local processes can reach: `localhost` in any ASCII
/// case, `[::1]`, or an address in 127.0.0.0/8.
pub open spec fn is_loopback_host(h: Seq<char>) -> bool {
    eq_ignore_ascii_case(h, "localhost"@) || h == "[::1]"@ || is_loopback_ipv4(h)
}

/// The address the daemon binds, `addr:port`, if `addr` is a loopback host.
pub open spec fn spec_bind_address(addr: Seq<char>, port: nat) -> Result<Seq<char>, ErrorModel> {
    if is_loopback_host(addr) {
        Ok(addr + seq![':'] + crate::text::decimal(port))
    } else {
        Err(ErrorModel::Platform("refusing to serve on non-loopback address: "@ + addr))
    }
}

/// Whether `t` is a valid IPv4 octet.
fn octet_ok(t: &Vec<char>) -> (r: bool)
    ensures
        r == is_octet(t@),
{
    let n = t.len();
    if n < 1 || n > 3 {
        return false;
    }
    if n > 1 && t[0] == '0' {
        return false;
    }
    let mut v: u32 = 0;
    let mut i: usize = 0;
    while i < n
        invariant
            1 <= n <= 3,
            n == t@.len(),
            i <= n,
            forall|k: int| 0 <= k < i ==> is_digit(#[trigger] t@[k]),
            v == digits_value(t@.take(i as int)),
            v <= 999,
            i == 0 ==> v == 0,
            i == 1 ==> v <= 9,
            i == 2 ==> v <= 99,
        decreases n - i,
    {
        let c = t[i];
        if c < '0' || c > '9' {
            return false;
        }
        assert(t@.take(i + 1).drop_last() =~= t@.take(i as int));
        v = v * 10 + (c as u32 - '0' as u32);
        i += 1;
    }
    assert(t@.take(n as int) =~= t@);
    v <= 255
}

/// Whether `h` is a loopback host.
fn loopback_host(h: &str) -> (r: bool)
    ensures
        r == is_loopback_host(h@),
{
    if same_text_ignore_ascii_case(h, "localhost") || same_text(h, "[::1]") {
        return true;
    }
    let cs = chars_of(h);
    let f = split_chars(&cs, '.');
    let ghost fv = f@.map_values(|x: Vec<char>| x@);
    assert(fv.len() == f@.len());
    if f.len() != 4 {
        return false;
    }
    let mut i: usize = 0;
    while i < 4
        invariant
            f@.len() == 4,
            fv == f@.map_values(|x: Vec<char>| x@),
            fv == split_char(h@, '.'),
            !eq_ignore_ascii_case(h@, "localhost"@),
            h@ != "[::1]"@,
            i <= 4,
            forall|k: int| 0 <= k < i ==> is_octet(#[trigger] fv[k]),
        decreases 4 - i,
    {
        assert(fv[i as int] == f@[i as int]@);
        if !octet_ok(&f[i]) {
            assert(split_char(h@, '.') == fv);
            assert(!is_octet(split_char(h@, '.')[i as int]));
            assert(!is_loopback_ipv4(h@));
            return false;
        }
        i += 1;
    }
    let first = &f[0];
    assert(fv[0] == first@);
    proof {
        reveal_strlit("127");
    }
    if first.len() == 3 && first[0] == '1' && first[1] == '2' && first[2] == '7' {
        assert(fv[0] =~= "127"@);
        true
    } else {
        assert(fv[0] != "127"@);
        false
    }
}

/// The address for the daemon to bind: `addr:port`. The daemon has no
/// authentication, so a non-loopback `addr` is refused.
pub fn bind_address(addr: &str, port: u16) -> (r: Result<String, ImSwitchError>)
    ensures
        match r {
            Ok(s) => spec_bind_address(addr@, port as nat) == Ok::<Seq<char>, ErrorModel>(s@),
            Err(e) => spec_bind_address(addr@, port as nat) == Err::<Seq<char>, ErrorModel>(e@),
        },
{
    if loopback_host(addr) {
        let mut s = addr.to_owned();
        push_char(&mut s, ':');
        push_decimal(&mut s, port as u64);
        assert(s@ =~= addr@ + seq![':'] + crate::text::decimal(port as nat));
        Ok(s)
    } else {
        Err(platform_error("refusing to serve on non-loopback address: ", addr))
    }
}

} // verus!
