//! The JSON-RPC envelope: building the request wire shape and decoding the
//! relay's response into a success / protocol-error / malformed outcome.
//!
//! The decoder reads any well-formed rendering of a response object: members
//! in any order, insignificant whitespace, string escapes (`\" \\ \/ \b \f
//! \n \r \t`; `\uXXXX` is not recognised), and unknown members skipped. The
//! `result` payload is delimited by a JSON value scanner and handed to the
//! caller as raw text; an absent `result` member is read as `null`. A body
//! that is not such a response object is reported as malformed.

use vstd::prelude::*;
use vstd::string::*;
use crate::text::{dec_of, dec_value, is_dec_digit, lemma_dec_value_prefix, str_eq, u64_to_dec};

verus! {

/// A protocol-level error reported by the relay inside a well-formed
/// response: the JSON-RPC error object's code, message, and optional data
/// payload (kept as raw JSON text).
pub struct JsonRpcError {
    pub code: i64,
    pub message: String,
    pub data: Option<String>,
}

/// Outcome of decoding a response body.
pub enum Decoded {
    /// The body is not a well-formed JSON-RPC response.
    Malformed,
    /// A success envelope; `result` is the raw JSON text of the `result`
    /// member (the four characters `null` when it was null or absent).
    Success { id: u64, result: String },
    /// An error envelope carrying the relay's structured error.
    Failure { id: u64, error: JsonRpcError },
}

/// Mathematical image of `Decoded`.
pub enum SpecDecoded {
    Malformed,
    Success { id: u64, result: Seq<char> },
    Failure { id: u64, code: int, message: Seq<char>, data: Option<Seq<char>> },
}

impl View for Decoded {
    type V = SpecDecoded;

    open spec fn view(&self) -> SpecDecoded {
        match self {
            Decoded::Malformed => SpecDecoded::Malformed,
            Decoded::Success { id, result } => (SpecDecoded::Success {
                id: *id,
                result: result@,
            }),
            Decoded::Failure { id, error } => (SpecDecoded::Failure {
                id: *id,
                code: error.code as int,
                message: error.message@,
                data: match &error.data {
                    Some(d) => Some(d@),
                    None => None,
                },
            }),
        }
    }
}

/// JSON's insignificant whitespace.
pub open spec fn is_ws(c: char) -> bool {
    c == ' ' || c == '\t' || c == '\n' || c == '\r'
}

/// First position at or after `i` holding a non-whitespace character, or the
/// end of `s`.
pub open spec fn ws_end(s: Seq<char>, i: int) -> int
    decreases s.len() - i when 0 <= i <= s.len()
{
    if i == s.len() || !is_ws(s[i]) {
        i
    } else {
        ws_end(s, i + 1)
    }
}

/// First position at or after `i` holding a non-digit, or the end of `s`.
pub open spec fn dec_run_end(s: Seq<char>, i: int) -> int
    decreases s.len() - i when 0 <= i <= s.len()
{
    if i == s.len() || !is_dec_digit(s[i]) {
        i
    } else {
        dec_run_end(s, i + 1)
    }
}

/// Every position strictly before a digit run's end holds a digit.
pub proof fn lemma_dec_run_end_digits(s: Seq<char>, i: int)
    requires
        0 <= i <= s.len(),
    ensures
        i <= dec_run_end(s, i) <= s.len(),
        forall|k: int| i <= k < dec_run_end(s, i) ==> is_dec_digit(#[trigger] s[k]),
    decreases s.len() - i,
{
    if i < s.len() && is_dec_digit(s[i]) {
        lemma_dec_run_end_digits(s, i + 1);
    }
}

/// Position just after the closing quote of a string whose opening quote
/// stands before `i`; escape pairs are skipped, contents are not validated.
pub open spec fn raw_str_end(s: Seq<char>, i: int) -> Option<int>
    decreases s.len() - i when 0 <= i <= s.len()
{
    if i == s.len() {
        None
    } else if s[i] == '"' {
        Some(i + 1)
    } else if s[i] == '\\' {
        if i + 1 < s.len() {
            raw_str_end(s, i + 2)
        } else {
            None
        }
    } else {
        raw_str_end(s, i + 1)
    }
}

/// A character that ends an unquoted token.
pub open spec fn is_delim(c: char) -> bool {
    c == ',' || c == '}' || c == ']' || is_ws(c)
}

/// First position at or after `i` holding a token delimiter, or the end.
pub open spec fn prim_end(s: Seq<char>, i: int) -> int
    decreases s.len() - i when 0 <= i <= s.len()
{
    if i == s.len() || is_delim(s[i]) {
        i
    } else {
        prim_end(s, i + 1)
    }
}

/// A character that may occur in a JSON number token.
pub open spec fn is_num_char(c: char) -> bool {
    is_dec_digit(c) || c == '-' || c == '+' || c == '.' || c == 'e' || c == 'E'
}

/// An unquoted token the scanner accepts as one value: a literal, or a
/// number-shaped token.
pub open spec fn is_prim_token(t: Seq<char>) -> bool {
    t == "true"@ || t == "false"@ || t == "null"@ || (t.len() >= 1 && (is_dec_digit(t[0])
        || t[0] == '-') && (forall|k: int| 0 <= k < t.len() ==> is_num_char(#[trigger] t[k])))
}

/// Position just after the bracketed value whose opening bracket stands
/// before the scan: brackets are counted, strings (with their escapes) are
/// skipped whole. `depth` open brackets are pending; `in_str` and `esc`
/// carry the string-scanning state.
pub open spec fn brack_end(s: Seq<char>, i: int, depth: nat, in_str: bool, esc: bool)
    -> Option<int>
    decreases s.len() - i when 0 <= i <= s.len()
{
    if i == s.len() {
        None
    } else {
        let c = s[i];
        if in_str {
            if esc {
                brack_end(s, i + 1, depth, true, false)
            } else if c == '\\' {
                brack_end(s, i + 1, depth, true, true)
            } else if c == '"' {
                brack_end(s, i + 1, depth, false, false)
            } else {
                brack_end(s, i + 1, depth, true, false)
            }
        } else if c == '"' {
            brack_end(s, i + 1, depth, true, false)
        } else if c == '{' || c == '[' {
            brack_end(s, i + 1, depth + 1, false, false)
        } else if c == '}' || c == ']' {
            if depth == 1 {
                Some(i + 1)
            } else {
                brack_end(s, i + 1, (depth - 1) as nat, false, false)
            }
        } else {
            brack_end(s, i + 1, depth, false, false)
        }
    }
}

/// Position just after one JSON value starting at `i` (whitespace already
/// skipped), or `None` when no value can be delimited there.
pub open spec fn value_end(s: Seq<char>, i: int) -> Option<int> {
    if i == s.len() || i > s.len() || i < 0 {
        None
    } else if s[i] == '"' {
        raw_str_end(s, i + 1)
    } else if s[i] == '{' || s[i] == '[' {
        brack_end(s, i + 1, 1, false, false)
    } else {
        let j = prim_end(s, i);
        if j > i && is_prim_token(s.subrange(i, j)) {
            Some(j)
        } else {
            None
        }
    }
}

/// The character an escape sequence `\e` denotes, for the escapes the
/// decoder recognises.
pub open spec fn unescaped(e: char) -> Option<char> {
    if e == '"' {
        Some('"')
    } else if e == '\\' {
        Some('\\')
    } else if e == '/' {
        Some('/')
    } else if e == 'b' {
        Some('\u{0008}')
    } else if e == 'f' {
        Some('\u{000C}')
    } else if e == 'n' {
        Some('\n')
    } else if e == 'r' {
        Some('\r')
    } else if e == 't' {
        Some('\t')
    } else {
        None
    }
}

/// The unescaped contents of a string whose opening quote stands before `i`,
/// and the position after its closing quote. Control characters must be
/// escaped; `\uXXXX` is not recognised.
pub open spec fn str_content(s: Seq<char>, i: int) -> Option<(Seq<char>, int)>
    decreases s.len() - i when 0 <= i <= s.len()
{
    if i == s.len() {
        None
    } else if s[i] == '"' {
        Some((Seq::empty(), i + 1))
    } else if s[i] == '\\' {
        if i + 1 < s.len() {
            match unescaped(s[i + 1]) {
                None => None,
                Some(c) => match str_content(s, i + 2) {
                    None => None,
                    Some(p) => Some((seq![c] + p.0, p.1)),
                },
            }
        } else {
            None
        }
    } else if (s[i] as u32) < 32 {
        None
    } else {
        match str_content(s, i + 1) {
            None => None,
            Some(p) => Some((seq![s[i]] + p.0, p.1)),
        }
    }
}

/// Prepends `prefix` to the contents of a string-scan outcome.
pub open spec fn sc_prepend(prefix: Seq<char>, o: Option<(Seq<char>, int)>)
    -> Option<(Seq<char>, int)> {
    match o {
        None => None,
        Some(p) => Some((prefix + p.0, p.1)),
    }
}

/// The error object's members, once all are read.
pub struct ErrFields {
    pub code: int,
    pub message: Seq<char>,
    pub data: Option<Seq<char>>,
}

/// The response object's members, once all are read.
pub struct TopFields {
    pub id: Option<u64>,
    pub ver: bool,
    pub result: Option<Seq<char>>,
    pub error: Option<ErrFields>,
}

/// Largest magnitude of a negative `i64`.
pub open spec fn i64_neg_bound() -> nat {
    0x8000_0000_0000_0000
}

/// Reads one member value of the response object at `v` (whitespace already
/// skipped) for the given key, and updates the fields: `id` must be an
/// unsigned number fitting `u64`, `jsonrpc` the string `2.0`, `result` any
/// value (kept raw), `error` an object; a repeated known member or an
/// ill-shaped value refuses, an unknown member is skipped.
pub open spec fn member_value(s: Seq<char>, v: int, key: Seq<char>, id: Option<u64>, ver: bool,
    result: Option<Seq<char>>, error: Option<ErrFields>) -> Option<(TopFields, int)> {
    if key == "id"@ {
        if id is Some {
            None
        } else {
            let e = dec_run_end(s, v);
            if e == v || dec_value(s.subrange(v, e)) > u64::MAX {
                None
            } else {
                Some((TopFields {
                    id: Some(dec_value(s.subrange(v, e)) as u64),
                    ver,
                    result,
                    error,
                }, e))
            }
        }
    } else if key == "jsonrpc"@ {
        if ver || v == s.len() || s[v] != '"' {
            None
        } else {
            match str_content(s, v + 1) {
                None => None,
                Some(p) => if p.0 == "2.0"@ {
                    Some((TopFields { id, ver: true, result, error }, p.1))
                } else {
                    None
                },
            }
        }
    } else if key == "result"@ {
        if result is Some {
            None
        } else {
            match value_end(s, v) {
                None => None,
                Some(e) => Some((TopFields { id, ver, result: Some(s.subrange(v, e)), error },
                    e)),
            }
        }
    } else if key == "error"@ {
        if error is Some || v == s.len() || s[v] != '{' {
            None
        } else {
            match err_members(s, v + 1, None, None, None, s.len() as nat) {
                None => None,
                Some(p) => Some((TopFields { id, ver, result, error: Some(p.0) }, p.1)),
            }
        }
    } else {
        match value_end(s, v) {
            None => None,
            Some(e) => Some((TopFields { id, ver, result, error }, e)),
        }
    }
}

/// Reads the members of the response object from `i` (just after `{` or a
/// comma) until the closing brace, in any order; `fuel` bounds the member
/// count by the body length.
pub open spec fn top_members(s: Seq<char>, i: int, id: Option<u64>, ver: bool,
    result: Option<Seq<char>>, error: Option<ErrFields>, fuel: nat) -> Option<(TopFields, int)>
    decreases fuel,
{
    if fuel == 0 {
        None
    } else {
        let j = ws_end(s, i);
        if j == s.len() || s[j] != '"' {
            None
        } else {
            match str_content(s, j + 1) {
                None => None,
                Some(kp) => {
                    let m = ws_end(s, kp.1);
                    if m == s.len() || s[m] != ':' {
                        None
                    } else {
                        let v = ws_end(s, m + 1);
                        match member_value(s, v, kp.0, id, ver, result, error) {
                            None => None,
                            Some(u) => {
                                let w = ws_end(s, u.1);
                                if w == s.len() {
                                    None
                                } else if s[w] == ',' {
                                    top_members(s, w + 1, u.0.id, u.0.ver, u.0.result,
                                        u.0.error, (fuel - 1) as nat)
                                } else if s[w] == '}' {
                                    Some((u.0, w + 1))
                                } else {
                                    None
                                }
                            },
                        }
                    }
                }
            }
        }
    }
}

/// Reads one member value of the error object for the given key: `code` an
/// integer fitting `i64`, `message` a string, `data` any value (kept raw);
/// unknown members are skipped.
pub open spec fn err_member_value(s: Seq<char>, v: int, key: Seq<char>, code: Option<int>,
    message: Option<Seq<char>>, data: Option<Seq<char>>)
    -> Option<(Option<int>, Option<Seq<char>>, Option<Seq<char>>, int)> {
    if key == "code"@ {
        if code is Some {
            None
        } else {
            let neg = v < s.len() && s[v] == '-';
            let q0 = if neg { v + 1 } else { v };
            let e = dec_run_end(s, q0);
            let bound = if neg { i64_neg_bound() } else { (i64::MAX as nat) };
            if e == q0 || dec_value(s.subrange(q0, e)) > bound {
                None
            } else {
                let mag = dec_value(s.subrange(q0, e));
                Some((Some(if neg { -(mag as int) } else { mag as int }), message, data, e))
            }
        }
    } else if key == "message"@ {
        if message is Some || v == s.len() || s[v] != '"' {
            None
        } else {
            match str_content(s, v + 1) {
                None => None,
                Some(p) => Some((code, Some(p.0), data, p.1)),
            }
        }
    } else if key == "data"@ {
        if data is Some {
            None
        } else {
            match value_end(s, v) {
                None => None,
                Some(e) => Some((code, message, Some(s.subrange(v, e)), e)),
            }
        }
    } else {
        match value_end(s, v) {
            None => None,
            Some(e) => Some((code, message, data, e)),
        }
    }
}

/// Reads the members of the error object from `i` until its closing brace;
/// `code` and `message` must both occur.
pub open spec fn err_members(s: Seq<char>, i: int, code: Option<int>,
    message: Option<Seq<char>>, data: Option<Seq<char>>, fuel: nat) -> Option<(ErrFields, int)>
    decreases fuel,
{
    if fuel == 0 {
        None
    } else {
        let j = ws_end(s, i);
        if j == s.len() || s[j] != '"' {
            None
        } else {
            match str_content(s, j + 1) {
                None => None,
                Some(kp) => {
                    let m = ws_end(s, kp.1);
                    if m == s.len() || s[m] != ':' {
                        None
                    } else {
                        let v = ws_end(s, m + 1);
                        match err_member_value(s, v, kp.0, code, message, data) {
                            None => None,
                            Some(u) => {
                                let w = ws_end(s, u.3);
                                if w == s.len() {
                                    None
                                } else if s[w] == ',' {
                                    err_members(s, w + 1, u.0, u.1, u.2, (fuel - 1) as nat)
                                } else if s[w] == '}' {
                                    match (u.0, u.1) {
                                        (Some(c), Some(msg)) => Some((ErrFields {
                                            code: c,
                                            message: msg,
                                            data: u.2,
                                        }, w + 1)),
                                        _ => None,
                                    }
                                } else {
                                    None
                                }
                            },
                        }
                    }
                }
            }
        }
    }
}

/// What the decoder makes of a response body: a JSON object carrying an
/// unsigned `id`, `jsonrpc` equal to `2.0`, and at most one of `result` /
/// `error`, with nothing after the closing brace. An absent `result` is read
/// as `null`; a body carrying both members, or neither `id` nor the version,
/// is malformed.
pub open spec fn spec_decode(s: Seq<char>) -> SpecDecoded {
    let i = ws_end(s, 0);
    if i == s.len() || s[i] != '{' {
        SpecDecoded::Malformed
    } else {
        match top_members(s, i + 1, None, false, None, None, s.len() as nat) {
            None => SpecDecoded::Malformed,
            Some(p) => {
                if ws_end(s, p.1) != s.len() {
                    SpecDecoded::Malformed
                } else {
                    match p.0.id {
                        None => SpecDecoded::Malformed,
                        Some(id) => if !p.0.ver {
                            SpecDecoded::Malformed
                        } else {
                            match (p.0.result, p.0.error) {
                                (Some(r), None) => SpecDecoded::Success { id, result: r },
                                (None, Some(e)) => (SpecDecoded::Failure {
                                    id,
                                    code: e.code,
                                    message: e.message,
                                    data: e.data,
                                }),
                                (None, None) => SpecDecoded::Success { id, result: "null"@ },
                                _ => SpecDecoded::Malformed,
                            }
                        },
                    }
                }
            },
        }
    }
}

/// The request envelope: `{"id":N,"jsonrpc":"2.0","method":"...","params":...}`.
/// `method` is embedded unescaped and `params` is raw JSON text.
pub open spec fn request_body(id: nat, method: Seq<char>, params: Seq<char>) -> Seq<char> {
    "{\"id\":"@ + dec_of(id) + ",\"jsonrpc\":\"2.0\",\"method\":\""@ + method + "\",\"params\":"@
        + params + "}"@
}

/// The canonical decimal rendering of a possibly negative integer.
pub open spec fn int_dec(code: int) -> Seq<char> {
    if code < 0 {
        seq!['-'] + dec_of((-code) as nat)
    } else {
        dec_of(code as nat)
    }
}

/// The contents view of an optional text field.
pub open spec fn opt_str_view(o: Option<String>) -> Option<Seq<char>> {
    match o {
        Some(x) => Some(x@),
        None => None,
    }
}

/// The `ErrFields` view of a decoded error accumulator.
pub open spec fn err_opt_view(o: Option<(i64, String, Option<String>)>) -> Option<ErrFields> {
    match o {
        Some(t) => Some(ErrFields { code: t.0 as int, message: t.1@, data: opt_str_view(t.2) }),
        None => None,
    }
}

/// The mathematical view of a decoded error code accumulator.
pub open spec fn opt_code_view(o: Option<i64>) -> Option<int> {
    match o {
        Some(c) => Some(c as int),
        None => None,
    }
}

/// First position at or after `start` holding a non-whitespace character.
fn ws_end_exec(s: &str, start: usize) -> (r: usize)
    requires
        start <= s@.len(),
    ensures
        r as int == ws_end(s@, start as int),
        start <= r <= s@.len(),
{
    let n = s.unicode_len();
    let mut i = start;
    while i < n
        invariant
            start <= i <= n,
            n == s@.len(),
            ws_end(s@, start as int) == ws_end(s@, i as int),
        decreases n - i,
    {
        let c = s.get_char(i);
        if !(c == ' ' || c == '\t' || c == '\n' || c == '\r') {
            return i;
        }
        i = i + 1;
    }
    i
}

/// First position at or after `start` holding a non-digit.
fn dec_run_end_exec(s: &str, start: usize) -> (r: usize)
    requires
        start <= s@.len(),
    ensures
        r as int == dec_run_end(s@, start as int),
        start <= r <= s@.len(),
{
    let n = s.unicode_len();
    let mut i = start;
    while i < n
        invariant
            start <= i <= n,
            n == s@.len(),
            dec_run_end(s@, start as int) == dec_run_end(s@, i as int),
        decreases n - i,
    {
        let c = s.get_char(i);
        let u = c as u32;
        if !(48 <= u && u <= 57) {
            return i;
        }
        i = i + 1;
    }
    i
}

/// First position at or after `start` holding a token delimiter.
fn prim_end_exec(s: &str, start: usize) -> (r: usize)
    requires
        start <= s@.len(),
    ensures
        r as int == prim_end(s@, start as int),
        start <= r <= s@.len(),
{
    let n = s.unicode_len();
    let mut i = start;
    while i < n
        invariant
            start <= i <= n,
            n == s@.len(),
            prim_end(s@, start as int) == prim_end(s@, i as int),
        decreases n - i,
    {
        let c = s.get_char(i);
        if c == ',' || c == '}' || c == ']' || c == ' ' || c == '\t' || c == '\n' || c == '\r' {
            return i;
        }
        i = i + 1;
    }
    i
}

/// Base-ten value of a range known to hold only digits; `None` when the
/// value exceeds `u64::MAX`.
fn dec_value_exec(s: &str, start: usize, end: usize) -> (r: Option<u64>)
    requires
        start <= end <= s@.len(),
        forall|k: int| start <= k < end ==> is_dec_digit(#[trigger] s@[k]),
    ensures
        r matches Some(v) ==> v as nat == dec_value(s@.subrange(start as int, end as int)),
        r is None ==> dec_value(s@.subrange(start as int, end as int)) > u64::MAX,
{
    let ghost whole = s@.subrange(start as int, end as int);
    let mut acc: u64 = 0;
    let mut i = start;
    while i < end
        invariant
            start <= i <= end <= s@.len(),
            whole == s@.subrange(start as int, end as int),
            forall|k: int| start <= k < end ==> is_dec_digit(#[trigger] s@[k]),
            acc as nat == dec_value(whole.take(i - start)),
        decreases end - i,
    {
        let c = s.get_char(i);
        let u = c as u32;
        let d = (u - 48) as u8;
        proof {
            assert(whole[i - start] == s@[i as int]);
            assert(whole.take(i - start + 1).drop_last() =~= whole.take(i - start));
        }
        if acc > (u64::MAX - d as u64) / 10 {
            proof {
                assert(acc as nat * 10 + d as nat > u64::MAX) by (nonlinear_arith)
                    requires acc > (u64::MAX - d as u64) / 10, d < 10;
                lemma_dec_value_prefix(whole, i - start + 1);
            }
            return None;
        }
        proof {
            assert(acc as nat * 10 + d as nat <= u64::MAX) by (nonlinear_arith)
                requires acc <= (u64::MAX - d as u64) / 10, d < 10;
        }
        acc = acc * 10 + d as u64;
        i = i + 1;
    }
    proof {
        assert(whole.take(end - start) =~= whole);
    }
    Some(acc)
}

/// Position just after the closing quote of a string opened before `start`.
fn raw_str_end_exec(s: &str, start: usize) -> (r: Option<usize>)
    requires
        start <= s@.len(),
    ensures
        r is None ==> raw_str_end(s@, start as int) is None,
        r matches Some(e) ==> raw_str_end(s@, start as int) == Some(e as int)
            && start <= e <= s@.len(),
{
    let n = s.unicode_len();
    let mut i = start;
    loop
        invariant
            start <= i <= n,
            n == s@.len(),
            raw_str_end(s@, start as int) == raw_str_end(s@, i as int),
        decreases n - i,
    {
        if i == n {
            return None;
        }
        let c = s.get_char(i);
        if c == '"' {
            return Some(i + 1);
        }
        if c == '\\' {
            if i + 1 < n {
                i = i + 2;
            } else {
                return None;
            }
        } else {
            i = i + 1;
        }
    }
}

/// Position just after the bracketed value whose opening bracket stands at
/// `start - 1`.
fn brack_end_exec(s: &str, start: usize) -> (r: Option<usize>)
    requires
        1 <= start <= s@.len(),
    ensures
        r is None ==> brack_end(s@, start as int, 1, false, false) is None,
        r matches Some(e) ==> brack_end(s@, start as int, 1, false, false) == Some(e as int)
            && start <= e <= s@.len(),
{
    let n = s.unicode_len();
    let mut i = start;
    let mut depth: usize = 1;
    let mut in_str = false;
    let mut esc = false;
    loop
        invariant
            1 <= start <= i <= n,
            n == s@.len(),
            1 <= depth,
            depth <= i - start + 1,
            !in_str ==> !esc,
            brack_end(s@, start as int, 1, false, false) == brack_end(s@, i as int,
                depth as nat, in_str, esc),
        decreases n - i,
    {
        if i == n {
            return None;
        }
        let c = s.get_char(i);
        if in_str {
            if esc {
                esc = false;
            } else if c == '\\' {
                esc = true;
            } else if c == '"' {
                in_str = false;
            }
            i = i + 1;
        } else if c == '"' {
            in_str = true;
            i = i + 1;
        } else if c == '{' || c == '[' {
            depth = depth + 1;
            i = i + 1;
        } else if c == '}' || c == ']' {
            if depth == 1 {
                return Some(i + 1);
            }
            depth = depth - 1;
            i = i + 1;
        } else {
            i = i + 1;
        }
    }
}

/// Position just after one JSON value starting at `v`.
fn value_end_exec(s: &str, v: usize) -> (r: Option<usize>)
    requires
        v <= s@.len(),
    ensures
        r is None ==> value_end(s@, v as int) is None,
        r matches Some(e) ==> value_end(s@, v as int) == Some(e as int)
            && v <= e <= s@.len(),
{
    let n = s.unicode_len();
    if v == n {
        return None;
    }
    let c = s.get_char(v);
    if c == '"' {
        raw_str_end_exec(s, v + 1)
    } else if c == '{' || c == '[' {
        brack_end_exec(s, v + 1)
    } else {
        let j = prim_end_exec(s, v);
        if j == v {
            return None;
        }
        let tok = s.substring_char(v, j);
        if str_eq(tok, "true") || str_eq(tok, "false") || str_eq(tok, "null") {
            return Some(j);
        }
        let u = c as u32;
        if !((48 <= u && u <= 57) || c == '-') {
            proof {
                assert(!is_prim_token(s@.subrange(v as int, j as int))) by {
                    assert(s@.subrange(v as int, j as int)[0] == s@[v as int]);
                }
            }
            return None;
        }
        let mut k = v;
        while k < j
            invariant
                v < j,
                v <= k <= j <= n,
                n == s@.len(),
                v < n,
                s@[v as int] != '"',
                s@[v as int] != '{',
                s@[v as int] != '[',
                j as int == prim_end(s@, v as int),
                tok@ == s@.subrange(v as int, j as int),
                tok@ != "true"@ && tok@ != "false"@ && tok@ != "null"@,
                forall|t: int| v <= t < k ==> is_num_char(#[trigger] s@[t]),
            decreases j - k,
        {
            let ck = s.get_char(k);
            let uk = ck as u32;
            if !((48 <= uk && uk <= 57) || ck == '-' || ck == '+' || ck == '.' || ck == 'e'
                || ck == 'E') {
                proof {
                    assert(!is_prim_token(s@.subrange(v as int, j as int))) by {
                        assert(s@.subrange(v as int, j as int)[k - v] == s@[k as int]);
                        assert(tok@ != "true"@ && tok@ != "false"@ && tok@ != "null"@);
                    }
                }
                return None;
            }
            k = k + 1;
        }
        proof {
            assert(is_prim_token(s@.subrange(v as int, j as int))) by {
                assert(s@.subrange(v as int, j as int)[0] == s@[v as int]);
                assert(forall|t: int| 0 <= t < j - v ==> #[trigger] s@.subrange(v as int,
                    j as int)[t] == s@[v + t]);
            }
        }
        Some(j)
    }
}

/// Reads a string's contents from just after its opening quote, unescaping
/// as it goes.
fn str_content_exec(s: &str, start: usize) -> (r: Option<(String, usize)>)
    requires
        start <= s@.len(),
    ensures
        r is None ==> str_content(s@, start as int) is None,
        r matches Some(p) ==> str_content(s@, start as int) == Some((p.0@, p.1 as int))
            && start <= p.1 <= s@.len(),
{
    let n = s.unicode_len();
    let mut out = String::new();
    let mut span = start;
    let mut i = start;
    loop
        invariant
            start <= span <= i <= n,
            n == s@.len(),
            str_content(s@, start as int) == sc_prepend(out@ + s@.subrange(span as int,
                i as int), str_content(s@, i as int)),
        decreases n - i,
    {
        if i == n {
            return None;
        }
        let c = s.get_char(i);
        if c == '"' {
            let tail = s.substring_char(span, i);
            out.append(tail);
            proof {
                assert((out@ + Seq::<char>::empty()) =~= out@);
            }
            return Some((out, i + 1));
        }
        if c == '\\' {
            let tail = s.substring_char(span, i);
            out.append(tail);
            if i + 1 == n {
                return None;
            }
            let ghost before = out@;
            let e = s.get_char(i + 1);
            if e == '"' {
                out.append("\"");
            } else if e == '\\' {
                out.append("\\");
            } else if e == '/' {
                out.append("/");
            } else if e == 'b' {
                out.append("\u{0008}");
            } else if e == 'f' {
                out.append("\u{000C}");
            } else if e == 'n' {
                out.append("\n");
            } else if e == 'r' {
                out.append("\r");
            } else if e == 't' {
                out.append("\t");
            } else {
                return None;
            }
            proof {
                reveal_strlit("\"");
                reveal_strlit("\\");
                reveal_strlit("/");
                reveal_strlit("\u{0008}");
                reveal_strlit("\u{000C}");
                reveal_strlit("\n");
                reveal_strlit("\r");
                reveal_strlit("\t");
                let uc = unescaped(s@[i + 1])->0;
                assert(out@ =~= before + seq![uc]);
                match str_content(s@, i + 2) {
                    None => {},
                    Some(p) => {
                        assert((before + (seq![uc] + p.0)) =~= (out@ + s@.subrange(i + 2,
                            i + 2)) + p.0);
                    },
                }
            }
            i = i + 2;
            span = i;
        } else {
            let u = c as u32;
            if u < 32 {
                return None;
            }
            proof {
                assert(s@.subrange(span as int, i + 1) =~= s@.subrange(span as int,
                    i as int).push(s@[i as int]));
                match str_content(s@, i + 1) {
                    None => {},
                    Some(p) => {
                        assert(((out@ + s@.subrange(span as int, i as int)) + (seq![s@[
                            i as int]] + p.0)) =~= (out@ + s@.subrange(span as int, i + 1))
                            + p.0);
                    },
                }
            }
            i = i + 1;
        }
    }
}

/// Reads the error object's members from just after its opening brace.
#[verifier::rlimit(100)]
fn parse_err(s: &str, start: usize) -> (r: Option<(i64, String, Option<String>, usize)>)
    requires
        start <= s@.len(),
    ensures
        r is None ==> err_members(s@, start as int, None, None, None, s@.len() as nat)
            is None,
        r matches Some(t) ==> err_members(s@, start as int, None, None, None,
            s@.len() as nat) == Some((ErrFields {
            code: t.0 as int,
            message: t.1@,
            data: opt_str_view(t.2),
        }, t.3 as int)) && start <= t.3 <= s@.len(),
{
    let n = s.unicode_len();
    let mut code: Option<i64> = None;
    let mut message: Option<String> = None;
    let mut data: Option<String> = None;
    let mut i = start;
    let mut fuel = n;
    loop
        invariant
            start <= i <= n,
            n == s@.len(),
            fuel <= n,
            err_members(s@, start as int, None, None, None, n as nat) == err_members(s@,
                i as int, opt_code_view(code), opt_str_view(message), opt_str_view(data),
                fuel as nat),
        decreases fuel,
    {
        if fuel == 0 {
            return None;
        }
        let j = ws_end_exec(s, i);
        if j == n || s.get_char(j) != '"' {
            return None;
        }
        let kp = match str_content_exec(s, j + 1) {
            None => {
                return None;
            },
            Some(kp) => kp,
        };
        let m = ws_end_exec(s, kp.1);
        if m == n || s.get_char(m) != ':' {
            return None;
        }
        let v = ws_end_exec(s, m + 1);
        let e: usize;
        if str_eq(kp.0.as_str(), "code") {
            if code.is_some() {
                return None;
            }
            let neg = v < n && s.get_char(v) == '-';
            let q0 = if neg { v + 1 } else { v };
            let de = dec_run_end_exec(s, q0);
            if de == q0 {
                return None;
            }
            proof {
                lemma_dec_run_end_digits(s@, q0 as int);
            }
            let mag = match dec_value_exec(s, q0, de) {
                None => {
                    return None;
                },
                Some(x) => x,
            };
            if neg {
                if mag > 0x8000_0000_0000_0000u64 {
                    return None;
                }
                code = Some(if mag == 0x8000_0000_0000_0000u64 { i64::MIN } else {
                    -(mag as i64)
                });
            } else {
                if mag > i64::MAX as u64 {
                    return None;
                }
                code = Some(mag as i64);
            }
            e = de;
        } else if str_eq(kp.0.as_str(), "message") {
            if message.is_some() {
                return None;
            }
            if v == n || s.get_char(v) != '"' {
                return None;
            }
            let cp = match str_content_exec(s, v + 1) {
                None => {
                    return None;
                },
                Some(cp) => cp,
            };
            message = Some(cp.0);
            e = cp.1;
        } else if str_eq(kp.0.as_str(), "data") {
            if data.is_some() {
                return None;
            }
            let ve = match value_end_exec(s, v) {
                None => {
                    return None;
                },
                Some(x) => x,
            };
            data = Some(String::from_str(s.substring_char(v, ve)));
            e = ve;
        } else {
            let ve = match value_end_exec(s, v) {
                None => {
                    return None;
                },
                Some(x) => x,
            };
            e = ve;
        }
        let w = ws_end_exec(s, e);
        if w == n {
            return None;
        }
        let wc = s.get_char(w);
        if wc == ',' {
            i = w + 1;
            fuel = fuel - 1;
        } else if wc == '}' {
            let c = match code {
                None => {
                    return None;
                },
                Some(c) => c,
            };
            let msg = match message {
                None => {
                    return None;
                },
                Some(msg) => msg,
            };
            return Some((c, msg, data, w + 1));
        } else {
            return None;
        }
    }
}

/// Reads the response object's members from just after its opening brace.
#[verifier::rlimit(100)]
fn parse_top(s: &str, start: usize) -> (r: Option<(Option<u64>, bool, Option<String>,
    Option<(i64, String, Option<String>)>, usize)>)
    requires
        start <= s@.len(),
    ensures
        r is None ==> top_members(s@, start as int, None, false, None, None,
            s@.len() as nat) is None,
        r matches Some(t) ==> top_members(s@, start as int, None, false, None, None,
            s@.len() as nat) == Some((TopFields {
            id: t.0,
            ver: t.1,
            result: opt_str_view(t.2),
            error: err_opt_view(t.3),
        }, t.4 as int)) && start <= t.4 <= s@.len(),
{
    let n = s.unicode_len();
    let mut id: Option<u64> = None;
    let mut ver = false;
    let mut result: Option<String> = None;
    let mut error: Option<(i64, String, Option<String>)> = None;
    let mut i = start;
    let mut fuel = n;
    loop
        invariant
            start <= i <= n,
            n == s@.len(),
            fuel <= n,
            top_members(s@, start as int, None, false, None, None, n as nat) == top_members(
                s@, i as int, id, ver, opt_str_view(result), err_opt_view(error),
                fuel as nat),
        decreases fuel,
    {
        if fuel == 0 {
            return None;
        }
        let j = ws_end_exec(s, i);
        if j == n || s.get_char(j) != '"' {
            return None;
        }
        let kp = match str_content_exec(s, j + 1) {
            None => {
                return None;
            },
            Some(kp) => kp,
        };
        let m = ws_end_exec(s, kp.1);
        if m == n || s.get_char(m) != ':' {
            return None;
        }
        let v = ws_end_exec(s, m + 1);
        let e: usize;
        if str_eq(kp.0.as_str(), "id") {
            if id.is_some() {
                return None;
            }
            let de = dec_run_end_exec(s, v);
            if de == v {
                return None;
            }
            proof {
                lemma_dec_run_end_digits(s@, v as int);
            }
            let val = match dec_value_exec(s, v, de) {
                None => {
                    return None;
                },
                Some(x) => x,
            };
            id = Some(val);
            e = de;
        } else if str_eq(kp.0.as_str(), "jsonrpc") {
            if ver {
                return None;
            }
            if v == n || s.get_char(v) != '"' {
                return None;
            }
            let cp = match str_content_exec(s, v + 1) {
                None => {
                    return None;
                },
                Some(cp) => cp,
            };
            if !str_eq(cp.0.as_str(), "2.0") {
                return None;
            }
            ver = true;
            e = cp.1;
        } else if str_eq(kp.0.as_str(), "result") {
            if result.is_some() {
                return None;
            }
            let ve = match value_end_exec(s, v) {
                None => {
                    return None;
                },
                Some(x) => x,
            };
            result = Some(String::from_str(s.substring_char(v, ve)));
            e = ve;
        } else if str_eq(kp.0.as_str(), "error") {
            if error.is_some() {
                return None;
            }
            if v == n || s.get_char(v) != '{' {
                return None;
            }
            let et = match parse_err(s, v + 1) {
                None => {
                    return None;
                },
                Some(et) => et,
            };
            error = Some((et.0, et.1, et.2));
            e = et.3;
        } else {
            let ve = match value_end_exec(s, v) {
                None => {
                    return None;
                },
                Some(x) => x,
            };
            e = ve;
        }
        let w = ws_end_exec(s, e);
        if w == n {
            return None;
        }
        let wc = s.get_char(w);
        if wc == ',' {
            i = w + 1;
            fuel = fuel - 1;
        } else if wc == '}' {
            return Some((id, ver, result, error, w + 1));
        } else {
            return None;
        }
    }
}

/// Decodes a response body against the response-object grammar.
#[verifier::rlimit(60)]
pub fn decode_response(s: &str) -> (r: Decoded)
    ensures
        r@ == spec_decode(s@),
{
    let n = s.unicode_len();
    let i = ws_end_exec(s, 0);
    if i == n {
        return Decoded::Malformed;
    }
    if s.get_char(i) != '{' {
        return Decoded::Malformed;
    }
    let t = match parse_top(s, i + 1) {
        None => {
            return Decoded::Malformed;
        },
        Some(t) => t,
    };
    if ws_end_exec(s, t.4) != n {
        return Decoded::Malformed;
    }
    let id = match t.0 {
        None => {
            return Decoded::Malformed;
        },
        Some(x) => x,
    };
    if !t.1 {
        return Decoded::Malformed;
    }
    match (t.2, t.3) {
        (Some(_), Some(_)) => Decoded::Malformed,
        (Some(raw), None) => Decoded::Success { id, result: raw },
        (None, Some(et)) => Decoded::Failure {
            id,
            error: (JsonRpcError { code: et.0, message: et.1, data: et.2 }),
        },
        (None, None) => Decoded::Success { id, result: String::from_str("null") },
    }
}

/// Builds the JSON-RPC request envelope around already-encoded parameters.
pub fn encode_request(id: u64, method: &str, params_json: &str) -> (r: String)
    ensures
        r@ == request_body(id as nat, method@, params_json@),
{
    let mut out = String::from_str("{\"id\":");
    let ids = u64_to_dec(id);
    out.append(ids.as_str());
    out.append(",\"jsonrpc\":\"2.0\",\"method\":\"");
    out.append(method);
    out.append("\",\"params\":");
    out.append(params_json);
    out.append("}");
    proof {
        assert(out@ =~= request_body(id as nat, method@, params_json@));
    }
    out
}

} // verus!
