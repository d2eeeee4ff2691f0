//! The wire-protocol codec: decoding a request from a byte buffer and
//! encoding a response to bytes.
//!
//! The wire format is a text-based, HTTP/1.1-shaped subset. A request is a
//! request line `METHOD SP PATH SP VERSION CRLF`, zero or more header lines
//! `NAME: VALUE CRLF`, a blank `CRLF`, and, when a `Content-Length` header is
//! present, exactly that many body bytes. A response is
//! `HTTP/1.1 <status> <reason> CRLF`, the caller's headers in insertion
//! order, a `Content-Length` header computed from the body at encode time, a
//! blank `CRLF`, and the body bytes.
//!
//! Decoding works on whatever prefix of the stream has arrived so far:
//! `parse_request` distinguishes a complete request, a buffer that needs more
//! bytes, and a malformed one, so the caller can loop on partial reads.

use vstd::prelude::*;

verus! {

/// Carriage return.
pub const CR: u8 = 13;

/// Line feed.
pub const LF: u8 = 10;

/// Space.
pub const SP: u8 = 32;

/// Colon, the header name/value separator.
pub const COLON: u8 = 58;

/// A decoded request. Header insertion order is preserved; a later duplicate
/// header name overwrites the value of the earlier one in place.
pub struct Request {
    pub method: Vec<u8>,
    pub path: Vec<u8>,
    pub headers: Vec<(Vec<u8>, Vec<u8>)>,
    pub body: Vec<u8>,
}

/// A response under construction. `send` recomputes `Content-Length` from
/// `body`, so a caller-set `Content-Length` header is not trusted.
pub struct Response {
    pub status: u16,
    pub headers: Vec<(Vec<u8>, Vec<u8>)>,
    pub body: Vec<u8>,
}

/// The mathematical model of a request: the same fields as sequences.
pub ghost struct ReqModel {
    pub method: Seq<u8>,
    pub path: Seq<u8>,
    pub headers: Seq<(Seq<u8>, Seq<u8>)>,
    pub body: Seq<u8>,
}

/// The mathematical model of a response.
#[verifier::ext_equal]
pub ghost struct RespModel {
    pub status: int,
    pub headers: Seq<(Seq<u8>, Seq<u8>)>,
    pub body: Seq<u8>,
}

/// What decoding a byte sequence yields: a complete request, a need for more
/// bytes, or a malformed prefix.
pub ghost enum ParseModel {
    Complete(ReqModel),
    Incomplete,
    Malformed,
}

/// The exec-level outcome of `parse_request`.
pub enum ParseResult {
    Complete(Request),
    Incomplete,
    Malformed,
}

/// Header pairs as sequences.
pub open spec fn headers_model(hs: Seq<(Vec<u8>, Vec<u8>)>) -> Seq<(Seq<u8>, Seq<u8>)> {
    hs.map_values(|h: (Vec<u8>, Vec<u8>)| (h.0@, h.1@))
}

impl View for Request {
    type V = ReqModel;

    open spec fn view(&self) -> ReqModel {
        ReqModel {
            method: self.method@,
            path: self.path@,
            headers: headers_model(self.headers@),
            body: self.body@,
        }
    }
}

impl View for Response {
    type V = RespModel;

    open spec fn view(&self) -> RespModel {
        RespModel {
            status: self.status as int,
            headers: headers_model(self.headers@),
            body: self.body@,
        }
    }
}

// ---------------------------------------------------------------------------
// Spec-level grammar
// ---------------------------------------------------------------------------

/// Index of the first CRLF at or after `i`, if a full CRLF is in the buffer.
pub open spec fn find_crlf(s: Seq<u8>, i: int) -> Option<int>
    decreases s.len() - i,
{
    if i < 0 || i + 2 > s.len() {
        None
    } else if s[i] == CR && s[i + 1] == LF {
        Some(i)
    } else {
        find_crlf(s, i + 1)
    }
}

/// Index of the first `b` in `s` within `[i, end)`, if any.
pub open spec fn find_byte(s: Seq<u8>, b: u8, i: int, end: int) -> Option<int>
    decreases end - i,
{
    if i < 0 || i >= end || i >= s.len() {
        None
    } else if s[i] == b {
        Some(i)
    } else {
        find_byte(s, b, i + 1, end)
    }
}

/// First index in `[i, end)` whose byte is not a space, or `end`.
pub open spec fn skip_spaces(s: Seq<u8>, i: int, end: int) -> int
    decreases end - i,
{
    if i < 0 || i >= end || i >= s.len() {
        i
    } else if s[i] == SP {
        skip_spaces(s, i + 1, end)
    } else {
        i
    }
}

/// The request line occupies `[0, e)`: `METHOD SP PATH SP VERSION` with all
/// three tokens non-empty and no further space. Yields (method, path).
pub open spec fn parse_request_line(s: Seq<u8>, e: int) -> Option<(Seq<u8>, Seq<u8>)> {
    match find_byte(s, SP, 0, e) {
        None => None,
        Some(sp1) => match find_byte(s, SP, sp1 + 1, e) {
            None => None,
            Some(sp2) => if sp1 > 0 && sp2 > sp1 + 1 && sp2 + 1 < e && find_byte(
                s,
                SP,
                sp2 + 1,
                e,
            ) is None {
                Some((s.subrange(0, sp1), s.subrange(sp1 + 1, sp2)))
            } else {
                None
            },
        },
    }
}

/// Index of the first header named `name` at or after `i`.
pub open spec fn find_header(hs: Seq<(Seq<u8>, Seq<u8>)>, name: Seq<u8>, i: int) -> Option<int>
    decreases hs.len() - i,
{
    if i < 0 || i >= hs.len() {
        None
    } else if hs[i].0 == name {
        Some(i)
    } else {
        find_header(hs, name, i + 1)
    }
}

/// Insert-or-overwrite: a duplicate name keeps its position and takes the new
/// value; a new name is appended.
pub open spec fn upsert_header(
    hs: Seq<(Seq<u8>, Seq<u8>)>,
    name: Seq<u8>,
    value: Seq<u8>,
) -> Seq<(Seq<u8>, Seq<u8>)> {
    match find_header(hs, name, 0) {
        Some(i) => hs.update(i, (name, value)),
        None => hs.push((name, value)),
    }
}

/// Outcome of parsing the header block.
pub ghost enum HeadersParse {
    Done { headers: Seq<(Seq<u8>, Seq<u8>)>, body_start: int },
    Incomplete,
    Malformed,
}

/// Parses header lines starting at `p` until the blank line. A line without a
/// colon, or with an empty name, is malformed.
pub open spec fn parse_headers(s: Seq<u8>, p: int, acc: Seq<(Seq<u8>, Seq<u8>)>) -> HeadersParse
    decreases s.len() - p,
{
    match find_crlf(s, p) {
        None => HeadersParse::Incomplete,
        Some(e) => if !(p <= e && e + 2 <= s.len()) {
            // find_crlf never yields such an index; this arm grounds the recursion
            HeadersParse::Malformed
        } else if e == p {
            HeadersParse::Done { headers: acc, body_start: p + 2 }
        } else {
            match find_byte(s, COLON, p, e) {
                None => HeadersParse::Malformed,
                Some(c) => if c == p {
                    HeadersParse::Malformed
                } else {
                    parse_headers(
                        s,
                        e + 2,
                        upsert_header(
                            acc,
                            s.subrange(p, c),
                            s.subrange(skip_spaces(s, c + 1, e), e),
                        ),
                    )
                },
            }
        },
    }
}

/// The bytes of `"Content-Length"`.
pub open spec fn content_length_key() -> Seq<u8> {
    seq![67u8, 111u8, 110u8, 116u8, 101u8, 110u8, 116u8, 45u8, 76u8, 101u8, 110u8, 103u8, 116u8, 104u8]
}

/// A non-empty, all-decimal-digit byte sequence.
pub open spec fn is_digits(s: Seq<u8>) -> bool {
    s.len() > 0 && forall|i: int| 0 <= i < s.len() ==> 48 <= #[trigger] s[i] <= 57
}

/// The non-negative integer a decimal digit sequence denotes.
pub open spec fn dec_value(s: Seq<u8>) -> int
    decreases s.len(),
{
    if s.len() == 0 {
        0
    } else {
        dec_value(s.drop_last()) * 10 + (s.last() - 48)
    }
}

/// The full decode relation: what any buffer prefix of the stream means.
pub open spec fn parse_spec(s: Seq<u8>) -> ParseModel {
    match find_crlf(s, 0) {
        None => ParseModel::Incomplete,
        Some(e) => match parse_request_line(s, e) {
            None => ParseModel::Malformed,
            Some(mp) => match parse_headers(s, e + 2, Seq::empty()) {
                HeadersParse::Incomplete => ParseModel::Incomplete,
                HeadersParse::Malformed => ParseModel::Malformed,
                HeadersParse::Done { headers, body_start } => match find_header(
                    headers,
                    content_length_key(),
                    0,
                ) {
                    None => ParseModel::Complete(
                        ReqModel {
                            method: mp.0,
                            path: mp.1,
                            headers,
                            body: Seq::empty(),
                        },
                    ),
                    Some(i) => if !is_digits(headers[i].1) {
                        ParseModel::Malformed
                    } else if s.len() - body_start < dec_value(headers[i].1) {
                        ParseModel::Incomplete
                    } else {
                        ParseModel::Complete(
                            ReqModel {
                                method: mp.0,
                                path: mp.1,
                                headers,
                                body: s.subrange(body_start, body_start + dec_value(headers[i].1)),
                            },
                        )
                    },
                },
            },
        },
    }
}

// ---------------------------------------------------------------------------
// Facts about the spec-level grammar
// ---------------------------------------------------------------------------

/// No two header pairs share a name: the headers form a mapping.
pub open spec fn unique_names(hs: Seq<(Seq<u8>, Seq<u8>)>) -> bool {
    forall|i: int, j: int| 0 <= i < j < hs.len() ==> hs[i].0 != hs[j].0
}

/// A found header lies in range and bears the searched name.
proof fn lemma_find_header_some(hs: Seq<(Seq<u8>, Seq<u8>)>, name: Seq<u8>, j: int)
    ensures
        find_header(hs, name, j) matches Some(i) ==> j <= i < hs.len() && hs[i].0 == name,
    decreases hs.len() - j,
{
    if !(j < 0 || j >= hs.len()) && !(hs[j].0 == name) {
        lemma_find_header_some(hs, name, j + 1);
    }
}

/// When no header is found, no entry from `j` on bears the name.
proof fn lemma_find_header_none(hs: Seq<(Seq<u8>, Seq<u8>)>, name: Seq<u8>, j: int)
    requires
        0 <= j,
    ensures
        find_header(hs, name, j) is None ==> forall|k: int|
            j <= k < hs.len() ==> hs[k].0 != name,
    decreases hs.len() - j,
{
    if j < hs.len() && hs[j].0 != name {
        lemma_find_header_none(hs, name, j + 1);
    }
}

/// Law: inserting a header keeps the headers a mapping — a duplicate name
/// overwrites in place, a new name is appended, and either way no two
/// entries share a name afterwards.
pub proof fn lemma_upsert_preserves_unique(hs: Seq<(Seq<u8>, Seq<u8>)>, name: Seq<u8>, value: Seq<u8>)
    requires
        unique_names(hs),
    ensures
        unique_names(upsert_header(hs, name, value)),
{
    lemma_find_header_some(hs, name, 0);
    lemma_find_header_none(hs, name, 0);
    match find_header(hs, name, 0) {
        Some(i) => {
            let updated = hs.update(i, (name, value));
            assert forall|a: int, b: int| 0 <= a < b < updated.len() implies updated[a].0
                != updated[b].0 by {
                assert(hs[a].0 != hs[b].0);
            }
        },
        None => {
            let pushed = hs.push((name, value));
            assert forall|a: int, b: int| 0 <= a < b < pushed.len() implies pushed[a].0
                != pushed[b].0 by {
                if b < hs.len() {
                    assert(hs[a].0 != hs[b].0);
                } else {
                    assert(pushed[b].0 == name);
                    assert(pushed[a].0 == hs[a].0);
                }
            }
        },
    }
}

/// Parsing header lines keeps the accumulated headers a mapping.
proof fn lemma_parse_headers_unique(s: Seq<u8>, p: int, acc: Seq<(Seq<u8>, Seq<u8>)>)
    requires
        unique_names(acc),
    ensures
        parse_headers(s, p, acc) matches HeadersParse::Done { headers, .. } ==> unique_names(
            headers,
        ),
    decreases s.len() - p,
{
    match find_crlf(s, p) {
        None => {},
        Some(e) => {
            if p <= e && e + 2 <= s.len() && e != p {
                match find_byte(s, COLON, p, e) {
                    None => {},
                    Some(c) => {
                        if c != p {
                            let name = s.subrange(p, c);
                            let value = s.subrange(skip_spaces(s, c + 1, e), e);
                            lemma_upsert_preserves_unique(acc, name, value);
                            lemma_parse_headers_unique(s, e + 2, upsert_header(acc, name, value));
                        }
                    },
                }
            }
        },
    }
}

/// Law: a decoded request's headers form a mapping — no two header entries
/// share a name, however many duplicate header lines the wire carried.
pub proof fn lemma_decoded_headers_unique(s: Seq<u8>)
    ensures
        parse_spec(s) matches ParseModel::Complete(req) ==> unique_names(req.headers),
{
    match find_crlf(s, 0) {
        None => {},
        Some(e) => {
            assert(unique_names(Seq::<(Seq<u8>, Seq<u8>)>::empty()));
            lemma_parse_headers_unique(s, e + 2, Seq::empty());
        },
    }
}

/// A digit string denotes a non-negative value.
proof fn lemma_dec_value_nonneg(s: Seq<u8>)
    requires
        forall|i: int| 0 <= i < s.len() ==> 48 <= #[trigger] s[i] <= 57,
    ensures
        dec_value(s) >= 0,
    decreases s.len(),
{
    if s.len() > 0 {
        lemma_dec_value_nonneg(s.drop_last());
    }
}

/// Reading one more digit multiplies the prefix value by ten and adds it.
proof fn lemma_dec_value_take_step(s: Seq<u8>, i: int)
    requires
        0 <= i < s.len(),
    ensures
        dec_value(s.take(i + 1)) == dec_value(s.take(i)) * 10 + (s[i] - 48),
{
    assert(s.take(i + 1).drop_last() =~= s.take(i));
    assert(s.take(i + 1).last() == s[i]);
}

/// The value of a digit string is at least the value of any prefix.
proof fn lemma_dec_value_take_monotone(s: Seq<u8>, i: int)
    requires
        forall|j: int| 0 <= j < s.len() ==> 48 <= #[trigger] s[j] <= 57,
        0 <= i <= s.len(),
    ensures
        dec_value(s) >= dec_value(s.take(i)),
    decreases s.len() - i,
{
    if i < s.len() {
        lemma_dec_value_take_step(s, i);
        assert(forall|j: int|
            0 <= j < s.take(i).len() ==> 48 <= #[trigger] s.take(i)[j] <= 57);
        lemma_dec_value_nonneg(s.take(i));
        lemma_dec_value_take_monotone(s, i + 1);
    } else {
        assert(s.take(i) =~= s);
    }
}

// ---------------------------------------------------------------------------
// Exec helpers
// ---------------------------------------------------------------------------

/// True exactly when the two byte strings are equal.
pub fn bytes_eq(a: &[u8], b: &[u8]) -> (r: bool)
    ensures
        r == (a@ == b@),
{
    if a.len() != b.len() {
        return false;
    }
    let n = a.len();
    let mut i: usize = 0;
    while i < n
        invariant
            i <= n,
            n == a@.len(),
            a@.len() == b@.len(),
            forall|j: int| 0 <= j < i ==> a@[j] == b@[j],
        decreases n - i,
    {
        if a[i] != b[i] {
            return false;
        }
        i = i + 1;
    }
    proof {
        assert(a@ =~= b@);
    }
    true
}

/// Copies `s[a..b]` into a fresh vector.
fn slice_to_vec(s: &[u8], a: usize, b: usize) -> (r: Vec<u8>)
    requires
        a <= b && b <= s@.len(),
    ensures
        r@ == s@.subrange(a as int, b as int),
{
    let mut v: Vec<u8> = Vec::new();
    let mut i: usize = a;
    proof {
        assert(v@ =~= s@.subrange(a as int, a as int));
    }
    while i < b
        invariant
            a <= i <= b,
            b <= s@.len(),
            v@ == s@.subrange(a as int, i as int),
        decreases b - i,
    {
        v.push(s[i]);
        proof {
            assert(s@.subrange(a as int, i + 1) =~= s@.subrange(a as int, i as int).push(
                s@[i as int],
            ));
        }
        i = i + 1;
    }
    v
}

/// Finds the first CRLF at or after `from`.
fn find_crlf_exec(s: &[u8], from: usize) -> (r: Option<usize>)
    requires
        from <= s@.len(),
    ensures
        (match r {
            Some(j) => find_crlf(s@, from as int) == Some(j as int) && from <= j && j + 2
                <= s@.len(),
            None => find_crlf(s@, from as int) is None,
        }),
{
    let n = s.len();
    let mut i = from;
    while n >= 2 && i <= n - 2
        invariant
            n == s@.len(),
            from <= i,
            find_crlf(s@, from as int) == find_crlf(s@, i as int),
        decreases n - i,
    {
        if s[i] == CR && s[i + 1] == LF {
            return Some(i);
        }
        i = i + 1;
    }
    None
}

/// Finds the first `b` in `s[from..end]`.
fn find_byte_exec(s: &[u8], b: u8, from: usize, end: usize) -> (r: Option<usize>)
    requires
        end <= s@.len(),
    ensures
        (match r {
            Some(j) => find_byte(s@, b, from as int, end as int) == Some(j as int) && from <= j
                && j < end,
            None => find_byte(s@, b, from as int, end as int) is None,
        }),
{
    let mut i = from;
    while i < end
        invariant
            end <= s@.len(),
            from <= i,
            find_byte(s@, b, from as int, end as int) == find_byte(s@, b, i as int, end as int),
        decreases end - i,
    {
        if s[i] == b {
            return Some(i);
        }
        i = i + 1;
    }
    None
}

/// Skips spaces in `s[from..end]`.
fn skip_spaces_exec(s: &[u8], from: usize, end: usize) -> (r: usize)
    requires
        from <= end,
        end <= s@.len(),
    ensures
        r as int == skip_spaces(s@, from as int, end as int),
        from <= r <= end,
{
    let mut i = from;
    while i < end
        invariant
            from <= i <= end,
            end <= s@.len(),
            skip_spaces(s@, from as int, end as int) == skip_spaces(s@, i as int, end as int),
        decreases end - i,
    {
        if s[i] != SP {
            return i;
        }
        i = i + 1;
    }
    i
}

/// The bytes of `"Content-Length"` as a vector.
fn content_length_bytes() -> (r: Vec<u8>)
    ensures
        r@ == content_length_key(),
{
    let mut v: Vec<u8> = Vec::new();
    v.push(67);
    v.push(111);
    v.push(110);
    v.push(116);
    v.push(101);
    v.push(110);
    v.push(116);
    v.push(45);
    v.push(76);
    v.push(101);
    v.push(110);
    v.push(103);
    v.push(116);
    v.push(104);
    proof {
        assert(v@ =~= content_length_key());
    }
    v
}

/// Finds the first header with the given name.
fn find_header_exec(headers: &Vec<(Vec<u8>, Vec<u8>)>, name: &Vec<u8>) -> (r: Option<usize>)
    ensures
        (match r {
            Some(i) => find_header(headers_model(headers@), name@, 0) == Some(i as int) && i
                < headers@.len(),
            None => find_header(headers_model(headers@), name@, 0) is None,
        }),
{
    let n = headers.len();
    let mut i: usize = 0;
    while i < n
        invariant
            i <= n,
            n == headers@.len(),
            find_header(headers_model(headers@), name@, 0) == find_header(
                headers_model(headers@),
                name@,
                i as int,
            ),
        decreases n - i,
    {
        if bytes_eq(headers[i].0.as_slice(), name.as_slice()) {
            return Some(i);
        }
        i = i + 1;
    }
    None
}

/// Inserts a header pair: a duplicate name keeps its position and takes the
/// new value, a new name is appended.
fn upsert_header_exec(headers: &mut Vec<(Vec<u8>, Vec<u8>)>, name: Vec<u8>, value: Vec<u8>)
    ensures
        headers_model(final(headers)@) == upsert_header(
            headers_model(old(headers)@),
            name@,
            value@,
        ),
{
    match find_header_exec(headers, &name) {
        Some(i) => {
            headers.remove(i);
            headers.insert(i, (name, value));
            proof {
                assert(headers_model(headers@) =~= upsert_header(
                    headers_model(old(headers)@),
                    name@,
                    value@,
                ));
            }
        },
        None => {
            headers.push((name, value));
            proof {
                assert(headers_model(headers@) =~= upsert_header(
                    headers_model(old(headers)@),
                    name@,
                    value@,
                ));
            }
        },
    }
}

/// True exactly when `v` is a non-empty run of decimal digits.
fn all_digits(v: &[u8]) -> (r: bool)
    ensures
        r == is_digits(v@),
{
    let n = v.len();
    if n == 0 {
        return false;
    }
    let mut i: usize = 0;
    while i < n
        invariant
            i <= n,
            n == v@.len(),
            forall|j: int| 0 <= j < i ==> 48 <= #[trigger] v@[j] <= 57,
        decreases n - i,
    {
        if v[i] < 48 || v[i] > 57 {
            return false;
        }
        i = i + 1;
    }
    true
}

/// Parses a digit string as a `usize`; `None` means the value does not fit.
fn parse_decimal(v: &[u8]) -> (r: Option<usize>)
    requires
        is_digits(v@),
    ensures
        (match r {
            Some(n) => n as int == dec_value(v@),
            None => dec_value(v@) > usize::MAX,
        }),
{
    let n = v.len();
    let mut acc: usize = 0;
    let mut i: usize = 0;
    proof {
        assert(v@.take(0) =~= Seq::<u8>::empty());
    }
    while i < n
        invariant
            is_digits(v@),
            i <= n,
            n == v@.len(),
            acc as int == dec_value(v@.take(i as int)),
        decreases n - i,
    {
        let d: u8 = v[i] - 48;
        proof {
            lemma_dec_value_take_step(v@, i as int);
        }
        if acc > usize::MAX / 10 || (acc == usize::MAX / 10 && d as usize > usize::MAX % 10) {
            proof {
                lemma_dec_value_take_monotone(v@, i + 1);
            }
            return None;
        }
        acc = acc * 10 + d as usize;
        i = i + 1;
    }
    proof {
        assert(v@.take(n as int) =~= v@);
    }
    Some(acc)
}

// ---------------------------------------------------------------------------
// Decoding
// ---------------------------------------------------------------------------

/// Decodes one request from the bytes received so far. `Incomplete` asks the
/// caller to read more; once the stream has ended, an `Incomplete` buffer is
/// a decode failure like `Malformed`.
#[verifier::loop_isolation(false)]
pub fn parse_request(input: &[u8]) -> (r: ParseResult)
    ensures
        (match r {
            ParseResult::Complete(req) => parse_spec(input@) == ParseModel::Complete(req@),
            ParseResult::Incomplete => parse_spec(input@) is Incomplete,
            ParseResult::Malformed => parse_spec(input@) is Malformed,
        }),
{
    let ilen = input.len();
    let e = match find_crlf_exec(input, 0) {
        None => {
            return ParseResult::Incomplete;
        },
        Some(e) => e,
    };
    let sp1 = match find_byte_exec(input, SP, 0, e) {
        None => {
            return ParseResult::Malformed;
        },
        Some(x) => x,
    };
    let sp2 = match find_byte_exec(input, SP, sp1 + 1, e) {
        None => {
            return ParseResult::Malformed;
        },
        Some(x) => x,
    };
    let third = find_byte_exec(input, SP, sp2 + 1, e);
    if !(sp1 > 0 && sp2 > sp1 + 1 && sp2 + 1 < e && third.is_none()) {
        return ParseResult::Malformed;
    }
    let method = slice_to_vec(input, 0, sp1);
    let path = slice_to_vec(input, sp1 + 1, sp2);
    let mut headers: Vec<(Vec<u8>, Vec<u8>)> = Vec::new();
    let mut p: usize = e + 2;
    let ghost hstart: int = p as int;
    proof {
        assert(headers_model(headers@) =~= Seq::<(Seq<u8>, Seq<u8>)>::empty());
    }
    let mut done = false;
    while !done
        invariant
            hstart <= p <= ilen,
            !done ==> parse_headers(input@, hstart, Seq::empty()) == parse_headers(
                input@,
                p as int,
                headers_model(headers@),
            ),
            done ==> parse_headers(input@, hstart, Seq::empty()) == (HeadersParse::Done {
                headers: headers_model(headers@),
                body_start: p as int,
            }),
        decreases ilen - p,
    {
        let le = match find_crlf_exec(input, p) {
            None => {
                return ParseResult::Incomplete;
            },
            Some(x) => x,
        };
        if le == p {
            p = p + 2;
            done = true;
        } else {
            let c = match find_byte_exec(input, COLON, p, le) {
                None => {
                    return ParseResult::Malformed;
                },
                Some(c) => c,
            };
            if c == p {
                return ParseResult::Malformed;
            }
            let name = slice_to_vec(input, p, c);
            let vstart = skip_spaces_exec(input, c + 1, le);
            let value = slice_to_vec(input, vstart, le);
            upsert_header_exec(&mut headers, name, value);
            p = le + 2;
        }
    }
    let clkey = content_length_bytes();
    match find_header_exec(&headers, &clkey) {
        None => {
            let req = Request { method, path, headers, body: Vec::new() };
            proof {
                assert(req@.body =~= Seq::<u8>::empty());
            }
            ParseResult::Complete(req)
        },
        Some(ci) => {
            let ok = all_digits(headers[ci].1.as_slice());
            if !ok {
                return ParseResult::Malformed;
            }
            match parse_decimal(headers[ci].1.as_slice()) {
                None => {
                    // the declared length does not even fit in memory; more
                    // bytes than the buffer can hold are still owed
                    ParseResult::Incomplete
                },
                Some(need) => {
                    if need > ilen - p {
                        ParseResult::Incomplete
                    } else {
                        let body = slice_to_vec(input, p, p + need);
                        ParseResult::Complete(Request { method, path, headers, body })
                    }
                },
            }
        },
    }
}

// ---------------------------------------------------------------------------
// Encoding
// ---------------------------------------------------------------------------

/// The bytes of a CRLF line ending.
pub open spec fn crlf() -> Seq<u8> {
    seq![13u8, 10u8]
}

/// The bytes of `"HTTP/1.1"`.
pub open spec fn http_version_bytes() -> Seq<u8> {
    seq![72u8, 84u8, 84u8, 80u8, 47u8, 49u8, 46u8, 49u8]
}

/// The decimal digits of `n` (non-negative), most significant first.
pub open spec fn dec_digits(n: int) -> Seq<u8>
    decreases n,
{
    if n < 0 {
        Seq::empty()
    } else if n < 10 {
        seq![(48 + n) as u8]
    } else {
        dec_digits(n / 10).push((48 + n % 10) as u8)
    }
}

/// The reason phrase sent with a status code.
pub open spec fn reason_phrase(status: int) -> Seq<u8> {
    if status == 200 {
        seq![79u8, 75u8]  // OK
    } else if status == 400 {
        seq![66u8, 97u8, 100u8, 32u8, 82u8, 101u8, 113u8, 117u8, 101u8, 115u8, 116u8]  // Bad Request
    } else if status == 404 {
        seq![78u8, 111u8, 116u8, 32u8, 70u8, 111u8, 117u8, 110u8, 100u8]  // Not Found
    } else if status == 500 {
        // Internal Server Error
        seq![
            73u8,
            110u8,
            116u8,
            101u8,
            114u8,
            110u8,
            97u8,
            108u8,
            32u8,
            83u8,
            101u8,
            114u8,
            118u8,
            101u8,
            114u8,
            32u8,
            69u8,
            114u8,
            114u8,
            111u8,
            114u8,
        ]
    } else {
        seq![85u8, 110u8, 107u8, 110u8, 111u8, 119u8, 110u8]  // Unknown
    }
}

/// One encoded header line `NAME: VALUE CRLF`.
pub open spec fn header_line(h: (Seq<u8>, Seq<u8>)) -> Seq<u8> {
    h.0 + seq![COLON, SP] + h.1 + crlf()
}

/// The encoded header lines from index `i` on, in insertion order.
pub open spec fn header_lines(hs: Seq<(Seq<u8>, Seq<u8>)>, i: int) -> Seq<u8>
    decreases hs.len() - i,
{
    if i < 0 || i >= hs.len() {
        Seq::empty()
    } else {
        header_line(hs[i]) + header_lines(hs, i + 1)
    }
}

/// The exact bytes that sending a response produces: status line, the
/// caller's headers in insertion order, a `Content-Length` computed from the
/// body, a blank line, and the body.
pub open spec fn encode_spec(m: RespModel) -> Seq<u8> {
    http_version_bytes() + seq![SP] + dec_digits(m.status) + seq![SP] + reason_phrase(m.status)
        + crlf() + header_lines(m.headers, 0) + content_length_key() + seq![COLON, SP]
        + dec_digits(m.body.len() as int) + crlf() + crlf() + m.body
}

/// Appends one byte.
fn push_byte(out: &mut Vec<u8>, b: u8)
    ensures
        final(out)@ == old(out)@ + seq![b],
{
    out.push(b);
    proof {
        assert(out@ =~= old(out)@ + seq![b]);
    }
}

/// Appends a byte string.
fn push_bytes(out: &mut Vec<u8>, bytes: &Vec<u8>)
    ensures
        final(out)@ == old(out)@ + bytes@,
{
    let n = bytes.len();
    let mut i: usize = 0;
    proof {
        assert(out@ =~= old(out)@ + bytes@.take(0));
    }
    while i < n
        invariant
            i <= n,
            n == bytes@.len(),
            out@ == old(out)@ + bytes@.take(i as int),
        decreases n - i,
    {
        out.push(bytes[i]);
        proof {
            assert(bytes@.take(i + 1) =~= bytes@.take(i as int).push(bytes@[i as int]));
            assert(old(out)@ + bytes@.take(i as int).push(bytes@[i as int]) =~= (old(out)@
                + bytes@.take(i as int)).push(bytes@[i as int]));
        }
        i = i + 1;
    }
    proof {
        assert(bytes@.take(n as int) =~= bytes@);
    }
}

/// Appends the CRLF line ending.
fn push_crlf(out: &mut Vec<u8>)
    ensures
        final(out)@ == old(out)@ + crlf(),
{
    out.push(CR);
    out.push(LF);
    proof {
        assert(out@ =~= old(out)@ + crlf());
    }
}

/// Appends `"HTTP/1.1"`.
fn push_version(out: &mut Vec<u8>)
    ensures
        final(out)@ == old(out)@ + http_version_bytes(),
{
    out.push(72);
    out.push(84);
    out.push(84);
    out.push(80);
    out.push(47);
    out.push(49);
    out.push(46);
    out.push(49);
    proof {
        assert(out@ =~= old(out)@ + http_version_bytes());
    }
}

/// Appends the decimal digits of `n`.
fn push_dec(n: u64, out: &mut Vec<u8>)
    ensures
        final(out)@ == old(out)@ + dec_digits(n as int),
    decreases n,
{
    if n >= 10 {
        push_dec(n / 10, out);
    }
    let d: u8 = 48 + (n % 10) as u8;
    out.push(d);
    proof {
        if n < 10 {
            assert(out@ =~= old(out)@ + dec_digits(n as int));
        } else {
            assert(out@ =~= old(out)@ + dec_digits(n as int));
        }
    }
}

/// Appends the reason phrase for `status`.
fn push_reason(out: &mut Vec<u8>, status: u16)
    ensures
        final(out)@ == old(out)@ + reason_phrase(status as int),
{
    if status == 200 {
        out.push(79);
        out.push(75);
    } else if status == 400 {
        out.push(66);
        out.push(97);
        out.push(100);
        out.push(32);
        out.push(82);
        out.push(101);
        out.push(113);
        out.push(117);
        out.push(101);
        out.push(115);
        out.push(116);
    } else if status == 404 {
        out.push(78);
        out.push(111);
        out.push(116);
        out.push(32);
        out.push(70);
        out.push(111);
        out.push(117);
        out.push(110);
        out.push(100);
    } else if status == 500 {
        out.push(73);
        out.push(110);
        out.push(116);
        out.push(101);
        out.push(114);
        out.push(110);
        out.push(97);
        out.push(108);
        out.push(32);
        out.push(83);
        out.push(101);
        out.push(114);
        out.push(118);
        out.push(101);
        out.push(114);
        out.push(32);
        out.push(69);
        out.push(114);
        out.push(114);
        out.push(111);
        out.push(114);
    } else {
        out.push(85);
        out.push(110);
        out.push(107);
        out.push(110);
        out.push(111);
        out.push(119);
        out.push(110);
    }
    proof {
        assert(out@ =~= old(out)@ + reason_phrase(status as int));
    }
}

impl Response {
    /// An empty response with status 200, for a handler to populate.
    pub fn new() -> (r: Response)
        ensures
            r@.status == 200,
            r@.headers == Seq::<(Seq<u8>, Seq<u8>)>::empty(),
            r@.body == Seq::<u8>::empty(),
    {
        let r = Response { status: 200, headers: Vec::new(), body: Vec::new() };
        proof {
            assert(headers_model(r.headers@) =~= Seq::<(Seq<u8>, Seq<u8>)>::empty());
        }
        r
    }

    /// Sets a header: a duplicate name keeps its position and takes the new
    /// value, a new name is appended.
    pub fn insert_header(&mut self, name: Vec<u8>, value: Vec<u8>)
        ensures
            final(self)@.headers == upsert_header(old(self)@.headers, name@, value@),
            final(self)@.status == old(self)@.status,
            final(self)@.body == old(self)@.body,
    {
        upsert_header_exec(&mut self.headers, name, value);
    }

    /// Writes the encoded response onto `stream`: exactly
    /// `encode_spec(self@)` is appended. The caller owns delivery of the
    /// buffer to the transport.
    pub fn send(&self, stream: &mut Vec<u8>)
        ensures
            final(stream)@ == old(stream)@ + encode_spec(self@),
    {
        push_version(stream);
        push_byte(stream, SP);
        push_dec(self.status as u64, stream);
        push_byte(stream, SP);
        push_reason(stream, self.status);
        push_crlf(stream);
        let ghost base: Seq<u8> = stream@;
        let n = self.headers.len();
        let mut i: usize = 0;
        while i < n
            invariant
                i <= n,
                n == self.headers@.len(),
                stream@ + header_lines(self@.headers, i as int) == base + header_lines(
                    self@.headers,
                    0,
                ),
            decreases n - i,
        {
            let before: Ghost<Seq<u8>> = Ghost(stream@);
            push_bytes(stream, &self.headers[i].0);
            push_byte(stream, COLON);
            push_byte(stream, SP);
            push_bytes(stream, &self.headers[i].1);
            push_crlf(stream);
            proof {
                assert(stream@ =~= before@ + header_line(self@.headers[i as int]));
                assert(stream@ + header_lines(self@.headers, i + 1) =~= before@ + (header_line(
                    self@.headers[i as int],
                ) + header_lines(self@.headers, i + 1)));
                assert(header_line(self@.headers[i as int]) + header_lines(self@.headers, i + 1)
                    == header_lines(self@.headers, i as int));
            }
            i = i + 1;
        }
        proof {
            assert(header_lines(self@.headers, n as int) =~= Seq::<u8>::empty());
            assert(stream@ =~= stream@ + header_lines(self@.headers, n as int));
            assert(stream@ =~= base + header_lines(self@.headers, 0));
        }
        let clkey = content_length_bytes();
        push_bytes(stream, &clkey);
        push_byte(stream, COLON);
        push_byte(stream, SP);
        push_dec(self.body.len() as u64, stream);
        push_crlf(stream);
        push_crlf(stream);
        push_bytes(stream, &self.body);
        proof {
            assert(stream@ =~= old(stream)@ + encode_spec(self@));
        }
    }
}

} // verus!
