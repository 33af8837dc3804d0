//! The locator grammar. A request carries an opaque locator string; this
//! module parses it into a tagged request value:
//!
//! - `once://<key>`: an ephemeral buffer lookup under `<key>`.
//! - `content://<hash>`: a content lookup, the hash being the rest of the
//!   locator stripped of leading and trailing slashes.
//! - `thumb://<hash>?width=<u32>&height=<u32>`: a thumbnail lookup; the hash
//!   is the authority component and the dimensions come from the query,
//!   each defaulting to 250 when absent or unparseable. The later of two
//!   pairs with the same name wins.
//!
//! Locators are handled as byte strings throughout.

use vstd::prelude::*;

use crate::bytes::{has_prefix, starts_with};
use vstd::slice::{slice_subrange, slice_to_vec};

verus! {

/// `"once://"`.
pub open spec fn scheme_once() -> Seq<u8> {
    seq!['o' as u8, 'n' as u8, 'c' as u8, 'e' as u8, ':' as u8, '/' as u8, '/' as u8]
}

/// `"content://"`.
pub open spec fn scheme_content() -> Seq<u8> {
    seq![
        'c' as u8,
        'o' as u8,
        'n' as u8,
        't' as u8,
        'e' as u8,
        'n' as u8,
        't' as u8,
        ':' as u8,
        '/' as u8,
        '/' as u8,
    ]
}

/// `"thumb://"`.
pub open spec fn scheme_thumb() -> Seq<u8> {
    seq!['t' as u8, 'h' as u8, 'u' as u8, 'm' as u8, 'b' as u8, ':' as u8, '/' as u8, '/' as u8]
}

/// `"width"`.
pub open spec fn param_width() -> Seq<u8> {
    seq!['w' as u8, 'i' as u8, 'd' as u8, 't' as u8, 'h' as u8]
}

/// `"height"`.
pub open spec fn param_height() -> Seq<u8> {
    seq!['h' as u8, 'e' as u8, 'i' as u8, 'g' as u8, 'h' as u8, 't' as u8]
}

/// The index of the first occurrence of `b` in `s`, or `s.len()` if none.
pub open spec fn byte_index(s: Seq<u8>, b: u8) -> int
    decreases s.len(),
{
    if s.len() == 0 {
        0
    } else if s[0] == b {
        0
    } else {
        1 + byte_index(s.skip(1), b)
    }
}

/// `byte_index` is the least index holding `b`, or the length.
pub proof fn lemma_byte_index(s: Seq<u8>, b: u8)
    ensures
        0 <= byte_index(s, b) <= s.len(),
        forall|j: int| 0 <= j < byte_index(s, b) ==> s[j] != b,
        byte_index(s, b) < s.len() ==> s[byte_index(s, b)] == b,
    decreases s.len(),
{
    if s.len() > 0 && s[0] != b {
        lemma_byte_index(s.skip(1), b);
        assert(forall|j: int| 0 <= j < byte_index(s.skip(1), b) ==> s.skip(1)[j] != b);
        assert(forall|j: int| 1 <= j < byte_index(s, b) ==> s[j] == s.skip(1)[j - 1]);
    }
}

/// The first occurrence of `b` in `s`, or `s.len()` if there is none.
pub fn find_byte(s: &[u8], b: u8) -> (i: usize)
    ensures
        i as int == byte_index(s@, b),
{
    let n = s.len();
    let mut i: usize = 0;
    while i < n
        invariant
            n == s@.len(),
            i <= n,
            forall|j: int| 0 <= j < i ==> s@[j] != b,
        decreases n - i,
    {
        if s[i] == b {
            proof {
                lemma_byte_index(s@, b);
            }
            return i;
        }
        i += 1;
    }
    proof {
        lemma_byte_index(s@, b);
    }
    i
}

/// Does this byte end the authority component of a locator?
pub open spec fn is_authority_end(b: u8) -> bool {
    b == '/' as u8 || b == '?' as u8 || b == '#' as u8
}

/// The index at which the authority component ends, or `s.len()`.
pub open spec fn authority_end(s: Seq<u8>) -> int
    decreases s.len(),
{
    if s.len() == 0 {
        0
    } else if is_authority_end(s[0]) {
        0
    } else {
        1 + authority_end(s.skip(1))
    }
}

/// `authority_end` is the least index holding a delimiter, or the length.
pub proof fn lemma_authority_end(s: Seq<u8>)
    ensures
        0 <= authority_end(s) <= s.len(),
        forall|j: int| 0 <= j < authority_end(s) ==> !is_authority_end(s[j]),
        authority_end(s) < s.len() ==> is_authority_end(s[authority_end(s)]),
    decreases s.len(),
{
    if s.len() > 0 && !is_authority_end(s[0]) {
        lemma_authority_end(s.skip(1));
        assert(forall|j: int| 1 <= j < authority_end(s) ==> s[j] == s.skip(1)[j - 1]);
    }
}

/// Where the authority component of `s` ends.
pub fn find_authority_end(s: &[u8]) -> (i: usize)
    ensures
        i as int == authority_end(s@),
{
    let n = s.len();
    let mut i: usize = 0;
    while i < n
        invariant
            n == s@.len(),
            i <= n,
            forall|j: int| 0 <= j < i ==> !is_authority_end(s@[j]),
        decreases n - i,
    {
        let b = s[i];
        if b == '/' as u8 || b == '?' as u8 || b == '#' as u8 {
            proof {
                lemma_authority_end(s@);
            }
            return i;
        }
        i += 1;
    }
    proof {
        lemma_authority_end(s@);
    }
    i
}

/// `s` with leading slashes removed.
pub open spec fn trim_slashes_front(s: Seq<u8>) -> Seq<u8>
    decreases s.len(),
{
    if s.len() > 0 && s[0] == '/' as u8 {
        trim_slashes_front(s.skip(1))
    } else {
        s
    }
}

/// `s` with trailing slashes removed.
pub open spec fn trim_slashes_back(s: Seq<u8>) -> Seq<u8>
    decreases s.len(),
{
    if s.len() > 0 && s.last() == '/' as u8 {
        trim_slashes_back(s.drop_last())
    } else {
        s
    }
}

/// `s` with leading and trailing slashes removed.
pub open spec fn trim_slashes(s: Seq<u8>) -> Seq<u8> {
    trim_slashes_back(trim_slashes_front(s))
}

proof fn lemma_trim_front(s: Seq<u8>, a: int)
    requires
        0 <= a <= s.len(),
        forall|j: int| 0 <= j < a ==> s[j] == '/' as u8,
        a < s.len() ==> s[a] != '/' as u8,
    ensures
        trim_slashes_front(s) == s.skip(a),
    decreases a,
{
    if a == 0 {
        assert(s.skip(0) =~= s);
    } else {
        lemma_trim_front(s.skip(1), a - 1);
        assert(s.skip(1).skip(a - 1) =~= s.skip(a));
    }
}

proof fn lemma_trim_back(s: Seq<u8>, b: int)
    requires
        0 <= b <= s.len(),
        forall|j: int| b <= j < s.len() ==> s[j] == '/' as u8,
        b > 0 ==> s[b - 1] != '/' as u8,
    ensures
        trim_slashes_back(s) == s.subrange(0, b),
    decreases s.len(),
{
    if b == s.len() {
        assert(s.subrange(0, b) =~= s);
    } else {
        lemma_trim_back(s.drop_last(), b);
        assert(s.drop_last().subrange(0, b) =~= s.subrange(0, b));
    }
}

/// An owned copy of `s` with leading and trailing slashes removed.
pub fn trim_slashes_exec(s: &[u8]) -> (r: Vec<u8>)
    ensures
        r@ == trim_slashes(s@),
{
    let n = s.len();
    let mut a: usize = 0;
    while a < n && s[a] == '/' as u8
        invariant
            n == s@.len(),
            a <= n,
            forall|j: int| 0 <= j < a ==> s@[j] == '/' as u8,
        decreases n - a,
    {
        a += 1;
    }
    proof {
        lemma_trim_front(s@, a as int);
    }
    let mut b: usize = n;
    while b > a && s[b - 1] == '/' as u8
        invariant
            n == s@.len(),
            a <= b <= n,
            forall|j: int| b <= j < n ==> s@[j] == '/' as u8,
        decreases b,
    {
        b -= 1;
    }
    proof {
        lemma_trim_back(s@.skip(a as int), b - a);
        assert(s@.skip(a as int).subrange(0, b - a) =~= s@.subrange(a as int, b as int));
    }
    slice_to_vec(slice_subrange(s, a, b))
}

/// Is this byte an ASCII decimal digit?
pub open spec fn is_digit(b: u8) -> bool {
    '0' as u8 <= b && b <= '9' as u8
}

/// Is `s` a non-empty run of decimal digits?
pub open spec fn all_digits(s: Seq<u8>) -> bool {
    s.len() > 0 && forall|j: int| 0 <= j < s.len() ==> is_digit(s[j])
}

/// The number a run of decimal digits denotes.
pub open spec fn digits_value(s: Seq<u8>) -> nat
    decreases s.len(),
{
    if s.len() == 0 {
        0
    } else {
        digits_value(s.drop_last()) * 10 + (s.last() - '0' as u8) as nat
    }
}

/// The value of a run of digits is at least the value of any prefix of it.
proof fn lemma_digits_value_monotone(s: Seq<u8>, j: int)
    requires
        0 <= j <= s.len(),
    ensures
        digits_value(s) >= digits_value(s.subrange(0, j)),
    decreases s.len() - j,
{
    if j == s.len() {
        assert(s.subrange(0, j) =~= s);
    } else {
        assert(s.subrange(0, j + 1).drop_last() =~= s.subrange(0, j));
        assert(digits_value(s.subrange(0, j + 1)) == digits_value(s.subrange(0, j)) * 10 + (
        s.subrange(0, j + 1).last() - '0' as u8) as nat);
        lemma_digits_value_monotone(s, j + 1);
    }
}

/// The number `s` denotes as an unsigned 32-bit decimal literal: an
/// optional leading `+`, then one or more digits, denoting at most
/// `u32::MAX`. Anything else denotes nothing.
pub open spec fn parse_u32_spec(s: Seq<u8>) -> Option<u32> {
    let t = if s.len() > 0 && s[0] == '+' as u8 {
        s.skip(1)
    } else {
        s
    };
    if all_digits(t) && digits_value(t) <= u32::MAX {
        Some(digits_value(t) as u32)
    } else {
        None
    }
}

/// Parse `s` as an unsigned 32-bit decimal literal.
pub fn parse_u32(s: &[u8]) -> (r: Option<u32>)
    ensures
        r == parse_u32_spec(s@),
{
    let t: &[u8] = if s.len() > 0 && s[0] == '+' as u8 {
        slice_subrange(s, 1, s.len())
    } else {
        s
    };
    proof {
        if s@.len() > 0 && s@[0] == '+' as u8 {
            assert(t@ =~= s@.skip(1));
        }
    }
    let n = t.len();
    if n == 0 {
        return None;
    }
    let mut value: u32 = 0;
    let mut i: usize = 0;
    while i < n
        invariant
            n == t@.len(),
            0 < n,
            i <= n,
            if s@.len() > 0 && s@[0] == '+' as u8 {
                t@ == s@.skip(1)
            } else {
                t@ == s@
            },
            all_digits(t@.subrange(0, i as int)) || i == 0,
            value == digits_value(t@.subrange(0, i as int)),
        decreases n - i,
    {
        let b = t[i];
        if b < '0' as u8 || b > '9' as u8 {
            assert(!is_digit(t@[i as int]));
            assert(!all_digits(t@));
            return None;
        }
        let d = (b - '0' as u8) as u32;
        proof {
            assert(t@.subrange(0, i as int + 1).drop_last() =~= t@.subrange(0, i as int));
            assert(t@.subrange(0, i as int + 1).last() == t@[i as int]);
            assert(digits_value(t@.subrange(0, i as int + 1)) == digits_value(
                t@.subrange(0, i as int),
            ) * 10 + (b - '0' as u8) as nat);
        }
        if value > (u32::MAX - d) / 10 {
            proof {
                let v = value as int;
                let dd = d as int;
                assert(v * 10 + dd > u32::MAX as int) by (nonlinear_arith)
                    requires
                        v > (u32::MAX as int - dd) / 10,
                        0 <= dd <= 9,
                        v >= 0,
                ;
                if all_digits(t@) {
                    lemma_digits_value_monotone(t@, i as int + 1);
                    assert(digits_value(t@) > u32::MAX);
                }
            }
            return None;
        }
        value = value * 10 + d;
        i += 1;
    }
    proof {
        assert(t@.subrange(0, n as int) =~= t@);
    }
    Some(value)
}

/// The value of the latest query pair named `name`, if any. Pairs are
/// separated by `&`; within a pair the name runs up to the first `=` and
/// the value is everything after it (empty when there is no `=`).
pub open spec fn lookup_param(q: Seq<u8>, name: Seq<u8>) -> Option<Seq<u8>>
    decreases q.len(),
{
    let i = byte_index(q, '&' as u8);
    if 0 <= i && i < q.len() {
        match lookup_param(q.skip(i + 1), name) {
            Some(v) => Some(v),
            None => segment_value(q.subrange(0, i), name),
        }
    } else {
        segment_value(q, name)
    }
}

/// The value a single `name=value` segment gives to `name`, if it names it.
pub open spec fn segment_value(seg: Seq<u8>, name: Seq<u8>) -> Option<Seq<u8>> {
    let i = byte_index(seg, '=' as u8);
    if seg.subrange(0, i) == name {
        if i < seg.len() {
            Some(seg.skip(i + 1))
        } else {
            Some(Seq::empty())
        }
    } else {
        None
    }
}

fn segment_value_exec(seg: &[u8], name: &[u8]) -> (r: Option<Vec<u8>>)
    ensures
        match r {
            Some(v) => segment_value(seg@, name@) == Some(v@),
            None => segment_value(seg@, name@) is None,
        },
{
    proof {
        lemma_byte_index(seg@, '=' as u8);
    }
    let i = find_byte(seg, '=' as u8);
    let key = slice_subrange(seg, 0, i);
    if crate::bytes::bytes_eq(key, name) {
        if i < seg.len() {
            let v = slice_to_vec(slice_subrange(seg, i + 1, seg.len()));
            proof {
                assert(seg@.subrange(i as int + 1, seg@.len() as int) =~= seg@.skip(i as int + 1));
            }
            Some(v)
        } else {
            Some(Vec::new())
        }
    } else {
        None
    }
}

/// The value of the latest query pair named `name`, if any.
pub fn lookup_param_exec(q: &[u8], name: &[u8]) -> (r: Option<Vec<u8>>)
    ensures
        match r {
            Some(v) => lookup_param(q@, name@) == Some(v@),
            None => lookup_param(q@, name@) is None,
        },
    decreases q@.len(),
{
    proof {
        lemma_byte_index(q@, '&' as u8);
    }
    let i = find_byte(q, '&' as u8);
    if i < q.len() {
        let rest = slice_subrange(q, i + 1, q.len());
        proof {
            assert(rest@ =~= q@.skip(i as int + 1));
        }
        match lookup_param_exec(rest, name) {
            Some(v) => Some(v),
            None => segment_value_exec(slice_subrange(q, 0, i), name),
        }
    } else {
        segment_value_exec(q, name)
    }
}

/// The query component of `rest` (what follows the scheme): everything
/// after the first `?` that precedes any `#`, or empty when there is none.
pub open spec fn query_of(rest: Seq<u8>) -> Seq<u8> {
    let before_fragment = rest.subrange(0, byte_index(rest, '#' as u8));
    let q = byte_index(before_fragment, '?' as u8);
    if q < before_fragment.len() {
        before_fragment.skip(q + 1)
    } else {
        Seq::empty()
    }
}

/// The query component of `rest`.
pub fn query_of_exec(rest: &[u8]) -> (r: Vec<u8>)
    ensures
        r@ == query_of(rest@),
{
    proof {
        lemma_byte_index(rest@, '#' as u8);
    }
    let h = find_byte(rest, '#' as u8);
    let before_fragment = slice_subrange(rest, 0, h);
    proof {
        lemma_byte_index(before_fragment@, '?' as u8);
    }
    let q = find_byte(before_fragment, '?' as u8);
    if q < before_fragment.len() {
        let out = slice_to_vec(slice_subrange(before_fragment, q + 1, before_fragment.len()));
        proof {
            assert(before_fragment@.subrange(q as int + 1, before_fragment@.len() as int)
                =~= before_fragment@.skip(q as int + 1));
        }
        out
    } else {
        Vec::new()
    }
}

/// The dimension a query gives under `name`: the latest pair of that name
/// parsed as a decimal, or 250 when the pair is absent or unparseable.
pub open spec fn dimension_param(q: Seq<u8>, name: Seq<u8>) -> u32 {
    match lookup_param(q, name) {
        Some(v) => match parse_u32_spec(v) {
            Some(n) => n,
            None => 250,
        },
        None => 250,
    }
}

/// The dimension a query gives under `name`.
pub fn dimension_param_exec(q: &[u8], name: &[u8]) -> (r: u32)
    ensures
        r == dimension_param(q@, name@),
{
    match lookup_param_exec(q, name) {
        Some(v) => match parse_u32(v.as_slice()) {
            Some(n) => n,
            None => 250,
        },
        None => 250,
    }
}

/// A parsed locator.
#[derive(Debug)]
pub enum Request {
    /// `once://<key>`: look `<key>` up in the buffer cache only.
    Once { key: Vec<u8> },
    /// `content://<hash>`: look the hash up, fetching on a miss.
    Content { hash: Vec<u8> },
    /// `thumb://<hash>?width=..&height=..`: look the thumbnail up,
    /// generating in the background on a miss.
    Thumbnail { hash: Vec<u8>, width: u32, height: u32 },
}

/// The mathematical value of a parsed locator.
pub ghost enum RequestView {
    Once { key: Seq<u8> },
    Content { hash: Seq<u8> },
    Thumbnail { hash: Seq<u8>, width: u32, height: u32 },
}

impl View for Request {
    type V = RequestView;

    open spec fn view(&self) -> RequestView {
        match self {
            Request::Once { key } => RequestView::Once { key: key@ },
            Request::Content { hash } => RequestView::Content { hash: hash@ },
            Request::Thumbnail { hash, width, height } => RequestView::Thumbnail {
                hash: hash@,
                width: *width,
                height: *height,
            },
        }
    }
}

/// Why a locator was rejected.
#[derive(Clone, Copy, PartialEq, Eq, Structural, Debug)]
pub enum LocatorError {
    /// The locator carries none of the three schemes.
    UnknownScheme,
    /// A thumbnail locator without an authority component.
    MissingDomain,
}

/// What a locator parses to.
pub open spec fn parse_locator_spec(uri: Seq<u8>) -> Result<RequestView, LocatorError> {
    if has_prefix(uri, scheme_once()) {
        Ok(RequestView::Once { key: uri.skip(scheme_once().len() as int) })
    } else if has_prefix(uri, scheme_content()) {
        Ok(
            RequestView::Content {
                hash: trim_slashes(uri.skip(scheme_content().len() as int)),
            },
        )
    } else if has_prefix(uri, scheme_thumb()) {
        let rest = uri.skip(scheme_thumb().len() as int);
        let hash = rest.subrange(0, authority_end(rest));
        if hash.len() == 0 {
            Err(LocatorError::MissingDomain)
        } else {
            Ok(
                RequestView::Thumbnail {
                    hash,
                    width: dimension_param(query_of(rest), param_width()),
                    height: dimension_param(query_of(rest), param_height()),
                },
            )
        }
    } else {
        Err(LocatorError::UnknownScheme)
    }
}

fn once_prefix() -> (r: Vec<u8>)
    ensures
        r@ == scheme_once(),
{
    let mut v: Vec<u8> = Vec::new();
    v.push('o' as u8);
    v.push('n' as u8);
    v.push('c' as u8);
    v.push('e' as u8);
    v.push(':' as u8);
    v.push('/' as u8);
    v.push('/' as u8);
    assert(v@ =~= scheme_once());
    v
}

fn content_prefix() -> (r: Vec<u8>)
    ensures
        r@ == scheme_content(),
{
    let mut v: Vec<u8> = Vec::new();
    v.push('c' as u8);
    v.push('o' as u8);
    v.push('n' as u8);
    v.push('t' as u8);
    v.push('e' as u8);
    v.push('n' as u8);
    v.push('t' as u8);
    v.push(':' as u8);
    v.push('/' as u8);
    v.push('/' as u8);
    assert(v@ =~= scheme_content());
    v
}

fn thumb_prefix() -> (r: Vec<u8>)
    ensures
        r@ == scheme_thumb(),
{
    let mut v: Vec<u8> = Vec::new();
    v.push('t' as u8);
    v.push('h' as u8);
    v.push('u' as u8);
    v.push('m' as u8);
    v.push('b' as u8);
    v.push(':' as u8);
    v.push('/' as u8);
    v.push('/' as u8);
    assert(v@ =~= scheme_thumb());
    v
}

fn width_name() -> (r: Vec<u8>)
    ensures
        r@ == param_width(),
{
    let mut v: Vec<u8> = Vec::new();
    v.push('w' as u8);
    v.push('i' as u8);
    v.push('d' as u8);
    v.push('t' as u8);
    v.push('h' as u8);
    assert(v@ =~= param_width());
    v
}

fn height_name() -> (r: Vec<u8>)
    ensures
        r@ == param_height(),
{
    let mut v: Vec<u8> = Vec::new();
    v.push('h' as u8);
    v.push('e' as u8);
    v.push('i' as u8);
    v.push('g' as u8);
    v.push('h' as u8);
    v.push('t' as u8);
    assert(v@ =~= param_height());
    v
}

/// Parse a locator into a tagged request.
pub fn parse_locator(uri: &[u8]) -> (r: Result<Request, LocatorError>)
    ensures
        match r {
            Ok(req) => parse_locator_spec(uri@) == Ok::<RequestView, LocatorError>(req@),
            Err(e) => parse_locator_spec(uri@) == Err::<RequestView, LocatorError>(e),
        },
{
    let once = once_prefix();
    let content = content_prefix();
    let thumb = thumb_prefix();
    if starts_with(uri, once.as_slice()) {
        let key = slice_to_vec(slice_subrange(uri, 7, uri.len()));
        proof {
            assert(key@ =~= uri@.skip(7));
        }
        Ok(Request::Once { key })
    } else if starts_with(uri, content.as_slice()) {
        let rest = slice_subrange(uri, 10, uri.len());
        proof {
            assert(rest@ =~= uri@.skip(10));
        }
        let hash = trim_slashes_exec(rest);
        Ok(Request::Content { hash })
    } else if starts_with(uri, thumb.as_slice()) {
        let rest = slice_subrange(uri, 8, uri.len());
        proof {
            assert(rest@ =~= uri@.skip(8));
            lemma_authority_end(rest@);
        }
        let a = find_authority_end(rest);
        if a == 0 {
            return Err(LocatorError::MissingDomain);
        }
        let hash = slice_to_vec(slice_subrange(rest, 0, a));
        let query = query_of_exec(rest);
        let width = dimension_param_exec(query.as_slice(), width_name().as_slice());
        let height = dimension_param_exec(query.as_slice(), height_name().as_slice());
        Ok(Request::Thumbnail { hash, width, height })
    } else {
        Err(LocatorError::UnknownScheme)
    }
}

} // verus!
