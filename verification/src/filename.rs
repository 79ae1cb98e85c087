//! Filenames derived from network-controlled input: the sanitizer, the
//! percent decoder, the content-disposition parser, and the resolution
//! order a download uses to pick the name it saves under.
//!
//! Every candidate name crosses the sanitizer before it may enter a
//! filesystem path: traversal-prefixed input is refused outright, directory
//! components are stripped, and empty, dot, traversal-prefixed or
//! extension-less names are rejected.

use vstd::prelude::*;

use crate::bytes::{ascii_lower, matches_at, to_ascii_lower};

verus! {

/// True for the two path separators: '/' and '\'.
pub open spec fn is_sep(b: u8) -> bool {
    b == 0x2F || b == 0x5C
}

/// The part of `s` after its last path separator; `s` itself when none.
pub open spec fn last_component(s: Seq<u8>) -> Seq<u8>
    decreases s.len(),
{
    if s.len() == 0 {
        s
    } else if is_sep(s.last()) {
        Seq::empty()
    } else {
        last_component(s.drop_last()) + seq![s.last()]
    }
}

/// The last component is the suffix that follows the last separator.
pub proof fn lemma_last_component_range(s: Seq<u8>, k: int)
    requires
        0 <= k <= s.len(),
        forall|j: int| k <= j < s.len() ==> !is_sep(#[trigger] s[j]),
        k > 0 ==> is_sep(s[k - 1]),
    ensures
        last_component(s) == s.subrange(k, s.len() as int),
    decreases s.len(),
{
    if k == s.len() {
        if s.len() > 0 {
            assert(is_sep(s.last()));
        }
        assert(s.subrange(k, s.len() as int) =~= Seq::<u8>::empty());
    } else {
        assert(!is_sep(s.last()));
        lemma_last_component_range(s.drop_last(), k);
        assert(s.drop_last().subrange(k, s.len() - 1) =~= s.subrange(k, s.len() - 1));
        assert(s.subrange(k, s.len() - 1) + seq![s.last()] =~= s.subrange(k, s.len() as int));
    }
}

/// True when `s` begins with "..".
pub open spec fn dotdot_prefixed(s: Seq<u8>) -> bool {
    s.len() >= 2 && s[0] == 0x2E && s[1] == 0x2E
}

/// What the sanitizer accepts of a network-derived name. A
/// traversal-prefixed input is refused whole; otherwise the directory
/// components are stripped and the remaining name is rejected when it is
/// empty, the dot name, traversal-prefixed, or has no extension dot.
pub open spec fn sanitize_spec(s: Seq<u8>) -> Option<Seq<u8>> {
    if dotdot_prefixed(s) {
        None
    } else {
        let n = last_component(s);
        if n.len() == 0 {
            None
        } else if n == seq![0x2Eu8] {
            None
        } else if dotdot_prefixed(n) {
            None
        } else if !(exists|j: int| 0 <= j < n.len() && #[trigger] n[j] == 0x2E) {
            None
        } else {
            Some(n)
        }
    }
}

/// Copies `s[a..b]`.
pub fn subrange_vec(s: &Vec<u8>, a: usize, b: usize) -> (r: Vec<u8>)
    requires
        a <= b <= s@.len(),
    ensures
        r@ == s@.subrange(a as int, b as int),
{
    let mut r: Vec<u8> = Vec::new();
    let mut i: usize = a;
    while i < b
        invariant
            a <= i <= b <= s@.len(),
            r@ =~= s@.subrange(a as int, i as int),
        decreases b - i,
    {
        r.push(s[i]);
        assert(r@ =~= s@.subrange(a as int, i + 1));
        i = i + 1;
    }
    r
}

/// Sanitizes a filename that came from network-controlled input. Accepts
/// exactly what `sanitize_spec` accepts, returning the stripped name.
pub fn sanitize_filename(name: &Vec<u8>) -> (r: Option<Vec<u8>>)
    ensures
        r is Some <==> sanitize_spec(name@) is Some,
        r matches Some(v) ==> sanitize_spec(name@) == Some(v@),
{
    if name.len() >= 2 && name[0] == 0x2E && name[1] == 0x2E {
        return None;
    }
    // Cut point: the position right after the last separator.
    let mut cut: usize = name.len();
    while cut > 0 && name[cut - 1] != 0x2F && name[cut - 1] != 0x5C
        invariant
            0 <= cut <= name@.len(),
            forall|j: int| cut <= j < name@.len() ==> !is_sep(#[trigger] name@[j]),
        decreases cut,
    {
        cut = cut - 1;
    }
    proof {
        lemma_last_component_range(name@, cut as int);
    }
    let n = subrange_vec(name, cut, name.len());
    assert(n@ == last_component(name@));
    if n.len() == 0 {
        return None;
    }
    if n.len() == 1 && n[0] == 0x2E {
        assert(n@ =~= seq![0x2Eu8]);
        return None;
    }
    if n.len() >= 2 && n[0] == 0x2E && n[1] == 0x2E {
        return None;
    }
    let mut has_dot = false;
    let mut i: usize = 0;
    while i < n.len()
        invariant
            0 <= i <= n@.len(),
            has_dot == (exists|j: int| 0 <= j < i && #[trigger] n@[j] == 0x2E),
        decreases n@.len() - i,
    {
        if n[i] == 0x2E {
            has_dot = true;
        }
        i = i + 1;
    }
    if !has_dot {
        return None;
    }
    assert(n@ != seq![0x2Eu8]) by {
        if n@ =~= seq![0x2Eu8] {
            assert(n@.len() == 1);
        }
    }
    Some(n)
}

/// True for an ASCII hexadecimal digit.
pub open spec fn is_hex(b: u8) -> bool {
    (0x30 <= b <= 0x39) || (0x41 <= b <= 0x46) || (0x61 <= b <= 0x66)
}

/// Value of one hexadecimal digit.
pub open spec fn hex_val(b: u8) -> nat {
    if 0x30 <= b <= 0x39 {
        (b - 0x30) as nat
    } else if 0x41 <= b <= 0x46 {
        (b - 0x41 + 10) as nat
    } else if 0x61 <= b <= 0x66 {
        (b - 0x61 + 10) as nat
    } else {
        0
    }
}

/// Percent-decoding: each '%' followed by two hexadecimal digits becomes
/// the byte they name; every other byte — a broken escape included — is
/// copied unchanged.
pub open spec fn percent_decode(s: Seq<u8>) -> Seq<u8>
    decreases s.len(),
{
    if s.len() == 0 {
        Seq::empty()
    } else if s[0] == 0x25 && s.len() >= 3 && is_hex(s[1]) && is_hex(s[2]) {
        seq![(hex_val(s[1]) * 16 + hex_val(s[2])) as u8] + percent_decode(s.skip(3))
    } else {
        seq![s[0]] + percent_decode(s.skip(1))
    }
}

/// Value of one hexadecimal digit byte; zero for others.
fn hex_digit_val(b: u8) -> (r: u8)
    ensures
        r as nat == hex_val(b),
        is_hex(b) ==> r < 16,
{
    if 0x30 <= b && b <= 0x39 {
        b - 0x30
    } else if 0x41 <= b && b <= 0x46 {
        b - 0x41 + 10
    } else if 0x61 <= b && b <= 0x66 {
        b - 0x61 + 10
    } else {
        0
    }
}

/// Tests whether a byte is a hexadecimal digit.
fn is_hex_byte(b: u8) -> (r: bool)
    ensures
        r == is_hex(b),
{
    (0x30 <= b && b <= 0x39) || (0x41 <= b && b <= 0x46) || (0x61 <= b && b <= 0x66)
}

/// Decodes percent escapes, copying broken escapes verbatim.
pub fn percent_decode_bytes(s: &Vec<u8>) -> (r: Vec<u8>)
    ensures
        r@ == percent_decode(s@),
{
    let mut r: Vec<u8> = Vec::new();
    let mut i: usize = 0;
    proof {
        assert(s@.skip(0) =~= s@);
        assert(Seq::<u8>::empty() + percent_decode(s@) =~= percent_decode(s@));
    }
    while i < s.len()
        invariant
            0 <= i <= s@.len(),
            percent_decode(s@) == r@ + percent_decode(s@.skip(i as int)),
        decreases s@.len() - i,
    {
        let b = s[i];
        let ghost rest = s@.skip(i as int);
        assert(rest[0] == s@[i as int]);
        let mut triple = false;
        if b == 0x25 && s.len() - i > 2 {
            let h1 = is_hex_byte(s[i + 1]);
            let h2 = is_hex_byte(s[i + 2]);
            triple = h1 && h2;
        }
        if triple {
            assert(rest.len() >= 3 && rest[1] == s@[i + 1] && rest[2] == s@[i + 2]);
            let v1 = hex_digit_val(s[i + 1]);
            let v2 = hex_digit_val(s[i + 2]);
            r.push(v1 * 16 + v2);
            assert(rest.skip(3) =~= s@.skip(i + 3));
            assert(percent_decode(rest) == seq![(hex_val(rest[1]) * 16 + hex_val(rest[2])) as u8]
                + percent_decode(s@.skip(i + 3)));
            i = i + 3;
        } else {
            r.push(b);
            assert(rest.skip(1) =~= s@.skip(i + 1));
            assert(percent_decode(rest) == seq![rest[0]] + percent_decode(s@.skip(i + 1)));
            i = i + 1;
        }
    }
    assert(s@.skip(s@.len() as int) =~= Seq::<u8>::empty());
    assert(r@ =~= percent_decode(s@));
    r
}

/// True for the bytes the header parser trims as whitespace.
pub open spec fn is_ws(b: u8) -> bool {
    b == 0x20 || (0x09 <= b <= 0x0D)
}

/// `s` without leading and trailing whitespace.
pub open spec fn trim_ws(s: Seq<u8>) -> Seq<u8>
    decreases s.len(),
{
    if s.len() > 0 && is_ws(s.first()) {
        trim_ws(s.drop_first())
    } else if s.len() > 0 && is_ws(s.last()) {
        trim_ws(s.drop_last())
    } else {
        s
    }
}

/// `s` without leading and trailing double quotes.
pub open spec fn trim_quotes(s: Seq<u8>) -> Seq<u8>
    decreases s.len(),
{
    if s.len() > 0 && s.first() == 0x22 {
        trim_quotes(s.drop_first())
    } else if s.len() > 0 && s.last() == 0x22 {
        trim_quotes(s.drop_last())
    } else {
        s
    }
}

/// Trimming whitespace keeps exactly the middle range.
proof fn lemma_trim_ws_range(s: Seq<u8>, lo: int, hi: int)
    requires
        0 <= lo <= hi <= s.len(),
        forall|j: int| 0 <= j < lo ==> is_ws(#[trigger] s[j]),
        forall|j: int| hi <= j < s.len() ==> is_ws(#[trigger] s[j]),
        lo < hi ==> !is_ws(s[lo]) && !is_ws(s[hi - 1]),
    ensures
        trim_ws(s) == s.subrange(lo, hi),
    decreases s.len(),
{
    if lo > 0 {
        assert(is_ws(s.first()));
        lemma_trim_ws_range(s.drop_first(), lo - 1, hi - 1);
        assert(s.drop_first().subrange(lo - 1, hi - 1) =~= s.subrange(lo, hi));
    } else if lo == hi {
        if s.len() > 0 {
            assert(is_ws(s[0]));
            lemma_trim_ws_range(s.drop_first(), 0, 0);
            assert(s.drop_first().subrange(0, 0) =~= s.subrange(lo, hi));
        } else {
            assert(s.subrange(0, 0) =~= s);
        }
    } else if hi < s.len() {
        assert(is_ws(s.last()));
        assert(!is_ws(s.first()));
        lemma_trim_ws_range(s.drop_last(), lo, hi);
        assert(s.drop_last().subrange(lo, hi) =~= s.subrange(lo, hi));
    } else {
        assert(!is_ws(s.first()) && !is_ws(s.last()));
        assert(s.subrange(lo, hi) =~= s);
    }
}

/// Trimming quotes keeps exactly the middle range.
proof fn lemma_trim_quotes_range(s: Seq<u8>, lo: int, hi: int)
    requires
        0 <= lo <= hi <= s.len(),
        forall|j: int| 0 <= j < lo ==> #[trigger] s[j] == 0x22,
        forall|j: int| hi <= j < s.len() ==> #[trigger] s[j] == 0x22,
        lo < hi ==> s[lo] != 0x22 && s[hi - 1] != 0x22,
    ensures
        trim_quotes(s) == s.subrange(lo, hi),
    decreases s.len(),
{
    if lo > 0 {
        lemma_trim_quotes_range(s.drop_first(), lo - 1, hi - 1);
        assert(s.drop_first().subrange(lo - 1, hi - 1) =~= s.subrange(lo, hi));
    } else if lo == hi {
        if s.len() > 0 {
            assert(s[0] == 0x22);
            lemma_trim_quotes_range(s.drop_first(), 0, 0);
            assert(s.drop_first().subrange(0, 0) =~= s.subrange(lo, hi));
        } else {
            assert(s.subrange(0, 0) =~= s);
        }
    } else if hi < s.len() {
        lemma_trim_quotes_range(s.drop_last(), lo, hi);
        assert(s.drop_last().subrange(lo, hi) =~= s.subrange(lo, hi));
    } else {
        assert(s.subrange(lo, hi) =~= s);
    }
}

/// Trims leading and trailing whitespace.
pub fn trim_ws_bytes(s: &Vec<u8>) -> (r: Vec<u8>)
    ensures
        r@ == trim_ws(s@),
{
    let mut lo: usize = 0;
    while lo < s.len() && (s[lo] == 0x20 || (0x09 <= s[lo] && s[lo] <= 0x0D))
        invariant
            0 <= lo <= s@.len(),
            forall|j: int| 0 <= j < lo ==> is_ws(#[trigger] s@[j]),
        decreases s@.len() - lo,
    {
        lo = lo + 1;
    }
    let mut hi: usize = s.len();
    while hi > lo && (s[hi - 1] == 0x20 || (0x09 <= s[hi - 1] && s[hi - 1] <= 0x0D))
        invariant
            lo <= hi <= s@.len(),
            forall|j: int| hi <= j < s@.len() ==> is_ws(#[trigger] s@[j]),
        decreases hi,
    {
        hi = hi - 1;
    }
    proof {
        lemma_trim_ws_range(s@, lo as int, hi as int);
    }
    subrange_vec(s, lo, hi)
}

/// Trims leading and trailing double quotes.
pub fn trim_quote_bytes(s: &Vec<u8>) -> (r: Vec<u8>)
    ensures
        r@ == trim_quotes(s@),
{
    let mut lo: usize = 0;
    while lo < s.len() && s[lo] == 0x22
        invariant
            0 <= lo <= s@.len(),
            forall|j: int| 0 <= j < lo ==> #[trigger] s@[j] == 0x22,
        decreases s@.len() - lo,
    {
        lo = lo + 1;
    }
    let mut hi: usize = s.len();
    while hi > lo && s[hi - 1] == 0x22
        invariant
            lo <= hi <= s@.len(),
            forall|j: int| hi <= j < s@.len() ==> #[trigger] s@[j] == 0x22,
        decreases hi,
    {
        hi = hi - 1;
    }
    proof {
        lemma_trim_quotes_range(s@, lo as int, hi as int);
    }
    subrange_vec(s, lo, hi)
}

/// The value bytes up to the first parameter separator ';'.
pub open spec fn take_until_semi(s: Seq<u8>) -> Seq<u8>
    decreases s.len(),
{
    if s.len() == 0 {
        s
    } else if s.first() == 0x3B {
        Seq::empty()
    } else {
        seq![s.first()] + take_until_semi(s.drop_first())
    }
}

/// The prefix before the first ';' is what the spec keeps.
proof fn lemma_take_until_semi_range(s: Seq<u8>, k: int)
    requires
        0 <= k <= s.len(),
        forall|j: int| 0 <= j < k ==> #[trigger] s[j] != 0x3B,
        k < s.len() ==> s[k] == 0x3B,
    ensures
        take_until_semi(s) == s.take(k),
    decreases s.len(),
{
    if k == 0 {
        assert(s.take(0) =~= Seq::<u8>::empty());
        if s.len() > 0 {
            assert(s.first() == 0x3B);
        } else {
            assert(s.take(0) =~= s);
        }
    } else {
        assert(s.first() != 0x3B);
        lemma_take_until_semi_range(s.drop_first(), k - 1);
        assert(s.drop_first().take(k - 1) =~= s.take(k).drop_first());
        assert(seq![s.first()] + s.take(k).drop_first() =~= s.take(k));
    }
}

/// Keeps the value bytes before the first ';'.
pub fn take_until_semi_bytes(s: &Vec<u8>) -> (r: Vec<u8>)
    ensures
        r@ == take_until_semi(s@),
{
    let mut k: usize = 0;
    while k < s.len() && s[k] != 0x3B
        invariant
            0 <= k <= s@.len(),
            forall|j: int| 0 <= j < k ==> #[trigger] s@[j] != 0x3B,
        decreases s@.len() - k,
    {
        k = k + 1;
    }
    proof {
        lemma_take_until_semi_range(s@, k as int);
        assert(s@.take(k as int) =~= s@.subrange(0, k as int));
    }
    subrange_vec(s, 0, k)
}

/// "filename*=" — the encoded-parameter key, matched case-insensitively.
pub open spec fn pat_filename_star() -> Seq<u8> {
    seq![0x66u8, 0x69, 0x6C, 0x65, 0x6E, 0x61, 0x6D, 0x65, 0x2A, 0x3D]
}

/// "filename=" — the plain-parameter key, matched case-insensitively.
pub open spec fn pat_filename_eq() -> Seq<u8> {
    seq![0x66u8, 0x69, 0x6C, 0x65, 0x6E, 0x61, 0x6D, 0x65, 0x3D]
}

/// "''" — the charset/value divider of the encoded parameter.
pub open spec fn pat_quotes() -> Seq<u8> {
    seq![0x27u8, 0x27]
}

/// First position at or after `pos` where `pat` occurs in `s`.
pub open spec fn first_at(s: Seq<u8>, pat: Seq<u8>, pos: int) -> Option<int>
    decreases s.len() - pos when 0 <= pos
{
    if pos + pat.len() > s.len() {
        None
    } else if pat.len() == 0 {
        Some(pos)
    } else if matches_at(s, pat, pos) {
        Some(pos)
    } else {
        first_at(s, pat, pos + 1)
    }
}

/// Scans for the first occurrence of `pat` in `s` at or after `pos`.
fn find_first_at(s: &Vec<u8>, pat: &Vec<u8>, pos: usize) -> (r: Option<usize>)
    requires
        pos <= s@.len(),
        pat@.len() >= 1,
    ensures
        r is Some <==> first_at(s@, pat@, pos as int) is Some,
        r matches Some(i) ==> first_at(s@, pat@, pos as int) == Some(i as int) && pos <= i
            && matches_at(s@, pat@, i as int),
{
    if pat.len() > s.len() {
        return None;
    }
    let n: usize = s.len();
    let last: usize = n - pat.len();
    if pos > last {
        return None;
    }
    let mut i: usize = pos;
    while i <= last
        invariant
            pos <= i,
            i <= last + 1,
            n == s@.len(),
            last == s@.len() - pat@.len(),
            last < n,
            pat@.len() >= 1,
            first_at(s@, pat@, pos as int) == first_at(s@, pat@, i as int),
        decreases last + 1 - i,
    {
        if crate::bytes::check_match_at(s, pat, i) {
            return Some(i);
        }
        i = i + 1;
    }
    None
}

/// The encoded-parameter branch of the content-disposition parser: find
/// "filename*=", then the "''" divider; the value runs to the next ';',
/// is whitespace-trimmed, percent-decoded, and quote-trimmed; an empty
/// outcome yields nothing.
pub open spec fn parse_cd_star(h: Seq<u8>) -> Option<Seq<u8>> {
    match first_at(ascii_lower(h), pat_filename_star(), 0) {
        None => None,
        Some(i) => {
            let rest = h.skip(i + 10);
            match first_at(rest, pat_quotes(), 0) {
                None => None,
                Some(q) => {
                    let fname = trim_quotes(
                        percent_decode(trim_ws(take_until_semi(rest.skip(q + 2)))),
                    );
                    if fname.len() > 0 {
                        Some(fname)
                    } else {
                        None
                    }
                },
            }
        },
    }
}

/// The plain-parameter branch: the first "filename=" occurrence that is not
/// part of "filename*=" decides alone — its value runs to the next ';',
/// is whitespace-trimmed and quote-trimmed; an empty outcome yields nothing.
pub open spec fn parse_cd_plain(h: Seq<u8>, pos: int) -> Option<Seq<u8>>
    decreases h.len() - pos when 0 <= pos
{
    if pos + 9 > h.len() {
        None
    } else if matches_at(ascii_lower(h), pat_filename_eq(), pos) {
        if pos > 0 && h[pos - 1] == 0x2A {
            parse_cd_plain(h, pos + 1)
        } else {
            let fname = trim_quotes(trim_ws(take_until_semi(h.skip(pos + 9))));
            if fname.len() > 0 {
                Some(fname)
            } else {
                None
            }
        }
    } else {
        parse_cd_plain(h, pos + 1)
    }
}

/// What a content-disposition header names, matched case-insensitively:
/// the RFC 5987 encoded parameter wins; failing that, the plain parameter.
pub open spec fn parse_cd(h: Seq<u8>) -> Option<Seq<u8>> {
    match parse_cd_star(h) {
        Some(f) => Some(f),
        None => parse_cd_plain(h, 0),
    }
}

/// "filename*=" as bytes.
fn filename_star_bytes() -> (r: Vec<u8>)
    ensures
        r@ == pat_filename_star(),
{
    let mut v: Vec<u8> = Vec::new();
    v.push(0x66);
    v.push(0x69);
    v.push(0x6C);
    v.push(0x65);
    v.push(0x6E);
    v.push(0x61);
    v.push(0x6D);
    v.push(0x65);
    v.push(0x2A);
    v.push(0x3D);
    assert(v@ =~= pat_filename_star());
    v
}

/// "filename=" as bytes.
fn filename_eq_bytes() -> (r: Vec<u8>)
    ensures
        r@ == pat_filename_eq(),
{
    let mut v: Vec<u8> = Vec::new();
    v.push(0x66);
    v.push(0x69);
    v.push(0x6C);
    v.push(0x65);
    v.push(0x6E);
    v.push(0x61);
    v.push(0x6D);
    v.push(0x65);
    v.push(0x3D);
    assert(v@ =~= pat_filename_eq());
    v
}

/// Extracts the filename a content-disposition header carries, if any.
pub fn parse_content_disposition(header: &Vec<u8>) -> (r: Option<Vec<u8>>)
    ensures
        r is Some <==> parse_cd(header@) is Some,
        r matches Some(v) ==> parse_cd(header@) == Some(v@),
{
    let lower = to_ascii_lower(header);
    let star_pat = filename_star_bytes();
    match find_first_at(&lower, &star_pat, 0) {
        Some(i) => {
            let hlen = header.len();
            assert(lower@.len() == header@.len());
            assert(i + 10 <= hlen);
            let rest = subrange_vec(header, i + 10, hlen);
            assert(rest@ =~= header@.skip(i + 10));
            let mut quotes: Vec<u8> = Vec::new();
            quotes.push(0x27);
            quotes.push(0x27);
            assert(quotes@ =~= pat_quotes());
            match find_first_at(&rest, &quotes, 0) {
                Some(q) => {
                    let rlen = rest.len();
                    assert(q + 2 <= rlen);
                    let enc = subrange_vec(&rest, q + 2, rlen);
                    assert(enc@ =~= rest@.skip(q + 2));
                    let value = take_until_semi_bytes(&enc);
                    let trimmed = trim_ws_bytes(&value);
                    let decoded = percent_decode_bytes(&trimmed);
                    let fname = trim_quote_bytes(&decoded);
                    if fname.len() > 0 {
                        return Some(fname);
                    }
                    parse_cd_plain_exec(header, &lower)
                },
                None => parse_cd_plain_exec(header, &lower),
            }
        },
        None => parse_cd_plain_exec(header, &lower),
    }
}

/// The plain-parameter scan of the content-disposition parser.
fn parse_cd_plain_exec(header: &Vec<u8>, lower: &Vec<u8>) -> (r: Option<Vec<u8>>)
    requires
        lower@ == ascii_lower(header@),
    ensures
        r is Some <==> parse_cd_plain(header@, 0) is Some,
        r matches Some(v) ==> parse_cd_plain(header@, 0) == Some(v@),
{
    let pat = filename_eq_bytes();
    let mut pos: usize = 0;
    loop
        invariant
            0 <= pos <= header@.len() + 1,
            lower@ == ascii_lower(header@),
            pat@ == pat_filename_eq(),
            parse_cd_plain(header@, 0) == parse_cd_plain(header@, pos as int),
        decreases header@.len() + 1 - pos,
    {
        if pos >= header.len() || header.len() - pos < 9 {
            return None;
        }
        if crate::bytes::check_match_at(lower, &pat, pos) {
            if pos > 0 && header[pos - 1] == 0x2A {
                pos = pos + 1;
            } else {
                let rest = subrange_vec(header, pos + 9, header.len());
                assert(rest@ =~= header@.skip(pos + 9));
                let value = take_until_semi_bytes(&rest);
                let trimmed = trim_ws_bytes(&value);
                let fname = trim_quote_bytes(&trimmed);
                if fname.len() > 0 {
                    return Some(fname);
                }
                return None;
            }
        } else {
            pos = pos + 1;
        }
    }
}

/// The part of a URL path after its last '/'.
pub open spec fn url_last_segment(s: Seq<u8>) -> Seq<u8>
    decreases s.len(),
{
    if s.len() == 0 {
        s
    } else if s.last() == 0x2F {
        Seq::empty()
    } else {
        url_last_segment(s.drop_last()) + seq![s.last()]
    }
}

/// The URL segment is the suffix that follows the last slash.
proof fn lemma_url_segment_range(s: Seq<u8>, k: int)
    requires
        0 <= k <= s.len(),
        forall|j: int| k <= j < s.len() ==> #[trigger] s[j] != 0x2F,
        k > 0 ==> s[k - 1] == 0x2F,
    ensures
        url_last_segment(s) == s.subrange(k, s.len() as int),
    decreases s.len(),
{
    if k == s.len() {
        assert(s.subrange(k, s.len() as int) =~= Seq::<u8>::empty());
        if s.len() > 0 {
            assert(s.last() == 0x2F);
        }
    } else {
        assert(s.last() != 0x2F);
        lemma_url_segment_range(s.drop_last(), k);
        assert(s.drop_last().subrange(k, s.len() - 1) =~= s.subrange(k, s.len() - 1));
        assert(s.subrange(k, s.len() - 1) + seq![s.last()] =~= s.subrange(k, s.len() as int));
    }
}

/// The name a download resolves from the final URL path: the last path
/// segment, percent-decoded; it must be nonempty, carry an extension dot,
/// and pass the sanitizer.
pub open spec fn url_filename(path: Seq<u8>) -> Option<Seq<u8>> {
    let seg = url_last_segment(path);
    if seg.len() == 0 {
        None
    } else {
        let dec = percent_decode(seg);
        if !(exists|j: int| 0 <= j < dec.len() && #[trigger] dec[j] == 0x2E) {
            None
        } else {
            sanitize_spec(dec)
        }
    }
}

/// The filename a response resolves to, in priority order: a sanitized
/// content-disposition name; failing that, a sanitized, percent-decoded
/// last segment of the final URL; failing that, nothing — the caller keeps
/// its own path.
pub open spec fn resolved_filename(cd_header: Option<Vec<u8>>, url_path: Seq<u8>) -> Option<
    Seq<u8>,
> {
    let via_header = match cd_header {
        Some(h) => match parse_cd(h@) {
            Some(f) => sanitize_spec(f),
            None => None,
        },
        None => None,
    };
    match via_header {
        Some(f) => Some(f),
        None => url_filename(url_path),
    }
}

/// Resolves the filename to save under from the response's
/// content-disposition header and the final URL path.
pub fn resolve_download_filename(cd_header: Option<&Vec<u8>>, url_path: &Vec<u8>) -> (r: Option<
    Vec<u8>,
>)
    ensures
        r is Some <==> resolved_filename(
            match cd_header {
                Some(h) => Some(*h),
                None => None,
            },
            url_path@,
        ) is Some,
        r matches Some(v) ==> resolved_filename(
            match cd_header {
                Some(h) => Some(*h),
                None => None,
            },
            url_path@,
        ) == Some(v@),
{
    match cd_header {
        Some(h) => {
            match parse_content_disposition(h) {
                Some(f) => {
                    match sanitize_filename(&f) {
                        Some(n) => {
                            return Some(n);
                        },
                        None => {},
                    }
                },
                None => {},
            }
        },
        None => {},
    }
    url_filename_exec(url_path)
}

/// Resolves a name from the final URL path alone.
fn url_filename_exec(path: &Vec<u8>) -> (r: Option<Vec<u8>>)
    ensures
        r is Some <==> url_filename(path@) is Some,
        r matches Some(v) ==> url_filename(path@) == Some(v@),
{
    let mut cut: usize = path.len();
    while cut > 0 && path[cut - 1] != 0x2F
        invariant
            0 <= cut <= path@.len(),
            forall|j: int| cut <= j < path@.len() ==> #[trigger] path@[j] != 0x2F,
        decreases cut,
    {
        cut = cut - 1;
    }
    proof {
        lemma_url_segment_range(path@, cut as int);
    }
    let seg = subrange_vec(path, cut, path.len());
    assert(seg@ == url_last_segment(path@));
    if seg.len() == 0 {
        return None;
    }
    let dec = percent_decode_bytes(&seg);
    let mut has_dot = false;
    let mut i: usize = 0;
    while i < dec.len()
        invariant
            0 <= i <= dec@.len(),
            has_dot == (exists|j: int| 0 <= j < i && #[trigger] dec@[j] == 0x2E),
        decreases dec@.len() - i,
    {
        if dec[i] == 0x2E {
            has_dot = true;
        }
        i = i + 1;
    }
    if !has_dot {
        return None;
    }
    sanitize_filename(&dec)
}

/// The directory part of a path, up to and including its last separator;
/// empty when the path has none.
pub open spec fn dir_prefix(s: Seq<u8>) -> Seq<u8> {
    s.take(s.len() - last_component(s).len())
}

/// Replaces the filename part of a destination path with a resolved name,
/// keeping the directory part.
pub fn replace_file_name(save_path: &Vec<u8>, name: &Vec<u8>) -> (r: Vec<u8>)
    ensures
        r@ == dir_prefix(save_path@) + name@,
{
    let mut cut: usize = save_path.len();
    while cut > 0 && save_path[cut - 1] != 0x2F && save_path[cut - 1] != 0x5C
        invariant
            0 <= cut <= save_path@.len(),
            forall|j: int| cut <= j < save_path@.len() ==> !is_sep(#[trigger] save_path@[j]),
        decreases cut,
    {
        cut = cut - 1;
    }
    proof {
        lemma_last_component_range(save_path@, cut as int);
        assert(last_component(save_path@).len() == save_path@.len() - cut);
    }
    let mut r = subrange_vec(save_path, 0, cut);
    assert(r@ =~= dir_prefix(save_path@));
    crate::bytes::push_all(&mut r, name);
    r
}


/// The session-start planning of a save path: the detected filename, if the
/// response named a usable one, and the path actually saved to — the
/// caller's path with its filename part replaced by the detected one, or
/// the caller's path unchanged.
pub fn resolve_save_path(
    save_path: &Vec<u8>,
    cd_header: Option<&Vec<u8>>,
    url_path: &Vec<u8>,
) -> (r: (Vec<u8>, Option<Vec<u8>>))
    ensures
        ({
            let resolved = resolved_filename(
                match cd_header {
                    Some(h) => Some(*h),
                    None => None,
                },
                url_path@,
            );
            match resolved {
                Some(n) => r.1 matches Some(d) && d@ == n && r.0@ == dir_prefix(save_path@) + n,
                None => r.1 is None && r.0@ == save_path@,
            }
        }),
{
    match resolve_download_filename(cd_header, url_path) {
        Some(n) => {
            let actual = replace_file_name(save_path, &n);
            (actual, Some(n))
        },
        None => (crate::bytes::copy_bytes(save_path), None),
    }
}

} // verus!
