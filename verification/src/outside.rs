//! The two outside computations the logic leans on — base64 encoding of
//! screenshot bytes and regular-expression matching over discovered window
//! names — each behind one trusted wrapper, with the verified functions
//! that consume their results.

use vstd::prelude::*;

use base64::Engine;

use crate::bytes::push_all;
use crate::state::Win32Window;

verus! {

/// The base64 text (standard alphabet, padded) of a byte string. The
/// encoding depends on the bytes alone.
pub uninterp spec fn base64_of(b: Seq<u8>) -> Seq<u8>;

/// Relies on base64's standard engine: `Engine::encode` renders the input
/// in the standard alphabet with padding, four output bytes for every three
/// input bytes begun. The length bound keeps the engine's buffer-size
/// computation, which aborts on overflow, in range.
#[verifier::external_body]
fn encode_base64(b: &Vec<u8>) -> (r: Vec<u8>)
    requires
        b@.len() <= 0x1000_0000_0000_0000,
    ensures
        r@ == base64_of(b@),
        r@.len() == 4 * ((b@.len() + 2) / 3),
        b@.len() == 0 ==> r@.len() == 0,
{
    base64::engine::general_purpose::STANDARD.encode(b).into_bytes()
}

/// The browser-ready form of a cached screenshot: the PNG data-URL prefix
/// followed by the base64 text of the encoded image bytes.
pub fn image_data_url(data: &Vec<u8>) -> (r: Vec<u8>)
    requires
        data@.len() <= 0x1000_0000_0000_0000,
    ensures
        r@ == data_url_prefix() + base64_of(data@),
{
    let mut r: Vec<u8> = Vec::new();
    r.push(0x64);
    r.push(0x61);
    r.push(0x74);
    r.push(0x61);
    r.push(0x3A);
    r.push(0x69);
    r.push(0x6D);
    r.push(0x61);
    r.push(0x67);
    r.push(0x65);
    r.push(0x2F);
    r.push(0x70);
    r.push(0x6E);
    r.push(0x67);
    r.push(0x3B);
    r.push(0x62);
    r.push(0x61);
    r.push(0x73);
    r.push(0x65);
    r.push(0x36);
    r.push(0x34);
    r.push(0x2C);
    assert(r@ =~= data_url_prefix());
    let encoded = encode_base64(data);
    push_all(&mut r, &encoded);
    r
}

/// "data:image/png;base64," — the data-URL prefix of a PNG image.
pub open spec fn data_url_prefix() -> Seq<u8> {
    seq![
        0x64u8,
        0x61,
        0x74,
        0x61,
        0x3A,
        0x69,
        0x6D,
        0x61,
        0x67,
        0x65,
        0x2F,
        0x70,
        0x6E,
        0x67,
        0x3B,
        0x62,
        0x61,
        0x73,
        0x65,
        0x36,
        0x34,
        0x2C,
    ]
}

/// Whether the regular expression `pattern` matches anywhere in `text`.
/// The answer depends on the two strings alone.
pub uninterp spec fn regex_match_of(pattern: Seq<char>, text: Seq<char>) -> bool;

/// Whether `pattern` compiles as a regular expression. A function of the
/// pattern alone.
pub uninterp spec fn regex_ok(pattern: Seq<char>) -> bool;

/// Relies on regex: `Regex::new` compiles the pattern — success depends on
/// the pattern alone — or reports an error, and `Regex::is_match` reports
/// whether the compiled pattern matches anywhere in the haystack; neither
/// panics. An invalid pattern yields nothing.
#[verifier::external_body]
fn regex_try_match(pattern: &str, text: &str) -> (r: Option<bool>)
    ensures
        r is Some <==> regex_ok(pattern@),
        r matches Some(b) ==> b == regex_match_of(pattern@, text@),
{
    match regex::Regex::new(pattern) {
        Ok(re) => Some(re.is_match(text)),
        Err(_) => None,
    }
}

/// The matcher's answer for one optional filter on one text: nothing when
/// no pattern was given or the pattern does not compile; the match answer
/// otherwise.
pub open spec fn filter_answer(pattern: Option<Seq<char>>, text: Seq<char>) -> Option<bool> {
    match pattern {
        None => None,
        Some(p) => if regex_ok(p) {
            Some(regex_match_of(p, text))
        } else {
            None
        },
    }
}

/// True when a window survives both optional filters: kept unless a filter
/// produced an answer and that answer was a non-match.
pub open spec fn window_kept(
    class_pattern: Option<Seq<char>>,
    window_pattern: Option<Seq<char>>,
    w: Win32Window,
) -> bool {
    filter_answer(class_pattern, w.class_name@) != Some(false) && filter_answer(
        window_pattern,
        w.window_name@,
    ) != Some(false)
}

/// The view of an optional pattern argument.
pub open spec fn pattern_view(p: Option<&String>) -> Option<Seq<char>> {
    match p {
        Some(s) => Some(s@),
        None => None,
    }
}

/// Combines the two per-window filter answers: a window is kept unless a
/// filter produced an answer and that answer was a non-match. A missing
/// filter, or one whose pattern failed to compile, rejects nothing.
pub fn window_passes(class_result: Option<bool>, window_result: Option<bool>) -> (r: bool)
    ensures
        r == ((class_result != Some(false)) && (window_result != Some(false))),
{
    let class_ok = match class_result {
        Some(b) => b,
        None => true,
    };
    let window_ok = match window_result {
        Some(b) => b,
        None => true,
    };
    class_ok && window_ok
}

/// Filters discovered windows by optional class-name and window-name
/// patterns: the result is exactly the input filtered by `window_kept` —
/// per window, both matcher answers are taken and `window_passes` combines
/// them — so with both patterns absent everything is kept unchanged.
pub fn filter_windows(
    windows: Vec<Win32Window>,
    class_pattern: Option<&String>,
    window_pattern: Option<&String>,
) -> (r: Vec<Win32Window>)
    ensures
        r@ == windows@.filter(
            (|w: Win32Window|
                window_kept(pattern_view(class_pattern), pattern_view(window_pattern), w)),
        ),
        class_pattern is None && window_pattern is None ==> r@ == windows@,
{
    let ghost cpv = pattern_view(class_pattern);
    let ghost wpv = pattern_view(window_pattern);
    let ghost orig = windows@;
    let mut rest = windows;
    let mut r: Vec<Win32Window> = Vec::new();
    let ghost mut i: int = 0;
    let no_filters = class_pattern.is_none() && window_pattern.is_none();
    proof {
        reveal(Seq::filter);
        assert(orig.take(0).filter(
            (|w: Win32Window| window_kept(cpv, wpv, w)),
        ) =~= Seq::<Win32Window>::empty());
    }
    while rest.len() > 0
        invariant
            0 <= i <= orig.len(),
            rest@ =~= orig.skip(i),
            cpv == pattern_view(class_pattern),
            wpv == pattern_view(window_pattern),
            r@ =~= orig.take(i).filter((|w: Win32Window| window_kept(cpv, wpv, w))),
            no_filters == (class_pattern is None && window_pattern is None),
            no_filters ==> r@ =~= orig.take(i),
        decreases rest@.len(),
    {
        let w = rest.remove(0);
        assert(w == orig[i]);
        let class_result: Option<bool> = match class_pattern {
            Some(p) => regex_try_match(p.as_str(), w.class_name.as_str()),
            None => None,
        };
        let window_result: Option<bool> = match window_pattern {
            Some(p) => regex_try_match(p.as_str(), w.window_name.as_str()),
            None => None,
        };
        proof {
            assert(class_result == filter_answer(cpv, w.class_name@));
            assert(window_result == filter_answer(wpv, w.window_name@));
        }
        if window_passes(class_result, window_result) {
            assert(window_kept(cpv, wpv, w));
            r.push(w);
        } else {
            assert(!window_kept(cpv, wpv, w));
        }
        proof {
            reveal(Seq::filter);
            assert(rest@ =~= orig.skip(i + 1));
            assert(orig.take(i + 1).drop_last() =~= orig.take(i));
            assert(orig.take(i + 1).last() == orig[i]);
            assert(r@ =~= orig.take(i + 1).filter((|w2: Win32Window| window_kept(cpv, wpv, w2))));
            if no_filters {
                assert(r@ =~= orig.take(i + 1));
            }
            i = i + 1;
        }
    }
    proof {
        assert(i == orig.len());
        assert(orig.take(orig.len() as int) =~= orig);
    }
    r
}

} // verus!
