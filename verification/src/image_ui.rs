//! Decisions of the web page front end: serve the page itself, or pass the
//! request on to the inference front end.

use vstd::prelude::*;
use crate::path::trim_end_slashes;
use crate::text::str_eq;

verus! {

/// The actor that the page passes requests on to.
pub const INFERENCE_API_ACTOR: &'static str = "inferenceapi";

/// Whether `c` has the Unicode `White_Space` property.
pub open spec fn is_white_space(c: char) -> bool {
    let u = c as u32;
    ||| 9 <= u <= 13
    ||| u == 0x20
    ||| u == 0x85
    ||| u == 0xa0
    ||| u == 0x1680
    ||| 0x2000 <= u <= 0x200a
    ||| u == 0x2028
    ||| u == 0x2029
    ||| u == 0x202f
    ||| u == 0x205f
    ||| u == 0x3000
}

/// Tells whether `c` has the Unicode `White_Space` property.
pub fn char_is_white_space(c: char) -> (r: bool)
    ensures
        r == is_white_space(c),
{
    let u = c as u32;
    (9 <= u && u <= 13) || u == 0x20 || u == 0x85 || u == 0xa0 || u == 0x1680 || (0x2000 <= u && u
        <= 0x200a) || u == 0x2028 || u == 0x2029 || u == 0x202f || u == 0x205f || u == 0x3000
}

/// `s` without its leading white space.
pub open spec fn trim_start_white(s: Seq<char>) -> Seq<char>
    decreases s.len(),
{
    if s.len() > 0 && is_white_space(s[0]) {
        trim_start_white(s.drop_first())
    } else {
        s
    }
}

/// `s` without its trailing white space.
pub open spec fn trim_end_white(s: Seq<char>) -> Seq<char>
    decreases s.len(),
{
    if s.len() > 0 && is_white_space(s.last()) {
        trim_end_white(s.drop_last())
    } else {
        s
    }
}

/// The part of a path that tells whether the page itself is asked for: the
/// path without surrounding white space and without trailing slashes.
pub open spec fn page_path(path: Seq<char>) -> Seq<char> {
    trim_end_slashes(trim_end_white(trim_start_white(path)))
}

/// What the page front end does with a request.
#[derive(Debug, PartialEq, Eq)]
pub enum UiAction {
    /// Reply with the page, as HTML.
    ServePage,
    /// Pass the request on to this actor and reply with its reply.
    Forward(String),
}

/// Whether a request asks for the page itself: a GET of the root path.
pub open spec fn asks_for_page(method: Seq<char>, path: Seq<char>) -> bool {
    method == "GET"@ && page_path(path).len() == 0
}

/// Decides whether a request asks for the page itself or goes on to the
/// inference front end.
pub fn ui_action(method: &str, path: &str) -> (r: UiAction)
    ensures
        asks_for_page(method@, path@) ==> r == UiAction::ServePage,
        !asks_for_page(method@, path@) ==> (r matches UiAction::Forward(a) && a@ == "inferenceapi"@),
{
    let n = path.unicode_len();
    let mut a: usize = 0;
    assert(path@.subrange(0, n as int) =~= path@);
    while a < n && char_is_white_space(path.get_char(a))
        invariant
            a <= n,
            n == path@.len(),
            trim_start_white(path@) == trim_start_white(path@.subrange(a as int, n as int)),
        decreases n - a,
    {
        proof {
            assert(path@.subrange(a as int, n as int).drop_first() =~= path@.subrange(a + 1, n as int));
        }
        a = a + 1;
    }
    proof {
        let t = path@.subrange(a as int, n as int);
        assert(t.len() == 0 || !is_white_space(t[0]));
    }
    let mut b: usize = n;
    while b > a && char_is_white_space(path.get_char(b - 1))
        invariant
            a <= b <= n,
            n == path@.len(),
            trim_start_white(path@) == path@.subrange(a as int, n as int),
            trim_end_white(path@.subrange(a as int, n as int)) == trim_end_white(
                path@.subrange(a as int, b as int),
            ),
        decreases b - a,
    {
        proof {
            assert(path@.subrange(a as int, b as int).drop_last() =~= path@.subrange(a as int, b - 1));
        }
        b = b - 1;
    }
    let mut c: usize = b;
    while c > a && path.get_char(c - 1) == '/'
        invariant
            a <= c <= b <= n,
            n == path@.len(),
            trim_end_white(trim_start_white(path@)) == path@.subrange(a as int, b as int),
            trim_end_slashes(path@.subrange(a as int, b as int)) == trim_end_slashes(
                path@.subrange(a as int, c as int),
            ),
        decreases c - a,
    {
        proof {
            assert(path@.subrange(a as int, c as int).drop_last() =~= path@.subrange(a as int, c - 1));
        }
        c = c - 1;
    }
    proof {
        let t = path@.subrange(a as int, c as int);
        assert(c > a ==> t.last() == path@[c - 1]);
    }
    if str_eq(method, "GET") && c == a {
        UiAction::ServePage
    } else {
        UiAction::Forward(String::from_str(INFERENCE_API_ACTOR))
    }
}

} // verus!
