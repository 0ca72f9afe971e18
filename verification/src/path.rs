//! Splitting request paths into segments.

use vstd::prelude::*;

verus! {

/// `s` without its leading slashes.
pub open spec fn trim_start_slashes(s: Seq<char>) -> Seq<char>
    decreases s.len(),
{
    if s.len() > 0 && s[0] == '/' {
        trim_start_slashes(s.drop_first())
    } else {
        s
    }
}

/// `s` without its trailing slashes.
pub open spec fn trim_end_slashes(s: Seq<char>) -> Seq<char>
    decreases s.len(),
{
    if s.len() > 0 && s.last() == '/' {
        trim_end_slashes(s.drop_last())
    } else {
        s
    }
}

/// `s` without its leading and trailing slashes.
pub open spec fn trim_slashes(s: Seq<char>) -> Seq<char> {
    trim_end_slashes(trim_start_slashes(s))
}

/// The parts of `s` between slashes, in order; there is always at least
/// one part, and consecutive slashes enclose an empty part.
pub open spec fn split_slashes(s: Seq<char>) -> Seq<Seq<char>>
    decreases s.len(),
{
    if s.len() == 0 {
        seq![Seq::<char>::empty()]
    } else if s.last() == '/' {
        split_slashes(s.drop_last()).push(Seq::<char>::empty())
    } else {
        let r = split_slashes(s.drop_last());
        r.update(r.len() - 1, r.last().push(s.last()))
    }
}

/// There is always at least one part.
pub proof fn lemma_split_nonempty(s: Seq<char>)
    ensures
        split_slashes(s).len() >= 1,
    decreases s.len(),
{
    if s.len() > 0 {
        lemma_split_nonempty(s.drop_last());
    }
}

/// The index of the first character that is not a slash, or the length.
fn first_non_slash(s: &str, n: usize) -> (a: usize)
    requires
        n == s@.len(),
    ensures
        a <= n,
        trim_start_slashes(s@) == s@.subrange(a as int, n as int),
{
    let mut a: usize = 0;
    assert(s@.subrange(0, n as int) =~= s@);
    while a < n && s.get_char(a) == '/'
        invariant
            a <= n,
            n == s@.len(),
            trim_start_slashes(s@) == trim_start_slashes(s@.subrange(a as int, n as int)),
        decreases n - a,
    {
        proof {
            let t = s@.subrange(a as int, n as int);
            assert(t.drop_first() =~= s@.subrange(a + 1, n as int));
        }
        a = a + 1;
    }
    proof {
        let t = s@.subrange(a as int, n as int);
        assert(t.len() == 0 || t[0] != '/');
    }
    a
}

/// The end of `s` once its trailing slashes from `a` on are removed.
fn last_non_slash_end(s: &str, a: usize, n: usize) -> (b: usize)
    requires
        n == s@.len(),
        a <= n,
    ensures
        a <= b <= n,
        trim_end_slashes(s@.subrange(a as int, n as int)) == s@.subrange(a as int, b as int),
{
    let mut b: usize = n;
    while b > a && s.get_char(b - 1) == '/'
        invariant
            a <= b <= n,
            n == s@.len(),
            trim_end_slashes(s@.subrange(a as int, n as int)) == trim_end_slashes(
                s@.subrange(a as int, b as int),
            ),
        decreases b - a,
    {
        proof {
            let t = s@.subrange(a as int, b as int);
            assert(t.drop_last() =~= s@.subrange(a as int, b - 1));
        }
        b = b - 1;
    }
    b
}

/// Splits `path` into the parts between slashes, once its leading and
/// trailing slashes are removed.
pub fn path_segments(path: &str) -> (segs: Vec<String>)
    ensures
        segs@.len() == split_slashes(trim_slashes(path@)).len(),
        forall|i: int|
            0 <= i < segs@.len() ==> #[trigger] segs@[i]@ == split_slashes(trim_slashes(path@))[i],
{
    let n = path.unicode_len();
    let a = first_non_slash(path, n);
    let b = last_non_slash_end(path, a, n);
    let ghost t = path@.subrange(a as int, b as int);
    assert(trim_slashes(path@) == t);
    let mut segs: Vec<String> = Vec::new();
    let mut start: usize = a;
    let mut j: usize = a;
    proof {
        assert(t.subrange(0, 0) =~= Seq::<char>::empty());
        assert(path@.subrange(a as int, a as int) =~= Seq::<char>::empty());
        assert(segs@.map_values(|x: String| x@) =~= Seq::<Seq<char>>::empty());
        assert(Seq::<Seq<char>>::empty().push(Seq::<char>::empty()) =~= seq![Seq::<char>::empty()]);
    }
    while j < b
        invariant
            a <= start <= j <= b <= n,
            n == path@.len(),
            t == path@.subrange(a as int, b as int),
            split_slashes(t.subrange(0, j - a)) == {
                let done = segs@.map_values(|x: String| x@);
                done.push(path@.subrange(start as int, j as int))
            },
        decreases b - j,
    {
        let ghost before = t.subrange(0, j - a);
        let ghost after = t.subrange(0, j + 1 - a);
        proof {
            assert(after.drop_last() =~= before);
            assert(after.last() == path@[j as int]);
        }
        if path.get_char(j) == '/' {
            let part = String::from_str(path.substring_char(start, j));
            let ghost old_segs = segs@;
            segs.push(part);
            proof {
                assert(segs@.map_values(|x: String| x@) =~= old_segs.map_values(|x: String| x@).push(
                    path@.subrange(start as int, j as int),
                ));
                assert(path@.subrange(j + 1, j + 1) =~= Seq::<char>::empty());
            }
            start = j + 1;
        } else {
            proof {
                let done = segs@.map_values(|x: String| x@);
                let r = done.push(path@.subrange(start as int, j as int));
                assert(path@.subrange(start as int, j as int).push(path@[j as int]) =~= path@.subrange(
                    start as int,
                    j + 1,
                ));
                assert(r.last() == path@.subrange(start as int, j as int));
                assert(r.update(r.len() - 1, r.last().push(path@[j as int])) =~= done.push(
                    path@.subrange(start as int, j + 1),
                ));
            }
        }
        j = j + 1;
    }
    let last = String::from_str(path.substring_char(start, b));
    let ghost old_segs = segs@;
    segs.push(last);
    proof {
        assert(t.subrange(0, b - a) =~= t);
        assert(segs@.map_values(|x: String| x@) =~= old_segs.map_values(|x: String| x@).push(
            path@.subrange(start as int, b as int),
        ));
        let parts = split_slashes(t);
        assert forall|i: int| 0 <= i < segs@.len() implies #[trigger] segs@[i]@ == parts[i] by {
            assert(segs@.map_values(|x: String| x@)[i] == segs@[i]@);
        }
    }
    segs
}

} // verus!
