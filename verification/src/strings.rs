//! Character-level string utilities: equality, conversion between `String`
//! and `Vec<char>`, substring search and leftmost non-overlapping replacement.
//! Everything here is specified over `Seq<char>` views.
use vstd::prelude::*;
use vstd::string::*;

verus! {

/// Leftmost, non-overlapping replacement of `pat` by `sub` in `s`, the way
/// `str::replace` performs it.
pub open spec fn replace_seq(s: Seq<char>, pat: Seq<char>, sub: Seq<char>) -> Seq<char>
    decreases s.len(),
{
    if s.len() == 0 {
        s
    } else if pat.len() > 0 && pat.len() <= s.len() && s.subrange(0, pat.len() as int) == pat {
        sub + replace_seq(s.subrange(pat.len() as int, s.len() as int), pat, sub)
    } else {
        seq![s[0]] + replace_seq(s.subrange(1, s.len() as int), pat, sub)
    }
}

/// `pat` occurs nowhere in `s`.
pub open spec fn no_occurrence(s: Seq<char>, pat: Seq<char>) -> bool {
    forall|i: int|
        0 <= i && i + pat.len() <= s.len() ==> #[trigger] s.subrange(i, i + pat.len()) != pat
}

/// Replacement of a pattern that never occurs leaves the string unchanged.
pub proof fn lemma_replace_absent(s: Seq<char>, pat: Seq<char>, sub: Seq<char>)
    requires
        pat.len() > 0,
        no_occurrence(s, pat),
    ensures
        replace_seq(s, pat, sub) == s,
    decreases s.len(),
{
    if s.len() == 0 {
    } else {
        let z: int = 0;
        if pat.len() <= s.len() && s.subrange(0, pat.len() as int) == pat {
            assert(s.subrange(z, z + pat.len()) != pat);
        }
        let rest = s.subrange(1, s.len() as int);
        assert forall|i: int| 0 <= i && i + pat.len() <= rest.len() implies #[trigger] rest.subrange(
            i,
            i + pat.len(),
        ) != pat by {
            assert(rest.subrange(i, i + pat.len()) =~= s.subrange(i + 1, i + 1 + pat.len()));
        }
        lemma_replace_absent(rest, pat, sub);
        assert(seq![s[0]] + rest =~= s);
    }
}

/// String equality decided character by character.
pub fn str_eq(a: &str, b: &str) -> (r: bool)
    ensures
        r == (a@ == b@),
{
    let la = a.unicode_len();
    let lb = b.unicode_len();
    if la != lb {
        return false;
    }
    let mut i: usize = 0;
    while i < la
        invariant
            la == a@.len(),
            lb == b@.len(),
            la == lb,
            i <= la,
            forall|j: int| 0 <= j < i ==> a@[j] == b@[j],
        decreases la - i,
    {
        if a.get_char(i) != b.get_char(i) {
            return false;
        }
        i = i + 1;
    }
    proof {
        assert(a@ =~= b@);
    }
    true
}

/// The characters of `s`, in order, as a vector.
pub fn str_to_chars(s: &str) -> (r: Vec<char>)
    ensures
        r@ == s@,
{
    let n = s.unicode_len();
    let mut r: Vec<char> = Vec::new();
    let mut i: usize = 0;
    while i < n
        invariant
            n == s@.len(),
            i <= n,
            r@ =~= s@.subrange(0, i as int),
        decreases n - i,
    {
        r.push(s.get_char(i));
        proof {
            assert(r@ =~= s@.subrange(0, i as int + 1));
        }
        i = i + 1;
    }
    proof {
        assert(r@ =~= s@);
    }
    r
}

/// Relies on `String::push`: appends one character at the end of the string.
#[verifier::external_body]
pub(crate) fn push_char(s: &mut String, c: char)
    ensures
        final(s)@ == old(s)@.push(c),
{
    s.push(c);
}

/// A `String` holding exactly the given characters, in order.
pub fn chars_to_string(cs: &Vec<char>) -> (r: String)
    ensures
        r@ == cs@,
{
    let mut r = String::new();
    let mut i: usize = 0;
    while i < cs.len()
        invariant
            i <= cs.len(),
            r@ =~= cs@.subrange(0, i as int),
        decreases cs.len() - i,
    {
        push_char(&mut r, cs[i]);
        proof {
            assert(r@ =~= cs@.subrange(0, i as int + 1));
        }
        i = i + 1;
    }
    proof {
        assert(r@ =~= cs@);
    }
    r
}

/// Does `pat` stand in `s` starting at position `i`?
pub fn matches_at(s: &Vec<char>, i: usize, pat: &Vec<char>) -> (r: bool)
    requires
        i <= s@.len(),
    ensures
        r == (i + pat@.len() <= s@.len() && s@.subrange(
            i as int,
            i as int + pat@.len() as int,
        ) == pat@),
{
    if pat.len() > s.len() - i {
        return false;
    }
    let n = s.len();
    let mut j: usize = 0;
    while j < pat.len()
        invariant
            n == s@.len(),
            i + pat@.len() <= n,
            j <= pat@.len(),
            forall|k: int| 0 <= k < j ==> s@[i + k] == pat@[k],
        decreases pat.len() - j,
    {
        if s[i + j] != pat[j] {
            proof {
                assert(s@.subrange(i as int, i as int + pat@.len() as int)[j as int] != pat@[
                    j as int
                ]);
            }
            return false;
        }
        j = j + 1;
    }
    proof {
        assert(s@.subrange(i as int, i as int + pat@.len() as int) =~= pat@);
    }
    true
}

/// Unfolding fact: replacement of a suffix steps over one match or one
/// unmatched character.
proof fn lemma_replace_step(s: Seq<char>, i: int, pat: Seq<char>, sub: Seq<char>)
    requires
        pat.len() > 0,
        0 <= i < s.len(),
    ensures
        (i + pat.len() <= s.len() && s.subrange(i, i + pat.len()) == pat) ==> replace_seq(
            s.subrange(i, s.len() as int),
            pat,
            sub,
        ) == sub + replace_seq(s.subrange(i + pat.len(), s.len() as int), pat, sub),
        !(i + pat.len() <= s.len() && s.subrange(i, i + pat.len()) == pat) ==> replace_seq(
            s.subrange(i, s.len() as int),
            pat,
            sub,
        ) == seq![s[i]] + replace_seq(s.subrange(i + 1, s.len() as int), pat, sub),
{
    let t = s.subrange(i, s.len() as int);
    assert(t.len() == s.len() - i);
    if i + pat.len() <= s.len() && s.subrange(i, i + pat.len()) == pat {
        assert(t.subrange(0, pat.len() as int) =~= s.subrange(i, i + pat.len()));
        assert(t.subrange(pat.len() as int, t.len() as int) =~= s.subrange(
            i + pat.len(),
            s.len() as int,
        ));
    } else {
        if pat.len() <= t.len() {
            assert(t.subrange(0, pat.len() as int) =~= s.subrange(i, i + pat.len()));
        }
        assert(t[0] == s[i]);
        assert(t.subrange(1, t.len() as int) =~= s.subrange(i + 1, s.len() as int));
    }
}

/// Leftmost, non-overlapping replacement over character vectors.
pub fn replace_chars(s: &Vec<char>, pat: &Vec<char>, sub: &Vec<char>) -> (r: Vec<char>)
    requires
        pat@.len() > 0,
    ensures
        r@ == replace_seq(s@, pat@, sub@),
{
    let mut r: Vec<char> = Vec::new();
    let mut i: usize = 0;
    proof {
        assert(s@.subrange(0, s@.len() as int) =~= s@);
    }
    while i < s.len()
        invariant
            pat@.len() > 0,
            i <= s@.len(),
            replace_seq(s@, pat@, sub@) == r@ + replace_seq(
                s@.subrange(i as int, s@.len() as int),
                pat@,
                sub@,
            ),
        decreases s.len() - i,
    {
        if matches_at(s, i, pat) {
            proof {
                lemma_replace_step(s@, i as int, pat@, sub@);
            }
            let ghost r_old = r@;
            let mut j: usize = 0;
            while j < sub.len()
                invariant
                    j <= sub@.len(),
                    r@ =~= r_old + sub@.subrange(0, j as int),
                decreases sub.len() - j,
            {
                r.push(sub[j]);
                proof {
                    assert(r@ =~= r_old + sub@.subrange(0, j as int + 1));
                }
                j = j + 1;
            }
            proof {
                assert(r@ =~= r_old + sub@);
            }
            i = i + pat.len();
        } else {
            proof {
                lemma_replace_step(s@, i as int, pat@, sub@);
            }
            r.push(s[i]);
            i = i + 1;
        }
    }
    proof {
        assert(s@.subrange(i as int, s@.len() as int) =~= Seq::<char>::empty());
        assert(replace_seq(Seq::<char>::empty(), pat@, sub@) =~= Seq::<char>::empty());
        assert(r@ =~= r@ + Seq::<char>::empty());
    }
    r
}

/// `needle` occurs somewhere in `hay`.
pub open spec fn contains_seq(hay: Seq<char>, needle: Seq<char>) -> bool {
    exists|i: int|
        0 <= i && i + needle.len() <= hay.len() && #[trigger] hay.subrange(i, i + needle.len())
            == needle
}

/// Substring search, specified by `contains_seq`.
pub fn contains_chars(hay: &Vec<char>, needle: &Vec<char>) -> (r: bool)
    ensures
        r == contains_seq(hay@, needle@),
{
    let n = hay.len();
    let mut i: usize = 0;
    loop
        invariant
            n == hay@.len(),
            i <= n,
            forall|k: int| 0 <= k < i ==> !(k + needle@.len() <= hay@.len()
                && #[trigger] hay@.subrange(k, k + needle@.len()) == needle@),
        decreases n - i,
    {
        if matches_at(hay, i, needle) {
            return true;
        }
        if i == n {
            return false;
        }
        i = i + 1;
    }
}

} // verus!
