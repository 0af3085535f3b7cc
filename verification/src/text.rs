//! Literal text substitution over character sequences.
//!
//! The manifest rewrite works on the raw file text: every literal occurrence
//! of the old tag is replaced by the new tag, scanning left to right over
//! non-overlapping matches, exactly as `str::replace` does. Nothing here
//! knows about YAML: the substitution is global over the whole text, which is
//! what preserves comments and formatting (and is also why a tag string that
//! occurs elsewhere in the file is rewritten there too).

use vstd::prelude::*;
use vstd::string::StrSliceExecFns;

verus! {

/// The characters of `s`, as a vector.
pub fn str_to_chars(s: &str) -> (r: Vec<char>)
    ensures
        r@ == s@,
{
    let n = s.unicode_len();
    let mut out: Vec<char> = Vec::new();
    let mut i: usize = 0;
    while i < n
        invariant
            n == s@.len(),
            i <= n,
            out@ == s@.take(i as int),
        decreases n - i,
    {
        out.push(s.get_char(i));
        proof {
            assert(s@.take(i + 1) =~= s@.take(i as int).push(s@[i as int]));
        }
        i += 1;
    }
    proof {
        assert(s@.take(n as int) =~= s@);
    }
    out
}

/// The pattern `pat` occurs in `s` starting at position `i`.
pub open spec fn match_at(s: Seq<char>, pat: Seq<char>, i: int) -> bool {
    0 <= i && i + pat.len() <= s.len() && s.subrange(i, i + pat.len()) == pat
}

/// The pattern occurs somewhere in `s`.
pub open spec fn occurs(s: Seq<char>, pat: Seq<char>) -> bool {
    exists|i: int| match_at(s, pat, i)
}

/// The text `s` with every occurrence of `old` replaced by `new`: the scan
/// moves left to right, replacing each leftmost match and continuing after
/// it, so matches do not overlap. An empty `old` matches before every
/// character and at the end of the text, as it does for `str::replace`.
pub open spec fn replaced(s: Seq<char>, old: Seq<char>, new: Seq<char>) -> Seq<char>
    decreases s.len(),
{
    if old.len() == 0 {
        if s.len() == 0 {
            new
        } else {
            new + seq![s[0]] + replaced(s.skip(1), old, new)
        }
    } else if s.len() < old.len() {
        s
    } else if s.take(old.len() as int) == old {
        new + replaced(s.skip(old.len() as int), old, new)
    } else {
        seq![s[0]] + replaced(s.skip(1), old, new)
    }
}

/// A match of `pat` in `s.skip(k)` at `i` is a match of `pat` in `s` at
/// `i + k`.
proof fn lemma_match_at_skip(s: Seq<char>, pat: Seq<char>, k: int, i: int)
    requires
        0 <= k <= s.len(),
        0 <= i,
    ensures
        match_at(s.skip(k), pat, i) == match_at(s, pat, i + k),
{
    if i + pat.len() <= s.len() - k {
        assert(s.skip(k).subrange(i, i + pat.len()) =~= s.subrange(i + k, i + k + pat.len()));
    }
}

/// Law: the substitution leaves the text untouched exactly where there is
/// nothing to do — a text in which the old pattern occurs nowhere comes back
/// unchanged. (Conversely, the scan of `replaced` consumes every position of
/// the text, so wherever the pattern does occur — inside a comment or an
/// unrelated value as much as anywhere else — it is replaced.)
pub proof fn lemma_replaced_absent(s: Seq<char>, old: Seq<char>, new: Seq<char>)
    requires
        old.len() > 0,
        !occurs(s, old),
    ensures
        replaced(s, old, new) == s,
    decreases s.len(),
{
    if s.len() < old.len() {
    } else {
        assert(!match_at(s, old, 0));
        assert(s.subrange(0, old.len() as int) == s.take(old.len() as int));
        assert(s.take(old.len() as int) != old);
        assert forall|i: int| !match_at(s.skip(1), old, i) by {
            if 0 <= i {
                lemma_match_at_skip(s, old, 1, i);
                assert(!match_at(s, old, i + 1));
            }
        }
        lemma_replaced_absent(s.skip(1), old, new);
        assert(seq![s[0]] + s.skip(1) =~= s);
    }
}

/// Law: the substitution is uniform over the text. Splitting the text
/// anywhere that no occurrence of the old pattern straddles, the substitution
/// of the whole is the concatenation of the substitutions of the parts: no
/// part of the file — a comment line, a reordered key — is treated otherwise
/// than the rest.
pub proof fn lemma_replaced_concat(a: Seq<char>, b: Seq<char>, old: Seq<char>, new: Seq<char>)
    requires
        old.len() > 0,
        forall|i: int| a.len() - old.len() < i < a.len() ==> !match_at(a + b, old, i),
    ensures
        replaced(a + b, old, new) == replaced(a, old, new) + replaced(b, old, new),
    decreases a.len(),
{
    let s = a + b;
    let ghost l = old.len() as int;
    if a.len() == 0 {
        assert(s =~= b);
        assert(replaced(a, old, new) + replaced(b, old, new) =~= replaced(b, old, new));
    } else if s.len() >= old.len() && s.take(l) == old {
        assert(match_at(s, old, 0)) by {
            assert(s.subrange(0, l) == s.take(l));
        }
        assert(old.len() <= a.len());
        assert(a.take(l) =~= s.take(l));
        assert(s.skip(l) =~= a.skip(l) + b);
        assert forall|i: int|
            a.skip(l).len() - old.len() < i < a.skip(l).len() implies !match_at(
            a.skip(l) + b,
            old,
            i,
        ) by {
            if 0 <= i {
                lemma_match_at_skip(s, old, l, i);
                assert(!match_at(s, old, i + l));
            }
        }
        lemma_replaced_concat(a.skip(l), b, old, new);
        assert(replaced(s, old, new) == new + (replaced(a.skip(l), old, new) + replaced(
            b,
            old,
            new,
        )));
        assert(new + (replaced(a.skip(l), old, new) + replaced(b, old, new)) =~= (new + replaced(
            a.skip(l),
            old,
            new,
        )) + replaced(b, old, new));
    } else if s.len() < old.len() {
        assert(replaced(s, old, new) == s);
        assert(a.len() < old.len() && b.len() < old.len());
        assert(replaced(a, old, new) + replaced(b, old, new) =~= s);
    } else {
        assert(s[0] == a[0]);
        assert(s.skip(1) =~= a.skip(1) + b);
        assert forall|i: int|
            a.skip(1).len() - old.len() < i < a.skip(1).len() implies !match_at(
            a.skip(1) + b,
            old,
            i,
        ) by {
            if 0 <= i {
                lemma_match_at_skip(s, old, 1, i);
                assert(!match_at(s, old, i + 1));
            }
        }
        lemma_replaced_concat(a.skip(1), b, old, new);
        if a.len() < old.len() {
            assert(replaced(a, old, new) == a);
            assert(replaced(a.skip(1), old, new) == a.skip(1));
            assert(a =~= seq![a[0]] + a.skip(1));
        } else {
            assert(a.take(l) =~= s.take(l));
            assert(a.take(l) != old);
        }
        assert(replaced(a, old, new) == seq![a[0]] + replaced(a.skip(1), old, new));
        assert(seq![s[0]] + (replaced(a.skip(1), old, new) + replaced(b, old, new)) =~= (seq![a[0]]
            + replaced(a.skip(1), old, new)) + replaced(b, old, new));
    }
}

/// Law: every occurrence is replaced. At the leftmost position where the old
/// pattern occurs, the substitution keeps the text before it, puts the new
/// pattern in its place, and carries on in the text after it — so, repeating
/// the argument on the remainder, each occurrence that the left-to-right scan
/// meets is rewritten, wherever in the text it stands.
pub proof fn lemma_replaced_at_first_match(
    s: Seq<char>,
    old: Seq<char>,
    new: Seq<char>,
    i: int,
)
    requires
        old.len() > 0,
        match_at(s, old, i),
        forall|j: int| 0 <= j < i ==> !match_at(s, old, j),
    ensures
        replaced(s, old, new) == s.take(i) + new + replaced(
            s.skip(i + old.len()),
            old,
            new,
        ),
    decreases i,
{
    let ghost l = old.len() as int;
    if i == 0 {
        assert(s.take(l) == s.subrange(0, l));
        assert(replaced(s, old, new) == new + replaced(s.skip(l), old, new));
        assert(s.take(0) + new + replaced(s.skip(l), old, new) =~= new + replaced(
            s.skip(l),
            old,
            new,
        ));
    } else {
        assert(s.len() >= old.len());
        assert(!match_at(s, old, 0));
        assert(s.take(l) == s.subrange(0, l));
        assert(s.take(l) != old);
        assert(replaced(s, old, new) == seq![s[0]] + replaced(s.skip(1), old, new));
        assert(match_at(s.skip(1), old, i - 1)) by {
            lemma_match_at_skip(s, old, 1, i - 1);
        }
        assert forall|j: int| 0 <= j < i - 1 implies !match_at(s.skip(1), old, j) by {
            lemma_match_at_skip(s, old, 1, j);
            assert(!match_at(s, old, j + 1));
        }
        lemma_replaced_at_first_match(s.skip(1), old, new, i - 1);
        assert(s.skip(1).skip(i - 1 + l) =~= s.skip(i + l));
        assert(seq![s[0]] + (s.skip(1).take(i - 1) + new + replaced(s.skip(i + l), old, new))
            =~= s.take(i) + new + replaced(s.skip(i + l), old, new));
    }
}

/// Law: format preservation. A leading region of the text in which the old
/// tag does not occur — a comment line, keys in their original order — is
/// byte-identical after the substitution; only what follows it is rewritten.
pub proof fn lemma_untouched_prefix(a: Seq<char>, b: Seq<char>, old: Seq<char>, new: Seq<char>)
    requires
        old.len() > 0,
        !occurs(a, old),
        forall|i: int| a.len() - old.len() < i < a.len() ==> !match_at(a + b, old, i),
    ensures
        replaced(a + b, old, new) == a + replaced(b, old, new),
{
    lemma_replaced_concat(a, b, old, new);
    lemma_replaced_absent(a, old, new);
}

/// Whether `pat` occurs in `text` starting at `i`.
fn chars_match_at(text: &Vec<char>, pat: &Vec<char>, i: usize) -> (r: bool)
    requires
        i + pat@.len() <= text@.len(),
    ensures
        r == (text@.subrange(i as int, i + pat@.len()) == pat@),
{
    let n = text.len();
    let mut j: usize = 0;
    while j < pat.len()
        invariant
            i + pat@.len() <= n,
            n == text@.len(),
            j <= pat@.len(),
            forall|k: int| 0 <= k < j ==> text@[i + k] == pat@[k],
        decreases pat@.len() - j,
    {
        if text[i + j] != pat[j] {
            assert(text@.subrange(i as int, i + pat@.len())[j as int] != pat@[j as int]);
            return false;
        }
        j += 1;
    }
    assert(text@.subrange(i as int, i + pat@.len()) =~= pat@);
    true
}

/// Appends the characters of `src` to `out`.
fn push_all(out: &mut Vec<char>, src: &Vec<char>)
    ensures
        final(out)@ == old(out)@ + src@,
{
    let mut j: usize = 0;
    while j < src.len()
        invariant
            j <= src@.len(),
            out@ == old(out)@ + src@.take(j as int),
        decreases src@.len() - j,
    {
        out.push(src[j]);
        proof {
            assert(old(out)@ + src@.take(j + 1) =~= (old(out)@ + src@.take(j as int)).push(
                src@[j as int],
            ));
        }
        j += 1;
    }
    proof {
        assert(old(out)@ + src@.take(src@.len() as int) =~= old(out)@ + src@);
    }
}

/// Replaces every occurrence of `old` in `text` by `new`, scanning left to
/// right over non-overlapping matches, as `str::replace` does.
pub fn replace_chars(text: &Vec<char>, old: &Vec<char>, new: &Vec<char>) -> (r: Vec<char>)
    ensures
        r@ == replaced(text@, old@, new@),
{
    let mut out: Vec<char> = Vec::new();
    let mut i: usize = 0;
    proof {
        assert(text@.skip(0) =~= text@);
        assert(out@ + replaced(text@, old@, new@) =~= replaced(text@, old@, new@));
    }
    if old.len() == 0 {
        while i < text.len()
            invariant
                i <= text@.len(),
                old@.len() == 0,
                replaced(text@, old@, new@) == out@ + replaced(text@.skip(i as int), old@, new@),
            decreases text@.len() - i,
        {
            let ghost rest = text@.skip(i as int);
            let ghost out0 = out@;
            push_all(&mut out, new);
            out.push(text[i]);
            proof {
                assert(rest[0] == text@[i as int]);
                assert(rest.skip(1) =~= text@.skip(i + 1));
                assert(out@ + replaced(text@.skip(i + 1), old@, new@) =~= out0 + (new@ + seq![
                    text@[i as int],
                ] + replaced(text@.skip(i + 1), old@, new@)));
            }
            i += 1;
        }
        proof {
            assert(text@.skip(i as int) =~= Seq::<char>::empty());
        }
        let ghost out0 = out@;
        push_all(&mut out, new);
        proof {
            assert(out@ =~= out0 + replaced(text@.skip(i as int), old@, new@));
        }
        out
    } else {
        while i < text.len()
            invariant
                i <= text@.len(),
                old@.len() > 0,
                replaced(text@, old@, new@) == out@ + replaced(text@.skip(i as int), old@, new@),
            decreases text@.len() - i,
        {
            let ghost rest = text@.skip(i as int);
            let ghost out0 = out@;
            if old.len() <= text.len() - i && chars_match_at(text, old, i) {
                push_all(&mut out, new);
                proof {
                    assert(rest.take(old@.len() as int) =~= text@.subrange(
                        i as int,
                        i + old@.len(),
                    ));
                    assert(rest.skip(old@.len() as int) =~= text@.skip(i + old@.len()));
                    assert(out@ + replaced(text@.skip(i + old@.len()), old@, new@) =~= out0 + (new@
                        + replaced(text@.skip(i + old@.len()), old@, new@)));
                }
                i += old.len();
            } else {
                out.push(text[i]);
                proof {
                    assert(rest[0] == text@[i as int]);
                    assert(rest.skip(1) =~= text@.skip(i + 1));
                    if old@.len() <= rest.len() {
                        assert(rest.take(old@.len() as int) =~= text@.subrange(
                            i as int,
                            i + old@.len(),
                        ));
                        assert(rest.take(old@.len() as int) != old@);
                    }
                    assert(replaced(rest, old@, new@) == seq![rest[0]] + replaced(
                        rest.skip(1),
                        old@,
                        new@,
                    ));
                    assert(out@ + replaced(text@.skip(i + 1), old@, new@) =~= out0 + (seq![
                        text@[i as int],
                    ] + replaced(text@.skip(i + 1), old@, new@)));
                }
                i += 1;
            }
        }
        proof {
            assert(text@.skip(i as int) =~= Seq::<char>::empty());
            assert(out@ + replaced(text@.skip(i as int), old@, new@) =~= out@);
        }
        out
    }
}

} // verus!
