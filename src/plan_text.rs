//! Redaction of the working directory from a rendered physical plan.
//!
//! A rendered plan names the files it reads by their full paths. To keep the
//! text stable from one machine to the next, every occurrence of the process's
//! working directory (without its leading slashes) is cut out of it.
use vstd::prelude::*;

verus! {

/// `s` without the slashes it starts with.
pub open spec fn trim_leading_slashes(s: Seq<char>) -> Seq<char>
    decreases s.len(),
{
    if s.len() > 0 && s[0] == '/' {
        trim_leading_slashes(s.drop_first())
    } else {
        s
    }
}

/// `p` stands in `s` at position `i`.
pub open spec fn occurs_at(s: Seq<char>, p: Seq<char>, i: int) -> bool {
    0 <= i && i + p.len() <= s.len() && s.subrange(i, i + p.len()) == p
}

/// `s` with every occurrence of `p` cut out, scanning from the left and
/// resuming after each cut; an empty `p` cuts nothing.
pub open spec fn remove_all(s: Seq<char>, p: Seq<char>) -> Seq<char>
    decreases s.len(),
{
    if p.len() == 0 || s.len() == 0 {
        s
    } else if occurs_at(s, p, 0) {
        remove_all(s.skip(p.len() as int), p)
    } else {
        seq![s[0]] + remove_all(s.drop_first(), p)
    }
}

/// The rendered plan `plan` once the working directory `dir` is cut out of it.
pub open spec fn redacted(plan: Seq<char>, dir: Seq<char>) -> Seq<char> {
    remove_all(plan, trim_leading_slashes(dir))
}

/// Each place where `p` stands in `s`, but at the very start, follows a
/// character that does not occur in `p`.
pub open spec fn delimited_occurrences(s: Seq<char>, p: Seq<char>) -> bool {
    forall|i: int| #[trigger] occurs_at(s, p, i) && i > 0 ==> !p.contains(s[i - 1])
}

/// The first position at or after `from` where `p` stands in `s`, or the
/// length of `s` where there is none.
spec fn first_occurrence(s: Seq<char>, p: Seq<char>, from: int) -> int
    decreases s.len() - from,
{
    if from < 0 || from >= s.len() {
        s.len() as int
    } else if occurs_at(s, p, from) {
        from
    } else {
        first_occurrence(s, p, from + 1)
    }
}

proof fn lemma_first_occurrence(s: Seq<char>, p: Seq<char>, from: int)
    requires
        0 <= from <= s.len(),
        p.len() > 0,
    ensures
        from <= first_occurrence(s, p, from) <= s.len(),
        first_occurrence(s, p, from) < s.len() ==> occurs_at(s, p, first_occurrence(s, p, from)),
        forall|j: int| from <= j < first_occurrence(s, p, from) ==> !occurs_at(s, p, j),
    decreases s.len() - from,
{
    if from < s.len() && !occurs_at(s, p, from) {
        lemma_first_occurrence(s, p, from + 1);
    }
}

/// Where `p` does not stand in the first `k` positions of `s`, the scan keeps
/// those `k` characters as they are.
proof fn lemma_keeps_prefix(s: Seq<char>, p: Seq<char>, k: int)
    requires
        p.len() > 0,
        0 <= k <= s.len(),
        forall|j: int| 0 <= j < k ==> !occurs_at(s, p, j),
    ensures
        remove_all(s, p) == s.take(k) + remove_all(s.skip(k), p),
    decreases k,
{
    if k == 0 {
        assert(s.take(0) + s.skip(0) =~= s);
        assert(s.take(0) + remove_all(s.skip(0), p) =~= remove_all(s, p)) by {
            assert(s.skip(0) =~= s);
        }
    } else {
        lemma_keeps_prefix(s, p, k - 1);
        let t = s.skip(k - 1);
        assert(!occurs_at(s, p, k - 1));
        if occurs_at(t, p, 0) {
            assert(t.subrange(0, p.len() as int) =~= s.subrange(k - 1, k - 1 + p.len()));
        }
        assert(t.drop_first() =~= s.skip(k));
        assert(t[0] == s[k - 1]);
        assert(remove_all(t, p) == seq![s[k - 1]] + remove_all(s.skip(k), p));
        assert(s.take(k - 1) + (seq![s[k - 1]] + remove_all(s.skip(k), p)) =~= s.take(k)
            + remove_all(s.skip(k), p));
    }
}

/// Where `p` stands nowhere in `s`, the scan leaves `s` as it is.
proof fn lemma_nothing_to_remove(s: Seq<char>, p: Seq<char>)
    requires
        p.len() > 0,
        forall|j: int| !occurs_at(s, p, j),
    ensures
        remove_all(s, p) == s,
{
    lemma_keeps_prefix(s, p, s.len() as int);
    assert(s.skip(s.len() as int) =~= Seq::<char>::empty());
    assert(s.take(s.len() as int) =~= s);
    assert(s.take(s.len() as int) + Seq::<char>::empty() =~= s);
}

proof fn lemma_removes_every_delimited(s: Seq<char>, p: Seq<char>)
    requires
        p.len() > 0,
        delimited_occurrences(s, p),
    ensures
        forall|i: int| !occurs_at(remove_all(s, p), p, i),
    decreases s.len(),
{
    lemma_first_occurrence(s, p, 0);
    let k = first_occurrence(s, p, 0);
    if k == s.len() {
        lemma_nothing_to_remove(s, p);
    } else {
        lemma_keeps_prefix(s, p, k);
        let m = s.skip(k);
        let t = s.skip(k + p.len());
        assert(m.subrange(0, p.len() as int) =~= s.subrange(k, k + p.len()));
        assert(m.skip(p.len() as int) =~= t);
        assert(remove_all(m, p) == remove_all(t, p));
        assert forall|i: int| #[trigger] occurs_at(t, p, i) && i > 0 implies !p.contains(t[i - 1]) by {
            assert(t.subrange(i, i + p.len()) =~= s.subrange(k + p.len() + i, k + p.len() + i
                + p.len()));
            assert(occurs_at(s, p, k + p.len() + i));
            assert(t[i - 1] == s[k + p.len() + i - 1]);
        }
        lemma_removes_every_delimited(t, p);
        let rt = remove_all(t, p);
        let out = remove_all(s, p);
        assert(out == s.take(k) + rt);
        assert forall|i: int| !occurs_at(out, p, i) by {
            if occurs_at(out, p, i) {
                if i + p.len() <= k {
                    assert(out.subrange(i, i + p.len()) =~= s.subrange(i, i + p.len()));
                    assert(occurs_at(s, p, i));
                } else if i >= k {
                    assert(out.subrange(i, i + p.len()) =~= rt.subrange(i - k, i - k + p.len()));
                    assert(occurs_at(rt, p, i - k));
                } else {
                    assert(k > 0);
                    assert(occurs_at(s, p, k));
                    assert(!p.contains(s[k - 1]));
                    assert(out[k - 1] == s[k - 1]);
                    assert(out.subrange(i, i + p.len())[k - 1 - i] == out[k - 1]);
                    assert(p[k - 1 - i] == s[k - 1]);
                }
            }
        }
    }
}

/// Redaction leaves no copy of the working directory behind, and redacting
/// the redacted text again changes nothing, provided the directory (without
/// its leading slashes) is not empty and each place where it occurs in the
/// rendered plan, but at the very start, follows a character that the
/// directory does not contain (a bracket, a space, an `=`).
pub proof fn lemma_redaction_is_complete_and_idempotent(plan: Seq<char>, dir: Seq<char>)
    requires
        trim_leading_slashes(dir).len() > 0,
        delimited_occurrences(plan, trim_leading_slashes(dir)),
    ensures
        forall|i: int| !occurs_at(redacted(plan, dir), trim_leading_slashes(dir), i),
        redacted(redacted(plan, dir), dir) == redacted(plan, dir),
{
    let p = trim_leading_slashes(dir);
    lemma_removes_every_delimited(plan, p);
    lemma_nothing_to_remove(redacted(plan, dir), p);
}

/// Relies on `String::push`: the character is appended at the end.
#[verifier::external_body]
fn push_char(s: &mut String, c: char)
    ensures
        final(s)@ == old(s)@.push(c),
{
    s.push(c);
}

fn chars_of(s: &str) -> (r: Vec<char>)
    ensures
        r@ == s@,
{
    let mut r: Vec<char> = Vec::new();
    for c in it: s.chars()
        invariant
            it.seq() == s@,
            r@ == s@.take(it.index() as int),
    {
        proof {
            assert(s@.take(it.index() as int).push(c) =~= s@.take(it.index() + 1));
        }
        r.push(c);
    }
    proof {
        assert(s@.take(s@.len() as int) =~= s@);
    }
    r
}

/// Number of slashes that `d` starts with.
fn leading_slashes(d: &Vec<char>) -> (k: usize)
    ensures
        k <= d.len(),
        trim_leading_slashes(d@) == d@.skip(k as int),
{
    let mut k: usize = 0;
    proof {
        assert(d@.skip(0) =~= d@);
    }
    while k < d.len() && d[k] == '/'
        invariant
            k <= d.len(),
            trim_leading_slashes(d@) == trim_leading_slashes(d@.skip(k as int)),
        decreases d.len() - k,
    {
        proof {
            assert(d@.skip(k as int).drop_first() =~= d@.skip(k + 1));
        }
        k = k + 1;
    }
    k
}

fn suffix_from(d: &Vec<char>, k: usize) -> (r: Vec<char>)
    requires
        k <= d.len(),
    ensures
        r@ == d@.skip(k as int),
{
    let mut r: Vec<char> = Vec::new();
    let mut i: usize = k;
    while i < d.len()
        invariant
            k <= i <= d.len(),
            r@ == d@.subrange(k as int, i as int),
        decreases d.len() - i,
    {
        proof {
            assert(d@.subrange(k as int, i as int).push(d@[i as int]) =~= d@.subrange(
                k as int,
                i + 1,
            ));
        }
        r.push(d[i]);
        i = i + 1;
    }
    proof {
        assert(d@.subrange(k as int, d.len() as int) =~= d@.skip(k as int));
    }
    r
}

fn occurs_at_exec(text: &Vec<char>, pat: &Vec<char>, i: usize) -> (r: bool)
    requires
        i <= text.len(),
    ensures
        r == occurs_at(text@, pat@, i as int),
{
    if pat.len() > text.len() - i {
        return false;
    }
    let mut j: usize = 0;
    while j < pat.len()
        invariant
            j <= pat.len(),
            i + pat.len() <= text.len(),
            forall|m: int| 0 <= m < j ==> text@[i + m] == pat@[m],
        decreases pat.len() - j,
    {
        if text[i + j] != pat[j] {
            proof {
                if occurs_at(text@, pat@, i as int) {
                    assert(text@.subrange(i as int, i + pat.len())[j as int] == text@[i + j]);
                }
            }
            return false;
        }
        j = j + 1;
    }
    proof {
        assert(text@.subrange(i as int, i + pat.len()) =~= pat@);
    }
    true
}

/// The rendered plan `rendered` with every occurrence of `working_dir`
/// (without its leading slashes) cut out.
pub fn redact_working_dir(rendered: &str, working_dir: &str) -> (r: String)
    ensures
        r@ == redacted(rendered@, working_dir@),
{
    let text = chars_of(rendered);
    let dir = chars_of(working_dir);
    let k = leading_slashes(&dir);
    let pat = suffix_from(&dir, k);
    let ghost p = pat@;
    let mut out = String::new();
    let mut i: usize = 0;
    proof {
        assert(text@.skip(0) =~= text@);
        assert(out@ + remove_all(text@.skip(0), p) =~= remove_all(text@, p));
    }
    while i < text.len()
        invariant
            i <= text.len(),
            p == pat@,
            out@ + remove_all(text@.skip(i as int), p) == remove_all(text@, p),
        decreases text.len() - i,
    {
        let ghost t = text@.skip(i as int);
        if pat.len() > 0 && occurs_at_exec(&text, &pat, i) {
            proof {
                assert(t.subrange(0, p.len() as int) =~= text@.subrange(i as int, i + p.len()));
                assert(t.skip(p.len() as int) =~= text@.skip(i + p.len()));
            }
            i = i + pat.len();
        } else {
            let c = text[i];
            proof {
                assert(t.drop_first() =~= text@.skip(i + 1));
                if p.len() > 0 {
                    if occurs_at(t, p, 0) {
                        assert(t.subrange(0, p.len() as int) =~= text@.subrange(
                            i as int,
                            i + p.len(),
                        ));
                    }
                    assert(remove_all(t, p) == seq![c] + remove_all(text@.skip(i + 1), p));
                    assert(out@.push(c) + remove_all(text@.skip(i + 1), p) =~= out@ + (seq![c]
                        + remove_all(text@.skip(i + 1), p)));
                } else {
                    assert(out@.push(c) + text@.skip(i + 1) =~= out@ + t);
                }
            }
            push_char(&mut out, c);
            i = i + 1;
        }
    }
    proof {
        assert(text@.skip(i as int) =~= Seq::<char>::empty());
        assert(out@ + Seq::<char>::empty() =~= out@);
    }
    out
}

} // verus!
