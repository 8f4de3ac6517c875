//! Literal substring search and substitution on character sequences.

use vstd::prelude::*;

verus! {

/// `needle` stands in `text` at position `at`.
pub open spec fn occurs_at(text: Seq<char>, needle: Seq<char>, at: int) -> bool {
    &&& 0 <= at
    &&& at + needle.len() <= text.len()
    &&& text.subrange(at, at + needle.len()) == needle
}

/// `needle` stands somewhere in `text`. The empty sequence stands in every text.
pub open spec fn occurs_in(text: Seq<char>, needle: Seq<char>) -> bool {
    exists|at: int| occurs_at(text, needle, at)
}

/// `text` with every occurrence of `from` replaced by `to`, scanning from the left;
/// an occurrence that overlaps one already replaced is not replaced.
///
/// The empty `from` occurs before every character and at the end, so `to` is then
/// put before every character and after the last one.
pub open spec fn replace_all(text: Seq<char>, from: Seq<char>, to: Seq<char>) -> Seq<char>
    decreases text.len(),
{
    if text.len() == 0 {
        if from.len() == 0 {
            to
        } else {
            text
        }
    } else if from.len() == 0 {
        to + text.take(1) + replace_all(text.skip(1), from, to)
    } else if occurs_at(text, from, 0) {
        to + replace_all(text.skip(from.len() as int), from, to)
    } else {
        text.take(1) + replace_all(text.skip(1), from, to)
    }
}

/// An occurrence at the start of what follows position `at` is an occurrence at `at`.
proof fn lemma_occurs_at_skip(text: Seq<char>, needle: Seq<char>, at: int)
    requires
        0 <= at <= text.len(),
    ensures
        occurs_at(text.skip(at), needle, 0) == occurs_at(text, needle, at),
{
    if at + needle.len() <= text.len() {
        assert(text.skip(at).subrange(0, needle.len() as int) =~= text.subrange(
            at,
            at + needle.len(),
        ));
    }
}

/// Replacing a text by itself changes nothing.
pub proof fn lemma_replace_same(text: Seq<char>, pattern: Seq<char>)
    ensures
        replace_all(text, pattern, pattern) == text,
    decreases text.len(),
{
    if text.len() == 0 {
        assert(replace_all(text, pattern, pattern) =~= text);
    } else if pattern.len() == 0 {
        lemma_replace_same(text.skip(1), pattern);
        assert(pattern + text.take(1) + text.skip(1) =~= text);
    } else if occurs_at(text, pattern, 0) {
        lemma_replace_same(text.skip(pattern.len() as int), pattern);
        assert(text.subrange(0, pattern.len() as int) + text.skip(pattern.len() as int) =~= text);
    } else {
        lemma_replace_same(text.skip(1), pattern);
        assert(text.take(1) + text.skip(1) =~= text);
    }
}

/// A text in which `from` does not occur is left as it is.
pub proof fn lemma_replace_absent(text: Seq<char>, from: Seq<char>, to: Seq<char>)
    requires
        !occurs_in(text, from),
    ensures
        replace_all(text, from, to) == text,
    decreases text.len(),
{
    assert(from.len() > 0) by {
        if from.len() == 0 {
            assert(text.subrange(0, 0) =~= from);
            assert(occurs_at(text, from, 0));
        }
    }
    assert(!occurs_at(text, from, 0));
    if text.len() > 0 {
        assert forall|at: int| !occurs_at(text.skip(1), from, at) by {
            if occurs_at(text.skip(1), from, at) {
                assert(text.subrange(at + 1, at + 1 + from.len()) =~= text.skip(1).subrange(
                    at,
                    at + from.len(),
                ));
                assert(occurs_at(text, from, at + 1));
            }
        }
        lemma_replace_absent(text.skip(1), from, to);
        assert(text.take(1) + text.skip(1) =~= text);
    }
}

/// One step of [`replace_all`], seen from the whole text: what it makes of the
/// text from position `at` on, in terms of what it makes of a later part.
proof fn lemma_replace_step(text: Seq<char>, from: Seq<char>, to: Seq<char>, at: int)
    requires
        0 <= at < text.len(),
    ensures
        replace_all(text.skip(at), from, to) == if from.len() == 0 {
            to + text.subrange(at, at + 1) + replace_all(text.skip(at + 1), from, to)
        } else if occurs_at(text, from, at) {
            to + replace_all(text.skip(at + from.len()), from, to)
        } else {
            text.subrange(at, at + 1) + replace_all(text.skip(at + 1), from, to)
        },
{
    let rest = text.skip(at);
    lemma_occurs_at_skip(text, from, at);
    assert(rest.take(1) =~= text.subrange(at, at + 1));
    assert(rest.skip(1) =~= text.skip(at + 1));
    if occurs_at(text, from, at) {
        assert(rest.skip(from.len() as int) =~= text.skip(at + from.len()));
    }
}

/// `a` and `b` have no character in common.
pub open spec fn share_no_char(a: Seq<char>, b: Seq<char>) -> bool {
    forall|i: int, j: int| 0 <= i < a.len() && 0 <= j < b.len() ==> a[i] != b[j]
}

/// Where the replaced text begins with characters that the replacement does
/// not have, the text itself begins with them.
proof fn lemma_replaced_prefix(
    text: Seq<char>,
    from: Seq<char>,
    to: Seq<char>,
    prefix: Seq<char>,
)
    requires
        from.len() > 0,
        to.len() > 0,
        share_no_char(prefix, to),
        occurs_at(replace_all(text, from, to), prefix, 0),
    ensures
        occurs_at(text, prefix, 0),
    decreases text.len(),
{
    let replaced = replace_all(text, from, to);
    if prefix.len() == 0 {
        assert(text.subrange(0, 0) =~= prefix);
    } else if text.len() == 0 {
    } else if occurs_at(text, from, 0) {
        assert(replaced.subrange(0, prefix.len() as int)[0] == to[0]);
    } else {
        let tail = replace_all(text.skip(1), from, to);
        assert(replaced =~= text.take(1) + tail);
        assert(replaced.subrange(0, prefix.len() as int)[0] == text[0]);
        assert(tail.subrange(0, prefix.len() - 1) =~= prefix.skip(1)) by {
            assert forall|i: int| 0 <= i < prefix.len() - 1 implies tail[i] == prefix[i + 1] by {
                assert(replaced.subrange(0, prefix.len() as int)[i + 1] == tail[i]);
            }
        }
        assert(share_no_char(prefix.skip(1), to));
        lemma_replaced_prefix(text.skip(1), from, to, prefix.skip(1));
        assert(text.subrange(0, prefix.len() as int) =~= prefix) by {
            assert forall|i: int| 1 <= i < prefix.len() implies text[i] == prefix[i] by {
                assert(text.skip(1).subrange(0, prefix.len() - 1)[i - 1] == text[i]);
            }
        }
    }
}

/// A replacement that is not empty and has no character in common with the
/// target rids every text of the target.
pub proof fn lemma_replaced_is_rid_of_target(text: Seq<char>, from: Seq<char>, to: Seq<char>)
    requires
        from.len() > 0,
        to.len() > 0,
        share_no_char(from, to),
    ensures
        !occurs_in(replace_all(text, from, to), from),
    decreases text.len(),
{
    let replaced = replace_all(text, from, to);
    assert forall|at: int| !occurs_at(replaced, from, at) by {
        if occurs_at(replaced, from, at) {
            if text.len() == 0 {
            } else if occurs_at(text, from, 0) {
                let tail = replace_all(text.skip(from.len() as int), from, to);
                lemma_replaced_is_rid_of_target(text.skip(from.len() as int), from, to);
                if at < to.len() {
                    assert(replaced.subrange(at, at + from.len())[0] == to[at]);
                } else {
                    assert(tail.subrange(at - to.len(), at - to.len() + from.len())
                        =~= replaced.subrange(at, at + from.len()));
                    assert(occurs_at(tail, from, at - to.len()));
                }
            } else {
                let tail = replace_all(text.skip(1), from, to);
                lemma_replaced_is_rid_of_target(text.skip(1), from, to);
                if at == 0 {
                    lemma_replaced_prefix(text, from, to, from);
                } else {
                    assert(tail.subrange(at - 1, at - 1 + from.len()) =~= replaced.subrange(
                        at,
                        at + from.len(),
                    ));
                    assert(occurs_at(tail, from, at - 1));
                }
            }
        }
    }
}

/// The characters of `s`, in order.
pub fn chars_of(s: &str) -> (chars: Vec<char>)
    ensures
        chars@ == s@,
{
    let mut chars: Vec<char> = Vec::new();
    for c in it: s.chars()
        invariant
            it.seq() == s@,
            chars@ == s@.take(it.index()),
    {
        chars.push(c);
    }
    chars
}

/// Whether `needle` stands in `text` at position `at`.
fn stands_at(text: &Vec<char>, needle: &Vec<char>, at: usize) -> (found: bool)
    ensures
        found == occurs_at(text@, needle@, at as int),
{
    let n = text.len();
    let m = needle.len();
    if at > n || m > n - at {
        return false;
    }
    let mut k: usize = 0;
    while k < m
        invariant
            n == text.len(),
            m == needle.len(),
            at + m <= n,
            k <= m,
            forall|j: int| 0 <= j < k ==> text@[at + j] == needle@[j],
        decreases m - k,
    {
        if text[at + k] != needle[k] {
            assert(text@.subrange(at as int, at + m)[k as int] == text@[at + k]);
            return false;
        }
        k += 1;
    }
    assert(text@.subrange(at as int, at + m) =~= needle@);
    true
}

/// Whether `needle` stands somewhere in `text`, compared character by character.
pub fn contains_text(text: &str, needle: &str) -> (found: bool)
    ensures
        found == occurs_in(text@, needle@),
{
    let hay = chars_of(text);
    let pat = chars_of(needle);
    let n = hay.len();
    let m = pat.len();
    if m > n {
        return false;
    }
    let last = n - m;
    let mut at: usize = 0;
    loop
        invariant
            hay@ == text@,
            pat@ == needle@,
            n == hay.len(),
            m == pat.len(),
            last == n - m,
            at <= last,
            forall|j: int| 0 <= j < at ==> !occurs_at(text@, needle@, j),
        decreases last - at,
    {
        if stands_at(&hay, &pat, at) {
            return true;
        }
        if at == last {
            return false;
        }
        at += 1;
    }
}

/// `text` with every occurrence of `from` replaced by `to`, as [`replace_all`] defines it.
pub fn replace_text(text: &str, from: &str, to: &str) -> (replaced: String)
    ensures
        replaced@ == replace_all(text@, from@, to@),
{
    let src = chars_of(text);
    let pat = chars_of(from);
    let n = src.len();
    let m = pat.len();
    let mut out = String::new();
    // text[kept..at] has been scanned and stays as it is: it is copied in
    // one piece when the next occurrence, or the end, is reached.
    let mut kept: usize = 0;
    let mut at: usize = 0;
    assert(text@.skip(0) =~= text@);
    while at < n
        invariant
            src@ == text@,
            pat@ == from@,
            n == src.len(),
            m == pat.len(),
            kept <= at <= n,
            out@ + text@.subrange(kept as int, at as int) + replace_all(
                text@.skip(at as int),
                from@,
                to@,
            ) == replace_all(text@, from@, to@),
        decreases n - at,
    {
        proof {
            lemma_replace_step(text@, from@, to@, at as int);
        }
        if stands_at(&src, &pat, at) {
            out.append(text.substring_char(kept, at));
            out.append(to);
            if m == 0 {
                kept = at;
                at += 1;
            } else {
                at += m;
                kept = at;
            }
        } else {
            // The empty target stands everywhere, so the target is not empty here.
            assert(m > 0) by {
                if m == 0 {
                    assert(text@.subrange(at as int, at as int) =~= from@);
                }
            }
            at += 1;
        }
    }
    out.append(text.substring_char(kept, n));
    if m == 0 {
        out.append(to);
    }
    out
}

} // verus!
