//! The letters of a text, each taken once.

use vstd::prelude::*;
use vstd::std_specs::iter::IteratorSpec;

verus! {

/// The characters of `s`, each once, in the order in which they first occur.
pub open spec fn first_occurrences(s: Seq<char>) -> Seq<char>
    decreases s.len(),
{
    if s.len() == 0 {
        Seq::empty()
    } else if s.drop_last().contains(s.last()) {
        first_occurrences(s.drop_last())
    } else {
        first_occurrences(s.drop_last()).push(s.last())
    }
}

/// The place at which `c` first occurs in `s`, for a `c` that occurs in it.
pub open spec fn first_place(s: Seq<char>, c: char) -> int
    decreases s.len(),
{
    if s.len() == 0 {
        0
    } else if s.drop_last().contains(c) {
        first_place(s.drop_last(), c)
    } else {
        s.len() - 1
    }
}

/// Whether `letters` is the set of the characters of `text`, written in order: no
/// character stands twice, a character is among the letters exactly when it occurs in
/// the text, and the letters stand in the order of the places at which they first
/// occur in the text.
pub open spec fn is_set_in_order_of(letters: Seq<char>, text: Seq<char>) -> bool {
    &&& letters.no_duplicates()
    &&& forall|c: char| letters.contains(c) <==> text.contains(c)
    &&& forall|i: int, j: int|
        0 <= i < j < letters.len() ==> first_place(text, letters[i]) < first_place(
            text,
            letters[j],
        )
}

/// `first_place` is the first place: `c` stands there, and nowhere before.
pub proof fn lemma_first_place(s: Seq<char>, c: char)
    requires
        s.contains(c),
    ensures
        0 <= first_place(s, c) < s.len(),
        s[first_place(s, c)] == c,
        forall|k: int| 0 <= k < first_place(s, c) ==> s[k] != c,
    decreases s.len(),
{
    let head = s.drop_last();
    if head.contains(c) {
        lemma_first_place(head, c);
        assert forall|k: int| 0 <= k < first_place(s, c) implies s[k] != c by {
            assert(head[k] == s[k]);
        }
    } else {
        let k = choose|k: int| 0 <= k < s.len() && s[k] == c;
        if k < s.len() - 1 {
            assert(head[k] == c);
        }
        assert forall|k: int| 0 <= k < s.len() - 1 implies s[k] != c by {
            assert(head[k] == s[k]);
        }
    }
}

/// The first occurrences of a text are a set written in order: no character stands
/// twice, a character is among them exactly when it occurs in the text, and they
/// stand in the order of the places at which they first occur.
pub proof fn lemma_first_occurrences(s: Seq<char>)
    ensures
        is_set_in_order_of(first_occurrences(s), s),
        first_occurrences(s).len() <= s.len(),
    decreases s.len(),
{
    let r = first_occurrences(s);
    if s.len() > 0 {
        let head = s.drop_last();
        let last = s.last();
        let before = first_occurrences(head);
        lemma_first_occurrences(head);
        assert forall|c: char| r.contains(c) <==> s.contains(c) by {
            if s.contains(c) {
                let k = choose|k: int| 0 <= k < s.len() && s[k] == c;
                if k < s.len() - 1 {
                    assert(head[k] == c);
                    assert(head.contains(c));
                }
                if head.contains(c) {
                    assert(before.contains(c));
                    let m = choose|m: int| 0 <= m < before.len() && before[m] == c;
                    assert(r[m] == c);
                } else {
                    assert(r[r.len() - 1] == c);
                }
                assert(r.contains(c));
            }
            if r.contains(c) {
                let m = choose|m: int| 0 <= m < r.len() && r[m] == c;
                if m < before.len() {
                    assert(before[m] == c);
                    assert(before.contains(c));
                    assert(head.contains(c));
                    let k = choose|k: int| 0 <= k < head.len() && head[k] == c;
                    assert(s[k] == head[k]);
                } else {
                    assert(s[s.len() - 1] == c);
                }
                assert(s.contains(c));
            }
        }
        assert forall|i: int, j: int| 0 <= i < j < r.len() implies first_place(s, r[i])
            < first_place(s, r[j]) by {
            assert(before[i] == r[i]);
            assert(before.contains(r[i]));
            assert(head.contains(r[i]));
            lemma_first_place(head, r[i]);
            if j < before.len() {
                assert(before[j] == r[j]);
                assert(before.contains(r[j]));
                assert(head.contains(r[j]));
            }
        }
        if !head.contains(last) {
            assert forall|i: int, j: int|
                0 <= i < r.len() && 0 <= j < r.len() && i != j implies r[i] != r[j] by {
                if i < before.len() {
                    assert(before[i] == r[i]);
                    assert(before.contains(r[i]));
                }
                if j < before.len() {
                    assert(before[j] == r[j]);
                    assert(before.contains(r[j]));
                }
            }
        }
    }
}

/// Two texts without a repeated character that hold the same characters in the order
/// of the same places are one text.
proof fn lemma_same_letters_same_order(a: Seq<char>, b: Seq<char>, text: Seq<char>)
    requires
        a.no_duplicates(),
        b.no_duplicates(),
        forall|c: char| a.contains(c) <==> b.contains(c),
        forall|i: int, j: int|
            0 <= i < j < a.len() ==> first_place(text, a[i]) < first_place(text, a[j]),
        forall|i: int, j: int|
            0 <= i < j < b.len() ==> first_place(text, b[i]) < first_place(text, b[j]),
    ensures
        a == b,
    decreases a.len(),
{
    if a.len() == 0 {
        if b.len() > 0 {
            assert(b.contains(b[0]));
            assert(a.contains(b[0]));
        }
        assert(a =~= b);
    } else {
        let x = a.last();
        assert(a.contains(x));
        assert(b.contains(x));
        let k = choose|k: int| 0 <= k < b.len() && b[k] == x;
        let y = b.last();
        assert(b.contains(y));
        assert(a.contains(y));
        let m = choose|m: int| 0 <= m < a.len() && a[m] == y;
        if k < b.len() - 1 && m < a.len() - 1 {
            assert(first_place(text, b[k]) < first_place(text, b[b.len() - 1]));
            assert(first_place(text, a[m]) < first_place(text, a[a.len() - 1]));
        }
        assert(x == y);
        let a0 = a.drop_last();
        let b0 = b.drop_last();
        assert forall|c: char| a0.contains(c) <==> b0.contains(c) by {
            if a0.contains(c) {
                let i = choose|i: int| 0 <= i < a0.len() && a0[i] == c;
                assert(a[i] == c);
                assert(a.contains(c));
                assert(b.contains(c));
                let j = choose|j: int| 0 <= j < b.len() && b[j] == c;
                assert(j < b.len() - 1);
                assert(b0[j] == c);
            }
            if b0.contains(c) {
                let i = choose|i: int| 0 <= i < b0.len() && b0[i] == c;
                assert(b[i] == c);
                assert(b.contains(c));
                assert(a.contains(c));
                let j = choose|j: int| 0 <= j < a.len() && a[j] == c;
                assert(j < a.len() - 1);
                assert(a0[j] == c);
            }
        }
        assert forall|i: int, j: int| 0 <= i < j < a0.len() implies first_place(text, a0[i])
            < first_place(text, a0[j]) by {
            assert(a0[i] == a[i] && a0[j] == a[j]);
        }
        assert forall|i: int, j: int| 0 <= i < j < b0.len() implies first_place(text, b0[i])
            < first_place(text, b0[j]) by {
            assert(b0[i] == b[i] && b0[j] == b[j]);
        }
        lemma_same_letters_same_order(a0, b0, text);
        assert(a =~= a0.push(x));
        assert(b =~= b0.push(y));
    }
}

/// A text has one set of its characters written in order, and no other: what is
/// such a set is the first occurrences of the text.
pub proof fn lemma_set_in_order_is_first_occurrences(letters: Seq<char>, text: Seq<char>)
    requires
        is_set_in_order_of(letters, text),
    ensures
        letters == first_occurrences(text),
{
    lemma_first_occurrences(text);
    let r = first_occurrences(text);
    assert forall|c: char| letters.contains(c) <==> r.contains(c) by {
        assert(letters.contains(c) <==> text.contains(c));
        assert(r.contains(c) <==> text.contains(c));
    }
    lemma_same_letters_same_order(letters, r, text);
}

/// Whether `c` is among `letters`.
fn holds(letters: &Vec<char>, c: char) -> (r: bool)
    ensures
        r == letters@.contains(c),
{
    let mut i: usize = 0;
    while i < letters.len()
        invariant
            i <= letters.len(),
            forall|k: int| 0 <= k < i ==> letters@[k] != c,
        decreases letters.len() - i,
    {
        if letters[i] == c {
            return true;
        }
        i += 1;
    }
    false
}

/// The characters of `s`, each once, in the order in which they first occur.
pub fn distinct_chars(s: &str) -> (r: Vec<char>)
    ensures
        r@ == first_occurrences(s@),
        is_set_in_order_of(r@, s@),
{
    let mut out: Vec<char> = Vec::new();
    let mut it = s.chars();
    let ghost mut n: int = 0;
    loop
        invariant
            it.obeys_prophetic_iter_laws(),
            0 <= n <= s@.len(),
            out@ == first_occurrences(s@.take(n)),
            it.remaining() == s@.skip(n),
        ensures
            out@ == first_occurrences(s@),
        decreases s@.len() - n,
    {
        match it.next() {
            Some(c) => {
                proof {
                    assert(s@.skip(n)[0] == s@[n]);
                    assert(s@.skip(n).drop_first() =~= s@.skip(n + 1));
                    assert(s@.take(n + 1).drop_last() =~= s@.take(n));
                    assert(s@.take(n + 1).last() == c);
                    lemma_first_occurrences(s@.take(n));
                }
                if !holds(&out, c) {
                    out.push(c);
                }
                proof {
                    n = n + 1;
                }
            },
            None => {
                proof {
                    assert(s@.take(n) =~= s@);
                }
                break;
            },
        }
    }
    proof {
        lemma_first_occurrences(s@);
    }
    out
}

} // verus!
