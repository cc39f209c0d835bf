//! Moving between `str`/`String` and sequences of characters.
use vstd::prelude::*;

verus! {

/// The characters of `s`, in order (`str::chars` collected into a `Vec`).
#[verifier::external_body]
pub fn chars_of(s: &str) -> (v: Vec<char>)
    ensures
        v@ == s@,
{
    s.chars().collect()
}

/// The string made of the characters of `v`, in order (`FromIterator<char>` for `String`).
#[verifier::external_body]
pub fn string_of(v: &[char]) -> (s: String)
    ensures
        s@ == v@,
{
    v.iter().collect()
}

/// Appends the characters of `src` at the end of `dst`.
pub fn extend_chars(dst: &mut Vec<char>, src: &[char])
    ensures
        final(dst)@ == old(dst)@ + src@,
{
    let mut i: usize = 0;
    while i < src.len()
        invariant
            i <= src@.len(),
            dst@ == old(dst)@ + src@.take(i as int),
        decreases src@.len() - i,
    {
        dst.push(src[i]);
        i = i + 1;
        assert(src@.take(i as int) == src@.take(i - 1) + seq![src@[i - 1]]);
    }
    assert(src@.take(i as int) == src@);
}

/// Appends the characters of `s` at the end of `dst`.
pub fn extend_str(dst: &mut Vec<char>, s: &str)
    ensures
        final(dst)@ == old(dst)@ + s@,
{
    let v = chars_of(s);
    extend_chars(dst, v.as_slice());
}

/// True when the two character sequences are equal.
pub fn chars_eq(a: &[char], b: &[char]) -> (r: bool)
    ensures
        r == (a@ == b@),
{
    if a.len() != b.len() {
        return false;
    }
    let mut i: usize = 0;
    while i < a.len()
        invariant
            a@.len() == b@.len(),
            i <= a@.len(),
            forall|j: int| 0 <= j < i ==> a@[j] == b@[j],
        decreases a@.len() - i,
    {
        if a[i] != b[i] {
            return false;
        }
        i = i + 1;
    }
    assert(a@ =~= b@);
    true
}

/// True when the string `s` is exactly `lit`.
pub fn str_is(s: &str, lit: &str) -> (r: bool)
    ensures
        r == (s@ == lit@),
{
    let a = chars_of(s);
    let b = chars_of(lit);
    chars_eq(a.as_slice(), b.as_slice())
}

/// What `str::to_lowercase` gives for `s`: its lower-case form under
/// Unicode's case mappings (with the special rule for a word-final capital
/// sigma), the same on every machine (no locale).
pub uninterp spec fn lowercase_of(s: Seq<char>) -> Seq<char>;

/// `str::to_lowercase`: the lower-case form of `s`, named.
#[verifier::external_body]
pub(crate) fn to_lowercase(s: &str) -> (l: String)
    ensures
        l@ == lowercase_of(s@),
{
    s.to_lowercase()
}

/// The pieces of `s` between occurrences of `sep`, as `str::split` yields
/// them (an empty `s` gives one empty piece).
pub open spec fn split_on(s: Seq<char>, sep: char) -> Seq<Seq<char>>
    decreases s.len(),
{
    if s.len() == 0 {
        seq![Seq::empty()]
    } else {
        let rest = split_on(s.drop_first(), sep);
        if s[0] == sep {
            seq![Seq::empty()] + rest
        } else {
            rest.update(0, seq![s[0]] + rest[0])
        }
    }
}

/// `s` does not hold the character `c`.
pub open spec fn lacks(s: Seq<char>, c: char) -> bool {
    forall|i: int| 0 <= i < s.len() ==> #[trigger] s[i] != c
}

pub proof fn lemma_split_nonempty(s: Seq<char>, sep: char)
    ensures
        split_on(s, sep).len() >= 1,
    decreases s.len(),
{
    if s.len() > 0 {
        lemma_split_nonempty(s.drop_first(), sep);
    }
}

/// A piece without the separator splits into itself.
pub proof fn lemma_split_lacking(s: Seq<char>, sep: char)
    requires
        lacks(s, sep),
    ensures
        split_on(s, sep) == seq![s],
    decreases s.len(),
{
    if s.len() > 0 {
        lemma_split_lacking(s.drop_first(), sep);
        assert(s[0] != sep);
        assert(seq![s[0]] + s.drop_first() =~= s);
        assert(split_on(s, sep) =~= seq![s]);
    } else {
        assert(s =~= Seq::<char>::empty());
    }
}

/// Splitting `x`, a separator and `y`, where `x` lacks the separator, gives
/// `x` followed by the pieces of `y`.
pub proof fn lemma_split_join(x: Seq<char>, sep: char, y: Seq<char>)
    requires
        lacks(x, sep),
    ensures
        split_on(x + seq![sep] + y, sep) == seq![x] + split_on(y, sep),
    decreases x.len(),
{
    let s = x + seq![sep] + y;
    if x.len() == 0 {
        assert(s.drop_first() =~= y);
        assert(x =~= Seq::<char>::empty());
    } else {
        lemma_split_join(x.drop_first(), sep, y);
        assert(s.drop_first() =~= x.drop_first() + seq![sep] + y);
        assert(s[0] == x[0]);
        assert(x[0] != sep);
        assert(seq![x[0]] + x.drop_first() =~= x);
        assert(split_on(s, sep) =~= seq![x] + split_on(y, sep));
    }
}

/// How splitting changes when one more character comes at the end.
proof fn lemma_split_push(t: Seq<char>, sep: char, ch: char)
    ensures
        split_on(t.push(ch), sep) == (if ch == sep {
            split_on(t, sep).push(Seq::empty())
        } else {
            split_on(t, sep).update(
                split_on(t, sep).len() - 1,
                split_on(t, sep).last().push(ch),
            )
        }),
    decreases t.len(),
{
    lemma_split_nonempty(t, sep);
    if t.len() == 0 {
        let s = t.push(ch);
        assert(s.drop_first() =~= Seq::<char>::empty());
        assert(t =~= Seq::<char>::empty());
        if ch == sep {
            assert(split_on(s, sep) =~= split_on(t, sep).push(Seq::empty()));
        } else {
            assert(split_on(s, sep) =~= split_on(t, sep).update(0, seq![ch]));
            assert(Seq::<char>::empty().push(ch) =~= seq![ch]);
        }
    } else {
        let s = t.push(ch);
        lemma_split_push(t.drop_first(), sep, ch);
        lemma_split_nonempty(t.drop_first(), sep);
        assert(s.drop_first() =~= t.drop_first().push(ch));
        assert(s[0] == t[0]);
        let r = split_on(t.drop_first(), sep);
        let r2 = split_on(t.drop_first().push(ch), sep);
        if t[0] == sep {
            if ch == sep {
                assert(split_on(s, sep) =~= split_on(t, sep).push(Seq::empty()));
            } else {
                assert(split_on(s, sep) =~= split_on(t, sep).update(
                    split_on(t, sep).len() - 1,
                    split_on(t, sep).last().push(ch),
                ));
            }
        } else {
            if ch == sep {
                assert(split_on(s, sep) =~= split_on(t, sep).push(Seq::empty()));
            } else {
                if r.len() == 1 {
                    assert((seq![t[0]] + r[0]).push(ch) =~= seq![t[0]] + r[0].push(ch));
                }
                assert(split_on(s, sep) =~= split_on(t, sep).update(
                    split_on(t, sep).len() - 1,
                    split_on(t, sep).last().push(ch),
                ));
            }
        }
    }
}

/// Splits `s` at every `sep`, as `str::split` does.
pub fn split_chars(s: &[char], sep: char) -> (r: Vec<Vec<char>>)
    ensures
        r@.len() == split_on(s@, sep).len(),
        forall|i: int| 0 <= i < r@.len() ==> #[trigger] r@[i]@ == split_on(s@, sep)[i],
{
    let mut done: Vec<Vec<char>> = Vec::new();
    let mut cur: Vec<char> = Vec::new();
    let mut i: usize = 0;
    proof {
        assert(s@.take(0) =~= Seq::<char>::empty());
    }
    while i < s.len()
        invariant
            i <= s@.len(),
            done@.len() + 1 == split_on(s@.take(i as int), sep).len(),
            forall|j: int| 0 <= j < done@.len() ==> #[trigger] done@[j]@ == split_on(s@.take(i as int), sep)[j],
            cur@ == split_on(s@.take(i as int), sep).last(),
        decreases s@.len() - i,
    {
        let ch = s[i];
        proof {
            assert(s@.take(i + 1) =~= s@.take(i as int).push(ch));
            lemma_split_push(s@.take(i as int), sep, ch);
            lemma_split_nonempty(s@.take(i as int), sep);
        }
        if ch == sep {
            let finished = cur;
            done.push(finished);
            cur = Vec::new();
            proof {
                assert(cur@ =~= Seq::<char>::empty());
            }
        } else {
            cur.push(ch);
        }
        i = i + 1;
    }
    proof {
        assert(s@.take(s@.len() as int) =~= s@);
        lemma_split_nonempty(s@, sep);
    }
    done.push(cur);
    done
}

/// The first position of `c` in `s`, if any.
pub fn find_first(s: &[char], c: char) -> (r: Option<usize>)
    ensures
        r is None ==> lacks(s@, c),
        r matches Some(i) ==> i < s@.len() && s@[i as int] == c && lacks(s@.take(i as int), c),
{
    let mut i: usize = 0;
    while i < s.len()
        invariant
            i <= s@.len(),
            forall|j: int| 0 <= j < i ==> s@[j] != c,
        decreases s@.len() - i,
    {
        if s[i] == c {
            return Some(i);
        }
        i = i + 1;
    }
    None
}

/// The characters after the last `c` of `s`, or all of `s` when it has no `c`
/// (the last piece `str::split` yields).
pub open spec fn after_last(s: Seq<char>, c: char) -> Seq<char>
    decreases s.len(),
{
    if s.len() == 0 {
        s
    } else if s.last() == c {
        Seq::empty()
    } else {
        after_last(s.drop_last(), c).push(s.last())
    }
}

proof fn lemma_after_last_skip(s: Seq<char>, c: char, k: int)
    requires
        0 <= k <= s.len(),
        lacks(s.skip(k), c),
        k > 0 ==> s[k - 1] == c,
    ensures
        after_last(s, c) == s.skip(k),
    decreases s.len(),
{
    if s.len() == 0 {
        assert(s.skip(k) =~= s);
    } else if k == s.len() {
        assert(s.skip(k) =~= Seq::<char>::empty());
    } else {
        assert(s.skip(k)[s.len() - 1 - k] == s.last());
        assert(s.last() != c);
        let t = s.drop_last();
        assert(t.skip(k) =~= s.skip(k).drop_last());
        assert forall|i: int| 0 <= i < t.skip(k).len() implies #[trigger] t.skip(k)[i] != c by {
            assert(t.skip(k)[i] == s.skip(k)[i]);
        }
        lemma_after_last_skip(t, c, k);
        assert(s.skip(k) =~= t.skip(k).push(s.last()));
    }
}

/// The characters after the last `c` of `s`, or all of `s` when it has none.
pub fn last_piece(s: &[char], c: char) -> (r: Vec<char>)
    ensures
        r@ == after_last(s@, c),
{
    let mut k: usize = s.len();
    while k > 0
        invariant
            k <= s@.len(),
            forall|j: int| k <= j < s@.len() ==> s@[j] != c,
        ensures
            k <= s@.len(),
            forall|j: int| k <= j < s@.len() ==> s@[j] != c,
            k > 0 ==> s@[k - 1] == c,
        decreases k,
    {
        if s[k - 1] == c {
            break;
        }
        k = k - 1;
    }
    let mut r: Vec<char> = Vec::new();
    let mut i: usize = k;
    while i < s.len()
        invariant
            k <= i <= s@.len(),
            r@ == s@.subrange(k as int, i as int),
        decreases s@.len() - i,
    {
        r.push(s[i]);
        i = i + 1;
        proof {
            assert(r@ =~= s@.subrange(k as int, i as int));
        }
    }
    proof {
        assert(r@ =~= s@.skip(k as int));
        assert forall|j: int| 0 <= j < s@.skip(k as int).len() implies #[trigger] s@.skip(k as int)[j] != c by {
            assert(s@.skip(k as int)[j] == s@[k + j]);
        }
        lemma_after_last_skip(s@, c, k as int);
    }
    r
}

} // verus!
