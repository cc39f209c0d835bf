//! Random password generation.
use rand::rngs::ThreadRng;
use rand::seq::{IteratorRandom, SliceRandom};
use vstd::prelude::*;

use crate::chars::string_of;

verus! {

pub const UPPER: &'static str = "ABCDEFGHJKLMNPQRSTUVWXYZ";

pub const LOWER: &'static str = "abcdefghijkmnpqrstuvwxyz";

pub const DIGIT: &'static str = "0123456789";

pub const SYMBOL: &'static str = "!#$%&*+-?@^_|~";

#[verifier::external_type_specification]
#[verifier::external_body]
pub struct ExThreadRng(ThreadRng);

/// `rand::thread_rng`: the generator seeded by the system for this thread.
#[verifier::external_body]
pub(crate) fn thread_rng() -> ThreadRng {
    rand::thread_rng()
}

/// `IteratorRandom::choose` over the characters of `s`: the contract states
/// what the documentation promises of every outcome, that the result is
/// `None` exactly when `s` is empty and otherwise one of its characters.
/// Which character comes out is left unsaid: it is drawn at random.
#[verifier::external_body]
fn choose_char(s: &str, rng: &mut ThreadRng) -> (r: Option<char>)
    ensures
        r is None <==> s@.len() == 0,
        r matches Some(c) ==> s@.contains(c),
{
    s.chars().choose(rng)
}

/// `SliceRandom::shuffle`: the characters are permuted in place, so the
/// multiset of characters is kept. Which permutation is drawn is left unsaid.
#[verifier::external_body]
fn shuffle_chars(v: &mut Vec<char>, rng: &mut ThreadRng)
    ensures
        final(v)@.to_multiset() == old(v)@.to_multiset(),
{
    v.shuffle(rng)
}

/// How many character classes are asked for.
pub open spec fn class_count(upper: bool, lower: bool, digit: bool, symbol: bool) -> nat {
    (if upper { 1nat } else { 0nat }) + (if lower { 1nat } else { 0nat }) + (if digit {
        1nat
    } else {
        0nat
    }) + (if symbol { 1nat } else { 0nat })
}

/// The characters a password may be drawn from: the asked-for classes, in the
/// order upper, lower, digit, symbol.
pub open spec fn pool_of(upper: bool, lower: bool, digit: bool, symbol: bool) -> Seq<char> {
    (if upper { UPPER@ } else { Seq::empty() }) + (if lower { LOWER@ } else { Seq::empty() }) + (
    if digit {
        DIGIT@
    } else {
        Seq::empty()
    }) + (if symbol { SYMBOL@ } else { Seq::empty() })
}

/// `p` holds at least one character of `class`.
pub open spec fn has_char_of(p: Seq<char>, class: Seq<char>) -> bool {
    exists|i: int| 0 <= i < p.len() && class.contains(#[trigger] p[i])
}

/// What every password generated with these settings satisfies: its length is
/// the asked length or, if that is smaller, the number of classes; each
/// character comes from an asked-for class; each asked-for class occurs.
pub open spec fn is_generated_password(
    p: Seq<char>,
    length: nat,
    upper: bool,
    lower: bool,
    digit: bool,
    symbol: bool,
) -> bool {
    let k = class_count(upper, lower, digit, symbol);
    &&& p.len() == (if length > k { length } else { k })
    &&& forall|i: int| 0 <= i < p.len() ==> pool_of(upper, lower, digit, symbol).contains(#[trigger] p[i])
    &&& upper ==> has_char_of(p, UPPER@)
    &&& lower ==> has_char_of(p, LOWER@)
    &&& digit ==> has_char_of(p, DIGIT@)
    &&& symbol ==> has_char_of(p, SYMBOL@)
}

proof fn lemma_contains_left(a: Seq<char>, b: Seq<char>, c: char)
    requires
        a.contains(c),
    ensures
        (a + b).contains(c),
{
    let i = choose|i: int| 0 <= i < a.len() && a[i] == c;
    assert((a + b)[i] == c);
}

proof fn lemma_contains_right(a: Seq<char>, b: Seq<char>, c: char)
    requires
        b.contains(c),
    ensures
        (a + b).contains(c),
{
    let i = choose|i: int| 0 <= i < b.len() && b[i] == c;
    assert((a + b)[a.len() + i] == c);
}

proof fn lemma_class_in_pool(upper: bool, lower: bool, digit: bool, symbol: bool, c: char)
    requires
        (upper && UPPER@.contains(c)) || (lower && LOWER@.contains(c)) || (digit && DIGIT@.contains(
            c,
        )) || (symbol && SYMBOL@.contains(c)),
    ensures
        pool_of(upper, lower, digit, symbol).contains(c),
{
    let u = if upper { UPPER@ } else { Seq::empty() };
    let l = if lower { LOWER@ } else { Seq::empty() };
    let d = if digit { DIGIT@ } else { Seq::empty() };
    let s = if symbol { SYMBOL@ } else { Seq::empty() };
    if upper && UPPER@.contains(c) {
        lemma_contains_left(u, l, c);
        lemma_contains_left(u + l, d, c);
        lemma_contains_left(u + l + d, s, c);
    } else if lower && LOWER@.contains(c) {
        lemma_contains_right(u, l, c);
        lemma_contains_left(u + l, d, c);
        lemma_contains_left(u + l + d, s, c);
    } else if digit && DIGIT@.contains(c) {
        lemma_contains_right(u + l, d, c);
        lemma_contains_left(u + l + d, s, c);
    } else {
        lemma_contains_right(u + l + d, s, c);
    }
}

/// Keeps the facts of a password's characters across a permutation.
proof fn lemma_permuted_keeps(a: Seq<char>, b: Seq<char>, class: Seq<char>)
    requires
        a.to_multiset() == b.to_multiset(),
        has_char_of(a, class),
    ensures
        has_char_of(b, class),
{
    broadcast use vstd::seq_lib::group_to_multiset_ensures;

    let i = choose|i: int| 0 <= i < a.len() && class.contains(#[trigger] a[i]);
    assert(a.contains(a[i]));
    assert(b.to_multiset().count(a[i]) > 0);
    assert(b.contains(a[i]));
    let j = choose|j: int| 0 <= j < b.len() && b[j] == a[i];
    assert(class.contains(b[j]));
}

proof fn lemma_last_has(p: Seq<char>, class: Seq<char>)
    requires
        p.len() > 0,
        class.contains(p.last()),
    ensures
        has_char_of(p, class),
{
    assert(class.contains(p[p.len() - 1]));
}

proof fn lemma_prefix_keeps(a: Seq<char>, b: Seq<char>, class: Seq<char>)
    requires
        a.len() <= b.len(),
        b.take(a.len() as int) == a,
    ensures
        has_char_of(a, class) ==> has_char_of(b, class),
{
    if has_char_of(a, class) {
        let i = choose|i: int| 0 <= i < a.len() && class.contains(#[trigger] a[i]);
        assert(b.take(a.len() as int)[i] == b[i]);
        assert(class.contains(b[i]));
    }
}

/// Each character drawn for a class belongs to one of the asked-for classes.
proof fn lemma_drawn_in_class(
    after_u: Seq<char>,
    after_l: Seq<char>,
    after_d: Seq<char>,
    all: Seq<char>,
    u: bool,
    l: bool,
    d: bool,
    s: bool,
    i: int,
)
    requires
        0 <= i < all.len(),
        after_u.len() == (if u { 1int } else { 0int }),
        u ==> UPPER@.contains(after_u.last()),
        after_l.len() == after_u.len() + (if l { 1int } else { 0int }),
        after_l.take(after_u.len() as int) == after_u,
        l ==> LOWER@.contains(after_l.last()),
        after_d.len() == after_l.len() + (if d { 1int } else { 0int }),
        after_d.take(after_l.len() as int) == after_l,
        d ==> DIGIT@.contains(after_d.last()),
        all.len() == after_d.len() + (if s { 1int } else { 0int }),
        all.take(after_d.len() as int) == after_d,
        s ==> SYMBOL@.contains(all.last()),
    ensures
        (u && UPPER@.contains(all[i])) || (l && LOWER@.contains(all[i])) || (d && DIGIT@.contains(
            all[i],
        )) || (s && SYMBOL@.contains(all[i])),
{
    assert(all.take(after_d.len() as int)[i] == all[i] || i >= after_d.len());
    if i >= after_d.len() {
        assert(all[i] == all.last());
    } else {
        assert(after_d[i] == all[i]);
        if i >= after_l.len() {
            assert(after_d[i] == after_d.last());
        } else {
            assert(after_d.take(after_l.len() as int)[i] == after_d[i]);
            assert(after_l[i] == all[i]);
            if i >= after_u.len() {
                assert(after_l[i] == after_l.last());
            } else {
                assert(after_l.take(after_u.len() as int)[i] == after_l[i]);
                assert(after_u[i] == all[i]);
            }
        }
    }
}

/// Draws one character of `class`, adds `class` to the pool and the drawn
/// character to the password.
fn take_class(
    class: &str,
    pool: &mut String,
    chars: &mut Vec<char>,
    rng: &mut ThreadRng,
)
    requires
        class@.len() > 0,
    ensures
        final(pool)@ == old(pool)@ + class@,
        final(chars)@.len() == old(chars)@.len() + 1,
        final(chars)@.take(old(chars)@.len() as int) == old(chars)@,
        class@.contains(final(chars)@.last()),
{
    pool.append(class);
    let c = choose_char(class, rng).unwrap();
    chars.push(c);
    assert(chars@.take(old(chars)@.len() as int) =~= old(chars)@);
}

/// Generates a password of `length` characters (at least one per asked-for
/// class) from the asked-for character classes, in random order.
pub fn process_genpass(
    length: usize,
    include_upper: bool,
    include_lower: bool,
    include_digit: bool,
    include_symbol: bool,
) -> (r: Result<String, String>)
    ensures
        r is Err <==> !(include_upper || include_lower || include_digit || include_symbol),
        r matches Err(e) ==> e@ == "no characters to choose from"@,
        r matches Ok(p) ==> is_generated_password(
            p@,
            length as nat,
            include_upper,
            include_lower,
            include_digit,
            include_symbol,
        ),
{
    let ghost (u, l, d, s) = (include_upper, include_lower, include_digit, include_symbol);
    let mut rng = thread_rng();
    let mut pool = String::new();
    let mut password_chars: Vec<char> = Vec::new();
    proof {
        reveal_strlit("ABCDEFGHJKLMNPQRSTUVWXYZ");
        reveal_strlit("abcdefghijkmnpqrstuvwxyz");
        reveal_strlit("0123456789");
        reveal_strlit("!#$%&*+-?@^_|~");
        assert(pool@ =~= Seq::<char>::empty() + Seq::<char>::empty());
    }
    let ghost pool_u = if u { UPPER@ } else { Seq::<char>::empty() };
    let ghost pool_l = if l { LOWER@ } else { Seq::<char>::empty() };
    let ghost pool_d = if d { DIGIT@ } else { Seq::<char>::empty() };
    let ghost pool_s = if s { SYMBOL@ } else { Seq::<char>::empty() };

    if include_upper {
        take_class(UPPER, &mut pool, &mut password_chars, &mut rng);
        proof {
            lemma_last_has(password_chars@, UPPER@);
        }
    }
    proof {
        assert(pool@ =~= pool_u);
    }
    let ghost after_u = password_chars@;
    if include_lower {
        take_class(LOWER, &mut pool, &mut password_chars, &mut rng);
        proof {
            lemma_last_has(password_chars@, LOWER@);
            lemma_prefix_keeps(after_u, password_chars@, UPPER@);
        }
    }
    proof {
        assert(pool@ =~= pool_u + pool_l);
    }
    let ghost after_l = password_chars@;
    assert(after_l.take(after_u.len() as int) =~= after_u);
    if include_digit {
        take_class(DIGIT, &mut pool, &mut password_chars, &mut rng);
        proof {
            lemma_last_has(password_chars@, DIGIT@);
            lemma_prefix_keeps(after_l, password_chars@, UPPER@);
            lemma_prefix_keeps(after_l, password_chars@, LOWER@);
        }
    }
    proof {
        assert(pool@ =~= pool_u + pool_l + pool_d);
    }
    let ghost after_d = password_chars@;
    assert(after_d.take(after_l.len() as int) =~= after_l);
    if include_symbol {
        take_class(SYMBOL, &mut pool, &mut password_chars, &mut rng);
        proof {
            lemma_last_has(password_chars@, SYMBOL@);
            lemma_prefix_keeps(after_d, password_chars@, UPPER@);
            lemma_prefix_keeps(after_d, password_chars@, LOWER@);
            lemma_prefix_keeps(after_d, password_chars@, DIGIT@);
        }
    }
    proof {
        assert(pool@ =~= pool_of(u, l, d, s));
        assert(password_chars@.take(after_d.len() as int) =~= after_d);
    }
    if pool.as_str().is_empty() {
        return Err(String::from_str("no characters to choose from"));
    }
    proof {
        assert forall|i: int| 0 <= i < password_chars@.len() implies pool_of(u, l, d, s).contains(
            #[trigger] password_chars@[i],
        ) by {
            let c = password_chars@[i];
            lemma_drawn_in_class(after_u, after_l, after_d, password_chars@, u, l, d, s, i);
            lemma_class_in_pool(u, l, d, s, c);
        }
    }
    while password_chars.len() < length
        invariant
            pool@ == pool_of(u, l, d, s),
            pool@.len() > 0,
            password_chars@.len() >= class_count(u, l, d, s),
            password_chars@.len() <= (if length > class_count(u, l, d, s) {
                length as nat
            } else {
                class_count(u, l, d, s)
            }),
            forall|i: int|
                0 <= i < password_chars@.len() ==> pool_of(u, l, d, s).contains(
                    #[trigger] password_chars@[i],
                ),
            u ==> has_char_of(password_chars@, UPPER@),
            l ==> has_char_of(password_chars@, LOWER@),
            d ==> has_char_of(password_chars@, DIGIT@),
            s ==> has_char_of(password_chars@, SYMBOL@),
        decreases length - password_chars@.len(),
    {
        let c = choose_char(pool.as_str(), &mut rng).unwrap();
        let ghost before = password_chars@;
        password_chars.push(c);
        proof {
            assert(password_chars@ == before.push(c));
            assert(before.push(c).take(before.len() as int) =~= before);
            lemma_prefix_keeps(before, password_chars@, UPPER@);
            lemma_prefix_keeps(before, password_chars@, LOWER@);
            lemma_prefix_keeps(before, password_chars@, DIGIT@);
            lemma_prefix_keeps(before, password_chars@, SYMBOL@);
        }
    }
    let ghost unshuffled = password_chars@;
    shuffle_chars(&mut password_chars, &mut rng);
    proof {
        broadcast use vstd::seq_lib::group_to_multiset_ensures;

        if u {
            lemma_permuted_keeps(unshuffled, password_chars@, UPPER@);
        }
        if l {
            lemma_permuted_keeps(unshuffled, password_chars@, LOWER@);
        }
        if d {
            lemma_permuted_keeps(unshuffled, password_chars@, DIGIT@);
        }
        if s {
            lemma_permuted_keeps(unshuffled, password_chars@, SYMBOL@);
        }
        assert(password_chars@.len() == password_chars@.to_multiset().len());
        assert forall|i: int| 0 <= i < password_chars@.len() implies pool_of(u, l, d, s).contains(
            #[trigger] password_chars@[i],
        ) by {
            let c = password_chars@[i];
            assert(password_chars@.contains(c));
            assert(unshuffled.to_multiset().count(c) > 0);
            assert(unshuffled.contains(c));
            let j = choose|j: int| 0 <= j < unshuffled.len() && unshuffled[j] == c;
            assert(pool_of(u, l, d, s).contains(unshuffled[j]));
        }
    }
    let password = string_of(password_chars.as_slice());
    Ok(password)
}

} // verus!
