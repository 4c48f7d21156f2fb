//! The lexicographic order of character strings, and string vectors kept
//! strictly sorted in it, which serve as ordered sets of names.

use vstd::prelude::*;
use crate::text::str_eq;

verus! {

/// `a` sorts strictly before `b`: characters are compared by code point from
/// the left, and a proper prefix sorts first. This is the order of `str`
/// (byte-wise UTF-8 order and code-point order agree).
pub open spec fn str_before(a: Seq<char>, b: Seq<char>) -> bool
    decreases a.len(),
{
    if a.len() == 0 {
        b.len() > 0
    } else if b.len() == 0 {
        false
    } else if a[0] != b[0] {
        (a[0] as u32) < (b[0] as u32)
    } else {
        str_before(a.drop_first(), b.drop_first())
    }
}

/// No string sorts before itself.
pub proof fn lemma_before_irreflexive(a: Seq<char>)
    ensures
        !str_before(a, a),
    decreases a.len(),
{
    if a.len() > 0 {
        lemma_before_irreflexive(a.drop_first());
    }
}

/// Of two strings at most one sorts before the other.
pub proof fn lemma_before_asymmetric(a: Seq<char>, b: Seq<char>)
    requires
        str_before(a, b),
    ensures
        !str_before(b, a),
    decreases a.len(),
{
    if a.len() > 0 && b.len() > 0 && a[0] == b[0] {
        lemma_before_asymmetric(a.drop_first(), b.drop_first());
    }
}

/// Of two different strings one sorts before the other.
pub proof fn lemma_before_total(a: Seq<char>, b: Seq<char>)
    requires
        a != b,
    ensures
        str_before(a, b) || str_before(b, a),
    decreases a.len(),
{
    if a.len() == 0 && b.len() == 0 {
        assert(a =~= b);
    } else if a.len() > 0 && b.len() > 0 && a[0] == b[0] {
        if a.drop_first() == b.drop_first() {
            assert(a.drop_first().len() == b.drop_first().len());
            assert forall|i: int| 0 <= i < a.len() implies a[i] == b[i] by {
                if i > 0 {
                    assert(a[i] == a.drop_first()[i - 1]);
                    assert(b[i] == b.drop_first()[i - 1]);
                }
            }
            assert(a =~= b);
        } else {
            lemma_before_total(a.drop_first(), b.drop_first());
        }
    } else if a.len() > 0 && b.len() > 0 {
        vstd::utf8::char_u32_cast(a[0], a[0] as u32);
        vstd::utf8::char_u32_cast(b[0], b[0] as u32);
    }
}

/// The order is transitive.
pub proof fn lemma_before_transitive(a: Seq<char>, b: Seq<char>, c: Seq<char>)
    requires
        str_before(a, b),
        str_before(b, c),
    ensures
        str_before(a, c),
    decreases a.len(),
{
    if a.len() > 0 && b.len() > 0 && c.len() > 0 && a[0] == b[0] && b[0] == c[0] {
        lemma_before_transitive(a.drop_first(), b.drop_first(), c.drop_first());
    }
}

/// Whether `a` sorts strictly before `b` (see `str_before`).
pub fn str_less(a: &str, b: &str) -> (r: bool)
    ensures
        r == str_before(a@, b@),
{
    let n = a.unicode_len();
    let m = b.unicode_len();
    let mut i: usize = 0;
    assert(a@.skip(0) =~= a@);
    assert(b@.skip(0) =~= b@);
    while i < n && i < m
        invariant
            n == a@.len(),
            m == b@.len(),
            i <= n,
            i <= m,
            str_before(a@, b@) == str_before(a@.skip(i as int), b@.skip(i as int)),
        decreases n - i,
    {
        let x = a.get_char(i);
        let y = b.get_char(i);
        assert(a@.skip(i as int)[0] == x);
        assert(b@.skip(i as int)[0] == y);
        if x != y {
            return (x as u32) < (y as u32);
        }
        assert(a@.skip(i as int).drop_first() =~= a@.skip(i + 1));
        assert(b@.skip(i as int).drop_first() =~= b@.skip(i + 1));
        i = i + 1;
    }
    i == n && i < m
}

/// The characters of each string of `v`.
pub open spec fn views<'a>(v: Seq<&'a str>) -> Seq<Seq<char>> {
    v.map_values(|s: &'a str| s@)
}

/// Every string sorts strictly before each later one.
pub open spec fn strictly_sorted(s: Seq<Seq<char>>) -> bool {
    forall|i: int, j: int| 0 <= i < j < s.len() ==> str_before(s[i], s[j])
}

/// A strictly sorted sequence holds no string twice.
pub proof fn lemma_sorted_no_duplicates(s: Seq<Seq<char>>)
    requires
        strictly_sorted(s),
    ensures
        s.no_duplicates(),
        s.to_set().len() == s.len(),
{
    assert forall|i: int, j: int| 0 <= i < s.len() && 0 <= j < s.len() && i != j implies s[i]
        != s[j] by {
        lemma_before_irreflexive(s[i]);
    }
    s.unique_seq_to_set();
}

/// Whether some string of `v` has the characters of `s`.
pub fn contains_str(v: &Vec<&'static str>, s: &str) -> (r: bool)
    ensures
        r == views(v@).contains(s@),
{
    let mut i: usize = 0;
    while i < v.len()
        invariant
            i <= v.len(),
            forall|j: int| 0 <= j < i ==> v@[j]@ != s@,
        decreases v.len() - i,
    {
        if str_eq(v[i], s) {
            assert(views(v@)[i as int] == s@);
            return true;
        }
        i = i + 1;
    }
    assert forall|j: int| 0 <= j < views(v@).len() implies views(v@)[j] != s@ by {
        assert(views(v@)[j] == v@[j]@);
    }
    false
}

/// The first position of sorted `v` whose string does not sort before `s`.
fn lower_bound(v: &Vec<&'static str>, s: &str) -> (k: usize)
    ensures
        k <= v.len(),
        forall|j: int| 0 <= j < k ==> str_before(v@[j]@, s@),
        k < v.len() ==> !str_before(v@[k as int]@, s@),
{
    let mut k: usize = 0;
    while k < v.len()
        invariant
            k <= v.len(),
            forall|j: int| 0 <= j < k ==> str_before(v@[j]@, s@),
        decreases v.len() - k,
    {
        if !str_less(v[k], s) {
            return k;
        }
        k = k + 1;
    }
    k
}

/// Add `s` to the sorted set `v`: nothing changes where it is already there,
/// else it goes in at its place in the order.
pub fn insert_sorted(v: &mut Vec<&'static str>, s: &'static str)
    requires
        strictly_sorted(views(old(v)@)),
    ensures
        strictly_sorted(views(final(v)@)),
        views(final(v)@).to_set() == views(old(v)@).to_set().insert(s@),
{
    let ghost old_v = views(v@);
    let k = lower_bound(v, s);
    if k < v.len() && str_eq(v[k], s) {
        assert(old_v[k as int] == s@);
        assert(old_v.to_set().insert(s@) =~= old_v.to_set());
        return;
    }
    proof {
        if k < old_v.len() {
            assert(old_v[k as int] == v@[k as int]@);
            lemma_before_total(old_v[k as int], s@);
        }
    }
    v.insert(k, s);
    let ghost new_v = views(v@);
    assert(new_v =~= old_v.insert(k as int, s@));
    assert forall|i: int, j: int| 0 <= i < j < new_v.len() implies str_before(
        new_v[i],
        new_v[j],
    ) by {
        if j < k {
        } else if j == k {
            assert(new_v[i] == old_v[i]);
            assert(old_v[i] == old(v)@[i]@);
        } else if i < k {
            assert(new_v[i] == old_v[i]);
            assert(new_v[j] == old_v[j - 1]);
        } else if i == k {
            assert(new_v[j] == old_v[j - 1]);
            if j - 1 > k {
                lemma_before_transitive(s@, old_v[k as int], old_v[j - 1]);
            }
        } else {
            assert(new_v[i] == old_v[i - 1]);
            assert(new_v[j] == old_v[j - 1]);
        }
    }
    assert forall|x: Seq<char>| new_v.to_set().contains(x) <==> old_v.to_set().insert(
        s@,
    ).contains(x) by {
        if new_v.contains(x) {
            let i = choose|i: int| 0 <= i < new_v.len() && new_v[i] == x;
            if i < k {
                assert(old_v[i] == x);
            } else if i > k {
                assert(old_v[i - 1] == x);
            }
        }
        if old_v.contains(x) {
            let i = choose|i: int| 0 <= i < old_v.len() && old_v[i] == x;
            if i < k {
                assert(new_v[i] == x);
            } else {
                assert(new_v[i + 1] == x);
            }
        }
        if x == s@ {
            assert(new_v[k as int] == x);
        }
    }
    assert(new_v.to_set() =~= old_v.to_set().insert(s@));
}

} // verus!
