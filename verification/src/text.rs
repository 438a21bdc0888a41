//! Text helpers: equality and the order in which task names are kept.

use vstd::prelude::*;

verus! {

/// `a` and `b` both have at least `n` characters and agree on the first `n`.
pub open spec fn agree_upto(a: Seq<char>, b: Seq<char>, n: int) -> bool {
    &&& 0 <= n <= a.len()
    &&& n <= b.len()
    &&& forall|j: int| 0 <= j < n ==> a[j] == b[j]
}

/// `a` and `b` part ways at position `n`, where `a` is the smaller: either `a`
/// ends there while `b` goes on, or `a` has the smaller character there.
pub open spec fn parts_below_at(a: Seq<char>, b: Seq<char>, n: int) -> bool {
    &&& agree_upto(a, b, n)
    &&& n < b.len()
    &&& (n == a.len() || (a[n] as int) < (b[n] as int))
}

/// The order of `String`s: lexicographic by code point, a proper prefix first.
pub open spec fn text_lt(a: Seq<char>, b: Seq<char>) -> bool {
    exists|n: int| #[trigger] parts_below_at(a, b, n)
}

/// No text comes before itself.
pub proof fn lemma_text_lt_irreflexive(a: Seq<char>)
    ensures
        !text_lt(a, a),
{
}

/// The order on text is transitive.
pub proof fn lemma_text_lt_transitive(a: Seq<char>, b: Seq<char>, c: Seq<char>)
    requires
        text_lt(a, b),
        text_lt(b, c),
    ensures
        text_lt(a, c),
{
    let i = choose|i: int| parts_below_at(a, b, i);
    let j = choose|j: int| parts_below_at(b, c, j);
    if i < j {
        assert(parts_below_at(a, c, i));
    } else if j < i {
        assert(parts_below_at(a, c, j));
    } else {
        assert(parts_below_at(a, c, i));
    }
}

/// The order on text is total: of two different texts one comes first.
pub proof fn lemma_text_lt_total(a: Seq<char>, b: Seq<char>)
    requires
        a != b,
    ensures
        text_lt(a, b) || text_lt(b, a),
{
    lemma_first_difference(a, b, 0);
}

proof fn lemma_first_difference(a: Seq<char>, b: Seq<char>, n: int)
    requires
        a != b,
        agree_upto(a, b, n),
    ensures
        text_lt(a, b) || text_lt(b, a),
    decreases a.len() - n,
{
    if n == a.len() && n == b.len() {
        assert(a =~= b);
    } else if n == a.len() {
        assert(parts_below_at(a, b, n));
    } else if n == b.len() {
        assert(parts_below_at(b, a, n));
    } else if a[n] != b[n] {
        if (a[n] as int) < (b[n] as int) {
            assert(parts_below_at(a, b, n));
        } else {
            assert(parts_below_at(b, a, n));
        }
    } else {
        lemma_first_difference(a, b, n + 1);
    }
}

/// Whether two texts are the same, character by character.
pub fn text_eq(a: &str, b: &str) -> (r: bool)
    ensures
        r == (a@ == b@),
{
    let n = a.unicode_len();
    if n != b.unicode_len() {
        return false;
    }
    let mut i: usize = 0;
    while i < n
        invariant
            n == a@.len(),
            n == b@.len(),
            i <= n,
            forall|j: int| 0 <= j < i ==> a@[j] == b@[j],
        decreases n - i,
    {
        if a.get_char(i) != b.get_char(i) {
            return false;
        }
        i = i + 1;
    }
    assert(a@ =~= b@);
    true
}

/// Whether `a` comes before `b` in the order of `String`s.
pub fn text_less(a: &str, b: &str) -> (r: bool)
    ensures
        r == text_lt(a@, b@),
{
    let na = a.unicode_len();
    let nb = b.unicode_len();
    let mut i: usize = 0;
    while i < na && i < nb
        invariant
            na == a@.len(),
            nb == b@.len(),
            agree_upto(a@, b@, i as int),
        decreases na - i,
    {
        let ca = a.get_char(i);
        let cb = b.get_char(i);
        if ca != cb {
            let r = (ca as u32) < (cb as u32);
            proof {
                if r {
                    assert(parts_below_at(a@, b@, i as int));
                } else {
                    assert forall|n: int| !parts_below_at(a@, b@, n) by {
                        if parts_below_at(a@, b@, n) && n > i {
                            assert(a@[i as int] == b@[i as int]);
                        }
                    }
                }
            }
            return r;
        }
        i = i + 1;
    }
    let r = na < nb;
    proof {
        if r {
            assert(parts_below_at(a@, b@, i as int));
        } else {
            assert forall|n: int| !parts_below_at(a@, b@, n) by {}
        }
    }
    r
}

/// A copy of a list of texts.
pub fn copy_texts(v: &Vec<String>) -> (r: Vec<String>)
    ensures
        r.deep_view() == v.deep_view(),
{
    let mut r: Vec<String> = Vec::new();
    let n = v.len();
    let mut i: usize = 0;
    while i < n
        invariant
            n == v.len(),
            i <= n,
            r@.len() == i,
            r.deep_view() == v.deep_view().take(i as int),
        decreases n - i,
    {
        r.push(v[i].clone());
        assert(r@[i as int]@ == v@[i as int]@);
        assert(r.deep_view() =~= v.deep_view().take(i + 1));
        i = i + 1;
    }
    assert(v.deep_view().take(n as int) =~= v.deep_view());
    r
}

} // verus!
