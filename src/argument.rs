//! The permutation argument: the product of `(challenge - x)` over a
//! committed sequence, and the facts about it that make comparing two such
//! products a test of multiset equality.
use vstd::prelude::*;
use vstd::seq_lib::group_to_multiset_ensures;
use crate::field::{fe_eq, fe_from_u64, fe_mul, fe_sub, is_repr, le_value, modulus, reduce};

verus! {

/// `(c - s[0]) * (c - s[1]) * ... * (c - s[n-1])` over the integers; the
/// empty product is 1.
pub open spec fn poly_at(s: Seq<int>, c: int) -> int
    decreases s.len(),
{
    if s.len() == 0 {
        1
    } else {
        poly_at(s.drop_last(), c) * (c - s.last())
    }
}

/// The same product taken in the field.
pub open spec fn field_product(s: Seq<int>, c: int) -> int {
    reduce(poly_at(s, c))
}

/// The permutation claim between `a` and `b` holds at the challenge `c`.
pub open spec fn claim_holds(a: Seq<int>, b: Seq<int>, c: int) -> bool {
    field_product(a, c) == field_product(b, c)
}

/// Every cell holds the canonical representation of a field element.
pub open spec fn is_cells(cells: Seq<[u8; 32]>) -> bool {
    forall|i: int| 0 <= i < cells.len() ==> is_repr(#[trigger] cells[i]@)
}

/// The field values held by the cells.
pub open spec fn cell_values(cells: Seq<[u8; 32]>) -> Seq<int> {
    cells.map_values(|b: [u8; 32]| le_value(b@))
}

/// `s` with its entries at `i` and `j` exchanged.
pub open spec fn swap(s: Seq<int>, i: int, j: int) -> Seq<int> {
    s.update(i, s[j]).update(j, s[i])
}

/// Taking one factor out of the product.
proof fn lemma_poly_at_remove(s: Seq<int>, i: int, c: int)
    requires
        0 <= i < s.len(),
    ensures
        poly_at(s, c) == poly_at(s.remove(i), c) * (c - s[i]),
    decreases s.len(),
{
    if i == s.len() - 1 {
        assert(s.remove(i) =~= s.drop_last());
    } else {
        let d = s.drop_last();
        lemma_poly_at_remove(d, i, c);
        assert(s.remove(i).drop_last() =~= d.remove(i));
        let p = poly_at(d.remove(i), c);
        let x = c - s[i];
        let y = c - s.last();
        assert((p * x) * y == (p * y) * x) by (nonlinear_arith);
    }
}

/// Sequences that hold the same values with the same multiplicities have
/// the same product at every point.
pub proof fn lemma_multiset_equal_products(a: Seq<int>, b: Seq<int>, c: int)
    requires
        a.to_multiset() == b.to_multiset(),
    ensures
        poly_at(a, c) == poly_at(b, c),
    decreases a.len(),
{
    broadcast use group_to_multiset_ensures;

    if a.len() == 0 {
        a.to_multiset_ensures();
        b.to_multiset_ensures();
        assert(b.len() == 0);
        assert(b =~= Seq::<int>::empty());
    } else {
        let x = a.last();
        let d = a.drop_last();
        assert(a =~= d.push(x));
        assert(a.contains(x)) by {
            assert(a[a.len() - 1] == x);
        };
        assert(a.to_multiset().count(x) > 0);
        assert(b.to_multiset().count(x) > 0);
        assert(b.contains(x));
        let j = choose|j: int| 0 <= j < b.len() && b[j] == x;
        lemma_poly_at_remove(b, j, c);
        assert(d.to_multiset() =~= b.remove(j).to_multiset());
        lemma_multiset_equal_products(d, b.remove(j), c);
    }
}

/// Computes the product of `(challenge - x)` over the committed cells, in
/// the field.
pub fn product(cells: &Vec<[u8; 32]>, challenge: &[u8; 32]) -> (r: [u8; 32])
    requires
        is_cells(cells@),
        is_repr(challenge@),
    ensures
        is_repr(r@),
        le_value(r@) == field_product(cell_values(cells@), le_value(challenge@)),
{
    let ghost c = le_value(challenge@);
    let ghost vals = cell_values(cells@);
    let mut acc = fe_from_u64(1);
    proof {
        vstd::arithmetic::div_mod::lemma_small_mod(1, modulus() as nat);
        assert(vals.take(0) =~= Seq::<int>::empty());
    }
    let n = cells.len();
    let mut i: usize = 0;
    while i < n
        invariant
            n == cells@.len(),
            vals == cell_values(cells@),
            0 <= i <= n,
            is_cells(cells@),
            is_repr(challenge@),
            c == le_value(challenge@),
            is_repr(acc@),
            le_value(acc@) == field_product(vals.take(i as int), c),
        decreases n - i,
    {
        let term = fe_sub(challenge, &cells[i]);
        let next = fe_mul(&acc, &term);
        proof {
            let s = vals.take(i as int + 1);
            assert(s.drop_last() =~= vals.take(i as int));
            let p = poly_at(vals.take(i as int), c);
            let t = c - vals[i as int];
            vstd::arithmetic::div_mod::lemma_mul_mod_noop(p, t, modulus());
            vstd::arithmetic::div_mod::lemma_mod_twice(t, modulus());
            vstd::arithmetic::div_mod::lemma_mod_twice(p, modulus());
        }
        acc = next;
        i = i + 1;
    }
    assert(vals.take(n as int) =~= vals);
    acc
}

/// Evaluates the permutation claim between two committed sequences at one
/// challenge: the products over both must agree in the field.
pub fn evaluate(a: &Vec<[u8; 32]>, b: &Vec<[u8; 32]>, challenge: &[u8; 32]) -> (r: bool)
    requires
        is_cells(a@),
        is_cells(b@),
        is_repr(challenge@),
    ensures
        r == claim_holds(cell_values(a@), cell_values(b@), le_value(challenge@)),
{
    let pa = product(a, challenge);
    let pb = product(b, challenge);
    fe_eq(&pa, &pb)
}

/// Completeness: when `b` is a rearrangement of `a`, the claim holds at
/// every challenge.
pub proof fn lemma_permutation_claim_holds(a: Seq<int>, b: Seq<int>, c: int)
    requires
        a.to_multiset() == b.to_multiset(),
    ensures
        claim_holds(a, b, c),
{
    lemma_multiset_equal_products(a, b, c);
}

/// Exchanging two entries of either sequence does not change whether the
/// claim holds, at any challenge.
pub proof fn lemma_swap_keeps_claim(a: Seq<int>, b: Seq<int>, i: int, j: int, c: int)
    requires
        0 <= i < a.len(),
        0 <= j < a.len(),
    ensures
        claim_holds(swap(a, i, j), b, c) == claim_holds(a, b, c),
        claim_holds(b, swap(a, i, j), c) == claim_holds(b, a, c),
{
    broadcast use vstd::seq_lib::to_multiset_update;
    broadcast use vstd::multiset::group_multiset_axioms;

    let t = a.update(i, a[j]);
    let s = swap(a, i, j);
    assert(t[j] == a[j]);
    assert(t.to_multiset() == a.to_multiset().insert(a[j]).remove(a[i]));
    assert(s.to_multiset() == t.to_multiset().insert(a[i]).remove(a[j]));
    assert(a.to_multiset().count(a[i]) > 0) by {
        broadcast use group_to_multiset_ensures;

        assert(a.contains(a[i]));
    };
    assert(s.to_multiset() =~= a.to_multiset());
    lemma_multiset_equal_products(s, a, c);
}

/// Two empty sequences: both products are the empty product, so the claim
/// holds at every challenge.
pub proof fn lemma_empty_claim_holds(c: int)
    ensures
        claim_holds(Seq::<int>::empty(), Seq::<int>::empty(), c),
        field_product(Seq::<int>::empty(), c) == 1,
{
    assert(poly_at(Seq::<int>::empty(), c) == 1);
    vstd::arithmetic::div_mod::lemma_small_mod(1, modulus() as nat);
}

/// Replacing the entry at `i` by `y` changes the product by the factor
/// `(c - y) / (c - s[i])`: the two products, crossed with those factors,
/// agree at every point.
pub proof fn lemma_tamper_scales_product(s: Seq<int>, i: int, y: int, c: int)
    requires
        0 <= i < s.len(),
    ensures
        poly_at(s.update(i, y), c) * (c - s[i]) == poly_at(s, c) * (c - y),
{
    let t = s.update(i, y);
    lemma_poly_at_remove(s, i, c);
    lemma_poly_at_remove(t, i, c);
    assert(t.remove(i) =~= s.remove(i));
    let p = poly_at(s.remove(i), c);
    let u = c - s[i];
    let v = c - y;
    assert((p * v) * u == (p * u) * v) by (nonlinear_arith);
}

/// Tampering with one entry of `b`: the claim can hold at `c` both before
/// and after the change only where `(y - b[i])` times the product over `a`
/// is zero in the field.
pub proof fn lemma_tamper_needs_root(a: Seq<int>, b: Seq<int>, i: int, y: int, c: int)
    requires
        0 <= i < b.len(),
        claim_holds(a, b, c),
        claim_holds(a, b.update(i, y), c),
    ensures
        reduce(poly_at(a, c) * (y - b[i])) == 0,
{
    let m = modulus();
    let pa = poly_at(a, c);
    let pb = poly_at(b, c);
    let pt = poly_at(b.update(i, y), c);
    let u = c - b[i];
    let v = c - y;
    lemma_tamper_scales_product(b, i, y, c);
    vstd::arithmetic::div_mod::lemma_mul_mod_noop_left(pa, u, m);
    vstd::arithmetic::div_mod::lemma_mul_mod_noop_left(pt, u, m);
    vstd::arithmetic::div_mod::lemma_mul_mod_noop_left(pa, v, m);
    vstd::arithmetic::div_mod::lemma_mul_mod_noop_left(pb, v, m);
    assert((pa * u) % m == (pa * v) % m);
    vstd::arithmetic::div_mod::lemma_mod_equivalence(pa * u, pa * v, m);
    assert(pa * u - pa * v == pa * (y - b[i])) by (nonlinear_arith)
        requires
            u == c - b[i],
            v == c - y,
    ;
}

} // verus!
