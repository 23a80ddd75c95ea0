use vstd::prelude::*;

verus! {

/// The membership polynomial of one gate, evaluated at `v`:
/// `v * (m_0 - v) * (m_1 - v) * ... * (m_k - v)` over the section's
/// allowed bytes `m_0 .. m_k`, widened to unbounded integers. A gate of
/// a section constrains a witnessed value to be a root of this polynomial
/// wherever that section's selector is enabled.
pub open spec fn membership_poly(allowed: Seq<u8>, v: int) -> int
    decreases allowed.len(),
{
    if allowed.len() == 0 {
        v
    } else {
        membership_poly(allowed.drop_last(), v) * (allowed.last() as int - v)
    }
}

/// A witnessed value a section's gate accepts: the sentinel zero, a root of
/// the membership polynomial, or one of the section's allowed bytes.
pub open spec fn row_ok(allowed: Seq<u8>, v: u64) -> bool {
    v == 0 || exists|j: int| 0 <= j < allowed.len() && #[trigger] allowed[j] as u64 == v
}

/// Law: a value is a root of a section's membership polynomial exactly
/// when it is zero or a member of the section's allowed set. A nonzero
/// value outside the set violates its gate; a member, or the sentinel
/// zero, satisfies it.
pub proof fn lemma_membership_poly_zero(allowed: Seq<u8>, v: int)
    ensures
        membership_poly(allowed, v) == 0 <==> (v == 0 || exists|j: int|
            0 <= j < allowed.len() && #[trigger] allowed[j] as int == v),
    decreases allowed.len(),
{
    if allowed.len() == 0 {
    } else {
        let prefix = allowed.drop_last();
        let last = allowed.last() as int;
        lemma_membership_poly_zero(prefix, v);
        let a = membership_poly(prefix, v);
        assert(a * (last - v) == 0 <==> (a == 0 || last - v == 0)) by (nonlinear_arith);
        if membership_poly(allowed, v) == 0 {
            if a == 0 {
                if v != 0 {
                    let j = choose|j: int| 0 <= j < prefix.len() && #[trigger] prefix[j] as int
                        == v;
                    assert(allowed[j] as int == v);
                }
            } else {
                assert(allowed[allowed.len() - 1] as int == v);
            }
        } else {
            if v != 0 {
                if exists|j: int| 0 <= j < allowed.len() && #[trigger] allowed[j] as int == v {
                    let j = choose|j: int| 0 <= j < allowed.len() && #[trigger] allowed[j] as int
                        == v;
                    if j < prefix.len() {
                        assert(prefix[j] as int == v);
                    }
                }
            }
        }
    }
}

/// The polynomial reading of `row_ok`: for values that fit the witnessed
/// encoding of a byte run, acceptance by the membership polynomial is the
/// same as `row_ok`.
pub proof fn lemma_row_ok_is_poly_root(allowed: Seq<u8>, v: u64)
    ensures
        row_ok(allowed, v) <==> membership_poly(allowed, v as int) == 0,
{
    lemma_membership_poly_zero(allowed, v as int);
    if exists|j: int| 0 <= j < allowed.len() && #[trigger] allowed[j] as u64 == v {
        let j = choose|j: int| 0 <= j < allowed.len() && #[trigger] allowed[j] as u64 == v;
        assert(allowed[j] as int == v as int);
    }
    if exists|j: int| 0 <= j < allowed.len() && #[trigger] allowed[j] as int == v as int {
        let j = choose|j: int| 0 <= j < allowed.len() && #[trigger] allowed[j] as int == v as int;
        assert(allowed[j] as u64 == v);
    }
}

/// Decides whether a witnessed value satisfies one section's gate: true
/// for the sentinel zero and for every member of the section's allowed
/// set, false for anything else — exactly the roots of the membership
/// polynomial.
pub fn row_satisfied(allowed: &Vec<u8>, v: u64) -> (r: bool)
    ensures
        r == row_ok(allowed@, v),
        r == (membership_poly(allowed@, v as int) == 0),
{
    proof {
        lemma_row_ok_is_poly_root(allowed@, v);
    }
    if v == 0 {
        return true;
    }
    let n = allowed.len();
    let mut j: usize = 0;
    while j < n
        invariant
            j <= n == allowed@.len(),
            forall|t: int| 0 <= t < j ==> #[trigger] allowed@[t] as u64 != v,
            row_ok(allowed@, v) <==> membership_poly(allowed@, v as int) == 0,
        decreases n - j,
    {
        if allowed[j] as u64 == v {
            return true;
        }
        j = j + 1;
    }
    proof {
        lemma_row_ok_is_poly_root(allowed@, v);
    }
    false
}

} // verus!
