use vstd::prelude::*;
use vstd::arithmetic::div_mod::{
    lemma_add_mod_noop, lemma_mod_sub_multiples_vanish, lemma_small_mod,
};
use vstd::seq_lib::group_to_multiset_ensures;
use crate::codec::SemanticType;

verus! {

/// The plain integer sum of a sequence of plaintext values.
pub open spec fn spec_sum(s: Seq<u64>) -> int
    decreases s.len(),
{
    if s.len() == 0 {
        0
    } else {
        spec_sum(s.drop_last()) + s.last()
    }
}

/// What an aggregation over these plaintexts reports: their sum, wrapped
/// at the semantic type's modulus. The engine's combine operation realizes
/// exactly this on the plaintexts under the ciphertexts.
pub open spec fn spec_wrapped_sum(s: Seq<u64>, st: SemanticType) -> int {
    spec_sum(s) % st.spec_modulus()
}

/// The reference semantics of the engine's combine operation: fold the
/// plaintexts with addition, wrapping at the semantic type's modulus.
/// What an aggregation's result decrypts to is exactly this value over
/// the plaintexts under its input ciphertexts.
pub fn wrapping_sum(values: &Vec<u64>, stype: SemanticType) -> (r: u64)
    ensures
        r as int == spec_wrapped_sum(values@, stype),
        (r as int) < stype.spec_modulus(),
{
    let ghost m = stype.spec_modulus();
    let mut acc: u64 = 0;
    let mut i: usize = 0;
    proof {
        lemma_small_mod(0, m as nat);
        assert(values@.take(0) =~= Seq::<u64>::empty());
    }
    while i < values.len()
        invariant
            m == stype.spec_modulus(),
            i <= values@.len(),
            acc as int == spec_wrapped_sum(values@.take(i as int), stype),
            acc < m,
        decreases values@.len() - i,
    {
        let v = values[i];
        let ghost s = spec_sum(values@.take(i as int));
        let next: u64 = match stype {
            SemanticType::Uint8 => (acc + v % 256) % 256,
            SemanticType::Uint64 => acc.wrapping_add(v),
        };
        proof {
            assert(values@.take(i + 1).drop_last() =~= values@.take(i as int));
            assert(spec_sum(values@.take(i + 1)) == s + v);
            lemma_add_mod_noop(s, v as int, m);
            if stype is Uint64 {
                lemma_small_mod(v as nat, m as nat);
                if acc + v <= u64::MAX {
                    lemma_small_mod((acc + v) as nat, m as nat);
                } else {
                    lemma_mod_sub_multiples_vanish(acc as int + v as int, m);
                    lemma_small_mod((acc + v - m) as nat, m as nat);
                }
            }
        }
        acc = next;
        i = i + 1;
    }
    proof {
        assert(values@.take(values@.len() as int) =~= values@);
    }
    acc
}

/// Removing one element takes exactly its value out of the sum.
pub proof fn lemma_sum_remove(s: Seq<u64>, i: int)
    requires
        0 <= i < s.len(),
    ensures
        spec_sum(s.remove(i)) == spec_sum(s) - s[i],
    decreases s.len(),
{
    if i == s.len() - 1 {
        assert(s.remove(i) =~= s.drop_last());
    } else {
        let s2 = s.remove(i);
        assert(s2.drop_last() =~= s.drop_last().remove(i));
        assert(s2.last() == s.last());
        lemma_sum_remove(s.drop_last(), i);
    }
}

/// The sum of a sequence depends only on which values it holds, not on
/// their order: two sequences with the same multiset of values have the
/// same sum.
pub proof fn lemma_sum_permutation(s: Seq<u64>, t: Seq<u64>)
    requires
        s.to_multiset() == t.to_multiset(),
    ensures
        spec_sum(s) == spec_sum(t),
    decreases s.len(),
{
    broadcast use group_to_multiset_ensures;

    if s.len() == 0 {
        assert(t.to_multiset().len() == 0);
        assert(t.len() == 0);
    } else {
        let x = s.last();
        assert(s[s.len() - 1] == x);
        assert(s.contains(x));
        assert(t.to_multiset().count(x) > 0);
        assert(t.contains(x));
        let j = choose|j: int| 0 <= j < t.len() && t[j] == x;
        lemma_sum_remove(t, j);
        assert(s.drop_last() =~= s.remove(s.len() - 1));
        assert(s.drop_last().to_multiset() == s.to_multiset().remove(x));
        assert(t.remove(j).to_multiset() == t.to_multiset().remove(x));
        lemma_sum_permutation(s.drop_last(), t.remove(j));
    }
}

/// Combining a sequence of ciphertexts in any permuted order yields a
/// result that stands for the same plaintext: the wrapped sum is invariant
/// under permutation.
pub proof fn lemma_wrapped_sum_permutation(s: Seq<u64>, t: Seq<u64>, st: SemanticType)
    requires
        s.to_multiset() == t.to_multiset(),
    ensures
        spec_wrapped_sum(s, st) == spec_wrapped_sum(t, st),
{
    lemma_sum_permutation(s, t);
}

} // verus!
