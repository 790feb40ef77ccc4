//! Reconciliation of the compiler's debug metadata: inverting the
//! statement-to-offset mapping into a generated-instruction index keyed
//! map of statement indices.

use vstd::prelude::*;
use std::collections::HashMap;

verus! {

broadcast use vstd::std_specs::hash::group_hash_axioms;

/// Debug metadata for one intermediate statement: the offset, relative to
/// the start of the generated-code body, of the instruction it lowers into.
/// A statement's index is its position in the owning sequence.
#[derive(Clone, Copy, Debug, PartialEq, Eq, Structural)]
pub struct StatementDebugInfo {
    pub instruction_idx: usize,
}

/// The ordered statement indices whose generated-instruction global index
/// (relative offset plus header length) equals `k`.
pub open spec fn spec_statements_for(
    infos: Seq<StatementDebugInfo>,
    headers_len: usize,
    k: usize,
) -> Seq<usize>
    decreases infos.len(),
{
    if infos.len() == 0 {
        Seq::empty()
    } else {
        let pre = spec_statements_for(infos.drop_last(), headers_len, k);
        if infos.last().instruction_idx + headers_len == k {
            pre.push((infos.len() - 1) as usize)
        } else {
            pre
        }
    }
}

/// A key has statements exactly when some statement's offset plus the
/// header length equals it.
pub proof fn lemma_statements_for_nonempty(
    infos: Seq<StatementDebugInfo>,
    headers_len: usize,
    k: usize,
)
    ensures
        spec_statements_for(infos, headers_len, k).len() != 0 <==> exists|i: int|
            0 <= i < infos.len() && (#[trigger] infos[i]).instruction_idx + headers_len == k,
    decreases infos.len(),
{
    if infos.len() != 0 {
        lemma_statements_for_nonempty(infos.drop_last(), headers_len, k);
        let n = infos.len();
        if infos.last().instruction_idx + headers_len == k {
            assert(infos[n - 1].instruction_idx + headers_len == k);
        } else if spec_statements_for(infos.drop_last(), headers_len, k).len() != 0 {
            let i = choose|i: int|
                0 <= i < infos.drop_last().len() && (#[trigger] infos.drop_last()[i]).instruction_idx
                    + headers_len == k;
            assert(infos[i].instruction_idx + headers_len == k);
        } else {
            assert forall|i: int|
                0 <= i < infos.len() && (#[trigger] infos[i]).instruction_idx + headers_len
                    == k implies false by {
                if i < n - 1 {
                    assert(infos.drop_last()[i].instruction_idx + headers_len == k);
                }
            }
        }
    }
}

/// Each key's statement list is strictly ascending, and its entries are
/// valid statement indices.
pub proof fn lemma_statements_for_sorted(
    infos: Seq<StatementDebugInfo>,
    headers_len: usize,
    k: usize,
)
    requires
        infos.len() <= usize::MAX,
    ensures
        forall|j: int|
            0 <= j < spec_statements_for(infos, headers_len, k).len() ==> (
            #[trigger] spec_statements_for(infos, headers_len, k)[j]) < infos.len(),
        forall|a: int, b: int|
            0 <= a < b < spec_statements_for(infos, headers_len, k).len()
                ==> #[trigger] spec_statements_for(infos, headers_len, k)[a]
                < #[trigger] spec_statements_for(infos, headers_len, k)[b],
    decreases infos.len(),
{
    if infos.len() != 0 {
        lemma_statements_for_sorted(infos.drop_last(), headers_len, k);
        let pre = spec_statements_for(infos.drop_last(), headers_len, k);
        let s = spec_statements_for(infos, headers_len, k);
        assert forall|j: int| 0 <= j < s.len() implies s[j] < infos.len() by {
            if j < pre.len() {
                assert(s[j] == pre[j]);
            }
        }
        assert forall|a: int, b: int| 0 <= a < b < s.len() implies s[a] < s[b] by {
            assert(s[a] == pre[a]);
            if b < pre.len() {
                assert(s[b] == pre[b]);
            } else {
                assert(pre[a] < infos.drop_last().len());
            }
        }
    }
}

/// Every statement index appears under exactly one key: the key its own
/// offset determines.
pub proof fn lemma_statement_unique_key(
    infos: Seq<StatementDebugInfo>,
    headers_len: usize,
    k: usize,
    i: usize,
)
    requires
        0 <= i < infos.len(),
        infos.len() <= usize::MAX,
    ensures
        spec_statements_for(infos, headers_len, k).contains(i) <==> infos[i as int].instruction_idx
            + headers_len == k,
    decreases infos.len(),
{
    let s = spec_statements_for(infos, headers_len, k);
    let n = infos.len();
    lemma_statements_for_sorted(infos, headers_len, k);
    if i < n - 1 {
        lemma_statement_unique_key(infos.drop_last(), headers_len, k, i);
        let pre = spec_statements_for(infos.drop_last(), headers_len, k);
        assert(infos.drop_last()[i as int] == infos[i as int]);
        if pre.contains(i) {
            let j = choose|j: int| 0 <= j < pre.len() && pre[j] == i;
            assert(s[j] == i);
        }
        if s.contains(i) {
            let j = choose|j: int| 0 <= j < s.len() && s[j] == i;
            if infos.last().instruction_idx + headers_len == k && j == s.len() - 1 {
                assert(s[j] == n - 1);
            } else {
                assert(pre[j] == i);
            }
        }
    } else {
        // The last statement stands in its own key's list and no other.
        let pre = spec_statements_for(infos.drop_last(), headers_len, k);
        lemma_statements_for_sorted(infos.drop_last(), headers_len, k);
        if infos.last().instruction_idx + headers_len == k {
            assert(s[s.len() - 1] == i);
        } else {
            if s.contains(i) {
                let j = choose|j: int| 0 <= j < s.len() && s[j] == i;
                assert(pre[j] == i);
                assert(pre[j] < infos.drop_last().len());
            }
        }
    }
}

/// Builds the inverse mapping from generated-instruction global index
/// (statement offset plus header length) to the ascending list of
/// intermediate-statement indices that lowered into it. Total: every
/// statement lands in exactly one list, in statement order.
pub fn make_casm_to_sierra_map(
    debug_info: &Vec<StatementDebugInfo>,
    casm_headers_len: usize,
) -> (r: HashMap<usize, Vec<usize>>)
    requires
        forall|i: int|
            0 <= i < debug_info@.len() ==> (#[trigger] debug_info@[i]).instruction_idx
                + casm_headers_len <= usize::MAX,
    ensures
        forall|k: usize|
            #[trigger] r@.contains_key(k) <==> spec_statements_for(
                debug_info@,
                casm_headers_len,
                k,
            ).len() != 0,
        forall|k: usize|
            #[trigger] r@.contains_key(k) ==> r@[k]@ == spec_statements_for(
                debug_info@,
                casm_headers_len,
                k,
            ),
{
    let ghost infos = debug_info@;
    let mut map: HashMap<usize, Vec<usize>> = HashMap::new();
    let mut i: usize = 0;
    while i < debug_info.len()
        invariant
            i <= infos.len(),
            infos == debug_info@,
            forall|i2: int|
                0 <= i2 < infos.len() ==> (#[trigger] infos[i2]).instruction_idx + casm_headers_len
                    <= usize::MAX,
            forall|k: usize|
                #[trigger] map@.contains_key(k) <==> spec_statements_for(
                    infos.take(i as int),
                    casm_headers_len,
                    k,
                ).len() != 0,
            forall|k: usize|
                #[trigger] map@.contains_key(k) ==> map@[k]@ == spec_statements_for(
                    infos.take(i as int),
                    casm_headers_len,
                    k,
                ),
        decreases infos.len() - i,
    {
        let key: usize = debug_info[i].instruction_idx + casm_headers_len;
        let mut v: Vec<usize> = match map.remove(&key) {
            Some(v0) => v0,
            None => Vec::new(),
        };
        v.push(i);
        map.insert(key, v);
        proof {
            let pre = infos.take(i as int);
            let cur = infos.take(i as int + 1);
            assert(cur.drop_last() =~= pre);
            assert(cur.last() == infos[i as int]);
            assert forall|k: usize| #[trigger]
                map@.contains_key(k) <==> spec_statements_for(cur, casm_headers_len, k).len()
                != 0 by {
                assert(spec_statements_for(cur, casm_headers_len, k) == if infos[i as int].instruction_idx
                    + casm_headers_len == k {
                    spec_statements_for(pre, casm_headers_len, k).push(i)
                } else {
                    spec_statements_for(pre, casm_headers_len, k)
                });
            }
            assert forall|k: usize| #[trigger]
                map@.contains_key(k) implies map@[k]@ == spec_statements_for(
                cur,
                casm_headers_len,
                k,
            ) by {
                if k == key {
                    assert(map@[k]@ =~= spec_statements_for(cur, casm_headers_len, k));
                } else {
                    assert(spec_statements_for(cur, casm_headers_len, k) == spec_statements_for(
                        pre,
                        casm_headers_len,
                        k,
                    ));
                }
            }
        }
        i = i + 1;
    }
    proof {
        assert(infos.take(infos.len() as int) =~= infos);
    }
    map
}

} // verus!
