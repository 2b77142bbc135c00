//! Boot reconciliation: cross-reference an externally decoded, ordered boot
//! sequence against the live variable namespace. Boot-shaped names under the
//! EFI vendor form the candidate pool; every name referenced by the boot
//! order is removed from it (vendor ignored, deliberately); what remains are
//! the orphaned entries. Decode failures are emitted in place and never halt
//! the pass.

use vstd::prelude::*;

use crate::text::str_eq;
use crate::variable_name::{boot_var_id_spec, Variable};

verus! {

/// One emission of the ordered walk: the decoded entry, or the decode
/// failure tagged with the identity it came from.
pub enum BootEntryOutcome<E, F> {
    Decoded(E),
    Failed(F, Variable),
}

/// What remains after the ordered walk: either every boot-shaped variable
/// was referenced, or the ones that were not.
pub enum OrphanSummary {
    AllAccounted,
    Orphaned(Vec<Variable>),
}

/// The result of a reconciliation pass.
pub struct BootReconciliation<E, F> {
    pub ordered: Vec<BootEntryOutcome<E, F>>,
    pub orphans: OrphanSummary,
}

/// A candidate for the pool: a boot-shaped name under the EFI vendor.
pub open spec fn is_boot_candidate(v: Variable) -> bool {
    boot_var_id_spec(v.name_spec()) is Some && v.vendor_spec() is Efi
}

/// No origin of the boot order shares this variable's name. The vendor is
/// ignored: boot-order references use the EFI vendor while some firmware
/// exposes boot-shaped names under other vendors, which a match must still
/// suppress.
pub open spec fn unmatched(v: Variable, origins: Seq<Variable>) -> bool {
    forall|j: int| 0 <= j < origins.len() ==> v.name_spec() != (#[trigger] origins[j]).name_spec()
}

/// The origin identities of a decoded boot sequence.
pub open spec fn origins_of<E, F>(entries: Seq<(Result<E, F>, Variable)>) -> Seq<Variable> {
    entries.map_values(|p: (Result<E, F>, Variable)| p.1)
}

/// The emission owed for one member of the boot sequence.
pub open spec fn outcome_of<E, F>(entry: (Result<E, F>, Variable)) -> BootEntryOutcome<E, F> {
    match entry.0 {
        Ok(e) => BootEntryOutcome::Decoded(e),
        Err(f) => BootEntryOutcome::Failed(f, entry.1),
    }
}

/// The candidate pool left after the ordered walk: the live variables, in
/// order, that are boot candidates and that no boot-order origin matched.
pub open spec fn orphan_pool(live: Seq<Variable>, origins: Seq<Variable>) -> Seq<Variable>
    decreases live.len(),
{
    if live.len() == 0 {
        Seq::empty()
    } else {
        let prefix = orphan_pool(live.drop_last(), origins);
        if is_boot_candidate(live.last()) && unmatched(live.last(), origins) {
            prefix.push(live.last())
        } else {
            prefix
        }
    }
}

/// The orphan pool holds exactly the live variables that are boot candidates
/// and that no boot-order origin matched.
pub proof fn lemma_orphan_pool_membership(live: Seq<Variable>, origins: Seq<Variable>, v: Variable)
    ensures
        orphan_pool(live, origins).contains(v) <==> live.contains(v) && is_boot_candidate(v)
            && unmatched(v, origins),
    decreases live.len(),
{
    if live.len() == 0 {
    } else {
        lemma_orphan_pool_membership(live.drop_last(), origins, v);
        let prefix = orphan_pool(live.drop_last(), origins);
        let last = live.last();
        if is_boot_candidate(last) && unmatched(last, origins) {
            assert forall|u: Variable| #[trigger] prefix.push(last).contains(u) implies prefix.contains(u)
                || u == last by {
                let i = choose|i: int| 0 <= i < prefix.push(last).len() && prefix.push(last)[i]
                    == u;
                if i < prefix.len() {
                    assert(prefix[i] == u);
                }
            }
            if prefix.contains(v) || v == last {
                assert(prefix.push(last).contains(v)) by {
                    if prefix.contains(v) {
                        let i = choose|i: int| 0 <= i < prefix.len() && prefix[i] == v;
                        assert(prefix.push(last)[i] == v);
                    } else {
                        assert(prefix.push(last)[prefix.len() as int] == v);
                    }
                }
            }
        }
        if live.contains(v) {
            let i = choose|i: int| 0 <= i < live.len() && live[i] == v;
            if i < live.len() - 1 {
                assert(live.drop_last()[i] == v);
            }
        }
        if live.drop_last().contains(v) || v == last {
            assert(live.contains(v)) by {
                if live.drop_last().contains(v) {
                    let i = choose|i: int|
                        0 <= i < live.drop_last().len() && live.drop_last()[i] == v;
                    assert(live[i] == v);
                } else {
                    assert(live[live.len() - 1] == v);
                }
            }
        }
    }
}

/// Whether any origin shares this variable's name.
fn name_matches_any(v: &Variable, origins: &Vec<Variable>) -> (r: bool)
    ensures
        r == !unmatched(*v, origins@),
{
    let mut j: usize = 0;
    while j < origins.len()
        invariant
            j <= origins.len(),
            forall|k: int| 0 <= k < j ==> v.name_spec() != (#[trigger] origins@[k]).name_spec(),
        decreases origins.len() - j,
    {
        if str_eq(v.variable(), origins[j].variable()) {
            return true;
        }
        j += 1;
    }
    false
}

/// Walk the decoded boot sequence in order, emitting each decode result
/// without halting on failures; classify the live boot-shaped EFI-vendor
/// variables that no boot-order member referenced as orphans, with a
/// distinct outcome when there are none.
pub fn reconcile_boot_entries<E, F>(entries: Vec<(Result<E, F>, Variable)>, live: &Vec<
    Variable,
>) -> (r: BootReconciliation<E, F>)
    ensures
        r.ordered@.len() == entries@.len(),
        forall|i: int|
            0 <= i < entries@.len() ==> r.ordered@[i] == outcome_of(#[trigger] entries@[i]),
        (r.orphans is AllAccounted <==> orphan_pool(live@, origins_of(entries@)).len() == 0),
        r.orphans matches OrphanSummary::Orphaned(o) ==> o@ == orphan_pool(
            live@,
            origins_of(entries@),
        ) && o@.len() > 0,
{
    let ghost orig = entries@;
    let mut entries = entries;
    let mut ordered: Vec<BootEntryOutcome<E, F>> = Vec::new();
    let mut origins: Vec<Variable> = Vec::new();
    while entries.len() > 0
        invariant
            ordered@.len() + entries@.len() == orig.len(),
            entries@ == orig.subrange(ordered@.len() as int, orig.len() as int),
            forall|i: int| 0 <= i < ordered@.len() ==> ordered@[i] == outcome_of(#[trigger] orig[i]),
            origins@.len() == ordered@.len(),
            forall|i: int| 0 <= i < origins@.len() ==> origins@[i] == (#[trigger] orig[i]).1,
        decreases entries.len(),
    {
        let ghost k = ordered@.len() as int;
        proof {
            assert(orig.subrange(k, orig.len() as int)[0] == orig[k]);
        }
        let (res, origin) = entries.remove(0);
        proof {
            assert(entries@ =~= orig.subrange(k + 1, orig.len() as int));
        }
        match res {
            Ok(e) => {
                origins.push(origin);
                ordered.push(BootEntryOutcome::Decoded(e));
            },
            Err(f) => {
                origins.push(origin.clone());
                ordered.push(BootEntryOutcome::Failed(f, origin));
            },
        }
    }
    proof {
        assert(origins@ =~= origins_of(orig));
    }
    let mut pool: Vec<Variable> = Vec::new();
    let mut i: usize = 0;
    proof {
        assert(pool@ =~= orphan_pool(live@.subrange(0, 0), origins@));
    }
    while i < live.len()
        invariant
            i <= live.len(),
            origins@ == origins_of(orig),
            pool@ == orphan_pool(live@.subrange(0, i as int), origins@),
        decreases live.len() - i,
    {
        let v = &live[i];
        let is_candidate = v.boot_var_id().is_some() && v.vendor().is_efi();
        if is_candidate && !name_matches_any(v, &origins) {
            pool.push(v.clone());
        }
        proof {
            let pre = live@.subrange(0, i as int + 1);
            assert(pre.drop_last() =~= live@.subrange(0, i as int));
            assert(pre.last() == live@[i as int]);
            assert(pool@ == orphan_pool(pre, origins@));
        }
        i += 1;
    }
    proof {
        assert(live@.subrange(0, live@.len() as int) =~= live@);
    }
    let orphans = if pool.is_empty() {
        OrphanSummary::AllAccounted
    } else {
        OrphanSummary::Orphaned(pool)
    };
    BootReconciliation { ordered, orphans }
}

} // verus!
