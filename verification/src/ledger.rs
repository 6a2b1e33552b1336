//! The voucher ledger: which `(voucher, input, epoch)` triples have been executed.
//!
//! The ledger is a persistent three-level map. An accumulator derived from another shares
//! every branch that the new executions do not touch, so keeping one ledger per block, along
//! several branches of a chain, stays cheap.

use crate::codec::{decode, position_indices};
use crate::events::VoucherExecuted;
use crate::persistent::{
    epochs_get, epochs_new, epochs_update, inputs_get, inputs_new, inputs_update, voucher_entries,
    vouchers_clone, vouchers_get, vouchers_new, vouchers_update, VoucherMap,
};
use vstd::prelude::*;

verus! {

/// What the ledger holds, as a mathematical map of maps.
pub type LedgerView = Map<u64, Map<u64, Map<u64, bool>>>;

/// The inputs recorded under `voucher`; none where the voucher is unknown.
pub open spec fn inputs_of(ledger: LedgerView, voucher: u64) -> Map<u64, Map<u64, bool>> {
    if ledger.contains_key(voucher) {
        ledger[voucher]
    } else {
        Map::empty()
    }
}

/// The epochs recorded under `voucher` and `input`; none where either is unknown.
pub open spec fn epochs_of(ledger: LedgerView, voucher: u64, input: u64) -> Map<u64, bool> {
    let inputs = inputs_of(ledger, voucher);
    if inputs.contains_key(input) {
        inputs[input]
    } else {
        Map::empty()
    }
}

/// Whether the ledger records the triple as executed.
pub open spec fn executed(ledger: LedgerView, voucher: u64, input: u64, epoch: u64) -> bool {
    let epochs = epochs_of(ledger, voucher, input);
    epochs.contains_key(epoch) && epochs[epoch]
}

/// The ledger after the triple has been merged in as executed: unchanged where the triple is
/// executed already, and otherwise with exactly that entry set.
pub open spec fn merge_executed(
    ledger: LedgerView,
    voucher: u64,
    input: u64,
    epoch: u64,
) -> LedgerView {
    if executed(ledger, voucher, input, epoch) {
        ledger
    } else {
        ledger.insert(
            voucher,
            inputs_of(ledger, voucher).insert(
                input,
                epochs_of(ledger, voucher, input).insert(epoch, true),
            ),
        )
    }
}

/// The ledger after the first `n` of the executions have been merged in, in their order.
pub open spec fn merged_before(ledger: LedgerView, events: Seq<VoucherExecuted>, n: nat) -> LedgerView
    decreases n,
{
    if n == 0 {
        ledger
    } else {
        let (voucher, input, epoch) = position_indices(events[n - 1].voucher_position);
        merge_executed(merged_before(ledger, events, (n - 1) as nat), voucher, input, epoch)
    }
}

/// The ledger after all the executions have been merged in, in their order.
pub open spec fn merge_events(ledger: LedgerView, events: Seq<VoucherExecuted>) -> LedgerView {
    merged_before(ledger, events, events.len())
}

/// Merging a triple a second time changes nothing: the ledger after two merges of the same
/// triple is the ledger after one.
pub proof fn lemma_merge_idempotent(ledger: LedgerView, voucher: u64, input: u64, epoch: u64)
    ensures
        merge_executed(merge_executed(ledger, voucher, input, epoch), voucher, input, epoch)
            == merge_executed(ledger, voucher, input, epoch),
{
}

/// After a merge, a triple is executed exactly if it was executed before or is the merged
/// one. So a merge marks its triple, unmarks nothing and touches no other triple.
pub proof fn lemma_merge_executed(
    ledger: LedgerView,
    voucher: u64,
    input: u64,
    epoch: u64,
    v: u64,
    i: u64,
    e: u64,
)
    ensures
        executed(merge_executed(ledger, voucher, input, epoch), v, i, e) <==> executed(
            ledger,
            v,
            i,
            e,
        ) || (v == voucher && i == input && e == epoch),
{
}

/// The order of two merges does not matter.
pub proof fn lemma_merge_commutes(
    ledger: LedgerView,
    v1: u64,
    i1: u64,
    e1: u64,
    v2: u64,
    i2: u64,
    e2: u64,
)
    ensures
        merge_executed(merge_executed(ledger, v1, i1, e1), v2, i2, e2) == merge_executed(
            merge_executed(ledger, v2, i2, e2),
            v1,
            i1,
            e1,
        ),
{
    let first = merge_executed(ledger, v1, i1, e1);
    let second = merge_executed(ledger, v2, i2, e2);
    let left = merge_executed(first, v2, i2, e2);
    let right = merge_executed(second, v1, i1, e1);
    assert(left.dom() =~= right.dom());
    assert forall|v: u64| left.contains_key(v) implies left[v] == right[v] by {
        assert(left[v].dom() =~= right[v].dom());
        assert forall|i: u64| left[v].contains_key(i) implies left[v][i] == right[v][i] by {
            assert(left[v][i] =~= right[v][i]);
        }
        assert(left[v] =~= right[v]);
    }
    assert(left =~= right);
}

/// What is executed stays executed through any number of merges.
pub proof fn lemma_merged_keeps(
    ledger: LedgerView,
    events: Seq<VoucherExecuted>,
    n: nat,
    voucher: u64,
    input: u64,
    epoch: u64,
)
    requires
        executed(ledger, voucher, input, epoch),
    ensures
        executed(merged_before(ledger, events, n), voucher, input, epoch),
    decreases n,
{
    if n > 0 {
        lemma_merged_keeps(ledger, events, (n - 1) as nat, voucher, input, epoch);
        let (v, i, e) = position_indices(events[n - 1].voucher_position);
        lemma_merge_executed(
            merged_before(ledger, events, (n - 1) as nat),
            v,
            i,
            e,
            voucher,
            input,
            epoch,
        );
    }
}

/// After the executions have been merged in, a triple is executed exactly if it was executed
/// before or one of the executions names it.
pub proof fn lemma_merged_executed(
    ledger: LedgerView,
    events: Seq<VoucherExecuted>,
    n: nat,
    voucher: u64,
    input: u64,
    epoch: u64,
)
    requires
        n <= events.len(),
    ensures
        executed(merged_before(ledger, events, n), voucher, input, epoch) <==> executed(
            ledger,
            voucher,
            input,
            epoch,
        ) || exists|k: int|
            0 <= k < n && position_indices((#[trigger] events[k]).voucher_position) == (
                voucher,
                input,
                epoch,
            ),
    decreases n,
{
    if n > 0 {
        lemma_merged_executed(ledger, events, (n - 1) as nat, voucher, input, epoch);
        let (v, i, e) = position_indices(events[n - 1].voucher_position);
        lemma_merge_executed(
            merged_before(ledger, events, (n - 1) as nat),
            v,
            i,
            e,
            voucher,
            input,
            epoch,
        );
        if (v, i, e) == (voucher, input, epoch) {
            assert(position_indices(events[n - 1].voucher_position) == (voucher, input, epoch));
        }
    }
}

/// Records which `(voucher, input, epoch)` triples have been executed.
#[derive(Debug, PartialEq, Eq)]
pub struct VoucherLedger {
    vouchers: VoucherMap,
}

impl View for VoucherLedger {
    type V = LedgerView;

    closed spec fn view(&self) -> LedgerView {
        voucher_entries(self.vouchers)
    }
}

impl Clone for VoucherLedger {
    /// A second handle on the same ledger; the two share all of their structure.
    fn clone(&self) -> (out: Self)
        ensures
            out@ == self@,
    {
        VoucherLedger { vouchers: vouchers_clone(&self.vouchers) }
    }
}

impl VoucherLedger {
    /// A ledger in which nothing has been executed.
    pub fn new() -> (out: Self)
        ensures
            out@ =~= Map::empty(),
            forall|voucher: u64, input: u64, epoch: u64| !executed(out@, voucher, input, epoch),
    {
        VoucherLedger { vouchers: vouchers_new() }
    }

    /// Whether the triple has been executed.
    pub fn is_executed(&self, voucher: u64, input: u64, epoch: u64) -> (out: bool)
        ensures
            out == executed(self@, voucher, input, epoch),
    {
        match vouchers_get(&self.vouchers, voucher) {
            None => false,
            Some(inputs) => match inputs_get(inputs, input) {
                None => false,
                Some(epochs) => match epochs_get(epochs, epoch) {
                    None => false,
                    Some(flag) => *flag,
                },
            },
        }
    }

    /// Marks the triple as executed, in a new ledger that shares with this one every branch the
    /// triple does not lie on. Where the triple is executed already the ledger comes back as it
    /// is.
    pub fn merge_executed(&self, voucher: u64, input: u64, epoch: u64) -> (out: Self)
        ensures
            out@ == merge_executed(self@, voucher, input, epoch),
    {
        if self.is_executed(voucher, input, epoch) {
            return self.clone();
        }
        let fresh_inputs = inputs_new();
        let inputs = match vouchers_get(&self.vouchers, voucher) {
            None => &fresh_inputs,
            Some(inputs) => inputs,
        };
        let fresh_epochs = epochs_new();
        let epochs = match inputs_get(inputs, input) {
            None => &fresh_epochs,
            Some(epochs) => epochs,
        };
        let epochs = epochs_update(epochs, epoch, true);
        let inputs = inputs_update(inputs, input, epochs);
        VoucherLedger { vouchers: vouchers_update(&self.vouchers, voucher, inputs) }
    }

    /// Marks as executed every voucher that the events name, in the order of the events.
    pub fn merge_events(&self, events: &Vec<VoucherExecuted>) -> (out: Self)
        ensures
            out@ == merge_events(self@, events@),
    {
        let mut ledger = self.clone();
        let mut n: usize = 0;
        while n < events.len()
            invariant
                n <= events.len(),
                ledger@ == merged_before(self@, events@, n as nat),
            decreases events.len() - n,
        {
            let (voucher, input, epoch) = decode(&events[n].voucher_position);
            ledger = ledger.merge_executed(voucher, input, epoch);
            n += 1;
        }
        ledger
    }
}

} // verus!
