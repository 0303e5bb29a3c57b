//! The round store: two report slots and the indicator of the active one.
//!
//! Every update overwrites the slot the indicator points to, then points the
//! indicator at slot one when the overwritten slot's prior median exceeded
//! the new one, and at slot two otherwise. `apply_update` states that rule
//! once; every operation that mutates the store is proved against it.

use vstd::prelude::*;

use crate::report::decode_spec;
use crate::report::Report;
use crate::report::ReportModel;
use crate::report::StoreError;

verus! {

/// Which of the two slots is authoritative.
#[derive(Clone, Copy, PartialEq, Eq, Structural, Debug)]
pub enum ReportSlot {
    ONE,
    TWO,
}

/// The stored form of a report, one per slot.
#[derive(Clone, Copy, PartialEq, Eq, Debug)]
pub struct WireReport {
    pub median: i128,
    pub observer_count: u8,
    pub observers: [u8; 19],
    pub observations_timestamp: u32,
    pub juels_per_lamport: u64,
}

impl View for WireReport {
    type V = ReportModel;

    open spec fn view(&self) -> ReportModel {
        ReportModel {
            median: self.median as int,
            observer_count: self.observer_count as nat,
            observers: self.observers@,
            observations_timestamp: self.observations_timestamp as nat,
            juels_per_lamport: self.juels_per_lamport as nat,
        }
    }
}

/// The all-zero report both slots hold in a freshly allocated store.
pub open spec fn zero_report() -> ReportModel {
    ReportModel {
        median: 0,
        observer_count: 0,
        observers: Seq::new(19, |i: int| 0u8),
        observations_timestamp: 0,
        juels_per_lamport: 0,
    }
}

impl Default for WireReport {
    /// The zero report: every field at its zero value.
    fn default() -> (r: Self)
        ensures
            r@ == zero_report(),
    {
        let r = WireReport {
            median: 0,
            observer_count: 0,
            observers: [0u8; 19],
            observations_timestamp: 0,
            juels_per_lamport: 0,
        };
        proof {
            assert(r@ =~= zero_report());
        }
        r
    }
}

/// The persistent store: two report slots and the active-slot indicator.
///
/// A freshly allocated store holds the zero report in both slots. The
/// indicator is meaningful only after the first update; by convention a
/// reader before that treats slot one as active, and since both slots then
/// hold the same zero median, the update rule does not depend on the choice.
#[derive(Clone, Copy, PartialEq, Eq, Debug)]
pub struct BaseAccount {
    pub r1: WireReport,
    pub r2: WireReport,
    pub on: ReportSlot,
}

/// The mathematical model of the store.
#[verifier::ext_equal]
pub struct StoreModel {
    pub r1: ReportModel,
    pub r2: ReportModel,
    pub on: ReportSlot,
}

impl View for BaseAccount {
    type V = StoreModel;

    open spec fn view(&self) -> StoreModel {
        StoreModel { r1: self.r1@, r2: self.r2@, on: self.on }
    }
}

/// The median of the slot the indicator points to.
pub open spec fn active_median(s: StoreModel) -> int {
    if s.on == ReportSlot::ONE {
        s.r1.median
    } else {
        s.r2.median
    }
}

/// The update rule. The slot the indicator points to is overwritten with the
/// new report; the indicator then moves to ONE when that slot's prior median
/// exceeded the new median, and to TWO otherwise.
pub open spec fn apply_update(s: StoreModel, r: ReportModel) -> StoreModel {
    StoreModel {
        r1: if s.on == ReportSlot::ONE {
            r
        } else {
            s.r1
        },
        r2: if s.on == ReportSlot::ONE {
            s.r2
        } else {
            r
        },
        on: if active_median(s) > r.median {
            ReportSlot::ONE
        } else {
            ReportSlot::TWO
        },
    }
}

/// Initializes the store: both slots' medians are reset to zero; every other
/// field, and the indicator, keeps its value.
pub fn create(base_account: &mut BaseAccount)
    ensures
        final(base_account)@ == (StoreModel {
            r1: (ReportModel { median: 0, ..old(base_account)@.r1 }),
            r2: (ReportModel { median: 0, ..old(base_account)@.r2 }),
            on: old(base_account)@.on,
        }),
{
    base_account.r1.median = 0;
    base_account.r2.median = 0;
    proof {
        assert(base_account@ =~= (StoreModel {
            r1: (ReportModel { median: 0, ..old(base_account)@.r1 }),
            r2: (ReportModel { median: 0, ..old(base_account)@.r2 }),
            on: old(base_account)@.on,
        }));
    }
}

/// Applies the update rule to the store with a structured report.
pub fn wire_set_report(base_account: &mut BaseAccount, report: WireReport)
    ensures
        final(base_account)@ == apply_update(old(base_account)@, report@),
{
    let prior = match base_account.on {
        ReportSlot::ONE => base_account.r1.median,
        ReportSlot::TWO => base_account.r2.median,
    };
    match base_account.on {
        ReportSlot::ONE => {
            base_account.r1 = report;
        },
        ReportSlot::TWO => {
            base_account.r2 = report;
        },
    }
    if prior > report.median {
        base_account.on = ReportSlot::ONE;
    } else {
        base_account.on = ReportSlot::TWO;
    }
    proof {
        assert(base_account@ =~= apply_update(old(base_account)@, report@));
    }
}

/// The notification emitted after an update, carrying the new median.
#[derive(Clone, Copy, PartialEq, Eq, Debug)]
pub struct ReportEvent {
    pub median: i128,
}

/// Applies the update rule exactly as `wire_set_report` does, and hands back
/// the notification event for the host to emit. The store state after this
/// call is identical to the state after `wire_set_report` on the same input;
/// only the returned event differs.
pub fn wire_emit_and_set_report(base_account: &mut BaseAccount, report: WireReport) -> (ev:
    ReportEvent)
    ensures
        final(base_account)@ == apply_update(old(base_account)@, report@),
        ev.median == report.median,
{
    wire_set_report(base_account, report);
    ReportEvent { median: report.median }
}

/// Converts a raw report to its stored form and applies the update rule.
pub fn set_report_from_raw(base_account: &mut BaseAccount, rawreport: Report)
    ensures
        final(base_account)@ == apply_update(old(base_account)@, rawreport@),
{
    let report = WireReport {
        median: rawreport.median,
        observer_count: rawreport.observer_count,
        observers: rawreport.observers,
        observations_timestamp: rawreport.observations_timestamp,
        juels_per_lamport: rawreport.juels_per_lamport,
    };
    proof {
        assert(report@ =~= rawreport@);
    }
    wire_set_report(base_account, report);
}

/// Structured update with a report decoded by an alternate path.
pub fn set_report_raw(base_account: &mut BaseAccount, report: Report)
    ensures
        final(base_account)@ == apply_update(old(base_account)@, report@),
{
    set_report_from_raw(base_account, report)
}

/// Decodes the payload and applies the update rule.
fn set_report_impl(base_account: &mut BaseAccount, data: &[u8]) -> (r: Result<(), StoreError>)
    ensures
        data@.len() >= 61 ==> (r == Ok::<(), StoreError>(()) && final(base_account)@
            == apply_update(old(base_account)@, decode_spec(data@))),
        data@.len() < 61 ==> (r == Err::<(), StoreError>(StoreError::MalformedInput)
            && *final(base_account) == *old(base_account)),
{
    match Report::unpack(data) {
        Ok(rawreport) => {
            set_report_from_raw(base_account, rawreport);
            Ok(())
        },
        Err(e) => Err(e),
    }
}

/// Raw-byte entry point: decodes `data` as a report and applies the update
/// rule. Fails with `MalformedInput`, leaving the store untouched, exactly
/// when `data` is shorter than 61 bytes; otherwise it cannot fail.
pub fn set_report(base_account: &mut BaseAccount, data: &[u8]) -> (r: Result<(), StoreError>)
    ensures
        data@.len() >= 61 ==> (r == Ok::<(), StoreError>(()) && final(base_account)@
            == apply_update(old(base_account)@, decode_spec(data@))),
        data@.len() < 61 ==> (r == Err::<(), StoreError>(StoreError::MalformedInput)
            && *final(base_account) == *old(base_account)),
{
    set_report_impl(base_account, data)
}

/// The store after the reports are applied in order, oldest first.
pub open spec fn apply_updates(s: StoreModel, rs: Seq<ReportModel>) -> StoreModel
    decreases rs.len(),
{
    if rs.len() == 0 {
        s
    } else {
        apply_update(apply_updates(s, rs.drop_last()), rs.last())
    }
}

/// A freshly created store: both slots hold a median of zero.
pub open spec fn fresh_store(s: StoreModel) -> bool {
    s.r1.median == 0 && s.r2.median == 0
}

/// Law: from a fresh store, updates with strictly increasing medians whose
/// first median is not negative leave slot two active after every update.
pub proof fn lemma_increasing_leaves_two(s: StoreModel, rs: Seq<ReportModel>, k: int)
    requires
        fresh_store(s),
        rs.len() >= 1,
        rs[0].median >= 0,
        forall|i: int| 0 <= i < rs.len() - 1 ==> #[trigger] rs[i].median < rs[i + 1].median,
        1 <= k <= rs.len(),
    ensures
        apply_updates(s, rs.take(k)).on == ReportSlot::TWO,
        apply_updates(s, rs.take(k)).r2.median <= rs[k - 1].median,
    decreases k,
{
    if k == 1 {
        assert(rs.take(1).drop_last() =~= rs.take(0));
        assert(rs.take(0) =~= Seq::<ReportModel>::empty());
        assert(rs.take(1).last() == rs[0]);
    } else {
        lemma_increasing_leaves_two(s, rs, k - 1);
        assert(rs.take(k).drop_last() =~= rs.take(k - 1));
        assert(rs.take(k).last() == rs[k - 1]);
        assert(rs[k - 2].median < rs[k - 1].median);
    }
}

/// Law: from a fresh store, updates with strictly decreasing medians whose
/// first median is negative leave slot one active after every update.
pub proof fn lemma_decreasing_leaves_one(s: StoreModel, rs: Seq<ReportModel>, k: int)
    requires
        fresh_store(s),
        rs.len() >= 1,
        rs[0].median < 0,
        forall|i: int| 0 <= i < rs.len() - 1 ==> #[trigger] rs[i].median > rs[i + 1].median,
        1 <= k <= rs.len(),
    ensures
        apply_updates(s, rs.take(k)).on == ReportSlot::ONE,
        apply_updates(s, rs.take(k)).r1.median == 0 || apply_updates(s, rs.take(k)).r1.median == rs[
            k - 1
        ].median,
        rs[k - 1].median < 0,
    decreases k,
{
    if k == 1 {
        let t = rs.take(1);
        assert(t.drop_last() =~= Seq::<ReportModel>::empty());
        assert(apply_updates(s, t.drop_last()) == s);
        assert(t.last() == rs[0]);
        assert(apply_updates(s, t) == apply_update(s, rs[0]));
    } else {
        lemma_decreasing_leaves_one(s, rs, k - 1);
        let t = rs.take(k);
        let prev = apply_updates(s, rs.take(k - 1));
        assert(t.drop_last() =~= rs.take(k - 1));
        assert(t.last() == rs[k - 1]);
        assert(apply_updates(s, t) == apply_update(prev, rs[k - 1]));
        assert(rs[k - 2].median > rs[k - 1].median);
        assert(active_median(prev) > rs[k - 1].median);
    }
}

} // verus!

