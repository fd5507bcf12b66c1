//! Aggregation of per-shard "ready" signals into a single fleet-ready moment.
use vstd::prelude::*;

verus! {

/// A shard's "ready" notification: its index, the number of shards the
/// fleet is declared to have, and how many guilds the shard serves.
#[derive(Clone, Copy, Debug, PartialEq, Eq)]
pub struct ShardSignal {
    pub shard: u64,
    pub total: u64,
    pub guilds: u64,
}

/// One counted shard and its guild count.
#[derive(Clone, Copy, Debug, PartialEq, Eq)]
pub struct ShardReport {
    pub shard: u64,
    pub guilds: u64,
}

/// What a ready signal did to the tracker.
#[derive(Clone, Copy, Debug, PartialEq, Eq)]
pub enum ReadyOutcome {
    /// The signal contradicts the fleet's declared shape (zero shards, an
    /// index out of range, or a total that disagrees with the first one seen);
    /// it was discarded.
    Anomaly,
    /// The shard was already counted, or the fleet was already complete; the
    /// signal was discarded.
    Duplicate,
    /// The shard was counted; other shards are still outstanding.
    Counted,
    /// The shard was counted and completed the fleet, serving `guild_total`
    /// guilds in all.
    FleetReady { guild_total: u64 },
}

/// Abstract state of the tracker: the declared fleet size, once known, and the
/// shards counted so far, in arrival order.
pub struct ShardModel {
    pub expected: Option<u64>,
    pub reports: Seq<ShardReport>,
}

pub open spec fn reports_shard(reports: Seq<ShardReport>, shard: u64) -> bool {
    exists|i: int| 0 <= i < reports.len() && reports[i].shard == shard
}

/// Total number of guilds over the given reports.
pub open spec fn guild_sum(reports: Seq<ShardReport>) -> nat
    decreases reports.len(),
{
    if reports.len() == 0 {
        0
    } else {
        guild_sum(reports.drop_last()) + reports.last().guilds as nat
    }
}

impl ShardModel {
    pub open spec fn initial() -> ShardModel {
        ShardModel { expected: None, reports: Seq::empty() }
    }

    /// Nothing is counted before the fleet size is known; afterwards every
    /// counted shard has an index below it, appears once, and there are no more
    /// of them than the fleet size.
    pub open spec fn wf(self) -> bool {
        match self.expected {
            None => self.reports.len() == 0,
            Some(n) => {
                &&& n > 0
                &&& self.reports.len() <= n
                &&& forall|i: int| 0 <= i < self.reports.len() ==> self.reports[i].shard < n
                &&& forall|i: int, j: int|
                    0 <= i < j < self.reports.len() ==> self.reports[i].shard
                        != self.reports[j].shard
            },
        }
    }

    /// Every declared shard has been counted.
    pub open spec fn complete(self) -> bool {
        self.expected is Some && self.reports.len() == self.expected->0
    }

    pub open spec fn is_anomaly(self, sig: ShardSignal) -> bool {
        ||| sig.total == 0
        ||| sig.shard >= sig.total
        ||| (self.expected is Some && self.expected->0 != sig.total)
    }

    pub open spec fn is_duplicate(self, sig: ShardSignal) -> bool {
        reports_shard(self.reports, sig.shard) || self.reports.len() >= sig.total
    }

    /// The state after a signal, and what the signal did.
    pub open spec fn step(self, sig: ShardSignal) -> (ShardModel, ReadyOutcome) {
        if self.is_anomaly(sig) {
            (self, ReadyOutcome::Anomaly)
        } else if self.is_duplicate(sig) {
            (self, ReadyOutcome::Duplicate)
        } else {
            let next = ShardModel {
                expected: Some(sig.total),
                reports: self.reports.push(ShardReport { shard: sig.shard, guilds: sig.guilds }),
            };
            if next.reports.len() == sig.total {
                (next, ReadyOutcome::FleetReady { guild_total: guild_sum(next.reports) as u64 })
            } else {
                (next, ReadyOutcome::Counted)
            }
        }
    }
}

/// The state reached from `m` after the signals, delivered in order.
pub open spec fn run(m: ShardModel, sigs: Seq<ShardSignal>) -> ShardModel
    decreases sigs.len(),
{
    if sigs.len() == 0 {
        m
    } else {
        run(m, sigs.drop_last()).step(sigs.last()).0
    }
}

/// How many of the signals, delivered in order from `m`, fired the fleet-ready
/// transition.
pub open spec fn fleet_ready_fired(m: ShardModel, sigs: Seq<ShardSignal>) -> nat
    decreases sigs.len(),
{
    if sigs.len() == 0 {
        0
    } else {
        fleet_ready_fired(m, sigs.drop_last()) + if run(m, sigs.drop_last()).step(
            sigs.last(),
        ).1 is FleetReady {
            1nat
        } else {
            0nat
        }
    }
}

/// A single step keeps the model well formed; a complete fleet ignores every
/// signal; fleet-ready fires exactly on the step that completes the fleet.
pub proof fn lemma_step(m: ShardModel, sig: ShardSignal)
    requires
        m.wf(),
    ensures
        m.step(sig).0.wf(),
        m.complete() ==> m.step(sig).0 == m,
        m.complete() ==> m.step(sig).0.complete(),
        m.step(sig).1 is FleetReady <==> (!m.complete() && m.step(sig).0.complete()),
        m.step(sig).1 is FleetReady ==> m.step(sig).0.reports.len() == sig.total,
{
    let next = m.step(sig).0;
    if !m.is_anomaly(sig) && !m.is_duplicate(sig) {
        assert(next.reports.last().shard == sig.shard);
        assert forall|i: int, j: int| 0 <= i < j < next.reports.len() implies next.reports[i].shard
            != next.reports[j].shard by {
            if j == next.reports.len() - 1 {
                assert(m.reports[i].shard != sig.shard);
            }
        }
    }
}

/// Whatever the order of delivery, duplicates and anomalies included, the
/// fleet-ready transition fires at most once, and it has fired exactly when
/// as many distinct shards as the declared total have been counted.
pub proof fn fleet_ready_fires_once(sigs: Seq<ShardSignal>)
    ensures
        run(ShardModel::initial(), sigs).wf(),
        fleet_ready_fired(ShardModel::initial(), sigs) <= 1,
        fleet_ready_fired(ShardModel::initial(), sigs) == 1 <==> run(
            ShardModel::initial(),
            sigs,
        ).complete(),
    decreases sigs.len(),
{
    if sigs.len() > 0 {
        fleet_ready_fires_once(sigs.drop_last());
        lemma_step(run(ShardModel::initial(), sigs.drop_last()), sigs.last());
    }
}

/// Delivering the same signal a second time changes nothing: neither the
/// counted shards, nor their guild total, nor does it fire fleet-ready again.
pub proof fn repeated_signal_ignored(m: ShardModel, sig: ShardSignal)
    requires
        m.wf(),
    ensures
        m.step(sig).0.step(sig).0 == m.step(sig).0,
        guild_sum(m.step(sig).0.step(sig).0.reports) == guild_sum(m.step(sig).0.reports),
        m.step(sig).0.step(sig).1 is Anomaly || m.step(sig).0.step(sig).1 is Duplicate,
{
    let next = m.step(sig).0;
    if !m.is_anomaly(sig) && !m.is_duplicate(sig) {
        let k = next.reports.len() - 1;
        assert(next.reports[k].shard == sig.shard);
        assert(reports_shard(next.reports, sig.shard));
    }
}

/// The guilds reported by shard `shard`, zero if it has not reported.
pub open spec fn guilds_of(reports: Seq<ShardReport>, shard: nat) -> nat
    decreases reports.len(),
{
    if reports.len() == 0 {
        0
    } else if reports.last().shard as nat == shard {
        reports.last().guilds as nat
    } else {
        guilds_of(reports.drop_last(), shard)
    }
}

/// Sum of `guilds_of` over the shard indices below `k`.
pub open spec fn per_shard_total(reports: Seq<ShardReport>, k: nat) -> nat
    decreases k,
{
    if k == 0 {
        0
    } else {
        per_shard_total(reports, (k - 1) as nat) + guilds_of(reports, (k - 1) as nat)
    }
}

proof fn lemma_guilds_absent(reports: Seq<ShardReport>, shard: nat)
    requires
        forall|i: int| 0 <= i < reports.len() ==> reports[i].shard as nat != shard,
    ensures
        guilds_of(reports, shard) == 0,
    decreases reports.len(),
{
    if reports.len() > 0 {
        assert(reports.last() == reports[reports.len() - 1]);
        assert forall|i: int| 0 <= i < reports.drop_last().len() implies reports.drop_last()[i].shard as nat
            != shard by {
            assert(reports.drop_last()[i] == reports[i]);
        }
        lemma_guilds_absent(reports.drop_last(), shard);
    }
}

/// Dropping the last report, whose shard appears nowhere else, lowers the
/// per-shard total by its guilds if its index is below `k`.
proof fn lemma_per_shard_drop_last(reports: Seq<ShardReport>, k: nat)
    requires
        reports.len() > 0,
        forall|i: int| 0 <= i < reports.len() - 1 ==> reports[i].shard != reports.last().shard,
    ensures
        per_shard_total(reports, k) == per_shard_total(reports.drop_last(), k) + if (
        reports.last().shard as nat) < k {
            reports.last().guilds as nat
        } else {
            0nat
        },
    decreases k,
{
    if k > 0 {
        lemma_per_shard_drop_last(reports, (k - 1) as nat);
        let j = reports.last().shard as nat;
        if j == (k - 1) as nat {
            assert forall|i: int| 0 <= i < reports.drop_last().len() implies reports.drop_last()[i].shard as nat
                != j by {
                assert(reports.drop_last()[i] == reports[i]);
            }
            lemma_guilds_absent(reports.drop_last(), j);
        }
    }
}

proof fn lemma_sum_per_shard(m: ShardModel)
    requires
        m.wf(),
        m.expected is Some,
    ensures
        guild_sum(m.reports) == per_shard_total(m.reports, m.expected->0 as nat),
    decreases m.reports.len(),
{
    if m.reports.len() > 0 {
        let prev = ShardModel { expected: m.expected, reports: m.reports.drop_last() };
        assert forall|i: int| 0 <= i < prev.reports.len() implies prev.reports[i] == m.reports[i] by {}
        lemma_sum_per_shard(prev);
        assert(m.reports.last() == m.reports[m.reports.len() - 1]);
        lemma_per_shard_drop_last(m.reports, m.expected->0 as nat);
    } else {
        lemma_per_shard_none(m.reports, m.expected->0 as nat);
    }
}

proof fn lemma_per_shard_none(reports: Seq<ShardReport>, k: nat)
    requires
        reports.len() == 0,
    ensures
        per_shard_total(reports, k) == 0,
    decreases k,
{
    if k > 0 {
        lemma_per_shard_none(reports, (k - 1) as nat);
    }
}

/// The guild total depends only on what each shard reported, not on the order
/// in which the reports arrived: two fleets of the same size whose shards
/// reported the same guild counts have the same total.
pub proof fn guild_total_order_free(m1: ShardModel, m2: ShardModel)
    requires
        m1.wf(),
        m2.wf(),
        m1.expected is Some,
        m1.expected == m2.expected,
        forall|i: nat| i < m1.expected->0 ==> guilds_of(m1.reports, i) == guilds_of(m2.reports, i),
    ensures
        guild_sum(m1.reports) == guild_sum(m2.reports),
{
    let n = m1.expected->0 as nat;
    lemma_sum_per_shard(m1);
    lemma_sum_per_shard(m2);
    assert forall|k: nat| k <= n implies per_shard_total(m1.reports, k) == per_shard_total(
        m2.reports,
        k,
    ) by {
        lemma_per_shard_eq(m1.reports, m2.reports, k, n);
    }
}

proof fn lemma_per_shard_eq(r1: Seq<ShardReport>, r2: Seq<ShardReport>, k: nat, n: nat)
    requires
        k <= n,
        forall|i: nat| i < n ==> guilds_of(r1, i) == guilds_of(r2, i),
    ensures
        per_shard_total(r1, k) == per_shard_total(r2, k),
    decreases k,
{
    if k > 0 {
        lemma_per_shard_eq(r1, r2, (k - 1) as nat, n);
    }
}

/// Tracks which shards of the fleet have reported ready.
pub struct ShardTracker {
    reports: Vec<ShardReport>,
    expected: Option<u64>,
    guild_total: u64,
}

impl View for ShardTracker {
    type V = ShardModel;

    closed spec fn view(&self) -> ShardModel {
        ShardModel { expected: self.expected, reports: self.reports@ }
    }
}

impl ShardTracker {
    pub closed spec fn wf(&self) -> bool {
        self@.wf() && self.guild_total == guild_sum(self.reports@)
    }

    pub fn new() -> (r: ShardTracker)
        ensures
            r.wf(),
            r@ == ShardModel::initial(),
    {
        ShardTracker { reports: Vec::new(), expected: None, guild_total: 0 }
    }

    /// Number of shards counted so far.
    pub fn reported_count(&self) -> (r: usize)
        ensures
            r == self@.reports.len(),
    {
        self.reports.len()
    }

    /// The declared fleet size, once a valid signal has fixed it.
    pub fn expected_shards(&self) -> (r: Option<u64>)
        ensures
            r == self@.expected,
    {
        self.expected
    }

    /// Total guilds over the counted shards.
    pub fn guild_total(&self) -> (r: u64)
        requires
            self.wf(),
        ensures
            r == guild_sum(self@.reports),
    {
        self.guild_total
    }

    /// Takes one ready signal: discards it if it is an anomaly or a duplicate,
    /// otherwise counts the shard, and reports fleet-ready with the guild total
    /// when this shard completes the fleet.
    pub fn shard_ready(&mut self, sig: ShardSignal) -> (r: ReadyOutcome)
        requires
            old(self).wf(),
            guild_sum(old(self)@.reports) + sig.guilds <= u64::MAX,
        ensures
            final(self).wf(),
            (final(self)@, r) == old(self)@.step(sig),
            (r is Counted || r is FleetReady) ==> guild_sum(final(self)@.reports) == guild_sum(
                old(self)@.reports,
            ) + sig.guilds,
    {
        if sig.total == 0 || sig.shard >= sig.total {
            return ReadyOutcome::Anomaly;
        }
        match self.expected {
            Some(e) => {
                if e != sig.total {
                    return ReadyOutcome::Anomaly;
                }
            },
            None => {},
        }
        if self.reports.len() as u64 >= sig.total {
            return ReadyOutcome::Duplicate;
        }
        let mut i: usize = 0;
        while i < self.reports.len()
            invariant
                i <= self.reports.len(),
                self.wf(),
                self@ == old(self)@,
                !self@.is_anomaly(sig),
                self.reports@.len() < sig.total,
                forall|j: int| 0 <= j < i ==> self.reports@[j].shard != sig.shard,
            decreases self.reports.len() - i,
        {
            if self.reports[i].shard == sig.shard {
                assert(reports_shard(self.reports@, sig.shard));
                return ReadyOutcome::Duplicate;
            }
            i = i + 1;
        }
        let ghost before = self.reports@;
        self.reports.push(ShardReport { shard: sig.shard, guilds: sig.guilds });
        assert(self.reports@.drop_last() =~= before);
        self.expected = Some(sig.total);
        self.guild_total = self.guild_total + sig.guilds;
        proof {
            assert forall|a: int, b: int| 0 <= a < b < self.reports@.len() implies self.reports@[a].shard
                != self.reports@[b].shard by {
                if b == self.reports@.len() - 1 {
                    assert(before[a].shard != sig.shard);
                }
            }
        }
        if self.reports.len() as u64 == sig.total {
            ReadyOutcome::FleetReady { guild_total: self.guild_total }
        } else {
            ReadyOutcome::Counted
        }
    }
}

} // verus!
