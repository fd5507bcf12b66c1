//! Aggregate usage counters and the rules that keep them consistent.
use vstd::prelude::*;
use crate::counts::{bump, bumped, CommandCounts};

verus! {

/// `c - 1`, held at zero: a leave without a matching join never goes below it.
pub open spec fn dropped(c: u64) -> u64 {
    if c == 0 {
        0
    } else {
        (c - 1) as u64
    }
}

/// The counters, as a caller sees them.
pub struct StatsView {
    pub tracking: bool,
    pub server_count: u64,
    pub shard_count: u64,
    pub request_count: u64,
}

impl StatsView {
    pub open spec fn with_join(self) -> StatsView {
        if self.tracking {
            StatsView { server_count: bumped(self.server_count), ..self }
        } else {
            self
        }
    }

    pub open spec fn with_leave(self) -> StatsView {
        if self.tracking {
            StatsView { server_count: dropped(self.server_count), ..self }
        } else {
            self
        }
    }

    pub open spec fn with_shard(self) -> StatsView {
        if self.tracking {
            StatsView { shard_count: bumped(self.shard_count), ..self }
        } else {
            self
        }
    }

    pub open spec fn with_request(self) -> StatsView {
        if self.tracking {
            StatsView { request_count: bumped(self.request_count), ..self }
        } else {
            self
        }
    }

    pub open spec fn with_servers(self, count: u64) -> StatsView {
        if self.tracking {
            StatsView { server_count: count, ..self }
        } else {
            self
        }
    }

    /// What is pushed to the sink, if anything: nothing when tracking is off.
    pub open spec fn push(self) -> Option<StatsPayload> {
        if self.tracking {
            Some(StatsPayload { server_count: self.server_count, shard_count: self.shard_count })
        } else {
            None
        }
    }
}

/// The aggregate figures pushed to the external statistics sink.
#[derive(Clone, Copy, Debug, PartialEq, Eq)]
pub struct StatsPayload {
    pub server_count: u64,
    pub shard_count: u64,
}

/// Aggregate counters. When tracking is off every update is a no-op.
pub struct Stats {
    tracking: bool,
    servers: u64,
    shards: u64,
    requests: u64,
    commands: CommandCounts,
}

impl View for Stats {
    type V = StatsView;

    closed spec fn view(&self) -> StatsView {
        StatsView {
            tracking: self.tracking,
            server_count: self.servers,
            shard_count: self.shards,
            request_count: self.requests,
        }
    }
}

impl Stats {
    pub closed spec fn wf(&self) -> bool {
        self.commands.wf()
    }

    /// How often the command `name` has been recorded.
    pub closed spec fn command_count(&self, name: Seq<char>) -> u64 {
        self.commands.count_of(name)
    }

    pub open spec fn same_commands(&self, other: &Stats) -> bool {
        forall|n: Seq<char>| #[trigger] self.command_count(n) == other.command_count(n)
    }

    pub fn new(tracking: bool) -> (r: Stats)
        ensures
            r.wf(),
            r@ == (StatsView { tracking, server_count: 0, shard_count: 0, request_count: 0 }),
            forall|n: Seq<char>| r.command_count(n) == 0,
    {
        Stats { tracking, servers: 0, shards: 0, requests: 0, commands: CommandCounts::new() }
    }

    /// Whether statistics are collected at all.
    pub fn should_track(&self) -> (r: bool)
        ensures
            r == self@.tracking,
    {
        self.tracking
    }

    pub fn server_count(&self) -> (r: u64)
        ensures
            r == self@.server_count,
    {
        self.servers
    }

    pub fn shard_count(&self) -> (r: u64)
        ensures
            r == self@.shard_count,
    {
        self.shards
    }

    pub fn request_count(&self) -> (r: u64)
        ensures
            r == self@.request_count,
    {
        self.requests
    }

    pub fn command_count_of(&self, name: &str) -> (r: u64)
        requires
            self.wf(),
        ensures
            r == self.command_count(name@),
    {
        self.commands.get(name)
    }

    /// The figures to publish.
    pub fn payload(&self) -> (r: StatsPayload)
        ensures
            r == (StatsPayload { server_count: self@.server_count, shard_count: self@.shard_count }),
    {
        StatsPayload { server_count: self.servers, shard_count: self.shards }
    }

    /// Takes the server count found when the whole fleet came up.
    pub fn set_server_count(&mut self, count: u64)
        requires
            old(self).wf(),
        ensures
            final(self).wf(),
            final(self).same_commands(old(self)),
            final(self)@ == old(self)@.with_servers(count),
    {
        if self.tracking {
            self.servers = count;
        }
    }

    /// The figures to push to the sink, or `None` when tracking is off.
    pub fn push(&self) -> (r: Option<StatsPayload>)
        ensures
            r == self@.push(),
    {
        if self.tracking {
            Some(self.payload())
        } else {
            None
        }
    }

    /// One guild joined.
    pub fn new_server(&mut self)
        requires
            old(self).wf(),
        ensures
            final(self).wf(),
            final(self).same_commands(old(self)),
            final(self)@ == old(self)@.with_join(),
    {
        if self.tracking {
            self.servers = bump(self.servers);
        }
    }

    /// One guild was left; the count never goes below zero.
    pub fn leave_server(&mut self)
        requires
            old(self).wf(),
        ensures
            final(self).wf(),
            final(self).same_commands(old(self)),
            final(self)@ == old(self)@.with_leave(),
            old(self)@.server_count == 0 ==> final(self)@.server_count == 0,
    {
        if self.tracking && self.servers > 0 {
            self.servers = self.servers - 1;
        }
    }

    /// One more shard came up.
    pub fn add_shard(&mut self)
        requires
            old(self).wf(),
        ensures
            final(self).wf(),
            final(self).same_commands(old(self)),
            final(self)@ == old(self)@.with_shard(),
    {
        if self.tracking {
            self.shards = bump(self.shards);
        }
    }

    /// One command attempt was observed.
    pub fn post_request(&mut self)
        requires
            old(self).wf(),
        ensures
            final(self).wf(),
            final(self).same_commands(old(self)),
            final(self)@ == old(self)@.with_request(),
    {
        if self.tracking {
            self.requests = bump(self.requests);
        }
    }

    /// The command `name` ran, successfully or not.
    pub fn command_executed(&mut self, name: &str)
        requires
            old(self).wf(),
        ensures
            final(self).wf(),
            final(self)@ == old(self)@,
            old(self)@.tracking ==> final(self).command_count(name@) == bumped(
                old(self).command_count(name@),
            ),
            old(self)@.tracking ==> forall|n: Seq<char>|
                n != name@ ==> #[trigger] final(self).command_count(n) == old(self).command_count(n),
            !old(self)@.tracking ==> final(self).same_commands(old(self)),
    {
        if self.tracking {
            self.commands.record(name);
        }
    }
}

/// Number of joins (`true`) among the events.
pub open spec fn joins(events: Seq<bool>) -> nat
    decreases events.len(),
{
    if events.len() == 0 {
        0
    } else {
        joins(events.drop_last()) + if events.last() {
            1nat
        } else {
            0nat
        }
    }
}

/// Number of leaves (`false`) among the events.
pub open spec fn leaves(events: Seq<bool>) -> nat
    decreases events.len(),
{
    if events.len() == 0 {
        0
    } else {
        leaves(events.drop_last()) + if events.last() {
            0nat
        } else {
            1nat
        }
    }
}

/// The server count after the joins (`true`) and leaves (`false`), in order,
/// starting from `c`.
pub open spec fn servers_after(c: u64, events: Seq<bool>) -> u64
    decreases events.len(),
{
    if events.len() == 0 {
        c
    } else if events.last() {
        bumped(servers_after(c, events.drop_last()))
    } else {
        dropped(servers_after(c, events.drop_last()))
    }
}

/// No prefix of the events holds more leaves than joins.
pub open spec fn leaves_matched(events: Seq<bool>) -> bool {
    forall|k: int| 0 <= k <= events.len() ==> leaves(#[trigger] events.take(k)) <= joins(events.take(k))
}

proof fn lemma_joins_bounded(events: Seq<bool>)
    ensures
        joins(events) <= events.len(),
    decreases events.len(),
{
    if events.len() > 0 {
        lemma_joins_bounded(events.drop_last());
    }
}

/// Starting from zero, whatever the order of joins and leaves, the server count
/// ends at the number of joins minus the number of leaves, provided each leave
/// matches an earlier join.
pub proof fn server_count_balance(events: Seq<bool>)
    requires
        leaves_matched(events),
        events.len() < u64::MAX,
    ensures
        servers_after(0, events) == joins(events) - leaves(events),
    decreases events.len(),
{
    if events.len() > 0 {
        let p = events.drop_last();
        assert forall|k: int| 0 <= k <= p.len() implies leaves(#[trigger] p.take(k)) <= joins(
            p.take(k),
        ) by {
            assert(p.take(k) =~= events.take(k));
        }
        server_count_balance(p);
        lemma_joins_bounded(p);
        assert(events.take(events.len() as int) =~= events);
    }
}

} // verus!
