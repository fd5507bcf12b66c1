//! Reactions to guild join and leave and to shard readiness: what to count, and
//! what to announce, publish and display afterwards.
use vstd::prelude::*;
use crate::config::{ConfigError, ConfigStore};
use crate::shards::{guild_sum, ReadyOutcome, ShardSignal, ShardTracker};
use crate::stats::{Stats, StatsPayload, StatsView};

verus! {

/// How long after joining a guild its join notice still counts as new; older
/// notices are backfill after a reconnect.
pub const JOIN_FRESHNESS_SECS: i64 = 30;

/// A point in time: whole seconds since the Unix epoch and the nanoseconds
/// past them.
#[derive(Clone, Copy, Debug, PartialEq, Eq)]
pub struct Timestamp {
    pub secs: i64,
    pub nanos: u32,
}

/// `joined_at` plus the freshness window is still after `now`.
pub open spec fn fresh(joined_at: Timestamp, now: Timestamp) -> bool {
    let deadline = joined_at.secs + JOIN_FRESHNESS_SECS;
    deadline > now.secs || (deadline == now.secs && joined_at.nanos > now.nanos)
}

pub fn is_fresh_join(joined_at: Timestamp, now: Timestamp) -> (r: bool)
    ensures
        r == fresh(joined_at, now),
{
    let deadline: i128 = joined_at.secs as i128 + JOIN_FRESHNESS_SECS as i128;
    let current: i128 = now.secs as i128;
    deadline > current || (deadline == current && joined_at.nanos > now.nanos)
}

/// What follows a counted join or leave.
#[derive(Clone, Copy, Debug, PartialEq, Eq)]
pub struct GuildUpdate {
    /// The bot's id, under which the figures are published.
    pub bot_id: u64,
    /// Figures to publish, when tracking is on.
    pub push: Option<StatsPayload>,
    /// Channel for the join or leave notice, when one is configured.
    pub audit_channel: Option<u64>,
    /// Guild count to show in the bot's presence.
    pub presence: u64,
}

/// What follows the fleet becoming ready.
#[derive(Clone, Copy, Debug, PartialEq, Eq)]
pub struct FleetUpdate {
    /// Figures to publish, when tracking is on.
    pub push: Option<StatsPayload>,
    /// Guild count to show in the bot's presence.
    pub presence: u64,
}

/// The result of a ready signal.
#[derive(Clone, Copy, Debug, PartialEq, Eq)]
pub struct ReadyPlan {
    pub outcome: ReadyOutcome,
    /// Present exactly when this signal completed the fleet.
    pub fleet: Option<FleetUpdate>,
}

/// The reply to a join notice, given the counters after it and whether it was
/// counted.
pub open spec fn join_result(stats: StatsView, config: &ConfigStore, counted: bool) -> Result<
    Option<GuildUpdate>,
    ConfigError,
> {
    if !counted {
        Ok(None)
    } else {
        match config.id_setting(crate::config::BOT_ID_KEY@) {
            Ok(bot_id) => Ok(
                Some(
                    GuildUpdate {
                        bot_id,
                        push: stats.push(),
                        audit_channel: config.id_setting(crate::config::JOIN_LOG_KEY@).ok(),
                        presence: stats.server_count,
                    },
                ),
            ),
            Err(e) => Err(e),
        }
    }
}

/// The shared state the lifecycle handlers work on.
pub struct Handler {
    pub stats: Stats,
    pub shards: ShardTracker,
}

impl Handler {
    /// While tracking, the shard count is the number of shards counted so far.
    pub open spec fn wf(&self) -> bool {
        &&& self.stats.wf()
        &&& self.shards.wf()
        &&& self.stats@.tracking ==> self.stats@.shard_count == self.shards@.reports.len()
    }

    pub fn new(tracking: bool) -> (r: Handler)
        ensures
            r.wf(),
            r.stats@.tracking == tracking,
            r.stats@.server_count == 0,
            r.stats@.shard_count == 0,
            r.stats@.request_count == 0,
            r.shards@ == crate::shards::ShardModel::initial(),
    {
        Handler { stats: Stats::new(tracking), shards: ShardTracker::new() }
    }

    /// The follow-up of a counted join or leave, once the counters are updated.
    fn guild_update(&self, config: &ConfigStore) -> (r: Result<GuildUpdate, ConfigError>)
        ensures
            r == (match config.id_setting(crate::config::BOT_ID_KEY@) {
                Ok(bot_id) => Ok(
                    GuildUpdate {
                        bot_id,
                        push: self.stats@.push(),
                        audit_channel: config.id_setting(crate::config::JOIN_LOG_KEY@).ok(),
                        presence: self.stats@.server_count,
                    },
                ),
                Err(e) => Err(e),
            }),
    {
        let bot_id = match config.bot_id() {
            Ok(id) => id,
            Err(e) => return Err(e),
        };
        Ok(
            GuildUpdate {
                bot_id,
                push: self.stats.push(),
                audit_channel: config.join_log(),
                presence: self.stats.server_count(),
            },
        )
    }

    /// A guild became available at `now`. Only a join newer than the freshness
    /// window is counted and followed up; an older one is ignored (`Ok(None)`).
    /// The follow-up fails when the bot's id is not configured.
    pub fn guild_create(
        &mut self,
        config: &ConfigStore,
        joined_at: Timestamp,
        now: Timestamp,
    ) -> (r: Result<Option<GuildUpdate>, ConfigError>)
        requires
            old(self).wf(),
        ensures
            final(self).wf(),
            final(self).shards == old(self).shards,
            final(self).stats.same_commands(&old(self).stats),
            final(self).stats@ == (if fresh(joined_at, now) {
                old(self).stats@.with_join()
            } else {
                old(self).stats@
            }),
            r == join_result(final(self).stats@, config, fresh(joined_at, now)),
    {
        if !is_fresh_join(joined_at, now) {
            return Ok(None);
        }
        self.stats.new_server();
        match self.guild_update(config) {
            Ok(u) => Ok(Some(u)),
            Err(e) => Err(e),
        }
    }

    /// The bot left a guild: counted always, then followed up. The follow-up
    /// fails when the bot's id is not configured.
    pub fn guild_delete(&mut self, config: &ConfigStore) -> (r: Result<GuildUpdate, ConfigError>)
        requires
            old(self).wf(),
        ensures
            final(self).wf(),
            final(self).shards == old(self).shards,
            final(self).stats.same_commands(&old(self).stats),
            final(self).stats@ == old(self).stats@.with_leave(),
            r == (match config.id_setting(crate::config::BOT_ID_KEY@) {
                Ok(bot_id) => Ok(
                    GuildUpdate {
                        bot_id,
                        push: final(self).stats@.push(),
                        audit_channel: config.id_setting(crate::config::JOIN_LOG_KEY@).ok(),
                        presence: final(self).stats@.server_count,
                    },
                ),
                Err(e) => Err(e),
            }),
    {
        self.stats.leave_server();
        self.guild_update(config)
    }

    /// The whole fleet is up, serving `guild_count` guilds: the server count
    /// starts from there.
    pub fn all_shards_ready(&mut self, guild_count: u64) -> (r: FleetUpdate)
        requires
            old(self).wf(),
        ensures
            final(self).wf(),
            final(self).shards == old(self).shards,
            final(self).stats.same_commands(&old(self).stats),
            final(self).stats@ == old(self).stats@.with_servers(guild_count),
            r == (FleetUpdate { push: final(self).stats@.push(), presence: guild_count }),
    {
        self.stats.set_server_count(guild_count);
        FleetUpdate { push: self.stats.push(), presence: guild_count }
    }

    /// A shard reported ready. A counted shard is added to the statistics; the
    /// shard that completes the fleet also brings the fleet-ready follow-up.
    pub fn ready(&mut self, sig: ShardSignal) -> (r: ReadyPlan)
        requires
            old(self).wf(),
            guild_sum(old(self).shards@.reports) + sig.guilds <= u64::MAX,
        ensures
            final(self).wf(),
            (final(self).shards@, r.outcome) == old(self).shards@.step(sig),
            (r.outcome is Counted || r.outcome is FleetReady) ==> guild_sum(
                final(self).shards@.reports,
            ) == guild_sum(old(self).shards@.reports) + sig.guilds,
            final(self).stats.same_commands(&old(self).stats),
            final(self).stats@ == (match r.outcome {
                ReadyOutcome::Counted => old(self).stats@.with_shard(),
                ReadyOutcome::FleetReady { guild_total } => old(
                    self,
                ).stats@.with_shard().with_servers(guild_total),
                _ => old(self).stats@,
            }),
            r.fleet is Some ==> r.fleet->0.push is Some ==> r.fleet->0.push->0.shard_count
                == sig.total,
            r.fleet == (match r.outcome {
                ReadyOutcome::FleetReady { guild_total } => Some(
                    FleetUpdate { push: final(self).stats@.push(), presence: guild_total },
                ),
                _ => None,
            }),
    {
        let outcome = self.shards.shard_ready(sig);
        match outcome {
            ReadyOutcome::Counted => {
                self.stats.add_shard();
                ReadyPlan { outcome, fleet: None }
            },
            ReadyOutcome::FleetReady { guild_total } => {
                self.stats.add_shard();
                let fleet = self.all_shards_ready(guild_total);
                ReadyPlan { outcome, fleet: Some(fleet) }
            },
            _ => ReadyPlan { outcome, fleet: None },
        }
    }
}

} // verus!
