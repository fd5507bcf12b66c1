use shardhub::config::{parse_u64, ConfigError, ConfigStore, BOT_ID_KEY, JOIN_LOG_KEY};
use shardhub::gateway::{
    after, before, dispatch_error, Blocklist, DispatchKind, Verdict, RATELIMITED_MESSAGE,
};
use shardhub::lifecycle::{is_fresh_join, Handler, Timestamp};
use shardhub::pending::PendingDeletes;
use shardhub::shards::{ReadyOutcome, ShardSignal, ShardTracker};
use shardhub::stats::{Stats, StatsPayload};

fn sig(shard: u64, total: u64, guilds: u64) -> ShardSignal {
    ShardSignal { shard, total, guilds }
}

fn ts(secs: i64) -> Timestamp {
    Timestamp { secs, nanos: 0 }
}

fn configured() -> ConfigStore {
    let mut c = ConfigStore::new();
    c.set(BOT_ID_KEY, "4242");
    c.set(JOIN_LOG_KEY, "777");
    c
}

#[test]
fn two_shards_fire_fleet_ready_once() {
    let mut h = Handler::new(true);
    let first = h.ready(sig(0, 2, 10));
    assert_eq!(first.outcome, ReadyOutcome::Counted);
    assert_eq!(first.fleet, None);
    let second = h.ready(sig(1, 2, 15));
    assert_eq!(second.outcome, ReadyOutcome::FleetReady { guild_total: 25 });
    let fleet = second.fleet.unwrap();
    assert_eq!(fleet.presence, 25);
    assert_eq!(fleet.push, Some(StatsPayload { server_count: 25, shard_count: 2 }));
    assert_eq!(h.stats.server_count(), 25);
    let late = h.ready(sig(1, 2, 15));
    assert_eq!(late.outcome, ReadyOutcome::Duplicate);
    assert_eq!(late.fleet, None);
    assert_eq!(h.stats.shard_count(), 2);
}

#[test]
fn shards_in_any_order() {
    let mut t = ShardTracker::new();
    assert_eq!(t.shard_ready(sig(2, 3, 1)), ReadyOutcome::Counted);
    assert_eq!(t.shard_ready(sig(0, 3, 2)), ReadyOutcome::Counted);
    assert_eq!(t.shard_ready(sig(1, 3, 4)), ReadyOutcome::FleetReady { guild_total: 7 });
    assert_eq!(t.reported_count(), 3);
}

#[test]
fn repeated_signal_not_double_counted() {
    let mut t = ShardTracker::new();
    assert_eq!(t.shard_ready(sig(0, 2, 10)), ReadyOutcome::Counted);
    assert_eq!(t.shard_ready(sig(0, 2, 10)), ReadyOutcome::Duplicate);
    assert_eq!(t.reported_count(), 1);
    assert_eq!(t.guild_total(), 10);
    assert_eq!(t.shard_ready(sig(1, 2, 5)), ReadyOutcome::FleetReady { guild_total: 15 });
}

#[test]
fn inconsistent_signals_are_anomalies() {
    let mut t = ShardTracker::new();
    assert_eq!(t.shard_ready(sig(0, 0, 1)), ReadyOutcome::Anomaly);
    assert_eq!(t.shard_ready(sig(3, 2, 1)), ReadyOutcome::Anomaly);
    assert_eq!(t.expected_shards(), None);
    assert_eq!(t.shard_ready(sig(0, 2, 1)), ReadyOutcome::Counted);
    assert_eq!(t.shard_ready(sig(1, 3, 1)), ReadyOutcome::Anomaly);
    assert_eq!(t.expected_shards(), Some(2));
    assert_eq!(t.reported_count(), 1);
}

#[test]
fn single_shard_fleet() {
    let mut t = ShardTracker::new();
    assert_eq!(t.shard_ready(sig(0, 1, 0)), ReadyOutcome::FleetReady { guild_total: 0 });
}

#[test]
fn leave_at_zero_stays_zero() {
    let mut s = Stats::new(true);
    s.leave_server();
    assert_eq!(s.server_count(), 0);
}

#[test]
fn joins_and_leaves_balance() {
    let mut s = Stats::new(true);
    s.new_server();
    s.new_server();
    s.leave_server();
    s.new_server();
    s.leave_server();
    assert_eq!(s.server_count(), 1);
    s.leave_server();
    s.leave_server();
    assert_eq!(s.server_count(), 0);
}

#[test]
fn tracking_off_changes_nothing() {
    let mut s = Stats::new(false);
    s.new_server();
    s.add_shard();
    s.post_request();
    s.command_executed("ping");
    assert_eq!(s.server_count(), 0);
    assert_eq!(s.shard_count(), 0);
    assert_eq!(s.request_count(), 0);
    assert_eq!(s.command_count_of("ping"), 0);
    assert_eq!(s.push(), None);
}

#[test]
fn command_counts_by_name() {
    let mut s = Stats::new(true);
    s.command_executed("ping");
    s.command_executed("help");
    s.command_executed("ping");
    assert_eq!(s.command_count_of("ping"), 2);
    assert_eq!(s.command_count_of("help"), 1);
    assert_eq!(s.command_count_of("other"), 0);
}

#[test]
fn blocked_user_aborts_without_count() {
    let mut s = Stats::new(true);
    let mut b = Blocklist::new();
    b.insert(5);
    assert_eq!(before(&mut s, &b, 5, Some(9)), Verdict::BlockedUser);
    assert_eq!(s.request_count(), 1);
    assert_eq!(s.command_count_of("ping"), 0);
}

#[test]
fn blocked_guild_aborts_without_count() {
    let mut s = Stats::new(true);
    let mut b = Blocklist::new();
    b.insert(9);
    let v = before(&mut s, &b, 5, Some(9));
    assert_eq!(v, Verdict::BlockedGuild);
    assert!(!v.allows());
    assert_eq!(s.command_count_of("ping"), 0);
}

#[test]
fn missing_guild_checks_zero() {
    let mut s = Stats::new(true);
    let mut b = Blocklist::new();
    assert_eq!(before(&mut s, &b, 5, None), Verdict::Allow);
    b.insert(0);
    assert_eq!(before(&mut s, &b, 5, None), Verdict::BlockedGuild);
    assert_eq!(before(&mut s, &b, 5, Some(3)), Verdict::Allow);
    b.remove(0);
    assert!(!b.contains(0));
    assert_eq!(s.request_count(), 3);
}

#[test]
fn after_counts_and_reports_failure() {
    let mut s = Stats::new(true);
    assert_eq!(after(&mut s, "roll", Ok(())), None);
    assert_eq!(after(&mut s, "roll", Err("bad dice".to_string())), Some("bad dice".to_string()));
    assert_eq!(s.command_count_of("roll"), 2);
}

#[test]
fn only_rate_limit_gets_reply() {
    assert_eq!(dispatch_error(DispatchKind::Ratelimited), Some(RATELIMITED_MESSAGE));
    assert_eq!(dispatch_error(DispatchKind::Other), None);
    assert_eq!(RATELIMITED_MESSAGE, "You are sending requests too fast!");
}

#[test]
fn stale_join_ignored() {
    let mut h = Handler::new(true);
    let c = configured();
    assert_eq!(h.guild_create(&c, ts(1000), ts(1045)), Ok(None));
    assert_eq!(h.stats.server_count(), 0);
}

#[test]
fn fresh_join_counted_and_announced() {
    let mut h = Handler::new(true);
    let c = configured();
    let u = h.guild_create(&c, ts(1000), ts(1010)).unwrap().unwrap();
    assert_eq!(u.bot_id, 4242);
    assert_eq!(u.audit_channel, Some(777));
    assert_eq!(u.presence, 1);
    assert_eq!(u.push, Some(StatsPayload { server_count: 1, shard_count: 0 }));
}

#[test]
fn join_without_bot_id_is_a_fault() {
    let mut h = Handler::new(true);
    let c = ConfigStore::new();
    assert_eq!(h.guild_create(&c, ts(1000), ts(1000)), Err(ConfigError::Missing));
}

#[test]
fn leave_counted_and_announced() {
    let mut h = Handler::new(true);
    let mut c = configured();
    c.set(JOIN_LOG_KEY, "not a channel");
    h.guild_create(&c, ts(50), ts(60)).unwrap();
    let u = h.guild_delete(&c).unwrap();
    assert_eq!(u.presence, 0);
    assert_eq!(u.audit_channel, None);
    assert_eq!(u.push, Some(StatsPayload { server_count: 0, shard_count: 0 }));
}

#[test]
fn freshness_window_edges() {
    assert!(is_fresh_join(ts(100), ts(129)));
    assert!(!is_fresh_join(ts(100), ts(130)));
    assert!(is_fresh_join(Timestamp { secs: 100, nanos: 5 }, Timestamp { secs: 130, nanos: 4 }));
    assert!(is_fresh_join(ts(i64::MAX), ts(i64::MAX)));
    assert!(!is_fresh_join(ts(i64::MIN), ts(0)));
}

#[test]
fn config_ids_parse() {
    let mut c = ConfigStore::new();
    assert_eq!(c.bot_id(), Err(ConfigError::Missing));
    c.set(BOT_ID_KEY, "12a");
    assert_eq!(c.bot_id(), Err(ConfigError::Invalid));
    c.set(BOT_ID_KEY, "+123");
    assert_eq!(c.bot_id(), Ok(123));
    c.set(BOT_ID_KEY, "18446744073709551616");
    assert_eq!(c.bot_id(), Err(ConfigError::Invalid));
    assert_eq!(c.get(BOT_ID_KEY), Some("18446744073709551616".to_string()));
    assert_eq!(c.join_log(), None);
    assert_eq!(c.get("absent"), None);
}

#[test]
fn deleted_trigger_takes_reply_once() {
    let mut p: PendingDeletes<&str> = PendingDeletes::new();
    p.record(11, "reply to 11");
    p.record(12, "reply to 12");
    assert_eq!(p.message_delete(11), Some("reply to 11"));
    assert!(!p.contains(11));
    assert_eq!(p.message_delete(11), None);
    assert_eq!(p.len(), 1);
}


#[test]
fn guild_total_same_in_any_order() {
    let mut a = ShardTracker::new();
    a.shard_ready(sig(0, 3, 4));
    a.shard_ready(sig(1, 3, 9));
    let first = a.shard_ready(sig(2, 3, 20));
    let mut b = ShardTracker::new();
    b.shard_ready(sig(2, 3, 20));
    b.shard_ready(sig(0, 3, 4));
    let second = b.shard_ready(sig(1, 3, 9));
    assert_eq!(first, ReadyOutcome::FleetReady { guild_total: 33 });
    assert_eq!(first, second);
}

#[test]
fn decimal_ids() {
    assert_eq!(parse_u64("0"), Some(0));
    assert_eq!(parse_u64("007"), Some(7));
    assert_eq!(parse_u64("+42"), Some(42));
    assert_eq!(parse_u64("18446744073709551615"), Some(u64::MAX));
    assert_eq!(parse_u64("18446744073709551616"), None);
    assert_eq!(parse_u64(""), None);
    assert_eq!(parse_u64("+"), None);
    assert_eq!(parse_u64("-1"), None);
    assert_eq!(parse_u64(" 1"), None);
    assert_eq!(parse_u64("1é"), None);
    assert_eq!(parse_u64("99999999999999999999x"), None);
}
