//! Hooks run around every command: blocklist gate before, failure reply and
//! per-command counting after, and the reply to a dispatch-level rejection.
use vstd::prelude::*;
use std::collections::HashSet;
use crate::counts::bumped;
use crate::stats::Stats;

verus! {

broadcast use vstd::std_specs::hash::group_hash_axioms;

/// Guild id used for commands that do not come from a guild.
pub const NO_GUILD: u64 = 0;

/// Reply to a blocked user or guild.
pub const BLOCKED_MESSAGE: &'static str = "This server or user is blocked from executing commands. This may have happened due to abuse, spam, or other reasons. If you feel that this has been done in error, request an unban in the support server.";

/// Reply to a rate-limited command.
pub const RATELIMITED_MESSAGE: &'static str = "You are sending requests too fast!";

/// User and guild ids that may not run commands.
pub struct Blocklist {
    ids: HashSet<u64>,
}

impl View for Blocklist {
    type V = Set<u64>;

    closed spec fn view(&self) -> Set<u64> {
        self.ids@
    }
}

impl Blocklist {
    pub fn new() -> (r: Blocklist)
        ensures
            r@ == Set::<u64>::empty(),
    {
        Blocklist { ids: HashSet::new() }
    }

    pub fn insert(&mut self, id: u64)
        ensures
            final(self)@ == old(self)@.insert(id),
    {
        self.ids.insert(id);
    }

    pub fn remove(&mut self, id: u64)
        ensures
            final(self)@ == old(self)@.remove(id),
    {
        self.ids.remove(&id);
    }

    pub fn contains(&self, id: u64) -> (r: bool)
        ensures
            r == self@.contains(id),
    {
        self.ids.contains(&id)
    }
}

/// The outcome of the pre-command check.
#[derive(Clone, Copy, Debug, PartialEq, Eq)]
pub enum Verdict {
    Allow,
    /// The invoking user is blocked.
    BlockedUser,
    /// The user is not blocked, the originating guild is.
    BlockedGuild,
}

impl Verdict {
    /// Whether the command body may run.
    pub fn allows(&self) -> (r: bool)
        ensures
            r == (*self is Allow),
    {
        match self {
            Verdict::Allow => true,
            _ => false,
        }
    }
}

/// The guild id checked against the blocklist: the guild's, or `NO_GUILD`.
pub open spec fn guild_key(guild_id: Option<u64>) -> u64 {
    match guild_id {
        Some(g) => g,
        None => NO_GUILD,
    }
}

pub open spec fn verdict_of(blocked: Set<u64>, user_id: u64, guild_id: Option<u64>) -> Verdict {
    if blocked.contains(user_id) {
        Verdict::BlockedUser
    } else if blocked.contains(guild_key(guild_id)) {
        Verdict::BlockedGuild
    } else {
        Verdict::Allow
    }
}

/// Runs before every command: counts the attempt, then decides from the
/// blocklist whether the command may run. It never touches the per-command
/// counters, so a denied command is never counted.
pub fn before(stats: &mut Stats, blocklist: &Blocklist, user_id: u64, guild_id: Option<u64>) -> (r:
    Verdict)
    requires
        old(stats).wf(),
    ensures
        final(stats).wf(),
        final(stats)@ == old(stats)@.with_request(),
        final(stats).same_commands(old(stats)),
        r == verdict_of(blocklist@, user_id, guild_id),
        (blocklist@.contains(user_id) || blocklist@.contains(guild_key(guild_id))) <==> !(r is Allow),
{
    stats.post_request();
    let guild = match guild_id {
        Some(g) => g,
        None => NO_GUILD,
    };
    if blocklist.contains(user_id) {
        Verdict::BlockedUser
    } else if blocklist.contains(guild) {
        Verdict::BlockedGuild
    } else {
        Verdict::Allow
    }
}

/// Runs after every command that was allowed to run: counts it under its name,
/// whatever the outcome, and hands back the failure text to show the user, if
/// the command failed.
pub fn after(stats: &mut Stats, command_name: &str, command_result: Result<(), String>) -> (r:
    Option<String>)
    requires
        old(stats).wf(),
    ensures
        final(stats).wf(),
        final(stats)@ == old(stats)@,
        old(stats)@.tracking ==> final(stats).command_count(command_name@) == bumped(
            old(stats).command_count(command_name@),
        ),
        old(stats)@.tracking ==> forall|n: Seq<char>|
            n != command_name@ ==> #[trigger] final(stats).command_count(n) == old(
                stats,
            ).command_count(n),
        !old(stats)@.tracking ==> final(stats).same_commands(old(stats)),
        r == match command_result {
            Ok(()) => None,
            Err(e) => Some(e),
        },
{
    stats.command_executed(command_name);
    match command_result {
        Ok(()) => None,
        Err(e) => Some(e),
    }
}

/// The kinds of dispatch-level rejection that are told apart.
#[derive(Clone, Copy, Debug, PartialEq, Eq)]
pub enum DispatchKind {
    Ratelimited,
    Other,
}

/// The reply to a command the dispatcher rejected: only a rate limit gets one.
pub fn dispatch_error(kind: DispatchKind) -> (r: Option<&'static str>)
    ensures
        r == (match kind {
            DispatchKind::Ratelimited => Some(RATELIMITED_MESSAGE),
            DispatchKind::Other => None,
        }),
{
    match kind {
        DispatchKind::Ratelimited => Some(RATELIMITED_MESSAGE),
        DispatchKind::Other => None,
    }
}

} // verus!
