//! Sessions and their registry.
//!
//! A session is a sandbox that outlives a single run: it keeps its root
//! directory, its environment and its working directory until it is deleted
//! or has been idle for longer than the time to live. Time is what the
//! caller says it is: every operation that needs it takes the reading of a
//! monotonic clock in milliseconds.

use crate::env::{
    as_map, distinct_names, lemma_merged_distinct, lemma_merged_is_union, merged, Binding, Env,
};
use crate::sandbox::RunConfig;
use crate::text::{clone_strings, strings_of};
use vstd::prelude::*;
use vstd::string::*;

verus! {

/// How long a session may stay idle, in seconds.
pub const SESSION_TTL_SECS: u64 = 300;

/// How often the registry is to be reaped, in seconds.
pub const REAP_INTERVAL_SECS: u64 = 60;

/// Milliseconds in a second.
pub const MILLIS_PER_SEC: u64 = 1000;

/// A sandbox with a persistent environment and working directory.
#[derive(Debug)]
pub struct Session {
    pub id: String,
    pub sandbox_root: String,
    pub env: Env,
    pub cwd: String,
    /// Clock reading at creation, in milliseconds.
    pub created_at: u64,
    /// Clock reading at the last use, in milliseconds.
    pub last_used: u64,
}

/// A session as contracts see it.
pub struct SessionView {
    pub id: Seq<char>,
    pub sandbox_root: Seq<char>,
    pub env: Seq<Binding>,
    pub cwd: Seq<char>,
    pub created_at: u64,
    pub last_used: u64,
}

impl View for Session {
    type V = SessionView;

    open spec fn view(&self) -> SessionView {
        SessionView {
            id: self.id@,
            sandbox_root: self.sandbox_root@,
            env: self.env@,
            cwd: self.cwd@,
            created_at: self.created_at,
            last_used: self.last_used,
        }
    }
}

/// True when some session of `s` has the id `id`.
pub open spec fn has_session(s: Seq<SessionView>, id: Seq<char>) -> bool {
    exists|i: int| 0 <= i < s.len() && (#[trigger] s[i]).id == id
}

/// The position of a session of `s` with the id `id`.
pub open spec fn slot_of(s: Seq<SessionView>, id: Seq<char>) -> int {
    choose|i: int| 0 <= i < s.len() && (#[trigger] s[i]).id == id
}

/// The session of `s` with the id `id`.
pub open spec fn session_of(s: Seq<SessionView>, id: Seq<char>) -> SessionView {
    s[slot_of(s, id)]
}

/// No id occurs in two sessions.
pub open spec fn distinct_ids(s: Seq<SessionView>) -> bool {
    forall|i: int, j: int| 0 <= i < j < s.len() ==> (#[trigger] s[i]).id != (#[trigger] s[j]).id
}

/// No session was used before it was created.
pub open spec fn ordered_times(s: Seq<SessionView>) -> bool {
    forall|i: int| 0 <= i < s.len() ==> (#[trigger] s[i]).created_at <= s[i].last_used
}

/// The time from `since` to `now`, and zero where `since` is the later one.
pub open spec fn elapsed(now: u64, since: u64) -> u64 {
    if now >= since {
        (now - since) as u64
    } else {
        0
    }
}

/// True when the session has been idle at `now` for longer than the time to
/// live.
pub open spec fn expired(v: SessionView, now: u64) -> bool {
    elapsed(now, v.last_used) > SESSION_TTL_SECS * MILLIS_PER_SEC
}

/// The session after a use at `now`: the time of its last use moves up to
/// `now` and never back.
pub open spec fn refreshed(v: SessionView, now: u64) -> SessionView {
    SessionView {
        last_used: if now > v.last_used {
            now
        } else {
            v.last_used
        },
        ..v
    }
}

/// A session as it is at its creation at `now`.
pub open spec fn fresh_session(
    id: Seq<char>,
    sandbox_root: Seq<char>,
    env: Seq<Binding>,
    now: u64,
) -> SessionView {
    SessionView { id, sandbox_root, env, cwd: "/"@, created_at: now, last_used: now }
}

/// `s` with the session `v` added: it takes the place of a session with the
/// same id, and goes to the end where there is none.
pub open spec fn opened(s: Seq<SessionView>, v: SessionView) -> Seq<SessionView> {
    if has_session(s, v.id) {
        s.update(slot_of(s, v.id), v)
    } else {
        s.push(v)
    }
}

/// `s` without the session `id`.
pub open spec fn closed(s: Seq<SessionView>, id: Seq<char>) -> Seq<SessionView> {
    if has_session(s, id) {
        s.remove(slot_of(s, id))
    } else {
        s
    }
}

/// `s` after the session `id` was used at `now`.
pub open spec fn used(s: Seq<SessionView>, id: Seq<char>, now: u64) -> Seq<SessionView> {
    if has_session(s, id) {
        s.update(slot_of(s, id), refreshed(session_of(s, id), now))
    } else {
        s
    }
}

/// `s` after `over` was merged into the environment of the session `id` at
/// `now`.
pub open spec fn with_env(s: Seq<SessionView>, id: Seq<char>, over: Seq<Binding>, now: u64) -> Seq<
    SessionView,
> {
    if has_session(s, id) {
        let v = refreshed(session_of(s, id), now);
        s.update(slot_of(s, id), SessionView { env: merged(v.env, over), ..v })
    } else {
        s
    }
}

/// `s` after the working directory of the session `id` was set to `cwd` at
/// `now`.
pub open spec fn with_cwd(s: Seq<SessionView>, id: Seq<char>, cwd: Seq<char>, now: u64) -> Seq<
    SessionView,
> {
    if has_session(s, id) {
        let v = refreshed(session_of(s, id), now);
        s.update(slot_of(s, id), SessionView { cwd, ..v })
    } else {
        s
    }
}

/// The sessions of `s` that have not expired at `now`, in their order.
pub open spec fn survivors(s: Seq<SessionView>, now: u64) -> Seq<SessionView>
    decreases s.len(),
{
    if s.len() == 0 {
        s
    } else if expired(s.last(), now) {
        survivors(s.drop_last(), now)
    } else {
        survivors(s.drop_last(), now).push(s.last())
    }
}

/// The roots of the sessions of `s` that have expired at `now`, in their
/// order.
pub open spec fn expired_roots(s: Seq<SessionView>, now: u64) -> Seq<Seq<char>>
    decreases s.len(),
{
    if s.len() == 0 {
        Seq::empty()
    } else if expired(s.last(), now) {
        expired_roots(s.drop_last(), now).push(s.last().sandbox_root)
    } else {
        expired_roots(s.drop_last(), now)
    }
}

/// An operation that can change the registry.
pub enum Command {
    Create { id: Seq<char>, sandbox_root: Seq<char>, env: Seq<Binding>, now: u64 },
    Delete { id: Seq<char> },
    SetEnv { id: Seq<char>, env: Seq<Binding>, now: u64 },
    SetCwd { id: Seq<char>, cwd: Seq<char>, now: u64 },
    /// A run, or a file read or written: the session is used and not changed.
    Use { id: Seq<char>, now: u64 },
    Reap { now: u64 },
}

/// The registry after one operation.
pub open spec fn after(s: Seq<SessionView>, command: Command) -> Seq<SessionView> {
    match command {
        Command::Create { id, sandbox_root, env, now } => opened(
            s,
            fresh_session(id, sandbox_root, env, now),
        ),
        Command::Delete { id } => closed(s, id),
        Command::SetEnv { id, env, now } => with_env(s, id, env, now),
        Command::SetCwd { id, cwd, now } => with_cwd(s, id, cwd, now),
        Command::Use { id, now } => used(s, id, now),
        Command::Reap { now } => survivors(s, now),
    }
}

/// The registry after a sequence of operations, first to last.
pub open spec fn after_all(s: Seq<SessionView>, commands: Seq<Command>) -> Seq<SessionView>
    decreases commands.len(),
{
    if commands.len() == 0 {
        s
    } else {
        after(after_all(s, commands.drop_last()), commands.last())
    }
}

/// True when nothing in `commands`, carried out on `s`, ends the session
/// `id`: none of them deletes it, and at each reaping it has not been idle
/// for longer than the time to live.
pub open spec fn spares(s: Seq<SessionView>, id: Seq<char>, commands: Seq<Command>) -> bool
    decreases commands.len(),
{
    if commands.len() == 0 {
        true
    } else {
        let before = after_all(s, commands.drop_last());
        &&& spares(s, id, commands.drop_last())
        &&& match commands.last() {
            Command::Delete { id: gone } => gone != id,
            Command::Reap { now } => !expired(session_of(before, id), now),
            _ => true,
        }
    }
}

/// Registries that hold the same ids at the same places hold the same
/// sessions by id.
pub proof fn lemma_same_ids(s: Seq<SessionView>, t: Seq<SessionView>)
    requires
        s.len() == t.len(),
        forall|i: int| 0 <= i < s.len() ==> (#[trigger] s[i]).id == t[i].id,
    ensures
        forall|id: Seq<char>| has_session(s, id) == has_session(t, id),
{
    assert forall|id: Seq<char>| has_session(s, id) == has_session(t, id) by {
        if has_session(s, id) {
            let i = slot_of(s, id);
            assert(t[i].id == id);
        }
        if has_session(t, id) {
            let i = slot_of(t, id);
            assert(s[i].id == id);
        }
    }
}

/// True when `t` holds the sessions of `s`, each at its place and with its
/// id, its root and its time of creation.
pub open spec fn same_sessions(s: Seq<SessionView>, t: Seq<SessionView>) -> bool {
    &&& s.len() == t.len()
    &&& forall|i: int|
        0 <= i < s.len() ==> (#[trigger] t[i]).id == s[i].id && t[i].sandbox_root
            == s[i].sandbox_root && t[i].created_at == s[i].created_at && t[i].last_used
            >= s[i].last_used
    &&& forall|id: Seq<char>| has_session(s, id) == has_session(t, id)
}

/// What survives a reaping is what was there and had not expired, in the
/// same order; so ids stay distinct and times stay ordered.
pub proof fn lemma_survivors(s: Seq<SessionView>, now: u64)
    ensures
        survivors(s, now).len() <= s.len(),
        forall|j: int|
            0 <= j < survivors(s, now).len() ==> !expired(#[trigger] survivors(s, now)[j], now)
                && has_session(s, survivors(s, now)[j].id) && s.contains(survivors(s, now)[j]),
        forall|i: int|
            0 <= i < s.len() && !expired(#[trigger] s[i], now) ==> survivors(s, now).contains(
                s[i],
            ),
        distinct_ids(s) ==> distinct_ids(survivors(s, now)),
        ordered_times(s) ==> ordered_times(survivors(s, now)),
    decreases s.len(),
{
    if s.len() > 0 {
        let init = s.drop_last();
        let last = s.last();
        lemma_survivors(init, now);
        let kept = survivors(init, now);
        let all = survivors(s, now);
        assert forall|j: int| 0 <= j < all.len() implies !expired(#[trigger] all[j], now)
            && has_session(s, all[j].id) && s.contains(all[j]) by {
            if j < kept.len() {
                assert(all[j] == kept[j]);
                let i = choose|i: int| 0 <= i < init.len() && init[i] == kept[j];
                assert(s[i] == all[j]);
            } else {
                assert(all[j] == last);
                assert(s[s.len() - 1] == last);
            }
        }
        assert forall|i: int| 0 <= i < s.len() && !expired(#[trigger] s[i], now) implies all.contains(
            s[i],
        ) by {
            if i < init.len() {
                assert(init[i] == s[i]);
                let j = choose|j: int| 0 <= j < kept.len() && kept[j] == init[i];
                assert(all[j] == s[i]);
            } else {
                assert(all[all.len() - 1] == s[i]);
            }
        }
        if distinct_ids(s) {
            assert(distinct_ids(init));
            assert forall|i: int, j: int| 0 <= i < j < all.len() implies (#[trigger] all[i]).id != (
            #[trigger] all[j]).id by {
                if j < kept.len() {
                    assert(all[i] == kept[i] && all[j] == kept[j]);
                } else {
                    assert(all[i] == kept[i]);
                    let k = choose|k: int| 0 <= k < init.len() && init[k] == kept[i];
                    assert(s[k].id != s[s.len() - 1].id);
                }
            }
        }
        if ordered_times(s) {
            assert(ordered_times(init));
            assert forall|j: int| 0 <= j < all.len() implies (#[trigger] all[j]).created_at
                <= all[j].last_used by {
                if j < kept.len() {
                    assert(all[j] == kept[j]);
                } else {
                    assert(all[j] == s[s.len() - 1]);
                }
            }
        }
    }
}

/// Every operation keeps ids distinct.
pub proof fn lemma_after_keeps_ids(s: Seq<SessionView>, command: Command)
    requires
        distinct_ids(s),
    ensures
        distinct_ids(after(s, command)),
{
    let t = after(s, command);
    match command {
        Command::Create { id, sandbox_root, env, now } => {
            if !has_session(s, id) {
                assert forall|i: int, j: int| 0 <= i < j < t.len() implies (#[trigger] t[i]).id != (
                #[trigger] t[j]).id by {
                    if j == s.len() {
                        assert(s[i].id != id);
                    }
                }
            }
        },
        Command::Delete { id } => {
            if has_session(s, id) {
                let k = slot_of(s, id);
                assert forall|i: int, j: int| 0 <= i < j < t.len() implies (#[trigger] t[i]).id != (
                #[trigger] t[j]).id by {
                    let a = if i < k {
                        i
                    } else {
                        i + 1
                    };
                    let b = if j < k {
                        j
                    } else {
                        j + 1
                    };
                    assert(t[i] == s[a] && t[j] == s[b]);
                }
            }
        },
        Command::SetEnv { id, env, now } => {},
        Command::SetCwd { id, cwd, now } => {},
        Command::Use { id, now } => {},
        Command::Reap { now } => {
            lemma_survivors(s, now);
        },
    }
}

/// Every operation keeps ids distinct and times ordered.
pub proof fn lemma_after_keeps_order(s: Seq<SessionView>, command: Command)
    requires
        distinct_ids(s),
        ordered_times(s),
    ensures
        distinct_ids(after(s, command)),
        ordered_times(after(s, command)),
{
    lemma_after_keeps_ids(s, command);
    let t = after(s, command);
    match command {
        Command::Delete { id } => {
            if has_session(s, id) {
                let k = slot_of(s, id);
                assert forall|i: int| 0 <= i < t.len() implies (#[trigger] t[i]).created_at
                    <= t[i].last_used by {
                    let a = if i < k {
                        i
                    } else {
                        i + 1
                    };
                    assert(t[i] == s[a]);
                }
            }
        },
        Command::Reap { now } => {
            lemma_survivors(s, now);
        },
        _ => {},
    }
}

/// One operation that spares a session leaves it in the registry, with the
/// id, the root and the time of creation that it had.
pub proof fn lemma_after_spares(s: Seq<SessionView>, id: Seq<char>, command: Command)
    requires
        distinct_ids(s),
        has_session(s, id),
        match command {
            Command::Delete { id: gone } => gone != id,
            Command::Reap { now } => !expired(session_of(s, id), now),
            _ => true,
        },
    ensures
        has_session(after(s, command), id),
        match command {
            Command::Create { id: made, .. } => made == id,
            _ => false,
        } || {
            &&& session_of(after(s, command), id).sandbox_root == session_of(s, id).sandbox_root
            &&& session_of(after(s, command), id).created_at == session_of(s, id).created_at
            &&& session_of(after(s, command), id).last_used >= session_of(s, id).last_used
        },
{
    let t = after(s, command);
    let k = slot_of(s, id);
    lemma_after_keeps_ids(s, command);
    match command {
        Command::Create { id: made, sandbox_root, env, now } => {
            if has_session(s, made) {
                let m = slot_of(s, made);
                assert(t[k].id == id);
                if made != id {
                    assert(t[k] == s[k]);
                    assert(slot_of(t, id) == k);
                }
            } else {
                assert(t[k] == s[k]);
                assert(slot_of(t, id) == k);
            }
        },
        Command::Delete { id: gone } => {
            if has_session(s, gone) {
                let g = slot_of(s, gone);
                let n = if k < g {
                    k
                } else {
                    k - 1
                };
                assert(t[n] == s[k]);
                assert(slot_of(t, id) == n);
            }
        },
        Command::SetEnv { id: target, env, now } => {
            assert(t[k].id == id);
            assert(slot_of(t, id) == k);
        },
        Command::SetCwd { id: target, cwd, now } => {
            assert(t[k].id == id);
            assert(slot_of(t, id) == k);
        },
        Command::Use { id: target, now } => {
            assert(t[k].id == id);
            assert(slot_of(t, id) == k);
        },
        Command::Reap { now } => {
            lemma_survivors(s, now);
            assert(t.contains(s[k]));
            let j = choose|j: int| 0 <= j < t.len() && t[j] == s[k];
            assert(t[j].id == id);
            assert(slot_of(t, id) == j);
        },
    }
}

/// Setting the environment of a session twice leaves it with the union of
/// what it had and the two maps, in which the second map wins over the
/// first and both win over what was there.
pub proof fn lemma_set_env_twice(
    s: Seq<SessionView>,
    id: Seq<char>,
    first: Seq<Binding>,
    second: Seq<Binding>,
    now: u64,
    later: u64,
)
    requires
        distinct_ids(s),
        has_session(s, id),
        distinct_names(session_of(s, id).env),
        distinct_names(first),
        distinct_names(second),
    ensures
        has_session(with_env(with_env(s, id, first, now), id, second, later), id),
        as_map(session_of(with_env(with_env(s, id, first, now), id, second, later), id).env)
            == as_map(session_of(s, id).env).union_prefer_right(as_map(first)).union_prefer_right(
            as_map(second),
        ),
{
    let k = slot_of(s, id);
    let once = with_env(s, id, first, now);
    assert(once[k].id == id);
    lemma_after_keeps_ids(s, Command::SetEnv { id, env: first, now });
    assert(slot_of(once, id) == k);
    let twice = with_env(once, id, second, later);
    assert(twice[k].id == id);
    lemma_after_keeps_ids(once, Command::SetEnv { id, env: second, now: later });
    assert(slot_of(twice, id) == k);
    let held = s[k].env;
    lemma_merged_distinct(held, first);
    lemma_merged_is_union(held, first);
    lemma_merged_is_union(merged(held, first), second);
}

/// A session stays in the registry through every sequence of operations
/// that neither deletes it nor reaps it after it has been idle for longer
/// than the time to live.
pub proof fn lemma_session_lives(s: Seq<SessionView>, id: Seq<char>, commands: Seq<Command>)
    requires
        distinct_ids(s),
        has_session(s, id),
        spares(s, id, commands),
    ensures
        distinct_ids(after_all(s, commands)),
        has_session(after_all(s, commands), id),
    decreases commands.len(),
{
    if commands.len() > 0 {
        lemma_session_lives(s, id, commands.drop_last());
        let before = after_all(s, commands.drop_last());
        lemma_after_keeps_ids(before, commands.last());
        lemma_after_spares(before, id, commands.last());
    }
}

/// What a caller is told about a session.
#[derive(Debug)]
pub struct SessionInfo {
    pub id: String,
    pub env: Env,
    pub cwd: String,
    /// Whole seconds since the session was created.
    pub age_secs: u64,
    /// Whole seconds since the session was last used.
    pub idle_secs: u64,
}

/// True when `info` describes the session `v` as it is at `now`.
pub open spec fn describes(info: SessionInfo, v: SessionView, now: u64) -> bool {
    &&& info.id@ == v.id
    &&& info.env@ == v.env
    &&& info.cwd@ == v.cwd
    &&& info.age_secs == elapsed(now, v.created_at) / MILLIS_PER_SEC
    &&& info.idle_secs == elapsed(now, v.last_used) / MILLIS_PER_SEC
}

/// The working directory of a run: the one asked for, unless that is empty
/// or `/`, which both stand for the session's own.
pub open spec fn effective_cwd(requested: Seq<char>, own: Seq<char>) -> Seq<char> {
    if requested.len() == 0 || requested == "/"@ {
        own
    } else {
        requested
    }
}

/// What a run in a session works with: the sandbox and the configuration
/// that holds for this run.
#[derive(Debug)]
pub struct SessionRun {
    pub sandbox_root: String,
    pub config: RunConfig,
}

/// True when `run` is the run of `request` in the session `v`: the limits
/// and the command are the request's, the environment is the session's with
/// the request's merged over it, and the working directory is the request's
/// unless it stands for the session's own.
pub open spec fn runs_in(run: SessionRun, request: RunConfig, v: SessionView) -> bool {
    &&& run.sandbox_root@ == v.sandbox_root
    &&& strings_of(run.config.command@) == strings_of(request.command@)
    &&& run.config.time_ms == request.time_ms
    &&& run.config.mem_kb == request.mem_kb
    &&& run.config.fsize_kb == request.fsize_kb
    &&& run.config.nofile == request.nofile
    &&& run.config.env@ == merged(v.env, request.env@)
    &&& run.config.cwd@ == effective_cwd(request.cwd@, v.cwd)
}

/// The time from `since` to `now`, and zero where `since` is the later one.
pub fn time_since(now: u64, since: u64) -> (span: u64)
    ensures
        span == elapsed(now, since),
{
    if now >= since {
        now - since
    } else {
        0
    }
}

/// Whether a session last used at `last_used` has expired at `now`.
pub fn is_expired(last_used: u64, now: u64) -> (gone: bool)
    ensures
        gone == (elapsed(now, last_used) > SESSION_TTL_SECS * MILLIS_PER_SEC),
{
    time_since(now, last_used) > SESSION_TTL_SECS * MILLIS_PER_SEC
}

/// The working directory of a run.
pub fn choose_cwd(requested: &String, own: &String) -> (cwd: String)
    ensures
        cwd@ == effective_cwd(requested@, own@),
{
    let root = String::from_str("/");
    if requested.as_str().unicode_len() == 0 || *requested == root {
        own.clone()
    } else {
        requested.clone()
    }
}

fn describe(session: &Session, now: u64) -> (info: SessionInfo)
    ensures
        describes(info, session@, now),
{
    SessionInfo {
        id: session.id.clone(),
        env: session.env.clone(),
        cwd: session.cwd.clone(),
        age_secs: time_since(now, session.created_at) / MILLIS_PER_SEC,
        idle_secs: time_since(now, session.last_used) / MILLIS_PER_SEC,
    }
}

fn copy_session(session: &Session) -> (copy: Session)
    ensures
        copy@ == session@,
{
    Session {
        id: session.id.clone(),
        sandbox_root: session.sandbox_root.clone(),
        env: session.env.clone(),
        cwd: session.cwd.clone(),
        created_at: session.created_at,
        last_used: session.last_used,
    }
}

fn refresh(session: Session, now: u64) -> (after: Session)
    ensures
        after@ == refreshed(session@, now),
{
    let last_used = if now > session.last_used {
        now
    } else {
        session.last_used
    };
    Session {
        id: session.id,
        sandbox_root: session.sandbox_root,
        env: session.env,
        cwd: session.cwd,
        created_at: session.created_at,
        last_used,
    }
}

/// The live sessions, each under its id.
#[derive(Debug)]
pub struct Registry {
    sessions: Vec<Session>,
}

impl View for Registry {
    type V = Seq<SessionView>;

    closed spec fn view(&self) -> Seq<SessionView> {
        self.sessions@.map_values(|s: Session| s@)
    }
}

impl Registry {
    /// What every registry satisfies: no id occurs twice, and no session was
    /// used before it was created.
    #[verifier::type_invariant]
    pub open spec fn well_formed(&self) -> bool {
        distinct_ids(self@) && ordered_times(self@)
    }

    /// A registry without sessions.
    pub fn new() -> (registry: Registry)
        ensures
            registry@ == Seq::<SessionView>::empty(),
    {
        let registry = Registry { sessions: Vec::new() };
        assert(registry@ =~= Seq::<SessionView>::empty());
        registry
    }

    /// The number of live sessions.
    pub fn len(&self) -> (n: usize)
        ensures
            n == self@.len(),
    {
        self.sessions.len()
    }

    /// The session at position `i`.
    pub fn session_at(&self, i: usize) -> (session: &Session)
        requires
            i < self@.len(),
        ensures
            session@ == self@[i as int],
    {
        &self.sessions[i]
    }

    /// Whether a session `id` is live.
    pub fn contains(&self, id: &str) -> (found: bool)
        ensures
            found == has_session(self@, id@),
    {
        self.position(id).is_some()
    }

    fn position(&self, id: &str) -> (found: Option<usize>)
        ensures
            match found {
                Some(i) => i < self@.len() && self@[i as int].id == id@ && i == slot_of(
                    self@,
                    id@,
                ) && has_session(self@, id@),
                None => !has_session(self@, id@),
            },
    {
        proof {
            use_type_invariant(self);
        }
        let wanted = String::from_str(id);
        let mut i: usize = 0;
        while i < self.sessions.len()
            invariant
                i <= self.sessions.len(),
                wanted@ == id@,
                distinct_ids(self@),
                forall|j: int| 0 <= j < i ==> (#[trigger] self@[j]).id != id@,
            decreases self.sessions.len() - i,
        {
            if self.sessions[i].id == wanted {
                proof {
                    assert(self@[i as int].id == id@);
                    let k = slot_of(self@, id@);
                    assert(self@[k].id == id@);
                }
                return Some(i);
            }
            i += 1;
        }
        None
    }

    /// Adds a session created at `now`, with the working directory `/`. A
    /// session that has the same id is replaced.
    pub fn create(&mut self, id: String, sandbox_root: String, env: Env, now: u64)
        ensures
            final(self)@ == opened(old(self)@, fresh_session(id@, sandbox_root@, env@, now)),
            has_session(final(self)@, id@),
            session_of(final(self)@, id@) == fresh_session(id@, sandbox_root@, env@, now),
    {
        proof {
            use_type_invariant(&*self);
        }
        let ghost before = self@;
        let ghost made = fresh_session(id@, sandbox_root@, env@, now);
        let found = self.position(id.as_str());
        let session = Session {
            id,
            sandbox_root,
            env,
            cwd: String::from_str("/"),
            created_at: now,
            last_used: now,
        };
        let mut sessions: Vec<Session> = Vec::new();
        core::mem::swap(&mut sessions, &mut self.sessions);
        match found {
            Some(i) => {
                sessions.set(i, session);
            },
            None => {
                sessions.push(session);
            },
        }
        proof {
            let now_held = sessions@.map_values(|s: Session| s@);
            assert(now_held =~= opened(before, made));
            lemma_after_keeps_order(
                before,
                Command::Create { id: made.id, sandbox_root: made.sandbox_root, env: made.env, now },
            );
            let k = if found is Some {
                found->0 as int
            } else {
                before.len() as int
            };
            assert(now_held[k].id == made.id);
            assert(slot_of(now_held, made.id) == k);
        }
        self.sessions = sessions;
    }

    /// What is known of the session `id` at `now`. Looking does not count as
    /// a use.
    pub fn get(&self, id: &str, now: u64) -> (info: Option<SessionInfo>)
        ensures
            info is Some <==> has_session(self@, id@),
            info matches Some(i) ==> describes(i, session_of(self@, id@), now),
    {
        match self.position(id) {
            Some(i) => Some(describe(&self.sessions[i], now)),
            None => None,
        }
    }

    /// What is known of every session at `now`, in the registry's order.
    pub fn list(&self, now: u64) -> (infos: Vec<SessionInfo>)
        ensures
            infos@.len() == self@.len(),
            forall|i: int| 0 <= i < infos@.len() ==> describes(#[trigger] infos@[i], self@[i], now),
    {
        let mut infos: Vec<SessionInfo> = Vec::new();
        let mut i: usize = 0;
        while i < self.sessions.len()
            invariant
                i <= self.sessions.len(),
                infos@.len() == i,
                forall|j: int| 0 <= j < i ==> describes(#[trigger] infos@[j], self@[j], now),
            decreases self.sessions.len() - i,
        {
            infos.push(describe(&self.sessions[i], now));
            i += 1;
        }
        infos
    }

    /// Removes the session `id` and hands back the root that is now to be
    /// torn down, or `None` where there is no such session.
    pub fn delete(&mut self, id: &str) -> (root: Option<String>)
        ensures
            final(self)@ == closed(old(self)@, id@),
            root is Some <==> has_session(old(self)@, id@),
            root matches Some(r) ==> r@ == session_of(old(self)@, id@).sandbox_root,
            !has_session(final(self)@, id@),
    {
        proof {
            use_type_invariant(&*self);
        }
        let ghost before = self@;
        match self.position(id) {
            Some(i) => {
                let mut sessions: Vec<Session> = Vec::new();
                core::mem::swap(&mut sessions, &mut self.sessions);
                let session = sessions.remove(i);
                proof {
                    let now_held = sessions@.map_values(|s: Session| s@);
                    assert(now_held =~= closed(before, id@));
                    lemma_after_keeps_order(before, Command::Delete { id: id@ });
                    if has_session(now_held, id@) {
                        let j = slot_of(now_held, id@);
                        let a = if j < i {
                            j
                        } else {
                            j + 1
                        };
                        assert(now_held[j] == before[a]);
                        assert(before[a].id == before[i as int].id);
                    }
                }
                self.sessions = sessions;
                Some(session.sandbox_root)
            },
            None => None,
        }
    }

    /// Merges `over` into the environment of the session `id` and counts
    /// that as a use at `now`. Says whether there is such a session.
    pub fn set_env(&mut self, id: &str, over: &Env, now: u64) -> (found: bool)
        ensures
            final(self)@ == with_env(old(self)@, id@, over@, now),
            found == has_session(old(self)@, id@),
            same_sessions(old(self)@, final(self)@),
    {
        proof {
            use_type_invariant(&*self);
        }
        let ghost before = self@;
        match self.position(id) {
            Some(i) => {
                let mut sessions: Vec<Session> = Vec::new();
                core::mem::swap(&mut sessions, &mut self.sessions);
                let session = refresh(sessions.remove(i), now);
                let mut env = session.env;
                env.extend(over);
                sessions.insert(
                    i,
                    Session {
                        id: session.id,
                        sandbox_root: session.sandbox_root,
                        env,
                        cwd: session.cwd,
                        created_at: session.created_at,
                        last_used: session.last_used,
                    },
                );
                proof {
                    let now_held = sessions@.map_values(|s: Session| s@);
                    assert(now_held =~= with_env(before, id@, over@, now));
                    lemma_same_ids(before, now_held);
                    lemma_after_keeps_order(
                        before,
                        Command::SetEnv { id: id@, env: over@, now },
                    );
                }
                self.sessions = sessions;
                true
            },
            None => false,
        }
    }

    /// Sets the working directory of the session `id` to `cwd` as it is
    /// given, and counts that as a use at `now`. Says whether there is such
    /// a session.
    pub fn set_cwd(&mut self, id: &str, cwd: String, now: u64) -> (found: bool)
        ensures
            final(self)@ == with_cwd(old(self)@, id@, cwd@, now),
            found == has_session(old(self)@, id@),
            same_sessions(old(self)@, final(self)@),
    {
        proof {
            use_type_invariant(&*self);
        }
        let ghost before = self@;
        match self.position(id) {
            Some(i) => {
                let mut sessions: Vec<Session> = Vec::new();
                core::mem::swap(&mut sessions, &mut self.sessions);
                let session = refresh(sessions.remove(i), now);
                sessions.insert(
                    i,
                    Session {
                        id: session.id,
                        sandbox_root: session.sandbox_root,
                        env: session.env,
                        cwd,
                        created_at: session.created_at,
                        last_used: session.last_used,
                    },
                );
                proof {
                    let now_held = sessions@.map_values(|s: Session| s@);
                    assert(now_held =~= with_cwd(before, id@, cwd@, now));
                    lemma_same_ids(before, now_held);
                    lemma_after_keeps_order(before, Command::SetCwd { id: id@, cwd: cwd@, now });
                }
                self.sessions = sessions;
                true
            },
            None => false,
        }
    }

    /// Counts a use of the session `id` at `now` and hands back its root, or
    /// `None` where there is no such session. This is what reading or
    /// writing a file in the session starts with.
    pub fn touch(&mut self, id: &str, now: u64) -> (root: Option<String>)
        ensures
            final(self)@ == used(old(self)@, id@, now),
            root is Some <==> has_session(old(self)@, id@),
            root matches Some(r) ==> r@ == session_of(old(self)@, id@).sandbox_root,
            same_sessions(old(self)@, final(self)@),
    {
        proof {
            use_type_invariant(&*self);
        }
        let ghost before = self@;
        match self.position(id) {
            Some(i) => {
                let mut sessions: Vec<Session> = Vec::new();
                core::mem::swap(&mut sessions, &mut self.sessions);
                let session = refresh(sessions.remove(i), now);
                let root = session.sandbox_root.clone();
                sessions.insert(i, session);
                proof {
                    let now_held = sessions@.map_values(|s: Session| s@);
                    assert(now_held =~= used(before, id@, now));
                    lemma_same_ids(before, now_held);
                    lemma_after_keeps_order(before, Command::Use { id: id@, now });
                }
                self.sessions = sessions;
                Some(root)
            },
            None => None,
        }
    }

    /// Starts a run of `request` in the session `id`: counts a use at `now`
    /// and hands back what the run works with, taken as the session is at
    /// this moment. Nothing else of the session changes, so its environment
    /// and working directory are after the run what they were before.
    /// `None` where there is no such session.
    pub fn begin_run(&mut self, id: &str, request: &RunConfig, now: u64) -> (run: Option<
        SessionRun,
    >)
        ensures
            final(self)@ == used(old(self)@, id@, now),
            run is Some <==> has_session(old(self)@, id@),
            run matches Some(r) ==> runs_in(r, *request, session_of(old(self)@, id@)),
            same_sessions(old(self)@, final(self)@),
            forall|i: int|
                0 <= i < old(self)@.len() ==> (#[trigger] final(self)@[i]).env == old(self)@[i].env
                    && final(self)@[i].cwd == old(self)@[i].cwd,
    {
        proof {
            use_type_invariant(&*self);
        }
        let ghost before = self@;
        match self.position(id) {
            Some(i) => {
                let mut sessions: Vec<Session> = Vec::new();
                core::mem::swap(&mut sessions, &mut self.sessions);
                let session = refresh(sessions.remove(i), now);
                let mut env = session.env.clone();
                env.extend(&request.env);
                let run = SessionRun {
                    sandbox_root: session.sandbox_root.clone(),
                    config: RunConfig {
                        command: clone_strings(&request.command),
                        time_ms: request.time_ms,
                        mem_kb: request.mem_kb,
                        fsize_kb: request.fsize_kb,
                        nofile: request.nofile,
                        env,
                        cwd: choose_cwd(&request.cwd, &session.cwd),
                    },
                };
                sessions.insert(i, session);
                proof {
                    let now_held = sessions@.map_values(|s: Session| s@);
                    assert(now_held =~= used(before, id@, now));
                    lemma_same_ids(before, now_held);
                    lemma_after_keeps_order(before, Command::Use { id: id@, now });
                }
                self.sessions = sessions;
                Some(run)
            },
            None => None,
        }
    }

    /// Removes every session that has been idle at `now` for longer than
    /// the time to live, and hands back the roots that are now to be torn
    /// down.
    pub fn reap(&mut self, now: u64) -> (roots: Vec<String>)
        ensures
            final(self)@ == survivors(old(self)@, now),
            strings_of(roots@) == expired_roots(old(self)@, now),
    {
        proof {
            use_type_invariant(&*self);
            lemma_survivors(self@, now);
        }
        let ghost before = self@;
        let mut kept: Vec<Session> = Vec::new();
        let mut roots: Vec<String> = Vec::new();
        let n = self.sessions.len();
        let mut i: usize = 0;
        assert(before.take(0) =~= Seq::<SessionView>::empty());
        assert(kept@.map_values(|s: Session| s@) =~= survivors(before.take(0), now));
        assert(strings_of(roots@) =~= expired_roots(before.take(0), now));
        while i < n
            invariant
                i <= n,
                n == self.sessions@.len(),
                before == self@,
                kept@.map_values(|s: Session| s@) == survivors(before.take(i as int), now),
                strings_of(roots@) == expired_roots(before.take(i as int), now),
            decreases n - i,
        {
            let session = &self.sessions[i];
            proof {
                let next = before.take(i as int + 1);
                assert(next.drop_last() =~= before.take(i as int));
                assert(next.last() == session@);
            }
            let ghost held = kept@.map_values(|s: Session| s@);
            let ghost named = strings_of(roots@);
            if is_expired(session.last_used, now) {
                roots.push(session.sandbox_root.clone());
                assert(strings_of(roots@) =~= named.push(session@.sandbox_root));
            } else {
                kept.push(copy_session(session));
                assert(kept@.map_values(|s: Session| s@) =~= held.push(session@));
            }
            i += 1;
        }
        assert(before.take(n as int) =~= before);
        self.sessions = kept;
        roots
    }
}

} // verus!
