//! Tunnel supervision: the tunnels and their definitions, reconnect
//! backoff, and health classification.

use vstd::prelude::*;

use std::time::{Duration, Instant};

use crate::argv::{lit, views};
use crate::assoc::{as_map, get_key, set_key, take_key, unique_keys};
use crate::config::{TunnelConfig, TunnelType};
use crate::error::CoreError;
use crate::text::push_str;
use crate::tunnels::wireguard::{WireGuardConfig, WireGuardTunnel};

verus! {

/// How often tunnel health is checked, in seconds.
pub const HEALTH_CHECK_INTERVAL_SECS: u64 = 10;

/// Maximum reconnect delay, in seconds.
pub const MAX_RECONNECT_DELAY_SECS: u64 = 300;

#[verifier::external_type_specification]
#[verifier::external_body]
pub struct ExInstant(Instant);

/// The current instant of the monotonic clock.
///
/// Wraps `Instant::now`; the reading depends on the clock, so nothing is
/// stated of it.
#[verifier::external_body]
fn instant_now() -> (t: Instant) {
    Instant::now()
}

/// The time elapsed since `t`.
///
/// Wraps `Instant::elapsed`; the result depends on the clock, so nothing is
/// stated of it.
#[verifier::external_body]
fn instant_elapsed(t: &Instant) -> (d: Duration) {
    t.elapsed()
}

/// The whole milliseconds of a duration.
///
/// Wraps `Duration::as_millis`; the duration is opaque here, so nothing is
/// stated of the result.
#[verifier::external_body]
pub(crate) fn duration_millis(d: &Duration) -> (ms: u128) {
    d.as_millis()
}

/// The reconnect delay after one more failed attempt: double the current
/// one, capped at `MAX_RECONNECT_DELAY_SECS`.
pub open spec fn next_backoff(delay: nat) -> nat {
    if 2 * delay <= MAX_RECONNECT_DELAY_SECS { 2 * delay } else { MAX_RECONNECT_DELAY_SECS as nat }
}

/// The delay after `k` failed attempts from a fresh state (delay 1 s).
pub open spec fn backoff_after(k: nat) -> nat
    decreases k,
{
    if k == 0 { 1 } else { next_backoff(backoff_after((k - 1) as nat)) }
}

/// Whether a reconnect is due, `elapsed_ms` milliseconds after the last
/// attempt (none if there was no attempt yet), with a delay of `delay_secs`.
pub open spec fn reconnect_due(elapsed_ms: Option<nat>, delay_secs: nat) -> bool {
    match elapsed_ms {
        None => true,
        Some(ms) => ms >= delay_secs * 1000,
    }
}

/// Reconnection state of one tunnel.
pub struct ReconnectInfo {
    /// Number of consecutive failed reconnect attempts.
    pub attempts: u32,
    /// Time of the last reconnect attempt.
    pub last_attempt: Option<Instant>,
    /// Current reconnect delay, in seconds.
    pub current_delay_secs: u64,
}

impl ReconnectInfo {
    /// A fresh state: no attempts, no last attempt, a delay of one second.
    pub fn new() -> (r: Self)
        ensures
            r.attempts == 0,
            r.last_attempt is None,
            r.current_delay_secs == 1,
    {
        ReconnectInfo { attempts: 0, last_attempt: None, current_delay_secs: 1 }
    }

    /// Counts one more attempt and doubles the delay, capped at
    /// `MAX_RECONNECT_DELAY_SECS`; returns the new delay.
    pub fn next_delay(&mut self) -> (d: u64)
        requires
            old(self).attempts < u32::MAX,
            old(self).current_delay_secs <= u64::MAX / 2,
        ensures
            final(self).attempts == old(self).attempts + 1,
            final(self).current_delay_secs == next_backoff(old(self).current_delay_secs as nat),
            final(self).last_attempt == old(self).last_attempt,
            d == final(self).current_delay_secs,
    {
        self.attempts = self.attempts + 1;
        let doubled = self.current_delay_secs * 2;
        self.current_delay_secs = if doubled <= MAX_RECONNECT_DELAY_SECS {
            doubled
        } else {
            MAX_RECONNECT_DELAY_SECS
        };
        self.current_delay_secs
    }

    /// Clears the state after a successful connection: no attempts, a delay
    /// of one second, and the last attempt set to now.
    pub fn reset(&mut self)
        ensures
            final(self).attempts == 0,
            final(self).current_delay_secs == 1,
            final(self).last_attempt is Some,
    {
        self.attempts = 0;
        self.current_delay_secs = 1;
        self.last_attempt = Some(instant_now());
    }

    /// Whether a reconnect is due given the milliseconds elapsed since the
    /// last attempt (`None` when there was none).
    pub fn reconnect_due_after(&self, elapsed_ms: Option<u128>) -> (b: bool)
        ensures
            b == reconnect_due(
                match elapsed_ms {
                    Some(ms) => Some(ms as nat),
                    None => None,
                },
                self.current_delay_secs as nat,
            ),
    {
        match elapsed_ms {
            None => true,
            Some(ms) => ms >= self.current_delay_secs as u128 * 1000,
        }
    }

    /// Whether a reconnect should be attempted now: always when there was
    /// no attempt yet, otherwise once the current delay has elapsed since
    /// the last one. The elapsed time is read from the clock, so beyond the
    /// cases where any reading gives the answer (no attempt yet, or no
    /// delay) the result is not stated.
    pub fn should_reconnect(&self) -> (b: bool)
        ensures
            self.last_attempt is None ==> b,
            self.current_delay_secs == 0 ==> b,
    {
        let elapsed: Option<u128> = match &self.last_attempt {
            None => None,
            Some(t) => {
                let d = instant_elapsed(t);
                Some(duration_millis(&d))
            },
        };
        self.reconnect_due_after(elapsed)
    }
}

/// The reconnect delay never exceeds `MAX_RECONNECT_DELAY_SECS` once a
/// failed attempt has been counted, it never shrinks while within the cap,
/// and after `k` failures from a fresh state it is `backoff_after(k)`,
/// which stays within 1 and the cap.
pub proof fn lemma_backoff_bounded(delay: nat, k: nat)
    ensures
        next_backoff(delay) <= MAX_RECONNECT_DELAY_SECS,
        delay <= MAX_RECONNECT_DELAY_SECS ==> delay <= next_backoff(delay),
        1 <= backoff_after(k) <= MAX_RECONNECT_DELAY_SECS,
    decreases k,
{
    if k > 0 {
        lemma_backoff_bounded(backoff_after((k - 1) as nat), (k - 1) as nat);
    }
}

/// Health of a tunnel as the health loop sees it.
#[derive(Debug, Clone, Copy, PartialEq, Eq, Structural)]
pub enum TunnelHealth {
    /// Operational with a completed handshake (score 100).
    Healthy,
    /// Down, never handshaken, or unreadable (score 0): reconnect.
    Unhealthy,
}

/// Classifies a tunnel: healthy when it is operational and reports a
/// handshake; unhealthy otherwise (not operational, no handshake yet, or
/// the handshake query failed).
pub fn classify_tunnel(operational: bool, handshake: Result<Option<u64>, ()>) -> (h: TunnelHealth)
    ensures
        h == TunnelHealth::Healthy <==> (operational && handshake matches Ok(Some(_))),
{
    if operational {
        match handshake {
            Ok(Some(_)) => TunnelHealth::Healthy,
            _ => TunnelHealth::Unhealthy,
        }
    } else {
        TunnelHealth::Unhealthy
    }
}

/// The health score recorded for a classification.
pub fn health_score(h: TunnelHealth) -> (s: u8)
    ensures
        h == TunnelHealth::Healthy ==> s == 100,
        h == TunnelHealth::Unhealthy ==> s == 0,
{
    match h {
        TunnelHealth::Healthy => 100,
        TunnelHealth::Unhealthy => 0,
    }
}

/// The name `{:?}` gives a tunnel type.
pub open spec fn tunnel_type_name(t: TunnelType) -> Seq<char> {
    match t {
        TunnelType::WireGuard => "WireGuard"@,
        TunnelType::OpenVpn => "OpenVpn"@,
        TunnelType::Quic => "Quic"@,
        TunnelType::Relay => "Relay"@,
        TunnelType::Tailscale => "Tailscale"@,
    }
}

fn tunnel_type_text(t: TunnelType) -> (s: &'static str)
    ensures
        s@ == tunnel_type_name(t),
{
    match t {
        TunnelType::WireGuard => "WireGuard",
        TunnelType::OpenVpn => "OpenVpn",
        TunnelType::Quic => "Quic",
        TunnelType::Relay => "Relay",
        TunnelType::Tailscale => "Tailscale",
    }
}

/// A fresh reconnect state, as a value.
pub open spec fn fresh_reconnect() -> ReconnectInfo {
    ReconnectInfo { attempts: 0, last_attempt: None, current_delay_secs: 1 }
}

/// What the manager tells of one tunnel definition.
#[derive(Debug)]
pub struct TunnelRow {
    pub name: String,
    pub remote: String,
    /// Whether a tunnel was created for it.
    pub has_tunnel: bool,
    /// Consecutive failed reconnect attempts.
    pub reconnect_count: u32,
}

/// Manages the tunnels, their definitions and their reconnect state.
pub struct TunnelManager {
    /// Created WireGuard tunnels, by tunnel name.
    wg_tunnels: Vec<(String, WireGuardTunnel)>,
    /// Tunnel definitions, by name.
    configs: Vec<(String, TunnelConfig)>,
    /// Reconnect state, by tunnel name.
    reconnect_state: Vec<(String, ReconnectInfo)>,
    /// Health score (0 or 100), by tunnel name.
    health_scores: Vec<(String, u8)>,
}

impl TunnelManager {
    pub closed spec fn wf(&self) -> bool {
        &&& unique_keys(self.wg_tunnels@)
        &&& unique_keys(self.configs@)
        &&& unique_keys(self.reconnect_state@)
        &&& unique_keys(self.health_scores@)
        &&& forall|k: Seq<char>| #[trigger] as_map(self.reconnect_state@).dom().contains(k) ==> as_map(
            self.reconnect_state@,
        )[k].current_delay_secs <= MAX_RECONNECT_DELAY_SECS
    }

    pub closed spec fn tunnels(&self) -> Map<Seq<char>, WireGuardTunnel> {
        as_map(self.wg_tunnels@)
    }

    pub closed spec fn configs(&self) -> Map<Seq<char>, TunnelConfig> {
        as_map(self.configs@)
    }

    pub closed spec fn reconnects(&self) -> Map<Seq<char>, ReconnectInfo> {
        as_map(self.reconnect_state@)
    }

    pub closed spec fn health(&self) -> Map<Seq<char>, u8> {
        as_map(self.health_scores@)
    }

    /// A manager with nothing in it.
    pub fn new() -> (m: Self)
        ensures
            m.wf(),
            m.tunnels() == Map::<Seq<char>, WireGuardTunnel>::empty(),
            m.configs() == Map::<Seq<char>, TunnelConfig>::empty(),
            m.reconnects() == Map::<Seq<char>, ReconnectInfo>::empty(),
            m.health() == Map::<Seq<char>, u8>::empty(),
    {
        TunnelManager {
            wg_tunnels: Vec::new(),
            configs: Vec::new(),
            reconnect_state: Vec::new(),
            health_scores: Vec::new(),
        }
    }

    /// Adds (or replaces) a tunnel definition.
    pub fn add_config(&mut self, config: TunnelConfig)
        requires
            old(self).wf(),
        ensures
            final(self).wf(),
            final(self).configs() == old(self).configs().insert(config.name@, config),
            final(self).tunnels() == old(self).tunnels(),
            final(self).reconnects() == old(self).reconnects(),
            final(self).health() == old(self).health(),
    {
        let name = config.name.clone();
        set_key(&mut self.configs, name.as_str(), config);
    }

    /// Takes a tunnel out of the manager, to be torn down.
    pub fn take_tunnel(&mut self, name: &str) -> (t: Option<WireGuardTunnel>)
        requires
            old(self).wf(),
        ensures
            final(self).wf(),
            t == if old(self).tunnels().dom().contains(name@) { Some(old(self).tunnels()[name@]) } else { None },
            final(self).tunnels() == old(self).tunnels().remove(name@),
            final(self).configs() == old(self).configs(),
            final(self).reconnects() == old(self).reconnects(),
            final(self).health() == old(self).health(),
    {
        take_key(&mut self.wg_tunnels, name)
    }

    /// Forgets a tunnel's definition, reconnect state and health, once its
    /// tunnel (if any) was torn down.
    pub fn forget_tunnel(&mut self, name: &str)
        requires
            old(self).wf(),
        ensures
            final(self).wf(),
            final(self).tunnels() == old(self).tunnels(),
            final(self).configs() == old(self).configs().remove(name@),
            final(self).reconnects() == old(self).reconnects().remove(name@),
            final(self).health() == old(self).health().remove(name@),
    {
        let _ = take_key(&mut self.configs, name);
        let _ = take_key(&mut self.reconnect_state, name);
        let _ = take_key(&mut self.health_scores, name);
    }

    /// The names of the definitions that connect on start.
    pub fn auto_connect_names(&self) -> (names: Vec<String>)
        requires
            self.wf(),
        ensures
            forall|k: Seq<char>| #[trigger] views(names@).contains(k) <==> (self.configs().dom().contains(k)
                && self.configs()[k].auto_connect),
    {
        let mut names: Vec<String> = Vec::new();
        let mut i: usize = 0;
        while i < self.configs.len()
            invariant
                i <= self.configs@.len(),
                unique_keys(self.configs@),
                forall|k: Seq<char>| #[trigger] views(names@).contains(k) <==> exists|j: int|
                    0 <= j < i && self.configs@[j].0@ == k && self.configs@[j].1.auto_connect,
            decreases self.configs.len() - i,
        {
            let ghost old_n = views(names@);
            let ghost key = self.configs@[i as int].0@;
            if self.configs[i].1.auto_connect {
                names.push(self.configs[i].0.clone());
                assert(views(names@) =~= old_n.push(key));
            }
            proof {
                let nv = views(names@);
                let auto = self.configs@[i as int].1.auto_connect;
                assert(auto ==> nv == old_n.push(key));
                assert(!auto ==> nv == old_n);
                assert forall|k: Seq<char>| #![auto] nv.contains(k) <==> exists|j: int|
                    0 <= j < i + 1 && self.configs@[j].0@ == k && self.configs@[j].1.auto_connect by {
                    if nv.contains(k) {
                        let p = choose|p: int| 0 <= p < nv.len() && nv[p] == k;
                        if p < old_n.len() {
                            assert(old_n[p] == k);
                            assert(old_n.contains(k));
                        } else {
                            assert(0 <= i < i + 1 && self.configs@[i as int].0@ == k && self.configs@[i as int].1.auto_connect);
                        }
                    }
                    if exists|j: int| 0 <= j < i + 1 && self.configs@[j].0@ == k && self.configs@[j].1.auto_connect {
                        let j = choose|j: int| 0 <= j < i + 1 && self.configs@[j].0@ == k && self.configs@[j].1.auto_connect;
                        if j < i {
                            assert(old_n.contains(k));
                            let p = choose|p: int| 0 <= p < old_n.len() && old_n[p] == k;
                            assert(nv[p] == k);
                        } else {
                            assert(nv[nv.len() - 1] == k);
                        }
                    }
                }
            }
            i = i + 1;
        }
        proof {
            assert forall|k: Seq<char>| #[trigger] views(names@).contains(k) <==> (self.configs().dom().contains(k)
                && self.configs()[k].auto_connect) by {
                crate::assoc::lemma_as_map_dom(self.configs@, k);
                if self.configs().dom().contains(k) {
                    let j = choose|j: int| 0 <= j < self.configs@.len() && self.configs@[j].0@ == k;
                    crate::assoc::lemma_as_map_index(self.configs@, j);
                }
                if exists|j: int| 0 <= j < self.configs@.len() && self.configs@[j].0@ == k && self.configs@[j].1.auto_connect {
                    let j = choose|j: int| 0 <= j < self.configs@.len() && self.configs@[j].0@ == k && self.configs@[j].1.auto_connect;
                    crate::assoc::lemma_as_map_index(self.configs@, j);
                }
            }
        }
        names
    }

    /// The number of tunnel definitions.
    pub fn config_count(&self) -> (n: usize)
        requires
            self.wf(),
        ensures
            n == self.configs().len(),
    {
        proof {
            crate::assoc::lemma_unique_map_len(self.configs@);
        }
        self.configs.len()
    }

    /// The definition of a tunnel.
    pub fn config_of(&self, name: &str) -> (c: Option<&TunnelConfig>)
        requires
            self.wf(),
        ensures
            match c {
                Some(c) => self.configs().dom().contains(name@) && *c == self.configs()[name@],
                None => !self.configs().dom().contains(name@),
            },
    {
        get_key(&self.configs, name)
    }

    /// The settings to create a tunnel with on start: for a WireGuard
    /// definition, its WireGuard settings (an error when a required option
    /// is missing, "Missing <option> for tunnel <name>" for the first one
    /// missing); nothing for the other types, which are not supported.
    pub fn start_plan(config: &TunnelConfig) -> (r: Result<Option<WireGuardConfig>, CoreError>)
        ensures
            match config.tunnel_type {
                TunnelType::WireGuard => match r {
                    Ok(Some(w)) => crate::tunnels::wireguard::wg_config_matches(w, *config),
                    Ok(None) => false,
                    Err(e) => !(crate::config::lookup(config.options@, "private_key"@) is Some
                        && crate::config::lookup(config.options@, "public_key"@) is Some
                        && crate::config::lookup(config.options@, "tunnel_address"@) is Some) && (e matches CoreError::Qos(
                        m,
                    ) && m@ == crate::tunnels::wireguard::first_missing_message(*config)),
                },
                _ => r == Ok::<Option<WireGuardConfig>, CoreError>(None),
            },
    {
        match config.tunnel_type {
            TunnelType::WireGuard => match WireGuardConfig::from_tunnel_config(config) {
                Ok(w) => Ok(Some(w)),
                Err(e) => Err(e),
            },
            _ => Ok(None),
        }
    }

    /// The settings to recreate a tunnel with on reconnect: only WireGuard
    /// tunnels can be recreated, and a missing option is reported as on
    /// start.
    pub fn reconnect_plan(config: &TunnelConfig) -> (r: Result<WireGuardConfig, CoreError>)
        ensures
            match config.tunnel_type {
                TunnelType::WireGuard => match r {
                    Ok(w) => crate::tunnels::wireguard::wg_config_matches(w, *config),
                    Err(e) => !(crate::config::lookup(config.options@, "private_key"@) is Some
                        && crate::config::lookup(config.options@, "public_key"@) is Some
                        && crate::config::lookup(config.options@, "tunnel_address"@) is Some) && (e matches CoreError::Qos(
                        m,
                    ) && m@ == crate::tunnels::wireguard::first_missing_message(*config)),
                },
                _ => r matches Err(CoreError::Qos(m)) && m@ == "Tunnel type "@ + tunnel_type_name(config.tunnel_type)
                    + " not supported for reconnect"@,
            },
    {
        match config.tunnel_type {
            TunnelType::WireGuard => WireGuardConfig::from_tunnel_config(config),
            t => {
                let mut m = lit("Tunnel type ");
                push_str(&mut m, tunnel_type_text(t));
                push_str(&mut m, " not supported for reconnect");
                Err(CoreError::Qos(m))
            },
        }
    }

    /// Registers a created tunnel under its name; `fresh` also gives it a
    /// fresh reconnect state (on first start, not on reconnect).
    pub fn register_tunnel(&mut self, name: &str, tunnel: WireGuardTunnel, fresh: bool)
        requires
            old(self).wf(),
        ensures
            final(self).wf(),
            final(self).tunnels() == old(self).tunnels().insert(name@, tunnel),
            final(self).reconnects() == if fresh {
                old(self).reconnects().insert(name@, fresh_reconnect())
            } else {
                old(self).reconnects()
            },
            final(self).configs() == old(self).configs(),
            final(self).health() == old(self).health(),
    {
        set_key(&mut self.wg_tunnels, name, tunnel);
        if fresh {
            set_key(&mut self.reconnect_state, name, ReconnectInfo::new());
            proof {
                self.lemma_delays_bounded_after_set(old(self).reconnect_state@, name@, fresh_reconnect());
            }
        }
    }

    proof fn lemma_delays_bounded_after_set(&self, before: Seq<(String, ReconnectInfo)>, k: Seq<char>, v: ReconnectInfo)
        requires
            forall|x: Seq<char>| #[trigger] as_map(before).dom().contains(x) ==> as_map(before)[x].current_delay_secs
                <= MAX_RECONNECT_DELAY_SECS,
            v.current_delay_secs <= MAX_RECONNECT_DELAY_SECS,
            as_map(self.reconnect_state@) == as_map(before).insert(k, v),
        ensures
            forall|x: Seq<char>| #[trigger] as_map(self.reconnect_state@).dom().contains(x) ==> as_map(
                self.reconnect_state@,
            )[x].current_delay_secs <= MAX_RECONNECT_DELAY_SECS,
    {
    }

    /// Records a tunnel's health from whether it is operational and what
    /// the handshake query returned; returns whether it needs a reconnect.
    pub fn record_health(&mut self, name: &str, operational: bool, handshake: Result<Option<u64>, ()>) -> (unhealthy: bool)
        requires
            old(self).wf(),
        ensures
            final(self).wf(),
            unhealthy == !(operational && handshake matches Ok(Some(_))),
            final(self).health() == old(self).health().insert(name@, if unhealthy { 0u8 } else { 100u8 }),
            final(self).tunnels() == old(self).tunnels(),
            final(self).configs() == old(self).configs(),
            final(self).reconnects() == old(self).reconnects(),
    {
        let h = classify_tunnel(operational, handshake);
        let score = health_score(h);
        set_key(&mut self.health_scores, name, score);
        match h {
            TunnelHealth::Healthy => false,
            TunnelHealth::Unhealthy => true,
        }
    }

    /// Starts a reconnect attempt of a tunnel, given the milliseconds
    /// elapsed since its last attempt (`None` when there was none), if one
    /// is due and the tunnel's definition asks for reconnects: counts the
    /// attempt, stamps its time and backs off. A tunnel without reconnect
    /// state gets a fresh one either way. Returns whether the tunnel should
    /// now be recreated.
    pub fn begin_reconnect_after(&mut self, name: &str, elapsed_ms: Option<u128>) -> (go: bool)
        requires
            old(self).wf(),
            old(self).reconnects().dom().contains(name@) ==> old(self).reconnects()[name@].attempts < u32::MAX,
        ensures
            final(self).wf(),
            ({
                let prev = if old(self).reconnects().dom().contains(name@) {
                    old(self).reconnects()[name@]
                } else {
                    fresh_reconnect()
                };
                let allowed = old(self).configs().dom().contains(name@) && old(self).configs()[name@].auto_reconnect;
                let elapsed = match elapsed_ms {
                    Some(ms) => Some(ms as nat),
                    None => None,
                };
                &&& go == (allowed && reconnect_due(elapsed, prev.current_delay_secs as nat))
                &&& final(self).reconnects().dom().contains(name@)
                &&& go ==> {
                    let now = final(self).reconnects()[name@];
                    &&& now.attempts == prev.attempts + 1
                    &&& now.current_delay_secs == next_backoff(prev.current_delay_secs as nat)
                    &&& now.last_attempt is Some
                    &&& final(self).reconnects() == old(self).reconnects().insert(name@, now)
                }
                &&& !go ==> final(self).reconnects() == old(self).reconnects().insert(name@, prev)
            }),
            final(self).tunnels() == old(self).tunnels(),
            final(self).configs() == old(self).configs(),
            final(self).health() == old(self).health(),
    {
        let ghost before = self.reconnect_state@;
        let mut info = match take_key(&mut self.reconnect_state, name) {
            Some(i) => i,
            None => ReconnectInfo::new(),
        };
        let allowed = match get_key(&self.configs, name) {
            Some(c) => c.auto_reconnect,
            None => false,
        };
        let go = info.reconnect_due_after(elapsed_ms) && allowed;
        if go {
            info.last_attempt = Some(instant_now());
            let _ = info.next_delay();
        }
        proof {
            lemma_backoff_bounded(info.current_delay_secs as nat, 0);
            assert(as_map(self.reconnect_state@).insert(name@, info) =~= as_map(before).insert(name@, info));
        }
        set_key(&mut self.reconnect_state, name, info);
        proof {
            self.lemma_delays_bounded_after_set(before, name@, info);
        }
        go
    }

    /// Starts a reconnect attempt of a tunnel, if one is due and the
    /// tunnel's definition asks for reconnects: counts the attempt, stamps
    /// its time and backs off. A tunnel without reconnect state gets a
    /// fresh one either way. Returns whether the tunnel should now be
    /// recreated. The elapsed time is read from the clock, so beyond the
    /// cases where any reading gives the answer the result is not stated;
    /// `begin_reconnect_after` states it for each reading.
    pub fn begin_reconnect(&mut self, name: &str) -> (go: bool)
        requires
            old(self).wf(),
            old(self).reconnects().dom().contains(name@) ==> old(self).reconnects()[name@].attempts < u32::MAX,
        ensures
            final(self).wf(),
            ({
                let prev = if old(self).reconnects().dom().contains(name@) {
                    old(self).reconnects()[name@]
                } else {
                    fresh_reconnect()
                };
                let allowed = old(self).configs().dom().contains(name@) && old(self).configs()[name@].auto_reconnect;
                &&& go ==> allowed
                &&& (prev.last_attempt is None && allowed) ==> go
                &&& final(self).reconnects().dom().contains(name@)
                &&& go ==> {
                    let now = final(self).reconnects()[name@];
                    &&& now.attempts == prev.attempts + 1
                    &&& now.current_delay_secs == next_backoff(prev.current_delay_secs as nat)
                    &&& now.last_attempt is Some
                    &&& final(self).reconnects() == old(self).reconnects().insert(name@, now)
                }
                &&& !go ==> final(self).reconnects() == old(self).reconnects().insert(name@, prev)
            }),
            final(self).tunnels() == old(self).tunnels(),
            final(self).configs() == old(self).configs(),
            final(self).health() == old(self).health(),
    {
        let elapsed: Option<u128> = match get_key(&self.reconnect_state, name) {
            Some(i) => match &i.last_attempt {
                None => None,
                Some(t) => {
                    let d = instant_elapsed(t);
                    Some(duration_millis(&d))
                },
            },
            None => None,
        };
        self.begin_reconnect_after(name, elapsed)
    }

    /// Finishes a reconnect attempt: after a successful one the tunnel's
    /// reconnect state starts over.
    pub fn finish_reconnect(&mut self, name: &str, succeeded: bool)
        requires
            old(self).wf(),
        ensures
            final(self).wf(),
            (succeeded && old(self).reconnects().dom().contains(name@)) ==> {
                let now = final(self).reconnects()[name@];
                &&& now.attempts == 0
                &&& now.current_delay_secs == 1
                &&& now.last_attempt is Some
                &&& final(self).reconnects() == old(self).reconnects().insert(name@, now)
            },
            !(succeeded && old(self).reconnects().dom().contains(name@)) ==> final(self).reconnects() == old(
                self,
            ).reconnects(),
            final(self).tunnels() == old(self).tunnels(),
            final(self).configs() == old(self).configs(),
            final(self).health() == old(self).health(),
    {
        if !succeeded {
            return;
        }
        let ghost before = self.reconnect_state@;
        match take_key(&mut self.reconnect_state, name) {
            Some(mut info) => {
                info.reset();
                set_key(&mut self.reconnect_state, name, info);
                proof {
                    assert(as_map(before).remove(name@).insert(name@, info) =~= as_map(before).insert(name@, info));
                    self.lemma_delays_bounded_after_set(before, name@, info);
                }
            },
            None => {
                proof {
                    assert(as_map(before).remove(name@) =~= as_map(before));
                }
            },
        }
    }

    /// The health score of a tunnel, if checked.
    pub fn get_health(&self, name: &str) -> (h: Option<u8>)
        requires
            self.wf(),
        ensures
            h == if self.health().dom().contains(name@) { Some(self.health()[name@]) } else { None },
    {
        match get_key(&self.health_scores, name) {
            Some(h) => Some(*h),
            None => None,
        }
    }

    /// Every tunnel's health score.
    pub fn all_health_scores(&self) -> (h: &Vec<(String, u8)>)
        ensures
            as_map(h@) == self.health(),
    {
        &self.health_scores
    }

    /// What a row reports of a tunnel: whether its tunnel exists and its
    /// reconnect count.
    pub open spec fn reports(&self, r: TunnelRow) -> bool {
        &&& r.has_tunnel == self.tunnels().dom().contains(r.name@)
        &&& r.reconnect_count == if self.reconnects().dom().contains(r.name@) {
            self.reconnects()[r.name@].attempts
        } else {
            0
        }
    }

    /// One row per tunnel definition: its name and remote, whether its
    /// tunnel exists, and its reconnect count.
    pub fn get_states(&self) -> (rows: Vec<TunnelRow>)
        requires
            self.wf(),
        ensures
            rows@.len() == self.configs().len(),
            forall|i: int| 0 <= i < rows@.len() ==> self.configs().dom().contains(#[trigger] rows@[i].name@),
            forall|i: int| 0 <= i < rows@.len() ==> (#[trigger] rows@[i]).remote@ == self.configs()[rows@[i].name@].remote@,
            forall|i: int| 0 <= i < rows@.len() ==> self.reports(#[trigger] rows@[i]),
            forall|i: int, j: int| 0 <= i < j < rows@.len() ==> rows@[i].name@ != rows@[j].name@,
    {
        let mut rows: Vec<TunnelRow> = Vec::new();
        let mut i: usize = 0;
        while i < self.configs.len()
            invariant
                i <= self.configs@.len(),
                self.wf(),
                rows@.len() == i,
                forall|j: int| 0 <= j < i ==> (#[trigger] rows@[j]).name@ == self.configs@[j].0@,
                forall|j: int| 0 <= j < i ==> (#[trigger] rows@[j]).remote@ == self.configs@[j].1.remote@,
                forall|j: int| 0 <= j < i ==> self.reports(#[trigger] rows@[j]),
            decreases self.configs.len() - i,
        {
            let name = &self.configs[i].0;
            let has_tunnel = match get_key(&self.wg_tunnels, name.as_str()) {
                Some(_) => true,
                None => false,
            };
            let reconnect_count = match get_key(&self.reconnect_state, name.as_str()) {
                Some(r) => r.attempts,
                None => 0,
            };
            rows.push(
                TunnelRow {
                    name: name.clone(),
                    remote: self.configs[i].1.remote.clone(),
                    has_tunnel,
                    reconnect_count,
                },
            );
            i = i + 1;
        }
        proof {
            assert forall|i: int| 0 <= i < rows@.len() implies self.configs().dom().contains(#[trigger] rows@[i].name@)
                && rows@[i].remote@ == self.configs()[rows@[i].name@].remote@ by {
                crate::assoc::lemma_as_map_index(self.configs@, i);
            }
            assert forall|i: int, j: int| 0 <= i < j < rows@.len() implies rows@[i].name@ != rows@[j].name@ by {
                assert(rows@[i].name@ == self.configs@[i].0@ && rows@[j].name@ == self.configs@[j].0@);
            }
            crate::assoc::lemma_unique_map_len(self.configs@);
        }
        rows
    }
}

} // verus!
