//! WireGuard tunnel orchestration: the `ip` and `wg` invocations that
//! create, configure, inspect and remove a tunnel, the parsing of `wg show`
//! output, and the tunnel settings read from a tunnel definition.

use vstd::prelude::*;

use crate::config::{lookup, lookup_option, TunnelConfig};
use crate::error::CoreError;
use crate::argv::{lit, push_clone, push_lit, views};
use crate::text::{
    chars_of, dec, dec_string, lines, lines_chars, parse_unsigned, parse_unsigned_chars, push_str,
    seq_contains, split_chars, split_on, str_contains, string_of, trim, trim_chars, words,
    words_chars,
};

verus! {

/// WireGuard tunnel configuration.
#[derive(Debug, Clone)]
pub struct WireGuardConfig {
    /// Tunnel interface name (e.g. "wg0").
    pub interface: String,
    /// Local private key (base64).
    pub private_key: String,
    /// Local listen port.
    pub listen_port: Option<u16>,
    /// Remote endpoint (host:port).
    pub endpoint: String,
    /// Remote public key (base64).
    pub public_key: String,
    /// Pre-shared key (base64).
    pub preshared_key: Option<String>,
    /// Allowed IPs (routes installed through the tunnel).
    pub allowed_ips: Vec<String>,
    /// Persistent keepalive interval (seconds).
    pub persistent_keepalive: Option<u16>,
    /// Tunnel IP address to assign.
    pub tunnel_address: String,
    /// DNS servers to use when the tunnel is active.
    pub dns_servers: Vec<String>,
}

/// A WireGuard tunnel and whether it is up.
pub struct WireGuardTunnel {
    config: WireGuardConfig,
    is_up: bool,
}




/// The `wg set` arguments that add the remote peer.
pub open spec fn peer_args_spec(c: WireGuardConfig) -> Seq<Seq<char>> {
    seq!["set"@, c.interface@, "peer"@, c.public_key@, "endpoint"@, c.endpoint@]
        + allowed_ips_args(views(c.allowed_ips@)) + match c.preshared_key {
        Some(k) => seq!["preshared-key"@, k@],
        None => Seq::empty(),
    } + match c.persistent_keepalive {
        Some(k) => seq!["persistent-keepalive"@, dec(k as nat)],
        None => Seq::empty(),
    }
}

/// `allowed-ips <ip>` for each allowed IP, in order.
pub open spec fn allowed_ips_args(ips: Seq<Seq<char>>) -> Seq<Seq<char>>
    decreases ips.len(),
{
    if ips.len() == 0 {
        Seq::empty()
    } else {
        allowed_ips_args(ips.drop_last()) + seq!["allowed-ips"@, ips.last()]
    }
}

/// `ip link show` reports the interface as up (or in the UNKNOWN state that
/// WireGuard interfaces report).
pub open spec fn link_reported_up(stdout: Seq<char>) -> bool {
    seq_contains(stdout, "state UP"@) || seq_contains(stdout, "UNKNOWN"@)
}

impl WireGuardTunnel {
    /// A tunnel for `config`, not yet up.
    pub fn new(config: WireGuardConfig) -> (t: Self)
        ensures
            t.config() == config,
            !t.is_up(),
    {
        WireGuardTunnel { config, is_up: false }
    }

    /// The tunnel's configuration.
    pub closed spec fn config(&self) -> WireGuardConfig {
        self.config
    }

    /// Whether the tunnel has been created and not torn down since.
    pub closed spec fn is_up(&self) -> bool {
        self.is_up
    }

    /// The tunnel's configuration.
    pub fn get_config(&self) -> (c: &WireGuardConfig)
        ensures
            *c == self.config(),
    {
        &self.config
    }

    /// Whether the tunnel is up.
    pub fn up(&self) -> (b: bool)
        ensures
            b == self.is_up(),
    {
        self.is_up
    }

    /// Records that every creation step succeeded.
    pub fn mark_created(&mut self)
        ensures
            final(self).is_up(),
            final(self).config() == old(self).config(),
    {
        self.is_up = true;
    }

    /// Records that the tunnel was torn down.
    pub fn mark_torn_down(&mut self)
        ensures
            !final(self).is_up(),
            final(self).config() == old(self).config(),
    {
        self.is_up = false;
    }

    /// `ip` arguments that create the WireGuard link.
    pub fn link_add_args(&self) -> (args: Vec<String>)
        ensures
            views(args@) == seq!["link"@, "add"@, "dev"@, self.config().interface@, "type"@, "wireguard"@],
    {
        let mut args: Vec<String> = Vec::new();
        push_lit(&mut args, "link");
        push_lit(&mut args, "add");
        push_lit(&mut args, "dev");
        push_clone(&mut args, &self.config.interface);
        push_lit(&mut args, "type");
        push_lit(&mut args, "wireguard");
        args
    }

    /// Whether a failed link creation only means the link exists already.
    pub fn link_exists_failure(&self, stderr: &str) -> (b: bool)
        ensures
            b == seq_contains(stderr@, "exists"@),
    {
        str_contains(stderr, "exists")
    }

    /// `wg` arguments that set the private key, read from standard input.
    pub fn private_key_args(&self) -> (args: Vec<String>)
        ensures
            views(args@) == seq!["set"@, self.config().interface@, "private-key"@, "/dev/stdin"@],
    {
        let mut args: Vec<String> = Vec::new();
        push_lit(&mut args, "set");
        push_clone(&mut args, &self.config.interface);
        push_lit(&mut args, "private-key");
        push_lit(&mut args, "/dev/stdin");
        args
    }

    /// `wg` arguments that set the listen port.
    pub fn listen_port_args(&self, port: u16) -> (args: Vec<String>)
        ensures
            views(args@) == seq!["set"@, self.config().interface@, "listen-port"@, dec(port as nat)],
    {
        let mut args: Vec<String> = Vec::new();
        push_lit(&mut args, "set");
        push_clone(&mut args, &self.config.interface);
        push_lit(&mut args, "listen-port");
        let p = dec_string(port as u64);
        push_clone(&mut args, &p);
        args
    }

    /// `ip` arguments that assign the tunnel address.
    pub fn assign_address_args(&self) -> (args: Vec<String>)
        ensures
            views(args@) == seq!["addr"@, "add"@, self.config().tunnel_address@, "dev"@, self.config().interface@],
    {
        let mut args: Vec<String> = Vec::new();
        push_lit(&mut args, "addr");
        push_lit(&mut args, "add");
        push_clone(&mut args, &self.config.tunnel_address);
        push_lit(&mut args, "dev");
        push_clone(&mut args, &self.config.interface);
        args
    }

    /// `wg` arguments that add the remote peer: its key and endpoint, each
    /// allowed IP, then the pre-shared key and keepalive when configured.
    pub fn peer_args(&self) -> (args: Vec<String>)
        ensures
            views(args@) == peer_args_spec(self.config()),
    {
        let mut args: Vec<String> = Vec::new();
        push_lit(&mut args, "set");
        push_clone(&mut args, &self.config.interface);
        push_lit(&mut args, "peer");
        push_clone(&mut args, &self.config.public_key);
        push_lit(&mut args, "endpoint");
        push_clone(&mut args, &self.config.endpoint);
        let ghost head = views(args@);
        let ips = &self.config.allowed_ips;
        let mut i: usize = 0;
        while i < ips.len()
            invariant
                i <= ips@.len(),
                views(args@) == head + allowed_ips_args(views(ips@.subrange(0, i as int))),
            decreases ips.len() - i,
        {
            push_lit(&mut args, "allowed-ips");
            push_clone(&mut args, &ips[i]);
            proof {
                let pre = views(ips@.subrange(0, i as int));
                let next = views(ips@.subrange(0, i + 1));
                assert(next.drop_last() =~= pre);
                assert(next.last() == ips@[i as int]@);
            }
            i = i + 1;
            assert(views(args@) =~= head + allowed_ips_args(views(ips@.subrange(0, i as int))));
        }
        assert(ips@.subrange(0, ips@.len() as int) =~= ips@);
        let ghost mid = views(args@);
        match &self.config.preshared_key {
            Some(psk) => {
                push_lit(&mut args, "preshared-key");
                push_clone(&mut args, psk);
            },
            None => {},
        }
        match self.config.persistent_keepalive {
            Some(k) => {
                push_lit(&mut args, "persistent-keepalive");
                let ks = dec_string(k as u64);
                push_clone(&mut args, &ks);
            },
            None => {},
        }
        assert(views(args@) =~= peer_args_spec(self.config()));
        args
    }

    /// `ip` arguments that bring the interface up.
    pub fn bring_up_args(&self) -> (args: Vec<String>)
        ensures
            views(args@) == seq!["link"@, "set"@, "dev"@, self.config().interface@, "up"@],
    {
        let mut args: Vec<String> = Vec::new();
        push_lit(&mut args, "link");
        push_lit(&mut args, "set");
        push_lit(&mut args, "dev");
        push_clone(&mut args, &self.config.interface);
        push_lit(&mut args, "up");
        args
    }

    /// `ip` arguments that delete the interface.
    pub fn teardown_args(&self) -> (args: Vec<String>)
        ensures
            views(args@) == seq!["link"@, "del"@, "dev"@, self.config().interface@],
    {
        let mut args: Vec<String> = Vec::new();
        push_lit(&mut args, "link");
        push_lit(&mut args, "del");
        push_lit(&mut args, "dev");
        push_clone(&mut args, &self.config.interface);
        args
    }

    /// `ip` arguments that show the link state.
    pub fn link_show_args(&self) -> (args: Vec<String>)
        ensures
            views(args@) == seq!["link"@, "show"@, "dev"@, self.config().interface@],
    {
        let mut args: Vec<String> = Vec::new();
        push_lit(&mut args, "link");
        push_lit(&mut args, "show");
        push_lit(&mut args, "dev");
        push_clone(&mut args, &self.config.interface);
        args
    }

    /// `wg show` arguments for the whole interface, or for one field
    /// (`transfer`, `latest-handshakes`).
    pub fn show_args(&self, field: Option<&str>) -> (args: Vec<String>)
        ensures
            views(args@) == seq!["show"@, self.config().interface@] + match field {
                Some(f) => seq![f@],
                None => Seq::empty(),
            },
    {
        let mut args: Vec<String> = Vec::new();
        push_lit(&mut args, "show");
        push_clone(&mut args, &self.config.interface);
        match field {
            Some(f) => push_lit(&mut args, f),
            None => {},
        }
        args
    }

    /// Whether the tunnel is operational, given what `ip link show` printed
    /// (`None` if the command could not run): it must have been created,
    /// and the link must be reported up.
    pub fn is_operational_given(&self, link_show: Option<&str>) -> (b: bool)
        ensures
            b == (self.is_up() && match link_show {
                Some(out) => link_reported_up(out@),
                None => false,
            }),
    {
        if !self.is_up {
            return false;
        }
        match link_show {
            Some(out) => str_contains(out, "state UP") || str_contains(out, "UNKNOWN"),
            None => false,
        }
    }

    /// Configures DNS for the tunnel. DNS is handled by the system resolver,
    /// so nothing is changed and the call always succeeds.
    pub fn set_dns(&self) -> (r: Result<(), CoreError>)
        ensures
            r is Ok,
    {
        Ok(())
    }
}

/// A line of `wg show <if> transfer` with at least three words whose second
/// and third words are byte counts gives `(received, sent)`.
pub open spec fn transfer_of_line(line: Seq<char>) -> Option<(nat, nat)> {
    let ws = words(line);
    if ws.len() >= 3 && parse_unsigned(ws[1], u64::MAX as nat) is Some && parse_unsigned(
        ws[2],
        u64::MAX as nat,
    ) is Some {
        Some(
            (
                parse_unsigned(ws[1], u64::MAX as nat)->Some_0,
                parse_unsigned(ws[2], u64::MAX as nat)->Some_0,
            ),
        )
    } else {
        None
    }
}

/// The byte counts of the last line that has them, or `(0, 0)`.
pub open spec fn transfer_of_lines(ls: Seq<Seq<char>>) -> (nat, nat)
    decreases ls.len(),
{
    if ls.len() == 0 {
        (0, 0)
    } else {
        match transfer_of_line(ls.last()) {
            Some(t) => t,
            None => transfer_of_lines(ls.drop_last()),
        }
    }
}

/// A line of `wg show <if> latest-handshakes` with exactly two words whose
/// second is a positive epoch time gives that time.
pub open spec fn handshake_of_line(line: Seq<char>) -> Option<nat> {
    let ws = words(line);
    if ws.len() == 2 && parse_unsigned(ws[1], u64::MAX as nat) is Some && parse_unsigned(
        ws[1],
        u64::MAX as nat,
    )->Some_0 > 0 {
        parse_unsigned(ws[1], u64::MAX as nat)
    } else {
        None
    }
}

/// The handshake time of the first line that has one.
pub open spec fn handshake_of_lines(ls: Seq<Seq<char>>) -> Option<nat>
    decreases ls.len(),
{
    if ls.len() == 0 {
        None
    } else {
        match handshake_of_line(ls[0]) {
            Some(t) => Some(t),
            None => handshake_of_lines(ls.drop_first()),
        }
    }
}

fn line_transfer(line: &Vec<char>) -> (r: Option<(u64, u64)>)
    ensures
        match r {
            Some((a, b)) => transfer_of_line(line@) == Some((a as nat, b as nat)),
            None => transfer_of_line(line@) is None,
        },
{
    let ws = words_chars(line);
    if ws.len() >= 3 {
        let rx = parse_unsigned_chars(&ws[1], u64::MAX);
        let tx = parse_unsigned_chars(&ws[2], u64::MAX);
        match (rx, tx) {
            (Some(a), Some(b)) => Some((a, b)),
            _ => None,
        }
    } else {
        None
    }
}

/// Reads `(received, sent)` byte counts from `wg show <if> transfer`
/// output; the last line that carries them wins, `(0, 0)` if none does.
pub fn parse_transfer(stdout: &str) -> (r: (u64, u64))
    ensures
        (r.0 as nat, r.1 as nat) == transfer_of_lines(lines(stdout@)),
{
    let chars = chars_of(stdout);
    let ls = lines_chars(&chars);
    let mut rx: u64 = 0;
    let mut tx: u64 = 0;
    let mut i: usize = 0;
    while i < ls.len()
        invariant
            i <= ls@.len(),
            ls@.len() == lines(stdout@).len(),
            forall|k: int| 0 <= k < ls@.len() ==> #[trigger] ls@[k]@ == lines(stdout@)[k],
            (rx as nat, tx as nat) == transfer_of_lines(lines(stdout@).subrange(0, i as int)),
        decreases ls.len() - i,
    {
        proof {
            let pre = lines(stdout@).subrange(0, i as int);
            let next = lines(stdout@).subrange(0, i + 1);
            assert(next.drop_last() =~= pre);
            assert(next.last() == ls@[i as int]@);
        }
        match line_transfer(&ls[i]) {
            Some((a, b)) => {
                rx = a;
                tx = b;
            },
            None => {},
        }
        i = i + 1;
    }
    assert(lines(stdout@).subrange(0, ls@.len() as int) =~= lines(stdout@));
    (rx, tx)
}

/// Reads the latest handshake time (seconds since the epoch) from
/// `wg show <if> latest-handshakes` output: the first line with a peer and a
/// positive time; `None` when no handshake has happened yet.
pub fn parse_latest_handshake(stdout: &str) -> (r: Option<u64>)
    ensures
        match r {
            Some(t) => handshake_of_lines(lines(stdout@)) == Some(t as nat),
            None => handshake_of_lines(lines(stdout@)) is None,
        },
{
    let chars = chars_of(stdout);
    let ls = lines_chars(&chars);
    let ghost all = lines(stdout@);
    let mut i: usize = 0;
    assert(all.subrange(0, all.len() as int) =~= all);
    while i < ls.len()
        invariant
            i <= ls@.len(),
            ls@.len() == all.len(),
            all == lines(stdout@),
            forall|k: int| 0 <= k < ls@.len() ==> #[trigger] ls@[k]@ == all[k],
            handshake_of_lines(all) == handshake_of_lines(all.subrange(i as int, all.len() as int)),
        decreases ls.len() - i,
    {
        let ghost rest = all.subrange(i as int, all.len() as int);
        assert(rest.drop_first() =~= all.subrange(i + 1, all.len() as int));
        assert(rest[0] == ls@[i as int]@);
        let ws = words_chars(&ls[i]);
        if ws.len() == 2 {
            match parse_unsigned_chars(&ws[1], u64::MAX) {
                Some(v) => {
                    if v > 0 {
                        return Some(v);
                    }
                },
                None => {},
            }
        }
        i = i + 1;
    }
    None
}

/// `s` split at commas, each piece trimmed.
pub open spec fn split_trim(s: Seq<char>) -> Seq<Seq<char>> {
    Seq::new(split_on(s, ',').len(), |i: int| trim(split_on(s, ',')[i]))
}

/// A port option: the parsed value when present and valid.
pub open spec fn port_option(v: Option<Seq<char>>) -> Option<u16> {
    match v {
        Some(s) => match parse_unsigned(s, 65535) {
            Some(p) => Some(p as u16),
            None => None,
        },
        None => None,
    }
}

/// The option value as a string view, if present.
pub open spec fn opt_view(o: Option<String>) -> Option<Seq<char>> {
    match o {
        Some(s) => Some(s@),
        None => None,
    }
}

/// The tunnel settings a tunnel definition describes, when it names the
/// private key, public key and tunnel address.
pub open spec fn wg_config_matches(w: WireGuardConfig, c: TunnelConfig) -> bool {
    let o = c.options@;
    &&& w.interface@ == c.name@
    &&& Some(w.private_key@) == lookup(o, "private_key"@)
    &&& Some(w.public_key@) == lookup(o, "public_key"@)
    &&& Some(w.tunnel_address@) == lookup(o, "tunnel_address"@)
    &&& w.endpoint@ == c.remote@
    &&& views(w.allowed_ips@) == match lookup(o, "allowed_ips"@) {
        Some(s) => split_trim(s),
        None => seq!["0.0.0.0/0"@],
    }
    &&& views(w.dns_servers@) == match lookup(o, "dns_servers"@) {
        Some(s) => split_trim(s),
        None => Seq::empty(),
    }
    &&& w.listen_port == port_option(lookup(o, "listen_port"@))
    &&& w.persistent_keepalive == port_option(lookup(o, "persistent_keepalive"@))
    &&& opt_view(w.preshared_key) == lookup(o, "preshared_key"@)
}

/// The error for a missing mandatory option.
pub open spec fn missing_option_message(key: Seq<char>, tunnel: Seq<char>) -> Seq<char> {
    "Missing "@ + key + " for tunnel "@ + tunnel
}

fn missing(key: &str, tunnel: &String) -> (e: CoreError)
    ensures
        e matches CoreError::Qos(m) && m@ == missing_option_message(key@, tunnel@),
{
    let mut m = String::new();
    push_str(&mut m, "Missing ");
    push_str(&mut m, key);
    push_str(&mut m, " for tunnel ");
    push_str(&mut m, tunnel.as_str());
    CoreError::Qos(m)
}

fn split_trim_exec(s: &String) -> (v: Vec<String>)
    ensures
        views(v@) == split_trim(s@),
{
    let chars = chars_of(s.as_str());
    let parts = split_chars(&chars, ',');
    let mut v: Vec<String> = Vec::new();
    let mut i: usize = 0;
    while i < parts.len()
        invariant
            i <= parts@.len(),
            parts@.len() == split_on(s@, ',').len(),
            forall|k: int| 0 <= k < parts@.len() ==> #[trigger] parts@[k]@ == split_on(s@, ',')[k],
            views(v@) == split_trim(s@).subrange(0, i as int),
        decreases parts.len() - i,
    {
        let t = trim_chars(&parts[i]);
        let ts = string_of(&t);
        let ghost tv = ts@;
        let ghost old_v = views(v@);
        assert(tv == split_trim(s@)[i as int]);
        v.push(ts);
        assert(views(v@) =~= old_v.push(tv));
        i = i + 1;
        assert(views(v@) =~= split_trim(s@).subrange(0, i as int));
    }
    assert(split_trim(s@).subrange(0, parts@.len() as int) =~= split_trim(s@));
    v
}

fn port_from(v: Option<&String>) -> (p: Option<u16>)
    ensures
        p == port_option(
            match v {
                Some(s) => Some(s@),
                None => None,
            },
        ),
{
    match v {
        Some(s) => {
            let c = chars_of(s.as_str());
            match parse_unsigned_chars(&c, 65535) {
                Some(n) => Some(n as u16),
                None => None,
            }
        },
        None => None,
    }
}


/// The error message of a definition that lacks a required option: it
/// names the first missing one of `private_key`, `public_key` and
/// `tunnel_address`.
pub open spec fn first_missing_message(c: TunnelConfig) -> Seq<char> {
    if lookup(c.options@, "private_key"@) is None {
        missing_option_message("private_key"@, c.name@)
    } else if lookup(c.options@, "public_key"@) is None {
        missing_option_message("public_key"@, c.name@)
    } else {
        missing_option_message("tunnel_address"@, c.name@)
    }
}

impl WireGuardConfig {
    /// Reads the WireGuard settings of a tunnel definition from its
    /// options: `private_key`, `public_key` and `tunnel_address` are
    /// required (checked in that order); `allowed_ips` (default
    /// `0.0.0.0/0`) and `dns_servers` are comma-separated lists; invalid
    /// `listen_port` or `persistent_keepalive` values are ignored.
    pub fn from_tunnel_config(config: &TunnelConfig) -> (r: Result<WireGuardConfig, CoreError>)
        ensures
            match r {
                Ok(w) => wg_config_matches(w, *config),
                Err(CoreError::Qos(m)) => {
                    let o = config.options@;
                    if lookup(o, "private_key"@) is None {
                        m@ == missing_option_message("private_key"@, config.name@)
                    } else if lookup(o, "public_key"@) is None {
                        m@ == missing_option_message("public_key"@, config.name@)
                    } else {
                        lookup(o, "tunnel_address"@) is None && m@ == missing_option_message(
                            "tunnel_address"@,
                            config.name@,
                        )
                    }
                },
                Err(_) => false,
            },
            r is Ok <==> (lookup(config.options@, "private_key"@) is Some && lookup(
                config.options@,
                "public_key"@,
            ) is Some && lookup(config.options@, "tunnel_address"@) is Some),
    {
        let opts = &config.options;
        let private_key = match lookup_option(opts, "private_key") {
            Some(v) => v.clone(),
            None => return Err(missing("private_key", &config.name)),
        };
        let public_key = match lookup_option(opts, "public_key") {
            Some(v) => v.clone(),
            None => return Err(missing("public_key", &config.name)),
        };
        let tunnel_address = match lookup_option(opts, "tunnel_address") {
            Some(v) => v.clone(),
            None => return Err(missing("tunnel_address", &config.name)),
        };
        let allowed_ips = match lookup_option(opts, "allowed_ips") {
            Some(v) => split_trim_exec(v),
            None => {
                let mut d: Vec<String> = Vec::new();
                push_lit(&mut d, "0.0.0.0/0");
                assert(views(d@) =~= seq!["0.0.0.0/0"@]);
                d
            },
        };
        let dns_servers = match lookup_option(opts, "dns_servers") {
            Some(v) => split_trim_exec(v),
            None => {
                let d: Vec<String> = Vec::new();
                assert(views(d@) =~= Seq::<Seq<char>>::empty());
                d
            },
        };
        let listen_port = port_from(lookup_option(opts, "listen_port"));
        let persistent_keepalive = port_from(lookup_option(opts, "persistent_keepalive"));
        let preshared_key = match lookup_option(opts, "preshared_key") {
            Some(v) => Some(v.clone()),
            None => None,
        };
        Ok(
            WireGuardConfig {
                interface: config.name.clone(),
                private_key,
                listen_port,
                endpoint: config.remote.clone(),
                public_key,
                preshared_key,
                allowed_ips,
                persistent_keepalive,
                tunnel_address,
                dns_servers,
            },
        )
    }
}

} // verus!
