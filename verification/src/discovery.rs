//! Interface discovery: classifying links, choosing which ones to manage,
//! and reading the kernel's link and statistics reports.

use vstd::prelude::*;

use crate::config::InterfaceType;
use crate::text::{
    chars_of, dec, lines, lines_chars, parse_unsigned, parse_unsigned_chars, push_char, seq_contains,
    seq_starts_with, split_chars, split_on, str_contains, str_eq, str_starts_with, string_of, words, words_chars,
};
use crate::types::{InterfaceStats, IpInfo, LinkState};

pub mod metadata;

verus! {

/// A link as reported by the kernel.
#[derive(Debug, Clone)]
pub struct LinkEntry {
    pub index: u32,
    pub name: String,
    pub mac: Option<String>,
    pub mtu: u32,
    pub state: LinkState,
    pub link_type: Option<String>,
}

/// A route as reported by the kernel.
#[derive(Debug, Clone)]
pub struct RouteEntry {
    pub gateway: Option<String>,
    pub dst_prefix_len: u8,
    pub if_index: Option<u32>,
}

/// The operational state a link reports (RFC 2863).
#[derive(Debug, Clone, Copy, PartialEq, Eq, Structural)]
pub enum OperState {
    Unknown,
    NotPresent,
    Down,
    LowerLayerDown,
    Testing,
    Dormant,
    Up,
    Other,
}

/// The interface type a link kind names.
pub open spec fn kind_type(k: Seq<char>) -> InterfaceType {
    if k == "bond"@ {
        InterfaceType::Bond
    } else if k == "bridge"@ {
        InterfaceType::Bridge
    } else if k == "vlan"@ {
        InterfaceType::Vlan
    } else if k == "tunnel"@ || k == "gre"@ || k == "ipip"@ || k == "sit"@ || k == "vti"@ {
        InterfaceType::Tunnel
    } else if k == "wireguard"@ {
        InterfaceType::WireGuard
    } else if k == "vxlan"@ {
        InterfaceType::Tunnel
    } else if k == "macvlan"@ || k == "macvtap"@ || k == "ipvlan"@ || k == "ipvtap"@ {
        InterfaceType::Virtual
    } else if k == "dummy"@ || k == "ifb"@ {
        InterfaceType::Virtual
    } else if k == "tailscale"@ || k == "tailscale0"@ {
        InterfaceType::Tailscale
    } else {
        InterfaceType::Unknown
    }
}

/// The interface type suggested by a link's name (and whether it has a
/// hardware address).
pub open spec fn name_type(n: Seq<char>, has_mac: bool) -> InterfaceType {
    if seq_starts_with(n, "wg"@) {
        InterfaceType::WireGuard
    } else if n == "tailscale0"@ || seq_starts_with(n, "ts-"@) {
        InterfaceType::Tailscale
    } else if seq_starts_with(n, "tun"@) || seq_starts_with(n, "tap"@) {
        InterfaceType::Tunnel
    } else if seq_starts_with(n, "ppp"@) || seq_starts_with(n, "pppoe"@) {
        InterfaceType::Ppp
    } else if seq_starts_with(n, "usb"@) && (seq_contains(n, "tether"@) || seq_contains(n, "rndis"@)) {
        InterfaceType::UsbTether
    } else if seq_starts_with(n, "wwan"@) || seq_starts_with(n, "ttyACM"@) || seq_starts_with(n, "cdc"@) {
        InterfaceType::Cellular
    } else if seq_starts_with(n, "wl"@) || seq_starts_with(n, "wifi"@) || seq_starts_with(n, "ra"@) {
        InterfaceType::Wireless
    } else if has_mac && n != "lo"@ {
        InterfaceType::Ethernet
    } else {
        InterfaceType::Unknown
    }
}

/// The type of a link: by its kind when the kernel reports one, else by
/// its name.
pub open spec fn interface_type_of(link: LinkEntry) -> InterfaceType {
    match link.link_type {
        Some(k) => kind_type(k@),
        None => name_type(link.name@, link.mac is Some),
    }
}

fn kind_to_type(k: &str) -> (t: InterfaceType)
    ensures
        t == kind_type(k@),
{
    if str_eq(k, "bond") {
        InterfaceType::Bond
    } else if str_eq(k, "bridge") {
        InterfaceType::Bridge
    } else if str_eq(k, "vlan") {
        InterfaceType::Vlan
    } else if str_eq(k, "tunnel") || str_eq(k, "gre") || str_eq(k, "ipip") || str_eq(k, "sit")
        || str_eq(k, "vti") {
        InterfaceType::Tunnel
    } else if str_eq(k, "wireguard") {
        InterfaceType::WireGuard
    } else if str_eq(k, "vxlan") {
        InterfaceType::Tunnel
    } else if str_eq(k, "macvlan") || str_eq(k, "macvtap") || str_eq(k, "ipvlan") || str_eq(
        k,
        "ipvtap",
    ) {
        InterfaceType::Virtual
    } else if str_eq(k, "dummy") || str_eq(k, "ifb") {
        InterfaceType::Virtual
    } else if str_eq(k, "tailscale") || str_eq(k, "tailscale0") {
        InterfaceType::Tailscale
    } else {
        InterfaceType::Unknown
    }
}

/// Detects the type of a network interface: the kernel's link kind when
/// present (bond, bridge, vlan, tunnel kinds, wireguard, virtual kinds,
/// tailscale; anything else is unknown), otherwise name patterns (wg*,
/// tailscale0/ts-*, tun*/tap*, ppp*, usb* tethering, wwan*/ttyACM*/cdc*,
/// wl*/wifi*/ra*), and finally Ethernet for any other link with a hardware
/// address.
pub fn detect_interface_type(link: &LinkEntry) -> (t: InterfaceType)
    ensures
        t == interface_type_of(*link),
{
    match &link.link_type {
        Some(k) => kind_to_type(k.as_str()),
        None => {
            let n = link.name.as_str();
            if str_starts_with(n, "wg") {
                InterfaceType::WireGuard
            } else if str_eq(n, "tailscale0") || str_starts_with(n, "ts-") {
                InterfaceType::Tailscale
            } else if str_starts_with(n, "tun") || str_starts_with(n, "tap") {
                InterfaceType::Tunnel
            } else if str_starts_with(n, "ppp") || str_starts_with(n, "pppoe") {
                InterfaceType::Ppp
            } else if str_starts_with(n, "usb") && (str_contains(n, "tether") || str_contains(
                n,
                "rndis",
            )) {
                InterfaceType::UsbTether
            } else if str_starts_with(n, "wwan") || str_starts_with(n, "ttyACM") || str_starts_with(
                n,
                "cdc",
            ) {
                InterfaceType::Cellular
            } else if str_starts_with(n, "wl") || str_starts_with(n, "wifi") || str_starts_with(
                n,
                "ra",
            ) {
                InterfaceType::Wireless
            } else if link.mac.is_some() && !str_eq(n, "lo") {
                InterfaceType::Ethernet
            } else {
                InterfaceType::Unknown
            }
        },
    }
}

/// A line of NetworkManager's device status (`nmcli -t -f DEVICE,STATE
/// device`) says that it manages interface `name`: the line is
/// `name:state` with a state other than `unmanaged`.
pub open spec fn nm_line_manages(line: Seq<char>, name: Seq<char>) -> bool {
    let parts = split_on(line, ':');
    parts.len() == 2 && parts[0] == name && parts[1] != "unmanaged"@
}

/// Whether NetworkManager is actively managing an interface, according to
/// its device status report `device_status` (one `device:state` line per
/// device).
pub fn is_nm_managed(interface_name: &str, device_status: &str) -> (b: bool)
    ensures
        b == exists|i: int|
            0 <= i < lines(device_status@).len() && nm_line_manages(#[trigger] lines(device_status@)[i], interface_name@),
{
    let chars = chars_of(device_status);
    let ls = lines_chars(&chars);
    let ghost all = lines(device_status@);
    let mut i: usize = 0;
    while i < ls.len()
        invariant
            i <= ls@.len(),
            ls@.len() == all.len(),
            all == lines(device_status@),
            forall|k: int| 0 <= k < ls@.len() ==> #[trigger] ls@[k]@ == all[k],
            forall|k: int| 0 <= k < i ==> !nm_line_manages(#[trigger] all[k], interface_name@),
        decreases ls.len() - i,
    {
        let parts = split_chars(&ls[i], ':');
        assert(ls@[i as int]@ == all[i as int]);
        if parts.len() == 2 {
            let dev = string_of(&parts[0]);
            let st = string_of(&parts[1]);
            if str_eq(dev.as_str(), interface_name) && !str_eq(st.as_str(), "unmanaged") {
                assert(nm_line_manages(all[i as int], interface_name@));
                return true;
            }
        }
        assert(!nm_line_manages(all[i as int], interface_name@));
        i = i + 1;
    }
    false
}

/// A name that suggests a wireless interface.
pub open spec fn wireless_name(n: Seq<char>) -> bool {
    seq_starts_with(n, "wl"@) || seq_starts_with(n, "wifi"@) || seq_starts_with(n, "ra"@)
        || seq_starts_with(n, "ath"@) || seq_starts_with(n, "wlp"@) || seq_starts_with(n, "wlan"@)
}

/// Whether an interface name suggests a wireless interface.
pub fn is_wireless_interface(name: &str) -> (b: bool)
    ensures
        b == wireless_name(name@),
{
    str_starts_with(name, "wl") || str_starts_with(name, "wifi") || str_starts_with(name, "ra")
        || str_starts_with(name, "ath") || str_starts_with(name, "wlp") || str_starts_with(
        name,
        "wlan",
    )
}

/// A name that suggests a container or virtual-switch interface.
pub open spec fn virtual_name(n: Seq<char>) -> bool {
    seq_starts_with(n, "docker"@) || seq_starts_with(n, "br-"@) || seq_starts_with(n, "veth"@)
        || seq_starts_with(n, "virbr"@) || seq_starts_with(n, "lxcbr"@) || seq_starts_with(
        n,
        "cali"@,
    ) || seq_starts_with(n, "flannel"@) || seq_starts_with(n, "cni"@) || seq_starts_with(
        n,
        "podman"@,
    )
}

/// Whether an interface name suggests a virtual/docker/container interface.
pub fn is_virtual_interface(name: &str) -> (b: bool)
    ensures
        b == virtual_name(name@),
{
    str_starts_with(name, "docker") || str_starts_with(name, "br-") || str_starts_with(name, "veth")
        || str_starts_with(name, "virbr") || str_starts_with(name, "lxcbr") || str_starts_with(
        name,
        "cali",
    ) || str_starts_with(name, "flannel") || str_starts_with(name, "cni") || str_starts_with(
        name,
        "podman",
    )
}

/// Whether a scan leaves a link out: the loopback and virtual interfaces.
pub fn is_skipped_interface(name: &str) -> (b: bool)
    ensures
        b == (name@ == "lo"@ || virtual_name(name@)),
{
    str_eq(name, "lo") || is_virtual_interface(name)
}

/// The name of a link: the name it reported, or `unknown-<index>` when it
/// reported none.
pub fn link_name_or_default(name: Option<String>, index: u32) -> (n: String)
    ensures
        match name {
            Some(s) => n@ == s@,
            None => n@ == "unknown-"@ + dec(index as nat),
        },
{
    match name {
        Some(s) => s,
        None => {
            let mut n = String::from_str("unknown-");
            crate::text::push_dec(&mut n, index as u64);
            n
        },
    }
}

/// The MTU of a link: the one it reported, or 1500 when it reported none.
pub fn link_mtu_or_default(mtu: Option<u32>) -> (m: u32)
    ensures
        m == match mtu {
            Some(v) => v,
            None => 1500,
        },
{
    match mtu {
        Some(v) => v,
        None => 1500,
    }
}

/// The state of a link: its operational state when that is decisive
/// (down; lower-layer-down, dormant and up count as up), else its
/// administrative up flag.
pub fn link_state_from(admin_up: bool, oper: Option<OperState>) -> (s: LinkState)
    ensures
        s == match oper {
            Some(OperState::Down) => LinkState::Down,
            Some(OperState::LowerLayerDown) | Some(OperState::Dormant) | Some(OperState::Up) => LinkState::Up,
            _ => if admin_up { LinkState::Up } else { LinkState::Down },
        },
{
    match oper {
        Some(OperState::Down) => LinkState::Down,
        Some(OperState::LowerLayerDown) | Some(OperState::Dormant) | Some(OperState::Up) => LinkState::Up,
        _ => if admin_up {
            LinkState::Up
        } else {
            LinkState::Down
        },
    }
}

/// Network management stacks that can coexist with the daemon.
#[derive(Debug, Clone, Copy, PartialEq, Eq, Structural)]
pub enum NetworkStack {
    NetworkManager,
    SystemdNetworkd,
    Netplan,
    Ifupdown,
    Unknown,
}

impl NetworkStack {
    /// The stack's display name.
    pub fn as_str(self) -> (s: &'static str)
        ensures
            s@ == match self {
                NetworkStack::NetworkManager => "NetworkManager"@,
                NetworkStack::SystemdNetworkd => "systemd-networkd"@,
                NetworkStack::Netplan => "netplan"@,
                NetworkStack::Ifupdown => "ifupdown"@,
                NetworkStack::Unknown => "unknown"@,
            },
    {
        match self {
            NetworkStack::NetworkManager => "NetworkManager",
            NetworkStack::SystemdNetworkd => "systemd-networkd",
            NetworkStack::Netplan => "netplan",
            NetworkStack::Ifupdown => "ifupdown",
            NetworkStack::Unknown => "unknown",
        }
    }
}

/// The marker paths whose presence identifies each stack, in the order
/// they are checked.
pub const NETWORK_MANAGER_PID: &'static str = "/var/run/NetworkManager/NetworkManager.pid";
pub const NETWORKD_RUN_DIR: &'static str = "/run/systemd/netif";
pub const NETPLAN_DIR: &'static str = "/etc/netplan";
pub const IFUPDOWN_FILE: &'static str = "/etc/network/interfaces";

/// Detects the active network stack from which marker paths exist:
/// NetworkManager's pid file first, then systemd-networkd's run directory,
/// netplan's configuration directory, and ifupdown's interfaces file.
pub fn detect_network_stack(nm_pid: bool, networkd: bool, netplan: bool, ifupdown: bool) -> (s: NetworkStack)
    ensures
        s == if nm_pid {
            NetworkStack::NetworkManager
        } else if networkd {
            NetworkStack::SystemdNetworkd
        } else if netplan {
            NetworkStack::Netplan
        } else if ifupdown {
            NetworkStack::Ifupdown
        } else {
            NetworkStack::Unknown
        },
{
    if nm_pid {
        NetworkStack::NetworkManager
    } else if networkd {
        NetworkStack::SystemdNetworkd
    } else if netplan {
        NetworkStack::Netplan
    } else if ifupdown {
        NetworkStack::Ifupdown
    } else {
        NetworkStack::Unknown
    }
}

// ---------------------------------------------------------------------------
// Hardware addresses
// ---------------------------------------------------------------------------

/// The lowercase hexadecimal digit of `d` (0-15).
pub open spec fn hex_digit(d: nat) -> char {
    if d < 10 {
        ((d + 48) as u8) as char
    } else {
        ((d + 87) as u8) as char
    }
}

/// A byte as two lowercase hexadecimal digits.
pub open spec fn hex_byte(b: u8) -> Seq<char> {
    seq![hex_digit((b / 16) as nat), hex_digit((b % 16) as nat)]
}

/// Bytes as colon-separated lowercase hex pairs.
pub open spec fn mac_text(bs: Seq<u8>) -> Seq<char>
    decreases bs.len(),
{
    if bs.len() == 0 {
        Seq::empty()
    } else if bs.len() == 1 {
        hex_byte(bs[0])
    } else {
        mac_text(bs.drop_last()) + seq![':'] + hex_byte(bs.last())
    }
}

fn hex_char(d: u8) -> (c: char)
    requires
        d < 16,
    ensures
        c == hex_digit(d as nat),
{
    if d < 10 {
        (d + 48) as char
    } else {
        (d + 87) as char
    }
}

/// Formats a hardware address as colon-separated lowercase hex pairs
/// ("aa:bb:cc:dd:ee:ff").
pub fn format_mac(bytes: &Vec<u8>) -> (s: String)
    ensures
        s@ == mac_text(bytes@),
{
    let mut s = String::new();
    let mut i: usize = 0;
    while i < bytes.len()
        invariant
            i <= bytes@.len(),
            s@ == mac_text(bytes@.subrange(0, i as int)),
        decreases bytes.len() - i,
    {
        let ghost pre = bytes@.subrange(0, i as int);
        let ghost next = bytes@.subrange(0, i + 1);
        assert(next.drop_last() =~= pre);
        if i > 0 {
            push_char(&mut s, ':');
        }
        let b = bytes[i];
        push_char(&mut s, hex_char(b / 16));
        push_char(&mut s, hex_char(b % 16));
        i = i + 1;
        assert(s@ =~= mac_text(bytes@.subrange(0, i as int)));
    }
    assert(bytes@.subrange(0, bytes@.len() as int) =~= bytes@);
    s
}

// ---------------------------------------------------------------------------
// Default gateways
// ---------------------------------------------------------------------------

/// The default gateway recorded for interface `index`: the gateway of the
/// last default route (prefix length 0) out of it, or the empty string for
/// such a route without a gateway.
pub open spec fn default_gateway_of(routes: Seq<RouteEntry>, index: u32) -> Option<Seq<char>>
    decreases routes.len(),
{
    if routes.len() == 0 {
        None
    } else {
        let r = routes.last();
        if r.dst_prefix_len == 0 && r.if_index == Some(index) {
            Some(
                match r.gateway {
                    Some(g) => g@,
                    None => Seq::empty(),
                },
            )
        } else {
            default_gateway_of(routes.drop_last(), index)
        }
    }
}

/// The default gateway of an interface, from the route table.
pub fn default_gateway_for(routes: &Vec<RouteEntry>, index: u32) -> (g: Option<String>)
    ensures
        match g {
            Some(s) => default_gateway_of(routes@, index) == Some(s@),
            None => default_gateway_of(routes@, index) is None,
        },
{
    let mut i: usize = routes.len();
    assert(routes@.subrange(0, i as int) =~= routes@);
    while i > 0
        invariant
            i <= routes@.len(),
            default_gateway_of(routes@, index) == default_gateway_of(
                routes@.subrange(0, i as int),
                index,
            ),
        decreases i,
    {
        let ghost pre = routes@.subrange(0, i as int);
        assert(pre.drop_last() =~= routes@.subrange(0, i - 1));
        assert(pre.last() == routes@[i - 1]);
        let r = &routes[i - 1];
        if r.dst_prefix_len == 0 && r.if_index == Some(index) {
            return match &r.gateway {
                Some(g) => Some(g.clone()),
                None => Some(String::new()),
            };
        }
        i = i - 1;
    }
    None
}

// ---------------------------------------------------------------------------
// Putting a scan together
// ---------------------------------------------------------------------------

/// An address as reported by the kernel: the interface index, the address
/// in text form, and its prefix length.
#[derive(Debug, Clone)]
pub struct AddressEntry {
    pub index: u32,
    pub address: String,
    pub prefix_len: u8,
}

/// The `address/prefix` text of the addresses on interface `index`, in
/// report order.
pub open spec fn cidrs_of(addrs: Seq<AddressEntry>, index: u32) -> Seq<Seq<char>>
    decreases addrs.len(),
{
    if addrs.len() == 0 {
        Seq::empty()
    } else {
        let a = addrs.last();
        let prev = cidrs_of(addrs.drop_last(), index);
        if a.index == index {
            prev.push(a.address@ + "/"@ + dec(a.prefix_len as nat))
        } else {
            prev
        }
    }
}

/// An interface found by a scan, before its statistics and details are
/// added.
#[derive(Debug)]
pub struct InterfaceDraft {
    /// Position of its link in the scanned link list.
    pub link: usize,
    pub if_type: InterfaceType,
    /// Its addresses, none known to come from DHCP.
    pub addresses: Vec<IpInfo>,
    /// Its default gateway.
    pub gateway: Option<String>,
}

/// The draft describes link `i` of `links` against the scanned addresses
/// and routes.
pub open spec fn draft_of(d: InterfaceDraft, links: Seq<LinkEntry>, i: int, addrs: Seq<AddressEntry>, routes: Seq<RouteEntry>) -> bool {
    &&& d.link == i
    &&& d.if_type == interface_type_of(links[i])
    &&& d.addresses@.map_values(|a: IpInfo| a.cidr@) == cidrs_of(addrs, links[i].index)
    &&& forall|k: int| 0 <= k < d.addresses@.len() ==> !(#[trigger] d.addresses@[k]).dhcp
    &&& match d.gateway {
        Some(g) => default_gateway_of(routes, links[i].index) == Some(g@),
        None => default_gateway_of(routes, links[i].index) is None,
    }
}

/// The positions of the links a scan keeps (not loopback, not virtual).
pub open spec fn kept_links(links: Seq<LinkEntry>) -> Seq<int>
    decreases links.len(),
{
    if links.len() == 0 {
        Seq::empty()
    } else if links.last().name@ == "lo"@ || virtual_name(links.last().name@) {
        kept_links(links.drop_last())
    } else {
        kept_links(links.drop_last()).push(links.len() - 1)
    }
}

fn cidrs_for(addrs: &Vec<AddressEntry>, index: u32) -> (v: Vec<IpInfo>)
    ensures
        v@.map_values(|a: IpInfo| a.cidr@) == cidrs_of(addrs@, index),
        forall|k: int| 0 <= k < v@.len() ==> !(#[trigger] v@[k]).dhcp,
{
    let mut v: Vec<IpInfo> = Vec::new();
    let mut i: usize = 0;
    while i < addrs.len()
        invariant
            i <= addrs@.len(),
            v@.map_values(|a: IpInfo| a.cidr@) == cidrs_of(addrs@.take(i as int), index),
            forall|k: int| 0 <= k < v@.len() ==> !(#[trigger] v@[k]).dhcp,
        decreases addrs.len() - i,
    {
        assert(addrs@.take(i + 1).drop_last() =~= addrs@.take(i as int));
        assert(addrs@.take(i + 1).last() == addrs@[i as int]);
        let a = &addrs[i];
        if a.index == index {
            let mut cidr = a.address.clone();
            push_char(&mut cidr, '/');
            crate::text::push_dec(&mut cidr, a.prefix_len as u64);
            proof {
                reveal_strlit("/");
                assert(cidr@ =~= a.address@ + "/"@ + dec(a.prefix_len as nat));
            }
            let ghost old_v = v@.map_values(|a: IpInfo| a.cidr@);
            let ghost cv = cidr@;
            v.push(IpInfo { cidr, dhcp: false });
            assert(v@.map_values(|a: IpInfo| a.cidr@) =~= old_v.push(cv));
        }
        i = i + 1;
    }
    assert(addrs@.take(addrs@.len() as int) =~= addrs@);
    v
}

/// The interfaces a scan reports, in link order: every link but the
/// loopback and virtual ones, with its type, addresses and default
/// gateway.
pub fn plan_interfaces(links: &Vec<LinkEntry>, addrs: &Vec<AddressEntry>, routes: &Vec<RouteEntry>) -> (ds: Vec<InterfaceDraft>)
    ensures
        ds@.len() == kept_links(links@).len(),
        forall|k: int| 0 <= k < ds@.len() ==> draft_of(#[trigger] ds@[k], links@, kept_links(links@)[k], addrs@, routes@),
{
    let mut ds: Vec<InterfaceDraft> = Vec::new();
    let mut i: usize = 0;
    while i < links.len()
        invariant
            i <= links@.len(),
            ds@.len() == kept_links(links@.take(i as int)).len(),
            forall|k: int| 0 <= k < ds@.len() ==> draft_of(
                #[trigger] ds@[k],
                links@,
                kept_links(links@.take(i as int))[k],
                addrs@,
                routes@,
            ),
        decreases links.len() - i,
    {
        let ghost pre = links@.take(i as int);
        assert(links@.take(i + 1).drop_last() =~= pre);
        assert(links@.take(i + 1).last() == links@[i as int]);
        let link = &links[i];
        if !is_skipped_interface(link.name.as_str()) {
            let d = InterfaceDraft {
                link: i,
                if_type: detect_interface_type(link),
                addresses: cidrs_for(addrs, link.index),
                gateway: default_gateway_for(routes, link.index),
            };
            ds.push(d);
        }
        i = i + 1;
    }
    assert(links@.take(links@.len() as int) =~= links@);
    ds
}

// ---------------------------------------------------------------------------
// /proc/net/dev
// ---------------------------------------------------------------------------

/// `s` without all trailing colons (`str::trim_end_matches(':')`).
pub open spec fn strip_colons(s: Seq<char>) -> Seq<char>
    decreases s.len(),
{
    if s.len() > 0 && s.last() == ':' {
        strip_colons(s.drop_last())
    } else {
        s
    }
}

/// A counter field: its value, or 0 if it is not a number.
pub open spec fn counter(s: Seq<char>) -> u64 {
    match parse_unsigned(s, u64::MAX as nat) {
        Some(v) => v as u64,
        None => 0,
    }
}

/// The statistics of one `/proc/net/dev` line, if it has at least 17
/// fields: the interface name (without its colon) and the receive and
/// transmit counters.
pub open spec fn net_dev_entry(line: Seq<char>) -> Option<(Seq<char>, InterfaceStats)> {
    let f = words(line);
    if f.len() < 17 {
        None
    } else {
        Some(
            (
                strip_colons(f[0]),
                InterfaceStats {
                    rx_bytes: counter(f[1]),
                    rx_packets: counter(f[2]),
                    rx_errors: counter(f[3]),
                    rx_dropped: counter(f[4]),
                    tx_bytes: counter(f[9]),
                    tx_packets: counter(f[10]),
                    tx_errors: counter(f[11]),
                    tx_dropped: counter(f[12]),
                },
            ),
        )
    }
}

/// The entries of a list of lines, in order.
pub open spec fn net_dev_entries(ls: Seq<Seq<char>>) -> Seq<(Seq<char>, InterfaceStats)>
    decreases ls.len(),
{
    if ls.len() == 0 {
        Seq::empty()
    } else {
        let prev = net_dev_entries(ls.drop_last());
        match net_dev_entry(ls.last()) {
            Some(e) => prev.push(e),
            None => prev,
        }
    }
}

/// The lines after the two header lines.
pub open spec fn body_lines(content: Seq<char>) -> Seq<Seq<char>> {
    let ls = lines(content);
    if ls.len() <= 2 { Seq::empty() } else { ls.subrange(2, ls.len() as int) }
}

/// The views of parsed entries.
pub open spec fn entry_views(v: Seq<(String, InterfaceStats)>) -> Seq<(Seq<char>, InterfaceStats)> {
    v.map_values(|e: (String, InterfaceStats)| (e.0@, e.1))
}

fn counter_exec(s: &Vec<char>) -> (v: u64)
    ensures
        v == counter(s@),
{
    match parse_unsigned_chars(s, u64::MAX) {
        Some(v) => v,
        None => 0,
    }
}

fn strip_colons_exec(s: &Vec<char>) -> (v: Vec<char>)
    ensures
        v@ == strip_colons(s@),
{
    let mut end: usize = s.len();
    assert(s@.subrange(0, end as int) =~= s@);
    while end > 0 && s[end - 1] == ':'
        invariant
            end <= s.len(),
            strip_colons(s@) == strip_colons(s@.subrange(0, end as int)),
        decreases end,
    {
        let ghost pre = s@.subrange(0, end as int);
        assert(pre.drop_last() =~= s@.subrange(0, end - 1));
        end = end - 1;
    }
    let mut v: Vec<char> = Vec::new();
    let mut i: usize = 0;
    while i < end
        invariant
            i <= end <= s.len(),
            v@ == s@.subrange(0, i as int),
        decreases end - i,
    {
        v.push(s[i]);
        i = i + 1;
        assert(v@ =~= s@.subrange(0, i as int));
    }
    v
}

/// Parses `/proc/net/dev`: after the two header lines, every line with at
/// least 17 fields gives the interface name and its counters (fields that
/// are not numbers count as 0).
pub fn parse_net_dev(content: &str) -> (entries: Vec<(String, InterfaceStats)>)
    ensures
        entry_views(entries@) == net_dev_entries(body_lines(content@)),
{
    let chars = chars_of(content);
    let ls = lines_chars(&chars);
    let ghost all = lines(content@);
    let ghost body = body_lines(content@);
    let mut entries: Vec<(String, InterfaceStats)> = Vec::new();
    if ls.len() <= 2 {
        assert(entry_views(entries@) =~= Seq::<(Seq<char>, InterfaceStats)>::empty());
        return entries;
    }
    let mut i: usize = 2;
    assert(body.subrange(0, 0) =~= Seq::<Seq<char>>::empty());
    while i < ls.len()
        invariant
            2 <= i <= ls@.len(),
            ls@.len() == all.len(),
            all == lines(content@),
            body == all.subrange(2, all.len() as int),
            forall|k: int| 0 <= k < ls@.len() ==> #[trigger] ls@[k]@ == all[k],
            entry_views(entries@) == net_dev_entries(body.subrange(0, i - 2)),
        decreases ls.len() - i,
    {
        proof {
            let pre = body.subrange(0, i - 2);
            let next = body.subrange(0, i - 1);
            assert(next.drop_last() =~= pre);
            assert(next.last() == ls@[i as int]@);
        }
        let f = words_chars(&ls[i]);
        if f.len() >= 17 {
            let name = string_of(&strip_colons_exec(&f[0]));
            let stats = InterfaceStats {
                rx_bytes: counter_exec(&f[1]),
                rx_packets: counter_exec(&f[2]),
                rx_errors: counter_exec(&f[3]),
                rx_dropped: counter_exec(&f[4]),
                tx_bytes: counter_exec(&f[9]),
                tx_packets: counter_exec(&f[10]),
                tx_errors: counter_exec(&f[11]),
                tx_dropped: counter_exec(&f[12]),
            };
            let ghost old_views = entry_views(entries@);
            let ghost e = (name@, stats);
            entries.push((name, stats));
            assert(entry_views(entries@) =~= old_views.push(e));
        }
        i = i + 1;
    }
    assert(body.subrange(0, ls@.len() - 2) =~= body);
    entries
}

proof fn lemma_prefix_excludes(n: Seq<char>, p: Seq<char>, q: Seq<char>, i: int)
    requires
        seq_starts_with(n, p),
        0 <= i < p.len(),
        i < q.len(),
        p[i] != q[i],
    ensures
        !seq_starts_with(n, q),
        n != q,
{
    assert(n.subrange(0, p.len() as int)[i] == n[i]);
    if seq_starts_with(n, q) {
        assert(n.subrange(0, q.len() as int)[i] == n[i]);
    }
}

/// Without a kernel kind, the start of a link's name decides its type,
/// whatever its hardware address: `wg` is WireGuard; `ts-` or the name
/// `tailscale0` is Tailscale; `tun` or `tap` is a tunnel; `ppp` (and so
/// `pppoe`) is PPP; `wwan`, `ttyACM` or `cdc` is cellular; `wl`, `wifi` or
/// `ra` is wireless.
pub proof fn lemma_name_prefix_decides_type(link: LinkEntry)
    requires
        link.link_type is None,
    ensures
        seq_starts_with(link.name@, "wg"@) ==> interface_type_of(link) == InterfaceType::WireGuard,
        seq_starts_with(link.name@, "ts-"@) || link.name@ == "tailscale0"@ ==> interface_type_of(link)
            == InterfaceType::Tailscale,
        seq_starts_with(link.name@, "tun"@) || seq_starts_with(link.name@, "tap"@) ==> interface_type_of(link)
            == InterfaceType::Tunnel,
        seq_starts_with(link.name@, "ppp"@) ==> interface_type_of(link) == InterfaceType::Ppp,
        seq_starts_with(link.name@, "wwan"@) || seq_starts_with(link.name@, "ttyACM"@) || seq_starts_with(
            link.name@,
            "cdc"@,
        ) ==> interface_type_of(link) == InterfaceType::Cellular,
        seq_starts_with(link.name@, "wl"@) || seq_starts_with(link.name@, "wifi"@) || seq_starts_with(
            link.name@,
            "ra"@,
        ) ==> interface_type_of(link) == InterfaceType::Wireless,
{
    let n = link.name@;
    reveal_strlit("cdc");
    reveal_strlit("lo");
    reveal_strlit("ppp");
    reveal_strlit("pppoe");
    reveal_strlit("ra");
    reveal_strlit("rndis");
    reveal_strlit("tailscale0");
    reveal_strlit("tap");
    reveal_strlit("tether");
    reveal_strlit("ts-");
    reveal_strlit("ttyACM");
    reveal_strlit("tun");
    reveal_strlit("usb");
    reveal_strlit("wg");
    reveal_strlit("wifi");
    reveal_strlit("wl");
    reveal_strlit("wwan");
    if n == "tailscale0"@ {
        assert(n.len() >= 2 ==> n.subrange(0, 2)[0] == n[0]);
    }
        if seq_starts_with(n, "ts-"@) {
            lemma_prefix_excludes(n, "ts-"@, "wg"@, 0);
        }
        if seq_starts_with(n, "tun"@) {
            lemma_prefix_excludes(n, "tun"@, "wg"@, 0);
            lemma_prefix_excludes(n, "tun"@, "tailscale0"@, 1);
            assert("tun"@[1] == 'u' && "ts-"@[1] == 's');
            lemma_prefix_excludes(n, "tun"@, "ts-"@, 1);
        }
        if seq_starts_with(n, "tap"@) {
            lemma_prefix_excludes(n, "tap"@, "wg"@, 0);
            lemma_prefix_excludes(n, "tap"@, "tailscale0"@, 2);
            lemma_prefix_excludes(n, "tap"@, "ts-"@, 1);
        }
        if seq_starts_with(n, "ppp"@) {
            lemma_prefix_excludes(n, "ppp"@, "wg"@, 0);
            lemma_prefix_excludes(n, "ppp"@, "tailscale0"@, 0);
            lemma_prefix_excludes(n, "ppp"@, "ts-"@, 0);
            lemma_prefix_excludes(n, "ppp"@, "tun"@, 0);
            lemma_prefix_excludes(n, "ppp"@, "tap"@, 0);
        }
        if seq_starts_with(n, "wwan"@) {
            lemma_prefix_excludes(n, "wwan"@, "wg"@, 1);
            lemma_prefix_excludes(n, "wwan"@, "tailscale0"@, 0);
            lemma_prefix_excludes(n, "wwan"@, "ts-"@, 0);
            lemma_prefix_excludes(n, "wwan"@, "tun"@, 0);
            lemma_prefix_excludes(n, "wwan"@, "tap"@, 0);
            lemma_prefix_excludes(n, "wwan"@, "ppp"@, 0);
            lemma_prefix_excludes(n, "wwan"@, "pppoe"@, 0);
            lemma_prefix_excludes(n, "wwan"@, "usb"@, 0);
        }
        if seq_starts_with(n, "ttyACM"@) {
            lemma_prefix_excludes(n, "ttyACM"@, "wg"@, 0);
            lemma_prefix_excludes(n, "ttyACM"@, "tailscale0"@, 1);
            lemma_prefix_excludes(n, "ttyACM"@, "ts-"@, 1);
            lemma_prefix_excludes(n, "ttyACM"@, "tun"@, 1);
            lemma_prefix_excludes(n, "ttyACM"@, "tap"@, 1);
            lemma_prefix_excludes(n, "ttyACM"@, "ppp"@, 0);
            lemma_prefix_excludes(n, "ttyACM"@, "pppoe"@, 0);
            lemma_prefix_excludes(n, "ttyACM"@, "usb"@, 0);
            lemma_prefix_excludes(n, "ttyACM"@, "wwan"@, 0);
        }
        if seq_starts_with(n, "cdc"@) {
            lemma_prefix_excludes(n, "cdc"@, "wg"@, 0);
            lemma_prefix_excludes(n, "cdc"@, "tailscale0"@, 0);
            lemma_prefix_excludes(n, "cdc"@, "ts-"@, 0);
            lemma_prefix_excludes(n, "cdc"@, "tun"@, 0);
            lemma_prefix_excludes(n, "cdc"@, "tap"@, 0);
            lemma_prefix_excludes(n, "cdc"@, "ppp"@, 0);
            lemma_prefix_excludes(n, "cdc"@, "pppoe"@, 0);
            lemma_prefix_excludes(n, "cdc"@, "usb"@, 0);
            lemma_prefix_excludes(n, "cdc"@, "wwan"@, 0);
            lemma_prefix_excludes(n, "cdc"@, "ttyACM"@, 0);
        }
        if seq_starts_with(n, "wl"@) {
            lemma_prefix_excludes(n, "wl"@, "wg"@, 1);
            lemma_prefix_excludes(n, "wl"@, "tailscale0"@, 0);
            lemma_prefix_excludes(n, "wl"@, "ts-"@, 0);
            lemma_prefix_excludes(n, "wl"@, "tun"@, 0);
            lemma_prefix_excludes(n, "wl"@, "tap"@, 0);
            lemma_prefix_excludes(n, "wl"@, "ppp"@, 0);
            lemma_prefix_excludes(n, "wl"@, "pppoe"@, 0);
            lemma_prefix_excludes(n, "wl"@, "usb"@, 0);
            lemma_prefix_excludes(n, "wl"@, "wwan"@, 1);
            lemma_prefix_excludes(n, "wl"@, "ttyACM"@, 0);
            lemma_prefix_excludes(n, "wl"@, "cdc"@, 0);
        }
        if seq_starts_with(n, "wifi"@) {
            lemma_prefix_excludes(n, "wifi"@, "wg"@, 1);
            lemma_prefix_excludes(n, "wifi"@, "tailscale0"@, 0);
            lemma_prefix_excludes(n, "wifi"@, "ts-"@, 0);
            lemma_prefix_excludes(n, "wifi"@, "tun"@, 0);
            lemma_prefix_excludes(n, "wifi"@, "tap"@, 0);
            lemma_prefix_excludes(n, "wifi"@, "ppp"@, 0);
            lemma_prefix_excludes(n, "wifi"@, "pppoe"@, 0);
            lemma_prefix_excludes(n, "wifi"@, "usb"@, 0);
            assert("wifi"@[1] == 'i' && "wwan"@[1] == 'w');
            lemma_prefix_excludes(n, "wifi"@, "wwan"@, 1);
            lemma_prefix_excludes(n, "wifi"@, "ttyACM"@, 0);
            lemma_prefix_excludes(n, "wifi"@, "cdc"@, 0);
        }
        if seq_starts_with(n, "ra"@) {
            lemma_prefix_excludes(n, "ra"@, "wg"@, 0);
            lemma_prefix_excludes(n, "ra"@, "tailscale0"@, 0);
            lemma_prefix_excludes(n, "ra"@, "ts-"@, 0);
            lemma_prefix_excludes(n, "ra"@, "tun"@, 0);
            lemma_prefix_excludes(n, "ra"@, "tap"@, 0);
            lemma_prefix_excludes(n, "ra"@, "ppp"@, 0);
            lemma_prefix_excludes(n, "ra"@, "pppoe"@, 0);
            lemma_prefix_excludes(n, "ra"@, "usb"@, 0);
            lemma_prefix_excludes(n, "ra"@, "wwan"@, 0);
            lemma_prefix_excludes(n, "ra"@, "ttyACM"@, 0);
            lemma_prefix_excludes(n, "ra"@, "cdc"@, 0);
        }
}

} // verus!
