//! The daemon's IPC protocol: length-prefixed frames over a Unix socket,
//! and how the daemon answers each request.
//!
//! A frame is the payload's length as a 4-byte big-endian number followed
//! by the payload. The payload encoding itself is left to the transport.

use vstd::prelude::*;

use crate::argv::lit;
use crate::config::{config_issues, describe_issues, issues_text, ConfigSections};
use crate::text::{push_str, str_eq};
use crate::tunnels::manager::duration_millis;

use std::time::{Duration, SystemTime, UNIX_EPOCH};

verus! {

/// Current IPC protocol version.
pub const IPC_PROTOCOL_VERSION: u32 = 1;

/// The largest frame payload the daemon accepts (10 MiB).
pub const MAX_FRAME_SIZE: u32 = 10485760;

/// The 4-byte big-endian encoding of `n`.
pub open spec fn be32(n: nat) -> Seq<u8> {
    seq![(n / 0x100_0000 % 0x100) as u8, (n / 0x1_0000 % 0x100) as u8, (n / 0x100 % 0x100) as u8, (n % 0x100) as u8]
}

/// The number a 4-byte big-endian header encodes.
pub open spec fn be32_value(h: Seq<u8>) -> nat {
    (h[0] as nat) * 0x100_0000 + (h[1] as nat) * 0x1_0000 + (h[2] as nat) * 0x100 + (h[3] as nat)
}

/// The frame that carries `payload`.
pub open spec fn frame_of(payload: Seq<u8>) -> Seq<u8> {
    be32(payload.len()) + payload
}

/// The header of a frame carrying `len` bytes (`u32::to_be_bytes`).
pub fn frame_header(len: u32) -> (h: [u8; 4])
    ensures
        h@ == be32(len as nat),
{
    let b0 = (len / 0x100_0000 % 0x100) as u8;
    let b1 = (len / 0x1_0000 % 0x100) as u8;
    let b2 = (len / 0x100 % 0x100) as u8;
    let b3 = (len % 0x100) as u8;
    let h = [b0, b1, b2, b3];
    assert(h@ =~= be32(len as nat));
    h
}

/// The payload length a frame header announces (`u32::from_be_bytes`).
pub fn frame_size(h: [u8; 4]) -> (n: u32)
    ensures
        n == be32_value(h@),
{
    (h[0] as u32) * 0x100_0000 + (h[1] as u32) * 0x1_0000 + (h[2] as u32) * 0x100 + (h[3] as u32)
}

/// Whether the daemon reads a frame of this size; a larger one ends the
/// connection.
pub fn frame_acceptable(size: u32) -> (b: bool)
    ensures
        b == (size <= MAX_FRAME_SIZE),
{
    size <= MAX_FRAME_SIZE
}

/// Frames a payload: its length, big-endian, then the payload.
pub fn encode_frame(payload: &Vec<u8>) -> (f: Vec<u8>)
    requires
        payload@.len() <= u32::MAX,
    ensures
        f@ == frame_of(payload@),
{
    let h = frame_header(payload.len() as u32);
    let mut f: Vec<u8> = Vec::new();
    f.push(h[0]);
    f.push(h[1]);
    f.push(h[2]);
    f.push(h[3]);
    let mut i: usize = 0;
    while i < payload.len()
        invariant
            i <= payload@.len(),
            f@ == h@ + payload@.take(i as int),
        decreases payload.len() - i,
    {
        f.push(payload[i]);
        i = i + 1;
        assert(f@ =~= h@ + payload@.take(i as int));
    }
    assert(payload@.take(payload@.len() as int) =~= payload@);
    f
}

/// Reads one frame from the front of `bytes`: its payload and the number
/// of bytes it took, or nothing when the bytes end before the frame does.
pub fn decode_frame(bytes: &Vec<u8>) -> (r: Option<(Vec<u8>, usize)>)
    ensures
        match r {
            Some((payload, used)) => {
                &&& bytes@.len() >= 4
                &&& payload@.len() == be32_value(bytes@.take(4))
                &&& used == 4 + payload@.len()
                &&& used <= bytes@.len()
                &&& bytes@.take(used as int) == frame_of(payload@)
            },
            None => bytes@.len() < 4 || bytes@.len() < 4 + be32_value(bytes@.take(4)),
        },
{
    if bytes.len() < 4 {
        return None;
    }
    let n = frame_size([bytes[0], bytes[1], bytes[2], bytes[3]]);
    assert(bytes@.take(4) =~= seq![bytes@[0], bytes@[1], bytes@[2], bytes@[3]]);
    if bytes.len() - 4 < n as usize {
        return None;
    }
    let mut payload: Vec<u8> = Vec::new();
    let mut i: usize = 0;
    while i < n as usize
        invariant
            i <= n,
            4 + n <= bytes@.len(),
            bytes@.len() <= usize::MAX,
            payload@ == bytes@.subrange(4, 4 + i),
        decreases n - i,
    {
        payload.push(bytes[4 + i]);
        i = i + 1;
        assert(payload@ =~= bytes@.subrange(4, 4 + i));
    }
    proof {
        lemma_be32_roundtrip(n as nat);
        assert(bytes@.take(4 + n) =~= bytes@.take(4) + payload@);
    }
    Some((payload, 4 + n as usize))
}

/// The header encoding of a number below 2^32 reads back as that number.
pub proof fn lemma_be32_roundtrip(n: nat)
    requires
        n <= u32::MAX,
    ensures
        be32(n).len() == 4,
        be32_value(be32(n)) == n,
        forall|h: Seq<u8>| h.len() == 4 && be32_value(h) == n ==> h == be32(n),
{
    assert(be32_value(be32(n)) == n) by (nonlinear_arith)
        requires
            n <= u32::MAX,
    {
    }
    assert forall|h: Seq<u8>| h.len() == 4 && be32_value(h) == n implies h == be32(n) by {
        let b0 = h[0] as nat;
        let b1 = h[1] as nat;
        let b2 = h[2] as nat;
        let b3 = h[3] as nat;
        assert(b0 == n / 0x100_0000 % 0x100 && b1 == n / 0x1_0000 % 0x100 && b2 == n / 0x100 % 0x100 && b3 == n
            % 0x100) by (nonlinear_arith)
            requires
                b0 < 0x100,
                b1 < 0x100,
                b2 < 0x100,
                b3 < 0x100,
                n == b0 * 0x100_0000 + b1 * 0x1_0000 + b2 * 0x100 + b3,
        {
        }
        assert(h =~= be32(n));
    }
}

/// Reading a frame gives back exactly the payload that was framed, and
/// leaves whatever followed it.
pub proof fn lemma_frame_roundtrip(payload: Seq<u8>, rest: Seq<u8>)
    requires
        payload.len() <= u32::MAX,
    ensures
        (frame_of(payload) + rest).len() >= 4,
        be32_value((frame_of(payload) + rest).take(4)) == payload.len(),
        (frame_of(payload) + rest).subrange(4, 4 + payload.len() as int) == payload,
{
    lemma_be32_roundtrip(payload.len());
    assert((frame_of(payload) + rest).take(4) =~= be32(payload.len()));
    assert((frame_of(payload) + rest).subrange(4, 4 + payload.len() as int) =~= payload);
}

// ---------------------------------------------------------------------------
// Message envelope
// ---------------------------------------------------------------------------

/// The bytes of `b` read as one big-endian number.
pub open spec fn be_value(b: Seq<u8>) -> nat
    decreases b.len(),
{
    if b.len() == 0 {
        0
    } else {
        be_value(b.drop_last()) * 256 + b.last() as nat
    }
}

/// Random bytes made into a version 4 UUID: the high half of byte 6 set to
/// the version 4, the two high bits of byte 8 to the variant `10`.
pub open spec fn v4_bytes(b: Seq<u8>) -> Seq<u8> {
    b.update(6, (b[6] & 0x0f) | 0x40).update(8, (b[8] & 0x3f) | 0x80)
}

/// Sixteen bytes from the operating system's random source; `None` when
/// the source fails.
///
/// Wraps `getrandom::fill`. The bytes are random, so nothing is stated of
/// them.
#[verifier::external_body]
fn random_bytes() -> (r: Option<[u8; 16]>) {
    let mut b = [0u8; 16];
    match getrandom::fill(&mut b) {
        Ok(()) => Some(b),
        Err(_) => None,
    }
}

/// The version 4 UUID made of `bytes`, as a 128-bit number.
///
/// Wraps `uuid::Builder::from_random_bytes` and `Uuid::as_u128`: the
/// bytes with the version and variant bits set (`v4_bytes`), read
/// big-endian; so its version digit is 4.
#[verifier::external_body]
fn uuid_v4_from(bytes: [u8; 16]) -> (id: u128)
    ensures
        id as nat == be_value(v4_bytes(bytes@)),
        (id >> 76u128) & 0xf == 4,
{
    uuid::Builder::from_random_bytes(bytes).into_uuid().as_u128()
}

#[verifier::external_type_specification]
#[verifier::external_body]
pub struct ExSystemTime(SystemTime);

/// The current time of the system clock.
///
/// Wraps `SystemTime::now`; the reading depends on the clock, so nothing
/// is stated of it.
#[verifier::external_body]
fn system_now() -> (t: SystemTime) {
    SystemTime::now()
}

/// The time from the Unix epoch to `t`; `None` when `t` is earlier.
///
/// Wraps `SystemTime::duration_since` with `UNIX_EPOCH`, whose error
/// becomes `None`; nothing more is stated of the duration.
#[verifier::external_body]
fn since_unix_epoch(t: &SystemTime) -> (d: Option<Duration>) {
    t.duration_since(UNIX_EPOCH).ok()
}

/// Milliseconds since the Unix epoch as a message timestamp: `None` when
/// there is no reading or it does not fit in an `i64`.
pub fn epoch_millis(ms: Option<u128>) -> (r: Option<i64>)
    ensures
        match ms {
            Some(v) => if v <= i64::MAX as u128 {
                r == Some(v as i64)
            } else {
                r is None
            },
            None => r is None,
        },
{
    match ms {
        Some(v) => if v <= i64::MAX as u128 {
            Some(v as i64)
        } else {
            None
        },
        None => None,
    }
}

/// The current time in milliseconds since the Unix epoch; `None` when the
/// clock is set before the epoch.
fn now_millis() -> (r: Option<i64>)
    ensures
        r matches Some(ms) ==> ms >= 0,
{
    let t = system_now();
    match since_unix_epoch(&t) {
        Some(d) => epoch_millis(Some(duration_millis(&d))),
        None => None,
    }
}

/// A message on the wire: protocol version, id, time and payload.
#[derive(Debug, Clone)]
pub struct WireMessage<T> {
    /// Protocol version.
    pub version: u32,
    /// Message id for request/response correlation (a version 4 UUID).
    pub id: u128,
    /// When the message was made, in milliseconds since the Unix epoch.
    pub timestamp_ms: i64,
    pub payload: T,
}

impl<T> WireMessage<T> {
    /// A message of the current protocol version from its id and time:
    /// `None` when either is missing.
    pub fn assemble(payload: T, id: Option<u128>, timestamp_ms: Option<i64>) -> (m: Option<Self>)
        ensures
            match (id, timestamp_ms) {
                (Some(i), Some(t)) => m == Some(
                    (WireMessage { version: IPC_PROTOCOL_VERSION, id: i, timestamp_ms: t, payload }),
                ),
                _ => m is None,
            },
    {
        match (id, timestamp_ms) {
            (Some(i), Some(t)) => Some(WireMessage { version: IPC_PROTOCOL_VERSION, id: i, timestamp_ms: t, payload }),
            _ => None,
        }
    }

    /// Wraps a payload with the current protocol version, a fresh random
    /// version 4 id and the current time; `None` when the random source
    /// fails or the clock is set before the Unix epoch.
    pub fn new(payload: T) -> (m: Option<Self>)
        ensures
            m matches Some(w) ==> {
                &&& w.version == IPC_PROTOCOL_VERSION
                &&& w.payload == payload
                &&& (w.id >> 76u128) & 0xf == 4
                &&& w.timestamp_ms >= 0
            },
    {
        let id = match random_bytes() {
            Some(b) => Some(uuid_v4_from(b)),
            None => None,
        };
        Self::assemble(payload, id, now_millis())
    }

    /// Whether the message speaks this side's protocol version.
    pub fn version_matches(&self) -> (b: bool)
        ensures
            b == (self.version == IPC_PROTOCOL_VERSION),
    {
        self.version == IPC_PROTOCOL_VERSION
    }
}

// ---------------------------------------------------------------------------
// Requests
// ---------------------------------------------------------------------------

/// A request to the daemon, as far as answering it depends on it.
#[derive(Debug)]
pub enum Request {
    GetStatus,
    GetInterfaces,
    GetInterface { name: String },
    GetBonds,
    GetBond { name: String },
    GetTunnels,
    GetEvents { limit: usize },
    SubscribeEvents,
    UnsubscribeEvents,
    GetConfig,
    /// Apply a configuration, whose rule-bearing parts are `sections`.
    ApplyConfig { sections: ConfigSections },
    /// Validate a configuration, whose rule-bearing parts are `sections`,
    /// without applying it.
    DryRunConfig { sections: ConfigSections },
    ActivateProfile { name: String },
    DeactivateProfile,
    GetActiveProfile,
    GetHealth { interface: String },
    GetAllHealth,
    RescanInterfaces,
    CreateBond,
    DeleteBond { name: String },
    EmergencyRollback,
    Shutdown,
}

/// What the daemon knows of one discovered interface when it answers.
#[derive(Debug)]
pub struct InterfaceEntry {
    pub name: String,
    /// Whether a health score is known for it.
    pub has_health: bool,
}

/// The answer to a request; indices refer to the interface list the
/// request was answered against.
#[derive(Debug)]
pub enum Reply {
    /// The system status, over this many interfaces.
    Status { total_interfaces: usize },
    /// All interfaces.
    Interfaces,
    /// One interface.
    Interface { index: usize },
    /// The bond states (none are tracked yet).
    Bonds,
    /// The tunnel states (none are tracked yet).
    Tunnels,
    /// The recent events (none are kept yet).
    Events,
    /// The current configuration.
    Config,
    /// Store the new configuration, then answer with no data.
    StoreConfig,
    /// Success with empty data.
    Empty,
    /// Success without data.
    NoData,
    /// The active profile.
    Profile(Option<String>),
    /// The health score of one interface.
    Health { index: usize },
    /// The health scores of these interfaces, in list order.
    AllHealth { indices: Vec<usize> },
    Error { message: String, recoverable: bool },
}

/// The position of the first interface named `name`.
pub open spec fn find_interface(ifs: Seq<InterfaceEntry>, name: Seq<char>) -> Option<int>
    decreases ifs.len(),
{
    if ifs.len() == 0 {
        None
    } else {
        match find_interface(ifs.drop_last(), name) {
            Some(i) => Some(i),
            None => if ifs.last().name@ == name { Some(ifs.len() - 1) } else { None },
        }
    }
}

/// The positions of the interfaces with a health score, in order.
pub open spec fn with_health(ifs: Seq<InterfaceEntry>) -> Seq<int>
    decreases ifs.len(),
{
    if ifs.len() == 0 {
        Seq::empty()
    } else if ifs.last().has_health {
        with_health(ifs.drop_last()).push(ifs.len() - 1)
    } else {
        with_health(ifs.drop_last())
    }
}

pub open spec fn not_found_message(name: Seq<char>) -> Seq<char> {
    "Interface '"@ + name + "' not found"@
}

pub open spec fn invalid_config_message(e: Seq<char>) -> Seq<char> {
    "Invalid config: "@ + e
}

pub open spec fn is_error(r: Reply, message: Seq<char>, recoverable: bool) -> bool {
    r matches Reply::Error { message: m, recoverable: rec } && m@ == message && rec == recoverable
}

/// The daemon's answer to `req` given its interface list.
pub open spec fn answers(req: Request, ifs: Seq<InterfaceEntry>, r: Reply) -> bool {
    match req {
        Request::GetStatus => r == Reply::Status { total_interfaces: ifs.len() as usize },
        Request::GetInterfaces => r is Interfaces,
        Request::GetInterface { name } => match find_interface(ifs, name@) {
            Some(i) => r == Reply::Interface { index: i as usize },
            None => is_error(r, not_found_message(name@), false),
        },
        Request::GetConfig => r is Config,
        Request::ApplyConfig { sections } => if config_issues(sections).len() == 0 {
            r is StoreConfig
        } else {
            is_error(r, invalid_config_message(issues_text(config_issues(sections))), true)
        },
        Request::DryRunConfig { sections } => if config_issues(sections).len() == 0 {
            r is Empty
        } else {
            is_error(r, invalid_config_message(issues_text(config_issues(sections))), true)
        },
        Request::RescanInterfaces => r is Empty,
        Request::GetEvents { .. } => r is Events,
        Request::GetBonds => r is Bonds,
        Request::GetBond { .. } => r is NoData,
        Request::GetTunnels => r is Tunnels,
        Request::SubscribeEvents => r is Empty,
        Request::UnsubscribeEvents => r is Empty,
        Request::ActivateProfile { name } => (r matches Reply::Profile(Some(p)) && p@ == name@),
        Request::DeactivateProfile => r == Reply::Profile(None),
        Request::GetActiveProfile => r == Reply::Profile(None),
        Request::GetHealth { interface } => match find_interface(ifs, interface@) {
            Some(i) => if ifs[i].has_health {
                r == Reply::Health { index: i as usize }
            } else {
                is_error(r, "No health data available"@, false)
            },
            None => is_error(r, not_found_message(interface@), false),
        },
        Request::GetAllHealth => (r matches Reply::AllHealth { indices } && indices@.map_values(|i: usize| i as int)
            == with_health(ifs)),
        Request::CreateBond => is_error(r, "Bond creation not yet implemented"@, true),
        Request::DeleteBond { .. } => is_error(r, "Bond deletion not yet implemented"@, true),
        Request::EmergencyRollback => r is Empty,
        Request::Shutdown => r is Empty,
    }
}

fn find_interface_exec(ifs: &Vec<InterfaceEntry>, name: &String) -> (r: Option<usize>)
    ensures
        match r {
            Some(i) => find_interface(ifs@, name@) == Some(i as int) && i < ifs@.len(),
            None => find_interface(ifs@, name@) is None,
        },
{
    let mut i: usize = 0;
    while i < ifs.len()
        invariant
            i <= ifs@.len(),
            find_interface(ifs@.take(i as int), name@) is None,
        decreases ifs.len() - i,
    {
        assert(ifs@.take(i + 1).drop_last() =~= ifs@.take(i as int));
        if str_eq(ifs[i].name.as_str(), name.as_str()) {
            proof {
                lemma_find_prefix(ifs@, name@, i + 1);
            }
            return Some(i);
        }
        i = i + 1;
    }
    assert(ifs@.take(ifs@.len() as int) =~= ifs@);
    None
}

/// A match found in a prefix is the match in the whole list.
proof fn lemma_find_prefix(ifs: Seq<InterfaceEntry>, name: Seq<char>, k: int)
    requires
        0 <= k <= ifs.len(),
        find_interface(ifs.take(k), name) is Some,
    ensures
        find_interface(ifs, name) == find_interface(ifs.take(k), name),
    decreases ifs.len() - k,
{
    if k < ifs.len() {
        assert(ifs.take(k + 1).drop_last() =~= ifs.take(k));
        lemma_find_prefix(ifs, name, k + 1);
    } else {
        assert(ifs.take(k) =~= ifs);
    }
}

fn with_health_exec(ifs: &Vec<InterfaceEntry>) -> (v: Vec<usize>)
    ensures
        v@.map_values(|i: usize| i as int) == with_health(ifs@),
{
    let mut v: Vec<usize> = Vec::new();
    let mut i: usize = 0;
    while i < ifs.len()
        invariant
            i <= ifs@.len(),
            v@.map_values(|i: usize| i as int) == with_health(ifs@.take(i as int)),
        decreases ifs.len() - i,
    {
        assert(ifs@.take(i + 1).drop_last() =~= ifs@.take(i as int));
        assert(ifs@.take(i + 1).last() == ifs@[i as int]);
        if ifs[i].has_health {
            let ghost old_v = v@.map_values(|i: usize| i as int);
            v.push(i);
            assert(v@.map_values(|i: usize| i as int) =~= old_v.push(i as int));
        }
        i = i + 1;
    }
    assert(ifs@.take(ifs@.len() as int) =~= ifs@);
    v
}

fn error(message: String, recoverable: bool) -> (r: Reply)
    ensures
        is_error(r, message@, recoverable),
{
    Reply::Error { message, recoverable }
}

fn not_found(name: &String) -> (r: Reply)
    ensures
        is_error(r, not_found_message(name@), false),
{
    let mut m = lit("Interface '");
    push_str(&mut m, name.as_str());
    push_str(&mut m, "' not found");
    error(m, false)
}

fn invalid_config(e: &String) -> (r: Reply)
    ensures
        is_error(r, invalid_config_message(e@), true),
{
    let mut m = lit("Invalid config: ");
    push_str(&mut m, e.as_str());
    error(m, true)
}

/// Answers a request against the daemon's interface list.
pub fn process_request(request: Request, interfaces: &Vec<InterfaceEntry>) -> (r: Reply)
    ensures
        answers(request, interfaces@, r),
{
    match request {
        Request::GetStatus => Reply::Status { total_interfaces: interfaces.len() },
        Request::GetInterfaces => Reply::Interfaces,
        Request::GetInterface { name } => match find_interface_exec(interfaces, &name) {
            Some(i) => Reply::Interface { index: i },
            None => not_found(&name),
        },
        Request::GetConfig => Reply::Config,
        Request::ApplyConfig { sections } => match sections.validate() {
            Ok(_) => Reply::StoreConfig,
            Err(v) => invalid_config(&describe_issues(&v)),
        },
        Request::DryRunConfig { sections } => match sections.validate() {
            Ok(_) => Reply::Empty,
            Err(v) => invalid_config(&describe_issues(&v)),
        },
        Request::RescanInterfaces => Reply::Empty,
        Request::GetEvents { .. } => Reply::Events,
        Request::GetBonds => Reply::Bonds,
        Request::GetBond { .. } => Reply::NoData,
        Request::GetTunnels => Reply::Tunnels,
        Request::SubscribeEvents => Reply::Empty,
        Request::UnsubscribeEvents => Reply::Empty,
        Request::ActivateProfile { name } => Reply::Profile(Some(name)),
        Request::DeactivateProfile => Reply::Profile(None),
        Request::GetActiveProfile => Reply::Profile(None),
        Request::GetHealth { interface } => match find_interface_exec(interfaces, &interface) {
            Some(i) => if interfaces[i].has_health {
                Reply::Health { index: i }
            } else {
                error(lit("No health data available"), false)
            },
            None => not_found(&interface),
        },
        Request::GetAllHealth => Reply::AllHealth { indices: with_health_exec(interfaces) },
        Request::CreateBond => error(lit("Bond creation not yet implemented"), true),
        Request::DeleteBond { .. } => error(lit("Bond deletion not yet implemented"), true),
        Request::EmergencyRollback => Reply::Empty,
        Request::Shutdown => Reply::Empty,
    }
}

} // verus!
