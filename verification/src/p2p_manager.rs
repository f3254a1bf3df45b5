//! The decisions the P2P manager takes when the node's configuration changes:
//! which listeners to open, what their state becomes once the transport
//! answered, whether mDNS runs and what to write back into the configuration.
use vstd::prelude::*;
use crate::text::str_eq;

verus! {

/// The state of one listener, as shown to the user.
#[derive(Debug, Clone, PartialEq, Eq)]
pub enum ListenerState {
    Listening,
    Error { error: String },
    NotListening,
}

impl Default for ListenerState {
    fn default() -> (r: Self)
        ensures
            r == ListenerState::NotListening,
    {
        ListenerState::NotListening
    }
}

/// The state of the node's three listeners.
#[derive(Debug, Clone)]
pub struct Listeners {
    pub ipv4: ListenerState,
    pub ipv6: ListenerState,
    pub relay: ListenerState,
}

impl Default for Listeners {
    fn default() -> (r: Self)
        ensures
            r.ipv4 == ListenerState::NotListening,
            r.ipv6 == ListenerState::NotListening,
            r.relay == ListenerState::NotListening,
    {
        Listeners {
            ipv4: ListenerState::NotListening,
            ipv6: ListenerState::NotListening,
            relay: ListenerState::NotListening,
        }
    }
}

/// Who may discover this node.
#[derive(Debug, Clone, Copy, PartialEq, Eq, Structural)]
pub enum P2PDiscoveryState {
    Everyone,
    ContactsOnly,
    Disabled,
}

/// The P2P part of the node's configuration.
#[derive(Debug, Clone, Copy, PartialEq, Eq, Structural)]
pub struct P2PConfig {
    pub disabled: bool,
    pub disable_ipv6: bool,
    pub disable_relay: bool,
    pub discovery: P2PDiscoveryState,
    pub port: u16,
}

/// What to do with the mDNS service.
#[derive(Debug, Clone, Copy, PartialEq, Eq, Structural)]
pub enum MdnsAction {
    /// Stop it if it runs.
    Shutdown,
    /// Start it.
    Spawn,
    /// Leave it running.
    Keep,
}

/// What a configuration change asks of the transport.
#[derive(Debug, Clone, Copy, PartialEq, Eq, Structural)]
pub struct ConfigChangePlan {
    /// Whether the node's metadata is published (else it is removed).
    pub advertise_metadata: bool,
    /// The port of the IPv4 listener, or none to close it.
    pub ipv4_port: Option<u16>,
    /// The port of the IPv6 listener, or none to close it.
    pub ipv6_port: Option<u16>,
    /// What to do with mDNS.
    pub mdns: MdnsAction,
}

/// Whether the IPv6 listener is wanted.
pub open spec fn wants_ipv6(c: P2PConfig) -> bool {
    !c.disabled && !c.disable_ipv6
}

/// Whether mDNS is wanted.
pub open spec fn wants_mdns(c: P2PConfig) -> bool {
    !c.disabled && c.discovery != P2PDiscoveryState::Disabled
}

/// The plan for configuration `c`, given whether mDNS runs now.
pub open spec fn change_plan(c: P2PConfig, mdns_running: bool) -> ConfigChangePlan {
    ConfigChangePlan {
        advertise_metadata: c.discovery != P2PDiscoveryState::ContactsOnly,
        ipv4_port: if !c.disabled { Some(c.port) } else { None },
        ipv6_port: if wants_ipv6(c) { Some(c.port) } else { None },
        mdns: if !wants_mdns(c) {
            MdnsAction::Shutdown
        } else if mdns_running {
            MdnsAction::Keep
        } else {
            MdnsAction::Spawn
        },
    }
}

/// Plans what configuration `config` asks of the transport, given whether
/// mDNS runs now.
pub fn plan_config_change(config: &P2PConfig, mdns_running: bool) -> (r: ConfigChangePlan)
    ensures
        r == change_plan(*config, mdns_running),
{
    let enable_ipv6 = !config.disabled && !config.disable_ipv6;
    let mdns = if config.disabled || config.discovery == P2PDiscoveryState::Disabled {
        MdnsAction::Shutdown
    } else if mdns_running {
        MdnsAction::Keep
    } else {
        MdnsAction::Spawn
    };
    ConfigChangePlan {
        advertise_metadata: config.discovery != P2PDiscoveryState::ContactsOnly,
        ipv4_port: if !config.disabled { Some(config.port) } else { None },
        ipv6_port: if enable_ipv6 { Some(config.port) } else { None },
        mdns,
    }
}

/// The state of a listener once the transport answered: the error it gave,
/// else listening exactly when the listener was wanted.
pub fn listener_state(wanted: bool, outcome: Result<(), String>) -> (r: ListenerState)
    ensures
        match outcome {
            Err(e) => r == ListenerState::Error { error: e },
            Ok(()) => r == (if wanted {
                ListenerState::Listening
            } else {
                ListenerState::NotListening
            }),
        },
{
    match outcome {
        Err(e) => ListenerState::Error { error: e },
        Ok(()) => if wanted {
            ListenerState::Listening
        } else {
            ListenerState::NotListening
        },
    }
}

/// The configuration after the transport answered a change: a failed IPv4
/// listener clears `disabled`, a failed IPv6 listener clears `disable_ipv6`,
/// and mDNS that failed to start turns discovery off.
pub open spec fn reverted_config(
    c: P2PConfig,
    ipv4_failed: bool,
    ipv6_failed: bool,
    mdns_failed: bool,
) -> P2PConfig {
    P2PConfig {
        disabled: if ipv4_failed { false } else { c.disabled },
        disable_ipv6: if ipv6_failed { false } else { c.disable_ipv6 },
        discovery: if mdns_failed { P2PDiscoveryState::Disabled } else { c.discovery },
        ..c
    }
}

/// Applies to the configuration what the transport's answers ask to revert.
pub fn revert_config(config: &mut P2PConfig, ipv4_failed: bool, ipv6_failed: bool, mdns_failed: bool)
    ensures
        *final(config) == reverted_config(*old(config), ipv4_failed, ipv6_failed, mdns_failed),
{
    if ipv4_failed {
        config.disabled = false;
    }
    if ipv6_failed {
        config.disable_ipv6 = false;
    }
    if mdns_failed {
        config.discovery = P2PDiscoveryState::Disabled;
    }
}

/// The relay servers to use: none when P2P or the relay is disabled.
pub fn relay_servers<T>(config: &P2PConfig, servers: Vec<T>) -> (r: Vec<T>)
    ensures
        r@ == (if !config.disabled && !config.disable_relay {
            servers@
        } else {
            Seq::<T>::empty()
        }),
{
    if !config.disabled && !config.disable_relay {
        servers
    } else {
        Vec::new()
    }
}

/// The state of the relay listener once the relay configuration was set:
/// the error it gave, else listening exactly when some relay is in use.
pub fn relay_listener_state(relays: usize, outcome: Result<(), String>) -> (r: ListenerState)
    ensures
        match outcome {
            Err(e) => r == ListenerState::Error { error: e },
            Ok(()) => r == (if relays == 0 {
                ListenerState::NotListening
            } else {
                ListenerState::Listening
            }),
        },
{
    listener_state(relays != 0, outcome)
}

/// A known peer: its identity and the keys of its metadata.
#[derive(Debug, Clone)]
pub struct PeerEntry {
    pub identity: u128,
    pub metadata_keys: Vec<String>,
}

/// Whether a peer's metadata holds the key `key`.
pub open spec fn has_key(p: PeerEntry, key: Seq<char>) -> bool {
    exists|i: int| 0 <= i < p.metadata_keys@.len() && (#[trigger] p.metadata_keys@[i])@ == key
}

fn peer_has_key(p: &PeerEntry, key: &str) -> (r: bool)
    ensures
        r == has_key(*p, key@),
{
    let mut i: usize = 0;
    while i < p.metadata_keys.len()
        invariant
            i <= p.metadata_keys@.len(),
            forall|j: int| 0 <= j < i ==> (#[trigger] p.metadata_keys@[j])@ != key@,
        decreases p.metadata_keys.len() - i,
    {
        if str_eq(p.metadata_keys[i].as_str(), key) {
            return true;
        }
        i = i + 1;
    }
    false
}

/// The identities of the peers that hold an instance of the library whose
/// metadata key is `library_key`, in order.
pub open spec fn peers_with_key(peers: Seq<PeerEntry>, key: Seq<char>) -> Seq<u128>
    decreases peers.len(),
{
    if peers.len() == 0 {
        Seq::empty()
    } else {
        let rest = peers_with_key(peers.drop_last(), key);
        if has_key(peers.last(), key) {
            rest.push(peers.last().identity)
        } else {
            rest
        }
    }
}

/// The peers that hold an instance of the library keyed `library_key`.
pub fn get_library_instances(peers: &Vec<PeerEntry>, library_key: &str) -> (r: Vec<u128>)
    ensures
        r@ == peers_with_key(peers@, library_key@),
{
    let mut r: Vec<u128> = Vec::new();
    let mut i: usize = 0;
    while i < peers.len()
        invariant
            i <= peers@.len(),
            r@ == peers_with_key(peers@.subrange(0, i as int), library_key@),
        decreases peers.len() - i,
    {
        proof {
            assert(peers@.subrange(0, i + 1).drop_last() =~= peers@.subrange(0, i as int));
        }
        if peer_has_key(&peers[i], library_key) {
            r.push(peers[i].identity);
        }
        i = i + 1;
    }
    proof {
        assert(peers@.subrange(0, peers@.len() as int) =~= peers@);
    }
    r
}

/// The position of the peer `identity` among `peers` if it holds an instance
/// of the library keyed `library_key`.
pub fn get_instance(peers: &Vec<PeerEntry>, library_key: &str, identity: u128) -> (r: Option<
    usize,
>)
    ensures
        match r {
            Some(i) => i < peers@.len() && peers@[i as int].identity == identity && has_key(
                peers@[i as int],
                library_key@,
            ) && forall|j: int|
                0 <= j < i ==> !(#[trigger] peers@[j].identity == identity && has_key(
                    peers@[j],
                    library_key@,
                )),
            None => forall|j: int|
                0 <= j < peers@.len() ==> !(#[trigger] peers@[j].identity == identity && has_key(
                    peers@[j],
                    library_key@,
                )),
        },
{
    let mut i: usize = 0;
    while i < peers.len()
        invariant
            i <= peers@.len(),
            forall|j: int|
                0 <= j < i ==> !(#[trigger] peers@[j].identity == identity && has_key(
                    peers@[j],
                    library_key@,
                )),
        decreases peers.len() - i,
    {
        if peers[i].identity == identity && peer_has_key(&peers[i], library_key) {
            return Some(i);
        }
        i = i + 1;
    }
    None
}

/// The value of a result that cannot fail (its error type has no value).
pub fn unwrap_infallible<T>(result: Result<T, std::convert::Infallible>) -> (r: T)
    ensures
        result matches Ok(v) ==> r == v,
{
    match result {
        Ok(value) => value,
    }
}

} // verus!
