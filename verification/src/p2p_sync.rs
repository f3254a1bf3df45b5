//! Peer tracking for networked libraries, and the framing of the sync
//! protocol's messages.
//!
//! Every instance of every loaded library is one entry, in the order the
//! libraries were loaded and, inside a library, in the order its instances
//! were listed. Peers and identities are numbers the caller assigns.
use vstd::prelude::*;
use vstd::bytes::*;
use vstd::slice::slice_subrange;

verus! {

/// The state of one of our own instances of a library, as seen from the network.
#[derive(Debug, Clone, Copy, PartialEq, Eq, Structural)]
pub enum InstanceState {
    Unavailable,
    Discovered(u128),
    Connected(u128),
}

/// One instance of a loaded library.
#[derive(Debug, Clone, Copy, PartialEq, Eq, Structural)]
pub struct InstanceEntry {
    pub library_id: u128,
    pub identity: u128,
    pub state: InstanceState,
}

/// An instance of a library as stored in its database: its identity and
/// whether this node holds its private key (only those are advertised).
#[derive(Debug, Clone, Copy, PartialEq, Eq, Structural)]
pub struct LibraryInstance {
    pub identity: u128,
    pub is_own: bool,
}

/// The instances of the loaded libraries and their network state.
#[derive(Debug)]
pub struct NetworkedLibraries {
    pub entries: Vec<InstanceEntry>,
}

/// Which entries a scan looks for.
pub enum EntryPred {
    /// Entries whose identity is one of these.
    Advertised(Seq<u128>),
    /// Entries discovered through this peer.
    DiscoveredBy(u128),
    /// Entries connected to this peer.
    ConnectedTo(u128),
    /// Entries with this identity.
    HasIdentity(u128),
}

/// Whether an entry is one a scan looks for.
pub open spec fn entry_matches(e: InstanceEntry, p: EntryPred) -> bool {
    match p {
        EntryPred::Advertised(ids) => ids.contains(e.identity),
        EntryPred::DiscoveredBy(peer) => e.state == InstanceState::Discovered(peer),
        EntryPred::ConnectedTo(peer) => e.state == InstanceState::Connected(peer),
        EntryPred::HasIdentity(id) => e.identity == id,
    }
}

/// The position of the first entry of `s` that matches `p`, or -1.
pub open spec fn first_where(s: Seq<InstanceEntry>, p: EntryPred) -> int
    decreases s.len(),
{
    if s.len() == 0 {
        -1
    } else if entry_matches(s[0], p) {
        0
    } else {
        let r = first_where(s.drop_first(), p);
        if r < 0 {
            -1
        } else {
            r + 1
        }
    }
}

/// Characterizes [`first_where`] by the position a scan stops at.
pub proof fn lemma_first_where(s: Seq<InstanceEntry>, p: EntryPred, i: int)
    requires
        0 <= i <= s.len(),
        forall|j: int| 0 <= j < i ==> !entry_matches(#[trigger] s[j], p),
        i < s.len() ==> entry_matches(s[i], p),
    ensures
        first_where(s, p) == (if i == s.len() {
            -1
        } else {
            i
        }),
    decreases s.len(),
{
    if s.len() > 0 && i > 0 {
        let t = s.drop_first();
        assert forall|j: int| 0 <= j < i - 1 implies !entry_matches(#[trigger] t[j], p) by {
            assert(t[j] == s[j + 1]);
        }
        if i - 1 < t.len() {
            assert(t[i - 1] == s[i]);
        }
        lemma_first_where(t, p, i - 1);
        assert(!entry_matches(s[0], p));
    }
}

/// The entries with the one at position `i` (if any, `i >= 0`) set to `state`.
pub open spec fn set_state_at(s: Seq<InstanceEntry>, i: int, state: InstanceState) -> Seq<InstanceEntry> {
    if 0 <= i < s.len() {
        s.update(i, InstanceEntry { state, ..s[i] })
    } else {
        s
    }
}

/// The identities of some entries, in order.
pub open spec fn entry_identities(s: Seq<InstanceEntry>) -> Seq<u128> {
    s.map_values(|e: InstanceEntry| e.identity)
}

/// Whether no two entries are the same instance of the same library (the
/// entries stand for a map from library and identity to state).
pub open spec fn keys_unique(s: Seq<InstanceEntry>) -> bool {
    forall|i: int, j: int|
        0 <= i < j < s.len() ==> ((#[trigger] s[i]).library_id, s[i].identity) != ((#[trigger] s[j]).library_id, s[j].identity)
}

/// The entries of a library being loaded: its own instances, unavailable,
/// each identity once.
pub open spec fn loaded_entries(library_id: u128, instances: Seq<LibraryInstance>) -> Seq<InstanceEntry>
    decreases instances.len(),
{
    if instances.len() == 0 {
        Seq::empty()
    } else {
        let rest = loaded_entries(library_id, instances.drop_last());
        let i = instances.last();
        if i.is_own && !entry_identities(rest).contains(i.identity) {
            rest.push(InstanceEntry { library_id, identity: i.identity, state: InstanceState::Unavailable })
        } else {
            rest
        }
    }
}

/// The entries that do not belong to `library_id`, in order.
pub open spec fn without_library(s: Seq<InstanceEntry>, library_id: u128) -> Seq<InstanceEntry> {
    s.filter(|e: InstanceEntry| e.library_id != library_id)
}

/// The peers our instances of a library are connected to, in order.
pub open spec fn connected_peers(s: Seq<InstanceEntry>, library_id: u128) -> Seq<u128>
    decreases s.len(),
{
    if s.len() == 0 {
        Seq::empty()
    } else {
        let rest = connected_peers(s.drop_last(), library_id);
        let e = s.last();
        match e.state {
            InstanceState::Connected(p) => if e.library_id == library_id {
                rest.push(p)
            } else {
                rest
            },
            _ => rest,
        }
    }
}

/// The state of an entry after peer `peer` expired.
pub open spec fn expired_state(st: InstanceState, peer: u128) -> InstanceState {
    if st == InstanceState::Discovered(peer) {
        InstanceState::Unavailable
    } else {
        st
    }
}

impl NetworkedLibraries {
    /// No library loaded.
    pub fn new() -> (r: Self)
        ensures
            r.entries@.len() == 0,
            keys_unique(r.entries@),
    {
        NetworkedLibraries { entries: Vec::new() }
    }

    fn remove_library(&mut self, library_id: u128)
        ensures
            final(self).entries@ == without_library(old(self).entries@, library_id),
    {
        let mut kept: Vec<InstanceEntry> = Vec::new();
        let mut i: usize = 0;
        while i < self.entries.len()
            invariant
                i <= self.entries.len(),
                kept@ == without_library(self.entries@.subrange(0, i as int), library_id),
            decreases self.entries.len() - i,
        {
            let e = self.entries[i];
            proof {
                let s = self.entries@.subrange(0, i + 1);
                assert(s.drop_last() =~= self.entries@.subrange(0, i as int));
                assert(s.last() == e);
                reveal(Seq::filter);
                assert(s.filter(|e: InstanceEntry| e.library_id != library_id) == (if e.library_id
                    != library_id {
                    s.drop_last().filter(|e: InstanceEntry| e.library_id != library_id).push(e)
                } else {
                    s.drop_last().filter(|e: InstanceEntry| e.library_id != library_id)
                }));
            }
            if e.library_id != library_id {
                kept.push(e);
                proof {
                    assert(kept@ =~= without_library(self.entries@.subrange(0, i + 1), library_id));
                }
            } else {
                proof {
                    assert(kept@ =~= without_library(self.entries@.subrange(0, i + 1), library_id));
                }
            }
            i = i + 1;
        }
        proof {
            assert(self.entries@.subrange(0, self.entries.len() as int) =~= self.entries@);
        }
        self.entries = kept;
    }

    /// Loads (or reloads) a library: its previous entries go away and its own
    /// instances are added, unavailable. The result lists the identities of
    /// all its instances, to advertise.
    pub fn load_library(&mut self, library_id: u128, instances: Vec<LibraryInstance>) -> (r: Vec<
        u128,
    >)
        ensures
            final(self).entries@ == without_library(old(self).entries@, library_id) + loaded_entries(
                library_id,
                instances@,
            ),
            r@ == instances@.map_values(|i: LibraryInstance| i.identity),
            keys_unique(old(self).entries@) ==> keys_unique(final(self).entries@),
    {
        self.remove_library(library_id);
        let ghost base = self.entries@;
        let mut ids: Vec<u128> = Vec::new();
        let mut loaded: Vec<u128> = Vec::new();
        let mut i: usize = 0;
        while i < instances.len()
            invariant
                i <= instances.len(),
                self.entries@ == base + loaded_entries(library_id, instances@.subrange(0, i as int)),
                loaded@ == entry_identities(loaded_entries(library_id, instances@.subrange(0, i as int))),
                ids@ == instances@.subrange(0, i as int).map_values(|i: LibraryInstance| i.identity),
            decreases instances.len() - i,
        {
            let inst = instances[i];
            proof {
                let s = instances@.subrange(0, i + 1);
                assert(s.drop_last() =~= instances@.subrange(0, i as int));
            }
            if inst.is_own && !contains_u128(&loaded, inst.identity) {
                let e = InstanceEntry {
                    library_id,
                    identity: inst.identity,
                    state: InstanceState::Unavailable,
                };
                self.entries.push(e);
                loaded.push(inst.identity);
            }
            ids.push(inst.identity);
            proof {
                assert(self.entries@ =~= base + loaded_entries(library_id, instances@.subrange(0, i + 1)));
                assert(loaded@ =~= entry_identities(loaded_entries(library_id, instances@.subrange(0, i + 1))));
                assert(ids@ =~= instances@.subrange(0, i + 1).map_values(
                    |i: LibraryInstance| i.identity,
                ));
            }
            i = i + 1;
        }
        proof {
            assert(instances@.subrange(0, instances.len() as int) =~= instances@);
            if keys_unique(old(self).entries@) {
                lemma_without_library_props(old(self).entries@, library_id);
                lemma_loaded_props(library_id, instances@);
                let a = without_library(old(self).entries@, library_id);
                let b = loaded_entries(library_id, instances@);
                let n = a + b;
                assert forall|x: int, y: int| 0 <= x < y < n.len() implies ((#[trigger] n[x]).library_id, n[x].identity) != ((#[trigger] n[y]).library_id, n[y].identity) by {
                    if y < a.len() {
                        assert(n[x] == a[x] && n[y] == a[y]);
                    } else if x >= a.len() {
                        assert(n[x] == b[x - a.len()] && n[y] == b[y - a.len()]);
                    } else {
                        assert(n[x] == a[x] && n[y] == b[y - a.len()]);
                    }
                }
            }
        }
        ids
    }

    /// Forgets a deleted library.
    pub fn delete_library(&mut self, library_id: u128)
        ensures
            final(self).entries@ == without_library(old(self).entries@, library_id),
            keys_unique(old(self).entries@) ==> keys_unique(final(self).entries@),
    {
        self.remove_library(library_id);
        proof {
            lemma_without_library_props(old(self).entries@, library_id);
        }
    }

    /// A peer advertising the identities `advertised` was discovered: the
    /// first of our instances with one of those identities becomes discovered
    /// through that peer, unless it is connected already. The result says
    /// whether to dial the peer (the instance was unavailable).
    pub fn peer_discovered(&mut self, peer: u128, advertised: Vec<u128>) -> (dial: bool)
        ensures
            ({
                let s = old(self).entries@;
                let i = first_where(s, EntryPred::Advertised(advertised@));
                &&& (i < 0 || s[i].state is Connected) ==> final(self).entries@ == s && !dial
                &&& (i >= 0 && !(s[i].state is Connected)) ==> final(self).entries@ == set_state_at(
                    s,
                    i,
                    InstanceState::Discovered(peer),
                ) && dial == (s[i].state is Unavailable)
            }),
            keys_unique(old(self).entries@) ==> keys_unique(final(self).entries@),
    {
        let ghost p = EntryPred::Advertised(advertised@);
        let mut i: usize = 0;
        while i < self.entries.len()
            invariant
                i <= self.entries.len(),
                forall|j: int| 0 <= j < i ==> !entry_matches(#[trigger] self.entries@[j], p),
                self.entries == old(self).entries,
                p == EntryPred::Advertised(advertised@),
            decreases self.entries.len() - i,
        {
            let e = self.entries[i];
            if contains_u128(&advertised, e.identity) {
                proof {
                    assert(entry_matches(self.entries@[i as int], p));
                    lemma_first_where(self.entries@, p, i as int);
                    lemma_set_state_keeps_unique(old(self).entries@, first_where(old(self).entries@, p), InstanceState::Discovered(peer));
                }
                match e.state {
                    InstanceState::Connected(_) => {
                        return false;
                    },
                    InstanceState::Unavailable => {
                        self.entries.set(
                            i,
                            InstanceEntry { state: InstanceState::Discovered(peer), ..e },
                        );
                        return true;
                    },
                    InstanceState::Discovered(_) => {
                        self.entries.set(
                            i,
                            InstanceEntry { state: InstanceState::Discovered(peer), ..e },
                        );
                        return false;
                    },
                }
            }
            i = i + 1;
        }
        proof {
            lemma_first_where(self.entries@, p, i as int);
                    lemma_set_state_keeps_unique(old(self).entries@, first_where(old(self).entries@, p), InstanceState::Discovered(peer));
        }
        false
    }

    /// Peer `peer` expired: every instance discovered through it becomes unavailable.
    pub fn peer_expired(&mut self, peer: u128)
        ensures
            final(self).entries@.len() == old(self).entries@.len(),
            forall|i: int|
                0 <= i < old(self).entries@.len() ==> #[trigger] final(self).entries@[i] == (
                InstanceEntry {
                    state: expired_state(old(self).entries@[i].state, peer),
                    ..old(self).entries@[i]
                }),
            keys_unique(old(self).entries@) ==> keys_unique(final(self).entries@),
    {
        let mut i: usize = 0;
        while i < self.entries.len()
            invariant
                i <= self.entries.len(),
                self.entries@.len() == old(self).entries@.len(),
                forall|j: int|
                    0 <= j < i ==> #[trigger] self.entries@[j] == (InstanceEntry {
                        state: expired_state(old(self).entries@[j].state, peer),
                        ..old(self).entries@[j]
                    }),
                forall|j: int| i <= j < self.entries@.len() ==> #[trigger] self.entries@[j] == old(
                    self,
                ).entries@[j],
            decreases self.entries.len() - i,
        {
            let e = self.entries[i];
            if e.state == InstanceState::Discovered(peer) {
                self.entries.set(i, InstanceEntry { state: InstanceState::Unavailable, ..e });
            }
            i = i + 1;
        }
        proof {
            if keys_unique(old(self).entries@) {
                lemma_same_keys(old(self).entries@, self.entries@);
            }
        }
    }

    /// A connection with `peer` opened: the first instance discovered through
    /// it becomes connected to it.
    pub fn peer_connected(&mut self, peer: u128)
        ensures
            final(self).entries@ == set_state_at(
                old(self).entries@,
                first_where(old(self).entries@, EntryPred::DiscoveredBy(peer)),
                InstanceState::Connected(peer),
            ),
            keys_unique(old(self).entries@) ==> keys_unique(final(self).entries@),
    {
        let ghost p = EntryPred::DiscoveredBy(peer);
        let mut i: usize = 0;
        while i < self.entries.len()
            invariant
                i <= self.entries.len(),
                forall|j: int| 0 <= j < i ==> !entry_matches(#[trigger] self.entries@[j], p),
                self.entries == old(self).entries,
                p == EntryPred::DiscoveredBy(peer),
            decreases self.entries.len() - i,
        {
            let e = self.entries[i];
            if e.state == InstanceState::Discovered(peer) {
                proof {
                    assert(entry_matches(self.entries@[i as int], p));
                    lemma_first_where(self.entries@, p, i as int);
                    lemma_set_state_keeps_unique(old(self).entries@, first_where(old(self).entries@, p), InstanceState::Connected(peer));
                }
                self.entries.set(i, InstanceEntry { state: InstanceState::Connected(peer), ..e });
                return ;
            }
            i = i + 1;
        }
        proof {
            lemma_first_where(self.entries@, p, i as int);
                    lemma_set_state_keeps_unique(old(self).entries@, first_where(old(self).entries@, p), InstanceState::Connected(peer));
        }
    }

    /// A connection with `peer` opened for the instance `identity`: the first
    /// instance with that identity becomes connected to it.
    pub fn peer_connected2(&mut self, identity: u128, peer: u128)
        ensures
            final(self).entries@ == set_state_at(
                old(self).entries@,
                first_where(old(self).entries@, EntryPred::HasIdentity(identity)),
                InstanceState::Connected(peer),
            ),
            keys_unique(old(self).entries@) ==> keys_unique(final(self).entries@),
    {
        let ghost p = EntryPred::HasIdentity(identity);
        let mut i: usize = 0;
        while i < self.entries.len()
            invariant
                i <= self.entries.len(),
                forall|j: int| 0 <= j < i ==> !entry_matches(#[trigger] self.entries@[j], p),
                self.entries == old(self).entries,
                p == EntryPred::HasIdentity(identity),
            decreases self.entries.len() - i,
        {
            let e = self.entries[i];
            if e.identity == identity {
                proof {
                    assert(entry_matches(self.entries@[i as int], p));
                    lemma_first_where(self.entries@, p, i as int);
                    lemma_set_state_keeps_unique(old(self).entries@, first_where(old(self).entries@, p), InstanceState::Connected(peer));
                }
                self.entries.set(i, InstanceEntry { state: InstanceState::Connected(peer), ..e });
                return ;
            }
            i = i + 1;
        }
        proof {
            lemma_first_where(self.entries@, p, i as int);
                    lemma_set_state_keeps_unique(old(self).entries@, first_where(old(self).entries@, p), InstanceState::Connected(peer));
        }
    }

    /// The connection with `peer` closed: the first instance connected to it
    /// becomes unavailable.
    pub fn peer_disconnected(&mut self, peer: u128)
        ensures
            final(self).entries@ == set_state_at(
                old(self).entries@,
                first_where(old(self).entries@, EntryPred::ConnectedTo(peer)),
                InstanceState::Unavailable,
            ),
            keys_unique(old(self).entries@) ==> keys_unique(final(self).entries@),
    {
        let ghost p = EntryPred::ConnectedTo(peer);
        let mut i: usize = 0;
        while i < self.entries.len()
            invariant
                i <= self.entries.len(),
                forall|j: int| 0 <= j < i ==> !entry_matches(#[trigger] self.entries@[j], p),
                self.entries == old(self).entries,
                p == EntryPred::ConnectedTo(peer),
            decreases self.entries.len() - i,
        {
            let e = self.entries[i];
            if e.state == InstanceState::Connected(peer) {
                proof {
                    assert(entry_matches(self.entries@[i as int], p));
                    lemma_first_where(self.entries@, p, i as int);
                    lemma_set_state_keeps_unique(old(self).entries@, first_where(old(self).entries@, p), InstanceState::Unavailable);
                }
                self.entries.set(i, InstanceEntry { state: InstanceState::Unavailable, ..e });
                return ;
            }
            i = i + 1;
        }
        proof {
            lemma_first_where(self.entries@, p, i as int);
                    lemma_set_state_keeps_unique(old(self).entries@, first_where(old(self).entries@, p), InstanceState::Unavailable);
        }
    }

    /// The peers to alert of new sync operations of a library: those its
    /// instances are connected to, in order.
    pub fn sync_originator_peers(&self, library_id: u128) -> (r: Vec<u128>)
        ensures
            r@ == connected_peers(self.entries@, library_id),
    {
        let mut r: Vec<u128> = Vec::new();
        let mut i: usize = 0;
        while i < self.entries.len()
            invariant
                i <= self.entries.len(),
                r@ == connected_peers(self.entries@.subrange(0, i as int), library_id),
            decreases self.entries.len() - i,
        {
            let e = self.entries[i];
            proof {
                let s = self.entries@.subrange(0, i + 1);
                assert(s.drop_last() =~= self.entries@.subrange(0, i as int));
            }
            match e.state {
                InstanceState::Connected(p) => {
                    if e.library_id == library_id {
                        r.push(p);
                    }
                },
                _ => {},
            }
            i = i + 1;
        }
        proof {
            assert(self.entries@.subrange(0, self.entries.len() as int) =~= self.entries@);
        }
        r
    }
}

fn contains_u128(v: &Vec<u128>, x: u128) -> (r: bool)
    ensures
        r == v@.contains(x),
{
    let mut i: usize = 0;
    while i < v.len()
        invariant
            i <= v.len(),
            forall|j: int| 0 <= j < i ==> v@[j] != x,
        decreases v.len() - i,
    {
        if v[i] == x {
            return true;
        }
        i = i + 1;
    }
    false
}

/// The number of operations asked for in one request.
pub const OPS_PER_REQUEST: u32 = 100;

/// Whether the originator has more operations after a reply of `count` operations.
pub fn has_more(count: usize) -> (r: bool)
    ensures
        r == (count == OPS_PER_REQUEST),
{
    count == 100
}


/// The header byte of a message that carries operations (`O`).
pub const OPERATIONS_HEADER: u8 = 79;

/// The header byte of a message that asks for operations (`G`).
pub const GET_OPERATION_HEADER: u8 = 71;

/// A message on the wire: its header byte, the payload's length as four
/// little-endian bytes, then the payload.
pub open spec fn framed(header: u8, payload: Seq<u8>) -> Seq<u8> {
    seq![header] + spec_u32_to_le_bytes(payload.len() as u32) + payload
}

/// Why a message could not be read.
#[derive(Debug, Clone, Copy, PartialEq, Eq, Structural)]
pub enum FrameError {
    /// The stream ended before the header byte.
    Empty,
    /// The message starts with another header byte than the one expected.
    InvalidHeader(u8),
}

/// The payload length announced by a message that starts with a header byte.
pub open spec fn announced_len(bytes: Seq<u8>) -> int {
    spec_u32_from_le_bytes(bytes.subrange(1, 5)) as int
}

/// Whether `bytes` hold a whole message, as far as reading it goes: the
/// stream is empty, starts with another header, or holds the length and
/// the whole payload.
pub open spec fn frame_complete(expected: u8, bytes: Seq<u8>) -> bool {
    bytes.len() == 0 || bytes[0] != expected || (bytes.len() >= 5 && 5 + announced_len(bytes)
        <= bytes.len())
}

/// What reading a message expecting header `expected` from `bytes` gives:
/// its payload and the number of bytes it took.
pub open spec fn frame_reading(expected: u8, bytes: Seq<u8>) -> Result<(Seq<u8>, int), FrameError> {
    if bytes.len() == 0 {
        Err(FrameError::Empty)
    } else if bytes[0] != expected {
        Err(FrameError::InvalidHeader(bytes[0]))
    } else {
        Ok((bytes.subrange(5, 5 + announced_len(bytes)), 5 + announced_len(bytes)))
    }
}

/// Frames `payload` behind the header byte `header`.
pub fn frame_message(header: u8, payload: &Vec<u8>) -> (r: Vec<u8>)
    requires
        payload.len() <= u32::MAX,
    ensures
        r@ == framed(header, payload@),
{
    let mut r: Vec<u8> = Vec::new();
    r.push(header);
    let mut len_bytes = u32_to_le_bytes(payload.len() as u32);
    r.append(&mut len_bytes);
    let ghost prefix = r@;
    let mut i: usize = 0;
    while i < payload.len()
        invariant
            i <= payload.len(),
            r@ == prefix + payload@.subrange(0, i as int),
        decreases payload.len() - i,
    {
        r.push(payload[i]);
        proof {
            assert(payload@.subrange(0, i + 1) =~= payload@.subrange(0, i as int).push(payload@[i as int]));
        }
        i = i + 1;
    }
    proof {
        assert(payload@.subrange(0, payload.len() as int) =~= payload@);
        assert(prefix =~= seq![header] + spec_u32_to_le_bytes(payload@.len() as u32));
    }
    r
}

/// Reads one message that must start with `expected`: its payload and the
/// number of bytes it took.
pub fn read_frame(expected: u8, bytes: &Vec<u8>) -> (r: Result<(Vec<u8>, usize), FrameError>)
    requires
        frame_complete(expected, bytes@),
    ensures
        match r {
            Ok((payload, used)) => frame_reading(expected, bytes@) == Ok::<(Seq<u8>, int), FrameError>((payload@, used as int)),
            Err(e) => frame_reading(expected, bytes@) == Err::<(Seq<u8>, int), FrameError>(e),
        },
{
    if bytes.len() == 0 {
        return Err(FrameError::Empty);
    }
    if bytes[0] != expected {
        return Err(FrameError::InvalidHeader(bytes[0]));
    }
    let len_bytes = slice_subrange(bytes.as_slice(), 1, 5);
    let len = u32_from_le_bytes(len_bytes);
    let len = len as usize;
    let mut payload: Vec<u8> = Vec::new();
    let mut i: usize = 0;
    while i < len
        invariant
            i <= len,
            5 + len <= bytes.len(),
            payload@ == bytes@.subrange(5, 5 + i),
        decreases len - i,
    {
        payload.push(bytes[5 + i]);
        proof {
            assert(bytes@.subrange(5, 5 + i + 1) =~= bytes@.subrange(5, 5 + i).push(bytes@[5 + i]));
        }
        i = i + 1;
    }
    Ok((payload, 5 + len))
}

/// Reading back a framed message gives its payload, whatever follows it.
pub proof fn lemma_read_framed(header: u8, payload: Seq<u8>, rest: Seq<u8>)
    requires
        payload.len() <= u32::MAX,
    ensures
        frame_complete(header, framed(header, payload) + rest),
        frame_reading(header, framed(header, payload) + rest) == Ok::<(Seq<u8>, int), FrameError>((payload, 5 + payload.len() as int)),
{
    lemma_auto_spec_u32_to_from_le_bytes();
    let b = framed(header, payload) + rest;
    let len_bytes = spec_u32_to_le_bytes(payload.len() as u32);
    assert(b.subrange(1, 5) =~= len_bytes);
    assert(b.subrange(5, 5 + payload.len() as int) =~= payload);
}

/// What a responder asks an originator for: the operations after the
/// given clock of each instance, at most `count` of them.
#[derive(Debug, Clone)]
pub struct GetOpsArgs {
    pub clocks: Vec<(u128, u64)>,
    pub count: u32,
}

/// A message of the sync responder.
#[derive(Debug, Clone)]
pub enum SyncResponderMessage {
    GetOperation(GetOpsArgs),
}

/// The request a responder sends for the operations after `timestamps`:
/// at most [`OPS_PER_REQUEST`] of them.
pub fn get_operation(timestamps: Vec<(u128, u64)>) -> (r: SyncResponderMessage)
    ensures
        r matches SyncResponderMessage::GetOperation(args) && args.clocks@ == timestamps@ && args.count
            == OPS_PER_REQUEST,
{
    SyncResponderMessage::GetOperation(GetOpsArgs { clocks: timestamps, count: OPS_PER_REQUEST })
}


proof fn lemma_loaded_props(library_id: u128, instances: Seq<LibraryInstance>)
    ensures
        forall|k: int|
            0 <= k < loaded_entries(library_id, instances).len() ==> (#[trigger] loaded_entries(
                library_id,
                instances,
            )[k]).library_id == library_id,
        keys_unique(loaded_entries(library_id, instances)),
    decreases instances.len(),
{
    if instances.len() > 0 {
        lemma_loaded_props(library_id, instances.drop_last());
        let rest = loaded_entries(library_id, instances.drop_last());
        let i = instances.last();
        if i.is_own && !entry_identities(rest).contains(i.identity) {
            let n = loaded_entries(library_id, instances);
            assert forall|x: int, y: int| 0 <= x < y < n.len() implies ((#[trigger] n[x]).library_id, n[x].identity) != ((#[trigger] n[y]).library_id, n[y].identity) by {
                if y == rest.len() {
                    assert(entry_identities(rest)[x] == rest[x].identity);
                    assert(n[x] == rest[x]);
                } else {
                    assert(n[x] == rest[x] && n[y] == rest[y]);
                }
            }
        }
    }
}

/// The entries kept when a library goes away are entries of the other
/// libraries, drawn from the old ones.
proof fn lemma_without_library_props(s: Seq<InstanceEntry>, library_id: u128)
    ensures
        forall|k: int|
            0 <= k < without_library(s, library_id).len() ==> (#[trigger] without_library(
                s,
                library_id,
            )[k]).library_id != library_id && s.contains(without_library(s, library_id)[k]),
        keys_unique(s) ==> keys_unique(without_library(s, library_id)),
    decreases s.len(),
{
    reveal(Seq::filter);
    if s.len() > 0 {
        let t = s.drop_last();
        lemma_without_library_props(t, library_id);
        let r0 = without_library(t, library_id);
        let r = without_library(s, library_id);
        assert(r == (if s.last().library_id != library_id {
            r0.push(s.last())
        } else {
            r0
        }));
        assert forall|k: int| 0 <= k < r.len() implies (#[trigger] r[k]).library_id != library_id
            && s.contains(r[k]) by {
            if k < r0.len() {
                assert(r[k] == r0[k]);
                let j = choose|j: int| 0 <= j < t.len() && t[j] == r0[k];
                assert(s[j] == r0[k]);
            } else {
                assert(r[k] == s[s.len() - 1]);
            }
        }
        if keys_unique(s) {
            assert forall|a: int, b: int| 0 <= a < b < t.len() implies ((#[trigger] t[a]).library_id, t[a].identity) != ((#[trigger] t[b]).library_id, t[b].identity) by {
                assert(t[a] == s[a] && t[b] == s[b]);
            }
            assert forall|a: int, b: int| 0 <= a < b < r.len() implies ((#[trigger] r[a]).library_id, r[a].identity) != ((#[trigger] r[b]).library_id, r[b].identity) by {
                if b < r0.len() {
                    assert(r[a] == r0[a] && r[b] == r0[b]);
                } else {
                    assert(r[a] == r0[a]);
                    let j = choose|j: int| 0 <= j < t.len() && t[j] == r0[a];
                    assert(s[j] == r[a]);
                    assert(r[b] == s[s.len() - 1]);
                }
            }
        }
    }
}

/// Entries whose library and identity match another's position by
/// position keep its uniqueness.
proof fn lemma_same_keys(a: Seq<InstanceEntry>, b: Seq<InstanceEntry>)
    requires
        keys_unique(a),
        a.len() == b.len(),
        forall|k: int| 0 <= k < a.len() ==> (#[trigger] b[k]).library_id == a[k].library_id && b[k].identity == a[k].identity,
    ensures
        keys_unique(b),
{
    assert forall|x: int, y: int| 0 <= x < y < b.len() implies ((#[trigger] b[x]).library_id, b[x].identity) != ((#[trigger] b[y]).library_id, b[y].identity) by {
        assert(a[x].library_id == b[x].library_id);
        assert(a[y].library_id == b[y].library_id);
    }
}

/// Setting the state of an entry keeps the entries unique.
pub proof fn lemma_set_state_keeps_unique(s: Seq<InstanceEntry>, i: int, state: InstanceState)
    ensures
        keys_unique(s) ==> keys_unique(set_state_at(s, i, state)),
{
    if !keys_unique(s) {
        return;
    }
    let n = set_state_at(s, i, state);
    assert forall|k: int| 0 <= k < s.len() implies (#[trigger] n[k]).library_id == s[k].library_id && n[k].identity == s[k].identity by {
        if 0 <= i < s.len() && k == i {
        } else {
        }
    }
    lemma_same_keys(s, n);
}

} // verus!
