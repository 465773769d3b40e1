//! The listening side: where the resolver connects, and which clients have
//! already rung.

use std::path::PathBuf;
use vstd::hash_set::StringHashSet;
use vstd::prelude::*;

verus! {

/// `std::path::PathBuf`, carried through unread: the library never looks into a
/// path, it only hands on the one it was given.
#[verifier::external_type_specification]
#[verifier::external_body]
pub struct ExPathBuf(PathBuf);

/// What the dedup set says of one observation.
#[derive(Clone, Copy, Debug, PartialEq, Eq, Structural)]
pub enum Sighting {
    /// The client had not been seen before.
    First,
    /// The client had been seen already.
    Repeat,
}

/// The sighting of `client` when `seen` are the clients known so far.
pub open spec fn sighting_of(seen: Set<Seq<char>>, client: Seq<char>) -> Sighting {
    if seen.contains(client) {
        Sighting::Repeat
    } else {
        Sighting::First
    }
}

/// The clients that have rung at least once, by the text of their address.
///
/// The set only grows. It is shared by all connections; whoever holds it
/// exclusively checks and inserts in one step.
pub struct DoorbellDedup {
    seen: StringHashSet,
}

impl View for DoorbellDedup {
    type V = Set<Seq<char>>;

    closed spec fn view(&self) -> Set<Seq<char>> {
        self.seen@
    }
}

impl DoorbellDedup {
    /// The set before anyone has rung.
    pub fn new() -> (dedup: Self)
        ensures
            dedup@ == Set::<Seq<char>>::empty(),
    {
        DoorbellDedup { seen: StringHashSet::new() }
    }

    /// Records that `client` rang and says whether it was the first time.
    pub fn observe(&mut self, client: &str) -> (sighting: Sighting)
        ensures
            sighting == sighting_of(old(self)@, client@),
            final(self)@ == old(self)@.insert(client@),
    {
        if self.seen.contains(client) {
            assert(self@ =~= self@.insert(client@));
            Sighting::Repeat
        } else {
            self.seen.insert(client.to_owned());
            Sighting::First
        }
    }

    /// Whether `client` has rung before.
    pub fn contains(&self, client: &str) -> (known: bool)
        ensures
            known == self@.contains(client@),
    {
        self.seen.contains(client)
    }
}

/// The listener of the dnstap stream: the path of its socket and the clients
/// that its connections have seen.
pub struct DnsService {
    socket_path: PathBuf,
    doorbells: DoorbellDedup,
}

impl DnsService {
    /// A listener for the socket at `socket_path` that has seen no client yet.
    pub fn new(socket_path: PathBuf) -> (service: Self)
        ensures
            service.socket_path() == socket_path,
            service.seen() == Set::<Seq<char>>::empty(),
    {
        DnsService { socket_path, doorbells: DoorbellDedup::new() }
    }

    /// The path of the socket to listen on.
    pub closed spec fn socket_path(&self) -> PathBuf {
        self.socket_path
    }

    /// The clients seen so far.
    pub closed spec fn seen(&self) -> Set<Seq<char>> {
        self.doorbells@
    }

    /// The path of the socket to listen on.
    pub fn path(&self) -> (path: &PathBuf)
        ensures
            *path == self.socket_path(),
    {
        &self.socket_path
    }

    /// Takes the listener apart, so that the dedup set can be shared among the
    /// connections.
    pub fn into_parts(self) -> (parts: (PathBuf, DoorbellDedup))
        ensures
            parts.0 == self.socket_path(),
            parts.1@ == self.seen(),
    {
        (self.socket_path, self.doorbells)
    }
}

} // verus!
