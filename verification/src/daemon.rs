//! The pinning daemon: the commands it takes over its socket, the answers
//! it gives, the set of pinned sites, and what each command does to it.

use vstd::prelude::*;

use crate::string_set::{sorted_listing, strictly_sorted, StringSet};

verus! {

/// A command sent to the daemon.
#[derive(Debug)]
pub enum DaemonCommand {
    Pin { hash: String },
    Unpin { hash: String },
    List,
    Status,
    Shutdown,
}

/// The daemon's answer to a command.
#[derive(Debug)]
pub enum DaemonResponse {
    /// The command was carried out.
    Done,
    Pinned { hash: String },
    Unpinned { hash: String },
    List { hashes: Vec<String> },
    Status { peer_count: usize, pinned: usize, node_id: String },
    Error { message: String },
}

impl DaemonResponse {
    /// The status answer of a node with id `node_id` that pins `pinned`
    /// sites. Connections are not counted yet, so `peer_count` is 0.
    pub fn status(pinned: usize, node_id: String) -> (r: DaemonResponse)
        ensures
            r == (DaemonResponse::Status { peer_count: 0, pinned, node_id }),
    {
        DaemonResponse::Status { peer_count: 0, pinned, node_id }
    }
}

/// The sites (manifest hashes) this daemon keeps available.
pub struct PinSet {
    hashes: StringSet,
}

impl View for PinSet {
    type V = Set<Seq<char>>;

    closed spec fn view(&self) -> Set<Seq<char>> {
        self.hashes@
    }
}

impl PinSet {
    /// An empty pin set.
    pub fn new() -> (r: PinSet)
        ensures
            r@ == Set::<Seq<char>>::empty(),
    {
        PinSet { hashes: StringSet::new() }
    }

    /// Pin `hash`.
    pub fn add(&mut self, hash: &str)
        ensures
            final(self)@ == old(self)@.insert(hash@),
    {
        self.hashes.insert(hash);
    }

    /// Unpin `hash`.
    pub fn remove(&mut self, hash: &str)
        ensures
            final(self)@ == old(self)@.remove(hash@),
    {
        self.hashes.remove(hash);
    }

    /// Whether `hash` is pinned.
    pub fn contains(&self, hash: &str) -> (r: bool)
        ensures
            r == self@.contains(hash@),
    {
        self.hashes.contains(hash)
    }

    /// The pinned hashes, in increasing order, each once.
    pub fn list(&self) -> (r: Vec<String>)
        ensures
            strictly_sorted(r@.map_values(|s: String| s@)),
            r@.map_values(|s: String| s@).to_set() == self@,
            r@.map_values(|s: String| s@) == sorted_listing(self@),
    {
        self.hashes.to_vec()
    }

    /// The number of pinned hashes.
    pub fn len(&self) -> (r: usize)
        ensures
            self@.finite(),
            r == self@.len(),
    {
        self.hashes.len()
    }
}

/// What the daemon does after a command has been applied to its pin set.
#[derive(Debug)]
pub enum DaemonAction {
    /// Save the pin set; answer `reply` if that succeeds, an error if not.
    PersistThenReply(DaemonResponse),
    /// Answer `reply`.
    Reply(DaemonResponse),
    /// Answer with the node's status; `pinned` sites are pinned.
    ReportStatus { pinned: usize },
    /// Stop the daemon.
    Shutdown,
}

/// Apply `cmd` to the pin set and say what is left to do: pinning and
/// unpinning change the set and must be saved before they are confirmed;
/// listing answers at once; status and shutdown are left to the caller.
pub fn dispatch(pins: &mut PinSet, cmd: DaemonCommand) -> (r: DaemonAction)
    ensures
        match cmd {
            DaemonCommand::Pin { hash } => final(pins)@ == old(pins)@.insert(hash@) && r == DaemonAction::PersistThenReply(
                DaemonResponse::Pinned { hash },
            ),
            DaemonCommand::Unpin { hash } => final(pins)@ == old(pins)@.remove(hash@) && r
                == DaemonAction::PersistThenReply(DaemonResponse::Unpinned { hash }),
            DaemonCommand::List => final(pins)@ == old(pins)@ && (r matches DaemonAction::Reply(
                DaemonResponse::List { hashes },
            ) && hashes@.map_values(|s: String| s@) == sorted_listing(old(pins)@)),
            DaemonCommand::Status => final(pins)@ == old(pins)@ && old(pins)@.finite() && r
                == DaemonAction::ReportStatus { pinned: old(pins)@.len() as usize },
            DaemonCommand::Shutdown => final(pins)@ == old(pins)@ && r == DaemonAction::Shutdown,
        },
{
    match cmd {
        DaemonCommand::Pin { hash } => {
            pins.add(hash.as_str());
            DaemonAction::PersistThenReply(DaemonResponse::Pinned { hash })
        },
        DaemonCommand::Unpin { hash } => {
            pins.remove(hash.as_str());
            DaemonAction::PersistThenReply(DaemonResponse::Unpinned { hash })
        },
        DaemonCommand::List => DaemonAction::Reply(DaemonResponse::List { hashes: pins.list() }),
        DaemonCommand::Status => DaemonAction::ReportStatus { pinned: pins.len() },
        DaemonCommand::Shutdown => DaemonAction::Shutdown,
    }
}

} // verus!
