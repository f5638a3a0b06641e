//! One site's replica: its document, the table of sites heard from lately, the
//! hashes of deltas already applied, and the sites whose full state it merged.
//! `handle_message` decides what an inbound protocol message does to it.
use vstd::prelude::*;
use vstd::std_specs::hash::DefaultHasherAdditionalSpecFns;
use std::collections::hash_map::DefaultHasher;
use std::hash::Hasher;
use automerge::AutoCommit;
use crate::crdt::{
    doc_actor, doc_heads, doc_list_count, doc_open, actor_bytes, list_count, load_doc,
    load_incremental, load_and_merge, new_doc, save_incremental, snapshot, with_actor_bytes,
    doc_loads, save_heads, merge_ok, delta_ok, doc_save,
};
use crate::protocol::SyncMessage;

verus! {

/// A site is dropped from the alive table this many milliseconds after it was
/// last heard from.
pub const ALIVE_TIMEOUT_MS: u64 = 5000;

/// How many delta hashes the replica remembers.
pub const DEDUP_CAPACITY: usize = 2048;

/// Whether a site last heard from at `seen` still counts as alive at `now`.
pub open spec fn fresh(seen: u64, now: u64) -> bool {
    (now as int) - (seen as int) < ALIVE_TIMEOUT_MS as int
}

/// The alive table after hearing from `site` (if any) at `now`: stale entries
/// and the old entry of `site` go, then `site` comes in at `now`.
pub open spec fn alive_updated(e: Seq<(u32, u64)>, site: Option<u32>, now: u64) -> Seq<(u32, u64)> {
    let kept = e.filter(keeps_alive(site, now));
    match site {
        Some(s) => kept.push((s, now)),
        None => kept,
    }
}

/// Which entries an update keeps: fresh ones, other than `site`'s.
pub open spec fn keeps_alive(site: Option<u32>, now: u64) -> spec_fn((u32, u64)) -> bool {
    |x: (u32, u64)| fresh(x.1, now) && site != Some(x.0)
}

/// Entries of sites other than `site`.
pub open spec fn not_of(site: u32) -> spec_fn((u32, u64)) -> bool {
    |x: (u32, u64)| x.0 != site
}

/// The alive table without `site`.
pub open spec fn alive_without(e: Seq<(u32, u64)>, site: u32) -> Seq<(u32, u64)> {
    e.filter(not_of(site))
}

/// Sites heard from lately, with the time (in milliseconds) each was last heard from.
#[derive(Debug)]
pub struct AliveTable {
    pub entries: Vec<(u32, u64)>,
}

impl AliveTable {
    pub fn new() -> (r: AliveTable)
        ensures
            r.entries@.len() == 0,
    {
        AliveTable { entries: Vec::new() }
    }

    pub fn len(&self) -> (r: usize)
        ensures
            r == self.entries@.len(),
    {
        self.entries.len()
    }

    /// Records that `site` (if any) was heard from at `now`, and drops every
    /// site not heard from within the timeout. Returns whether the number of
    /// alive sites changed.
    pub fn update(&mut self, site: Option<u32>, now: u64) -> (changed: bool)
        ensures
            final(self).entries@ == alive_updated(old(self).entries@, site, now),
            changed == (final(self).entries@.len() != old(self).entries@.len()),
    {
        let ghost e = self.entries@;
        let ghost p = keeps_alive(site, now);
        let n = self.entries.len();
        let mut out: Vec<(u32, u64)> = Vec::new();
        let mut i: usize = 0;
        while i < n
            invariant
                e == self.entries@,
                n == e.len(),
                i <= n,
                p == keeps_alive(site, now),
                out@ == e.subrange(0, i as int).filter(p),
            decreases n - i,
        {
            let x = self.entries[i];
            proof {
                assert(e.subrange(0, i as int + 1) =~= e.subrange(0, i as int).push(x));
                e.subrange(0, i as int).lemma_filter_push(x, p);
            }
            let keep_site = match site {
                Some(s) => s != x.0,
                None => true,
            };
            let keep = keep_site && (now < x.1 || now - x.1 < ALIVE_TIMEOUT_MS);
            assert(keep == p(x));
            if keep {
                out.push(x);
            }
            i = i + 1;
        }
        assert(e.subrange(0, n as int) =~= e);
        match site {
            Some(s) => out.push((s, now)),
            None => {},
        }
        let changed = out.len() != n;
        self.entries = out;
        changed
    }

    /// Drops `site` from the table.
    pub fn remove(&mut self, site: u32)
        ensures
            final(self).entries@ == alive_without(old(self).entries@, site),
    {
        let ghost e = self.entries@;
        let ghost p = not_of(site);
        let n = self.entries.len();
        let mut out: Vec<(u32, u64)> = Vec::new();
        let mut i: usize = 0;
        while i < n
            invariant
                e == self.entries@,
                n == e.len(),
                i <= n,
                p == not_of(site),
                out@ == e.subrange(0, i as int).filter(p),
            decreases n - i,
        {
            let x = self.entries[i];
            proof {
                assert(e.subrange(0, i as int + 1) =~= e.subrange(0, i as int).push(x));
                e.subrange(0, i as int).lemma_filter_push(x, p);
            }
            assert((x.0 != site) == p(x));
            if x.0 != site {
                out.push(x);
            }
            i = i + 1;
        }
        assert(e.subrange(0, n as int) =~= e);
        self.entries = out;
    }
}

/// Every site left in the table after an update was heard from within the
/// timeout, and the site just heard from is in it.
pub proof fn lemma_alive_eviction(e: Seq<(u32, u64)>, site: Option<u32>, now: u64)
    ensures
        forall|i: int|
            0 <= i < alive_updated(e, site, now).len() ==> fresh(
                #[trigger] alive_updated(e, site, now)[i].1,
                now,
            ),
        site is Some ==> alive_updated(e, site, now).contains((site->0, now)),
{
    let p = keeps_alive(site, now);
    let kept = e.filter(p);
    assert forall|i: int| 0 <= i < kept.len() implies fresh(#[trigger] kept[i].1, now) by {
        e.lemma_filter_pred(p, i);
    }
    if let Some(s) = site {
        assert(alive_updated(e, site, now)[kept.len() as int] == (s, now));
    }
}

/// The hash by which a delta is recognised when it comes again.
pub open spec fn blob_hash(b: Seq<u8>) -> u64 {
    DefaultHasher::spec_finish(seq![b])
}

fn hash_blob(b: &[u8]) -> (r: u64)
    ensures
        r == blob_hash(b@),
{
    let mut h = DefaultHasher::new();
    h.write(b);
    assert(h@ =~= seq![b@]);
    h.finish()
}

/// The remembered hashes after `h` was added: the oldest goes once there are
/// more than `DEDUP_CAPACITY`.
pub open spec fn dedup_pushed(s: Seq<u64>, h: u64) -> Seq<u64> {
    if s.len() < DEDUP_CAPACITY {
        s.push(h)
    } else {
        s.push(h).drop_first()
    }
}

/// The hashes of the latest deltas applied, oldest first.
#[derive(Debug)]
pub struct DedupCache {
    pub hashes: Vec<u64>,
}

impl DedupCache {
    pub open spec fn wf(&self) -> bool {
        self.hashes@.len() <= DEDUP_CAPACITY
    }

    pub fn new() -> (r: DedupCache)
        ensures
            r.hashes@.len() == 0,
            r.wf(),
    {
        DedupCache { hashes: Vec::new() }
    }

    pub fn contains(&self, h: u64) -> (r: bool)
        ensures
            r == self.hashes@.contains(h),
    {
        let mut i: usize = 0;
        while i < self.hashes.len()
            invariant
                i <= self.hashes@.len(),
                forall|j: int| 0 <= j < i ==> self.hashes@[j] != h,
            decreases self.hashes@.len() - i,
        {
            if self.hashes[i] == h {
                return true;
            }
            i = i + 1;
        }
        false
    }

    /// Remembers `h`; returns whether it was new. A known hash changes nothing.
    pub fn insert(&mut self, h: u64) -> (added: bool)
        requires
            old(self).wf(),
        ensures
            final(self).wf(),
            added == !old(self).hashes@.contains(h),
            added ==> final(self).hashes@ == dedup_pushed(old(self).hashes@, h),
            !added ==> final(self).hashes@ == old(self).hashes@,
            final(self).hashes@.contains(h),
    {
        if self.contains(h) {
            return false;
        }
        let ghost s = self.hashes@;
        self.hashes.push(h);
        if self.hashes.len() > DEDUP_CAPACITY {
            self.hashes.remove(0);
            assert(self.hashes@ =~= s.push(h).drop_first());
        }
        assert(self.hashes@[self.hashes@.len() - 1] == h);
        true
    }
}

/// Once a delta's hash is remembered, the same delta counts as already applied.
pub proof fn lemma_second_delivery_is_duplicate(s: Seq<u64>, b: Seq<u8>)
    requires
        s.len() <= DEDUP_CAPACITY,
    ensures
        dedup_pushed(s, blob_hash(b)).contains(blob_hash(b)),
{
    let d = dedup_pushed(s, blob_hash(b));
    assert(d[d.len() - 1] == blob_hash(b));
}

/// A change in the number of alive sites, for the front ends.
#[derive(Debug, Clone, Copy, PartialEq, Eq, Structural)]
pub enum StatusChange {
    /// The count changed on an update; this many sites are alive.
    Connections(usize),
    /// A site left; this many sites are alive.
    Disconnected(usize),
}

/// What handling one message calls for beyond the replica itself.
#[derive(Debug)]
pub struct Reaction {
    /// The document changed: emit a state update and ask for a save.
    pub state_changed: bool,
    /// Messages to send to the peers.
    pub outbound: Vec<SyncMessage>,
    /// A connection-status event to emit.
    pub status: Option<StatusChange>,
    /// A document operation failed on the message's content.
    pub failed: bool,
}

impl Reaction {
    pub open spec fn is_quiet(&self) -> bool {
        !self.state_changed && self.outbound@.len() == 0 && self.status is None && !self.failed
    }
}

/// What merging a full state did.
#[derive(Debug, Clone, Copy, PartialEq, Eq, Structural)]
pub enum MergeOutcome {
    /// Our document was empty: it is now theirs, under our actor id.
    Adopted,
    /// Their changes were merged into ours.
    Merged,
    /// Their bytes did not load, or the merge failed.
    Failed,
}

/// One site's replica.
pub struct SiteState {
    /// Our short id.
    pub site_id: u32,
    pub doc: AutoCommit,
    pub alive: AliveTable,
    pub dedup: DedupCache,
    /// Sites whose full state we merged.
    pub state_seen: Vec<u32>,
}

/// Whether merging the full save `b` into `d` succeeds: an empty document
/// takes any save that loads; another must load and merge it.
pub open spec fn merge_succeeds(d: AutoCommit, b: Seq<u8>) -> bool {
    if doc_list_count(d) == 0 {
        doc_loads(b)
    } else {
        merge_ok(d, b)
    }
}

/// What merging the full save `b` into `d` leaves as `after`: an empty
/// document becomes the saved one under its own actor id; a merge keeps the
/// actor id; bytes that do not load change nothing.
pub open spec fn merge_leaves(d: AutoCommit, b: Seq<u8>, after: AutoCommit) -> bool {
    &&& (doc_list_count(d) == 0 && doc_loads(b)) ==> doc_actor(after) == doc_actor(d) && doc_heads(
        after,
    ) == save_heads(b) && !doc_open(after)
    &&& (doc_list_count(d) != 0 && merge_ok(d, b)) ==> doc_actor(after) == doc_actor(d) && !doc_open(
        after,
    )
    &&& !doc_loads(b) ==> after == d
}

/// Whether `m` is a message whose receipt refreshes its sender's alive entry.
pub open spec fn refreshes_alive(m: SyncMessage) -> bool {
    !(m is Shutdown)
}

impl SiteState {
    pub open spec fn wf(&self) -> bool {
        self.dedup.wf()
    }

    /// A replica of `doc`, with no site heard from.
    pub fn new(site_id: u32, doc: AutoCommit) -> (r: SiteState)
        ensures
            r.wf(),
            r.site_id == site_id,
            r.doc == doc,
            r.alive.entries@.len() == 0,
            r.dedup.hashes@.len() == 0,
            r.state_seen@.len() == 0,
    {
        SiteState {
            site_id,
            doc,
            alive: AliveTable::new(),
            dedup: DedupCache::new(),
            state_seen: Vec::new(),
        }
    }

    /// A replica of the empty document.
    pub fn fresh_replica(site_id: u32) -> (r: SiteState)
        ensures
            r.wf(),
            r.site_id == site_id,
            doc_list_count(r.doc) == 0,
            r.alive.entries@.len() == 0,
            r.state_seen@.len() == 0,
    {
        SiteState::new(site_id, new_doc())
    }

    /// A replica of the document saved in `bytes`; `None` where they do not load.
    pub fn load(site_id: u32, bytes: &[u8]) -> (r: Option<SiteState>)
        ensures
            r is Some <==> doc_loads(bytes@),
            r is Some ==> ({
                let rep = r->0;
                rep.wf() && rep.site_id == site_id && !doc_open(rep.doc) && doc_heads(rep.doc)
                    == save_heads(bytes@) && rep.alive.entries@.len() == 0
                    && rep.state_seen@.len() == 0
            }),
    {
        match load_doc(bytes) {
            Ok(d) => Some(SiteState::new(site_id, d)),
            Err(_) => None,
        }
    }

    /// A full save of the document.
    pub fn snapshot_bytes(&self) -> (r: Vec<u8>)
        ensures
            !doc_open(self.doc) ==> r@ == doc_save(self.doc),
    {
        snapshot(&self.doc)
    }

    /// The changes made since the previous call.
    pub fn delta_bytes(&mut self) -> (r: Vec<u8>)
        ensures
            final(self).site_id == old(self).site_id,
            final(self).alive == old(self).alive,
            final(self).dedup.hashes@ == old(self).dedup.hashes@,
            final(self).state_seen == old(self).state_seen,
            !doc_open(final(self).doc),
            doc_actor(final(self).doc) == doc_actor(old(self).doc),
            !doc_open(old(self).doc) ==> doc_heads(final(self).doc) == doc_heads(old(self).doc)
                && doc_list_count(final(self).doc) == doc_list_count(old(self).doc)
                && doc_save(final(self).doc) == doc_save(old(self).doc),
    {
        save_incremental(&mut self.doc)
    }

    fn seen_state_of(&self, site: u32) -> (r: bool)
        ensures
            r == self.state_seen@.contains(site),
    {
        let mut i: usize = 0;
        while i < self.state_seen.len()
            invariant
                i <= self.state_seen@.len(),
                forall|j: int| 0 <= j < i ==> self.state_seen@[j] != site,
            decreases self.state_seen@.len() - i,
        {
            if self.state_seen[i] == site {
                return true;
            }
            i = i + 1;
        }
        false
    }

    fn mark_state_seen(&mut self, site: u32)
        ensures
            final(self).state_seen@.contains(site),
            final(self).site_id == old(self).site_id,
            final(self).doc == old(self).doc,
            final(self).alive == old(self).alive,
            final(self).dedup.hashes@ == old(self).dedup.hashes@,
    {
        if !self.seen_state_of(site) {
            self.state_seen.push(site);
            assert(self.state_seen@[self.state_seen@.len() - 1] == site);
        }
    }

    fn forget_state_of(&mut self, site: u32)
        ensures
            !final(self).state_seen@.contains(site),
            final(self).site_id == old(self).site_id,
            final(self).doc == old(self).doc,
            final(self).alive == old(self).alive,
            final(self).dedup.hashes@ == old(self).dedup.hashes@,
    {
        let ghost e = self.state_seen@;
        let n = self.state_seen.len();
        let mut out: Vec<u32> = Vec::new();
        let mut i: usize = 0;
        while i < n
            invariant
                e == self.state_seen@,
                n == e.len(),
                i <= n,
                forall|j: int| 0 <= j < out@.len() ==> out@[j] != site,
            decreases n - i,
        {
            let x = self.state_seen[i];
            if x != site {
                out.push(x);
            }
            i = i + 1;
        }
        self.state_seen = out;
    }

    /// Merges a peer's full save. Where ours is still empty, we take theirs
    /// whole and keep our own actor id; else their changes are merged in.
    /// Bytes that do not load leave our document as it is.
    pub fn merge(&mut self, bytes: &[u8]) -> (r: MergeOutcome)
        ensures
            final(self).site_id == old(self).site_id,
            final(self).alive == old(self).alive,
            final(self).dedup.hashes@ == old(self).dedup.hashes@,
            final(self).state_seen == old(self).state_seen,
            (r != MergeOutcome::Failed) == merge_succeeds(old(self).doc, bytes@),
            (r == MergeOutcome::Adopted) == (doc_list_count(old(self).doc) == 0 && doc_loads(bytes@)),
            merge_leaves(old(self).doc, bytes@, final(self).doc),
    {
        if list_count(&self.doc) == 0 {
            match load_doc(bytes) {
                Ok(other) => {
                    let actor = actor_bytes(&self.doc);
                    self.doc = with_actor_bytes(other, actor.as_slice());
                    MergeOutcome::Adopted
                },
                Err(_) => MergeOutcome::Failed,
            }
        } else {
            match load_and_merge(&mut self.doc, bytes) {
                Ok(()) => MergeOutcome::Merged,
                Err(_) => MergeOutcome::Failed,
            }
        }
    }

    /// Records that `site` (if any) was heard from at `now` and prunes the
    /// alive table; returns the new count where it changed.
    pub fn update_aliveness(&mut self, site: Option<u32>, now: u64) -> (st: Option<StatusChange>)
        ensures
            final(self).alive.entries@ == alive_updated(old(self).alive.entries@, site, now),
            st == (if final(self).alive.entries@.len() != old(self).alive.entries@.len() {
                Some(StatusChange::Connections(#[verifier::truncate] (final(self).alive.entries@.len() as usize)))
            } else {
                None
            }),
            final(self).site_id == old(self).site_id,
            final(self).doc == old(self).doc,
            final(self).dedup.hashes@ == old(self).dedup.hashes@,
            final(self).state_seen == old(self).state_seen,
    {
        if self.alive.update(site, now) {
            Some(StatusChange::Connections(self.alive.len()))
        } else {
            None
        }
    }

    /// Drops `site` from the alive table; the new count is always reported.
    pub fn shutdown_site(&mut self, site: u32) -> (st: StatusChange)
        ensures
            final(self).alive.entries@ == alive_without(old(self).alive.entries@, site),
            st == StatusChange::Disconnected(#[verifier::truncate] (final(self).alive.entries@.len() as usize)),
            final(self).site_id == old(self).site_id,
            final(self).doc == old(self).doc,
            final(self).dedup.hashes@ == old(self).dedup.hashes@,
            final(self).state_seen == old(self).state_seen,
    {
        self.alive.remove(site);
        StatusChange::Disconnected(self.alive.len())
    }

    /// Handles one protocol message from site `origin`, received at `now`
    /// (milliseconds). A message of our own site is ignored. Any other message
    /// but `Shutdown` first refreshes the sender's alive entry.
    pub fn handle_message(&mut self, origin: u32, msg: SyncMessage, now: u64) -> (r: Reaction)
        requires
            old(self).wf(),
        ensures
            final(self).wf(),
            final(self).site_id == old(self).site_id,
            origin == old(self).site_id ==> *final(self) == *old(self) && r.is_quiet(),
            origin != old(self).site_id ==> match msg {
                SyncMessage::Shutdown => {
                    &&& final(self).alive.entries@ == alive_without(old(self).alive.entries@, origin)
                    &&& r.status == Some(StatusChange::Disconnected(#[verifier::truncate] (final(self).alive.entries@.len() as usize)))
                },
                _ => final(self).alive.entries@ == alive_updated(
                    old(self).alive.entries@,
                    Some(origin),
                    now,
                ),
            },
            origin != old(self).site_id ==> match msg {
                SyncMessage::DeltaChange(b) => {
                    if !old(self).state_seen@.contains(origin) {
                        &&& r.outbound@ == seq![SyncMessage::RequestState(origin)]
                        &&& !r.state_changed && !r.failed
                        &&& final(self).doc == old(self).doc
                        &&& final(self).dedup.hashes@ == old(self).dedup.hashes@
                    } else if old(self).dedup.hashes@.contains(blob_hash(b@)) {
                        &&& r.outbound@.len() == 0
                        &&& !r.state_changed && !r.failed
                        &&& final(self).doc == old(self).doc
                        &&& final(self).dedup.hashes@ == old(self).dedup.hashes@
                        &&& final(self).state_seen == old(self).state_seen
                    } else {
                        &&& final(self).dedup.hashes@ == dedup_pushed(
                            old(self).dedup.hashes@,
                            blob_hash(b@),
                        )
                        &&& r.state_changed != r.failed
                        &&& r.state_changed == delta_ok(old(self).doc, b@)
                        &&& r.state_changed ==> r.outbound@ == seq![msg]
                            && final(self).state_seen == old(self).state_seen
                        &&& r.failed ==> r.outbound@.len() == 0
                            && !final(self).state_seen@.contains(origin)
                    }
                },
                SyncMessage::State(b) => {
                    &&& r.outbound@.len() == 0
                    &&& final(self).dedup.hashes@ == old(self).dedup.hashes@
                    &&& r.state_changed != r.failed
                    &&& r.state_changed == merge_succeeds(old(self).doc, b@)
                    &&& merge_leaves(old(self).doc, b@, final(self).doc)
                    &&& r.state_changed ==> final(self).state_seen@.contains(origin)
                    &&& !r.state_changed ==> final(self).state_seen == old(self).state_seen
                },
                SyncMessage::Announce(b) => {
                    &&& r.outbound@.len() == 1
                    &&& r.outbound@[0] is State
                    &&& !doc_open(final(self).doc) ==> r.outbound@[0]->State_0@ == doc_save(
                        final(self).doc,
                    )
                    &&& final(self).dedup.hashes@ == old(self).dedup.hashes@
                    &&& r.state_changed != r.failed
                    &&& r.state_changed == merge_succeeds(old(self).doc, b@)
                    &&& merge_leaves(old(self).doc, b@, final(self).doc)
                    &&& r.state_changed ==> final(self).state_seen@.contains(origin)
                    &&& !r.state_changed ==> final(self).state_seen == old(self).state_seen
                },
                SyncMessage::RequestState(target) => {
                    &&& final(self).doc == old(self).doc
                    &&& final(self).dedup.hashes@ == old(self).dedup.hashes@
                    &&& final(self).state_seen == old(self).state_seen
                    &&& !r.state_changed && !r.failed
                    &&& (target == old(self).site_id ==> r.outbound@.len() == 1
                        && r.outbound@[0] is State && (!doc_open(old(self).doc)
                        ==> r.outbound@[0]->State_0@ == doc_save(old(self).doc)))
                    &&& (target != old(self).site_id ==> r.outbound@.len() == 0)
                },
                SyncMessage::Alive | SyncMessage::Shutdown => {
                    &&& final(self).doc == old(self).doc
                    &&& final(self).dedup.hashes@ == old(self).dedup.hashes@
                    &&& final(self).state_seen == old(self).state_seen
                    &&& !r.state_changed && !r.failed && r.outbound@.len() == 0
                },
            },
            origin != old(self).site_id && refreshes_alive(msg) ==> r.status == (
            if final(self).alive.entries@.len() != old(self).alive.entries@.len() {
                Some(StatusChange::Connections(#[verifier::truncate] (final(self).alive.entries@.len() as usize)))
            } else {
                None
            }),
    {
        if origin == self.site_id {
            return Reaction { state_changed: false, outbound: Vec::new(), status: None, failed: false };
        }
        let mut outbound: Vec<SyncMessage> = Vec::new();
        match msg {
            SyncMessage::Shutdown => {
                let st = self.shutdown_site(origin);
                return Reaction { state_changed: false, outbound, status: Some(st), failed: false };
            },
            _ => {},
        }
        let status = self.update_aliveness(Some(origin), now);
        match msg {
            SyncMessage::DeltaChange(b) => {
                if !self.seen_state_of(origin) {
                    outbound.push(SyncMessage::RequestState(origin));
                    assert(outbound@ =~= seq![SyncMessage::RequestState(origin)]);
                    return Reaction { state_changed: false, outbound, status, failed: false };
                }
                let h = hash_blob(b.as_slice());
                if !self.dedup.insert(h) {
                    return Reaction { state_changed: false, outbound, status, failed: false };
                }
                match load_incremental(&mut self.doc, b.as_slice()) {
                    Ok(()) => {
                        outbound.push(SyncMessage::DeltaChange(b));
                        Reaction { state_changed: true, outbound, status, failed: false }
                    },
                    Err(_) => {
                        self.forget_state_of(origin);
                        Reaction { state_changed: false, outbound, status, failed: true }
                    },
                }
            },
            SyncMessage::State(b) => {
                let m = self.merge(b.as_slice());
                if m == MergeOutcome::Failed {
                    Reaction { state_changed: false, outbound, status, failed: true }
                } else {
                    self.mark_state_seen(origin);
                    Reaction { state_changed: true, outbound, status, failed: false }
                }
            },
            SyncMessage::Announce(b) => {
                let m = self.merge(b.as_slice());
                let failed = m == MergeOutcome::Failed;
                if !failed {
                    self.mark_state_seen(origin);
                }
                outbound.push(SyncMessage::State(self.snapshot_bytes()));
                Reaction { state_changed: !failed, outbound, status, failed }
            },
            SyncMessage::RequestState(target) => {
                if target == self.site_id {
                    outbound.push(SyncMessage::State(self.snapshot_bytes()));
                }
                Reaction { state_changed: false, outbound, status, failed: false }
            },
            SyncMessage::Alive => Reaction { state_changed: false, outbound, status, failed: false },
            SyncMessage::Shutdown => Reaction {
                state_changed: false,
                outbound,
                status,
                failed: false,
            },
        }
    }
}

} // verus!
