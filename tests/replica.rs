use automerge::transaction::Transactable;
use automerge::{AutoCommit, ObjType, ReadDoc, ROOT};
use todo_sync::protocol::SyncMessage;
use todo_sync::replica::{
    AliveTable, DedupCache, MergeOutcome, SiteState, StatusChange, DEDUP_CAPACITY,
};

fn doc_with_titles(titles: &[&str]) -> AutoCommit {
    let mut doc = AutoCommit::new();
    let lists = doc.put_object(ROOT, "lists", ObjType::List).unwrap();
    for (i, t) in titles.iter().enumerate() {
        let l = doc.insert_object(&lists, i, ObjType::Map).unwrap();
        doc.put(&l, "title", *t).unwrap();
        doc.put_object(&l, "items", ObjType::List).unwrap();
    }
    doc
}

fn add_list(doc: &mut AutoCommit, title: &str) {
    let (_, lists) = doc.get(ROOT, "lists").unwrap().unwrap();
    let n = doc.length(&lists);
    let l = doc.insert_object(&lists, n, ObjType::Map).unwrap();
    doc.put(&l, "title", title).unwrap();
    doc.put_object(&l, "items", ObjType::List).unwrap();
}

fn titles(doc: &AutoCommit) -> Vec<String> {
    let Some((_, lists)) = doc.get(ROOT, "lists").unwrap() else {
        return vec![];
    };
    (0..doc.length(&lists))
        .map(|i| {
            let (_, l) = doc.get(&lists, i).unwrap().unwrap();
            let (v, _) = doc.get(&l, "title").unwrap().unwrap();
            v.to_str().unwrap().to_string()
        })
        .collect()
}

fn snapshot_of(doc: &AutoCommit) -> Vec<u8> {
    doc.clone().save()
}

#[test]
fn message_from_own_site_changes_nothing() {
    let mut r = SiteState::new(7, doc_with_titles(&["A"]));
    let before = snapshot_of(&r.doc);
    let out = r.handle_message(7, SyncMessage::DeltaChange(vec![1, 2, 3]), 100);
    assert!(!out.state_changed && !out.failed && out.outbound.is_empty() && out.status.is_none());
    let out = r.handle_message(7, SyncMessage::Announce(before.clone()), 100);
    assert!(out.outbound.is_empty());
    assert_eq!(snapshot_of(&r.doc), before);
    assert!(r.alive.entries.is_empty());
    assert!(r.state_seen.is_empty());
}

#[test]
fn two_node_first_contact() {
    let mut near = SiteState::fresh_replica(1);
    let far = SiteState::new(2, doc_with_titles(&["A"]));
    let actor_before = near.doc.get_actor().clone();
    let out = near.handle_message(2, SyncMessage::Announce(far.snapshot_bytes()), 0);
    assert!(out.state_changed);
    assert_eq!(titles(&near.doc), vec!["A".to_string()]);
    assert_eq!(near.doc.get_actor(), &actor_before);
    assert_eq!(out.outbound.len(), 1);
    assert!(matches!(out.outbound[0], SyncMessage::State(_)));
    assert!(!out.outbound.iter().any(|m| matches!(m, SyncMessage::DeltaChange(_))));
    assert_eq!(near.state_seen, vec![2]);
}

#[test]
fn pristine_replica_adopts_peer_content_and_keeps_actor() {
    let mut fresh = SiteState::fresh_replica(3);
    let actor = fresh.doc.get_actor().clone();
    let peer = doc_with_titles(&["one", "two"]);
    assert_eq!(fresh.merge(&peer.clone().save()), MergeOutcome::Adopted);
    assert_eq!(titles(&fresh.doc), vec!["one".to_string(), "two".to_string()]);
    assert_eq!(fresh.doc.get_actor(), &actor);
}

#[test]
fn non_empty_replica_merges() {
    let mut a = SiteState::new(1, doc_with_titles(&["mine"]));
    let b = doc_with_titles(&["theirs"]);
    assert_eq!(a.merge(&b.clone().save()), MergeOutcome::Merged);
    let before = snapshot_of(&a.doc);
    assert_eq!(a.merge(&[1, 2, 3]), MergeOutcome::Failed);
    assert_eq!(snapshot_of(&a.doc), before);
    let mut empty = SiteState::fresh_replica(5);
    assert_eq!(empty.merge(&[1, 2, 3]), MergeOutcome::Failed);
    assert!(titles(&empty.doc).is_empty());
}

fn connected_pair() -> (SiteState, SiteState) {
    let mut near = SiteState::fresh_replica(1);
    let mut far = SiteState::new(2, doc_with_titles(&[]));
    let out = near.handle_message(2, SyncMessage::Announce(far.snapshot_bytes()), 0);
    let reply = out.outbound.into_iter().next().unwrap();
    let out2 = far.handle_message(1, reply, 0);
    assert!(out2.state_changed);
    // both sides consider their deltas caught up
    let _ = near.delta_bytes();
    let _ = far.delta_bytes();
    (near, far)
}

#[test]
fn concurrent_edits_converge() {
    let (mut near, mut far) = connected_pair();
    add_list(&mut near.doc, "X");
    add_list(&mut far.doc, "Y");
    let d1 = near.delta_bytes();
    let d2 = far.delta_bytes();
    let r2 = far.handle_message(1, SyncMessage::DeltaChange(d1.clone()), 10);
    let r1 = near.handle_message(2, SyncMessage::DeltaChange(d2.clone()), 10);
    assert!(r1.state_changed && r2.state_changed);
    assert_eq!(r2.outbound.len(), 1);
    assert!(matches!(&r2.outbound[0], SyncMessage::DeltaChange(b) if *b == d1));
    let t1 = titles(&near.doc);
    let t2 = titles(&far.doc);
    assert_eq!(t1.len(), 2);
    assert_eq!(t1, t2);
    assert!(t1.contains(&"X".to_string()) && t1.contains(&"Y".to_string()));
}

#[test]
fn delta_applied_twice_is_ignored_the_second_time() {
    let (mut near, mut far) = connected_pair();
    add_list(&mut near.doc, "X");
    let d = near.delta_bytes();
    let first = far.handle_message(1, SyncMessage::DeltaChange(d.clone()), 5);
    assert!(first.state_changed);
    let after_first = snapshot_of(&far.doc);
    // the same delta forwarded by a third site
    let second = far.handle_message(3, SyncMessage::DeltaChange(d.clone()), 6);
    assert!(!second.state_changed);
    // from a site whose state we merged, it is recognised as a duplicate
    let third = far.handle_message(1, SyncMessage::DeltaChange(d), 7);
    assert!(!third.state_changed && third.outbound.is_empty() && !third.failed);
    assert_eq!(snapshot_of(&far.doc), after_first);
}

#[test]
fn delta_from_unknown_site_asks_for_its_state() {
    let mut r = SiteState::new(1, doc_with_titles(&["A"]));
    let out = r.handle_message(9, SyncMessage::DeltaChange(vec![0, 1]), 0);
    assert!(!out.state_changed);
    assert_eq!(out.outbound.len(), 1);
    assert!(matches!(out.outbound[0], SyncMessage::RequestState(9)));
    assert!(r.dedup.hashes.is_empty());
}

#[test]
fn unreadable_delta_leaves_the_document_alone() {
    let (_, mut far) = connected_pair();
    let before = titles(&far.doc);
    let out = far.handle_message(1, SyncMessage::DeltaChange(vec![9, 9, 9, 9]), 0);
    assert_eq!(out.state_changed, !out.failed);
    assert_eq!(titles(&far.doc), before);
    assert_eq!(far.dedup.hashes.len(), 1);
}

#[test]
fn request_state_answers_only_for_us() {
    let mut r = SiteState::new(4, doc_with_titles(&["A"]));
    let out = r.handle_message(5, SyncMessage::RequestState(4), 0);
    assert_eq!(out.outbound.len(), 1);
    assert!(matches!(out.outbound[0], SyncMessage::State(_)));
    let out = r.handle_message(5, SyncMessage::RequestState(6), 0);
    assert!(out.outbound.is_empty());
}

#[test]
fn bad_state_is_reported() {
    let mut r = SiteState::new(4, doc_with_titles(&["A"]));
    let out = r.handle_message(5, SyncMessage::State(vec![7, 7, 7]), 0);
    assert!(out.failed && !out.state_changed);
    assert!(r.state_seen.is_empty());
}

#[test]
fn alive_entries_expire_after_five_seconds() {
    let mut r = SiteState::new(1, doc_with_titles(&[]));
    let out = r.handle_message(2, SyncMessage::Alive, 1_000);
    assert_eq!(out.status, Some(StatusChange::Connections(1)));
    let out = r.handle_message(3, SyncMessage::Alive, 3_000);
    assert_eq!(out.status, Some(StatusChange::Connections(2)));
    // refreshing a known site leaves the count as it is
    let out = r.handle_message(3, SyncMessage::Alive, 5_999);
    assert_eq!(out.status, None);
    // at 6000 ms site 2 was last heard 5 s ago and goes
    let out = r.handle_message(3, SyncMessage::Alive, 6_000);
    assert_eq!(out.status, Some(StatusChange::Connections(1)));
    assert_eq!(r.alive.entries, vec![(3, 6_000)]);
}

#[test]
fn alive_table_prunes_without_a_site() {
    let mut t = AliveTable::new();
    assert!(t.update(Some(1), 0));
    assert!(!t.update(None, 4_999));
    assert!(t.update(None, 5_000));
    assert_eq!(t.len(), 0);
}

#[test]
fn shutdown_removes_the_site() {
    let mut r = SiteState::new(1, doc_with_titles(&[]));
    r.handle_message(2, SyncMessage::Alive, 0);
    r.handle_message(3, SyncMessage::Alive, 0);
    let out = r.handle_message(2, SyncMessage::Shutdown, 10);
    assert_eq!(out.status, Some(StatusChange::Disconnected(1)));
    assert_eq!(r.alive.entries, vec![(3, 0)]);
}

#[test]
fn dedup_cache_keeps_the_latest_hashes() {
    let mut c = DedupCache::new();
    for h in 0..(DEDUP_CAPACITY as u64) {
        assert!(c.insert(h));
    }
    assert!(!c.insert(5));
    assert!(c.insert(99_999));
    assert_eq!(c.hashes.len(), DEDUP_CAPACITY);
    assert!(!c.contains(0));
    assert!(c.contains(1));
    assert!(c.contains(99_999));
}

#[test]
fn restarted_replica_loads_its_save_and_bootstraps_a_peer() {
    let saved = doc_with_titles(&["kept"]).save();
    let restarted = SiteState::load(8, &saved).unwrap();
    assert_eq!(titles(&restarted.doc), vec!["kept".to_string()]);
    assert!(SiteState::load(8, &[1, 2, 3]).is_none());
    let mut peer = SiteState::fresh_replica(9);
    let out = peer.handle_message(8, SyncMessage::Announce(restarted.snapshot_bytes()), 0);
    assert!(out.state_changed);
    assert_eq!(titles(&peer.doc), vec!["kept".to_string()]);
}

#[test]
fn missed_delta_is_recovered_by_a_state_exchange() {
    let (mut near, mut far) = connected_pair();
    add_list(&mut near.doc, "lost");
    let _dropped = near.delta_bytes();
    add_list(&mut near.doc, "later");
    let out = far.handle_message(1, SyncMessage::State(near.snapshot_bytes()), 0);
    assert!(out.state_changed);
    assert_eq!(titles(&far.doc), titles(&near.doc));
    assert_eq!(titles(&far.doc).len(), 2);
}
