use nomad_home::history::RootHistory;
use nomad_home::primitives::H256;

fn root(n: u8) -> H256 {
    let mut bytes = [0u8; 32];
    bytes[0] = n;
    bytes[20] = 0x5a;
    H256(bytes)
}

/// Roots that agree in their first bytes and differ in their last.
fn near(n: u8) -> H256 {
    let mut bytes = [0x77u8; 32];
    bytes[31] = n;
    H256(bytes)
}

fn filled(n: u8) -> RootHistory {
    let mut history = RootHistory::new();
    for i in 0..n {
        history.record(i as u32, root(i + 1));
    }
    history
}

#[test]
fn new_history_holds_nothing() {
    let history = RootHistory::new();
    assert_eq!(history.lookup_root(0), None);
    assert_eq!(history.lookup_index(root(1)), None);
    assert_eq!(history.lookup_index(H256::zero()), None);
}

#[test]
fn record_is_found_both_ways() {
    let mut history = RootHistory::new();
    history.record(4, root(1));
    assert_eq!(history.lookup_root(4), Some(root(1)));
    assert_eq!(history.lookup_index(root(1)), Some(4));
    assert_eq!(history.lookup_root(3), None);
    assert_eq!(history.lookup_index(root(2)), None);
}

#[test]
fn record_replaces_earlier_entries() {
    let mut history = RootHistory::new();
    history.record(4, root(1));
    history.record(4, root(2));
    assert_eq!(history.lookup_root(4), Some(root(2)));
    assert_eq!(history.lookup_index(root(1)), Some(4));
    history.record(5, root(1));
    assert_eq!(history.lookup_index(root(1)), Some(5));
    assert_eq!(history.lookup_root(5), Some(root(1)));
    assert_eq!(history.lookup_root(4), Some(root(2)));
}

#[test]
fn roots_with_the_same_first_bytes_are_kept_apart() {
    let mut history = RootHistory::new();
    for i in 0..5u8 {
        history.record(i as u32, near(i));
    }
    for i in 0..5u8 {
        assert_eq!(history.lookup_index(near(i)), Some(i as u32));
    }
    assert_eq!(history.lookup_index(near(9)), None);
    history.remove(2, near(2));
    assert_eq!(history.lookup_index(near(2)), None);
    assert_eq!(history.lookup_root(2), None);
    assert_eq!(history.lookup_index(near(1)), Some(1));
    assert_eq!(history.lookup_index(near(3)), Some(3));
    history.record(7, near(3));
    assert_eq!(history.lookup_index(near(3)), Some(7));
    assert_eq!(history.lookup_index(near(4)), Some(4));
}

#[test]
fn remove_takes_each_entry_by_its_own_key() {
    let mut history = filled(3);
    history.remove(0, root(3));
    assert_eq!(history.lookup_root(0), None);
    assert_eq!(history.lookup_index(root(3)), None);
    assert_eq!(history.lookup_index(root(1)), Some(0));
    assert_eq!(history.lookup_root(2), Some(root(3)));
    assert_eq!(history.lookup_root(1), Some(root(2)));
    history.remove(9, root(9));
    assert_eq!(history.lookup_root(1), Some(root(2)));
    assert_eq!(history.lookup_index(root(2)), Some(1));
}

#[test]
fn prune_walks_back_to_the_anchor() {
    let mut history = filled(5);
    history.prune(3, root(4), root(2));
    assert_eq!(history.lookup_root(4), Some(root(5)));
    assert_eq!(history.lookup_root(3), None);
    assert_eq!(history.lookup_root(2), None);
    assert_eq!(history.lookup_root(1), Some(root(2)));
    assert_eq!(history.lookup_root(0), Some(root(1)));
    assert_eq!(history.lookup_index(root(5)), Some(4));
    assert_eq!(history.lookup_index(root(4)), None);
    assert_eq!(history.lookup_index(root(3)), None);
    assert_eq!(history.lookup_index(root(2)), Some(1));
    assert_eq!(history.lookup_index(root(1)), Some(0));
}

#[test]
fn prune_stops_after_leaf_index_zero() {
    let mut history = filled(4);
    history.prune(2, root(3), root(99));
    assert_eq!(history.lookup_root(3), Some(root(4)));
    assert_eq!(history.lookup_root(2), None);
    assert_eq!(history.lookup_root(1), None);
    assert_eq!(history.lookup_root(0), None);
    assert_eq!(history.lookup_index(root(4)), Some(3));
    assert_eq!(history.lookup_index(root(3)), None);
    assert_eq!(history.lookup_index(root(2)), None);
    assert_eq!(history.lookup_index(root(1)), None);
}

#[test]
fn prune_stops_at_a_gap() {
    let mut history = filled(6);
    history.remove(2, root(3));
    history.prune(4, root(5), root(99));
    assert_eq!(history.lookup_root(5), Some(root(6)));
    assert_eq!(history.lookup_root(4), None);
    assert_eq!(history.lookup_root(3), None);
    assert_eq!(history.lookup_root(2), None);
    assert_eq!(history.lookup_root(1), Some(root(2)));
    assert_eq!(history.lookup_root(0), Some(root(1)));
    assert_eq!(history.lookup_index(root(2)), Some(1));
    assert_eq!(history.lookup_index(root(1)), Some(0));
}

#[test]
fn prune_from_the_anchor_removes_nothing() {
    let mut history = filled(3);
    history.prune(1, root(2), root(2));
    for i in 0..3u8 {
        assert_eq!(history.lookup_root(i as u32), Some(root(i + 1)));
        assert_eq!(history.lookup_index(root(i + 1)), Some(i as u32));
    }
}

#[test]
fn prune_at_leaf_index_zero_removes_one_entry() {
    let mut history = filled(2);
    history.prune(0, root(1), root(99));
    assert_eq!(history.lookup_root(0), None);
    assert_eq!(history.lookup_index(root(1)), None);
    assert_eq!(history.lookup_root(1), Some(root(2)));
    assert_eq!(history.lookup_index(root(2)), Some(1));
}
