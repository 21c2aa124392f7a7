use sundries::children_diff::{ChildrenDiff, DiffAction, DiffHandler};

/// Records every callback in order and hands out fresh element handles.
struct Recorder {
    calls: Vec<String>,
    next_element: u64,
}

impl Recorder {
    fn new() -> Recorder {
        Recorder { calls: Vec::new(), next_element: 0 }
    }

    fn changes(&self) -> usize {
        self.calls.iter().filter(|c| *c == "change").count()
    }
}

impl DiffHandler<i64> for Recorder {
    fn insert(&mut self, key: u64, value: &i64) -> u64 {
        self.next_element += 1;
        self.calls.push(format!("insert {} {}", key, value));
        self.next_element
    }

    fn attach_child(&mut self, element: u64) {
        self.calls.push(format!("attach {}", element));
    }

    fn on_update(&mut self, key: u64, value: &i64) {
        self.calls.push(format!("on_update {} {}", key, value));
    }

    fn detach_and_destroy(&mut self, element: u64) {
        self.calls.push(format!("detach {}", element));
    }

    fn on_remove(&mut self, key: u64) {
        self.calls.push(format!("on_remove {}", key));
    }

    fn on_change(&mut self) {
        self.calls.push("change".to_string());
    }
}

#[test]
fn settlement_fires_once_per_batch() {
    let mut diff: ChildrenDiff<i64> = ChildrenDiff::new();
    let mut h = Recorder::new();
    assert!(!diff.add(1, 10));
    assert!(!diff.add(2, 20));
    assert!(!diff.add(3, 30));
    assert_eq!(diff.queue_len(), 3);
    assert!(!diff.is_settled());
    let r1 = diff.process_event(&mut h);
    assert!(!r1.settled);
    let r2 = diff.process_event(&mut h);
    assert!(!r2.settled);
    let r3 = diff.process_event(&mut h);
    assert!(r3.settled);
    assert_eq!(h.changes(), 1);
    assert_eq!(h.calls.last().unwrap(), "change");
}

#[test]
fn insert_renders_and_attaches() {
    let mut diff: ChildrenDiff<i64> = ChildrenDiff::new();
    let mut h = Recorder::new();
    diff.add(7, 42);
    let outcome = diff.process_event(&mut h);
    assert!(outcome.settled);
    match outcome.action {
        DiffAction::Inserted { key, element } => {
            assert_eq!(key, 7);
            assert_eq!(diff.rendered().as_slice(), &[(7, element)]);
        },
        _ => panic!("expected an insertion"),
    }
    assert_eq!(h.calls, vec!["insert 7 42", "attach 1", "change"]);
    assert_eq!(h.changes(), 1);
    assert_eq!(
        diff.rendered().iter().filter(|(k, _)| *k == 7).count(),
        1,
    );
}

#[test]
fn remove_detaches_before_on_change() {
    let mut diff: ChildrenDiff<i64> = ChildrenDiff::new();
    let mut h = Recorder::new();
    diff.add(7, 42);
    diff.process_all(&mut h);
    diff.remove(7);
    let outcome = diff.process_event(&mut h);
    assert!(outcome.settled);
    match outcome.action {
        DiffAction::Removed { key, element } => {
            assert_eq!(key, 7);
            assert_eq!(element, 1);
        },
        _ => panic!("expected a removal"),
    }
    assert!(diff.rendered().is_empty());
    assert!(diff.get(7).is_none());
    // the child is detached and destroyed, then reported, before settlement
    let tail = &h.calls[h.calls.len() - 3..];
    assert_eq!(tail, &["detach 1", "on_remove 7", "change"]);
}

#[test]
fn update_preserves_child_identity() {
    let mut diff: ChildrenDiff<i64> = ChildrenDiff::new();
    let mut h = Recorder::new();
    diff.add(5, 1);
    diff.add(6, 2);
    diff.process_all(&mut h);
    let before = diff.rendered().clone();
    diff.update(5, 9);
    let outcome = diff.process_event(&mut h);
    assert!(outcome.settled);
    assert_eq!(outcome.action, DiffAction::Updated { key: 5 });
    assert_eq!(diff.rendered(), &before);
    assert_eq!(diff.get(5), Some(&9));
    assert!(h.calls.contains(&"on_update 5 9".to_string()));
}

#[test]
fn update_with_mutates_in_place() {
    let mut diff: ChildrenDiff<i64> = ChildrenDiff::new();
    let mut h = Recorder::new();
    diff.add(5, 40);
    diff.process_all(&mut h);
    diff.update_with(5, |v| v + 2);
    diff.process_all(&mut h);
    assert_eq!(diff.get(5), Some(&42));
}

#[test]
fn duplicate_add_keeps_one_child_reflecting_the_last_value() {
    let mut diff: ChildrenDiff<i64> = ChildrenDiff::new();
    let mut h = Recorder::new();
    let first = diff.add(3, 1);
    assert!(!first);
    let overwrote = diff.add(3, 2);
    assert!(overwrote, "the second add must report the overwrite");
    diff.process_all(&mut h);
    assert_eq!(
        diff.rendered().iter().filter(|(k, _)| *k == 3).count(),
        1,
    );
    assert_eq!(diff.get(3), Some(&2));
    // the insert saw the first cell, the update delivered the second value
    assert!(h.calls.contains(&"insert 3 1".to_string()));
    assert!(h.calls.contains(&"on_update 3 2".to_string()));
    // both events carry the same key, so the pending set drains at each:
    // settlement fires twice here, once per delivered event
    assert_eq!(h.changes(), 2);
}

#[test]
fn settled_batches_match_keys() {
    let mut diff: ChildrenDiff<i64> = ChildrenDiff::new();
    let mut h = Recorder::new();
    diff.add(1, 1);
    diff.add(2, 2);
    diff.add(3, 3);
    diff.process_all(&mut h);
    diff.remove(2);
    diff.add(4, 4);
    diff.process_all(&mut h);
    let mut keys: Vec<u64> = diff.rendered().iter().map(|(k, _)| *k).collect();
    keys.sort();
    assert_eq!(keys, vec![1, 3, 4]);
    assert!(diff.contains_key(1));
    assert!(!diff.contains_key(2));
    assert!(diff.is_settled());
}

#[test]
fn concrete_two_phase_scenario() {
    // start empty; add "a" -> 1 and "b" -> 2 (keys 1 and 2)
    let mut diff: ChildrenDiff<i64> = ChildrenDiff::new();
    let mut h = Recorder::new();
    diff.add(1, 1);
    diff.add(2, 2);
    diff.process_all(&mut h);
    assert_eq!(
        h.calls,
        vec!["insert 1 1", "attach 1", "insert 2 2", "attach 2", "change"],
    );
    assert_eq!(h.changes(), 1);
    let mut keys: Vec<u64> = diff.rendered().iter().map(|(k, _)| *k).collect();
    keys.sort();
    assert_eq!(keys, vec![1, 2]);

    // then remove "a" and update "b" -> 3 in the same tick
    h.calls.clear();
    diff.remove(1);
    diff.update(2, 3);
    assert!(!diff.is_settled());
    diff.process_all(&mut h);
    assert_eq!(
        h.calls,
        vec!["detach 1", "on_remove 1", "on_update 2 3", "change"],
    );
    assert_eq!(h.changes(), 1);
    assert_eq!(diff.rendered().as_slice(), &[(2, 2)]);
    assert_eq!(diff.get(2), Some(&3));
}
