use tid::history::History;

fn contents(history: &History<u32>) -> Vec<u32> {
    history.iter().copied().collect()
}

#[test]
fn new_history_holds_defaults() {
    let history: History<u32> = History::new(4);
    assert_eq!(history.len(), 4);
    assert_eq!(contents(&history), vec![0, 0, 0, 0]);
    let empty: History<u32> = History::new(0);
    assert_eq!(empty.len(), 0);
    assert_eq!(contents(&empty), Vec::<u32>::new());
}

#[test]
fn pushes_come_out_newest_first() {
    let mut history: History<u32> = History::new(5);
    for value in [10, 11, 12, 13, 14] {
        history.push(value);
        assert_eq!(history.len(), 5);
    }
    assert_eq!(contents(&history), vec![14, 13, 12, 11, 10]);
    assert_eq!(*history.get(0), 14);
    assert_eq!(*history.get(4), 10);
}

#[test]
fn one_more_push_evicts_the_oldest() {
    let mut history: History<u32> = History::new(3);
    history.push(1);
    history.push(2);
    history.push(3);
    assert_eq!(contents(&history), vec![3, 2, 1]);
    history.push(4);
    assert_eq!(contents(&history), vec![4, 3, 2]);
    assert_eq!(history.len(), 3);
}

#[test]
fn partly_filled_history_keeps_old_samples_at_the_back() {
    let mut history: History<u32> = History::new(4);
    history.push(7);
    history.push(8);
    assert_eq!(contents(&history), vec![8, 7, 0, 0]);
}

#[test]
fn empty_history_stays_empty() {
    let mut history: History<u32> = History::new(0);
    history.push(5);
    assert_eq!(history.len(), 0);
    assert_eq!(contents(&history), Vec::<u32>::new());
}
