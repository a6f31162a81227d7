use borrow_repair::tally::{takes_part, Tally, LONGEST};

#[test]
fn a_new_tally_is_empty() {
    let t = Tally::new();
    assert_eq!((t.seen, t.passed, t.timed), (0, 0, 0));
    assert_eq!((t.total, t.greatest), (0, 0));
    assert_eq!(t.least, LONGEST);
    assert_eq!(t.least, (u64::MAX as u128) * 1_000_000_000 + 999_999_999);
    assert_eq!(t.mean(), 0);
}

#[test]
fn the_bystander_is_seen_but_takes_no_part() {
    assert!(!takes_part("borrow.rs"));
    assert!(takes_part("borrow.r"));
    assert!(takes_part("borrow.rs2"));
    assert!(takes_part("break_controller.rs"));
    assert!(takes_part(""));
    let mut t = Tally::new();
    for name in ["a.rs", "borrow.rs", "b.rs"] {
        t.see();
        if takes_part(name) {
            t.record(5, true);
        }
    }
    assert_eq!((t.seen, t.timed, t.passed), (3, 2, 2));
}

#[test]
fn results_are_entered_one_by_one() {
    let mut t = Tally::new();
    t.see();
    t.record(30, true);
    assert_eq!((t.seen, t.passed, t.timed), (1, 1, 1));
    assert_eq!((t.total, t.least, t.greatest), (30, 30, 30));
    assert_eq!(t.mean(), 30);
    t.see();
    t.record(10, false);
    assert_eq!((t.seen, t.passed, t.timed), (2, 1, 2));
    assert_eq!((t.total, t.least, t.greatest), (40, 10, 30));
    assert_eq!(t.mean(), 20);
    t.see();
    t.record(45, true);
    assert_eq!((t.seen, t.passed, t.timed), (3, 2, 3));
    assert_eq!((t.total, t.least, t.greatest), (85, 10, 45));
    assert_eq!(t.mean(), 28);
    t.record(0, false);
    assert_eq!((t.total, t.least, t.greatest), (85, 0, 45));
    assert_eq!(t.mean(), 21);
}
