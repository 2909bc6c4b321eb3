use turn_clock::broadcast::{broadcast_step, BroadcastAction};
use turn_clock::store::{ClockStore, StoreError};

#[test]
fn create_gives_full_allotment_to_every_player() {
    let mut st = ClockStore::new();
    let code = st.create(3, 2);
    let s = st.get(code.as_str(), 0).unwrap();
    assert_eq!(s.remaining_ms, vec![2000, 2000, 2000]);
    assert_eq!(s.player_names.len(), 3);
    assert_eq!(s.player_names[0], "Player 0");
    assert_eq!(s.player_names[1], "Player 1");
    assert_eq!(s.player_names[2], "Player 2");
    assert_eq!(s.current_player, 0);
    assert!(!s.started);
    assert!(!s.finished);
    assert_eq!(s.code, code);
}

#[test]
fn first_hit_only_starts_the_clock() {
    let mut st = ClockStore::new();
    let code = st.create(2, 120);
    let s = st.hit(code.as_str(), 777).unwrap();
    assert!(s.started);
    assert!(!s.finished);
    assert_eq!(s.remaining_ms, vec![120000, 120000]);
    assert_eq!(s.current_player, 0);
}

#[test]
fn hit_debits_elapsed_time_and_passes_the_turn() {
    let mut st = ClockStore::new();
    let code = st.create(2, 120);
    st.hit(code.as_str(), 1000).unwrap();
    let s = st.hit(code.as_str(), 31000).unwrap();
    assert_eq!(s.remaining_ms, vec![90000, 120000]);
    assert_eq!(s.current_player, 1);
    assert!(s.started);
    assert!(!s.finished);
}

#[test]
fn hit_after_expiry_zeroes_and_finishes() {
    let mut st = ClockStore::new();
    let code = st.create(1, 1);
    st.hit(code.as_str(), 0).unwrap();
    let s = st.hit(code.as_str(), 2000).unwrap();
    assert_eq!(s.remaining_ms, vec![0]);
    assert!(s.finished);
    assert_eq!(s.current_player, 0);
}

#[test]
fn hit_exactly_at_expiry_finishes_too() {
    let mut st = ClockStore::new();
    let code = st.create(2, 1);
    st.hit(code.as_str(), 0).unwrap();
    let s = st.hit(code.as_str(), 1000).unwrap();
    assert_eq!(s.remaining_ms, vec![0, 1000]);
    assert!(s.finished);
    assert_eq!(s.current_player, 0);
}

#[test]
fn hit_on_finished_clock_changes_nothing() {
    let mut st = ClockStore::new();
    let code = st.create(2, 1);
    st.hit(code.as_str(), 0).unwrap();
    st.hit(code.as_str(), 5000).unwrap();
    let s = st.hit(code.as_str(), 9000).unwrap();
    assert_eq!(s.remaining_ms, vec![0, 1000]);
    assert!(s.finished);
    assert_eq!(s.current_player, 0);
    let again = st.hit(code.as_str(), 123456).unwrap();
    assert_eq!(again.remaining_ms, vec![0, 1000]);
    assert!(again.finished);
    assert_eq!(again.current_player, 0);
}

#[test]
fn backwards_clock_is_clamped_not_fatal() {
    let mut st = ClockStore::new();
    let code = st.create(2, 120);
    st.hit(code.as_str(), 50000).unwrap();
    // time observed before the turn started: no debit, turn still passes
    let s = st.hit(code.as_str(), 40000).unwrap();
    assert_eq!(s.remaining_ms, vec![120000, 120000]);
    assert_eq!(s.current_player, 1);
    assert!(!s.finished);
}

#[test]
fn reads_project_decay_without_mutating() {
    let mut st = ClockStore::new();
    let code = st.create(2, 120);
    st.hit(code.as_str(), 0).unwrap();
    let a = st.get(code.as_str(), 10000).unwrap();
    let b = st.get(code.as_str(), 20000).unwrap();
    assert_eq!(a.remaining_ms, vec![110000, 120000]);
    assert_eq!(b.remaining_ms, vec![100000, 120000]);
    assert!(b.remaining_ms[0] <= a.remaining_ms[0]);
    // a later projection past expiry shows a finished clock ...
    let c = st.get(code.as_str(), 130000).unwrap();
    assert_eq!(c.remaining_ms, vec![0, 120000]);
    assert!(c.finished);
    // ... while the stored state is untouched by every one of those reads
    let again = st.get(code.as_str(), 10000).unwrap();
    assert_eq!(again.remaining_ms, vec![110000, 120000]);
    assert!(!again.finished);
}

#[test]
fn spec_example_scenario() {
    let mut st = ClockStore::new();
    let code = st.create(2, 120);
    let s0 = st.get(code.as_str(), 0).unwrap();
    assert_eq!(s0.remaining_ms, vec![120000, 120000]);
    assert!(!s0.started);
    st.hit(code.as_str(), 1000).unwrap();
    let s1 = st.hit(code.as_str(), 31000).unwrap();
    assert_eq!(s1.remaining_ms, vec![90000, 120000]);
    assert_eq!(s1.current_player, 1);
    let s2 = st.get(code.as_str(), 161000).unwrap();
    assert_eq!(s2.remaining_ms, vec![90000, 0]);
    assert!(s2.finished);
    // the stored clock still shows the last committed hit
    let s3 = st.get(code.as_str(), 31000).unwrap();
    assert_eq!(s3.remaining_ms, vec![90000, 120000]);
    assert!(!s3.finished);
}

#[test]
fn rename_changes_only_the_addressed_player() {
    let mut st = ClockStore::new();
    let code = st.create(3, 60);
    let s = st.rename(code.as_str(), 1, String::from("Bob")).unwrap();
    assert_eq!(s.player_names[0], "Player 0");
    assert_eq!(s.player_names[1], "Bob");
    assert_eq!(s.player_names[2], "Player 2");
    assert_eq!(s.remaining_ms, vec![60000, 60000, 60000]);
    assert_eq!(s.current_player, 0);
    assert!(!s.started);
}

#[test]
fn rename_out_of_range_fails_and_changes_nothing() {
    let mut st = ClockStore::new();
    let code = st.create(2, 60);
    let r = st.rename(code.as_str(), 2, String::from("Eve"));
    assert!(matches!(r, Err(StoreError::OutOfRange)));
    let s = st.get(code.as_str(), 0).unwrap();
    assert_eq!(s.player_names[0], "Player 0");
    assert_eq!(s.player_names[1], "Player 1");
}

#[test]
fn rename_works_in_any_lifecycle_state() {
    let mut st = ClockStore::new();
    let code = st.create(1, 1);
    st.hit(code.as_str(), 0).unwrap();
    st.hit(code.as_str(), 1000).unwrap();
    let s = st.rename(code.as_str(), 0, String::from("Ann")).unwrap();
    assert!(s.finished);
    assert_eq!(s.player_names[0], "Ann");
    assert_eq!(s.remaining_ms, vec![0]);
}

#[test]
fn undecodable_code_is_invalid() {
    let mut st = ClockStore::new();
    st.create(2, 60);
    assert!(matches!(st.get("no-such*code", 0), Err(StoreError::InvalidCode)));
    assert!(matches!(st.get("", 0), Err(StoreError::InvalidCode)));
    assert!(matches!(st.hit("!!", 0), Err(StoreError::InvalidCode)));
    assert!(matches!(
        st.rename("?", 0, String::from("x")),
        Err(StoreError::InvalidCode)
    ));
}

#[test]
fn decodable_code_without_clock_is_not_found() {
    let mut big = ClockStore::new();
    big.create(2, 60);
    let second = big.create(2, 60);
    let mut small = ClockStore::new();
    let first = small.create(2, 60);
    assert!(small.get(first.as_str(), 0).is_ok());
    assert!(matches!(small.get(second.as_str(), 0), Err(StoreError::NotFound)));
    assert!(matches!(small.hit(second.as_str(), 0), Err(StoreError::NotFound)));
    assert!(matches!(
        small.rename(second.as_str(), 0, String::from("x")),
        Err(StoreError::NotFound)
    ));
}

#[test]
fn codes_of_distinct_clocks_differ() {
    let mut st = ClockStore::new();
    let a = st.create(2, 60);
    let b = st.create(2, 60);
    let c = st.create(2, 60);
    assert_ne!(a, b);
    assert_ne!(b, c);
    assert_ne!(a, c);
    assert_eq!(st.len(), 3);
}

#[test]
fn interleaved_hits_on_one_store_lose_nothing() {
    // all callers go through one exclusively owned store, so any
    // interleaving is some serial order; the debits add up exactly
    let mut st = ClockStore::new();
    let code = st.create(2, 100);
    st.hit(code.as_str(), 0).unwrap();
    st.hit(code.as_str(), 10000).unwrap();
    st.hit(code.as_str(), 30000).unwrap();
    let s = st.hit(code.as_str(), 35000).unwrap();
    assert_eq!(s.remaining_ms, vec![85000, 80000]);
    assert_eq!(s.current_player, 1);
}

#[test]
fn broadcast_pushes_while_alive_and_stops_on_dead_codes() {
    let mut st = ClockStore::new();
    let code = st.create(2, 120);
    st.hit(code.as_str(), 0).unwrap();
    match broadcast_step(&st, code.as_str(), 30000) {
        BroadcastAction::Push(s) => {
            assert_eq!(s.remaining_ms, vec![90000, 120000]);
        }
        BroadcastAction::Stop => panic!("expected a push"),
    }
    assert!(matches!(
        broadcast_step(&st, "not a code", 0),
        BroadcastAction::Stop
    ));
    let mut other = ClockStore::new();
    other.create(2, 60);
    let far = other.create(2, 60);
    assert!(matches!(
        broadcast_step(&st, far.as_str(), 0),
        BroadcastAction::Stop
    ));
}
