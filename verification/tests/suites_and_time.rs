//! Suite numbers and the time of the system.

use construct_core::crypto::suite_id::SuiteID;
use construct_core::orchestration::clock::Clock;
use construct_core::utils::time::{
    current_timestamp, milliseconds_of, now, seconds_of, timestamp_of, SystemClock,
};

#[test]
fn suites_are_one_two_and_three() {
    for id in 0..=u16::MAX {
        assert_eq!(SuiteID::new(id).is_ok(), (1..=3).contains(&id));
        assert_eq!(SuiteID::is_supported(id), SuiteID::new(id).is_ok());
    }
    assert_eq!(SuiteID::new(7), Err(7));
}

#[test]
fn suites_convert_to_and_from_their_numbers() {
    for id in 1..=3u16 {
        assert_eq!(SuiteID::try_from(id), SuiteID::new(id));
        assert_eq!(SuiteID::from_u16_unchecked(id).as_u16(), id);
        let back: u16 = SuiteID::new(id).unwrap().into();
        assert_eq!(back, id);
    }
    assert_eq!(SuiteID::try_from(0), Err(0));
    assert_eq!(SuiteID::try_from(4), Err(4));
}

#[test]
fn a_suite_is_exactly_one_kind() {
    for id in 1..=3u16 {
        let s = SuiteID::new(id).unwrap();
        assert_eq!(s.as_u16(), id);
        let kinds = [s.is_classic(), s.is_pq_hybrid(), s.is_pq_ratchet()];
        assert_eq!(kinds.iter().filter(|k| **k).count(), 1);
        assert!(kinds[id as usize - 1]);
    }
    assert_eq!(SuiteID::new(1).unwrap().name(), "CLASSIC");
    assert_eq!(SuiteID::new(2).unwrap().name(), "PQ_HYBRID");
    assert_eq!(SuiteID::new(3).unwrap().name(), "PQ_RATCHET");
}

#[test]
fn a_clock_before_the_epoch_reads_zero() {
    assert_eq!(seconds_of(None), 0);
    assert_eq!(seconds_of(Some(17)), 17);
    assert_eq!(timestamp_of(None), 0);
    assert_eq!(timestamp_of(Some(17)), 17);
    assert_eq!(timestamp_of(Some(u64::MAX)), -1);
    assert_eq!(milliseconds_of(None), 0);
    assert_eq!(milliseconds_of(Some((1 << 64) + 5)), 5);
}

#[test]
fn the_system_clock_reads_the_present() {
    let before = now();
    assert!(before > 1_600_000_000);
    let signed = current_timestamp();
    let millis = SystemClock.now_ms();
    let after = now();
    assert!(before as i64 <= signed && signed <= after as i64);
    assert!(before <= millis / 1000 && millis / 1000 <= after);
}
