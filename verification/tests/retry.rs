use mhz19::driver::ReadAction;
use mhz19::driver::ReadState;
use mhz19::frame::crc8;

/// A read reply carrying the given concentration, with a correct checksum.
fn ack_frame(ppm: u16) -> [u8; 9] {
    let mut frame = [0xff, 0x86, (ppm >> 8) as u8, (ppm & 0xff) as u8, 0, 0, 0, 0, 0];
    frame[8] = crc8(&frame);
    frame
}

/// A frame whose stored checksum is wrong.
fn corrupt_frame() -> [u8; 9] {
    let mut frame = ack_frame(600);
    frame[8] = frame[8].wrapping_add(1);
    frame
}

/// A frame with a correct checksum that is not a read acknowledgement.
fn irrelevant_frame() -> [u8; 9] {
    let mut frame = [0xff, 0x99, 0x00, 0x00, 0x00, 0x00, 0x00, 0x00, 0x00];
    frame[8] = crc8(&frame);
    frame
}

#[test]
fn read_completes_on_valid_ack() {
    let mut state = ReadState::new();
    assert_eq!(state.step(&ack_frame(1099)), ReadAction::Done(1099));
    assert_eq!(state.failures, 0);
}

#[test]
fn read_retries_then_recovers_within_budget() {
    let mut state = ReadState::new();
    for _ in 0..8 {
        assert_eq!(state.step(&corrupt_frame()), ReadAction::RetryCorrupt);
    }
    assert_eq!(state.step(&ack_frame(412)), ReadAction::Done(412));
    assert_eq!(state.failures, 0);
}

#[test]
fn read_exhausts_on_ninth_corrupt() {
    let mut state = ReadState::new();
    for _ in 0..8 {
        assert_eq!(state.step(&corrupt_frame()), ReadAction::RetryCorrupt);
    }
    assert_eq!(state.step(&corrupt_frame()), ReadAction::Exhausted);
}

#[test]
fn irrelevant_frame_is_not_counted() {
    let mut state = ReadState::new();
    assert_eq!(state.step(&irrelevant_frame()), ReadAction::RetryIgnore);
    assert_eq!(state.failures, 0);
    // eight corruptions still fit in the budget afterwards
    for _ in 0..8 {
        assert_eq!(state.step(&corrupt_frame()), ReadAction::RetryCorrupt);
    }
    assert_eq!(state.step(&ack_frame(700)), ReadAction::Done(700));
}

#[test]
fn irrelevant_frame_does_not_reset_the_count() {
    let mut state = ReadState::new();
    for _ in 0..8 {
        assert_eq!(state.step(&corrupt_frame()), ReadAction::RetryCorrupt);
    }
    // an intact but irrelevant frame leaves the count where it was
    assert_eq!(state.step(&irrelevant_frame()), ReadAction::RetryIgnore);
    assert_eq!(state.failures, 8);
    // so the very next corruption exhausts the budget
    assert_eq!(state.step(&corrupt_frame()), ReadAction::Exhausted);
}
