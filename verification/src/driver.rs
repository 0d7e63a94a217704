//! The bounded-retry state machine behind a concentration read.
//!
//! A read call sends the read command, waits the settle interval, reads one
//! 9-byte response frame and hands it to [`ReadState::step`], which decides
//! whether the read is complete, has exhausted its retry budget, or must
//! resend. The surrounding application owns the serial channel and performs
//! the sends, reads and waits; all decisions are made here.
//!
//! Only corrupt frames are counted against the retry budget of eight. An
//! intact frame that is no read acknowledgement is retried without bound
//! and without being counted: a device that keeps answering with unrelated
//! but well-checksummed frames keeps the read looping. This matches the
//! sensor's wire behaviour and is kept deliberately; callers wanting an
//! overall bound must impose their own timeout around the read.

use vstd::prelude::*;

use crate::frame::crc8;
use crate::frame::frame_valid;
use crate::frame::is_read_ack;
use crate::frame::reply_ppm;

verus! {

/// What the caller must do next after one response frame was examined.
#[derive(Clone, Copy, Debug, PartialEq, Eq, Structural)]
pub enum ReadAction {
    /// A validated read acknowledgement arrived: the read completes with
    /// this concentration in ppm.
    Done(u16),
    /// The retry budget for corrupt frames is spent: the read fails.
    Exhausted,
    /// The frame failed its checksum: drain whatever bytes are still
    /// pending, wait the settle interval, and resend the read command.
    RetryCorrupt,
    /// The frame was intact but was no read acknowledgement: wait the
    /// settle interval and resend, without counting a corruption.
    RetryIgnore,
}

/// The action taken on one response frame, as a function of the number of
/// corrupt frames seen so far in this read call.
pub open spec fn step_action(failures: u8, bytes: Seq<u8>) -> ReadAction {
    if !frame_valid(bytes) {
        if failures >= 8 {
            ReadAction::Exhausted
        } else {
            ReadAction::RetryCorrupt
        }
    } else if is_read_ack(bytes) {
        ReadAction::Done(reply_ppm(bytes))
    } else {
        ReadAction::RetryIgnore
    }
}

/// The corruption count after one response frame: a corrupt frame raises
/// it, a validated read acknowledgement resets it, and an intact but
/// irrelevant frame leaves it untouched.
pub open spec fn step_failures(failures: u8, bytes: Seq<u8>) -> u8 {
    if !frame_valid(bytes) {
        if failures >= 8 {
            failures
        } else {
            (failures + 1) as u8
        }
    } else if is_read_ack(bytes) {
        0
    } else {
        failures
    }
}

/// The retry state of one read call: how many corrupt frames have arrived
/// since the call began. The state is created fresh for each call and
/// discarded when the call returns.
pub struct ReadState {
    /// Corrupt frames seen so far in this read call.
    pub failures: u8,
}

impl ReadState {
    /// A fresh state, with no corruption seen.
    pub fn new() -> (r: ReadState)
        ensures
            r.failures == 0,
    {
        ReadState { failures: 0 }
    }

    /// Examines one response frame and decides how the read goes on.
    ///
    /// A corrupt frame is counted and retried until eight have been seen;
    /// the ninth exhausts the budget. An intact frame that is no read
    /// acknowledgement is retried without being counted. An intact read
    /// acknowledgement completes the read and resets the count.
    pub fn step(&mut self, buffer: &[u8; 9]) -> (r: ReadAction)
        ensures
            r == step_action(old(self).failures, buffer@),
            final(self).failures == step_failures(old(self).failures, buffer@),
            frame_valid(buffer@) && is_read_ack(buffer@) ==> r == ReadAction::Done(
                reply_ppm(buffer@),
            ) && final(self).failures == 0,
            frame_valid(buffer@) && !is_read_ack(buffer@) ==> r == ReadAction::RetryIgnore
                && final(self).failures == old(self).failures,
            !frame_valid(buffer@) && old(self).failures < 8 ==> r == ReadAction::RetryCorrupt
                && final(self).failures == old(self).failures + 1,
            !frame_valid(buffer@) && old(self).failures >= 8 ==> r == ReadAction::Exhausted,
    {
        let crc = crc8(buffer);
        if crc != buffer[8] {
            if self.failures >= 8 {
                ReadAction::Exhausted
            } else {
                self.failures = self.failures + 1;
                ReadAction::RetryCorrupt
            }
        } else if buffer[0] == 0xff && buffer[1] == 0x86 {
            self.failures = 0;
            ReadAction::Done((buffer[2] as u16) * 256 + (buffer[3] as u16))
        } else {
            ReadAction::RetryIgnore
        }
    }
}

/// The corruption count after a whole sequence of response frames.
pub open spec fn run_failures(failures: u8, frames: Seq<Seq<u8>>) -> u8
    decreases frames.len(),
{
    if frames.len() == 0 {
        failures
    } else {
        run_failures(step_failures(failures, frames[0]), frames.subrange(1, frames.len() as int))
    }
}

proof fn lemma_run_all_corrupt(failures: u8, frames: Seq<Seq<u8>>)
    requires
        forall|k: int| 0 <= k < frames.len() ==> !frame_valid(frames[k]),
        failures + frames.len() <= 8,
    ensures
        run_failures(failures, frames) == failures + frames.len(),
    decreases frames.len(),
{
    if frames.len() > 0 {
        let rest = frames.subrange(1, frames.len() as int);
        assert forall|k: int| 0 <= k < rest.len() implies !frame_valid(rest[k]) by {
            assert(rest[k] == frames[k + 1]);
        }
        lemma_run_all_corrupt((failures + 1) as u8, rest);
    }
}

/// A read recovers within its budget: when at most eight corrupt frames
/// arrive and then an intact read acknowledgement, every corrupt frame is
/// answered with a resend and the acknowledgement completes the read with
/// the decoded concentration — eight corruptions never exhaust the budget.
pub proof fn lemma_read_recovers_within_budget(corrupt: Seq<Seq<u8>>, ack: Seq<u8>)
    requires
        corrupt.len() <= 8,
        forall|k: int| 0 <= k < corrupt.len() ==> !frame_valid(corrupt[k]),
        frame_valid(ack),
        is_read_ack(ack),
    ensures
        forall|k: int|
            0 <= k < corrupt.len() ==> step_action(run_failures(0, corrupt.take(k)), corrupt[k])
                == ReadAction::RetryCorrupt,
        step_action(run_failures(0, corrupt), ack) == ReadAction::Done(reply_ppm(ack)),
{
    assert forall|k: int|
        0 <= k < corrupt.len() implies step_action(run_failures(0, corrupt.take(k)), corrupt[k])
        == ReadAction::RetryCorrupt by {
        let prefix = corrupt.take(k);
        assert forall|j: int| 0 <= j < prefix.len() implies !frame_valid(prefix[j]) by {
            assert(prefix[j] == corrupt[j]);
        }
        lemma_run_all_corrupt(0, prefix);
    }
}

/// Nine consecutive corrupt frames end a read: the first eight are each
/// answered with a resend, and the ninth exhausts the retry budget.
pub proof fn lemma_read_exhausts_on_ninth(frames: Seq<Seq<u8>>)
    requires
        frames.len() == 9,
        forall|k: int| 0 <= k < frames.len() ==> !frame_valid(frames[k]),
    ensures
        forall|k: int|
            0 <= k < 8 ==> step_action(run_failures(0, frames.take(k)), frames[k])
                == ReadAction::RetryCorrupt,
        step_action(run_failures(0, frames.take(8)), frames[8]) == ReadAction::Exhausted,
{
    assert forall|k: int|
        0 <= k <= 8 implies run_failures(0, frames.take(k)) == k by {
        let prefix = frames.take(k);
        assert forall|j: int| 0 <= j < prefix.len() implies !frame_valid(prefix[j]) by {
            assert(prefix[j] == frames[j]);
        }
        lemma_run_all_corrupt(0, prefix);
    }
}

} // verus!
