//! What holds of the state across start-up, frames and shutdown.

use crate::smoothing::smoothed_after;
use crate::state::{default_label, MyAppView, PersistedView, DEFAULT_VALUE};
use vstd::prelude::*;

verus! {

/// The state after `frames` frames that follow each other at a distance of
/// `interval`, the first one `interval` after the latest frame of `start`.
pub open spec fn after_steady_frames(start: MyAppView, interval: nat, frames: nat) -> MyAppView
    decreases frames,
{
    if frames == 0 {
        start
    } else {
        let before = after_steady_frames(start, interval, (frames - 1) as nat);
        before.after_frame(before.last_frame + interval)
    }
}

/// Where nothing usable was stored, the application starts from the
/// defaults: the greeting, 2.7 pixels, the current time and a frame time of zero.
pub proof fn lemma_start_without_record(now: nat)
    ensures
        MyAppView::initial(None, now) == (MyAppView {
            label: default_label(),
            value: DEFAULT_VALUE as nat,
            last_frame: now,
            frame_time: 0,
        }),
{
}

/// Where a record was stored, the application starts with the label and the
/// value that the record holds, and with the default for each that it lacks.
/// The timing fields never come from the record.
pub proof fn lemma_start_from_record(record: PersistedView, now: nat)
    ensures
        record.label.is_some() ==> MyAppView::initial(Some(record), now).label
            == record.label.unwrap(),
        record.label.is_none() ==> MyAppView::initial(Some(record), now).label == default_label(),
        record.value.is_some() ==> MyAppView::initial(Some(record), now).value
            == record.value.unwrap(),
        record.value.is_none() ==> MyAppView::initial(Some(record), now).value == DEFAULT_VALUE,
        MyAppView::initial(Some(record), now).last_frame == now,
        MyAppView::initial(Some(record), now).frame_time == 0,
{
}

/// Storing a state and starting from what was stored gives the label and the
/// value back, whatever the timing fields were and whenever the start happens.
pub proof fn lemma_store_then_start(state: MyAppView, now: nat)
    ensures
        MyAppView::initial(Some(state.record()), now).label == state.label,
        MyAppView::initial(Some(state.record()), now).value == state.value,
        MyAppView::initial(Some(state.record()), now).last_frame == now,
        MyAppView::initial(Some(state.record()), now).frame_time == 0,
        MyAppView::initial(Some(state.record()), now).record() == state.record(),
{
}

/// The stored record is a function of the label and the value alone: two
/// records of one state are equal, and so are the records of two states that
/// differ only in their timing fields, such as a state before and after a frame.
pub proof fn lemma_record_repeats(
    state: MyAppView,
    first: PersistedView,
    second: PersistedView,
    now: nat,
)
    requires
        first == state.record(),
        second == state.record(),
    ensures
        first == second,
        state.after_frame(now).record() == first,
{
}

/// Frames leave the label and the value alone.
pub proof fn lemma_frames_keep_contents(start: MyAppView, interval: nat, frames: nat)
    ensures
        after_steady_frames(start, interval, frames).label == start.label,
        after_steady_frames(start, interval, frames).value == start.value,
        after_steady_frames(start, interval, frames).last_frame == start.last_frame + frames
            * interval,
    decreases frames,
{
    if frames > 0 {
        lemma_frames_keep_contents(start, interval, (frames - 1) as nat);
        assert((frames - 1) * interval + interval == frames * interval) by (nonlinear_arith);
    }
}

/// From a frame time of zero, frames at a constant distance drive the frame
/// time through the values of the filter under a constant sample.
pub proof fn lemma_steady_frames_smooth(start: MyAppView, interval: nat, frames: nat)
    requires
        start.frame_time == 0,
    ensures
        after_steady_frames(start, interval, frames).frame_time == smoothed_after(
            interval,
            frames,
        ),
    decreases frames,
{
    if frames > 0 {
        lemma_steady_frames_smooth(start, interval, (frames - 1) as nat);
        let before = after_steady_frames(start, interval, (frames - 1) as nat);
        assert(before.elapsed(before.last_frame + interval) == interval);
    }
}

} // verus!
