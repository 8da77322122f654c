//! The application state, and the three moments of its life: start-up,
//! a frame, shutdown.

use crate::clock::Clock;
use crate::smoothing::{smooth, smooth_step};
use vstd::prelude::*;

verus! {

/// Thousandths of a pixel in one pixel.
pub const UNITS_PER_PIXEL: u64 = 1_000;

/// The value of a state that nothing was stored for: 2.7 pixels.
pub const DEFAULT_VALUE: u64 = 2_700;

/// The upper end of the slider: 1000 pixels. Its lower end is zero.
pub const SLIDER_MAX: u64 = 1_000_000;

/// What one click of the button adds to the value: 10 pixels.
pub const CLICK_STEP: u64 = 10_000;

/// Nanoseconds in one hundredth of a millisecond, the unit of the frame-time readout.
pub const NANOS_PER_READOUT_UNIT: u64 = 10_000;

/// The label of a state that nothing was stored for.
pub open spec fn default_label() -> Seq<char> {
    "Hello World!"@
}

/// The part of the state that outlives the process. A field that the stored
/// record did not hold is `None`.
#[derive(Clone, Debug, PartialEq, Eq)]
pub struct Persisted {
    pub label: Option<String>,
    pub value: Option<u64>,
}

/// A stored record as a mathematical value.
pub struct PersistedView {
    pub label: Option<Seq<char>>,
    pub value: Option<nat>,
}

impl View for Persisted {
    type V = PersistedView;

    open spec fn view(&self) -> PersistedView {
        PersistedView {
            label: match self.label {
                Some(text) => Some(text@),
                None => None,
            },
            value: match self.value {
                Some(v) => Some(v as nat),
                None => None,
            },
        }
    }
}

/// What was found in storage at start-up, as a mathematical value: `None`
/// where there was no storage, no record, or a record that could not be read.
pub open spec fn stored_view(stored: Option<Persisted>) -> Option<PersistedView> {
    match stored {
        Some(record) => Some(record@),
        None => None,
    }
}

/// The application state as a mathematical value.
pub struct MyAppView {
    /// The text of the text field.
    pub label: Seq<char>,
    /// The position of the slider and of the circle, in thousandths of a pixel.
    pub value: nat,
    /// When the latest frame began, in nanoseconds on the host's clock.
    pub last_frame: nat,
    /// The smoothed duration of a frame, in nanoseconds.
    pub frame_time: nat,
}

impl MyAppView {
    /// The state at start-up: the stored label and value where the record
    /// holds them and the defaults where it does not; the timing fields are
    /// always fresh.
    pub open spec fn initial(stored: Option<PersistedView>, now: nat) -> MyAppView {
        MyAppView {
            label: match stored {
                Some(PersistedView { label: Some(text), .. }) => text,
                _ => default_label(),
            },
            value: match stored {
                Some(PersistedView { value: Some(v), .. }) => v,
                _ => DEFAULT_VALUE as nat,
            },
            last_frame: now,
            frame_time: 0,
        }
    }

    /// The record that is stored for this state: label and value, nothing of the timing.
    pub open spec fn record(self) -> PersistedView {
        PersistedView { label: Some(self.label), value: Some(self.value) }
    }

    /// Time since the latest frame began; zero where the clock reads earlier than that.
    pub open spec fn elapsed(self, now: nat) -> nat {
        if now >= self.last_frame {
            (now - self.last_frame) as nat
        } else {
            0
        }
    }

    /// The state after a frame that begins at `now`.
    pub open spec fn after_frame(self, now: nat) -> MyAppView {
        MyAppView {
            label: self.label,
            value: self.value,
            last_frame: now,
            frame_time: smooth(self.frame_time, self.elapsed(now)),
        }
    }

    /// The state after a click of the button: ten pixels further, as far as the type reaches.
    pub open spec fn after_click(self) -> MyAppView {
        MyAppView {
            value: if self.value + CLICK_STEP <= u64::MAX {
                (self.value + CLICK_STEP) as nat
            } else {
                u64::MAX as nat
            },
            ..self
        }
    }

    /// The state after the slider was dragged to `requested`: the slider
    /// stops at its upper end.
    pub open spec fn after_slide(self, requested: nat) -> MyAppView {
        MyAppView {
            value: if requested <= SLIDER_MAX {
                requested
            } else {
                SLIDER_MAX as nat
            },
            ..self
        }
    }

    /// The state after the text field was edited to `text`.
    pub open spec fn after_edit(self, text: Seq<char>) -> MyAppView {
        MyAppView { label: text, ..self }
    }

    /// The frame-time readout in hundredths of a millisecond, rounded to the nearest.
    pub open spec fn readout(self) -> nat {
        ((self.frame_time + NANOS_PER_READOUT_UNIT / 2) / (NANOS_PER_READOUT_UNIT as int)) as nat
    }
}

/// What the host has to draw for one frame.
#[derive(Clone, Debug, PartialEq, Eq)]
pub struct Frame {
    /// The text of the text field.
    pub label: String,
    /// The position of the slider, in thousandths of a pixel.
    pub value: u64,
    /// The circle's horizontal distance from its anchor, in thousandths of a pixel.
    pub circle_offset: u64,
    /// The time shown, in nanoseconds on the host's clock.
    pub now: u64,
    /// The smoothed frame time shown, in hundredths of a millisecond.
    pub frame_time_readout: u64,
    /// Whether the host is to schedule the next frame at once.
    pub repaint: bool,
}

/// The application state.
#[derive(Clone, Debug)]
pub struct MyApp {
    label: String,
    value: u64,
    last_frame: u64,
    frame_time: u64,
}

impl View for MyApp {
    type V = MyAppView;

    closed spec fn view(&self) -> MyAppView {
        MyAppView {
            label: self.label@,
            value: self.value as nat,
            last_frame: self.last_frame as nat,
            frame_time: self.frame_time as nat,
        }
    }
}

impl MyApp {
    /// The state for a process that found nothing stored, started at `now`.
    pub fn with_defaults(now: u64) -> (app: MyApp)
        ensures
            app@ == MyAppView::initial(None, now as nat),
            app@.label == default_label(),
            app@.value == DEFAULT_VALUE,
            app@.last_frame == now,
            app@.frame_time == 0,
    {
        MyApp { label: "Hello World!".to_owned(), value: DEFAULT_VALUE, last_frame: now, frame_time: 0 }
    }

    /// The state at start-up. `stored` is the record that was read from
    /// storage, or `None` where there was no storage, no record under the
    /// application's key, or a record that could not be decoded: none of
    /// these keeps the application from starting. Whatever was stored, the
    /// timing fields start afresh.
    pub fn new(stored: Option<Persisted>, now: u64) -> (app: MyApp)
        ensures
            app@ == MyAppView::initial(stored_view(stored), now as nat),
            app@.last_frame == now,
            app@.frame_time == 0,
    {
        let mut app = MyApp::with_defaults(now);
        if let Some(record) = stored {
            if let Some(text) = record.label {
                app.label = text;
            }
            if let Some(v) = record.value {
                app.value = v;
            }
        }
        app
    }

    /// The state at start-up, at the time that the clock reads: as `new` at
    /// that time, which the state keeps as the beginning of its latest frame.
    pub fn start(stored: Option<Persisted>, clock: &Clock) -> (app: MyApp)
        ensures
            app@ == MyAppView::initial(stored_view(stored), app@.last_frame),
    {
        let now: u64 = clock.now();
        MyApp::new(stored, now)
    }

    /// The record to store at shutdown.
    pub fn save(&self) -> (record: Persisted)
        ensures
            record@ == self@.record(),
    {
        Persisted { label: Some(self.label.clone()), value: Some(self.value) }
    }

    /// One frame that begins at `now`: measures the time since the previous
    /// frame, feeds it to the frame-time filter, and says what is to be drawn.
    /// The host is always asked for the next frame at once.
    pub fn on_frame(&mut self, now: u64) -> (frame: Frame)
        ensures
            final(self)@ == old(self)@.after_frame(now as nat),
            frame.label@ == final(self)@.label,
            frame.value == final(self)@.value,
            frame.circle_offset == final(self)@.value,
            frame.now == now,
            frame.frame_time_readout == final(self)@.readout(),
            frame.repaint,
    {
        let elapsed: u64 = if now >= self.last_frame {
            now - self.last_frame
        } else {
            0
        };
        self.frame_time = smooth_step(self.frame_time, elapsed);
        self.last_frame = now;
        Frame {
            label: self.label.clone(),
            value: self.value,
            circle_offset: self.value,
            now,
            frame_time_readout: self.frame_time_readout(),
            repaint: true,
        }
    }

    /// One frame that begins when the clock is read: the frame says in `now`
    /// what the clock read, and the rest is as in `on_frame` at that time.
    pub fn update(&mut self, clock: &Clock) -> (frame: Frame)
        ensures
            final(self)@ == old(self)@.after_frame(frame.now as nat),
            frame.label@ == final(self)@.label,
            frame.value == final(self)@.value,
            frame.circle_offset == final(self)@.value,
            frame.frame_time_readout == final(self)@.readout(),
            frame.repaint,
    {
        let now: u64 = clock.now();
        self.on_frame(now)
    }

    /// A click of the button.
    pub fn click(&mut self)
        ensures
            final(self)@ == old(self)@.after_click(),
    {
        self.value = if self.value <= u64::MAX - CLICK_STEP {
            self.value + CLICK_STEP
        } else {
            u64::MAX
        };
    }

    /// A drag of the slider to `requested`.
    pub fn slide(&mut self, requested: u64)
        ensures
            final(self)@ == old(self)@.after_slide(requested as nat),
            final(self)@.value <= SLIDER_MAX,
    {
        self.value = if requested <= SLIDER_MAX {
            requested
        } else {
            SLIDER_MAX
        };
    }

    /// An edit of the text field.
    pub fn edit(&mut self, text: String)
        ensures
            final(self)@ == old(self)@.after_edit(text@),
    {
        self.label = text;
    }

    /// The text of the text field.
    pub fn label(&self) -> (text: &str)
        ensures
            text@ == self@.label,
    {
        self.label.as_str()
    }

    /// The position of the slider and of the circle, in thousandths of a pixel.
    pub fn value(&self) -> (v: u64)
        ensures
            v == self@.value,
    {
        self.value
    }

    /// When the latest frame began, in nanoseconds on the host's clock.
    pub fn last_frame(&self) -> (t: u64)
        ensures
            t == self@.last_frame,
    {
        self.last_frame
    }

    /// The smoothed duration of a frame, in nanoseconds.
    pub fn frame_time(&self) -> (t: u64)
        ensures
            t == self@.frame_time,
    {
        self.frame_time
    }

    /// The smoothed frame time in hundredths of a millisecond, rounded to the nearest.
    pub fn frame_time_readout(&self) -> (r: u64)
        ensures
            r == self@.readout(),
    {
        let whole: u64 = self.frame_time / NANOS_PER_READOUT_UNIT;
        let rest: u64 = self.frame_time % NANOS_PER_READOUT_UNIT;
        if rest >= NANOS_PER_READOUT_UNIT / 2 {
            whole + 1
        } else {
            whole
        }
    }
}

} // verus!
