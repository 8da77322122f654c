use frame_lifecycle::clock::{clock_reading, Clock};
use frame_lifecycle::smoothing::smooth_step;
use frame_lifecycle::state::{
    Frame, MyApp, Persisted, CLICK_STEP, DEFAULT_VALUE, SLIDER_MAX, UNITS_PER_PIXEL,
};

fn pixels(units: u64) -> f64 {
    units as f64 / UNITS_PER_PIXEL as f64
}

fn record(label: &str, value: u64) -> Persisted {
    Persisted { label: Some(label.to_owned()), value: Some(value) }
}

#[test]
fn starts_from_defaults_without_storage() {
    let app = MyApp::new(None, 0);
    assert_eq!(app.label(), "Hello World!");
    assert_eq!(app.value(), 2_700);
    assert_eq!(pixels(app.value()), 2.7);
    assert_eq!(app.last_frame(), 0);
    assert_eq!(app.frame_time(), 0);
}

#[test]
fn with_defaults_is_a_start_without_storage() {
    let fresh = MyApp::with_defaults(77);
    let started = MyApp::new(None, 77);
    assert_eq!(fresh.label(), started.label());
    assert_eq!(fresh.value(), started.value());
    assert_eq!(fresh.value(), DEFAULT_VALUE);
    assert_eq!(fresh.last_frame(), 77);
    assert_eq!(fresh.frame_time(), 0);
}

#[test]
fn starts_from_stored_record() {
    let app = MyApp::new(Some(record("x", 500_000)), 123);
    assert_eq!(app.label(), "x");
    assert_eq!(app.value(), 500_000);
    assert_eq!(pixels(app.value()), 500.0);
    assert_eq!(app.last_frame(), 123);
    assert_eq!(app.frame_time(), 0);
}

#[test]
fn missing_value_is_defaulted() {
    let stored = Persisted { label: Some("only a label".to_owned()), value: None };
    let app = MyApp::new(Some(stored), 1);
    assert_eq!(app.label(), "only a label");
    assert_eq!(app.value(), 2_700);
}

#[test]
fn missing_label_is_defaulted() {
    let stored = Persisted { label: None, value: Some(42_000) };
    let app = MyApp::new(Some(stored), 1);
    assert_eq!(app.label(), "Hello World!");
    assert_eq!(app.value(), 42_000);
}

#[test]
fn empty_record_gives_defaults() {
    let stored = Persisted { label: None, value: None };
    let app = MyApp::new(Some(stored), 9);
    assert_eq!(app.label(), "Hello World!");
    assert_eq!(app.value(), 2_700);
    assert_eq!(app.last_frame(), 9);
}

#[test]
fn stored_value_is_taken_as_it_is() {
    let app = MyApp::new(Some(record("far out", 5_000_000)), 0);
    assert_eq!(app.value(), 5_000_000);
    let app = MyApp::new(Some(record("", 0)), 0);
    assert_eq!(app.label(), "");
    assert_eq!(app.value(), 0);
}

#[test]
fn click_adds_ten_pixels() {
    let mut app = MyApp::new(None, 0);
    app.click();
    assert_eq!(app.value(), 12_700);
    assert_eq!(pixels(app.value()), 12.7);
    assert_eq!(app.label(), "Hello World!");
    app.click();
    assert_eq!(app.value(), 22_700);
}

#[test]
fn click_may_pass_the_end_of_the_slider() {
    let mut app = MyApp::new(Some(record("x", 995_000)), 0);
    app.click();
    assert_eq!(app.value(), 1_005_000);
}

#[test]
fn click_stops_at_the_largest_value() {
    let mut app = MyApp::new(Some(record("x", u64::MAX - CLICK_STEP)), 0);
    app.click();
    assert_eq!(app.value(), u64::MAX);
    let mut app = MyApp::new(Some(record("x", u64::MAX - 5)), 0);
    app.click();
    assert_eq!(app.value(), u64::MAX);
    app.click();
    assert_eq!(app.value(), u64::MAX);
}

#[test]
fn slide_stops_at_a_thousand_pixels() {
    let mut app = MyApp::new(None, 0);
    app.slide(1_500_000);
    assert_eq!(app.value(), 1_000_000);
    assert_eq!(app.value(), SLIDER_MAX);
    assert_eq!(pixels(app.value()), 1000.0);
    app.slide(u64::MAX);
    assert_eq!(app.value(), 1_000_000);
}

#[test]
fn slide_within_range_sets_the_value() {
    let mut app = MyApp::new(None, 0);
    app.slide(0);
    assert_eq!(app.value(), 0);
    app.slide(333_333);
    assert_eq!(app.value(), 333_333);
    app.slide(1_000_000);
    assert_eq!(app.value(), 1_000_000);
    app.slide(1_000_001);
    assert_eq!(app.value(), 1_000_000);
    assert_eq!(app.label(), "Hello World!");
}

#[test]
fn slide_brings_a_value_back_into_range() {
    let mut app = MyApp::new(Some(record("x", 5_000_000)), 0);
    app.slide(4_999_000);
    assert_eq!(app.value(), 1_000_000);
}

#[test]
fn edit_replaces_the_label() {
    let mut app = MyApp::new(None, 0);
    app.edit("neurotic crabs".to_owned());
    assert_eq!(app.label(), "neurotic crabs");
    assert_eq!(app.value(), 2_700);
    app.edit(String::new());
    assert_eq!(app.label(), "");
}

#[test]
fn save_holds_label_and_value() {
    let mut app = MyApp::new(None, 0);
    assert_eq!(app.save(), record("Hello World!", 2_700));
    app.edit("y".to_owned());
    app.click();
    assert_eq!(app.save(), record("y", 12_700));
}

#[test]
fn save_then_start_gives_label_and_value_back() {
    let mut app = MyApp::new(None, 10);
    app.edit("kept".to_owned());
    app.slide(640_000);
    app.on_frame(20_000_000);
    app.on_frame(40_000_000);
    assert!(app.frame_time() > 0);
    let again = MyApp::new(Some(app.save()), 99);
    assert_eq!(again.label(), "kept");
    assert_eq!(again.value(), 640_000);
    assert_eq!(again.last_frame(), 99);
    assert_eq!(again.frame_time(), 0);
    assert_eq!(again.save(), app.save());
}

#[test]
fn save_twice_gives_the_same_record() {
    let mut app = MyApp::new(Some(record("twice", 17)), 0);
    let first = app.save();
    let second = app.save();
    assert_eq!(first, second);
    app.on_frame(1_000_000);
    assert_eq!(app.save(), first);
}

#[test]
fn frame_says_what_to_draw() {
    let mut app = MyApp::new(Some(record("shown", 250_000)), 1_000);
    let frame = app.on_frame(500_001_000);
    assert_eq!(
        frame,
        Frame {
            label: "shown".to_owned(),
            value: 250_000,
            circle_offset: 250_000,
            now: 500_001_000,
            frame_time_readout: 1_000,
            repaint: true,
        }
    );
    assert_eq!(app.last_frame(), 500_001_000);
    assert_eq!(app.frame_time(), 10_000_000);
    assert_eq!(app.frame_time_readout(), 1_000);
}

#[test]
fn every_frame_asks_for_the_next() {
    let mut app = MyApp::new(None, 0);
    let mut now: u64 = 0;
    for step in [0u64, 1, 16_000_000, 0, 5_000_000_000] {
        now += step;
        assert!(app.on_frame(now).repaint);
    }
}

#[test]
fn first_frame_at_the_time_of_the_start() {
    let mut app = MyApp::new(None, 5_000);
    let frame = app.on_frame(5_000);
    assert_eq!(app.frame_time(), 0);
    assert_eq!(frame.frame_time_readout, 0);
    assert_eq!(app.last_frame(), 5_000);
}

#[test]
fn frame_smooths_the_time_between_frames() {
    let mut app = MyApp::new(None, 0);
    app.on_frame(16_666_667);
    assert_eq!(app.frame_time(), 333_333);
    app.on_frame(33_333_334);
    assert_eq!(app.frame_time(), 659_999);
    assert_eq!(app.last_frame(), 33_333_334);
}

#[test]
fn clock_that_steps_back_counts_as_no_time() {
    let mut app = MyApp::new(None, 1_000);
    app.on_frame(50_001_000);
    assert_eq!(app.frame_time(), 1_000_000);
    app.on_frame(10);
    assert_eq!(app.frame_time(), 980_000);
    assert_eq!(app.last_frame(), 10);
}

#[test]
fn frame_at_the_end_of_the_clock() {
    let mut app = MyApp::new(None, 0);
    app.on_frame(u64::MAX);
    assert_eq!(app.frame_time(), u64::MAX / 50);
    assert_eq!(app.last_frame(), u64::MAX);
    app.on_frame(0);
    app.on_frame(u64::MAX);
    assert_eq!(app.frame_time_readout(), (app.frame_time() as u128 + 5_000) as u64 / 10_000);
}

#[test]
fn readout_rounds_to_the_nearest_hundredth_of_a_millisecond() {
    let mut app = MyApp::new(None, 0);
    app.on_frame(50 * 12_344_999);
    assert_eq!(app.frame_time(), 12_344_999);
    assert_eq!(app.frame_time_readout(), 1_234);

    let mut app = MyApp::new(None, 0);
    app.on_frame(50 * 12_345_000);
    assert_eq!(app.frame_time(), 12_345_000);
    assert_eq!(app.frame_time_readout(), 1_235);

    let mut app = MyApp::new(None, 0);
    app.on_frame(50 * 4_999);
    assert_eq!(app.frame_time_readout(), 0);
    app.on_frame(50 * 4_999 + 99);
    assert_eq!(app.frame_time(), 4_901);
    assert_eq!(app.frame_time_readout(), 0);
}

#[test]
fn frames_leave_label_and_value_alone() {
    let mut app = MyApp::new(Some(record("still", 123_456)), 0);
    for i in 1..=100u64 {
        let frame = app.on_frame(i * 16_000_000);
        assert_eq!(frame.label, "still");
        assert_eq!(frame.value, 123_456);
        assert_eq!(frame.circle_offset, 123_456);
    }
    assert_eq!(app.label(), "still");
    assert_eq!(app.value(), 123_456);
}

#[test]
fn circle_follows_the_value() {
    let mut app = MyApp::new(None, 0);
    app.click();
    let frame = app.on_frame(1);
    assert_eq!(frame.circle_offset, 12_700);
    app.slide(2_000_000);
    let frame = app.on_frame(2);
    assert_eq!(frame.circle_offset, 1_000_000);
    assert_eq!(frame.value, frame.circle_offset);
}

#[test]
fn clock_does_not_run_backwards() {
    let clock = Clock::start();
    let mut before = clock.now();
    for _ in 0..1_000 {
        let now = clock.now();
        assert!(now >= before);
        before = now;
    }
}

#[test]
fn clock_counts_from_its_start() {
    let clock = Clock::start();
    let first = clock.now();
    assert!(first < 10_000_000_000);
    let mut spin: u64 = 0;
    while clock.now() == first {
        spin += 1;
        assert!(spin < 1_000_000_000);
    }
    assert!(clock.now() > first);
}

#[test]
fn start_reads_the_clock() {
    let clock = Clock::start();
    let before = clock.now();
    let app = MyApp::start(Some(record("x", 500_000)), &clock);
    let after = clock.now();
    assert_eq!(app.label(), "x");
    assert_eq!(app.value(), 500_000);
    assert_eq!(app.frame_time(), 0);
    assert!(before <= app.last_frame() && app.last_frame() <= after);

    let app = MyApp::start(None, &clock);
    assert_eq!(app.label(), "Hello World!");
    assert_eq!(app.value(), 2_700);
    assert_eq!(app.frame_time(), 0);
}

#[test]
fn update_is_a_frame_at_the_time_of_the_clock() {
    let clock = Clock::start();
    let mut app = MyApp::start(Some(record("shown", 250_000)), &clock);
    let mut smoothed: u64 = 0;
    for _ in 0..100 {
        let last = app.last_frame();
        let before = clock.now();
        let frame = app.update(&clock);
        let after = clock.now();
        assert!(before <= frame.now && frame.now <= after);
        smoothed = smooth_step(smoothed, frame.now - last);
        assert_eq!(app.frame_time(), smoothed);
        assert_eq!(app.last_frame(), frame.now);
        assert_eq!(frame.label, "shown");
        assert_eq!(frame.value, 250_000);
        assert_eq!(frame.circle_offset, 250_000);
        assert_eq!(frame.frame_time_readout, app.frame_time_readout());
        assert!(frame.repaint);
    }
}

#[test]
fn clock_reading_stops_at_the_largest_value() {
    assert_eq!(clock_reading(0), 0);
    assert_eq!(clock_reading(1), 1);
    assert_eq!(clock_reading(16_666_667), 16_666_667);
    assert_eq!(clock_reading(u64::MAX as u128 - 1), u64::MAX - 1);
    assert_eq!(clock_reading(u64::MAX as u128), u64::MAX);
    assert_eq!(clock_reading(u64::MAX as u128 + 1), u64::MAX);
    assert_eq!(clock_reading(u128::MAX), u64::MAX);
}
