use std::sync::atomic::{AtomicUsize, Ordering};

use aleo_std::span::Span;
use aleo_std::timer::{Timer, TimerState};

fn plain() {
    colored::control::set_override(false);
}

fn text_of(nanos: u64) -> String {
    Span::from_nanos(nanos).text()
}

#[test]
fn test_timer_finish() {
    let depth = AtomicUsize::new(0);
    let mut timer = Timer::new("tests/timer.rs", "timer", 20, "Hello", None, &depth);
    if let Some(ref mut timer) = timer {
        timer.finish(None);
    }
    assert_eq!(depth.load(Ordering::SeqCst), 0);
}

#[test]
fn test_timer_lap_finish() {
    let depth = AtomicUsize::new(0);
    let mut timer = Timer::new("tests/timer.rs", "timer", 26, "Hello", None, &depth);
    if let Some(ref mut timer) = timer {
        timer.lap(None);
    }
    if let Some(ref mut timer) = timer {
        timer.finish(None);
    }
    assert_eq!(depth.load(Ordering::SeqCst), 0);
}

#[test]
fn test_timer_timer_finish_finish() {
    let depth = AtomicUsize::new(0);
    let mut hello = Timer::new("tests/timer.rs", "timer", 33, "Hello", None, &depth);
    let mut world = Timer::new("tests/timer.rs", "timer", 34, "World", None, &depth);
    assert_eq!(depth.load(Ordering::SeqCst), 2);
    if let Some(ref mut world) = world {
        world.finish(None);
    }
    assert_eq!(depth.load(Ordering::SeqCst), 1);
    if let Some(ref mut hello) = hello {
        hello.finish(None);
    }
    assert_eq!(depth.load(Ordering::SeqCst), 0);
}

#[test]
fn test_timer_timer_lap_finish_finish() {
    let depth = AtomicUsize::new(0);
    let mut hello = Timer::new("tests/timer.rs", "timer", 41, "Hello World", None, &depth);
    let mut world = Timer::new("tests/timer.rs", "timer", 42, "Testing", None, &depth);
    if let Some(ref mut hello) = hello {
        hello.lap(None);
    }
    if let Some(ref mut world) = world {
        world.finish(None);
    }
    if let Some(ref mut hello) = hello {
        hello.finish(None);
    }
    assert_eq!(depth.load(Ordering::SeqCst), 0);
}

#[test]
fn duration_text_boundaries() {
    assert_eq!(text_of(0), "0ns");
    assert_eq!(text_of(500), "500ns");
    assert_eq!(text_of(999), "999ns");
    assert_eq!(text_of(1_000), "1.000\u{b5}s");
    assert_eq!(text_of(1_500), "1.500\u{b5}s");
    assert_eq!(text_of(999_000), "999.000\u{b5}s");
    assert_eq!(text_of(999_007), "999.007\u{b5}s");
    assert_eq!(text_of(1_000_000), "1.000ms");
    assert_eq!(text_of(2_500_000), "2.500ms");
    assert_eq!(text_of(1_000_000_000), "1.000s");
    assert_eq!(text_of(1_200_000_000), "1.200s");
    assert_eq!(text_of(61_005_000_000), "61.005s");
}

#[test]
fn elapsed_through_timer() {
    let depth = AtomicUsize::new(0);
    let timer = Timer::new("tests/timer.rs", "timer", 1, "Fmt", None, &depth).unwrap();
    assert_eq!(timer.elapsed(Span { secs: 0, nanos: 42 }), "42ns");
    assert_eq!(timer.elapsed(Span { secs: 3, nanos: 4_000_000 }), "3.004s");
    assert_eq!(timer.elapsed(Span { secs: 0, nanos: 12_345_678 }), "12.345ms");
}

#[test]
fn span_from_nanos_splits_seconds() {
    let s = Span::from_nanos(3_000_000_007);
    assert_eq!(s, Span { secs: 3, nanos: 7 });
    assert_eq!(s.as_nanos(), 3_000_000_007u128);
    assert_eq!(Span::from_total(5_000_000_001u128), Span { secs: 5, nanos: 1 });
}

#[test]
fn finish_twice_reports_once() {
    plain();
    let depth = AtomicUsize::new(0);
    let mut timer = Timer::new("tests/timer.rs", "timer", 1, "Once", None, &depth).unwrap();
    assert_eq!(depth.load(Ordering::SeqCst), 1);
    assert!(timer.finish_at(Span::from_nanos(10), None).is_some());
    assert!(timer.finish_at(Span::from_nanos(20), None).is_none());
    timer.finish(None);
    assert_eq!(depth.load(Ordering::SeqCst), 0);
    drop(timer);
    assert_eq!(depth.load(Ordering::SeqCst), 0);
}

#[test]
fn drop_finishes_once() {
    let depth = AtomicUsize::new(0);
    {
        let _timer = Timer::new("tests/timer.rs", "timer", 1, "Scoped", None, &depth);
        assert_eq!(depth.load(Ordering::SeqCst), 1);
    }
    assert_eq!(depth.load(Ordering::SeqCst), 0);
}

#[test]
fn drop_after_early_return_finishes() {
    fn work(depth: &AtomicUsize, stop: bool) -> u32 {
        let _timer = Timer::new("tests/timer.rs", "timer", 1, "Early", None, depth);
        if stop {
            return 1;
        }
        2
    }
    let depth = AtomicUsize::new(0);
    assert_eq!(work(&depth, true), 1);
    assert_eq!(work(&depth, false), 2);
    assert_eq!(depth.load(Ordering::SeqCst), 0);
}

#[test]
fn nested_timers_indent() {
    plain();
    let depth = AtomicUsize::new(0);
    let outer = Timer::new("tests/timer.rs", "timer", 1, "Outer", None, &depth).unwrap();
    let inner = Timer::new("tests/timer.rs", "timer", 2, "Inner", None, &depth).unwrap();
    let outer_line = outer.format(TimerState::Finish, None, Span::from_nanos(5));
    let inner_line = inner.format(TimerState::Finish, None, Span::from_nanos(5));
    assert!(outer_line.starts_with(" Finish (Outer)"));
    assert!(inner_line.starts_with("     Finish (Inner)"));
}

#[test]
fn laps_report_deltas() {
    plain();
    let depth = AtomicUsize::new(0);
    let mut timer = Timer::new("tests/timer.rs", "timer", 1, "Laps", None, &depth).unwrap();
    let first = timer.lap_at(Span::from_nanos(100), None);
    let second = timer.lap_at(Span::from_nanos(250), None);
    let behind = timer.lap_at(Span::from_nanos(200), None);
    let third = timer.lap_at(Span::from_nanos(1_250), None);
    assert!(first.ends_with(".100ns"));
    assert!(second.ends_with(".150ns"));
    assert!(behind.ends_with(".0ns"));
    assert!(third.ends_with(".1.000\u{b5}s"));
    let finish = timer.finish_at(Span::from_nanos(2_000), None).unwrap();
    assert!(finish.ends_with(".2.000\u{b5}s"));
}

#[test]
fn finish_before_last_lap_reports_last_lap() {
    plain();
    let depth = AtomicUsize::new(0);
    let mut timer = Timer::new("tests/timer.rs", "timer", 1, "Clamp", None, &depth).unwrap();
    timer.lap_at(Span::from_nanos(700), None);
    let finish = timer.finish_at(Span::from_nanos(300), None).unwrap();
    assert!(finish.ends_with(".700ns"));
}

#[test]
fn exact_lines_without_styles() {
    plain();
    let depth = AtomicUsize::new(0);
    let mut timer =
        Timer::new("src/main.rs", "main", 7, "Load", Some("cfg".to_string()), &depth).unwrap();
    let start = timer.format(TimerState::Start, None, Span::from_nanos(0));
    let location = format!("{:.>55}", " [src/main.rs L7]");
    assert_eq!(start, format!(" {:<30} {}", "Start (Load, cfg)", location));
    let lap = timer.lap_at(Span::from_nanos(1_500), Some("step"));
    assert_eq!(lap, format!("     {:<30} {:.>55}", "Lap (Load, cfg, step)", "1.500\u{b5}s"));
    let finish = timer.finish_at(Span::from_nanos(2_500_000), Some("done")).unwrap();
    assert_eq!(finish, format!(" {:<50} {:.>25}", "Finish (Load, cfg, done)", "2.500ms"));
}

#[test]
fn styled_status_keeps_text() {
    colored::control::set_override(true);
    let depth = AtomicUsize::new(0);
    let timer = Timer::new("src/main.rs", "main", 7, "Hue", None, &depth).unwrap();
    let line = timer.format(TimerState::Finish, None, Span::from_nanos(9));
    assert!(line.contains("\u{1b}["));
    assert!(line.contains("Finish\u{1b}[0m (Hue)"));
    assert!(line.ends_with(".9ns"));
}

#[test]
fn load_scenario() {
    plain();
    let depth = AtomicUsize::new(0);
    let mut timer = Timer::new("tests/timer.rs", "timer", 1, "Load", None, &depth).unwrap();
    let start = timer.format(TimerState::Start, None, Span::from_nanos(0));
    assert!(start.contains("Start (Load)"));
    let first = timer.lap_at(Span::from_nanos(1_000), None);
    let second = timer.lap_at(Span::from_nanos(3_000), Some("phase2"));
    let finish = timer.finish_at(Span::from_nanos(3_500), Some("done")).unwrap();
    assert!(first.contains("Lap (Load)") && first.ends_with(".1.000\u{b5}s"));
    assert!(second.contains("Lap (Load, phase2)") && second.ends_with(".2.000\u{b5}s"));
    assert!(finish.contains("Finish (Load, done)") && finish.ends_with(".3.500\u{b5}s"));
    assert!(timer.finish_at(Span::from_nanos(4_000), None).is_none());
    assert_eq!(depth.load(Ordering::SeqCst), 0);
}

#[test]
fn load_scenario_on_the_clock() {
    let depth = AtomicUsize::new(0);
    let mut timer = Timer::new("tests/timer.rs", "timer", 1, "Load", None, &depth).unwrap();
    timer.lap(None);
    timer.lap(Some("phase2"));
    timer.finish(Some("done"));
    assert_eq!(depth.load(Ordering::SeqCst), 0);
    timer.noop();
}

#[test]
fn elapsed_colored_by_unit() {
    colored::control::set_override(true);
    let depth = AtomicUsize::new(0);
    let timer = Timer::new("tests/timer.rs", "timer", 1, "Hue", None, &depth).unwrap();
    let secs = timer.elapsed_colored(Span::from_nanos(1_200_000_000));
    assert_eq!(secs, "\u{1b}[1;35m1.200s\u{1b}[0m");
    let nanos = timer.elapsed_colored(Span::from_nanos(7));
    assert_eq!(nanos, "\u{1b}[1;32m7ns\u{1b}[0m");
    colored::control::set_override(false);
    assert_eq!(timer.elapsed_colored(Span::from_nanos(2_500_000)), "2.500ms");
}

#[test]
fn start_line_location_in_bold() {
    colored::control::set_override(true);
    let depth = AtomicUsize::new(0);
    let timer = Timer::new("a.rs", "a", 3, "Bold", None, &depth).unwrap();
    let line = timer.format(TimerState::Start, None, Span::from_nanos(0));
    let location = format!("{:.>55}", " [a.rs L3]");
    assert!(line.ends_with(&format!("\u{1b}[1m{}\u{1b}[0m", location)));
    assert!(line.starts_with(" \u{1b}[1;32mStart\u{1b}[0m (Bold)"));
}

#[test]
fn lap_status_one_level_deeper_in_color() {
    colored::control::set_override(true);
    let depth = AtomicUsize::new(0);
    let mut timer = Timer::new("a.rs", "a", 3, "Deep", None, &depth).unwrap();
    let lap = timer.lap_at(Span::from_nanos(2_500_000), None);
    assert!(lap.starts_with("     \u{1b}[1;36mLap\u{1b}[0m (Deep)"));
    let column = format!("{:.>55}", "2.500ms");
    assert!(lap.ends_with(&format!("\u{1b}[1;33m{}\u{1b}[0m", column)));
}

#[test]
fn status_color_cycles_with_depth() {
    colored::control::set_override(true);
    let depth = AtomicUsize::new(4);
    let timer = Timer::new("a.rs", "a", 3, "Red", None, &depth).unwrap();
    let line = timer.format(TimerState::Finish, None, Span::from_nanos(1));
    assert!(line.contains("\u{1b}[1;31mFinish\u{1b}[0m (Red)"));
    let depth = AtomicUsize::new(5);
    let timer = Timer::new("a.rs", "a", 3, "Green", None, &depth).unwrap();
    let line = timer.format(TimerState::Finish, None, Span::from_nanos(1));
    assert!(line.contains("\u{1b}[1;32mFinish\u{1b}[0m (Green)"));
}

#[test]
fn elapsed_colored_micros_cyan() {
    colored::control::set_override(true);
    let depth = AtomicUsize::new(0);
    let timer = Timer::new("a.rs", "a", 3, "Hue", None, &depth).unwrap();
    assert_eq!(timer.elapsed_colored(Span::from_nanos(1_500)), "\u{1b}[1;36m1.500\u{b5}s\u{1b}[0m");
}

#[test]
fn start_at_records_given_depth() {
    colored::control::set_override(true);
    let depth = AtomicUsize::new(0);
    let timer = Timer::start_at("a.rs", "a", 3, "Two", None, 2, &depth).unwrap();
    let line = timer.format(TimerState::Finish, None, Span::from_nanos(1));
    assert!(line.starts_with("         \u{1b}[1;33mFinish\u{1b}[0m (Two)"));
    assert_eq!(depth.load(Ordering::SeqCst), 0);
    let timer = Timer::new("a.rs", "a", 3, "Read", None, &depth).unwrap();
    assert_eq!(depth.load(Ordering::SeqCst), 1);
    drop(timer);
    assert_eq!(depth.load(Ordering::SeqCst), 0);
}
