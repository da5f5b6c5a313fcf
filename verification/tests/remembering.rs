//! The window of frames a chooser is shown.

use bota::memory::{Memory, AGES, A_SECOND, HISTORY};

/// A memory that has been shown every tick from one up to the one given.
fn shown_every_tick_to(last: u32) -> Memory {
    let mut memory = Memory::new();
    for at in 1..=last {
        memory.remember(at);
    }
    memory
}

#[test]
fn the_ages_double_and_end_on_the_tick_being_decided() {
    assert_eq!(
        AGES,
        [16 * A_SECOND, 8 * A_SECOND, 4 * A_SECOND, 2 * A_SECOND, A_SECOND, A_SECOND / 2, 0],
        "half a second back, then doubling to sixteen"
    );
    assert_eq!(
        AGES.last().copied(),
        Some(0),
        "the newest frame is the tick being decided, not one already past"
    );
    for pair in AGES.windows(2) {
        assert!(pair[0] > pair[1], "oldest first, and no age is repeated");
    }
}

#[test]
fn a_filled_window_holds_exactly_the_ages_asked_for() {
    let now = 1000;
    let memory = shown_every_tick_to(now);
    assert_eq!(
        memory.frame_ticks(now),
        AGES.iter().map(|age| now - age).collect::<Vec<u32>>(),
        "every frame is the tick that many ticks back"
    );
}

#[test]
fn an_unfilled_window_leans_on_the_oldest_tick_seen_and_never_on_noughts() {
    let memory = shown_every_tick_to(3);
    assert_eq!(memory.frame_ticks(3), vec![1, 1, 1, 1, 1, 1, 3]);

    let memory = shown_every_tick_to(A_SECOND + 1);
    let held = memory.frame_ticks(A_SECOND + 1);
    assert_eq!(held.last().copied(), Some(A_SECOND + 1), "the newest is now");
    assert_eq!(held[4], 1, "a second back is the first tick, which is all it has");
    assert_eq!(held[5], A_SECOND + 1 - A_SECOND / 2, "and half a second back is reached properly");
}

#[test]
fn a_gap_shows_the_last_tick_seen_rather_than_sliding_the_window() {
    let mut memory = shown_every_tick_to(600);
    for at in 900..=901 {
        memory.remember(at);
    }
    let held = memory.frame_ticks(901);
    assert_eq!(held.last().copied(), Some(901), "the newest is the tick now");
    assert_eq!(held[5], 600, "half a second back lands inside the gap, on the last tick seen");
    assert_eq!(held[0], 901 - 16 * A_SECOND, "and sixteen seconds back is still a real tick");
}

#[test]
fn what_is_remembered_is_dropped_once_it_ages_out() {
    let memory = shown_every_tick_to(5000);
    let held = memory.frame_ticks(5000);
    assert_eq!(held[0], 5000 - 16 * A_SECOND);
    assert_eq!(held.last().copied(), Some(5000));
    assert!(memory.seen.len() <= 16 * A_SECOND as usize + 1, "the window is bounded");
}

#[test]
fn starting_a_match_forgets_the_one_before() {
    let mut memory = shown_every_tick_to(1000);
    memory.forget();
    memory.remember(1);
    assert_eq!(memory.frame_ticks(1), vec![1; HISTORY], "nothing of the last match is left to lean on");
}
