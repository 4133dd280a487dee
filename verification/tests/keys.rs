use webwiki::keys::{
    handle_key, KeyAction, KeyBindings, KeyState, Stroke, BOUNCE_MICROS, DOUBLE_PRESS_MICROS,
    SEQUENCE_MICROS,
};

fn state() -> KeyState {
    KeyState { last_chord: 0, buffer: String::new(), last_stroke: 0 }
}

fn plain(key: &str, time: u64) -> Stroke {
    Stroke { key: key.to_string(), ctrl: false, meta: false, alt: false, in_field: false, time }
}

fn chord(key: &str, time: u64) -> Stroke {
    Stroke { key: key.to_string(), ctrl: true, meta: false, alt: false, in_field: false, time }
}

/// Sends the strokes one after the other and returns what each set off.
fn send(state: &mut KeyState, strokes: &[Stroke]) -> Vec<(KeyAction, bool)> {
    let bindings = KeyBindings::default();
    strokes
        .iter()
        .map(|stroke| {
            let handled = handle_key(&bindings, state, stroke);
            (handled.action, handled.swallowed)
        })
        .collect()
}

#[test]
fn default_bindings() {
    let bindings = KeyBindings::default();
    assert_eq!(bindings.leader, " ");
    assert_eq!(bindings.pull, "gl");
    assert_eq!(bindings.push, "gp");
    assert_eq!(bindings.commit, "gc");
    assert_eq!(bindings.edit, vec!["e", "i", "a"]);
}

#[test]
fn thresholds_are_in_microseconds() {
    assert_eq!(BOUNCE_MICROS, 50_000);
    assert_eq!(DOUBLE_PRESS_MICROS, 500_000);
    assert_eq!(SEQUENCE_MICROS, 1_000_000);
}

#[test]
fn leader_sequences_set_off_commands() {
    for (keys, action) in [
        (["g", "l"], KeyAction::Pull),
        (["g", "p"], KeyAction::Push),
        (["g", "c"], KeyAction::Commit),
    ] {
        let mut state = state();
        let done = send(
            &mut state,
            &[plain(" ", 100), plain(keys[0], 200), plain(keys[1], 300)],
        );
        assert_eq!(
            done,
            vec![(KeyAction::Nothing, true), (KeyAction::Nothing, true), (action, true)]
        );
        assert_eq!(state.buffer, "");
        assert_eq!(state.last_stroke, 300);
    }
}

#[test]
fn a_sequence_that_leads_nowhere_is_dropped() {
    let mut state = state();
    let done = send(&mut state, &[plain(" ", 100), plain("x", 200)]);
    assert_eq!(done, vec![(KeyAction::Nothing, true), (KeyAction::Nothing, true)]);
    assert_eq!(state.buffer, "");
    // The next key starts afresh: `e` edits again.
    assert_eq!(send(&mut state, &[plain("e", 300)]), vec![(KeyAction::Edit, true)]);
}

#[test]
fn a_sequence_is_kept_while_it_can_become_a_command() {
    let mut state = state();
    send(&mut state, &[plain(" ", 100), plain("g", 200)]);
    assert_eq!(state.buffer, " g");
    // Within a sequence `e` does not edit.
    assert_eq!(send(&mut state, &[plain("e", 300)]), vec![(KeyAction::Nothing, true)]);
    assert_eq!(state.buffer, "");
}

#[test]
fn a_sequence_expires_after_a_second() {
    let mut state = state();
    send(&mut state, &[plain(" ", 1_000), plain("g", 2_000)]);
    // Exactly a second later the sequence still counts.
    let mut late = KeyState { last_chord: 0, buffer: " g".to_string(), last_stroke: 2_000 };
    assert_eq!(send(&mut late, &[plain("l", 1_002_000)]), vec![(KeyAction::Pull, true)]);
    // A microsecond more and it is gone: `l` alone does nothing.
    assert_eq!(send(&mut state, &[plain("l", 1_002_001)]), vec![(KeyAction::Nothing, false)]);
    assert_eq!(state.buffer, "");
    assert_eq!(state.last_stroke, 1_002_001);
}

#[test]
fn edit_keys_edit_outside_a_sequence() {
    for key in ["e", "i", "a"] {
        let mut state = state();
        assert_eq!(send(&mut state, &[plain(key, 10)]), vec![(KeyAction::Edit, true)]);
    }
    let mut state = state();
    assert_eq!(send(&mut state, &[plain("x", 10)]), vec![(KeyAction::Nothing, false)]);
    assert_eq!(send(&mut state, &[plain("E", 20)]), vec![(KeyAction::Nothing, false)]);
}

#[test]
fn strokes_in_a_field_are_left_alone() {
    let mut state = KeyState { last_chord: 7, buffer: " g".to_string(), last_stroke: 9 };
    let bindings = KeyBindings::default();
    for stroke in [plain("l", 10), chord("f", 100_000), plain("e", 10)] {
        let stroke = Stroke { in_field: true, ..stroke };
        let handled = handle_key(&bindings, &mut state, &stroke);
        assert_eq!((handled.action, handled.swallowed), (KeyAction::Nothing, false));
        assert_eq!((state.last_chord, state.buffer.as_str(), state.last_stroke), (7, " g", 9));
    }
}

#[test]
fn strokes_with_other_modifiers_are_left_alone() {
    let mut state = KeyState { last_chord: 7, buffer: " g".to_string(), last_stroke: 9 };
    let bindings = KeyBindings::default();
    let with_alt = Stroke { alt: true, ..plain("l", 10) };
    let with_ctrl = chord("l", 10);
    for stroke in [with_alt, with_ctrl] {
        let handled = handle_key(&bindings, &mut state, &stroke);
        assert_eq!((handled.action, handled.swallowed), (KeyAction::Nothing, false));
        assert_eq!((state.last_chord, state.buffer.as_str(), state.last_stroke), (7, " g", 9));
    }
}

#[test]
fn double_press_of_the_chord_searches() {
    let mut state = state();
    let done = send(&mut state, &[chord("f", 1_000_000), chord("F", 1_200_000)]);
    assert_eq!(done, vec![(KeyAction::Nothing, true), (KeyAction::Search, true)]);
    assert_eq!(state.last_chord, 0);
    // The meta key does as well as Ctrl.
    let with_meta = |time| Stroke { ctrl: false, meta: true, ..chord("f", time) };
    let mut state = KeyState { last_chord: 0, buffer: String::new(), last_stroke: 0 };
    let done = send(&mut state, &[with_meta(1_000_000), with_meta(1_300_000)]);
    assert_eq!(done, vec![(KeyAction::Nothing, true), (KeyAction::Search, true)]);
}

#[test]
fn chord_bounds_are_strict() {
    for (gap, action) in [
        (50_000, KeyAction::Nothing),
        (50_001, KeyAction::Search),
        (499_999, KeyAction::Search),
        (500_000, KeyAction::Nothing),
    ] {
        let mut state = state();
        let done = send(&mut state, &[chord("f", 1_000_000), chord("f", 1_000_000 + gap)]);
        assert_eq!(done[1], (action, true), "gap {}", gap);
        let expected = if action == KeyAction::Search { 0 } else { 1_000_000 + gap };
        assert_eq!(state.last_chord, expected);
    }
}

#[test]
fn the_chord_drops_a_sequence() {
    let mut state = state();
    send(&mut state, &[plain(" ", 100), plain("g", 200), chord("f", 300)]);
    assert_eq!(state.buffer, "");
    assert_eq!(state.last_chord, 300);
    assert_eq!(state.last_stroke, 200);
}

#[test]
fn a_stroke_from_before_the_last_one_changes_no_rule() {
    // A clock that steps back makes neither a double press nor an expiry.
    let mut state = KeyState { last_chord: 900_000, buffer: " g".to_string(), last_stroke: 900_000 };
    assert_eq!(send(&mut state, &[chord("f", 100)]), vec![(KeyAction::Nothing, true)]);
    assert_eq!(state.last_chord, 100);
    let mut state = KeyState { last_chord: 0, buffer: " g".to_string(), last_stroke: 900_000 };
    assert_eq!(send(&mut state, &[plain("l", 100)]), vec![(KeyAction::Pull, true)]);
}
