//! Keyboard commands: the search chord and the sequences behind the leader key.

use crate::text::{begins_with, lowercase, same_text, starts_with, to_lower};
use crate::tree::texts;
use vstd::prelude::*;
use vstd::string::StringExecFns;

verus! {

/// Two strokes of the search chord count as one press while less than this
/// many microseconds lie between them.
pub const BOUNCE_MICROS: u64 = 50_000;

/// Two strokes of the search chord make a double press while less than this
/// many microseconds lie between them.
pub const DOUBLE_PRESS_MICROS: u64 = 500_000;

/// A sequence is dropped when more than this many microseconds have passed
/// since its last stroke.
pub const SEQUENCE_MICROS: u64 = 1_000_000;

/// The keys that start the commands.
#[derive(Debug)]
pub struct KeyBindings {
    pub leader: String,
    pub pull: String,
    pub push: String,
    pub commit: String,
    pub edit: Vec<String>,
}

impl Default for KeyBindings {
    /// The blank leads; `gl` pulls, `gp` pushes, `gc` commits; `e`, `i` and
    /// `a` edit.
    fn default() -> (bindings: Self)
        ensures
            bindings.leader@ == " "@,
            bindings.pull@ == "gl"@,
            bindings.push@ == "gp"@,
            bindings.commit@ == "gc"@,
            texts(bindings.edit@) == seq!["e"@, "i"@, "a"@],
    {
        let mut edit: Vec<String> = Vec::new();
        edit.push("e".to_string());
        edit.push("i".to_string());
        edit.push("a".to_string());
        assert(texts(edit@) =~= seq!["e"@, "i"@, "a"@]);
        KeyBindings {
            leader: " ".to_string(),
            pull: "gl".to_string(),
            push: "gp".to_string(),
            commit: "gc".to_string(),
            edit,
        }
    }
}

/// What a stroke sets off.
#[derive(Clone, Copy, Debug, PartialEq, Eq, Structural)]
pub enum KeyAction {
    Nothing,
    Search,
    Pull,
    Push,
    Commit,
    Edit,
}

/// One stroke: the key, the modifiers held with it, whether it went into a
/// field that takes text, and when it came, in microseconds.
pub struct Stroke {
    pub key: String,
    pub ctrl: bool,
    pub meta: bool,
    pub alt: bool,
    pub in_field: bool,
    pub time: u64,
}

/// What is kept between strokes: when the search chord was last struck, the
/// sequence so far, and when its last stroke came.
pub struct KeyState {
    pub last_chord: u64,
    pub buffer: String,
    pub last_stroke: u64,
}

/// What the handler does with a stroke: the action it sets off, and whether
/// the stroke is kept from the browser.
pub struct Handled {
    pub action: KeyAction,
    pub swallowed: bool,
}

/// Whether a stroke is the search chord: `f` with Ctrl or the meta key.
pub open spec fn is_chord(stroke: Stroke) -> bool {
    (stroke.ctrl || stroke.meta) && lowercase(stroke.key@) == "f"@
}

/// Whether a stroke comes without a modifier.
pub open spec fn is_plain(stroke: Stroke) -> bool {
    !stroke.ctrl && !stroke.meta && !stroke.alt
}

/// Whether two strokes of the chord make a double press.
pub open spec fn double_press(last: u64, now: u64) -> bool {
    BOUNCE_MICROS < now - last < DOUBLE_PRESS_MICROS
}

/// The sequence that a stroke finds: the one so far, or none where the last
/// stroke is too long ago.
pub open spec fn live_buffer(state: KeyState, stroke: Stroke) -> Seq<char> {
    if stroke.time - state.last_stroke > SEQUENCE_MICROS {
        Seq::empty()
    } else {
        state.buffer@
    }
}

/// Whether `key` is one of the keys in `list`.
pub open spec fn listed(list: Seq<String>, key: Seq<char>) -> bool {
    exists|i: int| 0 <= i < list.len() && #[trigger] list[i]@ == key
}

/// The command that a sequence spells, if it spells one. Pull wins over
/// push, and push over commit, where they are bound to the same keys.
pub open spec fn spelled(bindings: KeyBindings, sequence: Seq<char>) -> KeyAction {
    if sequence == bindings.leader@ + bindings.pull@ {
        KeyAction::Pull
    } else if sequence == bindings.leader@ + bindings.push@ {
        KeyAction::Push
    } else if sequence == bindings.leader@ + bindings.commit@ {
        KeyAction::Commit
    } else {
        KeyAction::Nothing
    }
}

/// Whether a sequence can still grow into a command.
pub open spec fn promising(bindings: KeyBindings, sequence: Seq<char>) -> bool {
    ||| begins_with(bindings.leader@ + bindings.pull@, sequence)
    ||| begins_with(bindings.leader@ + bindings.push@, sequence)
    ||| begins_with(bindings.leader@ + bindings.commit@, sequence)
}

/// The action that a stroke sets off.
pub open spec fn action_of(bindings: KeyBindings, state: KeyState, stroke: Stroke) -> KeyAction {
    if stroke.in_field {
        KeyAction::Nothing
    } else if is_chord(stroke) {
        if double_press(state.last_chord, stroke.time) {
            KeyAction::Search
        } else {
            KeyAction::Nothing
        }
    } else if is_plain(stroke) {
        let buffer = live_buffer(state, stroke);
        if buffer.len() == 0 {
            if stroke.key@ != bindings.leader@ && listed(bindings.edit@, stroke.key@) {
                KeyAction::Edit
            } else {
                KeyAction::Nothing
            }
        } else {
            spelled(bindings, buffer + stroke.key@)
        }
    } else {
        KeyAction::Nothing
    }
}

/// Whether a stroke is kept from the browser: the chord always, a plain
/// stroke where it starts, continues or ends a sequence or edits.
pub open spec fn swallows(bindings: KeyBindings, state: KeyState, stroke: Stroke) -> bool {
    if stroke.in_field {
        false
    } else if is_chord(stroke) {
        true
    } else if is_plain(stroke) {
        live_buffer(state, stroke).len() > 0 || stroke.key@ == bindings.leader@ || listed(
            bindings.edit@,
            stroke.key@,
        )
    } else {
        false
    }
}

/// The sequence that is kept after a stroke.
pub open spec fn buffer_after(bindings: KeyBindings, state: KeyState, stroke: Stroke) -> Seq<char> {
    if stroke.in_field {
        state.buffer@
    } else if is_chord(stroke) {
        Seq::empty()
    } else if is_plain(stroke) {
        let buffer = live_buffer(state, stroke);
        if buffer.len() == 0 {
            if stroke.key@ == bindings.leader@ {
                stroke.key@
            } else {
                Seq::empty()
            }
        } else if spelled(bindings, buffer + stroke.key@) is Nothing && promising(
            bindings,
            buffer + stroke.key@,
        ) {
            buffer + stroke.key@
        } else {
            Seq::empty()
        }
    } else {
        state.buffer@
    }
}

/// When the chord counts as last struck after a stroke: a double press
/// starts over, any other stroke of the chord is remembered.
pub open spec fn chord_after(state: KeyState, stroke: Stroke) -> u64 {
    if !stroke.in_field && is_chord(stroke) {
        if double_press(state.last_chord, stroke.time) {
            0
        } else {
            stroke.time
        }
    } else {
        state.last_chord
    }
}

/// When the last stroke of a sequence counts as come after a stroke.
pub open spec fn stroke_after(state: KeyState, stroke: Stroke) -> u64 {
    if !stroke.in_field && !is_chord(stroke) && is_plain(stroke) {
        stroke.time
    } else {
        state.last_stroke
    }
}

/// Tells whether `key` is one of the keys in `list`.
fn is_listed(list: &Vec<String>, key: &str) -> (yes: bool)
    ensures
        yes == listed(list@, key@),
{
    let mut i: usize = 0;
    while i < list.len()
        invariant
            i <= list.len(),
            forall|j: int| 0 <= j < i ==> (#[trigger] list[j])@ != key@,
        decreases list.len() - i,
    {
        if same_text(list[i].as_str(), key) {
            return true;
        }
        i += 1;
    }
    false
}

/// Joins the leader and the keys of a command.
fn sequence_of(leader: &str, keys: &str) -> (sequence: String)
    ensures
        sequence@ == leader@ + keys@,
{
    let mut sequence = String::from_str(leader);
    sequence.append(keys);
    sequence
}

/// Handles one stroke: says what it sets off and keeps what the next
/// stroke needs to know.
pub fn handle_key(bindings: &KeyBindings, state: &mut KeyState, stroke: &Stroke) -> (handled:
    Handled)
    ensures
        handled.action == action_of(*bindings, *old(state), *stroke),
        handled.swallowed == swallows(*bindings, *old(state), *stroke),
        final(state).buffer@ == buffer_after(*bindings, *old(state), *stroke),
        final(state).last_chord == chord_after(*old(state), *stroke),
        final(state).last_stroke == stroke_after(*old(state), *stroke),
{
    if stroke.in_field {
        return Handled { action: KeyAction::Nothing, swallowed: false };
    }
    let key = stroke.key.as_str();
    if (stroke.ctrl || stroke.meta) && same_text(to_lower(key).as_str(), "f") {
        let double = stroke.time > state.last_chord && stroke.time - state.last_chord
            > BOUNCE_MICROS && stroke.time - state.last_chord < DOUBLE_PRESS_MICROS;
        state.buffer = String::new();
        if double {
            state.last_chord = 0;
            return Handled { action: KeyAction::Search, swallowed: true };
        }
        state.last_chord = stroke.time;
        return Handled { action: KeyAction::Nothing, swallowed: true };
    }
    if stroke.ctrl || stroke.meta || stroke.alt {
        return Handled { action: KeyAction::Nothing, swallowed: false };
    }
    if stroke.time > state.last_stroke && stroke.time - state.last_stroke > SEQUENCE_MICROS {
        state.buffer = String::new();
    }
    state.last_stroke = stroke.time;
    if state.buffer.as_str().is_empty() {
        if same_text(key, bindings.leader.as_str()) {
            state.buffer.append(key);
            assert(state.buffer@ =~= stroke.key@);
            return Handled { action: KeyAction::Nothing, swallowed: true };
        }
        if is_listed(&bindings.edit, key) {
            return Handled { action: KeyAction::Edit, swallowed: true };
        }
        return Handled { action: KeyAction::Nothing, swallowed: false };
    }
    state.buffer.append(key);
    let pull = sequence_of(bindings.leader.as_str(), bindings.pull.as_str());
    let push = sequence_of(bindings.leader.as_str(), bindings.push.as_str());
    let commit = sequence_of(bindings.leader.as_str(), bindings.commit.as_str());
    let action = if same_text(state.buffer.as_str(), pull.as_str()) {
        KeyAction::Pull
    } else if same_text(state.buffer.as_str(), push.as_str()) {
        KeyAction::Push
    } else if same_text(state.buffer.as_str(), commit.as_str()) {
        KeyAction::Commit
    } else {
        KeyAction::Nothing
    };
    let keep = match action {
        KeyAction::Nothing => starts_with(pull.as_str(), state.buffer.as_str()) || starts_with(
            push.as_str(),
            state.buffer.as_str(),
        ) || starts_with(commit.as_str(), state.buffer.as_str()),
        _ => false,
    };
    if !keep {
        state.buffer = String::new();
    }
    Handled { action, swallowed: true }
}

} // verus!
