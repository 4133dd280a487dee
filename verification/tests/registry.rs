use webwiki::registry::{Admission, AppState, GitState};

fn two_volumes() -> AppState {
    let mut state = AppState::new();
    assert!(state.add_volume("default".to_string(), "/data/default".to_string()));
    assert!(state.add_volume("work".to_string(), "/data/work".to_string()));
    state
}

fn granted(answer: Admission) -> u64 {
    match answer {
        Admission::Granted(ticket) => ticket,
        other => panic!("expected the volume, got {:?}", other),
    }
}

#[test]
fn new_git_state_is_free() {
    let state = GitState::new("/data/wiki".to_string());
    assert_eq!(state.repo_path, "/data/wiki");
    assert_eq!(state.holder, None);
    assert_eq!(state.grants, 0);
}

#[test]
fn volumes_are_found_by_name() {
    let state = two_volumes();
    assert!(state.has_volume("default"));
    assert!(state.has_volume("work"));
    assert!(!state.has_volume("other"));
    assert_eq!(state.root_of("work"), Some("/data/work".to_string()));
    assert_eq!(state.root_of("default"), Some("/data/default".to_string()));
    assert_eq!(state.root_of("other"), None);
    assert!(!AppState::new().has_volume("default"));
}

#[test]
fn volume_names_are_unique() {
    let mut state = two_volumes();
    assert!(!state.add_volume("work".to_string(), "/elsewhere".to_string()));
    assert_eq!(state.root_of("work"), Some("/data/work".to_string()));
}

#[test]
fn unknown_volume_is_not_found() {
    let mut state = two_volumes();
    assert_eq!(state.try_acquire("missing"), Admission::Unknown);
    assert!(!state.release("missing", 1));
    assert_eq!(state.try_acquire("default"), Admission::Granted(1));
}

#[test]
fn operations_on_one_volume_take_turns() {
    let mut state = two_volumes();
    let first = granted(state.try_acquire("default"));
    assert_eq!(first, 1);
    // Whatever asks next has to wait, a status query too, however often it asks.
    assert_eq!(state.try_acquire("default"), Admission::Wait);
    assert_eq!(state.try_acquire("default"), Admission::Wait);
    assert!(state.release("default", first));
    let second = granted(state.try_acquire("default"));
    assert_eq!(second, 2);
    assert_eq!(state.try_acquire("default"), Admission::Wait);
    assert!(state.release("default", second));
    assert!(!state.release("default", second));
    assert_eq!(state.try_acquire("default"), Admission::Granted(3));
}

#[test]
fn only_the_ticket_of_the_holder_gives_a_volume_back() {
    let mut state = two_volumes();
    let first = granted(state.try_acquire("default"));
    assert!(state.release("default", first));
    let second = granted(state.try_acquire("default"));
    // The operation that is over cannot free the volume for the next one.
    assert!(!state.release("default", first));
    assert!(!state.release("default", 0));
    assert!(!state.release("default", second + 1));
    assert!(!state.release("work", second));
    assert_eq!(state.try_acquire("default"), Admission::Wait);
    assert!(state.release("default", second));
    assert_eq!(state.try_acquire("default"), Admission::Granted(3));
}

#[test]
fn operations_on_different_volumes_do_not_wait_for_each_other() {
    let mut state = two_volumes();
    let default = granted(state.try_acquire("default"));
    let work = granted(state.try_acquire("work"));
    assert_eq!((default, work), (1, 1));
    assert_eq!(state.try_acquire("default"), Admission::Wait);
    assert!(state.release("default", default));
    // Giving one volume back does not free the other.
    assert_eq!(state.try_acquire("work"), Admission::Wait);
    assert_eq!(state.try_acquire("default"), Admission::Granted(2));
    assert!(state.release("work", work));
    assert_eq!(state.try_acquire("work"), Admission::Granted(2));
    assert_eq!(state.root_of("work"), Some("/data/work".to_string()));
}
