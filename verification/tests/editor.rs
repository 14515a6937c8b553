use client_manager::device::Device;
use client_manager::frame::FrameEvent;
use client_manager::registry::Registry;
use client_manager::state::AppState;

fn fresh_state() -> AppState {
    AppState::default()
}

#[test]
fn initial_state_is_empty() {
    let st = fresh_state();
    assert_eq!(st.label, "Hello World!");
    assert!(st.draft.is_none());
    assert!(!st.warn);
    assert_eq!(st.registry.len(), 0);
}

#[test]
fn begin_new_opens_blank_draft() {
    let mut st = fresh_state();
    st.begin_new();
    let d = st.draft.as_ref().expect("draft should be open");
    assert_eq!(d.name, "");
    assert_eq!(d.frequency_min, 0);
    assert_eq!(d.frequency_max, 0);
    assert!(!d.pending_removal);
    assert!(d.sectors.is_empty());
}

#[test]
fn begin_new_while_editing_is_noop() {
    let mut st = fresh_state();
    st.begin_new();
    st.set_name("A".to_string());
    st.begin_new();
    let d = st.draft.as_ref().expect("draft should still be open");
    assert_eq!(d.name, "A");
}

#[test]
fn draft_fields_can_be_edited_repeatedly() {
    let mut st = fresh_state();
    st.begin_new();
    st.set_name("first".to_string());
    st.set_name("second".to_string());
    st.set_frequency_min(10);
    st.set_frequency_max(20);
    st.set_frequency_min(30);
    let d = st.draft.as_ref().unwrap();
    assert_eq!(d.name, "second");
    assert_eq!(d.frequency_min, 30);
    assert_eq!(d.frequency_max, 20);
}

#[test]
fn commit_of_fresh_name_succeeds() {
    // Registry = [], begin_new, name "A", attempt_commit.
    let mut st = fresh_state();
    st.begin_new();
    st.set_name("A".to_string());
    st.attempt_commit();
    assert_eq!(st.registry.len(), 1);
    assert_eq!(st.registry.get(0).name, "A");
    assert!(!st.warn);
    assert!(st.draft.is_none());
}

#[test]
fn commit_of_taken_name_warns_and_keeps_draft() {
    // Registry = [{name:"A"}], begin_new, name "A", attempt_commit.
    let mut st = fresh_state();
    st.begin_new();
    st.set_name("A".to_string());
    st.attempt_commit();
    st.begin_new();
    st.set_name("A".to_string());
    st.attempt_commit();
    assert_eq!(st.registry.len(), 1);
    assert_eq!(st.registry.get(0).name, "A");
    assert!(st.warn);
    let d = st.draft.as_ref().expect("draft should be retained");
    assert_eq!(d.name, "A");
}

#[test]
fn failed_commit_leaves_registry_entries_unchanged() {
    let mut st = fresh_state();
    st.registry = Registry {
        devices: vec![
            Device {
                name: "A".to_string(),
                frequency_min: 3,
                frequency_max: 7,
                pending_removal: false,
                sectors: Vec::new(),
            },
            Device {
                name: "B".to_string(),
                frequency_min: 11,
                frequency_max: 13,
                pending_removal: true,
                sectors: Vec::new(),
            },
        ],
    };
    st.begin_new();
    st.set_name("B".to_string());
    st.attempt_commit();
    assert!(st.warn);
    assert_eq!(st.registry.len(), 2);
    assert_eq!(st.registry.get(0).name, "A");
    assert_eq!(st.registry.get(0).frequency_min, 3);
    assert_eq!(st.registry.get(0).frequency_max, 7);
    assert!(!st.registry.get(0).pending_removal);
    assert_eq!(st.registry.get(1).name, "B");
    assert_eq!(st.registry.get(1).frequency_min, 11);
    assert_eq!(st.registry.get(1).frequency_max, 13);
    assert!(st.registry.get(1).pending_removal);
}

#[test]
fn retry_with_fresh_name_clears_warning() {
    let mut st = fresh_state();
    st.begin_new();
    st.set_name("A".to_string());
    st.attempt_commit();
    st.begin_new();
    st.set_name("A".to_string());
    st.attempt_commit();
    assert!(st.warn);
    st.set_name("B".to_string());
    st.attempt_commit();
    assert!(!st.warn);
    assert!(st.draft.is_none());
    assert_eq!(st.registry.len(), 2);
    assert_eq!(st.registry.get(1).name, "B");
}

#[test]
fn frame_update_runs_events_then_compacts() {
    let mut st = fresh_state();
    let events = vec![
        FrameEvent::NewClicked,
        FrameEvent::NameEdited("A".to_string()),
        FrameEvent::FinishClicked,
    ];
    st.frame_update(&events);
    assert_eq!(st.registry.len(), 1);
    assert_eq!(st.registry.get(0).name, "A");
    assert!(st.draft.is_none());
    assert!(!st.warn);

    let events = vec![
        FrameEvent::NewClicked,
        FrameEvent::NameEdited("B".to_string()),
        FrameEvent::FinishClicked,
        FrameEvent::RowMinEdited(1, 42),
        FrameEvent::RemoveClicked(0),
    ];
    st.frame_update(&events);
    // "A" was marked during the frame and swept by the frame's compaction.
    assert_eq!(st.registry.len(), 1);
    assert_eq!(st.registry.get(0).name, "B");
    assert_eq!(st.registry.get(0).frequency_min, 42);
}

#[test]
fn frame_events_without_draft_do_nothing() {
    let mut st = fresh_state();
    let events = vec![
        FrameEvent::NameEdited("ghostwritten".to_string()),
        FrameEvent::DraftMinEdited(5),
        FrameEvent::DraftMaxEdited(6),
        FrameEvent::FinishClicked,
        FrameEvent::RowMinEdited(0, 7),
        FrameEvent::RemoveClicked(3),
    ];
    st.frame_update(&events);
    assert!(st.draft.is_none());
    assert!(!st.warn);
    assert_eq!(st.registry.len(), 0);
}

#[test]
fn draft_min_may_exceed_draft_max() {
    // No cross-field ordering is enforced between the two bounds.
    let mut st = fresh_state();
    st.begin_new();
    st.set_frequency_min(9_000);
    st.set_frequency_max(100);
    let d = st.draft.as_ref().unwrap();
    assert!(d.frequency_min > d.frequency_max);
}
