use vstd::prelude::*;
use crate::device::{with_min, with_max, with_removal};
use crate::registry::{
    has_name, names_unique, survivors, lemma_push_fresh_name, lemma_update_same_name,
    lemma_compact_preserves_uniqueness,
};
use crate::state::{
    AppState, StateModel, begin_new_step, set_name_step, set_draft_min_step, set_draft_max_step,
    attempt_commit_step,
};

verus! {

/// One input event gathered by the UI boundary during a frame. The core
/// decides what each event does; the boundary only reports what happened.
pub enum FrameEvent {
    /// The "new client" button was clicked.
    NewClicked,
    /// The draft's name field changed.
    NameEdited(String),
    /// The draft's minimum-frequency control changed.
    DraftMinEdited(u32),
    /// The draft's maximum-frequency control changed.
    DraftMaxEdited(u32),
    /// The "finish" button was clicked.
    FinishClicked,
    /// The minimum-frequency slider of the committed row at this position
    /// moved.
    RowMinEdited(usize, u32),
    /// The maximum-frequency slider of the committed row at this position
    /// moved.
    RowMaxEdited(usize, u32),
    /// The "remove device" button of the committed row at this position was
    /// clicked.
    RemoveClicked(usize),
}

/// Model of a frame event.
#[verifier::ext_equal]
pub ghost enum EventModel {
    NewClicked,
    NameEdited(Seq<char>),
    DraftMinEdited(u32),
    DraftMaxEdited(u32),
    FinishClicked,
    RowMinEdited(usize, u32),
    RowMaxEdited(usize, u32),
    RemoveClicked(usize),
}

impl View for FrameEvent {
    type V = EventModel;

    open spec fn view(&self) -> EventModel {
        match self {
            FrameEvent::NewClicked => EventModel::NewClicked,
            FrameEvent::NameEdited(n) => EventModel::NameEdited(n@),
            FrameEvent::DraftMinEdited(v) => EventModel::DraftMinEdited(*v),
            FrameEvent::DraftMaxEdited(v) => EventModel::DraftMaxEdited(*v),
            FrameEvent::FinishClicked => EventModel::FinishClicked,
            FrameEvent::RowMinEdited(i, v) => EventModel::RowMinEdited(*i, *v),
            FrameEvent::RowMaxEdited(i, v) => EventModel::RowMaxEdited(*i, *v),
            FrameEvent::RemoveClicked(i) => EventModel::RemoveClicked(*i),
        }
    }
}

/// Editing a committed row's minimum frequency bound; an index beyond the
/// registry does nothing.
pub open spec fn row_min_step(s: StateModel, i: usize, v: u32) -> StateModel {
    if i < s.devices.len() {
        StateModel {
            devices: s.devices.update(i as int, with_min(s.devices[i as int], v)),
            ..s
        }
    } else {
        s
    }
}

/// Editing a committed row's maximum frequency bound.
pub open spec fn row_max_step(s: StateModel, i: usize, v: u32) -> StateModel {
    if i < s.devices.len() {
        StateModel {
            devices: s.devices.update(i as int, with_max(s.devices[i as int], v)),
            ..s
        }
    } else {
        s
    }
}

/// Requesting removal of a committed row: the flag is raised, the entry
/// stays until the frame's compaction pass.
pub open spec fn remove_click_step(s: StateModel, i: usize) -> StateModel {
    if i < s.devices.len() {
        StateModel {
            devices: s.devices.update(i as int, with_removal(s.devices[i as int])),
            ..s
        }
    } else {
        s
    }
}

/// What one event does to the root state.
pub open spec fn step(s: StateModel, e: EventModel) -> StateModel {
    match e {
        EventModel::NewClicked => begin_new_step(s),
        EventModel::NameEdited(n) => set_name_step(s, n),
        EventModel::DraftMinEdited(v) => set_draft_min_step(s, v),
        EventModel::DraftMaxEdited(v) => set_draft_max_step(s, v),
        EventModel::FinishClicked => attempt_commit_step(s),
        EventModel::RowMinEdited(i, v) => row_min_step(s, i, v),
        EventModel::RowMaxEdited(i, v) => row_max_step(s, i, v),
        EventModel::RemoveClicked(i) => remove_click_step(s, i),
    }
}

/// The events of a frame, applied in order.
pub open spec fn steps(s: StateModel, evs: Seq<EventModel>) -> StateModel
    decreases evs.len(),
{
    if evs.len() == 0 {
        s
    } else {
        step(steps(s, evs.drop_last()), evs.last())
    }
}

/// A whole frame: every event in order, then the compaction pass.
pub open spec fn frame_step(s: StateModel, evs: Seq<EventModel>) -> StateModel {
    let t = steps(s, evs);
    StateModel { devices: survivors(t.devices), ..t }
}

impl AppState {
    /// Applies one UI event. Events that need a draft do nothing without
    /// one, and events aimed at a row beyond the registry do nothing.
    pub fn apply_event(&mut self, event: &FrameEvent)
        ensures
            final(self)@ == step(old(self)@, event@),
    {
        match event {
            FrameEvent::NewClicked => {
                self.begin_new();
            },
            FrameEvent::NameEdited(n) => {
                if self.draft.is_some() {
                    self.set_name(n.clone());
                }
            },
            FrameEvent::DraftMinEdited(v) => {
                if self.draft.is_some() {
                    self.set_frequency_min(*v);
                }
            },
            FrameEvent::DraftMaxEdited(v) => {
                if self.draft.is_some() {
                    self.set_frequency_max(*v);
                }
            },
            FrameEvent::FinishClicked => {
                if self.draft.is_some() {
                    self.attempt_commit();
                }
            },
            FrameEvent::RowMinEdited(i, v) => {
                if *i < self.registry.len() {
                    self.registry.set_frequency_min(*i, *v);
                }
                proof {
                    assert(self@ =~~= row_min_step(old(self)@, *i, *v));
                }
            },
            FrameEvent::RowMaxEdited(i, v) => {
                if *i < self.registry.len() {
                    self.registry.set_frequency_max(*i, *v);
                }
                proof {
                    assert(self@ =~~= row_max_step(old(self)@, *i, *v));
                }
            },
            FrameEvent::RemoveClicked(i) => {
                if *i < self.registry.len() {
                    self.registry.mark_for_removal(*i);
                }
                proof {
                    assert(self@ =~~= remove_click_step(old(self)@, *i));
                }
            },
        }
    }

    /// Runs one frame of the core: applies the gathered events in order,
    /// then compacts the registry.
    pub fn frame_update(&mut self, events: &Vec<FrameEvent>)
        ensures
            final(self)@ == frame_step(old(self)@, events@.map_values(|e: FrameEvent| e@)),
    {
        let ghost evs = events@.map_values(|e: FrameEvent| e@);
        let mut i: usize = 0;
        while i < events.len()
            invariant
                i <= events.len(),
                evs == events@.map_values(|e: FrameEvent| e@),
                self@ == steps(old(self)@, evs.take(i as int)),
            decreases events.len() - i,
        {
            self.apply_event(&events[i]);
            proof {
                assert(evs.take(i as int + 1).drop_last() =~= evs.take(i as int));
                assert(evs.take(i as int + 1).last() == evs[i as int]);
            }
            i += 1;
        }
        proof {
            assert(evs.take(events.len() as int) =~= evs);
        }
        self.registry.compact();
        proof {
            assert(self@ =~~= frame_step(old(self)@, evs));
        }
    }
}

/// No event introduces a duplicate name into the registry.
pub proof fn lemma_step_preserves_uniqueness(s: StateModel, e: EventModel)
    requires
        names_unique(s.devices),
    ensures
        names_unique(step(s, e).devices),
{
    match e {
        EventModel::FinishClicked => {
            match s.draft {
                Some(d) => {
                    if !has_name(s.devices, d.name) {
                        lemma_push_fresh_name(s.devices, d);
                    }
                },
                None => {},
            }
        },
        EventModel::RowMinEdited(i, v) => {
            if (i as int) < s.devices.len() {
                lemma_update_same_name(
                    s.devices,
                    i as int,
                    with_min(s.devices[i as int], v),
                );
            }
        },
        EventModel::RowMaxEdited(i, v) => {
            if (i as int) < s.devices.len() {
                lemma_update_same_name(
                    s.devices,
                    i as int,
                    with_max(s.devices[i as int], v),
                );
            }
        },
        EventModel::RemoveClicked(i) => {
            if (i as int) < s.devices.len() {
                lemma_update_same_name(
                    s.devices,
                    i as int,
                    with_removal(s.devices[i as int]),
                );
            }
        },
        _ => {},
    }
}

/// No sequence of events introduces a duplicate name.
pub proof fn lemma_steps_preserve_uniqueness(s: StateModel, evs: Seq<EventModel>)
    requires
        names_unique(s.devices),
    ensures
        names_unique(steps(s, evs).devices),
    decreases evs.len(),
{
    if evs.len() > 0 {
        lemma_steps_preserve_uniqueness(s, evs.drop_last());
        lemma_step_preserves_uniqueness(steps(s, evs.drop_last()), evs.last());
    }
}

/// Whatever happens during a frame, a registry whose names were unique
/// comes out of the frame with its names still unique.
pub proof fn lemma_frame_preserves_uniqueness(s: StateModel, evs: Seq<EventModel>)
    requires
        names_unique(s.devices),
    ensures
        names_unique(frame_step(s, evs).devices),
{
    lemma_steps_preserve_uniqueness(s, evs);
    lemma_compact_preserves_uniqueness(steps(s, evs).devices);
}

/// Without a draft in progress the warning is down.
pub open spec fn warn_inv(s: StateModel) -> bool {
    s.draft is None ==> !s.warn
}

/// Every event keeps the warning tied to an open draft: the warning can
/// only be up while a draft is in progress.
pub proof fn lemma_step_preserves_warn_inv(s: StateModel, e: EventModel)
    requires
        warn_inv(s),
    ensures
        warn_inv(step(s, e)),
{
}

/// Every frame keeps the warning tied to an open draft.
pub proof fn lemma_frame_preserves_warn_inv(s: StateModel, evs: Seq<EventModel>)
    requires
        warn_inv(s),
    ensures
        warn_inv(frame_step(s, evs)),
    decreases evs.len(),
{
    if evs.len() > 0 {
        lemma_frame_preserves_warn_inv(s, evs.drop_last());
        lemma_step_preserves_warn_inv(steps(s, evs.drop_last()), evs.last());
    }
}

} // verus!
