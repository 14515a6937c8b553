use vstd::prelude::*;
use crate::device::{Device, DeviceModel, blank_device, with_name, with_min, with_max};
use crate::registry::{Registry, has_name};

verus! {

/// Mathematical model of the whole application root state.
#[verifier::ext_equal]
pub ghost struct StateModel {
    pub label: Seq<char>,
    pub draft: Option<DeviceModel>,
    pub warn: bool,
    pub devices: Seq<DeviceModel>,
}

/// The application root state: the committed registry, at most one
/// in-progress draft, a warning flag raised by the last failed commit
/// attempt, and a display label.
pub struct AppState {
    pub label: String,
    pub draft: Option<Device>,
    pub warn: bool,
    pub registry: Registry,
}

impl View for AppState {
    type V = StateModel;

    open spec fn view(&self) -> StateModel {
        StateModel {
            label: self.label@,
            draft: match self.draft {
                Some(d) => Some(d@),
                None => None,
            },
            warn: self.warn,
            devices: self.registry@,
        }
    }
}

/// The state the application starts from when no snapshot is present.
pub open spec fn initial_state() -> StateModel {
    StateModel { label: "Hello World!"@, draft: None, warn: false, devices: Seq::empty() }
}

/// Opening a new draft: a blank device, only when none is in progress.
pub open spec fn begin_new_step(s: StateModel) -> StateModel {
    if s.draft is None {
        StateModel { draft: Some(blank_device()), ..s }
    } else {
        s
    }
}

/// Renaming the draft; without a draft nothing changes.
pub open spec fn set_name_step(s: StateModel, n: Seq<char>) -> StateModel {
    match s.draft {
        Some(d) => StateModel { draft: Some(with_name(d, n)), ..s },
        None => s,
    }
}

/// Replacing the draft's minimum frequency bound.
pub open spec fn set_draft_min_step(s: StateModel, v: u32) -> StateModel {
    match s.draft {
        Some(d) => StateModel { draft: Some(with_min(d, v)), ..s },
        None => s,
    }
}

/// Replacing the draft's maximum frequency bound.
pub open spec fn set_draft_max_step(s: StateModel, v: u32) -> StateModel {
    match s.draft {
        Some(d) => StateModel { draft: Some(with_max(d, v)), ..s },
        None => s,
    }
}

/// Trying to promote the draft: on a name collision only the warning is
/// raised; otherwise the draft moves to the end of the registry, the draft
/// slot empties and the warning clears.
pub open spec fn attempt_commit_step(s: StateModel) -> StateModel {
    match s.draft {
        Some(d) => if has_name(s.devices, d.name) {
            StateModel { warn: true, ..s }
        } else {
            StateModel { draft: None, warn: false, devices: s.devices.push(d), ..s }
        },
        None => s,
    }
}

impl Default for AppState {
    fn default() -> (r: Self)
        ensures
            r@ == initial_state(),
    {
        let r = AppState {
            label: "Hello World!".to_string(),
            draft: None,
            warn: false,
            registry: Registry::new(),
        };
        proof {
            assert(r@ =~~= initial_state());
        }
        r
    }
}

impl AppState {
    /// Opens a new blank draft. A no-op while a draft is already in
    /// progress: at most one draft exists at a time.
    pub fn begin_new(&mut self)
        ensures
            final(self)@ == begin_new_step(old(self)@),
            old(self).draft is Some ==> *final(self) == *old(self),
    {
        if self.draft.is_none() {
            self.draft = Some(Device::default());
            proof {
                assert(self@ =~~= begin_new_step(old(self)@));
            }
        }
    }

    /// Replaces the draft's name.
    pub fn set_name(&mut self, name: String)
        requires
            old(self)@.draft is Some,
        ensures
            final(self)@ == set_name_step(old(self)@, name@),
    {
        match &mut self.draft {
            Some(d) => {
                d.name = name;
            },
            None => {},
        }
        proof {
            assert(self@ =~~= set_name_step(old(self)@, name@));
        }
    }

    /// Replaces the draft's minimum frequency bound.
    pub fn set_frequency_min(&mut self, value: u32)
        requires
            old(self)@.draft is Some,
        ensures
            final(self)@ == set_draft_min_step(old(self)@, value),
    {
        match &mut self.draft {
            Some(d) => {
                d.frequency_min = value;
            },
            None => {},
        }
        proof {
            assert(self@ =~~= set_draft_min_step(old(self)@, value));
        }
    }

    /// Replaces the draft's maximum frequency bound.
    pub fn set_frequency_max(&mut self, value: u32)
        requires
            old(self)@.draft is Some,
        ensures
            final(self)@ == set_draft_max_step(old(self)@, value),
    {
        match &mut self.draft {
            Some(d) => {
                d.frequency_max = value;
            },
            None => {},
        }
        proof {
            assert(self@ =~~= set_draft_max_step(old(self)@, value));
        }
    }

    /// Tries to promote the draft into the registry. On a name collision
    /// the registry, the draft and the label are left exactly as they were
    /// and only the warning is raised; on success the draft is appended,
    /// the draft slot empties and the warning clears.
    pub fn attempt_commit(&mut self)
        requires
            old(self)@.draft is Some,
        ensures
            final(self)@ == attempt_commit_step(old(self)@),
            old(self)@.draft matches Some(d) && has_name(old(self)@.devices, d.name) ==> {
                &&& *final(self) == AppState {
                    warn: true,
                    label: old(self).label,
                    draft: old(self).draft,
                    registry: old(self).registry,
                }
                &&& final(self).registry == old(self).registry
            },
    {
        let duplicate = {
            let d = self.draft.as_ref().unwrap();
            self.registry.contains_name(&d.name)
        };
        if duplicate {
            self.warn = true;
        } else {
            let d = self.draft.take().unwrap();
            match self.registry.commit(d) {
                Ok(()) => {
                    self.warn = false;
                },
                Err(_) => {
                    self.warn = true;
                },
            }
        }
        proof {
            assert(self@ =~~= attempt_commit_step(old(self)@));
        }
    }
}

} // verus!
