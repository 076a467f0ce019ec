//! Load state of one asset, and of a batch of assets.
use vstd::prelude::*;

verus! {

/// Where the load of one asset stands.
#[derive(Clone, Copy, Debug, PartialEq, Eq, Structural)]
pub enum LoadState {
    Unloaded,
    Loading,
    Loaded,
    Failed,
}

/// Some asset of the batch failed to load.
pub open spec fn any_failed(s: Seq<LoadState>) -> bool {
    exists|i: int| 0 <= i < s.len() && s[i] == LoadState::Failed
}

/// Every asset of the batch is loaded.
pub open spec fn all_loaded(s: Seq<LoadState>) -> bool {
    forall|i: int| 0 <= i < s.len() ==> s[i] == LoadState::Loaded
}

/// Some asset of the batch has not started loading.
pub open spec fn any_unloaded(s: Seq<LoadState>) -> bool {
    exists|i: int| 0 <= i < s.len() && s[i] == LoadState::Unloaded
}

/// The state of a batch: failed if any asset failed, loaded if all are loaded,
/// not loaded if some asset has not started, and loading otherwise.
pub open spec fn group_state(s: Seq<LoadState>) -> LoadState {
    if any_failed(s) {
        LoadState::Failed
    } else if all_loaded(s) {
        LoadState::Loaded
    } else if any_unloaded(s) {
        LoadState::Unloaded
    } else {
        LoadState::Loading
    }
}

/// The state of a batch of assets whose states are `states`.
pub fn group_load_state(states: &Vec<LoadState>) -> (r: LoadState)
    ensures
        r == group_state(states@),
{
    let mut loaded = true;
    let mut unloaded = false;
    let mut i: usize = 0;
    while i < states.len()
        invariant
            i <= states@.len(),
            forall|j: int| 0 <= j < i ==> states@[j] != LoadState::Failed,
            loaded == (forall|j: int| 0 <= j < i ==> states@[j] == LoadState::Loaded),
            unloaded == (exists|j: int| 0 <= j < i && states@[j] == LoadState::Unloaded),
        decreases states.len() - i,
    {
        match states[i] {
            LoadState::Failed => {
                return LoadState::Failed;
            },
            LoadState::Loaded => {},
            LoadState::Loading => {
                loaded = false;
            },
            LoadState::Unloaded => {
                loaded = false;
                unloaded = true;
            },
        }
        i = i + 1;
    }
    if loaded {
        LoadState::Loaded
    } else if unloaded {
        LoadState::Unloaded
    } else {
        LoadState::Loading
    }
}

} // verus!
