//! Client-side state stores and the messages that change them.
use vstd::prelude::*;

verus! {

/// The part of the application state that episode lists read: which episode descriptions
/// are shown in full, by episode GUID.
pub struct AppState {
    pub expanded_descriptions: Vec<String>,
}

/// Messages that show or hide an episode's full description.
pub enum AppStateMsg {
    ExpandEpisode(String),
    CollapseEpisode(String),
}

/// The message banners of the user interface.
pub struct UIState {
    pub error_message: Option<String>,
    pub info_message: Option<String>,
}

/// Messages that dismiss a banner.
pub enum UIStateMsg {
    ClearErrorMessage,
    ClearInfoMessage,
}

impl AppState {
    /// The GUIDs whose descriptions are expanded.
    pub open spec fn expanded(&self) -> Set<Seq<char>> {
        Set::new(|g: Seq<char>| exists|i: int| 0 <= i < self.expanded_descriptions@.len()
            && #[trigger] self.expanded_descriptions@[i]@ == g)
    }

    /// No GUID is listed twice.
    pub open spec fn wf(&self) -> bool {
        forall|i: int, j: int|
            0 <= i < j < self.expanded_descriptions@.len()
                ==> #[trigger] self.expanded_descriptions@[i]@
                != #[trigger] self.expanded_descriptions@[j]@
    }

    /// Nothing expanded.
    pub fn new() -> (r: AppState)
        ensures
            r.wf(),
            r.expanded() == Set::<Seq<char>>::empty(),
    {
        let r = AppState { expanded_descriptions: Vec::new() };
        assert(r.expanded() =~= Set::<Seq<char>>::empty());
        r
    }

    /// Where `guid` stands in the list, if it is there.
    fn position(&self, guid: &String) -> (r: Option<usize>)
        ensures
            match r {
                Some(i) => i < self.expanded_descriptions@.len()
                    && self.expanded_descriptions@[i as int]@ == guid@,
                None => !self.expanded().contains(guid@),
            },
    {
        let n = self.expanded_descriptions.len();
        let mut i: usize = 0;
        while i < n
            invariant
                n == self.expanded_descriptions@.len(),
                i <= n,
                forall|j: int| 0 <= j < i ==> #[trigger] self.expanded_descriptions@[j]@ != guid@,
            decreases n - i,
        {
            if self.expanded_descriptions[i] == *guid {
                return Some(i);
            }
            i = i + 1;
        }
        None
    }

    /// Whether the description of `guid` is shown in full.
    pub fn is_expanded(&self, guid: &String) -> (r: bool)
        ensures
            r == self.expanded().contains(guid@),
    {
        match self.position(guid) {
            Some(_) => true,
            None => false,
        }
    }
}

impl AppStateMsg {
    /// The message that a click on an episode's description sends: collapse it when it is
    /// expanded, expand it otherwise.
    pub fn toggle(state: &AppState, guid: String) -> (r: AppStateMsg)
        ensures
            r == if state.expanded().contains(guid@) {
                AppStateMsg::CollapseEpisode(guid)
            } else {
                AppStateMsg::ExpandEpisode(guid)
            },
    {
        if state.is_expanded(&guid) {
            AppStateMsg::CollapseEpisode(guid)
        } else {
            AppStateMsg::ExpandEpisode(guid)
        }
    }

    /// The state after the message: the GUID is added to, or removed from, the expanded set.
    pub fn apply(self, state: AppState) -> (r: AppState)
        requires
            state.wf(),
        ensures
            r.wf(),
            match self {
                AppStateMsg::ExpandEpisode(g) => r.expanded() == state.expanded().insert(g@),
                AppStateMsg::CollapseEpisode(g) => r.expanded() == state.expanded().remove(g@),
            },
    {
        let mut state = state;
        let ghost before = state;
        match self {
            AppStateMsg::ExpandEpisode(guid) => {
                match state.position(&guid) {
                    Some(_) => {
                        assert(state.expanded() =~= before.expanded().insert(guid@));
                    },
                    None => {
                        state.expanded_descriptions.push(guid);
                        assert forall|g: Seq<char>|
                            state.expanded().contains(g) == before.expanded().insert(
                                guid@,
                            ).contains(g) by {
                            let v = state.expanded_descriptions@;
                            if before.expanded().contains(g) {
                                let i = choose|i: int|
                                    0 <= i < before.expanded_descriptions@.len()
                                        && #[trigger] before.expanded_descriptions@[i]@ == g;
                                assert(v[i]@ == g);
                            }
                            if g == guid@ {
                                assert(v[v.len() - 1]@ == g);
                            }
                        }
                        assert(state.expanded() =~= before.expanded().insert(guid@));
                    },
                }
            },
            AppStateMsg::CollapseEpisode(guid) => {
                match state.position(&guid) {
                    Some(i) => {
                        state.expanded_descriptions.remove(i);
                        let ghost old_v = before.expanded_descriptions@;
                        let ghost v = state.expanded_descriptions@;
                        assert(v =~= old_v.subrange(0, i as int) + old_v.subrange(
                            i + 1,
                            old_v.len() as int,
                        ));
                        assert forall|g: Seq<char>|
                            state.expanded().contains(g) == before.expanded().remove(
                                guid@,
                            ).contains(g) by {
                            if state.expanded().contains(g) {
                                let k = choose|k: int|
                                    0 <= k < v.len() && #[trigger] v[k]@ == g;
                                if k < i {
                                    assert(old_v[k]@ == g);
                                } else {
                                    assert(old_v[k + 1]@ == g);
                                }
                            }
                            if before.expanded().remove(guid@).contains(g) {
                                let k = choose|k: int|
                                    0 <= k < old_v.len() && #[trigger] old_v[k]@ == g;
                                assert(k != i);
                                if k < i {
                                    assert(v[k]@ == g);
                                } else {
                                    assert(v[k - 1]@ == g);
                                }
                            }
                        }
                        assert(state.expanded() =~= before.expanded().remove(guid@));
                    },
                    None => {
                        assert(state.expanded() =~= before.expanded().remove(guid@));
                    },
                }
            },
        }
        state
    }
}

impl UIStateMsg {
    /// The state after the message: the named banner is cleared, the other one kept.
    pub fn apply(self, state: UIState) -> (r: UIState)
        ensures
            match self {
                UIStateMsg::ClearErrorMessage => r.error_message is None && r.info_message
                    == state.info_message,
                UIStateMsg::ClearInfoMessage => r.info_message is None && r.error_message
                    == state.error_message,
            },
    {
        let mut state = state;
        match self {
            UIStateMsg::ClearErrorMessage => {
                state.error_message = None;
            },
            UIStateMsg::ClearInfoMessage => {
                state.info_message = None;
            },
        }
        state
    }
}

} // verus!
