//! The action reducer: one state transition per action, side effects
//! reported to the caller as commands.

use vstd::prelude::*;
use vstd::string::StringExecFns;
use vstd::view::View as _;

use crate::action::Action;
use crate::state::{
    entry_ranking, group_ranking, same_group, spec_prev_group_name, spec_prev_var_name,
    spec_sync_view, SearchStatus, SearchTarget, State, StatusKind, StatusMessage,
    Theme, VarGroup, View,
};
use crate::text::{pop_char, push_char, replace_spaces, spec_replace_spaces};

verus! {

/// The side effect that the caller must perform after a transition: the
/// reducer itself never touches the outside world.
#[derive(Debug, Clone)]
pub enum Command {
    /// Nothing to do beyond broadcasting the new state.
    NoEffect,
    /// Fetch the variable groups and report back through `finish_refresh`.
    Fetch,
    /// Hand this text to the clipboard.
    CopyText { text: String },
    /// Write this group to this path.
    ExportGroup { group: VarGroup, path: String },
    /// An export was requested with no group selected.
    ExportFailed,
}

pub open spec fn spec_clamp(x: int, lo: int, hi: int) -> int {
    if x < lo {
        lo
    } else if x > hi {
        hi
    } else {
        x
    }
}

/// The position of the current selection within the filtered list; an absent
/// or filtered-out selection counts as position 0.
pub open spec fn spec_position_or_zero(filtered: Seq<usize>, sel: Option<usize>) -> int {
    match sel {
        Some(s) => match filtered.index_of_first(s) {
            Some(i) => i,
            None => 0,
        },
        None => 0,
    }
}

/// The selection after moving by `delta` over `filtered`: the new position
/// is clamped into the list, and an empty list clears the selection.
pub open spec fn spec_shift(delta: int, filtered: Seq<usize>, sel: Option<usize>) -> Option<
    usize,
> {
    if filtered.len() == 0 {
        None
    } else {
        Some(
            filtered[spec_clamp(
                spec_position_or_zero(filtered, sel) + delta,
                0,
                filtered.len() - 1,
            )],
        )
    }
}

proof fn lemma_position_bounds(filtered: Seq<usize>, sel: Option<usize>)
    ensures
        0 <= spec_position_or_zero(filtered, sel),
        filtered.len() > 0 ==> spec_position_or_zero(filtered, sel) < filtered.len(),
{
    match sel {
        Some(s) => {
            filtered.index_of_first_ensures(s);
        },
        None => {},
    }
}

/// Whatever the step, the new selection stays inside the filtered list: its
/// position is clamped into `[0, len - 1]`, and an empty filtered list
/// always yields no selection.
pub proof fn lemma_shift_clamped(delta: int, filtered: Seq<usize>, sel: Option<usize>)
    ensures
        filtered.len() == 0 ==> spec_shift(delta, filtered, sel) is None,
        filtered.len() > 0 ==> (spec_shift(delta, filtered, sel) matches Some(x)
            && filtered.contains(x)),
{
    if filtered.len() > 0 {
        lemma_position_bounds(filtered, sel);
        let pos = spec_clamp(
            spec_position_or_zero(filtered, sel) + delta,
            0,
            filtered.len() - 1,
        );
        assert(0 <= pos < filtered.len());
        assert(filtered.contains(filtered[pos]));
    }
}

/// A zero-step move keeps a selection that is a member of the filtered
/// list, and snaps any other selection to the first member.
pub proof fn lemma_shift_zero(filtered: Seq<usize>, sel: Option<usize>)
    requires
        filtered.len() > 0,
    ensures
        sel matches Some(s) && filtered.contains(s) ==> spec_shift(0, filtered, sel) == sel,
        (match sel {
            Some(s) => !filtered.contains(s),
            None => true,
        }) ==> spec_shift(0, filtered, sel) == Some(filtered[0]),
{
    match sel {
        Some(s) => {
            filtered.index_of_first_ensures(s);
        },
        None => {},
    }
}

/// A step as long as the list jumps to its first or last element.
pub proof fn lemma_shift_to_ends(delta: int, filtered: Seq<usize>, sel: Option<usize>)
    requires
        filtered.len() > 0,
    ensures
        delta >= filtered.len() ==> spec_shift(delta, filtered, sel) == Some(
            filtered[filtered.len() - 1],
        ),
        delta <= -(filtered.len() as int) ==> spec_shift(delta, filtered, sel) == Some(
            filtered[0],
        ),
{
    lemma_position_bounds(filtered, sel);
}

fn position_in(filtered: &Vec<usize>, target: usize) -> (r: usize)
    ensures
        r as int == spec_position_or_zero(filtered@, Some(target)),
        filtered@.len() > 0 ==> (r as int) < filtered@.len(),
{
    let mut i: usize = 0;
    while i < filtered.len()
        invariant
            i <= filtered@.len(),
            forall|j: int| 0 <= j < i ==> filtered@[j] != target,
        decreases filtered@.len() - i,
    {
        if filtered[i] == target {
            proof {
                filtered@.index_of_first_ensures(target);
                assert(filtered@.contains(target)) by {
                    assert(filtered@[i as int] == target);
                }
                let idx = filtered@.index_of_first(target).unwrap();
                if idx < i as int {
                    assert(filtered@[idx] != target);
                }
            }
            return i;
        }
        i += 1;
    }
    proof {
        if filtered@.contains(target) {
            let w = choose|w: int| 0 <= w < filtered@.len() && filtered@[w] == target;
            assert(filtered@[w] != target);
        }
        filtered@.index_of_first_ensures(target);
    }
    0
}

fn shift_selection(delta: isize, filtered: Vec<usize>, selected_idx: &mut Option<usize>)
    ensures
        *final(selected_idx) == spec_shift(delta as int, filtered@, *old(selected_idx)),
{
    if filtered.len() == 0 {
        *selected_idx = None;
        return;
    }
    let len = filtered.len();
    let current_position: usize = match *selected_idx {
        Some(idx) => position_in(&filtered, idx),
        None => 0,
    };
    proof {
        lemma_position_bounds(filtered@, *old(selected_idx));
    }
    let next: usize = if delta >= 0 {
        let d = delta as usize;
        if d >= len - 1 - current_position {
            len - 1
        } else {
            current_position + d
        }
    } else {
        let mag: usize = if delta == isize::MIN {
            (isize::MAX as usize) + 1
        } else {
            (-delta) as usize
        };
        if mag >= current_position {
            0
        } else {
            current_position - mag
        }
    };
    proof {
        assert(next as int == spec_clamp(
            spec_position_or_zero(filtered@, *old(selected_idx)) + delta as int,
            0,
            filtered@.len() - 1,
        ));
    }
    *selected_idx = Some(filtered[next]);
}

/// The filtered entry list of group `gi` of `s`, or empty where `gi` is out
/// of range.
pub open spec fn spec_entry_filtered(s: State, gi: usize) -> Seq<usize> {
    if gi < s.data.groups@.len() {
        entry_ranking(s.data.groups@[gi as int].variables@, s.ui.search.spec_vars_query(gi as int))
    } else {
        Seq::empty()
    }
}

/// The first element of a filtered list, if any.
pub open spec fn spec_first_of(s: Seq<usize>) -> Option<usize> {
    if s.len() == 0 {
        None
    } else {
        Some(s[0])
    }
}

/// The last element of a filtered list, if any.
pub open spec fn spec_last_of(s: Seq<usize>) -> Option<usize> {
    if s.len() == 0 {
        None
    } else {
        Some(s[s.len() - 1])
    }
}

/// The view after a selection move by `delta` on the active level of `s`.
pub open spec fn spec_move_view(s: State, delta: int) -> View {
    match s.ui.view {
        View::Vars { group_idx, selected_var_idx } => View::Vars {
            group_idx,
            selected_var_idx: spec_shift(delta, spec_entry_filtered(s, group_idx), selected_var_idx),
        },
        View::Groups { selected_idx } => View::Groups {
            selected_idx: spec_shift(
                delta,
                group_ranking(s.data.groups@, s.ui.search.groups_query@),
                selected_idx,
            ),
        },
    }
}

/// The view after a jump to the first or last element of the active level.
pub open spec fn spec_jump_view(s: State, to_last: bool) -> View {
    match s.ui.view {
        View::Vars { group_idx, selected_var_idx } => View::Vars {
            group_idx,
            selected_var_idx: if to_last {
                spec_last_of(spec_entry_filtered(s, group_idx))
            } else {
                spec_first_of(spec_entry_filtered(s, group_idx))
            },
        },
        View::Groups { selected_idx } => View::Groups {
            selected_idx: if to_last {
                spec_last_of(group_ranking(s.data.groups@, s.ui.search.groups_query@))
            } else {
                spec_first_of(group_ranking(s.data.groups@, s.ui.search.groups_query@))
            },
        },
    }
}

/// The view after the auto-select-first policy ran for `target` against the
/// data and queries of `s`, starting from view `v`.
pub open spec fn spec_apply_search_view(s: State, v: View, target: SearchTarget) -> View {
    match target {
        SearchTarget::Groups => {
            let filtered = group_ranking(s.data.groups@, s.ui.search.groups_query@);
            if filtered.len() == 0 {
                View::Groups { selected_idx: None }
            } else {
                let idx = filtered[0];
                match v {
                    View::Groups { .. } => View::Groups { selected_idx: Some(idx) },
                    View::Vars { .. } => View::Vars {
                        group_idx: idx,
                        selected_var_idx: spec_first_of(spec_entry_filtered(s, idx)),
                    },
                }
            }
        },
        SearchTarget::Vars => match v {
            View::Vars { group_idx, .. } => View::Vars {
                group_idx,
                selected_var_idx: spec_first_of(spec_entry_filtered(s, group_idx)),
            },
            View::Groups { selected_idx } => View::Groups { selected_idx },
        },
    }
}

/// The actions that assume a particular mode; handing the reducer one of
/// them in the wrong mode is a programming error of the action producer.
pub open spec fn action_allowed(s: State, a: Action) -> bool {
    match a {
        Action::EnterSearchMode => !(s.ui.search.status is Active),
        Action::ExitSearchMode => s.ui.search.status is Active,
        Action::SearchInsertChar { .. } => s.ui.search.status is Active,
        Action::SearchBackspace => s.ui.search.status is Active,
        Action::SubmitSearch => s.ui.search.status is Active,
        Action::EnterViewVarGroup { .. } => !(s.ui.view is Vars),
        Action::ExitViewVarGroup => s.ui.view is Vars,
        _ => true,
    }
}

/// Neither the raw data nor the theme changed.
pub open spec fn same_data(pre: State, post: State) -> bool {
    post.data == pre.data && post.theme == pre.theme
}

/// The whole search state is unchanged.
pub open spec fn same_search(pre: State, post: State) -> bool {
    post.ui.search == pre.ui.search
}

/// Status message and fetching flag are unchanged.
pub open spec fn same_status(pre: State, post: State) -> bool {
    post.ui.status == pre.ui.status && post.ui.is_fetching == pre.ui.is_fetching
}

/// What each action does: the full transition relation of the reducer.
pub open spec fn reduce_post(pre: State, action: Action, post: State, cmd: Command) -> bool {
    match action {
        Action::RefreshVarGroups => {
            &&& same_data(pre, post)
            &&& same_search(pre, post)
            &&& post.ui.view == pre.ui.view
            &&& post.ui.status == pre.ui.status
            &&& post.ui.is_fetching == true
            &&& cmd is Fetch
        },
        Action::EnterSearchMode => {
            &&& same_data(pre, post)
            &&& same_status(pre, post)
            &&& post.ui.view == pre.ui.view
            &&& post.ui.search.status == SearchStatus::Active(
                if pre.ui.view is Vars {
                    SearchTarget::Vars
                } else {
                    SearchTarget::Groups
                },
            )
            &&& post.ui.search.groups_query == pre.ui.search.groups_query
            &&& post.ui.search.vars_queries == pre.ui.search.vars_queries
            &&& cmd is NoEffect
        },
        Action::ExitSearchMode => {
            &&& same_data(pre, post)
            &&& same_status(pre, post)
            &&& post.ui.view == pre.ui.view
            &&& post.ui.search.status == SearchStatus::Inactive
            &&& post.ui.search.groups_query == pre.ui.search.groups_query
            &&& post.ui.search.vars_queries == pre.ui.search.vars_queries
            &&& cmd is NoEffect
        },
        Action::SearchInsertChar { ch } => {
            &&& same_data(pre, post)
            &&& same_status(pre, post)
            &&& post.ui.search.status == pre.ui.search.status
            &&& cmd is NoEffect
            &&& match pre.ui.search.spec_active_target() {
                Some(SearchTarget::Groups) => {
                    &&& post.ui.search.groups_query@ == pre.ui.search.groups_query@.push(ch)
                    &&& post.ui.search.vars_queries == pre.ui.search.vars_queries
                    &&& post.ui.view == spec_apply_search_view(
                        post,
                        pre.ui.view,
                        SearchTarget::Groups,
                    )
                },
                Some(SearchTarget::Vars) => match pre.spec_vars_group_idx() {
                    Some(gi) => {
                        &&& post.ui.search.groups_query == pre.ui.search.groups_query
                        &&& post.ui.search.spec_vars_query_stored(gi as int) == Some(
                            pre.ui.search.spec_vars_query(gi as int).push(ch),
                        )
                        &&& forall|j: int|
                            j != gi ==> post.ui.search.spec_vars_query_stored(j)
                                == pre.ui.search.spec_vars_query_stored(j)
                        &&& post.ui.view == spec_apply_search_view(
                            post,
                            pre.ui.view,
                            SearchTarget::Vars,
                        )
                    },
                    None => post.ui == pre.ui,
                },
                None => false,
            }
        },
        Action::SearchBackspace => {
            &&& same_data(pre, post)
            &&& same_status(pre, post)
            &&& post.ui.search.status == pre.ui.search.status
            &&& cmd is NoEffect
            &&& match pre.ui.search.spec_active_target() {
                Some(SearchTarget::Groups) => {
                    &&& post.ui.search.groups_query@ == (if pre.ui.search.groups_query@.len()
                        == 0 {
                        pre.ui.search.groups_query@
                    } else {
                        pre.ui.search.groups_query@.drop_last()
                    })
                    &&& post.ui.search.vars_queries == pre.ui.search.vars_queries
                    &&& post.ui.view == spec_apply_search_view(
                        post,
                        pre.ui.view,
                        SearchTarget::Groups,
                    )
                },
                Some(SearchTarget::Vars) => match pre.spec_vars_group_idx() {
                    Some(gi) => {
                        &&& post.ui.search.groups_query == pre.ui.search.groups_query
                        &&& (if pre.ui.search.spec_vars_query(gi as int).len() <= 1 {
                            post.ui.search.spec_vars_query_stored(gi as int) is None
                        } else {
                            post.ui.search.spec_vars_query_stored(gi as int) == Some(
                                pre.ui.search.spec_vars_query(gi as int).drop_last(),
                            )
                        })
                        &&& forall|j: int|
                            j != gi ==> post.ui.search.spec_vars_query_stored(j)
                                == pre.ui.search.spec_vars_query_stored(j)
                        &&& post.ui.view == spec_apply_search_view(
                            post,
                            pre.ui.view,
                            SearchTarget::Vars,
                        )
                    },
                    None => post.ui == pre.ui,
                },
                None => false,
            }
        },
        Action::SubmitSearch => {
            &&& same_data(pre, post)
            &&& same_status(pre, post)
            &&& post.ui.search.status == SearchStatus::Inactive
            &&& post.ui.search.groups_query == pre.ui.search.groups_query
            &&& post.ui.search.vars_queries == pre.ui.search.vars_queries
            &&& cmd is NoEffect
            &&& match pre.ui.search.spec_active_target() {
                Some(t) => post.ui.view == spec_apply_search_view(pre, pre.ui.view, t),
                None => false,
            }
        },
        Action::EnterViewVarGroup { index } => {
            &&& same_data(pre, post)
            &&& same_status(pre, post)
            &&& post.ui.search.groups_query == pre.ui.search.groups_query
            &&& post.ui.search.vars_queries == pre.ui.search.vars_queries
            &&& cmd is NoEffect
            &&& if index >= pre.data.groups@.len() {
                post.ui.view == pre.ui.view && post.ui.search.status == pre.ui.search.status
            } else {
                post.ui.view == (View::Vars {
                    group_idx: index,
                    selected_var_idx: if pre.data.groups@[index as int].variables@.len() == 0 {
                        None
                    } else {
                        Some(0usize)
                    },
                }) && post.ui.search.status == SearchStatus::Inactive
            }
        },
        Action::ExitViewVarGroup => {
            &&& same_data(pre, post)
            &&& same_status(pre, post)
            &&& post.ui.search.status == SearchStatus::Inactive
            &&& post.ui.search.groups_query == pre.ui.search.groups_query
            &&& post.ui.search.vars_queries == pre.ui.search.vars_queries
            &&& post.ui.view == (View::Groups { selected_idx: pre.spec_current_group_idx() })
            &&& cmd is NoEffect
        },
        Action::ToggleTheme => {
            &&& post.data == pre.data
            &&& post.ui == pre.ui
            &&& post.theme == (match pre.theme {
                Theme::Dark => Theme::Light,
                Theme::Light => Theme::Dark,
            })
            &&& cmd is NoEffect
        },
        Action::CopySelectedVar => {
            &&& same_data(pre, post)
            &&& post.ui == pre.ui
            &&& match pre.spec_current_var() {
                Some(v) => cmd matches Command::CopyText { text } && text@ == v.name@ + "="@
                    + v.value@,
                None => cmd is NoEffect,
            }
        },
        Action::ExportCurrentGroup => {
            &&& same_data(pre, post)
            &&& post.ui == pre.ui
            &&& match pre.spec_current_group() {
                Some(g) => cmd matches Command::ExportGroup { group, path } && same_group(group, g)
                    && path@ == spec_replace_spaces(g.name@) + "_variables.json"@,
                None => cmd is ExportFailed,
            }
        },
        Action::MoveSelectionUp => {
            &&& same_data(pre, post)
            &&& same_status(pre, post)
            &&& same_search(pre, post)
            &&& post.ui.view == spec_move_view(pre, -1)
            &&& cmd is NoEffect
        },
        Action::MoveSelectionDown => {
            &&& same_data(pre, post)
            &&& same_status(pre, post)
            &&& same_search(pre, post)
            &&& post.ui.view == spec_move_view(pre, 1)
            &&& cmd is NoEffect
        },
        Action::MoveSelectionPageUp => {
            &&& same_data(pre, post)
            &&& same_status(pre, post)
            &&& same_search(pre, post)
            &&& post.ui.view == spec_move_view(pre, -10)
            &&& cmd is NoEffect
        },
        Action::MoveSelectionPageDown => {
            &&& same_data(pre, post)
            &&& same_status(pre, post)
            &&& same_search(pre, post)
            &&& post.ui.view == spec_move_view(pre, 10)
            &&& cmd is NoEffect
        },
        Action::MoveSelectionTop => {
            &&& same_data(pre, post)
            &&& same_status(pre, post)
            &&& same_search(pre, post)
            &&& post.ui.view == spec_jump_view(pre, false)
            &&& cmd is NoEffect
        },
        Action::MoveSelectionBottom => {
            &&& same_data(pre, post)
            &&& same_status(pre, post)
            &&& same_search(pre, post)
            &&& post.ui.view == spec_jump_view(pre, true)
            &&& cmd is NoEffect
        },
    }
}

/// The single owner of the application state: applies exactly one
/// transition per action and names the side effect the caller must run.
#[derive(Debug)]
pub struct Reducer {
    pub state: State,
}

impl Reducer {
    pub fn new(state: State) -> (r: Self)
        ensures
            r.state == state,
    {
        Reducer { state }
    }

    pub fn toggle_theme(&mut self)
        ensures
            final(self).state.data == old(self).state.data,
            final(self).state.ui == old(self).state.ui,
            final(self).state.filter_cache == old(self).state.filter_cache,
            final(self).state.theme == (match old(self).state.theme {
                Theme::Dark => Theme::Light,
                Theme::Light => Theme::Dark,
            }),
    {
        self.state.theme = match self.state.theme {
            Theme::Dark => Theme::Light,
            Theme::Light => Theme::Dark,
        };
    }

    /// Move the selection of the active level by `delta` within its
    /// filtered list.
    pub fn move_selection(&mut self, delta: isize)
        requires
            old(self).state.wf(),
        ensures
            final(self).state.wf(),
            final(self).state.data == old(self).state.data,
            final(self).state.theme == old(self).state.theme,
            final(self).state.ui.search == old(self).state.ui.search,
            final(self).state.ui.status == old(self).state.ui.status,
            final(self).state.ui.is_fetching == old(self).state.ui.is_fetching,
            final(self).state.ui.view == spec_move_view(old(self).state, delta as int),
    {
        if self.state.is_viewing_vars() {
            let group_idx = match self.state.vars_group_idx() {
                Some(g) => g,
                None => {
                    proof {
                        assert(false);
                    }
                    return ;
                },
            };
            let filtered = self.state.filtered_var_indices_for(group_idx);
            let mut sel: Option<usize> = match &self.state.ui.view {
                View::Vars { selected_var_idx, .. } => *selected_var_idx,
                View::Groups { .. } => None,
            };
            shift_selection(delta, filtered, &mut sel);
            self.state.ui.view = View::Vars { group_idx, selected_var_idx: sel };
        } else {
            let filtered = self.state.filtered_group_indices();
            let mut sel: Option<usize> = match &self.state.ui.view {
                View::Groups { selected_idx } => *selected_idx,
                View::Vars { .. } => None,
            };
            shift_selection(delta, filtered, &mut sel);
            self.state.ui.view = View::Groups { selected_idx: sel };
        }
    }

    /// Jump the selection of the active level to the first or last element
    /// of its filtered list.
    fn jump_selection(&mut self, to_last: bool)
        requires
            old(self).state.wf(),
        ensures
            final(self).state.wf(),
            final(self).state.data == old(self).state.data,
            final(self).state.theme == old(self).state.theme,
            final(self).state.ui.search == old(self).state.ui.search,
            final(self).state.ui.status == old(self).state.ui.status,
            final(self).state.ui.is_fetching == old(self).state.ui.is_fetching,
            final(self).state.ui.view == spec_jump_view(old(self).state, to_last),
    {
        if self.state.is_viewing_vars() {
            let group_idx = match self.state.vars_group_idx() {
                Some(g) => g,
                None => {
                    proof {
                        assert(false);
                    }
                    return ;
                },
            };
            let filtered = self.state.filtered_var_indices_for(group_idx);
            let sel: Option<usize> = if filtered.len() == 0 {
                None
            } else if to_last {
                Some(filtered[filtered.len() - 1])
            } else {
                Some(filtered[0])
            };
            self.state.ui.view = View::Vars { group_idx, selected_var_idx: sel };
        } else {
            let filtered = self.state.filtered_group_indices();
            let sel: Option<usize> = if filtered.len() == 0 {
                None
            } else if to_last {
                Some(filtered[filtered.len() - 1])
            } else {
                Some(filtered[0])
            };
            self.state.ui.view = View::Groups { selected_idx: sel };
        }
    }

    /// Snap the selection to the first element of the freshly filtered
    /// list; at the group level the entry selection of the newly selected
    /// group snaps to that group's first filtered entry.
    pub fn apply_search_selection(&mut self, target: SearchTarget)
        requires
            old(self).state.wf(),
        ensures
            final(self).state.wf(),
            final(self).state.data == old(self).state.data,
            final(self).state.theme == old(self).state.theme,
            final(self).state.ui.search == old(self).state.ui.search,
            final(self).state.ui.status == old(self).state.ui.status,
            final(self).state.ui.is_fetching == old(self).state.ui.is_fetching,
            final(self).state.ui.view == spec_apply_search_view(
                old(self).state,
                old(self).state.ui.view,
                target,
            ),
    {
        match target {
            SearchTarget::Groups => {
                let filtered = self.state.filtered_group_indices();
                if filtered.len() == 0 {
                    self.state.ui.view = View::Groups { selected_idx: None };
                    return ;
                }
                let idx = filtered[0];
                let var_filtered = self.state.filtered_var_indices_for(idx);
                let first_var: Option<usize> = if var_filtered.len() == 0 {
                    None
                } else {
                    Some(var_filtered[0])
                };
                match &self.state.ui.view {
                    View::Groups { .. } => {
                        self.state.ui.view = View::Groups { selected_idx: Some(idx) };
                    },
                    View::Vars { .. } => {
                        self.state.ui.view = View::Vars {
                            group_idx: idx,
                            selected_var_idx: first_var,
                        };
                    },
                }
            },
            SearchTarget::Vars => {
                let group_idx = match self.state.vars_group_idx() {
                    Some(g) => g,
                    None => {
                        return ;
                    },
                };
                let filtered = self.state.filtered_var_indices_for(group_idx);
                let first: Option<usize> = if filtered.len() == 0 {
                    None
                } else {
                    Some(filtered[0])
                };
                self.state.ui.view = View::Vars { group_idx, selected_var_idx: first };
            },
        }
    }

    /// Apply one action. The caller must perform the returned command and,
    /// for [`Command::Fetch`], report the outcome through
    /// [`Reducer::finish_refresh`].
    pub fn reduce(&mut self, action: Action) -> (cmd: Command)
        requires
            old(self).state.wf(),
            action_allowed(old(self).state, action),
        ensures
            final(self).state.wf(),
            reduce_post(old(self).state, action, final(self).state, cmd),
    {
        match action {
            Action::RefreshVarGroups => {
                self.state.ui.is_fetching = true;
                Command::Fetch
            },
            Action::EnterSearchMode => {
                let target = if self.state.is_viewing_vars() {
                    SearchTarget::Vars
                } else {
                    SearchTarget::Groups
                };
                self.state.ui.search.activate(target);
                Command::NoEffect
            },
            Action::ExitSearchMode => {
                self.state.ui.search.deactivate();
                Command::NoEffect
            },
            Action::SearchInsertChar { ch } => {
                match self.state.ui.search.active_target() {
                    Some(SearchTarget::Groups) => {
                        push_char(&mut self.state.ui.search.groups_query, ch);
                        self.state.invalidate_group_cache();
                        self.apply_search_selection(SearchTarget::Groups);
                    },
                    Some(SearchTarget::Vars) => {
                        match self.state.vars_group_idx() {
                            Some(group_idx) => {
                                let mut q: String = String::from_str(
                                    self.state.ui.search.vars_query(group_idx),
                                );
                                push_char(&mut q, ch);
                                self.state.ui.search.set_vars_query(group_idx, q);
                                self.state.invalidate_var_cache();
                                self.apply_search_selection(SearchTarget::Vars);
                            },
                            None => {},
                        }
                    },
                    None => {
                        proof {
                            assert(false);
                        }
                    },
                }
                Command::NoEffect
            },
            Action::SearchBackspace => {
                match self.state.ui.search.active_target() {
                    Some(SearchTarget::Groups) => {
                        pop_char(&mut self.state.ui.search.groups_query);
                        self.state.invalidate_group_cache();
                        self.apply_search_selection(SearchTarget::Groups);
                    },
                    Some(SearchTarget::Vars) => {
                        match self.state.vars_group_idx() {
                            Some(group_idx) => {
                                let mut q: String = String::from_str(
                                    self.state.ui.search.vars_query(group_idx),
                                );
                                pop_char(&mut q);
                                if q.as_str().is_empty() {
                                    self.state.ui.search.clear_vars_query(group_idx);
                                } else {
                                    self.state.ui.search.set_vars_query(group_idx, q);
                                }
                                self.state.invalidate_var_cache();
                                self.apply_search_selection(SearchTarget::Vars);
                            },
                            None => {},
                        }
                    },
                    None => {
                        proof {
                            assert(false);
                        }
                    },
                }
                Command::NoEffect
            },
            Action::SubmitSearch => {
                match self.state.ui.search.active_target() {
                    Some(target) => {
                        self.apply_search_selection(target);
                    },
                    None => {
                        proof {
                            assert(false);
                        }
                    },
                }
                self.state.ui.search.deactivate();
                Command::NoEffect
            },
            Action::EnterViewVarGroup { index } => {
                if index >= self.state.groups().len() {
                    return Command::NoEffect;
                }
                let selected_var_idx: Option<usize> = if self.state.groups()[index]
                    .variables
                    .len() == 0 {
                    None
                } else {
                    Some(0)
                };
                self.state.ui.view = View::Vars { group_idx: index, selected_var_idx };
                self.state.ui.search.deactivate();
                Command::NoEffect
            },
            Action::ExitViewVarGroup => {
                let selected_idx = self.state.current_group_idx();
                self.state.ui.view = View::Groups { selected_idx };
                self.state.ui.search.deactivate();
                Command::NoEffect
            },
            Action::ToggleTheme => {
                self.toggle_theme();
                Command::NoEffect
            },
            Action::CopySelectedVar => {
                let (name, value): (String, String) = match self.state.current_var() {
                    Some(v) => (v.name.clone(), v.value.clone()),
                    None => {
                        return Command::NoEffect;
                    },
                };
                let text = name.concat("=").concat(value.as_str());
                Command::CopyText { text }
            },
            Action::ExportCurrentGroup => {
                let group: VarGroup = match self.state.current_group() {
                    Some(g) => g.clone(),
                    None => {
                        return Command::ExportFailed;
                    },
                };
                let path = replace_spaces(&group.name).concat("_variables.json");
                Command::ExportGroup { group, path }
            },
            Action::MoveSelectionUp => {
                self.move_selection(-1);
                Command::NoEffect
            },
            Action::MoveSelectionDown => {
                self.move_selection(1);
                Command::NoEffect
            },
            Action::MoveSelectionTop => {
                self.jump_selection(false);
                Command::NoEffect
            },
            Action::MoveSelectionBottom => {
                self.jump_selection(true);
                Command::NoEffect
            },
            Action::MoveSelectionPageUp => {
                self.move_selection(-10);
                Command::NoEffect
            },
            Action::MoveSelectionPageDown => {
                self.move_selection(10);
                Command::NoEffect
            },
        }
    }

    /// Record the outcome of a fetch: a success replaces the data wholesale
    /// and clears the status, a failure leaves the data untouched and sets
    /// an error status naming the reason; either way fetching is over.
    pub fn finish_refresh(&mut self, outcome: Result<Vec<VarGroup>, String>)
        requires
            old(self).state.wf(),
        ensures
            final(self).state.wf(),
            final(self).state.theme == old(self).state.theme,
            final(self).state.ui.search == old(self).state.ui.search,
            final(self).state.ui.is_fetching == false,
            final(self).state.data.organization == old(self).state.data.organization,
            final(self).state.data.project == old(self).state.data.project,
            match outcome {
                Ok(groups) => {
                    &&& final(self).state.data.groups == groups
                    &&& final(self).state.ui.status is None
                    &&& final(self).state.ui.view == spec_sync_view(
                        old(self).state.ui.view,
                        groups@,
                        spec_prev_group_name(old(self).state),
                        spec_prev_var_name(old(self).state),
                    )
                },
                Err(reason) => {
                    &&& final(self).state.data.groups == old(self).state.data.groups
                    &&& final(self).state.ui.view == old(self).state.ui.view
                    &&& final(self).state.ui.status matches Some(m) && m.kind == StatusKind::Error
                        && m.text@ == "Failed to load variable groups: "@ + reason@
                },
            },
    {
        match outcome {
            Ok(groups) => {
                self.state.set_groups(groups);
                self.state.ui.clear_status();
            },
            Err(reason) => {
                let text = String::from_str("Failed to load variable groups: ").concat(
                    reason.as_str(),
                );
                self.state.ui.set_status(StatusMessage::error(text));
            },
        }
        self.state.ui.is_fetching = false;
    }
}

} // verus!
