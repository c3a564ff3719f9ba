//! The intents that drive the reducer, one state transition each.

use vstd::prelude::*;

verus! {

/// One user intent, consumed by the reducer in strict arrival order.
#[derive(Debug, Clone)]
pub enum Action {
    RefreshVarGroups,
    EnterSearchMode,
    ExitSearchMode,
    SearchInsertChar { ch: char },
    SearchBackspace,
    SubmitSearch,
    EnterViewVarGroup { index: usize },
    ExitViewVarGroup,
    ToggleTheme,
    CopySelectedVar,
    ExportCurrentGroup,
    MoveSelectionUp,
    MoveSelectionDown,
    MoveSelectionTop,
    MoveSelectionBottom,
    MoveSelectionPageUp,
    MoveSelectionPageDown,
}

} // verus!
