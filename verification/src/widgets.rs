//! The value types behind the terminal widgets: what each widget shows,
//! separated from how it is painted.

use vstd::prelude::*;

use crate::state::{SearchState, SearchTarget, StatusMessage, Theme, VarEntry, VarGroup};

verus! {

/// The search input line with its target level.
pub struct SearchBar {
    pub query: String,
    pub target: SearchTarget,
}

impl SearchBar {
    pub fn new(query: String, target: SearchTarget) -> (r: Self)
        ensures
            r.query == query,
            r.target == target,
    {
        SearchBar { query, target }
    }
}

/// The organization > project > group trail.
pub struct BreadCrumb {
    pub organization: String,
    pub project: String,
    pub group_name: String,
    pub viewing_vars: bool,
    pub theme: Theme,
}

impl BreadCrumb {
    pub fn new(
        organization: String,
        project: String,
        group_name: String,
        viewing_vars: bool,
        theme: Theme,
    ) -> (r: Self)
        ensures
            r.organization == organization,
            r.project == project,
            r.group_name == group_name,
            r.viewing_vars == viewing_vars,
            r.theme == theme,
    {
        BreadCrumb { theme, organization, project, group_name, viewing_vars }
    }
}

/// The group list with its highlighted group.
pub struct VarGroupList {
    pub groups: Vec<VarGroup>,
    pub theme: Theme,
    pub selected: VarGroup,
}

impl VarGroupList {
    pub fn new(groups: Vec<VarGroup>, theme: Theme, selected: VarGroup) -> (r: Self)
        ensures
            r.groups == groups,
            r.theme == theme,
            r.selected == selected,
    {
        VarGroupList { groups, theme, selected }
    }
}

/// The entry list of one group with its highlighted entry.
pub struct VarList {
    pub vars: Vec<VarEntry>,
    pub group_name: String,
    pub search_query: Option<String>,
    pub theme: Theme,
    pub selected: VarEntry,
}

impl VarList {
    pub fn new(
        vars: Vec<VarEntry>,
        group_name: String,
        search_query: Option<String>,
        theme: Theme,
        selected: VarEntry,
    ) -> (r: Self)
        ensures
            r.vars == vars,
            r.group_name == group_name,
            r.search_query == search_query,
            r.theme == theme,
            r.selected == selected,
    {
        VarList { vars, group_name, search_query, theme, selected }
    }
}

/// The key hints shown at the bottom, which depend on the mode.
pub struct HelpBar {
    pub theme: Theme,
    pub viewing_vars: bool,
    pub search: SearchState,
}

impl HelpBar {
    pub fn new(theme: Theme, viewing_vars: bool, search: SearchState) -> (r: Self)
        ensures
            r.theme == theme,
            r.viewing_vars == viewing_vars,
            r.search == search,
    {
        HelpBar { theme, viewing_vars, search }
    }
}

/// The status line with its severity.
pub struct StatusBar {
    pub theme: Theme,
    pub message: StatusMessage,
}

impl StatusBar {
    pub fn new(theme: Theme, message: StatusMessage) -> (r: Self)
        ensures
            r.theme == theme,
            r.message == message,
    {
        StatusBar { theme, message }
    }
}

} // verus!
