use azure_vars::state::{
    SearchState, SearchTarget, State, StatusKind, StatusMessage, Theme, VarEntry, VarGroup,
};
use azure_vars::widgets::{BreadCrumb, HelpBar, SearchBar, StatusBar, VarGroupList, VarList};

#[test]
fn status_message_constructors_set_the_kind() {
    let info = StatusMessage::info("loaded".to_string());
    assert!(matches!(info.kind, StatusKind::Info));
    assert_eq!(info.text.as_str(), "loaded");

    let error = StatusMessage::error("boom".to_string());
    assert!(matches!(error.kind, StatusKind::Error));
    assert_eq!(error.text.as_str(), "boom");
}

#[test]
fn fresh_state_has_nothing_selected() {
    let state = State::new("org".to_string(), "proj".to_string());
    assert_eq!(state.organization(), "org");
    assert_eq!(state.project(), "proj");
    assert!(state.groups().is_empty());
    assert!(state.current_group().is_none());
    assert!(state.current_var().is_none());
    assert!(!state.is_viewing_vars());
    assert!(!state.ui.search.is_active());
    assert!(state.ui.status.is_none());
    assert!(matches!(state.theme, Theme::Dark));
}

#[test]
fn search_bar_keeps_query_and_target() {
    let bar = SearchBar::new("alp".to_string(), SearchTarget::Groups);
    assert_eq!(bar.query.as_str(), "alp");
    assert!(matches!(bar.target, SearchTarget::Groups));
}

#[test]
fn bread_crumb_keeps_its_trail() {
    let crumb = BreadCrumb::new(
        "org".to_string(),
        "proj".to_string(),
        "grp".to_string(),
        true,
        Theme::Light,
    );
    assert_eq!(crumb.organization.as_str(), "org");
    assert_eq!(crumb.project.as_str(), "proj");
    assert_eq!(crumb.group_name.as_str(), "grp");
    assert!(crumb.viewing_vars);
    assert!(matches!(crumb.theme, Theme::Light));
}

#[test]
fn list_widgets_keep_their_rows() {
    let group = VarGroup {
        name: "grp".to_string(),
        variables: vec![],
    };
    let list = VarGroupList::new(vec![group.clone()], Theme::Dark, group.clone());
    assert_eq!(list.groups.len(), 1);
    assert_eq!(list.selected.name.as_str(), "grp");

    let entry = VarEntry {
        name: "a".to_string(),
        value: "1".to_string(),
        is_secret: false,
    };
    let vars = VarList::new(
        vec![entry.clone()],
        "grp".to_string(),
        Some("a".to_string()),
        Theme::Dark,
        entry.clone(),
    );
    assert_eq!(vars.vars.len(), 1);
    assert_eq!(vars.group_name.as_str(), "grp");
    assert_eq!(vars.search_query.as_deref(), Some("a"));
    assert_eq!(vars.selected.name.as_str(), "a");
}

#[test]
fn help_and_status_bars_keep_their_fields() {
    let help = HelpBar::new(Theme::Dark, false, SearchState::default());
    assert!(!help.viewing_vars);
    assert!(!help.search.is_active());

    let status = StatusBar::new(Theme::Light, StatusMessage::info("ok".to_string()));
    assert!(matches!(status.theme, Theme::Light));
    assert_eq!(status.message.text.as_str(), "ok");
}
