use azure_vars::action::Action;
use azure_vars::state::{State, StatusKind, Theme, VarEntry, VarGroup, View};
use azure_vars::store::{Command, Reducer};

fn sample_var(name: &str, value: &str) -> VarEntry {
    VarEntry {
        name: name.to_string(),
        value: value.to_string(),
        is_secret: false,
    }
}

fn sample_group(name: &str, vars: Vec<VarEntry>) -> VarGroup {
    VarGroup {
        name: name.to_string(),
        variables: vars,
    }
}

fn build_store(state: State) -> Reducer {
    Reducer::new(state)
}

#[test]
fn move_selection_clamps_within_group_bounds() {
    let mut state = State::new("org".to_string(), "project".to_string());
    state.set_groups(vec![
        sample_group("Alpha", vec![]),
        sample_group("Beta", vec![]),
        sample_group("Gamma", vec![]),
    ]);

    let mut store = build_store(state);

    let second_expected = store.state.filtered_groups()[1].name.clone();
    store.move_selection(1);
    assert_eq!(
        store.state.current_group().map(|g| &g.name),
        Some(&second_expected)
    );

    let last_expected = store.state.filtered_groups().last().unwrap().name.clone();
    store.move_selection(10);
    assert_eq!(
        store.state.current_group().map(|g| &g.name),
        Some(&last_expected)
    );

    let first_expected = store.state.filtered_groups()[0].name.clone();
    store.move_selection(-10);
    assert_eq!(
        store.state.current_group().map(|g| &g.name),
        Some(&first_expected)
    );
}

#[test]
fn move_selection_updates_variable_focus() {
    let mut state = State::new("org".to_string(), "project".to_string());
    let vars = vec![
        sample_var("alpha", "1"),
        sample_var("beta", "2"),
        sample_var("gamma", "3"),
    ];
    let group = sample_group("vars", vars);
    state.set_groups(vec![group]);
    state.ui.view = View::Vars {
        group_idx: 0,
        selected_var_idx: Some(0),
    };

    let mut store = build_store(state);

    let filtered = store.state.filtered_vars();
    assert!(filtered.len() >= 3);
    let second_expected = filtered[1].name.clone();
    store.move_selection(1);
    assert_eq!(
        store.state.current_var().map(|v| &v.name),
        Some(&second_expected)
    );

    let last_expected = store.state.filtered_vars().last().unwrap().name.clone();
    store.move_selection(10);
    assert_eq!(
        store.state.current_var().map(|v| &v.name),
        Some(&last_expected)
    );

    let first_expected = store.state.filtered_vars()[0].name.clone();
    store.move_selection(-10);
    assert_eq!(
        store.state.current_var().map(|v| &v.name),
        Some(&first_expected)
    );
}

#[test]
fn toggle_theme_switches_between_variants() {
    let mut state = State::new("org".to_string(), "project".to_string());
    state.theme = Theme::Dark;
    let mut store = build_store(state);

    store.toggle_theme();
    assert!(matches!(store.state.theme, Theme::Light));

    store.toggle_theme();
    assert!(matches!(store.state.theme, Theme::Dark));
}

#[test]
fn move_by_zero_keeps_a_member_selection() {
    let mut state = State::new("org".to_string(), "project".to_string());
    state.set_groups(vec![
        sample_group("Alpha", vec![]),
        sample_group("Beta", vec![]),
        sample_group("Gamma", vec![]),
    ]);
    state.ui.view = View::Groups {
        selected_idx: Some(1),
    };
    let mut store = build_store(state);

    store.move_selection(0);
    assert_eq!(
        store.state.current_group().map(|g| g.name.as_str()),
        Some("Beta")
    );
}

#[test]
fn move_by_zero_snaps_a_stray_selection_to_the_first_member() {
    let mut state = State::new("org".to_string(), "project".to_string());
    state.set_groups(vec![
        sample_group("Alpha", vec![]),
        sample_group("Beta", vec![]),
    ]);
    state.ui.view = View::Groups {
        selected_idx: Some(17),
    };
    let mut store = build_store(state);

    store.move_selection(0);
    let first = store.state.filtered_groups()[0].name.clone();
    assert_eq!(store.state.current_group().map(|g| &g.name), Some(&first));
}

#[test]
fn move_selection_over_no_groups_clears_selection() {
    let state = State::new("org".to_string(), "project".to_string());
    let mut store = build_store(state);

    store.move_selection(1);
    assert!(store.state.current_group().is_none());
    match store.state.ui.view {
        View::Groups { selected_idx } => assert_eq!(selected_idx, None),
        _ => panic!("expected the group view"),
    }
}

#[test]
fn jump_actions_reach_both_ends() {
    let mut state = State::new("org".to_string(), "project".to_string());
    state.set_groups(vec![
        sample_group("Alpha", vec![]),
        sample_group("Beta", vec![]),
        sample_group("Gamma", vec![]),
    ]);
    let mut store = build_store(state);

    let cmd = store.reduce(Action::MoveSelectionBottom);
    assert!(matches!(cmd, Command::NoEffect));
    let last = store.state.filtered_groups().last().unwrap().name.clone();
    assert_eq!(store.state.current_group().map(|g| &g.name), Some(&last));

    store.reduce(Action::MoveSelectionTop);
    let first = store.state.filtered_groups()[0].name.clone();
    assert_eq!(store.state.current_group().map(|g| &g.name), Some(&first));
}

#[test]
fn search_submit_keeps_query_and_selection() {
    let mut state = State::new("org".to_string(), "project".to_string());
    state.set_groups(vec![sample_group(
        "Group",
        vec![sample_var("alpha", "1"), sample_var("beta", "2")],
    )]);
    state.ui.view = View::Vars {
        group_idx: 0,
        selected_var_idx: Some(0),
    };
    let mut store = build_store(state);

    store.reduce(Action::EnterSearchMode);
    assert!(store.state.ui.search.is_active());
    for ch in "alpha".chars() {
        store.reduce(Action::SearchInsertChar { ch });
    }
    store.reduce(Action::SubmitSearch);

    assert!(!store.state.ui.search.is_active());
    assert_eq!(
        store.state.current_var().map(|v| v.name.as_str()),
        Some("alpha")
    );
    assert_eq!(
        store
            .state
            .search_query_for(azure_vars::state::SearchTarget::Vars),
        "alpha".to_string()
    );
}

#[test]
fn search_backspace_to_empty_clears_the_stored_query() {
    let mut state = State::new("org".to_string(), "project".to_string());
    state.set_groups(vec![sample_group(
        "Group",
        vec![sample_var("alpha", "1"), sample_var("beta", "2")],
    )]);
    state.ui.view = View::Vars {
        group_idx: 0,
        selected_var_idx: Some(0),
    };
    let mut store = build_store(state);

    store.reduce(Action::EnterSearchMode);
    store.reduce(Action::SearchInsertChar { ch: 'a' });
    assert_eq!(store.state.active_vars_query(), Some("a"));
    store.reduce(Action::SearchBackspace);
    assert!(store.state.active_vars_query().is_none());
    store.reduce(Action::ExitSearchMode);
    assert!(!store.state.ui.search.is_active());
}

#[test]
fn search_target_follows_the_active_view() {
    let mut state = State::new("org".to_string(), "project".to_string());
    state.set_groups(vec![sample_group("Group", vec![sample_var("a", "1")])]);
    let mut store = build_store(state);

    store.reduce(Action::EnterSearchMode);
    assert!(matches!(
        store.state.ui.search.active_target(),
        Some(azure_vars::state::SearchTarget::Groups)
    ));
    store.reduce(Action::ExitSearchMode);

    store.reduce(Action::EnterViewVarGroup { index: 0 });
    store.reduce(Action::EnterSearchMode);
    assert!(matches!(
        store.state.ui.search.active_target(),
        Some(azure_vars::state::SearchTarget::Vars)
    ));
}

#[test]
fn enter_view_var_group_selects_first_variable() {
    let mut state = State::new("org".to_string(), "project".to_string());
    state.set_groups(vec![
        sample_group("Empty", vec![]),
        sample_group("Full", vec![sample_var("a", "1")]),
    ]);
    let mut store = build_store(state);

    store.reduce(Action::EnterViewVarGroup { index: 1 });
    match store.state.ui.view {
        View::Vars {
            group_idx,
            selected_var_idx,
        } => {
            assert_eq!(group_idx, 1);
            assert_eq!(selected_var_idx, Some(0));
        }
        _ => panic!("expected the entries view"),
    }

    store.reduce(Action::ExitViewVarGroup);
    match store.state.ui.view {
        View::Groups { selected_idx } => assert_eq!(selected_idx, Some(1)),
        _ => panic!("expected the group view"),
    }
}

#[test]
fn enter_view_var_group_ignores_an_out_of_range_index() {
    let mut state = State::new("org".to_string(), "project".to_string());
    state.set_groups(vec![sample_group("Only", vec![])]);
    let mut store = build_store(state);

    let cmd = store.reduce(Action::EnterViewVarGroup { index: 5 });
    assert!(matches!(cmd, Command::NoEffect));
    assert!(!store.state.is_viewing_vars());
}

#[test]
fn copy_selected_var_formats_name_and_value() {
    let mut state = State::new("org".to_string(), "project".to_string());
    state.set_groups(vec![sample_group(
        "Group",
        vec![sample_var("alpha", "1"), sample_var("beta", "2")],
    )]);
    state.ui.view = View::Vars {
        group_idx: 0,
        selected_var_idx: Some(1),
    };
    let mut store = build_store(state);

    match store.reduce(Action::CopySelectedVar) {
        Command::CopyText { text } => assert_eq!(text.as_str(), "beta=2"),
        other => panic!("expected a copy command, got {:?}", other),
    }
}

#[test]
fn copy_without_a_selection_is_a_no_op() {
    let state = State::new("org".to_string(), "project".to_string());
    let mut store = build_store(state);

    assert!(matches!(
        store.reduce(Action::CopySelectedVar),
        Command::NoEffect
    ));
}

#[test]
fn export_derives_the_default_path_from_the_group_name() {
    let mut state = State::new("org".to_string(), "project".to_string());
    state.set_groups(vec![sample_group(
        "My Group",
        vec![sample_var("key", "value")],
    )]);
    let mut store = build_store(state);

    match store.reduce(Action::ExportCurrentGroup) {
        Command::ExportGroup { group, path } => {
            assert_eq!(path.as_str(), "My_Group_variables.json");
            assert_eq!(group.name.as_str(), "My Group");
            assert_eq!(group.variables.len(), 1);
        }
        other => panic!("expected an export command, got {:?}", other),
    }
}

#[test]
fn export_without_a_selection_fails() {
    let state = State::new("org".to_string(), "project".to_string());
    let mut store = build_store(state);

    assert!(matches!(
        store.reduce(Action::ExportCurrentGroup),
        Command::ExportFailed
    ));
}

#[test]
fn refresh_failure_sets_status_and_success_clears_it() {
    let state = State::new("org".to_string(), "project".to_string());
    let mut store = build_store(state);

    let cmd = store.reduce(Action::RefreshVarGroups);
    assert!(matches!(cmd, Command::Fetch));
    assert!(store.state.ui.is_fetching);

    store.finish_refresh(Err("network error".to_string()));
    assert!(!store.state.ui.is_fetching);
    let status = store.state.ui.status.clone().expect("an error status");
    assert!(matches!(status.kind, StatusKind::Error));
    assert_eq!(
        status.text.as_str(),
        "Failed to load variable groups: network error"
    );
    assert!(store.state.groups().is_empty());

    let desired = vec![sample_group(
        "Recovered",
        vec![sample_var("alpha", "1"), sample_var("beta", "2")],
    )];
    let cmd = store.reduce(Action::RefreshVarGroups);
    assert!(matches!(cmd, Command::Fetch));
    store.finish_refresh(Ok(desired));

    assert!(!store.state.ui.is_fetching);
    assert!(
        store.state.ui.status.is_none(),
        "status should be cleared after successful refresh"
    );
    assert_eq!(
        store.state.current_group().map(|g| g.name.as_str()),
        Some("Recovered")
    );
    assert_eq!(store.state.groups().len(), 1);
    assert_eq!(store.state.groups()[0].variables.len(), 2);
}
