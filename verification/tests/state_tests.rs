use azure_vars::state::{SearchTarget, State, VarEntry, VarGroup, View};

fn var(name: &str, value: &str) -> VarEntry {
    VarEntry {
        name: name.to_string(),
        value: value.to_string(),
        is_secret: false,
    }
}

fn group(name: &str, vars: Vec<VarEntry>) -> VarGroup {
    VarGroup {
        name: name.to_string(),
        variables: vars,
    }
}

#[test]
fn set_groups_initializes_selection() {
    let mut state = State::new("org".into(), "proj".into());
    state.set_groups(vec![
        group("Alpha", vec![var("a", "1")]),
        group("Beta", vec![var("b", "2")]),
    ]);

    assert_eq!(
        state.current_group().map(|g| g.name.as_str()),
        Some("Alpha")
    );
    match state.ui.view {
        View::Groups { selected_idx } => assert_eq!(selected_idx, Some(0)),
        _ => panic!("expected to remain in group view"),
    }
}

#[test]
fn filtered_vars_respect_search_query() {
    let mut state = State::new("org".into(), "proj".into());
    let vars = vec![var("alpha", "1"), var("beta", "2"), var("gamma", "3")];
    state.set_groups(vec![group("vars", vars)]);
    state.ui.view = View::Vars {
        group_idx: 0,
        selected_var_idx: Some(0),
    };

    assert_eq!(state.filtered_vars().len(), 3);

    state.ui.search.set_vars_query(0, "zzz".to_string());
    state.invalidate_var_cache();
    assert!(state.filtered_vars().is_empty());
}

#[test]
fn active_vars_query_reports_only_non_empty_queries() {
    let mut state = State::new("org".into(), "proj".into());
    state.set_groups(vec![group("vars", vec![var("alpha", "1")])]);
    state.ui.view = View::Vars {
        group_idx: 0,
        selected_var_idx: Some(0),
    };

    assert!(state.active_vars_query().is_none());

    state.ui.search.set_vars_query(0, "alp".to_string());
    assert_eq!(state.active_vars_query(), Some("alp"));
}

#[test]
fn search_query_for_returns_current_queries() {
    let mut state = State::new("org".into(), "proj".into());
    state.set_groups(vec![group("vars", vec![var("alpha", "1")])]);
    state.ui.view = View::Vars {
        group_idx: 0,
        selected_var_idx: Some(0),
    };
    state.ui.search.groups_query.push_str("be");
    state.ui.search.set_vars_query(0, "alp".to_string());

    assert_eq!(
        state.search_query_for(SearchTarget::Groups),
        "be".to_string()
    );
    assert_eq!(
        state.search_query_for(SearchTarget::Vars),
        "alp".to_string()
    );
}

#[test]
fn set_groups_preserves_selected_group_by_name() {
    let mut state = State::new("org".into(), "proj".into());
    state.set_groups(vec![
        group("Alpha", vec![]),
        group("Beta", vec![]),
        group("Gamma", vec![]),
    ]);
    state.ui.view = View::Groups {
        selected_idx: Some(1),
    };

    state.set_groups(vec![
        group("Gamma", vec![]),
        group("Beta", vec![]),
        group("Alpha", vec![]),
    ]);

    assert_eq!(state.current_group().map(|g| g.name.as_str()), Some("Beta"));
}

#[test]
fn set_groups_selects_first_group_when_previous_missing() {
    let mut state = State::new("org".into(), "proj".into());
    state.set_groups(vec![
        group("Alpha", vec![]),
        group("Beta", vec![]),
        group("Gamma", vec![]),
    ]);
    state.ui.view = View::Groups {
        selected_idx: Some(1),
    };

    state.set_groups(vec![group("Delta", vec![]), group("Epsilon", vec![])]);

    assert_eq!(
        state.current_group().map(|g| g.name.as_str()),
        Some("Delta")
    );
}

#[test]
fn set_groups_preserves_selected_var_by_name() {
    let mut state = State::new("org".into(), "proj".into());
    state.set_groups(vec![group(
        "Vars",
        vec![var("alpha", "1"), var("beta", "2"), var("gamma", "3")],
    )]);
    state.ui.view = View::Vars {
        group_idx: 0,
        selected_var_idx: Some(1),
    };

    state.set_groups(vec![group(
        "Vars",
        vec![var("gamma", "3"), var("beta", "2"), var("alpha", "1")],
    )]);

    assert_eq!(state.current_var().map(|v| v.name.as_str()), Some("beta"));
}

#[test]
fn set_groups_falls_back_when_selected_var_missing() {
    let mut state = State::new("org".into(), "proj".into());
    state.set_groups(vec![group(
        "Vars",
        vec![var("alpha", "1"), var("beta", "2")],
    )]);
    state.ui.view = View::Vars {
        group_idx: 0,
        selected_var_idx: Some(1),
    };

    state.set_groups(vec![group("Vars", vec![var("alpha", "1")])]);

    assert_eq!(state.current_var().map(|v| v.name.as_str()), Some("alpha"));
}

#[test]
fn set_groups_handles_missing_group_in_var_view() {
    let mut state = State::new("org".into(), "proj".into());
    state.set_groups(vec![
        group("A", vec![var("alpha", "1")]),
        group("B", vec![var("beta", "2")]),
    ]);
    state.ui.view = View::Vars {
        group_idx: 0,
        selected_var_idx: Some(0),
    };

    state.set_groups(vec![group("B", vec![var("beta", "2"), var("bravo", "3")])]);

    assert_eq!(state.current_group().map(|g| g.name.as_str()), Some("B"));
    assert_eq!(state.current_var().map(|v| v.name.as_str()), Some("beta"));
}

#[test]
fn set_groups_to_empty_forces_group_view() {
    let mut state = State::new("org".into(), "proj".into());
    state.set_groups(vec![group("Vars", vec![var("alpha", "1")])]);
    state.ui.view = View::Vars {
        group_idx: 0,
        selected_var_idx: Some(0),
    };

    state.set_groups(vec![]);

    match state.ui.view {
        View::Groups { selected_idx } => assert_eq!(selected_idx, None),
        _ => panic!("expected the group view after all groups vanished"),
    }
    assert!(state.current_group().is_none());
}

#[test]
fn group_filter_keeps_unmatched_groups_at_the_bottom() {
    let mut state = State::new("org".into(), "proj".into());
    state.set_groups(vec![
        group("xyz", vec![]),
        group("alpha", vec![]),
        group("another", vec![]),
    ]);
    state.ui.search.groups_query.push_str("alp");
    state.invalidate_group_cache();

    let indices = state.filtered_group_indices();
    assert_eq!(indices.len(), 3);
    assert_eq!(indices[0], 1);

    let names: Vec<String> = state
        .filtered_groups()
        .into_iter()
        .map(|g| g.name)
        .collect();
    assert_eq!(names[0], "alpha".to_string());
}

#[test]
fn group_filter_with_hopeless_query_still_lists_everything() {
    let mut state = State::new("org".into(), "proj".into());
    state.set_groups(vec![group("Alpha", vec![]), group("Beta", vec![])]);
    state.ui.search.groups_query.push_str("zzz");
    state.invalidate_group_cache();

    let indices = state.filtered_group_indices();
    assert_eq!(indices, vec![0, 1]);
}

#[test]
fn entry_filter_matches_on_value_as_well() {
    let mut state = State::new("org".into(), "proj".into());
    state.set_groups(vec![group(
        "vars",
        vec![var("first", "hello"), var("second", "world")],
    )]);
    state.ui.view = View::Vars {
        group_idx: 0,
        selected_var_idx: Some(0),
    };
    state.ui.search.set_vars_query(0, "world".to_string());
    state.invalidate_var_cache();

    let filtered = state.filtered_vars();
    assert_eq!(filtered.len(), 1);
    assert_eq!(filtered[0].name.as_str(), "second");
}

#[test]
fn entry_filter_ranks_exact_name_match_first() {
    let mut state = State::new("org".into(), "proj".into());
    state.set_groups(vec![group(
        "vars",
        vec![var("alpha", "1"), var("beta", "2"), var("gamma", "3")],
    )]);
    state.ui.view = View::Vars {
        group_idx: 0,
        selected_var_idx: Some(0),
    };
    state.ui.search.set_vars_query(0, "beta".to_string());
    state.invalidate_var_cache();

    let indices = state.filtered_var_indices();
    assert_eq!(indices, vec![1]);
}

#[test]
fn filter_results_are_stable_across_repeated_calls() {
    let mut state = State::new("org".into(), "proj".into());
    state.set_groups(vec![
        group("one", vec![]),
        group("two", vec![]),
        group("three", vec![]),
    ]);
    state.ui.search.groups_query.push_str("o");
    state.invalidate_group_cache();

    let first = state.filtered_group_indices();
    let second = state.filtered_group_indices();
    assert_eq!(first, second);
}

#[test]
fn unknown_group_index_yields_empty_filtered_entries() {
    let mut state = State::new("org".into(), "proj".into());
    state.set_groups(vec![group("vars", vec![var("alpha", "1")])]);

    assert!(state.filtered_var_indices_for(7).is_empty());
}

#[test]
fn from_fetched_masks_secret_values() {
    let secret = VarEntry::from_fetched("token".to_string(), Some("raw".to_string()), Some(true));
    assert!(secret.is_secret);
    assert_eq!(secret.value.as_str(), "<secret value hidden>");

    let plain = VarEntry::from_fetched("name".to_string(), Some("val".to_string()), Some(false));
    assert!(!plain.is_secret);
    assert_eq!(plain.value.as_str(), "val");

    let missing = VarEntry::from_fetched("name".to_string(), None, None);
    assert!(!missing.is_secret);
    assert_eq!(missing.value.as_str(), "<no value>");
}
