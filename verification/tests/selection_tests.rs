use projdash::project::Project;
use projdash::selection::SelectionModel;

fn named_project(name: &str) -> Project {
    Project {
        name: name.to_string(),
        path: format!("/tmp/{}", name),
        source: "app".to_string(),
        modified: None,
        has_doc: false,
        git_branch: None,
        git_dirty: false,
        config_labels: Vec::new(),
    }
}

fn model_of(names: &[&str]) -> SelectionModel {
    SelectionModel::new(names.iter().map(|n| named_project(n)).collect())
}

#[test]
fn new_model_cursor() {
    let empty = SelectionModel::new(Vec::new());
    assert_eq!(empty.cursor, None);
    assert!(!empty.searching);
    let m = model_of(&["alpha", "beta"]);
    assert_eq!(m.cursor, Some(0));
    assert_eq!(m.filter, "");
}

#[test]
fn empty_filter_keeps_everything_in_order() {
    let m = model_of(&["alpha", "beta", "gamma"]);
    assert_eq!(m.filtered_indices(), vec![0, 1, 2]);
}

#[test]
fn filter_matches_case_insensitively() {
    let mut m = model_of(&["Alpha", "beta", "alphabet"]);
    m.enter_search();
    m.push_filter_char('B');
    m.push_filter_char('E');
    m.push_filter_char('T');
    assert_eq!(m.filtered_indices(), vec![1, 2]);
    assert_eq!(m.cursor, Some(0));
}

#[test]
fn unique_match_yields_one_index() {
    let mut m = model_of(&["alpha", "beta", "gamma"]);
    m.enter_search();
    m.push_filter_char('G');
    assert_eq!(m.filtered_indices(), vec![2]);
    let selected = m.selected_project().expect("one project matches");
    assert_eq!(selected.name, "gamma");
}

#[test]
fn cursor_clamps_and_survives_empty_view() {
    let mut m = model_of(&["alpha", "beta"]);
    m.move_selection(-1);
    assert_eq!(m.cursor, Some(0));
    m.move_selection(1);
    assert_eq!(m.cursor, Some(1));
    m.move_selection(1);
    assert_eq!(m.cursor, Some(1));
    m.enter_search();
    m.push_filter_char('z');
    assert_eq!(m.cursor, None);
    m.move_selection(1);
    assert_eq!(m.cursor, None);
    m.move_selection(-1);
    assert_eq!(m.cursor, None);
    assert!(m.selected_project().is_none());

    let mut empty = SelectionModel::new(Vec::new());
    empty.move_selection(1);
    assert_eq!(empty.cursor, None);
}

#[test]
fn selected_project_follows_filter() {
    let mut m = model_of(&["alpha", "beta"]);
    assert_eq!(m.selected_project().unwrap().name, "alpha");
    m.move_selection(1);
    assert_eq!(m.selected_project().unwrap().name, "beta");
    m.enter_search();
    m.push_filter_char('b');
    assert_eq!(m.selected_project().unwrap().name, "beta");
}

#[test]
fn search_then_three_backspaces_returns_to_browsing() {
    let mut m = model_of(&["app one", "other"]);
    m.enter_search();
    assert!(m.searching);
    m.push_filter_char('a');
    m.push_filter_char('p');
    m.push_filter_char('p');
    assert_eq!(m.filter, "app");
    assert_eq!(m.filtered_indices(), vec![0]);
    m.backspace_filter();
    assert!(m.searching);
    m.backspace_filter();
    assert!(m.searching);
    m.backspace_filter();
    assert_eq!(m.filter, "");
    assert!(!m.searching);
    assert_eq!(m.filtered_indices(), vec![0, 1]);
    assert_eq!(m.cursor, Some(0));
}

#[test]
fn backspace_on_empty_filter_exits_search() {
    let mut m = model_of(&["alpha"]);
    m.enter_search();
    m.backspace_filter();
    assert!(!m.searching);
    assert_eq!(m.filter, "");
    assert_eq!(m.cursor, Some(0));
}

#[test]
fn cancel_search_clears_filter() {
    let mut m = model_of(&["alpha", "beta"]);
    m.enter_search();
    m.push_filter_char('b');
    m.cancel_search();
    assert!(!m.searching);
    assert_eq!(m.filter, "");
    assert_eq!(m.cursor, Some(0));
    assert_eq!(m.filtered_indices(), vec![0, 1]);
}
