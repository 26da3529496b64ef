use std::collections::HashSet;

use cicero::graphemes::GraphemeRow;
use cicero::StatefulGraphemes;

const TEST_STR: &str = "ಠ_ರೃ ab";

#[test]
fn stateful_graphemes_test_new_stateful_graphemes() {
    let graphemes = StatefulGraphemes::new(TEST_STR);

    assert_eq!(graphemes.rows.len(), 12);

    {
        let mut expected_grapheme_start_row_indices = HashSet::new();
        expected_grapheme_start_row_indices.insert(0);
        expected_grapheme_start_row_indices.insert(2);
        expected_grapheme_start_row_indices.insert(4);
        expected_grapheme_start_row_indices.insert(7);
        expected_grapheme_start_row_indices.insert(9);
        expected_grapheme_start_row_indices.insert(11);
        assert_eq!(
            *graphemes.grapheme_start_row_indices(),
            expected_grapheme_start_row_indices
        );
    }

    {
        let mut expected_grapheme_end_row_indices = HashSet::new();
        expected_grapheme_end_row_indices.insert(0);
        expected_grapheme_end_row_indices.insert(2);
        expected_grapheme_end_row_indices.insert(5);
        expected_grapheme_end_row_indices.insert(7);
        expected_grapheme_end_row_indices.insert(9);
        expected_grapheme_end_row_indices.insert(11);
        assert_eq!(
            *graphemes.grapheme_end_row_indices(),
            expected_grapheme_end_row_indices
        );
    }

    assert!(graphemes.state.selected().is_some());
    assert_eq!(graphemes.state.selected().unwrap(), 0);
}

#[test]
fn stateful_graphemes_test_select_next() {
    let mut graphemes = StatefulGraphemes::new(TEST_STR);

    graphemes.select_next();
    assert_eq!(graphemes.state.selected().unwrap(), 2);

    graphemes.select_next();
    assert_eq!(graphemes.state.selected().unwrap(), 4);
    graphemes.select_next();
    assert_eq!(graphemes.state.selected().unwrap(), 5);

    graphemes.select_next();
    assert_eq!(graphemes.state.selected().unwrap(), 7);

    graphemes.select_next();
    assert_eq!(graphemes.state.selected().unwrap(), 9);

    graphemes.select_next();
    assert_eq!(graphemes.state.selected().unwrap(), 11);

    graphemes.select_next();
    assert_eq!(graphemes.state.selected().unwrap(), 11);
}

#[test]
fn test_select_next_n() {
    let mut graphemes = StatefulGraphemes::new(TEST_STR);

    graphemes.select_next_n(2);
    assert_eq!(graphemes.state.selected().unwrap(), 4);

    graphemes.select_next_n(42);
    assert_eq!(graphemes.state.selected().unwrap(), 11);
}

#[test]
fn stateful_graphemes_test_select_previous() {
    let mut graphemes = StatefulGraphemes::new(TEST_STR);
    graphemes.state.select(Some(11));

    graphemes.select_previous();
    assert_eq!(graphemes.state.selected().unwrap(), 9);

    graphemes.select_previous();
    assert_eq!(graphemes.state.selected().unwrap(), 7);

    graphemes.select_previous();
    assert_eq!(graphemes.state.selected().unwrap(), 5);
    graphemes.select_previous();
    assert_eq!(graphemes.state.selected().unwrap(), 4);

    graphemes.select_previous();
    assert_eq!(graphemes.state.selected().unwrap(), 2);

    graphemes.select_previous();
    assert_eq!(graphemes.state.selected().unwrap(), 0);

    graphemes.select_previous();
    assert_eq!(graphemes.state.selected().unwrap(), 0);
}

#[test]
fn test_select_previous_n() {
    let mut graphemes = StatefulGraphemes::new(TEST_STR);
    graphemes.state.select(Some(11));

    graphemes.select_previous_n(3);
    assert_eq!(graphemes.state.selected().unwrap(), 5);

    graphemes.select_previous_n(42);
    assert_eq!(graphemes.state.selected().unwrap(), 0);
}

#[test]
fn combining_mark_rows_and_boundary_steps() {
    let mut graphemes = StatefulGraphemes::new("e\u{0301}fg");
    let rows: Vec<Option<char>> = graphemes.rows.iter().map(|r| r.code_point).collect();
    assert_eq!(
        rows,
        vec![Some('e'), Some('\u{0301}'), None, Some('f'), None, Some('g')]
    );
    assert_eq!(graphemes.selected(), Some(0));
    graphemes.select_next();
    assert_eq!(graphemes.selected(), Some(1));
    graphemes.select_next();
    assert_eq!(graphemes.selected(), Some(3));
    graphemes.select_next();
    assert_eq!(graphemes.selected(), Some(5));
}

#[test]
fn single_code_point_text_has_one_row_per_character() {
    let graphemes = StatefulGraphemes::new("x");
    assert_eq!(graphemes.rows, vec![GraphemeRow::new('x')]);
    let plain = StatefulGraphemes::new("abc");
    let code_points = plain.rows.iter().filter(|r| r.code_point.is_some()).count();
    assert_eq!(code_points, 3);
    assert_eq!(plain.rows.len(), 5);
}

#[test]
fn empty_text_has_no_rows_and_no_selection() {
    let mut graphemes = StatefulGraphemes::new("");
    assert!(graphemes.rows.is_empty());
    assert_eq!(graphemes.selected(), None);
    graphemes.select_next();
    graphemes.select_previous();
    assert_eq!(graphemes.selected(), None);
}

#[test]
fn from_clusters_lays_out_rows() {
    let clusters = vec![vec!['a', '\u{0300}', '\u{0301}'], vec!['b']];
    let graphemes = StatefulGraphemes::from_clusters(&clusters);
    let rows: Vec<Option<char>> = graphemes.rows.iter().map(|r| r.code_point).collect();
    assert_eq!(
        rows,
        vec![Some('a'), Some('\u{0300}'), Some('\u{0301}'), None, Some('b')]
    );
    let starts: HashSet<usize> = [0, 4].into_iter().collect();
    let ends: HashSet<usize> = [2, 4].into_iter().collect();
    assert_eq!(*graphemes.grapheme_start_row_indices(), starts);
    assert_eq!(*graphemes.grapheme_end_row_indices(), ends);
}

#[test]
fn unselected_rows_enter_from_either_end() {
    let mut graphemes = StatefulGraphemes::new("ab");
    graphemes.select(None);
    graphemes.select_previous();
    assert_eq!(graphemes.selected(), Some(2));
    graphemes.select(None);
    graphemes.select_next();
    assert_eq!(graphemes.selected(), Some(0));
}
