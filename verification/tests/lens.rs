use std::collections::HashMap;

use code_lens::lens::{
    detect_lens_kind, detect_lowered_lens_kind, group_lenses_by_row, individual_lenses,
    should_hide_lens, CodeAction, CodeLensItem, CodeLensKind, Command, LspAction,
};
use code_lens::position::{Anchor, Bias, MultiBufferSnapshot, Point, TextAnchor};
use code_lens::text::{characters, contains, number_to_string, starts_with};

fn anchor(id: u64, row: u32) -> Anchor {
    Anchor::InExcerpt {
        text_anchor: TextAnchor { id },
        point: Point { row, column: 2 },
    }
}

/// A text in which excerpts show the anchors with these numbers on these rows.
fn snapshot(shown: &[(u64, u32)], indents: &[(u32, u32)]) -> MultiBufferSnapshot {
    let mut shown_points: HashMap<u64, Point> = HashMap::new();
    for (id, row) in shown {
        shown_points.insert(*id, Point { row: *row, column: 2 });
    }
    MultiBufferSnapshot {
        shown_points,
        line_indents: indents.iter().copied().collect(),
    }
}

fn item(text: &str) -> CodeLensItem {
    CodeLensItem {
        text: text.to_string(),
        action: None,
    }
}

fn lens_action(id: u64, title: &str) -> CodeAction {
    CodeAction {
        id,
        start: TextAnchor { id },
        lsp_action: LspAction::CodeLens {
            command: Some(Command {
                title: title.to_string(),
            }),
        },
    }
}

fn texts(items: &[CodeLensItem]) -> Vec<&str> {
    items.iter().map(|item| item.text.as_str()).collect()
}

#[test]
fn test_detect_lens_kind() {
    assert_eq!(detect_lens_kind("3 references"), CodeLensKind::References);
    assert_eq!(detect_lens_kind("1 reference"), CodeLensKind::References);
    assert_eq!(
        detect_lens_kind("2 implementations"),
        CodeLensKind::Implementations
    );
    assert_eq!(
        detect_lens_kind("1 implementation"),
        CodeLensKind::Implementations
    );
    assert_eq!(detect_lens_kind("Run test"), CodeLensKind::Other);
    assert_eq!(detect_lens_kind("Debug"), CodeLensKind::Other);
}

#[test]
fn test_should_hide_lens() {
    assert!(should_hide_lens("0 references"));
    assert!(should_hide_lens("0 implementations"));
    assert!(!should_hide_lens("1 reference"));
    assert!(!should_hide_lens("3 references"));
    assert!(!should_hide_lens("Run test"));
}

#[test]
fn lens_kind_ignores_case() {
    assert_eq!(detect_lens_kind("3 REFERENCES"), CodeLensKind::References);
    assert_eq!(detect_lens_kind("Go to Implementation"), CodeLensKind::Implementations);
    assert_eq!(detect_lens_kind("\u{c9}L\u{c9}MENT: Reference"), CodeLensKind::References);
}

#[test]
fn lens_kind_of_lowered_titles() {
    assert_eq!(detect_lowered_lens_kind("3 references"), CodeLensKind::References);
    assert_eq!(detect_lowered_lens_kind("3 REFERENCES"), CodeLensKind::Other);
    assert_eq!(
        detect_lowered_lens_kind("implementation"),
        CodeLensKind::Implementations
    );
    assert_eq!(detect_lowered_lens_kind(""), CodeLensKind::Other);
}

#[test]
fn references_come_before_implementations() {
    assert_eq!(
        detect_lens_kind("1 implementation, 2 references"),
        CodeLensKind::References
    );
}

#[test]
fn only_a_leading_zero_with_a_blank_hides() {
    assert!(should_hide_lens("0 "));
    assert!(!should_hide_lens("0"));
    assert!(!should_hide_lens(""));
    assert!(!should_hide_lens("10 references"));
    assert!(!should_hide_lens("00 references"));
    assert!(!should_hide_lens(" 0 references"));
}

#[test]
fn substrings_are_found() {
    assert!(contains("abcabd", "abd"));
    assert!(contains("abd", "abd"));
    assert!(contains("abd", ""));
    assert!(contains("", ""));
    assert!(!contains("ab", "abd"));
    assert!(!contains("", "a"));
    assert!(contains("\u{fc}ber", "ber"));
    assert!(starts_with("0 x", "0 "));
    assert!(!starts_with("x0 ", "0 "));
    assert!(starts_with("", ""));
    assert_eq!(characters("a\u{20ac}b"), vec!['a', '\u{20ac}', 'b']);
}

#[test]
fn numbers_are_written_in_decimal() {
    assert_eq!(number_to_string(0), "0");
    assert_eq!(number_to_string(9), "9");
    assert_eq!(number_to_string(10), "10");
    assert_eq!(number_to_string(1204567893), "1204567893");
    assert_eq!(number_to_string(usize::MAX), usize::MAX.to_string());
}

#[test]
fn lenses_are_shown_for_visible_titled_lenses() {
    let actions = vec![
        lens_action(1, "2 references"),
        lens_action(2, "0 implementations"),
        CodeAction {
            id: 3,
            start: TextAnchor { id: 3 },
            lsp_action: LspAction::CodeLens {
                command: Some(Command {
                    title: "hidden place".to_string(),
                }),
            },
        },
        CodeAction {
            id: 4,
            start: TextAnchor { id: 4 },
            lsp_action: LspAction::CodeLens { command: None },
        },
        CodeAction {
            id: 5,
            start: TextAnchor { id: 5 },
            lsp_action: LspAction::Action,
        },
        CodeAction {
            id: 6,
            start: TextAnchor { id: 6 },
            lsp_action: LspAction::Command,
        },
        lens_action(7, "Run test"),
    ];
    let snapshot = snapshot(&[(1, 4), (2, 4), (4, 1), (5, 1), (6, 1), (7, 2)], &[]);
    let lenses = individual_lenses(actions, &snapshot);
    assert_eq!(lenses.len(), 2);
    assert_eq!(lenses[0].0, anchor(1, 4));
    assert_eq!(lenses[0].1.text, "2 references");
    assert_eq!(lenses[0].1.action.as_ref().unwrap().id, 1);
    assert_eq!(lenses[1].0, anchor(7, 2));
    assert_eq!(lenses[1].1.text, "Run test");
    assert_eq!(lenses[1].1.action.as_ref().unwrap().id, 7);
}

#[test]
fn lenses_are_grouped_by_row() {
    let snapshot = snapshot(&[], &[(1, 4), (2, 8)]);
    let lines = group_lenses_by_row(
        vec![
            (anchor(1, 2), item("a")),
            (anchor(2, 1), item("b")),
            (anchor(3, 2), item("c")),
            (anchor(4, 9), item("d")),
            (anchor(5, 2), item("e")),
            (anchor(6, 0), item("f")),
        ],
        &snapshot,
    );
    assert_eq!(lines.len(), 4);

    let rows: Vec<u32> = lines.iter().map(|line| line.position.to_point().row).collect();
    assert_eq!(rows, vec![0, 1, 2, 9]);
    let columns: Vec<u32> = lines.iter().map(|line| line.position.to_point().column).collect();
    assert_eq!(columns, vec![0, 4, 8, 0]);
    assert_eq!(
        lines[2].position,
        Anchor::At {
            point: Point { row: 2, column: 8 },
            bias: Bias::Left
        }
    );

    assert_eq!(lines[0].symbol_position, anchor(6, 0));
    assert_eq!(lines[1].symbol_position, anchor(2, 1));
    assert_eq!(lines[2].symbol_position, anchor(1, 2));
    assert_eq!(lines[3].symbol_position, anchor(4, 9));

    assert_eq!(texts(&lines[0].items), vec!["f"]);
    assert_eq!(texts(&lines[1].items), vec!["b"]);
    assert_eq!(texts(&lines[2].items), vec!["a", "c", "e"]);
    assert_eq!(texts(&lines[3].items), vec!["d"]);
}

#[test]
fn no_lenses_make_no_lines() {
    let snapshot = snapshot(&[], &[]);
    assert!(group_lenses_by_row(vec![], &snapshot).is_empty());
    assert_eq!(snapshot.indent_size_for_line(3), 0);
}

#[test]
fn lenses_can_be_copied() {
    let snapshot = snapshot(&[(8, 0)], &[(0, 3)]);
    let lines = group_lenses_by_row(
        individual_lenses(vec![lens_action(8, "Debug")], &snapshot),
        &snapshot,
    );
    let copy = lines[0].clone();
    assert_eq!(copy.position, lines[0].position);
    assert_eq!(copy.symbol_position, lines[0].symbol_position);
    assert_eq!(texts(&copy.items), vec!["Debug"]);
    assert_eq!(copy.items[0].action.as_ref().unwrap().id, 8);
}
