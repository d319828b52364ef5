use code_lens::ids::BufferId;
use code_lens::lens::{CodeAction, CodeLensData, CodeLensItem, CodeLensKind, LspAction};
use code_lens::position::{Anchor, Bias, Point, TextAnchor};
use code_lens::render::{
    click_command, render_code_lens_line, ClickCommand, LensClick, LensElement,
};

fn symbol() -> Anchor {
    Anchor::InExcerpt {
        text_anchor: TextAnchor { id: 11 },
        point: Point { row: 3, column: 7 },
    }
}

fn action(id: u64) -> CodeAction {
    CodeAction {
        id,
        start: TextAnchor { id },
        lsp_action: LspAction::Action,
    }
}

fn line(texts: &[&str]) -> CodeLensData {
    CodeLensData {
        position: Anchor::At {
            point: Point { row: 3, column: 4 },
            bias: Bias::Left,
        },
        symbol_position: symbol(),
        items: texts
            .iter()
            .map(|text| CodeLensItem {
                text: text.to_string(),
                action: Some(action(text.len() as u64)),
            })
            .collect(),
    }
}

fn click(text: &str, action: Option<CodeAction>) -> LensClick {
    LensClick {
        text: text.to_string(),
        action,
        position: symbol(),
    }
}

#[test]
fn empty_line_draws_nothing() {
    assert!(render_code_lens_line(&line(&[])).is_empty());
}

#[test]
fn lenses_are_drawn_with_separators_between() {
    let elements = render_code_lens_line(&line(&["2 references", "Run test", "Debug"]));
    assert_eq!(elements.len(), 5);
    let mut drawn: Vec<String> = Vec::new();
    for element in &elements {
        match element {
            LensElement::Separator(text) => drawn.push(text.clone()),
            LensElement::Button(button) => {
                assert_eq!(button.on_click.text, button.text);
                assert_eq!(button.on_click.position, symbol());
                assert_eq!(
                    button.on_click.action.as_ref().unwrap().id,
                    button.text.len() as u64
                );
                drawn.push(button.id.clone());
            }
        }
    }
    assert_eq!(
        drawn,
        vec![
            "code-lens-0-2 references",
            " | ",
            "code-lens-1-Run test",
            " | ",
            "code-lens-2-Debug",
        ]
    );
}

#[test]
fn button_names_differ_even_for_equal_texts() {
    let elements = render_code_lens_line(&line(&["x", "x"]));
    match (&elements[0], &elements[2]) {
        (LensElement::Button(a), LensElement::Button(b)) => {
            assert_eq!(a.id, "code-lens-0-x");
            assert_eq!(b.id, "code-lens-1-x");
        }
        _ => panic!("two buttons"),
    }
}

#[test]
fn click_selects_the_symbol_and_follows_the_kind() {
    let outcome = click("3 References", Some(action(1))).outcome(true).unwrap();
    assert_eq!(outcome.selection, (symbol(), symbol()));
    assert!(matches!(outcome.command, ClickCommand::FindAllReferences));

    let outcome = click("1 implementation", None).outcome(true).unwrap();
    assert!(matches!(outcome.command, ClickCommand::GoToImplementation));

    let outcome = click("Run test", Some(action(5))).outcome(true).unwrap();
    assert_eq!(outcome.selection, (symbol(), symbol()));
    assert!(matches!(outcome.command, ClickCommand::ApplyCodeAction(a) if a.id == 5));

    let outcome = click("Run test", None).outcome(true).unwrap();
    assert!(matches!(outcome.command, ClickCommand::Nothing));
}

#[test]
fn click_in_a_closed_editor_does_nothing() {
    assert!(click("3 references", None).outcome(false).is_none());
}

#[test]
fn command_of_each_kind() {
    assert!(matches!(
        click_command(CodeLensKind::References, &None),
        ClickCommand::FindAllReferences
    ));
    assert!(matches!(
        click_command(CodeLensKind::Implementations, &Some(action(1))),
        ClickCommand::GoToImplementation
    ));
    assert!(matches!(
        click_command(CodeLensKind::Other, &None),
        ClickCommand::Nothing
    ));
    assert!(matches!(
        click_command(CodeLensKind::Other, &Some(action(2))),
        ClickCommand::ApplyCodeAction(a) if a.id == 2
    ));
}

#[test]
fn action_is_applied_in_a_workspace_on_a_single_buffer() {
    let buffer = BufferId::new(6).unwrap();
    let request = ClickCommand::ApplyCodeAction(action(4))
        .code_action_request(true, Some(buffer))
        .unwrap();
    assert_eq!(request.buffer, buffer);
    assert_eq!(request.action.id, 4);
    assert!(request.push_to_history);

    let apply = || ClickCommand::ApplyCodeAction(action(4));
    assert!(apply().code_action_request(false, Some(buffer)).is_none());
    assert!(apply().code_action_request(true, None).is_none());
    assert!(ClickCommand::Nothing
        .code_action_request(true, Some(buffer))
        .is_none());
    assert!(ClickCommand::FindAllReferences
        .code_action_request(true, Some(buffer))
        .is_none());
}
