use std::collections::HashMap;

use code_lens::cache::CodeLensCache;
use code_lens::editor::{
    BlockPlacement, BlockStyle, Editor, EditorAction, EditorContext, EditorEvent,
};
use code_lens::ids::{BufferId, CustomBlockId};
use code_lens::lens::{CodeAction, Command, LspAction};
use code_lens::position::{Anchor, Bias, MultiBufferSnapshot, Point, TextAnchor};
use code_lens::refresh::{CodeLensRefresh, FetchError, RefreshEvent, RefreshState};

fn buffer() -> BufferId {
    BufferId::new(1).unwrap()
}

fn editor(enabled: bool) -> Editor<u32> {
    Editor {
        code_lens_cache: CodeLensCache::new(enabled),
    }
}

fn context() -> EditorContext {
    EditorContext {
        singleton: BufferId::new(1),
        has_project: true,
        has_workspace: true,
        debounce_ms: 250,
    }
}

fn lens_action(id: u64, title: &str) -> CodeAction {
    CodeAction {
        id,
        start: TextAnchor { id },
        lsp_action: LspAction::CodeLens {
            command: Some(Command {
                title: title.to_string(),
            }),
        },
    }
}

/// A refresh that has lenses on two lines to show.
fn updating() -> CodeLensRefresh {
    let refresh = editor(true).refresh_code_lenses(&context()).unwrap();
    assert!(matches!(
        refresh.state,
        RefreshState::Debouncing { debounce_ms: 250 }
    ));
    let refresh = refresh.advance(RefreshEvent::TimerElapsed);
    assert!(matches!(refresh.state, RefreshState::Fetching));
    let refresh = refresh.advance(RefreshEvent::ActionsFetched(Ok(Some(vec![
        lens_action(1, "2 references"),
        lens_action(2, "Run test"),
        lens_action(3, "0 implementations"),
        lens_action(4, "Debug"),
    ]))));
    assert!(matches!(&refresh.state, RefreshState::Snapshotting { actions } if actions.len() == 4));
    let refresh = refresh.advance(RefreshEvent::SnapshotTaken(MultiBufferSnapshot {
        shown_points: HashMap::from([
            (1, Point { row: 2, column: 4 }),
            (2, Point { row: 0, column: 0 }),
            (3, Point { row: 2, column: 4 }),
            (4, Point { row: 2, column: 9 }),
        ]),
        line_indents: HashMap::from([(2, 4)]),
    }));
    assert!(matches!(&refresh.state, RefreshState::Updating { lenses } if lenses.len() == 2));
    refresh
}

#[test]
fn test_code_lens_toggle() {
    let mut editor: Editor = Editor {
        code_lens_cache: CodeLensCache::new(false),
    };

    // Initially disabled
    assert!(!editor.code_lens_enabled());

    // Toggle on
    editor.toggle_code_lenses(&context());
    assert!(editor.code_lens_enabled());

    // Toggle off
    editor.toggle_code_lenses(&context());
    assert!(!editor.code_lens_enabled());
}

#[test]
fn test_code_lens_toggle_on_off_clears_blocks() {
    let mut editor: Editor = Editor {
        code_lens_cache: CodeLensCache::new(false),
    };

    // Toggle on then off - should not leave stale blocks
    editor.toggle_code_lenses(&context());
    editor.toggle_code_lenses(&context());
    assert!(!editor.code_lens_enabled());
    assert!(editor.code_lens_cache.all_block_ids().is_empty());
}

#[test]
fn switching_on_starts_a_refresh_and_says_so() {
    let mut editor = editor(false);
    let actions = editor.toggle_code_lenses(&context());
    assert_eq!(actions.len(), 3);
    assert!(matches!(
        &actions[0],
        EditorAction::StartRefresh(CodeLensRefresh {
            buffer_id,
            state: RefreshState::Debouncing { debounce_ms: 250 },
        }) if *buffer_id == buffer()
    ));
    assert!(matches!(
        &actions[1],
        EditorAction::ShowToast(text) if text == "Code lens enabled, loading..."
    ));
    assert!(matches!(actions[2], EditorAction::Notify));
}

#[test]
fn switching_on_without_buffer_project_or_workspace() {
    let bare = EditorContext {
        singleton: None,
        has_workspace: false,
        ..context()
    };
    let actions = editor(false).toggle_code_lenses(&bare);
    assert_eq!(actions.len(), 1);
    assert!(matches!(actions[0], EditorAction::Notify));

    let projectless = EditorContext {
        has_project: false,
        ..context()
    };
    let actions = editor(false).toggle_code_lenses(&projectless);
    assert_eq!(actions.len(), 2);
    assert!(matches!(actions[0], EditorAction::ShowToast(_)));
}

#[test]
fn switching_off_removes_the_blocks() {
    let mut editor = editor(true);
    editor
        .code_lens_cache
        .set_block_ids(buffer(), vec![CustomBlockId(7), CustomBlockId(8)]);
    let actions = editor.toggle_code_lenses(&context());
    assert_eq!(actions.len(), 3);
    assert!(matches!(
        &actions[0],
        EditorAction::RemoveBlocks(ids) if *ids == vec![CustomBlockId(7), CustomBlockId(8)]
    ));
    assert!(matches!(actions[1], EditorAction::DismissToast));
    assert!(matches!(actions[2], EditorAction::Notify));
    assert!(editor.code_lens_cache.all_block_ids().is_empty());
}

#[test]
fn switching_off_without_blocks_removes_none() {
    let actions = editor(true).toggle_code_lenses(&EditorContext {
        has_workspace: false,
        ..context()
    });
    assert_eq!(actions.len(), 1);
    assert!(matches!(actions[0], EditorAction::Notify));
}

#[test]
fn refresh_needs_lenses_a_buffer_and_a_project() {
    assert!(editor(true).refresh_code_lenses(&context()).is_some());
    assert!(editor(false).refresh_code_lenses(&context()).is_none());
    assert!(editor(true)
        .refresh_code_lenses(&EditorContext {
            singleton: None,
            ..context()
        })
        .is_none());
    assert!(editor(true)
        .refresh_code_lenses(&EditorContext {
            has_project: false,
            ..context()
        })
        .is_none());
}

#[test]
fn refresh_shows_lenses_and_ends() {
    let mut editor = editor(true);
    editor.refresh_started(buffer(), 17);
    editor
        .code_lens_cache
        .set_block_ids(buffer(), vec![CustomBlockId(3)]);

    let (refresh, actions) = editor.advance_refresh(updating(), EditorEvent::Entered, true);
    assert!(matches!(refresh.state, RefreshState::Inserting));
    assert_eq!(refresh.buffer_id, buffer());
    assert_eq!(actions.len(), 2);
    assert!(matches!(
        &actions[0],
        EditorAction::RemoveBlocks(ids) if *ids == vec![CustomBlockId(3)]
    ));
    match &actions[1] {
        EditorAction::InsertBlocks(blocks) => {
            assert_eq!(blocks.len(), 2);
            let last = &blocks[1];
            let position = Anchor::At {
                point: Point { row: 2, column: 4 },
                bias: Bias::Left,
            };
            assert_eq!(last.placement, BlockPlacement::Above(position));
            assert_eq!(
                last.lens.symbol_position,
                Anchor::InExcerpt {
                    text_anchor: TextAnchor { id: 1 },
                    point: Point { row: 2, column: 4 }
                }
            );
            assert_eq!(last.height, Some(1));
            assert_eq!(last.style, BlockStyle::Sticky);
            assert_eq!(last.priority, 0);
            assert_eq!(last.lens.items.len(), 2);
            assert_eq!(last.lens.items[0].text, "2 references");
            assert_eq!(last.lens.items[1].text, "Debug");
            assert_eq!(blocks[0].lens.items[0].text, "Run test");
        }
        _ => panic!("blocks to insert"),
    }

    let ids = vec![CustomBlockId(4), CustomBlockId(5)];
    let (refresh, actions) =
        editor.advance_refresh(refresh, EditorEvent::BlocksInserted(ids.clone()), true);
    assert!(matches!(refresh.state, RefreshState::Finishing));
    assert_eq!(actions.len(), 2);
    assert!(matches!(actions[0], EditorAction::DismissToast));
    assert!(matches!(actions[1], EditorAction::Notify));
    assert_eq!(editor.code_lens_cache.get_block_ids(&buffer()), Some(&ids));

    let (refresh, actions) = editor.advance_refresh(refresh, EditorEvent::Entered, true);
    assert!(matches!(refresh.state, RefreshState::Done));
    assert_eq!(actions.len(), 1);
    assert!(matches!(actions[0], EditorAction::DismissToast));

    let (refresh, actions) = editor.advance_refresh(refresh, EditorEvent::Entered, true);
    assert!(matches!(refresh.state, RefreshState::Done));
    assert!(actions.is_empty());
}

#[test]
fn first_refresh_removes_no_blocks() {
    let (_, actions) = editor(true).advance_refresh(updating(), EditorEvent::Entered, false);
    assert_eq!(actions.len(), 1);
    assert!(matches!(actions[0], EditorAction::InsertBlocks(_)));
}

#[test]
fn refresh_of_switched_off_lenses_shows_nothing() {
    let mut editor = editor(false);
    let (refresh, actions) = editor.advance_refresh(updating(), EditorEvent::Entered, true);
    assert!(matches!(refresh.state, RefreshState::Finishing));
    assert!(actions.is_empty());
    assert!(editor.code_lens_cache.all_block_ids().is_empty());

    let (refresh, actions) = editor.advance_refresh(refresh, EditorEvent::Entered, false);
    assert!(matches!(refresh.state, RefreshState::Done));
    assert!(actions.is_empty());
}

#[test]
fn refresh_without_actions_goes_to_its_end() {
    for answer in [Ok(None), Err(FetchError)] {
        let refresh = editor(true).refresh_code_lenses(&context()).unwrap();
        let refresh = refresh.advance(RefreshEvent::TimerElapsed);
        let refresh = refresh.advance(RefreshEvent::ActionsFetched(answer));
        assert!(matches!(refresh.state, RefreshState::Finishing));
    }
}

#[test]
fn refresh_ends_with_its_editor() {
    let refresh = updating().advance(RefreshEvent::EditorReleased);
    assert!(matches!(refresh.state, RefreshState::Done));

    let refresh = CodeLensRefresh {
        buffer_id: buffer(),
        state: RefreshState::Finishing,
    };
    let refresh = refresh.advance(RefreshEvent::EditorReleased);
    assert!(matches!(refresh.state, RefreshState::Done));
}

#[test]
fn unexpected_events_change_nothing() {
    let refresh = editor(true).refresh_code_lenses(&context()).unwrap();
    let refresh = refresh.advance(RefreshEvent::ActionsFetched(Ok(None)));
    assert!(matches!(
        refresh.state,
        RefreshState::Debouncing { debounce_ms: 250 }
    ));
    let (refresh, actions) = editor(true).advance_refresh(refresh, EditorEvent::Entered, true);
    assert!(matches!(refresh.state, RefreshState::Debouncing { .. }));
    assert!(actions.is_empty());
}
