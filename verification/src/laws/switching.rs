//! What the editor does when lenses are switched, and when a refresh comes to it. An
//! editor passed by `&mut` is `old` before the call and `final` after it.

use vstd::prelude::*;

use crate::cache::{
    is_listing, law_listing_holds_every_block, law_listings_differ_only_in_order, CodeLensCache,
};
use crate::editor::{
    action_views, block_views, blocks_for, switch_off_actions, switch_on_actions, BlockPlacement,
    BlockProperties, BlockStyle, Editor, EditorAction, EditorContext, EditorEvent,
};
use crate::ids::{BufferId, CustomBlockId};
use crate::laws::refreshing::{is_same_state, lemma_same_lines};
use crate::laws::remembering::knows_nothing_of;
use crate::lens::{lens_views, CodeLensData};
use crate::refresh::{CodeLensRefresh, RefreshState};

verus! {

/// The context allows a refresh: the editor shows a single buffer, and belongs to a
/// project.
pub open spec fn can_refresh(context: EditorContext) -> bool {
    context.singleton is Some && context.has_project
}

/// The refresh is that of the editor's buffer and waits out the time that is set.
pub open spec fn is_fresh(refresh: CodeLensRefresh, context: EditorContext) -> bool {
    &&& context.singleton == Some(refresh.buffer_id)
    &&& refresh.state is Debouncing
    &&& refresh.state->Debouncing_debounce_ms == context.debounce_ms
}

/// An editor says that lenses are on as its cache does.
pub proof fn law_editor_is_on_as_its_cache<Task>(
    editor: Editor<Task>,
    res: bool,
    cached: bool,
)
    requires
        call_ensures(Editor::<Task>::code_lens_enabled, (&editor,), res),
        call_ensures(CodeLensCache::<Task>::enabled, (&editor.code_lens_cache,), cached),
    ensures
        res == cached,
        res == editor.code_lens_cache@.enabled,
{
}

/// A refresh is started exactly where lenses are on, the editor shows a single buffer
/// and belongs to a project: for that buffer, after the time that is set.
pub proof fn law_refresh_is_started_where_it_can<Task>(
    editor: Editor<Task>,
    context: EditorContext,
    res: Option<CodeLensRefresh>,
)
    requires
        call_ensures(Editor::<Task>::refresh_code_lenses, (&editor, &context), res),
    ensures
        res is Some <==> editor.code_lens_cache@.enabled && context.singleton is Some
            && context.has_project,
        res is Some ==> is_fresh(res->Some_0, context),
{
}

/// The task of a started refresh is remembered for its buffer, and nothing else
/// changes.
pub proof fn law_started_refresh_is_remembered<Task>(
    editor: &mut Editor<Task>,
    buffer_id: BufferId,
    task: Task,
    other: u64,
)
    requires
        call_ensures(Editor::<Task>::refresh_started, (editor, buffer_id, task), ()),
    ensures
        ({
            let before = old(editor).code_lens_cache@;
            let after = final(editor).code_lens_cache@;
            &&& after.pending_refresh.contains_key(buffer_id@)
            &&& after.pending_refresh[buffer_id@] == task
            &&& other != buffer_id@ ==> after.pending_refresh.contains_key(other)
                == before.pending_refresh.contains_key(other)
            &&& other != buffer_id@ ==> after.pending_refresh[other]
                == before.pending_refresh[other]
            &&& after.enabled == before.enabled
            &&& after.lenses == before.lenses
            &&& after.block_ids == before.block_ids
        }),
{
}

/// Toggling turns the switch over. It forgets every buffer when lenses go off, and
/// keeps all when they go on.
pub proof fn law_toggling_turns_the_switch<Task>(
    editor: &mut Editor<Task>,
    context: EditorContext,
    res: Vec<EditorAction>,
    buffer: u64,
)
    requires
        call_ensures(Editor::<Task>::toggle_code_lenses, (editor, &context), res),
    ensures
        ({
            let before = old(editor).code_lens_cache@;
            let after = final(editor).code_lens_cache@;
            &&& after.enabled == !before.enabled
            &&& before.enabled ==> knows_nothing_of(after, buffer)
            &&& !before.enabled ==> after.lenses == before.lenses
            &&& !before.enabled ==> after.pending_refresh == before.pending_refresh
            &&& !before.enabled ==> after.block_ids == before.block_ids
        }),
{
}

/// Actions that have the same views correspond one to one.
proof fn lemma_action_view(actions: Seq<EditorAction>, i: int)
    requires
        0 <= i < actions.len(),
    ensures
        action_views(actions).len() == actions.len(),
        action_views(actions)[i] == actions[i]@,
{
}

/// When lenses go on, a refresh is started where it can be, a notification is shown
/// where there is a workspace, and the editor is drawn anew, in this order, and that is
/// all.
pub proof fn law_switching_on_starts_a_refresh<Task>(
    editor: &mut Editor<Task>,
    context: EditorContext,
    res: Vec<EditorAction>,
)
    requires
        !old(editor).code_lens_cache@.enabled,
        call_ensures(Editor::<Task>::toggle_code_lenses, (editor, &context), res),
    ensures
        res@.len() == 1 + (if can_refresh(context) {
            1int
        } else {
            0
        }) + (if context.has_workspace {
            1int
        } else {
            0
        }),
        can_refresh(context) ==> res@[0] is StartRefresh,
        can_refresh(context) ==> is_fresh(res@[0]->StartRefresh_0, context),
        context.has_workspace ==> res@[res@.len() - 2] is ShowToast,
        context.has_workspace ==> res@[res@.len() - 2]->ShowToast_0@
            == "Code lens enabled, loading..."@,
        res@.last() is Notify,
{
    assert(action_views(res@) == switch_on_actions(context));
    assert(action_views(res@).len() == res@.len());
    lemma_action_view(res@, res@.len() - 1);
    if can_refresh(context) {
        lemma_action_view(res@, 0);
    }
    if context.has_workspace {
        lemma_action_view(res@, res@.len() - 2);
    }
}

/// Some buffer has blocks.
pub open spec fn has_blocks(block_ids: Map<u64, Seq<CustomBlockId>>) -> bool {
    exists|buffer: u64| #[trigger]
        block_ids.contains_key(buffer) && block_ids[buffer].len() > 0
}

/// When lenses go off, the blocks of all buffers are removed where there are any, the
/// notification is taken away where there is a workspace, and the editor is drawn anew,
/// in this order, and that is all.
pub proof fn law_switching_off_removes_all_blocks<Task>(
    editor: &mut Editor<Task>,
    context: EditorContext,
    res: Vec<EditorAction>,
    all: Vec<CustomBlockId>,
    id: CustomBlockId,
)
    requires
        old(editor).code_lens_cache@.enabled,
        call_ensures(CodeLensCache::<Task>::all_block_ids, (&old(editor).code_lens_cache,), all),
        call_ensures(Editor::<Task>::toggle_code_lenses, (editor, &context), res),
    ensures
        res@.len() == 1 + (if has_blocks(old(editor).code_lens_cache@.block_ids) {
            1int
        } else {
            0
        }) + (if context.has_workspace {
            1int
        } else {
            0
        }),
        has_blocks(old(editor).code_lens_cache@.block_ids) ==> {
            &&& res@[0] is RemoveBlocks
            &&& res@[0]->RemoveBlocks_0@.to_multiset() == all@.to_multiset()
            &&& res@[0]->RemoveBlocks_0@.contains(id) <==> exists|buffer: u64| #[trigger]
                old(editor).code_lens_cache@.block_ids.contains_key(buffer)
                    && old(editor).code_lens_cache@.block_ids[buffer].contains(id)
        },
        context.has_workspace ==> res@[res@.len() - 2] is DismissToast,
        res@.last() is Notify,
{
    let block_ids = old(editor).code_lens_cache@.block_ids;
    let ids = choose|ids: Seq<CustomBlockId>| #[trigger]
        is_listing(ids, block_ids) && action_views(res@) == switch_off_actions(context, ids);
    assert(action_views(res@).len() == res@.len());
    law_listings_differ_only_in_order(block_ids, ids, all@);
    law_listing_holds_every_block(block_ids, ids, id);
    assert(ids.len() > 0 <==> has_blocks(block_ids)) by {
        if ids.len() > 0 {
            law_listing_holds_every_block(block_ids, ids, ids[0]);
            assert(ids.contains(ids[0]));
            let buffer = choose|buffer: u64| #[trigger]
                block_ids.contains_key(buffer) && block_ids[buffer].contains(ids[0]);
            assert(block_ids[buffer].len() > 0);
        }
        if has_blocks(block_ids) {
            let buffer = choose|buffer: u64| #[trigger]
                block_ids.contains_key(buffer) && block_ids[buffer].len() > 0;
            law_listing_holds_every_block(block_ids, ids, block_ids[buffer][0]);
            assert(block_ids[buffer].contains(block_ids[buffer][0]));
        }
    }
    lemma_action_view(res@, res@.len() - 1);
    if ids.len() > 0 {
        lemma_action_view(res@, 0);
    }
    if context.has_workspace {
        lemma_action_view(res@, res@.len() - 2);
    }
}

/// A step in the editor leaves a refresh that of its buffer, and the switch alone.
pub proof fn law_step_keeps_buffer_and_switch<Task>(
    editor: &mut Editor<Task>,
    refresh: CodeLensRefresh,
    event: EditorEvent,
    has_workspace: bool,
    res: (CodeLensRefresh, Vec<EditorAction>),
)
    requires
        call_ensures(
            Editor::<Task>::advance_refresh,
            (editor, refresh, event, has_workspace),
            res,
        ),
    ensures
        res.0.buffer_id == refresh.buffer_id,
        final(editor).code_lens_cache@.enabled == old(editor).code_lens_cache@.enabled,
{
}

/// A refresh that has lenses to show, but finds them switched off, changes nothing,
/// asks for nothing, and goes to its end.
pub proof fn law_switched_off_editor_shows_nothing<Task>(
    editor: &mut Editor<Task>,
    refresh: CodeLensRefresh,
    has_workspace: bool,
    res: (CodeLensRefresh, Vec<EditorAction>),
)
    requires
        refresh.state is Updating,
        !old(editor).code_lens_cache@.enabled,
        call_ensures(
            Editor::<Task>::advance_refresh,
            (editor, refresh, EditorEvent::Entered, has_workspace),
            res,
        ),
    ensures
        final(editor).code_lens_cache@ == old(editor).code_lens_cache@,
        res.0.state is Finishing,
        res.1@.len() == 0,
{
    assert(action_views(res.1@).len() == res.1@.len());
}

/// A block draws this line of lenses: above it, one line high, in front of no other
/// block, and fixed when the text is scrolled sideways.
pub open spec fn draws_above(block: BlockProperties, lens: CodeLensData) -> bool {
    &&& block.placement == BlockPlacement::Above(lens.position)
    &&& block.height == Some(1u32)
    &&& block.style == BlockStyle::Sticky
    &&& block.priority == 0
    &&& block.lens.position == lens.position
    &&& block.lens.symbol_position == lens.symbol_position
    &&& block.lens.items@ == lens.items@
}

/// A refresh that has lenses to show removes the blocks that its buffer had, and
/// nothing else, and then asks for one block for each line of lenses, in their order.
pub proof fn law_new_blocks_replace_old_ones<Task>(
    editor: &mut Editor<Task>,
    refresh: CodeLensRefresh,
    has_workspace: bool,
    res: (CodeLensRefresh, Vec<EditorAction>),
    i: int,
)
    requires
        refresh.state is Updating,
        old(editor).code_lens_cache@.enabled,
        call_ensures(
            Editor::<Task>::advance_refresh,
            (editor, refresh, EditorEvent::Entered, has_workspace),
            res,
        ),
    ensures
        res.0.state is Inserting,
        ({
            let block_ids = old(editor).code_lens_cache@.block_ids;
            let buffer = refresh.buffer_id@;
            let lenses = refresh.state->Updating_lenses@;
            let insertion = res.1@.last();
            &&& block_ids.contains_key(buffer) ==> res.1@.len() == 2
            &&& block_ids.contains_key(buffer) ==> res.1@[0] is RemoveBlocks
            &&& block_ids.contains_key(buffer) ==> res.1@[0]->RemoveBlocks_0@ == block_ids[buffer]
            &&& !block_ids.contains_key(buffer) ==> res.1@.len() == 1
            &&& insertion is InsertBlocks
            &&& insertion->InsertBlocks_0@.len() == lenses.len()
            &&& 0 <= i < lenses.len() ==> draws_above(insertion->InsertBlocks_0@[i], lenses[i])
        }),
{
    let lenses = refresh.state->Updating_lenses@;
    assert(action_views(res.1@).len() == res.1@.len());
    lemma_action_view(res.1@, res.1@.len() - 1);
    lemma_action_view(res.1@, 0);
    let blocks = res.1@.last()->InsertBlocks_0@;
    assert(block_views(blocks) == blocks_for(lens_views(lenses)));
    assert(block_views(blocks).len() == blocks.len());
    assert(blocks_for(lens_views(lenses)).len() == lenses.len());
    if 0 <= i < lenses.len() {
        assert(block_views(blocks)[i] == blocks[i]@);
        assert(lens_views(lenses)[i] == lenses[i]@);
        assert(blocks[i]@.lens == blocks[i].lens@);
    }
}

/// A refresh that has lenses to show has them remembered for its buffer, line by line.
/// Those of every other buffer, all tasks and all blocks stay.
pub proof fn law_shown_lenses_are_remembered<Task>(
    editor: &mut Editor<Task>,
    refresh: CodeLensRefresh,
    has_workspace: bool,
    res: (CodeLensRefresh, Vec<EditorAction>),
    i: int,
    other: u64,
)
    requires
        refresh.state is Updating,
        old(editor).code_lens_cache@.enabled,
        call_ensures(
            Editor::<Task>::advance_refresh,
            (editor, refresh, EditorEvent::Entered, has_workspace),
            res,
        ),
    ensures
        ({
            let before = old(editor).code_lens_cache@;
            let after = final(editor).code_lens_cache@;
            let buffer = refresh.buffer_id@;
            let lenses = refresh.state->Updating_lenses@;
            let line = after.lenses[buffer][i];
            &&& after.lenses.contains_key(buffer)
            &&& after.lenses[buffer].len() == lenses.len()
            &&& 0 <= i < lenses.len() ==> line.position == lenses[i].position
            &&& 0 <= i < lenses.len() ==> line.symbol_position == lenses[i].symbol_position
            &&& 0 <= i < lenses.len() ==> line.items == lenses[i].items@
            &&& other != buffer ==> after.lenses.contains_key(other)
                == before.lenses.contains_key(other)
            &&& other != buffer ==> after.lenses[other] == before.lenses[other]
            &&& after.pending_refresh == before.pending_refresh
            &&& after.block_ids == before.block_ids
        }),
{
    let lenses = refresh.state->Updating_lenses@;
    assert(lens_views(lenses).len() == lenses.len());
    if 0 <= i < lenses.len() {
        assert(lens_views(lenses)[i] == lenses[i]@);
    }
}

/// The blocks that the editor inserted for a refresh are remembered for its buffer;
/// those of every other buffer, and all else, stay. The notification is taken away
/// where there is a workspace, and the editor is drawn anew.
pub proof fn law_inserted_blocks_are_remembered<Task>(
    editor: &mut Editor<Task>,
    refresh: CodeLensRefresh,
    ids: Vec<CustomBlockId>,
    has_workspace: bool,
    res: (CodeLensRefresh, Vec<EditorAction>),
    other: u64,
)
    requires
        refresh.state is Inserting,
        call_ensures(
            Editor::<Task>::advance_refresh,
            (editor, refresh, EditorEvent::BlocksInserted(ids), has_workspace),
            res,
        ),
    ensures
        res.0.state is Finishing,
        ({
            let before = old(editor).code_lens_cache@;
            let after = final(editor).code_lens_cache@;
            let buffer = refresh.buffer_id@;
            &&& after.block_ids.contains_key(buffer)
            &&& after.block_ids[buffer] == ids@
            &&& other != buffer ==> after.block_ids.contains_key(other)
                == before.block_ids.contains_key(other)
            &&& other != buffer ==> after.block_ids[other] == before.block_ids[other]
            &&& after.lenses == before.lenses
            &&& after.pending_refresh == before.pending_refresh
        }),
        has_workspace ==> res.1@.len() == 2 && res.1@[0] is DismissToast,
        !has_workspace ==> res.1@.len() == 1,
        res.1@.last() is Notify,
{
    assert(action_views(res.1@).len() == res.1@.len());
    lemma_action_view(res.1@, res.1@.len() - 1);
    lemma_action_view(res.1@, 0);
}

/// The end of a refresh forgets its buffer's task and nothing else, and takes the
/// notification away where there is a workspace.
pub proof fn law_end_of_a_refresh<Task>(
    editor: &mut Editor<Task>,
    refresh: CodeLensRefresh,
    has_workspace: bool,
    res: (CodeLensRefresh, Vec<EditorAction>),
    other: u64,
)
    requires
        refresh.state is Finishing,
        call_ensures(
            Editor::<Task>::advance_refresh,
            (editor, refresh, EditorEvent::Entered, has_workspace),
            res,
        ),
    ensures
        res.0.state is Done,
        ({
            let before = old(editor).code_lens_cache@;
            let after = final(editor).code_lens_cache@;
            let buffer = refresh.buffer_id@;
            &&& !after.pending_refresh.contains_key(buffer)
            &&& other != buffer ==> after.pending_refresh.contains_key(other)
                == before.pending_refresh.contains_key(other)
            &&& other != buffer && before.pending_refresh.contains_key(other)
                ==> after.pending_refresh[other] == before.pending_refresh[other]
            &&& after.lenses == before.lenses
            &&& after.block_ids == before.block_ids
        }),
        has_workspace ==> res.1@.len() == 1 && res.1@[0] is DismissToast,
        !has_workspace ==> res.1@.len() == 0,
{
    assert(action_views(res.1@).len() == res.1@.len());
    if has_workspace {
        lemma_action_view(res.1@, 0);
    }
}

/// The event is the one that a refresh in this state goes on by in the editor.
pub open spec fn is_awaited_in_editor(state: RefreshState, event: EditorEvent) -> bool {
    ||| state is Updating && event is Entered
    ||| state is Inserting && event is BlocksInserted
    ||| state is Finishing && event is Entered
}

/// Any other event changes nothing and asks for nothing.
pub proof fn law_other_editor_events_change_nothing<Task>(
    editor: &mut Editor<Task>,
    refresh: CodeLensRefresh,
    event: EditorEvent,
    has_workspace: bool,
    res: (CodeLensRefresh, Vec<EditorAction>),
)
    requires
        !is_awaited_in_editor(refresh.state, event),
        call_ensures(
            Editor::<Task>::advance_refresh,
            (editor, refresh, event, has_workspace),
            res,
        ),
    ensures
        final(editor).code_lens_cache@ == old(editor).code_lens_cache@,
        is_same_state(res.0.state, refresh.state),
        res.1@.len() == 0,
{
    assert(action_views(res.1@).len() == res.1@.len());
    if refresh.state is Updating {
        lemma_same_lines(res.0.state->Updating_lenses@, refresh.state->Updating_lenses@);
    }
}

/// Toggling twice, with nothing between, brings the switch back; where lenses were off
/// it leaves no buffer remembered, no blocks, and no task.
pub proof fn law_toggling_on_and_off_leaves_nothing<Task>(
    first: &mut Editor<Task>,
    second: &mut Editor<Task>,
    context: EditorContext,
    on: Vec<EditorAction>,
    off: Vec<EditorAction>,
    all: Vec<CustomBlockId>,
    buffer: u64,
)
    requires
        call_ensures(Editor::<Task>::toggle_code_lenses, (first, &context), on),
        old(second).code_lens_cache@ == final(first).code_lens_cache@,
        call_ensures(Editor::<Task>::toggle_code_lenses, (second, &context), off),
        call_ensures(
            CodeLensCache::<Task>::all_block_ids,
            (&final(second).code_lens_cache,),
            all,
        ),
    ensures
        final(second).code_lens_cache@.enabled == old(first).code_lens_cache@.enabled,
        !old(first).code_lens_cache@.enabled ==> knows_nothing_of(
            final(second).code_lens_cache@,
            buffer,
        ),
        !old(first).code_lens_cache@.enabled ==> all@.len() == 0,
{
    if !old(first).code_lens_cache@.enabled && all@.len() > 0 {
        law_listing_holds_every_block(final(second).code_lens_cache@.block_ids, all@, all@[0]);
        assert(all@.contains(all@[0]));
    }
}

} // verus!
