//! The code lenses of an editor: switching them, and showing what a refresh found.

use vstd::prelude::*;

use crate::cache::{
    is_listing, law_listing_holds_every_block, CodeLensCache, CodeLensCacheView,
};
use crate::ids::{BufferId, CustomBlockId};
use crate::lens::{lens_views, CodeLensData, CodeLensDataView};
use crate::position::Anchor;
use crate::refresh::{
    CodeLensRefresh, CodeLensRefreshView, RefreshState, RefreshStateView,
};

verus! {

/// What an editor keeps for its code lenses.
pub struct Editor<Task = ()> {
    pub code_lens_cache: CodeLensCache<Task>,
}

/// What the lenses read of the rest of the editor at one moment.
#[derive(Clone, Copy, Debug)]
pub struct EditorContext {
    /// The buffer that the editor shows, where it shows a single one.
    pub singleton: Option<BufferId>,
    /// Whether the editor belongs to a project, which language servers serve.
    pub has_project: bool,
    /// Whether the editor stands in a workspace, which shows notifications.
    pub has_workspace: bool,
    /// The time that a refresh waits before it asks a server.
    pub debounce_ms: u64,
}

/// Where a block stands.
#[derive(Clone, Copy, Debug, PartialEq, Eq, Structural)]
pub enum BlockPlacement {
    /// Above the line of the anchor.
    Above(Anchor),
}

/// How a block moves when the text is scrolled sideways.
#[derive(Clone, Copy, Debug, PartialEq, Eq, Structural)]
pub enum BlockStyle {
    /// It stays where it is.
    Sticky,
}

/// A block to be inserted between the lines of the text.
#[derive(Debug)]
pub struct BlockProperties {
    pub placement: BlockPlacement,
    /// Its height in lines.
    pub height: Option<u32>,
    pub style: BlockStyle,
    /// The lenses that are drawn in it.
    pub lens: CodeLensData,
    pub priority: usize,
}

/// A block to be inserted, as a mathematical value.
pub struct BlockPropertiesView {
    pub placement: BlockPlacement,
    pub height: Option<u32>,
    pub style: BlockStyle,
    pub lens: CodeLensDataView,
    pub priority: usize,
}

impl View for BlockProperties {
    type V = BlockPropertiesView;

    open spec fn view(&self) -> BlockPropertiesView {
        BlockPropertiesView {
            placement: self.placement,
            height: self.height,
            style: self.style,
            lens: self.lens@,
            priority: self.priority,
        }
    }
}

/// The block that draws a line of lenses: one line high, above the line that the
/// lenses belong to.
pub open spec fn block_for(lens: CodeLensDataView) -> BlockPropertiesView {
    BlockPropertiesView {
        placement: BlockPlacement::Above(lens.position),
        height: Some(1u32),
        style: BlockStyle::Sticky,
        lens,
        priority: 0usize,
    }
}

/// The blocks that draw lines of lenses.
pub open spec fn blocks_for(lenses: Seq<CodeLensDataView>) -> Seq<BlockPropertiesView> {
    lenses.map_values(|lens: CodeLensDataView| block_for(lens))
}

/// Blocks as mathematical values.
pub open spec fn block_views(blocks: Seq<BlockProperties>) -> Seq<BlockPropertiesView> {
    blocks.map_values(|block: BlockProperties| block@)
}

/// What the rest of the editor has to do.
#[derive(Debug)]
pub enum EditorAction {
    RemoveBlocks(Vec<CustomBlockId>),
    /// To insert the blocks and tell the refresh their numbers.
    InsertBlocks(Vec<BlockProperties>),
    /// To run the refresh in a task of its own and remember that task.
    StartRefresh(CodeLensRefresh),
    /// To show this notification.
    ShowToast(String),
    /// To take the notification away.
    DismissToast,
    /// To draw the editor anew.
    Notify,
}

/// What the rest of the editor has to do, as a mathematical value.
pub enum EditorActionView {
    RemoveBlocks(Seq<CustomBlockId>),
    InsertBlocks(Seq<BlockPropertiesView>),
    StartRefresh(CodeLensRefreshView),
    ShowToast(Seq<char>),
    DismissToast,
    Notify,
}

impl View for EditorAction {
    type V = EditorActionView;

    open spec fn view(&self) -> EditorActionView {
        match *self {
            EditorAction::RemoveBlocks(ids) => EditorActionView::RemoveBlocks(ids@),
            EditorAction::InsertBlocks(blocks) => EditorActionView::InsertBlocks(
                block_views(blocks@),
            ),
            EditorAction::StartRefresh(refresh) => EditorActionView::StartRefresh(refresh@),
            EditorAction::ShowToast(text) => EditorActionView::ShowToast(text@),
            EditorAction::DismissToast => EditorActionView::DismissToast,
            EditorAction::Notify => EditorActionView::Notify,
        }
    }
}

/// Actions as mathematical values.
pub open spec fn action_views(actions: Seq<EditorAction>) -> Seq<EditorActionView> {
    actions.map_values(|action: EditorAction| action@)
}

/// An action that is done only under a condition.
pub open spec fn action_if(condition: bool, action: EditorActionView) -> Seq<EditorActionView> {
    if condition {
        seq![action]
    } else {
        Seq::empty()
    }
}

/// The refresh that an editor starts: none while lenses are off, where the editor
/// shows more than one buffer, or where it belongs to no project.
pub open spec fn refresh_to_start(enabled: bool, context: EditorContext) -> Option<
    CodeLensRefreshView,
> {
    match context.singleton {
        Some(buffer_id) if enabled && context.has_project => Some(
            CodeLensRefreshView {
                buffer_id,
                state: RefreshStateView::Debouncing { debounce_ms: context.debounce_ms },
            },
        ),
        _ => None,
    }
}

/// What is done when lenses are switched on.
pub open spec fn switch_on_actions(context: EditorContext) -> Seq<EditorActionView> {
    (match refresh_to_start(true, context) {
        Some(refresh) => seq![EditorActionView::StartRefresh(refresh)],
        None => Seq::empty(),
    }) + action_if(
        context.has_workspace,
        EditorActionView::ShowToast("Code lens enabled, loading..."@),
    ) + seq![EditorActionView::Notify]
}

/// What is done when lenses are switched off, `ids` being the blocks that show
/// them.
pub open spec fn switch_off_actions(
    context: EditorContext,
    ids: Seq<CustomBlockId>,
) -> Seq<EditorActionView> {
    action_if(ids.len() > 0, EditorActionView::RemoveBlocks(ids)) + action_if(
        context.has_workspace,
        EditorActionView::DismissToast,
    ) + seq![EditorActionView::Notify]
}

/// What a refresh is told by the editor.
#[derive(Debug)]
pub enum EditorEvent {
    /// The editor is there and can be changed.
    Entered,
    /// The blocks were inserted under these numbers.
    BlocksInserted(Vec<CustomBlockId>),
}

/// What a refresh is told by the editor, as a mathematical value.
pub enum EditorEventView {
    Entered,
    BlocksInserted(Seq<CustomBlockId>),
}

impl View for EditorEvent {
    type V = EditorEventView;

    open spec fn view(&self) -> EditorEventView {
        match *self {
            EditorEvent::Entered => EditorEventView::Entered,
            EditorEvent::BlocksInserted(ids) => EditorEventView::BlocksInserted(ids@),
        }
    }
}

/// What a step of a refresh leads to: what the editor remembers, what the refresh
/// waits for next, and what has to be done meanwhile.
#[verifier::ext_equal]
pub struct RefreshStep<Task> {
    pub cache: CodeLensCacheView<Task>,
    pub state: RefreshStateView,
    pub actions: Seq<EditorActionView>,
}

/// The step that a refresh takes in the editor. An event that the state does not
/// wait for changes nothing.
pub open spec fn refresh_step<Task>(
    cache: CodeLensCacheView<Task>,
    refresh: CodeLensRefreshView,
    event: EditorEventView,
    has_workspace: bool,
) -> RefreshStep<Task> {
    let buffer_id = refresh.buffer_id;
    match (refresh.state, event) {
        // Lenses that were switched off meanwhile are not shown.
        (
            RefreshStateView::Updating { lenses },
            EditorEventView::Entered,
        ) if !cache.enabled => RefreshStep {
            cache,
            state: RefreshStateView::Finishing,
            actions: Seq::empty(),
        },
        // The blocks of the buffer give way to new ones.
        (RefreshStateView::Updating { lenses }, EditorEventView::Entered) => RefreshStep {
            cache: cache.with_lenses(buffer_id, lenses),
            state: RefreshStateView::Inserting,
            actions: (match cache.blocks_of(buffer_id) {
                Some(ids) => seq![EditorActionView::RemoveBlocks(ids)],
                None => Seq::empty(),
            }) + seq![EditorActionView::InsertBlocks(blocks_for(lenses))],
        },
        (RefreshStateView::Inserting, EditorEventView::BlocksInserted(ids)) => RefreshStep {
            cache: cache.with_block_ids(buffer_id, ids),
            state: RefreshStateView::Finishing,
            actions: action_if(has_workspace, EditorActionView::DismissToast)
                + seq![EditorActionView::Notify],
        },
        (RefreshStateView::Finishing, EditorEventView::Entered) => RefreshStep {
            cache: cache.without_refresh_task(buffer_id),
            state: RefreshStateView::Done,
            actions: action_if(has_workspace, EditorActionView::DismissToast),
        },
        (state, _) => RefreshStep { cache, state, actions: Seq::empty() },
    }
}

/// A copy of lines of lenses.
fn clone_lenses(lenses: &Vec<CodeLensData>) -> (res: Vec<CodeLensData>)
    ensures
        lens_views(res@) == lens_views(lenses@),
{
    let res = lenses.clone();
    assert(lens_views(res@) =~= lens_views(lenses@));
    res
}

/// The blocks that draw lines of lenses.
fn lens_blocks(lenses: Vec<CodeLensData>) -> (res: Vec<BlockProperties>)
    ensures
        block_views(res@) == blocks_for(lens_views(lenses@)),
{
    let mut res: Vec<BlockProperties> = Vec::new();
    for lens in it: lenses
        invariant
            it.seq() == lenses@,
            res@.len() == it.index(),
            forall|i: int|
                0 <= i < res@.len() ==> (#[trigger] res@[i])@ == block_for(lenses@[i]@),
    {
        res.push(
            BlockProperties {
                placement: BlockPlacement::Above(lens.position),
                height: Some(1),
                style: BlockStyle::Sticky,
                lens,
                priority: 0,
            },
        );
    }
    assert(block_views(res@) =~= blocks_for(lens_views(lenses@)));
    res
}

impl<Task> Editor<Task> {
    /// Whether lenses are shown.
    pub fn code_lens_enabled(&self) -> (res: bool)
        ensures
            res == self.code_lens_cache@.enabled,
    {
        self.code_lens_cache.enabled()
    }

    /// The refresh to start, where lenses are shown and can be refreshed. It has
    /// to run in a task of its own, which the editor then remembers.
    pub fn refresh_code_lenses(&self, context: &EditorContext) -> (res: Option<CodeLensRefresh>)
        ensures
            match res {
                Some(refresh) => refresh_to_start(self.code_lens_cache@.enabled, *context) == Some(
                    refresh@,
                ),
                None => refresh_to_start(self.code_lens_cache@.enabled, *context) is None,
            },
    {
        if !self.code_lens_enabled() {
            return None;
        }
        let buffer_id = match context.singleton {
            Some(buffer_id) => buffer_id,
            None => {
                return None;
            },
        };
        if !context.has_project {
            return None;
        }
        let state = RefreshState::Debouncing { debounce_ms: context.debounce_ms };
        Some(CodeLensRefresh { buffer_id, state })
    }

    /// Remembers the task that runs a refresh of a buffer. A task that ran an
    /// earlier one is dropped.
    pub fn refresh_started(&mut self, buffer_id: BufferId, task: Task)
        ensures
            final(self).code_lens_cache@ == old(self).code_lens_cache@.with_refresh_task(
                buffer_id,
                task,
            ),
    {
        self.code_lens_cache.set_refresh_task(buffer_id, task);
    }

    /// Switches lenses on where they are off, and off where they are on, and says
    /// what has to be done, in this order.
    pub fn toggle_code_lenses(&mut self, context: &EditorContext) -> (res: Vec<EditorAction>)
        ensures
            final(self).code_lens_cache@ == old(self).code_lens_cache@.toggled(
                !old(self).code_lens_cache@.enabled,
            ),
            if old(self).code_lens_cache@.enabled {
                exists|ids: Seq<CustomBlockId>| #[trigger]
                    is_listing(ids, old(self).code_lens_cache@.block_ids) && action_views(res@)
                        == switch_off_actions(*context, ids)
            } else {
                action_views(res@) == switch_on_actions(*context)
            },
    {
        let mut actions: Vec<EditorAction> = Vec::new();
        let enabled = !self.code_lens_cache.enabled();
        if enabled {
            self.code_lens_cache.toggle(enabled);
            if let Some(refresh) = self.refresh_code_lenses(context) {
                actions.push(EditorAction::StartRefresh(refresh));
            }
            if context.has_workspace {
                actions.push(EditorAction::ShowToast("Code lens enabled, loading...".to_owned()));
            }
            actions.push(EditorAction::Notify);
            assert(action_views(actions@) =~= switch_on_actions(*context));
        } else {
            let all_block_ids = self.code_lens_cache.all_block_ids();
            let ghost ids = all_block_ids@;
            self.code_lens_cache.toggle(enabled);
            if !all_block_ids.is_empty() {
                actions.push(EditorAction::RemoveBlocks(all_block_ids));
            }
            if context.has_workspace {
                actions.push(EditorAction::DismissToast);
            }
            actions.push(EditorAction::Notify);
            assert(action_views(actions@) =~= switch_off_actions(*context, ids));
            assert(is_listing(ids, old(self).code_lens_cache@.block_ids));
        }
        actions
    }

    /// Takes the step of a refresh that is due in the editor, and says what has to
    /// be done, in this order.
    pub fn advance_refresh(
        &mut self,
        refresh: CodeLensRefresh,
        event: EditorEvent,
        has_workspace: bool,
    ) -> (res: (CodeLensRefresh, Vec<EditorAction>))
        ensures
            res.0.buffer_id == refresh.buffer_id,
            (RefreshStep {
                cache: final(self).code_lens_cache@,
                state: res.0.state@,
                actions: action_views(res.1@),
            }) == refresh_step(old(self).code_lens_cache@, refresh@, event@, has_workspace),
    {
        let CodeLensRefresh { buffer_id, state } = refresh;
        let mut actions: Vec<EditorAction> = Vec::new();
        let ghost step = refresh_step(self.code_lens_cache@, refresh@, event@, has_workspace);
        let state = match (state, event) {
            (RefreshState::Updating { lenses }, EditorEvent::Entered) => {
                if self.code_lens_cache.enabled() {
                    if let Some(ids) = self.code_lens_cache.get_block_ids(&buffer_id) {
                        let ids: Vec<CustomBlockId> = ids.clone();
                        actions.push(EditorAction::RemoveBlocks(ids));
                    }
                    self.code_lens_cache.set_lenses_for_buffer(buffer_id, clone_lenses(&lenses));
                    actions.push(EditorAction::InsertBlocks(lens_blocks(lenses)));
                    RefreshState::Inserting
                } else {
                    RefreshState::Finishing
                }
            },
            (RefreshState::Inserting, EditorEvent::BlocksInserted(ids)) => {
                self.code_lens_cache.set_block_ids(buffer_id, ids);
                if has_workspace {
                    actions.push(EditorAction::DismissToast);
                }
                actions.push(EditorAction::Notify);
                RefreshState::Finishing
            },
            (RefreshState::Finishing, EditorEvent::Entered) => {
                self.code_lens_cache.remove_refresh_task(&buffer_id);
                if has_workspace {
                    actions.push(EditorAction::DismissToast);
                }
                RefreshState::Done
            },
            (state, _) => state,
        };
        assert(action_views(actions@) =~= step.actions);
        (CodeLensRefresh { buffer_id, state }, actions)
    }
}

/// A step of a refresh leaves what the editor remembers of other buffers alone,
/// and does not switch lenses.
pub proof fn law_refresh_touches_only_its_buffer<Task>(
    cache: CodeLensCacheView<Task>,
    refresh: CodeLensRefreshView,
    event: EditorEventView,
    has_workspace: bool,
    other: u64,
)
    requires
        other != refresh.buffer_id@,
    ensures
        ({
            let after = refresh_step(cache, refresh, event, has_workspace).cache;
            &&& after.enabled == cache.enabled
            &&& after.lenses.contains_key(other) == cache.lenses.contains_key(other)
            &&& cache.lenses.contains_key(other) ==> after.lenses[other] == cache.lenses[other]
            &&& after.pending_refresh.contains_key(other) == cache.pending_refresh.contains_key(
                other,
            )
            &&& cache.pending_refresh.contains_key(other) ==> after.pending_refresh[other]
                == cache.pending_refresh[other]
            &&& after.block_ids.contains_key(other) == cache.block_ids.contains_key(other)
            &&& cache.block_ids.contains_key(other) ==> after.block_ids[other]
                == cache.block_ids[other]
        }),
{
}

/// A refresh that finds lenses switched off shows nothing and changes nothing.
pub proof fn law_switched_off_refresh_shows_nothing<Task>(
    cache: CodeLensCacheView<Task>,
    refresh: CodeLensRefreshView,
    has_workspace: bool,
)
    requires
        !cache.enabled,
        refresh.state is Updating,
    ensures
        refresh_step(cache, refresh, EditorEventView::Entered, has_workspace) == (RefreshStep {
            cache,
            state: RefreshStateView::Finishing,
            actions: Seq::<EditorActionView>::empty(),
        }),
{
}

/// A refresh ends with its buffer's task forgotten, and its end takes neither
/// lenses nor blocks away.
pub proof fn law_refresh_ends_without_its_task<Task>(
    cache: CodeLensCacheView<Task>,
    refresh: CodeLensRefreshView,
    has_workspace: bool,
)
    requires
        refresh.state is Finishing,
    ensures
        ({
            let step = refresh_step(cache, refresh, EditorEventView::Entered, has_workspace);
            &&& step.state == RefreshStateView::Done
            &&& !step.cache.pending_refresh.contains_key(refresh.buffer_id@)
            &&& step.cache.lenses == cache.lenses
            &&& step.cache.block_ids == cache.block_ids
        }),
{
}

/// In the editor, too, a refresh never goes back, and one that has ended does and
/// changes nothing more.
pub proof fn law_refresh_step_moves_forward<Task>(
    cache: CodeLensCacheView<Task>,
    refresh: CodeLensRefreshView,
    event: EditorEventView,
    has_workspace: bool,
)
    ensures
        ({
            let step = refresh_step(cache, refresh, event, has_workspace);
            &&& step.state == refresh.state || step.state.steps_left()
                < refresh.state.steps_left()
            &&& step.state == refresh.state ==> step.cache == cache && step.actions.len() == 0
            &&& refresh.state == RefreshStateView::Done ==> step.state == refresh.state
        }),
{
}

/// While lenses are shown, a refresh that found lenses replaces those of its
/// buffer, takes the buffer's old blocks away, asks for one block for each line of
/// lenses, and remembers the blocks that the editor made of them.
pub proof fn law_refresh_replaces_lenses_and_blocks<Task>(
    cache: CodeLensCacheView<Task>,
    refresh: CodeLensRefreshView,
    ids: Seq<CustomBlockId>,
    has_workspace: bool,
)
    requires
        cache.enabled,
        refresh.state is Updating,
    ensures
        ({
            let lenses = refresh.state->Updating_lenses;
            let buffer_id = refresh.buffer_id;
            let update = refresh_step(cache, refresh, EditorEventView::Entered, has_workspace);
            let insertion = refresh_step(
                update.cache,
                CodeLensRefreshView { buffer_id, state: update.state },
                EditorEventView::BlocksInserted(ids),
                has_workspace,
            );
            &&& update.actions.last() == EditorActionView::InsertBlocks(blocks_for(lenses))
            &&& blocks_for(lenses).len() == lenses.len()
            &&& cache.blocks_of(buffer_id) matches Some(old_ids) ==> update.actions.first()
                == EditorActionView::RemoveBlocks(old_ids)
            &&& insertion.state == RefreshStateView::Finishing
            &&& insertion.cache.lenses.contains_key(buffer_id@)
            &&& insertion.cache.lenses[buffer_id@] == lenses
            &&& insertion.cache.blocks_of(buffer_id) == Some(ids)
        }),
{
}

/// What is remembered while lenses are off: nothing.
pub open spec fn remembers_only_when_enabled<Task>(cache: CodeLensCacheView<Task>) -> bool {
    !cache.enabled ==> cache.is_empty()
}

/// An editor whose lenses are off remembers nothing: so it starts, and switching
/// lenses, starting a refresh and every step of a refresh keep it so. A refresh is
/// started only while lenses are on, and blocks are inserted in the same visit to
/// the editor that asked for them, so lenses are still on then.
pub proof fn law_switched_off_remembers_nothing<Task>(
    cache: CodeLensCacheView<Task>,
    enabled: bool,
    buffer_id: BufferId,
    task: Task,
    refresh: CodeLensRefreshView,
    event: EditorEventView,
    has_workspace: bool,
)
    requires
        remembers_only_when_enabled(cache),
        event is BlocksInserted ==> cache.enabled,
    ensures
        remembers_only_when_enabled(CodeLensCacheView::<Task>::empty(enabled)),
        remembers_only_when_enabled(cache.toggled(enabled)),
        cache.enabled ==> remembers_only_when_enabled(cache.with_refresh_task(buffer_id, task)),
        remembers_only_when_enabled(refresh_step(cache, refresh, event, has_workspace).cache),
{
    if !cache.enabled {
        assert(cache.pending_refresh.remove(refresh.buffer_id@) =~= Map::<u64, Task>::empty());
    }
}

/// Switching lenses twice brings the switch back; if they were off, nothing is
/// remembered of the time between, whatever was shown in it.
pub proof fn law_toggling_twice<Task>(
    cache: CodeLensCacheView<Task>,
    meanwhile: CodeLensCacheView<Task>,
)
    requires
        meanwhile.enabled == !cache.enabled,
    ensures
        cache.toggled(!cache.enabled).enabled == meanwhile.enabled,
        meanwhile.toggled(!meanwhile.enabled).enabled == cache.enabled,
        !cache.enabled ==> meanwhile.toggled(!meanwhile.enabled).is_empty(),
{
}

/// Some buffer has this block.
pub open spec fn has_block(block_ids: Map<u64, Seq<CustomBlockId>>, id: CustomBlockId) -> bool {
    exists|buffer: u64| #[trigger]
        block_ids.contains_key(buffer) && block_ids[buffer].contains(id)
}

/// The blocks on the screen after the actions, but for those that they ask to
/// insert.
pub open spec fn screen_after(
    screen: Set<CustomBlockId>,
    actions: Seq<EditorActionView>,
) -> Set<CustomBlockId>
    decreases actions.len(),
{
    if actions.len() == 0 {
        screen
    } else {
        let before = screen_after(screen, actions.drop_last());
        match actions.last() {
            EditorActionView::RemoveBlocks(ids) => before.filter(
                |id: CustomBlockId| !ids.contains(id),
            ),
            _ => before,
        }
    }
}

/// Actions that remove no blocks leave the screen alone.
proof fn lemma_screen_after_other_actions(
    screen: Set<CustomBlockId>,
    actions: Seq<EditorActionView>,
    more: Seq<EditorActionView>,
)
    requires
        forall|i: int| 0 <= i < more.len() ==> !((#[trigger] more[i]) is RemoveBlocks),
    ensures
        screen_after(screen, actions + more) == screen_after(screen, actions),
    decreases more.len(),
{
    if more.len() == 0 {
        assert(actions + more == actions);
    } else {
        assert((actions + more).drop_last() == actions + more.drop_last());
        assert((actions + more).last() == more[more.len() - 1]);
        lemma_screen_after_other_actions(screen, actions, more.drop_last());
    }
}

/// Removing blocks takes exactly them off the screen.
proof fn lemma_screen_after_removal(screen: Set<CustomBlockId>, ids: Seq<CustomBlockId>)
    ensures
        screen_after(screen, seq![EditorActionView::RemoveBlocks(ids)]) == screen.filter(
            |id: CustomBlockId| !ids.contains(id),
        ),
{
    let actions = seq![EditorActionView::RemoveBlocks(ids)];
    assert(actions.drop_last() == Seq::<EditorActionView>::empty());
    assert(screen_after(screen, actions.drop_last()) == screen);
}

/// Switching lenses off takes all their blocks off the screen: where the screen
/// shows the blocks that are remembered, none is left.
pub proof fn law_switching_off_clears_the_screen<Task>(
    cache: CodeLensCacheView<Task>,
    context: EditorContext,
    ids: Seq<CustomBlockId>,
    screen: Set<CustomBlockId>,
)
    requires
        cache.enabled,
        is_listing(ids, cache.block_ids),
        forall|id: CustomBlockId| #[trigger]
            screen.contains(id) <==> has_block(cache.block_ids, id),
    ensures
        forall|id: CustomBlockId| #[trigger]
            screen_after(screen, switch_off_actions(context, ids)).contains(id) <==> has_block(
                cache.toggled(false).block_ids,
                id,
            ),
        screen_after(screen, switch_off_actions(context, ids)) == Set::<CustomBlockId>::empty(),
{
    let removal = action_if(ids.len() > 0, EditorActionView::RemoveBlocks(ids));
    let others = action_if(context.has_workspace, EditorActionView::DismissToast)
        + seq![EditorActionView::Notify];
    assert(switch_off_actions(context, ids) == removal + others);
    lemma_screen_after_other_actions(screen, removal, others);
    lemma_screen_after_removal(screen, ids);
    let after = screen_after(screen, removal);
    assert forall|id: CustomBlockId| !after.contains(id) by {
        law_listing_holds_every_block(cache.block_ids, ids, id);
    }
    assert(after =~= Set::<CustomBlockId>::empty());
}

/// A refresh leaves no stale blocks: where the screen shows the blocks that are
/// remembered, it does so again once the refresh has replaced its buffer's blocks.
/// No block belongs to two buffers.
pub proof fn law_refresh_leaves_no_stale_blocks<Task>(
    cache: CodeLensCacheView<Task>,
    refresh: CodeLensRefreshView,
    ids: Seq<CustomBlockId>,
    has_workspace: bool,
    screen: Set<CustomBlockId>,
)
    requires
        cache.enabled,
        refresh.state is Updating,
        forall|id: CustomBlockId| #[trigger]
            screen.contains(id) <==> has_block(cache.block_ids, id),
        forall|a: u64, b: u64, id: CustomBlockId|
            cache.block_ids.contains_key(a) && cache.block_ids.contains_key(b)
                && #[trigger] cache.block_ids[a].contains(id)
                && #[trigger] cache.block_ids[b].contains(id) ==> a == b,
    ensures
        ({
            let update = refresh_step(cache, refresh, EditorEventView::Entered, has_workspace);
            let insertion = refresh_step(
                update.cache,
                CodeLensRefreshView { buffer_id: refresh.buffer_id, state: update.state },
                EditorEventView::BlocksInserted(ids),
                has_workspace,
            );
            let shown = screen_after(screen, update.actions).union(ids.to_set());
            forall|id: CustomBlockId| #[trigger]
                screen_after(shown, insertion.actions).contains(id) <==> has_block(
                    insertion.cache.block_ids,
                    id,
                )
        }),
{
    let buffer = refresh.buffer_id@;
    let lenses = refresh.state->Updating_lenses;
    let update = refresh_step(cache, refresh, EditorEventView::Entered, has_workspace);
    let insertion = refresh_step(
        update.cache,
        CodeLensRefreshView { buffer_id: refresh.buffer_id, state: update.state },
        EditorEventView::BlocksInserted(ids),
        has_workspace,
    );
    let shown = screen_after(screen, update.actions).union(ids.to_set());
    let after = insertion.cache.block_ids;
    let others = seq![EditorActionView::InsertBlocks(blocks_for(lenses))];
    match cache.blocks_of(refresh.buffer_id) {
        Some(old_ids) => {
            lemma_screen_after_other_actions(
                screen,
                seq![EditorActionView::RemoveBlocks(old_ids)],
                others,
            );
            lemma_screen_after_removal(screen, old_ids);
        },
        None => {
            lemma_screen_after_other_actions(screen, Seq::empty(), others);
        },
    }
    assert(Seq::<EditorActionView>::empty() + insertion.actions == insertion.actions);
    lemma_screen_after_other_actions(shown, Seq::empty(), insertion.actions);
    assert(after == cache.block_ids.insert(buffer, ids));
    assert forall|id: CustomBlockId| #[trigger] screen_after(shown, insertion.actions).contains(id)
        <==> has_block(after, id) by {
        if shown.contains(id) {
            if ids.contains(id) {
                assert(after.contains_key(buffer) && after[buffer].contains(id));
            } else {
                assert(screen.contains(id));
                let b = choose|b: u64| #[trigger]
                    cache.block_ids.contains_key(b) && cache.block_ids[b].contains(id);
                assert(b != buffer);
                assert(after.contains_key(b) && after[b].contains(id));
            }
        }
        if has_block(after, id) {
            let b = choose|b: u64| #[trigger] after.contains_key(b) && after[b].contains(id);
            if b != buffer {
                assert(cache.block_ids.contains_key(b) && cache.block_ids[b].contains(id));
                assert(screen.contains(id));
                if cache.block_ids.contains_key(buffer) {
                    assert(!cache.block_ids[buffer].contains(id));
                }
            } else {
                assert(ids.to_set().contains(id));
            }
        }
    }
}

} // verus!
