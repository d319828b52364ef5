//! The steps by which the lenses of a buffer are refreshed.

use vstd::prelude::*;

use crate::ids::BufferId;
use crate::lens::{
    group_lenses_by_row, individual_lenses, is_grouping, law_grouping_is_unique, lens_views,
    lenses_of, CodeAction, CodeLensData, CodeLensDataView,
};
use crate::position::MultiBufferSnapshot;

verus! {

/// What a refresh waits for.
#[derive(Debug)]
pub enum RefreshState {
    /// The given time has to pass.
    Debouncing { debounce_ms: u64 },
    /// The language server has to return the actions of the whole buffer.
    Fetching,
    /// The text has to be looked at, to place the lenses of these actions.
    Snapshotting { actions: Vec<CodeAction> },
    /// The editor has to be entered, to show these lenses.
    Updating { lenses: Vec<CodeLensData> },
    /// The editor has to insert the blocks that it was given.
    Inserting,
    /// The editor has to be entered, to end the refresh.
    Finishing,
    /// Nothing.
    Done,
}

/// A state of a refresh, as a mathematical value.
pub enum RefreshStateView {
    Debouncing { debounce_ms: u64 },
    Fetching,
    Snapshotting { actions: Seq<CodeAction> },
    Updating { lenses: Seq<CodeLensDataView> },
    Inserting,
    Finishing,
    Done,
}

impl View for RefreshState {
    type V = RefreshStateView;

    open spec fn view(&self) -> RefreshStateView {
        match *self {
            RefreshState::Debouncing { debounce_ms } => RefreshStateView::Debouncing {
                debounce_ms,
            },
            RefreshState::Fetching => RefreshStateView::Fetching,
            RefreshState::Snapshotting { actions } => RefreshStateView::Snapshotting {
                actions: actions@,
            },
            RefreshState::Updating { lenses } => RefreshStateView::Updating {
                lenses: lens_views(lenses@),
            },
            RefreshState::Inserting => RefreshStateView::Inserting,
            RefreshState::Finishing => RefreshStateView::Finishing,
            RefreshState::Done => RefreshStateView::Done,
        }
    }
}

impl RefreshStateView {
    /// How many steps a refresh in this state still takes at most.
    pub open spec fn steps_left(self) -> nat {
        match self {
            RefreshStateView::Debouncing { debounce_ms } => 6,
            RefreshStateView::Fetching => 5,
            RefreshStateView::Snapshotting { actions } => 4,
            RefreshStateView::Updating { lenses } => 3,
            RefreshStateView::Inserting => 2,
            RefreshStateView::Finishing => 1,
            RefreshStateView::Done => 0,
        }
    }
}

/// A refresh of the lenses of one buffer.
#[derive(Debug)]
pub struct CodeLensRefresh {
    pub buffer_id: BufferId,
    pub state: RefreshState,
}

/// A refresh, as a mathematical value.
pub struct CodeLensRefreshView {
    pub buffer_id: BufferId,
    pub state: RefreshStateView,
}

impl View for CodeLensRefresh {
    type V = CodeLensRefreshView;

    open spec fn view(&self) -> CodeLensRefreshView {
        CodeLensRefreshView { buffer_id: self.buffer_id, state: self.state@ }
    }
}

/// The language server could not be asked.
#[derive(Debug)]
pub struct FetchError;

/// What a refresh is told while it is outside the editor.
#[derive(Debug)]
pub enum RefreshEvent {
    /// The time has passed.
    TimerElapsed,
    /// The language server returned its actions; `None` where no server has any.
    ActionsFetched(Result<Option<Vec<CodeAction>>, FetchError>),
    /// The text looks like this.
    SnapshotTaken(MultiBufferSnapshot),
    /// The editor is gone.
    EditorReleased,
}

/// `next` is the state that follows on an event. An event that the state does not
/// wait for changes nothing.
pub open spec fn is_next_state(
    state: RefreshStateView,
    event: RefreshEvent,
    next: RefreshStateView,
) -> bool {
    match (state, event) {
        (RefreshStateView::Debouncing { debounce_ms }, RefreshEvent::TimerElapsed) => next
            == RefreshStateView::Fetching,
        (RefreshStateView::Fetching, RefreshEvent::ActionsFetched(Ok(Some(actions)))) => next
            == (RefreshStateView::Snapshotting { actions: actions@ }),
        (RefreshStateView::Fetching, RefreshEvent::ActionsFetched(_)) => next
            == RefreshStateView::Finishing,
        (
            RefreshStateView::Snapshotting { actions },
            RefreshEvent::SnapshotTaken(snapshot),
        ) => next matches RefreshStateView::Updating { lenses } && is_grouping(
            lenses_of(actions, snapshot@),
            snapshot@,
            lenses,
        ),
        (RefreshStateView::Updating { lenses }, RefreshEvent::EditorReleased) => next
            == RefreshStateView::Done,
        (RefreshStateView::Finishing, RefreshEvent::EditorReleased) => next
            == RefreshStateView::Done,
        _ => next == state,
    }
}

impl CodeLensRefresh {
    /// The refresh after an event outside the editor.
    pub fn advance(self, event: RefreshEvent) -> (res: CodeLensRefresh)
        ensures
            res.buffer_id == self.buffer_id,
            is_next_state(self.state@, event, res.state@),
    {
        let CodeLensRefresh { buffer_id, state } = self;
        let state = match (state, event) {
            (
                RefreshState::Debouncing { debounce_ms },
                RefreshEvent::TimerElapsed,
            ) => RefreshState::Fetching,
            (
                RefreshState::Fetching,
                RefreshEvent::ActionsFetched(Ok(Some(actions))),
            ) => RefreshState::Snapshotting { actions },
            (RefreshState::Fetching, RefreshEvent::ActionsFetched(_)) => RefreshState::Finishing,
            (
                RefreshState::Snapshotting { actions },
                RefreshEvent::SnapshotTaken(snapshot),
            ) => RefreshState::Updating {
                lenses: group_lenses_by_row(individual_lenses(actions, &snapshot), &snapshot),
            },
            (RefreshState::Updating { lenses }, RefreshEvent::EditorReleased) => RefreshState::Done,
            (RefreshState::Finishing, RefreshEvent::EditorReleased) => RefreshState::Done,
            (state, _) => state,
        };
        CodeLensRefresh { buffer_id, state }
    }
}

/// State and event alone decide which state follows.
pub proof fn law_next_state_is_unique(
    state: RefreshStateView,
    event: RefreshEvent,
    a: RefreshStateView,
    b: RefreshStateView,
)
    requires
        is_next_state(state, event, a),
        is_next_state(state, event, b),
    ensures
        a == b,
{
    match (state, event) {
        (RefreshStateView::Snapshotting { actions }, RefreshEvent::SnapshotTaken(snapshot)) => {
            law_grouping_is_unique(
                lenses_of(actions, snapshot@),
                snapshot@,
                a->Updating_lenses,
                b->Updating_lenses,
            );
        },
        _ => {},
    }
}

/// A refresh never goes back: an event leaves it where it is or brings it nearer
/// to its end.
pub proof fn law_refresh_moves_forward(
    state: RefreshStateView,
    event: RefreshEvent,
    next: RefreshStateView,
)
    requires
        is_next_state(state, event, next),
    ensures
        next == state || next.steps_left() < state.steps_left(),
{
}

/// A refresh that has no actions to show, because the server failed or has none,
/// goes straight to its end.
pub proof fn law_no_actions_end_the_refresh(
    answer: Result<Option<Vec<CodeAction>>, FetchError>,
    next: RefreshStateView,
)
    requires
        !(answer matches Ok(Some(_))),
        is_next_state(RefreshStateView::Fetching, RefreshEvent::ActionsFetched(answer), next),
    ensures
        next == RefreshStateView::Finishing,
{
}

} // verus!
