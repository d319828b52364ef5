//! How a refresh goes on.

use vstd::prelude::*;

use crate::laws::placing::{
    is_wanted, lemma_lens_has_its_line, lemma_lenses_of_wanted, lemma_line_of_grouping, title_of,
};
use crate::lens::{lens_views, lenses_of, CodeAction, CodeLensData};
use crate::position::{Bias, MultiBufferSnapshot};
use crate::refresh::{CodeLensRefresh, FetchError, RefreshEvent, RefreshState};

verus! {

/// A refresh stays that of its buffer.
pub proof fn law_refresh_keeps_its_buffer(
    refresh: CodeLensRefresh,
    event: RefreshEvent,
    next: CodeLensRefresh,
)
    requires
        call_ensures(CodeLensRefresh::advance, (refresh, event), next),
    ensures
        next.buffer_id == refresh.buffer_id,
{
}

/// Once its time has passed, whatever that was, a refresh asks the server.
pub proof fn law_refresh_asks_after_its_time(refresh: CodeLensRefresh, next: CodeLensRefresh)
    requires
        refresh.state is Debouncing,
        call_ensures(CodeLensRefresh::advance, (refresh, RefreshEvent::TimerElapsed), next),
    ensures
        next.state is Fetching,
{
}

/// An answer with actions, however many, is taken up in full: the refresh goes on
/// to look at the text, with all of those actions in their order.
pub proof fn law_answer_is_taken_up_in_full(
    refresh: CodeLensRefresh,
    actions: Vec<CodeAction>,
    next: CodeLensRefresh,
)
    requires
        refresh.state is Fetching,
        call_ensures(
            CodeLensRefresh::advance,
            (refresh, RefreshEvent::ActionsFetched(Ok(Some(actions)))),
            next,
        ),
    ensures
        next.state is Snapshotting,
        next.state->Snapshotting_actions@ == actions@,
{
}

/// An answer without actions, and a failure, bring the refresh to its end.
pub proof fn law_empty_answer_ends_the_refresh(
    refresh: CodeLensRefresh,
    answer: Result<Option<Vec<CodeAction>>, FetchError>,
    next: CodeLensRefresh,
)
    requires
        refresh.state is Fetching,
        answer is Err || answer->Ok_0 is None,
        call_ensures(
            CodeLensRefresh::advance,
            (refresh, RefreshEvent::ActionsFetched(answer)),
            next,
        ),
    ensures
        next.state is Finishing,
{
}

/// Without its editor a refresh that has lenses to show, or nothing left but its
/// end, is done.
pub proof fn law_refresh_ends_with_its_editor(refresh: CodeLensRefresh, next: CodeLensRefresh)
    requires
        refresh.state is Updating || refresh.state is Finishing,
        call_ensures(CodeLensRefresh::advance, (refresh, RefreshEvent::EditorReleased), next),
    ensures
        next.state is Done,
{
}

/// The event is the one that a refresh in this state goes on by.
pub open spec fn is_awaited(state: RefreshState, event: RefreshEvent) -> bool {
    ||| state is Debouncing && event is TimerElapsed
    ||| state is Fetching && event is ActionsFetched
    ||| state is Snapshotting && event is SnapshotTaken
    ||| state is Updating && event is EditorReleased
    ||| state is Finishing && event is EditorReleased
}

/// Two states are the same: they wait for the same thing, with the same contents.
pub open spec fn is_same_state(a: RefreshState, b: RefreshState) -> bool {
    match a {
        RefreshState::Debouncing { debounce_ms } => b is Debouncing && b->Debouncing_debounce_ms
            == debounce_ms,
        RefreshState::Fetching => b is Fetching,
        RefreshState::Snapshotting { actions } => b is Snapshotting && b->Snapshotting_actions@
            == actions@,
        RefreshState::Updating { lenses } => b is Updating && are_same_lines(
            b->Updating_lenses@,
            lenses@,
        ),
        RefreshState::Inserting => b is Inserting,
        RefreshState::Finishing => b is Finishing,
        RefreshState::Done => b is Done,
    }
}

/// Lines of lenses are the same, field by field.
pub open spec fn are_same_lines(a: Seq<CodeLensData>, b: Seq<CodeLensData>) -> bool {
    &&& a.len() == b.len()
    &&& forall|i: int|
        #![trigger a[i]]
        #![trigger b[i]]
        0 <= i < a.len() ==> {
            &&& a[i].position == b[i].position
            &&& a[i].symbol_position == b[i].symbol_position
            &&& a[i].items@ == b[i].items@
        }
}

/// Lines with the same views are the same.
pub(crate) proof fn lemma_same_lines(a: Seq<CodeLensData>, b: Seq<CodeLensData>)
    requires
        lens_views(a) == lens_views(b),
    ensures
        are_same_lines(a, b),
{
    assert(lens_views(a).len() == a.len());
    assert(lens_views(b).len() == b.len());
    assert forall|i: int| #![trigger a[i]] #![trigger b[i]] 0 <= i < a.len() implies {
        &&& a[i].position == b[i].position
        &&& a[i].symbol_position == b[i].symbol_position
        &&& a[i].items@ == b[i].items@
    } by {
        assert(lens_views(a)[i] == a[i]@);
        assert(lens_views(b)[i] == b[i]@);
    }
}

/// Any other event leaves a refresh as it is.
pub proof fn law_other_events_change_nothing(
    refresh: CodeLensRefresh,
    event: RefreshEvent,
    next: CodeLensRefresh,
)
    requires
        !is_awaited(refresh.state, event),
        call_ensures(CodeLensRefresh::advance, (refresh, event), next),
    ensures
        is_same_state(next.state, refresh.state),
{
    if refresh.state is Updating {
        lemma_same_lines(next.state->Updating_lenses@, refresh.state->Updating_lenses@);
    }
}

/// Every wanted action has its lens shown, however many there are: on the line of
/// the row where the action starts, with the action's title and the action itself.
/// `place` is the number of that line, and the place of the lens in it.
pub proof fn law_wanted_action_is_placed(
    refresh: CodeLensRefresh,
    snapshot: MultiBufferSnapshot,
    next: CodeLensRefresh,
    k: int,
) -> (place: (int, int))
    requires
        refresh.state is Snapshotting,
        call_ensures(
            CodeLensRefresh::advance,
            (refresh, RefreshEvent::SnapshotTaken(snapshot)),
            next,
        ),
        0 <= k < refresh.state->Snapshotting_actions@.len(),
        is_wanted(refresh.state->Snapshotting_actions@[k], snapshot.shown_points@),
    ensures
        next.state is Updating,
        ({
            let action = refresh.state->Snapshotting_actions@[k];
            let lines = next.state->Updating_lenses@;
            let line = lines[place.0];
            let item = line.items@[place.1];
            &&& 0 <= place.0 < lines.len()
            &&& 0 <= place.1 < line.items@.len()
            &&& line.position is At
            &&& line.position->At_point.row == snapshot.shown_points@[action.start.id].row
            &&& item.text == title_of(action)
            &&& item.action == Some(action)
        }),
{
    let actions = refresh.state->Snapshotting_actions@;
    let lines = next.state->Updating_lenses@;
    let lenses = lenses_of(actions, snapshot@);
    let chosen = lemma_lenses_of_wanted(actions, snapshot@);
    assert(chosen.contains(k));
    let j = chosen.index_of(k);
    assert(lenses[j].1.action == Some(actions[chosen[j]]));
    let place = lemma_lens_has_its_line(lenses, snapshot@, lens_views(lines), j);
    assert(lens_views(lines)[place.0] == lines[place.0]@);
    place
}

/// Every lens that is to be shown is that of a wanted action, on the row where the
/// action starts, drawn at the row's indent: `k` is the place of that action.
pub proof fn law_placed_lens_is_wanted(
    refresh: CodeLensRefresh,
    snapshot: MultiBufferSnapshot,
    next: CodeLensRefresh,
    i: int,
    j: int,
) -> (k: int)
    requires
        refresh.state is Snapshotting,
        call_ensures(
            CodeLensRefresh::advance,
            (refresh, RefreshEvent::SnapshotTaken(snapshot)),
            next,
        ),
        0 <= i < next.state->Updating_lenses@.len(),
        0 <= j < next.state->Updating_lenses@[i].items@.len(),
    ensures
        next.state is Updating,
        ({
            let actions = refresh.state->Snapshotting_actions@;
            let line = next.state->Updating_lenses@[i];
            let item = line.items@[j];
            &&& 0 <= k < actions.len()
            &&& is_wanted(actions[k], snapshot.shown_points@)
            &&& item.text == title_of(actions[k])
            &&& item.action == Some(actions[k])
            &&& line.position is At
            &&& line.position->At_bias == Bias::Left
            &&& line.position->At_point.row == snapshot.shown_points@[actions[k].start.id].row
            &&& line.position->At_point.column == if snapshot.line_indents@.contains_key(
                line.position->At_point.row,
            ) {
                snapshot.line_indents@[line.position->At_point.row]
            } else {
                0
            }
            &&& j == 0 ==> line.symbol_position is InExcerpt
            &&& j == 0 ==> line.symbol_position->InExcerpt_text_anchor == actions[k].start
        }),
{
    let actions = refresh.state->Snapshotting_actions@;
    let lines = next.state->Updating_lenses@;
    let lenses = lenses_of(actions, snapshot@);
    let chosen = lemma_lenses_of_wanted(actions, snapshot@);
    assert(lens_views(lines)[i] == lines[i]@);
    let on_line = lemma_line_of_grouping(lenses, snapshot@, lens_views(lines), i);
    let l = on_line[j];
    assert(lines[i].items@[j] == lenses[l].1);
    let k = chosen[l];
    assert(lenses[l].1.action == Some(actions[k]));
    assert(chosen.contains(k));
    assert(is_wanted(actions[k], snapshot.shown_points@));
    k
}

} // verus!
