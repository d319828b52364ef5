//! Which lenses are shown, and on which lines.

use vstd::prelude::*;

use crate::laws::titles::{counts_nothing, lemma_hidden_title};
use crate::lens::{
    group_lenses_by_row, has_row, individual_lenses, is_grouping, lens_views, lenses_of, on_row,
    row_of, CodeAction, CodeLensData, CodeLensDataView, CodeLensItem, LspAction,
};
use crate::position::{Anchor, Bias, MultiBufferSnapshot, MultiBufferSnapshotView, Point};

verus! {

/// The action is a lens with a title that does not count nothing, and an excerpt
/// shows the place where it starts.
pub open spec fn is_wanted(action: CodeAction, shown_points: Map<u64, Point>) -> bool {
    &&& shown_points.contains_key(action.start.id)
    &&& action.lsp_action matches LspAction::CodeLens { command: Some(command) }
    &&& !counts_nothing(command.title@)
}

/// The title of an action that is a lens with a command.
pub open spec fn title_of(action: CodeAction) -> String {
    action.lsp_action->CodeLens_command->Some_0.title
}

/// The row of the point at which an anchor is shown.
pub open spec fn shown_row(anchor: Anchor) -> u32 {
    match anchor {
        Anchor::InExcerpt { text_anchor, point } => point.row,
        Anchor::At { point, bias } => point.row,
    }
}

/// An action makes the lens with its title, its place and itself.
proof fn lemma_lens_of_action(action: CodeAction, snapshot: MultiBufferSnapshotView)
    ensures
        action.lens(snapshot) is Some <==> is_wanted(action, snapshot.shown_points),
        action.lens(snapshot) matches Some(lens) ==> {
            &&& lens.0 is InExcerpt
            &&& lens.0->InExcerpt_text_anchor == action.start
            &&& lens.0->InExcerpt_point == snapshot.shown_points[action.start.id]
            &&& lens.1.text == title_of(action)
            &&& lens.1.action == Some(action)
        },
{
    if let LspAction::CodeLens { command: Some(command) } = action.lsp_action {
        lemma_hidden_title(command.title@);
    }
}

/// An action becomes a lens exactly where it is wanted: one with the action's
/// title, at the place where the action starts, and with the action itself.
pub proof fn law_wanted_action_becomes_its_lens(
    action: CodeAction,
    snapshot: MultiBufferSnapshot,
    res: Option<(Anchor, CodeLensItem)>,
)
    requires
        call_ensures(CodeAction::into_lens, (action, &snapshot), res),
    ensures
        res is Some <==> is_wanted(action, snapshot.shown_points@),
        res is Some ==> res->Some_0.0 is InExcerpt,
        res is Some ==> res->Some_0.0->InExcerpt_text_anchor == action.start,
        res is Some ==> res->Some_0.0->InExcerpt_point == snapshot.shown_points@[action.start.id],
        res is Some ==> res->Some_0.1.text == title_of(action),
        res is Some ==> res->Some_0.1.action == Some(action),
{
    lemma_lens_of_action(action, snapshot@);
}

/// Where the lenses of actions come from.
proof fn lemma_lenses_of_positions(
    actions: Seq<CodeAction>,
    snapshot: MultiBufferSnapshotView,
) -> (chosen: Seq<int>)
    ensures
        chosen.len() == lenses_of(actions, snapshot).len(),
        forall|j: int|
            #![trigger chosen[j]]
            0 <= j < chosen.len() ==> {
                &&& 0 <= chosen[j] < actions.len()
                &&& actions[chosen[j]].lens(snapshot) == Some(lenses_of(actions, snapshot)[j])
            },
        forall|i: int, j: int| 0 <= i < j < chosen.len() ==> chosen[i] < chosen[j],
        forall|k: int|
            #![trigger actions[k]]
            0 <= k < actions.len() && actions[k].lens(snapshot) is Some ==> chosen.contains(k),
    decreases actions.len(),
{
    if actions.len() == 0 {
        Seq::empty()
    } else {
        let rest = actions.drop_last();
        let before = lemma_lenses_of_positions(rest, snapshot);
        let last = actions.len() - 1;
        let chosen = if actions.last().lens(snapshot) is Some {
            before.push(last)
        } else {
            before
        };
        assert forall|j: int| #![trigger chosen[j]] 0 <= j < chosen.len() implies {
            &&& 0 <= chosen[j] < actions.len()
            &&& actions[chosen[j]].lens(snapshot) == Some(lenses_of(actions, snapshot)[j])
        } by {
            if j < before.len() {
                assert(chosen[j] == before[j]);
                assert(actions[before[j]] == rest[before[j]]);
            }
        }
        assert forall|k: int|
            #![trigger actions[k]]
            0 <= k < actions.len() && actions[k].lens(snapshot) is Some implies chosen.contains(
            k,
        ) by {
            if k < last {
                assert(actions[k] == rest[k]);
                let j = before.index_of(k);
                assert(chosen[j] == k);
            } else {
                assert(chosen[before.len() as int] == k);
            }
        }
        chosen
    }
}

/// The lenses of actions are those of the wanted ones.
pub(crate) proof fn lemma_lenses_of_wanted(
    actions: Seq<CodeAction>,
    snapshot: MultiBufferSnapshotView,
) -> (chosen: Seq<int>)
    ensures
        chosen.len() == lenses_of(actions, snapshot).len(),
        forall|i: int, j: int| 0 <= i < j < chosen.len() ==> chosen[i] < chosen[j],
        forall|k: int|
            0 <= k < actions.len() ==> (#[trigger] chosen.contains(k) <==> is_wanted(
                actions[k],
                snapshot.shown_points,
            )),
        forall|j: int|
            #![trigger chosen[j]]
            0 <= j < chosen.len() ==> {
                let action = actions[chosen[j]];
                let lens = lenses_of(actions, snapshot)[j];
                &&& 0 <= chosen[j] < actions.len()
                &&& lens.0 is InExcerpt
                &&& lens.0->InExcerpt_text_anchor == action.start
                &&& lens.0->InExcerpt_point == snapshot.shown_points[action.start.id]
                &&& lens.1.text == title_of(action)
                &&& lens.1.action == Some(action)
            },
{
    let chosen = lemma_lenses_of_positions(actions, snapshot);
    assert forall|k: int| 0 <= k < actions.len() implies (#[trigger] chosen.contains(k)
        <==> is_wanted(actions[k], snapshot.shown_points)) by {
        lemma_lens_of_action(actions[k], snapshot);
        if chosen.contains(k) {
            let j = chosen.index_of(k);
            assert(actions[chosen[j]].lens(snapshot) is Some);
        }
    }
    assert forall|j: int| #![trigger chosen[j]] 0 <= j < chosen.len() implies {
        let action = actions[chosen[j]];
        let lens = lenses_of(actions, snapshot)[j];
        &&& 0 <= chosen[j] < actions.len()
        &&& lens.0 is InExcerpt
        &&& lens.0->InExcerpt_text_anchor == action.start
        &&& lens.0->InExcerpt_point == snapshot.shown_points[action.start.id]
        &&& lens.1.text == title_of(action)
        &&& lens.1.action == Some(action)
    } by {
        lemma_lens_of_action(actions[chosen[j]], snapshot);
    }
    chosen
}

/// The lenses to show are those of the wanted actions, all of them, none twice, in
/// the order of the actions: `chosen` are the places of those actions.
pub proof fn law_lenses_are_those_of_the_wanted_actions(
    actions: Vec<CodeAction>,
    snapshot: MultiBufferSnapshot,
    res: Vec<(Anchor, CodeLensItem)>,
) -> (chosen: Seq<int>)
    requires
        call_ensures(individual_lenses, (actions, &snapshot), res),
    ensures
        chosen.len() == res@.len(),
        forall|i: int, j: int| 0 <= i < j < chosen.len() ==> chosen[i] < chosen[j],
        forall|k: int|
            0 <= k < actions@.len() ==> (#[trigger] chosen.contains(k) <==> is_wanted(
                actions@[k],
                snapshot.shown_points@,
            )),
        forall|j: int|
            #![trigger chosen[j]]
            0 <= j < chosen.len() ==> {
                let action = actions@[chosen[j]];
                &&& 0 <= chosen[j] < actions@.len()
                &&& res@[j].0 is InExcerpt
                &&& res@[j].0->InExcerpt_text_anchor == action.start
                &&& res@[j].0->InExcerpt_point == snapshot.shown_points@[action.start.id]
                &&& res@[j].1.text == title_of(action)
                &&& res@[j].1.action == Some(action)
            },
{
    lemma_lenses_of_wanted(actions@, snapshot@)
}

/// The lenses of two answers, one after the other, are the lenses of the first
/// followed by those of the second: what one action makes depends on no other.
pub proof fn law_actions_make_lenses_one_by_one(
    first: Seq<CodeAction>,
    second: Seq<CodeAction>,
    snapshot: MultiBufferSnapshotView,
)
    ensures
        lenses_of(first + second, snapshot) == lenses_of(first, snapshot) + lenses_of(
            second,
            snapshot,
        ),
    decreases second.len(),
{
    if second.len() == 0 {
        assert(first + second =~= first);
        assert(lenses_of(first, snapshot) + lenses_of(second, snapshot) =~= lenses_of(
            first,
            snapshot,
        ));
    } else {
        assert((first + second).drop_last() =~= first + second.drop_last());
        assert((first + second).last() == second.last());
        law_actions_make_lenses_one_by_one(first, second.drop_last(), snapshot);
        assert(lenses_of(first + second, snapshot) =~= lenses_of(first, snapshot) + lenses_of(
            second,
            snapshot,
        ));
    }
}

/// Where the lenses of a row come from.
proof fn lemma_on_row_positions(
    lenses: Seq<(Anchor, CodeLensItem)>,
    row: u32,
) -> (chosen: Seq<int>)
    ensures
        chosen.len() == on_row(lenses, row).len(),
        forall|j: int|
            #![trigger chosen[j]]
            0 <= j < chosen.len() ==> {
                &&& 0 <= chosen[j] < lenses.len()
                &&& lenses[chosen[j]] == on_row(lenses, row)[j]
                &&& shown_row(lenses[chosen[j]].0) == row
            },
        forall|i: int, j: int| 0 <= i < j < chosen.len() ==> chosen[i] < chosen[j],
        forall|k: int|
            #![trigger lenses[k]]
            0 <= k < lenses.len() && shown_row(lenses[k].0) == row ==> chosen.contains(k),
    decreases lenses.len(),
{
    reveal(Seq::filter);
    if lenses.len() == 0 {
        Seq::empty()
    } else {
        let rest = lenses.drop_last();
        let before = lemma_on_row_positions(rest, row);
        let last = lenses.len() - 1;
        assert(row_of(lenses.last()) == shown_row(lenses.last().0));
        let chosen = if shown_row(lenses.last().0) == row {
            before.push(last)
        } else {
            before
        };
        assert forall|j: int| #![trigger chosen[j]] 0 <= j < chosen.len() implies {
            &&& 0 <= chosen[j] < lenses.len()
            &&& lenses[chosen[j]] == on_row(lenses, row)[j]
            &&& shown_row(lenses[chosen[j]].0) == row
        } by {
            if j < before.len() {
                assert(chosen[j] == before[j]);
                assert(lenses[before[j]] == rest[before[j]]);
            }
        }
        assert forall|k: int|
            #![trigger lenses[k]]
            0 <= k < lenses.len() && shown_row(lenses[k].0) == row implies chosen.contains(k) by {
            if k < last {
                assert(lenses[k] == rest[k]);
                let j = before.index_of(k);
                assert(chosen[j] == k);
            } else {
                assert(chosen[before.len() as int] == k);
            }
        }
        chosen
    }
}

/// A line of a grouping: where it is drawn, and where its lenses come from.
pub(crate) proof fn lemma_line_of_grouping(
    lenses: Seq<(Anchor, CodeLensItem)>,
    snapshot: MultiBufferSnapshotView,
    lines: Seq<CodeLensDataView>,
    i: int,
) -> (chosen: Seq<int>)
    requires
        is_grouping(lenses, snapshot, lines),
        0 <= i < lines.len(),
    ensures
        lines[i].position is At,
        lines[i].position->At_bias == Bias::Left,
        lines[i].position->At_point.column == if snapshot.line_indents.contains_key(
            lines[i].position->At_point.row,
        ) {
            snapshot.line_indents[lines[i].position->At_point.row]
        } else {
            0
        },
        forall|j: int|
            #![trigger lines[j]]
            i < j < lines.len() ==> lines[i].position->At_point.row
                < lines[j].position->At_point.row,
        chosen.len() > 0,
        lines[i].items.len() == chosen.len(),
        lines[i].symbol_position == lenses[chosen[0]].0,
        forall|j: int|
            #![trigger chosen[j]]
            0 <= j < chosen.len() ==> {
                &&& 0 <= chosen[j] < lenses.len()
                &&& lines[i].items[j] == lenses[chosen[j]].1
                &&& shown_row(lenses[chosen[j]].0) == lines[i].position->At_point.row
            },
        forall|a: int, b: int| 0 <= a < b < chosen.len() ==> chosen[a] < chosen[b],
        forall|k: int|
            #![trigger lenses[k]]
            0 <= k < lenses.len() && shown_row(lenses[k].0) == lines[i].position->At_point.row
                ==> chosen.contains(k),
{
    let row = lines[i].row();
    let chosen = lemma_on_row_positions(lenses, row);
    assert forall|j: int| #![trigger lines[j]] i < j < lines.len() implies (
    lines[i].position->At_point.row < lines[j].position->At_point.row) by {
        assert(lines[i].row() < lines[j].row());
    }
    assert forall|j: int| #![trigger chosen[j]] 0 <= j < chosen.len() implies {
        &&& 0 <= chosen[j] < lenses.len()
        &&& lines[i].items[j] == lenses[chosen[j]].1
        &&& shown_row(lenses[chosen[j]].0) == lines[i].position->At_point.row
    } by {
        assert(lenses[chosen[j]] == on_row(lenses, row)[j]);
    }
    assert(lenses[chosen[0]] == on_row(lenses, row)[0]);
    chosen
}

/// The line of a grouping that holds a lens, and the lens's place in it.
pub(crate) proof fn lemma_lens_has_its_line(
    lenses: Seq<(Anchor, CodeLensItem)>,
    snapshot: MultiBufferSnapshotView,
    lines: Seq<CodeLensDataView>,
    k: int,
) -> (place: (int, int))
    requires
        is_grouping(lenses, snapshot, lines),
        0 <= k < lenses.len(),
    ensures
        0 <= place.0 < lines.len(),
        0 <= place.1 < lines[place.0].items.len(),
        lines[place.0].items[place.1] == lenses[k].1,
        lines[place.0].position is At,
        lines[place.0].position->At_point.row == shown_row(lenses[k].0),
{
    assert(has_row(lines, row_of(lenses[k])));
    assert(row_of(lenses[k]) == shown_row(lenses[k].0));
    let i = choose|i: int|
        0 <= i < lines.len() && (#[trigger] lines[i]).row() == row_of(lenses[k]);
    let chosen = lemma_line_of_grouping(lenses, snapshot, lines, i);
    assert(lines[i].row() == lines[i].position->At_point.row);
    assert(shown_row(lenses[k].0) == lines[i].position->At_point.row);
    assert(chosen.contains(k));
    let j = chosen.index_of(k);
    assert(lines[i].items[j] == lenses[chosen[j]].1);
    (i, j)
}

/// Each line is drawn on its row, at the row's indent, and sticks to the left; the
/// rows ascend from line to line.
pub proof fn law_lines_ascend_at_their_indents(
    lenses: Vec<(Anchor, CodeLensItem)>,
    snapshot: MultiBufferSnapshot,
    res: Vec<CodeLensData>,
    i: int,
    j: int,
)
    requires
        call_ensures(group_lenses_by_row, (lenses, &snapshot), res),
        0 <= i <= j < res@.len(),
    ensures
        res@[i].position is At,
        res@[i].position->At_bias == Bias::Left,
        snapshot.line_indents@.contains_key(res@[i].position->At_point.row)
            ==> res@[i].position->At_point.column
            == snapshot.line_indents@[res@[i].position->At_point.row],
        !snapshot.line_indents@.contains_key(res@[i].position->At_point.row)
            ==> res@[i].position->At_point.column == 0,
        i < j ==> res@[i].position->At_point.row < res@[j].position->At_point.row,
{
    let lines = lens_views(res@);
    let chosen = lemma_line_of_grouping(lenses@, snapshot@, lines, i);
    assert(lines[i].position == res@[i].position);
    assert(lines[j].position == res@[j].position);
}

/// A line holds the lenses whose anchors are shown on its row, all of them and no
/// others, in their order, and belongs to the place of the first: `chosen` are the
/// places of those lenses.
pub proof fn law_line_holds_the_lenses_of_its_row(
    lenses: Vec<(Anchor, CodeLensItem)>,
    snapshot: MultiBufferSnapshot,
    res: Vec<CodeLensData>,
    i: int,
) -> (chosen: Seq<int>)
    requires
        call_ensures(group_lenses_by_row, (lenses, &snapshot), res),
        0 <= i < res@.len(),
    ensures
        chosen.len() > 0,
        res@[i].items@.len() == chosen.len(),
        res@[i].symbol_position == lenses@[chosen[0]].0,
        forall|j: int|
            #![trigger chosen[j]]
            0 <= j < chosen.len() ==> 0 <= chosen[j] < lenses@.len() && res@[i].items@[j]
                == lenses@[chosen[j]].1,
        forall|a: int, b: int| 0 <= a < b < chosen.len() ==> chosen[a] < chosen[b],
        forall|k: int|
            0 <= k < lenses@.len() ==> (#[trigger] chosen.contains(k) <==> shown_row(lenses@[k].0)
                == res@[i].position->At_point.row),
{
    let lines = lens_views(res@);
    let chosen = lemma_line_of_grouping(lenses@, snapshot@, lines, i);
    assert(lines[i].position == res@[i].position);
    assert(lines[i].items == res@[i].items@);
    assert(lines[i].symbol_position == res@[i].symbol_position);
    assert forall|k: int| 0 <= k < lenses@.len() implies (#[trigger] chosen.contains(k)
        <==> shown_row(lenses@[k].0) == res@[i].position->At_point.row) by {
        if chosen.contains(k) {
            let j = chosen.index_of(k);
            assert(shown_row(lenses@[chosen[j]].0) == lines[i].position->At_point.row);
        }
    }
    chosen
}

/// Every lens stands on a line, the one on the row where its own anchor is shown:
/// `place` is the number of that line, and the place of the lens in it.
pub proof fn law_lens_stands_on_its_own_row(
    lenses: Vec<(Anchor, CodeLensItem)>,
    snapshot: MultiBufferSnapshot,
    res: Vec<CodeLensData>,
    k: int,
) -> (place: (int, int))
    requires
        call_ensures(group_lenses_by_row, (lenses, &snapshot), res),
        0 <= k < lenses@.len(),
    ensures
        0 <= place.0 < res@.len(),
        0 <= place.1 < res@[place.0].items@.len(),
        res@[place.0].items@[place.1] == lenses@[k].1,
        res@[place.0].position.point().row == lenses@[k].0.point().row,
        res@[place.0].position is At,
        res@[place.0].position->At_point.row == shown_row(lenses@[k].0),
{
    let lines = lens_views(res@);
    let place = lemma_lens_has_its_line(lenses@, snapshot@, lines, k);
    assert(lines[place.0].position == res@[place.0].position);
    assert(lines[place.0].items == res@[place.0].items@);
    place
}

/// Two lenses share a line exactly where their anchors are shown on the same row.
pub proof fn law_lenses_share_a_line_with_their_row(
    lenses: Vec<(Anchor, CodeLensItem)>,
    snapshot: MultiBufferSnapshot,
    res: Vec<CodeLensData>,
    k: int,
    l: int,
) -> (places: (int, int))
    requires
        call_ensures(group_lenses_by_row, (lenses, &snapshot), res),
        0 <= k < lenses@.len(),
        0 <= l < lenses@.len(),
    ensures
        0 <= places.0 < res@.len(),
        0 <= places.1 < res@.len(),
        res@[places.0].items@.contains(lenses@[k].1),
        res@[places.1].items@.contains(lenses@[l].1),
        res@[places.0].position.point().row == lenses@[k].0.point().row,
        res@[places.1].position.point().row == lenses@[l].0.point().row,
        places.0 == places.1 <==> shown_row(lenses@[k].0) == shown_row(lenses@[l].0),
{
    let a = law_lens_stands_on_its_own_row(lenses, snapshot, res, k);
    let b = law_lens_stands_on_its_own_row(lenses, snapshot, res, l);
    if a.0 < b.0 {
        law_lines_ascend_at_their_indents(lenses, snapshot, res, a.0, b.0);
    } else if b.0 < a.0 {
        law_lines_ascend_at_their_indents(lenses, snapshot, res, b.0, a.0);
    }
    (a.0, b.0)
}

/// A copy of a line of lenses has its place, its symbol's place and its lenses.
pub proof fn law_copy_of_a_line(lens: CodeLensData, res: CodeLensData)
    requires
        call_ensures(CodeLensData::clone, (&lens,), res),
    ensures
        res.position == lens.position,
        res.symbol_position == lens.symbol_position,
        res.items@ == lens.items@,
{
    assert(res@.items == lens@.items);
}

} // verus!
