//! Code lenses: their titles, their kinds, and their grouping into lines.

use vstd::prelude::*;
use vstd::utf8::is_ascii_chars;

use crate::position::{
    Anchor, Bias, MultiBufferSnapshot, MultiBufferSnapshotView, Point, TextAnchor,
};
use crate::text::{
    ascii_lowercase, contains, lowercase, occurs, occurs_at, starts_with, to_lowercase,
};

verus! {

/// A command that a language server attaches to a lens.
#[derive(Debug)]
pub struct Command {
    pub title: String,
}

/// What a language server offers.
#[derive(Debug)]
pub enum LspAction {
    /// A lens, with its command where the server has resolved one.
    CodeLens { command: Option<Command> },
    /// A fix or a refactoring.
    Action,
    /// A bare command.
    Command,
}

/// An offer of a language server, known to the editor by its number.
#[derive(Debug)]
pub struct CodeAction {
    pub id: u64,
    /// Where the offer's range starts in its buffer.
    pub start: TextAnchor,
    pub lsp_action: LspAction,
}

/// One lens: what it says and what it stands for.
#[derive(Debug)]
pub struct CodeLensItem {
    pub text: String,
    pub action: Option<CodeAction>,
}

/// The lenses of one line.
#[derive(Debug)]
pub struct CodeLensData {
    /// Where the lenses are drawn: the first column of the line behind its indent.
    pub position: Anchor,
    /// The place that the line's first lens belongs to.
    pub symbol_position: Anchor,
    pub items: Vec<CodeLensItem>,
}

/// The lenses of one line, as a mathematical value.
pub struct CodeLensDataView {
    pub position: Anchor,
    pub symbol_position: Anchor,
    pub items: Seq<CodeLensItem>,
}

impl CodeLensDataView {
    /// The row that the lenses stand on.
    pub open spec fn row(self) -> u32 {
        self.position.point().row
    }
}

impl View for CodeLensData {
    type V = CodeLensDataView;

    open spec fn view(&self) -> CodeLensDataView {
        CodeLensDataView {
            position: self.position,
            symbol_position: self.symbol_position,
            items: self.items@,
        }
    }
}

/// The lines of a sequence of lens data, as mathematical values.
pub open spec fn lens_views(lenses: Seq<CodeLensData>) -> Seq<CodeLensDataView> {
    lenses.map_values(|lens: CodeLensData| lens@)
}

impl Clone for Command {
    fn clone(&self) -> (res: Self)
        ensures
            res == *self,
    {
        Command { title: self.title.clone() }
    }
}

impl Clone for LspAction {
    fn clone(&self) -> (res: Self)
        ensures
            res == *self,
    {
        match self {
            LspAction::CodeLens { command: Some(command) } => LspAction::CodeLens {
                command: Some(command.clone()),
            },
            LspAction::CodeLens { command: None } => LspAction::CodeLens { command: None },
            LspAction::Action => LspAction::Action,
            LspAction::Command => LspAction::Command,
        }
    }
}

impl Clone for CodeAction {
    fn clone(&self) -> (res: Self)
        ensures
            res == *self,
    {
        CodeAction {
            id: self.id,
            start: self.start,
            lsp_action: self.lsp_action.clone(),
        }
    }
}

impl Clone for CodeLensItem {
    fn clone(&self) -> (res: Self)
        ensures
            res == *self,
    {
        CodeLensItem {
            text: self.text.clone(),
            action: match &self.action {
                Some(action) => Some(action.clone()),
                None => None,
            },
        }
    }
}

impl Clone for CodeLensData {
    fn clone(&self) -> (res: Self)
        ensures
            res@ == self@,
    {
        let items = self.items.clone();
        assert(items@ == self.items@);
        CodeLensData {
            position: self.position,
            symbol_position: self.symbol_position,
            items,
        }
    }
}

/// What a click on a lens leads to.
#[derive(Clone, Copy, Debug, PartialEq, Eq, Structural)]
pub enum CodeLensKind {
    References,
    Implementations,
    Other,
}

/// The kind of a lens whose title reads so in lower case.
pub open spec fn kind_of_lowered(title_lower: Seq<char>) -> CodeLensKind {
    if occurs(title_lower, "reference"@) {
        CodeLensKind::References
    } else if occurs(title_lower, "implementation"@) {
        CodeLensKind::Implementations
    } else {
        CodeLensKind::Other
    }
}

/// The kind of a lens with this title. The case of the title's letters does not
/// matter.
pub open spec fn kind_of_title(title: Seq<char>) -> CodeLensKind {
    kind_of_lowered(lowercase(title))
}

/// The kind of a lens, read off its title in lower case.
pub fn detect_lowered_lens_kind(title_lower: &str) -> (res: CodeLensKind)
    ensures
        res == kind_of_lowered(title_lower@),
{
    if contains(title_lower, "reference") {
        CodeLensKind::References
    } else if contains(title_lower, "implementation") {
        CodeLensKind::Implementations
    } else {
        CodeLensKind::Other
    }
}

/// The kind of a lens, read off its title.
pub fn detect_lens_kind(title: &str) -> (res: CodeLensKind)
    ensures
        res == kind_of_title(title@),
        is_ascii_chars(title@) ==> res == kind_of_lowered(ascii_lowercase(title@)),
{
    let title_lower = to_lowercase(title);
    detect_lowered_lens_kind(title_lower.as_str())
}

/// A lens with this title counts nothing and is not shown.
pub open spec fn is_hidden_title(title: Seq<char>) -> bool {
    occurs_at(title, "0 "@, 0)
}

/// Whether a lens counts nothing (`0 references`, `0 implementations`), so that
/// it is not shown.
pub fn should_hide_lens(title: &str) -> (res: bool)
    ensures
        res == is_hidden_title(title@),
{
    starts_with(title, "0 ")
}

impl CodeAction {
    /// The title of the lens that the action is; `None` for an action that is no
    /// lens, and for a lens without a command.
    pub open spec fn title(self) -> Option<String> {
        match self.lsp_action {
            LspAction::CodeLens { command: Some(command) } => Some(command.title),
            _ => None,
        }
    }

    /// The lens to show for the action and the place it belongs to: there is one
    /// where an excerpt shows the place and the lens has a title that is not
    /// hidden.
    pub open spec fn lens(self, snapshot: MultiBufferSnapshotView) -> Option<
        (Anchor, CodeLensItem),
    > {
        match (snapshot.anchor_in_excerpt(self.start), self.title()) {
            (Some(position), Some(text)) => if is_hidden_title(text@) {
                None
            } else {
                Some((position, CodeLensItem { text, action: Some(self) }))
            },
            _ => None,
        }
    }

    /// Makes the action into the lens to show for it.
    pub fn into_lens(self, snapshot: &MultiBufferSnapshot) -> (res: Option<(Anchor, CodeLensItem)>)
        ensures
            res == self.lens(snapshot@),
    {
        let position = match snapshot.anchor_in_excerpt(self.start) {
            Some(position) => position,
            None => {
                return None;
            },
        };
        let text = match &self.lsp_action {
            LspAction::CodeLens { command: Some(command) } => command.title.clone(),
            _ => {
                return None;
            },
        };
        if should_hide_lens(text.as_str()) {
            None
        } else {
            Some((position, CodeLensItem { text, action: Some(self) }))
        }
    }
}

/// The lenses to show for a sequence of actions, in the order of the actions.
pub open spec fn lenses_of(
    actions: Seq<CodeAction>,
    snapshot: MultiBufferSnapshotView,
) -> Seq<(Anchor, CodeLensItem)>
    decreases actions.len(),
{
    if actions.len() == 0 {
        Seq::empty()
    } else {
        match actions.last().lens(snapshot) {
            Some(lens) => lenses_of(actions.drop_last(), snapshot).push(lens),
            None => lenses_of(actions.drop_last(), snapshot),
        }
    }
}

/// The lenses to show for the actions that a language server returned.
pub fn individual_lenses(
    actions: Vec<CodeAction>,
    snapshot: &MultiBufferSnapshot,
) -> (res: Vec<(Anchor, CodeLensItem)>)
    ensures
        res@ == lenses_of(actions@, snapshot@),
{
    let mut res: Vec<(Anchor, CodeLensItem)> = Vec::new();
    for action in it: actions
        invariant
            it.seq() == actions@,
            res@ == lenses_of(actions@.take(it.index()), snapshot@),
    {
        proof {
            let done = actions@.take(it.index() + 1);
            assert(done.drop_last() == actions@.take(it.index()));
            assert(done.last() == action);
        }
        if let Some(lens) = action.into_lens(snapshot) {
            res.push(lens);
        }
    }
    assert(actions@.take(actions@.len() as int) == actions@);
    res
}

/// The row on which a lens stands.
pub open spec fn row_of(lens: (Anchor, CodeLensItem)) -> u32 {
    lens.0.point().row
}

/// The lenses that stand on one row, in their order.
pub open spec fn on_row(lenses: Seq<(Anchor, CodeLensItem)>, row: u32) -> Seq<
    (Anchor, CodeLensItem),
> {
    lenses.filter(|lens: (Anchor, CodeLensItem)| row_of(lens) == row)
}

/// The line that the lenses of one row make.
pub open spec fn line_of(
    lenses: Seq<(Anchor, CodeLensItem)>,
    snapshot: MultiBufferSnapshotView,
    row: u32,
) -> CodeLensDataView {
    CodeLensDataView {
        position: Anchor::At {
            point: Point { row, column: snapshot.indent(row) },
            bias: Bias::Left,
        },
        symbol_position: on_row(lenses, row)[0].0,
        items: on_row(lenses, row).map_values(|lens: (Anchor, CodeLensItem)| lens.1),
    }
}

/// `lines` are the lenses sorted into lines: rows ascend, each line is made of
/// the lenses of its row, and each lens has its line.
pub open spec fn is_grouping(
    lenses: Seq<(Anchor, CodeLensItem)>,
    snapshot: MultiBufferSnapshotView,
    lines: Seq<CodeLensDataView>,
) -> bool {
    &&& forall|i: int, j: int| 0 <= i < j < lines.len() ==> lines[i].row() < lines[j].row()
    &&& forall|i: int|
        #![trigger lines[i]]
        0 <= i < lines.len() ==> {
            &&& on_row(lenses, lines[i].row()).len() > 0
            &&& lines[i] == line_of(lenses, snapshot, lines[i].row())
        }
    &&& forall|k: int|
        #![trigger lenses[k]]
        0 <= k < lenses.len() ==> has_row(lines, row_of(lenses[k]))
}

/// One of the lines stands on the row.
pub open spec fn has_row(lines: Seq<CodeLensDataView>, row: u32) -> bool {
    exists|i: int| 0 <= i < lines.len() && (#[trigger] lines[i]).row() == row
}

/// A further lens joins its own row, at the end, and no other row.
proof fn lemma_on_row_push(
    lenses: Seq<(Anchor, CodeLensItem)>,
    lens: (Anchor, CodeLensItem),
    row: u32,
)
    ensures
        on_row(lenses.push(lens), row) == if row_of(lens) == row {
            on_row(lenses, row).push(lens)
        } else {
            on_row(lenses, row)
        },
{
    reveal(Seq::filter);
    assert(lenses.push(lens).drop_last() == lenses);
}

/// The lenses of a row are among all lenses.
proof fn lemma_row_has_lens(lenses: Seq<(Anchor, CodeLensItem)>, row: u32)
    requires
        on_row(lenses, row).len() > 0,
    ensures
        exists|k: int| 0 <= k < lenses.len() && row_of(#[trigger] lenses[k]) == row,
{
    let on = |lens: (Anchor, CodeLensItem)| row_of(lens) == row;
    let first = on_row(lenses, row)[0];
    lenses.lemma_filter_pred(on, 0);
    assert(lenses.filter(on).contains(first));
    lenses.lemma_filter_contains_rev(on, first);
    let k = choose|k: int| 0 <= k < lenses.len() && lenses[k] == first;
    assert(row_of(lenses[k]) == row);
}

/// A lens whose row has a line already joins that line at its end.
proof fn lemma_join_line(
    lenses: Seq<(Anchor, CodeLensItem)>,
    lens: (Anchor, CodeLensItem),
    snapshot: MultiBufferSnapshotView,
    lines: Seq<CodeLensDataView>,
    index: int,
)
    requires
        is_grouping(lenses, snapshot, lines),
        0 <= index < lines.len(),
        lines[index].row() == row_of(lens),
    ensures
        is_grouping(
            lenses.push(lens),
            snapshot,
            lines.update(
                index,
                CodeLensDataView { items: lines[index].items.push(lens.1), ..lines[index] },
            ),
        ),
{
    let row = row_of(lens);
    let all = lenses.push(lens);
    let line = CodeLensDataView { items: lines[index].items.push(lens.1), ..lines[index] };
    let new_lines = lines.update(index, line);
    lemma_on_row_push(lenses, lens, row);
    assert(line.items == line_of(all, snapshot, row).items);
    assert forall|i: int| #![trigger new_lines[i]] 0 <= i < new_lines.len() implies {
        &&& on_row(all, new_lines[i].row()).len() > 0
        &&& new_lines[i] == line_of(all, snapshot, new_lines[i].row())
    } by {
        if i != index {
            assert(new_lines[i] == lines[i]);
            assert(i < index ==> lines[i].row() < lines[index].row());
            assert(index < i ==> lines[index].row() < lines[i].row());
            lemma_on_row_push(lenses, lens, lines[i].row());
        }
    }
    assert forall|k: int| #![trigger all[k]] 0 <= k < all.len() implies has_row(
        new_lines,
        row_of(all[k]),
    ) by {
        if k < lenses.len() {
            assert(has_row(lines, row_of(lenses[k])));
            let i = choose|i: int|
                0 <= i < lines.len() && (#[trigger] lines[i]).row() == row_of(lenses[k]);
            assert(new_lines[i].row() == lines[i].row());
        } else {
            assert(new_lines[index].row() == row);
        }
    }
}

/// A lens whose row has no line yet makes a line of its own.
proof fn lemma_new_line(
    lenses: Seq<(Anchor, CodeLensItem)>,
    lens: (Anchor, CodeLensItem),
    snapshot: MultiBufferSnapshotView,
    lines: Seq<CodeLensDataView>,
    index: int,
)
    requires
        is_grouping(lenses, snapshot, lines),
        0 <= index <= lines.len(),
        forall|i: int| 0 <= i < index ==> (#[trigger] lines[i]).row() < row_of(lens),
        forall|i: int| index <= i < lines.len() ==> (#[trigger] lines[i]).row() > row_of(lens),
    ensures
        is_grouping(
            lenses.push(lens),
            snapshot,
            lines.insert(
                index,
                CodeLensDataView {
                    position: Anchor::At {
                        point: Point {
                            row: row_of(lens),
                            column: snapshot.indent(row_of(lens)),
                        },
                        bias: Bias::Left,
                    },
                    symbol_position: lens.0,
                    items: seq![lens.1],
                },
            ),
        ),
{
    let row = row_of(lens);
    let all = lenses.push(lens);
    let line = CodeLensDataView {
        position: Anchor::At {
            point: Point { row, column: snapshot.indent(row) },
            bias: Bias::Left,
        },
        symbol_position: lens.0,
        items: seq![lens.1],
    };
    let new_lines = lines.insert(index, line);
    assert(on_row(lenses, row) == Seq::<(Anchor, CodeLensItem)>::empty()) by {
        if on_row(lenses, row).len() > 0 {
            lemma_row_has_lens(lenses, row);
            let k = choose|k: int| 0 <= k < lenses.len() && row_of(#[trigger] lenses[k]) == row;
            assert(has_row(lines, row_of(lenses[k])));
        }
    }
    lemma_on_row_push(lenses, lens, row);
    assert(on_row(all, row) == seq![lens]);
    assert(line.items == line_of(all, snapshot, row).items);
    assert forall|i: int| #![trigger new_lines[i]] 0 <= i < new_lines.len() implies {
        &&& on_row(all, new_lines[i].row()).len() > 0
        &&& new_lines[i] == line_of(all, snapshot, new_lines[i].row())
    } by {
        if i < index {
            assert(new_lines[i] == lines[i]);
            lemma_on_row_push(lenses, lens, lines[i].row());
        } else if i > index {
            assert(new_lines[i] == lines[i - 1]);
            lemma_on_row_push(lenses, lens, lines[i - 1].row());
        }
    }
    assert forall|k: int| #![trigger all[k]] 0 <= k < all.len() implies has_row(
        new_lines,
        row_of(all[k]),
    ) by {
        if k < lenses.len() {
            assert(has_row(lines, row_of(lenses[k])));
            let i = choose|i: int|
                0 <= i < lines.len() && (#[trigger] lines[i]).row() == row_of(lenses[k]);
            if i < index {
                assert(new_lines[i] == lines[i]);
            } else {
                assert(new_lines[i + 1] == lines[i]);
            }
        } else {
            assert(new_lines[index].row() == row);
        }
    }
}

/// The number of lines on rows above the given one, found by halving.
fn lines_before(lines: &Vec<CodeLensData>, row: u32) -> (res: usize)
    requires
        forall|i: int, j: int|
            #![trigger lines[i], lines[j]]
            0 <= i < j < lines.len() ==> lines[i]@.row() < lines[j]@.row(),
    ensures
        res <= lines.len(),
        forall|i: int| 0 <= i < res ==> (#[trigger] lines[i])@.row() < row,
        forall|i: int| res <= i < lines.len() ==> (#[trigger] lines[i])@.row() >= row,
{
    let mut low: usize = 0;
    let mut high: usize = lines.len();
    while low < high
        invariant
            low <= high <= lines.len(),
            forall|i: int, j: int|
                #![trigger lines[i], lines[j]]
                0 <= i < j < lines.len() ==> lines[i]@.row() < lines[j]@.row(),
            forall|i: int| 0 <= i < low ==> (#[trigger] lines[i])@.row() < row,
            forall|i: int| high <= i < lines.len() ==> (#[trigger] lines[i])@.row() >= row,
        decreases high - low,
    {
        let middle: usize = low + (high - low) / 2;
        if lines[middle].position.to_point().row < row {
            low = middle + 1;
        } else {
            high = middle;
        }
    }
    low
}

/// Sorts lenses into lines, one for each row that has a lens, from the first row
/// to the last.
pub fn group_lenses_by_row(
    lenses: Vec<(Anchor, CodeLensItem)>,
    snapshot: &MultiBufferSnapshot,
) -> (res: Vec<CodeLensData>)
    ensures
        is_grouping(lenses@, snapshot@, lens_views(res@)),
{
    let mut res: Vec<CodeLensData> = Vec::new();
    for lens in it: lenses
        invariant
            it.seq() == lenses@,
            is_grouping(lenses@.take(it.index()), snapshot@, lens_views(res@)),
    {
        let ghost before = lenses@.take(it.index());
        let ghost lines = lens_views(res@);
        let (symbol_position, item) = lens;
        let row = symbol_position.to_point().row;
        assert(lenses@.take(it.index() + 1) == before.push(lens));
        assert forall|i: int, j: int|
            #![trigger res[i], res[j]]
            0 <= i < j < res.len() implies res[i]@.row() < res[j]@.row() by {
            assert(lines[i].row() < lines[j].row());
        }
        let index = lines_before(&res, row);
        if index < res.len() && res[index].position.to_point().row == row {
            res[index].items.push(item);
            proof {
                lemma_join_line(before, lens, snapshot@, lines, index as int);
                assert(lens_views(res@) == lines.update(
                    index as int,
                    CodeLensDataView {
                        items: lines[index as int].items.push(item),
                        ..lines[index as int]
                    },
                ));
            }
        } else {
            let column = snapshot.indent_size_for_line(row);
            let position = snapshot.anchor_at(Point { row, column }, Bias::Left);
            let items: Vec<CodeLensItem> = vec![item];
            let line = CodeLensData { position, symbol_position, items };
            res.insert(index, line);
            proof {
                assert forall|i: int| index <= i < lines.len() implies (#[trigger] lines[i]).row()
                    > row by {
                    assert(lines[index as int].row() <= lines[i].row());
                }
                lemma_new_line(before, lens, snapshot@, lines, index as int);
                assert(line@.items == seq![item]);
                assert(lens_views(res@) == lines.insert(index as int, line@));
            }
        }
    }
    assert(lenses@.take(lenses@.len() as int) == lenses@);
    res
}

/// The lines that stand on the rows of one grouping stand on those of another.
proof fn lemma_groupings_share_rows(
    lenses: Seq<(Anchor, CodeLensItem)>,
    snapshot: MultiBufferSnapshotView,
    a: Seq<CodeLensDataView>,
    b: Seq<CodeLensDataView>,
    i: int,
)
    requires
        is_grouping(lenses, snapshot, a),
        is_grouping(lenses, snapshot, b),
        0 <= i < a.len(),
    ensures
        has_row(b, a[i].row()),
{
    lemma_row_has_lens(lenses, a[i].row());
    let k = choose|k: int| 0 <= k < lenses.len() && row_of(#[trigger] lenses[k]) == a[i].row();
    assert(has_row(b, row_of(lenses[k])));
}

/// Two groupings of the same lenses agree on their first lines.
proof fn lemma_groupings_agree(
    lenses: Seq<(Anchor, CodeLensItem)>,
    snapshot: MultiBufferSnapshotView,
    a: Seq<CodeLensDataView>,
    b: Seq<CodeLensDataView>,
    n: int,
)
    requires
        is_grouping(lenses, snapshot, a),
        is_grouping(lenses, snapshot, b),
        0 <= n <= a.len(),
    ensures
        n <= b.len(),
        forall|i: int| 0 <= i < n ==> #[trigger] a[i] == #[trigger] b[i],
    decreases n,
{
    if n > 0 {
        let i = n - 1;
        lemma_groupings_agree(lenses, snapshot, a, b, i);
        lemma_groupings_share_rows(lenses, snapshot, a, b, i);
        let j = choose|j: int| 0 <= j < b.len() && (#[trigger] b[j]).row() == a[i].row();
        if j < i {
            assert(a[j].row() < a[i].row());
        }
        assert(i < j ==> b[i].row() < b[j].row());
        lemma_groupings_share_rows(lenses, snapshot, b, a, i);
        let k = choose|k: int| 0 <= k < a.len() && (#[trigger] a[k]).row() == b[i].row();
        if k < i {
            assert(b[k].row() < b[i].row());
        }
        assert(i < k ==> a[i].row() < a[k].row());
    }
}

/// The lenses and the text alone decide the lines, their order and the order
/// of the lenses in each.
pub proof fn law_grouping_is_unique(
    lenses: Seq<(Anchor, CodeLensItem)>,
    snapshot: MultiBufferSnapshotView,
    a: Seq<CodeLensDataView>,
    b: Seq<CodeLensDataView>,
)
    requires
        is_grouping(lenses, snapshot, a),
        is_grouping(lenses, snapshot, b),
    ensures
        a == b,
{
    lemma_groupings_agree(lenses, snapshot, a, b, a.len() as int);
    lemma_groupings_agree(lenses, snapshot, b, a, b.len() as int);
    assert(a =~= b);
}

/// The items of lenses.
pub open spec fn items_of(lenses: Seq<(Anchor, CodeLensItem)>) -> Seq<CodeLensItem> {
    lenses.map_values(|lens: (Anchor, CodeLensItem)| lens.1)
}

/// The items of all lines, line by line.
pub open spec fn items_of_lines(lines: Seq<CodeLensDataView>) -> Seq<CodeLensItem>
    decreases lines.len(),
{
    if lines.len() == 0 {
        Seq::empty()
    } else {
        items_of_lines(lines.drop_last()) + lines.last().items
    }
}

/// The lenses that do not stand on one row, in their order.
spec fn off_row(lenses: Seq<(Anchor, CodeLensItem)>, row: u32) -> Seq<(Anchor, CodeLensItem)> {
    lenses.filter(|lens: (Anchor, CodeLensItem)| row_of(lens) != row)
}

/// Setting one row aside splits the lenses and leaves the other rows alone.
proof fn lemma_split_row(lenses: Seq<(Anchor, CodeLensItem)>, row: u32)
    ensures
        items_of(lenses).to_multiset() == items_of(off_row(lenses, row)).to_multiset().add(
            items_of(on_row(lenses, row)).to_multiset(),
        ),
        forall|r: u32|
            r != row ==> #[trigger] on_row(off_row(lenses, row), r) == on_row(lenses, r),
    decreases lenses.len(),
{
    broadcast use vstd::seq_lib::group_to_multiset_ensures;

    reveal(Seq::filter);
    if lenses.len() == 0 {
        assert(items_of(lenses) == Seq::<CodeLensItem>::empty());
        assert(off_row(lenses, row) == lenses);
        assert(on_row(lenses, row) == lenses);
        assert(items_of(lenses).to_multiset() =~= items_of(off_row(lenses, row)).to_multiset().add(
            items_of(on_row(lenses, row)).to_multiset(),
        ));
    } else {
        let rest = lenses.drop_last();
        let lens = lenses.last();
        lemma_split_row(rest, row);
        assert(items_of(lenses) == items_of(rest).push(lens.1));
        if row_of(lens) == row {
            assert(off_row(lenses, row) == off_row(rest, row));
            assert(on_row(lenses, row) == on_row(rest, row).push(lens));
            assert(items_of(on_row(lenses, row)) == items_of(on_row(rest, row)).push(lens.1));
        } else {
            assert(on_row(lenses, row) == on_row(rest, row));
            assert(off_row(lenses, row) == off_row(rest, row).push(lens));
            assert(items_of(off_row(lenses, row)) == items_of(off_row(rest, row)).push(lens.1));
        }
        assert forall|r: u32| r != row implies #[trigger] on_row(off_row(lenses, row), r) == on_row(
            lenses,
            r,
        ) by {
            assert(on_row(off_row(rest, row), r) == on_row(rest, r));
            if row_of(lens) != row {
                lemma_on_row_push(off_row(rest, row), lens, r);
            }
        }
        assert(items_of(lenses).to_multiset() =~= items_of(off_row(lenses, row)).to_multiset().add(
            items_of(on_row(lenses, row)).to_multiset(),
        ));
    }
}

/// Grouping loses no lens and doubles none: the lines hold the same items, as
/// often each, as the lenses that were sorted into them.
pub proof fn law_grouping_keeps_every_lens(
    lenses: Seq<(Anchor, CodeLensItem)>,
    snapshot: MultiBufferSnapshotView,
    lines: Seq<CodeLensDataView>,
)
    requires
        is_grouping(lenses, snapshot, lines),
    ensures
        items_of_lines(lines).to_multiset() == items_of(lenses).to_multiset(),
    decreases lines.len(),
{
    broadcast use vstd::seq_lib::group_to_multiset_ensures;

    if lines.len() == 0 {
        if lenses.len() > 0 {
            assert(has_row(lines, row_of(lenses[0])));
        }
        assert(items_of(lenses) == items_of_lines(lines));
    } else {
        let line = lines.last();
        let row = line.row();
        let others = lines.drop_last();
        let rest = off_row(lenses, row);
        lemma_split_row(lenses, row);
        assert(lines[lines.len() - 1] == line);
        assert forall|i: int| #![trigger others[i]] 0 <= i < others.len() implies {
            &&& on_row(rest, others[i].row()).len() > 0
            &&& others[i] == line_of(rest, snapshot, others[i].row())
        } by {
            assert(others[i] == lines[i]);
            assert(lines[i].row() < lines[lines.len() - 1].row());
            assert(on_row(rest, lines[i].row()) == on_row(lenses, lines[i].row()));
        }
        assert forall|k: int| #![trigger rest[k]] 0 <= k < rest.len() implies has_row(
            others,
            row_of(rest[k]),
        ) by {
            let off = |lens: (Anchor, CodeLensItem)| row_of(lens) != row;
            lenses.lemma_filter_pred(off, k);
            assert(lenses.filter(off).contains(rest[k]));
            lenses.lemma_filter_contains_rev(off, rest[k]);
            let j = choose|j: int| 0 <= j < lenses.len() && lenses[j] == rest[k];
            assert(has_row(lines, row_of(lenses[j])));
            let i = choose|i: int|
                0 <= i < lines.len() && (#[trigger] lines[i]).row() == row_of(lenses[j]);
            assert(others[i] == lines[i]);
        }
        assert(is_grouping(rest, snapshot, others));
        law_grouping_keeps_every_lens(rest, snapshot, others);
        vstd::seq_lib::lemma_multiset_commutative(items_of_lines(others), line.items);
        assert(line.items == items_of(on_row(lenses, row)));
    }
}

/// Every lens that is shown comes from one of the actions, at the place where an
/// excerpt shows that action, carries that action and its title, and is not one
/// that counts nothing.
pub proof fn law_shown_lens_has_its_action(
    actions: Seq<CodeAction>,
    snapshot: MultiBufferSnapshotView,
    k: int,
)
    requires
        0 <= k < lenses_of(actions, snapshot).len(),
    ensures
        lenses_of(actions, snapshot)[k].1.action matches Some(action) && {
            &&& actions.contains(action)
            &&& snapshot.anchor_in_excerpt(action.start) == Some(lenses_of(actions, snapshot)[k].0)
            &&& action.title() == Some(lenses_of(actions, snapshot)[k].1.text)
        },
        !is_hidden_title(lenses_of(actions, snapshot)[k].1.text@),
    decreases actions.len(),
{
    let rest = actions.drop_last();
    if k < lenses_of(rest, snapshot).len() {
        law_shown_lens_has_its_action(rest, snapshot, k);
        assert(lenses_of(actions, snapshot)[k] == lenses_of(rest, snapshot)[k]);
        let action = lenses_of(rest, snapshot)[k].1.action->Some_0;
        let j = choose|j: int| 0 <= j < rest.len() && rest[j] == action;
        assert(actions[j] == action);
    } else {
        assert(actions.contains(actions.last()));
    }
}

/// Every action with a lens to show has it shown.
pub proof fn law_every_lens_is_shown(
    actions: Seq<CodeAction>,
    snapshot: MultiBufferSnapshotView,
    k: int,
)
    requires
        0 <= k < actions.len(),
        actions[k].lens(snapshot) is Some,
    ensures
        lenses_of(actions, snapshot).contains(actions[k].lens(snapshot)->Some_0),
    decreases actions.len(),
{
    let rest = actions.drop_last();
    if k < rest.len() {
        law_every_lens_is_shown(rest, snapshot, k);
        let j = lenses_of(rest, snapshot).index_of(rest[k].lens(snapshot)->Some_0);
        assert(lenses_of(actions, snapshot)[j] == lenses_of(rest, snapshot)[j]);
    } else {
        assert(lenses_of(actions, snapshot).last() == actions[k].lens(snapshot)->Some_0);
    }
}

/// No line shows a lens that counts nothing, and every lens of a line carries one
/// of the actions that the lines were made for, and its title.
pub proof fn law_lines_show_only_wanted_lenses(
    actions: Seq<CodeAction>,
    snapshot: MultiBufferSnapshotView,
    lines: Seq<CodeLensDataView>,
    i: int,
    j: int,
)
    requires
        is_grouping(lenses_of(actions, snapshot), snapshot, lines),
        0 <= i < lines.len(),
        0 <= j < lines[i].items.len(),
    ensures
        !is_hidden_title(lines[i].items[j].text@),
        lines[i].items[j].action matches Some(action) && {
            &&& actions.contains(action)
            &&& action.title() == Some(lines[i].items[j].text)
        },
{
    let lenses = lenses_of(actions, snapshot);
    let row = lines[i].row();
    let on = |lens: (Anchor, CodeLensItem)| row_of(lens) == row;
    let lens = on_row(lenses, row)[j];
    assert(lines[i].items[j] == lens.1);
    assert(lenses.filter(on).contains(lens));
    lenses.lemma_filter_contains_rev(on, lens);
    let k = choose|k: int| 0 <= k < lenses.len() && lenses[k] == lens;
    law_shown_lens_has_its_action(actions, snapshot, k);
}

} // verus!
