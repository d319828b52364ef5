//! What a line of lenses looks like, and what a click on a lens does.

use vstd::prelude::*;

use crate::ids::BufferId;
use crate::laws::titles::{
    digits_value, is_ascii_lowered, law_ascii_lowercase_makes_letters_small,
    law_decimal_reads_back, lemma_occurs_splits, names_implementations, names_references,
};
use crate::lens::{CodeAction, CodeLensData, CodeLensKind};
use crate::render::{
    click_command, law_button_ids_are_unique, render_code_lens_line, ClickCommand, ClickOutcome,
    CodeActionRequest, LensClick, LensElement,
};
use crate::text::{decimal, lowercase};

verus! {

/// A line is drawn as one element for each lens and one between each two.
pub proof fn law_line_is_drawn_in_full(lens: CodeLensData, res: Vec<LensElement>)
    requires
        call_ensures(render_code_lens_line, (&lens,), res),
    ensures
        lens.items@.len() == 0 ==> res@.len() == 0,
        lens.items@.len() > 0 ==> res@.len() + 1 == 2 * lens.items@.len(),
{
}

/// Every lens of a line, whatever it says and stands for, is drawn in its turn as a
/// button that shows its text, and that remembers its text, its action and the
/// line's symbol for a click.
pub proof fn law_button_shows_its_lens(lens: CodeLensData, res: Vec<LensElement>, i: int)
    requires
        call_ensures(render_code_lens_line, (&lens,), res),
        0 <= i < lens.items@.len(),
    ensures
        2 * i < res@.len(),
        res@[2 * i] is Button,
        res@[2 * i]->Button_0.text == lens.items@[i].text,
        res@[2 * i]->Button_0.on_click.text == lens.items@[i].text,
        res@[2 * i]->Button_0.on_click.action == lens.items@[i].action,
        res@[2 * i]->Button_0.on_click.position == lens.symbol_position,
{
    assert(res@[2 * i].draws(i as nat, lens.items@[i], lens.symbol_position));
}

/// Between two lenses stands a bar with a blank on each side.
pub proof fn law_bar_stands_between_lenses(lens: CodeLensData, res: Vec<LensElement>, i: int)
    requires
        call_ensures(render_code_lens_line, (&lens,), res),
        0 <= i < lens.items@.len() - 1,
    ensures
        2 * i + 1 < res@.len(),
        res@[2 * i + 1] is Separator,
        res@[2 * i + 1]->Separator_0@ == seq![' ', '|', ' '],
{
    reveal_strlit(" | ");
    assert(res@[2 * i + 1].is_separator());
    assert(" | "@ =~= seq![' ', '|', ' ']);
}

/// The name of a lens's button is "code-lens-", the place of the lens in its line in
/// decimal, a hyphen, and the lens's text: `digits` are the decimal.
pub proof fn law_button_is_named_by_place_and_text(
    lens: CodeLensData,
    res: Vec<LensElement>,
    i: int,
) -> (digits: Seq<char>)
    requires
        call_ensures(render_code_lens_line, (&lens,), res),
        0 <= i < lens.items@.len(),
    ensures
        res@[2 * i]->Button_0.id@ == "code-lens-"@ + digits + "-"@ + lens.items@[i].text@,
        digits_value(digits) == i,
        forall|k: int| 0 <= k < digits.len() ==> '0' <= #[trigger] digits[k] <= '9',
        digits[0] == '0' ==> digits.len() == 1,
{
    assert(res@[2 * i].draws(i as nat, lens.items@[i], lens.symbol_position));
    law_decimal_reads_back(i as nat);
    decimal(i as nat)
}

/// No two buttons of a line have the same name.
pub proof fn law_buttons_of_a_line_have_different_names(
    lens: CodeLensData,
    res: Vec<LensElement>,
    i: int,
    j: int,
)
    requires
        call_ensures(render_code_lens_line, (&lens,), res),
        0 <= i < j < lens.items@.len(),
    ensures
        res@[2 * i]->Button_0.id@ != res@[2 * j]->Button_0.id@,
{
    assert(res@[2 * i].draws(i as nat, lens.items@[i], lens.symbol_position));
    assert(res@[2 * j].draws(j as nat, lens.items@[j], lens.symbol_position));
    law_button_ids_are_unique(i as nat, lens.items@[i].text@, j as nat, lens.items@[j].text@);
}

/// A lens of references leads to the references, one of implementations to the
/// implementations, and any other to its action, whatever that is, where it has
/// one.
pub proof fn law_command_follows_the_kind(
    kind: CodeLensKind,
    action: Option<CodeAction>,
    res: ClickCommand,
)
    requires
        call_ensures(click_command, (kind, &action), res),
    ensures
        kind == CodeLensKind::References <==> res is FindAllReferences,
        kind == CodeLensKind::Implementations <==> res is GoToImplementation,
        kind == CodeLensKind::Other && action is Some <==> res is ApplyCodeAction,
        kind == CodeLensKind::Other && action is None <==> res is Nothing,
        res is ApplyCodeAction ==> res->ApplyCodeAction_0 == action->Some_0,
{
}

/// A click does something exactly where the editor is open; then it moves the cursor
/// to the lens's place, with nothing selected.
pub proof fn law_click_moves_the_cursor(
    click: LensClick,
    editor_is_open: bool,
    res: Option<ClickOutcome>,
)
    requires
        call_ensures(LensClick::outcome, (&click, editor_is_open), res),
    ensures
        res is Some <==> editor_is_open,
        res is Some ==> res->Some_0.selection.0 == click.position,
        res is Some ==> res->Some_0.selection.1 == click.position,
{
}

/// A click goes by the text of the lens in lower case: where it holds "reference",
/// the references are looked for; else, where it holds "implementation", the
/// implementations are gone to; else the lens's action, whatever it is, is carried
/// out; and nothing happens only where there is none.
pub proof fn law_click_follows_the_text(click: LensClick, res: Option<ClickOutcome>)
    requires
        call_ensures(LensClick::outcome, (&click, true), res),
    ensures
        names_references(lowercase(click.text@)) <==> res->Some_0.command is FindAllReferences,
        !names_references(lowercase(click.text@)) && names_implementations(lowercase(click.text@))
            <==> res->Some_0.command is GoToImplementation,
        !names_references(lowercase(click.text@)) && !names_implementations(lowercase(click.text@))
            && click.action is Some ==> res->Some_0.command == ClickCommand::ApplyCodeAction(
            click.action->Some_0,
        ),
        res->Some_0.command is ApplyCodeAction ==> click.action == Some(
            res->Some_0.command->ApplyCodeAction_0,
        ),
        res->Some_0.command is Nothing ==> click.action is None,
{
    lemma_occurs_splits(lowercase(click.text@), "reference"@);
    lemma_occurs_splits(lowercase(click.text@), "implementation"@);
}

/// The same of a text in ASCII, with its capital letters made small.
pub proof fn law_click_follows_an_ascii_text(
    click: LensClick,
    lowered: Seq<char>,
    res: Option<ClickOutcome>,
)
    requires
        call_ensures(LensClick::outcome, (&click, true), res),
        is_ascii_lowered(click.text@, lowered),
    ensures
        names_references(lowered) <==> res->Some_0.command is FindAllReferences,
        !names_references(lowered) && names_implementations(lowered)
            <==> res->Some_0.command is GoToImplementation,
        !names_references(lowered) && !names_implementations(lowered) && click.action is Some
            ==> res->Some_0.command == ClickCommand::ApplyCodeAction(click.action->Some_0),
        res->Some_0.command is Nothing ==> click.action is None,
{
    law_ascii_lowercase_makes_letters_small(click.text@, lowered);
    lemma_occurs_splits(lowered, "reference"@);
    lemma_occurs_splits(lowered, "implementation"@);
}

/// An action is carried out exactly where a click asks for one, in a workspace, in
/// an editor of a single buffer: that action, on that buffer, and so that it can be
/// undone.
pub proof fn law_action_is_carried_out(
    command: ClickCommand,
    has_workspace: bool,
    singleton: Option<BufferId>,
    res: Option<CodeActionRequest>,
)
    requires
        call_ensures(
            ClickCommand::code_action_request,
            (command, has_workspace, singleton),
            res,
        ),
    ensures
        res is Some <==> command is ApplyCodeAction && has_workspace && singleton is Some,
        res is Some ==> res->Some_0.action == command->ApplyCodeAction_0,
        res is Some ==> res->Some_0.buffer == singleton->Some_0,
        res is Some ==> res->Some_0.push_to_history,
{
}

} // verus!
