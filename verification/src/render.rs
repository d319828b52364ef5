//! Drawing a line of lenses, and what a click on one of them does.

use vstd::prelude::*;
use vstd::string::*;
use vstd::utf8::is_ascii_chars;

use crate::ids::BufferId;
use crate::lens::{
    detect_lens_kind, kind_of_lowered, kind_of_title, CodeAction, CodeLensData, CodeLensItem,
    CodeLensKind,
};
use crate::position::Anchor;
use crate::text::{ascii_lowercase, decimal, digit_char, number_to_string};

verus! {

/// What a lens remembers for the moment when it is clicked.
#[derive(Debug)]
pub struct LensClick {
    pub text: String,
    pub action: Option<CodeAction>,
    /// Where the cursor goes.
    pub position: Anchor,
}

/// A lens as it is drawn.
#[derive(Debug)]
pub struct LensButton {
    /// The name of the element, unique within its line.
    pub id: String,
    pub text: String,
    pub on_click: LensClick,
}

/// A part of a drawn line.
#[derive(Debug)]
pub enum LensElement {
    /// The text between two lenses.
    Separator(String),
    Button(LensButton),
}

/// The name of the element that draws a line's lens.
pub open spec fn button_id(index: nat, text: Seq<char>) -> Seq<char> {
    "code-lens-"@ + decimal(index) + "-"@ + text
}

impl LensElement {
    /// The element is the text between two lenses.
    pub open spec fn is_separator(self) -> bool {
        self matches LensElement::Separator(text) && text@ == " | "@
    }

    /// The element draws the lens with the given number in its line.
    pub open spec fn draws(self, index: nat, item: CodeLensItem, position: Anchor) -> bool {
        self matches LensElement::Button(button) && {
            &&& button.id@ == button_id(index, item.text@)
            &&& button.text == item.text
            &&& button.on_click == LensClick { text: item.text, action: item.action, position }
        }
    }
}

/// `elements` draw the lenses in their order, with a separator between each two.
pub open spec fn draws_line(
    elements: Seq<LensElement>,
    items: Seq<CodeLensItem>,
    position: Anchor,
) -> bool {
    &&& elements.len() == if items.len() == 0 {
        0
    } else {
        2 * items.len() - 1
    }
    &&& forall|i: int|
        #![trigger elements[2 * i]]
        0 <= i < items.len() ==> elements[2 * i].draws(i as nat, items[i], position)
    &&& forall|i: int|
        #![trigger elements[2 * i + 1]]
        0 <= i < items.len() - 1 ==> elements[2 * i + 1].is_separator()
}

/// The button that draws a lens.
fn button(index: usize, item: &CodeLensItem, position: Anchor) -> (res: LensButton)
    ensures
        LensElement::Button(res).draws(index as nat, *item, position),
{
    let mut id = "code-lens-".to_owned();
    id.append(number_to_string(index).as_str());
    id.append("-");
    id.append(item.text.as_str());
    let CodeLensItem { text, action } = item.clone();
    LensButton {
        id,
        text: text.clone(),
        on_click: LensClick { text, action, position },
    }
}

/// The elements that draw a line of lenses.
pub fn render_code_lens_line(lens: &CodeLensData) -> (res: Vec<LensElement>)
    ensures
        draws_line(res@, lens.items@, lens.symbol_position),
{
    let mut children: Vec<LensElement> = Vec::new();
    let mut i: usize = 0;
    while i < lens.items.len()
        invariant
            i <= lens.items.len(),
            draws_line(children@, lens.items@.take(i as int), lens.symbol_position),
        decreases lens.items.len() - i,
    {
        let ghost before = children@;
        if i > 0 {
            children.push(LensElement::Separator(" | ".to_owned()));
        }
        children.push(LensElement::Button(button(i, &lens.items[i], lens.symbol_position)));
        proof {
            let items = lens.items@.take(i + 1);
            assert forall|k: int|
                #![trigger children@[2 * k]]
                0 <= k < items.len() implies children@[2 * k].draws(
                k as nat,
                items[k],
                lens.symbol_position,
            ) by {
                if k < i {
                    assert(children@[2 * k] == before[2 * k]);
                    assert(items[k] == lens.items@.take(i as int)[k]);
                }
            }
            assert forall|k: int| #![trigger children@[2 * k + 1]] 0 <= k < items.len()
                - 1 implies children@[2 * k + 1].is_separator() by {
                if k < i - 1 {
                    assert(children@[2 * k + 1] == before[2 * k + 1]);
                }
            }
        }
        i += 1;
    }
    assert(lens.items@.take(lens.items@.len() as int) == lens.items@);
    children
}

/// What a click asks of the editor once the cursor has moved.
#[derive(Debug)]
pub enum ClickCommand {
    FindAllReferences,
    GoToImplementation,
    /// To carry the action out.
    ApplyCodeAction(CodeAction),
    Nothing,
}

/// What a click does: it selects the empty range between the two anchors, which
/// moves the cursor there, and then follows the command.
#[derive(Debug)]
pub struct ClickOutcome {
    pub selection: (Anchor, Anchor),
    pub command: ClickCommand,
}

/// The command that a click on a lens of this kind, with this action, gives.
pub open spec fn command_for(kind: CodeLensKind, action: Option<CodeAction>) -> ClickCommand {
    match (kind, action) {
        (CodeLensKind::References, _) => ClickCommand::FindAllReferences,
        (CodeLensKind::Implementations, _) => ClickCommand::GoToImplementation,
        (CodeLensKind::Other, Some(action)) => ClickCommand::ApplyCodeAction(action),
        (CodeLensKind::Other, None) => ClickCommand::Nothing,
    }
}

/// The command that a click on a lens gives.
pub fn click_command(kind: CodeLensKind, action: &Option<CodeAction>) -> (res: ClickCommand)
    ensures
        res == command_for(kind, *action),
{
    match kind {
        CodeLensKind::References => ClickCommand::FindAllReferences,
        CodeLensKind::Implementations => ClickCommand::GoToImplementation,
        CodeLensKind::Other => match action {
            Some(action) => ClickCommand::ApplyCodeAction(action.clone()),
            None => ClickCommand::Nothing,
        },
    }
}

impl LensClick {
    /// What a click does. Where the editor is gone, it does nothing.
    pub fn outcome(&self, editor_is_open: bool) -> (res: Option<ClickOutcome>)
        ensures
            res == if editor_is_open {
                Some(
                    ClickOutcome {
                        selection: (self.position, self.position),
                        command: command_for(kind_of_title(self.text@), self.action),
                    },
                )
            } else {
                None
            },
            editor_is_open && is_ascii_chars(self.text@) ==> res->Some_0.command == command_for(
                kind_of_lowered(ascii_lowercase(self.text@)),
                self.action,
            ),
    {
        if !editor_is_open {
            return None;
        }
        let kind = detect_lens_kind(self.text.as_str());
        Some(
            ClickOutcome {
                selection: (self.position, self.position),
                command: click_command(kind, &self.action),
            },
        )
    }
}

/// An action to be carried out on a buffer.
#[derive(Debug)]
pub struct CodeActionRequest {
    pub buffer: BufferId,
    pub action: CodeAction,
    /// Whether the changes can be undone from the history.
    pub push_to_history: bool,
}

impl ClickCommand {
    /// The action to carry out: there is one where the command asks for it, the
    /// editor stands in a workspace, and it shows a single buffer.
    pub fn code_action_request(
        self,
        has_workspace: bool,
        singleton: Option<BufferId>,
    ) -> (res: Option<CodeActionRequest>)
        ensures
            res == match (self, singleton) {
                (ClickCommand::ApplyCodeAction(action), Some(buffer)) if has_workspace => Some(
                    CodeActionRequest { buffer, action, push_to_history: true },
                ),
                _ => None,
            },
    {
        match self {
            ClickCommand::ApplyCodeAction(action) => {
                if !has_workspace {
                    return None;
                }
                match singleton {
                    Some(buffer) => Some(
                        CodeActionRequest { buffer, action, push_to_history: true },
                    ),
                    None => None,
                }
            },
            _ => None,
        }
    }
}

/// Decimal notation is made of digits, at least one.
proof fn lemma_decimal_digits(n: nat)
    ensures
        decimal(n).len() > 0,
        forall|i: int| 0 <= i < decimal(n).len() ==> '0' <= #[trigger] decimal(n)[i] <= '9',
    decreases n,
{
    if n >= 10 {
        lemma_decimal_digits(n / 10);
    }
}

/// Different numbers have different decimal notations.
proof fn lemma_decimal_injective(m: nat, n: nat)
    requires
        decimal(m) == decimal(n),
    ensures
        m == n,
    decreases m,
{
    assert(decimal(m).last() == digit_char(m % 10));
    assert(decimal(n).last() == digit_char(n % 10));
    assert(m % 10 == n % 10);
    if m >= 10 {
        lemma_decimal_digits(m / 10);
    }
    if n >= 10 {
        lemma_decimal_digits(n / 10);
    }
    if m >= 10 && n >= 10 {
        assert(decimal(m).drop_last() == decimal(m / 10));
        assert(decimal(n).drop_last() == decimal(n / 10));
        lemma_decimal_injective(m / 10, n / 10);
    }
}

/// Two lenses of one line are never drawn under the same name, whatever they say.
pub proof fn law_button_ids_are_unique(
    i: nat,
    text: Seq<char>,
    j: nat,
    other_text: Seq<char>,
)
    requires
        i != j,
    ensures
        button_id(i, text) != button_id(j, other_text),
{
    reveal_strlit("code-lens-");
    reveal_strlit("-");
    let prefix = "code-lens-"@.len();
    let a = decimal(i);
    let b = decimal(j);
    lemma_decimal_digits(i);
    lemma_decimal_digits(j);
    let s = button_id(i, text);
    let t = button_id(j, other_text);
    if s == t {
        assert(s[(prefix + a.len()) as int] == '-');
        assert(t[(prefix + b.len()) as int] == '-');
        if a.len() < b.len() {
            assert(t[(prefix + a.len()) as int] == b[a.len() as int]);
        } else if b.len() < a.len() {
            assert(s[(prefix + b.len()) as int] == a[b.len() as int]);
        } else {
            assert forall|k: int| 0 <= k < a.len() implies a[k] == b[k] by {
                assert(s[prefix + k] == a[k]);
                assert(t[prefix + k] == b[k]);
            }
            assert(a == b);
            lemma_decimal_injective(i, j);
        }
    }
}

} // verus!
