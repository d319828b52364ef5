//! Strings, numbers, positions and titles.

use vstd::prelude::*;
use vstd::utf8::is_ascii_chars;

use crate::ids::BufferId;
use crate::lens::{
    detect_lens_kind, detect_lowered_lens_kind, is_hidden_title, should_hide_lens, CodeLensKind,
};
use crate::position::{Anchor, Bias, MultiBufferSnapshot, Point, TextAnchor};
use crate::text::{
    ascii_lowercase, contains, decimal, lowercase, number_to_string, occurs, occurs_at,
    starts_with,
};

verus! {

/// A string that holds a pattern is something before it, the pattern, and
/// something behind it.
pub(crate) proof fn lemma_occurs_splits(s: Seq<char>, pattern: Seq<char>)
    ensures
        occurs(s, pattern) <==> exists|before: Seq<char>, after: Seq<char>|
            s == #[trigger] (before + pattern + after),
{
    if occurs(s, pattern) {
        let i = choose|i: int| occurs_at(s, pattern, i);
        let before = s.subrange(0, i);
        let after = s.subrange(i + pattern.len(), s.len() as int);
        assert(s =~= before + pattern + after) by {
            assert forall|k: int| 0 <= k < pattern.len() implies s[i + k] == pattern[k] by {
                assert(s.subrange(i, i + pattern.len())[k] == pattern[k]);
            }
        }
    }
    if exists|before: Seq<char>, after: Seq<char>| s == #[trigger] (before + pattern + after) {
        let (before, after) = choose|before: Seq<char>, after: Seq<char>|
            s == #[trigger] (before + pattern + after);
        let i = before.len() as int;
        assert(s.subrange(i, i + pattern.len()) =~= pattern);
        assert(occurs_at(s, pattern, i));
    }
}

/// A pattern is found in a string exactly where the string is something, the
/// pattern, and something.
pub proof fn law_contains_finds_any_place(s: &str, pattern: &str, res: bool)
    requires
        call_ensures(contains, (s, pattern), res),
    ensures
        res <==> exists|before: Seq<char>, after: Seq<char>|
            s@ == #[trigger] (before + pattern@ + after),
{
    lemma_occurs_splits(s@, pattern@);
}

/// A string starts with a pattern exactly where it is the pattern and something.
pub proof fn law_starts_with_reads_the_front(s: &str, pattern: &str, res: bool)
    requires
        call_ensures(starts_with, (s, pattern), res),
    ensures
        res <==> exists|after: Seq<char>| s@ == #[trigger] (pattern@ + after),
{
    if res {
        assert(s@ =~= pattern@ + s@.subrange(pattern@.len() as int, s@.len() as int)) by {
            assert forall|k: int| 0 <= k < pattern@.len() implies s@[k] == pattern@[k] by {
                assert(s@.subrange(0, pattern@.len() as int)[k] == pattern@[k]);
            }
        }
    }
    if exists|after: Seq<char>| s@ == #[trigger] (pattern@ + after) {
        assert(s@.subrange(0, pattern@.len() as int) =~= pattern@);
    }
}

/// The number that decimal digits write.
pub open spec fn digits_value(digits: Seq<char>) -> int
    decreases digits.len(),
{
    if digits.len() == 0 {
        0
    } else {
        10 * digits_value(digits.drop_last()) + (digits.last() as int - '0' as int)
    }
}

/// The decimal notation of a number reads back as that number, is made of digits,
/// and has no leading zero.
pub proof fn law_decimal_reads_back(n: nat)
    ensures
        digits_value(decimal(n)) == n,
        decimal(n).len() > 0,
        forall|i: int| 0 <= i < decimal(n).len() ==> '0' <= #[trigger] decimal(n)[i] <= '9',
        decimal(n)[0] == '0' ==> n == 0 && decimal(n).len() == 1,
    decreases n,
{
    reveal_with_fuel(digits_value, 2);
    if n >= 10 {
        law_decimal_reads_back(n / 10);
        assert(decimal(n).drop_last() =~= decimal(n / 10));
        assert(decimal(n)[0] == decimal(n / 10)[0]);
    } else {
        assert(decimal(n).drop_last() =~= Seq::<char>::empty());
    }
}

/// A number is written as the digits that read back as it.
pub proof fn law_number_reads_back(n: usize, res: String)
    requires
        call_ensures(number_to_string, (n,), res),
    ensures
        digits_value(res@) == n,
        res@.len() > 0,
        forall|i: int| 0 <= i < res@.len() ==> '0' <= #[trigger] res@[i] <= '9',
        res@[0] == '0' ==> res@.len() == 1,
{
    law_decimal_reads_back(n as nat);
}

/// `lowered` is an ASCII string with its capital letters made small.
pub open spec fn is_ascii_lowered(s: Seq<char>, lowered: Seq<char>) -> bool {
    &&& is_ascii_chars(s)
    &&& lowered.len() == s.len()
    &&& forall|i: int|
        #![trigger lowered[i]]
        0 <= i < s.len() ==> if 'A' <= s[i] <= 'Z' {
            lowered[i] as int == s[i] as int + ('a' as int - 'A' as int)
        } else {
            lowered[i] == s[i]
        }
}

/// The lower case of an ASCII string has its capital letters made small, and is
/// the only string that has.
pub proof fn law_ascii_lowercase_makes_letters_small(s: Seq<char>, lowered: Seq<char>)
    requires
        is_ascii_chars(s),
    ensures
        is_ascii_lowered(s, ascii_lowercase(s)),
        is_ascii_lowered(s, lowered) ==> lowered == ascii_lowercase(s),
{
    if is_ascii_lowered(s, lowered) {
        assert(lowered =~= ascii_lowercase(s));
    }
}

/// A buffer has the number that it was made with, and only zero makes none.
pub proof fn law_buffer_keeps_its_number(id: u64, res: Option<BufferId>, number: u64)
    requires
        call_ensures(BufferId::new, (id,), res),
        res matches Some(buffer_id) ==> call_ensures(BufferId::to_u64, (&buffer_id,), number),
    ensures
        res is None <==> id == 0,
        res is Some ==> number == id,
{
}

/// An anchor is shown at its own point.
pub proof fn law_anchor_is_at_its_point(anchor: Anchor, res: Point)
    requires
        call_ensures(Anchor::to_point, (&anchor,), res),
    ensures
        anchor is InExcerpt ==> res == anchor->InExcerpt_point,
        anchor is At ==> res == anchor->At_point,
        anchor.point() == res,
{
}

/// A buffer's anchor is found exactly where an excerpt shows it, at the point
/// where it is shown.
pub proof fn law_anchor_is_found_where_it_is_shown(
    snapshot: MultiBufferSnapshot,
    text_anchor: TextAnchor,
    res: Option<Anchor>,
)
    requires
        call_ensures(MultiBufferSnapshot::anchor_in_excerpt, (&snapshot, text_anchor), res),
    ensures
        res is Some <==> snapshot.shown_points@.contains_key(text_anchor.id),
        res is Some ==> res->Some_0 is InExcerpt,
        res is Some ==> res->Some_0->InExcerpt_text_anchor == text_anchor,
        res is Some ==> res->Some_0->InExcerpt_point == snapshot.shown_points@[text_anchor.id],
{
}

/// A line is indented as the text says, and not at all where it says nothing.
pub proof fn law_indent_is_that_of_the_text(snapshot: MultiBufferSnapshot, row: u32, res: u32)
    requires
        call_ensures(MultiBufferSnapshot::indent_size_for_line, (&snapshot, row), res),
    ensures
        snapshot.line_indents@.contains_key(row) ==> res == snapshot.line_indents@[row],
        !snapshot.line_indents@.contains_key(row) ==> res == 0,
{
}

/// The anchor at a point is shown at that point and sticks to the given side.
pub proof fn law_anchor_at_a_point(
    snapshot: MultiBufferSnapshot,
    point: Point,
    bias: Bias,
    res: Anchor,
)
    requires
        call_ensures(MultiBufferSnapshot::anchor_at, (&snapshot, point, bias), res),
    ensures
        res is At,
        res->At_point == point,
        res->At_bias == bias,
        res.point() == point,
{
}

/// A title starts with a zero and a blank.
pub open spec fn counts_nothing(title: Seq<char>) -> bool {
    title.len() >= 2 && title[0] == '0' && title[1] == ' '
}

/// A lens is hidden exactly where its title's first character is a zero and the
/// second a blank.
pub proof fn law_only_zero_counts_are_hidden(title: &str, res: bool)
    requires
        call_ensures(should_hide_lens, (title,), res),
    ensures
        res <==> title@.len() >= 2 && title@[0] == '0' && title@[1] == ' ',
        res <==> counts_nothing(title@),
{
    lemma_hidden_title(title@);
}

/// A hidden title starts with a zero and a blank, and such a title is hidden.
pub(crate) proof fn lemma_hidden_title(title: Seq<char>)
    ensures
        is_hidden_title(title) <==> counts_nothing(title),
{
    reveal_strlit("0 ");
    if is_hidden_title(title) {
        assert(title.subrange(0, 2)[0] == '0');
        assert(title.subrange(0, 2)[1] == ' ');
    }
    if counts_nothing(title) {
        assert(title.subrange(0, 2) =~= "0 "@);
    }
}

/// The string holds the word "reference".
pub open spec fn names_references(s: Seq<char>) -> bool {
    exists|before: Seq<char>, after: Seq<char>| s == #[trigger] (before + "reference"@ + after)
}

/// The string holds the word "implementation".
pub open spec fn names_implementations(s: Seq<char>) -> bool {
    exists|before: Seq<char>, after: Seq<char>|
        s == #[trigger] (before + "implementation"@ + after)
}

/// A title in lower case that holds "reference" anywhere, with anything around it,
/// is one of references; one that holds "implementation" but not "reference" is one
/// of implementations; any other is of no such kind.
pub proof fn law_lowered_kind_is_the_word_it_holds(title_lower: &str, res: CodeLensKind)
    requires
        call_ensures(detect_lowered_lens_kind, (title_lower,), res),
    ensures
        res == CodeLensKind::References <==> names_references(title_lower@),
        res == CodeLensKind::Implementations <==> names_implementations(title_lower@)
            && !names_references(title_lower@),
        res == CodeLensKind::Other <==> !names_implementations(title_lower@)
            && !names_references(title_lower@),
{
    lemma_occurs_splits(title_lower@, "reference"@);
    lemma_occurs_splits(title_lower@, "implementation"@);
}

/// The kind of a lens is the word that its title holds once it is in lower case.
pub proof fn law_kind_is_the_word_it_holds(title: &str, res: CodeLensKind)
    requires
        call_ensures(detect_lens_kind, (title,), res),
    ensures
        res == CodeLensKind::References <==> names_references(lowercase(title@)),
        res == CodeLensKind::Implementations <==> names_implementations(lowercase(title@))
            && !names_references(lowercase(title@)),
        res == CodeLensKind::Other <==> !names_implementations(lowercase(title@))
            && !names_references(lowercase(title@)),
{
    lemma_occurs_splits(lowercase(title@), "reference"@);
    lemma_occurs_splits(lowercase(title@), "implementation"@);
}

/// The kind of a lens with a title in ASCII is the word that the title holds in
/// small or capital letters.
pub proof fn law_kind_of_an_ascii_title(title: &str, lowered: Seq<char>, res: CodeLensKind)
    requires
        call_ensures(detect_lens_kind, (title,), res),
        is_ascii_lowered(title@, lowered),
    ensures
        res == CodeLensKind::References <==> names_references(lowered),
        res == CodeLensKind::Implementations <==> names_implementations(lowered)
            && !names_references(lowered),
        res == CodeLensKind::Other <==> !names_implementations(lowered)
            && !names_references(lowered),
{
    law_ascii_lowercase_makes_letters_small(title@, lowered);
    lemma_occurs_splits(lowered, "reference"@);
    lemma_occurs_splits(lowered, "implementation"@);
}

/// Two titles in ASCII that differ only in capital letters have the same kind.
pub proof fn law_kind_ignores_capital_letters(
    title: &str,
    other: &str,
    lowered: Seq<char>,
    res: CodeLensKind,
    other_res: CodeLensKind,
)
    requires
        call_ensures(detect_lens_kind, (title,), res),
        call_ensures(detect_lens_kind, (other,), other_res),
        is_ascii_lowered(title@, lowered),
        is_ascii_lowered(other@, lowered),
    ensures
        res == other_res,
{
    law_kind_of_an_ascii_title(title, lowered, res);
    law_kind_of_an_ascii_title(other, lowered, other_res);
}

} // verus!
