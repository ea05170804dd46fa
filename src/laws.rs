//! Laws that hold of every entry and every assembled text.

use crate::ident::{canonical_text, is_entry, styled};
use crate::output::{assembled, join};
use crate::style::{is_list, FormatStyle};
use vstd::prelude::*;

verus! {

/// Every entry follows its style's template: the 36-character canonical
/// identifier, quoted for the quoted styles, followed by a comma for the
/// comma styles, and nothing else.
pub proof fn lemma_entry_template(s: Seq<char>, style: FormatStyle)
    requires
        is_entry(s, style),
    ensures
        style == FormatStyle::Bare ==> s.len() == 36,
        style == FormatStyle::BareComma ==> s.len() == 37 && s[36] == ',',
        style == FormatStyle::Quoted ==> s.len() == 38 && s[0] == '"' && s[37] == '"',
        !(style == FormatStyle::Bare || style == FormatStyle::BareComma || style
            == FormatStyle::Quoted) ==> s.len() == 39 && s[0] == '"' && s[37] == '"' && s[38]
            == ',',
        exists|v: u128|
            #[trigger] canonical_text(v) == s.subrange(
                if style == FormatStyle::Bare || style == FormatStyle::BareComma {
                    0int
                } else {
                    1int
                },
                if style == FormatStyle::Bare || style == FormatStyle::BareComma {
                    36int
                } else {
                    37int
                },
            ),
{
    let v = choose|v: u128| crate::ident::is_v4(v) && s == #[trigger] styled(canonical_text(v), style);
    let id = canonical_text(v);
    match style {
        FormatStyle::Bare => {
            assert(s.subrange(0, 36) =~= id);
        },
        FormatStyle::BareComma => {
            assert(s.subrange(0, 36) =~= id);
        },
        _ => {
            assert(s.subrange(1, 37) =~= id);
        },
    }
}

/// The list styles always frame the tab-joined body, whatever the batch;
/// an empty batch gives an empty-bodied frame.
pub proof fn lemma_list_framing(items: Seq<Seq<char>>)
    ensures
        assembled(items, FormatStyle::BracketList) == seq!['[', '\n', '\t'] + join(
            items,
            seq!['\n', '\t'],
        ) + seq!['\n', ']'],
        assembled(items, FormatStyle::BraceList) == seq!['{', '\n', '\t'] + join(
            items,
            seq!['\n', '\t'],
        ) + seq!['\n', '}'],
        items.len() == 0 ==> assembled(items, FormatStyle::BracketList) == seq![
            '[',
            '\n',
            '\t',
            '\n',
            ']',
        ],
        items.len() == 0 ==> assembled(items, FormatStyle::BraceList) == seq![
            '{',
            '\n',
            '\t',
            '\n',
            '}',
        ],
{
    if items.len() == 0 {
        assert(assembled(items, FormatStyle::BracketList) =~= seq!['[', '\n', '\t', '\n', ']']);
        assert(assembled(items, FormatStyle::BraceList) =~= seq!['{', '\n', '\t', '\n', '}']);
    }
}

/// The other styles drop at most one character from the newline-joined
/// text, and only a final comma; the list styles drop nothing.
pub proof fn lemma_strip_at_most_one(items: Seq<Seq<char>>, style: FormatStyle)
    ensures
        !is_list(style) ==> {
            let j = join(items, seq!['\n']);
            ||| assembled(items, style) == j
            ||| (j.len() > 0 && j.last() == ',' && assembled(items, style) == j.drop_last())
        },
        is_list(style) ==> assembled(items, style).len() == join(items, seq!['\n', '\t']).len()
            + 5,
{
}

} // verus!
