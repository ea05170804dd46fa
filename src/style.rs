//! Presentation styles of an identifier and of a whole batch.

use vstd::prelude::*;

verus! {

/// How each identifier is rendered, and how the whole batch is framed.
#[derive(Clone, Copy, Debug, PartialEq, Eq, Structural)]
pub enum FormatStyle {
    /// `<id>`
    Bare,
    /// `<id>,`
    BareComma,
    /// `"<id>"`
    Quoted,
    /// `"<id>",`
    QuotedComma,
    /// `"<id>",` per item, the batch framed by `[` and `]`
    BracketList,
    /// `"<id>",` per item, the batch framed by `{` and `}`
    BraceList,
}

/// The style a textual tag selects; an unknown tag selects `Bare`.
pub open spec fn style_of(tag: Seq<char>) -> FormatStyle {
    if tag == seq!['u'] {
        FormatStyle::Bare
    } else if tag == seq!['u', 'l'] {
        FormatStyle::BareComma
    } else if tag == seq!['q'] {
        FormatStyle::Quoted
    } else if tag == seq!['q', 'l'] {
        FormatStyle::QuotedComma
    } else if tag == seq!['q', 'l', 'b'] {
        FormatStyle::BracketList
    } else if tag == seq!['q', 'l', 'b', 'l'] {
        FormatStyle::BraceList
    } else {
        FormatStyle::Bare
    }
}

/// Whether the style frames the batch as a list.
pub open spec fn is_list(style: FormatStyle) -> bool {
    style == FormatStyle::BracketList || style == FormatStyle::BraceList
}

impl FormatStyle {
    /// Reads a style tag: `u`, `ul`, `q`, `ql`, `qlb` or `qlbl`.
    /// Any other tag falls back to `Bare`; it is not an error.
    pub fn from_tag(tag: &str) -> (r: FormatStyle)
        ensures
            r == style_of(tag@),
    {
        let n = tag.unicode_len();
        if n == 0 || n > 4 {
            return FormatStyle::Bare;
        }
        let c0 = tag.get_char(0);
        if n == 1 {
            if c0 == 'u' {
                assert(tag@ =~= seq!['u']);
                return FormatStyle::Bare;
            } else if c0 == 'q' {
                assert(tag@ =~= seq!['q']);
                return FormatStyle::Quoted;
            }
            return FormatStyle::Bare;
        }
        let c1 = tag.get_char(1);
        if c1 != 'l' {
            return FormatStyle::Bare;
        }
        if n == 2 {
            if c0 == 'u' {
                assert(tag@ =~= seq!['u', 'l']);
                return FormatStyle::BareComma;
            } else if c0 == 'q' {
                assert(tag@ =~= seq!['q', 'l']);
                return FormatStyle::QuotedComma;
            }
            return FormatStyle::Bare;
        }
        let c2 = tag.get_char(2);
        if c0 != 'q' || c2 != 'b' {
            return FormatStyle::Bare;
        }
        if n == 3 {
            assert(tag@ =~= seq!['q', 'l', 'b']);
            return FormatStyle::BracketList;
        }
        let c3 = tag.get_char(3);
        if c3 == 'l' {
            assert(tag@ =~= seq!['q', 'l', 'b', 'l']);
            FormatStyle::BraceList
        } else {
            FormatStyle::Bare
        }
    }

    /// Whether this style frames the batch as a list.
    pub fn is_list(&self) -> (r: bool)
        ensures
            r == is_list(*self),
    {
        match self {
            FormatStyle::BracketList | FormatStyle::BraceList => true,
            _ => false,
        }
    }
}

} // verus!
