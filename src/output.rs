//! Assembly of a batch into the final output text.

use crate::batch::texts;
use crate::style::{is_list, FormatStyle};
use vstd::prelude::*;

verus! {

/// The items joined with `sep` between each two neighbours.
pub open spec fn join(items: Seq<Seq<char>>, sep: Seq<char>) -> Seq<char>
    decreases items.len(),
{
    if items.len() == 0 {
        seq![]
    } else if items.len() == 1 {
        items[0]
    } else {
        join(items.drop_last(), sep) + sep + items.last()
    }
}

/// `s` without its last character if that character is a comma.
pub open spec fn strip_one_comma(s: Seq<char>) -> Seq<char> {
    if s.len() > 0 && s.last() == ',' {
        s.drop_last()
    } else {
        s
    }
}

/// `[`, newline, tab, then the body, newline, `]`.
pub open spec fn bracketed(body: Seq<char>) -> Seq<char> {
    seq!['[', '\n', '\t'] + body + seq!['\n', ']']
}

/// `{`, newline, tab, then the body, newline, `}`.
pub open spec fn braced(body: Seq<char>) -> Seq<char> {
    seq!['{', '\n', '\t'] + body + seq!['\n', '}']
}

/// The output text for a batch: list styles frame the tab-indented lines;
/// the other styles join the lines and drop one final comma, if any.
pub open spec fn assembled(items: Seq<Seq<char>>, style: FormatStyle) -> Seq<char> {
    match style {
        FormatStyle::BracketList => bracketed(join(items, seq!['\n', '\t'])),
        FormatStyle::BraceList => braced(join(items, seq!['\n', '\t'])),
        _ => strip_one_comma(join(items, seq!['\n'])),
    }
}

/// Joins the items with `sep`.
fn join_with(items: &[String], sep: &str) -> (r: String)
    ensures
        r@ == join(texts(items@), sep@),
{
    let ghost all = texts(items@);
    let mut out = String::new();
    let mut i: usize = 0;
    while i < items.len()
        invariant
            0 <= i <= items.len(),
            all == texts(items@),
            out@ == join(all.take(i as int), sep@),
        decreases items.len() - i,
    {
        let ghost next = all.take(i + 1);
        assert(next.drop_last() =~= all.take(i as int));
        if i > 0 {
            out.append(sep);
        }
        out.append(items[i].as_str());
        proof {
            if i == 0 {
                assert(all.take(0) =~= seq![]);
                assert(out@ =~= next[0]);
            } else {
                assert(out@ =~= join(next.drop_last(), sep@) + sep@ + next.last());
            }
        }
        i += 1;
    }
    assert(all.take(i as int) =~= all);
    out
}

/// The batch as one text in the given style: for `BracketList` and
/// `BraceList` the lines are tab-indented and framed; otherwise they are
/// joined by newlines and a single comma at the very end is dropped.
pub fn format_output(uuids: &[String], style: FormatStyle) -> (r: String)
    ensures
        r@ == assembled(texts(uuids@), style),
{
    proof {
        reveal_strlit("\n\t");
        reveal_strlit("\n");
        reveal_strlit("[\n\t");
        reveal_strlit("\n]");
        reveal_strlit("{\n\t");
        reveal_strlit("\n}");
        assert("\n\t"@ =~= seq!['\n', '\t']);
        assert("\n"@ =~= seq!['\n']);
        assert("[\n\t"@ =~= seq!['[', '\n', '\t']);
        assert("\n]"@ =~= seq!['\n', ']']);
        assert("{\n\t"@ =~= seq!['{', '\n', '\t']);
        assert("\n}"@ =~= seq!['\n', '}']);
    }
    match style {
        FormatStyle::BracketList => {
            let body = join_with(uuids, "\n\t");
            let r = String::from_str("[\n\t").concat(body.as_str()).concat("\n]");
            assert(r@ =~= assembled(texts(uuids@), style));
            r
        },
        FormatStyle::BraceList => {
            let body = join_with(uuids, "\n\t");
            let r = String::from_str("{\n\t").concat(body.as_str()).concat("\n}");
            assert(r@ =~= assembled(texts(uuids@), style));
            r
        },
        _ => {
            let body = join_with(uuids, "\n");
            let n = body.as_str().unicode_len();
            if n > 0 && body.as_str().get_char(n - 1) == ',' {
                let r = String::from_str(body.as_str().substring_char(0, n - 1));
                assert(r@ =~= body@.drop_last());
                r
            } else {
                body
            }
        },
    }
}

} // verus!
