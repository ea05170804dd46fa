//! One run: generate, optionally repair duplicates, assemble.

use crate::batch::{
    entries_from, first_occurrences, generate_uuids, lemma_first_occurrences, remove_duplicates,
    repaired, texts, DedupError,
};
use crate::output::{assembled, format_output};
use crate::style::FormatStyle;
use vstd::prelude::*;

verus! {

/// What one run is asked to do.
#[derive(Clone, Copy, Debug, PartialEq, Eq, Structural)]
pub struct RunConfig {
    /// How many identifiers to generate.
    pub count: u32,
    /// How each entry and the whole text are rendered.
    pub style: FormatStyle,
    /// Whether duplicates are removed and replaced.
    pub check: bool,
}

/// What one run produced.
pub struct RunReport {
    /// The final batch of entries.
    pub entries: Vec<String>,
    /// The assembled output text of the batch.
    pub text: String,
    /// Whether the repair found duplicates.
    pub duplicates_found: bool,
    /// How many duplicates the repair removed and replaced.
    pub duplicates: u32,
}

/// Generates `config.count` entries, repairs duplicates when `config.check`
/// is set, and assembles the output text. Fails only when the repair gives up.
pub fn run(config: &RunConfig) -> (r: Result<RunReport, DedupError>)
    ensures
        !config.check ==> r.is_ok(),
        config.count <= 1 ==> r.is_ok(),
        r.is_err() ==> r == Err::<RunReport, DedupError>(DedupError::Exhausted),
        match r {
            Ok(rep) => {
                &&& rep.entries.len() == config.count
                &&& entries_from(texts(rep.entries@), 0, config.style)
                &&& rep.text@ == assembled(texts(rep.entries@), config.style)
                &&& config.check ==> texts(rep.entries@).no_duplicates()
                &&& rep.duplicates_found == (rep.duplicates > 0)
                &&& !config.check ==> rep.duplicates == 0
                &&& config.check ==> exists|drawn: Seq<Seq<char>>|
                    #![trigger first_occurrences(drawn)]
                    {
                        &&& drawn.len() == config.count
                        &&& entries_from(drawn, 0, config.style)
                        &&& rep.duplicates == drawn.len() - first_occurrences(drawn).len()
                        &&& texts(rep.entries@).take(first_occurrences(drawn).len() as int)
                            == first_occurrences(drawn)
                    }
            },
            Err(_) => true,
        },
{
    let mut entries = generate_uuids(config.count, config.style);
    proof {
        let drawn = texts(entries@);
        if drawn.len() == 1 {
            assert(drawn.drop_last() =~= Seq::<Seq<char>>::empty());
            assert(first_occurrences(drawn.drop_last()).len() == 0);
        } else if drawn.len() == 0 {
            assert(first_occurrences(drawn).len() == 0);
        }
    }
    let mut duplicates_found = false;
    let mut duplicates: u32 = 0;
    if config.check {
        let ghost before = texts(entries@);
        match remove_duplicates(&mut entries, config.style) {
            Ok((found, n)) => {
                duplicates_found = found;
                duplicates = n;
                proof {
                    let after = texts(entries@);
                    let kept = first_occurrences(before);
                    lemma_first_occurrences(before);
                    assert(repaired(before, after, config.style));
                    assert(before.len() == config.count);
                    assert forall|i: int| 0 <= i < after.len() implies crate::ident::is_entry(
                        #[trigger] after[i],
                        config.style,
                    ) by {
                        if i < kept.len() {
                            assert(after.take(kept.len() as int)[i] == after[i]);
                            assert(kept.contains(kept[i]));
                        }
                    }
                }
            },
            Err(e) => {
                return Err(e);
            },
        }
    }
    let text = format_output(entries.as_slice(), config.style);
    Ok(RunReport { entries, text, duplicates_found, duplicates })
}

} // verus!
