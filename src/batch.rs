//! Batches of entries: parallel generation and duplicate repair.

use crate::ident::{is_entry, new_entry};
use crate::style::FormatStyle;
use rayon::iter::{IntoParallelIterator, ParallelIterator};
use vstd::hash_set::StringHashSet;
use vstd::prelude::*;

verus! {

/// How many draws the repair makes for one slot before it gives up.
pub const MAX_ATTEMPTS: u32 = 64;

/// The repair could not find a fresh entry within `MAX_ATTEMPTS` draws.
#[derive(Clone, Copy, Debug, PartialEq, Eq, Structural)]
pub enum DedupError {
    Exhausted,
}

/// The texts of a batch.
pub open spec fn texts(v: Seq<String>) -> Seq<Seq<char>> {
    v.map_values(|s: String| s@)
}

/// The entries of `s` that do not repeat an earlier entry, in their order.
pub open spec fn first_occurrences(s: Seq<Seq<char>>) -> Seq<Seq<char>>
    decreases s.len(),
{
    if s.len() == 0 {
        seq![]
    } else if s.drop_last().contains(s.last()) {
        first_occurrences(s.drop_last())
    } else {
        first_occurrences(s.drop_last()).push(s.last())
    }
}

/// Whether every entry of `s` from position `from` on is an entry in `style`.
pub open spec fn entries_from(s: Seq<Seq<char>>, from: int, style: FormatStyle) -> bool {
    forall|i: int| from <= i < s.len() ==> is_entry(#[trigger] s[i], style)
}

/// Relies on rayon: an indexed parallel map over `0..count` collected into a
/// `Vec` yields one item per index, in index order, each the closure's result
/// (here a verified `new_entry`).
#[verifier::external_body]
fn par_new_entries(count: u32, style: FormatStyle) -> (r: Vec<String>)
    ensures
        r.len() == count,
        entries_from(texts(r@), 0, style),
{
    (0..count).into_par_iter().map(|_| new_entry(style)).collect()
}

/// `count` freshly generated entries in the given style, drawn in parallel.
pub fn generate_uuids(count: u32, style: FormatStyle) -> (r: Vec<String>)
    ensures
        r.len() == count,
        entries_from(texts(r@), 0, style),
{
    par_new_entries(count, style)
}

/// Keeping the first occurrence of each entry drops no value, repeats none,
/// and never lengthens the sequence.
pub proof fn lemma_first_occurrences(s: Seq<Seq<char>>)
    ensures
        first_occurrences(s).len() <= s.len(),
        first_occurrences(s).no_duplicates(),
        forall|x: Seq<char>| #[trigger] first_occurrences(s).contains(x) <==> s.contains(x),
    decreases s.len(),
{
    if s.len() > 0 {
        let p = s.drop_last();
        lemma_first_occurrences(p);
        assert forall|x: Seq<char>| #[trigger] s.contains(x) <==> (p.contains(x) || x == s.last()) by {
            if s.contains(x) {
                let j = choose|j: int| 0 <= j < s.len() && s[j] == x;
                if j < s.len() - 1 {
                    assert(p[j] == x);
                }
            }
            if p.contains(x) {
                let j = choose|j: int| 0 <= j < p.len() && p[j] == x;
                assert(s[j] == x);
            }
            if x == s.last() {
                assert(s[s.len() - 1] == x);
            }
        }
        if !p.contains(s.last()) {
            let f = first_occurrences(p);
            let g = f.push(s.last());
            assert forall|x: Seq<char>| #[trigger] g.contains(x) <==> (f.contains(x) || x == s.last()) by {
                if g.contains(x) {
                    let j = choose|j: int| 0 <= j < g.len() && g[j] == x;
                    if j < f.len() {
                        assert(f[j] == x);
                    }
                }
                if f.contains(x) {
                    let j = choose|j: int| 0 <= j < f.len() && f[j] == x;
                    assert(g[j] == x);
                }
                if x == s.last() {
                    assert(g[g.len() - 1] == x);
                }
            }
            assert forall|i: int, j: int| 0 <= i < g.len() && 0 <= j < g.len() && i != j implies g[i]
                != g[j] by {
                if i == g.len() - 1 {
                    assert(f.contains(g[j]));
                } else if j == g.len() - 1 {
                    assert(f.contains(g[i]));
                }
            }
        }
    }
}

/// Pushing a value that `s` lacks keeps `s` free of duplicates.
proof fn lemma_push_fresh(s: Seq<Seq<char>>, x: Seq<char>)
    requires
        !s.contains(x),
    ensures
        s.no_duplicates() ==> s.push(x).no_duplicates(),
        s.push(x).to_set() == s.to_set().insert(x),
{
    let g = s.push(x);
    if s.no_duplicates() {
        assert forall|i: int, j: int| 0 <= i < g.len() && 0 <= j < g.len() && i != j implies g[i]
            != g[j] by {
            if i == g.len() - 1 {
                assert(s.contains(g[j]));
            } else if j == g.len() - 1 {
                assert(s.contains(g[i]));
            }
        }
    }
    lemma_push_to_set(s, x);
}

/// The set of a sequence grown by one value.
proof fn lemma_push_to_set(s: Seq<Seq<char>>, x: Seq<char>)
    ensures
        s.push(x).to_set() == s.to_set().insert(x),
{
    let g = s.push(x);
    assert forall|y: Seq<char>| #[trigger] g.contains(y) <==> (s.contains(y) || y == x) by {
        if g.contains(y) {
            let j = choose|j: int| 0 <= j < g.len() && g[j] == y;
            if j < s.len() {
                assert(s[j] == y);
            }
        }
        if s.contains(y) {
            let j = choose|j: int| 0 <= j < s.len() && s[j] == y;
            assert(g[j] == y);
        }
        if y == x {
            assert(g[g.len() - 1] == y);
        }
    }
    assert(g.to_set() =~= s.to_set().insert(x));
}

/// Reduces the batch to the first occurrence of each entry and returns the
/// set of the entries kept.
fn keep_first(uuids: &mut Vec<String>) -> (seen: StringHashSet)
    ensures
        texts(final(uuids)@) == first_occurrences(texts(old(uuids)@)),
        texts(final(uuids)@).no_duplicates(),
        seen@ == texts(final(uuids)@).to_set(),
{
    let ghost orig = texts(uuids@);
    let mut seen = StringHashSet::new();
    let mut kept: Vec<String> = Vec::new();
    let mut i: usize = 0;
    proof {
        assert(orig.take(0) =~= seq![]);
        assert(texts(kept@) =~= seq![]);
        assert(seen@ =~= texts(kept@).to_set());
    }
    while i < uuids.len()
        invariant
            0 <= i <= uuids.len(),
            texts(uuids@) == orig,
            texts(kept@) == first_occurrences(orig.take(i as int)),
            texts(kept@).no_duplicates(),
            seen@ == texts(kept@).to_set(),
            seen@ == orig.take(i as int).to_set(),
        decreases uuids.len() - i,
    {
        let s = &uuids[i];
        let ghost before = texts(kept@);
        let ghost pre = orig.take(i as int);
        let ghost next = orig.take(i + 1);
        proof {
            assert(next.drop_last() =~= pre);
            assert(next.last() == s@);
            assert(next.to_set() =~= pre.to_set().insert(s@));
        }
        if !seen.contains(s.as_str()) {
            proof {
                lemma_push_fresh(before, s@);
            }
            seen.insert(s.clone());
            kept.push(s.clone());
            assert(texts(kept@) =~= before.push(s@));
        } else {
            assert(pre.to_set().contains(s@));
            assert(next.to_set() =~= pre.to_set());
        }
        i += 1;
    }
    assert(orig.take(i as int) =~= orig);
    *uuids = kept;
    seen
}

/// Whether every candidate is already in the batch.
pub open spec fn all_taken(batch: Seq<Seq<char>>, cands: Seq<Seq<char>>) -> bool {
    forall|j: int| 0 <= j < cands.len() ==> batch.contains(#[trigger] cands[j])
}

/// Whether `cands[i]` is the first candidate that the batch lacks.
pub open spec fn is_first_fresh(batch: Seq<Seq<char>>, cands: Seq<Seq<char>>, i: int) -> bool {
    &&& 0 <= i < cands.len()
    &&& !batch.contains(cands[i])
    &&& forall|j: int| 0 <= j < i ==> batch.contains(#[trigger] cands[j])
}

/// Appends the first candidate that the batch lacks, given the set of the
/// batch's entries; says whether there was one.
fn fill_slot_in(uuids: &mut Vec<String>, seen: &mut StringHashSet, candidates: &Vec<String>) -> (placed: bool)
    requires
        old(seen)@ == texts(old(uuids)@).to_set(),
    ensures
        placed == !all_taken(texts(old(uuids)@), texts(candidates@)),
        placed ==> exists|i: int|
            is_first_fresh(texts(old(uuids)@), texts(candidates@), i) && texts(final(uuids)@)
                == #[trigger] texts(old(uuids)@).push(texts(candidates@)[i]),
        !placed ==> final(uuids)@ == old(uuids)@,
        final(seen)@ == texts(final(uuids)@).to_set(),
        texts(old(uuids)@).no_duplicates() ==> texts(final(uuids)@).no_duplicates(),
{
    let ghost before = texts(uuids@);
    let ghost cands = texts(candidates@);
    let mut i: usize = 0;
    while i < candidates.len()
        invariant
            0 <= i <= candidates.len(),
            uuids@ == old(uuids)@,
            before == texts(uuids@),
            cands == texts(candidates@),
            seen@ == before.to_set(),
            forall|j: int| 0 <= j < i ==> before.contains(#[trigger] cands[j]),
        decreases candidates.len() - i,
    {
        if !seen.contains(candidates[i].as_str()) {
            let c = candidates[i].clone();
            proof {
                lemma_push_fresh(before, c@);
            }
            seen.insert(c.clone());
            uuids.push(c);
            assert(texts(uuids@) =~= before.push(cands[i as int]));
            assert(is_first_fresh(before, cands, i as int));
            assert(!before.contains(cands[i as int]));
            return true;
        }
        i += 1;
    }
    false
}

/// Appends to the batch the first candidate that the batch lacks; says
/// whether there was one.
pub fn fill_slot(uuids: &mut Vec<String>, candidates: &Vec<String>) -> (placed: bool)
    ensures
        placed == !all_taken(texts(old(uuids)@), texts(candidates@)),
        placed ==> exists|i: int|
            is_first_fresh(texts(old(uuids)@), texts(candidates@), i) && texts(final(uuids)@)
                == #[trigger] texts(old(uuids)@).push(texts(candidates@)[i]),
        !placed ==> final(uuids)@ == old(uuids)@,
        texts(old(uuids)@).no_duplicates() ==> texts(final(uuids)@).no_duplicates(),
{
    let ghost all = texts(uuids@);
    let mut seen = StringHashSet::new();
    let mut i: usize = 0;
    assert(seen@ =~= all.take(0).to_set());
    while i < uuids.len()
        invariant
            0 <= i <= uuids.len(),
            all == texts(uuids@),
            seen@ == all.take(i as int).to_set(),
        decreases uuids.len() - i,
    {
        assert(all.take(i + 1) =~= all.take(i as int).push(all[i as int]));
        proof {
            lemma_push_to_set(all.take(i as int), all[i as int]);
        }
        seen.insert(uuids[i].clone());
        i += 1;
    }
    assert(all.take(i as int) =~= all);
    fill_slot_in(uuids, &mut seen, candidates)
}

/// What the repair guarantees of the batch `after`, made from `before`,
/// whether or not it found every replacement.
pub open spec fn repaired(before: Seq<Seq<char>>, after: Seq<Seq<char>>, style: FormatStyle) -> bool {
    let kept = first_occurrences(before);
    &&& kept.len() <= after.len() <= before.len()
    &&& after.no_duplicates()
    &&& after.take(kept.len() as int) == kept
    &&& entries_from(after, kept.len() as int, style)
}

/// Removes every entry that repeats an earlier one, keeping the first
/// occurrences in order, then refills each removed slot: it draws
/// `MAX_ATTEMPTS` fresh entries in `style` and appends the first of them that
/// the batch lacks. Returns whether duplicates were found and how many were
/// removed. Fails with `Exhausted` when every draw for a slot was already in
/// the batch.
pub fn remove_duplicates(uuids: &mut Vec<String>, style: FormatStyle) -> (r: Result<
    (bool, u32),
    DedupError,
>)
    requires
        old(uuids).len() <= u32::MAX,
    ensures
        repaired(texts(old(uuids)@), texts(final(uuids)@), style),
        first_occurrences(texts(old(uuids)@)).len() == old(uuids).len() ==> r.is_ok(),
        match r {
            Ok((found, n)) => {
                &&& final(uuids).len() == old(uuids).len()
                &&& n == old(uuids).len() - first_occurrences(texts(old(uuids)@)).len()
                &&& found == (n > 0)
            },
            Err(_) => {
                &&& final(uuids).len() < old(uuids).len()
                &&& exists|c: Seq<Seq<char>>|
                    #![trigger all_taken(texts(final(uuids)@), c)]
                    c.len() == MAX_ATTEMPTS && entries_from(c, 0, style) && all_taken(
                        texts(final(uuids)@),
                        c,
                    )
            },
        },
{
    let ghost before = texts(uuids@);
    let n0 = uuids.len();
    let mut seen = keep_first(uuids);
    let ghost kept = texts(uuids@);
    proof {
        lemma_first_occurrences(before);
        assert(texts(uuids@).take(kept.len() as int) =~= kept);
    }
    let removed = n0 - uuids.len();
    let mut k: usize = 0;
    while k < removed
        invariant
            k <= removed,
            n0 == before.len(),
            before == texts(old(uuids)@),
            kept == first_occurrences(before),
            kept.len() <= n0,
            removed == n0 - kept.len(),
            uuids.len() == kept.len() + k,
            texts(uuids@).take(kept.len() as int) == kept,
            texts(uuids@).no_duplicates(),
            seen@ == texts(uuids@).to_set(),
            entries_from(texts(uuids@), kept.len() as int, style),
        decreases removed - k,
    {
        let candidates = generate_uuids(MAX_ATTEMPTS, style);
        let ghost prev = texts(uuids@);
        let ghost cands = texts(candidates@);
        assert(prev.len() == uuids.len());
        let placed = fill_slot_in(uuids, &mut seen, &candidates);
        if !placed {
            assert(texts(uuids@) == prev);
            assert(cands.len() == MAX_ATTEMPTS);
            assert(all_taken(texts(uuids@), cands));
            return Err(DedupError::Exhausted);
        }
        proof {
            let i = choose|i: int|
                is_first_fresh(prev, cands, i) && texts(uuids@) == #[trigger] prev.push(cands[i]);
            assert(texts(uuids@).len() == uuids.len());
            assert(texts(uuids@).take(kept.len() as int) =~= prev.take(kept.len() as int));
            assert(texts(uuids@)[prev.len() as int] == cands[i]);
        }
        k += 1;
    }
    Ok((removed > 0, removed as u32))
}

} // verus!
