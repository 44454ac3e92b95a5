//! The parent's conversation rows that a fork replays: rows are read page by
//! page, only the parent's rows up to the fork point are kept, and the kept
//! rows are put in sequence order.

use vstd::prelude::*;

use crate::fork::AgentTurnRow;
use crate::run::RunId;

verus! {

broadcast use vstd::seq_lib::group_to_multiset_ensures;

/// The run a row belongs to and its sequence.
pub open spec fn spec_row_key(r: AgentTurnRow) -> (RunId, u64) {
    match r {
        AgentTurnRow::Assistant { run_id, sequence, .. } => (run_id, sequence),
        AgentTurnRow::ToolCall { run_id, sequence, .. } => (run_id, sequence),
        AgentTurnRow::PendingState { run_id, sequence, .. } => (run_id, sequence),
    }
}

/// The run a row belongs to and its sequence.
pub fn row_key(r: &AgentTurnRow) -> (k: (RunId, u64))
    ensures
        k == spec_row_key(*r),
{
    match r {
        AgentTurnRow::Assistant { run_id, sequence, .. } => (*run_id, *sequence),
        AgentTurnRow::ToolCall { run_id, sequence, .. } => (*run_id, *sequence),
        AgentTurnRow::PendingState { run_id, sequence, .. } => (*run_id, *sequence),
    }
}

/// Whether a row is `run_id`'s and lies at or before `boundary`.
pub open spec fn spec_row_kept(r: AgentTurnRow, run_id: RunId, boundary: u64) -> bool {
    spec_row_key(r).0 == run_id && spec_row_key(r).1 <= boundary
}

/// The rows of a page that a replay keeps, in page order.
pub open spec fn spec_kept_rows(page: Seq<AgentTurnRow>, run_id: RunId, boundary: u64) -> Seq<AgentTurnRow>
    decreases page.len(),
{
    if page.len() == 0 {
        Seq::empty()
    } else {
        let rest = spec_kept_rows(page.drop_first(), run_id, boundary);
        if spec_row_kept(page[0], run_id, boundary) {
            seq![page[0]] + rest
        } else {
            rest
        }
    }
}

/// Add a page of rows to those collected: the rows of `run_id` at or before
/// `boundary` are kept, in page order; the others are dropped.
pub fn absorb_turn_rows_page(rows: &mut Vec<AgentTurnRow>, page: Vec<AgentTurnRow>, run_id: RunId, boundary: u64)
    ensures
        final(rows)@ == old(rows)@ + spec_kept_rows(page@, run_id, boundary),
{
    let mut page = page;
    let ghost whole = page@;
    while page.len() > 0
        invariant
            rows@ + spec_kept_rows(page@, run_id, boundary) == old(rows)@ + spec_kept_rows(whole, run_id, boundary),
        decreases page.len(),
    {
        let ghost before_rows = rows@;
        let ghost before_page = page@;
        let row = page.remove(0);
        assert(page@ =~= before_page.drop_first());
        let (owner, sequence) = row_key(&row);
        if owner == run_id && sequence <= boundary {
            rows.push(row);
            assert(rows@ + spec_kept_rows(page@, run_id, boundary) =~= before_rows + spec_kept_rows(
                before_page,
                run_id,
                boundary,
            ));
        }
    }
    assert(spec_kept_rows(page@, run_id, boundary) =~= Seq::<AgentTurnRow>::empty());
    assert(rows@ =~= rows@ + spec_kept_rows(page@, run_id, boundary));
}

/// `s` with `r` placed after every row whose sequence is not greater.
pub open spec fn spec_insert_row(s: Seq<AgentTurnRow>, r: AgentTurnRow) -> Seq<AgentTurnRow>
    decreases s.len(),
{
    if s.len() == 0 {
        seq![r]
    } else if spec_row_key(s.last()).1 <= spec_row_key(r).1 {
        s.push(r)
    } else {
        spec_insert_row(s.drop_last(), r).push(s.last())
    }
}

/// The stable sort of rows by sequence.
pub open spec fn spec_sort_rows(s: Seq<AgentTurnRow>) -> Seq<AgentTurnRow>
    decreases s.len(),
{
    if s.len() == 0 {
        Seq::empty()
    } else {
        spec_insert_row(spec_sort_rows(s.drop_last()), s.last())
    }
}

proof fn lemma_insert_row_at(s: Seq<AgentTurnRow>, r: AgentTurnRow, j: int)
    requires
        0 <= j <= s.len(),
        forall|k: int| j <= k < s.len() ==> spec_row_key(#[trigger] s[k]).1 > spec_row_key(r).1,
        j == 0 || spec_row_key(s[j - 1]).1 <= spec_row_key(r).1,
    ensures
        spec_insert_row(s, r) == s.take(j).push(r) + s.skip(j),
    decreases s.len(),
{
    if s.len() == 0 {
        assert(s.take(j).push(r) + s.skip(j) =~= seq![r]);
    } else if spec_row_key(s.last()).1 <= spec_row_key(r).1 {
        if j < s.len() {
            assert(spec_row_key(s[s.len() - 1]).1 > spec_row_key(r).1);
        }
        assert(s.take(j).push(r) + s.skip(j) =~= s.push(r));
    } else {
        let dl = s.drop_last();
        assert(spec_row_key(s[s.len() - 1]).1 > spec_row_key(r).1);
        lemma_insert_row_at(dl, r, j);
        assert((dl.take(j).push(r) + dl.skip(j)).push(s.last()) =~= s.take(j).push(r) + s.skip(j));
    }
}

fn insert_row(v: &mut Vec<AgentTurnRow>, r: AgentTurnRow)
    ensures
        final(v)@ == spec_insert_row(old(v)@, r),
{
    let key = row_key(&r).1;
    let mut j: usize = v.len();
    while j > 0 && row_key(&v[j - 1]).1 > key
        invariant
            0 <= j <= v.len(),
            v@ == old(v)@,
            key == spec_row_key(r).1,
            forall|k: int| j <= k < v.len() ==> spec_row_key(#[trigger] v@[k]).1 > spec_row_key(r).1,
        decreases j,
    {
        j = j - 1;
    }
    proof { lemma_insert_row_at(v@, r, j as int); }
    let ghost before = v@;
    v.insert(j, r);
    assert(v@ =~= before.take(j as int).push(r) + before.skip(j as int));
}

/// The rows in sequence order, rows of equal sequence in their given order
/// (see [`spec_sort_rows`]).
pub fn sort_turn_rows(rows: Vec<AgentTurnRow>) -> (sorted: Vec<AgentTurnRow>)
    ensures
        sorted@ == spec_sort_rows(rows@),
{
    let mut rest = rows;
    let ghost whole = rest@;
    let mut sorted: Vec<AgentTurnRow> = Vec::new();
    let ghost mut taken: int = 0;
    while rest.len() > 0
        invariant
            0 <= taken <= whole.len(),
            rest@ == whole.skip(taken),
            sorted@ == spec_sort_rows(whole.take(taken)),
        decreases rest.len(),
    {
        let ghost before = rest@;
        let row = rest.remove(0);
        assert(row == whole[taken]);
        assert(whole.take(taken + 1).drop_last() =~= whole.take(taken));
        assert(whole.take(taken + 1).last() == whole[taken]);
        insert_row(&mut sorted, row);
        proof {
            assert(rest@ =~= whole.skip(taken + 1));
            taken = taken + 1;
        }
    }
    assert(whole.take(taken) =~= whole);
    sorted
}

/// Whether rows are in sequence order.
pub open spec fn spec_rows_ascending(s: Seq<AgentTurnRow>) -> bool {
    forall|i: int, j: int| 0 <= i < j < s.len() ==> spec_row_key(#[trigger] s[i]).1 <= spec_row_key(#[trigger] s[j]).1
}

proof fn lemma_insert_row_keeps_order(s: Seq<AgentTurnRow>, r: AgentTurnRow)
    requires
        spec_rows_ascending(s),
    ensures
        spec_rows_ascending(spec_insert_row(s, r)),
        spec_insert_row(s, r).to_multiset() == s.to_multiset().insert(r),
    decreases s.len(),
{
    if s.len() == 0 {
        assert(seq![r] =~= Seq::<AgentTurnRow>::empty().push(r));
    } else if spec_row_key(s.last()).1 <= spec_row_key(r).1 {
    } else {
        let dl = s.drop_last();
        lemma_insert_row_keeps_order(dl, r);
        let ins = spec_insert_row(dl, r);
        assert(s =~= dl.push(s.last()));
        assert forall|k: int| 0 <= k < ins.len() implies spec_row_key(#[trigger] ins[k]).1 <= spec_row_key(
            s.last(),
        ).1 by {
            assert(ins.to_multiset().count(ins[k]) > 0);
            if ins[k] != r {
                assert(dl.to_multiset().count(ins[k]) > 0);
                let m = choose|m: int| 0 <= m < dl.len() && dl[m] == ins[k];
                assert(s[m] == dl[m]);
            }
        }
        let out = ins.push(s.last());
        assert forall|i: int, j: int| 0 <= i < j < out.len() implies spec_row_key(#[trigger] out[i]).1
            <= spec_row_key(#[trigger] out[j]).1 by {
            if j == out.len() - 1 {
                assert(out[i] == ins[i]);
            } else {
                assert(out[i] == ins[i] && out[j] == ins[j]);
            }
        }
    }
}

/// A replay's rows come out in sequence order, and sorting loses no row and
/// adds none: the sorted rows are ascending by sequence and hold each row
/// exactly as often as the rows that were read.
pub proof fn law_sorted_rows_keep_every_row(s: Seq<AgentTurnRow>)
    ensures
        spec_rows_ascending(spec_sort_rows(s)),
        spec_sort_rows(s).to_multiset() == s.to_multiset(),
    decreases s.len(),
{
    if s.len() == 0 {
        assert(spec_sort_rows(s) =~= s);
    } else {
        law_sorted_rows_keep_every_row(s.drop_last());
        lemma_insert_row_keeps_order(spec_sort_rows(s.drop_last()), s.last());
        assert(s =~= s.drop_last().push(s.last()));
    }
}

/// Every row a replay keeps is the parent's and lies at or before the fork
/// point, and every such row of the page is kept.
pub proof fn law_kept_rows_are_the_parents_up_to_fork_point(page: Seq<AgentTurnRow>, run_id: RunId, boundary: u64)
    ensures
        forall|r: AgentTurnRow|
            spec_kept_rows(page, run_id, boundary).contains(r) <==> (page.contains(r) && spec_row_kept(
                r,
                run_id,
                boundary,
            )),
    decreases page.len(),
{
    if page.len() > 0 {
        let rest = page.drop_first();
        law_kept_rows_are_the_parents_up_to_fork_point(rest, run_id, boundary);
        assert forall|r: AgentTurnRow|
            spec_kept_rows(page, run_id, boundary).contains(r) <==> (page.contains(r) && spec_row_kept(
                r,
                run_id,
                boundary,
            )) by {
            let kr = spec_kept_rows(rest, run_id, boundary);
            if page.contains(r) {
                let i = choose|i: int| 0 <= i < page.len() && page[i] == r;
                if i > 0 {
                    assert(rest[i - 1] == r);
                }
            }
            if rest.contains(r) {
                let i = choose|i: int| 0 <= i < rest.len() && rest[i] == r;
                assert(page[i + 1] == r);
            }
            if spec_row_kept(page[0], run_id, boundary) {
                let k = seq![page[0]] + kr;
                if kr.contains(r) {
                    let i = choose|i: int| 0 <= i < kr.len() && kr[i] == r;
                    assert(k[i + 1] == r);
                }
                if k.contains(r) {
                    let i = choose|i: int| 0 <= i < k.len() && k[i] == r;
                    if i > 0 {
                        assert(kr[i - 1] == r);
                    }
                }
                assert(k[0] == page[0]);
            }
        }
    }
}

} // verus!
