//! Write claims on workspace files: a run that plans to write files claims
//! them, is warned of every claim that another live run already holds on
//! the same files, and gives its claim up when it finishes.

use vstd::prelude::*;

use crate::run::RunId;

verus! {

/// How a claim holds its files.
#[derive(Debug, Clone, Copy, PartialEq, Eq, Structural)]
pub enum ClaimKind {
    Write,
}

/// A file that another run already claims.
#[derive(Debug)]
pub struct FileClaimConflict {
    pub file: String,
    pub holding_capsule: RunId,
    pub holding_kind: ClaimKind,
}

/// The warning a claim raises when others already hold some of its files.
#[derive(Debug)]
pub struct ConflictWarning {
    pub requesting_capsule: RunId,
    pub conflicts: Vec<FileClaimConflict>,
}

/// The plain content of a conflict: the file and the run holding it.
pub open spec fn spec_conflict_view(c: FileClaimConflict) -> (Seq<char>, RunId) {
    (c.file@, c.holding_capsule)
}

/// The plain contents of a list of conflicts.
pub open spec fn spec_conflict_views(cs: Seq<FileClaimConflict>) -> Seq<(Seq<char>, RunId)> {
    cs.map_values(|c: FileClaimConflict| spec_conflict_view(c))
}

/// A live claim.
#[derive(Debug)]
pub struct FileClaim {
    pub run_id: RunId,
    pub files: Vec<String>,
}

/// The plain content of a claim.
pub open spec fn spec_claim_view(c: FileClaim) -> (RunId, Seq<Seq<char>>) {
    (c.run_id, c.files@.map_values(|f: String| f@))
}

/// The live claims, oldest first.
#[derive(Debug)]
pub struct ClaimRegistry {
    claims: Vec<FileClaim>,
}

/// The conflicts that a claim of `files` by `run_id` meets among `claims`:
/// for each requested file in order, each older claim of another run that
/// holds the file, oldest first.
pub open spec fn spec_conflicts(
    claims: Seq<(RunId, Seq<Seq<char>>)>,
    run_id: RunId,
    files: Seq<Seq<char>>,
) -> Seq<(Seq<char>, RunId)>
    decreases files.len(),
{
    if files.len() == 0 {
        Seq::empty()
    } else {
        spec_conflicts(claims, run_id, files.drop_last()) + spec_holders(claims, run_id, files.last())
    }
}

/// The claims of other runs than `run_id` that hold `file`, oldest first,
/// each as the file and the holding run.
pub open spec fn spec_holders(claims: Seq<(RunId, Seq<Seq<char>>)>, run_id: RunId, file: Seq<char>) -> Seq<
    (Seq<char>, RunId),
>
    decreases claims.len(),
{
    if claims.len() == 0 {
        Seq::empty()
    } else {
        let prev = spec_holders(claims.drop_last(), run_id, file);
        if claims.last().0 != run_id && claims.last().1.contains(file) {
            prev.push((file, claims.last().0))
        } else {
            prev
        }
    }
}

fn copy_text(s: &String) -> (t: String)
    ensures
        t@ == s@,
{
    s.clone()
}

fn contains_text(v: &Vec<String>, x: &String) -> (res: bool)
    ensures
        res == v@.map_values(|f: String| f@).contains(x@),
{
    let ghost views = v@.map_values(|f: String| f@);
    let mut i: usize = 0;
    while i < v.len()
        invariant
            0 <= i <= v.len(),
            views == v@.map_values(|f: String| f@),
            forall|k: int| 0 <= k < i ==> views[k] != x@,
        decreases v.len() - i,
    {
        if v[i] == *x {
            assert(views[i as int] == x@);
            return true;
        }
        i = i + 1;
    }
    false
}

impl ClaimRegistry {
    /// The live claims, oldest first.
    pub closed spec fn view(&self) -> Seq<(RunId, Seq<Seq<char>>)> {
        self.claims@.map_values(|c: FileClaim| spec_claim_view(c))
    }

    /// No live claims.
    pub fn new() -> (r: Self)
        ensures
            r@ == Seq::<(RunId, Seq<Seq<char>>)>::empty(),
    {
        let r = ClaimRegistry { claims: Vec::new() };
        assert(r@ =~= Seq::<(RunId, Seq<Seq<char>>)>::empty());
        r
    }

    /// The number of live claims.
    pub fn active_claims(&self) -> (n: usize)
        ensures
            n == self@.len(),
    {
        self.claims.len()
    }

    fn holders(&self, run_id: RunId, file: &String, out: &mut Vec<FileClaimConflict>)
        ensures
            spec_conflict_views(final(out)@) == spec_conflict_views(old(out)@) + spec_holders(self@, run_id, file@),
    {
        let mut i: usize = 0;
        while i < self.claims.len()
            invariant
                0 <= i <= self.claims.len(),
                spec_conflict_views(out@) == spec_conflict_views(old(out)@) + spec_holders(
                    self@.take(i as int),
                    run_id,
                    file@,
                ),
            decreases self.claims.len() - i,
        {
            assert(self@.take((i + 1) as int).drop_last() == self@.take(i as int));
            assert(self@.take((i + 1) as int).last() == spec_claim_view(self.claims@[i as int]));
            let c = &self.claims[i];
            if c.run_id != run_id && contains_text(&c.files, file) {
                let ghost prev = out@;
                out.push(FileClaimConflict { file: copy_text(file), holding_capsule: c.run_id, holding_kind: ClaimKind::Write });
                assert(spec_conflict_views(out@) =~= spec_conflict_views(prev).push((file@, c.run_id)));
                assert(spec_conflict_views(out@) =~= spec_conflict_views(old(out)@) + spec_holders(
                    self@.take((i + 1) as int),
                    run_id,
                    file@,
                ));
            } else {
                assert(spec_conflict_views(out@) =~= spec_conflict_views(old(out)@) + spec_holders(
                    self@.take((i + 1) as int),
                    run_id,
                    file@,
                ));
            }
            i = i + 1;
        }
        assert(self@.take(self.claims.len() as int) =~= self@);
    }

    /// Claim `files` for `run_id`. The claim is added as the newest; the
    /// warning, raised only when there are conflicts, lists them (see
    /// [`spec_conflicts`]). The claimed files are returned as given.
    pub fn claim(&mut self, run_id: RunId, files: Vec<String>) -> (res: (Vec<String>, Option<ConflictWarning>))
        ensures
            final(self)@ == old(self)@.push((run_id, files@.map_values(|f: String| f@))),
            res.0@.map_values(|f: String| f@) == files@.map_values(|f: String| f@),
            spec_conflicts(old(self)@, run_id, files@.map_values(|f: String| f@)).len() == 0 ==> res.1 is None,
            spec_conflicts(old(self)@, run_id, files@.map_values(|f: String| f@)).len() > 0 ==> (res.1 matches Some(
                w,
            ) && w.requesting_capsule == run_id && spec_conflict_views(w.conflicts@) == spec_conflicts(
                old(self)@,
                run_id,
                files@.map_values(|f: String| f@),
            )),
    {
        let ghost fviews = files@.map_values(|f: String| f@);
        let mut conflicts: Vec<FileClaimConflict> = Vec::new();
        let mut claimed: Vec<String> = Vec::new();
        let mut i: usize = 0;
        while i < files.len()
            invariant
                0 <= i <= files.len(),
                fviews == files@.map_values(|f: String| f@),
                spec_conflict_views(conflicts@) == spec_conflicts(self@, run_id, fviews.take(i as int)),
                claimed@.map_values(|f: String| f@) == fviews.take(i as int),
            decreases files.len() - i,
        {
            assert(fviews.take((i + 1) as int).drop_last() == fviews.take(i as int));
            assert(fviews.take((i + 1) as int).last() == files@[i as int]@);
            self.holders(run_id, &files[i], &mut conflicts);
            claimed.push(copy_text(&files[i]));
            assert(claimed@.map_values(|f: String| f@) =~= fviews.take((i + 1) as int));
            i = i + 1;
        }
        assert(fviews.take(files.len() as int) == fviews);
        let ghost before = self@;
        self.claims.push(FileClaim { run_id, files });
        assert(self@ =~= before.push((run_id, fviews)));
        let warning = if conflicts.len() == 0 {
            None
        } else {
            Some(ConflictWarning { requesting_capsule: run_id, conflicts })
        };
        (claimed, warning)
    }

    /// Give up every claim of `run_id`; the other claims keep their order.
    pub fn release(&mut self, run_id: RunId)
        ensures
            final(self)@ == old(self)@.filter(|c: (RunId, Seq<Seq<char>>)| c.0 != run_id),
    {
        let ghost old_view = self@;
        let ghost pred = |c: (RunId, Seq<Seq<char>>)| c.0 != run_id;
        let mut kept: Vec<FileClaim> = Vec::new();
        let mut claims: Vec<FileClaim> = Vec::new();
        std::mem::swap(&mut claims, &mut self.claims);
        let ghost all = claims@;
        let ghost mut k: int = 0;
        assert(kept@.map_values(|c: FileClaim| spec_claim_view(c)) =~= old_view.take(0).filter(pred));
        assert(all.skip(0) == all);
        while claims.len() > 0
            invariant
                all.map_values(|c: FileClaim| spec_claim_view(c)) == old_view,
                0 <= k <= all.len(),
                claims@ == all.skip(k),
                kept@.map_values(|c: FileClaim| spec_claim_view(c)) == old_view.take(k).filter(pred),
                pred == |c: (RunId, Seq<Seq<char>>)| c.0 != run_id,
            decreases claims.len(),
        {
            let c = claims.remove(0);
            proof {
                assert(c == all[k]);
                assert(old_view.take(k + 1) == old_view.take(k).push(spec_claim_view(c)));
                old_view.take(k).lemma_filter_push(spec_claim_view(c), pred);
                assert(claims@ =~= all.skip(k + 1));
            }
            let keep = c.run_id != run_id;
            if keep {
                kept.push(c);
            }
            proof {
                assert(kept@.map_values(|c: FileClaim| spec_claim_view(c)) =~= old_view.take(k + 1).filter(pred));
                k = k + 1;
            }
        }
        assert(old_view.take(k) == old_view);
        self.claims = kept;
    }
}

/// Every reported holder of a file is a live claim of another run on that file.
pub proof fn lemma_holders_are_other_claims(claims: Seq<(RunId, Seq<Seq<char>>)>, run_id: RunId, file: Seq<char>)
    ensures
        forall|k: int|
            0 <= k < spec_holders(claims, run_id, file).len() ==> {
                let h = #[trigger] spec_holders(claims, run_id, file)[k];
                &&& h.0 == file
                &&& h.1 != run_id
                &&& exists|i: int| 0 <= i < claims.len() && claims[i].0 == h.1 && claims[i].1.contains(file)
            },
    decreases claims.len(),
{
    if claims.len() > 0 {
        let prev = claims.drop_last();
        lemma_holders_are_other_claims(prev, run_id, file);
        let hs = spec_holders(claims, run_id, file);
        assert forall|k: int| 0 <= k < hs.len() implies {
            let h = #[trigger] hs[k];
            &&& h.0 == file
            &&& h.1 != run_id
            &&& exists|i: int| 0 <= i < claims.len() && claims[i].0 == h.1 && claims[i].1.contains(file)
        } by {
            let ph = spec_holders(prev, run_id, file);
            if k < ph.len() {
                assert(hs[k] == ph[k]);
                let i = choose|i: int| 0 <= i < prev.len() && prev[i].0 == ph[k].1 && prev[i].1.contains(file);
                assert(claims[i] == prev[i]);
            } else {
                assert(claims[claims.len() - 1].0 == hs[k].1);
            }
        }
    }
}

/// Every reported conflict is a live claim of another run on a requested file.
pub proof fn lemma_conflicts_are_other_claims(
    claims: Seq<(RunId, Seq<Seq<char>>)>,
    run_id: RunId,
    files: Seq<Seq<char>>,
)
    ensures
        forall|k: int|
            0 <= k < spec_conflicts(claims, run_id, files).len() ==> {
                let c = #[trigger] spec_conflicts(claims, run_id, files)[k];
                &&& files.contains(c.0)
                &&& c.1 != run_id
                &&& exists|i: int| 0 <= i < claims.len() && claims[i].0 == c.1 && claims[i].1.contains(c.0)
            },
    decreases files.len(),
{
    if files.len() > 0 {
        let prev_files = files.drop_last();
        lemma_conflicts_are_other_claims(claims, run_id, prev_files);
        lemma_holders_are_other_claims(claims, run_id, files.last());
        let cs = spec_conflicts(claims, run_id, files);
        let pc = spec_conflicts(claims, run_id, prev_files);
        let hs = spec_holders(claims, run_id, files.last());
        assert forall|k: int| 0 <= k < cs.len() implies {
            let c = #[trigger] cs[k];
            &&& files.contains(c.0)
            &&& c.1 != run_id
            &&& exists|i: int| 0 <= i < claims.len() && claims[i].0 == c.1 && claims[i].1.contains(c.0)
        } by {
            if k < pc.len() {
                assert(cs[k] == pc[k]);
                let j = choose|j: int| 0 <= j < prev_files.len() && prev_files[j] == pc[k].0;
                assert(files[j] == prev_files[j]);
            } else {
                assert(cs[k] == hs[k - pc.len()]);
                assert(files[files.len() - 1] == files.last());
            }
        }
    }
}

/// A run never conflicts with its own claims: every conflict names another
/// run that holds a claim on one of the requested files.
pub proof fn law_conflicts_name_other_holders(
    claims: Seq<(RunId, Seq<Seq<char>>)>,
    run_id: RunId,
    files: Seq<Seq<char>>,
    k: int,
)
    requires
        0 <= k < spec_conflicts(claims, run_id, files).len(),
    ensures
        spec_conflicts(claims, run_id, files)[k].1 != run_id,
        files.contains(spec_conflicts(claims, run_id, files)[k].0),
        exists|i: int|
            0 <= i < claims.len() && claims[i].0 == spec_conflicts(claims, run_id, files)[k].1
                && claims[i].1.contains(spec_conflicts(claims, run_id, files)[k].0),
{
    lemma_conflicts_are_other_claims(claims, run_id, files);
    let c = spec_conflicts(claims, run_id, files)[k];
    assert(c == spec_conflicts(claims, run_id, files)[k]);
}

/// Once a run's claims are released, no later claim conflicts with it.
pub proof fn law_released_claims_raise_no_conflicts(
    claims: Seq<(RunId, Seq<Seq<char>>)>,
    released: RunId,
    run_id: RunId,
    files: Seq<Seq<char>>,
    k: int,
)
    requires
        0 <= k < spec_conflicts(claims.filter(|c: (RunId, Seq<Seq<char>>)| c.0 != released), run_id, files).len(),
    ensures
        spec_conflicts(claims.filter(|c: (RunId, Seq<Seq<char>>)| c.0 != released), run_id, files)[k].1 != released,
{
    let pred = |c: (RunId, Seq<Seq<char>>)| c.0 != released;
    let kept = claims.filter(pred);
    lemma_conflicts_are_other_claims(kept, run_id, files);
    let c = spec_conflicts(kept, run_id, files)[k];
    let i = choose|i: int| 0 <= i < kept.len() && kept[i].0 == c.1 && kept[i].1.contains(c.0);
    claims.lemma_filter_pred(pred, i);
    assert(pred(kept[i]));
}

/// Releasing a run that held no claim before its last claim undoes that claim.
pub proof fn law_release_undoes_claim(
    claims: Seq<(RunId, Seq<Seq<char>>)>,
    run_id: RunId,
    files: Seq<Seq<char>>,
)
    requires
        forall|i: int| 0 <= i < claims.len() ==> #[trigger] claims[i].0 != run_id,
    ensures
        claims.push((run_id, files)).filter(|c: (RunId, Seq<Seq<char>>)| c.0 != run_id) == claims,
    decreases claims.len(),
{
    let pred = |c: (RunId, Seq<Seq<char>>)| c.0 != run_id;
    claims.lemma_filter_push((run_id, files), pred);
    lemma_filter_keeps_all(claims, run_id);
}

proof fn lemma_filter_keeps_all(claims: Seq<(RunId, Seq<Seq<char>>)>, run_id: RunId)
    requires
        forall|i: int| 0 <= i < claims.len() ==> #[trigger] claims[i].0 != run_id,
    ensures
        claims.filter(|c: (RunId, Seq<Seq<char>>)| c.0 != run_id) == claims,
    decreases claims.len(),
{
    let pred = |c: (RunId, Seq<Seq<char>>)| c.0 != run_id;
    if claims.len() > 0 {
        let prev = claims.drop_last();
        assert forall|i: int| 0 <= i < prev.len() implies #[trigger] prev[i].0 != run_id by {
            assert(prev[i] == claims[i]);
        }
        lemma_filter_keeps_all(prev, run_id);
        prev.lemma_filter_push(claims.last(), pred);
        assert(prev.push(claims.last()) =~= claims);
    } else {
        assert(claims.filter(pred) =~= claims) by {
            reveal(Seq::filter);
        }
    }
}

/// What a conflict warning leaves on the run: the number of conflicts and
/// the conflicting files, each once, in ascending order.
#[derive(Debug)]
pub struct ConflictSummary {
    pub warning_count: u32,
    pub files: Vec<String>,
}

/// Whether text `a` orders before text `b`: lexicographically by character,
/// a proper prefix first (the order of `String` comparison).
pub open spec fn spec_text_lt(a: Seq<char>, b: Seq<char>) -> bool
    decreases a.len(),
{
    if a.len() == 0 {
        b.len() > 0
    } else if b.len() == 0 {
        false
    } else if (a[0] as int) < (b[0] as int) {
        true
    } else if (a[0] as int) > (b[0] as int) {
        false
    } else {
        spec_text_lt(a.drop_first(), b.drop_first())
    }
}

/// Whether a list of texts is strictly ascending.
pub open spec fn spec_texts_ascending(s: Seq<Seq<char>>) -> bool {
    forall|i: int, j: int| 0 <= i < j < s.len() ==> spec_text_lt(#[trigger] s[i], #[trigger] s[j])
}

proof fn lemma_text_lt_irreflexive(a: Seq<char>)
    ensures
        !spec_text_lt(a, a),
    decreases a.len(),
{
    if a.len() > 0 {
        lemma_text_lt_irreflexive(a.drop_first());
    }
}

proof fn lemma_text_lt_total(a: Seq<char>, b: Seq<char>)
    ensures
        a == b || spec_text_lt(a, b) || spec_text_lt(b, a),
    decreases a.len(),
{
    if a.len() > 0 && b.len() > 0 && (a[0] as int) == (b[0] as int) {
        assert(a[0] == b[0]);
        lemma_text_lt_total(a.drop_first(), b.drop_first());
        if a.drop_first() == b.drop_first() {
            assert(a =~= seq![a[0]] + a.drop_first());
            assert(b =~= seq![b[0]] + b.drop_first());
        }
    } else if a.len() == 0 && b.len() == 0 {
        assert(a =~= b);
    } else if a.len() > 0 && b.len() > 0 {
    }
}

proof fn lemma_text_lt_transitive(a: Seq<char>, b: Seq<char>, c: Seq<char>)
    requires
        spec_text_lt(a, b),
        spec_text_lt(b, c),
    ensures
        spec_text_lt(a, c),
    decreases a.len(),
{
    if a.len() > 0 && b.len() > 0 && c.len() > 0 && (a[0] as int) == (b[0] as int) && (b[0] as int) == (c[0] as int) {
        lemma_text_lt_transitive(a.drop_first(), b.drop_first(), c.drop_first());
    }
}

fn text_lt(a: &str, b: &str) -> (r: bool)
    ensures
        r == spec_text_lt(a@, b@),
{
    let la = a.unicode_len();
    let lb = b.unicode_len();
    let mut i: usize = 0;
    assert(a@.skip(0) == a@);
    assert(b@.skip(0) == b@);
    while i < la && i < lb
        invariant
            la == a@.len(),
            lb == b@.len(),
            0 <= i <= la,
            i <= lb,
            spec_text_lt(a@, b@) == spec_text_lt(a@.skip(i as int), b@.skip(i as int)),
        decreases la - i,
    {
        let ca = a.get_char(i);
        let cb = b.get_char(i);
        assert(a@.skip(i as int)[0] == ca);
        assert(b@.skip(i as int)[0] == cb);
        if (ca as u32) < (cb as u32) {
            return true;
        }
        if (ca as u32) > (cb as u32) {
            return false;
        }
        assert((ca as int) == (cb as int));
        assert(a@.skip(i as int).drop_first() =~= a@.skip((i + 1) as int));
        assert(b@.skip(i as int).drop_first() =~= b@.skip((i + 1) as int));
        i = i + 1;
    }
    i < lb
}

fn insert_text_sorted(v: &mut Vec<String>, x: String)
    requires
        spec_texts_ascending(old(v)@.map_values(|f: String| f@)),
    ensures
        spec_texts_ascending(final(v)@.map_values(|f: String| f@)),
        final(v)@.map_values(|f: String| f@).to_set() == old(v)@.map_values(|f: String| f@).to_set().insert(x@),
{
    let ghost before = v@.map_values(|f: String| f@);
    let mut i: usize = 0;
    while i < v.len() && text_lt(v[i].as_str(), x.as_str())
        invariant
            0 <= i <= v.len(),
            before == v@.map_values(|f: String| f@),
            before == old(v)@.map_values(|f: String| f@),
            spec_texts_ascending(before),
            forall|k: int| 0 <= k < i ==> spec_text_lt(#[trigger] before[k], x@),
        decreases v.len() - i,
    {
        i = i + 1;
    }
    if i < v.len() && v[i] == x {
        assert(before.to_set().insert(x@) =~= before.to_set()) by {
            assert(before.contains(x@)) by { assert(before[i as int] == x@); }
        }
        return;
    }
    let ghost xv = x@;
    proof {
        if i < before.len() {
            lemma_text_lt_total(before[i as int], xv);
        }
    }
    v.insert(i, x);
    let ghost after = v@.map_values(|f: String| f@);
    proof {
        assert(after =~= before.insert(i as int, xv));
        before.insert_ensures(i as int, xv);
        assert forall|a: int, b: int| 0 <= a < b < after.len() implies spec_text_lt(#[trigger] after[a], #[trigger] after[b]) by {
            if b < i {
            } else if a < i && b == i {
            } else if a < i {
                assert(spec_text_lt(before[a], before[b - 1]));
            } else if a == i {
                if b - 1 > i {
                    assert(spec_text_lt(before[i as int], before[b - 1]));
                    lemma_text_lt_transitive(xv, before[i as int], before[b - 1]);
                }
            } else {
                assert(spec_text_lt(before[a - 1], before[b - 1]));
            }
        }
        assert forall|y: Seq<char>| after.to_set().contains(y) <==> before.to_set().insert(xv).contains(y) by {
            if after.contains(y) {
                let k = choose|k: int| 0 <= k < after.len() && after[k] == y;
                if k < i {
                    assert(before[k] == y);
                } else if k > i {
                    assert(before[k - 1] == y);
                }
            }
            if before.contains(y) {
                let k = choose|k: int| 0 <= k < before.len() && before[k] == y;
                if k < i {
                    assert(after[k] == y);
                } else {
                    assert(after[k + 1] == y);
                }
            }
            if y == xv {
                assert(after[i as int] == xv);
            }
        }
        assert(after.to_set() =~= before.to_set().insert(xv));
    }
}

/// The summary of a conflict warning: the number of conflicts (as `u32`,
/// wrapping past its range) and the conflicting files, each once, ascending.
pub fn conflict_summary_for_warning(warning: &ConflictWarning) -> (s: ConflictSummary)
    ensures
        s.warning_count == warning.conflicts@.len() as u32,
        spec_texts_ascending(s.files@.map_values(|f: String| f@)),
        s.files@.map_values(|f: String| f@).to_set() == warning.conflicts@.map_values(
            |c: FileClaimConflict| c.file@,
        ).to_set(),
{
    let ghost files_view = warning.conflicts@.map_values(|c: FileClaimConflict| c.file@);
    let mut files: Vec<String> = Vec::new();
    let mut i: usize = 0;
    assert(files@.map_values(|f: String| f@).to_set() =~= files_view.take(0).to_set());
    while i < warning.conflicts.len()
        invariant
            0 <= i <= warning.conflicts.len(),
            files_view == warning.conflicts@.map_values(|c: FileClaimConflict| c.file@),
            spec_texts_ascending(files@.map_values(|f: String| f@)),
            files@.map_values(|f: String| f@).to_set() == files_view.take(i as int).to_set(),
        decreases warning.conflicts.len() - i,
    {
        insert_text_sorted(&mut files, copy_text(&warning.conflicts[i].file));
        proof {
            assert(files_view.take((i + 1) as int) == files_view.take(i as int).push(files_view[i as int]));
            files_view.take(i as int).lemma_push_to_set_commute(files_view[i as int]);
        }
        i = i + 1;
    }
    assert(files_view.take(warning.conflicts.len() as int) == files_view);
    #[verifier::truncate]
    let warning_count = warning.conflicts.len() as u32;
    ConflictSummary { warning_count, files }
}

} // verus!
