//! The working directory that a new window gets: the live active pane's path
//! when tmux reports one, else the paths that hooks and earlier inspections
//! recorded for the session's windows, chosen by how many windows share a path,
//! how recently it was seen, and the window index.
use vstd::prelude::*;

use crate::domain::state::{find_session, find_winlink, lemma_session_pos_range, session_pos, winlink_pos, DomainState, DomainView};
use crate::ipc::HookEvent;
use crate::path::{path_before, path_equiv, path_less, paths_equal};
use crate::server::scopes::{non_empty, non_empty_spec};
use crate::text::{str_eq, to_owned_string};
use crate::tmux::WindowWorkdir;

verus! {

/// A window whose path may become the new window's working directory.
#[derive(Debug, PartialEq, Eq)]
pub struct WorkdirCandidate {
    pub window_id: String,
    pub window_index: Option<u32>,
    pub path: String,
    pub observed_order: u64,
}

pub struct CandidateView {
    pub window_id: Seq<char>,
    pub window_index: Option<u32>,
    pub path: Seq<char>,
    pub observed_order: u64,
}

impl View for WorkdirCandidate {
    type V = CandidateView;

    open spec fn view(&self) -> CandidateView {
        CandidateView {
            window_id: self.window_id@,
            window_index: self.window_index,
            path: self.path@,
            observed_order: self.observed_order,
        }
    }
}

pub open spec fn candidate_views(cs: Seq<WorkdirCandidate>) -> Seq<CandidateView> {
    cs.map_values(|c: WorkdirCandidate| c@)
}

/// The candidates that share one path: how many, the latest observation, and
/// the lowest window index among them.
#[derive(Debug, PartialEq, Eq)]
pub struct WorkdirPathScore {
    pub path: String,
    pub count: usize,
    pub observed_order: u64,
    pub lowest_window_index: Option<u32>,
}

pub struct ScoreView {
    pub path: Seq<char>,
    pub count: nat,
    pub observed_order: u64,
    pub lowest_window_index: Option<u32>,
}

impl View for WorkdirPathScore {
    type V = ScoreView;

    open spec fn view(&self) -> ScoreView {
        ScoreView {
            path: self.path@,
            count: self.count as nat,
            observed_order: self.observed_order,
            lowest_window_index: self.lowest_window_index,
        }
    }
}

pub open spec fn score_views(s: Seq<WorkdirPathScore>) -> Seq<ScoreView> {
    s.map_values(|x: WorkdirPathScore| x@)
}

pub open spec fn lowest_of(cur: Option<u32>, next: Option<u32>) -> Option<u32> {
    match (cur, next) {
        (Some(a), Some(b)) => Some(if a <= b { a } else { b }),
        (Some(a), None) => Some(a),
        (None, n) => n,
    }
}

pub open spec fn first_score(c: CandidateView) -> ScoreView {
    ScoreView { path: c.path, count: 1, observed_order: c.observed_order, lowest_window_index: c.window_index }
}

pub open spec fn add_to_score(s: ScoreView, c: CandidateView) -> ScoreView {
    ScoreView {
        path: s.path,
        count: s.count + 1,
        observed_order: if s.observed_order >= c.observed_order { s.observed_order } else { c.observed_order },
        lowest_window_index: lowest_of(s.lowest_window_index, c.window_index),
    }
}

/// Position of the first score whose path is the same path as `path`, or -1.
pub open spec fn score_pos(scores: Seq<ScoreView>, path: Seq<char>) -> int
    decreases scores.len(),
{
    if scores.len() == 0 {
        -1
    } else {
        let p = score_pos(scores.drop_last(), path);
        if p >= 0 {
            p
        } else if path_equiv(scores.last().path, path) {
            scores.len() - 1
        } else {
            -1
        }
    }
}

/// The scores after counting the first `n` candidates, one score per path.
pub open spec fn scores_upto(cs: Seq<CandidateView>, n: nat) -> Seq<ScoreView>
    decreases n,
{
    if n == 0 {
        Seq::empty()
    } else {
        let prev = scores_upto(cs, (n - 1) as nat);
        let c = cs[n - 1];
        let p = score_pos(prev, c.path);
        if p >= 0 {
            prev.update(p, add_to_score(prev[p], c))
        } else {
            prev.push(first_score(c))
        }
    }
}

pub open spec fn index_rank(s: ScoreView) -> u32 {
    match s.lowest_window_index {
        Some(i) => i,
        None => u32::MAX,
    }
}

/// `a` ranks above `b`: more windows, then a later observation, then a lower
/// window index, then the path that sorts first.
pub open spec fn beats(a: ScoreView, b: ScoreView) -> bool {
    a.count > b.count || (a.count == b.count && (a.observed_order > b.observed_order || (a.observed_order
        == b.observed_order && (index_rank(a) < index_rank(b) || (index_rank(a) == index_rank(b) && path_before(
        a.path,
        b.path,
    ))))))
}

/// The position of the top score among the first `n` (`n >= 1`), scanning in
/// order and keeping the current top unless a later one ranks above it.
pub open spec fn best_upto(scores: Seq<ScoreView>, n: nat) -> int
    decreases n,
{
    if n <= 1 {
        0
    } else {
        let b = best_upto(scores, (n - 1) as nat);
        if beats(scores[n - 1], scores[b]) {
            n - 1
        } else {
            b
        }
    }
}

/// The candidates with a non-empty path, in order.
pub open spec fn with_path(cs: Seq<CandidateView>) -> Seq<CandidateView>
    decreases cs.len(),
{
    if cs.len() == 0 {
        Seq::empty()
    } else {
        with_path(cs.drop_last()) + if cs.last().path.len() > 0 {
            seq![cs.last()]
        } else {
            Seq::empty()
        }
    }
}

/// Position of the first candidate of window `id`, or -1.
pub open spec fn window_pos(cs: Seq<CandidateView>, id: Seq<char>) -> int
    decreases cs.len(),
{
    if cs.len() == 0 {
        -1
    } else {
        let p = window_pos(cs.drop_last(), id);
        if p >= 0 {
            p
        } else if cs.last().window_id == id {
            cs.len() - 1
        } else {
            -1
        }
    }
}

/// The chosen path: none without a candidate path; the active window's path when
/// it is a candidate; else the path of the top score.
pub open spec fn choose_workdir_spec(active: Option<Seq<char>>, cs: Seq<CandidateView>) -> Option<Seq<char>> {
    let f = with_path(cs);
    if f.len() == 0 {
        None
    } else if active matches Some(a) && window_pos(f, a) >= 0 {
        Some(f[window_pos(f, active->0)].path)
    } else {
        let sc = scores_upto(f, f.len());
        Some(sc[best_upto(sc, sc.len())].path)
    }
}

proof fn lemma_pos_range(scores: Seq<ScoreView>, path: Seq<char>)
    ensures
        -1 <= score_pos(scores, path) < scores.len(),
    decreases scores.len(),
{
    if scores.len() > 0 {
        lemma_pos_range(scores.drop_last(), path);
    }
}

proof fn lemma_score_pos_found(scores: Seq<ScoreView>, path: Seq<char>, i: int)
    requires
        0 <= i < scores.len(),
        score_pos(scores.subrange(0, i), path) == -1,
        path_equiv(scores[i].path, path),
    ensures
        score_pos(scores, path) == i,
    decreases scores.len(),
{
    if scores.len() > i + 1 {
        assert(scores.drop_last().subrange(0, i) =~= scores.subrange(0, i));
        lemma_score_pos_found(scores.drop_last(), path, i);
    } else {
        assert(scores.drop_last() =~= scores.subrange(0, i));
    }
}

fn find_score(scores: &Vec<WorkdirPathScore>, path: &str) -> (r: Option<usize>)
    ensures
        match r {
            Some(p) => p as int == score_pos(score_views(scores@), path@) && p < scores@.len(),
            None => score_pos(score_views(scores@), path@) == -1,
        },
{
    let ghost sv = score_views(scores@);
    let mut i: usize = 0;
    assert(sv.subrange(0, 0) =~= Seq::<ScoreView>::empty());
    while i < scores.len()
        invariant
            i <= scores@.len(),
            sv == score_views(scores@),
            score_pos(sv.subrange(0, i as int), path@) == -1,
        decreases scores@.len() - i,
    {
        assert(sv[i as int] == scores@[i as int]@);
        if paths_equal(scores[i].path.as_str(), path) {
            proof { lemma_score_pos_found(sv, path@, i as int); }
            return Some(i);
        }
        assert(sv.subrange(0, i + 1).drop_last() =~= sv.subrange(0, i as int));
        i = i + 1;
    }
    assert(sv.subrange(0, sv.len() as int) =~= sv);
    None
}

fn beats_exec(a: &WorkdirPathScore, b: &WorkdirPathScore) -> (r: bool)
    ensures
        r == beats(a@, b@),
{
    let ia = match a.lowest_window_index {
        Some(i) => i,
        None => u32::MAX,
    };
    let ib = match b.lowest_window_index {
        Some(i) => i,
        None => u32::MAX,
    };
    if a.count != b.count {
        return a.count > b.count;
    }
    if a.observed_order != b.observed_order {
        return a.observed_order > b.observed_order;
    }
    if ia != ib {
        return ia < ib;
    }
    path_less(a.path.as_str(), b.path.as_str())
}

proof fn lemma_scores_nonempty(cs: Seq<CandidateView>, n: nat)
    requires
        n <= cs.len(),
    ensures
        n > 0 ==> scores_upto(cs, n).len() > 0,
    decreases n,
{
    if n > 0 {
        lemma_scores_nonempty(cs, (n - 1) as nat);
        lemma_pos_range(scores_upto(cs, (n - 1) as nat), cs[n - 1].path);
    }
}

proof fn lemma_window_pos_found(cs: Seq<CandidateView>, id: Seq<char>, i: int)
    requires
        0 <= i < cs.len(),
        window_pos(cs.subrange(0, i), id) == -1,
        cs[i].window_id == id,
    ensures
        window_pos(cs, id) == i,
    decreases cs.len(),
{
    if cs.len() > i + 1 {
        assert(cs.drop_last().subrange(0, i) =~= cs.subrange(0, i));
        lemma_window_pos_found(cs.drop_last(), id, i);
    } else {
        assert(cs.drop_last() =~= cs.subrange(0, i));
    }
}

/// The text of an optional text.
pub open spec fn opt_text(o: Option<&str>) -> Option<Seq<char>> {
    match o {
        Some(a) => Some(a@),
        None => None,
    }
}

/// The path for a new window among `candidates`: the active window's path when
/// it is a candidate with a path, else the path shared by the most candidates
/// (then the most recently seen, then the lowest window index, then the path
/// that sorts first).
pub fn choose_workdir(active_window_id: Option<&str>, candidates: &Vec<WorkdirCandidate>) -> (r: Option<String>)
    ensures
        match r {
            Some(p) => choose_workdir_spec(opt_text(active_window_id), candidate_views(candidates@)) == Some(p@),
            None => choose_workdir_spec(opt_text(active_window_id), candidate_views(candidates@)).is_none(),
        },
{
    let ghost cv = candidate_views(candidates@);
    let mut filtered: Vec<&WorkdirCandidate> = Vec::new();
    let ghost fview = Seq::<CandidateView>::empty();
    let mut i: usize = 0;
    while i < candidates.len()
        invariant
            i <= candidates@.len(),
            cv == candidate_views(candidates@),
            filtered@.map_values(|c: &WorkdirCandidate| c@) == with_path(cv.subrange(0, i as int)),
        decreases candidates@.len() - i,
    {
        assert(cv.subrange(0, i + 1).drop_last() =~= cv.subrange(0, i as int));
        assert(cv[i as int] == candidates@[i as int]@);
        if candidates[i].path.unicode_len() > 0 {
            filtered.push(&candidates[i]);
        }
        assert(filtered@.map_values(|c: &WorkdirCandidate| c@) =~= with_path(cv.subrange(0, i + 1)));
        i = i + 1;
    }
    assert(cv.subrange(0, cv.len() as int) =~= cv);
    let ghost f = filtered@.map_values(|c: &WorkdirCandidate| c@);
    if filtered.len() == 0 {
        return None;
    }
    if let Some(a) = active_window_id {
        let mut k: usize = 0;
        while k < filtered.len()
            invariant
                k <= filtered@.len(),
                f == filtered@.map_values(|c: &WorkdirCandidate| c@),
                f == with_path(cv),
                cv == candidate_views(candidates@),
                f.len() > 0,
                active_window_id == Some(a),
                window_pos(f.subrange(0, k as int), a@) == -1,
            decreases filtered@.len() - k,
        {
            assert(f[k as int] == filtered@[k as int]@);
            if str_eq(filtered[k].window_id.as_str(), a) {
                proof { lemma_window_pos_found(f, a@, k as int); }
                return Some(filtered[k].path.clone());
            }
            assert(f.subrange(0, k + 1).drop_last() =~= f.subrange(0, k as int));
            k = k + 1;
        }
        assert(f.subrange(0, f.len() as int) =~= f);
    }
    let mut scores: Vec<WorkdirPathScore> = Vec::new();
    let mut j: usize = 0;
    while j < filtered.len()
        invariant
            j <= filtered@.len(),
            f == filtered@.map_values(|c: &WorkdirCandidate| c@),
            score_views(scores@) == scores_upto(f, j as nat),
            forall|m: int| 0 <= m < scores@.len() ==> (#[trigger] scores@[m]).count <= j,
        decreases filtered@.len() - j,
    {
        let c = filtered[j];
        assert(f[j as int] == c@);
        let ghost before = scores@;
        match find_score(&scores, c.path.as_str()) {
            Some(p) => {
                assert(scores@[p as int].count <= j);
                assert(score_views(scores@)[p as int] == scores@[p as int]@);
                let current = &scores[p];
                let lowest = match (current.lowest_window_index, c.window_index) {
                    (Some(cur), Some(next)) => Some(if cur <= next { cur } else { next }),
                    (Some(cur), None) => Some(cur),
                    (None, next) => next,
                };
                let updated = WorkdirPathScore {
                    path: current.path.clone(),
                    count: current.count + 1,
                    observed_order: if current.observed_order >= c.observed_order {
                        current.observed_order
                    } else {
                        c.observed_order
                    },
                    lowest_window_index: lowest,
                };
                scores.set(p, updated);
                assert(score_views(scores@) =~= score_views(before).update(p as int, updated@));
            },
            None => {
                let fresh = WorkdirPathScore {
                    path: c.path.clone(),
                    count: 1,
                    observed_order: c.observed_order,
                    lowest_window_index: c.window_index,
                };
                scores.push(fresh);
                assert(score_views(scores@) =~= score_views(before).push(fresh@));
            },
        }
        j = j + 1;
    }
    proof { lemma_scores_nonempty(f, f.len()); }
    let ghost sv = score_views(scores@);
    let mut best: usize = 0;
    let mut m: usize = 1;
    while m < scores.len()
        invariant
            1 <= m <= scores@.len(),
            sv == score_views(scores@),
            best as int == best_upto(sv, m as nat),
            0 <= best < m,
        decreases scores@.len() - m,
    {
        assert(sv[m as int] == scores@[m as int]@ && sv[best as int] == scores@[best as int]@);
        if beats_exec(&scores[m], &scores[best]) {
            best = m;
        }
        m = m + 1;
    }
    assert(sv[best as int] == scores@[best as int]@);
    Some(scores[best].path.clone())
}

/// `a` ranks above `b` before paths are compared: more windows, then a later
/// observation, then a lower window index.
pub open spec fn outranks_before_path(a: ScoreView, b: ScoreView) -> bool {
    a.count > b.count || (a.count == b.count && (a.observed_order > b.observed_order || (a.observed_order
        == b.observed_order && index_rank(a) < index_rank(b))))
}

proof fn lemma_best_upto_is_top(scores: Seq<ScoreView>, n: nat)
    requires
        1 <= n <= scores.len(),
    ensures
        0 <= best_upto(scores, n) < n,
        forall|j: int| 0 <= j < n ==> !outranks_before_path(#[trigger] scores[j], scores[best_upto(scores, n)]),
        forall|j: int| best_upto(scores, n) < j < n ==> !beats(#[trigger] scores[j], scores[best_upto(scores, n)]),
    decreases n,
{
    if n > 1 {
        lemma_best_upto_is_top(scores, (n - 1) as nat);
    }
}

/// When no candidate belongs to the active window, the chosen path is that of
/// a score that no other score outranks by window count, latest observation
/// and lowest window index; and no score after it in first-seen order ranks
/// above it, the path tie-break included.
pub proof fn law_choose_workdir_picks_top_score(active: Option<Seq<char>>, cs: Seq<CandidateView>)
    requires
        with_path(cs).len() > 0,
        !(active matches Some(a) && window_pos(with_path(cs), a) >= 0),
    ensures
        ({
            let sc = scores_upto(with_path(cs), with_path(cs).len());
            exists|b: int| {
                &&& 0 <= b < sc.len()
                &&& choose_workdir_spec(active, cs) == Some(sc[b].path)
                &&& forall|j: int| 0 <= j < sc.len() ==> !outranks_before_path(#[trigger] sc[j], sc[b])
                &&& forall|j: int| b < j < sc.len() ==> !beats(#[trigger] sc[j], sc[b])
            }
        }),
{
    let f = with_path(cs);
    let sc = scores_upto(f, f.len());
    lemma_scores_nonempty(f, f.len());
    lemma_best_upto_is_top(sc, sc.len());
    let b = best_upto(sc, sc.len());
    assert(choose_workdir_spec(active, cs) == Some(sc[b].path));
}

/// The candidate that a live window workdir gives (never observed before).
pub open spec fn live_candidate(w: WindowWorkdir) -> CandidateView {
    CandidateView { window_id: w.window_id@, window_index: Some(w.window_index), path: w.path@, observed_order: 0 }
}

/// Position of the first active live workdir, or -1.
pub open spec fn active_pos(ws: Seq<WindowWorkdir>) -> int
    decreases ws.len(),
{
    if ws.len() == 0 {
        -1
    } else {
        let p = active_pos(ws.drop_last());
        if p >= 0 {
            p
        } else if ws.last().active {
            ws.len() - 1
        } else {
            -1
        }
    }
}

/// The path from live workdirs: the first active window's path, else the
/// chosen candidate path.
pub open spec fn live_path(ws: Seq<WindowWorkdir>) -> Option<Seq<char>> {
    if active_pos(ws) >= 0 {
        Some(ws[active_pos(ws)].path@)
    } else {
        choose_workdir_spec(None, Seq::new(ws.len(), |i: int| live_candidate(ws[i])))
    }
}

proof fn lemma_active_pos_found(ws: Seq<WindowWorkdir>, i: int)
    requires
        0 <= i < ws.len(),
        forall|j: int| 0 <= j < i ==> !(#[trigger] ws[j]).active,
        ws[i].active,
    ensures
        active_pos(ws) == i,
    decreases ws.len(),
{
    if ws.len() > i + 1 {
        lemma_active_pos_found(ws.drop_last(), i);
    } else {
        lemma_active_absent(ws.drop_last());
    }
}

proof fn lemma_active_absent(ws: Seq<WindowWorkdir>)
    requires
        forall|j: int| 0 <= j < ws.len() ==> !(#[trigger] ws[j]).active,
    ensures
        active_pos(ws) == -1,
    decreases ws.len(),
{
    if ws.len() > 0 {
        lemma_active_absent(ws.drop_last());
    }
}

/// The working directory that live workdirs give.
pub fn resolve_path_from_live_workdirs(workdirs: &Vec<WindowWorkdir>) -> (r: Option<String>)
    ensures
        match r {
            Some(p) => live_path(workdirs@) == Some(p@),
            None => live_path(workdirs@).is_none(),
        },
{
    let mut i: usize = 0;
    while i < workdirs.len()
        invariant
            i <= workdirs@.len(),
            forall|j: int| 0 <= j < i ==> !(#[trigger] workdirs@[j]).active,
        decreases workdirs@.len() - i,
    {
        if workdirs[i].active {
            proof { lemma_active_pos_found(workdirs@, i as int); }
            return Some(workdirs[i].path.clone());
        }
        i = i + 1;
    }
    proof { lemma_active_absent(workdirs@); }
    let mut candidates: Vec<WorkdirCandidate> = Vec::new();
    let mut k: usize = 0;
    while k < workdirs.len()
        invariant
            k <= workdirs@.len(),
            candidate_views(candidates@) == Seq::new(k as nat, |m: int| live_candidate(workdirs@[m])),
        decreases workdirs@.len() - k,
    {
        let w = &workdirs[k];
        let c = WorkdirCandidate {
            window_id: w.window_id.clone(),
            window_index: Some(w.window_index),
            path: w.path.clone(),
            observed_order: 0,
        };
        let ghost before = candidates@;
        candidates.push(c);
        assert(candidate_views(candidates@) =~= candidate_views(before).push(c@));
        assert(candidate_views(candidates@) =~= Seq::new((k + 1) as nat, |m: int| live_candidate(workdirs@[m])));
        k = k + 1;
    }
    choose_workdir(None, &candidates)
}

/// A recorded working directory of one window.
#[derive(Debug, PartialEq, Eq)]
pub struct TrackedWindowWorkdir {
    pub path: String,
    pub window_index: Option<u32>,
    pub observed_order: u64,
}

impl Clone for TrackedWindowWorkdir {
    fn clone(&self) -> (c: Self)
        ensures
            c == *self,
    {
        TrackedWindowWorkdir { path: self.path.clone(), window_index: self.window_index, observed_order: self.observed_order }
    }
}

fn copy_windows(ws: &Vec<(String, TrackedWindowWorkdir)>) -> (r: Vec<(String, TrackedWindowWorkdir)>)
    ensures
        r@ == ws@,
{
    let mut r: Vec<(String, TrackedWindowWorkdir)> = Vec::new();
    let mut i: usize = 0;
    while i < ws.len()
        invariant
            i <= ws@.len(),
            r@ == ws@.subrange(0, i as int),
        decreases ws@.len() - i,
    {
        r.push((ws[i].0.clone(), ws[i].1.clone()));
        assert(r@ =~= ws@.subrange(0, i + 1));
        i = i + 1;
    }
    assert(ws@.subrange(0, ws@.len() as int) =~= ws@);
    r
}

pub struct TrackedView {
    pub path: Seq<char>,
    pub window_index: Option<u32>,
    pub observed_order: u64,
}

impl View for TrackedWindowWorkdir {
    type V = TrackedView;

    open spec fn view(&self) -> TrackedView {
        TrackedView { path: self.path@, window_index: self.window_index, observed_order: self.observed_order }
    }
}

/// The recorded working directories of one session's windows, by window id.
#[derive(Debug, Clone, Default, PartialEq, Eq)]
pub struct TrackedSessionWorkdirs {
    pub windows: Vec<(String, TrackedWindowWorkdir)>,
}

/// Recorded windows as (window id, record) views.
pub open spec fn window_entries(ws: Seq<(String, TrackedWindowWorkdir)>) -> Seq<(Seq<char>, TrackedView)> {
    ws.map_values(|e: (String, TrackedWindowWorkdir)| (e.0@, e.1@))
}

/// Whether recorded window `wid` passes the session filter: without a filter
/// every window does, with one only the windows the session has.
pub open spec fn in_session(filter: Option<(DomainView, Seq<char>)>, wid: Seq<char>) -> bool {
    match filter {
        Some((d, sid)) => winlink_pos(d.winlinks, sid, wid) >= 0,
        None => true,
    }
}

pub open spec fn tracked_candidate(e: (Seq<char>, TrackedView)) -> CandidateView {
    CandidateView {
        window_id: e.0,
        window_index: e.1.window_index,
        path: e.1.path,
        observed_order: e.1.observed_order,
    }
}

/// The candidates that the recorded windows give, in record order.
pub open spec fn tracked_candidates(
    ws: Seq<(Seq<char>, TrackedView)>,
    filter: Option<(DomainView, Seq<char>)>,
) -> Seq<CandidateView>
    decreases ws.len(),
{
    if ws.len() == 0 {
        Seq::empty()
    } else {
        tracked_candidates(ws.drop_last(), filter) + if in_session(filter, ws.last().0) {
            seq![tracked_candidate(ws.last())]
        } else {
            Seq::empty()
        }
    }
}

/// The session filter as texts.
pub open spec fn filter_view(session: Option<(&DomainState, &str)>) -> Option<(DomainView, Seq<char>)> {
    match session {
        Some((d, sid)) => Some((d@, sid@)),
        None => None,
    }
}

/// The working directory that recorded windows give, counting only the windows
/// that the session has when it is known, and preferring its active window.
pub fn resolve_path_from_tracked_workdirs(
    tracked_session: &TrackedSessionWorkdirs,
    active_window_id: Option<&str>,
    session: Option<(&DomainState, &str)>,
) -> (r: Option<String>)
    ensures
        match r {
            Some(p) => choose_workdir_spec(
                opt_text(active_window_id),
                tracked_candidates(window_entries(tracked_session.windows@), filter_view(session)),
            ) == Some(p@),
            None => choose_workdir_spec(
                opt_text(active_window_id),
                tracked_candidates(window_entries(tracked_session.windows@), filter_view(session)),
            ).is_none(),
        },
{
    let ghost filter = filter_view(session);
    let ws = &tracked_session.windows;
    let ghost we = window_entries(ws@);
    let mut candidates: Vec<WorkdirCandidate> = Vec::new();
    let mut i: usize = 0;
    while i < ws.len()
        invariant
            i <= ws@.len(),
            filter == filter_view(session),
            we == window_entries(ws@),
            candidate_views(candidates@) == tracked_candidates(we.subrange(0, i as int), filter),
        decreases ws@.len() - i,
    {
        assert(we.subrange(0, i + 1).drop_last() =~= we.subrange(0, i as int));
        assert(we[i as int] == (ws@[i as int].0@, ws@[i as int].1@));
        let (window_id, tracked_window) = (&ws[i].0, &ws[i].1);
        let keep = match session {
            Some((state, session_id)) => find_winlink(&state.winlinks, session_id, window_id.as_str()).is_some(),
            None => true,
        };
        let ghost before = candidates@;
        if keep {
            let c = WorkdirCandidate {
                window_id: window_id.clone(),
                window_index: tracked_window.window_index,
                path: tracked_window.path.clone(),
                observed_order: tracked_window.observed_order,
            };
            candidates.push(c);
            assert(candidate_views(candidates@) =~= candidate_views(before).push(c@));
        }
        assert(candidate_views(candidates@) =~= tracked_candidates(we.subrange(0, i + 1), filter));
        i = i + 1;
    }
    assert(we.subrange(0, we.len() as int) =~= we);
    choose_workdir(active_window_id, &candidates)
}

/// Position of the first entry with key `k`, or -1.
pub open spec fn key_pos<V>(s: Seq<(Seq<char>, V)>, k: Seq<char>) -> int
    decreases s.len(),
{
    if s.len() == 0 {
        -1
    } else {
        let p = key_pos(s.drop_last(), k);
        if p >= 0 {
            p
        } else if s.last().0 == k {
            s.len() - 1
        } else {
            -1
        }
    }
}

/// Map insertion: replaces the value under `k`, or appends `(k, v)`.
pub open spec fn upsert<V>(s: Seq<(Seq<char>, V)>, k: Seq<char>, v: V) -> Seq<(Seq<char>, V)> {
    let p = key_pos(s, k);
    if p >= 0 {
        s.update(p, (s[p].0, v))
    } else {
        s.push((k, v))
    }
}

/// The recorded sessions with the record `t` for window `wid` of session `sid`.
pub open spec fn record_view(
    sessions: Seq<(Seq<char>, Seq<(Seq<char>, TrackedView)>)>,
    sid: Seq<char>,
    wid: Seq<char>,
    t: TrackedView,
) -> Seq<(Seq<char>, Seq<(Seq<char>, TrackedView)>)> {
    let p = key_pos(sessions, sid);
    if p >= 0 {
        sessions.update(p, (sessions[p].0, upsert(sessions[p].1, wid, t)))
    } else {
        sessions.push((sid, seq![(wid, t)]))
    }
}

/// The recorded sessions after recording the first `n` live workdirs of session
/// `sid`, all observed at `order`.
pub open spec fn record_all(
    sessions: Seq<(Seq<char>, Seq<(Seq<char>, TrackedView)>)>,
    sid: Seq<char>,
    ws: Seq<WindowWorkdir>,
    order: u64,
    n: nat,
) -> Seq<(Seq<char>, Seq<(Seq<char>, TrackedView)>)>
    decreases n,
{
    if n == 0 {
        sessions
    } else {
        let w = ws[n - 1];
        record_view(
            record_all(sessions, sid, ws, order, (n - 1) as nat),
            sid,
            w.window_id@,
            TrackedView { path: w.path@, window_index: Some(w.window_index), observed_order: order },
        )
    }
}

/// The recorded windows of session `sid` that `d` still has.
pub open spec fn live_windows(
    ws: Seq<(Seq<char>, TrackedView)>,
    d: DomainView,
    sid: Seq<char>,
) -> Seq<(Seq<char>, TrackedView)>
    decreases ws.len(),
{
    if ws.len() == 0 {
        Seq::empty()
    } else {
        live_windows(ws.drop_last(), d, sid) + if winlink_pos(d.winlinks, sid, ws.last().0) >= 0 {
            seq![ws.last()]
        } else {
            Seq::empty()
        }
    }
}

/// The recorded sessions cut down to the windows that `d` has, dropping
/// sessions left without windows.
pub open spec fn pruned(
    sessions: Seq<(Seq<char>, Seq<(Seq<char>, TrackedView)>)>,
    d: DomainView,
) -> Seq<(Seq<char>, Seq<(Seq<char>, TrackedView)>)>
    decreases sessions.len(),
{
    if sessions.len() == 0 {
        Seq::empty()
    } else {
        let e = sessions.last();
        let kept = live_windows(e.1, d, e.0);
        pruned(sessions.drop_last(), d) + if kept.len() > 0 {
            seq![(e.0, kept)]
        } else {
            Seq::empty()
        }
    }
}

/// The working directories recorded per session and window, and the counter
/// that orders observations.
#[derive(Debug, Clone, Default, PartialEq, Eq)]
pub struct SessionWorkdirTracker {
    next_observed_order: u64,
    sessions: Vec<(String, TrackedSessionWorkdirs)>,
}

pub struct TrackerView {
    pub next_observed_order: u64,
    pub sessions: Seq<(Seq<char>, Seq<(Seq<char>, TrackedView)>)>,
}

pub open spec fn session_entries(s: Seq<(String, TrackedSessionWorkdirs)>) -> Seq<(Seq<char>, Seq<(Seq<char>, TrackedView)>)> {
    s.map_values(|e: (String, TrackedSessionWorkdirs)| (e.0@, window_entries(e.1.windows@)))
}

impl View for SessionWorkdirTracker {
    type V = TrackerView;

    closed spec fn view(&self) -> TrackerView {
        TrackerView { next_observed_order: self.next_observed_order, sessions: session_entries(self.sessions@) }
    }
}

/// `n + 1`, saturating at `u64::MAX`.
pub open spec fn bump(n: u64) -> u64 {
    if n == u64::MAX { n } else { (n + 1) as u64 }
}

proof fn lemma_key_pos_found<V>(s: Seq<(Seq<char>, V)>, k: Seq<char>, i: int)
    requires
        0 <= i < s.len(),
        key_pos(s.subrange(0, i), k) == -1,
        s[i].0 == k,
    ensures
        key_pos(s, k) == i,
    decreases s.len(),
{
    if s.len() > i + 1 {
        assert(s.drop_last().subrange(0, i) =~= s.subrange(0, i));
        lemma_key_pos_found(s.drop_last(), k, i);
    } else {
        assert(s.drop_last() =~= s.subrange(0, i));
    }
}

proof fn lemma_key_pos_range<V>(s: Seq<(Seq<char>, V)>, k: Seq<char>)
    ensures
        -1 <= key_pos(s, k) < s.len(),
    decreases s.len(),
{
    if s.len() > 0 {
        lemma_key_pos_range(s.drop_last(), k);
    }
}

fn find_window_entry(ws: &Vec<(String, TrackedWindowWorkdir)>, wid: &str) -> (r: Option<usize>)
    ensures
        match r {
            Some(p) => p as int == key_pos(window_entries(ws@), wid@) && p < ws@.len(),
            None => key_pos(window_entries(ws@), wid@) == -1,
        },
{
    let ghost we = window_entries(ws@);
    let mut i: usize = 0;
    assert(we.subrange(0, 0) =~= Seq::<(Seq<char>, TrackedView)>::empty());
    while i < ws.len()
        invariant
            i <= ws@.len(),
            we == window_entries(ws@),
            key_pos(we.subrange(0, i as int), wid@) == -1,
        decreases ws@.len() - i,
    {
        assert(we[i as int] == (ws@[i as int].0@, ws@[i as int].1@));
        if str_eq(ws[i].0.as_str(), wid) {
            proof { lemma_key_pos_found(we, wid@, i as int); }
            return Some(i);
        }
        assert(we.subrange(0, i + 1).drop_last() =~= we.subrange(0, i as int));
        i = i + 1;
    }
    assert(we.subrange(0, we.len() as int) =~= we);
    None
}

fn find_session_entry(ss: &Vec<(String, TrackedSessionWorkdirs)>, sid: &str) -> (r: Option<usize>)
    ensures
        match r {
            Some(p) => p as int == key_pos(session_entries(ss@), sid@) && p < ss@.len(),
            None => key_pos(session_entries(ss@), sid@) == -1,
        },
{
    let ghost se = session_entries(ss@);
    let mut i: usize = 0;
    assert(se.subrange(0, 0) =~= Seq::<(Seq<char>, Seq<(Seq<char>, TrackedView)>)>::empty());
    while i < ss.len()
        invariant
            i <= ss@.len(),
            se == session_entries(ss@),
            key_pos(se.subrange(0, i as int), sid@) == -1,
        decreases ss@.len() - i,
    {
        assert(se[i as int].0 == ss@[i as int].0@);
        if str_eq(ss[i].0.as_str(), sid) {
            proof { lemma_key_pos_found(se, sid@, i as int); }
            return Some(i);
        }
        assert(se.subrange(0, i + 1).drop_last() =~= se.subrange(0, i as int));
        i = i + 1;
    }
    assert(se.subrange(0, se.len() as int) =~= se);
    None
}

/// The tracker after recording the live workdirs `ws` of session `sid`, all as
/// one observation; nothing changes when there are none.
pub open spec fn session_workdirs_recorded(before: TrackerView, after: TrackerView, sid: Seq<char>, ws: Seq<WindowWorkdir>) -> bool {
    if ws.len() == 0 {
        after == before
    } else {
        &&& after.next_observed_order == bump(before.next_observed_order)
        &&& after.sessions == record_all(before.sessions, sid, ws, before.next_observed_order, ws.len())
    }
}

/// The working directory for a new window in session `sid`: from the live
/// workdirs when they give one, else from the recorded windows of the session
/// (only those `state` still shows in it, preferring its active window).
pub open spec fn session_path_spec(t: TrackerView, state: DomainView, sid: Seq<char>, live: Seq<WindowWorkdir>) -> Option<Seq<char>> {
    match live_path(live) {
        Some(p) => Some(p),
        None => {
            let tp = key_pos(t.sessions, sid);
            if tp < 0 {
                None
            } else {
                let sp = session_pos(state.sessions, sid);
                let filter = if sp >= 0 { Some((state, sid)) } else { None };
                let active = if sp >= 0 {
                    match state.sessions[sp].active_window_id {
                        Some(a) => Some(a@),
                        None => None,
                    }
                } else {
                    None
                };
                choose_workdir_spec(active, tracked_candidates(t.sessions[tp].1, filter))
            }
        },
    }
}

impl SessionWorkdirTracker {
    pub fn new() -> (t: Self)
        ensures
            t@.next_observed_order == 0,
            t@.sessions.len() == 0,
    {
        let t = SessionWorkdirTracker { next_observed_order: 0, sessions: Vec::new() };
        assert(t@.sessions =~= Seq::<(Seq<char>, Seq<(Seq<char>, TrackedView)>)>::empty());
        t
    }

    /// The order for the next observation; the counter moves on (saturating).
    pub fn next_observed_order(&mut self) -> (order: u64)
        ensures
            order == old(self)@.next_observed_order,
            final(self)@.next_observed_order == bump(old(self)@.next_observed_order),
            final(self)@.sessions == old(self)@.sessions,
    {
        let next = self.next_observed_order;
        self.next_observed_order = self.next_observed_order.saturating_add(1);
        next
    }

    fn record_window(&mut self, session_id: &str, window_id: &str, window_index: Option<u32>, path: String, observed_order: u64)
        ensures
            final(self)@.next_observed_order == old(self)@.next_observed_order,
            final(self)@.sessions == record_view(
                old(self)@.sessions,
                session_id@,
                window_id@,
                TrackedView { path: path@, window_index, observed_order },
            ),
    {
        let record = TrackedWindowWorkdir { path, window_index, observed_order };
        let ghost tv = record@;
        let ghost old_entries = session_entries(self.sessions@);
        match find_session_entry(&self.sessions, session_id) {
            Some(p) => {
                let ghost ws_old = window_entries(self.sessions@[p as int].1.windows@);
                assert(old_entries[p as int] == (self.sessions@[p as int].0@, ws_old));
                let mut windows = copy_windows(&self.sessions[p].1.windows);
                assert(window_entries(windows@) == ws_old);
                match find_window_entry(&windows, window_id) {
                    Some(q) => {
                        let key = windows[q].0.clone();
                        let ghost before = windows@;
                        windows.set(q, (key, record));
                        assert(window_entries(windows@) =~= window_entries(before).update(q as int, (window_entries(before)[q as int].0, tv)));
                    },
                    None => {
                        let ghost before = windows@;
                        windows.push((to_owned_string(window_id), record));
                        assert(window_entries(windows@) =~= window_entries(before).push((window_id@, tv)));
                    },
                }
                let sid = self.sessions[p].0.clone();
                let ghost before = self.sessions@;
                self.sessions.set(p, (sid, TrackedSessionWorkdirs { windows }));
                assert(session_entries(self.sessions@) =~= old_entries.update(
                    p as int,
                    (old_entries[p as int].0, upsert(ws_old, window_id@, tv)),
                ));
            },
            None => {
                let windows = vec![(to_owned_string(window_id), record)];
                assert(window_entries(windows@) =~= seq![(window_id@, tv)]);
                let ghost before = self.sessions@;
                self.sessions.push((to_owned_string(session_id), TrackedSessionWorkdirs { windows }));
                assert(session_entries(self.sessions@) =~= old_entries.push((session_id@, seq![(window_id@, tv)])));
            },
        }
    }

    /// Records the pane path that a hook reports for its window, when the hook
    /// names a session, a window and a path.
    pub fn record_hook(&mut self, event: &HookEvent)
        ensures
            match (non_empty_spec(event.session_id), non_empty_spec(event.window_id), non_empty_spec(event.pane_current_path)) {
                (Some(s), Some(w), Some(p)) => final(self)@.next_observed_order == bump(old(self)@.next_observed_order)
                    && final(self)@.sessions == record_view(
                    old(self)@.sessions,
                    s,
                    w,
                    TrackedView { path: p, window_index: event.window_index, observed_order: old(self)@.next_observed_order },
                ),
                _ => final(self)@ == old(self)@,
            },
    {
        let session_id = match non_empty(&event.session_id) {
            Some(s) => s,
            None => return,
        };
        let window_id = match non_empty(&event.window_id) {
            Some(w) => w,
            None => return,
        };
        let path = match non_empty(&event.pane_current_path) {
            Some(p) => p,
            None => return,
        };
        let observed_order = self.next_observed_order();
        self.record_window(session_id.as_str(), window_id.as_str(), event.window_index, path, observed_order);
    }

    /// Records the live workdirs of a session, all as one observation.
    pub fn record_session_workdirs(&mut self, session_id: &str, workdirs: &Vec<WindowWorkdir>)
        ensures
            session_workdirs_recorded(old(self)@, final(self)@, session_id@, workdirs@),
    {
        if workdirs.len() == 0 {
            return;
        }
        let observed_order = self.next_observed_order();
        let ghost start = old(self)@.sessions;
        let mut i: usize = 0;
        while i < workdirs.len()
            invariant
                i <= workdirs@.len(),
                self@.next_observed_order == bump(old(self)@.next_observed_order),
                observed_order == old(self)@.next_observed_order,
                start == old(self)@.sessions,
                self@.sessions == record_all(start, session_id@, workdirs@, observed_order, i as nat),
            decreases workdirs@.len() - i,
        {
            let w = &workdirs[i];
            self.record_window(session_id, w.window_id.as_str(), Some(w.window_index), w.path.clone(), observed_order);
            i = i + 1;
        }
    }

    /// Records the path that a window was created with.
    pub fn record_created_window(&mut self, session_id: &str, window_id: &str, path: String)
        ensures
            final(self)@.next_observed_order == bump(old(self)@.next_observed_order),
            final(self)@.sessions == record_view(
                old(self)@.sessions,
                session_id@,
                window_id@,
                TrackedView { path: path@, window_index: None, observed_order: old(self)@.next_observed_order },
            ),
    {
        let observed_order = self.next_observed_order();
        self.record_window(session_id, window_id, None, path, observed_order);
    }

    /// Forgets the recorded windows that `state` no longer has, and the sessions
    /// left without any.
    pub fn prune_to_projection(&mut self, state: &DomainState)
        ensures
            final(self)@.next_observed_order == old(self)@.next_observed_order,
            final(self)@.sessions == pruned(old(self)@.sessions, state@),
    {
        let ghost old_entries = session_entries(self.sessions@);
        let mut kept: Vec<(String, TrackedSessionWorkdirs)> = Vec::new();
        let mut i: usize = 0;
        while i < self.sessions.len()
            invariant
                i <= self.sessions@.len(),
                old_entries == session_entries(self.sessions@),
                self.next_observed_order == old(self).next_observed_order,
                session_entries(kept@) == pruned(old_entries.subrange(0, i as int), state@),
            decreases self.sessions@.len() - i,
        {
            let (session_id, record) = (&self.sessions[i].0, &self.sessions[i].1);
            let ghost ws_view = window_entries(record.windows@);
            assert(old_entries[i as int] == (session_id@, ws_view));
            let mut windows: Vec<(String, TrackedWindowWorkdir)> = Vec::new();
            let mut k: usize = 0;
            while k < record.windows.len()
                invariant
                    k <= record.windows@.len(),
                    ws_view == window_entries(record.windows@),
                    window_entries(windows@) == live_windows(ws_view.subrange(0, k as int), state@, session_id@),
                decreases record.windows@.len() - k,
            {
                assert(ws_view.subrange(0, k + 1).drop_last() =~= ws_view.subrange(0, k as int));
                assert(ws_view[k as int] == (record.windows@[k as int].0@, record.windows@[k as int].1@));
                let ghost before = windows@;
                if find_winlink(&state.winlinks, session_id.as_str(), record.windows[k].0.as_str()).is_some() {
                    let entry = (record.windows[k].0.clone(), record.windows[k].1.clone());
                    assert(entry.1 == record.windows@[k as int].1);
                    windows.push(entry);
                    assert(window_entries(windows@) =~= window_entries(before).push(ws_view[k as int]));
                }
                assert(window_entries(windows@) =~= live_windows(ws_view.subrange(0, k + 1), state@, session_id@));
                k = k + 1;
            }
            assert(ws_view.subrange(0, ws_view.len() as int) =~= ws_view);
            assert(old_entries.subrange(0, i + 1).drop_last() =~= old_entries.subrange(0, i as int));
            let ghost before = kept@;
            if windows.len() > 0 {
                let entry = (session_id.clone(), TrackedSessionWorkdirs { windows });
                kept.push(entry);
                assert(session_entries(kept@) =~= session_entries(before).push((session_id@, live_windows(ws_view, state@, session_id@))));
            }
            assert(session_entries(kept@) =~= pruned(old_entries.subrange(0, i + 1), state@));
            i = i + 1;
        }
        assert(old_entries.subrange(0, old_entries.len() as int) =~= old_entries);
        self.sessions = kept;
    }

    /// The working directory for a new window in session `session_id`: from the
    /// live workdirs when they give one, else from the recorded windows of the
    /// session (only those it still has, preferring its active window).
    pub fn resolve_session_path(&self, state: &DomainState, session_id: &str, live_workdirs: &Vec<WindowWorkdir>) -> (r: Option<String>)
        ensures
            match r {
                Some(p) => session_path_spec(self@, state@, session_id@, live_workdirs@) == Some(p@),
                None => session_path_spec(self@, state@, session_id@, live_workdirs@).is_none(),
            },
    {
        if let Some(path) = resolve_path_from_live_workdirs(live_workdirs) {
            return Some(path);
        }
        let tp = match find_session_entry(&self.sessions, session_id) {
            Some(tp) => tp,
            None => return None,
        };
        assert(session_entries(self.sessions@)[tp as int].1 == window_entries(self.sessions@[tp as int].1.windows@));
        let record = &self.sessions[tp].1;
        match find_session(&state.sessions, session_id) {
            Some(sp) => {
                proof { lemma_session_pos_range(state.sessions@, session_id@); }
                let active: Option<&str> = match &state.sessions[sp].active_window_id {
                    Some(a) => Some(a.as_str()),
                    None => None,
                };
                resolve_path_from_tracked_workdirs(record, active, Some((state, session_id)))
            },
            None => resolve_path_from_tracked_workdirs(record, None, None),
        }
    }
}

} // verus!
