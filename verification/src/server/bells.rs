//! Bell alerts: counting new ones, the ttys to ring, keeping alerts that a
//! refreshed snapshot no longer reports until the window is viewed, and the
//! alert that a bell hook reports ahead of the next snapshot.
use vstd::prelude::*;

use crate::domain::state::{
    domain_wf, lemma_same_keys_keep_distinct, find_winlink, key_views, lemma_winlink_pos_range, winlink_pos, DomainState, DomainView, WindowState, WinlinkKey,
};
use crate::ipc::{HookEvent, HookName};
use crate::server::scopes::{hint_matches, non_empty, non_empty_spec, BellClearHint};
use crate::path::{path_before, path_equiv, paths_equal, sort_paths};
use crate::text::{lemma_string_views_push, string_views};

verus! {

/// Whether winlink `e` of the next state carries a bell that the previous state
/// did not show for the same key.
pub open spec fn is_new_bell(prev: Seq<(WinlinkKey, WindowState)>, e: (WinlinkKey, WindowState)) -> bool {
    let p = winlink_pos(prev, e.0.session_id@, e.0.window_id@);
    e.1.bell_flag && !(p >= 0 && prev[p].1.bell_flag)
}

/// Number of new bells among the first `n` winlinks of `next`.
pub open spec fn new_bells_upto(prev: Seq<(WinlinkKey, WindowState)>, next: Seq<(WinlinkKey, WindowState)>, n: nat) -> nat
    decreases n,
{
    if n == 0 {
        0
    } else {
        new_bells_upto(prev, next, (n - 1) as nat) + if is_new_bell(prev, next[n - 1]) { 1nat } else { 0nat }
    }
}

/// Number of winlinks whose bell is new in `next_state`.
pub fn count_new_bell_transitions(previous_state: &DomainState, next_state: &DomainState) -> (n: usize)
    ensures
        n == new_bells_upto(previous_state.winlinks@, next_state.winlinks@, next_state.winlinks@.len()),
{
    let mut n: usize = 0;
    let mut i: usize = 0;
    while i < next_state.winlinks.len()
        invariant
            i <= next_state.winlinks@.len(),
            n == new_bells_upto(previous_state.winlinks@, next_state.winlinks@, i as nat),
            n <= i,
        decreases next_state.winlinks@.len() - i,
    {
        let (key, window) = (&next_state.winlinks[i].0, &next_state.winlinks[i].1);
        if window.bell_flag {
            let previously = match find_winlink(&previous_state.winlinks, key.session_id.as_str(), key.window_id.as_str()) {
                Some(p) => {
                    proof {
                        lemma_winlink_pos_range(previous_state.winlinks@, key.session_id@, key.window_id@);
                    }
                    previous_state.winlinks[p].1.bell_flag
                },
                None => false,
            };
            if !previously {
                n = n + 1;
            }
        }
        i = i + 1;
    }
    n
}

/// The non-empty ttys of the clients, each once, in client order.
pub open spec fn tty_set(d: DomainView) -> Set<Seq<char>> {
    Set::new(|t: Seq<char>| t.len() > 0 && exists|i: int| 0 <= i < d.clients.len() && (#[trigger] d.clients[i]).tty@ == t)
}

/// The ttys to ring, as texts, for state `d`: each is a client's non-empty
/// tty; every client's non-empty tty is one of them or names the same path as
/// one of them; no two name the same path; and they come in path order.
pub open spec fn rings_ttys(d: DomainView, ttys: Seq<Seq<char>>) -> bool {
    &&& forall|k: int| 0 <= k < ttys.len() ==> tty_set(d).contains(#[trigger] ttys[k])
    &&& forall|t: Seq<char>| #[trigger] tty_set(d).contains(t) ==> exists|k: int|
        0 <= k < ttys.len() && (#[trigger] ttys[k] == t || path_equiv(ttys[k], t))
    &&& forall|a: int, b: int| 0 <= a < b < ttys.len() ==> #[trigger] ttys[a] != #[trigger] ttys[b] && !path_equiv(
        ttys[a],
        ttys[b],
    )
    &&& forall|a: int, b: int| 0 <= a < b < ttys.len() ==> !path_before(#[trigger] ttys[b], #[trigger] ttys[a])
}

/// The ttys to ring on a new bell: every client's non-empty tty, sorted by
/// path, each path once.
pub fn bell_notification_ttys(state: &DomainState) -> (ttys: Vec<String>)
    ensures
        rings_ttys(state@, string_views(ttys@)),
{
    let all = client_ttys(state);
    let ghost u = string_views(all@);
    let sorted = sort_paths(all);
    let ghost v = string_views(sorted@);
    proof {
        broadcast use vstd::seq_lib::group_to_multiset_ensures;
        assert forall|t: Seq<char>| #[trigger] v.contains(t) <==> u.contains(t) by {
            if v.contains(t) {
                assert(v.to_multiset().count(t) > 0);
            }
            if u.contains(t) {
                assert(u.to_multiset().count(t) > 0);
            }
        }
        assert forall|a: int, b: int| 0 <= a < b < sorted@.len() implies !path_before(
            (#[trigger] sorted@[b])@,
            (#[trigger] sorted@[a])@,
        ) by {}
    }
    let ttys = dedup_paths(&sorted);
    proof {
        let w = string_views(ttys@);
        assert forall|k: int| 0 <= k < w.len() implies tty_set(state@).contains(#[trigger] w[k]) by {
            assert(w[k] == ttys@[k]@);
            assert(v.contains(ttys@[k]@));
        }
        assert forall|t: Seq<char>| #[trigger] tty_set(state@).contains(t) implies exists|k: int|
            0 <= k < w.len() && (#[trigger] w[k] == t || path_equiv(w[k], t)) by {
            assert(u.contains(t));
            assert(v.contains(t));
            let i = choose|i: int| 0 <= i < v.len() && v[i] == t;
            assert(sorted@[i]@ == t);
            assert(covered(ttys@, sorted@[i]@));
            let m = choose|m: int| 0 <= m < ttys@.len() && ((#[trigger] ttys@[m])@ == sorted@[i]@ || path_equiv(
                ttys@[m]@,
                sorted@[i]@,
            ));
            assert(w[m] == ttys@[m]@);
        }
        assert forall|a: int, b: int| 0 <= a < b < w.len() implies #[trigger] w[a] != #[trigger] w[b] && !path_equiv(
            w[a],
            w[b],
        ) by {
            assert(w[a] == ttys@[a]@ && w[b] == ttys@[b]@);
        }
        assert forall|a: int, b: int| 0 <= a < b < w.len() implies !path_before(#[trigger] w[b], #[trigger] w[a]) by {
            assert(w[a] == ttys@[a]@ && w[b] == ttys@[b]@);
        }
    }
    ttys
}

/// Every client's non-empty tty, in client order (repeats kept).
fn client_ttys(state: &DomainState) -> (ttys: Vec<String>)
    ensures
        forall|t: Seq<char>| #[trigger] tty_set(state@).contains(t) <==> string_views(ttys@).contains(t),
{
    let mut ttys: Vec<String> = Vec::new();
    let mut i: usize = 0;
    while i < state.clients.len()
        invariant
            i <= state.clients@.len(),
            forall|t: Seq<char>| (t.len() > 0 && exists|j: int| 0 <= j < i && (#[trigger] state.clients@[j]).tty@ == t)
                <==> #[trigger] string_views(ttys@).contains(t),
        decreases state.clients@.len() - i,
    {
        let ghost before = ttys@;
        let tty = &state.clients[i].tty;
        if tty.unicode_len() > 0 {
            ttys.push(tty.clone());
            proof {
                lemma_string_views_push(before, *tty);
            }
        }
        proof {
            let sb = string_views(before);
            let sv = string_views(ttys@);
            assert forall|t: Seq<char>| (t.len() > 0 && exists|j: int| 0 <= j < i + 1 && (#[trigger] state.clients@[j]).tty@
                == t) <==> #[trigger] sv.contains(t) by {
                if t.len() > 0 && exists|j: int| 0 <= j < i + 1 && (#[trigger] state.clients@[j]).tty@ == t {
                    let j = choose|j: int| 0 <= j < i + 1 && (#[trigger] state.clients@[j]).tty@ == t;
                    if j < i {
                        assert(sb.contains(t));
                        let k = choose|k: int| 0 <= k < sb.len() && sb[k] == t;
                        assert(sv[k] == t);
                    } else {
                        assert(sv[sv.len() - 1] == t);
                    }
                }
                if sv.contains(t) {
                    let k = choose|k: int| 0 <= k < sv.len() && sv[k] == t;
                    if k < sb.len() {
                        assert(sb[k] == t);
                        assert(sb.contains(t));
                    } else {
                        assert(state.clients@[i as int].tty@ == t);
                    }
                }
            }
        }
        i = i + 1;
    }
    proof {
        assert forall|t: Seq<char>| #[trigger] tty_set(state@).contains(t) <==> string_views(ttys@).contains(t) by {
            if tty_set(state@).contains(t) {
                let j = choose|j: int| 0 <= j < state@.clients.len() && (#[trigger] state@.clients[j]).tty@ == t;
                assert(state.clients@[j].tty@ == t);
            }
            if string_views(ttys@).contains(t) {
                let j = choose|j: int| 0 <= j < state.clients@.len() && (#[trigger] state.clients@[j]).tty@ == t;
                assert(state@.clients[j].tty@ == t);
            }
        }
    }
    ttys
}

/// Whether `t` is one of `kept`, or names the same path as one of them.
pub open spec fn covered(kept: Seq<String>, t: Seq<char>) -> bool {
    exists|m: int| 0 <= m < kept.len() && ((#[trigger] kept[m])@ == t || path_equiv(kept[m]@, t))
}

/// The paths in order, each left out when it names the same path as one kept
/// before it (the first of each path is kept).
fn dedup_paths(paths: &Vec<String>) -> (kept: Vec<String>)
    requires
        forall|a: int, b: int| 0 <= a < b < paths@.len() ==> !path_before((#[trigger] paths@[b])@, (#[trigger] paths@[a])@),
    ensures
        forall|m: int| 0 <= m < kept@.len() ==> string_views(paths@).contains((#[trigger] kept@[m])@),
        forall|j: int| 0 <= j < paths@.len() ==> covered(kept@, (#[trigger] paths@[j])@),
        forall|a: int, b: int| 0 <= a < b < kept@.len() ==> (#[trigger] kept@[a])@ != (#[trigger] kept@[b])@ && !path_equiv(
            kept@[a]@,
            kept@[b]@,
        ),
        forall|a: int, b: int| 0 <= a < b < kept@.len() ==> !path_before((#[trigger] kept@[b])@, (#[trigger] kept@[a])@),
{
    let mut kept: Vec<String> = Vec::new();
    let ghost mut idx: Seq<int> = Seq::empty();
    let mut i: usize = 0;
    while i < paths.len()
        invariant
            i <= paths@.len(),
            forall|a: int, b: int| 0 <= a < b < paths@.len() ==> !path_before((#[trigger] paths@[b])@, (#[trigger] paths@[a])@),
            idx.len() == kept@.len(),
            forall|m: int| 0 <= m < idx.len() ==> 0 <= #[trigger] idx[m] < i,
            forall|m: int| 0 <= m < kept@.len() ==> (#[trigger] kept@[m])@ == paths@[idx[m]]@,
            forall|a: int, b: int| 0 <= a < b < kept@.len() ==> #[trigger] idx[a] < #[trigger] idx[b],
            forall|j: int| 0 <= j < i ==> covered(kept@, (#[trigger] paths@[j])@),
            forall|a: int, b: int| 0 <= a < b < kept@.len() ==> (#[trigger] kept@[a])@ != (#[trigger] kept@[b])@ && !path_equiv(
                kept@[a]@,
                kept@[b]@,
            ),
            forall|a: int, b: int| 0 <= a < b < kept@.len() ==> !path_before((#[trigger] kept@[b])@, (#[trigger] kept@[a])@),
        decreases paths@.len() - i,
    {
        let t = &paths[i];
        let mut found = false;
        let mut m: usize = 0;
        while m < kept.len()
            invariant
                m <= kept@.len(),
                !found ==> forall|q: int| 0 <= q < m ==> (#[trigger] kept@[q])@ != t@ && !path_equiv(kept@[q]@, t@),
                found ==> exists|q: int| 0 <= q < kept@.len() && path_equiv((#[trigger] kept@[q])@, t@),
            decreases kept@.len() - m,
        {
            if paths_equal(kept[m].as_str(), t.as_str()) {
                found = true;
            }
            m = m + 1;
        }
        let ghost before = kept@;
        let ghost before_idx = idx;
        if !found {
            kept.push(t.clone());
            proof {
                idx = idx.push(i as int);
                assert forall|a: int, b: int| 0 <= a < b < kept@.len() implies (#[trigger] kept@[a])@ != (#[trigger] kept@[b])@
                    && !path_equiv(kept@[a]@, kept@[b]@) by {
                    assert(kept@[a] == before[a]);
                    if b < before.len() {
                        assert(kept@[b] == before[b]);
                    }
                }
                assert forall|a: int, b: int| 0 <= a < b < kept@.len() implies !path_before(
                    (#[trigger] kept@[b])@,
                    (#[trigger] kept@[a])@,
                ) by {
                    assert(kept@[a] == before[a]);
                    if b < before.len() {
                        assert(kept@[b] == before[b]);
                    } else {
                        assert(idx[a] == before_idx[a] && before_idx[a] < i);
                        assert(before[a]@ == paths@[before_idx[a]]@);
                        assert(!path_before(paths@[i as int]@, paths@[idx[a]]@));
                    }
                }
                assert forall|m2: int| 0 <= m2 < idx.len() implies 0 <= #[trigger] idx[m2] < i + 1 by {
                    if m2 < before_idx.len() {
                        assert(idx[m2] == before_idx[m2]);
                    }
                }
                assert forall|m2: int| 0 <= m2 < kept@.len() implies (#[trigger] kept@[m2])@ == paths@[idx[m2]]@ by {
                    if m2 < before.len() {
                        assert(kept@[m2] == before[m2] && idx[m2] == before_idx[m2]);
                    }
                }
                assert forall|a: int, b: int| 0 <= a < b < kept@.len() implies #[trigger] idx[a] < #[trigger] idx[b] by {
                    assert(idx[a] == before_idx[a]);
                    assert(before_idx[a] < i);
                    if b < before.len() {
                        assert(idx[b] == before_idx[b]);
                    }
                }
            }
        }
        proof {
            assert forall|j: int| 0 <= j < i + 1 implies covered(kept@, (#[trigger] paths@[j])@) by {
                if j < i {
                    assert(covered(before, paths@[j]@));
                    let q = choose|q: int| 0 <= q < before.len() && ((#[trigger] before[q])@ == paths@[j]@ || path_equiv(
                        before[q]@,
                        paths@[j]@,
                    ));
                    assert(kept@[q] == before[q]);
                } else if found {
                    let q = choose|q: int| 0 <= q < kept@.len() && path_equiv((#[trigger] kept@[q])@, t@);
                    assert(path_equiv(kept@[q]@, paths@[j]@));
                } else {
                    assert(kept@[kept@.len() - 1]@ == paths@[j]@);
                }
            }
        }
        i = i + 1;
    }
    proof {
        assert forall|m: int| 0 <= m < kept@.len() implies string_views(paths@).contains((#[trigger] kept@[m])@) by {
            assert(0 <= idx[m] < paths@.len());
            assert(string_views(paths@)[idx[m]] == paths@[idx[m]]@);
        }
    }
    kept
}

/// Whether some hint clears the bell of winlink `key` at window index `index`.
pub open spec fn hinted(hints: Seq<BellClearHint>, key: (Seq<char>, Seq<char>), index: u32) -> bool {
    exists|h: int| 0 <= h < hints.len() && hint_matches(#[trigger] hints[h], key, index)
}

/// Whether the bell of previous winlink `e` carries over to position `q` of the
/// next winlinks: the key leads to `q`, the key is not viewed by any client, and
/// no hint clears it.
pub open spec fn carries_bell(
    e: (WinlinkKey, WindowState),
    next: Seq<(WinlinkKey, WindowState)>,
    viewed: Seq<(Seq<char>, Seq<char>)>,
    hints: Seq<BellClearHint>,
    q: int,
) -> bool {
    &&& e.1.bell_flag
    &&& winlink_pos(next, e.0.session_id@, e.0.window_id@) == q
    &&& !viewed.contains(e.0@)
    &&& !hinted(hints, e.0@, e.1.index)
}

/// The first of the first `n` previous winlinks whose bell carries over to `q`,
/// or -1.
pub open spec fn first_carrier(
    prev: Seq<(WinlinkKey, WindowState)>,
    next: Seq<(WinlinkKey, WindowState)>,
    viewed: Seq<(Seq<char>, Seq<char>)>,
    hints: Seq<BellClearHint>,
    q: int,
    n: nat,
) -> int
    decreases n,
{
    if n == 0 {
        -1
    } else {
        let f = first_carrier(prev, next, viewed, hints, q, (n - 1) as nat);
        if f >= 0 {
            f
        } else if carries_bell(prev[n - 1], next, viewed, hints, q) {
            n - 1
        } else {
            -1
        }
    }
}

/// The next winlink at `q` with the carried bell, if any: a window without a bell
/// takes the bell and the later activity of the first previous winlink whose
/// bell carries over to it.
pub open spec fn with_carried_bell(
    prev: Seq<(WinlinkKey, WindowState)>,
    next: Seq<(WinlinkKey, WindowState)>,
    viewed: Seq<(Seq<char>, Seq<char>)>,
    hints: Seq<BellClearHint>,
    q: int,
    n: nat,
) -> (WinlinkKey, WindowState) {
    let f = first_carrier(prev, next, viewed, hints, q, n);
    if next[q].1.bell_flag || f < 0 {
        next[q]
    } else {
        (next[q].0, WindowState {
            bell_flag: true,
            activity: if next[q].1.activity >= prev[f].1.activity { next[q].1.activity } else { prev[f].1.activity },
            ..next[q].1
        })
    }
}

fn key_in(keys: &Vec<WinlinkKey>, key: &WinlinkKey) -> (b: bool)
    ensures
        b == key_views(keys@).contains(key@),
{
    let mut i: usize = 0;
    while i < keys.len()
        invariant
            i <= keys@.len(),
            forall|j: int| 0 <= j < i ==> (#[trigger] keys@[j])@ != key@,
        decreases keys@.len() - i,
    {
        if keys[i].same_as(key) {
            assert(key_views(keys@)[i as int] == key@);
            return true;
        }
        i = i + 1;
    }
    proof {
        if key_views(keys@).contains(key@) {
            let j = choose|j: int| 0 <= j < key_views(keys@).len() && key_views(keys@)[j] == key@;
            assert(keys@[j]@ == key@);
        }
    }
    false
}

fn any_hint_matches(hints: &Vec<BellClearHint>, key: &WinlinkKey, index: u32) -> (b: bool)
    ensures
        b == hinted(hints@, key@, index),
{
    let mut i: usize = 0;
    while i < hints.len()
        invariant
            i <= hints@.len(),
            forall|j: int| 0 <= j < i ==> !hint_matches(#[trigger] hints@[j], key@, index),
        decreases hints@.len() - i,
    {
        if hints[i].matches(key, index) {
            return true;
        }
        i = i + 1;
    }
    false
}

/// Keeps the bells of `previous_state` that a refreshed `next_state` lost: a
/// winlink that had a bell before and has none now gets it back (with the later
/// activity), unless some client views it or a hint clears it.
pub fn preserve_cached_bell_overlays(
    previous_state: &DomainState,
    next_state: &mut DomainState,
    clear_bell_hints: &Vec<BellClearHint>,
)
    ensures
        final(next_state).tmux_socket_path == old(next_state).tmux_socket_path,
        final(next_state).sessions == old(next_state).sessions,
        final(next_state).clients == old(next_state).clients,
        final(next_state).winlinks@.len() == old(next_state).winlinks@.len(),
        forall|q: int| 0 <= q < old(next_state).winlinks@.len() ==> #[trigger] final(next_state).winlinks@[q]
            == with_carried_bell(
                previous_state.winlinks@,
                old(next_state).winlinks@,
                old(next_state)@.viewed_keys_upto(old(next_state).clients@.len()),
                clear_bell_hints@,
                q,
                previous_state.winlinks@.len(),
            ),
        domain_wf(old(next_state)@) ==> domain_wf(final(next_state)@),
{
    let viewed_windows = next_state.viewed_window_keys();
    let ghost viewed = key_views(viewed_windows@);
    let ghost next0 = next_state.winlinks@;
    let ghost prev = previous_state.winlinks@;
    let ghost hints = clear_bell_hints@;
    let mut i: usize = 0;
    assert forall|q: int| 0 <= q < next0.len() implies #[trigger] next0[q] == with_carried_bell(prev, next0, viewed, hints, q, 0) by {}
    while i < previous_state.winlinks.len()
        invariant
            i <= prev.len(),
            prev == previous_state.winlinks@,
            hints == clear_bell_hints@,
            viewed == key_views(viewed_windows@),
            next_state.tmux_socket_path == old(next_state).tmux_socket_path,
            next_state.sessions == old(next_state).sessions,
            next_state.clients == old(next_state).clients,
            next0 == old(next_state).winlinks@,
            next_state.winlinks@.len() == next0.len(),
            forall|q: int| 0 <= q < next0.len() ==> #[trigger] next_state.winlinks@[q] == with_carried_bell(
                prev,
                next0,
                viewed,
                hints,
                q,
                i as nat,
            ),
            forall|q: int| 0 <= q < next0.len() ==> (#[trigger] next_state.winlinks@[q]).0 == next0[q].0,
        decreases prev.len() - i,
    {
        let (key, previous_window) = (&previous_state.winlinks[i].0, &previous_state.winlinks[i].1);
        let ghost before = next_state.winlinks@;
        proof {
            lemma_winlink_pos_range(next0, key.session_id@, key.window_id@);
        }
        if previous_window.bell_flag {
            let pos = find_winlink(&next_state.winlinks, key.session_id.as_str(), key.window_id.as_str());
            proof {
                assert(winlink_pos(next_state.winlinks@, key.session_id@, key.window_id@) == winlink_pos(next0, key.session_id@, key.window_id@)) by {
                    lemma_same_keys_same_pos(next_state.winlinks@, next0, key.session_id@, key.window_id@);
                }
            }
            if let Some(q) = pos {
                proof { lemma_winlink_pos_range(next0, key.session_id@, key.window_id@); }
                let viewed_key = key_in(&viewed_windows, key);
                let hinted_key = any_hint_matches(clear_bell_hints, key, previous_window.index);
                if !next_state.winlinks[q].1.bell_flag && !viewed_key && !hinted_key {
                    let k = next_state.winlinks[q].0.clone();
                    let mut w = next_state.winlinks[q].1.clone();
                    w.bell_flag = true;
                    if previous_window.activity > w.activity {
                        w.activity = previous_window.activity;
                    }
                    next_state.winlinks.set(q, (k, w));
                }
            }
        }
        proof {
            assert forall|q: int| 0 <= q < next0.len() implies #[trigger] next_state.winlinks@[q] == with_carried_bell(
                prev,
                next0,
                viewed,
                hints,
                q,
                (i + 1) as nat,
            ) by {
                let f0 = first_carrier(prev, next0, viewed, hints, q, i as nat);
                lemma_first_carrier_range(prev, next0, viewed, hints, q, i as nat);
                if f0 >= 0 {
                    assert(carries_bell(prev[f0], next0, viewed, hints, q));
                }
            }
        }
        i = i + 1;
    }
    proof {
        if domain_wf(old(next_state)@) {
            lemma_same_keys_keep_distinct(next0, next_state.winlinks@);
        }
    }
}

proof fn lemma_same_keys_same_pos(
    a: Seq<(WinlinkKey, WindowState)>,
    b: Seq<(WinlinkKey, WindowState)>,
    sid: Seq<char>,
    wid: Seq<char>,
)
    requires
        a.len() == b.len(),
        forall|q: int| 0 <= q < a.len() ==> (#[trigger] a[q]).0 == b[q].0,
    ensures
        winlink_pos(a, sid, wid) == winlink_pos(b, sid, wid),
    decreases a.len(),
{
    if a.len() > 0 {
        assert forall|q: int| 0 <= q < a.drop_last().len() implies (#[trigger] a.drop_last()[q]).0 == b.drop_last()[q].0 by {
            assert(a.drop_last()[q] == a[q]);
            assert(b.drop_last()[q] == b[q]);
        }
        lemma_same_keys_same_pos(a.drop_last(), b.drop_last(), sid, wid);
        assert(a.last().0 == a[a.len() - 1].0);
    }
}

proof fn lemma_first_carrier_range(
    prev: Seq<(WinlinkKey, WindowState)>,
    next: Seq<(WinlinkKey, WindowState)>,
    viewed: Seq<(Seq<char>, Seq<char>)>,
    hints: Seq<BellClearHint>,
    q: int,
    n: nat,
)
    ensures
        -1 <= first_carrier(prev, next, viewed, hints, q, n) < n,
        first_carrier(prev, next, viewed, hints, q, n) >= 0 ==> carries_bell(
            prev[first_carrier(prev, next, viewed, hints, q, n)],
            next,
            viewed,
            hints,
            q,
        ),
    decreases n,
{
    if n > 0 {
        lemma_first_carrier_range(prev, next, viewed, hints, q, (n - 1) as nat);
    }
}

/// The activity that a hook's timestamp gives (seconds), if it carries one.
pub open spec fn hook_activity(e: HookEvent, current: u64) -> u64 {
    match e.timestamp_ms {
        Some(t) => t / 1000,
        None => current,
    }
}

/// Sets the window's activity to the hook's timestamp (in seconds); whether it
/// changed.
pub fn update_activity_timestamp(window: &mut WindowState, event: &HookEvent) -> (changed: bool)
    ensures
        *final(window) == (WindowState { activity: hook_activity(*event, old(window).activity), ..*old(window) }),
        changed == (hook_activity(*event, old(window).activity) != old(window).activity),
{
    if let Some(timestamp_ms) = event.timestamp_ms {
        let activity = timestamp_ms / 1000;
        if window.activity != activity {
            window.activity = activity;
            return true;
        }
    }
    false
}

/// The position of the winlink that a hook names: by session and window id, or
/// else by session and window index (the first such window in window order);
/// -1 when the hook names none.
pub open spec fn hook_target_pos(d: DomainView, e: HookEvent) -> int {
    match non_empty_spec(e.session_id) {
        None => -1,
        Some(s) => match non_empty_spec(e.window_id) {
            Some(w) => winlink_pos(d.winlinks, s, w),
            None => match e.window_index {
                None => -1,
                Some(i) => if exists|p: int| d.is_index_position(s, i, p) {
                    choose|p: int| d.is_index_position(s, i, p)
                } else {
                    -1
                },
            },
        },
    }
}

proof fn lemma_index_position_unique(d: DomainView, s: Seq<char>, i: u32, p1: int, p2: int)
    requires
        d.is_index_position(s, i, p1),
        d.is_index_position(s, i, p2),
    ensures
        p1 == p2,
{
    let k1 = choose|k: int| 0 <= k < d.window_order(s).len() && #[trigger] d.window_order(s)[k] == p1
        && d.winlinks[p1].1.index == i
        && (forall|j: int| 0 <= j < k ==> d.winlinks[#[trigger] d.window_order(s)[j]].1.index != i);
    let k2 = choose|k: int| 0 <= k < d.window_order(s).len() && #[trigger] d.window_order(s)[k] == p2
        && d.winlinks[p2].1.index == i
        && (forall|j: int| 0 <= j < k ==> d.winlinks[#[trigger] d.window_order(s)[j]].1.index != i);
    if k1 < k2 {
        assert(d.winlinks[d.window_order(s)[k1]].1.index != i);
    } else if k2 < k1 {
        assert(d.winlinks[d.window_order(s)[k2]].1.index != i);
    }
}

/// Marks the bell that a bell hook reports on the winlink it names, with the
/// hook's time as activity; whether the state changed. Other hooks change
/// nothing here.
pub fn apply_hook_event_overlay(state: &mut DomainState, event: &HookEvent) -> (changed: bool)
    ensures
        final(state).tmux_socket_path == old(state).tmux_socket_path,
        final(state).sessions == old(state).sessions,
        final(state).clients == old(state).clients,
        ({
            let p = hook_target_pos(old(state)@, *event);
            if p < 0 || event.event != HookName::AlertBell {
                !changed && final(state).winlinks@ == old(state).winlinks@
            } else {
                let w = old(state).winlinks@[p].1;
                &&& 0 <= p < old(state).winlinks@.len()
                &&& final(state).winlinks@ == old(state).winlinks@.update(
                    p,
                    (old(state).winlinks@[p].0, WindowState { bell_flag: true, activity: hook_activity(*event, w.activity), ..w }),
                )
                &&& changed == (!w.bell_flag || hook_activity(*event, w.activity) != w.activity)
            }
        }),
        domain_wf(old(state)@) ==> domain_wf(final(state)@),
{
    let ghost p_spec = hook_target_pos(state@, *event);
    let session_id = match non_empty(&event.session_id) {
        Some(s) => s,
        None => return false,
    };
    let window_id = non_empty(&event.window_id);
    let position = match window_id {
        Some(w) => {
            let r = find_winlink(&state.winlinks, session_id.as_str(), w.as_str());
            proof { lemma_winlink_pos_range(state.winlinks@, session_id@, w@); }
            assert(non_empty_spec(event.window_id) == Some(w@));
            assert(r matches Some(q) ==> q as int == p_spec);
            r
        },
        None => match event.window_index {
            None => return false,
            Some(i) => {
                let r = state.session_window_index_position(session_id.as_str(), i);
                proof {
                    match r {
                        Some(p) => {
                            assert(state@.is_index_position(session_id@, i, p as int));
                            let c = choose|q: int| state@.is_index_position(session_id@, i, q);
                            lemma_index_position_unique(state@, session_id@, i, p as int, c);
                            assert(non_empty_spec(event.window_id).is_none());
                            assert(p as int == p_spec);
                        },
                        None => {
                            assert forall|q: int| !state@.is_index_position(session_id@, i, q) by {
                                if state@.is_index_position(session_id@, i, q) {
                                    let k = choose|k: int| 0 <= k < state@.window_order(session_id@).len()
                                        && #[trigger] state@.window_order(session_id@)[k] == q
                                        && state@.winlinks[q].1.index == i
                                        && (forall|j: int| 0 <= j < k ==> state@.winlinks[#[trigger] state@.window_order(session_id@)[j]].1.index != i);
                                    assert(state@.winlinks[state@.window_order(session_id@)[k]].1.index != i);
                                }
                            }
                        },
                    }
                }
                r
            },
        },
    };
    let p = match position {
        Some(p) => p,
        None => return false,
    };
    assert(p as int == p_spec);
    match event.event {
        HookName::AlertBell => {},
        _ => return false,
    }
    let k = state.winlinks[p].0.clone();
    let mut window = state.winlinks[p].1.clone();
    let mut changed = false;
    if !window.bell_flag {
        window.bell_flag = true;
        changed = true;
    }
    let activity_changed = update_activity_timestamp(&mut window, event);
    let ghost before = state.winlinks@;
    state.winlinks.set(p, (k, window));
    proof {
        if domain_wf(old(state)@) {
            lemma_same_keys_keep_distinct(before, state.winlinks@);
        }
    }
    changed || activity_changed
}

} // verus!
