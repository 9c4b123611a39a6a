//! What a track shows at each time.
use vstd::prelude::*;

use crate::carve::plus_opt;
use crate::edit::start_of;
use crate::gap::{merged, merged_all};
use crate::measures::{first, lemma_onset_front, length, onset, plain};
use crate::model::{MediaReferenceModel, TrackChildModel};
use crate::num::Num;
use crate::time_laws::{gaps_count, on_clock};

verus! {

/// What is shown at some time: which media, and which time of it.
pub type Frame = Option<(MediaReferenceModel, int)>;

/// What a child shows so long after its beginning.
pub open spec fn frame(c: TrackChildModel, after: int) -> Frame {
    match c {
        TrackChildModel::Clip(c) => match c.source_range {
            Some(r) => Some((c.media_reference, first(r) + after)),
            None => None,
        },
        _ => None,
    }
}

/// What the first `n` children of a track show at a time.
pub open spec fn shown_by(children: Seq<TrackChildModel>, n: int, t: int) -> Frame
    decreases n,
{
    if n <= 0 {
        None
    } else if onset(children, n - 1) <= t < onset(children, n) {
        frame(children[n - 1], t - onset(children, n - 1))
    } else {
        shown_by(children, n - 1, t)
    }
}

/// What a track shows at a time.
pub open spec fn shown_at(children: Seq<TrackChildModel>, t: int) -> Frame {
    shown_by(children, children.len() as int, t)
}

/// How long a track lasts.
pub open spec fn whole(children: Seq<TrackChildModel>) -> int {
    onset(children, children.len() as int)
}

/// Whether a child lasts for a time that can be counted.
pub open spec fn timed(c: TrackChildModel) -> bool {
    match c {
        TrackChildModel::Clip(c) => c.source_range matches Some(r) ==> plain(r),
        TrackChildModel::Gap(g) => g.source_range.duration.seconds is Fin && 0 <= length(c),
        _ => true,
    }
}

/// Whether all children of a track last for times that can be counted.
pub open spec fn all_timed(children: Seq<TrackChildModel>) -> bool {
    forall|k: int| 0 <= k < children.len() ==> timed(#[trigger] children[k])
}

/// Whether all children of a track last for times that can be counted, and the
/// track does.
pub open spec fn steady(children: Seq<TrackChildModel>) -> bool {
    &&& all_timed(children)
    &&& whole(children) <= i128::MAX
}

/// A child begins no later than one behind it.
pub proof fn lemma_onsets(children: Seq<TrackChildModel>, a: int, b: int)
    requires
        all_timed(children),
        0 <= a <= b <= children.len(),
    ensures
        0 <= onset(children, a) <= onset(children, b),
    decreases b,
{
    if a < b {
        assert(timed(children[b - 1]));
        lemma_onsets(children, a, b - 1);
    } else if b > 0 {
        assert(timed(children[b - 1]));
        lemma_onsets(children, b - 1, b - 1);
    }
}

/// The times of a track that can be counted are those that are computed.
pub proof fn lemma_steady(children: Seq<TrackChildModel>)
    requires
        steady(children),
    ensures
        on_clock(children),
{
    assert forall|n: int| 0 <= n <= children.len() implies (#[trigger] start_of(children, n)) is Fin
        && 0 <= crate::time_laws::ticks(start_of(children, n)) by {
        lemma_steady_start(children, n);
    }
}

proof fn lemma_steady_start(children: Seq<TrackChildModel>, n: int)
    requires
        steady(children),
        0 <= n <= children.len(),
    ensures
        start_of(children, n) == Num::Fin(onset(children, n) as i128),
        0 <= onset(children, n) <= i128::MAX,
    decreases n,
{
    lemma_onsets(children, 0, n);
    lemma_onsets(children, n, children.len() as int);
    if n > 0 {
        lemma_steady_start(children, n - 1);
        assert(timed(children[n - 1]));
    }
}

/// Nothing is shown before a track begins and after it has ended.
pub proof fn lemma_nothing_outside(children: Seq<TrackChildModel>, n: int, t: int)
    requires
        all_timed(children),
        0 <= n <= children.len(),
        t < 0 || onset(children, n) <= t,
    ensures
        shown_by(children, n, t) is None,
    decreases n,
{
    if n > 0 {
        lemma_onsets(children, 0, n - 1);
        lemma_onsets(children, n - 1, n);
        lemma_nothing_outside(children, n - 1, t);
    }
}

/// What the first children show depends on them alone.
pub proof fn lemma_shown_front(
    a: Seq<TrackChildModel>,
    b: Seq<TrackChildModel>,
    n: int,
    t: int,
)
    requires
        0 <= n <= a.len(),
        n <= b.len(),
        forall|k: int| 0 <= k < n ==> #[trigger] a[k] == b[k],
    ensures
        shown_by(a, n, t) == shown_by(b, n, t),
        onset(a, n) == onset(b, n),
    decreases n,
{
    lemma_onset_front(a, b, n);
    if n > 0 {
        assert(a[n - 1] == b[n - 1]);
        lemma_shown_front(a, b, n - 1, t);
    }
}

/// A further child is shown after all others.
pub proof fn lemma_shown_push(s: Seq<TrackChildModel>, c: TrackChildModel, t: int)
    ensures
        whole(s.push(c)) == whole(s) + length(c),
        shown_at(s.push(c), t) == (if whole(s) <= t < whole(s) + length(c) {
            frame(c, t - whole(s))
        } else {
            shown_at(s, t)
        }),
{
    let p = s.push(c);
    let n = s.len() as int;
    lemma_shown_front(p, s, n, t);
    assert(p[n] == c);
}

/// A further child, if any, is shown after all others.
pub proof fn lemma_shown_plus(s: Seq<TrackChildModel>, x: Option<TrackChildModel>, t: int)
    ensures
        whole(plus_opt(s, x)) == whole(s) + (match x {
            Some(c) => length(c),
            None => 0,
        }),
        shown_at(plus_opt(s, x), t) == (match x {
            Some(c) => if whole(s) <= t < whole(s) + length(c) {
                frame(c, t - whole(s))
            } else {
                shown_at(s, t)
            },
            None => shown_at(s, t),
        }),
{
    if let Some(c) = x {
        lemma_shown_push(s, c, t);
    }
}

/// What is shown while a child lasts is what the child shows.
pub proof fn lemma_shown_while(children: Seq<TrackChildModel>, n: int, k: int, t: int)
    requires
        all_timed(children),
        0 <= k < n <= children.len(),
        onset(children, k) <= t < onset(children, k + 1),
    ensures
        shown_by(children, n, t) == frame(children[k], t - onset(children, k)),
    decreases n,
{
    if k < n - 1 {
        lemma_onsets(children, k + 1, n - 1);
        lemma_shown_while(children, n - 1, k, t);
    }
}

/// Children that follow the same show the same, earlier or later by as much as the
/// first of them begins.
pub proof fn lemma_shown_rest(
    a: Seq<TrackChildModel>,
    b: Seq<TrackChildModel>,
    i: int,
    off: int,
    n: int,
    t: int,
)
    requires
        all_timed(a),
        all_timed(b),
        0 <= i <= n <= a.len(),
        0 <= i + off,
        n + off <= b.len(),
        forall|k: int| i <= k < n ==> #[trigger] a[k] == b[k + off],
        onset(a, i) <= t,
    ensures
        shown_by(a, n, t) == shown_by(b, n + off, t + onset(b, i + off) - onset(a, i)),
        onset(b, n + off) - onset(a, n) == onset(b, i + off) - onset(a, i),
    decreases n - i,
{
    let by = onset(b, i + off) - onset(a, i);
    if n > i {
        lemma_shown_rest(a, b, i, off, n - 1, t);
        assert(a[n - 1] == b[n - 1 + off]);
    } else {
        lemma_nothing_outside(a, n, t);
        lemma_nothing_outside(b, n + off, t + by);
    }
}

/// Merging empty time changes nothing of what is shown when.
pub proof fn law_merging_shows_the_same(children: Seq<TrackChildModel>, rate: Num, t: int)
    requires
        steady(children),
        gaps_count(children),
    ensures
        shown_at(merged_all(children, rate), t) == shown_at(children, t),
        whole(merged_all(children, rate)) == whole(children),
        steady(merged_all(children, rate)),
{
    lemma_merged_shows(children, rate, children.len() as int, t);
}

proof fn lemma_merged_shows(children: Seq<TrackChildModel>, rate: Num, n: int, t: int)
    requires
        steady(children),
        gaps_count(children),
        0 <= n <= children.len(),
    ensures
        shown_at(merged(children, rate, n), t) == shown_by(children, n, t),
        whole(merged(children, rate, n)) == onset(children, n),
        steady(merged(children, rate, n)),
    decreases n,
{
    if n > 0 {
        lemma_merged_shows(children, rate, n - 1, t);
        let m = merged(children, rate, n - 1);
        let out = merged(children, rate, n);
        let c = children[n - 1];
        assert(timed(c));
        lemma_onsets(children, 0, n - 1);
        lemma_onsets(children, n, children.len() as int);
        if c is Gap && m.len() > 0 && m.last() is Gap {
            let k = m.len() - 1;
            assert(timed(m[k]));
            lemma_onsets(m, 0, k);
            assert(whole(m) == onset(m, k) + length(m[k]));
            lemma_shown_front(out, m, k, t);
            assert(out[k] is Gap);
            assert(length(out[k]) == length(m[k]) + length(c));
            assert(whole(out) == onset(out, k) + length(out[k]));
            if whole(m) <= t < whole(out) {
                lemma_nothing_outside(m, k, t);
                lemma_nothing_outside(children, n - 1, t);
            }
            assert forall|x: int| 0 <= x < out.len() implies timed(#[trigger] out[x]) by {
                if x < k {
                    assert(out[x] == m[x]);
                    assert(timed(m[x]));
                }
            }
        } else {
            assert(out == m.push(c));
            lemma_shown_push(m, c, t);
            assert forall|x: int| 0 <= x < out.len() implies timed(#[trigger] out[x]) by {
                if x < m.len() {
                    assert(out[x] == m[x]);
                    assert(timed(m[x]));
                }
            }
        }
    }
}

} // verus!
