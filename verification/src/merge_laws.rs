//! What stretches of empty time that are made one leave of a track.
use vstd::prelude::*;

use crate::edit::{child_seconds, gap_of};
use crate::gap::{merged, merged_all};
use crate::model::TrackChildModel;
use crate::num::{milli, Num};

verus! {

/// Whether empty time lasts longer than a thousandth wherever it stands, and no
/// two stretches of it stand side by side.
pub open spec fn is_merged(children: Seq<TrackChildModel>) -> bool {
    &&& forall|i: int|
        0 <= i < children.len() - 1 ==> !((#[trigger] children[i]) is Gap && children[i + 1] is Gap)
    &&& forall|i: int|
        0 <= i < children.len() && (#[trigger] children[i]) is Gap ==> !child_seconds(
            children[i],
        ).at_most(milli())
}

/// Empty time with more empty time behind it.
pub open spec fn joined_time(t: Option<Num>, d: Num) -> Option<Num> {
    match t {
        Some(t) => Some(t.plus(d)),
        None => Some(d),
    }
}

/// The empty time behind the last of the first `n` children that is none, where
/// stretches of a thousandth or less do not count.
pub open spec fn open_time(children: Seq<TrackChildModel>, n: int) -> Option<Num>
    decreases n,
{
    if n <= 0 {
        None
    } else {
        match children[n - 1] {
            TrackChildModel::Gap(g) => {
                let d = g.source_range.duration.seconds;
                if d.at_most(milli()) {
                    open_time(children, n - 1)
                } else {
                    joined_time(open_time(children, n - 1), d)
                }
            },
            _ => None,
        }
    }
}

/// The first `n` children that are no empty time, in order, each with the empty
/// time in front of it.
pub open spec fn outline(children: Seq<TrackChildModel>, n: int) -> Seq<
    (Option<Num>, TrackChildModel),
>
    decreases n,
{
    if n <= 0 {
        Seq::empty()
    } else if children[n - 1] is Gap {
        outline(children, n - 1)
    } else {
        outline(children, n - 1).push((open_time(children, n - 1), children[n - 1]))
    }
}

/// The children that are no empty time, in order.
pub open spec fn solids(children: Seq<TrackChildModel>, n: int) -> Seq<TrackChildModel>
    decreases n,
{
    if n <= 0 {
        Seq::empty()
    } else if children[n - 1] is Gap {
        solids(children, n - 1)
    } else {
        solids(children, n - 1).push(children[n - 1])
    }
}

/// What stands in front is not changed by what comes behind it.
pub proof fn lemma_same_front(a: Seq<TrackChildModel>, b: Seq<TrackChildModel>, n: int)
    requires
        n <= a.len(),
        n <= b.len(),
        forall|k: int| 0 <= k < n ==> #[trigger] a[k] == b[k],
    ensures
        open_time(a, n) == open_time(b, n),
        outline(a, n) == outline(b, n),
        solids(a, n) == solids(b, n),
    decreases n,
{
    if n > 0 {
        lemma_same_front(a, b, n - 1);
    }
}

proof fn lemma_merged(children: Seq<TrackChildModel>, rate: Num, n: int)
    requires
        0 <= n <= children.len(),
    ensures
        ({
            let m = merged(children, rate, n);
            let len = m.len() as int;
            &&& is_merged(m)
            &&& open_time(m, len) == open_time(children, n)
            &&& outline(m, len) == outline(children, n)
            &&& solids(m, len) == solids(children, n)
        }),
    decreases n,
{
    if n > 0 {
        lemma_merged(children, rate, n - 1);
        let m = merged(children, rate, n - 1);
        let out = merged(children, rate, n);
        let c = children[n - 1];
        let len = m.len() as int;
        match c {
            TrackChildModel::Gap(g) => {
                let d = g.source_range.duration.seconds;
                if d.at_most(milli()) {
                } else if len > 0 && m.last() is Gap {
                    let was = child_seconds(m.last());
                    assert(m[len - 1] is Gap);
                    lemma_same_front(out, m, len - 1);
                    assert(out[len - 1] == gap_of(was.plus(d), rate));
                    if len > 1 {
                        assert(!(m[len - 2] is Gap && m[len - 2 + 1] is Gap));
                    }
                    assert(open_time(m, len - 1) is None);
                    assert(!was.plus(d).at_most(milli()));
                    assert(is_merged(out)) by {
                        assert forall|i: int| 0 <= i < out.len() - 1 implies !((
                        #[trigger] out[i]) is Gap && out[i + 1] is Gap) by {
                            assert(!(m[i] is Gap && m[i + 1] is Gap));
                        }
                        assert forall|i: int|
                            0 <= i < out.len() && (#[trigger] out[i]) is Gap implies !child_seconds(
                            out[i],
                        ).at_most(milli()) by {
                            if i < len - 1 {
                                assert(out[i] == m[i]);
                            }
                        }
                    }
                } else {
                    lemma_same_front(out, m, len);
                    assert(out[len] == c);
                    assert(open_time(m, len) is None);
                    lemma_merged_push(m, c);
                }
            },
            _ => {
                lemma_same_front(out, m, len);
                assert(out[len] == c);
                lemma_merged_push(m, c);
            },
        }
    }
}

proof fn lemma_merged_push(m: Seq<TrackChildModel>, c: TrackChildModel)
    requires
        is_merged(m),
        c is Gap ==> (m.len() == 0 || !(m.last() is Gap)) && !child_seconds(c).at_most(milli()),
    ensures
        is_merged(m.push(c)),
{
    let out = m.push(c);
    assert forall|i: int| 0 <= i < out.len() - 1 implies !((#[trigger] out[i]) is Gap && out[i
        + 1] is Gap) by {
        if i < m.len() - 1 {
            assert(!(m[i] is Gap && m[i + 1] is Gap));
        }
    }
    assert forall|i: int|
        0 <= i < out.len() && (#[trigger] out[i]) is Gap implies !child_seconds(out[i]).at_most(
        milli(),
    ) by {
        if i < m.len() {
            assert(out[i] == m[i]);
        }
    }
}

/// When stretches of empty time have been made one, no two of them stand side by
/// side, and none lasts a thousandth or less.
pub proof fn law_merged_gaps_stand_alone(children: Seq<TrackChildModel>, rate: Num)
    ensures
        forall|i: int|
            0 <= i < merged_all(children, rate).len() - 1 ==> !((#[trigger] merged_all(
                children,
                rate,
            )[i]) is Gap && merged_all(children, rate)[i + 1] is Gap),
        forall|i: int|
            0 <= i < merged_all(children, rate).len() && (#[trigger] merged_all(
                children,
                rate,
            )[i]) is Gap ==> !child_seconds(merged_all(children, rate)[i]).at_most(milli()),
{
    lemma_merged(children, rate, children.len() as int);
}

/// When stretches of empty time are made one, all other children stay as they are
/// and in order; in front of each, and behind the last, there is as much empty
/// time as before, stretches of a thousandth or less aside.
pub proof fn law_merging_keeps_the_rest(children: Seq<TrackChildModel>, rate: Num)
    ensures
        ({
            let m = merged_all(children, rate);
            let len = m.len() as int;
            let n = children.len() as int;
            &&& solids(m, len) == solids(children, n)
            &&& outline(m, len) == outline(children, n)
            &&& open_time(m, len) == open_time(children, n)
        }),
{
    lemma_merged(children, rate, children.len() as int);
}

/// What is merged stays as it is.
proof fn lemma_stays_merged(m: Seq<TrackChildModel>, rate: Num, n: int)
    requires
        is_merged(m),
        0 <= n <= m.len(),
    ensures
        merged(m, rate, n) == m.take(n),
    decreases n,
{
    if n > 0 {
        lemma_stays_merged(m, rate, n - 1);
        assert(m.take(n) =~= m.take(n - 1).push(m[n - 1]));
        if n > 1 {
            assert(m.take(n - 1).last() == m[n - 2]);
            assert(!(m[n - 2] is Gap && m[n - 2 + 1] is Gap));
        }
    } else {
        assert(m.take(0) =~= Seq::<TrackChildModel>::empty());
    }
}

/// Making stretches of empty time one a second time changes nothing.
pub proof fn law_merging_is_idempotent(children: Seq<TrackChildModel>, rate: Num, again: Num)
    ensures
        merged_all(merged_all(children, rate), again) == merged_all(children, rate),
{
    let m = merged_all(children, rate);
    lemma_merged(children, rate, children.len() as int);
    lemma_stays_merged(m, again, m.len() as int);
    assert(m.take(m.len() as int) =~= m);
}

} // verus!
