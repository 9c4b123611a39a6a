//! What holds of the library as a whole.
use vstd::prelude::*;

use crate::boundary::{
    current, cut_key_at, has_cut, next_id_from, previous_id, pruned_child, pruned_layer, solid,
    still_meets, track_has_cut, with_current_cuts, with_current_splits,
};
use crate::clip::{
    child_id, first_where, lemma_first_where, other_effect, with_sole_effect, without_effect,
};
use crate::dispatch::{located, op_done, Answers};
use crate::docs::{replaced_by_id, with_id};
use crate::edit::track_at;
use crate::engine::{advanced, after_ops, envelope_done, AppliedOpModel, SessionModel};
use crate::envelope::EdlOp;
use crate::error::Refusal;
use crate::meta::{lookup, place, place_from, put, without, Meta, Pairs};
use crate::model::{
    ClipModel, DocumentModel, EffectModel, StackChildModel, TimelineModel, TrackChildModel,
    TrackModel,
};
use crate::num::{zero, Num};
use crate::text::Str;
use crate::title::{begins_from, has_role, role_layer, title_place, with_role_track};
use crate::wellformed::{
    child_fine, child_warnings, children_warnings, counts_down, keepable, layer_fine,
    layers_warnings, track_fine,
};

verus! {

// ---- metadata -------------------------------------------------------------

proof fn lemma_place(m: Pairs, key: Str, at: int)
    requires
        0 <= at,
    ensures
        match place_from(m, key, at) {
            Some(i) => at <= i < m.len() && m[i].0 == key && forall|j: int|
                at <= j < i ==> (#[trigger] m[j]).0 != key,
            None => forall|j: int| at <= j < m.len() ==> (#[trigger] m[j]).0 != key,
        },
    decreases m.len() - at,
{
    if at < m.len() && m[at].0 != key {
        lemma_place(m, key, at + 1);
    }
}

proof fn lemma_place_is(m: Pairs, key: Str, at: int, i: int)
    requires
        0 <= at <= i < m.len(),
        m[i].0 == key,
        forall|j: int| at <= j < i ==> (#[trigger] m[j]).0 != key,
    ensures
        place_from(m, key, at) == Some(i),
    decreases i - at,
{
    if at < i {
        lemma_place_is(m, key, at + 1, i);
    }
}

proof fn lemma_place_none(m: Pairs, key: Str, at: int)
    requires
        0 <= at,
        forall|j: int| at <= j < m.len() ==> (#[trigger] m[j]).0 != key,
    ensures
        place_from(m, key, at) is None,
    decreases m.len() - at,
{
    if at < m.len() {
        lemma_place_none(m, key, at + 1);
    }
}

/// What was put under a key is found there, and nothing else changes.
pub proof fn law_put_then_lookup(m: Pairs, key: Str, value: Meta, other: Str)
    ensures
        lookup(put(m, key, value), key) == Some(value),
        other != key ==> lookup(put(m, key, value), other) == lookup(m, other),
{
    let after = put(m, key, value);
    lemma_place(m, key, 0);
    lemma_place(m, other, 0);
    match place(m, key) {
        Some(i) => {
            lemma_place_is(after, key, 0, i);
        },
        None => {
            lemma_place_is(after, key, 0, m.len() as int);
        },
    }
    if other != key {
        match place(m, other) {
            Some(i) => {
                lemma_place_is(after, other, 0, i);
            },
            None => {
                lemma_place_none(after, other, 0);
            },
        }
    }
}

proof fn lemma_push_lookup(m: Pairs, e: (Str, Meta), key: Str)
    ensures
        lookup(m.push(e), key) == (if lookup(m, key) is None && e.0 == key {
            Some(e.1)
        } else {
            lookup(m, key)
        }),
{
    let after = m.push(e);
    lemma_place(m, key, 0);
    match place(m, key) {
        Some(i) => {
            lemma_place_is(after, key, 0, i);
        },
        None => if e.0 == key {
            lemma_place_is(after, key, 0, m.len() as int);
        } else {
            lemma_place_none(after, key, 0);
        },
    }
}

/// What was removed from under a key is gone, and nothing else changes.
pub proof fn law_remove_then_lookup(m: Pairs, key: Str, other: Str)
    ensures
        lookup(without(m, key), key) is None,
        other != key ==> lookup(without(m, key), other) == lookup(m, other),
    decreases m.len(),
{
    reveal(Seq::filter);
    if m.len() > 0 {
        let rest = m.drop_last();
        law_remove_then_lookup(rest, key, other);
        assert(m =~= rest.push(m.last()));
        lemma_push_lookup(rest, m.last(), other);
        lemma_push_lookup(without(rest, key), m.last(), other);
        lemma_push_lookup(without(rest, key), m.last(), key);
    }
}

// ---- effects --------------------------------------------------------------

/// A clip that gets an effect in place of its kind has that effect last, and no
/// other of its kind.
pub proof fn law_effect_is_sole(c: ClipModel, e: EffectModel)
    ensures
        with_sole_effect(c, e).effects.last() == e,
        forall|i: int|
            0 <= i < with_sole_effect(c, e).effects.len() - 1 ==> (#[trigger] with_sole_effect(
                c,
                e,
            ).effects[i]).effect_name != e.effect_name,
        without_effect(with_sole_effect(c, e), e.effect_name) == without_effect(c, e.effect_name),
{
    let p = other_effect(e.effect_name);
    let kept = c.effects.filter(p);
    lemma_filtered(c.effects, p);
    lemma_filter_all(kept, p);
    lemma_filter_push(kept, p, e);
    assert(with_sole_effect(c, e).effects.filter(p) =~= kept);
}

/// Of two effects of one kind that a clip gets one after the other, the second
/// stays.
pub proof fn law_last_effect_stays(c: ClipModel, first: EffectModel, second: EffectModel)
    requires
        first.effect_name == second.effect_name,
    ensures
        with_sole_effect(with_sole_effect(c, first), second) == with_sole_effect(c, second),
{
    law_effect_is_sole(c, first);
}

proof fn lemma_filtered<A>(s: Seq<A>, p: spec_fn(A) -> bool)
    ensures
        forall|i: int| 0 <= i < s.filter(p).len() ==> p(#[trigger] s.filter(p)[i]),
    decreases s.len(),
{
    reveal(Seq::filter);
    if s.len() > 0 {
        lemma_filtered(s.drop_last(), p);
    }
}

/// A filter that all pass leaves them as they are.
pub proof fn lemma_filter_all<A>(s: Seq<A>, p: spec_fn(A) -> bool)
    requires
        forall|i: int| 0 <= i < s.len() ==> p(#[trigger] s[i]),
    ensures
        s.filter(p) == s,
    decreases s.len(),
{
    reveal(Seq::filter);
    if s.len() > 0 {
        lemma_filter_all(s.drop_last(), p);
        assert(s =~= s.drop_last().push(s.last()));
    } else {
        assert(s.filter(p) =~= s);
    }
}

proof fn lemma_filter_push<A>(s: Seq<A>, p: spec_fn(A) -> bool, x: A)
    ensures
        s.push(x).filter(p) == (if p(x) {
            s.filter(p).push(x)
        } else {
            s.filter(p)
        }),
{
    reveal(Seq::filter);
    assert(s.push(x).drop_last() =~= s);
}

// ---- documents ------------------------------------------------------------

proof fn lemma_first_is<A>(s: Seq<A>, p: spec_fn(A) -> bool, from: int, i: int)
    requires
        0 <= from <= i < s.len(),
        p(s[i]),
        forall|j: int| from <= j < i ==> !p(#[trigger] s[j]),
    ensures
        first_where(s, p, from) == Some(i),
    decreases i - from,
{
    if from < i {
        assert(!p(s[from]));
        lemma_first_is(s, p, from + 1, i);
    }
}

proof fn lemma_first_none<A>(s: Seq<A>, p: spec_fn(A) -> bool, from: int)
    requires
        0 <= from,
        forall|j: int| from <= j < s.len() ==> !p(#[trigger] s[j]),
    ensures
        first_where(s, p, from) is None,
    decreases s.len() - from,
{
    if from < s.len() {
        assert(!p(s[from]));
        lemma_first_none(s, p, from + 1);
    }
}

/// A document that was kept is found under its id, and those under other ids
/// stay as they were.
pub proof fn law_kept_document_is_found(items: Seq<DocumentModel>, d: DocumentModel, other: Str)
    ensures
        first_where(replaced_by_id(items, d), with_id(d.id), 0) matches Some(i) && replaced_by_id(
            items,
            d,
        )[i] == d,
        other != d.id ==> first_where(replaced_by_id(items, d), with_id(other), 0) == first_where(
            items,
            with_id(other),
            0,
        ),
        other != d.id ==> (first_where(items, with_id(other), 0) matches Some(i)
            ==> replaced_by_id(items, d)[i] == items[i]),
{
    let after = replaced_by_id(items, d);
    lemma_first_where(items, with_id(d.id), 0);
    lemma_first_where(items, with_id(other), 0);
    match first_where(items, with_id(d.id), 0) {
        Some(i) => {
            lemma_first_is(after, with_id(d.id), 0, i);
        },
        None => {
            lemma_first_is(after, with_id(d.id), 0, items.len() as int);
        },
    }
    if other != d.id {
        match first_where(items, with_id(other), 0) {
            Some(i) => {
                lemma_first_is(after, with_id(other), 0, i);
            },
            None => {
                lemma_first_none(after, with_id(other), 0);
            },
        }
    }
}

/// Of two documents with one id that are kept one after the other, the second
/// stays.
pub proof fn law_last_document_stays(
    items: Seq<DocumentModel>,
    first: DocumentModel,
    second: DocumentModel,
)
    requires
        first.id == second.id,
    ensures
        replaced_by_id(replaced_by_id(items, first), second) == replaced_by_id(items, second),
{
    lemma_first_where(items, with_id(first.id), 0);
    let mid = replaced_by_id(items, first);
    match first_where(items, with_id(first.id), 0) {
        Some(i) => {
            lemma_first_is(mid, with_id(first.id), 0, i);
        },
        None => {
            lemma_first_is(mid, with_id(first.id), 0, items.len() as int);
        },
    }
    assert(replaced_by_id(mid, second) =~= replaced_by_id(items, second));
}

// ---- titles ---------------------------------------------------------------

/// When a title begins.
pub open spec fn title_start(c: TrackChildModel) -> Num {
    match c {
        TrackChildModel::Clip(k) => match k.source_range {
            Some(r) => r.start_time.seconds,
            None => zero(),
        },
        _ => zero(),
    }
}

/// Whether a track holds clips only, in the order in which they begin.
pub open spec fn titles_in_order(children: Seq<TrackChildModel>) -> bool {
    &&& forall|i: int| 0 <= i < children.len() ==> (#[trigger] children[i]) is Clip
    &&& forall|i: int| 0 <= i < children.len() ==> title_start(#[trigger] children[i]) is Fin
    &&& forall|i: int, j: int|
        0 <= i < j < children.len() ==> title_start(#[trigger] children[i]).at_most(
            title_start(#[trigger] children[j]),
        )
}

/// A title that is put among titles in order leaves them in order.
pub proof fn law_titles_stay_in_order(t: TrackModel, c: ClipModel, start_s: Num)
    requires
        titles_in_order(t.children),
        start_s is Fin,
        title_start(TrackChildModel::Clip(c)) == start_s,
    ensures
        titles_in_order(t.children.insert(title_place(t, start_s), TrackChildModel::Clip(c))),
{
    let p = begins_from(start_s);
    let k = title_place(t, start_s);
    lemma_first_where(t.children, p, 0);
    let after = t.children.insert(k, TrackChildModel::Clip(c));
    assert forall|i: int| 0 <= i < t.children.len() implies p(t.children[i]) == start_s.at_most(
        title_start(#[trigger] t.children[i]),
    ) by {
        assert(t.children[i] is Clip);
    }
    assert forall|i: int, j: int| 0 <= i < j < after.len() implies title_start(
        #[trigger] after[i],
    ).at_most(title_start(#[trigger] after[j])) by {
        let i0 = if i < k {
            i
        } else {
            i - 1
        };
        let j0 = if j < k {
            j
        } else {
            j - 1
        };
        if i != k && j != k {
            assert(after[i] == t.children[i0]);
            assert(after[j] == t.children[j0]);
        } else if i == k {
            assert(after[j] == t.children[j0]);
            assert(k < t.children.len());
            assert(p(t.children[k]));
            if j0 > k {
                assert(title_start(t.children[k]).at_most(title_start(t.children[j0])));
            }
        } else {
            assert(after[i] == t.children[i0]);
            assert(!p(t.children[i0]));
        }
    }
    assert forall|i: int| 0 <= i < after.len() implies (#[trigger] after[i]) is Clip && title_start(
        after[i],
    ) is Fin by {
        if i != k {
            let i0 = if i < k {
                i
            } else {
                i - 1
            };
            assert(after[i] == t.children[i0]);
        }
    }
}

/// The track for a role is made once.
pub proof fn law_role_track_is_made_once(tl: TimelineModel, role: Str, name: Str)
    ensures
        ({
            let (after, k) = with_role_track(tl, role, name);
            with_role_track(after, role, name) == (after, k) && track_at(after, k) is Some
                && has_role(track_at(after, k)->0, role, name)
        }),
{
    let p = role_layer(role, name);
    lemma_first_where(tl.tracks.children, p, 0);
    let (after, k) = with_role_track(tl, role, name);
    if first_where(tl.tracks.children, p, 0) is None {
        lemma_first_is(after.tracks.children, p, 0, k);
    }
}

// ---- envelopes ------------------------------------------------------------

/// The session has one record for each op so far.
pub proof fn lemma_records(
    original: TimelineModel,
    ops: Seq<EdlOp>,
    answers: Seq<Answers>,
    drawn: Seq<Seq<Str>>,
    n: int,
)
    requires
        0 <= n <= usize::MAX,
        after_ops(original, ops, answers, drawn, n) is Ok,
    ensures
        after_ops(original, ops, answers, drawn, n)->Ok_0.applied.len() == n,
        forall|k: int|
            0 <= k < n ==> (#[trigger] after_ops(
                original,
                ops,
                answers,
                drawn,
                n,
            )->Ok_0.applied[k]).index == k,
    decreases n,
{
    if n > 0 {
        lemma_records(original, ops, answers, drawn, n - 1);
        reveal(advanced);
    }
}

/// An envelope that was applied has one record for each op, in order, and the
/// timeline that it came to can be kept.
pub proof fn law_each_op_is_recorded(
    original: TimelineModel,
    ops: Seq<EdlOp>,
    answers: Seq<Answers>,
    drawn: Seq<Seq<Str>>,
)
    requires
        ops.len() <= usize::MAX,
    ensures
        envelope_done(original, ops, answers, drawn) matches Ok((tl, applied)) ==> keepable(tl)
            is Ok && applied.len() == ops.len() && forall|k: int|
            0 <= k < ops.len() ==> (#[trigger] applied[k]).index == k,
{
    if envelope_done(original, ops, answers, drawn) is Ok {
        lemma_records(original, ops, answers, drawn, ops.len() as int);
    }
}

/// An envelope without ops gives back the timeline, if that can be kept.
pub proof fn law_empty_envelope_changes_nothing(
    original: TimelineModel,
    answers: Seq<Answers>,
    drawn: Seq<Seq<Str>>,
)
    ensures
        keepable(original) is Ok ==> envelope_done(original, Seq::empty(), answers, drawn) == Ok::<
            (TimelineModel, Seq<AppliedOpModel>),
            Refusal,
        >((original, Seq::empty())),
        keepable(original) matches Err(message) ==> envelope_done(
            original,
            Seq::empty(),
            answers,
            drawn,
        ) == Err::<(TimelineModel, Seq<AppliedOpModel>), Refusal>(
            Refusal::OtioInvalid { index: 0, message },
        ),
{
}

/// An envelope that is refused at one op is refused the same way whatever ops
/// come behind it.
pub proof fn law_first_refusal_decides(
    original: TimelineModel,
    ops: Seq<EdlOp>,
    answers: Seq<Answers>,
    drawn: Seq<Seq<Str>>,
    n: int,
)
    requires
        0 <= n <= ops.len(),
        after_ops(original, ops, answers, drawn, n) is Err,
    ensures
        envelope_done(original, ops, answers, drawn) == Err::<
            (TimelineModel, Seq<AppliedOpModel>),
            Refusal,
        >(after_ops(original, ops, answers, drawn, n)->Err_0),
    decreases ops.len() - n,
{
    if n < ops.len() {
        law_first_refusal_decides(original, ops, answers, drawn, n + 1);
    }
}

proof fn lemma_no_child_warnings(children: Seq<TrackChildModel>, n: int, j: int)
    requires
        0 <= j < n <= children.len(),
        children_warnings(children, n).len() == 0,
    ensures
        child_warnings(children[j]).len() == 0,
    decreases n,
{
    if j < n - 1 {
        lemma_no_child_warnings(children, n - 1, j);
    }
}

proof fn lemma_no_layer_warnings(layers: Seq<StackChildModel>, n: int, i: int)
    requires
        0 <= i < n <= layers.len(),
        layers_warnings(layers, n).len() == 0,
    ensures
        layers[i] matches StackChildModel::Track(t) ==> children_warnings(
            t.children,
            t.children.len() as int,
        ).len() == 0,
    decreases n,
{
    if i < n - 1 {
        lemma_no_layer_warnings(layers, n - 1, i);
    }
}

/// Whether a child has the length that one of its kind must have: a clip a length
/// and rates above nothing, empty time a length that is not negative.
pub open spec fn has_length(c: TrackChildModel) -> bool {
    match c {
        TrackChildModel::Clip(c) => match c.source_range {
            Some(r) => zero().less(r.duration.seconds) && zero().less(r.duration.rate)
                && zero().less(r.start_time.rate),
            None => true,
        },
        TrackChildModel::Gap(g) => !counts_down(g.source_range.duration),
        _ => true,
    }
}

/// No envelope brings about a timeline that cannot be kept: every clip on a track
/// of what comes out has a length and rates above nothing, and no empty time there
/// has a negative length.
pub proof fn law_what_comes_out_can_be_kept(
    original: TimelineModel,
    ops: Seq<EdlOp>,
    answers: Seq<Answers>,
    drawn: Seq<Seq<Str>>,
    i: int,
    j: int,
)
    requires
        envelope_done(original, ops, answers, drawn) is Ok,
    ensures
        ({
            let out = envelope_done(original, ops, answers, drawn)->Ok_0.0;
            &&& keepable(out) is Ok
            &&& track_at(out, i) matches Some(t) ==> 0 <= j < t.children.len() ==> has_length(
                t.children[j],
            )
        }),
{
    let out = envelope_done(original, ops, answers, drawn)->Ok_0.0;
    let layers = out.tracks.children;
    if track_at(out, i) is Some && 0 <= j < track_at(out, i)->0.children.len() {
        let t = track_at(out, i)->0;
        lemma_no_layer_warnings(layers, layers.len() as int, i);
        lemma_no_child_warnings(t.children, t.children.len() as int, j);
        assert(layer_fine(layers[i]));
        assert(track_fine(t));
        assert(child_fine(t.children[j]));
    }
}

proof fn lemma_same_ops(
    original: TimelineModel,
    ops: Seq<EdlOp>,
    answers: Seq<Answers>,
    drawn: Seq<Seq<Str>>,
    n: int,
)
    requires
        n < ops.len(),
        ops.len() == answers.len() == drawn.len(),
    ensures
        after_ops(original, ops, answers, drawn, n) == after_ops(
            original,
            ops.drop_last(),
            answers.drop_last(),
            drawn.drop_last(),
            n,
        ),
    decreases n,
{
    if n > 0 {
        lemma_same_ops(original, ops, answers, drawn, n - 1);
    }
}

/// An op that is put behind an envelope is applied to what the envelope comes to.
pub proof fn law_last_op_runs_last(
    original: TimelineModel,
    ops: Seq<EdlOp>,
    answers: Seq<Answers>,
    drawn: Seq<Seq<Str>>,
)
    requires
        0 < ops.len(),
        ops.len() == answers.len() == drawn.len(),
    ensures
        after_ops(original, ops, answers, drawn, ops.len() as int) == (match after_ops(
            original,
            ops.drop_last(),
            answers.drop_last(),
            drawn.drop_last(),
            ops.len() - 1,
        ) {
            Ok(s) => advanced(s, ops.last(), answers.last(), drawn.last()),
            Err(e) => Err(e),
        }),
{
    lemma_same_ops(original, ops, answers, drawn, ops.len() - 1);
}

// ---- cuts and split edits -------------------------------------------------

/// The children of a track, with the split edits that are none any more dropped.
pub open spec fn pruned_children(children: Seq<TrackChildModel>) -> Seq<TrackChildModel> {
    Seq::new(children.len(), |j: int| pruned_child(children, j))
}

proof fn lemma_same_first<A>(a: Seq<A>, b: Seq<A>, p: spec_fn(A) -> bool, from: int)
    requires
        a.len() == b.len(),
        forall|i: int| 0 <= i < a.len() ==> p(#[trigger] a[i]) == p(b[i]),
    ensures
        first_where(a, p, from) == first_where(b, p, from),
    decreases a.len() - from,
{
    if 0 <= from < a.len() {
        assert(p(a[from]) == p(b[from]));
        lemma_same_first(a, b, p, from + 1);
    }
}

proof fn lemma_same_previous(a: Seq<TrackChildModel>, b: Seq<TrackChildModel>, n: int)
    requires
        a.len() == b.len(),
        forall|i: int| 0 <= i < a.len() ==> child_id(#[trigger] a[i]) == child_id(b[i]),
    ensures
        previous_id(a, n) == previous_id(b, n),
    decreases n,
{
    if 0 < n <= a.len() {
        assert(child_id(a[n - 1]) == child_id(b[n - 1]));
        lemma_same_previous(a, b, n - 1);
    }
}

proof fn lemma_same_next(a: Seq<TrackChildModel>, b: Seq<TrackChildModel>, n: int)
    requires
        a.len() == b.len(),
        forall|i: int| 0 <= i < a.len() ==> child_id(#[trigger] a[i]) == child_id(b[i]),
    ensures
        next_id_from(a, n) == next_id_from(b, n),
    decreases a.len() - n,
{
    if 0 <= n < a.len() {
        assert(child_id(a[n]) == child_id(b[n]));
        lemma_same_next(a, b, n + 1);
    }
}

/// Dropping split edits leaves the clips' ids and the kinds of the children.
proof fn lemma_pruned_ids(children: Seq<TrackChildModel>)
    ensures
        pruned_children(children).len() == children.len(),
        forall|i: int|
            0 <= i < children.len() ==> child_id(#[trigger] pruned_children(children)[i])
                == child_id(children[i]),
        forall|i: int|
            0 <= i < children.len() ==> {
                &&& (#[trigger] pruned_children(children)[i]) is Clip == children[i] is Clip
                &&& pruned_children(children)[i] is Gap == children[i] is Gap
                &&& pruned_children(children)[i] is Transition == children[i] is Transition
                &&& pruned_children(children)[i] is Stack == children[i] is Stack
            },
{
}

proof fn lemma_pruned_cut_keys(children: Seq<TrackChildModel>, j: int)
    ensures
        cut_key_at(pruned_children(children), j) == cut_key_at(children, j),
{
    let after = pruned_children(children);
    lemma_pruned_ids(children);
    if 0 <= j < children.len() - 1 {
        assert(child_id(after[j]) == child_id(children[j]));
        assert(child_id(after[j + 1]) == child_id(children[j + 1]));
        if j + 2 < children.len() {
            assert(child_id(after[j + 2]) == child_id(children[j + 2]));
        }
        assert forall|i: int| 0 <= i < after.len() implies solid()(#[trigger] after[i]) == solid()(
            children[i],
        ) by {}
        lemma_same_first(after, children, solid(), j + 1);
        lemma_first_where(children, solid(), j + 1);
        match first_where(children, solid(), j + 1) {
            Some(k) => {
                assert(child_id(after[k]) == child_id(children[k]));
            },
            None => {},
        }
    }
}

proof fn lemma_pruned_has_cut(tl: TimelineModel, key: Str)
    ensures
        has_cut(with_current_splits(tl), key) == has_cut(tl, key),
{
    let after = with_current_splits(tl);
    assert forall|i: int| 0 <= i < tl.tracks.children.len() implies (match #[trigger] track_at(after, i) {
        Some(t) => track_at(tl, i) is Some && t.children == pruned_children(
            track_at(tl, i)->0.children,
        ),
        None => track_at(tl, i) is None,
    }) by {
        if let Some(t) = track_at(tl, i) {
            assert(track_at(after, i)->0.children =~= pruned_children(t.children));
        }
    }
    if has_cut(tl, key) {
        let i = choose|i: int|
            0 <= i < tl.tracks.children.len() && (#[trigger] track_at(tl, i) matches Some(t)
                && track_has_cut(t, key));
        let t = track_at(tl, i)->0;
        let j = choose|j: int|
            0 <= j < t.children.len() && #[trigger] cut_key_at(t.children, j) == Some(key);
        lemma_pruned_cut_keys(t.children, j);
        assert(cut_key_at(track_at(after, i)->0.children, j) == Some(key));
        assert(track_has_cut(track_at(after, i)->0, key));
    }
    if has_cut(after, key) {
        let i = choose|i: int|
            0 <= i < after.tracks.children.len() && (#[trigger] track_at(after, i) matches Some(t)
                && track_has_cut(t, key));
        let t = track_at(after, i)->0;
        let j = choose|j: int|
            0 <= j < t.children.len() && #[trigger] cut_key_at(t.children, j) == Some(key);
        lemma_pruned_cut_keys(track_at(tl, i)->0.children, j);
        assert(cut_key_at(track_at(tl, i)->0.children, j) == Some(key));
        assert(track_has_cut(track_at(tl, i)->0, key));
    }
}

proof fn lemma_has_cut_by_tracks(a: TimelineModel, b: TimelineModel, key: Str)
    requires
        a.tracks == b.tracks,
    ensures
        has_cut(a, key) == has_cut(b, key),
{
    assert(forall|i: int| #[trigger] track_at(a, i) == track_at(b, i));
    if has_cut(a, key) {
        let i = choose|i: int|
            0 <= i < a.tracks.children.len() && (#[trigger] track_at(a, i) matches Some(t)
                && track_has_cut(t, key));
        assert(track_at(b, i) == track_at(a, i));
    }
    if has_cut(b, key) {
        let i = choose|i: int|
            0 <= i < b.tracks.children.len() && (#[trigger] track_at(b, i) matches Some(t)
                && track_has_cut(t, key));
        assert(track_at(a, i) == track_at(b, i));
    }
}

/// The timeline with what is said of cuts and split edits that are none any more
/// dropped, as after each op.
pub open spec fn tidied(tl: TimelineModel) -> TimelineModel {
    with_current_splits(with_current_cuts(tl))
}

/// Whether something is said of nothing but cuts that are there.
pub open spec fn cuts_are_current(tl: TimelineModel) -> bool {
    tl.montage matches Some(m) ==> forall|i: int|
        0 <= i < m.cut_boundaries.len() ==> has_cut(tl, (#[trigger] m.cut_boundaries[i]).key)
}

/// After tidying, all that is said of cuts is said of cuts that are there.
pub proof fn law_tidied_cuts_are_current(tl: TimelineModel)
    ensures
        cuts_are_current(tidied(tl)),
{
    let mid = with_current_cuts(tl);
    if let Some(m) = tl.montage {
        lemma_filtered(m.cut_boundaries, current(tl));
        let kept = m.cut_boundaries.filter(current(tl));
        assert forall|i: int| 0 <= i < kept.len() implies has_cut(
            tidied(tl),
            (#[trigger] kept[i]).key,
        ) by {
            assert(current(tl)(kept[i]));
            lemma_has_cut_by_tracks(mid, tl, kept[i].key);
            lemma_pruned_has_cut(mid, kept[i].key);
        }
    }
}

/// Whether a clip's split edit still meets the clips that it was made with.
pub open spec fn split_is_current(children: Seq<TrackChildModel>, j: int) -> bool {
    children[j] matches TrackChildModel::Clip(c) ==> (c.metadata.montage matches Some(m) ==> (
    m.split_edit matches Some(s) ==> {
        &&& s.audio_lead_s is Some || s.audio_trail_s is Some
        &&& s.audio_lead_s is Some ==> still_meets(
            s.audio_lead_from_clip_id,
            previous_id(children, j),
        )
        &&& s.audio_trail_s is Some ==> still_meets(
            s.audio_trail_to_clip_id,
            next_id_from(children, j + 1),
        )
    }))
}

/// After tidying, every split edit on a track still meets its neighbours.
pub proof fn law_tidied_splits_are_current(tl: TimelineModel, i: int, j: int)
    requires
        track_at(tidied(tl), i) is Some,
        0 <= j < track_at(tidied(tl), i)->0.children.len(),
    ensures
        split_is_current(track_at(tidied(tl), i)->0.children, j),
{
    let t = track_at(tl, i)->0;
    assert(track_at(with_current_cuts(tl), i) == track_at(tl, i));
    let after = track_at(tidied(tl), i)->0.children;
    assert(after =~= pruned_children(t.children));
    lemma_pruned_ids(t.children);
    lemma_same_previous(after, t.children, j);
    lemma_same_next(after, t.children, j + 1);
}

/// Tidying a second time changes nothing.
pub proof fn law_tidying_is_idempotent(tl: TimelineModel)
    ensures
        tidied(tidied(tl)) == tidied(tl),
{
    let once = tidied(tl);
    law_tidied_cuts_are_current(tl);
    if let Some(m) = once.montage {
        assert forall|k: int| 0 <= k < m.cut_boundaries.len() implies current(once)(
            #[trigger] m.cut_boundaries[k],
        ) by {}
        lemma_filter_all(m.cut_boundaries, current(once));
    }
    assert(with_current_cuts(once) == once);
    let twice = with_current_splits(once);
    assert forall|i: int| 0 <= i < once.tracks.children.len() implies #[trigger] twice.tracks.children[i]
        == once.tracks.children[i] by {
        if let StackChildModel::Track(t) = once.tracks.children[i] {
            assert(track_at(once, i) == Some(t));
            assert(pruned_children(t.children) =~= t.children) by {
                assert forall|j: int| 0 <= j < t.children.len() implies pruned_child(
                    t.children,
                    j,
                ) == t.children[j] by {
                    law_tidied_splits_are_current(tl, i, j);
                }
            }
            assert(pruned_layer(once.tracks.children[i])->Track_0.children =~= t.children);
        }
    }
    assert(twice.tracks.children =~= once.tracks.children);
}

/// After each op of an envelope, all that is said of cuts and split edits is
/// said of cuts and split edits that are there.
pub proof fn law_each_op_leaves_cuts_current(s: SessionModel, op: EdlOp, a: Answers, ids: Seq<Str>)
    ensures
        advanced(s, op, a, ids) matches Ok(next) ==> cuts_are_current(next.working) && tidied(
            next.working,
        ) == next.working,
{
    reveal(advanced);
    let index = s.applied.len() as usize;
    if let Ok(loc) = located(index, op, a) {
        if let Ok((tl, _)) = op_done(s.working, index, op, a, loc, ids) {
            law_tidied_cuts_are_current(tl);
            law_tidying_is_idempotent(tl);
        }
    }
}

} // verus!
