//! Children of a track wrapped in a nested stack, and unwrapped again.
use vstd::prelude::*;

use crate::edit::{
    empty_track, lemma_stack, spliced, track_at, track_named, with_children, with_track,
};
use crate::error::{bad, invalid, invalid_str, shows, ApplyError, Done, Refusal};
use crate::meta::MetaMap;
use crate::model::{
    opt, views, Stack, StackChild, StackChildModel, StackModel, Stored, Timeline, TimelineModel,
    Track, TrackChild, TrackChildModel, TrackKind,
};
use crate::text::{
    blank, cat2, cat3, cat4, cat6, cat7, count_usize, decimal, is_blank, quote, quoted, trim,
    trimmed, Str,
};
use crate::tracks::{kind_word, word_of_kind};

verus! {

/// The name of a nested stack: as asked for, else `Nested Stack`.
pub open spec fn nested_name(name: Option<Str>) -> Str {
    match name {
        Some(n) if !is_blank(n) => trimmed(n),
        _ => "Nested Stack"@,
    }
}

/// A nested stack of one track.
pub open spec fn nested_stack(name: Str, kind: TrackKind, children: Seq<TrackChildModel>) -> TrackChildModel {
    TrackChildModel::Stack(
        StackModel {
            name,
            children: seq![
                StackChildModel::Track(
                    with_children(empty_track(name + " Track"@, kind), children),
                ),
            ],
            metadata: Seq::empty(),
        },
    )
}

fn build_nested_stack(name: &str, kind: TrackKind, children: Vec<TrackChild>) -> (r: TrackChild)
    ensures
        r@ == nested_stack(name@, kind, views(children@)),
{
    let mut t = Track::empty(cat2(name, " Track").as_str(), kind);
    t.refill(children);
    let mut layers: Vec<StackChild> = Vec::new();
    layers.push(StackChild::Track(t));
    let s = Stack { name: name.to_owned(), children: layers, metadata: MetaMap::new() };
    assert(s@.children =~= seq![StackChildModel::Track(t@)]);
    TrackChild::Stack(s)
}

/// The children from one place up to another.
pub fn copy_children(track: &Track, lo: usize, hi: usize) -> (r: Vec<TrackChild>)
    requires
        lo <= hi <= track@.children.len(),
    ensures
        views(r@) == track@.children.subrange(lo as int, hi as int),
{
    let mut out: Vec<TrackChild> = Vec::new();
    let mut i: usize = lo;
    assert(views(out@) =~= track@.children.subrange(lo as int, lo as int));
    while i < hi
        invariant
            lo <= i <= hi <= track@.children.len(),
            views(out@) == track@.children.subrange(lo as int, i as int),
        decreases hi - i,
    {
        let ghost before = views(out@);
        let c = track.children[i].copied();
        out.push(c);
        assert(views(out@) =~= before.push(c@));
        assert(track@.children.subrange(lo as int, i + 1) =~= before.push(
            track@.children[i as int],
        ));
        i = i + 1;
    }
    out
}

/// Wrapping children of a track in a nested stack.
pub open spec fn wrapped(
    tl: TimelineModel,
    index: usize,
    track: Str,
    lo: usize,
    hi: usize,
    name: Option<Str>,
) -> Done {
    let track = trimmed(track);
    if track.len() == 0 {
        Err(bad(index, "wrap_as_nested: track must not be empty"@))
    } else if lo >= hi {
        Err(
            bad(
                index,
                "wrap_as_nested: start_index "@ + decimal(lo as nat) + " must be < end_index "@
                    + decimal(hi as nat),
            ),
        )
    } else {
        match track_named(tl, track) {
            None => Err(bad(index, "wrap_as_nested: track "@ + quoted(track) + " not found"@)),
            Some(i) => {
                let t = track_at(tl, i)->0;
                if hi > t.children.len() {
                    Err(
                        bad(
                            index,
                            "wrap_as_nested: range ["@ + decimal(lo as nat) + ".."@ + decimal(
                                hi as nat,
                            ) + ") exceeds track length "@ + decimal(t.children.len()),
                        ),
                    )
                } else {
                    let n = nested_name(name);
                    let stack = nested_stack(
                        n,
                        t.kind,
                        t.children.subrange(lo as int, hi as int),
                    );
                    Ok(
                        (
                            with_track(
                                tl,
                                i,
                                with_children(
                                    t,
                                    spliced(t.children, lo as int, hi as int, seq![stack]),
                                ),
                            ),
                            "wrapped children ["@ + decimal(lo as nat) + ".."@ + decimal(hi as nat)
                                + ") on track "@ + quoted(track) + " into nested stack "@ + quoted(
                                n,
                            ),
                        ),
                    )
                }
            },
        }
    }
}

/// Wraps children of a track in a nested stack.
pub fn apply_wrap_as_nested(
    working: Timeline,
    index: usize,
    track_name: &str,
    start_index: usize,
    end_index: usize,
    name: &Option<String>,
) -> (r: Result<(Timeline, String), ApplyError>)
    ensures
        shows(r, wrapped(working@, index, track_name@, start_index, end_index, opt(*name))),
{
    let track_name = trim(track_name);
    if track_name.as_str().is_empty() {
        return Err(invalid_str(index, "wrap_as_nested: track must not be empty"));
    }
    if start_index >= end_index {
        return Err(
            invalid(
                index,
                cat4(
                    "wrap_as_nested: start_index ",
                    count_usize(start_index).as_str(),
                    " must be < end_index ",
                    count_usize(end_index).as_str(),
                ),
            ),
        );
    }
    let found = working.find_track(track_name.as_str());
    let i: usize = match found {
        Some(i) => i,
        None => {
            return Err(
                invalid(
                    index,
                    cat3(
                        "wrap_as_nested: track ",
                        quote(track_name.as_str()).as_str(),
                        " not found",
                    ),
                ),
            );
        },
    };
    let mut t = working.track(i).unwrap().copied();
    if end_index > t.size() {
        return Err(
            invalid(
                index,
                cat6(
                    "wrap_as_nested: range [",
                    count_usize(start_index).as_str(),
                    "..",
                    count_usize(end_index).as_str(),
                    ") exceeds track length ",
                    count_usize(t.size()).as_str(),
                ),
            ),
        );
    }
    let n = match name {
        Some(n) => if blank(n.as_str()) {
            "Nested Stack".to_owned()
        } else {
            trim(n.as_str())
        },
        None => "Nested Stack".to_owned(),
    };
    let inner = copy_children(&t, start_index, end_index);
    let stack = build_nested_stack(n.as_str(), t.kind, inner);
    let mut middle: Vec<TrackChild> = Vec::new();
    middle.push(stack);
    assert(views(middle@) =~= seq![stack@]);
    t.splice(start_index, end_index, middle);
    let mut out = working;
    out.put_track(i, t);
    let said = crate::text::cat8(
        "wrapped children [",
        count_usize(start_index).as_str(),
        "..",
        count_usize(end_index).as_str(),
        ") on track ",
        quote(track_name.as_str()).as_str(),
        " into nested stack ",
        quote(n.as_str()).as_str(),
    );
    Ok((out, said))
}

/// What the first `n` layers of a nested stack hold, one after the other; their
/// tracks must be of the kind of the track around them.
pub open spec fn flat(index: usize, layers: Seq<StackChildModel>, kind: TrackKind, n: int) -> Result<
    Seq<TrackChildModel>,
    Refusal,
>
    decreases n,
{
    if n <= 0 {
        Ok(Seq::empty())
    } else {
        match flat(index, layers, kind, n - 1) {
            Err(e) => Err(e),
            Ok(s) => match layers[n - 1] {
                StackChildModel::Track(t) => if t.kind != kind {
                    Err(
                        bad(
                            index,
                            "flatten_nested: nested track "@ + quoted(t.name) + " kind "@
                                + kind_word(t.kind) + " does not match parent kind "@ + kind_word(
                                kind,
                            ),
                        ),
                    )
                } else {
                    Ok(s + t.children)
                },
                StackChildModel::Clip(c) => Ok(s.push(TrackChildModel::Clip(c))),
                StackChildModel::Gap(g) => Ok(s.push(TrackChildModel::Gap(g))),
                StackChildModel::Stack(x) => Ok(s.push(TrackChildModel::Stack(x))),
            },
        }
    }
}

proof fn lemma_flat_err(index: usize, layers: Seq<StackChildModel>, kind: TrackKind, m: int, n: int)
    requires
        0 <= m <= n,
        flat(index, layers, kind, m) is Err,
    ensures
        flat(index, layers, kind, n) == flat(index, layers, kind, m),
    decreases n - m,
{
    if m < n {
        lemma_flat_err(index, layers, kind, m, n - 1);
    }
}

fn flatten(index: usize, stack: &Stack, kind: TrackKind) -> (r: Result<Vec<TrackChild>, ApplyError>)
    ensures
        ({
            let want = flat(index, stack@.children, kind, stack@.children.len() as int);
            match r {
                Ok(v) => want == Ok::<Seq<TrackChildModel>, Refusal>(views(v@)),
                Err(e) => want == Err::<Seq<TrackChildModel>, Refusal>(e@),
            }
        }),
{
    let ghost layers = stack@.children;
    proof {
        lemma_stack(*stack);
    }
    let mut out: Vec<TrackChild> = Vec::new();
    let mut i: usize = 0;
    assert(views(out@) =~= Seq::<TrackChildModel>::empty());
    while i < stack.children.len()
        invariant
            i <= stack.children@.len(),
            layers == views(stack.children@),
            layers == stack@.children,
            flat(index, layers, kind, i as int) == Ok::<Seq<TrackChildModel>, Refusal>(
                views(out@),
            ),
        decreases layers.len() - i,
    {
        let ghost before = views(out@);
        assert(layers[i as int] == stack.children@[i as int]@);
        match &stack.children[i] {
            StackChild::Track(t) => {
                if t.kind != kind {
                    proof {
                        lemma_flat_err(index, layers, kind, i + 1, layers.len() as int);
                    }
                    return Err(
                        invalid(
                            index,
                            cat6(
                                "flatten_nested: nested track ",
                                quote(t.name.as_str()).as_str(),
                                " kind ",
                                word_of_kind(t.kind),
                                " does not match parent kind ",
                                word_of_kind(kind),
                            ),
                        ),
                    );
                }
                let mut inner = copy_children(t, 0, t.size());
                let ghost added = inner@;
                let ghost held = out@;
                assert(views(added) =~= t@.children);
                out.append(&mut inner);
                assert(out@ =~= held + added);
                assert(views(out@) =~= before + t@.children);
            },
            StackChild::Clip(c) => {
                out.push(TrackChild::Clip(c.copied()));
                assert(views(out@) =~= before.push(TrackChildModel::Clip(c@)));
            },
            StackChild::Gap(g) => {
                out.push(TrackChild::Gap(g.copied()));
                assert(views(out@) =~= before.push(TrackChildModel::Gap(g@)));
            },
            StackChild::Stack(s) => {
                out.push(TrackChild::Stack(s.copied()));
                assert(views(out@) =~= before.push(TrackChildModel::Stack(s@)));
            },
        }
        i = i + 1;
    }
    Ok(out)
}

/// Putting what a nested stack holds in place of the stack.
pub open spec fn flattened(tl: TimelineModel, index: usize, track: Str, j: usize) -> Done {
    let track = trimmed(track);
    if track.len() == 0 {
        Err(bad(index, "flatten_nested: track must not be empty"@))
    } else {
        match track_named(tl, track) {
            None => Err(bad(index, "flatten_nested: track "@ + quoted(track) + " not found"@)),
            Some(i) => {
                let t = track_at(tl, i)->0;
                if j >= t.children.len() {
                    Err(
                        bad(
                            index,
                            "flatten_nested: child_index "@ + decimal(j as nat)
                                + " exceeds track length "@ + decimal(t.children.len()),
                        ),
                    )
                } else {
                    match t.children[j as int] {
                        TrackChildModel::Stack(s) => match flat(
                            index,
                            s.children,
                            t.kind,
                            s.children.len() as int,
                        ) {
                            Err(e) => Err(e),
                            Ok(inner) => Ok(
                                (
                                    with_track(
                                        tl,
                                        i,
                                        with_children(
                                            t,
                                            spliced(t.children, j as int, j + 1, inner),
                                        ),
                                    ),
                                    "flattened nested stack at child "@ + decimal(j as nat)
                                        + " on track "@ + quoted(track) + " into "@ + decimal(
                                        inner.len(),
                                    ) + " children"@,
                                ),
                            ),
                        },
                        _ => Err(
                            bad(
                                index,
                                "flatten_nested: child "@ + decimal(j as nat)
                                    + " is not a nested stack"@,
                            ),
                        ),
                    }
                }
            },
        }
    }
}

/// Puts what a nested stack holds in place of the stack.
pub fn apply_flatten_nested(working: Timeline, index: usize, track_name: &str, child_index: usize) -> (r:
    Result<(Timeline, String), ApplyError>)
    ensures
        shows(r, flattened(working@, index, track_name@, child_index)),
{
    let track_name = trim(track_name);
    if track_name.as_str().is_empty() {
        return Err(invalid_str(index, "flatten_nested: track must not be empty"));
    }
    let found = working.find_track(track_name.as_str());
    let i: usize = match found {
        Some(i) => i,
        None => {
            return Err(
                invalid(
                    index,
                    cat3(
                        "flatten_nested: track ",
                        quote(track_name.as_str()).as_str(),
                        " not found",
                    ),
                ),
            );
        },
    };
    let mut t = working.track(i).unwrap().copied();
    if child_index >= t.size() {
        return Err(
            invalid(
                index,
                cat4(
                    "flatten_nested: child_index ",
                    count_usize(child_index).as_str(),
                    " exceeds track length ",
                    count_usize(t.size()).as_str(),
                ),
            ),
        );
    }
    let inner = match &t.children[child_index] {
        TrackChild::Stack(s) => match flatten(index, s, t.kind) {
            Ok(v) => v,
            Err(e) => {
                return Err(e);
            },
        },
        _ => {
            return Err(
                invalid(
                    index,
                    cat3(
                        "flatten_nested: child ",
                        count_usize(child_index).as_str(),
                        " is not a nested stack",
                    ),
                ),
            );
        },
    };
    let n: usize = inner.len();
    assert(views(inner@).len() == n);
    t.splice(child_index, child_index + 1, inner);
    let mut out = working;
    out.put_track(i, t);
    let said = cat7(
        "flattened nested stack at child ",
        count_usize(child_index).as_str(),
        " on track ",
        quote(track_name.as_str()).as_str(),
        " into ",
        count_usize(n).as_str(),
        " children",
    );
    Ok((out, said))
}

} // verus!
