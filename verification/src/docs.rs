//! Documents that belong to a project: each is kept whole, most under an id.
use vstd::prelude::*;

use crate::clip::first_where;
use crate::edit::{montage_of, with_montage};
use crate::error::{bad, invalid, invalid_str, shows, ApplyError, Done};
use crate::meta::{lookup, put, Meta, MetaValue};
use crate::model::{
    copy_all, opt, views, Document, DocumentModel, MontageTimelineMetadata,
    MontageTimelineMetadataModel, Stored, Timeline, TimelineModel,
};
use crate::text::{
    cat2, cat3, cat5, cat6, cat7, count_usize, decimal, holds, join, joined, same, strs, Str,
};

verus! {

// ---- documents under an id ------------------------------------------------

/// Whether a document has an id.
pub open spec fn with_id(id: Str) -> spec_fn(DocumentModel) -> bool {
    |d: DocumentModel| d.id == id
}

/// The documents with one in place of the first with its id, or else behind the
/// others.
pub open spec fn replaced_by_id(items: Seq<DocumentModel>, d: DocumentModel) -> Seq<DocumentModel> {
    match first_where(items, with_id(d.id), 0) {
        Some(i) => items.update(i, d),
        None => items.push(d),
    }
}

/// The place of the first document with an id.
pub fn find_by_id(items: &Vec<Document>, id: &str) -> (r: Option<usize>)
    ensures
        match r {
            Some(i) => first_where(views(items@), with_id(id@), 0) == Some(i as int) && i
                < items@.len(),
            None => first_where(views(items@), with_id(id@), 0) is None,
        },
{
    let ghost all = views(items@);
    let mut i: usize = 0;
    while i < items.len()
        invariant
            i <= items@.len(),
            all == views(items@),
            first_where(all, with_id(id@), 0) == first_where(all, with_id(id@), i as int),
        decreases items@.len() - i,
    {
        assert(all[i as int] == items@[i as int]@);
        if same(items[i].id.as_str(), id) {
            return Some(i);
        }
        i = i + 1;
    }
    None
}

/// Puts a document in place of the first with its id, or else behind the others.
pub fn replace_by_id(items: &mut Vec<Document>, new_item: Document)
    ensures
        views(final(items)@) == replaced_by_id(views(old(items)@), new_item@),
{
    let ghost before = views(items@);
    match find_by_id(items, new_item.id.as_str()) {
        Some(i) => {
            items.set(i, new_item);
            assert(views(items@) =~= before.update(i as int, new_item@));
        },
        None => {
            items.push(new_item);
            assert(views(items@) =~= before.push(new_item@));
        },
    }
}

/// Where a document is kept.
#[derive(Clone, Copy, Debug, PartialEq, Eq, Structural)]
pub enum Shelf {
    ProposalPackages,
    ParameterAnimations,
    MotionTemplates,
    MotionScenes,
    CompositionGraphs,
    DeliveryProfiles,
    PreflightReports,
}

/// The metadata with a document on a shelf.
pub open spec fn shelved(m: MontageTimelineMetadataModel, shelf: Shelf, d: DocumentModel) -> MontageTimelineMetadataModel {
    match shelf {
        Shelf::ProposalPackages => MontageTimelineMetadataModel {
            proposal_packages: replaced_by_id(m.proposal_packages, d),
            ..m
        },
        Shelf::ParameterAnimations => MontageTimelineMetadataModel {
            parameter_animations: replaced_by_id(m.parameter_animations, d),
            ..m
        },
        Shelf::MotionTemplates => MontageTimelineMetadataModel {
            motion_templates: replaced_by_id(m.motion_templates, d),
            ..m
        },
        Shelf::MotionScenes => MontageTimelineMetadataModel {
            motion_scenes: replaced_by_id(m.motion_scenes, d),
            ..m
        },
        Shelf::CompositionGraphs => MontageTimelineMetadataModel {
            composition_graphs: replaced_by_id(m.composition_graphs, d),
            ..m
        },
        Shelf::DeliveryProfiles => MontageTimelineMetadataModel {
            delivery_profiles: replaced_by_id(m.delivery_profiles, d),
            ..m
        },
        Shelf::PreflightReports => MontageTimelineMetadataModel {
            preflight_reports: replaced_by_id(m.preflight_reports, d),
            ..m
        },
    }
}

fn put_on_shelf(m: &mut MontageTimelineMetadata, shelf: Shelf, d: Document)
    ensures
        final(m)@ == shelved(old(m)@, shelf, d@),
{
    match shelf {
        Shelf::ProposalPackages => replace_by_id(&mut m.proposal_packages, d),
        Shelf::ParameterAnimations => replace_by_id(&mut m.parameter_animations, d),
        Shelf::MotionTemplates => replace_by_id(&mut m.motion_templates, d),
        Shelf::MotionScenes => replace_by_id(&mut m.motion_scenes, d),
        Shelf::CompositionGraphs => replace_by_id(&mut m.composition_graphs, d),
        Shelf::DeliveryProfiles => replace_by_id(&mut m.delivery_profiles, d),
        Shelf::PreflightReports => replace_by_id(&mut m.preflight_reports, d),
    }
}

/// What is said of a document that was put on a shelf, before its id.
pub open spec fn shelf_words(shelf: Shelf) -> Str {
    match shelf {
        Shelf::ProposalPackages => "stored proposal package "@,
        Shelf::ParameterAnimations => "stored parameter animation "@,
        Shelf::MotionTemplates => "stored motion template "@,
        Shelf::MotionScenes => "stored motion scene "@,
        Shelf::CompositionGraphs => "stored composition graph "@,
        Shelf::DeliveryProfiles => "selected delivery profile "@,
        Shelf::PreflightReports => "stored preflight report "@,
    }
}

fn say_shelf(shelf: Shelf) -> (r: &'static str)
    ensures
        r@ == shelf_words(shelf),
{
    match shelf {
        Shelf::ProposalPackages => "stored proposal package ",
        Shelf::ParameterAnimations => "stored parameter animation ",
        Shelf::MotionTemplates => "stored motion template ",
        Shelf::MotionScenes => "stored motion scene ",
        Shelf::CompositionGraphs => "stored composition graph ",
        Shelf::DeliveryProfiles => "selected delivery profile ",
        Shelf::PreflightReports => "stored preflight report ",
    }
}

/// Putting a document on a shelf.
pub open spec fn document_stored(tl: TimelineModel, shelf: Shelf, d: DocumentModel) -> Done {
    Ok((with_montage(tl, shelved(montage_of(tl), shelf, d)), shelf_words(shelf) + d.id))
}

/// Puts a document on a shelf.
pub fn store_document(working: Timeline, shelf: Shelf, d: &Document) -> (r: Result<
    (Timeline, String),
    ApplyError,
>)
    ensures
        shows(r, document_stored(working@, shelf, d@)),
{
    let mut out = working;
    let mut m = out.take_montage();
    put_on_shelf(&mut m, shelf, d.copied());
    out.put_montage(m);
    Ok((out, cat2(say_shelf(shelf), d.id.as_str())))
}

/// Keeping a composition, and where it is attached.
pub open spec fn composition_attached(tl: TimelineModel, d: DocumentModel, attach_to: Option<Meta>) -> Done {
    let m = shelved(montage_of(tl), Shelf::CompositionGraphs, d);
    let m = match attach_to {
        Some(v) => MontageTimelineMetadataModel {
            extra: put(m.extra, "composition_attach_"@ + d.id, v),
            ..m
        },
        None => m,
    };
    Ok((with_montage(tl, m), "stored composition graph "@ + d.id))
}

/// Keeps a composition, and where it is attached.
pub fn attach_composition(working: Timeline, d: &Document, attach_to: &Option<MetaValue>) -> (r: Result<
    (Timeline, String),
    ApplyError,
>)
    ensures
        shows(r, composition_attached(working@, d@, opt(*attach_to))),
{
    let mut out = working;
    let mut m = out.take_montage();
    put_on_shelf(&mut m, Shelf::CompositionGraphs, d.copied());
    if let Some(v) = attach_to {
        let key = cat2("composition_attach_", d.id.as_str());
        m.extra.insert(key.as_str(), v.copied());
    }
    out.put_montage(m);
    Ok((out, cat2("stored composition graph ", d.id.as_str())))
}

// ---- single documents -----------------------------------------------------

/// How many entries a list in a document has.
pub open spec fn listed(d: Meta, key: Str) -> nat {
    match d {
        Meta::Object(m) => match lookup(m, key) {
            Some(Meta::List(l)) => l.len(),
            _ => 0,
        },
        _ => 0,
    }
}

/// How many entries a list in a document has.
pub fn list_len(d: &MetaValue, key: &str) -> (r: usize)
    ensures
        r == listed(d@, key@),
{
    match d {
        MetaValue::Object(m) => match m.get(key) {
            Some(MetaValue::List(l)) => l.len(),
            _ => 0,
        },
        _ => 0,
    }
}

/// Keeping the catalog of assets.
pub open spec fn catalog_set(tl: TimelineModel, catalog: Meta) -> Done {
    let m = montage_of(tl);
    Ok(
        (
            with_montage(
                tl,
                MontageTimelineMetadataModel { asset_catalog: Some(catalog), ..m },
            ),
            "stored asset catalog with "@ + decimal(listed(catalog, "assets"@)) + " assets"@,
        ),
    )
}

/// Keeps the catalog of assets.
pub fn set_asset_catalog(working: Timeline, catalog: &MetaValue) -> (r: Result<
    (Timeline, String),
    ApplyError,
>)
    ensures
        shows(r, catalog_set(working@, catalog@)),
{
    let mut out = working;
    let mut m = out.take_montage();
    m.asset_catalog = Some(catalog.copied());
    out.put_montage(m);
    let n = count_usize(list_len(catalog, "assets"));
    let said = cat3("stored asset catalog with ", n.as_str(), " assets");
    Ok((out, said))
}

/// Keeping what was chosen from the sources.
pub open spec fn source_review_set(tl: TimelineModel, selects: Seq<Meta>, stringouts: Seq<Meta>) -> Done {
    let m = montage_of(tl);
    Ok(
        (
            with_montage(tl, MontageTimelineMetadataModel { selects, stringouts, ..m }),
            "stored source review with "@ + decimal(selects.len()) + " selects and "@ + decimal(
                stringouts.len(),
            ) + " stringouts"@,
        ),
    )
}

/// Keeps what was chosen from the sources.
pub fn set_source_review(working: Timeline, selects: &Vec<MetaValue>, stringouts: &Vec<MetaValue>) -> (r:
    Result<(Timeline, String), ApplyError>)
    ensures
        shows(r, source_review_set(working@, views(selects@), views(stringouts@))),
{
    let mut out = working;
    let mut m = out.take_montage();
    m.selects = copy_all(selects);
    m.stringouts = copy_all(stringouts);
    out.put_montage(m);
    let said = cat5(
        "stored source review with ",
        count_usize(selects.len()).as_str(),
        " selects and ",
        count_usize(stringouts.len()).as_str(),
        " stringouts",
    );
    Ok((out, said))
}

/// Keeping what was tracked in the picture.
pub open spec fn tracking_set(tl: TimelineModel, package: Meta) -> Done {
    let m = montage_of(tl);
    Ok(
        (
            with_montage(
                tl,
                MontageTimelineMetadataModel { tracking_package: Some(package), ..m },
            ),
            "stored tracking package with "@ + decimal(listed(package, "tracks"@)) + " tracks, "@
                + decimal(listed(package, "masks"@)) + " masks, "@ + decimal(
                listed(package, "mattes"@),
            ) + " mattes"@,
        ),
    )
}

/// Keeps what was tracked in the picture.
pub fn set_tracking_package(working: Timeline, package: &MetaValue) -> (r: Result<
    (Timeline, String),
    ApplyError,
>)
    ensures
        shows(r, tracking_set(working@, package@)),
{
    let mut out = working;
    let mut m = out.take_montage();
    m.tracking_package = Some(package.copied());
    out.put_montage(m);
    let said = cat7(
        "stored tracking package with ",
        count_usize(list_len(package, "tracks")).as_str(),
        " tracks, ",
        count_usize(list_len(package, "masks")).as_str(),
        " masks, ",
        count_usize(list_len(package, "mattes")).as_str(),
        " mattes",
    );
    Ok((out, said))
}

/// Keeping how the colours are finished.
pub open spec fn color_finishing_set(tl: TimelineModel, state: Meta) -> Done {
    let m = montage_of(tl);
    Ok(
        (
            with_montage(
                tl,
                MontageTimelineMetadataModel { color_finishing: Some(state), ..m },
            ),
            "stored color finishing state with "@ + decimal(listed(state, "shot_groups"@))
                + " shot groups"@,
        ),
    )
}

/// Keeps how the colours are finished.
pub fn set_color_finishing(working: Timeline, state: &MetaValue) -> (r: Result<
    (Timeline, String),
    ApplyError,
>)
    ensures
        shows(r, color_finishing_set(working@, state@)),
{
    let mut out = working;
    let mut m = out.take_montage();
    m.color_finishing = Some(state.copied());
    out.put_montage(m);
    let n = count_usize(list_len(state, "shot_groups"));
    let said = cat3("stored color finishing state with ", n.as_str(), " shot groups");
    Ok((out, said))
}

/// Keeping how the sound is finished.
pub open spec fn audio_finishing_set(tl: TimelineModel, state: Meta) -> Done {
    let m = montage_of(tl);
    Ok(
        (
            with_montage(
                tl,
                MontageTimelineMetadataModel { audio_finishing: Some(state), ..m },
            ),
            "stored audio finishing state with "@ + decimal(listed(state, "buses"@)) + " buses"@,
        ),
    )
}

/// Keeps how the sound is finished.
pub fn set_audio_finishing(working: Timeline, state: &MetaValue) -> (r: Result<
    (Timeline, String),
    ApplyError,
>)
    ensures
        shows(r, audio_finishing_set(working@, state@)),
{
    let mut out = working;
    let mut m = out.take_montage();
    m.audio_finishing = Some(state.copied());
    out.put_montage(m);
    let n = count_usize(list_len(state, "buses"));
    let said = cat3("stored audio finishing state with ", n.as_str(), " buses");
    Ok((out, said))
}

/// Keeping how far each stage is, and what was planned.
pub open spec fn readiness_set(tl: TimelineModel, readiness: Meta, planner_passes: Seq<Meta>) -> Done {
    let m = montage_of(tl);
    Ok(
        (
            with_montage(
                tl,
                MontageTimelineMetadataModel {
                    pipeline_readiness: Some(readiness),
                    planner_passes,
                    ..m
                },
            ),
            "stored pipeline readiness with "@ + decimal(listed(readiness, "stages"@))
                + " stages"@,
        ),
    )
}

/// Keeps how far each stage is, and what was planned.
pub fn set_pipeline_readiness(
    working: Timeline,
    readiness: &MetaValue,
    planner_passes: &Vec<MetaValue>,
) -> (r: Result<(Timeline, String), ApplyError>)
    ensures
        shows(r, readiness_set(working@, readiness@, views(planner_passes@))),
{
    let mut out = working;
    let mut m = out.take_montage();
    m.pipeline_readiness = Some(readiness.copied());
    m.planner_passes = copy_all(planner_passes);
    out.put_montage(m);
    let n = count_usize(list_len(readiness, "stages"));
    let said = cat3("stored pipeline readiness with ", n.as_str(), " stages");
    Ok((out, said))
}

/// How the editor is set up for a kind of work.
#[derive(Debug)]
pub struct WorkflowLens {
    /// Its name.
    pub name: String,
    /// Its name as it is kept.
    pub key: String,
}

/// Setting the editor up for a kind of work.
pub open spec fn lens_set(tl: TimelineModel, name: Str, key: Str) -> Done {
    let m = montage_of(tl);
    Ok(
        (
            with_montage(
                tl,
                MontageTimelineMetadataModel {
                    workflow_lenses: if m.workflow_lenses.contains(key) {
                        m.workflow_lenses
                    } else {
                        m.workflow_lenses.push(key)
                    },
                    extra: put(m.extra, "active_workflow_lens"@, Meta::Text(key)),
                    ..m
                },
            ),
            "set workflow lens to "@ + name,
        ),
    )
}

/// Sets the editor up for a kind of work.
pub fn set_workflow_lens(working: Timeline, lens: &WorkflowLens) -> (r: Result<
    (Timeline, String),
    ApplyError,
>)
    ensures
        shows(r, lens_set(working@, lens.name@, lens.key@)),
{
    let mut out = working;
    let mut m = out.take_montage();
    let ghost before = m@.workflow_lenses;
    assert(strs(m.workflow_lenses@) =~= before);
    if !holds(&m.workflow_lenses, lens.key.as_str()) {
        m.workflow_lenses.push(lens.key.clone());
        assert(m@.workflow_lenses =~= before.push(lens.key@));
    }
    m.extra.insert("active_workflow_lens", MetaValue::text(lens.key.as_str()));
    out.put_montage(m);
    Ok((out, cat2("set workflow lens to ", lens.name.as_str())))
}

// ---- reframing ------------------------------------------------------------

/// What a tracked subject was made into: the tracking package with the new path,
/// and the path's id.
#[derive(Debug)]
pub struct ReframeAnswer {
    pub package: MetaValue,
    pub reframe_id: String,
}

/// Keeping a subject in the picture, along what was tracked.
pub open spec fn reframe_authored(
    tl: TimelineModel,
    index: usize,
    track_id: Str,
    clip_id: Str,
    answer: Result<ReframeAnswer, String>,
) -> Done {
    let m = montage_of(tl);
    match m.tracking_package {
        None => Err(
            bad(index, "author subject reframe requires an existing tracking package"@),
        ),
        Some(_) => match answer {
            Err(e) => Err(bad(index, "author subject reframe failed: "@ + e@)),
            Ok(a) => Ok(
                (
                    with_montage(
                        tl,
                        MontageTimelineMetadataModel {
                            tracking_package: Some(a.package@),
                            ..m
                        },
                    ),
                    "authored subject reframe path "@ + a.reframe_id@ + " for clip "@ + clip_id
                        + " from tracker "@ + track_id,
                ),
            ),
        },
    }
}

/// Keeps a subject in the picture, along what was tracked.
pub fn apply_author_subject_reframe_from_track(
    working: Timeline,
    index: usize,
    track_id: &str,
    clip_id: &str,
    answer: &Result<ReframeAnswer, String>,
) -> (r: Result<(Timeline, String), ApplyError>)
    ensures
        shows(r, reframe_authored(working@, index, track_id@, clip_id@, *answer)),
{
    let mut out = working;
    let mut m = out.take_montage();
    if m.tracking_package.is_none() {
        return Err(
            invalid_str(
                index,
                "author subject reframe requires an existing tracking package",
            ),
        );
    }
    match answer {
        Err(e) => Err(invalid(index, cat2("author subject reframe failed: ", e.as_str()))),
        Ok(a) => {
            m.tracking_package = Some(a.package.copied());
            out.put_montage(m);
            let said = cat6(
                "authored subject reframe path ",
                a.reframe_id.as_str(),
                " for clip ",
                clip_id,
                " from tracker ",
                track_id,
            );
            Ok((out, said))
        },
    }
}

// ---- parameter animations -------------------------------------------------

/// A parameter that changes along the time.
#[derive(Debug)]
pub struct ParameterAnimation {
    pub document: Document,
    /// Whether it is only kept, and not played.
    pub metadata_only: bool,
}

/// What the registry of parameters says of an animation.
#[derive(Debug)]
pub struct AnimationVerdict {
    /// What is wrong with it.
    pub error: Option<String>,
    /// Whether its target can be played.
    pub runtime_target: bool,
    pub clip_parameters: Vec<String>,
    pub track_parameters: Vec<String>,
}

/// Animating a parameter.
pub open spec fn animation_set(
    tl: TimelineModel,
    index: usize,
    a: ParameterAnimation,
    v: AnimationVerdict,
) -> Done {
    if v.error is Some {
        Err(bad(index, v.error->0@))
    } else if !a.metadata_only && !v.runtime_target {
        Err(
            bad(
                index,
                "set_parameter_animation: unsupported parameter animation target for "@
                    + a.document.id@ + "; supported clip parameters: "@ + joined(
                    strs(v.clip_parameters@),
                    ", "@,
                ) + "; supported track parameters: "@ + joined(strs(v.track_parameters@), ", "@)
                    + "; set metadata_only=true to store this as non-runtime metadata"@,
            ),
        )
    } else {
        document_stored(tl, Shelf::ParameterAnimations, a.document@)
    }
}

/// Animates a parameter.
pub fn apply_set_parameter_animation(
    working: Timeline,
    index: usize,
    a: &ParameterAnimation,
    v: &AnimationVerdict,
) -> (r: Result<(Timeline, String), ApplyError>)
    ensures
        shows(r, animation_set(working@, index, *a, *v)),
{
    if let Some(e) = &v.error {
        return Err(invalid(index, e.clone()));
    }
    if !a.metadata_only && !v.runtime_target {
        return Err(
            invalid(
                index,
                cat7(
                    "set_parameter_animation: unsupported parameter animation target for ",
                    a.document.id.as_str(),
                    "; supported clip parameters: ",
                    join(&v.clip_parameters, ", ").as_str(),
                    "; supported track parameters: ",
                    join(&v.track_parameters, ", ").as_str(),
                    "; set metadata_only=true to store this as non-runtime metadata",
                ),
            ),
        );
    }
    store_document(working, Shelf::ParameterAnimations, &a.document)
}

} // verus!
