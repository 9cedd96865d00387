//! The segment planner: turns the ordered cut list into render jobs on a
//! consistent virtual output timeline.
//!
//! A cut is retained when both its timestamps parse and its duration is
//! positive; other cuts are skipped without failing the specification, while
//! an unparseable timestamp aborts it. The first retained cut starts at
//! output time 0; every later one starts at the previous cut's output end,
//! minus the fixed transition overlap when a transition is configured on the
//! join (never below 0). The plan records one render job and one
//! source-to-output map entry per retained cut, and one join per configured
//! transition between retained cuts.

use vstd::prelude::*;

use crate::TRANSITION_OVERLAP_MS;
use crate::errors::PlanError;
use crate::filters::get_drawtext_config;
use crate::filters::get_transition_filter;
use crate::filters::spec_caption_box;
use crate::filters::spec_caption_color;
use crate::filters::spec_caption_font;
use crate::filters::spec_caption_y;
use crate::filters::spec_crop_filter;
use crate::filters::spec_transition_filter;
use crate::model::Cut;
use crate::model::CutModel;
use crate::model::CaptionStyleModel;
use crate::model::EditSpec;
use crate::model::EditSpecModel;
use crate::model::PlannerConfig;
use crate::model::PlannerConfigModel;
use crate::model::VisualEffect;
use crate::model::VisualEffectModel;
use crate::text::escape_overlay_text;
use crate::text::escape_text;
use crate::text::str_eq;
use crate::timecode::MAX_TIME_MS;
use crate::timecode::format_index4;
use crate::timecode::format_milli_trimmed;
use crate::timecode::parse_time_ms;
use crate::timecode::spec_index4;
use crate::timecode::spec_milli_trimmed;
use crate::timecode::time_ms;

verus! {

/// A timestamp string that parses and fits the representable range.
pub open spec fn parse_ok(t: Seq<char>) -> bool {
    match time_ms(t) {
        Some(m) => m <= MAX_TIME_MS as int,
        None => false,
    }
}

/// The parsed value of a timestamp (meaningful under `parse_ok`).
pub open spec fn tval(t: Seq<char>) -> int {
    time_ms(t)->Some_0
}

/// Every cut's timestamps parse; anything less aborts the specification.
pub open spec fn cuts_times_ok(cuts: Seq<CutModel>) -> bool {
    forall|i: int|
        0 <= i < cuts.len() ==> parse_ok(#[trigger] cuts[i].start_time) && parse_ok(
            cuts[i].end_time,
        )
}

/// A cut is retained when its timestamps parse and its duration is positive.
pub open spec fn is_retained(c: CutModel) -> bool {
    parse_ok(c.start_time) && parse_ok(c.end_time) && tval(c.end_time) > tval(c.start_time)
}

/// One retained cut with its parsed source range and its position in the
/// original cut list.
pub ghost struct RetainedModel {
    pub cut_index: int,
    pub start: int,
    pub end: int,
    pub cut: CutModel,
}

/// The retained cuts, in order.
pub open spec fn spec_retained(cuts: Seq<CutModel>) -> Seq<RetainedModel>
    decreases cuts.len(),
{
    if cuts.len() == 0 {
        Seq::empty()
    } else {
        let prefix = spec_retained(cuts.drop_last());
        let c = cuts.last();
        if is_retained(c) {
            prefix.push(
                RetainedModel {
                    cut_index: cuts.len() - 1,
                    start: tval(c.start_time),
                    end: tval(c.end_time),
                    cut: c,
                },
            )
        } else {
            prefix
        }
    }
}

/// A transition is configured on this cut's join with the previous one.
pub open spec fn has_overlap(r: RetainedModel) -> bool {
    r.cut.transition_type is Some
}

/// Output-timeline start of the `k`-th retained cut: 0 for the first, the
/// previous cut's output end minus the transition overlap (clamped at 0) for
/// the rest.
pub open spec fn out_start(rs: Seq<RetainedModel>, k: int) -> int
    decreases k,
{
    if k <= 0 {
        0
    } else {
        let prev_end = out_start(rs, k - 1) + (rs[k - 1].end - rs[k - 1].start);
        let ov: int = if has_overlap(rs[k]) {
            TRANSITION_OVERLAP_MS as int
        } else {
            0
        };
        if prev_end >= ov {
            prev_end - ov
        } else {
            0
        }
    }
}

/// Output-timeline end of the `k`-th retained cut.
pub open spec fn out_end(rs: Seq<RetainedModel>, k: int) -> int {
    out_start(rs, k) + (rs[k].end - rs[k].start)
}

/// Total planned output duration: the last retained cut's output end.
pub open spec fn total_out(rs: Seq<RetainedModel>) -> int {
    if rs.len() == 0 {
        0
    } else {
        out_end(rs, rs.len() - 1)
    }
}

/// The whole output timeline stays within the representable range.
pub open spec fn timeline_fits(rs: Seq<RetainedModel>) -> bool {
    forall|k: int| 0 <= k < rs.len() ==> out_end(rs, k) <= MAX_TIME_MS as int
}

/// Appending a retained cut does not move the ones before it.
pub proof fn lemma_out_start_push(rs: Seq<RetainedModel>, r: RetainedModel, j: int)
    requires
        0 <= j < rs.len(),
    ensures
        out_start(rs.push(r), j) == out_start(rs, j),
    decreases j,
{
    if j > 0 {
        lemma_out_start_push(rs, r, j - 1);
        assert(rs.push(r)[j - 1] == rs[j - 1]);
        assert(rs.push(r)[j] == rs[j]);
    }
}

/// Which zoom transform, if any, applies to a segment: the first visual
/// effect whose start timestamp parses and falls inside the segment's source
/// range decides, and an unknown kind decides "none".
#[derive(PartialEq, Eq, Structural, Clone, Copy, Debug)]
pub enum ZoomChoice {
    ZoomIn,
    ZoomOut,
    NoZoom,
}

pub open spec fn spec_zoom_choice(effects: Seq<VisualEffectModel>, start: int, end: int) -> ZoomChoice
    decreases effects.len(),
{
    if effects.len() == 0 {
        ZoomChoice::NoZoom
    } else {
        let e = effects[0];
        match time_ms(e.start) {
            Some(t) => if t <= MAX_TIME_MS as int && start <= t && t < end {
                if e.effect_type == "zoom_in"@ {
                    ZoomChoice::ZoomIn
                } else if e.effect_type == "zoom_out"@ {
                    ZoomChoice::ZoomOut
                } else {
                    ZoomChoice::NoZoom
                }
            } else {
                spec_zoom_choice(effects.drop_first(), start, end)
            },
            None => spec_zoom_choice(effects.drop_first(), start, end),
        }
    }
}

/// Picks the zoom transform for one segment from the effect list.
pub fn select_zoom(effects: &Vec<VisualEffect>, start_ms: u64, end_ms: u64) -> (r: ZoomChoice)
    ensures
        r == spec_zoom_choice(
            effects@.map_values(|e: VisualEffect| e@),
            start_ms as int,
            end_ms as int,
        ),
{
    let ghost es = effects@.map_values(|e: VisualEffect| e@);
    let n = effects.len();
    let mut i: usize = 0;
    proof {
        assert(es.skip(0) =~= es);
    }
    while i < n
        invariant
            i <= n,
            n == effects@.len(),
            es == effects@.map_values(|e: VisualEffect| e@),
            spec_zoom_choice(es, start_ms as int, end_ms as int) == spec_zoom_choice(
                es.skip(i as int),
                start_ms as int,
                end_ms as int,
            ),
        decreases n - i,
    {
        let e = &effects[i];
        proof {
            assert(es[i as int] == effects@[i as int]@);
            assert(es.skip(i as int)[0] == es[i as int]);
            assert(es.skip(i as int).drop_first() =~= es.skip(i as int + 1));
        }
        match parse_time_ms(e.start.as_str()) {
            Ok(t) => {
                if start_ms <= t && t < end_ms {
                    if str_eq(e.effect_type.as_str(), "zoom_in") {
                        return ZoomChoice::ZoomIn;
                    } else if str_eq(e.effect_type.as_str(), "zoom_out") {
                        return ZoomChoice::ZoomOut;
                    } else {
                        return ZoomChoice::NoZoom;
                    }
                }
            },
            Err(_) => {},
        }
        i += 1;
    }
    proof {
        assert(es.skip(n as int) =~= Seq::<VisualEffectModel>::empty());
    }
    ZoomChoice::NoZoom
}

/// The caption overlay for one segment, shown for its whole duration.
pub open spec fn spec_drawtext(style: Option<CaptionStyleModel>, text: Seq<char>, dur_ms: int) -> Seq<char> {
    "drawtext=fontfile="@ + spec_caption_font(style) + ":text='"@ + escape_overlay_text(text)
        + "':fontcolor="@ + spec_caption_color(style) + ":fontsize=80:x=(w-text_w)/2:y="@
        + spec_caption_y(style) + spec_caption_box(style) + ":enable='between(t,0,"@
        + spec_milli_trimmed(dur_ms) + ")'"@
}

/// The full ordered filter stack of one segment: vertical reframing, then
/// the zoom transform if one applies, then the caption overlay if the cut
/// carries non-empty caption text.
pub open spec fn spec_segment_filter(c: CutModel, zoom: ZoomChoice, dur_ms: int) -> Seq<char> {
    let focus: int = match c.focus_permille {
        Some(f) => f as int,
        None => 500,
    };
    let base = spec_crop_filter(focus);
    let with_zoom = match zoom {
        ZoomChoice::ZoomIn => base + ","@
            + "crop=iw/1.25:ih/1.25:(iw-out_w)/2:(ih-out_h)/2,scale=1080:1920"@,
        ZoomChoice::ZoomOut => base + ","@
            + "crop=iw/1.1:ih/1.1:(iw-out_w)/2:(ih-out_h)/2,scale=1080:1920"@,
        ZoomChoice::NoZoom => base,
    };
    match c.caption {
        Some(text) => if text.len() > 0 {
            with_zoom + ","@ + spec_drawtext(c.caption_style, text, dur_ms)
        } else {
            with_zoom
        },
        None => with_zoom,
    }
}

/// Builds one segment's filter stack.
#[verifier::rlimit(60)]
pub fn build_segment_filter(cut: &Cut, zoom: ZoomChoice, dur_ms: u64) -> (r: String)
    ensures
        r@ == spec_segment_filter(cut@, zoom, dur_ms as int),
{
    let focus: u64 = match cut.focus_permille {
        Some(f) => f as u64,
        None => 500,
    };
    let mut out = String::new();
    out.append("scale=-2:1920,crop=1080:1920:(iw-1080)*");
    let focus_str = format_milli_trimmed(focus);
    out.append(focus_str.as_str());
    out.append(":0");
    match zoom {
        ZoomChoice::ZoomIn => {
            out.append(",");
            out.append("crop=iw/1.25:ih/1.25:(iw-out_w)/2:(ih-out_h)/2,scale=1080:1920");
        },
        ZoomChoice::ZoomOut => {
            out.append(",");
            out.append("crop=iw/1.1:ih/1.1:(iw-out_w)/2:(ih-out_h)/2,scale=1080:1920");
        },
        ZoomChoice::NoZoom => {},
    }
    match &cut.caption {
        Some(text) => {
            if text.as_str().unicode_len() > 0 {
                let (font, color, box_conf, y) = get_drawtext_config(&cut.caption_style);
                let escaped = escape_text(text.as_str());
                let dur_str = format_milli_trimmed(dur_ms);
                out.append(",");
                out.append("drawtext=fontfile=");
                out.append(font.as_str());
                out.append(":text='");
                out.append(escaped.as_str());
                out.append("':fontcolor=");
                out.append(color.as_str());
                out.append(":fontsize=80:x=(w-text_w)/2:y=");
                out.append(y.as_str());
                out.append(box_conf.as_str());
                out.append(":enable='between(t,0,");
                out.append(dur_str.as_str());
                out.append(")'");
            }
        },
        None => {},
    }
    proof {
        assert(out@ =~= spec_segment_filter(cut@, zoom, dur_ms as int));
    }
    out
}

/// One render job: an independent clip covering exactly
/// `[start_ms, start_ms + duration_ms)` of the source, re-encoded with its
/// whole filter stack burned in.
#[derive(Debug)]
pub struct SegmentJob {
    pub index: usize,
    pub source_path: String,
    pub start_ms: u64,
    pub duration_ms: u64,
    pub video_filter: String,
    pub output_path: String,
}

pub ghost struct SegmentJobModel {
    pub index: int,
    pub source_path: Seq<char>,
    pub start_ms: int,
    pub duration_ms: int,
    pub video_filter: Seq<char>,
    pub output_path: Seq<char>,
}

impl View for SegmentJob {
    type V = SegmentJobModel;

    open spec fn view(&self) -> SegmentJobModel {
        SegmentJobModel {
            index: self.index as int,
            source_path: self.source_path@,
            start_ms: self.start_ms as int,
            duration_ms: self.duration_ms as int,
            video_filter: self.video_filter@,
            output_path: self.output_path@,
        }
    }
}

/// One entry of the source-to-output mapping: a retained cut's source range
/// and where it landed on the output timeline.
#[derive(Clone, Copy, Debug)]
pub struct MapEntry {
    pub source_start_ms: u64,
    pub source_end_ms: u64,
    pub output_start_ms: u64,
}

pub ghost struct MapEntryModel {
    pub source_start: int,
    pub source_end: int,
    pub output_start: int,
}

impl View for MapEntry {
    type V = MapEntryModel;

    open spec fn view(&self) -> MapEntryModel {
        MapEntryModel {
            source_start: self.source_start_ms as int,
            source_end: self.source_end_ms as int,
            output_start: self.output_start_ms as int,
        }
    }
}

/// One configured transition: it blends retained segment `position - 1`
/// into retained segment `position`.
#[derive(Debug)]
pub struct TransitionJoin {
    pub position: usize,
    pub kind: String,
}

pub ghost struct TransitionJoinModel {
    pub position: int,
    pub kind: Seq<char>,
}

impl View for TransitionJoin {
    type V = TransitionJoinModel;

    open spec fn view(&self) -> TransitionJoinModel {
        TransitionJoinModel { position: self.position as int, kind: self.kind@ }
    }
}

/// The effect list of a specification; absent means empty.
pub open spec fn spec_effects(m: EditSpecModel) -> Seq<VisualEffectModel> {
    match m.visual_effects {
        Some(s) => s,
        None => Seq::empty(),
    }
}

pub open spec fn spec_job_model(
    r: RetainedModel,
    effects: Seq<VisualEffectModel>,
    filename: Seq<char>,
    cfg: PlannerConfigModel,
) -> SegmentJobModel {
    SegmentJobModel {
        index: r.cut_index,
        source_path: cfg.raw_dir + "/"@ + filename,
        start_ms: r.start,
        duration_ms: r.end - r.start,
        video_filter: spec_segment_filter(
            r.cut,
            spec_zoom_choice(effects, r.start, r.end),
            r.end - r.start,
        ),
        output_path: cfg.temp_dir + "/"@ + cfg.job_id + "_seg_"@ + spec_index4(r.cut_index)
            + ".mp4"@,
    }
}

pub open spec fn spec_jobs(
    rs: Seq<RetainedModel>,
    effects: Seq<VisualEffectModel>,
    filename: Seq<char>,
    cfg: PlannerConfigModel,
) -> Seq<SegmentJobModel> {
    Seq::new(rs.len(), |k: int| spec_job_model(rs[k], effects, filename, cfg))
}

pub open spec fn spec_map(rs: Seq<RetainedModel>) -> Seq<MapEntryModel> {
    Seq::new(
        rs.len(),
        |k: int|
            MapEntryModel {
                source_start: rs[k].start,
                source_end: rs[k].end,
                output_start: out_start(rs, k),
            },
    )
}

/// The configured transitions between adjacent retained cuts; the first
/// retained cut has no previous segment, so its transition, if any, makes
/// no join.
pub open spec fn spec_joins(rs: Seq<RetainedModel>) -> Seq<TransitionJoinModel>
    decreases rs.len(),
{
    if rs.len() <= 1 {
        Seq::empty()
    } else {
        let prefix = spec_joins(rs.drop_last());
        let r = rs.last();
        if has_overlap(r) {
            prefix.push(
                TransitionJoinModel {
                    position: rs.len() - 1,
                    kind: spec_transition_filter(r.cut.transition_type->Some_0),
                },
            )
        } else {
            prefix
        }
    }
}

/// Every map entry's times are within the representable range; the planner
/// guarantees this of every map it builds.
pub open spec fn entries_bounded(es: Seq<MapEntryModel>) -> bool {
    forall|k: int|
        0 <= k < es.len() ==> {
            &&& 0 <= #[trigger] es[k].source_start
            &&& es[k].source_end <= MAX_TIME_MS as int
            &&& 0 <= es[k].output_start <= MAX_TIME_MS as int
        }
}

/// What the segment planner produces for one specification.
#[derive(Debug)]
pub struct SegmentPlan {
    pub jobs: Vec<SegmentJob>,
    pub source_map: Vec<MapEntry>,
    pub joins: Vec<TransitionJoin>,
    pub total_ms: u64,
}

pub ghost struct SegmentPlanModel {
    pub jobs: Seq<SegmentJobModel>,
    pub source_map: Seq<MapEntryModel>,
    pub joins: Seq<TransitionJoinModel>,
    pub total_ms: int,
}

impl View for SegmentPlan {
    type V = SegmentPlanModel;

    open spec fn view(&self) -> SegmentPlanModel {
        SegmentPlanModel {
            jobs: self.jobs@.map_values(|j: SegmentJob| j@),
            source_map: self.source_map@.map_values(|e: MapEntry| e@),
            joins: self.joins@.map_values(|j: TransitionJoin| j@),
            total_ms: self.total_ms as int,
        }
    }
}

/// The one segment plan of a specification.
pub open spec fn spec_segment_plan(s: EditSpecModel, cfg: PlannerConfigModel) -> SegmentPlanModel {
    let rs = spec_retained(s.cuts);
    SegmentPlanModel {
        jobs: spec_jobs(rs, spec_effects(s), s.original_filename, cfg),
        source_map: spec_map(rs),
        joins: spec_joins(rs),
        total_ms: total_out(rs),
    }
}

/// Plans every retained cut of a specification, in order.
///
/// Succeeds exactly when every cut's timestamps parse and the resulting
/// output timeline fits the representable range; the result is then the one
/// segment plan of the specification. Every failure is a `TimeParse` error.
pub fn plan_segments(spec: &EditSpec, cfg: &PlannerConfig) -> (r: Result<SegmentPlan, PlanError>)
    ensures
        r is Ok <==> (cuts_times_ok(spec@.cuts) && timeline_fits(spec_retained(spec@.cuts))),
        r matches Ok(p) ==> p@ == spec_segment_plan(spec@, cfg@),
        r matches Ok(p) ==> p.total_ms <= MAX_TIME_MS && entries_bounded(p@.source_map),
        r matches Err(e) ==> e is TimeParse,
{
    let ghost cm = spec@.cuts;
    let ghost effects = spec_effects(spec@);
    let mut jobs: Vec<SegmentJob> = Vec::new();
    let mut map: Vec<MapEntry> = Vec::new();
    let mut joins: Vec<TransitionJoin> = Vec::new();
    let mut cursor_end: u64 = 0;
    let n = spec.cuts.len();
    let mut i: usize = 0;
    proof {
        assert(cm.take(0) =~= Seq::<CutModel>::empty());
        assert(jobs@.map_values(|j: SegmentJob| j@) =~= spec_jobs(
            spec_retained(cm.take(0)),
            effects,
            spec@.original_filename,
            cfg@,
        ));
        assert(map@.map_values(|e: MapEntry| e@) =~= spec_map(spec_retained(cm.take(0))));
        assert(joins@.map_values(|j: TransitionJoin| j@) =~= spec_joins(
            spec_retained(cm.take(0)),
        ));
    }
    while i < n
        invariant
            i <= n,
            n == spec.cuts@.len(),
            cm == spec@.cuts,
            cm.len() == n,
            effects == spec_effects(spec@),
            forall|j: int|
                0 <= j < i ==> parse_ok(#[trigger] cm[j].start_time) && parse_ok(
                    cm[j].end_time,
                ),
            jobs@.map_values(|j: SegmentJob| j@) == spec_jobs(
                spec_retained(cm.take(i as int)),
                effects,
                spec@.original_filename,
                cfg@,
            ),
            map@.map_values(|e: MapEntry| e@) == spec_map(spec_retained(cm.take(i as int))),
            joins@.map_values(|j: TransitionJoin| j@) == spec_joins(
                spec_retained(cm.take(i as int)),
            ),
            jobs@.len() == spec_retained(cm.take(i as int)).len(),
            cursor_end as int == total_out(spec_retained(cm.take(i as int))),
            timeline_fits(spec_retained(cm.take(i as int))),
            cursor_end <= MAX_TIME_MS,
            entries_bounded(map@.map_values(|e: MapEntry| e@)),
        decreases n - i,
    {
        let ghost rs_pre = spec_retained(cm.take(i as int));
        let c = &spec.cuts[i];
        proof {
            assert(cm[i as int] == spec.cuts@[i as int]@);
            assert(cm.take(i as int + 1).drop_last() =~= cm.take(i as int));
            assert(cm.take(i as int + 1).last() == cm[i as int]);
        }
        let s_ms = match parse_time_ms(c.start_time.as_str()) {
            Ok(v) => v,
            Err(err) => {
                proof {
                    assert(!parse_ok(cm[i as int].start_time));
                    assert(!cuts_times_ok(cm));
                }
                return Err(err);
            },
        };
        let e_ms = match parse_time_ms(c.end_time.as_str()) {
            Ok(v) => v,
            Err(err) => {
                proof {
                    assert(!parse_ok(cm[i as int].end_time));
                    assert(!cuts_times_ok(cm));
                }
                return Err(err);
            },
        };
        if e_ms > s_ms {
            let ghost r_model = RetainedModel {
                cut_index: i as int,
                start: s_ms as int,
                end: e_ms as int,
                cut: cm[i as int],
            };
            let ghost rs_post = spec_retained(cm.take(i as int + 1));
            proof {
                assert(is_retained(cm[i as int]));
                assert(rs_post == rs_pre.push(r_model));
            }
            let k = jobs.len();
            let out_s: u64 = if k == 0 {
                0
            } else {
                let ov: u64 = if c.transition_type.is_some() {
                    TRANSITION_OVERLAP_MS
                } else {
                    0
                };
                if cursor_end >= ov {
                    cursor_end - ov
                } else {
                    0
                }
            };
            proof {
                if k > 0 {
                    lemma_out_start_push(rs_pre, r_model, k - 1);
                    assert(rs_post[k - 1] == rs_pre[k - 1]);
                    assert(rs_post[k as int] == r_model);
                    assert(out_start(rs_post, k as int) == out_s as int);
                } else {
                    assert(out_start(rs_post, 0) == 0);
                }
            }
            let dur = e_ms - s_ms;
            let out_e = out_s + dur;
            if out_e > MAX_TIME_MS {
                proof {
                    let rs_full = spec_retained(cm);
                    lemma_retained_take_prefix(cm, i as int + 1);
                    assert(rs_post == rs_full.take(rs_post.len() as int));
                    lemma_out_start_prefix(rs_post, rs_full, k as int);
                    assert(out_end(rs_full, k as int) == out_e as int);
                    assert(!timeline_fits(rs_full));
                }
                return Err(PlanError::TimeParse);
            }
            let zoom = match &spec.visual_effects {
                Some(v) => select_zoom(v, s_ms, e_ms),
                None => ZoomChoice::NoZoom,
            };
            let filter = build_segment_filter(c, zoom, dur);
            let mut source_path = String::new();
            source_path.append(cfg.raw_dir.as_str());
            source_path.append("/");
            source_path.append(spec.original_filename.as_str());
            let mut output_path = String::new();
            output_path.append(cfg.temp_dir.as_str());
            output_path.append("/");
            output_path.append(cfg.job_id.as_str());
            output_path.append("_seg_");
            let idx_str = format_index4(i as u64);
            output_path.append(idx_str.as_str());
            output_path.append(".mp4");
            let ghost old_jobs = jobs@;
            let ghost old_map = map@;
            jobs.push(
                SegmentJob {
                    index: i,
                    source_path,
                    start_ms: s_ms,
                    duration_ms: dur,
                    video_filter: filter,
                    output_path,
                },
            );
            map.push(
                MapEntry { source_start_ms: s_ms, source_end_ms: e_ms, output_start_ms: out_s },
            );
            match &c.transition_type {
                Some(name) => {
                    if k > 0 {
                        joins.push(
                            TransitionJoin {
                                position: k,
                                kind: String::from_str(get_transition_filter(name.as_str())),
                            },
                        );
                    }
                },
                None => {},
            }
            cursor_end = out_e;
            proof {
                assert(zoom == spec_zoom_choice(effects, r_model.start, r_model.end));
                let ghost fname = spec@.original_filename;
                assert(jobs@.last()@ == spec_job_model(r_model, effects, fname, cfg@));
                assert forall|q: int| 0 <= q < rs_pre.len() implies out_start(rs_post, q)
                    == out_start(rs_pre, q) by {
                    lemma_out_start_push(rs_pre, r_model, q);
                }
                assert forall|q: int| 0 <= q < rs_post.len() implies jobs@.map_values(
                    |j: SegmentJob| j@,
                )[q] == spec_jobs(rs_post, effects, fname, cfg@)[q] by {
                    assert(jobs@.map_values(|j: SegmentJob| j@)[q] == jobs@[q]@);
                    if q < rs_pre.len() {
                        assert(jobs@[q] == old_jobs[q]);
                        assert(old_jobs.map_values(|j: SegmentJob| j@)[q] == old_jobs[q]@);
                        assert(old_jobs.map_values(|j: SegmentJob| j@) == spec_jobs(
                            rs_pre,
                            effects,
                            fname,
                            cfg@,
                        ));
                        assert(rs_post[q] == rs_pre[q]);
                    } else {
                        assert(rs_post[q] == r_model);
                    }
                }
                assert(jobs@.map_values(|j: SegmentJob| j@) =~= spec_jobs(
                    rs_post,
                    effects,
                    fname,
                    cfg@,
                ));
                assert(old_map.map_values(|e: MapEntry| e@).len() == old_map.len());
                assert(spec_map(rs_pre).len() == rs_pre.len());
                assert(old_map.len() == rs_pre.len());
                assert(map@.len() == rs_post.len());
                assert forall|q: int| 0 <= q < rs_post.len() implies map@.map_values(
                    |e: MapEntry| e@,
                )[q] == spec_map(rs_post)[q] by {
                    assert(map@.map_values(|e: MapEntry| e@)[q] == map@[q]@);
                    if q < rs_pre.len() {
                        assert(map@[q] == old_map[q]);
                        assert(old_map.map_values(|e: MapEntry| e@)[q] == old_map[q]@);
                        assert(old_map.map_values(|e: MapEntry| e@) == spec_map(rs_pre));
                        assert(rs_post[q] == rs_pre[q]);
                        assert(out_start(rs_post, q) == out_start(rs_pre, q));
                    } else {
                        assert(rs_post[q] == r_model);
                        assert(out_start(rs_post, q) == out_s as int);
                    }
                }
                assert(map@.map_values(|e: MapEntry| e@) =~= spec_map(rs_post));
                let mmv = map@.map_values(|e: MapEntry| e@);
                let omv = old_map.map_values(|e: MapEntry| e@);
                assert forall|q: int| 0 <= q < mmv.len() implies {
                    &&& 0 <= (#[trigger] mmv[q]).source_start
                    &&& mmv[q].source_end <= MAX_TIME_MS as int
                    &&& 0 <= mmv[q].output_start <= MAX_TIME_MS as int
                } by {
                    assert(mmv[q] == map@[q]@);
                    if q < old_map.len() {
                        assert(map@[q] == old_map[q]);
                        assert(0 <= omv[q].source_start);
                        assert(omv[q] == old_map[q]@);
                    }
                }
                assert(entries_bounded(mmv));
                assert(rs_post.drop_last() =~= rs_pre);
                assert(rs_post.last() == r_model);
                assert(joins@.map_values(|j: TransitionJoin| j@) =~= spec_joins(rs_post));
                assert(cursor_end as int == total_out(rs_post));
                assert forall|q: int| 0 <= q < rs_post.len() implies out_end(rs_post, q)
                    <= MAX_TIME_MS as int by {
                    if q < rs_pre.len() {
                        lemma_out_start_push(rs_pre, r_model, q);
                        assert(rs_post[q] == rs_pre[q]);
                        assert(out_end(rs_post, q) == out_end(rs_pre, q));
                        assert(out_end(rs_pre, q) <= MAX_TIME_MS as int);
                    } else {
                        assert(rs_post[q] == r_model);
                        assert(out_start(rs_post, q) == out_s as int);
                        assert(out_end(rs_post, q) == out_e as int);
                    }
                }
            }
        } else {
            proof {
                assert(!is_retained(cm[i as int]));
                assert(spec_retained(cm.take(i as int + 1)) == rs_pre);
            }
        }
        i += 1;
    }
    proof {
        assert(cm.take(n as int) =~= cm);
    }
    Ok(SegmentPlan { jobs, source_map: map, joins, total_ms: cursor_end })
}

/// A shorter prefix of the cut list retains a prefix of the cuts.
pub proof fn lemma_retained_take_prefix(cuts: Seq<CutModel>, i: int)
    requires
        0 <= i <= cuts.len(),
    ensures
        spec_retained(cuts.take(i)).len() <= spec_retained(cuts).len(),
        spec_retained(cuts.take(i)) == spec_retained(cuts).take(
            spec_retained(cuts.take(i)).len() as int,
        ),
    decreases cuts.len() - i,
{
    if i == cuts.len() {
        assert(cuts.take(i) =~= cuts);
        assert(spec_retained(cuts).take(spec_retained(cuts).len() as int) =~= spec_retained(
            cuts,
        ));
    } else {
        let a = spec_retained(cuts.take(i));
        let b = spec_retained(cuts.take(i + 1));
        assert(cuts.take(i + 1).drop_last() =~= cuts.take(i));
        assert(cuts.take(i + 1).last() == cuts[i]);
        lemma_retained_take_prefix(cuts, i + 1);
        let c = spec_retained(cuts);
        if is_retained(cuts[i]) {
            assert(b == a.push(
                RetainedModel {
                    cut_index: i,
                    start: tval(cuts[i].start_time),
                    end: tval(cuts[i].end_time),
                    cut: cuts[i],
                },
            ));
            assert(a =~= b.take(a.len() as int));
        } else {
            assert(b == a);
        }
        assert(a =~= c.take(b.len() as int).take(a.len() as int));
        assert(c.take(b.len() as int).take(a.len() as int) =~= c.take(a.len() as int));
    }
}

/// Output placement only depends on the prefix up to the cut in question.
pub proof fn lemma_out_start_prefix(rs1: Seq<RetainedModel>, rs2: Seq<RetainedModel>, k: int)
    requires
        rs1.len() <= rs2.len(),
        rs1 == rs2.take(rs1.len() as int),
        0 <= k < rs1.len(),
    ensures
        out_start(rs1, k) == out_start(rs2, k),
    decreases k,
{
    if k > 0 {
        lemma_out_start_prefix(rs1, rs2, k - 1);
        assert(rs1[k - 1] == rs2[k - 1]);
        assert(rs1[k] == rs2[k]);
    }
}

} // verus!
