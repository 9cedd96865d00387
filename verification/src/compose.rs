//! The whole plan of one edit specification: segment render jobs, the
//! concatenation-and-mix invocation, and the independent thumbnail job.
//!
//! Planning is pure: it reads the specification and the configuration and
//! computes strings and numbers. The caller performs the engine
//! invocations the plan describes — one per segment job, one for the
//! finalize step, one for the thumbnail — and is responsible for removing
//! the scratch files named by the plan on every exit path, success or not.

use vstd::prelude::*;

use crate::errors::PlanError;
use crate::filters::get_thumbnail_filter;
use crate::filters::spec_thumbnail_filter;
use crate::model::EditSpec;
use crate::model::EditSpecModel;
use crate::model::PlannerConfig;
use crate::model::PlannerConfigModel;
use crate::model::ThumbnailModel;
use crate::model::opt_str_view;
use crate::planner::MapEntry;
use crate::planner::SegmentJob;
use crate::planner::SegmentJobModel;
use crate::planner::MapEntryModel;
use crate::planner::TransitionJoin;
use crate::planner::TransitionJoinModel;
use crate::planner::cuts_times_ok;
use crate::planner::plan_segments;
use crate::planner::spec_retained;
use crate::planner::spec_segment_plan;
use crate::planner::timeline_fits;
use crate::sequencer::AudioMixPlan;
use crate::sequencer::AudioMixPlanModel;
use crate::sequencer::build_concat_list;
use crate::sequencer::build_mix_plan;
use crate::sequencer::se_times_ok;
use crate::sequencer::spec_concat_list;
use crate::sequencer::spec_events;
use crate::sequencer::spec_mix_plan;

verus! {

/// The one-shot thumbnail job: the engine seeks the original source to the
/// raw timestamp, applies the overlay filter, and writes one frame.
#[derive(Debug)]
pub struct ThumbJob {
    pub timestamp: String,
    pub filter: String,
    pub output_path: String,
}

pub ghost struct ThumbJobModel {
    pub timestamp: Seq<char>,
    pub filter: Seq<char>,
    pub output_path: Seq<char>,
}

impl View for ThumbJob {
    type V = ThumbJobModel;

    open spec fn view(&self) -> ThumbJobModel {
        ThumbJobModel {
            timestamp: self.timestamp@,
            filter: self.filter@,
            output_path: self.output_path@,
        }
    }
}

pub open spec fn spec_thumb_job(
    t: ThumbnailModel,
    filename: Seq<char>,
    output_dir: Seq<char>,
) -> ThumbJobModel {
    ThumbJobModel {
        timestamp: t.timestamp,
        filter: spec_thumbnail_filter(
            t.text,
            match t.color {
                Some(c) => c,
                None => "white"@,
            },
        ),
        output_path: output_dir + "/"@ + filename + "_thumb.jpg"@,
    }
}

/// Everything the engine must be told to finish one specification.
#[derive(Debug)]
pub struct RenderPlan {
    pub jobs: Vec<SegmentJob>,
    pub source_map: Vec<MapEntry>,
    pub joins: Vec<TransitionJoin>,
    pub concat_list: String,
    pub concat_path: String,
    pub output_path: String,
    pub total_ms: u64,
    pub mix: AudioMixPlan,
    pub thumbnail: Option<ThumbJob>,
}

pub ghost struct RenderPlanModel {
    pub jobs: Seq<SegmentJobModel>,
    pub source_map: Seq<MapEntryModel>,
    pub joins: Seq<TransitionJoinModel>,
    pub concat_list: Seq<char>,
    pub concat_path: Seq<char>,
    pub output_path: Seq<char>,
    pub total_ms: int,
    pub mix: AudioMixPlanModel,
    pub thumbnail: Option<ThumbJobModel>,
}

impl View for RenderPlan {
    type V = RenderPlanModel;

    open spec fn view(&self) -> RenderPlanModel {
        RenderPlanModel {
            jobs: self.jobs@.map_values(|j: SegmentJob| j@),
            source_map: self.source_map@.map_values(|e: MapEntry| e@),
            joins: self.joins@.map_values(|j: TransitionJoin| j@),
            concat_list: self.concat_list@,
            concat_path: self.concat_path@,
            output_path: self.output_path@,
            total_ms: self.total_ms as int,
            mix: self.mix@,
            thumbnail: match self.thumbnail {
                Some(t) => Some(t@),
                None => None,
            },
        }
    }
}

/// A specification can be planned: every cut timestamp parses, the output
/// timeline fits the representable range, and every sound-effect timestamp
/// parses.
pub open spec fn spec_plan_ok(s: EditSpecModel) -> bool {
    &&& cuts_times_ok(s.cuts)
    &&& timeline_fits(spec_retained(s.cuts))
    &&& se_times_ok(spec_events(s))
}

/// The one render plan of a specification (meaningful under
/// `spec_plan_ok`).
pub open spec fn spec_render_plan(
    s: EditSpecModel,
    cfg: PlannerConfigModel,
    bgm: Option<Seq<char>>,
) -> RenderPlanModel {
    let sp = spec_segment_plan(s, cfg);
    RenderPlanModel {
        jobs: sp.jobs,
        source_map: sp.source_map,
        joins: sp.joins,
        concat_list: spec_concat_list(sp.jobs),
        concat_path: cfg.temp_dir + "/"@ + cfg.job_id + "_concat_list.txt"@,
        output_path: cfg.output_dir + "/"@ + s.original_filename,
        total_ms: sp.total_ms,
        mix: spec_mix_plan(bgm, spec_events(s), sp.source_map, sp.total_ms, cfg.se_dir),
        thumbnail: match s.thumbnail {
            Some(t) => Some(spec_thumb_job(t, s.original_filename, cfg.output_dir)),
            None => None,
        },
    }
}

/// Plans one whole specification.
///
/// `bgm_path` is the background track to lay under the mix, if a usable one
/// exists; resolving which file that is (the specification's own, or the
/// configured fallback) means looking at the filesystem, so the caller
/// decides it and hands in the result.
///
/// Succeeds exactly on the specifications `spec_plan_ok` admits, and then
/// returns their one render plan; every failure is a `TimeParse` error and
/// aborts the specification. The sound-effect cue count is capped far below
/// the integer limit so that the mix input indices stay representable.
pub fn plan_edit(spec: &EditSpec, cfg: &PlannerConfig, bgm_path: Option<String>) -> (r: Result<
    RenderPlan,
    PlanError,
>)
    requires
        spec_events(spec@).len() < 1_000_000_000,
    ensures
        r is Ok <==> spec_plan_ok(spec@),
        r matches Ok(p) ==> p@ == spec_render_plan(spec@, cfg@, opt_str_view(bgm_path)),
        r matches Err(e) ==> e is TimeParse,
{
    let sp = match plan_segments(spec, cfg) {
        Ok(sp) => sp,
        Err(e) => {
            return Err(e);
        },
    };
    let mix = match build_mix_plan(spec, bgm_path, &sp.source_map, sp.total_ms, cfg.se_dir.as_str())
        {
        Ok(m) => m,
        Err(e) => {
            return Err(e);
        },
    };
    let concat_list = build_concat_list(&sp.jobs);
    let mut concat_path = String::new();
    concat_path.append(cfg.temp_dir.as_str());
    concat_path.append("/");
    concat_path.append(cfg.job_id.as_str());
    concat_path.append("_concat_list.txt");
    let mut output_path = String::new();
    output_path.append(cfg.output_dir.as_str());
    output_path.append("/");
    output_path.append(spec.original_filename.as_str());
    let thumbnail = match &spec.thumbnail {
        Some(t) => {
            let filter = match &t.color {
                Some(c) => get_thumbnail_filter(t.text.as_str(), c.as_str()),
                None => get_thumbnail_filter(t.text.as_str(), "white"),
            };
            let mut thumb_path = String::new();
            thumb_path.append(cfg.output_dir.as_str());
            thumb_path.append("/");
            thumb_path.append(spec.original_filename.as_str());
            thumb_path.append("_thumb.jpg");
            proof {
                assert(thumb_path@ =~= cfg@.output_dir + "/"@ + spec@.original_filename
                    + "_thumb.jpg"@);
            }
            Some(ThumbJob { timestamp: t.timestamp.clone(), filter, output_path: thumb_path })
        },
        None => None,
    };
    proof {
        assert(concat_path@ =~= cfg@.temp_dir + "/"@ + cfg@.job_id + "_concat_list.txt"@);
        assert(output_path@ =~= cfg@.output_dir + "/"@ + spec@.original_filename);
    }
    let plan = RenderPlan {
        jobs: sp.jobs,
        source_map: sp.source_map,
        joins: sp.joins,
        concat_list,
        concat_path,
        output_path,
        total_ms: sp.total_ms,
        mix,
        thumbnail,
    };
    proof {
        assert(plan@ == spec_render_plan(spec@, cfg@, opt_str_view(bgm_path)));
    }
    Ok(plan)
}

} // verus!
