//! The edit-specification data model.
//!
//! The model is plain data: timestamp strings as they were entered, names of
//! filters and transitions, caption text and styling, and the horizontal
//! focus anchor in thousandths (0 is the left edge, 500 the centre, 1000 the
//! right edge). It is read-only input: one specification is validated once,
//! planned once and discarded.
//!
//! Each type has a ghost model over `Seq<char>` so that contracts can speak
//! of values, not allocations.

use vstd::prelude::*;

use crate::errors::PlanError;

verus! {

/// Caption styling; every field is optional and falls back to the defaults
/// the planner resolves (sans font, white, bottom, no box).
#[derive(Debug)]
pub struct CaptionStyle {
    pub font: Option<String>,
    pub color: Option<String>,
    pub position: Option<String>,
    pub boxed: Option<bool>,
    pub background_asset: Option<String>,
}

pub ghost struct CaptionStyleModel {
    pub font: Option<Seq<char>>,
    pub color: Option<Seq<char>>,
    pub position: Option<Seq<char>>,
    pub boxed: Option<bool>,
    pub background_asset: Option<Seq<char>>,
}

pub open spec fn opt_str_view(o: Option<String>) -> Option<Seq<char>> {
    match o {
        Some(s) => Some(s@),
        None => None,
    }
}

impl View for CaptionStyle {
    type V = CaptionStyleModel;

    open spec fn view(&self) -> CaptionStyleModel {
        CaptionStyleModel {
            font: opt_str_view(self.font),
            color: opt_str_view(self.color),
            position: opt_str_view(self.position),
            boxed: self.boxed,
            background_asset: opt_str_view(self.background_asset),
        }
    }
}

/// One retained time range of the source video, with its styling. Order is
/// significant: the order of the cuts is the order of the output. The
/// transition, when present, applies to the join with the previous cut.
#[derive(Debug)]
pub struct Cut {
    pub start_time: String,
    pub end_time: String,
    pub filter: String,
    pub transition_type: Option<String>,
    pub caption: Option<String>,
    pub caption_style: Option<CaptionStyle>,
    pub focus_permille: Option<u32>,
}

pub ghost struct CutModel {
    pub start_time: Seq<char>,
    pub end_time: Seq<char>,
    pub filter: Seq<char>,
    pub transition_type: Option<Seq<char>>,
    pub caption: Option<Seq<char>>,
    pub caption_style: Option<CaptionStyleModel>,
    pub focus_permille: Option<u32>,
}

impl View for Cut {
    type V = CutModel;

    open spec fn view(&self) -> CutModel {
        CutModel {
            start_time: self.start_time@,
            end_time: self.end_time@,
            filter: self.filter@,
            transition_type: opt_str_view(self.transition_type),
            caption: opt_str_view(self.caption),
            caption_style: match self.caption_style {
                Some(s) => Some(s@),
                None => None,
            },
            focus_permille: self.focus_permille,
        }
    }
}

/// A sound-effect cue: a source-time timestamp and a type tag that resolves
/// to one of a small fixed set of synthetic assets.
#[derive(Debug)]
pub struct SeEvent {
    pub timestamp: String,
    pub event_type: String,
}

pub ghost struct SeEventModel {
    pub timestamp: Seq<char>,
    pub event_type: Seq<char>,
}

impl View for SeEvent {
    type V = SeEventModel;

    open spec fn view(&self) -> SeEventModel {
        SeEventModel { timestamp: self.timestamp@, event_type: self.event_type@ }
    }
}

/// A zoom request over a source-time range; matched against cuts by the
/// start timestamp, first match wins, unknown kinds are ignored.
#[derive(Debug)]
pub struct VisualEffect {
    pub start: String,
    pub end: String,
    pub effect_type: String,
}

pub ghost struct VisualEffectModel {
    pub start: Seq<char>,
    pub end: Seq<char>,
    pub effect_type: Seq<char>,
}

impl View for VisualEffect {
    type V = VisualEffectModel;

    open spec fn view(&self) -> VisualEffectModel {
        VisualEffectModel { start: self.start@, end: self.end@, effect_type: self.effect_type@ }
    }
}

/// A one-shot thumbnail request: the timestamp is handed to the engine's
/// seek untouched, sampling the original source directly.
#[derive(Debug)]
pub struct Thumbnail {
    pub timestamp: String,
    pub text: String,
    pub color: Option<String>,
}

pub ghost struct ThumbnailModel {
    pub timestamp: Seq<char>,
    pub text: Seq<char>,
    pub color: Option<Seq<char>>,
}

impl View for Thumbnail {
    type V = ThumbnailModel;

    open spec fn view(&self) -> ThumbnailModel {
        ThumbnailModel {
            timestamp: self.timestamp@,
            text: self.text@,
            color: opt_str_view(self.color),
        }
    }
}

/// A complete, validated edit specification.
#[derive(Debug)]
pub struct EditSpec {
    pub original_filename: String,
    pub cuts: Vec<Cut>,
    pub bgm_path: Option<String>,
    pub se_events: Option<Vec<SeEvent>>,
    pub visual_effects: Option<Vec<VisualEffect>>,
    pub thumbnail: Option<Thumbnail>,
}

pub ghost struct EditSpecModel {
    pub original_filename: Seq<char>,
    pub cuts: Seq<CutModel>,
    pub bgm_path: Option<Seq<char>>,
    pub se_events: Option<Seq<SeEventModel>>,
    pub visual_effects: Option<Seq<VisualEffectModel>>,
    pub thumbnail: Option<ThumbnailModel>,
}

impl View for EditSpec {
    type V = EditSpecModel;

    open spec fn view(&self) -> EditSpecModel {
        EditSpecModel {
            original_filename: self.original_filename@,
            cuts: self.cuts@.map_values(|c: Cut| c@),
            bgm_path: opt_str_view(self.bgm_path),
            se_events: match self.se_events {
                Some(v) => Some(v@.map_values(|e: SeEvent| e@)),
                None => None,
            },
            visual_effects: match self.visual_effects {
                Some(v) => Some(v@.map_values(|e: VisualEffect| e@)),
                None => None,
            },
            thumbnail: match self.thumbnail {
                Some(t) => Some(t@),
                None => None,
            },
        }
    }
}

/// An edit specification as it arrives from the document parser, before the
/// required fields have been checked.
#[derive(Debug)]
pub struct RawSpec {
    pub original_filename: Option<String>,
    pub cuts: Option<Vec<Cut>>,
    pub bgm_path: Option<String>,
    pub se_events: Option<Vec<SeEvent>>,
    pub visual_effects: Option<Vec<VisualEffect>>,
    pub thumbnail: Option<Thumbnail>,
}

/// Checks the required fields of a specification document.
///
/// The cut list and the source filename are required; everything else is
/// optional. A document missing a required field is rejected as a
/// `SpecParse` error and produces no render jobs at all.
pub fn validate_spec(raw: RawSpec) -> (r: Result<EditSpec, PlanError>)
    ensures
        r is Ok <==> (raw.original_filename is Some && raw.cuts is Some),
        r matches Ok(s) ==> {
            &&& raw.original_filename == Some(s.original_filename)
            &&& raw.cuts == Some(s.cuts)
            &&& s.bgm_path == raw.bgm_path
            &&& s.se_events == raw.se_events
            &&& s.visual_effects == raw.visual_effects
            &&& s.thumbnail == raw.thumbnail
        },
        r matches Err(e) ==> e is SpecParse,
{
    match (raw.original_filename, raw.cuts) {
        (Some(original_filename), Some(cuts)) => Ok(
            EditSpec {
                original_filename,
                cuts,
                bgm_path: raw.bgm_path,
                se_events: raw.se_events,
                visual_effects: raw.visual_effects,
                thumbnail: raw.thumbnail,
            },
        ),
        _ => Err(PlanError::SpecParse),
    }
}

/// Process-wide configuration: the filesystem roots the pipeline works in
/// and the identifier that namespaces one job's scratch files.
///
/// Scratch paths are derived from `job_id`, so two specifications processed
/// concurrently never collide as long as their job identifiers differ.
#[derive(Debug)]
pub struct PlannerConfig {
    pub raw_dir: String,
    pub output_dir: String,
    pub temp_dir: String,
    pub se_dir: String,
    pub job_id: String,
}

pub ghost struct PlannerConfigModel {
    pub raw_dir: Seq<char>,
    pub output_dir: Seq<char>,
    pub temp_dir: Seq<char>,
    pub se_dir: Seq<char>,
    pub job_id: Seq<char>,
}

impl View for PlannerConfig {
    type V = PlannerConfigModel;

    open spec fn view(&self) -> PlannerConfigModel {
        PlannerConfigModel {
            raw_dir: self.raw_dir@,
            output_dir: self.output_dir@,
            temp_dir: self.temp_dir@,
            se_dir: self.se_dir@,
            job_id: self.job_id@,
        }
    }
}

} // verus!
