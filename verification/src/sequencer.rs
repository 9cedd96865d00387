//! The sequencer: concatenation list, sound-effect relocation through the
//! source-to-output mapping, and the audio-mix plan.
//!
//! The mix holds the concatenated video's own audio (boosted), an optional
//! background-music layer (attenuated far below narration), and one layer
//! per relocated sound effect (delayed to its output time and boosted,
//! since the synthetic assets are mastered quiet). All layers are mixed
//! with first-input-defines-duration semantics and a fixed two-second fade
//! ending at the total planned duration. With no background music and no
//! sound-effect cues the mix is skipped entirely and the main audio passes
//! through unchanged.

use vstd::prelude::*;

use crate::errors::PlanError;
use crate::filters::get_se_file;
use crate::filters::spec_se_asset;
use crate::model::EditSpec;
use crate::model::EditSpecModel;
use crate::model::SeEvent;
use crate::model::SeEventModel;
use crate::model::opt_str_view;
use crate::planner::MapEntry;
use crate::planner::MapEntryModel;
use crate::planner::SegmentJob;
use crate::planner::SegmentJobModel;
use crate::planner::entries_bounded;
use crate::planner::parse_ok;
use crate::planner::tval;
use crate::timecode::MAX_TIME_MS;
use crate::timecode::parse_time_ms;
use crate::timecode::spec_ms_fixed3;
use crate::timecode::format_ms_fixed3;
use crate::timecode::spec_u64_str;
use crate::timecode::u64_to_string;

verus! {

/// The contents of the concatenation list: one `file '...'` line per
/// rendered segment, in cut order.
pub open spec fn spec_concat_list(jobs: Seq<SegmentJobModel>) -> Seq<char>
    decreases jobs.len(),
{
    if jobs.len() == 0 {
        Seq::empty()
    } else {
        spec_concat_list(jobs.drop_last()) + "file '"@ + jobs.last().output_path + "'\n"@
    }
}

/// Writes the concatenation list for the rendered segments, in order.
pub fn build_concat_list(jobs: &Vec<SegmentJob>) -> (r: String)
    ensures
        r@ == spec_concat_list(jobs@.map_values(|j: SegmentJob| j@)),
{
    let ghost jm = jobs@.map_values(|j: SegmentJob| j@);
    let n = jobs.len();
    let mut out = String::new();
    let mut i: usize = 0;
    proof {
        assert(jm.take(0) =~= Seq::<SegmentJobModel>::empty());
    }
    while i < n
        invariant
            i <= n,
            n == jobs@.len(),
            jm == jobs@.map_values(|j: SegmentJob| j@),
            out@ == spec_concat_list(jm.take(i as int)),
        decreases n - i,
    {
        proof {
            assert(jm.take(i as int + 1).drop_last() =~= jm.take(i as int));
            assert(jm.take(i as int + 1).last() == jm[i as int]);
            assert(jm[i as int] == jobs@[i as int]@);
        }
        out.append("file '");
        out.append(jobs[i].output_path.as_str());
        out.append("'\n");
        proof {
            assert(out@ =~= spec_concat_list(jm.take(i as int + 1)));
        }
        i += 1;
    }
    proof {
        assert(jm.take(n as int) =~= jm);
    }
    out
}

/// Relocation of a source time through the mapping: the first entry whose
/// source range contains the time decides, and a time inside no entry is
/// not relocated at all.
pub open spec fn spec_map_lookup(es: Seq<MapEntryModel>, t: int) -> Option<int>
    decreases es.len(),
{
    if es.len() == 0 {
        None
    } else if es[0].source_start <= t < es[0].source_end {
        Some(es[0].output_start + (t - es[0].source_start))
    } else {
        spec_map_lookup(es.drop_first(), t)
    }
}

/// Maps a source timestamp to its output-timeline time, or `None` when the
/// time lies outside every retained cut's range.
pub fn map_output_time(entries: &Vec<MapEntry>, t_ms: u64) -> (r: Option<u64>)
    requires
        entries_bounded(entries@.map_values(|e: MapEntry| e@)),
    ensures
        match r {
            Some(v) => spec_map_lookup(entries@.map_values(|e: MapEntry| e@), t_ms as int)
                == Some(v as int),
            None => spec_map_lookup(entries@.map_values(|e: MapEntry| e@), t_ms as int) is None,
        },
{
    let ghost es = entries@.map_values(|e: MapEntry| e@);
    let n = entries.len();
    let mut i: usize = 0;
    proof {
        assert(es.skip(0) =~= es);
    }
    while i < n
        invariant
            i <= n,
            n == entries@.len(),
            es == entries@.map_values(|e: MapEntry| e@),
            entries_bounded(es),
            spec_map_lookup(es, t_ms as int) == spec_map_lookup(es.skip(i as int), t_ms as int),
        decreases n - i,
    {
        let e = &entries[i];
        proof {
            assert(es[i as int] == entries@[i as int]@);
            assert(es.skip(i as int)[0] == es[i as int]);
            assert(es.skip(i as int).drop_first() =~= es.skip(i as int + 1));
        }
        if e.source_start_ms <= t_ms && t_ms < e.source_end_ms {
            proof {
                assert(es[i as int].output_start <= MAX_TIME_MS as int);
                assert(es[i as int].source_end <= MAX_TIME_MS as int);
            }
            return Some(e.output_start_ms + (t_ms - e.source_start_ms));
        }
        i += 1;
    }
    proof {
        assert(es.skip(n as int) =~= Seq::<MapEntryModel>::empty());
    }
    None
}

/// One scheduled sound effect: the asset to lay in and its delay on the
/// output timeline.
#[derive(Debug)]
pub struct SePlacement {
    pub delay_ms: u64,
    pub asset_path: String,
}

pub ghost struct SePlacementModel {
    pub delay: int,
    pub asset: Seq<char>,
}

impl View for SePlacement {
    type V = SePlacementModel;

    open spec fn view(&self) -> SePlacementModel {
        SePlacementModel { delay: self.delay_ms as int, asset: self.asset_path@ }
    }
}

/// The sound-effect cues of a specification; absent means none.
pub open spec fn spec_events(m: EditSpecModel) -> Seq<SeEventModel> {
    match m.se_events {
        Some(s) => s,
        None => Seq::empty(),
    }
}

/// Every cue's timestamp parses; anything less aborts the specification.
pub open spec fn se_times_ok(events: Seq<SeEventModel>) -> bool {
    forall|i: int| 0 <= i < events.len() ==> parse_ok(#[trigger] events[i].timestamp)
}

/// The scheduled sound effects, in cue order: a cue inside some retained
/// cut's range is relocated to its output time; one inside no cut is
/// dropped.
pub open spec fn spec_se_placements(
    events: Seq<SeEventModel>,
    es: Seq<MapEntryModel>,
    se_dir: Seq<char>,
) -> Seq<SePlacementModel>
    decreases events.len(),
{
    if events.len() == 0 {
        Seq::empty()
    } else {
        let rest = spec_se_placements(events.drop_first(), es, se_dir);
        match spec_map_lookup(es, tval(events[0].timestamp)) {
            Some(out_t) => seq![
                SePlacementModel {
                    delay: out_t,
                    asset: se_dir + "/"@ + spec_se_asset(events[0].event_type),
                },
            ] + rest,
            None => rest,
        }
    }
}

/// Schedules the sound-effect cues against the mapping.
pub fn build_se_placements(events: &Vec<SeEvent>, entries: &Vec<MapEntry>, se_dir: &str) -> (r:
    Result<Vec<SePlacement>, PlanError>)
    requires
        entries_bounded(entries@.map_values(|e: MapEntry| e@)),
    ensures
        r is Ok <==> se_times_ok(events@.map_values(|e: SeEvent| e@)),
        r matches Ok(v) ==> v@.map_values(|p: SePlacement| p@) == spec_se_placements(
            events@.map_values(|e: SeEvent| e@),
            entries@.map_values(|e: MapEntry| e@),
            se_dir@,
        ),
        r matches Err(e) ==> e is TimeParse,
{
    let ghost em = events@.map_values(|e: SeEvent| e@);
    let ghost es = entries@.map_values(|e: MapEntry| e@);
    let n = events.len();
    let mut out: Vec<SePlacement> = Vec::new();
    let mut i: usize = 0;
    proof {
        assert(em.skip(0) =~= em);
        assert(out@.map_values(|p: SePlacement| p@) =~= Seq::<SePlacementModel>::empty());
        assert(Seq::<SePlacementModel>::empty() + spec_se_placements(em, es, se_dir@)
            =~= spec_se_placements(em, es, se_dir@));
    }
    while i < n
        invariant
            i <= n,
            n == events@.len(),
            em == events@.map_values(|e: SeEvent| e@),
            es == entries@.map_values(|e: MapEntry| e@),
            entries_bounded(es),
            forall|j: int| 0 <= j < i ==> parse_ok(#[trigger] em[j].timestamp),
            spec_se_placements(em, es, se_dir@) == out@.map_values(|p: SePlacement| p@)
                + spec_se_placements(em.skip(i as int), es, se_dir@),
        decreases n - i,
    {
        let e = &events[i];
        proof {
            assert(em[i as int] == events@[i as int]@);
            assert(em.skip(i as int)[0] == em[i as int]);
            assert(em.skip(i as int).drop_first() =~= em.skip(i as int + 1));
        }
        let t_ms = match parse_time_ms(e.timestamp.as_str()) {
            Ok(v) => v,
            Err(err) => {
                proof {
                    assert(!parse_ok(em[i as int].timestamp));
                    assert(!se_times_ok(em));
                }
                return Err(err);
            },
        };
        match map_output_time(entries, t_ms) {
            Some(out_t) => {
                let asset = get_se_file(e.event_type.as_str(), se_dir);
                let ghost old_out = out@;
                out.push(SePlacement { delay_ms: out_t, asset_path: asset });
                proof {
                    assert(out@.map_values(|p: SePlacement| p@) =~= old_out.map_values(
                        |p: SePlacement| p@,
                    ).push(
                        SePlacementModel {
                            delay: out_t as int,
                            asset: se_dir@ + "/"@ + spec_se_asset(em[i as int].event_type),
                        },
                    ));
                    assert(spec_se_placements(em, es, se_dir@) =~= out@.map_values(
                        |p: SePlacement| p@,
                    ) + spec_se_placements(em.skip(i as int + 1), es, se_dir@));
                }
            },
            None => {
                proof {
                    assert(spec_se_placements(em.skip(i as int), es, se_dir@)
                        == spec_se_placements(em.skip(i as int + 1), es, se_dir@));
                }
            },
        }
        i += 1;
    }
    proof {
        assert(em.skip(n as int) =~= Seq::<SeEventModel>::empty());
        assert(spec_se_placements(em, es, se_dir@) =~= out@.map_values(|p: SePlacement| p@));
    }
    Ok(out)
}

/// The per-effect filter parts: each input delayed to its output time and
/// boosted, labelled by its input index.
pub open spec fn spec_se_filter_parts(se: Seq<SePlacementModel>, first_idx: int) -> Seq<char>
    decreases se.len(),
{
    if se.len() == 0 {
        Seq::empty()
    } else {
        let idx = first_idx + se.len() - 1;
        let d = se.last().delay;
        spec_se_filter_parts(se.drop_last(), first_idx) + ";["@ + spec_u64_str(idx)
            + ":a]adelay="@ + spec_u64_str(d) + "|"@ + spec_u64_str(d) + ",volume=0.8[se"@
            + spec_u64_str(idx) + "]"@
    }
}

/// The mix-input labels of the scheduled effects, in order.
pub open spec fn spec_se_labels(se: Seq<SePlacementModel>, first_idx: int) -> Seq<char>
    decreases se.len(),
{
    if se.len() == 0 {
        Seq::empty()
    } else {
        spec_se_labels(se.drop_last(), first_idx) + "[se"@ + spec_u64_str(
            first_idx + se.len() - 1,
        ) + "]"@
    }
}

/// The whole audio filter graph: the boosted main layer, the attenuated
/// background-music layer when present, the delayed effect layers, then one
/// mix with first-input-defines-duration semantics and a two-second fade
/// ending at the total planned duration.
pub open spec fn spec_mix_filter(has_bgm: bool, se: Seq<SePlacementModel>, total: int) -> Seq<char> {
    let first_idx: int = if has_bgm {
        2
    } else {
        1
    };
    let n_inputs: int = first_idx + se.len();
    let fade_start: int = if total > 2000 {
        total - 2000
    } else {
        0
    };
    "[0:a]volume=1.3[v_in]"@ + (if has_bgm {
        ";[1:a]volume=0.08[bgm]"@
    } else {
        Seq::<char>::empty()
    }) + spec_se_filter_parts(se, first_idx) + ";"@ + "[v_in]"@ + (if has_bgm {
        "[bgm]"@
    } else {
        Seq::<char>::empty()
    }) + spec_se_labels(se, first_idx) + "amix=inputs="@ + spec_u64_str(n_inputs)
        + ":duration=first,afade=t=out:st="@ + spec_ms_fixed3(fade_start) + ":d=2[aout]"@
}

/// Writes the audio filter graph.
///
/// The effect count is capped far below the integer limit so that the mix
/// input indices stay representable; an engine command line is many orders
/// of magnitude shorter than that.
pub fn build_mix_filter(has_bgm: bool, se: &Vec<SePlacement>, total_ms: u64) -> (r: String)
    requires
        se@.len() < 1_000_000_000,
    ensures
        r@ == spec_mix_filter(has_bgm, se@.map_values(|p: SePlacement| p@), total_ms as int),
{
    let ghost sm = se@.map_values(|p: SePlacement| p@);
    let first_idx: u64 = if has_bgm {
        2
    } else {
        1
    };
    let n = se.len();
    let mut out = String::new();
    out.append("[0:a]volume=1.3[v_in]");
    if has_bgm {
        out.append(";[1:a]volume=0.08[bgm]");
    }
    let ghost head = out@;
    let mut i: usize = 0;
    proof {
        assert(sm.take(0) =~= Seq::<SePlacementModel>::empty());
        assert(out@ =~= head + spec_se_filter_parts(sm.take(0), first_idx as int));
    }
    while i < n
        invariant
            i <= n,
            n == se@.len(),
            n < 1_000_000_000,
            sm == se@.map_values(|p: SePlacement| p@),
            first_idx == if has_bgm { 2u64 } else { 1u64 },
            out@ == head + spec_se_filter_parts(sm.take(i as int), first_idx as int),
        decreases n - i,
    {
        proof {
            assert(sm.take(i as int + 1).drop_last() =~= sm.take(i as int));
            assert(sm.take(i as int + 1).last() == sm[i as int]);
            assert(sm[i as int] == se@[i as int]@);
        }
        let idx = first_idx + (i as u64);
        let idx_str = u64_to_string(idx);
        let delay_str = u64_to_string(se[i].delay_ms);
        out.append(";[");
        out.append(idx_str.as_str());
        out.append(":a]adelay=");
        out.append(delay_str.as_str());
        out.append("|");
        out.append(delay_str.as_str());
        out.append(",volume=0.8[se");
        out.append(idx_str.as_str());
        out.append("]");
        proof {
            assert(out@ =~= head + spec_se_filter_parts(sm.take(i as int + 1), first_idx as int));
        }
        i += 1;
    }
    proof {
        assert(sm.take(n as int) =~= sm);
    }
    out.append(";");
    out.append("[v_in]");
    if has_bgm {
        out.append("[bgm]");
    }
    let ghost head2 = out@;
    let mut j: usize = 0;
    proof {
        assert(sm.take(0) =~= Seq::<SePlacementModel>::empty());
        assert(out@ =~= head2 + spec_se_labels(sm.take(0), first_idx as int));
    }
    while j < n
        invariant
            j <= n,
            n == se@.len(),
            n < 1_000_000_000,
            sm == se@.map_values(|p: SePlacement| p@),
            first_idx == if has_bgm { 2u64 } else { 1u64 },
            out@ == head2 + spec_se_labels(sm.take(j as int), first_idx as int),
        decreases n - j,
    {
        proof {
            assert(sm.take(j as int + 1).drop_last() =~= sm.take(j as int));
            assert(sm.take(j as int + 1).last() == sm[j as int]);
        }
        let idx = first_idx + (j as u64);
        let idx_str = u64_to_string(idx);
        out.append("[se");
        out.append(idx_str.as_str());
        out.append("]");
        proof {
            assert(out@ =~= head2 + spec_se_labels(sm.take(j as int + 1), first_idx as int));
        }
        j += 1;
    }
    proof {
        assert(sm.take(n as int) =~= sm);
    }
    let n_inputs: u64 = first_idx + (n as u64);
    let n_str = u64_to_string(n_inputs);
    let fade_start: u64 = if total_ms > 2000 {
        total_ms - 2000
    } else {
        0
    };
    let fade_str = format_ms_fixed3(fade_start);
    out.append("amix=inputs=");
    out.append(n_str.as_str());
    out.append(":duration=first,afade=t=out:st=");
    out.append(fade_str.as_str());
    out.append(":d=2[aout]");
    proof {
        assert(out@ =~= spec_mix_filter(has_bgm, sm, total_ms as int));
    }
    out
}

/// The audio-layering plan of one specification.
#[derive(Debug)]
pub struct AudioMixPlan {
    pub bgm_path: Option<String>,
    pub se: Vec<SePlacement>,
    pub total_ms: u64,
    pub fade_start_ms: u64,
    pub filter_complex: Option<String>,
}

pub ghost struct AudioMixPlanModel {
    pub bgm_path: Option<Seq<char>>,
    pub se: Seq<SePlacementModel>,
    pub total_ms: int,
    pub fade_start_ms: int,
    pub filter_complex: Option<Seq<char>>,
}

impl View for AudioMixPlan {
    type V = AudioMixPlanModel;

    open spec fn view(&self) -> AudioMixPlanModel {
        AudioMixPlanModel {
            bgm_path: opt_str_view(self.bgm_path),
            se: self.se@.map_values(|p: SePlacement| p@),
            total_ms: self.total_ms as int,
            fade_start_ms: self.fade_start_ms as int,
            filter_complex: opt_str_view(self.filter_complex),
        }
    }
}

/// No more effects are scheduled than cues were given.
pub proof fn lemma_se_placements_len(
    events: Seq<SeEventModel>,
    es: Seq<MapEntryModel>,
    se_dir: Seq<char>,
)
    ensures
        spec_se_placements(events, es, se_dir).len() <= events.len(),
    decreases events.len(),
{
    if events.len() > 0 {
        lemma_se_placements_len(events.drop_first(), es, se_dir);
    }
}

/// The one audio-mix plan of a specification: scheduled effects, the fade
/// window, and the filter graph — absent exactly when there is neither
/// background music nor any sound-effect cue.
pub open spec fn spec_mix_plan(
    bgm: Option<Seq<char>>,
    events: Seq<SeEventModel>,
    es: Seq<MapEntryModel>,
    total: int,
    se_dir: Seq<char>,
) -> AudioMixPlanModel {
    let se = spec_se_placements(events, es, se_dir);
    AudioMixPlanModel {
        bgm_path: bgm,
        se: se,
        total_ms: total,
        fade_start_ms: if total > 2000 {
            total - 2000
        } else {
            0
        },
        filter_complex: if bgm is Some || events.len() > 0 {
            Some(spec_mix_filter(bgm is Some, se, total))
        } else {
            None
        },
    }
}

/// Builds the audio-mix plan of one specification against its mapping.
///
/// `bgm_path` is the background track to use, if a usable one exists; the
/// caller resolves which file that is. Succeeds exactly when every cue's
/// timestamp parses; every failure is a `TimeParse` error.
pub fn build_mix_plan(
    spec: &EditSpec,
    bgm_path: Option<String>,
    entries: &Vec<MapEntry>,
    total_ms: u64,
    se_dir: &str,
) -> (r: Result<AudioMixPlan, PlanError>)
    requires
        entries_bounded(entries@.map_values(|e: MapEntry| e@)),
        spec_events(spec@).len() < 1_000_000_000,
    ensures
        r is Ok <==> se_times_ok(spec_events(spec@)),
        r matches Ok(m) ==> m@ == spec_mix_plan(
            opt_str_view(bgm_path),
            spec_events(spec@),
            entries@.map_values(|e: MapEntry| e@),
            total_ms as int,
            se_dir@,
        ),
        r matches Err(e) ==> e is TimeParse,
{
    let ghost events = spec_events(spec@);
    let ghost es = entries@.map_values(|e: MapEntry| e@);
    let mut has_events: bool = false;
    let se: Vec<SePlacement> = match &spec.se_events {
        Some(v) => {
            proof {
                assert(events == v@.map_values(|e: SeEvent| e@));
            }
            has_events = v.len() > 0;
            match build_se_placements(v, entries, se_dir) {
                Ok(se) => se,
                Err(e) => {
                    return Err(e);
                },
            }
        },
        None => {
            let empty: Vec<SePlacement> = Vec::new();
            proof {
                assert(events =~= Seq::<SeEventModel>::empty());
                assert(empty@.map_values(|p: SePlacement| p@) =~= spec_se_placements(
                    events,
                    es,
                    se_dir@,
                ));
            }
            empty
        },
    };
    proof {
        lemma_se_placements_len(events, es, se_dir@);
    }
    let has_bgm = bgm_path.is_some();
    let fade_start: u64 = if total_ms > 2000 {
        total_ms - 2000
    } else {
        0
    };
    let filter_complex: Option<String> = if has_bgm || has_events {
        Some(build_mix_filter(has_bgm, &se, total_ms))
    } else {
        None
    };
    Ok(AudioMixPlan { bgm_path, se, total_ms, fade_start_ms: fade_start, filter_complex })
}

} // verus!
