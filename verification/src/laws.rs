//! The engine's stated laws, proved against the spec functions its
//! contracts are written over.

use vstd::prelude::*;

use crate::TRANSITION_OVERLAP_MS;
use crate::compose::RenderPlanModel;
use crate::compose::spec_render_plan;
use crate::filters::spec_se_asset;
use crate::model::EditSpecModel;
use crate::model::PlannerConfigModel;
use crate::model::SeEventModel;
use crate::planner::MapEntryModel;
use crate::planner::RetainedModel;
use crate::planner::has_overlap;
use crate::planner::out_end;
use crate::planner::out_start;
use crate::planner::total_out;
use crate::planner::tval;
use crate::sequencer::SePlacementModel;
use crate::sequencer::spec_map_lookup;
use crate::sequencer::spec_se_placements;
use crate::text::split_char;
use crate::timecode::all_digits;
use crate::timecode::digits_val;
use crate::timecode::is_digit;
use crate::timecode::number_mu;
use crate::timecode::time_ms;

verus! {

/// How a three-field timestamp is read, over the milli-unit values of its
/// fields: a third field above 59 units makes the reading
/// minutes:seconds:milliseconds, anything else hours:minutes:seconds. For
/// whole-number fields `h:m:s` with `s <= 59` this is
/// `(h*3600 + m*60 + s) * 1000` milliseconds, and for `m:s:mmm` with
/// `mmm > 59` it is `(m*60 + s) * 1000 + mmm`. The ambiguity is part of the
/// format: `1:2:3` always reads as hours:minutes:seconds.
pub proof fn lemma_timestamp_field_reading(s: Seq<char>, m1: int, m2: int, m3: int)
    requires
        split_char(s, ':').len() == 3,
        number_mu(split_char(s, ':')[0]) == Some(m1),
        number_mu(split_char(s, ':')[1]) == Some(m2),
        number_mu(split_char(s, ':')[2]) == Some(m3),
    ensures
        m3 > 59000 ==> time_ms(s) == Some(m1 * 60 + m2 + m3 / 1000),
        m3 <= 59000 ==> time_ms(s) == Some(m1 * 3600 + m2 * 60 + m3),
{
}

/// The same reading over whole-number fields: for `h:m:s` with a third
/// field of at most 59, the parsed time is `h*3600 + m*60 + s` seconds; for
/// `m:s:mmm` with a third field above 59 it is `m*60 + s` seconds and `mmm`
/// milliseconds.
pub proof fn lemma_whole_number_fields_reading(s: Seq<char>, a: int, b: int, c: int)
    requires
        split_char(s, ':').len() == 3,
        is_digit_string(split_char(s, ':')[0]),
        is_digit_string(split_char(s, ':')[1]),
        is_digit_string(split_char(s, ':')[2]),
        digits_val(split_char(s, ':')[0]) == a,
        digits_val(split_char(s, ':')[1]) == b,
        digits_val(split_char(s, ':')[2]) == c,
    ensures
        c <= 59 ==> time_ms(s) == Some((a * 3600 + b * 60 + c) * 1000),
        c > 59 ==> time_ms(s) == Some((a * 60 + b) * 1000 + c),
{
    let f1 = split_char(s, ':')[0];
    let f2 = split_char(s, ':')[1];
    let f3 = split_char(s, ':')[2];
    lemma_digit_string_number_mu(f1);
    lemma_digit_string_number_mu(f2);
    lemma_digit_string_number_mu(f3);
    lemma_timestamp_field_reading(s, 1000 * a, 1000 * b, 1000 * c);
    crate::timecode::lemma_digits_val_nonneg(f3);
    if c > 59 {
        vstd::arithmetic::div_mod::lemma_div_by_multiple(c, 1000);
        assert((c * 1000) / 1000 == c);
        assert(1000 * c == c * 1000);
    }
}

/// A non-empty string of digits.
pub open spec fn is_digit_string(f: Seq<char>) -> bool {
    f.len() > 0 && all_digits(f)
}

/// A digit string is a number token worth its value in whole units.
pub proof fn lemma_digit_string_number_mu(f: Seq<char>)
    requires
        is_digit_string(f),
    ensures
        number_mu(f) == Some(1000 * digits_val(f)),
{
    assert forall|j: int| 0 <= j < f.len() implies f[j] != '.' by {
        assert(is_digit(f[j]));
    }
    crate::text::lemma_find_char_none(f, '.');
}

/// Sum of the retained cuts' source durations.
pub open spec fn spec_sum_durations(rs: Seq<RetainedModel>) -> int
    decreases rs.len(),
{
    if rs.len() == 0 {
        0
    } else {
        spec_sum_durations(rs.drop_last()) + (rs.last().end - rs.last().start)
    }
}

proof fn lemma_sum_durations_nonneg(rs: Seq<RetainedModel>)
    requires
        forall|k: int| 0 <= k < rs.len() ==> (#[trigger] rs[k]).end >= rs[k].start,
    ensures
        spec_sum_durations(rs) >= 0,
    decreases rs.len(),
{
    if rs.len() > 0 {
        let t = rs.drop_last();
        assert forall|k: int| 0 <= k < t.len() implies (#[trigger] t[k]).end >= t[k].start by {
            assert(t[k] == rs[k]);
        }
        lemma_sum_durations_nonneg(t);
    }
}

proof fn lemma_out_start_no_transitions(rs: Seq<RetainedModel>, k: int)
    requires
        0 <= k < rs.len(),
        forall|j: int| 0 <= j < rs.len() ==> (#[trigger] rs[j]).end >= rs[j].start,
        forall|j: int| 1 <= j < rs.len() ==> !has_overlap(#[trigger] rs[j]),
    ensures
        out_start(rs, k) == spec_sum_durations(rs.take(k)),
    decreases k,
{
    if k == 0 {
        assert(rs.take(0) =~= Seq::<RetainedModel>::empty());
    } else {
        lemma_out_start_no_transitions(rs, k - 1);
        let p = rs.take(k - 1);
        let q = rs.take(k);
        assert(q.drop_last() =~= p);
        assert(q.last() == rs[k - 1]);
        assert forall|j: int| 0 <= j < p.len() implies (#[trigger] p[j]).end >= p[j].start by {
            assert(p[j] == rs[j]);
        }
        lemma_sum_durations_nonneg(p);
        assert(!has_overlap(rs[k]));
    }
}

/// With no transitions configured, the total planned output duration is the
/// sum of the retained cuts' durations: nothing is consumed from the
/// timeline.
pub proof fn lemma_total_without_transitions(rs: Seq<RetainedModel>)
    requires
        forall|j: int| 0 <= j < rs.len() ==> (#[trigger] rs[j]).end >= rs[j].start,
        forall|j: int| 1 <= j < rs.len() ==> !has_overlap(#[trigger] rs[j]),
    ensures
        total_out(rs) == spec_sum_durations(rs),
{
    if rs.len() > 0 {
        let k = rs.len() - 1;
        lemma_out_start_no_transitions(rs, k as int);
        assert(rs.take(k as int).push(rs.last()) =~= rs);
        assert(rs.take(k as int) == rs.drop_last());
    }
}

/// A configured transition consumes exactly the fixed overlap from the
/// cumulative timeline: the join's output end is the previous output end,
/// plus the joining cut's duration, minus the overlap. (When everything
/// before the join is shorter than the overlap itself, the join clamps to
/// output time 0 instead; that case is excluded here.)
pub proof fn lemma_transition_consumes_overlap(rs: Seq<RetainedModel>, k: int)
    requires
        1 <= k < rs.len(),
        has_overlap(rs[k]),
        out_end(rs, k - 1) >= TRANSITION_OVERLAP_MS as int,
    ensures
        out_end(rs, k) == out_end(rs, k - 1) + (rs[k].end - rs[k].start)
            - TRANSITION_OVERLAP_MS as int,
{
}

/// A source time strictly outside every map entry's range is not relocated.
pub proof fn lemma_outside_every_cut_not_mapped(es: Seq<MapEntryModel>, t: int)
    requires
        forall|k: int|
            0 <= k < es.len() ==> !((#[trigger] es[k]).source_start <= t < es[k].source_end),
    ensures
        spec_map_lookup(es, t) is None,
    decreases es.len(),
{
    if es.len() > 0 {
        let u = es.drop_first();
        assert forall|k: int| 0 <= k < u.len() implies !((#[trigger] u[k]).source_start <= t
            < u[k].source_end) by {
            assert(u[k] == es[k + 1]);
        }
        lemma_outside_every_cut_not_mapped(u, t);
    }
}

/// A sound-effect cue whose source time is not mapped is excluded from the
/// schedule entirely: the plan for the remaining cues is unchanged.
pub proof fn lemma_unmapped_cue_excluded(
    e: SeEventModel,
    events: Seq<SeEventModel>,
    es: Seq<MapEntryModel>,
    se_dir: Seq<char>,
)
    requires
        spec_map_lookup(es, tval(e.timestamp)) is None,
    ensures
        spec_se_placements(seq![e] + events, es, se_dir) == spec_se_placements(
            events,
            es,
            se_dir,
        ),
{
    let all = seq![e] + events;
    assert(all[0] == e);
    assert(all.drop_first() =~= events);
}

/// A source time inside map entry `i`, and inside none before it, is
/// relocated to that entry's output start plus the offset into the entry —
/// independent of every other entry.
pub proof fn lemma_mapped_inside_cut(es: Seq<MapEntryModel>, t: int, i: int)
    requires
        0 <= i < es.len(),
        es[i].source_start <= t < es[i].source_end,
        forall|j: int|
            0 <= j < i ==> !((#[trigger] es[j]).source_start <= t < es[j].source_end),
    ensures
        spec_map_lookup(es, t) == Some(es[i].output_start + (t - es[i].source_start)),
    decreases i,
{
    if i > 0 {
        let u = es.drop_first();
        assert(u[i - 1] == es[i]);
        assert forall|j: int| 0 <= j < i - 1 implies !((#[trigger] u[j]).source_start <= t
            < u[j].source_end) by {
            assert(u[j] == es[j + 1]);
        }
        lemma_mapped_inside_cut(u, t, i - 1);
    }
}

/// A mapped sound-effect cue is scheduled with a delay equal to its output
/// time and the asset its tag resolves to.
pub proof fn lemma_mapped_cue_scheduled(
    e: SeEventModel,
    events: Seq<SeEventModel>,
    es: Seq<MapEntryModel>,
    se_dir: Seq<char>,
    out_t: int,
)
    requires
        spec_map_lookup(es, tval(e.timestamp)) == Some(out_t),
    ensures
        spec_se_placements(seq![e] + events, es, se_dir) == seq![
            SePlacementModel { delay: out_t, asset: se_dir + "/"@ + spec_se_asset(e.event_type) },
        ] + spec_se_placements(events, es, se_dir),
{
    let all = seq![e] + events;
    assert(all[0] == e);
    assert(all.drop_first() =~= events);
}

/// Planning is deterministic: `plan_edit` pins its result to
/// `spec_render_plan`, a function of the specification, the configuration
/// and the resolved background track alone, so running the planner twice on
/// the same specification yields identical plans.
pub proof fn lemma_plan_deterministic(
    s: EditSpecModel,
    cfg: PlannerConfigModel,
    bgm: Option<Seq<char>>,
    p1: RenderPlanModel,
    p2: RenderPlanModel,
)
    requires
        p1 == spec_render_plan(s, cfg, bgm),
        p2 == spec_render_plan(s, cfg, bgm),
    ensures
        p1 == p2,
{
}

/// The crop anchor lands where the focus point says: 0 crops flush to the
/// left edge, 1000 (the whole unit) flush to the right edge, and 500 dead
/// centre, for any frame at least as wide as the 1080-pixel target.
pub proof fn lemma_crop_anchor(w: int)
    requires
        w >= 1080,
    ensures
        (w - 1080) * 0 / 1000 == 0,
        (w - 1080) * 1000 / 1000 == w - 1080,
        (w - 1080) * 500 / 1000 == (w - 1080) / 2,
{
    let x = w - 1080;
    vstd::arithmetic::div_mod::lemma_div_by_multiple(x, 1000);
    vstd::arithmetic::div_mod::lemma_div_by_multiple(x, 500);
    vstd::arithmetic::div_mod::lemma_div_denominator(x * 500, 500, 2);
    assert((x * 500) / 500 == x);
    assert(((x * 500) / 500) / 2 == (x * 500) / (500int * 2));
}

} // verus!
