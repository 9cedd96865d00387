use muscle::compose::plan_edit;
use muscle::model::CaptionStyle;
use muscle::model::Cut;
use muscle::model::EditSpec;
use muscle::model::PlannerConfig;
use muscle::model::RawSpec;
use muscle::model::SeEvent;
use muscle::model::VisualEffect;
use muscle::model::validate_spec;
use muscle::errors::PlanError;
use muscle::planner::build_segment_filter;
use muscle::planner::ZoomChoice;
use muscle::planner::select_zoom;

fn cut(start: &str, end: &str) -> Cut {
    Cut {
        start_time: start.to_string(),
        end_time: end.to_string(),
        filter: "none".to_string(),
        transition_type: None,
        caption: None,
        caption_style: None,
        focus_permille: None,
    }
}

fn cut_with_transition(start: &str, end: &str, transition: &str) -> Cut {
    Cut {
        transition_type: Some(transition.to_string()),
        ..cut(start, end)
    }
}

fn config() -> PlannerConfig {
    PlannerConfig {
        raw_dir: "/raw".to_string(),
        output_dir: "/out".to_string(),
        temp_dir: "/tmp/work".to_string(),
        se_dir: "/se".to_string(),
        job_id: "job1".to_string(),
    }
}

fn spec(cuts: Vec<Cut>) -> EditSpec {
    EditSpec {
        original_filename: "video.mp4".to_string(),
        cuts,
        bgm_path: None,
        se_events: None,
        visual_effects: None,
        thumbnail: None,
    }
}

#[test]
fn scenario_two_cuts_one_fade() {
    // Two five-second cuts with a fade between them: 10 seconds of source
    // collapse to 9.5 seconds of output, two render jobs, one join.
    let s = spec(vec![
        cut("00:00:00", "00:00:05"),
        cut_with_transition("00:00:05", "00:00:10", "fade"),
    ]);
    let p = plan_edit(&s, &config(), None).unwrap();
    assert_eq!(p.jobs.len(), 2);
    assert_eq!(p.total_ms, 9_500);
    assert_eq!(p.joins.len(), 1);
    assert_eq!(p.joins[0].position, 1);
    assert_eq!(p.joins[0].kind, "fade");
    assert_eq!(p.source_map.len(), 2);
    assert_eq!(p.source_map[0].source_start_ms, 0);
    assert_eq!(p.source_map[0].source_end_ms, 5_000);
    assert_eq!(p.source_map[0].output_start_ms, 0);
    assert_eq!(p.source_map[1].source_start_ms, 5_000);
    assert_eq!(p.source_map[1].source_end_ms, 10_000);
    assert_eq!(p.source_map[1].output_start_ms, 4_500);
    assert_eq!(p.jobs[0].source_path, "/raw/video.mp4");
    assert_eq!(p.jobs[0].output_path, "/tmp/work/job1_seg_0000.mp4");
    assert_eq!(p.jobs[1].output_path, "/tmp/work/job1_seg_0001.mp4");
    assert_eq!(p.jobs[1].start_ms, 5_000);
    assert_eq!(p.jobs[1].duration_ms, 5_000);
    assert_eq!(
        p.concat_list,
        "file '/tmp/work/job1_seg_0000.mp4'\nfile '/tmp/work/job1_seg_0001.mp4'\n"
    );
    assert_eq!(p.concat_path, "/tmp/work/job1_concat_list.txt");
    assert_eq!(p.output_path, "/out/video.mp4");
    // No music and no cues: the mix step is skipped.
    assert!(p.mix.filter_complex.is_none());
    assert_eq!(p.mix.total_ms, 9_500);
    assert_eq!(p.mix.fade_start_ms, 7_500);
    assert!(p.thumbnail.is_none());
}

#[test]
fn sound_effect_relocates_through_the_map() {
    // A cue at source 7s lies in the second cut (source start 5s, output
    // start 4.5s), so it plays at output time 6.5s.
    let mut s = spec(vec![
        cut("00:00:00", "00:00:05"),
        cut_with_transition("00:00:05", "00:00:10", "fade"),
    ]);
    s.se_events = Some(vec![SeEvent {
        timestamp: "00:00:07".to_string(),
        event_type: "funny whoosh".to_string(),
    }]);
    let p = plan_edit(&s, &config(), None).unwrap();
    assert_eq!(p.mix.se.len(), 1);
    assert_eq!(p.mix.se[0].delay_ms, 6_500);
    assert_eq!(p.mix.se[0].asset_path, "/se/SYNTH_WHOOSH.wav");
    let filter = p.mix.filter_complex.unwrap();
    assert_eq!(
        filter,
        "[0:a]volume=1.3[v_in];[1:a]adelay=6500|6500,volume=0.8[se1];[v_in][se1]amix=inputs=2:duration=first,afade=t=out:st=7.500:d=2[aout]"
    );
}

#[test]
fn sound_effect_outside_every_cut_is_excluded() {
    let mut s = spec(vec![
        cut("00:00:00", "00:00:05"),
        cut("00:00:05", "00:00:10"),
    ]);
    s.se_events = Some(vec![SeEvent {
        timestamp: "00:00:12".to_string(),
        event_type: "impact".to_string(),
    }]);
    let p = plan_edit(&s, &config(), None).unwrap();
    assert!(p.mix.se.is_empty());
    // A cue was present, so the mix step still runs, without that layer.
    let filter = p.mix.filter_complex.unwrap();
    assert_eq!(
        filter,
        "[0:a]volume=1.3[v_in];[v_in]amix=inputs=1:duration=first,afade=t=out:st=8.000:d=2[aout]"
    );
}

#[test]
fn boundary_of_a_cut_range_is_half_open() {
    // A cue exactly at a cut's end time belongs to the next cut.
    let mut s = spec(vec![
        cut("00:00:00", "00:00:05"),
        cut("00:00:05", "00:00:10"),
    ]);
    s.se_events = Some(vec![
        SeEvent {
            timestamp: "00:00:05".to_string(),
            event_type: "x".to_string(),
        },
        SeEvent {
            timestamp: "00:00:10".to_string(),
            event_type: "x".to_string(),
        },
    ]);
    let p = plan_edit(&s, &config(), None).unwrap();
    assert_eq!(p.mix.se.len(), 1);
    assert_eq!(p.mix.se[0].delay_ms, 5_000);
}

#[test]
fn totals_without_transitions_sum_the_durations() {
    let s = spec(vec![
        cut("00:00:00", "00:00:03"),
        cut("00:00:10", "00:00:14"),
        cut("1:0:0", "1:0:2.5"),
    ]);
    let p = plan_edit(&s, &config(), None).unwrap();
    assert_eq!(p.total_ms, 3_000 + 4_000 + 2_500);
    assert_eq!(p.source_map[1].output_start_ms, 3_000);
    assert_eq!(p.source_map[2].output_start_ms, 7_000);
}

#[test]
fn every_transition_consumes_the_overlap() {
    let s = spec(vec![
        cut("0", "5"),
        cut_with_transition("5", "10", "fade"),
        cut_with_transition("10", "12", "WIPELEFT"),
    ]);
    let p = plan_edit(&s, &config(), None).unwrap();
    assert_eq!(p.source_map[1].output_start_ms, 4_500);
    assert_eq!(p.source_map[2].output_start_ms, 9_000);
    assert_eq!(p.total_ms, 11_000);
    assert_eq!(p.joins.len(), 2);
    assert_eq!(p.joins[1].position, 2);
    assert_eq!(p.joins[1].kind, "wipeleft");
}

#[test]
fn non_positive_cuts_are_skipped_not_fatal() {
    let s = spec(vec![
        cut("00:00:05", "00:00:05"),
        cut("00:00:10", "00:00:08"),
        cut("00:00:00", "00:00:02"),
    ]);
    let p = plan_edit(&s, &config(), None).unwrap();
    assert_eq!(p.jobs.len(), 1);
    assert_eq!(p.total_ms, 2_000);
    // The retained cut keeps its position in the original list for its
    // scratch file name.
    assert_eq!(p.jobs[0].index, 2);
    assert_eq!(p.jobs[0].output_path, "/tmp/work/job1_seg_0002.mp4");
}

#[test]
fn a_bad_cut_timestamp_aborts_the_specification() {
    let s = spec(vec![cut("00:00:00", "oops")]);
    assert_eq!(plan_edit(&s, &config(), None).unwrap_err(), PlanError::TimeParse);
    let mut s2 = spec(vec![cut("0", "5")]);
    s2.se_events = Some(vec![SeEvent {
        timestamp: "bad".to_string(),
        event_type: "x".to_string(),
    }]);
    assert_eq!(plan_edit(&s2, &config(), None).unwrap_err(), PlanError::TimeParse);
}

#[test]
fn planning_is_idempotent() {
    let mut s = spec(vec![
        cut("00:00:00", "00:00:05"),
        cut_with_transition("00:00:05", "00:00:10", "fade"),
    ]);
    s.se_events = Some(vec![SeEvent {
        timestamp: "00:00:07".to_string(),
        event_type: "whoosh".to_string(),
    }]);
    let p1 = plan_edit(&s, &config(), Some("/bgm/track.mp3".to_string())).unwrap();
    let p2 = plan_edit(&s, &config(), Some("/bgm/track.mp3".to_string())).unwrap();
    assert_eq!(p1.jobs.len(), p2.jobs.len());
    for (a, b) in p1.jobs.iter().zip(p2.jobs.iter()) {
        assert_eq!(a.index, b.index);
        assert_eq!(a.source_path, b.source_path);
        assert_eq!(a.start_ms, b.start_ms);
        assert_eq!(a.duration_ms, b.duration_ms);
        assert_eq!(a.video_filter, b.video_filter);
        assert_eq!(a.output_path, b.output_path);
    }
    assert_eq!(p1.source_map.len(), p2.source_map.len());
    for (a, b) in p1.source_map.iter().zip(p2.source_map.iter()) {
        assert_eq!(a.source_start_ms, b.source_start_ms);
        assert_eq!(a.source_end_ms, b.source_end_ms);
        assert_eq!(a.output_start_ms, b.output_start_ms);
    }
    assert_eq!(p1.concat_list, p2.concat_list);
    assert_eq!(p1.total_ms, p2.total_ms);
    assert_eq!(p1.mix.filter_complex, p2.mix.filter_complex);
}

#[test]
fn focus_point_lands_in_the_crop_expression() {
    let mut c = cut("0", "5");
    c.focus_permille = Some(0);
    let left = build_segment_filter(&c, ZoomChoice::NoZoom, 5_000);
    assert_eq!(left, "scale=-2:1920,crop=1080:1920:(iw-1080)*0:0");
    c.focus_permille = Some(1000);
    let right = build_segment_filter(&c, ZoomChoice::NoZoom, 5_000);
    assert_eq!(right, "scale=-2:1920,crop=1080:1920:(iw-1080)*1:0");
    c.focus_permille = None;
    let centre = build_segment_filter(&c, ZoomChoice::NoZoom, 5_000);
    assert_eq!(centre, "scale=-2:1920,crop=1080:1920:(iw-1080)*0.5:0");
    c.focus_permille = Some(250);
    let quarter = build_segment_filter(&c, ZoomChoice::NoZoom, 5_000);
    assert_eq!(quarter, "scale=-2:1920,crop=1080:1920:(iw-1080)*0.25:0");
}

#[test]
fn zoom_first_match_wins_and_unknown_kinds_are_ignored() {
    let effects = vec![
        VisualEffect {
            start: "00:00:20".to_string(),
            end: "00:00:21".to_string(),
            effect_type: "zoom_in".to_string(),
        },
        VisualEffect {
            start: "00:00:06".to_string(),
            end: "00:00:07".to_string(),
            effect_type: "zoom_out".to_string(),
        },
    ];
    assert_eq!(select_zoom(&effects, 5_000, 10_000), ZoomChoice::ZoomOut);
    // The first effect in range decides, even when its kind is unknown.
    let effects2 = vec![
        VisualEffect {
            start: "00:00:06".to_string(),
            end: "00:00:07".to_string(),
            effect_type: "wobble".to_string(),
        },
        VisualEffect {
            start: "00:00:06".to_string(),
            end: "00:00:07".to_string(),
            effect_type: "zoom_in".to_string(),
        },
    ];
    assert_eq!(select_zoom(&effects2, 5_000, 10_000), ZoomChoice::NoZoom);
    // An effect with an unparseable start is skipped, not fatal.
    let effects3 = vec![
        VisualEffect {
            start: "bad".to_string(),
            end: "0".to_string(),
            effect_type: "zoom_in".to_string(),
        },
        VisualEffect {
            start: "00:00:06".to_string(),
            end: "00:00:07".to_string(),
            effect_type: "zoom_in".to_string(),
        },
    ];
    assert_eq!(select_zoom(&effects3, 5_000, 10_000), ZoomChoice::ZoomIn);
}

#[test]
fn zoom_lands_in_the_segment_filter() {
    let c = cut("00:00:05", "00:00:10");
    let f = build_segment_filter(&c, ZoomChoice::ZoomIn, 5_000);
    assert_eq!(
        f,
        "scale=-2:1920,crop=1080:1920:(iw-1080)*0.5:0,crop=iw/1.25:ih/1.25:(iw-out_w)/2:(ih-out_h)/2,scale=1080:1920"
    );
    let g = build_segment_filter(&c, ZoomChoice::ZoomOut, 5_000);
    assert!(g.contains("crop=iw/1.1:ih/1.1:"));
}

#[test]
fn captions_are_escaped_and_shown_for_the_whole_segment() {
    let mut c = cut("00:00:00", "00:00:04.5");
    c.caption = Some("don't: stop".to_string());
    c.caption_style = Some(CaptionStyle {
        font: None,
        color: Some("yellow".to_string()),
        position: None,
        boxed: Some(true),
        background_asset: None,
    });
    let f = build_segment_filter(&c, ZoomChoice::NoZoom, 4_500);
    assert_eq!(
        f,
        "scale=-2:1920,crop=1080:1920:(iw-1080)*0.5:0,drawtext=fontfile=/usr/share/fonts/opentype/noto/NotoSansCJK-Bold.ttc:text='dont\\: stop':fontcolor=yellow:fontsize=80:x=(w-text_w)/2:y=h*0.85:box=1:boxcolor=black@0.5:boxborderw=5:enable='between(t,0,4.5)'"
    );
}

#[test]
fn empty_captions_draw_nothing() {
    let mut c = cut("0", "5");
    c.caption = Some("".to_string());
    let f = build_segment_filter(&c, ZoomChoice::NoZoom, 5_000);
    assert_eq!(f, "scale=-2:1920,crop=1080:1920:(iw-1080)*0.5:0");
}

#[test]
fn missing_required_fields_are_spec_parse_errors() {
    let raw = RawSpec {
        original_filename: None,
        cuts: Some(vec![cut("0", "5")]),
        bgm_path: None,
        se_events: None,
        visual_effects: None,
        thumbnail: None,
    };
    assert_eq!(validate_spec(raw).unwrap_err(), PlanError::SpecParse);
    let raw2 = RawSpec {
        original_filename: Some("video.mp4".to_string()),
        cuts: None,
        bgm_path: None,
        se_events: None,
        visual_effects: None,
        thumbnail: None,
    };
    assert_eq!(validate_spec(raw2).unwrap_err(), PlanError::SpecParse);
    let raw3 = RawSpec {
        original_filename: Some("video.mp4".to_string()),
        cuts: Some(vec![]),
        bgm_path: None,
        se_events: None,
        visual_effects: None,
        thumbnail: None,
    };
    let ok = validate_spec(raw3).unwrap();
    assert_eq!(ok.original_filename, "video.mp4");
    assert!(ok.cuts.is_empty());
}

#[test]
fn an_empty_cut_list_plans_nothing() {
    let s = spec(vec![]);
    let p = plan_edit(&s, &config(), None).unwrap();
    assert!(p.jobs.is_empty());
    assert_eq!(p.total_ms, 0);
    assert_eq!(p.concat_list, "");
}
