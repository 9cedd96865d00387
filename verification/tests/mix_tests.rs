use muscle::compose::plan_edit;
use muscle::model::Cut;
use muscle::model::EditSpec;
use muscle::model::PlannerConfig;
use muscle::model::SeEvent;
use muscle::model::Thumbnail;
use muscle::planner::MapEntry;
use muscle::sequencer::map_output_time;

fn cut(start: &str, end: &str) -> Cut {
    Cut {
        start_time: start.to_string(),
        end_time: end.to_string(),
        filter: "none".to_string(),
        transition_type: None,
        caption: None,
        caption_style: None,
        focus_permille: None,
    }
}

fn config() -> PlannerConfig {
    PlannerConfig {
        raw_dir: "/raw".to_string(),
        output_dir: "/out".to_string(),
        temp_dir: "/tmp/work".to_string(),
        se_dir: "/se".to_string(),
        job_id: "job1".to_string(),
    }
}

fn spec(cuts: Vec<Cut>) -> EditSpec {
    EditSpec {
        original_filename: "video.mp4".to_string(),
        cuts,
        bgm_path: None,
        se_events: None,
        visual_effects: None,
        thumbnail: None,
    }
}

#[test]
fn background_music_layer_sits_under_the_main_audio() {
    let s = spec(vec![cut("0", "9.5")]);
    let p = plan_edit(&s, &config(), Some("/bgm/track.mp3".to_string())).unwrap();
    assert_eq!(p.mix.bgm_path.as_deref(), Some("/bgm/track.mp3"));
    assert_eq!(
        p.mix.filter_complex.unwrap(),
        "[0:a]volume=1.3[v_in];[1:a]volume=0.08[bgm];[v_in][bgm]amix=inputs=2:duration=first,afade=t=out:st=7.500:d=2[aout]"
    );
}

#[test]
fn music_and_effects_take_consecutive_inputs() {
    let mut s = spec(vec![cut("0", "10")]);
    s.se_events = Some(vec![
        SeEvent {
            timestamp: "1".to_string(),
            event_type: "serious".to_string(),
        },
        SeEvent {
            timestamp: "2.5".to_string(),
            event_type: "funny".to_string(),
        },
    ]);
    let p = plan_edit(&s, &config(), Some("/bgm/track.mp3".to_string())).unwrap();
    assert_eq!(p.mix.se.len(), 2);
    assert_eq!(p.mix.se[0].delay_ms, 1_000);
    assert_eq!(p.mix.se[0].asset_path, "/se/SYNTH_DON.wav");
    assert_eq!(p.mix.se[1].delay_ms, 2_500);
    assert_eq!(p.mix.se[1].asset_path, "/se/SYNTH_WHOOSH.wav");
    assert_eq!(
        p.mix.filter_complex.unwrap(),
        "[0:a]volume=1.3[v_in];[1:a]volume=0.08[bgm];[2:a]adelay=1000|1000,volume=0.8[se2];[3:a]adelay=2500|2500,volume=0.8[se3];[v_in][bgm][se2][se3]amix=inputs=4:duration=first,afade=t=out:st=8.000:d=2[aout]"
    );
}

#[test]
fn short_outputs_fade_from_the_start() {
    let s = spec(vec![cut("0", "1.5")]);
    let p = plan_edit(&s, &config(), Some("/bgm/track.mp3".to_string())).unwrap();
    assert_eq!(p.mix.fade_start_ms, 0);
    assert!(p
        .mix
        .filter_complex
        .unwrap()
        .contains("afade=t=out:st=0.000:d=2"));
}

#[test]
fn the_map_relocates_times_entry_by_entry() {
    let entries = vec![
        MapEntry {
            source_start_ms: 0,
            source_end_ms: 5_000,
            output_start_ms: 0,
        },
        MapEntry {
            source_start_ms: 5_000,
            source_end_ms: 10_000,
            output_start_ms: 4_500,
        },
    ];
    assert_eq!(map_output_time(&entries, 0), Some(0));
    assert_eq!(map_output_time(&entries, 4_999), Some(4_999));
    assert_eq!(map_output_time(&entries, 5_000), Some(4_500));
    assert_eq!(map_output_time(&entries, 7_000), Some(6_500));
    assert_eq!(map_output_time(&entries, 9_999), Some(9_499));
    assert_eq!(map_output_time(&entries, 10_000), None);
    assert_eq!(map_output_time(&entries, 123_456), None);
}

#[test]
fn overlapping_entries_resolve_to_the_first() {
    let entries = vec![
        MapEntry {
            source_start_ms: 0,
            source_end_ms: 10_000,
            output_start_ms: 0,
        },
        MapEntry {
            source_start_ms: 5_000,
            source_end_ms: 15_000,
            output_start_ms: 100_000,
        },
    ];
    assert_eq!(map_output_time(&entries, 7_000), Some(7_000));
    assert_eq!(map_output_time(&entries, 12_000), Some(107_000));
}

#[test]
fn thumbnail_job_samples_the_original_source() {
    let mut s = spec(vec![cut("0", "5")]);
    s.thumbnail = Some(Thumbnail {
        timestamp: "00:00:03".to_string(),
        text: "Wow".to_string(),
        color: Some("cyan".to_string()),
    });
    let p = plan_edit(&s, &config(), None).unwrap();
    let t = p.thumbnail.unwrap();
    assert_eq!(t.timestamp, "00:00:03");
    assert_eq!(t.output_path, "/out/video.mp4_thumb.jpg");
    assert!(t.filter.contains("fontcolor=cyan"));
    assert!(t.filter.starts_with("eq=saturation=1.5:contrast=1.2,"));
}
