use muscle::filters::crop_x_px;
use muscle::filters::get_drawtext_config;
use muscle::filters::get_se_file;
use muscle::filters::get_thumbnail_filter;
use muscle::filters::get_transition_filter;
use muscle::model::CaptionStyle;

const SANS: &str = "/usr/share/fonts/opentype/noto/NotoSansCJK-Bold.ttc";
const SERIF: &str = "/usr/share/fonts/opentype/noto/NotoSerifCJK-Bold.ttc";

#[test]
fn transition_names_resolve_case_insensitively() {
    assert_eq!(get_transition_filter("wipeleft"), "wipeleft");
    assert_eq!(get_transition_filter("WipeRight"), "wiperight");
    assert_eq!(get_transition_filter("SLIDEUP"), "slideup");
    assert_eq!(get_transition_filter("circleopen"), "circleopen");
    assert_eq!(get_transition_filter("dissolve"), "fade");
    assert_eq!(get_transition_filter(""), "fade");
}

#[test]
fn se_tags_resolve_through_the_ordered_table() {
    assert_eq!(get_se_file("serious", "/se"), "/se/SYNTH_DON.wav");
    assert_eq!(get_se_file("FUNNY moment", "/se"), "/se/SYNTH_WHOOSH.wav");
    assert_eq!(get_se_file("big-Whoosh", "/se"), "/se/SYNTH_WHOOSH.wav");
    assert_eq!(get_se_file("correct", "/se"), "/se/SYNTH_DON.wav");
    assert_eq!(get_se_file("impact", "/se"), "/se/SYNTH_DON.wav");
    // "serious" is tested before "funny", so a tag holding both resolves
    // to the percussive hit.
    assert_eq!(get_se_file("serious but funny", "/se"), "/se/SYNTH_DON.wav");
    // The unmatched fallback.
    assert_eq!(get_se_file("mystery", "/se"), "/se/SYNTH_DON.wav");
}

#[test]
fn drawtext_defaults_without_a_style() {
    let (font, color, boxconf, y) = get_drawtext_config(&None);
    assert_eq!(font, SANS);
    assert_eq!(color, "white");
    assert_eq!(boxconf, "");
    assert_eq!(y, "h*0.85");
}

#[test]
fn drawtext_resolves_a_full_style() {
    let style = CaptionStyle {
        font: Some("serif".to_string()),
        color: Some("yellow".to_string()),
        position: Some("top".to_string()),
        boxed: Some(true),
        background_asset: None,
    };
    let (font, color, boxconf, y) = get_drawtext_config(&Some(style));
    assert_eq!(font, SERIF);
    assert_eq!(color, "yellow");
    assert_eq!(boxconf, ":box=1:boxcolor=black@0.5:boxborderw=5");
    assert_eq!(y, "h*0.1");
}

#[test]
fn drawtext_unknown_values_fall_back() {
    let style = CaptionStyle {
        font: Some("gothic".to_string()),
        color: Some("magenta".to_string()),
        position: Some("sideways".to_string()),
        boxed: Some(false),
        background_asset: None,
    };
    let (font, color, boxconf, y) = get_drawtext_config(&Some(style));
    assert_eq!(font, SANS);
    assert_eq!(color, "white");
    assert_eq!(boxconf, "");
    assert_eq!(y, "h*0.85");
    let style2 = CaptionStyle {
        font: None,
        color: Some("cyan".to_string()),
        position: Some("center".to_string()),
        boxed: None,
        background_asset: None,
    };
    let (_, color2, _, y2) = get_drawtext_config(&Some(style2));
    assert_eq!(color2, "cyan");
    assert_eq!(y2, "(h-text_h)/2");
}

#[test]
fn a_box_like_or_ticker_like_hint_draws_the_highlight_bar() {
    let style = CaptionStyle {
        font: None,
        color: None,
        position: None,
        boxed: None,
        background_asset: Some("news_Ticker.png".to_string()),
    };
    let (_, _, boxconf, _) = get_drawtext_config(&Some(style));
    assert_eq!(boxconf, ":box=1:boxcolor=black@0.5:boxborderw=5");
    let style2 = CaptionStyle {
        font: None,
        color: None,
        position: None,
        boxed: Some(false),
        background_asset: Some("textBOX-dark".to_string()),
    };
    let (_, _, boxconf2, _) = get_drawtext_config(&Some(style2));
    assert_eq!(boxconf2, ":box=1:boxcolor=black@0.5:boxborderw=5");
    let style3 = CaptionStyle {
        font: None,
        color: None,
        position: None,
        boxed: None,
        background_asset: Some("gradient.png".to_string()),
    };
    let (_, _, boxconf3, _) = get_drawtext_config(&Some(style3));
    assert_eq!(boxconf3, "");
}

#[test]
fn thumbnail_filter_is_exact() {
    let expected = format!(
        "eq=saturation=1.5:contrast=1.2,drawtext=text='Big News':fontfile={}:fontsize=120:fontcolor=yellow:x=(w-text_w)/2:y=(h-text_h)/2:borderw=5:bordercolor=black:shadowx=5:shadowy=5",
        SANS
    );
    assert_eq!(get_thumbnail_filter("Big News", "yellow"), expected);
}

#[test]
fn thumbnail_filter_escapes_and_defaults() {
    let f = get_thumbnail_filter("don't: stop", "chartreuse");
    assert!(f.contains("text='dont\\: stop'"));
    assert!(f.contains("fontcolor=white"));
    let red = get_thumbnail_filter("x", "RED");
    assert!(red.contains("fontcolor=red"));
}

#[test]
fn crop_anchor_lands_at_the_edges_and_centre() {
    // A 1920-wide frame cropped to 1080: 840 spare pixels.
    assert_eq!(crop_x_px(1920, 0), 0);
    assert_eq!(crop_x_px(1920, 1000), 840);
    assert_eq!(crop_x_px(1920, 500), 420);
    assert_eq!(crop_x_px(1080, 500), 0);
    assert_eq!(crop_x_px(3840, 250), 690);
}
