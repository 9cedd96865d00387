//! Resolution of names to concrete engine parameters: caption styling,
//! transition kinds, sound-effect assets, the thumbnail overlay, and the
//! vertical-reframing crop.

use vstd::prelude::*;

use crate::model::CaptionStyle;
use crate::model::CaptionStyleModel;
use crate::text::contains_ignore_case;
use crate::text::contains_seq;
use crate::text::eq_ignore_case;
use crate::text::escape_overlay_text;
use crate::text::escape_text;
use crate::text::lower_seq;
use crate::text::str_eq;
use crate::timecode::spec_milli_trimmed;

verus! {

pub open spec fn opt_style_model(o: Option<CaptionStyle>) -> Option<CaptionStyleModel> {
    match o {
        Some(s) => Some(s@),
        None => None,
    }
}

/// Font file resolved from a caption style: serif when asked for exactly,
/// sans otherwise.
pub open spec fn spec_caption_font(style: Option<CaptionStyleModel>) -> Seq<char> {
    match style {
        Some(s) => match s.font {
            Some(f) => if f == "serif"@ {
                "/usr/share/fonts/opentype/noto/NotoSerifCJK-Bold.ttc"@
            } else {
                "/usr/share/fonts/opentype/noto/NotoSansCJK-Bold.ttc"@
            },
            None => "/usr/share/fonts/opentype/noto/NotoSansCJK-Bold.ttc"@,
        },
        None => "/usr/share/fonts/opentype/noto/NotoSansCJK-Bold.ttc"@,
    }
}

/// Caption colour resolved from a style: yellow and cyan pass, everything
/// else falls back to white.
pub open spec fn spec_caption_color(style: Option<CaptionStyleModel>) -> Seq<char> {
    match style {
        Some(s) => match s.color {
            Some(c) => if c == "yellow"@ {
                "yellow"@
            } else if c == "cyan"@ {
                "cyan"@
            } else {
                "white"@
            },
            None => "white"@,
        },
        None => "white"@,
    }
}

/// The background-asset hint asks for a highlight bar: it names something
/// box-like or ticker-like, compared without regard to ASCII case.
pub open spec fn spec_hint_boxed(hint: Option<Seq<char>>) -> bool {
    match hint {
        Some(h) => contains_seq(lower_seq(h), "box"@) || contains_seq(lower_seq(h), "ticker"@),
        None => false,
    }
}

/// Box parameters: a translucent black bar beneath the text when asked for
/// outright or through a box-like or ticker-like background-asset hint,
/// nothing otherwise.
pub open spec fn spec_caption_box(style: Option<CaptionStyleModel>) -> Seq<char> {
    match style {
        Some(s) => if s.boxed == Some(true) || spec_hint_boxed(s.background_asset) {
            ":box=1:boxcolor=black@0.5:boxborderw=5"@
        } else {
            Seq::<char>::empty()
        },
        None => Seq::<char>::empty(),
    }
}

/// Vertical position expression: top, centre, or the lowered bottom band
/// that leaves room for player chrome.
pub open spec fn spec_caption_y(style: Option<CaptionStyleModel>) -> Seq<char> {
    match style {
        Some(s) => match s.position {
            Some(p) => if p == "top"@ {
                "h*0.1"@
            } else if p == "center"@ {
                "(h-text_h)/2"@
            } else {
                "h*0.85"@
            },
            None => "h*0.85"@,
        },
        None => "h*0.85"@,
    }
}

/// Resolves a caption style to concrete font file, colour, box parameters
/// and vertical position, applying the defaults (sans, white, no box,
/// bottom) wherever the style is silent.
pub fn get_drawtext_config(style: &Option<CaptionStyle>) -> (r: (String, String, String, String))
    ensures
        r.0@ == spec_caption_font(opt_style_model(*style)),
        r.1@ == spec_caption_color(opt_style_model(*style)),
        r.2@ == spec_caption_box(opt_style_model(*style)),
        r.3@ == spec_caption_y(opt_style_model(*style)),
{
    match style {
        Some(s) => {
            let font = match &s.font {
                Some(f) => if str_eq(f.as_str(), "serif") {
                    String::from_str("/usr/share/fonts/opentype/noto/NotoSerifCJK-Bold.ttc")
                } else {
                    String::from_str("/usr/share/fonts/opentype/noto/NotoSansCJK-Bold.ttc")
                },
                None => String::from_str("/usr/share/fonts/opentype/noto/NotoSansCJK-Bold.ttc"),
            };
            let color = match &s.color {
                Some(c) => if str_eq(c.as_str(), "yellow") {
                    String::from_str("yellow")
                } else if str_eq(c.as_str(), "cyan") {
                    String::from_str("cyan")
                } else {
                    String::from_str("white")
                },
                None => String::from_str("white"),
            };
            let boxed = match s.boxed {
                Some(b) => b,
                None => false,
            };
            let hinted = match &s.background_asset {
                Some(h) => {
                    proof {
                        reveal_strlit("box");
                        reveal_strlit("ticker");
                        assert(lower_seq("box"@) =~= "box"@);
                        assert(lower_seq("ticker"@) =~= "ticker"@);
                    }
                    contains_ignore_case(h.as_str(), "box") || contains_ignore_case(
                        h.as_str(),
                        "ticker",
                    )
                },
                None => false,
            };
            let box_conf = if boxed || hinted {
                String::from_str(":box=1:boxcolor=black@0.5:boxborderw=5")
            } else {
                String::new()
            };
            let y = match &s.position {
                Some(p) => if str_eq(p.as_str(), "top") {
                    String::from_str("h*0.1")
                } else if str_eq(p.as_str(), "center") {
                    String::from_str("(h-text_h)/2")
                } else {
                    String::from_str("h*0.85")
                },
                None => String::from_str("h*0.85"),
            };
            (font, color, box_conf, y)
        },
        None => (
            String::from_str("/usr/share/fonts/opentype/noto/NotoSansCJK-Bold.ttc"),
            String::from_str("white"),
            String::new(),
            String::from_str("h*0.85"),
        ),
    }
}

/// Engine transition kind for a configured transition name, compared
/// without regard to ASCII case; unknown names fall back to a plain fade.
pub open spec fn spec_transition_filter(name: Seq<char>) -> Seq<char> {
    let t = lower_seq(name);
    if t == "wipeleft"@ {
        "wipeleft"@
    } else if t == "wiperight"@ {
        "wiperight"@
    } else if t == "slideup"@ {
        "slideup"@
    } else if t == "circleopen"@ {
        "circleopen"@
    } else {
        "fade"@
    }
}

pub fn get_transition_filter(name: &str) -> (r: &'static str)
    ensures
        r@ == spec_transition_filter(name@),
{
    proof {
        reveal_strlit("wipeleft");
        reveal_strlit("wiperight");
        reveal_strlit("slideup");
        reveal_strlit("circleopen");
        assert(lower_seq("wipeleft"@) =~= "wipeleft"@);
        assert(lower_seq("wiperight"@) =~= "wiperight"@);
        assert(lower_seq("slideup"@) =~= "slideup"@);
        assert(lower_seq("circleopen"@) =~= "circleopen"@);
    }
    if eq_ignore_case(name, "wipeleft") {
        "wipeleft"
    } else if eq_ignore_case(name, "wiperight") {
        "wiperight"
    } else if eq_ignore_case(name, "slideup") {
        "slideup"
    } else if eq_ignore_case(name, "circleopen") {
        "circleopen"
    } else {
        "fade"
    }
}

/// Sound asset chosen for an event-type tag: an ordered keyword table over
/// the lower-cased tag, with an explicit fallback to the percussive hit.
pub open spec fn spec_se_asset(tag: Seq<char>) -> Seq<char> {
    let t = lower_seq(tag);
    if contains_seq(t, "serious"@) {
        "SYNTH_DON.wav"@
    } else if contains_seq(t, "funny"@) {
        "SYNTH_WHOOSH.wav"@
    } else if contains_seq(t, "whoosh"@) {
        "SYNTH_WHOOSH.wav"@
    } else if contains_seq(t, "correct"@) {
        "SYNTH_DON.wav"@
    } else if contains_seq(t, "impact"@) {
        "SYNTH_DON.wav"@
    } else {
        "SYNTH_DON.wav"@
    }
}

/// Resolves a sound-effect tag to the path of one of the synthetic assets
/// under `se_dir`. Matching is by case-insensitive substring, in a fixed
/// order; an unmatched tag falls back to the default asset.
pub fn get_se_file(tag: &str, se_dir: &str) -> (r: String)
    ensures
        r@ == se_dir@ + "/"@ + spec_se_asset(tag@),
{
    proof {
        reveal_strlit("serious");
        reveal_strlit("funny");
        reveal_strlit("whoosh");
        reveal_strlit("correct");
        reveal_strlit("impact");
        assert(lower_seq("serious"@) =~= "serious"@);
        assert(lower_seq("funny"@) =~= "funny"@);
        assert(lower_seq("whoosh"@) =~= "whoosh"@);
        assert(lower_seq("correct"@) =~= "correct"@);
        assert(lower_seq("impact"@) =~= "impact"@);
    }
    let asset: &'static str = if contains_ignore_case(tag, "serious") {
        "SYNTH_DON.wav"
    } else if contains_ignore_case(tag, "funny") {
        "SYNTH_WHOOSH.wav"
    } else if contains_ignore_case(tag, "whoosh") {
        "SYNTH_WHOOSH.wav"
    } else if contains_ignore_case(tag, "correct") {
        "SYNTH_DON.wav"
    } else if contains_ignore_case(tag, "impact") {
        "SYNTH_DON.wav"
    } else {
        "SYNTH_DON.wav"
    };
    let mut out = String::new();
    out.append(se_dir);
    out.append("/");
    out.append(asset);
    proof {
        assert(out@ =~= se_dir@ + "/"@ + spec_se_asset(tag@));
    }
    out
}

/// Thumbnail text colour from the small fixed palette, compared without
/// regard to ASCII case; anything unknown is white.
pub open spec fn spec_thumb_color(color: Seq<char>) -> Seq<char> {
    let t = lower_seq(color);
    if t == "yellow"@ {
        "yellow"@
    } else if t == "red"@ {
        "red"@
    } else if t == "cyan"@ {
        "cyan"@
    } else {
        "white"@
    }
}

/// The thumbnail overlay: a saturation and contrast boost, then the escaped
/// text drawn large and centred with a border and a drop shadow.
pub open spec fn spec_thumbnail_filter(text: Seq<char>, color: Seq<char>) -> Seq<char> {
    "eq=saturation=1.5:contrast=1.2,drawtext=text='"@ + escape_overlay_text(text) + "':fontfile="@
        + "/usr/share/fonts/opentype/noto/NotoSansCJK-Bold.ttc"@ + ":fontsize=120:fontcolor="@
        + spec_thumb_color(color)
        + ":x=(w-text_w)/2:y=(h-text_h)/2:borderw=5:bordercolor=black:shadowx=5:shadowy=5"@
}

pub fn get_thumbnail_filter(text: &str, color: &str) -> (r: String)
    ensures
        r@ == spec_thumbnail_filter(text@, color@),
{
    proof {
        reveal_strlit("yellow");
        reveal_strlit("red");
        reveal_strlit("cyan");
        assert(lower_seq("yellow"@) =~= "yellow"@);
        assert(lower_seq("red"@) =~= "red"@);
        assert(lower_seq("cyan"@) =~= "cyan"@);
    }
    let font_color: &'static str = if eq_ignore_case(color, "yellow") {
        "yellow"
    } else if eq_ignore_case(color, "red") {
        "red"
    } else if eq_ignore_case(color, "cyan") {
        "cyan"
    } else {
        "white"
    };
    let escaped = escape_text(text);
    let mut out = String::new();
    out.append("eq=saturation=1.5:contrast=1.2,drawtext=text='");
    out.append(escaped.as_str());
    out.append("':fontfile=");
    out.append("/usr/share/fonts/opentype/noto/NotoSansCJK-Bold.ttc");
    out.append(":fontsize=120:fontcolor=");
    out.append(font_color);
    out.append(":x=(w-text_w)/2:y=(h-text_h)/2:borderw=5:bordercolor=black:shadowx=5:shadowy=5");
    proof {
        assert(out@ =~= spec_thumbnail_filter(text@, color@));
    }
    out
}

/// The vertical-reframing chain: scale to the target height, then crop the
/// target width anchored horizontally at the focus anchor (thousandths).
pub open spec fn spec_crop_filter(focus_permille: int) -> Seq<char> {
    "scale=-2:1920,crop=1080:1920:(iw-1080)*"@ + spec_milli_trimmed(focus_permille) + ":0"@
}

/// Horizontal crop offset, in pixels, for a frame of `frame_width` pixels
/// cropped to the 1080-pixel target at a focus anchor given in thousandths:
/// 0 is flush left, 500 centred, 1000 flush right.
pub fn crop_x_px(frame_width: u64, focus_permille: u64) -> (r: u64)
    requires
        frame_width >= 1080,
        frame_width <= 1_000_000_000,
        focus_permille <= 1000,
    ensures
        r as int == (frame_width - 1080) * focus_permille / 1000,
{
    let w = frame_width - 1080;
    proof {
        assert(w * focus_permille <= 1_000_000_000 * 1000) by (nonlinear_arith)
            requires
                w <= 1_000_000_000,
                focus_permille <= 1000,
        ;
    }
    w * focus_permille / 1000
}

} // verus!
