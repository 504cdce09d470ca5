//! The run's fixed state: the mode and colours resolved once at startup,
//! and the per-line driver that turns one input line into one output line.

use vstd::prelude::*;
use vstd::string::StringExecFns;
use crate::color::{opt_str_view, resolve_color, resolve_opt_color_spec, Rgb};
use crate::errors::SetupError;
use crate::rx::{pattern_compiles, pattern_of, regex_new};
use crate::style::style_text;
use crate::text::{chars_to_string, contains_char, str_to_chars};
use crate::rx::{regex_captures_spec, regex_split_spec};
use crate::text::split_spec;
use crate::transform::{
    capture_subs_plain, lemma_split_nonempty, spans_line_spec, transform_capture,
    transform_literal, transform_pattern, uniform_subs,
};

verus! {

/// What a run does to each line, fixed at startup: substring search, regex
/// search, or regex search with capture interpolation.
pub enum Mode {
    Literal(String),
    Pattern(regex::Regex),
    PatternCapture(regex::Regex),
}

/// The view of a mode: the variant with the text that drives it, for a
/// regex the pattern it was compiled from.
pub enum ModeView {
    Literal(Seq<char>),
    Pattern(Seq<char>),
    PatternCapture(Seq<char>),
}

impl View for Mode {
    type V = ModeView;

    open spec fn view(&self) -> ModeView {
        match self {
            Mode::Literal(s) => ModeView::Literal(s@),
            Mode::Pattern(re) => ModeView::Pattern(pattern_of(*re)),
            Mode::PatternCapture(re) => ModeView::PatternCapture(pattern_of(*re)),
        }
    }
}

/// The mode the flags select. A regex is compiled only with the regex
/// flag; the capture flag without it is silently ignored and the run is a
/// literal substitution.
pub open spec fn selected_mode(rep: Seq<char>, regex_mode: bool, capture_mode: bool) -> ModeView {
    if !regex_mode {
        ModeView::Literal(rep)
    } else if capture_mode {
        ModeView::PatternCapture(rep)
    } else {
        ModeView::Pattern(rep)
    }
}

/// Decide the run's mode from the flags, compiling the pattern when the
/// regex flag asks for one and failing exactly when it does not compile.
pub fn compile_mode(rep: &str, regex_mode: bool, capture_mode: bool) -> (r: Result<
    Mode,
    SetupError,
>)
    ensures
        r is Ok <==> (regex_mode ==> pattern_compiles(rep@)),
        r matches Ok(m) ==> m@ == selected_mode(rep@, regex_mode, capture_mode),
        r matches Err(e) ==> e == SetupError::InvalidPattern,
{
    if !regex_mode {
        Ok(Mode::Literal(String::from_str(rep)))
    } else {
        match regex_new(rep) {
            Ok(re) => {
                if capture_mode {
                    Ok(Mode::PatternCapture(re))
                } else {
                    Ok(Mode::Pattern(re))
                }
            },
            Err(_) => Err(SetupError::InvalidPattern),
        }
    }
}

/// Everything a run fixes at startup: the mode, the substitution text, and
/// the two optional colours.
pub struct Config {
    pub mode: Mode,
    pub sub: String,
    pub fg: Option<Rgb>,
    pub bg: Option<Rgb>,
}

/// The view of a configuration.
pub struct ConfigView {
    pub mode: ModeView,
    pub sub: Seq<char>,
    pub fg: Option<Rgb>,
    pub bg: Option<Rgb>,
}

impl View for Config {
    type V = ConfigView;

    open spec fn view(&self) -> ConfigView {
        ConfigView { mode: self.mode@, sub: self.sub@, fg: self.fg, bg: self.bg }
    }
}

/// Build the run's configuration in the order the setup fails: the
/// foreground colour, then the background colour, then the mode. Setup
/// succeeds exactly when both colours resolve and a requested pattern
/// compiles.
pub fn build_config(
    rep: &str,
    sub: &str,
    regex_mode: bool,
    capture_mode: bool,
    fg_hex: Option<&str>,
    bg_hex: Option<&str>,
) -> (r: Result<Config, SetupError>)
    ensures
        r is Ok <==> (resolve_opt_color_spec(opt_str_view(fg_hex)) is Ok && resolve_opt_color_spec(
            opt_str_view(bg_hex),
        ) is Ok && (regex_mode ==> pattern_compiles(rep@))),
        r matches Ok(cfg) ==> {
            &&& Ok::<Option<Rgb>, SetupError>(cfg.fg) == resolve_opt_color_spec(
                opt_str_view(fg_hex),
            )
            &&& Ok::<Option<Rgb>, SetupError>(cfg.bg) == resolve_opt_color_spec(
                opt_str_view(bg_hex),
            )
            &&& cfg.sub@ == sub@
            &&& cfg.mode@ == selected_mode(rep@, regex_mode, capture_mode)
        },
        r matches Err(e) ==> {
            ||| Err::<Option<Rgb>, SetupError>(e) == resolve_opt_color_spec(opt_str_view(fg_hex))
            ||| (resolve_opt_color_spec(opt_str_view(fg_hex)) is Ok && Err::<
                Option<Rgb>,
                SetupError,
            >(e) == resolve_opt_color_spec(opt_str_view(bg_hex)))
            ||| (resolve_opt_color_spec(opt_str_view(fg_hex)) is Ok && resolve_opt_color_spec(
                opt_str_view(bg_hex),
            ) is Ok && regex_mode && !pattern_compiles(rep@) && e == SetupError::InvalidPattern)
        },
{
    let fg: Option<Rgb> = match resolve_color(fg_hex) {
        Ok(c) => c,
        Err(e) => {
            return Err(e);
        },
    };
    let bg: Option<Rgb> = match resolve_color(bg_hex) {
        Ok(c) => c,
        Err(e) => {
            return Err(e);
        },
    };
    let mode: Mode = match compile_mode(rep, regex_mode, capture_mode) {
        Ok(m) => m,
        Err(e) => {
            return Err(e);
        },
    };
    Ok(Config { mode, sub: String::from_str(sub), fg, bg })
}

/// Whether the run warrants the warning that capturing is on but the
/// substitution holds no placeholder: no `&` occurs in it.
pub fn warn_no_placeholder(capture_mode: bool, sub: &str) -> (r: bool)
    ensures
        r == (capture_mode && !sub@.contains('&')),
{
    capture_mode && !contains_char(sub, '&')
}

/// Whether the run warrants the warning that capturing is on but the
/// pattern forms no group: no parenthesis occurs in it.
pub fn warn_no_groups(capture_mode: bool, rep: &str) -> (r: bool)
    ensures
        r == (capture_mode && !(rep@.contains('(') || rep@.contains(')'))),
{
    capture_mode && !(contains_char(rep, '(') || contains_char(rep, ')'))
}

/// The shape one output line must have under `cfg`: the pieces the mode's
/// matcher yields around the matches, interleaved with the substitution
/// texts `subs`, the last piece trimmed of trailing whitespace. In the two
/// non-capture modes every match gets one and the same substitution text;
/// in capture mode each match gets its own. With no colours set the texts
/// are exactly the substitution string, in capture mode interpolated with
/// the match's captures; what styling wraps around them depends on the
/// terminal environment and is not predicted.
pub open spec fn line_shape(
    cfg: ConfigView,
    line: Seq<char>,
    subs: Seq<Seq<char>>,
    out: Seq<char>,
) -> bool {
    match cfg.mode {
        ModeView::Literal(needle) => {
            let parts = split_spec(line, needle);
            &&& subs.len() + 1 == parts.len()
            &&& out == spans_line_spec(parts, line, subs)
            &&& (forall|i: int, j: int|
                0 <= i < subs.len() && 0 <= j < subs.len() ==> subs[i] == subs[j])
            &&& (cfg.fg is None && cfg.bg is None ==> forall|i: int|
                0 <= i < subs.len() ==> subs[i] == cfg.sub)
        },
        ModeView::Pattern(pat) => {
            let parts = regex_split_spec(pat, line);
            &&& subs.len() + 1 == parts.len()
            &&& out == spans_line_spec(parts, line, subs)
            &&& (forall|i: int, j: int|
                0 <= i < subs.len() && 0 <= j < subs.len() ==> subs[i] == subs[j])
            &&& (cfg.fg is None && cfg.bg is None ==> forall|i: int|
                0 <= i < subs.len() ==> subs[i] == cfg.sub)
        },
        ModeView::PatternCapture(pat) => {
            let parts = regex_split_spec(pat, line);
            let caps = regex_captures_spec(pat, line);
            &&& subs.len() + 1 == parts.len()
            &&& out == spans_line_spec(parts, line, subs)
            &&& (cfg.fg is None && cfg.bg is None ==> subs == capture_subs_plain(
                cfg.sub,
                caps,
                (parts.len() - 1) as nat,
            ))
        },
    }
}

/// The uniform substitution vector of the two non-capture modes meets the
/// line shape, when the styled text is the substitution string whenever no
/// colour is set.
proof fn lemma_line_shape_uniform(
    cfg: ConfigView,
    line: Seq<char>,
    styled: Seq<char>,
    out: Seq<char>,
    parts: Seq<Seq<char>>,
)
    requires
        match cfg.mode {
            ModeView::Literal(needle) => parts == split_spec(line, needle),
            ModeView::Pattern(pat) => parts == regex_split_spec(pat, line),
            ModeView::PatternCapture(pat) => false,
        },
        parts.len() >= 1,
        out == spans_line_spec(parts, line, uniform_subs((parts.len() - 1) as nat, styled)),
        cfg.fg is None && cfg.bg is None ==> styled == cfg.sub,
    ensures
        exists|subs: Seq<Seq<char>>| #[trigger] line_shape(cfg, line, subs, out),
{
    let w = uniform_subs((parts.len() - 1) as nat, styled);
    assert(w.len() + 1 == parts.len());
    assert forall|i: int, j: int|
        0 <= i < w.len() && 0 <= j < w.len() implies w[i] == w[j] by {}
    if cfg.fg is None && cfg.bg is None {
        assert forall|i: int| 0 <= i < w.len() implies w[i] == cfg.sub by {}
    }
    assert(line_shape(cfg, line, w, out));
}

/// The per-match substitution texts of capture mode meet the line shape.
proof fn lemma_line_shape_capture(
    cfg: ConfigView,
    line: Seq<char>,
    subs: Seq<Seq<char>>,
    out: Seq<char>,
)
    requires
        cfg.mode is PatternCapture,
        ({
            let pat = cfg.mode->PatternCapture_0;
            let parts = regex_split_spec(pat, line);
            let caps = regex_captures_spec(pat, line);
            &&& subs.len() + 1 == parts.len()
            &&& out == spans_line_spec(parts, line, subs)
            &&& (cfg.fg is None && cfg.bg is None ==> subs == capture_subs_plain(
                cfg.sub,
                caps,
                (parts.len() - 1) as nat,
            ))
        }),
    ensures
        exists|s: Seq<Seq<char>>| #[trigger] line_shape(cfg, line, s, out),
{
    assert(line_shape(cfg, line, subs, out));
}

/// Turn one input line into one output line, exactly as the configuration
/// says; the caller appends the line terminator. The substitution texts
/// between the preserved pieces are pinned down by [`line_shape`]: exactly
/// the (per-match interpolated) substitution string when no colour is set,
/// and one uniform text per line in the non-capture modes.
pub fn process_line(cfg: &Config, line: &str) -> (out: String)
    ensures
        exists|subs: Seq<Seq<char>>| #[trigger] line_shape(cfg@, line@, subs, out@),
{
    match &cfg.mode {
        Mode::Literal(needle) => {
            let styled: String = style_text(cfg.sub.as_str(), cfg.fg, cfg.bg);
            let lc: Vec<char> = str_to_chars(line);
            let nc: Vec<char> = str_to_chars(needle.as_str());
            let sc: Vec<char> = str_to_chars(styled.as_str());
            let out: Vec<char> = transform_literal(&lc, &nc, &sc);
            let out_s: String = chars_to_string(&out);
            proof {
                lemma_split_nonempty(line@, needle@);
                assert(cfg@.mode == ModeView::Literal(needle@));
                lemma_line_shape_uniform(
                    cfg@,
                    line@,
                    styled@,
                    out_s@,
                    split_spec(line@, needle@),
                );
            }
            out_s
        },
        Mode::Pattern(re) => {
            let styled: String = style_text(cfg.sub.as_str(), cfg.fg, cfg.bg);
            let sc: Vec<char> = str_to_chars(styled.as_str());
            let out_s: String = transform_pattern(re, line, &sc);
            proof {
                assert(cfg@.mode == ModeView::Pattern(pattern_of(*re)));
                lemma_line_shape_uniform(
                    cfg@,
                    line@,
                    styled@,
                    out_s@,
                    regex_split_spec(pattern_of(*re), line@),
                );
            }
            out_s
        },
        Mode::PatternCapture(re) => {
            let tc: Vec<char> = str_to_chars(cfg.sub.as_str());
            let res: (String, Ghost<Seq<Seq<char>>>) = transform_capture(
                re,
                line,
                &tc,
                cfg.fg,
                cfg.bg,
            );
            proof {
                assert(cfg@.mode == ModeView::PatternCapture(pattern_of(*re)));
                lemma_line_shape_capture(cfg@, line@, res.1@, res.0@);
            }
            res.0
        },
    }
}

} // verus!
