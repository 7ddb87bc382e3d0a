//! The canonical on-disk text form of the preferences record.
//!
//! `encode_config` renders a record as one canonical line of structured
//! text — brace-delimited fields in a fixed order, strings quoted
//! verbatim, numbers in plain decimal. `decode_config` reads that
//! schema back with every field optional: a present field yields its
//! parsed value, an absent one its documented default, so an older
//! file never loses the settings it does carry; only text that is not
//! such a record at all is rejected, and then resolution regenerates
//! defaults. Decoding inverts encoding on every well-formed record.

use crate::config::default_config_spec;
use crate::config::initialize_spec;
use crate::config::lemma_default_wf;
use crate::config::text_safe;
use crate::config::text_safe_char;
use crate::config::Config;
use crate::config::ConfigV;
use crate::config::FontFamily;
use crate::config::FontSizes;
use crate::config::FontSpec;
use crate::config::TextRole;
use crate::config::ThemeMode;
use crate::format::dec_digits;
use crate::format::digit_char;
use crate::format::digits_string;
use vstd::prelude::*;

verus! {

// ---------------------------------------------------------------------
// The canonical text, as sequences of characters.
// ---------------------------------------------------------------------
/// A quoted string's tail: the verbatim characters and the closing
/// quote (the opening quote belongs to the preceding literal).
pub open spec fn enc_str_part(s: Seq<char>) -> Seq<char> {
    s + seq!['"']
}

/// Canonical text of a boolean.
pub open spec fn enc_bool(b: bool) -> Seq<char> {
    if b {
        "true"@
    } else {
        "false"@
    }
}

/// Canonical text of a theme mode.
pub open spec fn enc_mode(m: ThemeMode) -> Seq<char> {
    if m == ThemeMode::Light {
        "\"light\""@
    } else {
        "\"dark\""@
    }
}

/// Canonical text of a text role.
pub open spec fn enc_role(r: TextRole) -> Seq<char> {
    match r {
        TextRole::Heading => "\"heading\""@,
        TextRole::Body => "\"body\""@,
        TextRole::Monospace => "\"monospace\""@,
        TextRole::Button => "\"button\""@,
        TextRole::Small => "\"small\""@,
    }
}

/// Canonical text of a font family.
pub open spec fn enc_family(f: FontFamily) -> Seq<char> {
    if f == FontFamily::Proportional {
        "\"proportional\""@
    } else {
        "\"monospace\""@
    }
}

/// Canonical text of a font descriptor.
#[verifier::opaque]
pub open spec fn enc_font(f: FontSpec) -> Seq<char> {
    "{\"size_tenths\":"@ + (dec_digits(f.size_tenths as nat) + (",\"family\":"@ + (enc_family(
        f.family,
    ) + "}"@)))
}

/// Canonical text of the per-role font table.
pub open spec fn enc_fonts(f: FontSizes) -> Seq<char> {
    "{\"heading\":"@ + (enc_font(f.heading) + (",\"body\":"@ + (enc_font(f.body)
        + (",\"monospace\":"@ + (enc_font(f.monospace) + (",\"button\":"@ + (enc_font(f.button)
        + (",\"small\":"@ + (enc_font(f.small) + "}"@)))))))))
}

/// Canonical text of the version, locale and widget-opacity fields.
pub open spec fn enc_part1(c: ConfigV) -> Seq<char> {
    "{\"version\":\""@ + (enc_str_part(c.version) + (",\"locale\":\""@ + (enc_str_part(c.locale)
        + (",\"widget_opacity\":"@ + dec_digits(c.widget_opacity as nat)))))
}

/// Canonical text of the streamer and font fields.
pub open spec fn enc_part2(c: ConfigV) -> Seq<char> {
    ",\"streamer_mode\":"@ + (enc_bool(c.streamer_mode) + (",\"streamer_msg\":\""@
        + (enc_str_part(c.streamer_msg) + (",\"font_sizes\":"@ + enc_fonts(c.font_sizes)))))
}

/// Canonical text of the theme, mode and legend-style fields.
pub open spec fn enc_part3(c: ConfigV) -> Seq<char> {
    ",\"theme\":"@ + (dec_digits(c.theme as nat) + (",\"theme_mode\":"@ + (enc_mode(
        c.theme_mode,
    ) + (",\"legend_text_style\":"@ + enc_role(c.legend_text_style)))))
}

/// Canonical text of the trailing fields and the closing brace.
pub open spec fn enc_part4(c: ConfigV) -> Seq<char> {
    ",\"pie_chart_opacity\":"@ + (dec_digits(c.pie_chart_opacity as nat)
        + (",\"defender_exclusion\":"@ + (enc_bool(c.defender_exclusion)
        + (",\"auto_showhide_ui\":"@ + (enc_bool(c.auto_showhide_ui) + "}"@)))))
}

/// Canonical text of a whole preferences record.
pub open spec fn enc_config(c: ConfigV) -> Seq<char> {
    enc_part1(c) + (enc_part2(c) + (enc_part3(c) + enc_part4(c)))
}

// ---------------------------------------------------------------------
// The parser, as specification functions over the text.
// ---------------------------------------------------------------------
/// Position after a fixed literal at `i`, when the text carries exactly
/// that literal there.
pub open spec fn expect_spec(s: Seq<char>, i: int, lit: Seq<char>) -> Option<int> {
    if 0 <= i && i + lit.len() <= s.len() && s.subrange(i, i + lit.len()) == lit {
        Some(i + lit.len())
    } else {
        None
    }
}

/// Offset of the first quote of `t`, when every character before it
/// may stand verbatim in a quoted string.
pub open spec fn str_scan(t: Seq<char>) -> Option<int>
    decreases t.len(),
{
    if t.len() == 0 {
        None
    } else if t[0] == '"' {
        Some(0)
    } else if !text_safe_char(t[0]) {
        None
    } else {
        match str_scan(t.skip(1)) {
            Some(k) => Some(k + 1),
            None => None,
        }
    }
}

/// The quoted-string tail starting at `i`: its verbatim characters and
/// the position after its closing quote.
pub open spec fn scan_string_spec(s: Seq<char>, i: int) -> Option<(Seq<char>, int)> {
    match str_scan(s.skip(i)) {
        Some(k) => Some((s.subrange(i, i + k), i + k + 1)),
        None => None,
    }
}

/// A decimal digit.
pub open spec fn is_digit(c: char) -> bool {
    48 <= c as int && c as int <= 57
}

/// The numeric value of a decimal digit character.
pub open spec fn digit_val(c: char) -> int {
    c as int - 48
}

/// Length of the digit run at the head of `t`.
pub open spec fn digit_run(t: Seq<char>) -> int
    decreases t.len(),
{
    if t.len() == 0 || !is_digit(t[0]) {
        0
    } else {
        1 + digit_run(t.skip(1))
    }
}

/// The numeric value of a digit sequence, most significant first.
pub open spec fn digits_val(d: Seq<char>) -> int
    decreases d.len(),
{
    if d.len() == 0 {
        0
    } else {
        digits_val(d.drop_last()) * 10 + digit_val(d.last())
    }
}

/// The number starting at `i` and the position after it: the value of
/// the digit run there, when the run is nonempty, at most ten digits
/// long and within `u32` range.
pub open spec fn scan_u32_spec(s: Seq<char>, i: int) -> Option<(u32, int)> {
    let m = digit_run(s.skip(i));
    if m == 0 || m > 10 {
        None
    } else {
        let v = digits_val(s.subrange(i, i + m));
        if v > u32::MAX {
            None
        } else {
            Some((v as u32, i + m))
        }
    }
}

/// The boolean starting at `i`.
pub open spec fn parse_bool_spec(s: Seq<char>, i: int) -> Option<(bool, int)> {
    match expect_spec(s, i, "true"@) {
        Some(j) => Some((true, j)),
        None => match expect_spec(s, i, "false"@) {
            Some(j) => Some((false, j)),
            None => None,
        },
    }
}

/// The theme mode starting at `i`.
pub open spec fn parse_mode_spec(s: Seq<char>, i: int) -> Option<(ThemeMode, int)> {
    match expect_spec(s, i, "\"light\""@) {
        Some(j) => Some((ThemeMode::Light, j)),
        None => match expect_spec(s, i, "\"dark\""@) {
            Some(j) => Some((ThemeMode::Dark, j)),
            None => None,
        },
    }
}

/// The text role starting at `i`.
pub open spec fn parse_role_spec(s: Seq<char>, i: int) -> Option<(TextRole, int)> {
    match expect_spec(s, i, "\"heading\""@) {
        Some(j) => Some((TextRole::Heading, j)),
        None => match expect_spec(s, i, "\"body\""@) {
            Some(j) => Some((TextRole::Body, j)),
            None => match expect_spec(s, i, "\"monospace\""@) {
                Some(j) => Some((TextRole::Monospace, j)),
                None => match expect_spec(s, i, "\"button\""@) {
                    Some(j) => Some((TextRole::Button, j)),
                    None => match expect_spec(s, i, "\"small\""@) {
                        Some(j) => Some((TextRole::Small, j)),
                        None => None,
                    },
                },
            },
        },
    }
}

/// The font family starting at `i`.
pub open spec fn parse_family_spec(s: Seq<char>, i: int) -> Option<(FontFamily, int)> {
    match expect_spec(s, i, "\"proportional\""@) {
        Some(j) => Some((FontFamily::Proportional, j)),
        None => match expect_spec(s, i, "\"monospace\""@) {
            Some(j) => Some((FontFamily::Monospace, j)),
            None => None,
        },
    }
}

/// The font descriptor starting at `i`.
pub open spec fn parse_font_spec(s: Seq<char>, i: int) -> Option<(FontSpec, int)> {
    match expect_spec(s, i, "{\"size_tenths\":"@) {
        Some(j1) => match scan_u32_spec(s, j1) {
            Some((size, j2)) => match expect_spec(s, j2, ",\"family\":"@) {
                Some(j3) => match parse_family_spec(s, j3) {
                    Some((family, j4)) => match expect_spec(s, j4, "}"@) {
                        Some(j5) => Some((FontSpec { size_tenths: size, family }, j5)),
                        None => None,
                    },
                    None => None,
                },
                None => None,
            },
            None => None,
        },
        None => None,
    }
}

/// The per-role font table starting at `i`.
pub open spec fn parse_fonts_spec(s: Seq<char>, i: int) -> Option<(FontSizes, int)> {
    match expect_spec(s, i, "{\"heading\":"@) {
        Some(j1) => match parse_font_spec(s, j1) {
            Some((heading, j2)) => match expect_spec(s, j2, ",\"body\":"@) {
                Some(j3) => match parse_font_spec(s, j3) {
                    Some((body, j4)) => match expect_spec(s, j4, ",\"monospace\":"@) {
                        Some(j5) => match parse_font_spec(s, j5) {
                            Some((monospace, j6)) => match expect_spec(s, j6, ",\"button\":"@) {
                                Some(j7) => match parse_font_spec(s, j7) {
                                    Some((button, j8)) => match expect_spec(
                                        s,
                                        j8,
                                        ",\"small\":"@,
                                    ) {
                                        Some(j9) => match parse_font_spec(s, j9) {
                                            Some((small, j10)) => match expect_spec(
                                                s,
                                                j10,
                                                "}"@,
                                            ) {
                                                Some(j11) => Some(
                                                    (
                                                        FontSizes {
                                                            heading,
                                                            body,
                                                            monospace,
                                                            button,
                                                            small,
                                                        },
                                                        j11,
                                                    ),
                                                ),
                                                None => None,
                                            },
                                            None => None,
                                        },
                                        None => None,
                                    },
                                    None => None,
                                },
                                None => None,
                            },
                            None => None,
                        },
                        None => None,
                    },
                    None => None,
                },
                None => None,
            },
            None => None,
        },
        None => None,
    }
}

/// Fields gathered while reading a record: a present field carries
/// its parsed value, an absent one stays unset until defaults fill it.
pub ghost struct PartialV {
    pub version: Option<Seq<char>>,
    pub locale: Option<Seq<char>>,
    pub widget_opacity: Option<u32>,
    pub streamer_mode: Option<bool>,
    pub streamer_msg: Option<Seq<char>>,
    pub font_sizes: Option<FontSizes>,
    pub theme: Option<u32>,
    pub theme_mode: Option<ThemeMode>,
    pub legend_text_style: Option<TextRole>,
    pub pie_chart_opacity: Option<u32>,
    pub defender_exclusion: Option<bool>,
    pub auto_showhide_ui: Option<bool>,
}

/// No field read yet.
pub open spec fn empty_partial() -> PartialV {
    PartialV {
        version: None,
        locale: None,
        widget_opacity: None,
        streamer_mode: None,
        streamer_msg: None,
        font_sizes: None,
        theme: None,
        theme_mode: None,
        legend_text_style: None,
        pie_chart_opacity: None,
        defender_exclusion: None,
        auto_showhide_ui: None,
    }
}

/// The record the gathered fields denote: every absent field takes its
/// documented default, so a missing field never prevents a fully
/// populated record; an out-of-range opacity rejects the record.
pub open spec fn finalize_spec(p: PartialV) -> Option<ConfigV> {
    let d = default_config_spec();
    let c = ConfigV {
        version: match p.version {
            Some(v) => v,
            None => d.version,
        },
        locale: match p.locale {
            Some(v) => v,
            None => d.locale,
        },
        widget_opacity: match p.widget_opacity {
            Some(v) => v,
            None => d.widget_opacity,
        },
        streamer_mode: match p.streamer_mode {
            Some(v) => v,
            None => d.streamer_mode,
        },
        streamer_msg: match p.streamer_msg {
            Some(v) => v,
            None => d.streamer_msg,
        },
        font_sizes: match p.font_sizes {
            Some(v) => v,
            None => d.font_sizes,
        },
        theme: match p.theme {
            Some(v) => v,
            None => d.theme,
        },
        theme_mode: match p.theme_mode {
            Some(v) => v,
            None => d.theme_mode,
        },
        legend_text_style: match p.legend_text_style {
            Some(v) => v,
            None => d.legend_text_style,
        },
        pie_chart_opacity: match p.pie_chart_opacity {
            Some(v) => v,
            None => d.pie_chart_opacity,
        },
        defender_exclusion: match p.defender_exclusion {
            Some(v) => v,
            None => d.defender_exclusion,
        },
        auto_showhide_ui: match p.auto_showhide_ui {
            Some(v) => v,
            None => d.auto_showhide_ui,
        },
    };
    if c.widget_opacity <= 100 && c.pie_chart_opacity <= 100 {
        Some(c)
    } else {
        None
    }
}

/// A quoted string value: opening quote, verbatim characters, closing
/// quote.
pub open spec fn parse_quoted_spec(s: Seq<char>, i: int) -> Option<(Seq<char>, int)> {
    match expect_spec(s, i, "\""@) {
        Some(j) => scan_string_spec(s, j),
        None => None,
    }
}

/// The value of the named field at `i`, and the fields gathered after
/// it. A key read twice, an unknown key, or a malformed value rejects
/// the record.
pub open spec fn parse_field_value_spec(
    s: Seq<char>,
    i: int,
    p: PartialV,
    key: Seq<char>,
) -> Option<(PartialV, int)> {
    if key == "version"@ {
        if p.version is Some {
            None
        } else {
            match parse_quoted_spec(s, i) {
                Some(v) => Some((PartialV { version: Some(v.0), ..p }, v.1)),
                None => None,
            }
        }
    } else if key == "locale"@ {
        if p.locale is Some {
            None
        } else {
            match parse_quoted_spec(s, i) {
                Some(v) => Some((PartialV { locale: Some(v.0), ..p }, v.1)),
                None => None,
            }
        }
    } else if key == "widget_opacity"@ {
        if p.widget_opacity is Some {
            None
        } else {
            match scan_u32_spec(s, i) {
                Some(v) => Some((PartialV { widget_opacity: Some(v.0), ..p }, v.1)),
                None => None,
            }
        }
    } else if key == "streamer_mode"@ {
        if p.streamer_mode is Some {
            None
        } else {
            match parse_bool_spec(s, i) {
                Some(v) => Some((PartialV { streamer_mode: Some(v.0), ..p }, v.1)),
                None => None,
            }
        }
    } else if key == "streamer_msg"@ {
        if p.streamer_msg is Some {
            None
        } else {
            match parse_quoted_spec(s, i) {
                Some(v) => Some((PartialV { streamer_msg: Some(v.0), ..p }, v.1)),
                None => None,
            }
        }
    } else if key == "font_sizes"@ {
        if p.font_sizes is Some {
            None
        } else {
            match parse_fonts_spec(s, i) {
                Some(v) => Some((PartialV { font_sizes: Some(v.0), ..p }, v.1)),
                None => None,
            }
        }
    } else if key == "theme"@ {
        if p.theme is Some {
            None
        } else {
            match scan_u32_spec(s, i) {
                Some(v) => Some((PartialV { theme: Some(v.0), ..p }, v.1)),
                None => None,
            }
        }
    } else if key == "theme_mode"@ {
        if p.theme_mode is Some {
            None
        } else {
            match parse_mode_spec(s, i) {
                Some(v) => Some((PartialV { theme_mode: Some(v.0), ..p }, v.1)),
                None => None,
            }
        }
    } else if key == "legend_text_style"@ {
        if p.legend_text_style is Some {
            None
        } else {
            match parse_role_spec(s, i) {
                Some(v) => Some((PartialV { legend_text_style: Some(v.0), ..p }, v.1)),
                None => None,
            }
        }
    } else if key == "pie_chart_opacity"@ {
        if p.pie_chart_opacity is Some {
            None
        } else {
            match scan_u32_spec(s, i) {
                Some(v) => Some((PartialV { pie_chart_opacity: Some(v.0), ..p }, v.1)),
                None => None,
            }
        }
    } else if key == "defender_exclusion"@ {
        if p.defender_exclusion is Some {
            None
        } else {
            match parse_bool_spec(s, i) {
                Some(v) => Some((PartialV { defender_exclusion: Some(v.0), ..p }, v.1)),
                None => None,
            }
        }
    } else if key == "auto_showhide_ui"@ {
        if p.auto_showhide_ui is Some {
            None
        } else {
            match parse_bool_spec(s, i) {
                Some(v) => Some((PartialV { auto_showhide_ui: Some(v.0), ..p }, v.1)),
                None => None,
            }
        }
    } else {
        None
    }
}

/// One `"key":value` pair at `i`: the field it sets and the position
/// after it.
pub open spec fn parse_field_spec(s: Seq<char>, i: int, p: PartialV) -> Option<(PartialV, int)> {
    match expect_spec(s, i, "\""@) {
        Some(j0) => match scan_string_spec(s, j0) {
            Some(kv) => match expect_spec(s, kv.1, ":"@) {
                Some(j2) => parse_field_value_spec(s, j2, p, kv.0),
                None => None,
            },
            None => None,
        },
        None => None,
    }
}

/// The field list of a record from `i` on: pairs separated by commas,
/// closed by the final brace at the very end of the text.
pub open spec fn dec_fields(s: Seq<char>, i: int, p: PartialV) -> Option<ConfigV>
    decreases s.len() - i,
{
    if !(0 <= i <= s.len()) {
        None
    } else {
        match parse_field_spec(s, i, p) {
            Some(pj) => if !(i < pj.1 <= s.len()) {
                None
            } else {
                match expect_spec(s, pj.1, "}"@) {
                    Some(j2) => if j2 == s.len() {
                        finalize_spec(pj.0)
                    } else {
                        None
                    },
                    None => match expect_spec(s, pj.1, ","@) {
                        Some(j3) => if pj.1 < j3 <= s.len() {
                            dec_fields(s, j3, pj.0)
                        } else {
                            None
                        },
                        None => None,
                    },
                }
            },
            None => None,
        }
    }
}

/// A whole record: braces around any subset of the known fields, in
/// any order, each at most once, spanning the entire text.
pub open spec fn dec_spec(s: Seq<char>) -> Option<ConfigV> {
    match expect_spec(s, 0, "{"@) {
        Some(j0) => match expect_spec(s, j0, "}"@) {
            Some(j1) => if j1 == s.len() {
                finalize_spec(empty_partial())
            } else {
                None
            },
            None => dec_fields(s, j0, empty_partial()),
        },
        None => None,
    }
}

// ---------------------------------------------------------------------
// Arithmetic support for digit runs.
// ---------------------------------------------------------------------
/// Ten to the `k`.
pub open spec fn pow10(k: nat) -> int
    decreases k,
{
    if k == 0 {
        1
    } else {
        10 * pow10((k - 1) as nat)
    }
}

/// Concrete small powers of ten.
pub proof fn lemma_pow10_vals()
    ensures
        pow10(9) == 1_000_000_000,
        pow10(10) == 10_000_000_000,
{
    assert(pow10(0) == 1);
    assert(pow10(1) == 10);
    assert(pow10(2) == 100);
    assert(pow10(3) == 1000);
    assert(pow10(4) == 10000);
    assert(pow10(5) == 100000);
    assert(pow10(6) == 1000000);
    assert(pow10(7) == 10000000);
    assert(pow10(8) == 100000000);
    assert(pow10(9) == 1000000000);
    assert(pow10(10) == 10000000000);
}

/// Powers of ten are positive and monotone.
pub proof fn lemma_pow10_mono(a: nat, b: nat)
    requires
        a <= b,
    ensures
        1 <= pow10(a) <= pow10(b),
    decreases b,
{
    if a == b {
        lemma_pow10_pos(a);
    } else {
        lemma_pow10_mono(a, (b - 1) as nat);
    }
}

/// Powers of ten are positive.
pub proof fn lemma_pow10_pos(k: nat)
    ensures
        1 <= pow10(k),
    decreases k,
{
    if k > 0 {
        lemma_pow10_pos((k - 1) as nat);
    }
}

/// A digit run is never negative and never longer than the text.
pub proof fn lemma_digit_run_props(t: Seq<char>)
    ensures
        0 <= digit_run(t) <= t.len(),
    decreases t.len(),
{
    if t.len() > 0 && is_digit(t[0]) {
        lemma_digit_run_props(t.skip(1));
    }
}

/// A digit run passes over any all-digit prefix.
pub proof fn lemma_digit_run_offset(t: Seq<char>, m: int)
    requires
        0 <= m <= t.len(),
        forall|k: int| 0 <= k < m ==> is_digit(t[k]),
    ensures
        digit_run(t) == m + digit_run(t.skip(m)),
    decreases m,
{
    if m > 0 {
        lemma_digit_run_offset(t.skip(1), m - 1);
        assert(t.skip(1).skip(m - 1) =~= t.skip(m));
    } else {
        assert(t.skip(0) =~= t);
    }
}

/// A string scan passes over any safe, quote-free prefix.
pub proof fn lemma_str_scan_offset(t: Seq<char>, m: int)
    requires
        0 <= m <= t.len(),
        forall|k: int| 0 <= k < m ==> text_safe_char(t[k]) && t[k] != '"',
    ensures
        str_scan(t) == match str_scan(t.skip(m)) {
            Some(k) => Some(k + m),
            None => None::<int>,
        },
    decreases m,
{
    if m > 0 {
        lemma_str_scan_offset(t.skip(1), m - 1);
        assert(t.skip(1).skip(m - 1) =~= t.skip(m));
    } else {
        assert(t.skip(0) =~= t);
    }
}

// ---------------------------------------------------------------------
// The executable parser. Each function returns exactly what its
// specification twin denotes.
// ---------------------------------------------------------------------
/// Match a fixed literal at `i`.
fn expect_lit(s: &str, i: usize, lit: &str) -> (r: Option<usize>)
    ensures
        match r {
            Some(j) => expect_spec(s@, i as int, lit@) == Some(j as int) && j <= s@.len(),
            None => expect_spec(s@, i as int, lit@) == None::<int>,
        },
{
    let sl = s.unicode_len();
    let ll = lit.unicode_len();
    if i > sl || ll > sl - i {
        return None;
    }
    for k in 0..ll
        invariant
            sl == s@.len(),
            ll == lit@.len(),
            i + ll <= sl,
            forall|t: int| 0 <= t < k ==> s@[i + t] == lit@[t],
    {
        if s.get_char(i + k) != lit.get_char(k) {
            proof {
                assert(s@.subrange(i as int, i + ll)[k as int] == s@[i + k]);
            }
            return None;
        }
    }
    proof {
        assert(s@.subrange(i as int, i + ll) =~= lit@);
    }
    Some(i + ll)
}

/// Read a quoted string's tail at `i`: verbatim characters up to the
/// closing quote.
fn scan_string(s: &str, i: usize) -> (r: Option<(String, usize)>)
    requires
        i <= s@.len(),
    ensures
        match r {
            Some(v) => scan_string_spec(s@, i as int) == Some((v.0@, v.1 as int)) && i < v.1
                <= s@.len(),
            None => scan_string_spec(s@, i as int) == None::<(Seq<char>, int)>,
        },
{
    let sl = s.unicode_len();
    let mut j = i;
    loop
        invariant
            i <= j <= sl,
            sl == s@.len(),
            forall|k: int| i <= k < j ==> text_safe_char(s@[k]) && s@[k] != '"',
        decreases sl - j,
    {
        proof {
            assert forall|k: int|
                0 <= k < j - i implies text_safe_char(s@.skip(i as int)[k]) && s@.skip(i as int)[k]
                != '"' by {
                assert(s@.skip(i as int)[k] == s@[i + k]);
            }
            lemma_str_scan_offset(s@.skip(i as int), j - i);
            assert(s@.skip(i as int).skip(j - i) =~= s@.skip(j as int));
        }
        if j >= sl {
            proof {
                assert(s@.skip(j as int).len() == 0);
            }
            return None;
        }
        proof {
            assert(s@.skip(j as int)[0] == s@[j as int]);
        }
        let c = s.get_char(j);
        if c == '"' {
            let x = String::from_str(s.substring_char(i, j));
            proof {
                assert(str_scan(s@.skip(i as int)) == Some(j - i));
            }
            return Some((x, j + 1));
        }
        if c == '\\' || (c as u32) < 32 {
            return None;
        }
        j = j + 1;
    }
}

/// Read a decimal number at `i` into a `u32`.
fn scan_u32(s: &str, i: usize) -> (r: Option<(u32, usize)>)
    requires
        i <= s@.len(),
    ensures
        match r {
            Some(v) => scan_u32_spec(s@, i as int) == Some((v.0, v.1 as int)) && i < v.1
                <= s@.len(),
            None => scan_u32_spec(s@, i as int) == None::<(u32, int)>,
        },
{
    let sl = s.unicode_len();
    let mut j = i;
    let mut acc: u64 = 0;
    proof {
        lemma_pow10_vals();
        assert(s@.subrange(i as int, i as int) =~= Seq::<char>::empty());
    }
    loop
        invariant
            i <= j <= sl,
            j - i <= 10,
            sl == s@.len(),
            forall|k: int| i <= k < j ==> is_digit(s@[k]),
            acc == digits_val(s@.subrange(i as int, j as int)),
            acc < pow10((j - i) as nat),
            pow10(9) == 1_000_000_000,
            pow10(10) == 10_000_000_000,
        decreases sl - j,
    {
        proof {
            assert forall|k: int| 0 <= k < j - i implies is_digit(s@.skip(i as int)[k]) by {
                assert(s@.skip(i as int)[k] == s@[i + k]);
            }
            lemma_digit_run_offset(s@.skip(i as int), j - i);
            assert(s@.skip(i as int).skip(j - i) =~= s@.skip(j as int));
            if j < sl {
                assert(s@.skip(j as int)[0] == s@[j as int]);
            } else {
                assert(s@.skip(j as int).len() == 0);
            }
        }
        let run_over = if j >= sl {
            true
        } else {
            let c = s.get_char(j);
            !((c as u32) >= 48 && (c as u32) <= 57)
        };
        if run_over {
            // The digit run from `i` is exactly `j - i` long.
            proof {
                assert(digit_run(s@.skip(i as int)) == j - i);
            }
            if j == i {
                return None;
            }
            if acc > 0xFFFF_FFFF {
                return None;
            }
            return Some((acc as u32, j));
        }
        let c = s.get_char(j);
        if j - i == 10 {
            // An eleventh digit: the run is longer than ten.
            proof {
                lemma_digit_run_props(s@.skip(j as int).skip(1));
                assert(digit_run(s@.skip(j as int)) >= 1);
                assert(digit_run(s@.skip(i as int)) > 10);
            }
            return None;
        }
        let d = (c as u32) - 48;
        proof {
            assert(s@.subrange(i as int, j + 1).drop_last() =~= s@.subrange(i as int, j as int));
            assert(s@.subrange(i as int, j + 1).last() == s@[j as int]);
            lemma_pow10_mono((j - i) as nat, 9);
            assert(acc < 1_000_000_000);
        }
        acc = acc * 10 + (d as u64);
        j = j + 1;
    }
}

/// Read a boolean at `i`.
fn parse_bool(s: &str, i: usize) -> (r: Option<(bool, usize)>)
    ensures
        match r {
            Some(v) => parse_bool_spec(s@, i as int) == Some((v.0, v.1 as int)) && i < v.1
                <= s@.len(),
            None => parse_bool_spec(s@, i as int) == None::<(bool, int)>,
        },
{
    proof {
        reveal_strlit("true");
        reveal_strlit("false");
    }
    match expect_lit(s, i, "true") {
        Some(j) => Some((true, j)),
        None => match expect_lit(s, i, "false") {
            Some(j) => Some((false, j)),
            None => None,
        },
    }
}

/// Read a theme mode at `i`.
fn parse_mode(s: &str, i: usize) -> (r: Option<(ThemeMode, usize)>)
    ensures
        match r {
            Some(v) => parse_mode_spec(s@, i as int) == Some((v.0, v.1 as int)) && i < v.1
                <= s@.len(),
            None => parse_mode_spec(s@, i as int) == None::<(ThemeMode, int)>,
        },
{
    proof {
        reveal_strlit("\"light\"");
        reveal_strlit("\"dark\"");
    }
    match expect_lit(s, i, "\"light\"") {
        Some(j) => Some((ThemeMode::Light, j)),
        None => match expect_lit(s, i, "\"dark\"") {
            Some(j) => Some((ThemeMode::Dark, j)),
            None => None,
        },
    }
}

/// Read a text role at `i`.
fn parse_role(s: &str, i: usize) -> (r: Option<(TextRole, usize)>)
    ensures
        match r {
            Some(v) => parse_role_spec(s@, i as int) == Some((v.0, v.1 as int)) && i < v.1
                <= s@.len(),
            None => parse_role_spec(s@, i as int) == None::<(TextRole, int)>,
        },
{
    proof {
        reveal_strlit("\"heading\"");
        reveal_strlit("\"body\"");
        reveal_strlit("\"monospace\"");
        reveal_strlit("\"button\"");
        reveal_strlit("\"small\"");
    }
    match expect_lit(s, i, "\"heading\"") {
        Some(j) => Some((TextRole::Heading, j)),
        None => match expect_lit(s, i, "\"body\"") {
            Some(j) => Some((TextRole::Body, j)),
            None => match expect_lit(s, i, "\"monospace\"") {
                Some(j) => Some((TextRole::Monospace, j)),
                None => match expect_lit(s, i, "\"button\"") {
                    Some(j) => Some((TextRole::Button, j)),
                    None => match expect_lit(s, i, "\"small\"") {
                        Some(j) => Some((TextRole::Small, j)),
                        None => None,
                    },
                },
            },
        },
    }
}

/// Read a font family at `i`.
fn parse_family(s: &str, i: usize) -> (r: Option<(FontFamily, usize)>)
    ensures
        match r {
            Some(v) => parse_family_spec(s@, i as int) == Some((v.0, v.1 as int)) && i < v.1
                <= s@.len(),
            None => parse_family_spec(s@, i as int) == None::<(FontFamily, int)>,
        },
{
    proof {
        reveal_strlit("\"proportional\"");
        reveal_strlit("\"monospace\"");
    }
    match expect_lit(s, i, "\"proportional\"") {
        Some(j) => Some((FontFamily::Proportional, j)),
        None => match expect_lit(s, i, "\"monospace\"") {
            Some(j) => Some((FontFamily::Monospace, j)),
            None => None,
        },
    }
}

/// Read a font descriptor at `i`.
fn parse_font(s: &str, i: usize) -> (r: Option<(FontSpec, usize)>)
    ensures
        match r {
            Some(v) => parse_font_spec(s@, i as int) == Some((v.0, v.1 as int)) && i < v.1
                <= s@.len(),
            None => parse_font_spec(s@, i as int) == None::<(FontSpec, int)>,
        },
{
    proof {
        reveal_strlit("{\"size_tenths\":");
    }
    let j1 = match expect_lit(s, i, "{\"size_tenths\":") {
        Some(j) => j,
        None => {
            return None;
        },
    };
    let (size, j2) = match scan_u32(s, j1) {
        Some(v) => v,
        None => {
            return None;
        },
    };
    let j3 = match expect_lit(s, j2, ",\"family\":") {
        Some(j) => j,
        None => {
            return None;
        },
    };
    let (family, j4) = match parse_family(s, j3) {
        Some(v) => v,
        None => {
            return None;
        },
    };
    let j5 = match expect_lit(s, j4, "}") {
        Some(j) => j,
        None => {
            return None;
        },
    };
    Some((FontSpec { size_tenths: size, family }, j5))
}

/// Read the per-role font table at `i`.
fn parse_fonts(s: &str, i: usize) -> (r: Option<(FontSizes, usize)>)
    ensures
        match r {
            Some(v) => parse_fonts_spec(s@, i as int) == Some((v.0, v.1 as int)) && i < v.1
                <= s@.len(),
            None => parse_fonts_spec(s@, i as int) == None::<(FontSizes, int)>,
        },
{
    proof {
        reveal_strlit("{\"heading\":");
    }
    let j1 = match expect_lit(s, i, "{\"heading\":") {
        Some(j) => j,
        None => {
            return None;
        },
    };
    let (heading, j2) = match parse_font(s, j1) {
        Some(v) => v,
        None => {
            return None;
        },
    };
    let j3 = match expect_lit(s, j2, ",\"body\":") {
        Some(j) => j,
        None => {
            return None;
        },
    };
    let (body, j4) = match parse_font(s, j3) {
        Some(v) => v,
        None => {
            return None;
        },
    };
    let j5 = match expect_lit(s, j4, ",\"monospace\":") {
        Some(j) => j,
        None => {
            return None;
        },
    };
    let (monospace, j6) = match parse_font(s, j5) {
        Some(v) => v,
        None => {
            return None;
        },
    };
    let j7 = match expect_lit(s, j6, ",\"button\":") {
        Some(j) => j,
        None => {
            return None;
        },
    };
    let (button, j8) = match parse_font(s, j7) {
        Some(v) => v,
        None => {
            return None;
        },
    };
    let j9 = match expect_lit(s, j8, ",\"small\":") {
        Some(j) => j,
        None => {
            return None;
        },
    };
    let (small, j10) = match parse_font(s, j9) {
        Some(v) => v,
        None => {
            return None;
        },
    };
    let j11 = match expect_lit(s, j10, "}") {
        Some(j) => j,
        None => {
            return None;
        },
    };
    Some((FontSizes { heading, body, monospace, button, small }, j11))
}

/// Character-for-character string equality.
fn str_eq(a: &str, b: &str) -> (r: bool)
    ensures
        r == (a@ == b@),
{
    let al = a.unicode_len();
    let bl = b.unicode_len();
    if al != bl {
        return false;
    }
    for k in 0..al
        invariant
            al == a@.len(),
            bl == b@.len(),
            al == bl,
            forall|t: int| 0 <= t < k ==> a@[t] == b@[t],
    {
        if a.get_char(k) != b.get_char(k) {
            proof {
                assert(a@[k as int] != b@[k as int]);
            }
            return false;
        }
    }
    proof {
        assert(a@ =~= b@);
    }
    true
}

/// Fields gathered so far while reading a record.
pub struct Partial {
    pub version: Option<String>,
    pub locale: Option<String>,
    pub widget_opacity: Option<u32>,
    pub streamer_mode: Option<bool>,
    pub streamer_msg: Option<String>,
    pub font_sizes: Option<FontSizes>,
    pub theme: Option<u32>,
    pub theme_mode: Option<ThemeMode>,
    pub legend_text_style: Option<TextRole>,
    pub pie_chart_opacity: Option<u32>,
    pub defender_exclusion: Option<bool>,
    pub auto_showhide_ui: Option<bool>,
}

impl View for Partial {
    type V = PartialV;

    open spec fn view(&self) -> PartialV {
        PartialV {
            version: match self.version {
                Some(v) => Some(v@),
                None => None,
            },
            locale: match self.locale {
                Some(v) => Some(v@),
                None => None,
            },
            widget_opacity: self.widget_opacity,
            streamer_mode: self.streamer_mode,
            streamer_msg: match self.streamer_msg {
                Some(v) => Some(v@),
                None => None,
            },
            font_sizes: self.font_sizes,
            theme: self.theme,
            theme_mode: self.theme_mode,
            legend_text_style: self.legend_text_style,
            pie_chart_opacity: self.pie_chart_opacity,
            defender_exclusion: self.defender_exclusion,
            auto_showhide_ui: self.auto_showhide_ui,
        }
    }
}

/// No field read yet.
fn empty_exec() -> (p: Partial)
    ensures
        p@ == empty_partial(),
{
    Partial {
        version: None,
        locale: None,
        widget_opacity: None,
        streamer_mode: None,
        streamer_msg: None,
        font_sizes: None,
        theme: None,
        theme_mode: None,
        legend_text_style: None,
        pie_chart_opacity: None,
        defender_exclusion: None,
        auto_showhide_ui: None,
    }
}

/// Fill every absent field with its documented default.
fn finalize(p: Partial) -> (r: Option<Config>)
    ensures
        match r {
            Some(c) => finalize_spec(p@) == Some(c@),
            None => finalize_spec(p@) == None::<ConfigV>,
        },
{
    let d = Config::default();
    let c = Config {
        version: match p.version {
            Some(v) => v,
            None => d.version,
        },
        locale: match p.locale {
            Some(v) => v,
            None => d.locale,
        },
        widget_opacity: match p.widget_opacity {
            Some(v) => v,
            None => d.widget_opacity,
        },
        streamer_mode: match p.streamer_mode {
            Some(v) => v,
            None => d.streamer_mode,
        },
        streamer_msg: match p.streamer_msg {
            Some(v) => v,
            None => d.streamer_msg,
        },
        font_sizes: match p.font_sizes {
            Some(v) => v,
            None => d.font_sizes,
        },
        theme: match p.theme {
            Some(v) => v,
            None => d.theme,
        },
        theme_mode: match p.theme_mode {
            Some(v) => v,
            None => d.theme_mode,
        },
        legend_text_style: match p.legend_text_style {
            Some(v) => v,
            None => d.legend_text_style,
        },
        pie_chart_opacity: match p.pie_chart_opacity {
            Some(v) => v,
            None => d.pie_chart_opacity,
        },
        defender_exclusion: match p.defender_exclusion {
            Some(v) => v,
            None => d.defender_exclusion,
        },
        auto_showhide_ui: match p.auto_showhide_ui {
            Some(v) => v,
            None => d.auto_showhide_ui,
        },
    };
    if c.widget_opacity <= 100 && c.pie_chart_opacity <= 100 {
        Some(c)
    } else {
        None
    }
}

/// A quoted string value: opening quote, verbatim characters, closing
/// quote.
fn parse_quoted(s: &str, i: usize) -> (r: Option<(String, usize)>)
    requires
        i <= s@.len(),
    ensures
        match r {
            Some(v) => parse_quoted_spec(s@, i as int) == Some((v.0@, v.1 as int)) && i < v.1
                <= s@.len(),
            None => parse_quoted_spec(s@, i as int) == None::<(Seq<char>, int)>,
        },
{
    let j = match expect_lit(s, i, "\"") {
        Some(j) => j,
        None => {
            return None;
        },
    };
    scan_string(s, j)
}

/// One `"key":value` pair: the field it sets and the position after
/// it.
fn parse_field(s: &str, i: usize, p: Partial) -> (r: Option<(Partial, usize)>)
    requires
        i <= s@.len(),
    ensures
        match r {
            Some(v) => parse_field_spec(s@, i as int, p@) == Some((v.0@, v.1 as int)) && i < v.1
                <= s@.len(),
            None => parse_field_spec(s@, i as int, p@) == None::<(PartialV, int)>,
        },
{
    let j0 = match expect_lit(s, i, "\"") {
        Some(j) => j,
        None => {
            return None;
        },
    };
    let (key, j1) = match scan_string(s, j0) {
        Some(v) => v,
        None => {
            return None;
        },
    };
    let j2 = match expect_lit(s, j1, ":") {
        Some(j) => j,
        None => {
            return None;
        },
    };
    if str_eq(key.as_str(), "version") {
        if p.version.is_some() {
            return None;
        }
        let (v, j3) = match parse_quoted(s, j2) {
            Some(v) => v,
            None => {
                return None;
            },
        };
        Some((Partial { version: Some(v), ..p }, j3))
    } else if str_eq(key.as_str(), "locale") {
        if p.locale.is_some() {
            return None;
        }
        let (v, j3) = match parse_quoted(s, j2) {
            Some(v) => v,
            None => {
                return None;
            },
        };
        Some((Partial { locale: Some(v), ..p }, j3))
    } else if str_eq(key.as_str(), "widget_opacity") {
        if p.widget_opacity.is_some() {
            return None;
        }
        let (v, j3) = match scan_u32(s, j2) {
            Some(v) => v,
            None => {
                return None;
            },
        };
        Some((Partial { widget_opacity: Some(v), ..p }, j3))
    } else if str_eq(key.as_str(), "streamer_mode") {
        if p.streamer_mode.is_some() {
            return None;
        }
        let (v, j3) = match parse_bool(s, j2) {
            Some(v) => v,
            None => {
                return None;
            },
        };
        Some((Partial { streamer_mode: Some(v), ..p }, j3))
    } else if str_eq(key.as_str(), "streamer_msg") {
        if p.streamer_msg.is_some() {
            return None;
        }
        let (v, j3) = match parse_quoted(s, j2) {
            Some(v) => v,
            None => {
                return None;
            },
        };
        Some((Partial { streamer_msg: Some(v), ..p }, j3))
    } else if str_eq(key.as_str(), "font_sizes") {
        if p.font_sizes.is_some() {
            return None;
        }
        let (v, j3) = match parse_fonts(s, j2) {
            Some(v) => v,
            None => {
                return None;
            },
        };
        Some((Partial { font_sizes: Some(v), ..p }, j3))
    } else if str_eq(key.as_str(), "theme") {
        if p.theme.is_some() {
            return None;
        }
        let (v, j3) = match scan_u32(s, j2) {
            Some(v) => v,
            None => {
                return None;
            },
        };
        Some((Partial { theme: Some(v), ..p }, j3))
    } else if str_eq(key.as_str(), "theme_mode") {
        if p.theme_mode.is_some() {
            return None;
        }
        let (v, j3) = match parse_mode(s, j2) {
            Some(v) => v,
            None => {
                return None;
            },
        };
        Some((Partial { theme_mode: Some(v), ..p }, j3))
    } else if str_eq(key.as_str(), "legend_text_style") {
        if p.legend_text_style.is_some() {
            return None;
        }
        let (v, j3) = match parse_role(s, j2) {
            Some(v) => v,
            None => {
                return None;
            },
        };
        Some((Partial { legend_text_style: Some(v), ..p }, j3))
    } else if str_eq(key.as_str(), "pie_chart_opacity") {
        if p.pie_chart_opacity.is_some() {
            return None;
        }
        let (v, j3) = match scan_u32(s, j2) {
            Some(v) => v,
            None => {
                return None;
            },
        };
        Some((Partial { pie_chart_opacity: Some(v), ..p }, j3))
    } else if str_eq(key.as_str(), "defender_exclusion") {
        if p.defender_exclusion.is_some() {
            return None;
        }
        let (v, j3) = match parse_bool(s, j2) {
            Some(v) => v,
            None => {
                return None;
            },
        };
        Some((Partial { defender_exclusion: Some(v), ..p }, j3))
    } else if str_eq(key.as_str(), "auto_showhide_ui") {
        if p.auto_showhide_ui.is_some() {
            return None;
        }
        let (v, j3) = match parse_bool(s, j2) {
            Some(v) => v,
            None => {
                return None;
            },
        };
        Some((Partial { auto_showhide_ui: Some(v), ..p }, j3))
    } else {
        None
    }
}

/// Parse a preferences record: braces around any subset of the known
/// fields, in any order, each at most once. A present field yields its
/// parsed value and an absent one its documented default, so an older
/// file stays usable; text that is not such a record, or an
/// out-of-range opacity, is rejected whole.
pub fn decode_config(s: &str) -> (r: Option<Config>)
    ensures
        match r {
            Some(c) => dec_spec(s@) == Some(c@),
            None => dec_spec(s@) == None::<ConfigV>,
        },
{
    let sl = s.unicode_len();
    let j0 = match expect_lit(s, 0, "{") {
        Some(j) => j,
        None => {
            return None;
        },
    };
    match expect_lit(s, j0, "}") {
        Some(j1) => {
            if j1 == sl {
                return finalize(empty_exec());
            }
            return None;
        },
        None => {},
    }
    let mut p = empty_exec();
    let mut i = j0;
    loop
        invariant
            i <= sl,
            sl == s@.len(),
            dec_spec(s@) == dec_fields(s@, i as int, p@),
        decreases sl - i,
    {
        let (p2, j) = match parse_field(s, i, p) {
            Some(v) => v,
            None => {
                return None;
            },
        };
        p = p2;
        match expect_lit(s, j, "}") {
            Some(j2) => {
                if j2 == sl {
                    return finalize(p);
                }
                return None;
            },
            None => {},
        }
        let j3 = match expect_lit(s, j, ",") {
            Some(v) => v,
            None => {
                return None;
            },
        };
        proof {
            reveal_strlit(",");
        }
        i = j3;
    }
}

// ---------------------------------------------------------------------
// The executable encoder.
// ---------------------------------------------------------------------
/// Append a boolean's canonical text.
fn append_bool(out: &mut String, b: bool)
    ensures
        final(out)@ == old(out)@ + enc_bool(b),
{
    if b {
        out.append("true");
    } else {
        out.append("false");
    }
}

/// Append a font descriptor's canonical text.
fn append_font(out: &mut String, f: &FontSpec)
    ensures
        final(out)@ == old(out)@ + enc_font(*f),
{
    let ghost base = out@;
    out.append("{\"size_tenths\":");
    let digits = digits_string(f.size_tenths as u64);
    out.append(digits.as_str());
    out.append(",\"family\":");
    match f.family {
        FontFamily::Proportional => out.append("\"proportional\""),
        FontFamily::Monospace => out.append("\"monospace\""),
    }
    out.append("}");
    proof {
        reveal(enc_font);
        assert(out@ =~= base + enc_font(*f));
    }
}

/// Append the per-role font table's canonical text.
#[verifier::rlimit(60)]
fn append_fonts(out: &mut String, f: &FontSizes)
    ensures
        final(out)@ == old(out)@ + enc_fonts(*f),
{
    let ghost base = out@;
    out.append("{\"heading\":");
    append_font(out, &f.heading);
    out.append(",\"body\":");
    append_font(out, &f.body);
    out.append(",\"monospace\":");
    append_font(out, &f.monospace);
    out.append(",\"button\":");
    append_font(out, &f.button);
    out.append(",\"small\":");
    append_font(out, &f.small);
    out.append("}");
    proof {
        assert(out@ =~= base + enc_fonts(*f));
    }
}

/// Append the version, locale and widget-opacity fields.
#[verifier::rlimit(60)]
fn append_part1(out: &mut String, c: &Config)
    ensures
        final(out)@ == old(out)@ + enc_part1(c@),
{
    let ghost base = out@;
    out.append("{\"version\":\"");
    out.append(c.version.as_str());
    out.append("\"");
    out.append(",\"locale\":\"");
    out.append(c.locale.as_str());
    out.append("\"");
    out.append(",\"widget_opacity\":");
    let d = digits_string(c.widget_opacity as u64);
    out.append(d.as_str());
    proof {
        reveal_strlit("\"");
        assert(out@ =~= base + enc_part1(c@));
    }
}

/// Append the streamer and font fields.
#[verifier::rlimit(60)]
fn append_part2(out: &mut String, c: &Config)
    ensures
        final(out)@ == old(out)@ + enc_part2(c@),
{
    let ghost base = out@;
    out.append(",\"streamer_mode\":");
    append_bool(out, c.streamer_mode);
    out.append(",\"streamer_msg\":\"");
    out.append(c.streamer_msg.as_str());
    out.append("\"");
    out.append(",\"font_sizes\":");
    append_fonts(out, &c.font_sizes);
    proof {
        reveal_strlit("\"");
        assert(out@ =~= base + enc_part2(c@));
    }
}

/// Append the theme, mode and legend-style fields.
#[verifier::rlimit(60)]
fn append_part3(out: &mut String, c: &Config)
    ensures
        final(out)@ == old(out)@ + enc_part3(c@),
{
    let ghost base = out@;
    out.append(",\"theme\":");
    let d = digits_string(c.theme as u64);
    out.append(d.as_str());
    out.append(",\"theme_mode\":");
    match c.theme_mode {
        ThemeMode::Light => out.append("\"light\""),
        ThemeMode::Dark => out.append("\"dark\""),
    }
    out.append(",\"legend_text_style\":");
    match c.legend_text_style {
        TextRole::Heading => out.append("\"heading\""),
        TextRole::Body => out.append("\"body\""),
        TextRole::Monospace => out.append("\"monospace\""),
        TextRole::Button => out.append("\"button\""),
        TextRole::Small => out.append("\"small\""),
    }
    proof {
        assert(out@ =~= base + enc_part3(c@));
    }
}

/// Append the trailing fields and the closing brace.
#[verifier::rlimit(60)]
fn append_part4(out: &mut String, c: &Config)
    ensures
        final(out)@ == old(out)@ + enc_part4(c@),
{
    let ghost base = out@;
    out.append(",\"pie_chart_opacity\":");
    let d = digits_string(c.pie_chart_opacity as u64);
    out.append(d.as_str());
    out.append(",\"defender_exclusion\":");
    append_bool(out, c.defender_exclusion);
    out.append(",\"auto_showhide_ui\":");
    append_bool(out, c.auto_showhide_ui);
    out.append("}");
    proof {
        assert(out@ =~= base + enc_part4(c@));
    }
}

/// Render a preferences record as its canonical text.
pub fn encode_config(c: &Config) -> (out: String)
    ensures
        out@ == enc_config(c@),
{
    let mut out = String::new();
    append_part1(&mut out, c);
    append_part2(&mut out, c);
    append_part3(&mut out, c);
    append_part4(&mut out, c);
    proof {
        assert(out@ =~= enc_config(c@));
    }
out
}

// ---------------------------------------------------------------------
// Decoding inverts encoding.
// ---------------------------------------------------------------------
/// Concatenation is associative.
proof fn lemma_assoc(a: Seq<char>, b: Seq<char>, c: Seq<char>)
    ensures
        (a + b) + c == a + (b + c),
{
    assert((a + b) + c =~= a + (b + c));
}

/// Peeling one segment off the tail of the text: when the text from
/// `i` on is `a` followed by `b`, then `a` stands at `i` and `b` right
/// after it.
proof fn lemma_step(s: Seq<char>, i: int, a: Seq<char>, b: Seq<char>)
    requires
        0 <= i <= s.len(),
        s.skip(i) == a + b,
    ensures
        i + a.len() <= s.len(),
        s.subrange(i, i + a.len()) == a,
        s.skip(i + a.len()) == b,
{
    assert(s.skip(i).len() == s.len() - i);
    assert forall|k: int| 0 <= k < a.len() implies s.subrange(i, i + a.len())[k] == a[k] by {
        assert(s.skip(i)[k] == s[i + k]);
        assert((a + b)[k] == a[k]);
    }
    assert(s.subrange(i, i + a.len()) =~= a);
    assert forall|k: int| 0 <= k < b.len() implies s.skip(i + a.len())[k] == b[k] by {
        assert(s.skip(i)[a.len() + k] == s[i + a.len() + k]);
        assert((a + b)[a.len() + k] == b[k]);
        assert(s.skip(i + a.len())[k] == s[i + a.len() + k]);
    }
    assert(s.skip(i + a.len()) =~= b);
}

/// A fixed literal parses where the text carries it.
proof fn lemma_expect_of(s: Seq<char>, i: int, lit: Seq<char>, rest: Seq<char>)
    requires
        0 <= i <= s.len(),
        s.skip(i) == lit + rest,
    ensures
        expect_spec(s, i, lit) == Some(i + lit.len()),
        i + lit.len() <= s.len(),
        s.skip(i + lit.len()) == rest,
{
    lemma_step(s, i, lit, rest);
}

/// A fixed literal fails to parse where the text carries a different
/// segment, witnessed by one position where the two differ.
proof fn lemma_expect_fails(
    s: Seq<char>,
    i: int,
    actual: Seq<char>,
    rest: Seq<char>,
    other: Seq<char>,
    d: int,
)
    requires
        0 <= i <= s.len(),
        s.skip(i) == actual + rest,
        0 <= d < actual.len(),
        d < other.len(),
        actual[d] != other[d],
    ensures
        expect_spec(s, i, other) == None::<int>,
{
    if i + other.len() <= s.len() && s.subrange(i, i + other.len()) == other {
        assert(s.subrange(i, i + other.len())[d] == s[i + d]);
        assert(s.skip(i)[d] == s[i + d]);
        assert((actual + rest)[d] == actual[d]);
        assert(false);
    }
}

/// A quoted string's tail parses back to the embedded characters.
proof fn lemma_scan_string_of(s: Seq<char>, i: int, x: Seq<char>, rest: Seq<char>)
    requires
        0 <= i <= s.len(),
        text_safe(x),
        s.skip(i) == enc_str_part(x) + rest,
    ensures
        scan_string_spec(s, i) == Some((x, i + x.len() + 1)),
        i + x.len() + 1 <= s.len(),
        s.skip(i + x.len() + 1) == rest,
{
    lemma_assoc(x, seq!['"'], rest);
    lemma_step(s, i, x, seq!['"'] + rest);
    lemma_step(s, i + x.len(), seq!['"'], rest);
    let t = s.skip(i);
    assert forall|k: int| 0 <= k < x.len() implies text_safe_char(t[k]) && t[k] != '"' by {
        assert(t[k] == (x + (seq!['"'] + rest))[k]);
        assert(t[k] == x[k]);
    }
    lemma_str_scan_offset(t, x.len() as int);
    assert(t.skip(x.len() as int) =~= s.skip(i + x.len()));
    assert((seq!['"'] + rest)[0] == '"');
    assert(str_scan(s.skip(i + x.len())) == Some(0int));
    assert(str_scan(t) == Some(x.len() as int));
    assert(s.subrange(i, i + x.len()) == x);
}

/// Every character of a decimal digit string is a digit.
proof fn lemma_dec_digits_are_digits(n: nat)
    ensures
        forall|k: int| 0 <= k < dec_digits(n).len() ==> is_digit(#[trigger] dec_digits(n)[k]),
        dec_digits(n).len() >= 1,
    decreases n,
{
    if n >= 10 {
        lemma_dec_digits_are_digits(n / 10);
        assert forall|k: int|
            0 <= k < dec_digits(n).len() implies is_digit(#[trigger] dec_digits(n)[k]) by {
            if k < dec_digits(n / 10).len() {
                assert(dec_digits(n)[k] == dec_digits(n / 10)[k]);
            }
        }
    }
}

/// The value of a decimal digit string is the number it was made from.
proof fn lemma_dec_digits_val(n: nat)
    ensures
        digits_val(dec_digits(n)) == n,
    decreases n,
{
    if n < 10 {
        assert(dec_digits(n) == seq![digit_char(n as int)]);
        assert(dec_digits(n).drop_last() =~= Seq::<char>::empty());
        assert(digits_val(Seq::<char>::empty()) == 0);
        assert(dec_digits(n).last() == digit_char(n as int));
        assert(digit_val(digit_char(n as int)) == n);
    } else {
        lemma_dec_digits_val(n / 10);
        assert(dec_digits(n).drop_last() =~= dec_digits(n / 10));
        assert(dec_digits(n).last() == digit_char((n % 10) as int));
    }
}

/// A number below the `k`-th power of ten has at most `k` digits.
proof fn lemma_dec_digits_len(n: nat, k: nat)
    requires
        1 <= k,
        n < pow10(k),
    ensures
        dec_digits(n).len() <= k,
    decreases k,
{
    if n >= 10 {
        let p = pow10((k - 1) as nat);
        lemma_pow10_pos((k - 1) as nat);
        vstd::arithmetic::div_mod::lemma_div_multiples_vanish_fancy(p - 1, 9, 10);
        vstd::arithmetic::div_mod::lemma_div_is_ordered(n as int, 10 * p - 1, 10);
        assert(n / 10 < p);
        lemma_dec_digits_len(n / 10, (k - 1) as nat);
    }
}

/// A decimal digit string followed by a non-digit parses back to the
/// number it was made from.
proof fn lemma_scan_u32_of(s: Seq<char>, i: int, n: u32, rest: Seq<char>)
    requires
        0 <= i <= s.len(),
        s.skip(i) == dec_digits(n as nat) + rest,
        rest.len() > 0,
        !is_digit(rest[0]),
    ensures
        scan_u32_spec(s, i) == Some((n, i + dec_digits(n as nat).len())),
        i + dec_digits(n as nat).len() <= s.len(),
        s.skip(i + dec_digits(n as nat).len()) == rest,
{
    let d = dec_digits(n as nat);
    lemma_step(s, i, d, rest);
    let t = s.skip(i);
    lemma_dec_digits_are_digits(n as nat);
    assert forall|k: int| 0 <= k < d.len() implies is_digit(t[k]) by {
        assert(t[k] == (d + rest)[k]);
        assert(t[k] == d[k]);
    }
    lemma_digit_run_offset(t, d.len() as int);
    assert(t.skip(d.len() as int) =~= s.skip(i + d.len()));
    assert(digit_run(rest) == 0);
    assert(digit_run(t) == d.len());
    lemma_pow10_vals();
    lemma_dec_digits_len(n as nat, 10);
    lemma_dec_digits_val(n as nat);
    assert(s.subrange(i, i + d.len()) == d);
}

/// A boolean's canonical text parses back to it.
proof fn lemma_parse_bool_of(s: Seq<char>, i: int, b: bool, rest: Seq<char>)
    requires
        0 <= i <= s.len(),
        s.skip(i) == enc_bool(b) + rest,
    ensures
        parse_bool_spec(s, i) == Some((b, i + enc_bool(b).len())),
        i + enc_bool(b).len() <= s.len(),
        s.skip(i + enc_bool(b).len()) == rest,
{
    reveal_strlit("true");
    reveal_strlit("false");
    lemma_expect_of(s, i, enc_bool(b), rest);
    if !b {
        lemma_expect_fails(s, i, "false"@, rest, "true"@, 0);
    }
}

/// A theme mode's canonical text parses back to it.
proof fn lemma_parse_mode_of(s: Seq<char>, i: int, m: ThemeMode, rest: Seq<char>)
    requires
        0 <= i <= s.len(),
        s.skip(i) == enc_mode(m) + rest,
    ensures
        parse_mode_spec(s, i) == Some((m, i + enc_mode(m).len())),
        i + enc_mode(m).len() <= s.len(),
        s.skip(i + enc_mode(m).len()) == rest,
{
    reveal_strlit("\"light\"");
    reveal_strlit("\"dark\"");
    lemma_expect_of(s, i, enc_mode(m), rest);
    if m != ThemeMode::Light {
        lemma_expect_fails(s, i, "\"dark\""@, rest, "\"light\""@, 1);
    }
}

/// A text role's canonical text parses back to it.
proof fn lemma_parse_role_of(s: Seq<char>, i: int, r: TextRole, rest: Seq<char>)
    requires
        0 <= i <= s.len(),
        s.skip(i) == enc_role(r) + rest,
    ensures
        parse_role_spec(s, i) == Some((r, i + enc_role(r).len())),
        i + enc_role(r).len() <= s.len(),
        s.skip(i + enc_role(r).len()) == rest,
{
    reveal_strlit("\"heading\"");
    reveal_strlit("\"body\"");
    reveal_strlit("\"monospace\"");
    reveal_strlit("\"button\"");
    reveal_strlit("\"small\"");
    lemma_expect_of(s, i, enc_role(r), rest);
    match r {
        TextRole::Heading => {
        },
        TextRole::Body => {
            lemma_expect_fails(s, i, "\"body\""@, rest, "\"heading\""@, 1);
        },
        TextRole::Monospace => {
            lemma_expect_fails(s, i, "\"monospace\""@, rest, "\"heading\""@, 1);
            lemma_expect_fails(s, i, "\"monospace\""@, rest, "\"body\""@, 1);
        },
        TextRole::Button => {
            lemma_expect_fails(s, i, "\"button\""@, rest, "\"heading\""@, 1);
            lemma_expect_fails(s, i, "\"button\""@, rest, "\"body\""@, 2);
            lemma_expect_fails(s, i, "\"button\""@, rest, "\"monospace\""@, 1);
        },
        TextRole::Small => {
            lemma_expect_fails(s, i, "\"small\""@, rest, "\"heading\""@, 1);
            lemma_expect_fails(s, i, "\"small\""@, rest, "\"body\""@, 1);
            lemma_expect_fails(s, i, "\"small\""@, rest, "\"monospace\""@, 1);
            lemma_expect_fails(s, i, "\"small\""@, rest, "\"button\""@, 1);
        },
    }
}

/// A font family's canonical text parses back to it.
proof fn lemma_parse_family_of(s: Seq<char>, i: int, f: FontFamily, rest: Seq<char>)
    requires
        0 <= i <= s.len(),
        s.skip(i) == enc_family(f) + rest,
    ensures
        parse_family_spec(s, i) == Some((f, i + enc_family(f).len())),
        i + enc_family(f).len() <= s.len(),
        s.skip(i + enc_family(f).len()) == rest,
{
    reveal_strlit("\"proportional\"");
    reveal_strlit("\"monospace\"");
    lemma_expect_of(s, i, enc_family(f), rest);
    if f != FontFamily::Proportional {
        lemma_expect_fails(s, i, "\"monospace\""@, rest, "\"proportional\""@, 1);
    }
}

/// A font descriptor's canonical text parses back to it.
proof fn lemma_parse_font_of(s: Seq<char>, i: int, f: FontSpec, rest: Seq<char>)
    requires
        0 <= i <= s.len(),
        s.skip(i) == enc_font(f) + rest,
    ensures
        parse_font_spec(s, i) == Some((f, i + enc_font(f).len())),
        i + enc_font(f).len() <= s.len(),
        s.skip(i + enc_font(f).len()) == rest,
{
    reveal(enc_font);
    reveal_strlit("{\"size_tenths\":");
    reveal_strlit(",\"family\":");
    reveal_strlit("}");
    let l1 = "{\"size_tenths\":"@;
    let dg = dec_digits(f.size_tenths as nat);
    let l2 = ",\"family\":"@;
    let fam = enc_family(f.family);
    let rb = "}"@;
    lemma_assoc(l1, dg + (l2 + (fam + rb)), rest);
    lemma_expect_of(s, i, l1, (dg + (l2 + (fam + rb))) + rest);
    let i1 = i + l1.len();
    lemma_assoc(dg, l2 + (fam + rb), rest);
    assert((l2 + (fam + rb)) + rest == l2 + ((fam + rb) + rest)) by {
        lemma_assoc(l2, fam + rb, rest);
    }
    assert(((l2 + ((fam + rb) + rest)))[0] == ',');
    lemma_scan_u32_of(s, i1, f.size_tenths, l2 + ((fam + rb) + rest));
    let i2 = i1 + dg.len();
    lemma_expect_of(s, i2, l2, (fam + rb) + rest);
    let i3 = i2 + l2.len();
    lemma_assoc(fam, rb, rest);
    lemma_parse_family_of(s, i3, f.family, rb + rest);
    let i4 = i3 + fam.len();
    lemma_expect_of(s, i4, rb, rest);
    assert(enc_font(f).len() == l1.len() + dg.len() + l2.len() + fam.len() + rb.len());
}

/// The font table's canonical text parses back to it.
proof fn lemma_parse_fonts_of(s: Seq<char>, i: int, f: FontSizes, rest: Seq<char>)
    requires
        0 <= i <= s.len(),
        s.skip(i) == enc_fonts(f) + rest,
    ensures
        parse_fonts_spec(s, i) == Some((f, i + enc_fonts(f).len())),
        i + enc_fonts(f).len() <= s.len(),
        s.skip(i + enc_fonts(f).len()) == rest,
{
    reveal_strlit("{\"heading\":");
    reveal_strlit(",\"body\":");
    reveal_strlit(",\"monospace\":");
    reveal_strlit(",\"button\":");
    reveal_strlit(",\"small\":");
    reveal_strlit("}");
    let l1 = "{\"heading\":"@;
    let f1 = enc_font(f.heading);
    let l2 = ",\"body\":"@;
    let f2 = enc_font(f.body);
    let l3 = ",\"monospace\":"@;
    let f3 = enc_font(f.monospace);
    let l4 = ",\"button\":"@;
    let f4 = enc_font(f.button);
    let l5 = ",\"small\":"@;
    let f5 = enc_font(f.small);
    let rb = "}"@;
    let t10 = rb + rest;
    let t9 = f5 + t10;
    let t8 = l5 + t9;
    let t7 = f4 + t8;
    let t6 = l4 + t7;
    let t5 = f3 + t6;
    let t4 = l3 + t5;
    let t3 = f2 + t4;
    let t2 = l2 + t3;
    let t1 = f1 + t2;
    assert(s.skip(i) == l1 + t1) by {
        lemma_assoc(f5, rb, rest);
        lemma_assoc(l5, f5 + (rb + rest), rest);
        assert(enc_fonts(f) + rest == l1 + t1) by {
            lemma_assoc(l1, f1 + (l2 + (f2 + (l3 + (f3 + (l4 + (f4 + (l5 + (f5 + rb)))))))), rest);
            lemma_assoc(f1, l2 + (f2 + (l3 + (f3 + (l4 + (f4 + (l5 + (f5 + rb))))))), rest);
            lemma_assoc(l2, f2 + (l3 + (f3 + (l4 + (f4 + (l5 + (f5 + rb)))))), rest);
            lemma_assoc(f2, l3 + (f3 + (l4 + (f4 + (l5 + (f5 + rb))))), rest);
            lemma_assoc(l3, f3 + (l4 + (f4 + (l5 + (f5 + rb)))), rest);
            lemma_assoc(f3, l4 + (f4 + (l5 + (f5 + rb))), rest);
            lemma_assoc(l4, f4 + (l5 + (f5 + rb)), rest);
            lemma_assoc(f4, l5 + (f5 + rb), rest);
            lemma_assoc(l5, f5 + rb, rest);
            lemma_assoc(f5, rb, rest);
        }
    }
    lemma_expect_of(s, i, l1, t1);
    let i1 = i + l1.len();
    lemma_parse_font_of(s, i1, f.heading, t2);
    let i2 = i1 + f1.len();
    lemma_expect_of(s, i2, l2, t3);
    let i3 = i2 + l2.len();
    lemma_parse_font_of(s, i3, f.body, t4);
    let i4 = i3 + f2.len();
    lemma_expect_of(s, i4, l3, t5);
    let i5 = i4 + l3.len();
    lemma_parse_font_of(s, i5, f.monospace, t6);
    let i6 = i5 + f3.len();
    lemma_expect_of(s, i6, l4, t7);
    let i7 = i6 + l4.len();
    lemma_parse_font_of(s, i7, f.button, t8);
    let i8 = i7 + f4.len();
    lemma_expect_of(s, i8, l5, t9);
    let i9 = i8 + l5.len();
    lemma_parse_font_of(s, i9, f.small, t10);
    let i10 = i9 + f5.len();
    lemma_expect_of(s, i10, rb, rest);
    assert(enc_fonts(f).len() == l1.len() + f1.len() + l2.len() + f2.len() + l3.len() + f3.len()
        + l4.len() + f4.len() + l5.len() + f5.len() + rb.len());
}

/// The canonical field keys may stand verbatim in quoted strings.
proof fn lemma_keys_text_safe()
    ensures
        text_safe("version"@),
        text_safe("locale"@),
        text_safe("widget_opacity"@),
        text_safe("streamer_mode"@),
        text_safe("streamer_msg"@),
        text_safe("font_sizes"@),
        text_safe("theme"@),
        text_safe("theme_mode"@),
        text_safe("legend_text_style"@),
        text_safe("pie_chart_opacity"@),
        text_safe("defender_exclusion"@),
        text_safe("auto_showhide_ui"@),
{
    reveal_strlit("version");
    reveal_strlit("locale");
    reveal_strlit("widget_opacity");
    reveal_strlit("streamer_mode");
    reveal_strlit("streamer_msg");
    reveal_strlit("font_sizes");
    reveal_strlit("theme");
    reveal_strlit("theme_mode");
    reveal_strlit("legend_text_style");
    reveal_strlit("pie_chart_opacity");
    reveal_strlit("defender_exclusion");
    reveal_strlit("auto_showhide_ui");
    assert forall|k: int| 0 <= k < "version"@.len() implies text_safe_char("version"@[k]) by {}
    assert forall|k: int| 0 <= k < "locale"@.len() implies text_safe_char("locale"@[k]) by {}
    assert forall|k: int|
        0 <= k < "widget_opacity"@.len() implies text_safe_char("widget_opacity"@[k]) by {}
    assert forall|k: int|
        0 <= k < "streamer_mode"@.len() implies text_safe_char("streamer_mode"@[k]) by {}
    assert forall|k: int|
        0 <= k < "streamer_msg"@.len() implies text_safe_char("streamer_msg"@[k]) by {}
    assert forall|k: int| 0 <= k < "font_sizes"@.len() implies text_safe_char("font_sizes"@[k]) by {}
    assert forall|k: int| 0 <= k < "theme"@.len() implies text_safe_char("theme"@[k]) by {}
    assert forall|k: int| 0 <= k < "theme_mode"@.len() implies text_safe_char("theme_mode"@[k]) by {}
    assert forall|k: int|
        0 <= k < "legend_text_style"@.len() implies text_safe_char("legend_text_style"@[k]) by {}
    assert forall|k: int|
        0 <= k < "pie_chart_opacity"@.len() implies text_safe_char("pie_chart_opacity"@[k]) by {}
    assert forall|k: int|
        0 <= k < "defender_exclusion"@.len() implies text_safe_char("defender_exclusion"@[k]) by {}
    assert forall|k: int|
        0 <= k < "auto_showhide_ui"@.len() implies text_safe_char("auto_showhide_ui"@[k]) by {}
}

/// A canonical `"key":` prefix parses back to the key.
proof fn lemma_field_key_of(s: Seq<char>, i: int, key: Seq<char>, rest: Seq<char>)
    requires
        0 <= i <= s.len(),
        text_safe(key),
        s.skip(i) == "\""@ + (enc_str_part(key) + (":"@ + rest)),
    ensures
        expect_spec(s, i, "\""@) == Some(i + 1),
        scan_string_spec(s, i + 1) == Some((key, i + key.len() + 2)),
        expect_spec(s, i + key.len() + 2, ":"@) == Some(i + key.len() + 3),
        s.skip(i + key.len() + 3) == rest,
        i + key.len() + 3 <= s.len(),
{
    reveal_strlit("\"");
    reveal_strlit(":");
    lemma_expect_of(s, i, "\""@, enc_str_part(key) + (":"@ + rest));
    lemma_scan_string_of(s, i + 1, key, ":"@ + rest);
    lemma_expect_of(s, i + key.len() + 2, ":"@, rest);
}

/// The trailing canonical fields — pie opacity, defender exclusion,
/// auto show/hide — and the closing brace parse back onto the gathered
/// front, filling the record completely.
#[verifier::rlimit(100)]
proof fn lemma_rt_last(s: Seq<char>, j: int, c: ConfigV, p: PartialV)
    requires
        0 <= j <= s.len(),
        s.skip(j) == enc_part4(c),
        c.wf(),
        p.version == Some(c.version),
        p.locale == Some(c.locale),
        p.widget_opacity == Some(c.widget_opacity),
        p.streamer_mode == Some(c.streamer_mode),
        p.streamer_msg == Some(c.streamer_msg),
        p.font_sizes == Some(c.font_sizes),
        p.theme == Some(c.theme),
        p.theme_mode == Some(c.theme_mode),
        p.legend_text_style == Some(c.legend_text_style),
        p.pie_chart_opacity is None,
        p.defender_exclusion is None,
        p.auto_showhide_ui is None,
    ensures
        expect_spec(s, j, "}"@) == None::<int>,
        expect_spec(s, j, ","@) == Some(j + 1),
        dec_fields(s, j + 1, p) == Some(c),
{
    lemma_keys_text_safe();
    reveal_strlit(",\"pie_chart_opacity\":");
    reveal_strlit(",\"defender_exclusion\":");
    reveal_strlit(",\"auto_showhide_ui\":");
    reveal_strlit("pie_chart_opacity");
    reveal_strlit("defender_exclusion");
    reveal_strlit("auto_showhide_ui");
    reveal_strlit("version");
    reveal_strlit("locale");
    reveal_strlit("widget_opacity");
    reveal_strlit("streamer_mode");
    reveal_strlit("streamer_msg");
    reveal_strlit("font_sizes");
    reveal_strlit("theme");
    reveal_strlit("theme_mode");
    reveal_strlit("legend_text_style");
    reveal_strlit("}");
    reveal_strlit(",");
    reveal_strlit("\"");
    reveal_strlit(":");
    let l10 = ",\"pie_chart_opacity\":"@;
    let l11 = ",\"defender_exclusion\":"@;
    let l12 = ",\"auto_showhide_ui\":"@;
    let rb = "}"@;
    let dp = dec_digits(c.pie_chart_opacity as nat);
    let bde = enc_bool(c.defender_exclusion);
    let bau = enc_bool(c.auto_showhide_ui);
    let e = Seq::<char>::empty();
    assert(l10 =~= ","@ + ("\""@ + (enc_str_part("pie_chart_opacity"@) + ":"@)));
    assert(l11 =~= ","@ + ("\""@ + (enc_str_part("defender_exclusion"@) + ":"@)));
    assert(l12 =~= ","@ + ("\""@ + (enc_str_part("auto_showhide_ui"@) + ":"@)));
    // Pie-chart opacity.
    let t10 = dp + (l11 + (bde + (l12 + (bau + rb))));
    assert(s.skip(j) == l10 + t10);
    lemma_expect_fails(s, j, l10, t10, "}"@, 0);
    lemma_assoc(","@, "\""@ + (enc_str_part("pie_chart_opacity"@) + ":"@), t10);
    lemma_expect_of(s, j, ","@, ("\""@ + (enc_str_part("pie_chart_opacity"@) + ":"@)) + t10);
    let a10 = j + 1;
    lemma_assoc("\""@, enc_str_part("pie_chart_opacity"@) + ":"@, t10);
    lemma_assoc(enc_str_part("pie_chart_opacity"@), ":"@, t10);
    lemma_field_key_of(s, a10, "pie_chart_opacity"@, t10);
    let v10 = a10 + "pie_chart_opacity"@.len() + 3;
    assert((l11 + (bde + (l12 + (bau + rb))))[0] == ',');
    lemma_scan_u32_of(s, v10, c.pie_chart_opacity, l11 + (bde + (l12 + (bau + rb))));
    let b10 = v10 + dp.len();
    let p10 = PartialV { pie_chart_opacity: Some(c.pie_chart_opacity), ..p };
    assert(parse_field_spec(s, a10, p) == Some((p10, b10)));
    // Defender exclusion.
    let t11 = bde + (l12 + (bau + rb));
    lemma_expect_fails(s, b10, l11, t11, "}"@, 0);
    lemma_assoc(","@, "\""@ + (enc_str_part("defender_exclusion"@) + ":"@), t11);
    lemma_expect_of(s, b10, ","@, ("\""@ + (enc_str_part("defender_exclusion"@) + ":"@)) + t11);
    let a11 = b10 + 1;
    lemma_assoc("\""@, enc_str_part("defender_exclusion"@) + ":"@, t11);
    lemma_assoc(enc_str_part("defender_exclusion"@), ":"@, t11);
    lemma_field_key_of(s, a11, "defender_exclusion"@, t11);
    let v11 = a11 + "defender_exclusion"@.len() + 3;
    lemma_parse_bool_of(s, v11, c.defender_exclusion, l12 + (bau + rb));
    let b11 = v11 + bde.len();
    let p11 = PartialV { defender_exclusion: Some(c.defender_exclusion), ..p10 };
    assert(parse_field_spec(s, a11, p10) == Some((p11, b11)));
    assert(dec_fields(s, a10, p) == dec_fields(s, a11, p10));
    // Auto show/hide.
    let t12 = bau + rb;
    lemma_expect_fails(s, b11, l12, t12, "}"@, 0);
    lemma_assoc(","@, "\""@ + (enc_str_part("auto_showhide_ui"@) + ":"@), t12);
    lemma_expect_of(s, b11, ","@, ("\""@ + (enc_str_part("auto_showhide_ui"@) + ":"@)) + t12);
    let a12 = b11 + 1;
    lemma_assoc("\""@, enc_str_part("auto_showhide_ui"@) + ":"@, t12);
    lemma_assoc(enc_str_part("auto_showhide_ui"@), ":"@, t12);
    lemma_field_key_of(s, a12, "auto_showhide_ui"@, t12);
    let v12 = a12 + "auto_showhide_ui"@.len() + 3;
    lemma_parse_bool_of(s, v12, c.auto_showhide_ui, rb);
    let b12 = v12 + bau.len();
    let p12 = PartialV { auto_showhide_ui: Some(c.auto_showhide_ui), ..p11 };
    assert(parse_field_spec(s, a12, p11) == Some((p12, b12)));
    assert(dec_fields(s, a11, p10) == dec_fields(s, a12, p11));
    // Closing brace at the very end.
    assert(rb =~= rb + e);
    lemma_expect_of(s, b12, "}"@, e);
    assert(s.skip(b12 + 1).len() == 0);
    assert(b12 + 1 == s.len());
    assert(finalize_spec(p12) == Some(c));
    assert(dec_fields(s, a12, p11) == finalize_spec(p12));
}

/// The theme, theme-mode and legend-style fields parse back onto the
/// gathered front, and the trailing fields after them.
#[verifier::rlimit(100)]
proof fn lemma_rt_tail(s: Seq<char>, j: int, c: ConfigV, p: PartialV)
    requires
        0 <= j <= s.len(),
        s.skip(j) == enc_part3(c) + enc_part4(c),
        c.wf(),
        p.version == Some(c.version),
        p.locale == Some(c.locale),
        p.widget_opacity == Some(c.widget_opacity),
        p.streamer_mode == Some(c.streamer_mode),
        p.streamer_msg == Some(c.streamer_msg),
        p.font_sizes == Some(c.font_sizes),
        p.theme is None,
        p.theme_mode is None,
        p.legend_text_style is None,
        p.pie_chart_opacity is None,
        p.defender_exclusion is None,
        p.auto_showhide_ui is None,
    ensures
        expect_spec(s, j, "}"@) == None::<int>,
        expect_spec(s, j, ","@) == Some(j + 1),
        dec_fields(s, j + 1, p) == Some(c),
{
    lemma_keys_text_safe();
    reveal_strlit(",\"theme\":");
    reveal_strlit(",\"theme_mode\":");
    reveal_strlit(",\"legend_text_style\":");
    reveal_strlit(",\"pie_chart_opacity\":");
    reveal_strlit("theme");
    reveal_strlit("theme_mode");
    reveal_strlit("legend_text_style");
    reveal_strlit("version");
    reveal_strlit("locale");
    reveal_strlit("widget_opacity");
    reveal_strlit("streamer_mode");
    reveal_strlit("streamer_msg");
    reveal_strlit("font_sizes");
    reveal_strlit("pie_chart_opacity");
    reveal_strlit("defender_exclusion");
    reveal_strlit("auto_showhide_ui");
    reveal_strlit("}");
    reveal_strlit(",");
    reveal_strlit("\"");
    reveal_strlit(":");
    let l7 = ",\"theme\":"@;
    let l8 = ",\"theme_mode\":"@;
    let l9 = ",\"legend_text_style\":"@;
    let dt = dec_digits(c.theme as nat);
    let mo = enc_mode(c.theme_mode);
    let ro = enc_role(c.legend_text_style);
    let r3 = enc_part4(c);
    assert(s.skip(j) == l7 + (dt + (l8 + (mo + (l9 + (ro + r3)))))) by {
        lemma_assoc(l7, dt + (l8 + (mo + (l9 + ro))), r3);
        lemma_assoc(dt, l8 + (mo + (l9 + ro)), r3);
        lemma_assoc(l8, mo + (l9 + ro), r3);
        lemma_assoc(mo, l9 + ro, r3);
        lemma_assoc(l9, ro, r3);
    }
    assert(l7 =~= ","@ + ("\""@ + (enc_str_part("theme"@) + ":"@)));
    assert(l8 =~= ","@ + ("\""@ + (enc_str_part("theme_mode"@) + ":"@)));
    assert(l9 =~= ","@ + ("\""@ + (enc_str_part("legend_text_style"@) + ":"@)));
    // Theme.
    let t7 = dt + (l8 + (mo + (l9 + (ro + r3))));
    lemma_expect_fails(s, j, l7, t7, "}"@, 0);
    lemma_assoc(","@, "\""@ + (enc_str_part("theme"@) + ":"@), t7);
    lemma_expect_of(s, j, ","@, ("\""@ + (enc_str_part("theme"@) + ":"@)) + t7);
    let a7 = j + 1;
    lemma_assoc("\""@, enc_str_part("theme"@) + ":"@, t7);
    lemma_assoc(enc_str_part("theme"@), ":"@, t7);
    lemma_field_key_of(s, a7, "theme"@, t7);
    let v7 = a7 + "theme"@.len() + 3;
    assert((l8 + (mo + (l9 + (ro + r3))))[0] == ',');
    lemma_scan_u32_of(s, v7, c.theme, l8 + (mo + (l9 + (ro + r3))));
    let b7 = v7 + dt.len();
    let p7 = PartialV { theme: Some(c.theme), ..p };
    assert(parse_field_spec(s, a7, p) == Some((p7, b7)));
    // Theme mode.
    let t8 = mo + (l9 + (ro + r3));
    lemma_expect_fails(s, b7, l8, t8, "}"@, 0);
    lemma_assoc(","@, "\""@ + (enc_str_part("theme_mode"@) + ":"@), t8);
    lemma_expect_of(s, b7, ","@, ("\""@ + (enc_str_part("theme_mode"@) + ":"@)) + t8);
    let a8 = b7 + 1;
    lemma_assoc("\""@, enc_str_part("theme_mode"@) + ":"@, t8);
    lemma_assoc(enc_str_part("theme_mode"@), ":"@, t8);
    lemma_field_key_of(s, a8, "theme_mode"@, t8);
    let v8 = a8 + "theme_mode"@.len() + 3;
    lemma_parse_mode_of(s, v8, c.theme_mode, l9 + (ro + r3));
    let b8 = v8 + mo.len();
    let p8 = PartialV { theme_mode: Some(c.theme_mode), ..p7 };
    assert(parse_field_spec(s, a8, p7) == Some((p8, b8)));
    assert(dec_fields(s, a7, p) == dec_fields(s, a8, p7));
    // Legend text style.
    let t9 = ro + r3;
    lemma_expect_fails(s, b8, l9, t9, "}"@, 0);
    lemma_assoc(","@, "\""@ + (enc_str_part("legend_text_style"@) + ":"@), t9);
    lemma_expect_of(s, b8, ","@, ("\""@ + (enc_str_part("legend_text_style"@) + ":"@)) + t9);
    let a9 = b8 + 1;
    lemma_assoc("\""@, enc_str_part("legend_text_style"@) + ":"@, t9);
    lemma_assoc(enc_str_part("legend_text_style"@), ":"@, t9);
    lemma_field_key_of(s, a9, "legend_text_style"@, t9);
    let v9 = a9 + "legend_text_style"@.len() + 3;
    lemma_parse_role_of(s, v9, c.legend_text_style, r3);
    let b9 = v9 + ro.len();
    let p9 = PartialV { legend_text_style: Some(c.legend_text_style), ..p8 };
    assert(parse_field_spec(s, a9, p8) == Some((p9, b9)));
    assert(dec_fields(s, a8, p7) == dec_fields(s, a9, p8));
    // The trailing fields close the record.
    lemma_rt_last(s, b9, c, p9);
    assert(dec_fields(s, a9, p8) == dec_fields(s, b9 + 1, p9));
}

/// The streamer-message and font fields parse back onto the gathered
/// front, and the theme fields after them.
#[verifier::rlimit(100)]
proof fn lemma_rt_mid2(s: Seq<char>, j: int, c: ConfigV, p: PartialV)
    requires
        0 <= j <= s.len(),
        s.skip(j) == ",\"streamer_msg\":\""@ + (enc_str_part(c.streamer_msg) + (",\"font_sizes\":"@
            + (enc_fonts(c.font_sizes) + (enc_part3(c) + enc_part4(c))))),
        c.wf(),
        p.version == Some(c.version),
        p.locale == Some(c.locale),
        p.widget_opacity == Some(c.widget_opacity),
        p.streamer_mode == Some(c.streamer_mode),
        p.streamer_msg is None,
        p.font_sizes is None,
        p.theme is None,
        p.theme_mode is None,
        p.legend_text_style is None,
        p.pie_chart_opacity is None,
        p.defender_exclusion is None,
        p.auto_showhide_ui is None,
    ensures
        expect_spec(s, j, "}"@) == None::<int>,
        expect_spec(s, j, ","@) == Some(j + 1),
        dec_fields(s, j + 1, p) == Some(c),
{
    lemma_keys_text_safe();
    reveal_strlit(",\"streamer_msg\":\"");
    reveal_strlit(",\"font_sizes\":");
    reveal_strlit("streamer_msg");
    reveal_strlit("font_sizes");
    reveal_strlit("version");
    reveal_strlit("locale");
    reveal_strlit("widget_opacity");
    reveal_strlit("streamer_mode");
    reveal_strlit("theme");
    reveal_strlit("theme_mode");
    reveal_strlit("legend_text_style");
    reveal_strlit("pie_chart_opacity");
    reveal_strlit("defender_exclusion");
    reveal_strlit("auto_showhide_ui");
    reveal_strlit("}");
    reveal_strlit(",");
    reveal_strlit("\"");
    reveal_strlit(":");
    let l5 = ",\"streamer_msg\":\""@;
    let l6 = ",\"font_sizes\":"@;
    let spm = enc_str_part(c.streamer_msg);
    let fo = enc_fonts(c.font_sizes);
    let r2 = enc_part3(c) + enc_part4(c);
    assert(l5 =~= ","@ + ("\""@ + (enc_str_part("streamer_msg"@) + (":"@ + "\""@))));
    assert(l6 =~= ","@ + ("\""@ + (enc_str_part("font_sizes"@) + ":"@)));
    // Streamer message: a quoted value.
    let t5 = spm + (l6 + (fo + r2));
    lemma_expect_fails(s, j, l5, t5, "}"@, 0);
    lemma_assoc(","@, "\""@ + (enc_str_part("streamer_msg"@) + (":"@ + "\""@)), t5);
    lemma_expect_of(s, j, ","@, ("\""@ + (enc_str_part("streamer_msg"@) + (":"@ + "\""@))) + t5);
    let a5 = j + 1;
    lemma_assoc("\""@, enc_str_part("streamer_msg"@) + (":"@ + "\""@), t5);
    lemma_assoc(enc_str_part("streamer_msg"@), ":"@ + "\""@, t5);
    lemma_assoc(":"@, "\""@, t5);
    lemma_field_key_of(s, a5, "streamer_msg"@, "\""@ + t5);
    let v5 = a5 + "streamer_msg"@.len() + 3;
    lemma_expect_of(s, v5, "\""@, t5);
    lemma_scan_string_of(s, v5 + 1, c.streamer_msg, l6 + (fo + r2));
    let b5 = v5 + c.streamer_msg.len() + 2;
    assert(parse_quoted_spec(s, v5) == Some((c.streamer_msg, b5)));
    let p5 = PartialV { streamer_msg: Some(c.streamer_msg), ..p };
    assert(parse_field_spec(s, a5, p) == Some((p5, b5)));
    // Font table.
    let t6 = fo + r2;
    lemma_expect_fails(s, b5, l6, t6, "}"@, 0);
    lemma_assoc(","@, "\""@ + (enc_str_part("font_sizes"@) + ":"@), t6);
    lemma_expect_of(s, b5, ","@, ("\""@ + (enc_str_part("font_sizes"@) + ":"@)) + t6);
    let a6 = b5 + 1;
    lemma_assoc("\""@, enc_str_part("font_sizes"@) + ":"@, t6);
    lemma_assoc(enc_str_part("font_sizes"@), ":"@, t6);
    lemma_field_key_of(s, a6, "font_sizes"@, t6);
    let v6 = a6 + "font_sizes"@.len() + 3;
    lemma_parse_fonts_of(s, v6, c.font_sizes, r2);
    let b6 = v6 + fo.len();
    let p6 = PartialV { font_sizes: Some(c.font_sizes), ..p5 };
    assert(parse_field_spec(s, a6, p5) == Some((p6, b6)));
    assert(dec_fields(s, a5, p) == dec_fields(s, a6, p5));
    // The theme fields follow.
    lemma_rt_tail(s, b6, c, p6);
    assert(dec_fields(s, a6, p5) == dec_fields(s, b6 + 1, p6));
}

/// The streamer-mode field parses back onto the gathered front, and
/// the streamer-message, font and theme fields after it.
#[verifier::rlimit(100)]
proof fn lemma_rt_mid(s: Seq<char>, j: int, c: ConfigV, p: PartialV)
    requires
        0 <= j <= s.len(),
        s.skip(j) == enc_part2(c) + (enc_part3(c) + enc_part4(c)),
        c.wf(),
        p.version == Some(c.version),
        p.locale == Some(c.locale),
        p.widget_opacity == Some(c.widget_opacity),
        p.streamer_mode is None,
        p.streamer_msg is None,
        p.font_sizes is None,
        p.theme is None,
        p.theme_mode is None,
        p.legend_text_style is None,
        p.pie_chart_opacity is None,
        p.defender_exclusion is None,
        p.auto_showhide_ui is None,
    ensures
        expect_spec(s, j, "}"@) == None::<int>,
        expect_spec(s, j, ","@) == Some(j + 1),
        dec_fields(s, j + 1, p) == Some(c),
{
    lemma_keys_text_safe();
    reveal_strlit(",\"streamer_mode\":");
    reveal_strlit(",\"streamer_msg\":\"");
    reveal_strlit("streamer_mode");
    reveal_strlit("version");
    reveal_strlit("locale");
    reveal_strlit("widget_opacity");
    reveal_strlit("streamer_msg");
    reveal_strlit("font_sizes");
    reveal_strlit("theme");
    reveal_strlit("theme_mode");
    reveal_strlit("legend_text_style");
    reveal_strlit("pie_chart_opacity");
    reveal_strlit("defender_exclusion");
    reveal_strlit("auto_showhide_ui");
    reveal_strlit("}");
    reveal_strlit(",");
    reveal_strlit("\"");
    reveal_strlit(":");
    let l4 = ",\"streamer_mode\":"@;
    let l5 = ",\"streamer_msg\":\""@;
    let l6 = ",\"font_sizes\":"@;
    let bsm = enc_bool(c.streamer_mode);
    let spm = enc_str_part(c.streamer_msg);
    let fo = enc_fonts(c.font_sizes);
    let r2 = enc_part3(c) + enc_part4(c);
    assert(s.skip(j) == l4 + (bsm + (l5 + (spm + (l6 + (fo + r2)))))) by {
        lemma_assoc(l4, bsm + (l5 + (spm + (l6 + fo))), r2);
        lemma_assoc(bsm, l5 + (spm + (l6 + fo)), r2);
        lemma_assoc(l5, spm + (l6 + fo), r2);
        lemma_assoc(spm, l6 + fo, r2);
        lemma_assoc(l6, fo, r2);
    }
    assert(l4 =~= ","@ + ("\""@ + (enc_str_part("streamer_mode"@) + ":"@)));
    // Streamer mode.
    let t4 = bsm + (l5 + (spm + (l6 + (fo + r2))));
    lemma_expect_fails(s, j, l4, t4, "}"@, 0);
    lemma_assoc(","@, "\""@ + (enc_str_part("streamer_mode"@) + ":"@), t4);
    lemma_expect_of(s, j, ","@, ("\""@ + (enc_str_part("streamer_mode"@) + ":"@)) + t4);
    let a4 = j + 1;
    lemma_assoc("\""@, enc_str_part("streamer_mode"@) + ":"@, t4);
    lemma_assoc(enc_str_part("streamer_mode"@), ":"@, t4);
    lemma_field_key_of(s, a4, "streamer_mode"@, t4);
    let v4 = a4 + "streamer_mode"@.len() + 3;
    lemma_parse_bool_of(s, v4, c.streamer_mode, l5 + (spm + (l6 + (fo + r2))));
    let b4 = v4 + bsm.len();
    let p4 = PartialV { streamer_mode: Some(c.streamer_mode), ..p };
    assert(parse_field_spec(s, a4, p) == Some((p4, b4)));
    // The streamer message and later fields follow.
    lemma_rt_mid2(s, b4, c, p4);
    assert(dec_fields(s, a4, p) == dec_fields(s, b4 + 1, p4));
}

/// The locale and widget-opacity fields parse back onto the gathered
/// version field, and everything after them.
#[verifier::rlimit(100)]
proof fn lemma_rt_front2(s: Seq<char>, j: int, c: ConfigV, p: PartialV)
    requires
        0 <= j <= s.len(),
        s.skip(j) == ",\"locale\":\""@ + (enc_str_part(c.locale) + (",\"widget_opacity\":"@
            + (dec_digits(c.widget_opacity as nat) + (enc_part2(c) + (enc_part3(c) + enc_part4(
            c,
        )))))),
        c.wf(),
        p.version == Some(c.version),
        p.locale is None,
        p.widget_opacity is None,
        p.streamer_mode is None,
        p.streamer_msg is None,
        p.font_sizes is None,
        p.theme is None,
        p.theme_mode is None,
        p.legend_text_style is None,
        p.pie_chart_opacity is None,
        p.defender_exclusion is None,
        p.auto_showhide_ui is None,
    ensures
        expect_spec(s, j, "}"@) == None::<int>,
        expect_spec(s, j, ","@) == Some(j + 1),
        dec_fields(s, j + 1, p) == Some(c),
{
    lemma_keys_text_safe();
    reveal_strlit(",\"locale\":\"");
    reveal_strlit(",\"widget_opacity\":");
    reveal_strlit(",\"streamer_mode\":");
    reveal_strlit("version");
    reveal_strlit("locale");
    reveal_strlit("widget_opacity");
    reveal_strlit("streamer_mode");
    reveal_strlit("streamer_msg");
    reveal_strlit("font_sizes");
    reveal_strlit("theme");
    reveal_strlit("theme_mode");
    reveal_strlit("legend_text_style");
    reveal_strlit("pie_chart_opacity");
    reveal_strlit("defender_exclusion");
    reveal_strlit("auto_showhide_ui");
    reveal_strlit("}");
    reveal_strlit(",");
    reveal_strlit("\"");
    reveal_strlit(":");
    let l2 = ",\"locale\":\""@;
    let l3 = ",\"widget_opacity\":"@;
    let l4 = ",\"streamer_mode\":"@;
    let spl = enc_str_part(c.locale);
    let dw = dec_digits(c.widget_opacity as nat);
    let r1 = enc_part2(c) + (enc_part3(c) + enc_part4(c));
    assert(l2 =~= ","@ + ("\""@ + (enc_str_part("locale"@) + (":"@ + "\""@))));
    assert(l3 =~= ","@ + ("\""@ + (enc_str_part("widget_opacity"@) + ":"@)));
    // Locale: a quoted value.
    let t2 = spl + (l3 + (dw + r1));
    lemma_expect_fails(s, j, l2, t2, "}"@, 0);
    lemma_assoc(","@, "\""@ + (enc_str_part("locale"@) + (":"@ + "\""@)), t2);
    lemma_expect_of(s, j, ","@, ("\""@ + (enc_str_part("locale"@) + (":"@ + "\""@))) + t2);
    let a2 = j + 1;
    lemma_assoc("\""@, enc_str_part("locale"@) + (":"@ + "\""@), t2);
    lemma_assoc(enc_str_part("locale"@), ":"@ + "\""@, t2);
    lemma_assoc(":"@, "\""@, t2);
    lemma_field_key_of(s, a2, "locale"@, "\""@ + t2);
    let v2 = a2 + "locale"@.len() + 3;
    lemma_expect_of(s, v2, "\""@, t2);
    lemma_scan_string_of(s, v2 + 1, c.locale, l3 + (dw + r1));
    let b2 = v2 + c.locale.len() + 2;
    assert(parse_quoted_spec(s, v2) == Some((c.locale, b2)));
    let p2 = PartialV { locale: Some(c.locale), ..p };
    assert(parse_field_spec(s, a2, p) == Some((p2, b2)));
    // Widget opacity.
    let t3 = dw + r1;
    lemma_expect_fails(s, b2, l3, t3, "}"@, 0);
    lemma_assoc(","@, "\""@ + (enc_str_part("widget_opacity"@) + ":"@), t3);
    lemma_expect_of(s, b2, ","@, ("\""@ + (enc_str_part("widget_opacity"@) + ":"@)) + t3);
    let a3 = b2 + 1;
    lemma_assoc("\""@, enc_str_part("widget_opacity"@) + ":"@, t3);
    lemma_assoc(enc_str_part("widget_opacity"@), ":"@, t3);
    lemma_field_key_of(s, a3, "widget_opacity"@, t3);
    let v3 = a3 + "widget_opacity"@.len() + 3;
    assert(r1[0] == ',') by {
        assert(enc_part2(c)[0] == l4[0]);
    }
    lemma_scan_u32_of(s, v3, c.widget_opacity, r1);
    let b3 = v3 + dw.len();
    let p3 = PartialV { widget_opacity: Some(c.widget_opacity), ..p2 };
    assert(parse_field_spec(s, a3, p2) == Some((p3, b3)));
    assert(dec_fields(s, a2, p) == dec_fields(s, a3, p2));
    // The streamer and later fields follow.
    lemma_rt_mid(s, b3, c, p3);
    assert(dec_fields(s, a3, p2) == dec_fields(s, b3 + 1, p3));
}

/// Law: decoding inverts encoding. Writing a well-formed preferences
/// record in its canonical text form and parsing that text back yields
/// the identical record — the persistence round trip loses nothing.
#[verifier::rlimit(100)]
pub proof fn lemma_config_round_trip(c: ConfigV)
    requires
        c.wf(),
    ensures
        dec_spec(enc_config(c)) == Some(c),
{
    lemma_keys_text_safe();
    reveal_strlit("{\"version\":\"");
    reveal_strlit(",\"locale\":\"");
    reveal_strlit("version");
    reveal_strlit("locale");
    reveal_strlit("widget_opacity");
    reveal_strlit("streamer_mode");
    reveal_strlit("streamer_msg");
    reveal_strlit("font_sizes");
    reveal_strlit("theme");
    reveal_strlit("theme_mode");
    reveal_strlit("legend_text_style");
    reveal_strlit("pie_chart_opacity");
    reveal_strlit("defender_exclusion");
    reveal_strlit("auto_showhide_ui");
    reveal_strlit("{");
    reveal_strlit("}");
    reveal_strlit(",");
    reveal_strlit("\"");
    reveal_strlit(":");
    let s = enc_config(c);
    let l1 = "{\"version\":\""@;
    let l2 = ",\"locale\":\""@;
    let l3 = ",\"widget_opacity\":"@;
    let spv = enc_str_part(c.version);
    let spl = enc_str_part(c.locale);
    let dw = dec_digits(c.widget_opacity as nat);
    let r1 = enc_part2(c) + (enc_part3(c) + enc_part4(c));
    assert(s.skip(0) =~= s);
    assert(s == l1 + (spv + (l2 + (spl + (l3 + (dw + r1)))))) by {
        lemma_assoc(l1, spv + (l2 + (spl + (l3 + dw))), r1);
        lemma_assoc(spv, l2 + (spl + (l3 + dw)), r1);
        lemma_assoc(l2, spl + (l3 + dw), r1);
        lemma_assoc(spl, l3 + dw, r1);
        lemma_assoc(l3, dw, r1);
    }
    assert(l1 =~= "{"@ + ("\""@ + (enc_str_part("version"@) + (":"@ + "\""@))));
    // The opening brace, then the version field.
    let t1 = spv + (l2 + (spl + (l3 + (dw + r1))));
    lemma_assoc("{"@, "\""@ + (enc_str_part("version"@) + (":"@ + "\""@)), t1);
    lemma_expect_of(s, 0, "{"@, ("\""@ + (enc_str_part("version"@) + (":"@ + "\""@))) + t1);
    lemma_expect_fails(
        s,
        1,
        ("\""@ + (enc_str_part("version"@) + (":"@ + "\""@))) + t1,
        Seq::<char>::empty(),
        "}"@,
        0,
    );
    let a1 = 1int;
    lemma_assoc("\""@, enc_str_part("version"@) + (":"@ + "\""@), t1);
    lemma_assoc(enc_str_part("version"@), ":"@ + "\""@, t1);
    lemma_assoc(":"@, "\""@, t1);
    lemma_field_key_of(s, a1, "version"@, "\""@ + t1);
    let v1 = a1 + "version"@.len() + 3;
    lemma_expect_of(s, v1, "\""@, t1);
    lemma_scan_string_of(s, v1 + 1, c.version, l2 + (spl + (l3 + (dw + r1))));
    let b1 = v1 + c.version.len() + 2;
    assert(parse_quoted_spec(s, v1) == Some((c.version, b1)));
    let p1 = PartialV { version: Some(c.version), ..empty_partial() };
    assert(parse_field_spec(s, a1, empty_partial()) == Some((p1, b1)));
    // The locale and later fields follow.
    lemma_rt_front2(s, b1, c, p1);
    assert(dec_fields(s, a1, empty_partial()) == dec_fields(s, b1 + 1, p1));
    assert(dec_spec(s) == dec_fields(s, a1, empty_partial()));
}

/// Law: recovery regenerates a usable store. When the stored text does
/// not decode — missing, corrupt, or foreign — resolution falls back to
/// the fresh record for the detected mode and locale; that record is
/// well formed, and the canonical text written back for it decodes to
/// exactly that record, so a valid file is on disk afterwards.
pub proof fn lemma_config_recovery(detected: ThemeMode, locale: Seq<char>)
    requires
        text_safe(locale),
    ensures
        initialize_spec(detected, locale).wf(),
        dec_spec(enc_config(initialize_spec(detected, locale))) == Some(
            initialize_spec(detected, locale),
        ),
{
    lemma_default_wf();
    lemma_config_round_trip(initialize_spec(detected, locale));
}

} // verus!
