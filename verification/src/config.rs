//! The user display preferences and their lifecycle policy.
//!
//! Every field has a well-defined default, so a missing or corrupt
//! on-disk record never prevents producing a fully populated value:
//! loading resolves to the parsed record when one parses, and otherwise
//! re-initializes from defaults, capturing the platform's light/dark
//! preference at that moment and raising the widget opacity for light
//! mode. Opacities are held in hundredths, font sizes in tenths; the
//! application shell converts at its edge.

use vstd::prelude::*;

verus! {

/// Light or dark UI mode.
#[derive(Clone, Copy, PartialEq, Eq, Structural, Debug)]
pub enum ThemeMode {
    Light,
    Dark,
}

/// A logical text role whose font can be configured.
#[derive(Clone, Copy, PartialEq, Eq, Structural, Debug)]
pub enum TextRole {
    Heading,
    Body,
    Monospace,
    Button,
    Small,
}

/// A font family choice.
#[derive(Clone, Copy, PartialEq, Eq, Structural, Debug)]
pub enum FontFamily {
    Proportional,
    Monospace,
}

/// A font descriptor: size in tenths of a point, and family.
#[derive(Clone, Copy, PartialEq, Eq, Structural, Debug)]
pub struct FontSpec {
    pub size_tenths: u32,
    pub family: FontFamily,
}

/// The font descriptor for each logical text role.
#[derive(Clone, Copy, PartialEq, Eq, Structural, Debug)]
pub struct FontSizes {
    pub heading: FontSpec,
    pub body: FontSpec,
    pub monospace: FontSpec,
    pub button: FontSpec,
    pub small: FontSpec,
}

/// User display preferences, persisted across sessions. Opacities are
/// hundredths of full opacity, in `[0, 100]`.
#[derive(Clone, Debug)]
pub struct Config {
    pub version: String,
    pub locale: String,
    pub widget_opacity: u32,
    pub streamer_mode: bool,
    pub streamer_msg: String,
    pub font_sizes: FontSizes,
    pub theme: u32,
    pub theme_mode: ThemeMode,
    pub legend_text_style: TextRole,
    pub pie_chart_opacity: u32,
    pub defender_exclusion: bool,
    pub auto_showhide_ui: bool,
}

/// The mathematical value of a `Config`: strings as character
/// sequences, everything else as itself.
pub ghost struct ConfigV {
    pub version: Seq<char>,
    pub locale: Seq<char>,
    pub widget_opacity: u32,
    pub streamer_mode: bool,
    pub streamer_msg: Seq<char>,
    pub font_sizes: FontSizes,
    pub theme: u32,
    pub theme_mode: ThemeMode,
    pub legend_text_style: TextRole,
    pub pie_chart_opacity: u32,
    pub defender_exclusion: bool,
    pub auto_showhide_ui: bool,
}

impl View for Config {
    type V = ConfigV;

    open spec fn view(&self) -> ConfigV {
        ConfigV {
            version: self.version@,
            locale: self.locale@,
            widget_opacity: self.widget_opacity,
            streamer_mode: self.streamer_mode,
            streamer_msg: self.streamer_msg@,
            font_sizes: self.font_sizes,
            theme: self.theme,
            theme_mode: self.theme_mode,
            legend_text_style: self.legend_text_style,
            pie_chart_opacity: self.pie_chart_opacity,
            defender_exclusion: self.defender_exclusion,
            auto_showhide_ui: self.auto_showhide_ui,
        }
    }
}

/// A character that may stand verbatim inside a quoted string of the
/// canonical config text: no quote, no backslash, no control character.
pub open spec fn text_safe_char(c: char) -> bool {
    c != '"' && c != '\\' && c as int >= 32
}

/// A string whose characters may all stand verbatim inside a quoted
/// string of the canonical config text.
pub open spec fn text_safe(s: Seq<char>) -> bool {
    forall|i: int| 0 <= i < s.len() ==> text_safe_char(s[i])
}

impl ConfigV {
    /// Well-formedness: opacities within `[0, 100]` and strings plain
    /// enough to stand verbatim in the config text.
    pub open spec fn wf(self) -> bool {
        &&& self.widget_opacity <= 100
        &&& self.pie_chart_opacity <= 100
        &&& text_safe(self.version)
        &&& text_safe(self.locale)
        &&& text_safe(self.streamer_msg)
    }
}

/// Default locale when none was detected.
pub open spec fn default_locale_spec() -> Seq<char> {
    "en"@
}

/// Default fonts: each role's size in tenths of a point.
pub open spec fn default_font_sizes_spec() -> FontSizes {
    FontSizes {
        heading: FontSpec { size_tenths: 180, family: FontFamily::Proportional },
        body: FontSpec { size_tenths: 125, family: FontFamily::Proportional },
        monospace: FontSpec { size_tenths: 120, family: FontFamily::Monospace },
        button: FontSpec { size_tenths: 125, family: FontFamily::Proportional },
        small: FontSpec { size_tenths: 90, family: FontFamily::Proportional },
    }
}

/// The fully populated default preferences.
pub open spec fn default_config_spec() -> ConfigV {
    ConfigV {
        version: Seq::<char>::empty(),
        locale: default_locale_spec(),
        widget_opacity: 30,
        streamer_mode: true,
        streamer_msg: "combat_overlay"@,
        font_sizes: default_font_sizes_spec(),
        theme: 0,
        theme_mode: ThemeMode::Dark,
        legend_text_style: TextRole::Monospace,
        pie_chart_opacity: 5,
        defender_exclusion: true,
        auto_showhide_ui: false,
    }
}

/// Default widget opacity, in hundredths.
pub fn default_widget_opacity() -> (r: u32)
    ensures
        r == default_config_spec().widget_opacity,
{
    30
}

/// Default streamer mode.
pub fn default_streamer_mode() -> (r: bool)
    ensures
        r == default_config_spec().streamer_mode,
{
    true
}

/// Default streamer message.
pub fn default_streamer_msg() -> (r: String)
    ensures
        r@ == default_config_spec().streamer_msg,
{
    String::from_str("combat_overlay")
}

/// Default defender exclusion.
pub fn default_defender_exclusion() -> (r: bool)
    ensures
        r == default_config_spec().defender_exclusion,
{
    true
}

/// Default automatic show/hide of the UI.
pub fn default_auto_showhide_ui() -> (r: bool)
    ensures
        r == default_config_spec().auto_showhide_ui,
{
    false
}

/// Default fonts per text role.
pub fn default_font_sizes() -> (r: FontSizes)
    ensures
        r == default_font_sizes_spec(),
{
    FontSizes {
        heading: FontSpec { size_tenths: 180, family: FontFamily::Proportional },
        body: FontSpec { size_tenths: 125, family: FontFamily::Proportional },
        monospace: FontSpec { size_tenths: 120, family: FontFamily::Monospace },
        button: FontSpec { size_tenths: 125, family: FontFamily::Proportional },
        small: FontSpec { size_tenths: 90, family: FontFamily::Proportional },
    }
}

/// The defaults are well formed.
pub proof fn lemma_default_wf()
    ensures
        default_config_spec().wf(),
{
    reveal_strlit("en");
    reveal_strlit("combat_overlay");
    assert forall|i: int| 0 <= i < "en"@.len() implies text_safe_char("en"@[i]) by {}
    assert forall|i: int|
        0 <= i < "combat_overlay"@.len() implies text_safe_char("combat_overlay"@[i]) by {}
}

impl Default for Config {
    /// The fully populated default preferences.
    fn default() -> (c: Config)
        ensures
            c@ == default_config_spec(),
    {
        let c = Config {
            version: String::new(),
            locale: String::from_str("en"),
            widget_opacity: 30,
            streamer_mode: true,
            streamer_msg: String::from_str("combat_overlay"),
            font_sizes: default_font_sizes(),
            theme: 0,
            theme_mode: ThemeMode::Dark,
            legend_text_style: TextRole::Monospace,
            pie_chart_opacity: 5,
            defender_exclusion: true,
            auto_showhide_ui: false,
        };
        proof {
            assert(c@.version =~= default_config_spec().version);
        }
        c
    }
}

/// A fresh record: defaults, the detected mode and locale captured, and
/// the widget opacity raised when the detected mode is light.
pub open spec fn initialize_spec(detected_mode: ThemeMode, locale: Seq<char>) -> ConfigV {
    ConfigV {
        locale,
        theme_mode: detected_mode,
        widget_opacity: if detected_mode == ThemeMode::Light {
            75u32
        } else {
            30u32
        },
        ..default_config_spec()
    }
}

impl Config {
    /// Build the fresh record persisted when no stored record can be
    /// used: defaults, with the platform's current mode and locale, and
    /// a higher widget opacity when that mode is light.
    pub fn initialize(detected_mode: ThemeMode, locale: &str) -> (c: Config)
        ensures
            c@ == initialize_spec(detected_mode, locale@),
    {
        let mut c = Config::default();
        c.locale = locale.to_owned();
        c.theme_mode = detected_mode;
        if matches!(detected_mode, ThemeMode::Light) {
            c.widget_opacity = 75;
        }
        c
    }

    /// Resolve a load: a record that parsed is taken as it stands; a
    /// missing or unparsable one is replaced by a fresh record, and the
    /// second component says whether that replacement must be written
    /// back to disk.
    pub fn resolve_loaded(parsed: Option<Config>, detected_mode: ThemeMode, locale: &str) -> (r: (
        Config,
        bool,
    ))
        ensures
            match parsed {
                Some(c) => r.0@ == c@ && r.1 == false,
                None => r.0@ == initialize_spec(detected_mode, locale@) && r.1 == true,
            },
    {
        match parsed {
            Some(c) => (c, false),
            None => (Config::initialize(detected_mode, locale), true),
        }
    }
}

} // verus!
