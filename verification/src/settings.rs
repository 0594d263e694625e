use vstd::prelude::*;

use crate::prompt::first_n;
use crate::text::{chars_of, same_text, string_of, trim, trim_chars, CharClass};

verus! {

/// The user's choices: the style of the sentences, how often they change, how
/// sharp they are, and a free note about the user.
#[derive(Clone, Debug)]
pub struct AppSettings {
    pub style: String,
    pub rhythm: String,
    pub sharpness: String,
    pub personal_note: String,
}

/// The styles that exist; any other reads as `"commute"`.
pub open spec fn spec_normalize_style(style: Seq<char>) -> Seq<char> {
    if style == "commute"@ || style == "night"@ || style == "work"@ || style == "tender"@ || style
        == "weekend"@ {
        style
    } else {
        "commute"@
    }
}

/// The sharpness levels that exist; any other reads as `"quiet"`.
pub open spec fn spec_normalize_sharpness(sharpness: Seq<char>) -> Seq<char> {
    if sharpness == "soft"@ || sharpness == "quiet"@ || sharpness == "sharp"@ {
        sharpness
    } else {
        "quiet"@
    }
}

/// The rhythms that exist; any other reads as `"moments"`.
pub open spec fn spec_normalize_rhythm(rhythm: Seq<char>) -> Seq<char> {
    if rhythm == "daily"@ || rhythm == "manual"@ {
        rhythm
    } else {
        "moments"@
    }
}

/// The note trimmed and cut to its first 80 characters.
pub open spec fn spec_normalize_note(note: Seq<char>) -> Seq<char> {
    first_n(trim(note), 80)
}

/// The style, or `"commute"` when it is not one of the known styles.
pub fn normalize_style(style: &str) -> (r: &'static str)
    ensures
        r@ == spec_normalize_style(style@),
{
    if same_text(style, "commute") {
        "commute"
    } else if same_text(style, "night") {
        "night"
    } else if same_text(style, "work") {
        "work"
    } else if same_text(style, "tender") {
        "tender"
    } else if same_text(style, "weekend") {
        "weekend"
    } else {
        "commute"
    }
}

/// The sharpness, or `"quiet"` when it is not one of the known levels.
pub fn normalize_sharpness(sharpness: &str) -> (r: &'static str)
    ensures
        r@ == spec_normalize_sharpness(sharpness@),
{
    if same_text(sharpness, "soft") {
        "soft"
    } else if same_text(sharpness, "quiet") {
        "quiet"
    } else if same_text(sharpness, "sharp") {
        "sharp"
    } else {
        "quiet"
    }
}

/// The rhythm, or `"moments"` when it is not one of the known rhythms.
pub fn normalize_rhythm(rhythm: &str) -> (r: &'static str)
    ensures
        r@ == spec_normalize_rhythm(rhythm@),
{
    if same_text(rhythm, "daily") {
        "daily"
    } else if same_text(rhythm, "manual") {
        "manual"
    } else {
        "moments"
    }
}

/// The note trimmed and cut to its first 80 characters.
pub fn normalize_note(note: &str) -> (r: String)
    ensures
        r@ == spec_normalize_note(note@),
{
    let chars = chars_of(note);
    let trimmed = trim_chars(&chars, CharClass::Whitespace);
    let mut kept: Vec<char> = Vec::new();
    let mut i: usize = 0;
    while i < trimmed.len() && i < 80
        invariant
            i <= trimmed.len(),
            i <= 80,
            kept@ == trimmed@.take(i as int),
        decreases trimmed.len() - i,
    {
        kept.push(trimmed[i]);
        assert(trimmed@.take(i + 1) =~= trimmed@.take(i as int).push(trimmed@[i as int]));
        i = i + 1;
    }
    assert(kept@ =~= first_n(trimmed@, 80));
    string_of(&kept)
}

/// The settings with each field replaced by its normal form.
pub open spec fn settings_normalized(s: AppSettings, r: AppSettings) -> bool {
    &&& r.style@ == spec_normalize_style(s.style@)
    &&& r.rhythm@ == spec_normalize_rhythm(s.rhythm@)
    &&& r.sharpness@ == spec_normalize_sharpness(s.sharpness@)
    &&& r.personal_note@ == spec_normalize_note(s.personal_note@)
}

/// The settings with an unknown style, rhythm or sharpness replaced by its
/// default, and the note trimmed and cut to 80 characters.
pub fn normalize_settings(settings: AppSettings) -> (r: AppSettings)
    ensures
        settings_normalized(settings, r),
{
    let style = String::from_str(normalize_style(settings.style.as_str()));
    let rhythm = String::from_str(normalize_rhythm(settings.rhythm.as_str()));
    let sharpness = String::from_str(normalize_sharpness(settings.sharpness.as_str()));
    let personal_note = normalize_note(settings.personal_note.as_str());
    AppSettings { style, rhythm, sharpness, personal_note }
}

/// Whether normalizing the settings would change any field.
pub fn needs_normalizing(settings: &AppSettings) -> (r: bool)
    ensures
        r == !(settings.style@ == spec_normalize_style(settings.style@) && settings.rhythm@
            == spec_normalize_rhythm(settings.rhythm@) && settings.sharpness@
            == spec_normalize_sharpness(settings.sharpness@) && settings.personal_note@
            == spec_normalize_note(settings.personal_note@)),
{
    let style = normalize_style(settings.style.as_str());
    let rhythm = normalize_rhythm(settings.rhythm.as_str());
    let sharpness = normalize_sharpness(settings.sharpness.as_str());
    let note = normalize_note(settings.personal_note.as_str());
    !(same_text(settings.style.as_str(), style) && same_text(settings.rhythm.as_str(), rhythm)
        && same_text(settings.sharpness.as_str(), sharpness) && same_text(
        settings.personal_note.as_str(),
        note.as_str(),
    ))
}

/// The style that settings without one take.
pub fn default_style() -> (r: String)
    ensures
        r@ == "commute"@,
{
    String::from_str("commute")
}

/// The rhythm that settings without one take.
pub fn default_rhythm() -> (r: String)
    ensures
        r@ == "moments"@,
{
    String::from_str("moments")
}

/// The sharpness that settings without one take.
pub fn default_sharpness() -> (r: String)
    ensures
        r@ == "quiet"@,
{
    String::from_str("quiet")
}

impl AppSettings {
    /// The settings used when none are stored or the stored ones cannot be read.
    pub fn defaults() -> (r: AppSettings)
        ensures
            r.style@ == "commute"@,
            r.rhythm@ == "moments"@,
            r.sharpness@ == "quiet"@,
            r.personal_note@ == Seq::<char>::empty(),
    {
        AppSettings {
            style: default_style(),
            rhythm: default_rhythm(),
            sharpness: default_sharpness(),
            personal_note: String::new(),
        }
    }
}

} // verus!
