//! Colour themes: the CSS they emit and the file names they are stored under.
use vstd::prelude::*;
use crate::text::{chars_of, string_push};

verus! {

pub struct ThemeColors {
    pub accent_bg_color: String,
    pub accent_fg_color: Option<String>,
    pub theme_bg_color: Option<String>,
    pub theme_fg_color: Option<String>,
    pub window_fg_color: Option<String>,
    pub view_bg_color: Option<String>,
    pub borders: Option<String>,
}

pub struct Theme {
    pub name: String,
    pub version: u32,
    pub dark: bool,
    pub colors: ThemeColors,
}

pub struct ThemeEntry {
    pub theme: Theme,
    pub builtin: bool,
    pub file_name: String,
}

/// One CSS colour definition: `@define-color <name> <value>;` and a newline.
pub open spec fn css_line(name: Seq<char>, value: Seq<char>) -> Seq<char> {
    "@define-color "@ + name + " "@ + value + ";\n"@
}

/// The definition of an optional colour: nothing when it is unset.
pub open spec fn optional_css_line(name: Seq<char>, value: Option<String>) -> Seq<char> {
    match value {
        Some(v) => css_line(name, v@),
        None => Seq::empty(),
    }
}

/// The stylesheet of a theme: the accent background always, then each set
/// optional colour, in a fixed order.
pub open spec fn spec_css(colors: ThemeColors) -> Seq<char> {
    css_line("accent_bg_color"@, colors.accent_bg_color@)
        + optional_css_line("accent_fg_color"@, colors.accent_fg_color)
        + optional_css_line("theme_bg_color"@, colors.theme_bg_color)
        + optional_css_line("theme_fg_color"@, colors.theme_fg_color)
        + optional_css_line("window_fg_color"@, colors.window_fg_color)
        + optional_css_line("view_bg_color"@, colors.view_bg_color)
        + optional_css_line("borders"@, colors.borders)
}

fn append_css_line(css: &mut String, name: &str, value: &str)
    ensures
        final(css)@ == old(css)@ + css_line(name@, value@),
{
    css.append("@define-color ");
    css.append(name);
    css.append(" ");
    css.append(value);
    css.append(";\n");
    assert(final(css)@ =~= old(css)@ + css_line(name@, value@));
}

fn append_optional_css_line(css: &mut String, name: &str, value: &Option<String>)
    ensures
        final(css)@ == old(css)@ + optional_css_line(name@, *value),
{
    match value {
        Some(color) => append_css_line(css, name, color.as_str()),
        None => {
            assert(old(css)@ + optional_css_line(name@, *value) =~= old(css)@);
        }
    }
}

/// `str::to_lowercase` from std, as a function of the text alone.
pub uninterp spec fn unicode_lowercase(text: Seq<char>) -> Seq<char>;

/// `char::is_alphanumeric` from std (Unicode Alphabetic or Numeric).
pub uninterp spec fn unicode_is_alphanumeric(ch: char) -> bool;

/// `str::to_lowercase` from std: the Unicode lowercase of the whole text.
#[verifier::external_body]
fn to_lowercase(text: &str) -> (lower: String)
    ensures
        lower@ == unicode_lowercase(text@),
{
    text.to_lowercase()
}

/// `char::is_alphanumeric` from std.
#[verifier::external_body]
fn is_alphanumeric(ch: char) -> (alphanumeric: bool)
    ensures
        alphanumeric == unicode_is_alphanumeric(ch),
{
    ch.is_alphanumeric()
}

/// The file stem of a theme name: its lowercase form with every character
/// that is not alphanumeric replaced by '-'.
pub open spec fn filename_stem(name: Seq<char>) -> Seq<char> {
    unicode_lowercase(name).map_values(|ch: char| if unicode_is_alphanumeric(ch) { ch } else { '-' })
}

/// A lowercase hexadecimal digit.
pub open spec fn hex_digit(d: nat) -> char {
    if d < 10 { ('0' as nat + d) as char } else { ('a' as nat + d - 10) as char }
}

/// A colour as `#rrggbb` in lowercase hexadecimal.
pub open spec fn spec_hex_color(red: u8, green: u8, blue: u8) -> Seq<char> {
    seq!['#', hex_digit(red as nat / 16), hex_digit(red as nat % 16),
        hex_digit(green as nat / 16), hex_digit(green as nat % 16),
        hex_digit(blue as nat / 16), hex_digit(blue as nat % 16)]
}

fn hex_char(d: u8) -> (c: char)
    requires
        d < 16,
    ensures
        c == hex_digit(d as nat),
{
    if d < 10 { ('0' as u8 + d) as char } else { ('a' as u8 + d - 10) as char }
}

/// The colour as the theme files store it.
pub fn hex_color(red: u8, green: u8, blue: u8) -> (hex: String)
    ensures
        hex@ == spec_hex_color(red, green, blue),
{
    let mut hex = String::new();
    string_push(&mut hex, '#');
    string_push(&mut hex, hex_char(red / 16));
    string_push(&mut hex, hex_char(red % 16));
    string_push(&mut hex, hex_char(green / 16));
    string_push(&mut hex, hex_char(green % 16));
    string_push(&mut hex, hex_char(blue / 16));
    string_push(&mut hex, hex_char(blue % 16));
    assert(hex@ =~= spec_hex_color(red, green, blue));
    hex
}

/// A colour of the theme editor: its red, green and blue bytes.
pub type Rgb = (u8, u8, u8);

pub open spec fn spec_optional_hex(color: Option<Rgb>) -> Option<Seq<char>> {
    match color {
        Some((r, g, b)) => Some(spec_hex_color(r, g, b)),
        None => None,
    }
}

pub open spec fn optional_matches(value: Option<String>, color: Option<Rgb>) -> bool {
    match (value, spec_optional_hex(color)) {
        (Some(v), Some(h)) => v@ == h,
        (None, None) => true,
        _ => false,
    }
}

fn optional_hex(color: Option<Rgb>) -> (value: Option<String>)
    ensures
        optional_matches(value, color),
{
    match color {
        Some((r, g, b)) => Some(hex_color(r, g, b)),
        None => None,
    }
}

/// What the theme editor holds: a name, the dark switch, the accent colour
/// and each optional colour with its switch on.
pub struct ThemeDraft {
    pub name: String,
    pub dark: bool,
    pub accent_bg_color: Rgb,
    pub accent_fg_color: Option<Rgb>,
    pub theme_bg_color: Option<Rgb>,
    pub theme_fg_color: Option<Rgb>,
    pub window_fg_color: Option<Rgb>,
    pub view_bg_color: Option<Rgb>,
    pub borders: Option<Rgb>,
}

impl ThemeDraft {
    /// The theme to save: none without a name, else a version 1 theme with
    /// the colours in hexadecimal.
    pub fn to_theme(&self) -> (theme: Option<Theme>)
        ensures
            self.name@.len() == 0 <==> theme is None,
            theme matches Some(t) ==> {
                &&& t.name@ == self.name@
                &&& t.version == 1
                &&& t.dark == self.dark
                &&& t.colors.accent_bg_color@ == spec_hex_color(self.accent_bg_color.0, self.accent_bg_color.1, self.accent_bg_color.2)
                &&& optional_matches(t.colors.accent_fg_color, self.accent_fg_color)
                &&& optional_matches(t.colors.theme_bg_color, self.theme_bg_color)
                &&& optional_matches(t.colors.theme_fg_color, self.theme_fg_color)
                &&& optional_matches(t.colors.window_fg_color, self.window_fg_color)
                &&& optional_matches(t.colors.view_bg_color, self.view_bg_color)
                &&& optional_matches(t.colors.borders, self.borders)
            },
    {
        if self.name.as_str().is_empty() {
            return None;
        }
        let (r, g, b) = self.accent_bg_color;
        Some(Theme {
            name: self.name.clone(),
            version: 1,
            dark: self.dark,
            colors: ThemeColors {
                accent_bg_color: hex_color(r, g, b),
                accent_fg_color: optional_hex(self.accent_fg_color),
                theme_bg_color: optional_hex(self.theme_bg_color),
                theme_fg_color: optional_hex(self.theme_fg_color),
                window_fg_color: optional_hex(self.window_fg_color),
                view_bg_color: optional_hex(self.view_bg_color),
                borders: optional_hex(self.borders),
            },
        })
    }
}

impl Theme {
    /// The CSS colour definitions of the theme.
    pub fn to_css(&self) -> (css: String)
        ensures
            css@ == spec_css(self.colors),
    {
        let mut css = String::new();
        append_css_line(&mut css, "accent_bg_color", self.colors.accent_bg_color.as_str());
        append_optional_css_line(&mut css, "accent_fg_color", &self.colors.accent_fg_color);
        append_optional_css_line(&mut css, "theme_bg_color", &self.colors.theme_bg_color);
        append_optional_css_line(&mut css, "theme_fg_color", &self.colors.theme_fg_color);
        append_optional_css_line(&mut css, "window_fg_color", &self.colors.window_fg_color);
        append_optional_css_line(&mut css, "view_bg_color", &self.colors.view_bg_color);
        append_optional_css_line(&mut css, "borders", &self.colors.borders);
        assert(css@ =~= spec_css(self.colors));
        css
    }

    /// The file name a user theme is saved under: the sanitized name plus ".json".
    pub fn sanitize_filename(name: &str) -> (file_name: String)
        ensures
            file_name@ == filename_stem(name@) + ".json"@,
    {
        let lower = to_lowercase(name);
        let chars = chars_of(lower.as_str());
        let mut file_name = String::new();
        let mut index: usize = 0;
        while index < chars.len()
            invariant
                chars@ == unicode_lowercase(name@),
                index <= chars@.len(),
                file_name@ == filename_stem(name@).take(index as int),
            decreases chars@.len() - index,
        {
            let ch = chars[index];
            let kept = if is_alphanumeric(ch) { ch } else { '-' };
            string_push(&mut file_name, kept);
            index += 1;
            assert(file_name@ =~= filename_stem(name@).take(index as int));
        }
        assert(filename_stem(name@).take(index as int) =~= filename_stem(name@));
        file_name.append(".json");
        file_name
    }
}

} // verus!
