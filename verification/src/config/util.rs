use vstd::prelude::*;
use nu_ansi_term::Color as AnsiColor;
use nu_ansi_term::Style as AnsiStyle;
use vstd::std_specs::convert::FromSpecImpl;

verus! {

/// A terminal color: one of the sixteen named colors or a 24-bit RGB triple.
#[derive(Clone, Copy, Debug, PartialEq, Eq, Structural)]
pub enum Color {
    Black,
    Red,
    Green,
    Yellow,
    Blue,
    Magenta,
    Cyan,
    White,
    BrightBlack,
    BrightRed,
    BrightGreen,
    BrightYellow,
    BrightBlue,
    BrightMagenta,
    BrightCyan,
    BrightWhite,
    TrueColor { r: u8, g: u8, b: u8 },
}

/// The eight text attributes of a style. An absent attribute is inherited
/// from the fallback style when the style is rendered.
#[derive(Clone, Copy, Debug, PartialEq, Eq, Structural)]
pub struct TextAttributess {
    pub bold: Option<bool>,
    pub dimmed: Option<bool>,
    pub italic: Option<bool>,
    pub underline: Option<bool>,
    pub blink: Option<bool>,
    pub reverse: Option<bool>,
    pub hidden: Option<bool>,
    pub strikethrough: Option<bool>,
}

/// A partially specified style. Every absent field is taken from a
/// fallback style at render time.
#[derive(Clone, Copy, Debug, PartialEq, Eq, Structural)]
pub struct Style {
    /// Text color.
    pub color: Option<Color>,
    /// Background color.
    pub bg_color: Option<Color>,
    pub attributes: TextAttributess,
}

/// `first` where it is present, `second` otherwise.
pub open spec fn or_else<T>(first: Option<T>, second: Option<T>) -> Option<T> {
    if first is Some {
        first
    } else {
        second
    }
}

fn pick<T: Copy>(first: Option<T>, second: Option<T>) -> (chosen: Option<T>)
    ensures
        chosen == or_else(first, second),
{
    match first {
        Some(_) => first,
        None => second,
    }
}

impl Default for TextAttributess {
    fn default() -> (attributes: Self)
        ensures
            attributes == TextAttributess::unset(),
    {
        TextAttributess {
            bold: None,
            dimmed: None,
            italic: None,
            underline: None,
            blink: None,
            reverse: None,
            hidden: None,
            strikethrough: None,
        }
    }
}

impl TextAttributess {
    /// The attributes with nothing specified.
    pub open spec fn unset() -> TextAttributess {
        TextAttributess {
            bold: None,
            dimmed: None,
            italic: None,
            underline: None,
            blink: None,
            reverse: None,
            hidden: None,
            strikethrough: None,
        }
    }

    /// Field by field: the attribute of `self` where present, else that of `fallback`.
    pub open spec fn merged(self, fallback: TextAttributess) -> TextAttributess {
        TextAttributess {
            bold: or_else(self.bold, fallback.bold),
            dimmed: or_else(self.dimmed, fallback.dimmed),
            italic: or_else(self.italic, fallback.italic),
            underline: or_else(self.underline, fallback.underline),
            blink: or_else(self.blink, fallback.blink),
            reverse: or_else(self.reverse, fallback.reverse),
            hidden: or_else(self.hidden, fallback.hidden),
            strikethrough: or_else(self.strikethrough, fallback.strikethrough),
        }
    }
}

impl Default for Style {
    fn default() -> (style: Self)
        ensures
            style == Style::unset(),
    {
        Style { color: None, bg_color: None, attributes: TextAttributess::default() }
    }
}

impl Style {
    /// The style with nothing specified.
    pub open spec fn unset() -> Style {
        Style { color: None, bg_color: None, attributes: TextAttributess::unset() }
    }

    /// Field by field: the field of `self` where present, else that of `fallback`.
    /// Without a fallback the style is unchanged.
    pub open spec fn merged(self, fallback: Option<Style>) -> Style {
        match fallback {
            None => self,
            Some(f) => Style {
                color: or_else(self.color, f.color),
                bg_color: or_else(self.bg_color, f.bg_color),
                attributes: self.attributes.merged(f.attributes),
            },
        }
    }

    /// Fills every absent field of `self` from `fallback`; fields present
    /// in `self` always win.
    pub fn merge_with_fallback(&self, fallback: Option<Self>) -> (merged: Self)
        ensures
            merged == self.merged(fallback),
    {
        let Some(fallback) = fallback else {
            return *self;
        };
        Style {
            color: pick(self.color, fallback.color),
            bg_color: pick(self.bg_color, fallback.bg_color),
            attributes: TextAttributess {
                bold: pick(self.attributes.bold, fallback.attributes.bold),
                dimmed: pick(self.attributes.dimmed, fallback.attributes.dimmed),
                italic: pick(self.attributes.italic, fallback.attributes.italic),
                underline: pick(self.attributes.underline, fallback.attributes.underline),
                blink: pick(self.attributes.blink, fallback.attributes.blink),
                reverse: pick(self.attributes.reverse, fallback.attributes.reverse),
                hidden: pick(self.attributes.hidden, fallback.attributes.hidden),
                strikethrough: pick(
                    self.attributes.strikethrough,
                    fallback.attributes.strikethrough,
                ),
            },
        }
    }

    /// Merging twice with the same fallback changes nothing more: every
    /// field that the fallback can fill is filled by the first merge.
    pub proof fn lemma_merge_idempotent(self, fallback: Option<Style>)
        ensures
            self.merged(fallback).merged(fallback) == self.merged(fallback),
    {
    }

    /// Every field of the merged style is the style's own where that is
    /// present, and the fallback's where it is not.
    pub proof fn lemma_merge_fields(self, fallback: Style)
        ensures
            self.merged(Some(fallback)).color == or_else(self.color, fallback.color),
            self.merged(Some(fallback)).bg_color == or_else(self.bg_color, fallback.bg_color),
            self.merged(Some(fallback)).attributes.bold == or_else(
                self.attributes.bold,
                fallback.attributes.bold,
            ),
            self.merged(Some(fallback)).attributes.dimmed == or_else(
                self.attributes.dimmed,
                fallback.attributes.dimmed,
            ),
            self.merged(Some(fallback)).attributes.italic == or_else(
                self.attributes.italic,
                fallback.attributes.italic,
            ),
            self.merged(Some(fallback)).attributes.underline == or_else(
                self.attributes.underline,
                fallback.attributes.underline,
            ),
            self.merged(Some(fallback)).attributes.blink == or_else(
                self.attributes.blink,
                fallback.attributes.blink,
            ),
            self.merged(Some(fallback)).attributes.reverse == or_else(
                self.attributes.reverse,
                fallback.attributes.reverse,
            ),
            self.merged(Some(fallback)).attributes.hidden == or_else(
                self.attributes.hidden,
                fallback.attributes.hidden,
            ),
            self.merged(Some(fallback)).attributes.strikethrough == or_else(
                self.attributes.strikethrough,
                fallback.attributes.strikethrough,
            ),
    {
    }
}

/// `nu_ansi_term::Color`, with the variants that the crate declares.
#[verifier::external_type_specification]
pub struct ExAnsiColor(AnsiColor);

/// `nu_ansi_term::Style`, with the fields that the crate declares, all of
/// them public.
#[verifier::external_type_specification]
pub struct ExAnsiStyle(AnsiStyle);

impl From<Color> for AnsiColor {
    fn from(value: Color) -> (color: Self) {
        match value {
            Color::Black => AnsiColor::Black,
            Color::Red => AnsiColor::Red,
            Color::Green => AnsiColor::Green,
            Color::Yellow => AnsiColor::Yellow,
            Color::Blue => AnsiColor::Blue,
            Color::Magenta => AnsiColor::Magenta,
            Color::Cyan => AnsiColor::Cyan,
            Color::White => AnsiColor::White,
            Color::BrightBlack => AnsiColor::DarkGray,
            Color::BrightRed => AnsiColor::LightRed,
            Color::BrightGreen => AnsiColor::LightGreen,
            Color::BrightYellow => AnsiColor::LightYellow,
            Color::BrightBlue => AnsiColor::LightBlue,
            Color::BrightMagenta => AnsiColor::LightMagenta,
            Color::BrightCyan => AnsiColor::LightCyan,
            Color::BrightWhite => AnsiColor::LightGray,
            Color::TrueColor { r, g, b } => AnsiColor::Rgb(r, g, b),
        }
    }
}

impl FromSpecImpl<Color> for AnsiColor {
    open spec fn obeys_from_spec() -> bool {
        true
    }

    open spec fn from_spec(value: Color) -> Self {
        value.ansi()
    }
}

impl Color {
    /// The terminal color of the same name: a bright color is the light one
    /// of the terminal, bright black its dark gray and bright white its
    /// light gray.
    pub open spec fn ansi(self) -> AnsiColor {
        match self {
            Color::Black => AnsiColor::Black,
            Color::Red => AnsiColor::Red,
            Color::Green => AnsiColor::Green,
            Color::Yellow => AnsiColor::Yellow,
            Color::Blue => AnsiColor::Blue,
            Color::Magenta => AnsiColor::Magenta,
            Color::Cyan => AnsiColor::Cyan,
            Color::White => AnsiColor::White,
            Color::BrightBlack => AnsiColor::DarkGray,
            Color::BrightRed => AnsiColor::LightRed,
            Color::BrightGreen => AnsiColor::LightGreen,
            Color::BrightYellow => AnsiColor::LightYellow,
            Color::BrightBlue => AnsiColor::LightBlue,
            Color::BrightMagenta => AnsiColor::LightMagenta,
            Color::BrightCyan => AnsiColor::LightCyan,
            Color::BrightWhite => AnsiColor::LightGray,
            Color::TrueColor { r, g, b } => AnsiColor::Rgb(r, g, b),
        }
    }
}

impl Style {
    /// The terminal style that this style stands for once nothing more is
    /// inherited: an absent attribute is off, an absent color is the
    /// terminal's own, and the style is always written behind a reset.
    pub open spec fn resolved(self) -> AnsiStyle {
        AnsiStyle {
            foreground: match self.color {
                Some(color) => Some(color.ansi()),
                None => None,
            },
            background: match self.bg_color {
                Some(color) => Some(color.ansi()),
                None => None,
            },
            is_bold: self.attributes.bold == Some(true),
            is_dimmed: self.attributes.dimmed == Some(true),
            is_italic: self.attributes.italic == Some(true),
            is_underline: self.attributes.underline == Some(true),
            is_blink: self.attributes.blink == Some(true),
            is_reverse: self.attributes.reverse == Some(true),
            is_hidden: self.attributes.hidden == Some(true),
            is_strikethrough: self.attributes.strikethrough == Some(true),
            prefix_with_reset: true,
        }
    }
}

fn to_ansi_color(color: Option<Color>) -> (ansi: Option<AnsiColor>)
    ensures
        ansi == match color {
            Some(color) => Some(color.ansi()),
            None => None,
        },
{
    match color {
        Some(color) => Some(AnsiColor::from(color)),
        None => None,
    }
}

fn is_set(attribute: Option<bool>) -> (set: bool)
    ensures
        set == (attribute == Some(true)),
{
    match attribute {
        Some(value) => value,
        None => false,
    }
}

impl From<&Style> for AnsiStyle {
    fn from(value: &Style) -> (style: Self) {
        AnsiStyle {
            foreground: to_ansi_color(value.color),
            background: to_ansi_color(value.bg_color),
            is_bold: is_set(value.attributes.bold),
            is_dimmed: is_set(value.attributes.dimmed),
            is_italic: is_set(value.attributes.italic),
            is_underline: is_set(value.attributes.underline),
            is_blink: is_set(value.attributes.blink),
            is_reverse: is_set(value.attributes.reverse),
            is_hidden: is_set(value.attributes.hidden),
            is_strikethrough: is_set(value.attributes.strikethrough),
            prefix_with_reset: true,
        }
    }
}

impl FromSpecImpl<&Style> for AnsiStyle {
    open spec fn obeys_from_spec() -> bool {
        true
    }

    open spec fn from_spec(value: &Style) -> Self {
        value.resolved()
    }
}

impl From<Style> for AnsiStyle {
    fn from(value: Style) -> (style: Self) {
        AnsiStyle::from(&value)
    }
}

impl FromSpecImpl<Style> for AnsiStyle {
    open spec fn obeys_from_spec() -> bool {
        true
    }

    open spec fn from_spec(value: Style) -> Self {
        value.resolved()
    }
}

/// The escape codes that `nu_ansi_term` writes in front of text in `style`
/// when no style is in force yet.
pub uninterp spec fn ansi_prefix(style: AnsiStyle) -> Seq<char>;

/// The escape codes that `nu_ansi_term` writes to go from text in `prev` to
/// text in `next`.
pub uninterp spec fn ansi_infix(prev: AnsiStyle, next: AnsiStyle) -> Seq<char>;

/// The codes that are written in front of text in `next` when `prev` is the
/// style that was written last.
pub open spec fn transition(prev: Option<AnsiStyle>, next: AnsiStyle) -> Seq<char> {
    match prev {
        Some(prev) => ansi_infix(prev, next),
        None => ansi_prefix(next),
    }
}

/// Writes out what `nu_ansi_term::Style::prefix` displays: the codes depend
/// on the style alone.
#[verifier::external_body]
fn prefix_codes(style: AnsiStyle) -> (codes: String)
    ensures
        codes@ == ansi_prefix(style),
{
    style.prefix().to_string()
}

/// Writes out what `nu_ansi_term::Style::infix` displays: the codes depend
/// on the two styles alone, and between two equal styles the crate writes
/// nothing.
#[verifier::external_body]
fn infix_codes(prev: AnsiStyle, next: AnsiStyle) -> (codes: String)
    ensures
        codes@ == ansi_infix(prev, next),
        prev == next ==> codes@.len() == 0,
{
    prev.infix(next).to_string()
}

impl Style {
    /// The escape codes that lead from the style written last, `prev`, to
    /// this style merged with `fallback`, which becomes the style written
    /// last. Where the two are the same style, there are no codes.
    pub fn format(&self, fallback: Option<Style>, prev: &mut Option<AnsiStyle>) -> (prefix: String)
        ensures
            prefix@ == transition(*old(prev), self.merged(fallback).resolved()),
            *final(prev) == Some(self.merged(fallback).resolved()),
            *old(prev) == Some(self.merged(fallback).resolved()) ==> prefix@.len() == 0,
    {
        let style = AnsiStyle::from(self.merge_with_fallback(fallback));
        let prefix = match *prev {
            Some(last) => infix_codes(last, style),
            None => prefix_codes(style),
        };
        *prev = Some(style);
        prefix
    }

    /// Appends to `out` the codes that `format` gives.
    pub fn print(&self, out: &mut String, fallback: Option<Style>, prev: &mut Option<AnsiStyle>)
        ensures
            final(out)@ == old(out)@ + transition(*old(prev), self.merged(fallback).resolved()),
            *final(prev) == Some(self.merged(fallback).resolved()),
            *old(prev) == Some(self.merged(fallback).resolved()) ==> final(out)@ == old(out)@,
    {
        let prefix = self.format(fallback, prev);
        out.append(prefix.as_str());
    }
}

/// `glob::PatternError`: why `glob::Pattern::new` refused a pattern. Nothing
/// is read from it here.
#[verifier::external_type_specification]
#[verifier::external_body]
pub struct ExPatternError(glob::PatternError);

/// Whether `glob::Pattern::new` accepts `pattern`.
pub uninterp spec fn glob_compiles(pattern: Seq<char>) -> bool;

/// Whether the compiled `pattern` matches `text` under
/// `glob::Pattern::matches`.
pub uninterp spec fn glob_matches(pattern: Seq<char>, text: Seq<char>) -> bool;

/// Compiles `pattern` with `glob::Pattern::new` and drops the compiled
/// form: whether the pattern is accepted depends on its text alone.
#[verifier::external_body]
fn check_pattern(pattern: &str) -> (checked: Result<(), glob::PatternError>)
    ensures
        checked is Ok <==> glob_compiles(pattern@),
{
    match glob::Pattern::new(pattern) {
        Ok(_) => Ok(()),
        Err(error) => Err(error),
    }
}

/// Compiles `pattern` with `glob::Pattern::new` and asks
/// `glob::Pattern::matches` whether it matches `text`: the answer depends
/// on the two texts alone.
#[verifier::external_body]
fn match_pattern(pattern: &str, text: &str) -> (matched: Result<bool, glob::PatternError>)
    ensures
        matched is Ok <==> glob_compiles(pattern@),
        matched matches Ok(found) ==> found == glob_matches(pattern@, text@),
{
    match glob::Pattern::new(pattern) {
        Ok(compiled) => Ok(compiled.matches(text)),
        Err(error) => Err(error),
    }
}

/// Why a text is no glob pattern.
#[derive(Clone, Copy, Debug, PartialEq, Eq, Structural)]
pub enum GlobError {
    /// The pattern's syntax is not accepted.
    InvalidPattern,
}

/// A glob pattern that names bookmarks to leave out.
#[derive(Debug)]
pub struct Glob {
    pattern: String,
}

impl View for Glob {
    type V = Seq<char>;

    /// The text of the pattern.
    closed spec fn view(&self) -> Seq<char> {
        self.pattern@
    }
}

impl Glob {
    #[verifier::type_invariant]
    spec fn well_formed(self) -> bool {
        glob_compiles(self.pattern@)
    }

    /// The glob of the pattern `value`, where `value` is a pattern.
    pub fn try_from(value: &str) -> (glob: Result<Glob, GlobError>)
        ensures
            glob is Ok <==> glob_compiles(value@),
            glob matches Ok(made) ==> made@ == value@,
    {
        match check_pattern(value) {
            Ok(()) => Ok(Glob { pattern: value.to_string() }),
            Err(_) => Err(GlobError::InvalidPattern),
        }
    }

    /// The text of the pattern.
    pub fn as_str(&self) -> (text: &str)
        ensures
            text@ == self@,
    {
        self.pattern.as_str()
    }

    /// Gives the text of the pattern back.
    pub fn into_string(self) -> (text: String)
        ensures
            text@ == self@,
    {
        self.pattern
    }

    /// Whether the pattern matches the whole of `haystack`.
    pub fn matches(&self, haystack: &str) -> (found: bool)
        ensures
            found == glob_matches(self@, haystack@),
    {
        proof {
            use_type_invariant(self);
        }
        match match_pattern(self.pattern.as_str(), haystack) {
            Ok(found) => found,
            // The pattern compiled when the glob was made, so it compiles now.
            Err(_) => false,
        }
    }
}

impl Clone for Glob {
    fn clone(&self) -> (copy: Self)
        ensures
            copy@ == self@,
    {
        proof {
            use_type_invariant(self);
        }
        Glob { pattern: self.pattern.clone() }
    }
}

} // verus!
