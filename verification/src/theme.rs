//! Color themes: colors, the checks a theme source must pass, and the
//! catalog of themes to choose from.
use vstd::prelude::*;
use vstd::string::{StringExecFns, StringSliceAdditionalSpecFns, StrSliceExecFns};
use vstd::utf8::*;

pub use crate::config::DEFAULT_THEME_NAME;
use crate::config::{AppConfig, ConfigPaths};
use crate::order::bytes_order;
use crate::path::{file_name, file_name_of, extension_of_name, name_extension};
use crate::bytes::{ascii_lowercase, to_ascii_lowercase, bytes_eq};

verus! {

broadcast use group_utf8_lib;

/// A color by its red, green and blue channels.
#[derive(Debug, Clone, Copy, PartialEq, Eq, Hash, Structural)]
pub struct Rgb {
    pub red: u8,
    pub green: u8,
    pub blue: u8,
}

/// The value of a hexadecimal digit, either case.
pub open spec fn hex_value(b: u8) -> Option<u8> {
    if 0x30 <= b <= 0x39 {
        Some((b - 0x30) as u8)
    } else if 0x41 <= b <= 0x46 {
        Some((b - 0x41 + 10) as u8)
    } else if 0x61 <= b <= 0x66 {
        Some((b - 0x61 + 10) as u8)
    } else {
        None
    }
}

/// The byte that two hexadecimal digits spell.
pub open spec fn hex_pair(hi: u8, lo: u8) -> u8 {
    (16 * hex_value(hi).unwrap() + hex_value(lo).unwrap()) as u8
}

/// The color that text spells as `#RRGGBB`: exactly seven bytes, a `#` and
/// six hexadecimal digits of either case.
pub open spec fn parse_hex_color(s: Seq<u8>) -> Option<Rgb> {
    if s.len() == 7 && s[0] == 0x23 && (forall|i: int| 1 <= i < 7 ==> (#[trigger] hex_value(s[i])) is Some) {
        Some(Rgb { red: hex_pair(s[1], s[2]), green: hex_pair(s[3], s[4]), blue: hex_pair(s[5], s[6]) })
    } else {
        None
    }
}

/// The upper-case hexadecimal digit of a value below sixteen.
pub open spec fn hex_char(v: int) -> char {
    if v < 10 {
        (0x30 + v) as char
    } else {
        (0x41 + v - 10) as char
    }
}

/// The `#RRGGBB` text of a color, with upper-case digits.
pub open spec fn hex_text(c: Rgb) -> Seq<char> {
    seq![
        '#',
        hex_char(c.red as int / 16),
        hex_char(c.red as int % 16),
        hex_char(c.green as int / 16),
        hex_char(c.green as int % 16),
        hex_char(c.blue as int / 16),
        hex_char(c.blue as int % 16),
    ]
}

/// Text that is not a `#RRGGBB` color.
#[derive(Debug, Clone, PartialEq, Eq)]
pub struct ColorParseError(pub String);

impl ColorParseError {
    /// The message shown for the error.
    pub fn message(&self) -> (m: String)
        ensures
            m@ == "color must use exactly #RRGGBB, got `"@ + self.0@ + "`"@,
    {
        let mut m = String::from_str("color must use exactly #RRGGBB, got `");
        m.append(self.0.as_str());
        m.append("`");
        m
    }
}

/// The value of a hexadecimal digit byte.
fn hex_digit(b: u8) -> (r: Option<u8>)
    ensures
        r == hex_value(b),
        r matches Some(v) ==> v < 16,
{
    if 0x30 <= b && b <= 0x39 {
        Some(b - 0x30)
    } else if 0x41 <= b && b <= 0x46 {
        Some(b - 0x41 + 10)
    } else if 0x61 <= b && b <= 0x66 {
        Some(b - 0x61 + 10)
    } else {
        None
    }
}

/// The text of a digit below sixteen.
pub(crate) fn digit_text(v: u8) -> (s: &'static str)
    requires
        v < 16,
    ensures
        s@ == seq![hex_char(v as int)],
{
    match v {
        0 => { proof { reveal_strlit("0"); } "0" },
        1 => { proof { reveal_strlit("1"); } "1" },
        2 => { proof { reveal_strlit("2"); } "2" },
        3 => { proof { reveal_strlit("3"); } "3" },
        4 => { proof { reveal_strlit("4"); } "4" },
        5 => { proof { reveal_strlit("5"); } "5" },
        6 => { proof { reveal_strlit("6"); } "6" },
        7 => { proof { reveal_strlit("7"); } "7" },
        8 => { proof { reveal_strlit("8"); } "8" },
        9 => { proof { reveal_strlit("9"); } "9" },
        10 => { proof { reveal_strlit("A"); } "A" },
        11 => { proof { reveal_strlit("B"); } "B" },
        12 => { proof { reveal_strlit("C"); } "C" },
        13 => { proof { reveal_strlit("D"); } "D" },
        14 => { proof { reveal_strlit("E"); } "E" },
        _ => { proof { reveal_strlit("F"); } "F" },
    }
}

impl Rgb {
    /// The color with these channels.
    pub fn new(red: u8, green: u8, blue: u8) -> (c: Rgb)
        ensures
            c == (Rgb { red, green, blue }),
    {
        Rgb { red, green, blue }
    }

    /// The color as `#RRGGBB` text with upper-case digits.
    pub fn to_string(&self) -> (s: String)
        ensures
            s@ == hex_text(*self),
    {
        let mut s = String::from_str("#");
        s.append(digit_text(self.red / 16));
        s.append(digit_text(self.red % 16));
        s.append(digit_text(self.green / 16));
        s.append(digit_text(self.green % 16));
        s.append(digit_text(self.blue / 16));
        s.append(digit_text(self.blue % 16));
        proof {
            reveal_strlit("#");
            assert(s@ =~= hex_text(*self));
        }
        s
    }

    /// Reads a color written exactly as `#RRGGBB`, digits of either case.
    pub fn parse(value: &str) -> (r: Result<Rgb, ColorParseError>)
        ensures
            match r {
                Ok(c) => parse_hex_color(value.spec_bytes()) == Some(c),
                Err(e) => parse_hex_color(value.spec_bytes()) is None && e.0@ == value@,
            },
    {
        let b = value.as_bytes();
        if b.len() != 7 || b[0] != 0x23 {
            return Err(ColorParseError(value.to_owned()));
        }
        let d1 = hex_digit(b[1]);
        let d2 = hex_digit(b[2]);
        let d3 = hex_digit(b[3]);
        let d4 = hex_digit(b[4]);
        let d5 = hex_digit(b[5]);
        let d6 = hex_digit(b[6]);
        match (d1, d2, d3, d4, d5, d6) {
            (Some(a1), Some(a2), Some(a3), Some(a4), Some(a5), Some(a6)) => {
                let c = Rgb { red: a1 * 16 + a2, green: a3 * 16 + a4, blue: a5 * 16 + a6 };
                proof {
                    assert forall|i: int| 1 <= i < 7 implies (#[trigger] hex_value(b@[i])) is Some by {
                        if i == 1 {} else if i == 2 {} else if i == 3 {} else if i == 4 {} else if i == 5 {} else {}
                    }
                }
                Ok(c)
            },
            _ => {
                proof {
                    if d1 is None { assert(hex_value(b@[1]) is None); }
                    else if d2 is None { assert(hex_value(b@[2]) is None); }
                    else if d3 is None { assert(hex_value(b@[3]) is None); }
                    else if d4 is None { assert(hex_value(b@[4]) is None); }
                    else if d5 is None { assert(hex_value(b@[5]) is None); }
                    else { assert(hex_value(b@[6]) is None); }
                }
                Err(ColorParseError(value.to_owned()))
            },
        }
    }
}

impl core::str::FromStr for Rgb {
    type Err = ColorParseError;

    fn from_str(value: &str) -> (r: Result<Rgb, ColorParseError>)
        ensures
            match r {
                Ok(c) => parse_hex_color(value.spec_bytes()) == Some(c),
                Err(e) => parse_hex_color(value.spec_bytes()) is None && e.0@ == value@,
            },
    {
        Rgb::parse(value)
    }
}

/// A digit's character is an ASCII byte that reads back as the digit.
proof fn lemma_hex_char(v: int)
    requires
        0 <= v < 16,
    ensures
        '\0' <= hex_char(v) <= '\u{7f}',
        hex_value(hex_char(v) as u8) == Some(v as u8),
{
}

/// The `#RRGGBB` text of a color reads back as the same color: since
/// `Rgb::to_string` writes `hex_text` and `Rgb::parse` and `from_str` give
/// `Ok(c)` exactly when `parse_hex_color` of the text's bytes is `Some(c)`,
/// parsing the text of `to_string` gives the color back.
pub proof fn lemma_hex_round_trip(c: Rgb)
    ensures
        parse_hex_color(encode_utf8(hex_text(c))) == Some(c),
{
    let t = hex_text(c);
    lemma_hex_char(c.red as int / 16);
    lemma_hex_char(c.red as int % 16);
    lemma_hex_char(c.green as int / 16);
    lemma_hex_char(c.green as int % 16);
    lemma_hex_char(c.blue as int / 16);
    lemma_hex_char(c.blue as int % 16);
    assert(is_ascii_chars(t));
    is_ascii_chars_encode_utf8(t);
    let b = encode_utf8(t);
    assert(b[0] == 0x23u8);
    assert forall|i: int| 1 <= i < 7 implies (#[trigger] hex_value(b[i])) is Some by {
        assert(b[i] == t[i] as u8);
    }
    assert(b[1] == t[1] as u8);
    assert(b[2] == t[2] as u8);
    assert(b[3] == t[3] as u8);
    assert(b[4] == t[4] as u8);
    assert(b[5] == t[5] as u8);
    assert(b[6] == t[6] as u8);
}


/// The only appearance themes may have.
#[derive(Debug, Clone, Copy, PartialEq, Eq, Structural)]
pub enum Appearance {
    Dark,
}

/// The colors of the interface.
#[derive(Debug, Clone, Copy, PartialEq, Eq, Structural)]
pub struct UiColors {
    pub background: Rgb,
    pub foreground: Rgb,
    pub panel: Rgb,
    pub border: Rgb,
    pub focused_border: Rgb,
    pub selection: Rgb,
    pub selection_foreground: Rgb,
    pub muted: Rgb,
    pub accent: Rgb,
    pub warning: Rgb,
    pub error: Rgb,
    pub info: Rgb,
    pub search_match: Rgb,
    pub search_match_foreground: Rgb,
}

/// The colors of diff lines.
#[derive(Debug, Clone, Copy, PartialEq, Eq, Structural)]
pub struct DiffColors {
    pub header: Rgb,
    pub hunk_header: Rgb,
    pub gutter: Rgb,
    pub line_number: Rgb,
    pub addition: Rgb,
    pub deletion: Rgb,
    pub context: Rgb,
    pub metadata: Rgb,
    pub addition_background: Rgb,
    pub deletion_background: Rgb,
    pub selected_background: Rgb,
}

/// The colors of highlighted code.
#[derive(Debug, Clone, Copy, PartialEq, Eq, Structural)]
pub struct SyntaxColors {
    pub comment: Rgb,
    pub keyword: Rgb,
    pub string: Rgb,
    pub number: Rgb,
    pub function: Rgb,
    pub type_: Rgb,
    pub variable: Rgb,
    pub constant: Rgb,
    pub operator: Rgb,
    pub punctuation: Rgb,
    pub property: Rgb,
    pub tag: Rgb,
    pub attribute: Rgb,
    pub invalid: Rgb,
}

/// The palette names that the interface colors refer to.
#[derive(Debug, Clone, PartialEq, Eq)]
pub struct UiRefs {
    pub background: String,
    pub foreground: String,
    pub panel: String,
    pub border: String,
    pub focused_border: String,
    pub selection: String,
    pub selection_foreground: String,
    pub muted: String,
    pub accent: String,
    pub warning: String,
    pub error: String,
    pub info: String,
    pub search_match: String,
    pub search_match_foreground: String,
}

/// The palette names that the diff colors refer to.
#[derive(Debug, Clone, PartialEq, Eq)]
pub struct DiffRefs {
    pub header: String,
    pub hunk_header: String,
    pub gutter: String,
    pub line_number: String,
    pub addition: String,
    pub deletion: String,
    pub context: String,
    pub metadata: String,
    pub addition_background: String,
    pub deletion_background: String,
    pub selected_background: String,
}

/// The palette names that the code colors refer to.
#[derive(Debug, Clone, PartialEq, Eq)]
pub struct SyntaxRefs {
    pub comment: String,
    pub keyword: String,
    pub string: String,
    pub number: String,
    pub function: String,
    pub type_: String,
    pub variable: String,
    pub constant: String,
    pub operator: String,
    pub punctuation: String,
    pub property: String,
    pub tag: String,
    pub attribute: String,
    pub invalid: String,
}

/// A theme: its name and colors.
#[derive(Debug, PartialEq, Eq)]
pub struct Theme {
    pub name: String,
    pub appearance: Appearance,
    pub ui: UiColors,
    pub diff: DiffColors,
    pub syntax: SyntaxColors,
}

impl Clone for Theme {
    fn clone(&self) -> (t: Theme)
        ensures
            t.name@ == self.name@,
            t.appearance == self.appearance,
            t.ui == self.ui,
            t.diff == self.diff,
            t.syntax == self.syntax,
    {
        Theme { name: self.name.clone(), appearance: self.appearance, ui: self.ui, diff: self.diff, syntax: self.syntax }
    }
}

/// What a theme file says, field by field: a name, an appearance, a palette
/// of named `#RRGGBB` colors in name order (each name once: see
/// `palette_keyed`), and for each color of the theme the palette name it
/// takes.
#[derive(Debug, Clone, PartialEq, Eq)]
pub struct ThemeSource {
    pub name: String,
    pub appearance: String,
    pub palette: Vec<(String, String)>,
    pub ui: UiRefs,
    pub diff: DiffRefs,
    pub syntax: SyntaxRefs,
}

/// Why a theme source makes no theme.
#[derive(Debug, Clone, PartialEq, Eq)]
pub enum ThemeError {
    /// The appearance is not `dark`.
    UnsupportedAppearance(String),
    /// The name is empty or only white space.
    EmptyName,
    /// A palette entry is not a `#RRGGBB` color.
    InvalidPaletteColor { name: String, value: String },
    /// A color refers to a name the palette lacks.
    UnknownPaletteReference { section: &'static str, semantic: &'static str, reference: String },
}

/// A theme error with its texts as character sequences.
pub enum ThemeErrorView {
    UnsupportedAppearance(Seq<char>),
    EmptyName,
    InvalidPaletteColor { name: Seq<char>, value: Seq<char> },
    UnknownPaletteReference { section: Seq<char>, semantic: Seq<char>, reference: Seq<char> },
}

impl View for ThemeError {
    type V = ThemeErrorView;

    open spec fn view(&self) -> ThemeErrorView {
        match self {
            ThemeError::UnsupportedAppearance(a) => ThemeErrorView::UnsupportedAppearance(a@),
            ThemeError::EmptyName => ThemeErrorView::EmptyName,
            ThemeError::InvalidPaletteColor { name, value } => ThemeErrorView::InvalidPaletteColor { name: name@, value: value@ },
            ThemeError::UnknownPaletteReference { section, semantic, reference } => ThemeErrorView::UnknownPaletteReference {
                section: section@,
                semantic: semantic@,
                reference: reference@,
            },
        }
    }
}

impl ThemeError {
    /// The message shown for the error.
    pub fn message(&self) -> (m: String)
        ensures
            m@ == match self@ {
                ThemeErrorView::UnsupportedAppearance(a) => "theme appearance must be `dark`; `"@ + a + "` themes are not supported"@,
                ThemeErrorView::EmptyName => "theme name must not be empty"@,
                ThemeErrorView::InvalidPaletteColor { name, value } => "palette color `"@ + name + "` must use #RRGGBB, got `"@ + value + "`"@,
                ThemeErrorView::UnknownPaletteReference { section, semantic, reference } => section + "."@ + semantic
                    + " references missing palette color `"@ + reference
                    + "`; add it to [palette] or correct the reference"@,
            },
    {
        match self {
            ThemeError::UnsupportedAppearance(a) => {
                let mut m = String::from_str("theme appearance must be `dark`; `");
                m.append(a.as_str());
                m.append("` themes are not supported");
                m
            },
            ThemeError::EmptyName => String::from_str("theme name must not be empty"),
            ThemeError::InvalidPaletteColor { name, value } => {
                let mut m = String::from_str("palette color `");
                m.append(name.as_str());
                m.append("` must use #RRGGBB, got `");
                m.append(value.as_str());
                m.append("`");
                m
            },
            ThemeError::UnknownPaletteReference { section, semantic, reference } => {
                let mut m = String::from_str(section);
                m.append(".");
                m.append(semantic);
                m.append(" references missing palette color `");
                m.append(reference.as_str());
                m.append("`; add it to [palette] or correct the reference");
                m
            },
        }
    }
}

/// Whether a character has the Unicode `White_Space` property.
pub open spec fn is_unicode_whitespace(c: char) -> bool {
    ||| '\t' <= c <= '\r'
    ||| c == ' '
    ||| c == '\u{85}'
    ||| c == '\u{a0}'
    ||| c == '\u{1680}'
    ||| '\u{2000}' <= c <= '\u{200a}'
    ||| c == '\u{2028}'
    ||| c == '\u{2029}'
    ||| c == '\u{202f}'
    ||| c == '\u{205f}'
    ||| c == '\u{3000}'
}

/// Whether text is empty once white space is trimmed from both ends: every
/// character is white space.
pub open spec fn is_blank(s: Seq<char>) -> bool {
    forall|i: int| 0 <= i < s.len() ==> is_unicode_whitespace(#[trigger] s[i])
}

/// Whether a character has the Unicode `White_Space` property.
fn whitespace(c: char) -> (r: bool)
    ensures
        r == is_unicode_whitespace(c),
{
    ('\t' <= c && c <= '\r') || c == ' ' || c == '\u{85}' || c == '\u{a0}' || c == '\u{1680}'
        || ('\u{2000}' <= c && c <= '\u{200a}') || c == '\u{2028}' || c == '\u{2029}'
        || c == '\u{202f}' || c == '\u{205f}' || c == '\u{3000}'
}

/// Whether a name is empty once trimmed of white space.
pub fn name_is_blank(name: &str) -> (r: bool)
    ensures
        r == is_blank(name@),
{
    let n = name.unicode_len();
    let mut i: usize = 0;
    while i < n
        invariant
            n == name@.len(),
            i <= n,
            forall|k: int| 0 <= k < i ==> is_unicode_whitespace(#[trigger] name@[k]),
        decreases n - i,
    {
        if !whitespace(name.get_char(i)) {
            return false;
        }
        i = i + 1;
    }
    true
}

/// The palette entries as pairs of character sequences.
pub open spec fn entry_views(p: Seq<(String, String)>) -> Seq<(Seq<char>, Seq<char>)> {
    p.map_values(|e: (String, String)| (e.0@, e.1@))
}

/// The palette with every value read as a color, or the index of the first
/// entry whose value is not a color.
pub open spec fn parsed_palette(e: Seq<(Seq<char>, Seq<char>)>) -> Result<Seq<(Seq<char>, Rgb)>, int>
    decreases e.len(),
{
    if e.len() == 0 {
        Ok(Seq::empty())
    } else {
        match parsed_palette(e.drop_last()) {
            Err(k) => Err(k),
            Ok(rest) => match parse_hex_color(encode_utf8(e.last().1)) {
                None => Err(e.len() - 1),
                Some(c) => Ok(rest.push((e.last().0, c))),
            },
        }
    }
}

/// The color of the first palette entry with the given name.
pub open spec fn palette_lookup(p: Seq<(Seq<char>, Rgb)>, name: Seq<char>) -> Option<Rgb>
    decreases p.len(),
{
    if p.len() == 0 {
        None
    } else if p[0].0 == name {
        Some(p[0].1)
    } else {
        palette_lookup(p.drop_first(), name)
    }
}

/// The colors that references resolve to, or the index of the first
/// reference the palette lacks.
pub open spec fn resolved(p: Seq<(Seq<char>, Rgb)>, refs: Seq<(Seq<char>, Seq<char>, Seq<char>)>) -> Result<Seq<Rgb>, int>
    decreases refs.len(),
{
    if refs.len() == 0 {
        Ok(Seq::empty())
    } else {
        match resolved(p, refs.drop_last()) {
            Err(k) => Err(k),
            Ok(rest) => match palette_lookup(p, refs.last().2) {
                None => Err(refs.len() - 1),
                Some(c) => Ok(rest.push(c)),
            },
        }
    }
}

/// Each color of a theme as its section, its name, and the palette name it
/// takes, in the order they are resolved.
pub open spec fn theme_refs(src: ThemeSource) -> Seq<(Seq<char>, Seq<char>, Seq<char>)> {
    seq![
        ("ui"@, "background"@, src.ui.background@),
        ("ui"@, "foreground"@, src.ui.foreground@),
        ("ui"@, "panel"@, src.ui.panel@),
        ("ui"@, "border"@, src.ui.border@),
        ("ui"@, "focused_border"@, src.ui.focused_border@),
        ("ui"@, "selection"@, src.ui.selection@),
        ("ui"@, "selection_foreground"@, src.ui.selection_foreground@),
        ("ui"@, "muted"@, src.ui.muted@),
        ("ui"@, "accent"@, src.ui.accent@),
        ("ui"@, "warning"@, src.ui.warning@),
        ("ui"@, "error"@, src.ui.error@),
        ("ui"@, "info"@, src.ui.info@),
        ("ui"@, "search_match"@, src.ui.search_match@),
        ("ui"@, "search_match_foreground"@, src.ui.search_match_foreground@),
        ("diff"@, "header"@, src.diff.header@),
        ("diff"@, "hunk_header"@, src.diff.hunk_header@),
        ("diff"@, "gutter"@, src.diff.gutter@),
        ("diff"@, "line_number"@, src.diff.line_number@),
        ("diff"@, "addition"@, src.diff.addition@),
        ("diff"@, "deletion"@, src.diff.deletion@),
        ("diff"@, "context"@, src.diff.context@),
        ("diff"@, "metadata"@, src.diff.metadata@),
        ("diff"@, "addition_background"@, src.diff.addition_background@),
        ("diff"@, "deletion_background"@, src.diff.deletion_background@),
        ("diff"@, "selected_background"@, src.diff.selected_background@),
        ("syntax"@, "comment"@, src.syntax.comment@),
        ("syntax"@, "keyword"@, src.syntax.keyword@),
        ("syntax"@, "string"@, src.syntax.string@),
        ("syntax"@, "number"@, src.syntax.number@),
        ("syntax"@, "function"@, src.syntax.function@),
        ("syntax"@, "r#type"@, src.syntax.type_@),
        ("syntax"@, "variable"@, src.syntax.variable@),
        ("syntax"@, "constant"@, src.syntax.constant@),
        ("syntax"@, "operator"@, src.syntax.operator@),
        ("syntax"@, "punctuation"@, src.syntax.punctuation@),
        ("syntax"@, "property"@, src.syntax.property@),
        ("syntax"@, "tag"@, src.syntax.tag@),
        ("syntax"@, "attribute"@, src.syntax.attribute@),
        ("syntax"@, "invalid"@, src.syntax.invalid@),
    ]
}

/// The ui colors among the resolved colors.
pub open spec fn ui_of(cs: Seq<Rgb>) -> UiColors {
    UiColors {
        background: cs[0],
        foreground: cs[1],
        panel: cs[2],
        border: cs[3],
        focused_border: cs[4],
        selection: cs[5],
        selection_foreground: cs[6],
        muted: cs[7],
        accent: cs[8],
        warning: cs[9],
        error: cs[10],
        info: cs[11],
        search_match: cs[12],
        search_match_foreground: cs[13],
    }
}

/// The diff colors among the resolved colors.
pub open spec fn diff_of(cs: Seq<Rgb>) -> DiffColors {
    DiffColors {
        header: cs[14],
        hunk_header: cs[15],
        gutter: cs[16],
        line_number: cs[17],
        addition: cs[18],
        deletion: cs[19],
        context: cs[20],
        metadata: cs[21],
        addition_background: cs[22],
        deletion_background: cs[23],
        selected_background: cs[24],
    }
}

/// The syntax colors among the resolved colors.
pub open spec fn syntax_of(cs: Seq<Rgb>) -> SyntaxColors {
    SyntaxColors {
        comment: cs[25],
        keyword: cs[26],
        string: cs[27],
        number: cs[28],
        function: cs[29],
        type_: cs[30],
        variable: cs[31],
        constant: cs[32],
        operator: cs[33],
        punctuation: cs[34],
        property: cs[35],
        tag: cs[36],
        attribute: cs[37],
        invalid: cs[38],
    }
}

/// Whether palette entries come in strictly increasing order of their names'
/// bytes, as the entries of a map keyed by name do: no name occurs twice.
pub open spec fn palette_keyed(entries: Seq<(String, String)>) -> bool {
    forall|i: int, j: int|
        0 <= i < j < entries.len() ==> bytes_order(encode_utf8((#[trigger] entries[i]).0@), encode_utf8((#[trigger] entries[j]).0@)) < 0
}

/// What a theme source makes: the resolved colors, or why there is no
/// theme. The appearance must be `dark`, the name must not be blank, every
/// palette value must be a color (the first bad entry in order is reported),
/// and every reference must name a palette entry (the first missing one is
/// reported).
pub open spec fn theme_outcome(src: ThemeSource) -> Result<Seq<Rgb>, ThemeErrorView> {
    let entries = entry_views(src.palette@);
    if src.appearance@ != "dark"@ {
        Err(ThemeErrorView::UnsupportedAppearance(src.appearance@))
    } else if is_blank(src.name@) {
        Err(ThemeErrorView::EmptyName)
    } else {
        match parsed_palette(entries) {
            Err(k) => Err(ThemeErrorView::InvalidPaletteColor { name: entries[k].0, value: entries[k].1 }),
            Ok(p) => match resolved(p, theme_refs(src)) {
                Err(k) => Err(
                    ThemeErrorView::UnknownPaletteReference {
                        section: theme_refs(src)[k].0,
                        semantic: theme_refs(src)[k].1,
                        reference: theme_refs(src)[k].2,
                    },
                ),
                Ok(cs) => Ok(cs),
            },
        }
    }
}

/// The color a source's palette gives a name: that of the first entry of
/// the name, when every palette value is a color.
pub open spec fn source_color(src: ThemeSource, name: Seq<char>) -> Option<Rgb> {
    match parsed_palette(entry_views(src.palette@)) {
        Ok(p) => palette_lookup(p, name),
        Err(_) => None,
    }
}

/// Whether every color of a theme is the palette color that the source's
/// reference of the same section and name names.
pub open spec fn colors_from_palette(t: Theme, src: ThemeSource) -> bool {
    &&& Some(t.ui.background) == source_color(src, src.ui.background@)
    &&& Some(t.ui.foreground) == source_color(src, src.ui.foreground@)
    &&& Some(t.ui.panel) == source_color(src, src.ui.panel@)
    &&& Some(t.ui.border) == source_color(src, src.ui.border@)
    &&& Some(t.ui.focused_border) == source_color(src, src.ui.focused_border@)
    &&& Some(t.ui.selection) == source_color(src, src.ui.selection@)
    &&& Some(t.ui.selection_foreground) == source_color(src, src.ui.selection_foreground@)
    &&& Some(t.ui.muted) == source_color(src, src.ui.muted@)
    &&& Some(t.ui.accent) == source_color(src, src.ui.accent@)
    &&& Some(t.ui.warning) == source_color(src, src.ui.warning@)
    &&& Some(t.ui.error) == source_color(src, src.ui.error@)
    &&& Some(t.ui.info) == source_color(src, src.ui.info@)
    &&& Some(t.ui.search_match) == source_color(src, src.ui.search_match@)
    &&& Some(t.ui.search_match_foreground) == source_color(src, src.ui.search_match_foreground@)
    &&& Some(t.diff.header) == source_color(src, src.diff.header@)
    &&& Some(t.diff.hunk_header) == source_color(src, src.diff.hunk_header@)
    &&& Some(t.diff.gutter) == source_color(src, src.diff.gutter@)
    &&& Some(t.diff.line_number) == source_color(src, src.diff.line_number@)
    &&& Some(t.diff.addition) == source_color(src, src.diff.addition@)
    &&& Some(t.diff.deletion) == source_color(src, src.diff.deletion@)
    &&& Some(t.diff.context) == source_color(src, src.diff.context@)
    &&& Some(t.diff.metadata) == source_color(src, src.diff.metadata@)
    &&& Some(t.diff.addition_background) == source_color(src, src.diff.addition_background@)
    &&& Some(t.diff.deletion_background) == source_color(src, src.diff.deletion_background@)
    &&& Some(t.diff.selected_background) == source_color(src, src.diff.selected_background@)
    &&& Some(t.syntax.comment) == source_color(src, src.syntax.comment@)
    &&& Some(t.syntax.keyword) == source_color(src, src.syntax.keyword@)
    &&& Some(t.syntax.string) == source_color(src, src.syntax.string@)
    &&& Some(t.syntax.number) == source_color(src, src.syntax.number@)
    &&& Some(t.syntax.function) == source_color(src, src.syntax.function@)
    &&& Some(t.syntax.type_) == source_color(src, src.syntax.type_@)
    &&& Some(t.syntax.variable) == source_color(src, src.syntax.variable@)
    &&& Some(t.syntax.constant) == source_color(src, src.syntax.constant@)
    &&& Some(t.syntax.operator) == source_color(src, src.syntax.operator@)
    &&& Some(t.syntax.punctuation) == source_color(src, src.syntax.punctuation@)
    &&& Some(t.syntax.property) == source_color(src, src.syntax.property@)
    &&& Some(t.syntax.tag) == source_color(src, src.syntax.tag@)
    &&& Some(t.syntax.attribute) == source_color(src, src.syntax.attribute@)
    &&& Some(t.syntax.invalid) == source_color(src, src.syntax.invalid@)
}

/// Resolved references take, each in its place, the palette color of the
/// name they give.
proof fn lemma_resolved_lookup(p: Seq<(Seq<char>, Rgb)>, refs: Seq<(Seq<char>, Seq<char>, Seq<char>)>)
    requires
        resolved(p, refs) is Ok,
    ensures
        resolved(p, refs)->Ok_0.len() == refs.len(),
        forall|k: int| 0 <= k < refs.len() ==> palette_lookup(p, #[trigger] refs[k].2) == Some(resolved(p, refs)->Ok_0[k]),
    decreases refs.len(),
{
    if refs.len() > 0 {
        let rest = refs.drop_last();
        lemma_resolved_lookup(p, rest);
        assert forall|k: int| 0 <= k < refs.len() implies palette_lookup(p, #[trigger] refs[k].2) == Some(
            resolved(p, refs)->Ok_0[k],
        ) by {
            if k < refs.len() - 1 {
                assert(refs[k] == rest[k]);
            }
        }
    }
}

/// A theme made from a source takes each color from the palette by the
/// source's reference of the same name.
proof fn lemma_made_from_palette(t: Theme, src: ThemeSource)
    requires
        theme_outcome(src) is Ok,
        made_from(t, src, theme_outcome(src)->Ok_0),
    ensures
        colors_from_palette(t, src),
{
    let cs = theme_outcome(src)->Ok_0;
    let entries = entry_views(src.palette@);
    let p = parsed_palette(entries)->Ok_0;
    let refs = theme_refs(src);
    lemma_resolved_lookup(p, refs);
    assert(palette_lookup(p, refs[0].2) == Some(cs[0]));
    assert(palette_lookup(p, refs[1].2) == Some(cs[1]));
    assert(palette_lookup(p, refs[2].2) == Some(cs[2]));
    assert(palette_lookup(p, refs[3].2) == Some(cs[3]));
    assert(palette_lookup(p, refs[4].2) == Some(cs[4]));
    assert(palette_lookup(p, refs[5].2) == Some(cs[5]));
    assert(palette_lookup(p, refs[6].2) == Some(cs[6]));
    assert(palette_lookup(p, refs[7].2) == Some(cs[7]));
    assert(palette_lookup(p, refs[8].2) == Some(cs[8]));
    assert(palette_lookup(p, refs[9].2) == Some(cs[9]));
    assert(palette_lookup(p, refs[10].2) == Some(cs[10]));
    assert(palette_lookup(p, refs[11].2) == Some(cs[11]));
    assert(palette_lookup(p, refs[12].2) == Some(cs[12]));
    assert(palette_lookup(p, refs[13].2) == Some(cs[13]));
    assert(palette_lookup(p, refs[14].2) == Some(cs[14]));
    assert(palette_lookup(p, refs[15].2) == Some(cs[15]));
    assert(palette_lookup(p, refs[16].2) == Some(cs[16]));
    assert(palette_lookup(p, refs[17].2) == Some(cs[17]));
    assert(palette_lookup(p, refs[18].2) == Some(cs[18]));
    assert(palette_lookup(p, refs[19].2) == Some(cs[19]));
    assert(palette_lookup(p, refs[20].2) == Some(cs[20]));
    assert(palette_lookup(p, refs[21].2) == Some(cs[21]));
    assert(palette_lookup(p, refs[22].2) == Some(cs[22]));
    assert(palette_lookup(p, refs[23].2) == Some(cs[23]));
    assert(palette_lookup(p, refs[24].2) == Some(cs[24]));
    assert(palette_lookup(p, refs[25].2) == Some(cs[25]));
    assert(palette_lookup(p, refs[26].2) == Some(cs[26]));
    assert(palette_lookup(p, refs[27].2) == Some(cs[27]));
    assert(palette_lookup(p, refs[28].2) == Some(cs[28]));
    assert(palette_lookup(p, refs[29].2) == Some(cs[29]));
    assert(palette_lookup(p, refs[30].2) == Some(cs[30]));
    assert(palette_lookup(p, refs[31].2) == Some(cs[31]));
    assert(palette_lookup(p, refs[32].2) == Some(cs[32]));
    assert(palette_lookup(p, refs[33].2) == Some(cs[33]));
    assert(palette_lookup(p, refs[34].2) == Some(cs[34]));
    assert(palette_lookup(p, refs[35].2) == Some(cs[35]));
    assert(palette_lookup(p, refs[36].2) == Some(cs[36]));
    assert(palette_lookup(p, refs[37].2) == Some(cs[37]));
    assert(palette_lookup(p, refs[38].2) == Some(cs[38]));
}

/// Whether a theme is the one a source makes.
pub open spec fn made_from(t: Theme, src: ThemeSource, cs: Seq<Rgb>) -> bool {
    &&& t.name@ == src.name@
    &&& t.appearance == Appearance::Dark
    &&& t.ui == ui_of(cs)
    &&& t.diff == diff_of(cs)
    &&& t.syntax == syntax_of(cs)
}


/// A palette error at an entry stays the first one for every longer prefix.
proof fn lemma_palette_error_extends(e: Seq<(Seq<char>, Seq<char>)>, n: int, k: int)
    requires
        0 <= n <= e.len(),
        parsed_palette(e.take(n)) == Err::<Seq<(Seq<char>, Rgb)>, int>(k),
    ensures
        parsed_palette(e) == Err::<Seq<(Seq<char>, Rgb)>, int>(k),
    decreases e.len() - n,
{
    if n < e.len() {
        assert(e.take(n + 1).drop_last() =~= e.take(n));
        lemma_palette_error_extends(e, n + 1, k);
    } else {
        assert(e.take(n) =~= e);
    }
}

/// An unresolved reference stays the first one for every longer prefix.
proof fn lemma_resolve_error_extends(p: Seq<(Seq<char>, Rgb)>, refs: Seq<(Seq<char>, Seq<char>, Seq<char>)>, n: int, k: int)
    requires
        0 <= n <= refs.len(),
        resolved(p, refs.take(n)) == Err::<Seq<Rgb>, int>(k),
    ensures
        resolved(p, refs) == Err::<Seq<Rgb>, int>(k),
    decreases refs.len() - n,
{
    if n < refs.len() {
        assert(refs.take(n + 1).drop_last() =~= refs.take(n));
        lemma_resolve_error_extends(p, refs, n + 1, k);
    } else {
        assert(refs.take(n) =~= refs);
    }
}

/// The view of a palette after reading its colors.
pub open spec fn color_entry_views(p: Seq<(String, Rgb)>) -> Seq<(Seq<char>, Rgb)> {
    p.map_values(|e: (String, Rgb)| (e.0@, e.1))
}

/// Reads every palette value as a color, in order.
fn parse_palette(entries: &Vec<(String, String)>) -> (r: Result<Vec<(String, Rgb)>, ThemeError>)
    ensures
        match (r, parsed_palette(entry_views(entries@))) {
            (Ok(p), Ok(q)) => color_entry_views(p@) == q,
            (Err(e), Err(k)) => e@ == (ThemeErrorView::InvalidPaletteColor {
                name: entry_views(entries@)[k].0,
                value: entry_views(entries@)[k].1,
            }),
            _ => false,
        },
{
    let ghost e = entry_views(entries@);
    let mut out: Vec<(String, Rgb)> = Vec::new();
    let mut i: usize = 0;
    proof {
        assert(e.take(0) =~= Seq::<(Seq<char>, Seq<char>)>::empty());
        assert(color_entry_views(out@) =~= Seq::<(Seq<char>, Rgb)>::empty());
    }
    while i < entries.len()
        invariant
            i <= entries@.len(),
            e == entry_views(entries@),
            parsed_palette(e.take(i as int)) == Ok::<Seq<(Seq<char>, Rgb)>, int>(color_entry_views(out@)),
        decreases entries.len() - i,
    {
        proof {
            assert(e.take(i + 1).drop_last() =~= e.take(i as int));
            assert(e.take(i + 1).last() == e[i as int]);
        }
        let entry = &entries[i];
        match Rgb::parse(entry.1.as_str()) {
            Ok(c) => {
                let ghost prev = out@;
                out.push((entry.0.clone(), c));
                proof {
                    assert(color_entry_views(out@) =~= color_entry_views(prev).push((entry.0@, c)));
                }
            },
            Err(_) => {
                proof {
                    lemma_palette_error_extends(e, i + 1, i as int);
                }
                return Err(ThemeError::InvalidPaletteColor { name: entry.0.clone(), value: entry.1.clone() });
            },
        }
        i = i + 1;
    }
    proof {
        assert(e.take(e.len() as int) =~= e);
    }
    Ok(out)
}

/// The color of the first palette entry with the given name.
fn lookup(p: &Vec<(String, Rgb)>, name: &str) -> (r: Option<Rgb>)
    ensures
        r == palette_lookup(color_entry_views(p@), name@),
{
    let ghost v = color_entry_views(p@);
    let mut i: usize = 0;
    proof {
        assert(v.skip(0) =~= v);
    }
    while i < p.len()
        invariant
            i <= p@.len(),
            v == color_entry_views(p@),
            palette_lookup(v, name@) == palette_lookup(v.skip(i as int), name@),
        decreases p.len() - i,
    {
        proof {
            assert(v.skip(i as int).drop_first() =~= v.skip(i + 1));
            assert(v.skip(i as int)[0] == v[i as int]);
        }
        if crate::bytes::str_eq(p[i].0.as_str(), name) {
            return Some(p[i].1);
        }
        i = i + 1;
    }
    None
}

/// Resolving gives one color per reference.
proof fn lemma_resolved_len(p: Seq<(Seq<char>, Rgb)>, refs: Seq<(Seq<char>, Seq<char>, Seq<char>)>)
    ensures
        resolved(p, refs) matches Ok(cs) ==> cs.len() == refs.len(),
    decreases refs.len(),
{
    if refs.len() > 0 {
        lemma_resolved_len(p, refs.drop_last());
    }
}

/// The views of the references of a theme source.
pub open spec fn ref_views(r: Seq<(&'static str, &'static str, &String)>) -> Seq<(Seq<char>, Seq<char>, Seq<char>)> {
    r.map_values(|t: (&'static str, &'static str, &String)| (t.0@, t.1@, t.2@))
}

/// Resolves every reference against the palette, in order.
fn resolve_all(p: &Vec<(String, Rgb)>, refs: &Vec<(&'static str, &'static str, &String)>) -> (r: Result<Vec<Rgb>, ThemeError>)
    ensures
        match (r, resolved(color_entry_views(p@), ref_views(refs@))) {
            (Ok(cs), Ok(q)) => cs@ == q,
            (Err(e), Err(k)) => e@ == (ThemeErrorView::UnknownPaletteReference {
                section: ref_views(refs@)[k].0,
                semantic: ref_views(refs@)[k].1,
                reference: ref_views(refs@)[k].2,
            }),
            _ => false,
        },
{
    let ghost pv = color_entry_views(p@);
    let ghost rv = ref_views(refs@);
    let mut out: Vec<Rgb> = Vec::new();
    let mut i: usize = 0;
    proof {
        assert(rv.take(0) =~= Seq::<(Seq<char>, Seq<char>, Seq<char>)>::empty());
    }
    while i < refs.len()
        invariant
            i <= refs@.len(),
            pv == color_entry_views(p@),
            rv == ref_views(refs@),
            resolved(pv, rv.take(i as int)) == Ok::<Seq<Rgb>, int>(out@),
        decreases refs.len() - i,
    {
        proof {
            assert(rv.take(i + 1).drop_last() =~= rv.take(i as int));
            assert(rv.take(i + 1).last() == rv[i as int]);
        }
        let (section, semantic, reference) = refs[i];
        match lookup(p, reference.as_str()) {
            Some(c) => {
                out.push(c);
            },
            None => {
                proof {
                    lemma_resolve_error_extends(pv, rv, i + 1, i as int);
                }
                return Err(ThemeError::UnknownPaletteReference { section, semantic, reference: reference.clone() });
            },
        }
        i = i + 1;
    }
    proof {
        assert(rv.take(rv.len() as int) =~= rv);
    }
    Ok(out)
}

/// Each color of a theme source as its section, its name, and the palette
/// name it takes, in order.
fn references(src: &ThemeSource) -> (r: Vec<(&'static str, &'static str, &String)>)
    ensures
        ref_views(r@) == theme_refs(*src),
{
    let mut r: Vec<(&'static str, &'static str, &String)> = Vec::new();
    r.push(("ui", "background", &src.ui.background));
    r.push(("ui", "foreground", &src.ui.foreground));
    r.push(("ui", "panel", &src.ui.panel));
    r.push(("ui", "border", &src.ui.border));
    r.push(("ui", "focused_border", &src.ui.focused_border));
    r.push(("ui", "selection", &src.ui.selection));
    r.push(("ui", "selection_foreground", &src.ui.selection_foreground));
    r.push(("ui", "muted", &src.ui.muted));
    r.push(("ui", "accent", &src.ui.accent));
    r.push(("ui", "warning", &src.ui.warning));
    r.push(("ui", "error", &src.ui.error));
    r.push(("ui", "info", &src.ui.info));
    r.push(("ui", "search_match", &src.ui.search_match));
    r.push(("ui", "search_match_foreground", &src.ui.search_match_foreground));
    r.push(("diff", "header", &src.diff.header));
    r.push(("diff", "hunk_header", &src.diff.hunk_header));
    r.push(("diff", "gutter", &src.diff.gutter));
    r.push(("diff", "line_number", &src.diff.line_number));
    r.push(("diff", "addition", &src.diff.addition));
    r.push(("diff", "deletion", &src.diff.deletion));
    r.push(("diff", "context", &src.diff.context));
    r.push(("diff", "metadata", &src.diff.metadata));
    r.push(("diff", "addition_background", &src.diff.addition_background));
    r.push(("diff", "deletion_background", &src.diff.deletion_background));
    r.push(("diff", "selected_background", &src.diff.selected_background));
    r.push(("syntax", "comment", &src.syntax.comment));
    r.push(("syntax", "keyword", &src.syntax.keyword));
    r.push(("syntax", "string", &src.syntax.string));
    r.push(("syntax", "number", &src.syntax.number));
    r.push(("syntax", "function", &src.syntax.function));
    r.push(("syntax", "r#type", &src.syntax.type_));
    r.push(("syntax", "variable", &src.syntax.variable));
    r.push(("syntax", "constant", &src.syntax.constant));
    r.push(("syntax", "operator", &src.syntax.operator));
    r.push(("syntax", "punctuation", &src.syntax.punctuation));
    r.push(("syntax", "property", &src.syntax.property));
    r.push(("syntax", "tag", &src.syntax.tag));
    r.push(("syntax", "attribute", &src.syntax.attribute));
    r.push(("syntax", "invalid", &src.syntax.invalid));
    proof {
        assert(ref_views(r@) =~= theme_refs(*src));
    }
    r
}

impl Theme {
    /// The theme a source describes, or why it describes none. The contrast
    /// of the theme's text colors is not checked here.
    pub fn from_source(source: ThemeSource) -> (r: Result<Theme, ThemeError>)
        requires
            palette_keyed(source.palette@),
        ensures
            r matches Ok(t) ==> colors_from_palette(t, source),
            match (r, theme_outcome(source)) {
                (Ok(t), Ok(cs)) => made_from(t, source, cs),
                (Err(e), Err(v)) => e@ == v,
                _ => false,
            },
    {
        if !crate::bytes::str_eq(source.appearance.as_str(), "dark") {
            return Err(ThemeError::UnsupportedAppearance(source.appearance.clone()));
        }
        if name_is_blank(source.name.as_str()) {
            return Err(ThemeError::EmptyName);
        }
        let palette = match parse_palette(&source.palette) {
            Ok(p) => p,
            Err(e) => return Err(e),
        };
        let refs = references(&source);
        let cs = match resolve_all(&palette, &refs) {
            Ok(cs) => cs,
            Err(e) => return Err(e),
        };
        proof {
            lemma_resolved_len(color_entry_views(palette@), ref_views(refs@));
            assert(cs@.len() == 39);
        }
        let ui = UiColors {
            background: cs[0],
            foreground: cs[1],
            panel: cs[2],
            border: cs[3],
            focused_border: cs[4],
            selection: cs[5],
            selection_foreground: cs[6],
            muted: cs[7],
            accent: cs[8],
            warning: cs[9],
            error: cs[10],
            info: cs[11],
            search_match: cs[12],
            search_match_foreground: cs[13],
        };
        let diff = DiffColors {
            header: cs[14],
            hunk_header: cs[15],
            gutter: cs[16],
            line_number: cs[17],
            addition: cs[18],
            deletion: cs[19],
            context: cs[20],
            metadata: cs[21],
            addition_background: cs[22],
            deletion_background: cs[23],
            selected_background: cs[24],
        };
        let syntax = SyntaxColors {
            comment: cs[25],
            keyword: cs[26],
            string: cs[27],
            number: cs[28],
            function: cs[29],
            type_: cs[30],
            variable: cs[31],
            constant: cs[32],
            operator: cs[33],
            punctuation: cs[34],
            property: cs[35],
            tag: cs[36],
            attribute: cs[37],
            invalid: cs[38],
        };
        let t = Theme { name: source.name.clone(), appearance: Appearance::Dark, ui, diff, syntax };
        proof {
            lemma_made_from_palette(t, source);
        }
        Ok(t)
    }
}


/// A text color that must stand out from the color behind it.
#[derive(Debug, Clone, Copy)]
pub struct ContrastRequirement {
    pub foreground_name: &'static str,
    pub foreground: Rgb,
    pub background_name: &'static str,
    pub background: Rgb,
}

/// The pairs of text and background colors of a theme whose contrast is
/// checked, in the order they are checked.
pub open spec fn contrast_pairs(t: Theme) -> Seq<(Seq<char>, Rgb, Seq<char>, Rgb)> {
    seq![
        ("ui.foreground"@, t.ui.foreground, "ui.background"@, t.ui.background),
        ("ui.selection_foreground"@, t.ui.selection_foreground, "ui.selection"@, t.ui.selection),
        ("ui.search_match_foreground"@, t.ui.search_match_foreground, "ui.search_match"@, t.ui.search_match),
        ("ui.selection_foreground"@, t.ui.selection_foreground, "diff.selected_background"@, t.diff.selected_background),
        ("diff.context"@, t.diff.context, "ui.background"@, t.ui.background),
        ("diff.addition"@, t.diff.addition, "diff.addition_background"@, t.diff.addition_background),
        ("diff.deletion"@, t.diff.deletion, "diff.deletion_background"@, t.diff.deletion_background),
    ]
}

/// The views of contrast requirements.
pub open spec fn requirement_views(r: Seq<ContrastRequirement>) -> Seq<(Seq<char>, Rgb, Seq<char>, Rgb)> {
    r.map_values(|q: ContrastRequirement| (q.foreground_name@, q.foreground, q.background_name@, q.background))
}

/// A contrast requirement.
fn requirement(foreground_name: &'static str, foreground: Rgb, background_name: &'static str, background: Rgb) -> (r: ContrastRequirement)
    ensures
        r.foreground_name@ == foreground_name@,
        r.foreground == foreground,
        r.background_name@ == background_name@,
        r.background == background,
{
    ContrastRequirement { foreground_name, foreground, background_name, background }
}

impl Theme {
    /// The text colors whose contrast against their background must reach
    /// the minimum, in the order they are checked.
    pub fn contrast_requirements(&self) -> (r: Vec<ContrastRequirement>)
        ensures
            requirement_views(r@) == contrast_pairs(*self),
    {
        let mut r: Vec<ContrastRequirement> = Vec::new();
        r.push(requirement("ui.foreground", self.ui.foreground, "ui.background", self.ui.background));
        r.push(requirement("ui.selection_foreground", self.ui.selection_foreground, "ui.selection", self.ui.selection));
        r.push(requirement("ui.search_match_foreground", self.ui.search_match_foreground, "ui.search_match", self.ui.search_match));
        r.push(requirement("ui.selection_foreground", self.ui.selection_foreground, "diff.selected_background", self.diff.selected_background));
        r.push(requirement("diff.context", self.diff.context, "ui.background", self.ui.background));
        r.push(requirement("diff.addition", self.diff.addition, "diff.addition_background", self.diff.addition_background));
        r.push(requirement("diff.deletion", self.diff.deletion, "diff.deletion_background", self.diff.deletion_background));
        proof {
            assert(requirement_views(r@) =~= contrast_pairs(*self));
        }
        r
    }
}

/// A color by its channels.
pub open spec fn rgb(red: u8, green: u8, blue: u8) -> Rgb {
    Rgb { red, green, blue }
}

/// The interface colors of Night Owl.
pub open spec fn night_owl_ui() -> UiColors {
    UiColors {
        background: rgb(0x01, 0x16, 0x27),
        foreground: rgb(0xd6, 0xde, 0xeb),
        panel: rgb(0x0b, 0x25, 0x3a),
        border: rgb(0x5f, 0x7e, 0x97),
        focused_border: rgb(0x7f, 0xdb, 0xca),
        selection: rgb(0x1d, 0x3b, 0x53),
        selection_foreground: rgb(0xff, 0xff, 0xff),
        muted: rgb(0x63, 0x77, 0x77),
        accent: rgb(0x82, 0xaa, 0xff),
        warning: rgb(0xff, 0xcb, 0x8b),
        error: rgb(0xef, 0x53, 0x50),
        info: rgb(0x82, 0xaa, 0xff),
        search_match: rgb(0xec, 0xc4, 0x8d),
        search_match_foreground: rgb(0x01, 0x16, 0x27),
    }
}

/// The diff colors of Night Owl.
pub open spec fn night_owl_diff() -> DiffColors {
    DiffColors {
        header: rgb(0x82, 0xaa, 0xff),
        hunk_header: rgb(0xc7, 0x92, 0xea),
        gutter: rgb(0x0b, 0x25, 0x3a),
        line_number: rgb(0x4b, 0x64, 0x79),
        addition: rgb(0xad, 0xdb, 0x67),
        deletion: rgb(0xef, 0x53, 0x50),
        context: rgb(0xd6, 0xde, 0xeb),
        metadata: rgb(0x7f, 0xdb, 0xca),
        addition_background: rgb(0x01, 0x16, 0x27),
        deletion_background: rgb(0x01, 0x16, 0x27),
        selected_background: rgb(0x1d, 0x3b, 0x53),
    }
}

/// The syntax colors of Night Owl.
pub open spec fn night_owl_syntax() -> SyntaxColors {
    SyntaxColors {
        comment: rgb(0x63, 0x77, 0x77),
        keyword: rgb(0xc7, 0x92, 0xea),
        string: rgb(0xec, 0xc4, 0x8d),
        number: rgb(0xf7, 0x8c, 0x6c),
        function: rgb(0x82, 0xaa, 0xff),
        type_: rgb(0xff, 0xcb, 0x8b),
        variable: rgb(0xd6, 0xde, 0xeb),
        constant: rgb(0x82, 0xaa, 0xff),
        operator: rgb(0x7f, 0xdb, 0xca),
        punctuation: rgb(0xd6, 0xde, 0xeb),
        property: rgb(0xba, 0xeb, 0xe2),
        tag: rgb(0x7f, 0xdb, 0xca),
        attribute: rgb(0xad, 0xdb, 0x67),
        invalid: rgb(0xef, 0x53, 0x50),
    }
}

/// Whether a theme is the bundled Night Owl: its name, dark appearance and
/// every color.
pub open spec fn is_night_owl(t: Theme) -> bool {
    &&& t.name@ == DEFAULT_THEME_NAME@
    &&& t.appearance == Appearance::Dark
    &&& t.ui == night_owl_ui()
    &&& t.diff == night_owl_diff()
    &&& t.syntax == night_owl_syntax()
}

/// The bundled Night Owl theme.
fn night_owl() -> (t: Theme)
    ensures
        is_night_owl(t),
{
    let background = Rgb::new(0x01, 0x16, 0x27);
    let foreground = Rgb::new(0xd6, 0xde, 0xeb);
    let panel = Rgb::new(0x0b, 0x25, 0x3a);
    let border = Rgb::new(0x5f, 0x7e, 0x97);
    let blue = Rgb::new(0x82, 0xaa, 0xff);
    let cyan = Rgb::new(0x7f, 0xdb, 0xca);
    let selection = Rgb::new(0x1d, 0x3b, 0x53);
    let white = Rgb::new(0xff, 0xff, 0xff);
    let grey = Rgb::new(0x63, 0x77, 0x77);
    let yellow = Rgb::new(0xff, 0xcb, 0x8b);
    let red = Rgb::new(0xef, 0x53, 0x50);
    let sand = Rgb::new(0xec, 0xc4, 0x8d);
    let violet = Rgb::new(0xc7, 0x92, 0xea);
    let line_number = Rgb::new(0x4b, 0x64, 0x79);
    let green = Rgb::new(0xad, 0xdb, 0x67);
    let orange = Rgb::new(0xf7, 0x8c, 0x6c);
    let teal = Rgb::new(0xba, 0xeb, 0xe2);
    Theme {
        name: String::from_str(DEFAULT_THEME_NAME),
        appearance: Appearance::Dark,
        ui: UiColors {
            background,
            foreground,
            panel,
            border,
            focused_border: cyan,
            selection,
            selection_foreground: white,
            muted: grey,
            accent: blue,
            warning: yellow,
            error: red,
            info: blue,
            search_match: sand,
            search_match_foreground: background,
        },
        diff: DiffColors {
            header: blue,
            hunk_header: violet,
            gutter: panel,
            line_number,
            addition: green,
            deletion: red,
            context: foreground,
            metadata: cyan,
            addition_background: background,
            deletion_background: background,
            selected_background: selection,
        },
        syntax: SyntaxColors {
            comment: grey,
            keyword: violet,
            string: sand,
            number: orange,
            function: blue,
            type_: yellow,
            variable: foreground,
            constant: blue,
            operator: cyan,
            punctuation: foreground,
            property: teal,
            tag: cyan,
            attribute: green,
            invalid: red,
        },
    }
}

/// The themes that ship with the viewer: Night Owl, the default.
pub fn bundled_themes() -> (r: Vec<Theme>)
    ensures
        r@.len() == 1,
        is_night_owl(r@[0]),
        forall|i: int| 0 <= i < r@.len() ==> (#[trigger] r@[i]).appearance == Appearance::Dark,
{
    let mut r: Vec<Theme> = Vec::new();
    r.push(night_owl());
    r
}

/// A theme file that could not be used, or a note about the selection.
#[derive(Debug, Clone, PartialEq, Eq)]
pub struct ThemeDiagnostic {
    pub path: Option<Vec<u8>>,
    pub message: String,
}

/// The bytes by which themes are ordered: those of the name.
pub open spec fn name_key(t: Theme) -> Seq<u8> {
    encode_utf8(t.name@)
}

/// Whether themes are in strictly increasing name order, so no name occurs
/// twice.
pub open spec fn sorted_by_name(ts: Seq<Theme>) -> bool {
    forall|i: int, j: int| 0 <= i < j < ts.len() ==> bytes_order(name_key(#[trigger] ts[i]), name_key(#[trigger] ts[j])) < 0
}

/// Whether a theme of the given name is among the themes.
pub open spec fn has_theme(ts: Seq<Theme>, name: Seq<char>) -> bool {
    exists|i: int| 0 <= i < ts.len() && (#[trigger] ts[i]).name@ == name
}

/// What reading the custom themes directory gave.
pub enum ThemeDirectory {
    /// The directory does not exist.
    Missing,
    /// The directory could not be read, for the given reason.
    Unreadable(String),
    /// What loading each theme file of the directory gave, in file order.
    Loaded(Vec<(Vec<u8>, Result<Theme, String>)>),
}

/// The themes to choose from, in name order, and what went wrong while
/// loading custom themes.
#[derive(Debug, Clone)]
pub struct ThemeCatalog {
    themes: Vec<Theme>,
    pub diagnostics: Vec<ThemeDiagnostic>,
}

/// Two names are equal exactly when their bytes are.
proof fn lemma_key_eq(a: Theme, b: Theme)
    ensures
        (name_key(a) == name_key(b)) == (a.name@ == b.name@),
{
    encode_utf8_decode_utf8(a.name@);
    encode_utf8_decode_utf8(b.name@);
}

/// Where a theme of a new name goes among sorted themes: before the first
/// theme whose name comes after it.
fn insertion_point(themes: &Vec<Theme>, t: &Theme) -> (pos: usize)
    ensures
        pos <= themes@.len(),
        forall|k: int| 0 <= k < pos ==> bytes_order(name_key(#[trigger] themes@[k]), name_key(*t)) <= 0,
        pos < themes@.len() ==> bytes_order(name_key(themes@[pos as int]), name_key(*t)) > 0,
{
    let mut i: usize = 0;
    while i < themes.len()
        invariant
            i <= themes@.len(),
            forall|k: int| 0 <= k < i ==> bytes_order(name_key(#[trigger] themes@[k]), name_key(*t)) <= 0,
        decreases themes.len() - i,
    {
        let c = crate::order::compare_bytes(themes[i].name.as_str().as_bytes(), t.name.as_str().as_bytes());
        if c > 0 {
            return i;
        }
        i = i + 1;
    }
    i
}

impl ThemeCatalog {
    /// The themes, in name order.
    pub closed spec fn themes_view(&self) -> Seq<Theme> {
        self.themes@
    }

    /// The diagnostics, in the order they arose.
    pub closed spec fn diagnostics_view(&self) -> Seq<ThemeDiagnostic> {
        self.diagnostics@
    }

    /// The catalog keeps its themes in strictly increasing name order and
    /// always holds the default theme.
    pub open spec fn well_formed(&self) -> bool {
        &&& sorted_by_name(self.themes_view())
        &&& has_theme(self.themes_view(), DEFAULT_THEME_NAME@)
    }

    /// Adds a theme whose name is new, keeping name order.
    fn insert_new(&mut self, t: Theme)
        requires
            sorted_by_name(old(self).themes_view()),
            !has_theme(old(self).themes_view(), t.name@),
        ensures
            sorted_by_name(final(self).themes_view()),
            final(self).themes_view().len() == old(self).themes_view().len() + 1,
            final(self).themes_view().contains(t),
            forall|x: Theme| old(self).themes_view().contains(x) ==> final(self).themes_view().contains(x),
            forall|x: Theme| final(self).themes_view().contains(x) ==> x == t || old(self).themes_view().contains(x),
            final(self).diagnostics_view() == old(self).diagnostics_view(),
    {
        let pos = insertion_point(&self.themes, &t);
        let ghost old_ts = self.themes@;
        let ghost tk = name_key(t);
        proof {
            crate::order::lemma_byte_order_is_comparison();
            assert forall|k: int| 0 <= k < pos implies bytes_order(name_key(#[trigger] old_ts[k]), tk) < 0 by {
                lemma_key_eq(old_ts[k], t);
                crate::order::lemma_lex_antisymmetric(name_key(old_ts[k]), tk, crate::order::byte_order_fn());
                if bytes_order(name_key(old_ts[k]), tk) == 0 {
                    crate::order::lemma_lex_zero(name_key(old_ts[k]), tk, crate::order::byte_order_fn());
                    assert(old_ts[k].name@ == t.name@);
                }
            }
        }
        self.themes.insert(pos, t);
        proof {
            let ts = self.themes@;
            assert forall|i: int, j: int| 0 <= i < j < ts.len() implies bytes_order(name_key(#[trigger] ts[i]), name_key(#[trigger] ts[j])) < 0 by {
                let c = crate::order::byte_order_fn();
                if j < pos {
                    assert(ts[i] == old_ts[i] && ts[j] == old_ts[j]);
                } else if j == pos {
                    assert(ts[i] == old_ts[i]);
                } else if i == pos {
                    assert(ts[j] == old_ts[j - 1]);
                    crate::order::lemma_lex_antisymmetric(name_key(old_ts[pos as int]), tk, c);
                    if j - 1 > pos {
                        crate::order::lemma_lex_transitive(tk, name_key(old_ts[pos as int]), name_key(old_ts[j - 1]), c);
                    }
                } else if i < pos {
                    assert(ts[i] == old_ts[i] && ts[j] == old_ts[j - 1]);
                } else {
                    assert(ts[i] == old_ts[i - 1] && ts[j] == old_ts[j - 1]);
                }
            }
            assert(ts[pos as int] == t);
            assert forall|x: Theme| old_ts.contains(x) implies ts.contains(x) by {
                let k = choose|k: int| 0 <= k < old_ts.len() && old_ts[k] == x;
                if k < pos {
                    assert(ts[k] == x);
                } else {
                    assert(ts[k + 1] == x);
                }
            }
            assert forall|x: Theme| ts.contains(x) implies x == t || old_ts.contains(x) by {
                let k = choose|k: int| 0 <= k < ts.len() && ts[k] == x;
                if k < pos {
                    assert(old_ts[k] == x);
                } else if k > pos {
                    assert(old_ts[k - 1] == x);
                }
            }
        }
    }
}


/// The outcome of choosing a theme by name.
#[derive(Debug, Clone)]
pub struct ThemeSelection {
    pub theme: Theme,
    pub used_fallback: bool,
    pub warning: Option<String>,
}

/// The message for a custom theme whose name is already taken.
pub open spec fn duplicate_message(name: Seq<char>) -> Seq<char> {
    "theme name `"@ + name + "` duplicates a bundled or previously loaded theme"@
}

/// The diagnostic message for a custom themes directory that could not be
/// read, with the reason.
pub open spec fn unreadable_dir_message(reason: Seq<char>) -> Seq<char> {
    "could not read themes directory: "@ + reason
}

/// The warning for a configured theme that does not exist.
pub open spec fn missing_theme_warning(name: Seq<char>) -> Seq<char> {
    "theme `"@ + name + "` was not found; using "@ + DEFAULT_THEME_NAME@
}

/// The message for a custom theme whose name is already taken.
fn duplicate_text(name: &str) -> (m: String)
    ensures
        m@ == duplicate_message(name@),
{
    let mut m = String::from_str("theme name `");
    m.append(name);
    m.append("` duplicates a bundled or previously loaded theme");
    m
}

/// The warning for a configured theme that does not exist.
fn missing_theme_text(name: &str) -> (m: String)
    ensures
        m@ == missing_theme_warning(name@),
{
    let mut m = String::from_str("theme `");
    m.append(name);
    m.append("` was not found; using ");
    m.append(DEFAULT_THEME_NAME);
    m
}

impl ThemeCatalog {
    /// The index of the theme with the given name, if there is one.
    fn position(&self, name: &str) -> (r: Option<usize>)
        ensures
            match r {
                Some(i) => i < self.themes_view().len() && self.themes_view()[i as int].name@ == name@,
                None => !has_theme(self.themes_view(), name@),
            },
    {
        let mut i: usize = 0;
        while i < self.themes.len()
            invariant
                i <= self.themes@.len(),
                forall|k: int| 0 <= k < i ==> (#[trigger] self.themes@[k]).name@ != name@,
            decreases self.themes.len() - i,
        {
            if crate::bytes::str_eq(self.themes[i].name.as_str(), name) {
                return Some(i);
            }
            i = i + 1;
        }
        None
    }

    /// The catalog of the bundled themes, with no diagnostics.
    pub fn bundled() -> (c: ThemeCatalog)
        ensures
            c.well_formed(),
            c.diagnostics_view().len() == 0,
            c.themes_view().len() == 1,
            is_night_owl(c.themes_view()[0]),
            forall|i: int| 0 <= i < c.themes_view().len() ==> (#[trigger] c.themes_view()[i]).appearance == Appearance::Dark,
    {
        let themes = bundled_themes();
        let ghost b = themes@;
        let mut c = ThemeCatalog { themes: Vec::new(), diagnostics: Vec::new() };
        let mut rest = themes;
        let t = rest.remove(0);
        proof {
            assert(b[0] == t);
        }
        c.insert_new(t);
        proof {
            assert(c.themes_view().contains(t));
            assert(c.themes_view()[0] == t);
            assert(has_theme(c.themes_view(), DEFAULT_THEME_NAME@));
        }
        c
    }

    /// The theme with the given name, if the catalog has one.
    pub fn get(&self, name: &str) -> (r: Option<&Theme>)
        ensures
            match r {
                Some(t) => self.themes_view().contains(*t) && t.name@ == name@,
                None => !has_theme(self.themes_view(), name@),
            },
    {
        match self.position(name) {
            Some(i) => Some(&self.themes[i]),
            None => None,
        }
    }

    /// Whether the themes are in strictly increasing name order and the
    /// default theme is among them.
    pub fn is_well_formed(&self) -> (r: bool)
        ensures
            r == self.well_formed(),
    {
        let n = self.themes.len();
        let mut i: usize = 0;
        while i < n
            invariant
                n == self.themes@.len(),
                i <= n,
                forall|a: int, b: int|
                    0 <= a < b < n && a < i ==> bytes_order(name_key(#[trigger] self.themes@[a]), name_key(#[trigger] self.themes@[b])) < 0,
            decreases n - i,
        {
            let mut j: usize = i + 1;
            while j < n
                invariant
                    n == self.themes@.len(),
                    i < n,
                    i + 1 <= j <= n,
                    forall|a: int, b: int|
                        0 <= a < b < n && a < i ==> bytes_order(name_key(#[trigger] self.themes@[a]), name_key(#[trigger] self.themes@[b])) < 0,
                    forall|b: int| i < b < j ==> bytes_order(name_key(self.themes@[i as int]), name_key(#[trigger] self.themes@[b])) < 0,
                decreases n - j,
            {
                let c = crate::order::compare_bytes(self.themes[i].name.as_str().as_bytes(), self.themes[j].name.as_str().as_bytes());
                if c >= 0 {
                    proof {
                        assert(bytes_order(name_key(self.themes@[i as int]), name_key(self.themes@[j as int])) >= 0);
                    }
                    return false;
                }
                j = j + 1;
            }
            i = i + 1;
        }
        self.position(DEFAULT_THEME_NAME).is_some()
    }

    /// The themes, in name order.
    pub fn iter(&self) -> (r: &[Theme])
        ensures
            r@ == self.themes_view(),
    {
        self.themes.as_slice()
    }

    /// The theme of the given name, or the default theme with a warning
    /// when there is none.
    pub fn select_or_default(&self, name: &str) -> (s: ThemeSelection)
        requires
            self.well_formed(),
        ensures
            s.theme.name@ == (if has_theme(self.themes_view(), name@) { name@ } else { DEFAULT_THEME_NAME@ }),
            exists|i: int| 0 <= i < self.themes_view().len() && #[trigger] self.themes_view()[i].name@ == s.theme.name@
                && self.themes_view()[i].ui == s.theme.ui && self.themes_view()[i].diff == s.theme.diff
                && self.themes_view()[i].syntax == s.theme.syntax && self.themes_view()[i].appearance == s.theme.appearance,
            s.used_fallback == !has_theme(self.themes_view(), name@),
            match s.warning {
                Some(w) => !has_theme(self.themes_view(), name@) && w@ == missing_theme_warning(name@),
                None => has_theme(self.themes_view(), name@),
            },
    {
        match self.position(name) {
            Some(i) => ThemeSelection { theme: self.themes[i].clone(), used_fallback: false, warning: None },
            None => {
                let d = self.position(DEFAULT_THEME_NAME);
                match d {
                    Some(i) => ThemeSelection {
                        theme: self.themes[i].clone(),
                        used_fallback: true,
                        warning: Some(missing_theme_text(name)),
                    },
                    None => {
                        proof {
                            assert(false);
                        }
                        ThemeSelection {
                            theme: night_owl(),
                            used_fallback: true,
                            warning: Some(missing_theme_text(name)),
                        }
                    },
                }
            },
        }
    }

    /// The bundled themes with the custom themes of a directory: Night Owl
    /// is always there; nothing is added when the directory is missing, one
    /// diagnostic for the directory when it cannot be read, and otherwise
    /// each file, in order, adds one theme or one diagnostic.
    pub fn with_custom(dir: Vec<u8>, found: ThemeDirectory) -> (c: ThemeCatalog)
        ensures
            c.well_formed(),
            exists|i: int| 0 <= i < c.themes_view().len() && is_night_owl(#[trigger] c.themes_view()[i]),
            match found {
                ThemeDirectory::Missing => c.themes_view().len() == 1 && c.diagnostics_view().len() == 0,
                ThemeDirectory::Unreadable(reason) => c.themes_view().len() == 1 && diagnostic_views(c.diagnostics_view())
                    == seq![(Some(dir@), unreadable_dir_message(reason@))],
                ThemeDirectory::Loaded(files) => c.themes_view().len() + c.diagnostics_view().len() == 1 + files@.len()
                    && diagnostic_views(c.diagnostics_view()) == custom_diagnostics(set![DEFAULT_THEME_NAME@], files@),
            },
    {
        let mut c = ThemeCatalog::bundled();
        let ghost b = c.themes_view();
        proof {
            assert(is_night_owl(b[0]));
            assert forall|n: Seq<char>| theme_names(b).contains(n) <==> set![DEFAULT_THEME_NAME@].contains(n) by {
                if n == DEFAULT_THEME_NAME@ {
                    assert(b[0].name@ == n);
                }
            }
            assert(theme_names(b) =~= set![DEFAULT_THEME_NAME@]);
            assert(diagnostic_views(c.diagnostics_view()) =~= Seq::empty());
        }
        match found {
            ThemeDirectory::Missing => {},
            ThemeDirectory::Unreadable(reason) => {
                c.report_unreadable_dir(dir, reason.as_str());
                proof {
                    assert(diagnostic_views(c.diagnostics_view()) =~= seq![(Some(dir@), unreadable_dir_message(reason@))]);
                }
            },
            ThemeDirectory::Loaded(files) => {
                c.add_custom(files);
                proof {
                    assert(b.contains(b[0]));
                    assert(c.themes_view().contains(b[0]));
                }
            },
        }
        c
    }

    /// Reports that the custom themes directory could not be read, with the
    /// reason: the themes stay, and one diagnostic for the directory follows
    /// those already there.
    pub fn report_unreadable_dir(&mut self, dir: Vec<u8>, reason: &str)
        requires
            old(self).well_formed(),
        ensures
            final(self).well_formed(),
            final(self).themes_view() == old(self).themes_view(),
            final(self).diagnostics_view().len() == old(self).diagnostics_view().len() + 1,
            final(self).diagnostics_view().drop_last() == old(self).diagnostics_view(),
            final(self).diagnostics_view().last().path == Some(dir),
            final(self).diagnostics_view().last().message@ == unreadable_dir_message(reason@),
    {
        let mut message = String::from_str("could not read themes directory: ");
        message.append(reason);
        self.diagnostics.push(ThemeDiagnostic { path: Some(dir), message });
        proof {
            assert(self.diagnostics_view().drop_last() =~= old(self).diagnostics_view());
        }
    }

    /// Adds what loading each custom theme file gave, in order: every theme
    /// already in the catalog stays, the diagnostics so far stay first, and
    /// each file adds exactly one theme or one diagnostic.
    pub fn add_custom(&mut self, loaded: Vec<(Vec<u8>, Result<Theme, String>)>)
        requires
            old(self).well_formed(),
        ensures
            final(self).well_formed(),
            forall|x: Theme| old(self).themes_view().contains(x) ==> final(self).themes_view().contains(x),
            final(self).diagnostics_view().subrange(0, old(self).diagnostics_view().len() as int)
                == old(self).diagnostics_view(),
            final(self).themes_view().len() + final(self).diagnostics_view().len() == old(self).themes_view().len()
                + old(self).diagnostics_view().len() + loaded@.len(),
            diagnostic_views(final(self).diagnostics_view()) == diagnostic_views(old(self).diagnostics_view())
                + custom_diagnostics(theme_names(old(self).themes_view()), loaded@),
    {
        let ghost start = *self;
        let ghost all = loaded@;
        let total = loaded.len();
        assert(all.len() == total);
        let mut rest = loaded;
        let mut i: usize = 0;
        while rest.len() > 0
            invariant
                self.well_formed(),
                i + rest@.len() == all.len(),
                all.len() <= usize::MAX,
                rest@ == all.skip(i as int),
                forall|x: Theme| start.themes_view().contains(x) ==> self.themes_view().contains(x),
                self.diagnostics_view().len() >= start.diagnostics_view().len(),
                self.diagnostics_view().subrange(0, start.diagnostics_view().len() as int) == start.diagnostics_view(),
                self.themes_view().len() + self.diagnostics_view().len() == start.themes_view().len()
                    + start.diagnostics_view().len() + i,
                diagnostic_views(self.diagnostics_view()) + custom_diagnostics(theme_names(self.themes_view()), rest@)
                    == diagnostic_views(start.diagnostics_view()) + custom_diagnostics(
                    theme_names(start.themes_view()),
                    all,
                ),
            decreases rest.len(),
        {
            let ghost before_rest = rest@;
            let (path, result) = rest.remove(0);
            let ghost before = *self;
            let ghost entry = before_rest[0];
            proof {
                assert(rest@ =~= all.skip(i + 1));
                assert(rest@ =~= before_rest.drop_first());
                assert(entry.0 == path && entry.1 == result);
            }
            self.add_loaded(path, result);
            proof {
                let n = start.diagnostics_view().len() as int;
                assert(self.diagnostics_view().subrange(0, n) =~= before.diagnostics_view().subrange(0, n));
                let old_names = theme_names(before.themes_view());
                let tail = custom_diagnostics(theme_names(self.themes_view()), rest@);
                match entry.1 {
                    Ok(t) => {
                        if has_theme(before.themes_view(), t.name@) {
                            assert(old_names.contains(t.name@));
                            assert(diagnostic_views(self.diagnostics_view()) =~= diagnostic_views(before.diagnostics_view())
                                .push((Some(entry.0@), duplicate_message(t.name@))));
                        } else {
                            assert(!old_names.contains(t.name@));
                            assert forall|nm: Seq<char>| has_theme(self.themes_view(), nm) <==> (nm == t.name@ || has_theme(
                                before.themes_view(),
                                nm,
                            )) by {
                                if has_theme(self.themes_view(), nm) {
                                    let w = choose|w: int| 0 <= w < self.themes_view().len() && (#[trigger] self.themes_view()[w]).name@ == nm;
                                    assert(self.themes_view().contains(self.themes_view()[w]));
                                    if self.themes_view()[w] != t {
                                        assert(before.themes_view().contains(self.themes_view()[w]));
                                        let v = choose|v: int| 0 <= v < before.themes_view().len() && before.themes_view()[v] == self.themes_view()[w];
                                        assert(before.themes_view()[v].name@ == nm);
                                    }
                                }
                                if nm == t.name@ {
                                    assert(self.themes_view().contains(t));
                                    let w = choose|w: int| 0 <= w < self.themes_view().len() && self.themes_view()[w] == t;
                                    assert(self.themes_view()[w].name@ == nm);
                                }
                                if has_theme(before.themes_view(), nm) {
                                    let v = choose|v: int| 0 <= v < before.themes_view().len() && (#[trigger] before.themes_view()[v]).name@ == nm;
                                    assert(before.themes_view().contains(before.themes_view()[v]));
                                    assert(self.themes_view().contains(before.themes_view()[v]));
                                    let w = choose|w: int| 0 <= w < self.themes_view().len() && self.themes_view()[w] == before.themes_view()[v];
                                    assert(self.themes_view()[w].name@ == nm);
                                }
                            }
                            assert(theme_names(self.themes_view()) =~= old_names.insert(t.name@));
                        }
                    },
                    Err(m) => {
                        assert(diagnostic_views(self.diagnostics_view()) =~= diagnostic_views(before.diagnostics_view())
                            .push((Some(entry.0@), m@)));
                    },
                }
            }
            i = i + 1;
        }
        proof {
            assert(custom_diagnostics(theme_names(self.themes_view()), rest@) =~= Seq::<(Option<Seq<u8>>, Seq<char>)>::empty());
            assert(diagnostic_views(self.diagnostics_view()) =~= diagnostic_views(start.diagnostics_view())
                + custom_diagnostics(theme_names(start.themes_view()), all));
        }
    }

    /// Adds what loading one custom theme file gave: the theme, when its name
    /// is new; otherwise a diagnostic for the file, saying that the name is
    /// taken or why the file made no theme.
    pub fn add_loaded(&mut self, path: Vec<u8>, loaded: Result<Theme, String>)
        requires
            old(self).well_formed(),
        ensures
            final(self).well_formed(),
            match loaded {
                Ok(t) => if has_theme(old(self).themes_view(), t.name@) {
                    &&& final(self).themes_view() == old(self).themes_view()
                    &&& final(self).diagnostics_view().len() == old(self).diagnostics_view().len() + 1
                    &&& final(self).diagnostics_view().drop_last() == old(self).diagnostics_view()
                    &&& final(self).diagnostics_view().last().path == Some(path)
                    &&& final(self).diagnostics_view().last().message@ == duplicate_message(t.name@)
                } else {
                    &&& final(self).themes_view().len() == old(self).themes_view().len() + 1
                    &&& final(self).themes_view().contains(t)
                    &&& forall|x: Theme| final(self).themes_view().contains(x) <==> (x == t || old(self).themes_view().contains(x))
                    &&& final(self).diagnostics_view() == old(self).diagnostics_view()
                },
                Err(m) => {
                    &&& final(self).themes_view() == old(self).themes_view()
                    &&& final(self).diagnostics_view() == old(self).diagnostics_view().push(ThemeDiagnostic { path: Some(path), message: m })
                },
            },
    {
        match loaded {
            Ok(t) => {
                match self.position(t.name.as_str()) {
                    Some(_) => {
                        let message = duplicate_text(t.name.as_str());
                        self.diagnostics.push(ThemeDiagnostic { path: Some(path), message });
                    },
                    None => {
                        let ghost old_ts = self.themes_view();
                        self.insert_new(t);
                        proof {
                            let w = choose|i: int| 0 <= i < old_ts.len() && (#[trigger] old_ts[i]).name@ == DEFAULT_THEME_NAME@;
                            assert(old_ts.contains(old_ts[w]));
                            assert(self.themes_view().contains(old_ts[w]));
                        }
                    },
                }
            },
            Err(message) => {
                self.diagnostics.push(ThemeDiagnostic { path: Some(path), message });
            },
        }
    }
}


/// The names of a list of themes.
pub open spec fn theme_names(ts: Seq<Theme>) -> Set<Seq<char>> {
    Set::new(|n: Seq<char>| has_theme(ts, n))
}

/// The diagnostics that adding loaded custom theme files gives, in file
/// order, when the catalog already has themes of the given names: a file
/// whose theme has a name taken gets a diagnostic saying so, a file that
/// made no theme gets its error, and a file whose theme has a new name gets
/// none and takes that name.
pub open spec fn custom_diagnostics(
    names: Set<Seq<char>>,
    loaded: Seq<(Vec<u8>, Result<Theme, String>)>,
) -> Seq<(Option<Seq<u8>>, Seq<char>)>
    decreases loaded.len(),
{
    if loaded.len() == 0 {
        Seq::empty()
    } else {
        let p = loaded[0].0@;
        match loaded[0].1 {
            Ok(t) => if names.contains(t.name@) {
                seq![(Some(p), duplicate_message(t.name@))] + custom_diagnostics(names, loaded.drop_first())
            } else {
                custom_diagnostics(names.insert(t.name@), loaded.drop_first())
            },
            Err(m) => seq![(Some(p), m@)] + custom_diagnostics(names, loaded.drop_first()),
        }
    }
}

/// A diagnostic as the path's bytes and the message's characters.
pub open spec fn diagnostic_view(d: ThemeDiagnostic) -> (Option<Seq<u8>>, Seq<char>) {
    (crate::cli::opt_view(d.path), d.message@)
}

/// The views of a list of diagnostics.
pub open spec fn diagnostic_views(ds: Seq<ThemeDiagnostic>) -> Seq<(Option<Seq<u8>>, Seq<char>)> {
    ds.map_values(|d: ThemeDiagnostic| diagnostic_view(d))
}

/// A copy of a diagnostic.
fn copy_diagnostic(d: &ThemeDiagnostic) -> (r: ThemeDiagnostic)
    ensures
        diagnostic_view(r) == diagnostic_view(*d),
{
    let path = match &d.path {
        Some(p) => Some(p.clone()),
        None => None,
    };
    ThemeDiagnostic { path, message: d.message.clone() }
}

/// The selected theme, the catalog it came from, and everything worth
/// reporting about how it was chosen.
#[derive(Debug, Clone)]
pub struct LoadedTheme {
    pub paths: ConfigPaths,
    pub catalog: ThemeCatalog,
    pub selected: Theme,
    pub used_fallback: bool,
    pub diagnostics: Vec<ThemeDiagnostic>,
}

/// The theme name that a configuration asks for: the configured one, or the
/// default when the configuration could not be read.
pub open spec fn configured_name(config: Result<AppConfig, String>) -> Seq<char> {
    match config {
        Ok(c) => c.theme.name@,
        Err(_) => DEFAULT_THEME_NAME@,
    }
}

impl LoadedTheme {
    /// Chooses the theme from the catalog of bundled and custom themes and
    /// the configuration, or the message of why the configuration could not
    /// be read. The configured theme is used when the catalog has it; Night
    /// Owl otherwise, and whenever the configuration is unreadable. The
    /// diagnostics are those of the catalog, then the configuration error,
    /// then the warning about a missing theme, each for the configuration
    /// file.
    pub fn load(paths: ConfigPaths, catalog: ThemeCatalog, config: Result<AppConfig, String>) -> (l: LoadedTheme)
        requires
            catalog.well_formed(),
        ensures
            l.paths == paths,
            l.catalog.themes_view() == catalog.themes_view(),
            l.catalog.diagnostics_view() == catalog.diagnostics_view(),
            l.selected.name@ == (if has_theme(catalog.themes_view(), configured_name(config)) {
                configured_name(config)
            } else {
                DEFAULT_THEME_NAME@
            }),
            catalog.themes_view().contains(l.selected) || exists|i: int| 0 <= i < catalog.themes_view().len()
                && #[trigger] catalog.themes_view()[i].name@ == l.selected.name@
                && catalog.themes_view()[i].ui == l.selected.ui && catalog.themes_view()[i].diff == l.selected.diff
                && catalog.themes_view()[i].syntax == l.selected.syntax
                && catalog.themes_view()[i].appearance == l.selected.appearance,
            l.used_fallback == (config is Err || !has_theme(catalog.themes_view(), configured_name(config))),
            diagnostic_views(l.diagnostics@) == diagnostic_views(catalog.diagnostics_view()) + (match config {
                Err(m) => seq![(Some(paths.config_file@), m@)],
                Ok(_) => Seq::empty(),
            }) + (if has_theme(catalog.themes_view(), configured_name(config)) {
                Seq::empty()
            } else {
                seq![(Some(paths.config_file@), missing_theme_warning(configured_name(config)))]
            }),
    {
        let mut diagnostics: Vec<ThemeDiagnostic> = Vec::new();
        let mut i: usize = 0;
        while i < catalog.diagnostics.len()
            invariant
                i <= catalog.diagnostics_view().len(),
                diagnostic_views(diagnostics@) == diagnostic_views(catalog.diagnostics_view().take(i as int)),
            decreases catalog.diagnostics.len() - i,
        {
            diagnostics.push(copy_diagnostic(&catalog.diagnostics[i]));
            proof {
                assert(diagnostic_views(catalog.diagnostics_view().take(i + 1)) =~= diagnostic_views(
                    catalog.diagnostics_view().take(i as int),
                ).push(diagnostic_view(catalog.diagnostics_view()[i as int])));
                assert(diagnostic_views(diagnostics@) =~= diagnostic_views(catalog.diagnostics_view().take(i + 1)));
            }
            i = i + 1;
        }
        proof {
            assert(catalog.diagnostics_view().take(i as int) =~= catalog.diagnostics_view());
        }
        let ghost base = diagnostic_views(diagnostics@);
        let config_failed = config.is_err();
        let configured: String = match config {
            Ok(c) => c.theme.name,
            Err(m) => {
                let ghost before = diagnostics@;
                diagnostics.push(ThemeDiagnostic { path: Some(paths.config_file.clone()), message: m });
                proof {
                    assert(diagnostic_views(diagnostics@) =~= diagnostic_views(before).push(
                        (Some(paths.config_file@), m@),
                    ));
                }
                String::from_str(DEFAULT_THEME_NAME)
            },
        };
        let ghost middle = diagnostic_views(diagnostics@);
        proof {
            assert(middle =~= base + (match config {
                Err(m) => seq![(Some(paths.config_file@), m@)],
                Ok(_) => Seq::empty(),
            }));
        }
        let selection = catalog.select_or_default(configured.as_str());
        match selection.warning {
            Some(message) => {
                let ghost before = diagnostics@;
                diagnostics.push(ThemeDiagnostic { path: Some(paths.config_file.clone()), message });
                proof {
                    assert(diagnostic_views(diagnostics@) =~= diagnostic_views(before).push(
                        (Some(paths.config_file@), missing_theme_warning(configured@)),
                    ));
                }
            },
            None => {
                proof {
                    assert(middle + Seq::<(Option<Seq<u8>>, Seq<char>)>::empty() =~= middle);
                }
            },
        }
        LoadedTheme {
            paths,
            catalog,
            selected: selection.theme,
            used_fallback: selection.used_fallback || config_failed,
            diagnostics,
        }
    }
}


/// Whether a path names a theme file: its extension is `toml` in any case.
pub open spec fn is_theme_file(path: Seq<u8>) -> bool {
    match file_name(path) {
        Some(name) => match extension_of_name(name) {
            Some(ext) => ascii_lowercase(ext) == "toml".spec_bytes(),
            None => false,
        },
        None => false,
    }
}

/// The theme files among paths, in their order.
pub open spec fn theme_file_paths(s: Seq<Seq<u8>>) -> Seq<Seq<u8>>
    decreases s.len(),
{
    if s.len() == 0 {
        Seq::empty()
    } else if is_theme_file(s.last()) {
        theme_file_paths(s.drop_last()).push(s.last())
    } else {
        theme_file_paths(s.drop_last())
    }
}

/// Whether byte strings are in nondecreasing byte order.
pub open spec fn sorted_bytes(s: Seq<Seq<u8>>) -> bool {
    forall|i: int, j: int| 0 <= i < j < s.len() ==> bytes_order(#[trigger] s[i], #[trigger] s[j]) <= 0
}

/// Whether a path names a theme file.
pub fn theme_file(path: &[u8]) -> (r: bool)
    ensures
        r == is_theme_file(path@),
{
    match file_name_of(path) {
        Some(name) => match name_extension(name.as_slice()) {
            Some(ext) => {
                let lower = to_ascii_lowercase(ext.as_slice());
                bytes_eq(lower.as_slice(), "toml".as_bytes())
            },
            None => false,
        },
        None => false,
    }
}

/// Inserts a byte string into sorted byte strings, keeping them sorted.
fn insert_sorted(v: &mut Vec<Vec<u8>>, p: Vec<u8>)
    requires
        sorted_bytes(crate::path::byte_views(old(v)@)),
    ensures
        sorted_bytes(crate::path::byte_views(final(v)@)),
        crate::path::byte_views(final(v)@).to_multiset() == crate::path::byte_views(old(v)@).to_multiset().insert(p@),
{
    let ghost old_s = crate::path::byte_views(v@);
    let mut pos: usize = 0;
    while pos < v.len() && crate::order::compare_bytes(v[pos].as_slice(), p.as_slice()) <= 0
        invariant
            pos <= v@.len(),
            old_s == crate::path::byte_views(v@),
            forall|k: int| 0 <= k < pos ==> bytes_order(#[trigger] old_s[k], p@) <= 0,
        decreases v.len() - pos,
    {
        pos = pos + 1;
    }
    let ghost pv = p@;
    v.insert(pos, p);
    proof {
        let s = crate::path::byte_views(v@);
        let c = crate::order::byte_order_fn();
        crate::order::lemma_byte_order_is_comparison();
        assert(s =~= old_s.insert(pos as int, pv));
        assert forall|i: int, j: int| 0 <= i < j < s.len() implies bytes_order(#[trigger] s[i], #[trigger] s[j]) <= 0 by {
            if j < pos {
            } else if j == pos {
            } else if i == pos {
                assert(s[j] == old_s[j - 1]);
                assert(bytes_order(old_s[pos as int], pv) > 0);
                crate::order::lemma_lex_antisymmetric(old_s[pos as int], pv, c);
                if j - 1 > pos {
                    if bytes_order(old_s[pos as int], old_s[j - 1]) == 0 {
                        crate::order::lemma_lex_zero(old_s[pos as int], old_s[j - 1], c);
                    } else {
                        crate::order::lemma_lex_transitive(pv, old_s[pos as int], old_s[j - 1], c);
                    }
                }
            } else if i < pos {
                assert(s[j] == old_s[j - 1]);
                assert(s[i] == old_s[i]);
            } else {
                assert(s[j] == old_s[j - 1]);
                assert(s[i] == old_s[i - 1]);
            }
        }
        vstd::seq_lib::to_multiset_insert(old_s, pos as int, pv);
    }
}

/// The theme files among the entries of a themes directory, sorted by their
/// bytes: those whose extension is `toml` in any case.
pub fn theme_files(paths: &Vec<Vec<u8>>) -> (r: Vec<Vec<u8>>)
    ensures
        sorted_bytes(crate::path::byte_views(r@)),
        crate::path::byte_views(r@).to_multiset() == theme_file_paths(crate::path::byte_views(paths@)).to_multiset(),
{
    let ghost all = crate::path::byte_views(paths@);
    let mut out: Vec<Vec<u8>> = Vec::new();
    let mut i: usize = 0;
    proof {
        assert(all.take(0) =~= Seq::<Seq<u8>>::empty());
        assert(crate::path::byte_views(out@) =~= Seq::<Seq<u8>>::empty());
        assert(crate::path::byte_views(out@).to_multiset() =~= theme_file_paths(all.take(0)).to_multiset());
    }
    while i < paths.len()
        invariant
            i <= paths@.len(),
            all == crate::path::byte_views(paths@),
            sorted_bytes(crate::path::byte_views(out@)),
            crate::path::byte_views(out@).to_multiset() == theme_file_paths(all.take(i as int)).to_multiset(),
        decreases paths.len() - i,
    {
        proof {
            assert(all.take(i + 1).drop_last() =~= all.take(i as int));
            assert(all.take(i + 1).last() == all[i as int]);
        }
        if theme_file(paths[i].as_slice()) {
            insert_sorted(&mut out, paths[i].clone());
            proof {
                vstd::seq_lib::to_multiset_build(theme_file_paths(all.take(i as int)), all[i as int]);
            }
        }
        i = i + 1;
    }
    proof {
        assert(all.take(all.len() as int) =~= all);
    }
    out
}

/// The index of a color in the 256-color palette's 6×6×6 cube: each channel
/// scaled down to 0..=5.
pub open spec fn cube_index(c: Rgb) -> int {
    16 + 36 * (c.red as int * 5 / 255) + 6 * (c.green as int * 5 / 255) + (c.blue as int * 5 / 255)
}

impl Rgb {
    /// The nearest-below color of the 256-color palette's color cube, for
    /// terminals without true color.
    pub fn cube_index(&self) -> (i: u8)
        ensures
            i as int == cube_index(*self),
    {
        let r = (self.red as u16 * 5 / 255) as u8;
        let g = (self.green as u16 * 5 / 255) as u8;
        let b = (self.blue as u16 * 5 / 255) as u8;
        proof {
            assert(self.red as u16 * 5 / 255 <= 5) by (nonlinear_arith)
                requires
                    self.red <= 255;
            assert(self.green as u16 * 5 / 255 <= 5) by (nonlinear_arith)
                requires
                    self.green <= 255;
            assert(self.blue as u16 * 5 / 255 <= 5) by (nonlinear_arith)
                requires
                    self.blue <= 255;
        }
        16 + 36 * r + 6 * g + b
    }
}

/// Whether the terminal shows true color: Ghostty, or `COLORTERM` set to
/// `truecolor` or `24bit` in any case.
pub open spec fn true_color_terminal(term_program: Option<Seq<u8>>, colorterm: Option<Seq<u8>>, ghostty_resources: bool) -> bool {
    ||| (term_program matches Some(p) && ascii_lowercase(p) == "ghostty".spec_bytes())
    ||| (colorterm matches Some(c) && (ascii_lowercase(c) == "truecolor".spec_bytes() || ascii_lowercase(c)
        == "24bit".spec_bytes()))
    ||| ghostty_resources
}

/// Whether text equals a lower-case word, ignoring ASCII case.
fn is_word(text: &Option<Vec<u8>>, word: &str) -> (r: bool)
    ensures
        r == (text matches Some(t) && ascii_lowercase(t@) == word.spec_bytes()),
{
    match text {
        Some(t) => {
            let lower = to_ascii_lowercase(t.as_slice());
            bytes_eq(lower.as_slice(), word.as_bytes())
        },
        None => false,
    }
}

/// Decides true color from the values of `TERM_PROGRAM`, `COLORTERM` and
/// whether `GHOSTTY_RESOURCES_DIR` is set.
pub fn supports_true_color(term_program: &Option<Vec<u8>>, colorterm: &Option<Vec<u8>>, ghostty_resources: bool) -> (r: bool)
    ensures
        r == true_color_terminal(crate::cli::opt_view(*term_program), crate::cli::opt_view(*colorterm), ghostty_resources),
{
    is_word(term_program, "ghostty") || is_word(colorterm, "truecolor") || is_word(colorterm, "24bit") || ghostty_resources
}

} // verus!
