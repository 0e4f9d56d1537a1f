use vstd::prelude::*;
use vstd::string::StrSliceExecFns;
use crate::text::decimal;

verus! {

/// The syntax definitions of `syntect`.
#[verifier::external_type_specification]
#[verifier::external_body]
pub struct ExSyntaxSet(syntect::parsing::SyntaxSet);

/// One syntax definition of `syntect`.
#[verifier::external_type_specification]
#[verifier::external_body]
pub struct ExSyntaxReference(syntect::parsing::SyntaxReference);

/// The color themes of `syntect`.
#[verifier::external_type_specification]
#[verifier::external_body]
pub struct ExThemeSet(syntect::highlighting::ThemeSet);

/// One color theme of `syntect`.
#[verifier::external_type_specification]
#[verifier::external_body]
pub struct ExTheme(syntect::highlighting::Theme);

/// A `syntect` highlighter that carries its parse state from line to line.
#[verifier::external_type_specification]
#[verifier::external_body]
pub struct ExHighlightLines<'a>(syntect::easy::HighlightLines<'a>);

/// A style of `syntect`: colors and font style.
#[verifier::external_type_specification]
#[verifier::external_body]
pub struct ExSyntectStyle(syntect::highlighting::Style);

/// A color: red, green, blue and alpha.
#[derive(Debug, Clone, Copy, PartialEq, Eq, Structural)]
pub struct Rgba {
    pub r: u8,
    pub g: u8,
    pub b: u8,
    pub a: u8,
}

/// The style of a highlighted piece of text: foreground and background
/// colors (red, green, blue, alpha) and font style bits.
#[derive(Debug, Clone, Copy, PartialEq, Eq, Structural)]
pub struct TextStyle {
    pub foreground: Rgba,
    pub background: Rgba,
    pub font_style: u8,
}

/// The text of a sequence of styled pieces, joined.
pub open spec fn joined(pieces: Seq<(TextStyle, Seq<char>)>) -> Seq<char>
    decreases pieces.len(),
{
    if pieces.len() == 0 {
        Seq::empty()
    } else {
        joined(pieces.drop_last()) + pieces.last().1
    }
}

/// The styled pieces as values.
pub open spec fn pieces_view(pieces: Seq<(TextStyle, &str)>) -> Seq<(TextStyle, Seq<char>)> {
    pieces.map_values(|p: (TextStyle, &str)| (p.0, p.1@))
}

/// The texts of string slices.
pub open spec fn slice_texts(lines: Seq<&str>) -> Seq<Seq<char>> {
    lines.map_values(|l: &str| l@)
}

/// Where the first line of a text ends: just after its first newline, or at
/// the end of the text.
pub open spec fn first_line_end(text: Seq<char>) -> nat
    decreases text.len(),
{
    if text.len() == 0 {
        0
    } else if text[0] == '\n' {
        1
    } else {
        1 + first_line_end(text.drop_first())
    }
}

/// The first line of a non-empty text is not empty and ends within it.
pub proof fn lemma_first_line_end_bounds(text: Seq<char>)
    ensures
        first_line_end(text) <= text.len(),
        text.len() > 0 ==> 1 <= first_line_end(text),
    decreases text.len(),
{
    if text.len() > 0 && text[0] != '\n' {
        lemma_first_line_end_bounds(text.drop_first());
    }
}

/// The lines of a text, each with its newline: the text cut just after each
/// `\n`, with a last line without one where the text does not end with one.
pub open spec fn lines_of(text: Seq<char>) -> Seq<Seq<char>>
    decreases text.len(),
{
    if text.len() == 0 {
        Seq::empty()
    } else {
        proof {
            lemma_first_line_end_bounds(text);
        }
        seq![text.take(first_line_end(text) as int)] + lines_of(
            text.skip(first_line_end(text) as int),
        )
    }
}

/// The foreground color channel drawn for a style: the foreground's channel
/// blended over the background's by the foreground's alpha (an opaque
/// foreground is kept as it is).
pub open spec fn blend(fg: u8, alpha: u8, bg: u8) -> nat {
    if alpha == 255 {
        fg as nat
    } else {
        ((fg * alpha + bg * (255 - alpha)) / 255) as nat
    }
}

/// The 24-bit terminal escape that sets the foreground color of a style:
/// `ESC [ 38 ; 2 ; r ; g ; b m`.
pub open spec fn foreground_escape(style: TextStyle) -> Seq<char> {
    let (f, b) = (style.foreground, style.background);
    seq!['\x1b', '[', '3', '8', ';', '2', ';'] + decimal(blend(f.r, f.a, b.r)) + seq![';']
        + decimal(blend(f.g, f.a, b.g)) + seq![';'] + decimal(blend(f.b, f.a, b.b)) + seq!['m']
}

/// Styled pieces written for a 24-bit color terminal: each piece's text after
/// the escape of its foreground color.
pub open spec fn terminal_escaped(pieces: Seq<(TextStyle, Seq<char>)>) -> Seq<char>
    decreases pieces.len(),
{
    if pieces.len() == 0 {
        Seq::empty()
    } else {
        terminal_escaped(pieces.drop_last()) + foreground_escape(pieces.last().0) + pieces.last().1
    }
}

/// The styled pieces that `syntect` gives a line of Python source with its
/// bundled Python syntax and `base16-ocean.dark` theme, after highlighting the
/// lines `before` one by one with the same highlighter; `None` where it fails.
pub uninterp spec fn python_line_pieces(before: Seq<Seq<char>>, line: Seq<char>) -> Option<
    Seq<(TextStyle, Seq<char>)>,
>;

/// The styled pieces of each of the lines, highlighted one by one from the
/// first; `None` where one of them fails.
pub open spec fn python_highlighting(lines: Seq<Seq<char>>) -> Option<Seq<Seq<(TextStyle, Seq<char>)>>>
    decreases lines.len(),
{
    if lines.len() == 0 {
        Some(Seq::empty())
    } else {
        match (python_highlighting(lines.drop_last()), python_line_pieces(lines.drop_last(), lines.last())) {
            (Some(earlier), Some(last)) => Some(earlier.push(last)),
            _ => None,
        }
    }
}

/// The texts of strings.
pub open spec fn string_texts(v: Seq<String>) -> Seq<Seq<char>> {
    v.map_values(|s: String| s@)
}

/// A character with ASCII upper case letters made lower case.
pub open spec fn ascii_lower(c: char) -> char {
    if 'A' <= c <= 'Z' {
        ((c as int) + 32) as char
    } else {
        c
    }
}

/// Two texts are equal but for the case of ASCII letters.
pub open spec fn eq_ignore_ascii_case(a: Seq<char>, b: Seq<char>) -> bool {
    &&& a.len() == b.len()
    &&& forall|i: int| 0 <= i < a.len() ==> ascii_lower(#[trigger] a[i]) == ascii_lower(b[i])
}

/// The file extensions of the syntax definitions in a set.
pub uninterp spec fn syntax_extensions(set: syntect::parsing::SyntaxSet) -> Set<Seq<char>>;

/// The names of the themes in a theme set.
pub uninterp spec fn theme_names(themes: syntect::highlighting::ThemeSet) -> Set<Seq<char>>;

/// A set of file extensions has one that matches `extension` but for ASCII case.
pub open spec fn finds_extension(extensions: Set<Seq<char>>, extension: Seq<char>) -> bool {
    exists|e: Seq<char>| #[trigger] extensions.contains(e) && eq_ignore_ascii_case(e, extension)
}

/// Trusted: `SyntaxSet::load_defaults_newlines` loads `syntect`'s bundled
/// syntax definitions. They hold one for Python's extension `py`: `syntect`'s
/// own tests find it in the bundled set built from the same packages without
/// newlines (its `gendata` example builds both from one folder).
#[verifier::external_body]
fn load_syntax_set() -> (set: syntect::parsing::SyntaxSet)
    ensures
        syntax_extensions(set).contains("py"@),
{
    syntect::parsing::SyntaxSet::load_defaults_newlines()
}

/// Trusted: `ThemeSet::load_defaults` loads `syntect`'s bundled themes; its
/// documentation lists `base16-ocean.dark` among their names.
#[verifier::external_body]
fn load_theme_set() -> (themes: syntect::highlighting::ThemeSet)
    ensures
        theme_names(themes).contains("base16-ocean.dark"@),
{
    syntect::highlighting::ThemeSet::load_defaults()
}

/// Trusted: `SyntaxSet::find_syntax_by_extension` finds a syntax for a file
/// extension if the set has one of an extension equal to it but for ASCII case
/// (its source compares with `str::eq_ignore_ascii_case`). Which syntax it
/// gives is not stated.
#[verifier::external_body]
fn find_syntax_by_extension<'a>(
    set: &'a syntect::parsing::SyntaxSet,
    extension: &str,
) -> (r: Option<&'a syntect::parsing::SyntaxReference>)
    ensures
        r is Some <==> finds_extension(syntax_extensions(*set), extension@),
{
    set.find_syntax_by_extension(extension)
}

/// Trusted: the theme of a name in a theme set (a `BTreeMap` lookup), which
/// there is if the set has a theme of that name. Which theme is not stated.
#[verifier::external_body]
fn theme_named<'a>(
    themes: &'a syntect::highlighting::ThemeSet,
    name: &str,
) -> (r: Option<&'a syntect::highlighting::Theme>)
    ensures
        r is Some <==> theme_names(*themes).contains(name@),
{
    themes.themes.get(name)
}

/// Trusted: `HighlightLines::new` starts highlighting a text of a syntax.
#[verifier::external_body]
fn new_highlighter<'a>(
    syntax: &syntect::parsing::SyntaxReference,
    theme: &'a syntect::highlighting::Theme,
) -> syntect::easy::HighlightLines<'a> {
    syntect::easy::HighlightLines::new(syntax, theme)
}

/// Trusted: the style of a `syntect` style, field by field (a conversion).
#[verifier::external_body]
fn text_style(s: syntect::highlighting::Style) -> TextStyle {
    let (f, b) = (s.foreground, s.background);
    TextStyle {
        foreground: Rgba { r: f.r, g: f.g, b: f.b, a: f.a },
        background: Rgba { r: b.r, g: b.g, b: b.b, a: b.a },
        font_style: s.font_style.bits(),
    }
}

/// Trusted: the `syntect` style of a style, field by field (a conversion).
#[verifier::external_body]
fn syntect_style(s: TextStyle) -> syntect::highlighting::Style {
    let (f, b) = (s.foreground, s.background);
    syntect::highlighting::Style {
        foreground: syntect::highlighting::Color { r: f.r, g: f.g, b: f.b, a: f.a },
        background: syntect::highlighting::Color { r: b.r, g: b.g, b: b.b, a: b.a },
        font_style: syntect::highlighting::FontStyle::from_bits_truncate(s.font_style),
    }
}

/// `syntect`'s bundled syntax definitions and themes. Only `load` makes one.
struct BundledSets {
    syntaxes: syntect::parsing::SyntaxSet,
    themes: syntect::highlighting::ThemeSet,
}

impl BundledSets {
    /// Loads `syntect`'s bundled syntax definitions and themes.
    fn load() -> (b: Self)
        ensures
            finds_extension(syntax_extensions(b.syntaxes), "py"@),
            theme_names(b.themes).contains("base16-ocean.dark"@),
    {
        let syntaxes = load_syntax_set();
        let themes = load_theme_set();
        assert(eq_ignore_ascii_case("py"@, "py"@));
        BundledSets { syntaxes, themes }
    }
}

/// A `syntect` highlighter of Python source with the bundled syntax and the
/// `base16-ocean.dark` theme, with the lines it has been given so far. Only
/// `new` makes one, and only `highlight_next_line` feeds it.
struct PythonHighlighter<'a> {
    lines: syntect::easy::HighlightLines<'a>,
    syntaxes: &'a syntect::parsing::SyntaxSet,
    fed: Vec<String>,
}

impl<'a> PythonHighlighter<'a> {
    /// The lines given to the highlighter so far.
    spec fn fed_lines(self) -> Seq<Seq<char>> {
        string_texts(self.fed@)
    }

    /// A highlighter of Python source with the bundled syntax and theme that
    /// has been given no line yet.
    fn new(sets: &'a BundledSets) -> (h: Self)
        requires
            finds_extension(syntax_extensions(sets.syntaxes), "py"@),
            theme_names(sets.themes).contains("base16-ocean.dark"@),
        ensures
            h.fed_lines() == Seq::<Seq<char>>::empty(),
    {
        let syntax = find_syntax_by_extension(&sets.syntaxes, "py").unwrap();
        let theme = theme_named(&sets.themes, "base16-ocean.dark").unwrap();
        let h = PythonHighlighter {
            lines: new_highlighter(syntax, theme),
            syntaxes: &sets.syntaxes,
            fed: Vec::new(),
        };
        assert(h.fed_lines() =~= Seq::<Seq<char>>::empty());
        h
    }
}

/// Trusted: `HighlightLines::highlight_line` cuts a line into styled pieces
/// whose concatenation is the line (its documentation says so of the
/// iterator that makes them), or fails (an error of the syntax's rules, whose
/// details are dropped here); the line is recorded as fed. What comes out is a
/// function of the lines fed before and the line, named `python_line_pieces`:
/// that rests on how this module makes and feeds `PythonHighlighter` values
/// (their fields are private): `new` starts one from the bundled Python syntax
/// and `base16-ocean.dark` theme with no line fed, and this function, the only
/// one that feeds it, records each line in `fed`.
#[verifier::external_body]
fn highlight_next_line<'b>(h: &mut PythonHighlighter, line: &'b str) -> (r: Option<
    Vec<(TextStyle, &'b str)>,
>)
    ensures
        final(h).fed_lines() == old(h).fed_lines().push(line@),
        match r {
            Some(pieces) => python_line_pieces(old(h).fed_lines(), line@) == Some(
                pieces_view(pieces@),
            ),
            None => python_line_pieces(old(h).fed_lines(), line@) is None,
        },
        r matches Some(pieces) ==> joined(pieces_view(pieces@)) == line@,
{
    let pieces = h.lines.highlight_line(line, h.syntaxes);
    h.fed.push(line.to_string());
    Some(pieces.ok()?.into_iter().map(|(s, t)| (text_style(s), t)).collect())
}

/// Trusted: `syntect::util::as_24_bit_terminal_escaped` (without background)
/// writes each piece's foreground color (blended over its background by its
/// alpha) as a 24-bit terminal escape before its text (its source `write!`s
/// `\x1b[38;2;{r};{g};{b}m{text}` for each piece).
#[verifier::external_body]
fn as_24_bit_terminal_escaped(pieces: &Vec<(TextStyle, &str)>) -> (s: String)
    ensures
        s@ == terminal_escaped(pieces_view(pieces@)),
{
    let styled: Vec<(syntect::highlighting::Style, &str)> = pieces.iter().map(
        |(s, t)| (syntect_style(*s), *t),
    ).collect();
    syntect::util::as_24_bit_terminal_escaped(&styled[..], false)
}

/// Trusted: `syntect::util::LinesWithEndings` cuts a text after each newline
/// (its source splits at the first `\n` of the rest, or at the end).
#[verifier::external_body]
fn lines_with_endings(text: &str) -> (lines: Vec<&str>)
    ensures
        slice_texts(lines@) == lines_of(text@),
{
    syntect::util::LinesWithEndings::from(text).collect()
}

/// A text without its line ending (`\r\n` or `\n`), if it has one.
pub open spec fn strip_line_ending(t: Seq<char>) -> Seq<char> {
    if t.len() >= 2 && t[t.len() - 2] == '\r' && t.last() == '\n' {
        t.take(t.len() - 2)
    } else if t.len() >= 1 && t.last() == '\n' {
        t.drop_last()
    } else {
        t
    }
}

/// Styled pieces with the line ending taken off the last piece's text.
pub open spec fn strip_last_piece(pieces: Seq<(TextStyle, Seq<char>)>) -> Seq<(TextStyle, Seq<char>)> {
    if pieces.len() == 0 {
        pieces
    } else {
        pieces.update(
            pieces.len() - 1,
            (pieces.last().0, strip_line_ending(pieces.last().1)),
        )
    }
}

/// Why source code could not be highlighted.
#[derive(Debug, Clone, Copy, PartialEq, Eq, Structural)]
pub enum HighlightError {
    /// Highlighting a line failed.
    LineFailed,
}

/// Takes the line ending off a text.
pub fn strip_ending(t: &str) -> (s: &str)
    ensures
        s@ == strip_line_ending(t@),
{
    let n = t.unicode_len();
    if n >= 2 && t.get_char(n - 2) == '\r' && t.get_char(n - 1) == '\n' {
        t.substring_char(0, n - 2)
    } else if n >= 1 && t.get_char(n - 1) == '\n' {
        t.substring_char(0, n - 1)
    } else {
        t
    }
}

/// The highlighting of some lines is there only if that of each shorter
/// prefix is.
proof fn lemma_highlighting_prefix(lines: Seq<Seq<char>>, k: int)
    requires
        0 <= k <= lines.len(),
        python_highlighting(lines) is Some,
    ensures
        python_highlighting(lines.take(k)) is Some,
    decreases lines.len(),
{
    if k < lines.len() {
        assert(lines.drop_last().take(k) =~= lines.take(k));
        lemma_highlighting_prefix(lines.drop_last(), k);
    } else {
        assert(lines.take(k) =~= lines);
    }
}

/// The terminal line of one line's styled pieces: their escapes without the
/// line ending, or `LineFailed` where the line could not be highlighted.
pub fn escaped_line(pieces: Option<Vec<(TextStyle, &str)>>) -> (r: Result<String, HighlightError>)
    ensures
        match pieces {
            Some(p) => r matches Ok(s) && s@ == terminal_escaped(strip_last_piece(pieces_view(p@))),
            None => r == Err::<String, HighlightError>(HighlightError::LineFailed),
        },
{
    let mut pieces = match pieces {
        Some(p) => p,
        None => return Err(HighlightError::LineFailed),
    };
    let ghost unstripped = pieces_view(pieces@);
    if pieces.len() > 0 {
        let last = pieces.len() - 1;
        let (style, text) = pieces[last];
        let stripped = strip_ending(text);
        pieces.set(last, (style, stripped));
    }
    assert(pieces_view(pieces@) =~= strip_last_piece(unstripped));
    Ok(as_24_bit_terminal_escaped(&pieces))
}

/// The highlighted lines of Python source, one per line of the text, each
/// the terminal escapes of its styled pieces without the line ending, with
/// `syntect`'s bundled syntax definitions and theme; `LineFailed` where
/// `syntect` fails on a line.
pub fn highlight(code: &str) -> (r: Result<Vec<String>, HighlightError>)
    ensures
        r is Ok <==> python_highlighting(lines_of(code@)) is Some,
        r matches Ok(out) ==> {
            let lines = lines_of(code@);
            let pieces = python_highlighting(lines)->Some_0;
            &&& out@.len() == lines.len()
            &&& forall|i: int| 0 <= i < lines.len() ==> #[trigger] joined(pieces[i]) == lines[i]
            &&& forall|i: int| 0 <= i < lines.len() ==> #[trigger] out@[i]@ == terminal_escaped(
                strip_last_piece(pieces[i]),
            )
        },
{
    let sets = BundledSets::load();
    let mut h = PythonHighlighter::new(&sets);
    let lines = lines_with_endings(code);
    let ghost line_views = slice_texts(lines@);
    let ghost mut all_pieces: Seq<Seq<(TextStyle, Seq<char>)>> = Seq::empty();
    let mut output: Vec<String> = Vec::new();
    let mut i: usize = 0;
    assert(line_views.take(0) =~= Seq::<Seq<char>>::empty());
    while i < lines.len()
        invariant
            i <= lines@.len(),
            line_views == slice_texts(lines@),
            line_views == lines_of(code@),
            h.fed_lines() == line_views.take(i as int),
            python_highlighting(line_views.take(i as int)) == Some(all_pieces),
            output@.len() == i,
            all_pieces.len() == i,
            forall|k: int| 0 <= k < i ==> #[trigger] joined(all_pieces[k]) == line_views[k],
            forall|k: int| 0 <= k < i ==> #[trigger] output@[k]@ == terminal_escaped(
                strip_last_piece(all_pieces[k]),
            ),
        decreases lines@.len() - i,
    {
        let ghost before = h.fed_lines();
        let pieces = highlight_next_line(&mut h, lines[i]);
        let ghost got = pieces;
        assert(line_views.take(i + 1).drop_last() =~= line_views.take(i as int));
        assert(line_views.take(i + 1).last() == line_views[i as int]);
        let escaped = match escaped_line(pieces) {
            Ok(s) => s,
            Err(e) => {
                proof {
                    if python_highlighting(line_views) is Some {
                        lemma_highlighting_prefix(line_views, i + 1);
                    }
                }
                return Err(e);
            },
        };
        output.push(escaped);
        proof {
            all_pieces = all_pieces.push(pieces_view(got->Some_0@));
            assert(h.fed_lines() =~= line_views.take(i + 1));
        }
        i = i + 1;
    }
    assert(line_views.take(i as int) =~= line_views);
    let r: Result<Vec<String>, HighlightError> = Ok(output);
    assert(r->Ok_0@ == output@);
    r
}

} // verus!
