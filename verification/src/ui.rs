//! Terminal rendering: the brightness bar, colour swatches, segment blocks
//! and the theme list of the help text.
//!
//! Colour comes from the `colored` crate, which decides by itself (terminal,
//! environment) whether to emit ANSI escapes. Each output is therefore
//! described as a list of pieces: a piece's text appears either as it is or
//! wrapped in the escape sequence of its style.

use vstd::prelude::*;

use colored::Colorize;

use crate::colors::hex_code;
use crate::dreamview::Rgb;
use crate::text::{dec_text, push_decimal, push_str, str_eq};
use crate::themes::{builtin_categories, builtin_category_names};

verus! {

// ── Styles and pieces ───────────────────────────────────────────────────────

/// The foreground colours the interface uses.
#[derive(Debug, Clone, Copy, PartialEq, Eq)]
pub enum TermColor {
    Red,
    Green,
    Yellow,
    Magenta,
    Cyan,
    White,
}

/// The SGR parameter of a foreground colour.
pub open spec fn fg_code(c: TermColor) -> Seq<char> {
    match c {
        TermColor::Red => "31"@,
        TermColor::Green => "32"@,
        TermColor::Yellow => "33"@,
        TermColor::Magenta => "35"@,
        TermColor::Cyan => "36"@,
        TermColor::White => "37"@,
    }
}

/// How a piece of text is styled.
pub enum Paint {
    /// Not styled.
    Plain,
    /// Styled with these SGR parameters.
    Codes(Seq<char>),
    /// The true colour `(r, g, b)`, or the nearest of the sixteen ANSI
    /// colours where the terminal has no true colour.
    TrueColour(Rgb),
}

/// The SGR parameters of the true foreground colour `(r, g, b)`.
pub open spec fn true_colour_code(c: Rgb) -> Seq<char> {
    "38;2;"@ + dec_text(c.0 as nat) + ";"@ + dec_text(c.1 as nat) + ";"@ + dec_text(c.2 as nat)
}

/// The SGR parameter of one of the sixteen ANSI foreground colours.
pub open spec fn basic_fg_code(code: Seq<char>) -> bool {
    ||| code == "30"@ || code == "31"@ || code == "32"@ || code == "33"@
    ||| code == "34"@ || code == "35"@ || code == "36"@ || code == "37"@
    ||| code == "90"@ || code == "91"@ || code == "92"@ || code == "93"@
    ||| code == "94"@ || code == "95"@ || code == "96"@ || code == "97"@
}

/// The SGR parameter of the ANSI foreground colour that `colored` picks as
/// nearest (by squared distance in RGB) to `(r, g, b)`, for terminals
/// without true colour.
pub uninterp spec fn closest_ansi_fg(r: u8, g: u8, b: u8) -> Seq<char>;

/// `text` wrapped in the escape sequence with SGR parameters `codes`.
pub open spec fn esc_wrap(codes: Seq<char>, text: Seq<char>) -> Seq<char> {
    "\u{1b}["@ + codes + "m"@ + text + "\u{1b}[0m"@
}

/// `text` has no escape character.
pub open spec fn no_esc(text: Seq<char>) -> bool {
    forall|i: int| 0 <= i < text.len() ==> text[i] != '\u{1b}'
}

/// `out` shows `text` in paint `p`: unstyled, or wrapped in its escapes.
/// Of a styled text that holds escapes itself nothing is said.
pub open spec fn shows(out: Seq<char>, text: Seq<char>, p: Paint) -> bool {
    match p {
        Paint::Plain => out == text,
        Paint::Codes(c) => no_esc(text) ==> (out == text || out == esc_wrap(c, text)),
        Paint::TrueColour(c) => no_esc(text) ==> {
            ||| out == text
            ||| out == esc_wrap(true_colour_code(c), text)
            ||| out == esc_wrap(closest_ansi_fg(c.0, c.1, c.2), text) && basic_fg_code(
                closest_ansi_fg(c.0, c.1, c.2),
            )
        },
    }
}

/// The parts written one after the other.
pub open spec fn flatten(parts: Seq<Seq<char>>) -> Seq<char>
    decreases parts.len(),
{
    if parts.len() == 0 {
        Seq::empty()
    } else {
        flatten(parts.drop_last()) + parts.last()
    }
}

/// `out` is the pieces written in order, each shown in its paint.
pub open spec fn renders(out: Seq<char>, pieces: Seq<(Seq<char>, Paint)>) -> bool {
    exists|parts: Seq<Seq<char>>|
        {
            &&& parts.len() == pieces.len()
            &&& flatten(parts) == out
            &&& forall|i: int|
                0 <= i < parts.len() ==> shows(#[trigger] parts[i], pieces[i].0, pieces[i].1)
        }
}

// ── The `colored` crate ─────────────────────────────────────────────────────

/// `text.dimmed()` of `colored`, formatted. The contract claims that a text
/// without escapes comes out as it is or wrapped in the dim escape; whether
/// colours are on depends on the terminal and environment, and what a text
/// with escapes of its own becomes is left unsaid.
#[verifier::external_body]
fn paint_dimmed(text: &str) -> (out: String)
    ensures
        shows(out@, text@, Paint::Codes("2"@)),
{
    format!("{}", text.dimmed())
}

/// `text.yellow()` of `colored`, formatted; as [`paint_dimmed`], with the
/// yellow foreground.
#[verifier::external_body]
fn paint_yellow(text: &str) -> (out: String)
    ensures
        shows(out@, text@, Paint::Codes("33"@)),
{
    format!("{}", text.yellow())
}

/// `text.purple().bold()` of `colored`, formatted; as [`paint_dimmed`],
/// with bold and the magenta foreground.
#[verifier::external_body]
fn paint_purple_bold(text: &str) -> (out: String)
    ensures
        shows(out@, text@, Paint::Codes("1;35"@)),
{
    format!("{}", text.purple().bold())
}

/// `text.truecolor(r, g, b)` of `colored`, formatted. The contract claims
/// that a text without escapes comes out as it is (colours off), wrapped in
/// the true-colour escape `38;2;r;g;b` (when `COLORTERM` announces true
/// colour), or wrapped in the escape of the ANSI colour nearest to
/// `(r, g, b)`, one of the sixteen basic ones, named `closest_ansi_fg`.
#[verifier::external_body]
fn paint_truecolor(text: &str, r: u8, g: u8, b: u8) -> (out: String)
    ensures
        no_esc(text@) ==> {
            ||| out@ == text@
            ||| out@ == esc_wrap(true_colour_code((r, g, b)), text@)
            ||| out@ == esc_wrap(closest_ansi_fg(r, g, b), text@) && basic_fg_code(
                closest_ansi_fg(r, g, b),
            )
        },
{
    format!("{}", text.truecolor(r, g, b))
}

/// `text.color(c)` of `colored`, formatted, for the colour named by `c`.
#[verifier::external_body]
fn paint_color(text: &str, c: TermColor) -> (out: String)
    ensures
        shows(out@, text@, Paint::Codes(fg_code(c))),
{
    let color = match c {
        TermColor::Red => colored::Color::Red,
        TermColor::Green => colored::Color::Green,
        TermColor::Yellow => colored::Color::Yellow,
        TermColor::Magenta => colored::Color::Magenta,
        TermColor::Cyan => colored::Color::Cyan,
        TermColor::White => colored::Color::White,
    };
    format!("{}", text.color(color))
}

/// `text.color(c).bold()` of `colored`, formatted.
#[verifier::external_body]
fn paint_color_bold(text: &str, c: TermColor) -> (out: String)
    ensures
        shows(out@, text@, Paint::Codes("1;"@ + fg_code(c))),
{
    let color = match c {
        TermColor::Red => colored::Color::Red,
        TermColor::Green => colored::Color::Green,
        TermColor::Yellow => colored::Color::Yellow,
        TermColor::Magenta => colored::Color::Magenta,
        TermColor::Cyan => colored::Color::Cyan,
        TermColor::White => colored::Color::White,
    };
    format!("{}", text.color(color).bold())
}

// ── A text written piece by piece ───────────────────────────────────────────

/// Output under construction, with the pieces written so far.
struct Canvas {
    out: String,
    parts: Ghost<Seq<Seq<char>>>,
    pieces: Ghost<Seq<(Seq<char>, Paint)>>,
}

impl Canvas {
    spec fn ok(&self) -> bool {
        &&& self.parts@.len() == self.pieces@.len()
        &&& flatten(self.parts@) == self.out@
        &&& forall|i: int|
            0 <= i < self.parts@.len() ==> shows(
                #[trigger] self.parts@[i],
                self.pieces@[i].0,
                self.pieces@[i].1,
            )
    }

    fn new() -> (c: Canvas)
        ensures
            c.ok(),
            c.pieces@ == Seq::<(Seq<char>, Paint)>::empty(),
    {
        let c = Canvas { out: String::new(), parts: Ghost(Seq::empty()), pieces: Ghost(Seq::empty()) };
        assert(c.out@ =~= flatten(c.parts@));
        c
    }

    /// Appends `s`, which shows `text` in paint `p`.
    fn put(&mut self, s: &str, Ghost(text): Ghost<Seq<char>>, Ghost(p): Ghost<Paint>)
        requires
            old(self).ok(),
            shows(s@, text, p),
        ensures
            final(self).ok(),
            final(self).pieces@ == old(self).pieces@.push((text, p)),
    {
        let ghost parts0 = self.parts@;
        push_str(&mut self.out, s);
        self.parts = Ghost(parts0.push(s@));
        self.pieces = Ghost(self.pieces@.push((text, p)));
        assert(self.parts@.drop_last() =~= parts0);
        assert forall|i: int| 0 <= i < self.parts@.len() implies shows(
            #[trigger] self.parts@[i],
            self.pieces@[i].0,
            self.pieces@[i].1,
        ) by {
            if i < parts0.len() {
                assert(self.parts@[i] == parts0[i]);
            }
        }
    }

    /// Appends unstyled text.
    fn plain(&mut self, s: &str)
        requires
            old(self).ok(),
        ensures
            final(self).ok(),
            final(self).pieces@ == old(self).pieces@.push((s@, Paint::Plain)),
    {
        self.put(s, Ghost(s@), Ghost(Paint::Plain));
    }

    fn finish(self) -> (s: String)
        requires
            self.ok(),
        ensures
            renders(s@, self.pieces@),
    {
        let ghost parts = self.parts@;
        assert(parts.len() == self.pieces@.len() && flatten(parts) == self.out@);
        self.out
    }
}

// ── Bars and swatches ───────────────────────────────────────────────────────

/// `n` copies of `c`.
pub open spec fn repeat(c: char, n: nat) -> Seq<char> {
    Seq::new(n, |i: int| c)
}

/// Number of filled blocks of the brightness bar: a tenth of the percentage,
/// rounded up, at most ten.
pub open spec fn filled_blocks(percent: u8) -> nat {
    let f = (percent as nat + 9) / 10;
    if f > 10 { 10 } else { f }
}

/// The pieces of the brightness bar: filled blocks, empty blocks, a space
/// and the percentage.
pub open spec fn bar_pieces(percent: u8) -> Seq<(Seq<char>, Paint)> {
    let f = filled_blocks(percent);
    seq![
        (repeat('\u{2588}', f), Paint::Codes("33"@)),
        (repeat('\u{2591}', (10 - f) as nat), Paint::Codes("2"@)),
        (" "@, Paint::Plain),
        (dec_text(percent as nat) + "%"@, Paint::Codes("33"@)),
    ]
}

fn repeat_char(c: char, n: usize) -> (s: String)
    ensures
        s@ == repeat(c, n as nat),
{
    let mut s = String::new();
    let mut i: usize = 0;
    while i < n
        invariant
            i <= n,
            s@ == repeat(c, i as nat),
        decreases n - i,
    {
        s.push(c);
        i = i + 1;
        assert(s@ =~= repeat(c, i as nat));
    }
    s
}

/// A ten-block brightness bar followed by the percentage.
pub fn brightness_bar(percent: u8) -> (s: String)
    ensures
        renders(s@, bar_pieces(percent)),
{
    let f0: usize = (percent as usize + 9) / 10;
    let filled: usize = if f0 > 10 { 10 } else { f0 };
    let empty: usize = 10 - filled;
    let mut c = Canvas::new();
    let full = repeat_char('\u{2588}', filled);
    let blank = repeat_char('\u{2591}', empty);
    let mut pct = String::new();
    push_decimal(&mut pct, percent as u64);
    push_str(&mut pct, "%");
    let a = paint_yellow(full.as_str());
    c.put(a.as_str(), Ghost(full@), Ghost(Paint::Codes("33"@)));
    let b = paint_dimmed(blank.as_str());
    c.put(b.as_str(), Ghost(blank@), Ghost(Paint::Codes("2"@)));
    c.plain(" ");
    let d = paint_yellow(pct.as_str());
    c.put(d.as_str(), Ghost(pct@), Ghost(Paint::Codes("33"@)));
    assert(c.pieces@ =~= bar_pieces(percent));
    c.finish()
}

/// The pieces of a colour swatch: a block in the colour, a space and its
/// `#RRGGBB` code.
pub open spec fn swatch_pieces(c: Rgb) -> Seq<(Seq<char>, Paint)> {
    seq![("\u{2588}\u{2588}"@, Paint::TrueColour(c)), (" "@, Paint::Plain), (hex_code(c), Paint::Codes("2"@))]
}

/// The pieces of a full colour swatch: the swatch, a space and the decimal
/// components in brackets.
pub open spec fn swatch_full_pieces(c: Rgb) -> Seq<(Seq<char>, Paint)> {
    swatch_pieces(c) + seq![
        (" "@, Paint::Plain),
        ("("@ + dec_text(c.0 as nat) + ", "@ + dec_text(c.1 as nat) + ", "@ + dec_text(c.2 as nat)
            + ")"@, Paint::Codes("2"@)),
    ]
}

fn put_swatch(cv: &mut Canvas, r: u8, g: u8, b: u8)
    requires
        old(cv).ok(),
    ensures
        final(cv).ok(),
        final(cv).pieces@ == old(cv).pieces@ + swatch_pieces((r, g, b)),
{
    let ghost p0 = cv.pieces@;
    let blocks = "\u{2588}\u{2588}";
    proof {
        reveal_strlit("\u{2588}\u{2588}");
    }
    let s = paint_truecolor(blocks, r, g, b);
    cv.put(s.as_str(), Ghost(blocks@), Ghost(Paint::TrueColour((r, g, b))));
    cv.plain(" ");
    let code = crate::colors::hex_code_text((r, g, b));
    let d = paint_dimmed(code.as_str());
    cv.put(d.as_str(), Ghost(code@), Ghost(Paint::Codes("2"@)));
    assert(cv.pieces@ =~= p0 + swatch_pieces((r, g, b)));
}

/// A block in the given colour followed by its `#RRGGBB` code.
pub fn color_swatch(r: u8, g: u8, b: u8) -> (s: String)
    ensures
        renders(s@, swatch_pieces((r, g, b))),
{
    let mut cv = Canvas::new();
    put_swatch(&mut cv, r, g, b);
    assert(cv.pieces@ =~= swatch_pieces((r, g, b)));
    cv.finish()
}

/// A colour swatch followed by the decimal components, as `(r, g, b)`.
pub fn color_swatch_full(r: u8, g: u8, b: u8) -> (s: String)
    ensures
        renders(s@, swatch_full_pieces((r, g, b))),
{
    let mut cv = Canvas::new();
    put_swatch(&mut cv, r, g, b);
    cv.plain(" ");
    let mut t = String::new();
    push_str(&mut t, "(");
    push_decimal(&mut t, r as u64);
    push_str(&mut t, ", ");
    push_decimal(&mut t, g as u64);
    push_str(&mut t, ", ");
    push_decimal(&mut t, b as u64);
    push_str(&mut t, ")");
    let ghost text = "("@ + dec_text(r as nat) + ", "@ + dec_text(g as nat) + ", "@ + dec_text(
        b as nat,
    ) + ")"@;
    assert(t@ =~= text);
    let d = paint_dimmed(t.as_str());
    cv.put(d.as_str(), Ghost(t@), Ghost(Paint::Codes("2"@)));
    assert(cv.pieces@ =~= swatch_full_pieces((r, g, b)));
    cv.finish()
}

/// One block per segment, in that segment's colour.
pub open spec fn block_pieces(colors: Seq<Rgb>) -> Seq<(Seq<char>, Paint)> {
    Seq::new(colors.len(), |i: int| ("\u{2588}\u{2588}"@, Paint::TrueColour(colors[i])))
}

/// A coloured block for each segment, in order.
pub fn segment_blocks(colors: &[Rgb]) -> (s: String)
    ensures
        renders(s@, block_pieces(colors@)),
{
    let mut cv = Canvas::new();
    let blocks = "\u{2588}\u{2588}";
    proof {
        reveal_strlit("\u{2588}\u{2588}");
    }
    let mut i: usize = 0;
    assert(block_pieces(colors@.subrange(0, 0)) =~= cv.pieces@);
    while i < colors.len()
        invariant
            i <= colors@.len(),
            cv.ok(),
            cv.pieces@ == block_pieces(colors@.subrange(0, i as int)),
            blocks@ == "\u{2588}\u{2588}"@,
        decreases colors@.len() - i,
    {
        let (r, g, b) = colors[i];
        let s = paint_truecolor(blocks, r, g, b);
        cv.put(s.as_str(), Ghost(blocks@), Ghost(Paint::TrueColour((r, g, b))));
        i = i + 1;
        assert(cv.pieces@ =~= block_pieces(colors@.subrange(0, i as int)));
    }
    assert(colors@.subrange(0, colors@.len() as int) =~= colors@);
    cv.finish()
}

// ── Theme list ──────────────────────────────────────────────────────────────

/// The colour a theme category is shown in.
pub open spec fn category_color_of(cat: Seq<char>) -> TermColor {
    if cat == "static"@ {
        TermColor::Magenta
    } else if cat == "nature"@ {
        TermColor::Cyan
    } else if cat == "vibes"@ {
        TermColor::Yellow
    } else if cat == "functional"@ {
        TermColor::Green
    } else if cat == "seasonal"@ {
        TermColor::Red
    } else {
        TermColor::White
    }
}

/// The heading of a theme category: upper case for the built-in ones, the
/// name itself for any other.
pub open spec fn category_label_of(cat: Seq<char>) -> Seq<char> {
    if cat == "static"@ {
        "STATIC"@
    } else if cat == "nature"@ {
        "NATURE"@
    } else if cat == "vibes"@ {
        "VIBES"@
    } else if cat == "functional"@ {
        "FUNCTIONAL"@
    } else if cat == "seasonal"@ {
        "SEASONAL"@
    } else {
        cat
    }
}

/// The colour a theme category is shown in.
pub fn category_color(cat: &str) -> (c: TermColor)
    ensures
        c == category_color_of(cat@),
{
    if str_eq(cat, "static") {
        TermColor::Magenta
    } else if str_eq(cat, "nature") {
        TermColor::Cyan
    } else if str_eq(cat, "vibes") {
        TermColor::Yellow
    } else if str_eq(cat, "functional") {
        TermColor::Green
    } else if str_eq(cat, "seasonal") {
        TermColor::Red
    } else {
        TermColor::White
    }
}

/// The heading of a theme category.
pub fn category_label<'a>(cat: &'a str) -> (l: &'a str)
    ensures
        l@ == category_label_of(cat@),
{
    if str_eq(cat, "static") {
        "STATIC"
    } else if str_eq(cat, "nature") {
        "NATURE"
    } else if str_eq(cat, "vibes") {
        "VIBES"
    } else if str_eq(cat, "functional") {
        "FUNCTIONAL"
    } else if str_eq(cat, "seasonal") {
        "SEASONAL"
    } else {
        cat
    }
}

/// The (name, category) pairs as text.
pub open spec fn pair_views(themes: Seq<(&str, &str)>) -> Seq<(Seq<char>, Seq<char>)> {
    themes.map_values(|p: (&str, &str)| (p.0@, p.1@))
}

/// `cats` with `c` appended unless it is already there.
pub open spec fn add_category(cats: Seq<Seq<char>>, c: Seq<char>) -> Seq<Seq<char>> {
    if cats.contains(c) {
        cats
    } else {
        cats.push(c)
    }
}

/// The categories in listing order: the built-in ones, then every other
/// category in the order it first occurs.
pub open spec fn category_order(pairs: Seq<(Seq<char>, Seq<char>)>) -> Seq<Seq<char>>
    decreases pairs.len(),
{
    if pairs.len() == 0 {
        builtin_category_names()
    } else {
        add_category(category_order(pairs.drop_last()), pairs.last().1)
    }
}

/// The names of the themes in category `cat`, in order.
pub open spec fn names_in(pairs: Seq<(Seq<char>, Seq<char>)>, cat: Seq<char>) -> Seq<Seq<char>>
    decreases pairs.len(),
{
    if pairs.len() == 0 {
        Seq::empty()
    } else {
        let r = names_in(pairs.drop_last(), cat);
        if pairs.last().1 == cat {
            r.push(pairs.last().0)
        } else {
            r
        }
    }
}

/// Names joined by a dimmed middle dot between spaces.
pub open spec fn joined_pieces(names: Seq<Seq<char>>) -> Seq<(Seq<char>, Paint)>
    decreases names.len(),
{
    if names.len() == 0 {
        Seq::empty()
    } else if names.len() == 1 {
        seq![(names[0], Paint::Plain)]
    } else {
        joined_pieces(names.drop_last()) + seq![
            (" "@, Paint::Plain),
            ("\u{b7}"@, Paint::Codes("2"@)),
            (" "@, Paint::Plain),
            (names.last(), Paint::Plain),
        ]
    }
}

/// The two lines of a category: a coloured bar and the bold heading, then
/// the bar and the theme names; nothing for a category without themes.
pub open spec fn section_pieces(pairs: Seq<(Seq<char>, Seq<char>)>, cat: Seq<char>) -> Seq<
    (Seq<char>, Paint),
> {
    let names = names_in(pairs, cat);
    let fg = fg_code(category_color_of(cat));
    if names.len() == 0 {
        Seq::empty()
    } else {
        seq![
            ("\u{2502}"@, Paint::Codes(fg)),
            (" "@, Paint::Plain),
            (category_label_of(cat), Paint::Codes("1;"@ + fg)),
            ("\n"@, Paint::Plain),
            ("\u{2502}"@, Paint::Codes(fg)),
            (" "@, Paint::Plain),
        ] + joined_pieces(names) + seq![("\n"@, Paint::Plain)]
    }
}

/// The sections of the given categories, in order.
pub open spec fn sections_pieces(pairs: Seq<(Seq<char>, Seq<char>)>, cats: Seq<Seq<char>>) -> Seq<
    (Seq<char>, Paint),
>
    decreases cats.len(),
{
    if cats.len() == 0 {
        Seq::empty()
    } else {
        sections_pieces(pairs, cats.drop_last()) + section_pieces(pairs, cats.last())
    }
}

/// The theme list: a bold heading, then one section per category in listing
/// order.
pub open spec fn help_pieces(pairs: Seq<(Seq<char>, Seq<char>)>) -> Seq<(Seq<char>, Paint)> {
    seq![("THEMES"@, Paint::Codes("1;35"@)), ("\n"@, Paint::Plain)] + sections_pieces(
        pairs,
        category_order(pairs),
    )
}

fn contains_str(v: &Vec<&str>, c: &str) -> (b: bool)
    ensures
        b == v@.map_values(|s: &str| s@).contains(c@),
{
    let ghost vv = v@.map_values(|s: &str| s@);
    let mut i: usize = 0;
    while i < v.len()
        invariant
            i <= v@.len(),
            vv == v@.map_values(|s: &str| s@),
            forall|k: int| 0 <= k < i ==> vv[k] != c@,
        decreases v@.len() - i,
    {
        if str_eq(v[i], c) {
            assert(vv[i as int] == c@);
            return true;
        }
        i = i + 1;
    }
    false
}

/// The theme list for the help text, grouped by category: the built-in
/// categories first, then the others in order of appearance; categories
/// without themes are left out.
pub fn theme_list_help(themes: &[(&str, &str)]) -> (s: String)
    ensures
        renders(s@, help_pieces(pair_views(themes@))),
{
    let ghost pairs = pair_views(themes@);
    let mut cats: Vec<&str> = builtin_categories();
    let mut i: usize = 0;
    while i < themes.len()
        invariant
            i <= themes@.len(),
            pairs == pair_views(themes@),
            cats@.map_values(|s: &str| s@) == category_order(pairs.subrange(0, i as int)),
        decreases themes@.len() - i,
    {
        let (_, cat) = themes[i];
        let ghost before = cats@.map_values(|s: &str| s@);
        assert(pairs.subrange(0, i as int + 1).drop_last() =~= pairs.subrange(0, i as int));
        assert(pairs[i as int].1 == cat@);
        if !contains_str(&cats, cat) {
            cats.push(cat);
            assert(cats@.map_values(|s: &str| s@) =~= before.push(cat@));
        }
        i = i + 1;
    }
    assert(pairs.subrange(0, themes@.len() as int) =~= pairs);
    let ghost order = cats@.map_values(|s: &str| s@);
    let mut cv = Canvas::new();
    let title = paint_purple_bold("THEMES");
    cv.put(title.as_str(), Ghost("THEMES"@), Ghost(Paint::Codes("1;35"@)));
    cv.plain("\n");
    let mut k: usize = 0;
    assert(sections_pieces(pairs, order.subrange(0, 0)) =~= Seq::<(Seq<char>, Paint)>::empty());
    assert(cv.pieces@ =~= seq![("THEMES"@, Paint::Codes("1;35"@)), ("\n"@, Paint::Plain)]
        + sections_pieces(pairs, order.subrange(0, 0)));
    while k < cats.len()
        invariant
            k <= cats@.len(),
            order == cats@.map_values(|s: &str| s@),
            order == category_order(pairs),
            pairs == pair_views(themes@),
            cv.ok(),
            cv.pieces@ == seq![("THEMES"@, Paint::Codes("1;35"@)), ("\n"@, Paint::Plain)]
                + sections_pieces(pairs, order.subrange(0, k as int)),
        decreases cats@.len() - k,
    {
        let cat = cats[k];
        let ghost done = cv.pieces@;
        assert(order.subrange(0, k as int + 1).drop_last() =~= order.subrange(0, k as int));
        assert(order[k as int] == cat@);
        put_section(&mut cv, themes, cat);
        k = k + 1;
        assert(cv.pieces@ =~= seq![("THEMES"@, Paint::Codes("1;35"@)), ("\n"@, Paint::Plain)]
            + sections_pieces(pairs, order.subrange(0, k as int)));
    }
    assert(order.subrange(0, cats@.len() as int) =~= order);
    cv.finish()
}

fn names_of<'a>(themes: &[(&'a str, &'a str)], cat: &str) -> (names: Vec<&'a str>)
    ensures
        names@.map_values(|s: &str| s@) == names_in(pair_views(themes@), cat@),
{
    let ghost pairs = pair_views(themes@);
    let mut names: Vec<&str> = Vec::new();
    let mut j: usize = 0;
    assert(names@.map_values(|s: &str| s@) =~= names_in(pairs.subrange(0, 0), cat@));
    while j < themes.len()
        invariant
            j <= themes@.len(),
            pairs == pair_views(themes@),
            names@.map_values(|s: &str| s@) == names_in(pairs.subrange(0, j as int), cat@),
        decreases themes@.len() - j,
    {
        let (n, c) = themes[j];
        let ghost before = names@.map_values(|s: &str| s@);
        assert(pairs.subrange(0, j as int + 1).drop_last() =~= pairs.subrange(0, j as int));
        assert(pairs[j as int] == (n@, c@));
        if str_eq(c, cat) {
            names.push(n);
            assert(names@.map_values(|s: &str| s@) =~= before.push(n@));
        }
        j = j + 1;
    }
    assert(pairs.subrange(0, themes@.len() as int) =~= pairs);
    names
}

fn put_section(cv: &mut Canvas, themes: &[(&str, &str)], cat: &str)
    requires
        old(cv).ok(),
    ensures
        final(cv).ok(),
        final(cv).pieces@ == old(cv).pieces@ + section_pieces(pair_views(themes@), cat@),
{
    let ghost start = cv.pieces@;
    let names = names_of(themes, cat);
    let ghost nv = names@.map_values(|s: &str| s@);
    if names.len() == 0 {
        assert(cv.pieces@ =~= start + section_pieces(pair_views(themes@), cat@));
        return;
    }
    let color = category_color(cat);
    let ghost fg = fg_code(color);
    let border = paint_color("\u{2502}", color);
    let label = paint_color_bold(category_label(cat), color);
    cv.put(border.as_str(), Ghost("\u{2502}"@), Ghost(Paint::Codes(fg)));
    cv.plain(" ");
    cv.put(label.as_str(), Ghost(category_label_of(cat@)), Ghost(Paint::Codes("1;"@ + fg)));
    cv.plain("\n");
    cv.put(border.as_str(), Ghost("\u{2502}"@), Ghost(Paint::Codes(fg)));
    cv.plain(" ");
    let ghost head = cv.pieces@;
    let dot = paint_dimmed("\u{b7}");
    cv.plain(names[0]);
    assert(nv.subrange(0, 1) =~= seq![nv[0]]);
    assert(cv.pieces@ =~= head + joined_pieces(nv.subrange(0, 1)));
    let mut m: usize = 1;
    while m < names.len()
        invariant
            1 <= m <= names@.len(),
            nv == names@.map_values(|s: &str| s@),
            shows(dot@, "\u{b7}"@, Paint::Codes("2"@)),
            cv.ok(),
            cv.pieces@ == head + joined_pieces(nv.subrange(0, m as int)),
        decreases names@.len() - m,
    {
        cv.plain(" ");
        cv.put(dot.as_str(), Ghost("\u{b7}"@), Ghost(Paint::Codes("2"@)));
        cv.plain(" ");
        cv.plain(names[m]);
        assert(nv.subrange(0, m as int + 1).drop_last() =~= nv.subrange(0, m as int));
        m = m + 1;
        assert(cv.pieces@ =~= head + joined_pieces(nv.subrange(0, m as int)));
    }
    assert(nv.subrange(0, names@.len() as int) =~= nv);
    cv.plain("\n");
    assert(cv.pieces@ =~= start + section_pieces(pair_views(themes@), cat@));
}

// ── Laws ────────────────────────────────────────────────────────────────────

/// No category is listed twice.
pub open spec fn no_repeats(cats: Seq<Seq<char>>) -> bool {
    forall|i: int, j: int| 0 <= i < j < cats.len() ==> #[trigger] cats[i] != #[trigger] cats[j]
}

/// The theme list shows every category that has a theme, the built-in ones
/// first in their fixed order, each once.
pub proof fn lemma_every_category_listed(pairs: Seq<(Seq<char>, Seq<char>)>)
    ensures
        forall|i: int| 0 <= i < pairs.len() ==> category_order(pairs).contains(#[trigger] pairs[i].1),
        category_order(pairs).len() >= 5,
        category_order(pairs).subrange(0, 5) == builtin_category_names(),
        no_repeats(category_order(pairs)),
    decreases pairs.len(),
{
    reveal_strlit("static");
    reveal_strlit("nature");
    reveal_strlit("vibes");
    reveal_strlit("functional");
    reveal_strlit("seasonal");
    if pairs.len() == 0 {
        assert(builtin_category_names().subrange(0, 5) =~= builtin_category_names());
        // The built-in names differ in their first or second letter.
        assert("static"@[0] != "nature"@[0] && "static"@[0] != "vibes"@[0] && "static"@[0]
            != "functional"@[0] && "static"@[1] != "seasonal"@[1]);
        assert("nature"@[0] != "vibes"@[0] && "nature"@[0] != "functional"@[0] && "nature"@[0]
            != "seasonal"@[0]);
        assert("vibes"@[0] != "functional"@[0] && "vibes"@[0] != "seasonal"@[0]);
        assert("functional"@[0] != "seasonal"@[0]);
    } else {
        let init = pairs.drop_last();
        lemma_every_category_listed(init);
        let prev = category_order(init);
        let c = pairs.last().1;
        let now = category_order(pairs);
        assert(now == add_category(prev, c));
        if prev.contains(c) {
            assert(now == prev);
        } else {
            assert(now == prev.push(c));
            assert(now.subrange(0, 5) =~= prev.subrange(0, 5));
            assert forall|i: int, j: int| 0 <= i < j < now.len() implies #[trigger] now[i]
                != #[trigger] now[j] by {
                if j == prev.len() {
                    assert(now[i] == prev[i]);
                }
            }
            assert(now[now.len() - 1] == c);
        }
        assert forall|i: int| 0 <= i < pairs.len() implies now.contains(#[trigger] pairs[i].1) by {
            if i < init.len() {
                assert(pairs[i] == init[i]);
                let k = choose|k: int| 0 <= k < prev.len() && prev[k] == init[i].1;
                assert(now[k] == prev[k]);
            } else {
                if !prev.contains(c) {
                    assert(now[now.len() - 1] == c);
                }
            }
        }
    }
}

/// Every theme is listed under its category.
pub proof fn lemma_every_theme_listed(pairs: Seq<(Seq<char>, Seq<char>)>, i: int)
    requires
        0 <= i < pairs.len(),
    ensures
        names_in(pairs, pairs[i].1).contains(pairs[i].0),
    decreases pairs.len(),
{
    let init = pairs.drop_last();
    if i < init.len() {
        lemma_every_theme_listed(init, i);
        assert(init[i] == pairs[i]);
        let r = names_in(init, pairs[i].1);
        let k = choose|k: int| 0 <= k < r.len() && r[k] == pairs[i].0;
        if pairs.last().1 == pairs[i].1 {
            assert(r.push(pairs.last().0)[k] == r[k]);
        }
    } else {
        let r = names_in(init, pairs[i].1);
        assert(r.push(pairs[i].0)[r.len() as int] == pairs[i].0);
    }
}

} // verus!
