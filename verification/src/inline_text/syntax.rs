//! Syntax highlighting by `syntect`.

use syntect::easy::HighlightLines;
use syntect::highlighting::{FontStyle, Theme, ThemeSet};
use syntect::parsing::{SyntaxReference, SyntaxSet};
use vstd::prelude::*;

#[allow(unused_imports)]
use crate::text::{has_prefix, option_view, views};
use crate::text::same;

verus! {

/// `syntect::parsing::SyntaxSet`, the syntaxes that are known.
#[verifier::external_type_specification]
#[verifier::external_body]
pub struct ExSyntaxSet(SyntaxSet);

/// `syntect::parsing::SyntaxReference`, one of the syntaxes of a set.
#[verifier::external_type_specification]
#[verifier::external_body]
pub struct ExSyntaxReference(SyntaxReference);

/// `syntect::highlighting::Theme`, the colours of the highlighting.
#[verifier::external_type_specification]
#[verifier::external_body]
pub struct ExTheme(Theme);

/// `syntect::highlighting::ThemeSet`, the themes that are known.
#[verifier::external_type_specification]
#[verifier::external_body]
pub struct ExThemeSet(ThemeSet);

/// `syntect::easy::HighlightLines`, a highlighter and what it remembers of the
/// lines it has seen.
#[verifier::external_type_specification]
#[verifier::external_body]
pub struct ExHighlightLines<'a>(HighlightLines<'a>);

/// The names of the syntaxes of a set.
pub uninterp spec fn syntax_names(set: SyntaxSet) -> Set<Seq<char>>;

/// The syntax of a set that has a name.
pub uninterp spec fn syntax_named(set: SyntaxSet, name: Seq<char>) -> SyntaxReference;

/// Whether each syntax of a set has the context that a text starts in, and whether the
/// contexts that it leads to are there and do not leave that one.
pub uninterp spec fn complete_syntaxes(set: SyntaxSet) -> bool;

/// Whether a set is that of the themes that come with `syntect`.
pub uninterp spec fn bundled_themes(set: ThemeSet) -> bool;

/// The names of the themes of a set, in order.
pub uninterp spec fn theme_names(set: ThemeSet) -> Seq<Seq<char>>;

/// The theme of a set that has a name.
pub uninterp spec fn theme_named(set: ThemeSet, name: Seq<char>) -> Theme;

/// The syntax that a highlighter was made for.
pub uninterp spec fn lines_syntax(lines: HighlightLines<'_>) -> SyntaxReference;

/// The theme that a highlighter was made for.
pub uninterp spec fn lines_theme(lines: HighlightLines<'_>) -> Theme;

/// The lines that a highlighter has seen, each with the syntaxes that were known.
pub uninterp spec fn lines_seen(lines: HighlightLines<'_>) -> Seq<(SyntaxSet, Seq<char>)>;

/// The pieces that a line is cut into by a highlighter for a syntax and a theme that
/// has seen some lines; `None` where the syntax cannot be applied to it.
pub uninterp spec fn line_pieces(
    syntax: SyntaxReference,
    theme: Theme,
    seen: Seq<(SyntaxSet, Seq<char>)>,
    set: SyntaxSet,
    line: Seq<char>,
) -> Option<Seq<Piece>>;

/// `SyntaxSet::find_syntax_by_name` finds a syntax exactly where the set has
/// one of that name, and it is always the same one.
pub assume_specification<'a>[ SyntaxSet::find_syntax_by_name ](
    set: &'a SyntaxSet,
    name: &str,
) -> (r: Option<&'a SyntaxReference>)
    ensures
        r is Some <==> syntax_names(*set).contains(name@),
        r matches Some(syntax) ==> *syntax == syntax_named(*set, name@),
;

/// `SyntaxSet::load_defaults_newlines` loads the syntaxes that come with `syntect`. They
/// are complete, and there is one for plain text. Which others they are is not said.
pub assume_specification[ SyntaxSet::load_defaults_newlines ]() -> (r: SyntaxSet)
    ensures
        complete_syntaxes(r),
        syntax_names(r).contains("Plain Text"@),
;

/// `ThemeSet::load_defaults` loads the themes that come with `syntect`. One of them is
/// called `base16-ocean.dark`. Which others they are is not said.
pub assume_specification[ ThemeSet::load_defaults ]() -> (r: ThemeSet)
    ensures
        bundled_themes(r),
        theme_names(r).contains("base16-ocean.dark"@),
;

/// `BTreeMap::keys` of the themes of a `ThemeSet` gives their names in order.
#[verifier::external_body]
fn names_of(set: &ThemeSet) -> (r: Vec<String>)
    ensures
        views(r@) == theme_names(*set),
{
    set.themes.keys().cloned().collect()
}

/// `BTreeMap::get` of the themes of a `ThemeSet` finds a theme exactly where the set
/// has one of that name, and it is always the same one.
#[verifier::external_body]
fn find_theme(set: &ThemeSet, name: &str) -> (r: Option<Theme>)
    ensures
        r is Some <==> theme_names(*set).contains(name@),
        r matches Some(theme) ==> theme == theme_named(*set, name@),
{
    set.themes.get(name).cloned()
}

/// Whether a syntax is the one of that name in a set of complete syntaxes.
pub open spec fn comes_from(syntax: SyntaxReference, set: SyntaxSet, name: Seq<char>) -> bool {
    complete_syntaxes(set) && syntax_names(set).contains(name) && syntax == syntax_named(set, name)
}

/// `HighlightLines::new` makes a highlighter for a syntax and a theme that has seen
/// no line. It panics on a syntax without the context that a text starts in.
pub assume_specification<'a>[ HighlightLines::<'a>::new ](
    syntax: &SyntaxReference,
    theme: &'a Theme,
) -> (r: HighlightLines<'a>)
    requires
        exists|set: SyntaxSet, name: Seq<char>| comes_from(*syntax, set, name),
    ensures
        lines_syntax(r) == *syntax,
        lines_theme(r) == *theme,
        lines_seen(r) == Seq::<(SyntaxSet, Seq<char>)>::empty(),
;

/// A piece of a line in one style.
#[derive(Debug)]
pub struct Token {
    pub red: u8,
    pub green: u8,
    pub blue: u8,
    pub bold: bool,
    pub italic: bool,
    pub underline: bool,
    pub text: String,
}

/// A piece of a line in one style.
#[verifier::ext_equal]
pub struct Piece {
    pub red: u8,
    pub green: u8,
    pub blue: u8,
    pub bold: bool,
    pub italic: bool,
    pub underline: bool,
    pub text: Seq<char>,
}

impl View for Token {
    type V = Piece;

    open spec fn view(&self) -> Piece {
        Piece {
            red: self.red,
            green: self.green,
            blue: self.blue,
            bold: self.bold,
            italic: self.italic,
            underline: self.underline,
            text: self.text@,
        }
    }
}

/// Tokens as mathematical objects.
pub open spec fn pieces(tokens: Seq<Token>) -> Seq<Piece> {
    tokens.map_values(|token: Token| token@)
}

/// The texts of pieces, one behind the other.
pub open spec fn pieces_text(pieces: Seq<Piece>) -> Seq<char>
    decreases pieces.len(),
{
    if pieces.len() == 0 {
        Seq::empty()
    } else {
        pieces_text(pieces.drop_last()) + pieces.last().text
    }
}

/// A black piece.
pub open spec fn black(text: Seq<char>) -> Piece {
    Piece { red: 0, green: 0, blue: 0, bold: false, italic: false, underline: false, text }
}

/// The syntaxes, the colours, and the syntax of the text. The syntaxes are complete, and
/// there is one of that name.
pub struct SyntaxHighlighter {
    syntax_set: SyntaxSet,
    theme: Theme,
    syntax_name: String,
}

/// A highlighter that goes through a text line by line.
pub struct LineHighlighter<'a> {
    source: &'a SyntaxHighlighter,
    lines: HighlightLines<'a>,
}

/// Why a text cannot be highlighted.
#[derive(Clone, Copy, Debug, PartialEq, Eq, Structural)]
pub enum Unlit {
    /// There are no themes.
    NoThemes,
    /// There is no syntax for plain text.
    NoPlainText,
}

impl Unlit {
    /// The message for the user.
    pub fn message(self) -> (r: String)
        ensures
            r@ == match self {
                Unlit::NoThemes => "no syntect themes available"@,
                Unlit::NoPlainText => "All syntax sets ought to have a plain text syntax"@,
            },
    {
        match self {
            Unlit::NoThemes => "no syntect themes available".to_string(),
            Unlit::NoPlainText => "All syntax sets ought to have a plain text syntax".to_string(),
        }
    }
}

/// The name of the syntax that a text is highlighted by: the one that is wanted, or
/// plain text where that is not known.
pub open spec fn lit_name(set: SyntaxSet, wanted: Option<Seq<char>>) -> Option<Seq<char>> {
    match wanted {
        Some(name) if syntax_names(set).contains(name) => Some(name),
        _ => if syntax_names(set).contains(plain_text()) {
            Some(plain_text())
        } else {
            None
        },
    }
}

/// The name of the syntax that colours nothing.
pub open spec fn plain_text() -> Seq<char> {
    "Plain Text"@
}

/// Whether a theme is the one of that name among those that come with `syntect`.
pub open spec fn is_bundled(theme: Theme, name: Seq<char>) -> bool {
    exists|set: ThemeSet| #[trigger] bundled_themes(set) && theme == theme_named(set, name)
}

/// The syntaxes that come with `syntect`.
pub fn default_syntaxes() -> (r: SyntaxSet)
    ensures
        complete_syntaxes(r),
        syntax_names(r).contains(plain_text()),
{
    SyntaxSet::load_defaults_newlines()
}

impl SyntaxHighlighter {
    /// The name of the syntax of the text.
    pub closed spec fn name(self) -> Seq<char> {
        self.syntax_name@
    }

    /// The syntaxes that are known.
    pub closed spec fn set(self) -> SyntaxSet {
        self.syntax_set
    }

    /// The colours.
    pub closed spec fn theme(self) -> Theme {
        self.theme
    }

    /// The syntaxes are complete, and that of the text is one of them.
    pub open spec fn wf(self) -> bool {
        complete_syntaxes(self.set()) && syntax_names(self.set()).contains(self.name())
    }

    /// The pieces of a line behind other lines. Where the syntax cannot be applied to
    /// it, it is one black piece.
    pub open spec fn pieces_of(self, before: Seq<Seq<char>>, line: Seq<char>) -> Seq<Piece> {
        match line_pieces(
            syntax_named(self.set(), self.name()),
            self.theme(),
            before.map_values(|text: Seq<char>| (self.set(), text)),
            self.set(),
            line,
        ) {
            Some(pieces) => pieces,
            None => seq![black(line)],
        }
    }

    /// A highlighter for the syntax of that name, or for plain text where the
    /// set has no such syntax; `None` where it has no plain text either.
    pub fn with_theme(syntax_set: SyntaxSet, theme: Theme, syntax_name: Option<String>) -> (r: Option<
        SyntaxHighlighter,
    >)
        requires
            complete_syntaxes(syntax_set),
        ensures
            match lit_name(syntax_set, option_view(syntax_name)) {
                Some(name) => r matches Some(highlighter) && highlighter.wf() && highlighter.set()
                    == syntax_set && highlighter.theme() == theme && highlighter.name() == name,
                None => r is None,
            },
    {
        let wanted = match syntax_name {
            Some(name) => name,
            None => "Plain Text".to_string(),
        };
        let known = syntax_set.find_syntax_by_name(wanted.as_str()).is_some();
        if known {
            return Some(SyntaxHighlighter { syntax_set, theme, syntax_name: wanted });
        }
        if syntax_set.find_syntax_by_name("Plain Text").is_some() {
            Some(SyntaxHighlighter { syntax_set, theme, syntax_name: "Plain Text".to_string() })
        } else {
            None
        }
    }

    /// A highlighter for the syntax of that name, in the preferred one of some themes.
    pub fn with_themes(syntax_set: SyntaxSet, themes: &ThemeSet, syntax_name: Option<String>) -> (r:
        Result<SyntaxHighlighter, Unlit>)
        requires
            complete_syntaxes(syntax_set),
        ensures
            ({
                let name = lit_name(syntax_set, option_view(syntax_name));
                match (preferred(theme_names(*themes)), name) {
                    (None, _) => r == Err::<SyntaxHighlighter, Unlit>(Unlit::NoThemes),
                    (Some(_), None) => r == Err::<SyntaxHighlighter, Unlit>(Unlit::NoPlainText),
                    (Some(i), Some(name)) => r matches Ok(highlighter) && highlighter.wf()
                        && highlighter.set() == syntax_set && highlighter.name() == name
                        && highlighter.theme() == theme_named(*themes, theme_names(*themes)[i]),
                }
            }),
    {
        let names = names_of(themes);
        let Some(i) = preferred_theme(&names) else {
            return Err(Unlit::NoThemes);
        };
        assert(views(names@)[i as int] == names@[i as int]@);
        assert(theme_names(*themes).contains(names@[i as int]@));
        let Some(theme) = find_theme(themes, names[i].as_str()) else {
            return Err(Unlit::NoThemes);
        };
        match SyntaxHighlighter::with_theme(syntax_set, theme, syntax_name) {
            Some(highlighter) => Ok(highlighter),
            None => Err(Unlit::NoPlainText),
        }
    }

    /// A highlighter for the syntax of that name, in the preferred one of the themes
    /// that come with `syntect`.
    pub fn new(syntax_set: SyntaxSet, syntax_name: Option<String>) -> (r: Result<
        SyntaxHighlighter,
        Unlit,
    >)
        requires
            complete_syntaxes(syntax_set),
        ensures
            match lit_name(syntax_set, option_view(syntax_name)) {
                Some(name) => {
                    &&& r matches Ok(highlighter)
                    &&& highlighter.wf()
                    &&& highlighter.set() == syntax_set
                    &&& highlighter.name() == name
                    &&& is_bundled(highlighter.theme(), "base16-ocean.dark"@)
                },
                None => r == Err::<SyntaxHighlighter, Unlit>(Unlit::NoPlainText),
            },
    {
        let themes = ThemeSet::load_defaults();
        let ghost names = theme_names(themes);
        proof {
            names.index_of_first_ensures("base16-ocean.dark"@);
        }
        SyntaxHighlighter::with_themes(syntax_set, &themes, syntax_name)
    }

    /// A highlighter that has seen no line of the text.
    pub fn start(&self) -> (r: LineHighlighter<'_>)
        requires
            self.wf(),
        ensures
            r.wf(),
            r.source() == self,
            r.seen() == Seq::<Seq<char>>::empty(),
    {
        let syntax = self.syntax_set.find_syntax_by_name(self.syntax_name.as_str()).unwrap();
        assert(comes_from(*syntax, self.set(), self.name()));
        let lines = HighlightLines::new(syntax, &self.theme);
        let r = LineHighlighter { source: self, lines };
        assert(r.seen() =~= Seq::empty());
        r
    }
}

/// `HighlightLines::highlight_line` cuts the next line of a text into pieces. They
/// depend on what the highlighter was made for, on the lines that it has seen, and on
/// the line. One behind the other they make up the line, or the head of it where the
/// scopes of the syntax do not nest. Nothing is claimed of when the call fails. It may
/// panic where the set is not the one that the syntax came from, now or for a line
/// before.
#[verifier::external_body]
fn highlight_line(lines: &mut HighlightLines<'_>, set: &SyntaxSet, line: &str) -> (r: Option<
    Vec<Token>,
>)
    requires
        exists|name: Seq<char>| comes_from(lines_syntax(*old(lines)), *set, name),
        forall|i: int|
            0 <= i < lines_seen(*old(lines)).len() ==> (#[trigger] lines_seen(*old(lines))[i]).0
                == *set,
    ensures
        match r {
            Some(tokens) => Some(pieces(tokens@)),
            None => None,
        } == line_pieces(
            lines_syntax(*old(lines)),
            lines_theme(*old(lines)),
            lines_seen(*old(lines)),
            *set,
            line@,
        ),
        lines_syntax(*final(lines)) == lines_syntax(*old(lines)),
        lines_theme(*final(lines)) == lines_theme(*old(lines)),
        lines_seen(*final(lines)) == lines_seen(*old(lines)).push((*set, line@)),
        r matches Some(tokens) ==> has_prefix(line@, pieces_text(pieces(tokens@))),
{
    let found = lines.highlight_line(line, set).ok()?;
    let token = |(style, text): (syntect::highlighting::Style, &str)| Token {
        red: style.foreground.r,
        green: style.foreground.g,
        blue: style.foreground.b,
        bold: style.font_style.contains(FontStyle::BOLD),
        italic: style.font_style.contains(FontStyle::ITALIC),
        underline: style.font_style.contains(FontStyle::UNDERLINE),
        text: text.to_string(),
    };
    Some(found.into_iter().map(token).collect())
}

impl<'a> LineHighlighter<'a> {
    /// What the highlighter was made of.
    pub closed spec fn source(self) -> SyntaxHighlighter {
        *self.source
    }

    /// The lines that it has seen.
    pub closed spec fn seen(self) -> Seq<Seq<char>> {
        lines_seen(self.lines).map_values(|seen: (SyntaxSet, Seq<char>)| seen.1)
    }

    /// The lines are highlighted by what the highlighter was made of.
    pub closed spec fn wf(self) -> bool {
        &&& self.source().wf()
        &&& lines_syntax(self.lines) == syntax_named(self.source().set(), self.source().name())
        &&& lines_theme(self.lines) == self.source().theme()
        &&& forall|i: int|
            0 <= i < lines_seen(self.lines).len() ==> (#[trigger] lines_seen(self.lines)[i]).0
                == self.source().set()
    }

    /// The next line of a text in tokens. Where the syntax cannot be applied to
    /// it, it is one black token.
    pub fn tokens(&mut self, line: &str) -> (r: Vec<Token>)
        requires
            old(self).wf(),
        ensures
            pieces(r@) == old(self).source().pieces_of(old(self).seen(), line@),
            has_prefix(line@, pieces_text(pieces(r@))),
            final(self).wf(),
            final(self).source() == old(self).source(),
            final(self).seen() == old(self).seen().push(line@),
    {
        let ghost before = self.seen();
        let ghost lines = lines_seen(self.lines);
        let set = &self.source.syntax_set;
        let ghost known = self.source().set();
        assert(before.map_values(|text: Seq<char>| (known, text)) =~= lines);
        assert(comes_from(lines_syntax(self.lines), known, self.source().name()));
        let found = highlight_line(&mut self.lines, set, line);
        assert(self.seen() =~= before.push(line@));
        match found {
            Some(tokens) => tokens,
            None => {
                let mut tokens: Vec<Token> = Vec::new();
                tokens.push(
                    Token {
                        red: 0,
                        green: 0,
                        blue: 0,
                        bold: false,
                        italic: false,
                        underline: false,
                        text: line.to_string(),
                    },
                );
                let ghost only = pieces(tokens@);
                assert(only =~= seq![black(line@)]);
                proof {
                    reveal_with_fuel(pieces_text, 2);
                }
                assert(only.drop_last() =~= Seq::empty());
                assert(pieces_text(only) =~= line@);
                assert(line@.take(line@.len() as int) =~= line@);
                tokens
            },
        }
    }
}

/// The theme that is taken from a list of themes: the dark one, or else the
/// first.
pub open spec fn preferred(names: Seq<Seq<char>>) -> Option<int> {
    if names.contains("base16-ocean.dark"@) {
        Some(names.index_of_first("base16-ocean.dark"@)->0)
    } else if names.len() > 0 {
        Some(0)
    } else {
        None
    }
}

/// The theme that is taken from a list of themes, in which no name occurs twice.
pub fn preferred_theme(names: &Vec<String>) -> (r: Option<usize>)
    ensures
        match preferred(views(names@)) {
            Some(i) => r == Some(i as usize) && 0 <= i < names@.len(),
            None => r is None,
        },
{
    let ghost all = views(names@);
    let mut i: usize = 0;
    while i < names.len()
        invariant
            i <= names@.len(),
            all == views(names@),
            forall|j: int| 0 <= j < i ==> #[trigger] all[j] != "base16-ocean.dark"@,
        decreases names@.len() - i,
    {
        assert(all[i as int] == names@[i as int]@);
        if same(names[i].as_str(), "base16-ocean.dark") {
            proof {
                all.index_of_first_ensures("base16-ocean.dark"@);
            }
            return Some(i);
        }
        i = i + 1;
    }
    if names.len() > 0 {
        Some(0)
    } else {
        None
    }
}

} // verus!
