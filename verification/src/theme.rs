//! Tokyo Night inspired dark theme and the syntax highlighter's state.

use vstd::prelude::*;
use syntect::easy::HighlightLines;
use syntect::highlighting::Theme as SynTheme;
use syntect::highlighting::ThemeSet;
use syntect::parsing::SyntaxSet;
use syntect::util::LinesWithEndings;
use crate::style::Color;
use crate::text;

verus! {

/// The colors of the application, one slot per role.
#[derive(Clone, Copy, Debug, PartialEq, Eq, Structural)]
pub struct Theme {
    pub bg: Color,
    pub panel: Color,
    pub selection: Color,
    pub fg: Color,
    pub dim: Color,
    pub blue: Color,
    pub cyan: Color,
    pub green: Color,
    pub purple: Color,
    pub orange: Color,
    pub red: Color,
    pub yellow: Color,
    /// Inline code tone. Inline code is marked by its bold accent text, not by
    /// a background patch.
    pub code_bg: Color,
    /// Fenced code block interior. The block is marked by its frame, not by a
    /// separate panel tone.
    pub code_panel_bg: Color,
    /// Muted border color framing code blocks.
    pub code_border: Color,
    /// Lifted tone of the input zone.
    pub input_panel_bg: Color,
    /// Dot of the selected chat in the sidebar.
    pub active_marker: Color,
    /// Dot of an inactive thread with an unseen reply.
    pub unread_activity: Color,
    /// Resting dot of a read, unselected thread.
    pub dot_default: Color,
    /// `TRACE` lines of the log viewer.
    pub log_trace: Color,
    /// `DEBUG` lines of the log viewer.
    pub log_debug: Color,
    /// Search hits in the log viewer.
    pub log_match: Color,
}

/// The Tokyo Night colors.
pub open spec fn tokyo_night() -> Theme {
    Theme {
        bg: Color::Rgb(32, 34, 46),
        panel: Color::Rgb(21, 22, 31),
        selection: Color::Rgb(41, 46, 59),
        fg: Color::Rgb(192, 202, 245),
        dim: Color::Rgb(86, 95, 137),
        blue: Color::Rgb(122, 162, 247),
        cyan: Color::Rgb(125, 207, 255),
        green: Color::Rgb(158, 206, 106),
        purple: Color::Rgb(187, 154, 247),
        orange: Color::Rgb(255, 158, 100),
        red: Color::Rgb(247, 118, 142),
        yellow: Color::Rgb(224, 175, 104),
        code_bg: Color::Rgb(32, 34, 46),
        code_panel_bg: Color::Rgb(32, 34, 46),
        code_border: Color::Rgb(47, 61, 104),
        input_panel_bg: Color::Rgb(36, 38, 51),
        active_marker: Color::Rgb(158, 206, 106),
        unread_activity: Color::Rgb(224, 175, 104),
        dot_default: Color::Rgb(86, 95, 137),
        log_trace: Color::Rgb(59, 66, 97),
        log_debug: Color::Rgb(86, 95, 137),
        log_match: Color::Rgb(158, 206, 106),
    }
}

impl Theme {
    /// The Tokyo Night colors.
    pub fn tokyo_night() -> (r: Theme)
        ensures
            r == tokyo_night(),
    {
        Theme {
            bg: Color::Rgb(32, 34, 46),
            panel: Color::Rgb(21, 22, 31),
            selection: Color::Rgb(41, 46, 59),
            fg: Color::Rgb(192, 202, 245),
            dim: Color::Rgb(86, 95, 137),
            blue: Color::Rgb(122, 162, 247),
            cyan: Color::Rgb(125, 207, 255),
            green: Color::Rgb(158, 206, 106),
            purple: Color::Rgb(187, 154, 247),
            orange: Color::Rgb(255, 158, 100),
            red: Color::Rgb(247, 118, 142),
            yellow: Color::Rgb(224, 175, 104),
            code_bg: Color::Rgb(32, 34, 46),
            code_panel_bg: Color::Rgb(32, 34, 46),
            code_border: Color::Rgb(47, 61, 104),
            input_panel_bg: Color::Rgb(36, 38, 51),
            active_marker: Color::Rgb(158, 206, 106),
            unread_activity: Color::Rgb(224, 175, 104),
            dot_default: Color::Rgb(86, 95, 137),
            log_trace: Color::Rgb(59, 66, 97),
            log_debug: Color::Rgb(86, 95, 137),
            log_match: Color::Rgb(158, 206, 106),
        }
    }

    /// Every bundled theme, in stable order.
    pub fn bundled() -> (r: Vec<Theme>)
        ensures
            r@ == bundled_themes(),
    {
        let mut all: Vec<Theme> = Vec::new();
        all.push(Theme::tokyo_night());
        all
    }
}

/// The bundled themes, in stable order.
pub open spec fn bundled_themes() -> Seq<Theme> {
    seq![tokyo_night()]
}

/// In every bundled theme code surfaces share the chat background, so neither a
/// code block nor inline code cuts a patch into it.
pub proof fn law_code_surfaces_share_background(t: Theme)
    requires
        bundled_themes().contains(t),
    ensures
        t.code_panel_bg == t.bg,
        t.code_bg == t.bg,
{
}

/// The syntax definitions of the `syntect` crate.
#[verifier::external_type_specification]
#[verifier::external_body]
pub struct ExSyntaxSet(SyntaxSet);

/// A color theme of the `syntect` crate.
#[verifier::external_type_specification]
#[verifier::external_body]
pub struct ExSynTheme(SynTheme);

/// The tokens under which a syntax set finds a syntax.
pub uninterp spec fn syntax_tokens(set: SyntaxSet) -> Set<Seq<char>>;

/// The names of the syntaxes in a syntax set.
pub uninterp spec fn syntax_names(set: SyntaxSet) -> Set<Seq<char>>;

/// One highlighted piece of a line: its foreground color and its text.
#[derive(Debug)]
pub struct Region {
    pub color: Color,
    pub text: String,
}

/// What a [`Region`] holds.
#[verifier::ext_equal]
pub struct RegionView {
    pub color: Color,
    pub text: Seq<char>,
}

impl View for Region {
    type V = RegionView;

    open spec fn view(&self) -> RegionView {
        RegionView { color: self.color, text: self.text@ }
    }
}

/// What a list of regions holds.
pub open spec fn region_views(v: Seq<Region>) -> Seq<RegionView> {
    Seq::new(v.len(), |i: int| v[i]@)
}

/// What the regions of a list of lines hold.
pub open spec fn region_lines(v: Seq<Option<Vec<Region>>>) -> Seq<Option<Seq<RegionView>>> {
    Seq::new(
        v.len(),
        |i: int|
            match v[i] {
                Some(regions) => Some(region_views(regions@)),
                None => None,
            },
    )
}

/// A name for what `HighlightLines::highlight_line` makes, line after line, of
/// a text under the syntax of a token (`None`: plain text); `None` for a line
/// that it fails on.
pub uninterp spec fn highlighted(
    set: SyntaxSet,
    theme: SynTheme,
    token: Option<Seq<char>>,
    src: Seq<char>,
) -> Seq<Option<Seq<RegionView>>>;

/// `SyntaxSet::load_defaults_nonewlines`: the bundled syntax definitions. The
/// crate documents that a plain text syntax is always among them.
#[verifier::external_body]
fn default_syntaxes() -> (r: SyntaxSet)
    ensures
        syntax_names(r).contains("Plain Text"@),
{
    SyntaxSet::load_defaults_nonewlines()
}

/// A name for the theme called `name` among those of `ThemeSet::load_defaults`;
/// the default theme where there is none.
pub uninterp spec fn bundled_theme(name: Seq<char>) -> SynTheme;

/// Looks `name` up among the themes of `ThemeSet::load_defaults`, which are part
/// of the crate; where there is none, the default theme. What the theme holds is
/// left to its name.
#[verifier::external_body]
fn theme_named(name: &str) -> (r: SynTheme)
    ensures
        r == bundled_theme(name@),
{
    ThemeSet::load_defaults().themes.get(name).cloned().unwrap_or_default()
}

/// Whether `SyntaxSet::find_syntax_by_token` finds a syntax for `token`.
#[verifier::external_body]
fn knows_token(set: &SyntaxSet, token: &str) -> (r: bool)
    ensures
        r == syntax_tokens(*set).contains(token@),
{
    set.find_syntax_by_token(token).is_some()
}

/// `HighlightLines::highlight_line` on each line of `src` in turn, under the
/// syntax that the set finds for `token`, or under the plain text syntax. The
/// call panics on a set without a plain text syntax.
#[verifier::external_body]
fn highlight_lines(set: &SyntaxSet, theme: &SynTheme, token: Option<&str>, src: &str) -> (r: Vec<
    Option<Vec<Region>>,
>)
    requires
        syntax_names(*set).contains("Plain Text"@),
        token matches Some(t) ==> syntax_tokens(*set).contains(t@),
    ensures
        region_lines(r@) == highlighted(
            *set,
            *theme,
            match token {
                Some(t) => Some(t@),
                None => None,
            },
            src@,
        ),
{
    let found = token.and_then(|t| set.find_syntax_by_token(t));
    let mut lines = HighlightLines::new(found.unwrap_or(set.find_syntax_plain_text()), theme);
    LinesWithEndings::from(src).map(|line| {
        let regions = lines.highlight_line(line, set).ok()?;
        Some(regions.into_iter().map(|(style, piece)| Region {
            color: Color::Rgb(style.foreground.r, style.foreground.g, style.foreground.b),
            text: piece.to_string(),
        }).collect())
    }).collect()
}

/// The syntax highlighter's state: syntax definitions and a dark color theme.
pub struct Highlighter {
    pub syntaxes: SyntaxSet,
    pub theme: SynTheme,
}

/// The token that stands in for `lang` where no syntax answers to `lang`.
pub open spec fn alias(lang: Seq<char>) -> Option<Seq<char>> {
    if lang == "py"@ || lang == "python3"@ {
        Some("python"@)
    } else if lang == "sh"@ || lang == "shell"@ || lang == "console"@ {
        Some("bash"@)
    } else if lang == "js"@ {
        Some("javascript"@)
    } else if lang == "ts"@ {
        Some("typescript"@)
    } else if lang == "rs"@ {
        Some("rust"@)
    } else {
        None
    }
}

/// The token whose syntax highlights a block labelled `lang`: the label itself
/// or its alias, trimmed and in lower case; `None` for plain text.
pub open spec fn syntax_token(known: Set<Seq<char>>, lang: Seq<char>) -> Option<Seq<char>> {
    let l = text::ascii_lowercase(text::trim(lang));
    if l.len() == 0 {
        None
    } else if known.contains(l) {
        Some(l)
    } else {
        match alias(l) {
            Some(other) if known.contains(other) => Some(other),
            _ => None,
        }
    }
}

fn alias_of(lang: &str) -> (r: Option<String>)
    ensures
        match r {
            Some(s) => alias(lang@) == Some(s@),
            None => alias(lang@) is None,
        },
{
    if text::same_text(lang, "py") || text::same_text(lang, "python3") {
        Some(text::owned("python"))
    } else if text::same_text(lang, "sh") || text::same_text(lang, "shell") || text::same_text(
        lang,
        "console",
    ) {
        Some(text::owned("bash"))
    } else if text::same_text(lang, "js") {
        Some(text::owned("javascript"))
    } else if text::same_text(lang, "ts") {
        Some(text::owned("typescript"))
    } else if text::same_text(lang, "rs") {
        Some(text::owned("rust"))
    } else {
        None
    }
}

impl Highlighter {
    /// A highlighter can always fall back to plain text.
    pub open spec fn well_formed(&self) -> bool {
        syntax_names(self.syntaxes).contains("Plain Text"@)
    }

    /// Loads the bundled syntax definitions and the dark theme.
    pub fn new() -> (r: Highlighter)
        ensures
            r.well_formed(),
            r.theme == bundled_theme("base16-eighties.dark"@),
    {
        Highlighter { syntaxes: default_syntaxes(), theme: theme_named("base16-eighties.dark") }
    }

    /// Resolves the info string of a fence (`rust`, `py`, `bash`, …) into the
    /// token of a syntax, `None` for plain text.
    pub fn syntax_for(&self, lang: &str) -> (r: Option<String>)
        ensures
            match r {
                Some(s) => syntax_token(syntax_tokens(self.syntaxes), lang@) == Some(s@),
                None => syntax_token(syntax_tokens(self.syntaxes), lang@) is None,
            },
    {
        let trimmed = text::trimmed(lang);
        let l = text::to_ascii_lower(&trimmed);
        if l.as_str().is_empty() {
            return None;
        }
        if knows_token(&self.syntaxes, &l) {
            return Some(l);
        }
        match alias_of(&l) {
            Some(other) => {
                if knows_token(&self.syntaxes, &other) {
                    Some(other)
                } else {
                    None
                }
            },
            None => None,
        }
    }

    /// The highlighted lines of `src` as a block labelled `lang`.
    pub fn highlight(&self, lang: &str, src: &str) -> (r: Vec<Option<Vec<Region>>>)
        requires
            self.well_formed(),
        ensures
            region_lines(r@) == highlighted(
                self.syntaxes,
                self.theme,
                syntax_token(syntax_tokens(self.syntaxes), lang@),
                src@,
            ),
    {
        match self.syntax_for(lang) {
            Some(token) => highlight_lines(&self.syntaxes, &self.theme, Some(token.as_str()), src),
            None => highlight_lines(&self.syntaxes, &self.theme, None, src),
        }
    }
}

/// A language is looked up by its own name first, in either case and without the
/// white space around it, then by the name that it is short for.
pub proof fn law_languages_are_looked_up(known: Set<Seq<char>>, lang: Seq<char>)
    ensures
        syntax_token(known, lang) matches Some(t) ==> known.contains(t),
        text::trim(lang).len() > 0 && known.contains(text::ascii_lowercase(text::trim(lang)))
            ==> syntax_token(known, lang) == Some(text::ascii_lowercase(text::trim(lang))),
        text::trim(lang).len() == 0 ==> syntax_token(known, lang) is None,
        syntax_token(known, lang) == syntax_token(known, text::trim(lang)) || text::trim(
            text::trim(lang),
        ) != text::trim(lang),
{
}

/// The short names stand for their languages.
pub proof fn law_short_names(known: Set<Seq<char>>, short: Seq<char>, long: Seq<char>)
    requires
        (short == "py"@ && long == "python"@) || (short == "python3"@ && long == "python"@) || (
        short == "sh"@ && long == "bash"@) || (short == "shell"@ && long == "bash"@) || (short
            == "console"@ && long == "bash"@) || (short == "js"@ && long == "javascript"@) || (
        short == "ts"@ && long == "typescript"@) || (short == "rs"@ && long == "rust"@),
    ensures
        alias(short) == Some(long),
{
    reveal_strlit("py");
    reveal_strlit("python3");
    reveal_strlit("sh");
    reveal_strlit("shell");
    reveal_strlit("console");
    reveal_strlit("js");
    reveal_strlit("ts");
    reveal_strlit("rs");
    if short == "js"@ {
        assert(short[0] == 'j');
        assert("py"@[0] == 'p' && "sh"@[0] == 's' && "shell"@[0] == 's' && "console"@[0] == 'c'
            && "python3"@[0] == 'p');
    } else if short == "ts"@ {
        assert(short[0] == 't');
        assert("py"@[0] == 'p' && "sh"@[0] == 's' && "shell"@[0] == 's' && "console"@[0] == 'c'
            && "python3"@[0] == 'p' && "js"@[0] == 'j');
    } else if short == "rs"@ {
        assert(short[0] == 'r');
        assert("py"@[0] == 'p' && "sh"@[0] == 's' && "shell"@[0] == 's' && "console"@[0] == 'c'
            && "python3"@[0] == 'p' && "js"@[0] == 'j' && "ts"@[0] == 't');
    } else if short == "sh"@ || short == "shell"@ {
        assert(short[0] == 's');
        assert("py"@[0] == 'p' && "python3"@[0] == 'p');
    } else if short == "console"@ {
        assert(short[0] == 'c');
        assert("py"@[0] == 'p' && "python3"@[0] == 'p');
    }
}

} // verus!
