//! Markdown rendering.

use chibi_tui::markdown::{render, MdLine};
use chibi_tui::style::{Color, Span};
use chibi_tui::theme::{Highlighter, Theme};
use unicode_width::{UnicodeWidthChar, UnicodeWidthStr};

fn rendered(md: &str) -> Vec<MdLine> {
    render(md, &Theme::tokyo_night(), &Highlighter::new())
}

/// Border/junction characters used by the table renderer.
const TABLE_BORDERS: &str = "|\u{2502}\u{251c}\u{2524}\u{252c}\u{2534}\u{253c}";

/// Extract the char positions of all border chars in a rendered line.
fn border_positions(line: &MdLine) -> Vec<usize> {
    let plain: String = line.spans.iter().map(|s| s.content.as_str()).collect();
    plain
        .chars()
        .enumerate()
        .filter(|(_, c)| TABLE_BORDERS.contains(*c))
        .map(|(i, _)| i)
        .collect()
}

/// Display-column position of every border char in a rendered line.
/// (Char indices are insufficient once wide cells are present.)
fn display_border_positions(line: &MdLine) -> Vec<usize> {
    let plain: String = line.spans.iter().map(|s| s.content.as_str()).collect();
    let mut acc = 0usize;
    let mut out = Vec::new();
    for c in plain.chars() {
        if TABLE_BORDERS.contains(c) {
            out.push(acc);
        }
        acc += UnicodeWidthChar::width(c).unwrap_or(1);
    }
    out
}

fn to_plain(lines: &[MdLine]) -> String {
    lines
        .iter()
        .map(|l| {
            l.spans
                .iter()
                .map(|s| s.content.as_str())
                .collect::<String>()
        })
        .collect::<Vec<_>>()
        .join("\n")
}

#[test]
fn renders_commonmark_without_panic() {
    let md = "# Title\n\nSome **bold**, *italic*, `code` text.\n\n- item one\n- item two\n\n1. first\n2. second\n\n> quoted thought\n\n```rust\nlet x = 42;\n```\n";
    let lines = rendered(md);
    assert!(!lines.is_empty());
    let plain = to_plain(&lines);
    assert!(plain.contains("Title"));
    assert!(plain.contains("item one"));
    assert!(plain.contains("let x = 42;"));
}

#[test]
fn empty_input_yields_single_empty_line() {
    assert_eq!(rendered("").len(), 1);
}

#[test]
fn code_block_has_label_and_border() {
    let md = "```python\ndef f():\n    return 1\n```\n";
    let plain = to_plain(&rendered(md));
    assert!(plain.contains("╭─ python"), "top border w/ label: {plain}");
    assert!(plain.contains("╰"), "bottom border missing");
    assert!(plain.contains("def f():"));
}

#[test]
fn table_is_column_aligned_with_borders() {
    let md = "| Model | Context |\n|---|---:|\n| gpt-x | 128 |\n| mini | 8 |\n";
    let plain = to_plain(&rendered(md));
    assert!(plain.contains('│'), "vertical borders: {plain}");
    assert!(plain.contains('├'), "header separator: {plain}");
    // Header styled bold-blue; numbers must be right aligned per `---:`.
    let rows: Vec<&str> = plain.lines().filter(|l| l.contains('│')).collect();
    assert_eq!(rows.len(), 3, "3 table rows expected: {rows:?}");
    let num_row = rows[2];
    assert!(
        num_row.trim_end().ends_with('│'),
        "right-aligned number touches right border: {num_row}"
    );
}

/// Regression for the user-reported table shift: the separator's `┼`
/// junctions used to drift +N columns left-to-right (one extra dash per
/// column), so the closing `┤` never met the `│` of header/data rows.
#[test]
fn table_separator_junctions_align_with_row_borders() {
    // A right-aligned LAST column, where the borders once slipped.
    let md = "| Model | Provider | Context |\n|---|---|---:|\n\
              | glm-5.2 | ZhipuAI | 200k |\n\
              | kimi-k2.7 | MoonshotAI | 256k |\n\
              | deepseek-v4 | DeepSeek | 128k |\n";
    let lines: Vec<MdLine> = rendered(md)
        .into_iter()
        .filter(|l| !border_positions(l).is_empty())
        .collect();
    assert_eq!(lines.len(), 5, "header+sep+3 data rows expected");

    let reference = border_positions(&lines[0]); // header row borders
    for l in lines.iter() {
        assert_eq!(
            border_positions(l),
            reference,
            "border/junction positions diverge between rows"
        );
    }
}

/// Wide characters must be measured in display columns, not bytes.
/// Cyrillic is 2 bytes/1 col, CJK is 3 bytes/2 cols, box-drawing 3
/// bytes/1 col — byte-based math would misalign every column here.
#[test]
fn table_columns_stay_aligned_with_wide_chars() {
    let md = "| Модель | 模型 | ┃wide┃ |\n|---|---|---|\n\
              | кириллица | 中文测试 | ╞═╡ |\n";
    let lines: Vec<MdLine> = rendered(md)
        .into_iter()
        .filter(|l| !border_positions(l).is_empty())
        .collect();
    assert_eq!(lines.len(), 3, "header+sep+1 data row expected");

    let reference = display_border_positions(&lines[0]);
    for l in lines.iter() {
        assert_eq!(
            display_border_positions(l),
            reference,
            "display-column positions diverge between rows with wide chars"
        );
    }
}

/// Code panel top border, body and bottom border must share one width.
#[test]
fn code_panel_borders_share_width() {
    let md = "```rust\nlet x = 42;\n```\n";
    let widths: Vec<usize> = rendered(md)
        .iter()
        .map(|l| {
            let plain: String = l.spans.iter().map(|s| s.content.as_str()).collect();
            UnicodeWidthStr::width(plain.as_str())
        })
        .filter(|w| *w > 0)
        .collect();
    assert_eq!(widths[0], widths[1], "top border wider/narrower than body");
    assert_eq!(
        widths[0], widths[2],
        "bottom border off-by-one vs top (must be width-1 dashes)"
    );
}

#[test]
fn code_block_two_column_gutters() {
    let md = "```rust\nlet some_longer_variable_name = 42;\n```\n";
    let lines: Vec<_> = rendered(md)
        .into_iter()
        .filter(|l| {
            let p: String = l.spans.iter().map(|s| s.content.as_str()).collect();
            UnicodeWidthStr::width(p.as_str()) > 0
        })
        .collect();
    let plain: String = lines[1].spans.iter().map(|s| s.content.as_str()).collect();
    // Body row layout: `│` + 2-col left gutter + code + right pad + `│`.
    assert!(
        plain.starts_with("\u{2502}  "),
        "row must start with border + 2-col left gutter: {plain:?}"
    );
    assert!(
        plain.ends_with("  \u{2502}"),
        "2-col right gutter then closing border required: {plain:?}"
    );
}

/// Regression for iteration-3 diagnosis: body rows never emitted the
/// right border `│`, leaving every code panel open on the right.
#[test]
fn code_panel_body_rows_are_closed() {
    let md = "```python\ndef f():\n    return 1\n```\n";
    // `render` opens with an empty flush_line line; the panel follows.
    let rows: Vec<String> = rendered(md)
        .iter()
        .skip(1) // leading empty flush_line
        .map(|l| {
            l.spans
                .iter()
                .map(|s| s.content.as_str())
                .collect::<String>()
        })
        .collect();
    let body: Vec<&String> = rows
        .iter()
        .skip(1) // top border
        .take_while(|r| !r.starts_with('\u{2570}')) // stop at bottom border
        .collect();
    assert!(!body.is_empty(), "panel must have body rows");
    for (i, r) in body.iter().enumerate() {
        assert!(
            r.starts_with('\u{2502}') && r.ends_with('\u{2502}'),
            "body row {i} is not closed by borders: {r:?}"
        );
    }
}

/// Overlong code lines must be clipped so the closing `│` survives.
#[test]
fn long_code_lines_keep_right_border() {
    let theme = Theme::tokyo_night();
    let md = format!("```text\n{}\nshort\n```\n", "x".repeat(200));
    let widths: Vec<usize> = rendered(&md)
        .iter()
        .map(|l| {
            let plain: String = l.spans.iter().map(|s| s.content.as_str()).collect();
            UnicodeWidthStr::width(plain.as_str())
        })
        .filter(|w| *w > 0)
        .collect();
    assert!(widths.len() >= 4);
    assert!(
        widths.iter().all(|w| *w == widths[0]),
        "clipped panel must keep uniform width: {widths:?}"
    );
    // `render` opens with an empty flush_line line; the panel follows
    // at index 1 (unfiltered): 0 = blank, 1 = top border, 2 = body.
    let plain: String = rendered(&md)[2]
        .spans
        .iter()
        .map(|s| s.content.as_str())
        .collect();
    assert_eq!(
        UnicodeWidthStr::width(plain.trim_end()), // trailing bg pad only
        widths[1],
        "clipped row must reach full width incl. closing border"
    );
    assert!(plain.ends_with('\u{2502}'), "right border lost: {plain:?}");
}

/// Code surfaces blend into the chat: both background role slots equal
/// `theme.bg`, so neither the fenced block interior nor the inline code
/// chip cuts a dark patch into the chat surface — the `code_border`
/// frame (and the inline text itself) is the only separator.
#[test]
fn code_surfaces_share_chat_background() {
    let theme = Theme::tokyo_night();
    assert_eq!(theme.code_panel_bg, theme.bg, "panel tone must equal bg");
    assert_eq!(theme.code_bg, theme.bg, "inline chip tone must equal bg");

    // Fenced block: interior, gutters, padding and side borders all
    // carry the unified background.
    let md = "```rust\nlet x = 42;\n```\n";
    let rows: Vec<Vec<Span>> = rendered(md)
        .iter()
        .filter(|l| {
            let p: String = l.spans.iter().map(|s| s.content.as_str()).collect();
            p.starts_with('\u{2502}')
        })
        .map(|l| l.spans.clone())
        .collect();
    assert!(!rows.is_empty(), "panel body rows expected");
    for row in &rows {
        for span in row {
            assert_eq!(
                span.style.bg,
                Some(theme.bg),
                "panel span {:?} left the chat background",
                span.content
            );
        }
    }

    // Inline code chip: no hard cutout mid-line.
    let lines = rendered("run `make all` now");
    let chip: Vec<_> = lines
        .iter()
        .flat_map(|l| l.spans.iter())
        .filter(|s| s.content.contains("make all"))
        .collect();
    assert_eq!(chip.len(), 1, "one inline chip span expected");
    assert_eq!(chip[0].style.bg, Some(theme.bg));
}

#[test]
fn diag_correlation_list() {
    let md = "Every request carries correlation metadata:\n\n- `request_id` — unique per request, used for cancel\n- `thread_id` — stable per chat\n- `prompt` — the actual user text\n- `workspace_root` — absolute path, required\n";
    for (i, l) in rendered(md).iter().enumerate() {
        let plain: String = l.spans.iter().map(|s| s.content.as_str()).collect();
        println!("[{i}] {plain}");
    }
}

#[test]
fn a_known_language_is_highlighted() {
    let lines = rendered("```rust\nlet x = 42;\n```\n");
    let colors: Vec<Color> = lines
        .iter()
        .flat_map(|l| l.spans.iter())
        .filter(|s| ["let", "42"].contains(&s.content.trim()))
        .filter_map(|s| s.style.fg)
        .collect();
    assert!(colors.len() >= 2, "keyword and number stand in spans of their own");
    assert_ne!(colors[0], colors[1], "and differ in color");
}

#[test]
fn language_aliases_reach_the_bundled_grammars() {
    let hl = Highlighter::new();
    assert!(hl.syntax_for("rs").is_some());
    assert!(hl.syntax_for("PYTHON").is_some());
    assert!(hl.syntax_for("no-such-language").is_none());
}

#[test]
fn ordered_lists_keep_their_numbers() {
    let plain = to_plain(&rendered("3. three\n4. four\n"));
    assert!(plain.contains("3."), "{plain}");
    assert!(plain.contains("4."), "{plain}");
}

#[test]
fn unordered_lists_show_bullets() {
    let plain = to_plain(&rendered("- one\n- two\n  1. inner\n- three\n"));
    let rows: Vec<&str> = plain.lines().map(str::trim).filter(|l| !l.is_empty()).collect();
    assert_eq!(rows, ["\u{2022} one", "\u{2022} two", "1. inner", "\u{2022} three"]);
}

#[test]
fn task_lists_show_their_marks() {
    let plain = to_plain(&rendered("- [x] done\n- [ ] open\n"));
    let rows: Vec<&str> = plain.lines().map(str::trim).filter(|l| !l.is_empty()).collect();
    assert_eq!(rows, ["\u{2022} [x] done", "\u{2022} [ ] open"]);
}

#[test]
fn an_empty_cell_keeps_its_column() {
    let texts = |md: &str| -> Vec<String> { rendered(md).iter().map(MdLine::plain_text).collect() };
    assert_eq!(
        texts("| A | B |\n|---|---|\n|  | x |\n"),
        [
            "",
            "\u{2502}A   \u{2502}B   \u{2502}",
            "\u{251c}\u{2500}\u{2500}\u{2500}\u{2500}\u{253c}\u{2500}\u{2500}\u{2500}\u{2500}\u{2524}",
            "\u{2502}    \u{2502}x   \u{2502}",
            "",
            "",
        ]
    );
    let row = &texts("| A | B | C |\n|---|---|---|\n| x |  | y |\n")[3];
    assert_eq!(row, "\u{2502}x   \u{2502}    \u{2502}y   \u{2502}");
    let row = &texts("| A | B |\n|---|---|\n|  |  |\n")[3];
    assert_eq!(row, "\u{2502}    \u{2502}    \u{2502}");
}
