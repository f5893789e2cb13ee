//! Listings of models.

use chibi_tui::model_picker::{
    listing_row_label, parse_model_listing, parse_selection_confirmation, split_trailing_group,
    ModelEntry,
};

/// A listing of 104 rows in the backend's form.
fn captured() -> String {
    let mut out = String::new();
    for n in 1..=104 {
        let row = match n {
            1 => "Qwen3.8 Max (Alibaba)".to_owned(),
            2 => "Qwen3.5 Plus (Alibaba)".to_owned(),
            13 => "Google/Gemini 3.5 Flash Lite (Cheaper Inference)".to_owned(),
            51 => "glm-5.3-flash / z-ai (OpenRouter)".to_owned(),
            104 => "GLM 4.7 FlashX (ZhipuAI)".to_owned(),
            _ => format!("Model {n}.{n} (Provider {n})"),
        };
        out.push_str(&format!("{n}. {row}\n"));
    }
    out
}

#[test]
fn parses_the_real_captured_listing_end_to_end() {
    let entries = parse_model_listing(&captured());
    assert_eq!(entries.len(), 104, "every captured row parses");

    let first = &entries[0];
    assert_eq!(first.number, 1);
    assert_eq!(first.name, "Qwen3.8 Max");
    assert_eq!(first.provider.as_deref(), Some("Alibaba"));
    assert!(!first.active);

    let last = &entries[103];
    assert_eq!(last.number, 104);
    assert_eq!(last.name, "GLM 4.7 FlashX");
    assert_eq!(last.provider.as_deref(), Some("ZhipuAI"));

    // Numbers are the row's own 1-based listing index, strictly increasing.
    for (i, e) in entries.iter().enumerate() {
        assert_eq!(e.number, i + 1, "row {} kept its own number", i + 1);
    }
}

#[test]
fn keeps_names_with_slashes_and_dots_intact() {
    let entries = parse_model_listing(&captured());
    // `51. glm-5.3-flash / z-ai (OpenRouter)` — the `/` stays in the NAME.
    let openrouter = &entries[50];
    assert_eq!(openrouter.number, 51);
    assert_eq!(openrouter.name, "glm-5.3-flash / z-ai");
    assert_eq!(openrouter.provider.as_deref(), Some("OpenRouter"));
    // `13. Google/Gemini 3.5 Flash Lite (Cheaper Inference)`.
    assert_eq!(entries[12].name, "Google/Gemini 3.5 Flash Lite");
}

#[test]
fn parses_active_marker_with_variation_selector_quirk() {
    // Real marked row shape: `N. 🟢 Name️ (Provider)` — U+FE0F before the
    // space-paren (backend quirk `f"🟢 {name}️"`).
    let listing = "1. Plain Model (OpenAI)\n2. \u{1F7E2} Sonnet 5\u{FE0F} (Anthropic)\n";
    let entries = parse_model_listing(listing);
    assert_eq!(entries.len(), 2);
    assert!(!entries[0].active);
    assert_eq!(entries[0].name, "Plain Model");
    assert!(entries[1].active);
    assert_eq!(entries[1].name, "Sonnet 5");
    assert_eq!(entries[1].provider.as_deref(), Some("Anthropic"));
}

#[test]
fn prose_and_garbage_yield_zero_entries() {
    assert!(parse_model_listing("").is_empty());
    assert!(parse_model_listing("No models available.").is_empty());
    assert!(parse_model_listing("hello world\nthis is not a listing").is_empty());
    assert!(parse_model_listing("\n\n   \n").is_empty());
}

#[test]
fn lenient_parse_skips_garbage_lines_between_rows() {
    let listing = "1. Alpha (A)\ngarbage line\nno-number\nxxx. also garbage\n2. Beta (B)\n";
    let entries = parse_model_listing(listing);
    assert_eq!(entries.len(), 2);
    assert_eq!(entries[0].name, "Alpha");
    assert_eq!(entries[1].name, "Beta");
    assert_eq!(entries[1].number, 2);
}

#[test]
fn accepts_paren_separator_and_providerless_rows() {
    // `N)` separator accepted; an EMPTY `()` group is kept leniently as
    // part of the name (provider None) — a weird row beats a lost row.
    let entries = parse_model_listing("1) Bare Model\n2. Nameless ()\n");
    assert_eq!(entries.len(), 2);
    assert_eq!(entries[0].number, 1);
    assert_eq!(entries[0].name, "Bare Model");
    assert_eq!(entries[0].provider, None);
    assert_eq!(entries[1].name, "Nameless ()");
    assert_eq!(entries[1].provider, None);
}

#[test]
fn nested_parentheses_in_names_keep_the_last_group_as_provider() {
    let entries = parse_model_listing("7. Weird (Inner) Name (Real Provider)\n");
    assert_eq!(entries.len(), 1);
    assert_eq!(entries[0].name, "Weird (Inner) Name");
    assert_eq!(entries[0].provider.as_deref(), Some("Real Provider"));
}

#[test]
fn selection_confirmation_extracts_the_display_tail() {
    assert_eq!(
        parse_selection_confirmation("Selected model: GLM 5.2 (ZhipuAI)").as_deref(),
        Some("GLM 5.2 (ZhipuAI)")
    );
    assert_eq!(
        parse_selection_confirmation("  Selected model: Kimi K3 (Cheaper Inference)  \n")
            .as_deref(),
        Some("Kimi K3 (Cheaper Inference)")
    );
    assert_eq!(parse_selection_confirmation(""), None);
    assert_eq!(parse_selection_confirmation("No models available."), None);
    assert_eq!(parse_selection_confirmation("random chatter"), None);
}

#[test]
fn row_label_roundtrips_the_canonical_shape() {
    let entries = parse_model_listing("12. Glm 5.2 (Cheaper Inference)\n3. Bare\n");
    assert_eq!(
        listing_row_label(&entries[0]),
        "12. Glm 5.2 (Cheaper Inference)"
    );
    assert_eq!(listing_row_label(&entries[1]), "3. Bare");
}

#[test]
fn trailing_groups_split_off() {
    assert_eq!(
        split_trailing_group("Weird (Inner) Name (Real Provider)"),
        Some(("Weird (Inner) Name ".to_owned(), "Real Provider".to_owned()))
    );
    assert_eq!(split_trailing_group("no group"), None);
    assert_eq!(
        split_trailing_group("Nameless ()"),
        Some(("Nameless ".to_owned(), String::new()))
    );
    assert_eq!(split_trailing_group("(all)"), None);
}

#[test]
fn a_label_parses_back_into_its_entry() {
    let entry = ModelEntry {
        number: 21,
        name: "Sonnet".to_owned(),
        provider: Some("Anthropic".to_owned()),
        active: false,
    };
    let parsed = parse_model_listing(&listing_row_label(&entry));
    assert_eq!(parsed.len(), 1);
    assert_eq!(parsed[0].number, 21);
    assert_eq!(parsed[0].name, "Sonnet");
    assert_eq!(parsed[0].provider.as_deref(), Some("Anthropic"));
    assert!(!parsed[0].active);
}
