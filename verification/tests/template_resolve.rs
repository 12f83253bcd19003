use site_core::ConfigTable;
use site_core::ConfigValue;
use site_core::RenderPlan;
use site_core::generate_prose_class;
use site_core::parse_card_groups;
use site_core::resolve_template;
use site_core::template_using;

const DEFAULT_CLASS: &str = "prose prose-sm sm:prose-base dark:prose-invert";

fn table(entries: Vec<(&str, ConfigValue)>) -> ConfigTable {
    ConfigTable {
        entries: entries.into_iter().map(|(k, v)| (k.to_string(), v)).collect(),
    }
}

fn style(entries: Vec<(&str, &str)>) -> ConfigTable {
    table(
        entries
            .into_iter()
            .map(|(k, v)| (k, ConfigValue::Str(v.to_string())))
            .collect(),
    )
}

#[test]
fn md_without_template_uses_defaults() {
    match resolve_template("intro.md", "# hello", None) {
        RenderPlan::CenterMarkdown { markdown, class, hide_navbar, hide_footer } => {
            assert_eq!(markdown, "# hello");
            assert_eq!(class, DEFAULT_CLASS);
            assert!(!hide_navbar);
            assert!(!hide_footer);
        }
        _ => panic!("expected the centered markdown plan"),
    }
}

#[test]
fn md_with_unrecognized_using_still_renders_centered() {
    let t = table(vec![("using", ConfigValue::Str("sideways".to_string()))]);
    match resolve_template("intro.md", "text", Some(&t)) {
        RenderPlan::CenterMarkdown { class, .. } => assert_eq!(class, DEFAULT_CLASS),
        _ => panic!("expected the centered markdown plan"),
    }
}

#[test]
fn md_chrome_toggles_come_from_the_table() {
    let t = table(vec![
        ("hide-navbar", ConfigValue::Bool(true)),
        ("hide-footer", ConfigValue::Bool(true)),
    ]);
    match resolve_template("intro.md", "text", Some(&t)) {
        RenderPlan::CenterMarkdown { hide_navbar, hide_footer, .. } => {
            assert!(hide_navbar);
            assert!(hide_footer);
        }
        _ => panic!("expected the centered markdown plan"),
    }
}

#[test]
fn md_non_boolean_toggle_reads_false() {
    let t = table(vec![("hide-navbar", ConfigValue::Str("yes".to_string()))]);
    match resolve_template("intro.md", "text", Some(&t)) {
        RenderPlan::CenterMarkdown { hide_navbar, .. } => assert!(!hide_navbar),
        _ => panic!("expected the centered markdown plan"),
    }
}

#[test]
fn md_style_table_builds_the_class() {
    let t = table(vec![(
        "style",
        ConfigValue::Table(style(vec![("h1", "text-xl")])),
    )]);
    match resolve_template("intro.md", "text", Some(&t)) {
        RenderPlan::CenterMarkdown { class, .. } => {
            assert_eq!(class, format!("{DEFAULT_CLASS} prose-h1:text-xl"));
        }
        _ => panic!("expected the centered markdown plan"),
    }
}

#[test]
fn json_without_using_renders_cards() {
    let body = r#"{"Docs": []}"#;
    match resolve_template("links.json", body, None) {
        RenderPlan::CardList { groups } => {
            assert_eq!(groups.len(), 1);
            assert_eq!(groups[0].0, "Docs");
            assert!(groups[0].1.is_empty());
        }
        _ => panic!("expected the card list plan"),
    }
}

#[test]
fn unsupported_suffixes_are_not_found() {
    assert!(matches!(resolve_template("notes.txt", "x", None), RenderPlan::NotFound));
    assert!(matches!(resolve_template("readme", "x", None), RenderPlan::NotFound));
    assert!(matches!(resolve_template("trailing.", "x", None), RenderPlan::NotFound));
    assert!(matches!(resolve_template("upper.MD", "x", None), RenderPlan::NotFound));
    let t = table(vec![("using", ConfigValue::Str("center".to_string()))]);
    assert!(matches!(resolve_template("notes.txt", "x", Some(&t)), RenderPlan::NotFound));
}

#[test]
fn card_fields_round_trip() {
    let body = r#"{"Docs": [{"title":"A","url":"/a","content":"c","footnote":"f"}]}"#;
    match resolve_template("links.json", body, None) {
        RenderPlan::CardList { groups } => {
            assert_eq!(groups.len(), 1);
            let (group, cards) = &groups[0];
            assert_eq!(group, "Docs");
            assert_eq!(cards.len(), 1);
            assert_eq!(cards[0].title, "A");
            assert_eq!(cards[0].url, "/a");
            assert_eq!(cards[0].content, "c");
            assert_eq!(cards[0].footnote, "f");
        }
        _ => panic!("expected the card list plan"),
    }
}

#[test]
fn malformed_json_surfaces_a_message() {
    match resolve_template("links.json", "{ not json", None) {
        RenderPlan::ParseFailed { message } => assert!(!message.is_empty()),
        _ => panic!("expected the parse-failed plan"),
    }
}

#[test]
fn missing_card_field_surfaces_a_message() {
    let body = r#"{"Docs": [{"title":"A","url":"/a","content":"c"}]}"#;
    match resolve_template("links.json", body, None) {
        RenderPlan::ParseFailed { message } => {
            assert_eq!(message, "card is missing a required string field");
        }
        _ => panic!("expected the parse-failed plan"),
    }
}

#[test]
fn extra_card_fields_past_the_required_four_are_ignored() {
    let body = r#"{"Docs": [{"title":"A","url":"/a","content":"c","footnote":"f","tag":"x"}]}"#;
    match parse_card_groups(body) {
        Ok(groups) => assert_eq!(groups[0].1[0].title, "A"),
        Err(m) => panic!("expected a parse, got: {m}"),
    }
}

#[test]
fn card_groups_come_sorted_by_name() {
    let body = r#"{"Zeta": [], "Alpha": []}"#;
    let groups = parse_card_groups(body).unwrap();
    assert_eq!(groups.len(), 2);
    assert_eq!(groups[0].0, "Alpha");
    assert_eq!(groups[1].0, "Zeta");
}

#[test]
fn prose_class_takes_first_token_and_skips_empty_values() {
    let s = style(vec![("h1", "text-xl extra"), ("a", "")]);
    let class = generate_prose_class(&s);
    assert!(class.contains(" prose-h1:text-xl"));
    assert!(!class.contains("extra"));
    assert!(!class.contains("prose-a:"));
    assert!(!class.contains("prose-h2"));
    assert_eq!(class, format!("{DEFAULT_CLASS} prose-h1:text-xl"));
}

#[test]
fn prose_class_follows_catalog_order() {
    let s = style(vec![("a", "underline"), ("h1", "text-xl")]);
    let class = generate_prose_class(&s);
    assert_eq!(class, format!("{DEFAULT_CLASS} prose-h1:text-xl prose-a:underline"));
}

#[test]
fn prose_class_skips_unknown_slots_and_non_strings() {
    let t = table(vec![
        ("h6", ConfigValue::Str("never".to_string())),
        ("h1", ConfigValue::Bool(true)),
    ]);
    assert_eq!(generate_prose_class(&t), DEFAULT_CLASS);
}

#[test]
fn prose_class_of_an_empty_table_is_the_default() {
    assert_eq!(generate_prose_class(&table(vec![])), DEFAULT_CLASS);
}

#[test]
fn prose_class_is_deterministic_across_calls() {
    let s = style(vec![("h1", "text-xl bold"), ("code", "font-mono"), ("a", "")]);
    let first = generate_prose_class(&s);
    let second = generate_prose_class(&s);
    assert_eq!(first, second);
}

#[test]
fn using_reads_the_table() {
    assert_eq!(template_using(None), "");
    let t = table(vec![("using", ConfigValue::Str("center".to_string()))]);
    assert_eq!(template_using(Some(&t)), "center");
    let t = table(vec![("using", ConfigValue::Bool(true))]);
    assert_eq!(template_using(Some(&t)), "");
    let t = table(vec![]);
    assert_eq!(template_using(Some(&t)), "");
}
