use cleverhans::palette::match_actions;
use cleverhans::registry::{ActionDef, DisplayDef};

fn action(id: &str, display: Option<DisplayDef>) -> ActionDef {
    ActionDef {
        id: id.to_owned(),
        description: "model-facing text that must not leak into matching".to_owned(),
        params: Vec::new(),
        block_type: "confirm".to_owned(),
        mutates: false,
        authz_key: id.to_owned(),
        display,
    }
}

fn display(title: &str, keywords: &[&str]) -> DisplayDef {
    DisplayDef { title: title.to_owned(), keywords: keywords.iter().map(|k| (*k).to_owned()).collect() }
}

#[test]
fn every_token_must_prefix_a_word() {
    let actions = vec![
        action("brief", Some(display("Generate onboarding brief", &["summary", "context"]))),
        action("plan", Some(display("Draft 30-60-90 plan", &["goals", "ramp"]))),
    ];

    let hits = match_actions(&actions, "onboarding");
    assert_eq!(hits.iter().map(|a| a.id.as_str()).collect::<Vec<_>>(), ["brief"]);

    assert_eq!(match_actions(&actions, "gen sum").len(), 1);
    assert!(match_actions(&actions, "onboarding zzz").is_empty());

    assert_eq!(match_actions(&actions, "RAMP").len(), 1);
}

#[test]
fn no_display_means_no_palette_presence() {
    let actions = vec![action("hidden", None)];
    assert!(match_actions(&actions, "hidden").is_empty());
}

#[test]
fn empty_query_matches_nothing() {
    let actions = vec![action("brief", Some(display("Generate onboarding brief", &[])))];
    assert!(match_actions(&actions, "").is_empty());
    assert!(match_actions(&actions, "   ").is_empty());
}

#[test]
fn matches_keep_document_order() {
    let actions = vec![
        action("b", Some(display("Archive record", &[]))),
        action("a", Some(display("Archive all", &[]))),
    ];
    let hits = match_actions(&actions, "arch");
    assert_eq!(hits.iter().map(|a| a.id.as_str()).collect::<Vec<_>>(), ["b", "a"]);
}
