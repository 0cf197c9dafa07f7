use dpc_lib::selectors::{
    matches_any_selector, parse_ignore_selectors, retained_nodes, selector_matches, SelectorTarget,
};

fn make_node(id: &str, tag: &str, class: Option<&str>) -> SelectorTarget {
    SelectorTarget {
        id: id.to_string(),
        tag: tag.to_string(),
        attr_id: None,
        class_attr: class.map(|c| c.to_string()),
    }
}

#[test]
fn parse_ignore_selectors_normalizes_and_trims() {
    let parsed = parse_ignore_selectors(Some("  #Hero , .Ad ,p  ,, "));
    assert_eq!(parsed, vec!["#hero", ".ad", "p"]);
}

#[test]
fn parse_ignore_selectors_without_input_is_empty() {
    assert!(parse_ignore_selectors(None).is_empty());
    assert!(parse_ignore_selectors(Some(" , ,")).is_empty());
}

#[test]
fn apply_dom_ignores_filters_on_id_class_and_tag() {
    let nodes = vec![
        make_node("hero", "div", Some("banner")),
        make_node("ad1", "div", Some("ad slot")),
        make_node("p1", "p", None),
    ];
    let selectors = vec!["#ad1".to_string(), ".banner".to_string(), "p".to_string()];
    let kept = retained_nodes(&nodes, &selectors);
    assert!(kept.is_empty(), "all nodes should be ignored");
}

#[test]
fn selectors_match_ignoring_case() {
    let mut node = make_node("Main", "SECTION", Some("Card  Wide"));
    assert!(selector_matches(&node, "#main"));
    assert!(selector_matches(&node, ".wide"));
    assert!(selector_matches(&node, "section"));
    assert!(!selector_matches(&node, ".card-wide"));
    assert!(!selector_matches(&node, "#other"));
    node.attr_id = Some("Hero".to_string());
    assert!(selector_matches(&node, "#HERO"));
    let sels = vec!["footer".to_string(), ".card".to_string()];
    assert!(matches_any_selector(&node, &sels));
}

#[test]
fn retained_nodes_keep_order_of_unselected() {
    let nodes = vec![
        make_node("a", "div", None),
        make_node("b", "span", None),
        make_node("c", "div", Some("x")),
    ];
    assert_eq!(retained_nodes(&nodes, &vec!["span".to_string()]), vec![0, 2]);
    assert_eq!(retained_nodes(&nodes, &vec![]), vec![0, 1, 2]);
}

#[test]
fn reading_parsed_selectors_again_changes_nothing() {
    let parsed = parse_ignore_selectors(Some(" ,#Hero\t, .Ad .Banner ,,P,  "));
    assert_eq!(parsed, vec!["#hero".to_string(), ".ad .banner".to_string(), "p".to_string()]);
    for s in &parsed {
        assert!(!s.is_empty() && !s.contains(',') && s.trim() == s && s.to_ascii_lowercase() == *s);
    }
    let joined = parsed.join(",");
    assert_eq!(parse_ignore_selectors(Some(&joined)), parsed);
    assert!(parse_ignore_selectors(Some(" , ,")).is_empty());
    assert!(parse_ignore_selectors(Some("")).is_empty());
}
