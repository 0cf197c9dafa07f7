use dpc_lib::cli::{figma_has_text, is_heading, node_has_text};
use dpc_lib::content::normalize_text;
use dpc_lib::typography::{canonical_family, font_weight_category, normalize_label};

#[test]
fn normalize_text_keeps_words_only() {
    assert_eq!(normalize_text("  Hello,   World!  ").as_deref(), Some("hello world"));
    assert_eq!(normalize_text("Sign-up\tNOW").as_deref(), Some("signup now"));
    assert_eq!(normalize_text("!!! ---"), None);
    assert_eq!(normalize_text(""), None);
    assert_eq!(normalize_text("Ünïcode Straße").as_deref(), Some("ünïcode straße"));
}

#[test]
fn normalize_label_matches_normalize_text() {
    for s in ["Buy now!", "  ", "A  b\nC"] {
        assert_eq!(normalize_label(s), normalize_text(s));
    }
}

#[test]
fn canonical_family_picks_known_families() {
    assert_eq!(canonical_family(None), "unknown");
    assert_eq!(canonical_family(Some("\"Inter\", sans-serif")), "inter");
    assert_eq!(canonical_family(Some("Roboto Mono")), "roboto");
    assert_eq!(canonical_family(Some("Helvetica Neue, Arial")), "helvetica");
    assert_eq!(canonical_family(Some("Arial")), "arial");
    assert_eq!(canonical_family(Some("Times New Roman")), "times");
    assert_eq!(canonical_family(Some("Georgia")), "georgia");
    assert_eq!(canonical_family(Some("Fira Sans")), "fira sans");
}

#[test]
fn font_weight_categories() {
    assert_eq!(font_weight_category(None), None);
    assert_eq!(font_weight_category(Some(" 700 ")), Some(700));
    assert_eq!(font_weight_category(Some("Bold")), Some(700));
    assert_eq!(font_weight_category(Some("semibold")), Some(600));
    assert_eq!(font_weight_category(Some("HEAVY")), Some(900));
    assert_eq!(font_weight_category(Some("regular")), Some(400));
    assert_eq!(font_weight_category(Some("thin")), Some(100));
    assert_eq!(font_weight_category(Some("ultralight")), Some(200));
    assert_eq!(font_weight_category(Some("light")), Some(300));
    assert_eq!(font_weight_category(Some("medium")), Some(500));
    assert_eq!(font_weight_category(Some("extrabold")), Some(800));
    assert_eq!(font_weight_category(Some("wide")), None);
    assert_eq!(font_weight_category(Some("70000")), None);
}

#[test]
fn text_presence_and_headings() {
    assert!(node_has_text(Some(" x ")));
    assert!(!node_has_text(Some("  \n")));
    assert!(!node_has_text(None));
    assert!(figma_has_text(Some("Title")));
    assert!(is_heading("H2"));
    assert!(!is_heading("h4"));
}

#[test]
fn token_overlap_counts_distinct_words() {
    let o = dpc_lib::content::token_overlap("a b a c", "c d a");
    assert_eq!(o.left, 3);
    assert_eq!(o.right, 3);
    assert_eq!(o.common, 2);
    let e = dpc_lib::content::token_overlap("", "  ");
    assert_eq!((e.common, e.left, e.right), (0, 0, 0));
}
