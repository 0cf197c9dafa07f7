use dpc_lib::text_match::{match_labels, LabelOutcome};

fn strings(v: &[&str]) -> Vec<String> {
    v.iter().map(|s| s.to_string()).collect()
}

#[test]
fn label_matching_takes_last_free_text_and_groups_extras() {
    let refs = strings(&["Hello", "Hello", "World", "   "]);
    let imps = strings(&["hello", "x", "HELLO", "y", "x"]);
    let m = match_labels(&refs, &imps);
    assert_eq!(
        m.outcomes,
        vec![
            LabelOutcome::Matched(2),
            LabelOutcome::Matched(0),
            LabelOutcome::Missing,
            LabelOutcome::Unlabeled,
        ]
    );
    assert_eq!(m.extras, vec![1, 4, 3]);
}

#[test]
fn label_matching_of_empty_lists() {
    let m = match_labels(&Vec::new(), &strings(&["a", "b"]));
    assert!(m.outcomes.is_empty());
    assert_eq!(m.extras, vec![0, 1]);
    let m = match_labels(&strings(&["a"]), &Vec::new());
    assert_eq!(m.outcomes, vec![LabelOutcome::Missing]);
    assert!(m.extras.is_empty());
}

#[test]
fn label_matching_ignores_punctuation_and_case() {
    let refs = strings(&["Sign up!", "Sign up"]);
    let imps = strings(&["sign UP"]);
    let m = match_labels(&refs, &imps);
    assert_eq!(m.outcomes, vec![LabelOutcome::Matched(0), LabelOutcome::Missing]);
    assert!(m.extras.is_empty());
}
