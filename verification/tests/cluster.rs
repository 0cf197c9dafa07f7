use dpc_lib::cluster::{cluster_groups, component_labels, highest_severity};
use dpc_lib::issues::DiffSeverity;

fn matrix(n: usize, pairs: &[(usize, usize)]) -> Vec<Vec<bool>> {
    let mut m = vec![vec![false; n]; n];
    for &(a, b) in pairs {
        m[a][b] = true;
    }
    m
}

#[test]
fn clusters_adjacent_regions() {
    // Regions 0, 1 and 2 touch in a row; region 3 is far away.
    let severities = vec![
        DiffSeverity::Minor,
        DiffSeverity::Moderate,
        DiffSeverity::Minor,
        DiffSeverity::Major,
    ];
    let adj = matrix(4, &[(0, 1), (1, 2)]);
    let clustered = cluster_groups(&adj, 1);
    assert_eq!(clustered.len(), 2, "should have 2 clusters");

    let large_cluster = clustered.iter().find(|c| c.len() == 3).unwrap();
    assert_eq!(highest_severity(&severities, large_cluster), DiffSeverity::Moderate);

    let isolated = clustered.iter().find(|c| c.len() == 1).unwrap();
    assert_eq!(highest_severity(&severities, isolated), DiffSeverity::Major);
}

#[test]
fn empty_regions_returns_empty() {
    let clustered = cluster_groups(&vec![], 1);
    assert!(clustered.is_empty());
}

#[test]
fn non_adjacent_regions_stay_separate() {
    let adj = matrix(2, &[]);
    let clustered = cluster_groups(&adj, 1);
    assert_eq!(clustered.len(), 2, "non-adjacent regions stay separate");
}

#[test]
fn labels_name_the_least_member_of_each_component() {
    let adj = matrix(6, &[(4, 1), (2, 5), (5, 0)]);
    assert_eq!(component_labels(&adj), vec![0, 1, 0, 3, 1, 0]);
}

#[test]
fn small_components_are_split_into_single_regions() {
    let adj = matrix(5, &[(0, 3), (1, 2), (2, 4)]);
    assert_eq!(cluster_groups(&adj, 1), vec![vec![0, 3], vec![1, 2, 4]]);
    assert_eq!(cluster_groups(&adj, 3), vec![vec![0], vec![3], vec![1, 2, 4]]);
}

#[test]
fn highest_severity_of_nothing_is_minor() {
    assert_eq!(highest_severity(&vec![DiffSeverity::Major], &vec![]), DiffSeverity::Minor);
}
