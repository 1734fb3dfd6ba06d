use procedural_city_gen::merge::merge_circumcenter_groups;

type P3 = (f32, f32, f32);

fn distance(a: P3, b: P3) -> f32 {
    ((a.0 - b.0).powi(2) + (a.1 - b.1).powi(2) + (a.2 - b.2).powi(2)).sqrt()
}

/// The proximity matrix the application hands to the grouping.
fn near_matrix(pts: &[P3], threshold: f32) -> Vec<Vec<bool>> {
    pts.iter()
        .map(|a| pts.iter().map(|b| distance(*a, *b) < threshold).collect())
        .collect()
}

/// Group positions: the average of each group's points, as the application computes them.
fn merge(pts: &[P3], threshold: f32) -> (Vec<P3>, Vec<usize>) {
    let (groups, mapping) = merge_circumcenter_groups(&near_matrix(pts, threshold));
    let merged = groups
        .iter()
        .map(|g| {
            let n = g.len() as f32;
            let s = g.iter().fold((0.0, 0.0, 0.0), |acc, &i| {
                (acc.0 + pts[i].0, acc.1 + pts[i].1, acc.2 + pts[i].2)
            });
            (s.0 / n, s.1 / n, s.2 / n)
        })
        .collect();
    (merged, mapping)
}

#[test]
fn test_merge_circumcenters_no_merge_needed() {
    let pts = vec![(0.0, 0.0, 0.0), (10.0, 0.0, 0.0), (20.0, 0.0, 0.0)];
    let (merged, mapping) = merge(&pts, 0.01);
    assert_eq!(merged.len(), 3);
    assert_eq!(mapping.len(), 3);
}

#[test]
fn test_merge_circumcenters_all_merge() {
    let pts = vec![(0.0, 0.0, 0.0), (0.001, 0.0, 0.0), (0.002, 0.0, 0.0)];
    let (merged, _mapping) = merge(&pts, 0.1);
    assert_eq!(merged.len(), 1);
}

#[test]
fn test_merge_circumcenters_singletons_keep_position() {
    let pts = vec![(0.0, 0.0, 0.0), (10.0, 0.0, 5.0), (20.0, 0.0, -5.0)];
    let (merged, mapping) = merge(&pts, 0.01);
    assert_eq!(merged.len(), 3);
    for (i, m) in merged.iter().enumerate() {
        assert!(m.0.is_finite() && m.1.is_finite() && m.2.is_finite(), "merged[{i}] is not finite");
    }
    for (i, &m) in mapping.iter().enumerate() {
        assert_eq!(m, i, "mapping[{i}] should be {i}");
    }
    assert!((merged[1].0 - 10.0).abs() < 1e-5);
    assert!((merged[1].2 - 5.0).abs() < 1e-5);
}

#[test]
fn test_merge_circumcenters_mapping_points_at_own_cluster() {
    let pts = vec![(0.0, 0.0, 0.0), (0.001, 0.0, 0.0), (50.0, 0.0, 0.0), (50.001, 0.0, 0.0)];
    let (merged, mapping) = merge(&pts, 0.1);
    assert_eq!(merged.len(), 2);
    for (raw_idx, &new_idx) in mapping.iter().enumerate() {
        assert!(new_idx < merged.len());
        assert!(
            distance(pts[raw_idx], merged[new_idx]) < 0.1,
            "raw {raw_idx} mapped to a distant cluster"
        );
    }
}

#[test]
fn test_merge_circumcenters_averaged_position() {
    let pts = vec![(0.0, 0.0, 0.0), (0.0, 0.0, 0.0)];
    let (merged, _) = merge(&pts, 0.1);
    assert_eq!(merged.len(), 1);
    assert!(merged[0].0.abs() < 1e-5);
}

#[test]
fn merge_empty_input_gives_no_groups() {
    let (groups, mapping) = merge_circumcenter_groups(&vec![]);
    assert!(groups.is_empty());
    assert!(mapping.is_empty());
}

#[test]
fn merge_claims_only_unclaimed_points_in_index_order() {
    // 0 is near 1, 1 is near 2, but 0 is not near 2: 2 is not pulled into
    // 0's group through 1, and since 1 was claimed it does not lead a group.
    let near = vec![
        vec![true, true, false],
        vec![true, true, true],
        vec![false, true, true],
    ];
    let (groups, mapping) = merge_circumcenter_groups(&near);
    assert_eq!(groups, vec![vec![0, 1], vec![2]]);
    assert_eq!(mapping, vec![0, 0, 1]);
}

#[test]
fn merge_reads_only_the_upper_triangle() {
    // Entries below the diagonal are ignored: 1 -> 0 alone merges nothing.
    let near = vec![vec![true, false], vec![true, true]];
    let (groups, mapping) = merge_circumcenter_groups(&near);
    assert_eq!(groups, vec![vec![0], vec![1]]);
    assert_eq!(mapping, vec![0, 1]);
}

#[test]
fn merge_groups_list_members_in_increasing_order() {
    let near = vec![
        vec![true, false, true, false, true],
        vec![false, true, false, true, false],
        vec![true, false, true, false, false],
        vec![false, true, false, true, false],
        vec![true, false, false, false, true],
    ];
    let (groups, mapping) = merge_circumcenter_groups(&near);
    assert_eq!(groups, vec![vec![0, 2, 4], vec![1, 3]]);
    assert_eq!(mapping, vec![0, 1, 0, 1, 0]);
}
