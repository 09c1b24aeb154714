use sp::bursts::{cluster_by_gap, group_gap, similar_groups, BurstRow};

#[test]
fn cluster_by_gap_splits_at_the_boundary() {
    let times = [0, 2, 5, 9, 30];
    let groups = cluster_by_gap(&times, 3);
    assert_eq!(groups, vec![vec![0, 1, 2], vec![3], vec![4]]);
}

#[test]
fn cluster_by_gap_handles_empty_and_single() {
    assert!(cluster_by_gap(&[], 3).is_empty());
    assert_eq!(cluster_by_gap(&[42], 3), vec![vec![0]]);
}

fn row(i: i64, time: i64) -> BurstRow {
    BurstRow {
        id: i,
        pair_key: format!("/x/{i}"),
        time,
        time_text: Some(format!("t{time}")),
        decision: "none".to_string(),
        stars: 0,
        path: format!("/x/DSC_{i}.NEF"),
    }
}

#[test]
fn bursts_have_two_photos_or_more() {
    let rows = vec![row(1, 0), row(2, 1), row(3, 10), row(4, 20), row(5, 22), row(6, 25)];
    let groups = similar_groups(&rows, 3);
    assert_eq!(groups.len(), 2);
    assert_eq!(groups[0].key, "/x/1");
    assert_eq!((groups[0].size, groups[0].span_secs), (2, 1));
    assert_eq!(groups[1].start_text.as_deref(), Some("t20"));
    assert_eq!((groups[1].size, groups[1].span_secs), (3, 5));
    let names: Vec<&str> = groups[1].members.iter().map(|m| m.name.as_str()).collect();
    assert_eq!(names, vec!["DSC_4.NEF", "DSC_5.NEF", "DSC_6.NEF"]);
}

#[test]
fn bursts_are_limited_in_number() {
    let mut rows = Vec::new();
    for i in 0..310 {
        rows.push(row(2 * i, 100 * i));
        rows.push(row(2 * i + 1, 100 * i + 1));
    }
    assert_eq!(similar_groups(&rows, 3).len(), 300);
}

#[test]
fn gaps_are_not_negative() {
    assert_eq!(group_gap(None), 3);
    assert_eq!(group_gap(Some(-5)), 0);
    assert_eq!(group_gap(Some(7)), 7);
    assert_eq!(
        cluster_by_gap(&[i64::MIN, i64::MAX], 0),
        vec![vec![0], vec![1]]
    );
}
