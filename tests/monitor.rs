use chainpulse::monitor::{stuck_groups, PendingRow};

fn row(chain: &str, src: &str, dst: &str, has_sender: bool, age: u64) -> PendingRow {
    PendingRow {
        chain: chain.to_string(),
        src_channel: src.to_string(),
        dst_channel: dst.to_string(),
        has_sender,
        age_secs: age,
    }
}

#[test]
fn stuck_sweep() {
    let rows = vec![row("a-1", "channel-0", "channel-141", true, 1200), row("a-1", "channel-0", "channel-141", false, 1200)];
    let groups = stuck_groups(&rows);
    assert_eq!(groups.len(), 1);
    let g = &groups[0];
    assert_eq!(g.stuck, 2);
    assert_eq!(g.with_user_data, 1);
    assert_eq!(g.without_user_data(), 1);
    assert!(g.oldest_age >= 1200);
}

#[test]
fn young_rows_are_not_stuck_and_groups_split() {
    let rows = vec![
        row("a-1", "channel-0", "channel-1", false, 900),
        row("a-1", "channel-0", "channel-1", false, 901),
        row("a-1", "channel-2", "channel-1", true, 5000),
        row("a-1", "channel-0", "channel-1", true, 3000),
    ];
    let groups = stuck_groups(&rows);
    assert_eq!(groups.len(), 2);
    assert_eq!((groups[0].stuck, groups[0].with_user_data, groups[0].oldest_age), (2, 1, 3000));
    assert_eq!((groups[1].stuck, groups[1].with_user_data, groups[1].oldest_age), (1, 1, 5000));
    assert!(stuck_groups(&vec![]).is_empty());
}
