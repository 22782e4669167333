use rust_module::container::Container;
use rust_module::selection::Verdict::{Alive, HighUtilization, LowUtilization, Remove};
use rust_module::selection::{
    cleanup_verdicts, exclude_log_container, names_log_container, plan_cleanup, plan_survey,
    Verdict,
};

fn container(pid: i64, id: &str, cpu: i64) -> Container {
    Container {
        pid,
        name: "containerd-shim".to_string(),
        cpu_usage: cpu,
        command_line: String::new(),
        id_container: id.to_string(),
        rss: 0,
        vsz: 0,
        mem_usage_bits: 0,
    }
}

#[test]
fn log_container_is_set_aside() {
    let log = "0123456789ab";
    let list = vec![
        container(1, "ffffffffffff0000", 5),
        container(2, "0123456789abcdef0123", 50),
        container(3, "aaaaaaaaaaaa", 7),
    ];
    let kept = exclude_log_container(list, log);
    let pids: Vec<i64> = kept.iter().map(|c| c.pid).collect();
    assert_eq!(pids, vec![1, 3]);
}

#[test]
fn empty_log_id_sets_nothing_aside() {
    let list = vec![container(1, "ffffffffffff", 5), container(2, "0123456789abcdef", 9)];
    let kept = exclude_log_container(list, "");
    assert_eq!(kept.len(), 2);
}

#[test]
fn head_is_cut_at_the_twelfth_byte() {
    // Six two-byte characters make twelve bytes.
    let c = container(1, "éééééééé", 1);
    assert!(names_log_container(&c, "éééééé"));
    assert!(!names_log_container(&c, "ééééééé"));
    let d = container(2, "0123456789abX", 1);
    assert!(names_log_container(&d, "0123456789ab"));
    assert!(!names_log_container(&d, "0123456789a"));
}

#[test]
fn five_or_fewer_are_all_spared() {
    for n in 0..=5 {
        assert!(cleanup_verdicts(n).is_empty());
    }
}

#[test]
fn middle_ranks_are_removed() {
    assert_eq!(cleanup_verdicts(6), vec![HighUtilization, Alive, Alive, Remove, LowUtilization, Alive]);
    assert_eq!(
        cleanup_verdicts(8),
        vec![HighUtilization, Alive, Alive, Remove, Remove, Remove, LowUtilization, Alive]
    );
    let v = cleanup_verdicts(20);
    assert_eq!(v.iter().filter(|x| **x != Remove).count(), 5);
}

#[test]
fn cleanup_plan_never_removes_the_log_container() {
    let log = "0123456789ab";
    let mut list = Vec::new();
    for i in 0..8 {
        list.push(container(i, &format!("{:012}", i), i));
    }
    list.push(container(100, "0123456789abffff", 4));
    let plan = plan_cleanup(list, log);
    assert_eq!(plan.ranked.len(), 8);
    let pids: Vec<i64> = plan.ranked.iter().map(|c| c.pid).collect();
    assert_eq!(pids, vec![7, 6, 5, 4, 3, 2, 1, 0]);
    for (c, v) in plan.ranked.iter().zip(plan.verdicts.iter()) {
        if *v == Verdict::Remove {
            assert!(!c.id_container.starts_with(log));
        }
    }
    let removed: Vec<i64> = plan
        .ranked
        .iter()
        .zip(plan.verdicts.iter())
        .filter(|(_, v)| **v == Verdict::Remove)
        .map(|(c, _)| c.pid)
        .collect();
    assert_eq!(removed, vec![4, 3, 2]);
}

#[test]
fn survey_ranks_everything() {
    let list = vec![
        container(1, "a", 1),
        container(2, "b", 3),
        container(3, "c", 2),
    ];
    let plan = plan_survey(list);
    let pids: Vec<i64> = plan.ranked.iter().map(|c| c.pid).collect();
    assert_eq!(pids, vec![2, 3, 1]);
    assert!(plan.verdicts.is_empty());
}

#[test]
fn listing_order_does_not_change_the_cleanup() {
    let log = "0123456789ab";
    let make = || {
        let mut list = Vec::new();
        for i in 0..7 {
            let mut c = container(i, &format!("{:012}", i), (i * 37) % 11);
            c.rss = i;
            list.push(c);
        }
        list.push(container(50, "0123456789abcdef", 3));
        list
    };
    let forward = plan_cleanup(make(), log);
    let mut reversed_list = make();
    reversed_list.reverse();
    let reversed = plan_cleanup(reversed_list, log);
    let p1: Vec<i64> = forward.ranked.iter().map(|c| c.pid).collect();
    let p2: Vec<i64> = reversed.ranked.iter().map(|c| c.pid).collect();
    assert_eq!(p1, p2);
    assert_eq!(forward.verdicts, reversed.verdicts);
    let mut rotated = make();
    rotated.rotate_left(3);
    let s1: Vec<i64> = plan_survey(make()).ranked.iter().map(|c| c.pid).collect();
    let s2: Vec<i64> = plan_survey(rotated).ranked.iter().map(|c| c.pid).collect();
    assert_eq!(s1, s2);
}
