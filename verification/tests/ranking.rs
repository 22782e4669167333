use rust_module::container::{duplicate_all, Container};
use rust_module::ranking::sort_by_utilization;

fn container(pid: i64, cpu: i64, rss: i64, vsz: i64) -> Container {
    Container {
        pid,
        name: format!("proc{}", pid),
        cpu_usage: cpu,
        command_line: format!("/usr/bin/containerd-shim -id {:012}", pid),
        id_container: format!("{:012}abcdef", pid),
        rss,
        vsz,
        mem_usage_bits: (0.5f64 * pid as f64).to_bits(),
    }
}

fn pids(list: &[Container]) -> Vec<i64> {
    list.iter().map(|c| c.pid).collect()
}

#[test]
fn sorts_by_cpu_then_rss_then_vsz_descending() {
    let list = vec![
        container(1, 10, 100, 1000),
        container(2, 30, 100, 1000),
        container(3, 10, 300, 1000),
        container(4, 10, 300, 5000),
        container(5, 20, 50, 50),
    ];
    let sorted = sort_by_utilization(list);
    assert_eq!(pids(&sorted), vec![2, 5, 4, 3, 1]);
}

#[test]
fn ties_keep_their_reported_order() {
    let list = vec![
        container(7, 5, 5, 5),
        container(3, 9, 1, 1),
        container(1, 5, 5, 5),
        container(9, 5, 5, 5),
    ];
    let sorted = sort_by_utilization(list);
    assert_eq!(pids(&sorted), vec![3, 7, 1, 9]);
}

#[test]
fn sorted_list_is_left_as_it_is() {
    let list = vec![
        container(1, 9, 9, 9),
        container(2, 9, 9, 1),
        container(3, 9, 1, 9),
        container(4, 1, 9, 9),
    ];
    let sorted = sort_by_utilization(list);
    assert_eq!(pids(&sorted), vec![1, 2, 3, 4]);
    let again = sort_by_utilization(duplicate_all(&sorted));
    assert_eq!(pids(&again), pids(&sorted));
}

#[test]
fn empty_and_single_lists() {
    assert!(sort_by_utilization(Vec::new()).is_empty());
    let one = sort_by_utilization(vec![container(4, 1, 2, 3)]);
    assert_eq!(pids(&one), vec![4]);
}

#[test]
fn negative_figures_are_ranked_too() {
    let list = vec![container(1, -5, 0, 0), container(2, 0, -1, 0), container(3, 0, -1, 2)];
    let sorted = sort_by_utilization(list);
    assert_eq!(pids(&sorted), vec![3, 2, 1]);
}

#[test]
fn sorting_keeps_every_field() {
    let list = vec![container(1, 1, 1, 1), container(2, 2, 2, 2)];
    let sorted = sort_by_utilization(list);
    assert_eq!(sorted[0].name, "proc2");
    assert_eq!(sorted[0].id_container, "000000000002abcdef");
    assert_eq!(f64::from_bits(sorted[0].mem_usage_bits), 1.0);
    assert_eq!(sorted[1].command_line, "/usr/bin/containerd-shim -id 000000000001");
}

#[test]
fn duplicate_copies_everything() {
    let list = vec![container(1, 1, 2, 3), container(2, 4, 5, 6)];
    let copy = duplicate_all(&list);
    assert_eq!(pids(&copy), vec![1, 2]);
    assert_eq!(copy[1].rss, 5);
    assert_eq!(copy[1].name, "proc2");
}
