use rust_module::container::Container;
use rust_module::report::{build_report, report_now};

fn one() -> Vec<Container> {
    vec![Container {
        pid: 10,
        name: "containerd-shim".to_string(),
        cpu_usage: 3,
        command_line: "x".to_string(),
        id_container: "abc".to_string(),
        rss: 4,
        vsz: 5,
        mem_usage_bits: 1.5f64.to_bits(),
    }]
}

#[test]
fn report_carries_the_figures() {
    let r = build_report(100, 40, 60, one(), "12:34:56".to_string());
    assert_eq!((r.total_ram, r.free_ram, r.ram_in_use), (100, 40, 60));
    assert_eq!(r.processes.len(), 1);
    assert_eq!(r.processes[0].pid, 10);
    assert_eq!(r.time, "12:34:56");
}

#[test]
fn report_is_stamped_with_a_clock_time() {
    let r = report_now(8, 2, 6, one());
    assert_eq!((r.total_ram, r.free_ram, r.ram_in_use), (8, 2, 6));
    let t: Vec<char> = r.time.chars().collect();
    assert_eq!(t.len(), 8);
    assert_eq!(t[2], ':');
    assert_eq!(t[5], ':');
    for i in [0, 1, 3, 4, 6, 7] {
        assert!(t[i].is_ascii_digit());
    }
    let h: u32 = r.time[0..2].parse().unwrap();
    let m: u32 = r.time[3..5].parse().unwrap();
    let s: u32 = r.time[6..8].parse().unwrap();
    assert!(h <= 23 && m <= 59 && s <= 60);
}
