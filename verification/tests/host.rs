use rust_module::host::{container_id_from_ps, cron_job_pids};
use rust_module::text::{collect_range, range_contains, range_field, trim_range, whitespace};

fn chars(s: &str) -> Vec<char> {
    s.chars().collect()
}

#[test]
fn finds_the_script_processes() {
    let ps = "USER  PID %CPU COMMAND\n\
              root  812  0.0 /bin/bash ./project.sh\n\
              root  900  0.1 /usr/bin/dockerd\n\
              user  1234 0.0 grep project.sh\n";
    let pids = cron_job_pids(&chars(ps));
    assert_eq!(pids, vec!["812".to_string(), "1234".to_string()]);
}

#[test]
fn no_script_no_pids() {
    assert!(cron_job_pids(&chars("")).is_empty());
    assert!(cron_job_pids(&chars("a b c\nd e f")).is_empty());
}

#[test]
fn last_line_without_newline_counts() {
    let pids = cron_job_pids(&chars("x 1 y\n  root\t 77   bash project.sh"));
    assert_eq!(pids, vec!["77".to_string()]);
}

#[test]
fn container_id_is_trimmed() {
    assert_eq!(container_id_from_ps(&chars("  3f2a9c1b7d0e\n")), "3f2a9c1b7d0e");
    assert_eq!(container_id_from_ps(&chars("\n\t \n")), "");
    assert_eq!(container_id_from_ps(&chars("\u{3000}ab c\u{a0}")), "ab c");
    assert_eq!(container_id_from_ps(&chars("abc")), "abc");
}

#[test]
fn whitespace_is_unicode_white_space() {
    for c in ['\t', '\n', '\u{b}', '\u{c}', '\r', ' ', '\u{85}', '\u{a0}', '\u{1680}', '\u{2000}',
        '\u{200a}', '\u{2028}', '\u{2029}', '\u{202f}', '\u{205f}', '\u{3000}'] {
        assert!(whitespace(c), "{:?}", c);
        assert!(c.is_whitespace());
    }
    for c in ['a', '0', '\u{200b}', '\u{180e}', '_', '\u{0}'] {
        assert!(!whitespace(c), "{:?}", c);
        assert_eq!(c.is_whitespace(), whitespace(c));
    }
}

#[test]
fn text_helpers_on_ranges() {
    let s = chars("xx  alpha beta\tgamma  yy");
    assert_eq!(collect_range(&s, 4, 9), "alpha");
    assert!(range_contains(&s, 2, 20, &chars("beta")));
    assert!(!range_contains(&s, 2, 12, &chars("beta")));
    assert!(range_contains(&s, 2, 2, &chars("")));
    assert_eq!(range_field(&s, 2, 22, 0), Some("alpha".to_string()));
    assert_eq!(range_field(&s, 2, 22, 2), Some("gamma".to_string()));
    assert_eq!(range_field(&s, 2, 22, 3), None);
    assert_eq!(trim_range(&s, 2, 22), "alpha beta\tgamma");
}
