use muster::inspect::resources::{gpu_total, rss_total, GpuProcessInfo};
use muster::inspect::proctree::{
    build_tree, collect_pids, parse_process_table, tree_is_finite_in, ProcessInfo,
};

#[test]
fn parse_ps_basic() {
    let output = "  PID  PPID COMM\n    1     0 /sbin/launchd\n  100     1 /usr/sbin/syslogd\n  200   100 /usr/bin/some_daemon\n";
    let table = parse_process_table(output);
    assert_eq!(table.len(), 3);
    assert_eq!(table[0].pid, 1);
    assert_eq!(table[0].ppid, 0);
    assert_eq!(table[0].command, "/sbin/launchd");
    assert_eq!(table[1].pid, 100);
    assert_eq!(table[1].ppid, 1);
    assert_eq!(table[2].pid, 200);
    assert_eq!(table[2].ppid, 100);
}

#[test]
fn parse_ps_empty_output() {
    let output = "  PID  PPID COMM\n";
    let table = parse_process_table(output);
    assert!(table.is_empty());
}

#[test]
fn parse_ps_command_with_spaces() {
    let output = "  PID  PPID COMM\n  500   100 /usr/local/bin/my tool\n";
    let table = parse_process_table(output);
    assert_eq!(table.len(), 1);
    assert_eq!(table[0].command, "/usr/local/bin/my tool");
}

#[test]
fn parse_ps_skips_malformed_lines() {
    let output = "  PID  PPID COMM\n  notapid  1 /bin/sh\n  100     1 /usr/bin/daemon\n  abc   def ghi\n";
    let table = parse_process_table(output);
    assert_eq!(table.len(), 1);
    assert_eq!(table[0].pid, 100);
}

#[test]
fn parse_ps_joins_command_words_with_single_spaces() {
    let output = "  PID  PPID COMM\n  7   1   a    b\tc  \n  8  1\n";
    let table = parse_process_table(output);
    assert_eq!(table.len(), 1);
    assert_eq!(table[0].command, "a b c");
}

fn sample_process_table() -> Vec<ProcessInfo> {
    vec![
        ProcessInfo { pid: 10, ppid: 1, command: "fish".into() },
        ProcessInfo { pid: 20, ppid: 1, command: "bash".into() },
        ProcessInfo { pid: 100, ppid: 10, command: "npm".into() },
        ProcessInfo { pid: 101, ppid: 100, command: "node".into() },
        ProcessInfo { pid: 102, ppid: 10, command: "cargo".into() },
    ]
}

#[test]
fn build_tree_from_root() {
    let table = sample_process_table();
    let tree = build_tree(1, &table);
    assert_eq!(tree.len(), 2);
    assert_eq!(tree[0].command, "fish");
    assert_eq!(tree[0].children.len(), 2);
    assert_eq!(tree[1].command, "bash");
    assert!(tree[1].children.is_empty());
}

#[test]
fn build_tree_from_subtree() {
    let table = sample_process_table();
    let tree = build_tree(10, &table);
    assert_eq!(tree.len(), 2);
    let npm = &tree[0];
    assert_eq!(npm.command, "npm");
    assert_eq!(npm.children.len(), 1);
    assert_eq!(npm.children[0].command, "node");
}

#[test]
fn build_tree_leaf_node() {
    let table = sample_process_table();
    let tree = build_tree(101, &table);
    assert!(tree.is_empty());
}

#[test]
fn build_tree_nonexistent_root() {
    let table = sample_process_table();
    let tree = build_tree(9999, &table);
    assert!(tree.is_empty());
}

#[test]
fn collect_pids_full_tree() {
    let table = sample_process_table();
    let tree = build_tree(1, &table);
    let mut pids = collect_pids(&tree);
    pids.sort();
    assert_eq!(pids, vec![10, 20, 100, 101, 102]);
}

#[test]
fn collect_pids_subtree() {
    let table = sample_process_table();
    let tree = build_tree(10, &table);
    let mut pids = collect_pids(&tree);
    pids.sort();
    assert_eq!(pids, vec![100, 101, 102]);
}

#[test]
fn collect_pids_empty_tree() {
    let pids = collect_pids(&[]);
    assert!(pids.is_empty());
}

#[test]
fn collect_pids_is_preorder() {
    let table = sample_process_table();
    let tree = build_tree(1, &table);
    assert_eq!(collect_pids(&tree), vec![10, 100, 101, 102, 20]);
}

#[test]
fn finite_tree_check() {
    let table = sample_process_table();
    assert!(tree_is_finite_in(1, &table));
    assert!(tree_is_finite_in(9999, &table));
    let cyclic = vec![
        ProcessInfo { pid: 5, ppid: 6, command: "a".into() },
        ProcessInfo { pid: 6, ppid: 5, command: "b".into() },
    ];
    assert!(!tree_is_finite_in(5, &cyclic));
    assert!(tree_is_finite_in(7, &cyclic));
    let self_parent = vec![ProcessInfo { pid: 0, ppid: 0, command: "sched".into() }];
    assert!(!tree_is_finite_in(0, &self_parent));
}

#[test]
fn window_totals_of_rss_and_gpu() {
    let rss = vec![(10, 100), (11, 50), (10, 7), (12, 25)];
    assert_eq!(rss_total(&[10, 11, 99], &rss), Some(150));
    assert_eq!(rss_total(&[], &rss), Some(0));
    assert_eq!(rss_total(&[12, 12], &[(12, u64::MAX)]), None);
    let gpu = vec![
        GpuProcessInfo { pid: 10, gpu_memory_mb: 512 },
        GpuProcessInfo { pid: 10, gpu_memory_mb: 1024 },
        GpuProcessInfo { pid: 11, gpu_memory_mb: 2048 },
    ];
    assert_eq!(gpu_total(&[10, 11, 12], &gpu), Some(3072));
    assert_eq!(gpu_total(&[12], &gpu), Some(0));
}
