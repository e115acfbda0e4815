use std::collections::HashMap;
use muster::inspect::ports::{
    match_ports, parse_listening_ports, record_owners, sort_by_session_port, window_name_at,
    PidOwner,
};
use muster::inspect::resources::parse_gpu_table;
use muster::tmux::types::TmuxWindow;

#[test]
fn parse_lsof_basic() {
    let output = "\
COMMAND     PID USER   FD   TYPE             DEVICE SIZE/OFF NODE NAME
python3.1 12345  usr    4u  IPv4 0xabcdef1234567890      0t0  TCP *:8000 (LISTEN)
node      23456  usr   21u  IPv6 0x1234567890abcdef      0t0  TCP [::1]:5173 (LISTEN)
";
    let ports = parse_listening_ports(output);
    assert_eq!(ports.len(), 2);

    assert_eq!(ports[0].command, "python3.1");
    assert_eq!(ports[0].pid, 12345);
    assert_eq!(ports[0].port, 8000);
    assert_eq!(ports[0].address, "*");

    assert_eq!(ports[1].command, "node");
    assert_eq!(ports[1].pid, 23456);
    assert_eq!(ports[1].port, 5173);
    assert_eq!(ports[1].address, "[::1]");
}

#[test]
fn parse_lsof_localhost() {
    let output = "\
COMMAND   PID USER   FD   TYPE             DEVICE SIZE/OFF NODE NAME
Obsidian 9999  usr   36u  IPv4 0xaabbccdd11223344      0t0  TCP 127.0.0.1:27124 (LISTEN)
";
    let ports = parse_listening_ports(output);
    assert_eq!(ports.len(), 1);
    assert_eq!(ports[0].address, "127.0.0.1");
    assert_eq!(ports[0].port, 27124);
}

#[test]
fn parse_lsof_empty_output() {
    let output = "COMMAND PID USER FD TYPE DEVICE SIZE/OFF NODE NAME\n";
    let ports = parse_listening_ports(output);
    assert!(ports.is_empty());
}

#[test]
fn parse_lsof_skips_short_lines() {
    let output = "\
COMMAND     PID USER   FD   TYPE             DEVICE SIZE/OFF NODE NAME
short line
python3   12345  usr    4u  IPv4 0xabcdef1234567890      0t0  TCP *:9000 (LISTEN)
";
    let ports = parse_listening_ports(output);
    assert_eq!(ports.len(), 1);
    assert_eq!(ports[0].port, 9000);
}

#[test]
fn parse_lsof_ipv6_wildcard() {
    let output = "\
COMMAND     PID USER   FD   TYPE             DEVICE SIZE/OFF NODE NAME
node      11111  usr   19u  IPv6 0xdeadbeef12345678      0t0  TCP *:3000 (LISTEN)
";
    let ports = parse_listening_ports(output);
    assert_eq!(ports.len(), 1);
    assert_eq!(ports[0].address, "*");
    assert_eq!(ports[0].port, 3000);
}

#[test]
fn parse_lsof_multiple_ports_same_process() {
    let output = "\
COMMAND     PID USER   FD   TYPE             DEVICE SIZE/OFF NODE NAME
node      11111  usr   19u  IPv4 0xaaaa000000000001      0t0  TCP *:3000 (LISTEN)
node      11111  usr   20u  IPv6 0xaaaa000000000002      0t0  TCP *:3000 (LISTEN)
node      11111  usr   21u  IPv4 0xaaaa000000000003      0t0  TCP 127.0.0.1:3001 (LISTEN)
";
    let ports = parse_listening_ports(output);
    assert_eq!(ports.len(), 3);
    assert!(ports.iter().all(|p| p.pid == 11111));
    assert_eq!(ports[0].port, 3000);
    assert_eq!(ports[2].port, 3001);
    assert_eq!(ports[2].address, "127.0.0.1");
}

#[test]
fn parse_lsof_rejects_out_of_range_port_and_bad_pid() {
    let output = "\
COMMAND     PID USER   FD   TYPE             DEVICE SIZE/OFF NODE NAME
node      11111  usr   19u  IPv4 0xaaaa000000000001      0t0  TCP *:70000 (LISTEN)
node        abc  usr   19u  IPv4 0xaaaa000000000001      0t0  TCP *:3000 (LISTEN)
node      22222  usr   19u  IPv4 0xaaaa000000000001      0t0  TCP nocolon (LISTEN)
node      33333  usr   19u  IPv4 0xaaaa000000000001      0t0  TCP *:65535 (LISTEN)
";
    let ports = parse_listening_ports(output);
    assert_eq!(ports.len(), 1);
    assert_eq!(ports[0].pid, 33333);
    assert_eq!(ports[0].port, 65535);
}

#[test]
fn parse_lsof_no_output_at_all() {
    assert!(parse_listening_ports("").is_empty());
}

#[test]
fn ports_are_matched_to_first_owner() {
    let output = "\
COMMAND     PID USER   FD   TYPE             DEVICE SIZE/OFF NODE NAME
node      200  usr   19u  IPv4 0xaaaa000000000001      0t0  TCP *:3000 (LISTEN)
ruby      999  usr   19u  IPv4 0xaaaa000000000001      0t0  TCP *:4000 (LISTEN)
python    300  usr   19u  IPv4 0xaaaa000000000001      0t0  TCP 127.0.0.1:8000 (LISTEN)
";
    let listening = parse_listening_ports(output);
    let windows = vec![
        TmuxWindow { index: 0, name: "Shell".into(), cwd: "/".into(), active: true },
        TmuxWindow { index: 1, name: "Server".into(), cwd: "/".into(), active: false },
    ];
    assert_eq!(window_name_at(&windows, 1), "Server");
    assert_eq!(window_name_at(&windows, 7), "");
    let mut owners: HashMap<u32, PidOwner> = HashMap::new();
    record_owners(&mut owners, &[100, 200], "muster_a", "A", "#111111", 1, "Server");
    record_owners(&mut owners, &[200, 300], "muster_b", "B", "#222222", 0, "Shell");
    assert_eq!(owners.len(), 3);
    assert_eq!(owners[&200].session_name, "muster_a");
    assert_eq!(owners[&300].window_name, "Shell");
    let matched = match_ports(&listening, &owners);
    assert_eq!(matched.len(), 2);
    assert_eq!(matched[0].port, 3000);
    assert_eq!(matched[0].session_name, "muster_a");
    assert_eq!(matched[0].window_name, "Server");
    assert_eq!(matched[1].port, 8000);
    assert_eq!(matched[1].session_name, "muster_b");
    assert_eq!(matched[1].address, "127.0.0.1");
    assert_eq!(matched[1].command, "python");
}

#[test]
fn gpu_table_parsing() {
    let table = parse_gpu_table("1234, 512\n 77 ,  2048 , extra\nbad, 1\n5\n");
    assert_eq!(table.len(), 2);
    assert_eq!(table[0].pid, 1234);
    assert_eq!(table[0].gpu_memory_mb, 512);
    assert_eq!(table[1].pid, 77);
    assert_eq!(table[1].gpu_memory_mb, 2048);
}

#[test]
fn ports_are_deduplicated_by_port_and_pid() {
    let output = "\
COMMAND     PID USER   FD   TYPE             DEVICE SIZE/OFF NODE NAME
node    11111  usr   19u  IPv4 0xaaaa000000000001      0t0  TCP *:3000 (LISTEN)
node    11111  usr   20u  IPv6 0xaaaa000000000002      0t0  TCP [::1]:3000 (LISTEN)
node    11111  usr   21u  IPv4 0xaaaa000000000003      0t0  TCP *:3001 (LISTEN)
node    22222  usr   19u  IPv6 0xaaaa000000000004      0t0  TCP *:3000 (LISTEN)
";
    let listening = parse_listening_ports(output);
    assert_eq!(listening.len(), 4);
    let mut owners: HashMap<u32, PidOwner> = HashMap::new();
    record_owners(&mut owners, &[11111, 22222], "muster_a", "A", "#111111", 0, "Dev");
    let matched = match_ports(&listening, &owners);
    assert_eq!(matched.len(), 3);
    assert_eq!((matched[0].port, matched[0].pid), (3000, 11111));
    assert_eq!(matched[0].address, "*");
    assert_eq!((matched[1].port, matched[1].pid), (3001, 11111));
    assert_eq!((matched[2].port, matched[2].pid), (3000, 22222));
}

#[test]
fn matched_ports_list_by_session_then_port() {
    let output = "\
COMMAND     PID USER   FD   TYPE             DEVICE SIZE/OFF NODE NAME
node       10  usr   19u  IPv4 0xaaaa000000000001      0t0  TCP *:8000 (LISTEN)
node       20  usr   19u  IPv4 0xaaaa000000000002      0t0  TCP *:3000 (LISTEN)
ruby       30  usr   19u  IPv4 0xaaaa000000000003      0t0  TCP *:5000 (LISTEN)
ruby       31  usr   19u  IPv4 0xaaaa000000000004      0t0  TCP *:5000 (LISTEN)
";
    let listening = parse_listening_ports(output);
    let mut owners: HashMap<u32, PidOwner> = HashMap::new();
    record_owners(&mut owners, &[30, 31], "muster_b", "B", "#222222", 0, "Web");
    record_owners(&mut owners, &[10, 20], "muster_a", "A", "#111111", 1, "Api");
    let sorted = sort_by_session_port(match_ports(&listening, &owners));
    let order: Vec<(String, u16, u32)> =
        sorted.iter().map(|m| (m.session_name.clone(), m.port, m.pid)).collect();
    assert_eq!(
        order,
        vec![
            ("muster_a".to_string(), 3000, 20),
            ("muster_a".to_string(), 8000, 10),
            ("muster_b".to_string(), 5000, 30),
            ("muster_b".to_string(), 5000, 31),
        ]
    );
}
