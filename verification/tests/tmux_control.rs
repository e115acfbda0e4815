use muster::tmux::control::{parse_control_line, ControlLine, MusterEvent, StreamParser};

#[test]
fn test_parse_window_add() {
    let line = "%window-add @1";
    let parsed = parse_control_line(line);
    assert_eq!(
        parsed,
        ControlLine::Notification(MusterEvent::TabAdded { window_id: "@1".to_string() })
    );
}

#[test]
fn test_parse_window_close() {
    let line = "%window-close @1";
    let parsed = parse_control_line(line);
    assert_eq!(
        parsed,
        ControlLine::Notification(MusterEvent::TabClosed { window_id: "@1".to_string() })
    );
}

#[test]
fn test_parse_window_renamed() {
    let line = "%window-renamed @1 newname";
    let parsed = parse_control_line(line);
    assert_eq!(
        parsed,
        ControlLine::Notification(MusterEvent::TabRenamed {
            window_id: "@1".to_string(),
            name: "newname".to_string(),
        })
    );
}

#[test]
fn test_parse_sessions_changed() {
    let parsed = parse_control_line("%sessions-changed");
    assert_eq!(parsed, ControlLine::Notification(MusterEvent::SessionsChanged));
}

#[test]
fn test_parse_response_block() {
    let begin = "%begin 1234567890 1 0";
    let end = "%end 1234567890 1 0";

    match parse_control_line(begin) {
        ControlLine::BeginResponse { command_number, .. } => assert_eq!(command_number, "1"),
        other => panic!("expected BeginResponse, got {other:?}"),
    }
    match parse_control_line(end) {
        ControlLine::EndResponse { command_number, .. } => assert_eq!(command_number, "1"),
        other => panic!("expected EndResponse, got {other:?}"),
    }
}

#[test]
fn test_parse_mixed_stream() {
    let lines = vec![
        "%sessions-changed",
        "%begin 1234567890 1 0",
        "session1: 2 windows",
        "%end 1234567890 1 0",
        "%window-add @5",
        "%window-renamed @5 editor",
    ];

    let mut parser = StreamParser::new();
    let mut all_events = Vec::new();
    for line in lines {
        all_events.extend(parser.feed(line));
    }

    assert_eq!(all_events.len(), 3);
    assert_eq!(all_events[0], MusterEvent::SessionsChanged);
    assert_eq!(all_events[1], MusterEvent::TabAdded { window_id: "@5".to_string() });
    assert_eq!(
        all_events[2],
        MusterEvent::TabRenamed { window_id: "@5".to_string(), name: "editor".to_string() }
    );
}

#[test]
fn test_parse_active_tab_changed() {
    let line = "%session-window-changed $1 @3";
    let parsed = parse_control_line(line);
    assert_eq!(
        parsed,
        ControlLine::Notification(MusterEvent::ActiveTabChanged {
            session_id: "$1".to_string(),
            window_id: "@3".to_string(),
        })
    );
}

#[test]
fn test_parse_session_renamed() {
    let line = "%session-renamed newname";
    let parsed = parse_control_line(line);
    assert_eq!(
        parsed,
        ControlLine::Notification(MusterEvent::SessionRenamed { name: "newname".to_string() })
    );
}

#[test]
fn test_parse_client_detached() {
    let line = "%client-detached /dev/ttys001";
    let parsed = parse_control_line(line);
    assert_eq!(
        parsed,
        ControlLine::Notification(MusterEvent::ClientDetached {
            client: "/dev/ttys001".to_string(),
        })
    );
}

#[test]
fn test_parse_subscription_changed() {
    let line = "%subscription-changed pd_5 @1 %5 1:0";
    let parsed = parse_control_line(line);
    assert_eq!(
        parsed,
        ControlLine::Notification(MusterEvent::SubscriptionChanged {
            name: "pd_5".to_string(),
            window_id: "@1".to_string(),
            pane_id: "%5".to_string(),
            value: "1:0".to_string(),
        })
    );
}

#[test]
fn test_parse_subscription_changed_with_spaces_in_value() {
    let line = "%subscription-changed bell_1 @2 %10 1 extra data";
    let parsed = parse_control_line(line);
    assert_eq!(
        parsed,
        ControlLine::Notification(MusterEvent::SubscriptionChanged {
            name: "bell_1".to_string(),
            window_id: "@2".to_string(),
            pane_id: "%10".to_string(),
            value: "1 extra data".to_string(),
        })
    );
}

#[test]
fn test_stream_parser_ignores_response_content() {
    let mut parser = StreamParser::new();

    // Response block should not emit events for output lines
    assert!(parser.feed("%begin 123 1 0").is_empty());
    assert!(parser.feed("some output data").is_empty());
    assert!(parser.feed("more output").is_empty());
    assert!(parser.feed("%end 123 1 0").is_empty());

    // But notifications around it should
    let events = parser.feed("%window-add @1");
    assert_eq!(events.len(), 1);
}

#[test]
fn other_lines() {
    assert_eq!(
        parse_control_line("%exit"),
        ControlLine::Unknown("%exit".to_string())
    );
    assert_eq!(
        parse_control_line("plain text"),
        ControlLine::OutputLine("plain text".to_string())
    );
    assert_eq!(
        parse_control_line("%layout-change @2 abcd,80x24,0,0 x"),
        ControlLine::Notification(MusterEvent::LayoutChanged { window_id: "@2".to_string() })
    );
    // A renamed notification without a name falls through to unknown.
    assert_eq!(
        parse_control_line("%window-renamed @1"),
        ControlLine::Unknown("%window-renamed @1".to_string())
    );
    assert_eq!(
        parse_control_line("%error 1 2 0"),
        ControlLine::ErrorResponse {
            timestamp: "1".to_string(),
            command_number: "2".to_string(),
            flags: "0".to_string(),
        }
    );
}

#[test]
fn notification_inside_block_is_emitted() {
    let mut parser = StreamParser::default();
    assert!(parser.feed("%begin 1 7 0").is_empty());
    assert_eq!(parser.feed("%sessions-changed"), vec![MusterEvent::SessionsChanged]);
    assert!(parser.feed("%error 1 7 0").is_empty());
    assert!(parser.feed("after").is_empty());
}
