//! Tests of the event model, its JSON extraction, and the bounded queue.

use ccr::events::{CcrEvent, EventQueue, MAX_EVENTS, MAX_TEXT_LEN};

#[test]
fn test_parse_tool_call() {
    let json = r#"{"type":"tool_call","id":"t1","tool":"Bash","args":"cargo build","session_id":"s1"}"#;
    let event = CcrEvent::from_json(json).unwrap();

    if let CcrEvent::ToolCall {
        id,
        tool,
        args,
        session_id,
    } = event
    {
        assert_eq!(id, "t1");
        assert_eq!(tool, "Bash");
        assert_eq!(args, "cargo build");
        assert_eq!(session_id, "s1");
    } else {
        panic!("Wrong event type");
    }
}

#[test]
fn test_parse_permission_pending() {
    let json = r#"{"type":"permission_pending","request_id":"abc123","tool":"Bash","command":"rm -rf /","session_id":"s1"}"#;
    let event = CcrEvent::from_json(json).unwrap();

    if let CcrEvent::PermissionPending {
        request_id,
        tool,
        command,
        ..
    } = event
    {
        assert_eq!(request_id, "abc123");
        assert_eq!(tool, "Bash");
        assert_eq!(command, "rm -rf /");
    } else {
        panic!("Wrong event type");
    }
}

#[test]
fn test_event_queue() {
    let mut queue = EventQueue::new();
    assert!(queue.is_empty());

    queue.push(CcrEvent::Status {
        connected: true,
        message: String::from("test"),
    });
    assert_eq!(queue.len(), 1);

    queue.push(CcrEvent::UserInput {
        text: String::from("hello"),
        session_id: String::from("s1"),
    });
    assert_eq!(queue.len(), 2);
}

#[test]
fn test_event_queue_overflow() {
    let mut queue = EventQueue::new();

    for i in 0..MAX_EVENTS + 5 {
        queue.push(CcrEvent::Status {
            connected: true,
            message: format!("msg{}", i),
        });
    }

    assert_eq!(queue.len(), MAX_EVENTS);
}

#[test]
fn test_event_queue_eviction_order() {
    // pushing 69 events e0..e68 onto a 64-slot queue leaves e5..e68
    let mut queue = EventQueue::new();
    for i in 0..69 {
        queue.push(CcrEvent::Status {
            connected: true,
            message: format!("e{}", i),
        });
    }
    assert_eq!(queue.len(), 64);
    match queue.get(0).unwrap() {
        CcrEvent::Status { message, .. } => assert_eq!(message, "e5"),
        _ => panic!("Wrong event type"),
    }
    match queue.get(63).unwrap() {
        CcrEvent::Status { message, .. } => assert_eq!(message, "e68"),
        _ => panic!("Wrong event type"),
    }
    assert!(queue.get(64).is_none());
}

#[test]
fn test_empty_queue_finds() {
    let queue = EventQueue::new();
    assert!(queue.find_pending_permission().is_none());
    assert!(queue.find_by_request_id("x").is_none());
}

#[test]
fn test_permission_free_queue_finds() {
    let mut queue = EventQueue::new();
    queue.push(CcrEvent::Status {
        connected: false,
        message: String::from("down"),
    });
    queue.push(CcrEvent::UserInput {
        text: String::from("hi"),
        session_id: String::from("s"),
    });
    assert!(queue.find_pending_permission().is_none());
    assert!(queue.find_by_request_id("abc").is_none());
}

#[test]
fn test_find_pending_permission_first() {
    let mut queue = EventQueue::new();
    queue.push(CcrEvent::Status {
        connected: true,
        message: String::from("up"),
    });
    queue.push(CcrEvent::PermissionPending {
        request_id: String::from("r1"),
        tool: String::from("Bash"),
        command: String::from("ls"),
        session_id: String::from("s"),
    });
    queue.push(CcrEvent::PermissionPending {
        request_id: String::from("r2"),
        tool: String::from("Bash"),
        command: String::from("pwd"),
        session_id: String::from("s"),
    });
    let (i, e) = queue.find_pending_permission().unwrap();
    assert_eq!(i, 1);
    assert_eq!(e.request_id(), Some("r1"));

    let (j, e2) = queue.find_by_request_id("r2").unwrap();
    assert_eq!(j, 2);
    assert_eq!(e2.request_id(), Some("r2"));
}

#[test]
fn test_queue_clear_and_iter() {
    let mut queue = EventQueue::new();
    for i in 0..3 {
        queue.push(CcrEvent::Status {
            connected: true,
            message: format!("m{}", i),
        });
    }
    let mut it = queue.iter();
    let mut seen = Vec::new();
    while let Some(e) = it.next() {
        match e {
            CcrEvent::Status { message, .. } => seen.push(message.clone()),
            _ => panic!("Wrong event type"),
        }
    }
    assert_eq!(seen, vec!["m0", "m1", "m2"]);

    queue.clear();
    assert!(queue.is_empty());
    assert!(queue.get(0).is_none());
}

#[test]
fn test_queue_get_mut() {
    let mut queue = EventQueue::new();
    queue.push(CcrEvent::Status {
        connected: false,
        message: String::from("old"),
    });
    if let Some(event) = queue.get_mut(0) {
        *event = CcrEvent::Status {
            connected: true,
            message: String::from("new"),
        };
    } else {
        panic!("Expected an event at position zero");
    }
    match queue.get(0).unwrap() {
        CcrEvent::Status { connected, message } => {
            assert!(*connected);
            assert_eq!(message, "new");
        }
        _ => panic!("Wrong event type"),
    }
    assert!(queue.get_mut(1).is_none());
}

#[test]
fn test_unknown_event_type_dropped() {
    assert!(CcrEvent::from_json(r#"{"type":"unknown_xyz"}"#).is_none());
    assert!(CcrEvent::from_json(r#"{"no_type_at_all":1}"#).is_none());
}

#[test]
fn test_missing_fields_default_empty() {
    let event = CcrEvent::from_json(r#"{"type":"session_start"}"#).unwrap();
    if let CcrEvent::SessionStart {
        session_id,
        source,
        model,
    } = event
    {
        assert_eq!(session_id, "");
        assert_eq!(source, "");
        assert_eq!(model, "");
    } else {
        panic!("Wrong event type");
    }
}

#[test]
fn test_text_field_truncated() {
    let long: String = "a".repeat(MAX_TEXT_LEN + 50);
    let json = format!(r#"{{"type":"user_input","text":"{}","session_id":"s"}}"#, long);
    let event = CcrEvent::from_json(&json).unwrap();
    if let CcrEvent::UserInput { text, .. } = event {
        assert_eq!(text.chars().count(), MAX_TEXT_LEN);
        assert!(text.chars().all(|c| c == 'a'));
    } else {
        panic!("Wrong event type");
    }
}

#[test]
fn test_unescape_sequences() {
    let json = r#"{"type":"user_input","text":"a\nb\rc\td\\e\/f\qg","session_id":"s"}"#;
    let event = CcrEvent::from_json(json).unwrap();
    if let CcrEvent::UserInput { text, .. } = event {
        assert_eq!(text, "a\nb\rc\td\\e/f\\qg");
    } else {
        panic!("Wrong event type");
    }

    // the field scan stops at the first quote, escaped or not, so an
    // escaped quote ends the value with a lone trailing backslash kept
    let json2 = r#"{"type":"user_input","text":"x\"y","session_id":"s"}"#;
    if let CcrEvent::UserInput { text, .. } = CcrEvent::from_json(json2).unwrap() {
        assert_eq!(text, "x\\");
    } else {
        panic!("Wrong event type");
    }
}

#[test]
fn test_from_permission_request() {
    let json = r#"{"type":"permission_request","request_id":"pr1","tool":"Write","command":"save","session_id":"s9"}"#;
    let event = CcrEvent::from_permission_request(json).unwrap();
    if let CcrEvent::PermissionPending {
        request_id,
        tool,
        command,
        session_id,
    } = event
    {
        assert_eq!(request_id, "pr1");
        assert_eq!(tool, "Write");
        assert_eq!(command, "save");
        assert_eq!(session_id, "s9");
    } else {
        panic!("Wrong event type");
    }
    // any other type on this topic yields nothing
    assert!(CcrEvent::from_permission_request(r#"{"type":"tool_call"}"#).is_none());
}

#[test]
fn test_icon_glyphs() {
    let bash = CcrEvent::ToolCall {
        id: String::from("1"),
        tool: String::from("Bash"),
        args: String::from("ls"),
        session_id: String::from("s"),
    };
    assert_eq!(bash.icon(), '$');

    let read = CcrEvent::ToolCall {
        id: String::from("1"),
        tool: String::from("Read"),
        args: String::from("f"),
        session_id: String::from("s"),
    };
    assert_eq!(read.icon(), 'R');

    let allow = CcrEvent::PermissionResolved {
        request_id: String::from("r"),
        decision: String::from("allow"),
        session_id: String::from("s"),
    };
    assert_eq!(allow.icon(), '\u{2713}');

    let online = CcrEvent::Status {
        connected: true,
        message: String::new(),
    };
    assert_eq!(online.icon(), '\u{25cf}');
}

#[test]
fn test_summary_lines() {
    let call = CcrEvent::ToolCall {
        id: String::from("1"),
        tool: String::from("Bash"),
        args: String::from("cargo build"),
        session_id: String::from("s"),
    };
    assert_eq!(call.summary(), "Bash: cargo build");

    let start = CcrEvent::SessionStart {
        session_id: String::from("s"),
        source: String::from("startup"),
        model: String::new(),
    };
    assert_eq!(start.summary(), "Session startup");

    let long_input = CcrEvent::UserInput {
        text: "x".repeat(40),
        session_id: String::from("s"),
    };
    let summary = long_input.summary();
    assert_eq!(summary.chars().count(), 35);
    assert!(summary.ends_with("..."));

    let timeout = CcrEvent::PermissionTimeout {
        request_id: String::from("r"),
        session_id: String::from("s"),
    };
    assert_eq!(timeout.summary(), "Permission timeout");
}

#[test]
fn test_is_permission_pending_and_accessors() {
    let pending = CcrEvent::PermissionPending {
        request_id: String::from("r"),
        tool: String::from("Bash"),
        command: String::from("ls"),
        session_id: String::from("s"),
    };
    assert!(pending.is_permission_pending());
    assert_eq!(pending.request_id(), Some("r"));
    assert_eq!(pending.tool_name(), Some("Bash"));

    let stop = CcrEvent::Stop {
        session_id: String::from("s"),
    };
    assert!(!stop.is_permission_pending());
    assert_eq!(stop.request_id(), None);
    assert_eq!(stop.tool_name(), None);
}
