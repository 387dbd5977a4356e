use claude_team::inbox::{
    append_inbox, handle_shutdown_request, handle_shutdown_request_at, has_shutdown_request,
    inbox_is_blank, plan_inbox_pass, plan_inbox_pass_at, InboxRoute,
};
use claude_team::protocol::{
    ClaudeTeamControlMessage, ClaudeTeamEnvelope, ContentItem, ProtocolError, ResponseInputItem,
    MESSAGE_TYPE,
};
use claude_team::protocol::json_object_text;

fn envelope(from: &str, text: &str, summary: Option<&str>, message_type: &str) -> ClaudeTeamEnvelope {
    ClaudeTeamEnvelope {
        from: from.to_string(),
        text: text.to_string(),
        summary: summary.map(|s| s.to_string()),
        timestamp: "2026-06-18T00:00:00.000Z".to_string(),
        message_type: message_type.to_string(),
        read: false,
    }
}

fn shutdown_request(request_id: &str, from: &str) -> ClaudeTeamControlMessage {
    ClaudeTeamControlMessage::ShutdownRequest {
        request_id: request_id.to_string(),
        from: from.to_string(),
        reason: "done".to_string(),
        timestamp: "2026-06-18T00:00:00.000Z".to_string(),
    }
}

#[test]
fn plain_message_envelope_matches_claude_shape() {
    let envelope =
        ClaudeTeamEnvelope::plain_message("claudex", "hello from claudex").expect("clock");

    assert_eq!(envelope.from, "claudex");
    assert_eq!(envelope.text, "hello from claudex");
    assert_eq!(envelope.summary.as_deref(), Some("hello from claudex"));
    assert_eq!(envelope.message_type, "message");
    assert_eq!(envelope.read, false);
}

#[test]
fn teammate_wrapper_uses_user_visible_claude_format() {
    let envelope = ClaudeTeamEnvelope {
        from: "lead\"<&>".to_string(),
        text: "keep\nbody".to_string(),
        summary: Some("summary\"<&>".to_string()),
        timestamp: "2026-06-18T00:00:00.000Z".to_string(),
        message_type: MESSAGE_TYPE.to_string(),
        read: false,
    };

    assert_eq!(
        envelope.to_teammate_message_text(),
        "<teammate-message teammate_id=\"lead&quot;&lt;&amp;&gt;\" summary=\"summary&quot;&lt;&amp;&gt;\">\nkeep\nbody\n</teammate-message>"
    );
}

#[test]
fn shutdown_request_nested_json_is_detected() {
    let mut object = serde_json::Map::new();
    object.insert("type".to_string(), serde_json::Value::from("shutdown_request"));
    object.insert("requestId".to_string(), serde_json::Value::from("shutdown-1@claudex"));
    object.insert("from".to_string(), serde_json::Value::from("lead"));
    object.insert("reason".to_string(), serde_json::Value::from("done"));
    object.insert("timestamp".to_string(), serde_json::Value::from("2026-06-18T00:00:00.000Z"));
    let text = serde_json::Value::Object(object).to_string();
    let envelope = envelope("lead", &text, None, MESSAGE_TYPE);
    // The control message that the envelope's text parses to.
    let control = Some(shutdown_request("shutdown-1@claudex", "lead"));
    let parsed: serde_json::Value = serde_json::from_str(&envelope.text).expect("nested json");
    match control.as_ref().expect("a control message") {
        ClaudeTeamControlMessage::ShutdownRequest { request_id, from, reason, timestamp } => {
            assert_eq!(parsed["type"], "shutdown_request");
            assert_eq!(parsed["requestId"], request_id.as_str());
            assert_eq!(parsed["from"], from.as_str());
            assert_eq!(parsed["reason"], reason.as_str());
            assert_eq!(parsed["timestamp"], timestamp.as_str());
        }
        other => panic!("unexpected control {other:?}"),
    }

    assert!(envelope.is_shutdown_request(&control));
    assert!(!envelope.is_plain_message(&control));
}

#[test]
fn shutdown_approved_uses_captured_on_disk_type() {
    let envelope = ClaudeTeamEnvelope::shutdown_approved(
        "claudex",
        "shutdown-1@claudex",
        "claudex:session",
    )
    .expect("build shutdown approval");

    assert_eq!(envelope.message_type, MESSAGE_TYPE);
    let control: serde_json::Value =
        serde_json::from_str(&envelope.text).expect("shutdown approval should parse");
    let object = control.as_object().expect("an object");
    assert_eq!(object.len(), 6);
    assert_eq!(control["type"], "shutdown_approved");
    assert_eq!(control["requestId"], "shutdown-1@claudex");
    assert_eq!(control["from"], "claudex");
    assert_eq!(control["timestamp"], envelope.timestamp.as_str());
    assert_eq!(control["paneId"], "claudex:session");
    assert_eq!(control["backendType"], "tmux");
}

#[test]
fn shutdown_approval_text_is_compact_tagged_json() {
    let envelope = ClaudeTeamEnvelope::shutdown_approved_at(
        "claudex",
        "shutdown-1@claudex",
        "claudex:session",
        "2026-06-18T00:00:00.000Z".to_string(),
    )
    .expect("build shutdown approval");
    assert_eq!(
        envelope.text,
        "{\"type\":\"shutdown_approved\",\"requestId\":\"shutdown-1@claudex\",\"from\":\"claudex\",\"timestamp\":\"2026-06-18T00:00:00.000Z\",\"paneId\":\"claudex:session\",\"backendType\":\"tmux\"}"
    );
    assert_eq!(envelope.from, "claudex");
    assert_eq!(envelope.summary, None);
    assert_eq!(envelope.timestamp, "2026-06-18T00:00:00.000Z");
    assert!(!envelope.read);
}

#[test]
fn control_message_json_escapes_field_values() {
    let control = ClaudeTeamControlMessage::ShutdownRequest {
        request_id: "r\"1".to_string(),
        from: "a\\b".to_string(),
        reason: "line\nbreak".to_string(),
        timestamp: "t".to_string(),
    };
    let json = control.to_json().expect("json");
    assert_eq!(
        json,
        "{\"type\":\"shutdown_request\",\"requestId\":\"r\\\"1\",\"from\":\"a\\\\b\",\"reason\":\"line\\nbreak\",\"timestamp\":\"t\"}"
    );
    let parsed: serde_json::Value = serde_json::from_str(&json).expect("parses");
    assert_eq!(parsed["requestId"], "r\"1");
    assert_eq!(parsed["reason"], "line\nbreak");
}

#[test]
fn json_object_text_frames_members() {
    let members = vec![
        ("\"a\"".to_string(), "1".to_string()),
        ("\"b\"".to_string(), "\"x\"".to_string()),
    ];
    assert_eq!(json_object_text(&members), "{\"a\":1,\"b\":\"x\"}");
    assert_eq!(json_object_text(&Vec::new()), "{}");
}

#[test]
fn plain_message_is_stamped_with_rfc3339_millis_utc() {
    let envelope = ClaudeTeamEnvelope::plain_message("lead", "one").expect("clock");
    let ts = envelope.timestamp.as_str();
    assert_eq!(ts.len(), 24);
    assert!(ts.ends_with('Z'));
    assert_eq!(&ts[4..5], "-");
    assert_eq!(&ts[10..11], "T");
    assert_eq!(&ts[19..20], ".");
}

#[test]
fn plain_message_at_keeps_given_timestamp_and_summarises() {
    let text = "one two three four five six seven eight nine ten eleven twelve";
    let envelope = ClaudeTeamEnvelope::plain_message_at("lead", text, "T".to_string());
    assert_eq!(envelope.timestamp, "T");
    assert_eq!(envelope.summary.as_deref(), Some("one two three four five six seven eight nine ten"));
}

#[test]
fn teammate_text_trims_summary_and_drops_blank_one() {
    let e = envelope("lead", "body", Some("  hi there \n"), MESSAGE_TYPE);
    assert_eq!(
        e.to_teammate_message_text(),
        "<teammate-message teammate_id=\"lead\" summary=\"hi there\">\nbody\n</teammate-message>"
    );
    let e = envelope("lead", "body", Some("   "), MESSAGE_TYPE);
    assert_eq!(
        e.to_teammate_message_text(),
        "<teammate-message teammate_id=\"lead\" summary=\"\">\nbody\n</teammate-message>"
    );
    let e = envelope("lead", "body", None, MESSAGE_TYPE);
    assert_eq!(
        e.to_teammate_message_text(),
        "<teammate-message teammate_id=\"lead\" summary=\"\">\nbody\n</teammate-message>"
    );
}

#[test]
fn response_item_is_user_message_with_teammate_text() {
    let e = envelope("lead", "body", None, MESSAGE_TYPE);
    let item = e.to_teammate_response_item();
    assert_eq!(
        item,
        ResponseInputItem::Message {
            role: "user".to_string(),
            content: vec![ContentItem::InputText { text: e.to_teammate_message_text() }],
        }
    );
}

#[test]
fn plain_message_needs_message_type_and_no_control() {
    let e = envelope("lead", "hi", None, MESSAGE_TYPE);
    assert!(e.is_plain_message(&None));
    assert!(!e.is_shutdown_request(&None));
    let other = envelope("lead", "hi", None, "idle_notification");
    assert!(!other.is_plain_message(&None));
    let approved = Some(ClaudeTeamControlMessage::ShutdownApproved {
        request_id: "r".to_string(),
        from: "a".to_string(),
        timestamp: "t".to_string(),
        pane_id: "p".to_string(),
        backend_type: "tmux".to_string(),
    });
    assert!(!e.is_plain_message(&approved));
    assert!(!e.is_shutdown_request(&approved));
}

#[test]
fn inbox_blank_means_ascii_whitespace_only() {
    assert!(inbox_is_blank(b""));
    assert!(inbox_is_blank(b" \n\t\r\x0c"));
    assert!(!inbox_is_blank(b"\x0b"));
    assert!(!inbox_is_blank(b" [] "));
}

#[test]
fn append_inbox_adds_at_end() {
    let first = envelope("lead", "one", None, MESSAGE_TYPE);
    let second = envelope("lead", "two", None, MESSAGE_TYPE);
    let inbox = append_inbox(Vec::new(), first.copy());
    let inbox = append_inbox(inbox, second.copy());
    assert_eq!(inbox, vec![first, second]);
}

#[test]
fn handle_shutdown_request_answers_requester() {
    assert_eq!(handle_shutdown_request(&None, "worker", "pane"), Ok(None));
    let reply = handle_shutdown_request(&Some(shutdown_request("req-7", "lead")), "worker", "pane")
        .expect("no error")
        .expect("a reply");
    assert_eq!(reply.recipient, "lead");
    assert_eq!(reply.approval.from, "worker");
    let parsed: serde_json::Value = serde_json::from_str(&reply.approval.text).expect("json");
    assert_eq!(parsed["type"], "shutdown_approved");
    assert_eq!(parsed["requestId"], "req-7");
    assert_eq!(parsed["from"], "worker");
    assert_eq!(parsed["paneId"], "pane");
}

#[test]
fn inbox_pass_routes_each_envelope() {
    let plain = envelope("lead", "hello", Some("hello"), MESSAGE_TYPE);
    let request = envelope("lead", "{...}", None, MESSAGE_TYPE);
    let idle = envelope("lead", "idle", None, "idle_notification");
    let approved_control = Some(ClaudeTeamControlMessage::ShutdownApproved {
        request_id: "r".to_string(),
        from: "a".to_string(),
        timestamp: "t".to_string(),
        pane_id: "p".to_string(),
        backend_type: "tmux".to_string(),
    });
    let approved = envelope("a", "{...}", None, MESSAGE_TYPE);
    let envelopes = vec![plain.copy(), request.copy(), idle.copy(), approved.copy()];
    let controls = vec![None, Some(shutdown_request("r1", "lead")), None, approved_control.clone()];
    let plan = plan_inbox_pass(&envelopes, &controls, "worker", "pane").expect("plan");
    assert!(plan.rewrite);
    assert_eq!(plan.routes.len(), 4);
    assert_eq!(plan.routes[0], InboxRoute::Deliver(plain.to_teammate_response_item()));
    match &plan.routes[1] {
        InboxRoute::Reply(reply) => {
            assert_eq!(reply.recipient, "lead");
            assert_eq!(reply.approval.from, "worker");
        }
        other => panic!("unexpected route {other:?}"),
    }
    assert_eq!(plan.routes[2], InboxRoute::Keep);
    assert_eq!(plan.routes[3], InboxRoute::Keep);
    assert_eq!(plan.remaining, vec![idle.copy(), approved.copy()]);

    // A second pass over what remains keeps everything.
    let again = plan_inbox_pass(&plan.remaining, &vec![None, approved_control], "worker", "pane")
        .expect("plan");
    assert_eq!(again.routes, vec![InboxRoute::Keep, InboxRoute::Keep]);
    assert_eq!(again.remaining, plan.remaining);
}

#[test]
fn empty_inbox_is_not_rewritten() {
    let plan = plan_inbox_pass(&Vec::new(), &Vec::new(), "worker", "pane").expect("plan");
    assert!(!plan.rewrite);
    assert!(plan.routes.is_empty());
    assert!(plan.remaining.is_empty());
    let _ = ProtocolError::Serialization;
}

#[test]
fn control_characters_are_escaped_as_serde_json_does() {
    let control = ClaudeTeamControlMessage::ShutdownApproved {
        request_id: "a\u{1}b\u{1f}c\u{7f}".to_string(),
        from: "\u{8}\u{c}\r\t".to_string(),
        timestamp: "é/".to_string(),
        pane_id: "p".to_string(),
        backend_type: "tmux".to_string(),
    };
    let json = control.to_json().expect("json");
    assert_eq!(
        json,
        "{\"type\":\"shutdown_approved\",\"requestId\":\"a\\u0001b\\u001fc\u{7f}\",\"from\":\"\\b\\f\\r\\t\",\"timestamp\":\"é/\",\"paneId\":\"p\",\"backendType\":\"tmux\"}"
    );
}

#[test]
fn shutdown_reply_at_carries_given_timestamp() {
    assert_eq!(handle_shutdown_request_at(&None, "worker", "pane", "T".to_string()), None);
    let reply = handle_shutdown_request_at(
        &Some(shutdown_request("req-9", "lead")),
        "worker",
        "pane",
        "T".to_string(),
    )
    .expect("a reply");
    assert_eq!(reply.recipient, "lead");
    assert_eq!(reply.approval.timestamp, "T");
    assert_eq!(
        reply.approval.text,
        "{\"type\":\"shutdown_approved\",\"requestId\":\"req-9\",\"from\":\"worker\",\"timestamp\":\"T\",\"paneId\":\"pane\",\"backendType\":\"tmux\"}"
    );
}

#[test]
fn inbox_pass_at_stamps_every_approval() {
    let envelopes = vec![
        envelope("a", "{...}", None, MESSAGE_TYPE),
        envelope("b", "{...}", None, MESSAGE_TYPE),
    ];
    let controls = vec![Some(shutdown_request("r1", "a")), Some(shutdown_request("r2", "b"))];
    assert!(has_shutdown_request(&controls));
    assert!(!has_shutdown_request(&vec![None, None]));
    let plan = plan_inbox_pass_at(&envelopes, &controls, "worker", "pane", "T0");
    assert!(plan.remaining.is_empty());
    for (route, to) in plan.routes.iter().zip(["a", "b"]) {
        match route {
            InboxRoute::Reply(reply) => {
                assert_eq!(reply.recipient, to);
                assert_eq!(reply.approval.timestamp, "T0");
            }
            other => panic!("unexpected route {other:?}"),
        }
    }
}
