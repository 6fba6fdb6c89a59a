use chatdesk::chats::{append_assistant_message, empty_chat_data, get_chat_messages};
use chatdesk::entities::ChatMessage;
use chatdesk::codec::encode_chat_request;
use chatdesk::errors::{connect_error_message, timeout_error_message};
use chatdesk::stream::{decode_utf8_chunk, StreamSession};

#[test]
fn split_record_across_chunks_reassembles_reply() {
    let mut session = StreamSession::begin("chat-1");
    let chunk1 = decode_utf8_chunk(
        b"{\"message\":{\"content\":\"Hel\"},\"done\":false}\n{\"mess".to_vec(),
    )
    .unwrap();
    let (events1, reply1) = session.feed_chunk(&chunk1);
    assert_eq!(events1.len(), 1);
    assert_eq!(events1[0].chat_id, "chat-1");
    assert_eq!(events1[0].content, "Hel");
    assert!(!events1[0].done);
    assert!(reply1.is_none());

    let chunk2 = decode_utf8_chunk(b"age\":{\"content\":\"lo\"},\"done\":true}\n".to_vec())
        .unwrap();
    let (events2, reply2) = session.feed_chunk(&chunk2);
    assert_eq!(events2.len(), 1);
    assert_eq!(events2[0].content, "lo");
    assert!(events2[0].done);
    let reply = reply2.expect("terminal record must commit the reply");
    assert_eq!(reply, "Hello");

    let mut log = empty_chat_data();
    append_assistant_message(&mut log, &reply);
    let msgs = get_chat_messages(&log);
    assert_eq!(msgs.len(), 1);
    assert_eq!(msgs[0].role, "assistant");
    assert_eq!(msgs[0].content, "Hello");
}

#[test]
fn reply_committed_exactly_once() {
    let mut session = StreamSession::begin("c");
    let (_, r1) = session.feed_chunk("{\"message\":{\"content\":\"a\"},\"done\":true}\n");
    assert_eq!(r1, Some("a".to_string()));
    let (ev2, r2) = session.feed_chunk("{\"message\":{\"content\":\"b\"},\"done\":true}\n");
    assert_eq!(ev2.len(), 1);
    assert!(ev2[0].done);
    assert!(r2.is_none(), "a second terminal record must not commit again");
}

#[test]
fn unparsable_and_blank_lines_are_skipped() {
    let mut session = StreamSession::begin("c");
    let (events, reply) =
        session.feed_chunk("not json\n\n   \n{\"message\":{\"content\":\"ok\"},\"done\":false}\n");
    assert_eq!(events.len(), 1);
    assert_eq!(events[0].content, "ok");
    assert!(reply.is_none());
}

#[test]
fn record_without_done_field_is_skipped() {
    let mut session = StreamSession::begin("c");
    let (events, _) = session.feed_chunk("{\"message\":{\"content\":\"x\"}}\n");
    assert!(events.is_empty());
}

#[test]
fn record_without_content_emits_empty_fragment() {
    let mut session = StreamSession::begin("c");
    let (events, reply) = session.feed_chunk("{\"done\":true,\"done_reason\":\"stop\"}\n");
    assert_eq!(events.len(), 1);
    assert_eq!(events[0].content, "");
    assert_eq!(events[0].done_reason, Some("stop".to_string()));
    assert_eq!(reply, Some("".to_string()));
}

#[test]
fn trailing_record_without_newline_handled_at_finish() {
    let mut session = StreamSession::begin("c");
    let (events1, _) = session.feed_chunk("{\"message\":{\"content\":\"par\"},\"done\":false}\n{\"message\":{\"content\":\"tial\"},\"done\":true}");
    assert_eq!(events1.len(), 1);
    let (events2, reply) = session.finish();
    assert_eq!(events2.len(), 1);
    assert_eq!(events2[0].content, "tial");
    assert!(events2[0].done);
    assert_eq!(reply, Some("partial".to_string()));
}

#[test]
fn invalid_utf8_chunk_is_rejected_by_decoder() {
    assert!(decode_utf8_chunk(vec![0xff, 0xfe, 0x20]).is_none());
    assert_eq!(decode_utf8_chunk(b"ok".to_vec()), Some("ok".to_string()));
}

#[test]
fn request_body_is_exact() {
    let msgs = vec![
        ChatMessage { role: "user".to_string(), content: "hi \"there\"".to_string() },
        ChatMessage { role: "assistant".to_string(), content: "yo".to_string() },
    ];
    let body = encode_chat_request("llama3", &msgs);
    assert_eq!(
        body,
        "{\"model\":\"llama3\",\"messages\":[{\"role\":\"user\",\"content\":\"hi \\\"there\\\"\"},{\"role\":\"assistant\",\"content\":\"yo\"}],\"stream\":true}"
    );
}

#[test]
fn request_body_parses_as_json() {
    let msgs = vec![ChatMessage { role: "user".to_string(), content: "line\nbreak".to_string() }];
    let body = encode_chat_request("m", &msgs);
    let v: serde_json::Value = serde_json::from_str(&body).unwrap();
    assert_eq!(v["model"], "m");
    assert_eq!(v["stream"], true);
    assert_eq!(v["messages"][0]["content"], "line\nbreak");
}

#[test]
fn upstream_error_messages() {
    assert_eq!(
        connect_error_message(),
        "Could not connect to Ollama. Make sure Ollama is running on http://localhost:11434"
    );
    assert_eq!(timeout_error_message(), "Request to Ollama timed out");
}
