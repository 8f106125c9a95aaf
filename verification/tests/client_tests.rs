use sagens::box_api::{payload_result, Principal};
use sagens::box_store::json_stem;
use sagens::error::SandboxError;
use sagens::images::{sort_manifests, VmImageManifest};
use sagens::session::{
    reader_step, request_id_text, response_result, BoxEvent, ClientMessage, ReaderInput, Waited,
};
use sagens::textmap::TextMap;

fn manifest(name: &str) -> VmImageManifest {
    VmImageManifest {
        version: 1,
        name: name.to_string(),
        arch: "x86_64".to_string(),
        alpine_version: "3.23.4".to_string(),
        created_at_ms: 0,
        apk: vec![],
        pip: vec![],
        npm: vec![],
        kernel_image: "vmlinuz-virt".to_string(),
        rootfs_image: "rootfs.raw".to_string(),
        cache_image: None,
        package_count: 0,
    }
}

#[test]
fn manifests_are_listed_by_name() {
    let sorted = sort_manifests(vec![manifest("py"), manifest("chromium"), manifest("node"), manifest("chromium")]);
    let names: Vec<&str> = sorted.iter().map(|m| m.name.as_str()).collect();
    assert_eq!(names, vec!["chromium", "chromium", "node", "py"]);
}

#[test]
fn reader_answers_authentication_and_fails_waiters_on_close() {
    let asked = ClientMessage::AuthenticateAdmin { admin_uuid: 7, admin_token: "t".to_string() };
    let action = reader_step::<()>(ReaderInput::Authenticated(Principal::Admin { admin_uuid: 7 }), true, &asked);
    assert!(matches!(action.auth_reply, Some(Ok(()))));
    assert!(!action.stop);
    let action = reader_step::<()>(ReaderInput::Authenticated(Principal::Box { box_id: 7 }), true, &asked);
    match action.auth_reply {
        Some(Err(SandboxError::Backend(m))) => assert_eq!(m, "websocket authenticated as an unexpected principal"),
        _ => panic!("mismatch expected"),
    }
    let action = reader_step::<()>(ReaderInput::Closed, true, &asked);
    assert!(action.stop);
    assert_eq!(action.fail_all, Some("websocket connection closed".to_string()));
    assert!(matches!(action.auth_reply, Some(Err(SandboxError::Backend(_)))));
    let action = reader_step::<()>(ReaderInput::ReadFailed("reset".to_string()), false, &asked);
    assert_eq!(action.fail_all, Some("backend failure: reading websocket message failed: reset".to_string()));
    assert!(action.auth_reply.is_none());
    let event: BoxEvent<()> = BoxEvent::Error { request_id: None, message: "x".to_string() };
    let action = reader_step(ReaderInput::Event(event), false, &asked);
    assert!(action.event.is_some());
}

#[test]
fn request_results() {
    assert_eq!(response_result("4", Waited::Answered(Some(5))).unwrap(), 5);
    assert_eq!(
        response_result::<u8>("4", Waited::Answered(None)).unwrap_err().to_message(),
        "protocol error: unexpected response type for request 4"
    );
    assert_eq!(
        response_result::<u8>("4", Waited::Dropped).unwrap_err().to_message(),
        "backend failure: response waiter dropped for request 4"
    );
    assert_eq!(request_id_text(0), "0");
    assert_eq!(request_id_text(1234), "1234");
}

#[test]
fn payload_errors_name_their_context() {
    assert_eq!(payload_result("exec payload", Ok(vec![1])).unwrap(), vec![1]);
    assert_eq!(
        payload_result("exec payload", Err("Invalid padding".to_string())).unwrap_err().to_message(),
        "protocol error: exec payload: Invalid padding"
    );
}

#[test]
fn json_stems() {
    assert_eq!(json_stem("a.b.json"), Some("a.b".to_string()));
    assert_eq!(json_stem(".json"), None);
    assert_eq!(json_stem("x.txt"), None);
    assert_eq!(json_stem("noext"), None);
}

#[test]
fn text_map_insert_replace_remove() {
    let mut map: TextMap<u32> = TextMap::new();
    map.insert("a".to_string(), 1);
    map.insert("b".to_string(), 2);
    map.insert("a".to_string(), 3);
    assert_eq!(map.len(), 2);
    assert_eq!(map.get("a"), Some(&3));
    map.insert_if_absent("a".to_string(), 9);
    assert_eq!(map.get("a"), Some(&3));
    assert!(map.remove("a"));
    assert!(!map.remove("a"));
    assert_eq!(map.get("a"), None);
    assert!(map.contains_key("b"));
    map.clear();
    assert_eq!(map.len(), 0);
}
