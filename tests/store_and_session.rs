use collections::claim::{icon_url, ClaimAction, ClaimChain, ClaimEvent, ClaimStep, IconProtocol, SAVE_LABEL};
use collections::frame::{decode_frame, encode_websocket_message};
use collections::notify::{decimal_string, Action, SavedUiViewData};
use collections::path::check_canonical;
use collections::session::{
    description_text, DeleteRoute, GetRoute, PostRoute, PutRoute, SessionError, WebSession,
};
use collections::store::{token_for, Outgoing, SavedUiViewSet};

fn data(title: &str, date: u64, by: &str) -> SavedUiViewData {
    SavedUiViewData { title: title.to_string(), date_added: date, added_by: by.to_string() }
}

fn payload_text(frame: &[u8]) -> String {
    String::from_utf8(decode_frame(frame).ok().unwrap().payload).unwrap()
}

fn empty_store() -> SavedUiViewSet {
    SavedUiViewSet::new(Vec::new(), "this is a description".to_string())
}

#[test]
fn json_encodings_are_exact() {
    let d = data("My Grain", 1234, "alice");
    assert_eq!(d.to_json(), "{\"title\":\"My Grain\",\"date_added\": \"1234\",\"added_by\":\"alice\"}");
    let ins = Action::Insert { token: "AQI=".to_string(), data: d };
    assert_eq!(
        ins.to_json(),
        "{\"insert\":{\"token\":\"AQI=\",\"data\":{\"title\":\"My Grain\",\"date_added\": \"1234\",\"added_by\":\"alice\"} } }"
    );
    assert_eq!(Action::Remove { token: "AQI=".to_string() }.to_json(), "{\"remove\":{\"token\":\"AQI=\"}}");
    assert_eq!(Action::CanWrite(true).to_json(), "{\"canWrite\":true}");
    assert_eq!(Action::CanWrite(false).to_json(), "{\"canWrite\":false}");
    assert_eq!(Action::Description("hi".to_string()).to_json(), "{\"description\":\"hi\"}");
}

#[test]
fn decimal_string_values() {
    assert_eq!(decimal_string(0), "0");
    assert_eq!(decimal_string(9), "9");
    assert_eq!(decimal_string(10), "10");
    assert_eq!(decimal_string(u64::MAX), "18446744073709551615");
}

#[test]
fn token_is_padded_url_safe_base64() {
    assert_eq!(token_for(&[0x01, 0x02]), "AQI=");
    assert_eq!(token_for(&[]), "");
    assert_eq!(token_for(&[0xfb, 0xff]), "-_8=");
    assert_eq!(token_for(&[0x66]), "Zg==");
    assert_eq!(token_for(b"foobar"), "Zm9vYmFy");
}

#[test]
fn insert_on_empty_store_broadcasts_to_every_subscriber() {
    let mut store = empty_store();
    let a = store.new_subscribed_websocket(true);
    let b = store.new_subscribed_websocket(false);
    assert_eq!((a.id, b.id), (0, 1));
    let token = token_for(&[0x01, 0x02]);
    assert_eq!(token, "AQI=");
    let out: Vec<Outgoing> = store.insert(token.clone(), data("My Grain", 1500000000000, "alice"));
    assert_eq!(out.len(), 2);
    assert_eq!(out[0].subscriber, 0);
    assert_eq!(out[1].subscriber, 1);
    let expected = "{\"insert\":{\"token\":\"AQI=\",\"data\":{\"title\":\"My Grain\",\"date_added\": \"1500000000000\",\"added_by\":\"alice\"} } }";
    for o in &out {
        assert_eq!(payload_text(&o.frame), expected);
    }
    let saved = store.get("AQI=").unwrap();
    assert_eq!(saved.title, "My Grain");
    assert_eq!(saved.added_by, "alice");
    assert_eq!(store.len(), 1);
}

#[test]
fn remove_of_missing_token_still_broadcasts() {
    let mut store = empty_store();
    store.new_subscribed_websocket(true);
    let out = store.remove("AQI=");
    assert_eq!(out.len(), 1);
    assert_eq!(payload_text(&out[0].frame), "{\"remove\":{\"token\":\"AQI=\"}}");
    assert_eq!(store.len(), 0);
}

#[test]
fn insert_then_subscribe_replays_one_insert() {
    let mut store = empty_store();
    store.insert("AQI=".to_string(), data("t", 5, "me"));
    store.insert("AQI=".to_string(), data("t2", 6, "me"));
    store.insert("Bw==".to_string(), data("u", 7, "you"));
    let sub = store.new_subscribed_websocket(true);
    let texts: Vec<String> = sub.replay.iter().map(|f| payload_text(f)).collect();
    assert_eq!(texts.len(), 4);
    assert_eq!(texts[0], "{\"canWrite\":true}");
    assert_eq!(texts[1], "{\"description\":\"this is a description\"}");
    let inserts_for_token = texts.iter().filter(|t| t.contains("\"token\":\"AQI=\"")).count();
    assert_eq!(inserts_for_token, 1);
    assert!(texts.iter().any(|t| t.contains("\"title\":\"t2\"")));
    assert!(!texts.iter().any(|t| t.contains("\"title\":\"t\",")));
}

#[test]
fn broadcast_reaches_others_when_one_subscriber_is_gone() {
    let mut store = empty_store();
    for _ in 0..4 {
        store.new_subscribed_websocket(false);
    }
    let out = store.update_description("new".to_string());
    assert_eq!(out.len(), 4);
    let failed = 2u64;
    let delivered: Vec<u64> = out.iter().filter(|o| o.subscriber != failed).map(|o| o.subscriber).collect();
    assert_eq!(delivered, vec![0, 1, 3]);
    for o in &out {
        assert_eq!(o.frame, encode_websocket_message("{\"description\":\"new\"}"));
    }
    assert_eq!(store.description(), "new");
}

#[test]
fn unsubscribed_connection_gets_nothing_and_ids_are_not_reused() {
    let mut store = empty_store();
    let a = store.new_subscribed_websocket(false);
    let b = store.new_subscribed_websocket(false);
    store.unsubscribe(a.id);
    store.unsubscribe(a.id);
    assert_eq!(store.subscribers(), vec![b.id]);
    let c = store.new_subscribed_websocket(false);
    assert_eq!(c.id, 2);
    let out = store.remove("x");
    assert!(out.iter().all(|o| o.subscriber != a.id));
    assert_eq!(out.len(), 2);
}

#[test]
fn reopening_from_files_gives_the_same_views() {
    let mut store = empty_store();
    store.insert("a".to_string(), data("A", 1, "x"));
    store.insert("b".to_string(), data("B", 2, "y"));
    store.remove("a");
    store.insert("c".to_string(), data("C", 3, "z"));
    let listing = vec![("c".to_string(), data("C", 3, "z")), ("b".to_string(), data("B", 2, "y"))];
    let reopened = SavedUiViewSet::new(listing, "d".to_string());
    assert_eq!(reopened.len(), store.len());
    for t in ["a", "b", "c"] {
        assert_eq!(reopened.get(t).map(|d| d.title), store.get(t).map(|d| d.title));
    }
}

#[test]
fn canonical_paths() {
    assert!(!check_canonical("a/../b"));
    assert!(!check_canonical("./x"));
    assert!(!check_canonical("a//b"));
    assert!(check_canonical("a/b/c"));
    assert!(check_canonical(""));
    assert!(check_canonical("a/"));
    assert!(check_canonical("/a"));
    assert!(!check_canonical(".."));
    assert!(check_canonical("..."));
    let s = WebSession::new(&[true], &[0xab, 0x01]);
    assert_eq!(s.require_canonical_path("a//b"), Err(SessionError::NonCanonicalPath));
    assert_eq!(s.require_canonical_path("a/b/c"), Ok(()));
}

#[test]
fn session_identity_and_permission() {
    let s = WebSession::new(&[true, false], &[0xab, 0x01, 0xff]);
    assert!(s.can_write);
    assert_eq!(s.identity_id, "ab01ff");
    assert!(!WebSession::new(&[], &[]).can_write);
    assert!(!WebSession::new(&[false], &[]).can_write);
}

#[test]
fn content_types_by_extension() {
    let s = WebSession::new(&[], &[]);
    assert_eq!(s.infer_content_type("index.html"), "text/html; charset=UTF-8");
    assert_eq!(s.infer_content_type("a.js"), "text/javascript; charset=UTF-8");
    assert_eq!(s.infer_content_type("a.css"), "text/css; charset=UTF-8");
    assert_eq!(s.infer_content_type("a.png"), "image/png");
    assert_eq!(s.infer_content_type("a.gif"), "image/gif");
    assert_eq!(s.infer_content_type("a.jpeg"), "image/jpeg");
    assert_eq!(s.infer_content_type("a.jpg"), "image/jpeg");
    assert_eq!(s.infer_content_type("a.svg"), "image/svg+xml; charset=UTF-8");
    assert_eq!(s.infer_content_type("a.txt"), "text/plain; charset=UTF-8");
    assert_eq!(s.infer_content_type("a"), "application/octet-stream");
}

#[test]
fn get_routes() {
    let s = WebSession::new(&[], &[]);
    assert!(matches!(s.get(""), Ok(GetRoute::MainPage)));
    match s.get("script.js") {
        Ok(GetRoute::File { filename, content_type, encoding }) => {
            assert_eq!(filename, "/script.js.gz");
            assert_eq!(content_type, "text/javascript; charset=UTF-8");
            assert_eq!(encoding.as_deref(), Some("gzip"));
        }
        _ => panic!("script.js"),
    }
    assert!(matches!(s.get("var/"), Ok(GetRoute::Listing { directory }) if directory == "var/"));
    assert!(matches!(s.get("var/x"), Ok(GetRoute::File { filename, .. }) if filename == "var/x"));
    assert!(matches!(s.get("docs/"), Ok(GetRoute::File { filename, .. }) if filename == "client/docs/index.html"));
    match s.get("img/logo.png") {
        Ok(GetRoute::Static { filename, redirect, content_type }) => {
            assert_eq!(filename, "client/img/logo.png");
            assert_eq!(redirect, "img/logo.png/");
            assert_eq!(content_type, "image/png");
        }
        _ => panic!("static"),
    }
    assert!(matches!(s.get("a/../b"), Err(SessionError::NonCanonicalPath)));
}

#[test]
fn put_and_delete_routes() {
    let writer = WebSession::new(&[true], &[]);
    let reader = WebSession::new(&[false], &[]);
    assert_eq!(writer.put("description"), Ok(PutRoute::UpdateDescription));
    assert_eq!(writer.put("other"), Ok(PutRoute::Ignored));
    assert_eq!(reader.put("description"), Ok(PutRoute::Forbidden));
    assert_eq!(writer.put("./x"), Err(SessionError::NonCanonicalPath));
    assert!(matches!(writer.delete("sturdyref/AQI="), Ok(DeleteRoute::Remove(t)) if t == "AQI="));
    assert!(matches!(reader.delete("sturdyref/AQI="), Ok(DeleteRoute::Forbidden)));
    assert!(matches!(writer.delete("other/AQI="), Err(SessionError::DeleteOutsideSturdyrefs)));
    assert!(matches!(writer.delete("sturdyref/../x"), Err(SessionError::NonCanonicalPath)));
}

#[test]
fn post_routes() {
    let s = WebSession::new(&[true], &[]);
    match s.post("token/abc", b"AQI=") {
        Ok(PostRoute::Claim { token, descriptor }) => {
            assert_eq!(token, "abc");
            assert_eq!(descriptor, vec![1, 2]);
        }
        _ => panic!("claim"),
    }
    assert!(matches!(s.post("other", b"AQI="), Ok(PostRoute::NotFound)));
    assert!(matches!(s.post("token/abc", b"!!"), Err(SessionError::BadBase64)));
    assert!(matches!(s.post("token//abc", b"AQI="), Err(SessionError::NonCanonicalPath)));
}

#[test]
fn description_must_be_utf8() {
    assert_eq!(description_text("héllo".as_bytes()), Ok("héllo".to_string()));
    assert_eq!(description_text(&[0xff, 0xfe]), Err(SessionError::InvalidUtf8));
}

#[test]
fn claim_chain_runs_to_store() {
    let mut c = ClaimChain::new("My Grain".to_string(), "ab01".to_string());
    assert!(matches!(c.advance(ClaimEvent::Claimed), ClaimAction::RequestViewInfo));
    assert!(matches!(c.advance(ClaimEvent::ViewInfo), ClaimAction::RequestIconUrl));
    let e = ClaimEvent::IconResolved { protocol: IconProtocol::Https, host_path: "example.com/i.png".to_string() };
    assert!(matches!(c.advance(e), ClaimAction::RequestSave));
    assert_eq!(c.icon_url.as_deref(), Some("https://example.com/i.png"));
    match c.advance(ClaimEvent::Saved { token: vec![1, 2] }) {
        ClaimAction::Store { token, title, added_by } => {
            assert_eq!(token, "AQI=");
            assert_eq!(title, "My Grain");
            assert_eq!(added_by, "ab01");
        }
        _ => panic!("store"),
    }
    assert_eq!(c.step, ClaimStep::Done);
    assert_eq!(SAVE_LABEL, "[save label chosen by collections app]");
}

#[test]
fn claim_chain_fails_fast() {
    let mut c = ClaimChain::new("t".to_string(), "me".to_string());
    assert!(matches!(c.advance(ClaimEvent::Claimed), ClaimAction::RequestViewInfo));
    match c.advance(ClaimEvent::CallFailed { description: "boom".to_string() }) {
        ClaimAction::Fail { description } => assert_eq!(description, "error: boom"),
        _ => panic!("fail"),
    }
    assert_eq!(c.step, ClaimStep::Failed);
    let mut d = ClaimChain::new("t".to_string(), "me".to_string());
    assert!(matches!(d.advance(ClaimEvent::ViewInfo), ClaimAction::Fail { .. }));
    assert_eq!(d.step, ClaimStep::Failed);
}

#[test]
fn icon_url_for_http() {
    assert_eq!(icon_url(IconProtocol::Http, "h/p"), "http://h/p");
}
