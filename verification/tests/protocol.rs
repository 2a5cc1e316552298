//! Protocol requests and responses.
use evento::value::Node;
use evento::context::VuContext;
use evento::dsl::{Step, TestPlan};
use evento::keymap::KeyMap;
use evento::protocol::{apply_extractions, split_char, CassandraExecutor, HttpExecutor, HttpMethod, KafkaExecutor, PostgresExecutor, ProtocolResponse};
use evento::api::json_string;

fn step(yaml_step: &str) -> Step {
    let yaml = format!("test: t\nscenario:\n{}", yaml_step);
    TestPlan::from_yaml_str(&yaml).unwrap().scenario.remove(0)
}

fn parsed(text: &str) -> serde_json::Value {
    serde_json::from_str(text).unwrap()
}

fn json_response(body: &str) -> ProtocolResponse {
    ProtocolResponse::from_http(200, 5, vec![("content-type".to_string(), "application/json".to_string())], body.as_bytes().to_vec())
}

#[test]
fn split_keeps_empty_pieces() {
    assert_eq!(split_char("a.b..c", '.'), vec!["a", "b", "", "c"]);
    assert_eq!(split_char("", '.'), vec![""]);
}

#[test]
fn from_http_records_text_and_json() {
    let r = ProtocolResponse::from_http(201, 7, vec![("x".to_string(), "1".to_string()), ("x".to_string(), "2".to_string())], b"{\"a\":1}".to_vec());
    assert_eq!(r.status_code, 201);
    assert_eq!(r.latency_ms, 7);
    assert_eq!(r.headers.get("x").map(|s| s.as_str()), Some("2"));
    assert_eq!(r.body_text.as_deref(), Some("{\"a\":1}"));
    assert!(r.body_json.is_some());
    let bin = ProtocolResponse::from_http(200, 0, vec![], vec![0xff, 0xfe]);
    assert!(bin.body_text.is_none());
    assert!(bin.body_json.is_none());
    assert_eq!(bin.body_bytes, Some(vec![0xff, 0xfe]));
    let text = ProtocolResponse::from_http(200, 0, vec![], b"hello".to_vec());
    assert_eq!(text.body_text.as_deref(), Some("hello"));
    assert!(text.body_json.is_none());
}

#[test]
fn extract_reads_headers_and_json_paths() {
    let r = json_response(r#"{"token":"abc","user":{"id":7,"tags":["x","y"]},"items":[{"id":"p1"},{"id":"p2"}],"ok":true}"#);
    assert_eq!(r.extract("header.content-type").as_deref(), Some("application/json"));
    assert_eq!(r.extract("header.missing"), None);
    assert_eq!(r.extract("json.token").as_deref(), Some("abc"));
    assert_eq!(r.extract("json.user.id").as_deref(), Some("7"));
    assert_eq!(r.extract("json.user.tags.1").as_deref(), Some("y"));
    assert_eq!(r.extract("json.items.0.id").as_deref(), Some("p1"));
    assert_eq!(r.extract("json.user.tags").as_deref(), Some(r#"["x","y"]"#));
    assert_eq!(r.extract("json.ok").as_deref(), Some("true"));
    assert_eq!(r.extract("json.items.9"), None);
    assert_eq!(r.extract("json.user.0"), None);
    assert_eq!(r.extract("json.nope"), None);
    assert_eq!(r.extract("body.token"), None);
    assert_eq!(r.extract("response.body.token").as_deref(), Some("abc"));
    assert_eq!(r.extract("response.body.user.id").as_deref(), Some("7"));
    assert_eq!(r.extract("response.body.items[1].id").as_deref(), Some("p2"));
    assert_eq!(r.extract("response.body.user.tags[0]").as_deref(), Some("x"));
    assert_eq!(r.extract("response.body.items[5].id"), None);
    let t = ProtocolResponse::from_http(200, 0, vec![], b"plain".to_vec());
    assert_eq!(t.extract("json.anything"), None);
}

#[test]
fn extractions_update_the_context() {
    let r = json_response(r#"{"token":"abc","id":5}"#);
    let mut ctx = VuContext::new("r".to_string(), 1);
    ctx.set("keep".to_string(), "old".to_string());
    ctx.set("id".to_string(), "before".to_string());
    let mut ex: KeyMap<String> = KeyMap::new();
    ex.insert("token".to_string(), "json.token".to_string());
    ex.insert("id".to_string(), "json.id".to_string());
    ex.insert("keep".to_string(), "json.missing".to_string());
    apply_extractions(&mut ctx, &r, &ex);
    assert_eq!(ctx.get("token").map(|s| s.as_str()), Some("abc"));
    assert_eq!(ctx.get("id").map(|s| s.as_str()), Some("5"));
    assert_eq!(ctx.get("keep").map(|s| s.as_str()), Some("old"));
}

#[test]
fn http_request_from_step() {
    let s = step("  - name: s\n    method: post\n    endpoint: /api/${$context.id}\n    headers:\n      Authorization: \"Bearer ${$context.tok}\"\n    body:\n      a: 1\n");
    let mut ctx = VuContext::new("r".to_string(), 0);
    ctx.set("id".to_string(), "9".to_string());
    ctx.set("tok".to_string(), "T".to_string());
    let req = HttpExecutor::request(&s, &ctx);
    assert_eq!(req.method, HttpMethod::Post);
    assert_eq!(req.url, "/api/9");
    assert_eq!(req.headers, vec![("Authorization".to_string(), "Bearer T".to_string())]);
    assert_eq!(req.body.as_deref(), Some("{\"a\":1}"));
    assert!(req.json_body);

    let d = HttpExecutor::request(&step("  - name: d\n    method: FETCH\n    body: \"raw ${$context.id}\"\n"), &ctx);
    assert_eq!(d.method, HttpMethod::Get);
    assert_eq!(d.url, "/");
    assert_eq!(d.body.as_deref(), Some("raw 9"));
    assert!(!d.json_body);

    let m = HttpExecutor::request(&step("  - name: m\n    method: Delete\n"), &ctx);
    assert_eq!(m.method, HttpMethod::Delete);
    assert!(m.body.is_none());
    assert_eq!(HttpExecutor::request(&step("  - name: p\n    method: patch\n"), &ctx).method, HttpMethod::Patch);
    assert_eq!(HttpExecutor::request(&step("  - name: p\n    method: put\n"), &ctx).method, HttpMethod::Put);
    assert_eq!(HttpExecutor::request(&step("  - name: p\n"), &ctx).method, HttpMethod::Get);
}

#[test]
fn database_targets_and_errors() {
    let ctx = VuContext::new("r".to_string(), 0);
    let ok = PostgresExecutor::target(&step("  - name: q\n    connection: postgres://db\n    endpoint: ignored\n    query: SELECT 1\n"), &ctx).unwrap();
    assert_eq!(ok.url, "postgres://db");
    assert_eq!(ok.query, "SELECT 1");
    let from_body = PostgresExecutor::target(&step("  - name: q\n    endpoint: pg://e\n    body: SELECT 2\n"), &ctx).unwrap();
    assert_eq!(from_body.url, "pg://e");
    assert_eq!(from_body.query, "SELECT 2");
    assert_eq!(
        PostgresExecutor::target(&step("  - name: q\n    query: SELECT 1\n"), &ctx).unwrap_err(),
        "Postgres protocol requires an endpoint or connection"
    );
    assert_eq!(
        PostgresExecutor::target(&step("  - name: q\n    connection: c\n    body: {a: 1}\n"), &ctx).unwrap_err(),
        "Postgres protocol requires a SQL query string in the 'query' or 'body' field"
    );
    assert_eq!(
        CassandraExecutor::target(&step("  - name: q\n    connection: c\n"), &ctx).unwrap_err(),
        "Cassandra protocol requires a CQL query string in the 'query' or 'body' field"
    );
    assert_eq!(
        CassandraExecutor::target(&step("  - name: q\n"), &ctx).unwrap_err(),
        "Cassandra protocol requires an endpoint or connection"
    );
}

#[test]
fn database_responses_as_json() {
    let rows = vec![
        vec![("status".to_string(), Some("created".to_string())), ("note".to_string(), None)],
        vec![("status".to_string(), Some("paid".to_string())), ("note".to_string(), Some("x".to_string()))],
    ];
    let r = PostgresExecutor::response(12, rows);
    assert_eq!(r.status_code, 200);
    assert_eq!(r.latency_ms, 12);
    assert_eq!(
        parsed(&json_string(r.body_json.as_ref().unwrap())),
        parsed(r#"{"row_count":2,"rows":[{"note":null,"status":"created"},{"note":"x","status":"paid"}]}"#)
    );
    assert_eq!(r.extract("json.rows.1.status").as_deref(), Some("paid"));
    let c = CassandraExecutor::response(3, None);
    assert_eq!(json_string(c.body_json.as_ref().unwrap()), r#"{"row_count":0}"#);
    assert_eq!(json_string(CassandraExecutor::response(3, Some(4)).body_json.as_ref().unwrap()), r#"{"row_count":4}"#);
}

#[test]
fn kafka_messages_and_errors() {
    let mut ctx = VuContext::new("r".to_string(), 0);
    ctx.set("t".to_string(), "orders".to_string());
    let m = KafkaExecutor::message(&step("  - name: k\n    endpoint: broker:9092\n    headers:\n      topic: ${$context.t}\n    body:\n      id: 1\n"), &ctx).unwrap();
    assert_eq!(m.brokers, "broker:9092");
    assert_eq!(m.topic, "orders");
    assert_eq!(m.payload, "{\"id\":1}");
    let s = KafkaExecutor::message(&step("  - name: k\n    connection: b\n    headers:\n      topic: x\n    body: hello\n"), &ctx).unwrap();
    assert_eq!(s.payload, "hello");
    let e = KafkaExecutor::message(&step("  - name: k\n    connection: b\n    headers:\n      topic: x\n"), &ctx).unwrap();
    assert_eq!(e.payload, "");
    assert_eq!(KafkaExecutor::message(&step("  - name: k\n"), &ctx).unwrap_err(), "Kafka protocol requires an endpoint (brokers)");
    assert_eq!(KafkaExecutor::message(&step("  - name: k\n    endpoint: b\n"), &ctx).unwrap_err(), "Kafka protocol requires a 'topic' header");
    let f = KafkaExecutor::message(&step("  - name: k\n    connection: b\n    topic: orders.new\n    headers:\n      topic: other\n    body: hi\n"), &ctx).unwrap();
    assert_eq!(f.topic, "orders.new");
    assert_eq!(f.payload, "hi");
    let r = KafkaExecutor::response(4);
    assert_eq!(r.body_text.as_deref(), Some("Message produced"));
    assert_eq!(r.status_code, 200);
}

#[test]
fn empty_tags_are_found() {
    let ok = Node::Tagged("!Thing".to_string(), Box::new(Node::Null));
    assert!(ok.tags_are_named());
    let bad = Node::Sequence(vec![Node::Null, Node::Tagged(String::new(), Box::new(Node::Null))]);
    assert!(!bad.tags_are_named());
    let nested = Node::Mapping(vec![(Node::String("k".to_string()), bad)]);
    assert!(!nested.tags_are_named());
    assert!(Node::Mapping(vec![(Node::String("k".to_string()), ok)]).tags_are_named());
}
