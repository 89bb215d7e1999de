use devtools_relay::cdp_bridge::{
    command_from_json, convert_console_to_cdp, convert_network_response_to_cdp, parse_date_ms,
    translate_command,
};
use devtools_relay::config::ServerConfig;
use devtools_relay::dispatch::{classify_upgrade_path, Route};
use devtools_relay::json::Json;
use devtools_relay::json_parse::parse_json;
use devtools_relay::lifecycle::{AwaitOutcome, ServerHandle, ShutdownStatus};
use devtools_relay::logging::{LogConfig, LogType};
use devtools_relay::normalize::{normalize_reactotron_json_value, normalize_reactotron_string};
use devtools_relay::react_native::{ConnectionInfo, ReactNativeInspectorConnectionManager,
    ReduxStoreInstance};
use devtools_relay::socket_server::{process_client_message, SocketServer};

fn obj(fields: Vec<(&str, Json)>) -> Json {
    Json::Obj(fields.into_iter().map(|(k, v)| (k.to_string(), v)).collect())
}

fn s(text: &str) -> Json {
    Json::Str(text.to_string())
}

#[test]
fn test_default_config() {
    let config = ServerConfig::default();
    assert_eq!(config.port, 8080);
    assert_eq!(config.host, "0.0.0.0");
    assert!(!config.use_ssl);
    assert!(config.ssl_cert_path.is_none());
    assert!(config.ssl_key_path.is_none());
    assert!(!config.log_enabled);
    assert!(config.log_methods.is_none());
    assert!(config.log_file.is_none());
}

#[test]
fn test_process_normal_message() {
    let message = r#"{"method":"Test.method","params":{}}"#;
    let result = process_client_message(message);
    assert_eq!(result, message);
}

#[test]
fn test_process_invalid_json() {
    let message = "invalid json";
    let result = process_client_message(message);
    assert_eq!(result, message);
}

#[test]
fn test_process_message_without_method() {
    let message = r#"{"params":{}}"#;
    let result = process_client_message(message);
    assert_eq!(result, message);
}

#[test]
fn test_process_message_with_empty_params() {
    let message = r#"{"method":"Test.method","params":null}"#;
    let result = process_client_message(message);
    assert_eq!(result, message);
}

#[test]
fn test_socket_server_creation() {
    let _socket_server = SocketServer::new(false);
}

#[test]
fn test_empty_clients_list_initially() {
    let socket_server = SocketServer::new(false);
    let clients = socket_server.get_all_clients();
    assert_eq!(clients.len(), 0);
}

#[test]
fn test_empty_inspectors_list_initially() {
    let socket_server = SocketServer::new(false);
    let inspectors = socket_server.get_all_inspectors();
    assert_eq!(inspectors.len(), 0);
}

#[test]
fn test_get_client_by_id_when_not_exists() {
    let socket_server = SocketServer::new(false);
    let client = socket_server.get_client("test-client-1");
    assert!(client.is_none());
}

#[test]
fn test_get_all_clients_returns_array() {
    let socket_server = SocketServer::new(false);
    let clients = socket_server.get_all_clients();
    assert!(clients.is_empty());
}

#[test]
fn test_get_all_inspectors_returns_array() {
    let socket_server = SocketServer::new(false);
    let inspectors = socket_server.get_all_inspectors();
    assert!(inspectors.is_empty());
}

#[test]
fn test_get_client_with_empty_string() {
    let socket_server = SocketServer::new(false);
    let client = socket_server.get_client("");
    assert!(client.is_none());
}

#[test]
fn test_get_client_with_special_characters() {
    let socket_server = SocketServer::new(false);
    let client = socket_server.get_client("test/client-id");
    assert!(client.is_none());
}

#[test]
fn test_get_client_information() {
    let socket_server = SocketServer::new(false);
    let client = socket_server.get_client("test-client");
    assert!(client.is_none());
}

/// A web client's frame reaches its bound frontend verbatim.
#[test]
fn web_client_relay_delivers_verbatim() {
    let mut server = SocketServer::new(false);
    server.register_client(
        "c1".to_string(),
        Some("http://x".to_string()),
        Some("T".to_string()),
        None,
        None,
        None,
    );
    server.attach_devtools("d1".to_string(), Some("c1".to_string()));
    let frame = r#"{"method":"Runtime.consoleAPICalled","params":{"type":"log","args":[{"type":"string","value":"hi"}]}}"#;
    server.handle_client_frame("c1", frame);
    let outbox = server.devtools_outbox("d1").expect("frontend missing");
    assert_eq!(outbox.len(), 1);
    assert_eq!(outbox[0], frame);
}

/// A frame for another client's frontend is not delivered.
#[test]
fn fanout_skips_unbound_frontends() {
    let mut server = SocketServer::new(false);
    server.register_client("c1".to_string(), None, None, None, None, None);
    server.register_client("c2".to_string(), None, None, None, None, None);
    server.attach_devtools("d1".to_string(), Some("c1".to_string()));
    server.attach_devtools("d2".to_string(), Some("c2".to_string()));
    server.handle_client_frame("c1", r#"{"method":"A.b","params":{}}"#);
    assert_eq!(server.devtools_outbox("d1").unwrap().len(), 1);
    assert_eq!(server.devtools_outbox("d2").unwrap().len(), 0);
}

/// Two frames arrive at the frontend in the order the client sent them.
#[test]
fn frames_keep_their_order() {
    let mut server = SocketServer::new(false);
    server.register_client("c1".to_string(), None, None, None, None, None);
    server.attach_devtools("d1".to_string(), Some("c1".to_string()));
    server.handle_client_frame("c1", r#"{"method":"First","params":{}}"#);
    server.handle_client_frame("c1", r#"{"method":"Second","params":{}}"#);
    let outbox = server.devtools_outbox("d1").unwrap();
    assert_eq!(outbox.len(), 2);
    assert!(outbox[0].contains("First"));
    assert!(outbox[1].contains("Second"));
}

/// Compressed parameters are decompressed and merged back into the envelope.
#[test]
fn compressed_params_are_made_transparent() {
    let inner = r#"{"method":"X","params":{"k":1}}"#;
    let mut encoder = flate2::write::GzEncoder::new(Vec::new(), flate2::Compression::default());
    std::io::Write::write_all(&mut encoder, inner.as_bytes()).unwrap();
    let compressed = encoder.finish().unwrap();
    let data = Json::Arr(compressed.into_iter().map(|b| Json::Int(b as i64)).collect());
    let frame = obj(vec![(
        "params",
        obj(vec![("compressed", Json::Bool(true)), ("data", data)]),
    )]);
    let text = devtools_relay::json::to_json_string(&frame);
    let result = process_client_message(text.as_str());
    assert_eq!(result, r#"{"method":"X","params":{"k":1}}"#);
}

/// An inline response body is cached and `Network.getResponseBody` is
/// answered locally, without the frame reaching the client.
#[test]
fn response_body_cache_answers_locally() {
    let mut server = SocketServer::new(false);
    server.register_client("c1".to_string(), None, None, None, None, None);
    server.attach_devtools("d1".to_string(), Some("c1".to_string()));
    let received = r#"{"method":"Network.responseReceived","params":{"requestId":"R1","response":{"body":"BODY"}}}"#;
    server.handle_client_frame("c1", received);
    let before = server.client_outbox("c1").unwrap().len();
    server.handle_devtools_frame("d1", r#"{"id":7,"method":"Network.getResponseBody","params":{"requestId":"R1"}}"#);
    let outbox = server.devtools_outbox("d1").unwrap();
    assert_eq!(outbox.len(), 2);
    assert_eq!(outbox[1], r#"{"id":7,"result":{"body":"BODY","base64Encoded":false}}"#);
    assert_eq!(server.client_outbox("c1").unwrap().len(), before);
}

/// An unknown request id is answered with the empty body.
#[test]
fn missing_body_is_answered_empty() {
    let mut server = SocketServer::new(false);
    server.attach_devtools("d1".to_string(), None);
    server.handle_devtools_frame("d1", r#"{"id":3,"method":"Network.getResponseBody","params":{"requestId":"nope"}}"#);
    let outbox = server.devtools_outbox("d1").unwrap();
    assert_eq!(outbox.len(), 1);
    assert_eq!(outbox[0], r#"{"id":3,"result":{"body":"","base64Encoded":false}}"#);
}

/// A console.warn command becomes the warning console event of its date.
#[test]
fn reactotron_console_warn_translates() {
    let frame = obj(vec![
        ("type", s("console.warn")),
        ("payload", obj(vec![("message", s("oops"))])),
        ("date", s("1735689600000")),
    ]);
    let parsed = parse_json(devtools_relay::json::to_json_string(&frame).as_str()).unwrap();
    let cmd = command_from_json(&parsed).unwrap();
    let event = convert_console_to_cdp(&cmd, "warning", 0).unwrap();
    let text = devtools_relay::json::to_json_string(&event);
    assert_eq!(
        text,
        r#"{"method":"Runtime.consoleAPICalled","params":{"type":"warning","args":[{"type":"string","value":"oops"}],"executionContextId":1,"timestamp":1735689600000,"stackTrace":{"callFrames":[]}}}"#
    );
}

/// An api.response command becomes the request, response and
/// loading-finished triple, with its timestamps a millisecond apart.
#[test]
fn reactotron_api_response_triple() {
    let frame = obj(vec![
        ("type", s("api.response")),
        ("date", s("1735689600000")),
        (
            "payload",
            obj(vec![
                (
                    "request",
                    obj(vec![("url", s("https://e.x/v")), ("method", s("GET"))]),
                ),
                (
                    "response",
                    obj(vec![
                        ("status", Json::Int(200)),
                        ("statusText", s("OK")),
                        ("headers", obj(vec![("Content-Type", s("application/json"))])),
                        ("body", s("{\"ok\":true}")),
                    ]),
                ),
            ]),
        ),
    ]);
    let parsed = parse_json(devtools_relay::json::to_json_string(&frame).as_str()).unwrap();
    let cmd = command_from_json(&parsed).unwrap();
    let events = convert_network_response_to_cdp(&cmd, 42).unwrap();
    assert_eq!(events.len(), 3);
    let texts: Vec<String> = events.iter().map(devtools_relay::json::to_json_string).collect();
    assert!(texts[0].contains("\"method\":\"Network.requestWillBeSent\""));
    assert!(texts[0].contains("\"timestamp\":1735689600.0"));
    assert!(texts[1].contains("\"method\":\"Network.responseReceived\""));
    assert!(texts[1].contains("\"encodedDataLength\":11"));
    assert!(texts[2].contains("\"method\":\"Network.loadingFinished\""));
    assert!(texts[2].contains("\"timestamp\":1735689600.001"));
    assert!(texts[2].contains("\"encodedDataLength\":11"));
    assert!(texts[0].contains("\"requestId\":\"reactotron-42\""));
}

/// An unrecognized command translates to nothing; a recognized one to at
/// least one event.
#[test]
fn translator_recognizes_its_table() {
    let unknown = obj(vec![("type", s("state.values.change")), ("payload", obj(vec![]))]);
    let parsed = parse_json(devtools_relay::json::to_json_string(&unknown).as_str()).unwrap();
    let cmd = command_from_json(&parsed).unwrap();
    assert_eq!(translate_command(&cmd, 1).len(), 0);
    let known = obj(vec![("type", s("console.log")), ("payload", obj(vec![("message", s("x"))]))]);
    let parsed = parse_json(devtools_relay::json::to_json_string(&known).as_str()).unwrap();
    let cmd = command_from_json(&parsed).unwrap();
    let events = translate_command(&cmd, 1);
    assert_eq!(events.len(), 1);
    let text = devtools_relay::json::to_json_string(&events[0]);
    assert!(text.contains("Runtime.consoleAPICalled"));
}

/// The sentinel strings round-trip through serialization into a numeric NaN
/// and a JSON null inside the resulting envelope.
#[test]
fn sentinel_round_trip() {
    let value = obj(vec![("nan", s("~~~ NaN ~~~")), ("nil", s("~~~ null ~~~"))]);
    let text = devtools_relay::json::to_json_string(&value);
    assert_eq!(text, r#"{"nan":"~~~ NaN ~~~","nil":"~~~ null ~~~"}"#);
    let normalized_value = normalize_reactotron_json_value(Json::Str(text));
    match normalized_value {
        Json::Obj(fields) => {
            assert!(matches!(&fields[0].1, Json::Num(n) if n == "NaN"));
            assert!(matches!(&fields[1].1, Json::Null));
        },
        _ => panic!("expected an object"),
    }
    assert_eq!(
        devtools_relay::json::to_json_string(&normalize_reactotron_json_value(value)),
        r#"{"nan":NaN,"nil":null}"#
    );
    assert_eq!(normalize_reactotron_string("~~~ NaN ~~~"), "NaN");
    assert_eq!(normalize_reactotron_string("~~~ null ~~~"), "null");
    assert_eq!(
        normalize_reactotron_string("a ~~~ null ~~~ b ~~~ true ~~~"),
        "a null b true"
    );
}

#[test]
fn normalize_marker_names() {
    assert_eq!(normalize_reactotron_string("~~~ zero ~~~"), "0");
    assert_eq!(normalize_reactotron_string("~~~ empty string ~~~"), "\"\"");
    assert_eq!(normalize_reactotron_string("~~~ save() ~~~"), "\"fn:save\"");
    assert_eq!(normalize_reactotron_string("~~~ whatever ~~~"), "\"whatever\"");
    assert_eq!(normalize_reactotron_string("plain"), "plain");
}

/// A reconnecting inspector keeps its entry, its id and its Redux snapshots.
#[test]
fn inspector_reconnect_preserves_redux() {
    let mut manager = ReactNativeInspectorConnectionManager::new();
    let info = ConnectionInfo {
        id: String::new(),
        device_name: Some("phone".to_string()),
        app_name: Some("a1".to_string()),
        device_id: Some("d1".to_string()),
        client_id: None,
    };
    let id1 = manager.create_connection(info, 1, 1000);
    manager.store_redux_instance(
        id1.as_str(),
        ReduxStoreInstance {
            instance_id: "s1".to_string(),
            name: "root".to_string(),
            payload: "{}".to_string(),
            timestamp: 1,
        },
    );
    let info2 = ConnectionInfo {
        id: String::new(),
        device_name: Some("phone".to_string()),
        app_name: Some("a1".to_string()),
        device_id: Some("d1".to_string()),
        client_id: None,
    };
    let id2 = manager.create_connection(info2, 2, 2000);
    assert_eq!(id1, id2);
    let conns = manager.get_all_connections();
    assert_eq!(conns.len(), 1);
    let stores = manager.get_redux_stores(id1.as_str());
    assert_eq!(stores.len(), 1);
    assert_eq!(stores[0].name, "root");
    assert_eq!(stores[0].payload, "{}");
}

/// A frontend attaching to an inspector target receives the cached
/// INIT_INSTANCE and INIT pair.
#[test]
fn late_frontend_receives_redux_replay() {
    let mut server = SocketServer::new(false);
    let info = ConnectionInfo {
        id: String::new(),
        device_name: None,
        app_name: Some("a1".to_string()),
        device_id: Some("d1".to_string()),
        client_id: None,
    };
    let iid = server.react_native_inspector_manager.create_connection(info, 1, 7);
    server.react_native_inspector_manager.associate_with_client(iid.as_str(), iid.as_str());
    server.react_native_inspector_manager.store_redux_instance(
        iid.as_str(),
        ReduxStoreInstance {
            instance_id: "s1".to_string(),
            name: "root".to_string(),
            payload: "{}".to_string(),
            timestamp: 1,
        },
    );
    server.attach_devtools("dt".to_string(), Some(iid.clone()));
    let outbox = server.devtools_outbox("dt").unwrap();
    assert_eq!(outbox.len(), 2);
    assert_eq!(
        outbox[0],
        r#"{"method":"Redux.message","params":{"type":"INIT_INSTANCE","instanceId":"s1","source":"@devtools-page"}}"#
    );
    assert_eq!(
        outbox[1],
        r#"{"method":"Redux.message","params":{"type":"INIT","instanceId":"s1","source":"@devtools-page","name":"root","payload":"{}","maxAge":50,"timestamp":1}}"#
    );
}

/// Starting twice leaves one server, under the second configuration, with
/// fresh state.
#[test]
fn restart_is_idempotent() {
    let mut handle = ServerHandle::new();
    assert!(!handle.is_running());
    let mut c1 = ServerConfig::default();
    c1.port = 1111;
    handle.start(c1, AwaitOutcome::FinishedOk);
    assert!(handle.is_running());
    let mut c2 = ServerConfig::default();
    c2.port = 2222;
    handle.start(c2, AwaitOutcome::FinishedOk);
    assert!(handle.is_running());
    assert_eq!(handle.running.as_ref().unwrap().port, 2222);
    let s = handle.socket_server.as_ref().unwrap();
    assert_eq!(s.get_all_clients().len(), 0);
    let status = handle.stop(AwaitOutcome::FinishedOk);
    assert_eq!(status, ShutdownStatus::Graceful);
    assert!(!handle.is_running());
    let status = handle.stop(AwaitOutcome::FinishedOk);
    assert_eq!(status, ShutdownStatus::NotRunning);
}

#[test]
fn upgrade_paths_are_classified() {
    assert!(matches!(classify_upgrade_path("", true), Route::Reactotron));
    assert!(matches!(classify_upgrade_path("/", true), Route::Reactotron));
    assert!(matches!(classify_upgrade_path("/", false), Route::Invalid));
    assert!(matches!(classify_upgrade_path("inspector/device", false), Route::ReactNativeInspector));
    assert!(matches!(classify_upgrade_path("/inspector/device", false), Route::ReactNativeInspector));
    match classify_upgrade_path("client/c1", false) {
        Route::WebClient(id) => assert_eq!(id, "c1"),
        _ => panic!("expected a client route"),
    }
    match classify_upgrade_path("devtools/d1", false) {
        Route::DevTools(id) => assert_eq!(id, "d1"),
        _ => panic!("expected a frontend route"),
    }
    assert!(matches!(classify_upgrade_path("bogus", false), Route::Invalid));
}

#[test]
fn log_policy_filters_methods() {
    let config = LogConfig::new(true, Some("A.b, C.d".to_string()), None);
    assert!(config.is_enabled());
    assert!(config.should_log_method(Some("A.b")));
    assert!(config.should_log_method(Some("C.d")));
    assert!(!config.should_log_method(Some("E.f")));
    assert!(!config.should_log_method(None));
    let open_config = LogConfig::new(true, None, None);
    assert!(open_config.should_log_method(None));
    let off = LogConfig::new(false, None, None);
    assert!(!off.should_log_method(Some("A.b")));
    assert_eq!(LogType::Reactotron.as_str(), "reactotron");
    assert_eq!(LogType::RnInspector.as_str(), "rn-inspector");
}

#[test]
fn date_heuristic_scales_units() {
    assert_eq!(parse_date_ms("1735689600000"), Some(1735689600000));
    assert_eq!(parse_date_ms("1735689600"), Some(1735689600000));
    assert_eq!(parse_date_ms("4102444800000000"), Some(4102444800000));
    assert_eq!(parse_date_ms("1735689600.5"), Some(1735689600500));
    assert_eq!(parse_date_ms("not a date"), None);
}

/// A client closing takes its frontends with it.
#[test]
fn client_close_removes_bound_frontends() {
    let mut server = SocketServer::new(false);
    server.register_client("c1".to_string(), None, None, None, None, None);
    server.attach_devtools("d1".to_string(), Some("c1".to_string()));
    server.attach_devtools("d2".to_string(), Some("other".to_string()));
    server.handle_client_close("c1");
    assert!(server.get_client("c1").is_none());
    assert!(server.devtools_outbox("d1").is_none());
    assert!(server.devtools_outbox("d2").is_some());
}
