use tetrad::protocol::JsonRpcId;
use tetrad::transport::{frame, parse_request, StringTransport};

fn create_message(body: &str) -> String {
    format!("{}\n", body)
}

#[test]
fn test_read_message() {
    let body = r#"{"jsonrpc":"2.0","id":1,"method":"initialize","params":{}}"#;
    let input = create_message(body);
    let mut transport = StringTransport::new(&input);
    let request = transport.read_message().unwrap();
    assert_eq!(request.method, "initialize");
    assert_eq!(request.id, Some(JsonRpcId::Number(1)));
}

#[test]
fn test_multiple_messages() {
    let messages = format!(
        "{}\n{}\n",
        r#"{"jsonrpc":"2.0","id":1,"method":"initialize","params":{}}"#,
        r#"{"jsonrpc":"2.0","id":2,"method":"tools/list"}"#
    );
    let mut transport = StringTransport::new(&messages);
    let request1 = transport.read_message().unwrap();
    assert_eq!(request1.method, "initialize");
    assert_eq!(request1.id, Some(JsonRpcId::Number(1)));
    let request2 = transport.read_message().unwrap();
    assert_eq!(request2.method, "tools/list");
    assert_eq!(request2.id, Some(JsonRpcId::Number(2)));
    assert!(transport.read_message().is_err());
}

#[test]
fn test_empty_input() {
    let mut transport = StringTransport::new("");
    assert!(transport.read_message().is_err());
}

#[test]
fn test_empty_line() {
    let mut transport = StringTransport::new("\n");
    assert!(transport.read_message().is_err());
}

#[test]
fn test_invalid_json() {
    let mut transport = StringTransport::new("not valid json\n");
    assert!(transport.read_message().is_err());
}

#[test]
fn test_notification_without_id() {
    let body = r#"{"jsonrpc":"2.0","method":"notifications/initialized"}"#;
    let input = create_message(body);
    let mut transport = StringTransport::new(&input);
    let request = transport.read_message().unwrap();
    assert_eq!(request.method, "notifications/initialized");
    assert!(request.id.is_none());
}

#[test]
fn string_ids_and_errors() {
    let r = parse_request(r#"{"jsonrpc":"2.0","id":"abc","method":"m"}"#).unwrap();
    assert_eq!(r.id, Some(JsonRpcId::String("abc".to_string())));
    assert_eq!(parse_request("{").unwrap_err().code, -32700);
    assert_eq!(parse_request(r#"{"id":1}"#).unwrap_err().code, -32600);
}

#[test]
fn test_output_format() {
    let mut transport = StringTransport::new("");
    transport.write_text(r#"{"jsonrpc":"2.0","id":1,"result":{"status":"ok"}}"#);
    let output = transport.get_output();
    assert!(output.ends_with('\n'));
    assert!(!output.contains("Content-Length"));
    assert_eq!(output.matches('\n').count(), 1);
    assert_eq!(frame("x"), "x\n");
}
