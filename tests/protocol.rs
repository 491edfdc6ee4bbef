use alacritty_ipc::codec::{decode, encode, message_from_json, message_to_json, window_id_of_config, DecodeError, Message};
use alacritty_ipc::json::Json;
use alacritty_ipc::listener::{dispatch, handle_line, Dispatch, TakeoverEvent};

fn s(v: &str) -> String {
    v.to_string()
}

fn cwd_tmp() -> Json {
    Json::Object(vec![(s("cwd"), Json::Str(s("/tmp")))])
}

fn config_fields(window_id: Json) -> Vec<(String, Json)> {
    vec![
        (s("options"), Json::Array(vec![Json::Str(s("cursor.style=Beam"))])),
        (s("reset"), Json::Bool(false)),
        (s("window_id"), window_id),
    ]
}

#[test]
fn create_window_is_dispatched_once() {
    let line = "{\"CreateWindow\": {\"cwd\": \"/tmp\"}}\n";
    assert_eq!(decode(line), Ok(Message::CreateWindow(cwd_tmp())));
    assert_eq!(handle_line(line), Some(Dispatch::CreateWindow(cwd_tmp())));
}

#[test]
fn config_with_negative_window_is_dropped() {
    let line = "{\"Config\": {\"options\": [], \"reset\": false, \"window_id\": -1}}";
    let m = decode(line).unwrap();
    match &m {
        Message::ConfigUpdate(f) => assert_eq!(window_id_of_config(f), Some(Some(-1))),
        _ => panic!("not a configuration change"),
    }
    assert_eq!(dispatch(m), None);
    assert_eq!(handle_line(line), None);
}

#[test]
fn config_targets() {
    let all = "{\"Config\": {\"options\": [\"a=1\"], \"window_id\": null}}";
    match handle_line(all) {
        Some(Dispatch::Config { window, fields }) => {
            assert_eq!(window, None);
            assert_eq!(fields.len(), 2);
        },
        other => panic!("unexpected {:?}", other),
    }
    let absent = "{\"Config\": {\"options\": []}}";
    assert!(matches!(handle_line(absent), Some(Dispatch::Config { window: None, .. })));
    let one = "{\"Config\": {\"options\": [], \"window_id\": 94371841}}";
    assert!(matches!(handle_line(one), Some(Dispatch::Config { window: Some(94371841), .. })));
    let big = "{\"Config\": {\"window_id\": 18446744073709551616}}";
    assert_eq!(handle_line(big), None);
}

#[test]
fn config_window_must_be_integer_or_null() {
    assert_eq!(decode("{\"Config\": {\"window_id\": \"3\"}}"), Err(DecodeError::Malformed));
    assert_eq!(decode("{\"Config\": {\"window_id\": 1.5}}"), Err(DecodeError::Malformed));
    assert_eq!(decode("{\"Config\": []}"), Err(DecodeError::Malformed));
}

#[test]
fn takeover_with_image_path() {
    let line = "{\"Takeover\": {\"window_id\": 7, \"msg\": \"image:/tmp/cat.png\"}}";
    assert_eq!(
        decode(line),
        Ok(Message::OverlayRequest { window_id: 7, payload: s("image:/tmp/cat.png") })
    );
    assert_eq!(
        handle_line(line),
        Some(Dispatch::Takeover { window_id: 7, event: TakeoverEvent::Image(s("/tmp/cat.png")) })
    );
}

#[test]
fn takeover_rejections() {
    let relative = "{\"Takeover\": {\"window_id\": 7, \"msg\": \"image:cat.png\"}}";
    assert!(decode(relative).is_ok());
    assert_eq!(handle_line(relative), None);
    let other_kind = "{\"Takeover\": {\"window_id\": 7, \"msg\": \"video:/tmp/a\"}}";
    assert_eq!(handle_line(other_kind), None);
    let negative = "{\"Takeover\": {\"window_id\": -3, \"msg\": \"image:/tmp/a\"}}";
    assert_eq!(handle_line(negative), None);
    let no_window = "{\"Takeover\": {\"msg\": \"image:/tmp/a\"}}";
    assert_eq!(decode(no_window), Err(DecodeError::Malformed));
    let null_window = "{\"Takeover\": {\"window_id\": null, \"msg\": \"image:/tmp/a\"}}";
    assert_eq!(decode(null_window), Err(DecodeError::Malformed));
    let no_msg = "{\"Takeover\": {\"window_id\": 1}}";
    assert_eq!(decode(no_msg), Err(DecodeError::Malformed));
}

#[test]
fn takeover_event_from_request() {
    assert_eq!(TakeoverEvent::try_from_request("image:/a/b.png"), Some(TakeoverEvent::Image(s("/a/b.png"))));
    assert_eq!(TakeoverEvent::try_from_request("image:"), None);
    assert_eq!(TakeoverEvent::try_from_request("image:a"), None);
    assert_eq!(TakeoverEvent::try_from_request("imag:/a"), None);
}

#[test]
fn malformed_lines() {
    for line in ["", "\n", "{\"CreateWindow\": {\"cwd\"", "{\"Resize\": {}}", "[]", "42", "{}",
        "{\"CreateWindow\": {}, \"Config\": {}}"] {
        assert_eq!(decode(line), Err(DecodeError::Malformed), "line {:?}", line);
        assert_eq!(handle_line(line), None);
    }
}

#[test]
fn listener_goes_on_after_bad_lines() {
    let lines = ["", "{\"CreateWin", "{\"Nope\": 1}", "{\"CreateWindow\": {\"cwd\": \"/tmp\"}}"];
    let handed: Vec<Dispatch> = lines.iter().filter_map(|l| handle_line(l)).collect();
    assert_eq!(handed, vec![Dispatch::CreateWindow(cwd_tmp())]);
}

#[test]
fn documents_round_trip() {
    let messages = vec![
        Message::CreateWindow(cwd_tmp()),
        Message::ConfigUpdate(config_fields(Json::Null)),
        Message::ConfigUpdate(config_fields(Json::Number(s("-1")))),
        Message::OverlayRequest { window_id: i128::MIN, payload: s("image:/x") },
    ];
    for m in messages {
        let shown = format!("{:?}", m);
        let back = message_from_json(message_to_json(m));
        assert_eq!(format!("{:?}", back.unwrap()), shown);
    }
}

#[test]
fn lines_round_trip() {
    let messages = vec![
        Message::CreateWindow(cwd_tmp()),
        Message::CreateWindow(Json::Object(vec![])),
        Message::ConfigUpdate(config_fields(Json::Null)),
        Message::ConfigUpdate(config_fields(Json::Number(s("12")))),
        Message::OverlayRequest { window_id: 3, payload: s("image:/tmp/a \"b\"\n.png") },
    ];
    for m in messages {
        let shown = format!("{:?}", m);
        let line = encode(m).unwrap();
        assert!(!line.contains('\n'));
        assert_eq!(format!("{:?}", decode(&line).unwrap()), shown);
    }
}

#[test]
fn encoded_line_shape() {
    let line = encode(Message::CreateWindow(cwd_tmp())).unwrap();
    assert_eq!(line, "{\"CreateWindow\":{\"cwd\":\"/tmp\"}}");
    let line = encode(Message::OverlayRequest { window_id: -2, payload: s("p") }).unwrap();
    assert_eq!(line, "{\"Takeover\":{\"msg\":\"p\",\"window_id\":-2}}");
}

#[test]
fn unreadable_number_cannot_be_encoded() {
    assert_eq!(encode(Message::CreateWindow(Json::Number(s("one")))), None);
}

#[test]
fn parsed_numbers_keep_their_text() {
    let m = decode("{\"CreateWindow\": {\"a\": 1.5, \"c\": 10}}").unwrap();
    let line = encode(m).unwrap();
    assert_eq!(line, "{\"CreateWindow\":{\"a\":1.5,\"c\":10}}");
}
