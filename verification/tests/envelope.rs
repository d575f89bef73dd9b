use rpc_core::json::Json;
use rpc_core::response::{Id, Response, ResponseResult, RpcResponse};
use rpc_core::RpcError;

fn text(bytes: Vec<u8>) -> String {
    String::from_utf8(bytes).unwrap()
}

fn obj(entries: Vec<(&str, Json)>) -> Json {
    Json::Obj(entries.into_iter().map(|(k, v)| (k.to_string(), v)).collect())
}

#[test]
fn single_success_exact_text() {
    let r = RpcResponse::new(Id::Number(7), ResponseResult::Success(Json::Int(42)));
    assert_eq!(text(r.to_bytes()), r#"{"jsonrpc":"2.0","id":7,"result":42}"#);
}

#[test]
fn invalid_request_exact_text() {
    let r = RpcResponse::invalid_request(Id::Null);
    assert_eq!(
        text(r.to_bytes()),
        r#"{"jsonrpc":"2.0","id":null,"error":{"code":-32600,"message":"Invalid Request"}}"#
    );
}

#[test]
fn batch_of_two_preserves_order() {
    let a = RpcResponse::new(Id::Number(1), ResponseResult::Success(Json::Bool(true)));
    let b = RpcResponse::new(Id::Number(2), ResponseResult::Success(Json::Str("ok".to_string())));
    let batch = Response::Batch(vec![a, b]);
    assert_eq!(
        text(batch.to_bytes()),
        r#"[{"jsonrpc":"2.0","id":1,"result":true},{"jsonrpc":"2.0","id":2,"result":"ok"}]"#
    );
}

#[test]
fn single_is_object_batch_is_array() {
    let single = Response::Single(RpcResponse::new(Id::Number(1), ResponseResult::Success(Json::Null)));
    let bytes = single.to_bytes();
    assert_eq!(bytes[0], b'{');
    assert_eq!(*bytes.last().unwrap(), b'}');

    let empty = Response::Batch(vec![]);
    assert_eq!(text(empty.to_bytes()), "[]");

    let two = Response::Batch(vec![
        RpcResponse::new(Id::Number(1), ResponseResult::Success(Json::Null)),
        RpcResponse::new(Id::Number(2), ResponseResult::Success(Json::Null)),
    ]);
    let bytes = two.to_bytes();
    assert_eq!(bytes[0], b'[');
    assert_eq!(*bytes.last().unwrap(), b']');

    let one = Response::Batch(vec![RpcResponse::new(
        Id::Number(1),
        ResponseResult::Success(Json::Null),
    )]);
    let bytes = one.to_bytes();
    assert_eq!(bytes[0], b'[');
}

#[test]
fn error_without_data_has_no_data_key() {
    let e = RpcError::new(5, "boom".to_string(), None);
    match e.to_json() {
        Json::Obj(fields) => {
            let keys: Vec<&str> = fields.iter().map(|(k, _)| k.as_str()).collect();
            assert_eq!(keys, vec!["code", "message"]);
        }
        other => panic!("expected an object, got {:?}", other),
    }
}

#[test]
fn error_with_data_round_trips_nested_structure() {
    let data = Json::Obj(vec![
        ("xs".to_string(), Json::Arr(vec![Json::Int(1), Json::Null, Json::Str("s".to_string())])),
        ("flag".to_string(), Json::Bool(false)),
    ]);
    let e = RpcError::new(-7, "with data".to_string(), Some(data));
    let decoded = RpcError::from_json(&e.to_json()).unwrap();
    assert_eq!(decoded, e);
}

#[test]
fn outcome_appears_as_exactly_one_key() {
    let ok = RpcResponse::new(Id::Number(1), ResponseResult::Success(Json::Int(0)));
    let s = text(ok.to_bytes());
    assert!(s.contains(r#""result""#));
    assert!(!s.contains(r#""error""#));

    let bad = RpcResponse::new(Id::Number(1), ResponseResult::error(RpcError::new(1, "x".to_string(), None)));
    let s = text(bad.to_bytes());
    assert!(s.contains(r#""error""#));
    assert!(!s.contains(r#""result""#));
}

#[test]
fn decoding_both_result_and_error_fails() {
    let doc = obj(vec![
        ("jsonrpc", Json::Str("2.0".to_string())),
        ("id", Json::Int(1)),
        ("result", Json::Int(5)),
        (
            "error",
            obj(vec![("code", Json::Int(1)), ("message", Json::Str("x".to_string()))]),
        ),
    ]);
    assert!(RpcResponse::from_json(&doc).is_err());
}

#[test]
fn decoding_neither_result_nor_error_fails() {
    let doc = obj(vec![
        ("jsonrpc", Json::Str("2.0".to_string())),
        ("id", Json::Int(1)),
    ]);
    assert!(RpcResponse::from_json(&doc).is_err());
}

#[test]
fn envelope_round_trip_with_each_id_kind() {
    for id in [Id::Number(7), Id::Str("abc".to_string()), Id::Null] {
        let r = RpcResponse::new(id, ResponseResult::Success(Json::Int(1)));
        let decoded = RpcResponse::from_json(&r.to_json()).unwrap();
        assert_eq!(decoded, r);
    }
    let e = RpcResponse::from_rpc_error(RpcError::new(3, "m".to_string(), None), Id::Number(9));
    let decoded = RpcResponse::from_json(&e.to_json()).unwrap();
    assert_eq!(decoded, e);
}

#[test]
fn null_id_and_omitted_id_stay_distinct() {
    let with_null = obj(vec![
        ("jsonrpc", Json::Str("2.0".to_string())),
        ("id", Json::Null),
        ("result", Json::Int(1)),
    ]);
    let without_id = obj(vec![
        ("jsonrpc", Json::Str("2.0".to_string())),
        ("result", Json::Int(1)),
    ]);
    let a = RpcResponse::from_json(&with_null).unwrap();
    let b = RpcResponse::from_json(&without_id).unwrap();
    assert_ne!(a, b);
    let sa = text(a.to_bytes());
    let sb = text(b.to_bytes());
    assert!(sa.contains(r#""id":null"#));
    assert!(!sb.contains(r#""id""#));
    assert_eq!(RpcResponse::from_json(&a.to_json()).unwrap(), a);
    assert_eq!(RpcResponse::from_json(&b.to_json()).unwrap(), b);
}

#[test]
fn decoding_rejects_malformed_documents() {
    let base = |extra: Vec<(&str, Json)>| {
        let mut v = vec![
            ("jsonrpc", Json::Str("2.0".to_string())),
            ("id", Json::Int(1)),
            ("result", Json::Int(5)),
        ];
        v.extend(extra);
        obj(v)
    };
    // unknown top-level key
    assert!(RpcResponse::from_json(&base(vec![("extra", Json::Null)])).is_err());
    // duplicate key
    assert!(RpcResponse::from_json(&base(vec![("id", Json::Int(2))])).is_err());
    // wrong version
    let doc = obj(vec![
        ("jsonrpc", Json::Str("1.0".to_string())),
        ("result", Json::Int(5)),
    ]);
    assert!(RpcResponse::from_json(&doc).is_err());
    // missing version
    let doc = obj(vec![("result", Json::Int(5))]);
    assert!(RpcResponse::from_json(&doc).is_err());
    // malformed identifier
    let doc = obj(vec![
        ("jsonrpc", Json::Str("2.0".to_string())),
        ("id", Json::Bool(true)),
        ("result", Json::Int(5)),
    ]);
    assert!(RpcResponse::from_json(&doc).is_err());
    // not an object at all
    assert!(RpcResponse::from_json(&Json::Arr(vec![])).is_err());
}

#[test]
fn decoding_rejects_malformed_error_objects() {
    let env = |e: Json| {
        obj(vec![
            ("jsonrpc", Json::Str("2.0".to_string())),
            ("id", Json::Int(1)),
            ("error", e),
        ])
    };
    // well-formed error decodes
    let ok = env(obj(vec![
        ("code", Json::Int(1)),
        ("message", Json::Str("x".to_string())),
        ("data", Json::Null),
    ]));
    assert!(RpcResponse::from_json(&ok).is_ok());
    // missing message
    assert!(RpcResponse::from_json(&env(obj(vec![("code", Json::Int(1))]))).is_err());
    // missing code
    assert!(
        RpcResponse::from_json(&env(obj(vec![("message", Json::Str("x".to_string()))]))).is_err()
    );
    // unknown member inside the error object
    let bad = env(obj(vec![
        ("code", Json::Int(1)),
        ("message", Json::Str("x".to_string())),
        ("stray", Json::Int(0)),
    ]));
    assert!(RpcResponse::from_json(&bad).is_err());
    // wrongly typed code
    let bad = env(obj(vec![
        ("code", Json::Str("1".to_string())),
        ("message", Json::Str("x".to_string())),
    ]));
    assert!(RpcResponse::from_json(&bad).is_err());
    // error member not an object
    assert!(RpcResponse::from_json(&env(Json::Int(3))).is_err());
}

#[test]
fn conversions_build_the_expected_shapes() {
    let rr: ResponseResult = RpcError::new(2, "e".to_string(), None).into();
    assert!(matches!(rr, ResponseResult::Error(_)));

    let single: Response = RpcResponse::new(Id::Number(4), ResponseResult::Success(Json::Null)).into();
    assert_eq!(text(single.to_bytes()), r#"{"jsonrpc":"2.0","id":4,"result":null}"#);

    let from_err: Response = RpcError::new(-32700, "Parse error".to_string(), None).into();
    assert_eq!(
        text(from_err.to_bytes()),
        r#"{"jsonrpc":"2.0","id":null,"error":{"code":-32700,"message":"Parse error"}}"#
    );
    let via_ctor = Response::error(RpcError::new(-32700, "Parse error".to_string(), None));
    assert_eq!(text(via_ctor.to_bytes()), text(from_err.to_bytes()));
}

#[test]
fn integer_extremes_print_exactly() {
    let r = RpcResponse::new(Id::Number(0), ResponseResult::Success(Json::Int(i64::MIN)));
    assert_eq!(
        text(r.to_bytes()),
        r#"{"jsonrpc":"2.0","id":0,"result":-9223372036854775808}"#
    );
    let r = RpcResponse::new(Id::Number(0), ResponseResult::Success(Json::Int(i64::MAX)));
    assert_eq!(
        text(r.to_bytes()),
        r#"{"jsonrpc":"2.0","id":0,"result":9223372036854775807}"#
    );
}

#[test]
fn string_escaping_is_valid_json() {
    let msg = "a\"b\\c\nd\u{1F600}e";
    let r = RpcResponse::from_rpc_error(RpcError::new(1, msg.to_string(), None), Id::Null);
    let bytes = r.to_bytes();
    assert_eq!(
        String::from_utf8(bytes.clone()).unwrap(),
        r#"{"jsonrpc":"2.0","id":null,"error":{"code":1,"message":"a\"b\\c\u000ad\ud83d\ude00e"}}"#
    );
    // an independent JSON parser reads back the same message
    let v: serde_json::Value = serde_json::from_slice(&bytes).unwrap();
    assert_eq!(v["error"]["message"].as_str().unwrap(), msg);
    assert_eq!(v["jsonrpc"].as_str().unwrap(), "2.0");
    assert!(v["id"].is_null());
}

#[test]
fn wire_bytes_agree_with_an_independent_parser() {
    let payload = Json::Obj(vec![
        ("k".to_string(), Json::Arr(vec![Json::Int(-5), Json::Bool(true), Json::Null])),
    ]);
    let batch = Response::Batch(vec![
        RpcResponse::new(Id::Str("x".to_string()), ResponseResult::Success(payload)),
        RpcResponse::invalid_request(Id::Number(2)),
    ]);
    let ours: serde_json::Value = serde_json::from_slice(&batch.to_bytes()).unwrap();
    let expected: serde_json::Value = serde_json::from_str(
        r#"[
            {"jsonrpc": "2.0", "id": "x", "result": {"k": [-5, true, null]}},
            {"jsonrpc": "2.0", "id": 2, "error": {"message": "Invalid Request", "code": -32600}}
        ]"#,
    )
    .unwrap();
    assert_eq!(ours, expected);
}

#[test]
fn deep_clone_is_equal_to_the_original() {
    let j = Json::Obj(vec![
        ("a".to_string(), Json::Arr(vec![Json::Int(1), Json::Str("two".to_string())])),
        ("b".to_string(), Json::Null),
    ]);
    assert_eq!(j.deep_clone(), j);
}
