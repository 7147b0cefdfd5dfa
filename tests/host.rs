use spwn_builtins::builtins::Builtin;
use spwn_builtins::context::{Context, FullContext};
use spwn_builtins::dispatch::built_in_function;
use spwn_builtins::error::RuntimeError;
use spwn_builtins::globals::Globals;
use spwn_builtins::host::{
    bytes_value, host_request, http_response_value, set_leaf_result, time_value, FileFormat, HostRequest,
    HttpMethod,
};
use spwn_builtins::ids::Group;
use spwn_builtins::value::{CodeArea, Value};

fn area() -> CodeArea {
    CodeArea { start: 0, end: 1 }
}

fn setup() -> (Globals, FullContext) {
    let mut g = Globals::new(1);
    let ret = g.stored_values.store(Value::Null, Group::new(0), area(), false);
    (g, FullContext::new(Context::new(Group::new(0), 0, ret)))
}

fn put(g: &mut Globals, v: Value) -> usize {
    g.stored_values.store(v, Group::new(0), area(), false)
}

#[test]
fn print_request_joins_texts() {
    let (mut g, ctx) = setup();
    let a = put(&mut g, Value::Str("x = ".to_string()));
    let b = put(&mut g, Value::Number(-42));
    let c = put(&mut g, Value::Bool(true));
    let d = put(&mut g, Value::Null);
    match host_request(Builtin::Print, &vec![a, b, c, d], area(), &g, &ctx.leaves[0]).unwrap() {
        HostRequest::Print(t) => assert_eq!(t, "x = -42truenull"),
        _ => panic!("expected a print request"),
    }
    let arr = put(&mut g, Value::Array(vec![]));
    let r = host_request(Builtin::Print, &vec![a, arr], area(), &g, &ctx.leaves[0]);
    assert!(matches!(r, Err(RuntimeError::TypeError { .. })));
}

#[test]
fn unsafe_builtins_need_permission() {
    let (mut g, ctx) = setup();
    let p = put(&mut g, Value::Str("data.json".to_string()));
    let f = put(&mut g, Value::Str("json".to_string()));
    let r = host_request(Builtin::ReadFile, &vec![p, f], area(), &g, &ctx.leaves[0]);
    assert!(matches!(r, Err(RuntimeError::PermissionError { needs_flag: true, .. })));
    g.permissions.set(Builtin::ReadFile, true);
    match host_request(Builtin::ReadFile, &vec![p, f], area(), &g, &ctx.leaves[0]).unwrap() {
        HostRequest::ReadFile(path, format) => {
            assert_eq!(path, "data.json");
            assert_eq!(format, FileFormat::Json);
        }
        _ => panic!("expected a read request"),
    }
    match host_request(Builtin::ReadFile, &vec![p], area(), &g, &ctx.leaves[0]).unwrap() {
        HostRequest::ReadFile(_, format) => assert_eq!(format, FileFormat::Text),
        _ => panic!("expected a read request"),
    }
    let bad = put(&mut g, Value::Str("xml".to_string()));
    let r = host_request(Builtin::ReadFile, &vec![p, bad], area(), &g, &ctx.leaves[0]);
    assert!(matches!(r, Err(RuntimeError::BuiltinError { .. })));
    assert!(Builtin::Time.is_safe());
    assert!(!Builtin::HttpRequest.is_safe());
}

#[test]
fn http_request_is_checked() {
    let (mut g, ctx) = setup();
    g.permissions.set(Builtin::HttpRequest, true);
    let m = put(&mut g, Value::Str("post".to_string()));
    let u = put(&mut g, Value::Str("http://localhost/".to_string()));
    let hv = put(&mut g, Value::Str("text/plain".to_string()));
    let h = put(&mut g, Value::Dict(vec![("Content-Type".to_string(), hv)]));
    let b = put(&mut g, Value::Str("hello".to_string()));
    match host_request(Builtin::HttpRequest, &vec![m, u, h, b], area(), &g, &ctx.leaves[0]).unwrap() {
        HostRequest::Http { method, url, headers, body } => {
            assert_eq!(method, HttpMethod::Post);
            assert_eq!(url, "http://localhost/");
            assert_eq!(headers, vec![("Content-Type".to_string(), "text/plain".to_string())]);
            assert_eq!(body, "hello");
        }
        _ => panic!("expected an http request"),
    }
    let bad = put(&mut g, Value::Str("fetch".to_string()));
    let r = host_request(Builtin::HttpRequest, &vec![bad, u, h, b], area(), &g, &ctx.leaves[0]);
    assert!(matches!(r, Err(RuntimeError::BuiltinError { .. })));
}

#[test]
fn host_builtins_are_not_run_by_the_engine() {
    let (mut g, mut ctx) = setup();
    let r = built_in_function(Builtin::Time, &vec![], area(), &mut g, &mut ctx);
    assert!(matches!(r, Err(RuntimeError::BuiltinError { .. })));
    let r = host_request(Builtin::Assert, &vec![], area(), &g, &ctx.leaves[0]);
    assert!(matches!(r, Err(RuntimeError::BuiltinError { .. })));
    assert!(matches!(host_request(Builtin::Time, &vec![], area(), &g, &ctx.leaves[0]), Ok(HostRequest::Time)));
}

#[test]
fn answers_become_values() {
    let (mut g, mut ctx) = setup();
    assert!(matches!(time_value(1700000000), Value::Number(1700000000)));
    assert!(matches!(time_value(u64::MAX), Value::Number(i64::MAX)));
    let bytes = bytes_value(&vec![7u8, 255u8], &mut g.stored_values, Group::new(0), area());
    match &bytes {
        Value::Array(items) => {
            assert_eq!(items.len(), 2);
            assert!(matches!(g.stored_values.get(items[1]), Value::Number(255)));
        }
        _ => panic!("expected an array"),
    }
    let headers = vec![("a".to_string(), "1".to_string()), ("a".to_string(), "2".to_string())];
    let resp = http_response_value(200, &headers, "body".to_string(), &mut g.stored_values, Group::new(0), area());
    match &resp {
        Value::Dict(entries) => {
            assert_eq!(entries.len(), 3);
            let status = entries.iter().find(|e| e.0 == "status").unwrap().1;
            assert!(matches!(g.stored_values.get(status), Value::Number(200)));
            let hs = entries.iter().find(|e| e.0 == "headers").unwrap().1;
            match g.stored_values.get(hs) {
                Value::Dict(h) => {
                    assert_eq!(h.len(), 1);
                    assert!(matches!(g.stored_values.get(h[0].1), Value::Str(s) if s == "2"));
                }
                _ => panic!("expected a dictionary"),
            }
        }
        _ => panic!("expected a dictionary"),
    }
    set_leaf_result(resp, area(), &mut g, &mut ctx, 0).unwrap();
    assert!(matches!(g.stored_values.get(ctx.leaves[0].return_value), Value::Dict(_)));
    let r = set_leaf_result(Value::Array(vec![999999]), area(), &mut g, &mut ctx, 0);
    assert!(matches!(r, Err(RuntimeError::BuiltinError { .. })));
    let r = set_leaf_result(Value::Dict(vec![("k".to_string(), 0), ("k".to_string(), 0)]), area(), &mut g, &mut ctx, 0);
    assert!(r.is_err());
}
