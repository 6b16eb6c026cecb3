use ferrumphp::cli::Config;
use ferrumphp::net::{IpAddr, IpNet, SocketAddr};
use ferrumphp::php::context::{
    HttpVersion, NulError, PhpRequestContext, RequestHead, ServerContext, WorkerConfig,
};
use ferrumphp::php::execution::Stage;
use ferrumphp::php::interned::Interned;
use ferrumphp::php::variables::{client_ip, first_forwarded, ServerVariable, VariableName, VariableValue};
use ferrumphp::php::Job;
use hyper::header::{HeaderName, HeaderValue};
use hyper::HeaderMap;

type Context = PhpRequestContext<&'static str, &'static str, &'static str>;

fn v4(a: u8, b: u8, c: u8, d: u8) -> IpAddr {
    IpAddr::V4(u32::from_be_bytes([a, b, c, d]))
}

fn settings() -> Config {
    Config {
        bind: SocketAddr { ip: v4(192, 0, 2, 7), port: 8080, flowinfo: 0, scope_id: 0 },
        entrypoint: b"/app/public/index.php".to_vec(),
        workers: 2,
        trusted_proxies: vec![IpNet::new(v4(10, 0, 0, 0), 8).unwrap()],
    }
}

fn headers(fields: &[(&str, &[u8])]) -> HeaderMap {
    let mut map = HeaderMap::new();
    for (name, value) in fields {
        map.append(
            HeaderName::from_bytes(name.as_bytes()).unwrap(),
            HeaderValue::from_bytes(value).unwrap(),
        );
    }
    map
}

fn head(uri: &str, fields: &[(&str, &[u8])], peer: Option<SocketAddr>) -> RequestHead {
    RequestHead {
        method: b"POST".to_vec(),
        uri: uri.as_bytes().to_vec(),
        version: HttpVersion::Http11,
        headers: headers(fields),
        peer,
    }
}

fn context(uri: &str, fields: &[(&str, &[u8])], peer: Option<SocketAddr>) -> Context {
    PhpRequestContext::new(head(uri, fields, peer), &settings(), Some("body"), "head", "response").unwrap()
}

fn shown(ctx: &Context) -> Vec<(String, String)> {
    let config = settings();
    let interned = Interned::init(&config);
    let mut vars: Vec<ServerVariable> = Vec::new();
    ctx.register_server_variables(&mut vars, &interned, &config);
    let text = |bytes: &[u8]| String::from_utf8(bytes.to_vec()).unwrap();
    vars.iter()
        .map(|var| {
            let name = match &var.name {
                VariableName::Interned(name) => text(interned.get(*name)),
                VariableName::Header(name) => text(name),
            };
            let value = match &var.value {
                VariableValue::Interned(name) => text(interned.get(*name)),
                VariableValue::Text(value) => text(value),
                VariableValue::Long(number) => format!("#{number}"),
            };
            (name, value)
        })
        .collect()
}

fn lookup(vars: &[(String, String)], name: &str) -> Option<String> {
    vars.iter().rev().find(|(key, _)| key == name).map(|(_, value)| value.clone())
}

#[test]
fn request_is_described() {
    let ctx = context(
        "/blog/7?page=2&x=?",
        &[
            ("content-type", b"text/plain"),
            ("content-length", b"12"),
            ("cookie", b"a=b"),
        ],
        None,
    );
    assert_eq!(ctx.filename, b"/app/public/index.php");
    assert_eq!(ctx.proto_num, 1100);
    assert_eq!(ctx.method, b"POST");
    assert_eq!(ctx.uri, b"/blog/7?page=2&x=?");
    assert_eq!(ctx.query.as_deref(), Some(&b"page=2&x=?"[..]));
    assert_eq!(ctx.content_type.as_deref(), Some(&b"text/plain"[..]));
    assert_eq!(ctx.content_length, Some(12));
    assert_eq!(ctx.read_cookies(), Some(&b"a=b"[..]));
    assert_eq!(ctx.request_body_rx, Some("body"));
    assert_eq!(ctx.head_tx, Some("head"));
    assert_eq!(ctx.response_tx, "response");
    assert!(ctx.current_request_body_chunk.is_none());
}

#[test]
fn queries_agree_with_parsed_targets() {
    for target in [
        "/", "/a", "/a?", "/a?b", "/a?b?c", "/a?b=c&d", "*", "http://example.com/x?y=1",
        "http://example.com?y=1", "example.com:443",
    ] {
        let uri: hyper::Uri = target.parse().unwrap();
        let ctx = context(&uri.to_string(), &[], None);
        assert_eq!(ctx.query.as_deref(), uri.query().map(|query| query.as_bytes()));
    }
}

#[test]
fn target_is_path_and_query() {
    let ctx = context("/a?b?c", &[], None);
    let query = ctx.query.clone().unwrap();
    assert_eq!([&b"/a"[..], b"?", &query].concat(), ctx.uri);
}

#[test]
fn unusable_headers_are_left_out() {
    let ctx = context("/", &[("content-type", &[0xc3, 0xa9]), ("content-length", b"12a")], None);
    assert_eq!(ctx.content_type, None);
    assert_eq!(ctx.content_length, None);
    assert_eq!(ctx.read_cookies(), None);
    assert_eq!(ctx.query, None);
}

#[test]
fn first_of_several_values_counts() {
    let ctx = context("/", &[("content-length", b"1"), ("content-length", b"2")], None);
    assert_eq!(ctx.content_length, Some(1));
}

#[test]
fn versions_have_numbers() {
    for (version, number, name) in [
        (HttpVersion::Http09, 900, "HTTP/0.9"),
        (HttpVersion::Http10, 1000, "HTTP/1.0"),
        (HttpVersion::Http11, 1100, "HTTP/1.1"),
        (HttpVersion::Http2, 2000, "HTTP/2"),
        (HttpVersion::Http3, 3000, "HTTP/3"),
    ] {
        let mut head = head("/", &[], None);
        head.version = version;
        let ctx: Context = PhpRequestContext::new(head, &settings(), None, "head", "response").unwrap();
        assert_eq!(ctx.proto_num, number);
        assert_eq!(lookup(&shown(&ctx), "SERVER_PROTOCOL").unwrap(), name);
    }
    let mut ctx = context("/", &[], None);
    ctx.proto_num = 5;
    assert_eq!(lookup(&shown(&ctx), "SERVER_PROTOCOL").unwrap(), "HTTP/1.1");
}

#[test]
fn nul_bytes_are_refused() {
    let config = settings();
    let mut with_nul = head("/", &[], None);
    with_nul.method = b"GE\0T".to_vec();
    let refused: Result<Context, NulError> = PhpRequestContext::new(with_nul, &config, None, "h", "r");
    assert_eq!(refused.unwrap_err(), NulError::Method(2));

    let refused: Result<Context, NulError> =
        PhpRequestContext::new(head("\0", &[], None), &config, None, "h", "r");
    assert_eq!(refused.unwrap_err(), NulError::Uri(0));

    let mut config = settings();
    config.entrypoint = b"/a\0.php".to_vec();
    let refused: Result<Context, NulError> =
        PhpRequestContext::new(head("\0", &[], None), &config, None, "h", "r");
    assert_eq!(refused.unwrap_err(), NulError::Filename(2));
}

#[test]
fn php_is_told_about_the_request() {
    let ctx = context("/x?y", &[("authorization", b"Basic YTpi"), ("content-length", b"3")], None);
    let info = ctx.populate_request_info();
    assert_eq!(info.response_code, 200);
    assert_eq!(info.request_method, b"POST");
    assert_eq!(info.request_uri, b"/x?y");
    assert_eq!(info.query_string.as_deref(), Some(&b"y"[..]));
    assert_eq!(info.content_length, 3);
    assert_eq!(info.content_type, None);
    assert_eq!(info.proto_num, 1100);
    assert_eq!(info.auth.as_deref(), Some(&b"Basic YTpi"[..]));

    let info = context("/", &[], None).populate_request_info();
    assert_eq!(info.content_length, 0);
    assert_eq!(info.auth, None);
}

#[test]
fn server_variables_in_order() {
    let peer = SocketAddr { ip: v4(203, 0, 113, 9), port: 4711, flowinfo: 0, scope_id: 0 };
    let ctx = context(
        "/index.php/blog?p=1",
        &[
            ("host", b"example.com:8443"),
            ("content-type", b"text/plain"),
            ("content-length", b"5"),
            ("x-custom-thing", b"1"),
            ("under_score", b"2"),
            ("accept", b"*/*"),
        ],
        Some(peer),
    );
    let expected = [
        ("SERVER_SOFTWARE", "FerrumPHP"),
        ("GATEWAY_INTERFACE", "CGI/1.1"),
        ("SERVER_ADDR", "192.0.2.7"),
        ("SERVER_PORT", "8080"),
        ("SCRIPT_FILENAME", "/app/public/index.php"),
        ("DOCUMENT_ROOT", "/app/public"),
        ("SCRIPT_NAME", "/index.php"),
        ("PATH_INFO", "/blog?p=1"),
        ("PHP_SELF", "/index.php/blog?p=1"),
        ("REMOTE_ADDR", "203.0.113.9"),
        ("REMOTE_PORT", "#4711"),
        ("REQUEST_URI", "/index.php/blog?p=1"),
        ("REQUEST_METHOD", "POST"),
        ("QUERY_STRING", "p=1"),
        ("CONTENT_TYPE", "text/plain"),
        ("CONTENT_LENGTH", "#5"),
        ("SERVER_NAME", "example.com"),
        ("SERVER_PROTOCOL", "HTTP/1.1"),
        ("HTTP_HOST", "example.com:8443"),
        ("HTTP_X_CUSTOM_THING", "1"),
        ("HTTP_ACCEPT", "*/*"),
    ];
    let vars = shown(&ctx);
    let vars: Vec<(&str, &str)> = vars.iter().map(|(k, v)| (k.as_str(), v.as_str())).collect();
    assert_eq!(vars, expected);
}

#[test]
fn variables_that_need_a_value_are_left_out() {
    let vars = shown(&context("/index.php", &[], None));
    for name in [
        "PATH_INFO", "PHP_SELF", "REMOTE_ADDR", "REMOTE_PORT", "QUERY_STRING", "CONTENT_TYPE",
        "CONTENT_LENGTH", "SERVER_NAME",
    ] {
        assert_eq!(lookup(&vars, name), None);
    }
}

#[test]
fn target_beside_the_script() {
    let vars = shown(&context("/blog/7", &[], None));
    assert_eq!(lookup(&vars, "PATH_INFO").unwrap(), "/blog/7");
    assert_eq!(lookup(&vars, "PHP_SELF").unwrap(), "/index.php/blog/7");
}

#[test]
fn target_below_the_script_is_php_self() {
    let vars = shown(&context("/index.php/a", &[], None));
    assert_eq!(lookup(&vars, "PATH_INFO").unwrap(), "/a");
    assert_eq!(lookup(&vars, "PHP_SELF").unwrap(), "/index.php/a");
}

#[test]
fn last_value_of_a_header_is_seen() {
    let vars = shown(&context("/", &[("x-a", b"1"), ("x-b", b"2"), ("x-a", b"3")], None));
    assert_eq!(lookup(&vars, "HTTP_X_A").unwrap(), "3");
    assert_eq!(lookup(&vars, "HTTP_X_B").unwrap(), "2");
}

#[test]
fn headers_do_not_replace_own_variables() {
    let plain = shown(&context("/", &[], None));
    let vars = shown(&context(
        "/",
        &[("server-software", b"evil"), ("remote-addr", b"1.1.1.1"), ("script-filename", b"/etc")],
        None,
    ));
    for (name, value) in &plain {
        assert_eq!(lookup(&vars, name).as_ref(), Some(value));
    }
    assert_eq!(lookup(&vars, "HTTP_REMOTE_ADDR").unwrap(), "1.1.1.1");
    assert_eq!(lookup(&vars, "REMOTE_ADDR"), None);
}

#[test]
fn headers_with_underscores_are_left_out() {
    let vars = shown(&context("/", &[("x-real-ip", b"1"), ("x_real_ip", b"2")], None));
    assert_eq!(lookup(&vars, "HTTP_X_REAL_IP").unwrap(), "1");
}

#[test]
fn untrusted_peer_is_the_client() {
    let peer = SocketAddr { ip: v4(203, 0, 113, 9), port: 1, flowinfo: 0, scope_id: 0 };
    let vars = shown(&context("/", &[("x-forwarded-for", b"198.51.100.1")], Some(peer)));
    assert_eq!(lookup(&vars, "REMOTE_ADDR").unwrap(), "203.0.113.9");
}

#[test]
fn trusted_proxy_reports_the_client() {
    let peer = SocketAddr { ip: v4(10, 0, 0, 1), port: 77, flowinfo: 0, scope_id: 0 };
    let vars =
        shown(&context("/", &[("x-forwarded-for", b" 198.51.100.1 , 10.0.0.2")], Some(peer)));
    assert_eq!(lookup(&vars, "REMOTE_ADDR").unwrap(), "198.51.100.1");
    assert_eq!(lookup(&vars, "REMOTE_PORT").unwrap(), "#77");
    let vars = shown(&context("/", &[("x-forwarded-for", b"2001:DB8:0:0::1")], Some(peer)));
    assert_eq!(lookup(&vars, "REMOTE_ADDR").unwrap(), "2001:db8::1");
    let vars = shown(&context("/", &[("x-forwarded-for", b"unknown")], Some(peer)));
    assert_eq!(lookup(&vars, "REMOTE_ADDR").unwrap(), "10.0.0.1");
}

#[test]
fn forwarded_address_is_read() {
    let read = |value: &[u8]| context("/", &[("x-forwarded-for", value)], None).forwarded_client_ip();
    assert_eq!(read(b"1.2.3.4"), Some(v4(1, 2, 3, 4)));
    assert_eq!(read(b"\t::1 ,x"), Some(IpAddr::V6(1)));
    assert_eq!(read(b"::ffff:1.2.3.4"), Some(IpAddr::V6(0xffff_0102_0304)));
    for bad in ["", ",1.2.3.4", "1.2.3", "01.2.3.4", "1.2.3.4:80", "host"] {
        assert_eq!(read(bad.as_bytes()), None);
    }
    assert_eq!(read(&[0xff]), None);
    assert_eq!(context("/", &[], None).forwarded_client_ip(), None);
}

#[test]
fn client_is_chosen() {
    let peer = v4(10, 0, 0, 1);
    let other = v4(1, 1, 1, 1);
    assert_eq!(client_ip(peer, true, Some(other)), other);
    assert_eq!(client_ip(peer, false, Some(other)), peer);
    assert_eq!(client_ip(peer, true, None), peer);
    assert_eq!(first_forwarded(b" a , b"), b"a");
}

#[test]
fn worker_takes_up_and_drops_requests() {
    let config = settings();
    let mut server: ServerContext<&str, &str, &str> = ServerContext::new(WorkerConfig { worker_id: 3 });
    assert!(server.request_ctx.is_none());
    let job = Job {
        request_head: head("/a", &[], None),
        request_body_rx: None,
        response_head_tx: "h",
        response_body_tx: "r",
    };
    let run = server.handle_request(job, &config).unwrap();
    assert_eq!(run.stage, Stage::Startup);
    assert_eq!(server.request_ctx.as_ref().unwrap().uri, b"/a");
    assert_eq!(server.conclude_request(Ok(())), Ok(()));
    assert!(server.request_ctx.is_some());
    assert_eq!(server.conclude_request(Err(())), Err(()));
    assert!(server.request_ctx.is_none());
    assert_eq!(server.worker_config.worker_id, 3);

    let job = Job {
        request_head: head("/\0", &[], None),
        request_body_rx: None,
        response_head_tx: "h",
        response_body_tx: "r",
    };
    assert_eq!(server.handle_request(job, &config).unwrap_err(), NulError::Uri(1));
    assert!(server.request_ctx.is_none());
}

#[test]
fn finished_request_is_gone() {
    let mut server: ServerContext<&str, &str, &str> = ServerContext::new(WorkerConfig { worker_id: 0 });
    server.request_ctx = Some(context("/", &[], None));
    server.finish_request();
    assert!(server.request_ctx.is_none());
}
