use ferrumphp::cli::{Cli, Config, ConfigError, EntrypointProbe};
use ferrumphp::net::{IpAddr, IpNet, SocketAddr};
use ferrumphp::path::{is_php_file, parent_of};
use ferrumphp::php::interned::{Interned, InternedName};
use ferrumphp::text;

fn v4(a: u8, b: u8, c: u8, d: u8) -> IpAddr {
    IpAddr::V4(u32::from_be_bytes([a, b, c, d]))
}

fn cli(workers: usize) -> Cli {
    Cli {
        bind: SocketAddr { ip: v4(127, 0, 0, 1), port: 8080, flowinfo: 0, scope_id: 0 },
        entrypoint: b"public/index.php".to_vec(),
        workers,
        trusted_proxies: vec![IpNet::new(v4(10, 0, 0, 0), 8).unwrap()],
    }
}

fn probe(exists: bool, is_file: bool, canonical: Option<&str>) -> EntrypointProbe {
    EntrypointProbe { exists, is_file, canonical: canonical.map(|path| path.as_bytes().to_vec()) }
}

fn config(entrypoint: &str, trusted_proxies: Vec<IpNet>) -> Config {
    Config {
        bind: SocketAddr { ip: v4(192, 0, 2, 7), port: 8080, flowinfo: 0, scope_id: 0 },
        entrypoint: entrypoint.as_bytes().to_vec(),
        workers: 2,
        trusted_proxies,
    }
}

#[test]
fn settings_are_accepted() {
    let found = probe(true, true, Some("/app/public/index.php"));
    let config = cli(10).validate(found).unwrap();
    assert_eq!(config.bind, SocketAddr { ip: v4(127, 0, 0, 1), port: 8080, flowinfo: 0, scope_id: 0 });
    assert_eq!(config.entrypoint, b"/app/public/index.php");
    assert_eq!(config.workers, 10);
    assert_eq!(config.trusted_proxies.len(), 1);
}

#[test]
fn workers_are_required() {
    let error = cli(0).validate(probe(false, false, None)).unwrap_err();
    assert_eq!(error, ConfigError::NoWorkers);
    assert_eq!(error.message("x"), "workers must be greater than zero");
}

#[test]
fn entrypoint_must_exist() {
    let error = cli(1).validate(probe(false, false, None)).unwrap_err();
    assert_eq!(error, ConfigError::EntrypointMissing);
    assert_eq!(error.message("public/index.php"), "entrypoint does not exist: public/index.php");
}

#[test]
fn entrypoint_must_be_a_file() {
    let error = cli(1).validate(probe(true, false, None)).unwrap_err();
    assert_eq!(error, ConfigError::EntrypointNotFile);
    assert_eq!(error.message("public"), "entrypoint is not a file: public");
}

#[test]
fn entrypoint_must_have_a_canonical_path() {
    let error = cli(1).validate(probe(true, true, None)).unwrap_err();
    assert_eq!(error, ConfigError::EntrypointNotCanonical);
    assert_eq!(error.message("x"), "failed to canonicalize entrypoint path");
}

#[test]
fn entrypoint_must_be_php() {
    for path in ["/app/index.html", "/app/index", "/app/.php", "/app.php/index", "/app/a.php.bak"] {
        let error = cli(1).validate(probe(true, true, Some(path))).unwrap_err();
        assert_eq!(error, ConfigError::EntrypointNotPhp);
        assert_eq!(error.message("/x"), "entrypoint must be a PHP file: /x");
    }
}

#[test]
fn extensions_agree_with_the_standard_library() {
    for path in [
        "/app/index.php", "/index.php", "/a/.php", "/a/b", "/a.b/c", "/a/x.tar.php", "/a/x.PHP", "/a/php",
    ] {
        let extension = std::path::Path::new(path).extension().and_then(|e| e.to_str());
        assert_eq!(is_php_file(path.as_bytes()), extension == Some("php"));
    }
}

/// All texts of up to `longest` of the given pieces.
fn texts(pieces: &[&str], longest: usize) -> Vec<String> {
    let mut all = vec![String::new()];
    let mut from = 0;
    for _ in 0..longest {
        let to = all.len();
        for at in from..to {
            for piece in pieces {
                all.push(format!("{}{piece}", all[at]));
            }
        }
        from = to;
    }
    all
}

#[test]
fn paths_agree_with_the_standard_library() {
    for text in texts(&["/", ".", "a", "php"], 6) {
        let path = std::path::Path::new(&text);
        let parent = path.parent().map(|dir| dir.to_str().unwrap().as_bytes());
        assert_eq!(parent_of(text.as_bytes()), parent, "{text}");
        let php = path.extension().and_then(|e| e.to_str()) == Some("php");
        assert_eq!(is_php_file(text.as_bytes()), php, "{text}");
    }
}

#[test]
fn document_root_has_no_idle_end() {
    let interned = Interned::init(&config("/a//./i.php", vec![]));
    assert_eq!(interned.document_root_value, b"/a");
    assert_eq!(interned.script_name_value, b"//./i.php");
    let interned = Interned::init(&config("/", vec![]));
    assert_eq!(interned.document_root_value, b"/");
    assert_eq!(interned.script_name_value, b"");
}

#[test]
fn scope_of_the_bind_address_is_kept() {
    let bind = SocketAddr { ip: IpAddr::V6(0xfe80 << 112 | 1), port: 80, flowinfo: 5, scope_id: 2 };
    let mut settings = cli(1);
    settings.bind = bind;
    let config = settings.validate(probe(true, true, Some("/i.php"))).unwrap();
    assert_eq!(config.bind, bind);
}

#[test]
fn kept_strings_follow_the_settings() {
    let interned = Interned::init(&config("/app/public/index.php", vec![]));
    assert_eq!(interned.server_addr_value, b"192.0.2.7");
    assert_eq!(interned.server_port_value, b"8080");
    assert_eq!(interned.script_filename_value, b"/app/public/index.php");
    assert_eq!(interned.document_root_value, b"/app/public");
    assert_eq!(interned.script_name_value, b"/index.php");
    assert_eq!(interned.get(InternedName::DocumentRootValue), b"/app/public");
    assert_eq!(interned.get(InternedName::ScriptFilename), b"SCRIPT_FILENAME");
    assert_eq!(interned.get(InternedName::Cgi11), b"CGI/1.1");
}

#[test]
fn script_filename_is_root_and_name() {
    for path in ["/app/public/index.php", "/index.php", "/a/.php/b.c.php"] {
        let interned = Interned::init(&config(path, vec![]));
        let mut joined = interned.get(InternedName::DocumentRootValue).to_vec();
        joined.extend_from_slice(interned.get(InternedName::ScriptNameValue));
        assert_eq!(joined, interned.get(InternedName::ScriptFilenameValue));
    }
}

#[test]
fn server_port_reads_as_the_port() {
    for port in [0, 9, 10, 8080, 65535] {
        let mut settings = config("/index.php", vec![]);
        settings.bind.port = port;
        let interned = Interned::init(&settings);
        let written = interned.get(InternedName::ServerPortValue);
        assert_eq!(text::parse_i64(written), Some(i64::from(port)));
    }
}

#[test]
fn script_in_the_root_directory() {
    let interned = Interned::init(&config("/index.php", vec![]));
    assert_eq!(interned.document_root_value, b"/");
    assert_eq!(interned.script_name_value, b"index.php");
}

#[test]
fn ipv6_bind_address_is_written_short() {
    let mut settings = config("/index.php", vec![]);
    settings.bind = SocketAddr { ip: IpAddr::V6(1), port: 1, flowinfo: 0, scope_id: 0 };
    let interned = Interned::init(&settings);
    assert_eq!(interned.server_addr_value, b"::1");
    assert_eq!(interned.server_port_value, b"1");
}

#[test]
fn known_headers_have_kept_names() {
    let interned = Interned::init(&config("/index.php", vec![]));
    assert_eq!(interned.map_header_name(b"host"), Some(InternedName::HttpHost));
    assert_eq!(interned.map_header_name(b"x-request-id"), Some(InternedName::HttpXRequestId));
    assert_eq!(interned.map_header_name(b"content-type"), Some(InternedName::ContentType));
    assert_eq!(interned.map_header_name(b"x-other"), None);
    assert_eq!(interned.get(InternedName::HttpXRequestId), b"HTTP_X_REQUEST_ID");
}

#[test]
fn known_headers_follow_the_rule() {
    let interned = Interned::init(&config("/index.php", vec![]));
    for name in [
        "accept", "accept-encoding", "accept-language", "authorization", "cache-control", "connection",
        "content-encoding", "cookie", "date", "host", "origin", "referer", "user-agent",
        "x-forwarded-for", "x-forwarded-host", "x-forwarded-proto", "x-real-ip", "x-request-id",
    ] {
        let known = interned.map_header_name(name.as_bytes()).unwrap();
        let rule = format!("HTTP_{}", name.to_ascii_uppercase().replace('-', "_"));
        assert_eq!(interned.get(known), rule.as_bytes());
    }
}

#[test]
fn trusted_networks_hold_their_addresses() {
    let nets = vec![
        IpNet::new(v4(127, 0, 0, 1), 32).unwrap(),
        IpNet::new(v4(10, 1, 2, 3), 8).unwrap(),
        IpNet::new(IpAddr::V6(1), 128).unwrap(),
    ];
    let settings = config("/index.php", nets);
    assert!(settings.is_trusted_proxy(v4(127, 0, 0, 1)));
    assert!(!settings.is_trusted_proxy(v4(127, 0, 0, 2)));
    assert!(settings.is_trusted_proxy(v4(10, 0, 0, 0)));
    assert!(settings.is_trusted_proxy(v4(10, 255, 255, 255)));
    assert!(!settings.is_trusted_proxy(v4(11, 0, 0, 0)));
    assert!(!settings.is_trusted_proxy(v4(9, 255, 255, 255)));
    assert!(settings.is_trusted_proxy(IpAddr::V6(1)));
    assert!(!settings.is_trusted_proxy(IpAddr::V6(2)));
}

#[test]
fn nobody_is_trusted_without_networks() {
    assert!(!config("/index.php", vec![]).is_trusted_proxy(v4(127, 0, 0, 1)));
}

#[test]
fn another_network_adds_its_addresses() {
    let first = IpNet::new(v4(10, 0, 0, 0), 8).unwrap();
    let second = IpNet::new(v4(192, 168, 0, 0), 16).unwrap();
    let narrow = config("/index.php", vec![first]);
    let wide = config("/index.php", vec![first, second]);
    for ip in [v4(10, 1, 1, 1), v4(192, 168, 3, 4), v4(192, 169, 0, 0)] {
        assert_eq!(wide.is_trusted_proxy(ip), narrow.is_trusted_proxy(ip) || second.contains(ip));
    }
}

#[test]
fn empty_prefix_holds_the_family() {
    let net = IpNet::new(v4(1, 2, 3, 4), 0).unwrap();
    assert!(net.contains(v4(255, 255, 255, 255)));
    assert!(!net.contains(IpAddr::V6(0)));
    let net = IpNet::new(IpAddr::V6(0), 0).unwrap();
    assert!(net.contains(IpAddr::V6(u128::MAX)));
    assert!(!net.contains(v4(0, 0, 0, 0)));
}

#[test]
fn full_prefix_holds_one_address() {
    let net = IpNet::new(IpAddr::V6(7), 128).unwrap();
    assert!(net.contains(IpAddr::V6(7)));
    assert!(!net.contains(IpAddr::V6(6)));
}

#[test]
fn prefix_must_fit_the_address() {
    assert!(IpNet::new(v4(0, 0, 0, 0), 32).is_some());
    assert!(IpNet::new(v4(0, 0, 0, 0), 33).is_none());
    assert!(IpNet::new(IpAddr::V6(0), 128).is_some());
    assert!(IpNet::new(IpAddr::V6(0), 129).is_none());
}

#[test]
fn root_and_script_name_make_the_path() {
    for path in ["/app/public/index.php", "/index.php", "index.php", "/a//i.php", "./i.php", "/", ""] {
        let settings = config(path, vec![]);
        let joined = [settings.document_root(), settings.script_name()].concat();
        assert_eq!(joined, path.as_bytes());
    }
}

#[test]
fn numbers_are_read() {
    assert_eq!(text::parse_i64(b"0"), Some(0));
    assert_eq!(text::parse_i64(b"-0"), Some(0));
    assert_eq!(text::parse_i64(b"+17"), Some(17));
    assert_eq!(text::parse_i64(b"0042"), Some(42));
    assert_eq!(text::parse_i64(b"9223372036854775807"), Some(i64::MAX));
    assert_eq!(text::parse_i64(b"9223372036854775808"), None);
    assert_eq!(text::parse_i64(b"-9223372036854775808"), Some(i64::MIN));
    assert_eq!(text::parse_i64(b"-9223372036854775809"), None);
    assert_eq!(text::parse_i64(b"99999999999999999999999999999999999999999999999"), None);
    for bad in ["", "+", "-", "1 ", " 1", "1_0", "+-1", "0x1", "1.5"] {
        assert_eq!(text::parse_i64(bad.as_bytes()), bad.parse::<i64>().ok());
        assert_eq!(text::parse_i64(bad.as_bytes()), None);
    }
}

#[test]
fn numbers_are_written() {
    for n in [0u16, 7, 10, 80, 443, 8080, 65535] {
        assert_eq!(text::format_decimal(n), n.to_string().into_bytes());
        assert_eq!(text::parse_i64(&text::format_decimal(n)), Some(n as i64));
    }
}

#[test]
fn text_is_cut_and_trimmed() {
    assert_eq!(text::trim(b" \t a b \t"), b"a b");
    assert_eq!(text::trim(b" \t "), b"");
    assert_eq!(text::cut_before_first(b"a,b,c", b','), b"a");
    assert_eq!(text::cut_before_first(b"abc", b','), b"abc");
    assert_eq!(text::cut_after_first(b"a,b,c", b','), Some(&b"b,c"[..]));
    assert_eq!(text::cut_after_first(b"abc", b','), None);
    assert_eq!(text::strip_prefix(b"/index.php/x", b"/index.php"), Some(&b"/x"[..]));
    assert_eq!(text::strip_prefix(b"/inde", b"/index.php"), None);
    assert_eq!(text::find_last(b"a/b/c", b'/'), Some(3));
    assert_eq!(text::find_first(b"a/b/c", b'/'), Some(1));
    assert!(text::is_all_visible(b"a\t~ "));
    assert!(!text::is_all_visible(b"a\n"));
    assert!(!text::is_all_visible(&[200]));
}
