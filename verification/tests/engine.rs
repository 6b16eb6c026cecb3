use bytes::Bytes;
use ferrumphp::cli::Config;
use ferrumphp::net::{IpAddr, SocketAddr};
use ferrumphp::php::context::{HttpVersion, PhpRequestContext, RequestHead, ServerContext, WorkerConfig};
use ferrumphp::php::execution::{EngineCall, EngineEvent, Execution, Guard, Stage};
use ferrumphp::php::sapi::{
    choose_status, deactivate, flush_answer, head_answer, response_head, write_answer, ReadPost,
    SapiHeader, SapiHeaderSendResult, SapiHeaders, SendHeaders, ENGINE_SUCCESS,
};
use hyper::HeaderMap;

type Server = ServerContext<&'static str, &'static str, &'static str>;

fn server(body: Option<&'static str>) -> Server {
    let config = Config {
        bind: SocketAddr { ip: IpAddr::V4(0), port: 80, flowinfo: 0, scope_id: 0 },
        entrypoint: b"/app/index.php".to_vec(),
        workers: 1,
        trusted_proxies: vec![],
    };
    let head = RequestHead {
        method: b"GET".to_vec(),
        uri: b"/".to_vec(),
        version: HttpVersion::Http11,
        headers: HeaderMap::new(),
        peer: None,
    };
    let mut server = ServerContext::new(WorkerConfig { worker_id: 0 });
    server.request_ctx = Some(PhpRequestContext::new(head, &config, body, "head", "response").unwrap());
    server
}

fn header(name: &str, value: Option<&str>) -> SapiHeader {
    SapiHeader { name: name.as_bytes().to_vec(), value: value.map(|v| v.as_bytes().to_vec()) }
}

fn report(line: Option<&str>, code: i32, headers: Vec<SapiHeader>) -> SapiHeaders {
    SapiHeaders { status_line: line.map(|l| l.as_bytes().to_vec()), response_code: code, headers }
}

fn run(events: &[EngineEvent]) -> (Vec<EngineCall>, Execution) {
    let mut execution = Execution::new();
    let mut calls = Vec::new();
    for event in events {
        if let Some(call) = execution.pending() {
            calls.push(call);
        }
        execution.advance(*event);
    }
    (calls, execution)
}

const OK: EngineEvent = EngineEvent::Returned;
const BAIL: EngineEvent = EngineEvent::Bailout;

#[test]
fn script_runs_to_its_end() {
    let (calls, execution) = run(&[OK, OK, OK, OK]);
    assert_eq!(
        calls,
        [
            EngineCall::RequestStartup,
            EngineCall::ExecuteScript,
            EngineCall::DestroyFileHandle,
            EngineCall::RequestShutdown,
        ]
    );
    assert_eq!(execution.outcome(), Some(Ok(())));
    assert_eq!(execution.pending(), None);
    assert_eq!(execution.guard(), None);
}

#[test]
fn failed_start_releases_the_file_only() {
    let (calls, execution) = run(&[EngineEvent::Failed, OK]);
    assert_eq!(calls, [EngineCall::RequestStartup, EngineCall::DestroyFileHandle]);
    assert_eq!(execution.outcome(), Some(Err(())));
    assert_eq!(run(&[EngineEvent::Failed]).1.guard(), Some(Guard::Bare));
}

#[test]
fn bailout_of_the_script_is_recovered_from() {
    let (calls, execution) = run(&[OK, BAIL]);
    assert_eq!(calls, [EngineCall::RequestStartup, EngineCall::ExecuteScript]);
    assert_eq!(execution.stage, Stage::RecoverRelease);
    assert_eq!(execution.guard(), Some(Guard::Recovery));
    assert_eq!(execution.outcome(), None);
    let (calls, execution) = run(&[OK, BAIL, OK, OK]);
    assert_eq!(calls[2..], [EngineCall::DestroyFileHandle, EngineCall::RequestShutdown]);
    assert_eq!(execution.outcome(), Some(Err(())));
}

#[test]
fn bailout_of_the_end_is_final() {
    let (calls, execution) = run(&[OK, OK, OK, BAIL]);
    assert_eq!(calls.len(), 4);
    assert_eq!(execution.outcome(), Some(Err(())));
    let (calls, execution) = run(&[OK, BAIL, BAIL]);
    assert_eq!(calls.len(), 3);
    assert_eq!(execution.outcome(), Some(Err(())));
}

#[test]
fn every_run_keeps_the_order_of_calls() {
    let kinds = [OK, EngineEvent::Failed, BAIL];
    for code in 0..243usize {
        let events: Vec<EngineEvent> =
            (0..5u32).map(|place| kinds[code / 3usize.pow(place) % 3]).collect();
        let (calls, execution) = run(&events);
        assert!(execution.outcome().is_some());
        let ends: Vec<usize> =
            (0..calls.len()).filter(|i| calls[*i] == EngineCall::RequestShutdown).collect();
        assert!(ends.len() <= 1);
        for end in ends {
            assert_eq!(calls[end - 1], EngineCall::DestroyFileHandle);
        }
        assert!(calls.contains(&EngineCall::DestroyFileHandle));
    }
}

#[test]
fn answers_have_codes() {
    assert_eq!(i32::from(SapiHeaderSendResult::SentSuccessfully), 1);
    assert_eq!(i32::from(SapiHeaderSendResult::SendFailed), 3);
    assert_eq!(head_answer(true), SapiHeaderSendResult::SentSuccessfully);
    assert_eq!(head_answer(false), SapiHeaderSendResult::SendFailed);
}

#[test]
fn status_comes_from_the_line_first() {
    assert_eq!(choose_status(&report(Some("HTTP/1.1 404 Not Found"), 500, vec![])), 404);
    assert_eq!(choose_status(&report(Some("HTTP/1.1 404"), 500, vec![])), 500);
    assert_eq!(choose_status(&report(Some("HTTP/1.1 04x Odd"), 500, vec![])), 500);
    assert_eq!(choose_status(&report(Some("HTTP/1.1 099 Odd"), 500, vec![])), 500);
    assert_eq!(choose_status(&report(Some("HTTP/1.1 4040 Odd"), 500, vec![])), 500);
    assert_eq!(choose_status(&report(Some("nonsense"), 500, vec![])), 500);
    assert_eq!(choose_status(&report(None, 201, vec![])), 201);
    assert_eq!(choose_status(&report(None, 999, vec![])), 999);
    assert_eq!(choose_status(&report(None, 1000, vec![])), 200);
    assert_eq!(choose_status(&report(None, 99, vec![])), 200);
    assert_eq!(choose_status(&report(None, 0, vec![])), 200);
    assert_eq!(choose_status(&report(None, 65536 + 302, vec![])), 302);
    assert_eq!(choose_status(&report(None, 302 - 65536, vec![])), 302);
    assert_eq!(choose_status(&report(None, -1, vec![])), 200);
}

#[test]
fn response_carries_the_values_set() {
    let head = response_head(Some(report(
        None,
        200,
        vec![
            header("X-Powered-By", Some("PHP")),
            header("Set-Cookie", Some("a=1")),
            header("no-value", None),
            header("bad name", Some("x")),
            header("", Some("x")),
            header("X-Bad", Some("a\nb")),
            header("content-type", Some("text/html; charset=UTF-8")),
            header("set-cookie", Some("b=2")),
            header("X-Latin", Some("caf\u{e9}")),
        ],
    )))
    .unwrap();
    assert_eq!(head.status, 200);
    let fields: Vec<(&str, &[u8])> =
        head.headers.iter().map(|(name, value)| (name.as_str(), value.as_bytes())).collect();
    assert_eq!(
        fields,
        [
            ("x-powered-by", &b"PHP"[..]),
            ("set-cookie", b"a=1"),
            ("set-cookie", b"b=2"),
            ("content-type", b"text/html; charset=UTF-8"),
            ("x-latin", "caf\u{e9}".as_bytes()),
        ]
    );
}

#[test]
fn response_without_report() {
    let head = response_head(None).unwrap();
    assert_eq!(head.status, 200);
    assert!(head.headers.is_empty());
}

#[test]
fn many_headers_are_taken() {
    let headers = (0..6554).map(|i| header(&format!("x-{i}"), Some("v"))).collect();
    let head = response_head(Some(report(None, 200, headers))).unwrap();
    assert_eq!(head.headers.len(), 6554);
    let headers = (0..30000).map(|i| header(&format!("x-{i}"), Some("v"))).collect();
    assert!(response_head(Some(report(None, 200, headers))).is_none());
}

#[test]
fn repeated_names_count_once() {
    let headers = (0..40000).map(|i| header(["x-a", "X-B"][i % 2], Some("v"))).collect();
    let mut server = server(None);
    match server.send_headers(false, Some(report(None, 200, headers))) {
        SendHeaders::Send { head, .. } => assert_eq!(head.headers.len(), 40000),
        other => panic!("{other:?}"),
    }
    // What cannot be sent does not count
    let headers = (0..40000).map(|i| header(&format!("x {i}"), Some("v"))).collect();
    assert!(response_head(Some(report(None, 200, headers))).unwrap().headers.is_empty());
}

#[test]
fn request_ends_for_good() {
    let mut server = server(None);
    for _ in 0..2 {
        assert_eq!(deactivate(Some(&mut server)), ENGINE_SUCCESS);
        assert!(server.request_ctx.is_none());
        assert_eq!(server.worker_config, WorkerConfig { worker_id: 0 });
    }
    let nobody: Option<&mut Server> = None;
    assert_eq!(deactivate(nobody), 0);
}

#[test]
fn flush_aborts_when_headers_cannot_be_sent() {
    assert!(flush_answer(false));
    assert!(!flush_answer(true));
}

#[test]
fn head_is_sent_once() {
    let mut server = server(None);
    match server.send_headers(false, Some(report(None, 204, vec![]))) {
        SendHeaders::Send { sender, head } => {
            assert_eq!(sender, "head");
            assert_eq!(head.status, 204);
        }
        other => panic!("{other:?}"),
    }
    assert!(matches!(
        server.send_headers(false, None),
        SendHeaders::Answer(SapiHeaderSendResult::SendFailed)
    ));
}

#[test]
fn head_that_is_not_wanted_is_not_sent() {
    let mut server = server(None);
    assert!(matches!(
        server.send_headers(true, None),
        SendHeaders::Answer(SapiHeaderSendResult::SentSuccessfully)
    ));
    assert_eq!(server.request_ctx.as_ref().unwrap().head_tx, Some("head"));
    server.finish_request();
    assert!(matches!(
        server.send_headers(false, None),
        SendHeaders::Answer(SapiHeaderSendResult::SendFailed)
    ));
}

#[test]
fn too_many_headers_are_reported() {
    let mut server = server(None);
    let headers = (0..30000).map(|i| header(&format!("x-{i}"), Some("v"))).collect();
    assert!(matches!(
        server.send_headers(false, Some(report(None, 200, headers))),
        SendHeaders::TooManyHeaders
    ));
}

#[test]
fn output_is_copied_into_chunks() {
    let mut server = server(None);
    assert_eq!(server.ub_write(b"hello"), Some(Bytes::from_static(b"hello")));
    assert_eq!(server.ub_write(b""), None);
    server.finish_request();
    assert_eq!(server.ub_write(b"hello"), None);
    let answer = write_answer(5, true);
    assert_eq!((answer.written, answer.aborted), (5, false));
    let answer = write_answer(5, false);
    assert_eq!((answer.written, answer.aborted), (0, true));
}

fn read(
    ctx: &mut PhpRequestContext<&'static str, &'static str, &'static str>,
    chunks: &mut Vec<Bytes>,
    length: usize,
) -> Vec<u8> {
    let mut buffer = vec![0u8; length];
    let mut written = 0;
    loop {
        match ctx.read_post(&mut buffer, written) {
            ReadPost::Done(count) => {
                buffer.truncate(count);
                return buffer;
            }
            ReadPost::NeedChunk(count) => {
                written = count;
                let next = if chunks.is_empty() { None } else { Some(chunks.remove(0)) };
                if !ctx.supply_chunk(next) {
                    buffer.truncate(written);
                    return buffer;
                }
            }
        }
    }
}

#[test]
fn reads_deliver_the_body() {
    let mut server = server(Some("body"));
    let ctx = server.request_ctx.as_mut().unwrap();
    let mut chunks: Vec<Bytes> =
        vec!["ab".into(), "".into(), "cdefg".into(), "h".into(), "".into()];
    assert_eq!(read(ctx, &mut chunks, 3), b"abc");
    assert_eq!(read(ctx, &mut chunks, 1), b"d");
    assert_eq!(ctx.current_request_body_chunk, Some("efg".into()));
    assert_eq!(read(ctx, &mut chunks, 3), b"efg");
    assert_eq!(ctx.current_request_body_chunk, None);
    assert_eq!(read(ctx, &mut chunks, 0), b"");
    assert_eq!(read(ctx, &mut chunks, 10), b"h");
    assert_eq!(read(ctx, &mut chunks, 10), b"");
}

#[test]
fn reads_follow_each_other() {
    for first in 0..7 {
        let mut server = server(Some("body"));
        let ctx = server.request_ctx.as_mut().unwrap();
        let mut chunks: Vec<Bytes> = vec!["ab".into(), "cde".into(), "f".into()];
        let mut bytes = read(ctx, &mut chunks, first);
        bytes.extend(read(ctx, &mut chunks, 6 - first));
        assert_eq!(bytes, b"abcdef");
    }
}

#[test]
fn whole_reads_take_what_they_need() {
    let mut server = server(Some("body"));
    let ctx = server.request_ctx.as_mut().unwrap();
    let mut chunks: Vec<Bytes> = vec!["ab".into(), "".into(), "cde".into(), "f".into()];
    let mut buffer = *b"______";
    assert_eq!(ctx.read_through(&mut buffer[..4], &mut chunks), 4);
    assert_eq!(&buffer, b"abcd__");
    assert_eq!(ctx.current_request_body_chunk, Some("e".into()));
    assert_eq!(chunks, ["f"]);
    let mut buffer = *b"______";
    assert_eq!(ctx.read_through(&mut buffer, &mut chunks), 2);
    assert_eq!(&buffer, b"ef____");
    assert_eq!(ctx.current_request_body_chunk, None);
    assert_eq!(ctx.read_through(&mut buffer, &mut chunks), 0);
    ctx.request_body_rx = None;
    chunks.push("g".into());
    assert_eq!(ctx.read_through(&mut buffer, &mut chunks), 0);
    assert_eq!((&buffer, chunks.len()), (b"ef____", 1));
}

#[test]
fn nothing_is_read_without_a_body() {
    let mut server = server(None);
    let ctx = server.request_ctx.as_mut().unwrap();
    let mut buffer = [7u8; 4];
    assert_eq!(ctx.read_post(&mut buffer, 0), ReadPost::Done(0));
    assert_eq!(buffer, [7u8; 4]);
}

#[test]
fn a_read_leaves_the_rest_of_the_buffer_alone() {
    let mut server = server(Some("body"));
    let ctx = server.request_ctx.as_mut().unwrap();
    assert!(ctx.supply_chunk(Some("xy".into())));
    let mut buffer = [1u8, 2, 3, 4, 5];
    assert_eq!(ctx.read_post(&mut buffer, 1), ReadPost::NeedChunk(3));
    assert_eq!(buffer, [1, b'x', b'y', 4, 5]);
    assert!(!ctx.supply_chunk(None));
}
