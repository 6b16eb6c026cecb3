use bytes::Bytes;
use ferrumphp::net::{IpAddr, SocketAddr};
use ferrumphp::php::context::{HttpVersion, RequestHead};
use ferrumphp::php::service::{
    BodyFrame, BodyPoll, BodyStep, FutureStep, PhpError, PhpFuture, PhpService, PhpStream, Polled,
    RequestBodyFuture, StreamStep,
};
use ferrumphp::php::supervisor::{SupervisorAction, WorkerSupervisor};
use ferrumphp::php::worker::{worker_report, JobEvent, WorkerEvent};
use hyper::HeaderMap;

type Future = PhpFuture<&'static str, &'static str, &'static str, u8>;
type Stream = PhpStream<&'static str, &'static str>;

fn with_body() -> Future {
    PhpFuture::WithRequestBody { request_body_future: "q", response_head_rx: "h", response_body_rx: "r" }
}

fn without_body() -> Future {
    PhpFuture::WithoutRequestBody { response_head_rx: "h", response_body_rx: "r" }
}

fn head() -> RequestHead {
    RequestHead {
        method: b"GET".to_vec(),
        uri: b"/".to_vec(),
        version: HttpVersion::Http2,
        headers: HeaderMap::new(),
        peer: None,
    }
}

#[test]
fn job_and_future_belong_together() {
    let peer = SocketAddr { ip: IpAddr::V4(7), port: 9, flowinfo: 0, scope_id: 0 };
    let service = PhpService::new("sender", peer);
    assert_eq!(service.sender, "sender");
    let (job, future) = service.call::<&str, &str, &str, &str, &str, &str, u8>(
        head(),
        None,
        ("htx", "hrx"),
        ("btx", "brx"),
    );
    assert_eq!(job.request_head.peer, Some(peer));
    assert_eq!(job.request_head.uri, b"/");
    assert_eq!(job.request_body_rx, None);
    assert_eq!((job.response_head_tx, job.response_body_tx), ("htx", "btx"));
    assert!(matches!(
        future,
        PhpFuture::WithoutRequestBody { response_head_rx: "hrx", response_body_rx: "brx" }
    ));
    let (job, future) = service.call::<&str, &str, &str, &str, &str, &str, u8>(
        head(),
        Some(("rx", "q")),
        ("htx", "hrx"),
        ("btx", "brx"),
    );
    assert_eq!(job.request_body_rx, Some("rx"));
    assert!(matches!(future, PhpFuture::WithRequestBody { request_body_future: "q", .. }));
}

#[test]
fn closed_job_channel_is_an_error() {
    assert!(matches!(with_body().enqueued(true), PhpFuture::WithRequestBody { .. }));
    let mut future = with_body().enqueued(false);
    assert!(matches!(future.take_error(), PhpError::JobChannelClosed));
    assert!(matches!(future, PhpFuture::Done));
    type Ready = Polled<Result<(), PhpError<u8>>>;
    let ready: Ready = PhpService::<()>::poll_ready(Polled::Ready(Err(())));
    assert!(matches!(ready, Polled::Ready(Err(PhpError::JobChannelClosed))));
    let ready: Ready = PhpService::<()>::poll_ready(Polled::Ready(Ok(())));
    assert!(matches!(ready, Polled::Ready(Ok(()))));
    let ready: Ready = PhpService::<()>::poll_ready(Polled::Pending);
    assert!(matches!(ready, Polled::Pending));
}

#[test]
fn response_goes_out_with_its_head() {
    let mut future = without_body();
    match future.on_head(Polled::Ready(Ok("parts"))) {
        FutureStep::Return(Polled::Ready(Ok(("parts", PhpStream::WithoutRequestBody { response_body_stream })))) => {
            assert_eq!(response_body_stream, "r")
        }
        other => panic!("{other:?}"),
    }
    assert!(matches!(future, PhpFuture::Done));

    let mut future = with_body();
    match future.on_head(Polled::Ready(Ok("parts"))) {
        FutureStep::Return(Polled::Ready(Ok((
            "parts",
            PhpStream::WithRequestBody { request_body_future, response_body_stream },
        )))) => assert_eq!((request_body_future, response_body_stream), ("q", "r")),
        other => panic!("{other:?}"),
    }
    assert!(matches!(future, PhpFuture::Done));
}

#[test]
fn missing_head_is_an_error() {
    for mut future in [with_body(), without_body()] {
        assert!(matches!(
            future.on_head::<()>(Polled::Ready(Err(()))),
            FutureStep::Return(Polled::Ready(Err(PhpError::ResponseHeadClosed)))
        ));
        assert!(!matches!(future, PhpFuture::Done));
    }
}

#[test]
fn request_body_is_streamed_while_the_head_is_awaited() {
    let mut future = without_body();
    assert!(matches!(future.on_head::<()>(Polled::Pending), FutureStep::Return(Polled::Pending)));
    let mut future = with_body();
    assert!(matches!(future.on_head::<()>(Polled::Pending), FutureStep::PollBody));
    assert!(matches!(future.on_body::<()>(Polled::Pending), Polled::Pending));
    assert!(matches!(future, PhpFuture::WithRequestBody { .. }));
    assert!(matches!(
        future.on_body::<()>(Polled::Ready(Err(PhpError::Hyper(4)))),
        Polled::Ready(Err(PhpError::Hyper(4)))
    ));
    assert!(matches!(future.on_body::<()>(Polled::Ready(Ok(()))), Polled::Pending));
    assert!(matches!(
        future,
        PhpFuture::WithoutRequestBody { response_head_rx: "h", response_body_rx: "r" }
    ));
}

#[test]
fn response_chunks_go_out() {
    let mut stream: Stream =
        PhpStream::WithRequestBody { request_body_future: "q", response_body_stream: "r" };
    assert_eq!(stream.size_hint((3, Some(4))), (3, Some(4)));
    match stream.on_chunk::<u8>(Polled::Ready(Some("data".into()))) {
        StreamStep::Return(Polled::Ready(Some(Ok(chunk)))) => assert_eq!(chunk, Bytes::from("data")),
        other => panic!("{other:?}"),
    }
    assert!(matches!(stream.on_chunk::<u8>(Polled::Pending), StreamStep::PollBody));
    assert!(matches!(stream.on_body::<u8>(Polled::Pending), Polled::Pending));
    assert!(matches!(
        stream.on_body::<u8>(Polled::Ready(Err(PhpError::RequestBodyClosed))),
        Polled::Ready(Some(Err(PhpError::RequestBodyClosed)))
    ));
    assert!(matches!(stream.on_body::<u8>(Polled::Ready(Ok(()))), Polled::Pending));
    assert!(matches!(stream, PhpStream::WithoutRequestBody { response_body_stream: "r" }));
    assert!(matches!(stream.on_chunk::<u8>(Polled::Pending), StreamStep::Return(Polled::Pending)));
    assert!(matches!(
        stream.on_chunk::<u8>(Polled::Ready(None)),
        StreamStep::Return(Polled::Ready(None))
    ));
    assert!(matches!(stream, PhpStream::Done));
    assert_eq!(stream.size_hint((3, Some(4))), (0, None));
}

#[test]
fn client_is_given_what_the_worker_delivers() {
    let mut stream: Stream =
        PhpStream::WithRequestBody { request_body_future: "q", response_body_stream: "r" };
    let mut given = Vec::new();
    for data in [Some("a"), None, Some("bc"), None, None, Some("a"), None] {
        let chunk = match data {
            Some(data) => Polled::Ready(Some(Bytes::from(data))),
            None => Polled::Pending,
        };
        match stream.on_chunk::<u8>(chunk) {
            StreamStep::Return(Polled::Ready(Some(Ok(chunk)))) => given.push(chunk),
            StreamStep::Return(Polled::Pending) => assert!(given.len() > 1),
            StreamStep::PollBody => {
                let body = if given.len() == 1 { Polled::Pending } else { Polled::Ready(Ok(())) };
                assert!(matches!(stream.on_body::<u8>(body), Polled::Pending));
            }
            other => panic!("{other:?}"),
        }
    }
    assert_eq!(given, ["a", "bc", "a"]);
    assert!(matches!(stream, PhpStream::WithoutRequestBody { .. }));
}

#[test]
fn end_of_the_response_ends_the_stream() {
    let mut stream: Stream =
        PhpStream::WithRequestBody { request_body_future: "q", response_body_stream: "r" };
    assert!(matches!(
        stream.on_chunk::<u8>(Polled::Ready(None)),
        StreamStep::Return(Polled::Ready(None))
    ));
    assert!(matches!(stream, PhpStream::Done));
}

#[test]
fn worker_is_sent_what_arrived() {
    let mut body = RequestBodyFuture::new("body", "tx");
    let mut frames: Vec<Option<BodyFrame>> = vec![
        Some(BodyFrame::Data("a".into())),
        Some(BodyFrame::Data("bc".into())),
        Some(BodyFrame::Trailers),
        None,
    ];
    let mut sent: Vec<Bytes> = Vec::new();
    loop {
        let step: BodyStep<u8> = match body.next_poll() {
            BodyPoll::Frame => body.on_frame(Polled::Ready(frames.remove(0).map(Ok))),
            BodyPoll::Place => body.on_place(Polled::Ready(Ok(()))),
        };
        match step {
            BodyStep::Again => {}
            BodyStep::Send(chunk) => sent.push(chunk),
            BodyStep::Close => break,
            BodyStep::Return(answer) => panic!("{answer:?}"),
        }
    }
    assert!(matches!(
        RequestBodyFuture::<(), ()>::on_closed::<u8>(),
        BodyStep::Return(Polled::Ready(Ok(())))
    ));
    assert_eq!(sent, [Bytes::from("a"), Bytes::from("bc")]);
    assert_eq!((body.request_body, body.request_body_tx), ("body", "tx"));
}

#[test]
fn request_body_waits_and_fails() {
    let mut body = RequestBodyFuture::new((), ());
    assert!(matches!(body.on_frame::<u8>(Polled::Pending), BodyStep::Return(Polled::Pending)));
    assert!(matches!(
        body.on_frame::<u8>(Polled::Ready(Some(Err(9)))),
        BodyStep::Return(Polled::Ready(Err(PhpError::Hyper(9))))
    ));
    assert_eq!(body.next_poll(), BodyPoll::Frame);
    assert!(matches!(
        body.on_frame::<u8>(Polled::Ready(Some(Ok(BodyFrame::Data("x".into()))))),
        BodyStep::Again
    ));
    assert_eq!(body.next_poll(), BodyPoll::Place);
    assert!(matches!(body.on_place::<u8>(Polled::Pending), BodyStep::Return(Polled::Pending)));
    assert!(matches!(
        body.on_place::<u8>(Polled::Ready(Err(()))),
        BodyStep::Return(Polled::Ready(Err(PhpError::RequestBodyClosed)))
    ));
    assert_eq!(body.current_request_body_chunk, Some("x".into()));
    type Body = RequestBodyFuture<(), ()>;
    assert!(matches!(Body::on_sent::<u8>(Ok(())), BodyStep::Again));
    assert!(matches!(
        Body::on_sent::<u8>(Err(())),
        BodyStep::Return(Polled::Ready(Err(PhpError::RequestBodyClosed)))
    ));
}

#[test]
fn worker_reports_its_end() {
    assert_eq!(worker_report(4, JobEvent::Served), None);
    assert_eq!(worker_report(4, JobEvent::Broken), Some(WorkerEvent::ErrorExit(4)));
    assert_eq!(worker_report(4, JobEvent::Closed), Some(WorkerEvent::Exit(4)));
}

/// The reports of a worker that meets `events` until it ends.
fn reports(events: &[JobEvent]) -> Vec<WorkerEvent> {
    let mut reports = Vec::new();
    for event in events {
        if let Some(report) = worker_report(4, *event) {
            reports.push(report);
            break;
        }
    }
    reports
}

#[test]
fn worker_goes_on_while_it_serves() {
    assert!(reports(&[]).is_empty());
    assert!(reports(&[JobEvent::Served; 5]).is_empty());
}

#[test]
fn worker_reports_its_first_end() {
    let (served, broken, closed) = (JobEvent::Served, JobEvent::Broken, JobEvent::Closed);
    assert_eq!(reports(&[served, broken, closed]), [WorkerEvent::ErrorExit(4)]);
    assert_eq!(reports(&[served, served, closed, broken]), [WorkerEvent::Exit(4)]);
}

#[test]
fn all_workers_are_started() {
    let mut supervisor = WorkerSupervisor::new(3);
    supervisor.register(0, "early".to_string());
    supervisor.start_all(|worker_id| format!("worker {worker_id}"));
    assert_eq!((supervisor.started, supervisor.workers.len()), (3, 3));
    assert_eq!(supervisor.workers[&0], "early");
    assert_eq!(supervisor.workers[&1], "worker 1");
    assert_eq!(supervisor.workers[&2], "worker 2");
    assert_eq!(supervisor.next_to_start(), None);
}

fn started(count: usize) -> WorkerSupervisor<String> {
    let mut supervisor = WorkerSupervisor::new(count);
    while let Some(worker_id) = supervisor.next_to_start() {
        supervisor.register(worker_id, format!("worker {worker_id}"));
    }
    supervisor
}

#[test]
fn workers_are_started() {
    let supervisor = started(3);
    let mut numbers: Vec<usize> = supervisor.workers.keys().copied().collect();
    numbers.sort();
    assert_eq!(numbers, [0, 1, 2]);
    assert_eq!(supervisor.next_to_start(), None);
    assert!(started(0).workers.is_empty());
}

#[test]
fn only_broken_workers_are_replaced() {
    let mut supervisor = started(2);
    match supervisor.handle(WorkerEvent::ErrorExit(1)) {
        SupervisorAction::Restart { worker_id, ended } => {
            assert_eq!((worker_id, ended.as_deref()), (1, Some("worker 1")));
            supervisor.register(worker_id, "another".to_string());
        }
        other => panic!("{other:?}"),
    }
    assert_eq!(supervisor.workers.len(), 2);
    assert_eq!(supervisor.workers[&1], "another");
    assert_eq!(supervisor.next_to_start(), None);
}

#[test]
fn supervisor_stops_when_all_have_retired() {
    let mut supervisor = started(2);
    match supervisor.handle(WorkerEvent::Exit(0)) {
        SupervisorAction::Reap { ended, stop } => {
            assert_eq!((ended.as_deref(), stop), (Some("worker 0"), false))
        }
        other => panic!("{other:?}"),
    }
    match supervisor.handle(WorkerEvent::Exit(0)) {
        SupervisorAction::Reap { ended, stop } => assert_eq!((ended, stop), (None, false)),
        other => panic!("{other:?}"),
    }
    match supervisor.handle(WorkerEvent::Exit(1)) {
        SupervisorAction::Reap { ended, stop } => {
            assert_eq!((ended.as_deref(), stop), (Some("worker 1"), true))
        }
        other => panic!("{other:?}"),
    }
}

#[test]
fn unknown_worker_is_restarted_too() {
    let mut supervisor = started(1);
    match supervisor.handle(WorkerEvent::ErrorExit(7)) {
        SupervisorAction::Restart { worker_id, ended } => assert_eq!((worker_id, ended), (7, None)),
        other => panic!("{other:?}"),
    }
}
