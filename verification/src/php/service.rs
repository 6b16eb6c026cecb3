//! The way of a request from the connection to a worker and of the response back.
//!
//! The transport is polled elsewhere. What is polled and what the answers lead to is decided
//! here.
use crate::net::SocketAddr;
use crate::php::context::RequestHead;
use crate::php::Job;
use vstd::pervasive::unreached;
use vstd::prelude::*;

verus! {

/// The answer to a poll.
#[derive(Debug)]
pub enum Polled<T> {
    Ready(T),
    Pending,
}

/// Why a request could not be answered. `E` is the error of the transport.
#[derive(Debug)]
pub enum PhpError<E> {
    /// The transport failed.
    Hyper(E),
    /// The workers take no jobs any more.
    JobChannelClosed,
    /// The worker takes no request body any more.
    RequestBodyClosed,
    /// The worker ended without a response head.
    ResponseHeadClosed,
}

/// The entry to the workers for the requests of one connection. `S` sends jobs.
#[derive(Clone, Debug)]
pub struct PhpService<S> {
    pub sender: S,
    pub peer_addr: SocketAddr,
}

/// A response that is being waited for. `Q` streams the request body to the worker, `H`
/// receives the response head and `R` the response body.
#[derive(Debug)]
pub enum PhpFuture<Q, H, R, E> {
    /// The request body is still being streamed to the worker.
    WithRequestBody { request_body_future: Q, response_head_rx: H, response_body_rx: R },
    /// There is no request body, or none any more.
    WithoutRequestBody { response_head_rx: H, response_body_rx: R },
    /// There will be no response.
    Failed(PhpError<E>),
    /// The answer was given.
    Done,
}

/// A response body that is being streamed.
#[derive(Debug)]
pub enum PhpStream<Q, R> {
    /// The request body is still being streamed to the worker.
    WithRequestBody { request_body_future: Q, response_body_stream: R },
    /// There is no request body, or none any more.
    WithoutRequestBody { response_body_stream: R },
    /// The response body is at its end.
    Done,
}

impl<S> PhpService<S> {
    /// The entry to the workers for requests from `peer_addr`.
    pub fn new(sender: S, peer_addr: SocketAddr) -> (service: PhpService<S>)
        ensures
            service.sender == sender,
            service.peer_addr == peer_addr,
    {
        PhpService { sender, peer_addr }
    }

    /// Whether a job can be sent, given whether a place was reserved for one.
    pub fn poll_ready<E>(reserved: Polled<Result<(), ()>>) -> (ready: Polled<
        Result<(), PhpError<E>>,
    >)
        ensures
            ready == match reserved {
                Polled::Pending => Polled::<Result<(), PhpError<E>>>::Pending,
                Polled::Ready(Ok(_)) => Polled::Ready(Ok(())),
                Polled::Ready(Err(_)) => Polled::Ready(Err(PhpError::JobChannelClosed)),
            },
    {
        match reserved {
            Polled::Pending => Polled::Pending,
            Polled::Ready(Ok(_)) => Polled::Ready(Ok(())),
            Polled::Ready(Err(_)) => Polled::Ready(Err(PhpError::JobChannelClosed)),
        }
    }

    /// Makes the job for a request and the future of its response. `request_body` holds the
    /// two ends of the way of the request body, if the request has one.
    pub fn call<B, Q, H, HR, R, RR, E>(
        &self,
        request_head: RequestHead,
        request_body: Option<(B, Q)>,
        response_head: (H, HR),
        response_body: (R, RR),
    ) -> (planned: (Job<B, H, R>, PhpFuture<Q, HR, RR, E>))
        ensures
            ({
                let (job, future) = planned;
                &&& job.request_head.method == request_head.method
                &&& job.request_head.uri == request_head.uri
                &&& job.request_head.version == request_head.version
                &&& job.request_head.headers == request_head.headers
                &&& job.request_head.peer == Some(self.peer_addr)
                &&& job.response_head_tx == response_head.0
                &&& job.response_body_tx == response_body.0
                &&& match request_body {
                    None => {
                        &&& job.request_body_rx is None
                        &&& future == PhpFuture::<Q, HR, RR, E>::WithoutRequestBody {
                            response_head_rx: response_head.1,
                            response_body_rx: response_body.1,
                        }
                    },
                    Some((request_body_rx, request_body_future)) => {
                        &&& job.request_body_rx == Some(request_body_rx)
                        &&& future == PhpFuture::<Q, HR, RR, E>::WithRequestBody {
                            request_body_future,
                            response_head_rx: response_head.1,
                            response_body_rx: response_body.1,
                        }
                    },
                }
            }),
    {
        let mut request_head: RequestHead = request_head;
        request_head.peer = Some(self.peer_addr);
        let (response_head_tx, response_head_rx) = response_head;
        let (response_body_tx, response_body_rx) = response_body;
        match request_body {
            None => (
                Job { request_head, request_body_rx: None, response_head_tx, response_body_tx },
                PhpFuture::WithoutRequestBody { response_head_rx, response_body_rx },
            ),
            Some((request_body_rx, request_body_future)) => (
                Job {
                    request_head,
                    request_body_rx: Some(request_body_rx),
                    response_head_tx,
                    response_body_tx,
                },
                PhpFuture::WithRequestBody {
                    request_body_future,
                    response_head_rx,
                    response_body_rx,
                },
            ),
        }
    }
}

/// What follows when the response head was polled.
#[derive(Debug)]
pub enum FutureStep<P, Q, R, E> {
    /// The future answers.
    Return(Polled<Result<(P, PhpStream<Q, R>), PhpError<E>>>),
    /// The request body is to be polled.
    PollBody,
}

impl<Q, H, R, E> PhpFuture<Q, H, R, E> {
    /// The future once its job was handed over, or was not because nobody takes jobs.
    pub fn enqueued(self, accepted: bool) -> (future: Self)
        ensures
            future == if accepted {
                self
            } else {
                PhpFuture::Failed(PhpError::JobChannelClosed)
            },
    {
        if accepted {
            self
        } else {
            PhpFuture::Failed(PhpError::JobChannelClosed)
        }
    }

    /// Whether a response head is waited for.
    pub open spec fn awaits_head(self) -> bool {
        self is WithRequestBody || self is WithoutRequestBody
    }

    /// Forgets the request body.
    fn transition_to_without_request_body(&mut self)
        requires
            *old(self) is WithRequestBody,
        ensures
            *final(self) == (PhpFuture::<Q, H, R, E>::WithoutRequestBody {
                response_head_rx: (*old(self))->WithRequestBody_response_head_rx,
                response_body_rx: (*old(self))->WithRequestBody_response_body_rx,
            }),
    {
        match self.transition_to_done() {
            PhpFuture::WithRequestBody { response_head_rx, response_body_rx, .. } => {
                *self = PhpFuture::WithoutRequestBody { response_head_rx, response_body_rx };
            },
            _ => unreached(),
        }
    }

    /// Gives up the state for that of a future that has answered.
    fn transition_to_done(&mut self) -> (state: Self)
        ensures
            state == *old(self),
            *final(self) == PhpFuture::<Q, H, R, E>::Done,
    {
        let mut state: Self = PhpFuture::Done;
        core::mem::swap(self, &mut state);
        state
    }

    /// The answer of a future without a response.
    pub fn take_error(&mut self) -> (error: PhpError<E>)
        requires
            *old(self) is Failed,
        ensures
            error == (*old(self))->Failed_0,
            *final(self) == PhpFuture::<Q, H, R, E>::Done,
    {
        match self.transition_to_done() {
            PhpFuture::Failed(error) => error,
            _ => unreached(),
        }
    }

    /// Takes note of the response head. Once it is there, the response goes out with it and
    /// the body follows as a stream, whether or not the request body is through. Before that,
    /// the request body is streamed on.
    pub fn on_head<P>(&mut self, head: Polled<Result<P, ()>>) -> (step: FutureStep<P, Q, R, E>)
        requires
            old(self).awaits_head(),
        ensures
            match head {
                Polled::Ready(Ok(parts)) => {
                    &&& *final(self) == PhpFuture::<Q, H, R, E>::Done
                    &&& step == FutureStep::Return(
                        Polled::Ready(
                            Ok::<(P, PhpStream<Q, R>), PhpError<E>>(
                                (
                                    parts,
                                    match *old(self) {
                                        PhpFuture::WithRequestBody {
                                            request_body_future,
                                            response_body_rx,
                                            ..
                                        } => PhpStream::WithRequestBody {
                                            request_body_future,
                                            response_body_stream: response_body_rx,
                                        },
                                        PhpFuture::WithoutRequestBody { response_body_rx, .. } =>
                                            PhpStream::WithoutRequestBody {
                                            response_body_stream: response_body_rx,
                                        },
                                        _ => PhpStream::Done,
                                    },
                                ),
                            ),
                        ),
                    )
                },
                Polled::Ready(Err(_)) => {
                    &&& *final(self) == *old(self)
                    &&& step == FutureStep::Return(
                        Polled::Ready(
                            Err::<(P, PhpStream<Q, R>), PhpError<E>>(PhpError::ResponseHeadClosed),
                        ),
                    )
                },
                Polled::Pending => {
                    &&& *final(self) == *old(self)
                    &&& step == if *old(self) is WithRequestBody {
                        FutureStep::<P, Q, R, E>::PollBody
                    } else {
                        FutureStep::Return(Polled::Pending)
                    }
                },
            },
    {
        match head {
            Polled::Ready(Ok(parts)) => {
                let stream: PhpStream<Q, R> = match self.transition_to_done() {
                    PhpFuture::WithRequestBody { request_body_future, response_body_rx, .. } =>
                        PhpStream::WithRequestBody {
                        request_body_future,
                        response_body_stream: response_body_rx,
                    },
                    PhpFuture::WithoutRequestBody { response_body_rx, .. } =>
                        PhpStream::WithoutRequestBody { response_body_stream: response_body_rx },
                    _ => unreached(),
                };
                FutureStep::Return(Polled::Ready(Ok((parts, stream))))
            },
            Polled::Ready(Err(_)) => FutureStep::Return(
                Polled::Ready(Err(PhpError::ResponseHeadClosed)),
            ),
            Polled::Pending => match self {
                PhpFuture::WithRequestBody { .. } => FutureStep::PollBody,
                _ => FutureStep::Return(Polled::Pending),
            },
        }
    }

    /// Takes note of how far the request body has come. The response head is still waited for
    /// when all of it is through.
    pub fn on_body<P>(&mut self, body: Polled<Result<(), PhpError<E>>>) -> (answer: Polled<
        Result<(P, PhpStream<Q, R>), PhpError<E>>,
    >)
        requires
            *old(self) is WithRequestBody,
        ensures
            match body {
                Polled::Pending => {
                    &&& answer == Polled::<Result<(P, PhpStream<Q, R>), PhpError<E>>>::Pending
                    &&& *final(self) == *old(self)
                },
                Polled::Ready(Ok(_)) => {
                    &&& answer == Polled::<Result<(P, PhpStream<Q, R>), PhpError<E>>>::Pending
                    &&& *final(self) == (PhpFuture::<Q, H, R, E>::WithoutRequestBody {
                        response_head_rx: (*old(self))->WithRequestBody_response_head_rx,
                        response_body_rx: (*old(self))->WithRequestBody_response_body_rx,
                    })
                },
                Polled::Ready(Err(error)) => {
                    &&& answer == Polled::Ready(
                        Err::<(P, PhpStream<Q, R>), PhpError<E>>(error),
                    )
                    &&& *final(self) == *old(self)
                },
            },
    {
        match body {
            Polled::Pending => Polled::Pending,
            Polled::Ready(Ok(_)) => {
                self.transition_to_without_request_body();
                Polled::Pending
            },
            Polled::Ready(Err(error)) => Polled::Ready(Err(error)),
        }
    }
}

/// What follows when the response body was polled.
#[derive(Debug)]
pub enum StreamStep<E> {
    /// The stream answers.
    Return(Polled<Option<Result<bytes::Bytes, PhpError<E>>>>),
    /// The request body is to be polled.
    PollBody,
}

/// How far a response body has come.
#[derive(Clone, Copy, Debug, PartialEq, Eq, Structural)]
pub enum StreamPhase {
    /// The request body is still being streamed to the worker.
    WithRequestBody,
    /// There is no request body, or none any more.
    WithoutRequestBody,
    /// The response body is at its end.
    Done,
}

/// The phase after the response body was polled: its end ends the stream.
pub open spec fn phase_after_chunk(
    phase: StreamPhase,
    chunk: Polled<Option<bytes::Bytes>>,
) -> StreamPhase {
    match chunk {
        Polled::Ready(None) => StreamPhase::Done,
        _ => phase,
    }
}

/// The phase after the request body was polled.
pub open spec fn phase_after_body<E>(
    phase: StreamPhase,
    body: Polled<Result<(), PhpError<E>>>,
) -> StreamPhase {
    match body {
        Polled::Ready(Ok(_)) => StreamPhase::WithoutRequestBody,
        _ => phase,
    }
}

/// What follows when the response body was polled in a phase.
pub open spec fn chunk_step<E>(
    phase: StreamPhase,
    chunk: Polled<Option<bytes::Bytes>>,
) -> StreamStep<E> {
    match chunk {
        Polled::Ready(Some(data)) => StreamStep::Return(Polled::Ready(Some(Ok(data)))),
        Polled::Ready(None) => StreamStep::Return(Polled::Ready(None)),
        Polled::Pending => if phase == StreamPhase::WithRequestBody {
            StreamStep::PollBody
        } else {
            StreamStep::Return(Polled::Pending)
        },
    }
}

/// The answer of the stream when the request body was polled.
pub open spec fn body_answer<E>(body: Polled<Result<(), PhpError<E>>>) -> Polled<
    Option<Result<bytes::Bytes, PhpError<E>>>,
> {
    match body {
        Polled::Ready(Err(error)) => Polled::Ready(Some(Err(error))),
        _ => Polled::Pending,
    }
}

impl<Q, R> PhpStream<Q, R> {
    /// How far the response body has come.
    pub open spec fn phase(self) -> StreamPhase {
        match self {
            PhpStream::WithRequestBody { .. } => StreamPhase::WithRequestBody,
            PhpStream::WithoutRequestBody { .. } => StreamPhase::WithoutRequestBody,
            PhpStream::Done => StreamPhase::Done,
        }
    }

    /// Forgets the request body.
    fn transition_to_without_request_body(&mut self)
        requires
            *old(self) is WithRequestBody,
        ensures
            *final(self) == (PhpStream::<Q, R>::WithoutRequestBody {
                response_body_stream: (*old(self))->WithRequestBody_response_body_stream,
            }),
    {
        let mut state: Self = PhpStream::Done;
        core::mem::swap(self, &mut state);
        match state {
            PhpStream::WithRequestBody { response_body_stream, .. } => {
                *self = PhpStream::WithoutRequestBody { response_body_stream };
            },
            _ => unreached(),
        }
    }

    /// Gives up both bodies.
    fn transition_to_done(&mut self)
        ensures
            *final(self) == PhpStream::<Q, R>::Done,
    {
        *self = PhpStream::Done;
    }

    /// Takes note of the response body: chunks go out, and its end ends the stream, whether or
    /// not the request body is through. Between chunks, the request body is streamed on.
    pub fn on_chunk<E>(&mut self, chunk: Polled<Option<bytes::Bytes>>) -> (step: StreamStep<E>)
        requires
            *old(self) !is Done,
        ensures
            step == chunk_step::<E>(old(self).phase(), chunk),
            final(self).phase() == phase_after_chunk(old(self).phase(), chunk),
            *final(self) !is Done ==> *final(self) == *old(self),
    {
        match chunk {
            Polled::Ready(Some(data)) => StreamStep::Return(Polled::Ready(Some(Ok(data)))),
            Polled::Ready(None) => {
                self.transition_to_done();
                StreamStep::Return(Polled::Ready(None))
            },
            Polled::Pending => match self {
                PhpStream::WithRequestBody { .. } => StreamStep::PollBody,
                _ => StreamStep::Return(Polled::Pending),
            },
        }
    }

    /// Takes note of how far the request body has come.
    pub fn on_body<E>(&mut self, body: Polled<Result<(), PhpError<E>>>) -> (answer: Polled<
        Option<Result<bytes::Bytes, PhpError<E>>>,
    >)
        requires
            *old(self) is WithRequestBody,
        ensures
            answer == body_answer(body),
            final(self).phase() == phase_after_body(old(self).phase(), body),
            match *final(self) {
                PhpStream::WithRequestBody { .. } => *final(self) == *old(self),
                PhpStream::WithoutRequestBody { response_body_stream } => response_body_stream
                    == (*old(self))->WithRequestBody_response_body_stream,
                PhpStream::Done => false,
            },
    {
        match body {
            Polled::Pending => Polled::Pending,
            Polled::Ready(Ok(_)) => {
                self.transition_to_without_request_body();
                Polled::Pending
            },
            Polled::Ready(Err(error)) => Polled::Ready(Some(Err(error))),
        }
    }

    /// How many chunks are to come: what the receiver of the response body says, until the
    /// stream is done.
    pub fn size_hint(&self, receiver: (usize, Option<usize>)) -> (hint: (usize, Option<usize>))
        ensures
            hint == if *self is Done {
                (0usize, None::<usize>)
            } else {
                receiver
            },
    {
        match self {
            PhpStream::Done => (0, None),
            _ => receiver,
        }
    }
}

/// A request body on its way to the worker. `S` is where it comes from, `T` where it goes.
#[derive(Debug)]
pub struct RequestBodyFuture<S, T> {
    pub request_body: S,
    pub request_body_tx: T,
    /// The chunk that waits for a place in the channel to the worker.
    pub current_request_body_chunk: Option<bytes::Bytes>,
}

/// A frame of a request body.
#[derive(Debug)]
pub enum BodyFrame {
    Data(bytes::Bytes),
    Trailers,
}

/// What is to be polled to bring the request body on.
#[derive(Clone, Copy, Debug, PartialEq, Eq, Structural)]
pub enum BodyPoll {
    /// The next frame of the body.
    Frame,
    /// A place in the channel to the worker.
    Place,
}

/// What follows when the request body was brought on.
#[derive(Debug)]
pub enum BodyStep<E> {
    /// Go on.
    Again,
    /// Send a chunk to the worker.
    Send(bytes::Bytes),
    /// Close the channel to the worker: the body is through.
    Close,
    /// The future answers.
    Return(Polled<Result<(), PhpError<E>>>),
}

impl<S, T> RequestBodyFuture<S, T> {
    /// Whether nothing but the waiting chunk differs.
    pub open spec fn same_ends(self, other: Self) -> bool {
        self.request_body == other.request_body && self.request_body_tx == other.request_body_tx
    }

    /// A request body of which nothing has arrived.
    pub fn new(request_body: S, request_body_tx: T) -> (future: Self)
        ensures
            future.request_body == request_body,
            future.request_body_tx == request_body_tx,
            future.current_request_body_chunk is None,
    {
        RequestBodyFuture { request_body, request_body_tx, current_request_body_chunk: None }
    }

    /// What is to be polled: the body while no chunk waits, else the channel.
    pub fn next_poll(&self) -> (poll: BodyPoll)
        ensures
            poll == if self.current_request_body_chunk is None {
                BodyPoll::Frame
            } else {
                BodyPoll::Place
            },
    {
        match self.current_request_body_chunk {
            None => BodyPoll::Frame,
            Some(_) => BodyPoll::Place,
        }
    }

    /// Takes note of the next frame. Trailers are passed over.
    pub fn on_frame<E>(&mut self, frame: Polled<Option<Result<BodyFrame, E>>>) -> (step: BodyStep<
        E,
    >)
        requires
            old(self).current_request_body_chunk is None,
        ensures
            final(self).same_ends(*old(self)),
            final(self).current_request_body_chunk == chunk_after(
                None,
                BodyEvent::Frame(frame),
            ),
            step == step_after(None, BodyEvent::Frame(frame)),
    {
        match frame {
            Polled::Pending => BodyStep::Return(Polled::Pending),
            Polled::Ready(None) => BodyStep::Close,
            Polled::Ready(Some(Ok(BodyFrame::Data(data)))) => {
                self.current_request_body_chunk = Some(data);
                BodyStep::Again
            },
            Polled::Ready(Some(Ok(BodyFrame::Trailers))) => BodyStep::Again,
            Polled::Ready(Some(Err(error))) => BodyStep::Return(
                Polled::Ready(Err(PhpError::Hyper(error))),
            ),
        }
    }

    /// Takes note of whether there is a place in the channel for the waiting chunk.
    pub fn on_place<E>(&mut self, place: Polled<Result<(), ()>>) -> (step: BodyStep<E>)
        requires
            old(self).current_request_body_chunk is Some,
        ensures
            final(self).same_ends(*old(self)),
            final(self).current_request_body_chunk == chunk_after(
                old(self).current_request_body_chunk,
                BodyEvent::<E>::Place(place),
            ),
            step == step_after(
                old(self).current_request_body_chunk,
                BodyEvent::<E>::Place(place),
            ),
    {
        match place {
            Polled::Pending => BodyStep::Return(Polled::Pending),
            Polled::Ready(Err(_)) => BodyStep::Return(
                Polled::Ready(Err(PhpError::RequestBodyClosed)),
            ),
            Polled::Ready(Ok(_)) => match self.current_request_body_chunk.take() {
                Some(chunk) => BodyStep::Send(chunk),
                None => unreached(),
            },
        }
    }

    /// What follows when a chunk was sent, or could not be.
    pub fn on_sent<E>(sent: Result<(), ()>) -> (step: BodyStep<E>)
        ensures
            step == match sent {
                Ok(_) => BodyStep::<E>::Again,
                Err(_) => BodyStep::Return(Polled::Ready(Err(PhpError::RequestBodyClosed))),
            },
    {
        match sent {
            Ok(_) => BodyStep::Again,
            Err(_) => BodyStep::Return(Polled::Ready(Err(PhpError::RequestBodyClosed))),
        }
    }

    /// What follows when the channel to the worker was closed: the body is through.
    pub fn on_closed<E>() -> (step: BodyStep<E>)
        ensures
            step == BodyStep::<E>::Return(Polled::Ready(Ok(()))),
    {
        BodyStep::Return(Polled::Ready(Ok(())))
    }
}

/// The answer to a poll that brings the request body on.
pub enum BodyEvent<E> {
    /// The next frame of the body was polled.
    Frame(Polled<Option<Result<BodyFrame, E>>>),
    /// A place in the channel to the worker was polled.
    Place(Polled<Result<(), ()>>),
}

/// The chunk that waits after a poll, given the one that waited before.
pub open spec fn chunk_after<E>(waiting: Option<bytes::Bytes>, event: BodyEvent<E>) -> Option<
    bytes::Bytes,
> {
    match event {
        BodyEvent::Frame(Polled::Ready(Some(Ok(BodyFrame::Data(data))))) => Some(data),
        BodyEvent::Place(Polled::Ready(Ok(_))) => None,
        _ => waiting,
    }
}

/// What follows from a poll, given the chunk that waited before.
pub open spec fn step_after<E>(waiting: Option<bytes::Bytes>, event: BodyEvent<E>) -> BodyStep<E> {
    match event {
        BodyEvent::Frame(frame) => match frame {
            Polled::Pending => BodyStep::Return(Polled::Pending),
            Polled::Ready(None) => BodyStep::Close,
            Polled::Ready(Some(Ok(_))) => BodyStep::Again,
            Polled::Ready(Some(Err(error))) => BodyStep::Return(
                Polled::Ready(Err(PhpError::Hyper(error))),
            ),
        },
        BodyEvent::Place(place) => match place {
            Polled::Pending => BodyStep::Return(Polled::Pending),
            Polled::Ready(Err(_)) => BodyStep::Return(
                Polled::Ready(Err(PhpError::RequestBodyClosed)),
            ),
            Polled::Ready(Ok(_)) => BodyStep::Send(waiting->0),
        },
    }
}

/// The chunk that waits after some polls.
pub open spec fn waiting_after<E>(events: Seq<BodyEvent<E>>) -> Option<bytes::Bytes>
    decreases events.len(),
{
    if events.len() == 0 {
        None
    } else {
        chunk_after(waiting_after(events.drop_last()), events.last())
    }
}

/// Whether frames were polled only while no chunk waited, and places only while one did.
pub open spec fn is_orderly<E>(events: Seq<BodyEvent<E>>) -> bool
    decreases events.len(),
{
    events.len() > 0 ==> {
        &&& is_orderly(events.drop_last())
        &&& (events.last() is Frame <==> waiting_after(events.drop_last()) is None)
    }
}

/// The chunks that were sent to the worker.
pub open spec fn sent<E>(events: Seq<BodyEvent<E>>) -> Seq<bytes::Bytes>
    decreases events.len(),
{
    if events.len() == 0 {
        Seq::empty()
    } else {
        match step_after(waiting_after(events.drop_last()), events.last()) {
            BodyStep::Send(chunk) => sent(events.drop_last()).push(chunk),
            _ => sent(events.drop_last()),
        }
    }
}

/// The data frames that arrived.
pub open spec fn arrived<E>(events: Seq<BodyEvent<E>>) -> Seq<bytes::Bytes>
    decreases events.len(),
{
    if events.len() == 0 {
        Seq::empty()
    } else {
        match events.last() {
            BodyEvent::Frame(Polled::Ready(Some(Ok(BodyFrame::Data(data))))) => arrived(
                events.drop_last(),
            ).push(data),
            _ => arrived(events.drop_last()),
        }
    }
}

/// The worker is sent the data frames in the order of their arrival, none twice and none left
/// out; no more than one chunk waits to be sent.
pub proof fn law_worker_is_sent_what_arrived<E>(events: Seq<BodyEvent<E>>)
    requires
        is_orderly(events),
    ensures
        arrived(events) == sent(events) + match waiting_after(events) {
            Some(chunk) => seq![chunk],
            None => Seq::empty(),
        },
    decreases events.len(),
{
    if events.len() > 0 {
        law_worker_is_sent_what_arrived(events.drop_last());
    }
    let with_waiting = sent(events) + match waiting_after(events) {
        Some(chunk) => seq![chunk],
        None => Seq::empty(),
    };
    assert(arrived(events) =~= with_waiting);
}

/// What one poll of the stream finds. The request body is looked at only when the response
/// body has nothing to give.
pub struct StreamPoll<E> {
    pub chunk: Polled<Option<bytes::Bytes>>,
    pub body: Polled<Result<(), PhpError<E>>>,
}

/// The phase after one poll of the stream.
pub open spec fn phase_after<E>(phase: StreamPhase, poll: StreamPoll<E>) -> StreamPhase {
    match chunk_step::<E>(phase, poll.chunk) {
        StreamStep::Return(_) => phase_after_chunk(phase, poll.chunk),
        StreamStep::PollBody => phase_after_body(phase_after_chunk(phase, poll.chunk), poll.body),
    }
}

/// The answer to one poll of the stream.
pub open spec fn stream_answer<E>(phase: StreamPhase, poll: StreamPoll<E>) -> Polled<
    Option<Result<bytes::Bytes, PhpError<E>>>,
> {
    match chunk_step::<E>(phase, poll.chunk) {
        StreamStep::Return(answer) => answer,
        StreamStep::PollBody => body_answer(poll.body),
    }
}

/// The phase after some polls of a stream that started in `phase`.
pub open spec fn phase_through<E>(phase: StreamPhase, polls: Seq<StreamPoll<E>>) -> StreamPhase
    decreases polls.len(),
{
    if polls.len() == 0 {
        phase
    } else {
        phase_after(phase_through(phase, polls.drop_last()), polls.last())
    }
}

/// The chunks that the worker has delivered.
pub open spec fn delivered<E>(polls: Seq<StreamPoll<E>>) -> Seq<bytes::Bytes>
    decreases polls.len(),
{
    if polls.len() == 0 {
        Seq::empty()
    } else {
        match polls.last().chunk {
            Polled::Ready(Some(data)) => delivered(polls.drop_last()).push(data),
            _ => delivered(polls.drop_last()),
        }
    }
}

/// The chunks that the stream has given out.
pub open spec fn given_out<E>(phase: StreamPhase, polls: Seq<StreamPoll<E>>) -> Seq<bytes::Bytes>
    decreases polls.len(),
{
    if polls.len() == 0 {
        Seq::empty()
    } else {
        let before = polls.drop_last();
        match stream_answer(phase_through(phase, before), polls.last()) {
            Polled::Ready(Some(Ok(data))) => given_out(phase, before).push(data),
            _ => given_out(phase, before),
        }
    }
}

/// The client is given what the worker delivers, chunk by chunk in the same order, none twice
/// and none left out, however the request body fares meanwhile.
pub proof fn law_client_is_given_what_the_worker_delivers<E>(
    phase: StreamPhase,
    polls: Seq<StreamPoll<E>>,
)
    ensures
        given_out(phase, polls) == delivered(polls),
    decreases polls.len(),
{
    if polls.len() > 0 {
        law_client_is_given_what_the_worker_delivers(phase, polls.drop_last());
    }
}

/// A stream that is polled no more once it is done is done exactly when the worker has closed
/// the response body; only then does it answer that nothing will follow.
pub proof fn law_stream_ends_with_the_response<E>(phase: StreamPhase, polls: Seq<StreamPoll<E>>)
    requires
        polls.len() > 0,
        phase_through(phase, polls.drop_last()) != StreamPhase::Done,
    ensures
        ({
            let before = phase_through(phase, polls.drop_last());
            let closed = polls.last().chunk == Polled::<Option<bytes::Bytes>>::Ready(None);
            &&& phase_through(phase, polls) == StreamPhase::Done <==> closed
            &&& stream_answer(before, polls.last()) == Polled::<
                Option<Result<bytes::Bytes, PhpError<E>>>,
            >::Ready(None) <==> closed
        }),
{
}

/// A request body that is through stays through: a stream goes from streaming both bodies to
/// streaming the response body alone, and never back.
pub proof fn law_request_body_does_not_come_back<E>(phase: StreamPhase, polls: Seq<StreamPoll<E>>)
    requires
        phase != StreamPhase::WithRequestBody,
    ensures
        phase_through(phase, polls) != StreamPhase::WithRequestBody,
    decreases polls.len(),
{
    if polls.len() > 0 {
        law_request_body_does_not_come_back(phase, polls.drop_last());
    }
}

/// A request goes to the worker with the address that it came from, the ends of the channels
/// that belong to the worker, and all else as it came; the other ends stay with the future.
pub proof fn law_channels_connect_worker_and_future<S, B, Q, H, HR, R, RR, E>(
    service: &PhpService<S>,
    head: RequestHead,
    body: Option<(B, Q)>,
    response_head: (H, HR),
    response_body: (R, RR),
    job: Job<B, H, R>,
    future: PhpFuture<Q, HR, RR, E>,
)
    requires
        call_ensures(
            PhpService::<S>::call::<B, Q, H, HR, R, RR, E>,
            (service, head, body, response_head, response_body),
            (job, future),
        ),
    ensures
        job.request_head.method == head.method,
        job.request_head.uri == head.uri,
        job.request_head.version == head.version,
        job.request_head.headers == head.headers,
        job.request_head.peer == Some(service.peer_addr),
        job.response_head_tx == response_head.0,
        job.response_body_tx == response_body.0,
        job.request_body_rx is Some <==> body is Some,
        body is Some ==> job.request_body_rx == Some((body->0).0),
        body is Some <==> future is WithRequestBody,
        body is None <==> future is WithoutRequestBody,
        future matches PhpFuture::WithRequestBody {
            request_body_future,
            response_head_rx,
            response_body_rx,
        } ==> request_body_future == (body->0).1 && response_head_rx == response_head.1
            && response_body_rx == response_body.1,
        future matches PhpFuture::WithoutRequestBody { response_head_rx, response_body_rx }
            ==> response_head_rx == response_head.1 && response_body_rx == response_body.1,
{
}

/// The service keeps what it is made of. It is ready when a place for a job could be reserved,
/// and fails when the workers take no jobs; a job that could not be handed over leads to the
/// same failure, which the future answers with once.
pub proof fn law_closed_job_channel_is_reported<S, Q, H, R, E>(
    sender: S,
    peer: SocketAddr,
    service: PhpService<S>,
    reserved: Polled<Result<(), ()>>,
    ready: Polled<Result<(), PhpError<E>>>,
    waiting: PhpFuture<Q, H, R, E>,
    accepted: bool,
    future: PhpFuture<Q, H, R, E>,
)
    requires
        call_ensures(PhpService::<S>::new, (sender, peer), service),
        call_ensures(PhpService::<S>::poll_ready::<E>, (reserved,), ready),
        call_ensures(PhpFuture::<Q, H, R, E>::enqueued, (waiting, accepted), future),
    ensures
        service.sender == sender && service.peer_addr == peer,
        ready is Pending <==> reserved is Pending,
        reserved matches Polled::Ready(place) ==> (place is Ok <==> ready->Ready_0 is Ok),
        reserved matches Polled::Ready(place) ==> place is Err ==> ready->Ready_0->Err_0
            == PhpError::<E>::JobChannelClosed,
        accepted ==> future == waiting,
        !accepted ==> future == PhpFuture::<Q, H, R, E>::Failed(PhpError::JobChannelClosed),
{
}

/// A future without a response answers with its error, and is done.
pub proof fn law_failure_is_answered_once<Q, H, R, E>(
    future: &mut PhpFuture<Q, H, R, E>,
    error: PhpError<E>,
    reason: PhpError<E>,
)
    requires
        call_ensures(PhpFuture::<Q, H, R, E>::take_error, (future,), error),
        *future == PhpFuture::<Q, H, R, E>::Failed(reason),
    ensures
        error == reason,
        *final(future) is Done,
{
}

/// The response goes out as soon as its head is there, with that head and with the body that the
/// future has been holding; a request body that is not through goes on with it. The future is
/// done. Without a head it fails when none will come; else it is as it was, and a request body
/// is streamed on.
pub proof fn law_response_starts_with_its_head<Q, H, R, E, P>(
    future: &mut PhpFuture<Q, H, R, E>,
    head: Polled<Result<P, ()>>,
    step: FutureStep<P, Q, R, E>,
)
    requires
        call_ensures(PhpFuture::<Q, H, R, E>::on_head::<P>, (future, head), step),
        *future is WithRequestBody || *future is WithoutRequestBody,
    ensures
        head matches Polled::Ready(Ok(parts)) ==> {
            &&& *final(future) is Done
            &&& step matches FutureStep::Return(Polled::Ready(Ok((sent, stream))))
            &&& sent == parts
            &&& *old(future) matches PhpFuture::WithRequestBody {
                request_body_future,
                response_body_rx,
                ..
            } ==> stream == (PhpStream::<Q, R>::WithRequestBody {
                request_body_future,
                response_body_stream: response_body_rx,
            })
            &&& *old(future) matches PhpFuture::WithoutRequestBody { response_body_rx, .. }
                ==> stream == (PhpStream::<Q, R>::WithoutRequestBody {
                response_body_stream: response_body_rx,
            })
        },
        head matches Polled::Ready(Err(_)) ==> {
            &&& *final(future) == *old(future)
            &&& step matches FutureStep::Return(Polled::Ready(Err(error)))
            &&& error is ResponseHeadClosed
        },
        head is Pending ==> {
            &&& *final(future) == *old(future)
            &&& *old(future) is WithRequestBody <==> step is PollBody
            &&& *old(future) is WithoutRequestBody ==> step == FutureStep::<P, Q, R, E>::Return(
                Polled::Pending,
            )
        },
{
}

/// A request body that is through is let go, and the response waited for as before; one that
/// fails is the answer; else all is as it was.
pub proof fn law_request_body_is_streamed_meanwhile<Q, H, R, E, P>(
    future: &mut PhpFuture<Q, H, R, E>,
    body: Polled<Result<(), PhpError<E>>>,
    answer: Polled<Result<(P, PhpStream<Q, R>), PhpError<E>>>,
)
    requires
        call_ensures(PhpFuture::<Q, H, R, E>::on_body::<P>, (future, body), answer),
        *future is WithRequestBody,
    ensures
        body matches Polled::Ready(Ok(_)) ==> {
            &&& answer is Pending
            &&& *final(future) matches PhpFuture::WithoutRequestBody {
                response_head_rx,
                response_body_rx,
            }
            &&& response_head_rx == (*old(future))->WithRequestBody_response_head_rx
            &&& response_body_rx == (*old(future))->WithRequestBody_response_body_rx
        },
        body matches Polled::Ready(Err(reason)) ==> {
            &&& *final(future) == *old(future)
            &&& answer matches Polled::Ready(Err(error))
            &&& error == reason
        },
        body is Pending ==> answer is Pending && *final(future) == *old(future),
{
}

/// The client is given each chunk of the response as the worker delivers it. The end of the
/// response ends the stream, and nothing else does. While there is nothing to give, a request
/// body that is not through is streamed on.
pub proof fn law_response_chunks_are_passed_on<Q, R, E>(
    stream: &mut PhpStream<Q, R>,
    chunk: Polled<Option<bytes::Bytes>>,
    step: StreamStep<E>,
)
    requires
        call_ensures(PhpStream::<Q, R>::on_chunk::<E>, (stream, chunk), step),
        *stream !is Done,
    ensures
        chunk matches Polled::Ready(Some(data)) ==> {
            &&& step matches StreamStep::Return(Polled::Ready(Some(Ok(given))))
            &&& given == data
            &&& *final(stream) == *old(stream)
        },
        chunk matches Polled::Ready(None) ==> {
            &&& step == StreamStep::<E>::Return(Polled::Ready(None))
            &&& *final(stream) is Done
        },
        chunk is Pending ==> {
            &&& *final(stream) == *old(stream)
            &&& *old(stream) is WithRequestBody <==> step is PollBody
            &&& *old(stream) is WithoutRequestBody ==> step == StreamStep::<E>::Return(
                Polled::Pending,
            )
        },
{
}

/// While a response is streamed, a request body that is through is let go and one that fails is
/// given out as an error; the response body stays where it is.
pub proof fn law_request_body_ends_within_the_stream<Q, R, E>(
    stream: &mut PhpStream<Q, R>,
    body: Polled<Result<(), PhpError<E>>>,
    answer: Polled<Option<Result<bytes::Bytes, PhpError<E>>>>,
)
    requires
        call_ensures(PhpStream::<Q, R>::on_body::<E>, (stream, body), answer),
        *stream is WithRequestBody,
    ensures
        body matches Polled::Ready(Ok(_)) ==> {
            &&& answer is Pending
            &&& *final(stream) matches PhpStream::WithoutRequestBody { response_body_stream }
            &&& response_body_stream == (*old(stream))->WithRequestBody_response_body_stream
        },
        body matches Polled::Ready(Err(reason)) ==> {
            &&& *final(stream) == *old(stream)
            &&& answer matches Polled::Ready(Some(Err(error)))
            &&& error == reason
        },
        body is Pending ==> answer is Pending && *final(stream) == *old(stream),
{
}

/// How many chunks are to come is what the receiver says, and nothing is known of it at the end.
pub proof fn law_receiver_knows_what_is_to_come<Q, R>(
    stream: &PhpStream<Q, R>,
    receiver: (usize, Option<usize>),
    hint: (usize, Option<usize>),
)
    requires
        call_ensures(PhpStream::<Q, R>::size_hint, (stream, receiver), hint),
    ensures
        *stream !is Done ==> hint == receiver,
        *stream is Done ==> hint.0 == 0 && hint.1 is None,
{
}

/// A request body starts with nothing waiting. The body is asked for a frame while nothing waits,
/// and the channel for a place while a chunk does. A data frame waits from then on; trailers are
/// passed over; the end of the body closes the channel, with which the body is through; an error
/// of the transport is the answer.
pub proof fn law_frames_are_taken_one_by_one<S, T, E>(
    body: S,
    tx: T,
    fresh: RequestBodyFuture<S, T>,
    future: &mut RequestBodyFuture<S, T>,
    poll: BodyPoll,
    frame: Polled<Option<Result<BodyFrame, E>>>,
    step: BodyStep<E>,
    closed: BodyStep<E>,
)
    requires
        call_ensures(RequestBodyFuture::<S, T>::new, (body, tx), fresh),
        call_ensures(RequestBodyFuture::<S, T>::next_poll, (&*future,), poll),
        poll == BodyPoll::Frame ==> call_ensures(
            RequestBodyFuture::<S, T>::on_frame::<E>,
            (future, frame),
            step,
        ),
        call_ensures(RequestBodyFuture::<S, T>::on_closed::<E>, (), closed),
    ensures
        fresh.request_body == body && fresh.request_body_tx == tx,
        fresh.current_request_body_chunk is None,
        poll == BodyPoll::Frame <==> old(future).current_request_body_chunk is None,
        poll == BodyPoll::Frame ==> {
            let waiting = final(future).current_request_body_chunk;
            &&& final(future).request_body == old(future).request_body
            &&& final(future).request_body_tx == old(future).request_body_tx
            &&& frame matches Polled::Ready(Some(Ok(BodyFrame::Data(data)))) ==> waiting == Some(
                data,
            ) && step is Again
            &&& frame matches Polled::Ready(Some(Ok(BodyFrame::Trailers))) ==> waiting is None
                && step is Again
            &&& frame matches Polled::Ready(None) ==> waiting is None && step is Close
            &&& frame matches Polled::Ready(Some(Err(error))) ==> waiting is None && step
                == BodyStep::<E>::Return(Polled::Ready(Err(PhpError::Hyper(error))))
            &&& frame is Pending ==> waiting is None && step == BodyStep::<E>::Return(
                Polled::Pending,
            )
        },
        closed == BodyStep::<E>::Return(Polled::Ready(Ok(()))),
{
}

/// A chunk that waits is sent when there is a place for it, and waits no longer. Without a place
/// it goes on waiting. When the worker takes no body any more, that is the answer, whether it
/// shows when a place is asked for or when the chunk is sent.
pub proof fn law_waiting_chunk_is_sent<S, T, E>(
    future: &mut RequestBodyFuture<S, T>,
    place: Polled<Result<(), ()>>,
    step: BodyStep<E>,
    delivery: Result<(), ()>,
    after: BodyStep<E>,
)
    requires
        call_ensures(RequestBodyFuture::<S, T>::on_place::<E>, (future, place), step),
        future.current_request_body_chunk is Some,
        call_ensures(RequestBodyFuture::<S, T>::on_sent::<E>, (delivery,), after),
    ensures
        final(future).request_body == old(future).request_body,
        final(future).request_body_tx == old(future).request_body_tx,
        place matches Polled::Ready(Ok(_)) ==> final(future).current_request_body_chunk is None
            && step == BodyStep::<E>::Send(old(future).current_request_body_chunk->0),
        place matches Polled::Ready(Err(_)) ==> step == BodyStep::<E>::Return(
            Polled::Ready(Err(PhpError::RequestBodyClosed)),
        ),
        place is Pending ==> step == BodyStep::<E>::Return(Polled::Pending),
        !(place matches Polled::Ready(Ok(_))) ==> final(future).current_request_body_chunk == old(
            future,
        ).current_request_body_chunk,
        delivery is Ok ==> after is Again,
        delivery is Err ==> after == BodyStep::<E>::Return(
            Polled::Ready(Err(PhpError::RequestBodyClosed)),
        ),
{
}

} // verus!
