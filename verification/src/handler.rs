//! The connection state machine of the HTTP-style transport: one request,
//! from its headers to its response.
//!
//! The machine never touches the connection. A driver performs each action
//! that [`RpcHandler::poll`] hands out and answers with the event that the
//! action produced.

use crate::headers::{
    AccessControlAllowOrigin, HeaderError, bytes_of, field_value_ok, header_fields, is_field_value,
    new_headers, no_fields, origin_text, response_fields, set_response_headers,
};
use crate::response::{ContentType, Response, ResponseView, SubLevel, TopLevel};
use hyper::header::HeaderValue;
use hyper::HeaderMap;
use vstd::prelude::*;
use vstd::string::*;
use vstd::utf8::{decode_utf8, encode_utf8, valid_utf8};

verus! {

/// The method of a request.
#[derive(Clone, Copy, Debug, PartialEq, Eq, Structural)]
pub enum Method {
    Options,
    Get,
    Post,
    Put,
    Delete,
    Head,
    Trace,
    Connect,
    Patch,
    Extension,
}

/// What the origin policy says of a request.
#[derive(Debug)]
pub enum CorsHeader {
    /// The request names no origin, or its own.
    NotRequired,
    /// The origin is allowed, and the response says so with this value.
    Allowed(AccessControlAllowOrigin),
    /// The origin is not allowed.
    Invalid,
}

impl CorsHeader {
    /// The origin that the response is to allow, if any.
    pub open spec fn allowed(self) -> Option<AccessControlAllowOrigin> {
        match self {
            CorsHeader::Allowed(origin) => Some(origin),
            _ => None,
        }
    }

    /// The origin that the response is to allow, if any.
    pub fn into_allowed(self) -> (origin: Option<AccessControlAllowOrigin>)
        ensures
            origin == self.allowed(),
    {
        match self {
            CorsHeader::Allowed(origin) => Some(origin),
            _ => None,
        }
    }

    /// Whether the origin to allow, if there is one, can stand in a header
    /// field.
    pub fn is_writable(&self) -> (writable: bool)
        ensures
            writable == !origin_unwritable(*self),
    {
        match self {
            CorsHeader::Allowed(origin) => is_field_value(origin.as_str()),
            _ => true,
        }
    }
}

/// What the machine reads of a request before its body: the method, the
/// media type that the request declares, and what the host policy says of
/// it.
pub struct RequestHead {
    pub method: Method,
    pub content_type: Option<ContentType>,
    pub host_allowed: bool,
}

/// The phase of a connection as a mathematical value.
pub enum StateView<M> {
    ReadingHeaders { request: RequestHead, continue_on_invalid_cors: bool, origin_read: bool },
    ReadingBody { body: Seq<u8>, metadata: M },
    Writing(ResponseView),
    Waiting,
    Done,
    Failed(HandlerError),
}

/// The phase of a connection. A connection only moves forward: headers,
/// body, waiting for the dispatch, writing, done. From any phase it can
/// fail, and a failed connection stays failed.
pub enum RpcHandlerState<M> {
    /// The headers are to be checked: first the origin, then, with the
    /// metadata of the request, the method and the media type.
    ReadingHeaders { request: RequestHead, continue_on_invalid_cors: bool, origin_read: bool },
    /// The body is being collected.
    ReadingBody { body: Vec<u8>, metadata: M },
    /// This response is to be written.
    Writing(Response),
    /// The request has been dispatched and its result is awaited.
    Waiting,
    /// The response has been handed out.
    Done,
    /// The connection has failed.
    Failed(HandlerError),
}

impl<M> View for RpcHandlerState<M> {
    type V = StateView<M>;

    open spec fn view(&self) -> StateView<M> {
        match self {
            RpcHandlerState::ReadingHeaders { request, continue_on_invalid_cors, origin_read } => {
                StateView::ReadingHeaders {
                    request: *request,
                    continue_on_invalid_cors: *continue_on_invalid_cors,
                    origin_read: *origin_read,
                }
            },
            RpcHandlerState::ReadingBody { body, metadata } => StateView::ReadingBody {
                body: body@,
                metadata: *metadata,
            },
            RpcHandlerState::Writing(response) => StateView::Writing(response@),
            RpcHandlerState::Waiting => StateView::Waiting,
            RpcHandlerState::Done => StateView::Done,
            RpcHandlerState::Failed(error) => StateView::Failed(*error),
        }
    }
}

/// A connection as a mathematical value.
pub struct HandlerView<M> {
    pub state: StateView<M>,
    pub is_options: bool,
    pub cors_header: CorsHeader,
}

/// Why a connection ended without a response.
#[derive(Clone, Copy, Debug, PartialEq, Eq, Structural)]
pub enum HandlerError {
    /// The body could not be read.
    Transport,
    /// The header fields of the response could not be set.
    Headers(HeaderError),
}

/// What came of reading the body.
pub enum BodyPoll {
    /// The next part of the body.
    Chunk(Vec<u8>),
    /// The body is complete.
    End,
    /// Nothing is ready.
    NotReady,
    /// The connection failed.
    Failed,
}

/// What came of polling the dispatch.
pub enum DispatchPoll {
    /// The dispatch has finished: with a response, or for a notification
    /// with none.
    Ready(Option<String>),
    /// The dispatch is still under way.
    NotReady,
    /// The dispatch failed.
    Failed,
}

/// What the driver tells the machine.
pub enum Event<M> {
    /// The scheduler has activated the connection.
    Activate,
    /// The answer to [`Action::ReadOrigin`]: what the origin policy says of
    /// the request.
    Origin(CorsHeader),
    /// The answer to [`Action::ReadMetadata`]: the metadata that goes with
    /// the request to the dispatcher.
    Metadata(M),
    /// The answer to [`Action::ReadBody`].
    Body(BodyPoll),
    /// The answer to [`Action::Dispatch`] and [`Action::PollDispatch`].
    Dispatched(DispatchPoll),
}

/// A response with its header fields.
pub struct Reply {
    pub response: Response,
    pub headers: HeaderMap<HeaderValue>,
}

/// What the machine asks of the driver, as a mathematical value.
pub enum ActionView<M> {
    ReadOrigin,
    ReadMetadata,
    ReadBody,
    Dispatch { content: Seq<char>, metadata: M },
    PollDispatch,
    PollMiddleware,
    NotReady,
    /// This response, with the fields that the two policy inputs call for.
    Respond { response: ResponseView, is_options: bool, cors_header: CorsHeader },
    Fail(HandlerError),
}

/// What the machine asks of the driver.
pub enum Action<M> {
    /// Ask the origin policy and answer with [`Event::Origin`].
    ReadOrigin,
    /// Read the metadata of the request and answer with
    /// [`Event::Metadata`]. The origin of the request has passed.
    ReadMetadata,
    /// Read from the body and answer with [`Event::Body`].
    ReadBody,
    /// Hand this request to the dispatcher, poll the dispatch and answer with
    /// [`Event::Dispatched`].
    Dispatch { content: String, metadata: M },
    /// Poll the dispatch and answer with [`Event::Dispatched`].
    PollDispatch,
    /// Poll the handler that the request middleware supplied; its outcome is
    /// the outcome of the connection.
    PollMiddleware,
    /// Nothing more can be done now: activate again when the connection or
    /// the dispatch makes progress.
    NotReady,
    /// Write this response; the connection is done.
    Respond(Reply),
    /// The connection has failed.
    Fail(HandlerError),
}

/// Whether the header fields of a response are those that the two policy
/// inputs call for.
pub open spec fn reply_matches(
    reply: Reply,
    response: ResponseView,
    is_options: bool,
    cors_header: CorsHeader,
) -> bool {
    &&& reply.response@ == response
    &&& header_fields(reply.headers) == response_fields(
        no_fields(),
        is_options,
        origin_text(cors_header.allowed()),
    )
}

/// Whether the origin that the response is to allow cannot stand in a
/// header field.
pub open spec fn origin_unwritable(cors_header: CorsHeader) -> bool {
    cors_header.allowed() matches Some(origin) && !field_value_ok(bytes_of(origin.text()))
}

/// Whether a step came out as `turn` says: the connection is in the state,
/// and the action is the one, that `turn` gives. A response comes with the
/// header fields of [`response_fields`].
pub open spec fn follows<M>(post: HandlerView<M>, action: Action<M>, turn: Turn<M>) -> bool {
    &&& post == turn.state
    &&& match turn.action {
        ActionView::ReadOrigin => action is ReadOrigin,
        ActionView::ReadMetadata => action is ReadMetadata,
        ActionView::ReadBody => action is ReadBody,
        ActionView::Dispatch { content, metadata } => {
            &&& action matches Action::Dispatch { content: c, metadata: m }
            &&& c@ == content
            &&& m == metadata
        },
        ActionView::PollDispatch => action is PollDispatch,
        ActionView::PollMiddleware => action is PollMiddleware,
        ActionView::NotReady => action is NotReady,
        ActionView::Fail(error) => {
            &&& action matches Action::Fail(e)
            &&& e == error
        },
        ActionView::Respond { response, is_options, cors_header } => {
            &&& action matches Action::Respond(reply)
            &&& reply_matches(reply, response, is_options, cors_header)
        },
    }
}

/// One step of a connection as a mathematical value.
pub struct Turn<M> {
    pub state: HandlerView<M>,
    pub action: ActionView<M>,
}

/// Whether the media type is `application/json`.
pub open spec fn is_json_spec(content_type: Option<ContentType>) -> bool {
    content_type matches Some(t) && t.top == TopLevel::Application && t.sub == SubLevel::Json
}

/// Whether a request is refused for its origin: the origin is not allowed,
/// and the middleware did not say to go on all the same.
pub open spec fn refused_for_origin(cors_header: CorsHeader, continue_on_invalid_cors: bool) -> bool {
    cors_header is Invalid && !continue_on_invalid_cors
}

/// The phase that follows the headers: a request whose origin is not allowed
/// is refused unless the middleware said to go on; a `POST` goes on to its
/// body where it declares JSON and is refused where it does not; `OPTIONS`
/// is answered with an empty success; every other method is refused.
pub open spec fn read_headers_spec<M>(
    cors_header: CorsHeader,
    request: RequestHead,
    metadata: M,
    continue_on_invalid_cors: bool,
) -> StateView<M> {
    if refused_for_origin(cors_header, continue_on_invalid_cors) {
        StateView::Writing(ResponseView::invalid_cors())
    } else {
        match request.method {
            Method::Post => if is_json_spec(request.content_type) {
                StateView::ReadingBody { body: Seq::empty(), metadata }
            } else {
                StateView::Writing(ResponseView::unsupported_content_type())
            },
            Method::Options => StateView::Writing(ResponseView::empty()),
            _ => StateView::Writing(ResponseView::method_not_allowed()),
        }
    }
}

/// Writes `response`: the connection is done, and the response goes out with
/// the fields that the connection's policy inputs call for. Only where the
/// origin to allow cannot stand in a header field is there no response: the
/// connection fails instead. A connection that has read its headers holds no
/// such origin.
pub open spec fn writing<M>(pre: HandlerView<M>, response: ResponseView) -> Turn<M> {
    if origin_unwritable(pre.cors_header) {
        Turn {
            state: HandlerView {
                state: StateView::Failed(HandlerError::Headers(HeaderError::InvalidValue)),
                is_options: pre.is_options,
                cors_header: CorsHeader::Invalid,
            },
            action: ActionView::Fail(HandlerError::Headers(HeaderError::InvalidValue)),
        }
    } else {
        Turn {
            state: HandlerView {
                state: StateView::Done,
                is_options: pre.is_options,
                cors_header: CorsHeader::Invalid,
            },
            action: ActionView::Respond {
                response,
                is_options: pre.is_options,
                cors_header: pre.cors_header,
            },
        }
    }
}

/// The connection with the policy inputs of its request taken over.
pub open spec fn with_policy<M>(
    pre: HandlerView<M>,
    request: RequestHead,
    cors_header: CorsHeader,
) -> HandlerView<M> {
    HandlerView { state: pre.state, is_options: request.method == Method::Options, cors_header }
}

/// Fails for good.
pub open spec fn failing<M>(pre: HandlerView<M>, error: HandlerError) -> Turn<M> {
    Turn {
        state: HandlerView { state: StateView::Failed(error), ..pre },
        action: ActionView::Fail(error),
    }
}

/// Stays in the same phase.
pub open spec fn staying<M>(pre: HandlerView<M>, action: ActionView<M>) -> Turn<M> {
    Turn { state: pre, action }
}

/// One step of a connection: what `event` does in state `pre`.
///
/// The headers are read in two steps. First the origin policy is asked. An
/// allowed origin that cannot stand in a header field fails the connection,
/// a request that is refused for its origin is answered, and for every other
/// the metadata is asked for. With the metadata the method and the media
/// type decide.
///
/// An event that does not answer the action that was handed out last ends
/// the connection with an internal error. A failed connection stays failed
/// and repeats its failure.
pub open spec fn step<M>(pre: HandlerView<M>, event: Event<M>) -> Turn<M> {
    match pre.state {
        StateView::ReadingHeaders { request, continue_on_invalid_cors, origin_read } => {
            match event {
                Event::Activate => staying(
                    pre,
                    if origin_read {
                        ActionView::ReadMetadata
                    } else {
                        ActionView::ReadOrigin
                    },
                ),
                Event::Origin(cors_header) => if origin_read {
                    writing(pre, ResponseView::internal_error())
                } else if origin_unwritable(cors_header) {
                    failing(pre, HandlerError::Headers(HeaderError::InvalidValue))
                } else if refused_for_origin(cors_header, continue_on_invalid_cors) {
                    writing(with_policy(pre, request, cors_header), ResponseView::invalid_cors())
                } else {
                    Turn {
                        state: HandlerView {
                            state: StateView::ReadingHeaders {
                                request,
                                continue_on_invalid_cors,
                                origin_read: true,
                            },
                            ..with_policy(pre, request, cors_header)
                        },
                        action: ActionView::ReadMetadata,
                    }
                },
                Event::Metadata(metadata) => if !origin_read {
                    writing(pre, ResponseView::internal_error())
                } else {
                    match read_headers_spec(
                        pre.cors_header,
                        request,
                        metadata,
                        continue_on_invalid_cors,
                    ) {
                        StateView::Writing(response) => writing(pre, response),
                        state => Turn {
                            state: HandlerView { state, ..pre },
                            action: ActionView::ReadBody,
                        },
                    }
                },
                _ => writing(pre, ResponseView::internal_error()),
            }
        },
        StateView::ReadingBody { body, metadata } => match event {
            Event::Activate => staying(pre, ActionView::ReadBody),
            Event::Body(BodyPoll::Chunk(bytes)) => Turn {
                state: HandlerView {
                    state: StateView::ReadingBody { body: body + bytes@, metadata },
                    ..pre
                },
                action: ActionView::ReadBody,
            },
            Event::Body(BodyPoll::NotReady) => staying(pre, ActionView::NotReady),
            Event::Body(BodyPoll::End) => if valid_utf8(body) {
                Turn {
                    state: HandlerView { state: StateView::Waiting, ..pre },
                    action: ActionView::Dispatch { content: decode_utf8(body), metadata },
                }
            } else {
                writing(pre, ResponseView::empty())
            },
            Event::Body(BodyPoll::Failed) => failing(pre, HandlerError::Transport),
            _ => writing(pre, ResponseView::internal_error()),
        },
        StateView::Waiting => match event {
            Event::Activate => staying(pre, ActionView::PollDispatch),
            Event::Dispatched(DispatchPoll::Ready(Some(result))) => writing(
                pre,
                ResponseView::ok(result@ + "\n"@),
            ),
            Event::Dispatched(DispatchPoll::Ready(None)) => writing(pre, ResponseView::empty()),
            Event::Dispatched(DispatchPoll::NotReady) => staying(pre, ActionView::NotReady),
            Event::Dispatched(DispatchPoll::Failed) => writing(
                pre,
                ResponseView::internal_error(),
            ),
            _ => writing(pre, ResponseView::internal_error()),
        },
        StateView::Writing(response) => writing(pre, response),
        StateView::Done => staying(pre, ActionView::NotReady),
        StateView::Failed(error) => staying(pre, ActionView::Fail(error)),
    }
}

/// `String::from_utf8`: the text that the bytes encode, where they are valid
/// UTF-8, and nothing where they are not.
#[verifier::external_body]
fn text_of(bytes: Vec<u8>) -> (text: Option<String>)
    ensures
        text is Some <==> valid_utf8(bytes@),
        text matches Some(t) ==> encode_utf8(t@) == bytes@,
{
    String::from_utf8(bytes).ok()
}

/// One connection of the HTTP-style transport.
pub struct RpcHandler<M> {
    state: RpcHandlerState<M>,
    is_options: bool,
    cors_header: CorsHeader,
}

impl<M> View for RpcHandler<M> {
    type V = HandlerView<M>;

    closed spec fn view(&self) -> HandlerView<M> {
        HandlerView {
            state: self.state@,
            is_options: self.is_options,
            cors_header: self.cors_header,
        }
    }
}

impl<M> RpcHandler<M> {
    /// A connection that has its headers still to check.
    pub fn new(request: RequestHead, continue_on_invalid_cors: bool) -> (handler: Self)
        ensures
            handler@ == (HandlerView::<M> {
                state: StateView::ReadingHeaders {
                    request,
                    continue_on_invalid_cors,
                    origin_read: false,
                },
                is_options: false,
                cors_header: CorsHeader::NotRequired,
            }),
    {
        RpcHandler {
            state: RpcHandlerState::ReadingHeaders {
                request,
                continue_on_invalid_cors,
                origin_read: false,
            },
            is_options: false,
            cors_header: CorsHeader::NotRequired,
        }
    }

    /// Whether the response has been handed out.
    pub fn is_done(&self) -> (done: bool)
        ensures
            done == (self@.state is Done),
    {
        match self.state {
            RpcHandlerState::Done => true,
            _ => false,
        }
    }

    /// Whether the connection has failed.
    pub fn is_failed(&self) -> (failed: bool)
        ensures
            failed == (self@.state is Failed),
    {
        match self.state {
            RpcHandlerState::Failed(_) => true,
            _ => false,
        }
    }

    /// Whether the request has been dispatched and its result is awaited.
    pub fn is_waiting(&self) -> (waiting: bool)
        ensures
            waiting == (self@.state is Waiting),
    {
        match self.state {
            RpcHandlerState::Waiting => true,
            _ => false,
        }
    }

    /// Whether the media type is `application/json`.
    pub fn is_json(content_type: Option<&ContentType>) -> (json: bool)
        ensures
            json == is_json_spec(
                match content_type {
                    Some(t) => Some(*t),
                    None => None,
                },
            ),
    {
        match content_type {
            Some(t) => t.top == TopLevel::Application && t.sub == SubLevel::Json,
            None => false,
        }
    }

    /// Whether a request is refused for its origin.
    pub fn is_refused_for_origin(cors_header: &CorsHeader, continue_on_invalid_cors: bool) -> (refused:
        bool)
        ensures
            refused == refused_for_origin(*cors_header, continue_on_invalid_cors),
    {
        let invalid = match cors_header {
            CorsHeader::Invalid => true,
            _ => false,
        };
        invalid && !continue_on_invalid_cors
    }

    /// The phase that follows the headers: see [`read_headers_spec`].
    pub fn read_headers(
        cors_header: &CorsHeader,
        request: RequestHead,
        metadata: M,
        continue_on_invalid_cors: bool,
    ) -> (state: RpcHandlerState<M>)
        ensures
            state@ == read_headers_spec(*cors_header, request, metadata, continue_on_invalid_cors),
    {
        if Self::is_refused_for_origin(cors_header, continue_on_invalid_cors) {
            return RpcHandlerState::Writing(Response::invalid_cors());
        }
        let RequestHead { method, content_type, host_allowed: _ } = request;
        match method {
            Method::Post => {
                if Self::is_json(content_type.as_ref()) {
                    RpcHandlerState::ReadingBody { body: Vec::new(), metadata }
                } else {
                    RpcHandlerState::Writing(Response::unsupported_content_type())
                }
            },
            Method::Options => RpcHandlerState::Writing(Response::empty()),
            _ => RpcHandlerState::Writing(Response::method_not_allowed()),
        }
    }

    /// The text of a complete body, to be dispatched with the metadata; a
    /// body that is no text is answered with an empty success instead.
    pub fn process_request(body: Vec<u8>, metadata: M) -> (r: Result<(String, M), Response>)
        ensures
            match r {
                Ok((content, m)) => valid_utf8(body@) && content@ == decode_utf8(body@) && m
                    == metadata,
                Err(response) => !valid_utf8(body@) && response@ == ResponseView::empty(),
            },
    {
        match text_of(body) {
            Some(content) => {
                proof {
                    vstd::utf8::encode_utf8_decode_utf8(content@);
                }
                Ok((content, metadata))
            },
            None => Err(Response::empty()),
        }
    }

    /// The last step of a connection, after the header fields were set: the
    /// response with its fields where they were set, and the connection done;
    /// the failure where they were not, and the connection failed.
    pub fn finish(
        &mut self,
        response: Response,
        headers: HeaderMap<HeaderValue>,
        set: Result<(), HeaderError>,
    ) -> (action: Action<M>)
        ensures
            match set {
                Ok(()) => {
                    &&& action matches Action::Respond(reply)
                    &&& reply.response == response
                    &&& reply.headers == headers
                    &&& final(self)@ == (HandlerView { state: StateView::Done, ..old(self)@ })
                },
                Err(error) => {
                    &&& action matches Action::Fail(HandlerError::Headers(e))
                    &&& e == error
                    &&& final(self)@ == (HandlerView {
                        state: StateView::Failed(HandlerError::Headers(error)),
                        ..old(self)@
                    })
                },
            },
    {
        match set {
            Ok(()) => {
                self.state = RpcHandlerState::Done;
                Action::Respond(Reply { response, headers })
            },
            Err(error) => {
                self.state = RpcHandlerState::Failed(HandlerError::Headers(error));
                Action::Fail(HandlerError::Headers(error))
            },
        }
    }

    fn write(&mut self, response: Response) -> (action: Action<M>)
        ensures
            follows(final(self)@, action, writing(old(self)@, response@)),
    {
        let mut cors_header = CorsHeader::Invalid;
        std::mem::swap(&mut self.cors_header, &mut cors_header);
        let mut headers = new_headers();
        let set = set_response_headers(&mut headers, self.is_options, cors_header.into_allowed());
        self.finish(response, headers, set)
    }

    fn fail(&mut self, error: HandlerError) -> (action: Action<M>)
        ensures
            follows(final(self)@, action, failing(old(self)@, error)),
    {
        self.state = RpcHandlerState::Failed(error);
        Action::Fail(error)
    }

    fn take_policy(&mut self, request: &RequestHead, cors_header: CorsHeader)
        ensures
            final(self)@ == with_policy(old(self)@, *request, cors_header),
    {
        self.is_options = request.method == Method::Options;
        self.cors_header = cors_header;
    }

    /// One step of the connection. The driver starts with
    /// [`Event::Activate`], performs the action that each step hands out and
    /// answers with the event that the action produced, until the step hands
    /// out the response or fails. After [`Action::NotReady`] it activates the
    /// connection again when there is progress.
    pub fn poll(&mut self, event: Event<M>) -> (action: Action<M>)
        requires
            !(old(self)@.state is Done),
        ensures
            follows(final(self)@, action, step(old(self)@, event)),
    {
        let mut state = RpcHandlerState::Done;
        std::mem::swap(&mut self.state, &mut state);
        match state {
            RpcHandlerState::ReadingHeaders { request, continue_on_invalid_cors, origin_read } => {
                match event {
                    Event::Activate => {
                        self.state = RpcHandlerState::ReadingHeaders {
                            request,
                            continue_on_invalid_cors,
                            origin_read,
                        };
                        if origin_read {
                            Action::ReadMetadata
                        } else {
                            Action::ReadOrigin
                        }
                    },
                    Event::Origin(cors_header) => {
                        if origin_read {
                            self.write(Response::internal_error())
                        } else if !cors_header.is_writable() {
                            self.fail(HandlerError::Headers(HeaderError::InvalidValue))
                        } else if Self::is_refused_for_origin(
                            &cors_header,
                            continue_on_invalid_cors,
                        ) {
                            self.take_policy(&request, cors_header);
                            self.write(Response::invalid_cors())
                        } else {
                            self.take_policy(&request, cors_header);
                            self.state = RpcHandlerState::ReadingHeaders {
                                request,
                                continue_on_invalid_cors,
                                origin_read: true,
                            };
                            Action::ReadMetadata
                        }
                    },
                    Event::Metadata(metadata) => {
                        if !origin_read {
                            self.write(Response::internal_error())
                        } else {
                            match Self::read_headers(
                                &self.cors_header,
                                request,
                                metadata,
                                continue_on_invalid_cors,
                            ) {
                                RpcHandlerState::Writing(response) => self.write(response),
                                next => {
                                    self.state = next;
                                    Action::ReadBody
                                },
                            }
                        }
                    },
                    _ => self.write(Response::internal_error()),
                }
            },
            RpcHandlerState::ReadingBody { body, metadata } => match event {
                Event::Activate => {
                    self.state = RpcHandlerState::ReadingBody { body, metadata };
                    Action::ReadBody
                },
                Event::Body(BodyPoll::Chunk(bytes)) => {
                    let mut body = body;
                    let mut bytes = bytes;
                    body.append(&mut bytes);
                    self.state = RpcHandlerState::ReadingBody { body, metadata };
                    Action::ReadBody
                },
                Event::Body(BodyPoll::NotReady) => {
                    self.state = RpcHandlerState::ReadingBody { body, metadata };
                    Action::NotReady
                },
                Event::Body(BodyPoll::End) => match Self::process_request(body, metadata) {
                    Ok((content, metadata)) => {
                        self.state = RpcHandlerState::Waiting;
                        Action::Dispatch { content, metadata }
                    },
                    Err(response) => self.write(response),
                },
                Event::Body(BodyPoll::Failed) => {
                    self.state = RpcHandlerState::Failed(HandlerError::Transport);
                    Action::Fail(HandlerError::Transport)
                },
                _ => self.write(Response::internal_error()),
            },
            RpcHandlerState::Waiting => match event {
                Event::Activate => {
                    self.state = RpcHandlerState::Waiting;
                    Action::PollDispatch
                },
                Event::Dispatched(DispatchPoll::Ready(Some(result))) => {
                    let mut content = result;
                    content.append("\n");
                    self.write(Response::ok(content))
                },
                Event::Dispatched(DispatchPoll::Ready(None)) => self.write(Response::empty()),
                Event::Dispatched(DispatchPoll::NotReady) => {
                    self.state = RpcHandlerState::Waiting;
                    Action::NotReady
                },
                Event::Dispatched(DispatchPoll::Failed) => self.write(Response::internal_error()),
                _ => self.write(Response::internal_error()),
            },
            RpcHandlerState::Writing(response) => self.write(response),
            RpcHandlerState::Done => Action::NotReady,
            RpcHandlerState::Failed(error) => {
                self.state = RpcHandlerState::Failed(error);
                Action::Fail(error)
            },
        }
    }
}

/// What the request middleware says of a request.
pub enum RequestMiddlewareAction<H> {
    /// Go on with the request as JSON-RPC.
    Proceed { should_continue_on_invalid_cors: bool },
    /// Answer the request with this handler of the middleware's own.
    Respond { should_validate_hosts: bool, handler: H },
}

impl<H> RequestMiddlewareAction<H> {
    /// Whether the host of the request is to be checked.
    pub open spec fn validates_hosts(self) -> bool {
        match self {
            RequestMiddlewareAction::Proceed { .. } => true,
            RequestMiddlewareAction::Respond { should_validate_hosts, .. } => should_validate_hosts,
        }
    }

    /// Whether the host of the request is to be checked. Where it is not,
    /// the host policy need not be asked.
    pub fn should_validate_hosts(&self) -> (validate: bool)
        ensures
            validate == self.validates_hosts(),
    {
        match self {
            RequestMiddlewareAction::Proceed { .. } => true,
            RequestMiddlewareAction::Respond { should_validate_hosts, .. } => *should_validate_hosts,
        }
    }
}

/// What serves one request: the JSON-RPC connection, a fixed refusal, or a
/// handler that the request middleware supplied.
pub enum Handler<M, H> {
    Rpc(RpcHandler<M>),
    Error(Option<Response>),
    Middleware(H),
}

/// Whether `handler` is the one that serves `request` after the middleware
/// said `action`: a request for a host that is not allowed is refused where
/// hosts are checked; else the middleware's own handler serves it where
/// there is one; else a new JSON-RPC connection.
pub open spec fn serves<M, H>(
    request: RequestHead,
    action: RequestMiddlewareAction<H>,
    handler: Handler<M, H>,
) -> bool {
    if action.validates_hosts() && !request.host_allowed {
        handler matches Handler::Error(Some(response)) && response@
            == ResponseView::host_not_allowed()
    } else {
        match action {
            RequestMiddlewareAction::Respond { handler: own, .. } => {
                handler matches Handler::Middleware(h) && h == own
            },
            RequestMiddlewareAction::Proceed { should_continue_on_invalid_cors } => {
                handler matches Handler::Rpc(rpc) && rpc@ == (HandlerView::<M> {
                    state: StateView::ReadingHeaders {
                        request,
                        continue_on_invalid_cors: should_continue_on_invalid_cors,
                        origin_read: false,
                    },
                    is_options: false,
                    cors_header: CorsHeader::NotRequired,
                })
            },
        }
    }
}

/// The entry of the HTTP-style transport: it decides what serves a request.
pub struct ServerHandler {}

impl ServerHandler {
    pub fn new() -> (server: Self) {
        ServerHandler {  }
    }

    /// Decides what serves `request`: see [`serves`].
    pub fn call<M, H>(&self, request: RequestHead, action: RequestMiddlewareAction<H>) -> (handler:
        Handler<M, H>)
        ensures
            serves(request, action, handler),
    {
        let (should_validate_hosts, should_continue_on_invalid_cors, own) = match action {
            RequestMiddlewareAction::Proceed { should_continue_on_invalid_cors } => (
                true,
                should_continue_on_invalid_cors,
                None,
            ),
            RequestMiddlewareAction::Respond { should_validate_hosts, handler } => (
                should_validate_hosts,
                false,
                Some(handler),
            ),
        };
        if should_validate_hosts && !request.host_allowed {
            return Handler::Error(Some(Response::host_not_allowed()));
        }
        if let Some(handler) = own {
            return Handler::Middleware(handler);
        }
        Handler::Rpc(RpcHandler::new(request, should_continue_on_invalid_cors))
    }
}

impl<M, H> Handler<M, H> {
    /// Whether this handler can still be polled: a connection that is not
    /// done, a refusal that has not been handed out, or a handler of the
    /// middleware.
    pub open spec fn is_live(self) -> bool {
        match self {
            Handler::Rpc(rpc) => !(rpc@.state is Done),
            Handler::Error(response) => response is Some,
            Handler::Middleware(_) => true,
        }
    }

    /// Whether this handler can still be polled.
    pub fn live(&self) -> (live: bool)
        ensures
            live == self.is_live(),
    {
        match self {
            Handler::Rpc(rpc) => !rpc.is_done(),
            Handler::Error(response) => response.is_some(),
            Handler::Middleware(_) => true,
        }
    }

    /// One step of what serves the request. A connection makes its own step.
    /// A refusal is handed out as it is, without further header fields, and
    /// is gone afterwards. For a handler of the middleware the driver is
    /// told to poll it.
    pub fn poll(&mut self, event: Event<M>) -> (action: Action<M>)
        requires
            old(self).is_live(),
        ensures
            match *old(self) {
                Handler::Rpc(rpc) => {
                    &&& *final(self) matches Handler::Rpc(after)
                    &&& follows(after@, action, step(rpc@, event))
                },
                Handler::Error(response) => {
                    &&& *final(self) matches Handler::Error(None)
                    &&& action matches Action::Respond(reply)
                    &&& Some(reply.response) == response
                    &&& header_fields(reply.headers) == no_fields()
                },
                Handler::Middleware(own) => {
                    &&& *final(self) == *old(self)
                    &&& action is PollMiddleware
                },
            },
    {
        match self {
            Handler::Rpc(rpc) => rpc.poll(event),
            Handler::Error(response) => {
                match response.take() {
                    Some(response) => Action::Respond(Reply { response, headers: new_headers() }),
                    None => Action::NotReady,
                }
            },
            Handler::Middleware(_) => Action::PollMiddleware,
        }
    }
}

/// How far a connection has come.
pub open spec fn rank<M>(state: StateView<M>) -> nat {
    match state {
        StateView::ReadingHeaders { .. } => 0,
        StateView::ReadingBody { .. } => 1,
        StateView::Waiting => 2,
        StateView::Writing(_) => 3,
        StateView::Done => 4,
        StateView::Failed(_) => 4,
    }
}

/// A connection only moves forward: no step takes it back to an earlier
/// phase, and a connection that is done or has failed stays as it is.
pub proof fn lemma_forward_only<M>(pre: HandlerView<M>, event: Event<M>)
    ensures
        rank(step(pre, event).state.state) >= rank(pre.state),
        pre.state is Done || pre.state is Failed ==> step(pre, event).state == pre,
        pre.state is Failed ==> step(pre, event).action == ActionView::<M>::Fail(
            pre.state->Failed_0,
        ),
{
}

/// Whether the origin that a connection is to allow can be written: it can
/// stand in a header field, or the connection has failed.
pub open spec fn origin_checked<M>(view: HandlerView<M>) -> bool {
    view.state is Failed || !origin_unwritable(view.cors_header)
}

/// The origin is looked at when the headers are read, before the metadata
/// and the body are: a new connection holds an origin that can be written,
/// every step keeps it so, and an allowed origin that cannot stand in a
/// header field fails the connection as soon as the policy names it.
pub proof fn lemma_origin_is_checked_first<M>(
    request: RequestHead,
    continue_on_invalid_cors: bool,
    cors_header: CorsHeader,
    pre: HandlerView<M>,
    event: Event<M>,
)
    ensures
        origin_checked(pre) ==> origin_checked(step(pre, event).state),
        pre.state == (StateView::<M>::ReadingHeaders {
            request,
            continue_on_invalid_cors,
            origin_read: false,
        }) && origin_unwritable(cors_header) ==> step(pre, Event::Origin(cors_header)) == failing(
            pre,
            HandlerError::Headers(HeaderError::InvalidValue),
        ),
{
}

/// A connection that reaches the writing phase answers: once the origin has
/// been looked at and the headers are read, a step that writes hands the
/// response out, with the header fields that the policy inputs call for, and
/// the connection is done. A step hands out a response in no other way.
pub proof fn lemma_writing_answers<M>(
    pre: HandlerView<M>,
    response: ResponseView,
    post: HandlerView<M>,
    action: Action<M>,
)
    requires
        !origin_unwritable(pre.cors_header),
        follows(post, action, writing(pre, response)),
    ensures
        post.state is Done,
        action matches Action::Respond(reply) && reply_matches(
            reply,
            response,
            pre.is_options,
            pre.cors_header,
        ),
{
}

/// What each outcome of the dispatch is answered with: a result with a
/// success that holds the result and a line feed, a notification with an
/// empty success, a failure with the internal error.
pub proof fn lemma_dispatch_is_answered<M>(pre: HandlerView<M>, result: String)
    requires
        pre.state is Waiting,
    ensures
        step(pre, Event::<M>::Dispatched(DispatchPoll::Ready(Some(result)))) == writing(
            pre,
            ResponseView::ok(result@ + "\n"@),
        ),
        step(pre, Event::<M>::Dispatched(DispatchPoll::Ready(None))) == writing(
            pre,
            ResponseView::empty(),
        ),
        step(pre, Event::<M>::Dispatched(DispatchPoll::Failed)) == writing(
            pre,
            ResponseView::internal_error(),
        ),
        step(pre, Event::<M>::Dispatched(DispatchPoll::NotReady)) == staying(
            pre,
            ActionView::NotReady,
        ),
{
}

/// A step hands out a response exactly when it reaches the writing phase
/// with an origin that can be written, and the connection is then done.
pub proof fn lemma_response_means_done<M>(
    pre: HandlerView<M>,
    event: Event<M>,
    post: HandlerView<M>,
    action: Action<M>,
)
    requires
        follows(post, action, step(pre, event)),
    ensures
        action is Respond <==> step(pre, event).action is Respond,
        action is Respond ==> post.state is Done && !(pre.state is Done) && !(pre.state is Failed),
        post.state is Done && !(pre.state is Done) ==> action is Respond,
{
}

/// A request that is refused at its headers is answered at once and never
/// dispatched. A request that is refused for its origin is answered when the
/// policy has spoken, before its metadata is read. Where the method or the
/// media type call for a response, the step that brings the metadata hands
/// that response out. Either way the connection is done.
pub proof fn lemma_refused_at_headers<M>(
    request: RequestHead,
    continue_on_invalid_cors: bool,
    cors_header: CorsHeader,
    metadata: M,
    pre: HandlerView<M>,
    read: HandlerView<M>,
)
    requires
        pre.state == (StateView::<M>::ReadingHeaders {
            request,
            continue_on_invalid_cors,
            origin_read: false,
        }),
        !origin_unwritable(cors_header),
        read == step(pre, Event::Origin(cors_header)).state,
    ensures
        step(pre, Event::<M>::Activate) == staying(pre, ActionView::ReadOrigin),
        refused_for_origin(cors_header, continue_on_invalid_cors) ==> step(
            pre,
            Event::Origin(cors_header),
        ) == writing(with_policy(pre, request, cors_header), ResponseView::invalid_cors()),
        !refused_for_origin(cors_header, continue_on_invalid_cors) ==> step(
            pre,
            Event::Origin(cors_header),
        ).action is ReadMetadata && read.cors_header == cors_header && read.is_options == (
        request.method == Method::Options) && step(read, Event::<M>::Activate) == staying(
            read,
            ActionView::ReadMetadata,
        ),
        !refused_for_origin(cors_header, continue_on_invalid_cors) && read_headers_spec(
            cors_header,
            request,
            metadata,
            continue_on_invalid_cors,
        ) is Writing ==> step(read, Event::Metadata(metadata)) == writing(
            read,
            read_headers_spec(
                cors_header,
                request,
                metadata,
                continue_on_invalid_cors,
            )->Writing_0,
        ) && step(read, Event::Metadata(metadata)).state.state is Done && step(
            read,
            Event::Metadata(metadata),
        ).action is Respond,
{
}

/// The metadata of a request is read only after its origin has passed: a
/// step asks for it only from the header phase, when the policy has spoken
/// of an origin that is not refused and can be written, or on activation
/// after that.
pub proof fn lemma_metadata_only_after_origin<M>(pre: HandlerView<M>, event: Event<M>)
    requires
        step(pre, event).action is ReadMetadata,
    ensures
        pre.state is ReadingHeaders,
        step(pre, event).state.state is ReadingHeaders,
        step(pre, event).state.state->origin_read,
        event matches Event::Origin(cors_header) ==> !pre.state->origin_read
            && !refused_for_origin(cors_header, pre.state->continue_on_invalid_cors)
            && !origin_unwritable(cors_header),
        !(event is Origin) ==> event is Activate && pre.state->origin_read,
{
}

/// A `POST` that does not declare JSON is refused as an unsupported content
/// type, whatever else it holds, unless its origin has it refused already.
pub proof fn lemma_post_needs_json<M>(
    request: RequestHead,
    cors_header: CorsHeader,
    metadata: M,
    continue_on_invalid_cors: bool,
)
    requires
        request.method == Method::Post,
        !is_json_spec(request.content_type),
        !refused_for_origin(cors_header, continue_on_invalid_cors),
    ensures
        read_headers_spec(cors_header, request, metadata, continue_on_invalid_cors)
            == StateView::<M>::Writing(ResponseView::unsupported_content_type()),
{
}

/// The dispatcher sees a request only after its headers were accepted and
/// its body was complete and text: a step hands out a dispatch only from the
/// body phase, at the end of a body that is valid UTF-8.
pub proof fn lemma_dispatch_only_after_body<M>(pre: HandlerView<M>, event: Event<M>)
    requires
        step(pre, event).action is Dispatch,
    ensures
        pre.state is ReadingBody,
        valid_utf8(pre.state->body),
        event matches Event::Body(BodyPoll::End),
        step(pre, event).state.state is Waiting,
{
}

} // verus!
