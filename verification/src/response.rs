//! The responses of the HTTP-style transport.

use vstd::prelude::*;
use vstd::string::*;

verus! {

/// The top level of a media type.
#[derive(Clone, Copy, Debug, PartialEq, Eq, Structural)]
pub enum TopLevel {
    Star,
    Text,
    Image,
    Audio,
    Video,
    Application,
    Multipart,
    Message,
    Model,
    Ext,
}

/// The sub level of a media type.
#[derive(Clone, Copy, Debug, PartialEq, Eq, Structural)]
pub enum SubLevel {
    Star,
    Plain,
    Html,
    Xml,
    Javascript,
    Css,
    EventStream,
    Json,
    WwwFormUrlEncoded,
    FormData,
    OctetStream,
    Ext,
}

/// A media type, without its parameters.
#[derive(Clone, Copy, Debug, PartialEq, Eq, Structural)]
pub struct ContentType {
    pub top: TopLevel,
    pub sub: SubLevel,
}

impl ContentType {
    /// `application/json`.
    pub open spec fn spec_json() -> ContentType {
        ContentType { top: TopLevel::Application, sub: SubLevel::Json }
    }

    /// `text/plain`.
    pub open spec fn spec_plaintext() -> ContentType {
        ContentType { top: TopLevel::Text, sub: SubLevel::Plain }
    }

    /// `application/json`.
    #[verifier::when_used_as_spec(spec_json)]
    pub fn json() -> (t: ContentType)
        ensures
            t == ContentType::spec_json(),
    {
        ContentType { top: TopLevel::Application, sub: SubLevel::Json }
    }

    /// `text/plain`.
    #[verifier::when_used_as_spec(spec_plaintext)]
    pub fn plaintext() -> (t: ContentType)
        ensures
            t == ContentType::spec_plaintext(),
    {
        ContentType { top: TopLevel::Text, sub: SubLevel::Plain }
    }
}

/// A response as a mathematical value.
pub struct ResponseView {
    pub code: u16,
    pub content_type: ContentType,
    pub content: Seq<char>,
}

/// A response: the status code, the media type of the body, and the body.
#[derive(Debug)]
pub struct Response {
    pub code: u16,
    pub content_type: ContentType,
    pub content: String,
}

impl View for Response {
    type V = ResponseView;

    open spec fn view(&self) -> ResponseView {
        ResponseView { code: self.code, content_type: self.content_type, content: self.content@ }
    }
}

impl ResponseView {
    /// A success with this body.
    pub open spec fn ok(content: Seq<char>) -> ResponseView {
        ResponseView { code: 200, content_type: ContentType::json(), content }
    }

    /// A success without a body.
    pub open spec fn empty() -> ResponseView {
        ResponseView::ok(Seq::empty())
    }

    /// The dispatch of the request failed.
    pub open spec fn internal_error() -> ResponseView {
        ResponseView {
            code: 500,
            content_type: ContentType::plaintext(),
            content: "Internal Server Error has occured."@,
        }
    }

    /// The host that the request names is not one of the server's.
    pub open spec fn host_not_allowed() -> ResponseView {
        ResponseView {
            code: 403,
            content_type: ContentType::plaintext(),
            content: "Provided Host header is not whitelisted.\n"@,
        }
    }

    /// The body of the request is not declared as JSON.
    pub open spec fn unsupported_content_type() -> ResponseView {
        ResponseView {
            code: 415,
            content_type: ContentType::plaintext(),
            content: "Supplied content type is not allowed. Content-Type: application/json is required\n"@,
        }
    }

    /// The method of the request is neither `POST` nor `OPTIONS`.
    pub open spec fn method_not_allowed() -> ResponseView {
        ResponseView {
            code: 405,
            content_type: ContentType::plaintext(),
            content: "Used HTTP Method is not allowed. POST or OPTIONS is required\n"@,
        }
    }

    /// The origin of the request is not one that the server allows.
    pub open spec fn invalid_cors() -> ResponseView {
        ResponseView {
            code: 403,
            content_type: ContentType::plaintext(),
            content: "Origin of the request is not whitelisted. CORS headers would not be sent and any side-effects were cancelled as well.\n"@,
        }
    }
}

impl Response {
    /// A success with this body.
    pub fn ok(content: String) -> (r: Response)
        ensures
            r@ == ResponseView::ok(content@),
    {
        Response { code: 200, content_type: ContentType::json(), content }
    }

    /// A success without a body.
    pub fn empty() -> (r: Response)
        ensures
            r@ == ResponseView::empty(),
    {
        Response::ok(String::new())
    }

    /// The dispatch of the request failed.
    pub fn internal_error() -> (r: Response)
        ensures
            r@ == ResponseView::internal_error(),
    {
        Response {
            code: 500,
            content_type: ContentType::plaintext(),
            content: String::from_str("Internal Server Error has occured."),
        }
    }

    /// The host that the request names is not one of the server's.
    pub fn host_not_allowed() -> (r: Response)
        ensures
            r@ == ResponseView::host_not_allowed(),
    {
        Response {
            code: 403,
            content_type: ContentType::plaintext(),
            content: String::from_str("Provided Host header is not whitelisted.\n"),
        }
    }

    /// The body of the request is not declared as JSON.
    pub fn unsupported_content_type() -> (r: Response)
        ensures
            r@ == ResponseView::unsupported_content_type(),
    {
        Response {
            code: 415,
            content_type: ContentType::plaintext(),
            content: String::from_str(
                "Supplied content type is not allowed. Content-Type: application/json is required\n",
            ),
        }
    }

    /// The method of the request is neither `POST` nor `OPTIONS`.
    pub fn method_not_allowed() -> (r: Response)
        ensures
            r@ == ResponseView::method_not_allowed(),
    {
        Response {
            code: 405,
            content_type: ContentType::plaintext(),
            content: String::from_str(
                "Used HTTP Method is not allowed. POST or OPTIONS is required\n",
            ),
        }
    }

    /// The origin of the request is not one that the server allows.
    pub fn invalid_cors() -> (r: Response)
        ensures
            r@ == ResponseView::invalid_cors(),
    {
        Response {
            code: 403,
            content_type: ContentType::plaintext(),
            content: String::from_str(
                "Origin of the request is not whitelisted. CORS headers would not be sent and any side-effects were cancelled as well.\n",
            ),
        }
    }
}

} // verus!
