//! The values that travel along a chain of handlers: requests, responses,
//! connection metadata and the result of one handler invocation.

use vstd::prelude::*;

verus! {

/// What a list of header lines stands for: the name and the value of each, in
/// order.
pub type HeadersModel = Seq<(Seq<char>, Seq<char>)>;

/// The names and values of `headers`, in order.
pub open spec fn headers_model(headers: Seq<(String, String)>) -> HeadersModel {
    Seq::new(headers.len(), |i: int| (headers[i].0@, headers[i].1@))
}

/// The model of two lists of header lines, one after the other, is the
/// concatenation of their models.
pub proof fn lemma_headers_model_concat(first: Seq<(String, String)>, second: Seq<(String, String)>)
    ensures
        headers_model(first + second) == headers_model(first) + headers_model(second),
{
    assert(headers_model(first + second) =~= headers_model(first) + headers_model(second));
}

/// An HTTP request. It is owned by one handler at a time.
pub struct Request {
    pub method: String,
    pub uri: String,
    pub headers: Vec<(String, String)>,
    pub body: Vec<u8>,
}

/// The path of the URI that `uri` spells, as `hyper::Uri` parses it; `None`
/// where `uri` is no URI.
pub uninterp spec fn uri_path(uri: Seq<char>) -> Option<Seq<char>>;

/// Parses `uri` with `hyper::Uri`'s `FromStr` and copies what `Uri::path`
/// returns. The contract only gives that result its name: the parse is a
/// function of the text alone.
#[verifier::external_body]
fn parse_uri_path(uri: &str) -> (r: Option<String>)
    ensures
        match r {
            Some(path) => uri_path(uri@) == Some(path@),
            None => uri_path(uri@) is None,
        },
{
    match uri.parse::<hyper::Uri>() {
        Ok(parsed) => Some(parsed.path().to_string()),
        Err(_) => None,
    }
}

impl Request {
    /// The path of the request's URI, or `None` where the URI cannot be parsed.
    pub fn path(&self) -> (r: Option<String>)
        ensures
            match r {
                Some(path) => uri_path(self@.uri) == Some(path@),
                None => uri_path(self@.uri) is None,
            },
    {
        parse_uri_path(self.uri.as_str())
    }
}

/// What a request stands for.
pub struct RequestModel {
    pub method: Seq<char>,
    pub uri: Seq<char>,
    pub headers: HeadersModel,
    pub body: Seq<u8>,
}

impl View for Request {
    type V = RequestModel;

    open spec fn view(&self) -> RequestModel {
        RequestModel {
            method: self.method@,
            uri: self.uri@,
            headers: headers_model(self.headers@),
            body: self.body@,
        }
    }
}

/// A complete HTTP response.
pub struct Response {
    pub status: u16,
    pub headers: Vec<(String, String)>,
    pub body: Vec<u8>,
}

/// What a response stands for: its status, its header lines in order, its body.
pub struct ResponseModel {
    pub status: u16,
    pub headers: HeadersModel,
    pub body: Seq<u8>,
}

impl View for Response {
    type V = ResponseModel;

    open spec fn view(&self) -> ResponseModel {
        ResponseModel { status: self.status, headers: headers_model(self.headers@), body: self.body@ }
    }
}

/// The status of a response for which no handler chose one.
pub const DEFAULT_STATUS: u16 = 200;

impl Response {
    /// A response with the default status, no headers and the given body.
    pub fn with_body(body: Vec<u8>) -> (r: Response)
        ensures
            r@ == (ResponseModel {
                status: DEFAULT_STATUS,
                headers: Seq::empty(),
                body: body@,
            }),
    {
        let r = Response { status: DEFAULT_STATUS, headers: Vec::new(), body };
        assert(r@.headers =~= Seq::empty());
        r
    }
}

/// An IP address.
#[derive(Clone, Copy, Debug, PartialEq, Eq, Structural)]
pub enum IpAddress {
    V4(u8, u8, u8, u8),
    V6(u128),
}

/// One end of a connection.
#[derive(Clone, Copy, Debug, PartialEq, Eq, Structural)]
pub struct SocketAddress {
    pub ip: IpAddress,
    pub port: u16,
}

/// Connection metadata that every handler may read.
#[derive(Clone, Copy, Debug, PartialEq, Eq, Structural)]
pub struct SocketData {
    pub remote_addr: SocketAddress,
    pub local_addr: SocketAddress,
    pub encrypted: bool,
}

impl SocketData {
    /// The metadata with the remote address replaced where a handler gave a new one.
    pub open spec fn readdressed(self, address: Option<SocketAddress>) -> SocketData {
        match address {
            Some(a) => SocketData { remote_addr: a, ..self },
            None => self,
        }
    }

    /// Applies a handler's rewrite of the remote address, if it made one.
    pub fn with_remote_address(self, address: Option<SocketAddress>) -> (r: SocketData)
        ensures
            r == self.readdressed(address),
    {
        match address {
            Some(a) => SocketData {
                remote_addr: a,
                local_addr: self.local_addr,
                encrypted: self.encrypted,
            },
            None => self,
        }
    }
}

/// A failure during request processing. It concerns one request only.
pub struct HandlerError {
    pub reason: String,
}

impl View for HandlerError {
    type V = Seq<char>;

    open spec fn view(&self) -> Seq<char> {
        self.reason@
    }
}

/// The two things a handler can do with a request: hand it on, or answer it.
/// A value holds exactly one of the two.
pub enum HandlerOutcome {
    PassThrough(Request),
    Respond(Response),
}

/// What an outcome stands for.
pub enum OutcomeModel {
    PassThrough(RequestModel),
    Respond(ResponseModel),
}

/// The result of one handler invocation: its outcome, and overrides that
/// apply to the response whichever module produces it.
pub struct ResponseData {
    pub outcome: HandlerOutcome,
    pub response_status: Option<u16>,
    pub response_headers: Option<Vec<(String, String)>>,
    pub new_remote_address: Option<SocketAddress>,
}

/// What the result of a handler invocation stands for.
pub struct ResponseDataModel {
    pub outcome: OutcomeModel,
    pub response_status: Option<u16>,
    pub response_headers: Option<HeadersModel>,
    pub new_remote_address: Option<SocketAddress>,
}

impl ResponseDataModel {
    /// The request that is handed to the next module, if the handler passed it on.
    pub open spec fn request(self) -> Option<RequestModel> {
        match self.outcome {
            OutcomeModel::PassThrough(request) => Some(request),
            OutcomeModel::Respond(_) => None,
        }
    }

    /// The response, if the handler produced one.
    pub open spec fn response(self) -> Option<ResponseModel> {
        match self.outcome {
            OutcomeModel::PassThrough(_) => None,
            OutcomeModel::Respond(response) => Some(response),
        }
    }

    /// A result that hands `request` on, without overrides.
    pub open spec fn passing(request: RequestModel) -> ResponseDataModel {
        ResponseDataModel {
            outcome: OutcomeModel::PassThrough(request),
            response_status: None,
            response_headers: None,
            new_remote_address: None,
        }
    }

    /// A result that answers with `response`, without overrides.
    pub open spec fn responding(response: ResponseModel) -> ResponseDataModel {
        ResponseDataModel {
            outcome: OutcomeModel::Respond(response),
            response_status: None,
            response_headers: None,
            new_remote_address: None,
        }
    }
}

impl View for ResponseData {
    type V = ResponseDataModel;

    open spec fn view(&self) -> ResponseDataModel {
        ResponseDataModel {
            outcome: match self.outcome {
                HandlerOutcome::PassThrough(request) => OutcomeModel::PassThrough(request@),
                HandlerOutcome::Respond(response) => OutcomeModel::Respond(response@),
            },
            response_status: self.response_status,
            response_headers: match self.response_headers {
                Some(headers) => Some(headers_model(headers@)),
                None => None,
            },
            new_remote_address: self.new_remote_address,
        }
    }
}

/// What the result of a request handler stands for.
pub open spec fn request_result_model(result: Result<ResponseData, HandlerError>) -> Result<
    ResponseDataModel,
    Seq<char>,
> {
    match result {
        Ok(data) => Ok(data@),
        Err(error) => Err(error@),
    }
}

/// What the result of a response-modifying handler stands for.
pub open spec fn response_result_model(result: Result<Response, HandlerError>) -> Result<
    ResponseModel,
    Seq<char>,
> {
    match result {
        Ok(response) => Ok(response@),
        Err(error) => Err(error@),
    }
}

impl ResponseData {
    /// Hands the request on to the next module, without overrides.
    pub fn pass_through(request: Request) -> (r: ResponseData)
        ensures
            r@ == ResponseDataModel::passing(request@),
            r.outcome == HandlerOutcome::PassThrough(request),
    {
        ResponseData {
            outcome: HandlerOutcome::PassThrough(request),
            response_status: None,
            response_headers: None,
            new_remote_address: None,
        }
    }

    /// Answers the request, without overrides.
    pub fn respond(response: Response) -> (r: ResponseData)
        ensures
            r@ == ResponseDataModel::responding(response@),
            r.outcome == HandlerOutcome::Respond(response),
    {
        ResponseData {
            outcome: HandlerOutcome::Respond(response),
            response_status: None,
            response_headers: None,
            new_remote_address: None,
        }
    }

    /// Whether the handler produced a response.
    pub fn is_handled(&self) -> (r: bool)
        ensures
            r == (self@.response() is Some),
            r == (self@.request() is None),
    {
        match &self.outcome {
            HandlerOutcome::PassThrough(_) => false,
            HandlerOutcome::Respond(_) => true,
        }
    }
}

/// No result of a handler carries both a request and a response, and none
/// carries neither.
pub proof fn lemma_request_excludes_response(data: ResponseData)
    ensures
        (data@.request() is Some) != (data@.response() is Some),
{
}

} // verus!
