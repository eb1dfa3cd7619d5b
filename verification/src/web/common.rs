//! The request and response values that the handlers work on.

use vstd::prelude::*;
use vstd::string::*;
use vstd::utf8::*;

verus! {

/// A response header: a name and a value.
pub struct Header {
    pub name: String,
    pub value: String,
}

impl View for Header {
    type V = (Seq<char>, Seq<char>);

    open spec fn view(&self) -> (Seq<char>, Seq<char>) {
        (self.name@, self.value@)
    }
}

/// The names and values of a list of headers.
pub open spec fn header_views(headers: Seq<Header>) -> Seq<(Seq<char>, Seq<char>)> {
    Seq::new(headers.len(), |i: int| headers[i]@)
}

/// What a response says: its status, its media type if it names one, its
/// further headers in order, and the bytes of its body.
pub struct ResponseView {
    pub status: u16,
    pub content_type: Option<Seq<char>>,
    pub headers: Seq<(Seq<char>, Seq<char>)>,
    pub body: Seq<u8>,
}

/// A complete response: status, headers and body.
pub struct HttpResponse {
    pub status: u16,
    /// The value of the `Content-Type` header, if the response carries one.
    pub content_type: Option<String>,
    /// The headers besides `Content-Type`, in the order they were added.
    pub headers: Vec<Header>,
    pub body: Vec<u8>,
}

impl View for HttpResponse {
    type V = ResponseView;

    open spec fn view(&self) -> ResponseView {
        ResponseView {
            status: self.status,
            content_type: match self.content_type {
                Some(t) => Some(t@),
                None => None,
            },
            headers: header_views(self.headers@),
            body: self.body@,
        }
    }
}

/// The media type that a response built from a string starts with.
pub open spec fn default_text_type() -> Seq<char> {
    "text/plain; charset=UTF-8"@
}

/// A response with the given status whose body is `text` in UTF-8, labelled
/// as plain text.
pub open spec fn plain_text(status: u16, text: Seq<char>) -> ResponseView {
    ResponseView {
        status,
        content_type: Some(default_text_type()),
        headers: Seq::empty(),
        body: encode_utf8(text),
    }
}

impl HttpResponse {
    /// A 200 response whose body is `text` in UTF-8, labelled as plain text.
    pub fn from_string(text: &str) -> (r: HttpResponse)
        ensures
            r@ == plain_text(200, text@),
    {
        let r = HttpResponse {
            status: 200,
            content_type: Some("text/plain; charset=UTF-8".to_string()),
            headers: Vec::new(),
            body: text.as_bytes_vec(),
        };
        assert(r@.headers =~= Seq::empty());
        r
    }

    /// A 200 response with the given body and no headers.
    pub fn from_data(data: Vec<u8>) -> (r: HttpResponse)
        ensures
            r@ == (ResponseView {
                status: 200,
                content_type: None,
                headers: Seq::empty(),
                body: data@,
            }),
    {
        let r = HttpResponse { status: 200, content_type: None, headers: Vec::new(), body: data };
        assert(r@.headers =~= Seq::empty());
        r
    }

    /// The same response with another status.
    pub fn with_status_code(self, status: u16) -> (r: HttpResponse)
        ensures
            r@ == (ResponseView { status, ..self@ }),
    {
        HttpResponse {
            status,
            content_type: self.content_type,
            headers: self.headers,
            body: self.body,
        }
    }

    /// The same response labelled with another media type.
    pub fn with_content_type(self, content_type: &str) -> (r: HttpResponse)
        ensures
            r@ == (ResponseView { content_type: Some(content_type@), ..self@ }),
    {
        HttpResponse {
            status: self.status,
            content_type: Some(content_type.to_string()),
            headers: self.headers,
            body: self.body,
        }
    }

    /// The same response with one more header after those it has.
    pub fn with_header(self, name: &str, value: &str) -> (r: HttpResponse)
        ensures
            r@ == (ResponseView { headers: self@.headers.push((name@, value@)), ..self@ }),
    {
        let mut headers = self.headers;
        headers.push(Header { name: name.to_string(), value: value.to_string() });
        let r = HttpResponse {
            status: self.status,
            content_type: self.content_type,
            headers,
            body: self.body,
        };
        assert(r@.headers =~= self@.headers.push((name@, value@)));
        r
    }
}

/// A minimal response: the status and a plain-text message.
pub fn create_error_response(status_code: u16, message: &str) -> (r: HttpResponse)
    ensures
        r@ == plain_text(status_code, message@),
{
    HttpResponse::from_string(message).with_status_code(status_code)
}

/// A request header: its field name, and its value as the bytes received.
pub struct RequestHeader {
    pub field: String,
    pub value: Vec<u8>,
}

/// A request as it was read from a connection.
pub struct HttpRequest {
    pub method: String,
    /// The request target: a path, then `?` and a query, then `#` and a fragment.
    pub url: String,
    /// The headers in the order received; a name may occur more than once.
    pub headers: Vec<RequestHeader>,
    /// The body, or `None` where it could not be read.
    pub body: Option<Vec<u8>>,
}

} // verus!
