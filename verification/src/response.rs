//! HTTP responses as plain values: a status code, an ordered list of header
//! pairs and the body bytes. This is what a publish request answers with and
//! what the idempotency store keeps for replay.

use vstd::prelude::*;
use vstd::string::StringSliceAdditionalSpecFns;

verus! {

/// A number is an HTTP status code when it has three digits.
pub open spec fn is_status_code(code: int) -> bool {
    100 <= code < 1000
}

/// One header: its name, and its value as bytes.
#[derive(Debug, Clone, PartialEq, Eq)]
pub struct HeaderPairRecord {
    pub name: String,
    pub value: Vec<u8>,
}

impl View for HeaderPairRecord {
    type V = (Seq<char>, Seq<u8>);

    open spec fn view(&self) -> (Seq<char>, Seq<u8>) {
        (self.name@, self.value@)
    }
}

/// A header list as contracts see it: the pairs in order.
pub open spec fn headers_view(headers: Seq<HeaderPairRecord>) -> Seq<(Seq<char>, Seq<u8>)> {
    Seq::new(headers.len(), |i: int| headers[i]@)
}

/// What a response is made of. Two responses with the same view are the same
/// bytes on the wire.
pub struct ResponseView {
    pub status_code: int,
    pub headers: Seq<(Seq<char>, Seq<u8>)>,
    pub body: Seq<u8>,
}

/// The number given is no HTTP status code.
#[derive(Debug, Clone, Copy, PartialEq, Eq)]
pub struct InvalidStatusCode;

/// A response. Its status code always has three digits.
#[derive(Debug, PartialEq, Eq)]
pub struct HttpResponse {
    status_code: u16,
    headers: Vec<HeaderPairRecord>,
    body: Vec<u8>,
}

impl View for HttpResponse {
    type V = ResponseView;

    closed spec fn view(&self) -> ResponseView {
        ResponseView {
            status_code: self.status_code as int,
            headers: headers_view(self.headers@),
            body: self.body@,
        }
    }
}

/// The persisted form of a response: the three columns of an idempotency
/// record that hold it. The status column is a signed 16-bit number.
#[derive(Debug, Clone, PartialEq, Eq)]
pub struct SavedResponseRow {
    pub response_status_code: i16,
    pub response_headers: Vec<HeaderPairRecord>,
    pub response_body: Vec<u8>,
}

impl View for SavedResponseRow {
    type V = ResponseView;

    open spec fn view(&self) -> ResponseView {
        ResponseView {
            status_code: self.response_status_code as int,
            headers: headers_view(self.response_headers@),
            body: self.response_body@,
        }
    }
}

impl SavedResponseRow {
    /// A copy of this row, byte for byte.
    pub fn duplicate(&self) -> (copy: SavedResponseRow)
        ensures
            copy@ == self@,
    {
        SavedResponseRow {
            response_status_code: self.response_status_code,
            response_headers: copy_headers(&self.response_headers),
            response_body: copy_bytes(&self.response_body),
        }
    }
}

/// Why a persisted row is no response.
#[derive(Debug, Clone, Copy, PartialEq, Eq)]
pub enum SavedResponseError {
    /// The status column holds a negative number.
    NegativeStatusCode,
    /// The status column holds a number without three digits.
    InvalidStatusCode,
}

/// `reqwest::StatusCode::from_u16`, asked only whether it accepts `code`.
/// It accepts exactly the numbers from 100 to 999.
#[verifier::external_body]
fn status_code_accepted(code: u16) -> (accepted: bool)
    ensures
        accepted <==> is_status_code(code as int),
{
    reqwest::StatusCode::from_u16(code).is_ok()
}

/// A copy of a byte string.
pub fn copy_bytes(bytes: &Vec<u8>) -> (copy: Vec<u8>)
    ensures
        copy@ == bytes@,
{
    let mut copy: Vec<u8> = Vec::new();
    let mut i: usize = 0;
    while i < bytes.len()
        invariant
            i <= bytes@.len(),
            copy@ == bytes@.subrange(0, i as int),
        decreases bytes@.len() - i,
    {
        copy.push(bytes[i]);
        i += 1;
        assert(copy@ =~= bytes@.subrange(0, i as int));
    }
    assert(bytes@.subrange(0, bytes@.len() as int) =~= bytes@);
    copy
}

/// A copy of a header list.
pub fn copy_headers(headers: &Vec<HeaderPairRecord>) -> (copy: Vec<HeaderPairRecord>)
    ensures
        headers_view(copy@) == headers_view(headers@),
{
    let mut copy: Vec<HeaderPairRecord> = Vec::new();
    let mut i: usize = 0;
    while i < headers.len()
        invariant
            i <= headers@.len(),
            copy@.len() == i,
            forall|j: int| 0 <= j < i ==> (#[trigger] copy@[j])@ == headers@[j]@,
        decreases headers@.len() - i,
    {
        let name = headers[i].name.clone();
        let value = copy_bytes(&headers[i].value);
        copy.push(HeaderPairRecord { name, value });
        i += 1;
    }
    assert(headers_view(copy@) =~= headers_view(headers@));
    copy
}

impl HttpResponse {
    #[verifier::type_invariant]
    closed spec fn has_status_code(&self) -> bool {
        is_status_code(self.status_code as int)
    }

    /// A response with the given status, headers and body, where the status
    /// is an HTTP status code.
    pub fn build(status_code: u16, headers: Vec<HeaderPairRecord>, body: Vec<u8>) -> (r: Result<
        HttpResponse,
        InvalidStatusCode,
    >)
        ensures
            r is Ok <==> is_status_code(status_code as int),
            r matches Ok(response) ==> response@ == (ResponseView {
                status_code: status_code as int,
                headers: headers_view(headers@),
                body: body@,
            }),
    {
        if status_code_accepted(status_code) {
            Ok(HttpResponse { status_code, headers, body })
        } else {
            Err(InvalidStatusCode)
        }
    }

    /// A response with a status that is known to be an HTTP status code.
    pub(crate) fn with_status(status_code: u16, headers: Vec<HeaderPairRecord>, body: Vec<u8>) -> (response:
        HttpResponse)
        requires
            is_status_code(status_code as int),
        ensures
            response@ == (ResponseView {
                status_code: status_code as int,
                headers: headers_view(headers@),
                body: body@,
            }),
    {
        HttpResponse { status_code, headers, body }
    }

    /// The status code.
    pub fn status(&self) -> (code: u16)
        ensures
            code as int == self@.status_code,
            is_status_code(code as int),
    {
        proof {
            use_type_invariant(self);
        }
        self.status_code
    }

    /// The headers, in order.
    pub fn headers(&self) -> (headers: &Vec<HeaderPairRecord>)
        ensures
            headers_view(headers@) == self@.headers,
    {
        &self.headers
    }

    /// The body.
    pub fn body(&self) -> (body: &Vec<u8>)
        ensures
            body@ == self@.body,
    {
        &self.body
    }

    /// A copy of this response, byte for byte.
    pub fn duplicate(&self) -> (copy: HttpResponse)
        ensures
            copy@ == self@,
    {
        proof {
            use_type_invariant(self);
        }
        HttpResponse {
            status_code: self.status_code,
            headers: copy_headers(&self.headers),
            body: copy_bytes(&self.body),
        }
    }
}

impl Clone for HttpResponse {
    fn clone(&self) -> (copy: HttpResponse)
        ensures
            copy@ == self@,
    {
        self.duplicate()
    }
}

/// What `redirect` answers with: 303 See Other, one `location` header that
/// holds the target, and no body.
pub open spec fn redirect_view(location: Seq<u8>) -> ResponseView {
    ResponseView { status_code: 303, headers: seq![("location"@, location)], body: Seq::empty() }
}

/// A redirect to `location`.
pub fn redirect(location: &str) -> (response: HttpResponse)
    ensures
        response@ == redirect_view(location.spec_bytes()),
{
    let mut headers: Vec<HeaderPairRecord> = Vec::new();
    headers.push(HeaderPairRecord { name: "location".to_owned(), value: location.as_bytes_vec() });
    let response = HttpResponse { status_code: 303, headers, body: Vec::new() };
    assert(response@.headers =~= seq![("location"@, location.spec_bytes())]);
    response
}

/// The response that a persisted row stands for.
pub open spec fn response_of_row(row: ResponseView) -> Result<ResponseView, SavedResponseError> {
    if row.status_code < 0 {
        Err(SavedResponseError::NegativeStatusCode)
    } else if !is_status_code(row.status_code) {
        Err(SavedResponseError::InvalidStatusCode)
    } else {
        Ok(row)
    }
}

/// Reads a response back from its persisted form. The row is refused when
/// its status column is negative or has not three digits.
pub fn response_from_row(row: SavedResponseRow) -> (r: Result<HttpResponse, SavedResponseError>)
    ensures
        match r {
            Ok(response) => response_of_row(row@) == Ok::<ResponseView, SavedResponseError>(response@),
            Err(e) => response_of_row(row@) == Err::<ResponseView, SavedResponseError>(e),
        },
{
    let SavedResponseRow { response_status_code, response_headers, response_body } = row;
    if response_status_code < 0 {
        return Err(SavedResponseError::NegativeStatusCode);
    }
    let code: u16 = response_status_code as u16;
    match HttpResponse::build(code, response_headers, response_body) {
        Ok(response) => Ok(response),
        Err(_) => Err(SavedResponseError::InvalidStatusCode),
    }
}

/// The persisted form of a response: the same status, headers and body.
pub fn row_from_response(response: &HttpResponse) -> (row: SavedResponseRow)
    ensures
        row@ == response@,
        response_of_row(row@) == Ok::<ResponseView, SavedResponseError>(response@),
{
    let code = response.status();
    SavedResponseRow {
        response_status_code: code as i16,
        response_headers: copy_headers(response.headers()),
        response_body: copy_bytes(response.body()),
    }
}

} // verus!
