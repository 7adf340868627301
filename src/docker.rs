//! Request assembly and the classification of the engine's responses.

use crate::text::{base64_encode, base64_text, utf8_to_string};
use crate::utils::{ClientError, DockerError};
use vstd::prelude::*;
use vstd::string::*;
use vstd::utf8::{encode_utf8, valid_utf8};

verus! {

/// The registry credentials sent along with a push.
pub struct AuthHeader {
    pub username: String,
    pub password: String,
    pub email: String,
    pub serveraddress: String,
}

impl AuthHeader {
    /// Credentials without an identity, for the given registry server.
    pub fn for_server(server_address: &str) -> (r: AuthHeader)
        ensures
            r.username@ == Seq::<char>::empty(),
            r.password@ == Seq::<char>::empty(),
            r.email@ == Seq::<char>::empty(),
            r.serveraddress@ == server_address@,
    {
        AuthHeader {
            username: String::new(),
            password: String::new(),
            email: String::new(),
            serveraddress: server_address.to_owned(),
        }
    }
}

/// The methods the engine's API is called with.
#[derive(Debug, Clone, Copy, PartialEq, Eq, Structural)]
pub enum HttpMethod {
    Get,
    Post,
    Delete,
}

/// A request ready for the transport: where it goes, its headers in order, and its body.
pub struct HttpRequest {
    pub method: HttpMethod,
    pub socket_path: String,
    pub endpoint: String,
    pub headers: Vec<(String, String)>,
    pub body: Vec<u8>,
}

/// Bytes a URI path carries as they are.
pub open spec fn is_path_byte(b: u8) -> bool {
    ||| b == 0x21
    ||| 0x24 <= b <= 0x3b
    ||| b == 0x3d
    ||| 0x40 <= b <= 0x5f
    ||| 0x61 <= b <= 0x7a
    ||| b == 0x7c
    ||| b == 0x7e
    ||| b == 0x22
    ||| b == 0x7b
    ||| b == 0x7d
}

/// Bytes a URI query carries as they are.
pub open spec fn is_query_byte(b: u8) -> bool {
    ||| b == 0x21
    ||| 0x24 <= b <= 0x3b
    ||| b == 0x3d
    ||| 0x3f <= b <= 0x7e
}

/// A `?` stands before position `i`, so that the byte there belongs to the query.
pub open spec fn in_query(t: Seq<u8>, i: int) -> bool {
    exists|j: int| 0 <= j < i && t[j] == 0x3f
}

/// The byte at `i` may stand there in a request target.
pub open spec fn valid_target_byte(t: Seq<u8>, i: int) -> bool {
    if in_query(t, i) {
        is_query_byte(t[i])
    } else {
        t[i] == 0x3f || is_path_byte(t[i])
    }
}

/// A request target: an absolute path, then optionally `?` and a query, with no byte that
/// would have to be percent-encoded and no fragment.
pub open spec fn is_valid_target(t: Seq<u8>) -> bool {
    &&& t.len() > 0
    &&& t[0] == 0x2f
    &&& forall|i: int| 0 <= i < t.len() ==> valid_target_byte(t, i)
}

/// The longest URI the transport takes.
pub const MAX_URI_LEN: usize = 65534;

/// The socket's URI (`unix://`, the socket path in hexadecimal, `:0`) and the target fit
/// the transport's URI length.
pub open spec fn request_fits(socket_path: Seq<u8>, target: Seq<u8>) -> bool {
    9 + 2 * socket_path.len() + target.len() <= MAX_URI_LEN
}

fn is_path_byte_exec(b: u8) -> (r: bool)
    ensures
        r == is_path_byte(b),
{
    b == 0x21 || (0x24 <= b && b <= 0x3b) || b == 0x3d || (0x40 <= b && b <= 0x5f) || (0x61 <= b
        && b <= 0x7a) || b == 0x7c || b == 0x7e || b == 0x22 || b == 0x7b || b == 0x7d
}

fn is_query_byte_exec(b: u8) -> (r: bool)
    ensures
        r == is_query_byte(b),
{
    b == 0x21 || (0x24 <= b && b <= 0x3b) || b == 0x3d || (0x3f <= b && b <= 0x7e)
}

/// Whether an endpoint can be sent on the given socket: it is a valid request target and
/// the whole URI fits the transport.
pub fn check_target(socket_path: &str, endpoint: &str) -> (r: bool)
    ensures
        r == (is_valid_target(encode_utf8(endpoint@)) && request_fits(
            encode_utf8(socket_path@),
            encode_utf8(endpoint@),
        )),
{
    let t = endpoint.as_bytes();
    let n = t.len();
    let sock_len = socket_path.as_bytes().len();
    if sock_len > (MAX_URI_LEN - 9) / 2 || n > MAX_URI_LEN || 9 + 2 * sock_len + n > MAX_URI_LEN {
        return false;
    }
    if n == 0 || t[0] != 0x2f {
        return false;
    }
    let mut query = false;
    let mut i: usize = 0;
    while i < n
        invariant
            0 <= i <= n,
            n == t@.len(),
            n > 0,
            t@[0] == 0x2f,
            t@ == encode_utf8(endpoint@),
            request_fits(encode_utf8(socket_path@), encode_utf8(endpoint@)),
            query == in_query(t@, i as int),
            forall|k: int| 0 <= k < i ==> valid_target_byte(t@, k),
        decreases n - i,
    {
        let b = t[i];
        if query {
            if !is_query_byte_exec(b) {
                assert(!valid_target_byte(t@, i as int));
                return false;
            }
        } else {
            if !(b == 0x3f || is_path_byte_exec(b)) {
                assert(!valid_target_byte(t@, i as int));
                return false;
            }
        }
        assert(valid_target_byte(t@, i as int));
        if b == 0x3f {
            assert(in_query(t@, i + 1)) by {
                assert(t@[i as int] == 0x3f);
            }
            query = true;
        } else if !query {
            assert(!in_query(t@, i + 1)) by {
                if in_query(t@, i + 1) {
                    let j = choose|j: int| 0 <= j < i + 1 && t@[j] == 0x3f;
                    if j < i {
                        assert(in_query(t@, i as int));
                    }
                }
            }
        } else {
            assert(in_query(t@, i + 1)) by {
                let j = choose|j: int| 0 <= j < i && t@[j] == 0x3f;
                assert(0 <= j < i + 1 && t@[j] == 0x3f);
            }
        }
        i = i + 1;
    }
    true
}

/// The header every request carries: an empty `Host`, the transport being a socket.
pub open spec fn host_header() -> (Seq<char>, Seq<char>) {
    ("Host"@, ""@)
}

/// The request for a call: the empty `Host` header first, then the caller's headers in their
/// order, and the body, empty when there is none. Fails with `MalformedRequestError` exactly
/// when the endpoint is not a valid request target or the URI would be too long.
pub fn build_request(
    socket_path: &str,
    method: HttpMethod,
    endpoint: &str,
    body: Option<Vec<u8>>,
    headers: Option<Vec<(String, String)>>,
) -> (r: Result<HttpRequest, ClientError>)
    ensures
        r is Ok <==> (is_valid_target(encode_utf8(endpoint@)) && request_fits(
            encode_utf8(socket_path@),
            encode_utf8(endpoint@),
        )),
        r matches Ok(req) ==> {
            &&& req.method == method
            &&& req.socket_path@ == socket_path@
            &&& req.endpoint@ == endpoint@
            &&& req.headers.deep_view()[0] == host_header()
            &&& req.headers.deep_view() == seq![host_header()] + match headers {
                Some(h) => h.deep_view(),
                None => Seq::empty(),
            }
            &&& req.body@ == match body {
                Some(b) => b@,
                None => Seq::empty(),
            }
        },
        r matches Err(e) ==> e matches ClientError::MalformedRequestError { endpoint: ep }
            && ep@ == endpoint@,
{
    if !check_target(socket_path, endpoint) {
        return Err(ClientError::MalformedRequestError { endpoint: endpoint.to_owned() });
    }
    let mut all: Vec<(String, String)> = Vec::new();
    let host = ("Host".to_owned(), "".to_owned());
    let ghost ghost_host = host;
    all.push(host);
    proof {
        reveal_strlit("Host");
        reveal_strlit("");
        assert(all.deep_view() =~= seq![host_header()]);
    }
    match headers {
        Some(h) => {
            let mut rest = h;
            let ghost prev = all@;
            let ghost added = rest@;
            all.append(&mut rest);
            assert(all@ == prev + added);
            assert(all.deep_view() =~= seq![host_header()] + h.deep_view()) by {
                assert forall|j: int| 0 <= j < all.len() implies #[trigger] all.deep_view()[j] == (
                seq![host_header()] + h.deep_view())[j] by {
                    if j == 0 {
                        assert(all@[0] == ghost_host);
                    } else {
                        assert(all@[j] == added[j - 1]);
                    }
                }
            }
        },
        None => {
            assert(seq![host_header()] + Seq::<(Seq<char>, Seq<char>)>::empty() =~= seq![
                host_header(),
            ]);
        },
    }
    let content = match body {
        Some(b) => b,
        None => Vec::new(),
    };
    Ok(
        HttpRequest {
            method,
            socket_path: socket_path.to_owned(),
            endpoint: endpoint.to_owned(),
            headers: all,
            body: content,
        },
    )
}

/// The classified failure statuses: 400, 404, 409 and 500.
pub open spec fn failure_status(status: u16) -> bool {
    status == 400 || status == 404 || status == 409 || status == 500
}

/// Whether a response status is one of the classified failures, whose body carries an error
/// envelope; every other status passes the response through.
pub fn is_failure_status(status: u16) -> (r: bool)
    ensures
        r == failure_status(status),
{
    status == 400 || status == 404 || status == 409 || status == 500
}

/// The error a classified failure becomes: an `ApiError` with the status and the envelope's
/// message, or a `BodyDecodeError` when the envelope could not be read.
pub open spec fn api_error_for(status: u16, envelope: Result<DockerError, String>) -> ClientError {
    match envelope {
        Ok(e) => ClientError::ApiError { status, message: e.message },
        Err(diagnostic) => ClientError::BodyDecodeError { message: diagnostic },
    }
}

/// Turns the decoded error envelope of a classified failure into the call's error.
pub fn translate_error(status: u16, envelope: Result<DockerError, String>) -> (r: ClientError)
    ensures
        r == api_error_for(status, envelope),
{
    match envelope {
        Ok(e) => ClientError::ApiError { status, message: e.message },
        Err(diagnostic) => ClientError::BodyDecodeError { message: diagnostic },
    }
}

/// What the Error Translator makes of a response: for a classified failure status, the error
/// built from its envelope; for any other status, the response passes unchanged.
pub open spec fn translate_response(status: u16, envelope: Result<DockerError, String>) -> Result<
    (),
    ClientError,
> {
    if failure_status(status) {
        Err(api_error_for(status, envelope))
    } else {
        Ok(())
    }
}

/// Each classified failure status with the envelope `{"message": X}` yields `ApiError` with
/// that status and `X`; status 200 yields the response unchanged, whatever its body.
pub proof fn lemma_error_translator(message: String, envelope: Result<DockerError, String>)
    ensures
        forall|status: u16|
            status == 400 || status == 404 || status == 409 || status == 500
                ==> #[trigger] translate_response(status, Ok(DockerError { message }))
                == Err::<(), ClientError>(ClientError::ApiError { status, message }),
        translate_response(200, envelope) == Ok::<(), ClientError>(()),
{
}

/// The text of a response body. Fails with `BodyDecodeError` exactly when the bytes are not
/// UTF-8.
pub fn decode_text(body: Vec<u8>) -> (r: Result<String, ClientError>)
    ensures
        r is Ok <==> valid_utf8(body@),
        r matches Ok(t) ==> encode_utf8(t@) == body@,
        r matches Err(e) ==> e is BodyDecodeError,
{
    match utf8_to_string(body) {
        Some(t) => Ok(t),
        None => Err(
            ClientError::BodyDecodeError { message: "response body is not valid UTF-8".to_owned() },
        ),
    }
}

/// The header that carries registry credentials: their JSON text in base64.
pub fn registry_auth_header(auth_json: &str) -> (r: (String, String))
    ensures
        r.0@ == "X-Registry-Auth"@,
        r.1@ == base64_text(encode_utf8(auth_json@)),
{
    ("X-Registry-Auth".to_owned(), base64_encode(auth_json))
}

} // verus!
