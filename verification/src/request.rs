//! Requests and responses of the file-transfer protocol.
//!
//! Raw mode carries a single request line, `GET <path>` ended by CRLF, with
//! no headers and no body. Structured mode carries a numeric status: 200
//! with the file body on success, 404 with an empty body when the path is
//! refused or the file cannot be read.

use vstd::prelude::*;

verus! {

/// Largest request, in bytes, that is buffered rather than refused.
pub const MAX_REQUEST_SIZE: usize = 65536;

/// Status of a successful response.
pub const STATUS_OK: u16 = 200;

/// Status of a response to a refused path or an unreadable file.
pub const STATUS_NOT_FOUND: u16 = 404;

/// Why a raw request was refused.
#[derive(Clone, Copy, Debug, PartialEq, Eq, Structural)]
pub enum RequestError {
    /// The request exceeded [`MAX_REQUEST_SIZE`].
    TooLarge,
    /// The request line did not start with `GET` and a space.
    MissingGetPrefix,
    /// The request line did not end with CRLF.
    MissingCrlf,
}

/// The four bytes of `GET ` that a raw request line must start with.
pub open spec fn is_get_prefix(line: Seq<u8>) -> bool {
    line.len() >= 4 && line[0] == 71 && line[1] == 69 && line[2] == 84 && line[3] == 32
}

/// The CRLF pair that a raw request line must end with.
pub open spec fn ends_with_crlf(line: Seq<u8>) -> bool {
    line.len() >= 2 && line[line.len() - 2] == 13 && line[line.len() - 1] == 10
}

/// What parsing a raw request line returns: the requested path between the
/// `GET ` prefix and the final CRLF, or the reason the line is refused.
/// Oversized requests are refused before anything else is looked at.
pub open spec fn spec_parse_request(line: Seq<u8>) -> Result<Seq<u8>, RequestError> {
    if line.len() > MAX_REQUEST_SIZE {
        Err(RequestError::TooLarge)
    } else if !is_get_prefix(line) {
        Err(RequestError::MissingGetPrefix)
    } else if line.len() < 6 || !ends_with_crlf(line) {
        Err(RequestError::MissingCrlf)
    } else {
        Ok(line.subrange(4, line.len() - 2))
    }
}

/// Parses a raw request line, returning the requested path or the reason
/// the request is refused, exactly as [`spec_parse_request`] says.
pub fn parse_request(line: &[u8]) -> (r: Result<Vec<u8>, RequestError>)
    ensures
        match r {
            Ok(p) => spec_parse_request(line@) == Ok::<Seq<u8>, RequestError>(p@),
            Err(e) => spec_parse_request(line@) == Err::<Seq<u8>, RequestError>(e),
        },
{
    if line.len() > MAX_REQUEST_SIZE {
        return Err(RequestError::TooLarge);
    }
    if line.len() < 4 || line[0] != 71 || line[1] != 69 || line[2] != 84 || line[3] != 32 {
        return Err(RequestError::MissingGetPrefix);
    }
    if line.len() < 6 || line[line.len() - 2] != 13 || line[line.len() - 1] != 10 {
        return Err(RequestError::MissingCrlf);
    }
    let path = vstd::slice::slice_subrange(line, 4, line.len() - 2);
    Ok(vstd::slice::slice_to_vec(path))
}

/// A response: a numeric status and the body bytes.
pub struct Response {
    /// 200 on success, 404 otherwise.
    pub status: u16,
    /// The file content on success, empty otherwise.
    pub body: Vec<u8>,
}

/// Builds the response once the filesystem has been consulted: file bytes
/// give success carrying the full content; a refused path or a failed read
/// gives not-found with an empty body, the two indistinguishable to the
/// requester.
pub fn response_for(read: Option<Vec<u8>>) -> (r: Response)
    ensures
        match read {
            Some(data) => r.status == STATUS_OK && r.body@ == data@,
            None => r.status == STATUS_NOT_FOUND && r.body@.len() == 0,
        },
{
    match read {
        Some(data) => Response { status: STATUS_OK, body: data },
        None => Response { status: STATUS_NOT_FOUND, body: Vec::new() },
    }
}

} // verus!
