//! What the read-only facade answers: the outcome of a read as a status and
//! the fields of the JSON body.

use vstd::prelude::*;
use crate::cache::server::{client_takes, RedisServer};
use crate::cache::RedisResponse;
use crate::error::{CliErrors, ErrorKind, RedisErrors};
use crate::options::WebArgs;

verus! {

/// What a request is answered with.
#[derive(Clone, Debug, PartialEq, Eq)]
pub enum Response<T> {
    /// What was asked for.
    Result { result: T },
    /// The read failed.
    Error { message: String },
    /// There is no such entity.
    NotFound,
}

/// The status of an answer and the fields of its body besides the result.
#[derive(Clone, Debug, PartialEq, Eq)]
pub struct Envelope {
    /// The HTTP status.
    pub status: u16,
    /// The field `code` of the body.
    pub code: u16,
    /// The field `success` of the body.
    pub success: bool,
    /// The field `message` of the body, where it has one.
    pub message: Option<String>,
}

/// An envelope as the contracts see it.
pub struct EnvelopeView {
    pub status: u16,
    pub code: u16,
    pub success: bool,
    pub message: Option<Seq<char>>,
}

impl View for Envelope {
    type V = EnvelopeView;

    open spec fn view(&self) -> EnvelopeView {
        EnvelopeView {
            status: self.status,
            code: self.code,
            success: self.success,
            message: match self.message {
                Some(text) => Some(text@),
                None => None,
            },
        }
    }
}

/// The envelope of an answer: 200 with the result, 500 with the failure's
/// text under the code 501, or 404 with the words `not found`.
pub open spec fn envelope_of<T>(response: Response<T>) -> EnvelopeView {
    match response {
        Response::Result { .. } => EnvelopeView {
            status: 200,
            code: 200,
            success: true,
            message: None,
        },
        Response::Error { message } => EnvelopeView {
            status: 500,
            code: 501,
            success: false,
            message: Some(message@),
        },
        Response::NotFound => EnvelopeView {
            status: 404,
            code: 404,
            success: true,
            message: Some("not found"@),
        },
    }
}

impl<T> Response<T> {
    /// The answer to a request whose read ended with `outcome`: the entity
    /// found, the text of the failure, or the word that there is none.
    pub fn of(outcome: RedisResponse<T, RedisErrors>) -> (response: Response<T>)
        ensures
            match outcome {
                RedisResponse::Found(result) => response == (Response::Result { result }),
                RedisResponse::Failed(e) => response matches Response::Error { message }
                    && message@ == e.message_text(),
                RedisResponse::Missing => response == Response::<T>::NotFound,
            },
    {
        match outcome {
            RedisResponse::Found(result) => Response::Result { result },
            RedisResponse::Failed(e) => Response::Error { message: e.message() },
            RedisResponse::Missing => Response::NotFound,
        }
    }

    /// The envelope of this answer, and the result where there is one.
    pub fn into_response(self) -> (r: (Envelope, Option<T>))
        ensures
            r.0@ == envelope_of(self),
            match self {
                Response::Result { result } => r.1 == Some(result),
                _ => r.1 is None,
            },
    {
        match self {
            Response::Result { result } => (
                Envelope { status: 200, code: 200, success: true, message: None },
                Some(result),
            ),
            Response::Error { message } => (
                Envelope { status: 500, code: 501, success: false, message: Some(message) },
                None,
            ),
            Response::NotFound => (
                Envelope {
                    status: 404,
                    code: 404,
                    success: true,
                    message: Some(String::from_str("not found")),
                },
                None,
            ),
        }
    }
}

/// The answer of the health probe, which asks nothing of the store.
pub fn status() -> (response: Response<String>)
    ensures
        response matches Response::Result { result } && result@ == "OK"@,
{
    Response::Result { result: String::from_str("OK") }
}

/// The store that the facade reads from, where the backend client takes
/// the address, and else the failure to connect.
pub fn web_server(args: &WebArgs) -> (r: Result<RedisServer, CliErrors>)
    ensures
        r is Ok <==> client_takes(args.redis_address@),
        match r {
            Ok(server) => server.address_text() == args.redis_address@,
            Err(CliErrors::Redis(e)) => e.kind_of() == ErrorKind::Connect && e.subject_text()
                == args.redis_address@,
            Err(_) => false,
        },
{
    match RedisServer::new(args.redis_address.as_str()) {
        Ok(server) => Ok(server),
        Err(e) => Err(CliErrors::Redis(e)),
    }
}

} // verus!
