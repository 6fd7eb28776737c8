mod buffer;
mod client;
mod codec;
mod error;
mod parse;
mod resp;

pub use buffer::VecRingBuffer;
pub use client::{Finished, FinishedKeepHeader, HeaderStep, ReadEvent, RecvStatus, Request,
    RequestBody, RequestHeader, Response, ResponseBody, ResponseBodyKeepHeader, SendStatus,
    WriteOutcome};
pub use codec::{BodySize, ClientFinished, ClientRequest, ClientRequestBody, Header, SendMode};
pub use error::{Error, IoKind, ParseError};
pub use parse::BodyFraming;
pub use resp::{ClientResponse, ClientResponseBody, OwnedResponse, RecvMode};
