//! Git smart-HTTP bridge core: the pkt-line codec, the refs-advertisement
//! builder, and the CGI response parser.

pub mod cgi;
pub mod err;
pub mod pkt;
pub mod refs;

pub use cgi::CgiResponseParser;
pub use err::BridgeError;
pub use pkt::PktLine;
pub use refs::RefsAdvertiser;
