//! Decoding of RIS-Live real-time BGP update notifications.
//!
//! JSON texts from the RIS-Live stream are translated into flat routing
//! elements by [`parse_ris_live_message`], with every failure classified as a
//! transport error, a semantic error, or the end-of-table sentinel.

pub mod compose;
pub mod decode;
pub mod elements;
pub mod error;
pub mod json;
pub mod messages;
pub mod net;
pub mod props;
pub mod text;

pub use compose::compose_subscription_message;
pub use decode::parse_ris_live_message;
pub use elements::{segments_match, BgpElem, Community, ElemType, Origin, PathSegment};
pub use error::ParserRisliveError;
pub use messages::{parse_aggregator, parse_as_path, parse_communities, parse_origin};
pub use net::{IpAddress, NetPrefix};
pub use text::parse_u32_dec;
