//! The closed error taxonomy of the decoder: transport errors, semantic
//! errors, and the end-of-table sentinel.
use vstd::prelude::*;

verus! {

/// Every way a message can fail to decode.
///
/// `IncorrectJson` is the transport error: malformed JSON, missing mandatory
/// structure, or a mandatory scalar (peer address, peer ASN, next hop) that
/// does not parse; it carries the whole original text. The `Elem*` variants
/// are semantic errors: a present, well-shaped field whose content violates
/// its grammar; each carries the offending value. `ElemEndOfRibPrefix` is the
/// end-of-table sentinel, a normal lifecycle signal rather than corruption.
#[derive(Clone, PartialEq, Eq, Debug)]
pub enum ParserRisliveError {
    IncorrectJson(String),
    ElemUnknownOriginType(String),
    ElemIncorrectAggregator(String),
    ElemIncorrectPrefix(String),
    ElemIncorrectCommunity(usize),
    ElemEndOfRibPrefix,
}

/// The model of a decode error.
pub enum ErrM {
    IncorrectJson(Seq<char>),
    UnknownOrigin(Seq<char>),
    IncorrectAggregator(Seq<char>),
    IncorrectPrefix(Seq<char>),
    IncorrectCommunity(int),
    EndOfRib,
}

impl View for ParserRisliveError {
    type V = ErrM;

    open spec fn view(&self) -> ErrM {
        match self {
            ParserRisliveError::IncorrectJson(s) => ErrM::IncorrectJson(s@),
            ParserRisliveError::ElemUnknownOriginType(s) => ErrM::UnknownOrigin(s@),
            ParserRisliveError::ElemIncorrectAggregator(s) => ErrM::IncorrectAggregator(s@),
            ParserRisliveError::ElemIncorrectPrefix(s) => ErrM::IncorrectPrefix(s@),
            ParserRisliveError::ElemIncorrectCommunity(n) => ErrM::IncorrectCommunity(*n as int),
            ParserRisliveError::ElemEndOfRibPrefix => ErrM::EndOfRib,
        }
    }
}

/// Carries a result's error over to the model, leaving the success value.
pub open spec fn err_view<T>(r: Result<T, ParserRisliveError>) -> Result<T, ErrM> {
    match r {
        Ok(x) => Ok(x),
        Err(e) => Err(e@),
    }
}

} // verus!
