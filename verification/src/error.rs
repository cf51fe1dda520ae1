//! Error taxonomy of the mirroring core.
//!
//! Transport and platform-response failures are retryable; markup-shape,
//! identifier-not-found and target-not-found failures are not; persistence
//! failures are surfaced to the caller unchanged.
use vstd::prelude::*;

verus! {

/// A markup fragment did not have the expected shape: an element, attribute
/// or table cell that the extraction rules rely on was absent.
#[derive(Clone, Copy, PartialEq, Eq, Structural, Debug)]
pub enum ParseElementError {
    RevisionId,
    RevisionEle,
    PageNum,
    PageEle,
    SiteId,
    SiteTitle,
    SiteEle,
    ParserId,
    ParserUnixName,
    UserDate,
    UserEle,
    UserAvatar,
    MongoEle,
}

/// The inline script marker that carries a numeric id was absent from a
/// fetched document.
#[derive(Clone, Copy, PartialEq, Eq, Structural, Debug)]
pub enum IdNotFound {
    Site,
    Page,
}

/// The requested entity does not exist on the platform (a 404 answer);
/// terminal for that entity, never retried.
#[derive(Clone, Copy, PartialEq, Eq, Structural, Debug)]
pub enum TargetNotExist {
    Site,
    Page,
}

/// A platform answer that signals transient overload: a "try again" status
/// tag, an empty payload body, or an HTTP status code used for throttling.
/// All of these are retryable under the attempt-limit policy.
#[derive(Clone, Copy, PartialEq, Eq, Structural, Debug)]
pub enum WikidotRespondError {
    TryAgain,
    Empty,
    Status(u16),
}

impl WikidotRespondError {
    pub fn try_again() -> (r: Self)
        ensures
            r == WikidotRespondError::TryAgain,
    {
        WikidotRespondError::TryAgain
    }

    pub fn empty() -> (r: Self)
        ensures
            r == WikidotRespondError::Empty,
    {
        WikidotRespondError::Empty
    }

    pub fn status(status: u16) -> (r: Self)
        ensures
            r == WikidotRespondError::Status(status),
    {
        WikidotRespondError::Status(status)
    }
}

/// A failure of one RPC or document-fetch call. `Transport` stands for a
/// connection, TLS or timeout failure reported by the HTTP layer,
/// `HeaderParse` for a malformed header value, and `Conversion` for a
/// response header that was not valid text.
#[derive(Clone, Copy, PartialEq, Eq, Structural, Debug)]
pub enum AjaxClientError {
    Transport,
    HeaderParse,
    Respond(WikidotRespondError),
    Conversion,
}

/// Any failure the mirroring core can surface for one entity or one pass.
#[derive(Clone, Copy, PartialEq, Eq, Structural, Debug)]
pub enum WikidotError {
    ParseInt,
    ParseFloat,
    ParseElement(ParseElementError),
    Client(AjaxClientError),
    IdNotFound(IdNotFound),
    TargetNotExist(TargetNotExist),
    Persistence,
}

/// Whether a failure is worth retrying under the attempt-limit policy:
/// transport and platform-response failures are, structural failures are not.
pub open spec fn spec_retryable(e: WikidotError) -> bool {
    e is Client
}

impl WikidotError {
    /// Classifies this failure for the retry policy.
    pub fn retryable(&self) -> (r: bool)
        ensures
            r == spec_retryable(*self),
    {
        match self {
            WikidotError::Client(_) => true,
            _ => false,
        }
    }
}

} // verus!
