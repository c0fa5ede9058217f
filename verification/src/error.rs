//! What can go wrong between the resolver and the identity provider.

use vstd::prelude::*;

verus! {

/// Why one exchange with the provider gave no usable reply.
#[derive(Debug, Clone, PartialEq, Eq)]
pub enum RequestError {
    /// No reply came: the connection failed or timed out. Holds the cause as
    /// the transport reported it.
    Transport(String),
    /// A reply came with a status outside 200..=299.
    Status(u16),
    /// A reply came whose body could not be read as what was asked for.
    /// Holds the cause as the decoder reported it.
    Malformed(String),
}

/// Why a provider record gave no identity record. Each variant holds the
/// name of the attribute at fault.
#[derive(Debug, Clone, PartialEq, Eq)]
pub enum MappingError {
    /// A required attribute has no value.
    Missing(String),
    /// An attribute has more than one value.
    Multiple(String),
    /// A numeric attribute holds something other than a number.
    NotANumber(String),
}

/// Why a lookup failed.
#[derive(Debug, Clone, PartialEq, Eq)]
pub enum Error {
    /// A query for identity data failed.
    Request(RequestError),
    /// No bearer token could be had: the grant or the refresh failed.
    Auth(RequestError),
    /// A record could not be mapped.
    Mapping(MappingError),
}

/// [`RequestError`] with texts as character sequences.
pub enum RequestErrorView {
    Transport(Seq<char>),
    Status(u16),
    Malformed(Seq<char>),
}

/// [`MappingError`] with texts as character sequences.
pub enum MappingErrorView {
    Missing(Seq<char>),
    Multiple(Seq<char>),
    NotANumber(Seq<char>),
}

/// [`Error`] with texts as character sequences.
pub enum ErrorView {
    Request(RequestErrorView),
    Auth(RequestErrorView),
    Mapping(MappingErrorView),
}

impl View for RequestError {
    type V = RequestErrorView;

    open spec fn view(&self) -> RequestErrorView {
        match self {
            RequestError::Transport(cause) => RequestErrorView::Transport(cause@),
            RequestError::Status(status) => RequestErrorView::Status(*status),
            RequestError::Malformed(cause) => RequestErrorView::Malformed(cause@),
        }
    }
}

impl View for MappingError {
    type V = MappingErrorView;

    open spec fn view(&self) -> MappingErrorView {
        match self {
            MappingError::Missing(name) => MappingErrorView::Missing(name@),
            MappingError::Multiple(name) => MappingErrorView::Multiple(name@),
            MappingError::NotANumber(name) => MappingErrorView::NotANumber(name@),
        }
    }
}

impl View for Error {
    type V = ErrorView;

    open spec fn view(&self) -> ErrorView {
        match self {
            Error::Request(cause) => ErrorView::Request(cause@),
            Error::Auth(cause) => ErrorView::Auth(cause@),
            Error::Mapping(cause) => ErrorView::Mapping(cause@),
        }
    }
}

} // verus!
