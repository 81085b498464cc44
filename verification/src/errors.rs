//! The errors of the provider, the ingester and the indexer as a whole.
use vstd::prelude::*;
use crate::repo::RepoError;
use crate::text::push_str;

verus! {

/// A failed provider call: from a custom provider, or from the transport.
#[derive(Clone, Debug, PartialEq, Eq)]
pub enum ProviderError {
    /// An error raised by a custom provider implementation.
    CustomError(String),
    TransportError(String),
}

/// The message of a provider error.
pub open spec fn provider_error_message(e: ProviderError) -> Seq<char> {
    match e {
        ProviderError::CustomError(m) => m@,
        ProviderError::TransportError(m) => m@,
    }
}

impl ProviderError {
    /// A custom provider error with the given message.
    pub fn custom(message: &str) -> (error: ProviderError)
        ensures
            error matches ProviderError::CustomError(m) && m@ == message@,
    {
        ProviderError::CustomError(crate::text::to_owned_string(message))
    }

    /// The error's message (what it displays as).
    pub fn to_string(&self) -> (message: String)
        ensures
            message@ == provider_error_message(*self),
    {
        match self {
            ProviderError::CustomError(m) => m.clone(),
            ProviderError::TransportError(m) => m.clone(),
        }
    }
}

/// The text a repository error displays as: the variant's name, or its message.
pub open spec fn repo_error_message(e: RepoError) -> Seq<char> {
    match e {
        RepoError::NotConnected => "NotConnected"@,
        RepoError::Unknown(m) => m@,
    }
}

impl RepoError {
    /// The error's text: `NotConnected`, or the unknown error's message.
    pub fn to_string(&self) -> (message: String)
        ensures
            message@ == repo_error_message(*self),
    {
        match self {
            RepoError::NotConnected => crate::text::to_owned_string("NotConnected"),
            RepoError::Unknown(m) => m.clone(),
        }
    }
}

/// An ingestion failure.
#[derive(Clone, Debug)]
pub enum IngesterError {
    RepoError(RepoError),
    ProviderError(ProviderError),
    GenericError(String),
}

/// The text an ingestion failure displays as.
pub open spec fn ingester_error_message(e: IngesterError) -> Seq<char> {
    match e {
        IngesterError::RepoError(r) => repo_error_message(r),
        IngesterError::ProviderError(p) => "provider error: "@ + provider_error_message(p),
        IngesterError::GenericError(m) => m@,
    }
}

impl IngesterError {
    /// The failure of a repository call.
    pub fn from_repo_error(error: RepoError) -> (e: IngesterError)
        ensures
            e == IngesterError::RepoError(error),
    {
        IngesterError::RepoError(error)
    }

    /// The failure of a provider call.
    pub fn from_provider_error(error: ProviderError) -> (e: IngesterError)
        ensures
            e == IngesterError::ProviderError(error),
    {
        IngesterError::ProviderError(error)
    }

    /// The text the failure displays as.
    pub fn to_string(&self) -> (message: String)
        ensures
            message@ == ingester_error_message(*self),
    {
        match self {
            IngesterError::RepoError(e) => e.to_string(),
            IngesterError::ProviderError(e) => {
                let mut message = String::new();
                push_str(&mut message, "provider error: ");
                push_str(&mut message, e.to_string().as_str());
                message
            },
            IngesterError::GenericError(m) => m.clone(),
        }
    }
}

/// A failure of the indexer: a configuration error (by its message) or a runtime
/// error.
#[derive(Clone, Debug, PartialEq, Eq)]
pub enum ChaindexingError {
    Config(String),
    Runtime(String),
}

/// The text an indexer failure displays as.
pub open spec fn chaindexing_error_message(e: ChaindexingError) -> Seq<char> {
    match e {
        ChaindexingError::Config(m) => "Config error: "@ + m@,
        ChaindexingError::Runtime(m) => "Runtime error: "@ + m@,
    }
}

impl ChaindexingError {
    /// The text the failure displays as.
    pub fn to_string(&self) -> (message: String)
        ensures
            message@ == chaindexing_error_message(*self),
    {
        let mut message = String::new();
        match self {
            ChaindexingError::Config(m) => {
                push_str(&mut message, "Config error: ");
                push_str(&mut message, m.as_str());
            },
            ChaindexingError::Runtime(m) => {
                push_str(&mut message, "Runtime error: ");
                push_str(&mut message, m.as_str());
            },
        }
        message
    }
}

} // verus!
