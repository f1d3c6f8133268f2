use vstd::prelude::*;

verus! {

/// Why answering a query failed. Every kind ends the invocation.
#[derive(Clone, Copy, Debug, PartialEq, Eq, Structural)]
pub enum SearchError {
    /// A required configuration value is absent.
    ConfigurationMissing,
    /// The database header key does not split into a base path and a file name.
    MalformedKey,
    /// The remote index could not be opened.
    IndexUnavailable,
    /// The search engine reported an error while running the query.
    QueryFailed,
    /// A hit carries no content identifier attribute.
    AttributeMissing,
    /// A hit's content identifier attribute is not a string.
    AttributeTypeMismatch,
}

} // verus!
