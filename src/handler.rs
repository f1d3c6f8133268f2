//! The decisions taken while one query is answered.
//!
//! The handler is a state machine: the caller performs each action it is
//! given (opening the index, running the query, fetching attributes) and
//! hands back what happened as the next event.

use vstd::prelude::*;

use crate::error::SearchError;
use crate::key::{base_path_of, file_name_of, is_header_key, split_database_header_key};

verus! {

/// How many nearest neighbours each query asks for.
pub const QUERY_K: usize = 30;

/// How many partitions of the index each query inspects.
pub const QUERY_NPROBE: usize = 1;

/// Where the database lives: the bucket, and the header file's location in it.
pub struct DatabaseLocation {
    pub bucket_name: String,
    pub base_path: String,
    pub header_file_name: String,
}

/// A value of an attribute attached to a vector in the index.
pub enum AttributeValue {
    String(String),
    Uint64(u64),
}

/// One hit of a query, with the content identifier attribute fetched for it.
pub struct Hit<D> {
    /// Approximate squared distance, carried through unchanged.
    pub distance: D,
    /// The content identifier attribute, if the hit has one.
    pub content_id: Option<AttributeValue>,
}

/// Link to a mumbling in search results.
pub struct SimilarMumbling<D> {
    /// ID (URL) of the mumbling fragment.
    pub id: String,
    /// Approximate squared distance.
    pub distance: D,
}

/// Where the handler stands.
#[derive(Clone, Copy, Debug, PartialEq, Eq, Structural)]
pub enum Stage {
    /// Waiting for the configuration.
    Configuring,
    /// Waiting for the index to open.
    Opening,
    /// Waiting for the query's hits.
    Querying,
    /// Waiting for the hits' content identifiers.
    Resolving,
    /// The invocation has its outcome.
    Finished,
}

/// What happened since the last action.
pub enum Event<D> {
    /// The two configuration values were read; `None` where one is absent.
    Configured { bucket_name: Option<String>, header_key: Option<String> },
    /// The index was opened.
    IndexOpened,
    /// The index could not be opened.
    IndexOpenFailed,
    /// The query returned its hits.
    QueryAnswered,
    /// The search engine reported an error.
    QueryRejected,
    /// The content identifier attribute of every hit, in the hits' order.
    AttributesFetched(Vec<Hit<D>>),
}

/// What the caller is to do next.
pub enum Action<D> {
    /// Open the index at this location.
    OpenIndex(DatabaseLocation),
    /// Run the query with these parameters.
    RunQuery { k: usize, nprobe: usize },
    /// Fetch the content identifier attribute of every hit.
    FetchContentIds,
    /// Answer with these items.
    Respond(Vec<SimilarMumbling<D>>),
    /// End the invocation with this failure.
    Fail(SearchError),
}

/// What a content identifier attribute resolves to.
pub open spec fn content_id_of(value: Option<AttributeValue>) -> Result<Seq<char>, SearchError> {
    match value {
        None => Err(SearchError::AttributeMissing),
        Some(AttributeValue::String(id)) => Ok(id@),
        Some(_) => Err(SearchError::AttributeTypeMismatch),
    }
}

/// Every hit resolves to an identifier.
pub open spec fn all_resolve<D>(hits: Seq<Hit<D>>) -> bool {
    forall|i: int| 0 <= i < hits.len() ==> (#[trigger] content_id_of(hits[i].content_id)) is Ok
}

/// `items` are the hits, one for one and in order, each with its identifier.
pub open spec fn resolved_items<D>(hits: Seq<Hit<D>>, items: Seq<SimilarMumbling<D>>) -> bool {
    &&& items.len() == hits.len()
    &&& forall|i: int|
        0 <= i < hits.len() ==> {
            &&& content_id_of(#[trigger] hits[i].content_id) == Ok::<Seq<char>, SearchError>(
                items[i].id@,
            )
            &&& items[i].distance == hits[i].distance
        }
}

/// `e` is the failure of the first hit that does not resolve.
pub open spec fn first_failure<D>(hits: Seq<Hit<D>>, e: SearchError) -> bool {
    exists|i: int|
        0 <= i < hits.len() && content_id_of(#[trigger] hits[i].content_id) == Err::<
            Seq<char>,
            SearchError,
        >(e) && all_resolve(hits.take(i))
}

/// The items keep the order of the hits: where the hits come in ascending
/// distance under `le`, so do the items.
pub proof fn lemma_order_kept<D>(
    hits: Seq<Hit<D>>,
    items: Seq<SimilarMumbling<D>>,
    le: spec_fn(D, D) -> bool,
)
    requires
        resolved_items(hits, items),
        forall|i: int|
            0 <= i < hits.len() - 1 ==> le(#[trigger] hits[i].distance, hits[i + 1].distance),
    ensures
        forall|i: int|
            0 <= i < items.len() - 1 ==> le(#[trigger] items[i].distance, items[i + 1].distance),
{
    assert forall|i: int| 0 <= i < items.len() - 1 implies le(
        #[trigger] items[i].distance,
        items[i + 1].distance,
    ) by {
        assert(content_id_of(hits[i].content_id) is Ok);
        assert(content_id_of(hits[i + 1].content_id) is Ok);
    }
}

/// Whether `stage` awaits `event`.
pub open spec fn awaits<D>(stage: Stage, event: Event<D>) -> bool {
    match event {
        Event::Configured { .. } => stage == Stage::Configuring,
        Event::IndexOpened | Event::IndexOpenFailed => stage == Stage::Opening,
        Event::QueryAnswered | Event::QueryRejected => stage == Stage::Querying,
        Event::AttributesFetched(_) => stage == Stage::Resolving,
    }
}

/// Reads the configuration: the bucket name and the database header key,
/// which splits into the base path and the header file name.
///
/// Fails with `ConfigurationMissing` where either value is absent, and with
/// `MalformedKey` where the key does not split.
pub fn locate_database(bucket_name: Option<String>, header_key: Option<String>) -> (r: Result<
    DatabaseLocation,
    SearchError,
>)
    ensures
        (bucket_name is None || header_key is None) ==> r == Err::<DatabaseLocation, SearchError>(
            SearchError::ConfigurationMissing,
        ),
        bucket_name is Some && header_key is Some ==> {
            let key = header_key->Some_0@;
            match r {
                Ok(location) => {
                    &&& is_header_key(key)
                    &&& location.bucket_name@ == bucket_name->Some_0@
                    &&& location.base_path@ == base_path_of(key)
                    &&& location.header_file_name@ == file_name_of(key)
                },
                Err(e) => !is_header_key(key) && e == SearchError::MalformedKey,
            }
        },
{
    let bucket_name = match bucket_name {
        Some(name) => name,
        None => return Err(SearchError::ConfigurationMissing),
    };
    let header_key = match header_key {
        Some(key) => key,
        None => return Err(SearchError::ConfigurationMissing),
    };
    match split_database_header_key(header_key.as_str()) {
        Ok((base_path, header_file_name)) => Ok(
            DatabaseLocation {
                bucket_name,
                base_path: base_path.to_owned(),
                header_file_name: header_file_name.to_owned(),
            },
        ),
        Err(e) => Err(e),
    }
}

/// The content identifier that an attribute holds.
///
/// Fails with `AttributeMissing` where there is no attribute, and with
/// `AttributeTypeMismatch` where it is not a string.
pub fn content_id(value: &Option<AttributeValue>) -> (r: Result<String, SearchError>)
    ensures
        match r {
            Ok(id) => content_id_of(*value) == Ok::<Seq<char>, SearchError>(id@),
            Err(e) => content_id_of(*value) == Err::<Seq<char>, SearchError>(e),
        },
{
    match value {
        None => Err(SearchError::AttributeMissing),
        Some(AttributeValue::String(id)) => Ok(id.clone()),
        Some(_) => Err(SearchError::AttributeTypeMismatch),
    }
}

/// Pairs each hit with its content identifier, in the hits' order.
///
/// All or nothing: where any hit does not resolve, the result is the failure
/// of the first such hit, never a shorter list.
pub fn collect_similar<D: Copy>(hits: &Vec<Hit<D>>) -> (r: Result<
    Vec<SimilarMumbling<D>>,
    SearchError,
>)
    ensures
        r is Ok <==> all_resolve(hits@),
        match r {
            Ok(items) => resolved_items(hits@, items@),
            Err(e) => first_failure(hits@, e),
        },
{
    let mut items: Vec<SimilarMumbling<D>> = Vec::new();
    let mut i: usize = 0;
    while i < hits.len()
        invariant
            i <= hits@.len(),
            resolved_items(hits@.take(i as int), items@),
            all_resolve(hits@.take(i as int)),
        decreases hits@.len() - i,
    {
        let hit = &hits[i];
        match content_id(&hit.content_id) {
            Ok(id) => {
                items.push(SimilarMumbling { id, distance: hit.distance });
            },
            Err(e) => {
                assert(first_failure(hits@, e));
                proof {
                    assert(!all_resolve(hits@)) by {
                        assert(content_id_of(hits@[i as int].content_id) is Err);
                    }
                }
                return Err(e);
            },
        }
        i = i + 1;
        assert(hits@.take(i as int).drop_last() =~= hits@.take(i - 1));
    }
    assert(hits@.take(i as int) =~= hits@);
    Ok(items)
}

/// Takes the handler from `stage` through `event`: the next stage, and the
/// action that the caller performs next.
pub fn step<D: Copy>(stage: Stage, event: Event<D>) -> (r: (Stage, Action<D>))
    requires
        awaits(stage, event),
    ensures
        match event {
            Event::Configured { bucket_name, header_key } => match r.1 {
                Action::OpenIndex(location) => {
                    &&& r.0 == Stage::Opening
                    &&& bucket_name is Some && header_key is Some
                    &&& is_header_key(header_key->Some_0@)
                    &&& location.bucket_name@ == bucket_name->Some_0@
                    &&& location.base_path@ == base_path_of(header_key->Some_0@)
                    &&& location.header_file_name@ == file_name_of(header_key->Some_0@)
                },
                Action::Fail(e) => {
                    &&& r.0 == Stage::Finished
                    &&& (bucket_name is None || header_key is None) ==> e
                        == SearchError::ConfigurationMissing
                    &&& (bucket_name is Some && header_key is Some) ==> !is_header_key(
                        header_key->Some_0@,
                    ) && e == SearchError::MalformedKey
                },
                _ => false,
            },
            Event::IndexOpened => r.0 == Stage::Querying && r.1 == Action::<D>::RunQuery {
                k: QUERY_K,
                nprobe: QUERY_NPROBE,
            },
            Event::IndexOpenFailed => r.0 == Stage::Finished && r.1 == Action::<D>::Fail(
                SearchError::IndexUnavailable,
            ),
            Event::QueryAnswered => r.0 == Stage::Resolving && r.1 == Action::<D>::FetchContentIds,
            Event::QueryRejected => r.0 == Stage::Finished && r.1 == Action::<D>::Fail(
                SearchError::QueryFailed,
            ),
            Event::AttributesFetched(hits) => {
                &&& r.0 == Stage::Finished
                &&& r.1 is Respond <==> all_resolve(hits@)
                &&& match r.1 {
                    Action::Respond(items) => resolved_items(hits@, items@),
                    Action::Fail(e) => first_failure(hits@, e),
                    _ => false,
                }
            },
        },
{
    match event {
        Event::Configured { bucket_name, header_key } => match locate_database(
            bucket_name,
            header_key,
        ) {
            Ok(location) => (Stage::Opening, Action::OpenIndex(location)),
            Err(e) => (Stage::Finished, Action::Fail(e)),
        },
        Event::IndexOpened => (Stage::Querying, Action::RunQuery { k: QUERY_K, nprobe: QUERY_NPROBE }),
        Event::IndexOpenFailed => (Stage::Finished, Action::Fail(SearchError::IndexUnavailable)),
        Event::QueryAnswered => (Stage::Resolving, Action::FetchContentIds),
        Event::QueryRejected => (Stage::Finished, Action::Fail(SearchError::QueryFailed)),
        Event::AttributesFetched(hits) => match collect_similar(&hits) {
            Ok(items) => (Stage::Finished, Action::Respond(items)),
            Err(e) => (Stage::Finished, Action::Fail(e)),
        },
    }
}

} // verus!
