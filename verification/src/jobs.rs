//! Background jobs: which refresh a change to a file or a collection calls for.
use vstd::prelude::*;
use crate::collection::{Collection, RefreshCollection};
use crate::file::File;
use crate::ids::{AccountId, CollectionId};

verus! {

/// A file was created or changed.
pub enum FileEvent {
    Changed(File),
}

/// A collection was created or changed.
pub enum CollectionEvent {
    Changed(Collection),
}

/// A request to refresh every collection of an account.
#[derive(Debug)]
pub struct RefreshCollections {
    pub owner_id: AccountId,
}

/// The job that a change to a file calls for: refreshing the collections of
/// its owner, since any of them may now match it or not.
pub fn job_for_file_event(event: &FileEvent) -> (job: RefreshCollections)
    ensures
        match event {
            FileEvent::Changed(f) => job.owner_id@ == f@.owner_id,
        },
{
    match event {
        FileEvent::Changed(f) => RefreshCollections { owner_id: f.owner_id },
    }
}

/// The job that a change to a collection calls for: refreshing that collection.
pub fn job_for_collection_event(event: &CollectionEvent) -> (job: RefreshCollection)
    ensures
        match event {
            CollectionEvent::Changed(c) => job.collection_id@ == c@.id,
        },
{
    match event {
        CollectionEvent::Changed(c) => RefreshCollection { collection_id: CollectionId::from_u128(c.id_value()) },
    }
}

} // verus!
