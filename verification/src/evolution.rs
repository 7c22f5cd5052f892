//! Records of how specs evolve, from whichever store holds them.

use vstd::prelude::*;
use vstd::string::*;

verus! {

/// A stored record.
#[derive(Debug)]
pub struct EvolutionRecordRow {
    pub id: String,
    pub tenant: String,
    pub record_type: String,
    pub status: String,
    pub created_by: String,
    pub derived_from: Option<String>,
    pub data: String,
    pub timestamp: String,
}

/// Where records are held.
#[derive(Clone, Copy, PartialEq, Eq, Structural, Debug)]
pub enum EvolutionStore {
    /// With the tenant's metadata.
    Metadata,
    /// In a store of their own.
    Records,
}

/// The store of the records: the metadata store where there is one.
pub fn evolution_store(has_metadata_store: bool, has_record_store: bool) -> (r: Option<
    EvolutionStore,
>)
    ensures
        r == (if has_metadata_store {
            Some(EvolutionStore::Metadata)
        } else if has_record_store {
            Some(EvolutionStore::Records)
        } else {
            None
        }),
{
    if has_metadata_store {
        Some(EvolutionStore::Metadata)
    } else if has_record_store {
        Some(EvolutionStore::Records)
    } else {
        None
    }
}

/// What a listing comes to: `None` where there is no store to list from, which
/// is an empty list.
pub fn list_evolution_records(listed: Option<Result<Vec<EvolutionRecordRow>, String>>) -> (r: Result<
    Vec<EvolutionRecordRow>,
    String,
>)
    ensures
        match listed {
            Some(result) => r == result,
            None => r matches Ok(rows) && rows@.len() == 0,
        },
{
    match listed {
        Some(result) => result,
        None => Ok(Vec::new()),
    }
}

/// What a search for a record comes to: `None` where there is no store, and then
/// there is no record.
pub fn get_evolution_record(found: Option<Result<Option<EvolutionRecordRow>, String>>) -> (r: Result<
    Option<EvolutionRecordRow>,
    String,
>)
    ensures
        match found {
            Some(result) => r == result,
            None => r == Ok::<Option<EvolutionRecordRow>, String>(None),
        },
{
    match found {
        Some(result) => result,
        None => Ok(None),
    }
}

/// What writing a record comes to: a record that no store takes is an error.
pub fn insert_evolution_record(written: Option<Result<(), String>>) -> (r: Result<(), String>)
    ensures
        match written {
            Some(result) => r == result,
            None => r matches Err(e) && e@ == "no evolution store configured"@,
        },
{
    match written {
        Some(result) => result,
        None => Err("no evolution store configured".to_owned()),
    }
}

} // verus!
