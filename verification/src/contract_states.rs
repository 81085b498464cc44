//! The state-version helpers of the contract-states crate, as free functions over
//! the same field maps.
use vstd::prelude::*;
use crate::field_map::{FieldMap, lookup};
use crate::state_versions::{all_have, field_values, version_table_name, StateVersion, StateVersions};
use crate::text::string_views;

verus! {

/// The name of a state's version table.
pub fn table_name(state_table_name: &str) -> (name: String)
    ensures
        name@ == version_table_name(state_table_name@),
{
    StateVersion::table_name(state_table_name)
}

/// Whether a version marks a deletion; it must carry `state_version_is_deleted`.
pub fn was_deleted(state_version: &FieldMap) -> (deleted: bool)
    requires
        lookup(state_version@, "state_version_is_deleted"@) is Some,
    ensures
        deleted == (lookup(state_version@, "state_version_is_deleted"@)->0 == "true"@),
{
    StateVersion::was_deleted(state_version)
}

/// A version's state group; it must carry `state_version_group_id`.
pub fn get_group_id(state_version: &FieldMap) -> (group_id: String)
    requires
        lookup(state_version@, "state_version_group_id"@) is Some,
    ensures
        group_id@ == lookup(state_version@, "state_version_group_id"@)->0,
{
    StateVersion::get_group_id(state_version)
}

/// The ids of versions that each carry `state_version_id`.
pub fn get_ids(state_versions: &[FieldMap]) -> (ids: Vec<String>)
    requires
        all_have(state_versions@, "state_version_id"@),
    ensures
        string_views(ids@) == field_values(state_versions@, "state_version_id"@),
{
    StateVersions::get_ids(state_versions)
}

/// The group ids of versions that each carry `state_version_group_id`.
pub fn get_group_ids(state_versions: &[FieldMap]) -> (group_ids: Vec<String>)
    requires
        all_have(state_versions@, "state_version_group_id"@),
    ensures
        string_views(group_ids@) == field_values(state_versions@, "state_version_group_id"@),
{
    StateVersions::get_group_ids(state_versions)
}

} // verus!
