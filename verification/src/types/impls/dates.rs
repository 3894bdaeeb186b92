//! The description of the calendar date of `chrono`, which travels as a string.
use vstd::prelude::*;
use vstd::string::*;

use crate::types::builder::{GlobalTypeRegistry, HasIndexed, RegistryView};
use crate::types::hashing::{hash_name, name_hash};
use crate::types::impls::{
    boilerplate_simple_definition, boilerplate_simple_hash, simple_definition, simple_hash,
};
use crate::types::model::{Type, TypeView};
use crate::types::TypescriptType;

verus! {

/// A date without a time zone, as `chrono` holds it. Nothing of it is looked into.
#[verifier::external_type_specification]
#[verifier::external_body]
pub struct ExNaiveDate(chrono::NaiveDate);

impl TypescriptType for chrono::NaiveDate {
    open spec fn key() -> u64 {
        name_hash("NaiveDate"@)
    }

    open spec fn spec_name() -> Seq<char> {
        "NaiveDate"@
    }

    open spec fn spec_ts_name() -> Seq<char> {
        "string"@
    }

    open spec fn spec_definition(r: RegistryView) -> (RegistryView, HasIndexed) {
        simple_definition(r, Self::key(), "NaiveDate"@, TypeView::SimpleType("string"@))
    }

    open spec fn spec_hash(r: RegistryView) -> (RegistryView, u64) {
        simple_hash(r, Self::key(), "NaiveDate"@)
    }

    fn type_key() -> (key: u64) {
        hash_name("NaiveDate")
    }

    fn get_definition(registry: &mut GlobalTypeRegistry) -> (handle: HasIndexed) {
        boilerplate_simple_definition(
            hash_name("NaiveDate"),
            String::from_str("NaiveDate"),
            Type::SimpleType(String::from_str("string")),
            registry,
        )
    }

    fn name() -> (name: String) {
        String::from_str("NaiveDate")
    }

    fn ts_name() -> (name: String) {
        String::from_str("string")
    }

    fn hash(registry: &mut GlobalTypeRegistry) -> (hash: u64) {
        boilerplate_simple_hash(hash_name("NaiveDate"), "NaiveDate", registry)
    }
}

} // verus!
