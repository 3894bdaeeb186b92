//! The description of a JSON value of any shape.
use vstd::prelude::*;
use vstd::string::*;

use crate::types::builder::{
    law_operations_extend, lemma_extends_transitive, GlobalTypeRegistry, HasIndexed, RegistryView,
};
use crate::types::hashing::{hash_name, name_hash};
use crate::types::impls::{boilerplate_simple_hash, simple_hash};
use crate::types::model::{Component, ComponentView};
use crate::types::TypescriptType;

verus! {

/// A JSON value as `serde_json` holds it. Nothing of it is looked into: a
/// value of any shape is described as `any`.
#[verifier::external_type_specification]
#[verifier::external_body]
pub struct ExJsonValue(serde_json::Value);

impl TypescriptType for serde_json::Value {
    open spec fn key() -> u64 {
        name_hash("serde_json::Value"@)
    }

    open spec fn spec_name() -> Seq<char> {
        "any"@
    }

    open spec fn spec_ts_name() -> Seq<char> {
        "any"@
    }

    open spec fn spec_definition(r: RegistryView) -> (RegistryView, HasIndexed) {
        match r.existing(Self::key()) {
            Some(existing) => (r, existing),
            None => r.start(Self::key()).finalize(Self::key(), ComponentView::any()),
        }
    }

    open spec fn spec_hash(r: RegistryView) -> (RegistryView, u64) {
        simple_hash(r, Self::key(), "any"@)
    }

    fn type_key() -> (key: u64) {
        hash_name("serde_json::Value")
    }

    fn get_definition(registry: &mut GlobalTypeRegistry) -> (handle: HasIndexed) {
        let type_id = Self::type_key();
        match registry.return_existing(type_id) {
            Some(existing) => {
                return existing;
            },
            None => {},
        }
        registry.start(type_id);
        let ghost started = registry@;
        let component = Component::any();
        let handle = registry.finalize(type_id, component);
        proof {
            law_operations_extend(old(registry)@, type_id, 0, ComponentView::any());
            law_operations_extend(started, type_id, 0, ComponentView::any());
            lemma_extends_transitive(old(registry)@, started, registry@);
        }
        handle
    }

    fn hash(registry: &mut GlobalTypeRegistry) -> (hash: u64) {
        boilerplate_simple_hash(Self::type_key(), "any", registry)
    }

    fn name() -> (name: String) {
        String::from_str("any")
    }

    fn ts_name() -> (name: String) {
        String::from_str("any")
    }
}

} // verus!
