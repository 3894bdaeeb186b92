//! Generates TypeScript type declarations and a typed fetch client from a
//! registry of described host types and a set of HTTP routes.
//!
//! The crate is split into the type registry and its structural hashing
//! ([`types::builder`]), the component model and its rendering rules
//! ([`types::model`]), and the route / client generator ([`api`]).
use vstd::prelude::*;
use vstd::string::*;

use crate::types::builder::{law_operations_extend, GlobalTypeRegistry, HasIndexed, RegistryView};
use crate::types::hashing::{hash_name, name_hash};
use crate::types::impls::{boilerplate_simple_hash, simple_hash};
use crate::types::model::{Component, ComponentView, Type, TypeView};
use crate::types::TypescriptType;

pub mod api;
pub mod api_router;
pub mod errors;
pub mod routing;
pub mod text;
pub mod types;

verus! {

/// Comment block that starts every generated file.
pub const FILE_HEADER: &'static str =
    "/** \n * This File was generated automagically 🧙‍♂️ \n * \n * WARNING: Changes you perform here will probably not persist!\n*/\n";

/// Marker for a type whose shape is not described and is emitted as `any`.
pub struct AnyDef;

/// A type without fields that is emitted under its own name.
pub struct T1 {}

impl TypescriptType for T1 {
    open spec fn key() -> u64 {
        name_hash("T1"@)
    }

    open spec fn spec_name() -> Seq<char> {
        "T1"@
    }

    open spec fn spec_ts_name() -> Seq<char> {
        "T1"@
    }

    open spec fn spec_definition(r: RegistryView) -> (RegistryView, HasIndexed) {
        r.finalize(
            Self::key(),
            if r.has(Self::key()) {
                ComponentView::any()
            } else {
                ComponentView {
                    name: "T1"@,
                    generics: Seq::empty(),
                    typ: TypeView::SimpleType("T1"@),
                    hash: name_hash("Object"@),
                }
            },
        )
    }

    open spec fn spec_hash(r: RegistryView) -> (RegistryView, u64) {
        simple_hash(r, Self::key(), "Object"@)
    }

    fn type_key() -> (key: u64) {
        hash_name("T1")
    }

    fn get_definition(registry: &mut GlobalTypeRegistry) -> (handle: HasIndexed) {
        let type_id = Self::type_key();
        if registry.has(type_id) {
            let handle = registry.finalize(type_id, Component::any());
            proof {
                law_operations_extend(old(registry)@, type_id, 0, ComponentView::any());
            }
            return handle;
        }
        let hash = hash_name("Object");
        let component = Component {
            name: String::from_str("T1"),
            generics: String::new(),
            typ: Type::SimpleType(String::from_str("T1")),
            hash,
        };
        let handle = registry.finalize(type_id, component);
        proof {
            law_operations_extend(old(registry)@, type_id, 0, component@);
        }
        handle
    }

    fn name() -> (name: String) {
        String::from_str("T1")
    }

    fn ts_name() -> (name: String) {
        String::from_str("T1")
    }

    fn hash(registry: &mut GlobalTypeRegistry) -> (hash: u64) {
        boilerplate_simple_hash(Self::type_key(), "Object", registry)
    }
}

} // verus!
