//! Descriptions of the types of the standard library.
use vstd::prelude::*;
use vstd::string::*;

use crate::text::{decimal, decimal_string, join, join_spec, texts};
use crate::types::builder::{
    law_operations_extend, lemma_extends_transitive, lemma_first_hash_is_recorded,
    lemma_hash_steps_only_hash, lemma_only_hashed_chain, GlobalTypeRegistry,
    HasIndexed, RegistryView,
};
use crate::types::hashing::{hash_name, hash_structure, name_hash, structural_hash};
use crate::types::impls::{
    boilerplate_simple_definition, boilerplate_simple_hash, simple_definition, simple_hash,
};
use crate::types::model::{
    Component, ComponentReference, ComponentView, EnumRepresentation, InnerType, InnerView,
    ReferenceView, RepresentationView, Type, TypeView,
};
use crate::types::TypescriptType;

verus! {

impl TypescriptType for String {
    open spec fn key() -> u64 {
        name_hash("String"@)
    }

    open spec fn spec_name() -> Seq<char> {
        "String"@
    }

    open spec fn spec_ts_name() -> Seq<char> {
        "string"@
    }

    open spec fn spec_definition(r: RegistryView) -> (RegistryView, HasIndexed) {
        simple_definition(r, Self::key(), "String"@, TypeView::SimpleType("string"@))
    }

    open spec fn spec_hash(r: RegistryView) -> (RegistryView, u64) {
        simple_hash(r, Self::key(), "String"@)
    }

    fn type_key() -> (key: u64) {
        hash_name("String")
    }

    fn get_definition(registry: &mut GlobalTypeRegistry) -> (handle: HasIndexed) {
        boilerplate_simple_definition(
            hash_name("String"),
            String::from_str("String"),
            Type::SimpleType(String::from_str("string")),
            registry,
        )
    }

    fn name() -> (name: String) {
        String::from_str("String")
    }

    fn ts_name() -> (name: String) {
        String::from_str("string")
    }

    fn hash(registry: &mut GlobalTypeRegistry) -> (hash: u64) {
        boilerplate_simple_hash(hash_name("String"), "String", registry)
    }
}

impl<'a> TypescriptType for &'a str {
    open spec fn key() -> u64 {
        name_hash("&str"@)
    }

    open spec fn spec_name() -> Seq<char> {
        "&str"@
    }

    open spec fn spec_ts_name() -> Seq<char> {
        "string"@
    }

    open spec fn spec_definition(r: RegistryView) -> (RegistryView, HasIndexed) {
        simple_definition(r, Self::key(), "&str"@, TypeView::SimpleType("string"@))
    }

    open spec fn spec_hash(r: RegistryView) -> (RegistryView, u64) {
        simple_hash(r, Self::key(), "&str"@)
    }

    fn type_key() -> (key: u64) {
        hash_name("&str")
    }

    fn get_definition(registry: &mut GlobalTypeRegistry) -> (handle: HasIndexed) {
        boilerplate_simple_definition(
            hash_name("&str"),
            String::from_str("&str"),
            Type::SimpleType(String::from_str("string")),
            registry,
        )
    }

    fn name() -> (name: String) {
        String::from_str("&str")
    }

    fn ts_name() -> (name: String) {
        String::from_str("string")
    }

    fn hash(registry: &mut GlobalTypeRegistry) -> (hash: u64) {
        boilerplate_simple_hash(hash_name("&str"), "&str", registry)
    }
}

impl TypescriptType for () {
    open spec fn key() -> u64 {
        name_hash("()"@)
    }

    open spec fn spec_name() -> Seq<char> {
        "()"@
    }

    open spec fn spec_ts_name() -> Seq<char> {
        "null"@
    }

    open spec fn spec_definition(r: RegistryView) -> (RegistryView, HasIndexed) {
        simple_definition(r, Self::key(), "()"@, TypeView::SimpleType("null"@))
    }

    open spec fn spec_hash(r: RegistryView) -> (RegistryView, u64) {
        simple_hash(r, Self::key(), "()"@)
    }

    fn type_key() -> (key: u64) {
        hash_name("()")
    }

    fn get_definition(registry: &mut GlobalTypeRegistry) -> (handle: HasIndexed) {
        boilerplate_simple_definition(
            hash_name("()"),
            String::from_str("()"),
            Type::SimpleType(String::from_str("null")),
            registry,
        )
    }

    fn name() -> (name: String) {
        String::from_str("()")
    }

    fn ts_name() -> (name: String) {
        String::from_str("null")
    }

    fn hash(registry: &mut GlobalTypeRegistry) -> (hash: u64) {
        boilerplate_simple_hash(hash_name("()"), "()", registry)
    }
}

impl TypescriptType for bool {
    open spec fn key() -> u64 {
        name_hash("bool"@)
    }

    open spec fn spec_name() -> Seq<char> {
        "bool"@
    }

    open spec fn spec_ts_name() -> Seq<char> {
        "boolean"@
    }

    open spec fn spec_definition(r: RegistryView) -> (RegistryView, HasIndexed) {
        simple_definition(r, Self::key(), "bool"@, TypeView::SimpleType("boolean"@))
    }

    open spec fn spec_hash(r: RegistryView) -> (RegistryView, u64) {
        simple_hash(r, Self::key(), "bool"@)
    }

    fn type_key() -> (key: u64) {
        hash_name("bool")
    }

    fn get_definition(registry: &mut GlobalTypeRegistry) -> (handle: HasIndexed) {
        boilerplate_simple_definition(
            hash_name("bool"),
            String::from_str("bool"),
            Type::SimpleType(String::from_str("boolean")),
            registry,
        )
    }

    fn name() -> (name: String) {
        String::from_str("bool")
    }

    fn ts_name() -> (name: String) {
        String::from_str("boolean")
    }

    fn hash(registry: &mut GlobalTypeRegistry) -> (hash: u64) {
        boilerplate_simple_hash(hash_name("bool"), "bool", registry)
    }
}

impl TypescriptType for u8 {
    open spec fn key() -> u64 {
        name_hash("u8"@)
    }

    open spec fn spec_name() -> Seq<char> {
        "u8"@
    }

    open spec fn spec_ts_name() -> Seq<char> {
        "number"@
    }

    open spec fn spec_definition(r: RegistryView) -> (RegistryView, HasIndexed) {
        simple_definition(r, Self::key(), "u8"@, TypeView::SimpleType("number"@))
    }

    open spec fn spec_hash(r: RegistryView) -> (RegistryView, u64) {
        simple_hash(r, Self::key(), "u8"@)
    }

    fn type_key() -> (key: u64) {
        hash_name("u8")
    }

    fn get_definition(registry: &mut GlobalTypeRegistry) -> (handle: HasIndexed) {
        boilerplate_simple_definition(
            hash_name("u8"),
            String::from_str("u8"),
            Type::SimpleType(String::from_str("number")),
            registry,
        )
    }

    fn name() -> (name: String) {
        String::from_str("u8")
    }

    fn ts_name() -> (name: String) {
        String::from_str("number")
    }

    fn hash(registry: &mut GlobalTypeRegistry) -> (hash: u64) {
        boilerplate_simple_hash(hash_name("u8"), "u8", registry)
    }
}

impl TypescriptType for u16 {
    open spec fn key() -> u64 {
        name_hash("u16"@)
    }

    open spec fn spec_name() -> Seq<char> {
        "u16"@
    }

    open spec fn spec_ts_name() -> Seq<char> {
        "number"@
    }

    open spec fn spec_definition(r: RegistryView) -> (RegistryView, HasIndexed) {
        simple_definition(r, Self::key(), "u16"@, TypeView::SimpleType("number"@))
    }

    open spec fn spec_hash(r: RegistryView) -> (RegistryView, u64) {
        simple_hash(r, Self::key(), "u16"@)
    }

    fn type_key() -> (key: u64) {
        hash_name("u16")
    }

    fn get_definition(registry: &mut GlobalTypeRegistry) -> (handle: HasIndexed) {
        boilerplate_simple_definition(
            hash_name("u16"),
            String::from_str("u16"),
            Type::SimpleType(String::from_str("number")),
            registry,
        )
    }

    fn name() -> (name: String) {
        String::from_str("u16")
    }

    fn ts_name() -> (name: String) {
        String::from_str("number")
    }

    fn hash(registry: &mut GlobalTypeRegistry) -> (hash: u64) {
        boilerplate_simple_hash(hash_name("u16"), "u16", registry)
    }
}

impl TypescriptType for u32 {
    open spec fn key() -> u64 {
        name_hash("u32"@)
    }

    open spec fn spec_name() -> Seq<char> {
        "u32"@
    }

    open spec fn spec_ts_name() -> Seq<char> {
        "number"@
    }

    open spec fn spec_definition(r: RegistryView) -> (RegistryView, HasIndexed) {
        simple_definition(r, Self::key(), "u32"@, TypeView::SimpleType("number"@))
    }

    open spec fn spec_hash(r: RegistryView) -> (RegistryView, u64) {
        simple_hash(r, Self::key(), "u32"@)
    }

    fn type_key() -> (key: u64) {
        hash_name("u32")
    }

    fn get_definition(registry: &mut GlobalTypeRegistry) -> (handle: HasIndexed) {
        boilerplate_simple_definition(
            hash_name("u32"),
            String::from_str("u32"),
            Type::SimpleType(String::from_str("number")),
            registry,
        )
    }

    fn name() -> (name: String) {
        String::from_str("u32")
    }

    fn ts_name() -> (name: String) {
        String::from_str("number")
    }

    fn hash(registry: &mut GlobalTypeRegistry) -> (hash: u64) {
        boilerplate_simple_hash(hash_name("u32"), "u32", registry)
    }
}

impl TypescriptType for u64 {
    open spec fn key() -> u64 {
        name_hash("u64"@)
    }

    open spec fn spec_name() -> Seq<char> {
        "u64"@
    }

    open spec fn spec_ts_name() -> Seq<char> {
        "number"@
    }

    open spec fn spec_definition(r: RegistryView) -> (RegistryView, HasIndexed) {
        simple_definition(r, Self::key(), "u64"@, TypeView::SimpleType("number"@))
    }

    open spec fn spec_hash(r: RegistryView) -> (RegistryView, u64) {
        simple_hash(r, Self::key(), "u64"@)
    }

    fn type_key() -> (key: u64) {
        hash_name("u64")
    }

    fn get_definition(registry: &mut GlobalTypeRegistry) -> (handle: HasIndexed) {
        boilerplate_simple_definition(
            hash_name("u64"),
            String::from_str("u64"),
            Type::SimpleType(String::from_str("number")),
            registry,
        )
    }

    fn name() -> (name: String) {
        String::from_str("u64")
    }

    fn ts_name() -> (name: String) {
        String::from_str("number")
    }

    fn hash(registry: &mut GlobalTypeRegistry) -> (hash: u64) {
        boilerplate_simple_hash(hash_name("u64"), "u64", registry)
    }
}

impl TypescriptType for i8 {
    open spec fn key() -> u64 {
        name_hash("i8"@)
    }

    open spec fn spec_name() -> Seq<char> {
        "i8"@
    }

    open spec fn spec_ts_name() -> Seq<char> {
        "number"@
    }

    open spec fn spec_definition(r: RegistryView) -> (RegistryView, HasIndexed) {
        simple_definition(r, Self::key(), "i8"@, TypeView::SimpleType("number"@))
    }

    open spec fn spec_hash(r: RegistryView) -> (RegistryView, u64) {
        simple_hash(r, Self::key(), "i8"@)
    }

    fn type_key() -> (key: u64) {
        hash_name("i8")
    }

    fn get_definition(registry: &mut GlobalTypeRegistry) -> (handle: HasIndexed) {
        boilerplate_simple_definition(
            hash_name("i8"),
            String::from_str("i8"),
            Type::SimpleType(String::from_str("number")),
            registry,
        )
    }

    fn name() -> (name: String) {
        String::from_str("i8")
    }

    fn ts_name() -> (name: String) {
        String::from_str("number")
    }

    fn hash(registry: &mut GlobalTypeRegistry) -> (hash: u64) {
        boilerplate_simple_hash(hash_name("i8"), "i8", registry)
    }
}

impl TypescriptType for i16 {
    open spec fn key() -> u64 {
        name_hash("i16"@)
    }

    open spec fn spec_name() -> Seq<char> {
        "i16"@
    }

    open spec fn spec_ts_name() -> Seq<char> {
        "number"@
    }

    open spec fn spec_definition(r: RegistryView) -> (RegistryView, HasIndexed) {
        simple_definition(r, Self::key(), "i16"@, TypeView::SimpleType("number"@))
    }

    open spec fn spec_hash(r: RegistryView) -> (RegistryView, u64) {
        simple_hash(r, Self::key(), "i16"@)
    }

    fn type_key() -> (key: u64) {
        hash_name("i16")
    }

    fn get_definition(registry: &mut GlobalTypeRegistry) -> (handle: HasIndexed) {
        boilerplate_simple_definition(
            hash_name("i16"),
            String::from_str("i16"),
            Type::SimpleType(String::from_str("number")),
            registry,
        )
    }

    fn name() -> (name: String) {
        String::from_str("i16")
    }

    fn ts_name() -> (name: String) {
        String::from_str("number")
    }

    fn hash(registry: &mut GlobalTypeRegistry) -> (hash: u64) {
        boilerplate_simple_hash(hash_name("i16"), "i16", registry)
    }
}

impl TypescriptType for i32 {
    open spec fn key() -> u64 {
        name_hash("i32"@)
    }

    open spec fn spec_name() -> Seq<char> {
        "i32"@
    }

    open spec fn spec_ts_name() -> Seq<char> {
        "number"@
    }

    open spec fn spec_definition(r: RegistryView) -> (RegistryView, HasIndexed) {
        simple_definition(r, Self::key(), "i32"@, TypeView::SimpleType("number"@))
    }

    open spec fn spec_hash(r: RegistryView) -> (RegistryView, u64) {
        simple_hash(r, Self::key(), "i32"@)
    }

    fn type_key() -> (key: u64) {
        hash_name("i32")
    }

    fn get_definition(registry: &mut GlobalTypeRegistry) -> (handle: HasIndexed) {
        boilerplate_simple_definition(
            hash_name("i32"),
            String::from_str("i32"),
            Type::SimpleType(String::from_str("number")),
            registry,
        )
    }

    fn name() -> (name: String) {
        String::from_str("i32")
    }

    fn ts_name() -> (name: String) {
        String::from_str("number")
    }

    fn hash(registry: &mut GlobalTypeRegistry) -> (hash: u64) {
        boilerplate_simple_hash(hash_name("i32"), "i32", registry)
    }
}

impl TypescriptType for i64 {
    open spec fn key() -> u64 {
        name_hash("i64"@)
    }

    open spec fn spec_name() -> Seq<char> {
        "i64"@
    }

    open spec fn spec_ts_name() -> Seq<char> {
        "number"@
    }

    open spec fn spec_definition(r: RegistryView) -> (RegistryView, HasIndexed) {
        simple_definition(r, Self::key(), "i64"@, TypeView::SimpleType("number"@))
    }

    open spec fn spec_hash(r: RegistryView) -> (RegistryView, u64) {
        simple_hash(r, Self::key(), "i64"@)
    }

    fn type_key() -> (key: u64) {
        hash_name("i64")
    }

    fn get_definition(registry: &mut GlobalTypeRegistry) -> (handle: HasIndexed) {
        boilerplate_simple_definition(
            hash_name("i64"),
            String::from_str("i64"),
            Type::SimpleType(String::from_str("number")),
            registry,
        )
    }

    fn name() -> (name: String) {
        String::from_str("i64")
    }

    fn ts_name() -> (name: String) {
        String::from_str("number")
    }

    fn hash(registry: &mut GlobalTypeRegistry) -> (hash: u64) {
        boilerplate_simple_hash(hash_name("i64"), "i64", registry)
    }
}

/// The key of a type that is made of other types: a hash over the name
/// of the maker and the keys of the parts, in order.
pub open spec fn composite_key(maker: Seq<char>, parts: Seq<u64>) -> u64 {
    structural_hash("key"@, maker, Seq::new(parts.len(), |i: int| (Seq::<char>::empty(), parts[i])))
}

/// Computes the key of a type that is made of other types: see [`composite_key`].
pub fn make_composite_key(maker: &str, parts: &Vec<u64>) -> (key: u64)
    ensures
        key == composite_key(maker@, parts@),
{
    let mut children: Vec<(String, u64)> = Vec::new();
    let mut i: usize = 0;
    while i < parts.len()
        invariant
            i <= parts.len(),
            children.len() == i,
            forall|j: int|
                0 <= j < i ==> (#[trigger] children.deep_view()[j]) == (
                    Seq::<char>::empty(),
                    parts[j],
                ),
        decreases parts.len() - i,
    {
        let ghost before = children.deep_view();
        let empty = String::new();
        children.push((empty, parts[i]));
        assert(children.deep_view() =~= before.push((Seq::<char>::empty(), parts[i as int])));
        i += 1;
    }
    assert(children.deep_view() =~= Seq::new(
        parts@.len(),
        |i: int| (Seq::<char>::empty(), parts@[i]),
    ));
    hash_structure("key", maker, &children)
}

/// A reference without an alias.
pub open spec fn plain_reference(id: HasIndexed) -> ReferenceView {
    ReferenceView { id, renamed: None }
}

/// The component of a result with the given arms.
pub open spec fn result_component(ok: HasIndexed, err: HasIndexed, hash: u64) -> ComponentView {
    ComponentView {
        name: "Result"@,
        generics: Seq::empty(),
        typ: TypeView::Enum(
            RepresentationView::Default,
            seq![
                ("Ok"@, InnerView::NewType(plain_reference(ok))),
                ("Err"@, InnerView::NewType(plain_reference(err))),
            ],
        ),
        hash,
    }
}

/// The component of an option of the given type.
pub open spec fn option_component(some: HasIndexed, hash: u64) -> ComponentView {
    ComponentView {
        name: "Option"@,
        generics: Seq::empty(),
        typ: TypeView::Enum(
            RepresentationView::Untagged,
            seq![("Ok"@, InnerView::NewType(plain_reference(some))), ("None"@, InnerView::Null)],
        ),
        hash,
    }
}

/// The component of a tuple of the given items.
pub open spec fn tuple_component(items: Seq<HasIndexed>, hash: u64) -> ComponentView {
    ComponentView {
        name: "Tuple"@,
        generics: Seq::empty(),
        typ: TypeView::Struct(
            InnerView::Tuple(Seq::new(items.len(), |i: int| plain_reference(items[i]))),
        ),
        hash,
    }
}

impl<T: TypescriptType, E: TypescriptType> TypescriptType for Result<T, E> {
    open spec fn key() -> u64 {
        composite_key("Result"@, Seq::<u64>::empty().push(T::key()).push(E::key()))
    }

    open spec fn spec_name() -> Seq<char> {
        "Option<"@ + T::spec_name() + ","@ + E::spec_name() + ">"@
    }

    open spec fn spec_ts_name() -> Seq<char> {
        "Result"@
    }

    open spec fn spec_definition(r: RegistryView) -> (RegistryView, HasIndexed) {
        match r.existing(Self::key()) {
            Some(existing) => (r, existing),
            None => {
                let s0 = r.start(Self::key());
                let d0 = T::spec_definition(s0);
                let d1 = E::spec_definition(d0.0);
                let hashed = Self::spec_hash(d1.0);
                hashed.0.finalize(Self::key(), result_component(d0.1, d1.1, hashed.1))
            },
        }
    }

    open spec fn spec_hash(r: RegistryView) -> (RegistryView, u64) {
        match r.start_hash(Self::key()).1 {
            Some(known) => (r, known),
            None => {
                let s0 = r.start_hash(Self::key()).0;
                let h0 = T::spec_hash(s0);
                let h1 = E::spec_hash(h0.0);
                let hash = structural_hash(
                    "enum"@,
                    Self::spec_name(),
                    Seq::<(Seq<char>, u64)>::empty().push((T::spec_name(), h0.1)).push((E::spec_name(), h1.1)),
                );
                (h1.0.finalize_hash(Self::key(), hash), hash)
            },
        }
    }

    fn type_key() -> (key: u64) {
        let mut parts: Vec<u64> = Vec::new();
        parts.push(T::type_key());
        parts.push(E::type_key());
        assert(parts@ =~= Seq::<u64>::empty().push(T::key()).push(E::key()));
        make_composite_key("Result", &parts)
    }

    fn get_definition(registry: &mut GlobalTypeRegistry) -> (handle: HasIndexed) {
        let type_id = Self::type_key();
        match registry.return_existing(type_id) {
            Some(existing) => {
                return existing;
            },
            None => {},
        }
        registry.start(type_id);
        let ghost started = registry@;
        proof {
            law_operations_extend(old(registry)@, type_id, 0, ComponentView::any());
        }
        let handle_0 = T::get_definition(registry);
        let ghost with_0 = registry@;
        let handle_1 = E::get_definition(registry);
        let ghost with_1 = registry@;
        let hash = Self::hash(registry);
        let ghost hashed = registry@;
        let mut variants: Vec<(String, InnerType)> = Vec::new();
        variants.push(
            (
                String::from_str("Ok"),
                InnerType::NewType(ComponentReference { id: handle_0, renamed: None }),
            ),
        );
        variants.push(
            (
                String::from_str("Err"),
                InnerType::NewType(ComponentReference { id: handle_1, renamed: None }),
            ),
        );
        assert(variants.deep_view() =~= seq![
            ("Ok"@, InnerView::NewType(plain_reference(handle_0))),
            ("Err"@, InnerView::NewType(plain_reference(handle_1))),
        ]);
        let component = Component {
            name: String::from_str("Result"),
            generics: String::new(),
            typ: Type::Enum(EnumRepresentation::Default, variants),
            hash,
        };
        let handle = registry.finalize(type_id, component);
        proof {
            law_operations_extend(hashed, type_id, 0, component@);
            lemma_extends_transitive(old(registry)@, started, with_0);
            lemma_extends_transitive(old(registry)@, with_0, with_1);
            lemma_extends_transitive(old(registry)@, with_1, hashed);
            lemma_extends_transitive(old(registry)@, hashed, registry@);
        }
        handle
    }

    fn name() -> (name: String) {
        let mut name = String::from_str("Option<");
        name.append(T::name().as_str());
        name.append(",");
        name.append(E::name().as_str());
        name.append(">");
        name
    }

    fn ts_name() -> (name: String) {
        String::from_str("Result")
    }

    fn hash(registry: &mut GlobalTypeRegistry) -> (hash: u64) {
        let type_id = Self::type_key();
        match registry.start_hash(type_id) {
            Some(known) => {
                return known;
            },
            None => {},
        }
        let ghost started = registry@;
        proof {
            law_operations_extend(old(registry)@, type_id, 0, ComponentView::any());
            lemma_hash_steps_only_hash(old(registry)@, type_id, 0);
        }
        let mut children: Vec<(String, u64)> = Vec::new();
        let hash_0 = T::hash(registry);
        let ghost hashed_0 = registry@;
        children.push((T::name(), hash_0));
        let hash_1 = E::hash(registry);
        let ghost hashed_1 = registry@;
        children.push((E::name(), hash_1));
        let hash = hash_structure("enum", Self::name().as_str(), &children);
        registry.finalize_hash(type_id, hash);
        proof {
            assert(children.deep_view() =~= Seq::<(Seq<char>, u64)>::empty().push((T::spec_name(), hash_0)).push((E::spec_name(), hash_1)));
            law_operations_extend(hashed_1, type_id, hash, ComponentView::any());
            lemma_extends_transitive(old(registry)@, started, hashed_0);
            lemma_only_hashed_chain(old(registry)@, started, hashed_0);
            lemma_extends_transitive(old(registry)@, hashed_0, hashed_1);
            lemma_only_hashed_chain(old(registry)@, hashed_0, hashed_1);
            lemma_extends_transitive(started, hashed_0, hashed_1);
            lemma_only_hashed_chain(started, hashed_0, hashed_1);
            lemma_first_hash_is_recorded(old(registry)@, hashed_1, type_id, hash);
            lemma_extends_transitive(old(registry)@, hashed_1, registry@);
            assert(started.hashing.contains(type_id)) by {
                assert(started.hashing[started.hashing.len() - 1] == type_id);
            }
            assert(registry@.only_hashed(old(registry)@)) by {
                assert forall|k: u64|
                    old(registry)@.hashing.contains(k) && !old(registry)@.hashes.contains_key(
                        k,
                    ) implies !#[trigger] registry@.hashes.contains_key(k) by {
                    assert(!hashed_1.hashes.contains_key(k));
                }
            }
        }
        hash
    }
}

impl<T: TypescriptType> TypescriptType for Option<T> {
    open spec fn key() -> u64 {
        composite_key("Option"@, Seq::<u64>::empty().push(T::key()))
    }

    open spec fn spec_name() -> Seq<char> {
        "Option"@
    }

    open spec fn spec_ts_name() -> Seq<char> {
        T::spec_name() + " | null"@
    }

    open spec fn spec_definition(r: RegistryView) -> (RegistryView, HasIndexed) {
        match r.existing(Self::key()) {
            Some(existing) => (r, existing),
            None => {
                let s0 = r.start(Self::key());
                let d0 = T::spec_definition(s0);
                let hashed = Self::spec_hash(d0.0);
                hashed.0.finalize(Self::key(), option_component(d0.1, hashed.1))
            },
        }
    }

    open spec fn spec_hash(r: RegistryView) -> (RegistryView, u64) {
        match r.start_hash(Self::key()).1 {
            Some(known) => (r, known),
            None => {
                let s0 = r.start_hash(Self::key()).0;
                let h0 = T::spec_hash(s0);
                let hash = structural_hash(
                    "enum"@,
                    Self::spec_name(),
                    Seq::<(Seq<char>, u64)>::empty().push((T::spec_name(), h0.1)),
                );
                (h0.0.finalize_hash(Self::key(), hash), hash)
            },
        }
    }

    fn type_key() -> (key: u64) {
        let mut parts: Vec<u64> = Vec::new();
        parts.push(T::type_key());
        assert(parts@ =~= Seq::<u64>::empty().push(T::key()));
        make_composite_key("Option", &parts)
    }

    fn get_definition(registry: &mut GlobalTypeRegistry) -> (handle: HasIndexed) {
        let type_id = Self::type_key();
        match registry.return_existing(type_id) {
            Some(existing) => {
                return existing;
            },
            None => {},
        }
        registry.start(type_id);
        let ghost started = registry@;
        proof {
            law_operations_extend(old(registry)@, type_id, 0, ComponentView::any());
        }
        let handle_0 = T::get_definition(registry);
        let ghost with_0 = registry@;
        let hash = Self::hash(registry);
        let ghost hashed = registry@;
        let mut variants: Vec<(String, InnerType)> = Vec::new();
        variants.push(
            (
                String::from_str("Ok"),
                InnerType::NewType(ComponentReference { id: handle_0, renamed: None }),
            ),
        );
        variants.push((String::from_str("None"), InnerType::Null));
        assert(variants.deep_view() =~= seq![
            ("Ok"@, InnerView::NewType(plain_reference(handle_0))),
            ("None"@, InnerView::Null),
        ]);
        let component = Component {
            name: String::from_str("Option"),
            generics: String::new(),
            typ: Type::Enum(EnumRepresentation::Untagged, variants),
            hash,
        };
        let handle = registry.finalize(type_id, component);
        proof {
            law_operations_extend(hashed, type_id, 0, component@);
            lemma_extends_transitive(old(registry)@, started, with_0);
            lemma_extends_transitive(old(registry)@, with_0, hashed);
            lemma_extends_transitive(old(registry)@, hashed, registry@);
        }
        handle
    }

    fn name() -> (name: String) {
        String::from_str("Option")
    }

    fn ts_name() -> (name: String) {
        let mut name = T::name();
        name.append(" | null");
        name
    }

    fn hash(registry: &mut GlobalTypeRegistry) -> (hash: u64) {
        let type_id = Self::type_key();
        match registry.start_hash(type_id) {
            Some(known) => {
                return known;
            },
            None => {},
        }
        let ghost started = registry@;
        proof {
            law_operations_extend(old(registry)@, type_id, 0, ComponentView::any());
            lemma_hash_steps_only_hash(old(registry)@, type_id, 0);
        }
        let mut children: Vec<(String, u64)> = Vec::new();
        let hash_0 = T::hash(registry);
        let ghost hashed_0 = registry@;
        children.push((T::name(), hash_0));
        let hash = hash_structure("enum", Self::name().as_str(), &children);
        registry.finalize_hash(type_id, hash);
        proof {
            assert(children.deep_view() =~= Seq::<(Seq<char>, u64)>::empty().push((T::spec_name(), hash_0)));
            law_operations_extend(hashed_0, type_id, hash, ComponentView::any());
            lemma_extends_transitive(old(registry)@, started, hashed_0);
            lemma_only_hashed_chain(old(registry)@, started, hashed_0);
            lemma_first_hash_is_recorded(old(registry)@, hashed_0, type_id, hash);
            lemma_extends_transitive(old(registry)@, hashed_0, registry@);
            assert(started.hashing.contains(type_id)) by {
                assert(started.hashing[started.hashing.len() - 1] == type_id);
            }
            assert(registry@.only_hashed(old(registry)@)) by {
                assert forall|k: u64|
                    old(registry)@.hashing.contains(k) && !old(registry)@.hashes.contains_key(
                        k,
                    ) implies !#[trigger] registry@.hashes.contains_key(k) by {
                    assert(!hashed_0.hashes.contains_key(k));
                }
            }
        }
        hash
    }
}

impl<T: TypescriptType> TypescriptType for Vec<T> {
    open spec fn key() -> u64 {
        composite_key("Vec"@, seq![T::key()])
    }

    open spec fn spec_name() -> Seq<char> {
        "Vec"@ + T::spec_name()
    }

    open spec fn spec_ts_name() -> Seq<char> {
        "Array<"@ + T::spec_name() + ">"@
    }

    open spec fn spec_definition(r: RegistryView) -> (RegistryView, HasIndexed) {
        let item = T::spec_definition(r);
        simple_definition(
            item.0,
            Self::key(),
            Self::spec_name(),
            TypeView::Array(plain_reference(item.1)),
        )
    }

    open spec fn spec_hash(r: RegistryView) -> (RegistryView, u64) {
        simple_hash(r, Self::key(), Self::spec_name())
    }

    fn type_key() -> (key: u64) {
        let mut parts: Vec<u64> = Vec::new();
        parts.push(T::type_key());
        assert(parts@ =~= seq![T::key()]);
        make_composite_key("Vec", &parts)
    }

    fn get_definition(registry: &mut GlobalTypeRegistry) -> (handle: HasIndexed) {
        let inner = T::get_definition(registry);
        let ghost with_inner = registry@;
        let item = ComponentReference { id: inner, renamed: None };
        let handle = boilerplate_simple_definition(
            Self::type_key(),
            Self::name(),
            Type::Array(item),
            registry,
        );
        proof {
            lemma_extends_transitive(old(registry)@, with_inner, registry@);
        }
        handle
    }

    fn name() -> (name: String) {
        let mut name = String::from_str("Vec");
        name.append(T::name().as_str());
        name
    }

    fn ts_name() -> (name: String) {
        let mut name = String::from_str("Array<");
        name.append(T::name().as_str());
        name.append(">");
        name
    }

    fn hash(registry: &mut GlobalTypeRegistry) -> (hash: u64) {
        boilerplate_simple_hash(Self::type_key(), Self::name().as_str(), registry)
    }
}

impl<T: TypescriptType, const C: usize> TypescriptType for [T; C] {
    open spec fn key() -> u64 {
        composite_key("array"@, seq![T::key(), C as u64])
    }

    open spec fn spec_name() -> Seq<char> {
        "["@ + T::spec_name() + "; "@ + decimal(C as nat) + "]"@
    }

    open spec fn spec_ts_name() -> Seq<char> {
        "Array<"@ + T::spec_name() + ">"@
    }

    open spec fn spec_definition(r: RegistryView) -> (RegistryView, HasIndexed) {
        let item = T::spec_definition(r);
        simple_definition(
            item.0,
            Self::key(),
            Self::spec_name(),
            TypeView::Array(plain_reference(item.1)),
        )
    }

    open spec fn spec_hash(r: RegistryView) -> (RegistryView, u64) {
        simple_hash(r, Self::key(), Self::spec_name())
    }

    fn type_key() -> (key: u64) {
        let mut parts: Vec<u64> = Vec::new();
        parts.push(T::type_key());
        parts.push(C as u64);
        assert(parts@ =~= seq![T::key(), C as u64]);
        make_composite_key("array", &parts)
    }

    fn get_definition(registry: &mut GlobalTypeRegistry) -> (handle: HasIndexed) {
        let inner = T::get_definition(registry);
        let ghost with_inner = registry@;
        let item = ComponentReference { id: inner, renamed: None };
        let handle = boilerplate_simple_definition(
            Self::type_key(),
            Self::name(),
            Type::Array(item),
            registry,
        );
        proof {
            lemma_extends_transitive(old(registry)@, with_inner, registry@);
        }
        handle
    }

    fn name() -> (name: String) {
        let mut name = String::from_str("[");
        name.append(T::name().as_str());
        name.append("; ");
        name.append(decimal_string(C).as_str());
        name.append("]");
        name
    }

    fn ts_name() -> (name: String) {
        let mut name = String::from_str("Array<");
        name.append(T::name().as_str());
        name.append(">");
        name
    }

    fn hash(registry: &mut GlobalTypeRegistry) -> (hash: u64) {
        boilerplate_simple_hash(Self::type_key(), Self::name().as_str(), registry)
    }
}

impl<'a, T: TypescriptType> TypescriptType for &'a [T] {
    open spec fn key() -> u64 {
        composite_key("slice"@, seq![T::key()])
    }

    open spec fn spec_name() -> Seq<char> {
        "["@ + T::spec_name() + "]"@
    }

    open spec fn spec_ts_name() -> Seq<char> {
        "Array<"@ + T::spec_name() + ">"@
    }

    open spec fn spec_definition(r: RegistryView) -> (RegistryView, HasIndexed) {
        let item = T::spec_definition(r);
        simple_definition(
            item.0,
            Self::key(),
            Self::spec_name(),
            TypeView::Array(plain_reference(item.1)),
        )
    }

    open spec fn spec_hash(r: RegistryView) -> (RegistryView, u64) {
        simple_hash(r, Self::key(), Self::spec_name())
    }

    fn type_key() -> (key: u64) {
        let mut parts: Vec<u64> = Vec::new();
        parts.push(T::type_key());
        assert(parts@ =~= seq![T::key()]);
        make_composite_key("slice", &parts)
    }

    fn get_definition(registry: &mut GlobalTypeRegistry) -> (handle: HasIndexed) {
        let inner = T::get_definition(registry);
        let ghost with_inner = registry@;
        let item = ComponentReference { id: inner, renamed: None };
        let handle = boilerplate_simple_definition(
            Self::type_key(),
            Self::name(),
            Type::Array(item),
            registry,
        );
        proof {
            lemma_extends_transitive(old(registry)@, with_inner, registry@);
        }
        handle
    }

    fn name() -> (name: String) {
        let mut name = String::from_str("[");
        name.append(T::name().as_str());
        name.append("]");
        name
    }

    fn ts_name() -> (name: String) {
        let mut name = String::from_str("Array<");
        name.append(T::name().as_str());
        name.append(">");
        name
    }

    fn hash(registry: &mut GlobalTypeRegistry) -> (hash: u64) {
        boilerplate_simple_hash(Self::type_key(), Self::name().as_str(), registry)
    }
}

impl<T1: TypescriptType, T2: TypescriptType> TypescriptType for (T1, T2) {
    open spec fn key() -> u64 {
        composite_key("tuple"@, Seq::<u64>::empty().push(T1::key()).push(T2::key()))
    }

    open spec fn spec_name() -> Seq<char> {
        "("@ + join_spec(seq![T1::spec_name(), T2::spec_name()], ", "@) + ")"@
    }

    open spec fn spec_ts_name() -> Seq<char> {
        "["@ + join_spec(seq![T1::spec_ts_name(), T2::spec_ts_name()], ", "@) + "]"@
    }

    open spec fn spec_definition(r: RegistryView) -> (RegistryView, HasIndexed) {
        match r.existing(Self::key()) {
            Some(existing) => (r, existing),
            None => {
                let s0 = r.start(Self::key());
                let d0 = T1::spec_definition(s0);
                let d1 = T2::spec_definition(d0.0);
                let hashed = Self::spec_hash(d1.0);
                hashed.0.finalize(Self::key(), tuple_component(Seq::<HasIndexed>::empty().push(d0.1).push(d1.1), hashed.1))
            },
        }
    }

    open spec fn spec_hash(r: RegistryView) -> (RegistryView, u64) {
        match r.start_hash(Self::key()).1 {
            Some(known) => (r, known),
            None => {
                let s0 = r.start_hash(Self::key()).0;
                let h0 = T1::spec_hash(s0);
                let h1 = T2::spec_hash(h0.0);
                let hash = structural_hash(
                    "tuple"@,
                    Self::spec_name(),
                    Seq::<(Seq<char>, u64)>::empty().push((T1::spec_name(), h0.1)).push((T2::spec_name(), h1.1)),
                );
                (h1.0.finalize_hash(Self::key(), hash), hash)
            },
        }
    }

    fn type_key() -> (key: u64) {
        let mut parts: Vec<u64> = Vec::new();
        parts.push(T1::type_key());
        parts.push(T2::type_key());
        assert(parts@ =~= Seq::<u64>::empty().push(T1::key()).push(T2::key()));
        make_composite_key("tuple", &parts)
    }

    fn get_definition(registry: &mut GlobalTypeRegistry) -> (handle: HasIndexed) {
        let type_id = Self::type_key();
        match registry.return_existing(type_id) {
            Some(existing) => {
                return existing;
            },
            None => {},
        }
        registry.start(type_id);
        let ghost started = registry@;
        proof {
            law_operations_extend(old(registry)@, type_id, 0, ComponentView::any());
        }
        let handle_0 = T1::get_definition(registry);
        let ghost with_0 = registry@;
        let handle_1 = T2::get_definition(registry);
        let ghost with_1 = registry@;
        let hash = Self::hash(registry);
        let ghost hashed = registry@;
        let mut subs: Vec<ComponentReference> = Vec::new();
        subs.push(ComponentReference { id: handle_0, renamed: None });
        subs.push(ComponentReference { id: handle_1, renamed: None });
        assert(subs.deep_view() =~= Seq::new(
            2,
            |i: int| plain_reference(Seq::<HasIndexed>::empty().push(handle_0).push(handle_1)[i]),
        ));
        let component = Component {
            name: String::from_str("Tuple"),
            generics: String::new(),
            typ: Type::Struct(InnerType::Tuple(subs)),
            hash,
        };
        let handle = registry.finalize(type_id, component);
        proof {
            law_operations_extend(hashed, type_id, 0, component@);
            lemma_extends_transitive(old(registry)@, started, with_0);
            lemma_extends_transitive(old(registry)@, with_0, with_1);
            lemma_extends_transitive(old(registry)@, with_1, hashed);
            lemma_extends_transitive(old(registry)@, hashed, registry@);
        }
        handle
    }

    fn name() -> (name: String) {
        let mut names: Vec<String> = Vec::new();
        names.push(T1::name());
        names.push(T2::name());
        assert(texts(names@) =~= seq![T1::spec_name(), T2::spec_name()]);
        let mut name = String::from_str("(");
        name.append(join(&names, ", ").as_str());
        name.append(")");
        name
    }

    fn ts_name() -> (name: String) {
        let mut names: Vec<String> = Vec::new();
        names.push(T1::ts_name());
        names.push(T2::ts_name());
        assert(texts(names@) =~= seq![T1::spec_ts_name(), T2::spec_ts_name()]);
        let mut name = String::from_str("[");
        name.append(join(&names, ", ").as_str());
        name.append("]");
        name
    }

    fn hash(registry: &mut GlobalTypeRegistry) -> (hash: u64) {
        let type_id = Self::type_key();
        match registry.start_hash(type_id) {
            Some(known) => {
                return known;
            },
            None => {},
        }
        let ghost started = registry@;
        proof {
            law_operations_extend(old(registry)@, type_id, 0, ComponentView::any());
            lemma_hash_steps_only_hash(old(registry)@, type_id, 0);
        }
        let mut children: Vec<(String, u64)> = Vec::new();
        let hash_0 = T1::hash(registry);
        let ghost hashed_0 = registry@;
        children.push((T1::name(), hash_0));
        let hash_1 = T2::hash(registry);
        let ghost hashed_1 = registry@;
        children.push((T2::name(), hash_1));
        let hash = hash_structure("tuple", Self::name().as_str(), &children);
        registry.finalize_hash(type_id, hash);
        proof {
            assert(children.deep_view() =~= Seq::<(Seq<char>, u64)>::empty().push((T1::spec_name(), hash_0)).push((T2::spec_name(), hash_1)));
            law_operations_extend(hashed_1, type_id, hash, ComponentView::any());
            lemma_extends_transitive(old(registry)@, started, hashed_0);
            lemma_only_hashed_chain(old(registry)@, started, hashed_0);
            lemma_extends_transitive(old(registry)@, hashed_0, hashed_1);
            lemma_only_hashed_chain(old(registry)@, hashed_0, hashed_1);
            lemma_extends_transitive(started, hashed_0, hashed_1);
            lemma_only_hashed_chain(started, hashed_0, hashed_1);
            lemma_first_hash_is_recorded(old(registry)@, hashed_1, type_id, hash);
            lemma_extends_transitive(old(registry)@, hashed_1, registry@);
            assert(started.hashing.contains(type_id)) by {
                assert(started.hashing[started.hashing.len() - 1] == type_id);
            }
            assert(registry@.only_hashed(old(registry)@)) by {
                assert forall|k: u64|
                    old(registry)@.hashing.contains(k) && !old(registry)@.hashes.contains_key(
                        k,
                    ) implies !#[trigger] registry@.hashes.contains_key(k) by {
                    assert(!hashed_1.hashes.contains_key(k));
                }
            }
        }
        hash
    }
}

impl<T1: TypescriptType, T2: TypescriptType, T3: TypescriptType> TypescriptType for (T1, T2, T3) {
    open spec fn key() -> u64 {
        composite_key("tuple"@, Seq::<u64>::empty().push(T1::key()).push(T2::key()).push(T3::key()))
    }

    open spec fn spec_name() -> Seq<char> {
        "("@ + join_spec(seq![T1::spec_name(), T2::spec_name(), T3::spec_name()], ", "@) + ")"@
    }

    open spec fn spec_ts_name() -> Seq<char> {
        "["@ + join_spec(seq![T1::spec_ts_name(), T2::spec_ts_name(), T3::spec_ts_name()], ", "@) + "]"@
    }

    open spec fn spec_definition(r: RegistryView) -> (RegistryView, HasIndexed) {
        match r.existing(Self::key()) {
            Some(existing) => (r, existing),
            None => {
                let s0 = r.start(Self::key());
                let d0 = T1::spec_definition(s0);
                let d1 = T2::spec_definition(d0.0);
                let d2 = T3::spec_definition(d1.0);
                let hashed = Self::spec_hash(d2.0);
                hashed.0.finalize(Self::key(), tuple_component(Seq::<HasIndexed>::empty().push(d0.1).push(d1.1).push(d2.1), hashed.1))
            },
        }
    }

    open spec fn spec_hash(r: RegistryView) -> (RegistryView, u64) {
        match r.start_hash(Self::key()).1 {
            Some(known) => (r, known),
            None => {
                let s0 = r.start_hash(Self::key()).0;
                let h0 = T1::spec_hash(s0);
                let h1 = T2::spec_hash(h0.0);
                let h2 = T3::spec_hash(h1.0);
                let hash = structural_hash(
                    "tuple"@,
                    Self::spec_name(),
                    Seq::<(Seq<char>, u64)>::empty().push((T1::spec_name(), h0.1)).push((T2::spec_name(), h1.1)).push((T3::spec_name(), h2.1)),
                );
                (h2.0.finalize_hash(Self::key(), hash), hash)
            },
        }
    }

    fn type_key() -> (key: u64) {
        let mut parts: Vec<u64> = Vec::new();
        parts.push(T1::type_key());
        parts.push(T2::type_key());
        parts.push(T3::type_key());
        assert(parts@ =~= Seq::<u64>::empty().push(T1::key()).push(T2::key()).push(T3::key()));
        make_composite_key("tuple", &parts)
    }

    fn get_definition(registry: &mut GlobalTypeRegistry) -> (handle: HasIndexed) {
        let type_id = Self::type_key();
        match registry.return_existing(type_id) {
            Some(existing) => {
                return existing;
            },
            None => {},
        }
        registry.start(type_id);
        let ghost started = registry@;
        proof {
            law_operations_extend(old(registry)@, type_id, 0, ComponentView::any());
        }
        let handle_0 = T1::get_definition(registry);
        let ghost with_0 = registry@;
        let handle_1 = T2::get_definition(registry);
        let ghost with_1 = registry@;
        let handle_2 = T3::get_definition(registry);
        let ghost with_2 = registry@;
        let hash = Self::hash(registry);
        let ghost hashed = registry@;
        let mut subs: Vec<ComponentReference> = Vec::new();
        subs.push(ComponentReference { id: handle_0, renamed: None });
        subs.push(ComponentReference { id: handle_1, renamed: None });
        subs.push(ComponentReference { id: handle_2, renamed: None });
        assert(subs.deep_view() =~= Seq::new(
            3,
            |i: int| plain_reference(Seq::<HasIndexed>::empty().push(handle_0).push(handle_1).push(handle_2)[i]),
        ));
        let component = Component {
            name: String::from_str("Tuple"),
            generics: String::new(),
            typ: Type::Struct(InnerType::Tuple(subs)),
            hash,
        };
        let handle = registry.finalize(type_id, component);
        proof {
            law_operations_extend(hashed, type_id, 0, component@);
            lemma_extends_transitive(old(registry)@, started, with_0);
            lemma_extends_transitive(old(registry)@, with_0, with_1);
            lemma_extends_transitive(old(registry)@, with_1, with_2);
            lemma_extends_transitive(old(registry)@, with_2, hashed);
            lemma_extends_transitive(old(registry)@, hashed, registry@);
        }
        handle
    }

    fn name() -> (name: String) {
        let mut names: Vec<String> = Vec::new();
        names.push(T1::name());
        names.push(T2::name());
        names.push(T3::name());
        assert(texts(names@) =~= seq![T1::spec_name(), T2::spec_name(), T3::spec_name()]);
        let mut name = String::from_str("(");
        name.append(join(&names, ", ").as_str());
        name.append(")");
        name
    }

    fn ts_name() -> (name: String) {
        let mut names: Vec<String> = Vec::new();
        names.push(T1::ts_name());
        names.push(T2::ts_name());
        names.push(T3::ts_name());
        assert(texts(names@) =~= seq![T1::spec_ts_name(), T2::spec_ts_name(), T3::spec_ts_name()]);
        let mut name = String::from_str("[");
        name.append(join(&names, ", ").as_str());
        name.append("]");
        name
    }

    fn hash(registry: &mut GlobalTypeRegistry) -> (hash: u64) {
        let type_id = Self::type_key();
        match registry.start_hash(type_id) {
            Some(known) => {
                return known;
            },
            None => {},
        }
        let ghost started = registry@;
        proof {
            law_operations_extend(old(registry)@, type_id, 0, ComponentView::any());
            lemma_hash_steps_only_hash(old(registry)@, type_id, 0);
        }
        let mut children: Vec<(String, u64)> = Vec::new();
        let hash_0 = T1::hash(registry);
        let ghost hashed_0 = registry@;
        children.push((T1::name(), hash_0));
        let hash_1 = T2::hash(registry);
        let ghost hashed_1 = registry@;
        children.push((T2::name(), hash_1));
        let hash_2 = T3::hash(registry);
        let ghost hashed_2 = registry@;
        children.push((T3::name(), hash_2));
        let hash = hash_structure("tuple", Self::name().as_str(), &children);
        registry.finalize_hash(type_id, hash);
        proof {
            assert(children.deep_view() =~= Seq::<(Seq<char>, u64)>::empty().push((T1::spec_name(), hash_0)).push((T2::spec_name(), hash_1)).push((T3::spec_name(), hash_2)));
            law_operations_extend(hashed_2, type_id, hash, ComponentView::any());
            lemma_extends_transitive(old(registry)@, started, hashed_0);
            lemma_only_hashed_chain(old(registry)@, started, hashed_0);
            lemma_extends_transitive(old(registry)@, hashed_0, hashed_1);
            lemma_only_hashed_chain(old(registry)@, hashed_0, hashed_1);
            lemma_extends_transitive(started, hashed_0, hashed_1);
            lemma_only_hashed_chain(started, hashed_0, hashed_1);
            lemma_extends_transitive(old(registry)@, hashed_1, hashed_2);
            lemma_only_hashed_chain(old(registry)@, hashed_1, hashed_2);
            lemma_extends_transitive(started, hashed_1, hashed_2);
            lemma_only_hashed_chain(started, hashed_1, hashed_2);
            lemma_first_hash_is_recorded(old(registry)@, hashed_2, type_id, hash);
            lemma_extends_transitive(old(registry)@, hashed_2, registry@);
            assert(started.hashing.contains(type_id)) by {
                assert(started.hashing[started.hashing.len() - 1] == type_id);
            }
            assert(registry@.only_hashed(old(registry)@)) by {
                assert forall|k: u64|
                    old(registry)@.hashing.contains(k) && !old(registry)@.hashes.contains_key(
                        k,
                    ) implies !#[trigger] registry@.hashes.contains_key(k) by {
                    assert(!hashed_2.hashes.contains_key(k));
                }
            }
        }
        hash
    }
}

impl<T1: TypescriptType, T2: TypescriptType, T3: TypescriptType, T4: TypescriptType> TypescriptType for (T1, T2, T3, T4) {
    open spec fn key() -> u64 {
        composite_key("tuple"@, Seq::<u64>::empty().push(T1::key()).push(T2::key()).push(T3::key()).push(T4::key()))
    }

    open spec fn spec_name() -> Seq<char> {
        "("@ + join_spec(seq![T1::spec_name(), T2::spec_name(), T3::spec_name(), T4::spec_name()], ", "@) + ")"@
    }

    open spec fn spec_ts_name() -> Seq<char> {
        "["@ + join_spec(seq![T1::spec_ts_name(), T2::spec_ts_name(), T3::spec_ts_name(), T4::spec_ts_name()], ", "@) + "]"@
    }

    open spec fn spec_definition(r: RegistryView) -> (RegistryView, HasIndexed) {
        match r.existing(Self::key()) {
            Some(existing) => (r, existing),
            None => {
                let s0 = r.start(Self::key());
                let d0 = T1::spec_definition(s0);
                let d1 = T2::spec_definition(d0.0);
                let d2 = T3::spec_definition(d1.0);
                let d3 = T4::spec_definition(d2.0);
                let hashed = Self::spec_hash(d3.0);
                hashed.0.finalize(Self::key(), tuple_component(Seq::<HasIndexed>::empty().push(d0.1).push(d1.1).push(d2.1).push(d3.1), hashed.1))
            },
        }
    }

    open spec fn spec_hash(r: RegistryView) -> (RegistryView, u64) {
        match r.start_hash(Self::key()).1 {
            Some(known) => (r, known),
            None => {
                let s0 = r.start_hash(Self::key()).0;
                let h0 = T1::spec_hash(s0);
                let h1 = T2::spec_hash(h0.0);
                let h2 = T3::spec_hash(h1.0);
                let h3 = T4::spec_hash(h2.0);
                let hash = structural_hash(
                    "tuple"@,
                    Self::spec_name(),
                    Seq::<(Seq<char>, u64)>::empty().push((T1::spec_name(), h0.1)).push((T2::spec_name(), h1.1)).push((T3::spec_name(), h2.1)).push((T4::spec_name(), h3.1)),
                );
                (h3.0.finalize_hash(Self::key(), hash), hash)
            },
        }
    }

    fn type_key() -> (key: u64) {
        let mut parts: Vec<u64> = Vec::new();
        parts.push(T1::type_key());
        parts.push(T2::type_key());
        parts.push(T3::type_key());
        parts.push(T4::type_key());
        assert(parts@ =~= Seq::<u64>::empty().push(T1::key()).push(T2::key()).push(T3::key()).push(T4::key()));
        make_composite_key("tuple", &parts)
    }

    fn get_definition(registry: &mut GlobalTypeRegistry) -> (handle: HasIndexed) {
        let type_id = Self::type_key();
        match registry.return_existing(type_id) {
            Some(existing) => {
                return existing;
            },
            None => {},
        }
        registry.start(type_id);
        let ghost started = registry@;
        proof {
            law_operations_extend(old(registry)@, type_id, 0, ComponentView::any());
        }
        let handle_0 = T1::get_definition(registry);
        let ghost with_0 = registry@;
        let handle_1 = T2::get_definition(registry);
        let ghost with_1 = registry@;
        let handle_2 = T3::get_definition(registry);
        let ghost with_2 = registry@;
        let handle_3 = T4::get_definition(registry);
        let ghost with_3 = registry@;
        let hash = Self::hash(registry);
        let ghost hashed = registry@;
        let mut subs: Vec<ComponentReference> = Vec::new();
        subs.push(ComponentReference { id: handle_0, renamed: None });
        subs.push(ComponentReference { id: handle_1, renamed: None });
        subs.push(ComponentReference { id: handle_2, renamed: None });
        subs.push(ComponentReference { id: handle_3, renamed: None });
        assert(subs.deep_view() =~= Seq::new(
            4,
            |i: int| plain_reference(Seq::<HasIndexed>::empty().push(handle_0).push(handle_1).push(handle_2).push(handle_3)[i]),
        ));
        let component = Component {
            name: String::from_str("Tuple"),
            generics: String::new(),
            typ: Type::Struct(InnerType::Tuple(subs)),
            hash,
        };
        let handle = registry.finalize(type_id, component);
        proof {
            law_operations_extend(hashed, type_id, 0, component@);
            lemma_extends_transitive(old(registry)@, started, with_0);
            lemma_extends_transitive(old(registry)@, with_0, with_1);
            lemma_extends_transitive(old(registry)@, with_1, with_2);
            lemma_extends_transitive(old(registry)@, with_2, with_3);
            lemma_extends_transitive(old(registry)@, with_3, hashed);
            lemma_extends_transitive(old(registry)@, hashed, registry@);
        }
        handle
    }

    fn name() -> (name: String) {
        let mut names: Vec<String> = Vec::new();
        names.push(T1::name());
        names.push(T2::name());
        names.push(T3::name());
        names.push(T4::name());
        assert(texts(names@) =~= seq![T1::spec_name(), T2::spec_name(), T3::spec_name(), T4::spec_name()]);
        let mut name = String::from_str("(");
        name.append(join(&names, ", ").as_str());
        name.append(")");
        name
    }

    fn ts_name() -> (name: String) {
        let mut names: Vec<String> = Vec::new();
        names.push(T1::ts_name());
        names.push(T2::ts_name());
        names.push(T3::ts_name());
        names.push(T4::ts_name());
        assert(texts(names@) =~= seq![T1::spec_ts_name(), T2::spec_ts_name(), T3::spec_ts_name(), T4::spec_ts_name()]);
        let mut name = String::from_str("[");
        name.append(join(&names, ", ").as_str());
        name.append("]");
        name
    }

    fn hash(registry: &mut GlobalTypeRegistry) -> (hash: u64) {
        let type_id = Self::type_key();
        match registry.start_hash(type_id) {
            Some(known) => {
                return known;
            },
            None => {},
        }
        let ghost started = registry@;
        proof {
            law_operations_extend(old(registry)@, type_id, 0, ComponentView::any());
            lemma_hash_steps_only_hash(old(registry)@, type_id, 0);
        }
        let mut children: Vec<(String, u64)> = Vec::new();
        let hash_0 = T1::hash(registry);
        let ghost hashed_0 = registry@;
        children.push((T1::name(), hash_0));
        let hash_1 = T2::hash(registry);
        let ghost hashed_1 = registry@;
        children.push((T2::name(), hash_1));
        let hash_2 = T3::hash(registry);
        let ghost hashed_2 = registry@;
        children.push((T3::name(), hash_2));
        let hash_3 = T4::hash(registry);
        let ghost hashed_3 = registry@;
        children.push((T4::name(), hash_3));
        let hash = hash_structure("tuple", Self::name().as_str(), &children);
        registry.finalize_hash(type_id, hash);
        proof {
            assert(children.deep_view() =~= Seq::<(Seq<char>, u64)>::empty().push((T1::spec_name(), hash_0)).push((T2::spec_name(), hash_1)).push((T3::spec_name(), hash_2)).push((T4::spec_name(), hash_3)));
            law_operations_extend(hashed_3, type_id, hash, ComponentView::any());
            lemma_extends_transitive(old(registry)@, started, hashed_0);
            lemma_only_hashed_chain(old(registry)@, started, hashed_0);
            lemma_extends_transitive(old(registry)@, hashed_0, hashed_1);
            lemma_only_hashed_chain(old(registry)@, hashed_0, hashed_1);
            lemma_extends_transitive(started, hashed_0, hashed_1);
            lemma_only_hashed_chain(started, hashed_0, hashed_1);
            lemma_extends_transitive(old(registry)@, hashed_1, hashed_2);
            lemma_only_hashed_chain(old(registry)@, hashed_1, hashed_2);
            lemma_extends_transitive(started, hashed_1, hashed_2);
            lemma_only_hashed_chain(started, hashed_1, hashed_2);
            lemma_extends_transitive(old(registry)@, hashed_2, hashed_3);
            lemma_only_hashed_chain(old(registry)@, hashed_2, hashed_3);
            lemma_extends_transitive(started, hashed_2, hashed_3);
            lemma_only_hashed_chain(started, hashed_2, hashed_3);
            lemma_first_hash_is_recorded(old(registry)@, hashed_3, type_id, hash);
            lemma_extends_transitive(old(registry)@, hashed_3, registry@);
            assert(started.hashing.contains(type_id)) by {
                assert(started.hashing[started.hashing.len() - 1] == type_id);
            }
            assert(registry@.only_hashed(old(registry)@)) by {
                assert forall|k: u64|
                    old(registry)@.hashing.contains(k) && !old(registry)@.hashes.contains_key(
                        k,
                    ) implies !#[trigger] registry@.hashes.contains_key(k) by {
                    assert(!hashed_3.hashes.contains_key(k));
                }
            }
        }
        hash
    }
}

impl<T1: TypescriptType, T2: TypescriptType, T3: TypescriptType, T4: TypescriptType, T5: TypescriptType> TypescriptType for (T1, T2, T3, T4, T5) {
    open spec fn key() -> u64 {
        composite_key("tuple"@, Seq::<u64>::empty().push(T1::key()).push(T2::key()).push(T3::key()).push(T4::key()).push(T5::key()))
    }

    open spec fn spec_name() -> Seq<char> {
        "("@ + join_spec(seq![T1::spec_name(), T2::spec_name(), T3::spec_name(), T4::spec_name(), T5::spec_name()], ", "@) + ")"@
    }

    open spec fn spec_ts_name() -> Seq<char> {
        "["@ + join_spec(seq![T1::spec_ts_name(), T2::spec_ts_name(), T3::spec_ts_name(), T4::spec_ts_name(), T5::spec_ts_name()], ", "@) + "]"@
    }

    open spec fn spec_definition(r: RegistryView) -> (RegistryView, HasIndexed) {
        match r.existing(Self::key()) {
            Some(existing) => (r, existing),
            None => {
                let s0 = r.start(Self::key());
                let d0 = T1::spec_definition(s0);
                let d1 = T2::spec_definition(d0.0);
                let d2 = T3::spec_definition(d1.0);
                let d3 = T4::spec_definition(d2.0);
                let d4 = T5::spec_definition(d3.0);
                let hashed = Self::spec_hash(d4.0);
                hashed.0.finalize(Self::key(), tuple_component(Seq::<HasIndexed>::empty().push(d0.1).push(d1.1).push(d2.1).push(d3.1).push(d4.1), hashed.1))
            },
        }
    }

    open spec fn spec_hash(r: RegistryView) -> (RegistryView, u64) {
        match r.start_hash(Self::key()).1 {
            Some(known) => (r, known),
            None => {
                let s0 = r.start_hash(Self::key()).0;
                let h0 = T1::spec_hash(s0);
                let h1 = T2::spec_hash(h0.0);
                let h2 = T3::spec_hash(h1.0);
                let h3 = T4::spec_hash(h2.0);
                let h4 = T5::spec_hash(h3.0);
                let hash = structural_hash(
                    "tuple"@,
                    Self::spec_name(),
                    Seq::<(Seq<char>, u64)>::empty().push((T1::spec_name(), h0.1)).push((T2::spec_name(), h1.1)).push((T3::spec_name(), h2.1)).push((T4::spec_name(), h3.1)).push((T5::spec_name(), h4.1)),
                );
                (h4.0.finalize_hash(Self::key(), hash), hash)
            },
        }
    }

    fn type_key() -> (key: u64) {
        let mut parts: Vec<u64> = Vec::new();
        parts.push(T1::type_key());
        parts.push(T2::type_key());
        parts.push(T3::type_key());
        parts.push(T4::type_key());
        parts.push(T5::type_key());
        assert(parts@ =~= Seq::<u64>::empty().push(T1::key()).push(T2::key()).push(T3::key()).push(T4::key()).push(T5::key()));
        make_composite_key("tuple", &parts)
    }

    fn get_definition(registry: &mut GlobalTypeRegistry) -> (handle: HasIndexed) {
        let type_id = Self::type_key();
        match registry.return_existing(type_id) {
            Some(existing) => {
                return existing;
            },
            None => {},
        }
        registry.start(type_id);
        let ghost started = registry@;
        proof {
            law_operations_extend(old(registry)@, type_id, 0, ComponentView::any());
        }
        let handle_0 = T1::get_definition(registry);
        let ghost with_0 = registry@;
        let handle_1 = T2::get_definition(registry);
        let ghost with_1 = registry@;
        let handle_2 = T3::get_definition(registry);
        let ghost with_2 = registry@;
        let handle_3 = T4::get_definition(registry);
        let ghost with_3 = registry@;
        let handle_4 = T5::get_definition(registry);
        let ghost with_4 = registry@;
        let hash = Self::hash(registry);
        let ghost hashed = registry@;
        let mut subs: Vec<ComponentReference> = Vec::new();
        subs.push(ComponentReference { id: handle_0, renamed: None });
        subs.push(ComponentReference { id: handle_1, renamed: None });
        subs.push(ComponentReference { id: handle_2, renamed: None });
        subs.push(ComponentReference { id: handle_3, renamed: None });
        subs.push(ComponentReference { id: handle_4, renamed: None });
        assert(subs.deep_view() =~= Seq::new(
            5,
            |i: int| plain_reference(Seq::<HasIndexed>::empty().push(handle_0).push(handle_1).push(handle_2).push(handle_3).push(handle_4)[i]),
        ));
        let component = Component {
            name: String::from_str("Tuple"),
            generics: String::new(),
            typ: Type::Struct(InnerType::Tuple(subs)),
            hash,
        };
        let handle = registry.finalize(type_id, component);
        proof {
            law_operations_extend(hashed, type_id, 0, component@);
            lemma_extends_transitive(old(registry)@, started, with_0);
            lemma_extends_transitive(old(registry)@, with_0, with_1);
            lemma_extends_transitive(old(registry)@, with_1, with_2);
            lemma_extends_transitive(old(registry)@, with_2, with_3);
            lemma_extends_transitive(old(registry)@, with_3, with_4);
            lemma_extends_transitive(old(registry)@, with_4, hashed);
            lemma_extends_transitive(old(registry)@, hashed, registry@);
        }
        handle
    }

    fn name() -> (name: String) {
        let mut names: Vec<String> = Vec::new();
        names.push(T1::name());
        names.push(T2::name());
        names.push(T3::name());
        names.push(T4::name());
        names.push(T5::name());
        assert(texts(names@) =~= seq![T1::spec_name(), T2::spec_name(), T3::spec_name(), T4::spec_name(), T5::spec_name()]);
        let mut name = String::from_str("(");
        name.append(join(&names, ", ").as_str());
        name.append(")");
        name
    }

    fn ts_name() -> (name: String) {
        let mut names: Vec<String> = Vec::new();
        names.push(T1::ts_name());
        names.push(T2::ts_name());
        names.push(T3::ts_name());
        names.push(T4::ts_name());
        names.push(T5::ts_name());
        assert(texts(names@) =~= seq![T1::spec_ts_name(), T2::spec_ts_name(), T3::spec_ts_name(), T4::spec_ts_name(), T5::spec_ts_name()]);
        let mut name = String::from_str("[");
        name.append(join(&names, ", ").as_str());
        name.append("]");
        name
    }

    fn hash(registry: &mut GlobalTypeRegistry) -> (hash: u64) {
        let type_id = Self::type_key();
        match registry.start_hash(type_id) {
            Some(known) => {
                return known;
            },
            None => {},
        }
        let ghost started = registry@;
        proof {
            law_operations_extend(old(registry)@, type_id, 0, ComponentView::any());
            lemma_hash_steps_only_hash(old(registry)@, type_id, 0);
        }
        let mut children: Vec<(String, u64)> = Vec::new();
        let hash_0 = T1::hash(registry);
        let ghost hashed_0 = registry@;
        children.push((T1::name(), hash_0));
        let hash_1 = T2::hash(registry);
        let ghost hashed_1 = registry@;
        children.push((T2::name(), hash_1));
        let hash_2 = T3::hash(registry);
        let ghost hashed_2 = registry@;
        children.push((T3::name(), hash_2));
        let hash_3 = T4::hash(registry);
        let ghost hashed_3 = registry@;
        children.push((T4::name(), hash_3));
        let hash_4 = T5::hash(registry);
        let ghost hashed_4 = registry@;
        children.push((T5::name(), hash_4));
        let hash = hash_structure("tuple", Self::name().as_str(), &children);
        registry.finalize_hash(type_id, hash);
        proof {
            assert(children.deep_view() =~= Seq::<(Seq<char>, u64)>::empty().push((T1::spec_name(), hash_0)).push((T2::spec_name(), hash_1)).push((T3::spec_name(), hash_2)).push((T4::spec_name(), hash_3)).push((T5::spec_name(), hash_4)));
            law_operations_extend(hashed_4, type_id, hash, ComponentView::any());
            lemma_extends_transitive(old(registry)@, started, hashed_0);
            lemma_only_hashed_chain(old(registry)@, started, hashed_0);
            lemma_extends_transitive(old(registry)@, hashed_0, hashed_1);
            lemma_only_hashed_chain(old(registry)@, hashed_0, hashed_1);
            lemma_extends_transitive(started, hashed_0, hashed_1);
            lemma_only_hashed_chain(started, hashed_0, hashed_1);
            lemma_extends_transitive(old(registry)@, hashed_1, hashed_2);
            lemma_only_hashed_chain(old(registry)@, hashed_1, hashed_2);
            lemma_extends_transitive(started, hashed_1, hashed_2);
            lemma_only_hashed_chain(started, hashed_1, hashed_2);
            lemma_extends_transitive(old(registry)@, hashed_2, hashed_3);
            lemma_only_hashed_chain(old(registry)@, hashed_2, hashed_3);
            lemma_extends_transitive(started, hashed_2, hashed_3);
            lemma_only_hashed_chain(started, hashed_2, hashed_3);
            lemma_extends_transitive(old(registry)@, hashed_3, hashed_4);
            lemma_only_hashed_chain(old(registry)@, hashed_3, hashed_4);
            lemma_extends_transitive(started, hashed_3, hashed_4);
            lemma_only_hashed_chain(started, hashed_3, hashed_4);
            lemma_first_hash_is_recorded(old(registry)@, hashed_4, type_id, hash);
            lemma_extends_transitive(old(registry)@, hashed_4, registry@);
            assert(started.hashing.contains(type_id)) by {
                assert(started.hashing[started.hashing.len() - 1] == type_id);
            }
            assert(registry@.only_hashed(old(registry)@)) by {
                assert forall|k: u64|
                    old(registry)@.hashing.contains(k) && !old(registry)@.hashes.contains_key(
                        k,
                    ) implies !#[trigger] registry@.hashes.contains_key(k) by {
                    assert(!hashed_4.hashes.contains_key(k));
                }
            }
        }
        hash
    }
}

impl<T1: TypescriptType, T2: TypescriptType, T3: TypescriptType, T4: TypescriptType, T5: TypescriptType, T6: TypescriptType> TypescriptType for (T1, T2, T3, T4, T5, T6) {
    open spec fn key() -> u64 {
        composite_key("tuple"@, Seq::<u64>::empty().push(T1::key()).push(T2::key()).push(T3::key()).push(T4::key()).push(T5::key()).push(T6::key()))
    }

    open spec fn spec_name() -> Seq<char> {
        "("@ + join_spec(seq![T1::spec_name(), T2::spec_name(), T3::spec_name(), T4::spec_name(), T5::spec_name(), T6::spec_name()], ", "@) + ")"@
    }

    open spec fn spec_ts_name() -> Seq<char> {
        "["@ + join_spec(seq![T1::spec_ts_name(), T2::spec_ts_name(), T3::spec_ts_name(), T4::spec_ts_name(), T5::spec_ts_name(), T6::spec_ts_name()], ", "@) + "]"@
    }

    open spec fn spec_definition(r: RegistryView) -> (RegistryView, HasIndexed) {
        match r.existing(Self::key()) {
            Some(existing) => (r, existing),
            None => {
                let s0 = r.start(Self::key());
                let d0 = T1::spec_definition(s0);
                let d1 = T2::spec_definition(d0.0);
                let d2 = T3::spec_definition(d1.0);
                let d3 = T4::spec_definition(d2.0);
                let d4 = T5::spec_definition(d3.0);
                let d5 = T6::spec_definition(d4.0);
                let hashed = Self::spec_hash(d5.0);
                hashed.0.finalize(Self::key(), tuple_component(Seq::<HasIndexed>::empty().push(d0.1).push(d1.1).push(d2.1).push(d3.1).push(d4.1).push(d5.1), hashed.1))
            },
        }
    }

    open spec fn spec_hash(r: RegistryView) -> (RegistryView, u64) {
        match r.start_hash(Self::key()).1 {
            Some(known) => (r, known),
            None => {
                let s0 = r.start_hash(Self::key()).0;
                let h0 = T1::spec_hash(s0);
                let h1 = T2::spec_hash(h0.0);
                let h2 = T3::spec_hash(h1.0);
                let h3 = T4::spec_hash(h2.0);
                let h4 = T5::spec_hash(h3.0);
                let h5 = T6::spec_hash(h4.0);
                let hash = structural_hash(
                    "tuple"@,
                    Self::spec_name(),
                    Seq::<(Seq<char>, u64)>::empty().push((T1::spec_name(), h0.1)).push((T2::spec_name(), h1.1)).push((T3::spec_name(), h2.1)).push((T4::spec_name(), h3.1)).push((T5::spec_name(), h4.1)).push((T6::spec_name(), h5.1)),
                );
                (h5.0.finalize_hash(Self::key(), hash), hash)
            },
        }
    }

    fn type_key() -> (key: u64) {
        let mut parts: Vec<u64> = Vec::new();
        parts.push(T1::type_key());
        parts.push(T2::type_key());
        parts.push(T3::type_key());
        parts.push(T4::type_key());
        parts.push(T5::type_key());
        parts.push(T6::type_key());
        assert(parts@ =~= Seq::<u64>::empty().push(T1::key()).push(T2::key()).push(T3::key()).push(T4::key()).push(T5::key()).push(T6::key()));
        make_composite_key("tuple", &parts)
    }

    fn get_definition(registry: &mut GlobalTypeRegistry) -> (handle: HasIndexed) {
        let type_id = Self::type_key();
        match registry.return_existing(type_id) {
            Some(existing) => {
                return existing;
            },
            None => {},
        }
        registry.start(type_id);
        let ghost started = registry@;
        proof {
            law_operations_extend(old(registry)@, type_id, 0, ComponentView::any());
        }
        let handle_0 = T1::get_definition(registry);
        let ghost with_0 = registry@;
        let handle_1 = T2::get_definition(registry);
        let ghost with_1 = registry@;
        let handle_2 = T3::get_definition(registry);
        let ghost with_2 = registry@;
        let handle_3 = T4::get_definition(registry);
        let ghost with_3 = registry@;
        let handle_4 = T5::get_definition(registry);
        let ghost with_4 = registry@;
        let handle_5 = T6::get_definition(registry);
        let ghost with_5 = registry@;
        let hash = Self::hash(registry);
        let ghost hashed = registry@;
        let mut subs: Vec<ComponentReference> = Vec::new();
        subs.push(ComponentReference { id: handle_0, renamed: None });
        subs.push(ComponentReference { id: handle_1, renamed: None });
        subs.push(ComponentReference { id: handle_2, renamed: None });
        subs.push(ComponentReference { id: handle_3, renamed: None });
        subs.push(ComponentReference { id: handle_4, renamed: None });
        subs.push(ComponentReference { id: handle_5, renamed: None });
        assert(subs.deep_view() =~= Seq::new(
            6,
            |i: int| plain_reference(Seq::<HasIndexed>::empty().push(handle_0).push(handle_1).push(handle_2).push(handle_3).push(handle_4).push(handle_5)[i]),
        ));
        let component = Component {
            name: String::from_str("Tuple"),
            generics: String::new(),
            typ: Type::Struct(InnerType::Tuple(subs)),
            hash,
        };
        let handle = registry.finalize(type_id, component);
        proof {
            law_operations_extend(hashed, type_id, 0, component@);
            lemma_extends_transitive(old(registry)@, started, with_0);
            lemma_extends_transitive(old(registry)@, with_0, with_1);
            lemma_extends_transitive(old(registry)@, with_1, with_2);
            lemma_extends_transitive(old(registry)@, with_2, with_3);
            lemma_extends_transitive(old(registry)@, with_3, with_4);
            lemma_extends_transitive(old(registry)@, with_4, with_5);
            lemma_extends_transitive(old(registry)@, with_5, hashed);
            lemma_extends_transitive(old(registry)@, hashed, registry@);
        }
        handle
    }

    fn name() -> (name: String) {
        let mut names: Vec<String> = Vec::new();
        names.push(T1::name());
        names.push(T2::name());
        names.push(T3::name());
        names.push(T4::name());
        names.push(T5::name());
        names.push(T6::name());
        assert(texts(names@) =~= seq![T1::spec_name(), T2::spec_name(), T3::spec_name(), T4::spec_name(), T5::spec_name(), T6::spec_name()]);
        let mut name = String::from_str("(");
        name.append(join(&names, ", ").as_str());
        name.append(")");
        name
    }

    fn ts_name() -> (name: String) {
        let mut names: Vec<String> = Vec::new();
        names.push(T1::ts_name());
        names.push(T2::ts_name());
        names.push(T3::ts_name());
        names.push(T4::ts_name());
        names.push(T5::ts_name());
        names.push(T6::ts_name());
        assert(texts(names@) =~= seq![T1::spec_ts_name(), T2::spec_ts_name(), T3::spec_ts_name(), T4::spec_ts_name(), T5::spec_ts_name(), T6::spec_ts_name()]);
        let mut name = String::from_str("[");
        name.append(join(&names, ", ").as_str());
        name.append("]");
        name
    }

    fn hash(registry: &mut GlobalTypeRegistry) -> (hash: u64) {
        let type_id = Self::type_key();
        match registry.start_hash(type_id) {
            Some(known) => {
                return known;
            },
            None => {},
        }
        let ghost started = registry@;
        proof {
            law_operations_extend(old(registry)@, type_id, 0, ComponentView::any());
            lemma_hash_steps_only_hash(old(registry)@, type_id, 0);
        }
        let mut children: Vec<(String, u64)> = Vec::new();
        let hash_0 = T1::hash(registry);
        let ghost hashed_0 = registry@;
        children.push((T1::name(), hash_0));
        let hash_1 = T2::hash(registry);
        let ghost hashed_1 = registry@;
        children.push((T2::name(), hash_1));
        let hash_2 = T3::hash(registry);
        let ghost hashed_2 = registry@;
        children.push((T3::name(), hash_2));
        let hash_3 = T4::hash(registry);
        let ghost hashed_3 = registry@;
        children.push((T4::name(), hash_3));
        let hash_4 = T5::hash(registry);
        let ghost hashed_4 = registry@;
        children.push((T5::name(), hash_4));
        let hash_5 = T6::hash(registry);
        let ghost hashed_5 = registry@;
        children.push((T6::name(), hash_5));
        let hash = hash_structure("tuple", Self::name().as_str(), &children);
        registry.finalize_hash(type_id, hash);
        proof {
            assert(children.deep_view() =~= Seq::<(Seq<char>, u64)>::empty().push((T1::spec_name(), hash_0)).push((T2::spec_name(), hash_1)).push((T3::spec_name(), hash_2)).push((T4::spec_name(), hash_3)).push((T5::spec_name(), hash_4)).push((T6::spec_name(), hash_5)));
            law_operations_extend(hashed_5, type_id, hash, ComponentView::any());
            lemma_extends_transitive(old(registry)@, started, hashed_0);
            lemma_only_hashed_chain(old(registry)@, started, hashed_0);
            lemma_extends_transitive(old(registry)@, hashed_0, hashed_1);
            lemma_only_hashed_chain(old(registry)@, hashed_0, hashed_1);
            lemma_extends_transitive(started, hashed_0, hashed_1);
            lemma_only_hashed_chain(started, hashed_0, hashed_1);
            lemma_extends_transitive(old(registry)@, hashed_1, hashed_2);
            lemma_only_hashed_chain(old(registry)@, hashed_1, hashed_2);
            lemma_extends_transitive(started, hashed_1, hashed_2);
            lemma_only_hashed_chain(started, hashed_1, hashed_2);
            lemma_extends_transitive(old(registry)@, hashed_2, hashed_3);
            lemma_only_hashed_chain(old(registry)@, hashed_2, hashed_3);
            lemma_extends_transitive(started, hashed_2, hashed_3);
            lemma_only_hashed_chain(started, hashed_2, hashed_3);
            lemma_extends_transitive(old(registry)@, hashed_3, hashed_4);
            lemma_only_hashed_chain(old(registry)@, hashed_3, hashed_4);
            lemma_extends_transitive(started, hashed_3, hashed_4);
            lemma_only_hashed_chain(started, hashed_3, hashed_4);
            lemma_extends_transitive(old(registry)@, hashed_4, hashed_5);
            lemma_only_hashed_chain(old(registry)@, hashed_4, hashed_5);
            lemma_extends_transitive(started, hashed_4, hashed_5);
            lemma_only_hashed_chain(started, hashed_4, hashed_5);
            lemma_first_hash_is_recorded(old(registry)@, hashed_5, type_id, hash);
            lemma_extends_transitive(old(registry)@, hashed_5, registry@);
            assert(started.hashing.contains(type_id)) by {
                assert(started.hashing[started.hashing.len() - 1] == type_id);
            }
            assert(registry@.only_hashed(old(registry)@)) by {
                assert forall|k: u64|
                    old(registry)@.hashing.contains(k) && !old(registry)@.hashes.contains_key(
                        k,
                    ) implies !#[trigger] registry@.hashes.contains_key(k) by {
                    assert(!hashed_5.hashes.contains_key(k));
                }
            }
        }
        hash
    }
}

impl<T1: TypescriptType, T2: TypescriptType, T3: TypescriptType, T4: TypescriptType, T5: TypescriptType, T6: TypescriptType, T7: TypescriptType> TypescriptType for (T1, T2, T3, T4, T5, T6, T7) {
    open spec fn key() -> u64 {
        composite_key("tuple"@, Seq::<u64>::empty().push(T1::key()).push(T2::key()).push(T3::key()).push(T4::key()).push(T5::key()).push(T6::key()).push(T7::key()))
    }

    open spec fn spec_name() -> Seq<char> {
        "("@ + join_spec(seq![T1::spec_name(), T2::spec_name(), T3::spec_name(), T4::spec_name(), T5::spec_name(), T6::spec_name(), T7::spec_name()], ", "@) + ")"@
    }

    open spec fn spec_ts_name() -> Seq<char> {
        "["@ + join_spec(seq![T1::spec_ts_name(), T2::spec_ts_name(), T3::spec_ts_name(), T4::spec_ts_name(), T5::spec_ts_name(), T6::spec_ts_name(), T7::spec_ts_name()], ", "@) + "]"@
    }

    open spec fn spec_definition(r: RegistryView) -> (RegistryView, HasIndexed) {
        match r.existing(Self::key()) {
            Some(existing) => (r, existing),
            None => {
                let s0 = r.start(Self::key());
                let d0 = T1::spec_definition(s0);
                let d1 = T2::spec_definition(d0.0);
                let d2 = T3::spec_definition(d1.0);
                let d3 = T4::spec_definition(d2.0);
                let d4 = T5::spec_definition(d3.0);
                let d5 = T6::spec_definition(d4.0);
                let d6 = T7::spec_definition(d5.0);
                let hashed = Self::spec_hash(d6.0);
                hashed.0.finalize(Self::key(), tuple_component(Seq::<HasIndexed>::empty().push(d0.1).push(d1.1).push(d2.1).push(d3.1).push(d4.1).push(d5.1).push(d6.1), hashed.1))
            },
        }
    }

    open spec fn spec_hash(r: RegistryView) -> (RegistryView, u64) {
        match r.start_hash(Self::key()).1 {
            Some(known) => (r, known),
            None => {
                let s0 = r.start_hash(Self::key()).0;
                let h0 = T1::spec_hash(s0);
                let h1 = T2::spec_hash(h0.0);
                let h2 = T3::spec_hash(h1.0);
                let h3 = T4::spec_hash(h2.0);
                let h4 = T5::spec_hash(h3.0);
                let h5 = T6::spec_hash(h4.0);
                let h6 = T7::spec_hash(h5.0);
                let hash = structural_hash(
                    "tuple"@,
                    Self::spec_name(),
                    Seq::<(Seq<char>, u64)>::empty().push((T1::spec_name(), h0.1)).push((T2::spec_name(), h1.1)).push((T3::spec_name(), h2.1)).push((T4::spec_name(), h3.1)).push((T5::spec_name(), h4.1)).push((T6::spec_name(), h5.1)).push((T7::spec_name(), h6.1)),
                );
                (h6.0.finalize_hash(Self::key(), hash), hash)
            },
        }
    }

    fn type_key() -> (key: u64) {
        let mut parts: Vec<u64> = Vec::new();
        parts.push(T1::type_key());
        parts.push(T2::type_key());
        parts.push(T3::type_key());
        parts.push(T4::type_key());
        parts.push(T5::type_key());
        parts.push(T6::type_key());
        parts.push(T7::type_key());
        assert(parts@ =~= Seq::<u64>::empty().push(T1::key()).push(T2::key()).push(T3::key()).push(T4::key()).push(T5::key()).push(T6::key()).push(T7::key()));
        make_composite_key("tuple", &parts)
    }

    fn get_definition(registry: &mut GlobalTypeRegistry) -> (handle: HasIndexed) {
        let type_id = Self::type_key();
        match registry.return_existing(type_id) {
            Some(existing) => {
                return existing;
            },
            None => {},
        }
        registry.start(type_id);
        let ghost started = registry@;
        proof {
            law_operations_extend(old(registry)@, type_id, 0, ComponentView::any());
        }
        let handle_0 = T1::get_definition(registry);
        let ghost with_0 = registry@;
        let handle_1 = T2::get_definition(registry);
        let ghost with_1 = registry@;
        let handle_2 = T3::get_definition(registry);
        let ghost with_2 = registry@;
        let handle_3 = T4::get_definition(registry);
        let ghost with_3 = registry@;
        let handle_4 = T5::get_definition(registry);
        let ghost with_4 = registry@;
        let handle_5 = T6::get_definition(registry);
        let ghost with_5 = registry@;
        let handle_6 = T7::get_definition(registry);
        let ghost with_6 = registry@;
        let hash = Self::hash(registry);
        let ghost hashed = registry@;
        let mut subs: Vec<ComponentReference> = Vec::new();
        subs.push(ComponentReference { id: handle_0, renamed: None });
        subs.push(ComponentReference { id: handle_1, renamed: None });
        subs.push(ComponentReference { id: handle_2, renamed: None });
        subs.push(ComponentReference { id: handle_3, renamed: None });
        subs.push(ComponentReference { id: handle_4, renamed: None });
        subs.push(ComponentReference { id: handle_5, renamed: None });
        subs.push(ComponentReference { id: handle_6, renamed: None });
        assert(subs.deep_view() =~= Seq::new(
            7,
            |i: int| plain_reference(Seq::<HasIndexed>::empty().push(handle_0).push(handle_1).push(handle_2).push(handle_3).push(handle_4).push(handle_5).push(handle_6)[i]),
        ));
        let component = Component {
            name: String::from_str("Tuple"),
            generics: String::new(),
            typ: Type::Struct(InnerType::Tuple(subs)),
            hash,
        };
        let handle = registry.finalize(type_id, component);
        proof {
            law_operations_extend(hashed, type_id, 0, component@);
            lemma_extends_transitive(old(registry)@, started, with_0);
            lemma_extends_transitive(old(registry)@, with_0, with_1);
            lemma_extends_transitive(old(registry)@, with_1, with_2);
            lemma_extends_transitive(old(registry)@, with_2, with_3);
            lemma_extends_transitive(old(registry)@, with_3, with_4);
            lemma_extends_transitive(old(registry)@, with_4, with_5);
            lemma_extends_transitive(old(registry)@, with_5, with_6);
            lemma_extends_transitive(old(registry)@, with_6, hashed);
            lemma_extends_transitive(old(registry)@, hashed, registry@);
        }
        handle
    }

    fn name() -> (name: String) {
        let mut names: Vec<String> = Vec::new();
        names.push(T1::name());
        names.push(T2::name());
        names.push(T3::name());
        names.push(T4::name());
        names.push(T5::name());
        names.push(T6::name());
        names.push(T7::name());
        assert(texts(names@) =~= seq![T1::spec_name(), T2::spec_name(), T3::spec_name(), T4::spec_name(), T5::spec_name(), T6::spec_name(), T7::spec_name()]);
        let mut name = String::from_str("(");
        name.append(join(&names, ", ").as_str());
        name.append(")");
        name
    }

    fn ts_name() -> (name: String) {
        let mut names: Vec<String> = Vec::new();
        names.push(T1::ts_name());
        names.push(T2::ts_name());
        names.push(T3::ts_name());
        names.push(T4::ts_name());
        names.push(T5::ts_name());
        names.push(T6::ts_name());
        names.push(T7::ts_name());
        assert(texts(names@) =~= seq![T1::spec_ts_name(), T2::spec_ts_name(), T3::spec_ts_name(), T4::spec_ts_name(), T5::spec_ts_name(), T6::spec_ts_name(), T7::spec_ts_name()]);
        let mut name = String::from_str("[");
        name.append(join(&names, ", ").as_str());
        name.append("]");
        name
    }

    fn hash(registry: &mut GlobalTypeRegistry) -> (hash: u64) {
        let type_id = Self::type_key();
        match registry.start_hash(type_id) {
            Some(known) => {
                return known;
            },
            None => {},
        }
        let ghost started = registry@;
        proof {
            law_operations_extend(old(registry)@, type_id, 0, ComponentView::any());
            lemma_hash_steps_only_hash(old(registry)@, type_id, 0);
        }
        let mut children: Vec<(String, u64)> = Vec::new();
        let hash_0 = T1::hash(registry);
        let ghost hashed_0 = registry@;
        children.push((T1::name(), hash_0));
        let hash_1 = T2::hash(registry);
        let ghost hashed_1 = registry@;
        children.push((T2::name(), hash_1));
        let hash_2 = T3::hash(registry);
        let ghost hashed_2 = registry@;
        children.push((T3::name(), hash_2));
        let hash_3 = T4::hash(registry);
        let ghost hashed_3 = registry@;
        children.push((T4::name(), hash_3));
        let hash_4 = T5::hash(registry);
        let ghost hashed_4 = registry@;
        children.push((T5::name(), hash_4));
        let hash_5 = T6::hash(registry);
        let ghost hashed_5 = registry@;
        children.push((T6::name(), hash_5));
        let hash_6 = T7::hash(registry);
        let ghost hashed_6 = registry@;
        children.push((T7::name(), hash_6));
        let hash = hash_structure("tuple", Self::name().as_str(), &children);
        registry.finalize_hash(type_id, hash);
        proof {
            assert(children.deep_view() =~= Seq::<(Seq<char>, u64)>::empty().push((T1::spec_name(), hash_0)).push((T2::spec_name(), hash_1)).push((T3::spec_name(), hash_2)).push((T4::spec_name(), hash_3)).push((T5::spec_name(), hash_4)).push((T6::spec_name(), hash_5)).push((T7::spec_name(), hash_6)));
            law_operations_extend(hashed_6, type_id, hash, ComponentView::any());
            lemma_extends_transitive(old(registry)@, started, hashed_0);
            lemma_only_hashed_chain(old(registry)@, started, hashed_0);
            lemma_extends_transitive(old(registry)@, hashed_0, hashed_1);
            lemma_only_hashed_chain(old(registry)@, hashed_0, hashed_1);
            lemma_extends_transitive(started, hashed_0, hashed_1);
            lemma_only_hashed_chain(started, hashed_0, hashed_1);
            lemma_extends_transitive(old(registry)@, hashed_1, hashed_2);
            lemma_only_hashed_chain(old(registry)@, hashed_1, hashed_2);
            lemma_extends_transitive(started, hashed_1, hashed_2);
            lemma_only_hashed_chain(started, hashed_1, hashed_2);
            lemma_extends_transitive(old(registry)@, hashed_2, hashed_3);
            lemma_only_hashed_chain(old(registry)@, hashed_2, hashed_3);
            lemma_extends_transitive(started, hashed_2, hashed_3);
            lemma_only_hashed_chain(started, hashed_2, hashed_3);
            lemma_extends_transitive(old(registry)@, hashed_3, hashed_4);
            lemma_only_hashed_chain(old(registry)@, hashed_3, hashed_4);
            lemma_extends_transitive(started, hashed_3, hashed_4);
            lemma_only_hashed_chain(started, hashed_3, hashed_4);
            lemma_extends_transitive(old(registry)@, hashed_4, hashed_5);
            lemma_only_hashed_chain(old(registry)@, hashed_4, hashed_5);
            lemma_extends_transitive(started, hashed_4, hashed_5);
            lemma_only_hashed_chain(started, hashed_4, hashed_5);
            lemma_extends_transitive(old(registry)@, hashed_5, hashed_6);
            lemma_only_hashed_chain(old(registry)@, hashed_5, hashed_6);
            lemma_extends_transitive(started, hashed_5, hashed_6);
            lemma_only_hashed_chain(started, hashed_5, hashed_6);
            lemma_first_hash_is_recorded(old(registry)@, hashed_6, type_id, hash);
            lemma_extends_transitive(old(registry)@, hashed_6, registry@);
            assert(started.hashing.contains(type_id)) by {
                assert(started.hashing[started.hashing.len() - 1] == type_id);
            }
            assert(registry@.only_hashed(old(registry)@)) by {
                assert forall|k: u64|
                    old(registry)@.hashing.contains(k) && !old(registry)@.hashes.contains_key(
                        k,
                    ) implies !#[trigger] registry@.hashes.contains_key(k) by {
                    assert(!hashed_6.hashes.contains_key(k));
                }
            }
        }
        hash
    }
}

} // verus!
