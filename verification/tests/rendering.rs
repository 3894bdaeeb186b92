use tsclient::errors::BuildError;
use tsclient::types::builder::{GlobalTypeRegistry, HasIndexed, TypeBuilder};
use tsclient::types::model::{
    Component, ComponentReference, EnumRepresentation, InnerType, Type,
};
use tsclient::FILE_HEADER;

fn plain(name: &str, ts: &str, hash: u64) -> Component {
    Component {
        name: name.to_string(),
        generics: String::new(),
        typ: Type::SimpleType(ts.to_string()),
        hash,
    }
}

fn shaped(name: &str, typ: Type, hash: u64) -> Component {
    Component { name: name.to_string(), generics: String::new(), typ, hash }
}

fn to(index: usize) -> ComponentReference {
    ComponentReference { id: HasIndexed::Build(index), renamed: None }
}

fn alias(index: usize, name: &str) -> ComponentReference {
    ComponentReference { id: HasIndexed::Build(index), renamed: Some(name.to_string()) }
}

fn object(fields: Vec<(&str, ComponentReference)>) -> InnerType {
    InnerType::Object(fields.into_iter().map(|(name, r)| (name.to_string(), r)).collect())
}

/// A registry with `number` at 0 and `string` at 1.
fn basics() -> GlobalTypeRegistry {
    let mut registry = GlobalTypeRegistry::new();
    registry.finalize(1, plain("i32", "number", 1));
    registry.finalize(2, plain("String", "string", 2));
    registry
}

fn two_variants(repr: EnumRepresentation) -> Type {
    Type::Enum(
        repr,
        vec![
            ("A".to_string(), InnerType::SimpleVariant("A".to_string())),
            ("B".to_string(), InnerType::NewType(to(0))),
        ],
    )
}

fn content_of_only_enum(repr: EnumRepresentation) -> Result<String, BuildError> {
    let mut registry = basics();
    registry.finalize(10, shaped("E", two_variants(repr), 10));
    let builder = TypeBuilder::build(&registry)?;
    assert_eq!(builder.file_map.len(), 1);
    assert_eq!(builder.file_map[0].name, "E");
    Ok(builder.file_map[0].content.clone())
}

#[test]
fn a_struct_is_one_declaration_of_its_fields_in_order() {
    let mut registry = basics();
    registry.finalize(10, shaped("Item", Type::Struct(object(vec![("id", to(0)), ("name", to(1))])), 10));
    let builder = TypeBuilder::build(&registry).unwrap();
    assert_eq!(builder.file_map.len(), 1);
    let file = &builder.file_map[0];
    assert_eq!(file.name, "Item");
    assert_eq!(file.hash, 10);
    assert_eq!(file.content, "\n\nexport type Item = {\n\tid: number;\n\tname: string\n}");
    assert!(file.imports.is_empty());
    assert!(file.type_defs.is_empty());
    assert_eq!(file.exports, vec!["Item"]);
    assert_eq!(
        file.render(),
        format!("{}{}", FILE_HEADER, "\n\nexport type Item = {\n\tid: number;\n\tname: string\n}")
    );
    assert_eq!(
        builder.export(),
        vec![(
            "Item.ts".to_string(),
            format!("{}{}", FILE_HEADER, "\n\nexport type Item = {\n\tid: number;\n\tname: string\n}")
        )]
    );
}

#[test]
fn every_file_begins_with_the_header() {
    assert!(FILE_HEADER.starts_with("/** \n * This File was generated automagically"));
    assert!(FILE_HEADER.ends_with("WARNING: Changes you perform here will probably not persist!\n*/\n"));
}

#[test]
fn simple_types_arrays_and_any_get_no_file() {
    let mut registry = basics();
    registry.finalize(3, Component::any());
    registry.finalize(4, shaped("VecString", Type::Array(to(1)), 4));
    let builder = TypeBuilder::build(&registry).unwrap();
    assert!(builder.file_map.is_empty());
    assert!(builder.export().is_empty());
}

#[test]
fn generics_are_written_behind_the_name() {
    let mut registry = basics();
    registry.finalize(
        10,
        Component {
            name: "Page".to_string(),
            generics: "<T>".to_string(),
            typ: Type::Struct(object(vec![("total", to(0))])),
            hash: 10,
        },
    );
    let builder = TypeBuilder::build(&registry).unwrap();
    assert_eq!(builder.file_map[0].content, "\n\nexport type Page<T> = {\n\ttotal: number\n}");
    let infos = registry.components()[2].build(&builder, &registry).unwrap().unwrap();
    assert_eq!(infos.name, "Page<T>");
    assert_eq!(infos.imports, vec!["Page"]);
}

#[test]
fn an_empty_object_and_a_unit_struct() {
    let mut registry = basics();
    registry.finalize(10, shaped("Empty", Type::Struct(object(vec![])), 10));
    registry.finalize(11, shaped("Unit", Type::Struct(InnerType::Null), 11));
    let builder = TypeBuilder::build(&registry).unwrap();
    assert_eq!(builder.file_map[0].content, "\n\nexport type Empty = {\n}");
    assert_eq!(builder.file_map[1].content, "\n\nexport type Unit = null");
}

#[test]
fn a_tuple_is_its_items_between_square_brackets() {
    let mut registry = basics();
    registry.finalize(10, shaped("Pair", Type::Struct(InnerType::Tuple(vec![to(0), to(1)])), 10));
    registry.finalize(11, shaped("Wrapper", Type::Struct(InnerType::NewType(to(1))), 11));
    let builder = TypeBuilder::build(&registry).unwrap();
    assert_eq!(builder.file_map[0].content, "\n\nexport type Pair = [ number, string]");
    assert_eq!(builder.file_map[1].content, "\n\nexport type Wrapper = string");
}

#[test]
fn enum_with_default_representation() {
    assert_eq!(
        content_of_only_enum(EnumRepresentation::Default).unwrap(),
        "\n\nexport type A = \"A\"\n\n\nexport type B = {\n\tB: number\n}\n\n\nexport type E = A | B"
    );
}

#[test]
fn enum_with_untagged_representation() {
    assert_eq!(
        content_of_only_enum(EnumRepresentation::Untagged).unwrap(),
        "\n\nexport type A = \"A\"\n\n\nexport type B = number\n\n\nexport type E = A | B"
    );
}

#[test]
fn enum_with_adjacent_tag() {
    assert_eq!(
        content_of_only_enum(EnumRepresentation::Adjacently("type".to_string(), "value".to_string()))
            .unwrap(),
        "\n\nexport type A = {\n\ttype: \"A\"\n}\n\n\nexport type B = {\n\ttype: \"B\";\n\tvalue: number\n}\n\n\nexport type E = A | B"
    );
}

#[test]
fn enum_with_internal_tag_refuses_a_payload_that_is_no_object() {
    assert_eq!(
        content_of_only_enum(EnumRepresentation::Internally("type".to_string())),
        Err(BuildError::InternalTagOnNonObject)
    );
    let registry = basics();
    let builder = TypeBuilder::new();
    let repr = EnumRepresentation::Internally("type".to_string());
    let tuple = InnerType::Tuple(vec![to(0)]);
    assert_eq!(
        tuple.build(&builder, &registry, Some((&repr, "T"))).err(),
        Some(BuildError::InternalTagOnNonObject)
    );
    assert_eq!(
        InnerType::Null.build(&builder, &registry, Some((&repr, "N"))).err(),
        Some(BuildError::InternalTagOnNonObject)
    );
    assert_eq!(InnerType::Null.build(&builder, &registry, None).unwrap().text, "null");
}

#[test]
fn enum_with_internal_tag_splices_the_tag_into_the_object() {
    let mut registry = basics();
    registry.finalize(
        10,
        shaped(
            "E",
            Type::Enum(
                EnumRepresentation::Internally("type".to_string()),
                vec![
                    ("A".to_string(), InnerType::SimpleVariant("A".to_string())),
                    ("C".to_string(), object(vec![("x", to(0)), ("y", to(1))])),
                    ("D".to_string(), object(vec![])),
                ],
            ),
            10,
        ),
    );
    let builder = TypeBuilder::build(&registry).unwrap();
    assert_eq!(
        builder.file_map[0].content,
        "\n\nexport type A = \"A\"\n\n\nexport type C = {\n\ttype: C;\n\tx: number;\n\ty: string\n}\n\n\nexport type D = {\n\ttype: D\n}\n\n\nexport type E = A | C | D"
    );
    assert_eq!(builder.file_map[0].exports, vec!["E", "E", "E", "E"]);
}

#[test]
fn objects_and_tuples_are_wrapped_by_the_representation() {
    let registry = basics();
    let builder = TypeBuilder::new();
    let fields = object(vec![("x", to(0))]);
    let items = InnerType::Tuple(vec![to(0), to(0)]);
    let default = EnumRepresentation::Default;
    let adjacent = EnumRepresentation::Adjacently("t".to_string(), "c".to_string());
    let untagged = EnumRepresentation::Untagged;
    assert_eq!(
        fields.build(&builder, &registry, Some((&default, "V"))).unwrap().text,
        "{\n\tV: {\n\tx: number\n}\n}"
    );
    assert_eq!(
        fields.build(&builder, &registry, Some((&adjacent, "V"))).unwrap().text,
        "{\n\tt: \"V\";\n\tc: {\n\tx: number\n}\n}"
    );
    assert_eq!(
        fields.build(&builder, &registry, Some((&untagged, "V"))).unwrap().text,
        "{\n\tx: number\n}"
    );
    assert_eq!(fields.build(&builder, &registry, None).unwrap().text, "{\n\tx: number\n}");
    assert_eq!(
        items.build(&builder, &registry, Some((&default, "V"))).unwrap().text,
        "{\n\tV: [ number, number]\n}"
    );
    assert_eq!(
        items.build(&builder, &registry, Some((&adjacent, "V"))).unwrap().text,
        "{\n\tt: \"V\";\n\tc: [ number, number]\n}"
    );
    assert_eq!(fields.get_decl_type(), "type");
}

#[test]
fn a_reference_to_a_declared_type_is_imported_once() {
    let mut registry = basics();
    registry.finalize(10, shaped("Child", Type::Struct(object(vec![("id", to(0))])), 10));
    registry.finalize(
        11,
        shaped("Parent", Type::Struct(object(vec![("first", to(2)), ("second", to(2))])), 11),
    );
    let builder = TypeBuilder::build(&registry).unwrap();
    assert_eq!(builder.file_map.len(), 2);
    let parent = &builder.file_map[1];
    assert_eq!(parent.name, "Parent");
    assert_eq!(parent.imports, vec![("Child".to_string(), None)]);
    assert_eq!(parent.content, "\n\nexport type Parent = {\n\tfirst: Child;\n\tsecond: Child\n}");
    assert_eq!(
        parent.render(),
        format!(
            "{}import {{type Child}} from \"./Child\";\n\n\nexport type Parent = {{\n\tfirst: Child;\n\tsecond: Child\n}}",
            FILE_HEADER
        )
    );
}

#[test]
fn a_renamed_import_is_written_with_its_alias() {
    let mut file = tsclient::types::builder::ComponentFileBuilder::new("F".to_string(), 1);
    file.imports.push(("Child".to_string(), Some("Kid".to_string())));
    file.type_defs.push("type X = number;".to_string());
    file.type_defs.push("type Y = string;".to_string());
    file.content.push_str("\n\nexport type F = Kid");
    assert_eq!(
        file.render(),
        format!(
            "{}import {{type Child as Kid}} from \"./Child\";\n\ntype X = number;\ntype Y = string;\n\nexport type F = Kid",
            FILE_HEADER
        )
    );
}

#[test]
fn a_renamed_simple_type_declares_a_local_alias() {
    let mut registry = basics();
    registry.finalize(3, shaped("VecString", Type::Array(to(1)), 3));
    registry.finalize(
        10,
        shaped(
            "Place",
            Type::Struct(object(vec![
                ("id", alias(0, "LocationId")),
                ("other", alias(0, "LocationId")),
                ("tags", alias(2, "Tags")),
                ("plain", to(0)),
            ])),
            10,
        ),
    );
    let builder = TypeBuilder::build(&registry).unwrap();
    let file = &builder.file_map[0];
    assert_eq!(
        file.content,
        "\n\nexport type Place = {\n\tid: LocationId;\n\tother: LocationId;\n\ttags: Tags;\n\tplain: number\n}"
    );
    assert_eq!(
        file.type_defs,
        vec!["type LocationId = number;", "type Tags = Array<string>;"]
    );
    assert!(file.imports.is_empty());
    assert_eq!(
        file.render(),
        format!(
            "{}\ntype LocationId = number;\ntype Tags = Array<string>;{}",
            FILE_HEADER, file.content
        )
    );
}

#[test]
fn a_renamed_declared_type_is_imported_and_declares_no_alias() {
    let mut registry = basics();
    registry.finalize(10, shaped("Child", Type::Struct(object(vec![("id", to(0))])), 10));
    registry.finalize(11, shaped("Parent", Type::Struct(object(vec![("kid", alias(2, "Kid"))])), 11));
    let builder = TypeBuilder::build(&registry).unwrap();
    let parent = &builder.file_map[1];
    assert_eq!(parent.content, "\n\nexport type Parent = {\n\tkid: Kid\n}");
    assert!(parent.type_defs.is_empty());
    assert_eq!(parent.imports, vec![("Child".to_string(), None)]);
}

#[test]
fn aliases_and_imports_of_the_variants_are_collected_once_per_file() {
    let mut registry = basics();
    registry.finalize(10, shaped("Child", Type::Struct(object(vec![("id", to(0))])), 10));
    registry.finalize(
        11,
        shaped(
            "E",
            Type::Enum(
                EnumRepresentation::Untagged,
                vec![
                    ("A".to_string(), object(vec![("c", to(2)), ("n", alias(0, "Num"))])),
                    ("B".to_string(), InnerType::Tuple(vec![to(2), alias(0, "Num"), alias(1, "Text")])),
                ],
            ),
            11,
        ),
    );
    let builder = TypeBuilder::build(&registry).unwrap();
    let file = &builder.file_map[1];
    assert_eq!(file.imports, vec![("Child".to_string(), None)]);
    assert_eq!(file.type_defs, vec!["type Num = number;", "type Text = string;"]);
    assert_eq!(
        file.content,
        "\n\nexport type A = {\n\tc: Child;\n\tn: Num\n}\n\n\nexport type B = [ Child, Num, Text]\n\n\nexport type E = A | B"
    );
}

#[test]
fn an_array_is_named_after_its_items() {
    let mut registry = basics();
    registry.finalize(3, shaped("VecString", Type::Array(to(1)), 3));
    registry.finalize(4, shaped("VecVecString", Type::Array(to(2)), 4));
    registry.finalize(10, shaped("Child", Type::Struct(object(vec![("id", to(0))])), 10));
    registry.finalize(5, shaped("VecChild", Type::Array(to(4)), 5));
    registry.finalize(
        11,
        shaped("Parent", Type::Struct(object(vec![("tags", to(3)), ("kids", to(5))])), 11),
    );
    let components = registry.components();
    assert_eq!(components[2].get_ts_name(&registry).unwrap(), "Array<string>");
    assert_eq!(components[3].get_ts_name(&registry).unwrap(), "Array<Array<string>>");
    assert_eq!(components[5].get_ts_name(&registry).unwrap(), "Array<Child>");
    assert_eq!(components[0].get_ts_name(&registry).unwrap(), "number");
    assert_eq!(components[4].get_ts_name(&registry).unwrap(), "Child");
    assert_eq!(Component::any().get_ts_name(&registry).unwrap(), "any");
    assert_eq!(shaped("N", Type::Nothing, 0).get_ts_name(&registry).unwrap(), "null");
    let builder = TypeBuilder::build(&registry).unwrap();
    let parent = &builder.file_map[1];
    assert_eq!(
        parent.content,
        "\n\nexport type Parent = {\n\ttags: Array<Array<string>>;\n\tkids: Array<Child>\n}"
    );
    assert_eq!(parent.imports, vec![("Child".to_string(), None)]);
}

#[test]
fn a_generic_type_goes_by_its_base_and_imports_its_arguments() {
    let mut registry = basics();
    registry.finalize(10, shaped("Page", Type::Struct(object(vec![("total", to(0))])), 10));
    registry.finalize(11, shaped("Item", Type::Struct(object(vec![("id", to(0))])), 11));
    registry.finalize(12, shaped("PageOfItem", Type::Generic(to(2), vec![to(3), to(1)]), 12));
    registry.finalize(13, shaped("Holder", Type::Struct(object(vec![("page", to(4))])), 13));
    let builder = TypeBuilder::build(&registry).unwrap();
    assert_eq!(builder.file_map.len(), 3);
    assert_eq!(registry.components()[4].get_ts_name(&registry).unwrap(), "Page");
    let infos = registry.components()[4].build(&builder, &registry).unwrap().unwrap();
    assert_eq!(infos.name, "Page");
    assert_eq!(infos.imports, vec!["Page", "Item"]);
    let holder = &builder.file_map[2];
    assert_eq!(holder.name, "Holder");
    assert_eq!(holder.content, "\n\nexport type Holder = {\n\tpage: Page\n}");
    assert_eq!(holder.imports, vec![("Page".to_string(), None), ("Item".to_string(), None)]);
}

#[test]
fn a_generic_type_needs_a_declared_base() {
    let mut registry = basics();
    registry.finalize(12, shaped("Odd", Type::Generic(to(0), vec![]), 12));
    let builder = TypeBuilder::new();
    assert_eq!(
        registry.components()[2].build(&builder, &registry).err(),
        Some(BuildError::MissingBaseType)
    );
    assert_eq!(
        registry.components()[2].typ.build("Odd", "", 12, &builder, &registry).err(),
        Some(BuildError::MissingBaseType)
    );
}

#[test]
fn references_need_nothing_for_types_written_in_place() {
    let registry = basics();
    let builder = TypeBuilder::new();
    assert!(registry.components()[0].build(&builder, &registry).unwrap().is_none());
    assert!(Component::any().build(&builder, &registry).unwrap().is_none());
}

#[test]
fn the_empty_shape_has_no_declaration() {
    let mut registry = basics();
    registry.finalize(3, shaped("Nothing", Type::Nothing, 3));
    registry.finalize(10, shaped("Holder", Type::Struct(object(vec![("x", to(2))])), 10));
    let builder = TypeBuilder::new();
    assert_eq!(
        registry.components()[2].build(&builder, &registry).err(),
        Some(BuildError::NoDeclaration)
    );
    assert_eq!(TypeBuilder::build(&registry).err(), Some(BuildError::NoDeclaration));
    assert_eq!(
        registry.components()[2].declare(&builder, &registry).err(),
        Some(BuildError::NoDeclaration)
    );
    assert_eq!(
        registry.components()[0].declare(&builder, &registry).err(),
        Some(BuildError::NoDeclaration)
    );
}

#[test]
fn a_handle_without_a_component_stops_the_build() {
    let mut registry = basics();
    registry.finalize(10, shaped("Holder", Type::Struct(object(vec![("x", to(99))])), 10));
    assert_eq!(TypeBuilder::build(&registry).err(), Some(BuildError::UnresolvedHandle));
    let pending = ComponentReference { id: HasIndexed::Prebuild(77), renamed: None };
    let array = shaped("VecMissing", Type::Array(pending), 3);
    assert_eq!(array.get_ts_name(&registry), Err(BuildError::UnresolvedHandle));
    assert_eq!(
        array.typ.build_query_string("q", &registry),
        Ok(String::new())
    );
    let wrapper = shaped(
        "W",
        Type::Struct(InnerType::NewType(ComponentReference {
            id: HasIndexed::Build(50),
            renamed: None,
        })),
        4,
    );
    assert_eq!(wrapper.typ.build_query_string("q", &registry), Err(BuildError::UnresolvedHandle));
}

#[test]
fn arrays_that_lead_back_to_themselves_are_refused() {
    let mut registry = GlobalTypeRegistry::new();
    registry.finalize(1, shaped("Loop", Type::Array(to(0)), 1));
    registry.finalize(2, shaped("Holder", Type::Struct(object(vec![("x", to(0))])), 2));
    assert_eq!(
        registry.components()[0].get_ts_name(&registry),
        Err(BuildError::CyclicReference)
    );
    assert_eq!(TypeBuilder::build(&registry).err(), Some(BuildError::CyclicReference));
    let mut wrappers = GlobalTypeRegistry::new();
    wrappers.finalize(1, shaped("W", Type::Struct(InnerType::NewType(to(0))), 1));
    assert_eq!(
        wrappers.components()[0].typ.build_query_string("q", &wrappers),
        Err(BuildError::CyclicReference)
    );
}

#[test]
fn a_self_referential_struct_gets_one_file_that_speaks_of_itself() {
    let mut registry = basics();
    let key = 42;
    assert_eq!(registry.return_existing(key), None);
    registry.start(key);
    let own = registry.return_existing(key).unwrap();
    assert_eq!(own, HasIndexed::Prebuild(key));
    let node = shaped(
        "Node",
        Type::Struct(object(vec![
            ("value", to(0)),
            ("next", ComponentReference { id: own, renamed: None }),
        ])),
        42,
    );
    let handle = registry.finalize(key, node);
    assert_eq!(handle, HasIndexed::Build(2));
    let builder = TypeBuilder::build(&registry).unwrap();
    assert_eq!(builder.file_map.len(), 1);
    let file = &builder.file_map[0];
    assert_eq!(file.name, "Node");
    assert_eq!(file.content, "\n\nexport type Node = {\n\tvalue: number;\n\tnext: Node\n}");
    assert_eq!(file.imports, vec![("Node".to_string(), None)]);
}

#[test]
fn a_cycle_through_an_array_ends_at_the_struct() {
    let mut registry = basics();
    let key = 42;
    registry.start(key);
    let own = registry.return_existing(key).unwrap();
    let list = registry.finalize(
        43,
        shaped("VecTree", Type::Array(ComponentReference { id: own, renamed: None }), 43),
    );
    let tree = shaped(
        "Tree",
        Type::Struct(object(vec![("children", ComponentReference { id: list, renamed: None })])),
        42,
    );
    assert_eq!(registry.finalize(key, tree), HasIndexed::Build(3));
    assert_eq!(registry.components()[2].get_ts_name(&registry).unwrap(), "Array<Tree>");
    let builder = TypeBuilder::build(&registry).unwrap();
    assert_eq!(builder.file_map.len(), 1);
    assert_eq!(
        builder.file_map[0].content,
        "\n\nexport type Tree = {\n\tchildren: Array<Tree>\n}"
    );
}

#[test]
fn two_types_of_one_name_get_two_files_and_the_second_its_new_name_everywhere() {
    let mut registry = basics();
    registry.finalize(10, shaped("Foo", Type::Struct(object(vec![("a", to(0))])), 100));
    registry.finalize(11, shaped("Foo", Type::Struct(object(vec![("b", to(1))])), 200));
    registry.finalize(12, shaped("VecFoo", Type::Array(to(3)), 300));
    registry.finalize(
        13,
        shaped(
            "User",
            Type::Struct(object(vec![("first", to(2)), ("second", to(3)), ("more", to(4))])),
            400,
        ),
    );
    let builder = TypeBuilder::build(&registry).unwrap();
    let names: Vec<&str> = builder.file_map.iter().map(|f| f.name.as_str()).collect();
    assert_eq!(names, vec!["Foo", "Foo1", "User"]);
    assert_eq!(builder.file_map[0].content, "\n\nexport type Foo = {\n\ta: number\n}");
    assert_eq!(builder.file_map[1].content, "\n\nexport type Foo1 = {\n\tb: string\n}");
    assert_eq!(builder.file_map[1].exports, vec!["Foo1"]);
    assert_eq!(
        builder.file_map[2].content,
        "\n\nexport type User = {\n\tfirst: Foo;\n\tsecond: Foo1;\n\tmore: Array<Foo1>\n}"
    );
    assert_eq!(
        builder.file_map[2].imports,
        vec![("Foo".to_string(), None), ("Foo1".to_string(), None)]
    );
    let files: Vec<String> = builder.export().into_iter().map(|f| f.0).collect();
    assert_eq!(files, vec!["Foo.ts", "Foo1.ts", "User.ts"]);
    assert_eq!(builder.emitted_name("Foo", 100), "Foo");
    assert_eq!(builder.emitted_name("Foo", 200), "Foo1");
    assert_eq!(registry.components()[3].get_ts_name(&registry).unwrap(), "Foo");
    assert_eq!(
        registry.components()[3].emitted_ts_name(&registry, &builder, 5).unwrap(),
        "Foo1"
    );
    assert_eq!(
        builder.get_type_and_import("Foo", 200, 1),
        ("Foo1".to_string(), "import { type Foo1 } from \"../dto/Foo1\";".to_string())
    );
    assert_eq!(
        registry.components()[3].get_client_result(&registry, &builder).unwrap(),
        "ApiResult<Foo1, any>"
    );
}

#[test]
fn types_of_one_name_and_one_hash_share_a_file() {
    let mut registry = basics();
    registry.finalize(10, shaped("Foo", Type::Struct(object(vec![("a", to(0))])), 100));
    registry.finalize(11, shaped("Foo", Type::Struct(object(vec![("a", to(0))])), 100));
    let builder = TypeBuilder::build(&registry).unwrap();
    assert_eq!(builder.file_map.len(), 1);
    assert!(builder.rename_map.is_empty());
}

#[test]
fn query_statements_of_an_object() {
    let mut registry = basics();
    registry.finalize(3, shaped("VecString", Type::Array(to(1)), 3));
    let filter = shaped("Q", Type::Struct(object(vec![("a", to(1)), ("tags", to(2))])), 10);
    assert_eq!(
        filter.typ.build_query_string("q", &registry).unwrap(),
        "\tif(q?.a != null) { __params.append('a', q.a.toString()) }\n\tif(q?.tags != null) { q.tags.forEach(val => __params.append('tags', val.toString())); }"
    );
    assert_eq!(
        registry.components()[2].typ.build_inner_query_string("main", ".list"),
        "\tif(main?.list != null) { main.list.forEach(val => __params.append('list', val.toString())); }"
    );
    assert_eq!(
        registry.components()[0].typ.build_inner_query_string("main", "[3]"),
        "\tif(main?[3] != null) { __params.append('3', main[3].toString()) }"
    );
}

#[test]
fn query_statements_of_tuples_wrappers_and_enums() {
    let mut registry = basics();
    registry.finalize(10, shaped("Q", Type::Struct(object(vec![("a", to(1))])), 10));
    let pair = InnerType::Tuple(vec![to(0), to(1)]);
    assert_eq!(
        pair.inner_query_string_builder("p", &registry).unwrap(),
        "\tif(p?[0] != null) { __params.append('0', p[0].toString()) }\n\tif(p?[1] != null) { __params.append('1', p[1].toString()) }"
    );
    let wrapper = InnerType::NewType(to(2));
    assert_eq!(
        wrapper.inner_query_string_builder("w", &registry).unwrap(),
        "\tif(w?.a != null) { __params.append('a', w.a.toString()) }"
    );
    assert_eq!(InnerType::NewType(to(0)).inner_query_string_builder("w", &registry).unwrap(), "");
    assert_eq!(InnerType::Null.inner_query_string_builder("w", &registry).unwrap(), "");
    assert_eq!(
        InnerType::SimpleVariant("A".to_string()).inner_query_string_builder("w", &registry).unwrap(),
        ""
    );
    let choice = Type::Enum(
        EnumRepresentation::Default,
        vec![
            ("A".to_string(), object(vec![("x", to(0))])),
            ("B".to_string(), InnerType::SimpleVariant("B".to_string())),
            ("C".to_string(), InnerType::Tuple(vec![to(1)])),
        ],
    );
    assert_eq!(
        choice.build_query_string("e", &registry).unwrap(),
        "\tif(e?.x != null) { __params.append('x', e.x.toString()) }\n\n\tif(e?[0] != null) { __params.append('0', e[0].toString()) }"
    );
    assert_eq!(Type::Any.build_query_string("e", &registry).unwrap(), "");
    assert_eq!(Type::Array(to(0)).build_query_string("e", &registry).unwrap(), "");
}

#[test]
fn every_error_has_a_message() {
    let all = [
        BuildError::UnresolvedHandle,
        BuildError::CyclicReference,
        BuildError::InternalTagOnNonObject,
        BuildError::PathParameterUnsupported,
        BuildError::NoDeclaration,
        BuildError::MissingBaseType,
        BuildError::ClientNameCollision,
    ];
    for (i, first) in all.iter().enumerate() {
        assert!(!first.message().is_empty());
        for second in all.iter().skip(i + 1) {
            assert_ne!(first.message(), second.message());
        }
    }
    assert_eq!(BuildError::PathParameterUnsupported.message(), "path parameters are not supported");
}

#[test]
fn a_unit_variant_is_its_tag_as_a_string_literal() {
    let registry = basics();
    let builder = TypeBuilder::new();
    let unit = InnerType::SimpleVariant("A".to_string());
    let default = EnumRepresentation::Default;
    let untagged = EnumRepresentation::Untagged;
    let internal = EnumRepresentation::Internally("type".to_string());
    let adjacent = EnumRepresentation::Adjacently("type".to_string(), "value".to_string());
    let rendered = unit.build(&builder, &registry, Some((&default, "A"))).unwrap();
    assert_eq!(rendered.text, "\"A\"");
    assert!(rendered.imports.is_empty());
    assert!(rendered.declarations.is_empty());
    assert_eq!(unit.build(&builder, &registry, Some((&untagged, "A"))).unwrap().text, "\"A\"");
    assert_eq!(unit.build(&builder, &registry, Some((&internal, "A"))).unwrap().text, "\"A\"");
    assert_eq!(unit.build(&builder, &registry, None).unwrap().text, "\"A\"");
    let tagged = unit.build(&builder, &registry, Some((&adjacent, "A"))).unwrap();
    assert_eq!(tagged.text, "{\n\ttype: \"A\"\n}");
    let collapsed: Vec<&str> = tagged.text.split_whitespace().collect();
    assert_eq!(collapsed.join(" "), "{ type: \"A\" }");
    assert!(tagged.imports.is_empty());
    assert!(builder.file_map.is_empty());
}

#[test]
fn simple_types_and_any_need_nothing_and_leave_the_builder_alone() {
    let registry = basics();
    let builder = TypeBuilder::new();
    assert_eq!(
        Type::SimpleType("number".to_string()).build("i32", "", 1, &builder, &registry).unwrap().is_none(),
        true
    );
    assert!(Type::Any.build("any", "", 2, &builder, &registry).unwrap().is_none());
    assert_eq!(
        Type::Nothing.build("none", "", 3, &builder, &registry).err(),
        Some(BuildError::NoDeclaration)
    );
    assert!(builder.file_map.is_empty());
    assert!(builder.rename_map.is_empty());
}
