use axum::extract::{Query, State};
use axum::{Extension, Json};

use tsclient::api_router::{ApiBuildable, Buildable, Postion, RouteComponentType};
use tsclient::types::builder::{GlobalTypeRegistry, HasIndexed, TypeBuilder};
use tsclient::types::describe::{get_easy_name, get_field_alias, representation, squeeze};
use tsclient::types::hashing::{hash_name, hash_structure};
use tsclient::types::impls::standard::make_composite_key;
use tsclient::types::impls::{boilerplate_simple_definition, boilerplate_simple_hash};
use tsclient::types::model::{EnumRepresentation, InnerType, Type};
use tsclient::types::TypescriptType;
use tsclient::T1;

fn slots_of<H, T>(_handler: H, registry: &mut GlobalTypeRegistry) -> Vec<RouteComponentType>
where
    H: ApiBuildable<T>,
{
    H::build(registry)
}

#[test]
fn the_tagging_attributes_decide_the_representation() {
    let text = |s: &str| Some(s.to_string());
    assert!(matches!(
        representation(text("type"), text("value"), None),
        EnumRepresentation::Adjacently(tag, content) if tag == "type" && content == "value"
    ));
    assert!(matches!(
        representation(text("type"), text("value"), Some(true)),
        EnumRepresentation::Adjacently(_, _)
    ));
    assert!(matches!(
        representation(text("kind"), None, None),
        EnumRepresentation::Internally(tag) if tag == "kind"
    ));
    assert!(matches!(representation(None, None, Some(true)), EnumRepresentation::Untagged));
    assert!(matches!(representation(None, None, Some(false)), EnumRepresentation::Default));
    assert!(matches!(representation(None, None, None), EnumRepresentation::Default));
    assert!(matches!(representation(None, text("value"), Some(true)), EnumRepresentation::Default));
}

#[test]
fn the_short_name_of_a_type_as_written() {
    assert_eq!(get_easy_name("Option < LocationId >"), "Option");
    assert_eq!(get_easy_name("LocationId"), "LocationId");
    assert_eq!(get_easy_name("std :: vec :: Vec < u8 >"), "std::vec::Vec");
    assert_eq!(get_easy_name(""), "");
    assert_eq!(get_easy_name("<T>"), "");
    assert_eq!(squeeze(" a \t b\n"), "ab");
}

#[test]
fn a_field_speaks_of_its_type_under_the_name_it_wrote() {
    assert_eq!(get_field_alias(true, "u64", "LocationId"), Some("LocationId".to_string()));
    assert_eq!(get_field_alias(true, "u64", "u64"), None);
    assert_eq!(get_field_alias(true, "any", "JsonValue"), None);
    assert_eq!(get_field_alias(false, "u64", "LocationId"), None);
    assert_eq!(get_field_alias(true, "( String , u64 )", "(String,u64)"), None);
    assert_eq!(get_field_alias(true, " a n y ", "Thing"), None);
}

#[test]
fn simple_types_are_described_by_name() {
    let mut registry = GlobalTypeRegistry::new();
    let string = <String as TypescriptType>::get_definition(&mut registry);
    let number = <i32 as TypescriptType>::get_definition(&mut registry);
    let flag = <bool as TypescriptType>::get_definition(&mut registry);
    let unit = <() as TypescriptType>::get_definition(&mut registry);
    let text = <&str as TypescriptType>::get_definition(&mut registry);
    assert_eq!(
        vec![string, number, flag, unit, text],
        (0..5).map(HasIndexed::Build).collect::<Vec<_>>()
    );
    let all = registry.components();
    assert_eq!(all[0].name, "String");
    assert_eq!(all[0].hash, hash_name("String"));
    assert!(matches!(&all[0].typ, Type::SimpleType(ts) if ts == "string"));
    assert!(matches!(&all[1].typ, Type::SimpleType(ts) if ts == "number"));
    assert!(matches!(&all[2].typ, Type::SimpleType(ts) if ts == "boolean"));
    assert!(matches!(&all[3].typ, Type::SimpleType(ts) if ts == "null"));
    assert_eq!(all[4].name, "&str");
    assert_eq!(<u8 as TypescriptType>::name(), "u8");
    assert_eq!(<u8 as TypescriptType>::ts_name(), "number");
    assert_eq!(<i64 as TypescriptType>::type_key(), hash_name("i64"));
    assert_eq!(<u16 as TypescriptType>::hash(&mut registry), hash_name("u16"));
    assert_eq!(<u16 as TypescriptType>::hash(&mut registry), hash_name("u16"));
    assert_eq!(<chrono::NaiveDate as TypescriptType>::ts_name(), "string");
    assert_eq!(<chrono::NaiveDate as TypescriptType>::name(), "NaiveDate");
}

#[test]
fn the_boilerplate_finishes_a_type_once() {
    let mut registry = GlobalTypeRegistry::new();
    let first = boilerplate_simple_definition(
        7,
        "Seven".to_string(),
        Type::SimpleType("number".to_string()),
        &mut registry,
    );
    let second = boilerplate_simple_definition(
        7,
        "Changed".to_string(),
        Type::SimpleType("string".to_string()),
        &mut registry,
    );
    assert_eq!(first, HasIndexed::Build(0));
    assert_eq!(second, first);
    assert_eq!(registry.components().len(), 1);
    assert_eq!(registry.components()[0].name, "Seven");
    assert_eq!(registry.components()[0].hash, hash_name("Seven"));
    assert_eq!(boilerplate_simple_hash(7, "Seven", &mut registry), hash_name("Seven"));
    assert_eq!(boilerplate_simple_hash(8, "Eight", &mut registry), hash_name("Eight"));
    assert_eq!(boilerplate_simple_hash(8, "Other", &mut registry), hash_name("Eight"));
    registry.start(9);
    let pending = boilerplate_simple_definition(9, "Nine".to_string(), Type::Any, &mut registry);
    assert_eq!(pending, HasIndexed::Build(1));
    assert_eq!(registry.components()[1].name, "any");
}

#[test]
fn an_option_is_an_untagged_enum() {
    let mut registry = GlobalTypeRegistry::new();
    let handle = <Option<String> as TypescriptType>::get_definition(&mut registry);
    assert_eq!(handle, HasIndexed::Build(1));
    let option = registry.get_indexed(&handle);
    assert_eq!(option.name, "Option");
    match &option.typ {
        Type::Enum(EnumRepresentation::Untagged, variants) => {
            assert_eq!(variants.len(), 2);
            assert_eq!(variants[0].0, "Ok");
            assert!(matches!(&variants[0].1, InnerType::NewType(r) if r.id == HasIndexed::Build(0) && r.renamed.is_none()));
            assert_eq!(variants[1].0, "None");
            assert!(matches!(variants[1].1, InnerType::Null));
        }
        _ => panic!("an option is an untagged enum"),
    }
    assert_eq!(
        option.hash,
        hash_structure("enum", "Option", &vec![("String".to_string(), hash_name("String"))])
    );
    assert_eq!(<Option<String> as TypescriptType>::get_definition(&mut registry), handle);
    assert_eq!(registry.components().len(), 2);
    assert_eq!(<Option<String> as TypescriptType>::ts_name(), "String | null");
    assert_eq!(<Option<u8> as TypescriptType>::name(), "Option");
    assert_ne!(
        <Option<u8> as TypescriptType>::type_key(),
        <Option<String> as TypescriptType>::type_key()
    );
    assert_eq!(
        <Option<u8> as TypescriptType>::type_key(),
        make_composite_key("Option", &vec![hash_name("u8")])
    );
    let builder = TypeBuilder::build(&registry).unwrap();
    assert_eq!(
        builder.file_map[0].content,
        "\n\nexport type Ok = string\n\n\nexport type None = null\n\n\nexport type Option = Ok | None"
    );
}

#[test]
fn a_result_is_an_enum_of_its_two_arms() {
    let mut registry = GlobalTypeRegistry::new();
    let handle = <Result<u64, String> as TypescriptType>::get_definition(&mut registry);
    assert_eq!(handle, HasIndexed::Build(2));
    let result = registry.get_indexed(&handle);
    assert_eq!(result.name, "Result");
    match &result.typ {
        Type::Enum(EnumRepresentation::Default, variants) => {
            assert_eq!(variants[0].0, "Ok");
            assert!(matches!(&variants[0].1, InnerType::NewType(r) if r.id == HasIndexed::Build(0)));
            assert_eq!(variants[1].0, "Err");
            assert!(matches!(&variants[1].1, InnerType::NewType(r) if r.id == HasIndexed::Build(1)));
        }
        _ => panic!("a result is an enum"),
    }
    assert_eq!(<Result<u64, String> as TypescriptType>::name(), "Option<u64,String>");
    assert_eq!(<Result<u64, String> as TypescriptType>::ts_name(), "Result");
    assert_eq!(
        result.hash,
        hash_structure(
            "enum",
            "Option<u64,String>",
            &vec![("u64".to_string(), hash_name("u64")), ("String".to_string(), hash_name("String"))]
        )
    );
    let builder = TypeBuilder::build(&registry).unwrap();
    assert_eq!(result.get_client_result(&registry, &builder).unwrap(), "ApiResult<number, string>");
    assert_ne!(
        <Result<u64, String> as TypescriptType>::type_key(),
        <Result<String, u64> as TypescriptType>::type_key()
    );
    assert_ne!(
        <Result<u64, String> as TypescriptType>::hash(&mut GlobalTypeRegistry::new()),
        <Result<String, u64> as TypescriptType>::hash(&mut GlobalTypeRegistry::new())
    );
}

#[test]
fn arrays_and_tuples_are_described_from_their_parts() {
    let mut registry = GlobalTypeRegistry::new();
    let list = <Vec<String> as TypescriptType>::get_definition(&mut registry);
    assert_eq!(list, HasIndexed::Build(1));
    assert!(matches!(&registry.get_indexed(&list).typ, Type::Array(r) if r.id == HasIndexed::Build(0)));
    assert_eq!(registry.get_indexed(&list).name, "VecString");
    assert_eq!(registry.get_indexed(&list).get_ts_name(&registry).unwrap(), "Array<string>");
    assert_eq!(<Vec<String> as TypescriptType>::ts_name(), "Array<String>");
    assert_eq!(<[u8; 16] as TypescriptType>::name(), "[u8; 16]");
    assert_eq!(<&[bool] as TypescriptType>::name(), "[bool]");
    assert_ne!(<[u8; 16] as TypescriptType>::type_key(), <[u8; 17] as TypescriptType>::type_key());
    let pair = <(String, u64) as TypescriptType>::get_definition(&mut registry);
    assert_eq!(pair, HasIndexed::Build(3));
    let tuple = registry.get_indexed(&pair);
    assert_eq!(tuple.name, "Tuple");
    assert!(matches!(
        &tuple.typ,
        Type::Struct(InnerType::Tuple(items))
            if items.len() == 2 && items[0].id == HasIndexed::Build(0) && items[1].id == HasIndexed::Build(2)
    ));
    assert_eq!(<(String, u64) as TypescriptType>::name(), "(String, u64)");
    assert_eq!(<(String, u64, bool) as TypescriptType>::ts_name(), "[string, number, boolean]");
    assert_eq!(
        <(u8, u8, u8, u8, u8, u8, u8) as TypescriptType>::name(),
        "(u8, u8, u8, u8, u8, u8, u8)"
    );
    assert_eq!(
        tuple.hash,
        hash_structure(
            "tuple",
            "(String, u64)",
            &vec![("String".to_string(), hash_name("String")), ("u64".to_string(), hash_name("u64"))]
        )
    );
    let builder = TypeBuilder::build(&registry).unwrap();
    assert_eq!(builder.file_map[0].content, "\n\nexport type Tuple = [ string, number]");
}

#[test]
fn a_json_value_is_any() {
    let mut registry = GlobalTypeRegistry::new();
    let handle = <serde_json::Value as TypescriptType>::get_definition(&mut registry);
    assert_eq!(handle, HasIndexed::Build(0));
    assert!(matches!(registry.get_indexed(&handle).typ, Type::Any));
    assert_eq!(<serde_json::Value as TypescriptType>::get_definition(&mut registry), handle);
    assert_eq!(<serde_json::Value as TypescriptType>::name(), "any");
    assert_eq!(<serde_json::Value as TypescriptType>::ts_name(), "any");
    assert_eq!(<serde_json::Value as TypescriptType>::hash(&mut registry), hash_name("any"));
}

#[test]
fn the_described_type_without_fields() {
    let mut registry = GlobalTypeRegistry::new();
    let handle = <T1 as TypescriptType>::get_definition(&mut registry);
    let t1 = registry.get_indexed(&handle);
    assert_eq!(t1.name, "T1");
    assert_eq!(t1.hash, hash_name("Object"));
    assert!(matches!(&t1.typ, Type::SimpleType(ts) if ts == "T1"));
    assert_eq!(<T1 as TypescriptType>::hash(&mut registry), hash_name("Object"));
    assert_eq!(<T1 as TypescriptType>::hash(&mut registry), hash_name("Object"));
}

#[test]
fn extractors_give_their_slots() {
    let mut registry = GlobalTypeRegistry::new();
    assert_eq!(<State<u8> as Buildable>::build(&mut registry, Postion::Body), None);
    assert_eq!(<Extension<u8> as Buildable>::build(&mut registry, Postion::Body), None);
    assert_eq!(registry.components().len(), 0);
    assert_eq!(
        <Query<String> as Buildable>::build(&mut registry, Postion::Body),
        Some(RouteComponentType::Query(HasIndexed::Build(0)))
    );
    assert_eq!(
        <Json<T1> as Buildable>::build(&mut registry, Postion::Body),
        Some(RouteComponentType::Json(Postion::Body, HasIndexed::Build(1)))
    );
    assert_eq!(
        <Json<T1> as Buildable>::build(&mut registry, Postion::Result),
        Some(RouteComponentType::Json(Postion::Result, HasIndexed::Build(1)))
    );
    let plain = <Result<String, T1> as Buildable>::build(&mut registry, Postion::Result);
    assert_eq!(plain, Some(RouteComponentType::Json(Postion::Result, HasIndexed::Build(2))));
    assert_eq!(<Result<Json<String>, T1> as Buildable>::build(&mut registry, Postion::Result), plain);
    assert_eq!(
        <Result<Json<String>, Json<T1>> as Buildable>::build(&mut registry, Postion::Result),
        plain
    );
    let maybe = <Option<String> as Buildable>::build(&mut registry, Postion::Result);
    assert_eq!(maybe, Some(RouteComponentType::Json(Postion::Result, HasIndexed::Build(3))));
    assert_eq!(<Option<Json<String>> as Buildable>::build(&mut registry, Postion::Result), maybe);
    assert_eq!(registry.components().len(), 4);
}

async fn no_inputs() -> Json<T1> {
    Json(T1 {})
}

async fn query_and_body(_q: Query<String>, Json(body): Json<T1>) -> Result<Json<T1>, String> {
    Ok(Json(body))
}

async fn with_state(_s: State<u8>, _q: Query<String>) -> Json<String> {
    Json(String::new())
}

#[test]
fn a_handler_gives_the_slots_of_its_parameters_and_its_result() {
    let mut registry = GlobalTypeRegistry::new();
    assert_eq!(
        slots_of::<_, ((),)>(no_inputs, &mut registry),
        vec![RouteComponentType::Json(Postion::Result, HasIndexed::Build(0))]
    );
    assert_eq!(
        slots_of::<_, ((), Query<String>, Json<T1>)>(query_and_body, &mut registry),
        vec![
            RouteComponentType::Query(HasIndexed::Build(1)),
            RouteComponentType::Json(Postion::Body, HasIndexed::Build(0)),
            RouteComponentType::Json(Postion::Result, HasIndexed::Build(2)),
        ]
    );
    assert_eq!(
        slots_of::<_, ((), State<u8>, Query<String>)>(with_state, &mut registry),
        vec![
            RouteComponentType::Query(HasIndexed::Build(1)),
            RouteComponentType::Json(Postion::Result, HasIndexed::Build(1)),
        ]
    );
    assert_eq!(registry.components().len(), 3);
}

#[test]
fn types_built_independently_have_the_same_hash() {
    let mut first = GlobalTypeRegistry::new();
    let mut second = GlobalTypeRegistry::new();
    <String as TypescriptType>::get_definition(&mut second);
    assert_eq!(
        <Result<u64, String> as TypescriptType>::hash(&mut first),
        <Result<u64, String> as TypescriptType>::hash(&mut second)
    );
    assert_eq!(
        <(String, Option<u8>) as TypescriptType>::hash(&mut first),
        <(String, Option<u8>) as TypescriptType>::hash(&mut second)
    );
    assert_ne!(
        <(String, Option<u8>) as TypescriptType>::hash(&mut first),
        <(Option<u8>, String) as TypescriptType>::hash(&mut first)
    );
    let a = <Result<u64, String> as TypescriptType>::get_definition(&mut first);
    let b = <Result<u64, String> as TypescriptType>::get_definition(&mut second);
    assert_eq!(first.get_indexed(&a).hash, second.get_indexed(&b).hash);
}

#[test]
fn asking_for_a_hash_twice_gives_it_twice_and_registers_nothing() {
    let mut first = GlobalTypeRegistry::new();
    let mut second = GlobalTypeRegistry::new();
    let once = <Result<u64, String> as TypescriptType>::hash(&mut first);
    let again = <Result<u64, String> as TypescriptType>::hash(&mut first);
    let other = <Result<u64, String> as TypescriptType>::hash(&mut second);
    assert_eq!(once, again);
    assert_eq!(once, other);
    assert_eq!(
        once,
        hash_structure(
            "enum",
            "Option<u64,String>",
            &vec![("u64".to_string(), hash_name("u64")), ("String".to_string(), hash_name("String"))]
        )
    );
    assert_ne!(
        once,
        hash_structure(
            "enum",
            "Option<u64,String>",
            &vec![("u64".to_string(), 0), ("String".to_string(), hash_name("String"))]
        )
    );
    assert_eq!(first.components().len(), 0);
    assert_eq!(second.components().len(), 0);
    assert!(!first.has(<Result<u64, String> as TypescriptType>::type_key()));
    let tuple = <(u8, Option<bool>) as TypescriptType>::hash(&mut first);
    assert_eq!(tuple, <(u8, Option<bool>) as TypescriptType>::hash(&mut first));
    assert_eq!(first.components().len(), 0);
}
