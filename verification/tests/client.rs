use tsclient::api::{Api, ClientObject, ClientObjectBuilder, HTTPMethod, Method, Route, RouteDestructured};
use tsclient::api_router::{collect_slots, ApiMethodRouter, Postion, RouteComponentType};
use tsclient::errors::BuildError;
use tsclient::routing::{create_method_router, delete, get, post, put};
use tsclient::types::builder::{GlobalTypeRegistry, HasIndexed, TypeBuilder};
use tsclient::types::model::{
    Component, ComponentReference, EnumRepresentation, InnerType, Type,
};
use tsclient::types::TypescriptType;
use tsclient::FILE_HEADER;

fn named(name: &str, typ: Type, hash: u64) -> Component {
    Component { name: name.to_string(), generics: String::new(), typ, hash }
}

fn at(index: usize) -> ComponentReference {
    ComponentReference { id: HasIndexed::Build(index), renamed: None }
}

fn fields(all: Vec<(&str, ComponentReference)>) -> InnerType {
    InnerType::Object(all.into_iter().map(|(name, r)| (name.to_string(), r)).collect())
}

fn words(all: &[&str]) -> Vec<String> {
    all.iter().map(|s| s.to_string()).collect()
}

/// 0 number, 1 string, 2 Item { id: number; name: string }, 3 Option of
/// string, 4 Filter { filter: Option }, 5 Result of Item and string.
fn shop() -> GlobalTypeRegistry {
    let mut registry = GlobalTypeRegistry::new();
    registry.finalize(1, named("i32", Type::SimpleType("number".to_string()), 1));
    registry.finalize(2, named("String", Type::SimpleType("string".to_string()), 2));
    registry.finalize(3, named("Item", Type::Struct(fields(vec![("id", at(0)), ("name", at(1))])), 3));
    registry.finalize(
        4,
        named(
            "Option",
            Type::Enum(
                EnumRepresentation::Untagged,
                vec![
                    ("Ok".to_string(), InnerType::NewType(at(1))),
                    ("None".to_string(), InnerType::Null),
                ],
            ),
            4,
        ),
    );
    registry.finalize(5, named("Filter", Type::Struct(fields(vec![("filter", at(3))])), 5));
    registry.finalize(
        6,
        named(
            "Result",
            Type::Enum(
                EnumRepresentation::Default,
                vec![
                    ("Ok".to_string(), InnerType::NewType(at(2))),
                    ("Err".to_string(), InnerType::NewType(at(1))),
                ],
            ),
            6,
        ),
    );
    registry
}

const RAW_GET_TEST: &str = "\nexport async function getTest_RAW(): Promise<Response> {\n    const headers = new Headers({\n        \n    });\n\n    const __body = null;\n\n    const __queryString = \"\";\n\n    let __result = await fetch(`${__client__.BASE_PATH}/api/test${__queryString}`, {\n        method: 'GET',\n        headers: headers,\n        body: __body\n    });\n\n    return __result\n}\n";

const TYPED_GET_TEST: &str = "\nexport async function getTest(): Promise<ApiResult<Item, any>> {\n    let __result = await getTest_RAW();\n\n    if(!__result.ok) {\n        let error = await __result.json();\n        return {\n            isError: true, \n            status_code: __result.status,  \n            error\n        }\n    } else {\n        return await __result.json()\n    }\n}\n";

#[test]
fn methods_have_their_names() {
    assert_eq!(HTTPMethod::GET.to_name(), "get");
    assert_eq!(HTTPMethod::POST.to_name(), "post");
    assert_eq!(HTTPMethod::PUT.to_name(), "put");
    assert_eq!(HTTPMethod::DELETE.to_name(), "delete");
    assert_eq!(HTTPMethod::GET.to_method(), "GET");
    assert_eq!(HTTPMethod::POST.to_method(), "POST");
    assert_eq!(HTTPMethod::PUT.to_method(), "PUT");
    assert_eq!(HTTPMethod::DELETE.to_method(), "DELETE");
}

#[test]
fn slots_know_their_handle_and_header() {
    let handle = HasIndexed::Build(3);
    let query = RouteComponentType::Query(handle);
    let path = RouteComponentType::Path(HasIndexed::Prebuild(9));
    let json_body = RouteComponentType::Json(Postion::Body, handle);
    let json_result = RouteComponentType::Json(Postion::Result, handle);
    let raw_body = RouteComponentType::Raw(Postion::Body, handle);
    let raw_result = RouteComponentType::Raw(Postion::Result, handle);
    assert_eq!(*query.get_indexed(), handle);
    assert_eq!(*path.get_indexed(), HasIndexed::Prebuild(9));
    assert_eq!(*json_body.get_indexed(), handle);
    assert_eq!(*raw_result.get_indexed(), handle);
    assert_eq!(query.get_default_header(), None);
    assert_eq!(path.get_default_header(), None);
    assert_eq!(
        json_body.get_default_header(),
        Some(("Content-Type".to_string(), "application/json".to_string()))
    );
    assert_eq!(json_result.get_default_header(), None);
    assert_eq!(
        raw_body.get_default_header(),
        Some(("Content-Type".to_string(), "text/plain".to_string()))
    );
    assert_eq!(raw_result.get_default_header(), None);
    assert_eq!(query.get_position(), Postion::Body);
    assert_eq!(json_result.get_position(), Postion::Result);
}

#[test]
fn only_the_slots_that_are_there_are_kept() {
    let a = RouteComponentType::Query(HasIndexed::Build(0));
    let b = RouteComponentType::Json(Postion::Result, HasIndexed::Build(1));
    assert_eq!(collect_slots(vec![None, Some(a), None, Some(b)]), vec![a, b]);
    assert_eq!(collect_slots(vec![None, None]), Vec::new());
    assert_eq!(collect_slots(Vec::new()), Vec::new());
}

#[test]
fn a_result_shaped_enum_gives_both_arms() {
    let registry = shop();
    let builder = TypeBuilder::build(&registry).unwrap();
    assert_eq!(
        registry.components()[5].get_client_result(&registry, &builder).unwrap(),
        "ApiResult<Item, string>"
    );
}

#[test]
fn any_other_type_gives_itself_and_any() {
    let mut registry = shop();
    let builder = TypeBuilder::new();
    assert_eq!(
        registry.components()[2].get_client_result(&registry, &builder).unwrap(),
        "ApiResult<Item, any>"
    );
    assert_eq!(
        registry.components()[3].get_client_result(&registry, &builder).unwrap(),
        "ApiResult<Option, any>"
    );
    assert_eq!(
        registry.components()[1].get_client_result(&registry, &builder).unwrap(),
        "ApiResult<string, any>"
    );
    let wrong_names = named(
        "Outcome",
        Type::Enum(
            EnumRepresentation::Default,
            vec![
                ("Ok".to_string(), InnerType::NewType(at(2))),
                ("Fail".to_string(), InnerType::NewType(at(1))),
            ],
        ),
        7,
    );
    assert_eq!(wrong_names.get_client_result(&registry, &builder).unwrap(), "ApiResult<Outcome, any>");
    let swapped = named(
        "Swapped",
        Type::Enum(
            EnumRepresentation::Default,
            vec![
                ("Err".to_string(), InnerType::NewType(at(1))),
                ("Ok".to_string(), InnerType::NewType(at(2))),
            ],
        ),
        8,
    );
    assert_eq!(swapped.get_client_result(&registry, &builder).unwrap(), "ApiResult<Swapped, any>");
    let unit_arm = named(
        "Result",
        Type::Enum(
            EnumRepresentation::Default,
            vec![
                ("Ok".to_string(), InnerType::NewType(at(2))),
                ("Err".to_string(), InnerType::SimpleVariant("Err".to_string())),
            ],
        ),
        9,
    );
    assert_eq!(unit_arm.get_client_result(&registry, &builder).unwrap(), "ApiResult<Result, any>");
    let three = named(
        "Result",
        Type::Enum(
            EnumRepresentation::Default,
            vec![
                ("Ok".to_string(), InnerType::NewType(at(2))),
                ("Err".to_string(), InnerType::NewType(at(1))),
                ("Late".to_string(), InnerType::NewType(at(1))),
            ],
        ),
        10,
    );
    assert_eq!(three.get_client_result(&registry, &builder).unwrap(), "ApiResult<Result, any>");
    registry.finalize(20, named("VecItem", Type::Array(at(2)), 20));
    assert_eq!(
        registry.components()[6].get_client_result(&registry, &builder).unwrap(),
        "ApiResult<Array<Item>, any>"
    );
}

#[test]
fn the_arms_of_a_result_go_by_their_alias() {
    let registry = shop();
    let builder = TypeBuilder::new();
    let aliased = named(
        "Result",
        Type::Enum(
            EnumRepresentation::Default,
            vec![
                (
                    "Ok".to_string(),
                    InnerType::NewType(ComponentReference {
                        id: HasIndexed::Build(0),
                        renamed: Some("ItemId".to_string()),
                    }),
                ),
                ("Err".to_string(), InnerType::NewType(at(1))),
            ],
        ),
        11,
    );
    assert_eq!(
        aliased.get_client_result(&registry, &builder).unwrap(),
        "ApiResult<ItemId, string>"
    );
    let broken = named(
        "Result",
        Type::Enum(
            EnumRepresentation::Default,
            vec![
                ("Ok".to_string(), InnerType::NewType(at(2))),
                ("Err".to_string(), InnerType::NewType(at(77))),
            ],
        ),
        12,
    );
    assert_eq!(
        broken.get_client_result(&registry, &builder),
        Err(BuildError::UnresolvedHandle)
    );
}

#[test]
fn what_a_slot_imports() {
    let mut registry = shop();
    registry.finalize(20, named("VecItem", Type::Array(at(2)), 20));
    registry.finalize(21, named("PageOfItem", Type::Generic(at(4), vec![at(2), at(0)]), 21));
    let all = registry.components();
    let names = |found: Option<Vec<&Component>>| -> Option<Vec<String>> {
        found.map(|list| list.iter().map(|c| c.name.clone()).collect())
    };
    assert_eq!(names(all[2].get_import_component(&registry, Postion::Body).unwrap()), Some(words(&["Item"])));
    assert_eq!(names(all[0].get_import_component(&registry, Postion::Body).unwrap()), None);
    assert_eq!(names(Component::any().get_import_component(&registry, Postion::Result).unwrap()), None);
    assert_eq!(names(all[6].get_import_component(&registry, Postion::Result).unwrap()), Some(words(&["Item"])));
    assert_eq!(names(all[5].get_import_component(&registry, Postion::Body).unwrap()), Some(words(&["Result"])));
    assert_eq!(names(all[5].get_import_component(&registry, Postion::Result).unwrap()), Some(words(&["Item"])));
    assert_eq!(names(all[3].get_import_component(&registry, Postion::Result).unwrap()), Some(words(&["Option"])));
    assert_eq!(
        names(all[7].get_import_component(&registry, Postion::Result).unwrap()),
        Some(words(&["Item", "Filter"]))
    );
    let both_simple = named(
        "Result",
        Type::Enum(
            EnumRepresentation::Default,
            vec![
                ("Ok".to_string(), InnerType::NewType(at(0))),
                ("Err".to_string(), InnerType::NewType(at(1))),
            ],
        ),
        30,
    );
    assert_eq!(names(both_simple.get_import_component(&registry, Postion::Result).unwrap()), None);
    let both_declared = named(
        "Result",
        Type::Enum(
            EnumRepresentation::Default,
            vec![
                ("Ok".to_string(), InnerType::NewType(at(2))),
                ("Err".to_string(), InnerType::NewType(at(4))),
            ],
        ),
        31,
    );
    assert_eq!(
        names(both_declared.get_import_component(&registry, Postion::Result).unwrap()),
        Some(words(&["Item", "Filter"]))
    );
    let missing = named("VecMissing", Type::Array(at(99)), 32);
    assert_eq!(
        missing.get_import_component(&registry, Postion::Body).err(),
        Some(BuildError::UnresolvedHandle)
    );
}

#[test]
fn the_client_object_nests_by_segment() {
    let tree = ClientObject::new();
    assert_eq!(tree.to_ts("\t".to_string()), "{\n\t}");
    let tree = tree.add(&words(&["test"]), 0, "getTest".to_string()).unwrap();
    assert_eq!(tree.to_ts("\t".to_string()), "{\n\t\ttest: {\n\t\t\tgetTest: getTest\n\t\t}\n\t}");
    let tree = tree.add(&words(&["test"]), 0, "postTest".to_string()).unwrap();
    let tree = tree.add(&words(&["test", "deep"]), 0, "createNested".to_string()).unwrap();
    let tree = tree.add(&words(&[]), 0, "getIndex".to_string()).unwrap();
    assert_eq!(
        tree.to_ts("\t".to_string()),
        "{\n\t\ttest: {\n\t\t\tgetTest: getTest,\n\t\t\tpostTest: postTest,\n\t\t\tdeep: {\n\t\t\t\tcreateNested: createNested\n\t\t\t}\n\t\t},\n\t\tgetIndex: getIndex\n\t}"
    );
    assert_eq!(ClientObject::Method("run".to_string()).to_ts("\t".to_string()), "run");
    match &tree {
        ClientObject::Obj(top) => {
            assert_eq!(top.len(), 2);
            assert_eq!(top[0].0, "test");
            assert_eq!(top[1].0, "getIndex");
        }
        ClientObject::Method(_) => panic!("the root is an object"),
    }
}

#[test]
fn a_name_that_is_taken_is_a_collision() {
    let tree = ClientObject::new().add(&words(&["a"]), 0, "run".to_string()).unwrap();
    assert_eq!(
        tree.add(&words(&["a"]), 0, "run".to_string()).err(),
        Some(BuildError::ClientNameCollision)
    );
    let tree = ClientObject::new().add(&words(&["a"]), 0, "run".to_string()).unwrap();
    assert_eq!(
        tree.add(&words(&["a", "run"]), 0, "deeper".to_string()).err(),
        Some(BuildError::ClientNameCollision)
    );
    let tree = ClientObject::new().add(&words(&["a", "b"]), 0, "run".to_string()).unwrap();
    assert_eq!(tree.add(&words(&["a"]), 0, "b".to_string()).err(), Some(BuildError::ClientNameCollision));
    assert_eq!(
        ClientObject::Method("m".to_string()).add(&words(&[]), 0, "x".to_string()).err(),
        Some(BuildError::ClientNameCollision)
    );
}

#[test]
fn the_client_builder_groups_the_functions_by_file() {
    let builder = ClientObjectBuilder::new();
    assert_eq!(builder.get_ts_imports(), "");
    let builder = builder.add(&words(&["test"]), "getTest").unwrap();
    let builder = builder.add(&words(&["test", "deep"]), "createNested").unwrap();
    let builder = builder.add(&words(&["test"]), "postTest").unwrap();
    let builder = builder.add(&words(&[]), "getIndex").unwrap();
    assert_eq!(
        builder.get_ts_imports(),
        "import { getTest, postTest } from \"./test\";\nimport { createNested } from \"./test/deep\";\nimport { getIndex } from \"./\";"
    );
    assert_eq!(builder.import_map.len(), 3);
    assert_eq!(builder.add(&words(&["test"]), "getTest").err(), Some(BuildError::ClientNameCollision));
}

#[test]
fn registering_a_method_again_replaces_it() {
    let mut route = Route::new();
    let first = RouteComponentType::Query(HasIndexed::Build(0));
    let second = RouteComponentType::Query(HasIndexed::Build(1));
    route.insert(HTTPMethod::GET, Method { content: vec![first], name: None });
    route.insert(HTTPMethod::POST, Method { content: vec![], name: Some("create".to_string()) });
    route.insert(HTTPMethod::GET, Method { content: vec![second], name: None });
    assert_eq!(route.methods.len(), 2);
    assert_eq!(route.methods[0].0, HTTPMethod::GET);
    assert_eq!(route.methods[0].1.content, vec![second]);
    assert_eq!(route.methods[1].0, HTTPMethod::POST);
    assert_eq!(route.methods[1].1.name, Some("create".to_string()));
}

#[test]
fn renaming_names_the_registered_methods_only() {
    let mut route = Route::new();
    let slot = RouteComponentType::Query(HasIndexed::Build(0));
    route.insert(HTTPMethod::GET, Method { content: vec![slot], name: None });
    route.insert(HTTPMethod::POST, Method { content: vec![], name: Some("old".to_string()) });
    route.rename_ts_methods(vec![
        (HTTPMethod::POST, "createNested".to_string()),
        (HTTPMethod::DELETE, "remove".to_string()),
        (HTTPMethod::GET, "first".to_string()),
        (HTTPMethod::GET, "second".to_string()),
    ]);
    assert_eq!(route.methods.len(), 2);
    assert_eq!(route.methods[0].1.name, Some("second".to_string()));
    assert_eq!(route.methods[0].1.content, vec![slot]);
    assert_eq!(route.methods[1].1.name, Some("createNested".to_string()));
}

#[test]
fn a_method_router_collects_the_methods_of_a_route() {
    let a = RouteComponentType::Query(HasIndexed::Build(0));
    let b = RouteComponentType::Json(Postion::Result, HasIndexed::Build(1));
    let router: ApiMethodRouter = post(vec![a]);
    assert_eq!(router.route.methods.len(), 1);
    assert_eq!(router.route.methods[0].0, HTTPMethod::POST);
    assert_eq!(router.route.methods[0].1.content, vec![a]);
    assert_eq!(router.route.methods[0].1.name, None);
    assert!(router.header.is_empty());
    assert!(router.rename_map.is_empty());
    let router = router.get(vec![b]).rename_ts(vec![(HTTPMethod::POST, "createNested".to_string())]);
    assert_eq!(router.route.methods.len(), 2);
    assert_eq!(router.route.methods[0].1.name, Some("createNested".to_string()));
    assert_eq!(router.route.methods[1].0, HTTPMethod::GET);
    assert_eq!(router.route.methods[1].1.content, vec![b]);
    let router = router.put(vec![]).delete(vec![a, b]).post(vec![b]);
    let order: Vec<HTTPMethod> = router.route.methods.iter().map(|m| m.0).collect();
    assert_eq!(order, vec![HTTPMethod::POST, HTTPMethod::GET, HTTPMethod::PUT, HTTPMethod::DELETE]);
    assert_eq!(router.route.methods[0].1.content, vec![b]);
    assert_eq!(router.route.methods[0].1.name, None);
    assert_eq!(router.route.methods[3].1.content, vec![a, b]);
    assert_eq!(get(vec![]).route.methods[0].0, HTTPMethod::GET);
    assert_eq!(put(vec![]).route.methods[0].0, HTTPMethod::PUT);
    assert_eq!(delete(vec![]).route.methods[0].0, HTTPMethod::DELETE);
    assert_eq!(create_method_router(vec![a], HTTPMethod::PUT).on(HTTPMethod::GET, vec![]).route.methods.len(), 2);
}

#[test]
fn the_parts_of_a_request_are_filled_in_by_the_slots() {
    let registry = shop();
    let route = Route::new();
    let item = &registry.components()[2];
    let handle = HasIndexed::Build(2);
    let mut parts = RouteDestructured::default();
    assert_eq!((parts.path.clone(), parts.query.clone(), parts.body.clone()), (None, None, None));
    route
        .adjust_route_obj(&mut parts, &RouteComponentType::Json(Postion::Body, handle), "Item", "/r", item, &registry)
        .unwrap();
    assert_eq!(parts.body, Some("const __body = JSON.stringify(Item);".to_string()));
    route
        .adjust_route_obj(&mut parts, &RouteComponentType::Raw(Postion::Body, handle), "Item", "/r", item, &registry)
        .unwrap();
    assert_eq!(parts.body, Some("const __body = Item;".to_string()));
    route
        .adjust_route_obj(&mut parts, &RouteComponentType::Raw(Postion::Result, handle), "Item", "/r", item, &registry)
        .unwrap();
    route
        .adjust_route_obj(&mut parts, &RouteComponentType::Json(Postion::Result, handle), "Item", "/r", item, &registry)
        .unwrap();
    assert_eq!(parts.body, Some("const __body = Item;".to_string()));
    assert_eq!(parts.query, None);
    route
        .adjust_route_obj(&mut parts, &RouteComponentType::Query(handle), "Item", "/r", item, &registry)
        .unwrap();
    assert_eq!(
        parts.query,
        Some(
            "\n    const __params = new URLSearchParams();\n\n\tif(Item?.id != null) { __params.append('id', Item.id.toString()) }\n\tif(Item?.name != null) { __params.append('name', Item.name.toString()) }\n\n    const __queryString = \"?\" + __params.toString();\n"
                .to_string()
        )
    );
    assert_eq!(
        route.adjust_route_obj(&mut parts, &RouteComponentType::Path(handle), "Item", "/r", item, &registry),
        Err(BuildError::PathParameterUnsupported)
    );
    assert_eq!(parts.body, Some("const __body = Item;".to_string()));
    assert_eq!(parts.path, None);
}

#[test]
fn the_client_file_of_a_route_without_inputs() {
    let registry = shop();
    let builder = TypeBuilder::build(&registry).unwrap();
    let mut route = Route::new();
    route.insert(
        HTTPMethod::GET,
        Method {
            content: vec![RouteComponentType::Json(Postion::Result, HasIndexed::Build(2))],
            name: None,
        },
    );
    let (text, client) = route
        .build(ClientObjectBuilder::new(), "/api/test", &words(&["test"]), "test.ts", 1, &registry, &builder)
        .unwrap();
    let expected = format!(
        "{}\n{}\n{}\n\n {}\n\n{}",
        FILE_HEADER,
        "import __client__, {type ApiResult} from \"./client\"",
        "import { type Item } from \"../dto/Item\";",
        RAW_GET_TEST,
        TYPED_GET_TEST
    );
    assert_eq!(text, expected);
    assert_eq!(client.get_ts_imports(), "import { getTest } from \"./test\";");
    assert_eq!(
        client.obj.to_ts("\t".to_string()),
        "{\n\t\ttest: {\n\t\t\tgetTest: getTest\n\t\t}\n\t}"
    );
}

#[test]
fn a_route_without_methods_is_only_its_header_and_import() {
    let registry = shop();
    let builder = TypeBuilder::new();
    let (text, client) = Route::new()
        .build(ClientObjectBuilder::new(), "/x/y/z", &words(&["x", "y", "z"]), "z.ts", 3, &registry, &builder)
        .unwrap();
    assert_eq!(
        text,
        format!("{}\nimport __client__, {{type ApiResult}} from \"../../client\"\n\n ", FILE_HEADER)
    );
    assert_eq!(client.get_ts_imports(), "");
    let (top, _) = Route::new()
        .build(ClientObjectBuilder::new(), "/", &words(&[]), "index.ts", 0, &registry, &builder)
        .unwrap();
    assert_eq!(
        top,
        format!("{}\nimport __client__, {{type ApiResult}} from \"./client\"\n\n ", FILE_HEADER)
    );
}

#[test]
fn post_with_query_and_body() {
    let registry = shop();
    let builder = TypeBuilder::build(&registry).unwrap();
    let mut api = Api::new();
    api.insert(
        "/api/items".to_string(),
        post(vec![
            RouteComponentType::Query(HasIndexed::Build(4)),
            RouteComponentType::Json(Postion::Body, HasIndexed::Build(2)),
            RouteComponentType::Json(Postion::Result, HasIndexed::Build(2)),
        ])
        .route,
    );
    let files = api.export(&registry, Some("/api")).unwrap();
    let paths: Vec<&str> = files.iter().map(|f| f.0.as_str()).collect();
    assert_eq!(
        paths,
        vec!["dto/Item.ts", "dto/Option.ts", "dto/Filter.ts", "dto/Result.ts", "api/items.ts", "api/client.ts"]
    );
    assert_eq!(
        files[0].1,
        format!("{}\n\nexport type Item = {{\n\tid: number;\n\tname: string\n}}", FILE_HEADER)
    );
    assert_eq!(files[0].1, builder.file_map[0].render());
    assert_eq!(
        files[2].1,
        format!(
            "{}import {{type Option}} from \"./Option\";\n\n\nexport type Filter = {{\n\tfilter: Option\n}}",
            FILE_HEADER
        )
    );
    let raw = "\nexport async function postItems_RAW(Filter: Filter, Item: Item): Promise<Response> {\n    const headers = new Headers({\n        'Content-Type': 'application/json'\n    });\n\n    const __body = JSON.stringify(Item);\n\n    \n    const __params = new URLSearchParams();\n\n\tif(Filter?.filter != null) { __params.append('filter', Filter.filter.toString()) }\n\n    const __queryString = \"?\" + __params.toString();\n\n\n    let __result = await fetch(`${__client__.BASE_PATH}/api/items${__queryString}`, {\n        method: 'POST',\n        headers: headers,\n        body: __body\n    });\n\n    return __result\n}\n";
    let typed = "\nexport async function postItems(Filter: Filter, Item: Item): Promise<ApiResult<Item, any>> {\n    let __result = await postItems_RAW(Filter, Item);\n\n    if(!__result.ok) {\n        let error = await __result.json();\n        return {\n            isError: true, \n            status_code: __result.status,  \n            error\n        }\n    } else {\n        return await __result.json()\n    }\n}\n";
    assert_eq!(
        files[4].1,
        format!(
            "{}\n{}\n{}\n{}\n\n {}\n\n{}",
            FILE_HEADER,
            "import __client__, {type ApiResult} from \"./client\"",
            "import { type Filter } from \"../dto/Filter\";",
            "import { type Item } from \"../dto/Item\";",
            raw,
            typed
        )
    );
    assert_eq!(
        files[5].1,
        format!(
            "{}\n{}\n\nclass Client {{\n    BASE_PATH = \"\";\n\n    API = {}\n\n    setBasePath(path: string) {{\n        this.BASE_PATH = path;\n    }}\n}}\n\nconst client = new Client();\n\nexport default client;\n\nexport type ApiResult<T, E> = T | {{isError: true, status_code: number,  error: E}};\n        ",
            FILE_HEADER,
            "import { postItems } from \"./items\";",
            "{\n\t\titems: {\n\t\t\tpostItems: postItems\n\t\t}\n\t}"
        )
    );
}

#[test]
fn a_path_parameter_fails_the_build() {
    let registry = shop();
    let mut api = Api::new();
    api.insert(
        "/api/items/{id}".to_string(),
        post(vec![
            RouteComponentType::Path(HasIndexed::Build(0)),
            RouteComponentType::Json(Postion::Result, HasIndexed::Build(2)),
        ])
        .route,
    );
    assert_eq!(api.export(&registry, Some("/api")), Err(BuildError::PathParameterUnsupported));
}

#[test]
fn client_files_mirror_the_route_paths() {
    let registry = shop();
    let result = RouteComponentType::Json(Postion::Result, HasIndexed::Build(5));
    let mut api = Api::new();
    api.insert("/api".to_string(), get(vec![result]).route);
    api.insert("/api/test".to_string(), get(vec![result]).post(vec![result]).route);
    api.insert(
        "/api/test/deep/and/nested".to_string(),
        post(vec![result]).rename_ts(vec![(HTTPMethod::POST, "createNested".to_string())]).route,
    );
    api.insert("/outside/{id}/x".to_string(), put(vec![result]).route);
    api.insert("/api/ ".to_string(), delete(vec![]).route);
    let files = api.export(&registry, Some("/api")).unwrap();
    let places: Vec<&str> = files.iter().map(|f| f.0.as_str()).skip(4).collect();
    assert_eq!(
        places,
        vec![
            "api/index.ts",
            "api/test.ts",
            "api/test/deep/and/nested.ts",
            "api/outside/[id]/x.ts",
            "api/index.ts",
            "api/client.ts"
        ]
    );
    let index = &files[4].1;
    assert!(index.contains("export async function getIndex(): Promise<ApiResult<Item, string>> {"));
    assert!(index.contains("import __client__, {type ApiResult} from \"./client\"\nimport { type Item } from \"../dto/Item\";\n\n "));
    let test = &files[5].1;
    assert!(test.contains("export async function getTest_RAW(): Promise<Response> {"));
    assert!(test.contains("export async function postTest(): Promise<ApiResult<Item, string>> {"));
    let nested = &files[6].1;
    assert!(nested.contains("import __client__, {type ApiResult} from \"../../../client\""));
    assert!(nested.contains("import { type Item } from \"../../../../dto/Item\";"));
    assert!(nested.contains("export async function createNested(): Promise<ApiResult<Item, string>> {"));
    assert!(nested.contains("await fetch(`${__client__.BASE_PATH}/api/test/deep/and/nested${__queryString}`"));
    let outside = &files[7].1;
    assert!(outside.contains("export async function putX(): Promise<ApiResult<Item, string>> {"));
    assert!(outside.contains("await fetch(`${__client__.BASE_PATH}/outside/{id}/x${__queryString}`"));
    let blank = &files[8].1;
    assert!(blank.contains("export async function deleteIndex(): void {"));
    let root = &files[9].1;
    assert!(root.contains("import { getIndex } from \"./\";\nimport { getTest, postTest } from \"./test\";\nimport { createNested } from \"./test/deep/and/nested\";\nimport { putX } from \"./outside/[id]/x\";\nimport { deleteIndex } from \"./ \";"));
    assert!(root.contains("    API = {\n\t\tgetIndex: getIndex,\n\t\ttest: {\n\t\t\tgetTest: getTest,\n\t\t\tpostTest: postTest,\n\t\t\tdeep: {\n"));
    let without_prefix = api.export(&registry, None).unwrap();
    assert_eq!(without_prefix[4].0, "api/api.ts");
    assert_eq!(without_prefix[5].0, "api/api/test.ts");
}

#[test]
fn two_methods_with_one_client_name_need_a_rename() {
    let registry = shop();
    let result = RouteComponentType::Json(Postion::Result, HasIndexed::Build(2));
    let clash = get(vec![result])
        .post(vec![result])
        .rename_ts(vec![(HTTPMethod::GET, "run".to_string()), (HTTPMethod::POST, "run".to_string())]);
    let mut api = Api::new();
    api.insert("/api/test".to_string(), clash.route);
    assert_eq!(api.export(&registry, Some("/api")), Err(BuildError::ClientNameCollision));
    let fine = get(vec![result])
        .post(vec![result])
        .rename_ts(vec![(HTTPMethod::GET, "run".to_string()), (HTTPMethod::POST, "walk".to_string())]);
    let mut api = Api::new();
    api.insert("/api/test".to_string(), fine.route);
    assert!(api.export(&registry, Some("/api")).is_ok());
}

#[test]
fn a_route_registered_again_replaces_the_earlier_one() {
    let mut api = Api::new();
    api.insert("/a".to_string(), get(vec![]).route);
    api.insert("/b".to_string(), get(vec![]).route);
    api.insert("/a".to_string(), post(vec![]).route);
    assert_eq!(api.routes.len(), 2);
    assert_eq!(api.routes[0].0, "/a");
    assert_eq!(api.routes[0].1.methods[0].0, HTTPMethod::POST);
    assert_eq!(api.routes[1].0, "/b");
}

#[test]
fn a_slot_without_a_component_fails_the_build() {
    let registry = shop();
    let mut api = Api::new();
    api.insert(
        "/api/test".to_string(),
        get(vec![RouteComponentType::Json(Postion::Result, HasIndexed::Prebuild(1234))]).route,
    );
    assert_eq!(api.export(&registry, None), Err(BuildError::UnresolvedHandle));
}

#[test]
fn raw_bodies_are_sent_as_text() {
    let registry = shop();
    let builder = TypeBuilder::build(&registry).unwrap();
    let mut route = Route::new();
    route.insert(
        HTTPMethod::PUT,
        Method {
            content: vec![
                RouteComponentType::Raw(Postion::Body, HasIndexed::Build(1)),
                RouteComponentType::Raw(Postion::Result, HasIndexed::Build(1)),
            ],
            name: Some("upload file".to_string()),
        },
    );
    let (text, _) = route
        .build(ClientObjectBuilder::new(), "/up", &words(&["up"]), "up.ts", 1, &registry, &builder)
        .unwrap();
    assert!(text.contains("export async function uploadfile_RAW(string: String): Promise<Response> {\n    const headers = new Headers({\n        'Content-Type': 'text/plain'\n    });\n\n    const __body = string;\n\n    const __queryString = \"\";\n"));
    assert!(text.contains("export async function uploadfile(string: String): Promise<ApiResult<string, any>> {\n    let __result = await uploadfile_RAW(string);"));
}

struct Test;
struct Test2;
struct Test3;
struct GestEnum;

fn describe_struct(
    registry: &mut GlobalTypeRegistry,
    key: u64,
    name: &str,
    hash: fn(&mut GlobalTypeRegistry) -> u64,
    shape: fn(&mut GlobalTypeRegistry) -> Type,
) -> HasIndexed {
    if let Some(existing) = registry.return_existing(key) {
        return existing;
    }
    registry.start(key);
    let hash = hash(registry);
    let typ = shape(registry);
    registry.finalize(key, named(name, typ, hash))
}

fn hash_of_fields(
    registry: &mut GlobalTypeRegistry,
    key: u64,
    kind: &str,
    name: &str,
    children: fn(&mut GlobalTypeRegistry) -> Vec<(String, u64)>,
) -> u64 {
    if let Some(known) = registry.start_hash(key) {
        return known;
    }
    let children = children(registry);
    let hash = tsclient::types::hashing::hash_structure(kind, name, &children);
    registry.finalize_hash(key, hash);
    hash
}

fn field<T: TypescriptType>(
    name: &str,
    registry: &mut GlobalTypeRegistry,
) -> (String, ComponentReference) {
    (name.to_string(), ComponentReference { id: T::get_definition(registry), renamed: None })
}

fn child<T: TypescriptType>(registry: &mut GlobalTypeRegistry) -> (String, u64) {
    (T::name(), T::hash(registry))
}

impl TypescriptType for Test2 {
    fn type_key() -> u64 {
        1002
    }
    fn get_definition(registry: &mut GlobalTypeRegistry) -> HasIndexed {
        describe_struct(registry, Self::type_key(), "Test2", Self::hash, |r| {
            Type::Struct(InnerType::Object(vec![
                field::<Result<u64, String>>("field1", r),
                field::<u64>("field2", r),
            ]))
        })
    }
    fn hash(registry: &mut GlobalTypeRegistry) -> u64 {
        hash_of_fields(registry, Self::type_key(), "Struct", "Test2", |r| {
            vec![child::<Result<u64, String>>(r), child::<u64>(r)]
        })
    }
    fn name() -> String {
        "Test2".to_string()
    }
    fn ts_name() -> String {
        "Test2".to_string()
    }
}

impl TypescriptType for Test {
    fn type_key() -> u64 {
        1001
    }
    fn get_definition(registry: &mut GlobalTypeRegistry) -> HasIndexed {
        describe_struct(registry, Self::type_key(), "Test", Self::hash, |r| {
            Type::Struct(InnerType::Object(vec![
                field::<Vec<String>>("field1", r),
                field::<Vec<Test2>>("field2", r),
            ]))
        })
    }
    fn hash(registry: &mut GlobalTypeRegistry) -> u64 {
        hash_of_fields(registry, Self::type_key(), "Struct", "Test", |r| {
            vec![child::<Vec<String>>(r), child::<Vec<Test2>>(r)]
        })
    }
    fn name() -> String {
        "Test".to_string()
    }
    fn ts_name() -> String {
        "Test".to_string()
    }
}

impl TypescriptType for Test3 {
    fn type_key() -> u64 {
        1003
    }
    fn get_definition(registry: &mut GlobalTypeRegistry) -> HasIndexed {
        describe_struct(registry, Self::type_key(), "Test3", Self::hash, |r| {
            Type::Struct(InnerType::Object(vec![
                field::<Vec<String>>("field1", r),
                field::<Option<u64>>("field2", r),
                field::<Option<u64>>("field3", r),
                field::<Option<Test>>("field4", r),
            ]))
        })
    }
    fn hash(registry: &mut GlobalTypeRegistry) -> u64 {
        hash_of_fields(registry, Self::type_key(), "Struct", "Test3", |r| {
            vec![
                child::<Vec<String>>(r),
                child::<Option<u64>>(r),
                child::<Option<u64>>(r),
                child::<Option<Test>>(r),
            ]
        })
    }
    fn name() -> String {
        "Test3".to_string()
    }
    fn ts_name() -> String {
        "Test3".to_string()
    }
}

impl TypescriptType for GestEnum {
    fn type_key() -> u64 {
        1004
    }
    fn get_definition(registry: &mut GlobalTypeRegistry) -> HasIndexed {
        describe_struct(registry, Self::type_key(), "GestEnum", Self::hash, |r| {
            Type::Enum(
                tsclient::types::describe::representation(
                    Some("typ".to_string()),
                    Some("value".to_string()),
                    None,
                ),
                vec![
                    ("T1".to_string(), InnerType::SimpleVariant("T1".to_string())),
                    ("T2".to_string(), InnerType::NewType(field::<i32>("", r).1)),
                    (
                        "T3".to_string(),
                        InnerType::Tuple(vec![field::<i32>("", r).1, field::<i32>("", r).1]),
                    ),
                    (
                        "T4".to_string(),
                        InnerType::Object(vec![field::<i32>("x", r), field::<i32>("y", r)]),
                    ),
                ],
            )
        })
    }
    fn hash(registry: &mut GlobalTypeRegistry) -> u64 {
        hash_of_fields(registry, Self::type_key(), "Enum", "GestEnum", |r| {
            vec![child::<i32>(r), child::<i32>(r), child::<i32>(r), child::<i32>(r), child::<i32>(r)]
        })
    }
    fn name() -> String {
        "GestEnum".to_string()
    }
    fn ts_name() -> String {
        "GestEnum".to_string()
    }
}

async fn test_fn(_q: axum::extract::Query<Test3>, axum::Json(body): axum::Json<Test>) -> axum::Json<Test> {
    axum::Json(body)
}

async fn test_fn3(_q: axum::extract::Query<Test>) -> Result<axum::Json<String>, axum::Json<u64>> {
    Ok(axum::Json(String::from("OK")))
}

async fn test_fn2(
    _q: axum::extract::Query<Test3>,
    axum::Json(body): axum::Json<Test>,
) -> Result<axum::Json<Test>, String> {
    Ok(axum::Json(body))
}

fn slots<H, T>(_handler: H, registry: &mut GlobalTypeRegistry) -> Vec<RouteComponentType>
where
    H: tsclient::api_router::ApiBuildable<T>,
{
    H::build(registry)
}

#[test]
fn it_works() {
    let registry = GlobalTypeRegistry::new();
    println!("{:?}", registry.components());
    println!();
    println!();

    let mut registry = GlobalTypeRegistry::new();
    println!("{:?}", GestEnum::get_definition(&mut registry));
    println!();
    println!("{:?}", registry.components());
    println!();
    println!();
    println!("{:?}", Test::get_definition(&mut registry));
    println!();
    println!("{:?}", registry.components());
    println!();
    println!();
    println!();
    println!();
    let builder = TypeBuilder::build(&registry).unwrap();
    println!("{:#?}", builder.file_map);
    println!();
    println!();
    println!();
    println!();
    type Q3 = axum::extract::Query<Test3>;
    type Q = axum::extract::Query<Test>;
    type J = axum::Json<Test>;
    let mut api = Api::new();
    api.insert(
        "/api/test".to_string(),
        post(slots::<_, ((), Q3, J)>(test_fn, &mut registry))
            .get(slots::<_, ((), Q)>(test_fn3, &mut registry))
            .route,
    );
    api.insert(
        "/api/test/deep/and/nested".to_string(),
        post(slots::<_, ((), Q3, J)>(test_fn2, &mut registry))
            .rename_ts(vec![(HTTPMethod::POST, "createNested".to_string())])
            .route,
    );

    let files = api.export(&registry, Some("/api")).unwrap();
    for (path, text) in files.iter() {
        println!("test/api/{}", path);
        println!("{}", text);
    }

    let gest = files.iter().find(|f| f.0 == "dto/GestEnum.ts").unwrap();
    assert_eq!(
        gest.1,
        format!(
            "{}{}",
            FILE_HEADER,
            "\n\nexport type T1 = {\n\ttyp: \"T1\"\n}\n\n\nexport type T2 = {\n\ttyp: \"T2\";\n\tvalue: number\n}\n\n\nexport type T3 = {\n\ttyp: \"T3\";\n\tvalue: [ number, number]\n}\n\n\nexport type T4 = {\n\ttyp: \"T4\";\n\tvalue: {\n\tx: number;\n\ty: number\n}\n}\n\n\nexport type GestEnum = T1 | T2 | T3 | T4"
        )
    );
    let test = files.iter().find(|f| f.0 == "dto/Test.ts").unwrap();
    assert_eq!(
        test.1,
        format!(
            "{}{}",
            FILE_HEADER,
            "import {type Test2} from \"./Test2\";\n\n\nexport type Test = {\n\tfield1: Array<string>;\n\tfield2: Array<Test2>\n}"
        )
    );
    let paths: Vec<&str> = files.iter().map(|f| f.0.as_str()).collect();
    assert!(paths.contains(&"api/test.ts"));
    assert!(paths.contains(&"api/test/deep/and/nested.ts"));
    assert_eq!(paths.last(), Some(&"api/client.ts"));
    let nested = files.iter().find(|f| f.0 == "api/test/deep/and/nested.ts").unwrap();
    assert!(nested.1.contains("export async function createNested(Test3: Test3, Test: Test): Promise<ApiResult<Test, string>> {"));
    let client = files.last().unwrap();
    assert!(client.1.contains("import { postTest, getTest } from \"./test\";\nimport { createNested } from \"./test/deep/and/nested\";"));
}

#[test]
fn nested_routes_get_the_prefix() {
    let mut inner = Api::new();
    inner.insert("/list".to_string(), get(vec![]).route);
    inner.insert("".to_string(), post(vec![]).route);
    let mut outer = Api::new();
    outer.insert("/api/items".to_string(), put(vec![]).route);
    outer.insert("/health".to_string(), get(vec![]).route);
    outer.nest("/api/items", inner);
    let paths: Vec<&str> = outer.routes.iter().map(|r| r.0.as_str()).collect();
    assert_eq!(paths, vec!["/api/items", "/health", "/api/items/list"]);
    assert_eq!(outer.routes[0].1.methods[0].0, HTTPMethod::POST);
    assert_eq!(outer.routes[2].1.methods[0].0, HTTPMethod::GET);
}
