//! The intermediate representation of one described type, and the rules by
//! which it is rendered.
use vstd::prelude::*;
use vstd::string::*;

use crate::api_router::Postion;
use crate::errors::BuildError;
use crate::text::{decimal, decimal_string, join, join_spec, plain_field, strip_field_marks, texts};
use crate::types::builder::{
    distinct_imports, distinct_texts, BuilderView, ComponentFileBuilder, FileView,
    GlobalTypeRegistry, HasIndexed, RegistryView, TypeBuilder,
};
use crate::types::hashing::{hash_name, name_hash};

verus! {

/// The type whose components are all `any`.
pub struct AnyType;

/// What a reference to a component needs: the name to write and the names to import.
pub struct BuildTypeInfos {
    pub name: String,
    pub imports: Vec<String>,
}

/// An edge from a shape to a component, with the alias under which the
/// containing declaration speaks of it.
#[derive(Clone, Debug)]
pub struct ComponentReference {
    pub id: HasIndexed,
    pub renamed: Option<String>,
}

/// The mathematical value of a [`ComponentReference`].
pub struct ReferenceView {
    pub id: HasIndexed,
    pub renamed: Option<Seq<char>>,
}

impl DeepView for ComponentReference {
    type V = ReferenceView;

    open spec fn deep_view(&self) -> ReferenceView {
        ReferenceView { id: self.id, renamed: self.renamed.deep_view() }
    }
}

impl View for ComponentReference {
    type V = ReferenceView;

    open spec fn view(&self) -> ReferenceView {
        self.deep_view()
    }
}

/// The payload of a struct or of an enum variant.
#[derive(Clone, Debug)]
pub enum InnerType {
    Object(Vec<(String, ComponentReference)>),
    Tuple(Vec<ComponentReference>),
    NewType(ComponentReference),
    SimpleVariant(String),
    Null,
}

/// The mathematical value of an [`InnerType`].
pub enum InnerView {
    Object(Seq<(Seq<char>, ReferenceView)>),
    Tuple(Seq<ReferenceView>),
    NewType(ReferenceView),
    SimpleVariant(Seq<char>),
    Null,
}

impl DeepView for InnerType {
    type V = InnerView;

    open spec fn deep_view(&self) -> InnerView {
        match self {
            InnerType::Object(fields) => InnerView::Object(fields.deep_view()),
            InnerType::Tuple(items) => InnerView::Tuple(items.deep_view()),
            InnerType::NewType(inner) => InnerView::NewType(inner.deep_view()),
            InnerType::SimpleVariant(tag) => InnerView::SimpleVariant(tag@),
            InnerType::Null => InnerView::Null,
        }
    }
}

impl View for InnerType {
    type V = InnerView;

    open spec fn view(&self) -> InnerView {
        self.deep_view()
    }
}

/// How the variants of an enum carry their tag.
#[derive(Clone, Debug)]
pub enum EnumRepresentation {
    Default,
    Untagged,
    Internally(String),
    Adjacently(String, String),
}

/// The mathematical value of an [`EnumRepresentation`].
pub enum RepresentationView {
    Default,
    Untagged,
    Internally(Seq<char>),
    Adjacently(Seq<char>, Seq<char>),
}

impl DeepView for EnumRepresentation {
    type V = RepresentationView;

    open spec fn deep_view(&self) -> RepresentationView {
        match self {
            EnumRepresentation::Default => RepresentationView::Default,
            EnumRepresentation::Untagged => RepresentationView::Untagged,
            EnumRepresentation::Internally(tag) => RepresentationView::Internally(tag@),
            EnumRepresentation::Adjacently(tag, content) => RepresentationView::Adjacently(
                tag@,
                content@,
            ),
        }
    }
}

impl View for EnumRepresentation {
    type V = RepresentationView;

    open spec fn view(&self) -> RepresentationView {
        self.deep_view()
    }
}

/// The shape of a component.
#[derive(Clone, Debug)]
pub enum Type {
    Array(ComponentReference),
    Struct(InnerType),
    Enum(EnumRepresentation, Vec<(String, InnerType)>),
    Generic(ComponentReference, Vec<ComponentReference>),
    SimpleType(String),
    Any,
    Nothing,
}

/// The mathematical value of a [`Type`].
pub enum TypeView {
    Array(ReferenceView),
    Struct(InnerView),
    Enum(RepresentationView, Seq<(Seq<char>, InnerView)>),
    Generic(ReferenceView, Seq<ReferenceView>),
    SimpleType(Seq<char>),
    Any,
    Nothing,
}

impl DeepView for Type {
    type V = TypeView;

    open spec fn deep_view(&self) -> TypeView {
        match self {
            Type::Array(item) => TypeView::Array(item.deep_view()),
            Type::Struct(inner) => TypeView::Struct(inner.deep_view()),
            Type::Enum(repr, variants) => TypeView::Enum(repr.deep_view(), variants.deep_view()),
            Type::Generic(base, args) => TypeView::Generic(base.deep_view(), args.deep_view()),
            Type::SimpleType(name) => TypeView::SimpleType(name@),
            Type::Any => TypeView::Any,
            Type::Nothing => TypeView::Nothing,
        }
    }
}

impl View for Type {
    type V = TypeView;

    open spec fn view(&self) -> TypeView {
        self.deep_view()
    }
}

/// One emitted, or emittable, type: its name, its shape and its structural hash.
#[derive(Clone, Debug)]
pub struct Component {
    pub name: String,
    pub generics: String,
    pub typ: Type,
    pub hash: u64,
}

/// The mathematical value of a [`Component`].
pub struct ComponentView {
    pub name: Seq<char>,
    pub generics: Seq<char>,
    pub typ: TypeView,
    pub hash: u64,
}

impl DeepView for Component {
    type V = ComponentView;

    open spec fn deep_view(&self) -> ComponentView {
        ComponentView {
            name: self.name@,
            generics: self.generics@,
            typ: self.typ.deep_view(),
            hash: self.hash,
        }
    }
}

impl View for Component {
    type V = ComponentView;

    open spec fn view(&self) -> ComponentView {
        self.deep_view()
    }
}

/// The characters of a text that was produced, or the error that was met.
pub open spec fn text_result(r: Result<String, BuildError>) -> Result<Seq<char>, BuildError> {
    match r {
        Ok(s) => Ok(s@),
        Err(e) => Err(e),
    }
}

impl ComponentView {
    /// The component that stands for a type without a description.
    pub open spec fn any() -> ComponentView {
        ComponentView {
            name: "any"@,
            generics: Seq::empty(),
            typ: TypeView::Any,
            hash: name_hash("any"@),
        }
    }

    /// The name by which a declaration speaks of this component.
    ///
    /// A struct or an enum goes by its emitted name, a simple type by its
    /// own text. An array is `Array<..>` around the name of its items, a
    /// generic type goes by the name of its base; for these the references
    /// are followed, at most `depth` of them.
    pub open spec fn ts_name(self, reg: RegistryView, names: BuilderView, depth: nat) -> Result<
        Seq<char>,
        BuildError,
    >
        decreases depth,
    {
        match self.typ {
            TypeView::Array(item) => match reg.resolve(item.id) {
                None => Err(BuildError::UnresolvedHandle),
                Some(i) => if depth == 0 {
                    Err(BuildError::CyclicReference)
                } else {
                    match reg.components[i].ts_name(reg, names, (depth - 1) as nat) {
                        Ok(inner) => Ok("Array<"@ + inner + ">"@),
                        Err(e) => Err(e),
                    }
                },
            },
            TypeView::Struct(_) => Ok(names.emitted_name(self.name, self.hash)),
            TypeView::Enum(_, _) => Ok(names.emitted_name(self.name, self.hash)),
            TypeView::Generic(base, _) => match reg.resolve(base.id) {
                None => Err(BuildError::UnresolvedHandle),
                Some(i) => if depth == 0 {
                    Err(BuildError::CyclicReference)
                } else {
                    reg.components[i].ts_name(reg, names, (depth - 1) as nat)
                },
            },
            TypeView::SimpleType(name) => Ok(name),
            TypeView::Any => Ok("any"@),
            TypeView::Nothing => Ok("null"@),
        }
    }
}

/// The statement that adds one field of the query parameters to the query
/// string, if the field is set: once for a plain field, once per item for an array.
pub open spec fn field_query(is_array: bool, main: Seq<char>, field: Seq<char>) -> Seq<char> {
    if is_array {
        "\tif("@ + main + "?"@ + field + " != null) { "@ + main + field
            + ".forEach(val => __params.append('"@ + plain_field(field)
            + "', val.toString())); }"@
    } else {
        "\tif("@ + main + "?"@ + field + " != null) { __params.append('"@ + plain_field(field)
            + "', "@ + main + field + ".toString()) }"@
    }
}

/// The statements for the fields of an object from `from` on, after those in `done`.
pub open spec fn object_queries(
    reg: RegistryView,
    fields: Seq<(Seq<char>, ReferenceView)>,
    name: Seq<char>,
    from: int,
    done: Seq<Seq<char>>,
) -> Result<Seq<Seq<char>>, BuildError>
    decreases fields.len() - from,
{
    if from < 0 || from >= fields.len() {
        Ok(done)
    } else {
        match reg.resolve(fields[from].1.id) {
            None => Err(BuildError::UnresolvedHandle),
            Some(i) => object_queries(
                reg,
                fields,
                name,
                from + 1,
                done.push(
                    field_query(
                        reg.components[i].typ is Array,
                        name,
                        "."@ + fields[from].0,
                    ),
                ),
            ),
        }
    }
}

/// The statements for the items of a tuple from `from` on, after those in `done`.
pub open spec fn tuple_queries(
    reg: RegistryView,
    items: Seq<ReferenceView>,
    name: Seq<char>,
    from: int,
    done: Seq<Seq<char>>,
) -> Result<Seq<Seq<char>>, BuildError>
    decreases items.len() - from,
{
    if from < 0 || from >= items.len() {
        Ok(done)
    } else {
        match reg.resolve(items[from].id) {
            None => Err(BuildError::UnresolvedHandle),
            Some(i) => tuple_queries(
                reg,
                items,
                name,
                from + 1,
                done.push(
                    field_query(
                        reg.components[i].typ is Array,
                        name,
                        "["@ + decimal(from as nat) + "]"@,
                    ),
                ),
            ),
        }
    }
}

/// The statements for the variants of an enum from `from` on, after those in `done`.
pub open spec fn variant_queries(
    reg: RegistryView,
    variants: Seq<(Seq<char>, InnerView)>,
    name: Seq<char>,
    depth: nat,
    from: int,
    done: Seq<Seq<char>>,
) -> Result<Seq<Seq<char>>, BuildError>
    decreases depth, 1nat, variants.len() - from,
{
    if from < 0 || from >= variants.len() {
        Ok(done)
    } else {
        match variants[from].1.query_string(reg, name, depth) {
            Err(e) => Err(e),
            Ok(text) => variant_queries(reg, variants, name, depth, from + 1, done.push(text)),
        }
    }
}

impl InnerView {
    /// The statements that put a value of this payload into the query
    /// string: one line for each field of an object and each item of a
    /// tuple; a single unnamed field gives what its own type gives.
    pub open spec fn query_string(self, reg: RegistryView, name: Seq<char>, depth: nat) -> Result<
        Seq<char>,
        BuildError,
    >
        decreases depth, 0nat, 0nat,
    {
        match self {
            InnerView::Object(fields) => match object_queries(reg, fields, name, 0, Seq::empty()) {
                Ok(lines) => Ok(join_spec(lines, "\n"@)),
                Err(e) => Err(e),
            },
            InnerView::Tuple(items) => match tuple_queries(reg, items, name, 0, Seq::empty()) {
                Ok(lines) => Ok(join_spec(lines, "\n"@)),
                Err(e) => Err(e),
            },
            InnerView::NewType(inner) => match reg.resolve(inner.id) {
                None => Err(BuildError::UnresolvedHandle),
                Some(i) => if depth == 0 {
                    Err(BuildError::CyclicReference)
                } else {
                    reg.components[i].typ.query_string(reg, name, (depth - 1) as nat)
                },
            },
            _ => Ok(Seq::empty()),
        }
    }
}

impl TypeView {
    /// The statements that put a value of this type into the query string:
    /// those of the payload of a struct, those of each variant of an enum,
    /// none for any other type.
    pub open spec fn query_string(self, reg: RegistryView, name: Seq<char>, depth: nat) -> Result<
        Seq<char>,
        BuildError,
    >
        decreases depth, 2nat, 0nat,
    {
        match self {
            TypeView::Struct(inner) => inner.query_string(reg, name, depth),
            TypeView::Enum(_, variants) => match variant_queries(
                reg,
                variants,
                name,
                depth,
                0,
                Seq::empty(),
            ) {
                Ok(parts) => Ok(join_spec(parts, "\n"@)),
                Err(e) => Err(e),
            },
            _ => Ok(Seq::empty()),
        }
    }
}

impl Component {
    /// The component that stands for a type without a description.
    pub fn any() -> (component: Self)
        ensures
            component@ == ComponentView::any(),
    {
        Component {
            name: String::from_str("any"),
            generics: String::new(),
            typ: Type::Any,
            hash: hash_name("any"),
        }
    }

    /// The name by which a declaration speaks of this component when the
    /// builder has chosen the names: see [`ComponentView::ts_name`].
    pub fn emitted_ts_name(
        &self,
        registry: &GlobalTypeRegistry,
        builder: &TypeBuilder,
        depth: usize,
    ) -> (r: Result<String, BuildError>)
        ensures
            text_result(r) == self@.ts_name(registry@, builder@, depth as nat),
        decreases depth,
    {
        match &self.typ {
            Type::Array(item) => match registry.find(&item.id) {
                None => Err(BuildError::UnresolvedHandle),
                Some(inner) => {
                    if depth == 0 {
                        return Err(BuildError::CyclicReference);
                    }
                    match inner.emitted_ts_name(registry, builder, depth - 1) {
                        Ok(text) => {
                            let mut s = String::from_str("Array<");
                            s.append(text.as_str());
                            s.append(">");
                            Ok(s)
                        },
                        Err(e) => Err(e),
                    }
                },
            },
            Type::Struct(_) => Ok(builder.emitted_name(self.name.as_str(), self.hash)),
            Type::Enum(_, _) => Ok(builder.emitted_name(self.name.as_str(), self.hash)),
            Type::Generic(base, _) => match registry.find(&base.id) {
                None => Err(BuildError::UnresolvedHandle),
                Some(inner) => {
                    if depth == 0 {
                        return Err(BuildError::CyclicReference);
                    }
                    inner.emitted_ts_name(registry, builder, depth - 1)
                },
            },
            Type::SimpleType(name) => Ok(name.clone()),
            Type::Any => Ok(String::from_str("any")),
            Type::Nothing => Ok(String::from_str("null")),
        }
    }

    /// The name by which this component goes where no name has been
    /// changed, following at most as many references as the registry has components.
    pub fn get_ts_name(&self, registry: &GlobalTypeRegistry) -> (r: Result<String, BuildError>)
        ensures
            text_result(r) == self@.ts_name(
                registry@,
                BuilderView::empty(),
                registry@.components.len(),
            ),
    {
        let builder = TypeBuilder::new();
        let depth = registry.components().len();
        self.emitted_ts_name(registry, &builder, depth)
    }
}

impl Type {
    /// The statement that adds one field to the query string: see [`field_query`].
    pub fn build_inner_query_string(&self, main_name: &str, field_name: &str) -> (s: String)
        ensures
            s@ == field_query(self@ is Array, main_name@, field_name@),
    {
        let key = strip_field_marks(field_name);
        let mut s = String::from_str("\tif(");
        s.append(main_name);
        s.append("?");
        s.append(field_name);
        match self {
            Type::Array(_) => {
                s.append(" != null) { ");
                s.append(main_name);
                s.append(field_name);
                s.append(".forEach(val => __params.append('");
                s.append(key.as_str());
                s.append("', val.toString())); }");
            },
            _ => {
                s.append(" != null) { __params.append('");
                s.append(key.as_str());
                s.append("', ");
                s.append(main_name);
                s.append(field_name);
                s.append(".toString()) }");
            },
        }
        s
    }

    /// The statements that put a value of this type into the query string,
    /// following at most `depth` references: see [`TypeView::query_string`].
    pub fn query_string_within(&self, name: &str, registry: &GlobalTypeRegistry, depth: usize) -> (r:
        Result<String, BuildError>)
        ensures
            text_result(r) == self@.query_string(registry@, name@, depth as nat),
        decreases depth, 2nat, 0nat,
    {
        match self {
            Type::Struct(inner) => inner.query_string_within(name, registry, depth),
            Type::Enum(_, variants) => {
                let mut parts: Vec<String> = Vec::new();
                let mut i: usize = 0;
                assert(texts(parts@) =~= Seq::<Seq<char>>::empty());
                while i < variants.len()
                    invariant
                        i <= variants.len(),
                        self@ matches TypeView::Enum(_, vs) && vs == variants.deep_view(),
                        variant_queries(
                            registry@,
                            variants.deep_view(),
                            name@,
                            depth as nat,
                            0,
                            Seq::empty(),
                        ) == variant_queries(
                            registry@,
                            variants.deep_view(),
                            name@,
                            depth as nat,
                            i as int,
                            texts(parts@),
                        ),
                    decreases variants.len() - i,
                {
                    assert(variants.deep_view()[i as int].1 == variants[i as int].1@);
                    match variants[i].1.query_string_within(name, registry, depth) {
                        Err(e) => {
                            return Err(e);
                        },
                        Ok(text) => {
                            let ghost before = texts(parts@);
                            parts.push(text);
                            assert(texts(parts@) =~= before.push(text@));
                        },
                    }
                    i += 1;
                }
                Ok(join(&parts, "\n"))
            },
            _ => Ok(String::new()),
        }
    }

    /// The statements that put a value of this type into the query string.
    pub fn build_query_string(&self, name: &str, registry: &GlobalTypeRegistry) -> (r: Result<
        String,
        BuildError,
    >)
        ensures
            text_result(r) == self@.query_string(registry@, name@, registry@.components.len()),
    {
        let depth = registry.components().len();
        self.query_string_within(name, registry, depth)
    }
}

impl InnerType {
    /// The statements that put a value of this payload into the query
    /// string, following at most `depth` references: see [`InnerView::query_string`].
    pub fn query_string_within(&self, name: &str, registry: &GlobalTypeRegistry, depth: usize) -> (r:
        Result<String, BuildError>)
        ensures
            text_result(r) == self@.query_string(registry@, name@, depth as nat),
        decreases depth, 0nat, 0nat,
    {
        match self {
            InnerType::Object(fields) => {
                let mut lines: Vec<String> = Vec::new();
                let mut i: usize = 0;
                assert(texts(lines@) =~= Seq::<Seq<char>>::empty());
                while i < fields.len()
                    invariant
                        i <= fields.len(),
                        self@ matches InnerView::Object(fs) && fs == fields.deep_view(),
                        object_queries(registry@, fields.deep_view(), name@, 0, Seq::empty())
                            == object_queries(
                            registry@,
                            fields.deep_view(),
                            name@,
                            i as int,
                            texts(lines@),
                        ),
                    decreases fields.len() - i,
                {
                    assert(fields.deep_view()[i as int] == (fields[i as int].0@, fields[i as int].1@));
                    match registry.find(&fields[i].1.id) {
                        None => {
                            return Err(BuildError::UnresolvedHandle);
                        },
                        Some(sub) => {
                            let mut path = String::from_str(".");
                            path.append(fields[i].0.as_str());
                            let line = sub.typ.build_inner_query_string(name, path.as_str());
                            let ghost before = texts(lines@);
                            lines.push(line);
                            assert(texts(lines@) =~= before.push(line@));
                        },
                    }
                    i += 1;
                }
                Ok(join(&lines, "\n"))
            },
            InnerType::Tuple(items) => {
                let mut lines: Vec<String> = Vec::new();
                let mut i: usize = 0;
                assert(texts(lines@) =~= Seq::<Seq<char>>::empty());
                while i < items.len()
                    invariant
                        i <= items.len(),
                        self@ matches InnerView::Tuple(fs) && fs == items.deep_view(),
                        tuple_queries(registry@, items.deep_view(), name@, 0, Seq::empty())
                            == tuple_queries(
                            registry@,
                            items.deep_view(),
                            name@,
                            i as int,
                            texts(lines@),
                        ),
                    decreases items.len() - i,
                {
                    assert(items.deep_view()[i as int] == items[i as int]@);
                    match registry.find(&items[i].id) {
                        None => {
                            return Err(BuildError::UnresolvedHandle);
                        },
                        Some(sub) => {
                            let mut path = String::from_str("[");
                            path.append(decimal_string(i).as_str());
                            path.append("]");
                            let line = sub.typ.build_inner_query_string(name, path.as_str());
                            let ghost before = texts(lines@);
                            lines.push(line);
                            assert(texts(lines@) =~= before.push(line@));
                        },
                    }
                    i += 1;
                }
                Ok(join(&lines, "\n"))
            },
            InnerType::NewType(inner) => match registry.find(&inner.id) {
                None => Err(BuildError::UnresolvedHandle),
                Some(sub) => {
                    if depth == 0 {
                        return Err(BuildError::CyclicReference);
                    }
                    sub.typ.query_string_within(name, registry, depth - 1)
                },
            },
            _ => Ok(String::new()),
        }
    }

    /// The statements that put a value of this payload into the query string.
    pub fn inner_query_string_builder(&self, name: &str, registry: &GlobalTypeRegistry) -> (r:
        Result<String, BuildError>)
        ensures
            text_result(r) == self@.query_string(registry@, name@, registry@.components.len()),
    {
        let depth = registry.components().len();
        self.query_string_within(name, registry, depth)
    }

    /// The keyword with which a payload is declared.
    pub fn get_decl_type(&self) -> (keyword: &'static str)
        ensures
            keyword@ == "type"@,
    {
        "type"
    }
}

/// The mathematical value of a [`BuildTypeInfos`].
pub struct InfosView {
    pub name: Seq<char>,
    pub imports: Seq<Seq<char>>,
}

impl DeepView for BuildTypeInfos {
    type V = InfosView;

    open spec fn deep_view(&self) -> InfosView {
        InfosView { name: self.name@, imports: self.imports.deep_view() }
    }
}

impl View for BuildTypeInfos {
    type V = InfosView;

    open spec fn view(&self) -> InfosView {
        self.deep_view()
    }
}

/// The value of what a request for the infos of a reference answers.
pub open spec fn infos_result(r: Result<Option<BuildTypeInfos>, BuildError>) -> Result<
    Option<InfosView>,
    BuildError,
> {
    match r {
        Ok(Some(infos)) => Ok(Some(infos@)),
        Ok(None) => Ok(None),
        Err(e) => Err(e),
    }
}

/// The imports of the arguments of a generic type from `from` on, after those in `done`.
pub open spec fn args_imports(
    reg: RegistryView,
    names: BuilderView,
    args: Seq<ReferenceView>,
    depth: nat,
    from: int,
    done: Seq<Seq<char>>,
) -> Result<Seq<Seq<char>>, BuildError>
    decreases depth, 2nat, args.len() - from,
{
    if from < 0 || from >= args.len() {
        Ok(done)
    } else {
        match reg.resolve(args[from].id) {
            None => Err(BuildError::UnresolvedHandle),
            Some(i) => match reg.components[i].infos(reg, names, depth) {
                Err(e) => Err(e),
                Ok(Some(infos)) => args_imports(
                    reg,
                    names,
                    args,
                    depth,
                    from + 1,
                    done + infos.imports,
                ),
                Ok(None) => args_imports(reg, names, args, depth, from + 1, done),
            },
        }
    }
}

impl ComponentView {
    /// What a declaration that refers to this component needs: the name
    /// to write and the names to import; nothing for a type that is written
    /// in place.
    ///
    /// A struct or an enum is imported under its emitted name. An array
    /// needs what its items need. A generic type needs what its base needs,
    /// and the imports of its arguments. At most `depth` references are
    /// followed. The empty shape is admitted and refused: it has no
    /// declaration, and asking for one ends the build with `NoDeclaration`.
    pub open spec fn infos(self, reg: RegistryView, names: BuilderView, depth: nat) -> Result<
        Option<InfosView>,
        BuildError,
    >
        decreases depth, 1nat, 0nat,
    {
        match self.typ {
            TypeView::Struct(_) => Ok(Some(self.own_infos(names))),
            TypeView::Enum(_, _) => Ok(Some(self.own_infos(names))),
            TypeView::Generic(base, args) => match reg.resolve(base.id) {
                None => Err(BuildError::UnresolvedHandle),
                Some(i) => if depth == 0 {
                    Err(BuildError::CyclicReference)
                } else {
                    match reg.components[i].infos(reg, names, (depth - 1) as nat) {
                        Err(e) => Err(e),
                        Ok(None) => Err(BuildError::MissingBaseType),
                        Ok(Some(found)) => match args_imports(
                            reg,
                            names,
                            args,
                            (depth - 1) as nat,
                            0,
                            found.imports,
                        ) {
                            Err(e) => Err(e),
                            Ok(imports) => Ok(Some(InfosView { name: found.name, imports })),
                        },
                    }
                },
            },
            TypeView::Array(item) => match reg.resolve(item.id) {
                None => Err(BuildError::UnresolvedHandle),
                Some(i) => if depth == 0 {
                    Err(BuildError::CyclicReference)
                } else {
                    reg.components[i].infos(reg, names, (depth - 1) as nat)
                },
            },
            TypeView::SimpleType(_) => Ok(None),
            TypeView::Any => Ok(None),
            TypeView::Nothing => Err(BuildError::NoDeclaration),
        }
    }

    /// The infos of a component that has a file of its own.
    pub open spec fn own_infos(self, names: BuilderView) -> InfosView {
        InfosView {
            name: names.emitted_name(self.name, self.hash) + self.generics,
            imports: seq![names.emitted_name(self.name, self.hash)],
        }
    }
}

/// Adds copies of the texts in `more` at the end of `into`.
fn append_texts(into: &mut Vec<String>, more: &Vec<String>)
    ensures
        final(into).deep_view() == old(into).deep_view() + more.deep_view(),
{
    let mut i: usize = 0;
    assert(into.deep_view() =~= old(into).deep_view() + more.deep_view().take(0));
    while i < more.len()
        invariant
            i <= more.len(),
            into.deep_view() == old(into).deep_view() + more.deep_view().take(i as int),
        decreases more.len() - i,
    {
        let ghost before = into.deep_view();
        into.push(more[i].clone());
        assert(into.deep_view() =~= before.push(more[i as int]@));
        assert(into.deep_view() =~= old(into).deep_view() + more.deep_view().take(i + 1));
        i += 1;
    }
    assert(more.deep_view().take(more.len() as int) =~= more.deep_view());
}

impl Type {
    /// What a declaration that refers to a component of this shape and of
    /// the given name, generics and hash needs, following at most `depth`
    /// references: see [`ComponentView::infos`].
    pub fn infos_within(
        &self,
        name: &str,
        generics: &str,
        hash: u64,
        builder: &TypeBuilder,
        registry: &GlobalTypeRegistry,
        depth: usize,
    ) -> (r: Result<Option<BuildTypeInfos>, BuildError>)
        ensures
            infos_result(r) == (ComponentView {
                name: name@,
                generics: generics@,
                typ: self@,
                hash,
            }).infos(registry@, builder@, depth as nat),
        decreases depth,
    {
        match self {
            Type::Struct(_) => Ok(Some(own_infos(name, generics, hash, builder))),
            Type::Enum(_, _) => Ok(Some(own_infos(name, generics, hash, builder))),
            Type::Generic(base, args) => match registry.find(&base.id) {
                None => Err(BuildError::UnresolvedHandle),
                Some(found) => {
                    if depth == 0 {
                        return Err(BuildError::CyclicReference);
                    }
                    match found.typ.infos_within(
                        found.name.as_str(),
                        found.generics.as_str(),
                        found.hash,
                        builder,
                        registry,
                        depth - 1,
                    ) {
                        Err(e) => Err(e),
                        Ok(None) => Err(BuildError::MissingBaseType),
                        Ok(Some(infos)) => {
                            let mut infos = infos;
                            let ghost start = infos.imports.deep_view();
                            let ghost base_name = infos.name@;
                            let mut i: usize = 0;
                            while i < args.len()
                                invariant
                                    i <= args.len(),
                                    depth > 0,
                                    infos.name@ == base_name,
                                    self@ matches TypeView::Generic(b, xs) && b == base@ && xs
                                        == args.deep_view(),
                                    registry@.resolve(base@.id) matches Some(at)
                                        && registry@.components[at].infos(
                                        registry@,
                                        builder@,
                                        (depth - 1) as nat,
                                    ) == Ok::<Option<InfosView>, BuildError>(
                                        Some(InfosView { name: base_name, imports: start }),
                                    ),
                                    args_imports(
                                        registry@,
                                        builder@,
                                        args.deep_view(),
                                        (depth - 1) as nat,
                                        0,
                                        start,
                                    ) == args_imports(
                                        registry@,
                                        builder@,
                                        args.deep_view(),
                                        (depth - 1) as nat,
                                        i as int,
                                        infos.imports.deep_view(),
                                    ),
                                decreases args.len() - i,
                            {
                                assert(args.deep_view()[i as int] == args[i as int]@);
                                match registry.find(&args[i].id) {
                                    None => {
                                        return Err(BuildError::UnresolvedHandle);
                                    },
                                    Some(arg) => {
                                        match arg.typ.infos_within(
                                            arg.name.as_str(),
                                            arg.generics.as_str(),
                                            arg.hash,
                                            builder,
                                            registry,
                                            depth - 1,
                                        ) {
                                            Err(e) => {
                                                return Err(e);
                                            },
                                            Ok(Some(more)) => {
                                                append_texts(&mut infos.imports, &more.imports);
                                            },
                                            Ok(None) => {},
                                        }
                                    },
                                }
                                i += 1;
                            }
                            Ok(Some(infos))
                        },
                    }
                },
            },
            Type::Array(item) => match registry.find(&item.id) {
                None => Err(BuildError::UnresolvedHandle),
                Some(found) => {
                    if depth == 0 {
                        return Err(BuildError::CyclicReference);
                    }
                    found.typ.infos_within(
                        found.name.as_str(),
                        found.generics.as_str(),
                        found.hash,
                        builder,
                        registry,
                        depth - 1,
                    )
                },
            },
            Type::SimpleType(_) => Ok(None),
            Type::Any => Ok(None),
            Type::Nothing => Err(BuildError::NoDeclaration),
        }
    }

    /// What a declaration that refers to a component of this shape needs,
    /// following at most as many references as the registry has components.
    /// A simple type and `any` need nothing; the empty shape is an error.
    /// The builder is only read.
    pub fn build(
        &self,
        name: &str,
        generics: &str,
        hash: u64,
        builder: &TypeBuilder,
        registry: &GlobalTypeRegistry,
    ) -> (r: Result<Option<BuildTypeInfos>, BuildError>)
        ensures
            infos_result(r) == (ComponentView {
                name: name@,
                generics: generics@,
                typ: self@,
                hash,
            }).infos(registry@, builder@, registry@.components.len()),
    {
        let depth = registry.components().len();
        self.infos_within(name, generics, hash, builder, registry, depth)
    }
}

/// The infos of a component that has a file of its own.
fn own_infos(name: &str, generics: &str, hash: u64, builder: &TypeBuilder) -> (infos:
    BuildTypeInfos)
    ensures
        infos@ == (InfosView {
            name: builder@.emitted_name(name@, hash) + generics@,
            imports: seq![builder@.emitted_name(name@, hash)],
        }),
{
    let emitted = builder.emitted_name(name, hash);
    let mut full = emitted.clone();
    full.append(generics);
    let mut imports: Vec<String> = Vec::new();
    imports.push(emitted);
    assert(imports.deep_view() =~= seq![builder@.emitted_name(name@, hash)]);
    BuildTypeInfos { name: full, imports }
}

impl Component {
    /// What a declaration that refers to this component needs: see
    /// [`ComponentView::infos`].
    pub fn build(&self, builder: &TypeBuilder, registry: &GlobalTypeRegistry) -> (r: Result<
        Option<BuildTypeInfos>,
        BuildError,
    >)
        ensures
            infos_result(r) == self@.infos(registry@, builder@, registry@.components.len()),
    {
        self.typ.build(self.name.as_str(), self.generics.as_str(), self.hash, builder, registry)
    }
}

/// Whether a name is among the imports.
pub open spec fn has_import(imports: Seq<(Seq<char>, Option<Seq<char>>)>, name: Seq<char>) -> bool {
    exists|i: int| 0 <= i < imports.len() && (#[trigger] imports[i]).0 == name
}

/// The imports with one more entry, unless its name is imported already.
pub open spec fn add_import(
    imports: Seq<(Seq<char>, Option<Seq<char>>)>,
    entry: (Seq<char>, Option<Seq<char>>),
) -> Seq<(Seq<char>, Option<Seq<char>>)> {
    if has_import(imports, entry.0) {
        imports
    } else {
        imports.push(entry)
    }
}

/// The imports with the names from `from` on added, each once.
pub open spec fn add_imports(
    imports: Seq<(Seq<char>, Option<Seq<char>>)>,
    names: Seq<Seq<char>>,
    from: int,
) -> Seq<(Seq<char>, Option<Seq<char>>)>
    decreases names.len() - from,
{
    if from < 0 || from >= names.len() {
        imports
    } else {
        add_imports(add_import(imports, (names[from], None)), names, from + 1)
    }
}

/// The imports with the entries of `more` from `from` on added, each name once.
pub open spec fn merge_imports(
    imports: Seq<(Seq<char>, Option<Seq<char>>)>,
    more: Seq<(Seq<char>, Option<Seq<char>>)>,
    from: int,
) -> Seq<(Seq<char>, Option<Seq<char>>)>
    decreases more.len() - from,
{
    if from < 0 || from >= more.len() {
        imports
    } else {
        merge_imports(add_import(imports, more[from]), more, from + 1)
    }
}

/// Adding an import keeps the names of the imports distinct.
pub proof fn lemma_add_import_distinct(
    imports: Seq<(Seq<char>, Option<Seq<char>>)>,
    entry: (Seq<char>, Option<Seq<char>>),
)
    requires
        distinct_imports(imports),
    ensures
        distinct_imports(add_import(imports, entry)),
{
    if !has_import(imports, entry.0) {
        let after = imports.push(entry);
        assert forall|i: int, j: int| 0 <= i < j < after.len() implies after[i].0 != after[j].0 by {
            assert(after[i] == imports[i]);
            if j < imports.len() {
                assert(after[j] == imports[j]);
            }
        }
    }
}

/// Adding imports by name keeps the names of the imports distinct.
pub proof fn lemma_add_imports_distinct(
    imports: Seq<(Seq<char>, Option<Seq<char>>)>,
    names: Seq<Seq<char>>,
    from: int,
)
    requires
        distinct_imports(imports),
    ensures
        distinct_imports(add_imports(imports, names, from)),
    decreases names.len() - from,
{
    if 0 <= from < names.len() {
        lemma_add_import_distinct(imports, (names[from], None));
        lemma_add_imports_distinct(add_import(imports, (names[from], None)), names, from + 1);
    }
}

/// Merging imports keeps the names of the imports distinct.
pub proof fn lemma_merge_imports_distinct(
    imports: Seq<(Seq<char>, Option<Seq<char>>)>,
    more: Seq<(Seq<char>, Option<Seq<char>>)>,
    from: int,
)
    requires
        distinct_imports(imports),
    ensures
        distinct_imports(merge_imports(imports, more, from)),
    decreases more.len() - from,
{
    if 0 <= from < more.len() {
        lemma_add_import_distinct(imports, more[from]);
        lemma_merge_imports_distinct(add_import(imports, more[from]), more, from + 1);
    }
}

/// Whether an alias is declared.
pub open spec fn has_alias(declarations: Seq<(Seq<char>, Seq<char>)>, alias: Seq<char>) -> bool {
    exists|i: int| 0 <= i < declarations.len() && (#[trigger] declarations[i]).0 == alias
}

/// Whether a type is written in place where it is used, and so has no file of its own.
pub open spec fn is_inline(typ: TypeView) -> bool {
    typ is Array || typ is SimpleType || typ is Any || typ is Nothing
}

/// The declaration of a local alias.
pub open spec fn alias_text(alias: Seq<char>, target: Seq<char>) -> Seq<char> {
    "type "@ + alias + " = "@ + target + ";"@
}

/// The alias declarations after a reference has been seen: a reference
/// that renames a type written in place declares the alias, once.
pub open spec fn with_alias(
    declarations: Seq<(Seq<char>, Seq<char>)>,
    typ: TypeView,
    renamed: Option<Seq<char>>,
    target: Seq<char>,
) -> Seq<(Seq<char>, Seq<char>)> {
    match renamed {
        Some(alias) => if !has_alias(declarations, alias) && is_inline(typ) {
            declarations.push((alias, alias_text(alias, target)))
        } else {
            declarations
        },
        None => declarations,
    }
}

/// The texts with one more, unless it is among them.
pub open spec fn add_text(all: Seq<Seq<char>>, text: Seq<char>) -> Seq<Seq<char>> {
    if all.contains(text) {
        all
    } else {
        all.push(text)
    }
}

/// The texts with those of the alias declarations from `from` on added, each once.
pub open spec fn add_definitions(
    all: Seq<Seq<char>>,
    declarations: Seq<(Seq<char>, Seq<char>)>,
    from: int,
) -> Seq<Seq<char>>
    decreases declarations.len() - from,
{
    if from < 0 || from >= declarations.len() {
        all
    } else {
        add_definitions(add_text(all, declarations[from].1), declarations, from + 1)
    }
}

/// Adding the texts of alias declarations keeps the texts distinct.
pub proof fn lemma_add_definitions_distinct(
    all: Seq<Seq<char>>,
    declarations: Seq<(Seq<char>, Seq<char>)>,
    from: int,
)
    requires
        distinct_texts(all),
    ensures
        distinct_texts(add_definitions(all, declarations, from)),
    decreases declarations.len() - from,
{
    if 0 <= from < declarations.len() {
        let text = declarations[from].1;
        let next = add_text(all, text);
        if !all.contains(text) {
            assert forall|i: int, j: int| 0 <= i < j < next.len() implies next[i] != next[j] by {
                assert(next[i] == all[i]);
                if j < all.len() {
                    assert(next[j] == all[j]);
                } else {
                    assert(all.contains(all[i]));
                }
            }
        }
        lemma_add_definitions_distinct(next, declarations, from + 1);
    }
}

/// What one reference of a payload contributes: the text that stands for
/// it, and the imports and alias declarations after it.
pub struct StepView {
    pub value: Seq<char>,
    pub imports: Seq<(Seq<char>, Option<Seq<char>>)>,
    pub declarations: Seq<(Seq<char>, Seq<char>)>,
}

/// Renders one reference: the referenced component is imported where it
/// has a file, an alias is declared where the reference renames a type
/// written in place, and the text is the alias, else the name of the component.
pub open spec fn reference_step(
    reg: RegistryView,
    names: BuilderView,
    r: ReferenceView,
    depth: nat,
    imports: Seq<(Seq<char>, Option<Seq<char>>)>,
    declarations: Seq<(Seq<char>, Seq<char>)>,
) -> Result<StepView, BuildError> {
    match reg.resolve(r.id) {
        None => Err(BuildError::UnresolvedHandle),
        Some(i) => match reg.components[i].infos(reg, names, depth) {
            Err(e) => Err(e),
            Ok(found) => match reg.components[i].ts_name(reg, names, depth) {
                Err(e) => Err(e),
                Ok(target) => Ok(
                    StepView {
                        value: match r.renamed {
                            Some(alias) => alias,
                            None => target,
                        },
                        imports: match found {
                            Some(infos) => add_imports(imports, infos.imports, 0),
                            None => imports,
                        },
                        declarations: with_alias(
                            declarations,
                            reg.components[i].typ,
                            r.renamed,
                            target,
                        ),
                    },
                ),
            },
        },
    }
}

/// The entries of a payload that have been rendered, with the imports and
/// alias declarations they need.
pub struct FieldsView {
    pub entries: Seq<Seq<char>>,
    pub imports: Seq<(Seq<char>, Option<Seq<char>>)>,
    pub declarations: Seq<(Seq<char>, Seq<char>)>,
}

/// The fields of an object from `from` on, rendered after `state`.
pub open spec fn object_fields(
    reg: RegistryView,
    names: BuilderView,
    fields: Seq<(Seq<char>, ReferenceView)>,
    depth: nat,
    from: int,
    state: FieldsView,
) -> Result<FieldsView, BuildError>
    decreases fields.len() - from,
{
    if from < 0 || from >= fields.len() {
        Ok(state)
    } else {
        match reference_step(reg, names, fields[from].1, depth, state.imports, state.declarations) {
            Err(e) => Err(e),
            Ok(step) => object_fields(
                reg,
                names,
                fields,
                depth,
                from + 1,
                FieldsView {
                    entries: state.entries.push("\n\t"@ + fields[from].0 + ": "@ + step.value),
                    imports: step.imports,
                    declarations: step.declarations,
                },
            ),
        }
    }
}

/// The items of a tuple from `from` on, rendered after `state`.
pub open spec fn tuple_items(
    reg: RegistryView,
    names: BuilderView,
    items: Seq<ReferenceView>,
    depth: nat,
    from: int,
    state: FieldsView,
) -> Result<FieldsView, BuildError>
    decreases items.len() - from,
{
    if from < 0 || from >= items.len() {
        Ok(state)
    } else {
        match reference_step(reg, names, items[from], depth, state.imports, state.declarations) {
            Err(e) => Err(e),
            Ok(step) => tuple_items(
                reg,
                names,
                items,
                depth,
                from + 1,
                FieldsView {
                    entries: state.entries.push(" "@ + step.value),
                    imports: step.imports,
                    declarations: step.declarations,
                },
            ),
        }
    }
}

/// Rendering the fields of an object keeps the names of the imports distinct.
pub proof fn lemma_object_fields_distinct(
    reg: RegistryView,
    names: BuilderView,
    fields: Seq<(Seq<char>, ReferenceView)>,
    depth: nat,
    from: int,
    state: FieldsView,
)
    requires
        distinct_imports(state.imports),
    ensures
        object_fields(reg, names, fields, depth, from, state) matches Ok(done)
            ==> distinct_imports(done.imports),
    decreases fields.len() - from,
{
    if 0 <= from < fields.len() {
        match reference_step(reg, names, fields[from].1, depth, state.imports, state.declarations) {
            Err(_) => {},
            Ok(step) => {
                lemma_reference_step_distinct(
                    reg,
                    names,
                    fields[from].1,
                    depth,
                    state.imports,
                    state.declarations,
                );
                lemma_object_fields_distinct(
                    reg,
                    names,
                    fields,
                    depth,
                    from + 1,
                    FieldsView {
                        entries: state.entries.push("\n\t"@ + fields[from].0 + ": "@ + step.value),
                        imports: step.imports,
                        declarations: step.declarations,
                    },
                );
            },
        }
    }
}

/// Rendering the items of a tuple keeps the names of the imports distinct.
pub proof fn lemma_tuple_items_distinct(
    reg: RegistryView,
    names: BuilderView,
    items: Seq<ReferenceView>,
    depth: nat,
    from: int,
    state: FieldsView,
)
    requires
        distinct_imports(state.imports),
    ensures
        tuple_items(reg, names, items, depth, from, state) matches Ok(done) ==> distinct_imports(
            done.imports,
        ),
    decreases items.len() - from,
{
    if 0 <= from < items.len() {
        match reference_step(reg, names, items[from], depth, state.imports, state.declarations) {
            Err(_) => {},
            Ok(step) => {
                lemma_reference_step_distinct(
                    reg,
                    names,
                    items[from],
                    depth,
                    state.imports,
                    state.declarations,
                );
                lemma_tuple_items_distinct(
                    reg,
                    names,
                    items,
                    depth,
                    from + 1,
                    FieldsView {
                        entries: state.entries.push(" "@ + step.value),
                        imports: step.imports,
                        declarations: step.declarations,
                    },
                );
            },
        }
    }
}

/// Rendering one reference keeps the names of the imports distinct.
pub proof fn lemma_reference_step_distinct(
    reg: RegistryView,
    names: BuilderView,
    r: ReferenceView,
    depth: nat,
    imports: Seq<(Seq<char>, Option<Seq<char>>)>,
    declarations: Seq<(Seq<char>, Seq<char>)>,
)
    requires
        distinct_imports(imports),
    ensures
        reference_step(reg, names, r, depth, imports, declarations) matches Ok(step)
            ==> distinct_imports(step.imports),
{
    match reg.resolve(r.id) {
        None => {},
        Some(i) => match reg.components[i].infos(reg, names, depth) {
            Err(_) => {},
            Ok(found) => match found {
                Some(infos) => {
                    lemma_add_imports_distinct(imports, infos.imports, 0);
                },
                None => {},
            },
        },
    }
}

/// Whether a variant is rendered under an internal tag.
pub open spec fn is_internal(repr: Option<(RepresentationView, Seq<char>)>) -> bool {
    repr matches Some((RepresentationView::Internally(_), _))
}

/// The payload of a variant inside the wrapper of its representation:
/// under the name of the variant by default, beside the quoted name of the
/// variant where the tag is adjacent, as it is otherwise.
pub open spec fn wrapped(repr: Option<(RepresentationView, Seq<char>)>, payload: Seq<char>) -> Seq<
    char,
> {
    match repr {
        Some((RepresentationView::Adjacently(tag, content), variant)) => "{\n\t"@ + tag
            + ": \""@ + variant + "\";\n\t"@ + content + ": "@ + payload + "\n}"@,
        Some((RepresentationView::Default, variant)) => "{\n\t"@ + variant + ": "@ + payload
            + "\n}"@,
        _ => payload,
    }
}

/// The entries with which the fields of an object start: the tag of an
/// internally tagged variant, else none.
pub open spec fn tag_entry(repr: Option<(RepresentationView, Seq<char>)>) -> Seq<Seq<char>> {
    match repr {
        Some((RepresentationView::Internally(tag), variant)) => seq![
            "\n\t"@ + tag + ": "@ + variant,
        ],
        _ => Seq::empty(),
    }
}

/// A unit variant: its tag as a string literal, or the object that holds
/// nothing but the quoted name of the variant where the tag is adjacent.
pub open spec fn unit_text(repr: Option<(RepresentationView, Seq<char>)>, tag: Seq<char>) -> Seq<
    char,
> {
    match repr {
        Some((RepresentationView::Adjacently(field, _), variant)) => "{\n\t"@ + field
            + ": \""@ + variant + "\"\n}"@,
        _ => "\""@ + tag + "\""@,
    }
}

/// The mathematical value of a [`Rendered`].
pub struct RenderedView {
    pub text: Seq<char>,
    pub imports: Seq<(Seq<char>, Option<Seq<char>>)>,
    pub declarations: Seq<(Seq<char>, Seq<char>)>,
}

impl InnerView {
    /// The text of this payload with what it imports and the aliases it declares.
    ///
    /// An object is its fields between braces, one to a line, with
    /// semicolons between; the tag of an internally tagged variant is its
    /// first field. A tuple is its items between square brackets. A single
    /// unnamed field is the text of its reference. Objects, tuples and
    /// single fields are put into the wrapper of the representation. A unit
    /// variant is its tag as a string literal, or under an adjacent tag the
    /// object of the tag field alone. A
    /// payload other than an object or a unit under an internal tag is an error.
    pub open spec fn render(
        self,
        reg: RegistryView,
        names: BuilderView,
        repr: Option<(RepresentationView, Seq<char>)>,
        depth: nat,
    ) -> Result<RenderedView, BuildError> {
        match self {
            InnerView::Object(fields) => match object_fields(
                reg,
                names,
                fields,
                depth,
                0,
                FieldsView {
                    entries: tag_entry(repr),
                    imports: Seq::empty(),
                    declarations: Seq::empty(),
                },
            ) {
                Err(e) => Err(e),
                Ok(state) => Ok(
                    RenderedView {
                        text: wrapped(repr, "{"@ + join_spec(state.entries, ";"@) + "\n}"@),
                        imports: state.imports,
                        declarations: state.declarations,
                    },
                ),
            },
            InnerView::Tuple(items) => if is_internal(repr) {
                Err(BuildError::InternalTagOnNonObject)
            } else {
                match tuple_items(
                    reg,
                    names,
                    items,
                    depth,
                    0,
                    FieldsView {
                        entries: Seq::empty(),
                        imports: Seq::empty(),
                        declarations: Seq::empty(),
                    },
                ) {
                    Err(e) => Err(e),
                    Ok(state) => Ok(
                        RenderedView {
                            text: wrapped(repr, "["@ + join_spec(state.entries, ","@) + "]"@),
                            imports: state.imports,
                            declarations: state.declarations,
                        },
                    ),
                }
            },
            InnerView::NewType(inner) => if is_internal(repr) {
                Err(BuildError::InternalTagOnNonObject)
            } else {
                match reference_step(reg, names, inner, depth, Seq::empty(), Seq::empty()) {
                    Err(e) => Err(e),
                    Ok(step) => Ok(
                        RenderedView {
                            text: wrapped(repr, step.value),
                            imports: step.imports,
                            declarations: step.declarations,
                        },
                    ),
                }
            },
            InnerView::SimpleVariant(tag) => Ok(
                RenderedView {
                    text: unit_text(repr, tag),
                    imports: Seq::empty(),
                    declarations: Seq::empty(),
                },
            ),
            InnerView::Null => if is_internal(repr) {
                Err(BuildError::InternalTagOnNonObject)
            } else {
                Ok(
                    RenderedView {
                        text: "null"@,
                        imports: Seq::empty(),
                        declarations: Seq::empty(),
                    },
                )
            },
        }
    }
}

/// No payload imports a name twice.
pub proof fn lemma_render_distinct(
    inner: InnerView,
    reg: RegistryView,
    names: BuilderView,
    repr: Option<(RepresentationView, Seq<char>)>,
    depth: nat,
)
    ensures
        inner.render(reg, names, repr, depth) matches Ok(rendered) ==> distinct_imports(
            rendered.imports,
        ),
{
    let start = FieldsView {
        entries: Seq::empty(),
        imports: Seq::empty(),
        declarations: Seq::empty(),
    };
    match inner {
        InnerView::Object(fields) => {
            lemma_object_fields_distinct(
                reg,
                names,
                fields,
                depth,
                0,
                FieldsView {
                    entries: tag_entry(repr),
                    imports: Seq::empty(),
                    declarations: Seq::empty(),
                },
            );
        },
        InnerView::Tuple(items) => {
            lemma_tuple_items_distinct(reg, names, items, depth, 0, start);
        },
        InnerView::NewType(r) => {
            lemma_reference_step_distinct(reg, names, r, depth, Seq::empty(), Seq::empty());
        },
        _ => {},
    }
}

/// A rendered payload: its text, the names it imports and the aliases it declares.
pub struct Rendered {
    pub text: String,
    pub imports: Vec<(String, Option<String>)>,
    pub declarations: Vec<(String, String)>,
}

impl DeepView for Rendered {
    type V = RenderedView;

    open spec fn deep_view(&self) -> RenderedView {
        RenderedView {
            text: self.text@,
            imports: self.imports.deep_view(),
            declarations: self.declarations.deep_view(),
        }
    }
}

impl View for Rendered {
    type V = RenderedView;

    open spec fn view(&self) -> RenderedView {
        self.deep_view()
    }
}

/// The value of a rendered payload, or the error that was met.
pub open spec fn rendered_result(r: Result<Rendered, BuildError>) -> Result<RenderedView, BuildError> {
    match r {
        Ok(rendered) => Ok(rendered@),
        Err(e) => Err(e),
    }
}

/// The value of the representation under which a variant is rendered.
pub open spec fn repr_view(repr: Option<(&EnumRepresentation, &str)>) -> Option<
    (RepresentationView, Seq<char>),
> {
    match repr {
        Some((representation, variant)) => Some((representation@, variant@)),
        None => None,
    }
}

fn holds_import(imports: &Vec<(String, Option<String>)>, name: &String) -> (found: bool)
    ensures
        found == has_import(imports.deep_view(), name@),
{
    let mut i: usize = 0;
    while i < imports.len()
        invariant
            i <= imports.len(),
            forall|j: int| 0 <= j < i ==> (#[trigger] imports.deep_view()[j]).0 != name@,
        decreases imports.len() - i,
    {
        if imports[i].0 == *name {
            assert(imports.deep_view()[i as int].0 == name@);
            return true;
        }
        assert(imports.deep_view()[i as int].0 != name@);
        i += 1;
    }
    false
}

fn put_import(imports: &mut Vec<(String, Option<String>)>, entry: (String, Option<String>))
    ensures
        final(imports).deep_view() == add_import(old(imports).deep_view(), entry.deep_view()),
{
    if !holds_import(imports, &entry.0) {
        let ghost before = imports.deep_view();
        imports.push(entry);
        assert(imports.deep_view() =~= before.push(entry.deep_view()));
    }
}

fn put_imports(imports: &mut Vec<(String, Option<String>)>, names: &Vec<String>)
    ensures
        final(imports).deep_view() == add_imports(old(imports).deep_view(), names.deep_view(), 0),
{
    let mut i: usize = 0;
    while i < names.len()
        invariant
            i <= names.len(),
            add_imports(old(imports).deep_view(), names.deep_view(), 0) == add_imports(
                imports.deep_view(),
                names.deep_view(),
                i as int,
            ),
        decreases names.len() - i,
    {
        assert(names.deep_view()[i as int] == names[i as int]@);
        put_import(imports, (names[i].clone(), None));
        i += 1;
    }
}

fn merge_into(imports: &mut Vec<(String, Option<String>)>, more: &Vec<(String, Option<String>)>)
    ensures
        final(imports).deep_view() == merge_imports(
            old(imports).deep_view(),
            more.deep_view(),
            0,
        ),
{
    let mut i: usize = 0;
    while i < more.len()
        invariant
            i <= more.len(),
            merge_imports(old(imports).deep_view(), more.deep_view(), 0) == merge_imports(
                imports.deep_view(),
                more.deep_view(),
                i as int,
            ),
        decreases more.len() - i,
    {
        assert(more.deep_view()[i as int] == more[i as int].deep_view());
        let renamed = match &more[i].1 {
            Some(alias) => Some(alias.clone()),
            None => None,
        };
        put_import(imports, (more[i].0.clone(), renamed));
        i += 1;
    }
}

fn holds_alias(declarations: &Vec<(String, String)>, alias: &String) -> (found: bool)
    ensures
        found == has_alias(declarations.deep_view(), alias@),
{
    let mut i: usize = 0;
    while i < declarations.len()
        invariant
            i <= declarations.len(),
            forall|j: int| 0 <= j < i ==> (#[trigger] declarations.deep_view()[j]).0 != alias@,
        decreases declarations.len() - i,
    {
        if declarations[i].0 == *alias {
            assert(declarations.deep_view()[i as int].0 == alias@);
            return true;
        }
        assert(declarations.deep_view()[i as int].0 != alias@);
        i += 1;
    }
    false
}

fn put_text(all: &mut Vec<String>, text: String)
    ensures
        final(all).deep_view() == add_text(old(all).deep_view(), text@),
{
    let mut i: usize = 0;
    while i < all.len()
        invariant
            i <= all.len(),
            all == old(all),
            forall|j: int| 0 <= j < i ==> (#[trigger] all.deep_view()[j]) != text@,
        decreases all.len() - i,
    {
        if all[i] == text {
            assert(all.deep_view()[i as int] == text@);
            return ;
        }
        assert(all.deep_view()[i as int] != text@);
        i += 1;
    }
    let ghost before = all.deep_view();
    all.push(text);
    assert(all.deep_view() =~= before.push(text@));
}

fn put_definitions(all: &mut Vec<String>, declarations: &Vec<(String, String)>)
    ensures
        final(all).deep_view() == add_definitions(
            old(all).deep_view(),
            declarations.deep_view(),
            0,
        ),
{
    let mut i: usize = 0;
    while i < declarations.len()
        invariant
            i <= declarations.len(),
            add_definitions(old(all).deep_view(), declarations.deep_view(), 0) == add_definitions(
                all.deep_view(),
                declarations.deep_view(),
                i as int,
            ),
        decreases declarations.len() - i,
    {
        assert(declarations.deep_view()[i as int] == declarations[i as int].deep_view());
        put_text(all, declarations[i].1.clone());
        i += 1;
    }
}

/// Renders one reference: see [`reference_step`].
fn step(
    r: &ComponentReference,
    builder: &TypeBuilder,
    registry: &GlobalTypeRegistry,
    depth: usize,
    imports: &mut Vec<(String, Option<String>)>,
    declarations: &mut Vec<(String, String)>,
) -> (res: Result<String, BuildError>)
    ensures
        match reference_step(
            registry@,
            builder@,
            r@,
            depth as nat,
            old(imports).deep_view(),
            old(declarations).deep_view(),
        ) {
            Ok(step) => res.is_ok() && res.unwrap()@ == step.value && final(imports).deep_view()
                == step.imports && final(declarations).deep_view() == step.declarations,
            Err(e) => res == Err::<String, BuildError>(e),
        },
{
    match registry.find(&r.id) {
        None => Err(BuildError::UnresolvedHandle),
        Some(sub) => {
            let found = match sub.typ.infos_within(
                sub.name.as_str(),
                sub.generics.as_str(),
                sub.hash,
                builder,
                registry,
                depth,
            ) {
                Err(e) => {
                    return Err(e);
                },
                Ok(found) => found,
            };
            let target = match sub.emitted_ts_name(registry, builder, depth) {
                Err(e) => {
                    return Err(e);
                },
                Ok(target) => target,
            };
            match found {
                Some(infos) => {
                    put_imports(imports, &infos.imports);
                },
                None => {},
            }
            update_declarations(declarations, sub, &r.renamed, target.as_str());
            match &r.renamed {
                Some(alias) => Ok(alias.clone()),
                None => Ok(target),
            }
        },
    }
}

/// Declares the alias of a reference that renames a type written in
/// place, unless the alias is declared: see [`with_alias`].
fn update_declarations(
    declarations: &mut Vec<(String, String)>,
    subcomponent: &Component,
    renamed: &Option<String>,
    target: &str,
)
    ensures
        final(declarations).deep_view() == with_alias(
            old(declarations).deep_view(),
            subcomponent@.typ,
            renamed.deep_view(),
            target@,
        ),
{
    match renamed {
        Some(alias) => {
            if holds_alias(declarations, alias) {
                return ;
            }
            match subcomponent.typ {
                Type::Array(_) | Type::SimpleType(_) | Type::Any | Type::Nothing => {
                    let mut text = String::from_str("type ");
                    text.append(alias.as_str());
                    text.append(" = ");
                    text.append(target);
                    text.append(";");
                    let ghost before = declarations.deep_view();
                    declarations.push((alias.clone(), text));
                    assert(declarations.deep_view() =~= before.push((alias@, text@)));
                },
                Type::Struct(_) | Type::Generic(_, _) | Type::Enum(_, _) => {},
            }
        },
        None => {},
    }
}

/// Puts a payload into the wrapper of its representation: see [`wrapped`].
fn wrap(repr: Option<(&EnumRepresentation, &str)>, payload: String) -> (s: String)
    ensures
        s@ == wrapped(repr_view(repr), payload@),
{
    match repr {
        Some((representation, variant)) => match representation {
            EnumRepresentation::Adjacently(tag, content) => {
                let mut s = String::from_str("{\n\t");
                s.append(tag.as_str());
                s.append(": \"");
                s.append(variant);
                s.append("\";\n\t");
                s.append(content.as_str());
                s.append(": ");
                s.append(payload.as_str());
                s.append("\n}");
                s
            },
            EnumRepresentation::Default => {
                let mut s = String::from_str("{\n\t");
                s.append(variant);
                s.append(": ");
                s.append(payload.as_str());
                s.append("\n}");
                s
            },
            _ => payload,
        },
        None => payload,
    }
}

/// A tag as a string literal.
fn quoted(tag: &String) -> (s: String)
    ensures
        s@ == "\""@ + tag@ + "\""@,
{
    let mut s = String::from_str("\"");
    s.append(tag.as_str());
    s.append("\"");
    s
}

/// Whether a variant is rendered under an internal tag.
fn internal(repr: Option<(&EnumRepresentation, &str)>) -> (r: bool)
    ensures
        r == is_internal(repr_view(repr)),
{
    match repr {
        Some((representation, _)) => match representation {
            EnumRepresentation::Internally(_) => true,
            _ => false,
        },
        None => false,
    }
}

impl InnerType {
    /// Renders this payload, following at most as many references as the
    /// registry has components: see [`InnerView::render`].
    pub fn build(
        &self,
        builder: &TypeBuilder,
        registry: &GlobalTypeRegistry,
        repr: Option<(&EnumRepresentation, &str)>,
    ) -> (r: Result<Rendered, BuildError>)
        ensures
            rendered_result(r) == self@.render(
                registry@,
                builder@,
                repr_view(repr),
                registry@.components.len(),
            ),
            r matches Ok(rendered) ==> distinct_imports(rendered@.imports),
    {
        proof {
            lemma_render_distinct(
                self@,
                registry@,
                builder@,
                repr_view(repr),
                registry@.components.len(),
            );
        }
        let depth = registry.components().len();
        let mut imports: Vec<(String, Option<String>)> = Vec::new();
        let mut declarations: Vec<(String, String)> = Vec::new();
        assert(imports.deep_view() =~= Seq::empty());
        assert(declarations.deep_view() =~= Seq::empty());
        match self {
            InnerType::Object(fields) => {
                let mut entries: Vec<String> = Vec::new();
                assert(texts(entries@) =~= Seq::<Seq<char>>::empty());
                match repr {
                    Some((representation, variant)) => match representation {
                        EnumRepresentation::Internally(tag) => {
                            let mut entry = String::from_str("\n\t");
                            entry.append(tag.as_str());
                            entry.append(": ");
                            entry.append(variant);
                            entries.push(entry);
                            assert(texts(entries@) =~= seq![entry@]);
                        },
                        _ => {},
                    },
                    None => {},
                }
                assert(texts(entries@) == tag_entry(repr_view(repr)));
                let ghost start = FieldsView {
                    entries: tag_entry(repr_view(repr)),
                    imports: Seq::empty(),
                    declarations: Seq::empty(),
                };
                let mut i: usize = 0;
                while i < fields.len()
                    invariant
                        i <= fields.len(),
                        depth == registry@.components.len(),
                        self@ matches InnerView::Object(fs) && fs == fields.deep_view(),
                        start == (FieldsView {
                            entries: tag_entry(repr_view(repr)),
                            imports: Seq::empty(),
                            declarations: Seq::empty(),
                        }),
                        object_fields(
                            registry@,
                            builder@,
                            fields.deep_view(),
                            depth as nat,
                            0,
                            start,
                        ) == object_fields(
                            registry@,
                            builder@,
                            fields.deep_view(),
                            depth as nat,
                            i as int,
                            FieldsView {
                                entries: texts(entries@),
                                imports: imports.deep_view(),
                                declarations: declarations.deep_view(),
                            },
                        ),
                    decreases fields.len() - i,
                {
                    assert(fields.deep_view()[i as int] == (fields[i as int].0@, fields[i as int].1@));
                    match step(
                        &fields[i].1,
                        builder,
                        registry,
                        depth,
                        &mut imports,
                        &mut declarations,
                    ) {
                        Err(e) => {
                            return Err(e);
                        },
                        Ok(value) => {
                            let mut entry = String::from_str("\n\t");
                            entry.append(fields[i].0.as_str());
                            entry.append(": ");
                            entry.append(value.as_str());
                            let ghost before = texts(entries@);
                            entries.push(entry);
                            assert(texts(entries@) =~= before.push(entry@));
                        },
                    }
                    i += 1;
                }
                let mut text = String::from_str("{");
                text.append(join(&entries, ";").as_str());
                text.append("\n}");
                Ok(Rendered { text: wrap(repr, text), imports, declarations })
            },
            InnerType::Tuple(items) => {
                if internal(repr) {
                    return Err(BuildError::InternalTagOnNonObject);
                }
                let mut entries: Vec<String> = Vec::new();
                assert(texts(entries@) =~= Seq::<Seq<char>>::empty());
                let ghost start = FieldsView {
                    entries: Seq::empty(),
                    imports: Seq::empty(),
                    declarations: Seq::empty(),
                };
                let mut i: usize = 0;
                while i < items.len()
                    invariant
                        i <= items.len(),
                        depth == registry@.components.len(),
                        !is_internal(repr_view(repr)),
                        self@ matches InnerView::Tuple(fs) && fs == items.deep_view(),
                        start == (FieldsView {
                            entries: Seq::empty(),
                            imports: Seq::empty(),
                            declarations: Seq::empty(),
                        }),
                        tuple_items(registry@, builder@, items.deep_view(), depth as nat, 0, start)
                            == tuple_items(
                            registry@,
                            builder@,
                            items.deep_view(),
                            depth as nat,
                            i as int,
                            FieldsView {
                                entries: texts(entries@),
                                imports: imports.deep_view(),
                                declarations: declarations.deep_view(),
                            },
                        ),
                    decreases items.len() - i,
                {
                    assert(items.deep_view()[i as int] == items[i as int]@);
                    match step(&items[i], builder, registry, depth, &mut imports, &mut declarations) {
                        Err(e) => {
                            return Err(e);
                        },
                        Ok(value) => {
                            let mut entry = String::from_str(" ");
                            entry.append(value.as_str());
                            let ghost before = texts(entries@);
                            entries.push(entry);
                            assert(texts(entries@) =~= before.push(entry@));
                        },
                    }
                    i += 1;
                }
                let mut text = String::from_str("[");
                text.append(join(&entries, ",").as_str());
                text.append("]");
                Ok(Rendered { text: wrap(repr, text), imports, declarations })
            },
            InnerType::NewType(inner) => {
                if internal(repr) {
                    return Err(BuildError::InternalTagOnNonObject);
                }
                match step(inner, builder, registry, depth, &mut imports, &mut declarations) {
                    Err(e) => Err(e),
                    Ok(value) => Ok(Rendered { text: wrap(repr, value), imports, declarations }),
                }
            },
            InnerType::SimpleVariant(tag) => {
                let text = match repr {
                    Some((representation, variant)) => match representation {
                        EnumRepresentation::Adjacently(field, _) => {
                            let mut s = String::from_str("{\n\t");
                            s.append(field.as_str());
                            s.append(": \"");
                            s.append(variant);
                            s.append("\"\n}");
                            s
                        },
                        _ => quoted(tag),
                    },
                    None => quoted(tag),
                };
                Ok(Rendered { text, imports, declarations })
            },
            InnerType::Null => {
                if internal(repr) {
                    return Err(BuildError::InternalTagOnNonObject);
                }
                Ok(Rendered { text: String::from_str("null"), imports, declarations })
            },
        }
    }
}

/// The names of the variants of an enum, in order.
pub open spec fn variant_names(variants: Seq<(Seq<char>, InnerView)>) -> Seq<Seq<char>> {
    Seq::new(variants.len(), |i: int| variants[i].0)
}

/// The file of an enum after the variants from `from` on have been
/// declared in it: each adds its declaration to the content, its aliases
/// and imports, each once, and the name of the enum to the exports.
pub open spec fn declare_variants(
    reg: RegistryView,
    names: BuilderView,
    repr: RepresentationView,
    variants: Seq<(Seq<char>, InnerView)>,
    emitted: Seq<char>,
    depth: nat,
    from: int,
    file: FileView,
) -> Result<FileView, BuildError>
    decreases variants.len() - from,
{
    if from < 0 || from >= variants.len() {
        Ok(file)
    } else {
        match variants[from].1.render(reg, names, Some((repr, variants[from].0)), depth) {
            Err(e) => Err(e),
            Ok(rendered) => declare_variants(
                reg,
                names,
                repr,
                variants,
                emitted,
                depth,
                from + 1,
                FileView {
                    content: file.content + "\n\nexport type "@ + variants[from].0 + " = "@
                        + rendered.text + "\n"@,
                    type_defs: add_definitions(file.type_defs, rendered.declarations, 0),
                    imports: merge_imports(file.imports, rendered.imports, 0),
                    exports: file.exports.push(emitted),
                    ..file
                },
            ),
        }
    }
}

/// Declaring the variants of an enum keeps the file well formed.
pub proof fn lemma_declare_variants_wf(
    reg: RegistryView,
    names: BuilderView,
    repr: RepresentationView,
    variants: Seq<(Seq<char>, InnerView)>,
    emitted: Seq<char>,
    depth: nat,
    from: int,
    file: FileView,
)
    requires
        file.wf(),
    ensures
        declare_variants(reg, names, repr, variants, emitted, depth, from, file) matches Ok(done)
            ==> done.wf(),
    decreases variants.len() - from,
{
    if 0 <= from < variants.len() {
        match variants[from].1.render(reg, names, Some((repr, variants[from].0)), depth) {
            Err(_) => {},
            Ok(rendered) => {
                lemma_add_definitions_distinct(file.type_defs, rendered.declarations, 0);
                lemma_merge_imports_distinct(file.imports, rendered.imports, 0);
                lemma_declare_variants_wf(
                    reg,
                    names,
                    repr,
                    variants,
                    emitted,
                    depth,
                    from + 1,
                    FileView {
                        content: file.content + "\n\nexport type "@ + variants[from].0 + " = "@
                            + rendered.text + "\n"@,
                        type_defs: add_definitions(file.type_defs, rendered.declarations, 0),
                        imports: merge_imports(file.imports, rendered.imports, 0),
                        exports: file.exports.push(emitted),
                        ..file
                    },
                );
            },
        }
    }
}

/// The file that declares a component is well formed.
pub proof fn lemma_declaration_wf(
    component: ComponentView,
    reg: RegistryView,
    names: BuilderView,
    depth: nat,
)
    ensures
        component.declaration(reg, names, depth) matches Ok(file) ==> file.wf(),
{
    let emitted = names.emitted_name(component.name, component.hash);
    match component.typ {
        TypeView::Struct(inner) => {
            lemma_render_distinct(inner, reg, names, None, depth);
            match inner.render(reg, names, None, depth) {
                Err(_) => {},
                Ok(rendered) => {
                    lemma_add_definitions_distinct(Seq::empty(), rendered.declarations, 0);
                },
            }
        },
        TypeView::Enum(repr, variants) => {
            lemma_declare_variants_wf(
                reg,
                names,
                repr,
                variants,
                emitted,
                depth,
                0,
                FileView::fresh(emitted, component.hash),
            );
        },
        _ => {},
    }
}

impl ComponentView {
    /// The file that declares this component.
    ///
    /// A struct is one declaration of its payload under its emitted name.
    /// An enum is one declaration for each variant, under the name of the
    /// variant, and a last one under the emitted name of the enum that is the
    /// union of the names of the variants. No other type has a declaration.
    pub open spec fn declaration(self, reg: RegistryView, names: BuilderView, depth: nat) -> Result<
        FileView,
        BuildError,
    > {
        let emitted = names.emitted_name(self.name, self.hash);
        match self.typ {
            TypeView::Struct(inner) => match inner.render(reg, names, None, depth) {
                Err(e) => Err(e),
                Ok(rendered) => Ok(
                    FileView {
                        name: emitted,
                        hash: self.hash,
                        imports: rendered.imports,
                        type_defs: add_definitions(Seq::empty(), rendered.declarations, 0),
                        content: "\n\nexport type "@ + emitted + self.generics + " = "@
                            + rendered.text,
                        exports: seq![emitted],
                    },
                ),
            },
            TypeView::Enum(repr, variants) => match declare_variants(
                reg,
                names,
                repr,
                variants,
                emitted,
                depth,
                0,
                FileView::fresh(emitted, self.hash),
            ) {
                Err(e) => Err(e),
                Ok(file) => Ok(
                    FileView {
                        content: file.content + "\n\nexport type "@ + emitted + self.generics
                            + " = "@ + join_spec(variant_names(variants), " | "@),
                        exports: file.exports.push(emitted),
                        ..file
                    },
                ),
            },
            _ => Err(BuildError::NoDeclaration),
        }
    }
}

/// The value of a file that was produced, or the error that was met.
pub open spec fn file_result(r: Result<ComponentFileBuilder, BuildError>) -> Result<
    FileView,
    BuildError,
> {
    match r {
        Ok(file) => Ok(file@),
        Err(e) => Err(e),
    }
}

impl Type {
    /// The file that declares a component of this shape and of the given
    /// name, generics and hash: see [`ComponentView::declaration`].
    pub fn declare(
        &self,
        name: &str,
        generics: &str,
        hash: u64,
        builder: &TypeBuilder,
        registry: &GlobalTypeRegistry,
    ) -> (r: Result<ComponentFileBuilder, BuildError>)
        ensures
            file_result(r) == (ComponentView {
                name: name@,
                generics: generics@,
                typ: self@,
                hash,
            }).declaration(registry@, builder@, registry@.components.len()),
            r matches Ok(file) ==> file@.wf(),
    {
        proof {
            lemma_declaration_wf(
                ComponentView { name: name@, generics: generics@, typ: self@, hash },
                registry@,
                builder@,
                registry@.components.len(),
            );
        }
        let emitted = builder.emitted_name(name, hash);
        match self {
            Type::Struct(inner) => match inner.build(builder, registry, None) {
                Err(e) => Err(e),
                Ok(rendered) => {
                    let mut content = String::from_str("\n\nexport type ");
                    content.append(emitted.as_str());
                    content.append(generics);
                    content.append(" = ");
                    content.append(rendered.text.as_str());
                    let mut type_defs: Vec<String> = Vec::new();
                    assert(type_defs.deep_view() =~= Seq::<Seq<char>>::empty());
                    put_definitions(&mut type_defs, &rendered.declarations);
                    let mut exports: Vec<String> = Vec::new();
                    exports.push(emitted.clone());
                    assert(exports.deep_view() =~= seq![emitted@]);
                    Ok(
                        ComponentFileBuilder {
                            name: emitted,
                            hash,
                            imports: rendered.imports,
                            type_defs,
                            content,
                            exports,
                        },
                    )
                },
            },
            Type::Enum(repr, variants) => {
                let mut file = ComponentFileBuilder::new(emitted.clone(), hash);
                let mut all_names: Vec<String> = Vec::new();
                let ghost start = file@;
                let mut i: usize = 0;
                assert(texts(all_names@) =~= variant_names(variants.deep_view()).take(0));
                while i < variants.len()
                    invariant
                        i <= variants.len(),
                        self@ matches TypeView::Enum(rv, vs) && rv == repr@ && vs
                            == variants.deep_view(),
                        start == FileView::fresh(emitted@, hash),
                        emitted@ == builder@.emitted_name(name@, hash),
                        texts(all_names@) == variant_names(variants.deep_view()).take(i as int),
                        declare_variants(
                            registry@,
                            builder@,
                            repr@,
                            variants.deep_view(),
                            emitted@,
                            registry@.components.len(),
                            0,
                            start,
                        ) == declare_variants(
                            registry@,
                            builder@,
                            repr@,
                            variants.deep_view(),
                            emitted@,
                            registry@.components.len(),
                            i as int,
                            file@,
                        ),
                    decreases variants.len() - i,
                {
                    assert(variants.deep_view()[i as int] == (
                        variants[i as int].0@,
                        variants[i as int].1@,
                    ));
                    let ghost names_before = texts(all_names@);
                    all_names.push(variants[i].0.clone());
                    assert(texts(all_names@) =~= names_before.push(variants[i as int].0@));
                    assert(texts(all_names@) =~= variant_names(variants.deep_view()).take(i + 1));
                    match variants[i].1.build(
                        builder,
                        registry,
                        Some((repr, variants[i].0.as_str())),
                    ) {
                        Err(e) => {
                            return Err(e);
                        },
                        Ok(rendered) => {
                            file.content.append("\n\nexport type ");
                            file.content.append(variants[i].0.as_str());
                            file.content.append(" = ");
                            file.content.append(rendered.text.as_str());
                            file.content.append("\n");
                            put_definitions(&mut file.type_defs, &rendered.declarations);
                            merge_into(&mut file.imports, &rendered.imports);
                            let ghost before = file.exports.deep_view();
                            file.exports.push(emitted.clone());
                            assert(file.exports.deep_view() =~= before.push(emitted@));
                        },
                    }
                    i += 1;
                }
                assert(variant_names(variants.deep_view()).take(variants.len() as int)
                    =~= variant_names(variants.deep_view()));
                file.content.append("\n\nexport type ");
                file.content.append(emitted.as_str());
                file.content.append(generics);
                file.content.append(" = ");
                file.content.append(join(&all_names, " | ").as_str());
                let ghost before = file.exports.deep_view();
                file.exports.push(emitted);
                assert(file.exports.deep_view() =~= before.push(emitted@));
                Ok(file)
            },
            _ => Err(BuildError::NoDeclaration),
        }
    }
}

impl Component {
    /// The file that declares this component: see [`ComponentView::declaration`].
    pub fn declare(&self, builder: &TypeBuilder, registry: &GlobalTypeRegistry) -> (r: Result<
        ComponentFileBuilder,
        BuildError,
    >)
        ensures
            file_result(r) == self@.declaration(registry@, builder@, registry@.components.len()),
            r matches Ok(file) ==> file@.wf(),
    {
        self.typ.declare(self.name.as_str(), self.generics.as_str(), self.hash, builder, registry)
    }
}

/// Whether an enum has the shape of a result: exactly the two variants
/// `Ok` and `Err`, in this order, each with a single unnamed field.
pub open spec fn is_result_shaped(variants: Seq<(Seq<char>, InnerView)>) -> bool {
    &&& variants.len() == 2
    &&& variants[0].0 == "Ok"@
    &&& variants[1].0 == "Err"@
    &&& variants[0].1 is NewType
    &&& variants[1].1 is NewType
}

/// The components that two references need, together.
pub open spec fn both_components(
    first: Option<Seq<ComponentView>>,
    second: Option<Seq<ComponentView>>,
) -> Option<Seq<ComponentView>> {
    match (first, second) {
        (None, None) => None,
        (None, Some(y)) => Some(y),
        (Some(x), None) => Some(x),
        (Some(x), Some(y)) => Some(x + y),
    }
}

/// The components that the component behind a reference needs.
pub open spec fn referenced_components(
    reg: RegistryView,
    r: ReferenceView,
    position: Postion,
    depth: nat,
) -> Result<Option<Seq<ComponentView>>, BuildError>
    decreases depth, 0nat, 0nat,
{
    match reg.resolve(r.id) {
        None => Err(BuildError::UnresolvedHandle),
        Some(i) => if depth == 0 {
            Err(BuildError::CyclicReference)
        } else {
            reg.components[i].import_components(reg, position, (depth - 1) as nat)
        },
    }
}

/// The components that the arguments of a generic type from `from` on
/// need, after those in `done`.
pub open spec fn args_components(
    reg: RegistryView,
    args: Seq<ReferenceView>,
    position: Postion,
    depth: nat,
    from: int,
    done: Seq<ComponentView>,
) -> Result<Seq<ComponentView>, BuildError>
    decreases depth, 1nat, args.len() - from,
{
    if from < 0 || from >= args.len() {
        Ok(done)
    } else {
        match referenced_components(reg, args[from], position, depth) {
            Err(e) => Err(e),
            Ok(Some(found)) => args_components(reg, args, position, depth, from + 1, done + found),
            Ok(None) => args_components(reg, args, position, depth, from + 1, done),
        }
    }
}

impl ComponentView {
    /// The components that a client function has to import to speak of
    /// this one; nothing for a type that is written in place.
    ///
    /// A struct needs itself, an array what its items need. An enum needs
    /// itself, but where it has the shape of a result and is not sent in a
    /// body it needs what its two arms need. A generic type needs what its
    /// arguments need, then what its base needs.
    pub open spec fn import_components(self, reg: RegistryView, position: Postion, depth: nat) -> Result<
        Option<Seq<ComponentView>>,
        BuildError,
    >
        decreases depth, 2nat, 0nat,
    {
        match self.typ {
            TypeView::Array(item) => referenced_components(reg, item, position, depth),
            TypeView::Struct(_) => Ok(Some(seq![self])),
            TypeView::Enum(_, variants) => if position != Postion::Body && is_result_shaped(
                variants,
            ) {
                match referenced_components(reg, variants[0].1->NewType_0, position, depth) {
                    Err(e) => Err(e),
                    Ok(first) => match referenced_components(
                        reg,
                        variants[1].1->NewType_0,
                        position,
                        depth,
                    ) {
                        Err(e) => Err(e),
                        Ok(second) => Ok(both_components(first, second)),
                    },
                }
            } else {
                Ok(Some(seq![self]))
            },
            TypeView::Generic(base, args) => match referenced_components(
                reg,
                base,
                position,
                depth,
            ) {
                Err(e) => Err(e),
                Ok(found) => match args_components(reg, args, position, depth, 0, Seq::empty()) {
                    Err(e) => Err(e),
                    Ok(list) => Ok(
                        Some(
                            match found {
                                Some(more) => list + more,
                                None => list,
                            },
                        ),
                    ),
                },
            },
            TypeView::SimpleType(_) => Ok(None),
            TypeView::Any => Ok(None),
            TypeView::Nothing => Ok(None),
        }
    }

    /// The result type of a client function that gives this component.
    ///
    /// An enum with the shape of a result gives `ApiResult` of its two
    /// arms, each by its alias or else by its name; any other type gives
    /// `ApiResult` of its own name and `any`.
    pub open spec fn client_result(self, reg: RegistryView, names: BuilderView, depth: nat) -> Result<
        Seq<char>,
        BuildError,
    > {
        if self.typ matches TypeView::Enum(_, variants) && is_result_shaped(variants) {
            match arm_name(reg, names, self.typ->Enum_1[0].1->NewType_0, depth) {
                Err(e) => Err(e),
                Ok(ok) => match arm_name(reg, names, self.typ->Enum_1[1].1->NewType_0, depth) {
                    Err(e) => Err(e),
                    Ok(err) => Ok("ApiResult<"@ + ok + ", "@ + err + ">"@),
                },
            }
        } else {
            match self.ts_name(reg, names, depth) {
                Err(e) => Err(e),
                Ok(name) => Ok("ApiResult<"@ + name + ", any>"@),
            }
        }
    }
}

/// The name of one arm of a result: the alias of the reference, else the
/// name of the referenced component.
pub open spec fn arm_name(reg: RegistryView, names: BuilderView, r: ReferenceView, depth: nat) -> Result<
    Seq<char>,
    BuildError,
> {
    match reg.resolve(r.id) {
        None => Err(BuildError::UnresolvedHandle),
        Some(i) => match reg.components[i].ts_name(reg, names, depth) {
            Err(e) => Err(e),
            Ok(name) => Ok(
                match r.renamed {
                    Some(alias) => alias,
                    None => name,
                },
            ),
        },
    }
}

/// The value of the components that were found, or the error that was met.
pub open spec fn components_result(r: Result<Option<Vec<&Component>>, BuildError>) -> Result<
    Option<Seq<ComponentView>>,
    BuildError,
> {
    match r {
        Ok(Some(found)) => Ok(Some(found.deep_view())),
        Ok(None) => Ok(None),
        Err(e) => Err(e),
    }
}

/// Adds the components in `more` at the end of `into`.
fn append_components<'a>(into: &mut Vec<&'a Component>, more: &Vec<&'a Component>)
    ensures
        final(into).deep_view() == old(into).deep_view() + more.deep_view(),
{
    let mut i: usize = 0;
    assert(into.deep_view() =~= old(into).deep_view() + more.deep_view().take(0));
    while i < more.len()
        invariant
            i <= more.len(),
            into.deep_view() == old(into).deep_view() + more.deep_view().take(i as int),
        decreases more.len() - i,
    {
        let ghost before = into.deep_view();
        into.push(more[i]);
        assert(into.deep_view() =~= before.push(more[i as int]@));
        assert(into.deep_view() =~= old(into).deep_view() + more.deep_view().take(i + 1));
        i += 1;
    }
    assert(more.deep_view().take(more.len() as int) =~= more.deep_view());
}

/// The components that the component behind a reference needs: see
/// [`referenced_components`].
fn components_behind<'a>(
    r: &ComponentReference,
    registry: &'a GlobalTypeRegistry,
    pos: Postion,
    depth: usize,
) -> (res: Result<Option<Vec<&'a Component>>, BuildError>)
    ensures
        components_result(res) == referenced_components(registry@, r@, pos, depth as nat),
    decreases depth, 0nat, 0nat,
{
    match registry.find(&r.id) {
        None => Err(BuildError::UnresolvedHandle),
        Some(found) => {
            if depth == 0 {
                return Err(BuildError::CyclicReference);
            }
            found.import_components_within(registry, pos, depth - 1)
        },
    }
}

/// Whether a text is `Ok`, or `Err`.
fn is_text(s: &String, wanted: &str) -> (r: bool)
    ensures
        r == (s@ == wanted@),
{
    crate::text::same_text(s.as_str(), wanted)
}

/// Whether an enum has the shape of a result: see [`is_result_shaped`].
fn result_shaped(variants: &Vec<(String, InnerType)>) -> (r: bool)
    ensures
        r == is_result_shaped(variants.deep_view()),
{
    if variants.len() != 2 {
        return false;
    }
    assert(variants.deep_view()[0] == (variants[0].0@, variants[0].1@));
    assert(variants.deep_view()[1] == (variants[1].0@, variants[1].1@));
    if !is_text(&variants[0].0, "Ok") || !is_text(&variants[1].0, "Err") {
        return false;
    }
    let first = match &variants[0].1 {
        InnerType::NewType(_) => true,
        _ => false,
    };
    let second = match &variants[1].1 {
        InnerType::NewType(_) => true,
        _ => false,
    };
    first && second
}

impl Component {
    /// The components that a client function has to import to speak of
    /// this one, following at most `depth` references: see
    /// [`ComponentView::import_components`].
    pub fn import_components_within<'a>(
        &'a self,
        registry: &'a GlobalTypeRegistry,
        pos: Postion,
        depth: usize,
    ) -> (r: Result<Option<Vec<&'a Component>>, BuildError>)
        ensures
            components_result(r) == self@.import_components(registry@, pos, depth as nat),
        decreases depth, 2nat, 0nat,
    {
        match &self.typ {
            Type::Array(item) => components_behind(item, registry, pos, depth),
            Type::Struct(_) => {
                let mut found: Vec<&Component> = Vec::new();
                found.push(self);
                assert(found.deep_view() =~= seq![self@]);
                Ok(Some(found))
            },
            Type::Enum(_, variants) => {
                let sent = match pos {
                    Postion::Body => true,
                    Postion::Result => false,
                };
                if !sent && result_shaped(variants) {
                    assert(variants.deep_view()[0] == (variants[0].0@, variants[0].1@));
                    assert(variants.deep_view()[1] == (variants[1].0@, variants[1].1@));
                    match (&variants[0].1, &variants[1].1) {
                        (InnerType::NewType(ok), InnerType::NewType(err)) => {
                            let first = match components_behind(ok, registry, pos, depth) {
                                Err(e) => {
                                    return Err(e);
                                },
                                Ok(first) => first,
                            };
                            let second = match components_behind(err, registry, pos, depth) {
                                Err(e) => {
                                    return Err(e);
                                },
                                Ok(second) => second,
                            };
                            match (first, second) {
                                (None, None) => Ok(None),
                                (None, Some(y)) => Ok(Some(y)),
                                (Some(x), None) => Ok(Some(x)),
                                (Some(x), Some(y)) => {
                                    let mut x = x;
                                    append_components(&mut x, &y);
                                    Ok(Some(x))
                                },
                            }
                        },
                        _ => {
                            let mut found: Vec<&Component> = Vec::new();
                            found.push(self);
                            assert(found.deep_view() =~= seq![self@]);
                            Ok(Some(found))
                        },
                    }
                } else {
                    let mut found: Vec<&Component> = Vec::new();
                    found.push(self);
                    assert(found.deep_view() =~= seq![self@]);
                    Ok(Some(found))
                }
            },
            Type::Generic(base, args) => {
                let found = match components_behind(base, registry, pos, depth) {
                    Err(e) => {
                        return Err(e);
                    },
                    Ok(found) => found,
                };
                let mut list: Vec<&Component> = Vec::new();
                assert(list.deep_view() =~= Seq::<ComponentView>::empty());
                let mut i: usize = 0;
                while i < args.len()
                    invariant
                        i <= args.len(),
                        self@.typ matches TypeView::Generic(b, xs) && b == base@ && xs
                            == args.deep_view(),
                        components_result(Ok(found)) == referenced_components(
                            registry@,
                            base@,
                            pos,
                            depth as nat,
                        ),
                        args_components(
                            registry@,
                            args.deep_view(),
                            pos,
                            depth as nat,
                            0,
                            Seq::empty(),
                        ) == args_components(
                            registry@,
                            args.deep_view(),
                            pos,
                            depth as nat,
                            i as int,
                            list.deep_view(),
                        ),
                    decreases args.len() - i,
                {
                    assert(args.deep_view()[i as int] == args[i as int]@);
                    match components_behind(&args[i], registry, pos, depth) {
                        Err(e) => {
                            return Err(e);
                        },
                        Ok(Some(more)) => {
                            append_components(&mut list, &more);
                        },
                        Ok(None) => {},
                    }
                    i += 1;
                }
                match found {
                    Some(more) => {
                        append_components(&mut list, &more);
                    },
                    None => {},
                }
                Ok(Some(list))
            },
            Type::SimpleType(_) => Ok(None),
            Type::Any => Ok(None),
            Type::Nothing => Ok(None),
        }
    }

    /// The components that a client function has to import to speak of
    /// this one, following at most as many references as the registry has components.
    pub fn get_import_component<'a>(&'a self, registry: &'a GlobalTypeRegistry, pos: Postion) -> (r:
        Result<Option<Vec<&'a Component>>, BuildError>)
        ensures
            components_result(r) == self@.import_components(
                registry@,
                pos,
                registry@.components.len(),
            ),
    {
        let depth = registry.components().len();
        self.import_components_within(registry, pos, depth)
    }

    /// The result type of a client function that gives this component, with
    /// the names as the builder has chosen them: see [`ComponentView::client_result`].
    pub fn get_client_result(&self, registry: &GlobalTypeRegistry, builder: &TypeBuilder) -> (r:
        Result<String, BuildError>)
        ensures
            text_result(r) == self@.client_result(
                registry@,
                builder@,
                registry@.components.len(),
            ),
    {
        let depth = registry.components().len();
        match &self.typ {
            Type::Enum(_, variants) => {
                if result_shaped(variants) {
                    assert(variants.deep_view()[0] == (variants[0].0@, variants[0].1@));
                    assert(variants.deep_view()[1] == (variants[1].0@, variants[1].1@));
                    match (&variants[0].1, &variants[1].1) {
                        (InnerType::NewType(ok), InnerType::NewType(err)) => {
                            let first = match arm(ok, registry, builder, depth) {
                                Err(e) => {
                                    return Err(e);
                                },
                                Ok(first) => first,
                            };
                            let second = match arm(err, registry, builder, depth) {
                                Err(e) => {
                                    return Err(e);
                                },
                                Ok(second) => second,
                            };
                            let mut s = String::from_str("ApiResult<");
                            s.append(first.as_str());
                            s.append(", ");
                            s.append(second.as_str());
                            s.append(">");
                            return Ok(s);
                        },
                        _ => {},
                    }
                }
            },
            _ => {},
        }
        match self.emitted_ts_name(registry, builder, depth) {
            Err(e) => Err(e),
            Ok(name) => {
                let mut s = String::from_str("ApiResult<");
                s.append(name.as_str());
                s.append(", any>");
                Ok(s)
            },
        }
    }
}

/// The name of one arm of a result: see [`arm_name`].
fn arm(
    r: &ComponentReference,
    registry: &GlobalTypeRegistry,
    builder: &TypeBuilder,
    depth: usize,
) -> (res: Result<String, BuildError>)
    ensures
        text_result(res) == arm_name(registry@, builder@, r@, depth as nat),
{
    match registry.find(&r.id) {
        None => Err(BuildError::UnresolvedHandle),
        Some(found) => match found.emitted_ts_name(registry, builder, depth) {
            Err(e) => Err(e),
            Ok(name) => match &r.renamed {
                Some(alias) => Ok(alias.clone()),
                None => Ok(name),
            },
        },
    }
}

/// A result type is detected by shape alone: an enum with exactly the
/// variants `Ok` and `Err`, each with a single unnamed field, gives
/// `ApiResult` of its two arms; every other component gives `ApiResult` of
/// its own name and `any`.
pub proof fn law_result_shape_detection(
    component: ComponentView,
    reg: RegistryView,
    names: BuilderView,
    depth: nat,
)
    ensures
        ({
            let shaped = component.typ is Enum && is_result_shaped(component.typ->Enum_1);
            let result = component.client_result(reg, names, depth);
            &&& shaped ==> result == match arm_name(
                reg,
                names,
                component.typ->Enum_1[0].1->NewType_0,
                depth,
            ) {
                Err(e) => Err::<Seq<char>, BuildError>(e),
                Ok(ok) => match arm_name(
                    reg,
                    names,
                    component.typ->Enum_1[1].1->NewType_0,
                    depth,
                ) {
                    Err(e) => Err(e),
                    Ok(err) => Ok("ApiResult<"@ + ok + ", "@ + err + ">"@),
                },
            }
            &&& !shaped ==> result == match component.ts_name(reg, names, depth) {
                Err(e) => Err::<Seq<char>, BuildError>(e),
                Ok(name) => Ok("ApiResult<"@ + name + ", any>"@),
            }
        }),
{
}

} // verus!
