//! The client generator: the methods of each route rendered as client
//! functions, and the object through which the client reaches them.
use vstd::prelude::*;
use vstd::string::*;

use crate::api_router::{Postion, RouteComponentType};
use crate::errors::BuildError;
use crate::text::{
    bracketed, capitalize_first_letter, capitalized, clean_name, clean_var_name, is_blank, join,
    join_spec, replace_braces, same_text, segments, split_segments, strip_prefix, strip_suffix,
    texts, without_prefix, without_suffix, blank,
};
use crate::types::builder::{
    built, climb, import_line, BuilderView, GlobalTypeRegistry, RegistryView, TypeBuilder,
};
use crate::types::model::{Component, ComponentView};
use crate::FILE_HEADER;

verus! {

/// The tree through which the client reaches its functions: an object for
/// each path segment, and under it the functions of the route. In a tree
/// that is well formed no object has two fields of one name.
#[derive(Debug)]
pub enum ClientObject {
    Obj(Vec<(String, ClientObject)>),
    Method(String),
}

/// The mathematical value of a [`ClientObject`].
pub enum ObjectView {
    Obj(Seq<(Seq<char>, ObjectView)>),
    Method(Seq<char>),
}

/// The value of a client object.
pub open spec fn object_view(node: ClientObject) -> ObjectView
    decreases node,
{
    match node {
        ClientObject::Obj(fields) => ObjectView::Obj(fields_view(fields@, fields@.len() as int)),
        ClientObject::Method(name) => ObjectView::Method(name@),
    }
}

/// The values of the first `count` fields of a client object.
pub open spec fn fields_view(fields: Seq<(String, ClientObject)>, count: int) -> Seq<
    (Seq<char>, ObjectView),
>
    decreases fields, count,
{
    if 0 < count <= fields.len() {
        fields_view(fields, count - 1).push(
            (fields[count - 1].0@, object_view(fields[count - 1].1)),
        )
    } else {
        Seq::empty()
    }
}

impl View for ClientObject {
    type V = ObjectView;

    open spec fn view(&self) -> ObjectView {
        object_view(*self)
    }
}

/// The values of the fields, one by one.
pub proof fn lemma_fields_view(fields: Seq<(String, ClientObject)>, count: int)
    requires
        0 <= count <= fields.len(),
    ensures
        fields_view(fields, count).len() == count,
        forall|i: int|
            0 <= i < count ==> #[trigger] fields_view(fields, count)[i] == (
                fields[i].0@,
                object_view(fields[i].1),
            ),
    decreases count,
{
    if count > 0 {
        lemma_fields_view(fields, count - 1);
    }
}

/// The index of the first field from `from` on that has the key; the
/// number of fields where there is none.
pub open spec fn key_position(fields: Seq<(Seq<char>, ObjectView)>, key: Seq<char>, from: int) -> int
    decreases fields.len() - from,
{
    if from < 0 || from >= fields.len() {
        fields.len() as int
    } else if fields[from].0 == key {
        from
    } else {
        key_position(fields, key, from + 1)
    }
}

/// What the position of a key is: the field there has the key and none
/// before it has.
pub proof fn lemma_key_position(fields: Seq<(Seq<char>, ObjectView)>, key: Seq<char>, from: int)
    requires
        0 <= from <= fields.len(),
    ensures
        from <= key_position(fields, key, from) <= fields.len(),
        key_position(fields, key, from) < fields.len() ==> fields[key_position(
            fields,
            key,
            from,
        )].0 == key,
        forall|j: int|
            from <= j < key_position(fields, key, from) ==> (#[trigger] fields[j]).0 != key,
    decreases fields.len() - from,
{
    if from < fields.len() && fields[from].0 != key {
        lemma_key_position(fields, key, from + 1);
    }
}

/// Whether no two of the fields have one name.
pub open spec fn distinct_keys(fields: Seq<(Seq<char>, ObjectView)>) -> bool {
    forall|i: int, j: int| 0 <= i < j < fields.len() ==> fields[i].0 != fields[j].0
}

impl ObjectView {
    /// The invariant of the tree: no object in it has two fields of one name.
    pub open spec fn wf(self) -> bool
        decreases self,
    {
        match self {
            ObjectView::Method(_) => true,
            ObjectView::Obj(fields) => distinct_keys(fields) && forall|i: int|
                0 <= i < fields.len() ==> (#[trigger] fields[i]).1.wf(),
        }
    }

    /// The tree after a function has been added under the path whose
    /// segments from `from` on are still to be walked.
    ///
    /// Each segment leads into the object of that name, which is made
    /// where it is missing. At the end of the path the function is added
    /// under its own name. A name that is taken there, or a function on the
    /// way, is a collision.
    pub open spec fn added(self, segments: Seq<Seq<char>>, from: int, method: Seq<char>) -> Result<
        ObjectView,
        BuildError,
    >
        decreases segments.len() - from,
    {
        match self {
            ObjectView::Method(_) => Err(BuildError::ClientNameCollision),
            ObjectView::Obj(fields) => if from < 0 || from >= segments.len() {
                if key_position(fields, method, 0) < fields.len() {
                    Err(BuildError::ClientNameCollision)
                } else {
                    Ok(ObjectView::Obj(fields.push((method, ObjectView::Method(method)))))
                }
            } else {
                let at = key_position(fields, segments[from], 0);
                if at < fields.len() {
                    match fields[at].1.added(segments, from + 1, method) {
                        Err(e) => Err(e),
                        Ok(child) => Ok(ObjectView::Obj(fields.update(at, (fields[at].0, child)))),
                    }
                } else {
                    match ObjectView::Obj(Seq::empty()).added(segments, from + 1, method) {
                        Err(e) => Err(e),
                        Ok(child) => Ok(ObjectView::Obj(fields.push((segments[from], child)))),
                    }
                }
            },
        }
    }

    /// The tree as an object literal, indented by `tabs`: a function is
    /// its name, an object its fields between braces, one to a line.
    pub open spec fn to_ts(self, tabs: Seq<char>) -> Seq<char>
        decreases self, 0nat,
    {
        match self {
            ObjectView::Method(name) => name,
            ObjectView::Obj(fields) => "{"@ + join_spec(fields_ts(fields, tabs, fields.len() as int), ","@)
                + "\n"@ + tabs + "}"@,
        }
    }
}

/// Adding a function keeps the tree well formed.
pub proof fn lemma_added_keeps_wf(
    node: ObjectView,
    segments: Seq<Seq<char>>,
    from: int,
    method: Seq<char>,
)
    requires
        node.wf(),
        node.added(segments, from, method).is_ok(),
    ensures
        node.added(segments, from, method).unwrap().wf(),
    decreases segments.len() - from,
{
    match node {
        ObjectView::Method(_) => {},
        ObjectView::Obj(fields) => {
            if from < 0 || from >= segments.len() {
                lemma_key_position(fields, method, 0);
                let after = fields.push((method, ObjectView::Method(method)));
                assert forall|i: int, j: int| 0 <= i < j < after.len() implies after[i].0
                    != after[j].0 by {
                    assert(after[i] == fields[i]);
                    if j < fields.len() {
                        assert(after[j] == fields[j]);
                    }
                }
                assert forall|i: int| 0 <= i < after.len() implies (#[trigger] after[i]).1.wf() by {
                    if i < fields.len() {
                        assert(after[i] == fields[i]);
                    }
                }
            } else {
                let key = segments[from];
                lemma_key_position(fields, key, 0);
                let at = key_position(fields, key, 0);
                if at < fields.len() {
                    assert(fields[at].1.wf());
                    lemma_added_keeps_wf(fields[at].1, segments, from + 1, method);
                    let child = fields[at].1.added(segments, from + 1, method).unwrap();
                    let after = fields.update(at, (fields[at].0, child));
                    assert forall|i: int, j: int| 0 <= i < j < after.len() implies after[i].0
                        != after[j].0 by {
                        assert(after[i].0 == fields[i].0);
                        assert(after[j].0 == fields[j].0);
                    }
                    assert forall|i: int| 0 <= i < after.len() implies (#[trigger] after[i]).1.wf() by {
                        if i != at {
                            assert(after[i] == fields[i]);
                        }
                    }
                } else {
                    let empty = ObjectView::Obj(Seq::empty());
                    assert(empty.wf());
                    lemma_added_keeps_wf(empty, segments, from + 1, method);
                    let child = empty.added(segments, from + 1, method).unwrap();
                    let after = fields.push((key, child));
                    assert forall|i: int, j: int| 0 <= i < j < after.len() implies after[i].0
                        != after[j].0 by {
                        assert(after[i] == fields[i]);
                        if j < fields.len() {
                            assert(after[j] == fields[j]);
                        }
                    }
                    assert forall|i: int| 0 <= i < after.len() implies (#[trigger] after[i]).1.wf() by {
                        if i < fields.len() {
                            assert(after[i] == fields[i]);
                        }
                    }
                }
            }
        },
    }
}

/// The lines of the first `count` fields of an object literal.
pub open spec fn fields_ts(fields: Seq<(Seq<char>, ObjectView)>, tabs: Seq<char>, count: int) -> Seq<
    Seq<char>,
>
    decreases fields, count,
{
    if 0 < count <= fields.len() {
        fields_ts(fields, tabs, count - 1).push(
            "\n\t"@ + tabs + fields[count - 1].0 + ": "@ + fields[count - 1].1.to_ts(tabs + "\t"@),
        )
    } else {
        Seq::empty()
    }
}

/// The value of a tree that was produced, or the error that was met.
pub open spec fn object_result(r: Result<ClientObject, BuildError>) -> Result<ObjectView, BuildError> {
    match r {
        Ok(node) => Ok(node@),
        Err(e) => Err(e),
    }
}

/// The index of the first field with the key.
fn find_key(fields: &Vec<(String, ClientObject)>, key: &str) -> (at: usize)
    ensures
        at == key_position(fields_view(fields@, fields@.len() as int), key@, 0),
        at <= fields.len(),
{
    let ghost all = fields_view(fields@, fields@.len() as int);
    proof {
        lemma_fields_view(fields@, fields@.len() as int);
    }
    let mut i: usize = 0;
    while i < fields.len()
        invariant
            i <= fields.len(),
            all == fields_view(fields@, fields@.len() as int),
            all.len() == fields.len(),
            forall|j: int| 0 <= j < all.len() ==> (#[trigger] all[j]).0 == fields[j].0@,
            key_position(all, key@, 0) == key_position(all, key@, i as int),
        decreases fields.len() - i,
    {
        if same_text(fields[i].0.as_str(), key) {
            assert(all[i as int].0 == key@);
            return i;
        }
        assert(all[i as int].0 != key@);
        i += 1;
    }
    i
}

impl ClientObject {
    /// An object without fields.
    pub fn new() -> (node: Self)
        ensures
            node@ == ObjectView::Obj(Seq::empty()),
            node@.wf(),
    {
        let node = ClientObject::Obj(Vec::new());
        node
    }

    /// Adds a function under a path: see [`ObjectView::added`].
    pub fn add(self, segments: &Vec<String>, from: usize, method: String) -> (r: Result<
        ClientObject,
        BuildError,
    >)
        ensures
            object_result(r) == self@.added(texts(segments@), from as int, method@),
            self@.wf() ==> (r matches Ok(node) ==> node@.wf()),
        decreases segments.len() - from,
    {
        proof {
            if self@.wf() && self@.added(texts(segments@), from as int, method@).is_ok() {
                lemma_added_keeps_wf(self@, texts(segments@), from as int, method@);
            }
        }
        match self {
            ClientObject::Method(_) => Err(BuildError::ClientNameCollision),
            ClientObject::Obj(fields) => {
                let mut fields = fields;
                let ghost all = fields_view(fields@, fields@.len() as int);
                proof {
                    lemma_fields_view(fields@, fields@.len() as int);
                }
                if from >= segments.len() {
                    let at = find_key(&fields, method.as_str());
                    if at < fields.len() {
                        Err(BuildError::ClientNameCollision)
                    } else {
                        let leaf = ClientObject::Method(method.clone());
                        fields.push((method, leaf));
                        proof {
                            lemma_fields_view(fields@, fields@.len() as int);
                            assert(fields_view(fields@, fields@.len() as int) =~= all.push(
                                (method@, ObjectView::Method(method@)),
                            ));
                        }
                        Ok(ClientObject::Obj(fields))
                    }
                } else {
                    let at = find_key(&fields, segments[from].as_str());
                    if at < fields.len() {
                        let entry = fields.remove(at);
                        assert(entry.0@ == all[at as int].0);
                        assert(entry.1@ == all[at as int].1);
                        match entry.1.add(segments, from + 1, method) {
                            Err(e) => Err(e),
                            Ok(child) => {
                                let ghost key = entry.0@;
                                let ghost child_view = child@;
                                fields.insert(at, (entry.0, child));
                                proof {
                                    lemma_fields_view(fields@, fields@.len() as int);
                                    assert(fields_view(fields@, fields@.len() as int) =~= all.update(
                                        at as int,
                                        (key, child_view),
                                    ));
                                }
                                Ok(ClientObject::Obj(fields))
                            },
                        }
                    } else {
                        match ClientObject::new().add(segments, from + 1, method) {
                            Err(e) => Err(e),
                            Ok(child) => {
                                let ghost child_view = child@;
                                fields.push((segments[from].clone(), child));
                                proof {
                                    lemma_fields_view(fields@, fields@.len() as int);
                                    assert(fields_view(fields@, fields@.len() as int) =~= all.push(
                                        (segments[from as int]@, child_view),
                                    ));
                                }
                                Ok(ClientObject::Obj(fields))
                            },
                        }
                    }
                }
            },
        }
    }

    /// The tree as an object literal: see [`ObjectView::to_ts`].
    pub fn to_ts(&self, base_tabs: String) -> (text: String)
        ensures
            text@ == self@.to_ts(base_tabs@),
        decreases self,
    {
        match self {
            ClientObject::Method(name) => name.clone(),
            ClientObject::Obj(fields) => {
                let ghost all = fields_view(fields@, fields@.len() as int);
                proof {
                    lemma_fields_view(fields@, fields@.len() as int);
                }
                let mut lines: Vec<String> = Vec::new();
                let mut i: usize = 0;
                assert(texts(lines@) =~= fields_ts(all, base_tabs@, 0));
                while i < fields.len()
                    invariant
                        i <= fields.len(),
                        self matches ClientObject::Obj(fs) && fs == fields,
                        all == fields_view(fields@, fields@.len() as int),
                        all.len() == fields.len(),
                        forall|j: int|
                            0 <= j < all.len() ==> #[trigger] all[j] == (
                                fields[j].0@,
                                object_view(fields[j].1),
                            ),
                        texts(lines@) == fields_ts(all, base_tabs@, i as int),
                    decreases fields.len() - i,
                {
                    let mut deeper = base_tabs.clone();
                    deeper.append("\t");
                    assert(decreases_to!(self => fields@[i as int].1));
                    let nested = fields[i].1.to_ts(deeper);
                    let mut line = String::from_str("\n\t");
                    line.append(base_tabs.as_str());
                    line.append(fields[i].0.as_str());
                    line.append(": ");
                    line.append(nested.as_str());
                    let ghost before = texts(lines@);
                    lines.push(line);
                    assert(texts(lines@) =~= before.push(line@));
                    assert(all[i as int] == (fields[i as int].0@, object_view(fields[i as int].1)));
                    i += 1;
                }
                let mut text = String::from_str("{");
                text.append(join(&lines, ",").as_str());
                text.append("\n");
                text.append(base_tabs.as_str());
                text.append("}");
                text
            },
        }
    }
}

/// Collects, while the routes are rendered, the object through which the
/// client reaches its functions and the files that the functions are
/// imported from. In a builder that is well formed the object is well
/// formed and no file has two groups of imports.
#[derive(Debug)]
pub struct ClientObjectBuilder {
    pub obj: ClientObject,
    pub import_map: Vec<(String, Vec<String>)>,
}

/// The mathematical value of a [`ClientObjectBuilder`].
pub struct ClientBuilderView {
    pub obj: ObjectView,
    pub import_map: Seq<(Seq<char>, Seq<Seq<char>>)>,
}

impl View for ClientObjectBuilder {
    type V = ClientBuilderView;

    open spec fn view(&self) -> ClientBuilderView {
        ClientBuilderView { obj: self.obj@, import_map: self.import_map.deep_view() }
    }
}

/// The index of the first group from `from` on that is imported from the
/// path; the number of groups where there is none.
pub open spec fn group_position(
    groups: Seq<(Seq<char>, Seq<Seq<char>>)>,
    path: Seq<char>,
    from: int,
) -> int
    decreases groups.len() - from,
{
    if from < 0 || from >= groups.len() {
        groups.len() as int
    } else if groups[from].0 == path {
        from
    } else {
        group_position(groups, path, from + 1)
    }
}

/// The line that imports the functions of one route file into the root client file.
pub open spec fn group_line(group: (Seq<char>, Seq<Seq<char>>)) -> Seq<char> {
    "import { "@ + join_spec(group.1, ", "@) + " } from \""@ + group.0 + "\";"@
}

/// What the position of a path is: the group there is imported from the
/// path and none before it is.
pub proof fn lemma_group_position(
    groups: Seq<(Seq<char>, Seq<Seq<char>>)>,
    path: Seq<char>,
    from: int,
)
    requires
        0 <= from <= groups.len(),
    ensures
        from <= group_position(groups, path, from) <= groups.len(),
        group_position(groups, path, from) < groups.len() ==> groups[group_position(
            groups,
            path,
            from,
        )].0 == path,
        forall|j: int|
            from <= j < group_position(groups, path, from) ==> (#[trigger] groups[j]).0 != path,
    decreases groups.len() - from,
{
    if from < groups.len() && groups[from].0 != path {
        lemma_group_position(groups, path, from + 1);
    }
}

/// Whether no two of the groups are imported from one file.
pub open spec fn distinct_groups(groups: Seq<(Seq<char>, Seq<Seq<char>>)>) -> bool {
    forall|i: int, j: int| 0 <= i < j < groups.len() ==> groups[i].0 != groups[j].0
}

impl ClientBuilderView {
    /// The invariant of the builder: the object is well formed, and no
    /// file has two groups of imports.
    pub open spec fn wf(self) -> bool {
        self.obj.wf() && distinct_groups(self.import_map)
    }

    /// The builder that has seen no function.
    pub open spec fn empty() -> ClientBuilderView {
        ClientBuilderView { obj: ObjectView::Obj(Seq::empty()), import_map: Seq::empty() }
    }

    /// The file that the functions of a route are imported from.
    pub open spec fn import_path(segments: Seq<Seq<char>>) -> Seq<char> {
        "./"@ + join_spec(segments, "/"@)
    }

    /// The groups of imports after a function of the route with these
    /// segments has been added.
    pub open spec fn grouped(self, segments: Seq<Seq<char>>, method: Seq<char>) -> Seq<
        (Seq<char>, Seq<Seq<char>>),
    > {
        let path = Self::import_path(segments);
        let at = group_position(self.import_map, path, 0);
        if 0 <= at < self.import_map.len() {
            self.import_map.update(at, (path, self.import_map[at].1.push(method)))
        } else {
            self.import_map.push((path, seq![method]))
        }
    }

    /// The builder after a function of the route with these segments has
    /// been added: it is imported from the file of the route and reached
    /// through the object under the segments.
    pub open spec fn added(self, segments: Seq<Seq<char>>, method: Seq<char>) -> Result<
        ClientBuilderView,
        BuildError,
    > {
        match self.obj.added(segments, 0, method) {
            Err(e) => Err(e),
            Ok(obj) => Ok(ClientBuilderView { obj, import_map: self.grouped(segments, method) }),
        }
    }

    /// The import lines of the root client file.
    pub open spec fn ts_imports(self) -> Seq<char> {
        join_spec(Seq::new(self.import_map.len(), |i: int| group_line(self.import_map[i])), "\n"@)
    }
}

/// Adding a function keeps the builder well formed.
pub proof fn lemma_client_added_keeps_wf(
    b: ClientBuilderView,
    segments: Seq<Seq<char>>,
    method: Seq<char>,
)
    requires
        b.wf(),
        b.added(segments, method).is_ok(),
    ensures
        b.added(segments, method).unwrap().wf(),
{
    lemma_added_keeps_wf(b.obj, segments, 0, method);
    let path = ClientBuilderView::import_path(segments);
    lemma_group_position(b.import_map, path, 0);
    let after = b.grouped(segments, method);
    let at = group_position(b.import_map, path, 0);
    assert forall|i: int, j: int| 0 <= i < j < after.len() implies after[i].0 != after[j].0 by {
        if at < b.import_map.len() {
            assert(after[i].0 == b.import_map[i].0);
            assert(after[j].0 == b.import_map[j].0);
        } else {
            assert(after[i] == b.import_map[i]);
            if j < b.import_map.len() {
                assert(after[j] == b.import_map[j]);
            }
        }
    }
}

/// The value of a builder that was produced, or the error that was met.
pub open spec fn client_result_view(r: Result<ClientObjectBuilder, BuildError>) -> Result<
    ClientBuilderView,
    BuildError,
> {
    match r {
        Ok(b) => Ok(b@),
        Err(e) => Err(e),
    }
}

/// The index of the first group that is imported from the path.
fn find_group(groups: &Vec<(String, Vec<String>)>, path: &String) -> (at: usize)
    ensures
        at == group_position(groups.deep_view(), path@, 0),
        at <= groups.len(),
        at < groups.len() ==> groups[at as int].0@ == path@,
{
    let mut i: usize = 0;
    while i < groups.len()
        invariant
            i <= groups.len(),
            group_position(groups.deep_view(), path@, 0) == group_position(
                groups.deep_view(),
                path@,
                i as int,
            ),
        decreases groups.len() - i,
    {
        assert(groups.deep_view()[i as int] == groups[i as int].deep_view());
        if groups[i].0 == *path {
            return i;
        }
        i += 1;
    }
    i
}

impl ClientObjectBuilder {
    /// A builder that has seen no function.
    pub fn new() -> (b: Self)
        ensures
            b@ == ClientBuilderView::empty(),
            b@.wf(),
    {
        let b = ClientObjectBuilder { obj: ClientObject::new(), import_map: Vec::new() };
        assert(b.import_map.deep_view() =~= Seq::empty());
        b
    }

    /// Adds a function of the route with these segments: see
    /// [`ClientBuilderView::added`].
    pub fn add(self, segments: &Vec<String>, method: &str) -> (r: Result<
        ClientObjectBuilder,
        BuildError,
    >)
        ensures
            client_result_view(r) == self@.added(texts(segments@), method@),
            self@.wf() ==> (r matches Ok(b) ==> b@.wf()),
    {
        proof {
            if self@.wf() && self@.added(texts(segments@), method@).is_ok() {
                lemma_client_added_keeps_wf(self@, texts(segments@), method@);
            }
        }
        let mut path = String::from_str("./");
        path.append(join(segments, "/").as_str());
        let mut import_map = self.import_map;
        let ghost groups = import_map.deep_view();
        let i = find_group(&import_map, &path);
        if i < import_map.len() {
            assert(groups[i as int] == import_map[i as int].deep_view());
            let entry = import_map.remove(i);
            let mut names = entry.1;
            let ghost before = names.deep_view();
            names.push(String::from_str(method));
            assert(names.deep_view() =~= before.push(method@));
            import_map.insert(i, (entry.0, names));
            assert(import_map.deep_view() =~= groups.update(i as int, (path@, before.push(method@))));
        } else {
            let mut names: Vec<String> = Vec::new();
            names.push(String::from_str(method));
            assert(names.deep_view() =~= seq![method@]);
            import_map.push((path, names));
            assert(import_map.deep_view() =~= groups.push((path@, seq![method@])));
        }
        match self.obj.add(segments, 0, String::from_str(method)) {
            Err(e) => Err(e),
            Ok(obj) => Ok(ClientObjectBuilder { obj, import_map }),
        }
    }

    /// The import lines of the root client file, one for each route file.
    pub fn get_ts_imports(&self) -> (text: String)
        ensures
            text@ == self@.ts_imports(),
    {
        let mut lines: Vec<String> = Vec::new();
        let mut i: usize = 0;
        let ghost all = Seq::new(
            self@.import_map.len(),
            |i: int| group_line(self@.import_map[i]),
        );
        assert(texts(lines@) =~= all.take(0));
        while i < self.import_map.len()
            invariant
                i <= self.import_map.len(),
                all == Seq::new(self@.import_map.len(), |i: int| group_line(self@.import_map[i])),
                texts(lines@) == all.take(i as int),
            decreases self.import_map.len() - i,
        {
            assert(self@.import_map[i as int] == self.import_map[i as int].deep_view());
            assert(texts(self.import_map[i as int].1@) =~= self.import_map[i as int].1.deep_view());
            let mut line = String::from_str("import { ");
            line.append(join(&self.import_map[i].1, ", ").as_str());
            line.append(" } from \"");
            line.append(self.import_map[i].0.as_str());
            line.append("\";");
            let ghost before = texts(lines@);
            lines.push(line);
            assert(texts(lines@) =~= before.push(line@));
            assert(texts(lines@) =~= all.take(i + 1));
            i += 1;
        }
        assert(all.take(self.import_map.len() as int) =~= all);
        join(&lines, "\n")
    }
}

/// The HTTP methods that a route can answer.
#[derive(Debug, PartialEq, Eq, PartialOrd, Hash, Copy, Clone, Structural)]
pub enum HTTPMethod {
    GET,
    POST,
    PUT,
    DELETE,
}

impl DeepView for HTTPMethod {
    type V = HTTPMethod;

    open spec fn deep_view(&self) -> HTTPMethod {
        *self
    }
}

impl HTTPMethod {
    /// The method in lower case, as the names of client functions begin.
    pub open spec fn name(self) -> Seq<char> {
        match self {
            HTTPMethod::GET => "get"@,
            HTTPMethod::POST => "post"@,
            HTTPMethod::PUT => "put"@,
            HTTPMethod::DELETE => "delete"@,
        }
    }

    /// The method in upper case, as a request states it.
    pub open spec fn method(self) -> Seq<char> {
        match self {
            HTTPMethod::GET => "GET"@,
            HTTPMethod::POST => "POST"@,
            HTTPMethod::PUT => "PUT"@,
            HTTPMethod::DELETE => "DELETE"@,
        }
    }

    /// The method in lower case.
    pub fn to_name(&self) -> (name: &'static str)
        ensures
            name@ == self.name(),
    {
        match self {
            HTTPMethod::GET => "get",
            HTTPMethod::POST => "post",
            HTTPMethod::PUT => "put",
            HTTPMethod::DELETE => "delete",
        }
    }

    /// The method in upper case.
    pub fn to_method(&self) -> (method: &'static str)
        ensures
            method@ == self.method(),
    {
        match self {
            HTTPMethod::GET => "GET",
            HTTPMethod::POST => "POST",
            HTTPMethod::PUT => "PUT",
            HTTPMethod::DELETE => "DELETE",
        }
    }
}

/// One method of a route: its slots, in the order of the handler's
/// parameters with the result last, and the name of its client function,
/// where one was given.
#[derive(Debug)]
pub struct Method {
    pub content: Vec<RouteComponentType>,
    pub name: Option<String>,
}

/// The mathematical value of a [`Method`].
pub struct MethodView {
    pub content: Seq<RouteComponentType>,
    pub name: Option<Seq<char>>,
}

impl DeepView for Method {
    type V = MethodView;

    open spec fn deep_view(&self) -> MethodView {
        MethodView { content: self.content@, name: self.name.deep_view() }
    }
}

impl View for Method {
    type V = MethodView;

    open spec fn view(&self) -> MethodView {
        self.deep_view()
    }
}

/// One path with the methods that answer on it, in the order in which they
/// were registered. In a route that is well formed no method occurs twice.
#[derive(Debug)]
pub struct Route {
    pub methods: Vec<(HTTPMethod, Method)>,
}

/// The mathematical value of a [`Route`].
pub struct RouteView {
    pub methods: Seq<(HTTPMethod, MethodView)>,
}

impl DeepView for Route {
    type V = RouteView;

    open spec fn deep_view(&self) -> RouteView {
        RouteView {
            methods: Seq::new(
                self.methods@.len(),
                |i: int| (self.methods@[i].0, self.methods@[i].1@),
            ),
        }
    }
}

impl View for Route {
    type V = RouteView;

    open spec fn view(&self) -> RouteView {
        self.deep_view()
    }
}

/// The index of the first entry from `from` on for the method; the number
/// of entries where there is none.
pub open spec fn method_position(
    methods: Seq<(HTTPMethod, MethodView)>,
    http: HTTPMethod,
    from: int,
) -> int
    decreases methods.len() - from,
{
    if from < 0 || from >= methods.len() {
        methods.len() as int
    } else if methods[from].0 == http {
        from
    } else {
        method_position(methods, http, from + 1)
    }
}

/// What the position of a method is: the entry there is for the method
/// and none before it is.
pub proof fn lemma_method_position(
    methods: Seq<(HTTPMethod, MethodView)>,
    http: HTTPMethod,
    from: int,
)
    requires
        0 <= from <= methods.len(),
    ensures
        from <= method_position(methods, http, from) <= methods.len(),
        method_position(methods, http, from) < methods.len() ==> methods[method_position(
            methods,
            http,
            from,
        )].0 == http,
        forall|j: int|
            from <= j < method_position(methods, http, from) ==> (#[trigger] methods[j]).0 != http,
    decreases methods.len() - from,
{
    if from < methods.len() && methods[from].0 != http {
        lemma_method_position(methods, http, from + 1);
    }
}

impl RouteView {
    /// The invariant of a route: no method occurs twice.
    pub open spec fn wf(self) -> bool {
        forall|i: int, j: int|
            0 <= i < j < self.methods.len() ==> self.methods[i].0 != self.methods[j].0
    }

    /// The route with the method registered: it takes the place of an
    /// earlier registration of the same method, else it comes last.
    pub open spec fn with_method(self, http: HTTPMethod, method: MethodView) -> RouteView {
        let at = method_position(self.methods, http, 0);
        if 0 <= at < self.methods.len() {
            RouteView { methods: self.methods.update(at, (http, method)) }
        } else {
            RouteView { methods: self.methods.push((http, method)) }
        }
    }

    /// The route with the client function of one method named; a method
    /// that is not registered is passed over.
    pub open spec fn with_name(self, http: HTTPMethod, name: Seq<char>) -> RouteView {
        let at = method_position(self.methods, http, 0);
        if 0 <= at < self.methods.len() {
            RouteView {
                methods: self.methods.update(
                    at,
                    (http, MethodView { content: self.methods[at].1.content, name: Some(name) }),
                ),
            }
        } else {
            self
        }
    }

    /// The route after the names from `from` on have been given, in their order.
    pub open spec fn with_names(self, names: Seq<(HTTPMethod, Seq<char>)>, from: int) -> RouteView
        decreases names.len() - from,
    {
        if from < 0 || from >= names.len() {
            self
        } else {
            self.with_name(names[from].0, names[from].1).with_names(names, from + 1)
        }
    }
}

/// Registering a method keeps the route well formed.
pub proof fn lemma_with_method_keeps_wf(r: RouteView, http: HTTPMethod, method: MethodView)
    requires
        r.wf(),
    ensures
        r.with_method(http, method).wf(),
{
    lemma_method_position(r.methods, http, 0);
    let at = method_position(r.methods, http, 0);
    let after = r.with_method(http, method).methods;
    assert forall|i: int, j: int| 0 <= i < j < after.len() implies after[i].0 != after[j].0 by {
        if at < r.methods.len() {
            assert(after[i].0 == r.methods[i].0);
            assert(after[j].0 == r.methods[j].0);
        } else {
            assert(after[i] == r.methods[i]);
            if j < r.methods.len() {
                assert(after[j] == r.methods[j]);
            }
        }
    }
}

/// Naming client functions keeps the route well formed.
pub proof fn lemma_with_names_keeps_wf(
    r: RouteView,
    names: Seq<(HTTPMethod, Seq<char>)>,
    from: int,
)
    requires
        r.wf(),
    ensures
        r.with_names(names, from).wf(),
    decreases names.len() - from,
{
    if 0 <= from < names.len() {
        let http = names[from].0;
        lemma_method_position(r.methods, http, 0);
        let next = r.with_name(http, names[from].1);
        assert forall|i: int, j: int| 0 <= i < j < next.methods.len() implies next.methods[i].0
            != next.methods[j].0 by {
            assert(next.methods[i].0 == r.methods[i].0);
            assert(next.methods[j].0 == r.methods[j].0);
        }
        lemma_with_names_keeps_wf(next, names, from + 1);
    }
}

impl Route {
    /// A route without methods.
    pub fn new() -> (route: Self)
        ensures
            route@.methods == Seq::<(HTTPMethod, MethodView)>::empty(),
            route@.wf(),
    {
        let route = Route { methods: Vec::new() };
        assert(route@.methods =~= Seq::empty());
        route
    }

    /// The index of the first entry for the method.
    fn find(&self, http: HTTPMethod) -> (at: usize)
        ensures
            at == method_position(self@.methods, http, 0),
            at <= self.methods.len(),
    {
        let mut i: usize = 0;
        while i < self.methods.len()
            invariant
                i <= self.methods.len(),
                method_position(self@.methods, http, 0) == method_position(
                    self@.methods,
                    http,
                    i as int,
                ),
            decreases self.methods.len() - i,
        {
            if self.methods[i].0 == http {
                return i;
            }
            i += 1;
        }
        i
    }

    /// Registers a method: see [`RouteView::with_method`].
    pub fn insert(&mut self, http: HTTPMethod, method: Method)
        ensures
            final(self)@ == old(self)@.with_method(http, method@),
            old(self)@.wf() ==> final(self)@.wf(),
    {
        proof {
            if self@.wf() {
                lemma_with_method_keeps_wf(self@, http, method@);
            }
        }
        let at = self.find(http);
        let ghost before = self@.methods;
        if at < self.methods.len() {
            let _ = self.methods.remove(at);
            self.methods.insert(at, (http, method));
            assert(self@.methods =~= before.update(at as int, (http, method@)));
        } else {
            self.methods.push((http, method));
            assert(self@.methods =~= before.push((http, method@)));
        }
    }

    /// Names the client functions of the methods: see [`RouteView::with_names`].
    pub fn rename_ts_methods(&mut self, map: Vec<(HTTPMethod, String)>)
        ensures
            final(self)@ == old(self)@.with_names(map.deep_view(), 0),
            old(self)@.wf() ==> final(self)@.wf(),
    {
        proof {
            if self@.wf() {
                lemma_with_names_keeps_wf(self@, map.deep_view(), 0);
            }
        }
        let mut i: usize = 0;
        while i < map.len()
            invariant
                i <= map.len(),
                old(self)@.with_names(map.deep_view(), 0) == self@.with_names(
                    map.deep_view(),
                    i as int,
                ),
            decreases map.len() - i,
        {
            assert(map.deep_view()[i as int] == (map[i as int].0, map[i as int].1@));
            let http = map[i].0;
            let at = self.find(http);
            let ghost before = self@.methods;
            if at < self.methods.len() {
                let entry = self.methods.remove(at);
                let renamed = Method { content: entry.1.content, name: Some(map[i].1.clone()) };
                self.methods.insert(at, (http, renamed));
                assert(self@.methods =~= before.update(
                    at as int,
                    (
                        http,
                        MethodView { content: before[at as int].1.content, name: Some(map[i as int].1@) },
                    ),
                ));
            }
            i += 1;
        }
    }
}

/// The parts of a request that the slots of a method fill in.
pub struct RouteDestructured {
    pub path: Option<String>,
    pub query: Option<String>,
    pub body: Option<String>,
}

/// The mathematical value of a [`RouteDestructured`].
pub struct DestructuredView {
    pub path: Option<Seq<char>>,
    pub query: Option<Seq<char>>,
    pub body: Option<Seq<char>>,
}

impl DestructuredView {
    /// The request of which no part is filled in.
    pub open spec fn empty() -> DestructuredView {
        DestructuredView { path: None, query: None, body: None }
    }
}

impl DeepView for RouteDestructured {
    type V = DestructuredView;

    open spec fn deep_view(&self) -> DestructuredView {
        DestructuredView {
            path: self.path.deep_view(),
            query: self.query.deep_view(),
            body: self.body.deep_view(),
        }
    }
}

impl View for RouteDestructured {
    type V = DestructuredView;

    open spec fn view(&self) -> DestructuredView {
        self.deep_view()
    }
}

impl Default for RouteDestructured {
    fn default() -> (parts: Self)
        ensures
            parts@ == DestructuredView::empty(),
    {
        RouteDestructured { path: None, query: None, body: None }
    }
}

/// The statements that build the query string from the statements for its fields.
pub open spec fn query_block(statements: Seq<char>) -> Seq<char> {
    "\n    const __params = new URLSearchParams();\n\n"@ + statements
        + "\n\n    const __queryString = \"?\" + __params.toString();\n"@
}

/// The parts of a request after one slot has been seen: a query gives the
/// query string, a body gives the body in its encoding and a result gives
/// nothing. A path parameter is admitted and refused: it ends the build
/// with `PathParameterUnsupported`, and no part is filled in for it.
pub open spec fn adjusted(
    parts: DestructuredView,
    slot: RouteComponentType,
    name: Seq<char>,
    component: ComponentView,
    reg: RegistryView,
) -> Result<DestructuredView, BuildError> {
    match slot {
        RouteComponentType::Query(_) => match component.typ.query_string(
            reg,
            name,
            reg.components.len(),
        ) {
            Err(e) => Err(e),
            Ok(statements) => Ok(DestructuredView { query: Some(query_block(statements)), ..parts }),
        },
        RouteComponentType::Path(_) => Err(BuildError::PathParameterUnsupported),
        RouteComponentType::Json(Postion::Body, _) => Ok(
            DestructuredView {
                body: Some("const __body = JSON.stringify("@ + name + ");"@),
                ..parts
            },
        ),
        RouteComponentType::Raw(Postion::Body, _) => Ok(
            DestructuredView { body: Some("const __body = "@ + name + ";"@), ..parts },
        ),
        _ => Ok(parts),
    }
}

impl Route {
    /// Fills in the part of a request that a slot stands for: see
    /// [`adjusted`]. Where the slot is refused the parts stay as they were.
    pub fn adjust_route_obj(
        &self,
        route: &mut RouteDestructured,
        part: &RouteComponentType,
        name: &str,
        full_route: &str,
        comp: &Component,
        registry: &GlobalTypeRegistry,
    ) -> (r: Result<(), BuildError>)
        ensures
            match adjusted(old(route)@, *part, name@, comp@, registry@) {
                Ok(parts) => r.is_ok() && final(route)@ == parts,
                Err(e) => r == Err::<(), BuildError>(e) && final(route)@ == old(route)@,
            },
    {
        match part {
            RouteComponentType::Query(_) => match comp.typ.build_query_string(name, registry) {
                Err(e) => Err(e),
                Ok(statements) => {
                    let mut query = String::from_str(
                        "\n    const __params = new URLSearchParams();\n\n",
                    );
                    query.append(statements.as_str());
                    query.append("\n\n    const __queryString = \"?\" + __params.toString();\n");
                    route.query = Some(query);
                    Ok(())
                },
            },
            RouteComponentType::Path(_) => Err(BuildError::PathParameterUnsupported),
            RouteComponentType::Json(pos, _) => {
                match pos {
                    Postion::Body => {
                        let mut body = String::from_str("const __body = JSON.stringify(");
                        body.append(name);
                        body.append(");");
                        route.body = Some(body);
                    },
                    Postion::Result => {},
                }
                Ok(())
            },
            RouteComponentType::Raw(pos, _) => {
                match pos {
                    Postion::Body => {
                        let mut body = String::from_str("const __body = ");
                        body.append(name);
                        body.append(";");
                        route.body = Some(body);
                    },
                    Postion::Result => {},
                }
                Ok(())
            },
        }
    }
}

/// Whether a name has an import line.
pub open spec fn has_line(imports: Seq<(Seq<char>, Seq<char>)>, name: Seq<char>) -> bool {
    exists|i: int| 0 <= i < imports.len() && (#[trigger] imports[i]).0 == name
}

/// The imports of a client file with the line for one component added,
/// where the component has a file of its own and no line yet.
pub open spec fn add_client_import(
    imports: Seq<(Seq<char>, Seq<char>)>,
    names: BuilderView,
    level: nat,
    component: ComponentView,
) -> Seq<(Seq<char>, Seq<char>)> {
    let name = names.emitted_name(component.name, component.hash);
    if names.has_file(name) && !has_line(imports, name) {
        imports.push((name, import_line(true, name, level)))
    } else {
        imports
    }
}

/// The imports of a client file with the lines for the components from `from` on added.
pub open spec fn client_imports(
    imports: Seq<(Seq<char>, Seq<char>)>,
    names: BuilderView,
    level: nat,
    needed: Seq<ComponentView>,
    from: int,
) -> Seq<(Seq<char>, Seq<char>)>
    decreases needed.len() - from,
{
    if from < 0 || from >= needed.len() {
        imports
    } else {
        client_imports(
            add_client_import(imports, names, level, needed[from]),
            names,
            level,
            needed,
            from + 1,
        )
    }
}

/// What the slots of a method have given so far: the parameters of the
/// client function and their names, its result type, the parts of the
/// request, and the imports of the file.
pub struct SlotsView {
    pub inputs: Seq<Seq<char>>,
    pub input_names: Seq<Seq<char>>,
    pub result: Seq<char>,
    pub parts: DestructuredView,
    pub imports: Seq<(Seq<char>, Seq<char>)>,
}

/// What the slots have given after one more slot.
///
/// The component of the slot is looked up and named. A query, a path
/// parameter and a body become a parameter of the client function, named by
/// the cleaned name of the component and typed by its emitted name, and
/// fill in their part of the request; a result gives the result type. The
/// components that the slot needs are imported.
pub open spec fn slot_step(
    reg: RegistryView,
    names: BuilderView,
    level: nat,
    slot: RouteComponentType,
    state: SlotsView,
) -> Result<SlotsView, BuildError> {
    match reg.resolve(slot.handle()) {
        None => Err(BuildError::UnresolvedHandle),
        Some(i) => match reg.components[i].import_components(
            reg,
            slot.position(),
            reg.components.len(),
        ) {
            Err(e) => Err(e),
            Ok(needed) => match reg.components[i].ts_name(reg, names, reg.components.len()) {
                Err(e) => Err(e),
                Ok(ts_name) => match adjusted(
                    state.parts,
                    slot,
                    clean_name(ts_name),
                    reg.components[i],
                    reg,
                ) {
                    Err(e) => Err(e),
                    Ok(parts) => {
                        let imports = match needed {
                            Some(list) => client_imports(state.imports, names, level, list, 0),
                            None => state.imports,
                        };
                        if slot.is_input() {
                            Ok(
                                SlotsView {
                                    inputs: state.inputs.push(
                                        clean_name(ts_name) + ": "@ + names.emitted_name(
                                            reg.components[i].name,
                                            reg.components[i].hash,
                                        ),
                                    ),
                                    input_names: state.input_names.push(clean_name(ts_name)),
                                    result: state.result,
                                    parts,
                                    imports,
                                },
                            )
                        } else {
                            match reg.components[i].client_result(
                                reg,
                                names,
                                reg.components.len(),
                            ) {
                                Err(e) => Err(e),
                                Ok(result) => Ok(
                                    SlotsView {
                                        inputs: state.inputs,
                                        input_names: state.input_names,
                                        result: "Promise<"@ + result + ">"@,
                                        parts,
                                        imports,
                                    },
                                ),
                            }
                        }
                    },
                },
            },
        },
    }
}

/// What the slots from `from` on give, after `state`.
pub open spec fn slots_from(
    reg: RegistryView,
    names: BuilderView,
    level: nat,
    content: Seq<RouteComponentType>,
    from: int,
    state: SlotsView,
) -> Result<SlotsView, BuildError>
    decreases content.len() - from,
{
    if from < 0 || from >= content.len() {
        Ok(state)
    } else {
        match slot_step(reg, names, level, content[from], state) {
            Err(e) => Err(e),
            Ok(next) => slots_from(reg, names, level, content, from + 1, next),
        }
    }
}

/// The headers that the slots from `from` on set, after those in `done`.
pub open spec fn header_entries(content: Seq<RouteComponentType>, from: int, done: Seq<Seq<char>>) -> Seq<
    Seq<char>,
>
    decreases content.len() - from,
{
    if from < 0 || from >= content.len() {
        done
    } else {
        header_entries(
            content,
            from + 1,
            match content[from].default_header() {
                Some((key, value)) => done.push("'"@ + key + "': '"@ + value + "'"@),
                None => done,
            },
        )
    }
}

/// The name of the client function of a method: the name it was given,
/// else the method in lower case followed by the capitalised name of the
/// file without its ending; in both cases cleaned.
pub open spec fn method_base_name(http: HTTPMethod, given: Option<Seq<char>>, file_name: Seq<char>) -> Seq<
    char,
> {
    clean_name(
        match given {
            Some(name) => name,
            None => http.name() + capitalized(without_suffix(file_name, ".ts"@)),
        },
    )
}

/// The function that sends the request and hands back the raw response.
pub open spec fn raw_function(
    name: Seq<char>,
    inputs: Seq<char>,
    headers: Seq<char>,
    body: Seq<char>,
    query: Seq<char>,
    route: Seq<char>,
    http: HTTPMethod,
) -> Seq<char> {
    "\nexport async function "@ + name + "_RAW("@ + inputs
        + "): Promise<Response> {\n    const headers = new Headers({\n        "@ + headers
        + "\n    });\n\n    "@ + body + "\n\n    "@ + query
        + "\n\n    let __result = await fetch(`${__client__.BASE_PATH}"@ + route
        + "${__queryString}`, {\n        method: '"@ + http.method()
        + "',\n        headers: headers,\n        body: __body\n    });\n\n    return __result\n}\n"@
}

/// The function that calls the raw one and reads the response: the error
/// arm for a status that is not a success, else the value.
pub open spec fn typed_function(
    name: Seq<char>,
    inputs: Seq<char>,
    input_names: Seq<char>,
    result: Seq<char>,
) -> Seq<char> {
    "\nexport async function "@ + name + "("@ + inputs + "): "@ + result
        + " {\n    let __result = await "@ + name + "_RAW("@ + input_names
        + ");\n\n    if(!__result.ok) {\n        let error = await __result.json();\n        return {\n            isError: true, \n            status_code: __result.status,  \n            error\n        }\n    } else {\n        return await __result.json()\n    }\n}\n"@
}

/// The directory of the root client file as seen from a client file
/// `level` directories below the output root.
pub open spec fn client_dir(level: nat) -> Seq<char> {
    if level <= 1 {
        "."@
    } else {
        climb((level - 1) as nat)
    }
}

/// The line that imports the root client into a client file.
pub open spec fn client_import(level: nat) -> Seq<char> {
    "import __client__, {type ApiResult} from \""@ + client_dir(level) + "/client\""@
}

/// A client file while it is put together, and the client object beside it.
pub struct RouteFileView {
    pub imports: Seq<(Seq<char>, Seq<char>)>,
    pub functions: Seq<Seq<char>>,
    pub client: ClientBuilderView,
}

/// The client file after one more method: its two functions are added,
/// and the typed one is entered into the client object under the segments
/// of the route.
pub open spec fn method_step(
    reg: RegistryView,
    names: BuilderView,
    route: Seq<char>,
    path: Seq<Seq<char>>,
    file_name: Seq<char>,
    level: nat,
    http: HTTPMethod,
    method: MethodView,
    state: RouteFileView,
) -> Result<RouteFileView, BuildError> {
    match slots_from(
        reg,
        names,
        level,
        method.content,
        0,
        SlotsView {
            inputs: Seq::empty(),
            input_names: Seq::empty(),
            result: "void"@,
            parts: DestructuredView::empty(),
            imports: state.imports,
        },
    ) {
        Err(e) => Err(e),
        Ok(slots) => match state.client.added(
            path,
            method_base_name(http, method.name, file_name),
        ) {
            Err(e) => Err(e),
            Ok(client) => Ok(
                RouteFileView {
                    imports: slots.imports,
                    functions: state.functions.push(
                        raw_function(
                            method_base_name(http, method.name, file_name),
                            join_spec(slots.inputs, ", "@),
                            join_spec(header_entries(method.content, 0, Seq::empty()), ",\n\t\t"@),
                            match slots.parts.body {
                                Some(body) => body,
                                None => "const __body = null;"@,
                            },
                            match slots.parts.query {
                                Some(query) => query,
                                None => "const __queryString = \"\";"@,
                            },
                            route,
                            http,
                        ),
                    ).push(
                        typed_function(
                            method_base_name(http, method.name, file_name),
                            join_spec(slots.inputs, ", "@),
                            join_spec(slots.input_names, ", "@),
                            slots.result,
                        ),
                    ),
                    client,
                },
            ),
        },
    }
}

/// The client file after the methods from `from` on, after `state`.
pub open spec fn methods_from(
    reg: RegistryView,
    names: BuilderView,
    route: Seq<char>,
    path: Seq<Seq<char>>,
    file_name: Seq<char>,
    level: nat,
    methods: Seq<(HTTPMethod, MethodView)>,
    from: int,
    state: RouteFileView,
) -> Result<RouteFileView, BuildError>
    decreases methods.len() - from,
{
    if from < 0 || from >= methods.len() {
        Ok(state)
    } else {
        match method_step(
            reg,
            names,
            route,
            path,
            file_name,
            level,
            methods[from].0,
            methods[from].1,
            state,
        ) {
            Err(e) => Err(e),
            Ok(next) => methods_from(
                reg,
                names,
                route,
                path,
                file_name,
                level,
                methods,
                from + 1,
                next,
            ),
        }
    }
}

/// The import lines of a client file, in their order.
pub open spec fn import_texts(imports: Seq<(Seq<char>, Seq<char>)>) -> Seq<Seq<char>> {
    Seq::new(imports.len(), |i: int| imports[i].1)
}

impl RouteView {
    /// The text of the client file of this route, and the client object
    /// after the functions of the route have been entered.
    ///
    /// The file starts with the header and the import lines, the first of
    /// which imports the root client. Then come, for each method in the
    /// order of registration, the raw function and the typed one.
    pub open spec fn built(
        self,
        client: ClientBuilderView,
        route: Seq<char>,
        path: Seq<Seq<char>>,
        file_name: Seq<char>,
        level: nat,
        reg: RegistryView,
        names: BuilderView,
    ) -> Result<(Seq<char>, ClientBuilderView), BuildError> {
        match methods_from(
            reg,
            names,
            route,
            path,
            file_name,
            level,
            self.methods,
            0,
            RouteFileView {
                imports: seq![("__client__"@, client_import(level))],
                functions: Seq::empty(),
                client,
            },
        ) {
            Err(e) => Err(e),
            Ok(state) => Ok(
                (
                    FILE_HEADER@ + "\n"@ + join_spec(import_texts(state.imports), "\n"@)
                        + "\n\n "@ + join_spec(state.functions, "\n\n"@),
                    state.client,
                ),
            ),
        }
    }
}

/// The value of a client file and client object that were produced, or the
/// error that was met.
pub open spec fn route_result(r: Result<(String, ClientObjectBuilder), BuildError>) -> Result<
    (Seq<char>, ClientBuilderView),
    BuildError,
> {
    match r {
        Ok((text, client)) => Ok((text@, client@)),
        Err(e) => Err(e),
    }
}

fn holds_line(imports: &Vec<(String, String)>, name: &String) -> (found: bool)
    ensures
        found == has_line(imports.deep_view(), name@),
{
    let mut i: usize = 0;
    while i < imports.len()
        invariant
            i <= imports.len(),
            forall|j: int| 0 <= j < i ==> (#[trigger] imports.deep_view()[j]).0 != name@,
        decreases imports.len() - i,
    {
        if imports[i].0 == *name {
            assert(imports.deep_view()[i as int].0 == name@);
            return true;
        }
        assert(imports.deep_view()[i as int].0 != name@);
        i += 1;
    }
    false
}

fn put_client_imports(
    imports: &mut Vec<(String, String)>,
    builder: &TypeBuilder,
    level: usize,
    needed: &Vec<&Component>,
)
    ensures
        final(imports).deep_view() == client_imports(
            old(imports).deep_view(),
            builder@,
            level as nat,
            needed.deep_view(),
            0,
        ),
{
    let mut i: usize = 0;
    while i < needed.len()
        invariant
            i <= needed.len(),
            client_imports(old(imports).deep_view(), builder@, level as nat, needed.deep_view(), 0)
                == client_imports(
                imports.deep_view(),
                builder@,
                level as nat,
                needed.deep_view(),
                i as int,
            ),
        decreases needed.len() - i,
    {
        assert(needed.deep_view()[i as int] == needed[i as int]@);
        let found = builder.get_type_and_import(needed[i].name.as_str(), needed[i].hash, level);
        let declared = builder.find_file(found.0.as_str()).is_some();
        if declared && !holds_line(imports, &found.0) {
            let ghost before = imports.deep_view();
            imports.push(found);
            assert(imports.deep_view() =~= before.push((found.0@, found.1@)));
        }
        i += 1;
    }
}

/// What the slots of a method have given so far.
struct Slots {
    inputs: Vec<String>,
    input_names: Vec<String>,
    result: String,
    parts: RouteDestructured,
    imports: Vec<(String, String)>,
}

impl View for Slots {
    type V = SlotsView;

    closed spec fn view(&self) -> SlotsView {
        SlotsView {
            inputs: texts(self.inputs@),
            input_names: texts(self.input_names@),
            result: self.result@,
            parts: self.parts@,
            imports: self.imports.deep_view(),
        }
    }
}

/// The value of what the slots gave, or the error that was met.
spec fn slots_result(r: Result<Slots, BuildError>) -> Result<SlotsView, BuildError> {
    match r {
        Ok(slots) => Ok(slots@),
        Err(e) => Err(e),
    }
}

impl Route {
    /// Takes one more slot into account: see [`slot_step`].
    fn take_slot(
        &self,
        state: Slots,
        slot: RouteComponentType,
        route: &str,
        level: usize,
        registry: &GlobalTypeRegistry,
        builder: &TypeBuilder,
    ) -> (r: Result<Slots, BuildError>)
        ensures
            slots_result(r) == slot_step(registry@, builder@, level as nat, slot, state@),
    {
        let mut state = state;
        let main = match registry.find(slot.get_indexed()) {
            None => {
                return Err(BuildError::UnresolvedHandle);
            },
            Some(main) => main,
        };
        let needed = match main.get_import_component(registry, slot.get_position()) {
            Err(e) => {
                return Err(e);
            },
            Ok(needed) => needed,
        };
        let depth = registry.components().len();
        let ts_name = match main.emitted_ts_name(registry, builder, depth) {
            Err(e) => {
                return Err(e);
            },
            Ok(ts_name) => ts_name,
        };
        let clean = clean_var_name(ts_name.as_str());
        match self.adjust_route_obj(&mut state.parts, &slot, clean.as_str(), route, main, registry) {
            Err(e) => {
                return Err(e);
            },
            Ok(_) => {},
        }
        match needed {
            Some(list) => {
                put_client_imports(&mut state.imports, builder, level, &list);
            },
            None => {},
        }
        let is_input = match slot {
            RouteComponentType::Query(_) => true,
            RouteComponentType::Path(_) => true,
            RouteComponentType::Json(pos, _) => match pos {
                Postion::Body => true,
                Postion::Result => false,
            },
            RouteComponentType::Raw(pos, _) => match pos {
                Postion::Body => true,
                Postion::Result => false,
            },
        };
        if is_input {
            let typ = builder.emitted_name(main.name.as_str(), main.hash);
            let mut input = clean.clone();
            input.append(": ");
            input.append(typ.as_str());
            let ghost before = texts(state.inputs@);
            state.inputs.push(input);
            assert(texts(state.inputs@) =~= before.push(input@));
            let ghost names_before = texts(state.input_names@);
            state.input_names.push(clean);
            assert(texts(state.input_names@) =~= names_before.push(clean@));
            Ok(state)
        } else {
            match main.get_client_result(registry, builder) {
                Err(e) => Err(e),
                Ok(found) => {
                    let mut text = String::from_str("Promise<");
                    text.append(found.as_str());
                    text.append(">");
                    state.result = text;
                    Ok(state)
                },
            }
        }
    }

    /// Takes the slots of a method into account: see [`slots_from`].
    fn take_slots(
        &self,
        content: &Vec<RouteComponentType>,
        imports: Vec<(String, String)>,
        route: &str,
        level: usize,
        registry: &GlobalTypeRegistry,
        builder: &TypeBuilder,
    ) -> (r: Result<Slots, BuildError>)
        ensures
            slots_result(r) == slots_from(
                registry@,
                builder@,
                level as nat,
                content@,
                0,
                SlotsView {
                    inputs: Seq::empty(),
                    input_names: Seq::empty(),
                    result: "void"@,
                    parts: DestructuredView::empty(),
                    imports: imports.deep_view(),
                },
            ),
    {
        let mut state = Slots {
            inputs: Vec::new(),
            input_names: Vec::new(),
            result: String::from_str("void"),
            parts: RouteDestructured::default(),
            imports,
        };
        assert(texts(state.inputs@) =~= Seq::<Seq<char>>::empty());
        assert(texts(state.input_names@) =~= Seq::<Seq<char>>::empty());
        let ghost start = state@;
        let mut k: usize = 0;
        while k < content.len()
            invariant
                k <= content.len(),
                start == (SlotsView {
                    inputs: Seq::empty(),
                    input_names: Seq::empty(),
                    result: "void"@,
                    parts: DestructuredView::empty(),
                    imports: imports.deep_view(),
                }),
                slots_from(registry@, builder@, level as nat, content@, 0, start) == slots_from(
                    registry@,
                    builder@,
                    level as nat,
                    content@,
                    k as int,
                    state@,
                ),
            decreases content.len() - k,
        {
            state = match self.take_slot(state, content[k], route, level, registry, builder) {
                Err(e) => {
                    return Err(e);
                },
                Ok(next) => next,
            };
            k += 1;
        }
        Ok(state)
    }
}

/// The headers that the slots of a method set, joined as the entries of an
/// object literal.
fn headers_text(content: &Vec<RouteComponentType>) -> (text: String)
    ensures
        text@ == join_spec(header_entries(content@, 0, Seq::empty()), ",\n\t\t"@),
{
    let mut headers: Vec<String> = Vec::new();
    let mut h: usize = 0;
    assert(texts(headers@) =~= Seq::<Seq<char>>::empty());
    while h < content.len()
        invariant
            h <= content.len(),
            header_entries(content@, 0, Seq::empty()) == header_entries(
                content@,
                h as int,
                texts(headers@),
            ),
        decreases content.len() - h,
    {
        match content[h].get_default_header() {
            Some(pair) => {
                let mut entry = String::from_str("'");
                entry.append(pair.0.as_str());
                entry.append("': '");
                entry.append(pair.1.as_str());
                entry.append("'");
                let ghost before = texts(headers@);
                headers.push(entry);
                assert(texts(headers@) =~= before.push(entry@));
            },
            None => {},
        }
        h += 1;
    }
    join(&headers, ",\n\t\t")
}

/// The function that sends the request: see [`raw_function`].
fn write_raw_function(
    name: &str,
    inputs: &str,
    headers: &str,
    body: &str,
    query: &str,
    route: &str,
    http: HTTPMethod,
) -> (text: String)
    ensures
        text@ == raw_function(name@, inputs@, headers@, body@, query@, route@, http),
{
    let mut raw = String::from_str("\nexport async function ");
    raw.append(name);
    raw.append("_RAW(");
    raw.append(inputs);
    raw.append("): Promise<Response> {\n    const headers = new Headers({\n        ");
    raw.append(headers);
    raw.append("\n    });\n\n    ");
    raw.append(body);
    raw.append("\n\n    ");
    raw.append(query);
    raw.append("\n\n    let __result = await fetch(`${__client__.BASE_PATH}");
    raw.append(route);
    raw.append("${__queryString}`, {\n        method: '");
    raw.append(http.to_method());
    raw.append(
        "',\n        headers: headers,\n        body: __body\n    });\n\n    return __result\n}\n",
    );
    raw
}

/// The function that reads the response: see [`typed_function`].
fn write_typed_function(name: &str, inputs: &str, input_names: &str, result: &str) -> (text: String)
    ensures
        text@ == typed_function(name@, inputs@, input_names@, result@),
{
    let mut typed = String::from_str("\nexport async function ");
    typed.append(name);
    typed.append("(");
    typed.append(inputs);
    typed.append("): ");
    typed.append(result);
    typed.append(" {\n    let __result = await ");
    typed.append(name);
    typed.append("_RAW(");
    typed.append(input_names);
    typed.append(
        ");\n\n    if(!__result.ok) {\n        let error = await __result.json();\n        return {\n            isError: true, \n            status_code: __result.status,  \n            error\n        }\n    } else {\n        return await __result.json()\n    }\n}\n",
    );
    typed
}

/// The line that imports the root client: see [`client_import`].
fn write_client_import(level: usize) -> (line: String)
    ensures
        line@ == client_import(level as nat),
{
    let mut line = String::from_str("import __client__, {type ApiResult} from \"");
    if level <= 1 {
        line.append(".");
    } else {
        let mut i: usize = 0;
        let ghost start = line@;
        assert(line@ =~= start + climb(0));
        while i < level - 1
            invariant
                i <= level - 1,
                level > 1,
                line@ == start + climb(i as nat),
            decreases level - 1 - i,
        {
            if i > 0 {
                line.append("/");
            }
            line.append("..");
            assert(line@ =~= start + climb((i + 1) as nat));
            i += 1;
        }
    }
    line.append("/client\"");
    line
}

/// A client file while it is put together.
struct RouteFile {
    imports: Vec<(String, String)>,
    functions: Vec<String>,
    client: ClientObjectBuilder,
}

impl View for RouteFile {
    type V = RouteFileView;

    closed spec fn view(&self) -> RouteFileView {
        RouteFileView {
            imports: self.imports.deep_view(),
            functions: texts(self.functions@),
            client: self.client@,
        }
    }
}

/// The value of a client file that was produced, or the error that was met.
spec fn route_file_result(r: Result<RouteFile, BuildError>) -> Result<RouteFileView, BuildError> {
    match r {
        Ok(file) => Ok(file@),
        Err(e) => Err(e),
    }
}

impl Route {
    /// Adds the functions of one method to a client file: see [`method_step`].
    fn take_method(
        &self,
        state: RouteFile,
        http: HTTPMethod,
        method: &Method,
        route: &str,
        segments: &Vec<String>,
        name: &str,
        level: usize,
        registry: &GlobalTypeRegistry,
        builder: &TypeBuilder,
    ) -> (r: Result<RouteFile, BuildError>)
        ensures
            route_file_result(r) == method_step(
                registry@,
                builder@,
                route@,
                texts(segments@),
                name@,
                level as nat,
                http,
                method@,
                state@,
            ),
            state@.client.wf() ==> (r matches Ok(file) ==> file@.client.wf()),
    {
        let RouteFile { imports, functions, client } = state;
        let mut functions = functions;
        let slots = match self.take_slots(&method.content, imports, route, level, registry, builder) {
            Err(e) => {
                return Err(e);
            },
            Ok(slots) => slots,
        };
        let given = match &method.name {
            Some(given) => given.clone(),
            None => {
                let mut default_name = String::from_str(http.to_name());
                let stem = strip_suffix(name, ".ts");
                default_name.append(capitalize_first_letter(stem.as_str()).as_str());
                default_name
            },
        };
        let base_name = clean_var_name(given.as_str());
        assert(base_name@ == method_base_name(http, method@.name, name@));
        let client = match client.add(segments, base_name.as_str()) {
            Err(e) => {
                return Err(e);
            },
            Ok(next) => next,
        };
        let all_inputs = join(&slots.inputs, ", ");
        let all_names = join(&slots.input_names, ", ");
        let all_headers = headers_text(&method.content);
        let body = match slots.parts.body {
            Some(body) => body,
            None => String::from_str("const __body = null;"),
        };
        let query = match slots.parts.query {
            Some(query) => query,
            None => String::from_str("const __queryString = \"\";"),
        };
        let raw = write_raw_function(
            base_name.as_str(),
            all_inputs.as_str(),
            all_headers.as_str(),
            body.as_str(),
            query.as_str(),
            route,
            http,
        );
        let typed = write_typed_function(
            base_name.as_str(),
            all_inputs.as_str(),
            all_names.as_str(),
            slots.result.as_str(),
        );
        let ghost before = texts(functions@);
        functions.push(raw);
        functions.push(typed);
        assert(texts(functions@) =~= before.push(raw@).push(typed@));
        Ok(RouteFile { imports: slots.imports, functions, client })
    }

    /// Renders the client file of this route and enters its functions into
    /// the client object: see [`RouteView::built`].
    pub fn build(
        &self,
        client_builder: ClientObjectBuilder,
        route: &str,
        segments: &Vec<String>,
        name: &str,
        level: usize,
        registry: &GlobalTypeRegistry,
        builder: &TypeBuilder,
    ) -> (r: Result<(String, ClientObjectBuilder), BuildError>)
        ensures
            route_result(r) == self@.built(
                client_builder@,
                route@,
                texts(segments@),
                name@,
                level as nat,
                registry@,
                builder@,
            ),
            client_builder@.wf() ==> (r matches Ok(done) ==> done.1@.wf()),
    {
        let mut imports: Vec<(String, String)> = Vec::new();
        imports.push((String::from_str("__client__"), write_client_import(level)));
        assert(imports.deep_view() =~= seq![("__client__"@, client_import(level as nat))]);
        let mut state = RouteFile { imports, functions: Vec::new(), client: client_builder };
        assert(texts(state.functions@) =~= Seq::<Seq<char>>::empty());
        let ghost first = state@;
        let mut m: usize = 0;
        while m < self.methods.len()
            invariant
                m <= self.methods.len(),
                client_builder@.wf() ==> state@.client.wf(),
                first == (RouteFileView {
                    imports: seq![("__client__"@, client_import(level as nat))],
                    functions: Seq::empty(),
                    client: client_builder@,
                }),
                methods_from(
                    registry@,
                    builder@,
                    route@,
                    texts(segments@),
                    name@,
                    level as nat,
                    self@.methods,
                    0,
                    first,
                ) == methods_from(
                    registry@,
                    builder@,
                    route@,
                    texts(segments@),
                    name@,
                    level as nat,
                    self@.methods,
                    m as int,
                    state@,
                ),
            decreases self.methods.len() - m,
        {
            assert(self@.methods[m as int] == (self.methods[m as int].0, self.methods[m as int].1@));
            state = match self.take_method(
                state,
                self.methods[m].0,
                &self.methods[m].1,
                route,
                segments,
                name,
                level,
                registry,
                builder,
            ) {
                Err(e) => {
                    return Err(e);
                },
                Ok(next) => next,
            };
            m += 1;
        }
        let mut lines: Vec<String> = Vec::new();
        let mut i: usize = 0;
        assert(texts(lines@) =~= import_texts(state.imports.deep_view()).take(0));
        while i < state.imports.len()
            invariant
                i <= state.imports.len(),
                texts(lines@) == import_texts(state.imports.deep_view()).take(i as int),
            decreases state.imports.len() - i,
        {
            let ghost before = texts(lines@);
            lines.push(state.imports[i].1.clone());
            assert(texts(lines@) =~= before.push(state.imports[i as int].1@));
            assert(texts(lines@) =~= import_texts(state.imports.deep_view()).take(i + 1));
            i += 1;
        }
        assert(import_texts(state.imports.deep_view()).take(state.imports.len() as int)
            =~= import_texts(state.imports.deep_view()));
        let mut text = String::from_str(FILE_HEADER);
        text.append("\n");
        text.append(join(&lines, "\n").as_str());
        text.append("\n\n ");
        text.append(join(&state.functions, "\n\n").as_str());
        Ok((text, state.client))
    }
}

/// The routes of an application, in the order in which they were
/// registered. In an api that is well formed no path occurs twice and every
/// route is well formed.
#[derive(Debug)]
pub struct Api {
    pub routes: Vec<(String, Route)>,
}

/// The mathematical value of an [`Api`].
pub struct ApiView {
    pub routes: Seq<(Seq<char>, RouteView)>,
}

impl View for Api {
    type V = ApiView;

    open spec fn view(&self) -> ApiView {
        ApiView {
            routes: Seq::new(self.routes@.len(), |i: int| (self.routes@[i].0@, self.routes@[i].1@)),
        }
    }
}

/// The index of the first route from `from` on with the path; the number
/// of routes where there is none.
pub open spec fn route_position(routes: Seq<(Seq<char>, RouteView)>, path: Seq<char>, from: int) -> int
    decreases routes.len() - from,
{
    if from < 0 || from >= routes.len() {
        routes.len() as int
    } else if routes[from].0 == path {
        from
    } else {
        route_position(routes, path, from + 1)
    }
}

/// A path as it names files: without the prefix, parameters in square brackets.
pub open spec fn cleaned_path(path: Seq<char>, prefix: Option<Seq<char>>) -> Seq<char> {
    bracketed(
        match prefix {
            Some(p) => without_prefix(path, p),
            None => path,
        },
    )
}

/// Where the client file of a route goes: its path below the output root,
/// its name, and how many directories it lies below the root.
pub struct PlaceView {
    pub path: Seq<char>,
    pub name: Seq<char>,
    pub level: nat,
}

/// The place of the client file of the route with these segments.
///
/// The route without segments, or with one that is blank, goes to the
/// index file. A single segment names a file beside it. Of several
/// segments, the last names the file and the others the directories above it.
pub open spec fn client_file_place(path: Seq<Seq<char>>) -> PlaceView {
    if path.len() == 0 || (path.len() == 1 && blank(path[0])) {
        PlaceView { path: "api/index.ts"@, name: "index.ts"@, level: 1 }
    } else if path.len() == 1 {
        PlaceView { path: "api/"@ + path[0] + ".ts"@, name: path[0] + ".ts"@, level: 1 }
    } else {
        PlaceView {
            path: "api/"@ + join_spec(path.drop_last(), "/"@) + "/"@ + path.last() + ".ts"@,
            name: path.last() + ".ts"@,
            level: path.len(),
        }
    }
}

/// The output files so far, and the client object beside them.
pub struct ExportView {
    pub files: Seq<(Seq<char>, Seq<char>)>,
    pub client: ClientBuilderView,
}

/// The output after the client file of one more route.
pub open spec fn route_step(
    reg: RegistryView,
    names: BuilderView,
    prefix: Option<Seq<char>>,
    path: Seq<char>,
    route: RouteView,
    state: ExportView,
) -> Result<ExportView, BuildError> {
    let place = client_file_place(segments(cleaned_path(path, prefix)));
    match route.built(
        state.client,
        path,
        segments(cleaned_path(path, prefix)),
        place.name,
        place.level,
        reg,
        names,
    ) {
        Err(e) => Err(e),
        Ok((text, client)) => Ok(ExportView { files: state.files.push((place.path, text)), client }),
    }
}

/// The output after the client files of the routes from `from` on, after `state`.
pub open spec fn routes_from(
    reg: RegistryView,
    names: BuilderView,
    prefix: Option<Seq<char>>,
    routes: Seq<(Seq<char>, RouteView)>,
    from: int,
    state: ExportView,
) -> Result<ExportView, BuildError>
    decreases routes.len() - from,
{
    if from < 0 || from >= routes.len() {
        Ok(state)
    } else {
        match route_step(reg, names, prefix, routes[from].0, routes[from].1, state) {
            Err(e) => Err(e),
            Ok(next) => routes_from(reg, names, prefix, routes, from + 1, next),
        }
    }
}

/// The declaration files, each with its path below the output root.
pub open spec fn type_files(names: BuilderView) -> Seq<(Seq<char>, Seq<char>)> {
    Seq::new(
        names.files.len(),
        |i: int| ("dto/"@ + names.files[i].file_name(), names.files[i].rendered()),
    )
}

/// The root client file: the imports of the client functions, the client
/// with its base path and the object of its functions, and the result type.
pub open spec fn root_client(imports: Seq<char>, object: Seq<char>) -> Seq<char> {
    FILE_HEADER@ + "\n"@ + imports + "\n\nclass Client {\n    BASE_PATH = \"\";\n\n    API = "@
        + object
        + "\n\n    setBasePath(path: string) {\n        this.BASE_PATH = path;\n    }\n}\n\nconst client = new Client();\n\nexport default client;\n\nexport type ApiResult<T, E> = T | {isError: true, status_code: number,  error: E};\n        "@
}

/// What the position of a path is: the route there has the path and none
/// before it has.
pub proof fn lemma_route_position(routes: Seq<(Seq<char>, RouteView)>, path: Seq<char>, from: int)
    requires
        0 <= from <= routes.len(),
    ensures
        from <= route_position(routes, path, from) <= routes.len(),
        route_position(routes, path, from) < routes.len() ==> routes[route_position(
            routes,
            path,
            from,
        )].0 == path,
        forall|j: int|
            from <= j < route_position(routes, path, from) ==> (#[trigger] routes[j]).0 != path,
    decreases routes.len() - from,
{
    if from < routes.len() && routes[from].0 != path {
        lemma_route_position(routes, path, from + 1);
    }
}

/// Registering a well-formed route keeps the api well formed.
pub proof fn lemma_with_route_keeps_wf(api: ApiView, path: Seq<char>, route: RouteView)
    requires
        api.wf(),
        route.wf(),
    ensures
        api.with_route(path, route).wf(),
{
    lemma_route_position(api.routes, path, 0);
    let at = route_position(api.routes, path, 0);
    let after = api.with_route(path, route).routes;
    assert forall|i: int, j: int| 0 <= i < j < after.len() implies after[i].0 != after[j].0 by {
        if at < api.routes.len() {
            assert(after[i].0 == api.routes[i].0);
            assert(after[j].0 == api.routes[j].0);
        } else {
            assert(after[i] == api.routes[i]);
            if j < api.routes.len() {
                assert(after[j] == api.routes[j]);
            }
        }
    }
    assert forall|i: int| 0 <= i < after.len() implies (#[trigger] after[i]).1.wf() by {
        if i != at && i < api.routes.len() {
            assert(after[i] == api.routes[i]);
        }
    }
}

/// Registering well-formed routes below a prefix keeps the api well formed.
pub proof fn lemma_nested_keeps_wf(
    api: ApiView,
    prefix: Seq<char>,
    routes: Seq<(Seq<char>, RouteView)>,
    from: int,
)
    requires
        api.wf(),
        forall|i: int| 0 <= i < routes.len() ==> (#[trigger] routes[i]).1.wf(),
    ensures
        api.nested(prefix, routes, from).wf(),
    decreases routes.len() - from,
{
    if 0 <= from < routes.len() {
        lemma_with_route_keeps_wf(api, prefix + routes[from].0, routes[from].1);
        lemma_nested_keeps_wf(
            api.with_route(prefix + routes[from].0, routes[from].1),
            prefix,
            routes,
            from + 1,
        );
    }
}

impl ApiView {
    /// The invariant of an api: no path occurs twice, and every route is
    /// well formed.
    pub open spec fn wf(self) -> bool {
        &&& forall|i: int, j: int|
            0 <= i < j < self.routes.len() ==> self.routes[i].0 != self.routes[j].0
        &&& forall|i: int| 0 <= i < self.routes.len() ==> (#[trigger] self.routes[i]).1.wf()
    }

    /// The api with the route registered: it takes the place of an
    /// earlier route with the same path, else it comes last.
    pub open spec fn with_route(self, path: Seq<char>, route: RouteView) -> ApiView {
        let at = route_position(self.routes, path, 0);
        if 0 <= at < self.routes.len() {
            ApiView { routes: self.routes.update(at, (path, route)) }
        } else {
            ApiView { routes: self.routes.push((path, route)) }
        }
    }

    /// The api with the routes from `from` on registered below a prefix,
    /// in their order.
    pub open spec fn nested(
        self,
        prefix: Seq<char>,
        routes: Seq<(Seq<char>, RouteView)>,
        from: int,
    ) -> ApiView
        decreases routes.len() - from,
    {
        if from < 0 || from >= routes.len() {
            self
        } else {
            self.with_route(prefix + routes[from].0, routes[from].1).nested(prefix, routes, from + 1)
        }
    }

    /// Every output file with its path below the output root and its
    /// text: the declaration files, the client file of each route, and
    /// last the root client file.
    pub open spec fn exported(self, reg: RegistryView, prefix: Option<Seq<char>>) -> Result<
        Seq<(Seq<char>, Seq<char>)>,
        BuildError,
    > {
        match built(reg) {
            Err(e) => Err(e),
            Ok(names) => match routes_from(
                reg,
                names,
                prefix,
                self.routes,
                0,
                ExportView { files: type_files(names), client: ClientBuilderView::empty() },
            ) {
                Err(e) => Err(e),
                Ok(state) => Ok(
                    state.files.push(
                        (
                            "api/client.ts"@,
                            root_client(state.client.ts_imports(), state.client.obj.to_ts("\t"@)),
                        ),
                    ),
                ),
            },
        }
    }
}

/// The value of the files that were produced, or the error that was met.
pub open spec fn files_result(r: Result<Vec<(String, String)>, BuildError>) -> Result<
    Seq<(Seq<char>, Seq<char>)>,
    BuildError,
> {
    match r {
        Ok(files) => Ok(files.deep_view()),
        Err(e) => Err(e),
    }
}

/// Where a client file goes.
struct Place {
    path: String,
    name: String,
    level: usize,
}

/// The place of the client file of the route with these segments: see
/// [`client_file_place`].
fn place_client_file(path: &Vec<String>) -> (place: Place)
    ensures
        place.path@ == client_file_place(texts(path@)).path,
        place.name@ == client_file_place(texts(path@)).name,
        place.level == client_file_place(texts(path@)).level,
{
    let n = path.len();
    if n == 0 {
        return Place {
            path: String::from_str("api/index.ts"),
            name: String::from_str("index.ts"),
            level: 1,
        };
    }
    if n == 1 {
        if is_blank(path[0].as_str()) {
            return Place {
                path: String::from_str("api/index.ts"),
                name: String::from_str("index.ts"),
                level: 1,
            };
        }
        let mut name = path[0].clone();
        name.append(".ts");
        let mut full = String::from_str("api/");
        full.append(name.as_str());
        assert(full@ =~= "api/"@ + path[0]@ + ".ts"@);
        return Place { path: full, name, level: 1 };
    }
    let mut above: Vec<String> = Vec::new();
    let mut i: usize = 0;
    assert(texts(above@) =~= texts(path@).take(0));
    while i < n - 1
        invariant
            n == path.len(),
            n >= 2,
            i <= n - 1,
            texts(above@) == texts(path@).take(i as int),
        decreases n - 1 - i,
    {
        let ghost before = texts(above@);
        above.push(path[i].clone());
        assert(texts(above@) =~= before.push(path[i as int]@));
        assert(texts(above@) =~= texts(path@).take(i + 1));
        i += 1;
    }
    assert(texts(path@).take(n - 1) =~= texts(path@).drop_last());
    let mut name = path[n - 1].clone();
    name.append(".ts");
    let mut full = String::from_str("api/");
    full.append(join(&above, "/").as_str());
    full.append("/");
    full.append(name.as_str());
    assert(full@ =~= "api/"@ + join_spec(texts(path@).drop_last(), "/"@) + "/"@ + texts(
        path@,
    ).last() + ".ts"@);
    Place { path: full, name, level: n }
}

/// The files so far, and the client object beside them.
struct Export {
    files: Vec<(String, String)>,
    client: ClientObjectBuilder,
}

impl View for Export {
    type V = ExportView;

    closed spec fn view(&self) -> ExportView {
        ExportView { files: self.files.deep_view(), client: self.client@ }
    }
}

/// The value of the output that was produced, or the error that was met.
spec fn export_result(r: Result<Export, BuildError>) -> Result<ExportView, BuildError> {
    match r {
        Ok(state) => Ok(state@),
        Err(e) => Err(e),
    }
}

/// Renders the client file of one more route: see [`route_step`].
fn take_route(
    state: Export,
    path: &String,
    route: &Route,
    remove_prefix: Option<&str>,
    registry: &GlobalTypeRegistry,
    builder: &TypeBuilder,
) -> (r: Result<Export, BuildError>)
    ensures
        export_result(r) == route_step(
            registry@,
            builder@,
            match remove_prefix {
                Some(p) => Some(p@),
                None => None,
            },
            path@,
            route@,
            state@,
        ),
{
    let shortened = match remove_prefix {
        Some(prefix) => strip_prefix(path.as_str(), prefix),
        None => path.clone(),
    };
    let cleaned = replace_braces(shortened.as_str());
    let parts = split_segments(cleaned.as_str());
    let place = place_client_file(&parts);
    let Export { files, client } = state;
    let mut files = files;
    match route.build(
        client,
        path.as_str(),
        &parts,
        place.name.as_str(),
        place.level,
        registry,
        builder,
    ) {
        Err(e) => Err(e),
        Ok((text, client)) => {
            let ghost before = files.deep_view();
            files.push((place.path, text));
            assert(files.deep_view() =~= before.push((place.path@, text@)));
            Ok(Export { files, client })
        },
    }
}

/// The root client file: see [`root_client`].
fn write_root_client(imports: &str, object: &str) -> (text: String)
    ensures
        text@ == root_client(imports@, object@),
{
    let mut text = String::from_str(FILE_HEADER);
    text.append("\n");
    text.append(imports);
    text.append("\n\nclass Client {\n    BASE_PATH = \"\";\n\n    API = ");
    text.append(object);
    text.append(
        "\n\n    setBasePath(path: string) {\n        this.BASE_PATH = path;\n    }\n}\n\nconst client = new Client();\n\nexport default client;\n\nexport type ApiResult<T, E> = T | {isError: true, status_code: number,  error: E};\n        ",
    );
    text
}

impl Api {
    /// An api without routes.
    pub fn new() -> (api: Self)
        ensures
            api@.routes == Seq::<(Seq<char>, RouteView)>::empty(),
            api@.wf(),
    {
        let api = Api { routes: Vec::new() };
        assert(api@.routes =~= Seq::empty());
        api
    }

    /// Registers a route: see [`ApiView::with_route`].
    pub fn insert(&mut self, path: String, route: Route)
        ensures
            final(self)@ == old(self)@.with_route(path@, route@),
            old(self)@.wf() && route@.wf() ==> final(self)@.wf(),
    {
        proof {
            if self@.wf() && route@.wf() {
                lemma_with_route_keeps_wf(self@, path@, route@);
            }
        }
        let ghost before = self@.routes;
        let mut i: usize = 0;
        while i < self.routes.len()
            invariant
                i <= self.routes.len(),
                self@.routes == before,
                *self == *old(self),
                route_position(before, path@, 0) == route_position(before, path@, i as int),
            decreases self.routes.len() - i,
        {
            if self.routes[i].0 == path {
                let _ = self.routes.remove(i);
                self.routes.insert(i, (path, route));
                assert(self@.routes =~= before.update(i as int, (path@, route@)));
                return ;
            }
            i += 1;
        }
        self.routes.push((path, route));
        assert(self@.routes =~= before.push((path@, route@)));
    }

    /// Registers the routes of another api below a prefix: see [`ApiView::nested`].
    pub fn nest(&mut self, prefix_route: &str, nested: Api)
        ensures
            final(self)@ == old(self)@.nested(prefix_route@, nested@.routes, 0),
            old(self)@.wf() && nested@.wf() ==> final(self)@.wf(),
    {
        proof {
            if self@.wf() && nested@.wf() {
                lemma_nested_keeps_wf(self@, prefix_route@, nested@.routes, 0);
            }
        }
        let mut rest = nested.routes;
        let ghost all = nested@.routes;
        let ghost total = all.len();
        while rest.len() > 0
            invariant
                rest.len() <= total,
                total == all.len(),
                forall|i: int|
                    0 <= i < rest.len() ==> (#[trigger] rest[i]).0@ == all[total - rest.len() + i].0
                        && rest[i].1@ == all[total - rest.len() + i].1,
                old(self)@.nested(prefix_route@, all, 0) == self@.nested(
                    prefix_route@,
                    all,
                    total - rest.len(),
                ),
            decreases rest.len(),
        {
            let ghost before = rest@;
            let entry = rest.remove(0);
            assert(forall|i: int| 0 <= i < rest.len() ==> rest[i] == before[i + 1]);
            let mut path = String::from_str(prefix_route);
            path.append(entry.0.as_str());
            self.insert(path, entry.1);
        }
    }

    /// Renders every output file: see [`ApiView::exported`].
    pub fn export(&self, registry: &GlobalTypeRegistry, remove_prefix: Option<&str>) -> (r: Result<
        Vec<(String, String)>,
        BuildError,
    >)
        ensures
            files_result(r) == self@.exported(
                registry@,
                match remove_prefix {
                    Some(p) => Some(p@),
                    None => None,
                },
            ),
    {
        let builder = match TypeBuilder::build(registry) {
            Err(e) => {
                return Err(e);
            },
            Ok(builder) => builder,
        };
        let declared = builder.export();
        let mut files: Vec<(String, String)> = Vec::new();
        let mut d: usize = 0;
        assert(files.deep_view() =~= type_files(builder@).take(0));
        assert(declared.deep_view().len() == declared.len());
        while d < declared.len()
            invariant
                d <= declared.len(),
                declared.len() == builder@.files.len(),
                declared.deep_view() == Seq::new(
                    builder@.files.len(),
                    |i: int| (builder@.files[i].file_name(), builder@.files[i].rendered()),
                ),
                files.deep_view() == type_files(builder@).take(d as int),
            decreases declared.len() - d,
        {
            assert(declared.deep_view()[d as int] == (declared[d as int].0@, declared[d as int].1@));
            let mut path = String::from_str("dto/");
            path.append(declared[d].0.as_str());
            let ghost before = files.deep_view();
            files.push((path, declared[d].1.clone()));
            assert(files.deep_view() =~= before.push((path@, declared[d as int].1@)));
            assert(declared.deep_view()[d as int] == (
                builder@.files[d as int].file_name(),
                builder@.files[d as int].rendered(),
            ));
            assert(type_files(builder@)[d as int] == (path@, declared[d as int].1@));
            assert(files.deep_view() =~= type_files(builder@).take(d + 1));
            d += 1;
        }
        assert(type_files(builder@).take(declared.len() as int) =~= type_files(builder@));
        let mut state = Export { files, client: ClientObjectBuilder::new() };
        let ghost start = state@;
        let ghost prefix = match remove_prefix {
            Some(p) => Some(p@),
            None => None,
        };
        let mut i: usize = 0;
        while i < self.routes.len()
            invariant
                i <= self.routes.len(),
                built(registry@) == Ok::<BuilderView, BuildError>(builder@),
                start == (ExportView {
                    files: type_files(builder@),
                    client: ClientBuilderView::empty(),
                }),
                prefix == (match remove_prefix {
                    Some(p) => Some(p@),
                    None => None,
                }),
                routes_from(registry@, builder@, prefix, self@.routes, 0, start) == routes_from(
                    registry@,
                    builder@,
                    prefix,
                    self@.routes,
                    i as int,
                    state@,
                ),
            decreases self.routes.len() - i,
        {
            assert(self@.routes[i as int] == (self.routes[i as int].0@, self.routes[i as int].1@));
            state = match take_route(
                state,
                &self.routes[i].0,
                &self.routes[i].1,
                remove_prefix,
                registry,
                &builder,
            ) {
                Err(e) => {
                    return Err(e);
                },
                Ok(next) => next,
            };
            i += 1;
        }
        let Export { files, client } = state;
        let mut files = files;
        let root = write_root_client(
            client.get_ts_imports().as_str(),
            client.obj.to_ts(String::from_str("\t")).as_str(),
        );
        let ghost before = files.deep_view();
        files.push((String::from_str("api/client.ts"), root));
        assert(files.deep_view() =~= before.push(("api/client.ts"@, root@)));
        Ok(files)
    }
}

} // verus!
