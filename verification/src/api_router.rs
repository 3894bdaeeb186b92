//! What a route takes and gives, and the builder that collects the methods
//! of one route.
use vstd::prelude::*;
use vstd::string::*;

use crate::api::{HTTPMethod, Method, MethodView, Route};
use crate::types::builder::{GlobalTypeRegistry, HasIndexed};
use crate::types::known_handle;

verus! {

/// Where in a request a value travels: in the body that is sent, or in the
/// result that comes back.
#[derive(Debug, Clone, Copy, PartialEq, Eq, Structural)]
pub enum Postion {
    Body,
    Result,
}

/// One slot of a route method: the component it carries, where, and in which encoding.
#[derive(Debug, Clone, Copy, PartialEq, Eq, Structural)]
pub enum RouteComponentType {
    Query(HasIndexed),
    Path(HasIndexed),
    Json(Postion, HasIndexed),
    Raw(Postion, HasIndexed),
}

impl RouteComponentType {
    /// The handle of the component that the slot carries.
    pub open spec fn handle(self) -> HasIndexed {
        match self {
            RouteComponentType::Query(x) => x,
            RouteComponentType::Path(x) => x,
            RouteComponentType::Json(_, x) => x,
            RouteComponentType::Raw(_, x) => x,
        }
    }

    /// Whether the slot is an input of the client function: a query, a
    /// path parameter or a body.
    pub open spec fn is_input(self) -> bool {
        match self {
            RouteComponentType::Query(_) => true,
            RouteComponentType::Path(_) => true,
            RouteComponentType::Json(position, _) => position == Postion::Body,
            RouteComponentType::Raw(position, _) => position == Postion::Body,
        }
    }

    /// Where the value of the slot travels; a query and a path parameter
    /// count as sent.
    pub open spec fn position(self) -> Postion {
        match self {
            RouteComponentType::Query(_) => Postion::Body,
            RouteComponentType::Path(_) => Postion::Body,
            RouteComponentType::Json(position, _) => position,
            RouteComponentType::Raw(position, _) => position,
        }
    }

    /// The header that a request with this slot sets: the content type of a
    /// body, by its encoding.
    pub open spec fn default_header(self) -> Option<(Seq<char>, Seq<char>)> {
        match self {
            RouteComponentType::Json(Postion::Body, _) => Some(
                ("Content-Type"@, "application/json"@),
            ),
            RouteComponentType::Raw(Postion::Body, _) => Some(("Content-Type"@, "text/plain"@)),
            _ => None,
        }
    }

    /// The handle of the component that the slot carries.
    pub fn get_indexed(&self) -> (handle: &HasIndexed)
        ensures
            *handle == self.handle(),
    {
        match self {
            RouteComponentType::Query(x) => x,
            RouteComponentType::Path(x) => x,
            RouteComponentType::Json(_, x) => x,
            RouteComponentType::Raw(_, x) => x,
        }
    }

    /// The header that a request with this slot sets.
    pub fn get_default_header(&self) -> (header: Option<(String, String)>)
        ensures
            header.deep_view() == self.default_header(),
    {
        match self {
            RouteComponentType::Query(_) => None,
            RouteComponentType::Path(_) => None,
            RouteComponentType::Json(pos, _) => {
                match pos {
                    Postion::Body => Some(
                        (String::from_str("Content-Type"), String::from_str("application/json")),
                    ),
                    Postion::Result => None,
                }
            },
            RouteComponentType::Raw(pos, _) => {
                match pos {
                    Postion::Body => Some(
                        (String::from_str("Content-Type"), String::from_str("text/plain")),
                    ),
                    Postion::Result => None,
                }
            },
        }
    }

    /// Where the value of the slot travels.
    pub fn get_position(&self) -> (position: Postion)
        ensures
            position == self.position(),
    {
        match self {
            RouteComponentType::Query(_) => Postion::Body,
            RouteComponentType::Path(_) => Postion::Body,
            RouteComponentType::Json(pos, _) => *pos,
            RouteComponentType::Raw(pos, _) => *pos,
        }
    }
}

impl DeepView for RouteComponentType {
    type V = RouteComponentType;

    open spec fn deep_view(&self) -> RouteComponentType {
        *self
    }
}

/// What one parameter of a handler, or its result, contributes to a route.
pub trait Buildable {
    /// The slot of the parameter, which is described to the registry on
    /// the way; nothing for a parameter that the client does not send.
    fn build(registry: &mut GlobalTypeRegistry, pos: Postion) -> (slot: Option<RouteComponentType>)
        requires
            old(registry).wf(),
        ensures
            final(registry).wf(),
            final(registry)@.extends(old(registry)@),
            slot matches Some(s) ==> known_handle(final(registry)@, s.handle()),
    ;
}

/// What a handler contributes to a route: the slots of its parameters, in
/// order, and last that of its result.
pub trait ApiBuildable<T> {
    fn build(registry: &mut GlobalTypeRegistry) -> (slots: Vec<RouteComponentType>)
        requires
            old(registry).wf(),
        ensures
            final(registry).wf(),
            final(registry)@.extends(old(registry)@),
            forall|i: int|
                0 <= i < slots.len() ==> known_handle(final(registry)@, (#[trigger] slots[i]).handle()),
    ;
}

/// The slots that are there among those from `from` on, in order, after those in `done`.
pub open spec fn present_slots(
    slots: Seq<Option<RouteComponentType>>,
    from: int,
    done: Seq<RouteComponentType>,
) -> Seq<RouteComponentType>
    decreases slots.len() - from,
{
    if from < 0 || from >= slots.len() {
        done
    } else {
        present_slots(
            slots,
            from + 1,
            match slots[from] {
                Some(slot) => done.push(slot),
                None => done,
            },
        )
    }
}

/// What is among the present slots was among the slots or among those done.
pub proof fn lemma_present_slots(
    slots: Seq<Option<RouteComponentType>>,
    from: int,
    done: Seq<RouteComponentType>,
)
    requires
        0 <= from <= slots.len(),
    ensures
        forall|i: int|
            0 <= i < present_slots(slots, from, done).len() ==> done.contains(
                #[trigger] present_slots(slots, from, done)[i],
            ) || slots.contains(Some(present_slots(slots, from, done)[i])),
    decreases slots.len() - from,
{
    if from < slots.len() {
        let next = match slots[from] {
            Some(slot) => done.push(slot),
            None => done,
        };
        lemma_present_slots(slots, from + 1, next);
        assert forall|i: int| 0 <= i < present_slots(slots, from, done).len() implies done.contains(
            #[trigger] present_slots(slots, from, done)[i],
        ) || slots.contains(Some(present_slots(slots, from, done)[i])) by {
            let all = present_slots(slots, from + 1, next);
            let x = all[i];
            assert(next.contains(x) || slots.contains(Some(x)));
            if next.contains(x) && !done.contains(x) {
                let j = choose|j: int| 0 <= j < next.len() && next[j] == x;
                if j < done.len() {
                    assert(done[j] == x);
                }
                assert(slots[from] == Some(x));
            }
        }
    } else {
        assert forall|i: int| 0 <= i < done.len() implies done.contains(#[trigger] done[i]) by {}
    }
}

/// Keeps the slots that are there, in their order.
pub fn collect_slots(slots: Vec<Option<RouteComponentType>>) -> (kept: Vec<RouteComponentType>)
    ensures
        kept@ == present_slots(slots@, 0, Seq::empty()),
{
    let mut kept: Vec<RouteComponentType> = Vec::new();
    let mut i: usize = 0;
    while i < slots.len()
        invariant
            i <= slots.len(),
            present_slots(slots@, 0, Seq::empty()) == present_slots(slots@, i as int, kept@),
        decreases slots.len() - i,
    {
        match slots[i] {
            Some(slot) => {
                kept.push(slot);
            },
            None => {},
        }
        i += 1;
    }
    kept
}

/// The methods of one route while they are registered, with the names of
/// their client functions. In a router that is well formed the route is
/// well formed, no header is set twice and no method is renamed twice.
#[derive(Debug)]
pub struct ApiMethodRouter {
    pub route: Route,
    pub header: Vec<(String, String)>,
    pub rename_map: Vec<(HTTPMethod, String)>,
}

impl ApiMethodRouter {
    /// The invariant of the router: the route is well formed, no header
    /// is set twice and no method is renamed twice.
    pub open spec fn wf(&self) -> bool {
        &&& self.route@.wf()
        &&& forall|i: int, j: int|
            0 <= i < j < self.header@.len() ==> self.header@[i].0@ != self.header@[j].0@
        &&& forall|i: int, j: int|
            0 <= i < j < self.rename_map@.len() ==> self.rename_map@[i].0 != self.rename_map@[j].0
    }

    /// Names the client functions of the methods given; a method that is
    /// not registered is passed over.
    pub fn rename_ts(self, rename: Vec<(HTTPMethod, String)>) -> (router: Self)
        ensures
            router.route@ == self.route@.with_names(rename.deep_view(), 0),
            router.header == self.header,
            router.rename_map == self.rename_map,
            self.wf() ==> router.wf(),
    {
        let mut router = self;
        router.route.rename_ts_methods(rename);
        router
    }

    /// Registers a method with the slots of its handler; an earlier
    /// registration of the same method is replaced.
    pub fn on(self, http_method: HTTPMethod, content: Vec<RouteComponentType>) -> (router: Self)
        ensures
            router.route@ == self.route@.with_method(
                http_method,
                MethodView { content: content@, name: None },
            ),
            router.header == self.header,
            router.rename_map == self.rename_map,
            self.wf() ==> router.wf(),
    {
        let mut router = self;
        let method = Method { content, name: None };
        router.route.insert(http_method, method);
        router
    }

    /// Registers the handler that answers GET.
    pub fn get(self, content: Vec<RouteComponentType>) -> (router: Self)
        ensures
            router.route@ == self.route@.with_method(
                HTTPMethod::GET,
                MethodView { content: content@, name: None },
            ),
            router.header == self.header,
            router.rename_map == self.rename_map,
            self.wf() ==> router.wf(),
    {
        self.on(HTTPMethod::GET, content)
    }

    /// Registers the handler that answers POST.
    pub fn post(self, content: Vec<RouteComponentType>) -> (router: Self)
        ensures
            router.route@ == self.route@.with_method(
                HTTPMethod::POST,
                MethodView { content: content@, name: None },
            ),
            router.header == self.header,
            router.rename_map == self.rename_map,
            self.wf() ==> router.wf(),
    {
        self.on(HTTPMethod::POST, content)
    }

    /// Registers the handler that answers PUT.
    pub fn put(self, content: Vec<RouteComponentType>) -> (router: Self)
        ensures
            router.route@ == self.route@.with_method(
                HTTPMethod::PUT,
                MethodView { content: content@, name: None },
            ),
            router.header == self.header,
            router.rename_map == self.rename_map,
            self.wf() ==> router.wf(),
    {
        self.on(HTTPMethod::PUT, content)
    }

    /// Registers the handler that answers DELETE.
    pub fn delete(self, content: Vec<RouteComponentType>) -> (router: Self)
        ensures
            router.route@ == self.route@.with_method(
                HTTPMethod::DELETE,
                MethodView { content: content@, name: None },
            ),
            router.header == self.header,
            router.rename_map == self.rename_map,
            self.wf() ==> router.wf(),
    {
        self.on(HTTPMethod::DELETE, content)
    }
}

} // verus!
