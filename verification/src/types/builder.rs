//! The registry of described types and the builder of declaration files.
use std::collections::HashMap;
use vstd::prelude::*;
use vstd::string::*;

use crate::text::{decimal, decimal_string, lemma_decimal_value};
use crate::errors::BuildError;
use crate::types::model::{Component, ComponentView, Type, TypeView};
use crate::FILE_HEADER;

verus! {

/// A handle on a component of the registry: the key of a type that is still
/// being described, or the index of a finished component.
#[derive(Debug, Clone, Copy, PartialEq, Eq, Structural)]
pub enum HasIndexed {
    Prebuild(u64),
    Build(usize),
}

impl DeepView for HasIndexed {
    type V = HasIndexed;

    open spec fn deep_view(&self) -> HasIndexed {
        *self
    }
}

/// The mathematical value of a [`GlobalTypeRegistry`].
pub struct RegistryView {
    /// The keys whose description has been started, oldest first.
    pub pending: Seq<u64>,
    /// The keys whose hash has been asked for, oldest first.
    pub hashing: Seq<u64>,
    /// The hashes that are known, by key.
    pub hashes: Map<u64, u64>,
    /// The index of each finished key.
    pub identity: Map<u64, usize>,
    /// The index of the component that was last finished with a given hash.
    pub by_hash: Map<u64, usize>,
    /// The finished components, in the order in which they were finished.
    pub components: Seq<ComponentView>,
}

impl RegistryView {
    /// The registry that holds nothing.
    pub open spec fn empty() -> RegistryView {
        RegistryView {
            pending: Seq::empty(),
            hashing: Seq::empty(),
            hashes: Map::empty(),
            identity: Map::empty(),
            by_hash: Map::empty(),
            components: Seq::empty(),
        }
    }

    /// Every recorded index is the index of a component, and the components
    /// can be counted by the machine.
    pub open spec fn wf(self) -> bool {
        &&& self.components.len() <= usize::MAX
        &&& forall|k: u64| #[trigger]
            self.identity.contains_key(k) ==> self.identity[k] < self.components.len()
        &&& forall|h: u64| #[trigger]
            self.by_hash.contains_key(h) ==> self.by_hash[h] < self.components.len()
    }

    /// Whether a key has been started or finished.
    pub open spec fn has(self, key: u64) -> bool {
        self.pending.contains(key) || self.identity.contains_key(key)
    }

    /// The handle of a key that has been started or finished.
    pub open spec fn existing(self, key: u64) -> Option<HasIndexed> {
        if self.identity.contains_key(key) {
            Some(HasIndexed::Build(self.identity[key]))
        } else if self.pending.contains(key) {
            Some(HasIndexed::Prebuild(key))
        } else {
            None
        }
    }

    /// The handle under which a key is spoken of: its index once it is
    /// finished, the key itself before.
    pub open spec fn handle_of(self, key: u64) -> HasIndexed {
        if self.identity.contains_key(key) {
            HasIndexed::Build(self.identity[key])
        } else {
            HasIndexed::Prebuild(key)
        }
    }

    /// The index of the component that a handle stands for, if there is one.
    pub open spec fn resolve(self, handle: HasIndexed) -> Option<int> {
        match handle {
            HasIndexed::Build(i) => if i < self.components.len() {
                Some(i as int)
            } else {
                None
            },
            HasIndexed::Prebuild(key) => if self.identity.contains_key(key) && self.identity[key]
                < self.components.len() {
                Some(self.identity[key] as int)
            } else {
                None
            },
        }
    }

    /// The registry after the description of `key` has been started.
    pub open spec fn start(self, key: u64) -> RegistryView {
        if self.pending.contains(key) {
            self
        } else {
            RegistryView { pending: self.pending.push(key), ..self }
        }
    }

    /// What a request for the hash of `key` answers, and the registry after
    /// it: nothing on the first request, which marks the key; on a later one
    /// the known hash, or zero while the hash is still being computed.
    pub open spec fn start_hash(self, key: u64) -> (RegistryView, Option<u64>) {
        if !self.hashing.contains(key) {
            (RegistryView { hashing: self.hashing.push(key), ..self }, None)
        } else if self.hashes.contains_key(key) {
            (self, Some(self.hashes[key]))
        } else {
            (self, Some(0u64))
        }
    }

    /// The registry after the hash of `key` has been computed: the first hash stays.
    pub open spec fn finalize_hash(self, key: u64, hash: u64) -> RegistryView {
        if self.hashes.contains_key(key) {
            self
        } else {
            RegistryView { hashes: self.hashes.insert(key, hash), ..self }
        }
    }

    /// The registry after `key` has been finished with `component`, and the
    /// handle of the key: a key that is already finished keeps its
    /// component and its index.
    pub open spec fn finalize(self, key: u64, component: ComponentView) -> (
        RegistryView,
        HasIndexed,
    ) {
        if self.identity.contains_key(key) {
            (self, HasIndexed::Build(self.identity[key]))
        } else {
            (
                RegistryView {
                    identity: self.identity.insert(key, self.components.len() as usize),
                    by_hash: self.by_hash.insert(component.hash, self.components.len() as usize),
                    components: self.components.push(component),
                    ..self
                },
                HasIndexed::Build(self.components.len() as usize),
            )
        }
    }

    /// Whether this registry differs from `old` in hashes alone: the
    /// components, the finished and the started keys are the same, and no
    /// key whose hash was being computed in `old` has got a hash since.
    pub open spec fn only_hashed(self, old: RegistryView) -> bool {
        &&& self.components == old.components
        &&& self.identity == old.identity
        &&& self.by_hash == old.by_hash
        &&& self.pending == old.pending
        &&& forall|k: u64|
            old.hashing.contains(k) && !old.hashes.contains_key(k)
                ==> !#[trigger] self.hashes.contains_key(k)
    }

    /// Whether this registry is a later state of `old`: nothing that `old`
    /// holds has been taken away or changed, but for the index by hash.
    pub open spec fn extends(self, old: RegistryView) -> bool {
        &&& old.pending.is_prefix_of(self.pending)
        &&& old.hashing.is_prefix_of(self.hashing)
        &&& forall|k: u64| #[trigger]
            old.hashes.contains_key(k) ==> self.hashes.contains_key(k) && self.hashes[k]
                == old.hashes[k]
        &&& forall|k: u64| #[trigger]
            old.identity.contains_key(k) ==> self.identity.contains_key(k) && self.identity[k]
                == old.identity[k]
        &&& old.components.is_prefix_of(self.components)
        &&& forall|h: u64| #[trigger] old.by_hash.contains_key(h) ==> self.by_hash.contains_key(h)
    }
}

/// Whether `key` is among `keys`.
fn holds_key(keys: &Vec<u64>, key: u64) -> (found: bool)
    ensures
        found == keys@.contains(key),
{
    let mut i: usize = 0;
    while i < keys.len()
        invariant
            i <= keys.len(),
            forall|j: int| 0 <= j < i ==> keys[j] != key,
        decreases keys.len() - i,
    {
        if keys[i] == key {
            return true;
        }
        i += 1;
    }
    false
}

/// The table of described types: which are in progress, which are finished
/// and at which index, and the hashes computed so far.
#[derive(Debug)]
pub struct GlobalTypeRegistry {
    prebuild: Vec<u64>,
    hasher_stopper: Vec<u64>,
    hasher_hash: HashMap<u64, u64>,
    type_index: HashMap<u64, usize>,
    hash_index: HashMap<u64, usize>,
    components: Vec<Component>,
}

impl View for GlobalTypeRegistry {
    type V = RegistryView;

    closed spec fn view(&self) -> RegistryView {
        RegistryView {
            pending: self.prebuild@,
            hashing: self.hasher_stopper@,
            hashes: self.hasher_hash@,
            identity: self.type_index@,
            by_hash: self.hash_index@,
            components: self.components.deep_view(),
        }
    }
}

impl Default for GlobalTypeRegistry {
    fn default() -> (registry: Self)
        ensures
            registry@ == RegistryView::empty(),
            registry.wf(),
    {
        GlobalTypeRegistry::new()
    }
}

impl GlobalTypeRegistry {
    /// The invariant of the registry: see [`RegistryView::wf`].
    pub open spec fn wf(&self) -> bool {
        self@.wf()
    }

    /// A registry that holds nothing.
    pub fn new() -> (registry: Self)
        ensures
            registry@ == RegistryView::empty(),
            registry.wf(),
    {
        let registry = GlobalTypeRegistry {
            prebuild: Vec::new(),
            hasher_stopper: Vec::new(),
            hasher_hash: HashMap::new(),
            type_index: HashMap::new(),
            hash_index: HashMap::new(),
            components: Vec::new(),
        };
        assert(registry.components.deep_view() =~= Seq::<ComponentView>::empty());
        registry
    }

    /// The finished components, in the order in which they were finished.
    pub fn components(&self) -> (all: &Vec<Component>)
        ensures
            all.deep_view() == self@.components,
    {
        &self.components
    }

    /// The component that a handle stands for, if there is one.
    pub fn find(&self, index: &HasIndexed) -> (found: Option<&Component>)
        ensures
            match self@.resolve(*index) {
                Some(i) => found.is_some() && found.unwrap()@ == self@.components[i],
                None => found.is_none(),
            },
    {
        let idx = match index {
            HasIndexed::Prebuild(key) => match self.type_index.get(key) {
                Some(i) => *i,
                None => {
                    return None;
                },
            },
            HasIndexed::Build(i) => *i,
        };
        if idx < self.components.len() {
            Some(&self.components[idx])
        } else {
            None
        }
    }

    /// The component that a handle stands for.
    pub fn get_indexed(&self, index: &HasIndexed) -> (component: &Component)
        requires
            self@.resolve(*index).is_some(),
        ensures
            component@ == self@.components[self@.resolve(*index).unwrap()],
    {
        let idx = match index {
            HasIndexed::Prebuild(key) => match self.type_index.get(key) {
                Some(i) => *i,
                None => 0,
            },
            HasIndexed::Build(i) => *i,
        };
        &self.components[idx]
    }

    /// Whether a key has been started or finished.
    pub fn has(&self, type_id: u64) -> (known: bool)
        ensures
            known == self@.has(type_id),
    {
        holds_key(&self.prebuild, type_id) || self.type_index.contains_key(&type_id)
    }

    /// Forgets everything.
    pub fn reset(&mut self)
        ensures
            final(self)@ == RegistryView::empty(),
            final(self).wf(),
    {
        self.prebuild = Vec::new();
        self.hasher_stopper = Vec::new();
        self.hasher_hash = HashMap::new();
        self.type_index = HashMap::new();
        self.hash_index = HashMap::new();
        self.components = Vec::new();
        assert(self.components.deep_view() =~= Seq::<ComponentView>::empty());
    }

    /// The handle of a key that has been started or finished: its index once
    /// it is finished, the key itself before.
    pub fn return_existing(&self, type_id: u64) -> (handle: Option<HasIndexed>)
        ensures
            handle == self@.existing(type_id),
    {
        match self.type_index.get(&type_id) {
            Some(i) => Some(HasIndexed::Build(*i)),
            None => {
                if holds_key(&self.prebuild, type_id) {
                    Some(HasIndexed::Prebuild(type_id))
                } else {
                    None
                }
            },
        }
    }

    /// Marks the description of a key as started.
    pub fn start(&mut self, type_id: u64)
        ensures
            final(self)@ == old(self)@.start(type_id),
            old(self).wf() ==> final(self).wf(),
    {
        if !holds_key(&self.prebuild, type_id) {
            self.prebuild.push(type_id);
        }
        assert(self@.identity == old(self)@.identity);
        assert(self@.by_hash == old(self)@.by_hash);
    }

    /// Asks for the hash of a key: see [`RegistryView::start_hash`].
    pub fn start_hash(&mut self, type_id: u64) -> (known: Option<u64>)
        ensures
            final(self)@ == old(self)@.start_hash(type_id).0,
            known == old(self)@.start_hash(type_id).1,
            old(self).wf() ==> final(self).wf(),
    {
        if !holds_key(&self.hasher_stopper, type_id) {
            self.hasher_stopper.push(type_id);
            assert(self@.identity == old(self)@.identity);
            assert(self@.by_hash == old(self)@.by_hash);
            None
        } else {
            match self.hasher_hash.get(&type_id) {
                Some(h) => Some(*h),
                None => Some(0),
            }
        }
    }

    /// Records the hash of a key, unless one is recorded.
    pub fn finalize_hash(&mut self, type_id: u64, hash: u64)
        ensures
            final(self)@ == old(self)@.finalize_hash(type_id, hash),
            old(self).wf() ==> final(self).wf(),
    {
        if !self.hasher_hash.contains_key(&type_id) {
            self.hasher_hash.insert(type_id, hash);
        }
        assert(self@.identity == old(self)@.identity);
        assert(self@.by_hash == old(self)@.by_hash);
    }

    /// Finishes a key with its component and answers with its handle: see
    /// [`RegistryView::finalize`].
    pub fn finalize(&mut self, type_id: u64, component: Component) -> (handle: HasIndexed)
        requires
            old(self).wf(),
        ensures
            final(self)@ == old(self)@.finalize(type_id, component@).0,
            handle == old(self)@.finalize(type_id, component@).1,
            final(self).wf(),
            final(self)@.resolve(handle).is_some(),
    {
        let ind = self.components.len();
        let hash = component.hash;
        match self.type_index.get(&type_id) {
            Some(i) => {
                return HasIndexed::Build(*i);
            },
            None => {},
        }
        let ghost before = self.components.deep_view();
        self.components.push(component);
        assert(self.components.deep_view() =~= before.push(component@));
        self.type_index.insert(type_id, ind);
        self.hash_index.insert(hash, ind);
        assert(self@.identity == old(self)@.identity.insert(type_id, ind));
        assert(self@.by_hash == old(self)@.by_hash.insert(hash, ind));
        assert(self@.components.len() == self.components.len());
        assert forall|k: u64| #[trigger] self@.identity.contains_key(k) implies self@.identity[k]
            < self@.components.len() by {
            if k != type_id {
                assert(old(self)@.identity.contains_key(k));
            }
        }
        assert forall|h: u64| #[trigger] self@.by_hash.contains_key(h) implies self@.by_hash[h]
            < self@.components.len() by {
            if h != hash {
                assert(old(self)@.by_hash.contains_key(h));
            }
        }
        HasIndexed::Build(ind)
    }
}

/// Each operation of the registry leads to a later state of it: what was
/// started stays started, what was finished keeps its index and its component.
pub proof fn law_operations_extend(r: RegistryView, key: u64, hash: u64, component: ComponentView)
    ensures
        r.start(key).extends(r),
        r.start_hash(key).0.extends(r),
        r.finalize_hash(key, hash).extends(r),
        r.finalize(key, component).0.extends(r),
{
}

/// After the first request for the hash of a key, the key is marked, and
/// once a hash is computed one is recorded, whatever was asked in between.
pub proof fn lemma_first_hash_is_recorded(r: RegistryView, asked: RegistryView, key: u64, hash: u64)
    requires
        r.start_hash(key).1.is_none(),
        asked.extends(r.start_hash(key).0),
    ensures
        asked.finalize_hash(key, hash).hashing.contains(key),
        asked.finalize_hash(key, hash).hashes.contains_key(key),
{
    let started = r.start_hash(key).0;
    let last = started.hashing.len() - 1;
    assert(started.hashing[last] == key);
    assert(asked.hashing[last] == key);
}

/// A key that is marked stays marked in every later state.
pub proof fn lemma_marked_stays(old: RegistryView, new: RegistryView, key: u64)
    requires
        new.extends(old),
        old.hashing.contains(key),
    ensures
        new.hashing.contains(key),
{
    let i = choose|i: int| 0 <= i < old.hashing.len() && old.hashing[i] == key;
    assert(new.hashing[i] == key);
}

/// Two steps that change hashes alone make one such step.
pub proof fn lemma_only_hashed_chain(first: RegistryView, second: RegistryView, third: RegistryView)
    requires
        second.extends(first),
        second.only_hashed(first),
        third.only_hashed(second),
    ensures
        third.only_hashed(first),
{
    assert forall|k: u64| first.hashing.contains(k) && !first.hashes.contains_key(k) implies !#[trigger]
        third.hashes.contains_key(k) by {
        lemma_marked_stays(first, second, k);
        assert(!second.hashes.contains_key(k));
    }
}

/// Marking a key and recording a hash for a key that was not marked
/// change hashes alone.
pub proof fn lemma_hash_steps_only_hash(r: RegistryView, key: u64, hash: u64)
    ensures
        r.start_hash(key).0.only_hashed(r),
        !r.hashing.contains(key) ==> r.finalize_hash(key, hash).only_hashed(r),
{
}

/// A later state of a later state is a later state.
pub proof fn lemma_extends_transitive(first: RegistryView, second: RegistryView, third: RegistryView)
    requires
        second.extends(first),
        third.extends(second),
    ensures
        third.extends(first),
{
    assert forall|k: u64| #[trigger] first.hashes.contains_key(k) implies third.hashes.contains_key(
        k,
    ) && third.hashes[k] == first.hashes[k] by {
        assert(second.hashes.contains_key(k));
    }
    assert forall|k: u64| #[trigger]
        first.identity.contains_key(k) implies third.identity.contains_key(k) && third.identity[k]
        == first.identity[k] by {
        assert(second.identity.contains_key(k));
    }
    assert forall|h: u64| #[trigger] first.by_hash.contains_key(h) implies third.by_hash.contains_key(
        h,
    ) by {
        assert(second.by_hash.contains_key(h));
    }
}

/// A key that is finished keeps its handle in every later state of the
/// registry, and that handle stands for the same component.
pub proof fn law_identity_stable(old: RegistryView, new: RegistryView, key: u64)
    requires
        old.wf(),
        new.extends(old),
        old.identity.contains_key(key),
    ensures
        new.existing(key) == old.existing(key),
        new.handle_of(key) == old.handle_of(key),
        new.resolve(new.handle_of(key)) == old.resolve(old.handle_of(key)),
        new.components[new.resolve(new.handle_of(key)).unwrap()] == old.components[old.resolve(
            old.handle_of(key),
        ).unwrap()],
{
    assert(new.identity.contains_key(key));
    assert(new.identity[key] == old.identity[key]);
}

/// The handles that were given out for one key, an earlier and a later
/// one, stand for the same component once the key is finished; this holds
/// also of a handle that was given out while the key was in progress.
pub proof fn law_handles_of_one_key_agree(earlier: RegistryView, later: RegistryView, key: u64)
    requires
        earlier.wf(),
        later.wf(),
        later.extends(earlier),
        later.identity.contains_key(key),
    ensures
        later.resolve(later.handle_of(key)).is_some(),
        later.resolve(earlier.handle_of(key)) == later.resolve(later.handle_of(key)),
{
    if earlier.identity.contains_key(key) {
        assert(later.identity[key] == earlier.identity[key]);
    }
}

/// Finishing a key twice gives the same handle both times, and the second
/// time changes nothing.
pub proof fn law_finalize_twice(r: RegistryView, key: u64, first: ComponentView, second: ComponentView)
    ensures
        r.finalize(key, first).0.finalize(key, second).1 == r.finalize(key, first).1,
        r.finalize(key, first).0.finalize(key, second).0 == r.finalize(key, first).0,
        r.finalize(key, first).0.existing(key) == Some(r.finalize(key, first).1),
{
}

/// A handle given out while its key was in progress stands, once the key is
/// finished, for the component that the key was finished with.
pub proof fn law_pending_handle_resolves(r: RegistryView, key: u64, component: ComponentView)
    requires
        r.wf(),
        !r.identity.contains_key(key),
    ensures
        r.finalize(key, component).0.resolve(HasIndexed::Prebuild(key)) == Some(
            r.components.len() as int,
        ),
        r.finalize(key, component).0.resolve(HasIndexed::Prebuild(key)) == r.finalize(
            key,
            component,
        ).0.resolve(r.finalize(key, component).1),
        r.finalize(key, component).0.components[r.components.len() as int] == component,
{
}

/// One output file while it is put together: the declarations of one
/// component, the aliases they use and the names they import. In a file
/// that is well formed no name is imported twice and no alias is declared twice.
#[derive(Clone, Debug)]
pub struct ComponentFileBuilder {
    pub name: String,
    pub hash: u64,
    pub imports: Vec<(String, Option<String>)>,
    pub type_defs: Vec<String>,
    pub content: String,
    pub exports: Vec<String>,
}

/// The mathematical value of a [`ComponentFileBuilder`].
pub struct FileView {
    pub name: Seq<char>,
    pub hash: u64,
    pub imports: Seq<(Seq<char>, Option<Seq<char>>)>,
    pub type_defs: Seq<Seq<char>>,
    pub content: Seq<char>,
    pub exports: Seq<Seq<char>>,
}

/// Whether no two of the imports have one name.
pub open spec fn distinct_imports(imports: Seq<(Seq<char>, Option<Seq<char>>)>) -> bool {
    forall|i: int, j: int| 0 <= i < j < imports.len() ==> imports[i].0 != imports[j].0
}

/// Whether no two of the texts are the same.
pub open spec fn distinct_texts(all: Seq<Seq<char>>) -> bool {
    forall|i: int, j: int| 0 <= i < j < all.len() ==> all[i] != all[j]
}

impl FileView {
    /// The invariant of a file: no name is imported twice and no alias is
    /// declared twice.
    pub open spec fn wf(self) -> bool {
        distinct_imports(self.imports) && distinct_texts(self.type_defs)
    }

    /// The file of that name and hash with nothing in it.
    pub open spec fn fresh(name: Seq<char>, hash: u64) -> FileView {
        FileView {
            name,
            hash,
            imports: Seq::empty(),
            type_defs: Seq::empty(),
            content: Seq::empty(),
            exports: Seq::empty(),
        }
    }
}

impl DeepView for ComponentFileBuilder {
    type V = FileView;

    open spec fn deep_view(&self) -> FileView {
        FileView {
            name: self.name@,
            hash: self.hash,
            imports: self.imports.deep_view(),
            type_defs: self.type_defs.deep_view(),
            content: self.content@,
            exports: self.exports.deep_view(),
        }
    }
}

impl View for ComponentFileBuilder {
    type V = FileView;

    open spec fn view(&self) -> FileView {
        self.deep_view()
    }
}

impl FileView {
    /// The name of the file on disk.
    pub open spec fn file_name(self) -> Seq<char> {
        self.name + ".ts"@
    }

    /// The text of the file: the header, the import lines, the local
    /// aliases, one to a line, and the declarations.
    pub open spec fn rendered(self) -> Seq<char> {
        alias_lines(self.type_defs, 0, import_lines(self.imports, 0, FILE_HEADER@)) + self.content
    }
}

/// The line that imports a declared type into a declaration file.
pub open spec fn import_text(entry: (Seq<char>, Option<Seq<char>>)) -> Seq<char> {
    "import {type "@ + entry.0 + match entry.1 {
        Some(alias) => " as "@ + alias,
        None => Seq::empty(),
    } + "} from \"./"@ + entry.0 + "\";\n"@
}

/// The text `done` followed by the lines of the imports from `from` on.
pub open spec fn import_lines(
    imports: Seq<(Seq<char>, Option<Seq<char>>)>,
    from: int,
    done: Seq<char>,
) -> Seq<char>
    decreases imports.len() - from,
{
    if from < 0 || from >= imports.len() {
        done
    } else {
        import_lines(imports, from + 1, done + import_text(imports[from]))
    }
}

/// The text `done` followed by the aliases from `from` on, each on a new line.
pub open spec fn alias_lines(type_defs: Seq<Seq<char>>, from: int, done: Seq<char>) -> Seq<char>
    decreases type_defs.len() - from,
{
    if from < 0 || from >= type_defs.len() {
        done
    } else {
        alias_lines(type_defs, from + 1, done + "\n"@ + type_defs[from])
    }
}

impl ComponentFileBuilder {
    /// A file of that name and hash with nothing in it.
    pub fn new(name: String, hash: u64) -> (file: Self)
        ensures
            file@ == FileView::fresh(name@, hash),
            file@.wf(),
    {
        let file = ComponentFileBuilder {
            name,
            hash,
            imports: Vec::new(),
            type_defs: Vec::new(),
            content: String::new(),
            exports: Vec::new(),
        };
        assert(file.imports.deep_view() =~= Seq::empty());
        assert(file.type_defs.deep_view() =~= Seq::empty());
        assert(file.exports.deep_view() =~= Seq::empty());
        file
    }

    /// The text of the file: see [`FileView::rendered`].
    pub fn render(&self) -> (text: String)
        ensures
            text@ == self@.rendered(),
    {
        let mut text = String::from_str(FILE_HEADER);
        let mut i: usize = 0;
        while i < self.imports.len()
            invariant
                i <= self.imports.len(),
                import_lines(self@.imports, 0, FILE_HEADER@) == import_lines(
                    self@.imports,
                    i as int,
                    text@,
                ),
            decreases self.imports.len() - i,
        {
            assert(self@.imports[i as int] == self.imports[i as int].deep_view());
            let ghost before = text@;
            text.append("import {type ");
            text.append(self.imports[i].0.as_str());
            match &self.imports[i].1 {
                Some(alias) => {
                    text.append(" as ");
                    text.append(alias.as_str());
                },
                None => {},
            }
            text.append("} from \"./");
            text.append(self.imports[i].0.as_str());
            text.append("\";\n");
            assert(text@ =~= before + import_text(self@.imports[i as int]));
            i += 1;
        }
        let ghost with_imports = text@;
        let mut k: usize = 0;
        while k < self.type_defs.len()
            invariant
                k <= self.type_defs.len(),
                alias_lines(self@.type_defs, 0, with_imports) == alias_lines(
                    self@.type_defs,
                    k as int,
                    text@,
                ),
            decreases self.type_defs.len() - k,
        {
            assert(self@.type_defs[k as int] == self.type_defs[k as int]@);
            text.append("\n");
            text.append(self.type_defs[k].as_str());
            k += 1;
        }
        text.append(self.content.as_str());
        text
    }
}

/// The mathematical value of a [`TypeBuilder`].
pub struct BuilderView {
    /// The files, in the order in which they were started.
    pub files: Seq<FileView>,
    /// The name chosen for each hash whose own name was taken.
    pub renames: Map<u64, Seq<char>>,
}

impl BuilderView {
    /// The builder that has started no file.
    pub open spec fn empty() -> BuilderView {
        BuilderView { files: Seq::empty(), renames: Map::empty() }
    }

    /// No two files have the same name, each chosen name is that of a file
    /// with the hash it was chosen for, and every file is well formed.
    pub open spec fn wf(self) -> bool {
        &&& forall|i: int| 0 <= i < self.files.len() ==> (#[trigger] self.files[i]).wf()
        &&& forall|i: int, j: int|
            0 <= i < j < self.files.len() ==> self.files[i].name != self.files[j].name
        &&& forall|h: u64| #[trigger]
            self.renames.contains_key(h) ==> self.has_file(self.renames[h]) && self.files[self.position(
                self.renames[h],
            )].hash == h
    }

    /// The name under which a component is emitted: the one chosen for its
    /// hash, if one was, else its own.
    pub open spec fn emitted_name(self, name: Seq<char>, hash: u64) -> Seq<char> {
        if self.renames.contains_key(hash) {
            self.renames[hash]
        } else {
            name
        }
    }

    /// The index of the first file of that name; the number of files where
    /// there is none.
    pub open spec fn position(self, name: Seq<char>) -> int {
        first_named(self.files, name, 0)
    }

    /// Whether a file has that name.
    pub open spec fn has_file(self, name: Seq<char>) -> bool {
        named(self.files, name)
    }

    /// Whether `k` is the lowest number from one up that no file named
    /// `base` followed by the number uses.
    pub open spec fn is_lowest_free(self, base: Seq<char>, k: nat) -> bool {
        &&& k >= 1
        &&& !self.has_file(base + decimal(k))
        &&& forall|m: nat| 1 <= m < k ==> self.has_file(#[trigger] (base + decimal(m)))
    }

    /// The lowest number from one up that is free as a suffix of `base`.
    pub open spec fn lowest_free(self, base: Seq<char>) -> nat {
        choose|k: nat| self.is_lowest_free(base, k)
    }

    /// The builder after a file has been asked for, and the index of the
    /// file that was started, if one was.
    ///
    /// The file is looked for under the name chosen for the hash, else under
    /// the given name. Where no file has that name, one is started. Where
    /// one has it with the same hash, nothing happens. Where one has it with
    /// another hash, a file is started under the name with the lowest free
    /// number behind it, and that name is chosen for the hash.
    pub open spec fn start_file(self, name: Seq<char>, hash: u64) -> (BuilderView, Option<int>) {
        let wanted = self.emitted_name(name, hash);
        if !self.has_file(wanted) {
            (
                BuilderView { files: self.files.push(FileView::fresh(wanted, hash)), ..self },
                Some(self.files.len() as int),
            )
        } else if self.files[self.position(wanted)].hash == hash {
            (self, None)
        } else {
            let numbered = wanted + decimal(self.lowest_free(wanted));
            (
                BuilderView {
                    files: self.files.push(FileView::fresh(numbered, hash)),
                    renames: self.renames.insert(hash, numbered),
                },
                Some(self.files.len() as int),
            )
        }
    }

    /// The file in which a component of that name and hash is declared, if
    /// there is one.
    pub open spec fn file_of(self, name: Seq<char>, hash: u64) -> Option<FileView> {
        let wanted = self.emitted_name(name, hash);
        if self.has_file(wanted) && self.files[self.position(wanted)].hash == hash {
            Some(self.files[self.position(wanted)])
        } else {
            None
        }
    }
}

/// The index of the first file from `from` on that has the name; the
/// number of files where there is none.
pub open spec fn first_named(files: Seq<FileView>, name: Seq<char>, from: int) -> int
    decreases files.len() - from,
{
    if from < 0 || from >= files.len() {
        files.len() as int
    } else if files[from].name == name {
        from
    } else {
        first_named(files, name, from + 1)
    }
}

/// Whether one of the files has the name.
pub open spec fn named(files: Seq<FileView>, name: Seq<char>) -> bool {
    first_named(files, name, 0) < files.len()
}

/// What the first index is: the file there has the name and none before it has.
pub proof fn lemma_first_named(files: Seq<FileView>, name: Seq<char>, from: int)
    requires
        0 <= from <= files.len(),
    ensures
        from <= first_named(files, name, from) <= files.len(),
        first_named(files, name, from) < files.len() ==> files[first_named(
            files,
            name,
            from,
        )].name == name,
        forall|j: int|
            from <= j < first_named(files, name, from) ==> (#[trigger] files[j]).name != name,
    decreases files.len() - from,
{
    if from < files.len() && files[from].name != name {
        lemma_first_named(files, name, from + 1);
    }
}

/// An index whose file has the name, while none before it has, is the position.
proof fn lemma_position(b: BuilderView, name: Seq<char>, i: int)
    requires
        0 <= i < b.files.len(),
        b.files[i].name == name,
        forall|j: int| 0 <= j < i ==> (#[trigger] b.files[j]).name != name,
    ensures
        b.has_file(name),
        b.position(name) == i,
{
    lemma_first_named(b.files, name, 0);
    let p = b.position(name);
    if p < i {
        assert(b.files[p].name != name);
    }
    if i < p {
        assert(b.files[i].name != name);
    }
}

/// A file that has the name shows that the name has a file.
proof fn lemma_named_at(files: Seq<FileView>, name: Seq<char>, i: int)
    requires
        0 <= i < files.len(),
        files[i].name == name,
    ensures
        named(files, name),
{
    lemma_first_named(files, name, 0);
    if first_named(files, name, 0) > i {
        assert(files[i].name != name);
    }
}

/// Where no file has the name, the name has no file.
proof fn lemma_no_position(b: BuilderView, name: Seq<char>)
    requires
        forall|j: int| 0 <= j < b.files.len() ==> (#[trigger] b.files[j]).name != name,
    ensures
        !b.has_file(name),
{
    lemma_first_named(b.files, name, 0);
}

/// Numbers with different notations give different names.
proof fn lemma_numbered_names_differ(base: Seq<char>, a: nat, b: nat)
    requires
        base + decimal(a) == base + decimal(b),
    ensures
        a == b,
{
    let x = base + decimal(a);
    let y = base + decimal(b);
    assert(x.skip(base.len() as int) =~= decimal(a));
    assert(y.skip(base.len() as int) =~= decimal(b));
    lemma_decimal_value(a);
    lemma_decimal_value(b);
}

/// Where the names with the numbers one to `count` are all taken, there
/// are at least `count` files.
proof fn lemma_taken_names_need_files(files: Seq<FileView>, base: Seq<char>, count: nat)
    requires
        forall|m: nat| 1 <= m <= count ==> named(files, #[trigger] (base + decimal(m))),
    ensures
        count <= files.len(),
    decreases count,
{
    if count > 0 {
        let last = base + decimal(count);
        assert(named(files, last));
        lemma_first_named(files, last, 0);
        let j = first_named(files, last, 0);
        let rest = files.remove(j);
        assert forall|m: nat| 1 <= m <= count - 1 implies named(
            rest,
            #[trigger] (base + decimal(m)),
        ) by {
            let wanted = base + decimal(m);
            assert(named(files, wanted));
            lemma_first_named(files, wanted, 0);
            let i = first_named(files, wanted, 0);
            if i == j {
                lemma_numbered_names_differ(base, m, count);
            }
            if i < j {
                assert(rest[i] == files[i]);
                lemma_named_at(rest, wanted, i);
            } else {
                assert(rest[i - 1] == files[i]);
                lemma_named_at(rest, wanted, i - 1);
            }
        }
        lemma_taken_names_need_files(rest, base, (count - 1) as nat);
    }
}

/// The lowest free number is the only one.
proof fn lemma_lowest_free(b: BuilderView, base: Seq<char>, k: nat)
    requires
        b.is_lowest_free(base, k),
    ensures
        b.lowest_free(base) == k,
{
    let c = b.lowest_free(base);
    assert(b.is_lowest_free(base, c));
    if c < k {
        assert(b.has_file(base + decimal(c)));
    }
    if k < c {
        assert(b.has_file(base + decimal(k)));
    }
}

/// Builds the declaration files of a registry: decides which file each
/// component is declared in and under which name, and renders the files.
#[derive(Debug)]
pub struct TypeBuilder {
    pub file_map: Vec<ComponentFileBuilder>,
    pub rename_map: HashMap<u64, String>,
}

impl View for TypeBuilder {
    type V = BuilderView;

    open spec fn view(&self) -> BuilderView {
        BuilderView {
            files: self.file_map.deep_view(),
            renames: Map::new(
                |h: u64| self.rename_map@.contains_key(h),
                |h: u64| self.rename_map@[h]@,
            ),
        }
    }
}

impl TypeBuilder {
    /// The invariant of a builder: see [`BuilderView::wf`].
    pub open spec fn wf(&self) -> bool {
        self@.wf()
    }

    /// A builder that has started no file.
    pub fn new() -> (builder: Self)
        ensures
            builder@ == BuilderView::empty(),
            builder.wf(),
    {
        let builder = TypeBuilder { file_map: Vec::new(), rename_map: HashMap::new() };
        assert(builder@.files =~= Seq::empty());
        assert(builder@.renames =~= Map::empty());
        builder
    }

    /// The name under which a component of that name and hash is emitted.
    pub fn emitted_name(&self, name: &str, hash: u64) -> (emitted: String)
        ensures
            emitted@ == self@.emitted_name(name@, hash),
    {
        match self.rename_map.get(&hash) {
            Some(chosen) => chosen.clone(),
            None => String::from_str(name),
        }
    }

    /// The index of the first file of that name.
    pub fn find_file(&self, name: &str) -> (found: Option<usize>)
        ensures
            match found {
                Some(i) => self@.has_file(name@) && self@.position(name@) == i && i
                    < self.file_map.len(),
                None => !self@.has_file(name@),
            },
    {
        let wanted = String::from_str(name);
        let mut i: usize = 0;
        while i < self.file_map.len()
            invariant
                i <= self.file_map.len(),
                wanted@ == name@,
                forall|j: int| 0 <= j < i ==> (#[trigger] self@.files[j]).name != name@,
            decreases self.file_map.len() - i,
        {
            if self.file_map[i].name == wanted {
                proof {
                    assert(self@.files[i as int].name == name@);
                    lemma_position(self@, name@, i as int);
                }
                return Some(i);
            }
            assert(self@.files[i as int].name != name@);
            i += 1;
        }
        proof {
            lemma_no_position(self@, name@);
        }
        None
    }

    /// Starts the file of a component, unless it has one: see
    /// [`BuilderView::start_file`]. Answers with the index of the file that
    /// was started.
    pub fn start_file(&mut self, name: &str, hash: u64) -> (started: Option<usize>)
        requires
            old(self).file_map.len() < usize::MAX,
        ensures
            final(self)@ == old(self)@.start_file(name@, hash).0,
            match started {
                Some(i) => old(self)@.start_file(name@, hash).1 == Some(i as int),
                None => old(self)@.start_file(name@, hash).1.is_none(),
            },
            old(self).wf() ==> final(self).wf(),
    {
        let wanted = self.emitted_name(name, hash);
        let chosen = match self.find_file(wanted.as_str()) {
            Some(at) => {
                if self.file_map[at].hash == hash {
                    return None;
                }
                let mut i: usize = 1;
                loop
                    invariant
                        1 <= i <= self.file_map.len() + 1,
                        self.file_map.len() < usize::MAX,
                        forall|m: nat|
                            1 <= m < i ==> self@.has_file(#[trigger] (wanted@ + decimal(m))),
                    ensures
                        self@.is_lowest_free(wanted@, i as nat),
                    decreases self.file_map.len() + 1 - i,
                {
                    let mut candidate = wanted.clone();
                    candidate.append(decimal_string(i).as_str());
                    if self.find_file(candidate.as_str()).is_none() {
                        break;
                    }
                    proof {
                        assert forall|m: nat| 1 <= m <= i implies named(
                            self@.files,
                            #[trigger] (wanted@ + decimal(m)),
                        ) by {
                            assert(self@.has_file(wanted@ + decimal(m)));
                        }
                        lemma_taken_names_need_files(self@.files, wanted@, i as nat);
                    }
                    i += 1;
                }
                proof {
                    lemma_lowest_free(self@, wanted@, i as nat);
                }
                let mut numbered = wanted.clone();
                numbered.append(decimal_string(i).as_str());
                self.rename_map.insert(hash, numbered.clone());
                assert(self@.renames =~= old(self)@.renames.insert(hash, numbered@));
                numbered
            },
            None => wanted,
        };
        let at = self.file_map.len();
        let ghost before = self.file_map.deep_view();
        let file = ComponentFileBuilder::new(chosen, hash);
        self.file_map.push(file);
        assert(self.file_map.deep_view() =~= before.push(file@));
        proof {
            if old(self).wf() {
                lemma_start_file_keeps_wf(old(self)@, name@, hash);
            }
        }
        Some(at)
    }

    /// The name under which a component is emitted and, where it has a file
    /// of its own, the line that imports it from `level` directories below
    /// the output root.
    pub fn get_type_and_import(&self, name: &str, hash: u64, level: usize) -> (r: (String, String))
        ensures
            r.0@ == self@.emitted_name(name@, hash),
            r.1@ == import_line(
                self@.has_file(self@.emitted_name(name@, hash)),
                self@.emitted_name(name@, hash),
                level as nat,
            ),
    {
        let emitted = self.emitted_name(name, hash);
        match self.find_file(emitted.as_str()) {
            Some(_) => {
                let mut line = String::from_str("import { type ");
                line.append(emitted.as_str());
                line.append(" } from \"");
                let mut i: usize = 0;
                while i < level
                    invariant
                        i <= level,
                        line@ == "import { type "@ + emitted@ + " } from \""@ + climb(i as nat),
                    decreases level - i,
                {
                    if i > 0 {
                        line.append("/");
                    }
                    line.append("..");
                    proof {
                        assert(line@ =~= "import { type "@ + emitted@ + " } from \""@ + climb(
                            (i + 1) as nat,
                        ));
                    }
                    i += 1;
                }
                line.append("/dto/");
                line.append(emitted.as_str());
                line.append("\";");
                (emitted, line)
            },
            None => (emitted, String::new()),
        }
    }

    /// Builds the declaration files of a registry: see [`built`].
    pub fn build(registry: &GlobalTypeRegistry) -> (r: Result<TypeBuilder, BuildError>)
        ensures
            match built(registry@) {
                Ok(b) => r.is_ok() && r.unwrap()@ == b && r.unwrap().wf(),
                Err(e) => r == Err::<TypeBuilder, BuildError>(e),
            },
    {
        let components = registry.components();
        let mut builder = TypeBuilder::new();
        let mut owners: Vec<usize> = Vec::new();
        let mut i: usize = 0;
        assert(owner_indices(owners@) =~= Seq::<int>::empty());
        while i < components.len()
            invariant
                i <= components.len(),
                components.deep_view() == registry@.components,
                builder.wf(),
                builder.file_map.len() <= i,
                owners.len() == builder.file_map.len(),
                forall|j: int| 0 <= j < owners.len() ==> (#[trigger] owners[j]) < components.len(),
                name_files(registry@.components, 0, (BuilderView::empty(), Seq::empty()))
                    == name_files(registry@.components, i as int, (builder@, owner_indices(owners@))),
            decreases components.len() - i,
        {
            assert(components.deep_view()[i as int] == components[i as int]@);
            let file_needed = match components[i].typ {
                Type::Struct(_) => true,
                Type::Enum(_, _) => true,
                _ => false,
            };
            if file_needed {
                assert(builder@.files.len() == builder.file_map.len());
                let started = builder.start_file(components[i].name.as_str(), components[i].hash);
                assert(builder@.files.len() == builder.file_map.len());
                if started.is_some() {
                    let ghost before = owner_indices(owners@);
                    owners.push(i);
                    assert(owner_indices(owners@) =~= before.push(i as int));
                }
            }
            i += 1;
        }
        let ghost owned = owner_indices(owners@);
        let mut filled: Vec<ComponentFileBuilder> = Vec::new();
        let mut f: usize = 0;
        assert(filled.deep_view() =~= Seq::<FileView>::empty());
        while f < builder.file_map.len()
            invariant
                f <= builder.file_map.len(),
                components.deep_view() == registry@.components,
                owners.len() == builder.file_map.len(),
                owned == owner_indices(owners@),
                name_files(registry@.components, 0, (BuilderView::empty(), Seq::empty())) == (
                    builder@,
                    owned,
                ),
                forall|j: int| 0 <= j < owners.len() ==> (#[trigger] owners[j]) < components.len(),
                filled.len() == f,
                forall|j: int|
                    0 <= j < f ==> (#[trigger] filled.deep_view()[j]).name
                        == builder@.files[j].name && filled.deep_view()[j].hash
                        == builder@.files[j].hash && filled.deep_view()[j].wf(),
                fill_files(registry@, builder@, owned, 0, Seq::empty()) == fill_files(
                    registry@,
                    builder@,
                    owned,
                    f as int,
                    filled.deep_view(),
                ),
            decreases builder.file_map.len() - f,
        {
            let owner = owners[f];
            assert(owned[f as int] == owner);
            assert(components.deep_view()[owner as int] == components[owner as int]@);
            match components[owner].declare(&builder, registry) {
                Err(e) => {
                    return Err(e);
                },
                Ok(declared) => {
                    let file = ComponentFileBuilder {
                        name: builder.file_map[f].name.clone(),
                        hash: builder.file_map[f].hash,
                        imports: declared.imports,
                        type_defs: declared.type_defs,
                        content: declared.content,
                        exports: declared.exports,
                    };
                    let ghost before = filled.deep_view();
                    filled.push(file);
                    assert(filled.deep_view() =~= before.push(file@));
                },
            }
            f += 1;
        }
        let ghost named = builder@;
        let result = TypeBuilder { file_map: filled, rename_map: builder.rename_map };
        proof {
            assert(result@.renames =~= named.renames);
            lemma_filled_files_keep_wf(named, result@);
        }
        Ok(result)
    }

    /// The output files: for each file, in the order in which the files
    /// were started, its name and its text.
    pub fn export(&self) -> (files: Vec<(String, String)>)
        ensures
            files.deep_view() == Seq::new(
                self@.files.len(),
                |i: int| (self@.files[i].file_name(), self@.files[i].rendered()),
            ),
    {
        let mut files: Vec<(String, String)> = Vec::new();
        let mut i: usize = 0;
        while i < self.file_map.len()
            invariant
                i <= self.file_map.len(),
                files.len() == i,
                forall|j: int|
                    0 <= j < i ==> (#[trigger] files.deep_view()[j]) == (
                        self@.files[j].file_name(),
                        self@.files[j].rendered(),
                    ),
            decreases self.file_map.len() - i,
        {
            let mut name = self.file_map[i].name.clone();
            name.append(".ts");
            let text = self.file_map[i].render();
            let ghost before = files.deep_view();
            files.push((name, text));
            assert(files.deep_view() =~= before.push((name@, text@)));
            assert(self@.files[i as int] == self.file_map[i as int]@);
            i += 1;
        }
        assert(files.deep_view() =~= Seq::new(
            self@.files.len(),
            |i: int| (self@.files[i].file_name(), self@.files[i].rendered()),
        ));
        files
    }

    /// The file in which a component of that name and hash is declared.
    pub fn get_file(&self, name: &str, hash: u64) -> (file: Option<&ComponentFileBuilder>)
        ensures
            match self@.file_of(name@, hash) {
                Some(f) => file.is_some() && file.unwrap()@ == f,
                None => file.is_none(),
            },
    {
        let wanted = self.emitted_name(name, hash);
        match self.find_file(wanted.as_str()) {
            Some(at) => {
                if self.file_map[at].hash == hash {
                    Some(&self.file_map[at])
                } else {
                    None
                }
            },
            None => None,
        }
    }
}

/// The way up from a file `level` directories below the output root: `..`
/// once for each, with slashes between.
pub open spec fn climb(level: nat) -> Seq<char>
    decreases level,
{
    if level == 0 {
        Seq::empty()
    } else if level == 1 {
        ".."@
    } else {
        climb((level - 1) as nat) + "/"@ + ".."@
    }
}

/// The line that imports a declared type into a client file, empty for a
/// type without a file of its own.
pub open spec fn import_line(declared: bool, name: Seq<char>, level: nat) -> Seq<char> {
    if declared {
        "import { type "@ + name + " } from \""@ + climb(level) + "/dto/"@ + name + "\";"@
    } else {
        Seq::empty()
    }
}

/// Starting a file keeps the builder well formed.
pub proof fn lemma_start_file_keeps_wf(b: BuilderView, name: Seq<char>, hash: u64)
    requires
        b.wf(),
    ensures
        b.start_file(name, hash).0.wf(),
{
    let wanted = b.emitted_name(name, hash);
    let after = b.start_file(name, hash).0;
    if !b.has_file(wanted) {
        let n = b.files.len() as int;
        assert(after.files[n].name == wanted);
        assert forall|i: int| 0 <= i < after.files.len() implies (#[trigger] after.files[i]).wf() by {
            if i < n {
                assert(after.files[i] == b.files[i]);
            }
        }
        assert forall|i: int, j: int| 0 <= i < j < after.files.len() implies after.files[i].name
            != after.files[j].name by {
            assert(after.files[i] == b.files[i]);
            if j == n {
                if b.files[i].name == wanted {
                    lemma_named_at(b.files, wanted, i);
                }
            } else {
                assert(after.files[j] == b.files[j]);
            }
        }
        assert forall|h: u64| #[trigger] after.renames.contains_key(h) implies after.has_file(
            after.renames[h],
        ) && after.files[after.position(after.renames[h])].hash == h by {
            lemma_pushed_file_keeps_positions(b, FileView::fresh(wanted, hash), b.renames[h]);
        }
    } else if b.files[b.position(wanted)].hash == hash {
    } else {
        let k = b.lowest_free(wanted);
        lemma_lowest_free_exists(b, wanted);
        let numbered = wanted + decimal(k);
        let n = b.files.len() as int;
        assert(!b.has_file(numbered));
        assert(after.files[n].name == numbered);
        assert forall|i: int| 0 <= i < after.files.len() implies (#[trigger] after.files[i]).wf() by {
            if i < n {
                assert(after.files[i] == b.files[i]);
            }
        }
        assert forall|i: int, j: int| 0 <= i < j < after.files.len() implies after.files[i].name
            != after.files[j].name by {
            assert(after.files[i] == b.files[i]);
            if j == n {
                if b.files[i].name == numbered {
                    lemma_named_at(b.files, numbered, i);
                }
            } else {
                assert(after.files[j] == b.files[j]);
            }
        }
        assert forall|h: u64| #[trigger] after.renames.contains_key(h) implies after.has_file(
            after.renames[h],
        ) && after.files[after.position(after.renames[h])].hash == h by {
            if h == hash {
                assert(after.renames[h] == numbered);
                assert forall|j: int| 0 <= j < n implies (#[trigger] after.files[j]).name
                    != numbered by {
                    assert(after.files[j] == b.files[j]);
                    if b.files[j].name == numbered {
                        lemma_named_at(b.files, numbered, j);
                    }
                }
                lemma_position(after, numbered, n);
            } else {
                lemma_pushed_file_keeps_positions(b, FileView::fresh(numbered, hash), b.renames[h]);
            }
        }
    }
}

/// A file that is added at the end leaves each name that had a file at its position.
proof fn lemma_pushed_file_keeps_positions(b: BuilderView, file: FileView, name: Seq<char>)
    requires
        b.has_file(name),
    ensures
        (BuilderView { files: b.files.push(file), renames: b.renames }).has_file(name),
        (BuilderView { files: b.files.push(file), renames: b.renames }).position(name)
            == b.position(name),
        (BuilderView { files: b.files.push(file), renames: b.renames }).files[b.position(name)]
            == b.files[b.position(name)],
{
    let after = BuilderView { files: b.files.push(file), renames: b.renames };
    let p = b.position(name);
    lemma_first_named(b.files, name, 0);
    assert(after.files[p] == b.files[p]);
    assert forall|j: int| 0 <= j < p implies (#[trigger] after.files[j]).name != name by {
        assert(after.files[j] == b.files[j]);
    }
    lemma_position(after, name, p);
}

/// There is always a lowest free number: among the numbers up to one more
/// than there are files, one is not taken.
pub proof fn lemma_lowest_free_exists(b: BuilderView, base: Seq<char>)
    ensures
        b.is_lowest_free(base, b.lowest_free(base)),
        1 <= b.lowest_free(base) <= b.files.len() + 1,
{
    lemma_lowest_free_below(b, base, 1);
}

/// Searching upwards from `from`, below which every number is taken, ends
/// at the lowest free number.
proof fn lemma_lowest_free_below(b: BuilderView, base: Seq<char>, from: nat)
    requires
        from >= 1,
        from <= b.files.len() + 1,
        forall|m: nat| 1 <= m < from ==> b.has_file(#[trigger] (base + decimal(m))),
    ensures
        b.is_lowest_free(base, b.lowest_free(base)),
        1 <= b.lowest_free(base) <= b.files.len() + 1,
    decreases b.files.len() + 1 - from,
{
    if !b.has_file(base + decimal(from)) {
        assert(b.is_lowest_free(base, from));
        lemma_lowest_free(b, base, from);
    } else {
        assert forall|m: nat| 1 <= m <= from implies named(
            b.files,
            #[trigger] (base + decimal(m)),
        ) by {
            assert(b.has_file(base + decimal(m)));
        }
        lemma_taken_names_need_files(b.files, base, from);
        lemma_lowest_free_below(b, base, from + 1);
    }
}

/// A request for a file takes no file away and changes no name that was
/// chosen: the files so far stay first, in their order, and every hash
/// that had a name chosen keeps it.
pub proof fn law_names_are_stable(b: BuilderView, name: Seq<char>, hash: u64, other: u64)
    requires
        b.wf(),
        b.renames.contains_key(other),
    ensures
        b.files.is_prefix_of(b.start_file(name, hash).0.files),
        b.start_file(name, hash).0.renames.contains_key(other),
        b.start_file(name, hash).0.renames[other] == b.renames[other],
        forall|any: Seq<char>|
            b.start_file(name, hash).0.emitted_name(any, other) == b.emitted_name(any, other),
{
    let wanted = b.emitted_name(name, hash);
    if b.has_file(wanted) && b.files[b.position(wanted)].hash != hash {
        assert(other != hash);
    }
}

/// After a request for the file of a component, the component has its
/// file: a file with its hash, under the name it is emitted under.
pub proof fn law_requested_file_is_there(b: BuilderView, name: Seq<char>, hash: u64)
    requires
        b.wf(),
    ensures
        b.start_file(name, hash).0.file_of(name, hash).is_some(),
        b.start_file(name, hash).0.file_of(name, hash).unwrap().hash == hash,
        b.start_file(name, hash).0.file_of(name, hash).unwrap().name == b.start_file(
            name,
            hash,
        ).0.emitted_name(name, hash),
{
    let wanted = b.emitted_name(name, hash);
    let after = b.start_file(name, hash).0;
    let n = b.files.len() as int;
    lemma_first_named(b.files, wanted, 0);
    if !b.has_file(wanted) {
        assert(after.files[n] == FileView::fresh(wanted, hash));
        assert forall|j: int| 0 <= j < n implies (#[trigger] after.files[j]).name != wanted by {
            assert(after.files[j] == b.files[j]);
        }
        lemma_position(after, wanted, n);
    } else if b.files[b.position(wanted)].hash == hash {
    } else {
        lemma_lowest_free_exists(b, wanted);
        let numbered = wanted + decimal(b.lowest_free(wanted));
        assert(after.files[n] == FileView::fresh(numbered, hash));
        assert forall|j: int| 0 <= j < n implies (#[trigger] after.files[j]).name != numbered by {
            assert(after.files[j] == b.files[j]);
            if b.files[j].name == numbered {
                lemma_named_at(b.files, numbered, j);
            }
        }
        lemma_position(after, numbered, n);
    }
}

/// Two components with one name and different hashes get two files, the
/// second under the name with the lowest free number behind it. From then
/// on the second is emitted under that name, the first under its own, and
/// asking again for either starts nothing.
pub proof fn law_collision_renames(b: BuilderView, name: Seq<char>, first: u64, second: u64)
    requires
        b.wf(),
        first != second,
        !b.has_file(name),
        !b.renames.contains_key(first),
        !b.renames.contains_key(second),
    ensures
        ({
            let one = b.start_file(name, first).0;
            let two = one.start_file(name, second).0;
            let numbered = name + decimal(one.lowest_free(name));
            &&& b.start_file(name, first).1 == Some(b.files.len() as int)
            &&& one.start_file(name, second).1 == Some((b.files.len() + 1) as int)
            &&& two.files == b.files.push(FileView::fresh(name, first)).push(
                FileView::fresh(numbered, second),
            )
            &&& one.is_lowest_free(name, one.lowest_free(name))
            &&& !b.has_file(name + decimal(1)) ==> one.lowest_free(name) == 1
            &&& two.emitted_name(name, first) == name
            &&& two.emitted_name(name, second) == numbered
            &&& numbered != name
            &&& two.wf()
            &&& two.start_file(name, first) == (two, None::<int>)
            &&& two.start_file(name, second) == (two, None::<int>)
        }),
{
    let one = b.start_file(name, first).0;
    let n = b.files.len() as int;
    lemma_start_file_keeps_wf(b, name, first);
    assert(one.files[n].name == name);
    assert forall|j: int| 0 <= j < n implies (#[trigger] one.files[j]).name != name by {
        assert(one.files[j] == b.files[j]);
        if b.files[j].name == name {
            lemma_named_at(b.files, name, j);
        }
    }
    lemma_position(one, name, n);
    lemma_lowest_free_exists(one, name);
    let k = one.lowest_free(name);
    let numbered = name + decimal(k);
    let two = one.start_file(name, second).0;
    lemma_start_file_keeps_wf(one, name, second);
    assert(two.files =~= b.files.push(FileView::fresh(name, first)).push(
        FileView::fresh(numbered, second),
    ));
    if !b.has_file(name + decimal(1)) {
        let cand = name + decimal(1);
        assert(decimal(1).len() == 1) by {
            lemma_decimal_value(1);
        }
        assert(cand.len() == name.len() + 1);
        assert forall|j: int| 0 <= j < one.files.len() implies (#[trigger] one.files[j]).name
            != cand by {
            if j < n {
                assert(one.files[j] == b.files[j]);
                if b.files[j].name == cand {
                    lemma_named_at(b.files, cand, j);
                }
            }
        }
        lemma_no_position(one, cand);
        assert(one.is_lowest_free(name, 1));
        lemma_lowest_free(one, name, 1);
    }
    assert(numbered != name) by {
        lemma_decimal_value(k);
        assert(numbered.len() == name.len() + decimal(k).len());
    }
    // the first file is still found under its own name
    assert(two.files[n] == FileView::fresh(name, first));
    assert forall|j: int| 0 <= j < n implies (#[trigger] two.files[j]).name != name by {
        assert(two.files[j] == b.files[j]);
        if b.files[j].name == name {
            lemma_named_at(b.files, name, j);
        }
    }
    lemma_position(two, name, n);
    // the second under its chosen name
    assert(two.files[n + 1] == FileView::fresh(numbered, second));
    assert forall|j: int| 0 <= j < n + 1 implies (#[trigger] two.files[j]).name != numbered by {
        assert(two.files[j] == one.files[j]);
        if one.files[j].name == numbered {
            lemma_named_at(one.files, numbered, j);
        }
    }
    lemma_position(two, numbered, n + 1);
}

/// Whether a type is declared in a file of its own.
pub open spec fn needs_file(typ: TypeView) -> bool {
    typ is Struct || typ is Enum
}

/// The indices that a vector of owners holds.
pub open spec fn owner_indices(owners: Seq<usize>) -> Seq<int> {
    Seq::new(owners.len(), |i: int| owners[i] as int)
}

/// The builder after a file has been asked for each struct and enum among
/// the components from `from` on, in their order, and for each file the
/// index of the component that it was started for.
pub open spec fn name_files(
    components: Seq<ComponentView>,
    from: int,
    state: (BuilderView, Seq<int>),
) -> (BuilderView, Seq<int>)
    decreases components.len() - from,
{
    if from < 0 || from >= components.len() {
        state
    } else if needs_file(components[from].typ) {
        let started = state.0.start_file(components[from].name, components[from].hash);
        name_files(
            components,
            from + 1,
            (
                started.0,
                if started.1.is_some() {
                    state.1.push(from)
                } else {
                    state.1
                },
            ),
        )
    } else {
        name_files(components, from + 1, state)
    }
}

/// The files from `from` on, each filled with the declaration of the
/// component that it was started for, after those in `done`.
pub open spec fn fill_files(
    reg: RegistryView,
    names: BuilderView,
    owners: Seq<int>,
    from: int,
    done: Seq<FileView>,
) -> Result<Seq<FileView>, BuildError>
    decreases owners.len() - from,
{
    if from < 0 || from >= owners.len() {
        Ok(done)
    } else {
        match reg.components[owners[from]].declaration(reg, names, reg.components.len()) {
            Err(e) => Err(e),
            Ok(declared) => fill_files(
                reg,
                names,
                owners,
                from + 1,
                done.push(
                    FileView {
                        name: names.files[from].name,
                        hash: names.files[from].hash,
                        imports: declared.imports,
                        type_defs: declared.type_defs,
                        content: declared.content,
                        exports: declared.exports,
                    },
                ),
            ),
        }
    }
}

/// The declaration files of a registry.
///
/// First every struct and enum, in the order of the registry, asks for its
/// file; this decides the names. Then each file is filled with the
/// declaration of the component that it was started for, rendered under
/// those names.
pub open spec fn built(reg: RegistryView) -> Result<BuilderView, BuildError> {
    let named = name_files(reg.components, 0, (BuilderView::empty(), Seq::empty()));
    match fill_files(reg, named.0, named.1, 0, Seq::empty()) {
        Err(e) => Err(e),
        Ok(files) => Ok(BuilderView { files, renames: named.0.renames }),
    }
}

/// Files with the same names give each name the same position.
proof fn lemma_same_names(a: Seq<FileView>, b: Seq<FileView>, name: Seq<char>, from: int)
    requires
        a.len() == b.len(),
        forall|j: int| 0 <= j < a.len() ==> (#[trigger] a[j]).name == b[j].name,
        0 <= from <= a.len(),
    ensures
        first_named(a, name, from) == first_named(b, name, from),
    decreases a.len() - from,
{
    if from < a.len() {
        assert(a[from].name == b[from].name);
        if a[from].name != name {
            lemma_same_names(a, b, name, from + 1);
        }
    }
}

/// Filling the files of a well-formed builder leaves it well formed.
proof fn lemma_filled_files_keep_wf(named: BuilderView, filled: BuilderView)
    requires
        named.wf(),
        filled.renames == named.renames,
        filled.files.len() == named.files.len(),
        forall|j: int|
            0 <= j < filled.files.len() ==> (#[trigger] filled.files[j]).name
                == named.files[j].name && filled.files[j].hash == named.files[j].hash
                && filled.files[j].wf(),
    ensures
        filled.wf(),
{
    assert forall|i: int, j: int| 0 <= i < j < filled.files.len() implies filled.files[i].name
        != filled.files[j].name by {
        assert(filled.files[i].name == named.files[i].name);
        assert(filled.files[j].name == named.files[j].name);
    }
    assert forall|h: u64| #[trigger] filled.renames.contains_key(h) implies filled.has_file(
        filled.renames[h],
    ) && filled.files[filled.position(filled.renames[h])].hash == h by {
        lemma_same_names(filled.files, named.files, named.renames[h], 0);
        lemma_first_named(named.files, named.renames[h], 0);
    }
}

} // verus!
