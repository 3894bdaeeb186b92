//! The structural hash of a described type: a hash over its kind, its name
//! and, in declaration order, the name and the hash of each of its children.
use std::collections::hash_map::DefaultHasher;
use std::hash::Hasher;
use vstd::bytes::*;
use vstd::prelude::*;
use vstd::std_specs::hash::*;
use vstd::string::*;
use vstd::utf8::*;

verus! {

/// What hashing a text writes: its UTF-8 bytes, then one byte `0xff`, which
/// no UTF-8 text holds.
pub open spec fn text_feed(s: Seq<char>) -> Seq<Seq<u8>> {
    seq![encode_utf8(s), seq![0xffu8]]
}

/// What hashing a number writes: its eight bytes, lowest first.
pub open spec fn number_feed(x: u64) -> Seq<Seq<u8>> {
    seq![spec_u64_to_le_bytes(x)]
}

/// What hashing the children writes: for each, in order, its name and its hash.
pub open spec fn children_feed(children: Seq<(Seq<char>, u64)>) -> Seq<Seq<u8>>
    decreases children.len(),
{
    if children.len() == 0 {
        Seq::empty()
    } else {
        children_feed(children.drop_last()) + text_feed(children.last().0) + number_feed(
            children.last().1,
        )
    }
}

/// Everything that is written to hash a structure.
pub open spec fn structure_feed(
    kind: Seq<char>,
    name: Seq<char>,
    children: Seq<(Seq<char>, u64)>,
) -> Seq<Seq<u8>> {
    text_feed(kind) + text_feed(name) + children_feed(children)
}

/// The structural hash of a type of the given kind and name with the given children.
pub open spec fn structural_hash(
    kind: Seq<char>,
    name: Seq<char>,
    children: Seq<(Seq<char>, u64)>,
) -> u64 {
    DefaultHasher::spec_finish(structure_feed(kind, name, children))
}

/// The hash of a type that has a name and nothing else.
pub open spec fn name_hash(name: Seq<char>) -> u64 {
    DefaultHasher::spec_finish(text_feed(name))
}

fn feed_text(hasher: &mut DefaultHasher, s: &str)
    ensures
        final(hasher)@ == old(hasher)@ + text_feed(s@),
{
    hasher.write(s.as_bytes());
    let mut end: Vec<u8> = Vec::new();
    end.push(0xff);
    hasher.write(end.as_slice());
    proof {
        assert(end@ =~= seq![0xffu8]);
        assert(hasher@ =~= old(hasher)@ + text_feed(s@));
    }
}

fn feed_number(hasher: &mut DefaultHasher, x: u64)
    ensures
        final(hasher)@ == old(hasher)@ + number_feed(x),
{
    let bytes = u64_to_le_bytes(x);
    hasher.write(bytes.as_slice());
    proof {
        assert(hasher@ =~= old(hasher)@ + number_feed(x));
    }
}

/// Hashes a name alone.
pub fn hash_name(name: &str) -> (h: u64)
    ensures
        h == name_hash(name@),
{
    let mut hasher = DefaultHasher::new();
    feed_text(&mut hasher, name);
    assert(hasher@ =~= text_feed(name@));
    hasher.finish()
}

/// Hashes a structure: its kind, its name and its children in their order.
pub fn hash_structure(kind: &str, name: &str, children: &Vec<(String, u64)>) -> (h: u64)
    ensures
        h == structural_hash(kind@, name@, children.deep_view()),
{
    let ghost all = children.deep_view();
    let mut hasher = DefaultHasher::new();
    feed_text(&mut hasher, kind);
    feed_text(&mut hasher, name);
    assert(children_feed(all.take(0)) =~= Seq::<Seq<u8>>::empty());
    let mut i: usize = 0;
    while i < children.len()
        invariant
            i <= children.len(),
            all == children.deep_view(),
            hasher@ =~= text_feed(kind@) + text_feed(name@) + children_feed(all.take(i as int)),
        decreases children.len() - i,
    {
        feed_text(&mut hasher, children[i].0.as_str());
        feed_number(&mut hasher, children[i].1);
        proof {
            let next = all.take(i + 1);
            assert(next.drop_last() =~= all.take(i as int));
            assert(next.last() == (children[i as int].0@, children[i as int].1));
        }
        i += 1;
    }
    assert(all.take(children.len() as int) =~= all);
    hasher.finish()
}

/// Two structures of the same kind and name whose children agree one by
/// one, in name and in hash, have the same structural hash.
pub proof fn law_hash_deterministic(
    kind: Seq<char>,
    name: Seq<char>,
    first: Seq<(Seq<char>, u64)>,
    second: Seq<(Seq<char>, u64)>,
)
    requires
        first.len() == second.len(),
        forall|i: int| 0 <= i < first.len() ==> first[i] == second[i],
    ensures
        structural_hash(kind, name, first) == structural_hash(kind, name, second),
{
    assert(first =~= second);
}

proof fn lemma_children_feed_len(children: Seq<(Seq<char>, u64)>)
    ensures
        children_feed(children).len() == 3 * children.len(),
    decreases children.len(),
{
    if children.len() > 0 {
        lemma_children_feed_len(children.drop_last());
    }
}

proof fn lemma_text_injective(a: Seq<char>, b: Seq<char>)
    requires
        encode_utf8(a) == encode_utf8(b),
    ensures
        a == b,
{
    encode_utf8_decode_utf8(a);
    encode_utf8_decode_utf8(b);
}

proof fn lemma_number_injective(a: u64, b: u64)
    requires
        spec_u64_to_le_bytes(a) == spec_u64_to_le_bytes(b),
    ensures
        a == b,
{
    lemma_auto_spec_u64_to_from_le_bytes();
}

proof fn lemma_children_feed_injective(first: Seq<(Seq<char>, u64)>, second: Seq<(Seq<char>, u64)>)
    requires
        children_feed(first) == children_feed(second),
    ensures
        first == second,
    decreases first.len(),
{
    lemma_children_feed_len(first);
    lemma_children_feed_len(second);
    if first.len() == 0 {
        assert(first =~= second);
    } else {
        let a = children_feed(first.drop_last());
        let b = children_feed(second.drop_last());
        lemma_children_feed_len(first.drop_last());
        lemma_children_feed_len(second.drop_last());
        let fa = children_feed(first);
        let fb = children_feed(second);
        let n = a.len() as int;
        assert(fa[n] == encode_utf8(first.last().0));
        assert(fb[n] == encode_utf8(second.last().0));
        assert(fa[n + 2] == spec_u64_to_le_bytes(first.last().1));
        assert(fb[n + 2] == spec_u64_to_le_bytes(second.last().1));
        lemma_text_injective(first.last().0, second.last().0);
        lemma_number_injective(first.last().1, second.last().1);
        assert(a =~= fa.take(n));
        assert(b =~= fb.take(n));
        lemma_children_feed_injective(first.drop_last(), second.drop_last());
        assert(first =~= first.drop_last().push(first.last()));
        assert(second =~= second.drop_last().push(second.last()));
    }
}

/// What is written to hash a structure determines the structure: its kind,
/// its name and its children in their order. Two structures that differ, be
/// it only in the order of two different fields, are hashed from different
/// bytes.
pub proof fn law_feed_determines_structure(
    kind: Seq<char>,
    name: Seq<char>,
    children: Seq<(Seq<char>, u64)>,
    other_kind: Seq<char>,
    other_name: Seq<char>,
    other_children: Seq<(Seq<char>, u64)>,
)
    requires
        structure_feed(kind, name, children) == structure_feed(
            other_kind,
            other_name,
            other_children,
        ),
    ensures
        kind == other_kind,
        name == other_name,
        children == other_children,
{
    let f = structure_feed(kind, name, children);
    let g = structure_feed(other_kind, other_name, other_children);
    lemma_children_feed_len(children);
    lemma_children_feed_len(other_children);
    assert(f[0] == encode_utf8(kind));
    assert(g[0] == encode_utf8(other_kind));
    assert(f[2] == encode_utf8(name));
    assert(g[2] == encode_utf8(other_name));
    lemma_text_injective(kind, other_kind);
    lemma_text_injective(name, other_name);
    assert(children_feed(children) =~= f.skip(4));
    assert(children_feed(other_children) =~= g.skip(4));
    lemma_children_feed_injective(children, other_children);
}

} // verus!
