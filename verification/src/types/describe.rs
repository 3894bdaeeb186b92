//! What the description of a struct or an enum decides from its source
//! text: the representation of an enum, the short name of a field's type,
//! and whether a field speaks of its type under an alias.
use vstd::prelude::*;
use vstd::string::*;

use crate::text::{is_space, kept, push_char, same_text};
use crate::types::model::{EnumRepresentation, RepresentationView};

verus! {

/// The representation that the tagging attributes of an enum ask for: a
/// tag with a content field is adjacent, a tag alone is internal, neither
/// but `untagged` set is untagged, and anything else is the default.
pub open spec fn representation_of(
    tag: Option<Seq<char>>,
    content: Option<Seq<char>>,
    untagged: Option<bool>,
) -> RepresentationView {
    match (tag, content, untagged) {
        (Some(t), Some(c), _) => RepresentationView::Adjacently(t, c),
        (Some(t), None, _) => RepresentationView::Internally(t),
        (None, None, Some(true)) => RepresentationView::Untagged,
        _ => RepresentationView::Default,
    }
}

/// Decides the representation of an enum from its tagging attributes: see
/// [`representation_of`].
pub fn representation(tag: Option<String>, content: Option<String>, untagged: Option<bool>) -> (r:
    EnumRepresentation)
    ensures
        r@ == representation_of(tag.deep_view(), content.deep_view(), untagged),
{
    match tag {
        Some(t) => match content {
            Some(c) => EnumRepresentation::Adjacently(t, c),
            None => EnumRepresentation::Internally(t),
        },
        None => match content {
            Some(_) => EnumRepresentation::Default,
            None => match untagged {
                Some(flag) => if flag {
                    EnumRepresentation::Untagged
                } else {
                    EnumRepresentation::Default
                },
                None => EnumRepresentation::Default,
            },
        },
    }
}

/// The text without its white space.
pub open spec fn squeezed(s: Seq<char>) -> Seq<char> {
    kept(s, |c: char| !is_space(c))
}

/// The characters of `s` from `from` on up to the first `<`, after `done`.
pub open spec fn before_generics(s: Seq<char>, from: int, done: Seq<char>) -> Seq<char>
    decreases s.len() - from,
{
    if from < 0 || from >= s.len() || s[from] == '<' {
        done
    } else {
        before_generics(s, from + 1, done.push(s[from]))
    }
}

/// The short name of a type as it is written: without white space, and
/// without its generic arguments.
pub open spec fn easy_name(type_text: Seq<char>) -> Seq<char> {
    before_generics(squeezed(type_text), 0, Seq::empty())
}

/// Removes the white space of a text.
pub fn squeeze(s: &str) -> (r: String)
    ensures
        r@ == squeezed(s@),
{
    let ghost keep = |c: char| !is_space(c);
    let mut out = String::new();
    for c in it: s.chars()
        invariant
            it.seq() == s@,
            keep == (|c: char| !is_space(c)),
            out@ == kept(s@.take(it.index() as int), keep),
    {
        proof {
            let next = s@.take(it.index() + 1);
            assert(next.drop_last() =~= s@.take(it.index() as int));
            assert(next.last() == c);
        }
        let space = (c >= '\u{9}' && c <= '\u{d}') || c == ' ' || c == '\u{85}' || c == '\u{a0}'
            || c == '\u{1680}' || (c >= '\u{2000}' && c <= '\u{200a}') || c == '\u{2028}' || c
            == '\u{2029}' || c == '\u{202f}' || c == '\u{205f}' || c == '\u{3000}';
        if !space {
            push_char(&mut out, c);
        }
    }
    assert(s@.take(s@.len() as int) =~= s@);
    out
}

/// The short name of a type as it is written: see [`easy_name`].
pub fn get_easy_name(type_text: &str) -> (name: String)
    ensures
        name@ == easy_name(type_text@),
{
    let dense = squeeze(type_text);
    let n = dense.as_str().unicode_len();
    let mut out = String::new();
    let mut i: usize = 0;
    while i < n
        invariant
            i <= n,
            n == dense@.len(),
            dense@ == squeezed(type_text@),
            before_generics(dense@, 0, Seq::empty()) == before_generics(dense@, i as int, out@),
        decreases n - i,
    {
        let c = dense.as_str().get_char(i);
        if c == '<' {
            return out;
        }
        push_char(&mut out, c);
        i += 1;
    }
    out
}

/// The alias under which a field speaks of its type: the short name of
/// the type as the field writes it, unless the type cannot be renamed, is
/// `any`, or goes by that name already.
pub open spec fn field_alias(can_rename: bool, host_name: Seq<char>, written: Seq<char>) -> Option<
    Seq<char>,
> {
    if !can_rename || squeezed(host_name) == "any"@ || written == squeezed(host_name) {
        None
    } else {
        Some(written)
    }
}

/// Decides the alias of a field: see [`field_alias`].
pub fn get_field_alias(can_rename: bool, host_name: &str, written: &str) -> (alias: Option<String>)
    ensures
        alias.deep_view() == field_alias(can_rename, host_name@, written@),
{
    let dense = squeeze(host_name);
    if !can_rename || same_text(dense.as_str(), "any") || same_text(written, dense.as_str()) {
        None
    } else {
        Some(String::from_str(written))
    }
}

} // verus!
