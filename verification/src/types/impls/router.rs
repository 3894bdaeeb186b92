//! What the extractors of `axum` and the handlers written with them
//! contribute to a route.
use std::future::Future;
use vstd::prelude::*;

use crate::api_router::{
    collect_slots, lemma_present_slots, ApiBuildable, Buildable, Postion, RouteComponentType,
};
use crate::types::builder::{lemma_extends_transitive, GlobalTypeRegistry, HasIndexed, RegistryView};
use crate::types::{known_handle, TypescriptType};

verus! {

/// The state extractor of `axum`. Nothing of it is looked into.
#[verifier::external_type_specification]
#[verifier::external_body]
#[verifier::reject_recursive_types(S)]
pub struct ExState<S>(axum::extract::State<S>);

/// The extension extractor of `axum`. Nothing of it is looked into.
#[verifier::external_type_specification]
#[verifier::external_body]
#[verifier::reject_recursive_types(T)]
pub struct ExExtension<T>(axum::Extension<T>);

/// The query extractor of `axum`. Nothing of it is looked into.
#[verifier::external_type_specification]
#[verifier::external_body]
#[verifier::reject_recursive_types(T)]
pub struct ExQuery<T>(axum::extract::Query<T>);

/// The JSON extractor and response of `axum`. Nothing of it is looked into.
#[verifier::external_type_specification]
#[verifier::external_body]
#[verifier::reject_recursive_types(T)]
pub struct ExJson<T>(axum::Json<T>);

/// A handle that is known stays known in every later state of the registry.
pub proof fn lemma_known_handle_stays(old: RegistryView, new: RegistryView, handle: HasIndexed)
    requires
        new.extends(old),
        known_handle(old, handle),
    ensures
        known_handle(new, handle),
{
    match handle {
        HasIndexed::Build(i) => {},
        HasIndexed::Prebuild(key) => {
            let j = choose|j: int| 0 <= j < old.pending.len() && old.pending[j] == key;
            assert(new.pending[j] == key);
        },
    }
}

impl<T> Buildable for axum::extract::State<T> {
    fn build(_registry: &mut GlobalTypeRegistry, _pos: Postion) -> (slot: Option<RouteComponentType>)
        ensures
            slot.is_none(),
            final(_registry)@ == old(_registry)@,
    {
        None
    }
}

impl<T> Buildable for axum::Extension<T> {
    fn build(_registry: &mut GlobalTypeRegistry, _pos: Postion) -> (slot: Option<RouteComponentType>)
        ensures
            slot.is_none(),
            final(_registry)@ == old(_registry)@,
    {
        None
    }
}

impl<T: TypescriptType> Buildable for axum::extract::Query<T> {
    fn build(registry: &mut GlobalTypeRegistry, _pos: Postion) -> (slot: Option<RouteComponentType>)
        ensures
            slot == Some(RouteComponentType::Query(final(registry)@.handle_of(T::key()))),
    {
        Some(RouteComponentType::Query(T::get_definition(registry)))
    }
}

impl<T: TypescriptType> Buildable for axum::Json<T> {
    fn build(registry: &mut GlobalTypeRegistry, pos: Postion) -> (slot: Option<RouteComponentType>)
        ensures
            slot == Some(RouteComponentType::Json(pos, final(registry)@.handle_of(T::key()))),
    {
        Some(RouteComponentType::Json(pos, T::get_definition(registry)))
    }
}

impl<T: TypescriptType, R: TypescriptType> Buildable for Result<T, R> {
    fn build(registry: &mut GlobalTypeRegistry, pos: Postion) -> (slot: Option<RouteComponentType>)
        ensures
            slot == Some(
                RouteComponentType::Json(
                    pos,
                    final(registry)@.handle_of(<Result<T, R> as TypescriptType>::key()),
                ),
            ),
    {
        Some(RouteComponentType::Json(pos, <Result<T, R> as TypescriptType>::get_definition(registry)))
    }
}

impl<T: TypescriptType, R: TypescriptType> Buildable for Result<axum::Json<T>, R> {
    fn build(registry: &mut GlobalTypeRegistry, pos: Postion) -> (slot: Option<RouteComponentType>)
        ensures
            slot == Some(
                RouteComponentType::Json(
                    pos,
                    final(registry)@.handle_of(<Result<T, R> as TypescriptType>::key()),
                ),
            ),
    {
        Some(RouteComponentType::Json(pos, <Result<T, R> as TypescriptType>::get_definition(registry)))
    }
}

impl<T: TypescriptType, R: TypescriptType> Buildable for Result<axum::Json<T>, axum::Json<R>> {
    fn build(registry: &mut GlobalTypeRegistry, pos: Postion) -> (slot: Option<RouteComponentType>)
        ensures
            slot == Some(
                RouteComponentType::Json(
                    pos,
                    final(registry)@.handle_of(<Result<T, R> as TypescriptType>::key()),
                ),
            ),
    {
        Some(RouteComponentType::Json(pos, <Result<T, R> as TypescriptType>::get_definition(registry)))
    }
}

impl<T: TypescriptType> Buildable for Option<axum::Json<T>> {
    fn build(registry: &mut GlobalTypeRegistry, pos: Postion) -> (slot: Option<RouteComponentType>)
        ensures
            slot == Some(
                RouteComponentType::Json(
                    pos,
                    final(registry)@.handle_of(<Option<T> as TypescriptType>::key()),
                ),
            ),
    {
        Some(RouteComponentType::Json(pos, <Option<T> as TypescriptType>::get_definition(registry)))
    }
}

impl<T: TypescriptType> Buildable for Option<T> {
    fn build(registry: &mut GlobalTypeRegistry, pos: Postion) -> (slot: Option<RouteComponentType>)
        ensures
            slot == Some(
                RouteComponentType::Json(
                    pos,
                    final(registry)@.handle_of(<Option<T> as TypescriptType>::key()),
                ),
            ),
    {
        Some(RouteComponentType::Json(pos, <Option<T> as TypescriptType>::get_definition(registry)))
    }
}

impl<F, Fut, Res, M> ApiBuildable<(M,)> for F where
    F: FnOnce() -> Fut + Clone + Send + 'static,
    Fut: Future<Output = Res> + Send,
    Res: Buildable,
 {
    fn build(registry: &mut GlobalTypeRegistry) -> (slots: Vec<RouteComponentType>) {
        let result = Res::build(registry, Postion::Result);
        let mut slots: Vec<Option<RouteComponentType>> = Vec::new();
        slots.push(result);
        let ghost given = slots@;
        let kept = collect_slots(slots);
        proof {
            lemma_present_slots(given, 0, Seq::empty());
        }
        kept
    }
}

impl<F, Fut, Res, M, T1> ApiBuildable<(M, T1)> for F where
    F: FnOnce(T1) -> Fut + Clone + Send + 'static,
    Fut: Future<Output = Res> + Send,
    Res: Buildable,
    T1: Buildable,
 {
    fn build(registry: &mut GlobalTypeRegistry) -> (slots: Vec<RouteComponentType>) {
        let slot_0 = T1::build(registry, Postion::Body);
        let ghost after_0 = registry@;
        let result = Res::build(registry, Postion::Result);
        let mut slots: Vec<Option<RouteComponentType>> = Vec::new();
        slots.push(slot_0);
        slots.push(result);
        let ghost given = slots@;
        let kept = collect_slots(slots);
        proof {
            lemma_extends_transitive(old(registry)@, after_0, registry@);
            if slot_0 is Some {
                lemma_known_handle_stays(after_0, registry@, slot_0->0.handle());
            }
            lemma_present_slots(given, 0, Seq::empty());
        }
        kept
    }
}

impl<F, Fut, Res, M, T1, T2> ApiBuildable<(M, T1, T2)> for F where
    F: FnOnce(T1, T2) -> Fut + Clone + Send + 'static,
    Fut: Future<Output = Res> + Send,
    Res: Buildable,
    T1: Buildable,
    T2: Buildable,
 {
    fn build(registry: &mut GlobalTypeRegistry) -> (slots: Vec<RouteComponentType>) {
        let slot_0 = T1::build(registry, Postion::Body);
        let ghost after_0 = registry@;
        let slot_1 = T2::build(registry, Postion::Body);
        let ghost after_1 = registry@;
        let result = Res::build(registry, Postion::Result);
        let mut slots: Vec<Option<RouteComponentType>> = Vec::new();
        slots.push(slot_0);
        slots.push(slot_1);
        slots.push(result);
        let ghost given = slots@;
        let kept = collect_slots(slots);
        proof {
            lemma_extends_transitive(old(registry)@, after_0, after_1);
            lemma_extends_transitive(old(registry)@, after_1, registry@);
            if slot_0 is Some {
                lemma_known_handle_stays(after_0, registry@, slot_0->0.handle());
            }
            if slot_1 is Some {
                lemma_known_handle_stays(after_1, registry@, slot_1->0.handle());
            }
            lemma_present_slots(given, 0, Seq::empty());
        }
        kept
    }
}

impl<F, Fut, Res, M, T1, T2, T3> ApiBuildable<(M, T1, T2, T3)> for F where
    F: FnOnce(T1, T2, T3) -> Fut + Clone + Send + 'static,
    Fut: Future<Output = Res> + Send,
    Res: Buildable,
    T1: Buildable,
    T2: Buildable,
    T3: Buildable,
 {
    fn build(registry: &mut GlobalTypeRegistry) -> (slots: Vec<RouteComponentType>) {
        let slot_0 = T1::build(registry, Postion::Body);
        let ghost after_0 = registry@;
        let slot_1 = T2::build(registry, Postion::Body);
        let ghost after_1 = registry@;
        let slot_2 = T3::build(registry, Postion::Body);
        let ghost after_2 = registry@;
        let result = Res::build(registry, Postion::Result);
        let mut slots: Vec<Option<RouteComponentType>> = Vec::new();
        slots.push(slot_0);
        slots.push(slot_1);
        slots.push(slot_2);
        slots.push(result);
        let ghost given = slots@;
        let kept = collect_slots(slots);
        proof {
            lemma_extends_transitive(old(registry)@, after_0, after_1);
            lemma_extends_transitive(old(registry)@, after_1, after_2);
            lemma_extends_transitive(old(registry)@, after_2, registry@);
            if slot_0 is Some {
                lemma_known_handle_stays(after_0, registry@, slot_0->0.handle());
            }
            if slot_1 is Some {
                lemma_known_handle_stays(after_1, registry@, slot_1->0.handle());
            }
            if slot_2 is Some {
                lemma_known_handle_stays(after_2, registry@, slot_2->0.handle());
            }
            lemma_present_slots(given, 0, Seq::empty());
        }
        kept
    }
}

impl<F, Fut, Res, M, T1, T2, T3, T4> ApiBuildable<(M, T1, T2, T3, T4)> for F where
    F: FnOnce(T1, T2, T3, T4) -> Fut + Clone + Send + 'static,
    Fut: Future<Output = Res> + Send,
    Res: Buildable,
    T1: Buildable,
    T2: Buildable,
    T3: Buildable,
    T4: Buildable,
 {
    fn build(registry: &mut GlobalTypeRegistry) -> (slots: Vec<RouteComponentType>) {
        let slot_0 = T1::build(registry, Postion::Body);
        let ghost after_0 = registry@;
        let slot_1 = T2::build(registry, Postion::Body);
        let ghost after_1 = registry@;
        let slot_2 = T3::build(registry, Postion::Body);
        let ghost after_2 = registry@;
        let slot_3 = T4::build(registry, Postion::Body);
        let ghost after_3 = registry@;
        let result = Res::build(registry, Postion::Result);
        let mut slots: Vec<Option<RouteComponentType>> = Vec::new();
        slots.push(slot_0);
        slots.push(slot_1);
        slots.push(slot_2);
        slots.push(slot_3);
        slots.push(result);
        let ghost given = slots@;
        let kept = collect_slots(slots);
        proof {
            lemma_extends_transitive(old(registry)@, after_0, after_1);
            lemma_extends_transitive(old(registry)@, after_1, after_2);
            lemma_extends_transitive(old(registry)@, after_2, after_3);
            lemma_extends_transitive(old(registry)@, after_3, registry@);
            if slot_0 is Some {
                lemma_known_handle_stays(after_0, registry@, slot_0->0.handle());
            }
            if slot_1 is Some {
                lemma_known_handle_stays(after_1, registry@, slot_1->0.handle());
            }
            if slot_2 is Some {
                lemma_known_handle_stays(after_2, registry@, slot_2->0.handle());
            }
            if slot_3 is Some {
                lemma_known_handle_stays(after_3, registry@, slot_3->0.handle());
            }
            lemma_present_slots(given, 0, Seq::empty());
        }
        kept
    }
}

impl<F, Fut, Res, M, T1, T2, T3, T4, T5> ApiBuildable<(M, T1, T2, T3, T4, T5)> for F where
    F: FnOnce(T1, T2, T3, T4, T5) -> Fut + Clone + Send + 'static,
    Fut: Future<Output = Res> + Send,
    Res: Buildable,
    T1: Buildable,
    T2: Buildable,
    T3: Buildable,
    T4: Buildable,
    T5: Buildable,
 {
    fn build(registry: &mut GlobalTypeRegistry) -> (slots: Vec<RouteComponentType>) {
        let slot_0 = T1::build(registry, Postion::Body);
        let ghost after_0 = registry@;
        let slot_1 = T2::build(registry, Postion::Body);
        let ghost after_1 = registry@;
        let slot_2 = T3::build(registry, Postion::Body);
        let ghost after_2 = registry@;
        let slot_3 = T4::build(registry, Postion::Body);
        let ghost after_3 = registry@;
        let slot_4 = T5::build(registry, Postion::Body);
        let ghost after_4 = registry@;
        let result = Res::build(registry, Postion::Result);
        let mut slots: Vec<Option<RouteComponentType>> = Vec::new();
        slots.push(slot_0);
        slots.push(slot_1);
        slots.push(slot_2);
        slots.push(slot_3);
        slots.push(slot_4);
        slots.push(result);
        let ghost given = slots@;
        let kept = collect_slots(slots);
        proof {
            lemma_extends_transitive(old(registry)@, after_0, after_1);
            lemma_extends_transitive(old(registry)@, after_1, after_2);
            lemma_extends_transitive(old(registry)@, after_2, after_3);
            lemma_extends_transitive(old(registry)@, after_3, after_4);
            lemma_extends_transitive(old(registry)@, after_4, registry@);
            if slot_0 is Some {
                lemma_known_handle_stays(after_0, registry@, slot_0->0.handle());
            }
            if slot_1 is Some {
                lemma_known_handle_stays(after_1, registry@, slot_1->0.handle());
            }
            if slot_2 is Some {
                lemma_known_handle_stays(after_2, registry@, slot_2->0.handle());
            }
            if slot_3 is Some {
                lemma_known_handle_stays(after_3, registry@, slot_3->0.handle());
            }
            if slot_4 is Some {
                lemma_known_handle_stays(after_4, registry@, slot_4->0.handle());
            }
            lemma_present_slots(given, 0, Seq::empty());
        }
        kept
    }
}

} // verus!
