//! External tagging: a map with one entry, from the implementer's name to
//! its value.
use vstd::prelude::*;

use crate::content::{kind_of, Content};
use crate::de::{
    accepts_all, apply, lookup_content, same_resolution, tag_value_spec, Payload, PayloadView,
};
use crate::error::{Error, ErrorView, Expected, ExpectedView};
use crate::registry::{table_of, Registry};
use crate::ser::{self, is_str};

verus! {

/// `out` is `concrete` under the single key `variant`.
pub open spec fn serialized_as(variant: Seq<char>, concrete: ser::Content, out: ser::Content) -> bool {
    out matches ser::Content::Mapping(m) && m@.len() == 1 && is_str(m@[0].0, variant) && m@[0].1
        == concrete
}

/// Writes `concrete` as a map with one entry, under the implementer's name.
pub fn serialize(variant: &str, concrete: ser::Content) -> (r: ser::Content)
    ensures
        serialized_as(variant@, concrete, r),
{
    let mut map: Vec<(ser::Content, ser::Content)> = Vec::new();
    map.push((ser::Content::String(variant.to_owned()), concrete));
    ser::Content::Mapping(map)
}

/// Decoding an externally tagged value of the interface `trait_object`: the
/// routine named by the single key, and the value under it.
pub open spec fn deserialize_spec<F>(
    registry: Registry<F>,
    trait_object: Seq<char>,
    input: Content,
) -> Result<(F, PayloadView), ErrorView> {
    match input {
        Content::Mapping(es) => if es@.len() == 0 {
            Err(ErrorView::ExpectedExternallyTagged(trait_object))
        } else {
            match tag_value_spec(registry, trait_object, es@[0].0) {
                Err(e) => Err(e),
                Ok(f) => if es@.len() > 1 {
                    Err(ErrorView::InvalidLength(es@.len() as usize, ExpectedView::Other(Expected::MapOfLen(1))))
                } else {
                    Ok((f, PayloadView::Value(es@[0].1)))
                },
            }
        },
        _ => Err(ErrorView::InvalidType(kind_of(input), ExpectedView::TraitObject(trait_object))),
    }
}

/// Finds the routine that an externally tagged value names, and its payload.
pub fn resolve<F: Copy>(input: Content, trait_object: &str, registry: &Registry<F>) -> (r: Result<
    (F, Payload),
    Error,
>)
    requires
        registry.wf(),
    ensures
        same_resolution(r, deserialize_spec(*registry, trait_object@, input)),
{
    match input {
        Content::Mapping(mut es) => {
            if es.len() == 0 {
                return Err(Error::ExpectedExternallyTagged(trait_object.to_owned()));
            }
            let f = match lookup_content(registry, trait_object, &es[0].0) {
                Ok(f) => f,
                Err(e) => return Err(e),
            };
            if es.len() > 1 {
                return Err(Error::invalid_length(es.len(), Expected::MapOfLen(1)));
            }
            let (_, value) = es.remove(0);
            Ok((f, Payload::Value(value)))
        },
        other => Err(
            Error::invalid_type(other.unexpected(), Expected::TraitObject(trait_object.to_owned())),
        ),
    }
}

/// Decodes an externally tagged value with the routine its key names.
pub fn deserialize<F: Fn(Payload) -> Result<T, Error> + Copy, T>(
    input: Content,
    trait_object: &str,
    registry: &Registry<F>,
) -> (r: Result<T, Error>)
    requires
        registry.wf(),
        accepts_all(*registry),
    ensures
        match deserialize_spec(*registry, trait_object@, input) {
            Ok(fp) => exists|p: Payload| p@ == fp.1 && fp.0.ensures((p,), r),
            Err(e) => r matches Err(err) && err@ == e,
        },
{
    let ghost spec = deserialize_spec(*registry, trait_object@, input);
    let resolved = resolve(input, trait_object, registry);
    let ghost g = resolved;
    let r = apply(resolved);
    proof {
        if let Ok(fp) = g {
            assert(fp.1@ == spec->Ok_0.1);
        }
    }
    r
}


/// Decoding what serializing produced, as a self-describing format reads it
/// back, finds the implementer's routine and hands it the value as written.
pub proof fn lemma_round_trip<F>(
    registry: Registry<F>,
    trait_object: Seq<char>,
    variant: Seq<char>,
    f: F,
    concrete: ser::Content,
    encoded: ser::Content,
    wire: Content,
)
    requires
        registry@.contains_key(variant),
        registry@[variant] == Some(f),
        serialized_as(variant, concrete, encoded),
        ser::captured_as(encoded, wire),
    ensures
        deserialize_spec(registry, trait_object, wire) matches Ok(fp) && fp.0 == f && (
        fp.1 matches PayloadView::Value(p) && ser::captured_as(concrete, p)),
{
    let m = encoded->Mapping_0@;
    assert(ser::entries_captured_as(m, wire));
    let w = wire->Mapping_0@;
    assert(w.len() == 1);
    assert(ser::captured_as(m[0].0, w[0].0) && ser::captured_as(m[0].1, w[0].1));
}

/// A tag that no implementer registered is refused, with the sorted list of
/// every registered name.
pub proof fn lemma_unknown_tag<F>(
    registry: Registry<F>,
    trait_object: Seq<char>,
    wire: Content,
    name: Seq<char>,
)
    requires
        registry.wf(),
        wire matches Content::Mapping(m) && m@.len() >= 1 && (m@[0].0 matches Content::String(k)
            && k@ == name),
        !registry@.contains_key(name),
    ensures
        deserialize_spec(registry, trait_object, wire) == Err::<(F, PayloadView), ErrorView>(
            ErrorView::UnknownVariant(name, registry.names_view()),
        ),
        crate::registry::strictly_sorted(registry.names_view()),
        forall|k: Seq<char>| registry@.contains_key(k) <==> registry.names_view().contains(k),
{
    registry.lemma_names();
}


/// A tag that two registrations share is refused as non-unique; neither
/// routine is picked.
pub proof fn lemma_non_unique_tag<F>(
    registry: Registry<F>,
    trait_object: Seq<char>,
    wire: Content,
    regs: Seq<(Seq<char>, F)>,
    a: int,
    b: int,
)
    requires
        registry@ == table_of(regs),
        0 <= a < b < regs.len(),
        regs[a].0 == regs[b].0,
        wire matches Content::Mapping(m) && m@.len() >= 1 && (m@[0].0 matches Content::String(k)
            && k@ == regs[a].0),
    ensures
        deserialize_spec(registry, trait_object, wire) == Err::<(F, PayloadView), ErrorView>(
            ErrorView::NonUniqueTag(trait_object, regs[a].0),
        ),
{
    crate::de::lemma_ambiguous_tag(registry, trait_object, regs, a, b);
}

} // verus!
