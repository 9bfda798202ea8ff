//! Resolving a tag through the registry, and handing the payload to the
//! routine that the tag names.
use vstd::prelude::*;

use crate::content::{
    bool_of, bytes_of, char_of, enum_of, integer_in, kind_of, option_of, same_value, seq_of,
    string_of, unit_of, unit_struct_of, Content, ContentDeserializer, EnumDeserializer, Fields,
    MapDeserializer, SeqDeserializer,
};
use crate::error::{Error, ErrorView, Expected, ExpectedView, Kind};
use crate::internally::{default_value_spec, MapWithStringKeys};
use crate::registry::{lemma_two_registrations_ambiguous, table_of, Registry};

verus! {

/// The input that a decode routine reads its value from.
pub enum Payload {
    /// A buffered value.
    Value(Content),
    /// The entries of a map other than its tag, wherever the tag stood,
    /// read with the default-key convention for values that are not
    /// map-shaped.
    Rest(MapWithStringKeys),
}

/// `Payload`, with its entry lists as sequences.
pub enum PayloadView {
    Value(Content),
    Rest(Seq<(Content, Content)>),
}

impl Payload {
    pub open spec fn view(&self) -> PayloadView {
        match self {
            Payload::Value(c) => PayloadView::Value(*c),
            Payload::Rest(m) => PayloadView::Rest(m@),
        }
    }
}

/// Reading a value that is not map-shaped out of a payload: a buffered value
/// is read as it is, and the entries beside a tag hold it under the default
/// key.
pub open spec fn via_scalar<T>(
    p: PayloadView,
    read: spec_fn(Content) -> Result<T, ErrorView>,
    expected: Expected,
) -> Result<T, ErrorView> {
    match p {
        PayloadView::Value(c) => read(c),
        PayloadView::Rest(m) => match default_value_spec(m) {
            Ok(c) => read(c),
            Err(e) => Err(e),
        },
    }
}

/// `r` holds the integer `s` holds, or the same error.
pub open spec fn same_integer<T: Integer>(r: Result<T, Error>, s: Result<int, ErrorView>) -> bool {
    match s {
        Ok(v) => r matches Ok(x) && x as int == v,
        Err(e) => r matches Err(err) && err@ == e,
    }
}

impl Payload {
    /// The buffered value that a routine asking for anything but a map
    /// reads.
    fn scalar(self) -> (r: Result<ContentDeserializer, Error>)
        ensures
            match self@ {
                PayloadView::Value(c) => r matches Ok(d) && d.content == c,
                PayloadView::Rest(m) => match default_value_spec(m) {
                    Ok(c) => r matches Ok(d) && d.content == c,
                    Err(e) => r matches Err(err) && err@ == e,
                },
            },
    {
        match self {
            Payload::Value(c) => Ok(ContentDeserializer::new(c)),
            Payload::Rest(m) => {
                let mut m = m;
                match m.try_default_key() {
                    Ok(c) => Ok(ContentDeserializer::new(c)),
                    Err(e) => Err(e),
                }
            },
        }
    }

    pub fn deserialize_bool(self) -> (r: Result<bool, Error>)
        ensures
            same_value(r, via_scalar(self@, |c: Content| bool_of(c), Expected::Bool)),
    {
        match self.scalar() {
            Ok(d) => d.deserialize_bool(),
            Err(e) => Err(e),
        }
    }

    pub fn deserialize_u8(self) -> (r: Result<u8, Error>)
        ensures
            same_integer(r, via_scalar(self@, |c: Content| integer_in(c, 0, u8::MAX as int), Expected::Integer)),
    {
        match self.scalar() {
            Ok(d) => d.deserialize_u8(),
            Err(e) => Err(e),
        }
    }

    pub fn deserialize_u16(self) -> (r: Result<u16, Error>)
        ensures
            same_integer(r, via_scalar(self@, |c: Content| integer_in(c, 0, u16::MAX as int), Expected::Integer)),
    {
        match self.scalar() {
            Ok(d) => d.deserialize_u16(),
            Err(e) => Err(e),
        }
    }

    pub fn deserialize_u32(self) -> (r: Result<u32, Error>)
        ensures
            same_integer(r, via_scalar(self@, |c: Content| integer_in(c, 0, u32::MAX as int), Expected::Integer)),
    {
        match self.scalar() {
            Ok(d) => d.deserialize_u32(),
            Err(e) => Err(e),
        }
    }

    pub fn deserialize_u64(self) -> (r: Result<u64, Error>)
        ensures
            same_integer(r, via_scalar(self@, |c: Content| integer_in(c, 0, u64::MAX as int), Expected::Integer)),
    {
        match self.scalar() {
            Ok(d) => d.deserialize_u64(),
            Err(e) => Err(e),
        }
    }

    pub fn deserialize_i8(self) -> (r: Result<i8, Error>)
        ensures
            same_integer(r, via_scalar(self@, |c: Content| integer_in(c, i8::MIN as int, i8::MAX as int), Expected::Integer)),
    {
        match self.scalar() {
            Ok(d) => d.deserialize_i8(),
            Err(e) => Err(e),
        }
    }

    pub fn deserialize_i16(self) -> (r: Result<i16, Error>)
        ensures
            same_integer(r, via_scalar(self@, |c: Content| integer_in(c, i16::MIN as int, i16::MAX as int), Expected::Integer)),
    {
        match self.scalar() {
            Ok(d) => d.deserialize_i16(),
            Err(e) => Err(e),
        }
    }

    pub fn deserialize_i32(self) -> (r: Result<i32, Error>)
        ensures
            same_integer(r, via_scalar(self@, |c: Content| integer_in(c, i32::MIN as int, i32::MAX as int), Expected::Integer)),
    {
        match self.scalar() {
            Ok(d) => d.deserialize_i32(),
            Err(e) => Err(e),
        }
    }

    pub fn deserialize_i64(self) -> (r: Result<i64, Error>)
        ensures
            same_integer(r, via_scalar(self@, |c: Content| integer_in(c, i64::MIN as int, i64::MAX as int), Expected::Integer)),
    {
        match self.scalar() {
            Ok(d) => d.deserialize_i64(),
            Err(e) => Err(e),
        }
    }

    pub fn deserialize_char(self) -> (r: Result<char, Error>)
        ensures
            same_value(r, via_scalar(self@, |c: Content| char_of(c), Expected::Char)),
    {
        match self.scalar() {
            Ok(d) => d.deserialize_char(),
            Err(e) => Err(e),
        }
    }

    pub fn deserialize_string(self) -> (r: Result<String, Error>)
        ensures
            match via_scalar(self@, |c: Content| string_of(c), Expected::Str) {
                Ok(s) => r matches Ok(x) && x@ == s,
                Err(e) => r matches Err(err) && err@ == e,
            },
    {
        match self.scalar() {
            Ok(d) => d.deserialize_string(),
            Err(e) => Err(e),
        }
    }

    pub fn deserialize_bytes(self) -> (r: Result<Vec<u8>, Error>)
        ensures
            match via_scalar(self@, |c: Content| bytes_of(c), Expected::Bytes) {
                Ok(b) => r matches Ok(x) && x@ == b,
                Err(e) => r matches Err(err) && err@ == e,
            },
    {
        match self.scalar() {
            Ok(d) => d.deserialize_bytes(),
            Err(e) => Err(e),
        }
    }

    pub fn deserialize_seq(self) -> (r: Result<SeqDeserializer, Error>)
        ensures
            match via_scalar(self@, |c: Content| seq_of(c), Expected::Sequence) {
                Ok(s) => r matches Ok(d) && d.wf() && d.remaining() == s && d.count() == 0,
                Err(e) => r matches Err(err) && err@ == e,
            },
    {
        match self.scalar() {
            Ok(d) => d.deserialize_seq(),
            Err(e) => Err(e),
        }
    }

    /// A unit: beside a tag, whatever entries are left are not read.
    pub fn deserialize_unit(self) -> (r: Result<(), Error>)
        ensures
            match self@ {
                PayloadView::Value(c) => same_value(r, unit_of(c)),
                PayloadView::Rest(_) => r is Ok,
            },
    {
        match self {
            Payload::Value(c) => ContentDeserializer::new(c).deserialize_unit(),
            Payload::Rest(_) => Ok(()),
        }
    }

    /// A unit struct: an empty buffered map counts as one too, and beside a
    /// tag the entries left are not read.
    pub fn deserialize_unit_struct(self) -> (r: Result<(), Error>)
        ensures
            match self@ {
                PayloadView::Value(c) => same_value(r, unit_struct_of(c)),
                PayloadView::Rest(_) => r is Ok,
            },
    {
        match self {
            Payload::Value(c) => ContentDeserializer::new(c).deserialize_unit_struct(),
            Payload::Rest(_) => Ok(()),
        }
    }

    /// The payload inside a newtype wrapper.
    pub fn deserialize_newtype_struct(self) -> (r: Payload)
        ensures
            match self@ {
                PayloadView::Value(Content::Newtype(v)) => r@ == PayloadView::Value(*v),
                _ => r@ == self@,
            },
    {
        match self {
            Payload::Value(c) => Payload::Value(ContentDeserializer::new(c).deserialize_newtype_struct()),
            other => other,
        }
    }

    /// An optional value; a map counts as present.
    pub fn deserialize_option(self) -> (r: Result<Option<Content>, Error>)
        ensures
            match self@ {
                PayloadView::Value(c) => r == Ok::<Option<Content>, Error>(option_of(c)),
                PayloadView::Rest(m) => if m.len() == 0 {
                    r == Ok::<Option<Content>, Error>(None)
                } else {
                    match default_value_spec(m) {
                        Ok(c) => r == Ok::<Option<Content>, Error>(Some(c)),
                        Err(e) => r matches Err(err) && err@ == e,
                    }
                },
            },
    {
        match self {
            Payload::Value(c) => Ok(ContentDeserializer::new(c).deserialize_option()),
            Payload::Rest(m) => m.deserialize_option(),
        }
    }

    /// A map: the entries beside a tag, or a buffered map.
    pub fn deserialize_map(self) -> (r: Result<MapDeserializer, Error>)
        ensures
            match entries_of(self@) {
                Some(s) => r matches Ok(d) && d.wf() && d.remaining() == s && d.count() == 0,
                None => r matches Err(err) && err@ == ErrorView::InvalidType(
                    kind_of(self@->Value_0),
                    ExpectedView::Other(Expected::Mapping),
                ),
            },
    {
        match self {
            Payload::Value(c) => ContentDeserializer::new(c).deserialize_map(),
            Payload::Rest(m) => Ok(m.deserialize_map()),
        }
    }

    /// A struct: from a map of its fields, or a buffered sequence of them.
    pub fn deserialize_struct(self) -> (r: Result<Fields, Error>)
        ensures
            match entries_of(self@) {
                Some(s) => r matches Ok(Fields::Named(d)) && d.wf() && d.remaining() == s
                    && d.count() == 0,
                None => match self@->Value_0 {
                    Content::Sequence(v) => r matches Ok(Fields::Positional(d)) && d.wf()
                        && d.remaining() == v@ && d.count() == 0,
                    c => r matches Err(err) && err@ == ErrorView::InvalidType(
                        kind_of(c),
                        ExpectedView::Other(Expected::Struct),
                    ),
                },
            },
    {
        match self {
            Payload::Value(c) => ContentDeserializer::new(c).deserialize_struct(),
            Payload::Rest(m) => Ok(Fields::Named(m.deserialize_map())),
        }
    }

    /// An enum named `name`: a bare variant name, or a map from the
    /// variant's name to its data.
    pub fn deserialize_enum(self, name: &str) -> (r: Result<EnumDeserializer, Error>)
        ensures
            match self@ {
                PayloadView::Value(c) => match enum_of(c) {
                    Ok(p) => r matches Ok(d) && d.variant == p.0 && d.value == p.1,
                    Err(e) => r matches Err(err) && err@ == e,
                },
                PayloadView::Rest(m) => if m.len() == 0 {
                    r matches Err(e) && e@ == ErrorView::ExpectedEnum(name@)
                } else {
                    r matches Ok(d) && d.variant == m[0].0 && d.value == Some(m[0].1)
                },
            },
    {
        match self {
            Payload::Value(c) => ContentDeserializer::new(c).deserialize_enum(),
            Payload::Rest(m) => m.deserialize_enum(name),
        }
    }
}

/// The entries that a payload presents when it is read as a map.
pub open spec fn entries_of(p: PayloadView) -> Option<Seq<(Content, Content)>> {
    match p {
        PayloadView::Rest(s) => Some(s),
        PayloadView::Value(Content::Mapping(v)) => Some(v@),
        _ => None,
    }
}

/// What looking up `key` in `registry` gives, for the interface named
/// `trait_object`.
pub open spec fn resolve_spec<F>(registry: Registry<F>, trait_object: Seq<char>, key: Seq<char>) -> Result<
    F,
    ErrorView,
> {
    if !registry@.contains_key(key) {
        Err(ErrorView::UnknownVariant(key, registry.names_view()))
    } else {
        match registry@[key] {
            Some(f) => Ok(f),
            None => Err(ErrorView::NonUniqueTag(trait_object, key)),
        }
    }
}

/// What reading a tag out of the buffered value `c` gives: it must be a
/// string, which is then looked up.
pub open spec fn tag_value_spec<F>(registry: Registry<F>, trait_object: Seq<char>, c: Content) -> Result<
    F,
    ErrorView,
> {
    match c {
        Content::String(s) => resolve_spec(registry, trait_object, s@),
        _ => Err(ErrorView::InvalidType(kind_of(c), ExpectedView::TraitObject(trait_object))),
    }
}

/// Every routine in the registry accepts every payload.
pub open spec fn accepts_all<F: Fn(Payload) -> Result<T, Error>, T>(registry: Registry<F>) -> bool {
    forall|k: Seq<char>, p: Payload|
        registry@.contains_key(k) && registry@[k] is Some ==> (#[trigger] registry@[k]->0).requires(
            (p,),
        )
}

pub open spec fn resolved_view<F>(r: (F, Payload)) -> (F, PayloadView) {
    (r.0, r.1@)
}

/// Looks up the routine registered under `key`.
pub fn lookup<F: Copy>(registry: &Registry<F>, trait_object: &str, key: &str) -> (r: Result<F, Error>)
    requires
        registry.wf(),
    ensures
        same_outcome_fn(r, resolve_spec(*registry, trait_object@, key@)),
{
    match registry.get(key) {
        Some(Some(f)) => Ok(f),
        Some(None) => Err(
            Error::NonUniqueTag { trait_object: trait_object.to_owned(), variant: key.to_owned() },
        ),
        None => {
            let names = registry.names();
            Err(Error::UnknownVariant { variant: key.to_owned(), known: names })
        },
    }
}

/// Reads a tag out of a buffered value and looks it up.
pub fn lookup_content<F: Copy>(registry: &Registry<F>, trait_object: &str, c: &Content) -> (r: Result<
    F,
    Error,
>)
    requires
        registry.wf(),
    ensures
        same_outcome_fn(r, tag_value_spec(*registry, trait_object@, *c)),
{
    match c {
        Content::String(s) => lookup(registry, trait_object, s.as_str()),
        _ => Err(Error::invalid_type(c.unexpected(), Expected::TraitObject(trait_object.to_owned()))),
    }
}

/// `r` and `s` agree, on a routine found or on the error.
pub open spec fn same_outcome_fn<F>(r: Result<F, Error>, s: Result<F, ErrorView>) -> bool {
    match (r, s) {
        (Ok(a), Ok(b)) => a == b,
        (Err(e), Err(v)) => e@ == v,
        _ => false,
    }
}

/// `r` and `s` agree, on the routine and payload found or on the error.
pub open spec fn same_resolution<F>(
    r: Result<(F, Payload), Error>,
    s: Result<(F, PayloadView), ErrorView>,
) -> bool {
    match (r, s) {
        (Ok(a), Ok(b)) => a.0 == b.0 && a.1@ == b.1,
        (Err(e), Err(v)) => e@ == v,
        _ => false,
    }
}

/// Runs the routine that was found on its payload, or passes the error on.
pub fn apply<F: Fn(Payload) -> Result<T, Error>, T>(resolved: Result<(F, Payload), Error>) -> (r:
    Result<T, Error>)
    requires
        resolved matches Ok(fp) ==> fp.0.requires((fp.1,)),
    ensures
        match resolved {
            Ok(fp) => fp.0.ensures((fp.1,), r),
            Err(e) => r == Err::<T, Error>(e),
        },
{
    match resolved {
        Ok((f, payload)) => f(payload),
        Err(e) => Err(e),
    }
}


/// A name that no implementer registered is refused by every strategy with
/// the list of all registered names, sorted and complete.
pub proof fn lemma_unknown_name<F>(registry: Registry<F>, trait_object: Seq<char>, name: Seq<char>)
    requires
        registry.wf(),
        !registry@.contains_key(name),
    ensures
        resolve_spec(registry, trait_object, name) == Err::<F, ErrorView>(
            ErrorView::UnknownVariant(name, registry.names_view()),
        ),
        forall|s: String|
            s@ == name ==> #[trigger] tag_value_spec(registry, trait_object, Content::String(s))
                == Err::<F, ErrorView>(ErrorView::UnknownVariant(name, registry.names_view())),
        crate::registry::strictly_sorted(registry.names_view()),
        forall|k: Seq<char>| registry@.contains_key(k) <==> registry.names_view().contains(k),
{
    registry.lemma_names();
}

/// A name that two registrations share is refused as non-unique, whichever
/// strategy reads it: neither routine is picked.
pub proof fn lemma_ambiguous_tag<F>(
    registry: Registry<F>,
    trait_object: Seq<char>,
    regs: Seq<(Seq<char>, F)>,
    i: int,
    j: int,
)
    requires
        registry@ == table_of(regs),
        0 <= i < j < regs.len(),
        regs[i].0 == regs[j].0,
    ensures
        resolve_spec(registry, trait_object, regs[i].0) == Err::<F, ErrorView>(
            ErrorView::NonUniqueTag(trait_object, regs[i].0),
        ),
{
    lemma_two_registrations_ambiguous(regs, i, j);
}

} // verus!
