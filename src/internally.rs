//! Internal tagging: the tag is one more entry of the value's own map.
use vstd::prelude::*;

use crate::content::{kind_of, same_value, Content, EnumDeserializer, MapDeserializer};
use crate::de::{
    accepts_all, apply, lookup, lookup_content, resolve_spec, same_resolution,
    tag_value_spec, Payload, PayloadView,
};
use crate::error::{Error, ErrorView, Expected, ExpectedView};
use crate::is_serialize_str::expect_str_spec;
use crate::registry::{compare_names, strictly_sorted, table_of, Registry};
use crate::ser::{self, tagged_as, tagged_error, TagMismatch, TaggedSerializer};

verus! {

/// The entries of a map that are left once its leading tag has been read.
/// A routine that asks for a map gets them as they are; one that asks for
/// anything else finds its value under the default key.
pub struct MapWithStringKeys {
    entries: Vec<(Content, Content)>,
}

impl MapWithStringKeys {
    pub closed spec fn view(&self) -> Seq<(Content, Content)> {
        self.entries@
    }

    pub fn new(entries: Vec<(Content, Content)>) -> (r: Self)
        ensures
            r@ == entries@,
    {
        MapWithStringKeys { entries }
    }

    /// Takes the first entry, which must be the default key, and returns its
    /// value.
    pub fn try_default_key(&mut self) -> (r: Result<Content, Error>)
        ensures
            same_value(r, default_value_spec(old(self)@)),
            old(self)@.len() > 0 ==> final(self)@ == old(self)@.drop_first(),
            old(self)@.len() == 0 ==> final(self)@ == old(self)@,
    {
        proof {
            reveal_strlit("value");
        }
        if self.entries.len() == 0 {
            return Err(Error::missing_field(ser::DEFAULT_KEY));
        }
        let (key, value) = self.entries.remove(0);
        match key {
            Content::String(k) => {
                if compare_names(k.as_str(), ser::DEFAULT_KEY) == 0 {
                    Ok(value)
                } else {
                    let mut allowed: Vec<String> = Vec::new();
                    allowed.push(ser::DEFAULT_KEY.to_owned());
                    assert(crate::error::strings_view(allowed@) =~= seq![ser::DEFAULT_KEY@]);
                    Err(Error::UnknownField { field: k, allowed })
                }
            },
            other => Err(Error::invalid_type(other.unexpected(), Expected::DefaultKey)),
        }
    }

    /// An optional value is absent when no entry is left, and otherwise the
    /// value under the default key.
    pub fn deserialize_option(self) -> (r: Result<Option<Content>, Error>)
        ensures
            self@.len() == 0 ==> r == Ok::<Option<Content>, Error>(None),
            self@.len() > 0 ==> match default_value_spec(self@) {
                Ok(c) => r == Ok::<Option<Content>, Error>(Some(c)),
                Err(e) => r matches Err(err) && err@ == e,
            },
    {
        if self.entries.len() == 0 {
            return Ok(None);
        }
        let mut this = self;
        match this.try_default_key() {
            Ok(c) => Ok(Some(c)),
            Err(e) => Err(e),
        }
    }

    /// The entries, read as a map.
    pub fn deserialize_map(self) -> (r: MapDeserializer)
        ensures
            r.wf(),
            r.remaining() == self@,
            r.count() == 0,
    {
        MapDeserializer::new(self.entries)
    }

    /// An enum from the first entry: its key names the variant, its value
    /// carries the data.
    pub fn deserialize_enum(self, name: &str) -> (r: Result<EnumDeserializer, Error>)
        ensures
            self@.len() == 0 ==> (r matches Err(e) && e@ == ErrorView::ExpectedEnum(name@)),
            self@.len() > 0 ==> (r matches Ok(d) && d.variant == self@[0].0 && d.value == Some(
                self@[0].1,
            )),
    {
        let mut entries = self.entries;
        if entries.len() == 0 {
            return Err(Error::ExpectedEnum(name.to_owned()));
        }
        let (variant, value) = entries.remove(0);
        Ok(EnumDeserializer { variant, value: Some(value) })
    }
}

/// The value under the default key, which must be the first entry left.
pub open spec fn default_value_spec(m: Seq<(Content, Content)>) -> Result<Content, ErrorView> {
    if m.len() == 0 {
        Err(ErrorView::MissingField(ser::DEFAULT_KEY@))
    } else {
        match m[0].0 {
            Content::String(k) => if k@ == ser::DEFAULT_KEY@ {
                Ok(m[0].1)
            } else {
                Err(ErrorView::UnknownField(k@, seq![ser::DEFAULT_KEY@]))
            },
            _ => Err(ErrorView::InvalidType(kind_of(m[0].0), ExpectedView::Other(Expected::DefaultKey))),
        }
    }
}


/// Writes `concrete` as a map whose first entry is `tag`, holding the
/// implementer's name, followed by the value's own entries.
pub fn serialize(tag: &str, variant: &str, concrete: ser::Content) -> (r: Result<
    ser::Content,
    TagMismatch,
>)
    ensures
        match tagged_error(tag@, variant@, concrete) {
            Some(found) => r matches Err(m) && expect_str_spec(found, variant@, Err(m.found)),
            None => r matches Ok(out) && tagged_as(tag@, variant@, concrete, out),
        },
        r matches Err(m) ==> m.tag@ == tag@ && m.expected@ == variant@,
{
    let adapter = TaggedSerializer { tag, variant };
    adapter.serialize(concrete)
}

/// Scanning the entries from `i` on for the tag. Wherever the tag stands,
/// every other entry is handed over, in its order; with no tag at all the
/// whole map goes to the default implementer, if there is one.
pub open spec fn scan_spec<F>(
    registry: Registry<F>,
    trait_object: Seq<char>,
    tag: Seq<char>,
    default_variant: Option<Seq<char>>,
    es: Seq<(Content, Content)>,
    i: int,
) -> Result<(F, PayloadView), ErrorView>
    decreases es.len() - i,
{
    if i < 0 || i >= es.len() {
        match default_variant {
            Some(d) => match resolve_spec(registry, trait_object, d) {
                Ok(f) => Ok((f, PayloadView::Rest(es))),
                Err(e) => Err(e),
            },
            None => Err(ErrorView::MissingField(tag)),
        }
    } else {
        match es[i].0 {
            Content::String(k) => if k@ == tag {
                match tag_value_spec(registry, trait_object, es[i].1) {
                    Err(e) => Err(e),
                    Ok(f) => Ok((f, PayloadView::Rest(es.remove(i)))),
                }
            } else {
                scan_spec(registry, trait_object, tag, default_variant, es, i + 1)
            },
            _ => Err(ErrorView::InvalidType(kind_of(es[i].0), ExpectedView::KeyOf(trait_object))),
        }
    }
}

pub open spec fn opt_view(s: Option<&str>) -> Option<Seq<char>> {
    match s {
        Some(d) => Some(d@),
        None => None,
    }
}

/// Decoding an internally tagged value of the interface `trait_object`.
pub open spec fn deserialize_spec<F>(
    registry: Registry<F>,
    trait_object: Seq<char>,
    tag: Seq<char>,
    default_variant: Option<Seq<char>>,
    input: Content,
) -> Result<(F, PayloadView), ErrorView> {
    match input {
        Content::Mapping(es) => scan_spec(registry, trait_object, tag, default_variant, es@, 0),
        _ => Err(ErrorView::InvalidType(kind_of(input), ExpectedView::TraitObject(trait_object))),
    }
}

/// A routine that a scan finds is registered under some name.
pub proof fn lemma_scan_registered<F>(
    registry: Registry<F>,
    trait_object: Seq<char>,
    tag: Seq<char>,
    default_variant: Option<Seq<char>>,
    es: Seq<(Content, Content)>,
    i: int,
)
    requires
        scan_spec(registry, trait_object, tag, default_variant, es, i) is Ok,
    ensures
        exists|k: Seq<char>|
            registry@.contains_key(k) && registry@[k] == Some(
                scan_spec(registry, trait_object, tag, default_variant, es, i)->Ok_0.0,
            ),
    decreases es.len() - i,
{
    if i < 0 || i >= es.len() {
        let d = default_variant->Some_0;
        assert(registry@.contains_key(d));
    } else if let Content::String(k) = es[i].0 {
        if k@ == tag {
            let v = es[i].1;
            let name = v->String_0@;
            assert(registry@.contains_key(name));
        } else {
            lemma_scan_registered(registry, trait_object, tag, default_variant, es, i + 1);
        }
    }
}

/// Finds the routine that an internally tagged value names, and the payload
/// to hand it.
pub fn resolve<F: Copy>(
    input: Content,
    trait_object: &str,
    tag: &str,
    default_variant: Option<&str>,
    registry: &Registry<F>,
) -> (r: Result<(F, Payload), Error>)
    requires
        registry.wf(),
    ensures
        same_resolution(
            r,
            deserialize_spec(*registry, trait_object@, tag@, opt_view(default_variant), input),
        ),
{
    let ghost inp = input;
    let mut es = match input {
        Content::Mapping(es) => es,
        other => {
            return Err(
                Error::invalid_type(
                    other.unexpected(),
                    Expected::TraitObject(trait_object.to_owned()),
                ),
            );
        },
    };
    let ghost d = opt_view(default_variant);
    let ghost s = es@;
    let n = es.len();
    let mut i: usize = 0;
    while i < n
        invariant
            registry.wf(),
            es@ == s,
            n == s.len(),
            d == opt_view(default_variant),
            inp == input,
            deserialize_spec(*registry, trait_object@, tag@, d, inp) == scan_spec(
                *registry,
                trait_object@,
                tag@,
                d,
                s,
                0,
            ),
            i <= n,
            scan_spec(*registry, trait_object@, tag@, d, s, 0) == scan_spec(
                *registry,
                trait_object@,
                tag@,
                d,
                s,
                i as int,
            ),
        decreases n - i,
    {
        let is_tag = match &es[i].0 {
            Content::String(k) => compare_names(k.as_str(), tag) == 0,
            other => {
                return Err(
                    Error::invalid_type(other.unexpected(), Expected::KeyOf(trait_object.to_owned())),
                );
            },
        };
        if is_tag {
            let f = match lookup_content(registry, trait_object, &es[i].1) {
                Ok(f) => f,
                Err(e) => return Err(e),
            };
            es.remove(i);
            return Ok((f, Payload::Rest(MapWithStringKeys::new(es))));
        }
        i = i + 1;
    }
    match default_variant {
        Some(dv) => match lookup(registry, trait_object, dv) {
            Ok(f) => Ok((f, Payload::Rest(MapWithStringKeys::new(es)))),
            Err(e) => Err(e),
        },
        None => Err(Error::missing_field(tag)),
    }
}

/// Decodes an internally tagged value with the routine its tag names.
pub fn deserialize<F: Fn(Payload) -> Result<T, Error> + Copy, T>(
    input: Content,
    trait_object: &str,
    tag: &str,
    default_variant: Option<&str>,
    registry: &Registry<F>,
) -> (r: Result<T, Error>)
    requires
        registry.wf(),
        accepts_all(*registry),
    ensures
        match deserialize_spec(
            *registry,
            trait_object@,
            tag@,
            opt_view(default_variant),
            input,
        ) {
            Ok(fp) => exists|p: Payload| p@ == fp.1 && fp.0.ensures((p,), r),
            Err(e) => r matches Err(err) && err@ == e,
        },
{
    let ghost spec = deserialize_spec(*registry, trait_object@, tag@, opt_view(default_variant), input);
    let ghost inp = input;
    let resolved = resolve(input, trait_object, tag, default_variant, registry);
    let ghost g = resolved;
    proof {
        if let Content::Mapping(es) = inp {
            if spec is Ok {
                lemma_scan_registered(*registry, trait_object@, tag@, opt_view(default_variant), es@, 0);
                let k = choose|k: Seq<char>|
                    registry@.contains_key(k) && registry@[k] == Some(spec->Ok_0.0);
                if let Ok(fp) = g {
                    assert(registry@[k]->0.requires((fp.1,)));
                }
            }
        }
    }
    let r = apply(resolved);
    proof {
        if let Ok(fp) = g {
            assert(fp.1@ == spec->Ok_0.1);
        }
    }
    r
}


/// Every key of `es` other than the one at `skip` is a string other than
/// `tag`.
pub open spec fn other_keys(es: Seq<(Content, Content)>, tag: Seq<char>, skip: int) -> bool {
    forall|j: int|
        0 <= j < es.len() && j != skip ==> (#[trigger] es[j].0 matches Content::String(k) && k@
            != tag)
}

proof fn lemma_scan_skips<F>(
    registry: Registry<F>,
    trait_object: Seq<char>,
    tag: Seq<char>,
    default_variant: Option<Seq<char>>,
    es: Seq<(Content, Content)>,
    skip: int,
    k: int,
    i: int,
)
    requires
        other_keys(es, tag, skip),
        0 <= k <= i <= es.len(),
        i <= skip,
    ensures
        scan_spec(registry, trait_object, tag, default_variant, es, k) == scan_spec(
            registry,
            trait_object,
            tag,
            default_variant,
            es,
            i,
        ),
    decreases i - k,
{
    if k < i {
        assert(es[k].0 matches Content::String(x) && x@ != tag);
        lemma_scan_skips(registry, trait_object, tag, default_variant, es, skip, k + 1, i);
    }
}

/// Wherever the tag stands among the other entries, decoding finds the
/// routine it names and hands over the other entries in their order, or
/// fails as reading the tag fails.
pub proof fn lemma_tag_anywhere<F>(
    registry: Registry<F>,
    trait_object: Seq<char>,
    tag: Seq<char>,
    default_variant: Option<Seq<char>>,
    es: Seq<(Content, Content)>,
    i: int,
)
    requires
        0 <= i < es.len(),
        es[i].0 matches Content::String(k) && k@ == tag,
        other_keys(es, tag, i),
    ensures
        scan_spec(registry, trait_object, tag, default_variant, es, 0) == match tag_value_spec(
            registry,
            trait_object,
            es[i].1,
        ) {
            Ok(f) => Ok((f, PayloadView::Rest(es.remove(i)))),
            Err(e) => Err(e),
        },
{
    lemma_scan_skips(registry, trait_object, tag, default_variant, es, i, 0, i);
}

/// Two arrangements of the same entries that differ only in where the tag
/// stands decode alike: the same routine gets the same payload, the other
/// entries in their order.
pub proof fn lemma_order_independent<F>(
    registry: Registry<F>,
    trait_object: Seq<char>,
    tag: Seq<char>,
    default_variant: Option<Seq<char>>,
    others: Seq<(Content, Content)>,
    tag_entry: (Content, Content),
    i: int,
    j: int,
)
    requires
        0 <= i <= others.len(),
        0 <= j <= others.len(),
        tag_entry.0 matches Content::String(k) && k@ == tag,
        tag_value_spec(registry, trait_object, tag_entry.1) is Ok,
        forall|n: int|
            0 <= n < others.len() ==> (#[trigger] others[n].0 matches Content::String(k) && k@
                != tag),
    ensures
        scan_spec(registry, trait_object, tag, default_variant, others.insert(i, tag_entry), 0)
            == scan_spec(registry, trait_object, tag, default_variant, others.insert(j, tag_entry), 0),
        scan_spec(registry, trait_object, tag, default_variant, others.insert(i, tag_entry), 0)
            == Ok::<(F, PayloadView), ErrorView>(
            (
                tag_value_spec(registry, trait_object, tag_entry.1)->Ok_0,
                PayloadView::Rest(others),
            ),
        ),
{
    let f = tag_value_spec(registry, trait_object, tag_entry.1)->Ok_0;
    let ea = others.insert(i, tag_entry);
    let eb = others.insert(j, tag_entry);
    assert(ea[i] == tag_entry);
    assert(eb[j] == tag_entry);
    assert forall|n: int| 0 <= n < ea.len() && n != i implies (#[trigger] ea[n].0 matches Content::String(k)
        && k@ != tag) by {
        if n < i {
            assert(ea[n] == others[n]);
        } else {
            assert(ea[n] == others[n - 1]);
        }
    }
    assert forall|n: int| 0 <= n < eb.len() && n != j implies (#[trigger] eb[n].0 matches Content::String(k)
        && k@ != tag) by {
        if n < j {
            assert(eb[n] == others[n]);
        } else {
            assert(eb[n] == others[n - 1]);
        }
    }
    assert(other_keys(ea, tag, i));
    assert(other_keys(eb, tag, j));
    lemma_tag_anywhere(registry, trait_object, tag, default_variant, ea, i);
    lemma_tag_anywhere(registry, trait_object, tag, default_variant, eb, j);
    assert(ea.remove(i) =~= others);
    assert(eb.remove(j) =~= others);
}

/// Without a tag entry, the default implementer decodes the whole map; with
/// no default, the tag is reported missing.
pub proof fn lemma_default_variant<F>(
    registry: Registry<F>,
    trait_object: Seq<char>,
    tag: Seq<char>,
    default_variant: Option<Seq<char>>,
    es: Seq<(Content, Content)>,
)
    requires
        other_keys(es, tag, -1),
    ensures
        scan_spec(registry, trait_object, tag, default_variant, es, 0) == match default_variant {
            Some(d) => match resolve_spec(registry, trait_object, d) {
                Ok(f) => Ok((f, PayloadView::Rest(es))),
                Err(e) => Err(e),
            },
            None => Err(ErrorView::MissingField(tag)),
        },
{
    lemma_scan_skips(registry, trait_object, tag, default_variant, es, es.len() as int, 0, es.len() as int);
}

proof fn lemma_tagged_leads<F>(tag: Seq<char>, variant: Seq<char>, concrete: ser::Content, out: ser::Content)
    requires
        tagged_as(tag, variant, concrete, out),
    ensures
        out matches ser::Content::Mapping(m) && m@.len() >= 1 && ser::is_str(m@[0].0, tag)
            && ser::is_str(m@[0].1, variant),
    decreases concrete,
{
    if let ser::Content::NewtypeStruct(_, v) = concrete {
        lemma_tagged_leads::<F>(tag, variant, *v, out);
    }
}

/// Decoding what serializing produced, as a self-describing format reads it
/// back, finds the implementer's routine and hands it every entry after the
/// tag.
pub proof fn lemma_round_trip<F>(
    registry: Registry<F>,
    trait_object: Seq<char>,
    tag: Seq<char>,
    default_variant: Option<Seq<char>>,
    variant: Seq<char>,
    f: F,
    concrete: ser::Content,
    encoded: ser::Content,
    wire: Content,
)
    requires
        registry@.contains_key(variant),
        registry@[variant] == Some(f),
        tagged_as(tag, variant, concrete, encoded),
        ser::captured_as(encoded, wire),
    ensures
        wire is Mapping,
        deserialize_spec(registry, trait_object, tag, default_variant, wire) == Ok::<
            (F, PayloadView),
            ErrorView,
        >((f, PayloadView::Rest(wire->Mapping_0@.drop_first()))),
{
    lemma_tagged_leads::<F>(tag, variant, concrete, encoded);
    let m = encoded->Mapping_0@;
    assert(ser::entries_captured_as(m, wire));
    let w = wire->Mapping_0@;
    assert(ser::captured_as(m[0].0, w[0].0) && ser::captured_as(m[0].1, w[0].1));
    assert(w.remove(0) =~= w.drop_first());
}


/// A tag naming no registered implementer is refused, wherever it stands,
/// with the sorted list of every registered name.
pub proof fn lemma_unknown_tag<F>(
    registry: Registry<F>,
    trait_object: Seq<char>,
    tag: Seq<char>,
    default_variant: Option<Seq<char>>,
    input: Content,
    i: int,
    name: Seq<char>,
)
    requires
        registry.wf(),
        !registry@.contains_key(name),
        input is Mapping,
        0 <= i < input->Mapping_0@.len(),
        input->Mapping_0@[i].0 matches Content::String(k) && k@ == tag,
        input->Mapping_0@[i].1 matches Content::String(v) && v@ == name,
        other_keys(input->Mapping_0@, tag, i),
    ensures
        deserialize_spec(registry, trait_object, tag, default_variant, input) == Err::<
            (F, PayloadView),
            ErrorView,
        >(ErrorView::UnknownVariant(name, registry.names_view())),
        strictly_sorted(registry.names_view()),
        forall|k: Seq<char>| registry@.contains_key(k) <==> registry.names_view().contains(k),
{
    crate::de::lemma_unknown_name(registry, trait_object, name);
    lemma_tag_anywhere(registry, trait_object, tag, default_variant, input->Mapping_0@, i);
}

/// A tag that two registrations share is refused as non-unique, wherever it
/// stands; neither routine is picked.
pub proof fn lemma_non_unique_tag<F>(
    registry: Registry<F>,
    trait_object: Seq<char>,
    tag: Seq<char>,
    default_variant: Option<Seq<char>>,
    input: Content,
    i: int,
    regs: Seq<(Seq<char>, F)>,
    a: int,
    b: int,
)
    requires
        registry@ == table_of(regs),
        0 <= a < b < regs.len(),
        regs[a].0 == regs[b].0,
        input is Mapping,
        0 <= i < input->Mapping_0@.len(),
        input->Mapping_0@[i].0 matches Content::String(k) && k@ == tag,
        input->Mapping_0@[i].1 matches Content::String(v) && v@ == regs[a].0,
        other_keys(input->Mapping_0@, tag, i),
    ensures
        deserialize_spec(registry, trait_object, tag, default_variant, input) == Err::<
            (F, PayloadView),
            ErrorView,
        >(ErrorView::NonUniqueTag(trait_object, regs[a].0)),
{
    crate::de::lemma_ambiguous_tag(registry, trait_object, regs, a, b);
    lemma_tag_anywhere(registry, trait_object, tag, default_variant, input->Mapping_0@, i);
}

} // verus!
