//! Adjacent tagging: a map with the implementer's name under one field and
//! its value under another, or a sequence of the two.
use vstd::prelude::*;

use crate::content::{kind_of, Content};
use crate::de::{
    accepts_all, apply, lookup, lookup_content, resolve_spec, same_resolution, tag_value_spec,
    Payload, PayloadView,
};
use crate::error::{Error, ErrorView, Expected, ExpectedView};
use crate::internally::opt_view;
use crate::registry::{compare_names, strictly_sorted, table_of, Registry};
use crate::ser::{self, is_str};

verus! {

/// The field names and policies of an adjacently tagged interface.
pub struct Fields<'a> {
    pub tag: &'a str,
    pub content: &'a str,
    pub default_variant: Option<&'a str>,
    pub deny_unknown_fields: bool,
}

/// `out` is a struct named `trait_object` of two fields: `variant` under
/// `tag`, then `concrete` under `content`.
pub open spec fn serialized_as(
    trait_object: Seq<char>,
    tag: Seq<char>,
    variant: Seq<char>,
    content: Seq<char>,
    concrete: ser::Content,
    out: ser::Content,
) -> bool {
    out matches ser::Content::Struct(name, fs) && name@ == trait_object && fs@.len() == 2
        && fs@[0].0@ == tag && is_str(fs@[0].1, variant) && fs@[1].0@ == content && fs@[1].1
        == concrete
}

/// Writes `concrete` as a struct of two fields: the implementer's name under
/// `tag`, then the value under `content`.
pub fn serialize(trait_object: &str, tag: &str, variant: &str, content: &str, concrete: ser::Content) -> (r:
    ser::Content)
    ensures
        serialized_as(trait_object@, tag@, variant@, content@, concrete, r),
{
    let mut fs: Vec<(String, ser::Content)> = Vec::new();
    fs.push((tag.to_owned(), ser::Content::String(variant.to_owned())));
    fs.push((content.to_owned(), concrete));
    ser::Content::Struct(trait_object.to_owned(), fs)
}

/// The next key from `i` on that is the tag (`true`) or the content
/// (`false`), with its position; other keys are skipped, or refused when
/// unknown fields are denied.
pub open spec fn next_relevant_spec(
    es: Seq<(Content, Content)>,
    i: int,
    tag: Seq<char>,
    content: Seq<char>,
    deny: bool,
) -> Result<Option<(bool, int)>, ErrorView>
    decreases es.len() - i,
{
    if i < 0 || i >= es.len() {
        Ok(None)
    } else {
        match es[i].0 {
            Content::String(k) => if k@ == tag {
                Ok(Some((true, i)))
            } else if k@ == content {
                Ok(Some((false, i)))
            } else if deny {
                Err(ErrorView::UnknownField(k@, seq![tag, content]))
            } else {
                next_relevant_spec(es, i + 1, tag, content, deny)
            },
            _ => Err(ErrorView::InvalidType(kind_of(es[i].0), ExpectedView::Other(Expected::FieldName))),
        }
    }
}

/// Once tag and content are both known: any further tag or content field is
/// a duplicate.
pub open spec fn after_pair_spec<F>(
    es: Seq<(Content, Content)>,
    i: int,
    tag: Seq<char>,
    content: Seq<char>,
    deny: bool,
    found: (F, PayloadView),
) -> Result<(F, PayloadView), ErrorView> {
    match next_relevant_spec(es, i, tag, content, deny) {
        Err(e) => Err(e),
        Ok(Some((true, _))) => Err(ErrorView::DuplicateField(tag)),
        Ok(Some((false, _))) => Err(ErrorView::DuplicateField(content)),
        Ok(None) => Ok(found),
    }
}

/// Decoding the map form: the first two relevant keys decide.
pub open spec fn map_spec<F>(
    registry: Registry<F>,
    trait_object: Seq<char>,
    tag: Seq<char>,
    content: Seq<char>,
    default_variant: Option<Seq<char>>,
    deny: bool,
    es: Seq<(Content, Content)>,
) -> Result<(F, PayloadView), ErrorView> {
    match next_relevant_spec(es, 0, tag, content, deny) {
        Err(e) => Err(e),
        Ok(None) => Err(
            ErrorView::MissingField(
                if default_variant is None {
                    tag
                } else {
                    content
                },
            ),
        ),
        Ok(Some((true, i))) => match tag_value_spec(registry, trait_object, es[i].1) {
            Err(e) => Err(e),
            Ok(f) => match next_relevant_spec(es, i + 1, tag, content, deny) {
                Err(e) => Err(e),
                Ok(Some((true, _))) => Err(ErrorView::DuplicateField(tag)),
                Ok(None) => Ok((f, PayloadView::Value(Content::Unit))),
                Ok(Some((false, j))) => after_pair_spec(
                    es,
                    j + 1,
                    tag,
                    content,
                    deny,
                    (f, PayloadView::Value(es[j].1)),
                ),
            },
        },
        Ok(Some((false, i))) => match next_relevant_spec(es, i + 1, tag, content, deny) {
            Err(e) => Err(e),
            Ok(Some((false, _))) => Err(ErrorView::DuplicateField(content)),
            Ok(Some((true, j))) => match tag_value_spec(registry, trait_object, es[j].1) {
                Err(e) => Err(e),
                Ok(f) => after_pair_spec(
                    es,
                    j + 1,
                    tag,
                    content,
                    deny,
                    (f, PayloadView::Value(es[i].1)),
                ),
            },
            Ok(None) => match default_variant {
                Some(d) => match resolve_spec(registry, trait_object, d) {
                    Err(e) => Err(e),
                    Ok(f) => Ok((f, PayloadView::Value(es[i].1))),
                },
                None => Err(ErrorView::MissingField(tag)),
            },
        },
    }
}

/// Decoding the sequence form: the tag first, the content second.
pub open spec fn seq_spec<F>(
    registry: Registry<F>,
    trait_object: Seq<char>,
    elems: Seq<Content>,
) -> Result<(F, PayloadView), ErrorView> {
    if elems.len() == 0 {
        Err(ErrorView::InvalidLength(0, ExpectedView::TraitObject(trait_object)))
    } else {
        match tag_value_spec(registry, trait_object, elems[0]) {
            Err(e) => Err(e),
            Ok(f) => if elems.len() == 1 {
                Err(ErrorView::InvalidLength(1, ExpectedView::TraitObject(trait_object)))
            } else if elems.len() > 2 {
                Err(ErrorView::InvalidLength(elems.len() as usize, ExpectedView::Other(Expected::SeqOfLen(2))))
            } else {
                Ok((f, PayloadView::Value(elems[1])))
            },
        }
    }
}

pub open spec fn fields_view(fields: Fields) -> (Seq<char>, Seq<char>, Option<Seq<char>>, bool) {
    (fields.tag@, fields.content@, opt_view(fields.default_variant), fields.deny_unknown_fields)
}

/// Decoding an adjacently tagged value of the interface `trait_object`.
pub open spec fn deserialize_spec<F>(
    registry: Registry<F>,
    trait_object: Seq<char>,
    fields: (Seq<char>, Seq<char>, Option<Seq<char>>, bool),
    input: Content,
) -> Result<(F, PayloadView), ErrorView> {
    match input {
        Content::Mapping(es) => map_spec(
            registry,
            trait_object,
            fields.0,
            fields.1,
            fields.2,
            fields.3,
            es@,
        ),
        Content::Sequence(v) => seq_spec(registry, trait_object, v@),
        _ => Err(ErrorView::InvalidType(kind_of(input), ExpectedView::TraitObject(trait_object))),
    }
}

/// Finds the next tag or content key from `start` on.
fn next_relevant(es: &Vec<(Content, Content)>, start: usize, fields: &Fields) -> (r: Result<
    Option<(bool, usize)>,
    Error,
>)
    requires
        start <= es@.len(),
    ensures
        match (r, next_relevant_spec(es@, start as int, fields.tag@, fields.content@, fields.deny_unknown_fields)) {
            (Ok(Some(a)), Ok(Some(b))) => a.0 == b.0 && a.1 == b.1,
            (Ok(None), Ok(None)) => true,
            (Err(e), Err(v)) => e@ == v,
            _ => false,
        },
        r matches Ok(Some(a)) ==> start <= a.1 < es@.len(),
{
    let mut i = start;
    while i < es.len()
        invariant
            start <= i <= es@.len(),
            next_relevant_spec(es@, start as int, fields.tag@, fields.content@, fields.deny_unknown_fields)
                == next_relevant_spec(es@, i as int, fields.tag@, fields.content@, fields.deny_unknown_fields),
        decreases es@.len() - i,
    {
        match &es[i].0 {
            Content::String(k) => {
                if compare_names(k.as_str(), fields.tag) == 0 {
                    return Ok(Some((true, i)));
                }
                if compare_names(k.as_str(), fields.content) == 0 {
                    return Ok(Some((false, i)));
                }
                if fields.deny_unknown_fields {
                    let mut allowed: Vec<String> = Vec::new();
                    allowed.push(fields.tag.to_owned());
                    allowed.push(fields.content.to_owned());
                    assert(crate::error::strings_view(allowed@) =~= seq![fields.tag@, fields.content@]);
                    return Err(Error::UnknownField { field: k.clone(), allowed });
                }
            },
            other => {
                return Err(Error::invalid_type(other.unexpected(), Expected::FieldName));
            },
        }
        i = i + 1;
    }
    Ok(None)
}

/// Checks that no tag or content key follows a complete pair.
fn after_pair(es: &Vec<(Content, Content)>, start: usize, fields: &Fields) -> (r: Result<(), Error>)
    requires
        start <= es@.len(),
    ensures
        match next_relevant_spec(es@, start as int, fields.tag@, fields.content@, fields.deny_unknown_fields) {
            Err(e) => r matches Err(err) && err@ == e,
            Ok(Some((true, _))) => r matches Err(err) && err@ == ErrorView::DuplicateField(fields.tag@),
            Ok(Some((false, _))) => r matches Err(err) && err@ == ErrorView::DuplicateField(fields.content@),
            Ok(None) => r is Ok,
        },
{
    match next_relevant(es, start, fields) {
        Err(e) => Err(e),
        Ok(Some((true, _))) => Err(Error::duplicate_field(fields.tag)),
        Ok(Some((false, _))) => Err(Error::duplicate_field(fields.content)),
        Ok(None) => Ok(()),
    }
}


/// Finds the routine that an adjacently tagged value names, and its payload.
pub fn resolve<F: Copy>(input: Content, trait_object: &str, fields: &Fields, registry: &Registry<F>) -> (r:
    Result<(F, Payload), Error>)
    requires
        registry.wf(),
    ensures
        same_resolution(r, deserialize_spec(*registry, trait_object@, fields_view(*fields), input)),
{
    match input {
        Content::Mapping(es) => resolve_map(es, trait_object, fields, registry),
        Content::Sequence(mut v) => {
            if v.len() == 0 {
                return Err(Error::invalid_length(0, Expected::TraitObject(trait_object.to_owned())));
            }
            let f = match lookup_content(registry, trait_object, &v[0]) {
                Ok(f) => f,
                Err(e) => return Err(e),
            };
            if v.len() == 1 {
                return Err(Error::invalid_length(1, Expected::TraitObject(trait_object.to_owned())));
            }
            if v.len() > 2 {
                return Err(Error::invalid_length(v.len(), Expected::SeqOfLen(2)));
            }
            let value = v.remove(1);
            Ok((f, Payload::Value(value)))
        },
        other => Err(
            Error::invalid_type(other.unexpected(), Expected::TraitObject(trait_object.to_owned())),
        ),
    }
}

/// The map form of `resolve`.
fn resolve_map<F: Copy>(
    mut es: Vec<(Content, Content)>,
    trait_object: &str,
    fields: &Fields,
    registry: &Registry<F>,
) -> (r: Result<(F, Payload), Error>)
    requires
        registry.wf(),
    ensures
        same_resolution(
            r,
            map_spec(
                *registry,
                trait_object@,
                fields.tag@,
                fields.content@,
                opt_view(fields.default_variant),
                fields.deny_unknown_fields,
                es@,
            ),
        ),
{
    // Reading the length bounds every position found below.
    let _len = es.len();
    let first = next_relevant(&es, 0, fields);
    match first {
        Err(e) => Err(e),
        Ok(None) => {
            if fields.default_variant.is_none() {
                Err(Error::missing_field(fields.tag))
            } else {
                Err(Error::missing_field(fields.content))
            }
        },
        Ok(Some((true, i))) => {
            let f = match lookup_content(registry, trait_object, &es[i].1) {
                Ok(f) => f,
                Err(e) => return Err(e),
            };
            let second = next_relevant(&es, i + 1, fields);
            match second {
                Err(e) => Err(e),
                Ok(Some((true, _))) => Err(Error::duplicate_field(fields.tag)),
                Ok(None) => Ok((f, Payload::Value(Content::Unit))),
                Ok(Some((false, j))) => {
                    match after_pair(&es, j + 1, fields) {
                        Err(e) => return Err(e),
                        Ok(()) => {},
                    }
                    let (_, value) = es.remove(j);
                    Ok((f, Payload::Value(value)))
                },
            }
        },
        Ok(Some((false, i))) => {
            match next_relevant(&es, i + 1, fields) {
                Err(e) => Err(e),
                Ok(Some((false, _))) => Err(Error::duplicate_field(fields.content)),
                Ok(Some((true, j))) => {
                    let f = match lookup_content(registry, trait_object, &es[j].1) {
                        Ok(f) => f,
                        Err(e) => return Err(e),
                    };
                    match after_pair(&es, j + 1, fields) {
                        Err(e) => return Err(e),
                        Ok(()) => {},
                    }
                    let (_, value) = es.remove(i);
                    Ok((f, Payload::Value(value)))
                },
                Ok(None) => match fields.default_variant {
                    Some(d) => {
                        let f = match lookup(registry, trait_object, d) {
                            Ok(f) => f,
                            Err(e) => return Err(e),
                        };
                        let (_, value) = es.remove(i);
                        Ok((f, Payload::Value(value)))
                    },
                    None => Err(Error::missing_field(fields.tag)),
                },
            }
        },
    }
}

/// Decodes an adjacently tagged value with the routine its tag names.
pub fn deserialize<F: Fn(Payload) -> Result<T, Error> + Copy, T>(
    input: Content,
    trait_object: &str,
    fields: &Fields,
    registry: &Registry<F>,
) -> (r: Result<T, Error>)
    requires
        registry.wf(),
        accepts_all(*registry),
    ensures
        match deserialize_spec(*registry, trait_object@, fields_view(*fields), input) {
            Ok(fp) => exists|p: Payload| p@ == fp.1 && fp.0.ensures((p,), r),
            Err(e) => r matches Err(err) && err@ == e,
        },
{
    let ghost spec = deserialize_spec(*registry, trait_object@, fields_view(*fields), input);
    let resolved = resolve(input, trait_object, fields, registry);
    let ghost g = resolved;
    proof {
        if let Ok(fp) = g {
            lemma_resolved_registered(*registry, trait_object@, fields_view(*fields), input);
            let k = choose|k: Seq<char>| registry@.contains_key(k) && registry@[k] == Some(fp.0);
            assert(registry@[k]->0.requires((fp.1,)));
        }
    }
    let r = apply(resolved);
    proof {
        if let Ok(fp) = g {
            assert(fp.1@ == spec->Ok_0.1);
        }
    }
    r
}

/// A routine that adjacent decoding finds is registered under some name.
pub proof fn lemma_resolved_registered<F>(
    registry: Registry<F>,
    trait_object: Seq<char>,
    fields: (Seq<char>, Seq<char>, Option<Seq<char>>, bool),
    input: Content,
)
    requires
        deserialize_spec(registry, trait_object, fields, input) is Ok,
    ensures
        exists|k: Seq<char>|
            registry@.contains_key(k) && registry@[k] == Some(
                deserialize_spec(registry, trait_object, fields, input)->Ok_0.0,
            ),
{
    let r = deserialize_spec(registry, trait_object, fields, input);
    let f = r->Ok_0.0;
    match input {
        Content::Mapping(es) => {
            let es = es@;
            let (tag, content, d, deny) = fields;
            match next_relevant_spec(es, 0, tag, content, deny) {
                Ok(Some((true, i))) => {
                    assert(registry@.contains_key(es[i].1->String_0@));
                },
                Ok(Some((false, i))) => {
                    match next_relevant_spec(es, i + 1, tag, content, deny) {
                        Ok(Some((true, j))) => {
                            assert(registry@.contains_key(es[j].1->String_0@));
                        },
                        _ => {
                            assert(registry@.contains_key(d->Some_0));
                        },
                    }
                },
                _ => {},
            }
        },
        Content::Sequence(v) => {
            assert(registry@.contains_key(v@[0]->String_0@));
        },
        _ => {},
    }
}


/// The key at `j` is a string other than the tag and the content field.
pub open spec fn other_field(es: Seq<(Content, Content)>, j: int, tag: Seq<char>, content: Seq<char>) -> bool {
    es[j].0 matches Content::String(k) && k@ != tag && k@ != content
}

proof fn lemma_skip_others(
    es: Seq<(Content, Content)>,
    k: int,
    m: int,
    tag: Seq<char>,
    content: Seq<char>,
    deny: bool,
)
    requires
        0 <= k <= m <= es.len(),
        k < m ==> !deny,
        forall|j: int| k <= j < m ==> #[trigger] other_field(es, j, tag, content),
    ensures
        next_relevant_spec(es, k, tag, content, deny) == next_relevant_spec(es, m, tag, content, deny),
    decreases m - k,
{
    if k < m {
        assert(other_field(es, k, tag, content));
        lemma_skip_others(es, k + 1, m, tag, content, deny);
    }
}

/// With the tag at `it`, the content at `ic` and only other fields beside
/// them (none, when unknown fields are denied), in any order, decoding finds
/// the tag's routine and hands it the content, or fails as reading the tag
/// fails.
pub proof fn lemma_any_order<F>(
    registry: Registry<F>,
    trait_object: Seq<char>,
    tag: Seq<char>,
    content: Seq<char>,
    default_variant: Option<Seq<char>>,
    deny: bool,
    es: Seq<(Content, Content)>,
    it: int,
    ic: int,
)
    requires
        tag != content,
        0 <= it < es.len(),
        0 <= ic < es.len(),
        it != ic,
        deny ==> es.len() == 2,
        es[it].0 matches Content::String(k) && k@ == tag,
        es[ic].0 matches Content::String(k) && k@ == content,
        forall|j: int| 0 <= j < es.len() && j != it && j != ic ==> #[trigger] other_field(es, j, tag, content),
    ensures
        map_spec(registry, trait_object, tag, content, default_variant, deny, es) == match tag_value_spec(
            registry,
            trait_object,
            es[it].1,
        ) {
            Ok(f) => Ok((f, PayloadView::Value(es[ic].1))),
            Err(e) => Err(e),
        },
{
    let (a, b) = if it < ic {
        (it, ic)
    } else {
        (ic, it)
    };
    lemma_skip_others(es, 0, a, tag, content, deny);
    lemma_skip_others(es, a + 1, b, tag, content, deny);
    lemma_skip_others(es, b + 1, es.len() as int, tag, content, deny);
}

/// Two arrangements of a tag, a content and other fields decode alike: the
/// tag and content may stand in either order and among any other fields,
/// which are ignored; the other fields of the two need not be the same.
/// When unknown fields are denied, the two hold the tag and content alone.
pub proof fn lemma_order_independent<F>(
    registry: Registry<F>,
    trait_object: Seq<char>,
    tag: Seq<char>,
    content: Seq<char>,
    default_variant: Option<Seq<char>>,
    deny: bool,
    es1: Seq<(Content, Content)>,
    it1: int,
    ic1: int,
    es2: Seq<(Content, Content)>,
    it2: int,
    ic2: int,
)
    requires
        tag != content,
        0 <= it1 < es1.len(),
        0 <= ic1 < es1.len(),
        it1 != ic1,
        0 <= it2 < es2.len(),
        0 <= ic2 < es2.len(),
        it2 != ic2,
        deny ==> es1.len() == 2 && es2.len() == 2,
        es1[it1] == es2[it2],
        es1[ic1] == es2[ic2],
        es1[it1].0 matches Content::String(k) && k@ == tag,
        es1[ic1].0 matches Content::String(k) && k@ == content,
        forall|j: int| 0 <= j < es1.len() && j != it1 && j != ic1 ==> #[trigger] other_field(es1, j, tag, content),
        forall|j: int| 0 <= j < es2.len() && j != it2 && j != ic2 ==> #[trigger] other_field(es2, j, tag, content),
    ensures
        map_spec(registry, trait_object, tag, content, default_variant, deny, es1) == map_spec(
            registry,
            trait_object,
            tag,
            content,
            default_variant,
            deny,
            es2,
        ),
{
    lemma_any_order(registry, trait_object, tag, content, default_variant, deny, es1, it1, ic1);
    lemma_any_order(registry, trait_object, tag, content, default_variant, deny, es2, it2, ic2);
}

/// With unknown fields denied, a tag, a content and one more field, in any
/// order, are refused with that field's name and the two valid ones.
pub proof fn lemma_deny_unknown<F>(
    registry: Registry<F>,
    trait_object: Seq<char>,
    tag: Seq<char>,
    content: Seq<char>,
    default_variant: Option<Seq<char>>,
    es: Seq<(Content, Content)>,
    it: int,
    ic: int,
    iu: int,
    extra: Seq<char>,
)
    requires
        tag != content,
        es.len() == 3,
        0 <= it < 3,
        0 <= ic < 3,
        0 <= iu < 3,
        it != ic && it != iu && ic != iu,
        es[it].0 matches Content::String(k) && k@ == tag,
        es[ic].0 matches Content::String(k) && k@ == content,
        es[iu].0 matches Content::String(k) && k@ == extra,
        extra != tag && extra != content,
        tag_value_spec(registry, trait_object, es[it].1) is Ok,
    ensures
        map_spec(registry, trait_object, tag, content, default_variant, true, es) == Err::<
            (F, PayloadView),
            ErrorView,
        >(ErrorView::UnknownField(extra, seq![tag, content])),
{
    reveal_with_fuel(next_relevant_spec, 4);
}

/// Without a tag field, the content goes to the default implementer; with
/// no default the tag is reported missing.
pub proof fn lemma_default_variant<F>(
    registry: Registry<F>,
    trait_object: Seq<char>,
    tag: Seq<char>,
    content: Seq<char>,
    default_variant: Option<Seq<char>>,
    es: Seq<(Content, Content)>,
    ic: int,
)
    requires
        tag != content,
        0 <= ic < es.len(),
        es[ic].0 matches Content::String(k) && k@ == content,
        forall|j: int| 0 <= j < es.len() && j != ic ==> #[trigger] other_field(es, j, tag, content),
    ensures
        map_spec(registry, trait_object, tag, content, default_variant, false, es) == match default_variant {
            Some(d) => match resolve_spec(registry, trait_object, d) {
                Ok(f) => Ok((f, PayloadView::Value(es[ic].1))),
                Err(e) => Err(e),
            },
            None => Err(ErrorView::MissingField(tag)),
        },
{
    lemma_skip_others(es, 0, ic, tag, content, false);
    lemma_skip_others(es, ic + 1, es.len() as int, tag, content, false);
}

/// Decoding what serializing produced, as a self-describing format reads it
/// back, finds the implementer's routine and hands it the value as written.
pub proof fn lemma_round_trip<F>(
    registry: Registry<F>,
    trait_object: Seq<char>,
    tag: Seq<char>,
    content: Seq<char>,
    default_variant: Option<Seq<char>>,
    deny: bool,
    variant: Seq<char>,
    f: F,
    concrete: ser::Content,
    encoded: ser::Content,
    wire: Content,
)
    requires
        tag != content,
        registry@.contains_key(variant),
        registry@[variant] == Some(f),
        serialized_as(trait_object, tag, variant, content, concrete, encoded),
        ser::captured_as(encoded, wire),
    ensures
        deserialize_spec(registry, trait_object, (tag, content, default_variant, deny), wire) matches Ok(fp)
            && fp.0 == f && (fp.1 matches PayloadView::Value(p) && ser::captured_as(concrete, p)),
{
    let fs = encoded->Struct_1@;
    assert(ser::fields_captured_as(fs, wire));
    let w = wire->Mapping_0@;
    assert(ser::is_buffered_str(w[0].0, fs[0].0@) && ser::captured_as(fs[0].1, w[0].1));
    assert(ser::is_buffered_str(w[1].0, fs[1].0@) && ser::captured_as(fs[1].1, w[1].1));
    reveal_with_fuel(next_relevant_spec, 3);
}


/// The tag and content fields of `es` stand at `it` and `ic`, and every
/// other field is neither (and there is none when unknown fields are
/// denied).
pub open spec fn arranged(
    es: Seq<(Content, Content)>,
    it: int,
    ic: int,
    tag: Seq<char>,
    content: Seq<char>,
    deny: bool,
) -> bool {
    &&& 0 <= it < es.len()
    &&& 0 <= ic < es.len()
    &&& it != ic
    &&& deny ==> es.len() == 2
    &&& es[it].0 matches Content::String(k) && k@ == tag
    &&& es[ic].0 matches Content::String(k) && k@ == content
    &&& forall|j: int| 0 <= j < es.len() && j != it && j != ic ==> #[trigger] other_field(es, j, tag, content)
}

/// A tag naming no registered implementer is refused, in the map form with
/// tag and content in any order and in the sequence form, with the sorted
/// list of every registered name.
pub proof fn lemma_unknown_tag<F>(
    registry: Registry<F>,
    trait_object: Seq<char>,
    tag: Seq<char>,
    content: Seq<char>,
    default_variant: Option<Seq<char>>,
    deny: bool,
    input: Content,
    it: int,
    ic: int,
    name: Seq<char>,
)
    requires
        registry.wf(),
        !registry@.contains_key(name),
        tag != content,
        input is Mapping ==> arranged(input->Mapping_0@, it, ic, tag, content, deny) && (
        input->Mapping_0@[it].1 matches Content::String(v) && v@ == name),
        input is Sequence ==> input->Sequence_0@.len() == 2 && (
        input->Sequence_0@[0] matches Content::String(v) && v@ == name),
        input is Mapping || input is Sequence,
    ensures
        deserialize_spec(registry, trait_object, (tag, content, default_variant, deny), input)
            == Err::<(F, PayloadView), ErrorView>(
            ErrorView::UnknownVariant(name, registry.names_view()),
        ),
        strictly_sorted(registry.names_view()),
        forall|k: Seq<char>| registry@.contains_key(k) <==> registry.names_view().contains(k),
{
    crate::de::lemma_unknown_name(registry, trait_object, name);
    if input is Mapping {
        lemma_any_order(registry, trait_object, tag, content, default_variant, deny, input->Mapping_0@, it, ic);
    }
}

/// A tag that two registrations share is refused as non-unique, in the map
/// form with tag and content in any order and in the sequence form.
pub proof fn lemma_non_unique_tag<F>(
    registry: Registry<F>,
    trait_object: Seq<char>,
    tag: Seq<char>,
    content: Seq<char>,
    default_variant: Option<Seq<char>>,
    deny: bool,
    input: Content,
    it: int,
    ic: int,
    regs: Seq<(Seq<char>, F)>,
    a: int,
    b: int,
)
    requires
        registry@ == table_of(regs),
        0 <= a < b < regs.len(),
        regs[a].0 == regs[b].0,
        tag != content,
        input is Mapping ==> arranged(input->Mapping_0@, it, ic, tag, content, deny) && (
        input->Mapping_0@[it].1 matches Content::String(v) && v@ == regs[a].0),
        input is Sequence ==> input->Sequence_0@.len() == 2 && (
        input->Sequence_0@[0] matches Content::String(v) && v@ == regs[a].0),
        input is Mapping || input is Sequence,
    ensures
        deserialize_spec(registry, trait_object, (tag, content, default_variant, deny), input)
            == Err::<(F, PayloadView), ErrorView>(ErrorView::NonUniqueTag(trait_object, regs[a].0)),
{
    crate::de::lemma_ambiguous_tag(registry, trait_object, regs, a, b);
    if input is Mapping {
        lemma_any_order(registry, trait_object, tag, content, default_variant, deny, input->Mapping_0@, it, ic);
    }
}

/// `wire` is what a format that writes struct fields by position hands back
/// when it reads `s`: the struct's field values in order, each captured.
pub open spec fn positionally_captured_as(s: ser::Content, wire: Content) -> bool {
    s matches ser::Content::Struct(_, fs) && wire matches Content::Sequence(v) && v@.len()
        == fs@.len() && forall|i: int|
        0 <= i < fs@.len() ==> ser::captured_as(#[trigger] fs@[i].1, v@[i])
}

/// Decoding what serializing produced, as a format that writes fields by
/// position reads it back, finds the implementer's routine and hands it the
/// value as written.
pub proof fn lemma_round_trip_sequence<F>(
    registry: Registry<F>,
    trait_object: Seq<char>,
    fields: (Seq<char>, Seq<char>, Option<Seq<char>>, bool),
    variant: Seq<char>,
    f: F,
    concrete: ser::Content,
    encoded: ser::Content,
    wire: Content,
)
    requires
        registry@.contains_key(variant),
        registry@[variant] == Some(f),
        serialized_as(trait_object, fields.0, variant, fields.1, concrete, encoded),
        positionally_captured_as(encoded, wire),
    ensures
        deserialize_spec(registry, trait_object, fields, wire) matches Ok(fp) && fp.0 == f && (
        fp.1 matches PayloadView::Value(p) && ser::captured_as(concrete, p)),
{
    let fs = encoded->Struct_1@;
    let v = wire->Sequence_0@;
    assert(ser::captured_as(fs[0].1, v[0]));
    assert(ser::captured_as(fs[1].1, v[1]));
}

} // verus!
