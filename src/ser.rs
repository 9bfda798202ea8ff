//! The serializer side: a value as its own serialization routine describes
//! it, and the rewriting that puts a tag into it.
use vstd::prelude::*;

use crate::content;
use crate::is_serialize_str::{expect_str, expect_str_spec, str_of, Unexpected};

verus! {

/// A value as the data model of serialization describes it, with the names
/// of structs, variants and fields.
#[derive(Debug, PartialEq, Eq)]
pub enum Content {
    Bool(bool),
    U8(u8),
    U16(u16),
    U32(u32),
    U64(u64),
    I8(i8),
    I16(i16),
    I32(i32),
    I64(i64),
    Char(char),
    String(String),
    Bytes(Vec<u8>),
    OptionNone,
    OptionSome(Box<Content>),
    Unit,
    UnitStruct(String),
    UnitVariant(String, u32, String),
    NewtypeStruct(String, Box<Content>),
    NewtypeVariant(String, u32, String, Box<Content>),
    Sequence(Vec<Content>),
    Tuple(Vec<Content>),
    TupleStruct(String, Vec<Content>),
    TupleVariant(String, u32, String, Vec<Content>),
    Mapping(Vec<(Content, Content)>),
    Struct(String, Vec<(String, Content)>),
    StructVariant(String, u32, String, Vec<(String, Content)>),
}

/// `c` is the string `s`.
pub open spec fn is_str(c: Content, s: Seq<char>) -> bool {
    c matches Content::String(x) && x@ == s
}


/// `c` is the string `s`, as a buffered value.
pub open spec fn is_buffered_str(c: content::Content, s: Seq<char>) -> bool {
    c matches content::Content::String(x) && x@ == s
}

/// `c` is the buffered map of the entries `es`, each captured.
pub open spec fn entries_captured_as(es: Seq<(Content, Content)>, c: content::Content) -> bool
    decreases es, 1int,
{
    c matches content::Content::Mapping(m) && m@.len() == es.len() && forall|i: int|
        0 <= i < es.len() ==> captured_as(#[trigger] es[i].0, m@[i].0) && captured_as(es[i].1, m@[i].1)
}

/// `c` is the buffered map of the struct fields `fs`, each captured.
pub open spec fn fields_captured_as(fs: Seq<(String, Content)>, c: content::Content) -> bool
    decreases fs, 1int,
{
    c matches content::Content::Mapping(m) && m@.len() == fs.len() && forall|i: int|
        0 <= i < fs.len() ==> is_buffered_str(m@[i].0, (#[trigger] fs[i]).0@) && captured_as(fs[i].1, m@[i].1)
}

/// `c` is the buffered sequence of the elements `xs`, each captured.
pub open spec fn elems_captured_as(xs: Seq<Content>, c: content::Content) -> bool
    decreases xs, 1int,
{
    c matches content::Content::Sequence(v) && v@.len() == xs.len() && forall|i: int|
        0 <= i < xs.len() ==> captured_as(#[trigger] xs[i], v@[i])
}

/// `c` is what a self-describing format hands back when it reads `s`: a
/// struct becomes a map keyed by field names, tuples become sequences, unit
/// structs become unit and newtype structs their inner value, and an enum
/// variant becomes its name or a one-entry map from its name to its data.
pub open spec fn captured_as(s: Content, c: content::Content) -> bool
    decreases s, 0int,
{
    match s {
        Content::Bool(b) => c == content::Content::Bool(b),
        Content::U8(n) => c == content::Content::U8(n),
        Content::U16(n) => c == content::Content::U16(n),
        Content::U32(n) => c == content::Content::U32(n),
        Content::U64(n) => c == content::Content::U64(n),
        Content::I8(n) => c == content::Content::I8(n),
        Content::I16(n) => c == content::Content::I16(n),
        Content::I32(n) => c == content::Content::I32(n),
        Content::I64(n) => c == content::Content::I64(n),
        Content::Char(ch) => c == content::Content::Char(ch),
        Content::String(x) => is_buffered_str(c, x@),
        Content::Bytes(b) => c matches content::Content::Bytes(b2) && b2@ == b@,
        Content::OptionNone => c == content::Content::OptionNone,
        Content::OptionSome(v) => c matches content::Content::OptionSome(w) && captured_as(*v, *w),
        Content::Unit => c == content::Content::Unit,
        Content::UnitStruct(_) => c == content::Content::Unit,
        Content::UnitVariant(_, _, v) => is_buffered_str(c, v@),
        Content::NewtypeStruct(_, v) => captured_as(*v, c),
        Content::NewtypeVariant(_, _, v, x) => c matches content::Content::Mapping(m) && m@.len()
            == 1 && is_buffered_str(m@[0].0, v@) && captured_as(*x, m@[0].1),
        Content::Sequence(xs) => elems_captured_as(xs@, c),
        Content::Tuple(xs) => elems_captured_as(xs@, c),
        Content::TupleStruct(_, xs) => elems_captured_as(xs@, c),
        Content::TupleVariant(_, _, v, xs) => c matches content::Content::Mapping(m) && m@.len()
            == 1 && is_buffered_str(m@[0].0, v@) && elems_captured_as(xs@, m@[0].1),
        Content::Mapping(es) => entries_captured_as(es@, c),
        Content::Struct(_, fs) => fields_captured_as(fs@, c),
        Content::StructVariant(_, _, v, fs) => c matches content::Content::Mapping(m) && m@.len()
            == 1 && is_buffered_str(m@[0].0, v@) && fields_captured_as(fs@, m@[0].1),
    }
}

/// The buffered string of `s`.
fn buffered_str(s: String) -> (r: content::Content)
    ensures
        is_buffered_str(r, s@),
{
    content::Content::String(s)
}

/// Captures each element of `xs`.
fn capture_elems(xs: Vec<Content>) -> (r: content::Content)
    ensures
        elems_captured_as(xs@, r),
    decreases xs, 2int,
{
    let ghost s = xs@;
    let mut rest = xs;
    let mut out: Vec<content::Content> = Vec::new();
    let n = rest.len();
    let mut k: usize = 0;
    while rest.len() > 0
        invariant
            n == s.len(),
            k <= n,
            rest@ == s.skip(k as int),
            out@.len() == k,
            s == xs@,
            forall|i: int| 0 <= i < k ==> captured_as(s[i], #[trigger] out@[i]),
        decreases rest@.len(),
    {
        assert(rest@[0] == s[k as int]);
        proof {
            assert(decreases_to!(xs => xs@));
            assert(k < s.len());
            assert(decreases_to!(s => s[k as int]));
        }
        let x = rest.remove(0);
        let c = capture(x);
        out.push(c);
        k = k + 1;
    }
    content::Content::Sequence(out)
}

/// Captures the key and value of each entry of `es`.
fn capture_entries(es: Vec<(Content, Content)>) -> (r: content::Content)
    ensures
        entries_captured_as(es@, r),
    decreases es, 2int,
{
    let ghost s = es@;
    let mut rest = es;
    let mut out: Vec<(content::Content, content::Content)> = Vec::new();
    let n = rest.len();
    let mut k: usize = 0;
    while rest.len() > 0
        invariant
            n == s.len(),
            k <= n,
            rest@ == s.skip(k as int),
            out@.len() == k,
            s == es@,
            forall|i: int|
                0 <= i < k ==> captured_as(#[trigger] s[i].0, out@[i].0) && captured_as(s[i].1, out@[i].1),
        decreases rest@.len(),
    {
        assert(rest@[0] == s[k as int]);
        proof {
            assert(decreases_to!(es => es@));
            assert(k < s.len());
            assert(decreases_to!(s => s[k as int]));
        }
        let (a, b) = rest.remove(0);
        let ca = capture(a);
        let cb = capture(b);
        let ghost prev = out@;
        out.push((ca, cb));
        assert(forall|i: int| 0 <= i < k ==> out@[i] == prev[i]);
        k = k + 1;
    }
    assert(k == n);
    let r = content::Content::Mapping(out);
    assert(forall|i: int|
        0 <= i < s.len() ==> captured_as(#[trigger] s[i].0, out@[i].0) && captured_as(s[i].1, out@[i].1));
    assert(r matches content::Content::Mapping(m) && m@.len() == s.len());
    assert(entries_captured_as(s, r));
    r
}

/// Captures the value of each field of `fs`, keyed by the field's name.
fn capture_fields(fs: Vec<(String, Content)>) -> (r: content::Content)
    ensures
        fields_captured_as(fs@, r),
    decreases fs, 2int,
{
    let ghost s = fs@;
    let mut rest = fs;
    let mut out: Vec<(content::Content, content::Content)> = Vec::new();
    let n = rest.len();
    let mut k: usize = 0;
    while rest.len() > 0
        invariant
            n == s.len(),
            k <= n,
            rest@ == s.skip(k as int),
            out@.len() == k,
            s == fs@,
            forall|i: int|
                0 <= i < k ==> is_buffered_str(out@[i].0, (#[trigger] s[i]).0@) && captured_as(s[i].1, out@[i].1),
        decreases rest@.len(),
    {
        assert(rest@[0] == s[k as int]);
        proof {
            assert(decreases_to!(fs => fs@));
            assert(k < s.len());
            assert(decreases_to!(s => s[k as int]));
        }
        let (a, b) = rest.remove(0);
        let cb = capture(b);
        out.push((buffered_str(a), cb));
        k = k + 1;
    }
    content::Content::Mapping(out)
}

/// A map of one entry, from `name` to `value`.
fn single_entry(name: String, value: content::Content) -> (r: content::Content)
    ensures
        r matches content::Content::Mapping(m) && m@.len() == 1 && is_buffered_str(m@[0].0, name@)
            && m@[0].1 == value,
{
    let mut m: Vec<(content::Content, content::Content)> = Vec::new();
    m.push((buffered_str(name), value));
    content::Content::Mapping(m)
}

/// What a self-describing format hands back when it reads `s`.
pub fn capture(s: Content) -> (r: content::Content)
    ensures
        captured_as(s, r),
    decreases s, 0int,
{
    match s {
        Content::Bool(b) => content::Content::Bool(b),
        Content::U8(n) => content::Content::U8(n),
        Content::U16(n) => content::Content::U16(n),
        Content::U32(n) => content::Content::U32(n),
        Content::U64(n) => content::Content::U64(n),
        Content::I8(n) => content::Content::I8(n),
        Content::I16(n) => content::Content::I16(n),
        Content::I32(n) => content::Content::I32(n),
        Content::I64(n) => content::Content::I64(n),
        Content::Char(ch) => content::Content::Char(ch),
        Content::String(x) => buffered_str(x),
        Content::Bytes(b) => content::Content::Bytes(b),
        Content::OptionNone => content::Content::OptionNone,
        Content::OptionSome(v) => content::Content::OptionSome(Box::new(capture(*v))),
        Content::Unit => content::Content::Unit,
        Content::UnitStruct(_) => content::Content::Unit,
        Content::UnitVariant(_, _, v) => buffered_str(v),
        Content::NewtypeStruct(_, v) => capture(*v),
        Content::NewtypeVariant(_, _, v, x) => single_entry(v, capture(*x)),
        Content::Sequence(xs) => capture_elems(xs),
        Content::Tuple(xs) => capture_elems(xs),
        Content::TupleStruct(_, xs) => capture_elems(xs),
        Content::TupleVariant(_, _, v, xs) => single_entry(v, capture_elems(xs)),
        Content::Mapping(es) => capture_entries(es),
        Content::Struct(_, fs) => capture_fields(fs),
        Content::StructVariant(_, _, v, fs) => single_entry(v, capture_fields(fs)),
    }
}

/// The key under which internal tagging stores a value that is not map-shaped.
pub const DEFAULT_KEY: &'static str = "value";

/// A struct field named like the tag held something other than the
/// implementer's name.
#[derive(Debug, PartialEq, Eq)]
pub struct TagMismatch {
    pub tag: String,
    pub expected: String,
    pub found: Unexpected,
}

/// The entries that the fields `fs` of a struct become next to a tag: a
/// field named like the tag is left out, as the tag entry stands for it.
pub open spec fn struct_entries(fs: Seq<(String, Content)>, tag: Seq<char>) -> Seq<(Content, Content)>
    decreases fs.len(),
{
    if fs.len() == 0 {
        Seq::empty()
    } else {
        let rest = struct_entries(fs.drop_last(), tag);
        if fs.last().0@ == tag {
            rest
        } else {
            rest.push((Content::String(fs.last().0), fs.last().1))
        }
    }
}

/// The first field from `i` on that is named like the tag but does not
/// hold the implementer's name: what it serializes as instead.
pub open spec fn struct_tag_error(
    fs: Seq<(String, Content)>,
    i: int,
    tag: Seq<char>,
    variant: Seq<char>,
) -> Option<Option<Seq<char>>>
    decreases fs.len() - i,
{
    if i < 0 || i >= fs.len() {
        None
    } else if fs[i].0@ == tag && str_of(fs[i].1) != Some(variant) {
        Some(str_of(fs[i].1))
    } else {
        struct_tag_error(fs, i + 1, tag, variant)
    }
}

/// Serializing `value` with the tag fails, and on what it held instead.
pub open spec fn tagged_error(tag: Seq<char>, variant: Seq<char>, value: Content) -> Option<
    Option<Seq<char>>,
>
    decreases value,
{
    match value {
        Content::NewtypeStruct(_, v) => tagged_error(tag, variant, *v),
        Content::Struct(_, fs) => struct_tag_error(fs@, 0, tag, variant),
        _ => None,
    }
}

/// `out` is `value` rewritten as a map whose first entry is the tag.
pub open spec fn tagged_as(tag: Seq<char>, variant: Seq<char>, value: Content, out: Content) -> bool
    decreases value,
{
    match value {
        Content::NewtypeStruct(_, v) => tagged_as(tag, variant, *v, out),
        _ => out matches Content::Mapping(m) && {
            let es = m@;
            &&& es.len() >= 1
            &&& is_str(es[0].0, tag)
            &&& is_str(es[0].1, variant)
            &&& match value {
                Content::OptionNone | Content::Unit | Content::UnitStruct(_) => es.len() == 1,
                Content::UnitVariant(_, _, iv) => es.len() == 2 && is_str(es[1].0, iv@) && es[1].1
                    == Content::Unit,
                Content::NewtypeVariant(_, _, iv, v) => es.len() == 2 && is_str(es[1].0, iv@)
                    && es[1].1 == *v,
                Content::OptionSome(v) => es.len() == 2 && is_str(es[1].0, DEFAULT_KEY@) && es[1].1
                    == *v,
                Content::TupleVariant(_, _, name, v) => es.len() == 2 && is_str(es[1].0, name@)
                    && es[1].1 == Content::TupleStruct(name, v),
                Content::StructVariant(_, _, name, fs) => es.len() == 2 && is_str(es[1].0, name@)
                    && es[1].1 == Content::Struct(name, fs),
                Content::Mapping(entries) => es.drop_first() == entries@,
                Content::Struct(_, fs) => es.drop_first() == struct_entries(fs@, tag),
                _ => es.len() == 2 && is_str(es[1].0, DEFAULT_KEY@) && es[1].1 == value,
            }
        },
    }
}

/// Writes a value of an internally tagged interface: the tag entry first,
/// then the value's own entries.
pub struct TaggedSerializer<'a> {
    pub tag: &'a str,
    pub variant: &'a str,
}

/// Collects the fields of a struct into the map that already holds the tag.
pub struct SerializeStructAsMap<'a> {
    map: Vec<(Content, Content)>,
    tag: &'a str,
    variant: &'a str,
}

impl<'a> SerializeStructAsMap<'a> {
    pub closed spec fn entries(&self) -> Seq<(Content, Content)> {
        self.map@
    }

    pub closed spec fn tag(&self) -> Seq<char> {
        self.tag@
    }

    pub closed spec fn variant(&self) -> Seq<char> {
        self.variant@
    }

    pub fn new(map: Vec<(Content, Content)>, tag: &'a str, variant: &'a str) -> (r: Self)
        ensures
            r.entries() == map@,
            r.tag() == tag@,
            r.variant() == variant@,
    {
        SerializeStructAsMap { map, tag, variant }
    }

    /// Adds one field. A field named like the tag must hold the
    /// implementer's name, and is then left out.
    pub fn serialize_field(&mut self, key: String, value: Content) -> (r: Result<(), TagMismatch>)
        ensures
            final(self).tag() == old(self).tag(),
            final(self).variant() == old(self).variant(),
            key@ == old(self).tag() ==> expect_str_spec(
                str_of(value),
                old(self).variant(),
                match r {
                    Ok(()) => Ok(()),
                    Err(m) => Err(m.found),
                },
            ),
            key@ == old(self).tag() && r is Err ==> r->Err_0.tag@ == old(self).tag()
                && r->Err_0.expected@ == old(self).variant(),
            key@ == old(self).tag() ==> final(self).entries() == old(self).entries(),
            key@ != old(self).tag() ==> r is Ok && final(self).entries() == old(self).entries().push(
                (Content::String(key), value),
            ),
    {
        if crate::registry::compare_names(key.as_str(), self.tag) == 0 {
            match expect_str(&value, self.variant) {
                Ok(()) => Ok(()),
                Err(found) => Err(
                    TagMismatch {
                        tag: self.tag.to_owned(),
                        expected: self.variant.to_owned(),
                        found,
                    },
                ),
            }
        } else {
            self.map.push((Content::String(key), value));
            Ok(())
        }
    }

    pub fn end(self) -> (r: Content)
        ensures
            r matches Content::Mapping(m) && m@ == self.entries(),
    {
        Content::Mapping(self.map)
    }
}

impl<'a> TaggedSerializer<'a> {
    /// The entry that names the implementer.
    fn tag_entry(&self) -> (r: (Content, Content))
        ensures
            is_str(r.0, self.tag@),
            is_str(r.1, self.variant@),
    {
        (Content::String(self.tag.to_owned()), Content::String(self.variant.to_owned()))
    }

    /// A value that is not map-shaped goes under the default key.
    pub fn serialize_default(&self, value: Content) -> (r: Content)
        ensures
            r matches Content::Mapping(m) && m@.len() == 2 && is_str(m@[0].0, self.tag@) && is_str(
                m@[0].1,
                self.variant@,
            ) && is_str(m@[1].0, DEFAULT_KEY@) && m@[1].1 == value,
    {
        let mut map: Vec<(Content, Content)> = Vec::new();
        map.push(self.tag_entry());
        map.push((Content::String(DEFAULT_KEY.to_owned()), value));
        Content::Mapping(map)
    }

    /// A unit value is the tag alone.
    pub fn serialize_unit(&self) -> (r: Content)
        ensures
            r matches Content::Mapping(m) && m@.len() == 1 && is_str(m@[0].0, self.tag@) && is_str(
                m@[0].1,
                self.variant@,
            ),
    {
        let mut map: Vec<(Content, Content)> = Vec::new();
        map.push(self.tag_entry());
        Content::Mapping(map)
    }

    /// An enum variant's value goes under the variant's name.
    fn serialize_under(&self, key: String, value: Content) -> (r: Content)
        ensures
            r matches Content::Mapping(m) && m@.len() == 2 && is_str(m@[0].0, self.tag@) && is_str(
                m@[0].1,
                self.variant@,
            ) && is_str(m@[1].0, key@) && m@[1].1 == value,
    {
        let mut map: Vec<(Content, Content)> = Vec::new();
        map.push(self.tag_entry());
        map.push((Content::String(key), value));
        Content::Mapping(map)
    }

    /// A map keeps its entries after the tag.
    pub fn serialize_map(&self, entries: Vec<(Content, Content)>) -> (r: Content)
        ensures
            r matches Content::Mapping(m) && m@.len() >= 1 && is_str(m@[0].0, self.tag@) && is_str(
                m@[0].1,
                self.variant@,
            ) && m@.drop_first() == entries@,
    {
        let mut map: Vec<(Content, Content)> = Vec::new();
        map.push(self.tag_entry());
        let mut rest = entries;
        let ghost s = rest@;
        let n = rest.len();
        let mut k: usize = 0;
        while rest.len() > 0
            invariant
                n == s.len(),
                map@.len() == 1 + k,
                is_str(map@[0].0, self.tag@),
                is_str(map@[0].1, self.variant@),
                k <= s.len(),
                rest@ == s.skip(k as int),
                map@.drop_first() == s.take(k as int),
            decreases rest@.len(),
        {
            let e = rest.remove(0);
            map.push(e);
            assert(map@.drop_first() =~= s.take(k + 1));
            k = k + 1;
        }
        assert(s.take(k as int) =~= s);
        Content::Mapping(map)
    }

    /// A struct's fields become entries after the tag.
    pub fn serialize_struct(&self, fields: Vec<(String, Content)>) -> (r: Result<
        Content,
        TagMismatch,
    >)
        ensures
            match struct_tag_error(fields@, 0, self.tag@, self.variant@) {
                Some(found) => r matches Err(m) && expect_str_spec(
                    found,
                    self.variant@,
                    Err(m.found),
                ),
                None => r matches Ok(out) && out matches Content::Mapping(m) && m@.len() >= 1
                    && is_str(m@[0].0, self.tag@) && is_str(m@[0].1, self.variant@)
                    && m@.drop_first() == struct_entries(fields@, self.tag@),
            },
            r matches Err(m) ==> m.tag@ == self.tag@ && m.expected@ == self.variant@,
    {
        let mut first: Vec<(Content, Content)> = Vec::new();
        first.push(self.tag_entry());
        let mut state = SerializeStructAsMap::new(first, self.tag, self.variant);
        let mut rest = fields;
        let ghost s = rest@;
        let ghost t = state.entries()[0];
        let n = rest.len();
        let mut k: usize = 0;
        while rest.len() > 0
            invariant
                n == s.len(),
                s == fields@,
                state.tag() == self.tag@,
                state.variant() == self.variant@,
                k <= s.len(),
                rest@ == s.skip(k as int),
                state.entries().len() >= 1,
                state.entries()[0] == t,
                is_str(t.0, self.tag@),
                is_str(t.1, self.variant@),
                state.entries().drop_first() == struct_entries(s.take(k as int), self.tag@),
                struct_tag_error(s, 0, self.tag@, self.variant@) == struct_tag_error(
                    s,
                    k as int,
                    self.tag@,
                    self.variant@,
                ),
            decreases rest@.len(),
        {
            let (key, value) = rest.remove(0);
            assert(s.take(k + 1).drop_last() =~= s.take(k as int));
            assert(s[k as int] == (key, value));
            let ghost before = state.entries();
            let ghost kv = (key, value);
            match state.serialize_field(key, value) {
                Ok(()) => {},
                Err(m) => {
                    assert(struct_tag_error(s, k as int, self.tag@, self.variant@) == Some(
                        str_of(kv.1),
                    ));
                    return Err(m);
                },
            }
            assert(state.entries().drop_first() =~= struct_entries(s.take(k + 1), self.tag@));
            k = k + 1;
        }
        assert(s.take(k as int) =~= s);
        Ok(state.end())
    }

    /// Rewrites `value` as a map that starts with the tag.
    pub fn serialize(&self, value: Content) -> (r: Result<Content, TagMismatch>)
        ensures
            match tagged_error(self.tag@, self.variant@, value) {
                Some(found) => r matches Err(m) && expect_str_spec(
                    found,
                    self.variant@,
                    Err(m.found),
                ),
                None => r matches Ok(out) && tagged_as(self.tag@, self.variant@, value, out),
            },
            r matches Err(m) ==> m.tag@ == self.tag@ && m.expected@ == self.variant@,
        decreases value,
    {
        proof {
            reveal_strlit("value");
        }
        match value {
            Content::OptionNone | Content::Unit | Content::UnitStruct(_) => Ok(self.serialize_unit()),
            Content::UnitVariant(_, _, iv) => Ok(self.serialize_under(iv, Content::Unit)),
            Content::NewtypeStruct(_, v) => self.serialize(*v),
            Content::NewtypeVariant(_, _, iv, v) => Ok(self.serialize_under(iv, *v)),
            Content::OptionSome(v) => Ok(self.serialize_default(*v)),
            Content::TupleVariant(_, _, name, v) => {
                let key = name.clone();
                Ok(self.serialize_under(key, Content::TupleStruct(name, v)))
            },
            Content::StructVariant(_, _, name, fs) => {
                let key = name.clone();
                Ok(self.serialize_under(key, Content::Struct(name, fs)))
            },
            Content::Mapping(entries) => Ok(self.serialize_map(entries)),
            Content::Struct(_, fs) => self.serialize_struct(fs),
            other => Ok(self.serialize_default(other)),
        }
    }
}


/// Records values as `Content`, one call per shape of the data model.
pub struct ContentSerializer;

impl ContentSerializer {
    pub fn new() -> (r: Self)
        ensures
            r == ContentSerializer,
    {
        ContentSerializer
    }

    pub fn serialize_u16(&self, v: u16) -> (r: Content)
        ensures
            r == Content::U16(v),
    {
        Content::U16(v)
    }

    pub fn serialize_u32(&self, v: u32) -> (r: Content)
        ensures
            r == Content::U32(v),
    {
        Content::U32(v)
    }

    pub fn serialize_i8(&self, v: i8) -> (r: Content)
        ensures
            r == Content::I8(v),
    {
        Content::I8(v)
    }

    pub fn serialize_i16(&self, v: i16) -> (r: Content)
        ensures
            r == Content::I16(v),
    {
        Content::I16(v)
    }

    pub fn serialize_i32(&self, v: i32) -> (r: Content)
        ensures
            r == Content::I32(v),
    {
        Content::I32(v)
    }

    pub fn serialize_char(&self, v: char) -> (r: Content)
        ensures
            r == Content::Char(v),
    {
        Content::Char(v)
    }

    pub fn serialize_bytes(&self, v: Vec<u8>) -> (r: Content)
        ensures
            r == Content::Bytes(v),
    {
        Content::Bytes(v)
    }

    pub fn serialize_none(&self) -> (r: Content)
        ensures
            r == Content::OptionNone,
    {
        Content::OptionNone
    }

    pub fn serialize_some(&self, value: Content) -> (r: Content)
        ensures
            r matches Content::OptionSome(v) && *v == value,
    {
        Content::OptionSome(Box::new(value))
    }

    pub fn serialize_unit(&self) -> (r: Content)
        ensures
            r == Content::Unit,
    {
        Content::Unit
    }

    pub fn serialize_seq(&self, elems: Vec<Content>) -> (r: Content)
        ensures
            r == Content::Sequence(elems),
    {
        Content::Sequence(elems)
    }

    pub fn serialize_tuple(&self, elems: Vec<Content>) -> (r: Content)
        ensures
            r == Content::Tuple(elems),
    {
        Content::Tuple(elems)
    }

    pub fn serialize_tuple_struct(&self, name: &str, fields: Vec<Content>) -> (r: Content)
        ensures
            r matches Content::TupleStruct(n, fs) && n@ == name@ && fs == fields,
    {
        Content::TupleStruct(name.to_owned(), fields)
    }

    pub fn serialize_tuple_variant(&self, name: &str, index: u32, variant: &str, fields: Vec<Content>) -> (r:
        Content)
        ensures
            r matches Content::TupleVariant(n, i, v, fs) && n@ == name@ && i == index && v@
                == variant@ && fs == fields,
    {
        Content::TupleVariant(name.to_owned(), index, variant.to_owned(), fields)
    }

    pub fn serialize_map(&self, entries: Vec<(Content, Content)>) -> (r: Content)
        ensures
            r == Content::Mapping(entries),
    {
        Content::Mapping(entries)
    }

    pub fn serialize_bool(&self, v: bool) -> (r: Content)
        ensures
            r == Content::Bool(v),
    {
        Content::Bool(v)
    }

    pub fn serialize_u8(&self, v: u8) -> (r: Content)
        ensures
            r == Content::U8(v),
    {
        Content::U8(v)
    }

    pub fn serialize_u64(&self, v: u64) -> (r: Content)
        ensures
            r == Content::U64(v),
    {
        Content::U64(v)
    }

    pub fn serialize_i64(&self, v: i64) -> (r: Content)
        ensures
            r == Content::I64(v),
    {
        Content::I64(v)
    }

    pub fn serialize_str(&self, v: &str) -> (r: Content)
        ensures
            is_str(r, v@),
    {
        Content::String(v.to_owned())
    }

    pub fn serialize_unit_struct(&self, name: &str) -> (r: Content)
        ensures
            r matches Content::UnitStruct(n) && n@ == name@,
    {
        Content::UnitStruct(name.to_owned())
    }

    pub fn serialize_unit_variant(&self, name: &str, index: u32, variant: &str) -> (r: Content)
        ensures
            r matches Content::UnitVariant(n, i, v) && n@ == name@ && i == index && v@ == variant@,
    {
        Content::UnitVariant(name.to_owned(), index, variant.to_owned())
    }

    pub fn serialize_newtype_struct(&self, name: &str, value: Content) -> (r: Content)
        ensures
            r matches Content::NewtypeStruct(n, v) && n@ == name@ && *v == value,
    {
        Content::NewtypeStruct(name.to_owned(), Box::new(value))
    }

    pub fn serialize_newtype_variant(&self, name: &str, index: u32, variant: &str, value: Content) -> (r:
        Content)
        ensures
            r matches Content::NewtypeVariant(n, i, v, x) && n@ == name@ && i == index && v@
                == variant@ && *x == value,
    {
        Content::NewtypeVariant(name.to_owned(), index, variant.to_owned(), Box::new(value))
    }

    pub fn serialize_struct(&self, name: &str, fields: Vec<(String, Content)>) -> (r: Content)
        ensures
            r matches Content::Struct(n, fs) && n@ == name@ && fs == fields,
    {
        Content::Struct(name.to_owned(), fields)
    }

    pub fn serialize_struct_variant(
        &self,
        name: &str,
        index: u32,
        variant: &str,
        fields: Vec<(String, Content)>,
    ) -> (r: Content)
        ensures
            r matches Content::StructVariant(n, i, v, fs) && n@ == name@ && i == index && v@
                == variant@ && fs == fields,
    {
        Content::StructVariant(name.to_owned(), index, variant.to_owned(), fields)
    }
}

} // verus!
