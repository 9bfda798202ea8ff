// A small JSON reader and writer over the library's value trees, so that the
// tests can state inputs and outputs as JSON text.

use typetag::content::Content as Buffered;
use typetag::ser::Content;

fn write(c: &Content) -> String {
    let mut out = String::new();
    write_into(c, &mut out);
    out
}

fn write_str(s: &str, out: &mut String) {
    out.push('"');
    for ch in s.chars() {
        match ch {
            '"' => out.push_str("\\\""),
            '\\' => out.push_str("\\\\"),
            _ => out.push(ch),
        }
    }
    out.push('"');
}

fn write_seq(xs: &[Content], out: &mut String) {
    out.push('[');
    for (i, x) in xs.iter().enumerate() {
        if i > 0 {
            out.push(',');
        }
        write_into(x, out);
    }
    out.push(']');
}

fn write_fields(fs: &[(String, Content)], out: &mut String) {
    out.push('{');
    for (i, (k, v)) in fs.iter().enumerate() {
        if i > 0 {
            out.push(',');
        }
        write_str(k, out);
        out.push(':');
        write_into(v, out);
    }
    out.push('}');
}

fn write_into(c: &Content, out: &mut String) {
    match c {
        Content::Bool(b) => out.push_str(if *b { "true" } else { "false" }),
        Content::U8(n) => out.push_str(&n.to_string()),
        Content::U16(n) => out.push_str(&n.to_string()),
        Content::U32(n) => out.push_str(&n.to_string()),
        Content::U64(n) => out.push_str(&n.to_string()),
        Content::I8(n) => out.push_str(&n.to_string()),
        Content::I16(n) => out.push_str(&n.to_string()),
        Content::I32(n) => out.push_str(&n.to_string()),
        Content::I64(n) => out.push_str(&n.to_string()),
        Content::Char(ch) => write_str(&ch.to_string(), out),
        Content::String(s) => write_str(s, out),
        Content::Bytes(b) => {
            let xs: Vec<Content> = b.iter().map(|x| Content::U8(*x)).collect();
            write_seq(&xs, out)
        }
        Content::OptionNone | Content::Unit | Content::UnitStruct(_) => out.push_str("null"),
        Content::OptionSome(v) | Content::NewtypeStruct(_, v) => write_into(v, out),
        Content::UnitVariant(_, _, v) => write_str(v, out),
        Content::NewtypeVariant(_, _, v, x) => {
            out.push('{');
            write_str(v, out);
            out.push(':');
            write_into(x, out);
            out.push('}');
        }
        Content::Sequence(xs) | Content::Tuple(xs) | Content::TupleStruct(_, xs) => write_seq(xs, out),
        Content::TupleVariant(_, _, v, xs) => {
            out.push('{');
            write_str(v, out);
            out.push(':');
            write_seq(xs, out);
            out.push('}');
        }
        Content::Mapping(es) => {
            out.push('{');
            for (i, (k, v)) in es.iter().enumerate() {
                if i > 0 {
                    out.push(',');
                }
                write_into(k, out);
                out.push(':');
                write_into(v, out);
            }
            out.push('}');
        }
        Content::Struct(_, fs) => write_fields(fs, out),
        Content::StructVariant(_, _, v, fs) => {
            out.push('{');
            write_str(v, out);
            out.push(':');
            write_fields(fs, out);
            out.push('}');
        }
    }
}

fn read(text: &str) -> Buffered {
    let chars: Vec<char> = text.chars().collect();
    let mut pos = 0;
    let v = read_value(&chars, &mut pos);
    skip_ws(&chars, &mut pos);
    assert_eq!(pos, chars.len(), "trailing characters in {}", text);
    v
}

fn skip_ws(cs: &[char], pos: &mut usize) {
    while *pos < cs.len() && cs[*pos].is_whitespace() {
        *pos += 1;
    }
}

fn expect(cs: &[char], pos: &mut usize, ch: char) {
    skip_ws(cs, pos);
    assert_eq!(cs[*pos], ch);
    *pos += 1;
}

fn read_string(cs: &[char], pos: &mut usize) -> String {
    expect(cs, pos, '"');
    let mut s = String::new();
    while cs[*pos] != '"' {
        if cs[*pos] == '\\' {
            *pos += 1;
        }
        s.push(cs[*pos]);
        *pos += 1;
    }
    *pos += 1;
    s
}

fn read_value(cs: &[char], pos: &mut usize) -> Buffered {
    skip_ws(cs, pos);
    match cs[*pos] {
        '{' => {
            *pos += 1;
            let mut entries = Vec::new();
            skip_ws(cs, pos);
            if cs[*pos] == '}' {
                *pos += 1;
                return Buffered::Mapping(entries);
            }
            loop {
                skip_ws(cs, pos);
                let k = read_string(cs, pos);
                expect(cs, pos, ':');
                let v = read_value(cs, pos);
                entries.push((Buffered::String(k), v));
                skip_ws(cs, pos);
                let c = cs[*pos];
                *pos += 1;
                if c == '}' {
                    return Buffered::Mapping(entries);
                }
                assert_eq!(c, ',');
            }
        }
        '[' => {
            *pos += 1;
            let mut elems = Vec::new();
            skip_ws(cs, pos);
            if cs[*pos] == ']' {
                *pos += 1;
                return Buffered::Sequence(elems);
            }
            loop {
                elems.push(read_value(cs, pos));
                skip_ws(cs, pos);
                let c = cs[*pos];
                *pos += 1;
                if c == ']' {
                    return Buffered::Sequence(elems);
                }
                assert_eq!(c, ',');
            }
        }
        '"' => Buffered::String(read_string(cs, pos)),
        't' => {
            *pos += 4;
            Buffered::Bool(true)
        }
        'f' => {
            *pos += 5;
            Buffered::Bool(false)
        }
        'n' => {
            *pos += 4;
            Buffered::Unit
        }
        _ => {
            let start = *pos;
            while *pos < cs.len() && (cs[*pos] == '-' || cs[*pos].is_ascii_digit()) {
                *pos += 1;
            }
            let s: String = cs[start..*pos].iter().collect();
            if s.starts_with('-') {
                Buffered::I64(s.parse().unwrap())
            } else {
                Buffered::U64(s.parse().unwrap())
            }
        }
    }
}

// ---------------------------------------------------------------------------
// An interface with a few implementers, and their decode routines.

use typetag::adjacently;
use typetag::content::{ContentDeserializer, EnumDeserializer, Fields, SeqDeserializer};
use typetag::de::Payload;
use typetag::error::{Error, Expected, Kind};
use typetag::externally;
use typetag::internally;
use typetag::is_serialize_str::{expect_str, Unexpected};
use typetag::registry::Registry;
use typetag::ser::{capture, ContentSerializer, TagMismatch, TaggedSerializer};

#[derive(Debug, PartialEq, Clone)]
enum Shape {
    A(u8),
    B(u8),
    Empty,
    UnitLike,
    Variant(String),
    Number(u8),
    Pair(u8, u8),
}

type DecodeFn = fn(Payload) -> Result<Shape, Error>;

fn one_u8_field(p: Payload, field: &str) -> Result<u8, Error> {
    match p.deserialize_struct()? {
        Fields::Named(mut m) => {
            let mut found = None;
            while let Some((k, v)) = m.next_entry() {
                match k {
                    Buffered::String(s) if s == field => {
                        found = Some(ContentDeserializer::new(v).deserialize_u8()?);
                    }
                    Buffered::String(s) => {
                        return Err(Error::UnknownField { field: s, allowed: vec![field.to_string()] })
                    }
                    other => {
                        return Err(Error::InvalidType { unexpected: other.unexpected(), expected: Expected::Str })
                    }
                }
            }
            found.ok_or(Error::MissingField(field.to_string()))
        }
        Fields::Positional(mut s) => {
            let v = s.next_element().ok_or(Error::InvalidLength { len: 0, expected: Expected::SeqOfLen(1) })?;
            let n = ContentDeserializer::new(v).deserialize_u8()?;
            s.end()?;
            Ok(n)
        }
    }
}

fn decode_a(p: Payload) -> Result<Shape, Error> {
    one_u8_field(p, "a").map(Shape::A)
}

fn decode_b(p: Payload) -> Result<Shape, Error> {
    one_u8_field(p, "b").map(Shape::B)
}

fn decode_empty(p: Payload) -> Result<Shape, Error> {
    match p.deserialize_struct()? {
        Fields::Named(m) => m.end().map(|_| Shape::Empty),
        Fields::Positional(s) => s.end().map(|_| Shape::Empty),
    }
}

fn decode_unit_like(p: Payload) -> Result<Shape, Error> {
    p.deserialize_unit_struct().map(|_| Shape::UnitLike)
}

fn decode_variant(p: Payload) -> Result<Shape, Error> {
    let e = p.deserialize_enum("C")?;
    let EnumDeserializer { variant, value } = e;
    let name = ContentDeserializer::new(variant).deserialize_string()?;
    EnumDeserializer { variant: Buffered::Unit, value }.unit_variant()?;
    Ok(Shape::Variant(name))
}

fn decode_number(p: Payload) -> Result<Shape, Error> {
    p.deserialize_u8().map(Shape::Number)
}

fn registry(names: &[(&str, DecodeFn)]) -> Registry<DecodeFn> {
    let regs: Vec<(String, DecodeFn)> = names.iter().map(|(n, f)| (n.to_string(), *f)).collect();
    Registry::from_registrations(&regs)
}

fn ab() -> Registry<DecodeFn> {
    registry(&[("A", decode_a as DecodeFn), ("B", decode_b as DecodeFn)])
}

fn st(name: &str, fields: Vec<(&str, Content)>) -> Content {
    Content::Struct(name.to_string(), fields.into_iter().map(|(k, v)| (k.to_string(), v)).collect())
}

fn a11() -> Content {
    st("A", vec![("a", Content::U8(11))])
}

fn strs(v: &[&str]) -> Vec<String> {
    v.iter().map(|s| s.to_string()).collect()
}

fn adjacent_fields(default_variant: Option<&'static str>, deny: bool) -> adjacently::Fields<'static> {
    adjacently::Fields { tag: "type", content: "content", default_variant, deny_unknown_fields: deny }
}

fn ext(json: &str, reg: &Registry<DecodeFn>) -> Result<Shape, Error> {
    externally::deserialize(read(json), "Trait", reg)
}

fn intl(json: &str, default_variant: Option<&str>, reg: &Registry<DecodeFn>) -> Result<Shape, Error> {
    internally::deserialize(read(json), "Trait", "type", default_variant, reg)
}

fn adj(json: &str, fields: &adjacently::Fields, reg: &Registry<DecodeFn>) -> Result<Shape, Error> {
    adjacently::deserialize(read(json), "Trait", fields, reg)
}

// ---------------------------------------------------------------------------
// External tagging.

#[test]
fn test_json_serialize() {
    let out = externally::serialize("A", a11());
    assert_eq!(write(&out), r#"{"A":{"a":11}}"#);
}

#[test]
fn test_json_deserialize() {
    assert_eq!(ext(r#"{"B":{"b":11}}"#, &ab()), Ok(Shape::B(11)));
}

#[test]
fn test_json_round_trip() {
    let reg = registry(&[
        ("A", decode_empty as DecodeFn),
        ("B", decode_unit_like as DecodeFn),
        ("C", decode_variant as DecodeFn),
    ]);
    let s = ContentSerializer::new();

    let out = externally::serialize("A", s.serialize_struct("A", vec![]));
    assert_eq!(write(&out), r#"{"A":{}}"#);
    assert_eq!(externally::deserialize(read(&write(&out)), "Trait", &reg), Ok(Shape::Empty));

    let out = externally::serialize("B", s.serialize_unit_struct("B"));
    assert_eq!(write(&out), r#"{"B":null}"#);
    assert_eq!(externally::deserialize(read(&write(&out)), "Trait", &reg), Ok(Shape::UnitLike));

    let out = externally::serialize("C", s.serialize_unit_variant("C", 0, "Foo"));
    assert_eq!(write(&out), r#"{"C":"Foo"}"#);
    assert_eq!(
        externally::deserialize(read(&write(&out)), "Trait", &reg),
        Ok(Shape::Variant("Foo".to_string()))
    );
}

#[test]
fn external_round_trip_through_capture() {
    let out = externally::serialize("A", a11());
    assert_eq!(externally::deserialize(capture(out), "Trait", &ab()), Ok(Shape::A(11)));
}

#[test]
fn external_empty_map_is_refused() {
    assert_eq!(ext("{}", &ab()), Err(Error::ExpectedExternallyTagged("Trait".to_string())));
}

#[test]
fn external_not_a_map_is_refused() {
    assert_eq!(
        ext("[1]", &ab()),
        Err(Error::InvalidType { unexpected: Kind::Sequence, expected: Expected::TraitObject("Trait".to_string()) })
    );
}

#[test]
fn external_two_entries_are_refused() {
    assert_eq!(
        ext(r#"{"A":{"a":1},"B":{"b":2}}"#, &ab()),
        Err(Error::InvalidLength { len: 2, expected: Expected::MapOfLen(1) })
    );
}

#[test]
fn unknown_tag_lists_sorted_names() {
    let reg = registry(&[("B", decode_b as DecodeFn), ("A", decode_a as DecodeFn), ("Ab", decode_a as DecodeFn)]);
    assert_eq!(
        ext(r#"{"Z":{}}"#, &reg),
        Err(Error::UnknownVariant { variant: "Z".to_string(), known: strs(&["A", "Ab", "B"]) })
    );
    assert_eq!(reg.names(), strs(&["A", "Ab", "B"]));
}

#[test]
fn ambiguous_tag_is_refused() {
    let reg = registry(&[("A", decode_a as DecodeFn), ("B", decode_b as DecodeFn), ("A", decode_b as DecodeFn)]);
    assert_eq!(
        ext(r#"{"A":{"a":11}}"#, &reg),
        Err(Error::NonUniqueTag { trait_object: "Trait".to_string(), variant: "A".to_string() })
    );
    assert_eq!(ext(r#"{"B":{"b":11}}"#, &reg), Ok(Shape::B(11)));
    assert_eq!(
        intl(r#"{"type":"A","a":11}"#, None, &reg),
        Err(Error::NonUniqueTag { trait_object: "Trait".to_string(), variant: "A".to_string() })
    );
}

#[test]
fn registry_lookup() {
    let mut reg: Registry<DecodeFn> = Registry::new();
    assert!(reg.get("A").is_none());
    reg.register("A".to_string(), decode_a as DecodeFn);
    assert!(matches!(reg.get("A"), Some(Some(_))));
    reg.register("A".to_string(), decode_a as DecodeFn);
    assert!(matches!(reg.get("A"), Some(None)));
    reg.register("A".to_string(), decode_a as DecodeFn);
    assert!(matches!(reg.get("A"), Some(None)));
}

#[test]
fn name_order() {
    assert_eq!(typetag::registry::compare_names("a", "b"), -1);
    assert_eq!(typetag::registry::compare_names("ab", "a"), 1);
    assert_eq!(typetag::registry::compare_names("é", "é"), 0);
    assert_eq!(typetag::registry::compare_names("", "a"), -1);
}

// ---------------------------------------------------------------------------
// Internal tagging.

#[test]
fn test_test_json_serialize() {
    let out = internally::serialize("type", "A", a11()).unwrap();
    assert_eq!(write(&out), r#"{"type":"A","a":11}"#);
}

#[test]
fn test_json_serialize_with_serde_tag() {
    // The struct writes its own tag field, which holds the implementer's name.
    let c = st("C", vec![("type", Content::String("C".to_string())), ("c", Content::U8(11))]);
    let out = internally::serialize("type", "C", c).unwrap();
    assert_eq!(write(&out), r#"{"type":"C","c":11}"#);
}

#[test]
fn test_test_json_deserialize() {
    assert_eq!(intl(r#"{"type":"B","b":11}"#, None, &ab()), Ok(Shape::B(11)));
}

#[test]
fn internal_tag_after_fields() {
    assert_eq!(intl(r#"{"b":11,"type":"B"}"#, None, &ab()), Ok(Shape::B(11)));
    assert_eq!(intl(r#"{"a":11,"type":"A"}"#, None, &ab()), intl(r#"{"type":"A","a":11}"#, None, &ab()));
}

#[test]
fn internal_missing_tag() {
    assert_eq!(intl(r#"{"a":11}"#, None, &ab()), Err(Error::MissingField("type".to_string())));
}

#[test]
fn test_json_deserialize_default_variant() {
    assert_eq!(intl(r#"{"a":11}"#, Some("A"), &ab()), Ok(Shape::A(11)));
}

#[test]
fn test_json_deserialize_named_variant() {
    assert_eq!(intl(r#"{"type":"B","b":11}"#, Some("A"), &ab()), Ok(Shape::B(11)));
}

#[test]
fn internal_non_string_tag() {
    assert_eq!(
        intl(r#"{"type":5}"#, None, &ab()),
        Err(Error::InvalidType { unexpected: Kind::Unsigned(5), expected: Expected::TraitObject("Trait".to_string()) })
    );
}

#[test]
fn internal_value_under_default_key() {
    let reg = registry(&[("N", decode_number as DecodeFn)]);
    let out = internally::serialize("type", "N", Content::U8(5)).unwrap();
    assert_eq!(write(&out), r#"{"type":"N","value":5}"#);
    assert_eq!(intl(&write(&out), None, &reg), Ok(Shape::Number(5)));
    assert_eq!(intl(r#"{"value":5,"type":"N"}"#, None, &reg), Ok(Shape::Number(5)));
    assert_eq!(
        intl(r#"{"type":"N","other":5}"#, None, &reg),
        Err(Error::UnknownField { field: "other".to_string(), allowed: strs(&["value"]) })
    );
    assert_eq!(intl(r#"{"type":"N"}"#, None, &reg), Err(Error::MissingField("value".to_string())));
}

#[test]
fn internal_unit_and_enum_shapes() {
    let s = ContentSerializer::new();
    let out = internally::serialize("type", "U", s.serialize_unit_struct("U")).unwrap();
    assert_eq!(write(&out), r#"{"type":"U"}"#);
    let out = internally::serialize("type", "E", s.serialize_unit_variant("E", 0, "Foo")).unwrap();
    assert_eq!(write(&out), r#"{"type":"E","Foo":null}"#);
    let out = internally::serialize("type", "E", s.serialize_newtype_variant("E", 1, "Bar", Content::U8(3))).unwrap();
    assert_eq!(write(&out), r#"{"type":"E","Bar":3}"#);
    let out = internally::serialize("type", "S", Content::Sequence(vec![Content::U8(1), Content::U8(2)])).unwrap();
    assert_eq!(write(&out), r#"{"type":"S","value":[1,2]}"#);
    let out = internally::serialize("type", "W", s.serialize_newtype_struct("W", a11())).unwrap();
    assert_eq!(write(&out), r#"{"type":"W","a":11}"#);
}

#[test]
fn internal_round_trip_through_capture() {
    let out = internally::serialize("type", "A", a11()).unwrap();
    assert_eq!(int_content(capture(out), &ab()), Ok(Shape::A(11)));
}

fn int_content(c: Buffered, reg: &Registry<DecodeFn>) -> Result<Shape, Error> {
    internally::deserialize(c, "Trait", "type", None, reg)
}

#[test]
fn tag_mismatch() {
    let tagged = |v: Content| st("Tagged", vec![("type", v)]);
    let out = internally::serialize("type", "Tagged", tagged(Content::String("Tagged".to_string()))).unwrap();
    assert_eq!(write(&out), r#"{"type":"Tagged"}"#);
    assert_eq!(
        internally::serialize("type", "Tagged", tagged(Content::String("Mismatch".to_string()))),
        Err(TagMismatch {
            tag: "type".to_string(),
            expected: "Tagged".to_string(),
            found: Unexpected::Str("Mismatch".to_string()),
        })
    );
    assert_eq!(
        internally::serialize("type", "Tagged", tagged(Content::Bool(false))),
        Err(TagMismatch { tag: "type".to_string(), expected: "Tagged".to_string(), found: Unexpected::NonStr })
    );
}

#[test]
fn expect_str_cases() {
    assert_eq!(expect_str(&Content::String("x".to_string()), "x"), Ok(()));
    assert_eq!(expect_str(&Content::Char('x'), "x"), Ok(()));
    assert_eq!(expect_str(&Content::Char('y'), "x"), Err(Unexpected::Str("y".to_string())));
    assert_eq!(
        expect_str(&Content::OptionSome(Box::new(Content::String("x".to_string()))), "x"),
        Ok(())
    );
    assert_eq!(expect_str(&Content::U8(1), "x"), Err(Unexpected::NonStr));
}

#[test]
fn tagged_serializer_default_and_unit() {
    let t = TaggedSerializer { tag: "t", variant: "V" };
    assert_eq!(write(&t.serialize_default(Content::Bool(true))), r#"{"t":"V","value":true}"#);
    assert_eq!(write(&t.serialize_unit()), r#"{"t":"V"}"#);
}

// ---------------------------------------------------------------------------
// Adjacent tagging.

#[test]
fn adjacent_json_serialize() {
    let out = adjacently::serialize("Trait", "type", "A", "content", a11());
    assert_eq!(write(&out), r#"{"type":"A","content":{"a":11}}"#);
}

#[test]
fn adjacent_json_deserialize() {
    let f = adjacent_fields(None, false);
    assert_eq!(adj(r#"{"type":"B","content":{"b":11}}"#, &f, &ab()), Ok(Shape::B(11)));
    assert_eq!(adj(r#"{"type":"B","content":{"b":11},"unknown":null}"#, &f, &ab()), Ok(Shape::B(11)));
}

#[test]
fn test_json_deserialize_deny_unknown() {
    let f = adjacent_fields(None, true);
    assert_eq!(
        adj(r#"{"type":"B","content":{"b":11},"unknown":null}"#, &f, &ab()),
        Err(Error::UnknownField { field: "unknown".to_string(), allowed: strs(&["type", "content"]) })
    );
}

#[test]
fn adjacent_content_before_tag() {
    let f = adjacent_fields(None, false);
    assert_eq!(adj(r#"{"content":{"b":11},"x":1,"type":"B"}"#, &f, &ab()), Ok(Shape::B(11)));
}

#[test]
fn test_test_json_deserialize_default_variant() {
    let f = adjacent_fields(Some("A"), false);
    assert_eq!(adj(r#"{"content":{"a":11}}"#, &f, &ab()), Ok(Shape::A(11)));
    assert_eq!(adj("{}", &f, &ab()), Err(Error::MissingField("content".to_string())));
}

#[test]
fn test_test_json_deserialize_named_variant() {
    let f = adjacent_fields(Some("A"), false);
    assert_eq!(adj(r#"{"type":"B","content":{"b":11}}"#, &f, &ab()), Ok(Shape::B(11)));
}

#[test]
fn adjacent_missing_tag() {
    let f = adjacent_fields(None, false);
    assert_eq!(adj(r#"{"content":{"a":11}}"#, &f, &ab()), Err(Error::MissingField("type".to_string())));
    assert_eq!(adj("{}", &f, &ab()), Err(Error::MissingField("type".to_string())));
}

#[test]
fn adjacent_duplicates() {
    let f = adjacent_fields(None, false);
    assert_eq!(adj(r#"{"type":"A","type":"B"}"#, &f, &ab()), Err(Error::DuplicateField("type".to_string())));
    assert_eq!(
        adj(r#"{"content":1,"content":2}"#, &f, &ab()),
        Err(Error::DuplicateField("content".to_string()))
    );
    assert_eq!(
        adj(r#"{"type":"A","content":{"a":1},"type":"A"}"#, &f, &ab()),
        Err(Error::DuplicateField("type".to_string()))
    );
}

#[test]
fn adjacent_tag_alone_is_unit() {
    let reg = registry(&[("B", decode_unit_like as DecodeFn)]);
    let f = adjacent_fields(None, false);
    assert_eq!(adj(r#"{"type":"B"}"#, &f, &reg), Ok(Shape::UnitLike));
}

#[test]
fn adjacent_sequence_form() {
    let f = adjacent_fields(None, false);
    assert_eq!(adj(r#"["A",{"a":11}]"#, &f, &ab()), Ok(Shape::A(11)));
    assert_eq!(
        adj(r#"["A"]"#, &f, &ab()),
        Err(Error::InvalidLength { len: 1, expected: Expected::TraitObject("Trait".to_string()) })
    );
    assert_eq!(
        adj("[]", &f, &ab()),
        Err(Error::InvalidLength { len: 0, expected: Expected::TraitObject("Trait".to_string()) })
    );
    assert_eq!(
        adj(r#"["A",{"a":11},3]"#, &f, &ab()),
        Err(Error::InvalidLength { len: 3, expected: Expected::SeqOfLen(2) })
    );
}

#[test]
fn adjacent_round_trip_through_capture() {
    let out = adjacently::serialize("Trait", "type", "A", "content", a11());
    let f = adjacent_fields(None, true);
    assert_eq!(adjacently::deserialize(capture(out), "Trait", &f, &ab()), Ok(Shape::A(11)));
}

// ---------------------------------------------------------------------------
// The buffered value read back.

#[test]
fn integers_by_range() {
    assert_eq!(ContentDeserializer::new(Buffered::U64(255)).deserialize_u8(), Ok(255));
    assert_eq!(
        ContentDeserializer::new(Buffered::U64(256)).deserialize_u8(),
        Err(Error::InvalidValue { unexpected: Kind::Unsigned(256), expected: Expected::Integer })
    );
    assert_eq!(ContentDeserializer::new(Buffered::I8(-3)).deserialize_i64(), Ok(-3));
    assert_eq!(
        ContentDeserializer::new(Buffered::I8(-3)).deserialize_u32(),
        Err(Error::InvalidValue { unexpected: Kind::Signed(-3), expected: Expected::Integer })
    );
    assert_eq!(
        ContentDeserializer::new(Buffered::Bool(true)).deserialize_u16(),
        Err(Error::InvalidType { unexpected: Kind::Bool(true), expected: Expected::Integer })
    );
}

#[test]
fn chars_strings_bytes() {
    assert_eq!(ContentDeserializer::new(Buffered::String("x".to_string())).deserialize_char(), Ok('x'));
    assert_eq!(
        ContentDeserializer::new(Buffered::String("xy".to_string())).deserialize_char(),
        Err(Error::InvalidValue { unexpected: Kind::Str("xy".to_string()), expected: Expected::Char })
    );
    assert_eq!(ContentDeserializer::new(Buffered::String("ab".to_string())).deserialize_bytes(), Ok(vec![97, 98]));
    assert_eq!(
        ContentDeserializer::new(Buffered::Unit).deserialize_string(),
        Err(Error::InvalidType { unexpected: Kind::Unit, expected: Expected::Str })
    );
}

#[test]
fn options_and_newtypes() {
    assert_eq!(ContentDeserializer::new(Buffered::Unit).deserialize_option(), None);
    assert_eq!(
        ContentDeserializer::new(Buffered::OptionSome(Box::new(Buffered::U8(1)))).deserialize_option(),
        Some(Buffered::U8(1))
    );
    assert_eq!(ContentDeserializer::new(Buffered::U8(1)).deserialize_option(), Some(Buffered::U8(1)));
    assert_eq!(
        ContentDeserializer::new(Buffered::Newtype(Box::new(Buffered::U8(1)))).deserialize_newtype_struct(),
        Buffered::U8(1)
    );
}

#[test]
fn enum_needs_single_key_map() {
    assert!(ContentDeserializer::new(read(r#"{"V":1}"#)).deserialize_enum().is_ok());
    assert!(matches!(
        ContentDeserializer::new(read(r#"{"V":1,"W":2}"#)).deserialize_enum(),
        Err(Error::InvalidValue { unexpected: Kind::Mapping, expected: Expected::SingleKeyMap })
    ));
    assert!(matches!(
        ContentDeserializer::new(read("{}")).deserialize_enum(),
        Err(Error::InvalidValue { unexpected: Kind::Mapping, expected: Expected::SingleKeyMap })
    ));
    assert!(matches!(
        ContentDeserializer::new(read("3")).deserialize_enum(),
        Err(Error::InvalidType { unexpected: Kind::Unsigned(3), expected: Expected::StringOrMap })
    ));
}

#[test]
fn sequence_length_is_checked() {
    let mut s = SeqDeserializer::new(vec![Buffered::U8(1), Buffered::U8(2), Buffered::U8(3)]);
    assert_eq!(s.next_element(), Some(Buffered::U8(1)));
    assert_eq!(s.end(), Err(Error::InvalidLength { len: 3, expected: Expected::SeqOfLen(1) }));
}

#[test]
fn variant_shapes() {
    let e = ContentDeserializer::new(read(r#"{"V":[1,2]}"#)).deserialize_enum().unwrap();
    let mut s = e.tuple_variant().unwrap();
    assert_eq!(s.next_element(), Some(Buffered::U64(1)));
    let e = ContentDeserializer::new(read(r#""V""#)).deserialize_enum().unwrap();
    assert_eq!(
        e.newtype_variant(),
        Err(Error::InvalidType { unexpected: Kind::UnitVariant, expected: Expected::NewtypeVariant })
    );
}

fn decode_pair(p: Payload) -> Result<Shape, Error> {
    let mut s = p.deserialize_seq()?;
    let a = ContentDeserializer::new(s.next_element().ok_or(Error::InvalidLength { len: 0, expected: Expected::SeqOfLen(2) })?)
        .deserialize_u8()?;
    let b = ContentDeserializer::new(s.next_element().ok_or(Error::InvalidLength { len: 1, expected: Expected::SeqOfLen(2) })?)
        .deserialize_u8()?;
    s.end()?;
    Ok(Shape::Pair(a, b))
}

#[test]
fn round_trip_every_shape_and_layout() {
    let reg = registry(&[
        ("A", decode_a as DecodeFn),
        ("U", decode_unit_like as DecodeFn),
        ("C", decode_variant as DecodeFn),
        ("P", decode_pair as DecodeFn),
    ]);
    let cases: Vec<(&str, fn() -> Content, Shape)> = vec![
        ("A", a11, Shape::A(11)),
        ("U", || ContentSerializer::new().serialize_unit_struct("U"), Shape::UnitLike),
        ("C", || ContentSerializer::new().serialize_unit_variant("C", 0, "Foo"), Shape::Variant("Foo".to_string())),
        ("P", || Content::TupleStruct("P".to_string(), vec![Content::U8(1), Content::U8(2)]), Shape::Pair(1, 2)),
    ];
    let f = adjacent_fields(None, false);
    for (name, make, expected) in cases {
        let ext_out = capture(externally::serialize(name, make()));
        assert_eq!(externally::deserialize(ext_out, "Trait", &reg), Ok(expected.clone()), "external {}", name);
        let int_out = capture(internally::serialize("type", name, make()).unwrap());
        assert_eq!(int_content(int_out, &reg), Ok(expected.clone()), "internal {}", name);
        let adj_out = capture(adjacently::serialize("Trait", "type", name, "content", make()));
        assert_eq!(adjacently::deserialize(adj_out, "Trait", &f, &reg), Ok(expected.clone()), "adjacent {}", name);
    }
}

#[test]
fn registration_order_does_not_matter() {
    let one = registry(&[("B", decode_b as DecodeFn), ("A", decode_a as DecodeFn), ("B", decode_a as DecodeFn)]);
    let two = registry(&[("A", decode_a as DecodeFn), ("B", decode_a as DecodeFn), ("B", decode_b as DecodeFn)]);
    assert_eq!(one.names(), two.names());
    assert_eq!(ext(r#"{"A":{"a":1}}"#, &one), ext(r#"{"A":{"a":1}}"#, &two));
    assert_eq!(ext(r#"{"B":{"b":1}}"#, &one), ext(r#"{"B":{"b":1}}"#, &two));
}

#[test]
fn tag_position_does_not_matter() {
    let reg = registry(&[("N", decode_number as DecodeFn), ("A", decode_a as DecodeFn)]);
    for json in [r#"{"type":"N","value":7}"#, r#"{"value":7,"type":"N"}"#] {
        assert_eq!(intl(json, None, &reg), Ok(Shape::Number(7)), "{}", json);
    }
    let unit = registry(&[("U", decode_unit_like as DecodeFn)]);
    assert_eq!(intl(r#"{"x":1,"type":"U"}"#, None, &unit), intl(r#"{"type":"U","x":1}"#, None, &unit));
    assert_eq!(intl(r#"{"value":7}"#, Some("N"), &reg), Ok(Shape::Number(7)));
}

#[test]
fn content_serializer_shapes() {
    let s = ContentSerializer::new();
    assert_eq!(s.serialize_unit(), Content::Unit);
    assert_eq!(s.serialize_none(), Content::OptionNone);
    assert_eq!(s.serialize_some(Content::U8(1)), Content::OptionSome(Box::new(Content::U8(1))));
    assert_eq!(s.serialize_u16(300), Content::U16(300));
    assert_eq!(s.serialize_u32(70000), Content::U32(70000));
    assert_eq!(s.serialize_i8(-1), Content::I8(-1));
    assert_eq!(s.serialize_i16(-300), Content::I16(-300));
    assert_eq!(s.serialize_i32(-70000), Content::I32(-70000));
    assert_eq!(s.serialize_char('c'), Content::Char('c'));
    assert_eq!(s.serialize_bytes(vec![1, 2]), Content::Bytes(vec![1, 2]));
    assert_eq!(s.serialize_seq(vec![Content::U8(1)]), Content::Sequence(vec![Content::U8(1)]));
    assert_eq!(s.serialize_tuple(vec![Content::U8(1)]), Content::Tuple(vec![Content::U8(1)]));
    assert_eq!(
        s.serialize_tuple_struct("P", vec![Content::U8(1)]),
        Content::TupleStruct("P".to_string(), vec![Content::U8(1)])
    );
    assert_eq!(
        write(&s.serialize_tuple_variant("E", 2, "T", vec![Content::U8(1), Content::U8(2)])),
        r#"{"T":[1,2]}"#
    );
    assert_eq!(
        write(&s.serialize_map(vec![(Content::String("k".to_string()), Content::Bool(true))])),
        r#"{"k":true}"#
    );
}

#[test]
fn adjacent_sequence_round_trip() {
    let out = adjacently::serialize("Trait", "type", "A", "content", a11());
    // A format that writes struct fields by position keeps only the values.
    let wire = match out {
        Content::Struct(_, fs) => Buffered::Sequence(fs.into_iter().map(|(_, v)| capture(v)).collect()),
        _ => panic!("adjacent tagging writes a struct"),
    };
    let f = adjacent_fields(None, true);
    assert_eq!(adjacently::deserialize(wire, "Trait", &f, &ab()), Ok(Shape::A(11)));
}
