//! The buffered value: a decoded subtree held in memory until the routine
//! that reads it is known, and replayed to that routine afterwards.
use vstd::prelude::*;

use crate::error::{Error, ErrorView, Expected, ExpectedView, Kind};

verus! {

/// One value as a self-describing format delivers it.
#[derive(Debug, PartialEq, Eq)]
pub enum Content {
    Bool(bool),
    U8(u8),
    U16(u16),
    U32(u32),
    U64(u64),
    I8(i8),
    I16(i16),
    I32(i32),
    I64(i64),
    Char(char),
    String(String),
    Bytes(Vec<u8>),
    OptionNone,
    OptionSome(Box<Content>),
    Unit,
    Newtype(Box<Content>),
    Sequence(Vec<Content>),
    Mapping(Vec<(Content, Content)>),
}

/// The shape reported when `c` is not what a decode step wanted.
pub open spec fn kind_of(c: Content) -> Kind {
    match c {
        Content::Bool(b) => Kind::Bool(b),
        Content::U8(n) => Kind::Unsigned(n as u64),
        Content::U16(n) => Kind::Unsigned(n as u64),
        Content::U32(n) => Kind::Unsigned(n as u64),
        Content::U64(n) => Kind::Unsigned(n),
        Content::I8(n) => Kind::Signed(n as i64),
        Content::I16(n) => Kind::Signed(n as i64),
        Content::I32(n) => Kind::Signed(n as i64),
        Content::I64(n) => Kind::Signed(n),
        Content::Char(ch) => Kind::Char(ch),
        Content::String(s) => Kind::Str(s),
        Content::Bytes(_) => Kind::Bytes,
        Content::OptionNone => Kind::Option,
        Content::OptionSome(_) => Kind::Option,
        Content::Unit => Kind::Unit,
        Content::Newtype(_) => Kind::NewtypeStruct,
        Content::Sequence(_) => Kind::Sequence,
        Content::Mapping(_) => Kind::Mapping,
    }
}

/// The integer that `c` holds, of whichever width it was stored with.
pub open spec fn int_of(c: Content) -> Option<int> {
    match c {
        Content::U8(n) => Some(n as int),
        Content::U16(n) => Some(n as int),
        Content::U32(n) => Some(n as int),
        Content::U64(n) => Some(n as int),
        Content::I8(n) => Some(n as int),
        Content::I16(n) => Some(n as int),
        Content::I32(n) => Some(n as int),
        Content::I64(n) => Some(n as int),
        _ => None,
    }
}

/// Reading an integer in `lo..=hi` out of `c`: a stored integer outside the
/// range is an invalid value, anything else an invalid type.
pub open spec fn integer_in(c: Content, lo: int, hi: int) -> Result<int, ErrorView> {
    match int_of(c) {
        Some(v) => if lo <= v <= hi {
            Ok(v)
        } else {
            Err(ErrorView::InvalidValue(kind_of(c), ExpectedView::Other(Expected::Integer)))
        },
        None => Err(wrong_type(c, Expected::Integer)),
    }
}

/// The error for a value `c` of the wrong shape.
pub open spec fn wrong_type(c: Content, expected: Expected) -> ErrorView {
    ErrorView::InvalidType(kind_of(c), expected@)
}

/// `r` is `Ok(v)` where `s` is, with the same error otherwise.
pub open spec fn same_value<T>(r: Result<T, Error>, s: Result<T, ErrorView>) -> bool {
    match (r, s) {
        (Ok(a), Ok(b)) => a == b,
        (Err(e), Err(v)) => e@ == v,
        _ => false,
    }
}

/// Reading a boolean out of `c`.
pub open spec fn bool_of(c: Content) -> Result<bool, ErrorView> {
    match c {
        Content::Bool(b) => Ok(b),
        _ => Err(wrong_type(c, Expected::Bool)),
    }
}

/// Reading a character out of `c`: a character, or a string of one.
pub open spec fn char_of(c: Content) -> Result<char, ErrorView> {
    match c {
        Content::Char(ch) => Ok(ch),
        Content::String(s) => if s@.len() == 1 {
            Ok(s@[0])
        } else {
            Err(ErrorView::InvalidValue(kind_of(c), ExpectedView::Other(Expected::Char)))
        },
        _ => Err(wrong_type(c, Expected::Char)),
    }
}

/// Reading a string out of `c`.
pub open spec fn string_of(c: Content) -> Result<Seq<char>, ErrorView> {
    match c {
        Content::String(s) => Ok(s@),
        _ => Err(wrong_type(c, Expected::Str)),
    }
}

/// Reading bytes out of `c`: a byte string, or the UTF-8 of a string.
pub open spec fn bytes_of(c: Content) -> Result<Seq<u8>, ErrorView> {
    match c {
        Content::Bytes(b) => Ok(b@),
        Content::String(s) => Ok(vstd::utf8::encode_utf8(s@)),
        _ => Err(wrong_type(c, Expected::Bytes)),
    }
}

/// Reading an optional value out of `c`: unit counts as absent, and any
/// other value as present.
pub open spec fn option_of(c: Content) -> Option<Content> {
    match c {
        Content::OptionNone => None,
        Content::Unit => None,
        Content::OptionSome(v) => Some(*v),
        _ => Some(c),
    }
}

/// Reading a unit out of `c`.
pub open spec fn unit_of(c: Content) -> Result<(), ErrorView> {
    match c {
        Content::Unit => Ok(()),
        _ => Err(wrong_type(c, Expected::Unit)),
    }
}

/// Reading a unit struct out of `c`: unit, or an empty map.
pub open spec fn unit_struct_of(c: Content) -> Result<(), ErrorView> {
    match c {
        Content::Unit => Ok(()),
        Content::Mapping(v) => if v@.len() == 0 {
            Ok(())
        } else {
            Err(wrong_type(c, Expected::Unit))
        },
        _ => Err(wrong_type(c, Expected::Unit)),
    }
}

/// The value inside a newtype wrapper, or `c` itself.
pub open spec fn newtype_of(c: Content) -> Content {
    match c {
        Content::Newtype(v) => *v,
        _ => c,
    }
}

impl Content {
    /// The shape of this value, for an error message.
    pub fn unexpected(&self) -> (r: Kind)
        ensures
            r == kind_of(*self),
    {
        match self {
            Content::Bool(b) => Kind::Bool(*b),
            Content::U8(n) => Kind::Unsigned(*n as u64),
            Content::U16(n) => Kind::Unsigned(*n as u64),
            Content::U32(n) => Kind::Unsigned(*n as u64),
            Content::U64(n) => Kind::Unsigned(*n),
            Content::I8(n) => Kind::Signed(*n as i64),
            Content::I16(n) => Kind::Signed(*n as i64),
            Content::I32(n) => Kind::Signed(*n as i64),
            Content::I64(n) => Kind::Signed(*n),
            Content::Char(ch) => Kind::Char(*ch),
            Content::String(s) => Kind::Str(s.clone()),
            Content::Bytes(_) => Kind::Bytes,
            Content::OptionNone => Kind::Option,
            Content::OptionSome(_) => Kind::Option,
            Content::Unit => Kind::Unit,
            Content::Newtype(_) => Kind::NewtypeStruct,
            Content::Sequence(_) => Kind::Sequence,
            Content::Mapping(_) => Kind::Mapping,
        }
    }

    /// The integer held, widened so that every stored width fits.
    fn integer(&self) -> (r: Option<i128>)
        ensures
            r matches Some(v) <==> int_of(*self) is Some,
            r matches Some(v) ==> int_of(*self) == Some(v as int),
    {
        match self {
            Content::U8(n) => Some(*n as i128),
            Content::U16(n) => Some(*n as i128),
            Content::U32(n) => Some(*n as i128),
            Content::U64(n) => Some(*n as i128),
            Content::I8(n) => Some(*n as i128),
            Content::I16(n) => Some(*n as i128),
            Content::I32(n) => Some(*n as i128),
            Content::I64(n) => Some(*n as i128),
            _ => None,
        }
    }
}


/// Replays a buffered value to a routine that asks for one shape of value.
pub struct ContentDeserializer {
    pub content: Content,
}

/// A sequence handed out one element at a time.
pub struct SeqDeserializer {
    elems: Vec<Content>,
    count: usize,
}

/// A map handed out one entry at a time.
pub struct MapDeserializer {
    entries: Vec<(Content, Content)>,
    count: usize,
}

/// The fields of a struct: by name in a map, or by position in a sequence.
pub enum Fields {
    Named(MapDeserializer),
    Positional(SeqDeserializer),
}

/// An enum: the variant's name, and its data unless it is a unit variant.
pub struct EnumDeserializer {
    pub variant: Content,
    pub value: Option<Content>,
}

impl SeqDeserializer {
    /// The elements not yet handed out.
    pub closed spec fn remaining(&self) -> Seq<Content> {
        self.elems@
    }

    /// How many elements were handed out.
    pub closed spec fn count(&self) -> nat {
        self.count as nat
    }

    pub closed spec fn wf(&self) -> bool {
        self.count + self.elems@.len() <= usize::MAX
    }

    pub fn new(elems: Vec<Content>) -> (r: Self)
        ensures
            r.wf(),
            r.remaining() == elems@,
            r.count() == 0,
    {
        // Reading the length bounds it by `usize::MAX`.
        let _len = elems.len();
        SeqDeserializer { elems, count: 0 }
    }

    pub fn next_element(&mut self) -> (r: Option<Content>)
        requires
            old(self).wf(),
        ensures
            final(self).wf(),
            old(self).remaining().len() == 0 ==> r is None && *final(self) == *old(self),
            old(self).remaining().len() > 0 ==> r == Some(old(self).remaining()[0])
                && final(self).remaining() == old(self).remaining().drop_first() && final(self).count()
                == old(self).count() + 1,
    {
        if self.elems.len() == 0 {
            None
        } else {
            let e = self.elems.remove(0);
            self.count = self.count + 1;
            Some(e)
        }
    }

    /// Succeeds when every element was read; otherwise reports how many
    /// there were against how many were read.
    pub fn end(self) -> (r: Result<(), Error>)
        requires
            self.wf(),
        ensures
            self.remaining().len() == 0 ==> r is Ok,
            self.remaining().len() > 0 ==> (r matches Err(e) && e@ == ErrorView::InvalidLength(
                (self.count() + self.remaining().len()) as usize,
                ExpectedView::Other(Expected::SeqOfLen(self.count() as usize)),
            )),
    {
        if self.elems.len() == 0 {
            Ok(())
        } else {
            Err(Error::invalid_length(self.count + self.elems.len(), Expected::SeqOfLen(self.count)))
        }
    }
}

impl MapDeserializer {
    /// The entries not yet handed out.
    pub closed spec fn remaining(&self) -> Seq<(Content, Content)> {
        self.entries@
    }

    /// How many entries were handed out.
    pub closed spec fn count(&self) -> nat {
        self.count as nat
    }

    pub closed spec fn wf(&self) -> bool {
        self.count + self.entries@.len() <= usize::MAX
    }

    pub fn new(entries: Vec<(Content, Content)>) -> (r: Self)
        ensures
            r.wf(),
            r.remaining() == entries@,
            r.count() == 0,
    {
        // Reading the length bounds it by `usize::MAX`.
        let _len = entries.len();
        MapDeserializer { entries, count: 0 }
    }

    pub fn next_entry(&mut self) -> (r: Option<(Content, Content)>)
        requires
            old(self).wf(),
        ensures
            final(self).wf(),
            old(self).remaining().len() == 0 ==> r is None && *final(self) == *old(self),
            old(self).remaining().len() > 0 ==> r == Some(old(self).remaining()[0])
                && final(self).remaining() == old(self).remaining().drop_first() && final(self).count()
                == old(self).count() + 1,
    {
        if self.entries.len() == 0 {
            None
        } else {
            let e = self.entries.remove(0);
            self.count = self.count + 1;
            Some(e)
        }
    }

    /// Succeeds when every entry was read; otherwise reports how many there
    /// were against how many were read.
    pub fn end(self) -> (r: Result<(), Error>)
        requires
            self.wf(),
        ensures
            self.remaining().len() == 0 ==> r is Ok,
            self.remaining().len() > 0 ==> (r matches Err(e) && e@ == ErrorView::InvalidLength(
                (self.count() + self.remaining().len()) as usize,
                ExpectedView::Other(Expected::MapOfLen(self.count() as usize)),
            )),
    {
        if self.entries.len() == 0 {
            Ok(())
        } else {
            Err(Error::invalid_length(self.count + self.entries.len(), Expected::MapOfLen(self.count)))
        }
    }
}


/// Reading a sequence out of `c`.
pub open spec fn seq_of(c: Content) -> Result<Seq<Content>, ErrorView> {
    match c {
        Content::Sequence(v) => Ok(v@),
        _ => Err(wrong_type(c, Expected::Sequence)),
    }
}

/// Reading a map out of `c`.
pub open spec fn map_of(c: Content) -> Result<Seq<(Content, Content)>, ErrorView> {
    match c {
        Content::Mapping(v) => Ok(v@),
        _ => Err(wrong_type(c, Expected::Mapping)),
    }
}

/// Reading an enum out of `c`: a bare name is a unit variant, a map of one
/// entry is a variant with data; any other map is refused.
pub open spec fn enum_of(c: Content) -> Result<(Content, Option<Content>), ErrorView> {
    match c {
        Content::Mapping(v) => if v@.len() == 1 {
            Ok((v@[0].0, Some(v@[0].1)))
        } else {
            Err(ErrorView::InvalidValue(Kind::Mapping, ExpectedView::Other(Expected::SingleKeyMap)))
        },
        Content::String(_) => Ok((c, None)),
        _ => Err(wrong_type(c, Expected::StringOrMap)),
    }
}

impl ContentDeserializer {
    pub fn new(content: Content) -> (r: Self)
        ensures
            r.content == content,
    {
        ContentDeserializer { content }
    }

    fn invalid_type(&self, expected: Expected) -> (e: Error)
        ensures
            e@ == wrong_type(self.content, expected),
    {
        Error::invalid_type(self.content.unexpected(), expected)
    }

    pub fn deserialize_bool(self) -> (r: Result<bool, Error>)
        ensures
            same_value(r, bool_of(self.content)),
    {
        match self.content {
            Content::Bool(b) => Ok(b),
            _ => Err(self.invalid_type(Expected::Bool)),
        }
    }

    /// Reads an integer in `lo..=hi`, whatever width it was stored with.
    fn deserialize_integer(self, lo: i128, hi: i128) -> (r: Result<i128, Error>)
        ensures
            match integer_in(self.content, lo as int, hi as int) {
                Ok(v) => r == Ok::<i128, Error>(v as i128),
                Err(e) => r matches Err(err) && err@ == e,
            },
    {
        match self.content.integer() {
            Some(v) => if lo <= v && v <= hi {
                Ok(v)
            } else {
                Err(Error::InvalidValue { unexpected: self.content.unexpected(), expected: Expected::Integer })
            },
            None => Err(self.invalid_type(Expected::Integer)),
        }
    }

    pub fn deserialize_u8(self) -> (r: Result<u8, Error>)
        ensures
            match integer_in(self.content, 0, u8::MAX as int) {
                Ok(v) => r == Ok::<u8, Error>(v as u8),
                Err(e) => r matches Err(err) && err@ == e,
            },
    {
        match self.deserialize_integer(0, u8::MAX as i128) {
            Ok(v) => Ok(v as u8),
            Err(e) => Err(e),
        }
    }

    pub fn deserialize_u16(self) -> (r: Result<u16, Error>)
        ensures
            match integer_in(self.content, 0, u16::MAX as int) {
                Ok(v) => r == Ok::<u16, Error>(v as u16),
                Err(e) => r matches Err(err) && err@ == e,
            },
    {
        match self.deserialize_integer(0, u16::MAX as i128) {
            Ok(v) => Ok(v as u16),
            Err(e) => Err(e),
        }
    }

    pub fn deserialize_u32(self) -> (r: Result<u32, Error>)
        ensures
            match integer_in(self.content, 0, u32::MAX as int) {
                Ok(v) => r == Ok::<u32, Error>(v as u32),
                Err(e) => r matches Err(err) && err@ == e,
            },
    {
        match self.deserialize_integer(0, u32::MAX as i128) {
            Ok(v) => Ok(v as u32),
            Err(e) => Err(e),
        }
    }

    pub fn deserialize_u64(self) -> (r: Result<u64, Error>)
        ensures
            match integer_in(self.content, 0, u64::MAX as int) {
                Ok(v) => r == Ok::<u64, Error>(v as u64),
                Err(e) => r matches Err(err) && err@ == e,
            },
    {
        match self.deserialize_integer(0, u64::MAX as i128) {
            Ok(v) => Ok(v as u64),
            Err(e) => Err(e),
        }
    }

    pub fn deserialize_i8(self) -> (r: Result<i8, Error>)
        ensures
            match integer_in(self.content, i8::MIN as int, i8::MAX as int) {
                Ok(v) => r == Ok::<i8, Error>(v as i8),
                Err(e) => r matches Err(err) && err@ == e,
            },
    {
        match self.deserialize_integer(i8::MIN as i128, i8::MAX as i128) {
            Ok(v) => Ok(v as i8),
            Err(e) => Err(e),
        }
    }

    pub fn deserialize_i16(self) -> (r: Result<i16, Error>)
        ensures
            match integer_in(self.content, i16::MIN as int, i16::MAX as int) {
                Ok(v) => r == Ok::<i16, Error>(v as i16),
                Err(e) => r matches Err(err) && err@ == e,
            },
    {
        match self.deserialize_integer(i16::MIN as i128, i16::MAX as i128) {
            Ok(v) => Ok(v as i16),
            Err(e) => Err(e),
        }
    }

    pub fn deserialize_i32(self) -> (r: Result<i32, Error>)
        ensures
            match integer_in(self.content, i32::MIN as int, i32::MAX as int) {
                Ok(v) => r == Ok::<i32, Error>(v as i32),
                Err(e) => r matches Err(err) && err@ == e,
            },
    {
        match self.deserialize_integer(i32::MIN as i128, i32::MAX as i128) {
            Ok(v) => Ok(v as i32),
            Err(e) => Err(e),
        }
    }

    pub fn deserialize_i64(self) -> (r: Result<i64, Error>)
        ensures
            match integer_in(self.content, i64::MIN as int, i64::MAX as int) {
                Ok(v) => r == Ok::<i64, Error>(v as i64),
                Err(e) => r matches Err(err) && err@ == e,
            },
    {
        match self.deserialize_integer(i64::MIN as i128, i64::MAX as i128) {
            Ok(v) => Ok(v as i64),
            Err(e) => Err(e),
        }
    }

    pub fn deserialize_char(self) -> (r: Result<char, Error>)
        ensures
            same_value(r, char_of(self.content)),
    {
        match &self.content {
            Content::Char(ch) => Ok(*ch),
            Content::String(s) => {
                if s.as_str().unicode_len() == 1 {
                    Ok(s.as_str().get_char(0))
                } else {
                    Err(Error::InvalidValue { unexpected: self.content.unexpected(), expected: Expected::Char })
                }
            },
            _ => Err(self.invalid_type(Expected::Char)),
        }
    }

    pub fn deserialize_string(self) -> (r: Result<String, Error>)
        ensures
            match string_of(self.content) {
                Ok(s) => r matches Ok(x) && x@ == s,
                Err(e) => r matches Err(err) && err@ == e,
            },
    {
        match self.content {
            Content::String(s) => Ok(s),
            _ => Err(self.invalid_type(Expected::Str)),
        }
    }

    pub fn deserialize_bytes(self) -> (r: Result<Vec<u8>, Error>)
        ensures
            match bytes_of(self.content) {
                Ok(b) => r matches Ok(x) && x@ == b,
                Err(e) => r matches Err(err) && err@ == e,
            },
    {
        match self.content {
            Content::Bytes(b) => Ok(b),
            Content::String(s) => Ok(s.as_str().as_bytes_vec()),
            _ => Err(self.invalid_type(Expected::Bytes)),
        }
    }

    pub fn deserialize_option(self) -> (r: Option<Content>)
        ensures
            r == option_of(self.content),
    {
        match self.content {
            Content::OptionNone => None,
            Content::Unit => None,
            Content::OptionSome(v) => Some(*v),
            other => Some(other),
        }
    }

    pub fn deserialize_unit(self) -> (r: Result<(), Error>)
        ensures
            same_value(r, unit_of(self.content)),
    {
        match self.content {
            Content::Unit => Ok(()),
            _ => Err(self.invalid_type(Expected::Unit)),
        }
    }

    pub fn deserialize_unit_struct(self) -> (r: Result<(), Error>)
        ensures
            same_value(r, unit_struct_of(self.content)),
    {
        match &self.content {
            Content::Unit => Ok(()),
            Content::Mapping(v) => if v.len() == 0 {
                Ok(())
            } else {
                Err(self.invalid_type(Expected::Unit))
            },
            _ => Err(self.invalid_type(Expected::Unit)),
        }
    }

    pub fn deserialize_newtype_struct(self) -> (r: Content)
        ensures
            r == newtype_of(self.content),
    {
        match self.content {
            Content::Newtype(v) => *v,
            other => other,
        }
    }

    pub fn deserialize_seq(self) -> (r: Result<SeqDeserializer, Error>)
        ensures
            match seq_of(self.content) {
                Ok(s) => r matches Ok(d) && d.wf() && d.remaining() == s && d.count() == 0,
                Err(e) => r matches Err(err) && err@ == e,
            },
    {
        match self.content {
            Content::Sequence(v) => Ok(SeqDeserializer::new(v)),
            _ => Err(self.invalid_type(Expected::Sequence)),
        }
    }

    pub fn deserialize_map(self) -> (r: Result<MapDeserializer, Error>)
        ensures
            match map_of(self.content) {
                Ok(s) => r matches Ok(d) && d.wf() && d.remaining() == s && d.count() == 0,
                Err(e) => r matches Err(err) && err@ == e,
            },
    {
        match self.content {
            Content::Mapping(v) => Ok(MapDeserializer::new(v)),
            _ => Err(self.invalid_type(Expected::Mapping)),
        }
    }

    /// A struct is read from a map of its fields or a sequence of them.
    pub fn deserialize_struct(self) -> (r: Result<Fields, Error>)
        ensures
            match self.content {
                Content::Mapping(v) => r matches Ok(Fields::Named(d)) && d.wf() && d.remaining()
                    == v@ && d.count() == 0,
                Content::Sequence(v) => r matches Ok(Fields::Positional(d)) && d.wf()
                    && d.remaining() == v@ && d.count() == 0,
                _ => r matches Err(err) && err@ == wrong_type(self.content, Expected::Struct),
            },
    {
        match self.content {
            Content::Mapping(v) => Ok(Fields::Named(MapDeserializer::new(v))),
            Content::Sequence(v) => Ok(Fields::Positional(SeqDeserializer::new(v))),
            _ => Err(self.invalid_type(Expected::Struct)),
        }
    }

    pub fn deserialize_enum(self) -> (r: Result<EnumDeserializer, Error>)
        ensures
            match enum_of(self.content) {
                Ok(p) => r matches Ok(d) && d.variant == p.0 && d.value == p.1,
                Err(e) => r matches Err(err) && err@ == e,
            },
    {
        match self.content {
            Content::Mapping(mut v) => {
                if v.len() != 1 {
                    return Err(
                        Error::InvalidValue { unexpected: Kind::Mapping, expected: Expected::SingleKeyMap },
                    );
                }
                let (variant, value) = v.remove(0);
                Ok(EnumDeserializer { variant, value: Some(value) })
            },
            Content::String(s) => Ok(EnumDeserializer { variant: Content::String(s), value: None }),
            other => Err(Error::invalid_type(other.unexpected(), Expected::StringOrMap)),
        }
    }
}

impl EnumDeserializer {
    /// A unit variant carries no data, or a unit.
    pub fn unit_variant(self) -> (r: Result<(), Error>)
        ensures
            match self.value {
                None => r is Ok,
                Some(v) => same_value(r, unit_of(v)),
            },
    {
        match self.value {
            None => Ok(()),
            Some(v) => ContentDeserializer::new(v).deserialize_unit(),
        }
    }

    pub fn newtype_variant(self) -> (r: Result<Content, Error>)
        ensures
            match self.value {
                None => r matches Err(e) && e@ == ErrorView::InvalidType(
                    Kind::UnitVariant,
                    ExpectedView::Other(Expected::NewtypeVariant),
                ),
                Some(v) => r == Ok::<Content, Error>(v),
            },
    {
        match self.value {
            None => Err(Error::invalid_type(Kind::UnitVariant, Expected::NewtypeVariant)),
            Some(v) => Ok(v),
        }
    }

    pub fn tuple_variant(self) -> (r: Result<SeqDeserializer, Error>)
        ensures
            match self.value {
                None => r matches Err(e) && e@ == ErrorView::InvalidType(
                    Kind::UnitVariant,
                    ExpectedView::Other(Expected::TupleVariant),
                ),
                Some(Content::Sequence(v)) => r matches Ok(d) && d.wf() && d.remaining() == v@
                    && d.count() == 0,
                Some(other) => r matches Err(e) && e@ == wrong_type(other, Expected::TupleVariant),
            },
    {
        match self.value {
            None => Err(Error::invalid_type(Kind::UnitVariant, Expected::TupleVariant)),
            Some(Content::Sequence(v)) => Ok(SeqDeserializer::new(v)),
            Some(other) => Err(Error::invalid_type(other.unexpected(), Expected::TupleVariant)),
        }
    }

    pub fn struct_variant(self) -> (r: Result<Fields, Error>)
        ensures
            match self.value {
                None => r matches Err(e) && e@ == ErrorView::InvalidType(
                    Kind::UnitVariant,
                    ExpectedView::Other(Expected::StructVariant),
                ),
                Some(Content::Mapping(v)) => r matches Ok(Fields::Named(d)) && d.wf()
                    && d.remaining() == v@ && d.count() == 0,
                Some(Content::Sequence(v)) => r matches Ok(Fields::Positional(d)) && d.wf()
                    && d.remaining() == v@ && d.count() == 0,
                Some(other) => r matches Err(e) && e@ == wrong_type(other, Expected::StructVariant),
            },
    {
        match self.value {
            None => Err(Error::invalid_type(Kind::UnitVariant, Expected::StructVariant)),
            Some(Content::Mapping(v)) => Ok(Fields::Named(MapDeserializer::new(v))),
            Some(Content::Sequence(v)) => Ok(Fields::Positional(SeqDeserializer::new(v))),
            Some(other) => Err(Error::invalid_type(other.unexpected(), Expected::StructVariant)),
        }
    }
}

} // verus!
