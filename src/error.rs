use vstd::prelude::*;

verus! {

/// The shape of a value that a decode step did not accept.
#[derive(Debug, PartialEq, Eq)]
pub enum Kind {
    Bool(bool),
    Unsigned(u64),
    Signed(i64),
    Char(char),
    Str(String),
    Bytes,
    Option,
    Unit,
    NewtypeStruct,
    UnitVariant,
    Sequence,
    Mapping,
}

/// What a decode step was looking for when it failed.
#[derive(Debug, PartialEq, Eq)]
pub enum Expected {
    /// A value of the interface with this name (`dyn Name`).
    TraitObject(String),
    /// A key of a map that holds a value of the interface with this name.
    KeyOf(String),
    /// The tag or the content field of an adjacently tagged value.
    FieldName,
    /// The key under which a value that is not map-shaped is stored.
    DefaultKey,
    Bool,
    Integer,
    Char,
    Str,
    Bytes,
    Unit,
    Sequence,
    Mapping,
    Struct,
    /// A sequence with this many elements.
    SeqOfLen(usize),
    /// A map with this many entries.
    MapOfLen(usize),
    /// A map with exactly one entry.
    SingleKeyMap,
    StringOrMap,
    TupleVariant,
    StructVariant,
    UnitVariant,
    NewtypeVariant,
}

/// Everything that can go wrong while decoding a tagged value.
#[derive(Debug, PartialEq, Eq)]
pub enum Error {
    /// The tag names no registered implementer; `known` lists all names.
    UnknownVariant { variant: String, known: Vec<String> },
    /// The tag was registered by more than one implementer.
    NonUniqueTag { trait_object: String, variant: String },
    MissingField(String),
    DuplicateField(String),
    UnknownField { field: String, allowed: Vec<String> },
    InvalidLength { len: usize, expected: Expected },
    InvalidType { unexpected: Kind, expected: Expected },
    InvalidValue { unexpected: Kind, expected: Expected },
    /// An externally tagged value was an empty map.
    ExpectedExternallyTagged(String),
    /// An enum was asked of a map that has no entry left.
    ExpectedEnum(String),
}


/// `Expected` with its names as character sequences.
pub enum ExpectedView {
    TraitObject(Seq<char>),
    KeyOf(Seq<char>),
    Other(Expected),
}

impl Expected {
    pub open spec fn view(&self) -> ExpectedView {
        match self {
            Expected::TraitObject(s) => ExpectedView::TraitObject(s@),
            Expected::KeyOf(s) => ExpectedView::KeyOf(s@),
            _ => ExpectedView::Other(*self),
        }
    }
}

/// `Error` with its names as character sequences.
pub enum ErrorView {
    UnknownVariant(Seq<char>, Seq<Seq<char>>),
    NonUniqueTag(Seq<char>, Seq<char>),
    MissingField(Seq<char>),
    DuplicateField(Seq<char>),
    UnknownField(Seq<char>, Seq<Seq<char>>),
    InvalidLength(usize, ExpectedView),
    InvalidType(Kind, ExpectedView),
    InvalidValue(Kind, ExpectedView),
    ExpectedExternallyTagged(Seq<char>),
    ExpectedEnum(Seq<char>),
}

pub open spec fn strings_view(v: Seq<String>) -> Seq<Seq<char>> {
    v.map_values(|s: String| s@)
}

impl Error {
    pub open spec fn view(&self) -> ErrorView {
        match self {
            Error::UnknownVariant { variant, known } => ErrorView::UnknownVariant(
                variant@,
                strings_view(known@),
            ),
            Error::NonUniqueTag { trait_object, variant } => ErrorView::NonUniqueTag(
                trait_object@,
                variant@,
            ),
            Error::MissingField(s) => ErrorView::MissingField(s@),
            Error::DuplicateField(s) => ErrorView::DuplicateField(s@),
            Error::UnknownField { field, allowed } => ErrorView::UnknownField(
                field@,
                strings_view(allowed@),
            ),
            Error::InvalidLength { len, expected } => ErrorView::InvalidLength(*len, expected@),
            Error::InvalidType { unexpected, expected } => ErrorView::InvalidType(
                *unexpected,
                expected@,
            ),
            Error::InvalidValue { unexpected, expected } => ErrorView::InvalidValue(
                *unexpected,
                expected@,
            ),
            Error::ExpectedExternallyTagged(s) => ErrorView::ExpectedExternallyTagged(s@),
            Error::ExpectedEnum(s) => ErrorView::ExpectedEnum(s@),
        }
    }

    pub fn missing_field(field: &str) -> (e: Error)
        ensures
            e@ == ErrorView::MissingField(field@),
    {
        Error::MissingField(field.to_owned())
    }

    pub fn duplicate_field(field: &str) -> (e: Error)
        ensures
            e@ == ErrorView::DuplicateField(field@),
    {
        Error::DuplicateField(field.to_owned())
    }

    pub fn invalid_type(unexpected: Kind, expected: Expected) -> (e: Error)
        ensures
            e@ == ErrorView::InvalidType(unexpected, expected@),
    {
        Error::InvalidType { unexpected, expected }
    }

    pub fn invalid_length(len: usize, expected: Expected) -> (e: Error)
        ensures
            e@ == ErrorView::InvalidLength(len, expected@),
    {
        Error::InvalidLength { len, expected }
    }
}

/// The same outcome, seen through `view` on success and through the error's
/// view on failure.
pub open spec fn same_outcome<T, V>(
    r: Result<T, Error>,
    s: Result<V, ErrorView>,
    view: spec_fn(T) -> V,
) -> bool {
    match (r, s) {
        (Ok(a), Ok(b)) => view(a) == b,
        (Err(e), Err(v)) => e@ == v,
        _ => false,
    }
}

} // verus!
