//! The header fields that every response carries, written into hyper's
//! header table.

use hyper::header::HeaderValue;
use hyper::HeaderMap;
use vstd::prelude::*;
use vstd::string::*;

verus! {

#[verifier::external_type_specification]
#[verifier::external_body]
#[verifier::reject_recursive_types(T)]
pub struct ExHeaderMap<T>(hyper::HeaderMap<T>);

#[verifier::external_type_specification]
#[verifier::external_body]
pub struct ExHeaderValue(hyper::header::HeaderValue);

/// The fields of a header table as a mathematical value: for each field name,
/// in lower case, the values of the field in order, each as its bytes.
pub type Fields = Map<Seq<char>, Seq<Seq<u8>>>;

/// What a header table holds.
pub uninterp spec fn header_fields(headers: HeaderMap<HeaderValue>) -> Fields;

/// No field at all.
pub open spec fn no_fields() -> Fields {
    Map::empty()
}

/// Whether setting a field was refused for its value.
pub open spec fn is_invalid_value(r: Result<(), HeaderError>) -> bool {
    r matches Err(HeaderError::InvalidValue)
}

/// Whether setting a field was refused by the table.
pub open spec fn is_full(r: Result<(), HeaderError>) -> bool {
    r matches Err(HeaderError::Full)
}

/// Whether a table holds fewer than 1024 field names. Such a table is far
/// from the size at which it refuses a field.
pub open spec fn has_room(fields: Fields) -> bool {
    fields.dom().finite() && fields.dom().len() < 1024
}

/// Whether a table holds fewer than 1000 field names, so that it has room
/// for the fields of a response.
pub open spec fn has_room_for_response(fields: Fields) -> bool {
    fields.dom().finite() && fields.dom().len() < 1000
}

/// The header fields that this library sets.
#[derive(Clone, Copy, Debug, PartialEq, Eq, Structural)]
pub enum Field {
    Allow,
    Accept,
    AccessControlAllowMethods,
    AccessControlAllowHeaders,
    AccessControlAllowOrigin,
    Vary,
}

impl Field {
    /// The name of the field, in lower case.
    pub open spec fn name(self) -> Seq<char> {
        match self {
            Field::Allow => "allow"@,
            Field::Accept => "accept"@,
            Field::AccessControlAllowMethods => "access-control-allow-methods"@,
            Field::AccessControlAllowHeaders => "access-control-allow-headers"@,
            Field::AccessControlAllowOrigin => "access-control-allow-origin"@,
            Field::Vary => "vary"@,
        }
    }
}

/// Why a header field could not be set.
#[derive(Clone, Copy, Debug, PartialEq, Eq, Structural)]
pub enum HeaderError {
    /// The value holds a byte that no header value may hold.
    InvalidValue,
    /// The table took no more fields.
    Full,
}

/// Whether a byte may stand in a header value: a tab, or anything from the
/// space upwards but the delete character.
pub open spec fn value_byte_ok(b: u8) -> bool {
    (b >= 32 && b != 127) || b == 9
}

/// Whether every byte may stand in a header value.
pub open spec fn field_value_ok(bytes: Seq<u8>) -> bool {
    forall|i: int| 0 <= i < bytes.len() ==> value_byte_ok(#[trigger] bytes[i])
}

/// The fields after `field` was set to the one value `value`.
pub open spec fn with_field(before: Fields, field: Field, value: Seq<u8>) -> Fields {
    before.insert(field.name(), seq![value])
}

/// An empty header table, from `HeaderMap::new`.
#[verifier::external_body]
pub(crate) fn new_headers() -> (headers: HeaderMap<HeaderValue>)
    ensures
        header_fields(headers) == no_fields(),
{
    HeaderMap::new()
}

/// `HeaderMap::try_insert` with the value that `HeaderValue::from_str` makes
/// of the text. `from_str` refuses the text exactly where one of its bytes is
/// no tab and is below the space or is the delete character. Where the table
/// takes the field, the field has this one value afterwards, whatever it had
/// before, and the other fields are as they were. The table refuses a field
/// only when it would have to grow beyond 32768 slots or entries, which a
/// table of fewer than 1024 names never has to. A call that fails leaves the
/// fields as they were.
#[verifier::external_body]
fn insert_field(headers: &mut HeaderMap<HeaderValue>, field: Field, value: &str) -> (r: Result<
    (),
    HeaderError,
>)
    ensures
        is_invalid_value(r) <==> !field_value_ok(value.spec_bytes()),
        r is Err ==> header_fields(*final(headers)) == header_fields(*old(headers)),
        r is Ok ==> header_fields(*final(headers)) == with_field(
            header_fields(*old(headers)),
            field,
            value.spec_bytes(),
        ),
        has_room(header_fields(*old(headers))) ==> !is_full(r),
{
    let name = match field {
        Field::Allow => hyper::header::ALLOW,
        Field::Accept => hyper::header::ACCEPT,
        Field::AccessControlAllowMethods => hyper::header::ACCESS_CONTROL_ALLOW_METHODS,
        Field::AccessControlAllowHeaders => hyper::header::ACCESS_CONTROL_ALLOW_HEADERS,
        Field::AccessControlAllowOrigin => hyper::header::ACCESS_CONTROL_ALLOW_ORIGIN,
        Field::Vary => hyper::header::VARY,
    };
    match HeaderValue::from_str(value) {
        Ok(v) => headers.try_insert(name, v).map(|_| ()).map_err(|_| HeaderError::Full),
        Err(_) => Err(HeaderError::InvalidValue),
    }
}

/// The origin that a response allows.
#[derive(Debug)]
pub enum AccessControlAllowOrigin {
    /// Any origin.
    Any,
    /// The null origin.
    Null,
    /// This origin.
    Value(String),
}

impl AccessControlAllowOrigin {
    /// The value of the header field.
    pub open spec fn text(self) -> Seq<char> {
        match self {
            AccessControlAllowOrigin::Any => "*"@,
            AccessControlAllowOrigin::Null => "null"@,
            AccessControlAllowOrigin::Value(origin) => origin@,
        }
    }

    /// The value of the header field.
    pub fn as_str(&self) -> (text: &str)
        ensures
            text@ == self.text(),
    {
        match self {
            AccessControlAllowOrigin::Any => "*",
            AccessControlAllowOrigin::Null => "null",
            AccessControlAllowOrigin::Value(origin) => origin.as_str(),
        }
    }
}

/// The bytes of a text.
pub open spec fn bytes_of(text: Seq<char>) -> Seq<u8> {
    vstd::utf8::encode_utf8(text)
}

/// The fields of a table after the fields of a response were set in it: for
/// a preflight request the methods and the content type that the server
/// takes, and where an origin is allowed, the fields that tell the browser
/// so. Each of these fields has one value; the other fields stay.
pub open spec fn response_fields(
    before: Fields,
    is_options: bool,
    cors_header: Option<Seq<char>>,
) -> Fields {
    let preflight = if is_options {
        with_field(
            with_field(before, Field::Allow, bytes_of("OPTIONS, POST"@)),
            Field::Accept,
            bytes_of("application/json"@),
        )
    } else {
        before
    };
    match cors_header {
        Some(origin) => with_field(
            with_field(
                with_field(
                    with_field(
                        preflight,
                        Field::AccessControlAllowMethods,
                        bytes_of("OPTIONS, POST"@),
                    ),
                    Field::AccessControlAllowHeaders,
                    bytes_of("origin, content-type, accept"@),
                ),
                Field::AccessControlAllowOrigin,
                bytes_of(origin),
            ),
            Field::Vary,
            bytes_of("origin"@),
        ),
        None => preflight,
    }
}

/// The fields that a response sets, with their values, in the order in which
/// they are set.
pub open spec fn planned(is_options: bool, cors_header: Option<Seq<char>>) -> Seq<
    (Field, Seq<u8>),
> {
    (if is_options {
        seq![
            (Field::Allow, bytes_of("OPTIONS, POST"@)),
            (Field::Accept, bytes_of("application/json"@)),
        ]
    } else {
        Seq::empty()
    }) + (match cors_header {
        Some(origin) => seq![
            (Field::AccessControlAllowMethods, bytes_of("OPTIONS, POST"@)),
            (Field::AccessControlAllowHeaders, bytes_of("origin, content-type, accept"@)),
            (Field::AccessControlAllowOrigin, bytes_of(origin)),
            (Field::Vary, bytes_of("origin"@)),
        ],
        None => Seq::empty(),
    })
}

/// The fields of a table after the first `k` fields of a plan were set.
pub open spec fn set_first(before: Fields, plan: Seq<(Field, Seq<u8>)>, k: nat) -> Fields
    decreases k,
{
    if k == 0 || k > plan.len() {
        before
    } else {
        with_field(set_first(before, plan, (k - 1) as nat), plan[k - 1].0, plan[k - 1].1)
    }
}

/// The mathematical value of an optional origin.
pub open spec fn origin_text(cors_header: Option<AccessControlAllowOrigin>) -> Option<Seq<char>> {
    match cors_header {
        Some(origin) => Some(origin.text()),
        None => None,
    }
}

/// Sets the fields that a response carries besides its own: see
/// [`response_fields`]. An origin that cannot stand in a header field is
/// refused before anything is set. Else the fields are set one by one, in the
/// order of [`planned`]. A table of fewer than 1000 names takes them all, and
/// so does every table where there is nothing to set. Where a table refuses
/// a field, the fields before it are set and those from it on are not.
pub fn set_response_headers(
    headers: &mut HeaderMap<HeaderValue>,
    is_options: bool,
    cors_header: Option<AccessControlAllowOrigin>,
) -> (r: Result<(), HeaderError>)
    ensures
        is_invalid_value(r) <==> (cors_header matches Some(origin) && !field_value_ok(
            bytes_of(origin.text()),
        )),
        is_invalid_value(r) ==> header_fields(*final(headers)) == header_fields(*old(headers)),
        r is Ok ==> header_fields(*final(headers)) == response_fields(
            header_fields(*old(headers)),
            is_options,
            origin_text(cors_header),
        ),
        (!is_options && cors_header is None) ==> r is Ok,
        has_room_for_response(header_fields(*old(headers))) ==> r is Ok || is_invalid_value(r),
        is_full(r) ==> exists|k: nat|
            k < planned(is_options, origin_text(cors_header)).len() && header_fields(
                *final(headers),
            ) == #[trigger] set_first(
                header_fields(*old(headers)),
                planned(is_options, origin_text(cors_header)),
                k,
            ),
{
    if let Some(origin) = &cors_header {
        if !is_field_value(origin.as_str()) {
            return Err(HeaderError::InvalidValue);
        }
    }
    let ghost before = header_fields(*headers);
    let ghost plan = planned(is_options, origin_text(cors_header));
    proof {
        lemma_constants_are_values();
        reveal_with_fuel(set_first, 7);
    }
    if is_options {
        match insert_field(headers, Field::Allow, "OPTIONS, POST") {
            Ok(()) => {},
            Err(_) => {
                assert(header_fields(*headers) == set_first(before, plan, 0));
                return Err(HeaderError::Full);
            },
        }
        match insert_field(headers, Field::Accept, "application/json") {
            Ok(()) => {},
            Err(_) => {
                assert(header_fields(*headers) == set_first(before, plan, 1));
                return Err(HeaderError::Full);
            },
        }
    }
    let ghost base: nat = if is_options {
        2
    } else {
        0
    };
    assert(header_fields(*headers) == set_first(before, plan, base));
    if let Some(origin) = cors_header {
        match insert_field(headers, Field::AccessControlAllowMethods, "OPTIONS, POST") {
            Ok(()) => {},
            Err(_) => {
                return Err(HeaderError::Full);
            },
        }
        assert(header_fields(*headers) == set_first(before, plan, base + 1));
        match insert_field(
            headers,
            Field::AccessControlAllowHeaders,
            "origin, content-type, accept",
        ) {
            Ok(()) => {},
            Err(_) => {
                return Err(HeaderError::Full);
            },
        }
        assert(header_fields(*headers) == set_first(before, plan, base + 2));
        match insert_field(headers, Field::AccessControlAllowOrigin, origin.as_str()) {
            Ok(()) => {},
            Err(_) => {
                return Err(HeaderError::Full);
            },
        }
        assert(header_fields(*headers) == set_first(before, plan, base + 3));
        match insert_field(headers, Field::Vary, "origin") {
            Ok(()) => {},
            Err(_) => {
                return Err(HeaderError::Full);
            },
        }
    }
    Ok(())
}

/// Setting all the planned fields gives the fields of a response.
pub proof fn lemma_plan_is_complete(
    before: Fields,
    is_options: bool,
    cors_header: Option<Seq<char>>,
)
    ensures
        set_first(
            before,
            planned(is_options, cors_header),
            planned(is_options, cors_header).len(),
        ) == response_fields(before, is_options, cors_header),
{
    reveal_with_fuel(set_first, 7);
}

proof fn lemma_ascii_is_value(text: Seq<char>)
    requires
        forall|i: int| 0 <= i < text.len() ==> ' ' <= #[trigger] text[i] <= '~',
    ensures
        field_value_ok(bytes_of(text)),
{
    assert(vstd::utf8::is_ascii_chars(text));
    vstd::utf8::is_ascii_chars_encode_utf8(text);
    let bytes = bytes_of(text);
    assert forall|i: int| 0 <= i < bytes.len() implies value_byte_ok(#[trigger] bytes[i]) by {
        assert(bytes[i] == text[i] as u8);
    }
}

/// The origins `*` and `null` can stand in a header field.
pub proof fn lemma_fixed_origins_are_values()
    ensures
        field_value_ok(bytes_of(AccessControlAllowOrigin::Any.text())),
        field_value_ok(bytes_of(AccessControlAllowOrigin::Null.text())),
{
    reveal_strlit("*");
    reveal_strlit("null");
    lemma_ascii_is_value("*"@);
    lemma_ascii_is_value("null"@);
}

proof fn lemma_constants_are_values()
    ensures
        field_value_ok(bytes_of("OPTIONS, POST"@)),
        field_value_ok(bytes_of("application/json"@)),
        field_value_ok(bytes_of("origin, content-type, accept"@)),
        field_value_ok(bytes_of("origin"@)),
{
    reveal_strlit("OPTIONS, POST");
    reveal_strlit("application/json");
    reveal_strlit("origin, content-type, accept");
    reveal_strlit("origin");
    lemma_ascii_is_value("OPTIONS, POST"@);
    lemma_ascii_is_value("application/json"@);
    lemma_ascii_is_value("origin, content-type, accept"@);
    lemma_ascii_is_value("origin"@);
}

/// Whether every byte of the text may stand in a header value.
pub fn is_field_value(text: &str) -> (ok: bool)
    ensures
        ok == field_value_ok(bytes_of(text@)),
{
    let bytes = text.as_bytes();
    let mut i: usize = 0;
    while i < bytes.len()
        invariant
            i <= bytes.len(),
            bytes@ == bytes_of(text@),
            forall|j: int| 0 <= j < i ==> value_byte_ok(#[trigger] bytes@[j]),
        decreases bytes.len() - i,
    {
        let b = bytes[i];
        if !((b >= 32 && b != 127) || b == 9) {
            return false;
        }
        i = i + 1;
    }
    true
}

} // verus!
