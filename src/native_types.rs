use vstd::prelude::*;
use crate::connector_error::{ConnectorError, ConnectorErrorFactory, ErrorKind};
use crate::datamodel::ScalarType;
use crate::classify::string_is;
use crate::schema::Column;

verus! {

/// One native type that a connector knows, with its arity and the rules that
/// restrict its use.
pub struct NativeTypeConstructor {
    pub name: String,
    /// Arguments that must be given; when non-zero, exactly this many.
    pub required_args: usize,
    /// When no argument is required, at most this many may be given.
    pub optional_args: usize,
    pub scalar_type: ScalarType,
    /// The second argument (scale) may not exceed the first (precision).
    pub checks_scale: bool,
    /// The largest value the first argument may take.
    pub max_first_arg: Option<u64>,
    /// The explanation attached to an out-of-range first argument.
    pub range_message: String,
    pub unique_allowed: bool,
    pub id_allowed: bool,
    pub index_allowed: bool,
    /// Auto-increment-like: its values come from a sequence.
    pub sequential: bool,
}

/// What a connector offers in native types.
pub struct ConnectorCapabilities {
    pub connector_name: String,
    pub supports_native_types: bool,
    pub constructors: Vec<NativeTypeConstructor>,
}

/// The attributes a field carries that a native type may be incompatible with.
#[derive(Clone, Copy)]
pub struct FieldAttributes {
    pub is_unique: bool,
    pub is_id: bool,
    pub is_indexed: bool,
    pub has_static_default: bool,
}

/// The outcome of validating a column's native type.
pub enum NativeTypeCheck {
    Valid(ScalarType),
    ConnectorNotSupported,
    NameUnknown,
    ArgumentCount,
    OptionalArgumentCount,
    ScaleLargerThanPrecision,
    ArgumentOutOfRange,
    UniqueIncompatible,
    IdIncompatible,
    IndexIncompatible,
    SequentialWithDefault,
    DefaultUnparsable,
}

/// The index of the first constructor at or after `i` named `n`, if any.
pub open spec fn first_constructor_from(s: Seq<NativeTypeConstructor>, n: Seq<char>, i: int) -> Option<int>
    decreases s.len() - i,
{
    if i < 0 || i >= s.len() {
        None
    } else if s[i].name@ == n {
        Some(i)
    } else {
        first_constructor_from(s, n, i + 1)
    }
}

proof fn lemma_first_constructor_in_range(s: Seq<NativeTypeConstructor>, n: Seq<char>, i: int)
    ensures
        first_constructor_from(s, n, i) matches Some(k) ==> i <= k < s.len() && s[k].name@ == n,
    decreases s.len() - i,
{
    if 0 <= i < s.len() && s[i].name@ != n {
        lemma_first_constructor_in_range(s, n, i + 1);
    }
}

/// The outcome of checking the argument list and the attributes against one constructor.
pub open spec fn constructor_check(c: NativeTypeConstructor, args: Seq<u64>, attrs: FieldAttributes) -> NativeTypeCheck {
    if c.required_args > 0 && args.len() != c.required_args {
        NativeTypeCheck::ArgumentCount
    } else if c.required_args == 0 && args.len() > c.optional_args {
        NativeTypeCheck::OptionalArgumentCount
    } else if c.checks_scale && args.len() == 2 && args[1] > args[0] {
        NativeTypeCheck::ScaleLargerThanPrecision
    } else if c.max_first_arg is Some && args.len() >= 1 && args[0] > c.max_first_arg->Some_0 {
        NativeTypeCheck::ArgumentOutOfRange
    } else if attrs.is_unique && !c.unique_allowed {
        NativeTypeCheck::UniqueIncompatible
    } else if attrs.is_id && !c.id_allowed {
        NativeTypeCheck::IdIncompatible
    } else if attrs.is_indexed && !c.index_allowed {
        NativeTypeCheck::IndexIncompatible
    } else if c.sequential && attrs.has_static_default {
        NativeTypeCheck::SequentialWithDefault
    } else {
        NativeTypeCheck::Valid(c.scalar_type)
    }
}

/// The outcome of validating a column's native type against a connector, the
/// checks taken in a fixed order.
pub open spec fn native_type_check(caps: ConnectorCapabilities, col: Column, attrs: FieldAttributes) -> NativeTypeCheck {
    if !caps.supports_native_types {
        NativeTypeCheck::ConnectorNotSupported
    } else {
        match first_constructor_from(caps.constructors@, col.tpe.native_name@, 0) {
            None => NativeTypeCheck::NameUnknown,
            Some(i) => match constructor_check(caps.constructors@[i], col.tpe.args@, attrs) {
                NativeTypeCheck::Valid(t) => if col.default is Some && !default_parses(t, col.default->Some_0@) {
                    NativeTypeCheck::DefaultUnparsable
                } else {
                    NativeTypeCheck::Valid(t)
                },
                other => other,
            },
        }
    }
}

pub open spec fn is_digit(c: char) -> bool {
    '0' <= c <= '9'
}

/// An optional `-` followed by one or more decimal digits.
pub open spec fn is_integer_text(d: Seq<char>) -> bool {
    let start: int = if d.len() >= 1 && d[0] == '-' { 1 } else { 0 };
    d.len() > start && forall|i: int| start <= i < d.len() ==> is_digit(#[trigger] d[i])
}

/// Whether a default expression parses as a value of the scalar kind: an
/// integer for the integer kinds, `true` or `false` for booleans; other kinds
/// take any text.
pub open spec fn default_parses(t: ScalarType, d: Seq<char>) -> bool {
    match t {
        ScalarType::Int | ScalarType::BigInt => is_integer_text(d),
        ScalarType::Boolean => d == "true"@ || d == "false"@,
        _ => true,
    }
}

/// The name of the value kind a default is expected to be, and the failure
/// text when it is not.
pub open spec fn value_kind_name(t: ScalarType) -> Seq<char> {
    match t {
        ScalarType::Int => "Int"@,
        ScalarType::BigInt => "BigInt"@,
        _ => "Boolean"@,
    }
}

pub open spec fn value_parse_failure(t: ScalarType) -> Seq<char> {
    match t {
        ScalarType::Boolean => "provided string was not `true` or `false`"@,
        _ => "invalid digit found in string"@,
    }
}

fn integer_text(d: &String) -> (r: bool)
    ensures
        r == is_integer_text(d@),
{
    let s = d.as_str();
    let n = s.unicode_len();
    let start: usize = if n >= 1 && s.get_char(0) == '-' { 1 } else { 0 };
    if n <= start {
        return false;
    }
    let mut i: usize = start;
    while i < n
        invariant
            start <= i <= n,
            n == d@.len(),
            s@ == d@,
            start == (if d@.len() >= 1 && d@[0] == '-' { 1int } else { 0int }),
            forall|k: int| start <= k < i ==> is_digit(#[trigger] d@[k]),
        decreases n - i,
    {
        let c = s.get_char(i);
        if !('0' <= c && c <= '9') {
            return false;
        }
        i = i + 1;
    }
    true
}

fn parses_as(t: ScalarType, d: &String) -> (r: bool)
    ensures
        r == default_parses(t, d@),
{
    match t {
        ScalarType::Int | ScalarType::BigInt => integer_text(d),
        ScalarType::Boolean => string_is(d, "true") || string_is(d, "false"),
        _ => true,
    }
}

fn value_parser_error(t: ScalarType, raw: &String) -> (r: ConnectorError)
    ensures
        r.kind matches ErrorKind::ValueParserError { expected_type, parser_error, raw: w } && expected_type@
            == value_kind_name(t) && parser_error@ == value_parse_failure(t) && w@ == raw@,
{
    let expected = match t {
        ScalarType::Int => "Int",
        ScalarType::BigInt => "BigInt",
        _ => "Boolean",
    };
    let failure = match t {
        ScalarType::Boolean => "provided string was not `true` or `false`",
        _ => "invalid digit found in string",
    };
    ConnectorError::new_value_parser_error(expected, failure, raw.as_str())
}

/// The error kind reports the failure `c` of the column's type on the connector.
pub open spec fn reports(k: ErrorKind, c: NativeTypeCheck, caps: ConnectorCapabilities, col: Column) -> bool {
    let t = col.tpe.full_data_type@;
    let cn = caps.connector_name@;
    let ctor = caps.constructors@[first_constructor_from(caps.constructors@, col.tpe.native_name@, 0)->Some_0];
    match c {
        NativeTypeCheck::Valid(_) => false,
        NativeTypeCheck::DefaultUnparsable => k matches ErrorKind::ValueParserError {
            expected_type,
            parser_error,
            raw,
        } && expected_type@ == value_kind_name(ctor.scalar_type) && parser_error@ == value_parse_failure(ctor.scalar_type)
            && col.default is Some && raw@ == col.default->Some_0@,
        NativeTypeCheck::ConnectorNotSupported => k matches ErrorKind::ConnectorNotSupportedForNativeTypes {
            connector_name,
        } && connector_name@ == cn,
        NativeTypeCheck::NameUnknown => k matches ErrorKind::NativeTypeNameUnknown {
            native_type,
            connector_name,
        } && native_type@ == t && connector_name@ == cn,
        NativeTypeCheck::ArgumentCount => k matches ErrorKind::ArgumentCountMisMatchError {
            native_type,
            required_count,
            given_count,
        } && native_type@ == t && required_count == ctor.required_args && given_count == col.tpe.args@.len(),
        NativeTypeCheck::OptionalArgumentCount => k matches ErrorKind::OptionalArgumentCountMismatchError {
            native_type,
            optional_count,
            given_count,
        } && native_type@ == t && optional_count == ctor.optional_args && given_count == col.tpe.args@.len(),
        NativeTypeCheck::ScaleLargerThanPrecision => k matches ErrorKind::ScaleLargerThanPrecisionError {
            native_type,
            connector_name,
        } && native_type@ == t && connector_name@ == cn,
        NativeTypeCheck::ArgumentOutOfRange => k matches ErrorKind::ArgumentOutOfRangeError {
            native_type,
            connector_name,
            message,
        } && native_type@ == t && connector_name@ == cn && message@ == ctor.range_message@,
        NativeTypeCheck::UniqueIncompatible => k matches ErrorKind::IncompatibleNativeTypeWithUniqueAttribute {
            native_type,
            connector_name,
        } && native_type@ == t && connector_name@ == cn,
        NativeTypeCheck::IdIncompatible => k matches ErrorKind::IncompatibleNativeTypeWithIdAttribute {
            native_type,
            connector_name,
        } && native_type@ == t && connector_name@ == cn,
        NativeTypeCheck::IndexIncompatible => k matches ErrorKind::IncompatibleNativeTypeWithIndexAttribute {
            native_type,
            connector_name,
        } && native_type@ == t && connector_name@ == cn,
        NativeTypeCheck::SequentialWithDefault => k matches ErrorKind::IncompatibleSequentialTypeWithStaticDefaultValue {
            native_type,
            connector_name,
        } && native_type@ == t && connector_name@ == cn,
    }
}

fn find_constructor(caps: &ConnectorCapabilities, name: &String) -> (r: Option<usize>)
    ensures
        r is None ==> first_constructor_from(caps.constructors@, name@, 0) is None,
        r matches Some(i) ==> first_constructor_from(caps.constructors@, name@, 0) == Some(i as int),
{
    let mut i: usize = 0;
    while i < caps.constructors.len()
        invariant
            0 <= i <= caps.constructors@.len(),
            first_constructor_from(caps.constructors@, name@, 0) == first_constructor_from(
                caps.constructors@,
                name@,
                i as int,
            ),
        decreases caps.constructors@.len() - i,
    {
        if caps.constructors[i].name == *name {
            return Some(i);
        }
        i = i + 1;
    }
    None
}

/// Validates a column's native type against the connector's capabilities and
/// resolves its scalar kind.
pub fn validate_native_type(caps: &ConnectorCapabilities, col: &Column, attrs: FieldAttributes) -> (r:
    Result<ScalarType, ConnectorError>)
    ensures
        match native_type_check(*caps, *col, attrs) {
            NativeTypeCheck::Valid(t) => r == Ok::<ScalarType, ConnectorError>(t),
            c => r is Err && reports(r->Err_0.kind, c, *caps, *col),
        },
{
    let factory = ConnectorErrorFactory {
        native_type: col.tpe.full_data_type.clone(),
        connector: caps.connector_name.clone(),
    };
    if !caps.supports_native_types {
        return Err(
            ConnectorError::from_kind(
                ErrorKind::ConnectorNotSupportedForNativeTypes { connector_name: factory.connector },
            ),
        );
    }
    let idx = match find_constructor(caps, &col.tpe.native_name) {
        None => {
            return Err(
                ConnectorError::from_kind(
                    ErrorKind::NativeTypeNameUnknown {
                        native_type: factory.native_type,
                        connector_name: factory.connector,
                    },
                ),
            );
        },
        Some(i) => i,
    };
    proof {
        lemma_first_constructor_in_range(caps.constructors@, col.tpe.native_name@, 0);
    }
    let c = &caps.constructors[idx];
    let args = &col.tpe.args;
    if c.required_args > 0 && args.len() != c.required_args {
        let e = ConnectorError::new_argument_count_mismatch_error(
            col.tpe.full_data_type.as_str(),
            c.required_args,
            args.len(),
        );
        return Err(e);
    }
    if c.required_args == 0 && args.len() > c.optional_args {
        return Err(
            ConnectorError::from_kind(
                ErrorKind::OptionalArgumentCountMismatchError {
                    native_type: factory.native_type,
                    optional_count: c.optional_args,
                    given_count: args.len(),
                },
            ),
        );
    }
    if c.checks_scale && args.len() == 2 && args[1] > args[0] {
        return factory.new_scale_larger_than_precision_error().map(|u: ()| c.scalar_type);
    }
    if let Some(m) = c.max_first_arg {
        if args.len() >= 1 && args[0] > m {
            return factory.new_argument_m_out_of_range_error(c.range_message.as_str()).map(|u: ()| c.scalar_type);
        }
    }
    if attrs.is_unique && !c.unique_allowed {
        return factory.new_incompatible_native_type_with_unique().map(|u: ()| c.scalar_type);
    }
    if attrs.is_id && !c.id_allowed {
        return factory.new_incompatible_native_type_with_id().map(|u: ()| c.scalar_type);
    }
    if attrs.is_indexed && !c.index_allowed {
        return factory.new_incompatible_native_type_with_index().map(|u: ()| c.scalar_type);
    }
    if c.sequential && attrs.has_static_default {
        return factory.new_incompatible_sequential_type_with_static_default_value_error().map(|u: ()| c.scalar_type);
    }
    if let Some(d) = &col.default {
        if !parses_as(c.scalar_type, d) {
            return Err(value_parser_error(c.scalar_type, d));
        }
    }
    Ok(c.scalar_type)
}

} // verus!
