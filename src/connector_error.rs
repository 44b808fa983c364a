use vstd::prelude::*;

verus! {

/// Every way in which a native column type can fail validation against a
/// connector's capabilities.
#[derive(Debug)]
pub enum ErrorKind {
    ConnectorNotSupportedForNativeTypes { connector_name: String },
    InvalidPrefixForNativeTypes { given_prefix: String, expected_prefix: String, suggestion: String },
    IncompatibleNativeType { native_type: String, field_type: String, expected_types: String },
    DuplicateAttributeError { attribute_name: String },
    NativeTypeNameUnknown { native_type: String, connector_name: String },
    ArgumentCountMisMatchError { native_type: String, required_count: usize, given_count: usize },
    OptionalArgumentCountMismatchError {
        native_type: String,
        optional_count: usize,
        given_count: usize,
    },
    NativeFlagsPreviewFeatureDisabled,
    IncompatibleNativeTypeWithUniqueAttribute { native_type: String, connector_name: String },
    IncompatibleNativeTypeWithIdAttribute { native_type: String, connector_name: String },
    IncompatibleNativeTypeWithIndexAttribute { native_type: String, connector_name: String },
    ValueParserError { expected_type: String, parser_error: String, raw: String },
    ScaleLargerThanPrecisionError { native_type: String, connector_name: String },
    IncompatibleSequentialTypeWithStaticDefaultValue { native_type: String, connector_name: String },
    ArgumentOutOfRangeError { native_type: String, connector_name: String, message: String },
}

/// A native-type validation failure.
#[derive(Debug)]
pub struct ConnectorError {
    /// The error information for internal use.
    pub kind: ErrorKind,
}

/// Builds errors that all concern one rendered native type on one connector.
pub struct ConnectorErrorFactory {
    pub native_type: String,
    pub connector: String,
}

impl ConnectorErrorFactory {
    /// A factory for errors about the rendered native type `native_type` on `connector`.
    pub fn new(native_type: String, connector: String) -> (r: Self)
        ensures
            r.native_type == native_type,
            r.connector == connector,
    {
        ConnectorErrorFactory { native_type, connector }
    }

    pub fn new_scale_larger_than_precision_error(self) -> (r: Result<(), ConnectorError>)
        ensures
            r == Err::<(), ConnectorError>(
                ConnectorError {
                    kind: ErrorKind::ScaleLargerThanPrecisionError {
                        native_type: self.native_type,
                        connector_name: self.connector,
                    },
                },
            ),
    {
        Err(
            ConnectorError::from_kind(
                ErrorKind::ScaleLargerThanPrecisionError {
                    native_type: self.native_type,
                    connector_name: self.connector,
                },
            ),
        )
    }

    pub fn new_incompatible_native_type_with_index(self) -> (r: Result<(), ConnectorError>)
        ensures
            r == Err::<(), ConnectorError>(
                ConnectorError {
                    kind: ErrorKind::IncompatibleNativeTypeWithIndexAttribute {
                        native_type: self.native_type,
                        connector_name: self.connector,
                    },
                },
            ),
    {
        Err(
            ConnectorError::from_kind(
                ErrorKind::IncompatibleNativeTypeWithIndexAttribute {
                    native_type: self.native_type,
                    connector_name: self.connector,
                },
            ),
        )
    }

    pub fn new_incompatible_native_type_with_unique(self) -> (r: Result<(), ConnectorError>)
        ensures
            r == Err::<(), ConnectorError>(
                ConnectorError {
                    kind: ErrorKind::IncompatibleNativeTypeWithUniqueAttribute {
                        native_type: self.native_type,
                        connector_name: self.connector,
                    },
                },
            ),
    {
        Err(
            ConnectorError::from_kind(
                ErrorKind::IncompatibleNativeTypeWithUniqueAttribute {
                    native_type: self.native_type,
                    connector_name: self.connector,
                },
            ),
        )
    }

    pub fn new_incompatible_native_type_with_id(self) -> (r: Result<(), ConnectorError>)
        ensures
            r == Err::<(), ConnectorError>(
                ConnectorError {
                    kind: ErrorKind::IncompatibleNativeTypeWithIdAttribute {
                        native_type: self.native_type,
                        connector_name: self.connector,
                    },
                },
            ),
    {
        Err(
            ConnectorError::from_kind(
                ErrorKind::IncompatibleNativeTypeWithIdAttribute {
                    native_type: self.native_type,
                    connector_name: self.connector,
                },
            ),
        )
    }

    pub fn new_incompatible_sequential_type_with_static_default_value_error(self) -> (r: Result<
        (),
        ConnectorError,
    >)
        ensures
            r == Err::<(), ConnectorError>(
                ConnectorError {
                    kind: ErrorKind::IncompatibleSequentialTypeWithStaticDefaultValue {
                        native_type: self.native_type,
                        connector_name: self.connector,
                    },
                },
            ),
    {
        Err(
            ConnectorError::from_kind(
                ErrorKind::IncompatibleSequentialTypeWithStaticDefaultValue {
                    native_type: self.native_type,
                    connector_name: self.connector,
                },
            ),
        )
    }

    pub fn new_argument_m_out_of_range_error(self, message: &str) -> (r: Result<(), ConnectorError>)
        ensures
            r matches Err(e) && e.kind matches ErrorKind::ArgumentOutOfRangeError {
                native_type: n,
                connector_name: c,
                message: m,
            } && n == self.native_type && c == self.connector && m@ == message@,
    {
        Err(
            ConnectorError::from_kind(
                ErrorKind::ArgumentOutOfRangeError {
                    native_type: self.native_type,
                    connector_name: self.connector,
                    message: message.to_string(),
                },
            ),
        )
    }
}


/// The decimal digit character of `d`, which is below ten.
pub open spec fn digit_char(d: nat) -> char {
    if d == 0 { '0' } else if d == 1 { '1' } else if d == 2 { '2' } else if d == 3 { '3' } else if d == 4 { '4' }
    else if d == 5 { '5' } else if d == 6 { '6' } else if d == 7 { '7' } else if d == 8 { '8' } else { '9' }
}

/// The decimal notation of `n`, without leading zeros.
pub open spec fn decimal(n: nat) -> Seq<char>
    decreases n,
{
    if n < 10 {
        seq![digit_char(n)]
    } else {
        decimal(n / 10) + seq![digit_char(n % 10)]
    }
}

fn digit_str(d: usize) -> (r: &'static str)
    requires
        d < 10,
    ensures
        r@ == seq![digit_char(d as nat)],
{
    proof {
        reveal_strlit("0");
        reveal_strlit("1");
        reveal_strlit("2");
        reveal_strlit("3");
        reveal_strlit("4");
        reveal_strlit("5");
        reveal_strlit("6");
        reveal_strlit("7");
        reveal_strlit("8");
        reveal_strlit("9");
    }
    let r = if d == 0 { "0" } else if d == 1 { "1" } else if d == 2 { "2" } else if d == 3 { "3" } else if d == 4 {
        "4"
    } else if d == 5 { "5" } else if d == 6 { "6" } else if d == 7 { "7" } else if d == 8 { "8" } else { "9" };
    assert(r@ =~= seq![digit_char(d as nat)]);
    r
}

/// Renders `n` in decimal.
pub fn render_usize(n: usize) -> (r: String)
    ensures
        r@ == decimal(n as nat),
    decreases n,
{
    if n < 10 {
        digit_str(n).to_string()
    } else {
        let mut r = render_usize(n / 10);
        r.append(digit_str(n % 10));
        r
    }
}

/// The diagnostic message of an error kind.
pub open spec fn message_of(k: ErrorKind) -> Seq<char> {
    match k {
        ErrorKind::ConnectorNotSupportedForNativeTypes { connector_name } => "Native types are not supported with "@ + connector_name@ + " connector"@,
        ErrorKind::InvalidPrefixForNativeTypes { given_prefix, expected_prefix, suggestion } => "The prefix "@ + given_prefix@ + " is invalid. It must be equal to the name of an existing datasource e.g. "@ + expected_prefix@ + ". Did you mean to use "@ + suggestion@ + "?"@,
        ErrorKind::IncompatibleNativeType { native_type, field_type, expected_types } => "Native type "@ + native_type@ + " is not compatible with declared field type "@ + field_type@ + ", expected field type "@ + expected_types@ + "."@,
        ErrorKind::DuplicateAttributeError { attribute_name } => "Attribute @"@ + attribute_name@ + " is defined twice."@,
        ErrorKind::NativeTypeNameUnknown { native_type, connector_name } => "Native type "@ + native_type@ + " is not supported for "@ + connector_name@ + " connector."@,
        ErrorKind::ArgumentCountMisMatchError { native_type, required_count, given_count } => "Native type "@ + native_type@ + " takes "@ + decimal(required_count as nat) + " arguments, but received "@ + decimal(given_count as nat) + "."@,
        ErrorKind::OptionalArgumentCountMismatchError { native_type, optional_count, given_count } => "Native type "@ + native_type@ + " takes "@ + decimal(optional_count as nat) + " optional arguments, but received "@ + decimal(given_count as nat) + "."@,
        ErrorKind::NativeFlagsPreviewFeatureDisabled => "Native types can only be used if the corresponding feature flag is enabled. Please add this field in your generator block: `previewFeatures = [\"nativeTypes\"]`"@,
        ErrorKind::IncompatibleNativeTypeWithUniqueAttribute { native_type, connector_name } => "Native type "@ + native_type@ + " can not be unique in "@ + connector_name@ + "."@,
        ErrorKind::IncompatibleNativeTypeWithIdAttribute { native_type, connector_name } => "Native type "@ + native_type@ + " of "@ + connector_name@ + " can not be used on a field that is `@id` or `@@id`."@,
        ErrorKind::IncompatibleNativeTypeWithIndexAttribute { native_type, connector_name } => "You can not define an index on fields with Native type "@ + native_type@ + " of "@ + connector_name@ + "."@,
        ErrorKind::ValueParserError { expected_type, parser_error, raw } => "Expected a "@ + expected_type@ + " value, but failed while parsing \""@ + raw@ + "\": "@ + parser_error@ + "."@,
        ErrorKind::ScaleLargerThanPrecisionError { native_type, connector_name } => "The scale must not be larger than the precision for the "@ + native_type@ + " native type in "@ + connector_name@ + "."@,
        ErrorKind::IncompatibleSequentialTypeWithStaticDefaultValue { native_type, connector_name } => "Sequential native type "@ + native_type@ + " of "@ + connector_name@ + " must not have a static default value."@,
        ErrorKind::ArgumentOutOfRangeError { native_type, connector_name, message } => "Argument M is out of range for Native type "@ + native_type@ + " of "@ + connector_name@ + ": "@ + message@,
    }
}

impl ErrorKind {
    /// The diagnostic message that describes this failure.
    pub fn message(&self) -> (r: String)
        ensures
            r@ == message_of(*self),
    {
        match self {
            ErrorKind::ConnectorNotSupportedForNativeTypes { connector_name } => {
                let mut r = String::new();
                r.append("Native types are not supported with ");
                r.append(connector_name.as_str());
                r.append(" connector");
                r
            },
            ErrorKind::InvalidPrefixForNativeTypes { given_prefix, expected_prefix, suggestion } => {
                let mut r = String::new();
                r.append("The prefix ");
                r.append(given_prefix.as_str());
                r.append(" is invalid. It must be equal to the name of an existing datasource e.g. ");
                r.append(expected_prefix.as_str());
                r.append(". Did you mean to use ");
                r.append(suggestion.as_str());
                r.append("?");
                r
            },
            ErrorKind::IncompatibleNativeType { native_type, field_type, expected_types } => {
                let mut r = String::new();
                r.append("Native type ");
                r.append(native_type.as_str());
                r.append(" is not compatible with declared field type ");
                r.append(field_type.as_str());
                r.append(", expected field type ");
                r.append(expected_types.as_str());
                r.append(".");
                r
            },
            ErrorKind::DuplicateAttributeError { attribute_name } => {
                let mut r = String::new();
                r.append("Attribute @");
                r.append(attribute_name.as_str());
                r.append(" is defined twice.");
                r
            },
            ErrorKind::NativeTypeNameUnknown { native_type, connector_name } => {
                let mut r = String::new();
                r.append("Native type ");
                r.append(native_type.as_str());
                r.append(" is not supported for ");
                r.append(connector_name.as_str());
                r.append(" connector.");
                r
            },
            ErrorKind::ArgumentCountMisMatchError { native_type, required_count, given_count } => {
                let mut r = String::new();
                r.append("Native type ");
                r.append(native_type.as_str());
                r.append(" takes ");
                let digits = render_usize(*required_count);
                r.append(digits.as_str());
                r.append(" arguments, but received ");
                let digits = render_usize(*given_count);
                r.append(digits.as_str());
                r.append(".");
                r
            },
            ErrorKind::OptionalArgumentCountMismatchError { native_type, optional_count, given_count } => {
                let mut r = String::new();
                r.append("Native type ");
                r.append(native_type.as_str());
                r.append(" takes ");
                let digits = render_usize(*optional_count);
                r.append(digits.as_str());
                r.append(" optional arguments, but received ");
                let digits = render_usize(*given_count);
                r.append(digits.as_str());
                r.append(".");
                r
            },
            ErrorKind::NativeFlagsPreviewFeatureDisabled => {
                let mut r = String::new();
                r.append("Native types can only be used if the corresponding feature flag is enabled. Please add this field in your generator block: `previewFeatures = [\"nativeTypes\"]`");
                r
            },
            ErrorKind::IncompatibleNativeTypeWithUniqueAttribute { native_type, connector_name } => {
                let mut r = String::new();
                r.append("Native type ");
                r.append(native_type.as_str());
                r.append(" can not be unique in ");
                r.append(connector_name.as_str());
                r.append(".");
                r
            },
            ErrorKind::IncompatibleNativeTypeWithIdAttribute { native_type, connector_name } => {
                let mut r = String::new();
                r.append("Native type ");
                r.append(native_type.as_str());
                r.append(" of ");
                r.append(connector_name.as_str());
                r.append(" can not be used on a field that is `@id` or `@@id`.");
                r
            },
            ErrorKind::IncompatibleNativeTypeWithIndexAttribute { native_type, connector_name } => {
                let mut r = String::new();
                r.append("You can not define an index on fields with Native type ");
                r.append(native_type.as_str());
                r.append(" of ");
                r.append(connector_name.as_str());
                r.append(".");
                r
            },
            ErrorKind::ValueParserError { expected_type, parser_error, raw } => {
                let mut r = String::new();
                r.append("Expected a ");
                r.append(expected_type.as_str());
                r.append(" value, but failed while parsing \"");
                r.append(raw.as_str());
                r.append("\": ");
                r.append(parser_error.as_str());
                r.append(".");
                r
            },
            ErrorKind::ScaleLargerThanPrecisionError { native_type, connector_name } => {
                let mut r = String::new();
                r.append("The scale must not be larger than the precision for the ");
                r.append(native_type.as_str());
                r.append(" native type in ");
                r.append(connector_name.as_str());
                r.append(".");
                r
            },
            ErrorKind::IncompatibleSequentialTypeWithStaticDefaultValue { native_type, connector_name } => {
                let mut r = String::new();
                r.append("Sequential native type ");
                r.append(native_type.as_str());
                r.append(" of ");
                r.append(connector_name.as_str());
                r.append(" must not have a static default value.");
                r
            },
            ErrorKind::ArgumentOutOfRangeError { native_type, connector_name, message } => {
                let mut r = String::new();
                r.append("Argument M is out of range for Native type ");
                r.append(native_type.as_str());
                r.append(" of ");
                r.append(connector_name.as_str());
                r.append(": ");
                r.append(message.as_str());
                r
            },
        }
    }
}

impl ConnectorError {
    /// The diagnostic message of this error's kind.
    pub fn message(&self) -> (r: String)
        ensures
            r@ == message_of(self.kind),
    {
        self.kind.message()
    }

    pub fn from_kind(kind: ErrorKind) -> (r: ConnectorError)
        ensures
            r.kind == kind,
    {
        ConnectorError { kind }
    }

    pub fn new_argument_count_mismatch_error(
        native_type: &str,
        required_count: usize,
        given_count: usize,
    ) -> (r: ConnectorError)
        ensures
            r.kind matches ErrorKind::ArgumentCountMisMatchError {
                native_type: n,
                required_count: rc,
                given_count: gc,
            } && n@ == native_type@ && rc == required_count && gc == given_count,
    {
        ConnectorError::from_kind(
            ErrorKind::ArgumentCountMisMatchError {
                native_type: native_type.to_string(),
                required_count,
                given_count,
            },
        )
    }

    pub fn new_value_parser_error(expected_type: &str, parser_error: &str, raw: &str) -> (r:
        ConnectorError)
        ensures
            r.kind matches ErrorKind::ValueParserError {
                expected_type: e,
                parser_error: p,
                raw: w,
            } && e@ == expected_type@ && p@ == parser_error@ && w@ == raw@,
    {
        ConnectorError::from_kind(
            ErrorKind::ValueParserError {
                expected_type: expected_type.to_string(),
                parser_error: parser_error.to_string(),
                raw: raw.to_string(),
            },
        )
    }
}

} // verus!
