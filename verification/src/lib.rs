use vstd::prelude::*;
use vstd::string::StringExecFns;

pub mod api;
pub mod client;
pub mod config;
pub mod duration;
pub mod field;
pub mod frame;
pub mod hardware;
pub mod net;
pub mod ranges;
pub mod resource;
pub mod resources;
pub mod sets;
pub mod supplier;
pub mod text;
pub mod value;
pub mod words;

verus! {

/// The two renderings a value can have on the wire: the binary management
/// protocol (`Api`) or the textual configuration-script dialect (`Cli`).
#[derive(Clone, Copy, PartialEq, Eq, Structural, Debug)]
pub enum ValueFormat {
    Api,
    Cli,
}

/// Every failure the library reports, as one tagged type so that callers can
/// tell exactly which attribute or conversation step went wrong.
#[derive(Debug)]
pub enum RosError {
    /// An I/O failure on the underlying connection, as reported by the caller.
    Transport(String),
    SimpleMessage(String),
    ParseIntError(String),
    ParseBoolError(String),
    AddrParseError(String),
    IpNetAddrParseError(String),
    MacParseError(String),
    /// Several row-level failures collected during one conversation.
    Umbrella(Vec<RosError>),
    FieldWriteError { field_name: String, field_value: String, error: Box<RosError> },
    FieldMissingError { field_name: String, field_value: String },
    StructureAccessError { structure: String, error: Box<RosError> },
}

/// The one-line report of a failure.
pub open spec fn message_spec(e: RosError) -> Seq<char>
    decreases e,
{
    match e {
        RosError::Transport(m) => "transport failure: "@ + m@,
        RosError::SimpleMessage(m) => m@,
        RosError::ParseIntError(v) => "malformed integer: "@ + v@,
        RosError::ParseBoolError(v) => "malformed boolean: "@ + v@,
        RosError::AddrParseError(v) => "malformed address: "@ + v@,
        RosError::IpNetAddrParseError(v) => "malformed network: "@ + v@,
        RosError::MacParseError(v) => "malformed hardware address: "@ + v@,
        RosError::Umbrella(errors) => "failures collected: "@ + crate::text::spec_dec_digits(
            errors@.len(),
        ),
        RosError::FieldWriteError { field_name, field_value, error } => "field "@
            + field_name@ + " rejected value "@ + field_value@ + ": "@ + message_spec(*error),
        RosError::FieldMissingError { field_name, field_value } => "unknown field "@
            + field_name@ + " carrying value "@ + field_value@,
        RosError::StructureAccessError { structure, error } => "failure on "@ + structure@
            + ": "@ + message_spec(*error),
    }
}

impl RosError {
    pub fn field_missing_error(field_name: String, field_value: String) -> (r: RosError)
        ensures
            r matches RosError::FieldMissingError { field_name: n, field_value: v }
                && n@ == field_name@ && v@ == field_value@,
    {
        RosError::FieldMissingError { field_name, field_value }
    }

    /// Renders the failure as one line of text.
    pub fn to_message(&self) -> (r: String)
        ensures
            r@ == message_spec(*self),
        decreases *self,
    {
        match self {
            RosError::Transport(m) => prefixed("transport failure: ", m.as_str()),
            RosError::SimpleMessage(m) => m.clone(),
            RosError::ParseIntError(v) => prefixed("malformed integer: ", v.as_str()),
            RosError::ParseBoolError(v) => prefixed("malformed boolean: ", v.as_str()),
            RosError::AddrParseError(v) => prefixed("malformed address: ", v.as_str()),
            RosError::IpNetAddrParseError(v) => prefixed("malformed network: ", v.as_str()),
            RosError::MacParseError(v) => prefixed(
                "malformed hardware address: ",
                v.as_str(),
            ),
            RosError::Umbrella(errors) => {
                let digits = crate::text::format_u64(errors.len() as u64);
                prefixed("failures collected: ", digits.as_str())
            },
            RosError::FieldWriteError { field_name, field_value, error } => {
                let mut out = prefixed("field ", field_name.as_str());
                out.append(" rejected value ");
                out.append(field_value.as_str());
                out.append(": ");
                let inner = error.to_message();
                out.append(inner.as_str());
                proof {
                    assert(out@ =~= message_spec(*self));
                }
                out
            },
            RosError::FieldMissingError { field_name, field_value } => {
                let mut out = prefixed("unknown field ", field_name.as_str());
                out.append(" carrying value ");
                out.append(field_value.as_str());
                proof {
                    assert(out@ =~= message_spec(*self));
                }
                out
            },
            RosError::StructureAccessError { structure, error } => {
                let mut out = prefixed("failure on ", structure.as_str());
                out.append(": ");
                let inner = error.to_message();
                out.append(inner.as_str());
                proof {
                    assert(out@ =~= message_spec(*self));
                }
                out
            },
        }
    }
}

/// The prefix and the text, joined.
fn prefixed(prefix: &str, text: &str) -> (r: String)
    ensures
        r@ == prefix@ + text@,
{
    let mut out = prefix.to_owned();
    out.append(text);
    out
}

} // verus!
