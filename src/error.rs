use vstd::prelude::*;

use crate::pem::string_of;

verus! {

/// The closed set of failures of the provenance layer.
#[derive(Debug, Clone)]
pub enum ProvenanceError {
    UnsupportedMediaType,
    ManifestMissing,
    /// A failure reported by the verification engine, with its text.
    C2pa(String),
    RemoteDisabled,
    RemoteUrlNotAllowed(String),
    /// A transport failure while fetching, with its text.
    Network(String),
    /// A remote answer outside the 2xx range, with its status code.
    RemoteStatus(u16),
    InvalidUrl(String),
    Multipart(String),
}

/// The HTTP status that the transport layer answers each failure with.
pub open spec fn status_of(e: ProvenanceError) -> u16 {
    match e {
        ProvenanceError::UnsupportedMediaType => 415,
        ProvenanceError::ManifestMissing => 422,
        ProvenanceError::C2pa(_) => 422,
        ProvenanceError::RemoteDisabled => 403,
        ProvenanceError::RemoteUrlNotAllowed(_) => 403,
        ProvenanceError::InvalidUrl(_) => 400,
        ProvenanceError::Multipart(_) => 400,
        ProvenanceError::RemoteStatus(_) => 502,
        ProvenanceError::Network(_) => 502,
    }
}

/// The character of a decimal digit.
pub open spec fn digit_char(d: nat) -> char {
    if d == 0 {
        '0'
    } else if d == 1 {
        '1'
    } else if d == 2 {
        '2'
    } else if d == 3 {
        '3'
    } else if d == 4 {
        '4'
    } else if d == 5 {
        '5'
    } else if d == 6 {
        '6'
    } else if d == 7 {
        '7'
    } else if d == 8 {
        '8'
    } else {
        '9'
    }
}

/// The decimal digits of `n`, most significant first.
pub open spec fn decimal_of(n: nat) -> Seq<char>
    decreases n,
{
    if n < 10 {
        seq![digit_char(n)]
    } else {
        decimal_of(n / 10).push(digit_char(n % 10))
    }
}

fn push_decimal(n: u16, out: &mut Vec<char>)
    ensures
        final(out)@ == old(out)@ + decimal_of(n as nat),
    decreases n,
{
    if n >= 10 {
        push_decimal(n / 10, out);
    }
    let d = n % 10;
    let c = if d == 0 {
        '0'
    } else if d == 1 {
        '1'
    } else if d == 2 {
        '2'
    } else if d == 3 {
        '3'
    } else if d == 4 {
        '4'
    } else if d == 5 {
        '5'
    } else if d == 6 {
        '6'
    } else if d == 7 {
        '7'
    } else if d == 8 {
        '8'
    } else {
        '9'
    };
    out.push(c);
    assert(out@ =~= old(out)@ + decimal_of(n as nat));
}

/// The decimal text of a status code.
pub fn decimal_text(n: u16) -> (r: String)
    ensures
        r@ == decimal_of(n as nat),
{
    let mut v: Vec<char> = Vec::new();
    push_decimal(n, &mut v);
    assert(v@ =~= decimal_of(n as nat));
    string_of(&v)
}

/// The standard reason phrase of an HTTP status code, where it has one.
pub uninterp spec fn reason_of(code: u16) -> Option<Seq<char>>;

/// Relies on `http::StatusCode::from_u16` and `StatusCode::canonical_reason`
/// (through reqwest): the reason phrase registered for a code; a fixed table,
/// so it depends on the code alone. Codes outside 100 to 999 have none.
#[verifier::external_body]
fn reason_phrase(code: u16) -> (r: Option<String>)
    ensures
        match r {
            Some(t) => reason_of(code) == Some(t@),
            None => reason_of(code) is None,
        },
        !(100 <= code <= 999) ==> r is None,
{
    reqwest::StatusCode::from_u16(code).ok().and_then(|s| s.canonical_reason()).map(|t| t.to_string())
}

/// A status code as text: its number, then its reason phrase where it has one.
pub open spec fn status_text_of(code: u16) -> Seq<char> {
    decimal_of(code as nat) + match reason_of(code) {
        Some(t) => " "@ + t,
        None => seq![],
    }
}

/// A status code as text: its number, then its reason phrase where it has one.
pub fn status_text(code: u16) -> (r: String)
    ensures
        r@ == status_text_of(code),
{
    let digits = decimal_text(code);
    match reason_phrase(code) {
        Some(t) => digits.concat(" ").concat(t.as_str()),
        None => digits,
    }
}

/// The human-readable text of each failure.
pub open spec fn message_of(e: ProvenanceError) -> Seq<char> {
    match e {
        ProvenanceError::UnsupportedMediaType => "unsupported media type"@,
        ProvenanceError::ManifestMissing => "asset does not contain a C2PA manifest"@,
        ProvenanceError::C2pa(d) => "c2pa error: "@ + d@,
        ProvenanceError::RemoteDisabled => "remote loading is disabled"@,
        ProvenanceError::RemoteUrlNotAllowed(u) => "remote url not allowed: "@ + u@,
        ProvenanceError::Network(d) => "network error: "@ + d@,
        ProvenanceError::RemoteStatus(c) => "unexpected remote status: "@ + status_text_of(c),
        ProvenanceError::InvalidUrl(u) => "invalid url: "@ + u@,
        ProvenanceError::Multipart(d) => "multipart error: "@ + d@,
    }
}

impl ProvenanceError {
    /// The HTTP status code for this failure.
    pub fn http_status(&self) -> (r: u16)
        ensures
            r == status_of(*self),
    {
        match self {
            ProvenanceError::UnsupportedMediaType => 415,
            ProvenanceError::ManifestMissing => 422,
            ProvenanceError::C2pa(_) => 422,
            ProvenanceError::RemoteDisabled => 403,
            ProvenanceError::RemoteUrlNotAllowed(_) => 403,
            ProvenanceError::InvalidUrl(_) => 400,
            ProvenanceError::Multipart(_) => 400,
            ProvenanceError::RemoteStatus(_) => 502,
            ProvenanceError::Network(_) => 502,
        }
    }

    /// The human-readable text of this failure.
    pub fn message(&self) -> (r: String)
        ensures
            r@ == message_of(*self),
    {
        match self {
            ProvenanceError::UnsupportedMediaType => String::from_str("unsupported media type"),
            ProvenanceError::ManifestMissing => String::from_str(
                "asset does not contain a C2PA manifest",
            ),
            ProvenanceError::C2pa(d) => String::from_str("c2pa error: ").concat(d.as_str()),
            ProvenanceError::RemoteDisabled => String::from_str("remote loading is disabled"),
            ProvenanceError::RemoteUrlNotAllowed(u) => String::from_str(
                "remote url not allowed: ",
            ).concat(u.as_str()),
            ProvenanceError::Network(d) => String::from_str("network error: ").concat(d.as_str()),
            ProvenanceError::RemoteStatus(c) => String::from_str("unexpected remote status: ").concat(
                status_text(*c).as_str(),
            ),
            ProvenanceError::InvalidUrl(u) => String::from_str("invalid url: ").concat(u.as_str()),
            ProvenanceError::Multipart(d) => String::from_str("multipart error: ").concat(
                d.as_str(),
            ),
        }
    }
}

} // verus!
