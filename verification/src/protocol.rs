//! Protocol versions: the range of versions that an endpoint accepts, and
//! what becomes of a request that states a version.

use vstd::prelude::*;
use vstd::string::*;

verus! {

/// The lowest protocol version that the batch endpoint accepts.
pub const BATCHES_MIN_VERSION: u32 = 1;

/// The highest protocol version that the batch endpoint accepts.
pub const BATCHES_MAX_VERSION: u32 = 1;

/// The path of the batch endpoint.
pub open spec fn batches_path() -> Seq<char> {
    "/batches"@
}

/// The number that the standard library reads in a text, if it reads one.
pub uninterp spec fn parsed_u32(text: Seq<char>) -> Option<u32>;

/// The decimal digits with which the standard library writes a number.
pub uninterp spec fn decimal_text(number: u32) -> Seq<char>;

/// Calls `str::parse::<u32>`.  The contract gives what the call reads a
/// name, `parsed_u32`, and says nothing of which texts are numbers: the
/// result is a function of the text alone, and an error is handed on as
/// `None`.
#[verifier::external_body]
fn parse_u32(text: &str) -> (number: Option<u32>)
    ensures
        number == parsed_u32(text@),
{
    text.parse::<u32>().ok()
}

/// Calls `u32::to_string`.  The contract gives what the call writes a name,
/// `decimal_text`, and says nothing of the digits: the result is a function
/// of the number alone.
#[verifier::external_body]
fn u32_to_string(number: u32) -> (text: String)
    ensures
        text@ == decimal_text(number),
{
    number.to_string()
}

/// The protocol version header of a request, as the server found it.
#[derive(Clone, Debug, PartialEq, Eq)]
pub enum ProtocolHeader {
    /// The request has no such header.
    Missing,
    /// The header holds bytes that are no text; the string says why.
    Unreadable(String),
    /// The text of the header.
    Text(String),
}

/// The view of a protocol version header.
pub enum ProtocolHeaderView {
    Missing,
    Unreadable(Seq<char>),
    Text(Seq<char>),
}

impl DeepView for ProtocolHeader {
    type V = ProtocolHeaderView;

    open spec fn deep_view(&self) -> ProtocolHeaderView {
        match self {
            ProtocolHeader::Missing => ProtocolHeaderView::Missing,
            ProtocolHeader::Unreadable(reason) => ProtocolHeaderView::Unreadable(reason@),
            ProtocolHeader::Text(text) => ProtocolHeaderView::Text(text@),
        }
    }
}

/// Why a request was turned away for its protocol version: the body of the
/// answer.
#[derive(Clone, Debug, PartialEq, Eq)]
pub struct ProtocolRejection {
    pub message: String,
    /// The version that the request stated, where it stated a number.
    pub requested_protocol: Option<u32>,
    /// The bound of the accepted range that the version is beyond.
    pub grid_protocol: Option<u32>,
    /// The lowest and the highest version that the endpoint accepts, where
    /// the request stated a number.
    pub accepted_range: Option<(u32, u32)>,
}

/// The view of a rejection.
pub struct ProtocolRejectionView {
    pub message: Seq<char>,
    pub requested_protocol: Option<u32>,
    pub grid_protocol: Option<u32>,
    pub accepted_range: Option<(u32, u32)>,
}

impl DeepView for ProtocolRejection {
    type V = ProtocolRejectionView;

    open spec fn deep_view(&self) -> ProtocolRejectionView {
        ProtocolRejectionView {
            message: self.message@,
            requested_protocol: self.requested_protocol,
            grid_protocol: self.grid_protocol,
            accepted_range: self.accepted_range,
        }
    }
}

/// What becomes of a request.
#[derive(Clone, Debug, PartialEq, Eq)]
pub enum ProtocolCheck {
    /// The request goes on to the endpoint.
    Continue,
    /// The request is answered with a bad request error.
    Reject(ProtocolRejection),
}

/// The view of what becomes of a request.
pub enum ProtocolCheckView {
    Continue,
    Reject(ProtocolRejectionView),
}

impl DeepView for ProtocolCheck {
    type V = ProtocolCheckView;

    open spec fn deep_view(&self) -> ProtocolCheckView {
        match self {
            ProtocolCheck::Continue => ProtocolCheckView::Continue,
            ProtocolCheck::Reject(rejection) => ProtocolCheckView::Reject(rejection.deep_view()),
        }
    }
}

/// The message for a version beyond `bound`, where `digits` are the digits
/// of the bound.
pub open spec fn unsupported_message(digits: Seq<char>) -> Seq<char> {
    "Client must support protocol version "@ + digits + " or greater."@
}

/// The message for a header that is no text.
pub open spec fn unreadable_message(reason: Seq<char>) -> Seq<char> {
    "Invalid characters in GridProtocolVersion header: "@ + reason
}

/// The message for a header that is no number.
pub open spec fn not_a_number_message() -> Seq<char> {
    "GridProtocolVersion must be a valid positive integer"@
}

/// The rejection of a header that is no text.
pub open spec fn unreadable_rejection(reason: Seq<char>) -> ProtocolRejectionView {
    ProtocolRejectionView {
        message: unreadable_message(reason),
        requested_protocol: None,
        grid_protocol: None,
        accepted_range: None,
    }
}

/// The rejection of a header that is no number.
pub open spec fn not_a_number_rejection() -> ProtocolRejectionView {
    ProtocolRejectionView {
        message: not_a_number_message(),
        requested_protocol: None,
        grid_protocol: None,
        accepted_range: None,
    }
}

/// The rejection of the version `requested`, which is beyond `bound`, one
/// of the two bounds of `range`.
pub open spec fn unsupported_rejection(
    requested: u32,
    bound: u32,
    range: (u32, u32),
    digits: Seq<char>,
) -> ProtocolRejectionView {
    ProtocolRejectionView {
        message: unsupported_message(digits),
        requested_protocol: Some(requested),
        grid_protocol: Some(bound),
        accepted_range: Some(range),
    }
}

/// What becomes of a request that states `version` where versions from
/// `min` to `max` are accepted: it goes on, or it is rejected with the
/// bound that it is beyond.  `min_digits` and `max_digits` are the digits of
/// the two bounds.
pub open spec fn checked_version(
    min: u32,
    max: u32,
    version: u32,
    min_digits: Seq<char>,
    max_digits: Seq<char>,
) -> ProtocolCheckView {
    if version < min {
        ProtocolCheckView::Reject(unsupported_rejection(version, min, (min, max), min_digits))
    } else if version > max {
        ProtocolCheckView::Reject(unsupported_rejection(version, max, (min, max), max_digits))
    } else {
        ProtocolCheckView::Continue
    }
}

/// What becomes of a request with `header` where versions from `min` to
/// `max` are accepted.  A request without the header goes on: the client is
/// left to find a mismatch in the answer.
pub open spec fn evaluated(min: u32, max: u32, header: ProtocolHeaderView) -> ProtocolCheckView {
    match header {
        ProtocolHeaderView::Missing => ProtocolCheckView::Continue,
        ProtocolHeaderView::Unreadable(reason) => ProtocolCheckView::Reject(
            unreadable_rejection(reason),
        ),
        ProtocolHeaderView::Text(text) => match parsed_u32(text) {
            None => ProtocolCheckView::Reject(not_a_number_rejection()),
            Some(version) => checked_version(
                min,
                max,
                version,
                decimal_text(min),
                decimal_text(max),
            ),
        },
    }
}

/// Guards requests by a range of protocol versions.
#[derive(Clone, Copy, Debug, PartialEq, Eq, Structural)]
pub struct ProtocolVersionRangeGuard {
    min: u32,
    max: u32,
}

/// The message for a version beyond a bound with the digits `digits`.
pub fn format_unsupported(digits: &str) -> (message: String)
    ensures
        message@ == unsupported_message(digits@),
{
    let mut message = String::from_str("Client must support protocol version ");
    message.append(digits);
    message.append(" or greater.");
    message
}

/// The message for a header that is no text, for the reason `reason`.
pub fn format_unreadable(reason: &str) -> (message: String)
    ensures
        message@ == unreadable_message(reason@),
{
    let mut message = String::from_str("Invalid characters in GridProtocolVersion header: ");
    message.append(reason);
    message
}

impl ProtocolVersionRangeGuard {
    /// The lowest version that the guard accepts.
    pub closed spec fn spec_min(&self) -> u32 {
        self.min
    }

    /// The highest version that the guard accepts.
    pub closed spec fn spec_max(&self) -> u32 {
        self.max
    }

    /// A guard that accepts the versions from `min` to `max`.
    pub fn new(min: u32, max: u32) -> (guard: Self)
        ensures
            guard.spec_min() == min,
            guard.spec_max() == max,
    {
        Self { min, max }
    }

    /// The lowest version that the guard accepts.
    #[verifier::when_used_as_spec(spec_min)]
    pub fn min(&self) -> (min: u32)
        ensures
            min == self.spec_min(),
    {
        self.min
    }

    /// The highest version that the guard accepts.
    #[verifier::when_used_as_spec(spec_max)]
    pub fn max(&self) -> (max: u32)
        ensures
            max == self.spec_max(),
    {
        self.max
    }

    /// The guard of the endpoint at `path`: the batch endpoint accepts its
    /// own range of versions, every other endpoint accepts any version.
    pub fn for_path(path: &str) -> (guard: Self)
        ensures
            guard.spec_min() == (if path@ == batches_path() {
                BATCHES_MIN_VERSION
            } else {
                0
            }),
            guard.spec_max() == (if path@ == batches_path() {
                BATCHES_MAX_VERSION
            } else {
                u32::MAX
            }),
    {
        if path.to_owned() == String::from_str("/batches") {
            Self::new(BATCHES_MIN_VERSION, BATCHES_MAX_VERSION)
        } else {
            Self::new(0, u32::MAX)
        }
    }

    /// What becomes of a request that states `version`.  `min_digits` and
    /// `max_digits` are the digits of the two bounds of the guard.
    pub fn check_version(&self, version: u32, min_digits: &str, max_digits: &str) -> (check:
        ProtocolCheck)
        ensures
            check.deep_view() == checked_version(
                self.spec_min(),
                self.spec_max(),
                version,
                min_digits@,
                max_digits@,
            ),
    {
        if version < self.min {
            ProtocolCheck::Reject(
                ProtocolRejection {
                    message: format_unsupported(min_digits),
                    requested_protocol: Some(version),
                    grid_protocol: Some(self.min),
                    accepted_range: Some((self.min, self.max)),
                },
            )
        } else if version > self.max {
            ProtocolCheck::Reject(
                ProtocolRejection {
                    message: format_unsupported(max_digits),
                    requested_protocol: Some(version),
                    grid_protocol: Some(self.max),
                    accepted_range: Some((self.min, self.max)),
                },
            )
        } else {
            ProtocolCheck::Continue
        }
    }

    /// What becomes of a request whose header was read as `parsed`.
    pub fn check_parsed(&self, parsed: Option<u32>, min_digits: &str, max_digits: &str) -> (check:
        ProtocolCheck)
        ensures
            check.deep_view() == (match parsed {
                None => ProtocolCheckView::Reject(not_a_number_rejection()),
                Some(version) => checked_version(
                    self.spec_min(),
                    self.spec_max(),
                    version,
                    min_digits@,
                    max_digits@,
                ),
            }),
    {
        match parsed {
            None => ProtocolCheck::Reject(
                ProtocolRejection {
                    message: String::from_str(
                        "GridProtocolVersion must be a valid positive integer",
                    ),
                    requested_protocol: None,
                    grid_protocol: None,
                    accepted_range: None,
                },
            ),
            Some(version) => self.check_version(version, min_digits, max_digits),
        }
    }

    /// What becomes of a request with `header`.
    pub fn evaluate(&self, header: &ProtocolHeader) -> (check: ProtocolCheck)
        ensures
            check.deep_view() == evaluated(self.spec_min(), self.spec_max(), header.deep_view()),
    {
        match header {
            ProtocolHeader::Missing => ProtocolCheck::Continue,
            ProtocolHeader::Unreadable(reason) => ProtocolCheck::Reject(
                ProtocolRejection {
                    message: format_unreadable(reason.as_str()),
                    requested_protocol: None,
                    grid_protocol: None,
                    accepted_range: None,
                },
            ),
            ProtocolHeader::Text(text) => {
                let parsed = parse_u32(text.as_str());
                let min_digits = u32_to_string(self.min);
                let max_digits = u32_to_string(self.max);
                self.check_parsed(parsed, min_digits.as_str(), max_digits.as_str())
            },
        }
    }
}

} // verus!
