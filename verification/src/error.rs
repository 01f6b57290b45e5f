//! Error kinds of the coordinator and the general-purpose error type shared
//! with the rest of the system, with fully specified message rendering.

use vstd::prelude::*;
use vstd::string::*;

verus! {

/// What went wrong with a barrier's epoch. Any of the first four kinds marks
/// the owning epoch `Fail` and leads to drain-then-recover; `Aborted` is fired
/// on queued commands that are dropped; `Fatal` reports an invariant
/// violation in the resolved topology.
#[derive(Clone, Copy, Debug, PartialEq, Eq, Structural)]
pub enum BarrierError {
    /// RPC error or worker rejection while injecting the barrier.
    InjectFailed,
    /// RPC error or worker rejection while collecting the barrier.
    CollectFailed,
    /// The storage engine refused the epoch commit.
    CommitFailed,
    /// An external catalog or fragment update failed after collection.
    PostCollectFailed,
    /// The scheduled queue was drained during shutdown or recovery.
    Aborted,
    /// A worker with no actors to collect listed actors to send.
    Fatal,
}

/// The character of a single decimal digit.
pub open spec fn dec_digit_char(d: nat) -> char {
    if d == 0 {
        '0'
    } else if d == 1 {
        '1'
    } else if d == 2 {
        '2'
    } else if d == 3 {
        '3'
    } else if d == 4 {
        '4'
    } else if d == 5 {
        '5'
    } else if d == 6 {
        '6'
    } else if d == 7 {
        '7'
    } else if d == 8 {
        '8'
    } else {
        '9'
    }
}

/// The decimal rendering of a natural number, most significant digit first.
pub open spec fn dec_digits(n: nat) -> Seq<char>
    decreases n,
{
    if n < 10 {
        seq![dec_digit_char(n)]
    } else {
        dec_digits(n / 10).push(dec_digit_char(n % 10))
    }
}

/// The decimal rendering of an integer, with a leading minus sign when
/// negative.
pub open spec fn dec_int(x: int) -> Seq<char> {
    if x < 0 {
        seq!['-'] + dec_digits((-x) as nat)
    } else {
        dec_digits(x as nat)
    }
}

/// One decimal digit as a string slice.
fn digit_str(d: u64) -> (r: &'static str)
    requires
        d < 10,
    ensures
        r@ == seq![dec_digit_char(d as nat)],
{
    proof {
        reveal_strlit("0");
        reveal_strlit("1");
        reveal_strlit("2");
        reveal_strlit("3");
        reveal_strlit("4");
        reveal_strlit("5");
        reveal_strlit("6");
        reveal_strlit("7");
        reveal_strlit("8");
        reveal_strlit("9");
    }
    let r: &'static str = if d == 0 {
        "0"
    } else if d == 1 {
        "1"
    } else if d == 2 {
        "2"
    } else if d == 3 {
        "3"
    } else if d == 4 {
        "4"
    } else if d == 5 {
        "5"
    } else if d == 6 {
        "6"
    } else if d == 7 {
        "7"
    } else if d == 8 {
        "8"
    } else {
        "9"
    };
    proof {
        assert(r@ =~= seq![dec_digit_char(d as nat)]);
    }
    r
}

/// Render a number in decimal.
pub fn u64_to_dec(x: u64) -> (r: String)
    ensures
        r@ == dec_digits(x as nat),
    decreases x,
{
    if x < 10 {
        let r = String::from_str(digit_str(x));
        r
    } else {
        let mut r = u64_to_dec(x / 10);
        r.append(digit_str(x % 10));
        proof {
            assert(r@ =~= dec_digits(x as nat));
        }
        r
    }
}

/// Render a signed number in decimal.
pub fn i64_to_dec(x: i64) -> (r: String)
    ensures
        r@ == dec_int(x as int),
{
    if x < 0 {
        let wide: i128 = x as i128;
        let mag: u64 = (-wide) as u64;
        let mut r = String::from_str("-");
        let digits = u64_to_dec(mag);
        r.append(digits.as_str());
        proof {
            reveal_strlit("-");
            assert(r@ =~= dec_int(x as int));
        }
        r
    } else {
        u64_to_dec(x as u64)
    }
}

/// A reference to the issue tracker, attached to "not implemented" errors.
#[derive(Debug, Clone, Copy)]
pub struct TrackingIssue(Option<u32>);

impl TrackingIssue {
    /// The tracked issue id, if any.
    pub closed spec fn id(self) -> Option<u32> {
        self.0
    }

    pub fn new(id: u32) -> (r: Self)
        ensures
            r.id() == Some(id),
    {
        TrackingIssue(Some(id))
    }

    pub fn none() -> (r: Self)
        ensures
            r.id() is None,
    {
        TrackingIssue(None)
    }

    /// The text a tracking issue renders as inside an error message.
    pub open spec fn spec_text(self) -> Seq<char> {
        match self.id() {
            Some(id) => "Tracking issue: https://github.com/risingwavelabs/risingwave/issues/"@
                + dec_digits(id as nat),
            None => "No tracking issue yet. Feel free to submit a feature request at https://github.com/risingwavelabs/risingwave/issues/new?labels=type%2Ffeature&template=feature_request.yml"@,
        }
    }

    /// Executable twin of [`Self::spec_text`].
    pub fn text(&self) -> (r: String)
        ensures
            r@ == self.spec_text(),
    {
        match self.0 {
            Some(id) => {
                let mut r = String::from_str(
                    "Tracking issue: https://github.com/risingwavelabs/risingwave/issues/",
                );
                let digits = u64_to_dec(id as u64);
                r.append(digits.as_str());
                r
            },
            None => {
                String::from_str(
                    "No tracking issue yet. Feel free to submit a feature request at https://github.com/risingwavelabs/risingwave/issues/new?labels=type%2Ffeature&template=feature_request.yml",
                )
            },
        }
    }
}

impl From<u32> for TrackingIssue {
    fn from(id: u32) -> (r: Self) {
        TrackingIssue(Some(id))
    }
}

impl vstd::std_specs::convert::FromSpecImpl<u32> for TrackingIssue {
    open spec fn obeys_from_spec() -> bool {
        true
    }

    closed spec fn from_spec(id: u32) -> Self {
        TrackingIssue(Some(id))
    }
}

impl From<Option<u32>> for TrackingIssue {
    fn from(id: Option<u32>) -> (r: Self) {
        TrackingIssue(id)
    }
}

impl vstd::std_specs::convert::FromSpecImpl<Option<u32>> for TrackingIssue {
    open spec fn obeys_from_spec() -> bool {
        true
    }

    closed spec fn from_spec(id: Option<u32>) -> Self {
        TrackingIssue(id)
    }
}

/// The general error code shared across the system. A variant that would
/// wrap a foreign error object carries its rendered message instead.
#[derive(Debug)]
pub enum ErrorCode {
    InternalError(String),
    /// An uncategorized internal error rendered verbatim, as produced by
    /// ad-hoc error construction.
    InternalErrorAnyhow(String),
    NotImplemented(String, TrackingIssue),
    NotSupported(String, String),
    TaskNotFound,
    ItemNotFound(String),
    InvalidInputSyntax(String),
    InvalidParameterValue(String),
    PermissionDenied(String),
    UnrecognizedConfigurationParameter(String),
    ProtocolError(String),
    BindError(String),
}

/// The message each error code renders as.
pub open spec fn spec_message(c: ErrorCode) -> Seq<char> {
    match c {
        ErrorCode::InternalError(s) => "internal error: "@ + s@,
        ErrorCode::InternalErrorAnyhow(s) => s@,
        ErrorCode::NotImplemented(s, t) => "Feature is not yet implemented: "@ + s@ + "\n"@
            + t.spec_text(),
        ErrorCode::NotSupported(s, h) => "Not supported: "@ + s@ + "\nHINT: "@ + h@,
        ErrorCode::TaskNotFound => "Task not found"@,
        ErrorCode::ItemNotFound(s) => "Item not found: "@ + s@,
        ErrorCode::InvalidInputSyntax(s) => "Invalid input syntax: "@ + s@,
        ErrorCode::InvalidParameterValue(s) => "Invalid Parameter Value: "@ + s@,
        ErrorCode::PermissionDenied(s) => "Permission denied: "@ + s@,
        ErrorCode::UnrecognizedConfigurationParameter(s) => "unrecognized configuration parameter \""@
            + s@ + "\""@,
        ErrorCode::ProtocolError(s) => "Protocol error: "@ + s@,
        ErrorCode::BindError(s) => "Bind error: "@ + s@,
    }
}

/// The system-wide error: an error code. Capturing a backtrace alongside
/// it is presentation, left to the host.
#[derive(Debug)]
pub struct RwError {
    inner: ErrorCode,
}

impl RwError {
    /// The error code inside.
    pub closed spec fn code(self) -> ErrorCode {
        self.inner
    }

    pub fn inner(&self) -> (r: &ErrorCode)
        ensures
            *r == self.code(),
    {
        &self.inner
    }

    /// The rendered message; the error displays as its code does.
    pub fn to_string(&self) -> (r: String)
        ensures
            r@ == spec_message(self.code()),
    {
        error_code_message(&self.inner)
    }
}

/// Render an error code's message.
pub fn error_code_message(c: &ErrorCode) -> (r: String)
    ensures
        r@ == spec_message(*c),
{
    match c {
        ErrorCode::InternalError(s) => {
            let mut r = String::from_str("internal error: ");
            r.append(s.as_str());
            r
        },
        ErrorCode::InternalErrorAnyhow(s) => {
            let r = s.clone();
            proof {
                assert(r@ =~= spec_message(*c));
            }
            r
        },
        ErrorCode::NotImplemented(s, t) => {
            let mut r = String::from_str("Feature is not yet implemented: ");
            r.append(s.as_str());
            r.append("\n");
            let tail = t.text();
            r.append(tail.as_str());
            r
        },
        ErrorCode::NotSupported(s, h) => {
            let mut r = String::from_str("Not supported: ");
            r.append(s.as_str());
            r.append("\nHINT: ");
            r.append(h.as_str());
            r
        },
        ErrorCode::TaskNotFound => String::from_str("Task not found"),
        ErrorCode::ItemNotFound(s) => {
            let mut r = String::from_str("Item not found: ");
            r.append(s.as_str());
            r
        },
        ErrorCode::InvalidInputSyntax(s) => {
            let mut r = String::from_str("Invalid input syntax: ");
            r.append(s.as_str());
            r
        },
        ErrorCode::InvalidParameterValue(s) => {
            let mut r = String::from_str("Invalid Parameter Value: ");
            r.append(s.as_str());
            r
        },
        ErrorCode::PermissionDenied(s) => {
            let mut r = String::from_str("Permission denied: ");
            r.append(s.as_str());
            r
        },
        ErrorCode::UnrecognizedConfigurationParameter(s) => {
            let mut r = String::from_str("unrecognized configuration parameter \"");
            r.append(s.as_str());
            r.append("\"");
            r
        },
        ErrorCode::ProtocolError(s) => {
            let mut r = String::from_str("Protocol error: ");
            r.append(s.as_str());
            r
        },
        ErrorCode::BindError(s) => {
            let mut r = String::from_str("Bind error: ");
            r.append(s.as_str());
            r
        },
    }
}

impl From<ErrorCode> for RwError {
    fn from(code: ErrorCode) -> (r: Self) {
        RwError { inner: code }
    }
}

impl vstd::std_specs::convert::FromSpecImpl<ErrorCode> for RwError {
    open spec fn obeys_from_spec() -> bool {
        true
    }

    closed spec fn from_spec(code: ErrorCode) -> Self {
        RwError { inner: code }
    }
}

impl From<String> for RwError {
    fn from(e: String) -> (r: Self) {
        RwError { inner: ErrorCode::InternalError(e) }
    }
}

impl vstd::std_specs::convert::FromSpecImpl<String> for RwError {
    open spec fn obeys_from_spec() -> bool {
        true
    }

    closed spec fn from_spec(e: String) -> Self {
        RwError { inner: ErrorCode::InternalError(e) }
    }
}

/// An internal error with the given message.
pub fn internal_error(msg: &str) -> (r: RwError)
    ensures
        r.code() matches ErrorCode::InternalError(m) && m@ == msg@,
{
    RwError { inner: ErrorCode::InternalError(String::from_str(msg)) }
}

/// Check a condition, turning its text into an uncategorized error when it
/// does not hold.
pub fn ensure(cond: bool, condition_text: &str) -> (r: Result<(), RwError>)
    ensures
        cond <==> r is Ok,
        r matches Err(e) ==> e.code() matches ErrorCode::InternalErrorAnyhow(m) && m@
            == condition_text@,
{
    if cond {
        Ok(())
    } else {
        Err(RwError { inner: ErrorCode::InternalErrorAnyhow(String::from_str(condition_text)) })
    }
}

/// The message reported when an equality check fails.
pub open spec fn ensure_eq_message(
    left_name: Seq<char>,
    right_name: Seq<char>,
    left: int,
    right: int,
) -> Seq<char> {
    left_name + " == "@ + right_name + " assertion failed ("@ + left_name + " is "@ + dec_int(
        left,
    ) + ", "@ + right_name + " is "@ + dec_int(right) + ")"@
}

/// Check that two named values are equal; report both values when not.
pub fn ensure_eq(left_name: &str, right_name: &str, left: i64, right: i64) -> (r: Result<
    (),
    RwError,
>)
    ensures
        left == right <==> r is Ok,
        r matches Err(e) ==> e.code() matches ErrorCode::InternalErrorAnyhow(m) && m@
            == ensure_eq_message(left_name@, right_name@, left as int, right as int),
{
    if left == right {
        Ok(())
    } else {
        let mut m = String::from_str(left_name);
        m.append(" == ");
        m.append(right_name);
        m.append(" assertion failed (");
        m.append(left_name);
        m.append(" is ");
        let lv = i64_to_dec(left);
        m.append(lv.as_str());
        m.append(", ");
        m.append(right_name);
        m.append(" is ");
        let rv = i64_to_dec(right);
        m.append(rv.as_str());
        m.append(")");
        proof {
            assert(m@ =~= ensure_eq_message(left_name@, right_name@, left as int, right as int));
        }
        Err(RwError { inner: ErrorCode::InternalErrorAnyhow(m) })
    }
}

/// A helper to convert a third-party error to string.
pub trait ToErrorStr {
    fn to_error_str(self) -> String;
}

#[verifier::external_type_specification]
#[verifier::external_body]
#[verifier::reject_recursive_types(T)]
pub struct ExSendError<T>(std::sync::mpsc::SendError<T>);

/// Relies on the `Display` impl of `std::sync::mpsc::SendError` through
/// `ToString::to_string`: a short description of the failed send. The text
/// is not specified.
#[verifier::external_body]
fn send_error_text<T>(e: std::sync::mpsc::SendError<T>) -> String {
    e.to_string()
}

impl<T> ToErrorStr for std::sync::mpsc::SendError<T> {
    fn to_error_str(self) -> String {
        send_error_text(self)
    }
}

/// Lift a third-party result into the system-wide error type.
pub trait ToRwResult<T, E> {
    fn to_rw_result(self) -> (r: Result<T, RwError>);

    /// Like [`Self::to_rw_result`], with a lazily built context prefix.
    fn to_rw_result_with<F: FnOnce() -> String>(self, func: F) -> (r: Result<T, RwError>)
        requires
            func.requires(()),
    ;
}

impl<T, E: ToErrorStr> ToRwResult<T, E> for Result<T, E> {
    fn to_rw_result(self) -> (r: Result<T, RwError>) {
        match self {
            Ok(v) => Ok(v),
            Err(e) => Err(
                RwError { inner: ErrorCode::InternalError(e.to_error_str()) },
            ),
        }
    }

    fn to_rw_result_with<F: FnOnce() -> String>(self, func: F) -> (r: Result<T, RwError>) {
        match self {
            Ok(v) => Ok(v),
            Err(e) => {
                let mut m = func();
                m.append(": ");
                let detail = e.to_error_str();
                m.append(detail.as_str());
                Err(RwError { inner: ErrorCode::InternalError(m) })
            },
        }
    }
}

/// The duration after which the suppressor forgets the errors it has seen.
pub const ERROR_SUPPRESSOR_RESET_MILLIS: u64 = 3600000;

/// Suppresses errors that repeat, or that arrive after too many distinct
/// ones, within a sliding window. The host supplies the clock as
/// milliseconds of elapsed process time.
#[derive(Debug)]
pub struct ErrorSuppressor {
    max_unique: usize,
    unique: Vec<String>,
    last_reset_millis: u64,
}

impl ErrorSuppressor {
    /// The distinct error messages seen since the last reset.
    pub closed spec fn seen(self) -> Seq<Seq<char>> {
        self.unique@.map_values(|s: String| s@)
    }

    pub closed spec fn spec_max(self) -> usize {
        self.max_unique
    }

    pub closed spec fn spec_last_reset(self) -> u64 {
        self.last_reset_millis
    }

    pub fn new(max_unique: usize) -> (r: Self)
        ensures
            r.spec_max() == max_unique,
            r.seen().len() == 0,
            r.spec_last_reset() == 0,
    {
        ErrorSuppressor { max_unique, unique: Vec::new(), last_reset_millis: 0 }
    }

    pub fn max(&self) -> (r: usize)
        ensures
            r == self.spec_max(),
    {
        self.max_unique
    }

    /// Whether to suppress the given error: a repeat of a message already
    /// seen in the window passes (it is not suppressed, and not recorded
    /// again), a fresh message passes while there is room, and anything
    /// beyond the capacity is suppressed. A full reset window elapsing
    /// first empties the record.
    pub fn suppress_error(&mut self, error: &str, now_millis: u64) -> (r: bool)
        ensures
            ({
                let base: Seq<Seq<char>> = if now_millis - old(self).spec_last_reset()
                    >= ERROR_SUPPRESSOR_RESET_MILLIS {
                    Seq::empty()
                } else {
                    old(self).seen()
                };
                &&& final(self).spec_max() == old(self).spec_max()
                &&& (base.contains(error@) ==> !r && final(self).seen() == base)
                &&& (!base.contains(error@) && base.len() < old(self).spec_max() ==> !r && final(self).seen() == base.push(error@))
                &&& (!base.contains(error@) && base.len() >= old(self).spec_max() ==> r && final(self).seen() == base)
            }),
    {
        self.try_reset(now_millis);
        let ghost base = self.seen();
        if contains_string(&self.unique, error) {
            false
        } else if self.unique.len() < self.max_unique {
            self.unique.push(String::from_str(error));
            proof {
                assert(self.seen() =~= base.push(error@));
            }
            false
        } else {
            true
        }
    }

    fn try_reset(&mut self, now_millis: u64)
        ensures
            final(self).spec_max() == old(self).spec_max(),
            now_millis - old(self).spec_last_reset() >= ERROR_SUPPRESSOR_RESET_MILLIS ==> {
                &&& final(self).seen().len() == 0
                &&& final(self).spec_last_reset() == now_millis
            },
            now_millis - old(self).spec_last_reset() < ERROR_SUPPRESSOR_RESET_MILLIS ==> *final(self) == *old(self),
    {
        let elapsed = if now_millis >= self.last_reset_millis {
            now_millis - self.last_reset_millis
        } else {
            0
        };
        if elapsed >= ERROR_SUPPRESSOR_RESET_MILLIS {
            self.unique = Vec::new();
            self.last_reset_millis = now_millis;
            proof {
                assert(self.seen() =~= Seq::<Seq<char>>::empty());
            }
        }
    }
}

/// Whether the list holds the given text.
fn contains_string(list: &Vec<String>, text: &str) -> (r: bool)
    ensures
        r == list@.map_values(|s: String| s@).contains(text@),
{
    let needle = String::from_str(text);
    let n = list.len();
    let mut i: usize = 0;
    while i < n
        invariant
            needle@ == text@,
            n == list@.len(),
            0 <= i <= n,
            forall|k: int| 0 <= k < i ==> (#[trigger] list@[k])@ != text@,
        decreases n - i,
    {
        if list[i].eq(&needle) {
            proof {
                assert(list@.map_values(|s: String| s@)[i as int] == text@);
            }
            return true;
        }
        i = i + 1;
    }
    proof {
        let mapped = list@.map_values(|s: String| s@);
        assert forall|k: int| 0 <= k < mapped.len() implies #[trigger] mapped[k] != text@ by {
            assert(list@[k]@ != text@);
        }
    }
    false
}

} // verus!
