//! The one error type of the crate: a free-text failure, or a failed
//! conversion from bytes to text or from text to an integer.
use vstd::prelude::*;
use vstd::std_specs::convert::FromSpecImpl;
use vstd::string::to_string_from_display_ensures;
use vstd::string::StringExecFns;

verus! {

/// The error of `String::from_utf8`. It keeps the bytes that were refused.
#[verifier::external_type_specification]
#[verifier::external_body]
pub struct ExFromUtf8Error(std::string::FromUtf8Error);

/// The error of parsing an integer from text.
#[verifier::external_type_specification]
#[verifier::external_body]
pub struct ExParseIntError(std::num::ParseIntError);

/// A failure described by a message.
#[derive(Debug)]
pub struct GenericError {
    message: String,
}

impl View for GenericError {
    type V = Seq<char>;

    closed spec fn view(&self) -> Seq<char> {
        self.message@
    }
}

/// What every generic error's text starts with.
pub open spec fn store_error_prefix() -> Seq<char> {
    "Store error: "@
}

impl GenericError {
    pub fn new(message: &str) -> (err: GenericError)
        ensures
            err@ == message@,
    {
        GenericError { message: String::from_str(message) }
    }

    /// The message alone.
    pub fn description(&self) -> (text: &str)
        ensures
            text@ == self@,
    {
        self.message.as_str()
    }

    /// The message behind the prefix that marks it as coming from this crate.
    pub fn to_string(&self) -> (text: String)
        ensures
            text@ == store_error_prefix() + self@,
    {
        let mut text = String::from_str("Store error: ");
        text.append(self.message.as_str());
        text
    }
}

#[derive(Debug)]
pub enum RModError {
    Generic(GenericError),
    FromUtf8(std::string::FromUtf8Error),
    ParseInt(std::num::ParseIntError),
}

/// An error as contracts see it: a generic error is its message, the other two
/// are the conversion failure they wrap.
pub enum RModErrorView {
    Generic(Seq<char>),
    FromUtf8(std::string::FromUtf8Error),
    ParseInt(std::num::ParseIntError),
}

impl View for RModError {
    type V = RModErrorView;

    open spec fn view(&self) -> RModErrorView {
        match self {
            RModError::Generic(err) => RModErrorView::Generic(err@),
            RModError::FromUtf8(err) => RModErrorView::FromUtf8(*err),
            RModError::ParseInt(err) => RModErrorView::ParseInt(*err),
        }
    }
}

impl RModError {
    pub fn generic(message: &str) -> (err: RModError)
        ensures
            err@ == RModErrorView::Generic(message@),
    {
        RModError::Generic(GenericError::new(message))
    }

    /// Whether `text` is what this error prints as. A generic error prints its
    /// message behind the prefix; a conversion failure prints as std prints it.
    pub open spec fn displays_as(&self, text: String) -> bool {
        match self {
            RModError::Generic(err) => text@ == store_error_prefix() + err@,
            RModError::FromUtf8(err) => to_string_from_display_ensures::<std::string::FromUtf8Error>(
                err,
                text,
            ),
            RModError::ParseInt(err) => to_string_from_display_ensures::<std::num::ParseIntError>(
                err,
                text,
            ),
        }
    }

    /// The text of the error, as it is reported to the host.
    pub fn to_string(&self) -> (text: String)
        ensures
            self.displays_as(text),
    {
        match self {
            RModError::Generic(err) => err.to_string(),
            RModError::FromUtf8(err) => err.to_string(),
            RModError::ParseInt(err) => err.to_string(),
        }
    }
}

impl From<std::string::FromUtf8Error> for RModError {
    fn from(err: std::string::FromUtf8Error) -> (res: RModError) {
        RModError::FromUtf8(err)
    }
}

impl FromSpecImpl<std::string::FromUtf8Error> for RModError {
    open spec fn obeys_from_spec() -> bool {
        true
    }

    open spec fn from_spec(err: std::string::FromUtf8Error) -> RModError {
        RModError::FromUtf8(err)
    }
}

impl From<std::num::ParseIntError> for RModError {
    fn from(err: std::num::ParseIntError) -> (res: RModError) {
        RModError::ParseInt(err)
    }
}

impl FromSpecImpl<std::num::ParseIntError> for RModError {
    open spec fn obeys_from_spec() -> bool {
        true
    }

    open spec fn from_spec(err: std::num::ParseIntError) -> RModError {
        RModError::ParseInt(err)
    }
}

} // verus!
