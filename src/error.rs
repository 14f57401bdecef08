//! The failures the engine reports to the host.
use crate::external::ExternalError;
use crate::status::Status;
use vstd::prelude::*;
use vstd::string::StringExecFns;

verus! {

/// A failure to bind the host's arguments to a native parameter list.
/// Positions count from one.
#[derive(Debug, Clone)]
pub enum ArgumentsError {
    Missing(usize),
    WrongType(String, usize),
    Deserialization(String),
}

/// A dynamic value was read as a kind it is not.
#[derive(Debug, Clone, Copy, PartialEq, Eq, Structural)]
pub enum JsAnyError {
    WrongAny,
}

/// Failures of the class instance model.
#[derive(Debug, Clone)]
pub enum ClassError {
    ExternalClassData,
    WrongHandler,
    WrongClass,
    ThisConstructor(String),
    ThisMethod(String),
    NoConstructor(String),
    Unwrap,
}

/// Failures of function dispatch.
#[derive(Debug, Clone)]
pub enum FunctionError {
    /// Every one of several overloads of the named function failed.
    ArgumentsOverload(String),
    /// The function has no candidate to dispatch to.
    WrongFunctionData,
}

/// Any failure that the trampoline turns into a host exception.
#[derive(Debug, Clone)]
pub enum Error {
    Status(Status),
    Arguments(ArgumentsError),
    Any(JsAnyError),
    Class(ClassError),
    Function(FunctionError),
    External(ExternalError),
    Deserialize(String),
    Serialize(String),
}

impl ArgumentsError {
    pub fn wrong_type(s: &str, n: usize) -> (r: Error)
        ensures
            r matches Error::Arguments(ArgumentsError::WrongType(t, m)) && t@ == s@ && m == n,
    {
        Error::Arguments(ArgumentsError::WrongType(s.to_string(), n))
    }

    pub fn missing(n: usize) -> (r: Error)
        ensures
            r matches Error::Arguments(ArgumentsError::Missing(m)) && m == n,
    {
        Error::Arguments(ArgumentsError::Missing(n))
    }
}

pub open spec fn is_host_failure(e: Error) -> bool {
    e is Status
}

impl Error {
    /// The error-domain code of this failure.
    pub fn domain_code(&self) -> (r: String)
        ensures
            is_host_failure(*self) ==> r@ == "N-API"@,
            !is_host_failure(*self) ==> r@ == "PINAR"@,
    {
        match self {
            Error::Status(_) => "N-API".to_string(),
            _ => "PINAR".to_string(),
        }
    }

    /// Whether this failure is a missing argument, the one binding failure
    /// that an optional parameter turns into absence.
    pub fn is_missing(&self) -> (r: bool)
        ensures
            r == (*self matches Error::Arguments(ArgumentsError::Missing(_))),
    {
        match self {
            Error::Arguments(ArgumentsError::Missing(_)) => true,
            _ => false,
        }
    }
}

pub open spec fn digit_spec(d: nat) -> Seq<char> {
    if d == 0 { "0"@ }
    else if d == 1 { "1"@ }
    else if d == 2 { "2"@ }
    else if d == 3 { "3"@ }
    else if d == 4 { "4"@ }
    else if d == 5 { "5"@ }
    else if d == 6 { "6"@ }
    else if d == 7 { "7"@ }
    else if d == 8 { "8"@ }
    else { "9"@ }
}

/// The decimal digits of `n`, most significant first.
pub open spec fn decimal_spec(n: nat) -> Seq<char>
    decreases n,
{
    if n < 10 {
        digit_spec(n)
    } else {
        decimal_spec(n / 10) + digit_spec(n % 10)
    }
}

fn digit(d: usize) -> (r: &'static str)
    requires
        d < 10,
    ensures
        r@ == digit_spec(d as nat),
{
    if d == 0 { "0" }
    else if d == 1 { "1" }
    else if d == 2 { "2" }
    else if d == 3 { "3" }
    else if d == 4 { "4" }
    else if d == 5 { "5" }
    else if d == 6 { "6" }
    else if d == 7 { "7" }
    else if d == 8 { "8" }
    else { "9" }
}

/// `n` written in decimal.
pub fn decimal(n: usize) -> (r: String)
    ensures
        r@ == decimal_spec(n as nat),
    decreases n,
{
    if n < 10 {
        digit(n).to_string()
    } else {
        let mut s = decimal(n / 10);
        s.append(digit(n % 10));
        s
    }
}

pub open spec fn arguments_msg(e: ArgumentsError) -> Seq<char> {
    match e {
        ArgumentsError::Missing(n) => decimal_spec(n as nat) + "th argument is missing"@,
        ArgumentsError::WrongType(t, n) => "Wrong type, expected a "@ + t@ + " on the "@
            + decimal_spec(n as nat) + "th argument"@,
        ArgumentsError::Deserialization(m) => "Deserialization error: "@ + m@,
    }
}

/// What an error says, and the short code of its domain.
pub trait JsError {
    fn get_msg(&self) -> String;

    fn get_code(&self) -> Option<String>;
}

impl JsError for ArgumentsError {
    fn get_msg(&self) -> (r: String)
        ensures
            r@ == arguments_msg(*self),
    {
        match self {
            ArgumentsError::Missing(n) => decimal(*n).concat("th argument is missing"),
            ArgumentsError::WrongType(t, n) => {
                let mut s = "Wrong type, expected a ".to_string();
                s.append(t.as_str());
                s.append(" on the ");
                s.append(decimal(*n).as_str());
                s.append("th argument");
                s
            },
            ArgumentsError::Deserialization(m) => "Deserialization error: ".to_string().concat(m.as_str()),
        }
    }

    fn get_code(&self) -> (r: Option<String>)
        ensures
            r matches Some(c) && c@ == "PINAR"@,
    {
        Some("PINAR".to_string())
    }
}

/// What each failure says to the host.
pub open spec fn error_msg(e: Error) -> Seq<char> {
    match e {
        Error::Arguments(a) => arguments_msg(a),
        Error::Status(st) => crate::status::status_message(st),
        Error::Any(_) => "Wrong conversion from a dynamic value"@,
        Error::Class(c) => match c {
            ClassError::ExternalClassData => "Fail to extract the native data of the class"@,
            ClassError::WrongHandler => "Wrong handler for the class method"@,
            ClassError::WrongClass => "A class method has been called with the wrong class"@,
            ClassError::ThisConstructor(n) => "Wrong 'this' value. Did you call the constructor with 'new' ? (ex: 'let a = new "@
                + n@ + "()')"@,
            ClassError::ThisMethod(n) => "Wrong 'this' value on a method call of the class "@ + n@,
            ClassError::NoConstructor(n) => "Constructor of the class "@ + n@ + " is not defined"@,
            ClassError::Unwrap => "Fail to unwrap the class"@,
        },
        Error::Function(f) => match f {
            FunctionError::ArgumentsOverload(n) => "Multiple overload of the function "@ + n@ + " failed."@,
            FunctionError::WrongFunctionData => "Fail to dispatch the function"@,
        },
        Error::External(x) => match x {
            ExternalError::WrongType => "The external value holds another type"@,
            ExternalError::WrongOwnership => "The external value is owned another way"@,
        },
        Error::Deserialize(m) => m@,
        Error::Serialize(m) => m@,
    }
}

impl JsError for Error {
    fn get_msg(&self) -> (r: String)
        ensures
            r@ == error_msg(*self),
    {
        match self {
            Error::Arguments(a) => a.get_msg(),
            Error::Status(st) => st.message().to_string(),
            Error::Any(_) => "Wrong conversion from a dynamic value".to_string(),
            Error::Class(c) => match c {
                ClassError::ExternalClassData => "Fail to extract the native data of the class".to_string(),
                ClassError::WrongHandler => "Wrong handler for the class method".to_string(),
                ClassError::WrongClass => "A class method has been called with the wrong class".to_string(),
                ClassError::ThisConstructor(n) => {
                    let mut s = "Wrong 'this' value. Did you call the constructor with 'new' ? (ex: 'let a = new ".to_string();
                    s.append(n.as_str());
                    s.append("()')");
                    s
                },
                ClassError::ThisMethod(n) => "Wrong 'this' value on a method call of the class ".to_string().concat(n.as_str()),
                ClassError::NoConstructor(n) => {
                    let mut s = "Constructor of the class ".to_string();
                    s.append(n.as_str());
                    s.append(" is not defined");
                    s
                },
                ClassError::Unwrap => "Fail to unwrap the class".to_string(),
            },
            Error::Function(f) => match f {
                FunctionError::ArgumentsOverload(n) => {
                    let mut s = "Multiple overload of the function ".to_string();
                    s.append(n.as_str());
                    s.append(" failed.");
                    s
                },
                FunctionError::WrongFunctionData => "Fail to dispatch the function".to_string(),
            },
            Error::External(x) => match x {
                ExternalError::WrongType => "The external value holds another type".to_string(),
                ExternalError::WrongOwnership => "The external value is owned another way".to_string(),
            },
            Error::Deserialize(m) => m.clone(),
            Error::Serialize(m) => m.clone(),
        }
    }

    fn get_code(&self) -> (r: Option<String>)
        ensures
            r matches Some(c) && (is_host_failure(*self) ==> c@ == "N-API"@) && (!is_host_failure(*self)
                ==> c@ == "PINAR"@),
    {
        Some(self.domain_code())
    }
}

} // verus!
