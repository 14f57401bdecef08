//! Status codes reported by the host's primitive calls.
use vstd::prelude::*;

verus! {

/// The outcome of one host primitive call.
#[derive(Debug, Clone, Copy, PartialEq, Eq, Structural)]
pub enum Status {
    Success,
    InvalidArg,
    ObjectExpected,
    StringExpected,
    NameExpected,
    FunctionExpected,
    NumberExpected,
    BooleanExpected,
    ArrayExpected,
    GenericFailure,
    PendingException,
    Cancelled,
    EscapeCalledTwice,
    HandleScopeMismatch,
    CallbackScopeMismatch,
    QueueFull,
    Closing,
    BigintExpected,
}

/// The status that the host's numeric code `c` stands for, if it is one.
pub open spec fn status_of(c: u32) -> Option<Status> {
    if c == 0 { Some(Status::Success) }
    else if c == 1 { Some(Status::InvalidArg) }
    else if c == 2 { Some(Status::ObjectExpected) }
    else if c == 3 { Some(Status::StringExpected) }
    else if c == 4 { Some(Status::NameExpected) }
    else if c == 5 { Some(Status::FunctionExpected) }
    else if c == 6 { Some(Status::NumberExpected) }
    else if c == 7 { Some(Status::BooleanExpected) }
    else if c == 8 { Some(Status::ArrayExpected) }
    else if c == 9 { Some(Status::GenericFailure) }
    else if c == 10 { Some(Status::PendingException) }
    else if c == 11 { Some(Status::Cancelled) }
    else if c == 12 { Some(Status::EscapeCalledTwice) }
    else if c == 13 { Some(Status::HandleScopeMismatch) }
    else if c == 14 { Some(Status::CallbackScopeMismatch) }
    else if c == 15 { Some(Status::QueueFull) }
    else if c == 16 { Some(Status::Closing) }
    else if c == 17 { Some(Status::BigintExpected) }
    else { None }
}

pub open spec fn status_message(s: Status) -> Seq<char> {
    match s {
        Status::Success => "Ok."@,
        Status::InvalidArg => "Invalid argument."@,
        Status::ObjectExpected => "Object expected."@,
        Status::StringExpected => "String expected."@,
        Status::NameExpected => "Name expected."@,
        Status::FunctionExpected => "Function expected."@,
        Status::NumberExpected => "Number expected."@,
        Status::BooleanExpected => "Boolean expected."@,
        Status::ArrayExpected => "Array expected."@,
        Status::GenericFailure => "Generic failure."@,
        Status::PendingException => "Pending exception."@,
        Status::Cancelled => "Cancelled."@,
        Status::EscapeCalledTwice => "Escape called twice."@,
        Status::HandleScopeMismatch => "Handle scope mismatch."@,
        Status::CallbackScopeMismatch => "Callback scope mismatch."@,
        Status::QueueFull => "Queue full."@,
        Status::Closing => "Closing."@,
        Status::BigintExpected => "Bigint expected."@,
    }
}

impl Status {
    /// The status for the host's numeric code; a code the host does not
    /// define reads as a generic failure.
    pub fn from_code(c: u32) -> (r: Status)
        ensures
            r == match status_of(c) {
                Some(s) => s,
                None => Status::GenericFailure,
            },
    {
        match c {
            0 => Status::Success,
            1 => Status::InvalidArg,
            2 => Status::ObjectExpected,
            3 => Status::StringExpected,
            4 => Status::NameExpected,
            5 => Status::FunctionExpected,
            6 => Status::NumberExpected,
            7 => Status::BooleanExpected,
            8 => Status::ArrayExpected,
            9 => Status::GenericFailure,
            10 => Status::PendingException,
            11 => Status::Cancelled,
            12 => Status::EscapeCalledTwice,
            13 => Status::HandleScopeMismatch,
            14 => Status::CallbackScopeMismatch,
            15 => Status::QueueFull,
            16 => Status::Closing,
            17 => Status::BigintExpected,
            _ => Status::GenericFailure,
        }
    }

    /// `Ok(())` for a successful call, else the failure as an error.
    pub fn result(c: u32) -> (r: Result<(), Status>)
        ensures
            c == 0 ==> r == Ok::<(), Status>(()),
            c != 0 ==> r == Err::<(), Status>(Status::from_code_spec(c)),
    {
        if c == 0 {
            Ok(())
        } else {
            Err(Status::from_code(c))
        }
    }

    /// What the status says.
    pub fn message(&self) -> (r: &'static str)
        ensures
            r@ == status_message(*self),
    {
        match self {
            Status::Success => "Ok.",
            Status::InvalidArg => "Invalid argument.",
            Status::ObjectExpected => "Object expected.",
            Status::StringExpected => "String expected.",
            Status::NameExpected => "Name expected.",
            Status::FunctionExpected => "Function expected.",
            Status::NumberExpected => "Number expected.",
            Status::BooleanExpected => "Boolean expected.",
            Status::ArrayExpected => "Array expected.",
            Status::GenericFailure => "Generic failure.",
            Status::PendingException => "Pending exception.",
            Status::Cancelled => "Cancelled.",
            Status::EscapeCalledTwice => "Escape called twice.",
            Status::HandleScopeMismatch => "Handle scope mismatch.",
            Status::CallbackScopeMismatch => "Callback scope mismatch.",
            Status::QueueFull => "Queue full.",
            Status::Closing => "Closing.",
            Status::BigintExpected => "Bigint expected.",
        }
    }

    pub open spec fn from_code_spec(c: u32) -> Status {
        match status_of(c) {
            Some(s) => s,
            None => Status::GenericFailure,
        }
    }
}

} // verus!
