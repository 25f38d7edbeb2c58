use vstd::prelude::*;

use crate::text::{push_nat_decimal, push_str, spec_nat_decimal};

verus! {

/// A source span: start line, start column, end line, end column.
pub type Coords = (usize, usize, usize, usize);

/// The phase that reports an error.
#[derive(Debug, Clone, Copy, PartialEq, Eq)]
pub enum ErrorType {
    ParseError,
    LogicError,
    TypeError,
    RuntimeError,
}

/// A positioned error of one of the four kinds.
#[derive(Debug)]
pub struct Error {
    pub error_type: ErrorType,
    pub message: String,
    pub start: (usize, usize),
    pub finish: (usize, usize),
}

/// What a contract pins down of an error: its kind and its span.
pub open spec fn spec_error_is(e: Error, kind: ErrorType, pos: Coords) -> bool {
    &&& e.error_type == kind
    &&& e.start == (pos.0, pos.1)
    &&& e.finish == (pos.2, pos.3)
}

impl Clone for Error {
    fn clone(&self) -> (r: Self)
        ensures
            r == *self,
    {
        Error { error_type: self.error_type, message: self.message.clone(), start: self.start, finish: self.finish }
    }
}

impl Error {
    pub fn parse(mes: String, pos: Coords) -> (r: Error)
        ensures
            spec_error_is(r, ErrorType::ParseError, pos),
            r.message@ == mes@,
    {
        Error { error_type: ErrorType::ParseError, message: mes, start: (pos.0, pos.1), finish: (pos.2, pos.3) }
    }

    #[allow(non_snake_case)]
    pub fn typeEr(mes: String, pos: Coords) -> (r: Error)
        ensures
            spec_error_is(r, ErrorType::TypeError, pos),
            r.message@ == mes@,
    {
        Error { error_type: ErrorType::TypeError, message: mes, start: (pos.0, pos.1), finish: (pos.2, pos.3) }
    }

    pub fn logic(mes: String, pos: Coords) -> (r: Error)
        ensures
            spec_error_is(r, ErrorType::LogicError, pos),
            r.message@ == mes@,
    {
        Error { error_type: ErrorType::LogicError, message: mes, start: (pos.0, pos.1), finish: (pos.2, pos.3) }
    }

    pub fn runtime(mes: String, pos: Coords) -> (r: Error)
        ensures
            spec_error_is(r, ErrorType::RuntimeError, pos),
            r.message@ == mes@,
    {
        Error { error_type: ErrorType::RuntimeError, message: mes, start: (pos.0, pos.1), finish: (pos.2, pos.3) }
    }
}

/// The words that open an error's report, by kind; the span follows as
/// `line:column - line:column`.
pub open spec fn spec_error_prefix(t: ErrorType) -> Seq<char> {
    match t {
        ErrorType::ParseError => "Got error during parsing: "@,
        ErrorType::LogicError => "Got logical error: "@,
        ErrorType::TypeError => "Got type checker error: "@,
        ErrorType::RuntimeError => "Got runtime error: "@,
    }
}

/// How an error is reported: what went wrong, then where.
pub open spec fn spec_describe(e: Error) -> Seq<char> {
    spec_error_prefix(e.error_type) + e.message@ + " at "@ + spec_nat_decimal(e.start.0 as nat) + ":"@ + spec_nat_decimal(e.start.1 as nat) + " - "@
        + spec_nat_decimal(e.finish.0 as nat) + ":"@ + spec_nat_decimal(e.finish.1 as nat)
}

impl Error {
    /// The error as a line of text.
    pub fn describe(&self) -> (r: String)
        ensures
            r@ == spec_describe(*self),
    {
        let mut s = match self.error_type {
            ErrorType::ParseError => String::from_str("Got error during parsing: "),
            ErrorType::LogicError => String::from_str("Got logical error: "),
            ErrorType::TypeError => String::from_str("Got type checker error: "),
            ErrorType::RuntimeError => String::from_str("Got runtime error: "),
        };
        push_str(&mut s, self.message.as_str());
        push_str(&mut s, " at ");
        push_nat_decimal(&mut s, self.start.0 as u64);
        push_str(&mut s, ":");
        push_nat_decimal(&mut s, self.start.1 as u64);
        push_str(&mut s, " - ");
        push_nat_decimal(&mut s, self.finish.0 as u64);
        push_str(&mut s, ":");
        push_nat_decimal(&mut s, self.finish.1 as u64);
        proof {
            assert(s@ =~= spec_describe(*self));
        }
        s
    }
}

} // verus!
