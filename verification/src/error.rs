//! Failures of parsing: what went wrong, said in words, and where.

use vstd::prelude::*;
use vstd::string::*;
use crate::grammar::{failure_message, LineColLocation};
use crate::tree::{Rule, Span};

verus! {

/// A failure of parsing. Each variant carries a message; the first carries
/// the line and column at which the text stops to follow the grammar, the
/// others the stretch of text that could not be read.
#[derive(Debug, PartialEq)]
pub enum MohoError {
    TokenizerError(String, LineColLocation),
    ParseArgumentError(String, Span),
    ParsePropertyError(String, Span),
    ParseValueError(String, Span),
    ParseClassError(String, Span),
    DeclarationError(String, Span),
    ParseTypeError(String, Span),
    ParseFieldError(String, Span),
}

/// The stage of parsing that a failure belongs to.
#[derive(Clone, Copy, Debug, PartialEq, Eq, Structural)]
pub enum ErrorKind {
    Tokenizer,
    ParseArgument,
    ParseProperty,
    ParseValue,
    ParseClass,
    Declaration,
    ParseType,
    ParseField,
}

/// What the parser found wrong in a fragment.
#[derive(Clone, Copy, Debug, PartialEq, Eq, Structural)]
pub enum Reason {
    /// A class without a name.
    ClassNameMissing,
    /// A part of a class that is no property list, name, list of bases or
    /// declaration.
    UnexpectedInClass,
    /// A property without a name.
    PropertyNameMissing,
    /// A value without a literal in it.
    ValueMissing,
    /// A fragment that is no literal where a value is read.
    UnreadableValue,
    /// A number without any character.
    EmptyNumber,
    /// A number with a character that is no digit.
    InvalidDigit,
    /// A number above the largest that its type holds.
    NumberTooLarge,
    /// A number below the smallest that its type holds.
    NumberTooSmall,
    /// A truth value that is neither `true` nor `false`.
    NotABool,
    /// A number with a fraction that is not written as digits, a point and
    /// digits.
    NotAFloat,
    /// A part of an argument that is no property list, type or value.
    UnexpectedInArgument,
    /// A part of a declaration that is no property list, field, method or
    /// block.
    UnexpectedInBlock,
    /// A part of a field or method that does not belong there.
    UnexpectedInField,
    /// A type whose first part is neither a wrapper nor a name.
    UnknownType,
    /// A type or a wrapper with nothing inside it.
    EmptyType,
}

/// The stage that a reason belongs to.
pub open spec fn kind_of(reason: Reason) -> ErrorKind {
    match reason {
        Reason::ClassNameMissing => ErrorKind::ParseClass,
        Reason::UnexpectedInClass => ErrorKind::ParseClass,
        Reason::PropertyNameMissing => ErrorKind::ParseProperty,
        Reason::ValueMissing => ErrorKind::ParseProperty,
        Reason::UnreadableValue => ErrorKind::ParseValue,
        Reason::EmptyNumber => ErrorKind::ParseValue,
        Reason::InvalidDigit => ErrorKind::ParseValue,
        Reason::NumberTooLarge => ErrorKind::ParseValue,
        Reason::NumberTooSmall => ErrorKind::ParseValue,
        Reason::NotABool => ErrorKind::ParseValue,
        Reason::NotAFloat => ErrorKind::ParseValue,
        Reason::UnexpectedInArgument => ErrorKind::ParseArgument,
        Reason::UnexpectedInBlock => ErrorKind::Declaration,
        Reason::UnexpectedInField => ErrorKind::ParseField,
        Reason::UnknownType => ErrorKind::ParseType,
        Reason::EmptyType => ErrorKind::ParseType,
    }
}

/// The message that goes with a reason.
pub open spec fn message_of(reason: Reason) -> Seq<char> {
    match reason {
        Reason::ClassNameMissing => "Class name missing."@,
        Reason::UnexpectedInClass => "Cannot parse this in a class."@,
        Reason::PropertyNameMissing => "Expected property name"@,
        Reason::ValueMissing => "Failed to parse property"@,
        Reason::UnreadableValue => "Cannot read value"@,
        Reason::EmptyNumber => "cannot parse integer from empty string"@,
        Reason::InvalidDigit => "invalid digit found in string"@,
        Reason::NumberTooLarge => "number too large to fit in target type"@,
        Reason::NumberTooSmall => "number too small to fit in target type"@,
        Reason::NotABool => "provided string was not `true` or `false`"@,
        Reason::NotAFloat => "invalid float literal"@,
        Reason::UnexpectedInArgument => "Cannot parse argument."@,
        Reason::UnexpectedInBlock => "Unexpected token in block."@,
        Reason::UnexpectedInField => "Cannot parse this in a field."@,
        Reason::UnknownType => "Unknown type."@,
        Reason::EmptyType => "Parsing type failed."@,
    }
}

/// A failure as contracts speak of it.
pub enum Failure {
    /// The text does not follow the grammar from this line and column on.
    Syntax { line: int, column: int },
    /// The fragment from `start` up to `end` could not be read.
    Parse { reason: Reason, start: int, end: int },
}

impl MohoError {
    /// The stage that the failure belongs to.
    pub open spec fn kind(self) -> ErrorKind {
        match self {
            MohoError::TokenizerError(_, _) => ErrorKind::Tokenizer,
            MohoError::ParseArgumentError(_, _) => ErrorKind::ParseArgument,
            MohoError::ParsePropertyError(_, _) => ErrorKind::ParseProperty,
            MohoError::ParseValueError(_, _) => ErrorKind::ParseValue,
            MohoError::ParseClassError(_, _) => ErrorKind::ParseClass,
            MohoError::DeclarationError(_, _) => ErrorKind::Declaration,
            MohoError::ParseTypeError(_, _) => ErrorKind::ParseType,
            MohoError::ParseFieldError(_, _) => ErrorKind::ParseField,
        }
    }

    /// The message of the failure.
    pub open spec fn message(self) -> Seq<char> {
        match self {
            MohoError::TokenizerError(m, _) => m@,
            MohoError::ParseArgumentError(m, _) => m@,
            MohoError::ParsePropertyError(m, _) => m@,
            MohoError::ParseValueError(m, _) => m@,
            MohoError::ParseClassError(m, _) => m@,
            MohoError::DeclarationError(m, _) => m@,
            MohoError::ParseTypeError(m, _) => m@,
            MohoError::ParseFieldError(m, _) => m@,
        }
    }

    /// `self` reports the failure `f`: the stage, the message and the place
    /// are those of `f`.
    pub open spec fn reports(self, f: Failure) -> bool {
        match f {
            Failure::Syntax { line, column } => {
                &&& self matches MohoError::TokenizerError(m, at)
                &&& m@ == failure_message(Rule::moho)
                &&& at.line == line
                &&& at.column == column
            },
            Failure::Parse { reason, start, end } => {
                &&& self.kind() == kind_of(reason)
                &&& self.message() == message_of(reason)
                &&& match self {
                    MohoError::TokenizerError(_, _) => false,
                    MohoError::ParseArgumentError(_, s) => s.start == start && s.end == end,
                    MohoError::ParsePropertyError(_, s) => s.start == start && s.end == end,
                    MohoError::ParseValueError(_, s) => s.start == start && s.end == end,
                    MohoError::ParseClassError(_, s) => s.start == start && s.end == end,
                    MohoError::DeclarationError(_, s) => s.start == start && s.end == end,
                    MohoError::ParseTypeError(_, s) => s.start == start && s.end == end,
                    MohoError::ParseFieldError(_, s) => s.start == start && s.end == end,
                }
            },
        }
    }

    /// The failure for `reason` at `span`.
    pub fn because(reason: Reason, span: Span) -> (e: MohoError)
        ensures
            e.reports(Failure::Parse { reason, start: span.start as int, end: span.end as int }),
    {
        match reason {
            Reason::ClassNameMissing => MohoError::ParseClassError(
                String::from_str("Class name missing."),
                span,
            ),
            Reason::UnexpectedInClass => MohoError::ParseClassError(
                String::from_str("Cannot parse this in a class."),
                span,
            ),
            Reason::PropertyNameMissing => MohoError::ParsePropertyError(
                String::from_str("Expected property name"),
                span,
            ),
            Reason::ValueMissing => MohoError::ParsePropertyError(
                String::from_str("Failed to parse property"),
                span,
            ),
            Reason::UnreadableValue => MohoError::ParseValueError(
                String::from_str("Cannot read value"),
                span,
            ),
            Reason::EmptyNumber => MohoError::ParseValueError(
                String::from_str("cannot parse integer from empty string"),
                span,
            ),
            Reason::InvalidDigit => MohoError::ParseValueError(
                String::from_str("invalid digit found in string"),
                span,
            ),
            Reason::NumberTooLarge => MohoError::ParseValueError(
                String::from_str("number too large to fit in target type"),
                span,
            ),
            Reason::NumberTooSmall => MohoError::ParseValueError(
                String::from_str("number too small to fit in target type"),
                span,
            ),
            Reason::NotABool => MohoError::ParseValueError(
                String::from_str("provided string was not `true` or `false`"),
                span,
            ),
            Reason::NotAFloat => MohoError::ParseValueError(
                String::from_str("invalid float literal"),
                span,
            ),
            Reason::UnexpectedInArgument => MohoError::ParseArgumentError(
                String::from_str("Cannot parse argument."),
                span,
            ),
            Reason::UnexpectedInBlock => MohoError::DeclarationError(
                String::from_str("Unexpected token in block."),
                span,
            ),
            Reason::UnexpectedInField => MohoError::ParseFieldError(
                String::from_str("Cannot parse this in a field."),
                span,
            ),
            Reason::UnknownType => MohoError::ParseTypeError(
                String::from_str("Unknown type."),
                span,
            ),
            Reason::EmptyType => MohoError::ParseTypeError(
                String::from_str("Parsing type failed."),
                span,
            ),
        }
    }
}

} // verus!
