//! What formatting a template can fail with.

use crate::syntax::SyntaxFault;
use crate::text::append;
use crate::text::chars_of;
use crate::text::text_of;
use vstd::prelude::*;

verus! {

/// Why a directive could not be resolved.
#[derive(Clone, Copy, Debug, PartialEq, Eq, Structural)]
pub enum ResolverFault {
    /// A path query matched no scalar.
    PathNotFound,
    /// A path query matched more than one node.
    PathAmbiguous,
    /// The environment has no variable of that name.
    EnvVarMissing,
    /// The response has no header of that name.
    HeaderMissing,
    /// The pattern found nothing to capture.
    NoRegexMatch,
    /// The pattern does not compile.
    InvalidRegex,
    /// The document to query does not parse.
    BodyParseError,
    /// The file or the response was asked for before it was bound.
    MissingBinding,
    /// A parameter is missing, or names nothing that the directive knows,
    /// or cannot be used as what the directive needs.
    InvalidParameter,
}

/// Why a template could not be formatted. Any of these ends the whole
/// call: nothing of the output is handed out.
#[derive(Clone, Debug, PartialEq, Eq)]
pub enum TemplateError {
    /// The template is malformed.
    SyntaxError(SyntaxFault),
    /// No directive has this name.
    UnknownDirectiveError(String),
    /// The directive of this name could not be resolved.
    ResolverError { directive: String, fault: ResolverFault },
}

/// `TemplateError`, with sequences for strings.
pub enum Failure {
    Syntax(SyntaxFault),
    UnknownDirective(Seq<char>),
    Resolver { directive: Seq<char>, fault: ResolverFault },
}

impl View for TemplateError {
    type V = Failure;

    open spec fn view(&self) -> Failure {
        match self {
            TemplateError::SyntaxError(fault) => Failure::Syntax(*fault),
            TemplateError::UnknownDirectiveError(name) => Failure::UnknownDirective(name@),
            TemplateError::ResolverError { directive, fault } => Failure::Resolver {
                directive: directive@,
                fault: *fault,
            },
        }
    }
}

/// What is wrong with a malformed template, in words.
pub open spec fn syntax_message(fault: SyntaxFault) -> Seq<char> {
    match fault {
        SyntaxFault::UnmatchedEnd => "Unmatched directive end."@,
        SyntaxFault::UnmatchedStart => "Unmatched directive start."@,
        SyntaxFault::StartInName => "Sub-directives in the directive name are not allowed."@,
        SyntaxFault::SeparatorInName =>
            "Parameter separators are not allowed in the directive name."@,
        SyntaxFault::EmptyName => "Empty directive."@,
    }
}

/// Why a resolver failed, in words.
pub open spec fn resolver_message(fault: ResolverFault) -> Seq<char> {
    match fault {
        ResolverFault::PathNotFound => "The path matches no value."@,
        ResolverFault::PathAmbiguous => "The path matches more than one value."@,
        ResolverFault::EnvVarMissing => "Invalid environment variable."@,
        ResolverFault::HeaderMissing => "Header not found."@,
        ResolverFault::NoRegexMatch => "No match."@,
        ResolverFault::InvalidRegex => "Invalid regex."@,
        ResolverFault::BodyParseError => "The document does not parse."@,
        ResolverFault::MissingBinding => "Used before it is available."@,
        ResolverFault::InvalidParameter => "Invalid parameter."@,
    }
}

/// A failure, in words: for a directive its name, a colon and a space go
/// before what is wrong with it.
pub open spec fn message_of(failure: Failure) -> Seq<char> {
    match failure {
        Failure::Syntax(fault) => syntax_message(fault),
        Failure::UnknownDirective(name) => "Unknown directive: "@ + name,
        Failure::Resolver { directive, fault } => directive + ": "@ + resolver_message(fault),
    }
}

impl SyntaxFault {
    /// What is wrong, in words.
    pub fn message(&self) -> (text: &'static str)
        ensures
            text@ == syntax_message(*self),
    {
        match self {
            SyntaxFault::UnmatchedEnd => "Unmatched directive end.",
            SyntaxFault::UnmatchedStart => "Unmatched directive start.",
            SyntaxFault::StartInName => "Sub-directives in the directive name are not allowed.",
            SyntaxFault::SeparatorInName =>
                "Parameter separators are not allowed in the directive name.",
            SyntaxFault::EmptyName => "Empty directive.",
        }
    }
}

impl ResolverFault {
    /// What is wrong, in words.
    pub fn message(&self) -> (text: &'static str)
        ensures
            text@ == resolver_message(*self),
    {
        match self {
            ResolverFault::PathNotFound => "The path matches no value.",
            ResolverFault::PathAmbiguous => "The path matches more than one value.",
            ResolverFault::EnvVarMissing => "Invalid environment variable.",
            ResolverFault::HeaderMissing => "Header not found.",
            ResolverFault::NoRegexMatch => "No match.",
            ResolverFault::InvalidRegex => "Invalid regex.",
            ResolverFault::BodyParseError => "The document does not parse.",
            ResolverFault::MissingBinding => "Used before it is available.",
            ResolverFault::InvalidParameter => "Invalid parameter.",
        }
    }
}

impl TemplateError {
    /// The failure, in words.
    pub fn message(&self) -> (text: String)
        ensures
            text@ == message_of(self@),
    {
        match self {
            TemplateError::SyntaxError(fault) => fault.message().to_owned(),
            TemplateError::UnknownDirectiveError(name) => {
                let mut text = chars_of("Unknown directive: ");
                append(&mut text, &chars_of(name.as_str()));
                text_of(&text)
            },
            TemplateError::ResolverError { directive, fault } => {
                let mut text = chars_of(directive.as_str());
                append(&mut text, &chars_of(": "));
                append(&mut text, &chars_of(fault.message()));
                text_of(&text)
            },
        }
    }
}

/// An outcome held in character vectors, seen as a value of the
/// specification.
pub open spec fn outcome(r: Result<Vec<char>, TemplateError>) -> Result<Seq<char>, Failure> {
    match r {
        Ok(text) => Ok(text@),
        Err(error) => Err(error@),
    }
}

/// An outcome held in a string, seen as a value of the specification.
pub open spec fn text_outcome(r: Result<String, TemplateError>) -> Result<Seq<char>, Failure> {
    match r {
        Ok(text) => Ok(text@),
        Err(error) => Err(error@),
    }
}

/// What a resolver hands back, seen as a value of the specification.
pub open spec fn resolution(r: Result<Vec<char>, ResolverFault>) -> Result<
    Seq<char>,
    ResolverFault,
> {
    match r {
        Ok(text) => Ok(text@),
        Err(fault) => Err(fault),
    }
}

} // verus!
