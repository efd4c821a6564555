//! Why a shader or a program could not be built.
use crate::protocol::LoadError;
use vstd::prelude::*;
use vstd::string::*;

verus! {

/// The ways in which building a shader or a program ends without one. Each is
/// final for the operation that met it; nothing is retried.
#[derive(Debug, PartialEq, Eq)]
pub enum Error {
    /// The name carries none of the suffixes that tell the stage.
    UnknownShaderType { name: String, message: String },
    /// The loader could not produce the source called `name`.
    ResourceLoadError { name: String, inner: LoadError },
    /// The context rejected the source; `message` is its diagnostic log, and
    /// `name` is the name of the source or, where the source had none, the word
    /// for its stage.
    CompileError { name: String, message: String },
    /// The context could not link the stages; `message` is its diagnostic log.
    LinkError { name: String, message: String },
}

/// The mathematical content of an [`Error`].
pub enum ErrorView {
    UnknownShaderType { name: Seq<char>, message: Seq<char> },
    ResourceLoadError { name: Seq<char>, inner: Seq<char> },
    CompileError { name: Seq<char>, message: Seq<char> },
    LinkError { name: Seq<char>, message: Seq<char> },
}

impl View for Error {
    type V = ErrorView;

    open spec fn view(&self) -> ErrorView {
        match *self {
            Error::UnknownShaderType { name, message } => ErrorView::UnknownShaderType {
                name: name@,
                message: message@,
            },
            Error::ResourceLoadError { name, inner } => ErrorView::ResourceLoadError {
                name: name@,
                inner: inner@,
            },
            Error::CompileError { name, message } => ErrorView::CompileError {
                name: name@,
                message: message@,
            },
            Error::LinkError { name, message } => ErrorView::LinkError {
                name: name@,
                message: message@,
            },
        }
    }
}

impl ErrorView {
    /// The one-line description of the error.
    pub open spec fn describe(self) -> Seq<char> {
        match self {
            ErrorView::UnknownShaderType { name, .. } => "Unknown shader type for resource "@
                + name,
            ErrorView::ResourceLoadError { name, .. } => "Failed to load resource "@ + name,
            ErrorView::CompileError { name, message } => "Failed to compile shader "@ + name
                + ": "@ + message,
            ErrorView::LinkError { name, message } => "Failed to link program "@ + name + ": "@
                + message,
        }
    }
}

impl Error {
    /// Describes the error in one line, for a log or a message to the user.
    pub fn describe(&self) -> (text: String)
        ensures
            text@ == self@.describe(),
    {
        match self {
            Error::UnknownShaderType { name, .. } => String::from_str(
                "Unknown shader type for resource ",
            ).concat(name.as_str()),
            Error::ResourceLoadError { name, .. } => String::from_str(
                "Failed to load resource ",
            ).concat(name.as_str()),
            Error::CompileError { name, message } => String::from_str(
                "Failed to compile shader ",
            ).concat(name.as_str()).concat(": ").concat(message.as_str()),
            Error::LinkError { name, message } => String::from_str(
                "Failed to link program ",
            ).concat(name.as_str()).concat(": ").concat(message.as_str()),
        }
    }
}

} // verus!
