//! The failures a compilation can end in.
//!
//! Every parse-time error is fatal for the current compilation: the first
//! error encountered is surfaced and nothing partial is produced.

use vstd::prelude::*;

verus! {

/// Why a compilation failed.
#[derive(Clone, Debug, PartialEq, Eq)]
pub enum Error {
    /// The input does not follow the surface grammar: a missing or
    /// unmatched delimiter, or an unexpected token where the grammar
    /// demands a particular one.
    MalformedScope,
    /// A record declared the named key twice.
    DuplicateKey(String),
    /// A record declared a key this grammar does not know.
    UnknownKey(String),
    /// A record was finalized without the named required key.
    MissingField(String),
    /// A buffer descriptor was declared without its `data` list.
    MissingData,
    /// A descriptor `ty` other than the supported kinds.
    UnsupportedDescriptorKind(String),
    /// A buffer field type tag outside the scalar-shape table.
    UnsupportedScalarType(String),
    /// A shader `kind` other than the supported stages.
    UnsupportedShaderKind(String),
    /// The external bytecode compiler rejected the shader source; the
    /// diagnostics are carried through unchanged.
    ShaderCompile(String),
}

/// The mathematical value of an [`Error`].
pub enum ErrorV {
    MalformedScope,
    DuplicateKey(Seq<char>),
    UnknownKey(Seq<char>),
    MissingField(Seq<char>),
    MissingData,
    UnsupportedDescriptorKind(Seq<char>),
    UnsupportedScalarType(Seq<char>),
    UnsupportedShaderKind(Seq<char>),
    ShaderCompile(Seq<char>),
}

impl View for Error {
    type V = ErrorV;

    open spec fn view(&self) -> ErrorV {
        match self {
            Error::MalformedScope => ErrorV::MalformedScope,
            Error::DuplicateKey(k) => ErrorV::DuplicateKey(k@),
            Error::UnknownKey(k) => ErrorV::UnknownKey(k@),
            Error::MissingField(k) => ErrorV::MissingField(k@),
            Error::MissingData => ErrorV::MissingData,
            Error::UnsupportedDescriptorKind(k) => ErrorV::UnsupportedDescriptorKind(k@),
            Error::UnsupportedScalarType(k) => ErrorV::UnsupportedScalarType(k@),
            Error::UnsupportedShaderKind(k) => ErrorV::UnsupportedShaderKind(k@),
            Error::ShaderCompile(k) => ErrorV::ShaderCompile(k@),
        }
    }
}

} // verus!
