//! What can go wrong while a project is generated.

use crate::java::java_source_writer::EmitError;
use std::str::Utf8Error;
use vstd::prelude::*;
use vstd::std_specs::convert::FromSpecImpl;
use vstd::utf8::{encode_utf8, valid_utf8};

verus! {

/// `std::str::Utf8Error`, which says where bytes stop being UTF-8. It is
/// handed on unread.
#[verifier::external_type_specification]
#[verifier::external_body]
pub struct ExUtf8Error(Utf8Error);

/// Reads bytes as text: `core::str::from_utf8`, which checks that the bytes
/// are valid UTF-8 and then hands them out as a string slice.
pub assume_specification[ core::str::from_utf8 ](v: &[u8]) -> (r: Result<&str, Utf8Error>)
    ensures
        r is Ok <==> valid_utf8(v@),
        r matches Ok(s) ==> encode_utf8(s@) == v@,
;

/// An error of the generator.
#[derive(Debug)]
pub enum PGError {
    /// The XML writer failed.
    Xml(quick_xml::Error),
    /// Something went wrong that only a message describes.
    StringError(String),
    /// What was written is no UTF-8 text.
    Utf82(Utf8Error),
    /// A statement of the code model cannot be written.
    Template(EmitError),
}

impl From<quick_xml::Error> for PGError {
    fn from(value: quick_xml::Error) -> (e: PGError) {
        PGError::Xml(value)
    }
}

impl FromSpecImpl<quick_xml::Error> for PGError {
    open spec fn obeys_from_spec() -> bool {
        true
    }

    open spec fn from_spec(value: quick_xml::Error) -> PGError {
        PGError::Xml(value)
    }
}

impl From<Utf8Error> for PGError {
    fn from(value: Utf8Error) -> (e: PGError) {
        PGError::Utf82(value)
    }
}

impl FromSpecImpl<Utf8Error> for PGError {
    open spec fn obeys_from_spec() -> bool {
        true
    }

    open spec fn from_spec(value: Utf8Error) -> PGError {
        PGError::Utf82(value)
    }
}

impl From<EmitError> for PGError {
    fn from(value: EmitError) -> (e: PGError) {
        PGError::Template(value)
    }
}

impl FromSpecImpl<EmitError> for PGError {
    open spec fn obeys_from_spec() -> bool {
        true
    }

    open spec fn from_spec(value: EmitError) -> PGError {
        PGError::Template(value)
    }
}

} // verus!
