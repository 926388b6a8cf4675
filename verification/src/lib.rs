//! Verified document assembly for developable-surface exports.
pub mod example;
pub mod obj;
pub mod plot;
pub mod records;
pub mod spline;
pub mod svg;
pub mod text;

use vstd::prelude::*;

verus! {

/// The text of an exported file.
pub struct StrFileData {
    pub contents: String,
}

impl core::ops::Deref for StrFileData {
    type Target = [u8];

    /// The bytes of the contents, for writing.
    fn deref(&self) -> (b: &[u8])
        ensures
            b@ == vstd::utf8::encode_utf8(self.contents@),
    {
        self.contents.as_str().as_bytes()
    }
}

impl AsRef<[u8]> for StrFileData {
    /// The bytes of the contents, for writing.
    fn as_ref(&self) -> (b: &[u8])
        ensures
            b@ == vstd::utf8::encode_utf8(self.contents@),
    {
        self.contents.as_str().as_bytes()
    }
}


/// `core::fmt::Error`, the error type of text formatting, carried as it is.
#[verifier::external_type_specification]
#[verifier::external_body]
pub struct ExFmtError(core::fmt::Error);

} // verus!
