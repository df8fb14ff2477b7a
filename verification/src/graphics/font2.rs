use vstd::prelude::*;
use std::sync::Arc;
use fontdue::{Font as FontdueFont, FontSettings};

verus! {

#[verifier::external_type_specification]
#[verifier::external_body]
pub struct ExFontdueFont(FontdueFont);

/// What `fontdue::Font::from_bytes` makes of `data` with default settings:
/// `Ok` when the bytes parse as a font, else its error message.
pub uninterp spec fn fontdue_parse(data: Seq<u8>) -> Result<(), Seq<char>>;

/// A failed parse with the given message.
pub open spec fn parse_failure(message: Seq<char>) -> Result<(), Seq<char>> {
    Err(message)
}

/// `fontdue::Font::from_bytes(data, FontSettings::default())`: parses a
/// font; whether it succeeds, and the message when it fails, depend on the
/// bytes alone.
#[verifier::external_body]
fn fontdue_from_bytes(data: &[u8]) -> (font: Result<FontdueFont, &'static str>)
    ensures
        font is Ok <==> fontdue_parse(data@) is Ok,
        font matches Err(message) ==> fontdue_parse(data@) == parse_failure(message@),
{
    FontdueFont::from_bytes(data, FontSettings::default())
}

/// Why a font could not be loaded.
#[derive(Clone, Copy, Debug)]
pub struct FontError {
    message: &'static str,
}

impl View for FontError {
    type V = Seq<char>;

    closed spec fn view(&self) -> Seq<char> {
        self.message@
    }
}

impl FontError {
    /// The error's message.
    pub fn message(&self) -> (m: &'static str)
        ensures
            m@ == self@,
    {
        self.message
    }
}

/// A parsed font. Cheap to clone.
#[derive(Clone, Debug)]
pub struct Font(Arc<FontdueFont>);

impl Font {
    /// Parses a font from its file's bytes.
    pub fn new(data: &[u8]) -> (font: Result<Self, FontError>)
        ensures
            font is Ok <==> fontdue_parse(data@) is Ok,
            font matches Err(e) ==> fontdue_parse(data@) == parse_failure(e@),
    {
        match fontdue_from_bytes(data) {
            Ok(font) => Ok(Font(Arc::new(font))),
            Err(message) => Err(FontError { message }),
        }
    }
}

} // verus!
