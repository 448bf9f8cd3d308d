//! Image-kind detection by magic number, and the data-URL test used when
//! collecting image references to resolve.

use vstd::prelude::*;
use vstd::string::StrSliceExecFns;

verus! {

/// Failures this library reports to its callers.
#[derive(Clone, Copy, PartialEq, Eq, Structural, Debug)]
pub enum Error {
    /// The buffer is not one of the supported image formats.
    UnsupportedImage,
}

/// The image formats whose magic numbers are recognised.
#[derive(Clone, Copy, PartialEq, Eq, Structural, Debug)]
pub enum MimeType {
    Png,
    Jpeg,
    Gif,
}

/// The string opens with the five characters of a data URL scheme.
pub open spec fn starts_with_data(s: Seq<char>) -> bool {
    s.len() >= 5 && s[0] == 'd' && s[1] == 'a' && s[2] == 't' && s[3] == 'a' && s[4] == ':'
}

/// A URL needs external resolution exactly when it is not a data URL.
pub fn is_not_data_url(data: &str) -> (r: bool)
    ensures
        r == !starts_with_data(data@),
{
    let n = data.unicode_len();
    if n < 5 {
        return true;
    }
    !(data.get_char(0) == 'd' && data.get_char(1) == 'a' && data.get_char(2) == 't'
        && data.get_char(3) == 'a' && data.get_char(4) == ':')
}

/// What `MimeType::parse` recognises in a byte buffer.
pub open spec fn parse_spec(b: Seq<u8>) -> Result<MimeType, Error> {
    if b.len() < 4 {
        Err(Error::UnsupportedImage)
    } else if b[0] == 0x89 && b[1] == 0x50 && b[2] == 0x4E && b[3] == 0x47 {
        Ok(MimeType::Png)
    } else if b[0] == 0xFF && b[1] == 0xD8 && b[2] == 0xFF {
        Ok(MimeType::Jpeg)
    } else if b[0] == 0x47 && b[1] == 0x49 && b[2] == 0x46 {
        Ok(MimeType::Gif)
    } else {
        Err(Error::UnsupportedImage)
    }
}

impl MimeType {
    /// Detect the image format by magic number; only the formats the
    /// renderer supports are recognised.
    pub fn parse(buffer: &[u8]) -> (r: Result<Self, Error>)
        ensures
            r == parse_spec(buffer@),
    {
        if buffer.len() < 4 {
            return Err(Error::UnsupportedImage);
        }
        let b0 = buffer[0];
        let b1 = buffer[1];
        let b2 = buffer[2];
        let b3 = buffer[3];
        if b0 == 0x89 && b1 == 0x50 && b2 == 0x4E && b3 == 0x47 {
            Ok(MimeType::Png)
        } else if b0 == 0xFF && b1 == 0xD8 && b2 == 0xFF {
            Ok(MimeType::Jpeg)
        } else if b0 == 0x47 && b1 == 0x49 && b2 == 0x46 {
            Ok(MimeType::Gif)
        } else {
            Err(Error::UnsupportedImage)
        }
    }

    /// The MIME type string for the detected format.
    pub fn mime_type(&self) -> (r: &'static str)
        ensures
            *self is Png ==> r@ == "image/png"@,
            *self is Gif ==> r@ == "image/gif"@,
            *self is Jpeg ==> r@ == "image/jpeg"@,
    {
        match self {
            MimeType::Png => "image/png",
            MimeType::Gif => "image/gif",
            MimeType::Jpeg => "image/jpeg",
        }
    }
}

} // verus!
