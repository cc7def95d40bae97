//! What a download must look like to become the wallpaper file, and the
//! name of that file.

use crate::error::CycleError;
use crate::file_id::{compare_ids, IdOrder};
use vstd::prelude::*;
use vstd::string::*;

verus! {

/// The image formats that the agent writes to disk.
#[derive(Clone, Copy, Debug, PartialEq, Eq, Structural)]
pub enum Extension {
    Png,
    Jpg,
}

impl Extension {
    /// The file extension as text.
    pub open spec fn suffix_spec(self) -> Seq<char> {
        match self {
            Extension::Png => "png"@,
            Extension::Jpg => "jpg"@,
        }
    }

    /// The file extension as text.
    pub fn suffix(self) -> (s: &'static str)
        ensures
            s@ == self.suffix_spec(),
    {
        match self {
            Extension::Png => "png",
            Extension::Jpg => "jpg",
        }
    }
}

/// The format that a content type names, if it is a known one.
pub open spec fn extension_of(content_type: Seq<char>) -> Option<Extension> {
    if content_type == "image/png"@ {
        Some(Extension::Png)
    } else if content_type == "image/jpeg"@ || content_type == "image/jpg"@ {
        Some(Extension::Jpg)
    } else {
        None
    }
}

/// What a response is worth: a failure status is a download error, a
/// missing or unknown content type is unsupported, and else the content
/// type decides the format.
pub open spec fn response_spec(success: bool, content_type: Option<Seq<char>>) -> Result<
    Extension,
    CycleError,
> {
    if !success {
        Err(CycleError::DownloadError)
    } else {
        match content_type {
            Some(text) => match extension_of(text) {
                Some(extension) => Ok(extension),
                None => Err(CycleError::UnsupportedContentType),
            },
            None => Err(CycleError::UnsupportedContentType),
        }
    }
}

/// The name of the wallpaper file for a format.
pub open spec fn file_name_of(extension: Extension) -> Seq<char> {
    "background."@ + extension.suffix_spec()
}

/// Maps a content type to the format of the wallpaper file.
pub fn extension_for(content_type: &str) -> (r: Result<Extension, CycleError>)
    ensures
        r == response_spec(true, Some(content_type@)),
{
    if compare_ids(content_type, "image/png") == IdOrder::Same {
        Ok(Extension::Png)
    } else if compare_ids(content_type, "image/jpeg") == IdOrder::Same {
        Ok(Extension::Jpg)
    } else if compare_ids(content_type, "image/jpg") == IdOrder::Same {
        Ok(Extension::Jpg)
    } else {
        Err(CycleError::UnsupportedContentType)
    }
}

/// Judges the provider's answer to a download: its status first, then its
/// content type.
pub fn check_response(success: bool, content_type: Option<&str>) -> (r: Result<
    Extension,
    CycleError,
>)
    ensures
        r == response_spec(
            success,
            match content_type {
                Some(text) => Some(text@),
                None => None,
            },
        ),
{
    if !success {
        return Err(CycleError::DownloadError);
    }
    match content_type {
        Some(text) => extension_for(text),
        None => Err(CycleError::UnsupportedContentType),
    }
}

/// The name of the wallpaper file: always the same stem, with the
/// extension of the downloaded format.
pub fn wallpaper_file_name(extension: Extension) -> (name: String)
    ensures
        name@ == file_name_of(extension),
{
    let mut name = String::from_str("background.");
    name.append(extension.suffix());
    name
}

} // verus!
