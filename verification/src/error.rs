//! What can go wrong while assets are loaded.

use image::ImageError;
use rodio::decoder::DecoderError;
use vstd::prelude::*;
use vstd::string::StringExecFns;

verus! {

#[verifier::external_type_specification]
#[verifier::external_body]
pub struct ExImageError(ImageError);

#[verifier::external_type_specification]
#[verifier::external_body]
pub struct ExIoError(std::io::Error);

/// What can go wrong while an asset is loaded. Each variant keeps the error
/// of the decoder or of the file system that caused it.
#[derive(Debug)]
#[allow(inconsistent_fields)]
pub enum Error {
    ImageDecodeError { path: String, error: ImageError },
    AudioDecodeError { path: Option<String>, error: DecoderError },
    FileLoadError { path: String, error: std::io::Error },
    FontError(&'static str),
}

/// Calls `to_string` on rodio's `DecoderError`, which writes the error's
/// `Display` text. Nothing is claimed of the text.
#[verifier::external_body]
fn decoder_error_text(error: &DecoderError) -> (text: String) {
    error.to_string()
}

/// The characters of a path, if there is one.
pub open spec fn path_text(path: Option<String>) -> Option<Seq<char>> {
    match path {
        Some(path) => Some(path@),
        None => None,
    }
}

/// The message of a sound that failed to decode: where the sound came from,
/// a file or bytes in memory, and what the decoder said.
pub open spec fn audio_message(path: Option<Seq<char>>, detail: Seq<char>) -> Seq<char> {
    "Error decoding audio from "@ + (match path {
        Some(path) => path,
        None => "bytes"@,
    }) + ": "@ + detail
}

/// The message of a sound that failed to decode with the decoder's words
/// `detail`.
pub fn audio_decode_message(path: &Option<String>, detail: &str) -> (message: String)
    ensures
        message@ == audio_message(path_text(*path), detail@),
{
    let mut message = String::from_str("Error decoding audio from ");
    match path {
        Some(path) => message.append(path.as_str()),
        None => message.append("bytes"),
    }
    message.append(": ");
    message.append(detail);
    message
}

/// The message of an image file that failed to decode.
pub fn image_decode_message(path: &str) -> (message: String)
    ensures
        message@ == "Image decoding error when loading "@ + path@,
{
    let mut message = String::from_str("Image decoding error when loading ");
    message.append(path);
    message
}

/// The message of a file that could not be read.
pub fn file_load_message(path: &str) -> (message: String)
    ensures
        message@ == "Error loading file: "@ + path@,
{
    let mut message = String::from_str("Error loading file: ");
    message.append(path);
    message
}

/// The message of bytes that are no font, with the parser's words `detail`.
pub fn font_message(detail: &str) -> (message: String)
    ensures
        message@ == "Error in font: "@ + detail@,
{
    let mut message = String::from_str("Error in font: ");
    message.append(detail);
    message
}

impl Error {
    /// The message of every error but a sound's, whose message repeats the
    /// decoder's words.
    pub open spec fn plain_message(self) -> Seq<char> {
        match self {
            Error::ImageDecodeError { path, .. } => "Image decoding error when loading "@ + path@,
            Error::FileLoadError { path, .. } => "Error loading file: "@ + path@,
            Error::FontError(error) => "Error in font: "@ + error@,
            Error::AudioDecodeError { .. } => Seq::empty(),
        }
    }

    /// A line of text for the user. A sound's message ends with the
    /// decoder's own words, so of it only the beginning is fixed here.
    pub fn message(&self) -> (message: String)
        ensures
            !(self is AudioDecodeError) ==> message@ == self.plain_message(),
            self matches Error::AudioDecodeError { path, .. } ==> exists|detail: Seq<char>|
                message@ == #[trigger] audio_message(path_text(*path), detail),
    {
        match self {
            Error::ImageDecodeError { path, error: _ } => image_decode_message(path.as_str()),
            Error::FileLoadError { path, error: _ } => file_load_message(path.as_str()),
            Error::FontError(error) => font_message(error),
            Error::AudioDecodeError { path, error } => {
                let detail = decoder_error_text(error);
                audio_decode_message(path, detail.as_str())
            },
        }
    }
}

} // verus!
