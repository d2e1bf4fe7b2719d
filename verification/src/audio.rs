//! Sounds, kept as their encoded bytes.

use std::sync::Arc;

use rodio::decoder::DecoderError;
use vstd::prelude::*;

use crate::error::Error;

verus! {

#[verifier::external_type_specification]
#[verifier::external_body]
pub struct ExDecoderError(DecoderError);

/// A sound, held as the bytes of its encoded form. A sound is made only of
/// bytes that the decoder has been tried on and has accepted, so that it can
/// be played later.
#[derive(Clone)]
pub struct Audio {
    contents: Arc<[u8]>,
}

impl View for Audio {
    type V = Seq<u8>;

    closed spec fn view(&self) -> Seq<u8> {
        self.contents@
    }
}

impl Audio {
    /// Keeps `contents` as a sound if the decoder, tried on them, has
    /// accepted them: `probed` is what it said. Its error is handed back as
    /// it is.
    pub fn new(contents: Arc<[u8]>, probed: Result<(), DecoderError>) -> (r: Result<
        Audio,
        DecoderError,
    >)
        ensures
            r is Ok <==> probed is Ok,
            r matches Ok(audio) ==> audio@ == contents@,
            r matches Err(error) ==> probed == Err::<(), DecoderError>(error),
    {
        match probed {
            Ok(()) => Ok(Audio { contents }),
            Err(error) => Err(error),
        }
    }

    /// Keeps `contents` as a sound if the decoder, tried on them, has
    /// accepted them: `probed` is what it said. Otherwise the error holds
    /// the decoder's error and says where the bytes came from: the file at
    /// `path`, or memory when there is no path.
    pub fn load(contents: Arc<[u8]>, path: Option<String>, probed: Result<(), DecoderError>) -> (r:
        Result<Audio, Error>)
        ensures
            r is Ok <==> probed is Ok,
            r matches Ok(audio) ==> audio@ == contents@,
            r matches Err(error) ==> error matches Error::AudioDecodeError {
                path: from,
                error: cause,
            } && from == path && probed == Err::<(), DecoderError>(cause),
    {
        match Audio::new(contents, probed) {
            Ok(audio) => Ok(audio),
            Err(error) => Err(Error::AudioDecodeError { path, error }),
        }
    }

    /// The encoded bytes.
    pub fn contents(&self) -> (contents: &Arc<[u8]>)
        ensures
            contents@ == self@,
    {
        &self.contents
    }
}

} // verus!
