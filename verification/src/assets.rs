//! Loading textures from the bytes of image files.

use image::ImageError;
use vstd::prelude::*;
use vstd::string::StringExecFns;

use crate::error::Error;
use crate::graphics::{admits, Graphics};
use crate::texture::{Texture, TextureModel};
use crate::texture_atlas::{is_upload, Upload};

verus! {

/// A decoded image: its size in pixels and the bytes of its pixels, row by
/// row, in the pixel format of the file.
#[derive(Debug)]
pub struct DecodedImage {
    pub pixels: Vec<u8>,
    pub width: u32,
    pub height: u32,
}

/// `image::load_from_memory`, which guesses the format of an image file from
/// its first bytes and decodes it, followed by `as_bytes`, `width` and
/// `height` of the decoded image. Nothing is claimed of the outcome: format
/// detection can be extended while the program runs, and samples wider than
/// a byte come in the byte order of the machine.
#[verifier::external_body]
fn decode(bytes: &[u8]) -> (r: Result<DecodedImage, ImageError>) {
    match image::load_from_memory(bytes) {
        Ok(decoded) => Ok(
            DecodedImage {
                pixels: decoded.as_bytes().to_vec(),
                width: decoded.width(),
                height: decoded.height(),
            },
        ),
        Err(error) => Err(error),
    }
}

/// Whether the renderer can take the image as a texture.
pub fn can_upload(graphics: &Graphics, decoded: &DecodedImage) -> (b: bool)
    ensures
        b == admits(
            graphics@.atlas,
            decoded.pixels@.len() as int,
            decoded.width,
            decoded.height,
        ),
{
    graphics.can_take(decoded.pixels.len(), decoded.width, decoded.height)
}

/// Makes a texture of a decoded image: the atlas reserves room for its
/// pixels, and the texture shows the whole image.
pub fn texture_from_image(graphics: &mut Graphics, decoded: &DecodedImage) -> (r: (
    Texture,
    Upload,
))
    requires
        old(graphics).wf(),
        admits(
            old(graphics)@.atlas,
            decoded.pixels@.len() as int,
            decoded.width,
            decoded.height,
        ),
    ensures
        final(graphics).wf(),
        final(graphics)@.batch == old(graphics)@.batch,
        final(graphics)@.projection == old(graphics)@.projection,
        is_upload(
            old(graphics)@.atlas,
            final(graphics)@.atlas,
            decoded.width as int,
            decoded.height as int,
            r.1,
        ),
        r.0@ == TextureModel::whole(r.1.handle, decoded.width as int, decoded.height as int),
{
    let up = graphics.new_texture_from_bytes(
        decoded.pixels.as_slice(),
        decoded.width,
        decoded.height,
    );
    (Texture::new(up.handle, decoded.width, decoded.height), up)
}

/// What loading a texture hands back: the decoded image, and, if the
/// renderer could take it, the texture and the upload that the caller has to
/// carry out with the image's pixels.
#[derive(Debug)]
pub struct LoadedTexture {
    pub image: DecodedImage,
    pub placed: Option<(Texture, Upload)>,
}

/// Decodes the bytes of the image file at `path` and makes a texture of the
/// image. Whether the bytes decode is the decoder's to say. If they do not,
/// the error names the file and holds the decoder's error. An image that
/// decodes but that the renderer cannot take is handed back without a
/// texture, and the renderer stays as it was.
pub fn load_texture(graphics: &mut Graphics, path: &str, bytes: &[u8]) -> (r: Result<
    LoadedTexture,
    Error,
>)
    requires
        old(graphics).wf(),
    ensures
        final(graphics).wf(),
        final(graphics)@.batch == old(graphics)@.batch,
        final(graphics)@.projection == old(graphics)@.projection,
        r matches Err(error) ==> final(graphics)@ == old(graphics)@ && (
        error matches Error::ImageDecodeError { path: at, .. } && at@ == path@),
        r matches Ok(loaded) ==> {
            &&& loaded.placed is Some <==> admits(
                old(graphics)@.atlas,
                loaded.image.pixels@.len() as int,
                loaded.image.width,
                loaded.image.height,
            )
            &&& loaded.placed is None ==> final(graphics)@ == old(graphics)@
            &&& loaded.placed matches Some((texture, upload)) ==> {
                &&& is_upload(
                    old(graphics)@.atlas,
                    final(graphics)@.atlas,
                    loaded.image.width as int,
                    loaded.image.height as int,
                    upload,
                )
                &&& texture@ == TextureModel::whole(
                    upload.handle,
                    loaded.image.width as int,
                    loaded.image.height as int,
                )
            }
        },
{
    match decode(bytes) {
        Err(error) => Err(Error::ImageDecodeError { path: String::from_str(path), error }),
        Ok(image) => {
            let placed = if can_upload(graphics, &image) {
                Some(texture_from_image(graphics, &image))
            } else {
                None
            };
            Ok(LoadedTexture { image, placed })
        },
    }
}

} // verus!
