//! Textures, their parts, and animations made of them.

use vstd::prelude::*;

use crate::texture_atlas::TextureHandle;

verus! {

/// A texture as its users see it: a rectangle of texels inside one uploaded
/// bitmap. `x`, `y`, `width` and `height` give the rectangle in the bitmap's
/// own texels; `full_width` and `full_height` are the bitmap's size. The
/// texture's normalised coordinates are those numbers divided by the bitmap's
/// size.
pub struct TextureModel {
    pub handle: TextureHandle,
    pub x: int,
    pub y: int,
    pub width: int,
    pub height: int,
    pub full_width: int,
    pub full_height: int,
}

impl TextureModel {
    /// The texture that shows a whole bitmap.
    pub open spec fn whole(handle: TextureHandle, width: int, height: int) -> TextureModel {
        TextureModel {
            handle,
            x: 0,
            y: 0,
            width,
            height,
            full_width: width,
            full_height: height,
        }
    }

    /// Whether the rectangle lies inside the bitmap.
    pub open spec fn wf(self) -> bool {
        &&& 0 <= self.x
        &&& 0 <= self.y
        &&& 0 <= self.width
        &&& 0 <= self.height
        &&& self.x + self.width <= self.full_width <= u32::MAX
        &&& self.y + self.height <= self.full_height <= u32::MAX
    }

    /// Whether a rectangle given in this texture's texels lies inside it.
    pub open spec fn holds(self, x: int, y: int, width: int, height: int) -> bool {
        &&& 0 <= x
        &&& 0 <= y
        &&& 0 <= width
        &&& 0 <= height
        &&& x + width <= self.width
        &&& y + height <= self.height
    }

    /// The part of this texture that starts `x` texels right of and `y`
    /// texels below its top left corner.
    pub open spec fn sub(self, x: int, y: int, width: int, height: int) -> TextureModel {
        TextureModel { x: self.x + x, y: self.y + y, width, height, ..self }
    }
}

/// A rectangle of texels inside a bitmap that the atlas holds.
#[derive(Clone, Copy, Debug, PartialEq, Eq, Structural)]
pub struct Texture {
    handle: TextureHandle,
    x: u32,
    y: u32,
    width: u32,
    height: u32,
    full_width: u32,
    full_height: u32,
}

impl View for Texture {
    type V = TextureModel;

    closed spec fn view(&self) -> TextureModel {
        TextureModel {
            handle: self.handle,
            x: self.x as int,
            y: self.y as int,
            width: self.width as int,
            height: self.height as int,
            full_width: self.full_width as int,
            full_height: self.full_height as int,
        }
    }
}

impl Texture {
    #[verifier::type_invariant]
    spec fn inside_bitmap(self) -> bool {
        self@.wf()
    }

    /// The texture that shows the whole of a bitmap of `width` by `height`
    /// texels.
    pub fn new(handle: TextureHandle, width: u32, height: u32) -> (texture: Texture)
        ensures
            texture@ == TextureModel::whole(handle, width as int, height as int),
            texture@.wf(),
    {
        Texture { handle, x: 0, y: 0, width, height, full_width: width, full_height: height }
    }

    pub fn handle(&self) -> (handle: TextureHandle)
        ensures
            handle == self@.handle,
    {
        self.handle
    }

    /// Left edge, in texels of the bitmap.
    pub fn x(&self) -> (x: u32)
        ensures
            x == self@.x,
    {
        self.x
    }

    /// Top edge, in texels of the bitmap.
    pub fn y(&self) -> (y: u32)
        ensures
            y == self@.y,
    {
        self.y
    }

    pub fn width(&self) -> (width: u32)
        ensures
            width == self@.width,
    {
        self.width
    }

    pub fn height(&self) -> (height: u32)
        ensures
            height == self@.height,
    {
        self.height
    }

    /// Width of the bitmap that the texture is a part of.
    pub fn full_width(&self) -> (width: u32)
        ensures
            width == self@.full_width,
    {
        self.full_width
    }

    /// Height of the bitmap that the texture is a part of.
    pub fn full_height(&self) -> (height: u32)
        ensures
            height == self@.full_height,
    {
        self.full_height
    }

    /// The part of this texture that is `width` by `height` texels large and
    /// starts `x` texels right of and `y` texels below its top left corner.
    /// The part may reach the texture's right and bottom edges but not cross
    /// them.
    pub fn sub_texture(&self, x: u32, y: u32, width: u32, height: u32) -> (part: Texture)
        requires
            self@.holds(x as int, y as int, width as int, height as int),
        ensures
            part@ == self@.sub(x as int, y as int, width as int, height as int),
            part@.wf(),
    {
        proof {
            use_type_invariant(self);
        }
        Texture {
            handle: self.handle,
            x: self.x + x,
            y: self.y + y,
            width,
            height,
            full_width: self.full_width,
            full_height: self.full_height,
        }
    }
}

impl Texture {
    /// The part of this texture that is `width` by `height` texels large and
    /// starts `x` texels right of and `y` texels below its top left corner,
    /// if that part lies inside the texture; `None` for a part that crosses
    /// the texture's right or bottom edge.
    pub fn checked_sub_texture(&self, x: u32, y: u32, width: u32, height: u32) -> (part: Option<
        Texture,
    >)
        ensures
            part is Some <==> self@.holds(x as int, y as int, width as int, height as int),
            part matches Some(p) ==> p@ == self@.sub(
                x as int,
                y as int,
                width as int,
                height as int,
            ) && p@.wf(),
    {
        if x as u64 + width as u64 <= self.width as u64 && y as u64 + height as u64
            <= self.height as u64 {
            Some(self.sub_texture(x, y, width, height))
        } else {
            None
        }
    }
}

/// The part that covers a whole texture is that texture.
pub proof fn lemma_full_sub_texture(texture: TextureModel)
    ensures
        texture.holds(0, 0, texture.width, texture.height) <==> 0 <= texture.width && 0
            <= texture.height,
        texture.sub(0, 0, texture.width, texture.height) == texture,
{
}

/// A part of a texture lies inside the texture, and so inside the bitmap.
pub proof fn lemma_sub_texture_inside(
    texture: TextureModel,
    x: int,
    y: int,
    width: int,
    height: int,
)
    requires
        texture.wf(),
        texture.holds(x, y, width, height),
    ensures
        texture.sub(x, y, width, height).wf(),
        texture.x <= texture.sub(x, y, width, height).x,
        texture.y <= texture.sub(x, y, width, height).y,
        texture.sub(x, y, width, height).x + width <= texture.x + texture.width,
        texture.sub(x, y, width, height).y + height <= texture.y + texture.height,
{
}

/// A part of a part is a part of the whole, at the sum of the offsets.
pub proof fn lemma_sub_texture_composes(
    texture: TextureModel,
    x: int,
    y: int,
    width: int,
    height: int,
    inner_x: int,
    inner_y: int,
    inner_width: int,
    inner_height: int,
)
    requires
        texture.holds(x, y, width, height),
        texture.sub(x, y, width, height).holds(inner_x, inner_y, inner_width, inner_height),
    ensures
        texture.holds(x + inner_x, y + inner_y, inner_width, inner_height),
        texture.sub(x, y, width, height).sub(inner_x, inner_y, inner_width, inner_height)
            == texture.sub(x + inner_x, y + inner_y, inner_width, inner_height),
{
}

/// Which of `frames` frames is shown at `tick` when each is shown for
/// `ticks_per_frame` ticks and the first follows the last.
pub open spec fn frame_at(tick: int, ticks_per_frame: int, frames: int) -> int {
    (tick / ticks_per_frame) % frames
}

/// The number of the frame shown at `tick`: frame 0 for the first
/// `ticks_per_frame` ticks, then frame 1, and after the last frame frame 0
/// again.
pub fn frame_number(tick: u32, ticks_per_frame: u32, frames: usize) -> (frame: usize)
    requires
        ticks_per_frame > 0,
        0 < frames <= u32::MAX,
    ensures
        frame == frame_at(tick as int, ticks_per_frame as int, frames as int),
        frame < frames,
{
    ((tick / ticks_per_frame) % (frames as u32)) as usize
}

/// A strip of frames, each shown for the same number of ticks, over and
/// over.
pub struct Animation {
    frames: Vec<Texture>,
    ticks_per_frame: u32,
}

impl Animation {
    /// The frames of the animation, in order.
    pub closed spec fn frames(&self) -> Seq<Texture> {
        self.frames@
    }

    /// For how many ticks one frame is shown.
    pub closed spec fn ticks_per_frame(&self) -> int {
        self.ticks_per_frame as int
    }

    pub fn new(frames: Vec<Texture>, ticks_per_frame: u32) -> (animation: Animation)
        ensures
            animation.frames() == frames@,
            animation.ticks_per_frame() == ticks_per_frame,
    {
        Animation { frames, ticks_per_frame }
    }

    /// The frame shown at `tick`.
    pub fn frame(&self, tick: u32) -> (texture: &Texture)
        requires
            self.ticks_per_frame() > 0,
            0 < self.frames().len() <= u32::MAX,
        ensures
            *texture == self.frames()[frame_at(
                tick as int,
                self.ticks_per_frame(),
                self.frames().len() as int,
            )],
    {
        &self.frames[frame_number(tick, self.ticks_per_frame, self.frames.len())]
    }
}

} // verus!
