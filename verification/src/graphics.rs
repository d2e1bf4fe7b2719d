//! The batching renderer: rectangles in, draw calls out.

use vstd::prelude::*;

use crate::color::{Color, SCALAR_MINUS_ONE, SCALAR_ONE, SCALAR_ZERO};
use crate::texture::Texture;
use crate::texture_atlas::{
    is_upload, names_region, pages_have_room, pages_wf, region_of, uploadable, PageModel,
    TextureAtlas, TextureHandle, Upload, ATLAS_SIZE,
};

verus! {

/// Scalars in one vertex: red, green, blue, alpha, x, y, u, v.
pub const VERTEX_SCALARS: usize = 8;

/// The four edges of an axis-aligned rectangle. Each edge is an IEEE-754
/// single carried as its 32 bits: the renderer arranges edges into corners and
/// never computes with them.
#[derive(Clone, Copy, Debug, PartialEq, Eq, Structural)]
pub struct Edges {
    pub left: u32,
    pub top: u32,
    pub right: u32,
    pub bottom: u32,
}

/// The texture coordinates of a rectangle that samples no texture: every
/// corner at `(-1, -1)`, outside the unit square.
pub open spec fn untextured_uv() -> Edges {
    Edges {
        left: SCALAR_MINUS_ONE,
        top: SCALAR_MINUS_ONE,
        right: SCALAR_MINUS_ONE,
        bottom: SCALAR_MINUS_ONE,
    }
}

/// The scalars of one vertex, in buffer order.
pub open spec fn vertex_scalars(color: Color, x: u32, y: u32, u: u32, v: u32) -> Seq<u32> {
    seq![color.r, color.g, color.b, color.a, x, y, u, v]
}

/// The scalars of a rectangle's four vertices: top left, top right, bottom
/// right, bottom left.
pub open spec fn quad_scalars(position: Edges, color: Color, uv: Edges) -> Seq<u32> {
    vertex_scalars(color, position.left, position.top, uv.left, uv.top) + vertex_scalars(
        color,
        position.right,
        position.top,
        uv.right,
        uv.top,
    ) + vertex_scalars(color, position.right, position.bottom, uv.right, uv.bottom)
        + vertex_scalars(color, position.left, position.bottom, uv.left, uv.bottom)
}

/// The indices of a rectangle whose first vertex is number `first`: two
/// triangles that fan out from that vertex.
pub open spec fn quad_indices(first: int) -> Seq<u32> {
    seq![
        first as u32,
        (first + 1) as u32,
        (first + 2) as u32,
        first as u32,
        (first + 2) as u32,
        (first + 3) as u32,
    ]
}

/// The indices of `rects` rectangles pushed one after another.
pub open spec fn fan_indices(rects: nat) -> Seq<u32>
    decreases rects,
{
    if rects == 0 {
        Seq::empty()
    } else {
        fan_indices((rects - 1) as nat) + quad_indices(4 * (rects - 1))
    }
}

/// The geometry that waits for the next draw call.
pub struct BatchModel {
    /// Vertex scalars, `VERTEX_SCALARS` per vertex.
    pub scalars: Seq<u32>,
    /// Triangle indices, three per triangle.
    pub indices: Seq<u32>,
    /// The texture unit that the sampler reads, once a textured rectangle has
    /// been pushed since the last draw call.
    pub bound: Option<u32>,
    /// For each waiting rectangle, the texture unit it samples, if any.
    pub units: Seq<Option<u32>>,
}

impl BatchModel {
    /// A batch in which nothing waits.
    pub open spec fn empty() -> BatchModel {
        BatchModel {
            scalars: Seq::empty(),
            indices: Seq::empty(),
            bound: None,
            units: Seq::empty(),
        }
    }

    /// Number of vertices that wait.
    pub open spec fn vertex_count(self) -> int {
        4 * (self.units.len() as int)
    }

    /// The batch's invariant: four vertices and six indices per rectangle,
    /// the indices in fan order, and every textured rectangle samples the
    /// unit that is bound.
    pub open spec fn wf(self) -> bool {
        &&& self.scalars.len() == VERTEX_SCALARS * self.vertex_count()
        &&& self.vertex_count() <= u32::MAX
        &&& self.indices == fan_indices(self.units.len())
        &&& forall|k: int|
            0 <= k < self.units.len() && (#[trigger] self.units[k]) is Some ==> self.units[k]
                == self.bound
    }

    /// Whether pushing a rectangle that samples `unit` ends the batch first:
    /// it does when another unit is bound.
    pub open spec fn switches(self, unit: Option<u32>) -> bool {
        unit is Some && self.bound is Some && self.bound != unit
    }

    /// The batch after a flush: empty, unless nothing waited.
    pub open spec fn flushed(self) -> BatchModel {
        if self.units.len() == 0 {
            self
        } else {
            BatchModel::empty()
        }
    }

    /// The batch to which a rectangle that samples `unit` is appended.
    pub open spec fn before_push(self, unit: Option<u32>) -> BatchModel {
        if self.switches(unit) {
            self.flushed()
        } else {
            self
        }
    }

    /// Whether four more vertices can be counted.
    pub open spec fn has_room(self) -> bool {
        self.vertex_count() + 4 <= u32::MAX
    }

    /// The batch after a rectangle has been pushed.
    pub open spec fn push(self, position: Edges, color: Color, unit: Option<u32>, uv: Edges)
        -> BatchModel {
        let base = self.before_push(unit);
        BatchModel {
            scalars: base.scalars + quad_scalars(position, color, uv),
            indices: base.indices + quad_indices(base.vertex_count()),
            bound: if unit is Some {
                unit
            } else {
                base.bound
            },
            units: base.units.push(unit),
        }
    }
}

/// Whether an atlas with these pages can take a bitmap of this size with
/// this many bytes of pixels: the atlas has room in its counters, the bitmap
/// fits a page, and there are four bytes for every texel.
pub open spec fn admits(pages: Seq<PageModel>, bytes: int, width: u32, height: u32) -> bool {
    &&& pages_have_room(pages)
    &&& uploadable(width as int, height as int)
    &&& bytes >= 4 * width * height
}

/// The renderer as its callers see it.
pub struct GraphicsModel {
    pub batch: BatchModel,
    pub atlas: Seq<PageModel>,
    /// The projection matrix, nine scalars in column order.
    pub projection: Seq<u32>,
}

/// One indexed triangle-list draw: the vertex scalars and the indices to
/// upload, all of which are to be drawn.
#[derive(Debug)]
pub struct DrawCall {
    pub vertices: Vec<u32>,
    pub indices: Vec<u32>,
}

impl DrawCall {
    /// Whether the draw call holds exactly what waited in `batch`.
    pub open spec fn draws(&self, batch: BatchModel) -> bool {
        &&& self.vertices@ == batch.scalars
        &&& self.indices@ == batch.indices
    }

    /// Whether every index names a vertex of the draw call.
    pub open spec fn in_range(&self) -> bool {
        forall|i: int|
            0 <= i < self.indices@.len() ==> VERTEX_SCALARS * (#[trigger] self.indices@[i] + 1)
                <= self.vertices@.len()
    }
}

/// What a push asks of the GPU, in this order: submit `draw` if there is one,
/// then point the sampler at `sampler` if there is one.
#[derive(Debug)]
pub struct Pushed {
    pub draw: Option<DrawCall>,
    pub sampler: Option<u32>,
}

/// The scalars of the identity matrix.
pub open spec fn identity_matrix() -> Seq<u32> {
    seq![
        SCALAR_ONE,
        SCALAR_ZERO,
        SCALAR_ZERO,
        SCALAR_ZERO,
        SCALAR_ONE,
        SCALAR_ZERO,
        SCALAR_ZERO,
        SCALAR_ZERO,
        SCALAR_ONE,
    ]
}

/// A batching renderer: it collects the vertices and indices of rectangles
/// and says when they have to be drawn.
pub struct Graphics {
    vertex_data: Vec<u32>,
    index_data: Vec<u32>,
    vertices: u32,
    atlas: TextureAtlas,
    bound_texture: Option<u32>,
    projection: [u32; 9],
    units: Ghost<Seq<Option<u32>>>,
}

impl View for Graphics {
    type V = GraphicsModel;

    closed spec fn view(&self) -> GraphicsModel {
        GraphicsModel {
            batch: BatchModel {
                scalars: self.vertex_data@,
                indices: self.index_data@,
                bound: self.bound_texture,
                units: self.units@,
            },
            atlas: self.atlas@,
            projection: self.projection@,
        }
    }
}

impl Graphics {
    /// Whether the vertex counter agrees with the batch.
    pub closed spec fn counted(&self) -> bool {
        self.vertices == self@.batch.vertex_count()
    }

    /// The renderer's invariant: the batch's and the atlas's.
    pub open spec fn wf(&self) -> bool {
        &&& self.counted()
        &&& self@.batch.wf()
        &&& pages_wf(self@.atlas)
    }

    /// A renderer with an empty batch, an empty atlas and the identity as
    /// its projection.
    pub fn new() -> (gfx: Graphics)
        ensures
            gfx.wf(),
            gfx@.batch == BatchModel::empty(),
            gfx@.atlas == Seq::<PageModel>::empty(),
            gfx@.projection == identity_matrix(),
    {
        let gfx = Graphics {
            vertex_data: Vec::new(),
            index_data: Vec::new(),
            vertices: 0,
            atlas: TextureAtlas::new(),
            bound_texture: None,
            projection: [
                SCALAR_ONE,
                SCALAR_ZERO,
                SCALAR_ZERO,
                SCALAR_ZERO,
                SCALAR_ONE,
                SCALAR_ZERO,
                SCALAR_ZERO,
                SCALAR_ZERO,
                SCALAR_ONE,
            ],
            units: Ghost(Seq::empty()),
        };
        assert(gfx@.projection =~= identity_matrix());
        gfx
    }

    /// The atlas that holds the renderer's textures.
    pub fn atlas(&self) -> (atlas: &TextureAtlas)
        ensures
            atlas@ == self@.atlas,
    {
        &self.atlas
    }

    /// Number of vertices that wait for the next draw call.
    pub fn pending_vertices(&self) -> (n: u32)
        requires
            self.wf(),
        ensures
            n == self@.batch.vertex_count(),
    {
        self.vertices
    }

    /// The texture unit that the sampler reads, if one has been chosen since
    /// the last draw call.
    pub fn bound_texture(&self) -> (unit: Option<u32>)
        ensures
            unit == self@.batch.bound,
    {
        self.bound_texture
    }

    /// The projection matrix in force.
    pub fn projection(&self) -> (matrix: [u32; 9])
        ensures
            matrix@ == self@.projection,
    {
        self.projection
    }

    /// Replaces the projection matrix. What waits in the batch was pushed
    /// under the old matrix, so it is handed out first, to be drawn before
    /// the new matrix reaches the GPU.
    pub fn set_projection_matrix(&mut self, matrix: [u32; 9]) -> (draw: Option<DrawCall>)
        requires
            old(self).wf(),
        ensures
            final(self).wf(),
            final(self)@.projection == matrix@,
            final(self)@.atlas == old(self)@.atlas,
            final(self)@.batch == old(self)@.batch.flushed(),
            draw is Some <==> old(self)@.batch.units.len() > 0,
            draw matches Some(d) ==> d.draws(old(self)@.batch) && d.in_range(),
    {
        let draw = self.flush();
        self.projection = matrix;
        draw
    }

    /// Whether the renderer can take a bitmap of `width` by `height` texels
    /// with `bytes` bytes of pixels.
    pub fn can_take(&self, bytes: usize, width: u32, height: u32) -> (b: bool)
        ensures
            b == admits(self@.atlas, bytes as int, width, height),
    {
        if width > ATLAS_SIZE || height > ATLAS_SIZE || (width == ATLAS_SIZE && height
            == ATLAS_SIZE) {
            return false;
        }
        assert(width * height <= 2048 * 2048) by (nonlinear_arith)
            requires
                width <= 2048,
                height <= 2048,
        ;
        assert(4 * width * height == 4 * (width * height)) by (nonlinear_arith);
        let needed: u64 = 4 * (width as u64 * height as u64);
        (bytes as u64) >= needed && self.atlas.has_room()
    }

    /// Reserves atlas room for a bitmap of `width` by `height` texels whose
    /// pixels are `image_data`, four bytes per texel.
    pub fn new_texture_from_bytes(&mut self, image_data: &[u8], width: u32, height: u32) -> (up:
        Upload)
        requires
            old(self).wf(),
            admits(old(self)@.atlas, image_data@.len() as int, width, height),
        ensures
            final(self).wf(),
            final(self)@.batch == old(self)@.batch,
            final(self)@.projection == old(self)@.projection,
            is_upload(
                old(self)@.atlas,
                final(self)@.atlas,
                width as int,
                height as int,
                up,
            ),
            forall|h: TextureHandle| #[trigger]
                names_region(old(self)@.atlas, h) ==> names_region(final(self)@.atlas, h)
                    && region_of(final(self)@.atlas, h) == region_of(old(self)@.atlas, h),
    {
        self.atlas.upload_image(image_data, width, height)
    }

    /// Whether a rectangle with this texture can be pushed: its bitmap is one
    /// of the atlas's, and the batch to which it is appended can count four
    /// more vertices.
    pub fn can_push(&self, texture: Option<(TextureHandle, Edges)>) -> (b: bool)
        requires
            self.wf(),
        ensures
            b == ((texture matches Some((handle, _)) ==> names_region(self@.atlas, handle))
                && self@.batch.before_push(sampled_unit(texture)).has_room()),
    {
        match texture {
            Some((handle, _)) => {
                if !self.atlas.contains(handle) {
                    return false;
                }
                let unit = handle.bind_point();
                let switches = match self.bound_texture {
                    Some(bound) => bound != unit,
                    None => false,
                };
                switches || self.vertices <= u32::MAX - 4
            },
            None => self.vertices <= u32::MAX - 4,
        }
    }

    /// Appends the rectangle `position`, tinted `color`, to the batch: four
    /// vertices and the six indices of two triangles. A rectangle that
    /// samples a texture names the bitmap and the texture coordinates of its
    /// edges; one that samples none gets coordinates outside the unit square.
    ///
    /// One batch is drawn with one texture unit. When the rectangle samples a
    /// unit other than the bound one, what waits is handed out as a draw call
    /// and the batch starts anew with this rectangle.
    pub fn push_rect(
        &mut self,
        position: Edges,
        color: Color,
        texture: Option<(TextureHandle, Edges)>,
    ) -> (pushed: Pushed)
        requires
            old(self).wf(),
            texture matches Some((handle, _)) ==> names_region(old(self)@.atlas, handle),
            old(self)@.batch.before_push(sampled_unit(texture)).has_room(),
        ensures
            final(self).wf(),
            final(self)@.atlas == old(self)@.atlas,
            final(self)@.projection == old(self)@.projection,
            final(self)@.batch == old(self)@.batch.push(
                position,
                color,
                sampled_unit(texture),
                sampled_uv(texture),
            ),
            pushed.sampler == sampled_unit(texture),
            pushed.draw is Some <==> old(self)@.batch.switches(sampled_unit(texture)) && old(
                self,
            )@.batch.units.len() > 0,
            pushed.draw matches Some(d) ==> d.draws(old(self)@.batch) && d.in_range(),
    {
        let mut draw: Option<DrawCall> = None;
        let mut sampler: Option<u32> = None;
        let uv = match texture {
            Some((handle, uv)) => {
                let bind_point = handle.bind_point();
                if let Some(currently_bound) = self.bound_texture {
                    if bind_point != currently_bound {
                        draw = self.flush();
                    }
                }
                sampler = Some(bind_point);
                self.bound_texture = Some(bind_point);
                uv
            },
            None => Edges {
                left: SCALAR_MINUS_ONE,
                top: SCALAR_MINUS_ONE,
                right: SCALAR_MINUS_ONE,
                bottom: SCALAR_MINUS_ONE,
            },
        };
        let ghost base = old(self)@.batch.before_push(sampled_unit(texture));
        assert(self.vertex_data@ == base.scalars);
        assert(self.index_data@ == base.indices);
        assert(self.units@ == base.units);
        let index = self.vertices;
        self.push_vertex(position.left, position.top, color, uv.left, uv.top);
        self.push_vertex(position.right, position.top, color, uv.right, uv.top);
        self.push_vertex(position.right, position.bottom, color, uv.right, uv.bottom);
        self.push_vertex(position.left, position.bottom, color, uv.left, uv.bottom);
        self.index_data.push(index);
        self.index_data.push(index + 1);
        self.index_data.push(index + 2);
        self.index_data.push(index);
        self.index_data.push(index + 2);
        self.index_data.push(index + 3);
        proof {
            self.units@ = self.units@.push(sampled_unit(texture));
            assert(self.vertex_data@ =~= base.scalars + quad_scalars(position, color, uv));
            assert(self.index_data@ =~= base.indices + quad_indices(base.vertex_count()));
            assert(fan_indices(self.units@.len()) == fan_indices(base.units.len())
                + quad_indices(4 * (base.units.len() as int)));
        }
        Pushed { draw, sampler }
    }

    /// Hands out what waits in the batch as one draw call and empties the
    /// batch. Does nothing when no vertex waits.
    pub fn flush(&mut self) -> (draw: Option<DrawCall>)
        requires
            old(self).wf(),
        ensures
            final(self).wf(),
            final(self)@.atlas == old(self)@.atlas,
            final(self)@.projection == old(self)@.projection,
            final(self)@.batch == old(self)@.batch.flushed(),
            draw is Some <==> old(self)@.batch.units.len() > 0,
            draw matches Some(d) ==> d.draws(old(self)@.batch) && d.in_range(),
    {
        if self.vertices == 0 {
            assert(self.units@.len() == 0);
            return None;
        }
        let mut vertices: Vec<u32> = Vec::new();
        let mut indices: Vec<u32> = Vec::new();
        core::mem::swap(&mut self.vertex_data, &mut vertices);
        core::mem::swap(&mut self.index_data, &mut indices);
        self.vertices = 0;
        self.bound_texture = None;
        proof {
            lemma_fan_indices_in_range(self.units@.len());
            self.units@ = Seq::empty();
        }
        let draw = DrawCall { vertices, indices };
        Some(draw)
    }

    fn push_vertex(&mut self, x: u32, y: u32, color: Color, u: u32, v: u32)
        requires
            old(self).vertices < u32::MAX,
        ensures
            final(self).vertex_data@ == old(self).vertex_data@ + vertex_scalars(color, x, y, u, v),
            final(self).vertices == old(self).vertices + 1,
            final(self).index_data == old(self).index_data,
            final(self).atlas == old(self).atlas,
            final(self).bound_texture == old(self).bound_texture,
            final(self).projection == old(self).projection,
            final(self).units == old(self).units,
    {
        let vertex = [color.r, color.g, color.b, color.a, x, y, u, v];
        self.vertex_data.extend_from_slice(vertex.as_slice());
        self.vertices += 1;
        assert(vertex@ =~= vertex_scalars(color, x, y, u, v));
    }
}

/// Draws a texture into the rectangle `target`, untinted. `uv` holds the
/// texture coordinates of the rectangle's edges on the texture's page.
pub fn draw_image(graphics: &mut Graphics, texture: &Texture, target: Edges, uv: Edges) -> (pushed:
    Pushed)
    requires
        old(graphics).wf(),
        names_region(old(graphics)@.atlas, texture@.handle),
        old(graphics)@.batch.before_push(sampled_unit(Some((texture@.handle, uv)))).has_room(),
    ensures
        final(graphics).wf(),
        final(graphics)@.atlas == old(graphics)@.atlas,
        final(graphics)@.projection == old(graphics)@.projection,
        final(graphics)@.batch == old(graphics)@.batch.push(
            target,
            Color { r: SCALAR_ONE, g: SCALAR_ONE, b: SCALAR_ONE, a: SCALAR_ONE },
            sampled_unit(Some((texture@.handle, uv))),
            uv,
        ),
        pushed.sampler == sampled_unit(Some((texture@.handle, uv))),
        pushed.draw is Some <==> old(graphics)@.batch.switches(
            sampled_unit(Some((texture@.handle, uv))),
        ) && old(graphics)@.batch.units.len() > 0,
        pushed.draw matches Some(d) ==> d.draws(old(graphics)@.batch) && d.in_range(),
{
    graphics.push_rect(target, Color::white(), Some((texture.handle(), uv)))
}

/// The texture unit that a rectangle with this texture samples.
pub open spec fn sampled_unit(texture: Option<(TextureHandle, Edges)>) -> Option<u32> {
    match texture {
        Some((handle, _)) => Some((handle.page() + 1) as u32),
        None => None,
    }
}

/// The texture coordinates that a rectangle with this texture gets.
pub open spec fn sampled_uv(texture: Option<(TextureHandle, Edges)>) -> Edges {
    match texture {
        Some((_, uv)) => uv,
        None => untextured_uv(),
    }
}

/// Every index of `rects` rectangles names one of their `4 * rects`
/// vertices.
pub proof fn lemma_fan_indices_in_range(rects: nat)
    requires
        4 * rects <= u32::MAX,
    ensures
        fan_indices(rects).len() == 6 * rects,
        forall|i: int| 0 <= i < 6 * rects ==> (#[trigger] fan_indices(rects)[i]) < 4 * rects,
    decreases rects,
{
    if rects > 0 {
        lemma_fan_indices_in_range((rects - 1) as nat);
    }
}

/// Of two textured rectangles pushed one after the other, the second ends
/// the batch exactly when it samples another unit than the first. Then the
/// first waits in the batch that is drawn and the second alone in the new
/// one; with the same unit both wait in one batch.
pub proof fn lemma_unit_change_ends_batch(
    batch: BatchModel,
    first: Edges,
    first_uv: Edges,
    first_unit: u32,
    second: Edges,
    second_uv: Edges,
    second_unit: u32,
    color: Color,
)
    ensures
        ({
            let between = batch.push(first, color, Some(first_unit), first_uv);
            let after = between.push(second, color, Some(second_unit), second_uv);
            &&& between.units.len() > 0
            &&& between.units.last() == Some(first_unit)
            &&& between.switches(Some(second_unit)) <==> first_unit != second_unit
            &&& first_unit != second_unit ==> after.units == seq![Some(second_unit)]
            &&& first_unit == second_unit ==> after.units == between.units.push(Some(second_unit))
        }),
{
    let between = batch.push(first, color, Some(first_unit), first_uv);
    let after = between.push(second, color, Some(second_unit), second_uv);
    if first_unit != second_unit {
        assert(after.units =~= seq![Some(second_unit)]);
    }
}

/// A rectangle that samples no texture never ends the batch.
pub proof fn lemma_untextured_joins_batch(batch: BatchModel, position: Edges, color: Color)
    ensures
        !batch.switches(None),
        batch.push(position, color, None, untextured_uv()).units == batch.units.push(None),
        batch.push(position, color, None, untextured_uv()).bound == batch.bound,
{
}

/// Pushing keeps the batch's invariant: whatever waits for one draw call
/// samples one texture unit, the bound one.
pub proof fn lemma_push_keeps_batch(
    batch: BatchModel,
    position: Edges,
    color: Color,
    unit: Option<u32>,
    uv: Edges,
)
    requires
        batch.wf(),
        batch.before_push(unit).has_room(),
    ensures
        batch.push(position, color, unit, uv).wf(),
{
    let base = batch.before_push(unit);
    let after = batch.push(position, color, unit, uv);
    assert(fan_indices(after.units.len()) == fan_indices(base.units.len()) + quad_indices(
        4 * (base.units.len() as int),
    ));
    assert forall|k: int|
        0 <= k < after.units.len() && (#[trigger] after.units[k]) is Some implies after.units[k]
        == after.bound by {
        if k < base.units.len() {
            assert(after.units[k] == base.units[k]);
            if batch.switches(unit) {
            } else {
                assert(base.units[k] == batch.units[k]);
            }
        }
    }
}

/// A textured rectangle that samples the bound unit joins the batch: nothing
/// is drawn, what waits stays in front of the new rectangle's vertices and
/// indices, the indices count on from the vertices that wait, and the unit
/// stays bound.
pub proof fn lemma_same_unit_joins_batch(
    batch: BatchModel,
    position: Edges,
    color: Color,
    unit: u32,
    uv: Edges,
)
    requires
        batch.bound == Some(unit),
    ensures
        !batch.switches(Some(unit)),
        ({
            let after = batch.push(position, color, Some(unit), uv);
            &&& after.bound == Some(unit)
            &&& after.vertex_count() == batch.vertex_count() + 4
            &&& after.scalars == batch.scalars + quad_scalars(position, color, uv)
            &&& after.indices == batch.indices + quad_indices(batch.vertex_count())
            &&& after.units == batch.units.push(Some(unit))
        }),
{
}

} // verus!
