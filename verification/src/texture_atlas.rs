//! The texture atlas: a shelf packer over pages of fixed size.

use vstd::prelude::*;

use crate::shape::IRect;

verus! {

/// Side length, in texels, of every atlas page.
pub const ATLAS_SIZE: u32 = 2048;

/// Names one bitmap in an atlas: the page that holds it and its place in that
/// page's allocation order.
#[derive(Copy, Clone, Debug, PartialEq, Eq, Structural)]
pub struct TextureHandle {
    atlas: u32,
    index: u32,
}

impl TextureHandle {
    /// Index of the page that holds the bitmap.
    pub closed spec fn page(self) -> int {
        self.atlas as int
    }

    /// Position of the bitmap among the regions of its page.
    pub closed spec fn slot(self) -> int {
        self.index as int
    }

    #[verifier::type_invariant]
    spec fn unit_fits(self) -> bool {
        self.atlas < u32::MAX
    }

    pub fn page_index(&self) -> (r: u32)
        ensures
            r == self.page(),
    {
        self.atlas
    }

    pub fn region_index(&self) -> (r: u32)
        ensures
            r == self.slot(),
    {
        self.index
    }

    /// The texture unit to which the handle's page is bound. Unit 0 is never
    /// used: page `n` is bound to unit `n + 1`.
    pub fn bind_point(&self) -> (unit: u32)
        ensures
            unit == self.page() + 1,
            unit >= 1,
    {
        proof {
            use_type_invariant(self);
        }
        bind_point_for_atlas(self.atlas)
    }
}

/// The texture unit of page `atlas`.
pub fn bind_point_for_atlas(atlas: u32) -> (unit: u32)
    requires
        atlas < u32::MAX,
    ensures
        unit == atlas + 1,
{
    atlas + 1
}

/// What a page looks like to the packer: the shelf cursor and the regions
/// handed out so far, in the order they were handed out.
pub struct PageModel {
    pub cursor_x: int,
    pub cursor_y: int,
    pub line_height: int,
    pub regions: Seq<IRect>,
}

impl PageModel {
    /// A page on which nothing has been placed.
    pub open spec fn empty() -> PageModel {
        PageModel { cursor_x: 0, cursor_y: 0, line_height: 0, regions: Seq::empty() }
    }

    /// Whether a bitmap of this width no longer goes on the current shelf.
    pub open spec fn wraps(self, width: int) -> bool {
        self.cursor_x + width >= ATLAS_SIZE
    }

    /// Whether the page takes a bitmap of this size: either the current shelf
    /// has room for its width, or a new shelf can be opened below it.
    pub open spec fn fits(self, width: int, height: int) -> bool {
        !self.wraps(width) || self.cursor_y + self.line_height + height < ATLAS_SIZE
    }

    /// Where a bitmap of this size is placed on a page that takes it.
    pub open spec fn slot_for(self, width: int, height: int) -> IRect {
        if self.wraps(width) {
            IRect {
                x: 0,
                y: (self.cursor_y + self.line_height) as i32,
                width: width as i32,
                height: height as i32,
            }
        } else {
            IRect {
                x: self.cursor_x as i32,
                y: self.cursor_y as i32,
                width: width as i32,
                height: height as i32,
            }
        }
    }

    /// The page after a bitmap of this size has been placed on it.
    pub open spec fn place(self, width: int, height: int) -> PageModel {
        if self.wraps(width) {
            PageModel {
                cursor_x: width,
                cursor_y: self.cursor_y + self.line_height,
                line_height: height,
                regions: self.regions.push(self.slot_for(width, height)),
            }
        } else {
            PageModel {
                cursor_x: self.cursor_x + width,
                cursor_y: self.cursor_y,
                line_height: if self.line_height >= height {
                    self.line_height
                } else {
                    height
                },
                regions: self.regions.push(self.slot_for(width, height)),
            }
        }
    }

    /// Whether region `r` sits on a closed shelf, above the current one.
    pub open spec fn on_closed_shelf(self, r: IRect) -> bool {
        r.y + r.height <= self.cursor_y
    }

    /// Whether region `r` sits on the current shelf, left of the cursor.
    pub open spec fn on_open_shelf(self, r: IRect) -> bool {
        &&& r.y == self.cursor_y
        &&& r.x + r.width <= self.cursor_x
        &&& r.height <= self.line_height
    }

    /// The packer's invariant: the cursor is on the page, every region starts
    /// on the page and ends at or before its right edge, every region belongs
    /// to a closed shelf or to the open one, and any two regions are apart.
    pub open spec fn wf(self) -> bool {
        &&& 0 <= self.cursor_x <= ATLAS_SIZE
        &&& 0 <= self.cursor_y < ATLAS_SIZE
        &&& 0 <= self.line_height <= ATLAS_SIZE
        &&& self.regions.len() <= u32::MAX
        &&& forall|i: int|
            0 <= i < self.regions.len() ==> {
                let r = #[trigger] self.regions[i];
                &&& 0 <= r.x
                &&& 0 <= r.y < ATLAS_SIZE
                &&& 0 <= r.width
                &&& 0 <= r.height <= ATLAS_SIZE
                &&& r.x + r.width <= ATLAS_SIZE
                &&& (self.on_closed_shelf(r) || self.on_open_shelf(r))
            }
        &&& forall|i: int, j: int|
            0 <= i < j < self.regions.len() ==> (#[trigger] self.regions[i]).apart_from(
                #[trigger] self.regions[j],
            )
    }

    /// Whether every region ends at or above the bottom edge of the page.
    pub open spec fn within_page(self) -> bool {
        forall|i: int|
            0 <= i < self.regions.len() ==> (#[trigger] self.regions[i]).within_square(
                ATLAS_SIZE as int,
            )
    }
}

/// Why a page refused a bitmap.
#[derive(Debug)]
pub enum TextureAllocationError {
    /// Neither the current shelf nor a new one below it has room.
    CantFit,
}

/// One atlas page: a shelf packer over a square of `ATLAS_SIZE` texels.
pub struct TexturePage {
    cursor_x: u32,
    cursor_y: u32,
    line_height: u32,
    texture_uvs: Vec<IRect>,
}

impl View for TexturePage {
    type V = PageModel;

    closed spec fn view(&self) -> PageModel {
        PageModel {
            cursor_x: self.cursor_x as int,
            cursor_y: self.cursor_y as int,
            line_height: self.line_height as int,
            regions: self.texture_uvs@,
        }
    }
}

impl TexturePage {
    /// A page with nothing on it.
    pub fn new() -> (page: TexturePage)
        ensures
            page@ == PageModel::empty(),
            page@.wf(),
    {
        TexturePage { cursor_x: 0, cursor_y: 0, line_height: 0, texture_uvs: Vec::new() }
    }

    /// Number of regions handed out so far.
    pub fn region_count(&self) -> (n: usize)
        ensures
            n == self@.regions.len(),
    {
        self.texture_uvs.len()
    }

    /// Region number `index`, counted in the order of allocation.
    pub fn region(&self, index: u32) -> (r: IRect)
        requires
            index < self@.regions.len(),
        ensures
            r == self@.regions[index as int],
    {
        self.texture_uvs[index as usize]
    }

    /// Reserves room for a bitmap of `width` by `height` texels. A page that
    /// takes the bitmap places it at the shelf cursor, opening a new shelf
    /// first when the current one is too short, and returns the new region's
    /// index; a page without room is left as it was.
    pub fn upload_texture(&mut self, width: u32, height: u32) -> (r: Result<
        u32,
        TextureAllocationError,
    >)
        requires
            old(self)@.wf(),
            old(self)@.regions.len() < u32::MAX,
            width <= ATLAS_SIZE,
            height <= ATLAS_SIZE,
        ensures
            final(self)@.wf(),
            old(self)@.fits(width as int, height as int) ==> {
                &&& r == Ok::<u32, TextureAllocationError>(old(self)@.regions.len() as u32)
                &&& final(self)@ == old(self)@.place(width as int, height as int)
            },
            !old(self)@.fits(width as int, height as int) ==> {
                &&& r is Err
                &&& final(self)@ == old(self)@
            },
    {
        if self.cursor_x + width >= ATLAS_SIZE {
            if self.cursor_y + self.line_height + height >= ATLAS_SIZE {
                return Err(TextureAllocationError::CantFit);
            }
            self.cursor_y += self.line_height;
            self.cursor_x = 0;
            self.line_height = 0;
        }
        let index = self.texture_uvs.len() as u32;
        let region = IRect {
            x: self.cursor_x as i32,
            y: self.cursor_y as i32,
            width: width as i32,
            height: height as i32,
        };
        self.texture_uvs.push(region);
        self.cursor_x += width;
        if height > self.line_height {
            self.line_height = height;
        }
        proof {
            assert(self@ =~= old(self)@.place(width as int, height as int));
            lemma_place_keeps_wf(old(self)@, width as int, height as int);
        }
        Ok(index)
    }
}

/// No two regions of a page share a texel.
pub proof fn lemma_regions_share_no_texel(page: PageModel, i: int, j: int, px: int, py: int)
    requires
        page.wf(),
        0 <= i < page.regions.len(),
        0 <= j < page.regions.len(),
        i != j,
    ensures
        page.regions[i].apart_from(page.regions[j]),
        !(page.regions[i].covers(px, py) && page.regions[j].covers(px, py)),
{
    if i < j {
        assert(page.regions[i].apart_from(page.regions[j]));
    } else {
        assert(page.regions[j].apart_from(page.regions[i]));
    }
}

/// On a page whose regions all lie inside it, a newly placed region lies
/// inside it too, except when it is put on the open shelf and is taller than
/// the room between that shelf's top and the bottom of the page: the packer
/// looks at the height only when it opens a shelf.
pub proof fn lemma_place_within_page(page: PageModel, width: int, height: int)
    requires
        page.wf(),
        page.within_page(),
        0 <= width <= ATLAS_SIZE,
        0 <= height <= ATLAS_SIZE,
        page.fits(width, height),
    ensures
        page.place(width, height).within_page() <==> (page.wraps(width) || page.cursor_y + height
            <= ATLAS_SIZE),
{
    let next = page.place(width, height);
    let n = page.regions.len() as int;
    assert(next.regions[n] == page.slot_for(width, height));
    if page.wraps(width) || page.cursor_y + height <= ATLAS_SIZE {
        assert forall|i: int| 0 <= i < next.regions.len() implies (
        #[trigger] next.regions[i]).within_square(ATLAS_SIZE as int) by {
            if i < n {
                assert(next.regions[i] == page.regions[i]);
            }
        }
    } else {
        assert(!next.regions[n].within_square(ATLAS_SIZE as int));
    }
}

/// Placing a bitmap that fits keeps the packer's invariant.
pub proof fn lemma_place_keeps_wf(page: PageModel, width: int, height: int)
    requires
        page.wf(),
        page.regions.len() < u32::MAX,
        0 <= width <= ATLAS_SIZE,
        0 <= height <= ATLAS_SIZE,
        page.fits(width, height),
    ensures
        page.place(width, height).wf(),
{
    let next = page.place(width, height);
    let slot = page.slot_for(width, height);
    let n = page.regions.len() as int;
    assert forall|i: int| 0 <= i < next.regions.len() implies {
        let r = #[trigger] next.regions[i];
        &&& 0 <= r.x
        &&& 0 <= r.y < ATLAS_SIZE
        &&& 0 <= r.width
        &&& 0 <= r.height <= ATLAS_SIZE
        &&& r.x + r.width <= ATLAS_SIZE
        &&& (next.on_closed_shelf(r) || next.on_open_shelf(r))
    } by {
        if i < n {
            let r = page.regions[i];
            assert(next.regions[i] == r);
            assert(page.on_closed_shelf(r) || page.on_open_shelf(r));
        } else {
            assert(next.regions[i] == slot);
        }
    }
    assert forall|i: int, j: int| 0 <= i < j < next.regions.len() implies (
    #[trigger] next.regions[i]).apart_from(#[trigger] next.regions[j]) by {
        assert(next.regions[i] == page.regions[i]);
        if j < n {
            assert(next.regions[j] == page.regions[j]);
        } else {
            let r = page.regions[i];
            assert(next.regions[j] == slot);
            assert(page.on_closed_shelf(r) || page.on_open_shelf(r));
        }
    }
}

/// What the caller has to do on the GPU after the atlas has reserved room for
/// a bitmap: create the page first if `new_page` is set, copy the bitmap's
/// texels into `region` of page `handle.page()`, and bind a new page to its
/// texture unit.
#[derive(Clone, Copy, Debug)]
pub struct Upload {
    pub handle: TextureHandle,
    pub region: IRect,
    pub new_page: bool,
}

/// Whether the atlas can take a bitmap of this size at all: neither side is
/// longer than a page, and an empty page has room for it.
pub open spec fn uploadable(width: int, height: int) -> bool {
    &&& 0 <= width <= ATLAS_SIZE
    &&& 0 <= height <= ATLAS_SIZE
    &&& PageModel::empty().fits(width, height)
}

/// Whether `handle` names a region of these pages.
pub open spec fn names_region(pages: Seq<PageModel>, handle: TextureHandle) -> bool {
    &&& 0 <= handle.page() < pages.len()
    &&& 0 <= handle.slot() < pages[handle.page()].regions.len()
}

/// The region that `handle` names.
pub open spec fn region_of(pages: Seq<PageModel>, handle: TextureHandle) -> IRect {
    pages[handle.page()].regions[handle.slot()]
}

/// Whether every page keeps the packer's invariant.
pub open spec fn pages_wf(pages: Seq<PageModel>) -> bool {
    forall|p: int| 0 <= p < pages.len() ==> (#[trigger] pages[p]).wf()
}

/// Whether page and region numbers still fit their 32-bit counters after one
/// more upload.
pub open spec fn pages_have_room(pages: Seq<PageModel>) -> bool {
    &&& pages.len() < u32::MAX
    &&& forall|p: int| 0 <= p < pages.len() ==> (#[trigger] pages[p]).regions.len() < u32::MAX
}

/// Whether page and region numbers still fit their 32-bit counters after `n`
/// more uploads.
pub open spec fn pages_have_room_for(pages: Seq<PageModel>, n: int) -> bool {
    &&& pages.len() + n <= u32::MAX
    &&& forall|p: int|
        0 <= p < pages.len() ==> (#[trigger] pages[p]).regions.len() + n <= u32::MAX
}

/// The pages after a bitmap of this size went to page `target`, which is an
/// existing page or, when `target` is the number of pages, a new one.
pub open spec fn pages_after_upload(
    pages: Seq<PageModel>,
    target: int,
    width: int,
    height: int,
) -> Seq<PageModel> {
    if target < pages.len() {
        pages.update(target, pages[target].place(width, height))
    } else {
        pages.push(PageModel::empty().place(width, height))
    }
}

/// Whether `after` and `up` are what the upload of a bitmap of this size
/// makes of the pages `before`: the bitmap went to the first page that had
/// room for it, or to a new page when none had, and `up` names its region.
pub open spec fn is_upload(
    before: Seq<PageModel>,
    after: Seq<PageModel>,
    width: int,
    height: int,
    up: Upload,
) -> bool {
    let target = up.handle.page();
    &&& 0 <= target <= before.len()
    &&& forall|p: int| 0 <= p < target ==> !(#[trigger] before[p]).fits(width, height)
    &&& target < before.len() ==> before[target].fits(width, height)
    &&& up.new_page == (target == before.len())
    &&& after == pages_after_upload(before, target, width, height)
    &&& names_region(after, up.handle)
    &&& up.handle.slot() + 1 == after[target].regions.len()
    &&& up.region == region_of(after, up.handle)
    &&& up.region.width == width
    &&& up.region.height == height
}

/// An ordered set of pages, grown by one page whenever no existing page has
/// room for a bitmap. Pages and regions are never removed or moved.
pub struct TextureAtlas {
    pages: Vec<TexturePage>,
}

impl View for TextureAtlas {
    type V = Seq<PageModel>;

    closed spec fn view(&self) -> Seq<PageModel> {
        Seq::new(self.pages@.len(), |p: int| self.pages@[p]@)
    }
}

impl TextureAtlas {
    /// The packer's invariant, on every page.
    pub open spec fn wf(&self) -> bool {
        pages_wf(self@)
    }

    /// An atlas without pages.
    pub fn new() -> (atlas: TextureAtlas)
        ensures
            atlas@ == Seq::<PageModel>::empty(),
            atlas.wf(),
    {
        let atlas = TextureAtlas { pages: Vec::new() };
        assert(atlas@ =~= Seq::<PageModel>::empty());
        atlas
    }

    /// Number of pages allocated so far.
    pub fn page_count(&self) -> (n: usize)
        ensures
            n == self@.len(),
    {
        self.pages.len()
    }

    /// Whether one more upload keeps page and region numbers within 32 bits.
    pub fn has_room(&self) -> (b: bool)
        ensures
            b == pages_have_room(self@),
    {
        if self.pages.len() >= u32::MAX as usize {
            return false;
        }
        let mut p: usize = 0;
        while p < self.pages.len()
            invariant
                p <= self.pages.len(),
                forall|q: int| 0 <= q < p ==> (#[trigger] self@[q]).regions.len() < u32::MAX,
            decreases self.pages.len() - p,
        {
            if self.pages[p].region_count() >= u32::MAX as usize {
                assert(self@[p as int].regions.len() >= u32::MAX);
                return false;
            }
            p += 1;
        }
        true
    }

    /// Whether `n` more uploads keep page and region numbers within 32 bits.
    pub fn has_room_for(&self, n: usize) -> (b: bool)
        ensures
            b == pages_have_room_for(self@, n as int),
    {
        if n > u32::MAX as usize || self.pages.len() > u32::MAX as usize - n {
            return false;
        }
        let mut p: usize = 0;
        while p < self.pages.len()
            invariant
                p <= self.pages.len(),
                n <= u32::MAX,
                forall|q: int|
                    0 <= q < p ==> (#[trigger] self@[q]).regions.len() + n <= u32::MAX,
            decreases self.pages.len() - p,
        {
            if self.pages[p].region_count() > u32::MAX as usize - n {
                assert(self@[p as int].regions.len() + n > u32::MAX);
                return false;
            }
            p += 1;
        }
        true
    }

    /// Whether `handle` names a region of this atlas.
    pub fn contains(&self, handle: TextureHandle) -> (b: bool)
        ensures
            b == names_region(self@, handle),
    {
        let page = handle.page_index() as usize;
        if page < self.pages.len() {
            assert(self@[page as int] == self.pages@[page as int]@);
            (handle.region_index() as usize) < self.pages[page].region_count()
        } else {
            false
        }
    }

    /// The texels that were reserved for `handle`'s bitmap, in page
    /// coordinates.
    pub fn region(&self, handle: TextureHandle) -> (r: IRect)
        requires
            names_region(self@, handle),
        ensures
            r == region_of(self@, handle),
    {
        let page = handle.page_index() as usize;
        assert(self@[page as int] == self.pages@[page as int]@);
        self.pages[page].region(handle.region_index())
    }

    /// Reserves room for a bitmap of `width` by `height` texels whose pixels
    /// are `image_data`, four bytes per texel. The pages are tried in the
    /// order of their allocation and the first one with room takes the
    /// bitmap; when none has room a new page is appended and takes it.
    /// Nothing else changes: regions handed out earlier keep their handles
    /// and their places.
    pub fn upload_image(&mut self, image_data: &[u8], width: u32, height: u32) -> (up: Upload)
        requires
            old(self).wf(),
            pages_have_room(old(self)@),
            uploadable(width as int, height as int),
            image_data@.len() >= 4 * width * height,
        ensures
            final(self).wf(),
            is_upload(old(self)@, final(self)@, width as int, height as int, up),
            old(self)@.len() <= final(self)@.len() <= old(self)@.len() + 1,
            final(self)@.len() == old(self)@.len() + 1 <==> up.handle.page() == old(self)@.len(),
            forall|p: int|
                0 <= p < old(self)@.len() && p != up.handle.page() ==> #[trigger] final(self)@[p]
                    == old(self)@[p],
            forall|p: int, i: int, j: int|
                0 <= p < final(self)@.len() && 0 <= i < j < final(self)@[p].regions.len() ==> (
                #[trigger] final(self)@[p].regions[i]).apart_from(
                    #[trigger] final(self)@[p].regions[j],
                ),
            forall|h: TextureHandle| #[trigger]
                names_region(old(self)@, h) ==> names_region(final(self)@, h) && region_of(
                    final(self)@,
                    h,
                ) == region_of(old(self)@, h),
    {
        let mut p: usize = 0;
        while p < self.pages.len()
            invariant
                p <= self.pages.len(),
                self@ == old(self)@,
                self.wf(),
                pages_have_room(self@),
                uploadable(width as int, height as int),
                forall|q: int|
                    0 <= q < p ==> !(#[trigger] old(self)@[q]).fits(width as int, height as int),
            decreases self.pages.len() - p,
        {
            let ghost before = self@;
            assert(before[p as int] == self.pages@[p as int]@);
            assert(before[p as int].wf());
            let page = &mut self.pages[p];
            let slot = page.upload_texture(width, height);
            assert(self@ =~= before.update(p as int, self.pages@[p as int]@));
            match slot {
                Ok(index) => {
                    let handle = TextureHandle { atlas: p as u32, index };
                    let region = self.pages[p].region(index);
                    proof {
                        lemma_upload_keeps_regions(before, p as int, width as int, height as int);
                    }
                    return Upload { handle, region, new_page: false };
                },
                Err(_) => {
                    assert(self@ =~= before);
                },
            }
            p += 1;
        }
        let ghost before = self@;
        let atlas = self.pages.len() as u32;
        let mut page = TexturePage::new();
        let index = page.upload_texture(width, height).expect("uploading texture");
        let region = page.region(index);
        self.pages.push(page);
        assert(self@ =~= before.push(PageModel::empty().place(width as int, height as int)));
        proof {
            lemma_upload_keeps_regions(before, before.len() as int, width as int, height as int);
        }
        Upload { handle: TextureHandle { atlas, index }, region, new_page: true }
    }
}

/// An upload keeps every page well formed, and every region handed out
/// before it stays where it was, under the same handle.
pub proof fn lemma_upload_keeps_regions(
    pages: Seq<PageModel>,
    target: int,
    width: int,
    height: int,
)
    requires
        pages_wf(pages),
        pages_have_room(pages),
        uploadable(width, height),
        0 <= target <= pages.len(),
        target < pages.len() ==> pages[target].fits(width, height),
    ensures
        pages_wf(pages_after_upload(pages, target, width, height)),
        pages_after_upload(pages, target, width, height).len() >= pages.len(),
        forall|h: TextureHandle| #[trigger]
            names_region(pages, h) ==> names_region(
                pages_after_upload(pages, target, width, height),
                h,
            ) && region_of(pages_after_upload(pages, target, width, height), h) == region_of(
                pages,
                h,
            ),
{
    let after = pages_after_upload(pages, target, width, height);
    if target < pages.len() {
        lemma_place_keeps_wf(pages[target], width, height);
    } else {
        lemma_place_keeps_wf(PageModel::empty(), width, height);
    }
    assert forall|p: int| 0 <= p < after.len() implies (#[trigger] after[p]).wf() by {
        if p != target {
            assert(after[p] == pages[p]);
        }
    }
}

/// Room for several uploads is room for one, and an upload uses up room for
/// one.
pub proof fn lemma_upload_uses_room(
    before: Seq<PageModel>,
    after: Seq<PageModel>,
    width: int,
    height: int,
    up: Upload,
    n: int,
)
    requires
        n >= 1,
        pages_have_room_for(before, n),
        is_upload(before, after, width, height, up),
    ensures
        pages_have_room(before),
        pages_have_room_for(after, n - 1),
{
    let target = up.handle.page();
    assert forall|p: int| 0 <= p < after.len() implies (#[trigger] after[p]).regions.len() + (n
        - 1) <= u32::MAX by {
        if p < before.len() {
            if p != target {
                assert(after[p] == before[p]);
            } else {
                assert(after[p] == before[p].place(width, height));
            }
        } else {
            assert(after[p] == PageModel::empty().place(width, height));
        }
    }
}

} // verus!
