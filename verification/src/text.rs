//! Text layout: words, lines and the places of glyphs.

use vstd::prelude::*;

use crate::font::{
    coverage_pixels, kern_at, lemma_run_width_bound, measure, run_width, Font, GlyphMap,
    RasterMetrics, MAX_LINE_HEIGHT, MAX_TEXT_LEN, UNITS_PER_PIXEL,
};
use crate::graphics::Graphics;
use crate::texture::{Texture, TextureModel};
use crate::texture_atlas::{
    is_upload, lemma_upload_keeps_regions, lemma_upload_uses_room, names_region,
    pages_have_room_for, region_of, uploadable, PageModel, TextureHandle, Upload,
};

verus! {

/// Whether `c` has Unicode's White_Space property.
pub open spec fn is_whitespace_spec(c: char) -> bool {
    let code = c as u32;
    ||| 0x09 <= code <= 0x0D
    ||| code == 0x20
    ||| code == 0x85
    ||| code == 0xA0
    ||| code == 0x1680
    ||| 0x2000 <= code <= 0x200A
    ||| code == 0x2028
    ||| code == 0x2029
    ||| code == 0x202F
    ||| code == 0x205F
    ||| code == 0x3000
}

/// Whether `c` separates words.
#[verifier::when_used_as_spec(is_whitespace_spec)]
pub fn is_whitespace(c: char) -> (b: bool)
    ensures
        b == is_whitespace_spec(c),
{
    let code = c as u32;
    (0x09 <= code && code <= 0x0D) || code == 0x20 || code == 0x85 || code == 0xA0 || code
        == 0x1680 || (0x2000 <= code && code <= 0x200A) || code == 0x2028 || code == 0x2029
        || code == 0x202F || code == 0x205F || code == 0x3000
}

/// The characters of `text`, one by one.
pub fn characters_of(text: &str) -> (chars: Vec<char>)
    ensures
        chars@ == text@,
{
    let mut chars: Vec<char> = Vec::new();
    for c in it: text.chars()
        invariant
            chars@ == it.seq().take(it.index() as int),
            it.seq() == text@,
    {
        chars.push(c);
    }
    chars
}

/// A character with the place where its bitmap is drawn: `index` is its
/// position in the text, `x` and `y` the top left corner of the bitmap, in
/// layout units.
#[derive(Clone, Copy, Debug, PartialEq, Eq, Structural)]
pub struct Placed {
    pub index: usize,
    pub ch: char,
    pub x: i64,
    pub y: i64,
}

/// Where the next glyph goes: the pen's position on the line, the top of
/// the line, and whether a glyph precedes the next one on this line, so
/// that the pair is kerned.
pub struct Pen {
    pub x: int,
    pub top: int,
    pub kerned: bool,
}

/// One run of text to lay out: the characters, what the font says of each of
/// them and of each pair of neighbours, where the first line starts, the
/// font size in pixels, and how long a line may grow and how far apart lines
/// are, in layout units.
pub struct Job {
    pub text: Seq<char>,
    pub metrics: Seq<RasterMetrics>,
    pub kerning: Seq<Option<i32>>,
    pub x: int,
    pub y: int,
    pub size: int,
    pub max_line_length: int,
    pub line_height: int,
}

impl Job {
    /// The pen at the start of the text.
    pub open spec fn start(self) -> Pen {
        Pen { x: self.x, top: self.y, kerned: false }
    }

    /// The pen at the start of the line below.
    pub open spec fn line_break(self, pen: Pen) -> Pen {
        Pen { x: self.x, top: pen.top + self.line_height, kerned: false }
    }

    /// Where character `i` is placed by a pen: kerned against the glyph
    /// before it, if there is one on the line, and so far below the top of
    /// the line that bitmaps of one size share a baseline.
    pub open spec fn placed(self, pen: Pen, i: int) -> Placed {
        Placed {
            index: i as usize,
            ch: self.text[i],
            x: (pen.x + if pen.kerned {
                kern_at(self.kerning, i)
            } else {
                0
            }) as i64,
            y: (pen.top + UNITS_PER_PIXEL * ((self.size - self.metrics[i].height)
                - self.metrics[i].ymin)) as i64,
        }
    }

    /// The pen after character `i` has been placed: behind the glyph's
    /// advance.
    pub open spec fn after_glyph(self, pen: Pen, i: int) -> Pen {
        Pen {
            x: pen.x + (if pen.kerned {
                kern_at(self.kerning, i)
            } else {
                0
            }) + self.metrics[i].advance_width,
            top: pen.top,
            kerned: true,
        }
    }

    /// The pen after characters `start` to `end` have been placed one after
    /// the other, `end` not included.
    pub open spec fn pen_after_run(self, pen: Pen, start: int, end: int) -> Pen
        decreases end - start,
    {
        if end <= start {
            pen
        } else {
            self.after_glyph(self.pen_after_run(pen, start, end - 1), end - 1)
        }
    }

    /// Characters `start` to `end` as placed one after the other, `end` not
    /// included.
    pub open spec fn run(self, pen: Pen, start: int, end: int) -> Seq<Placed>
        decreases end - start,
    {
        if end <= start {
            Seq::empty()
        } else {
            self.run(pen, start, end - 1).push(
                self.placed(self.pen_after_run(pen, start, end - 1), end - 1),
            )
        }
    }

    /// Whether the word made of characters `start` to `end` would end
    /// beyond the longest line if it were placed at the pen.
    pub open spec fn overflows(self, pen: Pen, start: int, end: int) -> bool {
        pen.x + run_width(self.metrics, self.kerning, start, end) > self.x + self.max_line_length
    }

    /// The pen at which the word made of characters `start` to `end`
    /// begins: on the next line if the word would end beyond the longest
    /// line.
    pub open spec fn word_pen(self, pen: Pen, start: int, end: int) -> Pen {
        if self.overflows(pen, start, end) {
            self.line_break(pen)
        } else {
            pen
        }
    }

    /// The pen after the first `i` characters, when the word that is being
    /// collected began at `word_start(i)`.
    pub open spec fn pen_at(self, i: int) -> Pen
        decreases i,
    {
        if i <= 0 {
            self.start()
        } else if !is_whitespace(self.text[i - 1]) {
            self.pen_at(i - 1)
        } else {
            let start = self.word_start(i - 1);
            let pen = self.pen_after_run(
                self.word_pen(self.pen_at(i - 1), start, i - 1),
                start,
                i - 1,
            );
            if self.text[i - 1] == '\n' {
                self.line_break(pen)
            } else {
                self.after_glyph(pen, i - 1)
            }
        }
    }

    /// Where the word begins that is being collected after the first `i`
    /// characters: behind the last white space among them.
    pub open spec fn word_start(self, i: int) -> int
        decreases i,
    {
        if i <= 0 {
            0
        } else if is_whitespace(self.text[i - 1]) {
            i
        } else {
            self.word_start(i - 1)
        }
    }

    /// The glyphs that the first `i` characters have given: every word that
    /// white space has ended, and every white space but the line feed.
    pub open spec fn placed_until(self, i: int) -> Seq<Placed>
        decreases i,
    {
        if i <= 0 {
            Seq::empty()
        } else if !is_whitespace(self.text[i - 1]) {
            self.placed_until(i - 1)
        } else {
            let start = self.word_start(i - 1);
            let word_pen = self.word_pen(self.pen_at(i - 1), start, i - 1);
            let word = self.placed_until(i - 1) + self.run(word_pen, start, i - 1);
            if self.text[i - 1] == '\n' {
                word
            } else {
                word.push(self.placed(self.pen_after_run(word_pen, start, i - 1), i - 1))
            }
        }
    }

    /// The placed glyphs of the whole text: what its characters have given,
    /// and the word that the end of the text ends.
    pub open spec fn layout(self) -> Seq<Placed> {
        let n = self.text.len() as int;
        let start = self.word_start(n);
        self.placed_until(n) + self.run(self.word_pen(self.pen_at(n), start, n), start, n)
    }

    /// Whether the job can be laid out: the font says something of every
    /// character, and text and line height are within their limits.
    pub open spec fn wf(self) -> bool {
        &&& self.metrics.len() == self.text.len()
        &&& self.kerning.len() == self.text.len()
        &&& self.text.len() <= MAX_TEXT_LEN
        &&& i32::MIN <= self.x <= i32::MAX
        &&& i32::MIN <= self.y <= i32::MAX
        &&& 0 <= self.size <= u32::MAX
        &&& i64::MIN <= self.max_line_length <= i64::MAX
        &&& -MAX_LINE_HEIGHT <= self.line_height <= MAX_LINE_HEIGHT
    }

    /// Whether a pen is where a pen can be once `done` characters have been
    /// dealt with and `breaks` lines have been broken.
    pub open spec fn reaches(self, pen: Pen, done: int, breaks: int) -> bool {
        &&& self.x - 0x1_0000_0000 * done <= pen.x <= self.x + 0x1_0000_0000 * done
        &&& self.y - MAX_LINE_HEIGHT * breaks <= pen.top <= self.y + MAX_LINE_HEIGHT * breaks
    }
}

/// Lays out text: it places the glyphs of a run of text on lines that
/// break at white space, and keeps them until they are collected.
pub struct TextRenderer {
    character_buffer: Vec<Placed>,
}

impl View for TextRenderer {
    type V = Seq<Placed>;

    closed spec fn view(&self) -> Seq<Placed> {
        self.character_buffer@
    }
}

impl Default for TextRenderer {
    fn default() -> (renderer: TextRenderer)
        ensures
            renderer@ == Seq::<Placed>::empty(),
    {
        TextRenderer::new()
    }
}

impl TextRenderer {
    /// A renderer that holds no glyphs.
    pub fn new() -> (renderer: TextRenderer)
        ensures
            renderer@ == Seq::<Placed>::empty(),
    {
        TextRenderer { character_buffer: Vec::new() }
    }

    /// Hands out the glyphs placed since the last call, in the order in
    /// which they were placed, and forgets them.
    pub fn characters(&mut self) -> (glyphs: Vec<Placed>)
        ensures
            glyphs@ == old(self)@,
            final(self)@ == Seq::<Placed>::empty(),
    {
        let mut glyphs: Vec<Placed> = Vec::new();
        core::mem::swap(&mut self.character_buffer, &mut glyphs);
        glyphs
    }

    /// Places character `i` at the pen and moves the pen behind it.
    fn push_character(
        i: usize,
        ch: char,
        cursor_x: &mut i64,
        topline: i64,
        size: u32,
        kerned: &mut bool,
        metrics: &Vec<RasterMetrics>,
        kerning: &Vec<Option<i32>>,
        character_buffer: &mut Vec<Placed>,
        Ghost(job): Ghost<Job>,
        Ghost(breaks): Ghost<int>,
    )
        requires
            job.wf(),
            job.metrics == metrics@,
            job.kerning == kerning@,
            job.size == size,
            i < job.text.len(),
            ch == job.text[i as int],
            0 <= breaks <= 2 * MAX_TEXT_LEN + 1,
            job.reaches(
                Pen { x: *old(cursor_x) as int, top: topline as int, kerned: *old(kerned) },
                i as int,
                breaks,
            ),
        ensures
            final(character_buffer)@ == old(character_buffer)@.push(
                job.placed(
                    Pen { x: *old(cursor_x) as int, top: topline as int, kerned: *old(kerned) },
                    i as int,
                ),
            ),
            (Pen { x: *final(cursor_x) as int, top: topline as int, kerned: *final(kerned) })
                == job.after_glyph(
                Pen { x: *old(cursor_x) as int, top: topline as int, kerned: *old(kerned) },
                i as int,
            ),
            job.reaches(
                Pen { x: *final(cursor_x) as int, top: topline as int, kerned: *final(kerned) },
                i + 1,
                breaks,
            ),
    {
        if *kerned {
            if let Some(kern) = kerning[i] {
                *cursor_x += kern as i64;
            }
        }
        let glyph = metrics[i];
        let y = topline + UNITS_PER_PIXEL * ((size as i64 - glyph.height as i64)
            - glyph.ymin as i64);
        character_buffer.push(Placed { index: i, ch, x: *cursor_x, y });
        *cursor_x += glyph.advance_width as i64;
        *kerned = true;
    }

    /// Lays out `text` from the top left corner `(x, y)` and adds its glyphs
    /// to those that wait to be collected. `metrics` and `kerning` hold, for
    /// each character of the text, what the font says of it at `size` and
    /// the kerning between it and the character before it.
    ///
    /// Characters that are not white space collect into words. White space
    /// and the end of the text end a word: the word moves to the next line as
    /// a whole if it would end beyond `max_line_length`, and its characters
    /// are placed one behind the other. A line feed then breaks the line and
    /// leaves no glyph; other white space is placed like any character.
    pub fn layout_text(
        &mut self,
        x: i32,
        y: i32,
        text: &str,
        metrics: &Vec<RasterMetrics>,
        kerning: &Vec<Option<i32>>,
        size: u32,
        max_line_length: i64,
        line_height: i64,
    )
        requires
            (Job {
                text: text@,
                metrics: metrics@,
                kerning: kerning@,
                x: x as int,
                y: y as int,
                size: size as int,
                max_line_length: max_line_length as int,
                line_height: line_height as int,
            }).wf(),
        ensures
            final(self)@ == old(self)@ + (Job {
                text: text@,
                metrics: metrics@,
                kerning: kerning@,
                x: x as int,
                y: y as int,
                size: size as int,
                max_line_length: max_line_length as int,
                line_height: line_height as int,
            }).layout(),
    {
        let ghost job = Job {
            text: text@,
            metrics: metrics@,
            kerning: kerning@,
            x: x as int,
            y: y as int,
            size: size as int,
            max_line_length: max_line_length as int,
            line_height: line_height as int,
        };
        let chars = characters_of(text);
        let n = chars.len();
        let mut cursor_x: i64 = x as i64;
        let mut topline: i64 = y as i64;
        let mut kerned = false;
        let mut word_start: usize = 0;
        let mut i: usize = 0;
        while i < n
            invariant
                job.wf(),
                job.text == chars@,
                job.metrics == metrics@,
                job.kerning == kerning@,
                job.x == x,
                job.size == size,
                job.max_line_length == max_line_length,
                job.line_height == line_height,
                n == chars@.len(),
                word_start <= i <= n,
                word_start == job.word_start(i as int),
                (Pen { x: cursor_x as int, top: topline as int, kerned }) == job.pen_at(i as int),
                job.reaches(
                    Pen { x: cursor_x as int, top: topline as int, kerned },
                    word_start as int,
                    2 * word_start,
                ),
                self@ == old(self)@ + job.placed_until(i as int),
            decreases n - i,
        {
            let ch = chars[i];
            if is_whitespace(ch) {
                let ghost before = self@;
                let ghost pen = Pen { x: cursor_x as int, top: topline as int, kerned };
                let mut breaks: Ghost<int> = Ghost(2 * word_start);
                let word_length = measure(metrics, kerning, word_start, i);
                proof {
                    lemma_run_width_bound(metrics@, kerning@, word_start as int, i as int);
                }
                if cursor_x + word_length - (x as i64) > max_line_length {
                    cursor_x = x as i64;
                    topline += line_height;
                    kerned = false;
                    proof {
                        breaks@ = breaks@ + 1;
                    }
                }
                let ghost word_pen = Pen { x: cursor_x as int, top: topline as int, kerned };
                assert(word_pen == job.word_pen(pen, word_start as int, i as int));
                let mut j: usize = word_start;
                while j < i
                    invariant
                        job.wf(),
                        job.text == chars@,
                        job.metrics == metrics@,
                        job.kerning == kerning@,
                        job.size == size,
                        n == chars@.len(),
                        word_start <= j <= i < n,
                        0 <= breaks@ <= 2 * word_start + 1,
                        (Pen { x: cursor_x as int, top: topline as int, kerned })
                            == job.pen_after_run(word_pen, word_start as int, j as int),
                        job.reaches(
                            Pen { x: cursor_x as int, top: topline as int, kerned },
                            j as int,
                            breaks@,
                        ),
                        self@ == before + job.run(word_pen, word_start as int, j as int),
                    decreases i - j,
                {
                    Self::push_character(
                        j,
                        chars[j],
                        &mut cursor_x,
                        topline,
                        size,
                        &mut kerned,
                        metrics,
                        kerning,
                        &mut self.character_buffer,
                        Ghost(job),
                        breaks,
                    );
                    j += 1;
                }
                if ch == '\n' {
                    cursor_x = x as i64;
                    topline += line_height;
                    kerned = false;
                } else {
                    Self::push_character(
                        i,
                        ch,
                        &mut cursor_x,
                        topline,
                        size,
                        &mut kerned,
                        metrics,
                        kerning,
                        &mut self.character_buffer,
                        Ghost(job),
                        breaks,
                    );
                }
                word_start = i + 1;
            }
            i += 1;
        }
        let ghost before = self@;
        let ghost pen = Pen { x: cursor_x as int, top: topline as int, kerned };
        let mut breaks: Ghost<int> = Ghost(2 * word_start);
        let word_length = measure(metrics, kerning, word_start, n);
        proof {
            lemma_run_width_bound(metrics@, kerning@, word_start as int, n as int);
        }
        if cursor_x + word_length - (x as i64) > max_line_length {
            cursor_x = x as i64;
            topline += line_height;
            kerned = false;
            proof {
                breaks@ = breaks@ + 1;
            }
        }
        let ghost word_pen = Pen { x: cursor_x as int, top: topline as int, kerned };
        let mut j: usize = word_start;
        while j < n
            invariant
                job.wf(),
                job.text == chars@,
                job.metrics == metrics@,
                job.kerning == kerning@,
                job.size == size,
                n == chars@.len(),
                word_start <= j <= n,
                0 <= breaks@ <= 2 * word_start + 1,
                (Pen { x: cursor_x as int, top: topline as int, kerned }) == job.pen_after_run(
                    word_pen,
                    word_start as int,
                    j as int,
                ),
                job.reaches(
                    Pen { x: cursor_x as int, top: topline as int, kerned },
                    j as int,
                    breaks@,
                ),
                self@ == before + job.run(word_pen, word_start as int, j as int),
            decreases n - j,
        {
            Self::push_character(
                j,
                chars[j],
                &mut cursor_x,
                topline,
                size,
                &mut kerned,
                metrics,
                kerning,
                &mut self.character_buffer,
                Ghost(job),
                breaks,
            );
            j += 1;
        }
    }
}

/// A word that would end beyond the longest line begins the next line: its
/// first glyph stands at the left edge, one line height further down, and
/// is not kerned against what came before.
pub proof fn lemma_long_word_starts_line(job: Job, pen: Pen, start: int, end: int)
    requires
        0 <= start < end <= job.text.len(),
        job.overflows(pen, start, end),
    ensures
        job.word_pen(pen, start, end) == job.line_break(pen),
        job.run(job.word_pen(pen, start, end), start, end).len() == end - start,
        job.run(job.word_pen(pen, start, end), start, end)[0] == job.placed(
            job.line_break(pen),
            start,
        ),
        job.placed(job.line_break(pen), start).x == job.x as i64,
{
    lemma_run_first(job, job.line_break(pen), start, end);
}

/// A run places one glyph for each of its characters, the first of them at
/// the pen.
pub proof fn lemma_run_first(job: Job, pen: Pen, start: int, end: int)
    requires
        start < end,
    ensures
        job.run(pen, start, end).len() == end - start,
        job.run(pen, start, end)[0] == job.placed(pen, start),
    decreases end - start,
{
    if end > start + 1 {
        lemma_run_first(job, pen, start, end - 1);
    } else {
        assert(job.run(pen, start, start).len() == 0);
        assert(job.pen_after_run(pen, start, start) == pen);
    }
}

/// The positions, among the first `i` characters of a text, of those that
/// leave a glyph: all but the line feeds, in the order of the text.
pub open spec fn glyph_sources(text: Seq<char>, i: int) -> Seq<int>
    decreases i,
{
    if i <= 0 {
        Seq::empty()
    } else if text[i - 1] == '\n' {
        glyph_sources(text, i - 1)
    } else {
        glyph_sources(text, i - 1).push(i - 1)
    }
}

/// Whether `placed` holds one glyph for each of `sources`, in that order,
/// each with the character at its position.
pub open spec fn places(placed: Seq<Placed>, text: Seq<char>, sources: Seq<int>) -> bool {
    &&& placed.len() == sources.len()
    &&& forall|k: int|
        0 <= k < placed.len() ==> (#[trigger] placed[k]).index == sources[k] && placed[k].ch
            == text[sources[k]]
}

/// A layout places every character of its text but the line feeds, each
/// once, in the order of the text: wrapping moves glyphs and drops none.
pub proof fn lemma_layout_keeps_characters(job: Job)
    requires
        job.text.len() <= usize::MAX,
    ensures
        places(job.layout(), job.text, glyph_sources(job.text, job.text.len() as int)),
{
    let n = job.text.len() as int;
    let start = job.word_start(n);
    lemma_placed_until_keeps_characters(job, n);
    assert forall|j: int| start <= j < n implies job.text[j] != '\n' by {
        assert(!is_whitespace(job.text[j]));
    }
    lemma_word_joins_glyphs(
        job,
        job.placed_until(n),
        job.word_pen(job.pen_at(n), start, n),
        start,
        n,
    );
}

/// The glyphs of a run are those of its characters, in order.
proof fn lemma_run_places_word(job: Job, pen: Pen, start: int, end: int)
    requires
        0 <= start <= end <= job.text.len() <= usize::MAX,
    ensures
        job.run(pen, start, end).len() == end - start,
        forall|k: int|
            0 <= k < end - start ==> (#[trigger] job.run(pen, start, end)[k]).index == start + k
                && job.run(pen, start, end)[k].ch == job.text[start + k],
    decreases end - start,
{
    if end > start {
        lemma_run_places_word(job, pen, start, end - 1);
    }
}

/// Behind a stretch without line feeds the sources are those before the
/// stretch and then every position of the stretch.
proof fn lemma_sources_of_word(text: Seq<char>, start: int, end: int)
    requires
        0 <= start <= end <= text.len(),
        forall|j: int| start <= j < end ==> text[j] != '\n',
    ensures
        glyph_sources(text, end).len() == glyph_sources(text, start).len() + (end - start),
        forall|k: int|
            0 <= k < glyph_sources(text, start).len() ==> #[trigger] glyph_sources(text, end)[k]
                == glyph_sources(text, start)[k],
        forall|k: int|
            0 <= k < end - start ==> #[trigger] glyph_sources(
                text,
                end,
            )[glyph_sources(text, start).len() + k] == start + k,
    decreases end - start,
{
    if end > start {
        lemma_sources_of_word(text, start, end - 1);
    }
}

/// Glyphs of the characters before a word, followed by the run of the
/// word, are the glyphs of the characters up to the word's end.
proof fn lemma_word_joins_glyphs(job: Job, before: Seq<Placed>, pen: Pen, start: int, end: int)
    requires
        0 <= start <= end <= job.text.len() <= usize::MAX,
        forall|j: int| start <= j < end ==> job.text[j] != '\n',
        places(before, job.text, glyph_sources(job.text, start)),
    ensures
        places(before + job.run(pen, start, end), job.text, glyph_sources(job.text, end)),
{
    let run = job.run(pen, start, end);
    let joined = before + run;
    let sources = glyph_sources(job.text, end);
    lemma_run_places_word(job, pen, start, end);
    lemma_sources_of_word(job.text, start, end);
    assert forall|k: int| 0 <= k < joined.len() implies (#[trigger] joined[k]).index
        == sources[k] && joined[k].ch == job.text[sources[k]] by {
        if k < before.len() {
            assert(joined[k] == before[k]);
        } else {
            let w = k - before.len();
            assert(joined[k] == run[w]);
            assert(sources[before.len() + w] == start + w);
        }
    }
}

/// What the first `i` characters have given are the glyphs of the characters
/// before the word that is being collected, and that word holds no white
/// space.
proof fn lemma_placed_until_keeps_characters(job: Job, i: int)
    requires
        0 <= i <= job.text.len() <= usize::MAX,
    ensures
        0 <= job.word_start(i) <= i,
        forall|j: int| job.word_start(i) <= j < i ==> !is_whitespace(#[trigger] job.text[j]),
        places(job.placed_until(i), job.text, glyph_sources(job.text, job.word_start(i))),
    decreases i,
{
    if i > 0 {
        lemma_placed_until_keeps_characters(job, i - 1);
        if is_whitespace(job.text[i - 1]) {
            let start = job.word_start(i - 1);
            let word_pen = job.word_pen(job.pen_at(i - 1), start, i - 1);
            let word = job.placed_until(i - 1) + job.run(word_pen, start, i - 1);
            assert forall|j: int| start <= j < i - 1 implies job.text[j] != '\n' by {
                assert(!is_whitespace(job.text[j]));
            }
            lemma_word_joins_glyphs(job, job.placed_until(i - 1), word_pen, start, i - 1);
            assert(job.word_start(i) == i);
            if job.text[i - 1] != '\n' {
                let last = job.placed(job.pen_after_run(word_pen, start, i - 1), i - 1);
                let all = word.push(last);
                let sources = glyph_sources(job.text, i);
                assert(job.placed_until(i) == all);
                assert(sources == glyph_sources(job.text, i - 1).push(i - 1));
                assert forall|k: int| 0 <= k < all.len() implies (#[trigger] all[k]).index
                    == sources[k] && all[k].ch == job.text[sources[k]] by {
                    if k < word.len() {
                        assert(all[k] == word[k]);
                    }
                }
            }
        }
    }
}

/// What the rasterizer has delivered for one glyph: its metrics, and one byte
/// of coverage for every texel of its bitmap.
#[derive(Debug)]
pub struct Delivered {
    pub metrics: RasterMetrics,
    pub coverage: Vec<u8>,
}

/// A glyph that is ready to be drawn: the texture that holds its bitmap, its
/// character, and the top left corner of the bitmap, in layout units.
#[derive(Clone, Copy, Debug, PartialEq, Eq, Structural)]
pub struct Drawn {
    pub texture: Texture,
    pub ch: char,
    pub x: i64,
    pub y: i64,
}

/// The glyphs of a run with their textures, and the uploads that the caller
/// has to carry out for them, each with the pixels to upload, in the order in
/// which the atlas has reserved their regions.
#[derive(Debug)]
pub struct TexturedRun {
    pub glyphs: Vec<Drawn>,
    pub uploads: Vec<(Upload, Vec<u8>)>,
}

/// Whether one of the first `k` placed glyphs shows `ch`.
pub open spec fn shown_before(placed: Seq<Placed>, k: int, ch: char) -> bool {
    exists|j: int| 0 <= j < k && (#[trigger] placed[j]).ch == ch
}

/// Whether placed glyph `k` is new: the cache lacks its character at this
/// size, and no glyph before it shows the same character.
pub open spec fn is_new(cache: GlyphMap, placed: Seq<Placed>, size: u32, k: int) -> bool {
    !cache.contains_key((placed[k].ch, size)) && !shown_before(placed, k, placed[k].ch)
}

/// The positions of the new glyphs among the first `k` placed glyphs, in
/// order: one for each distinct character that the cache lacks.
pub open spec fn new_glyphs(cache: GlyphMap, placed: Seq<Placed>, size: u32, k: int) -> Seq<int>
    decreases k,
{
    if k <= 0 {
        Seq::empty()
    } else if is_new(cache, placed, size, k - 1) {
        new_glyphs(cache, placed, size, k - 1).push(k - 1)
    } else {
        new_glyphs(cache, placed, size, k - 1)
    }
}

/// Whether the rasterizer has delivered a bitmap that the atlas can take for
/// every new glyph, at the glyph's position in the text.
pub open spec fn delivers(
    cache: GlyphMap,
    placed: Seq<Placed>,
    size: u32,
    delivered: Seq<Option<Delivered>>,
) -> bool {
    &&& forall|k: int| 0 <= k < placed.len() ==> (#[trigger] placed[k]).index < delivered.len()
    &&& forall|k: int|
        0 <= k < placed.len() && #[trigger] is_new(cache, placed, size, k) ==> {
            &&& delivered[placed[k].index as int] matches Some(d)
            &&& uploadable(d.metrics.width as int, d.metrics.height as int)
            &&& d.coverage@.len() == d.metrics.width * d.metrics.height
        }
}

/// Whether upload number `u` of a run is that of new glyph `k`: the pixels
/// are the delivered coverage in white, the cache holds the delivered metrics
/// and a texture that shows the whole bitmap, and the atlas holds the region.
pub open spec fn uploads_glyph(
    cache: GlyphMap,
    pages: Seq<PageModel>,
    size: u32,
    placed: Placed,
    bitmap: Delivered,
    upload: (Upload, Vec<u8>),
) -> bool {
    let glyph = cache[(placed.ch, size)];
    &&& cache.contains_key((placed.ch, size))
    &&& upload.1@ == coverage_pixels(bitmap.coverage@)
    &&& glyph.1 == bitmap.metrics
    &&& glyph.0@ == TextureModel::whole(
        upload.0.handle,
        bitmap.metrics.width as int,
        bitmap.metrics.height as int,
    )
    &&& names_region(pages, upload.0.handle)
    &&& region_of(pages, upload.0.handle) == upload.0.region
    &&& upload.0.region.width == bitmap.metrics.width
    &&& upload.0.region.height == bitmap.metrics.height
}

/// Whether upload number `u` of a run of `k` placed glyphs is that of the
/// run's new glyph number `u`.
pub open spec fn upload_is_in_order(
    before: GlyphMap,
    cache: GlyphMap,
    pages: Seq<PageModel>,
    size: u32,
    placed: Seq<Placed>,
    delivered: Seq<Option<Delivered>>,
    uploads: Seq<(Upload, Vec<u8>)>,
    k: int,
    u: int,
) -> bool {
    let j = new_glyphs(before, placed, size, k)[u];
    &&& 0 <= j < k
    &&& is_new(before, placed, size, j)
    &&& uploads_glyph(cache, pages, size, placed[j], delivered[placed[j].index as int]->0, uploads[u])
}

/// Whether upload number `u` of a run of `k` placed glyphs is what the atlas
/// makes of the bitmap of the run's new glyph number `u`, when `states`
/// holds the atlas's pages before the first upload and after each upload.
pub open spec fn upload_is_next(
    before: GlyphMap,
    states: Seq<Seq<PageModel>>,
    size: u32,
    placed: Seq<Placed>,
    delivered: Seq<Option<Delivered>>,
    uploads: Seq<(Upload, Vec<u8>)>,
    k: int,
    u: int,
) -> bool {
    let j = new_glyphs(before, placed, size, k)[u];
    let bitmap = delivered[placed[j].index as int]->0;
    is_upload(
        states[u],
        states[u + 1],
        bitmap.metrics.width as int,
        bitmap.metrics.height as int,
        uploads[u].0,
    )
}

/// Whether `states` holds the pages of an atlas before and after each of the
/// uploads of a run of `k` placed glyphs, from `first` to `last`.
pub open spec fn uploads_follow(
    before: GlyphMap,
    states: Seq<Seq<PageModel>>,
    first: Seq<PageModel>,
    last: Seq<PageModel>,
    size: u32,
    placed: Seq<Placed>,
    delivered: Seq<Option<Delivered>>,
    uploads: Seq<(Upload, Vec<u8>)>,
    k: int,
) -> bool {
    &&& states.len() == uploads.len() + 1
    &&& states[0] == first
    &&& states[uploads.len() as int] == last
    &&& forall|u: int|
        0 <= u < uploads.len() ==> #[trigger] upload_is_next(
            before,
            states,
            size,
            placed,
            delivered,
            uploads,
            k,
            u,
        )
}

/// One more glyph is shown by those before it, or shows the character
/// itself.
pub proof fn lemma_shown_before_next(placed: Seq<Placed>, k: int, ch: char)
    requires
        0 <= k < placed.len(),
    ensures
        shown_before(placed, k + 1, ch) <==> shown_before(placed, k, ch) || placed[k].ch == ch,
{
    if shown_before(placed, k + 1, ch) {
        let j = choose|j: int| 0 <= j < k + 1 && (#[trigger] placed[j]).ch == ch;
        if j < k {
            assert(shown_before(placed, k, ch));
        }
    }
    if shown_before(placed, k, ch) {
        let j = choose|j: int| 0 <= j < k && (#[trigger] placed[j]).ch == ch;
        assert(0 <= j < k + 1 && placed[j].ch == ch);
    }
    if placed[k].ch == ch {
        assert(0 <= k < k + 1 && placed[k].ch == ch);
    }
}

/// Gives every placed glyph of a run its texture. A glyph whose character
/// the cache holds at this size takes the cached texture. For a character
/// that the cache lacks, the first glyph that shows it is rasterized from
/// what the rasterizer has delivered for its place in the text: the atlas
/// reserves room, the glyph enters the cache, and the upload is handed back;
/// later glyphs of the same character find it cached. So every character of
/// the run is cached afterwards, each distinct new one was uploaded once, and
/// what the cache held before is as it was.
pub fn rasterize_placed(
    font: &mut Font,
    graphics: &mut Graphics,
    size: u32,
    placed: &Vec<Placed>,
    delivered: &Vec<Option<Delivered>>,
) -> (run: TexturedRun)
    requires
        old(graphics).wf(),
        pages_have_room_for(old(graphics)@.atlas, placed@.len() as int),
        delivers(old(font)@, placed@, size, delivered@),
    ensures
        final(graphics).wf(),
        final(graphics)@.batch == old(graphics)@.batch,
        final(graphics)@.projection == old(graphics)@.projection,
        final(font).face() == old(font).face(),
        forall|key: (char, u32)| #[trigger]
            final(font)@.contains_key(key) <==> old(font)@.contains_key(key) || (key.1 == size
                && shown_before(placed@, placed@.len() as int, key.0)),
        forall|key: (char, u32)| #[trigger]
            old(font)@.contains_key(key) ==> final(font)@[key] == old(font)@[key],
        run.glyphs@.len() == placed@.len(),
        forall|k: int|
            0 <= k < placed@.len() ==> #[trigger] run.glyphs@[k] == (Drawn {
                texture: final(font)@[(placed@[k].ch, size)].0,
                ch: placed@[k].ch,
                x: placed@[k].x,
                y: placed@[k].y,
            }),
        run.uploads@.len() == new_glyphs(
            old(font)@,
            placed@,
            size,
            placed@.len() as int,
        ).len(),
        forall|u: int|
            0 <= u < run.uploads@.len() ==> #[trigger] upload_is_in_order(
                old(font)@,
                final(font)@,
                final(graphics)@.atlas,
                size,
                placed@,
                delivered@,
                run.uploads@,
                placed@.len() as int,
                u,
            ),
        exists|states: Seq<Seq<PageModel>>| #[trigger]
            uploads_follow(
                old(font)@,
                states,
                old(graphics)@.atlas,
                final(graphics)@.atlas,
                size,
                placed@,
                delivered@,
                run.uploads@,
                placed@.len() as int,
            ),
        final(graphics)@.atlas.len() >= old(graphics)@.atlas.len(),
        forall|h: TextureHandle| #[trigger]
            names_region(old(graphics)@.atlas, h) ==> names_region(final(graphics)@.atlas, h)
                && region_of(final(graphics)@.atlas, h) == region_of(old(graphics)@.atlas, h),
{
    let n = placed.len();
    let ghost mut states: Seq<Seq<PageModel>> = seq![old(graphics)@.atlas];
    let mut glyphs: Vec<Drawn> = Vec::new();
    let mut uploads: Vec<(Upload, Vec<u8>)> = Vec::new();
    let mut k: usize = 0;
    while k < n
        invariant
            n == placed@.len(),
            k <= n,
            graphics.wf(),
            graphics@.batch == old(graphics)@.batch,
            graphics@.projection == old(graphics)@.projection,
            font.face() == old(font).face(),
            pages_have_room_for(graphics@.atlas, n - k),
            delivers(old(font)@, placed@, size, delivered@),
            forall|key: (char, u32)| #[trigger]
                font@.contains_key(key) <==> old(font)@.contains_key(key) || (key.1 == size
                    && shown_before(placed@, k as int, key.0)),
            forall|key: (char, u32)| #[trigger]
                old(font)@.contains_key(key) ==> font@[key] == old(font)@[key],
            glyphs@.len() == k,
            forall|j: int|
                0 <= j < k ==> #[trigger] glyphs@[j] == (Drawn {
                    texture: font@[(placed@[j].ch, size)].0,
                    ch: placed@[j].ch,
                    x: placed@[j].x,
                    y: placed@[j].y,
                }),
            uploads@.len() == new_glyphs(old(font)@, placed@, size, k as int).len(),
            forall|u: int|
                0 <= u < uploads@.len() ==> #[trigger] upload_is_in_order(
                    old(font)@,
                    font@,
                    graphics@.atlas,
                    size,
                    placed@,
                    delivered@,
                    uploads@,
                    k as int,
                    u,
                ),
            uploads_follow(
                old(font)@,
                states,
                old(graphics)@.atlas,
                graphics@.atlas,
                size,
                placed@,
                delivered@,
                uploads@,
                k as int,
            ),
            graphics@.atlas.len() >= old(graphics)@.atlas.len(),
            forall|h: TextureHandle| #[trigger]
                names_region(old(graphics)@.atlas, h) ==> names_region(graphics@.atlas, h)
                    && region_of(graphics@.atlas, h) == region_of(old(graphics)@.atlas, h),
        decreases n - k,
    {
        let glyph = placed[k];
        let ghost cache = font@;
        let ghost pages = graphics@.atlas;
        let ghost sources = new_glyphs(old(font)@, placed@, size, k as int);
        let ghost waiting = uploads@;
        let ghost earlier = states;
        proof {
            assert forall|c: char|
                shown_before(placed@, k + 1, c) <==> shown_before(placed@, k as int, c)
                    || placed@[k as int].ch == c by {
                lemma_shown_before_next(placed@, k as int, c);
            }
        }
        let texture = match font.cached(glyph.ch, size) {
            Some((texture, _metrics)) => {
                assert(!is_new(old(font)@, placed@, size, k as int));
                texture
            },
            None => {
                assert(is_new(old(font)@, placed@, size, k as int));
                let bitmap = delivered[glyph.index].as_ref().unwrap();
                let rasterized = font.rasterize(
                    glyph.ch,
                    size,
                    graphics,
                    bitmap.metrics,
                    bitmap.coverage.as_slice(),
                );
                let upload = rasterized.upload.unwrap();
                proof {
                    lemma_upload_uses_room(
                        pages,
                        graphics@.atlas,
                        bitmap.metrics.width as int,
                        bitmap.metrics.height as int,
                        upload.0,
                        n - k,
                    );
                    lemma_upload_keeps_regions(
                        pages,
                        upload.0.handle.page(),
                        bitmap.metrics.width as int,
                        bitmap.metrics.height as int,
                    );
                    assert(uploads_glyph(
                        font@,
                        graphics@.atlas,
                        size,
                        placed@[k as int],
                        delivered@[placed@[k as int].index as int]->0,
                        upload,
                    ));
                    states = states.push(graphics@.atlas);
                }
                uploads.push(upload);
                rasterized.glyph.0
            },
        };
        glyphs.push(Drawn { texture, ch: glyph.ch, x: glyph.x, y: glyph.y });
        proof {
            let next = new_glyphs(old(font)@, placed@, size, k + 1);
            assert forall|u: int| 0 <= u < uploads@.len() implies #[trigger] upload_is_in_order(
                old(font)@,
                font@,
                graphics@.atlas,
                size,
                placed@,
                delivered@,
                uploads@,
                k + 1,
                u,
            ) by {
                if u < sources.len() {
                    let j = sources[u];
                    assert(next[u] == j);
                    assert(uploads@[u] == waiting[u]);
                    assert(upload_is_in_order(
                        old(font)@,
                        cache,
                        pages,
                        size,
                        placed@,
                        delivered@,
                        waiting,
                        k as int,
                        u,
                    ));
                    assert(cache.contains_key((placed@[j].ch, size)));
                    assert(font@[(placed@[j].ch, size)] == cache[(placed@[j].ch, size)]);
                } else {
                    assert(next[u] == k);
                }
            }
            assert forall|u: int| 0 <= u < uploads@.len() implies #[trigger] upload_is_next(
                old(font)@,
                states,
                size,
                placed@,
                delivered@,
                uploads@,
                k + 1,
                u,
            ) by {
                if u < sources.len() {
                    assert(next[u] == sources[u]);
                    assert(uploads@[u] == waiting[u]);
                    assert(states[u] == earlier[u] && states[u + 1] == earlier[u + 1]);
                    assert(upload_is_next(
                        old(font)@,
                        earlier,
                        size,
                        placed@,
                        delivered@,
                        waiting,
                        k as int,
                        u,
                    ));
                } else {
                    assert(next[u] == k);
                    assert(states[u] == pages);
                }
            }
        }
        k += 1;
    }
    TexturedRun { glyphs, uploads }
}

/// Whether no character before position `i` of a text is the character at
/// `i`.
pub open spec fn first_occurrence(text: Seq<char>, i: int) -> bool {
    forall|j: int| 0 <= j < i ==> #[trigger] text[j] != text[i]
}

/// Whether the rasterizer has delivered a bitmap that the atlas can take for
/// every character of a text that leaves a glyph and that the cache lacks,
/// at the first position at which the character stands.
pub open spec fn delivers_text(
    cache: GlyphMap,
    text: Seq<char>,
    size: u32,
    delivered: Seq<Option<Delivered>>,
) -> bool {
    &&& delivered.len() == text.len()
    &&& forall|i: int|
        0 <= i < text.len() && text[i] != '\n' && !cache.contains_key((text[i], size))
            && #[trigger] first_occurrence(text, i) ==> {
            &&& delivered[i] matches Some(d)
            &&& uploadable(d.metrics.width as int, d.metrics.height as int)
            &&& d.coverage@.len() == d.metrics.width * d.metrics.height
        }
}

/// The sources of glyphs are the positions of all characters but the line
/// feeds, each once, in rising order.
pub proof fn lemma_glyph_sources(text: Seq<char>, i: int)
    requires
        0 <= i <= text.len(),
    ensures
        glyph_sources(text, i).len() <= i,
        forall|m: int|
            0 <= m < glyph_sources(text, i).len() ==> 0 <= #[trigger] glyph_sources(text, i)[m]
                < i && text[glyph_sources(text, i)[m]] != '\n',
        forall|m: int, o: int|
            0 <= m < o < glyph_sources(text, i).len() ==> #[trigger] glyph_sources(text, i)[m]
                < #[trigger] glyph_sources(text, i)[o],
        forall|p: int|
            0 <= p < i && #[trigger] text[p] != '\n' ==> exists|m: int|
                0 <= m < glyph_sources(text, i).len() && #[trigger] glyph_sources(text, i)[m]
                    == p,
    decreases i,
{
    if i > 0 {
        lemma_glyph_sources(text, i - 1);
        let before = glyph_sources(text, i - 1);
        let now = glyph_sources(text, i);
        assert forall|p: int| 0 <= p < i && #[trigger] text[p] != '\n' implies exists|m: int|
            0 <= m < now.len() && #[trigger] now[m] == p by {
            if p < i - 1 {
                let m = choose|m: int| 0 <= m < before.len() && #[trigger] before[m] == p;
                assert(now[m] == p);
            } else {
                assert(now[before.len() as int] == p);
            }
        }
    }
}

/// A layout shows exactly the characters of its text, line feeds aside.
pub proof fn lemma_layout_shows(job: Job, ch: char)
    requires
        job.text.len() <= usize::MAX,
    ensures
        shown_before(job.layout(), job.layout().len() as int, ch) <==> ch != '\n'
            && job.text.contains(ch),
{
    let n = job.text.len() as int;
    let placed = job.layout();
    let sources = glyph_sources(job.text, n);
    lemma_layout_keeps_characters(job);
    lemma_glyph_sources(job.text, n);
    if shown_before(placed, placed.len() as int, ch) {
        let j = choose|j: int| 0 <= j < placed.len() && (#[trigger] placed[j]).ch == ch;
        assert(job.text[sources[j]] == ch);
    }
    if ch != '\n' && job.text.contains(ch) {
        let p = choose|p: int| 0 <= p < n && job.text[p] == ch;
        assert(job.text[p] != '\n');
        let m = choose|m: int| 0 <= m < sources.len() && #[trigger] sources[m] == p;
        assert(placed[m].ch == ch);
    }
}

/// What was delivered for a text serves the glyphs of its layout: the first
/// glyph that shows a character stands for the first position of that
/// character in the text.
pub proof fn lemma_layout_is_delivered(
    job: Job,
    cache: GlyphMap,
    size: u32,
    delivered: Seq<Option<Delivered>>,
)
    requires
        job.text.len() <= usize::MAX,
        delivers_text(cache, job.text, size, delivered),
    ensures
        delivers(cache, job.layout(), size, delivered),
{
    let n = job.text.len() as int;
    let placed = job.layout();
    let sources = glyph_sources(job.text, n);
    lemma_layout_keeps_characters(job);
    lemma_glyph_sources(job.text, n);
    assert forall|k: int| 0 <= k < placed.len() implies (#[trigger] placed[k]).index
        < delivered.len() by {
        assert(placed[k].index == sources[k]);
    }
    assert forall|k: int| 0 <= k < placed.len() && #[trigger] is_new(cache, placed, size, k)
        implies {
        &&& delivered[placed[k].index as int] matches Some(d)
        &&& uploadable(d.metrics.width as int, d.metrics.height as int)
        &&& d.coverage@.len() == d.metrics.width * d.metrics.height
    } by {
        let i = sources[k];
        assert(placed[k].index == i && placed[k].ch == job.text[i]);
        assert forall|j: int| 0 <= j < i implies #[trigger] job.text[j] != job.text[i] by {
            if job.text[j] == job.text[i] {
                assert(job.text[j] != '\n');
                let m = choose|m: int| 0 <= m < sources.len() && #[trigger] sources[m] == j;
                if m >= k {
                    if m > k {
                        assert(sources[k] < sources[m]);
                    }
                }
                assert(m < k);
                assert(placed[m].ch == job.text[j]);
                assert(shown_before(placed, k, placed[k].ch));
            }
        }
        assert(first_occurrence(job.text, i));
    }
}

/// Lays out `text` and gives every glyph its texture: the layout of
/// `TextRenderer::layout_text`, then `rasterize_placed` on its glyphs.
/// `delivered` holds what the rasterizer has delivered, at the first position
/// of each character that the cache lacks. There is one glyph for each
/// character of the text but the line feeds, in the order of the text; every
/// such character is cached afterwards; each distinct one that was not is
/// uploaded once; and what the cache held before is as it was.
pub fn layout_textured(
    font: &mut Font,
    graphics: &mut Graphics,
    x: i32,
    y: i32,
    text: &str,
    metrics: &Vec<RasterMetrics>,
    kerning: &Vec<Option<i32>>,
    size: u32,
    max_line_length: i64,
    line_height: i64,
    delivered: &Vec<Option<Delivered>>,
) -> (run: TexturedRun)
    requires
        (Job {
            text: text@,
            metrics: metrics@,
            kerning: kerning@,
            x: x as int,
            y: y as int,
            size: size as int,
            max_line_length: max_line_length as int,
            line_height: line_height as int,
        }).wf(),
        old(graphics).wf(),
        pages_have_room_for(old(graphics)@.atlas, text@.len() as int),
        delivers_text(old(font)@, text@, size, delivered@),
    ensures
        final(graphics).wf(),
        final(graphics)@.batch == old(graphics)@.batch,
        final(graphics)@.projection == old(graphics)@.projection,
        final(font).face() == old(font).face(),
        ({
            let placed = (Job {
                text: text@,
                metrics: metrics@,
                kerning: kerning@,
                x: x as int,
                y: y as int,
                size: size as int,
                max_line_length: max_line_length as int,
                line_height: line_height as int,
            }).layout();
            &&& places(placed, text@, glyph_sources(text@, text@.len() as int))
            &&& run.glyphs@.len() == placed.len()
            &&& forall|k: int|
                0 <= k < placed.len() ==> #[trigger] run.glyphs@[k] == (Drawn {
                    texture: final(font)@[(placed[k].ch, size)].0,
                    ch: placed[k].ch,
                    x: placed[k].x,
                    y: placed[k].y,
                })
            &&& run.uploads@.len() == new_glyphs(
                old(font)@,
                placed,
                size,
                placed.len() as int,
            ).len()
            &&& forall|u: int|
                0 <= u < run.uploads@.len() ==> #[trigger] upload_is_in_order(
                    old(font)@,
                    final(font)@,
                    final(graphics)@.atlas,
                    size,
                    placed,
                    delivered@,
                    run.uploads@,
                    placed.len() as int,
                    u,
                )
            &&& exists|states: Seq<Seq<PageModel>>| #[trigger]
                uploads_follow(
                    old(font)@,
                    states,
                    old(graphics)@.atlas,
                    final(graphics)@.atlas,
                    size,
                    placed,
                    delivered@,
                    run.uploads@,
                    placed.len() as int,
                )
        }),
        forall|key: (char, u32)| #[trigger]
            final(font)@.contains_key(key) <==> old(font)@.contains_key(key) || (key.1 == size
                && key.0 != '\n' && text@.contains(key.0)),
        forall|key: (char, u32)| #[trigger]
            old(font)@.contains_key(key) ==> final(font)@[key] == old(font)@[key],
        final(graphics)@.atlas.len() >= old(graphics)@.atlas.len(),
        forall|h: TextureHandle| #[trigger]
            names_region(old(graphics)@.atlas, h) ==> names_region(final(graphics)@.atlas, h)
                && region_of(final(graphics)@.atlas, h) == region_of(old(graphics)@.atlas, h),
{
    let ghost job = Job {
        text: text@,
        metrics: metrics@,
        kerning: kerning@,
        x: x as int,
        y: y as int,
        size: size as int,
        max_line_length: max_line_length as int,
        line_height: line_height as int,
    };
    let mut renderer = TextRenderer::new();
    renderer.layout_text(x, y, text, metrics, kerning, size, max_line_length, line_height);
    let placed = renderer.characters();
    proof {
        assert(placed@ =~= job.layout());
        lemma_layout_keeps_characters(job);
        lemma_glyph_sources(job.text, job.text.len() as int);
        lemma_layout_is_delivered(job, old(font)@, size, delivered@);
        assert forall|c: char|
            shown_before(placed@, placed@.len() as int, c) <==> c != '\n' && text@.contains(
                c,
            ) by {
            lemma_layout_shows(job, c);
        }
    }
    rasterize_placed(font, graphics, size, &placed, delivered)
}

} // verus!
