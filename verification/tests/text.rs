use venus::font::{
    coverage_to_rgba, measure, Font, RasterMetrics, MAX_LINE_HEIGHT, MAX_TEXT_LEN, UNITS_PER_PIXEL,
};
use venus::graphics::Graphics;
use venus::shape::IRect;
use venus::text::{
    characters_of, is_whitespace, layout_textured, rasterize_placed, Delivered, Drawn, Placed,
    TextRenderer,
};

const PX: i64 = 64;

/// Every character 10 pixels wide, with a bitmap of 8 by 12 pixels that
/// reaches 2 pixels below the baseline.
fn plain(text: &str) -> (Vec<RasterMetrics>, Vec<Option<i32>>) {
    let n = text.chars().count();
    (
        vec![RasterMetrics { advance_width: 640, width: 8, height: 12, ymin: -2 }; n],
        vec![None; n],
    )
}

fn lay_out(text: &str, x: i32, y: i32, size: u32, max: i64, line_height: i64) -> Vec<Placed> {
    let (metrics, kerning) = plain(text);
    let mut renderer = TextRenderer::new();
    renderer.layout_text(x, y, text, &metrics, &kerning, size, max, line_height);
    renderer.characters()
}

#[test]
fn layout_units() {
    assert_eq!(UNITS_PER_PIXEL, 64);
    assert_eq!(MAX_TEXT_LEN, 4 * 1024 * 1024);
    assert_eq!(MAX_LINE_HEIGHT, (u32::MAX as i64 + 1) * 64);
}

#[test]
fn white_space_is_what_the_standard_library_calls_white_space() {
    for code in 0..=0x10FFFFu32 {
        if let Some(c) = char::from_u32(code) {
            assert_eq!(is_whitespace(c), c.is_whitespace(), "U+{:04X}", code);
        }
    }
}

#[test]
fn characters_of_a_text() {
    assert_eq!(characters_of(""), Vec::<char>::new());
    assert_eq!(characters_of("aé\n漢 "), vec!['a', 'é', '\n', '漢', ' ']);
}

#[test]
fn the_last_word_wraps_when_the_line_is_as_long_as_hello_and_a_space() {
    let (metrics, kerning) = plain("hello ");
    let width = Font::text_width(&metrics, &kerning);
    assert_eq!(width, 6 * 10 * PX);
    let glyphs = lay_out("hello world", 100 * 64, 50 * 64, 24, width, 30 * PX);
    assert_eq!(glyphs.len(), 11);
    let top = 50 * PX + PX * ((24 - 12) + 2);
    for (i, ch) in "hello ".chars().enumerate() {
        assert_eq!(
            glyphs[i],
            Placed { index: i, ch, x: 100 * PX + 10 * PX * i as i64, y: top }
        );
    }
    for (i, ch) in "world".chars().enumerate() {
        assert_eq!(
            glyphs[6 + i],
            Placed { index: 6 + i, ch, x: 100 * PX + 10 * PX * i as i64, y: top + 30 * PX }
        );
    }
}

#[test]
fn a_word_that_just_fits_stays_on_the_line() {
    // "hello world" is 110 pixels wide: the line takes exactly that
    let glyphs = lay_out("hello world", 0, 0, 12, 110 * PX, 30 * PX);
    assert!(glyphs.iter().all(|g| g.y == 2 * PX));
    assert_eq!(glyphs[10].x, 100 * PX);
    // one unit less and the last word moves down
    let glyphs = lay_out("hello world", 0, 0, 12, 110 * PX - 1, 30 * PX);
    assert_eq!(glyphs[5], Placed { index: 5, ch: ' ', x: 50 * PX, y: 2 * PX });
    assert_eq!(glyphs[6], Placed { index: 6, ch: 'w', x: 0, y: 32 * PX });
}

#[test]
fn a_line_feed_breaks_the_line_and_leaves_no_glyph() {
    let glyphs = lay_out("ab\ncd\n\ne", 7, 9, 12, i64::MAX, 20 * PX);
    let expected = vec![
        Placed { index: 0, ch: 'a', x: 7, y: 9 + 2 * PX },
        Placed { index: 1, ch: 'b', x: 7 + 10 * PX, y: 9 + 2 * PX },
        Placed { index: 3, ch: 'c', x: 7, y: 9 + 22 * PX },
        Placed { index: 4, ch: 'd', x: 7 + 10 * PX, y: 9 + 22 * PX },
        Placed { index: 7, ch: 'e', x: 7, y: 9 + 62 * PX },
    ];
    assert_eq!(glyphs, expected);
}

#[test]
fn white_space_is_placed_like_any_character() {
    let glyphs = lay_out("a \tb", 0, 0, 12, i64::MAX, 20 * PX);
    let chars: Vec<char> = glyphs.iter().map(|g| g.ch).collect();
    assert_eq!(chars, vec!['a', ' ', '\t', 'b']);
    let xs: Vec<i64> = glyphs.iter().map(|g| g.x).collect();
    assert_eq!(xs, vec![0, 10 * PX, 20 * PX, 30 * PX]);
}

#[test]
fn a_word_longer_than_the_line_wraps_once_and_runs_on() {
    let glyphs = lay_out("ab abcdefgh", 0, 0, 12, 40 * PX, 20 * PX);
    // "ab" and the space stay; the long word starts the next line and overflows it
    assert_eq!(glyphs[2], Placed { index: 2, ch: ' ', x: 20 * PX, y: 2 * PX });
    for i in 0..8 {
        assert_eq!(glyphs[3 + i].x, 10 * PX * i as i64);
        assert_eq!(glyphs[3 + i].y, 22 * PX);
    }
}

#[test]
fn the_first_word_wraps_too_when_it_is_too_long() {
    let glyphs = lay_out("abc", 0, 0, 12, 20 * PX, 20 * PX);
    assert_eq!(glyphs[0], Placed { index: 0, ch: 'a', x: 0, y: 22 * PX });
}

#[test]
fn white_space_beyond_the_line_moves_down() {
    // after "abcd" the pen is beyond the line: the second space finds it there
    let glyphs = lay_out("abcd  e", 0, 0, 12, 45 * PX, 20 * PX);
    assert_eq!(glyphs[4], Placed { index: 4, ch: ' ', x: 40 * PX, y: 2 * PX });
    assert_eq!(glyphs[5], Placed { index: 5, ch: ' ', x: 0, y: 22 * PX });
    assert_eq!(glyphs[6], Placed { index: 6, ch: 'e', x: 10 * PX, y: 22 * PX });
}

#[test]
fn neighbours_on_a_line_are_kerned() {
    let text = "AV A";
    let metrics = vec![
        RasterMetrics { advance_width: 700, width: 10, height: 14, ymin: 0 },
        RasterMetrics { advance_width: 650, width: 10, height: 14, ymin: 0 },
        RasterMetrics { advance_width: 300, width: 0, height: 0, ymin: 0 },
        RasterMetrics { advance_width: 700, width: 10, height: 20, ymin: -3 },
    ];
    // the first entry has no neighbour before it and is never read
    let kerning = vec![Some(1000), Some(-90), None, Some(25)];
    let mut renderer = TextRenderer::new();
    renderer.layout_text(0, 0, text, &metrics, &kerning, 16, i64::MAX, 1280);
    let glyphs = renderer.characters();
    assert_eq!(
        glyphs,
        vec![
            Placed { index: 0, ch: 'A', x: 0, y: 2 * PX },
            Placed { index: 1, ch: 'V', x: 700 - 90, y: 2 * PX },
            Placed { index: 2, ch: ' ', x: 700 - 90 + 650, y: 16 * PX },
            Placed { index: 3, ch: 'A', x: 700 - 90 + 650 + 300 + 25, y: (16 - 20 + 3) * PX },
        ]
    );
    assert_eq!(Font::text_width(&metrics, &kerning), 700 - 90 + 650 + 300 + 25 + 700);
    assert_eq!(measure(&metrics, &kerning, 1, 2), 650);
    assert_eq!(measure(&metrics, &kerning, 0, 2), 700 - 90 + 650);
    assert_eq!(measure(&metrics, &kerning, 3, 4), 700);
    assert_eq!(measure(&metrics, &kerning, 2, 2), 0);
}

#[test]
fn a_wrapped_word_is_not_kerned_against_the_line_above() {
    let text = "A V";
    let m = RasterMetrics { advance_width: 640, width: 8, height: 12, ymin: 0 };
    let metrics = vec![m, m, m];
    let kerning = vec![None, Some(-64), Some(-64)];
    let mut renderer = TextRenderer::new();
    renderer.layout_text(0, 0, text, &metrics, &kerning, 12, 1500, 1280);
    let glyphs = renderer.characters();
    assert_eq!(glyphs[1], Placed { index: 1, ch: ' ', x: 640 - 64, y: 0 });
    // 1216 + 640 is beyond 1500
    assert_eq!(glyphs[2], Placed { index: 2, ch: 'V', x: 0, y: 1280 });
    // with room on the line the pair is kerned
    renderer.layout_text(0, 0, text, &metrics, &kerning, 12, 2000, 1280);
    assert_eq!(renderer.characters()[2], Placed { index: 2, ch: 'V', x: 1216 - 64, y: 0 });
}

#[test]
fn glyphs_wait_until_they_are_collected() {
    let (metrics, kerning) = plain("ab");
    let mut renderer = TextRenderer::new();
    assert!(renderer.characters().is_empty());
    renderer.layout_text(0, 0, "ab", &metrics, &kerning, 12, i64::MAX, 1280);
    renderer.layout_text(640, 0, "ab", &metrics, &kerning, 12, i64::MAX, 1280);
    let glyphs = renderer.characters();
    let xs: Vec<i64> = glyphs.iter().map(|g| g.x).collect();
    assert_eq!(xs, vec![0, 640, 640, 1280]);
    assert!(renderer.characters().is_empty());
}

#[test]
fn an_empty_text_places_nothing() {
    assert!(lay_out("", 0, 0, 12, 0, 1280).is_empty());
    assert!(lay_out("\n\n", 0, 0, 12, 0, 1280).is_empty());
}

#[test]
fn negative_line_lengths_push_every_word_down() {
    let glyphs = lay_out("a b", 0, 0, 12, -1, 10 * PX);
    assert_eq!(glyphs[0], Placed { index: 0, ch: 'a', x: 0, y: 12 * PX });
    // the space follows its word without another look at the line's length
    assert_eq!(glyphs[1], Placed { index: 1, ch: ' ', x: 10 * PX, y: 12 * PX });
    assert_eq!(glyphs[2], Placed { index: 2, ch: 'b', x: 0, y: 22 * PX });
}

#[test]
fn line_height_is_the_fonts_or_the_size() {
    assert_eq!(Font::line_height(Some(1234), 24), 1234);
    assert_eq!(Font::line_height(Some(-5), 24), -5);
    assert_eq!(Font::line_height(None, 24), 24 * 64);
    assert_eq!(Font::line_height(None, u32::MAX), u32::MAX as i64 * 64);
    assert_eq!(Font::line_height(None, 0), 0);
}

/// A font without glyphs of its own: the tables that a parser asks for, and
/// nothing else.
fn bare_font() -> Font {
    let mut bytes: Vec<u8> = Vec::new();
    let head = {
        let mut t = vec![0u8; 54];
        t[0..4].copy_from_slice(&[0, 1, 0, 0]);
        t[18..20].copy_from_slice(&1000u16.to_be_bytes());
        t
    };
    let hhea = {
        let mut t = vec![0u8; 36];
        t[0..4].copy_from_slice(&[0, 1, 0, 0]);
        t
    };
    let maxp = vec![0, 0, 0x50, 0, 0, 1];
    let tables: [(&[u8; 4], &Vec<u8>); 3] = [(b"head", &head), (b"hhea", &hhea), (b"maxp", &maxp)];
    bytes.extend_from_slice(&[0, 1, 0, 0, 0, 3, 0, 32, 0, 1, 0, 16]);
    let mut offset = 12 + 16 * 3;
    for (tag, table) in tables.iter() {
        bytes.extend_from_slice(&tag[..]);
        bytes.extend_from_slice(&[0, 0, 0, 0]);
        bytes.extend_from_slice(&(offset as u32).to_be_bytes());
        bytes.extend_from_slice(&(table.len() as u32).to_be_bytes());
        offset += (table.len() + 3) / 4 * 4;
    }
    for (_, table) in tables.iter() {
        bytes.extend_from_slice(table);
        while bytes.len() % 4 != 0 {
            bytes.push(0);
        }
    }
    Font::from_parsed(fontdue::Font::from_bytes(bytes, fontdue::FontSettings::default()))
        .ok()
        .unwrap()
}

fn bitmap(width: u32, height: u32, fill: u8) -> Delivered {
    Delivered {
        metrics: RasterMetrics { advance_width: 640, width, height, ymin: 0 },
        coverage: vec![fill; (width * height) as usize],
    }
}

#[test]
fn each_new_character_of_a_run_is_uploaded_once() {
    let mut font = bare_font();
    let mut gfx = Graphics::new();
    // 'b' is cached before the run
    let b = font.rasterize('b', 12, &mut gfx, bitmap(3, 3, 9).metrics, &bitmap(3, 3, 9).coverage);
    let b = b.glyph;
    let placed = vec![
        Placed { index: 0, ch: 'a', x: 0, y: 5 },
        Placed { index: 1, ch: 'b', x: 640, y: 5 },
        Placed { index: 2, ch: 'a', x: 1280, y: 5 },
        Placed { index: 4, ch: 'c', x: 0, y: 1285 },
        Placed { index: 5, ch: 'a', x: 640, y: 1285 },
    ];
    let delivered = vec![
        Some(bitmap(4, 6, 1)),
        Some(bitmap(9, 9, 2)), // for a cached character: not looked at
        None,
        None,
        Some(bitmap(5, 7, 3)),
        None,
    ];
    let run = rasterize_placed(&mut font, &mut gfx, 12, &placed, &delivered);
    assert_eq!(run.uploads.len(), 2);
    assert_eq!(run.uploads[0].0.region, IRect { x: 3, y: 0, width: 4, height: 6 });
    assert_eq!(run.uploads[0].1, coverage_to_rgba(&vec![1u8; 24]));
    assert_eq!(run.uploads[1].0.region, IRect { x: 7, y: 0, width: 5, height: 7 });
    assert_eq!(run.uploads[1].1, coverage_to_rgba(&vec![3u8; 35]));
    let a = font.cached('a', 12).unwrap();
    let c = font.cached('c', 12).unwrap();
    assert_eq!(a.0.handle(), run.uploads[0].0.handle);
    assert_eq!(c.0.handle(), run.uploads[1].0.handle);
    assert_eq!(a.1, delivered[0].as_ref().unwrap().metrics);
    assert_eq!(c.1, delivered[4].as_ref().unwrap().metrics);
    assert_eq!((a.0.width(), a.0.height()), (4, 6));
    // what was cached is as it was
    assert_eq!(font.cached('b', 12), Some(b));
    assert_eq!(font.cached('a', 13), None);
    assert_eq!(
        run.glyphs,
        vec![
            Drawn { texture: a.0, ch: 'a', x: 0, y: 5 },
            Drawn { texture: b.0, ch: 'b', x: 640, y: 5 },
            Drawn { texture: a.0, ch: 'a', x: 1280, y: 5 },
            Drawn { texture: c.0, ch: 'c', x: 0, y: 1285 },
            Drawn { texture: a.0, ch: 'a', x: 640, y: 1285 },
        ]
    );
    // a second run finds everything cached
    let again = rasterize_placed(&mut font, &mut gfx, 12, &placed, &vec![None, None, None, None, None, None]);
    assert!(again.uploads.is_empty());
    assert_eq!(again.glyphs, run.glyphs);
    assert_eq!(gfx.atlas().page_count(), 1);
}

#[test]
fn a_laid_out_text_has_a_texture_for_every_glyph() {
    let mut font = bare_font();
    let mut gfx = Graphics::new();
    let text = "ab a\nba";
    let (metrics, kerning) = plain(text);
    let delivered = vec![
        Some(bitmap(8, 12, 1)),
        Some(bitmap(8, 12, 2)),
        Some(bitmap(0, 0, 0)),
        None,
        None,
        None,
        None,
    ];
    let run = layout_textured(
        &mut font, &mut gfx, 0, 0, text, &metrics, &kerning, 12, 25 * PX, 20 * PX, &delivered,
    );
    let chars: Vec<char> = run.glyphs.iter().map(|g| g.ch).collect();
    assert_eq!(chars, vec!['a', 'b', ' ', 'a', 'b', 'a']);
    let places: Vec<(i64, i64)> = run.glyphs.iter().map(|g| (g.x, g.y)).collect();
    assert_eq!(
        places,
        vec![
            (0, 2 * PX),
            (10 * PX, 2 * PX),
            (20 * PX, 2 * PX),
            (0, 22 * PX),
            (0, 42 * PX),
            (10 * PX, 42 * PX),
        ]
    );
    assert_eq!(run.uploads.len(), 3);
    for ch in ['a', 'b', ' '] {
        let cached = font.cached(ch, 12).unwrap();
        for glyph in run.glyphs.iter().filter(|g| g.ch == ch) {
            assert_eq!(glyph.texture, cached.0);
        }
    }
    assert_eq!(font.cached('\n', 12), None);
    assert_eq!(run.uploads[0].0.handle, font.cached('a', 12).unwrap().0.handle());
    assert_eq!(run.uploads[1].0.handle, font.cached('b', 12).unwrap().0.handle());
    assert_eq!(run.uploads[2].0.handle, font.cached(' ', 12).unwrap().0.handle());
    assert_eq!(run.uploads[1].0.region, IRect { x: 8, y: 0, width: 8, height: 12 });
    // the same text again uploads nothing
    let none: Vec<Option<Delivered>> = (0..7).map(|_| None).collect();
    let again = layout_textured(
        &mut font, &mut gfx, 0, 0, text, &metrics, &kerning, 12, 25 * PX, 20 * PX, &none,
    );
    assert!(again.uploads.is_empty());
    assert_eq!(again.glyphs, run.glyphs);
}
