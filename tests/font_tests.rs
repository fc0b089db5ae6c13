use bufro::error::PainterError;
use bufro::text::{Font, TextStep};

fn put16(v: &mut Vec<u8>, x: u16) {
    v.extend_from_slice(&x.to_be_bytes());
}

fn put32(v: &mut Vec<u8>, x: u32) {
    v.extend_from_slice(&x.to_be_bytes());
}

fn set16(v: &mut [u8], at: usize, x: i16) {
    v[at..at + 2].copy_from_slice(&x.to_be_bytes());
}

/// A minimal TrueType face: units per em 1000, capital height 700, bounding box
/// (-50, -200, 950, 900), glyphs for 'a' (advance 600), 'b' (700) and ' ' (250).
fn test_font() -> Vec<u8> {
    let mut os2 = vec![0u8; 96];
    set16(&mut os2, 0, 2);
    set16(&mut os2, 88, 700);

    let mut cmap = Vec::new();
    put16(&mut cmap, 0);
    put16(&mut cmap, 1);
    put16(&mut cmap, 0);
    put16(&mut cmap, 3);
    put32(&mut cmap, 12);
    put16(&mut cmap, 0);
    put16(&mut cmap, 262);
    put16(&mut cmap, 0);
    let mut map = [0u8; 256];
    map['a' as usize] = 1;
    map['b' as usize] = 2;
    map[' ' as usize] = 3;
    cmap.extend_from_slice(&map);

    let mut head = vec![0u8; 54];
    set16(&mut head, 18, 1000);
    set16(&mut head, 36, -50);
    set16(&mut head, 38, -200);
    set16(&mut head, 40, 950);
    set16(&mut head, 42, 900);

    let mut hhea = vec![0u8; 36];
    set16(&mut hhea, 34, 4);

    let mut hmtx = Vec::new();
    for advance in [500u16, 600, 700, 250] {
        put16(&mut hmtx, advance);
        put16(&mut hmtx, 0);
    }

    let mut maxp = Vec::new();
    put32(&mut maxp, 0x0000_5000);
    put16(&mut maxp, 4);

    let tables: Vec<(&[u8; 4], Vec<u8>)> = vec![
        (b"OS/2", os2),
        (b"cmap", cmap),
        (b"head", head),
        (b"hhea", hhea),
        (b"hmtx", hmtx),
        (b"maxp", maxp),
    ];
    let mut font = Vec::new();
    put32(&mut font, 0x0001_0000);
    put16(&mut font, tables.len() as u16);
    put16(&mut font, 0);
    put16(&mut font, 0);
    put16(&mut font, 0);
    let mut offset = 12 + 16 * tables.len();
    for (tag, data) in tables.iter() {
        font.extend_from_slice(&tag[..]);
        put32(&mut font, 0);
        put32(&mut font, offset as u32);
        put32(&mut font, data.len() as u32);
        offset += data.len();
    }
    for (_, data) in tables.iter() {
        font.extend_from_slice(data);
    }
    font
}

#[test]
fn font_metrics_from_tables() {
    let font = Font::new(&test_font()).unwrap();
    let m = font.metrics().unwrap();
    assert_eq!(m.units_per_em, 1000);
    assert_eq!(m.line_height, 1400);
    assert_eq!(m.glyph_width, 900);
}

#[test]
fn font_glyphs_and_advances() {
    let font = Font::new(&test_font()).unwrap();
    let cs = font.text_chars(&"ab\n ".chars().collect()).unwrap();
    assert_eq!(cs.len(), 4);
    assert_eq!((cs[0].glyph, cs[0].advance), (1, 600));
    assert_eq!((cs[1].glyph, cs[1].advance), (2, 700));
    assert_eq!((cs[2].glyph, cs[2].advance), (0, 0));
    assert_eq!((cs[3].glyph, cs[3].advance), (3, 250));
}

#[test]
fn font_missing_glyph() {
    let font = Font::new(&test_font()).unwrap();
    assert_eq!(font.text_chars(&"az".chars().collect()).err(), Some(PainterError::MissingFontData));
}

#[test]
fn font_layout_wraps_after_space() {
    let font = Font::new(&test_font()).unwrap();
    let (m, steps) = font.layout_text(&"ab a".chars().collect(), Some(1)).unwrap();
    assert_eq!(m.line_height, 1400);
    assert_eq!(
        steps,
        vec![
            TextStep::Glyph { glyph: 1, advance: 600 },
            TextStep::Glyph { glyph: 2, advance: 700 },
            TextStep::Glyph { glyph: 3, advance: 250 },
            TextStep::NewLine { back: 1550 },
            TextStep::Glyph { glyph: 1, advance: 600 },
        ]
    );
}

#[test]
fn font_layout_zero_wrap_limit_is_invalid() {
    let font = Font::new(&test_font()).unwrap();
    assert_eq!(font.layout_text(&"ab".chars().collect(), Some(0)).err(), Some(PainterError::InvalidArgument));
}
