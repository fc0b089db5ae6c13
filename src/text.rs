use crate::error::PainterError;
use owned_ttf_parser::AsFaceRef;
use vstd::prelude::*;

verus! {

/// A face parsed by owned_ttf_parser, which owns its data; opaque here.
#[verifier::external_type_specification]
#[verifier::external_body]
pub struct ExOwnedFace(owned_ttf_parser::OwnedFace);

/// Whether the font data parses as a face (the first face of a collection). The
/// names below speak of that face.
pub uninterp spec fn face_parses(data: Seq<u8>) -> bool;

/// Relies on owned_ttf_parser::OwnedFace::from_vec with index 0: it succeeds exactly
/// on the data that parses as a face.
#[verifier::external_body]
fn parse_face(data: &[u8]) -> (r: Option<owned_ttf_parser::OwnedFace>)
    ensures
        r is Some == face_parses(data@),
{
    owned_ttf_parser::OwnedFace::from_vec(data.to_vec(), 0).ok()
}

/// The face's units per em, as ttf_parser::Face::units_per_em gives it.
pub uninterp spec fn units_per_em_of(data: Seq<u8>) -> Option<u16>;

/// The face's capital height, as ttf_parser::Face::capital_height gives it.
pub uninterp spec fn capital_height_of(data: Seq<u8>) -> Option<i16>;

/// The face's global bounding box `(x_min, y_min, x_max, y_max)`.
pub uninterp spec fn global_bbox_of(data: Seq<u8>) -> (i16, i16, i16, i16);

/// The id of the face's glyph for a character, if it has one.
pub uninterp spec fn glyph_index_of(data: Seq<u8>, c: char) -> Option<u16>;

/// The horizontal advance of a glyph of the face, if the face gives one.
pub uninterp spec fn glyph_advance_of(data: Seq<u8>, glyph: u16) -> Option<u16>;

/// Relies on ttf_parser::Face::units_per_em of the face that `font` was parsed from,
/// reached through owned_ttf_parser's `as_face_ref`: `None` unless the value is in
/// 16..=16384. The wrappers below reach the face the same way.
#[verifier::external_body]
fn face_units_per_em(font: &Font) -> (r: Option<u16>)
    ensures
        r == units_per_em_of(font.data()),
        r matches Some(u) ==> 16 <= u <= 16384,
{
    font.face.as_face_ref().units_per_em()
}

/// Relies on ttf_parser::Face::capital_height.
#[verifier::external_body]
fn face_capital_height(font: &Font) -> (r: Option<i16>)
    ensures
        r == capital_height_of(font.data()),
{
    font.face.as_face_ref().capital_height()
}

/// Relies on ttf_parser::Face::global_bounding_box, as (x_min, y_min, x_max, y_max).
#[verifier::external_body]
fn face_global_bbox(font: &Font) -> (r: (i16, i16, i16, i16))
    ensures
        r == global_bbox_of(font.data()),
{
    let b = font.face.as_face_ref().global_bounding_box();
    (b.x_min, b.y_min, b.x_max, b.y_max)
}

/// Relies on ttf_parser::Face::glyph_index: the id of the glyph for `c`, if any.
#[verifier::external_body]
fn face_glyph_index(font: &Font, c: char) -> (r: Option<u16>)
    ensures
        r == glyph_index_of(font.data(), c),
{
    font.face.as_face_ref().glyph_index(c).map(|g| g.0)
}

/// Relies on ttf_parser::Face::glyph_hor_advance: the glyph's horizontal advance.
#[verifier::external_body]
fn face_glyph_hor_advance(font: &Font, glyph: u16) -> (r: Option<u16>)
    ensures
        r == glyph_advance_of(font.data(), glyph),
{
    font.face.as_face_ref().glyph_hor_advance(owned_ttf_parser::GlyphId(glyph))
}

/// The metrics that text layout reads from a font, in font units.
#[derive(Debug, Clone, Copy, PartialEq, Eq, Structural)]
pub struct FontMetrics {
    pub units_per_em: u16,
    /// Height of one line: bounding box y_min + y_max + capital height.
    pub line_height: i32,
    /// Nominal glyph width: bounding box x_min + x_max.
    pub glyph_width: i32,
}

/// One character of a text with its glyph and horizontal advance (both zero for a
/// newline).
#[derive(Debug, Clone, Copy, PartialEq, Eq, Structural)]
pub struct TextChar {
    pub ch: char,
    pub glyph: u16,
    pub advance: u16,
}

/// One step of laying text out, replayed on a path builder in font units.
#[derive(Debug, Clone, Copy, PartialEq, Eq, Structural)]
pub enum TextStep {
    /// Outline `glyph` at the pen, then move the pen right by `advance`.
    Glyph { glyph: u16, advance: u16 },
    /// Move the pen left by `back` and down by one line.
    NewLine { back: u64 },
}

/// Whether the pen wraps after a character: with a limit `n`, after a space once the
/// line's advance exceeds `n` nominal glyph widths.
pub open spec fn wraps(ch: char, offset: int, glyph_width: int, wrap_limit: Option<usize>) -> bool {
    match wrap_limit {
        Some(n) => ch == ' ' && offset > glyph_width * n,
        None => false,
    }
}

/// The layout of `cs` when the current line has advanced `offset` so far: a newline
/// moves to the next line; any other character emits its glyph and advances, then
/// wraps where `wraps` says.
pub open spec fn layout_from(
    cs: Seq<TextChar>,
    offset: int,
    glyph_width: int,
    wrap_limit: Option<usize>,
) -> Seq<TextStep>
    decreases cs.len(),
{
    if cs.len() == 0 {
        Seq::empty()
    } else {
        let c = cs[0];
        let rest = cs.drop_first();
        if c.ch == '\n' {
            seq![TextStep::NewLine { back: offset as u64 }] + layout_from(rest, 0, glyph_width, wrap_limit)
        } else {
            let o = offset + c.advance;
            let g = TextStep::Glyph { glyph: c.glyph, advance: c.advance };
            if wraps(c.ch, o, glyph_width, wrap_limit) {
                seq![g, TextStep::NewLine { back: o as u64 }] + layout_from(
                    rest,
                    0,
                    glyph_width,
                    wrap_limit,
                )
            } else {
                seq![g] + layout_from(rest, o, glyph_width, wrap_limit)
            }
        }
    }
}

/// Most characters that one text may hold, so that a line's advance fits a `u64`.
pub const MAX_TEXT_CHARS: usize = 0xffff_ffff;

/// Lays text out from its characters with their glyphs and advances. A wrap limit of
/// zero is refused.
pub fn layout_chars(cs: &Vec<TextChar>, glyph_width: i32, wrap_limit: Option<usize>) -> (r: Result<
    Vec<TextStep>,
    PainterError,
>)
    requires
        cs.len() <= MAX_TEXT_CHARS,
    ensures
        wrap_limit == Some(0usize) ==> r == Err::<Vec<TextStep>, PainterError>(
            PainterError::InvalidArgument,
        ),
        wrap_limit != Some(0usize) ==> (r matches Ok(steps) && steps@ == layout_from(
            cs@,
            0,
            glyph_width as int,
            wrap_limit,
        )),
{
    if wrap_limit == Some(0usize) {
        return Err(PainterError::InvalidArgument);
    }
    let ghost whole = layout_from(cs@, 0, glyph_width as int, wrap_limit);
    let mut steps: Vec<TextStep> = Vec::new();
    let mut offset: u64 = 0;
    let mut i: usize = 0;
    assert(cs@.subrange(0, cs.len() as int) =~= cs@);
    assert(steps@ + whole =~= whole);
    while i < cs.len()
        invariant
            cs.len() <= MAX_TEXT_CHARS,
            whole == layout_from(cs@, 0, glyph_width as int, wrap_limit),
            i <= cs.len(),
            offset <= 0xffff * i,
            steps@ + layout_from(cs@.subrange(i as int, cs.len() as int), offset as int, glyph_width as int, wrap_limit) == whole,
        decreases cs.len() - i,
    {
        let c = cs[i];
        let ghost rest = cs@.subrange(i as int, cs.len() as int);
        let ghost old_steps = steps@;
        let ghost old_offset = offset as int;
        assert(rest[0] == c);
        assert(rest.drop_first() =~= cs@.subrange(i + 1, cs.len() as int));
        if c.ch == '\n' {
            steps.push(TextStep::NewLine { back: offset });
            offset = 0;
            assert(steps@ + layout_from(rest.drop_first(), 0, glyph_width as int, wrap_limit)
                =~= old_steps + layout_from(rest, old_offset, glyph_width as int, wrap_limit));
        } else {
            let o = offset + c.advance as u64;
            steps.push(TextStep::Glyph { glyph: c.glyph, advance: c.advance });
            let wrap = match wrap_limit {
                Some(n) => {
                    proof {
                        let a = glyph_width as int;
                        let b = n as int;
                        assert(-0x1_0000_0000_0000_0000_0000_0000 <= a * b <= 0x1_0000_0000_0000_0000_0000_0000)
                            by (nonlinear_arith)
                            requires
                                -0x8000_0000 <= a <= 0x8000_0000,
                                0 <= b <= 0x1_0000_0000_0000_0000,
                        ;
                    }
                    c.ch == ' ' && (o as i128) > (glyph_width as i128) * (n as i128)
                },
                None => false,
            };
            if wrap {
                steps.push(TextStep::NewLine { back: o });
                offset = 0;
                assert(steps@ + layout_from(rest.drop_first(), 0, glyph_width as int, wrap_limit)
                    =~= old_steps + layout_from(rest, old_offset, glyph_width as int, wrap_limit));
            } else {
                offset = o;
                assert(steps@ + layout_from(rest.drop_first(), o as int, glyph_width as int, wrap_limit)
                    =~= old_steps + layout_from(rest, old_offset, glyph_width as int, wrap_limit));
            }
        }
        i = i + 1;
    }
    assert(cs@.subrange(cs.len() as int, cs.len() as int) =~= Seq::<TextChar>::empty());
    assert(steps@ =~= whole);
    Ok(steps)
}

/// The metrics read from a font's units per em, capital height and global bounding box
/// `(x_min, y_min, x_max, y_max)`.
pub open spec fn metrics_of(
    units_per_em: u16,
    capital_height: i16,
    bbox: (i16, i16, i16, i16),
) -> FontMetrics {
    FontMetrics {
        units_per_em,
        line_height: (bbox.1 + bbox.3 + capital_height) as i32,
        glyph_width: (bbox.0 + bbox.2) as i32,
    }
}

impl FontMetrics {
    /// Metrics from a font's units per em, capital height and global bounding box.
    pub fn from_parts(units_per_em: u16, capital_height: i16, bbox: (i16, i16, i16, i16)) -> (r:
        FontMetrics)
        ensures
            r == metrics_of(units_per_em, capital_height, bbox),
    {
        FontMetrics {
            units_per_em,
            line_height: bbox.1 as i32 + bbox.3 as i32 + capital_height as i32,
            glyph_width: bbox.0 as i32 + bbox.2 as i32,
        }
    }
}

/// A parsed font face; immutable after construction. `data` records the bytes that
/// `face` was parsed from: only `Font::new` makes a `Font`, and nothing changes one.
pub struct Font {
    face: owned_ttf_parser::OwnedFace,
    data: Ghost<Seq<u8>>,
}

/// The layout metrics of the face in `data`, or why there are none.
pub open spec fn font_metrics_of(data: Seq<u8>) -> Result<FontMetrics, PainterError> {
    match (units_per_em_of(data), capital_height_of(data)) {
        (Some(u), Some(c)) => Ok(metrics_of(u, c, global_bbox_of(data))),
        _ => Err(PainterError::MissingFontData),
    }
}

/// A character with its glyph and advance in the face in `data`; a newline gets
/// neither. `None` when the face has no glyph or no advance for it.
pub open spec fn char_info(data: Seq<u8>, ch: char) -> Option<TextChar> {
    if ch == '\n' {
        Some(TextChar { ch, glyph: 0, advance: 0 })
    } else {
        match glyph_index_of(data, ch) {
            Some(g) => match glyph_advance_of(data, g) {
                Some(a) => Some(TextChar { ch, glyph: g, advance: a }),
                None => None,
            },
            None => None,
        }
    }
}

/// The face in `data` has a glyph and an advance for every character of `text`.
pub open spec fn covers(data: Seq<u8>, text: Seq<char>) -> bool {
    forall|i: int| 0 <= i < text.len() ==> (#[trigger] char_info(data, text[i])) is Some
}

/// The characters of `text` with their glyphs and advances in the face in `data`.
pub open spec fn text_info(data: Seq<u8>, text: Seq<char>) -> Seq<TextChar> {
    text.map_values(|ch: char| char_info(data, ch)->0)
}

impl Font {
    /// The bytes the face was parsed from.
    pub closed spec fn data(&self) -> Seq<u8> {
        self.data@
    }

    /// Parses font data; `None` when the data is not a font face.
    pub fn new(data: &[u8]) -> (r: Option<Font>)
        ensures
            r is Some == face_parses(data@),
            r matches Some(f) ==> f.data() == data@,
    {
        match parse_face(data) {
            Some(face) => Some(Font { face, data: Ghost(data@) }),
            None => None,
        }
    }

    /// The parsed face, for outlining glyphs.
    pub fn face(&self) -> &owned_ttf_parser::OwnedFace {
        &self.face
    }

    /// The font's layout metrics; fails when the font has no valid units per em or no
    /// capital height.
    pub fn metrics(&self) -> (r: Result<FontMetrics, PainterError>)
        ensures
            r == font_metrics_of(self.data()),
            r matches Ok(m) ==> 16 <= m.units_per_em <= 16384,
    {
        let units_per_em = match face_units_per_em(self) {
            Some(u) => u,
            None => return Err(PainterError::MissingFontData),
        };
        let capital_height = match face_capital_height(self) {
            Some(c) => c,
            None => return Err(PainterError::MissingFontData),
        };
        let bbox = face_global_bbox(self);
        Ok(FontMetrics::from_parts(units_per_em, capital_height, bbox))
    }

    /// `ch` with its glyph and advance; a newline gets neither.
    fn lookup_char(&self, ch: char) -> (r: Option<TextChar>)
        ensures
            r == char_info(self.data(), ch),
    {
        if ch == '\n' {
            return Some(TextChar { ch, glyph: 0, advance: 0 });
        }
        match face_glyph_index(self, ch) {
            Some(glyph) => match face_glyph_hor_advance(self, glyph) {
                Some(advance) => Some(TextChar { ch, glyph, advance }),
                None => None,
            },
            None => None,
        }
    }

    /// Each character of `text` with its glyph and advance; a newline gets neither.
    /// Fails when the font has no glyph or no advance for a character.
    pub fn text_chars(&self, text: &Vec<char>) -> (r: Result<Vec<TextChar>, PainterError>)
        ensures
            covers(self.data(), text@) ==> (r matches Ok(cs) && cs@ == text_info(
                self.data(),
                text@,
            )),
            !covers(self.data(), text@) ==> r == Err::<Vec<TextChar>, PainterError>(
                PainterError::MissingFontData,
            ),
    {
        let mut cs: Vec<TextChar> = Vec::new();
        let mut i: usize = 0;
        while i < text.len()
            invariant
                i <= text.len(),
                cs@.len() == i,
                forall|j: int|
                    0 <= j < i ==> (#[trigger] char_info(self.data(), text@[j])) is Some && cs@[j]
                        == char_info(self.data(), text@[j])->0,
            decreases text.len() - i,
        {
            match self.lookup_char(text[i]) {
                Some(c) => cs.push(c),
                None => {
                    assert(char_info(self.data(), text@[i as int]) is None);
                    return Err(PainterError::MissingFontData);
                },
            }
            i = i + 1;
        }
        assert(cs@ =~= text_info(self.data(), text@));
        Ok(cs)
    }

    /// Lays `text` out in font units: its metrics and the steps to replay on a path
    /// builder. A wrap limit of zero is refused before anything else.
    pub fn layout_text(&self, text: &Vec<char>, wrap_limit: Option<usize>) -> (r: Result<
        (FontMetrics, Vec<TextStep>),
        PainterError,
    >)
        requires
            text.len() <= MAX_TEXT_CHARS,
        ensures
            match r {
                Ok((m, steps)) => text_layout_of(self.data(), text@, wrap_limit) == Ok::<
                    (FontMetrics, Seq<TextStep>),
                    PainterError,
                >((m, steps@)),
                Err(e) => text_layout_of(self.data(), text@, wrap_limit) == Err::<
                    (FontMetrics, Seq<TextStep>),
                    PainterError,
                >(e),
            },
    {
        if wrap_limit == Some(0usize) {
            return Err(PainterError::InvalidArgument);
        }
        let metrics = self.metrics()?;
        let cs = self.text_chars(text)?;
        let steps = layout_chars(&cs, metrics.glyph_width, wrap_limit)?;
        Ok((metrics, steps))
    }
}

/// The layout of `text` in the face in `data`: its metrics and steps, or why there
/// are none.
pub open spec fn text_layout_of(data: Seq<u8>, text: Seq<char>, wrap_limit: Option<usize>) -> Result<
    (FontMetrics, Seq<TextStep>),
    PainterError,
> {
    if wrap_limit == Some(0usize) {
        Err(PainterError::InvalidArgument)
    } else {
        match font_metrics_of(data) {
            Err(e) => Err(e),
            Ok(m) => if covers(data, text) {
                Ok((m, layout_from(text_info(data, text), 0, m.glyph_width as int, wrap_limit)))
            } else {
                Err(PainterError::MissingFontData)
            },
        }
    }
}

} // verus!
