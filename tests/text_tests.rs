use bufro::error::{PainterError, SurfaceErrorKind};
use bufro::ffi::{BufroFlushResult, BufroLineCap, BufroLineJoin};
use bufro::geometry::{LineCap, LineJoin};
use bufro::text::{layout_chars, Font, FontMetrics, TextChar, TextStep};

fn chars(text: &str) -> Vec<TextChar> {
    text.chars()
        .map(|ch| if ch == '\n' { TextChar { ch, glyph: 0, advance: 0 } } else { TextChar { ch, glyph: ch as u16, advance: 100 } })
        .collect()
}

#[test]
fn wrap_limit_zero_is_invalid() {
    assert_eq!(layout_chars(&chars("hello"), 50, Some(0)), Err(PainterError::InvalidArgument));
}

#[test]
fn long_text_wraps_at_a_space() {
    let text = "the quick brown fox jumps over the lazy dog again and again";
    let steps = layout_chars(&chars(text), 50, Some(10)).unwrap();
    let cs: Vec<char> = text.chars().collect();
    let mut wrapped_at_space = false;
    let mut k = 0;
    for (i, s) in steps.iter().enumerate() {
        if let TextStep::NewLine { back } = s {
            if let TextStep::Glyph { glyph, .. } = steps[i - 1] {
                assert_eq!(glyph, ' ' as u16);
                assert!(*back > 500);
                wrapped_at_space = true;
            }
        } else {
            k += 1;
        }
    }
    assert_eq!(k, cs.len());
    assert!(wrapped_at_space);
}

#[test]
fn no_wrap_without_limit() {
    let steps = layout_chars(&chars("a b c d e f g h i j k l m n o"), 1, None).unwrap();
    assert!(steps.iter().all(|s| matches!(s, TextStep::Glyph { .. })));
}

#[test]
fn newline_moves_back_by_line_advance() {
    let steps = layout_chars(&chars("ab\nc"), 50, None).unwrap();
    assert_eq!(
        steps,
        vec![
            TextStep::Glyph { glyph: 'a' as u16, advance: 100 },
            TextStep::Glyph { glyph: 'b' as u16, advance: 100 },
            TextStep::NewLine { back: 200 },
            TextStep::Glyph { glyph: 'c' as u16, advance: 100 },
        ]
    );
}

#[test]
fn metrics_from_parts() {
    let m = FontMetrics::from_parts(1000, 700, (-50, -200, 950, 900));
    assert_eq!(m.units_per_em, 1000);
    assert_eq!(m.line_height, 1400);
    assert_eq!(m.glyph_width, 900);
}

#[test]
fn garbage_font_is_rejected() {
    assert!(Font::new(&[0u8, 1, 2, 3]).is_none());
    assert!(Font::new(&[]).is_none());
}

#[test]
fn flush_result_codes() {
    assert_eq!(BufroFlushResult::from_outcome(Ok(())), BufroFlushResult::BufroFlushResultOk);
    assert_eq!(
        BufroFlushResult::from_outcome(Err(PainterError::SurfaceAcquireFailed(SurfaceErrorKind::Lost))),
        BufroFlushResult::BufroFlushResultLost
    );
    assert_eq!(BufroFlushResult::from(SurfaceErrorKind::Timeout), BufroFlushResult::BufroFlushResultTimeout);
    assert_eq!(BufroFlushResult::from(SurfaceErrorKind::Outdated), BufroFlushResult::BufroFlushResultOutdated);
    assert_eq!(BufroFlushResult::from(SurfaceErrorKind::OutOfMemory), BufroFlushResult::BufroFlushResultOutOfMemory);
}

#[test]
fn ffi_enums_convert() {
    assert_eq!(BufroLineCap::BufroLineCapSquare.to_line_cap(), LineCap::Square);
    assert_eq!(BufroLineCap::BufroLineCapButt.to_line_cap(), LineCap::Butt);
    assert_eq!(BufroLineCap::BufroLineCapRound.to_line_cap(), LineCap::Round);
    assert_eq!(BufroLineJoin::BufroLineJoinMiterClip.to_line_join(), LineJoin::MiterClip);
    assert_eq!(BufroLineJoin::BufroLineJoinBevel.to_line_join(), LineJoin::Bevel);
}
