use bufro::error::PainterError;
use bufro::geometry::{Color, LineCap, LineJoin, Path, PathInstruction, Point, StrokeOptions, UniqueGeometry};
use bufro::store::{GeometryBuffer, GeometryStore};

fn white() -> Color {
    Color::from_bits(1.0f32.to_bits(), 1.0f32.to_bits(), 1.0f32.to_bits(), 1.0f32.to_bits())
}

fn circle(r: f32) -> UniqueGeometry {
    UniqueGeometry::Circle(0.0f32.to_bits(), 0.0f32.to_bits(), r.to_bits(), white())
}

fn triangle() -> Path {
    let p = |x: f32, y: f32| Point::new(x.to_bits(), y.to_bits());
    Path::from_instructions(vec![
        PathInstruction::MoveTo(p(0.0, 0.0)),
        PathInstruction::LineTo(p(1.0, 0.0)),
        PathInstruction::LineTo(p(0.0, 1.0)),
        PathInstruction::Close,
    ])
}

#[test]
fn keys_compare_structurally() {
    assert!(circle(50.0).same_as(&circle(50.0)));
    assert!(!circle(50.0).same_as(&circle(60.0)));
    let red = Color::from_bits(1.0f32.to_bits(), 0, 0, 1.0f32.to_bits());
    let a = UniqueGeometry::Circle(0, 0, 50.0f32.to_bits(), red);
    assert!(!a.same_as(&circle(50.0)));
    let t1 = triangle();
    let t2 = triangle();
    assert!(UniqueGeometry::of_fill(&t1, white()).same_as(&UniqueGeometry::of_fill(&t2, white())));
    let opts = StrokeOptions::default();
    assert!(!UniqueGeometry::of_fill(&t1, white()).same_as(&UniqueGeometry::of_stroke(&t1, white(), opts)));
    let wide = opts.with_line_width(2.0f32.to_bits());
    assert!(!UniqueGeometry::of_stroke(&t1, white(), opts).same_as(&UniqueGeometry::of_stroke(&t1, white(), wide)));
}

#[test]
fn float_keys_are_bit_exact() {
    let pos = UniqueGeometry::Circle(0.0f32.to_bits(), 0, 1, white());
    let neg = UniqueGeometry::Circle((-0.0f32).to_bits(), 0, 1, white());
    assert!(!pos.same_as(&neg));
}

#[test]
fn stroke_option_defaults_and_builders() {
    let d = StrokeOptions::default();
    assert_eq!(d.start_cap, LineCap::Butt);
    assert_eq!(d.end_cap, LineCap::Butt);
    assert_eq!(d.line_join, LineJoin::Miter);
    assert_eq!(d.line_width, 1.0f32.to_bits());
    assert_eq!(d.miter_limit, 4.0f32.to_bits());
    let o = d.with_line_cap(LineCap::Round).with_end_cap(LineCap::Square).with_line_join(LineJoin::Bevel);
    assert_eq!(o.start_cap, LineCap::Round);
    assert_eq!(o.end_cap, LineCap::Square);
    assert_eq!(o.line_join, LineJoin::Bevel);
    assert_eq!(d.with_start_cap(LineCap::Round).start_cap, LineCap::Round);
}

#[test]
fn miter_limit_below_one_is_invalid() {
    let d = StrokeOptions::default();
    assert_eq!(d.with_miter_limit(0.5f32.to_bits()), Err(PainterError::InvalidArgument));
    assert_eq!(d.with_miter_limit((-2.0f32).to_bits()), Err(PainterError::InvalidArgument));
    assert_eq!(d.with_miter_limit(1.0f32.to_bits()).unwrap().miter_limit, 1.0f32.to_bits());
    assert_eq!(d.with_miter_limit(10.0f32.to_bits()).unwrap().miter_limit, 10.0f32.to_bits());
    assert!(d.with_miter_limit(f32::INFINITY.to_bits()).is_ok());
    assert!(d.with_miter_limit(f32::NAN.to_bits()).is_ok());
}

#[test]
fn malloc_creates_then_reuses_and_grows() {
    let mut s = GeometryStore::new();
    let u = s.malloc(circle(50.0), 10, 30);
    assert!(u.created);
    assert_eq!(u.buffer, 0);
    assert_eq!(s.lookup(&circle(50.0)), Some(0));
    assert_eq!(s.buffer(0), GeometryBuffer { vertices: 10, indices: 30, vertex_capacity: 10, index_capacity: 30 });
    s.free_unused(&Vec::new());
    assert_eq!(s.in_use_len(), 0);
    assert_eq!(s.free_len(), 1);
    assert_eq!(s.lookup(&circle(50.0)), None);
    let u = s.malloc(circle(60.0), 12, 20);
    assert!(!u.created);
    assert_eq!(u.buffer, 0);
    assert!(u.grow_vertex);
    assert!(!u.grow_index);
    assert_eq!(s.buffer(0), GeometryBuffer { vertices: 12, indices: 20, vertex_capacity: 12, index_capacity: 30 });
    assert_eq!(s.free_len(), 0);
    assert_eq!(s.buffer_count(), 1);
}

#[test]
fn free_unused_keeps_only_used_keys() {
    let mut s = GeometryStore::new();
    s.malloc(circle(1.0), 3, 4);
    s.malloc(circle(2.0), 3, 4);
    s.malloc(circle(3.0), 3, 4);
    s.free_unused(&vec![circle(2.0)]);
    assert_eq!(s.in_use_len(), 1);
    assert_eq!(s.free_len(), 2);
    assert_eq!(s.lookup(&circle(2.0)), Some(1));
    assert_eq!(s.lookup(&circle(1.0)), None);
    assert_eq!(s.lookup(&circle(3.0)), None);
    s.clear();
    assert_eq!(s.buffer_count(), 0);
    assert_eq!(s.free_len(), 0);
}
