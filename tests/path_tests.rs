use bufro::geometry::{PathInstruction, Point};
use bufro::path::PathBuilder;

fn pt(x: f32, y: f32) -> Point {
    Point::new(x.to_bits(), y.to_bits())
}

#[test]
fn move_to_closes_open_subpath() {
    let mut b = PathBuilder::new(0u8);
    b.move_to(pt(0.0, 0.0));
    b.line_to(pt(1.0, 0.0));
    b.move_to(pt(5.0, 5.0));
    let p = b.build();
    assert_eq!(
        p.instructions().clone(),
        vec![
            PathInstruction::MoveTo(pt(0.0, 0.0)),
            PathInstruction::LineTo(pt(1.0, 0.0)),
            PathInstruction::Close,
            PathInstruction::MoveTo(pt(5.0, 5.0)),
        ]
    );
}

#[test]
fn move_after_close_adds_no_close() {
    let mut b = PathBuilder::new(0u8);
    b.move_to(pt(0.0, 0.0));
    b.quad_to(pt(1.0, 1.0), pt(2.0, 0.0));
    b.close();
    b.move_to(pt(3.0, 3.0));
    b.curve_to(pt(4.0, 4.0), pt(5.0, 4.0), pt(6.0, 3.0));
    let p = b.build();
    assert_eq!(
        p.instructions().clone(),
        vec![
            PathInstruction::MoveTo(pt(0.0, 0.0)),
            PathInstruction::QuadTo(pt(1.0, 1.0), pt(2.0, 0.0)),
            PathInstruction::Close,
            PathInstruction::MoveTo(pt(3.0, 3.0)),
            PathInstruction::CurveTo(pt(4.0, 4.0), pt(5.0, 4.0), pt(6.0, 3.0)),
        ]
    );
}

#[test]
fn path_round_trip_through_fresh_builder() {
    let mut b = PathBuilder::new(0u8);
    b.move_to(pt(0.0, 0.0));
    b.line_to(pt(10.0, 0.0));
    b.line_to(pt(10.0, 10.0));
    b.move_to(pt(20.0, 20.0));
    b.line_to(pt(30.0, 20.0));
    b.close();
    let p = b.build();
    let mut again = PathBuilder::new(0u8);
    for ins in p.instructions().iter() {
        again.record(*ins);
    }
    let q = again.build();
    assert_eq!(p.instructions().clone(), q.instructions().clone());
}

#[test]
fn builder_transform_stack_underflows() {
    let mut b = PathBuilder::new(1u8);
    assert!(b.restore().is_err());
    b.save();
    b.set_transform(7u8);
    assert_eq!(b.current_transform(), 7u8);
    assert!(b.restore().is_ok());
    assert_eq!(b.current_transform(), 1u8);
    b.set_transform(9u8);
    b.reset();
    assert_eq!(b.current_transform(), 1u8);
}

#[test]
fn move_after_bare_move_adds_no_close() {
    let mut b = PathBuilder::new(0u8);
    b.move_to(pt(0.0, 0.0));
    b.move_to(pt(5.0, 5.0));
    b.line_to(pt(6.0, 5.0));
    b.close();
    b.close();
    b.move_to(pt(7.0, 7.0));
    let p = b.build();
    assert_eq!(
        p.instructions().clone(),
        vec![
            PathInstruction::MoveTo(pt(0.0, 0.0)),
            PathInstruction::MoveTo(pt(5.0, 5.0)),
            PathInstruction::LineTo(pt(6.0, 5.0)),
            PathInstruction::Close,
            PathInstruction::Close,
            PathInstruction::MoveTo(pt(7.0, 7.0)),
        ]
    );
}
