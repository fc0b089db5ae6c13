use bufro::error::PainterError;
use bufro::geometry::{Color, UniqueGeometry};
use bufro::painter::{pad_indices, uniform_slot, Painter, UNIFORM_SLOT_SIZE};

type Mat = [f32; 16];
type Slot = [u32; 64];

fn identity() -> Mat {
    let mut m = [0.0f32; 16];
    m[0] = 1.0;
    m[5] = 1.0;
    m[10] = 1.0;
    m[15] = 1.0;
    m
}

fn translated(m: Mat, x: f32, y: f32) -> Mat {
    let mut r = m;
    r[12] += m[0] * x + m[4] * y;
    r[13] += m[1] * x + m[5] * y;
    r
}

fn white() -> Color {
    Color::from_bits(1.0f32.to_bits(), 1.0f32.to_bits(), 1.0f32.to_bits(), 1.0f32.to_bits())
}

fn red() -> Color {
    Color::from_bits(1.0f32.to_bits(), 0, 0, 1.0f32.to_bits())
}

fn rect(x: f32, y: f32, w: f32, h: f32, c: Color) -> UniqueGeometry {
    UniqueGeometry::Rectangle(x.to_bits(), y.to_bits(), w.to_bits(), h.to_bits(), c)
}

fn circle(r: f32) -> UniqueGeometry {
    UniqueGeometry::Circle(0.0f32.to_bits(), 0.0f32.to_bits(), r.to_bits(), white())
}

/// Draws `key` as a shape call does; a miss tessellates to `vertices` and `indices`.
fn draw(p: &mut Painter<Mat, Slot>, key: UniqueGeometry, vertices: usize, indices: usize) {
    let slot: Slot = [p.command_count() as u32; 64];
    if !p.issue_cached(key.duplicate(), slot) {
        let mut idx: Vec<u16> = vec![1; indices];
        p.issue_geometry(key, slot, vertices, &mut idx);
    }
}

#[test]
fn single_rectangle_frame() {
    let mut p: Painter<Mat, Slot> = Painter::new((500, 500), identity()).unwrap();
    assert_eq!(p.size(), (500, 500));
    draw(&mut p, rect(50.0, 50.0, 100.0, 100.0, red()), 4, 6);
    assert_eq!(p.command_count(), 1);
    assert_eq!(p.misses(), 1);
    let c = p.command(0);
    assert_eq!(c.uniform_slot, 0);
    assert_eq!(c.transform, identity());
    assert_eq!((c.indices * 2) % 4, 0);
    let plan = p.flush();
    assert_eq!(plan.draws.len(), 1);
    assert_eq!(plan.uniforms.len(), 1);
    assert_eq!(plan.draws[0].uniform_offset, 0);
    assert_eq!(plan.draws[0].indices, 6);
    assert_eq!(plan.draws[0].vertices, 4);
    assert!(plan.uniform_bytes >= UNIFORM_SLOT_SIZE);
    assert!(!plan.resized);
    assert_eq!(p.command_count(), 0);
    assert_eq!(p.store().in_use_len(), 1);
}

#[test]
fn restored_transform_gives_two_slots_one_entry() {
    let mut p: Painter<Mat, Slot> = Painter::new((500, 500), identity()).unwrap();
    p.save();
    p.set_transform(translated(p.transform(), 10.0, 0.0));
    draw(&mut p, rect(50.0, 50.0, 100.0, 100.0, red()), 4, 6);
    assert_eq!(p.restore(), Ok(()));
    draw(&mut p, rect(50.0, 50.0, 100.0, 100.0, red()), 4, 6);
    assert_eq!(p.command_count(), 2);
    let a = p.command(0);
    let b = p.command(1);
    assert_ne!(a.uniform_slot, b.uniform_slot);
    assert_ne!(a.transform, b.transform);
    assert_eq!(b.transform, identity());
    assert_eq!(a.buffer, b.buffer);
    assert_eq!(p.misses(), 1);
    assert_eq!(p.store().in_use_len(), 1);
    let plan = p.flush();
    assert_eq!(plan.draws[0].uniform_offset, 0);
    assert_eq!(plan.draws[1].uniform_offset, UNIFORM_SLOT_SIZE);
}

#[test]
fn repeated_circle_misses_only_first_frame() {
    let mut p: Painter<Mat, Slot> = Painter::new((500, 500), identity()).unwrap();
    draw(&mut p, circle(50.0), 40, 114);
    assert_eq!(p.misses(), 1);
    p.flush();
    draw(&mut p, circle(50.0), 40, 114);
    assert_eq!(p.misses(), 0);
    p.flush();
    assert_eq!(p.store().free_len(), 0);
    assert_eq!(p.store().in_use_len(), 1);
}

#[test]
fn changed_radius_frees_old_buffer() {
    let mut p: Painter<Mat, Slot> = Painter::new((500, 500), identity()).unwrap();
    draw(&mut p, circle(50.0), 40, 114);
    p.flush();
    draw(&mut p, circle(60.0), 48, 138);
    assert_eq!(p.misses(), 1);
    p.flush();
    assert_eq!(p.store().in_use_len(), 1);
    assert_eq!(p.store().lookup(&circle(60.0)), Some(1));
    assert_eq!(p.store().lookup(&circle(50.0)), None);
    assert_eq!(p.store().free_len(), 1);
    assert_eq!(p.store().buffer_count(), 2);
    draw(&mut p, circle(70.0), 8, 6);
    p.flush();
    assert_eq!(p.store().lookup(&circle(70.0)), Some(0));
    assert_eq!(p.store().free_len(), 1);
    let b = p.store().buffer(0);
    assert_eq!(b.vertices, 8);
    assert_eq!(b.indices, 6);
    assert_eq!(b.vertex_capacity, 40);
    assert_eq!(b.index_capacity, 114);
}

#[test]
fn flush_resets_frame_state() {
    let mut p: Painter<Mat, Slot> = Painter::new((500, 500), identity()).unwrap();
    p.save();
    p.save();
    p.set_transform(translated(identity(), 3.0, 3.0));
    draw(&mut p, circle(5.0), 4, 6);
    p.flush();
    assert_eq!(p.command_count(), 0);
    assert_eq!(p.saved_transforms(), 0);
    assert_eq!(p.transform(), identity());
    assert_eq!(p.misses(), 0);
}

#[test]
fn uniform_buffer_grows_to_hold_every_slot() {
    let mut p: Painter<Mat, Slot> = Painter::new((500, 500), identity()).unwrap();
    let cap = p.uniform_capacity();
    assert_eq!(cap, 112);
    for i in 0..200 {
        draw(&mut p, circle(i as f32), 4, 6);
    }
    let plan = p.flush();
    assert!(plan.resized);
    assert_eq!(plan.uniforms.len(), 200);
    assert!(p.uniform_capacity() >= 200);
    for (i, d) in plan.draws.iter().enumerate() {
        assert_eq!(d.uniform_offset, i * UNIFORM_SLOT_SIZE);
        assert!(d.uniform_offset + UNIFORM_SLOT_SIZE <= plan.uniform_bytes);
    }
}

#[test]
fn cache_round_trip_second_frame_no_tessellation() {
    let mut p: Painter<Mat, Slot> = Painter::new((500, 500), identity()).unwrap();
    draw(&mut p, rect(1.0, 2.0, 3.0, 4.0, white()), 4, 6);
    p.flush();
    assert!(p.store().lookup(&rect(1.0, 2.0, 3.0, 4.0, white())).is_some());
    draw(&mut p, rect(1.0, 2.0, 3.0, 4.0, white()), 4, 6);
    assert_eq!(p.misses(), 0);
    p.flush();
}

#[test]
fn index_padding_to_four_bytes() {
    let mut odd: Vec<u16> = vec![1, 2, 3];
    pad_indices(&mut odd);
    assert_eq!(odd, vec![1, 2, 3, 0]);
    let mut even: Vec<u16> = vec![1, 2];
    pad_indices(&mut even);
    assert_eq!(even, vec![1, 2]);
    let mut empty: Vec<u16> = Vec::new();
    pad_indices(&mut empty);
    assert!(empty.is_empty());
}

#[test]
fn painter_restore_without_save_underflows() {
    let mut p: Painter<Mat, Slot> = Painter::new((500, 500), identity()).unwrap();
    assert_eq!(p.restore(), Err(PainterError::TransformUnderflow));
}

#[test]
fn resize_ignores_zero_side() {
    let mut p: Painter<Mat, Slot> = Painter::new((500, 500), identity()).unwrap();
    assert!(!p.resize((0, 300)));
    assert_eq!(p.size(), (500, 500));
    assert!(p.resize((800, 600)));
    assert_eq!(p.size(), (800, 600));
    assert!(p.resize((800, 600)));
    assert_eq!(p.size(), (800, 600));
}

#[test]
fn clear_drops_everything() {
    let mut p: Painter<Mat, Slot> = Painter::new((500, 500), identity()).unwrap();
    p.save();
    draw(&mut p, circle(5.0), 4, 6);
    p.set_clear_color(white());
    p.clear();
    assert_eq!(p.command_count(), 0);
    assert_eq!(p.saved_transforms(), 0);
    assert_eq!(p.store().buffer_count(), 0);
    assert_eq!(p.clear_color(), white());
}

#[test]
fn uniform_record_must_fill_one_slot() {
    assert!(Painter::<Mat, [u8; 64]>::new((500, 500), identity()).is_none());
    assert!(Painter::<Mat, Slot>::new((500, 500), identity()).is_some());
}

#[test]
fn empty_tessellation_is_skipped() {
    let mut p: Painter<Mat, Slot> = Painter::new((500, 500), identity()).unwrap();
    let mut idx: Vec<u16> = Vec::new();
    assert!(p.issue_geometry(circle(0.0), [0; 64], 0, &mut idx).is_none());
    assert_eq!(p.command_count(), 0);
    assert_eq!(p.misses(), 0);
    assert_eq!(p.store().buffer_count(), 0);
}

#[test]
fn issued_indices_are_padded() {
    let mut p: Painter<Mat, Slot> = Painter::new((500, 500), identity()).unwrap();
    let mut idx: Vec<u16> = vec![0, 1, 2];
    let u = p.issue_geometry(circle(3.0), [0; 64], 3, &mut idx).unwrap();
    assert_eq!(idx, vec![0, 1, 2, 0]);
    assert!(u.created);
    assert_eq!(p.command(0).indices, 4);
    assert_eq!(p.store().buffer(u.buffer).indices, 4);
}

#[test]
fn store_pressure_counts_elements() {
    let mut p: Painter<Mat, Slot> = Painter::new((500, 500), identity()).unwrap();
    draw(&mut p, circle(1.0), 4, 6);
    draw(&mut p, circle(2.0), 10, 12);
    p.flush();
    draw(&mut p, circle(2.0), 10, 12);
    p.flush();
    assert_eq!(p.store().used_elements(), 22);
    assert_eq!(p.store().free_elements(), 10);
}

#[test]
fn uniform_slot_is_matrix_then_zeros() {
    let mut m = [0u8; 64];
    for (i, b) in m.iter_mut().enumerate() {
        *b = i as u8 + 1;
    }
    let s = uniform_slot(m);
    assert_eq!(&s[..64], &m[..]);
    assert!(s[64..].iter().all(|b| *b == 0));
    assert_eq!(s.len(), UNIFORM_SLOT_SIZE);
}

#[test]
fn fresh_frame_has_room() {
    let p: Painter<Mat, Slot> = Painter::new((500, 500), identity()).unwrap();
    assert_eq!(p.check_room(), Ok(()));
    assert_eq!(p.uniform_capacity(), 112);
}
