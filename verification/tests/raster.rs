use renderer3d::buffer::{ColorBuffer, Drawable};
use renderer3d::raster::{
    fill_plan, marker_corner, pixel_of, pixel_under, row_of, run_length, FillKind,
};
use renderer3d::vector::Scalar;

const WHITE: u32 = 0xFFFFFFFF;

fn scalar(value: f64) -> Scalar {
    Scalar::from_bits(value.to_bits())
}

fn stroke(buffer: &mut ColorBuffer, x0: f64, y0: f64, x1: f64, y1: f64, color: u32) {
    let dx = (x1 - x0) as isize;
    let dy = (y1 - y0) as isize;
    let steps = run_length(dx, dy);
    let inc_x = dx as f64 / steps as f64;
    let inc_y = dy as f64 / steps as f64;
    let mut cx = x0;
    let mut cy = y0;
    for _ in 0..=steps {
        buffer.draw_sample(scalar(cx), scalar(cy), color);
        cx += inc_x;
        cy += inc_y;
    }
}

fn scan(
    buffer: &mut ColorBuffer,
    rows: (f64, f64),
    starts: (f64, f64),
    slopes: (f64, f64),
    color: u32,
) {
    let (mut x1, mut x2) = starts;
    let (Some(first), Some(end)) = (row_of(scalar(rows.0)), row_of(scalar(rows.1))) else {
        return;
    };
    for y in first..end {
        stroke(buffer, x1, y as f64, x2, y as f64, color);
        x1 += slopes.0;
        x2 += slopes.1;
    }
}

fn flat_bottom(buffer: &mut ColorBuffer, a: (f64, f64), b: (f64, f64), c: (f64, f64), color: u32) {
    let slopes = ((b.0 - a.0) / (b.1 - a.1), (c.0 - a.0) / (c.1 - a.1));
    scan(buffer, (a.1, b.1), (a.0, a.0), slopes, color);
}

fn flat_top(buffer: &mut ColorBuffer, a: (f64, f64), b: (f64, f64), c: (f64, f64), color: u32) {
    let slopes = ((a.0 - c.0) / (a.1 - c.1), (b.0 - c.0) / (b.1 - c.1));
    scan(buffer, (a.1, c.1), (a.0, b.0), slopes, color);
}

fn fill(buffer: &mut ColorBuffer, corners: [(f64, f64); 3], color: u32) {
    let plan = fill_plan(scalar(corners[0].1), scalar(corners[1].1), scalar(corners[2].1));
    let a = corners[plan.top];
    let b = corners[plan.middle];
    let c = corners[plan.bottom];
    match plan.kind {
        FillKind::FlatBottom => flat_bottom(buffer, a, b, c, color),
        FillKind::FlatTop => flat_top(buffer, a, b, c, color),
        FillKind::Split => {
            let middle = (((c.0 - a.0) * (b.1 - a.1)) / (c.1 - a.1) + a.0, b.1);
            flat_bottom(buffer, a, b, middle, color);
            flat_top(buffer, b, middle, c, color);
        }
    }
}

fn painted(buffer: &ColorBuffer, width: usize, y: usize) -> Vec<usize> {
    (0..width)
        .filter(|x| {
            let at = (width * y + x) * 4;
            buffer.pixels()[at..at + 4] == WHITE.to_le_bytes()
        })
        .collect()
}

#[test]
fn line_of_no_length_writes_one_pixel() {
    let mut buffer = ColorBuffer::new(8, 8);
    stroke(&mut buffer, 3.0, 5.0, 3.0, 5.0, WHITE);
    for y in 0..8 {
        assert_eq!(painted(&buffer, 8, y), if y == 5 { vec![3] } else { vec![] });
    }
    stroke(&mut buffer, 2.4, 1.6, 2.9, 1.2, WHITE);
    assert_eq!(painted(&buffer, 8, 2), vec![2]);
    assert_eq!(buffer.pixels().chunks(4).filter(|pixel| pixel == &[0xFF; 4]).count(), 2);
}

#[test]
fn line_of_no_length_outside_the_buffer_writes_nothing() {
    let mut buffer = ColorBuffer::new(4, 4);
    stroke(&mut buffer, 9.0, 9.0, 9.0, 9.0, WHITE);
    assert!(buffer.pixels().iter().all(|byte| *byte == 0));
}

#[test]
fn line_of_no_length_left_of_the_buffer_writes_nothing() {
    let mut buffer = ColorBuffer::new(4, 4);
    stroke(&mut buffer, -2.0, 1.0, -2.0, 1.0, WHITE);
    assert_eq!(buffer.pixels(), &[0u8; 64][..]);
    stroke(&mut buffer, 1.0, -2.0, 1.0, -2.0, WHITE);
    stroke(&mut buffer, f64::NAN, 1.0, f64::NAN, 1.0, WHITE);
    assert_eq!(buffer.pixels(), &[0u8; 64][..]);
}

#[test]
fn line_that_leaves_the_buffer_is_cut_at_its_edge() {
    let mut buffer = ColorBuffer::new(4, 4);
    stroke(&mut buffer, -3.0, 2.0, 2.0, 2.0, WHITE);
    assert_eq!(painted(&buffer, 4, 2), vec![0, 1, 2]);
    for y in [0, 1, 3] {
        assert_eq!(painted(&buffer, 4, y), Vec::<usize>::new());
    }
    let mut down = ColorBuffer::new(4, 4);
    stroke(&mut down, 1.0, -2.0, 1.0, 5.0, WHITE);
    for y in 0..4 {
        assert_eq!(painted(&down, 4, y), vec![1]);
    }
}

#[test]
fn samples_are_stored_at_the_nearest_pixel_or_dropped() {
    let mut buffer = ColorBuffer::new(4, 4);
    buffer.draw_sample(scalar(2.5), scalar(0.4), WHITE);
    assert_eq!(painted(&buffer, 4, 0), vec![3]);
    buffer.draw_sample(scalar(-0.4), scalar(3.49), WHITE);
    assert_eq!(painted(&buffer, 4, 3), vec![0]);
    let before = buffer.pixels().to_vec();
    buffer.draw_sample(scalar(-0.5), scalar(1.0), WHITE);
    buffer.draw_sample(scalar(1.0), scalar(-0.5), WHITE);
    buffer.draw_sample(scalar(3.5), scalar(1.0), WHITE);
    buffer.draw_sample(scalar(1.0), scalar(f64::INFINITY), WHITE);
    buffer.draw_sample(scalar(f64::NAN), scalar(1.0), WHITE);
    assert_eq!(buffer.pixels(), &before[..]);
}

#[test]
fn triangle_with_a_corner_above_the_buffer_keeps_its_edges() {
    let mut buffer = ColorBuffer::new(8, 4);
    fill(&mut buffer, [(2.0, -2.0), (0.0, 2.0), (4.0, 2.0)], WHITE);
    assert_eq!(painted(&buffer, 8, 0), vec![1, 2, 3]);
    assert_eq!(painted(&buffer, 8, 1), vec![1, 2, 3, 4]);
    assert_eq!(painted(&buffer, 8, 2), Vec::<usize>::new());
}

#[test]
fn lines_take_one_sample_more_than_steps() {
    let mut buffer = ColorBuffer::new(8, 8);
    stroke(&mut buffer, 1.0, 1.0, 5.0, 3.0, WHITE);
    assert_eq!(painted(&buffer, 8, 1), vec![1]);
    assert_eq!(painted(&buffer, 8, 2), vec![2, 3]);
    assert_eq!(painted(&buffer, 8, 3), vec![4, 5]);
    let mut steep = ColorBuffer::new(8, 8);
    stroke(&mut steep, 6.0, 7.0, 6.0, 4.0, WHITE);
    for y in 0..8 {
        assert_eq!(painted(&steep, 8, y), if y >= 4 { vec![6] } else { vec![] });
    }
}

#[test]
fn flat_topped_triangle_is_filled_between_its_edges() {
    let mut buffer = ColorBuffer::new(8, 8);
    fill(&mut buffer, [(0.0, 0.0), (4.0, 0.0), (2.0, 4.0)], WHITE);
    assert_eq!(painted(&buffer, 8, 0), vec![0, 1, 2, 3, 4]);
    assert_eq!(painted(&buffer, 8, 1), vec![1, 2, 3, 4]);
    assert_eq!(painted(&buffer, 8, 2), vec![1, 2, 3]);
    assert_eq!(painted(&buffer, 8, 3), vec![2, 3]);
    for y in 4..8 {
        assert_eq!(painted(&buffer, 8, y), Vec::<usize>::new());
    }
}

#[test]
fn flat_bottomed_triangle_is_filled_from_its_top() {
    let mut buffer = ColorBuffer::new(8, 8);
    fill(&mut buffer, [(0.0, 4.0), (2.0, 0.0), (4.0, 4.0)], WHITE);
    assert_eq!(painted(&buffer, 8, 0), vec![2]);
    assert_eq!(painted(&buffer, 8, 1), vec![2, 3]);
    assert_eq!(painted(&buffer, 8, 2), vec![1, 2, 3]);
    assert_eq!(painted(&buffer, 8, 3), vec![1, 2, 3, 4]);
    assert_eq!(painted(&buffer, 8, 4), Vec::<usize>::new());
}

#[test]
fn general_triangle_is_filled_in_two_parts() {
    let mut buffer = ColorBuffer::new(8, 8);
    fill(&mut buffer, [(4.0, 6.0), (0.0, 0.0), (6.0, 2.0)], WHITE);
    assert_eq!(painted(&buffer, 8, 0), vec![0]);
    assert_eq!(painted(&buffer, 8, 1), vec![1, 2, 3]);
    assert!(!painted(&buffer, 8, 2).is_empty());
    assert!(!painted(&buffer, 8, 5).is_empty());
    assert_eq!(painted(&buffer, 8, 6), Vec::<usize>::new());
    assert_eq!(painted(&buffer, 8, 7), Vec::<usize>::new());
}

fn nearest(value: f64) -> Option<f64> {
    if value.is_finite() {
        Some(value.round())
    } else {
        None
    }
}

fn expected_pixel(value: f64) -> Option<usize> {
    let whole = nearest(value)?;
    if whole >= 0.0 && whole < 18446744073709551616.0 {
        Some(whole as usize)
    } else {
        None
    }
}

fn expected_row(value: f64) -> Option<isize> {
    let whole = nearest(value)?;
    if whole >= -9223372036854775808.0 && whole < 9223372036854775808.0 {
        Some(whole as isize)
    } else {
        None
    }
}

fn expected_under(value: f64) -> Option<usize> {
    if !value.is_finite() {
        return None;
    }
    let whole = value.trunc();
    if whole >= 0.0 && whole < 18446744073709551616.0 {
        Some(whole as usize)
    } else {
        None
    }
}

#[test]
fn coordinates_name_the_nearest_pixel() {
    assert_eq!(pixel_of(scalar(0.0)), Some(0));
    assert_eq!(pixel_of(scalar(0.49999999999999994)), Some(0));
    assert_eq!(pixel_of(scalar(0.5)), Some(1));
    assert_eq!(pixel_of(scalar(1.4)), Some(1));
    assert_eq!(pixel_of(scalar(1.5)), Some(2));
    assert_eq!(pixel_of(scalar(2.5)), Some(3));
    assert_eq!(pixel_of(scalar(799.5)), Some(800));
    assert_eq!(pixel_of(scalar(4503599627370495.5)), Some(4503599627370496));
    assert_eq!(pixel_of(scalar(9007199254740992.0)), Some(9007199254740992));
    assert_eq!(pixel_of(scalar(1.8446744073709550e19)), Some(18446744073709549568));
}

#[test]
fn coordinates_just_below_zero_name_pixel_zero() {
    for value in [-0.0, -5e-324, -0.25, -0.4, -0.49999999999999994] {
        assert_eq!(pixel_of(scalar(value)), Some(0), "{value}");
    }
}

#[test]
fn coordinates_that_round_below_zero_name_no_pixel() {
    for value in [-0.5, -0.6, -1.0, -2.0, -1e300, f64::MIN, f64::NEG_INFINITY] {
        assert_eq!(pixel_of(scalar(value)), None, "{value}");
    }
}

#[test]
fn coordinates_that_are_no_numbers_name_no_pixel() {
    assert_eq!(pixel_of(scalar(f64::NAN)), None);
    assert_eq!(pixel_of(scalar(-f64::NAN)), None);
    assert_eq!(row_of(scalar(f64::NAN)), None);
    assert_eq!(pixel_under(scalar(f64::NAN)), None);
}

#[test]
fn coordinates_beyond_the_last_index_name_no_pixel() {
    for value in [1.8446744073709552e19, 1e300, f64::MAX, f64::INFINITY] {
        assert_eq!(pixel_of(scalar(value)), None, "{value}");
        assert_eq!(row_of(scalar(value)), None, "{value}");
        assert_eq!(pixel_under(scalar(value)), None, "{value}");
    }
}

#[test]
fn scan_lines_may_lie_above_the_image() {
    assert_eq!(row_of(scalar(-0.4)), Some(0));
    assert_eq!(row_of(scalar(-0.5)), Some(-1));
    assert_eq!(row_of(scalar(-2.0)), Some(-2));
    assert_eq!(row_of(scalar(-2.5)), Some(-3));
    assert_eq!(row_of(scalar(3.5)), Some(4));
    assert_eq!(row_of(scalar(-9223372036854775808.0)), Some(isize::MIN));
    assert_eq!(row_of(scalar(-9223372036854777856.0)), None);
    assert_eq!(row_of(scalar(9223372036854775808.0)), None);
    assert_eq!(row_of(scalar(9223372036854774784.0)), Some(9223372036854774784));
}

#[test]
fn markers_start_where_the_fraction_is_cut_off() {
    assert_eq!(pixel_under(scalar(0.0)), Some(0));
    assert_eq!(pixel_under(scalar(0.99)), Some(0));
    assert_eq!(pixel_under(scalar(1.0)), Some(1));
    assert_eq!(pixel_under(scalar(7.9)), Some(7));
    assert_eq!(pixel_under(scalar(-0.9)), Some(0));
    assert_eq!(pixel_under(scalar(-1.0)), None);
    assert_eq!(pixel_under(scalar(-3.5)), None);
    assert_eq!(marker_corner(scalar(3.7), scalar(2.2)), Some((3, 2)));
    assert_eq!(marker_corner(scalar(-3.7), scalar(2.2)), None);
    assert_eq!(marker_corner(scalar(3.7), scalar(f64::NAN)), None);
    assert_eq!(marker_corner(scalar(3.7), scalar(-1.0)), None);
}

#[test]
fn rounding_agrees_with_the_numbers() {
    let mut bits: u64 = 0x9E37_79B9_7F4A_7C15;
    for round in 0..200_000u64 {
        bits ^= bits << 13;
        bits ^= bits >> 7;
        bits ^= bits << 17;
        let small = (bits % 4_000_000) as f64 / 1000.0 - 2000.0;
        let half = (round as f64) - 100_000.0 + 0.5;
        let edge = f64::from_bits((bits & (1 << 63)) | (1023 + round % 80) << 52 | bits >> 12);
        let tiny = f64::from_bits((bits & (1 << 63)) | (1000 + round % 30) << 52 | bits >> 12);
        for value in [f64::from_bits(bits), small, half, edge, tiny] {
            assert_eq!(pixel_of(scalar(value)), expected_pixel(value), "{value:e}");
            assert_eq!(row_of(scalar(value)), expected_row(value), "{value:e}");
            assert_eq!(pixel_under(scalar(value)), expected_under(value), "{value:e}");
        }
    }
}
