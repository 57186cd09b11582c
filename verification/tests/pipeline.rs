use renderer3d::lighting::{Channels, GlobalLight};
use renderer3d::pipeline::{depth_order, faces_viewer, perspective_divides, survives_culling};
use renderer3d::raster::{fill_plan, run_length, FillKind, FillPlan};
use renderer3d::vector::{Scalar, Vec3};

fn scalar(value: f64) -> Scalar {
    Scalar::from_bits(value.to_bits())
}

fn scalars(values: &[f64]) -> Vec<Scalar> {
    values.iter().map(|value| scalar(*value)).collect()
}

#[test]
fn depths_five_one_nine_are_drawn_nine_five_one() {
    let depths = [5.0, 1.0, 9.0];
    let order = depth_order(&scalars(&depths));
    assert_eq!(order, vec![2, 0, 1]);
    let drawn: Vec<f64> = order.iter().map(|place| depths[*place]).collect();
    assert_eq!(drawn, vec![9.0, 5.0, 1.0]);
}

#[test]
fn equal_depths_keep_their_order() {
    let order = depth_order(&scalars(&[2.0, 7.0, 2.0, 7.0, 2.0]));
    assert_eq!(order, vec![1, 3, 0, 2, 4]);
}

#[test]
fn depth_order_of_nothing_is_empty() {
    assert_eq!(depth_order(&Vec::new()), Vec::<usize>::new());
    assert_eq!(depth_order(&scalars(&[3.0])), vec![0]);
}

#[test]
fn depth_order_agrees_with_a_stable_sort_by_total_cmp() {
    let depths = [
        0.5,
        -0.0,
        f64::INFINITY,
        0.0,
        -3.0,
        f64::NAN,
        1e300,
        -f64::NAN,
        f64::NEG_INFINITY,
        0.5,
        -0.0,
    ];
    let mut expected: Vec<usize> = (0..depths.len()).collect();
    expected.sort_by(|a, b| depths[*b].total_cmp(&depths[*a]));
    assert_eq!(depth_order(&scalars(&depths)), expected);
}

#[test]
fn culling_drops_only_what_faces_away() {
    assert!(survives_culling(false, false));
    assert!(survives_culling(false, true));
    assert!(survives_culling(true, true));
    assert!(!survives_culling(true, false));
}

#[test]
fn points_are_divided_unless_w_is_zero() {
    assert!(perspective_divides(scalar(1.0)));
    assert!(perspective_divides(scalar(-2.5)));
    assert!(perspective_divides(scalar(f64::NAN)));
    assert!(!perspective_divides(scalar(0.0)));
    assert!(!perspective_divides(scalar(-0.0)));
}

#[test]
fn line_of_no_length_has_no_steps() {
    assert_eq!(run_length(0, 0), 0);
}

#[test]
fn run_length_is_the_greater_distance() {
    assert_eq!(run_length(4, 0), 4);
    assert_eq!(run_length(-4, 3), 4);
    assert_eq!(run_length(2, -7), 7);
    assert_eq!(run_length(-5, -5), 5);
    assert_eq!(run_length(isize::MIN, 1), 1 << (usize::BITS - 1));
    assert_eq!(run_length(1, isize::MAX), isize::MAX as usize);
}

#[test]
fn flat_topped_triangle_is_planned_as_given() {
    let plan = fill_plan(scalar(0.0), scalar(0.0), scalar(4.0));
    assert_eq!(plan, FillPlan { top: 0, middle: 1, bottom: 2, kind: FillKind::FlatTop });
}

#[test]
fn flat_bottomed_triangle_is_sorted_from_its_top() {
    let plan = fill_plan(scalar(6.0), scalar(2.0), scalar(6.0));
    assert_eq!(plan, FillPlan { top: 1, middle: 0, bottom: 2, kind: FillKind::FlatBottom });
}

#[test]
fn general_triangle_is_split() {
    let plan = fill_plan(scalar(9.5), scalar(-1.0), scalar(3.0));
    assert_eq!(plan, FillPlan { top: 1, middle: 2, bottom: 0, kind: FillKind::Split });
    let plan = fill_plan(scalar(3.0), scalar(2.0), scalar(1.0));
    assert_eq!(plan, FillPlan { top: 2, middle: 1, bottom: 0, kind: FillKind::Split });
}

#[test]
fn triangle_on_one_row_counts_as_flat_bottomed() {
    let plan = fill_plan(scalar(0.0), scalar(-0.0), scalar(0.0));
    assert_eq!(plan, FillPlan { top: 0, middle: 1, bottom: 2, kind: FillKind::FlatBottom });
}

#[test]
fn fill_plan_agrees_with_a_stable_sort() {
    let rows = [-2.0, -0.0, 0.0, 1.5, f64::INFINITY];
    for a in rows {
        for b in rows {
            for c in rows {
                let ys = [a, b, c];
                let mut order = vec![0usize, 1, 2];
                order.sort_by(|i, j| ys[*i].partial_cmp(&ys[*j]).unwrap());
                let kind = if ys[order[1]] == ys[order[2]] {
                    FillKind::FlatBottom
                } else if ys[order[0]] == ys[order[1]] {
                    FillKind::FlatTop
                } else {
                    FillKind::Split
                };
                let plan = fill_plan(scalar(a), scalar(b), scalar(c));
                assert_eq!((plan.top, plan.middle, plan.bottom), (order[0], order[1], order[2]));
                assert_eq!(plan.kind, kind);
            }
        }
    }
}

#[test]
fn light_is_held_with_y_and_z_negated() {
    let light = GlobalLight::new(Vec3(scalar(0.25), scalar(-1.0), scalar(0.5)));
    let held = light.direction();
    assert_eq!(f64::from_bits(held.0.bits), 0.25);
    assert_eq!(f64::from_bits(held.1.bits), 1.0);
    assert_eq!(f64::from_bits(held.2.bits), -0.5);
    let zero = GlobalLight::new(Vec3::zero()).direction();
    assert_eq!(zero.0.bits, 0.0f64.to_bits());
    assert_eq!(zero.1.bits, (-0.0f64).to_bits());
}

#[test]
fn channels_stay_at_their_places() {
    let channels = GlobalLight::channels(0xAABBCCDD);
    assert_eq!(
        channels,
        Channels { alpha: 0xAA000000, red: 0x00BB0000, green: 0x0000CC00, blue: 0x000000DD }
    );
}

#[test]
fn lit_color_keeps_alpha_and_takes_the_scaled_channels() {
    let light = GlobalLight::new(Vec3::zero());
    let base = 0x80FF8040;
    let half = |channel: u32| (channel as f64 * 0.5) as u32;
    let channels = GlobalLight::channels(base);
    let scaled = Channels {
        alpha: channels.alpha,
        red: half(channels.red),
        green: half(channels.green),
        blue: half(channels.blue),
    };
    assert_eq!(light.lit_color(base, scaled), 0x807F4020);
    assert_eq!(light.lit_color(base, channels), base);
    let dark = Channels { alpha: 0, red: 0, green: 0, blue: 0 };
    assert_eq!(light.lit_color(base, dark), 0x80000000);
}

#[test]
fn lit_color_cuts_what_runs_over_a_channel() {
    let light = GlobalLight::new(Vec3::zero());
    let scaled = Channels { alpha: 0x12345678, red: 0x017F8000, green: 0x00FF7F80, blue: 0xFFFF };
    assert_eq!(light.lit_color(0xFF000000, scaled), 0xFF7F7FFF);
}

#[test]
fn face_that_looks_into_the_light_is_fully_lit() {
    let light = GlobalLight::new(Vec3(scalar(0.0), scalar(0.0), scalar(1.0)));
    assert_eq!(f64::from_bits(light.light_factor_of(scalar(-1.0)).bits), 1.0);
    assert_eq!(f64::from_bits(light.light_factor_of(scalar(-0.25)).bits), 0.25);
}

#[test]
fn face_that_looks_away_from_the_light_is_dark() {
    let light = GlobalLight::new(Vec3(scalar(0.0), scalar(0.0), scalar(1.0)));
    for dot in [1.0, 0.25, 0.0, -0.0, f64::INFINITY, f64::NAN] {
        let factor = f64::from_bits(light.light_factor_of(scalar(dot)).bits);
        assert_eq!(factor, 0.0);
        if dot != 0.0 {
            assert_eq!(factor.to_bits(), (f64::min(0.0, dot) * -1.0).to_bits());
        }
    }
    for dot in [-1.0, -0.5, -5e-324, f64::NEG_INFINITY] {
        let factor = light.light_factor_of(scalar(dot)).bits;
        assert_eq!(factor, (f64::min(0.0, dot) * -1.0).to_bits());
    }
}

#[test]
fn triangle_faces_the_viewer_where_the_product_is_zero_or_above() {
    assert!(faces_viewer(false, scalar(1.0)));
    assert!(faces_viewer(false, scalar(0.5)));
    assert!(faces_viewer(false, scalar(0.0)));
    assert!(faces_viewer(false, scalar(-0.0)));
    assert!(faces_viewer(false, scalar(f64::INFINITY)));
    for dot in [-1.0, -0.5, 0.0, 5e-324, 1.0, f64::NEG_INFINITY, f64::NAN] {
        assert_eq!(faces_viewer(false, scalar(dot)), dot >= 0.0, "{dot}");
    }
}

#[test]
fn triangle_faces_away_where_the_product_is_below_zero_or_no_number() {
    assert!(!faces_viewer(false, scalar(-1.0)));
    assert!(!faces_viewer(false, scalar(-5e-324)));
    assert!(!faces_viewer(false, scalar(f64::NEG_INFINITY)));
    assert!(!faces_viewer(false, scalar(f64::NAN)));
    assert!(!faces_viewer(false, scalar(-f64::NAN)));
}

#[test]
fn degenerate_triangle_counts_as_facing_the_viewer() {
    assert!(faces_viewer(true, scalar(1.0)));
    assert!(faces_viewer(true, scalar(0.0)));
    assert!(faces_viewer(true, scalar(-1.0)));
    assert!(faces_viewer(true, scalar(f64::NAN)));
}

#[test]
fn degenerate_face_is_not_lit() {
    let light = GlobalLight::new(Vec3(scalar(0.0), scalar(0.0), scalar(1.0)));
    assert_eq!(light.light_factor_for(true, scalar(-1.0)).bits, 0);
    assert_eq!(light.light_factor_for(true, scalar(f64::NAN)).bits, 0);
    assert_eq!(f64::from_bits(light.light_factor_for(false, scalar(-1.0)).bits), 1.0);
    assert_eq!(f64::from_bits(light.light_factor_for(false, scalar(-0.25)).bits), 0.25);
    assert_eq!(f64::from_bits(light.light_factor_for(false, scalar(1.0)).bits), 0.0);
}
