use axis_measure::{AxisMeasure, FixedAxisMeasure, LogIdx, Remap, RemapDetails, StoredAxisMeasure, VisIdx};
use float_ord::FloatOrd;
use std::collections::HashSet;
use std::fmt::Debug;

fn test_equal_sized<AX: AxisMeasure + Debug>(ax: &mut AX) {
    ax.set_axis_properties(1, 4, &Remap::Pristine);
    println!("Axis:{:#?}", ax);
    assert_eq!(ax.total_pixel_length(), 400);
    assert_eq!(ax.vis_from_pixel(350), Some(VisIdx(3)));
    assert_eq!(ax.first_pixel_from_vis(VisIdx(0)), Some(0));
    assert_eq!(ax.vis_from_pixel(0), Some(VisIdx(0)));
    assert_eq!(ax.vis_from_pixel(100), Some(VisIdx(1)));
    assert_eq!(ax.vis_from_pixel(1), Some(VisIdx(0)));
    assert_eq!(ax.first_pixel_from_vis(VisIdx(1)), Some(100));

    assert_eq!(
        (199..=201)
            .into_iter()
            .map(|n| ax.vis_from_pixel(n).unwrap())
            .collect::<Vec<VisIdx>>(),
        vec![VisIdx(1), VisIdx(2), VisIdx(2)]
    );

    assert_eq!(ax.vis_range_from_pixels(105, 295), (VisIdx(1), VisIdx(2)));
    assert_eq!(ax.vis_range_from_pixels(100, 300), (VisIdx(1), VisIdx(3)));
    let lengths = (1usize..=3)
        .into_iter()
        .map(|i| FloatOrd(ax.pixels_length_for_vis(VisIdx(i)).unwrap() as f64))
        .collect::<HashSet<FloatOrd<f64>>>();

    assert_eq!(lengths.len(), 1);
    assert_eq!(lengths.iter().next().unwrap().0, 99.0)
}

fn selected(mapping: &[usize]) -> Remap {
    Remap::Selected(RemapDetails::Full(mapping.iter().map(|i| LogIdx(*i)).collect()))
}

fn stored_with(lengths: &[u32], border: u32) -> StoredAxisMeasure {
    let mut ax = StoredAxisMeasure::new(0);
    ax.set_axis_properties(border, lengths.len(), &Remap::Pristine);
    for (i, length) in lengths.iter().enumerate() {
        assert_eq!(ax.set_pixel_length_for_vis(VisIdx(i), *length), *length);
    }
    ax
}

#[test]
fn fixed_axis() {
    let mut ax = FixedAxisMeasure::new(99);

    test_equal_sized(&mut ax);
    assert_eq!(ax.set_far_pixel_for_vis(VisIdx(12), 34), 99);
}

#[test]
fn stored_axis() {
    let mut ax = StoredAxisMeasure::new(99);
    test_equal_sized(&mut ax);

    assert_eq!(ax.set_pixel_length_for_vis(VisIdx(2), 49), 49);
    assert_eq!(ax.set_far_pixel_for_vis(VisIdx(1), 109), 9);
    assert_eq!(ax.total_pixel_length(), 260)
}

#[test]
fn fixed_round_trip_for_every_item() {
    let mut ax = FixedAxisMeasure::new(17);
    ax.set_axis_properties(3, 50, &Remap::Pristine);
    for i in 0..50usize {
        let first = ax.first_pixel_from_vis(VisIdx(i)).unwrap();
        assert_eq!(first, (i as i128) * 20);
        assert_eq!(ax.vis_from_pixel(first), Some(VisIdx(i)));
        assert_eq!(ax.vis_from_pixel(first + 19), Some(VisIdx(i)));
    }
    assert_eq!(ax.first_pixel_from_vis(VisIdx(50)), None);
}

#[test]
fn fixed_total_is_count_times_stride() {
    let mut ax = FixedAxisMeasure::new(99);
    assert_eq!(ax.total_pixel_length(), 0);
    assert_eq!(ax.border(), 0);
    ax.set_axis_properties(1, 4, &Remap::Pristine);
    assert_eq!(ax.border(), 1);
    assert_eq!(ax.total_pixel_length(), 4 * (99 + 1));
    ax.set_axis_properties(7, 1000, &Remap::Pristine);
    assert_eq!(ax.total_pixel_length(), 1000 * (99 + 7));
}

#[test]
fn fixed_total_of_the_largest_axis() {
    let mut ax = FixedAxisMeasure::new(u32::MAX);
    ax.set_axis_properties(u32::MAX, usize::MAX, &Remap::Pristine);
    let stride = 2 * (u32::MAX as i128);
    assert_eq!(ax.total_pixel_length(), (usize::MAX as i128) * stride);
    assert_eq!(
        ax.first_pixel_from_vis(VisIdx(usize::MAX - 1)),
        Some((usize::MAX as i128 - 1) * stride)
    );
    assert_eq!(
        ax.vis_from_pixel((usize::MAX as i128) * stride - 1),
        Some(VisIdx(usize::MAX - 1))
    );
    assert_eq!(ax.vis_from_pixel((usize::MAX as i128) * stride), None);
}

#[test]
fn fixed_finds_nothing_outside_the_axis() {
    let mut ax = FixedAxisMeasure::new(99);
    assert_eq!(ax.vis_from_pixel(0), None);
    ax.set_axis_properties(1, 4, &Remap::Pristine);
    assert_eq!(ax.vis_from_pixel(-1), None);
    assert_eq!(ax.vis_from_pixel(i128::MIN), None);
    assert_eq!(ax.vis_from_pixel(399), Some(VisIdx(3)));
    assert_eq!(ax.vis_from_pixel(400), None);
    assert_eq!(ax.vis_from_pixel(i128::MAX), None);
    assert_eq!(ax.pixels_length_for_vis(VisIdx(3)), Some(99));
    assert_eq!(ax.pixels_length_for_vis(VisIdx(4)), None);
    assert_eq!(ax.first_pixel_from_vis(VisIdx(4)), None);
}

#[test]
fn fixed_range_clamps_to_first_and_last() {
    let mut ax = FixedAxisMeasure::new(99);
    ax.set_axis_properties(1, 4, &Remap::Pristine);
    assert_eq!(ax.vis_range_from_pixels(-50, 150), (VisIdx(0), VisIdx(1)));
    assert_eq!(ax.vis_range_from_pixels(150, 5000), (VisIdx(1), VisIdx(3)));
    assert_eq!(ax.vis_range_from_pixels(-50, 5000), (VisIdx(0), VisIdx(3)));
    assert_eq!(ax.vis_range_from_pixels(5000, -50), (VisIdx(0), VisIdx(3)));
}

#[test]
fn fixed_resize_changes_nothing() {
    let mut ax = FixedAxisMeasure::new(99);
    ax.set_axis_properties(1, 4, &Remap::Pristine);
    assert_eq!(ax.set_pixel_length_for_vis(VisIdx(2), 49), 99);
    assert_eq!(ax.set_pixel_length_for_vis(VisIdx(40), 0), 99);
    assert_eq!(ax.set_far_pixel_for_vis(VisIdx(1), 109), 99);
    assert_eq!(ax.set_far_pixel_for_vis(VisIdx(1), -109), 99);
    assert_eq!(ax.total_pixel_length(), 400);
    assert_eq!(ax.pixels_length_for_vis(VisIdx(2)), Some(99));
    assert_eq!(ax.first_pixel_from_vis(VisIdx(2)), Some(200));
    for i in 0..6usize {
        assert!(!ax.can_resize(VisIdx(i)));
    }
}

#[test]
fn fixed_ignores_the_remap() {
    let mut ax = FixedAxisMeasure::new(10);
    ax.set_axis_properties(0, 5, &selected(&[4, 0]));
    assert_eq!(ax.total_pixel_length(), 50);
    assert_eq!(ax.vis_from_pixel(49), Some(VisIdx(4)));
}

#[test]
fn fixed_with_zero_stride() {
    let mut ax = FixedAxisMeasure::new(0);
    ax.set_axis_properties(0, 3, &Remap::Pristine);
    assert_eq!(ax.total_pixel_length(), 0);
    assert_eq!(ax.vis_from_pixel(0), Some(VisIdx(0)));
    assert_eq!(ax.vis_from_pixel(1), None);
    assert_eq!(ax.vis_from_pixel(-1), None);
    assert_eq!(ax.first_pixel_from_vis(VisIdx(2)), Some(0));
    ax.set_axis_properties(0, 0, &Remap::Pristine);
    assert_eq!(ax.vis_from_pixel(0), None);
}

#[test]
fn fixed_copy_is_independent() {
    let mut ax = FixedAxisMeasure::new(99);
    ax.set_axis_properties(1, 4, &Remap::Pristine);
    let copy = ax.clone();
    ax.set_axis_properties(1, 2, &Remap::Pristine);
    assert_eq!(copy.total_pixel_length(), 400);
    assert_eq!(ax.total_pixel_length(), 200);
}

#[test]
fn stored_starts_empty() {
    let ax = StoredAxisMeasure::new(99);
    assert_eq!(ax.border(), 0);
    assert_eq!(ax.total_pixel_length(), 0);
    assert_eq!(ax.vis_from_pixel(0), None);
    assert_eq!(ax.first_pixel_from_vis(VisIdx(0)), None);
    assert_eq!(ax.pixels_length_for_vis(VisIdx(0)), None);
    assert_eq!(ax.pixel_near_border(0), None);
}

#[test]
fn stored_total_is_sum_of_extents_and_borders() {
    let ax = stored_with(&[10, 0, 25, 7], 3);
    assert_eq!(ax.total_pixel_length(), (10 + 3) + (0 + 3) + (25 + 3) + (7 + 3));
    assert_eq!(ax.first_pixel_from_vis(VisIdx(0)), Some(0));
    assert_eq!(ax.first_pixel_from_vis(VisIdx(1)), Some(13));
    assert_eq!(ax.first_pixel_from_vis(VisIdx(2)), Some(16));
    assert_eq!(ax.first_pixel_from_vis(VisIdx(3)), Some(44));
    assert_eq!(ax.first_pixel_from_vis(VisIdx(4)), None);
}

#[test]
fn stored_finds_the_last_start_at_or_before() {
    let ax = stored_with(&[10, 0, 25, 7], 3);
    assert_eq!(ax.vis_from_pixel(-1), None);
    assert_eq!(ax.vis_from_pixel(0), Some(VisIdx(0)));
    assert_eq!(ax.vis_from_pixel(12), Some(VisIdx(0)));
    assert_eq!(ax.vis_from_pixel(13), Some(VisIdx(1)));
    assert_eq!(ax.vis_from_pixel(15), Some(VisIdx(1)));
    assert_eq!(ax.vis_from_pixel(16), Some(VisIdx(2)));
    assert_eq!(ax.vis_from_pixel(43), Some(VisIdx(2)));
    assert_eq!(ax.vis_from_pixel(44), Some(VisIdx(3)));
    assert_eq!(ax.vis_from_pixel(53), Some(VisIdx(3)));
}

#[test]
fn stored_answers_past_the_end_with_the_last_item() {
    let ax = stored_with(&[10, 0, 25, 7], 3);
    assert_eq!(ax.total_pixel_length(), 54);
    assert_eq!(ax.vis_from_pixel(54), Some(VisIdx(3)));
    assert_eq!(ax.vis_from_pixel(i128::MAX), Some(VisIdx(3)));
    assert_eq!(ax.vis_range_from_pixels(-20, 1000), (VisIdx(0), VisIdx(3)));
}

#[test]
fn stored_items_with_the_same_start() {
    let ax = stored_with(&[0, 0, 5, 0, 0], 0);
    assert_eq!(ax.first_pixel_from_vis(VisIdx(0)), Some(0));
    assert_eq!(ax.first_pixel_from_vis(VisIdx(1)), Some(0));
    assert_eq!(ax.first_pixel_from_vis(VisIdx(2)), Some(0));
    assert_eq!(ax.first_pixel_from_vis(VisIdx(3)), Some(5));
    assert_eq!(ax.first_pixel_from_vis(VisIdx(4)), Some(5));
    assert_eq!(ax.vis_from_pixel(0), Some(VisIdx(2)));
    assert_eq!(ax.vis_from_pixel(4), Some(VisIdx(2)));
    assert_eq!(ax.vis_from_pixel(5), Some(VisIdx(4)));
    assert_eq!(ax.total_pixel_length(), 5);
}

#[test]
fn stored_lookup_on_a_long_axis() {
    let lengths: Vec<u32> = (0..1000u32).map(|i| i % 7).collect();
    let ax = stored_with(&lengths, 1);
    let mut start: i128 = 0;
    for (i, length) in lengths.iter().enumerate() {
        assert_eq!(ax.first_pixel_from_vis(VisIdx(i)), Some(start));
        assert_eq!(ax.vis_from_pixel(start), Some(VisIdx(i)));
        assert_eq!(ax.vis_from_pixel(start + *length as i128), Some(VisIdx(i)));
        start += *length as i128 + 1;
    }
    assert_eq!(ax.total_pixel_length(), start);
}

#[test]
fn stored_resize_is_read_back() {
    let mut ax = StoredAxisMeasure::new(99);
    ax.set_axis_properties(1, 4, &Remap::Pristine);
    assert_eq!(ax.set_pixel_length_for_vis(VisIdx(2), 49), 49);
    assert_eq!(ax.pixels_length_for_vis(VisIdx(2)), Some(49));
    assert_eq!(ax.pixels_length_for_vis(VisIdx(1)), Some(99));
    assert_eq!(ax.first_pixel_from_vis(VisIdx(3)), Some(250));
    assert_eq!(ax.total_pixel_length(), 350);
    assert_eq!(ax.set_far_pixel_for_vis(VisIdx(1), 109), 9);
    assert_eq!(ax.pixels_length_for_vis(VisIdx(1)), Some(9));
    assert_eq!(ax.first_pixel_from_vis(VisIdx(2)), Some(110));
    assert_eq!(ax.total_pixel_length(), 260);
    assert_eq!(ax.set_far_pixel_for_vis(VisIdx(1), 109), 9);
    assert_eq!(ax.total_pixel_length(), 260);
    for i in 0..6usize {
        assert!(ax.can_resize(VisIdx(i)));
    }
}

#[test]
fn stored_far_pixel_before_the_start_gives_zero() {
    let mut ax = StoredAxisMeasure::new(99);
    ax.set_axis_properties(1, 4, &Remap::Pristine);
    assert_eq!(ax.set_far_pixel_for_vis(VisIdx(2), 150), 0);
    assert_eq!(ax.pixels_length_for_vis(VisIdx(2)), Some(0));
    assert_eq!(ax.set_far_pixel_for_vis(VisIdx(2), 200), 0);
    assert_eq!(ax.set_far_pixel_for_vis(VisIdx(2), i128::MIN), 0);
    assert_eq!(ax.total_pixel_length(), 301);
}

#[test]
fn stored_far_pixel_is_capped_at_the_largest_extent() {
    let mut ax = StoredAxisMeasure::new(99);
    ax.set_axis_properties(1, 4, &Remap::Pristine);
    assert_eq!(ax.set_far_pixel_for_vis(VisIdx(1), i128::MAX), u32::MAX);
    assert_eq!(ax.pixels_length_for_vis(VisIdx(1)), Some(u32::MAX));
    assert_eq!(
        ax.set_far_pixel_for_vis(VisIdx(1), 100 + u32::MAX as i128 - 1),
        u32::MAX - 1
    );
}

#[test]
fn stored_resize_of_a_missing_slot_reports_zero() {
    let mut ax = StoredAxisMeasure::new(99);
    ax.set_axis_properties(1, 4, &Remap::Pristine);
    assert_eq!(ax.set_pixel_length_for_vis(VisIdx(4), 49), 0);
    assert_eq!(ax.set_far_pixel_for_vis(VisIdx(9), 49), 0);
    assert_eq!(ax.total_pixel_length(), 400);
    ax.set_axis_properties(1, 4, &selected(&[2, 0]));
    assert_eq!(ax.set_pixel_length_for_vis(VisIdx(2), 49), 0);
    assert_eq!(ax.total_pixel_length(), 200);
    assert_eq!(ax.set_pixel_length_for_vis(VisIdx(1), 49), 49);
    assert_eq!(ax.total_pixel_length(), 150);
}

#[test]
fn stored_shows_items_through_the_remap() {
    let mut ax = stored_with(&[10, 20, 30, 40, 50], 1);
    ax.set_axis_properties(1, 5, &selected(&[3, 1, 4]));
    assert_eq!(ax.pixels_length_for_vis(VisIdx(0)), Some(40));
    assert_eq!(ax.pixels_length_for_vis(VisIdx(1)), Some(20));
    assert_eq!(ax.pixels_length_for_vis(VisIdx(2)), Some(50));
    assert_eq!(ax.pixels_length_for_vis(VisIdx(3)), None);
    assert_eq!(ax.first_pixel_from_vis(VisIdx(1)), Some(41));
    assert_eq!(ax.first_pixel_from_vis(VisIdx(2)), Some(62));
    assert_eq!(ax.first_pixel_from_vis(VisIdx(3)), None);
    assert_eq!(ax.total_pixel_length(), 113);
    assert_eq!(ax.vis_from_pixel(61), Some(VisIdx(1)));
    assert_eq!(ax.vis_range_from_pixels(-1, 500), (VisIdx(0), VisIdx(2)));
}

#[test]
fn stored_resize_goes_to_the_logical_item() {
    let mut ax = stored_with(&[10, 20, 30, 40, 50], 1);
    ax.set_axis_properties(1, 5, &selected(&[3, 1, 4]));
    assert_eq!(ax.set_pixel_length_for_vis(VisIdx(0), 4), 4);
    assert_eq!(ax.pixels_length_for_vis(VisIdx(0)), Some(4));
    ax.set_axis_properties(1, 5, &Remap::Pristine);
    assert_eq!(ax.pixels_length_for_vis(VisIdx(0)), Some(10));
    assert_eq!(ax.pixels_length_for_vis(VisIdx(3)), Some(4));
    assert_eq!(ax.total_pixel_length(), 10 + 20 + 30 + 4 + 50 + 5);
}

#[test]
fn stored_remap_may_repeat_and_be_empty() {
    let mut ax = stored_with(&[10, 20], 2);
    ax.set_axis_properties(2, 2, &selected(&[1, 1, 0]));
    assert_eq!(ax.total_pixel_length(), 22 + 22 + 12);
    assert_eq!(ax.set_pixel_length_for_vis(VisIdx(0), 5), 5);
    assert_eq!(ax.pixels_length_for_vis(VisIdx(1)), Some(5));
    ax.set_axis_properties(2, 2, &selected(&[]));
    assert_eq!(ax.total_pixel_length(), 0);
    assert_eq!(ax.vis_from_pixel(0), None);
}

#[test]
fn stored_growth_appends_the_default_extent() {
    let mut ax = StoredAxisMeasure::new(99);
    ax.set_axis_properties(0, 2, &Remap::Pristine);
    assert_eq!(ax.set_pixel_length_for_vis(VisIdx(0), 10), 10);
    assert_eq!(ax.set_pixel_length_for_vis(VisIdx(1), 20), 20);
    ax.set_axis_properties(0, 4, &Remap::Pristine);
    assert_eq!(ax.pixels_length_for_vis(VisIdx(0)), Some(10));
    assert_eq!(ax.pixels_length_for_vis(VisIdx(1)), Some(20));
    assert_eq!(ax.pixels_length_for_vis(VisIdx(2)), Some(99));
    assert_eq!(ax.pixels_length_for_vis(VisIdx(3)), Some(99));
    assert_eq!(ax.pixels_length_for_vis(VisIdx(4)), None);
}

#[test]
fn stored_shrinking_forgets_the_extents_cut_off() {
    let mut ax = stored_with(&[10, 20, 30, 40], 0);
    ax.set_axis_properties(0, 2, &Remap::Pristine);
    assert_eq!(ax.pixels_length_for_vis(VisIdx(0)), Some(10));
    assert_eq!(ax.pixels_length_for_vis(VisIdx(1)), Some(20));
    assert_eq!(ax.pixels_length_for_vis(VisIdx(2)), None);
    assert_eq!(ax.total_pixel_length(), 30);
    ax.set_axis_properties(0, 4, &Remap::Pristine);
    assert_eq!(ax.pixels_length_for_vis(VisIdx(2)), Some(0));
    assert_eq!(ax.pixels_length_for_vis(VisIdx(3)), Some(0));
    ax.set_axis_properties(0, 4, &Remap::Pristine);
    assert_eq!(ax.total_pixel_length(), 30);
}

#[test]
fn stored_takes_the_new_border() {
    let mut ax = stored_with(&[10, 20, 30], 0);
    assert_eq!(ax.total_pixel_length(), 60);
    ax.set_axis_properties(5, 3, &Remap::Pristine);
    assert_eq!(ax.border(), 5);
    assert_eq!(ax.total_pixel_length(), 75);
    assert_eq!(ax.first_pixel_from_vis(VisIdx(2)), Some(40));
}

#[test]
fn stored_copy_is_independent() {
    let mut ax = stored_with(&[10, 20, 30], 1);
    let copy = ax.clone();
    assert_eq!(ax.set_pixel_length_for_vis(VisIdx(0), 100), 100);
    assert_eq!(copy.total_pixel_length(), 63);
    assert_eq!(copy.vis_from_pixel(11), Some(VisIdx(1)));
    assert_eq!(copy.pixels_length_for_vis(VisIdx(0)), Some(10));
    assert_eq!(ax.total_pixel_length(), 153);
}

#[test]
fn near_border_on_the_leading_edge() {
    let mut ax = FixedAxisMeasure::new(99);
    ax.set_axis_properties(1, 4, &Remap::Pristine);
    assert_eq!(ax.pixel_near_border(100), Some(VisIdx(1)));
    assert_eq!(ax.pixel_near_border(102), Some(VisIdx(1)));
    assert_eq!(ax.pixel_near_border(103), None);
    assert_eq!(ax.pixel_near_border(0), Some(VisIdx(0)));
    assert_eq!(ax.pixel_near_border(2), Some(VisIdx(0)));
}

#[test]
fn near_border_on_the_trailing_edge() {
    let mut ax = FixedAxisMeasure::new(99);
    ax.set_axis_properties(1, 4, &Remap::Pristine);
    assert_eq!(ax.pixel_near_border(96), None);
    assert_eq!(ax.pixel_near_border(97), Some(VisIdx(1)));
    assert_eq!(ax.pixel_near_border(99), Some(VisIdx(1)));
    assert_eq!(ax.pixel_near_border(397), Some(VisIdx(4)));
    assert_eq!(ax.pixel_near_border(399), Some(VisIdx(4)));
    assert_eq!(ax.pixel_near_border(400), None);
}

#[test]
fn near_border_far_from_any_border() {
    let mut ax = StoredAxisMeasure::new(99);
    ax.set_axis_properties(1, 4, &Remap::Pristine);
    assert_eq!(ax.pixel_near_border(50), None);
    assert_eq!(ax.pixel_near_border(-1), None);
    assert_eq!(ax.pixel_near_border(404), None);
    assert_eq!(ax.pixel_near_border(402), Some(VisIdx(4)));
    assert_eq!(ax.pixel_near_border(i128::MAX), None);
}

#[test]
fn near_border_counts_half_pixels() {
    let ax = stored_with(&[20, 20], 4);
    assert_eq!(ax.first_pixel_from_vis(VisIdx(1)), Some(24));
    assert_eq!(ax.pixel_near_border(19), None);
    assert_eq!(ax.pixel_near_border(20), Some(VisIdx(1)));
    assert_eq!(ax.pixel_near_border(24), Some(VisIdx(1)));
    assert_eq!(ax.pixel_near_border(25), None);
    let odd = stored_with(&[20, 20], 5);
    assert_eq!(odd.first_pixel_from_vis(VisIdx(1)), Some(25));
    assert_eq!(odd.pixel_near_border(19), None);
    assert_eq!(odd.pixel_near_border(20), Some(VisIdx(1)));
    assert_eq!(odd.pixel_near_border(25), Some(VisIdx(1)));
    assert_eq!(odd.pixel_near_border(26), None);
}

#[test]
fn near_border_prefers_the_leading_edge() {
    let ax = stored_with(&[10, 2, 10], 0);
    assert_eq!(ax.first_pixel_from_vis(VisIdx(1)), Some(10));
    assert_eq!(ax.first_pixel_from_vis(VisIdx(2)), Some(12));
    assert_eq!(ax.pixel_near_border(10), Some(VisIdx(1)));
    assert_eq!(ax.pixel_near_border(11), Some(VisIdx(1)));
    assert_eq!(ax.pixel_near_border(9), Some(VisIdx(1)));
    assert_eq!(ax.pixel_near_border(12), Some(VisIdx(2)));
}
