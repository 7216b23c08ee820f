use crop_smoothing::crop::{CropArea, CropResult};
use crop_smoothing::video_processor_utils::interpolate_crop_results;

#[test]
fn test_interpolate_crop_results_single_to_single() {
    let start = CropResult::Single(CropArea::new(100, 200, 300, 400));
    let destination = CropResult::Single(CropArea::new(200, 300, 400, 500));
    let num_frames = 5;

    let result = interpolate_crop_results(&start, &destination, num_frames);

    assert_eq!(result.len(), num_frames);

    // First frame: the start's x, the destination's y, width and height.
    match &result[0] {
        CropResult::Single(crop) => {
            assert_eq!(crop.x, 100);
            assert_eq!(crop.y, 300);
            assert_eq!(crop.width, 400);
            assert_eq!(crop.height, 500);
        }
        _ => panic!("Expected Single crop result"),
    }

    // Last frame: the destination.
    match &result[num_frames - 1] {
        CropResult::Single(crop) => {
            assert_eq!(crop.x, 200);
            assert_eq!(crop.y, 300);
            assert_eq!(crop.width, 400);
            assert_eq!(crop.height, 500);
        }
        _ => panic!("Expected Single crop result"),
    }

    // Middle frame: x halfway.
    match &result[2] {
        CropResult::Single(crop) => {
            assert_eq!(crop.x, 150);
            assert_eq!(crop.y, 300);
            assert_eq!(crop.width, 400);
            assert_eq!(crop.height, 500);
        }
        _ => panic!("Expected Single crop result"),
    }
}

#[test]
fn test_interpolate_crop_results_single_to_stacked() {
    let start = CropResult::Single(CropArea::new(100, 200, 300, 400));
    let destination = CropResult::Stacked(CropArea::new(0, 0, 500, 600), CropArea::new(500, 0, 500, 600));
    let num_frames = 3;

    let result = interpolate_crop_results(&start, &destination, num_frames);

    assert_eq!(result.len(), num_frames);

    for crop_result in &result {
        match crop_result {
            CropResult::Stacked(crop1, crop2) => {
                assert_eq!(crop1.x, 0);
                assert_eq!(crop1.y, 0);
                assert_eq!(crop1.width, 500);
                assert_eq!(crop1.height, 600);
                assert_eq!(crop2.x, 500);
                assert_eq!(crop2.y, 0);
                assert_eq!(crop2.width, 500);
                assert_eq!(crop2.height, 600);
            }
            _ => panic!("Expected Stacked crop result"),
        }
    }
}

#[test]
fn test_interpolate_crop_results_stacked_to_single() {
    let start = CropResult::Stacked(CropArea::new(0, 0, 500, 600), CropArea::new(500, 0, 500, 600));
    let destination = CropResult::Single(CropArea::new(200, 300, 400, 500));
    let num_frames = 3;

    let result = interpolate_crop_results(&start, &destination, num_frames);

    assert_eq!(result.len(), num_frames);

    for crop_result in &result {
        match crop_result {
            CropResult::Single(crop) => {
                assert_eq!(crop.x, 200);
                assert_eq!(crop.y, 300);
                assert_eq!(crop.width, 400);
                assert_eq!(crop.height, 500);
            }
            _ => panic!("Expected Single crop result"),
        }
    }
}

#[test]
fn test_interpolate_crop_results_stacked_to_stacked() {
    let start = CropResult::Stacked(CropArea::new(0, 0, 500, 600), CropArea::new(500, 0, 500, 600));
    let destination = CropResult::Stacked(CropArea::new(100, 100, 600, 700), CropArea::new(700, 100, 600, 700));
    let num_frames = 3;

    let result = interpolate_crop_results(&start, &destination, num_frames);

    assert_eq!(result.len(), num_frames);

    for crop_result in &result {
        match crop_result {
            CropResult::Stacked(crop1, crop2) => {
                assert_eq!(crop1.x, 100);
                assert_eq!(crop1.y, 100);
                assert_eq!(crop1.width, 600);
                assert_eq!(crop1.height, 700);
                assert_eq!(crop2.x, 700);
                assert_eq!(crop2.y, 100);
                assert_eq!(crop2.width, 600);
                assert_eq!(crop2.height, 700);
            }
            _ => panic!("Expected Stacked crop result"),
        }
    }
}

#[test]
fn test_interpolate_crop_results_zero_frames() {
    let start = CropResult::Single(CropArea::new(100, 200, 300, 400));
    let destination = CropResult::Single(CropArea::new(200, 300, 400, 500));

    let result = interpolate_crop_results(&start, &destination, 0);

    assert_eq!(result.len(), 0);
}

#[test]
fn test_interpolate_crop_results_one_frame() {
    let start = CropResult::Single(CropArea::new(100, 200, 300, 400));
    let destination = CropResult::Single(CropArea::new(200, 300, 400, 500));

    let result = interpolate_crop_results(&start, &destination, 1);

    assert_eq!(result.len(), 1);
    match &result[0] {
        CropResult::Single(crop) => {
            assert_eq!(crop.x, 200);
            assert_eq!(crop.y, 300);
            assert_eq!(crop.width, 400);
            assert_eq!(crop.height, 500);
        }
        _ => panic!("Expected Single crop result"),
    }
}

#[test]
fn test_interpolate_crop_results_identical_crops() {
    let crop_area = CropArea::new(100, 200, 300, 400);
    let start = CropResult::Single(crop_area.clone());
    let destination = CropResult::Single(crop_area);
    let num_frames = 5;

    let result = interpolate_crop_results(&start, &destination, num_frames);

    assert_eq!(result.len(), num_frames);

    for crop_result in &result {
        match crop_result {
            CropResult::Single(crop) => {
                assert_eq!(crop.x, 100);
                assert_eq!(crop.y, 200);
                assert_eq!(crop.width, 300);
                assert_eq!(crop.height, 400);
            }
            _ => panic!("Expected Single crop result"),
        }
    }
}

#[test]
fn test_interpolate_crop_results_large_frame_count() {
    let start = CropResult::Single(CropArea::new(0, 0, 100, 100));
    let destination = CropResult::Single(CropArea::new(1000, 1000, 200, 200));
    let num_frames = 100;

    let result = interpolate_crop_results(&start, &destination, num_frames);

    assert_eq!(result.len(), num_frames);

    for i in 1..num_frames {
        let prev = &result[i - 1];
        let curr = &result[i];

        if let (CropResult::Single(prev_crop), CropResult::Single(curr_crop)) = (prev, curr) {
            // Only x moves, and never backwards.
            assert!(curr_crop.x >= prev_crop.x);
            assert_eq!(curr_crop.y, 1000);
            assert_eq!(curr_crop.width, 200);
            assert_eq!(curr_crop.height, 200);
        } else {
            panic!("Expected Single crop result");
        }
    }
}

fn xs(crops: &[CropResult]) -> Vec<i32> {
    crops
        .iter()
        .map(|c| match c {
            CropResult::Single(a) => a.x,
            _ => panic!("Expected Single crop result"),
        })
        .collect()
}

#[test]
fn interpolation_rounds_each_step_down_to_a_whole_pixel() {
    let start = CropResult::Single(CropArea::new(0, 0, 10, 10));
    let destination = CropResult::Single(CropArea::new(10, 5, 20, 30));
    // Steps of 10/3 pixels: 0, 3.33, 6.67, 10.
    let result = interpolate_crop_results(&start, &destination, 4);
    assert_eq!(xs(&result), vec![0, 3, 6, 10]);
}

#[test]
fn interpolation_to_the_left_rounds_down_too() {
    let start = CropResult::Single(CropArea::new(10, 0, 10, 10));
    let destination = CropResult::Single(CropArea::new(0, 0, 10, 10));
    // 10, 6.67, 3.33, 0, each rounded down.
    let result = interpolate_crop_results(&start, &destination, 4);
    assert_eq!(xs(&result), vec![10, 6, 3, 0]);
}

#[test]
fn interpolation_crosses_zero_with_negative_coordinates() {
    let start = CropResult::Single(CropArea::new(-5, 0, 10, 10));
    let destination = CropResult::Single(CropArea::new(5, 0, 10, 10));
    // -5, -2.5, 0, 2.5, 5.
    let result = interpolate_crop_results(&start, &destination, 5);
    assert_eq!(xs(&result), vec![-5, -3, 0, 2, 5]);
}

#[test]
fn interpolation_spans_the_whole_coordinate_range() {
    let start = CropResult::Single(CropArea::new(i32::MIN, 0, 1, 1));
    let destination = CropResult::Single(CropArea::new(i32::MAX, 0, 1, 1));
    let result = interpolate_crop_results(&start, &destination, 3);
    assert_eq!(xs(&result), vec![i32::MIN, -1, i32::MAX]);

    let back = interpolate_crop_results(&destination, &start, 3);
    assert_eq!(xs(&back), vec![i32::MAX, -1, i32::MIN]);
}

#[test]
fn interpolation_over_two_frames_is_start_then_destination() {
    let start = CropResult::Single(CropArea::new(100, 1, 2, 3));
    let destination = CropResult::Single(CropArea::new(300, 4, 5, 6));
    let result = interpolate_crop_results(&start, &destination, 2);
    assert_eq!(
        result,
        vec![CropResult::Single(CropArea::new(100, 4, 5, 6)), CropResult::Single(CropArea::new(300, 4, 5, 6))]
    );
}

#[test]
fn interpolation_takes_y_width_and_height_from_the_destination_at_once() {
    let start = CropResult::Single(CropArea::new(0, 0, 100, 100));
    let destination = CropResult::Single(CropArea::new(90, 40, 50, 60));
    let result = interpolate_crop_results(&start, &destination, 10);
    for (i, crop) in result.iter().enumerate() {
        assert_eq!(*crop, CropResult::Single(CropArea::new(10 * i as i32, 40, 50, 60)));
    }
}

#[test]
fn interpolation_with_a_resize_end_repeats_the_destination() {
    let single = CropResult::Single(CropArea::new(100, 200, 300, 400));
    let resize = CropResult::Resize(CropArea::new(0, 0, 1920, 1080));
    assert_eq!(interpolate_crop_results(&single, &resize, 3), vec![resize; 3]);
    assert_eq!(interpolate_crop_results(&resize, &single, 3), vec![single; 3]);
    assert_eq!(interpolate_crop_results(&resize, &resize, 2), vec![resize; 2]);
    assert_eq!(interpolate_crop_results(&resize, &single, 0), vec![]);
}

#[test]
fn interpolation_from_a_crop_to_itself_repeats_it() {
    let stacked = CropResult::Stacked(CropArea::new(1, 2, 3, 4), CropArea::new(5, 6, 7, 8));
    assert_eq!(interpolate_crop_results(&stacked, &stacked, 4), vec![stacked; 4]);
    let single = CropResult::Single(CropArea::new(-7, 2, 3, 4));
    assert_eq!(interpolate_crop_results(&single, &single, 7), vec![single; 7]);
}
