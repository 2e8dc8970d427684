use feagi_data_deserializer::deserializer::FeagiDataDeserializer;
use feagi_data_deserializer::listing::positions;
use feagi_data_deserializer::visualization::{
    array_failure, dispatch, draw_at, draw_each, flatten_rows, process_count, to_lattice,
    visualization_failure,
    visualization_success, zip_coordinates, ArrayError, VisualizationResult,
};

fn draw(x: u32, y: u32, z: u32) -> ([f32; 12], [f32; 4]) {
    let mut transform = [0.0f32; 12];
    for (k, t) in transform.iter_mut().enumerate() {
        *t = (100 * x + 10 * y + z) as f32 + k as f32 / 16.0;
    }
    (transform, [x as f32, y as f32, z as f32, 1.0])
}

#[test]
fn mismatched_arrays_are_a_size_mismatch() {
    let d = FeagiDataDeserializer::new();
    let r = d.select_from_arrays(&[1, 2, 3], &[1, 2], &[1, 2, 3], 0);
    assert_eq!(r, Err(ArrayError::SizeMismatch));
    let report: VisualizationResult<f32> = array_failure(r.unwrap_err(), 17);
    assert!(!report.success);
    assert_eq!(report.neuron_count, 0);
    assert!(report.transforms.is_empty());
    assert!(report.colors.is_empty());
    assert_eq!(report.error, "Array size mismatch");
    assert_eq!(report.processing_time_us, 17);
    assert_eq!(d.select_from_arrays(&[1, 2, 3], &[1, 2, 3], &[1, 2], 0), Err(ArrayError::SizeMismatch));
    assert_eq!(d.select_from_arrays(&[], &[1], &[], 0), Err(ArrayError::SizeMismatch));
    assert_eq!(d.select_from_arrays(&[1], &[], &[], 5), Err(ArrayError::SizeMismatch));
}

#[test]
fn empty_arrays_are_an_error_for_drawing() {
    let d = FeagiDataDeserializer::new();
    let r = d.select_from_arrays(&[], &[], &[], 0);
    assert_eq!(r, Err(ArrayError::Empty));
    let report: VisualizationResult<f32> = array_failure(r.unwrap_err(), 3);
    assert!(!report.success);
    assert_eq!(report.neuron_count, 0);
    assert_eq!(report.error, "Empty arrays");
    assert_eq!(ArrayError::Empty.message(), "Empty arrays");
    assert_eq!(ArrayError::SizeMismatch.message(), "Array size mismatch");
}

#[test]
fn cap_on_arrays_of_a_thousand_neurons() {
    let d = FeagiDataDeserializer::new();
    let x: Vec<i32> = (0..1000).collect();
    let y: Vec<i32> = (0..1000).map(|i| 2 * i).collect();
    let z: Vec<i32> = (0..1000).map(|i| 3 * i).collect();
    let all = d.select_from_arrays(&x, &y, &z, 0).unwrap();
    assert_eq!(all.len(), 1000);
    assert_eq!(all[999], (999, 1998, 2997));
    let ten = d.select_from_arrays(&x, &y, &z, 10).unwrap();
    assert_eq!(ten.len(), 10);
    for (k, n) in ten.iter().enumerate() {
        assert_eq!(*n, (k as u32, 2 * k as u32, 3 * k as u32));
    }
    assert_eq!(d.select_from_arrays(&x, &y, &z, -5).unwrap().len(), 1000);
    assert_eq!(d.select_from_arrays(&x, &y, &z, 1000).unwrap().len(), 1000);
    assert_eq!(d.select_from_arrays(&x, &y, &z, 1001).unwrap().len(), 1000);
    assert_eq!(d.select_from_arrays(&x, &y, &z, 999).unwrap().len(), 999);
    let (transforms, colors) = flatten_rows(&draw_each(&ten, draw));
    let report = visualization_success(transforms, colors, 250);
    assert!(report.success);
    assert_eq!(report.neuron_count, 10);
    assert_eq!(report.transforms.len(), 120);
    assert_eq!(report.colors.len(), 40);
    assert_eq!(report.error, "");
    assert_eq!(report.processing_time_us, 250);
}

#[test]
fn choosing_twice_gives_the_same() {
    let d = FeagiDataDeserializer::new();
    let x = [5, -1, 7];
    let y = [3, 0, i32::MIN];
    let z = [2, i32::MAX, 9];
    let first = d.select_from_arrays(&x, &y, &z, 2);
    let second = d.select_from_arrays(&x, &y, &z, 2);
    assert_eq!(first, second);
    assert_eq!(first.unwrap(), vec![(5, 3, 2), (u32::MAX, 0, 0x7fff_ffff)]);
}

#[test]
fn negative_coordinates_keep_their_bits() {
    assert_eq!(to_lattice(0), 0);
    assert_eq!(to_lattice(1), 1);
    assert_eq!(to_lattice(i32::MAX), 0x7fff_ffff);
    assert_eq!(to_lattice(-1), u32::MAX);
    assert_eq!(to_lattice(i32::MIN), 0x8000_0000);
    assert_eq!(to_lattice(-2), (-2i32) as u32);
}

#[test]
fn process_count_follows_the_cap() {
    assert_eq!(process_count(1000, 0), 1000);
    assert_eq!(process_count(1000, 10), 10);
    assert_eq!(process_count(1000, -1), 1000);
    assert_eq!(process_count(5, 10), 5);
    assert_eq!(process_count(5, 5), 5);
    assert_eq!(process_count(0, 3), 0);
    assert_eq!(process_count(usize::MAX, i32::MAX), i32::MAX as usize);
}

#[test]
fn zipping_takes_the_first_entries() {
    assert_eq!(zip_coordinates(&[1, 2, 3], &[4, 5, 6], &[7, 8, 9], 2), vec![(1, 4, 7), (2, 5, 8)]);
    assert!(zip_coordinates(&[1], &[2], &[3], 0).is_empty());
}

#[test]
fn mesh_update_sets_one_instance_per_neuron() {
    let d = FeagiDataDeserializer::new();
    let plan = d.apply_arrays_to_multimesh(&[1, 2], &[3, 4], &[5, 6], draw);
    assert!(plan.success);
    assert_eq!(plan.instance_count, 2);
    assert_eq!(plan.instances, vec![draw(1, 3, 5), draw(2, 4, 6)]);
    assert_eq!(plan.error, None);
    let wrapped = d.apply_arrays_to_multimesh(&[-1], &[0], &[i32::MIN], draw);
    assert_eq!(wrapped.instances, vec![draw(u32::MAX, 0, 0x8000_0000)]);
}

#[test]
fn mesh_update_leaves_no_instance_on_mismatch_or_empty_input() {
    let d = FeagiDataDeserializer::new();
    let bad = d.apply_arrays_to_multimesh(&[1, 2, 3], &[3, 4], &[5, 6, 7], draw);
    assert!(!bad.success);
    assert_eq!(bad.instance_count, 0);
    assert!(bad.instances.is_empty());
    assert_eq!(bad.error, Some(ArrayError::SizeMismatch));
    let empty = d.apply_arrays_to_multimesh(&[], &[], &[], draw);
    assert!(empty.success);
    assert_eq!(empty.instance_count, 0);
    assert!(empty.instances.is_empty());
    assert_eq!(empty.error, None);
}

#[test]
fn arrays_are_drawn_neuron_by_neuron() {
    let d = FeagiDataDeserializer::new();
    let x: Vec<i32> = (0..1000).collect();
    let y: Vec<i32> = (0..1000).map(|i| 2 * i).collect();
    let z: Vec<i32> = (0..1000).map(|i| 3 * i).collect();
    for parallel in [false, true] {
        let all = d.process_arrays_for_visualization(&x, &y, &z, draw, 0, parallel, || 99);
        assert!(all.success);
        assert_eq!(all.neuron_count, 1000);
        assert_eq!(all.transforms.len(), 12_000);
        assert_eq!(all.colors.len(), 4_000);
        assert_eq!(all.processing_time_us, 99);
        assert_eq!(all.error, "");
        let ten = d.process_arrays_for_visualization(&x, &y, &z, draw, 10, parallel, || 99);
        assert_eq!(ten.neuron_count, 10);
        assert_eq!(ten.transforms, all.transforms[..120].to_vec());
        assert_eq!(ten.colors, all.colors[..40].to_vec());
        for k in 0..10u32 {
            let (t, c) = draw(k, 2 * k, 3 * k);
            assert_eq!(ten.transforms[12 * k as usize..12 * k as usize + 12], t);
            assert_eq!(ten.colors[4 * k as usize..4 * k as usize + 4], c);
        }
    }
    let sequential = d.process_arrays_for_visualization(&x, &y, &z, draw, 0, false, || 1);
    let parallel = d.process_arrays_for_visualization(&x, &y, &z, draw, 0, true, || 1);
    assert_eq!(sequential, parallel);
}

#[test]
fn arrays_that_cannot_be_drawn_are_reported_without_a_drawing() {
    let d = FeagiDataDeserializer::new();
    let out = d.process_arrays_for_visualization(&[1, 2, 3], &[1, 2], &[1, 2, 3], draw, 0, true, || 17);
    assert!(!out.success);
    assert_eq!(out.neuron_count, 0);
    assert!(out.transforms.is_empty());
    assert!(out.colors.is_empty());
    assert_eq!(out.error, "Array size mismatch");
    assert_eq!(out.processing_time_us, 17);
    let out = d.process_arrays_for_visualization(&[], &[], &[], draw, 5, false, || 3);
    assert!(!out.success);
    assert_eq!(out.neuron_count, 0);
    assert_eq!(out.error, "Empty arrays");
    assert_eq!(out.processing_time_us, 3);
}

#[test]
fn reports_hold_what_they_are_given() {
    let ok: VisualizationResult<f32> = visualization_success(vec![0.5; 24], vec![1.0; 8], -4);
    assert!(ok.success);
    assert_eq!(ok.transforms, vec![0.5; 24]);
    assert_eq!(ok.colors, vec![1.0; 8]);
    assert_eq!(ok.neuron_count, 2);
    assert_eq!(ok.processing_time_us, -4);
    assert!(ok.error.is_empty());
    let failed: VisualizationResult<f32> = visualization_failure("Deserialization error".to_string(), 9);
    assert!(!failed.success);
    assert!(failed.transforms.is_empty());
    assert!(failed.colors.is_empty());
    assert_eq!(failed.neuron_count, 0);
    assert_eq!(failed.processing_time_us, 9);
    assert_eq!(failed.error, "Deserialization error");
    let none: VisualizationResult<f32> = visualization_success(Vec::new(), Vec::new(), 0);
    assert!(none.success);
    assert_eq!(none.neuron_count, 0);
}

#[test]
fn each_position_is_drawn_in_its_place() {
    let coords = vec![(1, 2, 3), (4, 5, 6), (7, 8, 9)];
    let drawn = draw_each(&coords, draw);
    assert_eq!(drawn.len(), 3);
    for (i, c) in coords.iter().enumerate() {
        assert_eq!(drawn[i], draw(c.0, c.1, c.2));
    }
    let (transforms, colors) = flatten_rows(&drawn);
    assert_eq!(transforms.len(), 36);
    assert_eq!(colors.len(), 12);
    for (i, c) in coords.iter().enumerate() {
        let (t, col) = draw(c.0, c.1, c.2);
        assert_eq!(transforms[12 * i..12 * i + 12], t);
        assert_eq!(colors[4 * i..4 * i + 4], col);
    }
    assert_eq!(transforms[12], 456.0);
    assert_eq!(transforms[13], 456.0625);
    assert_eq!(colors[8..12], [7.0, 8.0, 9.0, 1.0]);
}

#[test]
fn drawing_twice_gives_the_same() {
    let coords: Vec<(u32, u32, u32)> = (0..50).map(|i| (i, 2 * i, 3 * i)).collect();
    let first = flatten_rows(&draw_each(&coords, draw));
    let second = flatten_rows(&draw_each(&coords, draw));
    assert_eq!(first, second);
}

#[test]
fn nothing_to_draw_gives_empty_rows() {
    let drawn = draw_each(&[], draw);
    assert!(drawn.is_empty());
    let (transforms, colors) = flatten_rows(&drawn);
    assert!(transforms.is_empty());
    assert!(colors.is_empty());
}

#[test]
fn one_position_is_drawn_by_the_function_given() {
    assert_eq!(draw_at(&draw, &(1, 2, 3)), draw(1, 2, 3));
    let scaled = |x: u32, _y: u32, _z: u32| ([x as f32 * 0.5; 12], [0.25f32; 4]);
    assert_eq!(draw_at(&scaled, &(3, 0, 0)), ([1.5; 12], [0.25; 4]));
}

#[test]
fn positions_drop_the_potential() {
    assert_eq!(positions(&vec![(1, 2, 3, 4), (5, 6, 7, 8)]), vec![(1, 2, 3), (5, 6, 7)]);
    assert!(positions(&Vec::new()).is_empty());
}

#[test]
fn parallel_and_sequential_dispatch_agree() {
    let coords: Vec<(u32, u32, u32)> = (0..5000).map(|i| (i, i % 17, i % 5)).collect();
    let sequential = dispatch(&coords, draw, false);
    let parallel = dispatch(&coords, draw, true);
    assert_eq!(sequential.len(), 5000);
    assert_eq!(sequential, parallel);
    assert_eq!(sequential, draw_each(&coords, draw));
    assert_eq!(flatten_rows(&sequential), flatten_rows(&parallel));
    for (i, c) in coords.iter().enumerate() {
        assert_eq!(parallel[i], draw(c.0, c.1, c.2));
    }
    assert!(dispatch(&[], draw, true).is_empty());
}
