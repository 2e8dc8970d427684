use feagi_data_deserializer::compression::block_or_empty;
use feagi_data_deserializer::deserializer::{DeserializeError, FeagiDataDeserializer};
use feagi_data_deserializer::listing::{
    collect_neurons, convert_area, convert_neuron_data, copy_bytes, key_of, sort_by_id,
};
use feagi_data_deserializer::voxels::VoxelArea;
use feagi_data_deserializer::wire::DecodeError;
use feagi_data_serialization::FeagiSerializable;
use feagi_data_structures::genomic::CorticalID;
use feagi_data_structures::neuron_voxels::xyzp::{CorticalMappedXYZPNeuronVoxels, NeuronVoxelXYZPArrays};

fn build(areas: &[(&[u8; 6], Vec<(u32, u32, u32, f32)>)]) -> Vec<u8> {
    let mut buffer = vec![11u8, 1u8];
    buffer.extend_from_slice(&(areas.len() as u16).to_le_bytes());
    let mut offset = 4 + 14 * areas.len();
    for (id, neurons) in areas {
        buffer.extend_from_slice(&id[..]);
        buffer.extend_from_slice(&(offset as u32).to_le_bytes());
        buffer.extend_from_slice(&((neurons.len() * 16) as u32).to_le_bytes());
        offset += neurons.len() * 16;
    }
    for (_, neurons) in areas {
        for n in neurons {
            buffer.extend_from_slice(&n.0.to_le_bytes());
        }
        for n in neurons {
            buffer.extend_from_slice(&n.1.to_le_bytes());
        }
        for n in neurons {
            buffer.extend_from_slice(&n.2.to_le_bytes());
        }
        for n in neurons {
            buffer.extend_from_slice(&n.3.to_le_bytes());
        }
    }
    buffer
}

fn area(id: &[u8; 6], neurons: &[(u32, u32, u32, u32)]) -> VoxelArea {
    VoxelArea { id: id.to_vec(), neurons: neurons.to_vec() }
}

#[test]
fn structure_type_is_the_first_byte() {
    let d = FeagiDataDeserializer::new();
    assert_eq!(d.get_structure_type(&[]), -1);
    assert_eq!(d.get_structure_type(&[11]), 11);
    assert_eq!(d.get_structure_type(&[1, 2, 3]), 1);
    assert_eq!(d.get_structure_type(&[0]), 0);
    assert_eq!(d.get_structure_type(&[255, 0]), 255);
}

#[test]
fn decodes_through_the_voxel_collection() {
    let d = FeagiDataDeserializer::new();
    let buffer = build(&[
        (b"c_zzzz", vec![(5, 3, 2, 0.75)]),
        (b"c_aaaa", vec![(1, 2, 3, 0.5), (4, 5, 6, -1.5)]),
    ]);
    let out = d.decode_type_11_data(&buffer).unwrap();
    assert_eq!(out.total_neurons, 3);
    assert_eq!(out.areas.len(), 2);
    assert_eq!(out.areas[0].id, b"c_aaaa".to_vec());
    assert_eq!(out.areas[0].area.x_array, vec![1, 4]);
    assert_eq!(out.areas[0].area.y_array, vec![2, 5]);
    assert_eq!(out.areas[0].area.z_array, vec![3, 6]);
    assert_eq!(out.areas[0].area.p_array, vec![0.5f32.to_bits(), (-1.5f32).to_bits()]);
    assert_eq!(out.areas[1].id, b"c_zzzz".to_vec());
    assert_eq!(out.areas[1].area.x_array, vec![5]);
    assert_eq!(out.areas[1].area.y_array, vec![3]);
    assert_eq!(out.areas[1].area.z_array, vec![2]);
    assert_eq!(out.areas[1].area.p_array, vec![0.75f32.to_bits()]);
}

#[test]
fn decodes_what_the_outside_serializer_wrote() {
    let mut voxels = CorticalMappedXYZPNeuronVoxels::new();
    voxels.insert(
        CorticalID::from_bytes(b"c_left").unwrap(),
        NeuronVoxelXYZPArrays::new_from_vectors(vec![1, 2, 3], vec![4, 5, 6], vec![7, 8, 9], vec![0.25, 0.5, 1.0]).unwrap(),
    );
    voxels.insert(
        CorticalID::from_bytes(b"m_cats").unwrap(),
        NeuronVoxelXYZPArrays::new_from_vectors(vec![10], vec![20], vec![30], vec![-2.0]).unwrap(),
    );
    let mut buffer = vec![0u8; voxels.get_number_of_bytes_needed()];
    voxels.try_serialize_struct_to_byte_slice(&mut buffer).unwrap();
    let d = FeagiDataDeserializer::new();
    let out = d.decode_type_11_data(&buffer).unwrap();
    assert_eq!(out.total_neurons, 4);
    assert_eq!(out.areas.len(), 2);
    assert_eq!(out.areas[0].id, b"c_left".to_vec());
    assert_eq!(out.areas[0].area.x_array, vec![1, 2, 3]);
    assert_eq!(out.areas[0].area.y_array, vec![4, 5, 6]);
    assert_eq!(out.areas[0].area.z_array, vec![7, 8, 9]);
    assert_eq!(out.areas[0].area.p_array, vec![0.25f32.to_bits(), 0.5f32.to_bits(), 1.0f32.to_bits()]);
    assert_eq!(out.areas[1].id, b"m_cats".to_vec());
    assert_eq!(out.areas[1].area.p_array, vec![(-2.0f32).to_bits()]);
    let row = d.select_neurons(&buffer, 0).unwrap();
    assert_eq!(row, vec![
        (1, 4, 7, 0.25f32.to_bits()),
        (2, 5, 8, 0.5f32.to_bits()),
        (3, 6, 9, 1.0f32.to_bits()),
        (10, 20, 30, (-2.0f32).to_bits()),
    ]);
}

#[test]
fn areas_without_neurons_are_left_out() {
    let d = FeagiDataDeserializer::new();
    let buffer = build(&[(b"c_none", vec![]), (b"c_some", vec![(1, 2, 3, 0.5)])]);
    let out = d.decode_type_11_data(&buffer).unwrap();
    assert_eq!(out.areas.len(), 1);
    assert_eq!(out.areas[0].id, b"c_some".to_vec());
    assert_eq!(out.total_neurons, 1);
    let areas = d.read_areas(&buffer).unwrap();
    assert_eq!(areas.len(), 2);
}

#[test]
fn later_area_replaces_earlier_one_in_the_collection() {
    let d = FeagiDataDeserializer::new();
    let buffer = build(&[
        (b"c_same", vec![(1, 1, 1, 1.0), (2, 2, 2, 2.0)]),
        (b"c_same", vec![(3, 4, 5, 6.0)]),
    ]);
    let out = d.decode_type_11_data(&buffer).unwrap();
    assert_eq!(out.areas.len(), 1);
    assert_eq!(out.total_neurons, 1);
    assert_eq!(out.areas[0].area.x_array, vec![3]);
    assert_eq!(out.areas[0].area.p_array, vec![6.0f32.to_bits()]);
}

#[test]
fn large_coordinates_come_out_as_negative_numbers() {
    let d = FeagiDataDeserializer::new();
    let buffer = build(&[(b"c_wrap", vec![(u32::MAX, 0x8000_0000, 0x7fff_ffff, 0.0)])]);
    let out = d.decode_type_11_data(&buffer).unwrap();
    assert_eq!(out.areas[0].area.x_array, vec![-1]);
    assert_eq!(out.areas[0].area.y_array, vec![i32::MIN]);
    assert_eq!(out.areas[0].area.z_array, vec![i32::MAX]);
}

#[test]
fn ids_that_are_no_cortical_ids_are_rejected() {
    let d = FeagiDataDeserializer::new();
    let buffer = build(&[(b"AREA01", vec![(5, 3, 2, 0.75)])]);
    assert!(matches!(d.decode_type_11_data(&buffer), Err(DeserializeError::Rejected(_))));
    assert!(matches!(d.select_neurons(&buffer, 0), Err(DeserializeError::Rejected(_))));
    if let Err(DeserializeError::Rejected(words)) = d.read_areas(&buffer) {
        assert!(!words.is_empty());
    } else {
        panic!("the id was taken");
    }
    let second = build(&[(b"c_fine", vec![]), (b"c bad!", vec![])]);
    assert!(matches!(d.decode_type_11_data(&second), Err(DeserializeError::Rejected(_))));
}

#[test]
fn malformed_buffers_fail_with_the_layout_error() {
    let d = FeagiDataDeserializer::new();
    assert_eq!(d.decode_type_11_data(&[]), Err(DeserializeError::Layout(DecodeError::TooShort)));
    assert_eq!(d.decode_type_11_data(&[11, 1, 1]), Err(DeserializeError::Layout(DecodeError::TooShort)));
    assert_eq!(d.decode_type_11_data(&[1, 1, 1, 0]), Err(DeserializeError::Layout(DecodeError::BadType { found: 1 })));
    assert_eq!(d.decode_type_11_data(&[11, 3, 1, 0]), Err(DeserializeError::Layout(DecodeError::BadVersion { found: 3 })));
    assert_eq!(d.decode_type_11_data(&[11, 1, 0, 0]), Err(DeserializeError::Layout(DecodeError::NoAreas)));
    assert_eq!(d.decode_type_11_data(&[11, 1, 1, 0, 99]), Err(DeserializeError::Layout(DecodeError::TooShortForHeaders)));
    let mut buffer = build(&[(b"c_area", vec![(1, 2, 3, 0.5)])]);
    buffer.pop();
    assert_eq!(d.decode_type_11_data(&buffer), Err(DeserializeError::Layout(DecodeError::RangeExceeded { area: 0 })));
    assert_eq!(d.select_neurons(&buffer, 5), Err(DeserializeError::Layout(DecodeError::RangeExceeded { area: 0 })));
    buffer[14] = 15;
    assert_eq!(d.decode_type_11_data(&buffer), Err(DeserializeError::Layout(DecodeError::Misaligned { area: 0, length: 15 })));
}

#[test]
fn neurons_are_drawn_area_after_area_in_id_order() {
    let d = FeagiDataDeserializer::new();
    let buffer = build(&[
        (b"c_bbbb", vec![(3, 0, 0, 3.0), (4, 0, 0, 4.0)]),
        (b"c_cccc", vec![(5, 0, 0, 5.0)]),
        (b"c_aaaa", vec![(1, 0, 0, 1.0), (2, 0, 0, 2.0)]),
    ]);
    let all = d.select_neurons(&buffer, 0).unwrap();
    let xs: Vec<u32> = all.iter().map(|n| n.0).collect();
    assert_eq!(xs, vec![1, 2, 3, 4, 5]);
    assert_eq!(all[4].3, 5.0f32.to_bits());
    for again in 0..5 {
        assert_eq!(d.select_neurons(&buffer, 0).unwrap(), all, "run {}", again);
    }
    let three = d.select_neurons(&buffer, 3).unwrap();
    assert_eq!(three, all[..3].to_vec());
    assert_eq!(d.select_neurons(&buffer, 5).unwrap(), all);
    assert_eq!(d.select_neurons(&buffer, 6).unwrap(), all);
    assert_eq!(d.select_neurons(&buffer, -1).unwrap(), all);
    assert_eq!(d.select_neurons(&buffer, 1).unwrap(), all[..1].to_vec());
}

#[test]
fn cap_on_a_payload_of_a_thousand_neurons() {
    let d = FeagiDataDeserializer::new();
    let neurons: Vec<(u32, u32, u32, f32)> = (0..1000u32).map(|i| (i, 2 * i, 3 * i, 0.5)).collect();
    let buffer = build(&[(b"c_area", neurons.clone())]);
    let all = d.select_neurons(&buffer, 0).unwrap();
    assert_eq!(all.len(), 1000);
    let ten = d.select_neurons(&buffer, 10).unwrap();
    assert_eq!(ten.len(), 10);
    for (k, n) in ten.iter().enumerate() {
        assert_eq!(*n, (k as u32, 2 * k as u32, 3 * k as u32, 0.5f32.to_bits()));
    }
    assert_eq!(ten, all[..10].to_vec());
}

#[test]
fn sorting_puts_ids_in_byte_order() {
    let sorted = sort_by_id(vec![
        area(b"c_zzzz", &[(1, 1, 1, 1)]),
        area(b"Zzzzzz", &[]),
        area(b"c_aaab", &[(2, 2, 2, 2)]),
        area(b"_power", &[(3, 3, 3, 3)]),
        area(b"c_aaaa", &[(4, 4, 4, 4)]),
    ]);
    let ids: Vec<&[u8]> = sorted.iter().map(|a| &a.id[..]).collect();
    assert_eq!(ids, vec![&b"Zzzzzz"[..], &b"_power"[..], &b"c_aaaa"[..], &b"c_aaab"[..], &b"c_zzzz"[..]]);
    assert_eq!(sorted[2].neurons, vec![(4, 4, 4, 4)]);
    assert!(sort_by_id(Vec::new()).is_empty());
    assert_eq!(key_of(&b"\0\0\0\0\0\x01".to_vec()), 1);
    assert_eq!(key_of(&b"\0\0\0\0\x01\0".to_vec()), 256);
    assert_eq!(key_of(&vec![255u8; 6]), 0xffff_ffff_ffff);
    assert_eq!(key_of(&vec![1, 2, 3, 4, 5, 6]), 0x0102_0304_0506);
}

#[test]
fn conversion_splits_voxels_into_arrays() {
    let out = convert_neuron_data(&vec![
        area(b"c_aaaa", &[(1, 2, 3, 4), (5, 6, 7, 8)]),
        area(b"c_bbbb", &[]),
        area(b"c_cccc", &[(u32::MAX, 0, 0x8000_0001, 9)]),
    ]);
    assert_eq!(out.total_neurons, 3);
    assert_eq!(out.areas.len(), 2);
    assert_eq!(out.areas[0].area.x_array, vec![1, 5]);
    assert_eq!(out.areas[0].area.y_array, vec![2, 6]);
    assert_eq!(out.areas[0].area.z_array, vec![3, 7]);
    assert_eq!(out.areas[0].area.p_array, vec![4, 8]);
    assert_eq!(out.areas[1].id, b"c_cccc".to_vec());
    assert_eq!(out.areas[1].area.x_array, vec![-1]);
    assert_eq!(out.areas[1].area.z_array, vec![i32::MIN + 1]);
    let one = convert_area(&vec![(7, 8, 9, 10)]);
    assert_eq!((one.x_array, one.y_array, one.z_array, one.p_array), (vec![7], vec![8], vec![9], vec![10]));
    assert_eq!(copy_bytes(&vec![1, 2, 3]), vec![1, 2, 3]);
    let none = convert_neuron_data(&Vec::new());
    assert_eq!(none.total_neurons, 0);
    assert!(none.areas.is_empty());
}

#[test]
fn collecting_stops_at_the_cap() {
    let areas = vec![
        area(b"c_aaaa", &[(1, 0, 0, 0), (2, 0, 0, 0)]),
        area(b"c_bbbb", &[]),
        area(b"c_cccc", &[(3, 0, 0, 0), (4, 0, 0, 0), (5, 0, 0, 0)]),
    ];
    let xs = |cap: i32| -> Vec<u32> { collect_neurons(&areas, cap).iter().map(|n| n.0).collect() };
    assert_eq!(xs(0), vec![1, 2, 3, 4, 5]);
    assert_eq!(xs(-7), vec![1, 2, 3, 4, 5]);
    assert_eq!(xs(1), vec![1]);
    assert_eq!(xs(2), vec![1, 2]);
    assert_eq!(xs(3), vec![1, 2, 3]);
    assert_eq!(xs(5), vec![1, 2, 3, 4, 5]);
    assert_eq!(xs(i32::MAX), vec![1, 2, 3, 4, 5]);
    assert!(collect_neurons(&Vec::new(), 3).is_empty());
}

#[test]
fn decompression_restores_what_was_compressed() {
    let d = FeagiDataDeserializer::new();
    let data: Vec<u8> = (0..5000u32).map(|i| (i % 7) as u8).collect();
    let compressed = lz4::block::compress(&data, None, true).unwrap();
    assert_ne!(compressed, data);
    assert_eq!(d.decompress_lz4(&compressed), data);
    let payload = build(&[(b"c_area", vec![(1, 2, 3, 0.5); 64])]);
    let packed = lz4::block::compress(&payload, None, true).unwrap();
    let unpacked = d.decompress_lz4(&packed);
    assert_eq!(unpacked, payload);
    assert_eq!(d.decode_type_11_data(&unpacked).unwrap().total_neurons, 64);
}

#[test]
fn blocks_that_do_not_decompress_give_no_bytes() {
    let d = FeagiDataDeserializer::new();
    assert!(d.decompress_lz4(&[]).is_empty());
    assert!(d.decompress_lz4(&[1, 2, 3]).is_empty());
    assert!(d.decompress_lz4(&[0xff, 0xff, 0xff, 0xff, 1, 2, 3]).is_empty());
    assert!(d.decompress_lz4(&[16, 0, 0, 0, 0xf0, 0xff, 0xff]).is_empty());
    assert_eq!(block_or_empty(Ok(vec![1, 2])), vec![1, 2]);
    assert!(block_or_empty(Ok(Vec::new())).is_empty());
    assert!(block_or_empty(Err(std::io::Error::new(std::io::ErrorKind::InvalidData, "bad block"))).is_empty());
}

#[test]
fn sorting_handles_every_small_order() {
    let ids: [&[u8; 6]; 4] = [b"c_0001", b"c_0002", b"c_0003", b"c_0004"];
    let orders: [[usize; 4]; 6] = [[0, 1, 2, 3], [3, 2, 1, 0], [1, 0, 3, 2], [2, 3, 0, 1], [0, 3, 1, 2], [3, 0, 2, 1]];
    for order in orders {
        for len in 1..=4 {
            let input: Vec<VoxelArea> = order.iter().filter(|k| **k < len).map(|k| area(ids[*k], &[(*k as u32, 0, 0, 0)])).collect();
            let sorted = sort_by_id(input);
            assert_eq!(sorted.len(), len);
            for (k, a) in sorted.iter().enumerate() {
                assert_eq!(a.id, ids[k].to_vec());
                assert_eq!(a.neurons, vec![(k as u32, 0, 0, 0)]);
            }
        }
    }
}

#[test]
fn many_areas_come_out_in_id_order() {
    let d = FeagiDataDeserializer::new();
    let ids: Vec<[u8; 6]> = (0..3000u32).map(|i| {
        let text = format!("c{:05}", (i * 7919) % 100_000);
        let mut id = [0u8; 6];
        id.copy_from_slice(text.as_bytes());
        id
    }).collect();
    let areas: Vec<(&[u8; 6], Vec<(u32, u32, u32, f32)>)> = ids.iter().enumerate().map(|(i, id)| (id, vec![(i as u32, 0, 0, 1.0)])).collect();
    let buffer = build(&areas);
    let listed = d.read_areas(&buffer).unwrap();
    assert_eq!(listed.len(), 3000);
    for pair in listed.windows(2) {
        assert!(pair[0].id < pair[1].id);
    }
    let mut expected: Vec<(Vec<u8>, u32)> = ids.iter().enumerate().map(|(i, id)| (id.to_vec(), i as u32)).collect();
    expected.sort();
    for (k, a) in listed.iter().enumerate() {
        assert_eq!(a.id, expected[k].0);
        assert_eq!(a.neurons, vec![(expected[k].1, 0, 0, 1.0f32.to_bits())]);
    }
    assert_eq!(d.decode_type_11_data(&buffer).unwrap().total_neurons, 3000);
}

fn draw(x: u32, y: u32, z: u32) -> ([f32; 12], [f32; 4]) {
    let mut transform = [0.0f32; 12];
    transform[3] = x as f32;
    transform[7] = y as f32;
    transform[11] = z as f32;
    (transform, [1.0 - z as f32 / 8.0, 0.0, 0.0, 1.0])
}

#[test]
fn payload_is_drawn_neuron_by_neuron() {
    let d = FeagiDataDeserializer::new();
    let buffer = build(&[
        (b"c_bbbb", vec![(3, 0, 4, 3.0)]),
        (b"c_aaaa", vec![(1, 5, 0, 1.0), (2, 6, 8, 2.0)]),
    ]);
    for parallel in [false, true] {
        let out = d.process_neuron_visualization(&buffer, draw, 0, parallel, || 1234);
        assert!(out.success);
        assert_eq!(out.error, "");
        assert_eq!(out.neuron_count, 3);
        assert_eq!(out.processing_time_us, 1234);
        assert_eq!(out.transforms.len(), 36);
        assert_eq!(out.colors.len(), 12);
        let mut transforms = Vec::new();
        let mut colors = Vec::new();
        for at in [(1, 5, 0), (2, 6, 8), (3, 0, 4)] {
            let (t, c) = draw(at.0, at.1, at.2);
            transforms.extend_from_slice(&t);
            colors.extend_from_slice(&c);
        }
        assert_eq!(out.transforms, transforms);
        assert_eq!(out.colors, colors);
        assert_eq!(out.colors[0..4], [1.0, 0.0, 0.0, 1.0]);
        assert_eq!(out.colors[4..8], [0.0, 0.0, 0.0, 1.0]);
        assert_eq!(out.colors[8..12], [0.5, 0.0, 0.0, 1.0]);
        let two = d.process_neuron_visualization(&buffer, draw, 2, parallel, || 7);
        assert_eq!(two.neuron_count, 2);
        assert_eq!(two.transforms, transforms[..24].to_vec());
        assert_eq!(two.colors, colors[..8].to_vec());
        assert_eq!(two.processing_time_us, 7);
    }
}

#[test]
fn a_thousand_neurons_are_drawn_or_the_first_ten() {
    let d = FeagiDataDeserializer::new();
    let neurons: Vec<(u32, u32, u32, f32)> = (0..1000u32).map(|i| (i, 2 * i, 3 * i, 0.5)).collect();
    let buffer = build(&[(b"c_area", neurons)]);
    let all = d.process_neuron_visualization(&buffer, draw, 0, true, || 0);
    assert_eq!(all.neuron_count, 1000);
    assert_eq!(all.transforms.len(), 12_000);
    assert_eq!(all.colors.len(), 4_000);
    let ten = d.process_neuron_visualization(&buffer, draw, 10, true, || 0);
    assert_eq!(ten.neuron_count, 10);
    assert_eq!(ten.transforms, all.transforms[..120].to_vec());
    assert_eq!(ten.colors, all.colors[..40].to_vec());
    for k in 0..10 {
        assert_eq!(ten.transforms[12 * k + 3], k as f32);
        assert_eq!(ten.transforms[12 * k + 7], 2.0 * k as f32);
        assert_eq!(ten.transforms[12 * k + 11], 3.0 * k as f32);
    }
    assert_eq!(d.process_neuron_visualization(&buffer, draw, 0, false, || 0), all);
}

#[test]
fn a_payload_that_cannot_be_read_is_reported_without_a_drawing() {
    let d = FeagiDataDeserializer::new();
    let out = d.process_neuron_visualization(&[11, 1], draw, 0, true, || 55);
    assert!(!out.success);
    assert_eq!(out.neuron_count, 0);
    assert!(out.transforms.is_empty());
    assert!(out.colors.is_empty());
    assert_eq!(out.processing_time_us, 55);
    assert_eq!(out.error, "Deserialization error: Buffer too small for global header");
    let mut buffer = build(&[(b"c_area", vec![(1, 2, 3, 0.5)])]);
    buffer.pop();
    let out = d.process_neuron_visualization(&buffer, draw, 0, false, || 0);
    assert_eq!(out.error, "Deserialization error: Area c_area data range exceeds buffer");
    let rejected = build(&[(b"AREA01", vec![(1, 2, 3, 0.5)])]);
    let out = d.process_neuron_visualization(&rejected, draw, 0, false, || 0);
    assert!(!out.success);
    assert_eq!(out.neuron_count, 0);
    assert!(out.transforms.is_empty());
    assert!(out.error.starts_with("Deserialization error: "));
    assert!(out.error.len() > "Deserialization error: ".len());
    let e = d.select_neurons(&rejected, 0).unwrap_err();
    assert_eq!(d.describe(&rejected, &e), out.error);
    assert_eq!(
        d.describe(&[9, 9, 9, 9], &DeserializeError::Layout(DecodeError::BadType { found: 9 })),
        "Deserialization error: Invalid structure type: 9 (expected 11)"
    );
}
