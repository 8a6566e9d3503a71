use gauss_gpu::{
    decode_le_words, decode_solution, is_finite_bits, is_zero_bits, le_bytes, Action, AugmentedMatrix,
    DecodeError, Fault, MatrixError, PushConstants, SolveDriver, SolveError, MAX_DIMENSION,
};

fn bits_rows(rows: &[&[f32]]) -> Vec<Vec<u32>> {
    rows.iter().map(|r| r.iter().map(|x| x.to_bits()).collect()).collect()
}

fn le_image(values: &[f32]) -> Vec<u8> {
    values.iter().flat_map(|x| x.to_le_bytes()).collect()
}

fn textbook_system() -> AugmentedMatrix {
    AugmentedMatrix::from_rows(bits_rows(&[
        &[2.0, 1.0, -1.0, 8.0],
        &[-3.0, -1.0, 2.0, -11.0],
        &[-2.0, 1.0, 2.0, -3.0],
    ]))
    .unwrap()
}

fn advance_to_read(driver: &mut SolveDriver) {
    while driver.next_action() != Action::ReadMapped {
        driver.advance(Ok(()));
    }
}

#[test]
fn decode_known_floats_exactly() {
    let values = [2.0f32, 3.0, -1.0, 0.1, -0.0, 1.0e-30];
    let words = decode_le_words(&le_image(&values)).unwrap();
    let decoded: Vec<f32> = words.iter().map(|w| f32::from_bits(*w)).collect();
    assert_eq!(decoded.len(), values.len());
    for (d, v) in decoded.iter().zip(values.iter()) {
        assert_eq!(d.to_bits(), v.to_bits());
    }
}

#[test]
fn decode_is_little_endian() {
    assert_eq!(decode_le_words(&[0x78, 0x56, 0x34, 0x12, 1, 0, 0, 0]).unwrap(), vec![0x1234_5678, 1]);
    assert_eq!(decode_le_words(&[]).unwrap(), Vec::<u32>::new());
}

#[test]
fn decode_rejects_partial_word() {
    assert_eq!(decode_le_words(&[1, 2, 3, 4, 5]), Err(DecodeError::TrailingBytes));
}

#[test]
fn bit_classification() {
    assert!(is_zero_bits(0.0f32.to_bits()));
    assert!(is_zero_bits((-0.0f32).to_bits()));
    assert!(!is_zero_bits(1.0e-40f32.to_bits()));
    assert!(is_finite_bits(f32::MAX.to_bits()));
    assert!(!is_finite_bits(f32::INFINITY.to_bits()));
    assert!(!is_finite_bits(f32::NEG_INFINITY.to_bits()));
    assert!(!is_finite_bits(f32::NAN.to_bits()));
}

#[test]
fn solution_decodes_expected_values() {
    let bytes = le_image(&[2.0, 3.0, -1.0]);
    let words = decode_solution(3, &bytes).unwrap();
    let x: Vec<f32> = words.iter().map(|w| f32::from_bits(*w)).collect();
    assert_eq!(x, vec![2.0, 3.0, -1.0]);
}

#[test]
fn solution_of_wrong_length_is_malformed() {
    assert_eq!(decode_solution(4, &le_image(&[1.0, 2.0, 3.0])), Err(SolveError::MalformedReadBack));
    assert_eq!(decode_solution(1, &[0, 0, 0]), Err(SolveError::MalformedReadBack));
}

#[test]
fn nan_in_solution_is_reported() {
    assert_eq!(decode_solution(2, &le_image(&[1.0, f32::NAN])), Err(SolveError::NonFiniteResult));
    assert_eq!(
        decode_solution(2, &le_image(&[f32::INFINITY, 1.0])),
        Err(SolveError::NonFiniteResult)
    );
}

#[test]
fn zero_first_pivot_is_reported() {
    let m = AugmentedMatrix::from_rows(bits_rows(&[&[0.0, 1.0, 1.0], &[1.0, 1.0, 2.0]])).unwrap();
    assert_eq!(m.validate(), Err(MatrixError::ZeroPivot));
}

#[test]
fn non_finite_entry_is_reported() {
    let m = AugmentedMatrix::from_rows(bits_rows(&[&[1.0, 1.0, f32::NAN], &[1.0, 0.0, 2.0]])).unwrap();
    assert_eq!(m.validate(), Err(MatrixError::NonFiniteEntry));
}

#[test]
fn shape_errors() {
    assert!(matches!(AugmentedMatrix::from_rows(vec![]), Err(MatrixError::Empty)));
    assert!(matches!(
        AugmentedMatrix::from_rows(bits_rows(&[&[1.0, 2.0, 3.0], &[1.0, 2.0]])),
        Err(MatrixError::RaggedRows)
    ));
    assert!(matches!(
        AugmentedMatrix::from_rows(bits_rows(&[&[1.0, 2.0]])).map(|m| m.dimension()),
        Ok(1)
    ));
    assert!(matches!(
        AugmentedMatrix::from_rows(vec![Vec::new(); MAX_DIMENSION + 1]),
        Err(MatrixError::TooLarge)
    ));
}

#[test]
fn textbook_system_is_accepted() {
    let m = textbook_system();
    assert_eq!(m.validate(), Ok(()));
    assert_eq!(m.dimension(), 3);
    assert_eq!(f32::from_bits(m.entry(1, 3)), -11.0);
    assert_eq!(f32::from_bits(m.entry(2, 0)), -2.0);
}

#[test]
fn row_major_layout_and_upload() {
    let m = textbook_system();
    let words = m.row_major_words();
    let expected: Vec<u32> = [2.0f32, 1.0, -1.0, 8.0, -3.0, -1.0, 2.0, -11.0, -2.0, 1.0, 2.0, -3.0]
        .iter()
        .map(|x| x.to_bits())
        .collect();
    assert_eq!(words, expected);
    let image: Vec<u8> = expected.iter().flat_map(|w| w.to_le_bytes()).collect();
    assert_eq!(m.upload_bytes(), image);
    assert_eq!(m.upload_bytes()[28..32], (-11.0f32).to_le_bytes());
    assert_eq!(m.solution_seed_bytes(), vec![0u8; 12]);
}

#[test]
fn push_constant_block() {
    let pc = PushConstants { pivot_row: 2, pivot_col: 7 };
    assert_eq!(pc.to_bytes(), vec![2, 0, 0, 0, 7, 0, 0, 0]);
    let wide = PushConstants { pivot_row: 0x0102_0304, pivot_col: 0xA0B0_C0D0 };
    assert_eq!(wide.to_bytes(), vec![4, 3, 2, 1, 0xD0, 0xC0, 0xB0, 0xA0]);
}

#[test]
fn schedule_runs_pivots_in_order() {
    let m = textbook_system();
    let mut d = SolveDriver::new(&m, 64);
    let mut seen = Vec::new();
    loop {
        let a = d.next_action();
        seen.push(a);
        if a == Action::ReadMapped {
            break;
        }
        d.advance(Ok(()));
    }
    let pivot = |k: u32| Action::Eliminate(PushConstants { pivot_row: k, pivot_col: k });
    assert_eq!(
        seen,
        vec![
            pivot(0),
            pivot(1),
            pivot(2),
            Action::BackSubstitute,
            Action::CopyToStaging,
            Action::MapStaging,
            Action::ReadMapped
        ]
    );
    assert_eq!(d.workgroup_count(), 1);
    assert_eq!(d.staging_size(), 12);
    assert_eq!(d.error(), None);
}

#[test]
fn single_unknown_schedule() {
    let m = AugmentedMatrix::from_rows(bits_rows(&[&[4.0, 2.0]])).unwrap();
    let mut d = SolveDriver::new(&m, 256);
    assert_eq!(d.next_action(), Action::Eliminate(PushConstants { pivot_row: 0, pivot_col: 0 }));
    d.advance(Ok(()));
    assert_eq!(d.next_action(), Action::BackSubstitute);
    advance_to_read(&mut d);
    let x = d.read_solution(&0.5f32.to_le_bytes()).unwrap();
    assert_eq!(f32::from_bits(x[0]), 0.5);
}

#[test]
fn workgroup_counts_round_up() {
    let rows: Vec<Vec<u32>> = vec![vec![0x3f80_0000; 131]; 130];
    let m = AugmentedMatrix::from_rows(rows).unwrap();
    assert_eq!(SolveDriver::new(&m, 64).workgroup_count(), 3);
    assert_eq!(SolveDriver::new(&m, 65).workgroup_count(), 2);
    assert_eq!(SolveDriver::new(&m, 1).workgroup_count(), 130);
}

#[test]
fn device_lost_mid_elimination_aborts() {
    let m = textbook_system();
    let mut d = SolveDriver::new(&m, 64);
    d.advance(Ok(()));
    d.advance(Err(Fault::DeviceLost));
    assert_eq!(d.error(), Some(SolveError::ComputationIncomplete { completed_steps: 1 }));
    assert_eq!(d.next_action(), Action::Halt);
}

#[test]
fn map_faults_are_told_apart() {
    let m = textbook_system();
    let faults = [
        (Fault::TimedOut, SolveError::MapTimedOut),
        (Fault::MapFailed, SolveError::MapFailed),
        (Fault::DeviceLost, SolveError::MapFailed),
        (Fault::Disconnected, SolveError::BackendDisconnected),
    ];
    for (fault, err) in faults {
        let mut d = SolveDriver::new(&m, 64);
        while d.next_action() != Action::MapStaging {
            d.advance(Ok(()));
        }
        d.advance(Err(fault));
        assert_eq!(d.error(), Some(err));
        assert_eq!(d.next_action(), Action::Halt);
    }
}

#[test]
fn lost_signal_during_dispatch_is_disconnection() {
    let m = textbook_system();
    let mut d = SolveDriver::new(&m, 64);
    d.advance(Err(Fault::Disconnected));
    assert_eq!(d.error(), Some(SolveError::BackendDisconnected));
}

#[test]
fn read_solution_reports_nan() {
    let m = textbook_system();
    let mut d = SolveDriver::new(&m, 64);
    advance_to_read(&mut d);
    assert_eq!(d.read_solution(&le_image(&[1.0, f32::NAN, 2.0])), Err(SolveError::NonFiniteResult));
    let x = d.read_solution(&le_image(&[2.0, 3.0, -1.0])).unwrap();
    assert_eq!(x, vec![2.0f32.to_bits(), 3.0f32.to_bits(), (-1.0f32).to_bits()]);
}

#[test]
fn le_bytes_round_trips_through_decode() {
    let words = vec![0u32, 1, 0x1234_5678, u32::MAX, 3.5f32.to_bits()];
    let bytes = le_bytes(&words);
    assert_eq!(&bytes[8..12], &[0x78, 0x56, 0x34, 0x12]);
    assert_eq!(decode_le_words(&bytes).unwrap(), words);
    assert_eq!(le_bytes(&[]), Vec::<u8>::new());
}

#[test]
fn solution_seed_is_zero() {
    let m = AugmentedMatrix::from_rows(bits_rows(&[&[4.0, 2.0]])).unwrap();
    assert_eq!(m.solution_seed_bytes(), vec![0u8; 4]);
    let x = decode_solution(1, &m.solution_seed_bytes()).unwrap();
    assert_eq!(f32::from_bits(x[0]), 0.0);
}
