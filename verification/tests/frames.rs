use num_complex::Complex;
use rail::error::RailError;
use rail::frames::{check_fft_input, check_iq_pairs, fft_shift, take_frame, EmitGate};
use rail::session::{AUDIO_CHUNK_SAMPLES, FFT_SIZE};

#[test]
fn take_frame_reuses_scratch_capacity() {
    let mut pending: Vec<Complex<f32>> =
        (0..FFT_SIZE * 3).map(|i| Complex::new(i as f32, 0.0)).collect();
    let mut scratch: Vec<Complex<f32>> = Vec::with_capacity(FFT_SIZE);
    let initial_cap = scratch.capacity();
    assert_eq!(initial_cap, FFT_SIZE);

    for _ in 0..3 {
        take_frame(&mut pending, &mut scratch, FFT_SIZE);
        assert_eq!(scratch.len(), FFT_SIZE);
        assert_eq!(
            scratch.capacity(),
            initial_cap,
            "frame_buf must be reused, not reallocated"
        );
    }
    assert!(pending.is_empty());
}

#[test]
fn take_frame_reuses_audio_scratch_capacity() {
    let mut pending: Vec<f32> = (0..AUDIO_CHUNK_SAMPLES * 2).map(|i| i as f32).collect();
    let mut scratch: Vec<f32> = Vec::with_capacity(AUDIO_CHUNK_SAMPLES);
    let initial_cap = scratch.capacity();

    for _ in 0..2 {
        take_frame(&mut pending, &mut scratch, AUDIO_CHUNK_SAMPLES);
        assert_eq!(scratch.len(), AUDIO_CHUNK_SAMPLES);
        assert_eq!(
            scratch.capacity(),
            initial_cap,
            "audio_frame_buf must be reused, not reallocated"
        );
    }
    assert!(pending.is_empty());
}

#[test]
fn take_frame_keeps_order_and_rest() {
    let mut pending = vec![1u32, 2, 3, 4, 5];
    let mut scratch = vec![9u32, 9, 9, 9, 9, 9];
    take_frame(&mut pending, &mut scratch, 2);
    assert_eq!(scratch, vec![1, 2]);
    assert_eq!(pending, vec![3, 4, 5]);
    take_frame(&mut pending, &mut scratch, 0);
    assert!(scratch.is_empty());
    assert_eq!(pending, vec![3, 4, 5]);
}

#[test]
fn shift_is_rotation() {
    let mut data = vec![1.0_f32, 2.0, 3.0, 4.0];
    fft_shift(&mut data);
    assert_eq!(data, vec![3.0, 4.0, 1.0, 2.0]);
}

#[test]
fn shift_odd_length_and_twice() {
    let mut odd = vec![1, 2, 3, 4, 5];
    fft_shift(&mut odd);
    assert_eq!(odd, vec![4, 5, 1, 2, 3]);
    let mut three = vec![0, 1, 2];
    fft_shift(&mut three);
    assert_eq!(three, vec![2, 0, 1]);
    let mut even = vec![1, 2, 3, 4, 5, 6];
    fft_shift(&mut even);
    fft_shift(&mut even);
    assert_eq!(even, vec![1, 2, 3, 4, 5, 6]);
    let mut empty: Vec<u8> = vec![];
    fft_shift(&mut empty);
    assert!(empty.is_empty());
}

#[test]
fn iq_pair_check() {
    assert!(check_iq_pairs(8, 4).is_ok());
    assert_eq!(
        check_iq_pairs(7, 4),
        Err(RailError::DspError(
            "IQ length mismatch: 7 bytes vs 4 complex samples".to_string()
        ))
    );
}

#[test]
fn fft_input_check() {
    assert!(check_fft_input(8192, 8192).is_ok());
    assert_eq!(
        check_fft_input(100, 8192),
        Err(RailError::DspError("FFT input length mismatch: 100 vs 8192".to_string()))
    );
}

#[test]
fn gate_spaces_events() {
    let mut g = EmitGate::new(40_000_000);
    assert!(g.ready(5));
    g.passed(5);
    assert!(!g.ready(5 + 39_999_999));
    assert!(g.ready(5 + 40_000_000));
    assert!(!g.ready(1));
}
