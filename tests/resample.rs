use nightcore::{
    deinterleave, frame_count, interleave, resample_channel, resample_interleaved, AudioError,
    Ratio,
};

fn lerp(a: f32, b: f32, f: u64, d: u64) -> f32 {
    let t = f as f32 / d as f32;
    a * (1.0 - t) + b * t
}

fn ratio(num: u64, den: u64) -> Ratio {
    Ratio::new(num, den).unwrap()
}

#[test]
fn halves_stereo_at_ratio_two() {
    let input = vec![1.0f32, 1.0, 0.5, 0.5, 0.0, 0.0, -0.5, -0.5];
    let out = resample_interleaved(&input, 2, ratio(2, 1), &lerp).unwrap();
    assert_eq!(out, vec![1.0f32, 1.0, 0.0, 0.0]);
}

#[test]
fn unit_ratio_returns_input_unchanged() {
    let input = vec![1.0f32, 1.0, 0.5, 0.5, 0.0, 0.0, -0.5, -0.5];
    let out = resample_interleaved(&input, 2, ratio(1, 1), &lerp).unwrap();
    assert_eq!(out, input);
    let bits_in: Vec<u32> = input.iter().map(|s| s.to_bits()).collect();
    let bits_out: Vec<u32> = out.iter().map(|s| s.to_bits()).collect();
    assert_eq!(bits_in, bits_out);
}

#[test]
fn unit_ratio_with_large_parts_is_identity() {
    let input = vec![0.25f32, -0.75, 0.125];
    let out = resample_interleaved(&input, 1, ratio(65536, 65536), &lerp).unwrap();
    assert_eq!(out, input);
}

#[test]
fn single_channel_one_and_a_half() {
    let input = vec![0.0f32, 2.0, 0.0];
    let out = resample_interleaved(&input, 1, ratio(3, 2), &lerp).unwrap();
    assert_eq!(out, vec![0.0f32, 1.0]);
}

#[test]
fn resample_channel_interpolates_between_neighbours() {
    let ch = vec![0.0f32, 4.0, 8.0, 12.0];
    let out = resample_channel(&ch, ratio(3, 4), &lerp);
    assert_eq!(out.len(), 5);
    assert_eq!(out, vec![0.0f32, 3.0, 6.0, 9.0, 12.0]);
}

#[test]
fn last_frame_is_held_when_no_right_neighbour() {
    let ch = vec![5.0f32, 7.0];
    let out = resample_channel(&ch, ratio(1, 2), &lerp);
    assert_eq!(out, vec![5.0f32, 6.0, 7.0, 7.0]);
}

#[test]
fn empty_input_gives_empty_output() {
    let input: Vec<f32> = Vec::new();
    for (n, d) in [(3u64, 2u64), (1, 4), (4, 1), (1, 1)] {
        let out = resample_interleaved(&input, 2, ratio(n, d), &lerp).unwrap();
        assert!(out.is_empty());
    }
}

#[test]
fn output_length_is_floor_of_frames_over_ratio() {
    let input: Vec<f32> = (0..20).map(|k| k as f32).collect();
    let cases = [(1u64, 4u64, 40usize), (1, 2, 20), (3, 2, 6), (4, 1, 2), (7, 3, 4), (1, 1, 10)];
    for (n, d, frames) in cases {
        let out = resample_interleaved(&input, 2, ratio(n, d), &lerp).unwrap();
        assert_eq!(out.len(), frames * 2);
    }
}

#[test]
fn faster_tempo_never_lengthens_output() {
    let input: Vec<f32> = (0..200).map(|k| (k % 7) as f32 / 7.0).collect();
    let pitch = ratio(3, 2);
    let tempos = [(1u64, 2u64), (3, 4), (1, 1), (5, 4), (3, 2), (2, 1)];
    let mut last = usize::MAX;
    for (n, d) in tempos {
        let r = Ratio::combined(ratio(n, d), pitch).unwrap();
        let len = resample_interleaved(&input, 2, r, &lerp).unwrap().len();
        assert!(len <= last);
        last = len;
    }
}

#[test]
fn combined_ratio_multiplies_parts() {
    let r = Ratio::combined(ratio(3, 2), ratio(5, 7)).unwrap();
    assert_eq!(r, Ratio { num: 15, den: 14 });
    assert_eq!(r.frames_after(14), 13);
}

#[test]
fn combined_ratio_rejects_zero_part() {
    let zero = Ratio { num: 0, den: 1 };
    assert_eq!(Ratio::combined(zero, ratio(1, 1)), Err(AudioError::InvalidRatio));
    assert_eq!(Ratio::combined(ratio(1, 1), Ratio { num: 2, den: 0 }), Err(AudioError::InvalidRatio));
}

#[test]
fn ratio_new_rejects_zero_parts() {
    assert_eq!(Ratio::new(0, 3), Err(AudioError::InvalidRatio));
    assert_eq!(Ratio::new(3, 0), Err(AudioError::InvalidRatio));
    assert_eq!(Ratio::new(3, 4), Ok(Ratio { num: 3, den: 4 }));
    assert!(Ratio::unit().is_identity());
    assert!(!ratio(3, 4).is_identity());
}

#[test]
fn odd_length_stereo_is_malformed() {
    let input = vec![0.1f32, 0.2, 0.3];
    assert_eq!(resample_interleaved(&input, 2, ratio(2, 1), &lerp), Err(AudioError::MalformedAudio));
    assert_eq!(resample_interleaved(&input, 0, ratio(2, 1), &lerp), Err(AudioError::MalformedAudio));
    assert_eq!(frame_count(3, 2), Err(AudioError::MalformedAudio));
    assert_eq!(frame_count(8, 2), Ok(4));
}

#[test]
fn non_positive_ratio_is_rejected() {
    let input = vec![0.1f32, 0.2];
    let zero = Ratio { num: 0, den: 1 };
    assert_eq!(resample_interleaved(&input, 2, zero, &lerp), Err(AudioError::InvalidRatio));
    let empty: Vec<f32> = Vec::new();
    assert_eq!(resample_interleaved(&empty, 2, zero, &lerp), Err(AudioError::InvalidRatio));
}

#[test]
fn deinterleave_then_interleave_round_trips() {
    let input: Vec<i32> = (0..12).collect();
    let chans = deinterleave(&input, 3);
    assert_eq!(chans, vec![vec![0, 3, 6, 9], vec![1, 4, 7, 10], vec![2, 5, 8, 11]]);
    assert_eq!(interleave(&chans, 4), input);
}

#[test]
fn resampled_output_deinterleaves_at_channel_count() {
    let input = vec![1.0f32, -1.0, 0.5, -0.5, 0.0, 0.0, -0.5, 0.5];
    let out = resample_interleaved(&input, 2, ratio(1, 2), &lerp).unwrap();
    let chans = deinterleave(&out, 2);
    assert_eq!(chans[0], vec![1.0f32, 0.75, 0.5, 0.25, 0.0, -0.25, -0.5, -0.5]);
    assert_eq!(chans[1], vec![-1.0f32, -0.75, -0.5, -0.25, 0.0, 0.25, 0.5, 0.5]);
    assert_eq!(interleave(&chans, 8), out);
}

#[test]
fn error_messages_differ() {
    let a = AudioError::Decode.message();
    let b = AudioError::InvalidRatio.message();
    let c = AudioError::MalformedAudio.message();
    assert!(!a.is_empty() && a != b && b != c && a != c);
}
