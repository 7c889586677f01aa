use opl3_rs::{EchoEngine, Opl3Chip, Opl3Error, SilentEngine, NATIVE_RATE};

/// Frames of an `EchoEngine` hold the last register written, its value, the
/// tick number and the number of writes so far.
type Probe = EchoEngine;

fn chip(rate: u32) -> Opl3Chip<Probe> {
    Opl3Chip::new(rate).unwrap()
}

fn frame(c: &mut Opl3Chip<Probe>) -> [i16; 4] {
    let mut b = [0i16; 4];
    c.generate_4ch(&mut b).unwrap();
    b
}

#[test]
fn new_rejects_zero_rate() {
    assert_eq!(
        Opl3Chip::<Probe>::new(0).err(),
        Some(Opl3Error::InvalidConfiguration { sample_rate: 0 })
    );
}

#[test]
fn new_rejects_rate_too_low_to_resample() {
    assert!(Opl3Chip::<Probe>::new(48).is_err());
    assert!(Opl3Chip::<Probe>::new(49).is_ok());
}

#[test]
fn new_then_generate_succeeds_for_common_rates() {
    for rate in [8000u32, 22050, 44100, 48000, NATIVE_RATE, 96000, 192000, u32::MAX] {
        let mut c = chip(rate);
        assert_eq!(c.sample_rate(), rate);
        let mut b = [0i16; 4];
        assert_eq!(c.generate(&mut b), Ok(()));
        assert_eq!(c.generate_resampled(&mut b), Ok(()));
    }
}

#[test]
fn identical_calls_give_identical_output() {
    let run = || {
        let mut c = chip(44100);
        c.write_register(0x20, 0x01).unwrap();
        c.write_register_buffered(0xA0, 0x44).unwrap();
        c.write_register_buffered(0xB0, 0x32).unwrap();
        let mut out = vec![0i16; 64];
        c.generate_stream(&mut out).unwrap();
        let mut r = [0i16; 4];
        c.generate_4ch_resampled(&mut r).unwrap();
        out.extend_from_slice(&r);
        out
    };
    assert_eq!(run(), run());
}

#[test]
fn immediate_write_reaches_the_next_frame() {
    let mut c = chip(NATIVE_RATE);
    c.write_register(0x40, 0x10).unwrap();
    assert_eq!(frame(&mut c), [0x40, 0x10, 1, 1]);
    c.write_register(0x1B0, 0x20).unwrap();
    assert_eq!(frame(&mut c), [0x1B0, 0x20, 2, 2]);
}

#[test]
fn write_rejects_register_above_bank_one() {
    let mut c = chip(44100);
    assert_eq!(c.write_register(0x200, 1), Err(Opl3Error::InvalidRegister { reg: 0x200 }));
    assert_eq!(
        c.write_register_buffered(0xFFFF, 1),
        Err(Opl3Error::InvalidRegister { reg: 0xFFFF })
    );
    assert_eq!(c.pending_writes(), 0);
    assert_eq!(c.write_register(0x1FF, 1), Ok(()));
    assert_eq!(frame(&mut c), [0x1FF, 1, 1, 1]);
}

#[test]
fn buffered_writes_keep_order_and_spacing() {
    let mut c = chip(NATIVE_RATE);
    c.write_register_buffered(0x20, 1).unwrap();
    c.write_register_buffered(0x21, 2).unwrap();
    c.write_register_buffered(0x22, 3).unwrap();
    assert_eq!(c.pending_writes(), 3);
    let mut out = [0i16; 16];
    c.generate_stream(&mut out).unwrap();
    let frames: Vec<[i16; 2]> = out.chunks(2).map(|f| [f[0], f[1]]).collect();
    // Tick zero counts as the last write, so the first lands on tick 2 and
    // the rest follow two ticks apart.
    assert_eq!(
        frames,
        vec![[0, 0], [0, 0], [0x20, 1], [0x20, 1], [0x21, 2], [0x21, 2], [0x22, 3], [0x22, 3]]
    );
    assert_eq!(c.pending_writes(), 0);
}

#[test]
fn buffered_writes_are_not_applied_without_generation() {
    let mut c = chip(44100);
    for i in 0..10u16 {
        c.write_register_buffered(i, i as u8).unwrap();
    }
    assert_eq!(c.pending_writes(), 10);
}

#[test]
fn buffered_write_after_idle_lands_on_next_tick() {
    let mut c = chip(NATIVE_RATE);
    let mut out = [0i16; 10];
    c.generate_stream(&mut out).unwrap();
    c.write_register_buffered(0x08, 0x40).unwrap();
    assert_eq!(frame(&mut c), [0x08, 0x40, 6, 1]);
}

#[test]
fn buffered_write_spacing_spans_generation_calls() {
    let mut c = chip(NATIVE_RATE);
    let mut out = [0i16; 6];
    c.generate_stream(&mut out).unwrap();
    c.write_register_buffered(0x01, 0x20).unwrap();
    c.write_register_buffered(0x02, 0x30).unwrap();
    assert_eq!(frame(&mut c), [0x01, 0x20, 4, 1]);
    assert_eq!(frame(&mut c), [0x01, 0x20, 5, 1]);
    assert_eq!(frame(&mut c), [0x02, 0x30, 6, 2]);
}

#[test]
fn generate_requires_four_samples() {
    for len in 0..4usize {
        let mut c = chip(44100);
        let mut b = vec![7i16; len];
        assert_eq!(c.generate(&mut b), Err(Opl3Error::BufferTooSmall { len, required: 4 }));
        assert_eq!(c.generate_4ch(&mut b), Err(Opl3Error::BufferTooSmall { len, required: 4 }));
        assert_eq!(
            c.generate_resampled(&mut b),
            Err(Opl3Error::BufferTooSmall { len, required: 4 })
        );
        assert_eq!(
            c.generate_4ch_resampled(&mut b),
            Err(Opl3Error::BufferTooSmall { len, required: 4 })
        );
        assert!(b.iter().all(|&x| x == 7));
    }
    let mut c = chip(44100);
    let mut b = [0i16; 4];
    assert_eq!(c.generate(&mut b), Ok(()));
    assert_eq!(c.generate_4ch(&mut b), Ok(()));
}

#[test]
fn generate_fills_two_channels_and_generate_4ch_four() {
    let mut c = chip(NATIVE_RATE);
    c.write_register(0x43, 0x3F).unwrap();
    let mut b = [-1i16; 6];
    c.generate(&mut b).unwrap();
    assert_eq!(b, [0x43, 0x3F, -1, -1, -1, -1]);
    let mut b = [-1i16; 6];
    c.generate_4ch(&mut b).unwrap();
    assert_eq!(b, [0x43, 0x3F, 2, 1, -1, -1]);
}

#[test]
fn too_small_buffer_leaves_chip_unchanged() {
    let mut c = chip(NATIVE_RATE);
    c.write_register_buffered(0xB0, 0x32).unwrap();
    let mut small = [0i16; 3];
    assert_eq!(c.generate(&mut small), Err(Opl3Error::BufferTooSmall { len: 3, required: 4 }));
    assert_eq!(small, [0, 0, 0]);
    assert_eq!(c.pending_writes(), 1);
    // No tick was spent: the first good call renders tick 1.
    assert_eq!(frame(&mut c), [0, 0, 1, 0]);
}

#[test]
fn stream_fills_whole_frames() {
    let mut c = chip(NATIVE_RATE);
    c.write_register(0x05, 0x01).unwrap();
    let mut out = [9i16; 7];
    c.generate_stream(&mut out).unwrap();
    assert_eq!(out, [5, 1, 5, 1, 5, 1, 9]);
    // Three ticks were spent.
    assert_eq!(frame(&mut c)[2], 4);
}

#[test]
fn stream_rejects_buffer_without_room_for_a_frame() {
    let mut c = chip(44100);
    let mut empty: [i16; 0] = [];
    assert_eq!(
        c.generate_stream(&mut empty),
        Err(Opl3Error::BufferTooSmall { len: 0, required: 2 })
    );
    let mut one = [3i16; 1];
    assert_eq!(
        c.generate_stream(&mut one),
        Err(Opl3Error::BufferTooSmall { len: 1, required: 2 })
    );
    assert_eq!(one, [3]);
    let mut two = [0i16; 2];
    assert_eq!(c.generate_stream(&mut two), Ok(()));
}

#[test]
fn stream_4ch_rejects_mismatched_buffers() {
    let mut c = chip(44100);
    let mut a = [1i16; 8];
    let mut b = [2i16; 6];
    assert_eq!(
        c.generate_4ch_stream(&mut a, &mut b),
        Err(Opl3Error::BufferMismatch { first: 8, second: 6 })
    );
    assert_eq!(a, [1; 8]);
    assert_eq!(b, [2; 6]);
    let mut e: [i16; 0] = [];
    let mut one = [0i16; 1];
    assert_eq!(
        c.generate_4ch_stream(&mut e, &mut one),
        Err(Opl3Error::BufferMismatch { first: 0, second: 1 })
    );
    let mut one2 = [0i16; 1];
    assert_eq!(
        c.generate_4ch_stream(&mut one, &mut one2),
        Err(Opl3Error::BufferTooSmall { len: 1, required: 2 })
    );
}

#[test]
fn stream_4ch_fills_both_buffers_with_the_same_frames() {
    let mut c = chip(NATIVE_RATE);
    c.write_register(0x104, 0x11).unwrap();
    let mut a = [0i16; 6];
    let mut b = [0i16; 6];
    c.generate_4ch_stream(&mut a, &mut b).unwrap();
    assert_eq!(a, [0x104, 0x11, 0x104, 0x11, 0x104, 0x11]);
    assert_eq!(b, [1, 1, 2, 1, 3, 1]);
}

#[test]
fn resampled_at_native_rate_lags_one_frame() {
    let mut c = chip(NATIVE_RATE);
    let mut b = [0i16; 4];
    c.generate_4ch_resampled(&mut b).unwrap();
    // No native tick yet: the blend of two silent frames.
    assert_eq!(b, [0, 0, 0, 0]);
    c.generate_4ch_resampled(&mut b).unwrap();
    assert_eq!(b, [0, 0, 0, 0]);
    c.generate_4ch_resampled(&mut b).unwrap();
    assert_eq!(b, [0, 0, 1, 0]);
    c.generate_4ch_resampled(&mut b).unwrap();
    assert_eq!(b, [0, 0, 2, 0]);
}

#[test]
fn resampled_at_half_rate_takes_two_ticks_per_frame() {
    // 24858 Hz is half the native rate: a ratio of 512.
    let mut c = chip(24858);
    let mut b = [0i16; 4];
    c.generate_4ch_resampled(&mut b).unwrap();
    assert_eq!(b, [0, 0, 0, 0]);
    c.generate_4ch_resampled(&mut b).unwrap();
    // Two ticks: the blend sits on the older of frames 1 and 2.
    assert_eq!(b, [0, 0, 1, 0]);
    c.generate_4ch_resampled(&mut b).unwrap();
    assert_eq!(b, [0, 0, 3, 0]);
}

#[test]
fn resampled_interpolates_between_frames() {
    // 99432 Hz is twice the native rate: a ratio of 2048, half a tick per frame.
    let mut c = chip(99432);
    let mut b = [0i16; 4];
    let mut got = Vec::new();
    for _ in 0..6 {
        c.generate_4ch_resampled(&mut b).unwrap();
        got.push(b[2]);
    }
    assert_eq!(got, vec![0, 0, 0, 0, 1, 1]);
}

#[test]
fn resampled_2ch_touches_two_samples() {
    let mut c = chip(NATIVE_RATE);
    let mut b = [5i16; 4];
    c.generate_resampled(&mut b).unwrap();
    assert_eq!(b, [0, 0, 5, 5]);
}

#[test]
fn reset_discards_state() {
    let mut c = chip(44100);
    c.write_register_buffered(0x20, 1).unwrap();
    assert_eq!(c.reset(0), Err(Opl3Error::InvalidConfiguration { sample_rate: 0 }));
    assert_eq!(c.sample_rate(), 44100);
    assert_eq!(c.pending_writes(), 1);
    assert_eq!(c.reset(NATIVE_RATE), Ok(()));
    assert_eq!(c.sample_rate(), NATIVE_RATE);
    assert_eq!(c.pending_writes(), 0);
    assert_eq!(frame(&mut c), [0, 0, 1, 0]);
}

#[test]
fn silent_engine_renders_zeros() {
    let mut c: Opl3Chip<SilentEngine> = Opl3Chip::new(44100).unwrap();
    c.write_register(0xB0, 0x32).unwrap();
    c.write_register_buffered(0xA0, 0x44).unwrap();
    let mut b = [5i16; 8];
    c.generate_stream(&mut b).unwrap();
    assert_eq!(b, [0; 8]);
    assert_eq!(c.pending_writes(), 0);
}
