//! The wire format: round trips, refusals and exact bytes.

use ue_renderer::{
    Codec, DataLayerRuntimeState, DataLayerState, DecodeError, EntityState, Event, PlayerInput,
    Quat, Reader, StreamingSource, StreamingState, StreamingTargetState, Transform, Vec3,
    WorldSnapshot, F32, F64, FLAG_LOCAL_PLAYER, FLAG_VISIBLE, WIRE_MAGIC_INPUT,
    WIRE_MAGIC_SNAPSHOT, WIRE_VERSION,
};

fn f(x: f32) -> F32 {
    F32::from_bits(x.to_bits())
}

fn d(x: f64) -> F64 {
    F64::from_bits(x.to_bits())
}

fn v(x: f32, y: f32, z: f32) -> Vec3 {
    Vec3::new(f(x), f(y), f(z))
}

fn q(x: f32, y: f32, z: f32, w: f32) -> Quat {
    Quat::new(f(x), f(y), f(z), f(w))
}

fn written<T: Codec>(value: &T) -> Vec<u8> {
    let mut out = Vec::new();
    value.write(&mut out);
    out
}

fn sample_snapshot() -> WorldSnapshot {
    WorldSnapshot {
        tick: 42,
        sim_time_s: d(1.5),
        entities: vec![
            EntityState {
                id: 1,
                archetype: 7,
                flags: FLAG_VISIBLE | FLAG_LOCAL_PLAYER,
                transform: Transform {
                    translation: v(10.0, -20.0, 30.0),
                    rotation: q(0.0, 0.0, 0.70710677, 0.70710677),
                    scale: v(1.0, 1.0, 1.0),
                },
                velocity: v(1.0, 0.0, 0.0),
                anim_state: 3,
                anim_play_rate: f(1.25),
            },
            EntityState {
                id: 2,
                archetype: 0,
                flags: FLAG_VISIBLE,
                transform: Transform::identity(),
                velocity: Vec3::zero(),
                anim_state: 0,
                anim_play_rate: f(1.0),
            },
        ],
        events: vec![
            Event::Spawn { id: 2, archetype: 0 },
            Event::OneShot { cue: 99, position: v(5.0, 5.0, 0.0) },
            Event::Despawn { id: 17 },
        ],
        streaming: StreamingState {
            sources: vec![StreamingSource {
                position: v(100.0, 200.0, 0.0),
                radius: f(5000.0),
                grid: 0,
                target: StreamingTargetState::Activated,
                priority: 200,
            }],
            data_layers: vec![DataLayerState {
                name: "Gameplay".to_string(),
                state: DataLayerRuntimeState::Activated,
            }],
        },
    }
}

#[test]
fn snapshot_roundtrip() {
    let snap = sample_snapshot();
    let bytes = snap.encode();
    let back = WorldSnapshot::decode(&bytes).expect("decode");
    assert_eq!(snap, back);
}

#[test]
fn input_roundtrip() {
    let input = PlayerInput {
        move_dir: v(0.0, 1.0, 0.0),
        yaw: f(0.5),
        pitch: f(-0.25),
        buttons: 0b1010,
    };
    let bytes = input.encode();
    assert_eq!(PlayerInput::decode(&bytes).expect("decode"), input);
}

#[test]
fn rejects_bad_frames() {
    assert_eq!(WorldSnapshot::decode(&[]), Err(DecodeError::UnexpectedEof));
    // Wrong magic (this is an input frame, not a snapshot).
    let input_bytes = PlayerInput::default().encode();
    assert_eq!(WorldSnapshot::decode(&input_bytes), Err(DecodeError::BadMagic));
    // Truncated body after a valid header.
    let mut truncated = WIRE_MAGIC_SNAPSHOT.to_vec();
    WIRE_VERSION.write(&mut truncated);
    0u16.write(&mut truncated);
    assert_eq!(WorldSnapshot::decode(&truncated), Err(DecodeError::UnexpectedEof));
}

#[test]
fn rejects_unsupported_version() {
    let mut bytes = WIRE_MAGIC_SNAPSHOT.to_vec();
    (WIRE_VERSION + 1).write(&mut bytes);
    0u16.write(&mut bytes);
    assert_eq!(
        WorldSnapshot::decode(&bytes),
        Err(DecodeError::UnsupportedVersion(WIRE_VERSION + 1))
    );
}

#[test]
fn magics_are_the_documented_letters() {
    assert_eq!(&WIRE_MAGIC_SNAPSHOT, b"UERS");
    assert_eq!(&WIRE_MAGIC_INPUT, b"UEPI");
    assert_eq!(WIRE_VERSION, 1);
    assert_eq!(FLAG_VISIBLE, 1 << 0);
    assert_eq!(FLAG_LOCAL_PLAYER, 1 << 1);
}

#[test]
fn input_bytes_are_laid_out_field_by_field() {
    let input = PlayerInput {
        move_dir: v(1.0, -2.0, 0.5),
        yaw: f(0.25),
        pitch: f(-0.0),
        buttons: 0x0403_0201,
    };
    let mut expected = b"UEPI".to_vec();
    expected.extend_from_slice(&[1, 0, 0, 0]);
    expected.extend_from_slice(&1.0f32.to_le_bytes());
    expected.extend_from_slice(&(-2.0f32).to_le_bytes());
    expected.extend_from_slice(&0.5f32.to_le_bytes());
    expected.extend_from_slice(&0.25f32.to_le_bytes());
    expected.extend_from_slice(&(-0.0f32).to_le_bytes());
    expected.extend_from_slice(&[1, 2, 3, 4]);
    assert_eq!(input.encode(), expected);
    assert_eq!(expected.len(), 32);
}

#[test]
fn snapshot_bytes_are_laid_out_field_by_field() {
    let snap = WorldSnapshot {
        tick: 0x0102,
        sim_time_s: d(1.5),
        entities: vec![],
        events: vec![Event::Despawn { id: 7 }],
        streaming: StreamingState {
            sources: vec![],
            data_layers: vec![DataLayerState {
                name: "Zä".to_string(),
                state: DataLayerRuntimeState::Loaded,
            }],
        },
    };
    let mut expected = b"UERS".to_vec();
    expected.extend_from_slice(&[1, 0, 0, 0]);
    expected.extend_from_slice(&[2, 1, 0, 0, 0, 0, 0, 0]);
    expected.extend_from_slice(&1.5f64.to_le_bytes());
    expected.extend_from_slice(&[0, 0, 0, 0]);
    expected.extend_from_slice(&[1, 0, 0, 0]);
    expected.extend_from_slice(&[1, 7, 0, 0, 0, 0, 0, 0, 0]);
    expected.extend_from_slice(&[0, 0, 0, 0]);
    expected.extend_from_slice(&[1, 0, 0, 0]);
    expected.extend_from_slice(&[3, 0, 0, 0, 0x5a, 0xc3, 0xa4]);
    expected.extend_from_slice(&[1]);
    assert_eq!(snap.encode(), expected);
    assert_eq!(WorldSnapshot::decode(&expected), Ok(snap));
}

#[test]
fn numbers_are_little_endian() {
    assert_eq!(written(&0xabu8), vec![0xab]);
    assert_eq!(written(&0x0102u16), vec![2, 1]);
    assert_eq!(written(&0x0102_0304u32), vec![4, 3, 2, 1]);
    assert_eq!(written(&0x0102_0304_0506_0708u64), vec![8, 7, 6, 5, 4, 3, 2, 1]);
    assert_eq!(written(&-2i32), vec![0xfe, 0xff, 0xff, 0xff]);
    assert_eq!(written(&i64::MIN), vec![0, 0, 0, 0, 0, 0, 0, 0x80]);
    assert_eq!(written(&f(1.0)), vec![0, 0, 0x80, 0x3f]);
    assert_eq!(written(&d(-2.0)), (-2.0f64).to_le_bytes().to_vec());
    for x in [0i32, 1, -1, i32::MIN, i32::MAX] {
        let bytes = written(&x);
        assert_eq!(bytes, x.to_le_bytes().to_vec());
        assert_eq!(i32::read(&mut Reader::new(&bytes)), Ok(x));
    }
    for x in [0i64, 1, -1, i64::MIN, i64::MAX] {
        let bytes = written(&x);
        assert_eq!(bytes, x.to_le_bytes().to_vec());
        assert_eq!(i64::read(&mut Reader::new(&bytes)), Ok(x));
    }
    assert_eq!(u64::read(&mut Reader::new(&[0xff; 8])), Ok(u64::MAX));
    assert_eq!(u16::read(&mut Reader::new(&[1])), Err(DecodeError::UnexpectedEof));
}

#[test]
fn every_cut_of_a_frame_is_an_unexpected_end() {
    let bytes = sample_snapshot().encode();
    for k in 0..bytes.len() {
        assert_eq!(WorldSnapshot::decode(&bytes[..k]), Err(DecodeError::UnexpectedEof));
    }
    let bytes = PlayerInput::default().encode();
    for k in 0..bytes.len() {
        assert_eq!(PlayerInput::decode(&bytes[..k]), Err(DecodeError::UnexpectedEof));
    }
}

#[test]
fn bytes_behind_a_message_are_left_aside() {
    let mut bytes = sample_snapshot().encode();
    bytes.extend_from_slice(&[9, 9, 9]);
    assert_eq!(WorldSnapshot::decode(&bytes), Ok(sample_snapshot()));
}

#[test]
fn flags_are_left_aside() {
    let mut bytes = sample_snapshot().encode();
    bytes[6] = 0xff;
    bytes[7] = 0x12;
    assert_eq!(WorldSnapshot::decode(&bytes), Ok(sample_snapshot()));
}

#[test]
fn messages_are_told_apart() {
    let snap = sample_snapshot().encode();
    assert_eq!(PlayerInput::decode(&snap), Err(DecodeError::BadMagic));
}

#[test]
fn decoding_and_encoding_again_gives_the_same_bytes() {
    let bytes = sample_snapshot().encode();
    let back = WorldSnapshot::decode(&bytes).expect("decode");
    assert_eq!(back.encode(), bytes);
    assert_eq!(back.clone().encode(), bytes);
}

#[test]
fn unknown_tags_are_refused() {
    assert_eq!(Event::read(&mut Reader::new(&[3, 0, 0])), Err(DecodeError::BadTag(3)));
    assert_eq!(
        StreamingTargetState::read(&mut Reader::new(&[2])),
        Err(DecodeError::BadTag(2))
    );
    assert_eq!(
        DataLayerRuntimeState::read(&mut Reader::new(&[255])),
        Err(DecodeError::BadTag(255))
    );
    assert_eq!(
        StreamingTargetState::read(&mut Reader::new(&[0])),
        Ok(StreamingTargetState::Loaded)
    );
    assert_eq!(
        DataLayerRuntimeState::read(&mut Reader::new(&[0])),
        Ok(DataLayerRuntimeState::Unloaded)
    );
}

#[test]
fn long_sequences_are_refused_by_their_count() {
    let mut bytes = Vec::new();
    8_000_001u32.write(&mut bytes);
    assert_eq!(
        Vec::<u8>::read(&mut Reader::new(&bytes)),
        Err(DecodeError::SequenceTooLong(8_000_001))
    );
    assert_eq!(
        String::read(&mut Reader::new(&bytes)),
        Err(DecodeError::SequenceTooLong(8_000_001))
    );
    // The largest count that is allowed is only an end of the buffer.
    let mut bytes = Vec::new();
    8_000_000u32.write(&mut bytes);
    assert_eq!(Vec::<u8>::read(&mut Reader::new(&bytes)), Err(DecodeError::UnexpectedEof));
    assert_eq!(String::read(&mut Reader::new(&bytes)), Err(DecodeError::UnexpectedEof));
}

#[test]
fn text_must_be_utf8() {
    let bytes = [2u8, 0, 0, 0, 0xc3, 0x28];
    assert_eq!(String::read(&mut Reader::new(&bytes)), Err(DecodeError::BadUtf8));
    let text = "Gameplay \u{1f600}".to_string();
    let bytes = written(&text);
    assert_eq!(bytes[..4], [13, 0, 0, 0]);
    assert_eq!(&bytes[4..], text.as_bytes());
    assert_eq!(String::read(&mut Reader::new(&bytes)), Ok(text));
}

#[test]
fn reader_counts_what_is_left() {
    let bytes = [1u8, 2, 3, 4, 5];
    let mut r = Reader::new(&bytes);
    assert_eq!(r.remaining(), 5);
    assert_eq!(r.take(2), Ok(&bytes[..2]));
    assert_eq!(r.remaining(), 3);
    assert_eq!(r.take(4), Err(DecodeError::UnexpectedEof));
    assert_eq!(r.take(usize::MAX), Err(DecodeError::UnexpectedEof));
    assert_eq!(r.remaining(), 3);
    // A failed read of several fields keeps what it consumed.
    let mut r = Reader::new(&bytes);
    assert_eq!(Vec3::read(&mut r), Err(DecodeError::UnexpectedEof));
    assert_eq!(r.remaining(), 1);
}

#[test]
fn pairs_are_one_value_after_another() {
    let bytes = written(&(0x0201u16, 9u8));
    assert_eq!(bytes, vec![1, 2, 9]);
    assert_eq!(<(u16, u8)>::read(&mut Reader::new(&bytes)), Ok((0x0201, 9)));
}

#[test]
fn errors_in_words() {
    assert_eq!(DecodeError::BadMagic.message(), "bad magic prefix");
    assert_eq!(DecodeError::UnsupportedVersion(207).message(), "unsupported wire version 207");
    assert_eq!(DecodeError::UnexpectedEof.message(), "unexpected end of buffer");
    assert_eq!(DecodeError::BadTag(0).message(), "invalid enum tag 0");
    assert_eq!(DecodeError::BadUtf8.message(), "invalid utf-8 in string");
    assert_eq!(
        DecodeError::SequenceTooLong(4294967295).message(),
        "sequence length 4294967295 exceeds limit"
    );
    assert_eq!(DecodeError::BadTag(9).clone(), DecodeError::BadTag(9));
}

#[test]
fn numbers_compare_as_ieee_numbers() {
    let samples = [
        0.0f32,
        -0.0,
        1.0,
        -1.0,
        1e-6,
        -1e-45,
        1e-45,
        f32::MIN_POSITIVE,
        f32::MAX,
        f32::MIN,
        f32::INFINITY,
        f32::NEG_INFINITY,
        f32::NAN,
        -f32::NAN,
        0.5,
        1.5,
    ];
    for a in samples {
        for b in samples {
            assert_eq!(f(a) == f(b), a == b);
            assert_eq!(f(a).lt(f(b)), a < b);
            assert_eq!(f(a).max(f(b)).to_bits(), (if a < b { b } else { a }).to_bits());
            assert_eq!(d(a as f64) == d(b as f64), a == b);
        }
        assert_eq!(f(a).neg().to_bits(), (-a).to_bits());
        assert_eq!(f(a).abs().to_bits(), a.abs().to_bits());
        assert_eq!(f(a).finite(), a.is_finite());
        assert_eq!(f(a).clamp_unit().to_bits(), a.clamp(0.0, 1.0).to_bits());
    }
    for bits in 0x3f7f_ff00u32..0x3f80_0100 {
        let near = (f32::from_bits(bits) - 1.0).abs() < 1e-5;
        assert_eq!(F32::from_bits(bits).close_to_one(), near);
    }
    for a in [0.0f32, -1.0, 2.0, f32::INFINITY, f32::NAN] {
        assert!(!f(a).close_to_one());
    }
    assert_eq!(F32::one().to_bits(), 1.0f32.to_bits());
    assert_eq!(F64::zero().to_bits(), 0);
}

#[test]
fn sizes_on_the_wire() {
    let snap = sample_snapshot();
    assert_eq!(written(&snap.entities[0]).len(), 74);
    assert_eq!(written(&snap.entities[0].transform).len(), 40);
    assert_eq!(written(&snap.entities[0].velocity).len(), 12);
    let events: Vec<usize> = snap.events.iter().map(|e| written(e).len()).collect();
    assert_eq!(events, vec![13, 17, 9]);
    assert_eq!(written(&snap.streaming.sources[0]).len(), 22);
}

#[test]
fn different_values_have_different_frames() {
    let snap = sample_snapshot();
    let mut other = sample_snapshot();
    other.streaming.data_layers[0].name.push('s');
    assert_ne!(snap.encode(), other.encode());
    assert_eq!(WorldSnapshot::decode(&other.encode()), Ok(other));
}
