//! Tests of the bit stream, the cipher, and the message codec.
use cuboard::bitstream::{Biter, BiterMut};
use cuboard::cipher::{DeviceError, GanCubeV2Cipher};
use cuboard::codec::{MessageParseError, RequestMessage, ResponseMessage};
use cuboard::cube::{Corner, CubeMove, CubeState, Edge};

fn fixture_cipher() -> GanCubeV2Cipher {
    let data: Vec<u8> = vec![9, 9, 9, 200, 200, 200, 200, 200, 200];
    GanCubeV2Cipher::make_cipher(Some(&data)).unwrap()
}

#[test]
fn bit_extract_is_big_endian() {
    let data: Vec<u8> = vec![0b1011_0001, 0b1100_0000];
    let mut biter = Biter::new(data);
    assert_eq!(biter.extract(4), 0b1011);
    assert_eq!(biter.extract(6), 0b000111);
    biter.reset();
    assert_eq!(biter.extract(8), 0b1011_0001);
    biter.skip(1);
    assert_eq!(biter.extract(3), 0b100);
}

#[test]
fn bit_assign_mirrors_extract() {
    let data: Vec<u8> = vec![0u8; 4];
    let mut w = BiterMut::new(data);
    w.assign(4, 0b1011);
    w.assign(7, 0b0110011);
    w.assign(16, 0xBEEF);
    let written = w.into_data();
    let mut r = Biter::new(written);
    assert_eq!(r.extract(4), 0b1011);
    assert_eq!(r.extract(7), 0b0110011);
    assert_eq!(r.extract(16), 0xBEEF);
    assert_eq!(r.extract(5), 0);
}

#[test]
fn bit_assign_keeps_neighbors() {
    let data: Vec<u8> = vec![0xFF, 0x00];
    let mut w = BiterMut::new(data);
    w.skip(4);
    w.assign(4, 0);
    let written = w.into_data();
    assert_eq!(written, vec![0xF0, 0x00]);
}

#[test]
fn cipher_key_derivation_fixture() {
    let c = fixture_cipher();
    assert_eq!(
        c.key_bytes(),
        vec![201u8, 202, 11, 240, 249, 90, 22, 7, 32, 5, 24, 84, 66, 17, 18, 83],
    );
    assert_eq!(
        c.iv_bytes(),
        vec![217u8, 203, 250, 240, 233, 201, 118, 39, 32, 149, 120, 20, 50, 18, 2, 67],
    );
}

#[test]
fn cipher_rejects_bad_identifiers() {
    assert_eq!(
        GanCubeV2Cipher::make_cipher(None).unwrap_err(),
        DeviceError::NoDeviceIdentifier,
    );
    let short: Vec<u8> = vec![1, 2, 3];
    assert_eq!(
        GanCubeV2Cipher::make_cipher(Some(&short)).unwrap_err(),
        DeviceError::InvalidDeviceIdentifier,
    );
}

#[test]
fn cipher_round_trip() {
    let c = fixture_cipher();
    let plain: Vec<u8> = (0u8..20).collect();
    let mut frame = plain.clone();
    c.encrypt(&mut frame);
    // the cipher must actually transform the frame
    assert_ne!(frame, plain);
    c.decrypt(&mut frame);
    assert_eq!(frame, plain);
}

#[test]
fn encode_round_trips_through_the_cipher() {
    let c = fixture_cipher();
    for msg in [
        RequestMessage::RequestCubeState,
        RequestMessage::RequestBatteryState,
        RequestMessage::ResetCubeState(CubeState::default()),
    ] {
        let encoded = msg.encode(&c);
        assert_eq!(encoded.len(), 20);
        let mut twice = encoded.clone();
        c.decrypt(&mut twice);
        c.encrypt(&mut twice);
        assert_eq!(twice, encoded);
    }
}

#[test]
fn encode_request_opcodes() {
    let c = fixture_cipher();
    let mut state_req = RequestMessage::RequestCubeState.encode(&c);
    c.decrypt(&mut state_req);
    assert_eq!(state_req[0], 0x04);
    assert_eq!(&state_req[1..], &[0u8; 19]);
    let mut battery_req = RequestMessage::RequestBatteryState.encode(&c);
    c.decrypt(&mut battery_req);
    assert_eq!(battery_req[0], 0x09);
}

#[test]
fn encode_reset_writes_the_full_state() {
    let c = fixture_cipher();
    let mut frame = RequestMessage::ResetCubeState(CubeState::default()).encode(&c);
    c.decrypt(&mut frame);
    let mut r = Biter::new(frame);
    assert_eq!(r.extract(8), 0x0A);
    for i in 0..8 {
        assert_eq!(r.extract(3), i);
    }
    for _ in 0..8 {
        assert_eq!(r.extract(2), 0);
    }
    for i in 0..12 {
        assert_eq!(r.extract(4), i);
    }
    for _ in 0..12 {
        assert_eq!(r.extract(1), 0);
    }
    // zero padding to the end of the frame
    for _ in 0..52 {
        assert_eq!(r.extract(1), 0);
    }
}

fn encrypted_frame(c: &GanCubeV2Cipher, build: impl FnOnce(&mut BiterMut)) -> Vec<u8> {
    let mut w = BiterMut::new(vec![0u8; 20]);
    build(&mut w);
    let mut frame = w.into_data();
    c.encrypt(&mut frame);
    frame
}

#[test]
fn decode_rejects_wrong_lengths() {
    let c = fixture_cipher();
    let short: Vec<u8> = vec![0u8; 19];
    match ResponseMessage::decode(&short, &c) {
        Err(MessageParseError::BadMessageLength(n)) => assert_eq!(n, 19),
        other => panic!("unexpected result: {:?}", other),
    }
}

#[test]
fn decode_rejects_unknown_tags() {
    let c = fixture_cipher();
    let frame = encrypted_frame(&c, |w| w.assign(4, 0b0011));
    match ResponseMessage::decode(&frame, &c) {
        Err(MessageParseError::UnrecognizedMessage(raw)) => {
            assert_eq!(raw.len(), 20);
            assert_eq!(raw[0] >> 4, 0b0011);
        },
        other => panic!("unexpected result: {:?}", other),
    }
}

#[test]
fn decode_moves_frame() {
    let c = fixture_cipher();
    let frame = encrypted_frame(&c, |w| {
        w.assign(4, 0b0010);
        w.assign(8, 42);
        // 7 move slots, most recent first; 31 is an unknown code
        for code in [0u32, 3, 11, 31, 2, 4, 7] {
            w.assign(5, code);
        }
        for ms in [10u32, 20, 30, 40, 50, 60, 70] {
            w.assign(16, ms);
        }
    });
    match ResponseMessage::decode(&frame, &c) {
        Ok(ResponseMessage::Moves { count, moves, times }) => {
            assert_eq!(count, 42);
            assert_eq!(
                moves,
                vec![
                    Some(CubeMove::U),
                    Some(CubeMove::Rp),
                    Some(CubeMove::Bp),
                    None,
                    Some(CubeMove::R),
                    Some(CubeMove::F),
                    Some(CubeMove::Dp),
                ],
            );
            assert_eq!(times, vec![10, 20, 30, 40, 50, 60, 70]);
        },
        other => panic!("unexpected result: {:?}", other),
    }
}

#[test]
fn decode_state_reconstructs_the_missing_pieces() {
    let c = fixture_cipher();
    let frame = encrypted_frame(&c, |w| {
        w.assign(4, 0b0100);
        w.assign(8, 7);
        // 7 of 8 corner positions; slot 0 is missing
        for p in [1u32, 2, 3, 4, 5, 6, 7] {
            w.assign(3, p);
        }
        // twists sum to 3, so the reconstructed twist is 0
        for o in [1u32, 1, 1, 0, 0, 0, 0] {
            w.assign(2, o);
        }
        // 11 of 12 edge positions; slot 11 is missing
        for p in 0u32..11 {
            w.assign(4, p);
        }
        // flips sum to 1, so the reconstructed flip is 1
        w.assign(1, 1);
        for _ in 0..10 {
            w.assign(1, 0);
        }
    });
    match ResponseMessage::decode(&frame, &c) {
        Ok(ResponseMessage::State { count, state }) => {
            assert_eq!(count, 7);
            let pos: Vec<u8> = state.corners.iter().map(|c| c.0.repr()).collect();
            assert_eq!(pos, vec![1, 2, 3, 4, 5, 6, 7, 0]);
            let ori: Vec<u8> = state.corners.iter().map(|c| c.1.repr()).collect();
            assert_eq!(ori, vec![1, 1, 1, 0, 0, 0, 0, 0]);
            let epos: Vec<u8> = state.edges.iter().map(|e| e.0.repr()).collect();
            assert_eq!(epos, vec![0, 1, 2, 3, 4, 5, 6, 7, 8, 9, 10, 11]);
            let eori: Vec<u8> = state.edges.iter().map(|e| e.1.repr()).collect();
            assert_eq!(eori, vec![1, 0, 0, 0, 0, 0, 0, 0, 0, 0, 0, 1]);
            // the invariants of a reconstructed state
            let mut seen = [false; 8];
            for corner in &state.corners {
                seen[corner.0.repr() as usize] = true;
            }
            assert!(seen.iter().all(|&s| s));
            let twist: u32 = state.corners.iter().map(|c| c.1.repr() as u32).sum();
            assert_eq!(twist % 3, 0);
            let flip: u32 = state.edges.iter().map(|e| e.1.repr() as u32).sum();
            assert_eq!(flip % 2, 0);
        },
        other => panic!("unexpected result: {:?}", other),
    }
}

#[test]
fn decode_state_rejects_inconsistent_payloads() {
    let c = fixture_cipher();
    // two corners claim the same slot
    let frame = encrypted_frame(&c, |w| {
        w.assign(4, 0b0100);
        w.assign(8, 0);
        for p in [1u32, 1, 3, 4, 5, 6, 7] {
            w.assign(3, p);
        }
    });
    assert!(matches!(
        ResponseMessage::decode(&frame, &c),
        Err(MessageParseError::UnrecognizedMessage(_)),
    ));
    // a corner twist out of range
    let frame2 = encrypted_frame(&c, |w| {
        w.assign(4, 0b0100);
        w.assign(8, 0);
        for p in [1u32, 2, 3, 4, 5, 6, 7] {
            w.assign(3, p);
        }
        w.assign(2, 3);
    });
    assert!(matches!(
        ResponseMessage::decode(&frame2, &c),
        Err(MessageParseError::UnrecognizedMessage(_)),
    ));
    // an edge slot out of range
    let frame3 = encrypted_frame(&c, |w| {
        w.assign(4, 0b0100);
        w.assign(8, 0);
        for p in [1u32, 2, 3, 4, 5, 6, 7] {
            w.assign(3, p);
        }
        for _ in 0..7 {
            w.assign(2, 0);
        }
        w.assign(4, 13);
    });
    assert!(matches!(
        ResponseMessage::decode(&frame3, &c),
        Err(MessageParseError::UnrecognizedMessage(_)),
    ));
}

#[test]
fn decode_battery_frame() {
    let c = fixture_cipher();
    let frame = encrypted_frame(&c, |w| {
        w.assign(4, 0b1001);
        w.assign(4, 1);
        w.assign(8, 85);
    });
    match ResponseMessage::decode(&frame, &c) {
        Ok(ResponseMessage::Battery { charging, percentage }) => {
            assert!(charging);
            assert_eq!(percentage, 85);
        },
        other => panic!("unexpected result: {:?}", other),
    }
}

#[test]
fn decode_disconnect_frame() {
    let c = fixture_cipher();
    let frame = encrypted_frame(&c, |w| w.assign(4, 0b1101));
    let msg = ResponseMessage::decode(&frame, &c).unwrap();
    assert_eq!(msg, ResponseMessage::Disconnect);
    assert!(msg.is_disconnect());
}

#[test]
fn decode_gyroscope_sign_magnitude() {
    let c = fixture_cipher();
    let frame = encrypted_frame(&c, |w| {
        w.assign(4, 0b0001);
        // first quaternion: +5, -5, +32767, -0
        w.assign(16, 5);
        w.assign(16, 0x8005);
        w.assign(16, 0x7FFF);
        w.assign(16, 0x8000);
        // first rate vector: +3, -2, +7
        w.assign(4, 3);
        w.assign(4, 0b1010);
        w.assign(4, 7);
    });
    match ResponseMessage::decode(&frame, &c) {
        Ok(ResponseMessage::Gyroscope { q1, q1p, q2, q2p }) => {
            assert_eq!(q1, (5, -5, 32767, 0));
            assert_eq!(q1p, (3, -2, 7));
            assert_eq!(q2, (0, 0, 0, 0));
            assert_eq!(q2p, (0, 0, 0));
        },
        other => panic!("unexpected result: {:?}", other),
    }
}

#[test]
fn state_pieces_validate_their_ranges() {
    assert!(Corner::try_from_reprs(7, 2).is_some());
    assert!(Corner::try_from_reprs(8, 0).is_none());
    assert!(Corner::try_from_reprs(0, 3).is_none());
    assert!(Edge::try_from_reprs(11, 1).is_some());
    assert!(Edge::try_from_reprs(12, 0).is_none());
    assert!(Edge::try_from_reprs(0, 2).is_none());
}
