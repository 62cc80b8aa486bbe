//! The typed message codec: a decrypted 20-byte frame is read into one of a
//! closed set of events (gyroscope sample, move burst, full state, battery,
//! disconnect), and outgoing requests are serialized and encrypted.
//!
//! The full-state frame carries only 7 of 8 corners and 11 of 12 edges; the
//! last piece is reconstructed as the missing position together with the
//! orientation that makes the total twist vanish.
use crate::bitstream::{bits_value, lemma_bits_value_bound, Biter, BiterMut};
use crate::cipher::{spec_decrypt_frame, spec_encrypt_frame, GanCubeV2Cipher};
use crate::cube::{Corner, CubeMove, CubeState, Edge};
use vstd::arithmetic::power2::{lemma2_to64, pow2};
use vstd::prelude::*;
use vstd::set_lib::lemma_len_subset;

verus! {

/// A frame that could not be decoded; the caller should drop it and go on.
#[derive(PartialEq, Eq, Debug)]
pub enum MessageParseError {
    /// The notification did not carry exactly 20 bytes.
    BadMessageLength(usize),
    /// The decrypted frame (carried for diagnostics) has an unknown type
    /// tag or an inconsistent full-state payload.
    UnrecognizedMessage(Vec<u8>),
}

/// One decoded notification. Gyroscope components are the signed
/// fixed-point numerators from the wire: quaternion components scale by
/// 2^15, rate components by 2^3.
#[derive(PartialEq, Eq, Debug)]
pub enum ResponseMessage {
    Gyroscope {
        q1: (i16, i16, i16, i16),
        q1p: (i8, i8, i8),
        q2: (i16, i16, i16, i16),
        q2p: (i8, i8, i8),
    },
    Moves { count: u8, moves: Vec<Option<CubeMove>>, times: Vec<u32> },
    State { count: u8, state: CubeState },
    Battery { charging: bool, percentage: u32 },
    Disconnect,
}

/// Sign-magnitude reading of a 16-bit field: the top bit carries the sign,
/// the rest the magnitude.
pub open spec fn spec_signed15(v: nat) -> int {
    if v >= 0x8000 {
        -((v - 0x8000) as int)
    } else {
        v as int
    }
}

/// Sign-magnitude reading of a 4-bit field.
pub open spec fn spec_signed3(v: nat) -> int {
    if v >= 8 {
        -((v - 8) as int)
    } else {
        v as int
    }
}

/// The type tag in the first 4 bits of a decrypted frame.
pub open spec fn frame_tag(f: Seq<u8>) -> nat {
    bits_value(f, 0, 4)
}

/// Corner position `i` (3 bits) of a full-state frame, `i < 7`.
pub open spec fn corner_pos_field(f: Seq<u8>, i: int) -> nat {
    bits_value(f, 12 + 3 * i, 3)
}

/// Corner orientation `i` (2 bits) of a full-state frame, `i < 7`.
pub open spec fn corner_ori_field(f: Seq<u8>, i: int) -> nat {
    bits_value(f, 33 + 2 * i, 2)
}

/// Edge position `i` (4 bits) of a full-state frame, `i < 11`.
pub open spec fn edge_pos_field(f: Seq<u8>, i: int) -> nat {
    bits_value(f, 47 + 4 * i, 4)
}

/// Edge orientation `i` (1 bit) of a full-state frame, `i < 11`.
pub open spec fn edge_ori_field(f: Seq<u8>, i: int) -> nat {
    bits_value(f, 91 + i, 1)
}

/// The sum of the first `n` transmitted corner orientations.
pub open spec fn corner_ori_field_sum(f: Seq<u8>, n: int) -> int
    decreases n,
{
    if n <= 0 {
        0
    } else {
        corner_ori_field_sum(f, n - 1) + corner_ori_field(f, n - 1)
    }
}

/// The sum of the first `n` transmitted edge orientations.
pub open spec fn edge_ori_field_sum(f: Seq<u8>, n: int) -> int
    decreases n,
{
    if n <= 0 {
        0
    } else {
        edge_ori_field_sum(f, n - 1) + edge_ori_field(f, n - 1)
    }
}

/// A full-state payload is consistent when the 7 transmitted corner
/// positions are distinct, every transmitted corner orientation is a valid
/// residue modulo 3, and the 11 transmitted edge positions are distinct
/// edge slots.
pub open spec fn state_frame_ok(f: Seq<u8>) -> bool {
    &&& forall|i: int, j: int| 0 <= i < j < 7 ==> corner_pos_field(f, i) != corner_pos_field(f, j)
    &&& forall|i: int| 0 <= i < 7 ==> corner_ori_field(f, i) < 3
    &&& forall|i: int| 0 <= i < 11 ==> edge_pos_field(f, i) < 12
    &&& forall|i: int, j: int| 0 <= i < j < 11 ==> edge_pos_field(f, i) != edge_pos_field(f, j)
}

/// A decrypted frame decodes successfully exactly when its tag is known
/// and, for a full-state frame, the payload is consistent.
pub open spec fn frame_ok(f: Seq<u8>) -> bool {
    ||| frame_tag(f) == 1
    ||| frame_tag(f) == 2
    ||| frame_tag(f) == 4 && state_frame_ok(f)
    ||| frame_tag(f) == 9
    ||| frame_tag(f) == 13
}

/// The positions of the 8 corners are a permutation of the 8 slots and the
/// total twist vanishes modulo 3; likewise for the 12 edges modulo 2.
pub open spec fn state_reconstructed(state: CubeState) -> bool {
    &&& state.wf()
    &&& forall|i: int, j: int|
        0 <= i < j < 8 ==> (#[trigger] state.corners@[i]).0 != (#[trigger] state.corners@[j]).0
    &&& forall|i: int, j: int|
        0 <= i < j < 12 ==> (#[trigger] state.edges@[i]).0 != (#[trigger] state.edges@[j]).0
    &&& corner_twist_total(state.corners@, 8) % 3 == 0
    &&& edge_flip_total(state.edges@, 12) % 2 == 0
}

/// The summed twist of the first `n` corners.
pub open spec fn corner_twist_total(cs: Seq<Corner>, n: int) -> int
    decreases n,
{
    if n <= 0 {
        0
    } else {
        corner_twist_total(cs, n - 1) + cs[n - 1].1.spec_repr()
    }
}

/// The summed flip of the first `n` edges.
pub open spec fn edge_flip_total(es: Seq<Edge>, n: int) -> int
    decreases n,
{
    if n <= 0 {
        0
    } else {
        edge_flip_total(es, n - 1) + es[n - 1].1.spec_repr()
    }
}

/// What each decoded message says of the decrypted frame it came from.
pub open spec fn msg_matches(f: Seq<u8>, msg: ResponseMessage) -> bool {
    match msg {
        ResponseMessage::Gyroscope { q1, q1p, q2, q2p } => {
            &&& frame_tag(f) == 1
            &&& q1.0 == spec_signed15(bits_value(f, 4, 16))
            &&& q1.1 == spec_signed15(bits_value(f, 20, 16))
            &&& q1.2 == spec_signed15(bits_value(f, 36, 16))
            &&& q1.3 == spec_signed15(bits_value(f, 52, 16))
            &&& q1p.0 == spec_signed3(bits_value(f, 68, 4))
            &&& q1p.1 == spec_signed3(bits_value(f, 72, 4))
            &&& q1p.2 == spec_signed3(bits_value(f, 76, 4))
            &&& q2.0 == spec_signed15(bits_value(f, 80, 16))
            &&& q2.1 == spec_signed15(bits_value(f, 96, 16))
            &&& q2.2 == spec_signed15(bits_value(f, 112, 16))
            &&& q2.3 == spec_signed15(bits_value(f, 128, 16))
            &&& q2p.0 == spec_signed3(bits_value(f, 144, 4))
            &&& q2p.1 == spec_signed3(bits_value(f, 148, 4))
            &&& q2p.2 == spec_signed3(bits_value(f, 152, 4))
        },
        ResponseMessage::Moves { count, moves, times } => {
            &&& frame_tag(f) == 2
            &&& count == bits_value(f, 4, 8)
            &&& moves@.len() == 7
            &&& times@.len() == 7
            &&& forall|i: int|
                0 <= i < 7 ==> moves@[i] == CubeMove::spec_from_repr(
                    bits_value(f, 12 + 5 * i, 5) as u8,
                )
            &&& forall|i: int| 0 <= i < 7 ==> times@[i] == bits_value(f, 47 + 16 * i, 16)
        },
        ResponseMessage::State { count, state } => {
            &&& frame_tag(f) == 4
            &&& count == bits_value(f, 4, 8)
            &&& state.wf()
            &&& forall|i: int|
                0 <= i < 7 ==> (#[trigger] state.corners@[i]).0.spec_repr() == corner_pos_field(
                    f,
                    i,
                )
            &&& forall|i: int|
                0 <= i < 7 ==> (#[trigger] state.corners@[i]).1.spec_repr() == corner_ori_field(
                    f,
                    i,
                )
            &&& forall|i: int|
                0 <= i < 7 ==> state.corners@[7].0.spec_repr() != corner_pos_field(f, i)
            &&& state.corners@[7].1.spec_repr() == (3 - corner_ori_field_sum(f, 7) % 3) % 3
            &&& forall|i: int|
                0 <= i < 11 ==> (#[trigger] state.edges@[i]).0.spec_repr() == edge_pos_field(f, i)
            &&& forall|i: int|
                0 <= i < 11 ==> (#[trigger] state.edges@[i]).1.spec_repr() == edge_ori_field(f, i)
            &&& forall|i: int|
                0 <= i < 11 ==> state.edges@[11].0.spec_repr() != edge_pos_field(f, i)
            &&& state.edges@[11].1.spec_repr() == (2 - edge_ori_field_sum(f, 11) % 2) % 2
            &&& state_reconstructed(state)
        },
        ResponseMessage::Battery { charging, percentage } => {
            &&& frame_tag(f) == 9
            &&& charging == (bits_value(f, 4, 4) != 0)
            &&& percentage == bits_value(f, 8, 8)
        },
        ResponseMessage::Disconnect => frame_tag(f) == 13,
    }
}

impl ResponseMessage {
    /// Decode one raw (still encrypted) notification. Exactly the frames of
    /// 20 bytes whose decryption satisfies `frame_ok` decode; anything else
    /// is returned as a typed error and never panics.
    pub fn decode(data: &Vec<u8>, cipher: &GanCubeV2Cipher) -> (r: Result<
        ResponseMessage,
        MessageParseError,
    >)
        requires
            cipher.wf(),
        ensures
            ({
                let f = spec_decrypt_frame(cipher.spec_key(), cipher.spec_iv(), data@);
                match r {
                    Ok(msg) => data@.len() == 20 && frame_ok(f) && msg_matches(f, msg),
                    Err(MessageParseError::BadMessageLength(n)) => n == data@.len() && data@.len()
                        != 20,
                    Err(MessageParseError::UnrecognizedMessage(raw)) => data@.len() == 20 && raw@
                        == f && !frame_ok(f),
                }
            }),
    {
        if data.len() != 20 {
            return Err(MessageParseError::BadMessageLength(data.len()));
        }
        let mut frame = copy_bytes(data);
        cipher.decrypt(&mut frame);
        let raw = copy_bytes(&frame);
        let ghost f = frame@;
        let mut biter = Biter::new(frame);
        proof {
            lemma_bits_value_bound(f, 0, 4);
            lemma2_to64();
        }
        let tag = biter.extract(4);
        if tag == 1 {
            Ok(Self::decode_gyroscope(&mut biter))
        } else if tag == 2 {
            Ok(Self::decode_cube_moves(&mut biter))
        } else if tag == 4 {
            Self::decode_cube_state(&mut biter, raw)
        } else if tag == 9 {
            Ok(Self::decode_battery_state(&mut biter))
        } else if tag == 13 {
            Ok(Self::decode_disconnect(&mut biter))
        } else {
            Err(MessageParseError::UnrecognizedMessage(raw))
        }
    }

    fn decode_gyroscope(biter: &mut Biter) -> (msg: ResponseMessage)
        requires
            old(biter).spec_data().len() == 20,
            old(biter).spec_index() == 4,
        ensures
            msg is Gyroscope,
            frame_tag(old(biter).spec_data()) == 1 ==> msg_matches(old(biter).spec_data(), msg),
    {
        let scalar = extract_signed15(biter);
        let red = extract_signed15(biter);
        let blue = extract_signed15(biter);
        let white = extract_signed15(biter);
        let redp = extract_signed3(biter);
        let bluep = extract_signed3(biter);
        let whitep = extract_signed3(biter);
        let q1 = (scalar, red, blue, white);
        let q1p = (redp, bluep, whitep);
        let scalar2 = extract_signed15(biter);
        let red2 = extract_signed15(biter);
        let blue2 = extract_signed15(biter);
        let white2 = extract_signed15(biter);
        let redp2 = extract_signed3(biter);
        let bluep2 = extract_signed3(biter);
        let whitep2 = extract_signed3(biter);
        let q2 = (scalar2, red2, blue2, white2);
        let q2p = (redp2, bluep2, whitep2);
        ResponseMessage::Gyroscope { q1, q1p, q2, q2p }
    }

    fn decode_cube_moves(biter: &mut Biter) -> (msg: ResponseMessage)
        requires
            old(biter).spec_data().len() == 20,
            old(biter).spec_index() == 4,
        ensures
            msg is Moves,
            frame_tag(old(biter).spec_data()) == 2 ==> msg_matches(old(biter).spec_data(), msg),
    {
        let ghost f = biter.spec_data();
        proof {
            lemma_bits_value_bound(f, 4, 8);
            lemma2_to64();
        }
        let count = biter.extract(8) as u8;
        let mut moves: Vec<Option<CubeMove>> = Vec::new();
        let mut i: usize = 0;
        while i < 7
            invariant
                i <= 7,
                f.len() == 20,
                biter.spec_data() == f,
                biter.spec_index() == 12 + 5 * i,
                moves@.len() == i,
                forall|j: int|
                    0 <= j < i ==> moves@[j] == CubeMove::spec_from_repr(
                        bits_value(f, 12 + 5 * j, 5) as u8,
                    ),
            decreases 7 - i,
        {
            proof {
                lemma_bits_value_bound(f, 12 + 5 * i, 5);
                lemma2_to64();
            }
            let code = biter.extract(5);
            moves.push(CubeMove::from_repr(code as u8));
            i = i + 1;
        }
        let mut times: Vec<u32> = Vec::new();
        let mut k: usize = 0;
        while k < 7
            invariant
                k <= 7,
                f.len() == 20,
                biter.spec_data() == f,
                biter.spec_index() == 47 + 16 * k,
                times@.len() == k,
                forall|j: int| 0 <= j < k ==> times@[j] == bits_value(f, 47 + 16 * j, 16),
            decreases 7 - k,
        {
            let t = biter.extract(16);
            times.push(t);
            k = k + 1;
        }
        ResponseMessage::Moves { count, moves, times }
    }

    fn decode_cube_state(biter: &mut Biter, raw: Vec<u8>) -> (r: Result<
        ResponseMessage,
        MessageParseError,
    >)
        requires
            old(biter).spec_data().len() == 20,
            old(biter).spec_index() == 4,
            raw@ == old(biter).spec_data(),
            frame_tag(old(biter).spec_data()) == 4,
        ensures
            ({
                let f = old(biter).spec_data();
                match r {
                    Ok(msg) => state_frame_ok(f) && msg_matches(f, msg) && msg is State,
                    Err(MessageParseError::UnrecognizedMessage(b)) => b@ == f && !state_frame_ok(
                        f,
                    ),
                    Err(_) => false,
                }
            }),
    {
        let ghost f = biter.spec_data();
        proof {
            lemma_bits_value_bound(f, 4, 8);
            lemma2_to64();
        }
        let count = biter.extract(8) as u8;

        // 7 of 8 corner positions, 3 bits each
        let mut cp: Vec<u8> = Vec::new();
        let mut i: usize = 0;
        while i < 7
            invariant
                i <= 7,
                f.len() == 20,
                biter.spec_data() == f,
                biter.spec_index() == 12 + 3 * i,
                raw@ == f,
                f == old(biter).spec_data(),
                cp@.len() == i,
                forall|j: int| 0 <= j < i ==> cp@[j] == corner_pos_field(f, j),
                forall|j: int| 0 <= j < i ==> cp@[j] < 8,
            decreases 7 - i,
        {
            proof {
                lemma_bits_value_bound(f, 12 + 3 * i, 3);
                lemma2_to64();
            }
            let v = biter.extract(3);
            cp.push(v as u8);
            i = i + 1;
        }
        if !all_distinct(&cp) {
            proof {
                assert(raw@ == old(biter).spec_data());
                let (a, b) = choose|a: int, b: int|
                    0 <= a < b < cp@.len() && cp@[a] == cp@[b];
                assert(corner_pos_field(f, a) == corner_pos_field(f, b));
            }
            return Err(MessageParseError::UnrecognizedMessage(raw));
        }
        let c_last = find_missing(&cp, 8);

        // 7 of 8 corner orientations, 2 bits each
        let mut co: Vec<u8> = Vec::new();
        let mut co_sum: u32 = 0;
        let mut i2: usize = 0;
        while i2 < 7
            invariant
                i2 <= 7,
                f.len() == 20,
                biter.spec_data() == f,
                biter.spec_index() == 33 + 2 * i2,
                raw@ == f,
                f == old(biter).spec_data(),
                co@.len() == i2,
                forall|j: int| 0 <= j < i2 ==> co@[j] == corner_ori_field(f, j),
                forall|j: int| 0 <= j < i2 ==> co@[j] < 3,
                co_sum == corner_ori_field_sum(f, i2 as int),
                co_sum <= 3 * i2,
            decreases 7 - i2,
        {
            proof {
                lemma_bits_value_bound(f, 33 + 2 * i2, 2);
                lemma2_to64();
            }
            let v = biter.extract(2);
            if v >= 3 {
                proof {
                    assert(corner_ori_field(f, i2 as int) >= 3);
                }
                return Err(MessageParseError::UnrecognizedMessage(raw));
            }
            co.push(v as u8);
            co_sum = co_sum + v;
            i2 = i2 + 1;
        }
        let co_last = ((3 - co_sum % 3) % 3) as u8;

        // 11 of 12 edge positions, 4 bits each
        let mut ep: Vec<u8> = Vec::new();
        let mut i3: usize = 0;
        while i3 < 11
            invariant
                i3 <= 11,
                f.len() == 20,
                biter.spec_data() == f,
                biter.spec_index() == 47 + 4 * i3,
                raw@ == f,
                f == old(biter).spec_data(),
                ep@.len() == i3,
                forall|j: int| 0 <= j < i3 ==> ep@[j] == edge_pos_field(f, j),
                forall|j: int| 0 <= j < i3 ==> ep@[j] < 12,
            decreases 11 - i3,
        {
            proof {
                lemma_bits_value_bound(f, 47 + 4 * i3, 4);
                lemma2_to64();
            }
            let v = biter.extract(4);
            if v >= 12 {
                proof {
                    assert(edge_pos_field(f, i3 as int) >= 12);
                }
                return Err(MessageParseError::UnrecognizedMessage(raw));
            }
            ep.push(v as u8);
            i3 = i3 + 1;
        }
        if !all_distinct(&ep) {
            proof {
                assert(raw@ == old(biter).spec_data());
                let (a, b) = choose|a: int, b: int|
                    0 <= a < b < ep@.len() && ep@[a] == ep@[b];
                assert(edge_pos_field(f, a) == edge_pos_field(f, b));
            }
            return Err(MessageParseError::UnrecognizedMessage(raw));
        }
        let e_last = find_missing(&ep, 12);

        // 11 of 12 edge orientations, 1 bit each
        let mut eo: Vec<u8> = Vec::new();
        let mut eo_sum: u32 = 0;
        let mut i4: usize = 0;
        while i4 < 11
            invariant
                i4 <= 11,
                f.len() == 20,
                biter.spec_data() == f,
                biter.spec_index() == 91 + i4,
                eo@.len() == i4,
                forall|j: int| 0 <= j < i4 ==> eo@[j] == edge_ori_field(f, j),
                forall|j: int| 0 <= j < i4 ==> eo@[j] < 2,
                eo_sum == edge_ori_field_sum(f, i4 as int),
                eo_sum <= i4,
            decreases 11 - i4,
        {
            proof {
                lemma_bits_value_bound(f, 91 + i4, 1);
                lemma2_to64();
            }
            let v = biter.extract(1);
            eo.push(v as u8);
            eo_sum = eo_sum + v;
            i4 = i4 + 1;
        }
        let eo_last = ((2 - eo_sum % 2) % 2) as u8;

        // assemble the state, the reconstructed pieces last
        let mut corners: Vec<Corner> = Vec::new();
        let mut k: usize = 0;
        while k < 8
            invariant
                k <= 8,
                cp@.len() == 7,
                co@.len() == 7,
                forall|j: int| 0 <= j < 7 ==> cp@[j] < 8 && co@[j] < 3,
                c_last < 8,
                co_last < 3,
                corners@.len() == k,
                forall|j: int|
                    0 <= j < k && j < 7 ==> (#[trigger] corners@[j]).0.spec_repr() == cp@[j]
                        && corners@[j].1.spec_repr() == co@[j] && corners@[j].wf(),
                k == 8 ==> corners@[7].0.spec_repr() == c_last && corners@[7].1.spec_repr()
                    == co_last && corners@[7].wf(),
            decreases 8 - k,
        {
            let pos = if k < 7 {
                cp[k]
            } else {
                c_last
            };
            let ori = if k < 7 {
                co[k]
            } else {
                co_last
            };
            let c = Corner::try_from_reprs(pos, ori);
            corners.push(c.unwrap());
            k = k + 1;
        }
        let mut edges: Vec<Edge> = Vec::new();
        let mut k2: usize = 0;
        while k2 < 12
            invariant
                k2 <= 12,
                ep@.len() == 11,
                eo@.len() == 11,
                forall|j: int| 0 <= j < 11 ==> ep@[j] < 12 && eo@[j] < 2,
                e_last < 12,
                eo_last < 2,
                edges@.len() == k2,
                forall|j: int|
                    0 <= j < k2 && j < 11 ==> (#[trigger] edges@[j]).0.spec_repr() == ep@[j]
                        && edges@[j].1.spec_repr() == eo@[j] && edges@[j].wf(),
                k2 == 12 ==> edges@[11].0.spec_repr() == e_last && edges@[11].1.spec_repr()
                    == eo_last && edges@[11].wf(),
            decreases 12 - k2,
        {
            let pos = if k2 < 11 {
                ep[k2]
            } else {
                e_last
            };
            let ori = if k2 < 11 {
                eo[k2]
            } else {
                eo_last
            };
            let e = Edge::try_from_reprs(pos, ori);
            edges.push(e.unwrap());
            k2 = k2 + 1;
        }
        let state = CubeState::new(corners, edges);
        proof {
            let cs = state.corners@;
            let es = state.edges@;
            // the reconstructed positions complete a permutation
            assert forall|a: int, b: int| 0 <= a < b < 8 implies cs[a].0 != cs[b].0 by {
                assert(cs[a].0.spec_repr() != cs[b].0.spec_repr());
            }
            assert forall|a: int, b: int| 0 <= a < b < 12 implies es[a].0 != es[b].0 by {
                assert(es[a].0.spec_repr() != es[b].0.spec_repr());
            }
            // the reconstructed orientations cancel the total twist
            assert(corner_twist_total(cs, 8) == corner_ori_field_sum(f, 7) + co_last) by {
                reveal_with_fuel(corner_twist_total, 9);
                reveal_with_fuel(corner_ori_field_sum, 8);
            }
            assert(corner_twist_total(cs, 8) % 3 == 0);
            assert(edge_flip_total(es, 12) == edge_ori_field_sum(f, 11) + eo_last) by {
                reveal_with_fuel(edge_flip_total, 13);
                reveal_with_fuel(edge_ori_field_sum, 12);
            }
            assert(edge_flip_total(es, 12) % 2 == 0);
        }
        Ok(ResponseMessage::State { count, state })
    }

    fn decode_battery_state(biter: &mut Biter) -> (msg: ResponseMessage)
        requires
            old(biter).spec_data().len() == 20,
            old(biter).spec_index() == 4,
        ensures
            msg is Battery,
            frame_tag(old(biter).spec_data()) == 9 ==> msg_matches(old(biter).spec_data(), msg),
    {
        let charging = biter.extract(4) != 0;
        let percentage = biter.extract(8);
        ResponseMessage::Battery { charging, percentage }
    }

    fn decode_disconnect(biter: &mut Biter) -> (msg: ResponseMessage)
        requires
            old(biter).spec_data().len() == 20,
            old(biter).spec_index() == 4,
        ensures
            msg is Disconnect,
            frame_tag(old(biter).spec_data()) == 13 ==> msg_matches(old(biter).spec_data(), msg),
    {
        ResponseMessage::Disconnect
    }

    /// Whether this event signals that the far end is closing the session:
    /// the notification-consuming loop must stop after it.
    pub fn is_disconnect(&self) -> (r: bool)
        ensures
            r == (*self is Disconnect),
    {
        match self {
            ResponseMessage::Disconnect => true,
            _ => false,
        }
    }
}

/// Read one 16-bit sign-magnitude field.
fn extract_signed15(biter: &mut Biter) -> (r: i16)
    requires
        old(biter).spec_data().len() == 20,
        old(biter).spec_index() + 16 <= 160,
    ensures
        final(biter).spec_data() == old(biter).spec_data(),
        final(biter).spec_index() == old(biter).spec_index() + 16,
        r as int == spec_signed15(
            bits_value(old(biter).spec_data(), old(biter).spec_index(), 16),
        ),
{
    proof {
        lemma_bits_value_bound(old(biter).spec_data(), old(biter).spec_index(), 16);
        lemma2_to64();
    }
    let v = biter.extract(16);
    if v >= 0x8000 {
        -((v - 0x8000) as u16 as i16)
    } else {
        v as u16 as i16
    }
}

/// Read one 4-bit sign-magnitude field.
fn extract_signed3(biter: &mut Biter) -> (r: i8)
    requires
        old(biter).spec_data().len() == 20,
        old(biter).spec_index() + 4 <= 160,
    ensures
        final(biter).spec_data() == old(biter).spec_data(),
        final(biter).spec_index() == old(biter).spec_index() + 4,
        r as int == spec_signed3(bits_value(old(biter).spec_data(), old(biter).spec_index(), 4)),
{
    proof {
        lemma_bits_value_bound(old(biter).spec_data(), old(biter).spec_index(), 4);
        lemma2_to64();
    }
    let v = biter.extract(4);
    if v >= 8 {
        -((v - 8) as u8 as i8)
    } else {
        v as u8 as i8
    }
}

/// A fresh copy of a byte vector.
fn copy_bytes(v: &Vec<u8>) -> (r: Vec<u8>)
    ensures
        r@ == v@,
{
    let mut r: Vec<u8> = Vec::new();
    let mut i: usize = 0;
    while i < v.len()
        invariant
            i <= v@.len(),
            r@ == v@.take(i as int),
        decreases v@.len() - i,
    {
        r.push(v[i]);
        assert(r@ =~= v@.take(i + 1));
        i = i + 1;
    }
    assert(r@ =~= v@);
    r
}

/// Whether all entries of `v` differ pairwise.
fn all_distinct(v: &Vec<u8>) -> (r: bool)
    ensures
        r == (forall|a: int, b: int| 0 <= a < b < v@.len() ==> v@[a] != v@[b]),
{
    let n = v.len();
    let mut a: usize = 0;
    while a < n
        invariant
            a <= n,
            n == v@.len(),
            forall|x: int, y: int| 0 <= x < y < v@.len() && x < a ==> v@[x] != v@[y],
        decreases n - a,
    {
        let mut b: usize = a + 1;
        while b < n
            invariant
                a < b || b == a + 1,
                a + 1 <= b <= n,
                n == v@.len(),
                a < n,
                forall|y: int| a < y < b ==> v@[a as int] != v@[y],
            decreases n - b,
        {
            if v[a] == v[b] {
                return false;
            }
            b = b + 1;
        }
        a = a + 1;
    }
    true
}

/// Whether `v` holds `x`.
fn contains_val(v: &Vec<u8>, x: u8) -> (r: bool)
    ensures
        r == v@.contains(x),
{
    let mut i: usize = 0;
    while i < v.len()
        invariant
            i <= v@.len(),
            forall|j: int| 0 <= j < i ==> v@[j] != x,
        decreases v@.len() - i,
    {
        if v[i] == x {
            assert(v@.contains(x));
            return true;
        }
        i = i + 1;
    }
    assert(!v@.contains(x));
    false
}

/// Fewer values than slots always leave a slot free.
proof fn lemma_missing_value(s: Seq<u8>, n: int)
    requires
        0 <= s.len() < n <= 256,
    ensures
        exists|x: u8| (x as int) < n && !s.contains(x),
{
    if forall|b: int| 0 <= b < n ==> #[trigger] s.contains(b as u8) {
        let si = s.map_values(|x: u8| x as int);
        let range = vstd::set_lib::set_int_range(0, n);
        assert forall|b: int| range.contains(b) implies si.to_set().contains(b) by {
            assert(s.contains(b as u8));
            let i = choose|i: int| 0 <= i < s.len() && s[i] == b as u8;
            assert(si[i] == b);
            assert(si.to_set().contains(si[i]));
        }
        assert(range.subset_of(si.to_set()));
        si.lemma_cardinality_of_set();
        vstd::set_lib::lemma_int_range(0, n);
        lemma_len_subset(range, si.to_set());
    } else {
        let b = choose|b: int| 0 <= b < n && !(#[trigger] s.contains(b as u8));
        assert((b as u8) as int == b);
        assert(((b as u8) as int) < n && !s.contains(b as u8));
    }
}

/// The smallest value in `[0, n)` that `v` does not hold. One always
/// exists while `v` has fewer than `n` entries.
fn find_missing(v: &Vec<u8>, n: u8) -> (r: u8)
    requires
        v@.len() < n,
    ensures
        r < n,
        !v@.contains(r),
{
    let mut a: u8 = 0;
    while a < n
        invariant
            a <= n,
            v@.len() < n,
            forall|b: int| 0 <= b < a ==> #[trigger] v@.contains(b as u8),
        decreases n - a,
    {
        if !contains_val(v, a) {
            return a;
        }
        a = a + 1;
    }
    proof {
        lemma_missing_value(v@, n as int);
        let x = choose|x: u8| (x as int) < n && !v@.contains(x);
        assert(v@.contains((x as int) as u8));
        assert(false);
    }
    0
}

/// An outgoing request to the device.
#[derive(PartialEq, Eq, Debug)]
pub enum RequestMessage {
    RequestCubeState,
    RequestBatteryState,
    ResetCubeState(CubeState),
}

/// Shape validity of a request: a reset must carry a well-formed state.
pub open spec fn request_wf(msg: RequestMessage) -> bool {
    match msg {
        RequestMessage::ResetCubeState(s) => s.wf(),
        _ => true,
    }
}

/// Every bit in `[lo, hi)` of the frame is clear.
pub open spec fn zero_bits(f: Seq<u8>, lo: int, hi: int) -> bool {
    forall|k: int| lo <= k < hi ==> !crate::bitstream::bit_at(f, k)
}

/// Field `j` of a row of equally wide fields that starts at bit `start`.
pub open spec fn field_at(d: Seq<u8>, start: int, width: int, j: int) -> nat {
    bits_value(d, start + width * j, width as nat)
}

/// The unique plain (pre-encryption) 20-byte frame of a request: an 8-bit
/// opcode, for a reset the full 8 corners and 12 edges (outbound frames are
/// exhaustive), and zero padding everywhere else.
pub open spec fn is_request_encoding(msg: RequestMessage, f: Seq<u8>) -> bool {
    &&& f.len() == 20
    &&& match msg {
        RequestMessage::RequestCubeState => bits_value(f, 0, 8) == 4 && zero_bits(f, 8, 160),
        RequestMessage::RequestBatteryState => bits_value(f, 0, 8) == 9 && zero_bits(f, 8, 160),
        RequestMessage::ResetCubeState(state) => {
            &&& bits_value(f, 0, 8) == 10
            &&& forall|i: int|
                0 <= i < 8 ==> field_at(f, 8, 3, i) == (
                #[trigger] state.corners@[i]).0.spec_repr()
            &&& forall|i: int|
                0 <= i < 8 ==> field_at(f, 32, 2, i) == (
                #[trigger] state.corners@[i]).1.spec_repr()
            &&& forall|i: int|
                0 <= i < 12 ==> field_at(f, 48, 4, i) == (
                #[trigger] state.edges@[i]).0.spec_repr()
            &&& forall|i: int|
                0 <= i < 12 ==> field_at(f, 96, 1, i) == (
                #[trigger] state.edges@[i]).1.spec_repr()
            &&& zero_bits(f, 108, 160)
        },
    }
}

impl RequestMessage {
    /// Serialize the request into its plain 20-byte frame.
    pub fn encode_frame(&self) -> (r: Vec<u8>)
        requires
            request_wf(*self),
        ensures
            is_request_encoding(*self, r@),
    {
        let mut zeros: Vec<u8> = Vec::new();
        let mut z: usize = 0;
        while z < 20
            invariant
                z <= 20,
                zeros@.len() == z,
                forall|j: int| 0 <= j < z ==> zeros@[j] == 0,
            decreases 20 - z,
        {
            zeros.push(0u8);
            z = z + 1;
        }
        proof {
            assert forall|k: int| 0 <= k < 160 implies !crate::bitstream::bit_at(
                zeros@,
                k,
            ) by {
                lemma_zero_byte(((k % 8) as u8));
            }
        }
        let mut bm = BiterMut::new(zeros);
        let ghost z0 = bm.spec_data();
        proof {
            lemma2_to64();
        }
        match self {
            RequestMessage::RequestCubeState => {
                bm.assign(8, 4);
                proof {
                    lemma_unwritten_bits_keep(z0, bm.spec_data(), 8, 160);
                }
            },
            RequestMessage::RequestBatteryState => {
                bm.assign(8, 9);
                proof {
                    lemma_unwritten_bits_keep(z0, bm.spec_data(), 8, 160);
                }
            },
            RequestMessage::ResetCubeState(state) => {
                bm.assign(8, 10);
                let ghost d0 = bm.spec_data();
                proof {
                    lemma_unwritten_bits_keep(z0, d0, 8, 160);
                }
                let cpos = corner_pos_reprs(state);
                let cori = corner_ori_reprs(state);
                let epos = edge_pos_reprs(state);
                let eori = edge_ori_reprs(state);
                assign_fields(&mut bm, 3, &cpos);
                let ghost d1 = bm.spec_data();
                proof {
                    crate::bitstream::lemma_bits_value_congruence(d1, d0, 0, 8);
                    lemma_unwritten_bits_keep(d0, d1, 32, 160);
                }
                assign_fields(&mut bm, 2, &cori);
                let ghost d2 = bm.spec_data();
                proof {
                    crate::bitstream::lemma_bits_value_congruence(d2, d1, 0, 8);
                    lemma_unwritten_bits_keep(d1, d2, 48, 160);
                    lemma_fields_keep(d1, d2, 8, 3, 8);
                }
                assign_fields(&mut bm, 4, &epos);
                let ghost d3 = bm.spec_data();
                proof {
                    crate::bitstream::lemma_bits_value_congruence(d3, d2, 0, 8);
                    lemma_unwritten_bits_keep(d2, d3, 96, 160);
                    lemma_fields_keep(d2, d3, 8, 3, 8);
                    lemma_fields_keep(d2, d3, 32, 2, 8);
                }
                assign_fields(&mut bm, 1, &eori);
                let ghost d4 = bm.spec_data();
                proof {
                    crate::bitstream::lemma_bits_value_congruence(d4, d3, 0, 8);
                    lemma_unwritten_bits_keep(d3, d4, 108, 160);
                    lemma_fields_keep(d3, d4, 8, 3, 8);
                    lemma_fields_keep(d3, d4, 32, 2, 8);
                    lemma_fields_keep(d3, d4, 48, 4, 12);
                }
            },
        }
        let r = bm.into_data();
        r
    }

    /// Serialize and encrypt the request: the 20 bytes to hand to the
    /// transport. Decrypting the result yields exactly the plain frame of
    /// this request.
    pub fn encode(&self, cipher: &GanCubeV2Cipher) -> (r: Vec<u8>)
        requires
            request_wf(*self),
            cipher.wf(),
        ensures
            r@.len() == 20,
            is_request_encoding(
                *self,
                spec_decrypt_frame(cipher.spec_key(), cipher.spec_iv(), r@),
            ),
            r@ == spec_encrypt_frame(
                cipher.spec_key(),
                cipher.spec_iv(),
                spec_decrypt_frame(cipher.spec_key(), cipher.spec_iv(), r@),
            ),
    {
        let mut frame = self.encode_frame();
        cipher.encrypt(&mut frame);
        frame
    }
}

/// Clearing no bit of a zero byte leaves it zero.
proof fn lemma_zero_byte(l: u8)
    by (bit_vector)
    requires
        l < 8,
    ensures
        0u8 & (0x80u8 >> l) == 0,
{
}

/// Bits that two frames share keep their field values; here specialized to
/// a run of zero bits surviving a write elsewhere.
proof fn lemma_unwritten_bits_keep(before: Seq<u8>, after: Seq<u8>, lo: int, hi: int)
    requires
        forall|k: int| lo <= k < hi ==> crate::bitstream::bit_at(after, k) == crate::bitstream::bit_at(before, k),
        zero_bits(before, lo, hi),
    ensures
        zero_bits(after, lo, hi),
{
}

/// A row of equally wide fields keeps its values when none of its bits
/// changed.
proof fn lemma_fields_keep(before: Seq<u8>, after: Seq<u8>, start: int, width: int, n: int)
    requires
        1 <= width,
        0 <= n,
        forall|k: int| start <= k < start + width * n ==> #[trigger] crate::bitstream::bit_at(
            after,
            k,
        ) == crate::bitstream::bit_at(before, k),
    ensures
        forall|j: int|
            0 <= j < n ==> #[trigger] field_at(after, start, width, j) == field_at(
                before,
                start,
                width,
                j,
            ),
{
    assert forall|j: int| 0 <= j < n implies #[trigger] field_at(after, start, width, j)
        == field_at(before, start, width, j) by {
        assert(width * j >= 0) by (nonlinear_arith)
            requires
                width >= 1 && j >= 0,
        ;
        assert(width * (j + 1) <= width * n) by (nonlinear_arith)
            requires
                width >= 1 && j + 1 <= n,
        ;
        assert(width * (j + 1) == width * j + width) by (nonlinear_arith);
        crate::bitstream::lemma_bits_value_congruence(
            after,
            before,
            start + width * j,
            width as nat,
        );
    }
}

/// The corner slots of a state, as wire codes.
fn corner_pos_reprs(state: &CubeState) -> (r: Vec<u8>)
    requires
        state.wf(),
    ensures
        r@.len() == 8,
        forall|j: int| 0 <= j < 8 ==> #[trigger] r@[j] == state.corners@[j].0.spec_repr() && r@[j] < 8,
{
    let mut r: Vec<u8> = Vec::new();
    let mut i: usize = 0;
    while i < 8
        invariant
            i <= 8,
            state.wf(),
            r@.len() == i,
            forall|j: int| 0 <= j < i ==> #[trigger] r@[j] == state.corners@[j].0.spec_repr() && r@[j] < 8,
        decreases 8 - i,
    {
        r.push(state.corners[i].0.repr());
        i = i + 1;
    }
    r
}

/// The corner twists of a state, as wire codes.
fn corner_ori_reprs(state: &CubeState) -> (r: Vec<u8>)
    requires
        state.wf(),
    ensures
        r@.len() == 8,
        forall|j: int| 0 <= j < 8 ==> #[trigger] r@[j] == state.corners@[j].1.spec_repr() && r@[j] < 4,
{
    let mut r: Vec<u8> = Vec::new();
    let mut i: usize = 0;
    while i < 8
        invariant
            i <= 8,
            state.wf(),
            r@.len() == i,
            forall|j: int| 0 <= j < i ==> #[trigger] r@[j] == state.corners@[j].1.spec_repr() && r@[j] < 4,
        decreases 8 - i,
    {
        r.push(state.corners[i].1.repr());
        i = i + 1;
    }
    r
}

/// The edge slots of a state, as wire codes.
fn edge_pos_reprs(state: &CubeState) -> (r: Vec<u8>)
    requires
        state.wf(),
    ensures
        r@.len() == 12,
        forall|j: int| 0 <= j < 12 ==> #[trigger] r@[j] == state.edges@[j].0.spec_repr() && r@[j] < 16,
{
    let mut r: Vec<u8> = Vec::new();
    let mut i: usize = 0;
    while i < 12
        invariant
            i <= 12,
            state.wf(),
            r@.len() == i,
            forall|j: int| 0 <= j < i ==> #[trigger] r@[j] == state.edges@[j].0.spec_repr() && r@[j] < 16,
        decreases 12 - i,
    {
        r.push(state.edges[i].0.repr());
        i = i + 1;
    }
    r
}

/// The edge flips of a state, as wire codes.
fn edge_ori_reprs(state: &CubeState) -> (r: Vec<u8>)
    requires
        state.wf(),
    ensures
        r@.len() == 12,
        forall|j: int| 0 <= j < 12 ==> #[trigger] r@[j] == state.edges@[j].1.spec_repr() && r@[j] < 2,
{
    let mut r: Vec<u8> = Vec::new();
    let mut i: usize = 0;
    while i < 12
        invariant
            i <= 12,
            state.wf(),
            r@.len() == i,
            forall|j: int| 0 <= j < i ==> #[trigger] r@[j] == state.edges@[j].1.spec_repr() && r@[j] < 2,
        decreases 12 - i,
    {
        r.push(state.edges[i].1.repr());
        i = i + 1;
    }
    r
}

/// Write a row of equally wide fields at the cursor, one value each.
fn assign_fields(bm: &mut BiterMut, width: usize, values: &Vec<u8>)
    requires
        1 <= width <= 8,
        0 <= old(bm).spec_index(),
        old(bm).spec_index() + width * values@.len() <= old(bm).spec_data().len() * 8,
        old(bm).spec_data().len() * 8 <= usize::MAX,
        forall|j: int| 0 <= j < values@.len() ==> (#[trigger] values@[j]) < pow2(width as nat),
    ensures
        final(bm).spec_data().len() == old(bm).spec_data().len(),
        final(bm).spec_index() == old(bm).spec_index() + width * values@.len(),
        forall|j: int|
            0 <= j < values@.len() ==> #[trigger] field_at(
                final(bm).spec_data(),
                old(bm).spec_index(),
                width as int,
                j,
            ) == values@[j],
        forall|i: int|
            0 <= i < old(bm).spec_data().len() * 8 && !(old(bm).spec_index() <= i < old(
                bm,
            ).spec_index() + width * values@.len()) ==> crate::bitstream::bit_at(
                final(bm).spec_data(),
                i,
            ) == crate::bitstream::bit_at(old(bm).spec_data(), i),
{
    let ghost start = bm.spec_index();
    let ghost orig = bm.spec_data();
    let n = values.len();
    let mut j: usize = 0;
    while j < n
        invariant
            j <= n,
            n == values@.len(),
            1 <= width <= 8,
            0 <= start,
            start + width * n <= orig.len() * 8,
            orig.len() * 8 <= usize::MAX,
            bm.spec_data().len() == orig.len(),
            bm.spec_index() == start + width * j,
            forall|t: int| 0 <= t < values@.len() ==> (#[trigger] values@[t]) < pow2(width as nat),
            forall|t: int|
                0 <= t < j ==> #[trigger] field_at(
                    bm.spec_data(),
                    start,
                    width as int,
                    t,
                ) == values@[t],
            forall|i: int|
                0 <= i < orig.len() * 8 && !(start <= i < start + width * j)
                    ==> crate::bitstream::bit_at(bm.spec_data(), i) == crate::bitstream::bit_at(
                    orig,
                    i,
                ),
        decreases n - j,
    {
        let ghost before = bm.spec_data();
        proof {
            assert(width * (j + 1) <= width * n) by (nonlinear_arith)
                requires
                    width >= 1 && j + 1 <= n,
            ;
            assert(width * (j + 1) == width * j + width) by (nonlinear_arith);
            assert(width * j >= 0) by (nonlinear_arith)
                requires
                    width >= 0 && j >= 0,
            ;
        }
        bm.assign(width, values[j] as u32);
        proof {
            // the value written lands exactly, since it fits the field
            vstd::arithmetic::power2::lemma_pow2_pos(width as nat);
            assert(values@[j as int] < pow2(width as nat));
            vstd::arithmetic::div_mod::lemma_small_mod(
                values@[j as int] as nat,
                pow2(width as nat),
            );
            // earlier fields are untouched by this write
            assert(width * j <= width * n) by (nonlinear_arith)
                requires
                    width >= 1 && j <= n,
            ;
            assert forall|t: int| 0 <= t < j implies #[trigger] field_at(
                bm.spec_data(),
                start,
                width as int,
                t,
            ) == values@[t] by {
                assert(width * t >= 0) by (nonlinear_arith)
                    requires
                        width >= 1 && t >= 0,
                ;
                assert(width * (t + 1) <= width * j) by (nonlinear_arith)
                    requires
                        width >= 1 && t + 1 <= j,
                ;
                assert(width * (t + 1) == width * t + width) by (nonlinear_arith);
                assert(field_at(before, start, width as int, t) == values@[t]);
                assert forall|k: int|
                    start + width * t <= k < start + width * t + width implies crate::bitstream::bit_at(
                    bm.spec_data(),
                    k,
                ) == crate::bitstream::bit_at(before, k) by {
                    assert(0 <= k < orig.len() * 8);
                    assert(!(start + width * j <= k < start + width * j + width));
                }
                crate::bitstream::lemma_bits_value_congruence(
                    bm.spec_data(),
                    before,
                    start + width * t,
                    width as nat,
                );
            }
        }
        j = j + 1;
    }
}

} // verus!
