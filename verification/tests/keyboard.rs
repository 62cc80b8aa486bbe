//! Tests of the canonicalizing move buffer and the keymap input layer.
use cuboard::codec::ResponseMessage;
use cuboard::cube::CubeMove;
use cuboard::cube::CubeMove::{Rp, B, F, L, R, U};
use cuboard::cuboard::{
    default_keymap, CuboardBuffer, CuboardInput, CuboardInputEvent, CuboardKey,
};

fn feed(buffer: &mut CuboardBuffer, moves: &[CubeMove]) {
    for &mv in moves {
        buffer.input(mv);
    }
}

#[test]
fn same_face_opposite_turns_cancel() {
    let mut buffer = CuboardBuffer::new();
    feed(&mut buffer, &[R, R]);
    assert_eq!(buffer.moves(), &vec![R, R]);
    buffer.input(Rp);
    assert_eq!(buffer.moves(), &vec![R]);
    assert_eq!(buffer.remains(), vec![R]);
    assert!(buffer.keys().is_empty());
}

#[test]
fn doubled_turn_and_adjacent_face_make_a_shifted_key() {
    let mut buffer = CuboardBuffer::new();
    feed(&mut buffer, &[R, R, B]);
    assert_eq!(buffer.moves(), &vec![R, R, B]);
    let keys = buffer.keys();
    assert_eq!(keys.len(), 1);
    assert_eq!(keys[0].0, CuboardKey { main: R, num: 3, is_shifted: true });
    assert_eq!(keys[0].1, (0, 3));
    assert!(buffer.is_completed());
}

#[test]
fn tripled_turns_make_no_key() {
    let mut buffer = CuboardBuffer::new();
    feed(&mut buffer, &[R, R, R]);
    assert_eq!(buffer.moves(), &vec![R, R, R]);
    assert!(buffer.keys().is_empty());
    assert_eq!(buffer.remains(), vec![R, R, R]);
}

#[test]
fn duplicate_report_of_the_same_turn_doubles_it() {
    let mut buffer = CuboardBuffer::new();
    feed(&mut buffer, &[R, L]);
    // R is reported again after the commuting L: the run grows in place
    buffer.input(R);
    assert_eq!(buffer.moves(), &vec![R, R, L]);
}

#[test]
fn key_parsing_examples() {
    // [U, L] is the unshifted key at adjacency slot 0 of U
    let parsed = CuboardKey::parse(&vec![U, L], 0);
    assert_eq!(parsed.len(), 1);
    assert_eq!(parsed[0].0, CuboardKey { main: U, num: 0, is_shifted: false });
    assert_eq!(parsed[0].1, (0, 2));
    // [U, U, B] is the shifted key at adjacency slot 1 of U
    let parsed = CuboardKey::parse(&vec![U, U, B], 0);
    assert_eq!(parsed.len(), 1);
    assert_eq!(parsed[0].0, CuboardKey { main: U, num: 1, is_shifted: true });
    assert_eq!(parsed[0].1, (0, 3));
}

#[test]
fn key_parsing_covers_every_main_and_slot() {
    for code in 0u8..12 {
        let main = CubeMove::from_repr(code).unwrap();
        for num in 0usize..4 {
            let adj = CuboardKey::adjacent(main, num);
            let adj = if code % 3 == 0 {
                adj
            } else {
                adj.rev()
            };
            let parsed = CuboardKey::parse(&vec![main, adj], 0);
            assert_eq!(parsed.len(), 1, "main {:?} num {}", main, num);
            assert_eq!(parsed[0].0, CuboardKey { main, num, is_shifted: false });
        }
    }
}

#[test]
fn key_parsing_stops_on_the_same_axis() {
    // R' is on the axis of R, not adjacent to it: no key, moves stay pending
    let parsed = CuboardKey::parse(&vec![R, Rp], 0);
    assert!(parsed.is_empty());
    // parsing starts mid-list when asked to
    let parsed = CuboardKey::parse(&vec![R, R, R, U, R], 2);
    assert_eq!(parsed.len(), 1);
    assert_eq!(parsed[0].1, (2, 4));
}

#[test]
fn flush_hands_out_keys_and_keeps_the_tail() {
    let mut buffer = CuboardBuffer::new();
    feed(&mut buffer, &[U, L, U]);
    assert_eq!(buffer.keys().len(), 1);
    assert!(!buffer.is_completed());
    let flushed = buffer.flush();
    assert_eq!(flushed, vec![CuboardKey { main: U, num: 0, is_shifted: false }]);
    assert_eq!(buffer.moves(), &vec![U]);
    assert!(buffer.keys().is_empty());
    buffer.cancel();
    assert!(buffer.moves().is_empty());
}

#[test]
fn default_keymap_maps_the_first_key_to_d() {
    let mut input = CuboardInput::new(default_keymap());
    input.input(&vec![U, L]);
    assert_eq!(input.buffered_text(), "d");
    assert_eq!(input.complete_part(), "UL");
    assert_eq!(input.remain_part(), "");
    let accepted = input.finish();
    assert_eq!(accepted, "d");
    assert_eq!(input.buffered_text(), "");
}

#[test]
fn newline_key_finishes_the_line() {
    let mut input = CuboardInput::new(default_keymap());
    // "d", then the shifted R' key at slot 1, which maps to a line break
    let accepted = input.input(&vec![U, L, Rp, Rp, F]);
    assert_eq!(accepted, "d\n");
    assert_eq!(input.buffered_text(), "");
    assert!(input.buffer.moves().is_empty());
}

#[test]
fn pending_moves_format_as_remainder() {
    let mut input = CuboardInput::new(default_keymap());
    input.input(&vec![U, L, U, U, U]);
    assert_eq!(input.complete_part(), "UL");
    assert_eq!(input.remain_part(), "U3");
}

fn moves_message(count: u8, codes: [u8; 7]) -> ResponseMessage {
    ResponseMessage::Moves {
        count,
        moves: codes.iter().map(|&c| CubeMove::from_repr(c)).collect(),
        times: vec![0; 7],
    }
}

fn state_message(count: u8) -> ResponseMessage {
    ResponseMessage::State { count, state: cuboard::cube::CubeState::default() }
}

#[test]
fn messages_are_ignored_until_the_counter_is_known() {
    let mut input = CuboardInput::new(default_keymap());
    let r = input.handle_message(moves_message(5, [0; 7]));
    assert_eq!(r, Some(CuboardInputEvent::Uninit));
    assert!(input.buffer.moves().is_empty());
    let r = input.handle_message(state_message(250));
    assert_eq!(r, Some(CuboardInputEvent::Init));
}

#[test]
fn counter_wraparound_clamps_to_seven() {
    let mut input = CuboardInput::new(default_keymap());
    input.handle_message(state_message(250));
    // 250 -> 3 wraps to a difference of 9, clamped to the 7 reported slots
    let r = input.handle_message(moves_message(3, [0, 2, 0, 2, 0, 2, 0]));
    match r {
        Some(CuboardInputEvent::Input { skip, .. }) => assert_eq!(skip, 0),
        other => panic!("unexpected event: {:?}", other),
    }
}

#[test]
fn small_differences_skip_stale_slots() {
    let mut input = CuboardInput::new(default_keymap());
    input.handle_message(state_message(10));
    // only 2 of the 7 reported slots are new: the moves U then R
    let r = input.handle_message(moves_message(12, [2, 0, 4, 4, 4, 4, 4]));
    match r {
        Some(CuboardInputEvent::Input { skip, .. }) => assert_eq!(skip, 5),
        other => panic!("unexpected event: {:?}", other),
    }
    assert_eq!(input.buffer.moves(), &vec![CubeMove::U, CubeMove::R]);
}

#[test]
fn unknown_slots_count_as_skipped() {
    let mut input = CuboardInput::new(default_keymap());
    input.handle_message(state_message(0));
    // 3 new slots, one carrying an unknown move code
    let r = input.handle_message(moves_message(3, [2, 31, 0, 4, 4, 4, 4]));
    match r {
        Some(CuboardInputEvent::Input { skip, .. }) => assert_eq!(skip, 5),
        other => panic!("unexpected event: {:?}", other),
    }
    assert_eq!(input.buffer.moves(), &vec![CubeMove::U, CubeMove::R]);
}

#[test]
fn disconnect_leaves_the_buffer_untouched() {
    let mut input = CuboardInput::new(default_keymap());
    input.handle_message(state_message(0));
    input.input(&vec![U, L, U]);
    let before_keys = input.buffer.keys().clone();
    let before_moves = input.buffer.moves().clone();
    let r = input.handle_message(ResponseMessage::Disconnect);
    assert_eq!(r, None);
    assert_eq!(input.buffer.keys(), &before_keys);
    assert_eq!(input.buffer.moves(), &before_moves);
    assert!(ResponseMessage::Disconnect.is_disconnect());
}
