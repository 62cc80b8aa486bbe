//! Tests of the move alphabet, piece orientations, and the reorientation
//! group.
use cuboard::algorithm::{span, CubeOrientation};
use cuboard::cube::{format_moves, CubeMove, CubeState, PieceOrientation};
use cuboard::cube::CubeMove::{Fp, Rp, Up, B, D, F, L, R, U};

#[test]
fn move_codes_round_trip() {
    for code in 0u8..12 {
        let mv = CubeMove::from_repr(code).unwrap();
        assert_eq!(mv.repr(), code);
        assert_eq!(mv.is_clockwise(), code % 2 == 0);
        assert_eq!(mv.rev().rev(), mv);
        assert_eq!(mv.abs().repr(), code / 2 * 2);
        assert_eq!(mv.rev().abs(), mv.abs());
    }
    assert!(CubeMove::from_repr(12).is_none());
}

#[test]
fn moves_commute_exactly_on_shared_axes() {
    assert!(U.commute(D));
    assert!(U.commute(U.rev()));
    assert!(R.commute(L));
    assert!(F.commute(B));
    assert!(!U.commute(R));
    assert!(!R.commute(F));
    assert!(!F.commute(U));
}

#[test]
fn piece_orientations_form_small_cyclic_groups() {
    let one = PieceOrientation::<3>::from_repr(1).unwrap();
    let two = PieceOrientation::<3>::from_repr(2).unwrap();
    assert_eq!(one.add(two).repr(), 0);
    assert_eq!(two.add(two).repr(), 1);
    assert_eq!(two.neg().repr(), 1);
    assert_eq!(PieceOrientation::<3>::from_repr(0).unwrap().neg().repr(), 0);
    assert!(PieceOrientation::<3>::from_repr(3).is_none());
    let flip = PieceOrientation::<2>::from_repr(1).unwrap();
    assert_eq!(flip.add(flip).repr(), 0);
}

#[test]
fn solved_state_is_home_positions() {
    let state = CubeState::default();
    for (i, corner) in state.corners.iter().enumerate() {
        assert_eq!(corner.0.repr() as usize, i);
        assert_eq!(corner.1.repr(), 0);
    }
    for (i, edge) in state.edges.iter().enumerate() {
        assert_eq!(edge.0.repr() as usize, i);
        assert_eq!(edge.1.repr(), 0);
    }
    let mut state = state;
    state.reset_centers();
    assert_eq!(state.centers.len(), 6);
}

#[test]
fn move_formatting_groups_runs() {
    assert_eq!(format_moves(&vec![]), "");
    assert_eq!(format_moves(&vec![U]), "U");
    assert_eq!(format_moves(&vec![U, U]), "U2");
    assert_eq!(format_moves(&vec![U, R, R, R, Rp]), "UR3R'");
    assert_eq!(format_moves(&vec![Rp; 12]), "R'12");
}

#[test]
fn orientation_codes_round_trip() {
    for code in 0u8..48 {
        let o = CubeOrientation::from_repr(code).unwrap();
        assert_eq!(o.repr(), code);
        assert_eq!(o.is_mirror(), code >= 24);
    }
    assert!(CubeOrientation::from_repr(48).is_none());
}

#[test]
fn identity_orientation_is_the_unit() {
    let id = CubeOrientation::default();
    assert_eq!(id, CubeOrientation::URFDLB);
    assert_eq!(id.perm(), vec![0, 1, 2, 3, 4, 5]);
    assert_eq!(id.chars(), vec!['U', 'R', 'F', 'D', 'L', 'B']);
    for code in 0u8..48 {
        let o = CubeOrientation::from_repr(code).unwrap();
        assert_eq!(id.add(o), o);
        assert_eq!(o.add(id), o);
    }
}

#[test]
fn orientations_compose_and_invert() {
    for code in 0u8..48 {
        let o = CubeOrientation::from_repr(code).unwrap();
        assert_eq!(o.neg().add(o), CubeOrientation::URFDLB);
        // a reorientation is recovered from its own permutation
        assert_eq!(CubeOrientation::try_from_perm(&o.perm()), Some(o));
    }
    let bad: Vec<u8> = vec![0, 0, 0, 0, 0, 0];
    assert_eq!(CubeOrientation::try_from_perm(&bad), None);
}

#[test]
fn identity_keeps_every_move() {
    let id = CubeOrientation::URFDLB;
    let map = id.as_map();
    for code in 0u8..12 {
        assert_eq!(map[code as usize], CubeMove::from_repr(code).unwrap());
    }
}

#[test]
fn mirrors_flip_move_directions() {
    // the mirror that swaps the right and front faces
    let mirror = CubeOrientation::UFRDBL;
    assert!(mirror.is_mirror());
    assert_eq!(mirror.perm(), vec![0, 2, 1, 3, 5, 4]);
    let map = mirror.as_map();
    // faces that stay in place only flip their turning direction
    assert_eq!(map[U.repr() as usize], Up);
    assert_eq!(map[Up.repr() as usize], U);
    // the swapped faces exchange and flip
    assert_eq!(map[R.repr() as usize], Fp);
    assert_eq!(map[F.repr() as usize], Rp);
}

#[test]
fn quarter_rotation_spans_a_cyclic_group() {
    // the rotation along the up face generates 4 reorientations
    let u_turn = CubeOrientation::UBRDFL;
    let table = span(&vec![u_turn]);
    assert_eq!(table.len(), 4);
    assert_eq!(table[0].0, u_turn);
    assert_eq!(table[0].1, vec![u_turn]);
    for (value, path) in &table {
        let mut acc = path[0];
        for step in &path[1..] {
            acc = acc.add(*step);
        }
        assert_eq!(acc, *value);
    }
}

#[test]
fn span_of_face_rotations_covers_all_proper_rotations() {
    let gens = vec![CubeOrientation::UBRDFL, CubeOrientation::FRDBLU];
    let table = span(&gens);
    assert_eq!(table.len(), 24);
    for (value, _) in &table {
        assert!(!value.is_mirror());
    }
}
