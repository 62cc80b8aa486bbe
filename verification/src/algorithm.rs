//! The 48-element cube reorientation group: 24 proper rotations and 24
//! mirror reflections, each a permutation of the six face labels, with
//! composition, inversion, and the induced action on moves.
use crate::cube::CubeMove;
use vstd::prelude::*;

verus! {

/// A whole-cube reorientation, named by where the six faces go: the
/// name lists which face is moved to up, right, front, down, left and
/// back. The first 24 are rotations, the rest mirror reflections.
#[derive(Clone, Copy, PartialEq, Eq, Structural, Hash, Debug)]
pub enum CubeOrientation {
    URFDLB,
    UFLDBR,
    ULBDRF,
    UBRDFL,
    DFRUBL,
    DLFURB,
    DBLUFR,
    DRBULF,
    FURBDL,
    LUFRDB,
    BULFDR,
    RUBLDF,
    RDFLUB,
    FDLBUR,
    LDBRUF,
    BDRFUL,
    RFULBD,
    FLUBRD,
    LBURFD,
    BRUFLD,
    FRDBLU,
    LFDRBU,
    BLDFRU,
    RBDLFU,
    FRUBLD,
    LFURBD,
    BLUFRD,
    RBULFD,
    RFDLBU,
    FLDBRU,
    LBDRFU,
    BRDFLU,
    UFRDBL,
    ULFDRB,
    UBLDFR,
    URBDLF,
    DRFULB,
    DFLUBR,
    DLBURF,
    DBRUFL,
    RUFLDB,
    FULBDR,
    LUBRDF,
    BURFDL,
    FDRBUL,
    LDFRUB,
    BDLFUR,
    RDBLUF,
}

/// The face label at each position, as an index into the face order
/// U, R, F, D, L, B.
pub open spec fn spec_orientation_perm(o: CubeOrientation) -> Seq<u8> {
    match o {
        CubeOrientation::URFDLB => seq![0u8, 1u8, 2u8, 3u8, 4u8, 5u8],
        CubeOrientation::UFLDBR => seq![0u8, 2u8, 4u8, 3u8, 5u8, 1u8],
        CubeOrientation::ULBDRF => seq![0u8, 4u8, 5u8, 3u8, 1u8, 2u8],
        CubeOrientation::UBRDFL => seq![0u8, 5u8, 1u8, 3u8, 2u8, 4u8],
        CubeOrientation::DFRUBL => seq![3u8, 2u8, 1u8, 0u8, 5u8, 4u8],
        CubeOrientation::DLFURB => seq![3u8, 4u8, 2u8, 0u8, 1u8, 5u8],
        CubeOrientation::DBLUFR => seq![3u8, 5u8, 4u8, 0u8, 2u8, 1u8],
        CubeOrientation::DRBULF => seq![3u8, 1u8, 5u8, 0u8, 4u8, 2u8],
        CubeOrientation::FURBDL => seq![2u8, 0u8, 1u8, 5u8, 3u8, 4u8],
        CubeOrientation::LUFRDB => seq![4u8, 0u8, 2u8, 1u8, 3u8, 5u8],
        CubeOrientation::BULFDR => seq![5u8, 0u8, 4u8, 2u8, 3u8, 1u8],
        CubeOrientation::RUBLDF => seq![1u8, 0u8, 5u8, 4u8, 3u8, 2u8],
        CubeOrientation::RDFLUB => seq![1u8, 3u8, 2u8, 4u8, 0u8, 5u8],
        CubeOrientation::FDLBUR => seq![2u8, 3u8, 4u8, 5u8, 0u8, 1u8],
        CubeOrientation::LDBRUF => seq![4u8, 3u8, 5u8, 1u8, 0u8, 2u8],
        CubeOrientation::BDRFUL => seq![5u8, 3u8, 1u8, 2u8, 0u8, 4u8],
        CubeOrientation::RFULBD => seq![1u8, 2u8, 0u8, 4u8, 5u8, 3u8],
        CubeOrientation::FLUBRD => seq![2u8, 4u8, 0u8, 5u8, 1u8, 3u8],
        CubeOrientation::LBURFD => seq![4u8, 5u8, 0u8, 1u8, 2u8, 3u8],
        CubeOrientation::BRUFLD => seq![5u8, 1u8, 0u8, 2u8, 4u8, 3u8],
        CubeOrientation::FRDBLU => seq![2u8, 1u8, 3u8, 5u8, 4u8, 0u8],
        CubeOrientation::LFDRBU => seq![4u8, 2u8, 3u8, 1u8, 5u8, 0u8],
        CubeOrientation::BLDFRU => seq![5u8, 4u8, 3u8, 2u8, 1u8, 0u8],
        CubeOrientation::RBDLFU => seq![1u8, 5u8, 3u8, 4u8, 2u8, 0u8],
        CubeOrientation::FRUBLD => seq![2u8, 1u8, 0u8, 5u8, 4u8, 3u8],
        CubeOrientation::LFURBD => seq![4u8, 2u8, 0u8, 1u8, 5u8, 3u8],
        CubeOrientation::BLUFRD => seq![5u8, 4u8, 0u8, 2u8, 1u8, 3u8],
        CubeOrientation::RBULFD => seq![1u8, 5u8, 0u8, 4u8, 2u8, 3u8],
        CubeOrientation::RFDLBU => seq![1u8, 2u8, 3u8, 4u8, 5u8, 0u8],
        CubeOrientation::FLDBRU => seq![2u8, 4u8, 3u8, 5u8, 1u8, 0u8],
        CubeOrientation::LBDRFU => seq![4u8, 5u8, 3u8, 1u8, 2u8, 0u8],
        CubeOrientation::BRDFLU => seq![5u8, 1u8, 3u8, 2u8, 4u8, 0u8],
        CubeOrientation::UFRDBL => seq![0u8, 2u8, 1u8, 3u8, 5u8, 4u8],
        CubeOrientation::ULFDRB => seq![0u8, 4u8, 2u8, 3u8, 1u8, 5u8],
        CubeOrientation::UBLDFR => seq![0u8, 5u8, 4u8, 3u8, 2u8, 1u8],
        CubeOrientation::URBDLF => seq![0u8, 1u8, 5u8, 3u8, 4u8, 2u8],
        CubeOrientation::DRFULB => seq![3u8, 1u8, 2u8, 0u8, 4u8, 5u8],
        CubeOrientation::DFLUBR => seq![3u8, 2u8, 4u8, 0u8, 5u8, 1u8],
        CubeOrientation::DLBURF => seq![3u8, 4u8, 5u8, 0u8, 1u8, 2u8],
        CubeOrientation::DBRUFL => seq![3u8, 5u8, 1u8, 0u8, 2u8, 4u8],
        CubeOrientation::RUFLDB => seq![1u8, 0u8, 2u8, 4u8, 3u8, 5u8],
        CubeOrientation::FULBDR => seq![2u8, 0u8, 4u8, 5u8, 3u8, 1u8],
        CubeOrientation::LUBRDF => seq![4u8, 0u8, 5u8, 1u8, 3u8, 2u8],
        CubeOrientation::BURFDL => seq![5u8, 0u8, 1u8, 2u8, 3u8, 4u8],
        CubeOrientation::FDRBUL => seq![2u8, 3u8, 1u8, 5u8, 0u8, 4u8],
        CubeOrientation::LDFRUB => seq![4u8, 3u8, 2u8, 1u8, 0u8, 5u8],
        CubeOrientation::BDLFUR => seq![5u8, 3u8, 4u8, 2u8, 0u8, 1u8],
        CubeOrientation::RDBLUF => seq![1u8, 3u8, 5u8, 4u8, 0u8, 2u8],
    }
}

impl CubeOrientation {
    pub open spec fn spec_repr(self) -> u8 {
        match self {
            CubeOrientation::URFDLB => 0,
            CubeOrientation::UFLDBR => 1,
            CubeOrientation::ULBDRF => 2,
            CubeOrientation::UBRDFL => 3,
            CubeOrientation::DFRUBL => 4,
            CubeOrientation::DLFURB => 5,
            CubeOrientation::DBLUFR => 6,
            CubeOrientation::DRBULF => 7,
            CubeOrientation::FURBDL => 8,
            CubeOrientation::LUFRDB => 9,
            CubeOrientation::BULFDR => 10,
            CubeOrientation::RUBLDF => 11,
            CubeOrientation::RDFLUB => 12,
            CubeOrientation::FDLBUR => 13,
            CubeOrientation::LDBRUF => 14,
            CubeOrientation::BDRFUL => 15,
            CubeOrientation::RFULBD => 16,
            CubeOrientation::FLUBRD => 17,
            CubeOrientation::LBURFD => 18,
            CubeOrientation::BRUFLD => 19,
            CubeOrientation::FRDBLU => 20,
            CubeOrientation::LFDRBU => 21,
            CubeOrientation::BLDFRU => 22,
            CubeOrientation::RBDLFU => 23,
            CubeOrientation::FRUBLD => 24,
            CubeOrientation::LFURBD => 25,
            CubeOrientation::BLUFRD => 26,
            CubeOrientation::RBULFD => 27,
            CubeOrientation::RFDLBU => 28,
            CubeOrientation::FLDBRU => 29,
            CubeOrientation::LBDRFU => 30,
            CubeOrientation::BRDFLU => 31,
            CubeOrientation::UFRDBL => 32,
            CubeOrientation::ULFDRB => 33,
            CubeOrientation::UBLDFR => 34,
            CubeOrientation::URBDLF => 35,
            CubeOrientation::DRFULB => 36,
            CubeOrientation::DFLUBR => 37,
            CubeOrientation::DLBURF => 38,
            CubeOrientation::DBRUFL => 39,
            CubeOrientation::RUFLDB => 40,
            CubeOrientation::FULBDR => 41,
            CubeOrientation::LUBRDF => 42,
            CubeOrientation::BURFDL => 43,
            CubeOrientation::FDRBUL => 44,
            CubeOrientation::LDFRUB => 45,
            CubeOrientation::BDLFUR => 46,
            CubeOrientation::RDBLUF => 47,
        }
    }

    pub open spec fn spec_from_repr(repr: u8) -> Option<CubeOrientation> {
        if repr == 0 {
            Some(CubeOrientation::URFDLB)
        } else if repr == 1 {
            Some(CubeOrientation::UFLDBR)
        } else if repr == 2 {
            Some(CubeOrientation::ULBDRF)
        } else if repr == 3 {
            Some(CubeOrientation::UBRDFL)
        } else if repr == 4 {
            Some(CubeOrientation::DFRUBL)
        } else if repr == 5 {
            Some(CubeOrientation::DLFURB)
        } else if repr == 6 {
            Some(CubeOrientation::DBLUFR)
        } else if repr == 7 {
            Some(CubeOrientation::DRBULF)
        } else if repr == 8 {
            Some(CubeOrientation::FURBDL)
        } else if repr == 9 {
            Some(CubeOrientation::LUFRDB)
        } else if repr == 10 {
            Some(CubeOrientation::BULFDR)
        } else if repr == 11 {
            Some(CubeOrientation::RUBLDF)
        } else if repr == 12 {
            Some(CubeOrientation::RDFLUB)
        } else if repr == 13 {
            Some(CubeOrientation::FDLBUR)
        } else if repr == 14 {
            Some(CubeOrientation::LDBRUF)
        } else if repr == 15 {
            Some(CubeOrientation::BDRFUL)
        } else if repr == 16 {
            Some(CubeOrientation::RFULBD)
        } else if repr == 17 {
            Some(CubeOrientation::FLUBRD)
        } else if repr == 18 {
            Some(CubeOrientation::LBURFD)
        } else if repr == 19 {
            Some(CubeOrientation::BRUFLD)
        } else if repr == 20 {
            Some(CubeOrientation::FRDBLU)
        } else if repr == 21 {
            Some(CubeOrientation::LFDRBU)
        } else if repr == 22 {
            Some(CubeOrientation::BLDFRU)
        } else if repr == 23 {
            Some(CubeOrientation::RBDLFU)
        } else if repr == 24 {
            Some(CubeOrientation::FRUBLD)
        } else if repr == 25 {
            Some(CubeOrientation::LFURBD)
        } else if repr == 26 {
            Some(CubeOrientation::BLUFRD)
        } else if repr == 27 {
            Some(CubeOrientation::RBULFD)
        } else if repr == 28 {
            Some(CubeOrientation::RFDLBU)
        } else if repr == 29 {
            Some(CubeOrientation::FLDBRU)
        } else if repr == 30 {
            Some(CubeOrientation::LBDRFU)
        } else if repr == 31 {
            Some(CubeOrientation::BRDFLU)
        } else if repr == 32 {
            Some(CubeOrientation::UFRDBL)
        } else if repr == 33 {
            Some(CubeOrientation::ULFDRB)
        } else if repr == 34 {
            Some(CubeOrientation::UBLDFR)
        } else if repr == 35 {
            Some(CubeOrientation::URBDLF)
        } else if repr == 36 {
            Some(CubeOrientation::DRFULB)
        } else if repr == 37 {
            Some(CubeOrientation::DFLUBR)
        } else if repr == 38 {
            Some(CubeOrientation::DLBURF)
        } else if repr == 39 {
            Some(CubeOrientation::DBRUFL)
        } else if repr == 40 {
            Some(CubeOrientation::RUFLDB)
        } else if repr == 41 {
            Some(CubeOrientation::FULBDR)
        } else if repr == 42 {
            Some(CubeOrientation::LUBRDF)
        } else if repr == 43 {
            Some(CubeOrientation::BURFDL)
        } else if repr == 44 {
            Some(CubeOrientation::FDRBUL)
        } else if repr == 45 {
            Some(CubeOrientation::LDFRUB)
        } else if repr == 46 {
            Some(CubeOrientation::BDLFUR)
        } else if repr == 47 {
            Some(CubeOrientation::RDBLUF)
        } else {
            None
        }
    }

    pub fn repr(self) -> (r: u8)
        ensures
            r == self.spec_repr(),
    {
        match self {
            CubeOrientation::URFDLB => 0,
            CubeOrientation::UFLDBR => 1,
            CubeOrientation::ULBDRF => 2,
            CubeOrientation::UBRDFL => 3,
            CubeOrientation::DFRUBL => 4,
            CubeOrientation::DLFURB => 5,
            CubeOrientation::DBLUFR => 6,
            CubeOrientation::DRBULF => 7,
            CubeOrientation::FURBDL => 8,
            CubeOrientation::LUFRDB => 9,
            CubeOrientation::BULFDR => 10,
            CubeOrientation::RUBLDF => 11,
            CubeOrientation::RDFLUB => 12,
            CubeOrientation::FDLBUR => 13,
            CubeOrientation::LDBRUF => 14,
            CubeOrientation::BDRFUL => 15,
            CubeOrientation::RFULBD => 16,
            CubeOrientation::FLUBRD => 17,
            CubeOrientation::LBURFD => 18,
            CubeOrientation::BRUFLD => 19,
            CubeOrientation::FRDBLU => 20,
            CubeOrientation::LFDRBU => 21,
            CubeOrientation::BLDFRU => 22,
            CubeOrientation::RBDLFU => 23,
            CubeOrientation::FRUBLD => 24,
            CubeOrientation::LFURBD => 25,
            CubeOrientation::BLUFRD => 26,
            CubeOrientation::RBULFD => 27,
            CubeOrientation::RFDLBU => 28,
            CubeOrientation::FLDBRU => 29,
            CubeOrientation::LBDRFU => 30,
            CubeOrientation::BRDFLU => 31,
            CubeOrientation::UFRDBL => 32,
            CubeOrientation::ULFDRB => 33,
            CubeOrientation::UBLDFR => 34,
            CubeOrientation::URBDLF => 35,
            CubeOrientation::DRFULB => 36,
            CubeOrientation::DFLUBR => 37,
            CubeOrientation::DLBURF => 38,
            CubeOrientation::DBRUFL => 39,
            CubeOrientation::RUFLDB => 40,
            CubeOrientation::FULBDR => 41,
            CubeOrientation::LUBRDF => 42,
            CubeOrientation::BURFDL => 43,
            CubeOrientation::FDRBUL => 44,
            CubeOrientation::LDFRUB => 45,
            CubeOrientation::BDLFUR => 46,
            CubeOrientation::RDBLUF => 47,
        }
    }

    pub fn from_repr(repr: u8) -> (r: Option<CubeOrientation>)
        ensures
            r == Self::spec_from_repr(repr),
            r is Some <==> repr < 48,
            r is Some ==> r.unwrap().spec_repr() == repr,
    {
        if repr == 0 {
            Some(CubeOrientation::URFDLB)
        } else if repr == 1 {
            Some(CubeOrientation::UFLDBR)
        } else if repr == 2 {
            Some(CubeOrientation::ULBDRF)
        } else if repr == 3 {
            Some(CubeOrientation::UBRDFL)
        } else if repr == 4 {
            Some(CubeOrientation::DFRUBL)
        } else if repr == 5 {
            Some(CubeOrientation::DLFURB)
        } else if repr == 6 {
            Some(CubeOrientation::DBLUFR)
        } else if repr == 7 {
            Some(CubeOrientation::DRBULF)
        } else if repr == 8 {
            Some(CubeOrientation::FURBDL)
        } else if repr == 9 {
            Some(CubeOrientation::LUFRDB)
        } else if repr == 10 {
            Some(CubeOrientation::BULFDR)
        } else if repr == 11 {
            Some(CubeOrientation::RUBLDF)
        } else if repr == 12 {
            Some(CubeOrientation::RDFLUB)
        } else if repr == 13 {
            Some(CubeOrientation::FDLBUR)
        } else if repr == 14 {
            Some(CubeOrientation::LDBRUF)
        } else if repr == 15 {
            Some(CubeOrientation::BDRFUL)
        } else if repr == 16 {
            Some(CubeOrientation::RFULBD)
        } else if repr == 17 {
            Some(CubeOrientation::FLUBRD)
        } else if repr == 18 {
            Some(CubeOrientation::LBURFD)
        } else if repr == 19 {
            Some(CubeOrientation::BRUFLD)
        } else if repr == 20 {
            Some(CubeOrientation::FRDBLU)
        } else if repr == 21 {
            Some(CubeOrientation::LFDRBU)
        } else if repr == 22 {
            Some(CubeOrientation::BLDFRU)
        } else if repr == 23 {
            Some(CubeOrientation::RBDLFU)
        } else if repr == 24 {
            Some(CubeOrientation::FRUBLD)
        } else if repr == 25 {
            Some(CubeOrientation::LFURBD)
        } else if repr == 26 {
            Some(CubeOrientation::BLUFRD)
        } else if repr == 27 {
            Some(CubeOrientation::RBULFD)
        } else if repr == 28 {
            Some(CubeOrientation::RFDLBU)
        } else if repr == 29 {
            Some(CubeOrientation::FLDBRU)
        } else if repr == 30 {
            Some(CubeOrientation::LBDRFU)
        } else if repr == 31 {
            Some(CubeOrientation::BRDFLU)
        } else if repr == 32 {
            Some(CubeOrientation::UFRDBL)
        } else if repr == 33 {
            Some(CubeOrientation::ULFDRB)
        } else if repr == 34 {
            Some(CubeOrientation::UBLDFR)
        } else if repr == 35 {
            Some(CubeOrientation::URBDLF)
        } else if repr == 36 {
            Some(CubeOrientation::DRFULB)
        } else if repr == 37 {
            Some(CubeOrientation::DFLUBR)
        } else if repr == 38 {
            Some(CubeOrientation::DLBURF)
        } else if repr == 39 {
            Some(CubeOrientation::DBRUFL)
        } else if repr == 40 {
            Some(CubeOrientation::RUFLDB)
        } else if repr == 41 {
            Some(CubeOrientation::FULBDR)
        } else if repr == 42 {
            Some(CubeOrientation::LUBRDF)
        } else if repr == 43 {
            Some(CubeOrientation::BURFDL)
        } else if repr == 44 {
            Some(CubeOrientation::FDRBUL)
        } else if repr == 45 {
            Some(CubeOrientation::LDFRUB)
        } else if repr == 46 {
            Some(CubeOrientation::BDLFUR)
        } else if repr == 47 {
            Some(CubeOrientation::RDBLUF)
        } else {
            None
        }
    }
}


/// The opposite face of a face index in the order U, R, F, D, L, B.
pub open spec fn spec_opp(x: u8) -> u8 {
    if x < 3 {
        (x + 3) as u8
    } else {
        (x - 3) as u8
    }
}

/// A permutation of the six face labels that maps opposite faces to
/// opposite faces: exactly the 48 cube reorientations have one.
pub open spec fn is_cube_perm(p: Seq<u8>) -> bool {
    &&& p.len() == 6
    &&& p[0] < 6 && p[1] < 6 && p[2] < 6
    &&& p[3] == spec_opp(p[0]) && p[4] == spec_opp(p[1]) && p[5] == spec_opp(p[2])
    &&& p[1] != p[0] && p[1] != spec_opp(p[0])
    &&& p[2] != p[0] && p[2] != spec_opp(p[0]) && p[2] != p[1] && p[2] != spec_opp(p[1])
}

/// The composed permutation: apply `q`, then read positions through `p`.
pub open spec fn spec_compose(p: Seq<u8>, q: Seq<u8>) -> Seq<u8> {
    Seq::new(6, |k: int| p[q[k] as int])
}

/// Every reorientation's permutation is a cube permutation, and the
/// numeric code round-trips.
pub proof fn lemma_orientation_perm_valid(o: CubeOrientation)
    ensures
        is_cube_perm(spec_orientation_perm(o)),
        CubeOrientation::spec_from_repr(o.spec_repr()) == Some(o),
{
    match o {
        CubeOrientation::URFDLB => {
            assert(is_cube_perm(spec_orientation_perm(o)));
        },
        CubeOrientation::UFLDBR => {
            assert(is_cube_perm(spec_orientation_perm(o)));
        },
        CubeOrientation::ULBDRF => {
            assert(is_cube_perm(spec_orientation_perm(o)));
        },
        CubeOrientation::UBRDFL => {
            assert(is_cube_perm(spec_orientation_perm(o)));
        },
        CubeOrientation::DFRUBL => {
            assert(is_cube_perm(spec_orientation_perm(o)));
        },
        CubeOrientation::DLFURB => {
            assert(is_cube_perm(spec_orientation_perm(o)));
        },
        CubeOrientation::DBLUFR => {
            assert(is_cube_perm(spec_orientation_perm(o)));
        },
        CubeOrientation::DRBULF => {
            assert(is_cube_perm(spec_orientation_perm(o)));
        },
        CubeOrientation::FURBDL => {
            assert(is_cube_perm(spec_orientation_perm(o)));
        },
        CubeOrientation::LUFRDB => {
            assert(is_cube_perm(spec_orientation_perm(o)));
        },
        CubeOrientation::BULFDR => {
            assert(is_cube_perm(spec_orientation_perm(o)));
        },
        CubeOrientation::RUBLDF => {
            assert(is_cube_perm(spec_orientation_perm(o)));
        },
        CubeOrientation::RDFLUB => {
            assert(is_cube_perm(spec_orientation_perm(o)));
        },
        CubeOrientation::FDLBUR => {
            assert(is_cube_perm(spec_orientation_perm(o)));
        },
        CubeOrientation::LDBRUF => {
            assert(is_cube_perm(spec_orientation_perm(o)));
        },
        CubeOrientation::BDRFUL => {
            assert(is_cube_perm(spec_orientation_perm(o)));
        },
        CubeOrientation::RFULBD => {
            assert(is_cube_perm(spec_orientation_perm(o)));
        },
        CubeOrientation::FLUBRD => {
            assert(is_cube_perm(spec_orientation_perm(o)));
        },
        CubeOrientation::LBURFD => {
            assert(is_cube_perm(spec_orientation_perm(o)));
        },
        CubeOrientation::BRUFLD => {
            assert(is_cube_perm(spec_orientation_perm(o)));
        },
        CubeOrientation::FRDBLU => {
            assert(is_cube_perm(spec_orientation_perm(o)));
        },
        CubeOrientation::LFDRBU => {
            assert(is_cube_perm(spec_orientation_perm(o)));
        },
        CubeOrientation::BLDFRU => {
            assert(is_cube_perm(spec_orientation_perm(o)));
        },
        CubeOrientation::RBDLFU => {
            assert(is_cube_perm(spec_orientation_perm(o)));
        },
        CubeOrientation::FRUBLD => {
            assert(is_cube_perm(spec_orientation_perm(o)));
        },
        CubeOrientation::LFURBD => {
            assert(is_cube_perm(spec_orientation_perm(o)));
        },
        CubeOrientation::BLUFRD => {
            assert(is_cube_perm(spec_orientation_perm(o)));
        },
        CubeOrientation::RBULFD => {
            assert(is_cube_perm(spec_orientation_perm(o)));
        },
        CubeOrientation::RFDLBU => {
            assert(is_cube_perm(spec_orientation_perm(o)));
        },
        CubeOrientation::FLDBRU => {
            assert(is_cube_perm(spec_orientation_perm(o)));
        },
        CubeOrientation::LBDRFU => {
            assert(is_cube_perm(spec_orientation_perm(o)));
        },
        CubeOrientation::BRDFLU => {
            assert(is_cube_perm(spec_orientation_perm(o)));
        },
        CubeOrientation::UFRDBL => {
            assert(is_cube_perm(spec_orientation_perm(o)));
        },
        CubeOrientation::ULFDRB => {
            assert(is_cube_perm(spec_orientation_perm(o)));
        },
        CubeOrientation::UBLDFR => {
            assert(is_cube_perm(spec_orientation_perm(o)));
        },
        CubeOrientation::URBDLF => {
            assert(is_cube_perm(spec_orientation_perm(o)));
        },
        CubeOrientation::DRFULB => {
            assert(is_cube_perm(spec_orientation_perm(o)));
        },
        CubeOrientation::DFLUBR => {
            assert(is_cube_perm(spec_orientation_perm(o)));
        },
        CubeOrientation::DLBURF => {
            assert(is_cube_perm(spec_orientation_perm(o)));
        },
        CubeOrientation::DBRUFL => {
            assert(is_cube_perm(spec_orientation_perm(o)));
        },
        CubeOrientation::RUFLDB => {
            assert(is_cube_perm(spec_orientation_perm(o)));
        },
        CubeOrientation::FULBDR => {
            assert(is_cube_perm(spec_orientation_perm(o)));
        },
        CubeOrientation::LUBRDF => {
            assert(is_cube_perm(spec_orientation_perm(o)));
        },
        CubeOrientation::BURFDL => {
            assert(is_cube_perm(spec_orientation_perm(o)));
        },
        CubeOrientation::FDRBUL => {
            assert(is_cube_perm(spec_orientation_perm(o)));
        },
        CubeOrientation::LDFRUB => {
            assert(is_cube_perm(spec_orientation_perm(o)));
        },
        CubeOrientation::BDLFUR => {
            assert(is_cube_perm(spec_orientation_perm(o)));
        },
        CubeOrientation::RDBLUF => {
            assert(is_cube_perm(spec_orientation_perm(o)));
        },
    }
}

/// All six entries of a cube permutation differ.
pub proof fn lemma_cube_perm_distinct(p: Seq<u8>)
    requires
        is_cube_perm(p),
    ensures
        forall|a: int, b: int| 0 <= a < b < 6 ==> p[a] != p[b],
{
}

/// A cube permutation takes every face label.
pub proof fn lemma_cube_perm_onto(p: Seq<u8>, v: u8)
    requires
        is_cube_perm(p),
        v < 6,
    ensures
        exists|j: int| 0 <= j < 6 && p[j] == v,
{
    lemma_cube_perm_distinct(p);
    if p[0] != v && p[1] != v && p[2] != v && p[3] != v && p[4] != v && p[5] != v {
        assert(false);
    }
    let j = choose|j: int| 0 <= j < 6 && p[j] == v;
}

/// Opposite faces stay opposite through a cube permutation.
proof fn lemma_cube_perm_opp(p: Seq<u8>, x: u8)
    requires
        is_cube_perm(p),
        x < 6,
    ensures
        p[spec_opp(x) as int] == spec_opp(p[x as int]),
{
}

/// Cube permutations are closed under composition.
#[verifier::rlimit(100)]
pub proof fn lemma_compose_cube_perm(p: Seq<u8>, q: Seq<u8>)
    requires
        is_cube_perm(p),
        is_cube_perm(q),
    ensures
        is_cube_perm(spec_compose(p, q)),
{
    lemma_cube_perm_distinct(p);
    lemma_cube_perm_distinct(q);
    lemma_cube_perm_opp(p, q[0]);
    lemma_cube_perm_opp(p, q[1]);
    lemma_cube_perm_opp(p, q[2]);
}

/// The reorientation with a given permutation of the first three faces.
pub open spec fn spec_orientation_from_triple(a: u8, b: u8, c: u8) -> CubeOrientation {
    if a == 0 && b == 1 && c == 2 {
        CubeOrientation::URFDLB
    } else if a == 0 && b == 2 && c == 4 {
        CubeOrientation::UFLDBR
    } else if a == 0 && b == 4 && c == 5 {
        CubeOrientation::ULBDRF
    } else if a == 0 && b == 5 && c == 1 {
        CubeOrientation::UBRDFL
    } else if a == 3 && b == 2 && c == 1 {
        CubeOrientation::DFRUBL
    } else if a == 3 && b == 4 && c == 2 {
        CubeOrientation::DLFURB
    } else if a == 3 && b == 5 && c == 4 {
        CubeOrientation::DBLUFR
    } else if a == 3 && b == 1 && c == 5 {
        CubeOrientation::DRBULF
    } else if a == 2 && b == 0 && c == 1 {
        CubeOrientation::FURBDL
    } else if a == 4 && b == 0 && c == 2 {
        CubeOrientation::LUFRDB
    } else if a == 5 && b == 0 && c == 4 {
        CubeOrientation::BULFDR
    } else if a == 1 && b == 0 && c == 5 {
        CubeOrientation::RUBLDF
    } else if a == 1 && b == 3 && c == 2 {
        CubeOrientation::RDFLUB
    } else if a == 2 && b == 3 && c == 4 {
        CubeOrientation::FDLBUR
    } else if a == 4 && b == 3 && c == 5 {
        CubeOrientation::LDBRUF
    } else if a == 5 && b == 3 && c == 1 {
        CubeOrientation::BDRFUL
    } else if a == 1 && b == 2 && c == 0 {
        CubeOrientation::RFULBD
    } else if a == 2 && b == 4 && c == 0 {
        CubeOrientation::FLUBRD
    } else if a == 4 && b == 5 && c == 0 {
        CubeOrientation::LBURFD
    } else if a == 5 && b == 1 && c == 0 {
        CubeOrientation::BRUFLD
    } else if a == 2 && b == 1 && c == 3 {
        CubeOrientation::FRDBLU
    } else if a == 4 && b == 2 && c == 3 {
        CubeOrientation::LFDRBU
    } else if a == 5 && b == 4 && c == 3 {
        CubeOrientation::BLDFRU
    } else if a == 1 && b == 5 && c == 3 {
        CubeOrientation::RBDLFU
    } else if a == 2 && b == 1 && c == 0 {
        CubeOrientation::FRUBLD
    } else if a == 4 && b == 2 && c == 0 {
        CubeOrientation::LFURBD
    } else if a == 5 && b == 4 && c == 0 {
        CubeOrientation::BLUFRD
    } else if a == 1 && b == 5 && c == 0 {
        CubeOrientation::RBULFD
    } else if a == 1 && b == 2 && c == 3 {
        CubeOrientation::RFDLBU
    } else if a == 2 && b == 4 && c == 3 {
        CubeOrientation::FLDBRU
    } else if a == 4 && b == 5 && c == 3 {
        CubeOrientation::LBDRFU
    } else if a == 5 && b == 1 && c == 3 {
        CubeOrientation::BRDFLU
    } else if a == 0 && b == 2 && c == 1 {
        CubeOrientation::UFRDBL
    } else if a == 0 && b == 4 && c == 2 {
        CubeOrientation::ULFDRB
    } else if a == 0 && b == 5 && c == 4 {
        CubeOrientation::UBLDFR
    } else if a == 0 && b == 1 && c == 5 {
        CubeOrientation::URBDLF
    } else if a == 3 && b == 1 && c == 2 {
        CubeOrientation::DRFULB
    } else if a == 3 && b == 2 && c == 4 {
        CubeOrientation::DFLUBR
    } else if a == 3 && b == 4 && c == 5 {
        CubeOrientation::DLBURF
    } else if a == 3 && b == 5 && c == 1 {
        CubeOrientation::DBRUFL
    } else if a == 1 && b == 0 && c == 2 {
        CubeOrientation::RUFLDB
    } else if a == 2 && b == 0 && c == 4 {
        CubeOrientation::FULBDR
    } else if a == 4 && b == 0 && c == 5 {
        CubeOrientation::LUBRDF
    } else if a == 5 && b == 0 && c == 1 {
        CubeOrientation::BURFDL
    } else if a == 2 && b == 3 && c == 1 {
        CubeOrientation::FDRBUL
    } else if a == 4 && b == 3 && c == 2 {
        CubeOrientation::LDFRUB
    } else if a == 5 && b == 3 && c == 4 {
        CubeOrientation::BDLFUR
    } else if a == 1 && b == 3 && c == 5 {
        CubeOrientation::RDBLUF
    } else {
        CubeOrientation::URFDLB
    }
}

/// Every cube permutation belongs to one of the 48 reorientations.
pub proof fn lemma_cube_perm_complete(p: Seq<u8>)
    requires
        is_cube_perm(p),
    ensures
        spec_orientation_perm(spec_orientation_from_triple(p[0], p[1], p[2])) == p,
{
    let o = spec_orientation_from_triple(p[0], p[1], p[2]);
    assert(spec_orientation_perm(o) =~= p);
}

impl CubeOrientation {
    /// The face permutation as wire-level indices.
    pub fn perm(&self) -> (r: Vec<u8>)
        ensures
            r@ == spec_orientation_perm(*self),
    {
        let r: Vec<u8> = match self {
            CubeOrientation::URFDLB => vec![0u8, 1u8, 2u8, 3u8, 4u8, 5u8],
            CubeOrientation::UFLDBR => vec![0u8, 2u8, 4u8, 3u8, 5u8, 1u8],
            CubeOrientation::ULBDRF => vec![0u8, 4u8, 5u8, 3u8, 1u8, 2u8],
            CubeOrientation::UBRDFL => vec![0u8, 5u8, 1u8, 3u8, 2u8, 4u8],
            CubeOrientation::DFRUBL => vec![3u8, 2u8, 1u8, 0u8, 5u8, 4u8],
            CubeOrientation::DLFURB => vec![3u8, 4u8, 2u8, 0u8, 1u8, 5u8],
            CubeOrientation::DBLUFR => vec![3u8, 5u8, 4u8, 0u8, 2u8, 1u8],
            CubeOrientation::DRBULF => vec![3u8, 1u8, 5u8, 0u8, 4u8, 2u8],
            CubeOrientation::FURBDL => vec![2u8, 0u8, 1u8, 5u8, 3u8, 4u8],
            CubeOrientation::LUFRDB => vec![4u8, 0u8, 2u8, 1u8, 3u8, 5u8],
            CubeOrientation::BULFDR => vec![5u8, 0u8, 4u8, 2u8, 3u8, 1u8],
            CubeOrientation::RUBLDF => vec![1u8, 0u8, 5u8, 4u8, 3u8, 2u8],
            CubeOrientation::RDFLUB => vec![1u8, 3u8, 2u8, 4u8, 0u8, 5u8],
            CubeOrientation::FDLBUR => vec![2u8, 3u8, 4u8, 5u8, 0u8, 1u8],
            CubeOrientation::LDBRUF => vec![4u8, 3u8, 5u8, 1u8, 0u8, 2u8],
            CubeOrientation::BDRFUL => vec![5u8, 3u8, 1u8, 2u8, 0u8, 4u8],
            CubeOrientation::RFULBD => vec![1u8, 2u8, 0u8, 4u8, 5u8, 3u8],
            CubeOrientation::FLUBRD => vec![2u8, 4u8, 0u8, 5u8, 1u8, 3u8],
            CubeOrientation::LBURFD => vec![4u8, 5u8, 0u8, 1u8, 2u8, 3u8],
            CubeOrientation::BRUFLD => vec![5u8, 1u8, 0u8, 2u8, 4u8, 3u8],
            CubeOrientation::FRDBLU => vec![2u8, 1u8, 3u8, 5u8, 4u8, 0u8],
            CubeOrientation::LFDRBU => vec![4u8, 2u8, 3u8, 1u8, 5u8, 0u8],
            CubeOrientation::BLDFRU => vec![5u8, 4u8, 3u8, 2u8, 1u8, 0u8],
            CubeOrientation::RBDLFU => vec![1u8, 5u8, 3u8, 4u8, 2u8, 0u8],
            CubeOrientation::FRUBLD => vec![2u8, 1u8, 0u8, 5u8, 4u8, 3u8],
            CubeOrientation::LFURBD => vec![4u8, 2u8, 0u8, 1u8, 5u8, 3u8],
            CubeOrientation::BLUFRD => vec![5u8, 4u8, 0u8, 2u8, 1u8, 3u8],
            CubeOrientation::RBULFD => vec![1u8, 5u8, 0u8, 4u8, 2u8, 3u8],
            CubeOrientation::RFDLBU => vec![1u8, 2u8, 3u8, 4u8, 5u8, 0u8],
            CubeOrientation::FLDBRU => vec![2u8, 4u8, 3u8, 5u8, 1u8, 0u8],
            CubeOrientation::LBDRFU => vec![4u8, 5u8, 3u8, 1u8, 2u8, 0u8],
            CubeOrientation::BRDFLU => vec![5u8, 1u8, 3u8, 2u8, 4u8, 0u8],
            CubeOrientation::UFRDBL => vec![0u8, 2u8, 1u8, 3u8, 5u8, 4u8],
            CubeOrientation::ULFDRB => vec![0u8, 4u8, 2u8, 3u8, 1u8, 5u8],
            CubeOrientation::UBLDFR => vec![0u8, 5u8, 4u8, 3u8, 2u8, 1u8],
            CubeOrientation::URBDLF => vec![0u8, 1u8, 5u8, 3u8, 4u8, 2u8],
            CubeOrientation::DRFULB => vec![3u8, 1u8, 2u8, 0u8, 4u8, 5u8],
            CubeOrientation::DFLUBR => vec![3u8, 2u8, 4u8, 0u8, 5u8, 1u8],
            CubeOrientation::DLBURF => vec![3u8, 4u8, 5u8, 0u8, 1u8, 2u8],
            CubeOrientation::DBRUFL => vec![3u8, 5u8, 1u8, 0u8, 2u8, 4u8],
            CubeOrientation::RUFLDB => vec![1u8, 0u8, 2u8, 4u8, 3u8, 5u8],
            CubeOrientation::FULBDR => vec![2u8, 0u8, 4u8, 5u8, 3u8, 1u8],
            CubeOrientation::LUBRDF => vec![4u8, 0u8, 5u8, 1u8, 3u8, 2u8],
            CubeOrientation::BURFDL => vec![5u8, 0u8, 1u8, 2u8, 3u8, 4u8],
            CubeOrientation::FDRBUL => vec![2u8, 3u8, 1u8, 5u8, 0u8, 4u8],
            CubeOrientation::LDFRUB => vec![4u8, 3u8, 2u8, 1u8, 0u8, 5u8],
            CubeOrientation::BDLFUR => vec![5u8, 3u8, 4u8, 2u8, 0u8, 1u8],
            CubeOrientation::RDBLUF => vec![1u8, 3u8, 5u8, 4u8, 0u8, 2u8],
        };
        proof {
            assert(r@ =~= spec_orientation_perm(*self));
        }
        r
    }

    /// The face letter at each position of the name.
    pub fn chars(&self) -> (r: Vec<char>)
        ensures
            r@.len() == 6,
            forall|k: int|
                0 <= k < 6 ==> r@[k] == spec_face_char(spec_orientation_perm(*self)[k] as int),
    {
        proof {
            lemma_orientation_perm_valid(*self);
        }
        let p = self.perm();
        let mut r: Vec<char> = Vec::new();
        let mut k: usize = 0;
        while k < 6
            invariant
                k <= 6,
                p@ == spec_orientation_perm(*self),
                is_cube_perm(p@),
                r@.len() == k,
                forall|j: int| 0 <= j < k ==> r@[j] == spec_face_char(p@[j] as int),
            decreases 6 - k,
        {
            r.push(face_char(p[k]));
            k = k + 1;
        }
        r
    }

    /// Find the reorientation with this face permutation, if it is one.
    pub fn try_from_perm(perm: &Vec<u8>) -> (r: Option<CubeOrientation>)
        ensures
            match r {
                Some(o) => spec_orientation_perm(o) == perm@,
                None => !is_cube_perm(perm@),
            },
    {
        let mut k: u8 = 0;
        while k < 48
            invariant
                k <= 48,
                forall|j: u8|
                    j < k ==> spec_orientation_perm(
                        #[trigger] CubeOrientation::spec_from_repr(j).unwrap(),
                    ) != perm@,
            decreases 48 - k,
        {
            let cand = match Self::from_repr(k) {
                Some(c) => c,
                None => {
                    return None;  // unreachable: k stays below 48
                },
            };
            let cp = cand.perm();
            if vec_u8_eq(&cp, perm) {
                return Some(cand);
            }
            k = k + 1;
        }
        proof {
            if is_cube_perm(perm@) {
                lemma_cube_perm_complete(perm@);
                let o = spec_orientation_from_triple(perm@[0], perm@[1], perm@[2]);
                lemma_orientation_perm_valid(o);
                assert(CubeOrientation::spec_from_repr(o.spec_repr()).unwrap() == o);
                assert(false);
            }
        }
        None
    }

    /// Whether this reorientation mirrors the cube.
    pub fn is_mirror(&self) -> (r: bool)
        ensures
            r == self.spec_is_mirror(),
    {
        self.repr() >= 24
    }

    pub open spec fn spec_is_mirror(self) -> bool {
        self.spec_repr() >= 24
    }

    /// Group composition: first this reorientation, then reading the
    /// other one through it.
    pub fn add(self, rhs: CubeOrientation) -> (r: CubeOrientation)
        ensures
            spec_orientation_perm(r) == spec_compose(
                spec_orientation_perm(self),
                spec_orientation_perm(rhs),
            ),
    {
        proof {
            lemma_orientation_perm_valid(self);
            lemma_orientation_perm_valid(rhs);
            lemma_compose_cube_perm(
                spec_orientation_perm(self),
                spec_orientation_perm(rhs),
            );
        }
        let p = self.perm();
        let q = rhs.perm();
        let mut c: Vec<u8> = Vec::new();
        let mut k: usize = 0;
        while k < 6
            invariant
                k <= 6,
                p@ == spec_orientation_perm(self),
                q@ == spec_orientation_perm(rhs),
                is_cube_perm(p@),
                is_cube_perm(q@),
                c@.len() == k,
                forall|j: int| 0 <= j < k ==> c@[j] == p@[q@[j] as int],
            decreases 6 - k,
        {
            proof {
                lemma_cube_perm_distinct(q@);
            }
            c.push(p[q[k] as usize]);
            k = k + 1;
        }
        proof {
            assert(c@ =~= spec_compose(p@, q@));
        }
        match Self::try_from_perm(&c) {
            Some(o) => o,
            None => {
                proof {
                    assert(false);
                }
                CubeOrientation::URFDLB
            },
        }
    }

    /// Group inversion: the permutation read backwards.
    pub fn neg(self) -> (r: CubeOrientation)
        ensures
            spec_compose(
                spec_orientation_perm(r),
                spec_orientation_perm(self),
            ) == spec_orientation_perm(CubeOrientation::URFDLB),
    {
        proof {
            lemma_orientation_perm_valid(self);
            lemma_cube_perm_distinct(spec_orientation_perm(self));
        }
        let p = self.perm();
        let mut inv: Vec<u8> = Vec::new();
        let mut k: u8 = 0;
        while k < 6
            invariant
                k <= 6,
                p@ == spec_orientation_perm(self),
                is_cube_perm(p@),
                inv@.len() == k,
                forall|j: int| 0 <= j < k ==> inv@[j] < 6 && p@[inv@[j] as int] == j,
            decreases 6 - k,
        {
            let pos = find_face_position(&p, k);
            inv.push(pos);
            k = k + 1;
        }
        proof {
            // the inverse of a cube permutation is one as well
            assert(is_cube_perm(inv@)) by {
                lemma_cube_perm_distinct(p@);
                assert forall|x: u8| x < 6 implies p@[spec_opp(inv@[x as int]) as int]
                    == spec_opp(x) by {
                    lemma_cube_perm_opp(p@, inv@[x as int]);
                }
            }
            lemma_cube_perm_complete(inv@);
        }
        match Self::try_from_perm(&inv) {
            Some(o) => {
                proof {
                    assert(spec_compose(spec_orientation_perm(o), p@)
                        =~= spec_orientation_perm(CubeOrientation::URFDLB));
                }
                o
            },
            None => {
                proof {
                    assert(false);
                }
                CubeOrientation::URFDLB
            },
        }
    }

    /// How each move reads in this reorientation's frame: entry `m` is
    /// the move whose face maps to the face of move code `m`, with the
    /// direction flipped under a mirror.
    pub fn as_map(&self) -> (r: Vec<CubeMove>)
        ensures
            r@.len() == 12,
            forall|m: int|
                0 <= m < 12 ==> spec_orientation_perm(*self)[((#[trigger] r@[m]).spec_repr()
                    / 2) as int] == m / 2,
            forall|m: int|
                0 <= m < 12 ==> ((#[trigger] r@[m]).spec_repr() % 2) == (if self.spec_is_mirror() {
                    (m % 2 + 1) % 2
                } else {
                    m % 2
                }),
    {
        proof {
            lemma_orientation_perm_valid(*self);
        }
        let p = self.perm();
        let mirror = self.is_mirror();
        let mut r: Vec<CubeMove> = Vec::new();
        let mut m: u8 = 0;
        while m < 12
            invariant
                m <= 12,
                p@ == spec_orientation_perm(*self),
                is_cube_perm(p@),
                mirror == self.spec_is_mirror(),
                r@.len() == m,
                forall|j: int|
                    0 <= j < m ==> p@[((#[trigger] r@[j]).spec_repr() / 2) as int] == j / 2,
                forall|j: int|
                    0 <= j < m ==> ((#[trigger] r@[j]).spec_repr() % 2) == (
                    if self.spec_is_mirror() {
                        (j % 2 + 1) % 2
                    } else {
                        j % 2
                    }),
            decreases 12 - m,
        {
            let ind = m / 2;
            let dir = m % 2;
            let ind2 = find_face_position(&p, ind);
            let dir2 = if mirror {
                (dir + 1) % 2
            } else {
                dir
            };
            let code = ind2 * 2 + dir2;
            let mv = match CubeMove::from_repr(code) {
                Some(mv) => mv,
                None => {
                    proof {
                        assert(false);
                    }
                    CubeMove::U
                },
            };
            r.push(mv);
            m = m + 1;
        }
        r
    }
}

impl Default for CubeOrientation {
    /// The identity reorientation.
    fn default() -> (r: CubeOrientation)
        ensures
            r == CubeOrientation::URFDLB,
    {
        CubeOrientation::URFDLB
    }
}

/// The face letter of a face index, in the order U, R, F, D, L, B.
pub open spec fn spec_face_char(i: int) -> char {
    if i == 0 {
        'U'
    } else if i == 1 {
        'R'
    } else if i == 2 {
        'F'
    } else if i == 3 {
        'D'
    } else if i == 4 {
        'L'
    } else {
        'B'
    }
}

fn face_char(i: u8) -> (r: char)
    requires
        i < 6,
    ensures
        r == spec_face_char(i as int),
{
    if i == 0 {
        'U'
    } else if i == 1 {
        'R'
    } else if i == 2 {
        'F'
    } else if i == 3 {
        'D'
    } else if i == 4 {
        'L'
    } else {
        'B'
    }
}

/// Where a face label sits in a cube permutation.
fn find_face_position(p: &Vec<u8>, v: u8) -> (r: u8)
    requires
        is_cube_perm(p@),
        v < 6,
    ensures
        r < 6,
        p@[r as int] == v,
{
    proof {
        lemma_cube_perm_onto(p@, v);
    }
    let mut j: u8 = 0;
    while j < 6
        invariant
            j <= 6,
            is_cube_perm(p@),
            forall|k: int| 0 <= k < j ==> p@[k] != v,
        decreases 6 - j,
    {
        if p[j as usize] == v {
            return j;
        }
        j = j + 1;
    }
    proof {
        lemma_cube_perm_onto(p@, v);
        assert(false);
    }
    0
}

/// Whether two byte vectors hold the same bytes.
fn vec_u8_eq(a: &Vec<u8>, b: &Vec<u8>) -> (r: bool)
    ensures
        r == (a@ == b@),
{
    if a.len() != b.len() {
        assert(a@ !~= b@);
        return false;
    }
    let mut i: usize = 0;
    while i < a.len()
        invariant
            i <= a@.len(),
            a@.len() == b@.len(),
            forall|j: int| 0 <= j < i ==> a@[j] == b@[j],
        decreases a@.len() - i,
    {
        if a[i] != b[i] {
            assert(a@ != b@);
            return false;
        }
        i = i + 1;
    }
    proof {
        assert(a@ =~= b@);
    }
    true
}

/// The permutation reached by composing the first `n` reorientations of a
/// path, left to right.
pub open spec fn spec_path_perm(path: Seq<CubeOrientation>, n: int) -> Seq<u8>
    decreases n,
{
    if n <= 1 {
        spec_orientation_perm(path[0])
    } else {
        spec_compose(spec_path_perm(path, n - 1), spec_orientation_perm(path[n - 1]))
    }
}

/// The composed value of a path depends only on its first `n` entries.
proof fn lemma_path_perm_prefix(p1: Seq<CubeOrientation>, p2: Seq<CubeOrientation>, n: int)
    requires
        n >= 1,
        forall|k: int| 0 <= k < n ==> p1[k] == p2[k],
    ensures
        spec_path_perm(p1, n) == spec_path_perm(p2, n),
    decreases n,
{
    if n > 1 {
        lemma_path_perm_prefix(p1, p2, n - 1);
    }
}

/// Pairwise distinct reorientations are at most 48.
proof fn lemma_distinct_orientations_bounded(s: Seq<CubeOrientation>)
    requires
        forall|a: int, b: int| 0 <= a < b < s.len() ==> s[a] != s[b],
    ensures
        s.len() <= 48,
{
    if s.len() > 48 {
        let si = s.map_values(|o: CubeOrientation| o.spec_repr() as int);
        assert forall|a: int, b: int| 0 <= a < b < si.len() implies si[a] != si[b] by {
            lemma_orientation_perm_valid(s[a]);
            lemma_orientation_perm_valid(s[b]);
            if s[a].spec_repr() == s[b].spec_repr() {
                assert(CubeOrientation::spec_from_repr(s[a].spec_repr())
                    == CubeOrientation::spec_from_repr(s[b].spec_repr()));
            }
        }
        assert(si.no_duplicates());
        si.unique_seq_to_set();
        let range = vstd::set_lib::set_int_range(0, 48);
        assert forall|x: int| si.to_set().contains(x) implies range.contains(x) by {
            let i = choose|i: int| 0 <= i < si.len() && si[i] == x;
            lemma_orientation_perm_valid(s[i]);
        }
        assert(si.to_set().subset_of(range));
        vstd::set_lib::lemma_int_range(0, 48);
        vstd::set_lib::lemma_len_subset(si.to_set(), range);
        assert(false);
    }
}

/// Whether some entry of the table carries this reorientation.
pub open spec fn spec_table_contains(
    res: Seq<(CubeOrientation, Vec<CubeOrientation>)>,
    x: CubeOrientation,
) -> bool {
    exists|e: int| 0 <= e < res.len() && (#[trigger] res[e]).0 == x
}

/// Whether some entry of the table already carries this reorientation.
fn span_contains(res: &Vec<(CubeOrientation, Vec<CubeOrientation>)>, x: CubeOrientation) -> (r:
    bool)
    ensures
        r == spec_table_contains(res@, x),
{
    let mut i: usize = 0;
    while i < res.len()
        invariant
            i <= res@.len(),
            forall|j: int| 0 <= j < i ==> (#[trigger] res@[j]).0 != x,
        decreases res@.len() - i,
    {
        if res[i].0 == x {
            assert(spec_table_contains(res@, x));
            return true;
        }
        i = i + 1;
    }
    assert(!spec_table_contains(res@, x));
    false
}

/// A fresh copy of a path.
fn clone_path(p: &Vec<CubeOrientation>) -> (r: Vec<CubeOrientation>)
    ensures
        r@ == p@,
{
    let mut r: Vec<CubeOrientation> = Vec::new();
    let mut i: usize = 0;
    while i < p.len()
        invariant
            i <= p@.len(),
            r@ == p@.take(i as int),
        decreases p@.len() - i,
    {
        r.push(p[i]);
        assert(r@ =~= p@.take(i + 1));
        i = i + 1;
    }
    assert(r@ =~= p@);
    r
}

/// The subgroup table spanned by a set of generators: every reachable
/// reorientation, each with one generator path that composes to it. The
/// generators themselves come first, and everything found beyond them is
/// new to the table.
pub fn span(gen: &Vec<CubeOrientation>) -> (r: Vec<(CubeOrientation, Vec<CubeOrientation>)>)
    ensures
        r@.len() >= gen@.len(),
        forall|j: int|
            0 <= j < gen@.len() ==> (#[trigger] r@[j]).0 == gen@[j] && r@[j].1@ == seq![gen@[j]],
        forall|j: int|
            0 <= j < r@.len() ==> (#[trigger] r@[j]).1@.len() >= 1 && spec_orientation_perm(
                r@[j].0,
            ) == spec_path_perm(r@[j].1@, r@[j].1@.len() as int),
        forall|j: int, k: int|
            gen@.len() <= j < r@.len() && 0 <= k < j ==> (#[trigger] r@[k]).0 != (
            #[trigger] r@[j]).0,
{
    let g = gen.len();
    let mut res: Vec<(CubeOrientation, Vec<CubeOrientation>)> = Vec::new();
    let mut leaves: Vec<CubeOrientation> = Vec::new();
    let mut i: usize = 0;
    while i < g
        invariant
            i <= g,
            g == gen@.len(),
            res@.len() == i,
            leaves@.len() == i,
            forall|j: int|
                0 <= j < i ==> (#[trigger] res@[j]).0 == gen@[j] && res@[j].1@ == seq![gen@[j]],
            forall|j: int| 0 <= j < i ==> (#[trigger] leaves@[j]) == gen@[j],
        decreases g - i,
    {
        let e = gen[i];
        let mut path: Vec<CubeOrientation> = Vec::new();
        path.push(e);
        assert(path@ =~= seq![e]);
        res.push((e, path));
        leaves.push(e);
        i = i + 1;
    }
    proof {
        assert forall|l: int| 0 <= l < leaves@.len() implies spec_table_contains(
            res@,
            #[trigger] leaves@[l],
        ) by {
            assert(res@[l].0 == leaves@[l]);
        }
    }
    while leaves.len() > 0
        invariant
            g == gen@.len(),
            g <= res@.len() <= g + 48,
            forall|j: int|
                0 <= j < g ==> (#[trigger] res@[j]).0 == gen@[j] && res@[j].1@ == seq![gen@[j]],
            forall|j: int|
                0 <= j < res@.len() ==> (#[trigger] res@[j]).1@.len() >= 1
                    && spec_orientation_perm(res@[j].0) == spec_path_perm(
                    res@[j].1@,
                    res@[j].1@.len() as int,
                ),
            forall|j: int, k: int|
                g <= j < res@.len() && 0 <= k < j ==> (#[trigger] res@[k]).0 != (
                #[trigger] res@[j]).0,
            forall|l: int|
                0 <= l < leaves@.len() ==> spec_table_contains(res@, #[trigger] leaves@[l]),
        decreases g + 48 - res@.len(), leaves@.len(),
    {
        let ghost res0 = res@;
        let ghost leaves_before = leaves@;
        let leaf = match leaves.pop() {
            Some(l) => l,
            None => {
                proof {
                    assert(false);
                }
                CubeOrientation::URFDLB
            },
        };
        let ghost leaves1 = leaves@;
        proof {
            assert forall|l: int| 0 <= l < leaves@.len() implies spec_table_contains(
                res@,
                #[trigger] leaves@[l],
            ) by {
                assert(leaves@[l] == leaves_before[l]);
            }
        }
        // look the leaf's path up; it is always in the table
        let mut at: usize = 0;
        let mut found = false;
        while at < res.len() && !found
            invariant
                at <= res@.len(),
                res@ == res0,
                found ==> at < res@.len() && res@[at as int].0 == leaf,
                !found ==> forall|j: int| 0 <= j < at ==> (#[trigger] res@[j]).0 != leaf,
            decreases res@.len() - at + (if found { 0int } else { 1int }),
        {
            if res[at].0 == leaf {
                found = true;
            } else {
                at = at + 1;
            }
        }
        if !found {
            proof {
                assert(spec_table_contains(res0, leaf));
                let e = choose|e: int| 0 <= e < res0.len() && (#[trigger] res0[e]).0 == leaf;
                assert(false);
            }
            return res;
        }
        let path = clone_path(&res[at].1);
        let mut a: usize = 0;
        while a < g
            invariant
                a <= g,
                g == gen@.len(),
                g <= res@.len() <= g + 48,
                res@.len() >= res0.len(),
                leaves@.len() == leaves1.len() + res@.len() - res0.len(),
                path@.len() >= 1,
                spec_orientation_perm(leaf) == spec_path_perm(path@, path@.len() as int),
                forall|j: int|
                    0 <= j < g ==> (#[trigger] res@[j]).0 == gen@[j] && res@[j].1@ == seq![
                        gen@[j],
                    ],
                forall|j: int|
                    0 <= j < res@.len() ==> (#[trigger] res@[j]).1@.len() >= 1
                        && spec_orientation_perm(res@[j].0) == spec_path_perm(
                        res@[j].1@,
                        res@[j].1@.len() as int,
                    ),
                forall|j: int, k: int|
                    g <= j < res@.len() && 0 <= k < j ==> (#[trigger] res@[k]).0 != (
                    #[trigger] res@[j]).0,
                forall|l: int|
                    0 <= l < leaves@.len() ==> spec_table_contains(res@, #[trigger] leaves@[l]),
            decreases g - a,
        {
            let next = leaf.add(gen[a]);
            if !span_contains(&res, next) {
                let mut next_path = clone_path(&path);
                next_path.push(gen[a]);
                proof {
                    lemma_path_perm_prefix(next_path@, path@, path@.len() as int);
                    assert(spec_path_perm(next_path@, next_path@.len() as int) == spec_compose(
                        spec_path_perm(path@, path@.len() as int),
                        spec_orientation_perm(gen@[a as int]),
                    ));
                    // the table cannot outgrow the group
                    let newsec = Seq::new((res@.len() - g) as nat, |j: int| res@[g + j].0).push(
                        next,
                    );
                    assert forall|x: int, y: int|
                        0 <= x < y < newsec.len() implies newsec[x] != newsec[y] by {
                        if y < newsec.len() - 1 {
                            assert(newsec[x] == res@[g + x].0 && newsec[y] == res@[g + y].0);
                        } else {
                            assert(newsec[x] == res@[g + x].0 && newsec[y] == next);
                        }
                    }
                    lemma_distinct_orientations_bounded(newsec);
                }
                let ghost res_a = res@;
                let ghost leaves_a = leaves@;
                res.push((next, next_path));
                leaves.push(next);
                proof {
                    assert forall|l: int| 0 <= l < leaves@.len() implies spec_table_contains(
                        res@,
                        #[trigger] leaves@[l],
                    ) by {
                        if l < leaves_a.len() {
                            assert(leaves@[l] == leaves_a[l]);
                            assert(spec_table_contains(res_a, leaves_a[l]));
                            let e = choose|e: int|
                                0 <= e < res_a.len() && (#[trigger] res_a[e]).0 == leaves_a[l];
                            assert(res@[e].0 == leaves@[l]);
                        } else {
                            assert(leaves@[l] == next);
                            assert(res@[res_a.len() as int].0 == next);
                        }
                    }
                }
            }
            a = a + 1;
        }
    }
    res
}

} // verus!
