//! The cube algebra: quarter-turn moves with their axis/inverse/commutation
//! relations, piece positions, modular piece orientations, and full cube
//! state snapshots.
use vstd::prelude::*;
use vstd::string::StringExecFns;

verus! {

/// The 12 quarter-turn moves. `U` turns the up face clockwise, `Up` is the
/// counter-clockwise turn of the same face, and so on for the six faces.
#[derive(Clone, Copy, PartialEq, Eq, Structural, Hash, Debug)]
pub enum CubeMove {
    U,
    Up,
    R,
    Rp,
    F,
    Fp,
    D,
    Dp,
    L,
    Lp,
    B,
    Bp,
}

impl CubeMove {
    /// The numeric code of the move on the wire: face index times two,
    /// plus one for the counter-clockwise direction.
    pub open spec fn spec_repr(self) -> u8 {
        match self {
            CubeMove::U => 0,
            CubeMove::Up => 1,
            CubeMove::R => 2,
            CubeMove::Rp => 3,
            CubeMove::F => 4,
            CubeMove::Fp => 5,
            CubeMove::D => 6,
            CubeMove::Dp => 7,
            CubeMove::L => 8,
            CubeMove::Lp => 9,
            CubeMove::B => 10,
            CubeMove::Bp => 11,
        }
    }

    pub open spec fn spec_from_repr(repr: u8) -> Option<CubeMove> {
        if repr == 0 {
            Some(CubeMove::U)
        } else if repr == 1 {
            Some(CubeMove::Up)
        } else if repr == 2 {
            Some(CubeMove::R)
        } else if repr == 3 {
            Some(CubeMove::Rp)
        } else if repr == 4 {
            Some(CubeMove::F)
        } else if repr == 5 {
            Some(CubeMove::Fp)
        } else if repr == 6 {
            Some(CubeMove::D)
        } else if repr == 7 {
            Some(CubeMove::Dp)
        } else if repr == 8 {
            Some(CubeMove::L)
        } else if repr == 9 {
            Some(CubeMove::Lp)
        } else if repr == 10 {
            Some(CubeMove::B)
        } else if repr == 11 {
            Some(CubeMove::Bp)
        } else {
            None
        }
    }

    pub fn repr(self) -> (r: u8)
        ensures
            r == self.spec_repr(),
    {
        match self {
            CubeMove::U => 0,
            CubeMove::Up => 1,
            CubeMove::R => 2,
            CubeMove::Rp => 3,
            CubeMove::F => 4,
            CubeMove::Fp => 5,
            CubeMove::D => 6,
            CubeMove::Dp => 7,
            CubeMove::L => 8,
            CubeMove::Lp => 9,
            CubeMove::B => 10,
            CubeMove::Bp => 11,
        }
    }

    pub fn from_repr(repr: u8) -> (r: Option<CubeMove>)
        ensures
            r == Self::spec_from_repr(repr),
            r is Some <==> repr < 12,
            r is Some ==> r.unwrap().spec_repr() == repr,
    {
        if repr == 0 {
            Some(CubeMove::U)
        } else if repr == 1 {
            Some(CubeMove::Up)
        } else if repr == 2 {
            Some(CubeMove::R)
        } else if repr == 3 {
            Some(CubeMove::Rp)
        } else if repr == 4 {
            Some(CubeMove::F)
        } else if repr == 5 {
            Some(CubeMove::Fp)
        } else if repr == 6 {
            Some(CubeMove::D)
        } else if repr == 7 {
            Some(CubeMove::Dp)
        } else if repr == 8 {
            Some(CubeMove::L)
        } else if repr == 9 {
            Some(CubeMove::Lp)
        } else if repr == 10 {
            Some(CubeMove::B)
        } else if repr == 11 {
            Some(CubeMove::Bp)
        } else {
            None
        }
    }

    /// Clockwise moves carry even codes.
    pub open spec fn spec_is_clockwise(self) -> bool {
        self.spec_repr() % 2 == 0
    }

    pub fn is_clockwise(self) -> (r: bool)
        ensures
            r == self.spec_is_clockwise(),
    {
        self.repr() % 2 == 0
    }

    /// The same face turned the other way.
    pub open spec fn spec_rev(self) -> CubeMove {
        match self {
            CubeMove::U => CubeMove::Up,
            CubeMove::Up => CubeMove::U,
            CubeMove::R => CubeMove::Rp,
            CubeMove::Rp => CubeMove::R,
            CubeMove::F => CubeMove::Fp,
            CubeMove::Fp => CubeMove::F,
            CubeMove::D => CubeMove::Dp,
            CubeMove::Dp => CubeMove::D,
            CubeMove::L => CubeMove::Lp,
            CubeMove::Lp => CubeMove::L,
            CubeMove::B => CubeMove::Bp,
            CubeMove::Bp => CubeMove::B,
        }
    }

    pub fn rev(self) -> (r: CubeMove)
        ensures
            r == self.spec_rev(),
    {
        match self {
            CubeMove::U => CubeMove::Up,
            CubeMove::Up => CubeMove::U,
            CubeMove::R => CubeMove::Rp,
            CubeMove::Rp => CubeMove::R,
            CubeMove::F => CubeMove::Fp,
            CubeMove::Fp => CubeMove::F,
            CubeMove::D => CubeMove::Dp,
            CubeMove::Dp => CubeMove::D,
            CubeMove::L => CubeMove::Lp,
            CubeMove::Lp => CubeMove::L,
            CubeMove::B => CubeMove::Bp,
            CubeMove::Bp => CubeMove::B,
        }
    }

    /// The move with the direction stripped: the clockwise turn of the same
    /// face.
    pub open spec fn spec_abs(self) -> CubeMove {
        match self {
            CubeMove::U => CubeMove::U,
            CubeMove::Up => CubeMove::U,
            CubeMove::R => CubeMove::R,
            CubeMove::Rp => CubeMove::R,
            CubeMove::F => CubeMove::F,
            CubeMove::Fp => CubeMove::F,
            CubeMove::D => CubeMove::D,
            CubeMove::Dp => CubeMove::D,
            CubeMove::L => CubeMove::L,
            CubeMove::Lp => CubeMove::L,
            CubeMove::B => CubeMove::B,
            CubeMove::Bp => CubeMove::B,
        }
    }

    pub fn abs(self) -> (r: CubeMove)
        ensures
            r == self.spec_abs(),
    {
        match self {
            CubeMove::U => CubeMove::U,
            CubeMove::Up => CubeMove::U,
            CubeMove::R => CubeMove::R,
            CubeMove::Rp => CubeMove::R,
            CubeMove::F => CubeMove::F,
            CubeMove::Fp => CubeMove::F,
            CubeMove::D => CubeMove::D,
            CubeMove::Dp => CubeMove::D,
            CubeMove::L => CubeMove::L,
            CubeMove::Lp => CubeMove::L,
            CubeMove::B => CubeMove::B,
            CubeMove::Bp => CubeMove::B,
        }
    }

    /// The axis of the move: 0 for U/D, 1 for R/L, 2 for F/B.
    pub open spec fn spec_axis(self) -> u8 {
        (self.spec_repr() / 2) % 3
    }

    /// Two moves commute exactly when their faces lie on the same axis.
    pub open spec fn spec_commute(self, other: CubeMove) -> bool {
        self.spec_axis() == other.spec_axis()
    }

    pub fn commute(self, other: CubeMove) -> (r: bool)
        ensures
            r == self.spec_commute(other),
    {
        (self.repr() / 2) % 3 == (other.repr() / 2) % 3
    }
}

/// The 8 corner slots of a solved cube, in wire order.
#[derive(Clone, Copy, PartialEq, Eq, Structural, Debug)]
pub enum CornerPosition {
    URF,
    UFL,
    ULB,
    UBR,
    DFR,
    DLF,
    DBL,
    DRB,
}

impl CornerPosition {
    pub open spec fn spec_repr(self) -> u8 {
        match self {
            CornerPosition::URF => 0,
            CornerPosition::UFL => 1,
            CornerPosition::ULB => 2,
            CornerPosition::UBR => 3,
            CornerPosition::DFR => 4,
            CornerPosition::DLF => 5,
            CornerPosition::DBL => 6,
            CornerPosition::DRB => 7,
        }
    }

    pub open spec fn spec_from_repr(repr: u8) -> Option<CornerPosition> {
        if repr == 0 {
            Some(CornerPosition::URF)
        } else if repr == 1 {
            Some(CornerPosition::UFL)
        } else if repr == 2 {
            Some(CornerPosition::ULB)
        } else if repr == 3 {
            Some(CornerPosition::UBR)
        } else if repr == 4 {
            Some(CornerPosition::DFR)
        } else if repr == 5 {
            Some(CornerPosition::DLF)
        } else if repr == 6 {
            Some(CornerPosition::DBL)
        } else if repr == 7 {
            Some(CornerPosition::DRB)
        } else {
            None
        }
    }

    pub fn repr(self) -> (r: u8)
        ensures
            r == self.spec_repr(),
    {
        match self {
            CornerPosition::URF => 0,
            CornerPosition::UFL => 1,
            CornerPosition::ULB => 2,
            CornerPosition::UBR => 3,
            CornerPosition::DFR => 4,
            CornerPosition::DLF => 5,
            CornerPosition::DBL => 6,
            CornerPosition::DRB => 7,
        }
    }

    pub fn from_repr(repr: u8) -> (r: Option<CornerPosition>)
        ensures
            r == Self::spec_from_repr(repr),
            r is Some <==> repr < 8,
            r is Some ==> r.unwrap().spec_repr() == repr,
    {
        if repr == 0 {
            Some(CornerPosition::URF)
        } else if repr == 1 {
            Some(CornerPosition::UFL)
        } else if repr == 2 {
            Some(CornerPosition::ULB)
        } else if repr == 3 {
            Some(CornerPosition::UBR)
        } else if repr == 4 {
            Some(CornerPosition::DFR)
        } else if repr == 5 {
            Some(CornerPosition::DLF)
        } else if repr == 6 {
            Some(CornerPosition::DBL)
        } else if repr == 7 {
            Some(CornerPosition::DRB)
        } else {
            None
        }
    }
}

/// The 12 edge slots of a solved cube, in wire order.
#[derive(Clone, Copy, PartialEq, Eq, Structural, Debug)]
pub enum EdgePosition {
    UR,
    UF,
    UL,
    UB,
    DR,
    DF,
    DL,
    DB,
    FR,
    FL,
    BL,
    BR,
}

impl EdgePosition {
    pub open spec fn spec_repr(self) -> u8 {
        match self {
            EdgePosition::UR => 0,
            EdgePosition::UF => 1,
            EdgePosition::UL => 2,
            EdgePosition::UB => 3,
            EdgePosition::DR => 4,
            EdgePosition::DF => 5,
            EdgePosition::DL => 6,
            EdgePosition::DB => 7,
            EdgePosition::FR => 8,
            EdgePosition::FL => 9,
            EdgePosition::BL => 10,
            EdgePosition::BR => 11,
        }
    }

    pub open spec fn spec_from_repr(repr: u8) -> Option<EdgePosition> {
        if repr == 0 {
            Some(EdgePosition::UR)
        } else if repr == 1 {
            Some(EdgePosition::UF)
        } else if repr == 2 {
            Some(EdgePosition::UL)
        } else if repr == 3 {
            Some(EdgePosition::UB)
        } else if repr == 4 {
            Some(EdgePosition::DR)
        } else if repr == 5 {
            Some(EdgePosition::DF)
        } else if repr == 6 {
            Some(EdgePosition::DL)
        } else if repr == 7 {
            Some(EdgePosition::DB)
        } else if repr == 8 {
            Some(EdgePosition::FR)
        } else if repr == 9 {
            Some(EdgePosition::FL)
        } else if repr == 10 {
            Some(EdgePosition::BL)
        } else if repr == 11 {
            Some(EdgePosition::BR)
        } else {
            None
        }
    }

    pub fn repr(self) -> (r: u8)
        ensures
            r == self.spec_repr(),
    {
        match self {
            EdgePosition::UR => 0,
            EdgePosition::UF => 1,
            EdgePosition::UL => 2,
            EdgePosition::UB => 3,
            EdgePosition::DR => 4,
            EdgePosition::DF => 5,
            EdgePosition::DL => 6,
            EdgePosition::DB => 7,
            EdgePosition::FR => 8,
            EdgePosition::FL => 9,
            EdgePosition::BL => 10,
            EdgePosition::BR => 11,
        }
    }

    pub fn from_repr(repr: u8) -> (r: Option<EdgePosition>)
        ensures
            r == Self::spec_from_repr(repr),
            r is Some <==> repr < 12,
            r is Some ==> r.unwrap().spec_repr() == repr,
    {
        if repr == 0 {
            Some(EdgePosition::UR)
        } else if repr == 1 {
            Some(EdgePosition::UF)
        } else if repr == 2 {
            Some(EdgePosition::UL)
        } else if repr == 3 {
            Some(EdgePosition::UB)
        } else if repr == 4 {
            Some(EdgePosition::DR)
        } else if repr == 5 {
            Some(EdgePosition::DF)
        } else if repr == 6 {
            Some(EdgePosition::DL)
        } else if repr == 7 {
            Some(EdgePosition::DB)
        } else if repr == 8 {
            Some(EdgePosition::FR)
        } else if repr == 9 {
            Some(EdgePosition::FL)
        } else if repr == 10 {
            Some(EdgePosition::BL)
        } else if repr == 11 {
            Some(EdgePosition::BR)
        } else {
            None
        }
    }
}

/// A piece twist: an integer in `[0, N)`, the abelian group of residues
/// modulo `N`. `N` is 3 for corner twist and 2 for edge flip; later protocol
/// variants twist centers modulo 4.
#[derive(Clone, Copy, PartialEq, Eq, Debug)]
pub struct PieceOrientation<const N: u8> {
    repr: u8,
}

impl<const N: u8> PieceOrientation<N> {
    pub closed spec fn spec_repr(self) -> u8 {
        self.repr
    }

    /// Every value of the type stays below the modulus.
    pub open spec fn wf(self) -> bool {
        self.spec_repr() < N
    }

    pub fn from_repr(repr: u8) -> (r: Option<PieceOrientation<N>>)
        ensures
            r is Some <==> repr < N,
            r is Some ==> r.unwrap().spec_repr() == repr && r.unwrap().wf(),
    {
        if repr < N {
            Some(PieceOrientation { repr })
        } else {
            None
        }
    }

    pub fn repr(self) -> (r: u8)
        ensures
            r == self.spec_repr(),
    {
        self.repr
    }

    /// Group addition: residues add modulo `N`.
    pub fn add(self, rhs: PieceOrientation<N>) -> (r: PieceOrientation<N>)
        requires
            self.wf(),
            rhs.wf(),
        ensures
            r.wf(),
            r.spec_repr() == (self.spec_repr() + rhs.spec_repr()) % (N as int),
    {
        PieceOrientation { repr: ((self.repr as u16 + rhs.repr as u16) % (N as u16)) as u8 }
    }

    /// Group negation: `(N - x) % N`.
    pub fn neg(self) -> (r: PieceOrientation<N>)
        requires
            self.wf(),
        ensures
            r.wf(),
            r.spec_repr() == (N - self.spec_repr()) % (N as int),
    {
        PieceOrientation { repr: (N - self.repr) % N }
    }
}

/// A corner piece: its slot and its twist modulo 3.
#[derive(Clone, Copy, PartialEq, Eq, Debug)]
pub struct Corner(pub CornerPosition, pub PieceOrientation<3>);

impl Corner {
    pub open spec fn wf(self) -> bool {
        self.1.wf()
    }

    pub fn try_from_reprs(pos: u8, ori: u8) -> (r: Option<Corner>)
        ensures
            r is Some <==> pos < 8 && ori < 3,
            r is Some ==> {
                &&& r.unwrap().wf()
                &&& r.unwrap().0.spec_repr() == pos
                &&& r.unwrap().1.spec_repr() == ori
            },
    {
        let p = CornerPosition::from_repr(pos);
        let o = PieceOrientation::<3>::from_repr(ori);
        match (p, o) {
            (Some(p), Some(o)) => Some(Corner(p, o)),
            _ => None,
        }
    }
}

/// An edge piece: its slot and its flip modulo 2.
#[derive(Clone, Copy, PartialEq, Eq, Debug)]
pub struct Edge(pub EdgePosition, pub PieceOrientation<2>);

impl Edge {
    pub open spec fn wf(self) -> bool {
        self.1.wf()
    }

    pub fn try_from_reprs(pos: u8, ori: u8) -> (r: Option<Edge>)
        ensures
            r is Some <==> pos < 12 && ori < 2,
            r is Some ==> {
                &&& r.unwrap().wf()
                &&& r.unwrap().0.spec_repr() == pos
                &&& r.unwrap().1.spec_repr() == ori
            },
    {
        let p = EdgePosition::from_repr(pos);
        let o = PieceOrientation::<2>::from_repr(ori);
        match (p, o) {
            (Some(p), Some(o)) => Some(Edge(p, o)),
            _ => None,
        }
    }
}

/// A center twist modulo 4.
#[derive(Clone, Copy, PartialEq, Eq, Debug)]
pub struct Center(pub PieceOrientation<4>);

impl Center {
    pub open spec fn wf(self) -> bool {
        self.0.wf()
    }

    pub fn try_from_repr(ori: u8) -> (r: Option<Center>)
        ensures
            r is Some <==> ori < 4,
            r is Some ==> r.unwrap().wf() && r.unwrap().0.spec_repr() == ori,
    {
        match PieceOrientation::<4>::from_repr(ori) {
            Some(o) => Some(Center(o)),
            None => None,
        }
    }
}

/// A full snapshot of the cube: 8 corners, 12 edges, 6 centers. Snapshots
/// are built fresh from each decoded full-state frame, never mutated move
/// by move.
#[derive(Clone, PartialEq, Eq, Debug)]
pub struct CubeState {
    pub corners: Vec<Corner>,
    pub edges: Vec<Edge>,
    pub centers: Vec<Center>,
}

impl CubeState {
    /// Shapes and piece ranges only; whether the positions form permutations
    /// is stated where a state is reconstructed from the wire.
    pub open spec fn wf(self) -> bool {
        &&& self.corners@.len() == 8
        &&& self.edges@.len() == 12
        &&& self.centers@.len() == 6
        &&& forall|i: int| 0 <= i < 8 ==> (#[trigger] self.corners@[i]).wf()
        &&& forall|i: int| 0 <= i < 12 ==> (#[trigger] self.edges@[i]).wf()
        &&& forall|i: int| 0 <= i < 6 ==> (#[trigger] self.centers@[i]).wf()
    }

    pub fn new(corners: Vec<Corner>, edges: Vec<Edge>) -> (r: CubeState)
        requires
            corners@.len() == 8,
            edges@.len() == 12,
            forall|i: int| 0 <= i < 8 ==> (#[trigger] corners@[i]).wf(),
            forall|i: int| 0 <= i < 12 ==> (#[trigger] edges@[i]).wf(),
        ensures
            r.wf(),
            r.corners == corners,
            r.edges == edges,
            forall|i: int| 0 <= i < 6 ==> (#[trigger] r.centers@[i]).0.spec_repr() == 0,
    {
        let mut centers: Vec<Center> = Vec::new();
        let mut i: usize = 0;
        while i < 6
            invariant
                i <= 6,
                centers@.len() == i,
                forall|j: int| 0 <= j < i ==> (#[trigger] centers@[j]).0.spec_repr() == 0 && centers@[j].wf(),
            decreases 6 - i,
        {
            centers.push(Center(PieceOrientation { repr: 0 }));
            i = i + 1;
        }
        CubeState { corners, edges, centers }
    }

    pub fn reset_centers(&mut self)
        requires
            old(self).wf(),
        ensures
            final(self).wf(),
            final(self).corners == old(self).corners,
            final(self).edges == old(self).edges,
            forall|i: int| 0 <= i < 6 ==> (#[trigger] final(self).centers@[i]).0.spec_repr() == 0,
    {
        let mut centers: Vec<Center> = Vec::new();
        let mut i: usize = 0;
        while i < 6
            invariant
                i <= 6,
                centers@.len() == i,
                forall|j: int| 0 <= j < i ==> (#[trigger] centers@[j]).0.spec_repr() == 0 && centers@[j].wf(),
            decreases 6 - i,
        {
            centers.push(Center(PieceOrientation { repr: 0 }));
            i = i + 1;
        }
        self.centers = centers;
    }

    /// The solved cube: every piece in its home slot, untwisted.
    pub fn solved() -> (r: CubeState)
        ensures
            r.wf(),
            forall|i: int| 0 <= i < 8 ==> (#[trigger] r.corners@[i]).0.spec_repr() == i
                && r.corners@[i].1.spec_repr() == 0,
            forall|i: int| 0 <= i < 12 ==> (#[trigger] r.edges@[i]).0.spec_repr() == i
                && r.edges@[i].1.spec_repr() == 0,
    {
        let mut corners: Vec<Corner> = Vec::new();
        let mut i: u8 = 0;
        while i < 8
            invariant
                i <= 8,
                corners@.len() == i as int,
                forall|j: int| 0 <= j < i as int ==> (#[trigger] corners@[j]).wf()
                    && corners@[j].0.spec_repr() == j && corners@[j].1.spec_repr() == 0,
            decreases 8 - i,
        {
            let c = Corner::try_from_reprs(i, 0);
            corners.push(c.unwrap());
            i = i + 1;
        }
        let mut edges: Vec<Edge> = Vec::new();
        let mut k: u8 = 0;
        while k < 12
            invariant
                k <= 12,
                edges@.len() == k as int,
                forall|j: int| 0 <= j < k as int ==> (#[trigger] edges@[j]).wf()
                    && edges@[j].0.spec_repr() == j && edges@[j].1.spec_repr() == 0,
            decreases 12 - k,
        {
            let e = Edge::try_from_reprs(k, 0);
            edges.push(e.unwrap());
            k = k + 1;
        }
        CubeState::new(corners, edges)
    }
}

impl Default for CubeState {
    /// The solved cube.
    fn default() -> (r: CubeState)
        ensures
            r.wf(),
            forall|i: int| 0 <= i < 8 ==> (#[trigger] r.corners@[i]).0.spec_repr() == i
                && r.corners@[i].1.spec_repr() == 0,
            forall|i: int| 0 <= i < 12 ==> (#[trigger] r.edges@[i]).0.spec_repr() == i
                && r.edges@[i].1.spec_repr() == 0,
    {
        CubeState::solved()
    }
}

/// The display name of a move: the face letter, with an apostrophe for the
/// counter-clockwise direction.
pub open spec fn spec_move_chars(m: CubeMove) -> Seq<char> {
    match m {
        CubeMove::U => seq!['U'],
        CubeMove::Up => seq!['U', '\''],
        CubeMove::R => seq!['R'],
        CubeMove::Rp => seq!['R', '\''],
        CubeMove::F => seq!['F'],
        CubeMove::Fp => seq!['F', '\''],
        CubeMove::D => seq!['D'],
        CubeMove::Dp => seq!['D', '\''],
        CubeMove::L => seq!['L'],
        CubeMove::Lp => seq!['L', '\''],
        CubeMove::B => seq!['B'],
        CubeMove::Bp => seq!['B', '\''],
    }
}

/// The decimal digits of `n`, most significant first.
pub open spec fn spec_decimal(n: nat) -> Seq<char>
    decreases n,
{
    if n < 10 {
        seq![spec_digit_char(n)]
    } else {
        spec_decimal(n / 10) + seq![spec_digit_char(n % 10)]
    }
}

/// One decimal digit as a character.
pub open spec fn spec_digit_char(d: nat) -> char {
    if d == 0 {
        '0'
    } else if d == 1 {
        '1'
    } else if d == 2 {
        '2'
    } else if d == 3 {
        '3'
    } else if d == 4 {
        '4'
    } else if d == 5 {
        '5'
    } else if d == 6 {
        '6'
    } else if d == 7 {
        '7'
    } else if d == 8 {
        '8'
    } else {
        '9'
    }
}

/// The position right after the run of equal moves that starts at `s`.
pub open spec fn spec_run_end(moves: Seq<CubeMove>, s: int) -> int
    decreases moves.len() - s,
{
    if s < 0 || s >= moves.len() {
        s
    } else if s + 1 == moves.len() || moves[s + 1] != moves[s] {
        s + 1
    } else {
        spec_run_end(moves, s + 1)
    }
}

/// The formatted move sequence from position `s` on: each run of equal
/// moves is one move name, followed by the run's length when it exceeds
/// one.
pub open spec fn spec_format_from(moves: Seq<CubeMove>, s: int) -> Seq<char>
    decreases moves.len() - s,
{
    if s < 0 || s >= moves.len() {
        Seq::empty()
    } else {
        let e = spec_run_end(moves, s);
        let e2 = if s < e <= moves.len() {
            e
        } else {
            s + 1
        };
        spec_move_chars(moves[s]) + (if e2 - s == 1 {
            Seq::<char>::empty()
        } else {
            spec_decimal((e2 - s) as nat)
        }) + spec_format_from(moves, e2)
    }
}

/// The whole formatted move sequence.
pub open spec fn spec_format_moves(moves: Seq<CubeMove>) -> Seq<char> {
    spec_format_from(moves, 0)
}

proof fn lemma_run_end_char(moves: Seq<CubeMove>, s: int)
    requires
        0 <= s < moves.len(),
    ensures
        ({
            let e = spec_run_end(moves, s);
            &&& s < e <= moves.len()
            &&& forall|k: int| s <= k < e ==> moves[k] == moves[s]
            &&& e < moves.len() ==> moves[e] != moves[s]
        }),
    decreases moves.len() - s,
{
    if !(s + 1 == moves.len() || moves[s + 1] != moves[s]) {
        lemma_run_end_char(moves, s + 1);
    }
}

/// The name of one move.
pub fn move_str(m: CubeMove) -> (r: &'static str)
    ensures
        r@ == spec_move_chars(m),
{
    proof {
        reveal_strlit("U");
        reveal_strlit("U'");
        reveal_strlit("R");
        reveal_strlit("R'");
        reveal_strlit("F");
        reveal_strlit("F'");
        reveal_strlit("D");
        reveal_strlit("D'");
        reveal_strlit("L");
        reveal_strlit("L'");
        reveal_strlit("B");
        reveal_strlit("B'");
    }
    let r = match m {
        CubeMove::U => "U",
        CubeMove::Up => "U'",
        CubeMove::R => "R",
        CubeMove::Rp => "R'",
        CubeMove::F => "F",
        CubeMove::Fp => "F'",
        CubeMove::D => "D",
        CubeMove::Dp => "D'",
        CubeMove::L => "L",
        CubeMove::Lp => "L'",
        CubeMove::B => "B",
        CubeMove::Bp => "B'",
    };
    assert(r@ =~= spec_move_chars(m));
    r
}

/// One decimal digit.
fn digit_str(d: usize) -> (r: &'static str)
    requires
        d < 10,
    ensures
        r@ == seq![spec_digit_char(d as nat)],
{
    proof {
        reveal_strlit("0");
        reveal_strlit("1");
        reveal_strlit("2");
        reveal_strlit("3");
        reveal_strlit("4");
        reveal_strlit("5");
        reveal_strlit("6");
        reveal_strlit("7");
        reveal_strlit("8");
        reveal_strlit("9");
    }
    let r = if d == 0 {
        "0"
    } else if d == 1 {
        "1"
    } else if d == 2 {
        "2"
    } else if d == 3 {
        "3"
    } else if d == 4 {
        "4"
    } else if d == 5 {
        "5"
    } else if d == 6 {
        "6"
    } else if d == 7 {
        "7"
    } else if d == 8 {
        "8"
    } else {
        "9"
    };
    assert(r@ =~= seq![spec_digit_char(d as nat)]);
    r
}

/// `n` in decimal.
fn decimal_string(n: usize) -> (r: String)
    ensures
        r@ == spec_decimal(n as nat),
    decreases n,
{
    if n < 10 {
        let r = String::from_str(digit_str(n));
        r
    } else {
        let mut r = decimal_string(n / 10);
        r.append(digit_str(n % 10));
        r
    }
}

/// Format a move sequence for display: runs of one move collapse to the
/// move's name and the run length.
pub fn format_moves(moves: &Vec<CubeMove>) -> (r: String)
    ensures
        r@ == spec_format_moves(moves@),
{
    proof {
        reveal_strlit("");
    }
    let n = moves.len();
    let mut r = String::from_str("");
    let mut i: usize = 0;
    while i < n
        invariant
            0 <= i <= n,
            n == moves@.len(),
            r@ + spec_format_from(moves@, i as int) == spec_format_moves(moves@),
        decreases n - i,
    {
        proof {
            lemma_run_end_char(moves@, i as int);
        }
        let mut j = i + 1;
        while j < n && moves[j] == moves[i]
            invariant
                i < j <= n,
                n == moves@.len(),
                forall|k: int| i <= k < j ==> moves@[k] == moves@[i as int],
            decreases n - j,
        {
            j = j + 1;
        }
        proof {
            let e = spec_run_end(moves@, i as int);
            if (j as int) < e {
                assert(moves@[j as int] == moves@[i as int]);
                assert(false);
            }
            if (j as int) > e {
                assert(moves@[e] == moves@[i as int]);
                assert(false);
            }
        }
        r.append(move_str(moves[i]));
        if j - i > 1 {
            let d = decimal_string(j - i);
            r.append(d.as_str());
        }
        proof {
            assert(r@ + spec_format_from(moves@, j as int) =~= spec_format_moves(moves@));
        }
        i = j;
    }
    r
}

} // verus!
