//! The facelet state and the moves that permute it.

use vstd::prelude::*;
use vstd::slice::slice_subrange;
use crate::move_code::MoveCode;
use crate::permutation::{
    facelet, lemma_move_fixes_centers, moved, quarter_turn, ring, ring_slot, solved_state,
    turn_source, turned, FACE_B, FACE_D, FACE_F, FACE_L, FACE_R, FACE_U,
};

verus! {

/// The state of a cube: 54 sticker colours in a flat buffer, face after face in
/// the order U, D, F, B, R, L, each face row by row.
#[derive(Debug)]
pub struct OptimizedCube {
    stickers: [u8; 54],
}

impl View for OptimizedCube {
    type V = Seq<u8>;

    closed spec fn view(&self) -> Seq<u8> {
        self.stickers@
    }
}

impl Clone for OptimizedCube {
    /// An independent snapshot of the state.
    fn clone(&self) -> (copy: Self)
        ensures
            copy@ == self@,
    {
        OptimizedCube { stickers: self.stickers }
    }
}

impl PartialEq for OptimizedCube {
    /// Two cubes are equal when they hold the same colour at every position.
    fn eq(&self, other: &Self) -> (equal: bool) {
        same_stickers(&self.stickers, &other.stickers)
    }
}

impl vstd::std_specs::cmp::PartialEqSpecImpl for OptimizedCube {
    open spec fn obeys_eq_spec() -> bool {
        true
    }

    open spec fn eq_spec(&self, other: &Self) -> bool {
        self@ == other@
    }
}

/// Compares two buffers position by position.
fn same_stickers(a: &[u8; 54], b: &[u8; 54]) -> (same: bool)
    ensures
        same == (a@ == b@),
{
    let mut i: usize = 0;
    while i < 54
        invariant
            i <= 54,
            forall|j: int| 0 <= j < i ==> a@[j] == b@[j],
        decreases 54 - i,
    {
        if a[i] != b[i] {
            return false;
        }
        i += 1;
    }
    assert(a@ =~= b@);
    true
}

/// The message that reports a state buffer of the wrong length.
pub open spec fn wrong_length_message() -> Seq<char> {
    "Stickers array must have exactly 54 elements"@
}

impl OptimizedCube {
    /// Colour of the U face.
    pub const WHITE: u8 = 0;

    /// Colour of the D face.
    pub const YELLOW: u8 = 1;

    /// Colour of the F face.
    pub const GREEN: u8 = 2;

    /// Colour of the B face.
    pub const BLUE: u8 = 3;

    /// Colour of the R face.
    pub const RED: u8 = 4;

    /// Colour of the L face.
    pub const ORANGE: u8 = 5;

    /// The view of a cube is a state: it has 54 entries.
    pub broadcast proof fn lemma_view_is_state(&self)
        ensures
            #[trigger] self@.len() == 54,
    {
    }

    /// A cube in the solved state.
    pub fn new() -> (cube: OptimizedCube)
        ensures
            cube@ == solved_state(),
    {
        OptimizedCube::solved()
    }

    /// The index in the buffer of local position `index` of face `face`: nine
    /// positions to a face. A local position is 0 to 8; a larger one counts on
    /// into the faces that follow.
    pub fn face_index(face: usize, index: usize) -> (i: usize)
        requires
            face < 6,
            9 * face + index <= usize::MAX,
        ensures
            i == facelet(face as int, index as int),
    {
        9 * face + index
    }

    /// A cube on which every face shows its own colour.
    pub fn solved() -> (cube: OptimizedCube)
        ensures
            cube@ == solved_state(),
    {
        let mut stickers = [0u8;54];
        let mut i: usize = 0;
        while i < 54
            invariant
                i <= 54,
                forall|j: int| 0 <= j < i ==> stickers@[j] == (j / 9) as u8,
            decreases 54 - i,
        {
            stickers[i] = (i / 9) as u8;
            i += 1;
        }
        let cube = OptimizedCube { stickers };
        assert(cube@ =~= solved_state());
        cube
    }

    /// Turns the upper face clockwise by a quarter: the face's own stickers
    /// rotate, and the top rows of F, R, B and L travel F → L → B → R → F.
    pub fn apply_u_move(&mut self)
        ensures
            final(self)@ == quarter_turn(old(self)@, 0),
    {
        let temp = self.stickers[0];
        self.stickers[0] = self.stickers[6];
        self.stickers[6] = self.stickers[8];
        self.stickers[8] = self.stickers[2];
        self.stickers[2] = temp;

        let temp = self.stickers[1];
        self.stickers[1] = self.stickers[3];
        self.stickers[3] = self.stickers[7];
        self.stickers[7] = self.stickers[5];
        self.stickers[5] = temp;

        let temp = [
            self.stickers[Self::face_index(FACE_F, 0)],
            self.stickers[Self::face_index(FACE_F, 1)],
            self.stickers[Self::face_index(FACE_F, 2)],
        ];

        self.stickers[Self::face_index(FACE_F, 0)] =
            self.stickers[Self::face_index(FACE_R, 0)];
        self.stickers[Self::face_index(FACE_F, 1)] =
            self.stickers[Self::face_index(FACE_R, 1)];
        self.stickers[Self::face_index(FACE_F, 2)] =
            self.stickers[Self::face_index(FACE_R, 2)];

        self.stickers[Self::face_index(FACE_R, 0)] =
            self.stickers[Self::face_index(FACE_B, 0)];
        self.stickers[Self::face_index(FACE_R, 1)] =
            self.stickers[Self::face_index(FACE_B, 1)];
        self.stickers[Self::face_index(FACE_R, 2)] =
            self.stickers[Self::face_index(FACE_B, 2)];

        self.stickers[Self::face_index(FACE_B, 0)] =
            self.stickers[Self::face_index(FACE_L, 0)];
        self.stickers[Self::face_index(FACE_B, 1)] =
            self.stickers[Self::face_index(FACE_L, 1)];
        self.stickers[Self::face_index(FACE_B, 2)] =
            self.stickers[Self::face_index(FACE_L, 2)];

        self.stickers[Self::face_index(FACE_L, 0)] = temp[0];
        self.stickers[Self::face_index(FACE_L, 1)] = temp[1];
        self.stickers[Self::face_index(FACE_L, 2)] = temp[2];

        proof {
            reveal(turn_source);
            reveal(ring_slot);
            reveal(ring);
            assert(self@ =~= quarter_turn(old(self)@, 0));
        }
    }

    /// Turns the bottom face clockwise by a quarter: the face's own stickers
    /// rotate, and the bottom rows of F, L, B and R travel F → R → B → L → F.
    pub fn apply_d_move(&mut self)
        ensures
            final(self)@ == quarter_turn(old(self)@, 1),
    {
        let temp = self.stickers[9];
        self.stickers[9] = self.stickers[15];
        self.stickers[15] = self.stickers[17];
        self.stickers[17] = self.stickers[11];
        self.stickers[11] = temp;

        let temp = self.stickers[10];
        self.stickers[10] = self.stickers[12];
        self.stickers[12] = self.stickers[16];
        self.stickers[16] = self.stickers[14];
        self.stickers[14] = temp;

        let temp = [
            self.stickers[Self::face_index(FACE_F, 6)],
            self.stickers[Self::face_index(FACE_F, 7)],
            self.stickers[Self::face_index(FACE_F, 8)],
        ];

        self.stickers[Self::face_index(FACE_F, 6)] =
            self.stickers[Self::face_index(FACE_L, 6)];
        self.stickers[Self::face_index(FACE_F, 7)] =
            self.stickers[Self::face_index(FACE_L, 7)];
        self.stickers[Self::face_index(FACE_F, 8)] =
            self.stickers[Self::face_index(FACE_L, 8)];

        self.stickers[Self::face_index(FACE_L, 6)] =
            self.stickers[Self::face_index(FACE_B, 6)];
        self.stickers[Self::face_index(FACE_L, 7)] =
            self.stickers[Self::face_index(FACE_B, 7)];
        self.stickers[Self::face_index(FACE_L, 8)] =
            self.stickers[Self::face_index(FACE_B, 8)];

        self.stickers[Self::face_index(FACE_B, 6)] =
            self.stickers[Self::face_index(FACE_R, 6)];
        self.stickers[Self::face_index(FACE_B, 7)] =
            self.stickers[Self::face_index(FACE_R, 7)];
        self.stickers[Self::face_index(FACE_B, 8)] =
            self.stickers[Self::face_index(FACE_R, 8)];

        self.stickers[Self::face_index(FACE_R, 6)] = temp[0];
        self.stickers[Self::face_index(FACE_R, 7)] = temp[1];
        self.stickers[Self::face_index(FACE_R, 8)] = temp[2];

        proof {
            reveal(turn_source);
            reveal(ring_slot);
            reveal(ring);
            assert(self@ =~= quarter_turn(old(self)@, 1));
        }
    }

    /// Turns the front face clockwise by a quarter: the face's own stickers
    /// rotate, and the bottom row of U, the left column of R, the top row of D and the right
    /// column of L travel U → R → D → L → U.
    pub fn apply_f_move(&mut self)
        ensures
            final(self)@ == quarter_turn(old(self)@, 2),
    {
        let temp = self.stickers[18];
        self.stickers[18] = self.stickers[24];
        self.stickers[24] = self.stickers[26];
        self.stickers[26] = self.stickers[20];
        self.stickers[20] = temp;

        let temp = self.stickers[19];
        self.stickers[19] = self.stickers[21];
        self.stickers[21] = self.stickers[25];
        self.stickers[25] = self.stickers[23];
        self.stickers[23] = temp;

        let temp = [
            self.stickers[Self::face_index(FACE_U, 6)],
            self.stickers[Self::face_index(FACE_U, 7)],
            self.stickers[Self::face_index(FACE_U, 8)],
        ];

        self.stickers[Self::face_index(FACE_U, 6)] =
            self.stickers[Self::face_index(FACE_L, 8)];
        self.stickers[Self::face_index(FACE_U, 7)] =
            self.stickers[Self::face_index(FACE_L, 5)];
        self.stickers[Self::face_index(FACE_U, 8)] =
            self.stickers[Self::face_index(FACE_L, 2)];

        self.stickers[Self::face_index(FACE_L, 8)] =
            self.stickers[Self::face_index(FACE_D, 2)];
        self.stickers[Self::face_index(FACE_L, 5)] =
            self.stickers[Self::face_index(FACE_D, 1)];
        self.stickers[Self::face_index(FACE_L, 2)] =
            self.stickers[Self::face_index(FACE_D, 0)];

        self.stickers[Self::face_index(FACE_D, 2)] =
            self.stickers[Self::face_index(FACE_R, 0)];
        self.stickers[Self::face_index(FACE_D, 1)] =
            self.stickers[Self::face_index(FACE_R, 3)];
        self.stickers[Self::face_index(FACE_D, 0)] =
            self.stickers[Self::face_index(FACE_R, 6)];

        self.stickers[Self::face_index(FACE_R, 0)] = temp[0];
        self.stickers[Self::face_index(FACE_R, 3)] = temp[1];
        self.stickers[Self::face_index(FACE_R, 6)] = temp[2];

        proof {
            reveal(turn_source);
            reveal(ring_slot);
            reveal(ring);
            assert(self@ =~= quarter_turn(old(self)@, 2));
        }
    }

    /// Turns the back face clockwise by a quarter: the face's own stickers
    /// rotate, and the top row of U, the left column of L, the bottom row of D and the right
    /// column of R travel U → L → D → R → U.
    pub fn apply_b_move(&mut self)
        ensures
            final(self)@ == quarter_turn(old(self)@, 3),
    {
        let temp = self.stickers[27];
        self.stickers[27] = self.stickers[33];
        self.stickers[33] = self.stickers[35];
        self.stickers[35] = self.stickers[29];
        self.stickers[29] = temp;

        let temp = self.stickers[28];
        self.stickers[28] = self.stickers[30];
        self.stickers[30] = self.stickers[34];
        self.stickers[34] = self.stickers[32];
        self.stickers[32] = temp;

        let temp = [
            self.stickers[Self::face_index(FACE_U, 0)],
            self.stickers[Self::face_index(FACE_U, 1)],
            self.stickers[Self::face_index(FACE_U, 2)],
        ];

        self.stickers[Self::face_index(FACE_U, 0)] =
            self.stickers[Self::face_index(FACE_R, 2)];
        self.stickers[Self::face_index(FACE_U, 1)] =
            self.stickers[Self::face_index(FACE_R, 5)];
        self.stickers[Self::face_index(FACE_U, 2)] =
            self.stickers[Self::face_index(FACE_R, 8)];

        self.stickers[Self::face_index(FACE_R, 2)] =
            self.stickers[Self::face_index(FACE_D, 8)];
        self.stickers[Self::face_index(FACE_R, 5)] =
            self.stickers[Self::face_index(FACE_D, 7)];
        self.stickers[Self::face_index(FACE_R, 8)] =
            self.stickers[Self::face_index(FACE_D, 6)];

        self.stickers[Self::face_index(FACE_D, 8)] =
            self.stickers[Self::face_index(FACE_L, 6)];
        self.stickers[Self::face_index(FACE_D, 7)] =
            self.stickers[Self::face_index(FACE_L, 3)];
        self.stickers[Self::face_index(FACE_D, 6)] =
            self.stickers[Self::face_index(FACE_L, 0)];

        self.stickers[Self::face_index(FACE_L, 6)] = temp[0];
        self.stickers[Self::face_index(FACE_L, 3)] = temp[1];
        self.stickers[Self::face_index(FACE_L, 0)] = temp[2];

        proof {
            reveal(turn_source);
            reveal(ring_slot);
            reveal(ring);
            assert(self@ =~= quarter_turn(old(self)@, 3));
        }
    }

    /// Turns the right face clockwise by a quarter: the face's own stickers
    /// rotate, and the right columns of U, F and D and the left column of B travel
    /// U → B → D → F → U.
    pub fn apply_r_move(&mut self)
        ensures
            final(self)@ == quarter_turn(old(self)@, 4),
    {
        let temp = self.stickers[36];
        self.stickers[36] = self.stickers[42];
        self.stickers[42] = self.stickers[44];
        self.stickers[44] = self.stickers[38];
        self.stickers[38] = temp;

        let temp = self.stickers[37];
        self.stickers[37] = self.stickers[39];
        self.stickers[39] = self.stickers[43];
        self.stickers[43] = self.stickers[41];
        self.stickers[41] = temp;

        let temp = [
            self.stickers[Self::face_index(FACE_U, 2)],
            self.stickers[Self::face_index(FACE_U, 5)],
            self.stickers[Self::face_index(FACE_U, 8)],
        ];

        self.stickers[Self::face_index(FACE_U, 2)] =
            self.stickers[Self::face_index(FACE_F, 2)];
        self.stickers[Self::face_index(FACE_U, 5)] =
            self.stickers[Self::face_index(FACE_F, 5)];
        self.stickers[Self::face_index(FACE_U, 8)] =
            self.stickers[Self::face_index(FACE_F, 8)];

        self.stickers[Self::face_index(FACE_F, 2)] =
            self.stickers[Self::face_index(FACE_D, 2)];
        self.stickers[Self::face_index(FACE_F, 5)] =
            self.stickers[Self::face_index(FACE_D, 5)];
        self.stickers[Self::face_index(FACE_F, 8)] =
            self.stickers[Self::face_index(FACE_D, 8)];

        self.stickers[Self::face_index(FACE_D, 2)] =
            self.stickers[Self::face_index(FACE_B, 6)];
        self.stickers[Self::face_index(FACE_D, 5)] =
            self.stickers[Self::face_index(FACE_B, 3)];
        self.stickers[Self::face_index(FACE_D, 8)] =
            self.stickers[Self::face_index(FACE_B, 0)];

        self.stickers[Self::face_index(FACE_B, 6)] = temp[0];
        self.stickers[Self::face_index(FACE_B, 3)] = temp[1];
        self.stickers[Self::face_index(FACE_B, 0)] = temp[2];

        proof {
            reveal(turn_source);
            reveal(ring_slot);
            reveal(ring);
            assert(self@ =~= quarter_turn(old(self)@, 4));
        }
    }

    /// Turns the left face clockwise by a quarter: the face's own stickers
    /// rotate, and the left columns of U, F and D and the right column of B travel
    /// U → F → D → B → U.
    pub fn apply_l_move(&mut self)
        ensures
            final(self)@ == quarter_turn(old(self)@, 5),
    {
        let temp = self.stickers[45];
        self.stickers[45] = self.stickers[51];
        self.stickers[51] = self.stickers[53];
        self.stickers[53] = self.stickers[47];
        self.stickers[47] = temp;

        let temp = self.stickers[46];
        self.stickers[46] = self.stickers[48];
        self.stickers[48] = self.stickers[52];
        self.stickers[52] = self.stickers[50];
        self.stickers[50] = temp;

        let temp = [
            self.stickers[Self::face_index(FACE_U, 0)],
            self.stickers[Self::face_index(FACE_U, 3)],
            self.stickers[Self::face_index(FACE_U, 6)],
        ];

        self.stickers[Self::face_index(FACE_U, 0)] =
            self.stickers[Self::face_index(FACE_B, 8)];
        self.stickers[Self::face_index(FACE_U, 3)] =
            self.stickers[Self::face_index(FACE_B, 5)];
        self.stickers[Self::face_index(FACE_U, 6)] =
            self.stickers[Self::face_index(FACE_B, 2)];

        self.stickers[Self::face_index(FACE_B, 8)] =
            self.stickers[Self::face_index(FACE_D, 0)];
        self.stickers[Self::face_index(FACE_B, 5)] =
            self.stickers[Self::face_index(FACE_D, 3)];
        self.stickers[Self::face_index(FACE_B, 2)] =
            self.stickers[Self::face_index(FACE_D, 6)];

        self.stickers[Self::face_index(FACE_D, 0)] =
            self.stickers[Self::face_index(FACE_F, 0)];
        self.stickers[Self::face_index(FACE_D, 3)] =
            self.stickers[Self::face_index(FACE_F, 3)];
        self.stickers[Self::face_index(FACE_D, 6)] =
            self.stickers[Self::face_index(FACE_F, 6)];

        self.stickers[Self::face_index(FACE_F, 0)] = temp[0];
        self.stickers[Self::face_index(FACE_F, 3)] = temp[1];
        self.stickers[Self::face_index(FACE_F, 6)] = temp[2];

        proof {
            reveal(turn_source);
            reveal(ring_slot);
            reveal(ring);
            assert(self@ =~= quarter_turn(old(self)@, 5));
        }
    }

    /// Applies one move: the clockwise quarter turn of the move's face, once
    /// for a clockwise move, three times for a counter-clockwise move, twice
    /// for a half turn. The six centres stay where they are.
    pub fn apply_move_code(&mut self, move_code: MoveCode)
        ensures
            final(self)@ == moved(old(self)@, move_code),
            forall|face: int|
                0 <= face < 6 ==> final(self)@[facelet(face, 4)] == old(self)@[facelet(face, 4)],
    {
        proof {
            reveal_with_fuel(turned, 4);
        }
        match move_code {
            MoveCode::U => self.apply_u_move(),
            MoveCode::D => self.apply_d_move(),
            MoveCode::F => self.apply_f_move(),
            MoveCode::B => self.apply_b_move(),
            MoveCode::R => self.apply_r_move(),
            MoveCode::L => self.apply_l_move(),
            MoveCode::Up => {
                self.apply_u_move();
                self.apply_u_move();
                self.apply_u_move();
            },
            MoveCode::Dp => {
                self.apply_d_move();
                self.apply_d_move();
                self.apply_d_move();
            },
            MoveCode::Fp => {
                self.apply_f_move();
                self.apply_f_move();
                self.apply_f_move();
            },
            MoveCode::Bp => {
                self.apply_b_move();
                self.apply_b_move();
                self.apply_b_move();
            },
            MoveCode::Rp => {
                self.apply_r_move();
                self.apply_r_move();
                self.apply_r_move();
            },
            MoveCode::Lp => {
                self.apply_l_move();
                self.apply_l_move();
                self.apply_l_move();
            },
            MoveCode::U2 => {
                self.apply_u_move();
                self.apply_u_move();
            },
            MoveCode::D2 => {
                self.apply_d_move();
                self.apply_d_move();
            },
            MoveCode::F2 => {
                self.apply_f_move();
                self.apply_f_move();
            },
            MoveCode::B2 => {
                self.apply_b_move();
                self.apply_b_move();
            },
            MoveCode::R2 => {
                self.apply_r_move();
                self.apply_r_move();
            },
            MoveCode::L2 => {
                self.apply_l_move();
                self.apply_l_move();
            },
        }
        proof {
            assert(self@ == moved(old(self)@, move_code));
            lemma_move_fixes_centers(old(self)@, move_code);
            assert forall|face: int| 0 <= face < 6 implies self@[facelet(face, 4)] == old(
                self,
            )@[facelet(face, 4)] by {
                assert(moved(old(self)@, move_code)[facelet(face, 4)] == old(self)@[facelet(
                    face,
                    4,
                )]);
            }
        }
    }

    /// The whole buffer, read-only.
    pub fn stickers(&self) -> (stickers: &[u8; 54])
        ensures
            stickers@ == self@,
    {
        &self.stickers
    }

    /// The whole buffer, for writing: what the caller leaves in it is the
    /// cube's new state.
    pub fn stickers_mut(&mut self) -> (stickers: &mut [u8; 54])
        ensures
            stickers@ == old(self)@,
            final(self)@ == final(stickers)@,
    {
        &mut self.stickers
    }

    /// Whether every face shows its own colour.
    pub fn is_solved(&self) -> (solved: bool)
        ensures
            solved == (self@ == solved_state()),
    {
        let solved = Self::solved();
        same_stickers(&self.stickers, &solved.stickers)
    }

    /// The nine stickers of face `face` (0 to 5 for U, D, F, B, R, L), row by
    /// row; nothing for any other face index.
    pub fn get_face(&self, face: usize) -> (stickers: &[u8])
        ensures
            face < 6 ==> stickers@ == self@.subrange(9 * face, 9 * face + 9),
            face >= 6 ==> stickers@ == Seq::<u8>::empty(),
    {
        if face < 6 {
            slice_subrange(self.stickers.as_slice(), 9 * face, 9 * face + 9)
        } else {
            slice_subrange(self.stickers.as_slice(), 0, 0)
        }
    }

    /// Replaces the whole state by a buffer of exactly 54 entries. A buffer
    /// of any other length is reported and leaves the cube as it was. The
    /// entries are taken as they are: whether they are colours, or a state
    /// that moves can reach, is not looked at.
    pub fn set_stickers(&mut self, stickers: &[u8]) -> (result: Result<(), String>)
        ensures
            match result {
                Ok(_) => stickers@.len() == 54 && final(self)@ == stickers@,
                Err(e) => stickers@.len() != 54 && final(self)@ == old(self)@ && e@
                    == wrong_length_message(),
            },
    {
        if stickers.len() != 54 {
            return Err(String::from_str("Stickers array must have exactly 54 elements"));
        }
        let mut i: usize = 0;
        while i < 54
            invariant
                i <= 54,
                stickers@.len() == 54,
                forall|j: int| 0 <= j < i ==> self.stickers@[j] == stickers@[j],
            decreases 54 - i,
        {
            self.stickers[i] = stickers[i];
            i += 1;
        }
        assert(self@ =~= stickers@);
        Ok(())
    }
}

} // verus!
