//! Tables for simplex noise: gradient directions and a doubled permutation table.

use crate::random::gen_bytes;
use vstd::prelude::*;

verus! {

/// The twelve gradient directions: the midpoints of the edges of a cube.
pub open spec fn grad3_table() -> Seq<Seq<i8>> {
    seq![
        seq![1i8, 1i8, 0i8], seq![-1i8, 1i8, 0i8], seq![1i8, -1i8, 0i8], seq![-1i8, -1i8, 0i8],
        seq![1i8, 0i8, 1i8], seq![-1i8, 0i8, 1i8], seq![1i8, 0i8, -1i8], seq![-1i8, 0i8, -1i8],
        seq![0i8, 1i8, 1i8], seq![0i8, -1i8, 1i8], seq![0i8, 1i8, -1i8], seq![0i8, -1i8, -1i8],
    ]
}

/// Simplex noise state: gradients and the permutation table.
pub struct Simplex {
    pub grad3: Vec<Vec<i8>>,
    pub perm: Vec<u8>,
}

/// The gradients (indices into the twelve directions) of the three corners of the simplex
/// whose first corner has lattice coordinates `ii`, `jj` taken modulo 256: that corner,
/// the middle one (one step along x when `lower`, else along y), and the far one.
pub open spec fn corner_grads(perm: Seq<u8>, ii: int, jj: int, lower: bool) -> (u8, u8, u8) {
    let i1: int = if lower { 1 } else { 0 };
    let j1: int = if lower { 0 } else { 1 };
    (
        (perm[ii + perm[jj]] % 12) as u8,
        (perm[ii + i1 + perm[jj + j1]] % 12) as u8,
        (perm[ii + 1 + perm[jj + 1]] % 12) as u8,
    )
}

impl Simplex {
    /// The gradients of the three corners of the simplex whose first corner is the
    /// lattice point `(i, j)`; `lower` says the point lies below the cell's diagonal
    /// (`x0 > y0`), so that the middle corner is `(i + 1, j)` rather than `(i, j + 1)`.
    pub fn corner_gradients(&self, i: i32, j: i32, lower: bool) -> (g: (u8, u8, u8))
        requires
            self.perm@.len() == 512,
        ensures
            g == corner_grads(self.perm@, (i & 255) as int, (j & 255) as int, lower),
            g.0 < 12 && g.1 < 12 && g.2 < 12,
    {
        let ii = i & 255;
        let jj = j & 255;
        assert(0 <= i & 255 <= 255) by (bit_vector);
        assert(0 <= j & 255 <= 255) by (bit_vector);
        let iu = ii as usize;
        let ju = jj as usize;
        let (i1, j1): (usize, usize) = if lower { (1, 0) } else { (0, 1) };
        let gi0 = self.perm[iu + self.perm[ju] as usize] % 12;
        let gi1 = self.perm[iu + i1 + self.perm[ju + j1] as usize] % 12;
        let gi2 = self.perm[iu + 1 + self.perm[ju + 1] as usize] % 12;
        (gi0, gi1, gi2)
    }

    /// Return a new `Simplex` with the gradients set and no permutation yet.
    pub fn new() -> (s: Simplex)
        ensures
            s.perm@.len() == 0,
            s.grad3@.len() == 12,
            forall|i: int| 0 <= i < 12 ==> (#[trigger] s.grad3@[i])@ == grad3_table()[i],
    {
        let s = Simplex {
            perm: Vec::new(),
            grad3: vec![
                vec![1, 1, 0], vec![-1, 1, 0], vec![1, -1, 0], vec![-1, -1, 0],
                vec![1, 0, 1], vec![-1, 0, 1], vec![1, 0, -1], vec![-1, 0, -1],
                vec![0, 1, 1], vec![0, -1, 1], vec![0, 1, -1], vec![0, -1, -1],
            ],
        };
        assert forall|i: int| 0 <= i < 12 implies (#[trigger] s.grad3@[i])@ == grad3_table()[i] by {
            assert(s.grad3@[i]@ =~= grad3_table()[i]);
        }
        s
    }

    /// Draw 256 random bytes and lay them out twice (see `seed_with`): `perm[i] == perm[i + 256]`.
    pub fn seed(&mut self)
        ensures
            final(self).grad3 == old(self).grad3,
            final(self).perm@.len() == 512,
            forall|i: int| 0 <= i < 256 ==> #[trigger] final(self).perm@[i] == final(self).perm@[i + 256],
    {
        let p = gen_bytes(256);
        self.seed_with(&p);
        assert forall|i: int| 0 <= i < 256 implies #[trigger] self.perm@[i] == self.perm@[i + 256] by {
            assert(self.perm@[i] == p@[i % 256]);
            assert(self.perm@[i + 256] == p@[(i + 256) % 256]);
        }
    }

    /// Lay the 256 bytes `p` out twice as the permutation table: `perm[i] == p[i % 256]`.
    pub fn seed_with(&mut self, p: &Vec<u8>)
        requires
            p@.len() == 256,
        ensures
            final(self).grad3 == old(self).grad3,
            final(self).perm@.len() == 512,
            forall|i: int| 0 <= i < 512 ==> #[trigger] final(self).perm@[i] == p@[i % 256],
    {
        let mut perm: Vec<u8> = Vec::new();
        let mut i: usize = 0;
        while i < 512
            invariant
                p@.len() == 256,
                i <= 512,
                perm@.len() == i,
                forall|k: int| 0 <= k < i ==> #[trigger] perm@[k] == p@[k % 256],
            decreases 512 - i,
        {
            let k = i & 255;
            assert(i & 255 == i % 256) by (bit_vector);
            perm.push(p[k]);
            i = i + 1;
        }
        self.perm = perm;
    }
}

} // verus!
