use crate::vec3::{Color, Vec3};
use crate::scalar::Scalar;
use vstd::prelude::*;

verus! {

/// A texture of one colour.
#[derive(Clone, Copy, Debug)]
pub struct SolidColor {
    albedo: Color,
}

impl SolidColor {
    pub closed spec fn color(self) -> Color {
        self.albedo
    }

    pub fn new(color: Color) -> (texture: SolidColor)
        ensures
            texture.color() == color,
    {
        SolidColor { albedo: color }
    }

    pub fn from_rgb(red: Scalar, green: Scalar, blue: Scalar) -> (texture: SolidColor)
        ensures
            texture.color() == Vec3([red, green, blue]),
    {
        SolidColor { albedo: Vec3::new(red, green, blue) }
    }

    /// The colour, which is the same at every point.
    pub fn value(&self) -> (c: Color)
        ensures
            c == self.color(),
    {
        self.albedo
    }
}

impl Default for SolidColor {
    fn default() -> (texture: SolidColor)
        ensures
            texture.color() == Vec3([Scalar { bits: 0 }, Scalar { bits: 0 }, Scalar { bits: 0 }]),
    {
        SolidColor { albedo: Vec3::default() }
    }
}

/// A texture of cubes of two textures in turn, like a chess board in space.
#[derive(Clone, Copy, Debug)]
pub struct Checkerboard {
    /// The reciprocal of the length of a cube's edge.
    pub inv_scale: Scalar,
}

impl Checkerboard {
    /// The cube with the whole-number coordinates given is one of the even
    /// texture: the sum of its coordinates is even.
    pub fn is_even(x: i32, y: i32, z: i32) -> (even: bool)
        requires
            i32::MIN <= x + y <= i32::MAX,
            i32::MIN <= x + y + z <= i32::MAX,
        ensures
            even == ((x + y + z) % 2 == 0),
    {
        (x + y + z) % 2 == 0
    }

    /// The colour at a point of the cube with the whole-number coordinates
    /// given, of the colours that the two textures have there.
    pub fn value(x: i32, y: i32, z: i32, even: Color, odd: Color) -> (c: Color)
        requires
            i32::MIN <= x + y <= i32::MAX,
            i32::MIN <= x + y + z <= i32::MAX,
        ensures
            c == if (x + y + z) % 2 == 0 {
                even
            } else {
                odd
            },
    {
        if Self::is_even(x, y, z) {
            even
        } else {
            odd
        }
    }
}

/// The number of points of the noise lattice along one axis, after which it
/// repeats.
pub const POINT_COUNT: usize = 256;

/// Gradient noise: a unit vector for each of 256 points and, for each axis,
/// an order of the 256 points by which the lattice is scrambled.
pub struct Perlin {
    rand_vec: Vec<Vec3>,
    perm_x: Vec<i32>,
    perm_y: Vec<i32>,
    perm_z: Vec<i32>,
}

/// `p` swapped at the places `i` and `j`.
pub open spec fn swapped(p: Seq<i32>, i: int, j: int) -> Seq<i32> {
    p.update(i, p[j]).update(j, p[i])
}

/// `p` after the shuffle has dealt with the places from `n - 1` down to
/// `from`: each place `i` in turn, swapped with the place `targets[i]`.
pub open spec fn shuffled(p: Seq<i32>, targets: Seq<usize>, n: int, from: int) -> Seq<i32>
    decreases n - from,
{
    if from >= n {
        p
    } else {
        swapped(shuffled(p, targets, n, from + 1), from, targets[from] as int)
    }
}

/// `p` holds each of the numbers `0 .. 256` once.
pub open spec fn is_order(p: Seq<i32>) -> bool {
    &&& p.len() == POINT_COUNT
    &&& forall|i: int| 0 <= i < p.len() ==> 0 <= #[trigger] p[i] < POINT_COUNT
    &&& p.no_duplicates()
}

/// The place of a whole number on the lattice: its remainder modulo 256.
pub open spec fn wrap(i: int) -> int {
    i % 256
}

impl Perlin {
    pub closed spec fn vectors(self) -> Seq<Vec3> {
        self.rand_vec@
    }

    pub closed spec fn orders(self) -> (Seq<i32>, Seq<i32>, Seq<i32>) {
        (self.perm_x@, self.perm_y@, self.perm_z@)
    }

    /// The noise has 256 vectors and three orders of the 256 points.
    pub open spec fn wf(self) -> bool {
        &&& self.vectors().len() == POINT_COUNT
        &&& is_order(self.orders().0)
        &&& is_order(self.orders().1)
        &&& is_order(self.orders().2)
    }

    /// The vector at the lattice point `(i, j, k)`.
    pub open spec fn at(self, i: int, j: int, k: int) -> Vec3 {
        self.vectors()[(self.orders().0[wrap(i)] ^ self.orders().1[wrap(j)] ^ self.orders().2[wrap(
            k,
        )]) as int]
    }

    /// The noise of the 256 vectors `rand_vec`, with the three orders
    /// shuffled by the numbers given: `targets_x[i]`, a number from 0 to
    /// `i`, is the place with which place `i` of the x order is swapped,
    /// and so on.
    pub fn new(
        rand_vec: Vec<Vec3>,
        targets_x: &Vec<usize>,
        targets_y: &Vec<usize>,
        targets_z: &Vec<usize>,
    ) -> (noise: Perlin)
        requires
            rand_vec.len() == POINT_COUNT,
            Self::fit(targets_x@),
            Self::fit(targets_y@),
            Self::fit(targets_z@),
        ensures
            noise.wf(),
            noise.vectors() == rand_vec@,
            noise.orders().0 == shuffled(Self::identity(), targets_x@, 256, 1),
            noise.orders().1 == shuffled(Self::identity(), targets_y@, 256, 1),
            noise.orders().2 == shuffled(Self::identity(), targets_z@, 256, 1),
    {
        let perm_x = Self::perlin_generate_perm(targets_x);
        let perm_y = Self::perlin_generate_perm(targets_y);
        let perm_z = Self::perlin_generate_perm(targets_z);
        Perlin { rand_vec, perm_x, perm_y, perm_z }
    }

    /// The numbers by which one order is shuffled: one for each of the 256
    /// places, none beyond its own place.
    pub open spec fn fit(targets: Seq<usize>) -> bool {
        &&& targets.len() == POINT_COUNT
        &&& forall|i: int| 0 <= i < targets.len() ==> (#[trigger] targets[i]) <= i
    }

    /// The points in their own order: `0, 1, .. 255`.
    pub open spec fn identity() -> Seq<i32> {
        Seq::new(POINT_COUNT as nat, |i: int| i as i32)
    }

    fn perlin_generate_perm(targets: &Vec<usize>) -> (p: Vec<i32>)
        requires
            Self::fit(targets@),
        ensures
            is_order(p@),
            p@ == shuffled(Self::identity(), targets@, 256, 1),
    {
        let mut p: Vec<i32> = Vec::new();
        let mut i: i32 = 0;
        while i < 256
            invariant
                0 <= i <= 256,
                p.len() == i,
                forall|k: int| 0 <= k < i ==> #[trigger] p[k] == k,
            decreases 256 - i,
        {
            p.push(i);
            i = i + 1;
        }
        assert(p@ =~= Self::identity());
        Self::permute(&mut p, 256, targets);
        p
    }

    /// Shuffles the first `n` entries of `p`: from the last place down to
    /// place 1, each place `i` is swapped with the place `targets[i]`.
    pub fn permute(p: &mut Vec<i32>, n: usize, targets: &Vec<usize>)
        requires
            n <= old(p).len(),
            n <= targets.len(),
            forall|i: int| 0 <= i < n ==> (#[trigger] targets[i]) <= i,
        ensures
            final(p)@ == shuffled(old(p)@, targets@, n as int, 1),
            final(p)@.len() == old(p)@.len(),
            final(p)@.to_multiset() == old(p)@.to_multiset(),
            (forall|i: int| 0 <= i < old(p).len() ==> 0 <= #[trigger] old(p)[i] < POINT_COUNT) ==> (
            forall|i: int| 0 <= i < final(p).len() ==> 0 <= #[trigger] final(p)[i] < POINT_COUNT),
            old(p)@.no_duplicates() ==> final(p)@.no_duplicates(),
    {
        broadcast use {vstd::multiset::group_multiset_axioms, vstd::multiset::group_multiset_properties};

        if n < 2 {
            assert(shuffled(p@, targets@, n as int, 1) == p@) by {
                reveal_with_fuel(shuffled, 2);
            }
            return ;
        }
        let mut i: usize = n - 1;
        while i >= 1
            invariant
                0 <= i < n,
                n <= p.len(),
                n <= targets.len(),
                p.len() == old(p).len(),
                forall|k: int| 0 <= k < n ==> (#[trigger] targets[k]) <= k,
                p@ == shuffled(old(p)@, targets@, n as int, i as int + 1),
                p@.to_multiset() == old(p)@.to_multiset(),
                (forall|k: int| 0 <= k < old(p).len() ==> 0 <= #[trigger] old(p)[k] < POINT_COUNT)
                    ==> (forall|k: int| 0 <= k < p.len() ==> 0 <= #[trigger] p[k] < POINT_COUNT),
                old(p)@.no_duplicates() ==> p@.no_duplicates(),
            decreases i,
        {
            let target = targets[i];
            let ghost before = p@;
            let a = p[i];
            let b = p[target];
            p.set(i, b);
            p.set(target, a);
            proof {
                assert(p@ =~= swapped(before, i as int, target as int));
                let once = before.update(i as int, b);
                vstd::seq_lib::to_multiset_update(before, i as int, b);
                vstd::seq_lib::to_multiset_update(once, target as int, a);
                assert(once[target as int] == b);
                assert(before.to_multiset().count(a) > 0 && before.to_multiset().count(b) > 0) by {
                    vstd::seq_lib::to_multiset_contains(before, a);
                    vstd::seq_lib::to_multiset_contains(before, b);
                    assert(before.contains(a) && before.contains(b));
                }
                assert(before.to_multiset().insert(b).remove(a).insert(a).remove(b)
                    =~= before.to_multiset());
                assert(p@.to_multiset() =~= before.to_multiset());
                if before.no_duplicates() {
                    assert forall|x: int, y: int|
                        0 <= x < p.len() && 0 <= y < p.len() && x != y implies p[x] != p[y] by {
                        let sx = if x == i as int {
                            target as int
                        } else if x == target as int {
                            i as int
                        } else {
                            x
                        };
                        let sy = if y == i as int {
                            target as int
                        } else if y == target as int {
                            i as int
                        } else {
                            y
                        };
                        assert(p[x] == before[sx]);
                        assert(p[y] == before[sy]);
                    }
                }
            }
            i = i - 1;
        }
    }

    /// The vectors at the eight lattice points about the cell `(i, j, k)`:
    /// the entry `[di][dj][dk]` is the vector at `(i + di, j + dj, k + dk)`.
    pub fn lattice(&self, i: i32, j: i32, k: i32) -> (c: [[[Vec3; 2]; 2]; 2])
        requires
            self.wf(),
            i < i32::MAX,
            j < i32::MAX,
            k < i32::MAX,
        ensures
            forall|di: int, dj: int, dk: int|
                0 <= di < 2 && 0 <= dj < 2 && 0 <= dk < 2 ==> #[trigger] c[di][dj][dk] == self.at(
                    i + di,
                    j + dj,
                    k + dk,
                ),
    {
        [
            [
                [self.vector_at(i, j, k), self.vector_at(i, j, k + 1)],
                [self.vector_at(i, j + 1, k), self.vector_at(i, j + 1, k + 1)],
            ],
            [
                [self.vector_at(i + 1, j, k), self.vector_at(i + 1, j, k + 1)],
                [self.vector_at(i + 1, j + 1, k), self.vector_at(i + 1, j + 1, k + 1)],
            ],
        ]
    }

    fn vector_at(&self, i: i32, j: i32, k: i32) -> (v: Vec3)
        requires
            self.wf(),
        ensures
            v == self.at(i as int, j as int, k as int),
    {
        let x = (i & 255) as usize;
        let y = (j & 255) as usize;
        let z = (k & 255) as usize;
        proof {
            lemma_wrap(i);
            lemma_wrap(j);
            lemma_wrap(k);
        }
        let a = self.perm_x[x];
        let b = self.perm_y[y];
        let c = self.perm_z[z];
        assert(0 <= a ^ b ^ c < 256) by (bit_vector)
            requires
                0 <= a < 256,
                0 <= b < 256,
                0 <= c < 256,
        ;
        self.rand_vec[(a ^ b ^ c) as usize]
    }
}

/// Masking a whole number with 255 gives its remainder modulo 256, also for
/// a negative number.
proof fn lemma_wrap(i: i32)
    ensures
        0 <= (i & 255) < 256,
        (i & 255) == wrap(i as int),
{
    assert(0 <= (i & 255) < 256) by (bit_vector);
    assert(i >= 0 ==> (i & 255) == i % 256) by (bit_vector);
    assert(i < 0 ==> (i & 255) == (i + 0x4000_0000 + 0x4000_0000) % 256) by (bit_vector);
}

} // verus!
