//! The integer lattice of a 2D gradient-noise field: the seeded permutation
//! table, the hashes of a cell's corners and the gradient each hash selects.

use vstd::prelude::*;

verus! {

/// The identity arrangement of the values `0..256`.
pub open spec fn identity_base() -> Seq<usize> {
    Seq::new(256, |i: int| i as usize)
}

/// `s` with the entries at positions `i` and `j` exchanged.
pub open spec fn exchanged(s: Seq<usize>, i: int, j: int) -> Seq<usize> {
    s.update(i, s[j]).update(j, s[i])
}

/// The position whose entry the step for `position` exchanges with:
/// `seed mod (position + 1)`.
pub open spec fn swap_target(seed: usize, position: nat) -> int {
    seed as int % (position as int + 1)
}

/// The base sequence once the swap steps for the positions `255` down to
/// `from` have been applied to the identity. The step for position `i`
/// exchanges the entries at `i` and at `swap_target(seed, i)`.
pub open spec fn shuffled_down_to(seed: usize, from: nat) -> Seq<usize>
    decreases 256 - from,
{
    if from >= 256 {
        identity_base()
    } else {
        exchanged(shuffled_down_to(seed, from + 1), from as int, swap_target(seed, from))
    }
}

/// The 256-entry base permutation of `seed`: every step from `255` down to
/// `1` applied.
pub open spec fn base_permutation(seed: usize) -> Seq<usize> {
    shuffled_down_to(seed, 1)
}

/// The 512-entry table of `seed`: the base permutation, twice.
pub open spec fn permutation_table(seed: usize) -> Seq<usize> {
    base_permutation(seed) + base_permutation(seed)
}

/// `s` holds each of the values `0..256` exactly once.
pub open spec fn is_permutation(s: Seq<usize>) -> bool {
    &&& s.len() == 256
    &&& forall|i: int| 0 <= i < 256 ==> #[trigger] s[i] < 256
    &&& forall|i: int, j: int| 0 <= i < j < 256 ==> s[i] != s[j]
    &&& forall|v: usize| v < 256 ==> #[trigger] s.contains(v)
}

/// `t` is a table that a noise field can hold: 512 entries, the first 256 a
/// permutation of `0..256`, the last 256 a copy of the first.
pub open spec fn is_permutation_table(t: Seq<usize>) -> bool {
    &&& t.len() == 512
    &&& is_permutation(t.subrange(0, 256))
    &&& forall|i: int| 0 <= i < 256 ==> t[i] == #[trigger] t[i + 256]
}

/// The hash of the corner `(dx, dy)` of the cell at lattice indices
/// `(xi, yi)`: the table looked up twice, first by column, then by the sum of
/// that entry and the row, taken modulo 256.
pub open spec fn corner_hash(table: Seq<usize>, xi: int, yi: int, dx: int, dy: int) -> usize {
    table[(table[xi + dx] + yi + dy) % 256]
}

/// One of the four diagonal directions from which a corner's gradient is
/// taken. The name gives the sign of the x component, then of the y
/// component.
#[derive(Clone, Copy, Debug, PartialEq, Eq)]
pub enum Gradient {
    /// The direction `(1, 1)`.
    PlusPlus,
    /// The direction `(-1, 1)`.
    MinusPlus,
    /// The direction `(1, -1)`.
    PlusMinus,
    /// The direction `(-1, -1)`.
    MinusMinus,
}

impl Gradient {
    /// The x component of the direction, `1` or `-1`.
    pub open spec fn x(self) -> int {
        match self {
            Gradient::PlusPlus | Gradient::PlusMinus => 1,
            Gradient::MinusPlus | Gradient::MinusMinus => -1,
        }
    }

    /// The y component of the direction, `1` or `-1`.
    pub open spec fn y(self) -> int {
        match self {
            Gradient::PlusPlus | Gradient::MinusPlus => 1,
            Gradient::PlusMinus | Gradient::MinusMinus => -1,
        }
    }
}

/// The direction that a corner hash selects, by its two low bits: bit 0 set
/// turns the x component negative, bit 1 set the y component.
pub open spec fn gradient_of(hash: usize) -> Gradient {
    if hash % 4 == 0 {
        Gradient::PlusPlus
    } else if hash % 4 == 1 {
        Gradient::MinusPlus
    } else if hash % 4 == 2 {
        Gradient::PlusMinus
    } else {
        Gradient::MinusMinus
    }
}

/// The hashes of the four corners of one lattice cell. The first letter
/// stands for the column, the second for the row: `a` is the cell's own, `b`
/// the next one.
#[derive(Clone, Copy, Debug, PartialEq, Eq)]
pub struct CornerHashes {
    /// Corner `(0, 0)`.
    pub aa: usize,
    /// Corner `(0, 1)`.
    pub ab: usize,
    /// Corner `(1, 0)`.
    pub ba: usize,
    /// Corner `(1, 1)`.
    pub bb: usize,
}

/// A noise field: the permutation table built from a seed. The table never
/// changes after construction.
pub struct PerlinNoise {
    permutation: [usize; 512],
}

impl View for PerlinNoise {
    type V = Seq<usize>;

    /// The 512 entries of the table.
    closed spec fn view(&self) -> Seq<usize> {
        self.permutation@
    }
}

impl PerlinNoise {
    #[verifier::type_invariant]
    spec fn well_formed(&self) -> bool {
        is_permutation_table(self.permutation@)
    }

    /// Builds the field of `seed`: the identity arrangement of `0..256`,
    /// shuffled by one exchange for each position from `255` down to `1`,
    /// then written twice into the table.
    pub fn new(seed: usize) -> (field: Self)
        ensures
            field@ == permutation_table(seed),
            is_permutation_table(field@),
    {
        let mut perm = [0usize; 512];
        let mut p = [0usize; 256];

        for i in 0..256usize
            invariant
                forall|k: int| 0 <= k < i ==> p@[k] == k,
        {
            p[i] = i;
        }

        let mut i: usize = 255;
        while i >= 1
            invariant
                i <= 255,
                p@ == shuffled_down_to(seed, (i + 1) as nat),
            decreases i,
        {
            let j: usize = seed % (i + 1);
            let held: usize = p[i];
            p[i] = p[j];
            p[j] = held;
            i -= 1;
        }

        for i in 0..256usize
            invariant
                forall|k: int| 0 <= k < i ==> perm@[k] == p@[k] && perm@[k + 256] == p@[k],
        {
            perm[i] = p[i];
            perm[i + 256] = p[i];
        }
        proof {
            assert(perm@ =~= permutation_table(seed));
            lemma_permutation_table_valid(seed);
        }
        Self { permutation: perm }
    }

    /// The table itself. Whatever the seed was, it is well formed.
    pub fn table(&self) -> (table: &[usize; 512])
        ensures
            table@ == self@,
            is_permutation_table(self@),
    {
        proof {
            use_type_invariant(self);
        }
        &self.permutation
    }

    /// The hash of the corner `(dx, dy)` of the cell at lattice indices
    /// `(xi, yi)`.
    pub fn hash(&self, xi: usize, yi: usize, dx: usize, dy: usize) -> (hash: usize)
        requires
            xi < 256,
            yi < 256,
            dx <= 1,
            dy <= 1,
        ensures
            hash == corner_hash(self@, xi as int, yi as int, dx as int, dy as int),
            hash < 256,
    {
        proof {
            use_type_invariant(self);
            lemma_corner_hash_bound(self@, xi as int, yi as int, dx as int, dy as int);
            lemma_table_entries_below_256(self@, xi + dx);
        }
        let column: usize = self.permutation[xi + dx];
        self.permutation[(column + yi + dy) % 256]
    }

    /// The hashes of the four corners of the cell `(cell_x, cell_y)`, an
    /// arbitrary cell of the plane: its coordinates are first reduced to
    /// lattice indices.
    pub fn corner_hashes(&self, cell_x: isize, cell_y: isize) -> (corners: CornerHashes)
        ensures
            corners.aa == corner_hash(self@, cell_x as int % 256, cell_y as int % 256, 0, 0),
            corners.ab == corner_hash(self@, cell_x as int % 256, cell_y as int % 256, 0, 1),
            corners.ba == corner_hash(self@, cell_x as int % 256, cell_y as int % 256, 1, 0),
            corners.bb == corner_hash(self@, cell_x as int % 256, cell_y as int % 256, 1, 1),
            corners.aa < 256,
            corners.ab < 256,
            corners.ba < 256,
            corners.bb < 256,
    {
        let xi: usize = lattice_index(cell_x);
        let yi: usize = lattice_index(cell_y);
        CornerHashes {
            aa: self.hash(xi, yi, 0, 0),
            ab: self.hash(xi, yi, 0, 1),
            ba: self.hash(xi, yi, 1, 0),
            bb: self.hash(xi, yi, 1, 1),
        }
    }
}

/// The index of a lattice cell in the table: the cell's coordinate modulo
/// 256, so that the field repeats every 256 cells in each direction.
pub fn lattice_index(cell: isize) -> (index: usize)
    ensures
        index == cell as int % 256,
        index < 256,
{
    assert(0 <= (cell & 255) < 256) by (bit_vector);
    assert((cell & 255) == cell % 256) by (bit_vector);
    (cell & 255) as usize
}

/// The gradient direction that `hash` selects.
pub fn gradient(hash: usize) -> (direction: Gradient)
    ensures
        direction == gradient_of(hash),
        direction.x() == 1 - 2 * (hash as int % 2),
        direction.y() == 1 - 2 * ((hash as int / 2) % 2),
{
    assert(hash & 3 == hash % 4) by (bit_vector);
    let low: usize = hash & 3;
    if low == 0 {
        Gradient::PlusPlus
    } else if low == 1 {
        Gradient::MinusPlus
    } else if low == 2 {
        Gradient::PlusMinus
    } else {
        Gradient::MinusMinus
    }
}

/// For every seed the table is well formed: its first 256 entries hold each
/// of the values `0..256` exactly once, and the entry at `i + 256` equals
/// the entry at `i`.
pub proof fn lemma_permutation_table_valid(seed: usize)
    ensures
        is_permutation(permutation_table(seed).subrange(0, 256)),
        forall|i: int|
            0 <= i < 256 ==> permutation_table(seed)[i] == #[trigger] permutation_table(seed)[i
                + 256],
        is_permutation_table(permutation_table(seed)),
{
    lemma_shuffle_is_permutation(seed, 1);
    assert(permutation_table(seed).subrange(0, 256) =~= base_permutation(seed));
}

/// Every entry of a well-formed table is one of the values `0..256`, in the
/// copied half as in the first.
pub proof fn lemma_table_entries_below_256(table: Seq<usize>, index: int)
    requires
        is_permutation_table(table),
        0 <= index < 512,
    ensures
        table[index] < 256,
{
    let base = table.subrange(0, 256);
    let source = if index >= 256 {
        index - 256
    } else {
        index
    };
    assert(table[source] == table[source + 256]);
    assert(base[source] == table[source]);
}

/// Every corner hash of a well-formed table is one of the values `0..256`.
pub proof fn lemma_corner_hash_bound(table: Seq<usize>, xi: int, yi: int, dx: int, dy: int)
    requires
        is_permutation_table(table),
        0 <= xi < 256,
        0 <= yi < 256,
        0 <= dx <= 1,
        0 <= dy <= 1,
    ensures
        corner_hash(table, xi, yi, dx, dy) < 256,
{
    lemma_table_entries_below_256(table, xi + dx);
    lemma_table_entries_below_256(table, (table[xi + dx] + yi + dy) % 256);
}

/// Neighbouring cells agree on the corners they share, also where the
/// lattice index wraps from 255 to 0: the corner one column (or one row) on
/// from a cell has the hash of the same corner seen from the next cell. So
/// the gradients on a shared border are the same from either side.
pub proof fn lemma_neighbours_share_corners(table: Seq<usize>, cell_x: int, cell_y: int, d: int)
    requires
        is_permutation_table(table),
        0 <= d <= 1,
    ensures
        corner_hash(table, cell_x % 256, cell_y % 256, 1, d) == corner_hash(
            table,
            (cell_x + 1) % 256,
            cell_y % 256,
            0,
            d,
        ),
        corner_hash(table, cell_x % 256, cell_y % 256, d, 1) == corner_hash(
            table,
            cell_x % 256,
            (cell_y + 1) % 256,
            d,
            0,
        ),
{
    assert(table[0] == table[0int + 256]);
    lemma_shared_corner_indices(table, cell_x, cell_y, d);
}

/// The seed alone decides the lattice: two tables built from one seed are
/// equal, and so is the hash of every corner of every cell.
pub proof fn lemma_seed_decides_lattice(
    first: PerlinNoise,
    second: PerlinNoise,
    seed: usize,
    cell_x: int,
    cell_y: int,
    dx: int,
    dy: int,
)
    requires
        first@ == permutation_table(seed),
        second@ == permutation_table(seed),
    ensures
        first@ == second@,
        corner_hash(first@, cell_x % 256, cell_y % 256, dx, dy) == corner_hash(
            second@,
            cell_x % 256,
            cell_y % 256,
            dx,
            dy,
        ),
{
}

/// Exchanging two entries of a permutation leaves a permutation.
proof fn lemma_exchange_keeps_permutation(s: Seq<usize>, i: int, j: int)
    requires
        is_permutation(s),
        0 <= i < 256,
        0 <= j < 256,
    ensures
        is_permutation(exchanged(s, i, j)),
{
    let t = exchanged(s, i, j);
    assert forall|v: usize| v < 256 implies #[trigger] t.contains(v) by {
        assert(s.contains(v));
        let k = choose|k: int| 0 <= k < s.len() && s[k] == v;
        let moved = if k == i {
            j
        } else if k == j {
            i
        } else {
            k
        };
        assert(t[moved] == v);
    }
}

/// Every stage of the shuffle is a permutation.
proof fn lemma_shuffle_is_permutation(seed: usize, from: nat)
    ensures
        is_permutation(shuffled_down_to(seed, from)),
    decreases 256 - from,
{
    if from >= 256 {
        let s = identity_base();
        assert forall|v: usize| v < 256 implies #[trigger] s.contains(v) by {
            assert(s[v as int] == v);
        }
    } else {
        lemma_shuffle_is_permutation(seed, from + 1);
        lemma_exchange_keeps_permutation(
            shuffled_down_to(seed, from + 1),
            from as int,
            swap_target(seed, from),
        );
    }
}

/// The index arithmetic behind `lemma_neighbours_share_corners`, for a
/// table of which only the one copied entry that matters is known.
proof fn lemma_shared_corner_indices(table: Seq<usize>, cell_x: int, cell_y: int, d: int)
    requires
        table[0] == table[256],
    ensures
        corner_hash(table, cell_x % 256, cell_y % 256, 1, d) == corner_hash(
            table,
            (cell_x + 1) % 256,
            cell_y % 256,
            0,
            d,
        ),
        corner_hash(table, cell_x % 256, cell_y % 256, d, 1) == corner_hash(
            table,
            cell_x % 256,
            (cell_y + 1) % 256,
            d,
            0,
        ),
{
    let xi = cell_x % 256;
    let yi = cell_y % 256;
    assert((cell_x + 1) % 256 == if xi == 255 {
        0
    } else {
        xi + 1
    });
    assert(table[xi + 1] == table[(cell_x + 1) % 256]);
    assert((cell_y + 1) % 256 == if yi == 255 {
        0
    } else {
        yi + 1
    });
    let column = table[xi + d] as int;
    assert((column + yi + 1) % 256 == (column + (cell_y + 1) % 256 + 0) % 256);
}

} // verus!
