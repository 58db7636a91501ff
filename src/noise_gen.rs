//! The sampling grid of the 3D noise volume.
use vstd::prelude::*;
use vstd::arithmetic::div_mod::lemma_fundamental_div_mod_converse;

verus! {

/// Side of the noise volume that the renderer uploads.
pub const NOISE_SIZE: usize = 128;

/// Length of the noise domain that the volume spans along each axis.
pub const NOISE_DOMAIN: u64 = 128;

/// A point of the noise domain as exact fractions:
/// `(x_num / den, y_num / den, z_num / den)`.
#[derive(Clone, Copy, PartialEq, Eq, Structural, Debug)]
pub struct SamplePoint {
    pub x_num: u64,
    pub y_num: u64,
    pub z_num: u64,
    pub den: u64,
}

/// Grid cell `(x, y, z)` of entry `i` of a volume of side `size`, stored
/// with `x` varying fastest, then `y`, then `z`.
pub open spec fn cell_of(i: int, size: int) -> (int, int, int) {
    (i % size, (i / size) % size, (i / size) / size)
}

/// Entry of cell `(x, y, z)` in a volume of side `size`.
pub open spec fn cell_index(x: int, y: int, z: int, size: int) -> int {
    x + size * (y + size * z)
}

/// Center of cell `c` of a grid of side `size` over the noise domain: the
/// coordinate `(c + 0.5) * scale` with `scale = NOISE_DOMAIN / size`, that is
/// `(2c + 1) * NOISE_DOMAIN / (2 * size)`.
pub open spec fn cell_center(c: (int, int, int), size: int) -> SamplePoint {
    SamplePoint {
        x_num: ((2 * c.0 + 1) * NOISE_DOMAIN) as u64,
        y_num: ((2 * c.1 + 1) * NOISE_DOMAIN) as u64,
        z_num: ((2 * c.2 + 1) * NOISE_DOMAIN) as u64,
        den: (2 * size) as u64,
    }
}

/// Whether `r` is a volume of side `size` whose entry `i` is a value that
/// `sample` can return at the center of cell `cell_of(i, size)`.
pub open spec fn is_noise_volume<F: Fn(SamplePoint) -> u8>(
    r: Seq<u8>,
    size: int,
    sample: F,
) -> bool {
    &&& r.len() == size * size * size
    &&& forall|i: int|
        0 <= i < r.len() ==> sample.ensures((cell_center(cell_of(i, size), size),), #[trigger] r[i])
}

/// Cell `(x, y, z)` is stored at `cell_index(x, y, z, size)`, inside the volume.
pub proof fn lemma_cell_index(x: int, y: int, z: int, size: int)
    requires
        0 <= x < size,
        0 <= y < size,
        0 <= z < size,
    ensures
        0 <= cell_index(x, y, z, size) < size * size * size,
        cell_of(cell_index(x, y, z, size), size) == (x, y, z),
{
    let i = cell_index(x, y, z, size);
    assert(0 <= y + size * z < size * size) by (nonlinear_arith)
        requires
            0 <= y < size,
            0 <= z < size,
    ;
    assert(0 <= i < size * size * size) by (nonlinear_arith)
        requires
            i == x + size * (y + size * z),
            0 <= x < size,
            0 <= y + size * z < size * size,
    ;
    lemma_fundamental_div_mod_converse(i, size, y + size * z, x);
    assert(size * z == z * size) by (nonlinear_arith);
    lemma_fundamental_div_mod_converse(y + size * z, size, z, y);
}

/// Two volumes made with the same side and with a sampler that gives one
/// value per point are equal byte for byte, and each has `size`^3 entries.
pub proof fn lemma_noise_deterministic<F: Fn(SamplePoint) -> u8>(
    size: int,
    sample: F,
    a: Seq<u8>,
    b: Seq<u8>,
)
    requires
        forall|p: SamplePoint, u: u8, v: u8|
            sample.ensures((p,), u) && sample.ensures((p,), v) ==> u == v,
        is_noise_volume(a, size, sample),
        is_noise_volume(b, size, sample),
    ensures
        a == b,
        a.len() == size * size * size,
{
    assert forall|i: int| 0 <= i < a.len() implies a[i] == b[i] by {
        let p = cell_center(cell_of(i, size), size);
        assert(sample.ensures((p,), a[i]));
        assert(sample.ensures((p,), b[i]));
    }
    assert(a =~= b);
}

/// Entry 0 is cell `(0, 0, 0)`, sampled at its center: each coordinate is
/// `NOISE_DOMAIN / (2 * size)`, that is `0.5 * scale` with
/// `scale = NOISE_DOMAIN / size`, and not the grid origin.
pub proof fn lemma_first_cell_centered(size: int)
    requires
        0 < size,
        size * size * size <= usize::MAX,
    ensures
        cell_of(0, size) == (0int, 0int, 0int),
        ({
            let p = cell_center(cell_of(0, size), size);
            &&& p.x_num == NOISE_DOMAIN && p.y_num == NOISE_DOMAIN && p.z_num == NOISE_DOMAIN
            &&& p.den == 2 * size
            &&& p.x_num > 0
        }),
{
    if size >= 0x400000 {
        assert(size * size * size >= 0x400000 * 0x400000 * 0x400000) by (nonlinear_arith)
            requires
                size >= 0x400000,
        ;
    }
    lemma_cell_index(0, 0, 0, size);
}

/// Fills a volume of side `size` (`size`^3 bytes, `x` fastest, then `y`, then
/// `z`) with `sample` taken at the center of each cell.
pub fn generate_noise_3d<F: Fn(SamplePoint) -> u8>(size: usize, sample: F) -> (r: Vec<u8>)
    requires
        size * size * size <= usize::MAX,
        forall|p: SamplePoint| sample.requires((p,)),
    ensures
        is_noise_volume(r@, size as int, sample),
{
    let ghost s = size as int;
    assert(size < 0x400000) by {
        if size >= 0x400000 {
            assert(s * s * s >= 0x400000 * 0x400000 * 0x400000) by (nonlinear_arith)
                requires
                    s >= 0x400000,
            ;
        }
    }
    assert(0 <= s * s <= s * s * s) by (nonlinear_arith)
        requires
            s >= 0,
    ;
    let total: usize = size * size * size;
    let mut r: Vec<u8> = Vec::with_capacity(total);
    let mut x: usize = 0;
    let mut y: usize = 0;
    let mut z: usize = 0;
    while r.len() < total
        invariant
            s == size as int,
            size < 0x400000,
            total == s * s * s,
            r.len() <= total,
            r.len() == cell_index(x as int, y as int, z as int, s),
            r.len() < total ==> x < size && y < size && z < size,
            forall|p: SamplePoint| sample.requires((p,)),
            forall|i: int|
                0 <= i < r.len() ==> sample.ensures(
                    (cell_center(cell_of(i, s), s),),
                    #[trigger] r@[i],
                ),
        decreases total - r.len(),
    {
        let p = SamplePoint {
            x_num: (2 * x as u64 + 1) * NOISE_DOMAIN,
            y_num: (2 * y as u64 + 1) * NOISE_DOMAIN,
            z_num: (2 * z as u64 + 1) * NOISE_DOMAIN,
            den: 2 * size as u64,
        };
        proof {
            lemma_cell_index(x as int, y as int, z as int, s);
        }
        let v = sample(p);
        r.push(v);
        proof {
            assert(r@[cell_index(x as int, y as int, z as int, s)] == v);
        }
        if x + 1 < size {
            x = x + 1;
        } else if y + 1 < size {
            x = 0;
            y = y + 1;
            assert(cell_index(0, y as int, z as int, s) == cell_index(size - 1, y - 1, z as int, s)
                + 1) by (nonlinear_arith)
                requires
                    s == size,
            ;
        } else {
            x = 0;
            y = 0;
            z = z + 1;
            assert(cell_index(0, 0, z as int, s) == cell_index(size - 1, size - 1, z - 1, s) + 1)
                by (nonlinear_arith)
                requires
                    s == size,
            ;
        }
        proof {
            if r.len() < total {
                if z >= size {
                    assert(cell_index(x as int, y as int, z as int, s) >= s * s * s) by (
                    nonlinear_arith)
                        requires
                            z >= s,
                            x >= 0,
                            y >= 0,
                            s >= 0,
                    ;
                }
            }
        }
    }
    r
}

} // verus!
