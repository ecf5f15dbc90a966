//! Weight blocks regrouped for the GPU: all scales first, then all quants.

use vstd::prelude::*;

verus! {

/// Bytes of a block's scale.
pub const SCALE_SIZE: usize = 2;

/// How a block lays out its scale and its quants.
#[derive(Debug, Clone, Copy, PartialEq, Eq, Structural)]
pub struct BlockLayout {
    /// Where the scale starts.
    pub scale_at: usize,
    /// Where the quants start.
    pub data_at: usize,
    /// Bytes of quants.
    pub data_size: usize,
}

/// 1-bit blocks: two bytes of scale, then sixteen bytes of signs.
pub open spec fn q1_layout() -> BlockLayout {
    BlockLayout { scale_at: 0, data_at: 2, data_size: 16 }
}

/// Ternary blocks: thirty-two bytes of codes, then two bytes of scale.
pub open spec fn tq2_layout() -> BlockLayout {
    BlockLayout { scale_at: 32, data_at: 0, data_size: 32 }
}

impl BlockLayout {
    /// Bytes of a block.
    pub open spec fn block(self) -> int {
        self.data_size + 2
    }

    /// Scale and quants fill the block without overlap.
    pub open spec fn wf(self) -> bool {
        &&& 0 < self.data_size <= 4096
        &&& (self.scale_at == 0 && self.data_at == 2) || (self.data_at == 0 && self.scale_at
            == self.data_size)
    }

    /// The bytes are a whole, positive number of blocks.
    pub open spec fn divides(self, aos: Seq<u8>) -> bool {
        aos.len() > 0 && aos.len() as int % self.block() == 0
    }

    /// Blocks in so many bytes.
    pub open spec fn count(self, len: nat) -> int {
        len as int / self.block()
    }

    /// Byte `j` of the regrouped weights: the scales of all blocks, then the
    /// quants of all blocks.
    pub open spec fn soa_byte(self, aos: Seq<u8>, j: int) -> u8 {
        let scales = 2 * self.count(aos.len());
        if j < scales {
            aos[j / 2 * self.block() + self.scale_at + j % 2]
        } else {
            let d = j - scales;
            aos[d / self.data_size as int * self.block() + self.data_at + d % self.data_size as int]
        }
    }

    /// The regrouped weights.
    pub open spec fn soa(self, aos: Seq<u8>) -> Seq<u8> {
        Seq::new(aos.len(), |j: int| self.soa_byte(aos, j))
    }

    /// Byte `p` of the blocks that were regrouped into `soa`.
    pub open spec fn aos_byte(self, soa: Seq<u8>, p: int) -> u8 {
        let block = p / self.block();
        let off = p % self.block();
        if self.scale_at <= off < self.scale_at + 2 {
            soa[2 * block + (off - self.scale_at)]
        } else {
            soa[2 * self.count(soa.len()) + block * self.data_size + (off - self.data_at)]
        }
    }

    /// The blocks that were regrouped into `soa`.
    pub open spec fn aos(self, soa: Seq<u8>) -> Seq<u8> {
        Seq::new(soa.len(), |p: int| self.aos_byte(soa, p))
    }
}

/// Offset `off` of block `i` lies inside the blocks.
proof fn lemma_in_block(i: int, off: int, n: int, block: int)
    requires
        0 <= i < n,
        0 <= off < block,
    ensures
        0 <= i * block,
        i * block + block <= n * block,
        i * block + off < n * block,
{
    assert(0 <= i * block && i * block + block <= n * block) by (nonlinear_arith)
        requires
            0 <= i,
            i + 1 <= n,
            block > 0,
    ;
}

/// `d` splits into a row below `n` and a column.
proof fn lemma_row_col(d: int, n: int, width: int)
    requires
        0 <= d < n * width,
        width > 0,
    ensures
        0 <= d / width < n,
        0 <= d % width < width,
        d == d / width * width + d % width,
{
    vstd::arithmetic::div_mod::lemma_fundamental_div_mod(d, width);
    vstd::arithmetic::div_mod::lemma_mod_bound(d, width);
    assert(width * (d / width) == d / width * width) by (nonlinear_arith);
    let q = d / width;
    assert(0 <= q < n) by (nonlinear_arith)
        requires
            0 <= d < n * width,
            d == q * width + d % width,
            0 <= d % width < width,
            width > 0,
    ;
}

/// Regroups whole blocks.
fn aos_to_soa(aos: &[u8], layout: BlockLayout) -> (soa: Vec<u8>)
    requires
        layout.wf(),
        layout.divides(aos@),
    ensures
        soa@ == layout.soa(aos@),
{
    let block: usize = layout.data_size + SCALE_SIZE;
    let len: usize = aos.len();
    let n: usize = len / block;
    proof {
        vstd::arithmetic::div_mod::lemma_fundamental_div_mod(len as int, block as int);
        assert(block * n == n * block && n * block == n * layout.data_size + 2 * n) by (
            nonlinear_arith)
            requires
                block == layout.data_size + 2,
        ;
    }
    let ds: usize = layout.data_size;
    assert(n * ds >= 0) by (nonlinear_arith)
        requires
            n >= 0,
            ds >= 0,
    ;
    let scales: usize = SCALE_SIZE * n;
    let quants: usize = n * ds;
    let mut soa: Vec<u8> = Vec::with_capacity(aos.len());
    let mut j: usize = 0;
    while j < scales
        invariant
            layout.wf(),
            block == layout.data_size + 2,
            ds == layout.data_size,
            n * block == aos@.len(),
            aos@.len() == len,
            scales == 2 * n,
            quants == n * ds,
            n * block == n * ds + 2 * n,
            n == layout.count(aos@.len()),
            j <= 2 * n,
            soa@.len() == j,
            forall|i: int| 0 <= i < j ==> soa@[i] == layout.soa_byte(aos@, i),
        decreases 2 * n - j,
    {
        proof {
            lemma_row_col(j as int, n as int, 2);
            lemma_in_block(j as int / 2, layout.scale_at + j as int % 2, n as int, block as int);
        }
        soa.push(aos[j / 2 * block + layout.scale_at + j % 2]);
        j += 1;
    }
    let mut d: usize = 0;
    while d < quants
        invariant
            layout.wf(),
            block == layout.data_size + 2,
            ds == layout.data_size,
            n * block == aos@.len(),
            aos@.len() == len,
            scales == 2 * n,
            quants == n * ds,
            n * block == n * ds + 2 * n,
            n == layout.count(aos@.len()),
            d <= n * ds,
            soa@.len() == 2 * n + d,
            forall|i: int| 0 <= i < 2 * n + d ==> soa@[i] == layout.soa_byte(aos@, i),
        decreases n * ds - d,
    {
        proof {
            lemma_row_col(d as int, n as int, ds as int);
            lemma_in_block(
                d as int / ds as int,
                layout.data_at + d as int % ds as int,
                n as int,
                block as int,
            );
        }
        soa.push(aos[d / ds * block + layout.data_at + d % ds]);
        d += 1;
    }
    assert(soa@ =~= layout.soa(aos@));
    soa
}

/// Regroups 1-bit weight bytes: the two-byte scales of all blocks, then the
/// sixteen sign bytes of all blocks. `None` unless the bytes are a whole,
/// positive number of blocks.
pub fn reformat_q1_aos_to_soa(aos_bytes: &[u8]) -> (r: Option<Vec<u8>>)
    ensures
        r is Some <==> q1_layout().divides(aos_bytes@),
        r matches Some(soa) ==> soa@ == q1_layout().soa(aos_bytes@),
{
    if aos_bytes.len() == 0 || aos_bytes.len() % 18 != 0 {
        return None;
    }
    Some(aos_to_soa(aos_bytes, BlockLayout { scale_at: 0, data_at: 2, data_size: 16 }))
}

/// Regroups ternary weight bytes: the two-byte scales of all blocks, then the
/// thirty-two code bytes of all blocks. `None` unless the bytes are a whole,
/// positive number of blocks.
pub fn reformat_tq2_aos_to_soa(aos_bytes: &[u8]) -> (r: Option<Vec<u8>>)
    ensures
        r is Some <==> tq2_layout().divides(aos_bytes@),
        r matches Some(soa) ==> soa@ == tq2_layout().soa(aos_bytes@),
{
    if aos_bytes.len() == 0 || aos_bytes.len() % 34 != 0 {
        return None;
    }
    Some(aos_to_soa(aos_bytes, BlockLayout { scale_at: 32, data_at: 0, data_size: 32 }))
}

/// Regrouping keeps the total size and loses nothing: the blocks can be read
/// back from the regrouped bytes.
pub proof fn law_soa_is_invertible(layout: BlockLayout, aos: Seq<u8>)
    requires
        layout.wf(),
        layout.divides(aos),
    ensures
        layout.soa(aos).len() == aos.len(),
        layout.aos(layout.soa(aos)) == aos,
{
    let soa = layout.soa(aos);
    let block = layout.block();
    let n = layout.count(aos.len());
    let ds = layout.data_size as int;
    vstd::arithmetic::div_mod::lemma_fundamental_div_mod(aos.len() as int, block);
    assert(block * n == n * block && n * block == n * ds + 2 * n) by (nonlinear_arith)
        requires
            block == ds + 2,
    ;
    assert forall|p: int| 0 <= p < aos.len() implies layout.aos_byte(soa, p) == aos[p] by {
        lemma_row_col(p, n, block);
        let b = p / block;
        let off = p % block;
        if layout.scale_at <= off < layout.scale_at + 2 {
            let j = 2 * b + (off - layout.scale_at);
            assert(j / 2 == b && j % 2 == off - layout.scale_at);
            assert(soa[j] == layout.soa_byte(aos, j));
        } else {
            let c = off - layout.data_at;
            let d = b * ds + c;
            lemma_in_block(b, c, n, ds);
            vstd::arithmetic::div_mod::lemma_fundamental_div_mod_converse(d, ds, b, c);
            let j = 2 * n + d;
            assert(soa[j] == layout.soa_byte(aos, j));
        }
    }
    assert(layout.aos(soa) =~= aos);
}

/// `soa` holds the blocks of `aos` with all scales first, then all quants: of a 1-bit
/// block, bytes 0 and 1 are the scale and 2 to 17 the signs; of a ternary block, bytes 0
/// to 31 are the codes and 32 and 33 the scale.
pub open spec fn is_regrouped(aos: Seq<u8>, soa: Seq<u8>, ternary: bool) -> bool {
    let block = if ternary {
        34int
    } else {
        18int
    };
    let n = aos.len() as int / block;
    &&& aos.len() > 0
    &&& aos.len() as int % block == 0
    &&& soa.len() == aos.len()
    &&& forall|b: int, e: int|
        0 <= b < n && 0 <= e < 2 ==> #[trigger] soa[2 * b + e] == aos[b * block + (if ternary {
            32int
        } else {
            0int
        }) + e]
    &&& forall|b: int, e: int|
        0 <= b < n && 0 <= e < block - 2 ==> #[trigger] soa[2 * n + b * (block - 2) + e]
            == aos[b * block + (if ternary {
            0int
        } else {
            2int
        }) + e]
}

/// Regrouped blocks, as the layouts give them.
pub proof fn lemma_regrouped(aos: Seq<u8>, ternary: bool)
    requires
        ({
            let layout = if ternary {
                tq2_layout()
            } else {
                q1_layout()
            };
            layout.divides(aos)
        }),
    ensures
        ({
            let layout = if ternary {
                tq2_layout()
            } else {
                q1_layout()
            };
            is_regrouped(aos, layout.soa(aos), ternary)
        }),
{
    let layout = if ternary {
        tq2_layout()
    } else {
        q1_layout()
    };
    let soa = layout.soa(aos);
    let block = layout.block();
    let n = layout.count(aos.len());
    let ds = layout.data_size as int;
    vstd::arithmetic::div_mod::lemma_fundamental_div_mod(aos.len() as int, block);
    assert(block * n == n * block && n * block == n * ds + 2 * n) by (nonlinear_arith)
        requires
            block == ds + 2,
    ;
    assert forall|b: int, e: int| 0 <= b < n && 0 <= e < 2 implies #[trigger] soa[2 * b + e]
        == aos[b * block + layout.scale_at + e] by {
        assert((2 * b + e) / 2 == b && (2 * b + e) % 2 == e);
        lemma_in_block(b, layout.scale_at + e, n, block);
        assert(soa[2 * b + e] == layout.soa_byte(aos, 2 * b + e));
    }
    assert forall|b: int, e: int| 0 <= b < n && 0 <= e < block - 2 implies #[trigger] soa[2 * n + b
        * (block - 2) + e] == aos[b * block + layout.data_at + e] by {
        let d = b * ds + e;
        lemma_in_block(b, e, n, ds);
        lemma_in_block(b, layout.data_at + e, n, block);
        vstd::arithmetic::div_mod::lemma_fundamental_div_mod_converse(d, ds, b, e);
        assert(soa[2 * n + d] == layout.soa_byte(aos, 2 * n + d));
    }
}

/// Weights are regrouped exactly where they are a whole, positive number of blocks, and
/// then scale and quants of every block are where the GPU reads them.
pub proof fn law_weights_are_regrouped(aos: &[u8], r: Option<Vec<u8>>)
    ensures
        call_ensures(reformat_q1_aos_to_soa, (aos,), r) ==> {
            &&& r is Some <==> aos@.len() > 0 && aos@.len() as int % 18 == 0
            &&& r matches Some(soa) ==> is_regrouped(aos@, soa@, false)
        },
        call_ensures(reformat_tq2_aos_to_soa, (aos,), r) ==> {
            &&& r is Some <==> aos@.len() > 0 && aos@.len() as int % 34 == 0
            &&& r matches Some(soa) ==> is_regrouped(aos@, soa@, true)
        },
{
    if q1_layout().divides(aos@) {
        lemma_regrouped(aos@, false);
    }
    if tq2_layout().divides(aos@) {
        lemma_regrouped(aos@, true);
    }
}

} // verus!
