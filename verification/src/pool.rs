//! # Pool implementation providing memory pools for packet storage.
//!
//! The [StaticMemoryPool] pre-allocates all required memory and does not perform dynamic
//! run-time allocations for the storage of TMTC packets. It consists of subpools of fixed size
//! memory blocks. Data is added to the best fitting subpool and can then be read, modified and
//! deleted using the returned [PoolAddr].
use vstd::prelude::*;
use crate::bytes::ByteConversionError;

verus! {

/// Number of blocks inside a subpool.
pub type NumBlocks = u16;

/// Generic address type of the pool.
pub type PoolAddr = u64;

/// Simple address type used for transactions with the local pool.
#[derive(Debug, Copy, Clone, PartialEq, Eq, Structural)]
pub struct StaticPoolAddr {
    pub pool_idx: u16,
    pub packet_idx: NumBlocks,
}

/// Value of a size list entry which marks a free memory block.
pub const STORE_FREE: usize = usize::MAX;

/// Largest data size which can be stored inside a memory block.
pub const MAX_BLOCK_SIZE: usize = STORE_FREE - 1;

/// Value of an invalid address.
pub const INVALID_ADDR: u32 = 0xFFFF_FFFFu32;

/// The generic address of the slot with the given subpool and packet index.
pub open spec fn spec_encode_addr(pool_idx: int, packet_idx: int) -> PoolAddr {
    (pool_idx * 65536 + packet_idx) as PoolAddr
}

/// The subpool index which is decoded from a generic address: bits 16 to 23.
pub open spec fn spec_addr_pool_idx(addr: PoolAddr) -> int {
    ((addr / 65536) % 256) as int
}

/// The packet index which is decoded from a generic address: bits 0 to 7.
pub open spec fn spec_addr_packet_idx(addr: PoolAddr) -> int {
    (addr % 256) as int
}

impl StaticPoolAddr {
    /// The raw 32 bit representation: the subpool index in the upper half, the packet index in
    /// the lower half.
    pub fn raw(&self) -> (r: u32)
        ensures
            r == self.pool_idx as int * 65536 + self.packet_idx as int,
    {
        let p: u16 = self.pool_idx;
        let q: u16 = self.packet_idx;
        assert((((p as u32) << 16u32) | q as u32) == p as int * 65536 + q as int) by (bit_vector);
        ((p as u32) << 16) | q as u32
    }

    /// The generic pool address of this address.
    pub fn to_pool_addr(&self) -> (r: PoolAddr)
        ensures
            r == spec_encode_addr(self.pool_idx as int, self.packet_idx as int),
    {
        let p: u16 = self.pool_idx;
        let q: u16 = self.packet_idx;
        assert((((p as u64) << 16u64) | q as u64) == p as int * 65536 + q as int) by (bit_vector);
        ((p as u64) << 16) | q as u64
    }

    /// Decodes a generic pool address. Only the lowest byte of both the subpool and the packet
    /// index are taken from the address.
    pub fn from_pool_addr(value: PoolAddr) -> (r: Self)
        ensures
            r.pool_idx == spec_addr_pool_idx(value),
            r.packet_idx == spec_addr_packet_idx(value),
    {
        assert(((value >> 16u64) & 0xffu64) as u16 == (value / 65536) % 256) by (bit_vector);
        assert((value & 0xffu64) as u16 == value % 256) by (bit_vector);
        Self { pool_idx: ((value >> 16) & 0xff) as u16, packet_idx: (value & 0xff) as u16 }
    }
}

impl From<StaticPoolAddr> for PoolAddr {
    fn from(value: StaticPoolAddr) -> (r: PoolAddr) {
        value.to_pool_addr()
    }
}

impl vstd::std_specs::convert::FromSpecImpl<StaticPoolAddr> for PoolAddr {
    open spec fn obeys_from_spec() -> bool {
        true
    }

    open spec fn from_spec(v: StaticPoolAddr) -> PoolAddr {
        spec_encode_addr(v.pool_idx as int, v.packet_idx as int)
    }
}

impl From<PoolAddr> for StaticPoolAddr {
    fn from(value: PoolAddr) -> (r: StaticPoolAddr) {
        StaticPoolAddr::from_pool_addr(value)
    }
}

impl vstd::std_specs::convert::FromSpecImpl<PoolAddr> for StaticPoolAddr {
    open spec fn obeys_from_spec() -> bool {
        true
    }

    open spec fn from_spec(v: PoolAddr) -> StaticPoolAddr {
        StaticPoolAddr {
            pool_idx: spec_addr_pool_idx(v) as u16,
            packet_idx: spec_addr_packet_idx(v) as u16,
        }
    }
}

/// Encoding an address whose indices are below 256 as a generic address and decoding it again
/// gives back the same address.
pub proof fn lemma_addr_roundtrip(pool_idx: u16, packet_idx: u16)
    requires
        pool_idx < 256,
        packet_idx < 256,
    ensures
        spec_addr_pool_idx(spec_encode_addr(pool_idx as int, packet_idx as int)) == pool_idx,
        spec_addr_packet_idx(spec_encode_addr(pool_idx as int, packet_idx as int)) == packet_idx,
{
    let a = spec_encode_addr(pool_idx as int, packet_idx as int);
    assert(a == pool_idx * 65536 + packet_idx);
    assert(a / 65536 == pool_idx as int) by (nonlinear_arith)
        requires
            a == pool_idx * 65536 + packet_idx,
            packet_idx < 65536,
            pool_idx < 256,
    ;
    assert(a % 256 == packet_idx as int) by (nonlinear_arith)
        requires
            a == pool_idx * 65536 + packet_idx,
            packet_idx < 256,
    ;
}

proof fn lemma_addr_roundtrip_cond(pool_idx: u16, packet_idx: u16)
    ensures
        pool_idx < 256 && packet_idx < 256 ==> spec_addr_pool_idx(
            spec_encode_addr(pool_idx as int, packet_idx as int),
        ) == pool_idx && spec_addr_packet_idx(spec_encode_addr(pool_idx as int, packet_idx as int))
            == packet_idx,
{
    if pool_idx < 256 && packet_idx < 256 {
        lemma_addr_roundtrip(pool_idx, packet_idx);
    }
}

/// Errors related to an invalid address.
#[derive(Debug, Clone, PartialEq, Eq, Structural)]
pub enum StoreIdError {
    InvalidSubpool(u16),
    InvalidPacketIdx(u16),
}

/// Errors of the pool operations.
#[derive(Debug, Clone, PartialEq, Eq, Structural)]
pub enum PoolError {
    /// Requested data block is too large
    DataTooLarge(usize),
    /// The store is full. Contains the index of the full subpool
    StoreFull(u16),
    /// The store can not hold any data.
    NoCapacity,
    /// Store ID is invalid. This also includes partial errors where only the subpool is invalid
    InvalidStoreId(StoreIdError, Option<PoolAddr>),
    /// Valid subpool and packet index, but no data is stored at the given address
    DataDoesNotExist(PoolAddr),
    ByteConversionError(ByteConversionError),
    LockError,
    /// Internal or configuration errors
    InternalError(u32),
}

/// Configuration of a single subpool: the number of blocks and the size of each block.
#[derive(Debug, Copy, Clone, PartialEq, Eq, Structural)]
pub struct SubpoolConfig {
    num_blocks: NumBlocks,
    block_size: usize,
}

impl SubpoolConfig {
    pub closed spec fn spec_num_blocks(self) -> NumBlocks {
        self.num_blocks
    }

    pub closed spec fn spec_block_size(self) -> usize {
        self.block_size
    }

    pub closed spec fn spec_new(num_blocks: NumBlocks, block_size: usize) -> SubpoolConfig {
        SubpoolConfig { num_blocks, block_size }
    }

    pub fn new(num_blocks: NumBlocks, block_size: usize) -> (r: Self)
        ensures
            r == SubpoolConfig::spec_new(num_blocks, block_size),
            r.spec_num_blocks() == num_blocks,
            r.spec_block_size() == block_size,
    {
        SubpoolConfig { num_blocks, block_size }
    }

    pub fn num_blocks(&self) -> (r: NumBlocks)
        ensures
            r == self.spec_num_blocks(),
    {
        self.num_blocks
    }

    pub fn block_size(&self) -> (r: usize)
        ensures
            r == self.spec_block_size(),
    {
        self.block_size
    }
}

/// Whether a subpool configuration is kept by [StaticPoolConfig::sanitize]: it has at least one
/// block and the block size is below [MAX_BLOCK_SIZE].
pub open spec fn subpool_cfg_usable(c: SubpoolConfig) -> bool {
    c.spec_num_blocks() > 0 && c.spec_block_size() < MAX_BLOCK_SIZE
}

/// The predicate of [subpool_cfg_usable] as a function value.
pub open spec fn usable_pred() -> spec_fn(SubpoolConfig) -> bool {
    |c: SubpoolConfig| subpool_cfg_usable(c)
}

/// The subpool configurations are ordered by ascending block size.
pub open spec fn sorted_by_block_size(s: Seq<SubpoolConfig>) -> bool {
    forall|i: int, j: int|
        0 <= i <= j < s.len() ==> s[i].spec_block_size() <= s[j].spec_block_size()
}

/// Configuration structure of the [static memory pool][StaticMemoryPool]
///
/// * `cfg` - Vector of subpool configurations. Each one specifies the number of memory blocks in
///   the subpool and the size of the blocks
/// * `spill_to_higher_subpools` - Specifies whether data will be spilled to higher subpools
///   if the next fitting subpool is full.
#[derive(Clone)]
pub struct StaticPoolConfig {
    cfg: Vec<SubpoolConfig>,
    spill_to_higher_subpools: bool,
}

impl StaticPoolConfig {
    pub closed spec fn spec_cfg(&self) -> Seq<SubpoolConfig> {
        self.cfg@
    }

    pub closed spec fn spec_spill(&self) -> bool {
        self.spill_to_higher_subpools
    }

    pub fn new(cfg: Vec<SubpoolConfig>, spill_to_higher_subpools: bool) -> (r: Self)
        ensures
            r.spec_cfg() == cfg@,
            r.spec_spill() == spill_to_higher_subpools,
    {
        StaticPoolConfig { cfg, spill_to_higher_subpools }
    }

    pub fn new_from_subpool_cfg_tuples(
        cfg: Vec<(NumBlocks, usize)>,
        spill_to_higher_subpools: bool,
    ) -> (r: Self)
        ensures
            r.spec_cfg().len() == cfg@.len(),
            forall|i: int|
                0 <= i < cfg@.len() ==> #[trigger] r.spec_cfg()[i] == SubpoolConfig::spec_new(
                    cfg@[i].0,
                    cfg@[i].1,
                ),
            r.spec_spill() == spill_to_higher_subpools,
    {
        let mut v: Vec<SubpoolConfig> = Vec::new();
        let mut i: usize = 0;
        while i < cfg.len()
            invariant
                i <= cfg@.len(),
                v@.len() == i,
                forall|k: int|
                    0 <= k < i ==> #[trigger] v@[k] == SubpoolConfig::spec_new(cfg@[k].0, cfg@[k].1),
            decreases cfg@.len() - i,
        {
            let (nb, bs) = cfg[i];
            v.push(SubpoolConfig::new(nb, bs));
            i += 1;
        }
        StaticPoolConfig { cfg: v, spill_to_higher_subpools }
    }

    pub fn subpool_cfg(&self) -> (r: &Vec<SubpoolConfig>)
        ensures
            r@ == self.spec_cfg(),
    {
        &self.cfg
    }

    pub fn spill_to_higher_subpools(&self) -> (r: bool)
        ensures
            r == self.spec_spill(),
    {
        self.spill_to_higher_subpools
    }

    /// Removes the subpool configurations without blocks or with a block size which is not
    /// below [MAX_BLOCK_SIZE], and orders the remaining ones by ascending block size. Returns the
    /// number of remaining subpool configurations.
    pub fn sanitize(&mut self) -> (r: usize)
        ensures
            final(self).spec_spill() == old(self).spec_spill(),
            sorted_by_block_size(final(self).spec_cfg()),
            final(self).spec_cfg().to_multiset() == old(self).spec_cfg().filter(
                usable_pred(),
            ).to_multiset(),
            r == final(self).spec_cfg().len(),
            r <= old(self).spec_cfg().len(),
            forall|i: int|
                0 <= i < final(self).spec_cfg().len() ==> subpool_cfg_usable(
                    #[trigger] final(self).spec_cfg()[i],
                ) && old(self).spec_cfg().contains(final(self).spec_cfg()[i]),
    {
        broadcast use vstd::seq_lib::group_seq_properties;
        broadcast use vstd::seq_lib::group_to_multiset_ensures;
        let ghost old_cfg = self.cfg@;
        let mut result: Vec<SubpoolConfig> = Vec::new();
        let mut i: usize = 0;
        let n = self.cfg.len();
        while i < n
            invariant
                n == old_cfg.len(),
                self.cfg@ == old_cfg,
                i <= n,
                result@.len() <= i,
                sorted_by_block_size(result@),
                result@.to_multiset() == old_cfg.take(i as int).filter(usable_pred()).to_multiset(),
                forall|m: int|
                    0 <= m < result@.len() ==> subpool_cfg_usable(#[trigger] result@[m])
                        && old_cfg.contains(result@[m]),
            decreases n - i,
        {
            let c = self.cfg[i];
            assert(old_cfg.take(i + 1) == old_cfg.take(i as int).push(c));
            proof {
                old_cfg.take(i as int).lemma_filter_push(c, usable_pred());
            }
            if c.num_blocks > 0 && c.block_size < MAX_BLOCK_SIZE {
                // Insert after all entries with a block size not larger than that of `c`.
                let mut k: usize = 0;
                while k < result.len() && result[k].block_size <= c.block_size
                    invariant
                        k <= result@.len(),
                        forall|m: int| 0 <= m < k ==> result@[m].spec_block_size() <= c.block_size,
                    decreases result@.len() - k,
                {
                    k += 1;
                }
                let ghost before = result@;
                result.insert(k, c);
                assert(old_cfg[i as int] == c);
                assert forall|m: int| 0 <= m < result@.len() implies subpool_cfg_usable(
                    #[trigger] result@[m],
                ) && old_cfg.contains(result@[m]) by {
                    if m < k as int {
                        assert(result@[m] == before[m]);
                    } else if m > k as int {
                        assert(result@[m] == before[m - 1]);
                    }
                }
                proof {
                    vstd::seq_lib::to_multiset_insert(before, k as int, c);
                    vstd::seq_lib::to_multiset_build(old_cfg.take(i as int).filter(usable_pred()), c);
                }
                assert(sorted_by_block_size(result@)) by {
                    assert forall|a: int, b: int| 0 <= a <= b < result@.len() implies result@[a].spec_block_size()
                        <= result@[b].spec_block_size() by {
                        if a < k as int && b > k as int {
                            assert(before[a].spec_block_size() <= c.block_size);
                            if k < before.len() {
                                assert(before[k as int].spec_block_size() > c.block_size);
                                assert(before[k as int].spec_block_size() <= before[b - 1].spec_block_size());
                            }
                        } else if a < k as int && b == k as int {
                        } else if a == k as int && b > k as int {
                            assert(before[k as int].spec_block_size() > c.block_size);
                            assert(before[k as int].spec_block_size() <= before[b - 1].spec_block_size());
                        } else if a > k as int {
                            assert(result@[a] == before[a - 1]);
                            assert(result@[b] == before[b - 1]);
                        } else if b < k as int {
                        }
                    }
                }
            }
            i += 1;
        }
        assert(old_cfg.take(n as int) == old_cfg);
        self.cfg = result;
        self.cfg.len()
    }
}


/// The subpool at index `i` is the first one whose blocks can hold `len` bytes.
pub open spec fn spec_first_fit(cfg: Seq<SubpoolConfig>, len: usize, i: int) -> bool {
    &&& 0 <= i < cfg.len()
    &&& cfg[i].spec_block_size() >= len
    &&& forall|k: int| 0 <= k < i ==> #[trigger] cfg[k].spec_block_size() < len
}

/// No subpool has blocks which can hold `len` bytes.
pub open spec fn spec_no_fit(cfg: Seq<SubpoolConfig>, len: usize) -> bool {
    forall|k: int| 0 <= k < cfg.len() ==> #[trigger] cfg[k].spec_block_size() < len
}

/// Pool implementation providing sub-pools with fixed size memory blocks.
///
/// This is a simple memory pool implementation which pre-allocates all subpools using a given
/// pool configuration. After the pre-allocation, no dynamic memory allocation will be
/// performed during run-time.
///
/// The subpool bucket sizes only denote the maximum possible data size being stored inside
/// them and the pool implementation will still track the size of the data stored inside it.
pub struct StaticMemoryPool {
    pool_cfg: StaticPoolConfig,
    pool: Vec<Vec<u8>>,
    sizes_lists: Vec<Vec<usize>>,
}

/// Index of the first byte of a block.
pub open spec fn spec_block_start(packet_idx: int, block_size: int) -> int {
    packet_idx * block_size
}

proof fn lemma_block_bounds(j: int, nb: int, bs: int)
    requires
        0 <= j < nb,
        0 <= bs,
    ensures
        0 <= j * bs,
        j * bs + bs <= nb * bs,
{
    assert(j * bs + bs <= nb * bs) by (nonlinear_arith)
        requires
            0 <= j < nb,
            0 <= bs,
    ;
    assert(0 <= j * bs) by (nonlinear_arith)
        requires
            0 <= j,
            0 <= bs,
    ;
}

proof fn lemma_blocks_disjoint(j1: int, j2: int, bs: int)
    requires
        0 <= j1 < j2,
        0 <= bs,
    ensures
        j1 * bs + bs <= j2 * bs,
{
    assert(j1 * bs + bs <= j2 * bs) by (nonlinear_arith)
        requires
            0 <= j1 < j2,
            0 <= bs,
    ;
}

impl StaticMemoryPool {
    /// The subpool configurations of the pool, ordered by ascending block size.
    pub closed spec fn spec_subpools(&self) -> Seq<SubpoolConfig> {
        self.pool_cfg.cfg@
    }

    /// Whether data is spilled to higher subpools if the best fitting subpool is full.
    pub closed spec fn spec_spill(&self) -> bool {
        self.pool_cfg.spill_to_higher_subpools
    }

    /// Whether `(i, j)` denotes block `j` of subpool `i`.
    pub open spec fn spec_valid_slot(&self, i: int, j: int) -> bool {
        &&& 0 <= i < self.spec_subpools().len()
        &&& 0 <= j < self.spec_subpools()[i].spec_num_blocks()
    }

    closed spec fn spec_size(&self, i: int, j: int) -> usize {
        self.sizes_lists@[i]@[j]
    }

    closed spec fn spec_bytes(&self, i: int, j: int) -> Seq<u8> {
        let bs = self.spec_subpools()[i].spec_block_size() as int;
        self.pool@[i]@.subrange(j * bs, j * bs + self.spec_size(i, j))
    }

    /// The data stored in the pool, keyed by subpool index and block index.
    pub closed spec fn spec_contents(&self) -> Map<(int, int), Seq<u8>> {
        Map::new(
            |k: (int, int)| self.spec_valid_slot(k.0, k.1) && self.spec_size(k.0, k.1) != STORE_FREE,
            |k: (int, int)| self.spec_bytes(k.0, k.1),
        )
    }

    /// The internal consistency of the pool.
    pub closed spec fn wf(&self) -> bool {
        let cfg = self.spec_subpools();
        &&& cfg.len() <= 65535
        &&& self.pool@.len() == cfg.len()
        &&& self.sizes_lists@.len() == cfg.len()
        &&& sorted_by_block_size(cfg)
        &&& forall|i: int| 0 <= i < cfg.len() ==> subpool_cfg_usable(#[trigger] cfg[i])
        &&& forall|i: int|
            0 <= i < cfg.len() ==> #[trigger] cfg[i].spec_num_blocks() * cfg[i].spec_block_size()
                <= usize::MAX
        &&& forall|i: int|
            0 <= i < cfg.len() ==> #[trigger] self.pool@[i]@.len() == cfg[i].spec_num_blocks()
                * cfg[i].spec_block_size()
        &&& forall|i: int|
            0 <= i < cfg.len() ==> #[trigger] self.sizes_lists@[i]@.len()
                == cfg[i].spec_num_blocks()
        &&& forall|i: int, j: int|
            #![trigger self.sizes_lists@[i]@[j]]
            self.spec_valid_slot(i, j) ==> self.sizes_lists@[i]@[j] == STORE_FREE
                || self.sizes_lists@[i]@[j] <= cfg[i].spec_block_size()
    }

    /// Every block of subpool `i` holds data.
    pub open spec fn spec_subpool_full(&self, i: int) -> bool {
        forall|j: int|
            0 <= j < self.spec_subpools()[i].spec_num_blocks()
                ==> #[trigger] self.spec_contents().contains_key((i, j))
    }

    /// Block `j` is the first free block of subpool `i`.
    pub open spec fn spec_first_free(&self, i: int, j: int) -> bool {
        &&& self.spec_valid_slot(i, j)
        &&& !self.spec_contents().contains_key((i, j))
        &&& forall|k: int| 0 <= k < j ==> #[trigger] self.spec_contents().contains_key((i, k))
    }

    /// Subpool `t` is the first subpool starting at `i0` which is not full.
    pub open spec fn spec_first_not_full_from(&self, i0: int, t: int) -> bool {
        &&& i0 <= t < self.spec_subpools().len()
        &&& !self.spec_subpool_full(t)
        &&& forall|k: int| i0 <= k < t ==> #[trigger] self.spec_subpool_full(k)
    }

    /// The block which is reserved for data of length `len`, or the error of the reservation.
    ///
    /// The data goes to the first free block of the first subpool whose blocks are large
    /// enough. If that subpool is full and spilling is enabled, the next larger subpools which are
    /// not full are used.
    pub open spec fn spec_reserve(&self, len: usize) -> Result<(int, int), PoolError> {
        let cfg = self.spec_subpools();
        if len > MAX_BLOCK_SIZE || spec_no_fit(cfg, len) {
            Err(PoolError::DataTooLarge(len))
        } else {
            let i0 = choose|i: int| spec_first_fit(cfg, len, i);
            if !self.spec_spill() {
                if self.spec_subpool_full(i0) {
                    Err(PoolError::StoreFull(i0 as u16))
                } else {
                    Ok((i0, choose|j: int| self.spec_first_free(i0, j)))
                }
            } else {
                if forall|k: int| i0 <= k < cfg.len() ==> #[trigger] self.spec_subpool_full(k) {
                    Err(PoolError::StoreFull((cfg.len() - 1) as u16))
                } else {
                    let t = choose|t: int| self.spec_first_not_full_from(i0, t);
                    Ok((t, choose|j: int| self.spec_first_free(t, j)))
                }
            }
        }
    }

    /// The result of the address check for a generic address: the length of the data stored at
    /// the address, or the error.
    pub open spec fn spec_addr_check(&self, addr: PoolAddr) -> Result<usize, PoolError> {
        match self.spec_validate(addr) {
            Err(e) => Err(e),
            Ok(_) => {
                let k = (spec_addr_pool_idx(addr), spec_addr_packet_idx(addr));
                if self.spec_contents().contains_key(k) {
                    Ok(self.spec_contents()[k].len() as usize)
                } else {
                    Err(
                        PoolError::DataDoesNotExist(
                            spec_encode_addr(spec_addr_pool_idx(addr), spec_addr_packet_idx(addr)),
                        ),
                    )
                }
            },
        }
    }

    /// The result of the validation of a generic address.
    pub open spec fn spec_validate(&self, addr: PoolAddr) -> Result<(), PoolError> {
        self.spec_validate_idx(spec_addr_pool_idx(addr), spec_addr_packet_idx(addr))
    }

    /// The result of the validation of a subpool and block index.
    pub open spec fn spec_validate_idx(&self, i: int, j: int) -> Result<(), PoolError> {
        if i >= self.spec_subpools().len() {
            Err(
                PoolError::InvalidStoreId(
                    StoreIdError::InvalidSubpool(i as u16),
                    Some(spec_encode_addr(i, j)),
                ),
            )
        } else if j >= self.spec_subpools()[i].spec_num_blocks() {
            Err(
                PoolError::InvalidStoreId(
                    StoreIdError::InvalidPacketIdx(j as u16),
                    Some(spec_encode_addr(i, j)),
                ),
            )
        } else {
            Ok(())
        }
    }

    proof fn lemma_wf_slot(&self, i: int, j: int)
        requires
            self.wf(),
            self.spec_valid_slot(i, j),
        ensures
            ({
                let bs = self.spec_subpools()[i].spec_block_size() as int;
                let nb = self.spec_subpools()[i].spec_num_blocks() as int;
                &&& 0 <= j * bs
                &&& j * bs + bs <= nb * bs
                &&& nb * bs == self.pool@[i]@.len()
                &&& nb * bs <= usize::MAX
                &&& self.sizes_lists@[i]@.len() == nb
                &&& (self.spec_size(i, j) == STORE_FREE || self.spec_size(i, j) <= bs)
            }),
    {
        let bs = self.spec_subpools()[i].spec_block_size() as int;
        let nb = self.spec_subpools()[i].spec_num_blocks() as int;
        lemma_block_bounds(j, nb, bs);
        assert(self.sizes_lists@[i]@[j] == STORE_FREE || self.sizes_lists@[i]@[j] <= bs);
    }
}


impl StaticMemoryPool {
    /// Create a new local pool from the [given configuration][StaticPoolConfig]. This function
    /// will sanitize the given configuration as well.
    pub fn new(cfg: StaticPoolConfig) -> (r: StaticMemoryPool)
        requires
            cfg.spec_cfg().len() <= 65535,
            forall|c: SubpoolConfig|
                #![trigger cfg.spec_cfg().contains(c)]
                cfg.spec_cfg().contains(c) && subpool_cfg_usable(c) ==> c.spec_num_blocks()
                    * c.spec_block_size() <= usize::MAX,
        ensures
            r.wf(),
            r.spec_spill() == cfg.spec_spill(),
            sorted_by_block_size(r.spec_subpools()),
            r.spec_subpools().to_multiset() == cfg.spec_cfg().filter(usable_pred()).to_multiset(),
            r.spec_contents() == Map::<(int, int), Seq<u8>>::empty(),
    {
        let mut cfg = cfg;
        let ghost old_cfg = cfg.spec_cfg();
        let subpools_num = cfg.sanitize();
        let mut pool: Vec<Vec<u8>> = Vec::with_capacity(subpools_num);
        let mut sizes_lists: Vec<Vec<usize>> = Vec::with_capacity(subpools_num);
        let mut i: usize = 0;
        proof {
            assert forall|m: int| 0 <= m < cfg.spec_cfg().len() implies subpool_cfg_usable(
                #[trigger] cfg.spec_cfg()[m],
            ) && old_cfg.contains(cfg.spec_cfg()[m]) by {}
        }
        while i < subpools_num
            invariant
                subpools_num == cfg.spec_cfg().len(),
                i <= subpools_num,
                pool@.len() == i,
                sizes_lists@.len() == i,
                forall|m: int|
                    0 <= m < cfg.spec_cfg().len() ==> subpool_cfg_usable(
                        #[trigger] cfg.spec_cfg()[m],
                    ) && old_cfg.contains(cfg.spec_cfg()[m]),
                forall|c: SubpoolConfig|
                    #![trigger old_cfg.contains(c)]
                    old_cfg.contains(c) && subpool_cfg_usable(c) ==> c.spec_num_blocks()
                        * c.spec_block_size() <= usize::MAX,
                forall|m: int|
                    0 <= m < i ==> #[trigger] pool@[m]@.len() == cfg.spec_cfg()[m].spec_num_blocks()
                        * cfg.spec_cfg()[m].spec_block_size(),
                forall|m: int|
                    0 <= m < i ==> #[trigger] sizes_lists@[m]@.len()
                        == cfg.spec_cfg()[m].spec_num_blocks(),
                forall|m: int, j: int|
                    #![trigger sizes_lists@[m]@[j]]
                    0 <= m < i && 0 <= j < sizes_lists@[m]@.len() ==> sizes_lists@[m]@[j]
                        == STORE_FREE,
            decreases subpools_num - i,
        {
            let subpool_cfg = cfg.cfg[i];
            assert(old_cfg.contains(subpool_cfg));
            let next_pool_len = subpool_cfg.num_blocks as usize * subpool_cfg.block_size;
            pool.push(vec![0u8; next_pool_len]);
            let next_sizes_list_len = subpool_cfg.num_blocks as usize;
            sizes_lists.push(vec![STORE_FREE; next_sizes_list_len]);
            i += 1;
        }
        let r = StaticMemoryPool { pool_cfg: cfg, pool, sizes_lists };
        assert(r.spec_subpools().len() <= 65535);
        assert(r.pool@.len() == r.spec_subpools().len());
        assert(sorted_by_block_size(r.spec_subpools()));
        assert forall|i: int, j: int| #![trigger r.sizes_lists@[i]@[j]]
            r.spec_valid_slot(i, j) implies r.sizes_lists@[i]@[j] == STORE_FREE by {}
        assert(r.wf());
        assert(r.spec_contents() =~= Map::<(int, int), Seq<u8>>::empty());
        r
    }

    /// The subpool configurations of the pool.
    pub fn subpool_cfg(&self) -> (r: &Vec<SubpoolConfig>)
        ensures
            r@ == self.spec_subpools(),
    {
        &self.pool_cfg.cfg
    }

    fn validate_addr(&self, addr: &StaticPoolAddr) -> (r: Result<(), PoolError>)
        requires
            self.wf(),
        ensures
            r == self.spec_validate(spec_encode_addr(addr.pool_idx as int, addr.packet_idx as int))
                || !(addr.pool_idx < 256 && addr.packet_idx < 256),
            r is Ok <==> self.spec_valid_slot(addr.pool_idx as int, addr.packet_idx as int),
            !(r is Ok) ==> r == self.spec_validate_idx(addr.pool_idx as int, addr.packet_idx as int),
    {
        let pool_idx = addr.pool_idx as usize;
        if pool_idx >= self.pool_cfg.cfg.len() {
            return Err(
                PoolError::InvalidStoreId(
                    StoreIdError::InvalidSubpool(addr.pool_idx),
                    Some(addr.to_pool_addr()),
                ),
            );
        }
        if addr.packet_idx >= self.pool_cfg.cfg[addr.pool_idx as usize].num_blocks {
            return Err(
                PoolError::InvalidStoreId(
                    StoreIdError::InvalidPacketIdx(addr.packet_idx),
                    Some(addr.to_pool_addr()),
                ),
            );
        }
        proof {
            lemma_addr_roundtrip_cond(addr.pool_idx, addr.packet_idx);
        }
        Ok(())
    }
}


impl StaticMemoryPool {
    /// All slots except `(t, j)` hold the same data in `new` as in `old`.
    proof fn lemma_contents_frame(before: &Self, after: &Self, t: int, j: int)
        requires
            before.wf(),
            after.pool_cfg == before.pool_cfg,
            after.pool@.len() == before.pool@.len(),
            after.sizes_lists@.len() == before.sizes_lists@.len(),
            before.spec_valid_slot(t, j),
            forall|m: int|
                0 <= m < before.pool@.len() && m != t ==> #[trigger] after.pool@[m] == before.pool@[m],
            forall|m: int|
                0 <= m < before.sizes_lists@.len() && m != t ==> #[trigger] after.sizes_lists@[m]
                    == before.sizes_lists@[m],
            after.pool@[t]@.len() == before.pool@[t]@.len(),
            after.sizes_lists@[t]@.len() == before.sizes_lists@[t]@.len(),
            forall|k: int|
                0 <= k < before.pool@[t]@.len() && !(j * before.spec_subpools()[t].spec_block_size()
                    <= k < j * before.spec_subpools()[t].spec_block_size()
                    + before.spec_subpools()[t].spec_block_size()) ==> #[trigger] after.pool@[t]@[k]
                    == before.pool@[t]@[k],
            forall|m: int|
                0 <= m < before.sizes_lists@[t]@.len() && m != j ==> #[trigger] after.sizes_lists@[t]@[m]
                    == before.sizes_lists@[t]@[m],
        ensures
            forall|key: (int, int)|
                #![trigger after.spec_contents().contains_key(key)]
                #![trigger before.spec_contents().contains_key(key)]
                key != (t, j) ==> after.spec_contents().contains_key(key)
                    == before.spec_contents().contains_key(key),
            forall|key: (int, int)|
                #![trigger after.spec_contents()[key]]
                key != (t, j) && before.spec_contents().contains_key(key)
                    ==> after.spec_contents()[key] == before.spec_contents()[key],
    {
        assert forall|key: (int, int)| key != (t, j) implies (after.spec_contents().contains_key(
            key,
        ) == before.spec_contents().contains_key(key)) && (before.spec_contents().contains_key(key)
            ==> after.spec_contents()[key] == before.spec_contents()[key]) by {
            let a = key.0;
            let b = key.1;
            assert(after.spec_subpools() == before.spec_subpools());
            if before.spec_valid_slot(a, b) {
                if a != t {
                    assert(after.sizes_lists@[a] == before.sizes_lists@[a]);
                    assert(after.pool@[a] == before.pool@[a]);
                    assert(after.spec_size(a, b) == before.spec_size(a, b));
                    assert(after.spec_bytes(a, b) == before.spec_bytes(a, b));
                } else {
                    assert(b != j);
                    assert(after.sizes_lists@[a]@[b] == before.sizes_lists@[a]@[b]);
                    assert(after.spec_size(a, b) == before.spec_size(a, b));
                    if before.spec_contents().contains_key(key) {
                        let bs = before.spec_subpools()[t].spec_block_size() as int;
                        before.lemma_wf_slot(a, b);
                        before.lemma_wf_slot(t, j);
                        if b < j {
                            lemma_blocks_disjoint(b, j, bs);
                        } else {
                            lemma_blocks_disjoint(j, b, bs);
                        }
                        assert(after.spec_bytes(a, b) =~= before.spec_bytes(a, b));
                    }
                }
                assert(after.spec_valid_slot(a, b));
            } else {
                assert(!after.spec_valid_slot(a, b));
            }
        }
    }

    /// Writes `data` to subpool `i` starting at `pos`.
    fn copy_into_subpool(&mut self, i: usize, pos: usize, data: &[u8])
        requires
            old(self).wf(),
            i < old(self).pool@.len(),
            pos + data@.len() <= old(self).pool@[i as int]@.len(),
        ensures
            final(self).pool_cfg == old(self).pool_cfg,
            final(self).sizes_lists == old(self).sizes_lists,
            final(self).pool@.len() == old(self).pool@.len(),
            forall|m: int|
                0 <= m < old(self).pool@.len() && m != i ==> #[trigger] final(self).pool@[m] == old(self).pool@[m],
            final(self).pool@[i as int]@.len() == old(self).pool@[i as int]@.len(),
            forall|k: int|
                0 <= k < old(self).pool@[i as int]@.len() ==> #[trigger] final(self).pool@[i as int]@[k]
                    == if pos <= k < pos + data@.len() {
                    data@[k - pos]
                } else {
                    old(self).pool@[i as int]@[k]
                },
    {
        let mut subpool: Vec<u8> = Vec::new();
        std::mem::swap(&mut subpool, &mut self.pool[i]);
        let ghost orig = subpool@;
        let sub_len = subpool.len();
        let mut k: usize = 0;
        while k < data.len()
            invariant
                sub_len == orig.len(),
                k <= data@.len(),
                subpool@.len() == orig.len(),
                pos + data@.len() <= orig.len(),
                forall|m: int|
                    0 <= m < orig.len() ==> #[trigger] subpool@[m] == if pos <= m < pos + k {
                        data@[m - pos]
                    } else {
                        orig[m]
                    },
            decreases data@.len() - k,
        {
            subpool.set(pos + k, data[k]);
            k += 1;
        }
        self.pool.set(i, subpool);
    }

    /// Sets `len` bytes of subpool `i` starting at `pos` to zero.
    fn zero_subpool_range(&mut self, i: usize, pos: usize, len: usize)
        requires
            old(self).wf(),
            i < old(self).pool@.len(),
            pos + len <= old(self).pool@[i as int]@.len(),
        ensures
            final(self).pool_cfg == old(self).pool_cfg,
            final(self).sizes_lists == old(self).sizes_lists,
            final(self).pool@.len() == old(self).pool@.len(),
            forall|m: int|
                0 <= m < old(self).pool@.len() && m != i ==> #[trigger] final(self).pool@[m] == old(self).pool@[m],
            final(self).pool@[i as int]@.len() == old(self).pool@[i as int]@.len(),
            forall|k: int|
                0 <= k < old(self).pool@[i as int]@.len() ==> #[trigger] final(self).pool@[i as int]@[k]
                    == if pos <= k < pos + len {
                    0u8
                } else {
                    old(self).pool@[i as int]@[k]
                },
    {
        let mut subpool: Vec<u8> = Vec::new();
        std::mem::swap(&mut subpool, &mut self.pool[i]);
        let ghost orig = subpool@;
        let sub_len = subpool.len();
        let mut k: usize = 0;
        while k < len
            invariant
                sub_len == orig.len(),
                k <= len,
                subpool@.len() == orig.len(),
                pos + len <= orig.len(),
                forall|m: int|
                    0 <= m < orig.len() ==> #[trigger] subpool@[m] == if pos <= m < pos + k {
                        0u8
                    } else {
                        orig[m]
                    },
            decreases len - k,
        {
            subpool.set(pos + k, 0);
            k += 1;
        }
        self.pool.set(i, subpool);
    }

    /// Sets the size entry of block `j` of subpool `i`.
    fn set_size(&mut self, i: usize, j: usize, size: usize)
        requires
            old(self).wf(),
            i < old(self).sizes_lists@.len(),
            j < old(self).sizes_lists@[i as int]@.len(),
        ensures
            final(self).pool_cfg == old(self).pool_cfg,
            final(self).pool == old(self).pool,
            final(self).sizes_lists@.len() == old(self).sizes_lists@.len(),
            forall|m: int|
                0 <= m < old(self).sizes_lists@.len() && m != i ==> #[trigger] final(self).sizes_lists@[m] == old(self).sizes_lists@[m],
            final(self).sizes_lists@[i as int]@ == old(self).sizes_lists@[i as int]@.update(
                j as int,
                size,
            ),
    {
        let mut sizes: Vec<usize> = Vec::new();
        std::mem::swap(&mut sizes, &mut self.sizes_lists[i]);
        sizes.set(j, size);
        self.sizes_lists.set(i, sizes);
    }

    fn addr_check(&self, addr: &StaticPoolAddr) -> (r: Result<usize, PoolError>)
        requires
            self.wf(),
        ensures
            !self.spec_valid_slot(addr.pool_idx as int, addr.packet_idx as int) ==> r is Err && r->Err_0
                == self.spec_validate_idx(addr.pool_idx as int, addr.packet_idx as int)->Err_0,
            self.spec_valid_slot(addr.pool_idx as int, addr.packet_idx as int)
                && !self.spec_contents().contains_key((addr.pool_idx as int, addr.packet_idx as int))
                ==> r == Err::<usize, PoolError>(
                PoolError::DataDoesNotExist(
                    spec_encode_addr(addr.pool_idx as int, addr.packet_idx as int),
                ),
            ),
            self.spec_contents().contains_key((addr.pool_idx as int, addr.packet_idx as int)) ==> r
                == Ok::<usize, PoolError>(
                self.spec_contents()[(addr.pool_idx as int, addr.packet_idx as int)].len() as usize,
            ),
            r is Ok ==> r->Ok_0 == self.sizes_lists@[addr.pool_idx as int]@[addr.packet_idx as int],
    {
        self.validate_addr(addr)?;
        let pool_idx = addr.pool_idx as usize;
        let curr_size = self.sizes_lists[pool_idx][addr.packet_idx as usize];
        if curr_size == STORE_FREE {
            return Err(PoolError::DataDoesNotExist(addr.to_pool_addr()));
        }
        proof {
            self.lemma_wf_slot(addr.pool_idx as int, addr.packet_idx as int);
        }
        Ok(curr_size)
    }

    fn raw_pos(&self, addr: &StaticPoolAddr) -> (r: Option<usize>)
        requires
            self.wf(),
            self.spec_valid_slot(addr.pool_idx as int, addr.packet_idx as int),
        ensures
            r == Some(
                (addr.packet_idx * self.spec_subpools()[addr.pool_idx as int].spec_block_size()) as usize,
            ),
    {
        proof {
            self.lemma_wf_slot(addr.pool_idx as int, addr.packet_idx as int);
        }
        let cfg = self.pool_cfg.cfg[addr.pool_idx as usize];
        Some(addr.packet_idx as usize * cfg.block_size)
    }

    fn find_subpool(&self, req_size: usize, start_at_subpool: u16) -> (r: Result<u16, PoolError>)
        requires
            self.wf(),
        ensures
            start_at_subpool == 0 ==> (r is Ok <==> !spec_no_fit(self.spec_subpools(), req_size)),
            start_at_subpool == 0 && r is Ok ==> spec_first_fit(
                self.spec_subpools(),
                req_size,
                r->Ok_0 as int,
            ),
            r is Err ==> r == Err::<u16, PoolError>(PoolError::DataTooLarge(req_size)),
    {
        let n = self.pool_cfg.cfg.len();
        let mut i: usize = start_at_subpool as usize;
        if i > n {
            return Err(PoolError::DataTooLarge(req_size));
        }
        while i < n
            invariant
                n == self.spec_subpools().len(),
                n <= 65535,
                start_at_subpool <= i <= n,
                forall|k: int|
                    start_at_subpool <= k < i ==> #[trigger] self.spec_subpools()[k].spec_block_size()
                        < req_size,
            decreases n - i,
        {
            if self.pool_cfg.cfg[i].block_size >= req_size {
                assert(self.spec_subpools()[i as int].spec_block_size() >= req_size);
                return Ok(i as u16);
            }
            i += 1;
        }
        Err(PoolError::DataTooLarge(req_size))
    }

    fn find_empty(&self, subpool: u16) -> (r: Result<u16, PoolError>)
        requires
            self.wf(),
        ensures
            subpool >= self.spec_subpools().len() ==> r == Err::<u16, PoolError>(
                PoolError::InvalidStoreId(StoreIdError::InvalidSubpool(subpool), None),
            ),
            subpool < self.spec_subpools().len() && self.spec_subpool_full(subpool as int) ==> r
                == Err::<u16, PoolError>(PoolError::StoreFull(subpool)),
            subpool < self.spec_subpools().len() && !self.spec_subpool_full(subpool as int) ==> r
                is Ok && self.spec_first_free(subpool as int, r->Ok_0 as int),
    {
        if (subpool as usize) < self.sizes_lists.len() {
            let size_list = &self.sizes_lists[subpool as usize];
            let mut i: usize = 0;
            while i < size_list.len()
                invariant
                    self.wf(),
                    subpool < self.spec_subpools().len(),
                    size_list@ == self.sizes_lists@[subpool as int]@,
                    size_list@.len() == self.spec_subpools()[subpool as int].spec_num_blocks(),
                    i <= size_list@.len(),
                    forall|k: int|
                        0 <= k < i ==> #[trigger] self.spec_contents().contains_key(
                            (subpool as int, k),
                        ),
                decreases size_list@.len() - i,
            {
                if size_list[i] == STORE_FREE {
                    assert(!self.spec_contents().contains_key((subpool as int, i as int)));
                    assert(!self.spec_subpool_full(subpool as int));
                    return Ok(i as u16);
                }
                assert(self.spec_contents().contains_key((subpool as int, i as int)));
                i += 1;
            }
        } else {
            return Err(PoolError::InvalidStoreId(StoreIdError::InvalidSubpool(subpool), None));
        }
        Err(PoolError::StoreFull(subpool))
    }
}


impl StaticMemoryPool {
    proof fn lemma_reserve_choices(&self, len: usize)
        requires
            self.wf(),
        ensures
            forall|i: int, i2: int|
                spec_first_fit(self.spec_subpools(), len, i) && spec_first_fit(
                    self.spec_subpools(),
                    len,
                    i2,
                ) ==> i == i2,
            forall|t: int, j: int, j2: int|
                self.spec_first_free(t, j) && self.spec_first_free(t, j2) ==> j == j2,
            forall|i0: int, t: int, t2: int|
                self.spec_first_not_full_from(i0, t) && self.spec_first_not_full_from(i0, t2) ==> t
                    == t2,
    {
        assert forall|i: int, i2: int|
            spec_first_fit(self.spec_subpools(), len, i) && spec_first_fit(
                self.spec_subpools(),
                len,
                i2,
            ) implies i == i2 by {
            if i < i2 {
                assert(self.spec_subpools()[i].spec_block_size() < len);
            } else if i2 < i {
                assert(self.spec_subpools()[i2].spec_block_size() < len);
            }
        }
        assert forall|t: int, j: int, j2: int|
            self.spec_first_free(t, j) && self.spec_first_free(t, j2) implies j == j2 by {
            if j < j2 {
                assert(self.spec_contents().contains_key((t, j)));
            } else if j2 < j {
                assert(self.spec_contents().contains_key((t, j2)));
            }
        }
        assert forall|i0: int, t: int, t2: int|
            self.spec_first_not_full_from(i0, t) && self.spec_first_not_full_from(i0, t2) implies t
            == t2 by {
            if t < t2 {
                assert(self.spec_subpool_full(t));
            } else if t2 < t {
                assert(self.spec_subpool_full(t2));
            }
        }
    }

    /// Reserves the block for data of length `len`. On success, the size of the data is written
    /// to the size list of the block.
    fn reserve(&mut self, data_len: usize) -> (r: Result<StaticPoolAddr, PoolError>)
        requires
            old(self).wf(),
            data_len <= MAX_BLOCK_SIZE,
        ensures
            final(self).wf(),
            final(self).pool_cfg == old(self).pool_cfg,
            final(self).pool == old(self).pool,
            match old(self).spec_reserve(data_len) {
                Err(e) => r == Err::<StaticPoolAddr, PoolError>(e) && final(self).sizes_lists
                    == old(self).sizes_lists,
                Ok((t, j)) => {
                    &&& r == Ok::<StaticPoolAddr, PoolError>(
                        StaticPoolAddr { pool_idx: t as u16, packet_idx: j as u16 },
                    )
                    &&& old(self).spec_first_free(t, j)
                    &&& old(self).spec_subpools()[t].spec_block_size() >= data_len
                    &&& final(self).sizes_lists@.len() == old(self).sizes_lists@.len()
                    &&& forall|m: int|
                        0 <= m < old(self).sizes_lists@.len() && m != t ==> #[trigger] final(self).sizes_lists@[m] == old(self).sizes_lists@[m]
                    &&& final(self).sizes_lists@[t]@ == old(self).sizes_lists@[t]@.update(
                        j,
                        data_len,
                    )
                },
            },
    {
        proof {
            self.lemma_reserve_choices(data_len);
        }
        let ghost cfg = self.spec_subpools();
        let ghost n = cfg.len() as int;
        let mut subpool_idx = self.find_subpool(data_len, 0)?;
        let ghost i0 = subpool_idx as int;
        assert(i0 == choose|i: int| spec_first_fit(cfg, data_len, i));
        if self.pool_cfg.spill_to_higher_subpools {
            while self.find_empty(subpool_idx).is_err()
                invariant
                    self.wf(),
                    cfg == self.spec_subpools(),
                    n == cfg.len(),
                    spec_first_fit(cfg, data_len, i0),
                    i0 <= subpool_idx < n,
                    self.spec_spill(),
                    forall|k: int| i0 <= k < subpool_idx ==> #[trigger] self.spec_subpool_full(k),
                    forall|i0: int, t: int, t2: int|
                        self.spec_first_not_full_from(i0, t) && self.spec_first_not_full_from(
                            i0,
                            t2,
                        ) ==> t == t2,
                    self.sizes_lists@.len() == n,
                decreases n - subpool_idx,
            {
                assert(self.spec_subpool_full(subpool_idx as int));
                if (subpool_idx + 1) as usize == self.sizes_lists.len() {
                    assert(forall|k: int| i0 <= k < n ==> #[trigger] self.spec_subpool_full(k));
                    return Err(PoolError::StoreFull(subpool_idx));
                }
                subpool_idx += 1;
            }
            assert(self.spec_first_not_full_from(i0, subpool_idx as int));
            assert(!(forall|k: int| i0 <= k < n ==> #[trigger] self.spec_subpool_full(k)));
        }
        let slot = self.find_empty(subpool_idx)?;
        proof {
            assert(cfg[i0].spec_block_size() <= cfg[subpool_idx as int].spec_block_size());
            self.lemma_wf_slot(subpool_idx as int, slot as int);
        }
        let ghost before = *self;
        self.set_size(subpool_idx as usize, slot as usize, data_len);
        proof {
            assert forall|i: int, j: int|
                #![trigger self.sizes_lists@[i]@[j]]
                self.spec_valid_slot(i, j) implies self.sizes_lists@[i]@[j] == STORE_FREE
                    || self.sizes_lists@[i]@[j] <= cfg[i].spec_block_size() by {
                if i != subpool_idx as int || j != slot as int {
                    assert(before.sizes_lists@[i]@[j] == STORE_FREE || before.sizes_lists@[i]@[j]
                        <= cfg[i].spec_block_size());
                }
            }
        }
        Ok(StaticPoolAddr { pool_idx: subpool_idx, packet_idx: slot })
    }

    fn write(&mut self, addr: &StaticPoolAddr, data: &[u8]) -> (r: Result<(), PoolError>)
        requires
            old(self).wf(),
            old(self).spec_valid_slot(addr.pool_idx as int, addr.packet_idx as int),
            data@.len() <= old(self).spec_subpools()[addr.pool_idx as int].spec_block_size(),
        ensures
            r is Ok,
            final(self).wf(),
            final(self).pool_cfg == old(self).pool_cfg,
            final(self).sizes_lists == old(self).sizes_lists,
            final(self).pool@.len() == old(self).pool@.len(),
            forall|m: int|
                0 <= m < old(self).pool@.len() && m != addr.pool_idx ==> #[trigger] final(self).pool@[m]
                    == old(self).pool@[m],
            final(self).pool@[addr.pool_idx as int]@.len() == old(self).pool@[addr.pool_idx as int]@.len(),
            forall|k: int|
                0 <= k < old(self).pool@[addr.pool_idx as int]@.len() ==> #[trigger] final(self).pool@[addr.pool_idx as int]@[k]
                    == if addr.packet_idx * old(self).spec_subpools()[addr.pool_idx as int].spec_block_size() <= k
                    < addr.packet_idx * old(self).spec_subpools()[addr.pool_idx as int].spec_block_size() + data@.len() {
                    data@[k - addr.packet_idx * old(self).spec_subpools()[addr.pool_idx as int].spec_block_size()]
                } else {
                    old(self).pool@[addr.pool_idx as int]@[k]
                },
    {
        proof {
            self.lemma_wf_slot(addr.pool_idx as int, addr.packet_idx as int);
        }
        let packet_pos = match self.raw_pos(addr) {
            Some(p) => p,
            None => {
                return Err(PoolError::InternalError(0));
            },
        };
        if addr.pool_idx as usize >= self.pool.len() {
            return Err(PoolError::InternalError(1));
        }
        self.copy_into_subpool(addr.pool_idx as usize, packet_pos, data);
        Ok(())
    }
}


/// The key in the pool contents which a generic address refers to.
pub open spec fn spec_addr_key(addr: PoolAddr) -> (int, int) {
    (spec_addr_pool_idx(addr), spec_addr_packet_idx(addr))
}

impl StaticMemoryPool {
    /// After data was placed into the block `(t, j)` which was previously free, the pool holds
    /// the new data at `(t, j)` and everything else unchanged.
    proof fn lemma_after_store(before: &Self, after: &Self, t: int, j: int, data: Seq<u8>)
        requires
            before.wf(),
            after.wf(),
            after.pool_cfg == before.pool_cfg,
            after.pool@.len() == before.pool@.len(),
            after.sizes_lists@.len() == before.sizes_lists@.len(),
            before.spec_valid_slot(t, j),
            forall|m: int|
                0 <= m < before.pool@.len() && m != t ==> #[trigger] after.pool@[m] == before.pool@[m],
            forall|m: int|
                0 <= m < before.sizes_lists@.len() && m != t ==> #[trigger] after.sizes_lists@[m]
                    == before.sizes_lists@[m],
            after.pool@[t]@.len() == before.pool@[t]@.len(),
            after.sizes_lists@[t]@ == before.sizes_lists@[t]@.update(j, data.len() as usize),
            data.len() <= before.spec_subpools()[t].spec_block_size(),
            forall|k: int|
                0 <= k < before.pool@[t]@.len() ==> #[trigger] after.pool@[t]@[k] == if j
                    * before.spec_subpools()[t].spec_block_size() <= k < j
                    * before.spec_subpools()[t].spec_block_size() + data.len() {
                    data[k - j * before.spec_subpools()[t].spec_block_size()]
                } else {
                    before.pool@[t]@[k]
                },
        ensures
            after.spec_contents() == before.spec_contents().insert((t, j), data),
    {
        let bs = before.spec_subpools()[t].spec_block_size() as int;
        before.lemma_wf_slot(t, j);
        Self::lemma_contents_frame(before, after, t, j);
        assert(after.spec_size(t, j) == data.len());
        assert(after.spec_contents().contains_key((t, j)));
        assert(after.spec_bytes(t, j) =~= data);
        assert(after.spec_contents() =~= before.spec_contents().insert((t, j), data));
    }

    /// Add new data to the pool. The data is copied to the first free block of the best fitting
    /// subpool, see [Self::spec_reserve]. Yields the [PoolAddr] of the block.
    pub fn add(&mut self, data: &[u8]) -> (r: Result<PoolAddr, PoolError>)
        requires
            old(self).wf(),
        ensures
            final(self).wf(),
            final(self).spec_subpools() == old(self).spec_subpools(),
            final(self).spec_spill() == old(self).spec_spill(),
            match old(self).spec_reserve(data@.len() as usize) {
                Err(e) => r == Err::<PoolAddr, PoolError>(e) && final(self).spec_contents() == old(self).spec_contents(),
                Ok((t, j)) => r == Ok::<PoolAddr, PoolError>(spec_encode_addr(t, j)) && final(self).spec_contents() == old(self).spec_contents().insert((t, j), data@),
            },
    {
        let data_len = data.len();
        if data_len > MAX_BLOCK_SIZE {
            return Err(PoolError::DataTooLarge(data_len));
        }
        let ghost before = *self;
        let addr = self.reserve(data_len)?;
        let ghost mid = *self;
        proof {
            mid.lemma_wf_slot(addr.pool_idx as int, addr.packet_idx as int);
        }
        let _ = self.write(&addr, data);
        proof {
            Self::lemma_after_store(
                &before,
                self,
                addr.pool_idx as int,
                addr.packet_idx as int,
                data@,
            );
        }
        Ok(addr.to_pool_addr())
    }
}


impl StaticMemoryPool {
    fn copy_from_subpool(&self, i: usize, pos: usize, len: usize) -> (r: Vec<u8>)
        requires
            self.wf(),
            i < self.pool@.len(),
            pos + len <= self.pool@[i as int]@.len(),
        ensures
            r@ == self.pool@[i as int]@.subrange(pos as int, pos + len),
    {
        let mut out: Vec<u8> = Vec::with_capacity(len);
        let mut k: usize = 0;
        let sub_len = self.pool[i].len();
        while k < len
            invariant
                k <= len,
                sub_len == self.pool@[i as int]@.len(),
                pos + len <= self.pool@[i as int]@.len(),
                i < self.pool@.len(),
                out@ == self.pool@[i as int]@.subrange(pos as int, pos + k),
            decreases len - k,
        {
            out.push(self.pool[i][pos + k]);
            k += 1;
            assert(out@ =~= self.pool@[i as int]@.subrange(pos as int, pos + k));
        }
        out
    }

    /// The provider reserves a free block for data of length `len` like [Self::add], then
    /// passes the first `len` bytes of that block to the `writer`, which can write the data.
    /// Yields the [PoolAddr] of the block.
    pub fn free_element<W: FnMut(&mut [u8])>(&mut self, len: usize, writer: W) -> (r: Result<
        PoolAddr,
        PoolError,
    >)
        requires
            old(self).wf(),
            forall|s: &mut [u8]| writer.requires((s,)),
        ensures
            final(self).wf(),
            final(self).spec_subpools() == old(self).spec_subpools(),
            final(self).spec_spill() == old(self).spec_spill(),
            match old(self).spec_reserve(len) {
                Err(e) => r == Err::<PoolAddr, PoolError>(e) && final(self).spec_contents() == old(self).spec_contents(),
                Ok((t, j)) => {
                    &&& r == Ok::<PoolAddr, PoolError>(spec_encode_addr(t, j))
                    &&& !old(self).spec_contents().contains_key((t, j))
                    &&& final(self).spec_contents().dom() == old(self).spec_contents().dom().insert((t, j))
                    &&& final(self).spec_contents()[(t, j)].len() == len
                    &&& forall|k: (int, int)|
                        #[trigger] old(self).spec_contents().contains_key(k) ==> final(self).spec_contents()[k]
                            == old(self).spec_contents()[k]
                    &&& exists|s: &mut [u8]| #[trigger] call_ensures(writer, (s,), ()) && s@.len() == len
                        && (final(s)@.len() == len ==> final(self).spec_contents()[(t, j)] == final(s)@)
                },
            },
    {
        if len > MAX_BLOCK_SIZE {
            return Err(PoolError::DataTooLarge(len));
        }
        let ghost before = *self;
        let addr = self.reserve(len)?;
        proof {
            self.lemma_wf_slot(addr.pool_idx as int, addr.packet_idx as int);
        }
        let raw_pos = match self.raw_pos(&addr) {
            Some(p) => p,
            None => 0,
        };
        let mut block = self.copy_from_subpool(addr.pool_idx as usize, raw_pos, len);
        broadcast use vstd::function::group_function_axioms;
        let mut writer = writer;
        let ghost w0 = writer;
        let s = block.as_mut_slice();
        let ghost sref = s;
        writer(s);
        let ghost updated = block@;
        assert(final(sref)@ == updated);
        if block.len() == len {
            let _ = self.write(&addr, block.as_slice());
            proof {
                Self::lemma_after_store(
                    &before,
                    self,
                    addr.pool_idx as int,
                    addr.packet_idx as int,
                    updated,
                );
            }
        } else {
            let ghost unchanged = self.pool@[addr.pool_idx as int]@.subrange(
                raw_pos as int,
                raw_pos + len,
            );
            proof {
                Self::lemma_after_store(
                    &before,
                    self,
                    addr.pool_idx as int,
                    addr.packet_idx as int,
                    unchanged,
                );
            }
        }
        Ok(addr.to_pool_addr())
    }

    /// Modify data added previously using a given [PoolAddr]. If data exists at the address,
    /// the stored bytes are passed to the `updater` which can modify them.
    pub fn modify<U: FnMut(&mut [u8])>(&mut self, addr: &PoolAddr, updater: U) -> (r: Result<
        (),
        PoolError,
    >)
        requires
            old(self).wf(),
            forall|s: &mut [u8]| updater.requires((s,)),
        ensures
            final(self).wf(),
            final(self).spec_subpools() == old(self).spec_subpools(),
            final(self).spec_spill() == old(self).spec_spill(),
            match old(self).spec_addr_check(*addr) {
                Err(e) => r == Err::<(), PoolError>(e) && final(self).spec_contents() == old(self).spec_contents(),
                Ok(n) => {
                    &&& r == Ok::<(), PoolError>(())
                    &&& final(self).spec_contents().dom() == old(self).spec_contents().dom()
                    &&& final(self).spec_contents()[spec_addr_key(*addr)].len() == n
                    &&& forall|k: (int, int)|
                        #[trigger] old(self).spec_contents().contains_key(k) && k != spec_addr_key(*addr)
                            ==> final(self).spec_contents()[k] == old(self).spec_contents()[k]
                },
            },
    {
        let addr = StaticPoolAddr::from_pool_addr(*addr);
        proof {
            lemma_addr_roundtrip(addr.pool_idx, addr.packet_idx);
        }
        let curr_size = self.addr_check(&addr)?;
        let ghost before = *self;
        proof {
            self.lemma_wf_slot(addr.pool_idx as int, addr.packet_idx as int);
        }
        let raw_pos = match self.raw_pos(&addr) {
            Some(p) => p,
            None => 0,
        };
        let mut block = self.copy_from_subpool(addr.pool_idx as usize, raw_pos, curr_size);
        let mut updater = updater;
        updater(block.as_mut_slice());
        let ghost updated = block@;
        let ghost k = (addr.pool_idx as int, addr.packet_idx as int);
        assert(before.sizes_lists@[k.0]@.update(k.1, curr_size) =~= before.sizes_lists@[k.0]@);
        if block.len() == curr_size {
            let _ = self.write(&addr, block.as_slice());
            proof {
                Self::lemma_after_store(&before, self, k.0, k.1, updated);
                assert(before.spec_contents().insert(k, updated).dom() =~= before.spec_contents().dom());
            }
        } else {
            proof {
                let unchanged = before.spec_contents()[k];
                assert(self.pool@[k.0]@ =~= before.pool@[k.0]@);
                Self::lemma_after_store(&before, self, k.0, k.1, unchanged);
                assert(before.spec_contents().insert(k, unchanged) =~= before.spec_contents());
            }
        }
        Ok(())
    }

    /// Copies the data stored at the given address to the start of `buf`. Returns the length of
    /// the data.
    pub fn read(&self, addr: &PoolAddr, buf: &mut [u8]) -> (r: Result<usize, PoolError>)
        requires
            self.wf(),
        ensures
            final(buf)@.len() == old(buf)@.len(),
            match self.spec_addr_check(*addr) {
                Err(e) => r == Err::<usize, PoolError>(e) && final(buf)@ == old(buf)@,
                Ok(n) => if old(buf)@.len() < n {
                    &&& r == Err::<usize, PoolError>(
                        PoolError::ByteConversionError(
                            ByteConversionError::ToSliceTooSmall {
                                found: old(buf)@.len() as usize,
                                expected: n,
                            },
                        ),
                    )
                    &&& final(buf)@ == old(buf)@
                } else {
                    &&& r == Ok::<usize, PoolError>(n)
                    &&& final(buf)@ == self.spec_contents()[spec_addr_key(*addr)] + old(buf)@.skip(
                        n as int,
                    )
                },
            },
    {
        let addr = StaticPoolAddr::from_pool_addr(*addr);
        proof {
            lemma_addr_roundtrip(addr.pool_idx, addr.packet_idx);
        }
        let curr_size = self.addr_check(&addr)?;
        if buf.len() < curr_size {
            return Err(
                PoolError::ByteConversionError(
                    ByteConversionError::ToSliceTooSmall { found: buf.len(), expected: curr_size },
                ),
            );
        }
        proof {
            self.lemma_wf_slot(addr.pool_idx as int, addr.packet_idx as int);
        }
        let raw_pos = match self.raw_pos(&addr) {
            Some(p) => p,
            None => 0,
        };
        let i = addr.pool_idx as usize;
        let ghost data = self.spec_contents()[(addr.pool_idx as int, addr.packet_idx as int)];
        let ghost orig = buf@;
        assert(data == self.pool@[i as int]@.subrange(raw_pos as int, raw_pos + curr_size));
        let mut k: usize = 0;
        let sub_len = self.pool[i].len();
        while k < curr_size
            invariant
                sub_len == self.pool@[i as int]@.len(),
                k <= curr_size,
                curr_size <= orig.len(),
                buf@.len() == orig.len(),
                i < self.pool@.len(),
                raw_pos + curr_size <= self.pool@[i as int]@.len(),
                data == self.pool@[i as int]@.subrange(raw_pos as int, raw_pos + curr_size),
                forall|m: int|
                    0 <= m < orig.len() ==> #[trigger] buf@[m] == if m < k {
                        data[m]
                    } else {
                        orig[m]
                    },
            decreases curr_size - k,
        {
            buf[k] = self.pool[i][raw_pos + k];
            k += 1;
        }
        assert(buf@ =~= data + orig.skip(curr_size as int));
        Ok(curr_size)
    }

    /// Delete data inside the pool given a [PoolAddr]. The memory block is zeroed.
    pub fn delete(&mut self, addr: PoolAddr) -> (r: Result<(), PoolError>)
        requires
            old(self).wf(),
        ensures
            final(self).wf(),
            final(self).spec_subpools() == old(self).spec_subpools(),
            final(self).spec_spill() == old(self).spec_spill(),
            match old(self).spec_addr_check(addr) {
                Err(e) => r == Err::<(), PoolError>(e) && final(self).spec_contents() == old(self).spec_contents(),
                Ok(_) => r == Ok::<(), PoolError>(()) && final(self).spec_contents() == old(self).spec_contents().remove(spec_addr_key(addr)),
            },
    {
        let addr = StaticPoolAddr::from_pool_addr(addr);
        proof {
            lemma_addr_roundtrip(addr.pool_idx, addr.packet_idx);
        }
        self.addr_check(&addr)?;
        let ghost before = *self;
        proof {
            self.lemma_wf_slot(addr.pool_idx as int, addr.packet_idx as int);
        }
        let block_size = self.pool_cfg.cfg[addr.pool_idx as usize].block_size;
        let raw_pos = match self.raw_pos(&addr) {
            Some(p) => p,
            None => 0,
        };
        self.set_size(addr.pool_idx as usize, addr.packet_idx as usize, STORE_FREE);
        self.zero_subpool_range(addr.pool_idx as usize, raw_pos, block_size);
        proof {
            let t = addr.pool_idx as int;
            let j = addr.packet_idx as int;
            assert forall|i: int, jj: int|
                #![trigger self.sizes_lists@[i]@[jj]]
                self.spec_valid_slot(i, jj) implies self.sizes_lists@[i]@[jj] == STORE_FREE
                    || self.sizes_lists@[i]@[jj] <= self.spec_subpools()[i].spec_block_size() by {
                if i != t || jj != j {
                    assert(before.sizes_lists@[i]@[jj] == STORE_FREE || before.sizes_lists@[i]@[jj]
                        <= before.spec_subpools()[i].spec_block_size());
                }
            }
            Self::lemma_contents_frame(&before, self, t, j);
            assert(self.spec_contents() =~= before.spec_contents().remove((t, j)));
        }
        Ok(())
    }

    /// Whether data is stored at the given address.
    pub fn has_element_at(&self, addr: &PoolAddr) -> (r: Result<bool, PoolError>)
        requires
            self.wf(),
        ensures
            match self.spec_validate(*addr) {
                Err(e) => r == Err::<bool, PoolError>(e),
                Ok(_) => r == Ok::<bool, PoolError>(
                    self.spec_contents().contains_key(spec_addr_key(*addr)),
                ),
            },
    {
        let addr = StaticPoolAddr::from_pool_addr(*addr);
        proof {
            lemma_addr_roundtrip(addr.pool_idx, addr.packet_idx);
        }
        self.validate_addr(&addr)?;
        let curr_size = self.sizes_lists[addr.pool_idx as usize][addr.packet_idx as usize];
        if curr_size == STORE_FREE {
            return Ok(false);
        }
        Ok(true)
    }

    /// Retrieve the length of the data at the given store address. The length is 0 if no data
    /// is stored at the address.
    pub fn len_of_data(&self, addr: &PoolAddr) -> (r: Result<usize, PoolError>)
        requires
            self.wf(),
        ensures
            match self.spec_validate(*addr) {
                Err(e) => r == Err::<usize, PoolError>(e),
                Ok(_) => r == Ok::<usize, PoolError>(
                    if self.spec_contents().contains_key(spec_addr_key(*addr)) {
                        self.spec_contents()[spec_addr_key(*addr)].len() as usize
                    } else {
                        0
                    },
                ),
            },
    {
        let addr = StaticPoolAddr::from_pool_addr(*addr);
        proof {
            lemma_addr_roundtrip(addr.pool_idx, addr.packet_idx);
        }
        self.validate_addr(&addr)?;
        let size = self.sizes_lists[addr.pool_idx as usize][addr.packet_idx as usize];
        proof {
            self.lemma_wf_slot(addr.pool_idx as int, addr.packet_idx as int);
        }
        if size == STORE_FREE {
            Ok(0)
        } else {
            Ok(size)
        }
    }

    /// Read the data stored at the given address into a new vector.
    pub fn read_as_vec(&self, addr: &PoolAddr) -> (r: Result<Vec<u8>, PoolError>)
        requires
            self.wf(),
        ensures
            match self.spec_addr_check(*addr) {
                Err(e) => r == Err::<Vec<u8>, PoolError>(e),
                Ok(_) => r is Ok && r->Ok_0@ == self.spec_contents()[spec_addr_key(*addr)],
            },
    {
        let len = self.len_of_data(addr)?;
        let mut vec: Vec<u8> = vec![0u8; len];
        self.read(addr, vec.as_mut_slice())?;
        Ok(vec)
    }
}


proof fn lemma_exists_first(p: spec_fn(int) -> bool, lo: int, hi: int, w: int)
    requires
        lo <= w < hi,
        p(w),
    ensures
        exists|m: int|
            #![trigger p(m)]
            lo <= m < hi && p(m) && forall|k: int| lo <= k < m ==> !(#[trigger] p(k)),
    decreases w - lo,
{
    if exists|k: int| lo <= k < w && #[trigger] p(k) {
        let k = choose|k: int| lo <= k < w && #[trigger] p(k);
        lemma_exists_first(p, lo, hi, k);
    } else {
        assert(forall|k: int| lo <= k < w ==> !(#[trigger] p(k)));
    }
}

impl StaticMemoryPool {
    proof fn lemma_choices_exist(&self, len: usize, i0: int)
        requires
            self.wf(),
        ensures
            !spec_no_fit(self.spec_subpools(), len) ==> exists|i: int|
                spec_first_fit(self.spec_subpools(), len, i),
            forall|i: int|
                0 <= i < self.spec_subpools().len() && !#[trigger] self.spec_subpool_full(i)
                    ==> exists|j: int| self.spec_first_free(i, j),
            0 <= i0 && !(forall|k: int|
                i0 <= k < self.spec_subpools().len() ==> #[trigger] self.spec_subpool_full(k))
                ==> exists|t: int| self.spec_first_not_full_from(i0, t),
    {
        let cfg = self.spec_subpools();
        if !spec_no_fit(cfg, len) {
            let w = choose|k: int| 0 <= k < cfg.len() && !(#[trigger] cfg[k].spec_block_size() < len);
            let p = |k: int| cfg[k].spec_block_size() >= len;
            lemma_exists_first(p, 0, cfg.len() as int, w);
            let m = choose|m: int|
                #![trigger p(m)]
                0 <= m < cfg.len() && p(m) && forall|k: int| 0 <= k < m ==> !(#[trigger] p(k));
            assert forall|k: int| 0 <= k < m implies #[trigger] cfg[k].spec_block_size() < len by {
                assert(!p(k));
            }
            assert(spec_first_fit(cfg, len, m));
        }
        assert forall|i: int|
            0 <= i < self.spec_subpools().len() && !#[trigger] self.spec_subpool_full(i)
                implies exists|j: int| self.spec_first_free(i, j) by {
            let nb = cfg[i].spec_num_blocks() as int;
            let w = choose|j: int| 0 <= j < nb && !#[trigger] self.spec_contents().contains_key((i, j));
            let p = |j: int| !self.spec_contents().contains_key((i, j));
            lemma_exists_first(p, 0, nb, w);
            let m = choose|m: int|
                #![trigger p(m)]
                0 <= m < nb && p(m) && forall|k: int| 0 <= k < m ==> !(#[trigger] p(k));
            assert forall|k: int| 0 <= k < m implies #[trigger] self.spec_contents().contains_key((i, k)) by {
                assert(!p(k));
            }
            assert(self.spec_first_free(i, m));
        }
        if 0 <= i0 && !(forall|k: int|
            i0 <= k < self.spec_subpools().len() ==> #[trigger] self.spec_subpool_full(k)) {
            let n = cfg.len() as int;
            let w = choose|k: int| i0 <= k < n && !#[trigger] self.spec_subpool_full(k);
            let p = |k: int| !self.spec_subpool_full(k);
            lemma_exists_first(p, i0, n, w);
            let m = choose|m: int|
                #![trigger p(m)]
                i0 <= m < n && p(m) && forall|k: int| i0 <= k < m ==> !(#[trigger] p(k));
            assert forall|k: int| i0 <= k < m implies #[trigger] self.spec_subpool_full(k) by {
                assert(!p(k));
            }
            assert(self.spec_first_not_full_from(i0, m));
        }
    }
}

/// The block chosen for new data is a free block of the pool whose size can hold the data.
pub proof fn law_reserve_picks_free_fitting_block(pool: &StaticMemoryPool, len: usize)
    requires
        pool.wf(),
        pool.spec_reserve(len) is Ok,
    ensures
        ({
            let (t, j) = pool.spec_reserve(len)->Ok_0;
            &&& pool.spec_valid_slot(t, j)
            &&& !pool.spec_contents().contains_key((t, j))
            &&& pool.spec_subpools()[t].spec_block_size() >= len
        }),
{
    let cfg = pool.spec_subpools();
    pool.lemma_choices_exist(len, 0);
    let i0 = choose|i: int| spec_first_fit(cfg, len, i);
    assert(spec_first_fit(cfg, len, i0));
    pool.lemma_choices_exist(len, i0);
    let (t, j) = pool.spec_reserve(len)->Ok_0;
    if pool.spec_spill() {
        let t2 = choose|t: int| pool.spec_first_not_full_from(i0, t);
        assert(pool.spec_first_not_full_from(i0, t2));
        assert(!pool.spec_subpool_full(t2));
        let j2 = choose|j: int| pool.spec_first_free(t2, j);
        assert(pool.spec_first_free(t2, j2));
        assert(cfg[i0].spec_block_size() <= cfg[t2].spec_block_size());
    } else {
        assert(!pool.spec_subpool_full(i0));
        let j2 = choose|j: int| pool.spec_first_free(i0, j);
        assert(pool.spec_first_free(i0, j2));
    }
}

/// Data which was added to the pool can be read back from the returned address, as long as
/// the subpool and block indices of the address are below 256.
pub proof fn law_read_after_add(
    before: &StaticMemoryPool,
    after: &StaticMemoryPool,
    data: Seq<u8>,
    addr: PoolAddr,
)
    requires
        before.wf(),
        data.len() <= MAX_BLOCK_SIZE,
        before.spec_reserve(data.len() as usize) is Ok,
        addr == spec_encode_addr(
            before.spec_reserve(data.len() as usize)->Ok_0.0,
            before.spec_reserve(data.len() as usize)->Ok_0.1,
        ),
        after.spec_subpools() == before.spec_subpools(),
        after.spec_contents() == before.spec_contents().insert(
            before.spec_reserve(data.len() as usize)->Ok_0,
            data,
        ),
        before.spec_reserve(data.len() as usize)->Ok_0.0 < 256,
        before.spec_reserve(data.len() as usize)->Ok_0.1 < 256,
    ensures
        after.spec_addr_check(addr) == Ok::<usize, PoolError>(data.len() as usize),
        after.spec_contents()[spec_addr_key(addr)] == data,
{
    let (t, j) = before.spec_reserve(data.len() as usize)->Ok_0;
    law_reserve_picks_free_fitting_block(before, data.len() as usize);
    lemma_addr_roundtrip(t as u16, j as u16);
}

/// Deleting data which was just added restores the contents of the pool.
pub proof fn law_delete_after_add(
    before: &StaticMemoryPool,
    added: &StaticMemoryPool,
    deleted: &StaticMemoryPool,
    key: (int, int),
    data: Seq<u8>,
)
    requires
        !before.spec_contents().contains_key(key),
        added.spec_contents() == before.spec_contents().insert(key, data),
        deleted.spec_contents() == added.spec_contents().remove(key),
    ensures
        deleted.spec_contents() == before.spec_contents(),
{
    assert(deleted.spec_contents() =~= before.spec_contents());
}

/// Without spilling, a full best fitting subpool makes the reservation fail with the index of
/// that subpool, even if larger subpools have free blocks.
pub proof fn law_no_spill_reports_best_fit(pool: &StaticMemoryPool, len: usize, i: int)
    requires
        pool.wf(),
        !pool.spec_spill(),
        len <= MAX_BLOCK_SIZE,
        spec_first_fit(pool.spec_subpools(), len, i),
        pool.spec_subpool_full(i),
    ensures
        pool.spec_reserve(len) == Err::<(int, int), PoolError>(PoolError::StoreFull(i as u16)),
{
    pool.lemma_reserve_choices(len);
    let i0 = choose|x: int| spec_first_fit(pool.spec_subpools(), len, x);
    assert(spec_first_fit(pool.spec_subpools(), len, i0));
}

} // verus!
