//! Weights of the file bank's calls, from benchmarks: a base time, a time
//! per item where the call takes a count, and the database reads and writes.
use vstd::prelude::*;

verus! {

/// One picosecond of reference time per unit; a nanosecond is a thousand.
pub const WEIGHT_REF_TIME_PER_NANOS: u64 = 1_000;

/// The time that a call takes and the size of the proof that it needs.
#[derive(Clone, Copy, PartialEq, Eq, Structural, Debug)]
pub struct Weight {
    pub ref_time: u64,
    pub proof_size: u64,
}

/// The weights of one database read and of one write.
#[derive(Clone, Copy, PartialEq, Eq, Structural, Debug)]
pub struct RuntimeDbWeight {
    pub read: u64,
    pub write: u64,
}

/// `x`, or `u64::MAX` where it is larger.
pub open spec fn sat(x: int) -> u64 {
    if x > u64::MAX {
        u64::MAX
    } else if x < 0 {
        0
    } else {
        x as u64
    }
}

/// Multiplies, saturating at `u64::MAX`.
pub fn saturating_mul(a: u64, b: u64) -> (r: u64)
    ensures
        r == sat(a * b),
{
    match a.checked_mul(b) {
        Some(x) => x,
        None => u64::MAX,
    }
}

impl Weight {
    pub fn from_parts(ref_time: u64, proof_size: u64) -> (w: Weight)
        ensures
            w == (Weight { ref_time, proof_size }),
    {
        Weight { ref_time, proof_size }
    }

    /// Adds each part, saturating.
    pub fn saturating_add(self, other: Weight) -> (w: Weight)
        ensures
            w == (Weight {
                ref_time: sat(self.ref_time + other.ref_time),
                proof_size: sat(self.proof_size + other.proof_size),
            }),
    {
        Weight {
            ref_time: self.ref_time.saturating_add(other.ref_time),
            proof_size: self.proof_size.saturating_add(other.proof_size),
        }
    }

    /// Multiplies each part by `n`, saturating.
    pub fn saturating_mul(self, n: u64) -> (w: Weight)
        ensures
            w == (Weight { ref_time: sat(self.ref_time * n), proof_size: sat(self.proof_size * n) }),
    {
        Weight { ref_time: saturating_mul(self.ref_time, n), proof_size: saturating_mul(self.proof_size, n) }
    }
}

impl RuntimeDbWeight {
    /// The weight of `r` reads.
    pub fn reads(self, r: u64) -> (w: Weight)
        ensures
            w == (Weight { ref_time: sat(self.read * r), proof_size: 0 }),
    {
        Weight::from_parts(saturating_mul(self.read, r), 0)
    }

    /// The weight of `n` writes.
    pub fn writes(self, n: u64) -> (w: Weight)
        ensures
            w == (Weight { ref_time: sat(self.write * n), proof_size: 0 }),
    {
        Weight::from_parts(saturating_mul(self.write, n), 0)
    }
}

/// The weights of RocksDB: 25 microseconds a read, 100 a write.
pub open spec fn rocks_db_weight() -> RuntimeDbWeight {
    RuntimeDbWeight { read: 25_000_000, write: 100_000_000 }
}

pub fn rocks_db() -> (w: RuntimeDbWeight)
    ensures
        w == rocks_db_weight(),
{
    RuntimeDbWeight { read: 25_000 * WEIGHT_REF_TIME_PER_NANOS, write: 100_000 * WEIGHT_REF_TIME_PER_NANOS }
}

/// A benchmarked weight: `base`, plus `per_item` for each of `items`, plus
/// the reads and the writes, each step saturating.
pub open spec fn benchmarked(
    db: RuntimeDbWeight,
    base: u64,
    per_item: u64,
    items: u64,
    reads: u64,
    writes: u64,
) -> Weight {
    let t1 = sat(base + sat(per_item * items));
    let t2 = sat(t1 + sat(db.read * reads));
    Weight { ref_time: sat(t2 + sat(db.write * writes)), proof_size: 0 }
}

/// Computes a benchmarked weight.
pub fn weight_of(db: RuntimeDbWeight, base: u64, per_item: u64, items: u64, reads: u64, writes: u64) -> (w:
    Weight)
    ensures
        w == benchmarked(db, base, per_item, items, reads, writes),
{
    Weight::from_parts(base, 0).saturating_add(Weight::from_parts(per_item, 0).saturating_mul(items)).saturating_add(
        db.reads(reads),
    ).saturating_add(db.writes(writes))
}

/// Weight functions needed for the file bank.
pub trait WeightInfo {
    fn cert_idle_space(&self) -> Weight;

    fn upload_declaration(&self, v: u32) -> Weight;

    fn upload_declaration_expected_max(&self, _v: u32) -> Weight;

    fn transfer_report(&self, v: u32) -> Weight;

    fn transfer_report_last(&self, v: u32) -> Weight;

    fn upload_declaration_fly_upload(&self, v: u32) -> Weight;

    fn deal_reassign_miner(&self, v: u32) -> Weight;

    fn deal_reassign_miner_exceed_limit(&self, v: u32) -> Weight;

    fn calculate_end(&self, v: u32) -> Weight;

    fn replace_idle_space(&self) -> Weight;

    fn delete_file(&self, v: u32) -> Weight;

    fn create_bucket(&self) -> Weight;

    fn delete_bucket(&self) -> Weight;

    fn generate_restoral_order(&self) -> Weight;

    fn claim_restoral_order(&self) -> Weight;

    fn restoral_order_complete(&self) -> Weight;

    fn claim_restoral_noexist_order(&self) -> Weight;
}

/// Weights with the database weights of the runtime.
#[derive(Clone, Copy, PartialEq, Eq, Structural, Debug)]
pub struct SubstrateWeight {
    pub db: RuntimeDbWeight,
}

impl WeightInfo for SubstrateWeight {
    fn cert_idle_space(&self) -> (w: Weight)
        ensures
            w == benchmarked(self.db, 1_520_990_000, 0, 0, 3, 2),
    {
        weight_of(self.db, 1_520_990_000, 0, 0, 3, 2)
    }

    fn upload_declaration(&self, v: u32) -> (w: Weight)
        ensures
            w == benchmarked(self.db, 173_201_944, 3_023_108, v as u64, 11, 7),
    {
        weight_of(self.db, 173_201_944, 3_023_108, v as u64, 11, 7)
    }

    fn upload_declaration_expected_max(&self, _v: u32) -> (w: Weight)
        ensures
            w == benchmarked(self.db, 472_294_231, 0, 0, 36, 6),
    {
        weight_of(self.db, 472_294_231, 0, 0, 36, 6)
    }

    fn transfer_report(&self, v: u32) -> (w: Weight)
        ensures
            w == benchmarked(self.db, 68_385_886, 519_563, v as u64, 1, 1),
    {
        weight_of(self.db, 68_385_886, 519_563, v as u64, 1, 1)
    }

    fn transfer_report_last(&self, v: u32) -> (w: Weight)
        ensures
            w == benchmarked(self.db, 180_547_407, 4_661_110, v as u64, 16, 17),
    {
        weight_of(self.db, 180_547_407, 4_661_110, v as u64, 16, 17)
    }

    fn upload_declaration_fly_upload(&self, v: u32) -> (w: Weight)
        ensures
            w == benchmarked(self.db, 115_372_577, 943_540, v as u64, 5, 5),
    {
        weight_of(self.db, 115_372_577, 943_540, v as u64, 5, 5)
    }

    fn deal_reassign_miner(&self, v: u32) -> (w: Weight)
        ensures
            w == benchmarked(self.db, 411_033_067, 1_245_688, v as u64, 41, 12),
    {
        weight_of(self.db, 411_033_067, 1_245_688, v as u64, 41, 12)
    }

    fn deal_reassign_miner_exceed_limit(&self, v: u32) -> (w: Weight)
        ensures
            w == benchmarked(self.db, 111_303_061, 586_379, v as u64, 5, 5),
    {
        weight_of(self.db, 111_303_061, 586_379, v as u64, 5, 5)
    }

    fn calculate_end(&self, v: u32) -> (w: Weight)
        ensures
            w == benchmarked(self.db, 151_655_693, 3_286_351, v as u64, 5, 5),
    {
        weight_of(self.db, 151_655_693, 3_286_351, v as u64, 5, 5)
    }

    fn replace_idle_space(&self) -> (w: Weight)
        ensures
            w == benchmarked(self.db, 1_519_692_000, 0, 0, 3, 2),
    {
        weight_of(self.db, 1_519_692_000, 0, 0, 3, 2)
    }

    fn delete_file(&self, v: u32) -> (w: Weight)
        ensures
            w == benchmarked(self.db, 195_439_527, 4_058_900, v as u64, 10, 8),
    {
        weight_of(self.db, 195_439_527, 4_058_900, v as u64, 10, 8)
    }

    fn create_bucket(&self) -> (w: Weight)
        ensures
            w == benchmarked(self.db, 45_277_000, 0, 0, 2, 2),
    {
        weight_of(self.db, 45_277_000, 0, 0, 2, 2)
    }

    fn delete_bucket(&self) -> (w: Weight)
        ensures
            w == benchmarked(self.db, 55_820_000, 0, 0, 2, 2),
    {
        weight_of(self.db, 55_820_000, 0, 0, 2, 2)
    }

    fn generate_restoral_order(&self) -> (w: Weight)
        ensures
            w == benchmarked(self.db, 94_129_000, 0, 0, 2, 2),
    {
        weight_of(self.db, 94_129_000, 0, 0, 2, 2)
    }

    fn claim_restoral_order(&self) -> (w: Weight)
        ensures
            w == benchmarked(self.db, 70_910_000, 0, 0, 2, 1),
    {
        weight_of(self.db, 70_910_000, 0, 0, 2, 1)
    }

    fn restoral_order_complete(&self) -> (w: Weight)
        ensures
            w == benchmarked(self.db, 196_225_000, 0, 0, 6, 5),
    {
        weight_of(self.db, 196_225_000, 0, 0, 6, 5)
    }

    fn claim_restoral_noexist_order(&self) -> (w: Weight)
        ensures
            w == benchmarked(self.db, 113_477_000, 0, 0, 4, 2),
    {
        weight_of(self.db, 113_477_000, 0, 0, 4, 2)
    }
}

/// Weights with the database weights of RocksDB.
impl WeightInfo for () {
    fn cert_idle_space(&self) -> (w: Weight)
        ensures
            w == benchmarked(rocks_db_weight(), 1_520_990_000, 0, 0, 3, 2),
    {
        weight_of(rocks_db(), 1_520_990_000, 0, 0, 3, 2)
    }

    fn upload_declaration(&self, v: u32) -> (w: Weight)
        ensures
            w == benchmarked(rocks_db_weight(), 173_201_944, 3_023_108, v as u64, 11, 7),
    {
        weight_of(rocks_db(), 173_201_944, 3_023_108, v as u64, 11, 7)
    }

    fn upload_declaration_expected_max(&self, _v: u32) -> (w: Weight)
        ensures
            w == benchmarked(rocks_db_weight(), 472_294_231, 0, 0, 36, 6),
    {
        weight_of(rocks_db(), 472_294_231, 0, 0, 36, 6)
    }

    fn transfer_report(&self, v: u32) -> (w: Weight)
        ensures
            w == benchmarked(rocks_db_weight(), 68_385_886, 519_563, v as u64, 1, 1),
    {
        weight_of(rocks_db(), 68_385_886, 519_563, v as u64, 1, 1)
    }

    fn transfer_report_last(&self, v: u32) -> (w: Weight)
        ensures
            w == benchmarked(rocks_db_weight(), 180_547_407, 4_661_110, v as u64, 16, 17),
    {
        weight_of(rocks_db(), 180_547_407, 4_661_110, v as u64, 16, 17)
    }

    fn upload_declaration_fly_upload(&self, v: u32) -> (w: Weight)
        ensures
            w == benchmarked(rocks_db_weight(), 115_372_577, 943_540, v as u64, 5, 5),
    {
        weight_of(rocks_db(), 115_372_577, 943_540, v as u64, 5, 5)
    }

    fn deal_reassign_miner(&self, v: u32) -> (w: Weight)
        ensures
            w == benchmarked(rocks_db_weight(), 411_033_067, 1_245_688, v as u64, 41, 12),
    {
        weight_of(rocks_db(), 411_033_067, 1_245_688, v as u64, 41, 12)
    }

    fn deal_reassign_miner_exceed_limit(&self, v: u32) -> (w: Weight)
        ensures
            w == benchmarked(rocks_db_weight(), 111_303_061, 586_379, v as u64, 5, 5),
    {
        weight_of(rocks_db(), 111_303_061, 586_379, v as u64, 5, 5)
    }

    fn calculate_end(&self, v: u32) -> (w: Weight)
        ensures
            w == benchmarked(rocks_db_weight(), 151_655_693, 3_286_351, v as u64, 5, 5),
    {
        weight_of(rocks_db(), 151_655_693, 3_286_351, v as u64, 5, 5)
    }

    fn replace_idle_space(&self) -> (w: Weight)
        ensures
            w == benchmarked(rocks_db_weight(), 1_519_692_000, 0, 0, 3, 2),
    {
        weight_of(rocks_db(), 1_519_692_000, 0, 0, 3, 2)
    }

    fn delete_file(&self, v: u32) -> (w: Weight)
        ensures
            w == benchmarked(rocks_db_weight(), 195_439_527, 4_058_900, v as u64, 10, 8),
    {
        weight_of(rocks_db(), 195_439_527, 4_058_900, v as u64, 10, 8)
    }

    fn create_bucket(&self) -> (w: Weight)
        ensures
            w == benchmarked(rocks_db_weight(), 45_277_000, 0, 0, 2, 2),
    {
        weight_of(rocks_db(), 45_277_000, 0, 0, 2, 2)
    }

    fn delete_bucket(&self) -> (w: Weight)
        ensures
            w == benchmarked(rocks_db_weight(), 55_820_000, 0, 0, 2, 2),
    {
        weight_of(rocks_db(), 55_820_000, 0, 0, 2, 2)
    }

    fn generate_restoral_order(&self) -> (w: Weight)
        ensures
            w == benchmarked(rocks_db_weight(), 94_129_000, 0, 0, 2, 2),
    {
        weight_of(rocks_db(), 94_129_000, 0, 0, 2, 2)
    }

    fn claim_restoral_order(&self) -> (w: Weight)
        ensures
            w == benchmarked(rocks_db_weight(), 70_910_000, 0, 0, 2, 1),
    {
        weight_of(rocks_db(), 70_910_000, 0, 0, 2, 1)
    }

    fn restoral_order_complete(&self) -> (w: Weight)
        ensures
            w == benchmarked(rocks_db_weight(), 196_225_000, 0, 0, 6, 5),
    {
        weight_of(rocks_db(), 196_225_000, 0, 0, 6, 5)
    }

    fn claim_restoral_noexist_order(&self) -> (w: Weight)
        ensures
            w == benchmarked(rocks_db_weight(), 113_477_000, 0, 0, 4, 2),
    {
        weight_of(rocks_db(), 113_477_000, 0, 0, 4, 2)
    }
}

} // verus!
