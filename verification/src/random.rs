//! Random sampling of the data that miners are challenged to prove.
use vstd::prelude::*;
use crate::bytes::{bytes_list, copy_bytes};
use crate::config::Config;
use crate::file::copy_accounts;
use crate::filler::filler_views;
use crate::pallet::Pallet;
use crate::scale::{decode_u32, encode_subject, le_u32, u32_of_le};
use crate::types::{
    AccountId, DispatchError, Error, FileInfo, FileInfoView, FileState, FillerInfo, FillerInfoView,
    SliceInfo, SliceInfoView, slice_list,
};

verus! {

/// `s` is sorted and holds no number twice.
pub open spec fn strictly_sorted(s: Seq<u32>) -> bool {
    forall|i: int, j: int| 0 <= i < j < s.len() ==> s[i] < s[j]
}

/// Puts `x` into the sorted list `v` unless it is there.
#[verifier::spinoff_prover]
pub fn insert_sorted(v: &mut Vec<u32>, x: u32)
    requires
        strictly_sorted(old(v)@),
    ensures
        strictly_sorted(final(v)@),
        forall|y: u32| final(v)@.contains(y) <==> old(v)@.contains(y) || y == x,
        final(v)@.len() <= old(v)@.len() + 1,
{
    let mut p: usize = 0;
    while p < v.len() && v[p] < x
        invariant
            v@ == old(v)@,
            p <= v.len(),
            forall|k: int| 0 <= k < p ==> v@[k] < x,
        decreases v.len() - p,
    {
        p = p + 1;
    }
    if p < v.len() && v[p] == x {
        assert(v@.contains(x)) by {
            assert(v@[p as int] == x);
        }
        return;
    }
    let ghost before = v@;
    v.insert(p, x);
    assert(v@ == before.insert(p as int, x));
    proof {
        assert forall|i: int, j: int| 0 <= i < j < v@.len() implies v@[i] < v@[j] by {
            if j < p {
                assert(v@[i] == before[i] && v@[j] == before[j]);
            } else if j == p {
                assert(v@[i] == before[i]);
            } else if i == p {
                assert(v@[j] == before[j - 1]);
                assert(before[p as int] >= x);
                if j - 1 > p {
                    assert(before[p as int] < before[j - 1]);
                }
            } else if i < p {
                assert(v@[i] == before[i] && v@[j] == before[j - 1]);
            } else {
                assert(v@[i] == before[i - 1] && v@[j] == before[j - 1]);
            }
        }
        assert forall|y: u32| v@.contains(y) implies before.contains(y) || y == x by {
            let k = choose|k: int| 0 <= k < v@.len() && v@[k] == y;
            if k < p {
                assert(before[k] == y);
            } else if k > p {
                assert(before[k - 1] == y);
            }
        }
        assert forall|y: u32| before.contains(y) || y == x implies v@.contains(y) by {
            if y == x {
                assert(v@[p as int] == x);
            } else {
                let k = choose|k: int| 0 <= k < before.len() && before[k] == y;
                if k < p {
                    assert(v@[k] == y);
                } else {
                    assert(v@[k + 1] == y);
                }
            }
        }
        assert(before == old(v)@);
        assert forall|y: u32| v@.contains(y) <==> old(v)@.contains(y) || y == x by {
            if v@.contains(y) {
                assert(before.contains(y) || y == x);
            }
            if before.contains(y) || y == x {
                assert(v@.contains(y));
            }
        }
    }
}

/// The numbers of `s`, each once, rising.
pub open spec fn sorted_set(s: Seq<u32>) -> Seq<u32> {
    choose|t: Seq<u32>| strictly_sorted(t) && forall|y: u32| t.contains(y) <==> s.contains(y)
}

/// Two rising lists of the same numbers are one list.
pub proof fn lemma_sorted_unique(a: Seq<u32>, b: Seq<u32>)
    requires
        strictly_sorted(a),
        strictly_sorted(b),
        forall|y: u32| a.contains(y) <==> b.contains(y),
    ensures
        a == b,
    decreases a.len(),
{
    if a.len() == 0 {
        if b.len() > 0 {
            assert(b.contains(b[0]));
        }
        assert(a =~= b);
    } else {
        assert(a.contains(a[0]));
        assert(b.len() > 0);
        assert(b.contains(b[0]));
        let i = choose|i: int| 0 <= i < a.len() && a[i] == b[0];
        let j = choose|j: int| 0 <= j < b.len() && b[j] == a[0];
        assert(a[0] <= a[i]);
        assert(b[0] <= b[j]);
        assert(a[0] == b[0]);
        let ta = a.drop_first();
        let tb = b.drop_first();
        assert forall|y: u32| ta.contains(y) <==> tb.contains(y) by {
            if ta.contains(y) {
                let k = choose|k: int| 0 <= k < ta.len() && ta[k] == y;
                assert(a[k + 1] == y);
                assert(a.contains(y));
                let m = choose|m: int| 0 <= m < b.len() && b[m] == y;
                assert(m != 0);
                assert(tb[m - 1] == y);
            }
            if tb.contains(y) {
                let k = choose|k: int| 0 <= k < tb.len() && tb[k] == y;
                assert(b[k + 1] == y);
                assert(b.contains(y));
                let m = choose|m: int| 0 <= m < a.len() && a[m] == y;
                assert(m != 0);
                assert(ta[m - 1] == y);
            }
        }
        lemma_sorted_unique(ta, tb);
        assert(a =~= b) by {
            assert forall|k: int| 0 <= k < a.len() implies a[k] == b[k] by {
                if k > 0 {
                    assert(a[k] == ta[k - 1]);
                    assert(b[k] == tb[k - 1]);
                }
            }
        }
    }
}

/// Sorts `v` and drops the repeated numbers.
pub fn sort_dedup(v: &Vec<u32>) -> (r: Vec<u32>)
    ensures
        strictly_sorted(r@),
        forall|y: u32| r@.contains(y) <==> v@.contains(y),
        r@.len() <= v@.len(),
        r@ == sorted_set(v@),
{
    let mut r: Vec<u32> = Vec::new();
    let mut j: usize = 0;
    while j < v.len()
        invariant
            j <= v.len(),
            strictly_sorted(r@),
            forall|y: u32| r@.contains(y) <==> v@.subrange(0, j as int).contains(y),
            r@.len() <= j,
        decreases v.len() - j,
    {
        let ghost before = r@;
        insert_sorted(&mut r, v[j]);
        proof {
            assert forall|y: u32| r@.contains(y) <==> v@.subrange(0, j + 1).contains(y) by {
                if v@.subrange(0, j + 1).contains(y) {
                    let sub = v@.subrange(0, j + 1);
                    let k = choose|k: int| 0 <= k < sub.len() && #[trigger] sub[k] == y;
                    if k < j {
                        assert(v@.subrange(0, j as int)[k] == y);
                    }
                }
                if v@.subrange(0, j as int).contains(y) {
                    let sub = v@.subrange(0, j as int);
                    let k = choose|k: int| 0 <= k < sub.len() && #[trigger] sub[k] == y;
                    assert(v@.subrange(0, j + 1)[k] == y);
                }
                if y == v@[j as int] {
                    assert(v@.subrange(0, j + 1)[j as int] == y);
                }
            }
        }
        j = j + 1;
    }
    assert(v@.subrange(0, v.len() as int) =~= v@);
    proof {
        let t = sorted_set(v@);
        assert(strictly_sorted(t) && forall|y: u32| t.contains(y) <==> v@.contains(y));
        lemma_sorted_unique(r@, t);
    }
    r
}

/// How many numbers `get_random_numberlist` draws for a list of `length`:
/// 4.6 percent of it, plus one.
pub open spec fn sample_size(length: u32) -> int {
    length * 46 / 1000 + 1
}

/// How many numbers are drawn from an index of `n` entries: none from an
/// empty one.
pub open spec fn draw_count(n: nat) -> int {
    if n == 0 {
        0
    } else {
        sample_size(n as u32)
    }
}

/// Copies a filler.
pub fn copy_filler(f: &FillerInfo) -> (r: FillerInfo)
    ensures
        r@ == f@,
{
    FillerInfo {
        index: f.index,
        filler_size: f.filler_size,
        block_num: f.block_num,
        segment_size: f.segment_size,
        miner_address: f.miner_address,
        filler_id: copy_bytes(&f.filler_id),
        filler_hash: copy_bytes(&f.filler_hash),
    }
}

/// Copies a slice.
pub fn copy_slice(s: &SliceInfo) -> (r: SliceInfo)
    ensures
        r@ == s@,
{
    SliceInfo {
        miner_id: s.miner_id,
        shard_size: s.shard_size,
        block_num: s.block_num,
        shard_id: copy_bytes(&s.shard_id),
        miner_ip: copy_bytes(&s.miner_ip),
        miner_acc: s.miner_acc,
    }
}

/// Copies a file record.
pub fn copy_file_info(f: &FileInfo) -> (r: FileInfo)
    ensures
        r@ == f@,
{
    let mut names: Vec<Vec<u8>> = Vec::new();
    let mut j: usize = 0;
    while j < f.file_name.len()
        invariant
            j <= f.file_name.len(),
            bytes_list(names@) == bytes_list(f.file_name@).subrange(0, j as int),
        decreases f.file_name.len() - j,
    {
        let x = copy_bytes(&f.file_name[j]);
        assert(x@ == bytes_list(f.file_name@)[j as int]);
        let ghost before = names@;
        names.push(x);
        assert(bytes_list(names@) =~= bytes_list(before).push(x@));
        j = j + 1;
        assert(bytes_list(names@) =~= bytes_list(f.file_name@).subrange(0, j as int));
    }
    let mut slices: Vec<SliceInfo> = Vec::new();
    let mut j: usize = 0;
    while j < f.slice_info.len()
        invariant
            j <= f.slice_info.len(),
            slice_list(slices@) == slice_list(f.slice_info@).subrange(0, j as int),
        decreases f.slice_info.len() - j,
    {
        let x = copy_slice(&f.slice_info[j]);
        assert(x@ == slice_list(f.slice_info@)[j as int]);
        let ghost before = slices@;
        slices.push(x);
        assert(slice_list(slices@) =~= slice_list(before).push(x@));
        j = j + 1;
        assert(slice_list(slices@) =~= slice_list(f.slice_info@).subrange(0, j as int));
    }
    assert(bytes_list(names@) =~= bytes_list(f.file_name@));
    assert(slice_list(slices@) =~= slice_list(f.slice_info@));
    let r = FileInfo {
        file_size: f.file_size,
        index: f.index,
        file_state: f.file_state,
        user: copy_accounts(&f.user),
        file_name: names,
        slice_info: slices,
    };
    assert(r@.file_name == f@.file_name);
    assert(r@.slice_info == f@.slice_info);
    r
}

/// The number that a random value of the chain gives: its first four bytes,
/// little-endian, or zero where it is shorter.
pub fn random_number_of(random_seed: &Vec<u8>) -> (r: u32)
    ensures
        r == if random_seed.len() >= 4 {
            u32_of_le(random_seed@)
        } else {
            0
        },
{
    match decode_u32(random_seed) {
        Some(x) => x,
        None => 0,
    }
}

/// The random value of the chain, as `env` stands, for a subject of the
/// bytes `s`.
pub open spec fn random_of<E: Config>(env: E, s: Seq<u8>) -> Seq<u8> {
    env.spec_random(choose|v: Vec<u8>| v@ == s)@
}

/// The number of the `c`th draw for the file bank `pallet_id` from `seed`:
/// the random value for the identifier and `seed + c` (wrapping), read as
/// `random_number_of` reads it.
pub open spec fn draw<E: Config>(env: E, pallet_id: [u8; 8], seed: u32, c: int) -> u32 {
    let b = random_of(env, pallet_id@ + le_u32(vstd::wrapping::u32_specs::wrapping_add(seed, c as u32)));
    if b.len() >= 4 {
        u32_of_le(b)
    } else {
        0
    }
}

/// The first draw for `seed` that is not zero, from the `c`th on; none
/// where all of them to the last counter are zero.
pub open spec fn first_draw_from<E: Config>(env: E, pallet_id: [u8; 8], seed: u32, c: int) -> Option<u32>
    decreases u32::MAX + 1 - c,
{
    if c < 0 || c > u32::MAX {
        None
    } else if draw(env, pallet_id, seed, c) != 0 {
        Some(draw(env, pallet_id, seed, c))
    } else {
        first_draw_from(env, pallet_id, seed, c + 1)
    }
}

/// Two runtimes with the same random values make the same draws.
pub proof fn lemma_first_draw_same<E: Config>(env1: E, env2: E, pallet_id: [u8; 8], seed: u32, c: int)
    requires
        forall|v: Vec<u8>| #[trigger] env1.spec_random(v)@ == env2.spec_random(v)@,
    ensures
        first_draw_from(env1, pallet_id, seed, c) == first_draw_from(env2, pallet_id, seed, c),
    decreases u32::MAX + 1 - c,
{
    if 0 <= c <= u32::MAX {
        let s = pallet_id@ + le_u32(vstd::wrapping::u32_specs::wrapping_add(seed, c as u32));
        let v = choose|v: Vec<u8>| v@ == s;
        assert(env1.spec_random(v)@ == env2.spec_random(v)@);
        assert(draw(env1, pallet_id, seed, c) == draw(env2, pallet_id, seed, c));
        lemma_first_draw_same(env1, env2, pallet_id, seed, c + 1);
    }
}

/// The hashes and records of a list of files, as values.
pub open spec fn file_pair_views(s: Seq<(Vec<u8>, FileInfo)>) -> Seq<(Seq<u8>, FileInfoView)> {
    s.map_values(|x: (Vec<u8>, FileInfo)| (x.0@, x.1@))
}

/// The numbers of the blocks to prove of data of `block_num` blocks, where
/// they fit in a byte: rising strictly within `1..=block_num`; none of data
/// without blocks.
pub open spec fn blocks_drawn(b: Seq<u8>, block_num: u32) -> bool {
    &&& block_num == 0 ==> b.len() == 0
    &&& block_num <= 255 ==> {
        &&& forall|i: int| 0 <= i < b.len() ==> 1 <= #[trigger] b[i] <= block_num
        &&& forall|i: int, j: int| 0 <= i < j < b.len() ==> #[trigger] b[i] < #[trigger] b[j]
    }
}

/// A challenge: the miner, the id of the data, the numbers of the blocks to
/// prove (each drawn number plus one), the data's size, and 1 for filler
/// data or 2 for a slice of a file.
pub type Challenge = (AccountId, Vec<u8>, Vec<u8>, u64, u8);

/// A challenge as values.
pub type ChallengeView = (AccountId, Seq<u8>, Seq<u8>, u64, u8);

/// A list of challenges as values.
pub open spec fn challenge_views(s: Seq<Challenge>) -> Seq<ChallengeView> {
    s.map_values(|c: Challenge| c@)
}

impl Pallet {
    /// Index `y` may be drawn for a list of the given kind: a filler index
    /// (1), the index of a stored file (2), or any number.
    pub open spec fn index_ok(&self, random_type: u8, y: u32) -> bool {
        if random_type == 1 {
            self.filler_keys_map@.contains_key(y)
        } else if random_type == 2 {
            self.file_keys_map@.contains_key(y) && self.file_keys_map@[y].0
        } else {
            true
        }
    }

    /// A random non-zero number from the chain's randomness for `seed`: the
    /// first four bytes of the random value for the file bank's identifier
    /// and the seed, little-endian, or, where that is zero, for the next seed.
    pub fn generate_random_number<E: Config>(&self, env: &E, seed: u32) -> (r: Result<u32, DispatchError>)
        ensures
            match r {
                Ok(x) => exists|c: int|
                    0 <= c <= u32::MAX && x == #[trigger] draw(*env, self.pallet_id, seed, c) && x != 0 && forall|
                        d: int,
                    | 0 <= d < c ==> #[trigger] draw(*env, self.pallet_id, seed, d) == 0,
                Err(e) => e == DispatchError::Module(Error::Overflow) && forall|d: int|
                    0 <= d <= u32::MAX ==> #[trigger] draw(*env, self.pallet_id, seed, d) == 0,
            },
            r == match first_draw_from(*env, self.pallet_id, seed, 0) {
                Some(x) => Ok::<u32, DispatchError>(x),
                None => Err(DispatchError::Module(Error::Overflow)),
            },
    {
        let mut counter: u32 = 0;
        loop
            invariant
                forall|d: int| 0 <= d < counter ==> #[trigger] draw(*env, self.pallet_id, seed, d) == 0,
                first_draw_from(*env, self.pallet_id, seed, 0) == first_draw_from(*env, self.pallet_id, seed, counter as int),
            decreases u32::MAX - counter,
        {
            let subject = encode_subject(self.pallet_id, seed.wrapping_add(counter));
            let random_seed = env.random(&subject);
            let random_number = random_number_of(&random_seed);
            proof {
                let s0 = self.pallet_id@ + le_u32(vstd::wrapping::u32_specs::wrapping_add(seed, counter));
                assert(subject@ == s0);
                let v = choose|v: Vec<u8>| v@ == s0;
                assert(exists|w: Vec<u8>| w@ == s0) by {
                    assert(subject@ == s0);
                }
                assert(v@ == s0);
                assert(env.spec_random(v)@ == random_seed@);
                assert(random_number == draw(*env, self.pallet_id, seed, counter as int));
            }
            if random_number != 0 {
                return Ok(random_number);
            }
            counter = match counter.checked_add(1) {
                Some(c) => c,
                None => {
                    assert(first_draw_from(*env, self.pallet_id, seed, counter + 1) == None::<u32>);
                    return Err(DispatchError::Module(Error::Overflow));
                },
            };
        }
    }

    /// The numbers that the drawing loop of `get_random_numberlist` ends
    /// with, from the seed `seed` and the numbers `list` drawn so far, for
    /// `num` numbers below `limit` of the given kind: each round takes the
    /// next seed (and fails past the last one); once `num` numbers are drawn
    /// they are sorted without repeats, and the drawing ends if `num` are
    /// left; else the first non-zero draw for the seed, modulo `limit`, is
    /// kept where it is an index of that kind.
    pub open spec fn numbers_drawn<E: Config>(
        &self,
        env: E,
        seed: u32,
        list: Seq<u32>,
        num: int,
        random_type: u8,
        limit: u32,
    ) -> Result<Seq<u32>, DispatchError>
        decreases u32::MAX - seed,
    {
        if seed == u32::MAX {
            Err(DispatchError::Module(Error::Overflow))
        } else {
            let next = (seed + 1) as u32;
            let kept = if list.len() >= num {
                sorted_set(list)
            } else {
                list
            };
            if list.len() >= num && kept.len() >= num {
                Ok(kept)
            } else {
                match first_draw_from(env, self.pallet_id, next, 0) {
                    None => Err(DispatchError::Module(Error::Overflow)),
                    Some(x) => {
                        let y = (x % limit) as u32;
                        if self.index_ok(random_type, y) {
                            self.numbers_drawn(env, next, kept.push(y), num, random_type, limit)
                        } else {
                            self.numbers_drawn(env, next, kept, num, random_type, limit)
                        }
                    },
                }
            }
        }
    }

    /// Two runtimes with the same random values end the drawing loop alike.
    pub proof fn lemma_numbers_drawn_same<E: Config>(
        &self,
        env1: E,
        env2: E,
        seed: u32,
        list: Seq<u32>,
        num: int,
        random_type: u8,
        limit: u32,
    )
        requires
            forall|v: Vec<u8>| #[trigger] env1.spec_random(v)@ == env2.spec_random(v)@,
        ensures
            self.numbers_drawn(env1, seed, list, num, random_type, limit) == self.numbers_drawn(
                env2,
                seed,
                list,
                num,
                random_type,
                limit,
            ),
        decreases u32::MAX - seed,
    {
        if seed < u32::MAX {
            let next = (seed + 1) as u32;
            lemma_first_draw_same(env1, env2, self.pallet_id, next, 0);
            let kept = if list.len() >= num {
                sorted_set(list)
            } else {
                list
            };
            self.lemma_numbers_drawn_same(env1, env2, next, kept, num, random_type, limit);
            match first_draw_from(env1, self.pallet_id, next, 0) {
                Some(x) => {
                    let y = (x % limit) as u32;
                    self.lemma_numbers_drawn_same(env1, env2, next, kept.push(y), num, random_type, limit);
                },
                None => {},
            }
        }
    }

    /// What `get_random_numberlist` gives: no numbers for an empty list, an
    /// overflow where the count overflows, else what the drawing loop ends
    /// with, from the block number as seed.
    pub open spec fn drawn_indexes<E: Config>(
        &self,
        env: E,
        length: u32,
        random_type: u8,
        limit: u32,
    ) -> Result<Seq<u32>, DispatchError> {
        if length == 0 {
            Ok(Seq::<u32>::empty())
        } else if length * 46 > u32::MAX {
            Err(DispatchError::Module(Error::Overflow))
        } else {
            self.numbers_drawn(env, env.spec_block_number(), Seq::<u32>::empty(), sample_size(length), random_type, limit)
        }
    }

    /// Draws `length * 46 / 1000 + 1` distinct numbers below `limit`, each an
    /// index of the given kind (see `index_ok`), sorted; none from an empty
    /// list.
    pub fn get_random_numberlist<E: Config>(&self, env: &E, length: u32, random_type: u8, limit: u32) -> (r:
        Result<Vec<u32>, DispatchError>)
        requires
            self.wf(),
            length > 0 ==> limit > 0,
        ensures
            length == 0 ==> r is Ok && r->Ok_0@.len() == 0,
            length > 0 && length * 46 > u32::MAX ==> r == Err::<Vec<u32>, DispatchError>(
                DispatchError::Module(Error::Overflow),
            ),
            r is Err ==> r == Err::<Vec<u32>, DispatchError>(DispatchError::Module(Error::Overflow)),
            r is Ok && length > 0 ==> {
                let l = r->Ok_0@;
                &&& l.len() == sample_size(length)
                &&& strictly_sorted(l)
                &&& forall|i: int| 0 <= i < l.len() ==> #[trigger] l[i] < limit && self.index_ok(random_type, l[i])
            },
            match self.drawn_indexes(*env, length, random_type, limit) {
                Ok(l) => r is Ok && r->Ok_0@ == l,
                Err(e) => r == Err::<Vec<u32>, DispatchError>(e),
            },
    {
        let mut seed: u32 = env.block_number();
        let ghost target = self.numbers_drawn(*env, seed, Seq::<u32>::empty(), sample_size(length), random_type, limit);
        if length == 0 {
            return Ok(Vec::new());
        }
        let num: u32 = match length.checked_mul(46) {
            Some(x) => x / 1000 + 1,
            None => return Err(DispatchError::Module(Error::Overflow)),
        };
        let mut number_list: Vec<u32> = Vec::new();
        loop
            invariant_except_break
                self.numbers_drawn(*env, seed, number_list@, num as int, random_type, limit) == target,
            invariant
                self.wf(),
                length > 0,
                limit > 0,
                num == sample_size(length),
                target == self.numbers_drawn(*env, env.spec_block_number(), Seq::<u32>::empty(), sample_size(length), random_type, limit),
                number_list@.len() <= num,
                forall|i: int| 0 <= i < number_list@.len() ==> #[trigger] number_list@[i] < limit && self.index_ok(
                    random_type,
                    number_list@[i],
                ),
            ensures
                target == Ok::<Seq<u32>, DispatchError>(number_list@),
                number_list@.len() == num,
                strictly_sorted(number_list@),
                forall|i: int| 0 <= i < number_list@.len() ==> #[trigger] number_list@[i] < limit && self.index_ok(
                    random_type,
                    number_list@[i],
                ),
            decreases u32::MAX - seed,
        {
            let ghost old_seed = seed;
            let ghost old_list = number_list@;
            seed = match seed.checked_add(1) {
                Some(s) => s,
                None => {
                    assert(target == Err::<Seq<u32>, DispatchError>(DispatchError::Module(Error::Overflow)));
                    return Err(DispatchError::Module(Error::Overflow));
                },
            };
            assert(seed == (old_seed + 1) as u32);
            if number_list.len() >= num as usize {
                let sorted = sort_dedup(&number_list);
                proof {
                    assert forall|i: int| 0 <= i < sorted@.len() implies #[trigger] sorted@[i] < limit && self.index_ok(
                        random_type,
                        sorted@[i],
                    ) by {
                        assert(sorted@.contains(sorted@[i]));
                        let k = choose|k: int| 0 <= k < number_list@.len() && number_list@[k] == sorted@[i];
                        assert(number_list@[k] < limit);
                    }
                }
                number_list = sorted;
                if number_list.len() >= num as usize {
                    break;
                }
            }
            let ghost kept = number_list@;
            let drawn = self.generate_random_number(env, seed);
            let x = match drawn {
                Ok(x) => x,
                Err(e) => {
                    assert(target == Err::<Seq<u32>, DispatchError>(e));
                    return Err(e);
                },
            };
            let random = x % limit;
            let result: bool = match random_type {
                1 => self.judge_filler_exist(random),
                2 => self.judge_file_exist(random),
                _ => true,
            };
            assert(result == self.index_ok(random_type, random));
            if !result {
                assert(self.numbers_drawn(*env, seed, kept, num as int, random_type, limit) == target);
                continue;
            }
            number_list.push(random);
            assert(self.numbers_drawn(*env, seed, kept.push(random), num as int, random_type, limit) == target);
        }
        Ok(number_list)
    }

    /// `f` is a filler of the filler table.
    pub open spec fn is_stored_filler(&self, f: FillerInfoView) -> bool {
        exists|k: (AccountId, Seq<u8>)| #[trigger] self.filler_map@.contains_key(k) && self.filler_map@[k] == f
    }

    /// A challenge on filler data: a filler of that miner address, id and size
    /// is stored, and as many blocks are asked as are drawn from its blocks.
    pub open spec fn is_filler_challenge(&self, e: (AccountId, Seq<u8>, Seq<u8>, u64, u8)) -> bool {
        &&& e.4 == 1
        &&& exists|k: (AccountId, Seq<u8>)| {
            &&& #[trigger] self.filler_map@.contains_key(k)
            &&& self.filler_map@[k].miner_address == e.0
            &&& self.filler_map@[k].filler_id == e.1
            &&& self.filler_map@[k].filler_size == e.3
            &&& self.filler_map@[k].block_num > 0 ==> e.2.len() == sample_size(self.filler_map@[k].block_num)
            &&& blocks_drawn(e.2, self.filler_map@[k].block_num)
        }
    }

    /// A challenge on a slice: a stored file has a slice of that miner, shard
    /// and size, whose miner id is the miner's id now, and as many blocks are
    /// asked as are drawn from its blocks.
    pub open spec fn is_slice_challenge<E: Config>(&self, env: E, e: (AccountId, Seq<u8>, Seq<u8>, u64, u8)) -> bool {
        &&& e.4 == 2
        &&& exists|h: Seq<u8>, j: int| {
            &&& #[trigger] self.file@.contains_key(h)
            &&& self.file@[h].file_state == FileState::Active
            &&& 0 <= j < self.file@[h].slice_info.len()
            &&& #[trigger] self.file@[h].slice_info[j].miner_acc == e.0
            &&& self.file@[h].slice_info[j].shard_id == e.1
            &&& self.file@[h].slice_info[j].shard_size == e.3
            &&& env.spec_miner_id(e.0) == Ok::<u64, DispatchError>(self.file@[h].slice_info[j].miner_id)
            &&& self.file@[h].slice_info[j].block_num > 0 ==> e.2.len() == sample_size(self.file@[h].slice_info[j].block_num)
            &&& blocks_drawn(e.2, self.file@[h].slice_info[j].block_num)
        }
    }

    /// `l` are fillers drawn from the filler index: each is what its index
    /// leads to, and their indexes rise strictly.
    pub open spec fn drawn_fillers(&self, l: Seq<FillerInfoView>) -> bool {
        &&& forall|j: int| 0 <= j < l.len() ==> {
            &&& self.filler_keys_map@.contains_key(#[trigger] l[j].index)
            &&& self.filler_map@[self.filler_keys_map@[l[j].index]] == l[j]
        }
        &&& forall|i: int, j: int| 0 <= i < j < l.len() ==> #[trigger] l[i].index < #[trigger] l[j].index
    }

    /// What `get_random_filler` gives: the fillers that the indexes drawn
    /// from the filler index lead to, in the order drawn.
    pub open spec fn fillers_of<E: Config>(&self, env: E) -> Result<Seq<FillerInfoView>, DispatchError> {
        match self.drawn_indexes(env, self.filler_keys_map@.len() as u32, 1, self.filler_index_count) {
            Ok(l) => Ok(l.map_values(|i: u32| self.filler_map@[self.filler_keys_map@[i]])),
            Err(e) => Err(e),
        }
    }

    /// Draws fillers at random: `get_random_numberlist` over the filler index.
    pub fn get_random_filler<E: Config>(&self, env: &E) -> (r: Result<Vec<FillerInfo>, DispatchError>)
        requires
            self.wf(),
            self.filler_keys_map@.len() <= u32::MAX,
            self.filler_keys_map@.len() > 0 ==> self.filler_index_count > 0,
        ensures
            match self.fillers_of(*env) {
                Ok(l) => r is Ok && filler_views(r->Ok_0@) == l,
                Err(e) => r == Err::<Vec<FillerInfo>, DispatchError>(e),
            },
            self.filler_keys_map@.len() == 0 ==> r is Ok && r->Ok_0@.len() == 0,
            r is Ok ==> r->Ok_0@.len() == draw_count(self.filler_keys_map@.len()),
            r is Ok ==> self.drawn_fillers(filler_views(r->Ok_0@)),
            r is Ok ==> forall|j: int| 0 <= j < r->Ok_0@.len() ==> #[trigger] self.is_stored_filler(r->Ok_0@[j]@),
            r is Err ==> r->Err_0 == DispatchError::Module(Error::Overflow),
    {
        let length = self.get_fillermap_length()?;
        let limit = self.filler_index_count;
        let number_list = self.get_random_numberlist(env, length, 1, limit)?;
        let mut filler_list: Vec<FillerInfo> = Vec::new();
        let mut j: usize = 0;
        while j < number_list.len()
            invariant
                self.wf(),
                j <= number_list.len(),
                forall|k: int| 0 <= k < number_list@.len() ==> #[trigger] self.filler_keys_map@.contains_key(
                    number_list@[k],
                ),
                strictly_sorted(number_list@),
                filler_list@.len() == j,
                forall|k: int| 0 <= k < filler_list@.len() ==> #[trigger] self.is_stored_filler(filler_list@[k]@),
                forall|k: int| 0 <= k < filler_list@.len() ==> (#[trigger] filler_list@[k]).index == number_list@[k]
                    && self.filler_map@[self.filler_keys_map@[number_list@[k]]] == filler_list@[k]@,
            decreases number_list.len() - j,
        {
            let i = number_list[j];
            let (acc, filler_id) = match self.filler_keys_map.get(&i) {
                Some(k) => (k.miner, copy_bytes(&k.filler_id)),
                None => return Err(DispatchError::Module(Error::BugInvalid)),
            };
            let key = (acc, filler_id);
            let filler = match self.filler_map.get(&key) {
                Some(f) => copy_filler(f),
                None => return Err(DispatchError::Module(Error::BugInvalid)),
            };
            assert(self.filler_map@.contains_key(key@) && self.filler_map@[key@] == filler@);
            filler_list.push(filler);
            j = j + 1;
        }
        proof {
            let l = filler_views(filler_list@);
            assert(l =~= number_list@.map_values(|i: u32| self.filler_map@[self.filler_keys_map@[i]]));
            assert forall|k: int| 0 <= k < l.len() implies {
                &&& self.filler_keys_map@.contains_key(#[trigger] l[k].index)
                &&& self.filler_map@[self.filler_keys_map@[l[k].index]] == l[k]
            } by {
                assert(filler_list@[k].index == number_list@[k]);
            }
            assert forall|a: int, b: int| 0 <= a < b < l.len() implies #[trigger] l[a].index < #[trigger] l[b].index by {
                assert(filler_list@[a].index == number_list@[a]);
                assert(filler_list@[b].index == number_list@[b]);
            }
        }
        Ok(filler_list)
    }

    /// What `get_random_file` gives: the hashes and records of the files
    /// that the indexes drawn from the file index lead to, in the order drawn.
    pub open spec fn files_of<E: Config>(&self, env: E) -> Result<Seq<(Seq<u8>, FileInfoView)>, DispatchError> {
        match self.drawn_indexes(env, self.file_keys_map@.len() as u32, 2, self.file_index_count) {
            Ok(l) => Ok(l.map_values(|i: u32| (self.file_keys_map@[i].1, self.file@[self.file_keys_map@[i].1]))),
            Err(e) => Err(e),
        }
    }

    /// Draws stored files at random: `get_random_numberlist` over the file
    /// index; the files that are not stored (any more) are left out.
    pub fn get_random_file<E: Config>(&self, env: &E) -> (r: Result<Vec<(Vec<u8>, FileInfo)>, DispatchError>)
        requires
            self.wf(),
            self.file_keys_map@.len() <= u32::MAX,
            self.file_keys_map@.len() > 0 ==> self.file_index_count > 0,
        ensures
            match self.files_of(*env) {
                Ok(l) => r is Ok && file_pair_views(r->Ok_0@) == l,
                Err(e) => r == Err::<Vec<(Vec<u8>, FileInfo)>, DispatchError>(e),
            },
            self.file_keys_map@.len() == 0 ==> r is Ok && r->Ok_0@.len() == 0,
            r is Ok ==> r->Ok_0@.len() == draw_count(self.file_keys_map@.len()),
            r is Ok ==> forall|j: int| 0 <= j < r->Ok_0@.len() ==> {
                let (h, f) = #[trigger] r->Ok_0@[j];
                &&& self.file@.contains_key(h@)
                &&& self.file@[h@] == f@
                &&& f@.file_state == FileState::Active
                &&& self.file_keys_map@.contains_key(f@.index)
                &&& self.file_keys_map@[f@.index] == (true, h@)
            },
            r is Ok ==> forall|i: int, j: int| 0 <= i < j < r->Ok_0@.len() ==> (#[trigger] r->Ok_0@[i]).1.index
                < (#[trigger] r->Ok_0@[j]).1.index,
            r is Err ==> r->Err_0 == DispatchError::Module(Error::Overflow),
    {
        let length = self.get_file_map_length()?;
        let limit = self.file_index_count;
        let number_list = self.get_random_numberlist(env, length, 2, limit)?;
        let mut file_list: Vec<(Vec<u8>, FileInfo)> = Vec::new();
        let mut j: usize = 0;
        while j < number_list.len()
            invariant
                self.wf(),
                j <= number_list.len(),
                forall|k: int| 0 <= k < number_list@.len() ==> #[trigger] self.file_keys_map@.contains_key(
                    number_list@[k],
                ) && self.file_keys_map@[number_list@[k]].0,
                strictly_sorted(number_list@),
                file_list@.len() == j,
                forall|k: int| 0 <= k < file_list@.len() ==> {
                    let (h, f) = #[trigger] file_list@[k];
                    &&& self.file@.contains_key(h@)
                    &&& self.file@[h@] == f@
                    &&& f@.file_state == FileState::Active
                    &&& f@.index == number_list@[k]
                    &&& self.file_keys_map@[f@.index] == (true, h@)
                },
            decreases number_list.len() - j,
        {
            let i = number_list[j];
            let file_id = match self.file_keys_map.get(&i) {
                Some(k) => copy_bytes(&k.file_hash),
                None => return Err(DispatchError::Module(Error::FileNonExistent)),
            };
            let value = match self.file.get(&file_id) {
                Some(f) => copy_file_info(f),
                None => return Err(DispatchError::Module(Error::FileNonExistent)),
            };
            assert(value@.file_state == FileState::Active);
            if value.file_state == FileState::Active {
                let ghost hv = file_id@;
                file_list.push((file_id, value));
                proof {
                    let (h, f) = file_list@[file_list@.len() - 1];
                    assert(h@ == hv);
                }
            }
            j = j + 1;
        }
        proof {
            assert(file_pair_views(file_list@) =~= number_list@.map_values(
                |i: u32| (self.file_keys_map@[i].1, self.file@[self.file_keys_map@[i].1]),
            )) by {
                assert forall|k: int| 0 <= k < file_list@.len() implies #[trigger] file_pair_views(file_list@)[k]
                    == (self.file_keys_map@[number_list@[k]].1, self.file@[self.file_keys_map@[number_list@[k]].1]) by {
                    let (h, f) = file_list@[k];
                    assert(f@.index == number_list@[k]);
                }
            }
            assert forall|a: int, b: int| 0 <= a < b < file_list@.len() implies (#[trigger] file_list@[a]).1.index
                < (#[trigger] file_list@[b]).1.index by {
                assert(file_list@[a].1@.index == number_list@[a]);
                assert(file_list@[b].1@.index == number_list@[b]);
            }
        }
        Ok(file_list)
    }

    /// What `block_list` gives for data of `length` blocks: the numbers
    /// drawn below `length`, each plus one as a byte; none for no blocks.
    pub open spec fn blocks_of<E: Config>(&self, env: E, length: u32) -> Result<Seq<u8>, DispatchError> {
        match self.drawn_indexes(env, length, 3, length) {
            Ok(l) => Ok(l.map_values(|n: u32| vstd::wrapping::u8_specs::wrapping_add(n as u8, 1u8))),
            Err(e) => Err(e),
        }
    }

    /// The numbers of the blocks to prove of data of `length` blocks: each
    /// number drawn, plus one, as a byte.
    fn block_list<E: Config>(&self, env: &E, length: u32) -> (r: Result<Vec<u8>, DispatchError>)
        requires
            self.wf(),
        ensures
            match self.blocks_of(*env, length) {
                Ok(b) => r is Ok && r->Ok_0@ == b,
                Err(e) => r == Err::<Vec<u8>, DispatchError>(e),
            },
            r is Ok && length > 0 ==> r->Ok_0@.len() == sample_size(length),
            r is Ok ==> blocks_drawn(r->Ok_0@, length),
            length == 0 ==> r is Ok,
            r is Err ==> r->Err_0 == DispatchError::Module(Error::Overflow),
    {
        let number_list = self.get_random_numberlist(env, length, 3, length)?;
        let mut block_list: Vec<u8> = Vec::new();
        let mut j: usize = 0;
        while j < number_list.len()
            invariant
                j <= number_list.len(),
                block_list@.len() == j,
                length == 0 ==> number_list@.len() == 0,
                strictly_sorted(number_list@),
                forall|i: int| 0 <= i < number_list@.len() ==> #[trigger] number_list@[i] < length,
                length <= 255 ==> forall|i: int| 0 <= i < j ==> #[trigger] block_list@[i] == number_list@[i] + 1,
                forall|i: int| 0 <= i < j ==> #[trigger] block_list@[i] == vstd::wrapping::u8_specs::wrapping_add(
                    number_list@[i] as u8,
                    1u8,
                ),
            decreases number_list.len() - j,
        {
            let n = number_list[j];
            let b = (n as u8).wrapping_add(1);
            proof {
                if length <= 255 {
                    assert(n < 255);
                    assert((n as u8) == n) by (bit_vector)
                        requires
                            n < 255u32,
                    ;
                    assert(b == n + 1);
                }
            }
            block_list.push(b);
            j = j + 1;
        }
        proof {
            assert(block_list@ =~= number_list@.map_values(|n: u32| vstd::wrapping::u8_specs::wrapping_add(n as u8, 1u8)));
            if length <= 255 {
                assert forall|a: int, c: int| 0 <= a < c < block_list@.len() implies #[trigger] block_list@[a]
                    < #[trigger] block_list@[c] by {
                    assert(number_list@[a] < number_list@[c]);
                }
                assert forall|i: int| 0 <= i < block_list@.len() implies 1 <= #[trigger] block_list@[i] <= length by {
                    assert(number_list@[i] < length);
                }
            }
        }
        Ok(block_list)
    }

    /// What `get_random_challenge_data` gives: where it is `Ok`, first one
    /// challenge on filler data for each filler drawn, then challenges on
    /// slices of stored files; nothing where nothing is indexed; an error is an
    /// overflow of the drawing, or the runtime's answer when asked for the id
    /// of a miner.
    pub open spec fn challenges_drawn<E: Config>(&self, env: E, r: Result<Vec<Challenge>, DispatchError>) -> bool {
        let nf = draw_count(self.filler_keys_map@.len());
        &&& self.filler_keys_map@.len() == 0 && self.file_keys_map@.len() == 0 ==> r is Ok
            && r->Ok_0@.len() == 0
        &&& r is Ok ==> nf <= r->Ok_0@.len()
        &&& r is Ok ==> forall|j: int| 0 <= j < nf ==> #[trigger] self.is_filler_challenge(r->Ok_0@[j]@)
        &&& r is Ok ==> forall|j: int| nf <= j < r->Ok_0@.len() ==> #[trigger] self.is_slice_challenge(
            env,
            r->Ok_0@[j]@,
        )
        &&& r is Err ==> r->Err_0 == DispatchError::Module(Error::Overflow) || exists|a: AccountId|
            #[trigger] env.spec_miner_id(a) == Err::<u64, DispatchError>(r->Err_0)
    }

    /// The challenges on the fillers `fl` in turn, after the challenges
    /// `acc`: each asks the blocks drawn from the filler's blocks; the first
    /// failure to draw them is the answer.
    pub open spec fn filler_challenges<E: Config>(
        &self,
        env: E,
        fl: Seq<FillerInfoView>,
        acc: Seq<ChallengeView>,
    ) -> Result<Seq<ChallengeView>, DispatchError>
        decreases fl.len(),
    {
        if fl.len() == 0 {
            Ok(acc)
        } else {
            match self.blocks_of(env, fl[0].block_num) {
                Err(e) => Err(e),
                Ok(b) => self.filler_challenges(
                    env,
                    fl.drop_first(),
                    acc.push((fl[0].miner_address, fl[0].filler_id, b, fl[0].filler_size, 1u8)),
                ),
            }
        }
    }

    /// The challenges on the slices of `slices` at the positions `ns` in turn,
    /// after the challenges `acc`: a slice whose miner has another id now is
    /// passed over; the others ask the blocks drawn from their blocks; the
    /// first failure (of the runtime, for a miner's id, or of the drawing)
    /// is the answer.
    pub open spec fn slice_challenges<E: Config>(
        &self,
        env: E,
        slices: Seq<SliceInfoView>,
        ns: Seq<u32>,
        acc: Seq<ChallengeView>,
    ) -> Result<Seq<ChallengeView>, DispatchError>
        decreases ns.len(),
    {
        if ns.len() == 0 {
            Ok(acc)
        } else {
            let sl = slices[ns[0] as int];
            match env.spec_miner_id(sl.miner_acc) {
                Err(e) => Err(e),
                Ok(id) => if sl.miner_id != id {
                    self.slice_challenges(env, slices, ns.drop_first(), acc)
                } else {
                    match self.blocks_of(env, sl.block_num) {
                        Err(e) => Err(e),
                        Ok(b) => self.slice_challenges(
                            env,
                            slices,
                            ns.drop_first(),
                            acc.push((sl.miner_acc, sl.shard_id, b, sl.shard_size, 2u8)),
                        ),
                    }
                },
            }
        }
    }

    /// The challenges on the files `files` in turn, after the challenges
    /// `acc`: for each, positions of its slices are drawn, and the slices
    /// there are challenged (see `slice_challenges`).
    pub open spec fn file_challenges<E: Config>(
        &self,
        env: E,
        files: Seq<(Seq<u8>, FileInfoView)>,
        acc: Seq<ChallengeView>,
    ) -> Result<Seq<ChallengeView>, DispatchError>
        decreases files.len(),
    {
        if files.len() == 0 {
            Ok(acc)
        } else {
            let n = files[0].1.slice_info.len() as u32;
            match self.drawn_indexes(env, n, 3, n) {
                Err(e) => Err(e),
                Ok(ns) => match self.slice_challenges(env, files[0].1.slice_info, ns, acc) {
                    Err(e) => Err(e),
                    Ok(acc2) => self.file_challenges(env, files.drop_first(), acc2),
                },
            }
        }
    }

    /// What `get_random_challenge_data` gives: the challenges on the fillers
    /// drawn, then those on the files drawn; the first failure is the answer.
    pub open spec fn challenges_of<E: Config>(&self, env: E) -> Result<Seq<ChallengeView>, DispatchError> {
        match self.fillers_of(env) {
            Err(e) => Err(e),
            Ok(fl) => match self.filler_challenges(env, fl, Seq::<ChallengeView>::empty()) {
                Err(e) => Err(e),
                Ok(d) => match self.files_of(env) {
                    Err(e) => Err(e),
                    Ok(files) => self.file_challenges(env, files, d),
                },
            },
        }
    }

    /// Two runtimes with the same block number and random values draw the
    /// same indexes.
    pub proof fn lemma_drawn_indexes_same<E: Config>(&self, env1: E, env2: E, length: u32, random_type: u8, limit: u32)
        requires
            env1.spec_block_number() == env2.spec_block_number(),
            forall|v: Vec<u8>| #[trigger] env1.spec_random(v)@ == env2.spec_random(v)@,
        ensures
            self.drawn_indexes(env1, length, random_type, limit) == self.drawn_indexes(env2, length, random_type, limit),
            self.blocks_of(env1, length) == self.blocks_of(env2, length),
    {
        self.lemma_numbers_drawn_same(env1, env2, env1.spec_block_number(), Seq::<u32>::empty(), sample_size(length), random_type, limit);
        self.lemma_numbers_drawn_same(env1, env2, env1.spec_block_number(), Seq::<u32>::empty(), sample_size(length), 3, length);
    }

    /// Two runtimes that agree on the block number and random values make
    /// the same filler challenges.
    pub proof fn lemma_filler_challenges_same<E: Config>(
        &self,
        env1: E,
        env2: E,
        fl: Seq<FillerInfoView>,
        acc: Seq<ChallengeView>,
    )
        requires
            env1.spec_block_number() == env2.spec_block_number(),
            forall|v: Vec<u8>| #[trigger] env1.spec_random(v)@ == env2.spec_random(v)@,
        ensures
            self.filler_challenges(env1, fl, acc) == self.filler_challenges(env2, fl, acc),
        decreases fl.len(),
    {
        if fl.len() > 0 {
            self.lemma_drawn_indexes_same(env1, env2, fl[0].block_num, 3, fl[0].block_num);
            match self.blocks_of(env1, fl[0].block_num) {
                Ok(b) => {
                    self.lemma_filler_challenges_same(
                        env1,
                        env2,
                        fl.drop_first(),
                        acc.push((fl[0].miner_address, fl[0].filler_id, b, fl[0].filler_size, 1u8)),
                    );
                },
                Err(e) => {},
            }
        }
    }

    /// Two runtimes that agree on the block number, random values and miners'
    /// ids make the same slice challenges.
    pub proof fn lemma_slice_challenges_same<E: Config>(
        &self,
        env1: E,
        env2: E,
        slices: Seq<SliceInfoView>,
        ns: Seq<u32>,
        acc: Seq<ChallengeView>,
    )
        requires
            env1.spec_block_number() == env2.spec_block_number(),
            forall|v: Vec<u8>| #[trigger] env1.spec_random(v)@ == env2.spec_random(v)@,
            forall|a: AccountId| #[trigger] env1.spec_miner_id(a) == env2.spec_miner_id(a),
        ensures
            self.slice_challenges(env1, slices, ns, acc) == self.slice_challenges(env2, slices, ns, acc),
        decreases ns.len(),
    {
        if ns.len() > 0 {
            let sl = slices[ns[0] as int];
            assert(env1.spec_miner_id(sl.miner_acc) == env2.spec_miner_id(sl.miner_acc));
            self.lemma_drawn_indexes_same(env1, env2, sl.block_num, 3, sl.block_num);
            self.lemma_slice_challenges_same(env1, env2, slices, ns.drop_first(), acc);
            match self.blocks_of(env1, sl.block_num) {
                Ok(b) => {
                    self.lemma_slice_challenges_same(
                        env1,
                        env2,
                        slices,
                        ns.drop_first(),
                        acc.push((sl.miner_acc, sl.shard_id, b, sl.shard_size, 2u8)),
                    );
                },
                Err(e) => {},
            }
        }
    }

    /// Two runtimes that agree on the block number, random values and miners'
    /// ids make the same file challenges.
    pub proof fn lemma_file_challenges_same<E: Config>(
        &self,
        env1: E,
        env2: E,
        files: Seq<(Seq<u8>, FileInfoView)>,
        acc: Seq<ChallengeView>,
    )
        requires
            env1.spec_block_number() == env2.spec_block_number(),
            forall|v: Vec<u8>| #[trigger] env1.spec_random(v)@ == env2.spec_random(v)@,
            forall|a: AccountId| #[trigger] env1.spec_miner_id(a) == env2.spec_miner_id(a),
        ensures
            self.file_challenges(env1, files, acc) == self.file_challenges(env2, files, acc),
        decreases files.len(),
    {
        if files.len() > 0 {
            let n = files[0].1.slice_info.len() as u32;
            self.lemma_drawn_indexes_same(env1, env2, n, 3, n);
            match self.drawn_indexes(env1, n, 3, n) {
                Ok(ns) => {
                    self.lemma_slice_challenges_same(env1, env2, files[0].1.slice_info, ns, acc);
                    match self.slice_challenges(env1, files[0].1.slice_info, ns, acc) {
                        Ok(acc2) => {
                            self.lemma_file_challenges_same(env1, env2, files.drop_first(), acc2);
                        },
                        Err(e) => {},
                    }
                },
                Err(e) => {},
            }
        }
    }

    /// `get_random_challenge_data` may draw: the indexes count in a `u32`,
    /// and an index that has entries has given one out.
    pub open spec fn may_draw(&self) -> bool {
        &&& self.wf()
        &&& self.filler_keys_map@.len() <= u32::MAX
        &&& self.filler_keys_map@.len() > 0 ==> self.filler_index_count > 0
        &&& self.file_keys_map@.len() <= u32::MAX
        &&& self.file_keys_map@.len() > 0 ==> self.file_index_count > 0
    }

    /// The challenges of this block: for fillers drawn at random, blocks drawn
    /// from each; for stored files drawn at random, slices drawn from each
    /// whose miner still has the recorded id, and blocks drawn from each of
    /// those.
    pub fn get_random_challenge_data<E: Config>(&self, env: &E) -> (r: Result<Vec<Challenge>, DispatchError>)
        requires
            self.may_draw(),
        ensures
            self.challenges_drawn(*env, r),
            match self.challenges_of(*env) {
                Ok(d) => r is Ok && challenge_views(r->Ok_0@) == d,
                Err(e) => r == Err::<Vec<Challenge>, DispatchError>(e),
            },
    {
        let filler_list = self.get_random_filler(env)?;
        let ghost fls = filler_views(filler_list@);
        let mut data: Vec<Challenge> = Vec::new();
        let mut j: usize = 0;
        proof {
            assert(fls.subrange(0, fls.len() as int) =~= fls);
            assert(challenge_views(data@) =~= Seq::<ChallengeView>::empty());
        }
        while j < filler_list.len()
            invariant
                self.wf(),
                j <= filler_list.len(),
                forall|k: int| 0 <= k < filler_list@.len() ==> #[trigger] self.is_stored_filler(filler_list@[k]@),
                data@.len() == j,
                self.filler_keys_map@.len() == 0 ==> filler_list@.len() == 0,
                forall|k: int| 0 <= k < data@.len() ==> #[trigger] self.is_filler_challenge(data@[k]@),
                fls == filler_views(filler_list@),
                self.fillers_of(*env) == Ok::<Seq<FillerInfoView>, DispatchError>(fls),
                self.filler_challenges(*env, fls.subrange(j as int, fls.len() as int), challenge_views(data@))
                    == self.filler_challenges(*env, fls, Seq::<ChallengeView>::empty()),
            decreases filler_list.len() - j,
        {
            let v = &filler_list[j];
            assert(self.is_stored_filler(filler_list@[j as int]@));
            let ghost sub = fls.subrange(j as int, fls.len() as int);
            proof {
                assert(sub[0] == v@);
                assert(sub.drop_first() =~= fls.subrange(j + 1, fls.len() as int));
            }
            let block_list = match self.block_list(env, v.block_num) {
                Ok(b) => b,
                Err(e) => {
                    assert(self.filler_challenges(*env, sub, challenge_views(data@)) == Err::<Seq<ChallengeView>, DispatchError>(e));
                    return Err(e);
                },
            };
            let e: Challenge = (v.miner_address, copy_bytes(&v.filler_id), block_list, v.filler_size, 1);
            proof {
                let k = choose|k: (AccountId, Seq<u8>)| #[trigger] self.filler_map@.contains_key(k) && self.filler_map@[k] == v@;
                assert(self.filler_map@[k] == v@);
                assert(self.is_filler_challenge(e@));
            }
            let ghost before = data@;
            data.push(e);
            proof {
                assert(challenge_views(data@) =~= challenge_views(before).push(e@));
            }
            j = j + 1;
        }
        let nf = filler_list.len();
        assert(nf == draw_count(self.filler_keys_map@.len()));
        let ghost d = challenge_views(data@);
        proof {
            assert(fls.subrange(nf as int, fls.len() as int) =~= Seq::<FillerInfoView>::empty());
            assert(self.filler_challenges(*env, fls, Seq::<ChallengeView>::empty()) == Ok::<Seq<ChallengeView>, DispatchError>(d));
        }
        let file_list = match self.get_random_file(env) {
            Ok(l) => l,
            Err(e) => return Err(e),
        };
        let ghost fps = file_pair_views(file_list@);
        proof {
            assert(fps.subrange(0, fps.len() as int) =~= fps);
        }
        let mut j: usize = 0;
        while j < file_list.len()
            invariant
                self.wf(),
                j <= file_list.len(),
                forall|k: int| 0 <= k < file_list@.len() ==> {
                    let (h, f) = #[trigger] file_list@[k];
                    &&& self.file@.contains_key(h@)
                    &&& self.file@[h@] == f@
                    &&& f@.file_state == FileState::Active
                },
                nf == draw_count(self.filler_keys_map@.len()),
                nf <= data@.len(),
                file_list@.len() == 0 ==> data@.len() == nf,
                self.file_keys_map@.len() == 0 ==> file_list@.len() == 0,
                forall|k: int| 0 <= k < nf ==> #[trigger] self.is_filler_challenge(data@[k]@),
                forall|k: int| nf <= k < data@.len() ==> #[trigger] self.is_slice_challenge(*env, data@[k]@),
                fps == file_pair_views(file_list@),
                self.file_challenges(*env, fps.subrange(j as int, fps.len() as int), challenge_views(data@))
                    == self.challenges_of(*env),
            decreases file_list.len() - j,
        {
            let file = &file_list[j].1;
            let n = file.slice_info.len() as u32;
            let ghost subf = fps.subrange(j as int, fps.len() as int);
            let ghost acc_j = challenge_views(data@);
            proof {
                assert(subf[0] == (file_list@[j as int].0@, file@));
                assert(subf.drop_first() =~= fps.subrange(j + 1, fps.len() as int));
                assert(file@.slice_info.len() == file.slice_info.len());
            }
            let slice_number_list = match self.get_random_numberlist(env, n, 3, n) {
                Ok(l) => l,
                Err(e) => {
                    assert(self.file_challenges(*env, subf, acc_j) == Err::<Seq<ChallengeView>, DispatchError>(e));
                    return Err(e);
                },
            };
            let ghost ns = slice_number_list@;
            proof {
                assert(ns.subrange(0, ns.len() as int) =~= ns);
            }
            let mut t: usize = 0;
            while t < slice_number_list.len()
                invariant
                    self.wf(),
                    j < file_list.len(),
                    file == &file_list@[j as int].1,
                    self.file@.contains_key(file_list@[j as int].0@),
                    self.file@[file_list@[j as int].0@] == file@,
                    file@.file_state == FileState::Active,
                    n as int <= file.slice_info.len(),
                    slice_number_list@.len() > 0 ==> n > 0,
                    forall|i: int| 0 <= i < slice_number_list@.len() ==> #[trigger] slice_number_list@[i] < n,
                    nf <= data@.len(),
                    nf == draw_count(self.filler_keys_map@.len()),
                    self.file_keys_map@.len() == 0 ==> file_list@.len() == 0,
                    forall|k: int| 0 <= k < nf ==> #[trigger] self.is_filler_challenge(data@[k]@),
                    forall|k: int| nf <= k < data@.len() ==> #[trigger] self.is_slice_challenge(*env, data@[k]@),
                    t <= slice_number_list.len(),
                    ns == slice_number_list@,
                    subf == fps.subrange(j as int, fps.len() as int),
                    subf.len() > 0,
                    subf[0].1 == file@,
                    self.file_challenges(*env, subf, acc_j) == self.challenges_of(*env),
                    self.drawn_indexes(*env, n, 3, n) == Ok::<Seq<u32>, DispatchError>(ns),
                    n == file@.slice_info.len() as u32,
                    self.slice_challenges(*env, file@.slice_info, ns.subrange(t as int, ns.len() as int), challenge_views(data@))
                        == self.slice_challenges(*env, file@.slice_info, ns, acc_j),
                decreases slice_number_list.len() - t,
            {
                let idx = slice_number_list[t] as usize;
                let slice = &file.slice_info[idx];
                let ghost subs = ns.subrange(t as int, ns.len() as int);
                proof {
                    assert(subs[0] == idx);
                    assert(subs.drop_first() =~= ns.subrange(t + 1, ns.len() as int));
                    assert(file@.slice_info[idx as int] == slice@);
                }
                let miner_id = match env.get_miner_id(slice.miner_acc) {
                    Ok(id) => id,
                    Err(e) => {
                        assert(env.spec_miner_id(slice.miner_acc) == Err::<u64, DispatchError>(e));
                        assert(self.slice_challenges(*env, file@.slice_info, subs, challenge_views(data@))
                            == Err::<Seq<ChallengeView>, DispatchError>(e));
                        assert(self.file_challenges(*env, subf, acc_j) == Err::<Seq<ChallengeView>, DispatchError>(e));
                        return Err(e);
                    },
                };
                if slice.miner_id != miner_id {
                    t = t + 1;
                    continue;
                }
                let block_list = match self.block_list(env, slice.block_num) {
                    Ok(b) => b,
                    Err(e) => {
                        assert(self.slice_challenges(*env, file@.slice_info, subs, challenge_views(data@))
                            == Err::<Seq<ChallengeView>, DispatchError>(e));
                        assert(self.file_challenges(*env, subf, acc_j) == Err::<Seq<ChallengeView>, DispatchError>(e));
                        return Err(e);
                    },
                };
                let e: Challenge = (slice.miner_acc, copy_bytes(&slice.shard_id), block_list, slice.shard_size, 2);
                proof {
                    let h = file_list@[j as int].0@;
                    assert(file@.slice_info[idx as int] == file.slice_info@[idx as int]@);
                    assert(self.file@[h].slice_info[idx as int] == slice@);
                    assert(self.file@.contains_key(h));
                    assert(self.file@[h].slice_info[idx as int].miner_acc == e@.0);
                    assert(env.spec_miner_id(e@.0) == Ok::<u64, DispatchError>(self.file@[h].slice_info[idx as int].miner_id));
                    assert(self.is_slice_challenge(*env, e@));
                }
                let ghost before = data@;
                data.push(e);
                proof {
                    assert(challenge_views(data@) =~= challenge_views(before).push(e@));
                }
                t = t + 1;
            }
            proof {
                assert(ns.subrange(ns.len() as int, ns.len() as int) =~= Seq::<u32>::empty());
                assert(self.slice_challenges(*env, file@.slice_info, ns, acc_j)
                    == Ok::<Seq<ChallengeView>, DispatchError>(challenge_views(data@)));
            }
            j = j + 1;
        }
        proof {
            assert(fps.subrange(file_list.len() as int, fps.len() as int) =~= Seq::<(Seq<u8>, FileInfoView)>::empty());
        }
        Ok(data)
    }
}

} // verus!
