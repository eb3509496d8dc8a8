//! One ledger entry, its hash, the proof-of-work rule and the mining search.

use crate::clock::unix_epoch;
use crate::sha::{sha256, sha256_digest};
use crate::text::{
    binary_expansion, decimal_digits, decimal_string, hex_encode, hex_string, hex_to_binary,
    is_lower_hex, is_lower_hex_text, leading_zeros, lemma_binary_expansion_len,
    lemma_hex_string_shape, starts_with_zeros,
};
use std::time::SystemTime;
use vstd::prelude::*;
use vstd::utf8::encode_utf8;

verus! {

/// One entry of the ledger.
#[derive(Debug)]
pub struct Block {
    timestamp: u128,
    last_hash: String,
    hash: String,
    data: String,
    difficulty: u32,
    nonce: u32,
    pub number: u128,
}

/// What a block holds, as mathematical values.
pub struct BlockView {
    /// Nanoseconds since the Unix epoch at which the block was mined.
    pub timestamp: nat,
    /// The hash of the block that this one follows.
    pub last_hash: Seq<char>,
    /// The hash of this block.
    pub hash: Seq<char>,
    /// The payload.
    pub data: Seq<char>,
    /// The number of leading zero bits that `hash` must show.
    pub difficulty: nat,
    /// The value that the mining search varied.
    pub nonce: nat,
    /// The position of the block in its chain; 0 for the genesis block.
    pub number: nat,
}

impl View for Block {
    type V = BlockView;

    closed spec fn view(&self) -> BlockView {
        BlockView {
            timestamp: self.timestamp as nat,
            last_hash: self.last_hash@,
            hash: self.hash@,
            data: self.data@,
            difficulty: self.difficulty as nat,
            nonce: self.nonce as nat,
            number: self.number as nat,
        }
    }
}

/// The genesis block, as mathematical values: the fixed first block of every
/// chain. Its hash is a constant, not the hash of its fields.
pub open spec fn genesis_view() -> BlockView {
    BlockView {
        timestamp: 0,
        last_hash: "GENSIS_LAST_HASH"@,
        hash: "GENSIS_HASH"@,
        data: "GENESIS"@,
        difficulty: 1,
        nonce: 1,
        number: 0,
    }
}

impl Block {
    /// A block that holds exactly the values given. Nothing is checked:
    /// whether the block follows another one is what `is_valid_block` decides.
    pub fn new(
        timestamp: u128,
        last_hash: String,
        hash: String,
        data: String,
        difficulty: u32,
        nonce: u32,
        number: u128,
    ) -> (block: Block)
        ensures
            block@ == (BlockView {
                timestamp: timestamp as nat,
                last_hash: last_hash@,
                hash: hash@,
                data: data@,
                difficulty: difficulty as nat,
                nonce: nonce as nat,
                number: number as nat,
            }),
    {
        Block { timestamp, last_hash, hash, data, difficulty, nonce, number }
    }

    /// The genesis block.
    pub fn genesis() -> (block: Block)
        ensures
            block@ == genesis_view(),
    {
        Block {
            timestamp: 0,
            last_hash: "GENSIS_LAST_HASH".to_owned(),
            hash: "GENSIS_HASH".to_owned(),
            data: "GENESIS".to_owned(),
            difficulty: 1,
            nonce: 1,
            number: 0,
        }
    }

    /// When the block was mined, in nanoseconds since the Unix epoch.
    pub fn timestamp(&self) -> (t: u128)
        ensures
            t == self@.timestamp,
    {
        self.timestamp
    }

    /// The hash of the block that this one follows.
    pub fn last_hash(&self) -> (h: &String)
        ensures
            h@ == self@.last_hash,
    {
        &self.last_hash
    }

    /// The hash of this block.
    pub fn hash(&self) -> (h: &String)
        ensures
            h@ == self@.hash,
    {
        &self.hash
    }

    /// The payload.
    pub fn data(&self) -> (d: &String)
        ensures
            d@ == self@.data,
    {
        &self.data
    }

    /// The number of leading zero bits that the hash must show.
    pub fn difficulty(&self) -> (d: u32)
        ensures
            d == self@.difficulty,
    {
        self.difficulty
    }

    /// The value that the mining search varied.
    pub fn nonce(&self) -> (n: u32)
        ensures
            n == self@.nonce,
    {
        self.nonce
    }

    /// The position of the block in its chain.
    pub fn number(&self) -> (n: u128)
        ensures
            n == self@.number,
    {
        self.number
    }
}

impl Clone for Block {
    fn clone(&self) -> (copy: Block)
        ensures
            copy@ == self@,
    {
        Block {
            timestamp: self.timestamp,
            last_hash: self.last_hash.clone(),
            hash: self.hash.clone(),
            data: self.data.clone(),
            difficulty: self.difficulty,
            nonce: self.nonce,
            number: self.number,
        }
    }
}

impl PartialEq for Block {
    fn eq(&self, other: &Block) -> (same: bool) {
        self.timestamp == other.timestamp && self.last_hash == other.last_hash && self.hash
            == other.hash && self.data == other.data && self.difficulty == other.difficulty
            && self.nonce == other.nonce && self.number == other.number
    }
}

impl vstd::std_specs::cmp::PartialEqSpecImpl for Block {
    open spec fn obeys_eq_spec() -> bool {
        true
    }

    open spec fn eq_spec(&self, other: &Block) -> bool {
        self@ == other@
    }
}

/// The time that mining one block should take, in nanoseconds: four seconds.
pub const MINE_RATE: u128 = 4_000_000_000;

/// The text that is hashed for a block: the decimal timestamp, the hash of the
/// block before, the payload, the decimal difficulty and the decimal nonce,
/// one after the other with nothing between them.
pub open spec fn hash_input(
    timestamp: nat,
    last_hash: Seq<char>,
    data: Seq<char>,
    difficulty: nat,
    nonce: nat,
) -> Seq<char> {
    decimal_digits(timestamp) + last_hash + data + decimal_digits(difficulty) + decimal_digits(
        nonce,
    )
}

/// The hash of a block: the SHA-256 digest of the UTF-8 bytes of `hash_input`,
/// written as 64 lower-case hexadecimal digits.
pub open spec fn block_hash(
    timestamp: nat,
    last_hash: Seq<char>,
    data: Seq<char>,
    difficulty: nat,
    nonce: nat,
) -> Seq<char> {
    hex_string(sha256(encode_utf8(hash_input(timestamp, last_hash, data, difficulty, nonce)))@)
}

/// A block hash is always 64 lower-case hexadecimal digits.
pub proof fn lemma_block_hash_shape(
    timestamp: nat,
    last_hash: Seq<char>,
    data: Seq<char>,
    difficulty: nat,
    nonce: nat,
)
    ensures
        block_hash(timestamp, last_hash, data, difficulty, nonce).len() == 64,
        is_lower_hex(block_hash(timestamp, last_hash, data, difficulty, nonce)),
{
    lemma_hex_string_shape(
        sha256(encode_utf8(hash_input(timestamp, last_hash, data, difficulty, nonce)))@,
    );
}

/// Computes the hash of a block from the five values that it covers.
pub fn crypto_hash(
    timestamp: u128,
    last_hash: &str,
    data: &str,
    difficulty: u32,
    nonce: u32,
) -> (hash: String)
    ensures
        hash@ == block_hash(timestamp as nat, last_hash@, data@, difficulty as nat, nonce as nat),
        hash@.len() == 64,
        is_lower_hex(hash@),
{
    let mut data_for_hash = decimal_string(timestamp);
    data_for_hash.append(last_hash);
    data_for_hash.append(data);
    data_for_hash.append(decimal_string(difficulty as u128).as_str());
    data_for_hash.append(decimal_string(nonce as u128).as_str());
    let digest = sha256_digest(data_for_hash.as_str().as_bytes());
    proof {
        lemma_block_hash_shape(
            timestamp as nat,
            last_hash@,
            data@,
            difficulty as nat,
            nonce as nat,
        );
    }
    hex_encode(digest.as_slice())
}

/// The proof-of-work rule: `hash` is lower-case hexadecimal text whose binary
/// expansion begins with `difficulty` zeros.
pub open spec fn meets_difficulty(hash: Seq<char>, difficulty: nat) -> bool {
    &&& is_lower_hex(hash)
    &&& leading_zeros(binary_expansion(hash), difficulty)
}

/// Decides the proof-of-work rule for any text and any difficulty.
pub fn has_proof_of_work(hash: &String, difficulty: u32) -> (met: bool)
    ensures
        met == meets_difficulty(hash@, difficulty as nat),
{
    if !is_lower_hex_text(hash.as_str()) {
        return false;
    }
    let binary_hash = hex_to_binary(hash);
    starts_with_zeros(binary_hash.as_str(), difficulty)
}

/// The difficulty for a block mined at `new_timestamp` on top of `last`: one
/// more than that of `last` where less than `MINE_RATE` has passed since
/// `last` was mined, else one less, but never less than 1.
pub open spec fn adjusted_difficulty(last: BlockView, new_timestamp: nat) -> nat {
    if new_timestamp - last.timestamp < MINE_RATE {
        last.difficulty + 1
    } else if last.difficulty - 1 > 1 {
        (last.difficulty - 1) as nat
    } else {
        1
    }
}

/// Raises or lowers the difficulty by the time that has passed since
/// `last_block` was mined.
pub fn adjust_difficulty(last_block: &Block, new_timestamp: u128) -> (difficulty: u32)
    requires
        last_block@.difficulty < u32::MAX,
    ensures
        difficulty == adjusted_difficulty(last_block@, new_timestamp as nat),
        difficulty >= 1,
        -1 <= difficulty - last_block@.difficulty <= 1,
{
    if new_timestamp < last_block.timestamp || new_timestamp - last_block.timestamp < MINE_RATE {
        return last_block.difficulty + 1;
    }
    if last_block.difficulty >= 1 && last_block.difficulty - 1 > 1 {
        last_block.difficulty - 1
    } else {
        1
    }
}

/// Whether a block can be mined on top of `last` without leaving the range
/// of the machine integers that hold the difficulty and the number.
pub open spec fn extendable(last: BlockView) -> bool {
    &&& last.difficulty < u32::MAX
    &&& last.number < u128::MAX
}

/// The block that one mining attempt on top of `last` proposes, made at
/// `timestamp` with `nonce`.
pub open spec fn candidate(
    last: BlockView,
    data: Seq<char>,
    timestamp: nat,
    nonce: nat,
) -> BlockView {
    let difficulty = adjusted_difficulty(last, timestamp);
    BlockView {
        timestamp,
        last_hash: last.hash,
        hash: block_hash(timestamp, last.hash, data, difficulty, nonce),
        data,
        difficulty,
        nonce,
        number: last.number + 1,
    }
}

/// Whether the hash of `block` meets the difficulty of `block`.
pub open spec fn accepted(block: BlockView) -> bool {
    meets_difficulty(block.hash, block.difficulty)
}

/// The five rules that make `block` a valid successor of `last`: it names the
/// hash of `last`, its hash meets its difficulty, its difficulty is within one
/// of that of `last`, its hash is the hash of its fields, and its number is
/// the next.
pub open spec fn valid_successor(last: BlockView, block: BlockView) -> bool {
    &&& block.last_hash == last.hash
    &&& meets_difficulty(block.hash, block.difficulty)
    &&& -1 <= block.difficulty - last.difficulty <= 1
    &&& block.hash == block_hash(
        block.timestamp,
        block.last_hash,
        block.data,
        block.difficulty,
        block.nonce,
    )
    &&& block.number == last.number + 1
}

/// One mining attempt: the candidate for `timestamp` and `nonce`, if its hash
/// meets its difficulty.
pub fn mine_attempt(last_block: &Block, data: &str, timestamp: u128, nonce: u32) -> (found: Option<
    Block,
>)
    requires
        extendable(last_block@),
    ensures
        found is Some <==> accepted(
            candidate(last_block@, data@, timestamp as nat, nonce as nat),
        ),
        found matches Some(block) ==> block@ == candidate(
            last_block@,
            data@,
            timestamp as nat,
            nonce as nat,
        ),
{
    let difficulty = adjust_difficulty(last_block, timestamp);
    let block_hash = crypto_hash(
        timestamp,
        last_block.hash.as_str(),
        data,
        difficulty,
        nonce,
    );
    let binary = hex_to_binary(&block_hash);
    if starts_with_zeros(binary.as_str(), difficulty) {
        Some(
            Block {
                timestamp,
                last_hash: last_block.hash.clone(),
                hash: block_hash,
                data: data.to_owned(),
                difficulty,
                nonce,
                number: last_block.number + 1,
            },
        )
    } else {
        None
    }
}

/// Verifies that `block` is a valid successor of `last_block`.
pub fn is_valid_block(last_block: &Block, block: &Block) -> (valid: bool)
    ensures
        valid == valid_successor(last_block@, block@),
{
    if !(last_block.hash == block.last_hash) {
        return false;
    }
    if !has_proof_of_work(&block.hash, block.difficulty) {
        return false;
    }
    if last_block.difficulty > block.difficulty && last_block.difficulty - block.difficulty > 1 {
        return false;
    }
    if block.difficulty > last_block.difficulty && block.difficulty - last_block.difficulty > 1 {
        return false;
    }
    let recon_hash = crypto_hash(
        block.timestamp,
        block.last_hash.as_str(),
        block.data.as_str(),
        block.difficulty,
        block.nonce,
    );
    if !(recon_hash == block.hash) {
        return false;
    }
    if last_block.number == u128::MAX || block.number != last_block.number + 1 {
        return false;
    }
    true
}

/// Whether the attempt with nonce `n`, made at the time `times[n]`, is turned
/// down.
pub open spec fn attempt_fails(last: BlockView, data: Seq<char>, times: Seq<nat>, n: int) -> bool {
    !accepted(candidate(last, data, times[n], n as nat))
}

/// What a mining search returns when the clock shows `times[n]` at the attempt
/// with nonce `n`: the first candidate that is accepted, or nothing once every
/// nonce from 0 to `u32::MAX` has been turned down. `times` holds the readings
/// up to the last attempt made.
pub open spec fn search_result(
    last: BlockView,
    data: Seq<char>,
    times: Seq<nat>,
    mined: Option<BlockView>,
) -> bool {
    match mined {
        Some(block) => {
            &&& 0 < times.len() <= u32::MAX + 1
            &&& forall|n: int| 0 <= n < times.len() - 1 ==> attempt_fails(last, data, times, n)
            &&& block == candidate(last, data, times.last(), (times.len() - 1) as nat)
            &&& accepted(block)
        },
        None => {
            &&& times.len() == u32::MAX + 1
            &&& forall|n: int| 0 <= n < times.len() ==> attempt_fails(last, data, times, n)
        },
    }
}

/// An accepted candidate is a valid successor of the block it was mined on,
/// and its difficulty is at least 1.
pub proof fn lemma_accepted_candidate_is_valid(
    last: BlockView,
    data: Seq<char>,
    timestamp: nat,
    nonce: nat,
)
    requires
        accepted(candidate(last, data, timestamp, nonce)),
    ensures
        valid_successor(last, candidate(last, data, timestamp, nonce)),
        candidate(last, data, timestamp, nonce).difficulty >= 1,
{
}

/// The view of a block that may be missing.
pub open spec fn view_of(block: Option<Block>) -> Option<BlockView> {
    match block {
        Some(b) => Some(b@),
        None => None,
    }
}

/// Mines a block that holds `data` on top of `last_block`. The search tries the
/// nonces 0, 1, 2, ... in turn; for each it reads the clock (taking 0 for a
/// clock that stands before the Unix epoch), derives the difficulty from that
/// reading, and hashes the candidate. It returns the first candidate whose
/// hash meets its difficulty, and `None` only after all the nonces that a
/// `u32` holds have been turned down.
pub fn mine_block(last_block: &Block, data: String) -> (mined: Option<Block>)
    requires
        extendable(last_block@),
    ensures
        exists|times: Seq<nat>| #[trigger] search_result(last_block@, data@, times, view_of(mined)),
        mined matches Some(block) ==> {
            &&& valid_successor(last_block@, block@)
            &&& block@.data == data@
            &&& block@.difficulty >= 1
            &&& leading_zeros(binary_expansion(block@.hash), block@.difficulty)
        },
{
    let mut nonce: u32 = 0;
    let ghost mut times: Seq<nat> = Seq::empty();
    loop
        invariant
            extendable(last_block@),
            times.len() == nonce,
            forall|n: int| 0 <= n < times.len() ==> attempt_fails(last_block@, data@, times, n),
        decreases u32::MAX - nonce,
    {
        let time: u128 = match SystemTime::now().duration_since(unix_epoch()) {
            Ok(duration) => duration.as_nanos(),
            Err(_) => 0,
        };
        let ghost earlier = times;
        proof {
            times = times.push(time as nat);
            assert forall|n: int| 0 <= n < times.len() - 1 implies attempt_fails(
                last_block@,
                data@,
                times,
                n,
            ) by {
                assert(attempt_fails(last_block@, data@, earlier, n));
            }
        }
        let found = mine_attempt(last_block, data.as_str(), time, nonce);
        if found.is_some() {
            proof {
                lemma_accepted_candidate_is_valid(last_block@, data@, time as nat, nonce as nat);
                assert(search_result(last_block@, data@, times, view_of(found)));
            }
            return found;
        }
        if nonce == u32::MAX {
            proof {
                assert(attempt_fails(last_block@, data@, times, nonce as int));
                assert(search_result(last_block@, data@, times, view_of(None)));
            }
            return None;
        }
        proof {
            assert(attempt_fails(last_block@, data@, times, nonce as int));
        }
        nonce += 1;
    }
}

/// The text that describes a block: a heading with its number, then one line
/// for each of the other fields.
pub open spec fn block_text(block: BlockView) -> Seq<char> {
    "Info de Block #"@ + decimal_digits(block.number) + ": \ntimestamp: "@ + decimal_digits(
        block.timestamp,
    ) + "\nlast_hash: "@ + block.last_hash + "\nhash: "@ + block.hash + "\ndata: "@ + block.data
        + "\ndifficulty: "@ + decimal_digits(block.difficulty) + "\nnonce: "@ + decimal_digits(
        block.nonce,
    ) + "\n"@
}

impl Block {
    /// A readable description of the block, for the caller to print.
    pub fn pretty_print(&self) -> (text: String)
        ensures
            text@ == block_text(self@),
    {
        let mut text = "Info de Block #".to_owned();
        text.append(decimal_string(self.number).as_str());
        text.append(": \ntimestamp: ");
        text.append(decimal_string(self.timestamp).as_str());
        text.append("\nlast_hash: ");
        text.append(self.last_hash.as_str());
        text.append("\nhash: ");
        text.append(self.hash.as_str());
        text.append("\ndata: ");
        text.append(self.data.as_str());
        text.append("\ndifficulty: ");
        text.append(decimal_string(self.difficulty as u128).as_str());
        text.append("\nnonce: ");
        text.append(decimal_string(self.nonce as u128).as_str());
        text.append("\n");
        text
    }
}

/// The difficulty of a mined block is never less than 1 and never differs by
/// more than one from the difficulty of the block it was mined on, whatever
/// the clock shows.
pub proof fn lemma_adjusted_difficulty_bounds(last: BlockView, new_timestamp: nat)
    ensures
        adjusted_difficulty(last, new_timestamp) >= 1,
        -1 <= adjusted_difficulty(last, new_timestamp) - last.difficulty <= 1,
{
}

/// The difficulties of a block and of a valid successor differ by at most one.
pub proof fn lemma_valid_successor_drift(last: BlockView, block: BlockView)
    requires
        valid_successor(last, block),
    ensures
        -1 <= block.difficulty - last.difficulty <= 1,
{
}

/// The hash of a valid successor begins with as many zero bits as its
/// difficulty asks for, so that difficulty is at most 256, the number of bits
/// of a hash.
pub proof fn lemma_valid_successor_work(last: BlockView, block: BlockView)
    requires
        valid_successor(last, block),
    ensures
        binary_expansion(block.hash).len() == 256,
        block.difficulty <= 256,
        forall|i: int| 0 <= i < block.difficulty ==> binary_expansion(block.hash)[i] == '0',
{
    lemma_block_hash_shape(
        block.timestamp,
        block.last_hash,
        block.data,
        block.difficulty,
        block.nonce,
    );
    lemma_binary_expansion_len(block.hash);
}

} // verus!
