//! The chain: a sequence of blocks that starts with the genesis block, grows
//! by mining, and gives way only to a longer chain that validates.

use crate::chain::block::{
    block_text, extendable, genesis_view, is_valid_block, lemma_valid_successor_work, mine_block,
    search_result, valid_successor, view_of, Block, BlockView,
};
use crate::text::{decimal_digits, decimal_string};
use vstd::prelude::*;

verus! {

/// The views of a sequence of blocks, in order.
pub open spec fn views(blocks: Seq<Block>) -> Seq<BlockView> {
    Seq::new(blocks.len(), |i: int| blocks[i]@)
}

/// Whether the block at position `i` is a valid successor of the block that
/// its number points at: the one at position `number - 1` of the same
/// sequence, which need not be position `i - 1`.
pub open spec fn has_valid_predecessor(chain: Seq<BlockView>, i: int) -> bool {
    let before = chain[i].number - 1;
    &&& 0 <= before < chain.len()
    &&& valid_successor(chain[before], chain[i])
}

/// The rule that a chain must meet to replace another: it starts with the
/// genesis block, and every later block is a valid successor of the block
/// that its number points at.
pub open spec fn valid_chain(chain: Seq<BlockView>) -> bool {
    &&& chain.len() > 0
    &&& chain[0] == genesis_view()
    &&& forall|i: int| 0 < i < chain.len() ==> has_valid_predecessor(chain, i)
}

/// Decides `valid_chain` for a sequence of blocks.
pub fn validate_chain(chain: &Vec<Block>) -> (valid: bool)
    ensures
        valid == valid_chain(views(chain@)),
{
    if chain.len() == 0 {
        return false;
    }
    if !(chain[0] == Block::genesis()) {
        return false;
    }
    let mut i: usize = 1;
    while i < chain.len()
        invariant
            1 <= i <= chain.len(),
            views(chain@)[0] == genesis_view(),
            forall|j: int| 0 < j < i ==> has_valid_predecessor(views(chain@), j),
        decreases chain.len() - i,
    {
        let block = &chain[i];
        let number: u128 = block.number();
        if number == 0 {
            assert(!has_valid_predecessor(views(chain@), i as int));
            return false;
        }
        let index: u128 = number - 1;
        if index >= chain.len() as u128 {
            assert(!has_valid_predecessor(views(chain@), i as int));
            return false;
        }
        let last_block = &chain[index as usize];
        if !is_valid_block(last_block, block) {
            assert(!has_valid_predecessor(views(chain@), i as int));
            return false;
        }
        i += 1;
    }
    true
}

/// Whether the block at position `i` is a valid successor of its left
/// neighbour, the block at position `i - 1`.
pub open spec fn follows_neighbour(chain: Seq<BlockView>, i: int) -> bool {
    valid_successor(chain[i - 1], chain[i])
}

/// A chain in which every block follows the one right before it: it starts
/// with the genesis block, and each later block is a valid successor of its
/// left neighbour. This is what mining on top of the genesis block builds.
pub open spec fn linked(chain: Seq<BlockView>) -> bool {
    &&& chain.len() > 0
    &&& chain[0] == genesis_view()
    &&& forall|i: int| 0 < i < chain.len() ==> follows_neighbour(chain, i)
}

/// A linked chain stays linked when a valid successor of its last block is
/// appended.
pub proof fn lemma_linked_push(chain: Seq<BlockView>, block: BlockView)
    requires
        linked(chain),
        valid_successor(chain.last(), block),
    ensures
        linked(chain.push(block)),
{
    let longer = chain.push(block);
    assert forall|i: int| 0 < i < longer.len() implies follows_neighbour(longer, i) by {
        if i < chain.len() {
            assert(follows_neighbour(chain, i));
        }
    }
}

/// Why a chain was not replaced.
#[derive(Clone, Copy, Debug, PartialEq, Eq, Structural)]
pub enum ChainReplaceError {
    /// The incoming chain is not longer than the present one.
    TooShort,
    /// The incoming chain is longer, but not valid.
    Invalid,
}

/// The words that tell why a chain was not replaced.
pub open spec fn error_text(error: ChainReplaceError) -> Seq<char> {
    match error {
        ChainReplaceError::TooShort => "El chain que viene tiene que ser mas grande."@,
        ChainReplaceError::Invalid => "El chain no es valido."@,
    }
}

impl ChainReplaceError {
    /// The error in words.
    pub fn message(&self) -> (text: &'static str)
        ensures
            text@ == error_text(*self),
    {
        match self {
            ChainReplaceError::TooShort => "El chain que viene tiene que ser mas grande.",
            ChainReplaceError::Invalid => "El chain no es valido.",
        }
    }
}

/// What replacing a chain of `current_len` blocks by `candidate` comes to.
pub open spec fn replace_outcome(current_len: nat, candidate: Seq<BlockView>) -> Result<
    (),
    ChainReplaceError,
> {
    if candidate.len() <= current_len {
        Err(ChainReplaceError::TooShort)
    } else if !valid_chain(candidate) {
        Err(ChainReplaceError::Invalid)
    } else {
        Ok(())
    }
}

/// The text that describes the blocks of a chain: the description of each
/// block, in order, each followed by an empty line.
pub open spec fn blocks_text(chain: Seq<BlockView>) -> Seq<char>
    decreases chain.len(),
{
    if chain.len() == 0 {
        Seq::empty()
    } else {
        blocks_text(chain.drop_last()) + block_text(chain.last()) + "\n"@
    }
}

/// The text that describes a chain: a heading, the number of blocks, and the
/// blocks.
pub open spec fn chain_text(chain: Seq<BlockView>) -> Seq<char> {
    "Block Chain: \n\nNumero de blocks: "@ + decimal_digits(chain.len()) + "\n"@ + blocks_text(
        chain,
    )
}

/// The blockchain.
#[derive(Debug)]
pub struct BlockChain {
    pub chain: Vec<Block>,
}

impl View for BlockChain {
    type V = Seq<BlockView>;

    open spec fn view(&self) -> Seq<BlockView> {
        views(self.chain@)
    }
}

impl BlockChain {
    /// Mines a block that holds `data` on top of the last block and appends
    /// it. Returns whether a block was appended: the chain stays as it was
    /// only where the mining search ran out of nonces.
    pub fn add_block(&mut self, data: &str) -> (added: bool)
        requires
            old(self).chain.len() > 0,
            extendable(old(self)@.last()),
        ensures
            added ==> {
                &&& final(self)@.len() == old(self)@.len() + 1
                &&& final(self)@.drop_last() == old(self)@
                &&& exists|times: Seq<nat>| #[trigger]
                    search_result(old(self)@.last(), data@, times, Some(final(self)@.last()))
                &&& valid_successor(old(self)@.last(), final(self)@.last())
                &&& final(self)@.last().data == data@
                &&& final(self)@.last().difficulty >= 1
            },
            !added ==> {
                &&& final(self).chain == old(self).chain
                &&& exists|times: Seq<nat>| #[trigger]
                    search_result(old(self)@.last(), data@, times, None)
            },
            linked(old(self)@) ==> linked(final(self)@) && valid_chain(final(self)@),
    {
        let last: usize = self.chain.len() - 1;
        let ghost before = self@;
        let ghost tip = self.chain[last as int]@;
        assert(before.last() == tip);
        let mined = mine_block(&self.chain[last], data.to_owned());
        let ghost times = choose|times: Seq<nat>| #[trigger]
            search_result(tip, data@, times, view_of(mined));
        match mined {
            Some(block) => {
                self.chain.push(block);
                proof {
                    assert(self@ =~= before.push(block@));
                    assert(self@.drop_last() =~= before);
                    assert(search_result(tip, data@, times, Some(self@.last())));
                    if linked(before) {
                        lemma_linked_push(before, block@);
                        lemma_linked_is_valid(self@);
                    }
                }
                true
            },
            None => {
                proof {
                    assert(search_result(tip, data@, times, None));
                    if linked(before) {
                        lemma_linked_is_valid(before);
                    }
                }
                false
            },
        }
    }

    /// A chain that holds the genesis block and nothing else.
    pub fn new() -> (fresh: BlockChain)
        ensures
            fresh@ == seq![genesis_view()],
            linked(fresh@),
            valid_chain(fresh@),
    {
        let mut chain: Vec<Block> = Vec::new();
        chain.push(Block::genesis());
        let fresh = BlockChain { chain };
        proof {
            assert(fresh@ =~= seq![genesis_view()]);
            lemma_linked_is_valid(fresh@);
        }
        fresh
    }

    /// A readable description of the chain, for the caller to print.
    pub fn pretty_print(&self) -> (text: String)
        ensures
            text@ == chain_text(self@),
    {
        let mut text = "Block Chain: \n\nNumero de blocks: ".to_owned();
        text.append(decimal_string(self.chain.len() as u128).as_str());
        text.append("\n");
        let ghost heading = text@;
        let mut i: usize = 0;
        while i < self.chain.len()
            invariant
                i <= self.chain.len(),
                text@ == heading + blocks_text(self@.take(i as int)),
            decreases self.chain.len() - i,
        {
            let block_text = self.chain[i].pretty_print();
            text.append(block_text.as_str());
            text.append("\n");
            proof {
                assert(self@.take(i + 1).drop_last() =~= self@.take(i as int));
                assert(text@ =~= heading + blocks_text(self@.take(i + 1)));
            }
            i += 1;
        }
        proof {
            assert(heading + blocks_text(Seq::<BlockView>::empty()) =~= heading);
            assert(self@.take(self@.len() as int) =~= self@);
        }
        text
    }

    /// Replaces the chain by `chain` where that one is longer and valid, and
    /// leaves it as it was where it is not.
    pub fn replace_chain(&mut self, chain: Vec<Block>) -> (result: Result<(), ChainReplaceError>)
        ensures
            result == replace_outcome(old(self)@.len(), views(chain@)),
            result is Ok <==> chain@.len() > old(self)@.len() && valid_chain(views(chain@)),
            result is Ok ==> final(self).chain == chain,
            result is Err ==> final(self).chain == old(self).chain,
            valid_chain(old(self)@) ==> valid_chain(final(self)@),
            linked(old(self)@) && linked(views(chain@)) ==> linked(final(self)@),
    {
        if chain.len() <= self.chain.len() {
            return Err(ChainReplaceError::TooShort);
        }
        if !validate_chain(&chain) {
            return Err(ChainReplaceError::Invalid);
        }
        self.chain = chain;
        Ok(())
    }
}

impl Clone for BlockChain {
    fn clone(&self) -> (copy: BlockChain)
        ensures
            copy@ == self@,
    {
        let mut chain: Vec<Block> = Vec::new();
        let mut i: usize = 0;
        while i < self.chain.len()
            invariant
                i <= self.chain.len(),
                chain.len() == i,
                views(chain@) == self@.take(i as int),
            decreases self.chain.len() - i,
        {
            let ghost copied = views(chain@);
            let block = self.chain[i].clone();
            chain.push(block);
            i += 1;
            proof {
                assert forall|j: int| 0 <= j < i implies views(chain@)[j] == self@[j] by {
                    if j < i - 1 {
                        assert(views(chain@)[j] == copied[j]);
                    }
                }
                assert(views(chain@) =~= self@.take(i as int));
            }
        }
        proof {
            assert(self@.take(self@.len() as int) =~= self@);
        }
        BlockChain { chain }
    }
}

/// In a linked chain every block stands at the position that its number
/// gives.
pub proof fn lemma_linked_numbers(chain: Seq<BlockView>, i: int)
    requires
        linked(chain),
        0 <= i < chain.len(),
    ensures
        chain[i].number == i,
    decreases i,
{
    if i > 0 {
        lemma_linked_numbers(chain, i - 1);
        assert(follows_neighbour(chain, i));
    }
}

/// A chain built by mining block after block on top of the genesis block is
/// valid: every linked chain passes the chain validation.
pub proof fn lemma_linked_is_valid(chain: Seq<BlockView>)
    requires
        linked(chain),
    ensures
        valid_chain(chain),
{
    assert forall|i: int| 0 < i < chain.len() implies has_valid_predecessor(chain, i) by {
        lemma_linked_numbers(chain, i);
        assert(follows_neighbour(chain, i));
    }
}

/// No chain is valid that is empty or starts with anything but the genesis
/// block.
pub proof fn lemma_valid_chain_starts_with_genesis(chain: Seq<BlockView>)
    requires
        chain.len() == 0 || chain[0] != genesis_view(),
    ensures
        !valid_chain(chain),
{
}

/// Every block of a valid chain that a `Vec` can hold can be mined on: its
/// difficulty is at most 256 and its number at most the length of the chain.
pub proof fn lemma_valid_chain_extendable(chain: Seq<BlockView>, i: int)
    requires
        valid_chain(chain),
        chain.len() <= usize::MAX,
        0 <= i < chain.len(),
    ensures
        chain[i].difficulty <= 256,
        chain[i].number <= chain.len(),
        extendable(chain[i]),
{
    if i > 0 {
        assert(has_valid_predecessor(chain, i));
        lemma_valid_successor_work(chain[chain[i].number - 1], chain[i]);
    }
}

} // verus!
