//! A walk through the chain rule: of two chains, the longer valid one wins.

use crate::chain::block::{search_result, BlockView};
use crate::chain::block_chain::{
    lemma_linked_is_valid, lemma_valid_chain_extendable, linked, valid_chain, BlockChain,
};
use vstd::prelude::*;

verus! {

/// Whether every block of `chain` from position `from` on holds the payload
/// `data`.
pub open spec fn holds_from(chain: Seq<BlockView>, from: int, data: Seq<char>) -> bool {
    forall|i: int| from <= i < chain.len() ==> (#[trigger] chain[i]).data == data
}

/// Whether the mining search for a block with the payload `data` on top of
/// the linked chain `chain` runs out of nonces under some readings of the
/// clock.
pub open spec fn stalled(chain: Seq<BlockView>, data: Seq<char>) -> bool {
    &&& linked(chain)
    &&& exists|times: Seq<nat>| #[trigger] search_result(chain.last(), data, times, None)
}

/// Mines one block on top of a linked chain.
fn grow(chain: &mut BlockChain, data: &str) -> (added: bool)
    requires
        linked(old(chain)@),
    ensures
        linked(final(chain)@),
        added ==> final(chain)@.drop_last() == old(chain)@ && final(chain)@.last().data == data@,
        added ==> final(chain)@.len() == old(chain)@.len() + 1,
        !added ==> final(chain)@ == old(chain)@ && stalled(old(chain)@, data@),
{
    proof {
        lemma_linked_is_valid(chain@);
        lemma_valid_chain_extendable(chain@, chain.chain.len() - 1);
    }
    chain.add_block(data)
}

/// Grows two chains side by side from the genesis block, ten blocks each
/// with the payload `data`, then the second by one block more, and replaces
/// the first by the second. Returns both chains, which are then the same
/// twelve blocks, or `None` where a mining search ran out of nonces on the
/// way. The replacement itself cannot fail: the second chain is the longer
/// one, and it is valid because it was mined block by block.
pub fn replace_chain() -> (chains: Option<(BlockChain, BlockChain)>)
    ensures
        chains matches Some((first, second)) ==> {
            &&& first@ == second@
            &&& first@.len() == 12
            &&& linked(first@)
            &&& valid_chain(first@)
            &&& holds_from(first@.take(11), 1, "data"@)
            &&& first@[11].data == "some more data"@
        },
        chains is None ==> exists|chain: Seq<BlockView>, data: Seq<char>|
            {
                &&& #[trigger] stalled(chain, data)
                &&& chain.len() <= 11
                &&& data == "data"@ || data == "some more data"@
            },
{
    let mut chain1 = BlockChain::new();
    let mut chain2 = BlockChain::new();

    let mut x: u32 = 0;
    while x < 10
        invariant
            x <= 10,
            linked(chain1@),
            linked(chain2@),
            chain1@.len() == 1 + x,
            chain2@.len() == 1 + x,
            holds_from(chain2@, 1, "data"@),
        decreases 10 - x,
    {
        if !grow(&mut chain1, "data") {
            assert(stalled(chain1@, "data"@));
            return None;
        }
        let ghost shorter = chain2@;
        if !grow(&mut chain2, "data") {
            assert(stalled(chain2@, "data"@));
            return None;
        }
        proof {
            assert forall|i: int| 1 <= i < chain2@.len() implies (#[trigger] chain2@[i]).data
                == "data"@ by {
                if i < shorter.len() {
                    assert(chain2@[i] == shorter[i]);
                }
            }
        }
        x += 1;
    }

    let ghost eleven = chain2@;
    if !grow(&mut chain2, "some more data") {
        assert(stalled(chain2@, "some more data"@));
        return None;
    }
    proof {
        assert(chain2@.take(11) =~= eleven);
        lemma_linked_is_valid(chain2@);
    }
    let incoming = chain2.clone();
    let replaced = chain1.replace_chain(incoming.chain);
    assert(replaced is Ok);
    match replaced {
        Ok(()) => Some((chain1, chain2)),
        Err(_) => None,
    }
}

} // verus!
