use pow_chain::chain::block::{is_valid_block, mine_block, Block};
use pow_chain::chain::block_chain::{validate_chain, BlockChain, ChainReplaceError};
use pow_chain::demo::replace_chain;

const GENESIS_HASH: &str = "GENSIS_HASH";
const FIRST_HASH: &str = "2e17197239f01e6463e125981808f416b4472b2dd5363acd0b745d23613ce6b0";
const SECOND_HASH: &str = "0cd86987935b51a04dd551c3575eccef8ff2bdf0621fc64bf4f36a70391f8ddb";
const THIRD_HASH: &str = "07417713a672f4f907a489cd1db6606001735ad00572593573c82555880172f8";
const OTHER_FIRST_HASH: &str = "13fb394ee5cbd0585c46f7e779fb3de7aaea0f36c75db0f35a00690ad70c5fe5";

fn block(
    timestamp: u128,
    last_hash: &str,
    hash: &str,
    data: &str,
    difficulty: u32,
    nonce: u32,
    number: u128,
) -> Block {
    Block::new(
        timestamp,
        String::from(last_hash),
        String::from(hash),
        String::from(data),
        difficulty,
        nonce,
        number,
    )
}

fn first_block() -> Block {
    block(1000, GENESIS_HASH, FIRST_HASH, "data", 2, 2, 1)
}

fn second_block() -> Block {
    block(2000, FIRST_HASH, SECOND_HASH, "data", 3, 11, 2)
}

fn third_block() -> Block {
    block(3000, SECOND_HASH, THIRD_HASH, "data", 4, 14, 3)
}

fn other_first_block() -> Block {
    block(2000, GENESIS_HASH, OTHER_FIRST_HASH, "other", 2, 5, 1)
}

fn fixed_chain() -> Vec<Block> {
    vec![Block::genesis(), first_block(), second_block(), third_block()]
}

fn mined_chain(blocks: usize, data: &str) -> BlockChain {
    let mut chain = BlockChain::new();
    let mut i: usize = 0;
    while i < blocks {
        assert!(chain.add_block(data));
        i += 1;
    }
    chain
}

#[test]
fn new_chain_holds_the_genesis_block_alone() {
    let chain = BlockChain::new();
    assert_eq!(chain.chain.len(), 1);
    assert_eq!(chain.chain[0], Block::genesis());
    assert!(validate_chain(&chain.chain));
}

#[test]
fn add_block_appends_a_successor_of_the_last_block() {
    let mut chain = BlockChain::new();
    assert!(chain.add_block("first"));
    assert_eq!(chain.chain.len(), 2);
    assert_eq!(chain.chain[0], Block::genesis());
    assert_eq!(chain.chain[1].data(), "first");
    assert_eq!(chain.chain[1].number(), 1);
    assert_eq!(chain.chain[1].last_hash(), "GENSIS_HASH");
    assert!(is_valid_block(&chain.chain[0], &chain.chain[1]));
    assert!(chain.add_block("second"));
    assert_eq!(chain.chain.len(), 3);
    assert_eq!(chain.chain[2].data(), "second");
    assert_eq!(chain.chain[2].number(), 2);
    assert_eq!(chain.chain[2].last_hash(), chain.chain[1].hash());
    assert!(is_valid_block(&chain.chain[1], &chain.chain[2]));
}

#[test]
fn a_chain_grown_by_add_block_is_valid_at_every_length() {
    let mut chain = BlockChain::new();
    let mut i: usize = 0;
    while i < 8 {
        assert!(validate_chain(&chain.chain));
        assert!(chain.add_block("payload"));
        i += 1;
        assert_eq!(chain.chain.len(), i + 1);
        assert_eq!(chain.chain[i].number(), i as u128);
    }
    assert!(validate_chain(&chain.chain));
}

#[test]
fn neighbours_in_a_mined_chain_differ_in_difficulty_by_at_most_one() {
    let chain = mined_chain(8, "payload");
    let mut i: usize = 1;
    while i < chain.chain.len() {
        let before: u32 = chain.chain[i - 1].difficulty();
        let after: u32 = chain.chain[i].difficulty();
        assert!(after >= 1);
        assert!(before.abs_diff(after) <= 1);
        i += 1;
    }
}

#[test]
fn validate_chain_accepts_the_genesis_block_alone() {
    assert!(validate_chain(&vec![Block::genesis()]));
}

#[test]
fn validate_chain_accepts_blocks_that_follow_one_another() {
    assert!(validate_chain(&fixed_chain()));
    assert!(validate_chain(&vec![Block::genesis(), first_block()]));
}

#[test]
fn validate_chain_rejects_an_empty_sequence() {
    assert!(!validate_chain(&Vec::new()));
}

#[test]
fn validate_chain_rejects_a_first_block_that_is_not_genesis() {
    assert!(!validate_chain(&vec![first_block(), second_block()]));
    let almost = block(0, "GENSIS_LAST_HASH", "GENSIS_HASH", "GENESIS", 1, 2, 0);
    assert!(!validate_chain(&vec![almost]));
    let renamed = block(0, "GENSIS_LAST_HASH", "GENSIS_HASH", "genesis", 1, 1, 0);
    assert!(!validate_chain(&vec![renamed, first_block()]));
    let mut renumbered = Block::genesis();
    renumbered.number = 1;
    assert!(!validate_chain(&vec![renumbered]));
}

#[test]
fn validate_chain_rejects_a_block_that_does_not_follow() {
    assert!(!validate_chain(&vec![Block::genesis(), second_block()]));
    let forged = block(2000, FIRST_HASH, SECOND_HASH, "Data", 3, 11, 2);
    assert!(!validate_chain(&vec![Block::genesis(), first_block(), forged, third_block()]));
    let mut late = fixed_chain();
    late[3] = block(3000, SECOND_HASH, THIRD_HASH, "data", 4, 15, 3);
    assert!(!validate_chain(&late));
}

#[test]
fn validate_chain_looks_for_the_predecessor_where_the_number_points() {
    let genesis = Block::genesis;
    assert!(validate_chain(&vec![genesis(), first_block(), other_first_block()]));
    assert!(validate_chain(&vec![genesis(), first_block(), second_block(), other_first_block()]));
    assert!(!validate_chain(&vec![genesis(), other_first_block(), second_block(), first_block()]));
}

#[test]
fn validate_chain_rejects_a_number_that_points_outside_the_sequence() {
    let mut far = first_block();
    far.number = 3;
    assert!(!validate_chain(&vec![Block::genesis(), far]));
    let mut huge = first_block();
    huge.number = u128::MAX;
    assert!(!validate_chain(&vec![Block::genesis(), huge]));
    assert!(!validate_chain(&vec![Block::genesis(), second_block()]));
}

#[test]
fn validate_chain_rejects_a_later_block_with_number_zero() {
    assert!(!validate_chain(&vec![Block::genesis(), Block::genesis()]));
    assert!(!validate_chain(&vec![Block::genesis(), first_block(), Block::genesis()]));
}

#[test]
fn replace_chain_takes_a_longer_valid_chain() {
    let mut chain = BlockChain::new();
    assert_eq!(chain.replace_chain(fixed_chain()), Ok(()));
    assert_eq!(chain.chain, fixed_chain());
}

#[test]
fn replace_chain_refuses_a_chain_of_equal_length() {
    let mut chain = BlockChain::new();
    assert_eq!(chain.replace_chain(vec![Block::genesis()]), Err(ChainReplaceError::TooShort));
    assert_eq!(chain.chain, vec![Block::genesis()]);
}

#[test]
fn replace_chain_refuses_a_shorter_chain() {
    let mut chain = BlockChain::new();
    assert_eq!(chain.replace_chain(fixed_chain()), Ok(()));
    let shorter = vec![Block::genesis(), first_block()];
    assert_eq!(chain.replace_chain(shorter), Err(ChainReplaceError::TooShort));
    assert_eq!(chain.replace_chain(Vec::new()), Err(ChainReplaceError::TooShort));
    assert_eq!(chain.chain, fixed_chain());
}

#[test]
fn replace_chain_refuses_a_longer_chain_that_is_not_valid() {
    let mut chain = BlockChain::new();
    let mut broken = fixed_chain();
    broken[2] = block(2000, FIRST_HASH, SECOND_HASH, "data", 3, 12, 2);
    assert_eq!(chain.replace_chain(broken), Err(ChainReplaceError::Invalid));
    assert_eq!(chain.chain, vec![Block::genesis()]);
    let headless = vec![first_block(), second_block(), third_block()];
    assert_eq!(chain.replace_chain(headless), Err(ChainReplaceError::Invalid));
    assert_eq!(chain.chain, vec![Block::genesis()]);
}

#[test]
fn replace_chain_checks_the_length_before_the_blocks() {
    let mut chain = BlockChain::new();
    assert_eq!(chain.replace_chain(vec![first_block()]), Err(ChainReplaceError::TooShort));
    assert_eq!(chain.chain, vec![Block::genesis()]);
}

#[test]
fn replace_chain_accepts_exactly_the_longer_and_valid_chains() {
    let candidates: Vec<Vec<Block>> = vec![
        Vec::new(),
        vec![Block::genesis()],
        vec![Block::genesis(), first_block()],
        vec![Block::genesis(), second_block()],
        vec![Block::genesis(), first_block(), second_block()],
        vec![Block::genesis(), first_block(), third_block()],
        fixed_chain(),
        vec![first_block(), second_block(), third_block(), first_block(), second_block()],
    ];
    let currents: Vec<Vec<Block>> = vec![
        vec![Block::genesis()],
        vec![Block::genesis(), first_block()],
        vec![Block::genesis(), first_block(), second_block()],
    ];
    for current in currents.iter() {
        for candidate in candidates.iter() {
            let mut chain = BlockChain { chain: current.clone() };
            let longer: bool = candidate.len() > current.len();
            let valid: bool = validate_chain(candidate);
            let result = chain.replace_chain(candidate.clone());
            assert_eq!(result.is_ok(), longer && valid);
            if longer && valid {
                assert_eq!(&chain.chain, candidate);
            } else {
                assert_eq!(&chain.chain, current);
            }
            if !longer {
                assert_eq!(result, Err(ChainReplaceError::TooShort));
            } else if !valid {
                assert_eq!(result, Err(ChainReplaceError::Invalid));
            }
        }
    }
}

#[test]
fn two_chains_of_equal_length_do_not_replace_each_other_but_a_longer_one_does() {
    let mut a = mined_chain(10, "data");
    let mut b = mined_chain(10, "data");
    assert_eq!(a.chain.len(), 11);
    assert_eq!(b.chain.len(), 11);
    let before = a.chain.clone();
    assert_eq!(a.replace_chain(b.chain.clone()), Err(ChainReplaceError::TooShort));
    assert_eq!(a.chain, before);
    assert!(b.add_block("data"));
    assert_eq!(a.replace_chain(b.chain.clone()), Ok(()));
    assert_eq!(a.chain, b.chain);
    assert_eq!(a.chain.len(), 12);
}

#[test]
fn a_chain_with_a_block_mined_anew_in_its_middle_is_refused() {
    let valid = mined_chain(10, "data");
    assert_eq!(valid.chain.len(), 11);
    let mut corrupt = valid.clone();
    let tail = corrupt.chain[10].clone();
    corrupt.chain[1] = mine_block(&tail, String::from("data")).expect("a nonce is found");
    assert!(is_valid_block(&tail, &corrupt.chain[1]));
    assert!(!is_valid_block(&corrupt.chain[1], &corrupt.chain[2]));
    assert!(!validate_chain(&corrupt.chain));
    let mut short = BlockChain::new();
    assert_eq!(short.replace_chain(corrupt.chain.clone()), Err(ChainReplaceError::Invalid));
    assert_eq!(short.chain, vec![Block::genesis()]);
    let mut shorter = mined_chain(3, "data");
    let before = shorter.chain.clone();
    assert_eq!(shorter.replace_chain(corrupt.chain), Err(ChainReplaceError::Invalid));
    assert_eq!(shorter.chain, before);
    assert_eq!(short.replace_chain(valid.chain.clone()), Ok(()));
    assert_eq!(short.chain, valid.chain);
}

#[test]
fn a_cloned_chain_holds_the_same_blocks() {
    let chain = BlockChain { chain: fixed_chain() };
    let copy = chain.clone();
    assert_eq!(copy.chain, chain.chain);
    assert_eq!(copy.chain.len(), 4);
}

#[test]
fn pretty_print_of_a_new_chain() {
    assert_eq!(
        BlockChain::new().pretty_print(),
        "Block Chain: \n\nNumero de blocks: 1\nInfo de Block #0: \ntimestamp: 0\nlast_hash: GENSIS_LAST_HASH\nhash: GENSIS_HASH\ndata: GENESIS\ndifficulty: 1\nnonce: 1\n\n"
    );
}

#[test]
fn pretty_print_lists_the_blocks_in_order() {
    let chain = BlockChain { chain: vec![Block::genesis(), first_block()] };
    let mut expected = String::from("Block Chain: \n\nNumero de blocks: 2\n");
    expected.push_str(&Block::genesis().pretty_print());
    expected.push_str("\n");
    expected.push_str(&first_block().pretty_print());
    expected.push_str("\n");
    assert_eq!(chain.pretty_print(), expected);
    assert!(expected.ends_with(
        "Info de Block #1: \ntimestamp: 1000\nlast_hash: GENSIS_HASH\nhash: 2e17197239f01e6463e125981808f416b4472b2dd5363acd0b745d23613ce6b0\ndata: data\ndifficulty: 2\nnonce: 2\n\n"
    ));
}

#[test]
fn pretty_print_of_an_empty_chain_counts_no_block() {
    let chain = BlockChain { chain: Vec::new() };
    assert_eq!(chain.pretty_print(), "Block Chain: \n\nNumero de blocks: 0\n");
}

#[test]
fn each_error_has_its_message() {
    assert_eq!(
        ChainReplaceError::TooShort.message(),
        "El chain que viene tiene que ser mas grande."
    );
    assert_eq!(ChainReplaceError::Invalid.message(), "El chain no es valido.");
}

#[test]
fn the_walk_through_ends_with_two_equal_chains_of_twelve_blocks() {
    let (first, second) = replace_chain().expect("every search finds a nonce");
    assert_eq!(first.chain.len(), 12);
    assert_eq!(first.chain, second.chain);
    assert!(validate_chain(&first.chain));
    assert_eq!(first.chain[0], Block::genesis());
    assert_eq!(first.chain[10].data(), "data");
    assert_eq!(first.chain[11].data(), "some more data");
    assert_eq!(first.chain[11].number(), 11);
}
