use swapd::chain::client::ChainError;
use swapd::chain::memchain::Chain;
use swapd::chain::types::{BlockHash, BlockHeader};

fn hash(height: u8) -> BlockHash {
    BlockHash::from_bytes([height; 32])
}

fn header(height: u8) -> BlockHeader {
    BlockHeader {
        hash: hash(height),
        height: height as u64,
        prev: hash(height - 1),
    }
}

#[test]
fn test_new_has_tip_base_and_block() {
    let header = header(1);
    let chain = Chain::new(header.clone());
    assert_eq!(chain.base().hash, header.hash);
    assert_eq!(chain.tip().hash, header.hash);
    assert!(chain.contains_block(&header.hash));
    assert_eq!(chain.get_block(&header.hash).unwrap(), header);
}

#[test]
fn test_append_success() {
    let base = header(1);
    let new_tip = header(2);
    let mut chain = Chain::new(base.clone());
    chain.append(new_tip.clone()).unwrap();
    assert_eq!(chain.tip().hash, new_tip.hash);
    assert_eq!(chain.base().hash, base.hash);
    assert_eq!(chain.get_block(&new_tip.hash).unwrap(), new_tip);
}

#[test]
fn test_append_failure() {
    let base = header(1);
    let new_tip = header(3);
    let mut chain = Chain::new(base.clone());
    let result = chain.append(new_tip.clone());
    assert!(matches!(result, Err(ChainError::InvalidChain)));
}

#[test]
fn test_prepend_success() {
    let tip = header(2);
    let new_base = header(1);
    let mut chain = Chain::new(tip.clone());
    chain.prepend(new_base.clone()).unwrap();
    assert_eq!(chain.tip().hash, tip.hash);
    assert_eq!(chain.base().hash, new_base.hash);
    assert_eq!(chain.get_block(&new_base.hash).unwrap(), new_base);
}

#[test]
fn test_prepend_failure() {
    let tip = header(3);
    let new_base = header(1);
    let mut chain = Chain::new(tip.clone());
    let result = chain.prepend(new_base.clone());
    assert!(matches!(result, Err(ChainError::InvalidChain)));
}

#[test]
fn test_rebase_success() {
    let base = Chain::try_from(vec![header(2), header(1)]).unwrap();
    let mut chain = Chain::try_from(vec![header(3), header(2)]).unwrap();
    chain.rebase(&base).unwrap();
    let blocks: Vec<_> = chain.iter_forwards();
    assert_eq!(blocks[0], header(1));
    assert_eq!(blocks[1], header(2));
    assert_eq!(blocks[2], header(3));

    let blocks: Vec<_> = chain.iter_backwards();
    assert_eq!(blocks[0], header(3));
    assert_eq!(blocks[1], header(2));
    assert_eq!(blocks[2], header(1));
}

#[test]
fn test_rebase_reorg_success() {
    let base = Chain::try_from(vec![header(3), header(2), header(1)]).unwrap();
    let mut reorg_header = header(3);
    reorg_header.hash = hash(4);
    let mut chain = Chain::try_from(vec![reorg_header.clone(), header(2)]).unwrap();
    chain.rebase(&base).unwrap();
    let blocks: Vec<_> = chain.iter_forwards();
    assert_eq!(blocks[0], header(1));
    assert_eq!(blocks[1], header(2));
    assert_eq!(blocks[2], reorg_header.clone());

    let blocks: Vec<_> = chain.iter_backwards();
    assert_eq!(blocks[0], reorg_header);
    assert_eq!(blocks[1], header(2));
    assert_eq!(blocks[2], header(1));
}

#[test]
fn test_retip_success() {
    let mut chain = Chain::try_from(vec![header(2), header(1)]).unwrap();
    let tip = Chain::try_from(vec![header(3), header(2)]).unwrap();
    chain.retip(&tip).unwrap();
    let blocks: Vec<_> = chain.iter_forwards();
    assert_eq!(blocks[0], header(1));
    assert_eq!(blocks[1], header(2));
    assert_eq!(blocks[2], header(3));

    let blocks: Vec<_> = chain.iter_backwards();
    assert_eq!(blocks[0], header(3));
    assert_eq!(blocks[1], header(2));
    assert_eq!(blocks[2], header(1));
}

#[test]
fn test_retip_reorg_success() {
    let mut chain = Chain::try_from(vec![header(3), header(2), header(1)]).unwrap();
    let mut reorg_header = header(3);
    reorg_header.hash = hash(4);
    let tip = Chain::try_from(vec![reorg_header.clone(), header(2)]).unwrap();
    chain.retip(&tip).unwrap();
    let blocks: Vec<_> = chain.iter_forwards();
    assert_eq!(blocks[0], header(1));
    assert_eq!(blocks[1], header(2));
    assert_eq!(blocks[2], reorg_header.clone());

    let blocks: Vec<_> = chain.iter_backwards();
    assert_eq!(blocks[0], reorg_header);
    assert_eq!(blocks[1], header(2));
    assert_eq!(blocks[2], header(1));
}
