use clawsh::trie::{TrieNode, TRIE_ASCII_SIZE};

#[test]
fn auto_complete() {
    let mut trie: TrieNode<TRIE_ASCII_SIZE> = TrieNode::new();
    trie.insert("echo");
    trie.insert("exit");

    assert_eq!(
        trie.auto_complete("e"),
        Some(vec!["echo".into(), "exit".into()])
    );
    assert_eq!(trie.auto_complete("ech"), Some(vec!["echo".into()]));
}

#[test]
fn auto_complete_overlap() {
    let mut trie: TrieNode<TRIE_ASCII_SIZE> = TrieNode::new();
    trie.insert("xyz_dog");
    trie.insert("xyz_dog_owl");
    trie.insert("xyz_dog_owl_cow");

    assert_eq!(
        trie.auto_complete("xyz_"),
        Some(vec![
            "xyz_dog".into(),
            "xyz_dog_owl".into(),
            "xyz_dog_owl_cow".into()
        ])
    );
}
