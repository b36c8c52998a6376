use load_balancer::algorithm::trie::{Trie, TrieNode};

#[test]
fn test_insertion() {
    let mut trie = Trie::new();
    trie.insert("tr");
    trie.insert("tri");
    trie.insert("trie");
    trie.insert("hello");

    assert!(trie.contains("tr"));
    assert!(trie.contains("tri"));
    assert!(trie.contains("trie"));
    assert!(trie.contains("hello"));
    assert!(!trie.contains("hell"));
}

#[test]
fn test_longest_prefix_sad_path() {
    let mut trie = Trie::new();
    trie.insert("tr");
    trie.insert("tri");
    trie.insert("trie");
    trie.insert("hello");

    assert_eq!(trie.longest_prefix("hello mark"), None);
}

#[test]
fn test_longest_prefix_happy_path() {
    let mut trie = Trie::new();
    trie.insert("tr");
    trie.insert("tri");
    trie.insert("trie");
    trie.insert("hello");

    assert_eq!(trie.longest_prefix("trie"), Some("trie".to_string()));
    assert_eq!(trie.longest_prefix("hello"), Some("hello".to_string()));
}

#[test]
fn test_trie_empty_word_and_prefix() {
    let mut trie = Trie::new();
    assert!(!trie.contains(""));
    assert!(!trie.contains("a"));
    assert_eq!(trie.longest_prefix(""), None);
    trie.insert("a");
    assert!(trie.contains("a"));
    assert_eq!(trie.longest_prefix(""), None);
    assert_eq!(trie.longest_prefix("a"), Some("a".to_string()));
    assert_eq!(trie.longest_prefix("ab"), None);
}

#[test]
fn test_trie_node_children() {
    let mut node = TrieNode::new();
    assert!(node.children().is_empty());
    assert!(!node.contains_key('x'));
    assert!(node.get_child('x').is_none());
    assert!(node.get_child_mut('x').is_none());
    node.children_mut().push(('x', TrieNode::new()));
    assert!(node.contains_key('x'));
    assert!(node.get_child('x').is_some());
    node.set_end();
    assert!(node.is_end);
}
