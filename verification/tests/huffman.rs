use psx_core::huffman::assign_codes;
use psx_core::huffman::build_tree;
use psx_core::huffman::compress;
use psx_core::huffman::count_symbols;
use psx_core::huffman::len;
use psx_core::huffman::remove_prefix;
use psx_core::huffman::Entry;
use psx_core::huffman::Node;

#[test]
fn count_symbols_counts_in_ascending_order() {
    let input: Vec<u8> = vec![5, 3, 5, 5, 9, 3];
    let pairs = count_symbols(&input);
    assert_eq!(pairs.len(), 3);
    let expect = [(3u8, 2usize), (5, 3), (9, 1)];
    for (pair, (sym, count)) in pairs.iter().zip(expect.iter()) {
        match pair.node {
            Node::Leaf(s) => assert_eq!(s, *sym),
            Node::Branch(_, _) => panic!("a fresh count is a leaf"),
        }
        assert_eq!(pair.count, *count);
    }
}

#[test]
fn count_symbols_of_empty_input_is_empty() {
    let input: Vec<u8> = Vec::new();
    assert_eq!(count_symbols(&input).len(), 0);
}

#[test]
fn build_tree_folds_to_one_root_covering_everything() {
    let input: Vec<u8> = vec![1, 1, 1, 1, 2, 2, 3];
    let mut forest = count_symbols(&input);
    build_tree(&mut forest);
    assert_eq!(forest.len(), 1);
    assert_eq!(forest[0].count, input.len());
}

#[test]
fn assign_codes_extends_left_with_one_and_right_with_zero() {
    let tree: Node<u8> = Node::Branch(
        Box::new(Node::Leaf(b'a')),
        Box::new(Node::Branch(Box::new(Node::Leaf(b'b')), Box::new(Node::Leaf(b'c')))),
    );
    let entries = assign_codes(tree, None);
    assert_eq!(entries.len(), 3);
    assert_eq!(entries[0], Entry { symbol: b'a', code: 0b11 });
    assert_eq!(entries[1], Entry { symbol: b'b', code: 0b101 });
    assert_eq!(entries[2], Entry { symbol: b'c', code: 0b100 });
}

#[test]
fn len_counts_bits_below_the_marker() {
    assert_eq!(len(1), 0);
    assert_eq!(len(0b10), 1);
    assert_eq!(len(0b11), 1);
    assert_eq!(len(0b110), 2);
    assert_eq!(len(0x8000_0000), 31);
}

#[test]
fn remove_prefix_strips_the_marker_bit() {
    assert_eq!(remove_prefix(1).0, 0);
    assert_eq!(remove_prefix(0b110).0, 0b10);
    assert_eq!(remove_prefix(0b101).0, 0b01);
    assert_eq!(remove_prefix(0x8000_0001).0, 1);
}

#[test]
fn compress_packs_bits_from_the_top_of_each_word() {
    // 'a' -> bit 1, 'b' -> bit 0
    let entries = vec![Entry { symbol: b'a', code: 0b11 }, Entry { symbol: b'b', code: 0b10 }];
    let input = vec![b'a', b'a', b'b'];
    // bits 110 at the top of one zero-padded word: 0xC000_0000, little endian
    assert_eq!(compress(&entries, &input), vec![0x00, 0x00, 0x00, 0xC0]);
}

#[test]
fn compress_spills_across_word_boundaries() {
    // one symbol, three bits 111 per occurrence
    let entries = vec![Entry { symbol: b'x', code: 0b1111 }];
    let input = vec![b'x'; 11];
    // 33 one-bits: a full word of ones, then one bit at the next word's top
    assert_eq!(
        compress(&entries, &input),
        vec![0xFF, 0xFF, 0xFF, 0xFF, 0x00, 0x00, 0x00, 0x80],
    );
}

#[test]
fn compress_of_empty_input_is_empty() {
    let entries = vec![Entry { symbol: b'a', code: 0b11 }];
    let input: Vec<u8> = Vec::new();
    assert_eq!(compress(&entries, &input), Vec::<u8>::new());
}

#[test]
fn whole_pipeline_round() {
    let input: Vec<u8> = b"abracadabra".to_vec();
    let mut forest = count_symbols(&input);
    build_tree(&mut forest);
    assert_eq!(forest.len(), 1);
    let root = forest.pop().unwrap();
    assert_eq!(root.count, input.len());
    let entries = assign_codes(root.node, None);
    // one entry per distinct symbol: a, b, c, d, r
    assert_eq!(entries.len(), 5);
    for e in entries.iter() {
        assert!(e.code >= 2);
    }
    let packed = compress(&entries, &input);
    // the output is exactly the bit stream, padded to whole words
    let mut bits = 0usize;
    for s in input.iter() {
        let e = entries.iter().find(|e| e.symbol == *s).unwrap();
        bits += len(e.code);
    }
    assert_eq!(packed.len(), 4 * ((bits + 31) / 32));
}

#[test]
fn sort_entries_by_code_orders_the_table() {
    let mut entries = vec![
        Entry { symbol: b'c', code: 0b100 },
        Entry { symbol: b'a', code: 0b11 },
        Entry { symbol: b'b', code: 0b101 },
    ];
    psx_core::huffman::sort_entries_by_code(&mut entries);
    assert_eq!(entries, vec![
        Entry { symbol: b'a', code: 0b11 },
        Entry { symbol: b'c', code: 0b100 },
        Entry { symbol: b'b', code: 0b101 },
    ]);
}
