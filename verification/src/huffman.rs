//! The build-time Huffman-style encoder: a standalone batch tool that
//! counts symbol frequencies, folds them into a code tree, assigns each
//! symbol a marker-prefixed code, and packs a symbol stream into 32-bit
//! words.
//!
//! Every code carries a leading 1 as a marker bit so that codes of
//! different lengths stay distinct (`0b10` and `0b100` differ where `0b0`
//! and `0b00` would not); the marker is stripped again when a code is
//! emitted into the output stream.

use vstd::prelude::*;
use vstd::arithmetic::div_mod::lemma_fundamental_div_mod;
use vstd::arithmetic::div_mod::lemma_fundamental_div_mod_converse;
use vstd::arithmetic::div_mod::lemma_small_mod;
use vstd::arithmetic::mul::lemma_mul_inequality;
use vstd::arithmetic::power2::lemma2_to64;
use vstd::arithmetic::power2::lemma_pow2_adds;
use vstd::arithmetic::power2::lemma_pow2_strictly_increases;
use vstd::arithmetic::power2::lemma_pow2_unfold;
use vstd::arithmetic::power2::pow2;
use vstd::bits::lemma_u32_shl_is_mul;
use vstd::bits::lemma_u32_shr_is_div;
use vstd::multiset::Multiset;
use vstd::seq_lib::lemma_multiset_commutative;

verus! {

/// A code tree: a leaf holds one symbol; a branch holds the two subtrees
/// its codes are extended from.
#[derive(Debug)]
pub enum Node<T> {
    Leaf(T),
    Branch(Box<Node<T>>, Box<Node<T>>),
}

/// A code tree (or a single leaf) together with the number of input
/// symbols it covers.
#[derive(Debug)]
pub struct SymbolCount {
    pub node: Node<u8>,
    pub count: usize,
}

/// One symbol with its assigned marker-prefixed code.
#[derive(Clone, Copy, PartialEq, Eq, Structural, Debug)]
pub struct Entry {
    pub symbol: u8,
    pub code: u32,
}

/// A code with the marker bit stripped. Without knowing its length such a
/// code cannot meaningfully be compared against another, so it is kept in
/// its own type.
#[derive(Clone, Copy, Debug)]
pub struct PrefixFreeCode(pub u32);

/// How often `sym` occurs in `s`.
pub open spec fn occurrences(s: Seq<u8>, sym: u8) -> nat
    decreases s.len(),
{
    if s.len() == 0 {
        0nat
    } else {
        occurrences(s.drop_last(), sym) + if s.last() == sym {
            1nat
        } else {
            0nat
        }
    }
}

/// The counting table over symbols `0 .. n`: one leaf entry per symbol
/// that occurs in the input, in ascending symbol order.
pub open spec fn count_entries_upto(input: Seq<u8>, n: int) -> Seq<SymbolCount>
    decreases n,
{
    if n <= 0 {
        Seq::<SymbolCount>::empty()
    } else {
        let sym = (n - 1) as u8;
        let rest = count_entries_upto(input, n - 1);
        if occurrences(input, sym) > 0 {
            rest.push(SymbolCount { node: Node::Leaf(sym), count: occurrences(input, sym) as usize })
        } else {
            rest
        }
    }
}

/// The symbols at the leaves of a tree, left to right.
pub open spec fn node_leaves<T>(n: Node<T>) -> Seq<T>
    decreases n,
{
    match n {
        Node::Leaf(t) => seq![t],
        Node::Branch(l, r) => node_leaves(*l) + node_leaves(*r),
    }
}

/// The bag of leaf symbols across a whole forest.
pub open spec fn forest_leaves(s: Seq<SymbolCount>) -> Multiset<u8>
    decreases s.len(),
{
    if s.len() == 0 {
        Multiset::<u8>::empty()
    } else {
        node_leaves(s[0].node).to_multiset().add(forest_leaves(s.drop_first()))
    }
}

/// The total symbol count across a whole forest.
pub open spec fn forest_count(s: Seq<SymbolCount>) -> int
    decreases s.len(),
{
    if s.len() == 0 {
        0int
    } else {
        s[0].count + forest_count(s.drop_first())
    }
}

proof fn lemma_forest_count_nonneg(s: Seq<SymbolCount>)
    ensures
        forest_count(s) >= 0,
    decreases s.len(),
{
    if s.len() > 0 {
        lemma_forest_count_nonneg(s.drop_first());
    }
}

proof fn lemma_forest_push(s: Seq<SymbolCount>, x: SymbolCount)
    ensures
        forest_leaves(s.push(x)) == forest_leaves(s).add(node_leaves(x.node).to_multiset()),
        forest_count(s.push(x)) == forest_count(s) + x.count,
    decreases s.len(),
{
    if s.len() == 0 {
        assert(s.push(x).drop_first() =~= Seq::<SymbolCount>::empty());
        assert(s.push(x)[0] == x);
        assert(forest_leaves(s.push(x)) == node_leaves(x.node).to_multiset().add(
            forest_leaves(s.push(x).drop_first()),
        ));
        assert(forest_count(s.push(x)) == x.count + forest_count(s.push(x).drop_first()));
        assert(forest_leaves(s.push(x).drop_first()) == Multiset::<u8>::empty());
        assert(forest_count(s.push(x).drop_first()) == 0);
        assert(node_leaves(x.node).to_multiset().add(Multiset::<u8>::empty()) =~= Multiset::<
            u8,
        >::empty().add(node_leaves(x.node).to_multiset()));
    } else {
        assert(s.push(x).drop_first() =~= s.drop_first().push(x));
        lemma_forest_push(s.drop_first(), x);
        assert(s.push(x)[0] == s[0]);
        let a = node_leaves(s[0].node).to_multiset();
        let b = forest_leaves(s.drop_first());
        let c = node_leaves(x.node).to_multiset();
        assert(a.add(b.add(c)) =~= (a.add(b)).add(c));
    }
}

proof fn lemma_forest_remove(s: Seq<SymbolCount>, i: int)
    requires
        0 <= i < s.len(),
    ensures
        forest_leaves(s) == forest_leaves(s.remove(i)).add(node_leaves(s[i].node).to_multiset()),
        forest_count(s) == forest_count(s.remove(i)) + s[i].count,
    decreases i,
{
    if i == 0 {
        assert(s.remove(0) =~= s.drop_first());
        let a = node_leaves(s[0].node).to_multiset();
        let b = forest_leaves(s.drop_first());
        assert(a.add(b) =~= b.add(a));
    } else {
        lemma_forest_remove(s.drop_first(), i - 1);
        assert(s.remove(i).drop_first() =~= s.drop_first().remove(i - 1));
        assert(s.remove(i)[0] == s[0]);
        assert(s.drop_first()[i - 1] == s[i]);
        let a = node_leaves(s[0].node).to_multiset();
        let b = forest_leaves(s.drop_first().remove(i - 1));
        let c = node_leaves(s[i].node).to_multiset();
        assert(a.add(b.add(c)) =~= (a.add(b)).add(c));
    }
}

/// How often `sym` occurs in the input.
fn count_occurrences(input: &Vec<u8>, sym: u8) -> (c: usize)
    ensures
        c == occurrences(input@, sym),
{
    let mut c: usize = 0;
    let mut i: usize = 0;
    while i < input.len()
        invariant
            i <= input@.len(),
            c <= i,
            c == occurrences(input@.take(i as int), sym),
        decreases input@.len() - i,
    {
        proof {
            assert(input@.take(i + 1).drop_last() =~= input@.take(i as int));
            assert(input@.take(i + 1).last() == input@[i as int]);
        }
        if input[i] == sym {
            c = c + 1;
        }
        i = i + 1;
    }
    proof {
        assert(input@.take(input@.len() as int) =~= input@);
    }
    c
}

/// Count the input's symbols: one leaf per symbol that occurs, with its
/// occurrence count, in ascending symbol order.
pub fn count_symbols(input: &Vec<u8>) -> (pairs: Vec<SymbolCount>)
    ensures
        pairs@ == count_entries_upto(input@, 256),
{
    let mut pairs: Vec<SymbolCount> = Vec::new();
    let mut sym: usize = 0;
    while sym < 256
        invariant
            sym <= 256,
            pairs@ == count_entries_upto(input@, sym as int),
        decreases 256 - sym,
    {
        let count = count_occurrences(input, sym as u8);
        if count > 0 {
            pairs.push(SymbolCount { node: Node::Leaf(sym as u8), count });
        }
        sym = sym + 1;
    }
    pairs
}

/// The index of a smallest count in the forest.
fn min_index(v: &Vec<SymbolCount>) -> (k: usize)
    requires
        v@.len() >= 1,
    ensures
        k < v@.len(),
        forall|j: int| 0 <= j < v@.len() ==> v@[k as int].count <= v@[j].count,
{
    let mut k: usize = 0;
    let mut i: usize = 1;
    while i < v.len()
        invariant
            k < i <= v@.len(),
            forall|j: int| 0 <= j < i ==> v@[k as int].count <= v@[j].count,
        decreases v@.len() - i,
    {
        if v[i].count < v[k].count {
            k = i;
        }
        i = i + 1;
    }
    k
}

/// Fold the forest into a single code tree: repeatedly merge the two
/// subtrees covering the fewest symbols under a fresh branch, until one
/// tree remains. The bag of leaf symbols and the total symbol count are
/// preserved, and the root's count is the whole input's length.
pub fn build_tree(leaves: &mut Vec<SymbolCount>)
    requires
        old(leaves)@.len() >= 1,
        forest_count(old(leaves)@) <= usize::MAX,
    ensures
        final(leaves)@.len() == 1,
        forest_leaves(final(leaves)@) == forest_leaves(old(leaves)@),
        final(leaves)@[0].count == forest_count(old(leaves)@),
{
    while leaves.len() > 1
        invariant
            leaves@.len() >= 1,
            forest_leaves(leaves@) == forest_leaves(old(leaves)@),
            forest_count(leaves@) == forest_count(old(leaves)@),
            forest_count(old(leaves)@) <= usize::MAX,
        decreases leaves@.len(),
    {
        let ghost s0 = leaves@;
        let i = min_index(leaves);
        let a = leaves.remove(i);
        proof {
            lemma_forest_remove(s0, i as int);
        }
        let ghost s1 = leaves@;
        let j = min_index(leaves);
        let b = leaves.remove(j);
        proof {
            lemma_forest_remove(s1, j as int);
            lemma_forest_count_nonneg(leaves@);
        }
        let count = a.count + b.count;
        let ghost la = node_leaves(a.node);
        let ghost lb = node_leaves(b.node);
        let node = Node::Branch(Box::new(a.node), Box::new(b.node));
        let ghost s2 = leaves@;
        leaves.push(SymbolCount { node, count });
        proof {
            let x = leaves@.last();
            assert(leaves@ == s2.push(x));
            lemma_forest_push(s2, x);
            assert(node_leaves(x.node) == la + lb);
            lemma_multiset_commutative(la, lb);
            let fl2 = forest_leaves(s2);
            assert(fl2.add(la.to_multiset().add(lb.to_multiset())) =~= (fl2.add(
                lb.to_multiset(),
            )).add(la.to_multiset()));
            assert(forest_leaves(leaves@) == forest_leaves(s0));
        }
    }
    proof {
        assert(leaves@.drop_first().len() == 0);
        assert(forest_count(leaves@) == leaves@[0].count + forest_count(leaves@.drop_first()));
    }
}

/// The codes a tree assigns under a given marker-prefixed suffix: a leaf
/// takes the suffix itself; a branch extends it with a 1 bit to the left
/// and a 0 bit to the right, left entries first.
pub open spec fn assigned_codes(root: Node<u8>, suffix: u32) -> Seq<Entry>
    decreases root,
{
    match root {
        Node::Leaf(s) => seq![Entry { symbol: s, code: suffix }],
        Node::Branch(l, r) => assigned_codes(*l, (suffix << 1) | 1) + assigned_codes(
            *r,
            suffix << 1,
        ),
    }
}

/// Walk the tree and assign every leaf its code. The top-level call passes
/// no suffix, which stands for the bare marker bit 1.
pub fn assign_codes(root: Node<u8>, suffix: Option<u32>) -> (entries: Vec<Entry>)
    ensures
        entries@ == assigned_codes(
            root,
            match suffix {
                None => 1u32,
                Some(s) => s,
            },
        ),
    decreases root,
{
    let suffix = match suffix {
        None => 1,
        Some(s) => s,
    };
    match root {
        Node::Leaf(t) => {
            let mut v: Vec<Entry> = Vec::new();
            v.push(Entry { symbol: t, code: suffix });
            proof {
                assert(v@ =~= seq![Entry { symbol: t, code: suffix }]);
            }
            v
        },
        Node::Branch(l, r) => {
            let mut left = assign_codes(*l, Some((suffix << 1) | 1));
            let mut right = assign_codes(*r, Some(suffix << 1));
            left.append(&mut right);
            left
        },
    }
}

/// Entries in nondecreasing code order.
pub open spec fn sorted_by_code(s: Seq<Entry>) -> bool {
    forall|i: int, j: int| 0 <= i <= j < s.len() ==> s[i].code <= s[j].code
}

/// The index of a smallest code in the table.
fn min_entry_index(v: &Vec<Entry>) -> (k: usize)
    requires
        v@.len() >= 1,
    ensures
        k < v@.len(),
        forall|j: int| 0 <= j < v@.len() ==> v@[k as int].code <= v@[j].code,
{
    let mut k: usize = 0;
    let mut i: usize = 1;
    while i < v.len()
        invariant
            k < i <= v@.len(),
            forall|j: int| 0 <= j < i ==> v@[k as int].code <= v@[j].code,
        decreases v@.len() - i,
    {
        if v[i].code < v[k].code {
            k = i;
        }
        i = i + 1;
    }
    k
}

/// Put the code table in nondecreasing code order, as it is written out.
/// The entries themselves are exactly the ones that came in.
pub fn sort_entries_by_code(entries: &mut Vec<Entry>)
    ensures
        final(entries)@.to_multiset() == old(entries)@.to_multiset(),
        sorted_by_code(final(entries)@),
{
    let mut out: Vec<Entry> = Vec::new();
    proof {
        broadcast use vstd::seq_lib::group_to_multiset_ensures;

        assert(out@.to_multiset().add(entries@.to_multiset()) =~= entries@.to_multiset());
    }
    while entries.len() > 0
        invariant
            out@.to_multiset().add(entries@.to_multiset()) == old(entries)@.to_multiset(),
            sorted_by_code(out@),
            forall|i: int, j: int|
                0 <= i < out@.len() && 0 <= j < entries@.len() ==> out@[i].code
                    <= entries@[j].code,
        decreases entries@.len(),
    {
        let ghost pre = entries@;
        let k = min_entry_index(entries);
        let e = entries.remove(k);
        let ghost pre_out = out@;
        out.push(e);
        proof {
            broadcast use vstd::seq_lib::group_to_multiset_ensures;

            assert(pre.contains(e)) by {
                assert(pre[k as int] == e);
            }
            assert(out@.to_multiset() =~= pre_out.push(e).to_multiset());
            assert(entries@.to_multiset() =~= pre.remove(k as int).to_multiset());
            assert(pre_out.to_multiset().insert(e).add(pre.to_multiset().remove(e))
                =~= pre_out.to_multiset().add(pre.to_multiset()));
            assert(out@.to_multiset().add(entries@.to_multiset()) =~= pre_out.to_multiset().add(
                pre.to_multiset(),
            ));
            assert forall|i: int, j: int|
                0 <= i < out@.len() && 0 <= j < entries@.len() implies out@[i].code
                <= entries@[j].code by {
                if j < k {
                    assert(entries@[j] == pre[j]);
                } else {
                    assert(entries@[j] == pre[j + 1]);
                }
            }
            assert forall|i: int, j: int|
                0 <= i <= j < out@.len() implies out@[i].code <= out@[j].code by {
                if j < out@.len() - 1 {
                    assert(out@[i] == out@.drop_last()[i]);
                }
            }
        }
    }
    *entries = out;
}

/// The bit length of a code below its leading marker bit: zero for the
/// bare marker, and one more for each halving above it.
pub open spec fn code_len(c: int) -> nat
    decreases c,
{
    if c < 2 {
        0nat
    } else {
        (1 + code_len(c / 2)) as nat
    }
}

/// The marker bit of a code with `code_len(c)` bits below it is exactly
/// the power of two at that position.
pub proof fn lemma_code_len_bounds(c: int)
    requires
        c >= 1,
    ensures
        pow2(code_len(c)) <= c < pow2(code_len(c) + 1),
    decreases c,
{
    if c < 2 {
        lemma2_to64();
    } else {
        lemma_code_len_bounds(c / 2);
        let k = code_len(c / 2);
        lemma_pow2_unfold(k + 1);
        lemma_pow2_unfold(k + 2);
        lemma_fundamental_div_mod(c, 2);
    }
}

/// A code held in a 32-bit word has at most 31 bits below its marker.
pub proof fn lemma_code_len_u32(c: u32)
    requires
        c >= 1,
    ensures
        code_len(c as int) <= 31,
{
    lemma_code_len_bounds(c as int);
    let k = code_len(c as int);
    if k > 31 {
        lemma2_to64();
        if k > 32 {
            lemma_pow2_strictly_increases(32, k);
        }
        assert(false);
    }
}

/// The number of bits a code's length prefix-free form occupies: the
/// length of the marker-prefixed code, minus the marker.
pub fn len(c: u32) -> (r: usize)
    requires
        c >= 1,
    ensures
        r == code_len(c as int),
        r <= 31,
{
    proof {
        lemma_code_len_u32(c);
    }
    let mut x = c;
    let mut r: usize = 0;
    while x >= 2
        invariant
            x >= 1,
            code_len(c as int) == r + code_len(x as int),
            code_len(c as int) <= 31,
        decreases x,
    {
        x = x / 2;
        r = r + 1;
    }
    r
}

/// Strip the marker bit off a code, leaving the prefix-free form that is
/// emitted into the output stream.
pub fn remove_prefix(c: u32) -> (r: PrefixFreeCode)
    requires
        c >= 1,
    ensures
        r.0 + pow2(code_len(c as int)) == c,
{
    let k = len(c);
    proof {
        lemma_code_len_bounds(c as int);
        lemma2_to64();
        if k < 31 {
            lemma_pow2_strictly_increases(k as nat, 31);
        }
        lemma_u32_shl_is_mul(1u32, k as u32);
        lemma_u32_shr_is_div(c, k as u32);
        lemma_pow2_unfold(k as nat + 1);
        lemma_fundamental_div_mod_converse(
            c as int,
            pow2(k as nat) as int,
            1,
            c - pow2(k as nat),
        );
        let kk: u32 = k as u32;
        assert(c & !(1u32 << kk) == c - (1u32 << kk)) by (bit_vector)
            requires
                kk < 32u32,
                (c >> kk) == 1u32,
        ;
    }
    PrefixFreeCode(c & !(1u32 << (k as u32)))
}

/// The bits of a code below its marker, most significant first.
pub open spec fn code_bits(c: int) -> Seq<bool>
    decreases c,
{
    if c < 2 {
        Seq::<bool>::empty()
    } else {
        code_bits(c / 2).push(c % 2 == 1)
    }
}

proof fn lemma_code_bits_len(c: int)
    ensures
        code_bits(c).len() == code_len(c),
    decreases c,
{
    if c >= 2 {
        lemma_code_bits_len(c / 2);
    }
}

/// The value of a bit string read most significant bit first.
pub open spec fn word_val(bits: Seq<bool>) -> int
    decreases bits.len(),
{
    if bits.len() == 0 {
        0int
    } else {
        word_val(bits.drop_last()) * 2 + (if bits.last() {
            1int
        } else {
            0int
        })
    }
}

proof fn lemma_word_val_bound(bits: Seq<bool>)
    ensures
        0 <= word_val(bits) < pow2(bits.len()),
    decreases bits.len(),
{
    if bits.len() == 0 {
        lemma2_to64();
    } else {
        lemma_word_val_bound(bits.drop_last());
        lemma_pow2_unfold(bits.len());
    }
}

proof fn lemma_word_val_append(a: Seq<bool>, b: Seq<bool>)
    ensures
        word_val(a + b) == word_val(a) * pow2(b.len()) + word_val(b),
    decreases b.len(),
{
    if b.len() == 0 {
        assert(a + b =~= a);
        lemma2_to64();
        assert(pow2(0) == 1);
        assert(word_val(b) == 0);
        assert(word_val(a + b) == word_val(a));
        assert(word_val(a) * pow2(b.len()) + word_val(b) == word_val(a) * 1);
    } else {
        let b2 = b.drop_last();
        let bit: int = if b.last() {
            1
        } else {
            0
        };
        assert((a + b).drop_last() =~= a + b2);
        assert((a + b).last() == b.last());
        lemma_word_val_append(a, b2);
        lemma_pow2_unfold(b.len());
        assert(word_val(a + b) == word_val(a + b2) * 2 + bit);
        assert((word_val(a) * pow2(b2.len()) + word_val(b2)) * 2 == (word_val(a) * pow2(
            b2.len(),
        )) * 2 + word_val(b2) * 2) by (nonlinear_arith);
        assert((word_val(a) * pow2(b2.len())) * 2 == word_val(a) * (pow2(b2.len()) * 2))
            by (nonlinear_arith);
        assert(pow2(b2.len()) * 2 == pow2(b.len()));
        assert(word_val(b) == word_val(b2) * 2 + bit);
        assert(word_val(a + b) == (word_val(a) * pow2(b2.len()) + word_val(b2)) * 2 + bit);
        assert(word_val(a + b) == word_val(a) * (pow2(b2.len()) * 2) + (word_val(b2) * 2 + bit));
        assert(word_val(a + b) == word_val(a) * pow2(b.len()) + word_val(b));
    }
}

/// A code's stripped form is exactly the value of its bits below the
/// marker.
proof fn lemma_code_bits_val(c: int)
    requires
        c >= 1,
    ensures
        word_val(code_bits(c)) == c - pow2(code_len(c)),
    decreases c,
{
    lemma_code_bits_len(c);
    if c < 2 {
        lemma2_to64();
    } else {
        lemma_code_bits_val(c / 2);
        lemma_code_bits_len(c / 2);
        lemma_pow2_unfold(code_len(c / 2) + 1);
        lemma_fundamental_div_mod(c, 2);
        let bit = c % 2 == 1;
        assert(code_bits(c) == code_bits(c / 2).push(bit));
        assert(code_bits(c / 2).push(bit).drop_last() =~= code_bits(c / 2));
        assert(code_bits(c / 2).push(bit).last() == bit);
    }
}

/// The code the table assigns to a symbol: the first matching entry's.
pub open spec fn code_of(entries: Seq<Entry>, sym: u8) -> u32
    decreases entries.len(),
{
    if entries.len() == 0 {
        0u32
    } else if entries[0].symbol == sym {
        entries[0].code
    } else {
        code_of(entries.drop_first(), sym)
    }
}

/// Some entry of the table covers the symbol.
pub open spec fn has_code(entries: Seq<Entry>, sym: u8) -> bool {
    exists|i: int| 0 <= i < entries.len() && entries[i].symbol == sym
}

proof fn lemma_code_of_found(entries: Seq<Entry>, sym: u8)
    requires
        has_code(entries, sym),
        forall|i: int| 0 <= i < entries.len() ==> (#[trigger] entries[i]).code >= 2,
    ensures
        code_of(entries, sym) >= 2,
    decreases entries.len(),
{
    let w = choose|i: int| 0 <= i < entries.len() && entries[i].symbol == sym;
    if entries[0].symbol != sym {
        assert(entries.drop_first()[w - 1] == entries[w]);
        lemma_code_of_found(entries.drop_first(), sym);
    }
}

/// The whole bit stream of the encoded input: each symbol's code bits in
/// input order.
pub open spec fn stream_bits(entries: Seq<Entry>, input: Seq<u8>) -> Seq<bool>
    decreases input.len(),
{
    if input.len() == 0 {
        Seq::<bool>::empty()
    } else {
        stream_bits(entries, input.drop_last()) + code_bits(code_of(entries, input.last()) as int)
    }
}

/// The bit stream packed into 32-bit words, most significant bit first,
/// with the final partial word padded with zeros at the bottom.
pub open spec fn packed_words(bits: Seq<bool>) -> Seq<u32>
    decreases bits.len(),
{
    if bits.len() == 0 {
        Seq::<u32>::empty()
    } else if bits.len() >= 32 {
        seq![word_val(bits.take(32)) as u32] + packed_words(bits.skip(32))
    } else {
        seq![(word_val(bits) * pow2((32 - bits.len()) as nat)) as u32]
    }
}

proof fn lemma_packed_append(a: Seq<bool>, b: Seq<bool>)
    requires
        a.len() % 32 == 0,
    ensures
        packed_words(a + b) == packed_words(a) + packed_words(b),
    decreases a.len(),
{
    if a.len() == 0 {
        assert(a + b =~= b);
        assert(packed_words(a) + packed_words(b) =~= packed_words(b));
    } else {
        assert((a + b).take(32) =~= a.take(32));
        assert((a + b).skip(32) =~= a.skip(32) + b);
        lemma_packed_append(a.skip(32), b);
        assert(packed_words(a) + packed_words(b) =~= seq![word_val(a.take(32)) as u32] + (
        packed_words(a.skip(32)) + packed_words(b)));
        if a.len() + b.len() < 32 {
            assert(false);
        }
    }
}

/// The four little-endian bytes of one word.
pub open spec fn word_bytes(w: u32) -> Seq<u8> {
    seq![
        (w & 0xFF) as u8,
        ((w >> 8u32) & 0xFF) as u8,
        ((w >> 16u32) & 0xFF) as u8,
        ((w >> 24u32) & 0xFF) as u8,
    ]
}

/// A word sequence flattened to its little-endian bytes.
pub open spec fn le_bytes(words: Seq<u32>) -> Seq<u8>
    decreases words.len(),
{
    if words.len() == 0 {
        Seq::<u8>::empty()
    } else {
        le_bytes(words.drop_last()) + word_bytes(words.last())
    }
}

/// Shifting left by `shu` keeps only the low `ssu` bits of the word, so
/// the bits above them may be reduced away first.
#[verifier::rlimit(100)]
proof fn lemma_shl_drops_high_bits(x: u32, ssu: u32, shu: u32)
    by (bit_vector)
    requires
        0u32 < ssu < 32u32,
        ssu + shu == 32u32,
    ensures
        x << shu == (x % (1u32 << ssu)) << shu,
{
}

/// With no carry across the occupied bits, bitwise or is addition: the
/// word's low `rem` bits are clear and the addend fits in them.
proof fn lemma_or_is_add(cw: u32, x: u32, rem: nat)
    requires
        rem <= 32,
        (cw as int) % (pow2(rem) as int) == 0,
        x < pow2(rem),
    ensures
        (cw | x) == cw + x,
{
    if rem == 32 {
        lemma2_to64();
        lemma_small_mod(cw as nat, pow2(32));
        assert(cw == 0);
        assert(0u32 | x == x) by (bit_vector);
    } else {
        lemma2_to64();
        if rem < 31 {
            lemma_pow2_strictly_increases(rem, 31);
        }
        lemma_u32_shl_is_mul(1u32, rem as u32);
        let remu: u32 = rem as u32;
        assert((cw | x) == cw + x) by (bit_vector)
            requires
                remu < 32u32,
                cw % (1u32 << remu) == 0u32,
                x < (1u32 << remu),
        ;
    }
}

/// The code the table assigns to `sym`: the first matching entry's, as
/// the table walk finds it.
fn find_code(entries: &Vec<Entry>, sym: u8) -> (c: u32)
    requires
        has_code(entries@, sym),
    ensures
        c == code_of(entries@, sym),
{
    let mut j: usize = 0;
    proof {
        assert(entries@.skip(0) =~= entries@);
    }
    while j < entries.len()
        invariant
            j <= entries@.len(),
            code_of(entries@, sym) == code_of(entries@.skip(j as int), sym),
            forall|i: int| 0 <= i < j ==> entries@[i].symbol != sym,
        decreases entries@.len() - j,
    {
        proof {
            assert(entries@.skip(j as int)[0] == entries@[j as int]);
            assert(entries@.skip(j as int).drop_first() =~= entries@.skip(j as int + 1));
        }
        if entries[j].symbol == sym {
            return entries[j].code;
        }
        j = j + 1;
    }
    proof {
        let w = choose|i: int| 0 <= i < entries@.len() && entries@[i].symbol == sym;
        assert(false);
    }
    0
}

/// Encode the input against the code table and pack the resulting bit
/// stream into 32-bit words, flattened to little-endian bytes. Every
/// input symbol must be covered by the table, and every table code must
/// carry at least one bit below its marker (a table built from a tree
/// with a single leaf has none and cannot be packed).
#[verifier::loop_isolation(false)]
#[verifier::rlimit(100)]
pub fn compress(entries: &Vec<Entry>, input: &Vec<u8>) -> (out: Vec<u8>)
    requires
        forall|i: int| 0 <= i < input@.len() ==> has_code(entries@, #[trigger] input@[i]),
        forall|i: int| 0 <= i < entries@.len() ==> (#[trigger] entries@[i]).code >= 2,
    ensures
        out@ == le_bytes(packed_words(stream_bits(entries@, input@))),
{
    let mut words: Vec<u32> = Vec::new();
    let mut current_word: u32 = 0;
    let mut remaining: usize = 32;
    let mut idx: usize = 0;
    let ghost mut done: Seq<bool> = Seq::<bool>::empty();
    let ghost mut partial: Seq<bool> = Seq::<bool>::empty();
    proof {
        assert(input@.take(0) =~= Seq::<u8>::empty());
        assert(done + partial =~= Seq::<bool>::empty());
        assert(words@ =~= packed_words(done));
    }
    while idx < input.len()
        invariant
            idx <= input@.len(),
            stream_bits(entries@, input@.take(idx as int)) == done + partial,
            words@ == packed_words(done),
            done.len() % 32 == 0,
            partial.len() <= 31,
            remaining == 32 - partial.len(),
            current_word as int == word_val(partial) * (pow2(remaining as nat) as int),
        decreases input@.len() - idx,
    {
        let sym = input[idx];
        let encoded = find_code(entries, sym);
        proof {
            lemma_code_of_found(entries@, sym);
            lemma_code_len_bounds(encoded as int);
            lemma_code_len_u32(encoded);
            lemma_code_bits_len(encoded as int);
            lemma_code_bits_val(encoded as int);
            lemma2_to64();
        }
        let l = len(encoded);
        let pf = remove_prefix(encoded).0;
        let ghost cb = code_bits(encoded as int);
        proof {
            assert(l >= 1);
            assert(input@.take(idx + 1).drop_last() =~= input@.take(idx as int));
            assert(input@.take(idx + 1).last() == input@[idx as int]);
            assert(stream_bits(entries@, input@.take(idx + 1)) == (done + partial) + cb);
            assert(pf as int == word_val(cb));
            lemma_word_val_bound(cb);
        }
        if remaining < l {
            // The code spans the word boundary: its top bits fill the
            // current word, the rest opens the next one.
            let second_size = l - remaining;
            let ghost head = cb.take(remaining as int);
            let ghost tail = cb.skip(remaining as int);
            let ghost full = partial + head;
            proof {
                assert(head + tail =~= cb);
                lemma_word_val_append(head, tail);
                lemma_word_val_bound(head);
                lemma_word_val_bound(tail);
                lemma_u32_shr_is_div(pf, second_size as u32);
                lemma_fundamental_div_mod_converse(
                    pf as int,
                    pow2(second_size as nat) as int,
                    word_val(head),
                    word_val(tail),
                );
            }
            let first_part = pf >> (second_size as u32);
            proof {
                lemma_word_val_append(partial, head);
                lemma_word_val_bound(full);
                vstd::arithmetic::div_mod::lemma_mod_multiples_basic(
                    word_val(partial),
                    pow2(remaining as nat) as int,
                );
                lemma_or_is_add(current_word, first_part, remaining as nat);
            }
            current_word = current_word | first_part;
            words.push(current_word);
            proof {
                lemma_packed_append(done, full);
                assert(full.take(32) =~= full);
                assert(full.skip(32) =~= Seq::<bool>::empty());
                assert(packed_words(full) =~= seq![word_val(full) as u32]);
                assert(word_val(full) as u32 == current_word);
                assert(words@ =~= packed_words(done) + packed_words(full));
            }
            let sh = (32 - second_size) as u32;
            proof {
                lemma2_to64();
                if second_size < 31 {
                    lemma_pow2_strictly_increases(second_size as nat, 31);
                }
                lemma_u32_shl_is_mul(1u32, second_size as u32);
                lemma_shl_drops_high_bits(pf, second_size as u32, sh);
                lemma_pow2_adds(second_size as nat, (32 - second_size) as nat);
                lemma_mul_inequality(
                    word_val(tail),
                    pow2(second_size as nat) - 1,
                    pow2((32 - second_size) as nat) as int,
                );
                assert((pow2(second_size as nat) - 1) * pow2((32 - second_size) as nat) == pow2(
                    32,
                ) - pow2((32 - second_size) as nat)) by (nonlinear_arith)
                    requires
                        pow2(second_size as nat) * pow2((32 - second_size) as nat) == pow2(32),
                ;
                lemma_u32_shl_is_mul(pf % (1u32 << (second_size as u32)), sh);
            }
            current_word = pf << sh;
            remaining = 32 - second_size;
            proof {
                assert((done + (partial + head)) + tail =~= (done + partial) + (head + tail));
                done = done + full;
                partial = tail;
            }
        } else if remaining == l {
            // The code exactly fills the current word.
            let ghost full = partial + cb;
            proof {
                lemma_word_val_append(partial, cb);
                lemma_word_val_bound(full);
                vstd::arithmetic::div_mod::lemma_mod_multiples_basic(
                    word_val(partial),
                    pow2(remaining as nat) as int,
                );
                lemma_or_is_add(current_word, pf, remaining as nat);
            }
            current_word = current_word | pf;
            words.push(current_word);
            proof {
                lemma_packed_append(done, full);
                assert(full.take(32) =~= full);
                assert(full.skip(32) =~= Seq::<bool>::empty());
                assert(packed_words(full) =~= seq![word_val(full) as u32]);
                assert(word_val(full) as u32 == current_word);
                assert(words@ =~= packed_words(done) + packed_words(full));
                assert(done + (partial + cb) =~= (done + partial) + cb);
                done = done + full;
                partial = Seq::<bool>::empty();
                assert(done + partial =~= done);
            }
            current_word = 0;
            remaining = 32;
        } else {
            // The code fits with room to spare: place it below the bits
            // already in the current word.
            let new_remaining = remaining - l;
            proof {
                lemma_pow2_adds(l as nat, new_remaining as nat);
                lemma_mul_inequality(
                    pf as int,
                    pow2(l as nat) - 1,
                    pow2(new_remaining as nat) as int,
                );
                assert((pow2(l as nat) - 1) * pow2(new_remaining as nat) == pow2(
                    remaining as nat,
                ) - pow2(new_remaining as nat)) by (nonlinear_arith)
                    requires
                        pow2(l as nat) * pow2(new_remaining as nat) == pow2(remaining as nat),
                ;
                lemma_u32_shl_is_mul(pf, new_remaining as u32);
                vstd::arithmetic::div_mod::lemma_mod_multiples_basic(
                    word_val(partial),
                    pow2(remaining as nat) as int,
                );
                lemma_or_is_add(current_word, pf << (new_remaining as u32), remaining as nat);
                lemma_word_val_append(partial, cb);
                assert(word_val(partial) * (pow2(remaining as nat) as int) == (word_val(partial)
                    * pow2(l as nat)) * pow2(new_remaining as nat)) by (nonlinear_arith)
                    requires
                        pow2(l as nat) * pow2(new_remaining as nat) == pow2(remaining as nat),
                ;
                assert((word_val(partial) * pow2(l as nat)) * pow2(new_remaining as nat)
                    + word_val(cb) * pow2(new_remaining as nat) == (word_val(partial) * pow2(
                    l as nat,
                ) + word_val(cb)) * pow2(new_remaining as nat)) by (nonlinear_arith);
            }
            remaining = new_remaining;
            current_word = current_word | (pf << (remaining as u32));
            proof {
                assert(done + (partial + cb) =~= (done + partial) + cb);
                partial = partial + cb;
            }
        }
        idx = idx + 1;
    }
    proof {
        assert(input@.take(input@.len() as int) =~= input@);
    }
    if remaining != 32 {
        proof {
            lemma_packed_append(done, partial);
            lemma_word_val_bound(partial);
            assert(packed_words(partial) =~= seq![
                (word_val(partial) * pow2((32 - partial.len()) as nat)) as u32,
            ]);
            assert((word_val(partial) * pow2((32 - partial.len()) as nat)) as u32
                == current_word);
        }
        words.push(current_word);
        proof {
            assert(words@ =~= packed_words(done) + packed_words(partial));
        }
    } else {
        proof {
            assert(partial.len() == 0);
            assert(done + partial =~= done);
        }
    }
    let mut out: Vec<u8> = Vec::new();
    let mut i: usize = 0;
    while i < words.len()
        invariant
            i <= words@.len(),
            out@ == le_bytes(words@.take(i as int)),
        decreases words@.len() - i,
    {
        let w = words[i];
        out.push((w & 0xFF) as u8);
        out.push(((w >> 8u32) & 0xFF) as u8);
        out.push(((w >> 16u32) & 0xFF) as u8);
        out.push(((w >> 24u32) & 0xFF) as u8);
        proof {
            assert(words@.take(i + 1).drop_last() =~= words@.take(i as int));
            assert(words@.take(i + 1).last() == words@[i as int]);
            assert(out@ =~= le_bytes(words@.take(i as int)) + word_bytes(w));
        }
        i = i + 1;
    }
    proof {
        assert(words@.take(words@.len() as int) =~= words@);
    }
    out
}

} // verus!
