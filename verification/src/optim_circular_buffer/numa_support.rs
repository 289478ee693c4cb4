//! The node mask that binds memory allocation to one NUMA node.

use vstd::prelude::*;

verus! {

/// Highest number of NUMA nodes a mask can name.
pub const MAX_NUMA_NODES: usize = 1024;

/// Number of 64-bit words in a mask.
pub const NODE_MASK_WORDS: usize = 16;

/// The memory policy that restricts allocation to the nodes of a mask.
pub const MPOL_BIND: i32 = 2;

/// A bind request for the memory policy call: the mask, one bit per node, and
/// the number of nodes it spans.
#[derive(Debug)]
pub struct NodeMask {
    pub words: Vec<u64>,
    pub maxnode: usize,
}

/// Whether `words` has the bit of `node` set.
pub open spec fn names_node(words: Seq<u64>, node: int) -> bool {
    (words[node / 64] >> ((node % 64) as u64)) & 1 == 1
}

/// Whether `words` is a full-size mask that names `node` and no other node.
pub open spec fn binds_only(words: Seq<u64>, node: int) -> bool {
    &&& words.len() == NODE_MASK_WORDS
    &&& forall|other: int| 0 <= other < MAX_NUMA_NODES ==> (names_node(words, other) <==> other == node)
}

/// The request that binds memory allocation to NUMA node `node`.
///
/// A node beyond the mask is refused with `"NUMA node out of range"`.
pub fn set_numa_node(node: usize) -> (result: Result<NodeMask, String>)
    ensures
        match result {
            Ok(mask) => {
                &&& node < MAX_NUMA_NODES
                &&& mask.maxnode == MAX_NUMA_NODES
                &&& binds_only(mask.words@, node as int)
            },
            Err(message) => {
                &&& node >= MAX_NUMA_NODES
                &&& message@ == "NUMA node out of range"@
            },
        },
{
    let mut words: Vec<u64> = Vec::new();
    while words.len() < NODE_MASK_WORDS
        invariant
            words@.len() <= NODE_MASK_WORDS,
            forall|w: int| 0 <= w < words@.len() ==> words@[w] == 0,
        decreases NODE_MASK_WORDS - words@.len(),
    {
        words.push(0);
    }
    let word_index = node / 64;
    let bit_index = node % 64;
    if word_index >= words.len() {
        return Err("NUMA node out of range".to_string());
    }
    let bit: u64 = 1u64 << (bit_index as u64);
    words[word_index] = words[word_index] | bit;
    proof {
        assert forall|other: int| 0 <= other < MAX_NUMA_NODES implies (names_node(words@, other)
            <==> other == node) by {
            let shift = (other % 64) as u64;
            let k = bit_index as u64;
            if other / 64 == word_index {
                assert(((0u64 | (1u64 << k)) >> shift) & 1 == 1 <==> shift == k) by (bit_vector)
                    requires
                        shift < 64,
                        k < 64,
                ;
            } else {
                assert((0u64 >> shift) & 1 == 0) by (bit_vector);
            }
        }
    }
    Ok(NodeMask { words, maxnode: MAX_NUMA_NODES })
}

} // verus!
