//! An append-only record chain: ordered records whose hash is a function of
//! the fields before it.
//!
//! A chain starts from a fixed genesis record and grows only through
//! [`Chain::add_block`], which stamps each record with the digest of its
//! index and roots; well-formedness pins every record's index to its
//! position.

use vstd::prelude::*;
use vstd::string::StringExecFns;
use crate::hashing::bytes_hex;
use crate::hashing::md5_of;
use crate::hashing::md5_hex;
use crate::numfmt::dec_str;
use crate::numfmt::push_dec;

verus! {

/// The mathematical content of one record.
#[verifier::ext_equal]
pub ghost struct BlockView {
    pub index: nat,
    pub data_root: Seq<char>,
    pub key_root: Seq<char>,
    pub validator: Seq<char>,
    pub hash: Seq<char>,
}

/// One record of a chain.
#[derive(Debug)]
pub struct Block {
    pub index: u64,
    pub data_root: String,
    pub key_root: String,
    pub validator: String,
    pub hash: String,
}

impl View for Block {
    type V = BlockView;

    open spec fn view(&self) -> BlockView {
        BlockView {
            index: self.index as nat,
            data_root: self.data_root@,
            key_root: self.key_root@,
            validator: self.validator@,
            hash: self.hash@,
        }
    }
}

impl Clone for Block {
    /// A copy with the same content.
    fn clone(&self) -> (r: Self)
        ensures
            r@ == self@,
    {
        Block {
            index: self.index,
            data_root: self.data_root.clone(),
            key_root: self.key_root.clone(),
            validator: self.validator.clone(),
            hash: self.hash.clone(),
        }
    }
}

/// The mathematical content of a chain.
#[verifier::ext_equal]
pub ghost struct ChainView {
    pub name: Seq<char>,
    pub blocks: Seq<BlockView>,
}

/// A named, ordered collection of records.
#[derive(Debug)]
pub struct Chain {
    pub name: String,
    pub blocks: Vec<Block>,
}

impl View for Chain {
    type V = ChainView;

    open spec fn view(&self) -> ChainView {
        ChainView { name: self.name@, blocks: self.blocks@.map_values(|b: Block| b@) }
    }
}

impl Clone for Chain {
    /// A copy with the same content.
    fn clone(&self) -> (r: Self)
        ensures
            r@ == self@,
    {
        let mut blocks: Vec<Block> = Vec::new();
        let mut i: usize = 0;
        while i < self.blocks.len()
            invariant
                i <= self.blocks@.len(),
                blocks@.len() == i,
                forall|j: int| 0 <= j < i ==> (#[trigger] blocks@[j])@ == self.blocks@[j]@,
            decreases self.blocks@.len() - i,
        {
            blocks.push(self.blocks[i].clone());
            i = i + 1;
        }
        let r = Chain { name: self.name.clone(), blocks };
        proof {
            assert forall|j: int| 0 <= j < r@.blocks.len() implies r@.blocks[j] == self@.blocks[j]
            by {
                assert(r.blocks@[j]@ == self.blocks@[j]@);
            }
            assert(r@ =~= self@);
        }
        r
    }
}

/// The preimage hashed into a record: the decimal index, then the two roots,
/// then the validator, with nothing between them.
pub open spec fn block_hash_input(
    index: nat,
    data_root: Seq<char>,
    key_root: Seq<char>,
    validator: Seq<char>,
) -> Seq<char> {
    dec_str(index) + data_root + key_root + validator
}

/// The hash stamped on a record: the MD5 digest of its preimage, in
/// hexadecimal.
pub open spec fn block_hash(
    index: nat,
    data_root: Seq<char>,
    key_root: Seq<char>,
    validator: Seq<char>,
) -> Seq<char> {
    bytes_hex(md5_of(block_hash_input(index, data_root, key_root, validator)))
}

/// The record every chain starts from.
pub open spec fn genesis_view() -> BlockView {
    BlockView {
        index: 0,
        data_root: "genesis"@,
        key_root: "genesis"@,
        validator: "system"@,
        hash: "genesis_hash"@,
    }
}

impl Chain {
    /// Every record's index is its position.
    pub open spec fn wf(self) -> bool {
        &&& self@.blocks.len() >= 1
        &&& forall|i: int|
            0 <= i < self@.blocks.len() ==> (#[trigger] self@.blocks[i]).index == i
    }

    /// A fresh chain holding only the genesis record.
    pub fn new(name: &str) -> (c: Chain)
        ensures
            c@.name == name@,
            c@.blocks =~= seq![genesis_view()],
            c.wf(),
    {
        let genesis = Block {
            index: 0,
            data_root: "genesis".to_owned(),
            key_root: "genesis".to_owned(),
            validator: "system".to_owned(),
            hash: "genesis_hash".to_owned(),
        };
        let mut blocks: Vec<Block> = Vec::new();
        blocks.push(genesis);
        let c = Chain { name: name.to_owned(), blocks };
        proof {
            assert(c@.blocks =~= seq![genesis_view()]);
        }
        c
    }

    /// The hash of the newest record.
    pub fn last_hash(&self) -> (h: String)
        requires
            self@.blocks.len() >= 1,
        ensures
            h@ == self@.blocks.last().hash,
    {
        self.blocks[self.blocks.len() - 1].hash.clone()
    }

    /// Append a record for the given roots and validator; its index is the
    /// old length and its hash is [`block_hash`] of its fields.
    pub fn add_block(&mut self, data_root: String, key_root: String, validator: String)
        requires
            old(self)@.blocks.len() < u64::MAX,
        ensures
            final(self)@.name == old(self)@.name,
            final(self)@.blocks =~= old(self)@.blocks.push(
                BlockView {
                    index: old(self)@.blocks.len(),
                    data_root: data_root@,
                    key_root: key_root@,
                    validator: validator@,
                    hash: block_hash(old(self)@.blocks.len(), data_root@, key_root@, validator@),
                },
            ),
            old(self).wf() ==> final(self).wf(),
    {
        let index: u64 = self.blocks.len() as u64;
        let mut input = String::new();
        push_dec(&mut input, index);
        input.append(data_root.as_str());
        input.append(key_root.as_str());
        input.append(validator.as_str());
        let hash = md5_hex(input.as_str());
        let block = Block { index, data_root, key_root, validator, hash };
        self.blocks.push(block);
        proof {
            assert(final(self)@.blocks =~= old(self)@.blocks.push(
                BlockView {
                    index: old(self)@.blocks.len(),
                    data_root: data_root@,
                    key_root: key_root@,
                    validator: validator@,
                    hash: block_hash(old(self)@.blocks.len(), data_root@, key_root@, validator@),
                },
            ));
        }
    }

    /// One line per record: `Block <index>: <hash>`.
    pub fn summary_lines(&self) -> (lines: Vec<String>)
        ensures
            lines@.len() == self@.blocks.len(),
            forall|i: int|
                0 <= i < lines@.len() ==> (#[trigger] lines@[i])@ == "Block "@ + dec_str(
                    self@.blocks[i].index,
                ) + ": "@ + self@.blocks[i].hash,
    {
        let mut lines: Vec<String> = Vec::new();
        let mut i: usize = 0;
        while i < self.blocks.len()
            invariant
                i <= self@.blocks.len(),
                lines@.len() == i,
                forall|j: int|
                    0 <= j < i ==> (#[trigger] lines@[j])@ == "Block "@ + dec_str(
                        self@.blocks[j].index,
                    ) + ": "@ + self@.blocks[j].hash,
            decreases self@.blocks.len() - i,
        {
            let mut line = "Block ".to_owned();
            push_dec(&mut line, self.blocks[i].index);
            line.append(": ");
            line.append(self.blocks[i].hash.as_str());
            lines.push(line);
            i = i + 1;
        }
        lines
    }
}

} // verus!
