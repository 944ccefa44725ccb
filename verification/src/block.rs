//! A standalone timestamped record sealed with a SHA-256 digest.

use vstd::prelude::*;
use vstd::string::StringExecFns;
use crate::clock::now_seconds;
use crate::hashing::bytes_hex;
use crate::hashing::sha256_of;
use crate::hashing::sha256_hex;
use crate::numfmt::dec_str;
use crate::numfmt::dec_str_signed;
use crate::numfmt::push_dec;
use crate::numfmt::push_dec_signed;

verus! {

/// A record that carries its predecessor's hash and a creation time.
#[derive(Debug)]
pub struct Block {
    pub index: u64,
    pub prev_hash: String,
    pub timestamp: i64,
    pub data_root: String,
    pub key_root: String,
    pub validator: String,
    pub hash: String,
}

/// The preimage sealed into a record: index, predecessor hash, creation
/// time, then the two roots, with nothing between them.
pub open spec fn sealed_input(
    index: nat,
    prev_hash: Seq<char>,
    timestamp: int,
    data_root: Seq<char>,
    key_root: Seq<char>,
) -> Seq<char> {
    dec_str(index) + prev_hash + dec_str_signed(timestamp) + data_root + key_root
}

impl Block {
    /// A record stamped with the given creation time; the hash is the
    /// SHA-256 digest of [`sealed_input`] over the other fields.
    pub fn new_at(
        index: u64,
        prev_hash: String,
        data_root: String,
        key_root: String,
        validator: String,
        timestamp: i64,
    ) -> (b: Block)
        ensures
            b.index == index,
            b.prev_hash == prev_hash,
            b.timestamp == timestamp,
            b.data_root == data_root,
            b.key_root == key_root,
            b.validator == validator,
            b.hash@ == bytes_hex(
                sha256_of(
                    sealed_input(
                        index as nat,
                        prev_hash@,
                        timestamp as int,
                        data_root@,
                        key_root@,
                    ),
                ),
            ),
    {
        let mut input = String::new();
        push_dec(&mut input, index);
        input.append(prev_hash.as_str());
        push_dec_signed(&mut input, timestamp);
        input.append(data_root.as_str());
        input.append(key_root.as_str());
        let hash = sha256_hex(input.as_str());
        Block { index, prev_hash, timestamp, data_root, key_root, validator, hash }
    }

    /// A record stamped with the current wall-clock second.
    pub fn new(
        index: u64,
        prev_hash: String,
        data_root: String,
        key_root: String,
        validator: String,
    ) -> (b: Block)
        ensures
            b.index == index,
            b.prev_hash == prev_hash,
            b.data_root == data_root,
            b.key_root == key_root,
            b.validator == validator,
            b.hash@ == bytes_hex(
                sha256_of(
                    sealed_input(
                        index as nat,
                        prev_hash@,
                        b.timestamp as int,
                        data_root@,
                        key_root@,
                    ),
                ),
            ),
    {
        let timestamp = now_seconds();
        Block::new_at(index, prev_hash, data_root, key_root, validator, timestamp)
    }
}

} // verus!
