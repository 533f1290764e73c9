//! The packet by which a node announces a new block to a peer.
//!
//! On the wire the packet is 17 bytes: the packet type, a nonce of eight
//! bytes in big-endian order, and the eight bytes of the short block hash.

use crate::byte_order::{
    be_bytes, be_word, lemma_be_bytes_len, lemma_be_bytes_of_value, lemma_be_value_bound,
    lemma_be_value_of_bytes, lemma_byte_range_values, read_u64_at, read_u8_at, write_u64, write_u8,
};
use crate::error::NetworkErr;
use crate::random::random_u64;
use crate::types::ShortHash;
use vstd::prelude::*;

verus! {

/// The announcement of a block.
#[derive(Clone, Copy, Debug, PartialEq, Eq)]
pub struct AnnounceBlock {
    /// The short hash of the announced block.
    pub block_hash: ShortHash,
    /// The number that tells this announcement from others of the same block.
    pub nonce: u64,
}

/// The first byte of every encoded announcement.
pub const PACKET_TYPE: u8 = 10;

/// The length of an encoded announcement.
pub const PACKET_LEN: usize = 17;

impl AnnounceBlock {
    /// The bytes that stand for this packet on the wire.
    pub open spec fn encoding(self) -> Seq<u8> {
        seq![PACKET_TYPE] + be_bytes(self.nonce as nat, 8) + self.block_hash@
    }

    /// Whether `bytes` has the shape of an announcement: the right length and
    /// the right packet type.
    pub open spec fn well_formed(bytes: Seq<u8>) -> bool {
        bytes.len() == PACKET_LEN && bytes[0] == PACKET_TYPE
    }

    /// Whether `bytes`, of the right shape, carry the fields of this packet.
    pub open spec fn encoded_in(self, bytes: Seq<u8>) -> bool {
        &&& Self::well_formed(bytes)
        &&& self.nonce == be_word(bytes.subrange(1, 9))
        &&& self.block_hash@ == bytes.subrange(9, 17)
    }

    /// An announcement of the block with hash `block_hash`, under a nonce
    /// drawn at random.
    pub fn new(block_hash: ShortHash) -> (packet: AnnounceBlock)
        ensures
            packet.block_hash == block_hash,
    {
        Self::with_nonce(block_hash, random_u64())
    }

    /// An announcement of the block with hash `block_hash`, under `nonce`.
    pub fn with_nonce(block_hash: ShortHash, nonce: u64) -> (packet: AnnounceBlock)
        ensures
            packet == (AnnounceBlock { block_hash, nonce }),
    {
        AnnounceBlock { block_hash, nonce }
    }

    /// Encodes the packet.
    pub fn to_bytes(&self) -> (buffer: Vec<u8>)
        ensures
            buffer@ == self.encoding(),
    {
        let mut buffer: Vec<u8> = Vec::with_capacity(PACKET_LEN);
        write_u8(&mut buffer, PACKET_TYPE);
        write_u64(&mut buffer, self.nonce);
        buffer.extend_from_slice(self.block_hash.as_slice());
        assert(buffer@ =~= self.encoding());
        buffer
    }

    /// Decodes a packet. The bytes are accepted exactly when they are 17 and
    /// start with the packet type; the packet that comes back is then the one
    /// whose fields they carry.
    pub fn from_bytes(bin: &[u8]) -> (decoded: Result<AnnounceBlock, NetworkErr>)
        ensures
            decoded matches Ok(packet) ==> packet.encoded_in(bin@),
            decoded matches Err(e) ==> e == NetworkErr::BadFormat && !Self::well_formed(bin@),
    {
        let packet_type = match read_u8_at(bin, 0) {
            Some(byte) => byte,
            None => {
                return Err(NetworkErr::BadFormat);
            },
        };
        if packet_type != PACKET_TYPE {
            return Err(NetworkErr::BadFormat);
        }
        let nonce = match read_u64_at(bin, 1) {
            Some(word) => word,
            None => {
                return Err(NetworkErr::BadFormat);
            },
        };
        if bin.len() - 9 != 8 {
            return Err(NetworkErr::BadFormat);
        }
        let mut block_hash: ShortHash = [0u8; 8];
        let mut i: usize = 0;
        while i < 8
            invariant
                i <= 8,
                bin@.len() == 17,
                forall|j: int| 0 <= j < i ==> block_hash@[j] == bin@[9 + j],
            decreases 8 - i,
        {
            block_hash[i] = bin[9 + i];
            i = i + 1;
        }
        assert(block_hash@ =~= bin@.subrange(9, 17));
        Ok(AnnounceBlock { block_hash, nonce })
    }
}

/// Decoding the encoding of a packet gives the packet back: the encoding is
/// accepted, and the only packet whose fields it carries is the one encoded.
pub proof fn lemma_encoding_round_trip(packet: AnnounceBlock)
    ensures
        AnnounceBlock::well_formed(packet.encoding()),
        packet.encoded_in(packet.encoding()),
        forall|other: AnnounceBlock| other.encoded_in(packet.encoding()) ==> other == packet,
{
    let bytes = packet.encoding();
    lemma_be_bytes_len(packet.nonce as nat, 8);
    lemma_byte_range_values();
    lemma_be_value_of_bytes(packet.nonce as nat, 8);
    assert(bytes.subrange(1, 9) =~= be_bytes(packet.nonce as nat, 8));
    assert(bytes.subrange(9, 17) =~= packet.block_hash@);
    assert forall|other: AnnounceBlock| other.encoded_in(bytes) implies other == packet by {
        assert(other.block_hash@ == packet.block_hash@);
        assert(other.block_hash =~= packet.block_hash);
    }
}

/// Encoding the packet that a row of bytes decodes to gives the bytes back:
/// one packet has one encoding.
pub proof fn lemma_decoding_round_trip(packet: AnnounceBlock, bytes: Seq<u8>)
    requires
        packet.encoded_in(bytes),
    ensures
        packet.encoding() == bytes,
{
    let nonce_bytes = bytes.subrange(1, 9);
    lemma_be_value_bound(nonce_bytes);
    lemma_byte_range_values();
    lemma_be_bytes_of_value(nonce_bytes);
    assert(packet.encoding() =~= bytes);
}

/// Bytes that are cut short, too long, or start with another packet type are
/// not the encoding of any announcement.
pub proof fn lemma_malformed_is_no_encoding(bytes: Seq<u8>, packet: AnnounceBlock)
    requires
        bytes.len() != PACKET_LEN || bytes[0] != PACKET_TYPE,
    ensures
        bytes != packet.encoding(),
{
    lemma_be_bytes_len(packet.nonce as nat, 8);
}

} // verus!
