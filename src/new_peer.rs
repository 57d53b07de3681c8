//! The group-chat message that announces a new peer to everyone in the chat.
//!
//! Serialized form, 76 bytes, integers big-endian:
//!
//! Length    | Content
//! --------- | ------
//! `1`       | `0x63`
//! `2`       | `group number`
//! `2`       | `peer number`
//! `4`       | `message number`
//! `1`       | `0x10`
//! `2`       | `peer number`
//! `32`      | Long term PK
//! `32`      | DHT PK
use vstd::prelude::*;

use crate::binary_io::{
    be_u16_at, be_u16_bytes, be_u32_at, be_u32_bytes, lemma_be_u16_round_trip,
    lemma_be_u32_round_trip, read_be_u16, read_be_u32, write_be_u16, write_be_u32, DecodeError,
    EncodeError,
};
use crate::crypto_core::{PublicKey, PUBLICKEYBYTES};

verus! {

/// Tag byte that starts the packet.
pub const NEW_PEER_TAG: u8 = 0x63;

/// Tag byte of the inner message kind.
pub const NEW_PEER_INNER_TAG: u8 = 0x10;

/// Length of the serialized form.
pub const NEW_PEER_SIZE: usize = 76;

/// Tells everyone in a group chat about a new peer. The peer who invited the
/// joining peer sends it.
#[derive(Clone, Copy, Debug)]
pub struct NewPeer {
    group_number: u16,
    peer_number: u16,
    message_number: u32,
    new_peer_number: u16,
    long_term_pk: PublicKey,
    dht_pk: PublicKey,
}

/// The fields of a `NewPeer`, with each key as its bytes.
pub struct NewPeerView {
    pub group_number: u16,
    pub peer_number: u16,
    pub message_number: u32,
    pub new_peer_number: u16,
    pub long_term_pk: Seq<u8>,
    pub dht_pk: Seq<u8>,
}

impl NewPeerView {
    /// Both keys have the length of a key.
    pub open spec fn wf(self) -> bool {
        &&& self.long_term_pk.len() == PUBLICKEYBYTES
        &&& self.dht_pk.len() == PUBLICKEYBYTES
    }

    /// The one serialized form of the value.
    pub open spec fn encoding(self) -> Seq<u8> {
        seq![NEW_PEER_TAG] + be_u16_bytes(self.group_number) + be_u16_bytes(self.peer_number)
            + be_u32_bytes(self.message_number) + seq![NEW_PEER_INNER_TAG] + be_u16_bytes(
            self.new_peer_number,
        ) + self.long_term_pk + self.dht_pk
    }
}

/// What decoding `b` gives: the fields are read in order, and the first read
/// that fails decides the error.
pub open spec fn parse_new_peer(b: Seq<u8>) -> Result<NewPeerView, DecodeError> {
    if b.len() < 1 {
        Err(DecodeError::Truncated)
    } else if b[0] != NEW_PEER_TAG {
        Err(DecodeError::WrongTag)
    } else if b.len() < 10 {
        Err(DecodeError::Truncated)
    } else if b[9] != NEW_PEER_INNER_TAG {
        Err(DecodeError::WrongTag)
    } else if b.len() < NEW_PEER_SIZE {
        Err(DecodeError::Truncated)
    } else {
        Ok(
            NewPeerView {
                group_number: be_u16_at(b, 1),
                peer_number: be_u16_at(b, 3),
                message_number: be_u32_at(b, 5),
                new_peer_number: be_u16_at(b, 10),
                long_term_pk: b.subrange(12, 44),
                dht_pk: b.subrange(44, 76),
            },
        )
    }
}

impl View for NewPeer {
    type V = NewPeerView;

    closed spec fn view(&self) -> NewPeerView {
        NewPeerView {
            group_number: self.group_number,
            peer_number: self.peer_number,
            message_number: self.message_number,
            new_peer_number: self.new_peer_number,
            long_term_pk: self.long_term_pk@,
            dht_pk: self.dht_pk@,
        }
    }
}

impl PartialEq for NewPeer {
    fn eq(&self, o: &NewPeer) -> (r: bool)
        ensures
            r == (self@ == o@),
    {
        self.group_number == o.group_number && self.peer_number == o.peer_number
            && self.message_number == o.message_number && self.new_peer_number
            == o.new_peer_number && self.long_term_pk.eq(&o.long_term_pk) && self.dht_pk.eq(
            &o.dht_pk,
        )
    }
}

impl vstd::std_specs::cmp::PartialEqSpecImpl for NewPeer {
    open spec fn obeys_eq_spec() -> bool {
        true
    }

    open spec fn eq_spec(&self, o: &NewPeer) -> bool {
        self@ == o@
    }
}

impl Eq for NewPeer {
}

impl NewPeer {
    /// Create new NewPeer object.
    pub fn new(
        group_number: u16,
        peer_number: u16,
        message_number: u32,
        new_peer_number: u16,
        long_term_pk: PublicKey,
        dht_pk: PublicKey,
    ) -> (r: NewPeer)
        ensures
            r@ == (NewPeerView {
                group_number,
                peer_number,
                message_number,
                new_peer_number,
                long_term_pk: long_term_pk@,
                dht_pk: dht_pk@,
            }),
    {
        NewPeer {
            group_number,
            peer_number,
            message_number,
            new_peer_number,
            long_term_pk,
            dht_pk,
        }
    }

    /// Decodes a packet from the start of `input`; on success also gives the
    /// number of bytes it took, after which the next packet may start.
    pub fn from_bytes(input: &[u8]) -> (r: Result<(NewPeer, usize), DecodeError>)
        ensures
            match r {
                Ok((v, n)) => parse_new_peer(input@) == Ok::<NewPeerView, DecodeError>(v@) && n
                    == NEW_PEER_SIZE,
                Err(e) => parse_new_peer(input@) == Err::<NewPeerView, DecodeError>(e),
            },
    {
        let n = input.len();
        if n < 1 {
            return Err(DecodeError::Truncated);
        }
        if input[0] != NEW_PEER_TAG {
            return Err(DecodeError::WrongTag);
        }
        if n < 10 {
            return Err(DecodeError::Truncated);
        }
        let group_number = read_be_u16(input, 1);
        let peer_number = read_be_u16(input, 3);
        let message_number = read_be_u32(input, 5);
        if input[9] != NEW_PEER_INNER_TAG {
            return Err(DecodeError::WrongTag);
        }
        if n < 12 {
            return Err(DecodeError::Truncated);
        }
        let new_peer_number = read_be_u16(input, 10);
        let long_term_pk = match PublicKey::from_bytes(input, 12) {
            Ok(k) => k,
            Err(e) => return Err(e),
        };
        let dht_pk = match PublicKey::from_bytes(input, 44) {
            Ok(k) => k,
            Err(e) => return Err(e),
        };
        Ok(
            (
                NewPeer {
                    group_number,
                    peer_number,
                    message_number,
                    new_peer_number,
                    long_term_pk,
                    dht_pk,
                },
                NEW_PEER_SIZE,
            ),
        )
    }

    /// Writes the packet at `pos` of `buf` and gives the position after it.
    /// Where fewer than 76 bytes follow `pos`, nothing is written.
    pub fn to_bytes(&self, buf: &mut [u8], pos: usize) -> (r: Result<usize, EncodeError>)
        ensures
            r is Ok <==> pos + NEW_PEER_SIZE <= old(buf)@.len(),
            r matches Ok(end) ==> end == pos + NEW_PEER_SIZE && final(buf)@ == old(buf)@.subrange(
                0,
                pos as int,
            ) + self@.encoding() + old(buf)@.subrange(end as int, old(buf)@.len() as int),
            r matches Err(e) ==> e == EncodeError::InsufficientCapacity && final(buf)@ == old(
                buf,
            )@,
    {
        let n = buf.len();
        if n < pos || n - pos < NEW_PEER_SIZE {
            return Err(EncodeError::InsufficientCapacity);
        }
        let ghost start = buf@;
        let ghost p = pos as int;
        let ghost v = self@;
        proof { lemma_new_peer_wf(*self); }
        buf[pos] = NEW_PEER_TAG;
        write_be_u16(buf, pos + 1, self.group_number);
        let ghost b1 = buf@;
        write_be_u16(buf, pos + 3, self.peer_number);
        let ghost b3 = buf@;
        write_be_u32(buf, pos + 5, self.message_number);
        let ghost b5 = buf@;
        buf[pos + 9] = NEW_PEER_INNER_TAG;
        write_be_u16(buf, pos + 10, self.new_peer_number);
        let ghost b10 = buf@;
        self.long_term_pk.write_to(buf, pos + 12);
        let ghost b12 = buf@;
        self.dht_pk.write_to(buf, pos + 44);
        proof {
            let e = v.encoding();
            lemma_encoding_parts(v);
            assert(buf@.subrange(p + 1, p + 3) =~= b1.subrange(p + 1, p + 3));
            assert(buf@.subrange(p + 3, p + 5) =~= b3.subrange(p + 3, p + 5));
            assert(buf@.subrange(p + 5, p + 9) =~= b5.subrange(p + 5, p + 9));
            assert(buf@.subrange(p + 10, p + 12) =~= b10.subrange(p + 10, p + 12));
            assert(buf@.subrange(p + 12, p + 44) =~= b12.subrange(p + 12, p + 44));
            assert forall|j: int| p <= j < p + 76 implies buf@[j] == e[j - p] by {
                if 1 <= j - p < 3 {
                    assert(buf@[j] == buf@.subrange(p + 1, p + 3)[j - p - 1]);
                    assert(e[j - p] == e.subrange(1, 3)[j - p - 1]);
                } else if 3 <= j - p < 5 {
                    assert(buf@[j] == buf@.subrange(p + 3, p + 5)[j - p - 3]);
                    assert(e[j - p] == e.subrange(3, 5)[j - p - 3]);
                } else if 5 <= j - p < 9 {
                    assert(buf@[j] == buf@.subrange(p + 5, p + 9)[j - p - 5]);
                    assert(e[j - p] == e.subrange(5, 9)[j - p - 5]);
                } else if 10 <= j - p < 12 {
                    assert(buf@[j] == buf@.subrange(p + 10, p + 12)[j - p - 10]);
                    assert(e[j - p] == e.subrange(10, 12)[j - p - 10]);
                } else if 12 <= j - p < 44 {
                    assert(buf@[j] == buf@.subrange(p + 12, p + 44)[j - p - 12]);
                    assert(e[j - p] == e.subrange(12, 44)[j - p - 12]);
                } else if 44 <= j - p < 76 {
                    assert(buf@[j] == buf@.subrange(p + 44, p + 76)[j - p - 44]);
                    assert(e[j - p] == e.subrange(44, 76)[j - p - 44]);
                }
            }
            assert(buf@ =~= start.subrange(0, p) + e + start.subrange(p + 76, start.len() as int));
        }
        Ok(pos + NEW_PEER_SIZE)
    }
}

/// Decoding the encoding of a value, with any bytes after it, gives the value
/// back, and the encoding is always 76 bytes long.
pub proof fn lemma_new_peer_round_trip(v: NewPeerView, rest: Seq<u8>)
    requires
        v.wf(),
    ensures
        v.encoding().len() == NEW_PEER_SIZE,
        parse_new_peer(v.encoding() + rest) == Ok::<NewPeerView, DecodeError>(v),
{
    let b = v.encoding() + rest;
    lemma_be_u16_round_trip(v.group_number);
    lemma_be_u16_round_trip(v.peer_number);
    lemma_be_u32_round_trip(v.message_number);
    lemma_be_u16_round_trip(v.new_peer_number);
    assert(b.subrange(1, 3) =~= be_u16_bytes(v.group_number));
    assert(b.subrange(3, 5) =~= be_u16_bytes(v.peer_number));
    assert(b.subrange(5, 9) =~= be_u32_bytes(v.message_number));
    assert(b.subrange(10, 12) =~= be_u16_bytes(v.new_peer_number));
    assert(b.subrange(12, 44) =~= v.long_term_pk);
    assert(b.subrange(44, 76) =~= v.dht_pk);
    let p = parse_new_peer(b)->Ok_0;
    assert(p.long_term_pk =~= v.long_term_pk);
    assert(p.dht_pk =~= v.dht_pk);
}

/// Where each field stands in the encoding.
proof fn lemma_encoding_parts(v: NewPeerView)
    requires
        v.wf(),
    ensures
        v.encoding().len() == NEW_PEER_SIZE,
        v.encoding()[0] == NEW_PEER_TAG,
        v.encoding().subrange(1, 3) == be_u16_bytes(v.group_number),
        v.encoding().subrange(3, 5) == be_u16_bytes(v.peer_number),
        v.encoding().subrange(5, 9) == be_u32_bytes(v.message_number),
        v.encoding()[9] == NEW_PEER_INNER_TAG,
        v.encoding().subrange(10, 12) == be_u16_bytes(v.new_peer_number),
        v.encoding().subrange(12, 44) == v.long_term_pk,
        v.encoding().subrange(44, 76) == v.dht_pk,
{
    let e = v.encoding();
    assert(e.subrange(1, 3) =~= be_u16_bytes(v.group_number));
    assert(e.subrange(3, 5) =~= be_u16_bytes(v.peer_number));
    assert(e.subrange(5, 9) =~= be_u32_bytes(v.message_number));
    assert(e.subrange(10, 12) =~= be_u16_bytes(v.new_peer_number));
    assert(e.subrange(12, 44) =~= v.long_term_pk);
    assert(e.subrange(44, 76) =~= v.dht_pk);
}

/// Every value of the type has a well-formed view.
pub proof fn lemma_new_peer_wf(v: NewPeer)
    ensures
        v@.wf(),
{
}

/// Decoding rejects any input whose outer tag is not `0x63`, or whose inner
/// tag (its tenth byte) is not `0x10` after a correct outer tag.
pub proof fn lemma_new_peer_wrong_tag(b: Seq<u8>)
    requires
        (b.len() >= 1 && b[0] != NEW_PEER_TAG) || (b.len() >= 10 && b[0] == NEW_PEER_TAG && b[9]
            != NEW_PEER_INNER_TAG),
    ensures
        parse_new_peer(b) == Err::<NewPeerView, DecodeError>(DecodeError::WrongTag),
{
}

/// Decoding any proper prefix of an encoding fails as truncated.
pub proof fn lemma_new_peer_truncated(v: NewPeerView, k: int)
    requires
        v.wf(),
        0 <= k < NEW_PEER_SIZE,
    ensures
        parse_new_peer(v.encoding().subrange(0, k)) == Err::<NewPeerView, DecodeError>(
            DecodeError::Truncated,
        ),
{
    let e = v.encoding();
    let b = e.subrange(0, k);
    assert(e[0] == NEW_PEER_TAG);
    assert(e[9] == NEW_PEER_INNER_TAG);
    assert(e.len() == NEW_PEER_SIZE);
    if k >= 1 {
        assert(b[0] == e[0]);
    }
    if k >= 10 {
        assert(b[9] == e[9]);
    }
}

} // verus!
