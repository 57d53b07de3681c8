//! The fixed-size public key that packets carry.
use vstd::prelude::*;

use crate::binary_io::DecodeError;

verus! {

/// Size in bytes of a public key.
pub const PUBLICKEYBYTES: usize = 32;

/// A public key: 32 bytes, compared by value.
#[derive(Clone, Copy, Debug)]
pub struct PublicKey(pub [u8; 32]);

impl View for PublicKey {
    type V = Seq<u8>;

    open spec fn view(&self) -> Seq<u8> {
        self.0@
    }
}

impl PartialEq for PublicKey {
    fn eq(&self, o: &PublicKey) -> (r: bool)
        ensures
            r == (self@ == o@),
    {
        let mut i: usize = 0;
        while i < PUBLICKEYBYTES
            invariant
                i <= PUBLICKEYBYTES,
                self@.len() == PUBLICKEYBYTES,
                o@.len() == PUBLICKEYBYTES,
                forall|j: int| 0 <= j < i ==> self@[j] == o@[j],
            decreases PUBLICKEYBYTES - i,
        {
            if self.0[i] != o.0[i] {
                return false;
            }
            i = i + 1;
        }
        assert(self@ =~= o@);
        true
    }
}

impl vstd::std_specs::cmp::PartialEqSpecImpl for PublicKey {
    open spec fn obeys_eq_spec() -> bool {
        true
    }

    open spec fn eq_spec(&self, o: &PublicKey) -> bool {
        self@ == o@
    }
}

impl Eq for PublicKey {
}

impl PublicKey {
    /// The key with the given bytes.
    pub fn from_slice(bytes: &[u8]) -> (r: Option<PublicKey>)
        ensures
            bytes@.len() == PUBLICKEYBYTES <==> r is Some,
            r matches Some(k) ==> k@ == bytes@,
    {
        if bytes.len() != PUBLICKEYBYTES {
            return None;
        }
        match PublicKey::from_bytes(bytes, 0) {
            Ok(k) => Some(k),
            Err(_) => None,
        }
    }

    /// Decodes the key in the 32 bytes that start at `pos`.
    pub fn from_bytes(input: &[u8], pos: usize) -> (r: Result<PublicKey, DecodeError>)
        ensures
            pos + PUBLICKEYBYTES <= input@.len() <==> r is Ok,
            r matches Ok(k) ==> k@ == input@.subrange(pos as int, pos + PUBLICKEYBYTES),
            r matches Err(e) ==> e == DecodeError::Truncated,
    {
        if input.len() < pos || input.len() - pos < PUBLICKEYBYTES {
            return Err(DecodeError::Truncated);
        }
        let n = input.len();
        let mut a: [u8; 32] = [0u8; 32];
        let mut i: usize = 0;
        while i < PUBLICKEYBYTES
            invariant
                i <= PUBLICKEYBYTES,
                n == input@.len(),
                pos + PUBLICKEYBYTES <= n,
                a@.len() == PUBLICKEYBYTES,
                forall|j: int| 0 <= j < i ==> a@[j] == input@[pos + j],
            decreases PUBLICKEYBYTES - i,
        {
            a[i] = input[pos + i];
            i = i + 1;
        }
        assert(a@ =~= input@.subrange(pos as int, pos + PUBLICKEYBYTES));
        Ok(PublicKey(a))
    }

    /// Writes the key's 32 bytes at `pos`; the other bytes stay.
    pub fn write_to(&self, buf: &mut [u8], pos: usize)
        requires
            pos + PUBLICKEYBYTES <= old(buf)@.len(),
        ensures
            final(buf)@.len() == old(buf)@.len(),
            final(buf)@.subrange(pos as int, pos + PUBLICKEYBYTES) == self@,
            forall|j: int|
                0 <= j < old(buf)@.len() && !(pos <= j < pos + PUBLICKEYBYTES)
                    ==> #[trigger] final(buf)@[j] == old(buf)@[j],
    {
        let ghost start = buf@;
        let n = buf.len();
        let mut i: usize = 0;
        while i < PUBLICKEYBYTES
            invariant
                i <= PUBLICKEYBYTES,
                n == start.len(),
                pos + PUBLICKEYBYTES <= start.len(),
                self@.len() == PUBLICKEYBYTES,
                buf@.len() == start.len(),
                forall|j: int| 0 <= j < pos ==> buf@[j] == start[j],
                forall|j: int| pos + PUBLICKEYBYTES <= j < start.len() ==> buf@[j] == start[j],
                forall|j: int| pos <= j < pos + i ==> buf@[j] == self@[j - pos],
                forall|j: int| pos + i <= j < pos + PUBLICKEYBYTES ==> buf@[j] == start[j],
            decreases PUBLICKEYBYTES - i,
        {
            buf[pos + i] = self.0[i];
            i = i + 1;
        }
        assert(buf@.subrange(pos as int, pos + PUBLICKEYBYTES) =~= self@);
    }
}

} // verus!
