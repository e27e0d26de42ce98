use vstd::prelude::*;

verus! {

/// An opaque caller identity, held as the bytes that the hosting runtime
/// authenticated. Credentials are only ever compared for equality.
pub struct Credential {
    pub bytes: Vec<u8>,
}

impl View for Credential {
    type V = Seq<u8>;

    open spec fn view(&self) -> Seq<u8> {
        self.bytes@
    }
}

impl Credential {
    pub fn new(bytes: Vec<u8>) -> (r: Credential)
        ensures
            r@ == bytes@,
    {
        Credential { bytes }
    }

    /// Byte-wise equality of two credentials.
    pub fn same_as(&self, other: &Credential) -> (r: bool)
        ensures
            r == (self@ == other@),
    {
        if self.bytes.len() != other.bytes.len() {
            return false;
        }
        let n = self.bytes.len();
        let mut i: usize = 0;
        while i < n
            invariant
                n == self@.len(),
                n == other@.len(),
                i <= n,
                forall|j: int| 0 <= j < i ==> self@[j] == other@[j],
            decreases n - i,
        {
            if self.bytes[i] != other.bytes[i] {
                return false;
            }
            i = i + 1;
        }
        assert(self@ =~= other@);
        true
    }

    /// A fresh credential holding the same bytes.
    pub fn duplicate(&self) -> (r: Credential)
        ensures
            r@ == self@,
    {
        let mut bytes: Vec<u8> = Vec::new();
        let n = self.bytes.len();
        let mut i: usize = 0;
        while i < n
            invariant
                n == self@.len(),
                i <= n,
                bytes@ == self@.subrange(0, i as int),
            decreases n - i,
        {
            bytes.push(self.bytes[i]);
            i = i + 1;
            assert(bytes@ =~= self@.subrange(0, i as int));
        }
        assert(bytes@ =~= self@);
        Credential { bytes }
    }
}

} // verus!
