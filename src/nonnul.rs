//! Byte strings that carry no NUL byte, as everything that crosses `execve` must.

use vstd::prelude::*;
use vstd::string::StringSliceAdditionalSpecFns;

verus! {

/// No byte of `s` is the NUL byte.
pub open spec fn no_nul(s: Seq<u8>) -> bool {
    forall|i: int| 0 <= i < s.len() ==> s[i] != 0u8
}

/// A byte string without NUL bytes.
pub struct NonNulString {
    bytes: Vec<u8>,
}

impl View for NonNulString {
    type V = Seq<u8>;

    closed spec fn view(&self) -> Seq<u8> {
        self.bytes@
    }
}

impl NonNulString {
    #[verifier::type_invariant]
    closed spec fn inv(self) -> bool {
        no_nul(self.bytes@)
    }

    /// Takes `bytes` when none of them is NUL.
    pub fn new(bytes: Vec<u8>) -> (r: Option<NonNulString>)
        ensures
            r is Some <==> no_nul(bytes@),
            r matches Some(s) ==> s@ == bytes@,
    {
        let mut i: usize = 0;
        while i < bytes.len()
            invariant
                0 <= i <= bytes@.len(),
                forall|j: int| 0 <= j < i ==> bytes@[j] != 0u8,
            decreases bytes@.len() - i,
        {
            if bytes[i] == 0u8 {
                return None;
            }
            i = i + 1;
        }
        Some(NonNulString { bytes })
    }

    /// Copies the UTF-8 bytes of `s` when none of them is NUL.
    pub fn from_str(s: &str) -> (r: Option<NonNulString>)
        ensures
            r is Some <==> no_nul(s.spec_bytes()),
            r matches Some(v) ==> v@ == s.spec_bytes(),
    {
        let b = s.as_bytes();
        let mut v: Vec<u8> = Vec::new();
        let mut i: usize = 0;
        while i < b.len()
            invariant
                b@ == s.spec_bytes(),
                0 <= i <= b@.len(),
                v@ == b@.subrange(0, i as int),
            decreases b@.len() - i,
        {
            v.push(b[i]);
            i = i + 1;
            assert(v@ =~= b@.subrange(0, i as int));
        }
        assert(v@ =~= b@);
        NonNulString::new(v)
    }

    /// Builds a value from bytes already known to hold no NUL.
    pub(crate) fn from_vec(bytes: Vec<u8>) -> (r: NonNulString)
        requires
            no_nul(bytes@),
        ensures
            r@ == bytes@,
    {
        NonNulString { bytes }
    }

    /// The bytes.
    pub fn as_bytes(&self) -> (r: &Vec<u8>)
        ensures
            r@ == self@,
            no_nul(r@),
    {
        proof {
            use_type_invariant(self);
        }
        &self.bytes
    }

    /// A copy of the bytes.
    pub fn to_vec(&self) -> (r: Vec<u8>)
        ensures
            r@ == self@,
            no_nul(r@),
    {
        proof {
            use_type_invariant(self);
        }
        self.bytes.clone()
    }

    /// The number of bytes.
    pub fn len(&self) -> (r: usize)
        ensures
            r == self@.len(),
    {
        self.bytes.len()
    }

    /// Byte-wise equality.
    pub fn same(&self, other: &NonNulString) -> (r: bool)
        ensures
            r == (self@ == other@),
    {
        if self.bytes.len() != other.bytes.len() {
            return false;
        }
        let mut i: usize = 0;
        while i < self.bytes.len()
            invariant
                self.bytes@.len() == other.bytes@.len(),
                0 <= i <= self.bytes@.len(),
                forall|j: int| 0 <= j < i ==> self.bytes@[j] == other.bytes@[j],
            decreases self.bytes@.len() - i,
        {
            if self.bytes[i] != other.bytes[i] {
                return false;
            }
            i = i + 1;
        }
        assert(self.bytes@ =~= other.bytes@);
        true
    }

    /// An independent copy.
    pub fn duplicate(&self) -> (r: NonNulString)
        ensures
            r@ == self@,
    {
        proof {
            use_type_invariant(self);
        }
        NonNulString { bytes: self.bytes.clone() }
    }
}

/// Appends all of `src` to `dst`.
pub(crate) fn extend_bytes(dst: &mut Vec<u8>, src: &Vec<u8>)
    ensures
        final(dst)@ == old(dst)@ + src@,
{
    let mut i: usize = 0;
    while i < src.len()
        invariant
            0 <= i <= src@.len(),
            dst@ == old(dst)@ + src@.subrange(0, i as int),
        decreases src@.len() - i,
    {
        dst.push(src[i]);
        i = i + 1;
        assert(dst@ =~= old(dst)@ + src@.subrange(0, i as int));
    }
    assert(src@.subrange(0, src@.len() as int) =~= src@);
}

} // verus!
