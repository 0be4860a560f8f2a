use vstd::prelude::*;

verus! {

/// The two running sums `(a, b)` after the bytes of `s`: `a` is the sum of
/// the bytes, `b` the sum of the successive values of `a`, both modulo 256.
pub open spec fn checksum_of(s: Seq<u8>) -> (u8, u8)
    decreases s.len(),
{
    if s.len() == 0 {
        (0u8, 0u8)
    } else {
        let (a, b) = checksum_of(s.drop_last());
        let a2 = ((a + s.last()) % 256) as u8;
        (a2, ((b + a2) % 256) as u8)
    }
}

/// Running two-byte checksum.
#[derive(Clone, Debug)]
pub struct Checksum {
    pub a: u8,
    pub b: u8,
}

impl Checksum {
    /// A checksum over no bytes.
    pub fn new() -> (r: Checksum)
        ensures
            r.a == 0,
            r.b == 0,
    {
        Checksum { a: 0, b: 0 }
    }

    /// Accounts for one more byte.
    pub fn add_byte(&mut self, x: u8)
        ensures
            final(self).a == (old(self).a + x) % 256,
            final(self).b == (old(self).b + final(self).a) % 256,
    {
        self.a = self.a.wrapping_add(x);
        self.b = self.b.wrapping_add(self.a);
    }

    /// The pair `(a, b)`.
    pub fn get(&self) -> (r: (u8, u8))
        ensures
            r == (self.a, self.b),
    {
        (self.a, self.b)
    }
}

impl Default for Checksum {
    fn default() -> (r: Checksum)
        ensures
            r.a == 0,
            r.b == 0,
    {
        Checksum::new()
    }
}

/// The checksum of `data`.
pub fn checksum(data: &[u8]) -> (r: (u8, u8))
    ensures
        r == checksum_of(data@),
{
    let mut chk = Checksum::new();
    let mut i: usize = 0;
    while i < data.len()
        invariant
            i <= data@.len(),
            (chk.a, chk.b) == checksum_of(data@.take(i as int)),
        decreases data@.len() - i,
    {
        chk.add_byte(data[i]);
        i += 1;
        assert(data@.take(i as int).drop_last() == data@.take(i - 1));
    }
    assert(data@.take(i as int) == data@);
    chk.get()
}

} // verus!
