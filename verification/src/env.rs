//! The parts of a contract's host environment that the contract logic reads:
//! the ledger clock and sequence, and the addresses it hands out.

use vstd::prelude::*;

verus! {

/// An account or contract address, held as its 32 byte identifier.
#[derive(Clone, Copy, Debug, PartialEq, Eq)]
pub struct Address {
    pub id: [u8; 32],
}

/// The ledger as the contracts see it: the close time of the current ledger
/// in seconds, its sequence number, and how many fresh addresses have been
/// generated so far.
#[derive(Clone, Copy, Debug)]
pub struct Env {
    pub timestamp: u64,
    pub sequence_number: u32,
    pub generated_addresses: u64,
}

/// A byte that may stand in a symbol: `_`, a digit, or an ASCII letter.
pub open spec fn symbol_char(b: u8) -> bool {
    b == 95 || (48 <= b <= 57) || (65 <= b <= 90) || (97 <= b <= 122)
}

/// A valid symbol: at most 32 bytes, each a symbol character.
pub open spec fn valid_symbol(s: Seq<u8>) -> bool {
    s.len() <= 32 && forall|i: int| 0 <= i < s.len() ==> #[trigger] symbol_char(s[i])
}

/// A short identifier such as a region or a metric name.
#[derive(Debug, PartialEq, Eq)]
pub struct Symbol {
    bytes: Vec<u8>,
}

impl View for Symbol {
    type V = Seq<u8>;

    closed spec fn view(&self) -> Seq<u8> {
        self.bytes@
    }
}

impl Symbol {
    #[verifier::type_invariant]
    spec fn well_formed(self) -> bool {
        valid_symbol(self.bytes@)
    }

    /// The symbol spelled by `bytes`, or `None` when `bytes` is longer than
    /// 32 bytes or holds a byte other than `_`, a digit or an ASCII letter.
    pub fn new(bytes: &[u8]) -> (r: Option<Symbol>)
        ensures
            r is Some <==> valid_symbol(bytes@),
            r matches Some(s) ==> s@ == bytes@,
    {
        if bytes.len() > 32 {
            return None;
        }
        let mut out: Vec<u8> = Vec::new();
        let mut i: usize = 0;
        while i < bytes.len()
            invariant
                i <= bytes@.len() <= 32,
                out@ == bytes@.subrange(0, i as int),
                forall|k: int| 0 <= k < i ==> #[trigger] symbol_char(bytes@[k]),
            decreases bytes@.len() - i,
        {
            let b = bytes[i];
            if !(b == 95 || (48 <= b && b <= 57) || (65 <= b && b <= 90) || (97 <= b && b <= 122)) {
                assert(!symbol_char(bytes@[i as int]));
                return None;
            }
            out.push(b);
            i = i + 1;
        }
        assert(out@ =~= bytes@);
        assert(valid_symbol(out@));
        Some(Symbol { bytes: out })
    }

    /// The bytes of the symbol.
    pub fn as_bytes(&self) -> (b: &[u8])
        ensures
            b@ == self@,
            valid_symbol(b@),
    {
        proof {
            use_type_invariant(self);
        }
        self.bytes.as_slice()
    }

    /// A second symbol with the same spelling.
    pub fn duplicate(&self) -> (r: Symbol)
        ensures
            r@ == self@,
    {
        proof {
            use_type_invariant(self);
        }
        let mut out: Vec<u8> = Vec::new();
        let mut i: usize = 0;
        while i < self.bytes.len()
            invariant
                i <= self.bytes@.len(),
                out@ == self.bytes@.subrange(0, i as int),
                valid_symbol(self.bytes@),
            decreases self.bytes@.len() - i,
        {
            out.push(self.bytes[i]);
            i = i + 1;
        }
        assert(out@ =~= self.bytes@);
        Symbol { bytes: out }
    }

    /// Whether two symbols are spelled the same.
    pub fn equals(&self, other: &Symbol) -> (r: bool)
        ensures
            r == (self@ == other@),
    {
        let a = &self.bytes;
        let b = &other.bytes;
        if a.len() != b.len() {
            return false;
        }
        let mut i: usize = 0;
        while i < a.len()
            invariant
                i <= a@.len() == b@.len(),
                a@ == self@,
                b@ == other@,
                forall|k: int| 0 <= k < i ==> a@[k] == b@[k],
            decreases a@.len() - i,
        {
            if a[i] != b[i] {
                assert(a@[i as int] != b@[i as int]);
                assert(self@ != other@);
                return false;
            }
            i = i + 1;
        }
        assert(a@ =~= b@);
        true
    }
}

impl Env {
    /// The close time of the current ledger, in seconds.
    pub fn timestamp(&self) -> (t: u64)
        ensures
            t == self.timestamp,
    {
        self.timestamp
    }

    /// The sequence number of the current ledger.
    pub fn sequence(&self) -> (s: u32)
        ensures
            s == self.sequence_number,
    {
        self.sequence_number
    }
}

} // verus!
