//! An injectable source of left/right tie-break bits.
//!
//! The movement rules break left/right ties by a per-call uniform choice. The
//! engine itself is deterministic: it consumes bits from a queue that the
//! embedding refills with host randomness, and tests fill with a fixed
//! sequence to pin the exact destination choice. A drained queue yields
//! `true` ("left first"), so the engine stays total.

use vstd::prelude::*;

verus! {

/// A queue of pre-drawn boolean choices, consumed front to back.
#[derive(Debug)]
pub struct BitSource {
    pub bits: Vec<bool>,
    /// Index of the next unconsumed bit; `bits` is never shortened, so the
    /// consumed prefix stays readable.
    pub pos: usize,
}

impl BitSource {
    /// The bit the next call of [`BitSource::next_bit`] returns.
    pub open spec fn spec_peek(self) -> bool {
        if self.pos < self.bits@.len() {
            self.bits@[self.pos as int]
        } else {
            true
        }
    }

    /// The state after one call of [`BitSource::next_bit`].
    pub open spec fn spec_advanced(self) -> BitSource {
        if self.pos < self.bits@.len() {
            BitSource { bits: self.bits, pos: (self.pos + 1) as usize }
        } else {
            self
        }
    }

    /// A source that will serve the given bits in order.
    pub fn new(bits: Vec<bool>) -> (s: BitSource)
        ensures
            s.bits == bits,
            s.pos == 0,
    {
        BitSource { bits, pos: 0 }
    }

    /// A source with no queued bits: every draw yields `true`.
    pub fn empty() -> (s: BitSource)
        ensures
            s.bits@.len() == 0,
            s.pos == 0,
    {
        BitSource { bits: Vec::new(), pos: 0 }
    }

    /// Draw the next choice: the front of the queue, or `true` once the
    /// queue is drained.
    pub fn next_bit(&mut self) -> (b: bool)
        ensures
            b == old(self).spec_peek(),
            *final(self) == old(self).spec_advanced(),
    {
        if self.pos < self.bits.len() {
            let b = self.bits[self.pos];
            self.pos = self.pos + 1;
            b
        } else {
            true
        }
    }
}

} // verus!
