//! The input buffer and the places in it.

use crate::borrow::shared_borrows;
use crate::codec::le_u64;
use crate::codec::overwrite;
use crate::codec::read_u64;
use crate::codec::u64_bytes;
use crate::codec::write_bytes;
use crate::codec::write_u64;
use crate::guard::Ref;
use crate::guard::RefMut;
use crate::layout::accounts_intact;
use crate::layout::extent;
use crate::layout::HEADER_LEN;
use crate::layout::LAMPORTS_AT;
use vstd::prelude::*;
use vstd::slice::slice_subrange;

verus! {

/// A place in the input buffer to read from: where it starts and how long
/// it is.
#[derive(Clone, Copy, Debug, PartialEq, Eq, Structural)]
pub struct Span {
    pub(crate) start: usize,
    pub(crate) len: usize,
}

impl Span {
    /// Where the place starts.
    pub open(crate) spec fn spec_start(&self) -> usize {
        self.start
    }

    /// How many bytes the place holds.
    pub open(crate) spec fn spec_len(&self) -> usize {
        self.len
    }

    /// Where the place ends.
    pub open spec fn end(&self) -> int {
        self.spec_start() + self.spec_len()
    }

    /// Where the place starts.
    #[verifier::when_used_as_spec(spec_start)]
    pub fn start(&self) -> (start: usize)
        ensures
            start == self.spec_start(),
    {
        self.start
    }

    /// How many bytes the place holds.
    #[verifier::when_used_as_spec(spec_len)]
    pub fn len(&self) -> (len: usize)
        ensures
            len == self.spec_len(),
    {
        self.len
    }

    /// The part of the place from `from` up to `to`, both counted from its
    /// start.
    pub fn narrow(&self, from: usize, to: usize) -> (part: Span)
        requires
            from <= to <= self.len(),
            self.end() <= usize::MAX,
        ensures
            part.start() == self.start() + from,
            part.len() == to - from,
    {
        Span { start: self.start + from, len: to - from }
    }
}

/// A place in the input buffer to write to: a part of the balance or of the
/// data of one account.
#[derive(Clone, Copy, Debug, PartialEq, Eq, Structural)]
pub struct SpanMut {
    pub(crate) header: usize,
    pub(crate) start: usize,
    pub(crate) len: usize,
}

impl SpanMut {
    /// Where the header of the account starts that the place belongs to.
    pub open(crate) spec fn spec_header(&self) -> usize {
        self.header
    }

    /// Where the place starts.
    pub open(crate) spec fn spec_start(&self) -> usize {
        self.start
    }

    /// How many bytes the place holds.
    pub open(crate) spec fn spec_len(&self) -> usize {
        self.len
    }

    /// Where the place ends.
    pub open spec fn end(&self) -> int {
        self.spec_start() + self.spec_len()
    }

    /// Where the header of the account starts that the place belongs to.
    #[verifier::when_used_as_spec(spec_header)]
    pub fn header(&self) -> (header: usize)
        ensures
            header == self.spec_header(),
    {
        self.header
    }

    /// Where the place starts.
    #[verifier::when_used_as_spec(spec_start)]
    pub fn start(&self) -> (start: usize)
        ensures
            start == self.spec_start(),
    {
        self.start
    }

    /// How many bytes the place holds.
    #[verifier::when_used_as_spec(spec_len)]
    pub fn len(&self) -> (len: usize)
        ensures
            len == self.spec_len(),
    {
        self.len
    }

    /// The same place, to read from.
    pub fn as_span(&self) -> (span: Span)
        ensures
            span.start() == self.start(),
            span.len() == self.len(),
    {
        Span { start: self.start, len: self.len }
    }

    /// The part of the place from `from` up to `to`, both counted from its
    /// start.
    pub fn narrow(&self, from: usize, to: usize) -> (part: SpanMut)
        requires
            from <= to <= self.len(),
            self.end() <= usize::MAX,
        ensures
            part.header() == self.header(),
            part.start() == self.start() + from,
            part.len() == to - from,
    {
        SpanMut { header: self.header, start: self.start + from, len: to - from }
    }
}

/// Whether the bytes from `start` on, `len` of them, belong to the balance
/// or to the data and its room to grow of the account at `header`.
pub open spec fn is_writable_part(header: int, original_len: int, start: int, len: int) -> bool {
    ||| header + LAMPORTS_AT <= start && start + len <= header + LAMPORTS_AT + 8
    ||| header + HEADER_LEN <= start && start + len <= header + extent(original_len)
}

/// The input buffer of one invocation, with the accounts that have a handle.
pub struct Input {
    pub(crate) bytes: Vec<u8>,
    pub(crate) accounts: Ghost<Map<int, int>>,
}

impl View for Input {
    type V = Seq<u8>;

    open(crate) spec fn view(&self) -> Seq<u8> {
        self.bytes@
    }
}

impl Input {
    /// The accounts that have a handle: where the header of each starts, and
    /// how long its data was when the program was entered.
    pub open(crate) spec fn accounts(&self) -> Map<int, int> {
        self.accounts@
    }

    /// Whether every account that has a handle is intact.
    pub open spec fn wf(&self) -> bool {
        self@.len() <= usize::MAX && accounts_intact(self@, self.accounts())
    }

    /// Whether an account that has a handle starts at `header`.
    pub open spec fn holds(&self, header: int) -> bool {
        self.accounts().dom().contains(header)
    }

    /// Whether the place belongs to an account that has a handle.
    pub open spec fn admits(&self, span: &SpanMut) -> bool {
        &&& self.holds(span.header() as int)
        &&& is_writable_part(
            span.header() as int,
            self.accounts()[span.header() as int],
            span.start() as int,
            span.len() as int,
        )
    }

    /// Takes the buffer as the loader handed it over. No account has a
    /// handle yet.
    pub fn new(bytes: Vec<u8>) -> (input: Input)
        ensures
            input@ == bytes@,
            input.accounts() == Map::<int, int>::empty(),
            input.wf(),
    {
        let _ = bytes.len();
        Input { bytes, accounts: Ghost(Map::empty()) }
    }

    /// Gives the buffer back.
    pub fn into_bytes(self) -> (bytes: Vec<u8>)
        ensures
            bytes@ == self@,
    {
        self.bytes
    }

    /// The whole buffer.
    pub fn as_bytes(&self) -> (bytes: &[u8])
        ensures
            bytes@ == self@,
            bytes@.len() <= usize::MAX,
    {
        let _ = self.bytes.len();
        self.bytes.as_slice()
    }

    /// The bytes of a place.
    pub fn bytes(&self, span: Span) -> (bytes: &[u8])
        requires
            span.end() <= self@.len(),
        ensures
            bytes@ == self@.subrange(span.start() as int, span.end()),
    {
        let whole = self.bytes.as_slice();
        let _ = whole.len();
        slice_subrange(whole, span.start, span.start + span.len)
    }

    /// The unsigned 64-bit integer that a place of eight bytes holds.
    pub fn read_u64(&self, span: Span) -> (v: u64)
        requires
            span.len() == 8,
            span.end() <= self@.len(),
        ensures
            v == le_u64(self@, span.start() as int),
    {
        read_u64(self.bytes.as_slice(), span.start)
    }

    /// Writes an unsigned 64-bit integer into a place of eight bytes.
    pub fn write_u64(&mut self, span: &SpanMut, v: u64)
        requires
            old(self).wf(),
            old(self).admits(span),
            span.len() == 8,
        ensures
            final(self)@ == overwrite(old(self)@, span.start() as int, u64_bytes(v)),
            final(self).accounts() == old(self).accounts(),
            final(self).wf(),
    {
        write_u64(&mut self.bytes, span.start, v);
    }

    /// Writes one byte into a place, `at` bytes from its start.
    pub fn write(&mut self, span: &SpanMut, at: usize, byte: u8)
        requires
            old(self).wf(),
            old(self).admits(span),
            at < span.len(),
        ensures
            final(self)@ == old(self)@.update(span.start() + at, byte),
            final(self).accounts() == old(self).accounts(),
            final(self).wf(),
    {
        self.bytes[span.start + at] = byte;
    }

    /// Fills a place with the bytes given, which are as many as it holds.
    pub fn copy_from_slice(&mut self, span: &SpanMut, src: &[u8])
        requires
            old(self).wf(),
            old(self).admits(span),
            src@.len() == span.len(),
        ensures
            final(self)@ == overwrite(old(self)@, span.start() as int, src@),
            final(self).accounts() == old(self).accounts(),
            final(self).wf(),
    {
        write_bytes(&mut self.bytes, span.start, src);
    }

    /// How long the buffer is.
    pub fn len(&self) -> (len: usize)
        ensures
            len == self@.len(),
    {
        self.bytes.len()
    }

    /// Ends a shared borrow of an account of this input and uses its guard
    /// up.
    pub fn release<T>(&mut self, guard: Ref<T>)
        requires
            old(self).wf(),
            old(self).holds(guard.state() as int),
            shared_borrows(old(self)@[guard.state() as int], guard.is_lamport()) > 0,
        ensures
            final(self)@ == guard.released(old(self)@),
            final(self).accounts() == old(self).accounts(),
            final(self).wf(),
    {
        guard.release(self.bytes.as_mut_slice());
    }

    /// Ends a mutable borrow of an account of this input and uses its guard
    /// up.
    pub fn release_mut<T>(&mut self, guard: RefMut<T>)
        requires
            old(self).wf(),
            old(self).holds(guard.state() as int),
        ensures
            final(self)@ == guard.released(old(self)@),
            final(self).accounts() == old(self).accounts(),
            final(self).wf(),
    {
        guard.release(self.bytes.as_mut_slice());
    }
}

} // verus!
