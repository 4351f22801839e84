//! The buffer in which a line of debug text is put together before it is
//! handed to the graphics library as a C string.

use vstd::prelude::*;
use vstd::array::array_fill_for_copy_types;
use vstd::array::array_as_slice;
use vstd::string::StringSliceAdditionalSpecFns;
use vstd::slice::slice_subrange;

verus! {

/// The number of bytes of text that the buffer takes.
pub const BUF_SIZE: usize = 256;

/// A text did not fit into the buffer and was cut off.
#[derive(Clone, Copy, Debug, PartialEq, Eq, Structural)]
pub struct Truncated;

/// A buffer for up to `BUF_SIZE` bytes of text, with room for the NUL that
/// ends a C string.
#[derive(Debug)]
pub struct GuBuf {
    data: [u8; 257],
    pos: usize,
}

impl View for GuBuf {
    type V = Seq<u8>;

    /// The text that has been written.
    closed spec fn view(&self) -> Seq<u8> {
        self.data@.take(self.pos as int)
    }
}

impl GuBuf {
    /// What holds of the buffer at all times: the end of the text lies
    /// within the buffer.
    pub closed spec fn wf(&self) -> bool {
        self.pos <= BUF_SIZE
    }

    /// The text is never longer than `BUF_SIZE`: the NUL always has its
    /// place.
    pub proof fn lemma_text_fits(&self)
        requires
            self.wf(),
        ensures
            self@.len() <= BUF_SIZE,
    {
    }

    /// The part of `text` that still goes into a buffer that holds `held`
    /// bytes.
    pub open spec fn fitting(held: nat, text: Seq<u8>) -> Seq<u8> {
        if held + text.len() <= BUF_SIZE {
            text
        } else {
            text.take(BUF_SIZE - held)
        }
    }

    /// An empty buffer.
    pub fn new() -> (buffer: Self)
        ensures
            buffer.wf(),
            buffer@.len() == 0,
    {
        GuBuf { data: array_fill_for_copy_types(0u8), pos: 0 }
    }

    /// Appends the bytes of `s`, as many as fit. Reports a text that did
    /// not fit as a whole.
    pub fn write_str(&mut self, s: &str) -> (result: Result<(), Truncated>)
        requires
            old(self).wf(),
        ensures
            final(self).wf(),
            final(self)@ == old(self)@ + Self::fitting(old(self)@.len(), s.spec_bytes()),
            result is Ok <==> old(self)@.len() + s.spec_bytes().len() <= BUF_SIZE,
    {
        let bytes = s.as_bytes();
        let mut i: usize = 0;
        while i < bytes.len()
            invariant
                i <= bytes@.len(),
                bytes@ == s.spec_bytes(),
                old(self).pos <= BUF_SIZE,
                old(self)@.len() == old(self).pos,
                self.pos <= BUF_SIZE,
                self.pos == old(self).pos + i,
                self@ == old(self)@ + bytes@.take(i as int),
            decreases bytes@.len() - i,
        {
            if self.pos == BUF_SIZE {
                assert(bytes@.take(i as int) =~= Self::fitting(old(self)@.len(), bytes@));
                return Err(Truncated);
            }
            let ghost before = self@;
            self.data[self.pos] = bytes[i];
            self.pos = self.pos + 1;
            assert(self@ =~= before.push(bytes@[i as int]));
            assert(bytes@.take(i + 1) =~= bytes@.take(i as int).push(bytes@[i as int]));
            i = i + 1;
        }
        assert(bytes@.take(i as int) =~= bytes@);
        Ok(())
    }

    /// Ends the text with a NUL and returns it as a C string: the text,
    /// then the NUL.
    pub fn as_c_str(&mut self) -> (text: &[u8])
        requires
            old(self).wf(),
        ensures
            final(self).wf(),
            final(self)@ == old(self)@,
            text@ == old(self)@.push(0u8),
    {
        self.data[self.pos] = 0;
        let text = slice_subrange(array_as_slice(&self.data), 0, self.pos + 1);
        assert(text@ =~= old(self)@.push(0u8));
        text
    }
}

} // verus!
