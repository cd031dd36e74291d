//! The overwrite engine: one pass writes a buffer repeatedly over a file,
//! from offset zero, and ends exactly at the file's length.

use vstd::prelude::*;
use vstd::arithmetic::div_mod::{
    lemma_fundamental_div_mod, lemma_fundamental_div_mod_converse, lemma_mod_pos_bound,
};

verus! {

/// Size of the block that every write of a pass is taken from.
pub const BUFFER_SIZE: usize = 4096;

/// What a pass writes over the file.
#[derive(Clone, Copy, Debug, PartialEq, Eq, Structural)]
pub enum FillMode {
    Random,
    Zero,
}

/// Length of the write that follows `written` bytes of a pass over a file
/// of `size` bytes with a buffer of `block` bytes; zero once the pass is done.
pub open spec fn next_chunk_len(size: nat, block: nat, written: nat) -> nat {
    if written + block <= size {
        block
    } else if written < size {
        (size - written) as nat
    } else {
        0
    }
}

/// The lengths of the writes of a pass, from `written` bytes on.
pub open spec fn chunks_from(size: nat, block: nat, written: nat) -> Seq<nat>
    decreases size - written,
{
    if block == 0 || written >= size {
        Seq::empty()
    } else {
        let c = next_chunk_len(size, block, written);
        seq![c] + chunks_from(size, block, written + c)
    }
}

/// The lengths of the writes of a whole pass.
pub open spec fn pass_chunks(size: nat, block: nat) -> Seq<nat> {
    chunks_from(size, block, 0)
}

pub open spec fn total(s: Seq<nat>) -> nat
    decreases s.len(),
{
    if s.len() == 0 {
        0
    } else {
        s[0] + total(s.drop_first())
    }
}

/// A file image after `data` is written at offset `pos` (no further than its end).
pub open spec fn write_at(file: Seq<u8>, pos: nat, data: Seq<u8>) -> Seq<u8> {
    let len = if file.len() >= pos + data.len() {
        file.len()
    } else {
        pos + data.len()
    };
    Seq::new(
        len,
        |i: int|
            if pos <= i < pos + data.len() {
                data[i - pos]
            } else {
                file[i]
            },
    )
}

/// A file image after the writes of a pass from `written` bytes on, each
/// taken from the front of `buffer`.
pub open spec fn pass_from(file: Seq<u8>, buffer: Seq<u8>, written: nat) -> Seq<u8>
    decreases file.len() - written,
{
    let size = file.len();
    let block = buffer.len();
    if block == 0 || written >= size {
        file
    } else {
        let c = next_chunk_len(size, block, written);
        pass_from(write_at(file, written, buffer.take(c as int)), buffer, written + c)
    }
}

/// A file image after one whole pass with `buffer`.
pub open spec fn pass_image(file: Seq<u8>, buffer: Seq<u8>) -> Seq<u8> {
    pass_from(file, buffer, 0)
}

/// The bytes that a pass with `buffer` leaves in a file of `size` bytes.
pub open spec fn repeated(buffer: Seq<u8>, size: nat) -> Seq<u8> {
    Seq::new(size, |i: int| buffer[i % (buffer.len() as int)])
}

/// One operation of a pass on the open file.
#[derive(Clone, Copy, Debug, PartialEq, Eq, Structural)]
pub enum PassAction {
    /// Move the file's position to offset zero.
    SeekToStart,
    /// Write this many bytes from the front of the buffer.
    Write(usize),
    /// Force the written bytes and the metadata to stable storage.
    Flush,
    /// The pass is complete; nothing more is to be done.
    Finished,
}

/// Where a pass stands: whether the file's position was set to zero, how
/// many bytes have been written since, and whether they were flushed.
pub struct PassCursor {
    file_size: u64,
    block: usize,
    written: u64,
    sought: bool,
    flushed: bool,
}

impl PassCursor {
    pub closed spec fn size(&self) -> nat {
        self.file_size as nat
    }

    pub closed spec fn block_len(&self) -> nat {
        self.block as nat
    }

    pub closed spec fn done_bytes(&self) -> nat {
        self.written as nat
    }

    pub closed spec fn has_sought(&self) -> bool {
        self.sought
    }

    pub closed spec fn has_flushed(&self) -> bool {
        self.flushed
    }

    /// Nothing is written before the seek, the cursor never runs past the
    /// file's end, and the flush comes after the last write.
    pub closed spec fn wf(&self) -> bool {
        &&& self.block > 0
        &&& self.written <= self.file_size
        &&& !self.sought ==> self.written == 0
        &&& self.flushed ==> self.sought && self.written == self.file_size
    }

    /// The writes that the rest of the pass makes.
    pub open spec fn remaining_chunks(&self) -> Seq<nat> {
        chunks_from(self.size(), self.block_len(), self.done_bytes())
    }

    /// What the pass does next: seek to offset zero, then the writes, then
    /// the flush.
    pub open spec fn action(&self) -> PassAction {
        if !self.has_sought() {
            PassAction::SeekToStart
        } else if self.done_bytes() < self.size() {
            PassAction::Write(next_chunk_len(self.size(), self.block_len(), self.done_bytes()) as usize)
        } else if !self.has_flushed() {
            PassAction::Flush
        } else {
            PassAction::Finished
        }
    }

    /// Starts a pass over a file of `file_size` bytes with writes of at most
    /// `block` bytes.
    pub fn new(file_size: u64, block: usize) -> (r: PassCursor)
        requires
            block > 0,
        ensures
            r.wf(),
            r.size() == file_size,
            r.block_len() == block,
            r.done_bytes() == 0,
            !r.has_sought(),
            !r.has_flushed(),
            r.action() == PassAction::SeekToStart,
            r.remaining_chunks() == pass_chunks(file_size as nat, block as nat),
    {
        PassCursor { file_size, block, written: 0, sought: false, flushed: false }
    }

    /// Bytes written so far in this pass; what progress reports show.
    pub fn bytes_written(&self) -> (r: u64)
        ensures
            r == self.done_bytes(),
    {
        self.written
    }

    /// The operation to make next.
    pub fn next_action(&self) -> (r: PassAction)
        requires
            self.wf(),
        ensures
            r == self.action(),
            r is Write ==> 0 < r->Write_0 <= self.block_len(),
            r is Write ==> self.remaining_chunks() == seq![r->Write_0 as nat] + chunks_from(
                self.size(),
                self.block_len(),
                self.done_bytes() + r->Write_0 as nat,
            ),
            r is Flush ==> self.done_bytes() == self.size(),
            r is Finished ==> self.has_sought() && self.has_flushed() && self.done_bytes()
                == self.size(),
    {
        if !self.sought {
            PassAction::SeekToStart
        } else if self.written < self.file_size {
            let left = self.file_size - self.written;
            if left >= self.block as u64 {
                PassAction::Write(self.block)
            } else {
                PassAction::Write(left as usize)
            }
        } else if !self.flushed {
            PassAction::Flush
        } else {
            PassAction::Finished
        }
    }

    /// Records that `action`, the one that `next_action` gave, succeeded.
    pub fn complete(&mut self, action: PassAction)
        requires
            old(self).wf(),
            action == old(self).action(),
            action != PassAction::Finished,
        ensures
            final(self).wf(),
            final(self).size() == old(self).size(),
            final(self).block_len() == old(self).block_len(),
            final(self).has_sought(),
            final(self).has_flushed() == (action == PassAction::Flush),
            final(self).done_bytes() == old(self).done_bytes() + if action is Write {
                action->Write_0 as nat
            } else {
                0nat
            },
    {
        match action {
            PassAction::SeekToStart => {
                self.sought = true;
            },
            PassAction::Write(n) => {
                self.written = self.written + n as u64;
            },
            PassAction::Flush => {
                self.flushed = true;
            },
            PassAction::Finished => {},
        }
    }

    /// Whether the pass is complete, its flush included.
    pub fn is_done(&self) -> (r: bool)
        ensures
            r == self.has_flushed(),
    {
        self.flushed
    }
}

/// Relies on rand's `rng()` and `RngCore::fill_bytes`: every byte of the slice
/// is replaced by a pseudo-random one; the length stays.
#[verifier::external_body]
fn fill_random(buf: &mut Vec<u8>)
    ensures
        final(buf)@.len() == old(buf)@.len(),
{
    rand::RngCore::fill_bytes(&mut rand::rng(), buf.as_mut_slice());
}

/// The buffer of one pass: `BUFFER_SIZE` bytes, all zero for a zero pass,
/// freshly drawn for a random pass.
pub fn pass_buffer(mode: FillMode) -> (r: Vec<u8>)
    ensures
        r@.len() == BUFFER_SIZE,
        mode == FillMode::Zero ==> r@ == Seq::new(BUFFER_SIZE as nat, |_i: int| 0u8),
{
    let mut buffer = vec![0u8; BUFFER_SIZE];
    match mode {
        FillMode::Random => fill_random(&mut buffer),
        FillMode::Zero => {
            assert(buffer@ =~= Seq::new(BUFFER_SIZE as nat, |_i: int| 0u8));
        },
    }
    buffer
}

/// The writes of a pass in closed form: `size / block` full blocks, then the
/// remainder, if any.
pub open spec fn full_then_rest(size: nat, block: nat) -> Seq<nat> {
    Seq::new(size / block, |_i: int| block) + if size % block > 0 {
        seq![size % block]
    } else {
        Seq::<nat>::empty()
    }
}

proof fn lemma_div_mod_facts(s: nat, b: nat)
    requires
        b > 0,
    ensures
        s == b * (s / b) + s % b,
        0 <= s % b < b,
{
    lemma_fundamental_div_mod(s as int, b as int);
    lemma_mod_pos_bound(s as int, b as int);
}

proof fn lemma_chunks_after_blocks(s: nat, b: nat, k: nat)
    requires
        b > 0,
        k * b <= s,
    ensures
        k <= s / b,
        chunks_from(s, b, k * b) == Seq::new((s / b - k) as nat, |_i: int| b) + if s % b > 0 {
            seq![s % b]
        } else {
            Seq::<nat>::empty()
        },
    decreases s - k * b,
{
    let q = s / b;
    let r = s % b;
    lemma_div_mod_facts(s, b);
    let tail = if r > 0 {
        seq![r]
    } else {
        Seq::<nat>::empty()
    };
    if k * b + b <= s {
        assert(k + 1 <= q) by (nonlinear_arith)
            requires
                k * b + b <= s,
                s == b * q + r,
                r < b,
                b > 0,
        ;
        assert((k + 1) * b == k * b + b) by (nonlinear_arith);
        lemma_chunks_after_blocks(s, b, k + 1);
        assert(chunks_from(s, b, k * b) == seq![b] + chunks_from(s, b, k * b + b));
        assert(chunks_from(s, b, k * b) =~= Seq::new((q - k) as nat, |_i: int| b) + tail);
    } else {
        assert(s - k * b < b);
        lemma_fundamental_div_mod_converse(s as int, b as int, k as int, s - k * b);
        if k * b < s {
            assert(chunks_from(s, b, s) == Seq::<nat>::empty());
            assert(chunks_from(s, b, k * b) =~= Seq::new((q - k) as nat, |_i: int| b) + tail);
        } else {
            assert(chunks_from(s, b, k * b) =~= Seq::new((q - k) as nat, |_i: int| b) + tail);
        }
    }
}

proof fn lemma_total_from(s: nat, b: nat, w: nat)
    requires
        b > 0,
        w <= s,
    ensures
        total(chunks_from(s, b, w)) == s - w,
    decreases s - w,
{
    if w < s {
        let c = next_chunk_len(s, b, w);
        lemma_total_from(s, b, w + c);
        assert((seq![c] + chunks_from(s, b, w + c)).drop_first() =~= chunks_from(s, b, w + c));
    }
}

/// A pass over a file of `size` bytes with a block of `block` bytes makes
/// `size / block` full writes, then one write of the `size % block` bytes
/// left, if any; in all it writes exactly `size` bytes.
pub proof fn lemma_pass_chunks(size: nat, block: nat)
    requires
        block > 0,
    ensures
        pass_chunks(size, block) == full_then_rest(size, block),
        pass_chunks(size, block).len() == size / block + if size % block > 0 {
            1nat
        } else {
            0nat
        },
        forall|i: int| 0 <= i < size / block ==> pass_chunks(size, block)[i] == block,
        size % block > 0 ==> pass_chunks(size, block).last() == size % block,
        total(pass_chunks(size, block)) == size,
{
    assert(0 * block == 0nat);
    lemma_chunks_after_blocks(size, block, 0);
    lemma_total_from(size, block, 0);
}

proof fn lemma_image_after_blocks(file: Seq<u8>, buffer: Seq<u8>, k: nat)
    requires
        buffer.len() > 0,
        k * buffer.len() <= file.len(),
        forall|i: int| 0 <= i < k * buffer.len() ==> file[i] == buffer[i % (buffer.len() as int)],
    ensures
        pass_from(file, buffer, k * buffer.len()) == repeated(buffer, file.len()),
    decreases file.len() - k * buffer.len(),
{
    let s = file.len();
    let b = buffer.len();
    let w = k * b;
    if w >= s {
        assert(pass_from(file, buffer, w) =~= repeated(buffer, s));
    } else {
        let c = next_chunk_len(s, b, w);
        let next = write_at(file, w, buffer.take(c as int));
        assert(next.len() == s);
        assert forall|i: int| 0 <= i < w + c implies next[i] == buffer[i % (b as int)] by {
            if i >= w {
                lemma_fundamental_div_mod_converse(i, b as int, k as int, i - w);
            }
        }
        if c == b {
            assert((k + 1) * b == w + b) by (nonlinear_arith)
                requires
                    w == k * b,
            ;
            lemma_image_after_blocks(next, buffer, k + 1);
        } else {
            assert(pass_from(next, buffer, w + c) == next);
            assert(next =~= repeated(buffer, s));
        }
    }
}

/// After a pass with `buffer`, byte `i` of the file is byte `i % len` of the
/// buffer, for every offset of the file and no other.
pub proof fn lemma_pass_image(file: Seq<u8>, buffer: Seq<u8>)
    requires
        buffer.len() > 0,
    ensures
        pass_image(file, buffer) == repeated(buffer, file.len()),
{
    assert(0 * buffer.len() == 0nat);
    lemma_image_after_blocks(file, buffer, 0);
}

/// A pass neither truncates nor extends the file.
pub proof fn lemma_pass_keeps_length(file: Seq<u8>, buffer: Seq<u8>)
    requires
        buffer.len() > 0,
    ensures
        pass_image(file, buffer).len() == file.len(),
{
    lemma_pass_image(file, buffer);
}

/// A pass with a zero buffer leaves every byte of the file zero.
pub proof fn lemma_zero_pass_clears(file: Seq<u8>, buffer: Seq<u8>)
    requires
        buffer.len() > 0,
        forall|i: int| 0 <= i < buffer.len() ==> buffer[i] == 0,
    ensures
        forall|i: int| 0 <= i < file.len() ==> pass_image(file, buffer)[i] == 0,
{
    lemma_pass_image(file, buffer);
    assert forall|i: int| 0 <= i < file.len() implies pass_image(file, buffer)[i] == 0 by {
        lemma_mod_pos_bound(i, buffer.len() as int);
    }
}

} // verus!
