//! Sampling of forwarded plaintext for training a dictionary.
use crate::compression::train;
use vstd::prelude::*;

verus! {

pub const MIN_SAMPLE_SIZE: usize = 256;

pub const MAX_SAMPLE_SIZE: usize = 16384;

/// Plaintext of a service, cut into samples.
#[derive(Debug, Default)]
pub struct SampleBuffer {
    pub data: Vec<u8>,
    pub sizes: Vec<usize>,
    /// Bytes at the end of the data that are no sample yet.
    pub pending_size: usize,
    pub window: usize,
}

/// The sizes of the samples that `n` more bytes make, and how many bytes are left for the
/// next sample.
pub open spec fn cut(n: nat) -> (Seq<usize>, nat)
    decreases n,
{
    if n < MIN_SAMPLE_SIZE {
        (Seq::empty(), n)
    } else {
        let size = if n <= MAX_SAMPLE_SIZE {
            n
        } else {
            MAX_SAMPLE_SIZE as nat
        };
        let (sizes, rest) = cut((n - size) as nat);
        (seq![size as usize] + sizes, rest)
    }
}

/// The samples once `added` bytes came in behind `pending` bytes that are no sample yet. An
/// unfinished sample is filled up to the smallest size first.
pub open spec fn boundaries(sizes: Seq<usize>, pending: nat, added: nat) -> (Seq<usize>, nat) {
    if pending == 0 {
        let (more, rest) = cut(added);
        (sizes + more, rest)
    } else if pending + added < MIN_SAMPLE_SIZE {
        (sizes, pending + added)
    } else {
        let (more, rest) = cut((pending + added - MIN_SAMPLE_SIZE) as nat);
        (sizes.push(MIN_SAMPLE_SIZE) + more, rest)
    }
}

/// The samples once the bytes that are no sample yet are put into one: into the last
/// sample where it has room, else into a sample of the smallest size that takes what it
/// misses from the last one. Where there is no sample they stay.
pub open spec fn finished(sizes: Seq<usize>, pending: nat) -> (Seq<usize>, nat) {
    if pending == 0 || sizes.len() == 0 {
        (sizes, pending)
    } else if sizes.last() + pending <= MAX_SAMPLE_SIZE {
        (sizes.update(sizes.len() - 1, (sizes.last() + pending) as usize), 0)
    } else {
        (
            sizes.update(
                sizes.len() - 1,
                (sizes.last() - (MIN_SAMPLE_SIZE - pending)) as usize,
            ).push(MIN_SAMPLE_SIZE),
            0,
        )
    }
}

/// Every sample has a size that zstd can use.
pub open spec fn sizes_ok(sizes: Seq<usize>) -> bool {
    forall|i: int| 0 <= i < sizes.len() ==> MIN_SAMPLE_SIZE <= #[trigger] sizes[i] <= MAX_SAMPLE_SIZE
}

/// The part of `bytes` that a window has room for behind `len` bytes.
pub open spec fn kept(len: nat, window: usize, bytes: Seq<u8>) -> Seq<u8> {
    if len >= window {
        Seq::empty()
    } else if len + bytes.len() <= window {
        bytes
    } else {
        bytes.take(window - len)
    }
}

/// The buffer once bytes were added, as far as the window has room. A full window has no
/// byte left that is no sample, if there is a sample at all.
pub open spec fn appended(before: SampleBuffer, bytes: Seq<u8>, after: SampleBuffer) -> bool {
    let more = kept(before.data@.len(), before.window(), bytes);
    let (sizes, pending) = boundaries(before.sizes@, before.pending(), more.len());
    &&& after.window() == before.window()
    &&& after.data@ == before.data@ + more
    &&& (after.sizes@, after.pending()) == (if after.data@.len() == after.window() {
        finished(sizes, pending)
    } else {
        (sizes, pending)
    })
}

impl SampleBuffer {
    /// How many bytes are no sample yet.
    pub open spec fn pending(self) -> nat {
        self.pending_size as nat
    }

    /// How many bytes a corpus holds.
    pub open spec fn window(self) -> usize {
        self.window
    }

    /// The samples and the bytes that are no sample yet make up the data, which the window
    /// bounds. Every sample has a size that zstd can use.
    pub open spec fn wf(self) -> bool {
        &&& train::total(self.sizes@) + self.pending() == self.data@.len()
        &&& self.pending() < MIN_SAMPLE_SIZE
        &&& self.data@.len() <= self.window()
        &&& sizes_ok(self.sizes@)
    }

    pub fn new(window: u64) -> (r: Self)
        ensures
            r.wf(),
            r.data@.len() == 0,
            r.sizes@.len() == 0,
            r.pending() == 0,
            r.window() == (if window <= usize::MAX {
                window as usize
            } else {
                usize::MAX
            }),
    {
        SampleBuffer {
            data: Vec::new(),
            sizes: Vec::new(),
            pending_size: 0,
            window: if window <= usize::MAX as u64 {
                window as usize
            } else {
                usize::MAX
            },
        }
    }

    /// Adds bytes as far as the window has room, and says whether the window is full. Then
    /// no byte is left that is no sample, if there is a sample at all.
    pub fn append(&mut self, bytes: &[u8]) -> (reached: bool)
        requires
            old(self).wf(),
        ensures
            final(self).wf(),
            appended(*old(self), bytes@, *final(self)),
            reached == (final(self).data@.len() == old(self).window()),
    {
        let remaining: usize = if self.data.len() <= self.window {
            self.window - self.data.len()
        } else {
            0
        };
        let n: usize = if bytes.len() <= remaining {
            bytes.len()
        } else {
            remaining
        };
        let ghost before = self.data@;
        self.data.extend_from_slice(&bytes[0..n]);
        proof {
            assert(bytes@.subrange(0, n as int) =~= kept(before.len(), self.window, bytes@));
            assert(self.data@ =~= before + kept(before.len(), self.window, bytes@));
        }
        self.record_boundaries(n);
        let reached = self.data.len() >= self.window;
        if reached {
            self.finish_pending_sample();
        }
        reached
    }

    /// Cuts `added` bytes, which are already in the data, into samples.
    pub fn record_boundaries(&mut self, added: usize)
        requires
            train::total(old(self).sizes@) + old(self).pending() + added == old(self).data@.len(),
            old(self).pending() < MIN_SAMPLE_SIZE,
            old(self).data@.len() <= old(self).window(),
            sizes_ok(old(self).sizes@),
        ensures
            final(self).wf(),
            final(self).data == old(self).data,
            final(self).window() == old(self).window(),
            (final(self).sizes@, final(self).pending()) == boundaries(
                old(self).sizes@,
                old(self).pending(),
                added as nat,
            ),
    {
        let mut added: usize = added;
        let ghost target = boundaries(self.sizes@, self.pending(), added as nat);
        if self.pending_size > 0 {
            let room: usize = MIN_SAMPLE_SIZE - self.pending_size;
            let merged: usize = if added <= room {
                added
            } else {
                room
            };
            self.pending_size += merged;
            added -= merged;
            if self.pending_size == MIN_SAMPLE_SIZE {
                self.sizes.push(self.pending_size);
                self.pending_size = 0;
                proof {
                    lemma_total_push(old(self).sizes@, MIN_SAMPLE_SIZE);
                }
            }
        }
        proof {
            assert(self.pending_size == 0 || added == 0);
            assert(self.pending_size == 0 ==> (self.sizes@ + cut(added as nat).0, cut(
                added as nat,
            ).1) == target);
            if self.pending_size > 0 {
                assert(self.sizes@ == target.0);
                assert(self.pending_size == target.1);
            }
        }
        let ghost start = self.sizes@;
        while added >= MIN_SAMPLE_SIZE
            invariant
                self.data == old(self).data,
                self.window == old(self).window,
                self.pending_size < MIN_SAMPLE_SIZE,
                self.data@.len() <= self.window,
                self.pending_size == 0 || added == 0,
                sizes_ok(self.sizes@),
                train::total(self.sizes@) + self.pending_size + added == self.data@.len(),
                self.pending_size == 0 ==> (self.sizes@ + cut(added as nat).0, cut(
                    added as nat,
                ).1) == target,
                self.pending_size > 0 ==> (self.sizes@, self.pending_size as nat) == target,
            decreases added,
        {
            let sample_size: usize = if added <= MAX_SAMPLE_SIZE {
                added
            } else {
                MAX_SAMPLE_SIZE
            };
            let ghost was = self.sizes@;
            self.sizes.push(sample_size);
            proof {
                lemma_total_push(was, sample_size);
                let rest = cut((added - sample_size) as nat).0;
                assert(was + (seq![sample_size] + rest) =~= was.push(sample_size) + rest);
            }
            added -= sample_size;
        }
        proof {
            assert(self.sizes@ + Seq::<usize>::empty() =~= self.sizes@);
        }
        self.pending_size += added;
    }

    /// Puts the bytes that are no sample yet into one.
    pub fn finish_pending_sample(&mut self)
        requires
            old(self).wf(),
        ensures
            final(self).wf(),
            final(self).data == old(self).data,
            final(self).window() == old(self).window(),
            (final(self).sizes@, final(self).pending()) == finished(
                old(self).sizes@,
                old(self).pending(),
            ),
    {
        if self.pending_size == 0 {
            return ;
        }
        let n: usize = self.sizes.len();
        if n > 0 {
            let last: usize = self.sizes[n - 1];
            let ghost before = self.sizes@;
            proof {
                lemma_total_update(before, (last + self.pending_size) as usize);
            }
            if last + self.pending_size <= MAX_SAMPLE_SIZE {
                self.sizes[n - 1] = last + self.pending_size;
            } else {
                let moved: usize = MIN_SAMPLE_SIZE - self.pending_size;
                proof {
                    lemma_total_update(before, (last - moved) as usize);
                    lemma_total_push(
                        before.update(n - 1, (last - moved) as usize),
                        MIN_SAMPLE_SIZE,
                    );
                }
                self.sizes[n - 1] = last - moved;
                self.sizes.push(MIN_SAMPLE_SIZE);
            }
            self.pending_size = 0;
        }
    }

    /// Takes everything out of the buffer.
    pub fn take(&mut self) -> (r: Self)
        requires
            old(self).wf(),
        ensures
            r.wf(),
            r.data@ == old(self).data@,
            r.sizes@ == old(self).sizes@,
            r.pending() == old(self).pending(),
            r.window() == old(self).window(),
            final(self).wf(),
            final(self).data@.len() == 0,
            final(self).sizes@.len() == 0,
            final(self).pending() == 0,
            final(self).window() == old(self).window(),
    {
        let mut data: Vec<u8> = Vec::new();
        core::mem::swap(&mut self.data, &mut data);
        let mut sizes: Vec<usize> = Vec::new();
        core::mem::swap(&mut self.sizes, &mut sizes);
        let pending_size: usize = self.pending_size;
        self.pending_size = 0;
        SampleBuffer { data, sizes, pending_size, window: self.window }
    }
}

proof fn lemma_total_push(sizes: Seq<usize>, size: usize)
    ensures
        train::total(sizes.push(size)) == train::total(sizes) + size,
{
    assert(sizes.push(size).drop_last() =~= sizes);
}

proof fn lemma_total_update(sizes: Seq<usize>, size: usize)
    requires
        sizes.len() > 0,
    ensures
        train::total(sizes.update(sizes.len() - 1, size)) == train::total(sizes) - sizes.last()
            + size,
{
    assert(sizes.update(sizes.len() - 1, size).drop_last() =~= sizes.drop_last());
}

/// A full window is cut into samples without a rest, unless it is too small to hold one:
/// the sizes that training gets add up to the length of the data.
pub proof fn law_full_window_is_all_samples(sizes: Seq<usize>, pending: nat, len: nat)
    requires
        train::total(sizes) + pending == len,
        sizes.len() > 0 || pending == 0,
        sizes_ok(sizes),
        pending < MIN_SAMPLE_SIZE,
    ensures
        finished(sizes, pending).1 == 0,
        train::total(finished(sizes, pending).0) == len,
        sizes_ok(finished(sizes, pending).0),
{
    if pending > 0 {
        let last = sizes.last();
        if last + pending <= MAX_SAMPLE_SIZE {
            lemma_total_update(sizes, (last + pending) as usize);
        } else {
            let moved = (last - (MIN_SAMPLE_SIZE - pending)) as usize;
            lemma_total_update(sizes, moved);
            lemma_total_push(sizes.update(sizes.len() - 1, moved), MIN_SAMPLE_SIZE);
        }
    }
}

} // verus!
