//! zstd encoder that keeps compression off the async runtime.
//!
//! High zstd levels spend tens of milliseconds per block and allocate tens of MiB per
//! context. Running that inside a write stalls an async worker, and with it every other
//! connection scheduled there. This encoder batches plaintext and hands each batch out as
//! a job for a thread that may block; the async side only copies bytes and writes finished
//! output.
use vstd::prelude::*;
use zstd::stream::raw::{InBuffer, Operation, OutBuffer};

verus! {

/// Plaintext accumulated before a batch is compressed without an explicit flush.
/// Matches zstd's maximum block size.
pub const BATCH_SIZE: usize = 131072;

/// Spare output space offered to each zstd call, so that every call makes progress.
pub const OUTPUT_CHUNK: usize = 132096;

/// A zstd compression context.
#[verifier::external_type_specification]
#[verifier::external_body]
pub struct ExEncoder<'a>(zstd::stream::raw::Encoder<'a>);

/// The level that a context was made with. zstd brings it into the range that it has, and
/// takes zero for its default.
pub uninterp spec fn encoder_level(e: zstd::stream::raw::Encoder<'static>) -> i32;

/// The dictionary that a context compresses with.
pub uninterp spec fn encoder_dictionary(e: zstd::stream::raw::Encoder<'static>) -> Seq<u8>;

/// All the plaintext that a context has taken.
pub uninterp spec fn encoder_taken(e: zstd::stream::raw::Encoder<'static>) -> Seq<u8>;

/// All the bytes that a context has written.
pub uninterp spec fn encoder_written(e: zstd::stream::raw::Encoder<'static>) -> Seq<u8>;

/// Whether no call on the context failed, so that it may be called again.
pub uninterp spec fn encoder_sound(e: zstd::stream::raw::Encoder<'static>) -> bool;

/// Whether a flush is under way: there is more of it to write.
pub uninterp spec fn encoder_flushing(e: zstd::stream::raw::Encoder<'static>) -> bool;

/// Whether the end of the frame is under way: there is more of it to write.
pub uninterp spec fn encoder_finishing(e: zstd::stream::raw::Encoder<'static>) -> bool;

/// What a zstd decoder with the dictionary has given out once it was given the compressed
/// bytes.
pub uninterp spec fn zstd_plaintext(dictionary: Seq<u8>, compressed: Seq<u8>) -> Seq<u8>;

/// Whether the bytes are complete: they are whole zstd frames, at least one, and a decoder
/// that is told that no more bytes come does not find the last frame cut short.
pub uninterp spec fn zstd_ended(compressed: Seq<u8>) -> bool;

/// A context between calls: it did not fail, and nothing is under way.
pub open spec fn ready(e: zstd::stream::raw::Encoder<'static>) -> bool {
    encoder_sound(e) && !encoder_flushing(e) && !encoder_finishing(e)
}

/// A decoder that has been given everything that the context wrote has given out everything
/// that the context took.
pub open spec fn in_sync(e: zstd::stream::raw::Encoder<'static>) -> bool {
    zstd_plaintext(encoder_dictionary(e), encoder_written(e)) == encoder_taken(e)
}

/// A context that has taken nothing and written nothing.
pub open spec fn unused(e: zstd::stream::raw::Encoder<'static>) -> bool {
    &&& ready(e)
    &&& in_sync(e)
    &&& encoder_taken(e) == Seq::<u8>::empty()
    &&& encoder_written(e) == Seq::<u8>::empty()
}

/// What a context was made with stays the same.
pub open spec fn same_settings(
    a: zstd::stream::raw::Encoder<'static>,
    b: zstd::stream::raw::Encoder<'static>,
) -> bool {
    encoder_level(a) == encoder_level(b) && encoder_dictionary(a) == encoder_dictionary(b)
}

/// `Encoder::with_dictionary` makes a compression context with the level and the
/// dictionary. `Encoder::new` is the same with an empty dictionary. Every level is taken, and
/// without a dictionary the call cannot fail. With one it fails where there is no memory for
/// a copy of the dictionary, which is not stated; a dictionary that zstd cannot use comes out
/// only when something is compressed.
#[verifier::external_body]
fn encoder_with_dictionary(level: i32, dictionary: &[u8]) -> (r: Result<
    zstd::stream::raw::Encoder<'static>,
    String,
>)
    ensures
        dictionary@.len() == 0 ==> r is Ok,
        r matches Ok(e) ==> {
            &&& encoder_level(e) == level
            &&& encoder_dictionary(e) == dictionary@
            &&& encoder_taken(e) == Seq::<u8>::empty()
            &&& encoder_written(e) == Seq::<u8>::empty()
            &&& encoder_sound(e)
            &&& !encoder_flushing(e)
            &&& !encoder_finishing(e)
            &&& zstd_plaintext(encoder_dictionary(e), encoder_written(e)) == encoder_taken(e)
        },
{
    zstd::stream::raw::Encoder::with_dictionary(level, dictionary).map_err(|e| e.to_string())
}

/// `Operation::run` of the encoder takes some bytes from the front of `input` and writes
/// some compressed bytes into `chunk` bytes of space: it returns how many it took, and what
/// it wrote. It must not be called on a context that failed, nor while a flush or the end of
/// the frame is under way. The space holds whatever zstd had left to write before and a
/// block more, so zstd takes at least one byte where there is one. When zstd fails, with
/// which text, and which bytes it chooses to write are not stated.
#[verifier::external_body]
fn encoder_run(
    encoder: &mut zstd::stream::raw::Encoder<'static>,
    input: &[u8],
    chunk: usize,
) -> (r: Result<(usize, Vec<u8>), String>)
    requires
        chunk == OUTPUT_CHUNK,
        ready(*old(encoder)),
    ensures
        r matches Ok((taken, written)) ==> {
            &&& taken <= input@.len()
            &&& input@.len() > 0 ==> taken > 0
            &&& written@.len() <= chunk
            &&& same_settings(*final(encoder), *old(encoder))
            &&& encoder_taken(*final(encoder)) == encoder_taken(*old(encoder)) + input@.take(
                taken as int,
            )
            &&& encoder_written(*final(encoder)) == encoder_written(*old(encoder)) + written@
            &&& ready(*final(encoder))
        },
{
    let mut space = vec![0u8; chunk];
    let mut in_buffer = InBuffer::around(input);
    let mut out_buffer = OutBuffer::around(&mut space[..]);
    encoder.run(&mut in_buffer, &mut out_buffer).map_err(|e| e.to_string())?;
    let written = out_buffer.pos();
    space.truncate(written);
    Ok((in_buffer.pos(), space))
}

/// What `encoder_flush` and `encoder_finish` say of a call that went through.
pub open spec fn ended(
    before: zstd::stream::raw::Encoder<'static>,
    after: zstd::stream::raw::Encoder<'static>,
    remaining: usize,
    written: Seq<u8>,
) -> bool {
    &&& same_settings(after, before)
    &&& encoder_taken(after) == encoder_taken(before)
    &&& encoder_written(after) == encoder_written(before) + written
    &&& encoder_sound(after)
    &&& remaining == 0 ==> in_sync(after)
}

/// `Operation::flush` of the encoder writes compressed bytes into `chunk` bytes of space:
/// it returns how many bytes are at least still to be written, and what it wrote. Once none
/// are left, a decoder can give out everything that the encoder took. A first call leaves
/// less than the space, so a second one leaves nothing. When zstd fails, with which text,
/// and which bytes it chooses to write are not stated.
#[verifier::external_body]
fn encoder_flush(encoder: &mut zstd::stream::raw::Encoder<'static>, chunk: usize) -> (r: Result<
    (usize, Vec<u8>),
    String,
>)
    requires
        chunk == OUTPUT_CHUNK,
        encoder_sound(*old(encoder)),
        !encoder_finishing(*old(encoder)),
    ensures
        r matches Ok((remaining, written)) ==> {
            &&& written@.len() <= chunk
            &&& ended(*old(encoder), *final(encoder), remaining, written@)
            &&& encoder_flushing(*final(encoder)) == (remaining > 0)
            &&& !encoder_finishing(*final(encoder))
            &&& encoder_flushing(*old(encoder)) ==> remaining == 0
        },
{
    let mut space = vec![0u8; chunk];
    let mut out_buffer = OutBuffer::around(&mut space[..]);
    let remaining = encoder.flush(&mut out_buffer).map_err(|e| e.to_string())?;
    let written = out_buffer.pos();
    space.truncate(written);
    Ok((remaining, space))
}

/// `Operation::finish` of the encoder ends the frame, and writes compressed bytes into
/// `chunk` bytes of space: it returns how many bytes are at least still to be written, and
/// what it wrote. Once none are left, the frame is complete, and a decoder can give out
/// everything that the encoder took. A first call leaves less than the space, so a second
/// one leaves nothing. When zstd fails, with which text, and which bytes it chooses to write
/// are not stated.
#[verifier::external_body]
fn encoder_finish(encoder: &mut zstd::stream::raw::Encoder<'static>, chunk: usize) -> (r: Result<
    (usize, Vec<u8>),
    String,
>)
    requires
        chunk == OUTPUT_CHUNK,
        encoder_sound(*old(encoder)),
        !encoder_flushing(*old(encoder)),
    ensures
        r matches Ok((remaining, written)) ==> {
            &&& written@.len() <= chunk
            &&& ended(*old(encoder), *final(encoder), remaining, written@)
            &&& encoder_finishing(*final(encoder)) == (remaining > 0)
            &&& !encoder_flushing(*final(encoder))
            &&& encoder_finishing(*old(encoder)) ==> remaining == 0
            &&& remaining == 0 ==> zstd_ended(encoder_written(*final(encoder)))
        },
{
    let mut space = vec![0u8; chunk];
    let mut out_buffer = OutBuffer::around(&mut space[..]);
    let remaining = encoder.finish(&mut out_buffer, true).map_err(|e| e.to_string())?;
    let written = out_buffer.pos();
    space.truncate(written);
    Ok((remaining, space))
}

/// What a job does with its plaintext.
#[derive(Clone, Copy, PartialEq, Eq, Debug, Structural)]
pub enum Step {
    Compress,
    Flush,
    Finish,
}

/// Why an encoder cannot go on.
#[derive(PartialEq, Eq, Debug)]
pub enum EncoderError {
    /// zstd failed, with what it says.
    Zstd(String),
    /// A job failed earlier; the zstd context is gone.
    FailedEarlier,
    /// The writer takes no more bytes.
    WriteZero,
    /// A write behind the shutdown.
    WriteAfterShutdown,
}

impl EncoderError {
    /// What the error says.
    pub fn message(&self) -> (r: String)
        ensures
            r@ == (match *self {
                EncoderError::Zstd(text) => text@,
                EncoderError::FailedEarlier => "zstd encoder failed earlier"@,
                EncoderError::WriteZero => "write zero"@,
                EncoderError::WriteAfterShutdown => "write after shutdown"@,
            }),
    {
        match self {
            EncoderError::Zstd(text) => text.clone(),
            EncoderError::FailedEarlier => "zstd encoder failed earlier".to_owned(),
            EncoderError::WriteZero => "write zero".to_owned(),
            EncoderError::WriteAfterShutdown => "write after shutdown".to_owned(),
        }
    }
}

/// A call of zstd.
#[derive(Clone, Copy, PartialEq, Eq, Debug, Structural)]
pub enum Call {
    /// Feed the plaintext that zstd has not taken.
    Feed,
    Flush,
    Finish,
}

/// How far a run has come.
pub struct Progress {
    /// How much of the plaintext zstd took.
    pub at: usize,
    /// What zstd wrote.
    pub output: Vec<u8>,
    /// The flush or the finish has nothing left to write.
    pub ended: bool,
}

impl Progress {
    /// Nothing was done.
    pub fn start() -> (r: Progress)
        ensures
            r.at == 0,
            r.output@ == Seq::<u8>::empty(),
            !r.ended,
    {
        Progress { at: 0, output: Vec::new(), ended: false }
    }

    /// The call that a run makes next on a plaintext of this length: it feeds what zstd has
    /// not taken, then flushes or finishes as the step says until nothing is left to write.
    pub fn next_call(&self, len: usize, step: Step) -> (r: Option<Call>)
        ensures
            r == (if self.at < len {
                Some(Call::Feed)
            } else if self.ended {
                None
            } else {
                match step {
                    Step::Compress => None,
                    Step::Flush => Some(Call::Flush),
                    Step::Finish => Some(Call::Finish),
                }
            }),
    {
        if self.at < len {
            Some(Call::Feed)
        } else if self.ended {
            None
        } else {
            match step {
                Step::Compress => None,
                Step::Flush => Some(Call::Flush),
                Step::Finish => Some(Call::Finish),
            }
        }
    }

    /// The plaintext that a call feeds: all that zstd has not taken.
    pub fn rest<'a>(&self, input: &'a [u8]) -> (r: &'a [u8])
        requires
            self.at <= input@.len(),
        ensures
            r@ == input@.skip(self.at as int),
    {
        proof {
            assert(input@.subrange(self.at as int, input@.len() as int) =~= input@.skip(
                self.at as int,
            ));
        }
        &input[self.at..input.len()]
    }

    /// Takes what zstd answered: how much it took or how much it has left to write, and what
    /// it wrote; or the text of its failure, and then the run fails with that text.
    pub fn on_answer(&mut self, call: Call, answer: Result<(usize, Vec<u8>), String>) -> (r: Result<
        (),
        EncoderError,
    >)
        requires
            call == Call::Feed ==> (answer matches Ok((taken, _)) ==> old(self).at + taken
                <= usize::MAX),
        ensures
            match answer {
                Ok((count, written)) => {
                    &&& r is Ok
                    &&& final(self).output@ == old(self).output@ + written@
                    &&& final(self).at == old(self).at + (if call == Call::Feed {
                        count as int
                    } else {
                        0
                    })
                    &&& final(self).ended == (if call == Call::Feed {
                        old(self).ended
                    } else {
                        count == 0
                    })
                },
                Err(text) => {
                    &&& r matches Err(EncoderError::Zstd(why)) && why@ == text@
                    &&& *final(self) == *old(self)
                },
            },
    {
        match answer {
            Ok((count, written)) => {
                self.output.extend_from_slice(written.as_slice());
                if call == Call::Feed {
                    self.at += count;
                } else {
                    self.ended = count == 0;
                }
                proof {
                    assert(self.output@ =~= old(self).output@ + written@);
                }
                Ok(())
            },
            Err(text) => Err(EncoderError::Zstd(text)),
        }
    }
}

/// Everything that compressing a batch needs, moved to another thread and back as one unit.
pub struct Job {
    encoder: zstd::stream::raw::Encoder<'static>,
    input: Vec<u8>,
    output: Vec<u8>,
    step: Step,
}

impl Job {
    pub closed spec fn wf(self) -> bool {
        ready(self.encoder)
    }

    /// Plaintext that zstd has not seen.
    pub closed spec fn input(self) -> Seq<u8> {
        self.input@
    }

    /// The output of the last run.
    pub closed spec fn output(self) -> Seq<u8> {
        self.output@
    }

    /// What the next run does with the plaintext.
    pub closed spec fn step(self) -> Step {
        self.step
    }

    pub closed spec fn level(self) -> i32 {
        encoder_level(self.encoder)
    }

    pub closed spec fn dictionary(self) -> Seq<u8> {
        encoder_dictionary(self.encoder)
    }

    /// All the plaintext that zstd took.
    pub closed spec fn fed(self) -> Seq<u8> {
        encoder_taken(self.encoder)
    }

    /// All the bytes that zstd wrote.
    pub closed spec fn emitted(self) -> Seq<u8> {
        encoder_written(self.encoder)
    }

    /// What a run makes of a job: zstd took all of the input, the output is what it wrote,
    /// and behind a flush or a finish all of it can be decompressed. Behind a finish the
    /// frame is complete.
    pub open spec fn ran(self, job: Job) -> bool {
        &&& job.wf()
        &&& job.input() == Seq::<u8>::empty()
        &&& job.level() == self.level()
        &&& job.dictionary() == self.dictionary()
        &&& job.fed() == self.fed() + self.input()
        &&& job.emitted() == self.emitted() + job.output()
        &&& self.step() != Step::Compress ==> zstd_plaintext(job.dictionary(), job.emitted())
            == job.fed()
        &&& self.step() == Step::Finish ==> zstd_ended(job.emitted())
    }

    /// Feeds the whole input to zstd, in order, then flushes or finishes as the job's step
    /// says until zstd has nothing left to write. Fails where zstd does; a job without work
    /// for zstd does not fail.
    pub fn run(self) -> (r: Result<Job, EncoderError>)
        requires
            self.wf(),
        ensures
            match r {
                Ok(job) => self.ran(job),
                Err(e) => e is Zstd,
            },
            self.input().len() == 0 && self.step() == Step::Compress ==> r is Ok,
    {
        let mut job = self;
        let mut progress = Progress::start();
        let len: usize = job.input.len();
        proof {
            assert(self.input@.take(0) =~= Seq::<u8>::empty());
            assert(self.fed() + Seq::<u8>::empty() =~= self.fed());
            assert(self.emitted() + Seq::<u8>::empty() =~= self.emitted());
        }
        let mut next = progress.next_call(len, job.step);
        while next.is_some()
            invariant
                len == self.input@.len(),
                progress.at <= len,
                job.input@ == self.input@,
                job.step == self.step,
                next == Some(Call::Feed) <==> progress.at < len,
                next == Some(Call::Flush) <==> progress.at == len && !progress.ended && self.step
                    == Step::Flush,
                next == Some(Call::Finish) <==> progress.at == len && !progress.ended && self.step
                    == Step::Finish,
                encoder_sound(job.encoder),
                progress.at < len || progress.ended || self.step == Step::Compress ==> ready(
                    job.encoder,
                ),
                progress.at < len ==> !progress.ended,
                self.step != Step::Flush ==> !encoder_flushing(job.encoder),
                self.step != Step::Finish ==> !encoder_finishing(job.encoder),
                progress.ended ==> in_sync(job.encoder),
                progress.ended && self.step == Step::Finish ==> zstd_ended(
                    encoder_written(job.encoder),
                ),
                same_settings(job.encoder, self.encoder),
                job.fed() == self.fed() + self.input@.take(progress.at as int),
                job.emitted() == self.emitted() + progress.output@,
            decreases
                    len - progress.at,
                    if progress.ended {
                        0int
                    } else if ready(job.encoder) {
                        2
                    } else {
                        1
                    },
        {
            let call = next.unwrap();
            let ghost at = progress.at as int;
            let ghost was = progress.output@;
            let ghost emitted = job.emitted();
            let pending = progress.rest(job.input.as_slice());
            let answer = match call {
                Call::Feed => encoder_run(&mut job.encoder, pending, OUTPUT_CHUNK),
                Call::Flush => encoder_flush(&mut job.encoder, OUTPUT_CHUNK),
                Call::Finish => encoder_finish(&mut job.encoder, OUTPUT_CHUNK),
            };
            proof {
                if let Ok((count, written)) = &answer {
                    if call == Call::Feed {
                        assert(self.input@.take(at) + pending@.take(*count as int)
                            =~= self.input@.take(at + *count));
                        assert(job.fed() =~= self.fed() + self.input@.take(at + *count));
                    }
                    assert(emitted + written@ =~= self.emitted() + (was + written@));
                }
            }
            if let Err(e) = progress.on_answer(call, answer) {
                return Err(e);
            }
            next = progress.next_call(len, job.step);
        }
        proof {
            assert(self.input@.take(progress.at as int) =~= self.input@);
        }
        job.input.clear();
        job.output = progress.output;
        Ok(job)
    }
}

/// Where the job is.
enum EncoderState {
    /// No compression in flight. The output may still hold bytes not yet written.
    Idle(Job),
    /// The job is handed out.
    Busy,
    /// A job failed; the zstd context is gone.
    Failed,
}

/// What has to happen before the encoder is idle with nothing to write.
#[derive(PartialEq, Eq, Debug)]
pub enum DrainStep {
    /// Wait for the job that is handed out.
    AwaitJob,
    /// Write out `pending_output`.
    Write,
    Done,
    Fail(EncoderError),
}

/// What a write gives.
pub enum WriteStep {
    /// This many bytes were taken. A job is handed out where they fill the batch.
    Taken { len: usize, job: Option<Job> },
    /// Drain first.
    NeedDrain,
    Fail(EncoderError),
}

/// What a flush or a shutdown asks for next.
pub enum EndStep {
    /// Drain first.
    NeedDrain,
    /// The job is handed out: run it, then drain.
    Dispatch(Job),
    /// Nothing is left to compress: flush or shut down the writer.
    Forward,
}

/// The state of an encoder whose jobs run elsewhere.
pub struct OffloadedZstdEncoder {
    state: EncoderState,
    /// Bytes of the current job output already written.
    written: usize,
    /// Plaintext was handed to zstd since the last flush.
    dirty: bool,
    finishing: bool,
    /// What the encoder was made with.
    settings: Ghost<(i32, Seq<u8>)>,
    /// All the plaintext that was taken.
    accepted: Ghost<Seq<u8>>,
    /// All the bytes that were written.
    sent: Ghost<Seq<u8>>,
}

impl OffloadedZstdEncoder {
    pub closed spec fn level(self) -> i32 {
        self.settings@.0
    }

    pub closed spec fn dictionary(self) -> Seq<u8> {
        self.settings@.1
    }

    /// All the plaintext that was taken.
    pub closed spec fn accepted(self) -> Seq<u8> {
        self.accepted@
    }

    /// All the bytes that were written.
    pub closed spec fn sent(self) -> Seq<u8> {
        self.sent@
    }

    pub closed spec fn idle(self) -> bool {
        self.state is Idle
    }

    pub closed spec fn busy(self) -> bool {
        self.state is Busy
    }

    pub closed spec fn failed(self) -> bool {
        self.state is Failed
    }

    pub closed spec fn dirty(self) -> bool {
        self.dirty
    }

    pub closed spec fn finishing(self) -> bool {
        self.finishing
    }

    /// Plaintext that waits for a batch to fill up.
    pub closed spec fn batch(self) -> Seq<u8> {
        match self.state {
            EncoderState::Idle(job) => job.input(),
            _ => Seq::empty(),
        }
    }

    /// Compressed bytes that are not written yet.
    pub closed spec fn unwritten(self) -> Seq<u8> {
        match self.state {
            EncoderState::Idle(job) => job.output().skip(self.written as int),
            _ => Seq::empty(),
        }
    }

    /// Nothing that was taken is lost, repeated or reordered on the way to zstd, and
    /// nothing that zstd wrote on the way to the writer. Where nothing was taken since the
    /// last flush, everything can be decompressed; behind a shutdown the stream is complete.
    pub closed spec fn wf(self) -> bool {
        &&& self.finishing ==> !self.dirty
        &&& match self.state {
            EncoderState::Idle(job) => {
                &&& job.wf()
                &&& job.level() == self.settings@.0
                &&& job.dictionary() == self.settings@.1
                &&& self.accepted@ == job.fed() + job.input()
                &&& self.written <= job.output().len()
                &&& job.emitted() == self.sent@ + job.output().skip(self.written as int)
                &&& job.input().len() < BATCH_SIZE
                &&& !self.dirty ==> job.input().len() == 0 && zstd_plaintext(
                    job.dictionary(),
                    job.emitted(),
                ) == job.fed()
                &&& self.finishing ==> zstd_ended(job.emitted())
            },
            _ => self.written == 0,
        }
    }

    /// All the plaintext that zstd took.
    pub closed spec fn fed(self) -> Seq<u8> {
        match self.state {
            EncoderState::Idle(job) => job.fed(),
            _ => Seq::empty(),
        }
    }

    /// All the bytes that zstd wrote.
    pub closed spec fn emitted(self) -> Seq<u8> {
        match self.state {
            EncoderState::Idle(job) => job.emitted(),
            _ => Seq::empty(),
        }
    }

    /// Between jobs, everything that was written to the encoder went to zstd or waits in
    /// the batch, and everything that zstd wrote left or waits to be written: nothing is
    /// lost, repeated or reordered.
    pub proof fn law_nothing_is_lost(self)
        requires
            self.wf(),
            self.idle(),
        ensures
            self.accepted() == self.fed() + self.batch(),
            self.emitted() == self.sent() + self.unwritten(),
    {
    }

    /// Behind a flush that went through, and behind a shutdown, what was sent decompresses
    /// to exactly what was written to the encoder.
    pub proof fn law_flushed_bytes_decompress(self)
        requires
            self.wf(),
            self.idle(),
            self.unwritten().len() == 0,
            !self.dirty() || self.finishing(),
        ensures
            zstd_plaintext(self.dictionary(), self.sent()) == self.accepted(),
    {
        assert(self.unwritten() =~= Seq::<u8>::empty());
        assert(self.sent() + Seq::<u8>::empty() =~= self.sent());
        assert(self.fed() + self.batch() =~= self.fed());
    }

    /// Behind a shutdown, what was sent is a complete zstd stream that decompresses to
    /// exactly what was written to the encoder.
    pub proof fn law_a_shutdown_completes_the_stream(self)
        requires
            self.wf(),
            self.idle(),
            self.unwritten().len() == 0,
            self.finishing(),
        ensures
            zstd_ended(self.sent()),
            zstd_plaintext(self.dictionary(), self.sent()) == self.accepted(),
    {
        self.law_flushed_bytes_decompress();
        assert(self.unwritten() =~= Seq::<u8>::empty());
        assert(self.sent() + Seq::<u8>::empty() =~= self.sent());
    }

    /// The job is the one that was handed out, after its run.
    pub closed spec fn expects(self, job: Job) -> bool {
        &&& job.wf()
        &&& job.level() == self.settings@.0
        &&& job.dictionary() == self.settings@.1
        &&& job.input().len() == 0
        &&& job.fed() == self.accepted@
        &&& job.emitted() == self.sent@ + job.output()
        &&& !self.dirty ==> zstd_plaintext(job.dictionary(), job.emitted()) == job.fed()
        &&& self.finishing ==> zstd_ended(job.emitted())
    }

    /// A job that was handed out, before its run.
    pub closed spec fn handed_out(self, job: Job) -> bool {
        &&& job.wf()
        &&& job.level() == self.settings@.0
        &&& job.dictionary() == self.settings@.1
        &&& job.fed() + job.input() == self.accepted@
        &&& job.emitted() == self.sent@
        &&& !self.dirty ==> job.step() != Step::Compress
        &&& self.finishing ==> job.step() == Step::Finish
    }

    /// A job that was handed out can be run.
    pub proof fn law_a_job_that_is_handed_out_can_run(self, job: Job)
        requires
            self.handed_out(job),
        ensures
            job.wf(),
    {
    }

    /// The run of the job that was handed out gives the job that is expected back.
    pub proof fn law_a_run_gives_the_expected_job(self, before: Job, after: Job)
        requires
            self.handed_out(before),
            before.ran(after),
        ensures
            before.wf(),
            self.expects(after),
    {
    }

    /// Nothing was taken or written, and nothing is under way.
    pub open spec fn fresh(self) -> bool {
        self.idle() && self.accepted().len() == 0 && self.sent().len() == 0 && self.batch().len()
            == 0 && self.unwritten().len() == 0 && !self.dirty() && !self.finishing()
    }

    /// An encoder that uses no dictionary. There always is one.
    pub fn new(level: i32) -> (r: Result<Self, EncoderError>)
        ensures
            r matches Ok(e) && e.wf() && e.fresh() && e.level() == level && e.dictionary() == Seq::<
                u8,
            >::empty(),
    {
        let empty: Vec<u8> = Vec::new();
        OffloadedZstdEncoder::with_dict(level, empty.as_slice())
    }

    /// An encoder that uses a dictionary. An empty one is none, and then there always is an
    /// encoder; else there is one unless zstd has no memory for the dictionary.
    pub fn with_dict(level: i32, dictionary: &[u8]) -> (r: Result<Self, EncoderError>)
        ensures
            dictionary@.len() == 0 ==> r is Ok,
            match r {
                Ok(e) => e.wf() && e.fresh() && e.level() == level && e.dictionary() == dictionary@,
                Err(e) => e is Zstd,
            },
    {
        OffloadedZstdEncoder::from_encoder(encoder_with_dictionary(level, dictionary))
    }

    /// The encoder for a zstd context that has done nothing yet, with the settings of the
    /// context; where there is no context, what zstd says of it.
    pub fn from_encoder(encoder: Result<zstd::stream::raw::Encoder<'static>, String>) -> (r: Result<
        Self,
        EncoderError,
    >)
        requires
            encoder matches Ok(e) ==> unused(e),
        ensures
            match encoder {
                Ok(context) => r matches Ok(e) && e.wf() && e.fresh() && e.level() == encoder_level(
                    context,
                ) && e.dictionary() == encoder_dictionary(context),
                Err(text) => r matches Err(EncoderError::Zstd(why)) && why@ == text@,
            },
    {
        match encoder {
            Ok(encoder) => {
                let ghost settings = (encoder_level(encoder), encoder_dictionary(encoder));
                let job = Job {
                    encoder,
                    input: Vec::new(),
                    output: Vec::new(),
                    step: Step::Compress,
                };
                let e = OffloadedZstdEncoder {
                    state: EncoderState::Idle(job),
                    written: 0,
                    dirty: false,
                    finishing: false,
                    settings: Ghost(settings),
                    accepted: Ghost(Seq::empty()),
                    sent: Ghost(Seq::empty()),
                };
                proof {
                    assert(job.output().skip(0) =~= Seq::<u8>::empty());
                    assert(job.fed() + job.input() =~= Seq::<u8>::empty());
                    assert(e.sent@ + job.output().skip(0) =~= Seq::<u8>::empty());
                }
                Ok(e)
            },
            Err(text) => Err(EncoderError::Zstd(text)),
        }
    }

    /// The encoder stays as it was made.
    pub open spec fn same_settings(self, other: OffloadedZstdEncoder) -> bool {
        self.level() == other.level() && self.dictionary() == other.dictionary()
    }

    /// What has to happen before the encoder is idle with nothing to write.
    pub fn drain_step(&mut self) -> (step: DrainStep)
        requires
            old(self).wf(),
        ensures
            final(self).wf(),
            final(self).same_settings(*old(self)),
            final(self).accepted() == old(self).accepted(),
            final(self).sent() == old(self).sent(),
            final(self).batch() == old(self).batch(),
            final(self).unwritten() == old(self).unwritten(),
            final(self).dirty() == old(self).dirty(),
            final(self).finishing() == old(self).finishing(),
            final(self).idle() == old(self).idle(),
            final(self).busy() == old(self).busy(),
            final(self).failed() == old(self).failed(),
            step == (if old(self).busy() {
                DrainStep::AwaitJob
            } else if old(self).failed() {
                DrainStep::Fail(EncoderError::FailedEarlier)
            } else if old(self).unwritten().len() > 0 {
                DrainStep::Write
            } else {
                DrainStep::Done
            }),
    {
        match &mut self.state {
            EncoderState::Busy => DrainStep::AwaitJob,
            EncoderState::Failed => DrainStep::Fail(EncoderError::FailedEarlier),
            EncoderState::Idle(job) => {
                if self.written < job.output.len() {
                    return DrainStep::Write;
                }
                let ghost was = job.output@.skip(self.written as int);
                job.output.clear();
                self.written = 0;
                proof {
                    assert(was =~= Seq::<u8>::empty());
                    assert(self.unwritten() =~= Seq::<u8>::empty());
                }
                DrainStep::Done
            },
        }
    }

    /// The compressed bytes to write next.
    pub fn pending_output(&self) -> (r: &[u8])
        requires
            self.wf(),
            self.idle(),
        ensures
            r@ == self.unwritten(),
    {
        match &self.state {
            EncoderState::Idle(job) => {
                let out = job.output.as_slice();
                proof {
                    assert(out@.subrange(self.written as int, out@.len() as int) =~= out@.skip(
                        self.written as int,
                    ));
                }
                &out[self.written..out.len()]
            },
            _ => {
                let none: &[u8] = &[];
                none
            },
        }
    }

    /// Takes how many bytes the writer took. None: it takes no more.
    pub fn on_written(&mut self, n: usize) -> (r: Result<(), EncoderError>)
        requires
            old(self).wf(),
            old(self).idle(),
            n <= old(self).unwritten().len(),
        ensures
            final(self).wf(),
            final(self).idle(),
            final(self).same_settings(*old(self)),
            final(self).accepted() == old(self).accepted(),
            final(self).batch() == old(self).batch(),
            final(self).dirty() == old(self).dirty(),
            final(self).finishing() == old(self).finishing(),
            r == (if n == 0 {
                Err::<(), EncoderError>(EncoderError::WriteZero)
            } else {
                Ok(())
            }),
            final(self).sent() == old(self).sent() + old(self).unwritten().take(n as int),
            final(self).unwritten() == old(self).unwritten().skip(n as int),
    {
        proof {
            assert(self.unwritten().take(0) =~= Seq::<u8>::empty());
            assert(self.sent() + Seq::<u8>::empty() =~= self.sent());
            assert(self.unwritten().skip(0) =~= self.unwritten());
        }
        if n == 0 {
            return Err(EncoderError::WriteZero);
        }
        let ghost unwritten = self.unwritten();
        let rest: usize = self.pending_output().len();
        if let EncoderState::Idle(job) = &self.state {
            let total: usize = job.output.len();
            proof {
                assert(self.written + rest == total);
            }
        }
        self.written += n;
        proof {
            self.sent@ = self.sent@ + unwritten.take(n as int);
            assert(self.unwritten() =~= unwritten.skip(n as int));
            assert(self.sent@ + unwritten.skip(n as int) =~= old(self).sent@ + unwritten);
        }
        Ok(())
    }

    /// Takes back the job that was handed out, or learns that it failed.
    pub fn on_job(&mut self, job: Result<Job, EncoderError>) -> (r: Result<(), EncoderError>)
        requires
            old(self).wf(),
            old(self).busy(),
            job matches Ok(j) ==> old(self).expects(j),
        ensures
            final(self).wf(),
            final(self).same_settings(*old(self)),
            final(self).accepted() == old(self).accepted(),
            final(self).sent() == old(self).sent(),
            final(self).dirty() == old(self).dirty(),
            final(self).finishing() == old(self).finishing(),
            final(self).batch().len() == 0,
            match job {
                Ok(j) => r is Ok && final(self).idle() && final(self).unwritten() == j.output(),
                Err(e) => r == Err::<(), EncoderError>(e) && final(self).failed(),
            },
    {
        match job {
            Ok(j) => {
                proof {
                    assert(j.output().skip(0) =~= j.output());
                    assert(j.fed() + j.input() =~= j.fed());
                }
                self.state = EncoderState::Idle(j);
                self.written = 0;
                Ok(())
            },
            Err(e) => {
                self.state = EncoderState::Failed;
                Err(e)
            },
        }
    }

    /// Hands out the idle job with the step. The encoder then waits for it.
    fn dispatch(&mut self, step: Step) -> (r: Option<Job>)
        requires
            old(self).idle(),
            old(self).unwritten().len() == 0,
        ensures
            final(self).busy(),
            final(self).written == 0,
            final(self).settings == old(self).settings,
            final(self).accepted == old(self).accepted,
            final(self).sent == old(self).sent,
            final(self).dirty == old(self).dirty,
            final(self).finishing == old(self).finishing,
            r matches Some(job) && old(self).state matches EncoderState::Idle(was) && job == (Job {
                step,
                ..was
            }),
    {
        let mut state = EncoderState::Busy;
        core::mem::swap(&mut self.state, &mut state);
        self.written = 0;
        match state {
            EncoderState::Idle(mut job) => {
                job.step = step;
                Some(job)
            },
            _ => None,
        }
    }

    /// Takes plaintext into the batch, and hands out a job where that fills it.
    pub fn write_step(&mut self, buf: &[u8]) -> (step: WriteStep)
        requires
            old(self).wf(),
        ensures
            final(self).wf(),
            final(self).same_settings(*old(self)),
            final(self).sent() == old(self).sent(),
            final(self).unwritten() == old(self).unwritten(),
            final(self).finishing() == old(self).finishing(),
            final(self).failed() == old(self).failed(),
            if old(self).finishing() {
                step == WriteStep::Fail(EncoderError::WriteAfterShutdown)
            } else if buf@.len() == 0 {
                step == (WriteStep::Taken { len: 0, job: None })
            } else if !old(self).idle() || old(self).unwritten().len() > 0 {
                step is NeedDrain
            } else if buf@.len() < BATCH_SIZE - old(self).batch().len() {
                step == (WriteStep::Taken { len: buf@.len() as usize, job: None })
            } else {
                step matches WriteStep::Taken { len, job: Some(job) } && len == BATCH_SIZE - old(
                    self,
                ).batch().len() && final(self).busy() && final(self).handed_out(job) && job.input()
                    == old(self).batch() + buf@.take(len as int) && job.step() == Step::Compress
            },
            ({
                let n = match step {
                    WriteStep::Taken { len, job } => len as int,
                    _ => 0,
                };
                let handed_out = step matches WriteStep::Taken { len, job: Some(_) };
                &&& final(self).accepted() == old(self).accepted() + buf@.take(n)
                &&& final(self).dirty() == (old(self).dirty() || n > 0)
                &&& !handed_out ==> final(self).batch() == old(self).batch() + buf@.take(n)
                &&& !handed_out ==> final(self).idle() == old(self).idle() && final(self).busy()
                    == old(self).busy()
            }),
    {
        proof {
            assert(buf@.take(0) =~= Seq::<u8>::empty());
            assert(self.accepted() + Seq::<u8>::empty() =~= self.accepted());
            assert(self.batch() + Seq::<u8>::empty() =~= self.batch());
        }
        if self.finishing {
            return WriteStep::Fail(EncoderError::WriteAfterShutdown);
        }
        if buf.len() == 0 {
            return WriteStep::Taken { len: 0, job: None };
        }
        let mut full = false;
        let mut len: usize = 0;
        match &mut self.state {
            EncoderState::Idle(job) => {
                if self.written < job.output.len() {
                    return WriteStep::NeedDrain;
                }
                let room: usize = BATCH_SIZE - job.input.len();
                len = if buf.len() <= room {
                    buf.len()
                } else {
                    room
                };
                let ghost was = job.input@;
                let ghost fed = job.fed();
                job.input.extend_from_slice(&buf[0..len]);
                full = job.input.len() == BATCH_SIZE;
                proof {
                    assert(buf@.take(len as int) =~= buf@.subrange(0, len as int));
                    assert(job.input@ =~= was + buf@.take(len as int));
                    assert(fed + job.input@ =~= (fed + was) + buf@.take(len as int));
                }
            },
            _ => return WriteStep::NeedDrain,
        }
        self.dirty = true;
        proof {
            self.accepted@ = self.accepted@ + buf@.take(len as int);
            assert(self.unwritten() =~= old(self).unwritten());
        }
        if full {
            proof {
                assert(self.sent@ + Seq::<u8>::empty() =~= self.sent@);
                assert(self.unwritten() =~= Seq::<u8>::empty());
            }
            let job = self.dispatch(Step::Compress);
            return WriteStep::Taken { len, job };
        }
        WriteStep::Taken { len, job: None }
    }

    fn drained(&self) -> (r: bool)
        requires
            self.wf(),
        ensures
            r == (self.idle() && self.unwritten().len() == 0),
    {
        match &self.state {
            EncoderState::Idle(job) => self.written == job.output.len(),
            _ => false,
        }
    }

    /// Goes on with a flush. Once it is through, what was sent decompresses to everything
    /// that was taken.
    pub fn flush_step(&mut self) -> (step: EndStep)
        requires
            old(self).wf(),
        ensures
            final(self).wf(),
            final(self).same_settings(*old(self)),
            final(self).accepted() == old(self).accepted(),
            final(self).sent() == old(self).sent(),
            final(self).unwritten() == old(self).unwritten(),
            final(self).finishing() == old(self).finishing(),
            final(self).failed() == old(self).failed(),
            if !old(self).idle() || old(self).unwritten().len() > 0 {
                step is NeedDrain
            } else if old(self).dirty() {
                step matches EndStep::Dispatch(job) && final(self).busy() && final(self).handed_out(
                    job,
                ) && job.input() == old(self).batch() && job.step() == Step::Flush
            } else {
                step is Forward && zstd_plaintext(final(self).dictionary(), final(self).sent())
                    == final(self).accepted()
            },
            final(self).dirty() == (old(self).dirty() && !(step is Dispatch)),
            !(step is Dispatch) ==> final(self).batch() == old(self).batch() && final(self).idle()
                == old(self).idle() && final(self).busy() == old(self).busy(),
    {
        if !self.drained() {
            return EndStep::NeedDrain;
        }
        if self.dirty && !self.finishing {
            self.dirty = false;
            proof {
                assert(self.unwritten() =~= Seq::<u8>::empty());
                assert(self.sent@ + Seq::<u8>::empty() =~= self.sent@);
            }
            if let Some(job) = self.dispatch(Step::Flush) {
                return EndStep::Dispatch(job);
            }
        }
        proof {
            self.law_flushed_bytes_decompress();
        }
        EndStep::Forward
    }

    /// Goes on with a shutdown. Once it is through, what was sent is a complete stream that
    /// decompresses to everything that was taken.
    pub fn shutdown_step(&mut self) -> (step: EndStep)
        requires
            old(self).wf(),
        ensures
            final(self).wf(),
            final(self).same_settings(*old(self)),
            final(self).accepted() == old(self).accepted(),
            final(self).sent() == old(self).sent(),
            final(self).unwritten() == old(self).unwritten(),
            final(self).failed() == old(self).failed(),
            if !old(self).idle() || old(self).unwritten().len() > 0 {
                step is NeedDrain
            } else if !old(self).finishing() {
                step matches EndStep::Dispatch(job) && final(self).busy() && final(self).handed_out(
                    job,
                ) && job.input() == old(self).batch() && job.step() == Step::Finish
            } else {
                step is Forward && zstd_ended(final(self).sent()) && zstd_plaintext(
                    final(self).dictionary(),
                    final(self).sent(),
                ) == final(self).accepted()
            },
            final(self).finishing() == (old(self).finishing() || step is Dispatch),
            final(self).dirty() == (old(self).dirty() && !(step is Dispatch)),
            !(step is Dispatch) ==> final(self).batch() == old(self).batch() && final(self).idle()
                == old(self).idle() && final(self).busy() == old(self).busy(),
    {
        if !self.drained() {
            return EndStep::NeedDrain;
        }
        if !self.finishing {
            self.finishing = true;
            self.dirty = false;
            proof {
                assert(self.unwritten() =~= Seq::<u8>::empty());
                assert(self.sent@ + Seq::<u8>::empty() =~= self.sent@);
            }
            if let Some(job) = self.dispatch(Step::Finish) {
                return EndStep::Dispatch(job);
            }
        }
        proof {
            self.law_a_shutdown_completes_the_stream();
        }
        EndStep::Forward
    }
}

} // verus!
