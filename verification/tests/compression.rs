use rand::{rngs::StdRng, RngExt, SeedableRng};
use rathole::compression::encoder::{
    Call, DrainStep, EncoderError, EndStep, Job, OffloadedZstdEncoder, Progress, Step, WriteStep,
    BATCH_SIZE,
};
use rathole::compression::train::{
    train_dictionary, training_result, TrainError, MIN_SAMPLE_COUNT, TEST_MAX_DICT, TEST_WINDOW,
};
use rathole::constants::DEFAULT_ZSTD_LEVEL;
use std::io::{Read, Write};

const DICT: &[u8] = b"rathole-zstd-dictionary: tcp udp tunnel payload service token";
const WRONG_DICT: &[u8] = b"different-zstd-dictionary: alpha beta gamma delta epsilon";

/// An encoder, the bytes that it sent, and the number of jobs that ran for it.
struct Sender {
    encoder: OffloadedZstdEncoder,
    wire: Vec<u8>,
    jobs: usize,
}

impl Sender {
    fn new(level: i32) -> Sender {
        Sender { encoder: OffloadedZstdEncoder::new(level).unwrap(), wire: Vec::new(), jobs: 0 }
    }

    fn with_dict(level: i32, dictionary: &[u8]) -> Sender {
        let encoder = OffloadedZstdEncoder::with_dict(level, dictionary).unwrap();
        Sender { encoder, wire: Vec::new(), jobs: 0 }
    }

    fn run(&mut self, job: Job) {
        self.jobs += 1;
        assert_eq!(self.encoder.drain_step(), DrainStep::AwaitJob);
        let back = job.run();
        self.encoder.on_job(back).unwrap();
        self.drain();
    }

    fn drain(&mut self) {
        loop {
            match self.encoder.drain_step() {
                DrainStep::Done => return,
                DrainStep::Write => {
                    let n = self.encoder.pending_output().len().min(1009);
                    let part = self.encoder.pending_output()[..n].to_vec();
                    self.wire.extend_from_slice(&part);
                    self.encoder.on_written(n).unwrap();
                }
                DrainStep::AwaitJob | DrainStep::Fail(_) => panic!("the job is not back"),
            }
        }
    }

    fn write_all(&mut self, mut data: &[u8]) -> Result<(), EncoderError> {
        while !data.is_empty() {
            match self.encoder.write_step(data) {
                WriteStep::Taken { len, job } => {
                    data = &data[len..];
                    if let Some(job) = job {
                        self.run(job);
                    }
                }
                WriteStep::NeedDrain => self.drain(),
                WriteStep::Fail(e) => return Err(e),
            }
        }
        Ok(())
    }

    fn flush(&mut self) {
        loop {
            match self.encoder.flush_step() {
                EndStep::NeedDrain => self.drain(),
                EndStep::Dispatch(job) => self.run(job),
                EndStep::Forward => return,
            }
        }
    }

    fn shutdown(&mut self) {
        loop {
            match self.encoder.shutdown_step() {
                EndStep::NeedDrain => self.drain(),
                EndStep::Dispatch(job) => self.run(job),
                EndStep::Forward => return,
            }
        }
    }
}

/// What a decoder gives out once it was given the bytes.
fn decode(dictionary: &[u8], compressed: &[u8]) -> std::io::Result<Vec<u8>> {
    let mut decoder = zstd::stream::write::Decoder::with_dictionary(Vec::new(), dictionary)?;
    decoder.write_all(compressed)?;
    decoder.flush()?;
    Ok(decoder.into_inner())
}

/// What a decoder gives out that refuses bytes whose last frame is cut short.
fn decode_to_end(dictionary: &[u8], compressed: &[u8]) -> std::io::Result<Vec<u8>> {
    let mut decoder = zstd::stream::read::Decoder::with_dictionary(compressed, dictionary)?;
    let mut plaintext = Vec::new();
    decoder.read_to_end(&mut plaintext)?;
    Ok(plaintext)
}

fn compressed_len(payload: &[u8], dictionary: Option<&[u8]>, level: i32) -> usize {
    let mut compressor = match dictionary {
        Some(dictionary) => Sender::with_dict(level, dictionary),
        None => Sender::new(level),
    };
    compressor.write_all(payload).unwrap();
    compressor.shutdown();
    compressor.wire.len()
}

#[test]
fn roundtrips_bytes_over_duplex_stream() {
    let mut sender = Sender::new(DEFAULT_ZSTD_LEVEL);
    let payload = b"repetitive tunnel payload ".repeat(128);

    sender.write_all(&payload).unwrap();
    sender.shutdown();

    assert_eq!(decode_to_end(b"", &sender.wire).unwrap(), payload);
    assert!(sender.wire.len() < payload.len());
}

#[test]
fn flush_makes_open_stream_decodable() {
    let mut sender = Sender::new(DEFAULT_ZSTD_LEVEL);
    let payload = b"decodable before frame close";

    sender.write_all(payload).unwrap();
    assert!(sender.wire.is_empty());
    sender.flush();

    assert_eq!(decode(b"", &sender.wire).unwrap(), payload);
}

#[test]
fn roundtrips_bytes_with_raw_dictionary() {
    let mut sender = Sender::with_dict(DEFAULT_ZSTD_LEVEL, DICT);
    let payload = DICT.repeat(32);

    sender.write_all(&payload).unwrap();
    sender.shutdown();

    assert_eq!(decode_to_end(DICT, &sender.wire).unwrap(), payload);
}

#[test]
fn reading_with_wrong_dictionary_returns_error() {
    let mut sender = Sender::with_dict(DEFAULT_ZSTD_LEVEL, DICT);
    let payload = DICT.repeat(32);

    sender.write_all(&payload).unwrap();
    sender.shutdown();

    assert!(decode_to_end(WRONG_DICT, &sender.wire).is_err());
}

#[test]
fn trained_dictionary_reduces_compressed_output_size() {
    const WINDOW: usize = 409_600;
    const MAX_DICT_SIZE: usize = 4_096;
    let sample_size = WINDOW / MIN_SAMPLE_COUNT;
    let mut samples: Vec<u8> = Vec::with_capacity(WINDOW);
    let mut sizes: Vec<usize> = Vec::with_capacity(MIN_SAMPLE_COUNT);
    for index in 0..MIN_SAMPLE_COUNT {
        let record = format!(
            "{{\"service\":\"tunnel-{index}\",\"route\":{},\"status\":{},\"payload\":\"rathole repetitive payload block {}\"}}\n",
            index % 3,
            index % 2,
            index % 4
        );
        let start = samples.len();
        samples.extend(record.as_bytes().iter().copied().cycle().take(sample_size));
        sizes.push(samples.len() - start);
    }
    let remainder = WINDOW - samples.len();
    samples.extend(std::iter::repeat(b' ').take(remainder));
    *sizes.last_mut().unwrap() += remainder;
    let dictionary = train_dictionary(&samples, &sizes, MAX_DICT_SIZE).unwrap();
    let payload = b"{\"service\":\"tunnel-new\",\"route\":1,\"status\":0,\"payload\":\"rathole repetitive payload block 3\"}\n";

    let with_dictionary = compressed_len(payload, Some(&dictionary), DEFAULT_ZSTD_LEVEL);
    let without_dictionary = compressed_len(payload, None, DEFAULT_ZSTD_LEVEL);

    assert!(
        with_dictionary < without_dictionary,
        "trained dictionary must reduce compressed bytes: with={with_dictionary}, without={without_dictionary}"
    );
}

#[test]
fn higher_level_compresses_repetitive_payload_smaller() {
    let payload = b"rathole json {\"status\":200,\"msg\":\"ok\"}\n".repeat(256);
    let fastest = compressed_len(&payload, None, 1);
    let default = compressed_len(&payload, None, DEFAULT_ZSTD_LEVEL);
    let high = compressed_len(&payload, None, 19);
    assert!(
        default <= fastest,
        "default level must not expand vs level 1: default={default}, fastest={fastest}"
    );
    assert!(
        high <= default,
        "level 19 must not expand vs default: high={high}, default={default}"
    );
}

#[test]
fn shutdown_closes_one_direction_only() {
    let mut left = Sender::new(DEFAULT_ZSTD_LEVEL);
    let mut right = Sender::new(DEFAULT_ZSTD_LEVEL);
    let outbound = b"left to right after shutdown";
    let reverse = b"right to left remains open";

    left.write_all(outbound).unwrap();
    left.shutdown();
    right.write_all(reverse).unwrap();
    right.flush();

    assert_eq!(decode_to_end(b"", &left.wire).unwrap(), outbound);
    assert_eq!(decode(b"", &right.wire).unwrap(), reverse);
    assert_eq!(left.write_all(b"late"), Err(EncoderError::WriteAfterShutdown));
    assert_eq!(right.write_all(b"more"), Ok(()));
}

fn payload(len: usize) -> Vec<u8> {
    b"{\"service\":\"tunnel\",\"status\":200,\"payload\":\"rathole offload\"}\n"
        .iter()
        .copied()
        .cycle()
        .take(len)
        .collect()
}

#[test]
fn compresses_on_blocking_pool_not_runtime_thread() {
    let mut sender = Sender::new(19);

    sender.write_all(&payload(3 * BATCH_SIZE + 17)).unwrap();
    assert_eq!(sender.jobs, 3);
    sender.flush();

    // Every batch left the writer as a job of its own, and the flush did too.
    assert!(sender.jobs >= 4, "expected batched jobs, got {}", sender.jobs);
}

#[test]
fn roundtrips_multi_batch_stream_with_interleaved_flushes() {
    let mut sender = Sender::new(3);
    let data = payload(5 * BATCH_SIZE / 2 + 333);

    for (index, chunk) in data.chunks(7919).enumerate() {
        sender.write_all(chunk).unwrap();
        if index % 5 == 0 {
            sender.flush();
        }
    }
    sender.shutdown();

    assert_eq!(decode_to_end(b"", &sender.wire).unwrap(), data);
}

#[test]
fn flush_delivers_partial_batch_before_shutdown() {
    let mut sender = Sender::with_dict(19, b"offload dictionary");
    let message = b"data: first server-sent event\n\n";

    sender.write_all(message).unwrap();
    sender.flush();

    assert_eq!(decode(b"offload dictionary", &sender.wire).unwrap(), message);
    let sent = sender.wire.len();
    // Nothing new: nothing to flush.
    sender.flush();
    assert_eq!(sender.wire.len(), sent);
    assert_eq!(sender.jobs, 1);
}

#[test]
fn empty_stream_shuts_down_to_valid_frame() {
    let mut sender = Sender::new(3);

    sender.shutdown();

    assert!(!sender.wire.is_empty());
    assert!(zstd::decode_all(&sender.wire[..]).unwrap().is_empty());
}

#[test]
fn write_after_shutdown_fails() {
    let mut sender = Sender::new(3);
    sender.shutdown();

    let result = sender.write_all(b"late");

    assert_eq!(result, Err(EncoderError::WriteAfterShutdown));
    assert_eq!(result.unwrap_err().message(), "write after shutdown");
}

#[test]
fn a_failed_job_ends_the_encoder() {
    let mut sender = Sender::new(3);
    sender.write_all(b"lost").unwrap();
    let EndStep::Dispatch(_) = sender.encoder.flush_step() else {
        panic!("a flush hands out a job");
    };
    let failure = || EncoderError::Zstd("out of memory".to_string());
    assert_eq!(sender.encoder.on_job(Err(failure())), Err(failure()));
    assert_eq!(sender.encoder.drain_step(), DrainStep::Fail(EncoderError::FailedEarlier));
    assert_eq!(EncoderError::FailedEarlier.message(), "zstd encoder failed earlier");
    assert_eq!(failure().message(), "out of memory");
}

#[test]
fn a_writer_that_takes_nothing_is_an_error() {
    let mut sender = Sender::new(3);
    let EndStep::Dispatch(job) = sender.encoder.shutdown_step() else {
        panic!("a shutdown hands out a job");
    };
    sender.encoder.on_job(job.run()).unwrap();
    assert_eq!(sender.encoder.drain_step(), DrainStep::Write);
    assert_eq!(sender.encoder.on_written(0), Err(EncoderError::WriteZero));
    assert_eq!(EncoderError::WriteZero.message(), "write zero");
}

const SEEDS: [u64; 8] = [7, 19, 41, 73, 101, 149, 211, 307];

fn corpus(seed: u64, window: usize, sample_count: usize) -> (Vec<u8>, Vec<usize>) {
    let mut rng = StdRng::seed_from_u64(seed);
    let base_size = window / sample_count;
    let remainder = window % sample_count;
    let mut samples: Vec<u8> = Vec::with_capacity(window);
    let mut sizes: Vec<usize> = Vec::with_capacity(sample_count);

    for index in 0..sample_count {
        let sample_size = base_size + usize::from(index < remainder);
        let user_id = rng.random_range(0..64);
        let route = rng.random_range(0..8);
        let status = rng.random_range(0..5);
        let record = format!(
            "{{\"service\":\"tunnel-{route}\",\"user\":{user_id},\"status\":{status},\"payload\":\"rathole repetitive payload block {route} {status}\"}}\n"
        );
        let start = samples.len();
        while samples.len() - start < sample_size {
            let remaining = sample_size - (samples.len() - start);
            samples.extend_from_slice(&record.as_bytes()[..remaining.min(record.len())]);
        }
        sizes.push(sample_size);
    }

    (samples, sizes)
}

#[test]
fn training_constants_succeed_for_reproducible_corpora() {
    for seed in SEEDS {
        let (samples, sizes) = corpus(seed, TEST_WINDOW, MIN_SAMPLE_COUNT);
        let dictionary = train_dictionary(&samples, &sizes, TEST_MAX_DICT).unwrap();

        assert!(!dictionary.is_empty(), "trained dictionary is empty");
        assert!(
            dictionary.len() <= TEST_MAX_DICT,
            "trained dictionary exceeds configured maximum"
        );
        // The same corpus gives the same dictionary.
        assert_eq!(train_dictionary(&samples, &sizes, TEST_MAX_DICT).unwrap(), dictionary);
    }
}

#[test]
fn one_fewer_than_minimum_sample_count_is_rejected() {
    for seed in SEEDS {
        let (samples, sizes) = corpus(seed, TEST_WINDOW, MIN_SAMPLE_COUNT - 1);
        assert!(
            train_dictionary(&samples, &sizes, TEST_MAX_DICT).is_err(),
            "six samples unexpectedly trained for seed {seed}"
        );
    }
}

#[test]
fn insufficient_samples_return_training_error() {
    let (samples, sizes) = corpus(7, 300, 3);

    let error = train_dictionary(&samples, &sizes, TEST_MAX_DICT)
        .expect_err("three tiny samples must not train a dictionary");

    let message = error.message();
    assert!(
        message.to_ascii_lowercase().contains("train"),
        "training error lacks context: {message}"
    );
}

#[test]
fn sizes_that_do_not_add_up_are_rejected() {
    let (samples, mut sizes) = corpus(7, TEST_WINDOW, MIN_SAMPLE_COUNT);
    sizes[0] += 1;
    assert!(train_dictionary(&samples, &sizes, TEST_MAX_DICT).is_err());
    assert!(train_dictionary(&samples, &sizes, usize::MAX).is_err());
    assert_eq!(training_result(Some(vec![1, 2])), Ok(vec![1, 2]));
    assert_eq!(training_result(None), Err(TrainError));
}

#[test]
fn an_encoder_without_a_dictionary_is_made_for_every_level() {
    for level in [i32::MIN, -1, 0, 1, DEFAULT_ZSTD_LEVEL, 22, i32::MAX] {
        assert!(OffloadedZstdEncoder::new(level).is_ok(), "level {level}");
        assert!(OffloadedZstdEncoder::with_dict(level, b"").is_ok(), "level {level}");
    }
    let refused = OffloadedZstdEncoder::from_encoder(Err("out of memory".to_string()));
    assert_eq!(refused.err(), Some(EncoderError::Zstd("out of memory".to_string())));
}

#[test]
fn a_dictionary_that_zstd_cannot_use_fails_the_first_job() {
    // The magic number of a trained dictionary, and nothing of use behind it.
    let mut dictionary = vec![0x37, 0xa4, 0x30, 0xec];
    dictionary.extend_from_slice(&[0; 60]);
    let mut encoder = OffloadedZstdEncoder::with_dict(3, &dictionary).unwrap();
    assert!(matches!(encoder.write_step(b"payload"), WriteStep::Taken { len: 7, job: None }));
    match encoder.flush_step() {
        EndStep::Dispatch(job) => {
            let back = job.run();
            let refused = EncoderError::Zstd("Allocation error : not enough memory".to_string());
            assert_eq!(encoder.on_job(back), Err(refused));
        }
        _ => panic!("the flush hands out no job"),
    }
    assert_eq!(encoder.drain_step(), DrainStep::Fail(EncoderError::FailedEarlier));
}

#[test]
fn a_shutdown_completes_a_stream_that_a_flush_leaves_open() {
    let data = payload(2 * BATCH_SIZE + 4321);
    for dictionary in [b"".as_slice(), DICT] {
        let mut sender = Sender::with_dict(3, dictionary);
        for chunk in data.chunks(50_000) {
            sender.write_all(chunk).unwrap();
        }
        sender.flush();
        assert_eq!(decode(dictionary, &sender.wire).unwrap(), data);
        assert!(decode_to_end(dictionary, &sender.wire).is_err());

        sender.shutdown();
        assert_eq!(decode_to_end(dictionary, &sender.wire).unwrap(), data);

        let complete = sender.wire.clone();
        assert_eq!(sender.write_all(b"late"), Err(EncoderError::WriteAfterShutdown));
        sender.flush();
        sender.shutdown();
        assert_eq!(sender.wire, complete);
    }
}

#[test]
fn bytes_that_do_not_compress_make_a_complete_stream_too() {
    let mut rng = StdRng::seed_from_u64(5);
    let data: Vec<u8> = (0..3 * BATCH_SIZE + 99).map(|_| rng.random()).collect();
    for step in [1, 4096, BATCH_SIZE + 1, data.len()] {
        let data = if step == 1 { &data[..300] } else { &data[..] };
        let mut sender = Sender::new(1);
        for chunk in data.chunks(step) {
            sender.write_all(chunk).unwrap();
        }
        sender.shutdown();
        assert_eq!(decode_to_end(b"", &sender.wire).unwrap(), data);
    }
}

#[test]
fn a_run_feeds_first_and_then_flushes_until_nothing_is_left() {
    let mut progress = Progress::start();
    assert_eq!(progress.next_call(0, Step::Compress), None);
    assert_eq!(progress.next_call(0, Step::Flush), Some(Call::Flush));
    assert_eq!(progress.next_call(0, Step::Finish), Some(Call::Finish));
    assert_eq!(progress.next_call(7, Step::Finish), Some(Call::Feed));

    assert_eq!(progress.on_answer(Call::Feed, Ok((4, b"ab".to_vec()))), Ok(()));
    assert_eq!((progress.at, progress.ended), (4, false));
    assert_eq!(progress.next_call(7, Step::Flush), Some(Call::Feed));
    assert_eq!(progress.rest(b"1234567"), b"567");
    assert_eq!(progress.on_answer(Call::Feed, Ok((3, Vec::new()))), Ok(()));
    assert_eq!((progress.at, progress.ended), (7, false));

    assert_eq!(progress.next_call(7, Step::Flush), Some(Call::Flush));
    assert_eq!(progress.on_answer(Call::Flush, Ok((5, b"cd".to_vec()))), Ok(()));
    assert_eq!((progress.at, progress.ended), (7, false));
    assert_eq!(progress.on_answer(Call::Flush, Ok((0, b"e".to_vec()))), Ok(()));
    assert_eq!((progress.at, progress.ended), (7, true));
    assert_eq!(progress.next_call(7, Step::Flush), None);
    assert_eq!(progress.output, b"abcde");
}

#[test]
fn a_run_fails_with_what_zstd_says() {
    for call in [Call::Feed, Call::Flush, Call::Finish] {
        let mut progress = Progress { at: 2, output: b"out".to_vec(), ended: false };
        let answer = progress.on_answer(call, Err("no space".to_string()));
        assert_eq!(answer, Err(EncoderError::Zstd("no space".to_string())));
        assert_eq!((progress.at, progress.ended), (2, false));
        assert_eq!(progress.output, b"out");
    }
}
