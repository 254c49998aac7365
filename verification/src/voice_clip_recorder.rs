use std::collections::HashMap;
use vstd::prelude::*;

verus! {

/// Bits in one PCM sample.
pub const BITS_PER_SAMPLE: u16 = 16;
/// The recorder keeps mono audio.
pub const NUM_CHANNELS: u16 = 1;
/// Bytes per sample frame (all channels).
pub const BLOCK_ALIGN: u16 = NUM_CHANNELS * (BITS_PER_SAMPLE / 8);
/// How many seconds of audio a buffer keeps.
pub const BUFFER_SECONDS: usize = 60;
/// Samples per second.
pub const SAMPLE_RATE: u32 = 48_000;
/// Bytes per second of audio.
pub const BYTE_RATE: u32 = 96_000;
/// Capacity of a buffer in samples: `SAMPLE_RATE * BUFFER_SECONDS`.
pub const MAX_SAMPLES: usize = 2_880_000;

/// The constants agree: a buffer holds `BUFFER_SECONDS` of audio, and the WAV header's
/// byte rate and block alignment follow from the sample format.
pub proof fn lemma_format_constants()
    ensures
        MAX_SAMPLES == SAMPLE_RATE * BUFFER_SECONDS,
        BYTE_RATE == SAMPLE_RATE * NUM_CHANNELS * (BITS_PER_SAMPLE / 8),
        BLOCK_ALIGN == 2,
{
}

/// The last `n` elements of `s` (all of `s` when it is shorter).
pub open spec fn keep_last(s: Seq<i16>, n: nat) -> Seq<i16> {
    if s.len() <= n {
        s
    } else {
        s.subrange(s.len() - n, s.len() as int)
    }
}

/// Whether `s` ends with `suffix`.
pub open spec fn ends_with(s: Seq<i16>, suffix: Seq<i16>) -> bool {
    suffix.len() <= s.len() && s.subrange(s.len() - suffix.len(), s.len() as int) == suffix
}

/// Whatever came before, the last samples written are at the end of what is kept.
pub proof fn lemma_latest_samples_kept(before: Seq<i16>, pcm: Seq<i16>)
    ensures
        ends_with(keep_last(before + pcm, MAX_SAMPLES as nat), keep_last(pcm, MAX_SAMPLES as nat)),
{
    let all = before + pcm;
    let kept = keep_last(all, MAX_SAMPLES as nat);
    let tail = keep_last(pcm, MAX_SAMPLES as nat);
    assert(kept.subrange(kept.len() - tail.len(), kept.len() as int) =~= tail);
}

/// `n` samples of silence.
pub open spec fn silence(n: nat) -> Seq<i16> {
    Seq::new(n, |i: int| 0i16)
}

/// The silence that stands for a gap of `elapsed_ms` milliseconds between two frames:
/// the gap minus one 20 ms voice tick, at the sample rate, at most a full buffer.
pub open spec fn gap_samples(elapsed_ms: int) -> nat {
    let missing: int = ((elapsed_ms - 20) * SAMPLE_RATE) / 1000;
    if missing < MAX_SAMPLES {
        missing as nat
    } else {
        MAX_SAMPLES as nat
    }
}

/// The recording once a gap of `elapsed` milliseconds since the previous frame is
/// accounted for: a gap over 35 ms and under a minute is filled with silence, a gap of a
/// minute or more discards what was recorded.
pub open spec fn after_gap(rec: Seq<i16>, elapsed: Option<usize>) -> Seq<i16> {
    match elapsed {
        None => rec,
        Some(e) => if 35 < e && e < BUFFER_SECONDS * 1000 {
            keep_last(rec + silence(gap_samples(e as int)), MAX_SAMPLES as nat)
        } else if e >= BUFFER_SECONDS * 1000 {
            Seq::empty()
        } else {
            rec
        },
    }
}

/// The two's-complement bit pattern of a sample, as an unsigned number.
pub open spec fn sample_bits(x: i16) -> int {
    if x < 0 {
        x + 65536
    } else {
        x as int
    }
}

/// A 16-bit value as two little-endian bytes.
pub open spec fn le16(v: int) -> Seq<u8> {
    seq![(v % 256) as u8, (v / 256) as u8]
}

/// A 32-bit value as four little-endian bytes.
pub open spec fn le32(v: int) -> Seq<u8> {
    seq![(v % 256) as u8, ((v / 256) % 256) as u8, ((v / 65536) % 256) as u8, (v / 16777216) as u8]
}

/// Samples as 16-bit little-endian PCM bytes.
pub open spec fn pcm_bytes(s: Seq<i16>) -> Seq<u8>
    decreases s.len(),
{
    if s.len() == 0 {
        Seq::empty()
    } else {
        pcm_bytes(s.drop_last()) + le16(sample_bits(s.last()))
    }
}

/// The canonical 44-byte RIFF/WAVE header for `n` mono 16-bit samples at 48 kHz.
pub open spec fn wav_header(n: nat) -> Seq<u8> {
    seq![0x52u8, 0x49u8, 0x46u8, 0x46u8] + le32((36 + 2 * n) as int) + seq![0x57u8, 0x41u8, 0x56u8, 0x45u8]
        + seq![0x66u8, 0x6du8, 0x74u8, 0x20u8] + le32(16) + le16(1) + le16(NUM_CHANNELS as int)
        + le32(SAMPLE_RATE as int) + le32(BYTE_RATE as int) + le16(BLOCK_ALIGN as int) + le16(
        BITS_PER_SAMPLE as int,
    ) + seq![0x64u8, 0x61u8, 0x74u8, 0x61u8] + le32((2 * n) as int)
}

/// A WAV file holding the samples `s`.
pub open spec fn wav_file(s: Seq<i16>) -> Seq<u8> {
    wav_header(s.len()) + pcm_bytes(s)
}

/// The sample whose little-endian bytes are `lo`, `hi`.
pub open spec fn decode_sample(lo: u8, hi: u8) -> i16 {
    let u: int = lo + 256 * hi;
    if u >= 32768 {
        (u - 65536) as i16
    } else {
        u as i16
    }
}

/// Reads 16-bit little-endian PCM bytes back as samples.
pub open spec fn decode_pcm(bytes: Seq<u8>) -> Seq<i16> {
    Seq::new(bytes.len() / 2, |i: int| decode_sample(bytes[2 * i], bytes[2 * i + 1]))
}

proof fn lemma_sample_roundtrip(x: i16)
    ensures
        decode_sample(le16(sample_bits(x))[0], le16(sample_bits(x))[1]) == x,
{
    let u: int = sample_bits(x);
    assert(0 <= u < 65536);
    assert(u == (u % 256) + 256 * (u / 256)) by (nonlinear_arith)
        requires 0 <= u;
    assert(u / 256 < 256) by (nonlinear_arith)
        requires 0 <= u < 65536;
}

proof fn lemma_pcm_bytes_layout(s: Seq<i16>)
    ensures
        pcm_bytes(s).len() == 2 * s.len(),
        forall|i: int|
            0 <= i < s.len() ==> #[trigger] pcm_bytes(s)[2 * i] == le16(sample_bits(s[i]))[0]
                && pcm_bytes(s)[2 * i + 1] == le16(sample_bits(s[i]))[1],
    decreases s.len(),
{
    if s.len() > 0 {
        lemma_pcm_bytes_layout(s.drop_last());
        let prev = pcm_bytes(s.drop_last());
        assert forall|i: int| 0 <= i < s.len() implies #[trigger] pcm_bytes(s)[2 * i] == le16(
            sample_bits(s[i]),
        )[0] && pcm_bytes(s)[2 * i + 1] == le16(sample_bits(s[i]))[1] by {
            if i < s.len() - 1 {
                assert(s.drop_last()[i] == s[i]);
                assert(prev[2 * i] == le16(sample_bits(s[i]))[0]);
            }
        }
    }
}

/// The WAV file of a recording is its 44-byte header followed by the samples, and reading
/// the data that follows the header back as PCM gives the recording again.
pub proof fn lemma_wav_roundtrip(s: Seq<i16>)
    ensures
        wav_file(s).len() == 44 + 2 * s.len(),
        wav_file(s).subrange(0, 44) == wav_header(s.len()),
        decode_pcm(wav_file(s).subrange(44, wav_file(s).len() as int)) == s,
{
    lemma_pcm_bytes_layout(s);
    let data = wav_file(s).subrange(44, wav_file(s).len() as int);
    assert(data =~= pcm_bytes(s));
    assert forall|i: int| 0 <= i < s.len() implies #[trigger] decode_pcm(data)[i] == s[i] by {
        lemma_sample_roundtrip(s[i]);
        assert(data[2 * i] == pcm_bytes(s)[2 * i]);
    }
    assert(decode_pcm(data) =~= s);
    assert(wav_file(s).subrange(0, 44) =~= wav_header(s.len()));
}

/// The 32-bit little-endian number stored in the four bytes of `b` from `at`.
pub open spec fn read_le32(b: Seq<u8>, at: int) -> int {
    b[at] + 256 * b[at + 1] + 65536 * b[at + 2] + 16777216 * b[at + 3]
}

/// The 16-bit little-endian number stored in the two bytes of `b` from `at`.
pub open spec fn read_le16(b: Seq<u8>, at: int) -> int {
    b[at] + 256 * b[at + 1]
}

proof fn lemma_le32_reads_back(v: int)
    requires
        0 <= v < 0x1_0000_0000,
    ensures
        read_le32(le32(v), 0) == v,
{
    let x: u32 = v as u32;
    assert(x == (x % 256) + 256 * ((x / 256) % 256) + 65536 * ((x / 65536) % 256) + 16777216 * (x
        / 16777216)) by (bit_vector);
    assert(x / 16777216 < 256) by (bit_vector);
}

proof fn lemma_le16_reads_back(v: int)
    requires
        0 <= v < 0x1_0000,
    ensures
        read_le16(le16(v), 0) == v,
{
    let x: u16 = v as u16;
    assert(x == (x % 256) + 256 * (x / 256)) by (bit_vector);
    assert(x / 256 < 256) by (bit_vector);
}

/// The header of a recording's WAV file states its true sizes and format: the RIFF chunk
/// size at byte 4 is 36 plus the data bytes, the data chunk size at byte 40 is the data
/// bytes (two per sample), and the file is exactly that long; the format is PCM (1), mono,
/// 48 000 samples per second, 96 000 bytes per second, 2-byte frames of 16 bits.
pub proof fn lemma_wav_header_sizes(s: Seq<i16>)
    requires
        s.len() <= MAX_SAMPLES,
    ensures
        wav_file(s).len() == 44 + 2 * s.len(),
        read_le32(wav_file(s), 4) == 36 + 2 * s.len(),
        read_le32(wav_file(s), 40) == 2 * s.len(),
        read_le32(wav_file(s), 40) + 44 == wav_file(s).len(),
        read_le32(wav_file(s), 16) == 16,
        read_le16(wav_file(s), 20) == 1,
        read_le16(wav_file(s), 22) == 1,
        read_le32(wav_file(s), 24) == 48_000,
        read_le32(wav_file(s), 28) == 96_000,
        read_le16(wav_file(s), 32) == 2,
        read_le16(wav_file(s), 34) == 16,
{
    lemma_wav_roundtrip(s);
    let n = s.len();
    let f = wav_file(s);
    let h = wav_header(n);
    assert(f.subrange(0, 44) == h);
    assert forall|i: int| 0 <= i < 44 implies f[i] == #[trigger] h[i] by {
        assert(f.subrange(0, 44)[i] == f[i]);
    }
    let riff = le32((36 + 2 * n) as int);
    let data = le32((2 * n) as int);
    lemma_le32_reads_back((36 + 2 * n) as int);
    lemma_le32_reads_back((2 * n) as int);
    lemma_le32_reads_back(16);
    lemma_le32_reads_back(48_000);
    lemma_le32_reads_back(96_000);
    lemma_le16_reads_back(1);
    lemma_le16_reads_back(2);
    lemma_le16_reads_back(16);
    assert(h[4] == riff[0] && h[5] == riff[1] && h[6] == riff[2] && h[7] == riff[3]);
    assert(h[40] == data[0] && h[41] == data[1] && h[42] == data[2] && h[43] == data[3]);
    assert(h[16] == le32(16)[0] && h[17] == le32(16)[1] && h[18] == le32(16)[2] && h[19] == le32(16)[3]);
    assert(h[20] == le16(1)[0] && h[21] == le16(1)[1]);
    assert(h[22] == le16(1)[0] && h[23] == le16(1)[1]);
    assert(h[24] == le32(48_000)[0] && h[25] == le32(48_000)[1] && h[26] == le32(48_000)[2]
        && h[27] == le32(48_000)[3]);
    assert(h[28] == le32(96_000)[0] && h[29] == le32(96_000)[1] && h[30] == le32(96_000)[2]
        && h[31] == le32(96_000)[3]);
    assert(h[32] == le16(2)[0] && h[33] == le16(2)[1]);
    assert(h[34] == le16(16)[0] && h[35] == le16(16)[1]);
}

/// The milliseconds from the previous frame at `last` to a frame at `now`, as `push_frame`
/// measures them (taken as a `usize`): none between frames of the same instant.
pub open spec fn frame_gap_ms(now: std::time::Instant, last: std::time::Instant) -> usize {
    if now == last {
        0
    } else {
        duration_millis(instant_gap(now, last)) as usize
    }
}

/// The recording after a frame `pcm` arrives at `now`, when the previous frame arrived at
/// `last_seen` (if ever).
pub open spec fn pushed(rec: Seq<i16>, last_seen: Option<std::time::Instant>, pcm: Seq<i16>, now: std::time::Instant) -> Seq<i16> {
    let elapsed = match last_seen {
        None => None,
        Some(l) => Some(frame_gap_ms(now, l)),
    };
    keep_last(after_gap(rec, elapsed) + pcm, MAX_SAMPLES as nat)
}

/// A per-user ring buffer of the most recent minute of 48 kHz mono PCM.
pub struct UserAudioBuffer {
    buffer: Vec<i16>,
    write_idx: usize,
    total_written: usize,
    last_seen: Option<std::time::Instant>,
}

#[verifier::external_type_specification]
#[verifier::external_body]
pub struct ExInstant(std::time::Instant);

/// Brings a position in `[0, 2 * MAX_SAMPLES)` back into the ring.
pub open spec fn wrap(x: int) -> int {
    if x < MAX_SAMPLES {
        x
    } else {
        x - MAX_SAMPLES
    }
}

/// Index in the ring of the `i`-th oldest of `total` samples that end before `write_idx`.
pub open spec fn ring_pos(write_idx: int, total: int, i: int) -> int {
    wrap(write_idx + MAX_SAMPLES - total + i)
}

/// How far ring position `p` lies after `start`, going round the ring.
pub open spec fn ring_offset(start: int, p: int) -> int {
    if p >= start {
        p - start
    } else {
        p + MAX_SAMPLES - start
    }
}

/// The ring `buf` after `vals` were written into it from position `start` on.
pub open spec fn ring_write(buf: Seq<i16>, start: int, vals: Seq<i16>) -> Seq<i16> {
    Seq::new(
        buf.len(),
        |p: int|
            if ring_offset(start, p) < vals.len() {
                vals[ring_offset(start, p)]
            } else {
                buf[p]
            },
    )
}

/// The samples that `write_samples` stores: silence, or a stretch of `data`.
pub open spec fn incoming(data: Seq<i16>, from: int, count: int, silent: bool) -> Seq<i16> {
    if silent {
        silence(count as nat)
    } else {
        data.subrange(from, from + count)
    }
}

impl UserAudioBuffer {
    /// The ring's internal consistency.
    pub closed spec fn wf(&self) -> bool {
        &&& self.buffer@.len() == MAX_SAMPLES
        &&& self.write_idx < MAX_SAMPLES
        &&& self.total_written <= MAX_SAMPLES
        &&& self.total_written < MAX_SAMPLES ==> self.write_idx == self.total_written
    }

    /// The recorded samples, oldest first.
    pub closed spec fn recording(&self) -> Seq<i16> {
        Seq::new(
            self.total_written as nat,
            |i: int| self.buffer@[ring_pos(self.write_idx as int, self.total_written as int, i)],
        )
    }

    /// Writing `vals` at the write position keeps the last `MAX_SAMPLES` samples.
    proof fn lemma_ring_write_view(&self, vals: Seq<i16>, new_buf: Seq<i16>, new_w: int, new_t: int)
        requires
            self.wf(),
            0 < vals.len() <= MAX_SAMPLES,
            new_buf == ring_write(self.buffer@, self.write_idx as int, vals),
            new_w == wrap(self.write_idx + vals.len()),
            new_t == if self.total_written + vals.len() < MAX_SAMPLES {
                self.total_written + vals.len()
            } else {
                MAX_SAMPLES as int
            },
        ensures
            Seq::new(new_t as nat, |i: int| new_buf[ring_pos(new_w, new_t, i)])
                == keep_last(self.recording() + vals, MAX_SAMPLES as nat),
            new_t < MAX_SAMPLES ==> new_w == new_t,
            0 <= new_w < MAX_SAMPLES,
    {
        let old_rec = self.recording();
        let target = keep_last(old_rec + vals, MAX_SAMPLES as nat);
        let got = Seq::new(new_t as nat, |i: int| new_buf[ring_pos(new_w, new_t, i)]);
        assert(target.len() == new_t);
        assert forall|i: int| 0 <= i < new_t implies got[i] == target[i] by {
            let c: int = vals.len() as int;
            let t: int = self.total_written as int;
            let j: int = t + c - new_t + i;
            assert(target[i] == (old_rec + vals)[j]);
        }
        assert(got =~= target);
    }

    /// Stores `count` samples (silence, or `data[from..from + count]`) at the write
    /// position, wrapping round the end of the ring.
    fn write_samples(&mut self, data: &[i16], from: usize, count: usize, silent: bool)
        requires
            old(self).wf(),
            0 < count <= MAX_SAMPLES,
            silent || from + count <= data.len(),
        ensures
            final(self).wf(),
            final(self).recording() == keep_last(
                old(self).recording() + incoming(data@, from as int, count as int, silent),
                MAX_SAMPLES as nat,
            ),
            final(self).last_seen == old(self).last_seen,
    {
        let ghost vals = incoming(data@, from as int, count as int, silent);
        let ghost old_buf = self.buffer@;
        let ghost before = *self;
        let w: usize = self.write_idx;
        let space_to_end: usize = MAX_SAMPLES - w;
        let first: usize = if count <= space_to_end { count } else { space_to_end };
        let mut j: usize = 0;
        while j < first
            invariant
                old(self).wf(),
                self.buffer@.len() == MAX_SAMPLES,
                self.write_idx == old(self).write_idx,
                self.total_written == old(self).total_written,
                self.last_seen == old(self).last_seen,
                w == old(self).write_idx,
                old_buf == old(self).buffer@,
                first <= count,
                count <= MAX_SAMPLES,
                first <= MAX_SAMPLES - w,
                j <= first,
                vals == incoming(data@, from as int, count as int, silent),
                silent || from + count <= data.len(),
                vals.len() == count,
                self.buffer@ == ring_write(old_buf, w as int, vals.take(j as int)),
            decreases first - j,
        {
            let v: i16 = if silent { 0 } else { data[from + j] };
            self.buffer.set(w + j, v);
            proof {
                assert(v == vals[j as int]);
                assert(self.buffer@ =~= ring_write(old_buf, w as int, vals.take(j + 1)));
            }
            j = j + 1;
        }
        let remaining: usize = count - first;
        let mut k: usize = 0;
        while k < remaining
            invariant
                old(self).wf(),
                self.buffer@.len() == MAX_SAMPLES,
                self.write_idx == old(self).write_idx,
                self.total_written == old(self).total_written,
                self.last_seen == old(self).last_seen,
                w == old(self).write_idx,
                old_buf == old(self).buffer@,
                first <= count,
                count <= MAX_SAMPLES,
                remaining == count - first,
                remaining > 0 ==> first == MAX_SAMPLES - w,
                k <= remaining,
                vals == incoming(data@, from as int, count as int, silent),
                silent || from + count <= data.len(),
                vals.len() == count,
                self.buffer@ == ring_write(old_buf, w as int, vals.take(first + k)),
            decreases remaining - k,
        {
            assert(first + k < count);
            let v: i16 = if silent { 0 } else { data[from + first + k] };
            self.buffer.set(k, v);
            proof {
                assert(v == vals[first + k]);
                assert(self.buffer@ =~= ring_write(old_buf, w as int, vals.take(first + k + 1)));
            }
            k = k + 1;
        }
        proof {
            assert(vals.take(count as int) =~= vals);
            before.lemma_ring_write_view(vals, self.buffer@, wrap(w + count), if self.total_written + count < MAX_SAMPLES {
                self.total_written + count
            } else {
                MAX_SAMPLES as int
            });
        }
        self.write_idx = if count < space_to_end { w + count } else { count - space_to_end };
        self.total_written = if self.total_written + count < MAX_SAMPLES {
            self.total_written + count
        } else {
            MAX_SAMPLES
        };
    }

    /// A buffer with nothing recorded.
    pub fn new() -> (r: Self)
        ensures
            r.wf(),
            r.recording() == Seq::<i16>::empty(),
            r.last_seen() is None,
            r.ring() == Seq::new(MAX_SAMPLES as nat, |i: int| 0i16),
            r.write_index() == 0,
            r.samples_written() == 0,
    {
        let mut buffer: Vec<i16> = Vec::with_capacity(MAX_SAMPLES);
        while buffer.len() < MAX_SAMPLES
            invariant
                buffer.len() <= MAX_SAMPLES,
                buffer@ == Seq::new(buffer.len() as nat, |i: int| 0i16),
            decreases MAX_SAMPLES - buffer.len(),
        {
            buffer.push(0);
            assert(buffer@ =~= Seq::new(buffer.len() as nat, |i: int| 0i16));
        }
        let r = UserAudioBuffer {
            buffer,
            write_idx: 0,
            total_written: 0,
            last_seen: None,
        };
        assert(r.recording() =~= Seq::<i16>::empty());
        r
    }

    /// Pushes incoming PCM samples, bulk-filling silence if the user was quiet.
    ///
    /// The time since the previous frame is measured from the previous frame's instant to
    /// `now`, in whole milliseconds; the recording then grows as `push_frame_after` says.
    pub fn push_frame(&mut self, pcm: &[i16], now: std::time::Instant)
        requires
            old(self).wf(),
        ensures
            final(self).wf(),
            final(self).last_seen() == Some(now),
            final(self).recording() == pushed(old(self).recording(), old(self).last_seen(), pcm@, now),
            old(self).last_seen() == Some(now) ==> final(self).recording() == keep_last(
                old(self).recording() + pcm@,
                MAX_SAMPLES as nat,
            ),
            ends_with(final(self).recording(), keep_last(pcm@, MAX_SAMPLES as nat)),
    {
        let ghost before = self.recording();
        let elapsed: Option<usize> = match self.last_seen {
            Some(last) => {
                let gap = duration_since(now, last);
                let ms: u128 = as_millis(gap);
                Some(ms as usize)
            },
            None => None,
        };
        self.push_frame_after(pcm, elapsed);
        self.last_seen = Some(now);
        proof {
            lemma_latest_samples_kept(after_gap(before, elapsed), pcm@);
        }
    }

    /// The part of `push_frame` that follows the clock reading: `elapsed` is the time in
    /// milliseconds since the previous frame, `None` for the first frame.
    pub fn push_frame_after(&mut self, pcm: &[i16], elapsed: Option<usize>)
        requires
            old(self).wf(),
        ensures
            final(self).wf(),
            final(self).last_seen() == old(self).last_seen(),
            final(self).recording() == keep_last(
                after_gap(old(self).recording(), elapsed) + pcm@,
                MAX_SAMPLES as nat,
            ),
    {
        if let Some(elapsed_ms) = elapsed {
            if elapsed_ms > 35 && elapsed_ms < BUFFER_SECONDS * 1000 {
                assert((elapsed_ms - 20) * (SAMPLE_RATE as usize) <= 60_000 * 48_000) by (nonlinear_arith)
                    requires
                        20 < elapsed_ms < 60_000,
                        SAMPLE_RATE == 48_000,
                ;
                let missing_samples: usize = ((elapsed_ms - 20) * (SAMPLE_RATE as usize)) / 1000;
                let silence_to_fill: usize = if missing_samples < MAX_SAMPLES {
                    missing_samples
                } else {
                    MAX_SAMPLES
                };
                self.write_silence(silence_to_fill);
            } else if elapsed_ms >= BUFFER_SECONDS * 1000 {
                self.write_idx = 0;
                self.total_written = 0;
                assert(self.recording() =~= Seq::<i16>::empty());
            }
        }
        self.write_slice(pcm);
    }

    /// Fills `count` samples of silence into the ring (at most a full buffer).
    pub fn write_silence(&mut self, count: usize)
        requires
            old(self).wf(),
        ensures
            final(self).wf(),
            final(self).last_seen() == old(self).last_seen(),
            final(self).recording() == keep_last(
                old(self).recording() + silence(
                    if count < MAX_SAMPLES {
                        count as nat
                    } else {
                        MAX_SAMPLES as nat
                    },
                ),
                MAX_SAMPLES as nat,
            ),
            count == 0 ==> *final(self) == *old(self),
    {
        let count: usize = if count < MAX_SAMPLES { count } else { MAX_SAMPLES };
        if count == 0 {
            assert(self.recording() + silence(0) =~= self.recording());
            return;
        }
        let empty: [i16; 0] = [];
        self.write_samples(&empty, 0, count, true);
    }

    /// Copies PCM samples into the ring; of more than a buffer's worth only the last
    /// `MAX_SAMPLES` are kept.
    pub fn write_slice(&mut self, data: &[i16])
        requires
            old(self).wf(),
        ensures
            final(self).wf(),
            final(self).last_seen() == old(self).last_seen(),
            final(self).recording() == keep_last(old(self).recording() + data@, MAX_SAMPLES as nat),
            data@.len() == 0 ==> *final(self) == *old(self),
    {
        if data.len() == 0 {
            assert(self.recording() + data@ =~= self.recording());
            return;
        }
        let from: usize = if data.len() > MAX_SAMPLES { data.len() - MAX_SAMPLES } else { 0 };
        let count: usize = data.len() - from;
        self.write_samples(data, from, count, false);
        proof {
            let rec = old(self).recording();
            let kept = data@.subrange(from as int, data@.len() as int);
            assert(keep_last(rec + kept, MAX_SAMPLES as nat) =~= keep_last(rec + data@, MAX_SAMPLES as nat));
        }
    }

    /// The recording as a WAV file; `None` if nothing was recorded.
    pub fn to_wav_bytes(&self) -> (r: Option<Vec<u8>>)
        requires
            self.wf(),
        ensures
            r is None <==> self.recording().len() == 0,
            r matches Some(bytes) ==> bytes@ == wav_file(self.recording()),
            r matches Some(bytes) ==> bytes@.len() == 44 + 2 * self.recording().len() && read_le32(
                bytes@,
                4,
            ) == 36 + 2 * self.recording().len() && read_le32(bytes@, 40) == 2
                * self.recording().len(),
    {
        proof {
            self.lemma_ring_layout();
            lemma_wav_header_sizes(self.recording());
        }
        if self.total_written == 0 {
            return None;
        }
        let total: usize = self.total_written;
        let data_len: u32 = (total * 2) as u32;
        let riff_chunk_size: u32 = 36 + data_len;
        let mut out: Vec<u8> = Vec::with_capacity(44 + data_len as usize);
        push_tag(&mut out, 0x52, 0x49, 0x46, 0x46);
        push_u32_le(&mut out, riff_chunk_size);
        push_tag(&mut out, 0x57, 0x41, 0x56, 0x45);
        push_tag(&mut out, 0x66, 0x6d, 0x74, 0x20);
        push_u32_le(&mut out, 16);
        push_u16_le(&mut out, 1);
        push_u16_le(&mut out, NUM_CHANNELS);
        push_u32_le(&mut out, SAMPLE_RATE);
        push_u32_le(&mut out, BYTE_RATE);
        push_u16_le(&mut out, BLOCK_ALIGN);
        push_u16_le(&mut out, BITS_PER_SAMPLE);
        push_tag(&mut out, 0x64, 0x61, 0x74, 0x61);
        push_u32_le(&mut out, data_len);
        let ghost header = out@;
        let ghost rec = self.recording();
        assert(header =~= wav_header(total as nat));
        let w: usize = self.write_idx;
        let mut i: usize = 0;
        while i < total
            invariant
                self.wf(),
                total == self.total_written,
                w == self.write_idx,
                rec == self.recording(),
                i <= total,
                header == wav_header(total as nat),
                out@ == header + pcm_bytes(rec.take(i as int)),
            decreases total - i,
        {
            let p: usize = if w + MAX_SAMPLES - total + i < MAX_SAMPLES {
                w + MAX_SAMPLES - total + i
            } else {
                w + i - total
            };
            let x: i16 = self.buffer[p];
            push_sample_le(&mut out, x);
            proof {
                assert(x == rec[i as int]);
                assert(rec.take(i + 1).drop_last() =~= rec.take(i as int));
            }
            i = i + 1;
        }
        assert(rec.take(total as int) =~= rec);
        Some(out)
    }

    /// The ring's storage.
    pub closed spec fn ring(&self) -> Seq<i16> {
        self.buffer@
    }

    /// Where the next sample is written.
    pub closed spec fn write_index(&self) -> nat {
        self.write_idx as nat
    }

    /// How many samples the ring holds (at most a full buffer).
    pub closed spec fn samples_written(&self) -> nat {
        self.total_written as nat
    }

    /// The ring's layout: storage of `MAX_SAMPLES` samples, a write position inside it, at
    /// most `MAX_SAMPLES` samples held, which start at position 0 until the ring is full;
    /// the recording is the storage up to the write position, or, once full, the storage
    /// from the write position on followed by the storage before it.
    pub proof fn lemma_ring_layout(&self)
        requires
            self.wf(),
        ensures
            self.ring().len() == MAX_SAMPLES,
            self.write_index() < MAX_SAMPLES,
            self.samples_written() <= MAX_SAMPLES,
            self.samples_written() < MAX_SAMPLES ==> self.write_index() == self.samples_written(),
            self.recording().len() == self.samples_written(),
            self.recording().len() <= MAX_SAMPLES,
            self.recording() == (if self.samples_written() < MAX_SAMPLES {
                self.ring().take(self.write_index() as int)
            } else {
                self.ring().skip(self.write_index() as int) + self.ring().take(
                    self.write_index() as int,
                )
            }),
    {
        let w = self.write_idx as int;
        if self.total_written < MAX_SAMPLES {
            assert(self.recording() =~= self.ring().take(w));
        } else {
            assert(self.recording() =~= self.ring().skip(w) + self.ring().take(w));
        }
    }

    /// When the buffer last received a frame.
    pub closed spec fn last_seen(&self) -> Option<std::time::Instant> {
        self.last_seen
    }
}

fn push_tag(out: &mut Vec<u8>, a: u8, b: u8, c: u8, d: u8)
    ensures
        final(out)@ == old(out)@ + seq![a, b, c, d],
{
    out.push(a);
    out.push(b);
    out.push(c);
    out.push(d);
    assert(final(out)@ =~= old(out)@ + seq![a, b, c, d]);
}

fn push_u16_le(out: &mut Vec<u8>, v: u16)
    ensures
        final(out)@ == old(out)@ + le16(v as int),
{
    out.push((v % 256) as u8);
    out.push((v / 256) as u8);
    assert(final(out)@ =~= old(out)@ + le16(v as int));
}

fn push_u32_le(out: &mut Vec<u8>, v: u32)
    ensures
        final(out)@ == old(out)@ + le32(v as int),
{
    out.push((v % 256) as u8);
    out.push(((v / 256) % 256) as u8);
    out.push(((v / 65536) % 256) as u8);
    out.push((v / 16777216) as u8);
    assert(final(out)@ =~= old(out)@ + le32(v as int));
}

fn push_sample_le(out: &mut Vec<u8>, x: i16)
    ensures
        final(out)@ == old(out)@ + le16(sample_bits(x)),
{
    let bits: u16 = if x < 0 {
        (x as i32 + 65536) as u16
    } else {
        x as u16
    };
    push_u16_le(out, bits);
}

/// One user's decoded audio in a voice tick, by the stream's SSRC.
pub struct VoiceFrame {
    pub ssrc: u32,
    /// Decoded PCM, when the driver could decode the packet.
    pub decoded: Option<Vec<i16>>,
}

/// The voice events the recorder reacts to.
#[allow(inconsistent_fields)]
pub enum VoiceEvent {
    /// Audio of the users that spoke during one tick.
    VoiceTick(Vec<VoiceFrame>),
    /// A stream's SSRC became known, with the user it belongs to when known.
    SpeakingStateUpdate { ssrc: u32, user_id: Option<u64> },
    /// A user left the call.
    ClientDisconnect { user_id: u64 },
    /// The bot's own connection ended.
    DriverDisconnect,
    /// Any other event; ignored.
    Other,
}

/// Why no clip can be made of a user's audio.
#[derive(Debug, Clone, Copy, PartialEq, Eq, Structural)]
pub enum ClipError {
    /// The recorder has no buffer for the user.
    NoRecordedAudio,
    /// The user's buffer holds no samples.
    EmptyRecording,
}

/// Key under which the recorder's state is shared.
pub struct VCRStateKey;

impl Default for UserAudioBuffer {
    fn default() -> (r: Self)
        ensures
            r.wf(),
            r.recording() == Seq::<i16>::empty(),
            r.last_seen() is None,
    {
        UserAudioBuffer::new()
    }
}

/// The recorder's shared state: which user each SSRC belongs to, and each user's audio.
pub struct VoiceClipRecorderState {
    pub ssrc_map: HashMap<u32, u64>,
    pub buffers: HashMap<u64, UserAudioBuffer>,
}

impl Default for VoiceClipRecorderState {
    fn default() -> (r: Self)
        ensures
            r.wf(),
            r.ssrc_map@ == Map::<u32, u64>::empty(),
            r.buffers@ == Map::<u64, UserAudioBuffer>::empty(),
    {
        VoiceClipRecorderState::new()
    }
}

/// The user whose audio `f` carries, if it carries decoded audio of a known stream.
pub open spec fn frame_speaker(ssrc_map: Map<u32, u64>, f: VoiceFrame) -> Option<u64> {
    if f.decoded is Some && ssrc_map.contains_key(f.ssrc) {
        Some(ssrc_map[f.ssrc])
    } else {
        None
    }
}

/// Whether some frame of `frames` carries audio of `uid`.
pub open spec fn spoke_in(ssrc_map: Map<u32, u64>, frames: Seq<VoiceFrame>, uid: u64) -> bool {
    exists|i: int| 0 <= i < frames.len() && #[trigger] frame_speaker(ssrc_map, frames[i]) == Some(uid)
}

/// A buffer's recording and the time of its last frame.
pub type BufferState = (Seq<i16>, Option<std::time::Instant>);

/// What a voice tick at `now` leaves of `uid`'s buffer, which starts as `start`: every frame
/// of `frames` that carries `uid`'s audio is pushed, in order, all at `now`.
pub open spec fn tick_state(
    ssrc_map: Map<u32, u64>,
    frames: Seq<VoiceFrame>,
    uid: u64,
    start: BufferState,
    now: std::time::Instant,
) -> BufferState
    decreases frames.len(),
{
    if frames.len() == 0 {
        start
    } else {
        let prev = tick_state(ssrc_map, frames.drop_last(), uid, start, now);
        if frame_speaker(ssrc_map, frames.last()) == Some(uid) {
            (pushed(prev.0, prev.1, frames.last().decoded->0@, now), Some(now))
        } else {
            prev
        }
    }
}

/// A user's buffer before a tick: the one they have, or a fresh one.
pub open spec fn start_state(buffers: Map<u64, UserAudioBuffer>, uid: u64) -> BufferState {
    if buffers.contains_key(uid) {
        (buffers[uid].recording(), buffers[uid].last_seen())
    } else {
        (Seq::empty(), None)
    }
}

proof fn lemma_tick_state_silent(
    ssrc_map: Map<u32, u64>,
    frames: Seq<VoiceFrame>,
    uid: u64,
    start: BufferState,
    now: std::time::Instant,
)
    requires
        !spoke_in(ssrc_map, frames, uid),
    ensures
        tick_state(ssrc_map, frames, uid, start, now) == start,
    decreases frames.len(),
{
    if frames.len() > 0 {
        let prefix = frames.drop_last();
        assert forall|j: int| 0 <= j < prefix.len() implies #[trigger] frame_speaker(ssrc_map, prefix[j]) != Some(uid) by {
            assert(prefix[j] == frames[j]);
        }
        assert(frame_speaker(ssrc_map, frames[frames.len() - 1]) != Some(uid));
        lemma_tick_state_silent(ssrc_map, prefix, uid, start, now);
    }
}

/// The ids that an event names are user ids, which are never zero.
pub open spec fn event_ids_valid(event: &VoiceEvent) -> bool {
    match event {
        VoiceEvent::SpeakingStateUpdate { user_id, .. } => user_id matches Some(u) ==> u != 0,
        VoiceEvent::ClientDisconnect { user_id } => *user_id != 0,
        _ => true,
    }
}

impl VoiceClipRecorderState {
    /// Every buffer is a consistent ring.
    pub open spec fn wf(&self) -> bool {
        forall|uid: u64| #[trigger] self.buffers@.contains_key(uid) ==> self.buffers@[uid].wf()
    }

    /// An empty state.
    pub fn new() -> (r: Self)
        ensures
            r.wf(),
            r.ssrc_map@ == Map::<u32, u64>::empty(),
            r.buffers@ == Map::<u64, UserAudioBuffer>::empty(),
    {
        VoiceClipRecorderState { ssrc_map: HashMap::new(), buffers: HashMap::new() }
    }

    /// Handles one voice event, reading the clock for voice ticks.
    pub fn act(&mut self, event: &VoiceEvent)
        requires
            old(self).wf(),
            event_ids_valid(event),
        ensures
            final(self).wf(),
            exists|now: std::time::Instant| final(self).after_event(*old(self), event, now),
    {
        let now = instant_now();
        self.apply(event, now);
    }

    /// What handling `event` at time `now` does to the state `before`.
    pub open spec fn after_event(&self, before: Self, event: &VoiceEvent, now: std::time::Instant) -> bool {
        match event {
            VoiceEvent::VoiceTick(frames) => {
                &&& self.ssrc_map@ == before.ssrc_map@
                &&& forall|uid: u64| #[trigger]
                    self.buffers@.contains_key(uid) <==> (before.buffers@.contains_key(uid)
                        || spoke_in(before.ssrc_map@, frames@, uid))
                &&& forall|uid: u64|
                    #[trigger] self.buffers@.contains_key(uid) && spoke_in(before.ssrc_map@, frames@, uid)
                        ==> (self.buffers@[uid].recording(), self.buffers@[uid].last_seen())
                        == tick_state(
                        before.ssrc_map@,
                        frames@,
                        uid,
                        start_state(before.buffers@, uid),
                        now,
                    )
                &&& forall|uid: u64|
                    #[trigger] before.buffers@.contains_key(uid) && !spoke_in(before.ssrc_map@, frames@, uid)
                        ==> self.buffers@[uid] == before.buffers@[uid]
            },
            VoiceEvent::SpeakingStateUpdate { ssrc, user_id } => match user_id {
                Some(uid) => {
                    &&& self.ssrc_map@ == before.ssrc_map@.insert(*ssrc, *uid)
                    &&& self.buffers@.dom() == before.buffers@.dom().insert(*uid)
                    &&& forall|k: u64| #[trigger] before.buffers@.contains_key(k)
                        ==> self.buffers@[k] == before.buffers@[k]
                    &&& !before.buffers@.contains_key(*uid) ==> self.buffers@[*uid].recording()
                        == Seq::<i16>::empty() && self.buffers@[*uid].last_seen() is None
                },
                None => self.ssrc_map@ == before.ssrc_map@ && self.buffers@ == before.buffers@,
            },
            VoiceEvent::ClientDisconnect { user_id } => {
                &&& self.ssrc_map@ == before.ssrc_map@
                &&& self.buffers@ == before.buffers@.remove(*user_id)
            },
            VoiceEvent::DriverDisconnect => {
                &&& self.ssrc_map@ == Map::<u32, u64>::empty()
                &&& self.buffers@ == Map::<u64, UserAudioBuffer>::empty()
            },
            VoiceEvent::Other => self.ssrc_map@ == before.ssrc_map@ && self.buffers@ == before.buffers@,
        }
    }

    /// Handles one voice event that arrived at `now`.
    pub fn apply(&mut self, event: &VoiceEvent, now: std::time::Instant)
        requires
            old(self).wf(),
            event_ids_valid(event),
        ensures
            final(self).wf(),
            final(self).after_event(*old(self), event, now),
    {
        broadcast use vstd::std_specs::hash::group_hash_axioms;
        match event {
            VoiceEvent::VoiceTick(frames) => {
                self.record_tick(frames, now);
            },
            VoiceEvent::SpeakingStateUpdate { ssrc, user_id } => {
                if let Some(uid) = user_id {
                    self.ssrc_map.insert(*ssrc, *uid);
                    if !self.buffers.contains_key(uid) {
                        self.buffers.insert(*uid, UserAudioBuffer::new());
                    }
                    assert(self.buffers@.dom() =~= old(self).buffers@.dom().insert(*uid));
                }
            },
            VoiceEvent::ClientDisconnect { user_id } => {
                self.buffers.remove(user_id);
            },
            VoiceEvent::DriverDisconnect => {
                self.ssrc_map.clear();
                self.buffers.clear();
            },
            VoiceEvent::Other => {},
        }
    }

    fn record_tick(&mut self, frames: &Vec<VoiceFrame>, now: std::time::Instant)
        requires
            old(self).wf(),
        ensures
            final(self).wf(),
            final(self).after_event(*old(self), &VoiceEvent::VoiceTick(*frames), now),
    {
        broadcast use vstd::std_specs::hash::group_hash_axioms;
        let ghost map = self.ssrc_map@;
        let mut i: usize = 0;
        while i < frames.len()
            invariant
                self.wf(),
                self.ssrc_map@ == map,
                map == old(self).ssrc_map@,
                i <= frames.len(),
                forall|uid: u64| #[trigger]
                    self.buffers@.contains_key(uid) <==> (old(self).buffers@.contains_key(uid)
                        || spoke_in(map, frames@.take(i as int), uid)),
                forall|uid: u64|
                    #[trigger] self.buffers@.contains_key(uid) && spoke_in(map, frames@.take(i as int), uid)
                        ==> (self.buffers@[uid].recording(), self.buffers@[uid].last_seen())
                        == tick_state(map, frames@.take(i as int), uid, start_state(old(self).buffers@, uid), now),
                forall|uid: u64|
                    #[trigger] old(self).buffers@.contains_key(uid) && !spoke_in(map, frames@.take(i as int), uid)
                        ==> self.buffers@[uid] == old(self).buffers@[uid],
            decreases frames.len() - i,
        {
            let frame = &frames[i];
            let ghost seen = frames@.take(i as int);
            let ghost next = frames@.take(i + 1);
            assert(next =~= seen.push(frames@[i as int]));
            assert(next.drop_last() =~= seen);
            assert forall|uid: u64| frame_speaker(map, frames@[i as int]) != Some(uid) implies
                (spoke_in(map, next, uid) <==> spoke_in(map, seen, uid)) && tick_state(map, next, uid, start_state(old(self).buffers@, uid), now)
                    == tick_state(map, seen, uid, start_state(old(self).buffers@, uid), now) by {
                if spoke_in(map, next, uid) {
                    let j: int = choose|j: int| 0 <= j < next.len() && #[trigger] frame_speaker(map, next[j]) == Some(uid);
                    assert(next[j] == seen[j]);
                }
                if spoke_in(map, seen, uid) {
                    let j: int = choose|j: int| 0 <= j < seen.len() && #[trigger] frame_speaker(map, seen[j]) == Some(uid);
                    assert(next[j] == seen[j]);
                }
            }
            if let Some(pcm) = &frame.decoded {
                if let Some(uid) = self.ssrc_map.get(&frame.ssrc) {
                    let uid: u64 = *uid;
                    assert(frame_speaker(map, next[i as int]) == Some(uid));
                    assert(spoke_in(map, next, uid));
                    proof {
                        if !spoke_in(map, seen, uid) {
                            lemma_tick_state_silent(map, seen, uid, start_state(old(self).buffers@, uid), now);
                        }
                    }
                    let mut buf = match self.buffers.remove(&uid) {
                        Some(b) => b,
                        None => UserAudioBuffer::new(),
                    };
                    assert((buf.recording(), buf.last_seen()) == tick_state(map, seen, uid, start_state(old(self).buffers@, uid), now));
                    buf.push_frame(pcm.as_slice(), now);
                    self.buffers.insert(uid, buf);
                }
            }
            i = i + 1;
        }
        assert(frames@.take(frames.len() as int) =~= frames@);
    }

    /// The recorded audio of `user_id` as a WAV file.
    pub fn clip_wav(&self, user_id: u64) -> (r: Result<Vec<u8>, ClipError>)
        requires
            self.wf(),
        ensures
            !self.buffers@.contains_key(user_id) ==> r == Err::<Vec<u8>, ClipError>(ClipError::NoRecordedAudio),
            self.buffers@.contains_key(user_id) ==> match r {
                Ok(bytes) => bytes@ == wav_file(self.buffers@[user_id].recording())
                    && self.buffers@[user_id].recording().len() > 0,
                Err(e) => e == ClipError::EmptyRecording
                    && self.buffers@[user_id].recording().len() == 0,
            },
    {
        broadcast use vstd::std_specs::hash::group_hash_axioms;
        match self.buffers.get(&user_id) {
            None => Err(ClipError::NoRecordedAudio),
            Some(buf) => match buf.to_wav_bytes() {
                Some(bytes) => Ok(bytes),
                None => Err(ClipError::EmptyRecording),
            },
        }
    }
}

/// `Instant::now`: the current reading of the monotonic clock. Nothing is stated of it.
#[verifier::external_body]
fn instant_now() -> std::time::Instant {
    std::time::Instant::now()
}

/// The time from `earlier` to `now` (zero when `earlier` is later), as
/// `Instant::duration_since` gives it.
pub uninterp spec fn instant_gap(now: std::time::Instant, earlier: std::time::Instant) -> std::time::Duration;

/// The whole milliseconds in `d`, as `Duration::as_millis` gives them.
pub uninterp spec fn duration_millis(d: std::time::Duration) -> u128;

/// `Instant::duration_since`: the time from `earlier` to `now`, a function of the two
/// instants, named and not computed here. The time from an instant to itself is zero, so
/// it holds no whole millisecond. (That an earlier `now` also gives zero is not stated:
/// instants have no order here.)
#[verifier::external_body]
fn duration_since(now: std::time::Instant, earlier: std::time::Instant) -> (r: std::time::Duration)
    ensures
        r == instant_gap(now, earlier),
        now == earlier ==> duration_millis(r) == 0,
{
    now.duration_since(earlier)
}

/// `Duration::as_millis`: the whole milliseconds in `d`, named and not computed here.
#[verifier::external_body]
fn as_millis(d: std::time::Duration) -> (r: u128)
    ensures
        r == duration_millis(d),
{
    d.as_millis()
}

} // verus!
