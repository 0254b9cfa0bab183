//! RIFF WAV framing for ASR providers that accept complete audio files:
//! 16 kHz mono 16-bit PCM out, 16-bit mono PCM in.
use vstd::prelude::*;

use crate::text::{decimal, push_decimal, push_str_chars};

verus! {

/// Little-endian bytes of a `u16`.
pub open spec fn le16(n: int) -> Seq<u8> {
    seq![(n % 256) as u8, ((n / 256) % 256) as u8]
}

/// Little-endian bytes of a `u32`.
pub open spec fn le32(n: int) -> Seq<u8> {
    seq![(n % 256) as u8, ((n / 256) % 256) as u8, ((n / 65536) % 256) as u8, ((n / 16777216) % 256) as u8]
}

/// Value of two little-endian bytes.
pub open spec fn le16_value(b0: u8, b1: u8) -> int {
    b0 + b1 * 256
}

/// Value of four little-endian bytes.
pub open spec fn le32_value(b0: u8, b1: u8, b2: u8, b3: u8) -> int {
    b0 + b1 * 256 + b2 * 65536 + b3 * 16777216
}

/// The 16-bit two's-complement pattern of a sample.
pub open spec fn sample_bits(x: i16) -> int {
    if x >= 0 {
        x as int
    } else {
        x + 65536
    }
}

/// The sample whose two's-complement pattern is `u` (`0 <= u < 65536`).
pub open spec fn sample_of_bits(u: int) -> i16 {
    if u < 32768 {
        u as i16
    } else {
        (u - 65536) as i16
    }
}

/// Little-endian bytes of all samples, in order.
pub open spec fn pcm_bytes(samples: Seq<i16>) -> Seq<u8>
    decreases samples.len(),
{
    if samples.len() == 0 {
        Seq::<u8>::empty()
    } else {
        pcm_bytes(samples.drop_last()) + le16(sample_bits(samples.last()))
    }
}

/// The 44-byte header of a 16 kHz mono 16-bit PCM file holding `data_size`
/// bytes of samples.
pub open spec fn wav_header(data_size: int) -> Seq<u8> {
    "RIFF"@.map_values(|c: char| c as u8) + le32(36 + data_size) + "WAVE"@.map_values(|c: char| c as u8)
        + "fmt "@.map_values(|c: char| c as u8) + le32(16) + le16(1) + le16(1) + le32(16000) + le32(
        32000,
    ) + le16(2) + le16(16) + "data"@.map_values(|c: char| c as u8) + le32(data_size)
}

/// What [`encode_wav_16k_mono`] produces.
pub open spec fn spec_encode_wav(samples: Seq<i16>) -> Seq<u8> {
    wav_header(2 * samples.len() as int) + pcm_bytes(samples)
}

/// Samples a PCM byte run decodes to: consecutive little-endian pairs, a
/// trailing odd byte ignored.
pub open spec fn samples_of(b: Seq<u8>) -> Seq<i16> {
    Seq::new(b.len() / 2, |i: int| sample_of_bits(le16_value(b[2 * i], b[2 * i + 1])))
}

pub open spec fn tag_is(b: Seq<u8>, at: int, t0: u8, t1: u8, t2: u8, t3: u8) -> bool {
    b[at] == t0 && b[at + 1] == t1 && b[at + 2] == t2 && b[at + 3] == t3
}

/// Start and size of the first `data` chunk at or after `offset`, walking
/// the chunk list (odd sizes are padded to even).
pub open spec fn find_data_chunk(b: Seq<u8>, offset: int) -> Option<(int, int)>
    decreases b.len() - offset,
{
    if offset < 0 || offset + 8 > b.len() {
        None
    } else {
        let size = le32_value(b[offset + 4], b[offset + 5], b[offset + 6], b[offset + 7]);
        if tag_is(b, offset, 0x64, 0x61, 0x74, 0x61) {
            Some((offset + 8, size))
        } else {
            let next = offset + 8 + size + (if size % 2 != 0 { 1int } else { 0int });
            if next > b.len() {
                None
            } else {
                find_data_chunk(b, next)
            }
        }
    }
}

/// Why a WAV file was rejected.
pub enum WavError {
    TooShort,
    NotRiff,
    NoFmt,
    Format(u16),
    Layout(u16, u16),
    SampleRate(u32),
    NoData,
}

/// Message shown for a [`WavError`].
pub open spec fn wav_error_message(e: WavError) -> Seq<char> {
    match e {
        WavError::TooShort => "wav too short for valid header"@,
        WavError::NotRiff => "not a valid RIFF WAV file"@,
        WavError::NoFmt => "missing fmt chunk"@,
        WavError::Format(f) => "unsupported audio format "@ + decimal(f as nat) + " (expected PCM=1)"@,
        WavError::Layout(ch, bits) => "expected mono 16-bit PCM, got "@ + decimal(ch as nat) + "ch "@
            + decimal(bits as nat) + "-bit"@,
        WavError::SampleRate(r) => "unsupported sample rate "@ + decimal(r as nat)
            + " Hz (expected 8000, 16000, 44100 or 48000)"@,
        WavError::NoData => "no data chunk found in WAV"@,
    }
}

/// The sample rates a file may have: 8, 16, 44.1 and 48 kHz.
pub open spec fn supported_sample_rate(rate: int) -> bool {
    rate == 8000 || rate == 16000 || rate == 44100 || rate == 48000
}

/// What [`decode_wav_to_pcm_i16`] decides for `b`.
pub open spec fn spec_decode_wav(b: Seq<u8>) -> Result<Seq<i16>, WavError> {
    if b.len() < 44 {
        Err(WavError::TooShort)
    } else if !tag_is(b, 0, 0x52, 0x49, 0x46, 0x46) || !tag_is(b, 8, 0x57, 0x41, 0x56, 0x45) {
        Err(WavError::NotRiff)
    } else if !tag_is(b, 12, 0x66, 0x6d, 0x74, 0x20) {
        Err(WavError::NoFmt)
    } else if le16_value(b[20], b[21]) != 1 {
        Err(WavError::Format(le16_value(b[20], b[21]) as u16))
    } else if le16_value(b[22], b[23]) != 1 || le16_value(b[34], b[35]) != 16 {
        Err(WavError::Layout(le16_value(b[22], b[23]) as u16, le16_value(b[34], b[35]) as u16))
    } else if !supported_sample_rate(le32_value(b[24], b[25], b[26], b[27])) {
        Err(WavError::SampleRate(le32_value(b[24], b[25], b[26], b[27]) as u32))
    } else {
        data_samples(b)
    }
}

/// The samples of the first `data` chunk after the format header, cut
/// short where the file ends.
pub open spec fn data_samples(b: Seq<u8>) -> Result<Seq<i16>, WavError> {
    match find_data_chunk(b, 36) {
        None => Err(WavError::NoData),
        Some((start, size)) => {
            let end = if start + size <= b.len() {
                start + size
            } else {
                b.len() as int
            };
            Ok(samples_of(b.subrange(start, end)))
        },
    }
}

fn push_le16(v: &mut Vec<u8>, n: u16)
    ensures
        final(v)@ == old(v)@ + le16(n as int),
{
    v.push((n % 256) as u8);
    v.push((n / 256) as u8);
    assert(final(v)@ =~= old(v)@ + le16(n as int));
}

fn push_le32(v: &mut Vec<u8>, n: u32)
    ensures
        final(v)@ == old(v)@ + le32(n as int),
{
    v.push((n % 256) as u8);
    v.push(((n / 256) % 256) as u8);
    v.push(((n / 65536) % 256) as u8);
    v.push((n / 16777216) as u8);
    assert(final(v)@ =~= old(v)@ + le32(n as int));
}

fn push_tag(v: &mut Vec<u8>, t0: u8, t1: u8, t2: u8, t3: u8)
    ensures
        final(v)@ == old(v)@ + seq![t0, t1, t2, t3],
{
    v.push(t0);
    v.push(t1);
    v.push(t2);
    v.push(t3);
    assert(final(v)@ =~= old(v)@ + seq![t0, t1, t2, t3]);
}

proof fn lemma_tags()
    ensures
        "RIFF"@.map_values(|c: char| c as u8) =~= seq![0x52u8, 0x49u8, 0x46u8, 0x46u8],
        "WAVE"@.map_values(|c: char| c as u8) =~= seq![0x57u8, 0x41u8, 0x56u8, 0x45u8],
        "fmt "@.map_values(|c: char| c as u8) =~= seq![0x66u8, 0x6du8, 0x74u8, 0x20u8],
        "data"@.map_values(|c: char| c as u8) =~= seq![0x64u8, 0x61u8, 0x74u8, 0x61u8],
{
    reveal_strlit("RIFF");
    reveal_strlit("WAVE");
    reveal_strlit("fmt ");
    reveal_strlit("data");
}

/// Encodes 16 kHz / mono / 16-bit little-endian PCM samples as a RIFF WAV
/// file (see [`spec_encode_wav`]). The sizes must fit the header's 32-bit
/// fields.
pub fn encode_wav_16k_mono(samples: &[i16]) -> (wav: Vec<u8>)
    requires
        36 + 2 * samples@.len() <= u32::MAX,
    ensures
        wav@ == spec_encode_wav(samples@),
{
    let data_size: u32 = (samples.len() * 2) as u32;
    let chunk_size: u32 = 36 + data_size;
    let mut wav: Vec<u8> = Vec::new();
    push_tag(&mut wav, 0x52, 0x49, 0x46, 0x46);
    push_le32(&mut wav, chunk_size);
    push_tag(&mut wav, 0x57, 0x41, 0x56, 0x45);
    push_tag(&mut wav, 0x66, 0x6d, 0x74, 0x20);
    push_le32(&mut wav, 16);
    push_le16(&mut wav, 1);
    push_le16(&mut wav, 1);
    push_le32(&mut wav, 16000);
    push_le32(&mut wav, 32000);
    push_le16(&mut wav, 2);
    push_le16(&mut wav, 16);
    push_tag(&mut wav, 0x64, 0x61, 0x74, 0x61);
    push_le32(&mut wav, data_size);
    proof {
        lemma_tags();
        assert(wav@ =~= wav_header(2 * samples@.len() as int));
    }
    let mut i: usize = 0;
    while i < samples.len()
        invariant
            i <= samples.len(),
            wav@ == wav_header(2 * samples@.len() as int) + pcm_bytes(samples@.take(i as int)),
        decreases samples.len() - i,
    {
        let x = samples[i];
        let bits: u16 = if x >= 0 {
            x as u16
        } else {
            (x as i32 + 65536) as u16
        };
        push_le16(&mut wav, bits);
        proof {
            let t = samples@.take(i as int + 1);
            assert(t.drop_last() =~= samples@.take(i as int));
            assert(t.last() == x);
        }
        i = i + 1;
    }
    assert(samples@.take(samples@.len() as int) =~= samples@);
    wav
}

fn tag_at(b: &[u8], at: usize, t0: u8, t1: u8, t2: u8, t3: u8) -> (r: bool)
    requires
        at + 4 <= b@.len(),
    ensures
        r == tag_is(b@, at as int, t0, t1, t2, t3),
{
    b[at] == t0 && b[at + 1] == t1 && b[at + 2] == t2 && b[at + 3] == t3
}

fn read_u16(b: &[u8], at: usize) -> (r: u16)
    requires
        at + 2 <= b@.len(),
    ensures
        r as int == le16_value(b@[at as int], b@[at + 1]),
{
    b[at] as u16 + (b[at + 1] as u16) * 256
}

fn read_u32(b: &[u8], at: usize) -> (r: u32)
    requires
        at + 4 <= b@.len(),
    ensures
        r as int == le32_value(b@[at as int], b@[at + 1], b@[at + 2], b@[at + 3]),
{
    b[at] as u32 + (b[at + 1] as u32) * 256 + (b[at + 2] as u32) * 65536 + (b[at + 3] as u32) * 16777216
}

/// The message of a rejected WAV file.
pub fn wav_error_text(e: &WavError) -> (r: String)
    ensures
        r@ == wav_error_message(*e),
{
    let mut s = String::new();
    match e {
        WavError::TooShort => push_str_chars(&mut s, "wav too short for valid header"),
        WavError::NotRiff => push_str_chars(&mut s, "not a valid RIFF WAV file"),
        WavError::NoFmt => push_str_chars(&mut s, "missing fmt chunk"),
        WavError::Format(f) => {
            push_str_chars(&mut s, "unsupported audio format ");
            push_decimal(&mut s, *f as u64);
            push_str_chars(&mut s, " (expected PCM=1)");
        },
        WavError::Layout(ch, bits) => {
            push_str_chars(&mut s, "expected mono 16-bit PCM, got ");
            push_decimal(&mut s, *ch as u64);
            push_str_chars(&mut s, "ch ");
            push_decimal(&mut s, *bits as u64);
            push_str_chars(&mut s, "-bit");
        },
        WavError::SampleRate(r) => {
            push_str_chars(&mut s, "unsupported sample rate ");
            push_decimal(&mut s, *r as u64);
            push_str_chars(&mut s, " Hz (expected 8000, 16000, 44100 or 48000)");
        },
        WavError::NoData => push_str_chars(&mut s, "no data chunk found in WAV"),
    }
    s
}

/// Checks the header and locates the sample bytes of a WAV file
/// (see [`spec_decode_wav`]).
pub fn parse_wav(wav_bytes: &[u8]) -> (r: Result<Vec<i16>, WavError>)
    ensures
        match r {
            Ok(s) => spec_decode_wav(wav_bytes@) matches Ok(t) && t == s@,
            Err(e) => spec_decode_wav(wav_bytes@) matches Err(f) && f == e,
        },
{
    let b = wav_bytes;
    if b.len() < 44 {
        return Err(WavError::TooShort);
    }
    if !tag_at(b, 0, 0x52, 0x49, 0x46, 0x46) || !tag_at(b, 8, 0x57, 0x41, 0x56, 0x45) {
        return Err(WavError::NotRiff);
    }
    if !tag_at(b, 12, 0x66, 0x6d, 0x74, 0x20) {
        return Err(WavError::NoFmt);
    }
    let audio_format = read_u16(b, 20);
    if audio_format != 1 {
        return Err(WavError::Format(audio_format));
    }
    let num_channels = read_u16(b, 22);
    let bits_per_sample = read_u16(b, 34);
    if num_channels != 1 || bits_per_sample != 16 {
        return Err(WavError::Layout(num_channels, bits_per_sample));
    }
    let sample_rate = read_u32(b, 24);
    if sample_rate != 8000 && sample_rate != 16000 && sample_rate != 44100 && sample_rate != 48000 {
        return Err(WavError::SampleRate(sample_rate));
    }
    let n = b.len();
    let len = n as u64;
    let mut offset: u64 = 36;
    assert(spec_decode_wav(b@) == data_samples(b@));
    while offset <= len && len - offset >= 8
        invariant
            b@ == wav_bytes@,
            spec_decode_wav(b@) == data_samples(b@),
            n == b@.len(),
            len == n as u64,
            len <= usize::MAX,
            36 <= offset,
            find_data_chunk(b@, offset as int) == find_data_chunk(b@, 36),
        decreases len - offset,
    {
        let at = offset as usize;
        let chunk_size = read_u32(b, at + 4) as u64;
        if tag_at(b, at, 0x64, 0x61, 0x74, 0x61) {
            let data_start = offset + 8;
            let data_end = if chunk_size <= len - data_start {
                data_start + chunk_size
            } else {
                len
            };
            let samples = samples_in(b, data_start as usize, data_end as usize);
            assert(find_data_chunk(b@, offset as int) == Some((data_start as int, chunk_size as int)));
            return Ok(samples);
        }
        let step = 8 + chunk_size + (if chunk_size % 2 != 0 {
            1
        } else {
            0
        });
        if step > len - offset {
            assert(find_data_chunk(b@, offset as int) is None);
            return Err(WavError::NoData);
        }
        offset = offset + step;
    }
    Err(WavError::NoData)
}

/// The samples held in `b[lo..hi]` (see [`samples_of`]).
pub(crate) fn samples_in(b: &[u8], lo: usize, hi: usize) -> (r: Vec<i16>)
    requires
        lo <= hi <= b@.len(),
    ensures
        r@ == samples_of(b@.subrange(lo as int, hi as int)),
{
    let ghost d = b@.subrange(lo as int, hi as int);
    let n = (hi - lo) / 2;
    let mut r: Vec<i16> = Vec::new();
    let mut i: usize = 0;
    while i < n
        invariant
            n == (hi - lo) / 2,
            lo <= hi <= b@.len(),
            d == b@.subrange(lo as int, hi as int),
            i <= n,
            r@.len() == i,
            forall|j: int| 0 <= j < i ==> r@[j] == #[trigger] samples_of(d)[j],
        decreases n - i,
    {
        let u = read_u16(b, lo + 2 * i);
        let x: i16 = if u < 32768 {
            u as i16
        } else {
            (u as i32 - 65536) as i16
        };
        assert(d[2 * i as int] == b@[lo + 2 * i]);
        assert(d[2 * i + 1] == b@[lo + 2 * i + 1]);
        r.push(x);
        i = i + 1;
    }
    assert(r@ =~= samples_of(d));
    r
}

/// Decodes a RIFF WAV file to 16-bit PCM samples. The header must be mono
/// 16-bit PCM at a supported sample rate; the error message says why a
/// file was rejected (see [`spec_decode_wav`], [`wav_error_message`]).
pub fn decode_wav_to_pcm_i16(wav_bytes: &[u8]) -> (r: Result<Vec<i16>, String>)
    ensures
        match (r, spec_decode_wav(wav_bytes@)) {
            (Ok(s), Ok(t)) => s@ == t,
            (Err(m), Err(e)) => m@ == wav_error_message(e),
            _ => false,
        },
{
    match parse_wav(wav_bytes) {
        Ok(s) => Ok(s),
        Err(e) => Err(wav_error_text(&e)),
    }
}

proof fn lemma_pcm_bytes_len(s: Seq<i16>)
    ensures
        pcm_bytes(s).len() == 2 * s.len(),
    decreases s.len(),
{
    if s.len() > 0 {
        lemma_pcm_bytes_len(s.drop_last());
    }
}

proof fn lemma_pcm_bytes_index(s: Seq<i16>, j: int)
    requires
        0 <= j < s.len(),
    ensures
        pcm_bytes(s).len() == 2 * s.len(),
        pcm_bytes(s)[2 * j] == (sample_bits(s[j]) % 256) as u8,
        pcm_bytes(s)[2 * j + 1] == ((sample_bits(s[j]) / 256) % 256) as u8,
    decreases s.len(),
{
    lemma_pcm_bytes_len(s);
    lemma_pcm_bytes_len(s.drop_last());
    if j < s.len() - 1 {
        lemma_pcm_bytes_index(s.drop_last(), j);
    }
}

proof fn lemma_le32_roundtrip(n: int)
    requires
        0 <= n <= u32::MAX,
    ensures
        le32_value(le32(n)[0], le32(n)[1], le32(n)[2], le32(n)[3]) == n,
{
    let b0 = n % 256;
    let b1 = (n / 256) % 256;
    let b2 = (n / 65536) % 256;
    let b3 = (n / 16777216) % 256;
    assert(b0 + b1 * 256 + b2 * 65536 + b3 * 16777216 == n) by (nonlinear_arith)
        requires
            0 <= n <= 0xffff_ffff,
            b0 == n % 256,
            b1 == (n / 256) % 256,
            b2 == (n / 65536) % 256,
            b3 == (n / 16777216) % 256,
    ;
}

proof fn lemma_sample_roundtrip(x: i16)
    ensures
        sample_of_bits(le16_value((sample_bits(x) % 256) as u8, ((sample_bits(x) / 256) % 256) as u8)) == x,
{
    let u = sample_bits(x);
    assert(0 <= u < 65536);
    let lo = u % 256;
    let hi = (u / 256) % 256;
    assert(lo + hi * 256 == u) by (nonlinear_arith)
        requires
            0 <= u < 65536,
            lo == u % 256,
            hi == (u / 256) % 256,
    ;
}

/// **WAV round-trip law.** Decoding what [`encode_wav_16k_mono`] produces
/// gives back exactly the samples that were encoded.
pub proof fn lemma_wav_roundtrip(samples: Seq<i16>)
    requires
        36 + 2 * samples.len() <= u32::MAX,
    ensures
        spec_decode_wav(spec_encode_wav(samples)) == Ok::<Seq<i16>, WavError>(samples),
{
    let b = spec_encode_wav(samples);
    let n = 2 * samples.len() as int;
    lemma_tags();
    lemma_pcm_bytes_len(samples);
    let h = wav_header(n);
    assert(h.len() == 44);
    assert(b.len() == 44 + n);
    assert(forall|i: int| 0 <= i < 44 ==> #[trigger] b[i] == h[i]);
    assert(tag_is(b, 0, 0x52, 0x49, 0x46, 0x46));
    assert(tag_is(b, 8, 0x57, 0x41, 0x56, 0x45));
    assert(tag_is(b, 12, 0x66, 0x6d, 0x74, 0x20));
    assert(le16_value(b[20], b[21]) == 1);
    assert(le16_value(b[22], b[23]) == 1);
    assert(le16_value(b[34], b[35]) == 16);
    lemma_le32_roundtrip(16000);
    assert(le32_value(b[24], b[25], b[26], b[27]) == 16000);
    assert(tag_is(b, 36, 0x64, 0x61, 0x74, 0x61));
    lemma_le32_roundtrip(n);
    assert(le32_value(b[40], b[41], b[42], b[43]) == n);
    assert(find_data_chunk(b, 36) == Some((44int, n)));
    let d = b.subrange(44, 44 + n);
    assert(d =~= pcm_bytes(samples));
    assert forall|j: int| 0 <= j < samples.len() implies #[trigger] samples_of(d)[j] == samples[j] by {
        lemma_pcm_bytes_index(samples, j);
        lemma_sample_roundtrip(samples[j]);
    }
    assert(samples_of(d) =~= samples);
}

} // verus!
