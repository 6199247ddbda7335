//! 16-bit PCM handling for voice input and playback: peaks, sample-format
//! conversion, draining the playback queue, and resampling and remixing a
//! recording into the format the transcription model takes.

use vstd::prelude::*;
use std::collections::VecDeque;

verus! {

/// A finished recording: interleaved 16-bit samples.
pub struct RecordedAudio {
    pub data: Vec<i16>,
    pub sample_rate: u32,
    pub channels: u16,
}

pub open spec fn abs_sample(s: i16) -> int {
    if s < 0 {
        -(s as int)
    } else {
        s as int
    }
}

/// The largest absolute sample value, 0 for no samples.
pub open spec fn peak_spec(s: Seq<i16>) -> int
    decreases s.len(),
{
    if s.len() == 0 {
        0
    } else {
        let rest = peak_spec(s.drop_last());
        let a = abs_sample(s.last());
        if a > rest {
            a
        } else {
            rest
        }
    }
}

proof fn lemma_peak_bounds(s: Seq<i16>)
    ensures
        0 <= peak_spec(s) <= 32768,
    decreases s.len(),
{
    if s.len() > 0 {
        lemma_peak_bounds(s.drop_last());
    }
}

pub fn peak_i16(input: &[i16]) -> (r: u16)
    ensures
        r as int == peak_spec(input@),
{
    let mut peak: i32 = 0;
    let mut i: usize = 0;
    while i < input.len()
        invariant
            i <= input.len(),
            peak as int == peak_spec(input@.take(i as int)),
            0 <= peak <= 32768,
        decreases input.len() - i,
    {
        assert(input@.take(i as int + 1).drop_last() =~= input@.take(i as int));
        let s = input[i] as i32;
        let a = if s < 0 {
            -s
        } else {
            s
        };
        if a > peak {
            peak = a;
        }
        i = i + 1;
    }
    assert(input@.take(input.len() as int) =~= input@);
    peak as u16
}

/// An unsigned sample moved to the signed range: `s - 32768`.
pub open spec fn u16_to_i16_spec(s: u16) -> i16 {
    (s as int - 32768) as i16
}

pub open spec fn converted_u16(s: Seq<u16>) -> Seq<i16> {
    s.map_values(|x: u16| u16_to_i16_spec(x))
}

/// Appends the unsigned samples, moved to the signed range, to `out`, and
/// returns the peak of what it appended.
pub fn convert_u16_to_i16_and_peak(input: &[u16], out: &mut Vec<i16>) -> (r: u16)
    ensures
        final(out)@ == old(out)@ + converted_u16(input@),
        r as int == peak_spec(converted_u16(input@)),
{
    let mut peak: i32 = 0;
    let mut i: usize = 0;
    while i < input.len()
        invariant
            i <= input.len(),
            out@ == old(out)@ + converted_u16(input@.take(i as int)),
            peak as int == peak_spec(converted_u16(input@.take(i as int))),
            0 <= peak <= 32768,
        decreases input.len() - i,
    {
        let v = (input[i] as i32 - 32768) as i16;
        assert(converted_u16(input@.take(i as int + 1)) =~= converted_u16(input@.take(i as int)).push(v));
        assert(converted_u16(input@.take(i as int + 1)).drop_last() =~= converted_u16(input@.take(i as int)));
        let s = v as i32;
        let a = if s < 0 {
            -s
        } else {
            s
        };
        if a > peak {
            peak = a;
        }
        out.push(v);
        i = i + 1;
    }
    assert(input@.take(input.len() as int) =~= input@);
    peak as u16
}

/// The `n` samples that playback takes from the queue: the queued ones
/// first, then silence.
pub open spec fn drained(queue: Seq<i16>, n: int) -> Seq<i16> {
    Seq::new(n as nat, |i: int| if i < queue.len() { queue[i] } else { 0i16 })
}

pub open spec fn min(a: int, b: int) -> int {
    if a < b {
        a
    } else {
        b
    }
}

/// Fills a playback buffer from the queue, with silence once it runs dry.
pub fn fill_output_i16(output: &mut Vec<i16>, queue: &mut VecDeque<i16>)
    ensures
        final(output)@ == drained(old(queue)@, old(output)@.len() as int),
        final(queue)@ == old(queue)@.skip(min(old(output)@.len() as int, old(queue)@.len() as int)),
{
    let n = output.len();
    let mut i: usize = 0;
    while i < n
        invariant
            i <= n == output@.len(),
            forall|k: int| 0 <= k < i ==> output@[k] == drained(old(queue)@, n as int)[k],
            queue@ == old(queue)@.skip(min(i as int, old(queue)@.len() as int)),
        decreases n - i,
    {
        let v = match queue.pop_front() {
            Some(v) => v,
            None => 0,
        };
        output.set(i, v);
        i = i + 1;
    }
    assert(output@ =~= drained(old(queue)@, n as int));
}

/// A signed sample moved to the unsigned range: `v + 32768`.
pub open spec fn i16_to_u16_spec(v: i16) -> u16 {
    (v as int + 32768) as u16
}

/// Fills an unsigned playback buffer from the queue, with silence (32768)
/// once it runs dry.
pub fn fill_output_u16(output: &mut Vec<u16>, queue: &mut VecDeque<i16>)
    ensures
        final(output)@ == drained(old(queue)@, old(output)@.len() as int).map_values(
            |v: i16| i16_to_u16_spec(v),
        ),
        final(queue)@ == old(queue)@.skip(min(old(output)@.len() as int, old(queue)@.len() as int)),
{
    let n = output.len();
    let mut i: usize = 0;
    while i < n
        invariant
            i <= n == output@.len(),
            forall|k: int|
                0 <= k < i ==> output@[k] == i16_to_u16_spec(drained(old(queue)@, n as int)[k]),
            queue@ == old(queue)@.skip(min(i as int, old(queue)@.len() as int)),
        decreases n - i,
    {
        let v = match queue.pop_front() {
            Some(v) => v,
            None => 0,
        };
        output.set(i, (v as i32 + 32768) as u16);
        i = i + 1;
    }
    assert(output@ =~= drained(old(queue)@, n as int).map_values(|v: i16| i16_to_u16_spec(v)));
}

/// Integer division rounding toward zero, as Rust's `/` does.
pub open spec fn trunc_div(a: int, b: int) -> int {
    if a >= 0 {
        a / b
    } else {
        -((-a) / b)
    }
}

pub open spec fn sum_samples(s: Seq<i16>) -> int
    decreases s.len(),
{
    if s.len() == 0 {
        0
    } else {
        sum_samples(s.drop_last()) + s.last() as int
    }
}

/// One frame remixed from `n` to `m` channels: mono is copied to every
/// channel, several channels are averaged down to mono, extra channels are
/// dropped, and missing ones repeat the last.
pub open spec fn remix_frame(src: Seq<i16>, m: int) -> Seq<i16> {
    let n = src.len() as int;
    if n == 1 {
        Seq::new(m as nat, |i: int| src[0])
    } else if m == 1 {
        seq![trunc_div(sum_samples(src), n) as i16]
    } else if n >= m {
        src.take(m)
    } else {
        src + Seq::new((m - n) as nat, |i: int| src[n - 1])
    }
}

/// How many frames the output has.
pub open spec fn out_frames_spec(in_frames: int, in_rate: int, out_rate: int) -> int {
    if in_rate == out_rate {
        in_frames
    } else {
        let f = in_frames * out_rate / in_rate;
        if f < 1 {
            1
        } else {
            f
        }
    }
}

/// Which input frame an output frame samples: spread evenly from the first
/// to the last.
pub open spec fn src_frame(k: int, in_frames: int, out_frames: int) -> int {
    if out_frames <= 1 || in_frames <= 1 {
        0
    } else {
        k * (in_frames - 1) / (out_frames - 1)
    }
}

/// The output frames before `k`, concatenated.
pub open spec fn pcm_frames(
    input: Seq<i16>,
    in_ch: int,
    out_ch: int,
    in_frames: int,
    out_frames: int,
    k: int,
) -> Seq<i16>
    decreases k,
{
    if k <= 0 {
        seq![]
    } else {
        let s = src_frame(k - 1, in_frames, out_frames);
        pcm_frames(input, in_ch, out_ch, in_frames, out_frames, k - 1) + remix_frame(
            input.subrange(s * in_ch, s * in_ch + in_ch),
            out_ch,
        )
    }
}

/// The recording resampled by nearest frames and remixed; empty when there
/// is no whole input frame or no channel on either side.
pub open spec fn convert_pcm16_spec(
    input: Seq<i16>,
    in_rate: int,
    in_ch: int,
    out_rate: int,
    out_ch: int,
) -> Seq<i16> {
    if input.len() == 0 || in_ch == 0 || out_ch == 0 || (input.len() as int) / in_ch == 0 {
        seq![]
    } else {
        let in_frames = (input.len() as int) / in_ch;
        let out_frames = out_frames_spec(in_frames, in_rate, out_rate);
        pcm_frames(input, in_ch, out_ch, in_frames, out_frames, out_frames)
    }
}

/// Whether a conversion has work to do (there is a whole input frame, and
/// channels on both sides).
pub open spec fn has_frames(input_len: int, in_ch: int, out_ch: int) -> bool {
    input_len > 0 && in_ch > 0 && out_ch > 0 && input_len / in_ch > 0
}

proof fn lemma_src_frame_bound(k: int, in_frames: int, out_frames: int)
    requires
        0 <= k < out_frames,
        in_frames >= 1,
    ensures
        0 <= src_frame(k, in_frames, out_frames) < in_frames,
{
    if !(out_frames <= 1 || in_frames <= 1) {
        assert(k * (in_frames - 1) <= (out_frames - 1) * (in_frames - 1)) by (nonlinear_arith)
            requires
                0 <= k <= out_frames - 1,
                in_frames - 1 >= 0,
        ;
        assert(k * (in_frames - 1) / (out_frames - 1) <= in_frames - 1) by (nonlinear_arith)
            requires
                0 <= k * (in_frames - 1) <= (out_frames - 1) * (in_frames - 1),
                out_frames - 1 > 0,
        ;
        assert(k * (in_frames - 1) >= 0) by (nonlinear_arith)
            requires
                k >= 0,
                in_frames - 1 >= 0,
        ;
    }
}

fn remix_into(out: &mut Vec<i16>, input: &[i16], start: usize, n: usize, m: usize)
    requires
        n >= 1,
        m >= 1,
        start + n <= input@.len(),
        n <= 65535,
    ensures
        final(out)@ == old(out)@ + remix_frame(input@.subrange(start as int, start + n), m as int),
{
    let total = input.len();
    let ghost src = input@.subrange(start as int, start + n);
    if n == 1 {
        let mut j: usize = 0;
        assert(src[0] == input@[start as int]);
        while j < m
            invariant
                j <= m,
                start + n <= total,
                total == input@.len(),
                n == 1,
                src == input@.subrange(start as int, start + n),
                src[0] == input@[start as int],
                out@ == old(out)@ + Seq::new(j as nat, |i: int| src[0]),
            decreases m - j,
        {
            out.push(input[start]);
            assert(Seq::new((j + 1) as nat, |i: int| src[0]) =~= Seq::new(j as nat, |i: int| src[0]).push(src[0]));
            j = j + 1;
        }
        assert(remix_frame(src, m as int) =~= Seq::new(m as nat, |i: int| src[0]));
    } else if m == 1 {
        let mut sum: i64 = 0;
        let mut j: usize = 0;
        while j < n
            invariant
                j <= n <= 65535,
                start + n <= total,
                total == input@.len(),
                src == input@.subrange(start as int, start + n),
                sum as int == sum_samples(src.take(j as int)),
                -32768 * (j as int) <= sum <= 32767 * (j as int),
                n >= 2,
            decreases n - j,
        {
            assert(src.take(j as int + 1).drop_last() =~= src.take(j as int));
            assert(src[j as int] == input@[start + j]);
            sum = sum + input[start + j] as i64;
            j = j + 1;
        }
        assert(src.take(n as int) =~= src);
        let avg: i64 = sum / (n as i64);
        assert(avg as int == trunc_div(sum as int, n as int)) by {
            if sum < 0 {
                assert((sum as int) / (n as int) <= 0) by (nonlinear_arith)
                    requires
                        sum < 0,
                        n >= 1,
                ;
            }
        }
        assert(-32768 <= avg <= 32767) by (nonlinear_arith)
            requires
                -32768 * (n as int) <= sum <= 32767 * (n as int),
                n >= 1,
                avg as int == trunc_div(sum as int, n as int),
        ;
        out.push(avg as i16);
        assert(remix_frame(src, 1) =~= seq![avg as i16]);
    } else if n >= m {
        let mut j: usize = 0;
        while j < m
            invariant
                j <= m <= n,
                start + n <= total,
                total == input@.len(),
                src == input@.subrange(start as int, start + n),
                out@ == old(out)@ + src.take(j as int),
            decreases m - j,
        {
            out.push(input[start + j]);
            assert(src.take(j as int + 1) =~= src.take(j as int).push(src[j as int]));
            j = j + 1;
        }
    } else {
        let mut j: usize = 0;
        while j < n
            invariant
                j <= n < m,
                start + n <= total,
                total == input@.len(),
                src == input@.subrange(start as int, start + n),
                out@ == old(out)@ + src.take(j as int),
            decreases n - j,
        {
            out.push(input[start + j]);
            assert(src.take(j as int + 1) =~= src.take(j as int).push(src[j as int]));
            j = j + 1;
        }
        assert(src.take(n as int) =~= src);
        let last = input[start + n - 1];
        let mut k: usize = n;
        while k < m
            invariant
                n <= k <= m,
                last == src[n - 1],
                out@ == old(out)@ + src + Seq::new((k - n) as nat, |i: int| src[n - 1]),
            decreases m - k,
        {
            out.push(last);
            assert(Seq::new((k + 1 - n) as nat, |i: int| src[n - 1]) =~= Seq::new(
                (k - n) as nat,
                |i: int| src[n - 1],
            ).push(src[n - 1]));
            k = k + 1;
        }
        assert(old(out)@ + src + Seq::new((m - n) as nat, |i: int| src[n - 1]) =~= old(out)@ + (src
            + Seq::new((m - n) as nat, |i: int| src[n - 1])));
    }
}

/// Converts interleaved PCM between rates and channel counts: output frames
/// sample the input frames evenly from first to last, and each frame is
/// remixed by [`remix_frame`].
pub fn convert_pcm16(
    input: &[i16],
    input_sample_rate: u32,
    input_channels: u16,
    output_sample_rate: u32,
    output_channels: u16,
) -> (r: Vec<i16>)
    requires
        has_frames(input@.len() as int, input_channels as int, output_channels as int)
            && input_sample_rate != output_sample_rate ==> input_sample_rate > 0,
        has_frames(input@.len() as int, input_channels as int, output_channels as int) ==> (
        (input@.len() as int) / (input_channels as int)) * (output_sample_rate as int) <= usize::MAX,
        has_frames(input@.len() as int, input_channels as int, output_channels as int) ==> (
        out_frames_spec(
            (input@.len() as int) / (input_channels as int),
            input_sample_rate as int,
            output_sample_rate as int,
        ) - 1) * ((input@.len() as int) / (input_channels as int) - 1) <= u64::MAX,
    ensures
        r@ == convert_pcm16_spec(
            input@,
            input_sample_rate as int,
            input_channels as int,
            output_sample_rate as int,
            output_channels as int,
        ),
{
    if input.len() == 0 || input_channels == 0 || output_channels == 0 {
        return Vec::new();
    }
    let in_channels = input_channels as usize;
    let out_channels = output_channels as usize;
    let in_frames = input.len() / in_channels;
    if in_frames == 0 {
        return Vec::new();
    }
    let out_frames: usize = if input_sample_rate == output_sample_rate {
        in_frames
    } else {
        let f = ((in_frames as u64) * (output_sample_rate as u64)) / (input_sample_rate as u64);
        assert(f <= in_frames * (output_sample_rate as int)) by (nonlinear_arith)
            requires
                f == (in_frames as int) * (output_sample_rate as int) / (input_sample_rate as int),
                input_sample_rate >= 1,
                in_frames >= 0,
                output_sample_rate >= 0,
        ;
        if f < 1 {
            1
        } else {
            assert(f <= in_frames * 4294967295) by (nonlinear_arith)
                requires
                    f <= in_frames * (output_sample_rate as int),
                    output_sample_rate <= 4294967295,
                    in_frames >= 0,
            ;
            assert(f as int <= usize::MAX) by {
                assert((in_frames as int) * (output_sample_rate as int) <= usize::MAX);
            }
            f as usize
        }
    };
    assert(out_frames as int == out_frames_spec(
        in_frames as int,
        input_sample_rate as int,
        output_sample_rate as int,
    ));
    let mut out: Vec<i16> = Vec::new();
    let mut k: usize = 0;
    while k < out_frames
        invariant
            k <= out_frames,
            in_frames >= 1,
            in_channels >= 1,
            out_channels >= 1,
            in_channels == input_channels as usize,
            out_channels == output_channels as usize,
            in_frames == (input@.len() as int) / (in_channels as int),
            out@ == pcm_frames(
                input@,
                in_channels as int,
                out_channels as int,
                in_frames as int,
                out_frames as int,
                k as int,
            ),
            ((out_frames - 1) as int) * ((in_frames - 1) as int) <= u64::MAX,
            in_channels <= 65535,
        decreases out_frames - k,
    {
        let src_idx: usize = if out_frames <= 1 || in_frames <= 1 {
            0
        } else {
            proof {
                lemma_src_frame_bound(k as int, in_frames as int, out_frames as int);
            }
            assert((k as int) * ((in_frames - 1) as int) <= u64::MAX) by (nonlinear_arith)
                requires
                    k < out_frames,
                    in_frames >= 1,
                    ((out_frames - 1) as int) * ((in_frames - 1) as int) <= u64::MAX,
            ;
            (((k as u64) * ((in_frames - 1) as u64)) / ((out_frames - 1) as u64)) as usize
        };
        proof {
            lemma_src_frame_bound(k as int, in_frames as int, out_frames as int);
        }
        assert(src_idx as int == src_frame(k as int, in_frames as int, out_frames as int));
        let total = input.len();
        assert((src_idx as int) * (in_channels as int) + (in_channels as int) <= total) by (nonlinear_arith)
            requires
                0 <= src_idx < in_frames,
                in_frames == (total as int) / (in_channels as int),
                in_channels >= 1,
        ;
        let start = src_idx * in_channels;
        remix_into(&mut out, input, start, in_channels, out_channels);
        assert(input@.subrange(start as int, start + in_channels) =~= input@.subrange(
            (src_idx as int) * (in_channels as int),
            (src_idx as int) * (in_channels as int) + (in_channels as int),
        ));
        k = k + 1;
    }
    out
}

proof fn lemma_remix_frame_len(src: Seq<i16>, m: int)
    requires
        src.len() >= 1,
        m >= 1,
    ensures
        remix_frame(src, m).len() == m,
{
}

proof fn lemma_pcm_frames_len(
    input: Seq<i16>,
    in_ch: int,
    out_ch: int,
    in_frames: int,
    out_frames: int,
    k: int,
)
    requires
        in_ch >= 1,
        out_ch >= 1,
        in_frames >= 1,
        in_frames * in_ch <= input.len(),
        0 <= k <= out_frames,
    ensures
        pcm_frames(input, in_ch, out_ch, in_frames, out_frames, k).len() == k * out_ch,
    decreases k,
{
    if k > 0 {
        lemma_pcm_frames_len(input, in_ch, out_ch, in_frames, out_frames, k - 1);
        let s = src_frame(k - 1, in_frames, out_frames);
        lemma_src_frame_bound(k - 1, in_frames, out_frames);
        assert(s * in_ch + in_ch <= in_frames * in_ch) by (nonlinear_arith)
            requires
                0 <= s < in_frames,
                in_ch >= 1,
        ;
        assert(s * in_ch >= 0) by (nonlinear_arith)
            requires
                s >= 0,
                in_ch >= 1,
        ;
        lemma_remix_frame_len(input.subrange(s * in_ch, s * in_ch + in_ch), out_ch);
        assert(pcm_frames(input, in_ch, out_ch, in_frames, out_frames, k) == pcm_frames(
            input,
            in_ch,
            out_ch,
            in_frames,
            out_frames,
            k - 1,
        ) + remix_frame(input.subrange(s * in_ch, s * in_ch + in_ch), out_ch));
        assert((k - 1) * out_ch + out_ch == k * out_ch) by (nonlinear_arith);
    } else {
        assert(k * out_ch == 0) by (nonlinear_arith)
            requires
                k == 0,
        ;
    }
}

proof fn lemma_pcm_frames_identity(input: Seq<i16>, ch: int, f: int, k: int)
    requires
        ch >= 1,
        f >= 1,
        f * ch <= input.len(),
        0 <= k <= f,
    ensures
        pcm_frames(input, ch, ch, f, f, k) == input.take(k * ch),
    decreases k,
{
    if k == 0 {
        assert(k * ch == 0) by (nonlinear_arith)
            requires
                k == 0,
        ;
        assert(input.take(0) =~= Seq::<i16>::empty());
    } else {
        lemma_pcm_frames_identity(input, ch, f, k - 1);
        let s = src_frame(k - 1, f, f);
        if f > 1 {
            assert((k - 1) * (f - 1) / (f - 1) == k - 1) by (nonlinear_arith)
                requires
                    f > 1,
            ;
        }
        assert(s == k - 1);
        assert((k - 1) * ch + ch == k * ch) by (nonlinear_arith);
        assert(k * ch <= f * ch) by (nonlinear_arith)
            requires
                k <= f,
                ch >= 1,
        ;
        assert((k - 1) * ch >= 0) by (nonlinear_arith)
            requires
                k >= 1,
                ch >= 1,
        ;
        let src = input.subrange((k - 1) * ch, (k - 1) * ch + ch);
        if ch == 1 {
            assert(remix_frame(src, ch) =~= src);
        } else {
            assert(remix_frame(src, ch) == src.take(ch));
            assert(src.take(ch) =~= src);
        }
        assert(pcm_frames(input, ch, ch, f, f, k) == pcm_frames(input, ch, ch, f, f, k - 1)
            + remix_frame(src, ch));
        assert(input.take((k - 1) * ch) + src =~= input.take(k * ch));
    }
}

/// The shape of a conversion: empty when there is no whole input frame or
/// no channel on either side; otherwise `out_channels` samples for each of
/// the output frames, which are the input frames when the rates agree and
/// `max(1, frames * out_rate / in_rate)` when they differ. With equal rates
/// and channel counts the conversion gives back the whole frames of the
/// input unchanged.
pub proof fn lemma_convert_pcm16_shape(
    input: Seq<i16>,
    in_rate: int,
    in_ch: int,
    out_rate: int,
    out_ch: int,
)
    requires
        in_ch >= 0,
        out_ch >= 0,
    ensures
        !has_frames(input.len() as int, in_ch, out_ch) ==> convert_pcm16_spec(
            input,
            in_rate,
            in_ch,
            out_rate,
            out_ch,
        ).len() == 0,
        has_frames(input.len() as int, in_ch, out_ch) ==> convert_pcm16_spec(
            input,
            in_rate,
            in_ch,
            out_rate,
            out_ch,
        ).len() == out_frames_spec((input.len() as int) / in_ch, in_rate, out_rate) * out_ch,
        has_frames(input.len() as int, in_ch, out_ch) && in_rate == out_rate && in_ch == out_ch
            ==> convert_pcm16_spec(input, in_rate, in_ch, out_rate, out_ch) == input.take(
            ((input.len() as int) / in_ch) * in_ch,
        ),
{
    if has_frames(input.len() as int, in_ch, out_ch) {
        let l = input.len() as int;
        let f = l / in_ch;
        assert(f * in_ch <= l) by (nonlinear_arith)
            requires
                l >= 0,
                in_ch >= 1,
                f == l / in_ch,
        ;
        let of = out_frames_spec(f, in_rate, out_rate);
        assert(of >= 1);
        lemma_pcm_frames_len(input, in_ch, out_ch, f, of, of);
        if in_rate == out_rate && in_ch == out_ch {
            lemma_pcm_frames_identity(input, in_ch, f, f);
        }
    }
}

} // verus!
