//! Per-connection raw-deflate framing: one compression context lives as
//! long as the connection, each frame is sync-flushed, and the four-byte
//! sync marker that ends every flush is cut off (the browser puts it back
//! before inflating).

use std::io::Write;

use vstd::prelude::*;

verus! {

/// flate2's raw-deflate compressor over a growing buffer, kept opaque:
/// Verus does not take a declaration of `DeflateEncoder<W>`, whose type
/// parameter is bounded by `std::io::Write`.
#[verifier::external_body]
pub struct Encoder {
    inner: flate2::write::DeflateEncoder<Vec<u8>>,
}

/// flate2's raw-deflate decompressor over a growing buffer, kept opaque
/// for the same reason.
#[verifier::external_body]
pub struct Decoder {
    inner: flate2::write::DeflateDecoder<Vec<u8>>,
}

/// `std::io::Error`, the error the compressor's and decompressor's writes
/// and flushes hand back; carried through as it is.
#[verifier::external_type_specification]
#[verifier::external_body]
pub struct ExIoError(std::io::Error);

/// The whole raw-deflate stream that flate2's `DeflateEncoder` (default
/// level) writes when `chunks` are written to a fresh compressor in turn,
/// each followed by a sync flush.
pub uninterp spec fn deflate_stream(chunks: Seq<Seq<u8>>) -> Seq<u8>;

/// What a compressor holds: the chunks written to it since it was made,
/// each followed by a sync flush, in order; `None` once a write or a flush
/// of it failed.
pub uninterp spec fn encoder_chunks(e: Encoder) -> Option<Seq<Seq<u8>>>;

/// All that flate2's `DeflateDecoder` writes out when `chunks` are written
/// to a fresh decompressor in turn, each followed by a flush.
pub uninterp spec fn inflate_stream(chunks: Seq<Seq<u8>>) -> Seq<u8>;

/// Whether a fresh flate2 `DeflateDecoder` takes `chunks`, written in
/// turn with a flush after each, without an error (a corrupt stream is the
/// one error it reports when writing into a buffer).
pub uninterp spec fn inflates(chunks: Seq<Seq<u8>>) -> bool;

/// What a decompressor holds: the chunks written to it since it was made,
/// each followed by a flush, in order; `None` once a write or a flush of
/// it failed.
pub uninterp spec fn decoder_chunks(d: Decoder) -> Option<Seq<Seq<u8>>>;

/// What compressing `d` after the chunks `h` adds to the stream: the
/// bytes of one sync-flushed segment.
pub open spec fn segment(h: Seq<Seq<u8>>, d: Seq<u8>) -> Seq<u8> {
    deflate_stream(h.push(d)).skip(deflate_stream(h).len() as int)
}

/// The sync-flushed segments that compressing the chunks `h` in turn
/// writes.
pub open spec fn segments(h: Seq<Seq<u8>>) -> Seq<Seq<u8>>
    decreases h.len(),
{
    if h.len() == 0 {
        Seq::empty()
    } else {
        segments(h.drop_last()).push(segment(h.drop_last(), h.last()))
    }
}

/// The chunks `h` one after another.
pub open spec fn joined(h: Seq<Seq<u8>>) -> Seq<u8>
    decreases h.len(),
{
    if h.len() == 0 {
        Seq::empty()
    } else {
        joined(h.drop_last()) + h.last()
    }
}

/// Inflating the segments of `h` in turn gives back the chunks of `h`.
pub open spec fn restores(h: Seq<Seq<u8>>) -> bool {
    inflate_stream(segments(h)) == joined(h)
}

/// `DeflateEncoder::new(Vec::new(), Compression::default())` (flate2): a
/// raw-deflate compressor writing into an empty buffer, given nothing yet.
#[verifier::external_body]
fn new_encoder() -> (r: Encoder)
    ensures
        encoder_chunks(r) == Some(Seq::<Seq<u8>>::empty()),
        encoder_chunks(r) matches Some(h) ==> restores(h) && inflates(segments(h)),
{
    Encoder { inner: flate2::write::DeflateEncoder::new(Vec::new(), flate2::Compression::default()) }
}

/// `DeflateDecoder::new(Vec::new())` (flate2): a raw-deflate decompressor
/// writing into an empty buffer, given nothing yet.
#[verifier::external_body]
fn new_decoder() -> (r: Decoder)
    ensures
        decoder_chunks(r) == Some(Seq::<Seq<u8>>::empty()),
{
    Decoder { inner: flate2::write::DeflateDecoder::new(Vec::new()) }
}

/// `Write::write_all` of `data` on the compressor, then `Write::flush` (a
/// sync flush, which drains all pending output into the buffer), then
/// the buffer's bytes taken out (`std::mem::take` of
/// `DeflateEncoder::get_mut`), which leaves it empty. flate2's output is
/// a function of what the compressor was given, so the bytes returned are
/// what the new chunk adds to [`deflate_stream`]. A sync flush ends with
/// an empty stored block (miniz_oxide's `TDEFLFlush::Sync`: three zero
/// bits, padding to a byte, then the lengths `0000` and `FFFF`), so these
/// bytes end with the sync marker. A sync flush makes all input given so
/// far available to a decompressor (flate2's `FlushCompress::Sync`), and
/// deflate loses nothing, so a fresh `DeflateDecoder` given the flushed
/// segments in turn, with a flush after each, gives back the chunks
/// ([`restores`]) and takes them without an error ([`inflates`]).
/// Writing into a `Vec` cannot fail, and miniz_oxide's compressor reports
/// an error only after an earlier one or after the stream was finished
/// (`BadParam`), or when its output callback fails (`PutBufFailed`, which
/// its buffer output never does), so a compressor that has not failed
/// succeeds. After a failure nothing is known of the compressor's output.
#[verifier::external_body]
fn encoder_sync_chunk(e: &mut Encoder, data: &[u8]) -> (r: Result<Vec<u8>, std::io::Error>)
    ensures
        encoder_chunks(*old(e)) is Some ==> r is Ok,
        match r {
            Ok(v) => match encoder_chunks(*old(e)) {
                Some(h) => encoder_chunks(*final(e)) == Some(h.push(data@)) && deflate_stream(
                    h.push(data@),
                ) == deflate_stream(h) + v@ && v@.len() >= 4 && v@.subrange(
                    v@.len() - 4,
                    v@.len() as int,
                ) == sync_marker() && restores(h.push(data@)) && inflates(segments(h.push(data@))),
                None => encoder_chunks(*final(e)) is None,
            },
            Err(_) => encoder_chunks(*final(e)) is None,
        },
{
    e.inner.write_all(data)?;
    e.inner.flush()?;
    Ok(std::mem::take(e.inner.get_mut()))
}

/// `Write::write_all` of `data` on the decompressor, then `Write::flush`,
/// then the buffer's bytes taken out, which leaves it empty: what the new
/// chunk adds to [`inflate_stream`]. It fails only on what a fresh
/// decompressor given the same chunks would also fail on ([`inflates`]).
/// After a failure nothing is known of the decompressor's output.
#[verifier::external_body]
fn decoder_sync_chunk(d: &mut Decoder, data: &[u8]) -> (r: Result<Vec<u8>, std::io::Error>)
    ensures
        decoder_chunks(*old(d)) matches Some(h) && inflates(h.push(data@)) ==> r is Ok,
        match r {
            Ok(v) => match decoder_chunks(*old(d)) {
                Some(h) => decoder_chunks(*final(d)) == Some(h.push(data@)) && inflate_stream(
                    h.push(data@),
                ) == inflate_stream(h) + v@,
                None => decoder_chunks(*final(d)) is None,
            },
            Err(_) => decoder_chunks(*final(d)) is None,
        },
{
    d.inner.write_all(data)?;
    d.inner.flush()?;
    Ok(std::mem::take(d.inner.get_mut()))
}

/// The bytes a sync flush ends with.
pub open spec fn sync_marker() -> Seq<u8> {
    seq![0x00u8, 0x00u8, 0xffu8, 0xffu8]
}

/// Flushed output without its last four bytes (all of it cut when it is
/// shorter).
pub open spec fn without_marker(acc: Seq<u8>) -> Seq<u8> {
    if acc.len() >= 4 {
        acc.take(acc.len() - 4)
    } else {
        Seq::empty()
    }
}

/// Cuts the sync marker off flushed output (see [`without_marker`]).
pub fn strip_sync_marker(acc: &Vec<u8>) -> (r: Vec<u8>)
    ensures
        r@ == without_marker(acc@),
{
    let keep: usize = if acc.len() >= 4 {
        acc.len() - 4
    } else {
        0
    };
    let mut out: Vec<u8> = Vec::new();
    let mut i: usize = 0;
    while i < keep
        invariant
            keep <= acc@.len(),
            keep == if acc@.len() >= 4 {
                acc@.len() - 4
            } else {
                0
            },
            i <= keep,
            out@ == acc@.take(i as int),
        decreases keep - i,
    {
        out.push(acc[i]);
        assert(out@ =~= acc@.take(i + 1));
        i = i + 1;
    }
    assert(out@ =~= without_marker(acc@));
    out
}

/// A frame as the browser inflates it: the frame with the sync marker put
/// back.
pub open spec fn with_marker(frame: Seq<u8>) -> Seq<u8> {
    frame + sync_marker()
}

/// Putting the marker back undoes cutting it off, for flushed output that
/// ends with it.
pub proof fn lemma_marker_round_trip(acc: Seq<u8>)
    requires
        acc.len() >= 4,
        acc.subrange(acc.len() - 4, acc.len() as int) == sync_marker(),
    ensures
        with_marker(without_marker(acc)) == acc,
{
    assert(with_marker(without_marker(acc)) =~= acc);
}

/// The compressing side of a connection.
pub struct FrameCompressor {
    encoder: Encoder,
}

impl View for FrameCompressor {
    /// The frames compressed in this context so far (`None` once a
    /// compression failed).
    type V = Option<Seq<Seq<u8>>>;

    closed spec fn view(&self) -> Option<Seq<Seq<u8>>> {
        encoder_chunks(self.encoder)
    }
}

/// The frame sent for `data` after the frames `h`: what compressing it
/// adds to the stream, without the sync marker.
pub open spec fn next_frame(h: Seq<Seq<u8>>, data: Seq<u8>) -> Seq<u8> {
    without_marker(segment(h, data))
}

impl FrameCompressor {
    /// A fresh compression context, which has compressed nothing.
    pub fn new() -> (r: Self)
        ensures
            r@ == Some(Seq::<Seq<u8>>::empty()),
            restores(Seq::<Seq<u8>>::empty()),
            inflates(segments(Seq::<Seq<u8>>::empty())),
    {
        FrameCompressor { encoder: new_encoder() }
    }

    /// Compresses one frame body, keeping the compression context for the
    /// frames that follow: the body is written, the compressor sync-flushed,
    /// and its new output returned without the sync marker. An I/O error
    /// of either step is returned as it came, and the context is then
    /// spoiled.
    pub fn compress_frame(&mut self, data: &[u8]) -> (r: Result<Vec<u8>, std::io::Error>)
        ensures
            old(self)@ is Some ==> r is Ok,
            match r {
                Ok(v) => match old(self)@ {
                    Some(h) => final(self)@ == Some(h.push(data@)) && v@ == next_frame(h, data@)
                        && with_marker(v@) == segment(h, data@) && restores(h.push(data@))
                        && inflates(segments(h.push(data@))),
                    None => final(self)@ is None,
                },
                Err(_) => final(self)@ is None,
            },
    {
        match encoder_sync_chunk(&mut self.encoder, data) {
            Ok(acc) => {
                proof {
                    if let Some(h) = old(self)@ {
                        assert(deflate_stream(h.push(data@)).skip(deflate_stream(h).len() as int)
                            =~= acc@);
                        lemma_marker_round_trip(acc@);
                    }
                }
                Ok(strip_sync_marker(&acc))
            },
            Err(e) => Err(e),
        }
    }
}

impl Default for FrameCompressor {
    fn default() -> (r: Self)
        ensures
            r@ == Some(Seq::<Seq<u8>>::empty()),
    {
        FrameCompressor::new()
    }
}

/// The inflating side, for clients written in Rust (and tests).
pub struct FrameDecompressor {
    decoder: Decoder,
}

impl View for FrameDecompressor {
    /// The frames inflated in this context so far, each with the sync
    /// marker put back (`None` once an inflation failed).
    type V = Option<Seq<Seq<u8>>>;

    closed spec fn view(&self) -> Option<Seq<Seq<u8>>> {
        decoder_chunks(self.decoder)
    }
}

/// What inflating `frame` (with the sync marker put back) after the
/// marked frames `h` yields.
pub open spec fn next_inflated(h: Seq<Seq<u8>>, frame: Seq<u8>) -> Seq<u8> {
    inflate_stream(h.push(with_marker(frame))).skip(inflate_stream(h).len() as int)
}

impl FrameDecompressor {
    /// A fresh decompression context, which has inflated nothing.
    pub fn new() -> (r: Self)
        ensures
            r@ == Some(Seq::<Seq<u8>>::empty()),
    {
        FrameDecompressor { decoder: new_decoder() }
    }

    /// Inflates one frame: the frame with the sync marker it was sent
    /// without put back, then a flush; returns what the decompressor has
    /// produced. An I/O error is returned as it came, and the context is
    /// then spoiled.
    pub fn decompress_frame(&mut self, compressed: &[u8]) -> (r: Result<Vec<u8>, std::io::Error>)
        ensures
            old(self)@ matches Some(g) && inflates(g.push(with_marker(compressed@))) ==> r is Ok,
            match r {
                Ok(v) => match old(self)@ {
                    Some(h) => final(self)@ == Some(h.push(with_marker(compressed@))) && v@
                        == next_inflated(h, compressed@),
                    None => final(self)@ is None,
                },
                Err(_) => final(self)@ is None,
            },
    {
        let mut marked: Vec<u8> = Vec::new();
        let mut i: usize = 0;
        while i < compressed.len()
            invariant
                i <= compressed@.len(),
                marked@ == compressed@.take(i as int),
            decreases compressed.len() - i,
        {
            marked.push(compressed[i]);
            assert(marked@ =~= compressed@.take(i + 1));
            i = i + 1;
        }
        marked.push(0x00u8);
        marked.push(0x00u8);
        marked.push(0xffu8);
        marked.push(0xffu8);
        assert(marked@ =~= with_marker(compressed@));
        match decoder_sync_chunk(&mut self.decoder, marked.as_slice()) {
            Ok(out) => {
                proof {
                    if let Some(h) = old(self)@ {
                        assert(inflate_stream(h.push(with_marker(compressed@))).skip(
                            inflate_stream(h).len() as int,
                        ) =~= out@);
                    }
                }
                Ok(out)
            },
            Err(e) => Err(e),
        }
    }
}

impl Default for FrameDecompressor {
    fn default() -> (r: Self)
        ensures
            r@ == Some(Seq::<Seq<u8>>::empty()),
    {
        FrameDecompressor::new()
    }
}

/// Frames inflate back to what was compressed: after the chunks `h`, whose
/// segments a decompressor has been given (what compressing them reports),
/// the frame sent for `d`, with the marker put back, is the next segment,
/// the decompressor takes it (so `decompress_frame` succeeds), and
/// inflating it gives back `d`. The `requires` are what
/// `FrameCompressor::new` and `compress_frame` state of their successes.
pub proof fn lemma_frame_round_trip(h: Seq<Seq<u8>>, d: Seq<u8>)
    requires
        restores(h),
        restores(h.push(d)),
        inflates(segments(h.push(d))),
        with_marker(next_frame(h, d)) == segment(h, d),
    ensures
        segments(h).push(with_marker(next_frame(h, d))) == segments(h.push(d)),
        inflates(segments(h).push(with_marker(next_frame(h, d)))),
        next_inflated(segments(h), next_frame(h, d)) == d,
{
    assert(h.push(d).drop_last() =~= h);
    assert(h.push(d).last() == d);
    assert(segments(h.push(d)) == segments(h).push(segment(h, d)));
    assert(joined(h.push(d)) == joined(h) + d);
    assert((joined(h) + d).skip(joined(h).len() as int) =~= d);
}

} // verus!
