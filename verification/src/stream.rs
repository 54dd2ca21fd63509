//! What the parser makes of a stream that was laid out chunk by chunk: the
//! laws that tie the bytes of a stream to the chunks that were written into
//! it.

use crate::chunk::{
    chunk_frame, frame_chunk, frame_complete, frame_end, lemma_frame_holds_chunk, read_outcome,
    tag_kind, ChunkKind, ChunkView,
};
use crate::error::PNGParseError;
use crate::image::ImageView;
use crate::inflate::zlib_inflated;
use crate::png::{has_signature, parse_outcome, parse_stop, signature};
use crate::scan::{
    conclusion, data_payloads, image_of, lemma_compressed_is_data_payloads, scan, Scan, ScanEnd,
    ScanState,
};
use vstd::prelude::*;

verus! {

/// The frames of the chunks of `cs`, one behind the other.
pub open spec fn frames(cs: Seq<ChunkView>) -> Seq<u8>
    decreases cs.len(),
{
    if cs.len() == 0 {
        Seq::empty()
    } else {
        chunk_frame(cs[0]) + frames(cs.drop_first())
    }
}

/// Every chunk of `cs` is valid and none is an end marker.
pub open spec fn body_chunks(cs: Seq<ChunkView>) -> bool {
    forall|i: int|
        0 <= i < cs.len() ==> (#[trigger] cs[i]).valid() && tag_kind(cs[i].type_tag)
            != ChunkKind::End
}

/// One step of reading: where a whole frame with a matching checksum starts
/// at `pos`, the end marker stops the scan behind it, and any other chunk is
/// taken in and the scan goes on behind it.
proof fn lemma_scan_step(input: Seq<u8>, pos: int, st: ScanState)
    requires
        frame_complete(input, pos),
        frame_chunk(input, pos).valid(),
    ensures
        scan(input, pos, st) == if tag_kind(frame_chunk(input, pos).type_tag) == ChunkKind::End {
            Scan { state: st, pos: frame_end(input, pos), end: ScanEnd::Terminal }
        } else {
            scan(input, frame_end(input, pos), st.absorb(frame_chunk(input, pos)))
        },
{
}

/// Seen from its first chunk: the first frame, then the frames of the rest.
proof fn lemma_frames_split(before: Seq<u8>, cs: Seq<ChunkView>, after: Seq<u8>)
    requires
        cs.len() > 0,
    ensures
        before + frames(cs) + after == before + chunk_frame(cs[0]) + (frames(cs.drop_first())
            + after),
        before + frames(cs) + after == (before + chunk_frame(cs[0])) + frames(cs.drop_first())
            + after,
        frames(cs).len() == chunk_frame(cs[0]).len() + frames(cs.drop_first()).len(),
{
    let c = chunk_frame(cs[0]);
    let r = frames(cs.drop_first());
    assert(frames(cs) == c + r);
    assert(before + (c + r) + after =~= before + c + (r + after));
    assert(before + (c + r) + after =~= (before + c) + r + after);
}

/// Reading the frames of valid chunks, none of them an end marker, takes in
/// exactly those chunks, in order, and goes on behind the last frame.
pub proof fn lemma_scan_reads_frames(
    before: Seq<u8>,
    cs: Seq<ChunkView>,
    after: Seq<u8>,
    st: ScanState,
)
    requires
        body_chunks(cs),
    ensures
        scan(before + frames(cs) + after, before.len() as int, st) == scan(
            before + frames(cs) + after,
            (before.len() + frames(cs).len()) as int,
            st.absorb_all(cs),
        ),
    decreases cs.len(),
{
    if cs.len() > 0 {
        let input = before + frames(cs) + after;
        let c = cs[0];
        let rest = cs.drop_first();
        let ahead = before + chunk_frame(c);
        lemma_frames_split(before, cs, after);
        lemma_frame_holds_chunk(before, c, frames(rest) + after);
        lemma_scan_step(input, before.len() as int, st);
        assert(body_chunks(rest)) by {
            assert forall|i: int| 0 <= i < rest.len() implies (#[trigger] rest[i]).valid()
                && tag_kind(rest[i].type_tag) != ChunkKind::End by {
                assert(rest[i] == cs[i + 1]);
            }
        }
        lemma_scan_reads_frames(ahead, rest, after, st.absorb(c));
    }
}

/// Reading the frames of valid chunks followed by the frame of an end marker
/// takes in those chunks and stops right behind the end marker.
pub proof fn lemma_scan_of_finished_frames(
    before: Seq<u8>,
    cs: Seq<ChunkView>,
    end: ChunkView,
    after: Seq<u8>,
    st: ScanState,
)
    requires
        body_chunks(cs),
        end.valid(),
        tag_kind(end.type_tag) == ChunkKind::End,
    ensures
        scan(before + frames(cs) + chunk_frame(end) + after, before.len() as int, st) == (Scan {
            state: st.absorb_all(cs),
            pos: before.len() + frames(cs).len() + 12 + end.length,
            end: ScanEnd::Terminal,
        }),
{
    let input = before + frames(cs) + chunk_frame(end) + after;
    let ahead = before + frames(cs);
    assert(input == before + frames(cs) + (chunk_frame(end) + after)) by {
        assert(input =~= before + frames(cs) + (chunk_frame(end) + after));
    }
    lemma_scan_reads_frames(before, cs, chunk_frame(end) + after, st);
    lemma_frame_holds_chunk(ahead, end, after);
    lemma_scan_step(input, ahead.len() as int, st.absorb_all(cs));
}

/// Reading the frames of valid chunks to the end of the stream takes in those
/// chunks and finds the stream used up.
pub proof fn lemma_scan_of_unfinished_frames(before: Seq<u8>, cs: Seq<ChunkView>, st: ScanState)
    requires
        body_chunks(cs),
    ensures
        scan(before + frames(cs), before.len() as int, st) == (Scan {
            state: st.absorb_all(cs),
            pos: (before.len() + frames(cs).len()) as int,
            end: ScanEnd::Exhausted,
        }),
{
    let input = before + frames(cs);
    assert(input == before + frames(cs) + Seq::<u8>::empty()) by {
        assert(input =~= before + frames(cs) + Seq::<u8>::empty());
    }
    lemma_scan_reads_frames(before, cs, Seq::empty(), st);
}

/// A stream that starts with the signature bytes has the signature.
proof fn lemma_signature_leads(rest: Seq<u8>)
    ensures
        signature().len() == 8,
        has_signature(signature() + rest, 0),
{
    assert((signature() + rest).subrange(0, 8) =~= signature());
}

/// A stream made of the signature, the frames of valid chunks and the frame
/// of an end marker is parsed to what those chunks add up to, with their
/// data payloads, concatenated in order, as the compressed data. Whatever
/// follows the end marker makes no difference, and the read position is
/// left right behind the end marker.
pub proof fn lemma_parse_of_finished_stream(cs: Seq<ChunkView>, end: ChunkView, after: Seq<u8>)
    requires
        body_chunks(cs),
        end.valid(),
        tag_kind(end.type_tag) == ChunkKind::End,
    ensures
        parse_outcome(signature() + frames(cs) + chunk_frame(end) + after, 0) == conclusion(
            ScanState::start().absorb_all(cs),
            zlib_inflated(data_payloads(cs)),
        ),
        ScanState::start().absorb_all(cs).compressed == data_payloads(cs),
        parse_stop(signature() + frames(cs) + chunk_frame(end) + after, 0) == 8 + frames(
            cs,
        ).len() + 12 + end.length,
{
    let input = signature() + frames(cs) + chunk_frame(end) + after;
    let start = ScanState::start();
    assert(has_signature(input, 0)) by {
        lemma_signature_leads(frames(cs) + chunk_frame(end) + after);
        assert(input =~= signature() + (frames(cs) + chunk_frame(end) + after));
    }
    lemma_signature_leads(Seq::empty());
    lemma_scan_of_finished_frames(signature(), cs, end, after, start);
    lemma_compressed_is_data_payloads(start, cs);
    assert(start.compressed + data_payloads(cs) =~= data_payloads(cs));
}

/// A stream made of the signature and the frames of valid chunks, with no
/// end marker, is parsed to what those chunks add up to, with no
/// decompressed data.
pub proof fn lemma_parse_of_unfinished_stream(cs: Seq<ChunkView>)
    requires
        body_chunks(cs),
    ensures
        parse_outcome(signature() + frames(cs), 0) == Ok::<ImageView, PNGParseError>(
            image_of(ScanState::start().absorb_all(cs), Seq::empty()),
        ),
        parse_stop(signature() + frames(cs), 0) == 8 + frames(cs).len(),
{
    lemma_signature_leads(frames(cs));
    lemma_scan_of_unfinished_frames(signature(), cs, ScanState::start());
}

/// A stream whose end marker comes before any byte of image data is
/// rejected with `EmptyImageData`.
pub proof fn lemma_end_without_data_is_rejected(cs: Seq<ChunkView>, end: ChunkView, after: Seq<u8>)
    requires
        body_chunks(cs),
        end.valid(),
        tag_kind(end.type_tag) == ChunkKind::End,
        data_payloads(cs).len() == 0,
    ensures
        parse_outcome(signature() + frames(cs) + chunk_frame(end) + after, 0) == Err::<
            ImageView,
            PNGParseError,
        >(PNGParseError::EmptyImageData),
{
    lemma_parse_of_finished_stream(cs, end, after);
}

/// A stream that does not start with the eight signature bytes is rejected
/// with `SignatureMismatch`, and nothing of it is read.
pub proof fn lemma_wrong_signature_is_rejected(input: Seq<u8>)
    requires
        input.len() < 8 || input.subrange(0, 8) != signature(),
    ensures
        parse_outcome(input, 0) == Err::<ImageView, PNGParseError>(
            PNGParseError::SignatureMismatch,
        ),
        parse_stop(input, 0) == 0,
{
}

} // verus!
