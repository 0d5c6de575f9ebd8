//! Appending text to a `BytesMut`.

use bytes::BytesMut;
use std::fmt::Write;
use vstd::prelude::*;
use vstd::utf8::encode_utf8;

verus! {

/// `BytesMut` of the bytes crate: a growable byte buffer. Nothing is claimed
/// of it here; what it holds goes by the name `sink_bytes`.
#[verifier::external_type_specification]
#[verifier::external_body]
pub struct ExBytesMut(bytes::BytesMut);

/// `std::fmt::Error`, the error of `write_str`. It carries nothing.
#[verifier::external_type_specification]
#[verifier::external_body]
pub struct ExFmtError(core::fmt::Error);

/// The bytes that a buffer holds, in their order.
pub uninterp spec fn sink_bytes(sink: BytesMut) -> Seq<u8>;

/// Why an export stopped.
#[derive(Clone, Copy, Debug, PartialEq, Eq)]
pub enum ExportError {
    /// The buffer could not take a block: with it the buffer would hold
    /// more than `isize::MAX` bytes.
    SinkFull,
}

/// The view of each text.
pub open spec fn texts(strings: Seq<String>) -> Seq<Seq<char>> {
    Seq::new(strings.len(), |i: int| strings[i]@)
}

/// The first `n` blocks as bytes, one after the other.
pub open spec fn block_bytes(blocks: Seq<Seq<char>>, n: nat) -> Seq<u8>
    decreases n,
{
    if n == 0 {
        Seq::empty()
    } else {
        block_bytes(blocks, (n - 1) as nat) + encode_utf8(blocks[n - 1])
    }
}

/// How many of the blocks, taken from the first on, fit into `room` bytes:
/// the count stops at the first block that does not fit.
pub open spec fn blocks_that_fit(blocks: Seq<Seq<char>>, room: int) -> nat
    decreases blocks.len(),
{
    if blocks.len() == 0 || encode_utf8(blocks[0]).len() > room {
        0
    } else {
        1 + blocks_that_fit(blocks.drop_first(), room - encode_utf8(blocks[0]).len())
    }
}

/// What a buffer that held `before` holds after the blocks were written to
/// it: `before`, then the blocks that fit.
pub open spec fn written(before: Seq<u8>, blocks: Seq<Seq<char>>) -> Seq<u8> {
    before + block_bytes(blocks, blocks_that_fit(blocks, isize::MAX - before.len()))
}

/// Whether all the blocks fit into a buffer that holds `before`.
pub open spec fn all_fit(before: Seq<u8>, blocks: Seq<Seq<char>>) -> bool {
    blocks_that_fit(blocks, isize::MAX - before.len()) == blocks.len()
}

/// `write_str` of `BytesMut`, from its impl of `std::fmt::Write`. The text
/// is appended whole where the buffer then holds at most `isize::MAX` bytes;
/// else the call fails and the buffer is as it was.
#[verifier::external_body]
fn write_text(sink: &mut BytesMut, text: &str) -> (r: Result<(), std::fmt::Error>)
    ensures
        r is Ok <==> sink_bytes(*old(sink)).len() + encode_utf8(text@).len() <= isize::MAX,
        r is Ok ==> sink_bytes(*final(sink)) == sink_bytes(*old(sink)) + encode_utf8(text@),
        r is Err ==> sink_bytes(*final(sink)) == sink_bytes(*old(sink)),
{
    sink.write_str(text)
}

/// The blocks from `from` on fit as the blocks do once the first `from` of
/// them are written.
proof fn fit_continues(blocks: Seq<Seq<char>>, room: int, from: nat)
    requires
        from <= blocks.len(),
        blocks_that_fit(blocks, room) >= from,
    ensures
        blocks_that_fit(blocks, room) == from + blocks_that_fit(
            blocks.skip(from as int),
            room - block_bytes(blocks, from).len(),
        ),
    decreases from,
{
    if from == 0 {
        assert(blocks.skip(0) =~= blocks);
    } else {
        let rest = blocks.drop_first();
        let head = encode_utf8(blocks[0]).len() as int;
        fit_after_first(blocks, room, from);
        assert(blocks.skip(from as int) =~= rest.skip(from - 1));
        fit_continues(rest, room - head, (from - 1) as nat);
        bytes_after_first(blocks, from);
    }
}

proof fn fit_after_first(blocks: Seq<Seq<char>>, room: int, from: nat)
    requires
        0 < from <= blocks.len(),
        blocks_that_fit(blocks, room) >= from,
    ensures
        blocks_that_fit(blocks, room) == 1 + blocks_that_fit(
            blocks.drop_first(),
            room - encode_utf8(blocks[0]).len(),
        ),
{
}

/// The length of the first `n` blocks is that of the first block and of the
/// `n - 1` blocks after it.
proof fn bytes_after_first(blocks: Seq<Seq<char>>, n: nat)
    requires
        0 < n <= blocks.len(),
    ensures
        block_bytes(blocks, n).len() == encode_utf8(blocks[0]).len() + block_bytes(
            blocks.drop_first(),
            (n - 1) as nat,
        ).len(),
    decreases n,
{
    let rest = blocks.drop_first();
    if n == 1 {
        assert(block_bytes(blocks, 0).len() == 0);
        assert(block_bytes(rest, 0).len() == 0);
        assert(block_bytes(blocks, 1) == block_bytes(blocks, 0) + encode_utf8(blocks[0]));
    } else {
        bytes_after_first(blocks, (n - 1) as nat);
        assert(rest[n - 2] == blocks[n - 1]);
        assert(block_bytes(blocks, n) == block_bytes(blocks, (n - 1) as nat) + encode_utf8(
            blocks[n - 1],
        ));
        assert(block_bytes(rest, (n - 1) as nat) == block_bytes(rest, (n - 2) as nat)
            + encode_utf8(rest[n - 2]));
    }
}

/// All the blocks as bytes, one after the other.
pub open spec fn all_bytes(blocks: Seq<Seq<char>>) -> Seq<u8> {
    block_bytes(blocks, blocks.len())
}

/// Writing is additive. What the buffer held stays in front; where all the
/// blocks fit, they follow it whole; and writing a second time puts the
/// second text behind the first.
pub proof fn writing_is_additive(before: Seq<u8>, first: Seq<Seq<char>>, second: Seq<Seq<char>>)
    ensures
        written(before, first).len() >= before.len(),
        written(before, first).take(before.len() as int) == before,
        all_fit(before, first) ==> written(before, first) == before + all_bytes(first),
        all_fit(before, first) && all_fit(written(before, first), second) ==> written(
            written(before, first),
            second,
        ) == before + all_bytes(first) + all_bytes(second),
{
    assert(written(before, first).take(before.len() as int) =~= before);
}

/// Appends the blocks to the buffer in their order, and stops at the first
/// that does not fit: the blocks before it stay written.
pub fn write_blocks(sink: &mut BytesMut, blocks: &Vec<String>) -> (r: Result<(), ExportError>)
    ensures
        sink_bytes(*final(sink)) == written(sink_bytes(*old(sink)), texts(blocks@)),
        r is Ok <==> all_fit(sink_bytes(*old(sink)), texts(blocks@)),
{
    let ghost all = texts(blocks@);
    let ghost before = sink_bytes(*sink);
    let ghost room = isize::MAX - before.len();
    let mut i: usize = 0;
    while i < blocks.len()
        invariant
            i <= blocks@.len(),
            all == texts(blocks@),
            before == sink_bytes(*old(sink)),
            room == isize::MAX - before.len(),
            sink_bytes(*sink) == before + block_bytes(all, i as nat),
            blocks_that_fit(all, room) >= i,
        decreases blocks@.len() - i,
    {
        proof {
            fit_continues(all, room, i as nat);
            assert(all.skip(i as int)[0] == blocks@[i as int]@);
        }
        match write_text(sink, blocks[i].as_str()) {
            Ok(()) => {},
            Err(_) => {
                return Err(ExportError::SinkFull);
            },
        }
        assert(sink_bytes(*sink) =~= before + block_bytes(all, (i + 1) as nat));
        i += 1;
    }
    proof {
        fit_continues(all, room, i as nat);
    }
    Ok(())
}

} // verus!
