//! The merged output: the header above each file, the count of lines that
//! decides where a new chunk begins, and the chunks themselves.
//!
//! A file is never divided between two chunks. Before a file is written, the
//! lines of its header and its own lines are added to those already in the
//! chunk; if the sum exceeds the limit, the chunk is closed and the file opens
//! the next one.

use vstd::prelude::*;
use vstd::utf8::encode_utf8;
use crate::cli::HeaderStyle;
use crate::paths::{chunk_file_name, chunk_name};

verus! {

/// The number of lines that a header adds to the count of its chunk. The
/// blank line that ends every header is not counted.
pub open spec fn header_line_count(style: HeaderStyle) -> nat {
    match style {
        HeaderStyle::Plain => 1,
        HeaderStyle::Hash => 1,
        HeaderStyle::Underline => 2,
    }
}

/// `>>> `, which begins a plain header.
pub open spec fn plain_marker() -> Seq<u8> {
    seq![62u8, 62u8, 62u8, 32u8]
}

/// Ten hash signs and a space, which begin a hash header.
pub open spec fn hash_marker() -> Seq<u8> {
    seq![35u8, 35u8, 35u8, 35u8, 35u8, 35u8, 35u8, 35u8, 35u8, 35u8, 32u8]
}

/// A run of `n` equals signs.
pub open spec fn underline(n: nat) -> Seq<u8> {
    Seq::new(n, |i: int| 61u8)
}

/// The end of a line.
pub open spec fn newline() -> Seq<u8> {
    seq![10u8]
}

/// The header for a file whose path is written as the bytes `name` and is
/// `width` characters long: a line that names the path behind the marker of
/// the style, or, underlined, the path and below it `width` equals signs;
/// then a blank line.
pub open spec fn header_bytes(style: HeaderStyle, name: Seq<u8>, width: nat) -> Seq<u8> {
    match style {
        HeaderStyle::Plain => plain_marker() + name + newline() + newline(),
        HeaderStyle::Hash => hash_marker() + name + newline() + newline(),
        HeaderStyle::Underline => name + newline() + underline(width) + newline() + newline(),
    }
}

/// The header for the file at `path`, in UTF-8. An underline has one equals
/// sign for each character of the path, so that it is as long as the path is
/// when displayed.
pub open spec fn header_of(style: HeaderStyle, path: Seq<char>) -> Seq<u8> {
    header_bytes(style, encode_utf8(path), path.len())
}

/// The number of line ends among `bytes`.
pub open spec fn newline_count(bytes: Seq<u8>) -> nat
    decreases bytes.len(),
{
    if bytes.len() == 0 {
        0
    } else {
        newline_count(bytes.drop_last()) + if bytes.last() == 10u8 {
            1nat
        } else {
            0nat
        }
    }
}

/// The number of lines of `bytes`: the lines that a line end closes, and the
/// rest behind the last line end if there is any.
pub open spec fn line_count(bytes: Seq<u8>) -> nat {
    newline_count(bytes) + if bytes.len() > 0 && bytes.last() != 10u8 {
        1nat
    } else {
        0nat
    }
}

/// The number of lines that a file of `file_lines` lines adds to its chunk,
/// its header counted.
pub open spec fn block_lines(style: HeaderStyle, file_lines: nat) -> nat {
    header_line_count(style) + file_lines
}

/// A count of lines as it is kept: it stops growing at `usize::MAX`.
pub open spec fn clip_count(n: int) -> usize {
    if n > usize::MAX {
        usize::MAX
    } else if n < 0 {
        0
    } else {
        n as usize
    }
}

/// Whether a file of `block` lines, header counted, opens a new chunk when
/// the current one holds `written` lines: it does if a limit is set and the
/// sum would exceed it.
pub open spec fn must_rotate(written: nat, block: nat, split_every: Option<usize>) -> bool {
    split_every matches Some(limit) && written + block > limit
}

/// Where the writer stands: how many lines the current chunk holds, and which
/// chunk it is. The first chunk has index 0.
#[derive(Copy, Clone, Debug, PartialEq, Eq, Structural)]
pub struct ChunkState {
    pub lines_written: usize,
    pub chunk_index: usize,
}

/// The state after a file of `block` lines, header counted, was begun.
pub open spec fn advanced(state: ChunkState, block: nat, split_every: Option<usize>) -> ChunkState {
    if must_rotate(state.lines_written as nat, block, split_every) {
        ChunkState {
            lines_written: clip_count(block as int),
            chunk_index: clip_count(state.chunk_index + 1),
        }
    } else {
        ChunkState {
            lines_written: clip_count(state.lines_written + block),
            chunk_index: state.chunk_index,
        }
    }
}

/// The number of lines that a header adds to the count of its chunk.
pub fn header_lines(style: HeaderStyle) -> (n: usize)
    ensures
        n == header_line_count(style),
{
    match style {
        HeaderStyle::Plain => 1,
        HeaderStyle::Hash => 1,
        HeaderStyle::Underline => 2,
    }
}

/// Appends the header for the file at `path` to `out`.
pub fn write_header(out: &mut Vec<u8>, style: HeaderStyle, path: &str)
    ensures
        final(out)@ == old(out)@ + header_of(style, path@),
{
    let ghost before = out@;
    let name: &[u8] = path.as_bytes();
    match style {
        HeaderStyle::Plain => {
            out.push(62u8);
            out.push(62u8);
            out.push(62u8);
            out.push(32u8);
            out.extend_from_slice(name);
            out.push(10u8);
        },
        HeaderStyle::Hash => {
            let mut i: usize = 0;
            while i < 10
                invariant
                    i <= 10,
                    out@.len() == before.len() + i,
                    out@.take(before.len() as int) == before,
                    forall|j: int| before.len() <= j < out@.len() ==> out@[j] == 35u8,
                decreases 10 - i,
            {
                out.push(35u8);
                i += 1;
            }
            out.push(32u8);
            out.extend_from_slice(name);
            out.push(10u8);
        },
        HeaderStyle::Underline => {
            out.extend_from_slice(name);
            out.push(10u8);
            let ghost lined = out@;
            let width: usize = path.unicode_len();
            let mut i: usize = 0;
            while i < width
                invariant
                    i <= width,
                    out@.len() == lined.len() + i,
                    out@.take(lined.len() as int) == lined,
                    forall|j: int| lined.len() <= j < out@.len() ==> out@[j] == 61u8,
                decreases width - i,
            {
                out.push(61u8);
                i += 1;
            }
            assert(out@ =~= lined + underline(width as nat));
            out.push(10u8);
        },
    }
    out.push(10u8);
}

/// A sequence of bytes holds at most as many line ends as bytes.
pub proof fn lemma_newline_count_bound(bytes: Seq<u8>)
    ensures
        newline_count(bytes) <= bytes.len(),
    decreases bytes.len(),
{
    if bytes.len() > 0 {
        lemma_newline_count_bound(bytes.drop_last());
    }
}

/// Bytes among which there is no line end hold no line end.
pub proof fn lemma_no_newline(bytes: Seq<u8>)
    requires
        forall|i: int| 0 <= i < bytes.len() ==> bytes[i] != 10u8,
    ensures
        newline_count(bytes) == 0,
    decreases bytes.len(),
{
    if bytes.len() > 0 {
        lemma_no_newline(bytes.drop_last());
    }
}

/// The line ends of two sequences joined are those of the one and those of
/// the other.
pub proof fn lemma_newline_count_concat(first: Seq<u8>, second: Seq<u8>)
    ensures
        newline_count(first + second) == newline_count(first) + newline_count(second),
    decreases second.len(),
{
    if second.len() == 0 {
        assert(first + second =~= first);
    } else {
        assert((first + second).drop_last() =~= first + second.drop_last());
        lemma_newline_count_concat(first, second.drop_last());
    }
}

/// The header of a path that holds no line end has the lines that are
/// counted for its style, and the blank line behind them.
pub proof fn lemma_header_has_its_lines(style: HeaderStyle, path: Seq<u8>, width: nat)
    requires
        newline_count(path) == 0,
    ensures
        line_count(header_bytes(style, path, width)) == header_line_count(style) + 1,
{
    lemma_no_newline(plain_marker());
    lemma_no_newline(hash_marker());
    lemma_no_newline(underline(width));
    assert(newline_count(newline()) == 1) by {
        assert(newline().drop_last() =~= Seq::<u8>::empty());
        assert(newline_count(Seq::<u8>::empty()) == 0);
        assert(newline().last() == 10u8);
    }
    match style {
        HeaderStyle::Plain => {
            lemma_newline_count_concat(plain_marker(), path);
            lemma_newline_count_concat(plain_marker() + path, newline());
            lemma_newline_count_concat(plain_marker() + path + newline(), newline());
        },
        HeaderStyle::Hash => {
            lemma_newline_count_concat(hash_marker(), path);
            lemma_newline_count_concat(hash_marker() + path, newline());
            lemma_newline_count_concat(hash_marker() + path + newline(), newline());
        },
        HeaderStyle::Underline => {
            lemma_newline_count_concat(path, newline());
            lemma_newline_count_concat(path + newline(), underline(width));
            lemma_newline_count_concat(path + newline() + underline(width), newline());
            lemma_newline_count_concat(
                path + newline() + underline(width) + newline(),
                newline(),
            );
        },
    }
}

/// Counts the lines of `bytes`.
pub fn count_lines(bytes: &[u8]) -> (n: usize)
    ensures
        n == line_count(bytes@),
        n <= bytes@.len(),
{
    let mut n: usize = 0;
    let mut i: usize = 0;
    while i < bytes.len()
        invariant
            i <= bytes.len(),
            n == newline_count(bytes@.take(i as int)),
            n <= i,
        decreases bytes.len() - i,
    {
        assert(bytes@.take(i + 1).drop_last() =~= bytes@.take(i as int));
        if bytes[i] == 10u8 {
            n += 1;
        }
        i += 1;
    }
    assert(bytes@.take(i as int) =~= bytes@);
    if bytes.len() > 0 && bytes[bytes.len() - 1] != 10u8 {
        proof {
            lemma_newline_count_bound(bytes@.drop_last());
        }
        n + 1
    } else {
        n
    }
}

impl ChunkState {
    /// The state before anything is written: the first chunk, empty.
    pub fn new() -> (state: ChunkState)
        ensures
            state == (ChunkState { lines_written: 0, chunk_index: 0 }),
    {
        ChunkState { lines_written: 0, chunk_index: 0 }
    }

    /// Takes in the next file, of `file_lines` lines, and tells whether it
    /// opens a new chunk. If it does, the caller closes the current chunk and
    /// opens the next before it writes anything of the file.
    pub fn begin_file(&mut self, style: HeaderStyle, file_lines: usize, split_every: Option<usize>) -> (rotate:
        bool)
        ensures
            rotate == must_rotate(
                old(self).lines_written as nat,
                block_lines(style, file_lines as nat),
                split_every,
            ),
            *final(self) == advanced(
                *old(self),
                block_lines(style, file_lines as nat),
                split_every,
            ),
    {
        let header: usize = header_lines(style);
        let block: Option<usize> = file_lines.checked_add(header);
        let rotate: bool = match split_every {
            Some(limit) => match block {
                Some(b) => match self.lines_written.checked_add(b) {
                    Some(total) => total > limit,
                    None => true,
                },
                None => true,
            },
            None => false,
        };
        let clipped: usize = match block {
            Some(b) => b,
            None => usize::MAX,
        };
        if rotate {
            self.lines_written = clipped;
            self.chunk_index = self.chunk_index.saturating_add(1);
        } else {
            self.lines_written = self.lines_written.saturating_add(clipped);
        }
        rotate
    }
}

/// The count that is kept decides as the true count would: a count that has
/// stopped growing exceeds every limit as soon as one more line is added.
pub proof fn lemma_clipped_count_decides(written: nat, block: nat, split_every: Option<usize>)
    requires
        block > 0,
    ensures
        must_rotate(clip_count(written as int) as nat, block, split_every) == must_rotate(
            written,
            block,
            split_every,
        ),
{
}

} // verus!
