//! The chunks of a merge: which files each one holds, and what it holds of
//! them.

use vstd::prelude::*;
use crate::cli::HeaderStyle;
use crate::paths::{chunk_file_name, chunk_name};
use crate::writer::{
    advanced,
    block_lines,
    clip_count,
    count_lines,
    header_of,
    lemma_clipped_count_decides,
    line_count,
    must_rotate,
    write_header,
    ChunkState,
};

verus! {

/// A selected file: its path and all of its bytes.
#[derive(Clone, Debug, PartialEq, Eq)]
pub struct SourceText {
    pub path: String,
    pub content: Vec<u8>,
}

/// What one file contributes to a chunk: its header and, unchanged, its
/// bytes.
#[derive(Clone, Debug, PartialEq, Eq)]
pub struct Section {
    pub header: Vec<u8>,
    pub body: Vec<u8>,
}

/// One output file: its name and the sections it holds, in order.
#[derive(Clone, Debug, PartialEq, Eq)]
pub struct Chunk {
    pub name: String,
    pub sections: Vec<Section>,
}

/// A selected file as a value: the characters of its path and its bytes.
pub struct FileView {
    pub path: Seq<char>,
    pub content: Seq<u8>,
}

/// A section as a value.
pub struct SectionView {
    pub header: Seq<u8>,
    pub body: Seq<u8>,
}

/// A chunk as a value.
pub struct ChunkView {
    pub name: Seq<char>,
    pub sections: Seq<SectionView>,
}

impl View for SourceText {
    type V = FileView;

    open spec fn view(&self) -> FileView {
        FileView { path: self.path@, content: self.content@ }
    }
}

impl View for Section {
    type V = SectionView;

    open spec fn view(&self) -> SectionView {
        SectionView { header: self.header@, body: self.body@ }
    }
}

impl View for Chunk {
    type V = ChunkView;

    open spec fn view(&self) -> ChunkView {
        ChunkView { name: self.name@, sections: section_views(self.sections@) }
    }
}

/// The values of a list of files.
pub open spec fn file_views(files: Seq<SourceText>) -> Seq<FileView> {
    Seq::new(files.len(), |i: int| files[i]@)
}

/// The values of a list of sections.
pub open spec fn section_views(sections: Seq<Section>) -> Seq<SectionView> {
    Seq::new(sections.len(), |i: int| sections[i]@)
}

/// The values of a list of chunks.
pub open spec fn chunk_views(chunks: Seq<Chunk>) -> Seq<ChunkView> {
    Seq::new(chunks.len(), |i: int| chunks[i]@)
}

/// The number of lines that `file` adds to its chunk, its header counted.
pub open spec fn lines_of(file: FileView, style: HeaderStyle) -> nat {
    block_lines(style, line_count(file.content))
}

/// The number of lines in the current chunk after `files` were written.
pub open spec fn written_after(
    files: Seq<FileView>,
    style: HeaderStyle,
    split_every: Option<usize>,
) -> nat
    decreases files.len(),
{
    if files.len() == 0 {
        0
    } else {
        let before = written_after(files.drop_last(), style, split_every);
        let block = lines_of(files.last(), style);
        if must_rotate(before, block, split_every) {
            block
        } else {
            before + block
        }
    }
}

/// Whether the last of `files` opens a new chunk.
pub open spec fn opens_chunk(
    files: Seq<FileView>,
    style: HeaderStyle,
    split_every: Option<usize>,
) -> bool {
    files.len() > 0 && must_rotate(
        written_after(files.drop_last(), style, split_every),
        lines_of(files.last(), style),
        split_every,
    )
}

/// The index of the chunk that holds the last of `files`: the number of
/// times a new chunk was opened while they were written.
pub open spec fn rotations(
    files: Seq<FileView>,
    style: HeaderStyle,
    split_every: Option<usize>,
) -> nat
    decreases files.len(),
{
    if files.len() == 0 {
        0
    } else {
        rotations(files.drop_last(), style, split_every) + if opens_chunk(
            files,
            style,
            split_every,
        ) {
            1nat
        } else {
            0nat
        }
    }
}

/// The files that chunk `k` holds, in order.
pub open spec fn files_in_chunk(
    files: Seq<FileView>,
    style: HeaderStyle,
    split_every: Option<usize>,
    k: nat,
) -> Seq<FileView>
    decreases files.len(),
{
    if files.len() == 0 {
        Seq::empty()
    } else {
        let before = files_in_chunk(files.drop_last(), style, split_every, k);
        if rotations(files, style, split_every) == k {
            before.push(files.last())
        } else {
            before
        }
    }
}

/// What `file` contributes to a chunk: its header in the given style, and
/// its bytes.
pub open spec fn section_of(file: FileView, style: HeaderStyle) -> SectionView {
    SectionView { header: header_of(style, file.path), body: file.content }
}

/// What `files` contribute, one section for each and in their order.
pub open spec fn sections_of(files: Seq<FileView>, style: HeaderStyle) -> Seq<SectionView> {
    Seq::new(files.len(), |i: int| section_of(files[i], style))
}

/// Chunk `k` of the merge of `files`.
pub open spec fn merged_chunk(
    files: Seq<FileView>,
    output_base: Seq<char>,
    style: HeaderStyle,
    split_every: Option<usize>,
    k: nat,
) -> ChunkView {
    ChunkView {
        name: chunk_name(output_base, k),
        sections: sections_of(files_in_chunk(files, style, split_every, k), style),
    }
}

/// The merge of `files`: the first chunk and one more for each time a file
/// opened a new one, each with its name and the sections of its files.
pub open spec fn merged(
    files: Seq<FileView>,
    output_base: Seq<char>,
    style: HeaderStyle,
    split_every: Option<usize>,
) -> Seq<ChunkView> {
    Seq::new(
        rotations(files, style, split_every) + 1,
        |k: int| merged_chunk(files, output_base, style, split_every, k as nat),
    )
}

/// The sections of all of `chunks`, in the order of the chunks.
pub open spec fn joined_sections(chunks: Seq<ChunkView>) -> Seq<SectionView>
    decreases chunks.len(),
{
    if chunks.len() == 0 {
        Seq::empty()
    } else {
        joined_sections(chunks.drop_last()) + chunks.last().sections
    }
}

/// The bodies of `sections`, one behind the other, without the headers.
pub open spec fn bodies(sections: Seq<SectionView>) -> Seq<u8>
    decreases sections.len(),
{
    if sections.len() == 0 {
        Seq::empty()
    } else {
        bodies(sections.drop_last()) + sections.last().body
    }
}

/// The bytes of `files`, one behind the other.
pub open spec fn contents(files: Seq<FileView>) -> Seq<u8>
    decreases files.len(),
{
    if files.len() == 0 {
        Seq::empty()
    } else {
        contents(files.drop_last()) + files.last().content
    }
}

/// The bytes of a chunk: for each section its header, then its body.
pub open spec fn chunk_bytes(sections: Seq<SectionView>) -> Seq<u8>
    decreases sections.len(),
{
    if sections.len() == 0 {
        Seq::empty()
    } else {
        chunk_bytes(sections.drop_last()) + sections.last().header + sections.last().body
    }
}

/// No file lies in a chunk that was never opened.
pub proof fn lemma_unopened_chunk_is_empty(
    files: Seq<FileView>,
    style: HeaderStyle,
    split_every: Option<usize>,
    k: nat,
)
    requires
        k > rotations(files, style, split_every),
    ensures
        files_in_chunk(files, style, split_every, k) == Seq::<FileView>::empty(),
    decreases files.len(),
{
    if files.len() > 0 {
        lemma_unopened_chunk_is_empty(files.drop_last(), style, split_every, k);
    }
}

/// What one more file does to a merge: it opens a new chunk of its own, or it
/// is added to the last chunk; the chunks before stay as they are.
pub proof fn lemma_merged_push(
    files: Seq<FileView>,
    file: FileView,
    output_base: Seq<char>,
    style: HeaderStyle,
    split_every: Option<usize>,
)
    ensures
        ({
            let next = files.push(file);
            let before = merged(files, output_base, style, split_every);
            let after = merged(next, output_base, style, split_every);
            if opens_chunk(next, style, split_every) {
                after == before.push(
                    ChunkView {
                        name: chunk_name(output_base, before.len()),
                        sections: seq![section_of(file, style)],
                    },
                )
            } else {
                after == before.drop_last().push(
                    ChunkView {
                        name: before.last().name,
                        sections: before.last().sections.push(section_of(file, style)),
                    },
                )
            }
        }),
{
    let next = files.push(file);
    let last = rotations(files, style, split_every);
    assert(next.drop_last() =~= files);
    if opens_chunk(next, style, split_every) {
        lemma_unopened_chunk_is_empty(files, style, split_every, last + 1);
        assert(sections_of(files_in_chunk(next, style, split_every, last + 1), style)
            =~= seq![section_of(file, style)]);
    } else {
        assert(sections_of(files_in_chunk(next, style, split_every, last), style)
            =~= sections_of(files_in_chunk(files, style, split_every, last), style).push(
            section_of(file, style),
        ));
    }
}

/// No file is divided between two chunks, none is left out and none is
/// written twice: the sections of all chunks of a merge, in the order of the
/// chunks, are the sections of the files, in the order of the files. So every
/// chunk begins and ends between two files.
pub proof fn lemma_chunks_hold_whole_files(
    files: Seq<FileView>,
    output_base: Seq<char>,
    style: HeaderStyle,
    split_every: Option<usize>,
)
    ensures
        joined_sections(merged(files, output_base, style, split_every)) == sections_of(
            files,
            style,
        ),
    decreases files.len(),
{
    let all = merged(files, output_base, style, split_every);
    if files.len() == 0 {
        assert(joined_sections(all.drop_last()) =~= Seq::<SectionView>::empty());
    } else {
        let shorter = files.drop_last();
        let file = files.last();
        let before = merged(shorter, output_base, style, split_every);
        assert(shorter.push(file) =~= files);
        lemma_chunks_hold_whole_files(shorter, output_base, style, split_every);
        lemma_merged_push(shorter, file, output_base, style, split_every);
        assert(sections_of(files, style) =~= sections_of(shorter, style).push(
            section_of(file, style),
        ));
        if opens_chunk(files, style, split_every) {
            assert(all.drop_last() =~= before);
        } else {
            assert(all.drop_last() =~= before.drop_last());
        }
    }
}

/// Where a writer stands that has begun each of `files` in turn.
pub open spec fn state_after(
    files: Seq<FileView>,
    style: HeaderStyle,
    split_every: Option<usize>,
) -> ChunkState
    decreases files.len(),
{
    if files.len() == 0 {
        ChunkState { lines_written: 0, chunk_index: 0 }
    } else {
        advanced(
            state_after(files.drop_last(), style, split_every),
            lines_of(files.last(), style),
            split_every,
        )
    }
}

/// A writer that begins the files one by one stands where the merge puts the
/// last of them: in the chunk that holds it, with the lines of that chunk
/// counted. So chunks written one file at a time are those of the merge.
pub proof fn lemma_writer_follows_merge(
    files: Seq<FileView>,
    style: HeaderStyle,
    split_every: Option<usize>,
)
    ensures
        state_after(files, style, split_every) == (ChunkState {
            lines_written: clip_count(written_after(files, style, split_every) as int),
            chunk_index: clip_count(rotations(files, style, split_every) as int),
        }),
    decreases files.len(),
{
    if files.len() > 0 {
        let shorter = files.drop_last();
        lemma_writer_follows_merge(shorter, style, split_every);
        lemma_clipped_count_decides(
            written_after(shorter, style, split_every),
            lines_of(files.last(), style),
            split_every,
        );
    }
}

/// The lines of `files` counted together, their headers counted.
pub open spec fn lines_in(files: Seq<FileView>, style: HeaderStyle) -> nat
    decreases files.len(),
{
    if files.len() == 0 {
        0
    } else {
        lines_in(files.drop_last(), style) + lines_of(files.last(), style)
    }
}

/// The count that the writer keeps is the number of lines in the last chunk.
pub proof fn lemma_written_is_last_chunk(
    files: Seq<FileView>,
    style: HeaderStyle,
    split_every: Option<usize>,
)
    ensures
        written_after(files, style, split_every) == lines_in(
            files_in_chunk(files, style, split_every, rotations(files, style, split_every)),
            style,
        ),
    decreases files.len(),
{
    if files.len() > 0 {
        let shorter = files.drop_last();
        let before = rotations(shorter, style, split_every);
        let last = files_in_chunk(files, style, split_every, rotations(files, style, split_every));
        lemma_written_is_last_chunk(shorter, style, split_every);
        if opens_chunk(files, style, split_every) {
            lemma_unopened_chunk_is_empty(shorter, style, split_every, before + 1);
            assert(last.drop_last() =~= Seq::<FileView>::empty());
            assert(lines_in(Seq::<FileView>::empty(), style) == 0);
        } else {
            assert(last.drop_last() =~= files_in_chunk(shorter, style, split_every, before));
        }
    }
}

/// A chunk holds no more lines than the limit, unless it holds a single file
/// that alone has more.
pub proof fn lemma_chunks_respect_limit(
    files: Seq<FileView>,
    style: HeaderStyle,
    limit: usize,
    k: nat,
)
    ensures
        lines_in(files_in_chunk(files, style, Some(limit), k), style) <= limit || files_in_chunk(
            files,
            style,
            Some(limit),
            k,
        ).len() == 1,
    decreases files.len(),
{
    if files.len() > 0 {
        let shorter = files.drop_last();
        let before = rotations(shorter, style, Some(limit));
        let chunk = files_in_chunk(files, style, Some(limit), k);
        lemma_chunks_respect_limit(shorter, style, limit, k);
        if k == rotations(files, style, Some(limit)) {
            if opens_chunk(files, style, Some(limit)) {
                lemma_unopened_chunk_is_empty(shorter, style, Some(limit), before + 1);
            } else {
                lemma_written_is_last_chunk(shorter, style, Some(limit));
                assert(chunk.drop_last() =~= files_in_chunk(shorter, style, Some(limit), before));
            }
        }
    }
}

/// Without a limit the merge is one chunk, named as the output, which holds
/// the sections of all files in their order.
pub proof fn lemma_unsplit_is_one_chunk(
    files: Seq<FileView>,
    output_base: Seq<char>,
    style: HeaderStyle,
)
    ensures
        merged(files, output_base, style, None) == seq![
            ChunkView { name: output_base, sections: sections_of(files, style) },
        ],
{
    lemma_never_opens_without_limit(files, style);
}

/// Without a limit no chunk is opened behind the first, which holds every
/// file.
pub proof fn lemma_never_opens_without_limit(files: Seq<FileView>, style: HeaderStyle)
    ensures
        rotations(files, style, None) == 0,
        files_in_chunk(files, style, None, 0) == files,
    decreases files.len(),
{
    if files.len() > 0 {
        lemma_never_opens_without_limit(files.drop_last(), style);
    }
}

/// The bodies of the sections of files are the bytes of the files.
pub proof fn lemma_bodies_are_contents(files: Seq<FileView>, style: HeaderStyle)
    ensures
        bodies(sections_of(files, style)) == contents(files),
    decreases files.len(),
{
    if files.len() > 0 {
        lemma_bodies_are_contents(files.drop_last(), style);
        assert(sections_of(files, style).drop_last() =~= sections_of(files.drop_last(), style));
    }
}

/// Taken without the headers, the chunks of a merge hold, one behind the
/// other and byte for byte, the files in their order.
pub proof fn lemma_round_trip(
    files: Seq<FileView>,
    output_base: Seq<char>,
    style: HeaderStyle,
    split_every: Option<usize>,
)
    ensures
        bodies(joined_sections(merged(files, output_base, style, split_every))) == contents(files),
{
    lemma_chunks_hold_whole_files(files, output_base, style, split_every);
    lemma_bodies_are_contents(files, style);
}

impl Chunk {
    /// The bytes of the chunk, as they are written to its file.
    pub fn bytes(&self) -> (out: Vec<u8>)
        ensures
            out@ == chunk_bytes(self@.sections),
    {
        let ghost all = section_views(self.sections@);
        let mut out: Vec<u8> = Vec::new();
        let mut i: usize = 0;
        while i < self.sections.len()
            invariant
                i <= self.sections.len(),
                all == section_views(self.sections@),
                out@ == chunk_bytes(all.take(i as int)),
            decreases self.sections.len() - i,
        {
            assert(all.take(i + 1).drop_last() =~= all.take(i as int));
            out.extend_from_slice(self.sections[i].header.as_slice());
            out.extend_from_slice(self.sections[i].body.as_slice());
            i += 1;
        }
        assert(all.take(i as int) =~= all);
        out
    }
}

/// What `file` contributes to a chunk.
pub fn render_section(style: HeaderStyle, file: &SourceText) -> (section: Section)
    ensures
        section@ == section_of(file@, style),
{
    let mut header: Vec<u8> = Vec::new();
    write_header(&mut header, style, file.path.as_str());
    let mut body: Vec<u8> = Vec::new();
    body.extend_from_slice(file.content.as_slice());
    assert(body@ =~= file.content@);
    Section { header, body }
}

/// Merges `files`, in their order, into chunks named after `output_base`.
///
/// There is always a first chunk, and without a limit it is the only one.
/// Every file stands whole, behind one header, in exactly one chunk, and
/// which chunk that is follows from the count of lines alone.
pub fn merge_files(
    files: &Vec<SourceText>,
    output_base: &str,
    style: HeaderStyle,
    split_every: Option<usize>,
) -> (chunks: Vec<Chunk>)
    ensures
        chunk_views(chunks@) == merged(file_views(files@), output_base@, style, split_every),
{
    let ghost all = file_views(files@);
    let mut done: Vec<Chunk> = Vec::new();
    let mut current: Vec<Section> = Vec::new();
    let mut state: ChunkState = ChunkState::new();
    let mut i: usize = 0;
    while i < files.len()
        invariant
            i <= files.len(),
            all == file_views(files@),
            state.lines_written == clip_count(
                written_after(all.take(i as int), style, split_every) as int,
            ),
            chunk_views(done@) == merged(
                all.take(i as int),
                output_base@,
                style,
                split_every,
            ).drop_last(),
            section_views(current@) == merged(
                all.take(i as int),
                output_base@,
                style,
                split_every,
            ).last().sections,
        decreases files.len() - i,
    {
        let ghost prefix = all.take(i as int);
        let ghost file = all[i as int];
        let ghost before = merged(prefix, output_base@, style, split_every);
        let lines: usize = count_lines(files[i].content.as_slice());
        let rotate: bool = state.begin_file(style, lines, split_every);
        let section: Section = render_section(style, &files[i]);
        proof {
            assert(prefix.push(file) =~= all.take(i + 1));
            assert(all.take(i + 1).drop_last() =~= prefix);
            lemma_clipped_count_decides(
                written_after(prefix, style, split_every),
                lines_of(file, style),
                split_every,
            );
            lemma_merged_push(prefix, file, output_base@, style, split_every);
        }
        if rotate {
            let name: String = chunk_file_name(output_base, done.len());
            done.push(Chunk { name, sections: current });
            current = Vec::new();
            current.push(section);
            assert(chunk_views(done@) =~= before.drop_last().push(before.last()));
        } else {
            current.push(section);
        }
        i += 1;
    }
    assert(all.take(i as int) =~= all);
    let ghost whole = merged(all, output_base@, style, split_every);
    let name: String = chunk_file_name(output_base, done.len());
    done.push(Chunk { name, sections: current });
    assert(chunk_views(done@) =~= whole.drop_last().push(whole.last()));
    done
}

} // verus!
