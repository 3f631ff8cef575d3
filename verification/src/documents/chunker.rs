//! Handling and chunking of documents.

use vstd::prelude::*;
use vstd::string::{StrSliceExecFns, StringExecFns, StringSliceAdditionalSpecFns};
use vstd::utf8::{
    decode_utf8, encode_utf8, encode_utf8_decode_utf8, encode_utf8_valid_utf8, is_char_boundary,
    is_char_boundary_start_end_of_seq, valid_utf8,
};
use crate::text::{
    concat, decimal, estimate_tokens, is_blank, is_blank_text, push_decimal, str_eq,
    to_chars, token_estimate, trim_range, trimmed,
};
use crate::utf8_text::{
    HASH_SIGN, LINE_FEED, count_leading_hashes, find_break, leading_hashes,
    lemma_boundary_after_ascii, lemma_encode_concat, lemma_leading_hashes, lemma_next_break,
    line_content_end, next_break, next_line_start, read_line, slice,
};

verus! {

/// The most bytes of a text that is cut into chunks: a quarter of what 32
/// bits count. The index of a chunk is a `u32`, and the counts and positions
/// that a scan keeps, which reach three times the length of the text, have to
/// fit a machine word of 32 bits.
pub const MAX_TEXT_BYTES: usize = 0x3fff_ffff;

/// The most tokens of a document that is loaded in full.
pub const THRESHOLD_FULL: u32 = 4_000;

/// The most tokens of a document that is summarised; a longer one is
/// chunked.
pub const THRESHOLD_SUMMARIZE: u32 = 20_000;

/// The tokens that a chunk aims at.
pub const CHUNK_SIZE_TARGET: u32 = 500;

/// The greatest size of a file that is chunked, in bytes: 50 MiB.
pub const MAX_FILE_SIZE: u64 = 50 * 1024 * 1024;

/// An error of the chunker.
#[derive(Debug, Clone)]
pub enum ChunkerError {
    /// An error of the operating system, by its text.
    Io(String),
    UnsupportedType(String),
    ParseError(String),
    /// The size of the file and the greatest size allowed, in bytes.
    FileTooLarge(u64, u64),
}

impl ChunkerError {
    /// The text of the error.
    pub open spec fn message_of(&self) -> Seq<char> {
        match *self {
            ChunkerError::Io(detail) => "IO error: "@ + detail@,
            ChunkerError::UnsupportedType(kind) => "Unsupported file type: "@ + kind@,
            ChunkerError::ParseError(detail) => "Parse error: "@ + detail@,
            ChunkerError::FileTooLarge(size, max) => "File too large: "@ + decimal(size as nat)
                + " bytes (max "@ + decimal(max as nat) + " bytes)"@,
        }
    }

    /// The text of the error.
    pub fn message(&self) -> (text: String)
        ensures
            text@ == self.message_of(),
    {
        match self {
            ChunkerError::Io(detail) => concat("IO error: ", detail.as_str()),
            ChunkerError::UnsupportedType(kind) => concat("Unsupported file type: ", kind.as_str()),
            ChunkerError::ParseError(detail) => concat("Parse error: ", detail.as_str()),
            ChunkerError::FileTooLarge(size, max) => {
                let mut text = "File too large: ".to_owned();
                push_decimal(&mut text, *size);
                text.append(" bytes (max ");
                push_decimal(&mut text, *max);
                text.append(" bytes)");
                text
            },
        }
    }
}

/// How a document is handled, by its size.
#[derive(Debug, Clone, Copy, PartialEq, Eq, Structural)]
pub enum DocumentHandling {
    /// Loaded in full: up to 4,000 tokens.
    Full,
    /// Summary and section index, read on demand: up to 20,000 tokens.
    Summarized,
    /// Chunked and embedded for retrieval: above 20,000 tokens.
    Chunked,
}

/// How long a document is kept.
#[derive(Debug, Clone, Copy, PartialEq, Eq, Structural)]
pub enum DocumentPersistence {
    /// Dropped after the session.
    Ephemeral,
    /// Kept for the session.
    Cached,
    /// Linked to the thesis for good.
    Permanent,
}

/// A chunk of a document.
///
/// The positions are byte offsets into the document.
#[derive(Debug, Clone)]
pub struct Chunk {
    pub index: u32,
    pub content: String,
    pub start_pos: usize,
    pub end_pos: usize,
    pub token_count: u32,
    /// The heading of the section that the chunk belongs to.
    pub section: Option<String>,
}

/// An entry of the section index of a document.
#[derive(Debug, Clone)]
pub struct SectionIndex {
    pub heading: String,
    pub level: u8,
    pub start_chunk: u32,
    pub token_count: u32,
}

/// A document with its chunks.
#[derive(Debug, Clone)]
pub struct ChunkedDocument {
    pub id: String,
    pub filename: String,
    pub path: String,
    pub total_tokens: u32,
    pub handling: DocumentHandling,
    pub chunks: Vec<Chunk>,
    pub summary: Option<String>,
    pub sections: Vec<SectionIndex>,
}

/// A file or a directory in the file tree.
#[derive(Debug)]
pub struct FileEntry {
    pub name: String,
    pub path: String,
    pub is_directory: bool,
    pub children: Vec<FileEntry>,
}

/// How a document of `token_count` tokens is handled.
pub open spec fn handling_of(token_count: u32) -> DocumentHandling {
    if token_count <= THRESHOLD_FULL {
        DocumentHandling::Full
    } else if token_count <= THRESHOLD_SUMMARIZE {
        DocumentHandling::Summarized
    } else {
        DocumentHandling::Chunked
    }
}

/// How a document of `token_count` tokens is handled.
pub fn determine_handling(token_count: u32) -> (handling: DocumentHandling)
    ensures
        handling == handling_of(token_count),
{
    if token_count <= THRESHOLD_FULL {
        DocumentHandling::Full
    } else if token_count <= THRESHOLD_SUMMARIZE {
        DocumentHandling::Summarized
    } else {
        DocumentHandling::Chunked
    }
}

/// A chunk as plain values: the content and the section in bytes.
pub struct ChunkModel {
    pub index: nat,
    pub content: Seq<u8>,
    pub start_pos: nat,
    pub end_pos: nat,
    pub token_count: u32,
    pub section: Option<Seq<u8>>,
}

impl View for Chunk {
    type V = ChunkModel;

    open spec fn view(&self) -> ChunkModel {
        ChunkModel {
            index: self.index as nat,
            content: encode_utf8(self.content@),
            start_pos: self.start_pos as nat,
            end_pos: self.end_pos as nat,
            token_count: self.token_count,
            section: match self.section {
                Some(heading) => Some(encode_utf8(heading@)),
                None => None,
            },
        }
    }
}

/// The models of a list of chunks, in order.
pub open spec fn chunk_models(chunks: Seq<Chunk>) -> Seq<ChunkModel> {
    Seq::new(chunks.len(), |i: int| chunks[i]@)
}

/// The models of a list with one chunk more at its end.
proof fn lemma_chunk_models_push(chunks: Seq<Chunk>, last: Chunk)
    ensures
        chunk_models(chunks.push(last)) == chunk_models(chunks).push(last@),
{
    assert(chunk_models(chunks.push(last)) =~= chunk_models(chunks).push(last@));
}

/// The bytes are those of a text that is blank.
pub open spec fn is_blank_bytes(bytes: Seq<u8>) -> bool {
    is_blank(decode_utf8(bytes))
}

/// The chunk that is cut from the bytes `from` to `to` of a document and
/// reported to lie between `start_pos` and `end_pos`.
pub open spec fn chunk_of(
    bytes: Seq<u8>,
    index: nat,
    from: int,
    to: int,
    start_pos: int,
    end_pos: int,
    section: Option<Seq<u8>>,
) -> ChunkModel {
    ChunkModel {
        index,
        content: bytes.subrange(from, to),
        start_pos: start_pos as nat,
        end_pos: end_pos as nat,
        token_count: token_estimate((to - from) as nat),
        section,
    }
}

/// Where the chunking of plain text stands.
pub struct PlainScan {
    /// The chunks cut so far.
    pub chunks: Seq<ChunkModel>,
    /// The position at which the chunk in the making is reported to start.
    pub start_pos: int,
    /// The bytes of the chunk in the making: from here ...
    pub from: int,
    /// ... up to here.
    pub to: int,
}

/// The scan after the paragraph from `para_start` to `para_end`.
///
/// Where the chunk in the making is not empty and would, with the paragraph
/// and the empty line before it, be estimated above the target, it is cut
/// first and a new one is begun at the paragraph. The paragraph then goes
/// into the chunk in the making; an empty paragraph at its start leaves it
/// empty.
pub open spec fn plain_step(bytes: Seq<u8>, scan: PlainScan, para_start: int, para_end: int) -> PlainScan {
    let held = scan.to - scan.from;
    let added = if held == 0 {
        para_end - para_start
    } else {
        para_end - para_start + 2
    };
    let cut = held > 0 && token_estimate((held + added) as nat) > CHUNK_SIZE_TARGET;
    let after_cut = if cut {
        PlainScan {
            chunks: scan.chunks.push(
                chunk_of(
                    bytes,
                    scan.chunks.len(),
                    scan.from,
                    scan.to,
                    scan.start_pos,
                    para_start,
                    None,
                ),
            ),
            start_pos: para_start,
            from: para_start,
            to: para_start,
        }
    } else {
        scan
    };
    if after_cut.to - after_cut.from == 0 {
        PlainScan { from: para_start, to: para_end, ..after_cut }
    } else {
        PlainScan { to: para_end, ..after_cut }
    }
}

/// The chunks once the last paragraph is read: the chunk in the making is
/// cut unless it is blank, and reported to end with the document.
pub open spec fn plain_finish(bytes: Seq<u8>, scan: PlainScan) -> Seq<ChunkModel> {
    if is_blank_bytes(bytes.subrange(scan.from, scan.to)) {
        scan.chunks
    } else {
        scan.chunks.push(
            chunk_of(
                bytes,
                scan.chunks.len(),
                scan.from,
                scan.to,
                scan.start_pos,
                bytes.len() as int,
                None,
            ),
        )
    }
}

/// The chunks of plain text, from the paragraph that starts at `para_start`
/// on. Two line feeds end a paragraph.
pub open spec fn plain_chunks_from(bytes: Seq<u8>, para_start: int, scan: PlainScan) -> Seq<ChunkModel>
    decreases bytes.len() - para_start,
{
    let para_end = next_break(bytes, para_start);
    let after = plain_step(bytes, scan, para_start, para_end);
    if 0 <= para_start <= para_end && para_end + 2 <= bytes.len() {
        plain_chunks_from(bytes, para_end + 2, after)
    } else {
        plain_finish(bytes, after)
    }
}

/// The chunks of plain text: paragraphs are gathered into a chunk until the
/// next one would lift its estimate above the target.
pub open spec fn plain_chunks(bytes: Seq<u8>) -> Seq<ChunkModel> {
    plain_chunks_from(bytes, 0, PlainScan { chunks: Seq::empty(), start_pos: 0, from: 0, to: 0 })
}

/// Cuts the chunk from byte `from` to byte `to` out of a document.
fn cut_chunk(
    content: &str,
    index: u32,
    from: usize,
    to: usize,
    start_pos: usize,
    end_pos: usize,
    section: Option<String>,
) -> (chunk: Chunk)
    requires
        from <= to <= content.spec_bytes().len(),
        is_char_boundary(content.spec_bytes(), from as int),
        is_char_boundary(content.spec_bytes(), to as int),
    ensures
        chunk@ == chunk_of(
            content.spec_bytes(),
            index as nat,
            from as int,
            to as int,
            start_pos as int,
            end_pos as int,
            match section {
                Some(heading) => Some(encode_utf8(heading@)),
                None => None,
            },
        ),
{
    let part = slice(content, from, to);
    Chunk {
        index,
        content: part.to_owned(),
        start_pos,
        end_pos,
        token_count: estimate_tokens(to - from),
        section,
    }
}

/// Whether the bytes `from` to `to` of a document are blank.
fn is_blank_part(content: &str, from: usize, to: usize) -> (blank: bool)
    requires
        from <= to <= content.spec_bytes().len(),
        is_char_boundary(content.spec_bytes(), from as int),
        is_char_boundary(content.spec_bytes(), to as int),
    ensures
        blank == is_blank_bytes(content.spec_bytes().subrange(from as int, to as int)),
{
    let part = slice(content, from, to);
    proof {
        encode_utf8_decode_utf8(part@);
    }
    is_blank_text(part)
}

/// Cuts plain text into chunks by its paragraphs.
///
/// No section index comes with plain text.
pub fn chunk_plain_text(content: &str) -> (cut: (Vec<Chunk>, Vec<SectionIndex>))
    requires
        content.spec_bytes().len() <= MAX_TEXT_BYTES,
    ensures
        chunk_models(cut.0@) == plain_chunks(content.spec_bytes()),
        cut.1@.len() == 0,
{
    let bytes = content.as_bytes();
    let ghost all = content.spec_bytes();
    let mut chunks: Vec<Chunk> = Vec::new();
    let mut start_pos: usize = 0;
    let mut from: usize = 0;
    let mut to: usize = 0;
    let mut para_start: usize = 0;
    let mut done: bool = false;
    let ghost mut scan = PlainScan { chunks: Seq::empty(), start_pos: 0, from: 0, to: 0 };
    proof {
        encode_utf8_valid_utf8(content@);
        is_char_boundary_start_end_of_seq(all);
        assert(chunk_models(chunks@) =~= scan.chunks);
    }
    while !done
        invariant
            all == content.spec_bytes(),
            bytes@ == all,
            valid_utf8(all),
            all.len() <= MAX_TEXT_BYTES,
            from <= to <= all.len(),
            para_start <= all.len(),
            is_char_boundary(all, from as int),
            is_char_boundary(all, to as int),
            is_char_boundary(all, para_start as int),
            chunks.len() * 2 <= start_pos <= para_start,
            !done ==> to <= para_start,
            !done ==> para_start == 0 || start_pos + 2 <= para_start,
            !done && para_start == 0 ==> to == from,
            scan.chunks == chunk_models(chunks@),
            scan.start_pos == start_pos,
            scan.from == from,
            scan.to == to,
            !done ==> plain_chunks_from(all, para_start as int, scan) == plain_chunks(all),
            done ==> plain_finish(all, scan) == plain_chunks(all),
        decreases all.len() - para_start + if done { 0int } else { 1int },
    {
        let para_end = find_break(bytes, para_start);
        proof {
            lemma_next_break(all, para_start as int);
            is_char_boundary_start_end_of_seq(all);
            if para_end < all.len() {
                lemma_boundary_after_ascii(all, para_end as int);
                lemma_boundary_after_ascii(all, para_end + 1);
            }
        }
        let ghost before = scan;
        let held: usize = to - from;
        let added: usize = if held == 0 {
            para_end - para_start
        } else {
            para_end - para_start + 2
        };
        if held > 0 && estimate_tokens(held + added) > CHUNK_SIZE_TARGET {
            let chunk = cut_chunk(content, chunks.len() as u32, from, to, start_pos, para_start, None);
            proof {
                lemma_chunk_models_push(chunks@, chunk);
            }
            chunks.push(chunk);
            start_pos = para_start;
            from = para_start;
            to = para_start;
        }
        if to - from == 0 {
            from = para_start;
            to = para_end;
        } else {
            to = para_end;
        }
        proof {
            scan = plain_step(all, before, para_start as int, para_end as int);
        }
        if para_end < bytes.len() {
            para_start = para_end + 2;
        } else {
            done = true;
        }
    }
    if !is_blank_part(content, from, to) {
        let chunk = cut_chunk(content, chunks.len() as u32, from, to, start_pos, bytes.len(), None);
        proof {
            lemma_chunk_models_push(chunks@, chunk);
        }
        chunks.push(chunk);
    }
    (chunks, Vec::new())
}

/// An entry of a section index as plain values.
pub struct SectionModel {
    pub heading: Seq<char>,
    pub level: u8,
    pub start_chunk: nat,
    pub token_count: u32,
}

impl View for SectionIndex {
    type V = SectionModel;

    open spec fn view(&self) -> SectionModel {
        SectionModel {
            heading: self.heading@,
            level: self.level,
            start_chunk: self.start_chunk as nat,
            token_count: self.token_count,
        }
    }
}

/// The models of a section index, in order.
pub open spec fn section_models(sections: Seq<SectionIndex>) -> Seq<SectionModel> {
    Seq::new(sections.len(), |i: int| sections[i]@)
}

/// The models of a section index with one entry more at its end.
proof fn lemma_section_models_push(sections: Seq<SectionIndex>, last: SectionIndex)
    ensures
        section_models(sections.push(last)) == section_models(sections).push(last@),
{
    assert(section_models(sections.push(last)) =~= section_models(sections).push(last@));
}

/// Where the chunking of a markdown document stands.
pub struct MarkdownScan {
    /// The chunks cut so far.
    pub chunks: Seq<ChunkModel>,
    /// The sections opened so far.
    pub sections: Seq<SectionModel>,
    /// The heading of the section that is open.
    pub section: Option<Seq<char>>,
    /// The bytes of the chunk in the making.
    pub current: Seq<u8>,
    /// The position at which the chunk in the making is reported to start.
    pub start_pos: int,
    /// The position that is reported for the next line.
    pub pos: int,
}

/// The heading as the section of a chunk.
pub open spec fn section_bytes(section: Option<Seq<char>>) -> Option<Seq<u8>> {
    match section {
        Some(heading) => Some(encode_utf8(heading)),
        None => None,
    }
}

/// The heading that a line of hash signs and text gives: the text after the
/// hash signs, without the white space at its two ends.
pub open spec fn heading_of(line: Seq<u8>) -> Seq<char> {
    let hashes = leading_hashes(line, 0, line.len() as int);
    let rest = decode_utf8(line.subrange(hashes, line.len() as int));
    let range = trimmed(rest, 0, rest.len() as int);
    rest.subrange(range.0, range.1)
}

/// The level of a heading: the number of its hash signs, as it fits into a
/// `u8`.
pub open spec fn level_of(line: Seq<u8>) -> u8 {
    (leading_hashes(line, 0, line.len() as int) % 256) as u8
}

/// The chunk in the making, cut as it is and reported to end at `end_pos`.
pub open spec fn current_chunk(scan: MarkdownScan, end_pos: int) -> ChunkModel {
    ChunkModel {
        index: scan.chunks.len(),
        content: scan.current,
        start_pos: scan.start_pos as nat,
        end_pos: end_pos as nat,
        token_count: token_estimate(scan.current.len()),
        section: section_bytes(scan.section),
    }
}

/// The scan after a heading line: the chunk in the making is cut unless it
/// is blank, and a section is opened that starts with the next chunk.
pub open spec fn open_section(scan: MarkdownScan, line: Seq<u8>) -> MarkdownScan {
    let chunks = if is_blank_bytes(scan.current) {
        scan.chunks
    } else {
        scan.chunks.push(current_chunk(scan, scan.pos))
    };
    let heading = heading_of(line);
    MarkdownScan {
        chunks,
        sections: scan.sections.push(
            SectionModel { heading, level: level_of(line), start_chunk: chunks.len(), token_count: 0 },
        ),
        section: Some(heading),
        current: Seq::empty(),
        start_pos: scan.pos,
        pos: scan.pos,
    }
}

/// The place at which a chunk in the making is split: after the first two
/// line feeds in its second half. Nothing where its estimate is below the
/// target or no two line feeds stand there.
pub open spec fn split_place(current: Seq<u8>) -> Option<int> {
    let at = next_break(current, current.len() as int / 2);
    if token_estimate(current.len()) >= CHUNK_SIZE_TARGET && at + 2 <= current.len() {
        Some(at + 2)
    } else {
        None
    }
}

/// The scan after the chunk in the making was split, where it is to be
/// split.
pub open spec fn split_current(scan: MarkdownScan) -> MarkdownScan {
    match split_place(scan.current) {
        Some(split) => MarkdownScan {
            chunks: scan.chunks.push(
                ChunkModel {
                    index: scan.chunks.len(),
                    content: scan.current.subrange(0, split),
                    start_pos: scan.start_pos as nat,
                    end_pos: (scan.start_pos + split) as nat,
                    token_count: token_estimate(split as nat),
                    section: section_bytes(scan.section),
                },
            ),
            current: scan.current.subrange(split, scan.current.len() as int),
            start_pos: scan.start_pos + split,
            ..scan
        },
        None => scan,
    }
}

/// The position that is reported after a line: that of the line, its
/// length, and one more where a line feed stands there.
pub open spec fn pos_after(bytes: Seq<u8>, pos: int, line_len: int) -> int {
    let after = pos + line_len;
    if 0 <= after < bytes.len() && bytes[after] == LINE_FEED {
        after + 1
    } else {
        after
    }
}

/// The scan after a line. A line that starts with a hash sign opens a
/// section. The line and a line feed go into the chunk in the making, which
/// is then split where it has reached the target.
pub open spec fn markdown_step(bytes: Seq<u8>, scan: MarkdownScan, line: Seq<u8>) -> MarkdownScan {
    let opened = if line.len() > 0 && line[0] == HASH_SIGN {
        open_section(scan, line)
    } else {
        scan
    };
    let filled = MarkdownScan { current: opened.current + line + seq![LINE_FEED], ..opened };
    MarkdownScan { pos: pos_after(bytes, scan.pos, line.len() as int), ..split_current(filled) }
}

/// The scan after the lines from the one that starts at `start` on.
pub open spec fn markdown_scan_from(bytes: Seq<u8>, start: int, scan: MarkdownScan) -> MarkdownScan
    decreases bytes.len() - start,
{
    let next = next_line_start(bytes, start);
    if 0 <= start < next <= bytes.len() {
        markdown_scan_from(
            bytes,
            next,
            markdown_step(bytes, scan, bytes.subrange(start, line_content_end(bytes, start))),
        )
    } else {
        scan
    }
}

/// The sum of the estimates of the chunks from position `from` on that
/// belong to the section `heading`, up to the first that does not.
pub open spec fn section_sum(chunks: Seq<ChunkModel>, heading: Seq<char>, from: int) -> nat
    decreases chunks.len() - from,
{
    if 0 <= from < chunks.len() && chunks[from].section == Some(encode_utf8(heading)) {
        chunks[from].token_count as nat + section_sum(chunks, heading, from + 1)
    } else {
        0
    }
}

/// The entry of a section with its tokens filled in: the sum of the
/// estimates of its chunks, at most the greatest `u32`.
pub open spec fn filled_section(chunks: Seq<ChunkModel>, section: SectionModel) -> SectionModel {
    let sum = section_sum(chunks, section.heading, section.start_chunk as int);
    SectionModel {
        token_count: if sum > u32::MAX {
            u32::MAX
        } else {
            sum as u32
        },
        ..section
    }
}

/// The chunks and the section index of a markdown document.
///
/// The lines are read in turn; at the end the chunk in the making is cut
/// unless it is blank, and every section gets the tokens of its chunks.
pub open spec fn markdown_chunks(bytes: Seq<u8>) -> (Seq<ChunkModel>, Seq<SectionModel>) {
    let scan = markdown_scan_from(
        bytes,
        0,
        MarkdownScan {
            chunks: Seq::empty(),
            sections: Seq::empty(),
            section: None,
            current: Seq::empty(),
            start_pos: 0,
            pos: 0,
        },
    );
    let chunks = if is_blank_bytes(scan.current) {
        scan.chunks
    } else {
        scan.chunks.push(current_chunk(scan, bytes.len() as int))
    };
    (chunks, Seq::new(scan.sections.len(), |i: int| filled_section(chunks, scan.sections[i])))
}

/// A copy of the heading of the open section.
fn copy_section(section: &Option<String>) -> (copy: Option<String>)
    ensures
        copy is Some == section is Some,
        copy matches Some(heading) ==> heading@ == section.unwrap()@,
{
    match section {
        Some(heading) => Some(heading.clone()),
        None => None,
    }
}

/// The chunk with the given content.
fn make_chunk(index: u32, content: String, start_pos: usize, end_pos: usize, section: Option<String>) -> (chunk:
    Chunk)
    ensures
        chunk@ == (ChunkModel {
            index: index as nat,
            content: encode_utf8(content@),
            start_pos: start_pos as nat,
            end_pos: end_pos as nat,
            token_count: token_estimate(encode_utf8(content@).len()),
            section: match section {
                Some(heading) => Some(encode_utf8(heading@)),
                None => None,
            },
        }),
{
    let token_count = estimate_tokens(content.as_str().as_bytes().len());
    Chunk { index, content, start_pos, end_pos, token_count, section }
}

/// The heading and the level of a heading line.
fn read_heading(content: &str, from: usize, to: usize) -> (read: (String, u8))
    requires
        from < to <= content.spec_bytes().len(),
        is_char_boundary(content.spec_bytes(), from as int),
        is_char_boundary(content.spec_bytes(), to as int),
        content.spec_bytes()[from as int] == HASH_SIGN,
    ensures
        read.0@ == heading_of(content.spec_bytes().subrange(from as int, to as int)),
        read.1 == level_of(content.spec_bytes().subrange(from as int, to as int)),
{
    let bytes = content.as_bytes();
    let ghost all = content.spec_bytes();
    let ghost line = all.subrange(from as int, to as int);
    let hashes = count_leading_hashes(bytes, from, to);
    proof {
        encode_utf8_valid_utf8(content@);
        lemma_leading_hashes(all, from as int, to as int);
        lemma_hashes_of_part(all, from as int, to as int, from as int);
        if hashes > 0 {
            lemma_boundary_after_ascii(all, from + hashes - 1);
        }
    }
    let rest = slice(content, from + hashes, to);
    proof {
        assert(rest.spec_bytes() =~= line.subrange(hashes as int, line.len() as int));
        encode_utf8_decode_utf8(rest@);
    }
    let chars = to_chars(rest);
    let range = trim_range(&chars, 0, chars.len());
    let heading = rest.substring_char(range.0, range.1).to_owned();
    (heading, (hashes % 256) as u8)
}

/// The hash signs that lead a part of a text lead the same part taken by
/// itself.
proof fn lemma_hashes_of_part(bytes: Seq<u8>, from: int, to: int, at: int)
    requires
        0 <= from <= at <= to <= bytes.len(),
    ensures
        leading_hashes(bytes, at, to) == leading_hashes(
            bytes.subrange(from, to),
            at - from,
            to - from,
        ),
    decreases to - at,
{
    let part = bytes.subrange(from, to);
    if at < to {
        assert(part[at - from] == bytes[at]);
        if bytes[at] == HASH_SIGN {
            lemma_hashes_of_part(bytes, from, to, at + 1);
        }
    }
}

/// The bytes of a line feed are one byte.
proof fn lemma_encode_line_feed()
    ensures
        encode_utf8("\n"@) == seq![LINE_FEED],
{
    reveal_strlit("\n");
    let text = "\n"@;
    assert(text =~= seq!['\n']);
    assert(text.drop_first() =~= Seq::<char>::empty());
    reveal_with_fuel(encode_utf8, 2);
    assert(encode_utf8(text) =~= seq![LINE_FEED]) by {
        assert(text[0] as u32 == 10);
        vstd::utf8::utf8_byte_ranges_bitwise(10);
        assert(vstd::utf8::has_width_1_encoding(10u32));
        assert(vstd::utf8::leading_byte_width_1(10u32) == 10u8) by (bit_vector);
    }
}

/// The heading of the open section, as the scan holds it.
pub open spec fn open_heading(section: Option<String>) -> Option<Seq<char>> {
    match section {
        Some(heading) => Some(heading@),
        None => None,
    }
}

/// Puts a line and a line feed at the end of the chunk in the making.
pub fn push_line(current: &mut String, line: &str)
    ensures
        encode_utf8(final(current)@) == encode_utf8(old(current)@) + line.spec_bytes() + seq![LINE_FEED],
{
    proof {
        lemma_encode_line_feed();
        lemma_encode_concat(current@, line@);
        lemma_encode_concat(current@ + line@, "\n"@);
    }
    current.append(line);
    current.append("\n");
}

/// The estimates of the chunks of a section, summed up and filled into its
/// entry.
fn fill_section(chunks: &Vec<Chunk>, section: &SectionIndex) -> (filled: SectionIndex)
    ensures
        filled@ == filled_section(chunk_models(chunks@), section@),
{
    let ghost models = chunk_models(chunks@);
    let ghost heading = section.heading@;
    let first: usize = section.start_chunk as usize;
    let mut sum: u128 = 0;
    let mut at: usize = first;
    let mut open: bool = true;
    while open && at < chunks.len()
        invariant
            first <= at,
            models == chunk_models(chunks@),
            heading == section.heading@,
            sum <= (at - first) * 0xffff_ffff,
            open ==> section_sum(models, heading, first as int) == sum + section_sum(
                models,
                heading,
                at as int,
            ),
            !open ==> section_sum(models, heading, first as int) == sum,
        decreases chunks.len() - at + if open { 1int } else { 0int },
    {
        let belongs: bool = match &chunks[at].section {
            Some(name) => str_eq(name.as_str(), section.heading.as_str()),
            None => false,
        };
        proof {
            assert(models[at as int] == chunks[at as int]@);
            match chunks[at as int].section {
                Some(name) => {
                    encode_utf8_decode_utf8(name@);
                    encode_utf8_decode_utf8(heading);
                },
                None => {},
            }
            assert((at - first) * 0xffff_ffff + 0xffff_ffff == (at + 1 - first) * 0xffff_ffff)
                by (nonlinear_arith);
            assert((at - first) * 0xffff_ffff <= 0xffff_ffff_ffff_ffff * 0xffff_ffff) by (nonlinear_arith)
                requires
                    0 <= at - first <= 0xffff_ffff_ffff_ffff,
            ;
        }
        if belongs {
            sum = sum + chunks[at].token_count as u128;
            at += 1;
        } else {
            open = false;
        }
    }
    let token_count: u32 = if sum > u32::MAX as u128 {
        u32::MAX
    } else {
        sum as u32
    };
    SectionIndex {
        heading: section.heading.clone(),
        level: section.level,
        start_chunk: section.start_chunk,
        token_count,
    }
}

/// The chunking of a markdown document in the making.
pub struct MarkdownState {
    pub chunks: Vec<Chunk>,
    pub sections: Vec<SectionIndex>,
    pub section: Option<String>,
    pub current: String,
    pub start_pos: usize,
    pub pos: usize,
}

impl MarkdownState {
    /// Where the chunking stands.
    pub open spec fn scan(&self) -> MarkdownScan {
        MarkdownScan {
            chunks: chunk_models(self.chunks@),
            sections: section_models(self.sections@),
            section: open_heading(self.section),
            current: encode_utf8(self.current@),
            start_pos: self.start_pos as int,
            pos: self.pos as int,
        }
    }

    /// Counts and positions are below `bound`.
    pub open spec fn is_within(&self, bound: int) -> bool {
        &&& self.chunks.len() <= bound
        &&& self.sections.len() <= bound
        &&& self.start_pos + encode_utf8(self.current@).len() <= bound
        &&& self.pos <= bound
    }

    /// The chunking before the first line.
    fn new() -> (state: Self)
        ensures
            state.scan() == (MarkdownScan {
                chunks: Seq::empty(),
                sections: Seq::empty(),
                section: None,
                current: Seq::empty(),
                start_pos: 0,
                pos: 0,
            }),
            state.chunks.len() == 0,
            state.sections.len() == 0,
            state.start_pos == 0,
            state.pos == 0,
            encode_utf8(state.current@).len() == 0,
    {
        let state = MarkdownState {
            chunks: Vec::new(),
            sections: Vec::new(),
            section: None,
            current: String::new(),
            start_pos: 0,
            pos: 0,
        };
        proof {
            assert(chunk_models(state.chunks@) =~= Seq::<ChunkModel>::empty());
            assert(section_models(state.sections@) =~= Seq::<SectionModel>::empty());
            assert(encode_utf8(state.current@) =~= Seq::<u8>::empty());
        }
        state
    }

    /// Cuts the chunk in the making as it is, unless it is blank.
    fn cut_current(self, end_pos: usize) -> (state: Self)
        requires
            self.chunks.len() < u32::MAX,
        ensures
            state.scan() == (MarkdownScan {
                chunks: if is_blank_bytes(self.scan().current) {
                    self.scan().chunks
                } else {
                    self.scan().chunks.push(current_chunk(self.scan(), end_pos as int))
                },
                current: state.scan().current,
                ..self.scan()
            }),
            state.chunks.len() <= self.chunks.len() + 1,
            state.sections.len() == self.sections.len(),
            state.start_pos == self.start_pos,
            state.pos == self.pos,
    {
        let mut chunks = self.chunks;
        proof {
            encode_utf8_decode_utf8(self.current@);
        }
        let mut current = self.current;
        if !is_blank_text(current.as_str()) {
            let chunk = make_chunk(
                chunks.len() as u32,
                current,
                self.start_pos,
                end_pos,
                copy_section(&self.section),
            );
            proof {
                lemma_chunk_models_push(chunks@, chunk);
            }
            chunks.push(chunk);
            current = String::new();
        }
        MarkdownState {
            chunks,
            sections: self.sections,
            section: self.section,
            current,
            start_pos: self.start_pos,
            pos: self.pos,
        }
    }

    /// Opens the section of the heading line from `from` to `to`.
    fn open_section(self, content: &str, from: usize, to: usize) -> (state: Self)
        requires
            from < to <= content.spec_bytes().len(),
            is_char_boundary(content.spec_bytes(), from as int),
            is_char_boundary(content.spec_bytes(), to as int),
            content.spec_bytes()[from as int] == HASH_SIGN,
            self.chunks.len() < u32::MAX,
        ensures
            state.scan() == open_section(
                self.scan(),
                content.spec_bytes().subrange(from as int, to as int),
            ),
            state.chunks.len() <= self.chunks.len() + 1,
            state.sections.len() == self.sections.len() + 1,
            state.start_pos == self.pos,
            state.pos == self.pos,
            encode_utf8(state.current@).len() == 0,
    {
        let reported = self.pos;
        let cut = self.cut_current(reported);
        let heading = read_heading(content, from, to);
        let entry = SectionIndex {
            heading: heading.0.clone(),
            level: heading.1,
            start_chunk: cut.chunks.len() as u32,
            token_count: 0,
        };
        let mut sections = cut.sections;
        proof {
            lemma_section_models_push(sections@, entry);
        }
        sections.push(entry);
        let state = MarkdownState {
            chunks: cut.chunks,
            sections,
            section: Some(heading.0),
            current: String::new(),
            start_pos: reported,
            pos: reported,
        };
        proof {
            assert(encode_utf8(state.current@) =~= Seq::<u8>::empty());
        }
        state
    }

    /// Splits the chunk in the making where it has reached the target and
    /// holds a paragraph break in its second half.
    fn split(self) -> (state: Self)
        requires
            self.chunks.len() < u32::MAX,
            self.start_pos + encode_utf8(self.current@).len() <= usize::MAX,
        ensures
            state.scan() == split_current(self.scan()),
            state.chunks.len() <= self.chunks.len() + 1,
            state.sections.len() == self.sections.len(),
            state.start_pos + encode_utf8(state.current@).len() == self.start_pos + encode_utf8(
                self.current@,
            ).len(),
            state.pos == self.pos,
    {
        let ghost held_bytes = encode_utf8(self.current@);
        let held: usize = self.current.as_str().as_bytes().len();
        if estimate_tokens(held) < CHUNK_SIZE_TARGET {
            return self;
        }
        let at = find_break(self.current.as_str().as_bytes(), held / 2);
        proof {
            lemma_next_break(held_bytes, held as int / 2);
        }
        if at >= held {
            return self;
        }
        let split: usize = at + 2;
        proof {
            encode_utf8_valid_utf8(self.current@);
            is_char_boundary_start_end_of_seq(held_bytes);
            lemma_boundary_after_ascii(held_bytes, at + 1);
        }
        let first = slice(self.current.as_str(), 0, split).to_owned();
        let rest = slice(self.current.as_str(), split, held).to_owned();
        let chunk = make_chunk(
            self.chunks.len() as u32,
            first,
            self.start_pos,
            self.start_pos + split,
            copy_section(&self.section),
        );
        let mut chunks = self.chunks;
        proof {
            lemma_chunk_models_push(chunks@, chunk);
            assert(held_bytes.subrange(0, split as int).len() == split);
            assert(held_bytes.subrange(split as int, held as int).len() == held - split);
        }
        chunks.push(chunk);
        MarkdownState {
            chunks,
            sections: self.sections,
            section: self.section,
            current: rest,
            start_pos: self.start_pos + split,
            pos: self.pos,
        }
    }

    /// Takes in the line from `from` to `to` of the document.
    fn take_line(self, content: &str, from: usize, to: usize) -> (state: Self)
        requires
            from <= to <= content.spec_bytes().len(),
            content.spec_bytes().len() <= MAX_TEXT_BYTES,
            is_char_boundary(content.spec_bytes(), from as int),
            is_char_boundary(content.spec_bytes(), to as int),
            self.is_within(2 * MAX_TEXT_BYTES + 1),
        ensures
            state.scan() == markdown_step(
                content.spec_bytes(),
                self.scan(),
                content.spec_bytes().subrange(from as int, to as int),
            ),
            state.chunks.len() <= self.chunks.len() + 2,
            state.sections.len() <= self.sections.len() + 1,
            state.pos == pos_after(content.spec_bytes(), self.pos as int, to - from),
            state.start_pos + encode_utf8(state.current@).len() <= (if to - from > 0
                && content.spec_bytes()[from as int] == HASH_SIGN {
                self.pos as int
            } else {
                self.start_pos + encode_utf8(self.current@).len()
            }) + (to - from) + 1,
    {
        let bytes = content.as_bytes();
        let ghost all = content.spec_bytes();
        let ghost line_bytes = all.subrange(from as int, to as int);
        let line = slice(content, from, to);
        let line_len: usize = to - from;
        let after: usize = self.pos + line_len;
        let new_pos: usize = if after < bytes.len() && bytes[after] == LINE_FEED {
            after + 1
        } else {
            after
        };
        let is_heading: bool = line_len > 0 && bytes[from] == HASH_SIGN;
        proof {
            if line_len > 0 {
                assert(line_bytes[0] == all[from as int]);
            }
        }
        let mut opened = if is_heading {
            self.open_section(content, from, to)
        } else {
            self
        };
        push_line(&mut opened.current, line);
        let split = opened.split();
        MarkdownState {
            chunks: split.chunks,
            sections: split.sections,
            section: split.section,
            current: split.current,
            start_pos: split.start_pos,
            pos: new_pos,
        }
    }
}

/// Cuts a markdown document into chunks at its headings, and into smaller
/// ones at paragraph breaks where a chunk reaches the target.
pub fn chunk_markdown(content: &str) -> (cut: (Vec<Chunk>, Vec<SectionIndex>))
    requires
        content.spec_bytes().len() <= MAX_TEXT_BYTES,
    ensures
        chunk_models(cut.0@) == markdown_chunks(content.spec_bytes()).0,
        section_models(cut.1@) == markdown_chunks(content.spec_bytes()).1,
{
    let bytes = content.as_bytes();
    let ghost all = content.spec_bytes();
    let mut state = MarkdownState::new();
    let ghost start = state.scan();
    let mut line_start: usize = 0;
    proof {
        encode_utf8_valid_utf8(content@);
        is_char_boundary_start_end_of_seq(all);
    }
    while line_start < bytes.len()
        invariant
            all == content.spec_bytes(),
            bytes@ == all,
            all.len() <= MAX_TEXT_BYTES,
            line_start <= all.len(),
            is_char_boundary(all, line_start as int),
            state.pos <= line_start,
            state.start_pos + encode_utf8(state.current@).len() <= state.pos + line_start + 1,
            state.chunks.len() <= 2 * line_start,
            state.sections.len() <= line_start,
            markdown_scan_from(all, line_start as int, state.scan()) == markdown_scan_from(all, 0, start),
        decreases all.len() - line_start,
    {
        let read = read_line(content, line_start);
        state = state.take_line(content, line_start, read.0);
        line_start = read.1;
    }
    let last = state.cut_current(bytes.len());
    let chunks = last.chunks;
    let sections = last.sections;
    let mut filled: Vec<SectionIndex> = Vec::new();
    let mut i: usize = 0;
    while i < sections.len()
        invariant
            i <= sections.len(),
            filled.len() == i,
            forall|j: int|
                0 <= j < i ==> (#[trigger] filled[j])@ == filled_section(
                    chunk_models(chunks@),
                    sections[j]@,
                ),
        decreases sections.len() - i,
    {
        let entry = fill_section(&chunks, &sections[i]);
        filled.push(entry);
        i += 1;
    }
    proof {
        assert(section_models(filled@) =~= markdown_chunks(all).1);
    }
    (chunks, filled)
}

/// The place after the first two line feeds in the second half of a text:
/// a good place to split it. Nothing where no two line feeds stand there.
pub open spec fn paragraph_boundary(text: Seq<u8>) -> Option<int> {
    let at = next_break(text, text.len() as int / 2);
    if at + 2 <= text.len() {
        Some(at + 2)
    } else {
        None
    }
}

/// A good place to split a text: after the first paragraph break in its
/// second half.
pub fn find_paragraph_boundary(text: &str) -> (place: Option<usize>)
    ensures
        match paragraph_boundary(text.spec_bytes()) {
            Some(at) => place == Some(at as usize) && at <= text.spec_bytes().len()
                && is_char_boundary(text.spec_bytes(), at),
            None => place is None,
        },
{
    let bytes = text.as_bytes();
    let at = find_break(bytes, bytes.len() / 2);
    proof {
        lemma_next_break(bytes@, bytes.len() as int / 2);
    }
    if at < bytes.len() {
        proof {
            encode_utf8_valid_utf8(text@);
            lemma_boundary_after_ascii(bytes@, at + 1);
        }
        Some(at + 2)
    } else {
        None
    }
}

/// Where the chunking of code stands.
pub struct CodeScan {
    /// The chunks cut so far.
    pub chunks: Seq<ChunkModel>,
    /// The bytes of the chunk in the making.
    pub current: Seq<u8>,
    /// The position at which the chunk in the making is reported to start.
    pub start_pos: int,
    /// The blank lines read since the last line that was not blank.
    pub blank_count: int,
}

/// The chunk in the making of code, cut as it is and reported to end at
/// `end_pos`.
pub open spec fn code_chunk(scan: CodeScan, end_pos: int) -> ChunkModel {
    ChunkModel {
        index: scan.chunks.len(),
        content: scan.current,
        start_pos: scan.start_pos as nat,
        end_pos: end_pos as nat,
        token_count: token_estimate(scan.current.len()),
        section: None,
    }
}

/// The scan with the chunk in the making cut, and a new one begun after it.
pub open spec fn code_cut(scan: CodeScan) -> CodeScan {
    CodeScan {
        chunks: scan.chunks.push(code_chunk(scan, scan.start_pos + scan.current.len())),
        current: Seq::empty(),
        start_pos: scan.start_pos + scan.current.len(),
        blank_count: scan.blank_count,
    }
}

/// The scan after a line.
///
/// A line that is not blank, after two blank lines or more, cuts the chunk
/// in the making where that has reached half the target. The line and a line
/// feed go into the chunk in the making, which is cut where it has then
/// reached the target.
pub open spec fn code_step(scan: CodeScan, line: Seq<u8>) -> CodeScan {
    let counted = if is_blank_bytes(line) {
        CodeScan { blank_count: scan.blank_count + 1, ..scan }
    } else {
        let cut = if scan.blank_count >= 2 && scan.current.len() > 0 && token_estimate(scan.current.len())
            >= CHUNK_SIZE_TARGET / 2 {
            code_cut(scan)
        } else {
            scan
        };
        CodeScan { blank_count: 0, ..cut }
    };
    let filled = CodeScan { current: counted.current + line + seq![LINE_FEED], ..counted };
    if token_estimate(filled.current.len()) >= CHUNK_SIZE_TARGET {
        code_cut(filled)
    } else {
        filled
    }
}

/// The scan after the lines from the one that starts at `start` on.
pub open spec fn code_scan_from(bytes: Seq<u8>, start: int, scan: CodeScan) -> CodeScan
    decreases bytes.len() - start,
{
    let next = next_line_start(bytes, start);
    if 0 <= start < next <= bytes.len() {
        code_scan_from(
            bytes,
            next,
            code_step(scan, bytes.subrange(start, line_content_end(bytes, start))),
        )
    } else {
        scan
    }
}

/// The chunks of code: runs of lines, cut after two blank lines where a run
/// has reached half the target, and in any case where it reaches the target.
/// What is left at the end is a chunk unless it is blank, and is reported to
/// end with the document.
pub open spec fn code_chunks(bytes: Seq<u8>) -> Seq<ChunkModel> {
    let scan = code_scan_from(
        bytes,
        0,
        CodeScan { chunks: Seq::empty(), current: Seq::empty(), start_pos: 0, blank_count: 0 },
    );
    if is_blank_bytes(scan.current) {
        scan.chunks
    } else {
        scan.chunks.push(code_chunk(scan, bytes.len() as int))
    }
}

/// The chunking of code in the making.
pub struct CodeState {
    pub chunks: Vec<Chunk>,
    pub current: String,
    pub start_pos: usize,
    pub blank_count: usize,
}

impl CodeState {
    /// Where the chunking stands.
    pub open spec fn scan(&self) -> CodeScan {
        CodeScan {
            chunks: chunk_models(self.chunks@),
            current: encode_utf8(self.current@),
            start_pos: self.start_pos as int,
            blank_count: self.blank_count as int,
        }
    }

    /// Cuts the chunk in the making and begins a new one after it.
    fn cut(self) -> (state: Self)
        requires
            self.chunks.len() < u32::MAX,
            self.start_pos + encode_utf8(self.current@).len() <= usize::MAX,
        ensures
            state.scan() == code_cut(self.scan()),
            state.chunks.len() == self.chunks.len() + 1,
            state.start_pos == self.start_pos + encode_utf8(self.current@).len(),
            encode_utf8(state.current@).len() == 0,
            state.blank_count == self.blank_count,
    {
        let held: usize = self.current.as_str().as_bytes().len();
        let end_pos: usize = self.start_pos + held;
        let chunk = make_chunk(self.chunks.len() as u32, self.current, self.start_pos, end_pos, None);
        let mut chunks = self.chunks;
        proof {
            lemma_chunk_models_push(chunks@, chunk);
        }
        chunks.push(chunk);
        let state = CodeState {
            chunks,
            current: String::new(),
            start_pos: end_pos,
            blank_count: self.blank_count,
        };
        proof {
            assert(encode_utf8(state.current@) =~= Seq::<u8>::empty());
        }
        state
    }

    /// Takes in a line.
    fn take_line(self, line: &str) -> (state: Self)
        requires
            self.chunks.len() + 2 < u32::MAX,
            self.blank_count < usize::MAX,
            self.start_pos + encode_utf8(self.current@).len() + line.spec_bytes().len() + 1
                <= usize::MAX,
        ensures
            state.scan() == code_step(self.scan(), line.spec_bytes()),
            state.chunks.len() <= self.chunks.len() + 2,
            state.blank_count <= self.blank_count + 1,
            state.start_pos + encode_utf8(state.current@).len() == self.start_pos + encode_utf8(
                self.current@,
            ).len() + line.spec_bytes().len() + 1,
    {
        proof {
            encode_utf8_decode_utf8(line@);
        }
        let mut counted = if is_blank_text(line) {
            CodeState {
                chunks: self.chunks,
                current: self.current,
                start_pos: self.start_pos,
                blank_count: self.blank_count + 1,
            }
        } else {
            let held: usize = self.current.as_str().as_bytes().len();
            let cut = if self.blank_count >= 2 && held > 0 && estimate_tokens(held) >= CHUNK_SIZE_TARGET
                / 2 {
                self.cut()
            } else {
                self
            };
            CodeState {
                chunks: cut.chunks,
                current: cut.current,
                start_pos: cut.start_pos,
                blank_count: 0,
            }
        };
        push_line(&mut counted.current, line);
        if estimate_tokens(counted.current.as_str().as_bytes().len()) >= CHUNK_SIZE_TARGET {
            counted.cut()
        } else {
            counted
        }
    }
}

/// Cuts code into chunks at runs of blank lines.
///
/// No section index comes with code.
pub fn chunk_code(content: &str) -> (cut: (Vec<Chunk>, Vec<SectionIndex>))
    requires
        content.spec_bytes().len() <= MAX_TEXT_BYTES,
    ensures
        chunk_models(cut.0@) == code_chunks(content.spec_bytes()),
        cut.1@.len() == 0,
{
    let bytes = content.as_bytes();
    let ghost all = content.spec_bytes();
    let mut state = CodeState {
        chunks: Vec::new(),
        current: String::new(),
        start_pos: 0,
        blank_count: 0,
    };
    let ghost start = CodeScan {
        chunks: Seq::empty(),
        current: Seq::empty(),
        start_pos: 0,
        blank_count: 0,
    };
    let mut line_start: usize = 0;
    proof {
        encode_utf8_valid_utf8(content@);
        is_char_boundary_start_end_of_seq(all);
        assert(chunk_models(state.chunks@) =~= Seq::<ChunkModel>::empty());
        assert(encode_utf8(state.current@) =~= Seq::<u8>::empty());
    }
    while line_start < bytes.len()
        invariant
            all == content.spec_bytes(),
            bytes@ == all,
            all.len() <= MAX_TEXT_BYTES,
            line_start <= all.len(),
            is_char_boundary(all, line_start as int),
            state.start_pos + encode_utf8(state.current@).len() <= 2 * line_start,
            state.chunks.len() <= 2 * line_start,
            state.blank_count <= line_start,
            code_scan_from(all, line_start as int, state.scan()) == code_scan_from(all, 0, start),
        decreases all.len() - line_start,
    {
        let read = read_line(content, line_start);
        let line = slice(content, line_start, read.0);
        state = state.take_line(line);
        line_start = read.1;
    }
    proof {
        encode_utf8_decode_utf8(state.current@);
    }
    let mut chunks = state.chunks;
    if !is_blank_text(state.current.as_str()) {
        let chunk = make_chunk(chunks.len() as u32, state.current, state.start_pos, bytes.len(), None);
        proof {
            lemma_chunk_models_push(chunks@, chunk);
        }
        chunks.push(chunk);
    }
    (chunks, Vec::new())
}

/// The kinds of content that are chunked in their own way.
#[derive(Debug, Clone, Copy, PartialEq, Eq, Structural)]
pub enum ContentKind {
    Markdown,
    PlainText,
    Code,
}

/// The kind of content that a file extension in lower case stands for; what
/// is not known is plain text.
pub open spec fn kind_of_extension(extension: Seq<char>) -> ContentKind {
    if extension == "md"@ || extension == "markdown"@ {
        ContentKind::Markdown
    } else if extension == "py"@ || extension == "rs"@ || extension == "ts"@ || extension == "js"@
        || extension == "tsx"@ || extension == "jsx"@ {
        ContentKind::Code
    } else {
        ContentKind::PlainText
    }
}

/// The kind of content that a file extension in lower case stands for.
pub fn content_kind(extension: &str) -> (kind: ContentKind)
    ensures
        kind == kind_of_extension(extension@),
{
    if str_eq(extension, "md") || str_eq(extension, "markdown") {
        ContentKind::Markdown
    } else if str_eq(extension, "py") || str_eq(extension, "rs") || str_eq(extension, "ts") || str_eq(
        extension,
        "js",
    ) || str_eq(extension, "tsx") || str_eq(extension, "jsx") {
        ContentKind::Code
    } else {
        ContentKind::PlainText
    }
}

/// The chunks and the section index of a document of the given kind.
pub open spec fn chunks_by_kind(kind: ContentKind, bytes: Seq<u8>) -> (Seq<ChunkModel>, Seq<SectionModel>) {
    match kind {
        ContentKind::Markdown => markdown_chunks(bytes),
        ContentKind::PlainText => (plain_chunks(bytes), Seq::empty()),
        ContentKind::Code => (code_chunks(bytes), Seq::empty()),
    }
}

/// A document that was read, cut into chunks.
///
/// A document above the greatest size is refused. One that is loaded in full
/// is one chunk. Any other is cut by the kind of its content, which the
/// extension of its file name tells.
pub fn chunk_document_content(
    doc_id: &str,
    filename: &str,
    path: &str,
    extension: &str,
    content: &str,
) -> (chunked: Result<ChunkedDocument, ChunkerError>)
    ensures
        content.spec_bytes().len() > MAX_FILE_SIZE <==> chunked is Err,
        chunked matches Err(error) ==> error matches ChunkerError::FileTooLarge(size, max) && size
            == content.spec_bytes().len() && max == MAX_FILE_SIZE,
        chunked matches Ok(document) ==> {
            let bytes = content.spec_bytes();
            let total = token_estimate(bytes.len());
            &&& document.id@ == doc_id@
            &&& document.filename@ == filename@
            &&& document.path@ == path@
            &&& document.total_tokens == total
            &&& document.handling == handling_of(total)
            &&& document.summary is None
            &&& if handling_of(total) == DocumentHandling::Full {
                chunk_models(document.chunks@) == seq![
                    chunk_of(bytes, 0, 0, bytes.len() as int, 0, bytes.len() as int, None),
                ] && document.sections@.len() == 0
            } else {
                let cut = chunks_by_kind(kind_of_extension(extension@), bytes);
                chunk_models(document.chunks@) == cut.0 && section_models(document.sections@) == cut.1
            }
        },
{
    let size: usize = content.as_bytes().len();
    if size as u64 > MAX_FILE_SIZE {
        return Err(ChunkerError::FileTooLarge(size as u64, MAX_FILE_SIZE));
    }
    let total_tokens = estimate_tokens(size);
    let handling = determine_handling(total_tokens);
    let cut: (Vec<Chunk>, Vec<SectionIndex>) = match handling {
        DocumentHandling::Full => {
            proof {
                encode_utf8_valid_utf8(content@);
                is_char_boundary_start_end_of_seq(content.spec_bytes());
            }
            let whole = cut_chunk(content, 0, 0, size, 0, size, None);
            let mut chunks: Vec<Chunk> = Vec::new();
            chunks.push(whole);
            assert(chunk_models(chunks@) =~= seq![whole@]);
            (chunks, Vec::new())
        },
        _ => match content_kind(extension) {
            ContentKind::Markdown => chunk_markdown(content),
            ContentKind::PlainText => chunk_plain_text(content),
            ContentKind::Code => chunk_code(content),
        },
    };
    proof {
        if handling != DocumentHandling::Full {
            if kind_of_extension(extension@) != ContentKind::Markdown {
                assert(section_models(cut.1@) =~= Seq::<SectionModel>::empty());
            }
        }
    }
    Ok(
        ChunkedDocument {
            id: doc_id.to_owned(),
            filename: filename.to_owned(),
            path: path.to_owned(),
            total_tokens,
            handling,
            chunks: cut.0,
            summary: None,
            sections: cut.1,
        },
    )
}

} // verus!
