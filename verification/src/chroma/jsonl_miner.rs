//! Sources that a conversation log names.

use vstd::prelude::*;
use vstd::string::{StrSliceExecFns, StringSliceAdditionalSpecFns};
use vstd::utf8::{
    decode_utf8, encode_utf8, encode_utf8_decode_utf8, encode_utf8_valid_utf8, is_char_boundary,
    is_char_boundary_start_end_of_seq,
};
use crate::documents::chunker::{
    find_paragraph_boundary, is_blank_bytes, paragraph_boundary, push_line,
};
use crate::obsidian::indexer::are_indexed_chunks;
use crate::text::{hex_digits, is_blank_text, push_hex, str_eq};
use crate::utf8_text::{
    LINE_FEED, find_line_feed, line_content_end, next_line_feed, next_line_start, read_line, slice,
};

verus! {

/// A source that a web search or a web fetch brought.
#[derive(Debug, Clone)]
pub struct WebSource {
    pub url: Option<String>,
    pub title: Option<String>,
    pub query: Option<String>,
    pub content: String,
    /// `"web_search"` or `"web_fetch"`.
    pub source_type: String,
}

/// What mining a conversation log found.
#[derive(Debug)]
pub struct MineResult {
    pub sources: Vec<WebSource>,
    pub tool_calls_found: usize,
}

/// The offset basis of the 64-bit FNV-1a hash.
pub const FNV_OFFSET_BASIS: u64 = 0xcbf29ce484222325;

/// The prime of the 64-bit FNV-1a hash.
pub const FNV_PRIME: u64 = 0x100000001b3;

/// The 64-bit FNV-1a hash of a list of bytes.
pub open spec fn fnv1a(bytes: Seq<u8>) -> u64
    decreases bytes.len(),
{
    if bytes.len() == 0 {
        FNV_OFFSET_BASIS
    } else {
        (((fnv1a(bytes.drop_last()) ^ (bytes.last() as u64)) as int * FNV_PRIME as int)
            % 0x1_0000_0000_0000_0000) as u64
    }
}

/// The 64-bit FNV-1a hash of the bytes of a text.
pub fn fnv1a_hash(text: &str) -> (hash: u64)
    ensures
        hash == fnv1a(text.spec_bytes()),
{
    let bytes = text.as_bytes();
    let mut hash: u64 = FNV_OFFSET_BASIS;
    let mut i: usize = 0;
    assert(bytes@.take(0) =~= Seq::<u8>::empty());
    while i < bytes.len()
        invariant
            i <= bytes.len(),
            hash == fnv1a(bytes@.take(i as int)),
        decreases bytes.len() - i,
    {
        proof {
            assert(bytes@.take(i + 1).drop_last() =~= bytes@.take(i as int));
            assert(bytes@.take(i + 1).last() == bytes@[i as int]);
        }
        hash = hash ^ (bytes[i] as u64);
        hash = hash.wrapping_mul(FNV_PRIME);
        i += 1;
    }
    assert(bytes@.take(bytes.len() as int) =~= bytes@);
    hash
}

/// A short text that stands for a URL in an id: the FNV-1a hash of the URL
/// in sixteen hexadecimal digits. The same URL gives the same text on every
/// machine and in every version.
pub fn hash_url(url: &str) -> (digest: String)
    ensures
        digest@ == hex_digits(fnv1a(url.spec_bytes()) as nat, 16),
{
    let hash = fnv1a_hash(url);
    let mut digest = String::new();
    push_hex(&mut digest, hash, 16);
    assert(digest@ =~= hex_digits(hash as nat, 16));
    digest
}

/// The characters that a chunk of a source aims at.
pub const CHUNK_TARGET_CHARS: usize = 2000;

/// The most characters of a source that are kept.
pub const MAX_SOURCE_CONTENT: usize = 40_000;

/// The bytes at which a chunk is split even without a paragraph break.
pub const CHUNK_HARD_LIMIT: usize = 4000;

/// The content of a source as it is kept: its first 40,000 characters.
pub open spec fn truncated_of(content: Seq<char>) -> Seq<char> {
    if content.len() <= MAX_SOURCE_CONTENT {
        content
    } else {
        content.take(MAX_SOURCE_CONTENT as int)
    }
}

/// Cuts the content of a source to its first 40,000 characters.
pub fn truncate_content(content: &str) -> (kept: String)
    ensures
        kept@ == truncated_of(content@),
{
    let len = content.unicode_len();
    if len <= MAX_SOURCE_CONTENT {
        content.to_owned()
    } else {
        let part = content.substring_char(0, MAX_SOURCE_CONTENT);
        assert(part@ =~= content@.take(MAX_SOURCE_CONTENT as int));
        part.to_owned()
    }
}

/// Where the chunking of a source stands.
pub struct SourceScan {
    /// The chunks cut so far.
    pub chunks: Seq<Seq<u8>>,
    /// The bytes of the chunk in the making.
    pub current: Seq<u8>,
}

/// The number of characters at which a chunk without a paragraph break is
/// split: the number of bytes up to and with the first line feed from byte
/// 2000 on, taken as a number of characters, and at most all of them.
pub open spec fn hard_split(current: Seq<u8>) -> int {
    let after_feed = next_line_feed(current, CHUNK_TARGET_CHARS as int) + 1;
    let chars = decode_utf8(current).len() as int;
    if after_feed > chars {
        chars
    } else {
        after_feed
    }
}

/// The scan after a line.
///
/// The line and a line feed go into the chunk in the making. Where that has
/// then reached 2000 bytes, it is split after the first paragraph break in
/// its second half; without one, and from 4000 bytes on, after the line that
/// ends at or after byte 2000.
pub open spec fn source_step(scan: SourceScan, line: Seq<u8>) -> SourceScan {
    let current = scan.current + line + seq![LINE_FEED];
    if current.len() < CHUNK_TARGET_CHARS {
        SourceScan { current, ..scan }
    } else {
        match paragraph_boundary(current) {
            Some(split) => SourceScan {
                chunks: scan.chunks.push(current.subrange(0, split)),
                current: current.subrange(split, current.len() as int),
            },
            None => if current.len() >= CHUNK_HARD_LIMIT {
                let chars = decode_utf8(current);
                let split = hard_split(current);
                SourceScan {
                    chunks: scan.chunks.push(encode_utf8(chars.subrange(0, split))),
                    current: encode_utf8(chars.subrange(split, chars.len() as int)),
                }
            } else {
                SourceScan { current, ..scan }
            },
        }
    }
}

/// The scan after the lines from the one that starts at `start` on.
pub open spec fn source_scan_from(bytes: Seq<u8>, start: int, scan: SourceScan) -> SourceScan
    decreases bytes.len() - start,
{
    let next = next_line_start(bytes, start);
    if 0 <= start < next <= bytes.len() {
        source_scan_from(
            bytes,
            next,
            source_step(scan, bytes.subrange(start, line_content_end(bytes, start))),
        )
    } else {
        scan
    }
}

/// The chunks of the content of a source. Content of up to 2000 characters
/// is one chunk. Longer content is cut line by line; what is left at the end
/// is a chunk unless it is blank.
pub open spec fn source_chunks(content: Seq<char>) -> Seq<Seq<u8>> {
    if content.len() <= CHUNK_TARGET_CHARS {
        seq![encode_utf8(content)]
    } else {
        let scan = source_scan_from(
            encode_utf8(content),
            0,
            SourceScan { chunks: Seq::empty(), current: Seq::empty() },
        );
        if is_blank_bytes(scan.current) {
            scan.chunks
        } else {
            scan.chunks.push(scan.current)
        }
    }
}

/// Puts a chunk, with its index, at the end of the chunks.
fn push_chunk(chunks: &mut Vec<(String, u32)>, content: String, Ghost(model): Ghost<Seq<Seq<u8>>>)
    requires
        are_indexed_chunks(old(chunks)@, model),
    ensures
        are_indexed_chunks(final(chunks)@, model.push(encode_utf8(content@))),
{
    let index: u32 = (chunks.len() as u64 % 0x1_0000_0000) as u32;
    chunks.push((content, index));
}

/// Cuts the content of a source into chunks for the vector store, each with
/// its index.
pub fn chunk_content(content: &str) -> (chunks: Vec<(String, u32)>)
    ensures
        are_indexed_chunks(chunks@, source_chunks(content@)),
{
    let mut chunks: Vec<(String, u32)> = Vec::new();
    if content.unicode_len() <= CHUNK_TARGET_CHARS {
        push_chunk(&mut chunks, content.to_owned(), Ghost(Seq::empty()));
        assert(Seq::<Seq<u8>>::empty().push(encode_utf8(content@)) =~= seq![encode_utf8(content@)]);
        return chunks;
    }
    let bytes = content.as_bytes();
    let ghost all = content.spec_bytes();
    let mut current = String::new();
    let mut line_start: usize = 0;
    let ghost start = SourceScan { chunks: Seq::empty(), current: Seq::empty() };
    let ghost mut scan = start;
    proof {
        encode_utf8_valid_utf8(content@);
        is_char_boundary_start_end_of_seq(all);
        assert(encode_utf8(current@) =~= Seq::<u8>::empty());
    }
    while line_start < bytes.len()
        invariant
            all == content.spec_bytes(),
            bytes@ == all,
            line_start <= all.len(),
            is_char_boundary(all, line_start as int),
            are_indexed_chunks(chunks@, scan.chunks),
            scan.current == encode_utf8(current@),
            source_scan_from(all, line_start as int, scan) == source_scan_from(all, 0, start),
        decreases all.len() - line_start,
    {
        let read = read_line(content, line_start);
        let line = slice(content, line_start, read.0);
        let ghost line_bytes = all.subrange(line_start as int, read.0 as int);
        let ghost before = scan;
        push_line(&mut current, line);
        let held: usize = current.as_str().as_bytes().len();
        if held >= CHUNK_TARGET_CHARS {
            match find_paragraph_boundary(current.as_str()) {
                Some(split) => {
                    proof {
                        encode_utf8_valid_utf8(current@);
                        is_char_boundary_start_end_of_seq(encode_utf8(current@));
                    }
                    let first = slice(current.as_str(), 0, split).to_owned();
                    let rest = slice(current.as_str(), split, held).to_owned();
                    push_chunk(&mut chunks, first, Ghost(before.chunks));
                    current = rest;
                },
                None => {
                    if held >= CHUNK_HARD_LIMIT {
                        let feed = find_line_feed(current.as_str().as_bytes(), CHUNK_TARGET_CHARS);
                        let count = current.as_str().unicode_len();
                        let split: usize = if feed >= count {
                            count
                        } else {
                            feed + 1
                        };
                        proof {
                            encode_utf8_decode_utf8(current@);
                        }
                        let first = current.as_str().substring_char(0, split).to_owned();
                        let rest = current.as_str().substring_char(split, count).to_owned();
                        push_chunk(&mut chunks, first, Ghost(before.chunks));
                        current = rest;
                    }
                },
            }
        }
        proof {
            scan = source_step(before, line_bytes);
        }
        line_start = read.1;
    }
    proof {
        encode_utf8_decode_utf8(current@);
    }
    if !is_blank_text(current.as_str()) {
        push_chunk(&mut chunks, current, Ghost(scan.chunks));
    }
    chunks
}

/// A block of a conversation log that tells of a tool.
#[derive(Debug, Clone)]
pub enum ToolBlock {
    /// What a tool gave back: the id of its use, and the text.
    Result { tool_use_id: String, text: String },
    /// The use of a tool: its name, its id (empty where the log has none) and
    /// what it was asked.
    Use { name: String, id: String, query: Option<String>, url: Option<String>, prompt: Option<String> },
}

/// A source as plain values.
pub struct SourceModel {
    pub url: Option<Seq<char>>,
    pub title: Option<Seq<char>>,
    pub query: Option<Seq<char>>,
    pub content: Seq<char>,
    pub source_type: Seq<char>,
}

impl View for WebSource {
    type V = SourceModel;

    open spec fn view(&self) -> SourceModel {
        SourceModel {
            url: text_of(self.url),
            title: text_of(self.title),
            query: text_of(self.query),
            content: self.content@,
            source_type: self.source_type@,
        }
    }
}

/// The text of a string that may be missing.
pub open spec fn text_of(text: Option<String>) -> Option<Seq<char>> {
    match text {
        Some(t) => Some(t@),
        None => None,
    }
}

/// The models of a list of sources, in order.
pub open spec fn source_models(sources: Seq<WebSource>) -> Seq<SourceModel> {
    Seq::new(sources.len(), |i: int| sources[i]@)
}

/// The text that the log holds for the use `id` of a tool: that of the last
/// result with the id, or the empty text.
pub open spec fn result_text(blocks: Seq<ToolBlock>, id: Seq<char>) -> Seq<char>
    decreases blocks.len(),
{
    if blocks.len() == 0 {
        Seq::empty()
    } else {
        match blocks.last() {
            ToolBlock::Result { tool_use_id, text } => if tool_use_id@ == id {
                text@
            } else {
                result_text(blocks.drop_last(), id)
            },
            ToolBlock::Use { .. } => result_text(blocks.drop_last(), id),
        }
    }
}

/// The block tells of a web search or a web fetch.
pub open spec fn is_web_call(block: ToolBlock) -> bool {
    match block {
        ToolBlock::Use { name, .. } => name@ == "WebSearch"@ || name@ == "WebFetch"@,
        ToolBlock::Result { .. } => false,
    }
}

/// The source that a web search or a web fetch brought, if the log holds a
/// text for it that is not empty. A search is known by its query, a fetch by
/// its URL and, as its title, by what it was asked.
pub open spec fn source_of(blocks: Seq<ToolBlock>, block: ToolBlock) -> Option<SourceModel> {
    match block {
        ToolBlock::Result { .. } => None,
        ToolBlock::Use { name, id, query, url, prompt } => {
            let text = result_text(blocks, id@);
            if text.len() == 0 {
                None
            } else if name@ == "WebSearch"@ {
                Some(
                    SourceModel {
                        url: None,
                        title: None,
                        query: text_of(query),
                        content: truncated_of(text),
                        source_type: "web_search"@,
                    },
                )
            } else if name@ == "WebFetch"@ {
                Some(
                    SourceModel {
                        url: text_of(url),
                        title: text_of(prompt),
                        query: None,
                        content: truncated_of(text),
                        source_type: "web_fetch"@,
                    },
                )
            } else {
                None
            }
        },
    }
}

/// The sources that the first `upto` blocks bring, in the order of the
/// blocks; the texts are looked up among all blocks.
pub open spec fn sources_upto(blocks: Seq<ToolBlock>, upto: int) -> Seq<SourceModel>
    decreases upto,
{
    if upto <= 0 || upto > blocks.len() {
        Seq::empty()
    } else {
        let before = sources_upto(blocks, upto - 1);
        match source_of(blocks, blocks[upto - 1]) {
            Some(source) => before.push(source),
            None => before,
        }
    }
}

/// How many of the first `upto` blocks tell of a web search or a web fetch.
pub open spec fn web_calls_upto(blocks: Seq<ToolBlock>, upto: int) -> nat
    decreases upto,
{
    if upto <= 0 || upto > blocks.len() {
        0
    } else {
        web_calls_upto(blocks, upto - 1) + if is_web_call(blocks[upto - 1]) {
            1nat
        } else {
            0nat
        }
    }
}

/// The text that the log holds for the use `id` of a tool.
fn find_result<'a>(blocks: &'a [ToolBlock], id: &str) -> (text: Option<&'a String>)
    ensures
        match text {
            Some(found) => found@ == result_text(blocks@, id@),
            None => result_text(blocks@, id@).len() == 0,
        },
{
    let mut at: usize = blocks.len();
    assert(blocks@.take(at as int) =~= blocks@);
    while at > 0
        invariant
            at <= blocks.len(),
            result_text(blocks@.take(at as int), id@) == result_text(blocks@, id@),
        decreases at,
    {
        proof {
            assert(blocks@.take(at as int).drop_last() =~= blocks@.take(at - 1));
            assert(blocks@.take(at as int).last() == blocks@[at - 1]);
        }
        match &blocks[at - 1] {
            ToolBlock::Result { tool_use_id, text } => {
                if str_eq(tool_use_id.as_str(), id) {
                    return Some(text);
                }
            },
            ToolBlock::Use { .. } => {},
        }
        at -= 1;
    }
    None
}

/// A copy of a string that may be missing.
fn copy_text(text: &Option<String>) -> (copy: Option<String>)
    ensures
        text_of(copy) == text_of(*text),
{
    match text {
        Some(t) => Some(t.clone()),
        None => None,
    }
}

/// The sources that the web searches and web fetches of a conversation log
/// brought, and how many such calls the log holds.
pub fn collect_sources(blocks: &[ToolBlock]) -> (mined: MineResult)
    ensures
        source_models(mined.sources@) == sources_upto(blocks@, blocks.len() as int),
        mined.tool_calls_found == web_calls_upto(blocks@, blocks.len() as int),
{
    let mut sources: Vec<WebSource> = Vec::new();
    let mut calls: usize = 0;
    let mut i: usize = 0;
    assert(source_models(sources@) =~= Seq::<SourceModel>::empty());
    while i < blocks.len()
        invariant
            i <= blocks.len(),
            source_models(sources@) == sources_upto(blocks@, i as int),
            calls == web_calls_upto(blocks@, i as int),
            calls <= i,
        decreases blocks.len() - i,
    {
        match &blocks[i] {
            ToolBlock::Result { .. } => {},
            ToolBlock::Use { name, id, query, url, prompt } => {
                let is_search = str_eq(name.as_str(), "WebSearch");
                let is_fetch = str_eq(name.as_str(), "WebFetch");
                if is_search || is_fetch {
                    calls += 1;
                    let text: Option<&String> = find_result(blocks, id.as_str());
                    match text {
                        Some(found) => {
                            if !found.as_str().is_empty() {
                                let source = if is_search {
                                    WebSource {
                                        url: None,
                                        title: None,
                                        query: copy_text(query),
                                        content: truncate_content(found.as_str()),
                                        source_type: "web_search".to_owned(),
                                    }
                                } else {
                                    WebSource {
                                        url: copy_text(url),
                                        title: copy_text(prompt),
                                        query: None,
                                        content: truncate_content(found.as_str()),
                                        source_type: "web_fetch".to_owned(),
                                    }
                                };
                                let ghost before = sources@;
                                sources.push(source);
                                assert(source_models(sources@) =~= source_models(before).push(source@));
                            }
                        },
                        None => {},
                    }
                }
            },
        }
        i += 1;
    }
    MineResult { sources, tool_calls_found: calls }
}

} // verus!
