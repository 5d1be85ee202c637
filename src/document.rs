//! Documents of the retrieval pipeline, and how their text is cut into
//! overlapping chunks of words.
use vstd::prelude::*;
use crate::text::{decimal, join, join_range, lines_of, push_decimal, split_lines, trim_of, trimmed, views};

verus! {

/// A document read from a file.
#[derive(Clone, Debug)]
pub struct Document {
    pub id: String,
    pub path: String,
    pub content: String,
    pub metadata: DocumentMetadata,
}

/// What is known of a document besides its text.
#[derive(Clone, Debug)]
pub struct DocumentMetadata {
    pub title: Option<String>,
    pub file_type: String,
    pub size_bytes: usize,
    pub chunk_index: Option<usize>,
    pub total_chunks: Option<usize>,
    pub created_at: String,
}

/// Sizes of chunks, in words.
#[derive(Clone, Copy, Debug, PartialEq, Eq, Structural)]
pub struct ChunkingConfig {
    pub chunk_size: usize,
    pub chunk_overlap: usize,
    pub min_chunk_size: usize,
}

impl Default for ChunkingConfig {
    /// Chunks of 512 words overlapping by 50, none under 100.
    fn default() -> (r: Self)
        ensures
            r.chunk_size == 512,
            r.chunk_overlap == 50,
            r.min_chunk_size == 100,
    {
        ChunkingConfig { chunk_size: 512, chunk_overlap: 50, min_chunk_size: 100 }
    }
}

/// Settings of the retrieval pipeline.
#[derive(Clone, Debug)]
pub struct RagConfig {
    pub bucket_name: String,
    pub index_name: String,
    pub embedding_batch_size: usize,
    pub vector_upload_batch_size: usize,
    pub max_concurrent_embeddings: usize,
}

impl Default for RagConfig {
    /// The default bucket and index, embeddings in batches of 32, uploads
    /// in batches of 100, four embeddings at a time.
    fn default() -> (r: Self)
        ensures
            r.bucket_name@ == "rag-vectors-default"@,
            r.index_name@ == "documents-default"@,
            r.embedding_batch_size == 32,
            r.vector_upload_batch_size == 100,
            r.max_concurrent_embeddings == 4,
    {
        RagConfig {
            bucket_name: String::from_str("rag-vectors-default"),
            index_name: String::from_str("documents-default"),
            embedding_batch_size: 32,
            vector_upload_batch_size: 100,
            max_concurrent_embeddings: 4,
        }
    }
}

/// What `str::split_whitespace` yields for a text: its words in order.
pub uninterp spec fn words_of(s: Seq<char>) -> Seq<Seq<char>>;

/// Relies on `str::split_whitespace`: the words depend on the text alone.
#[verifier::external_body]
fn split_words(text: &str) -> (r: Vec<String>)
    ensures
        views(r@) == words_of(text@),
{
    text.split_whitespace().map(|w| w.to_string()).collect()
}

/// The chunk of the words at `start`: up to `chunk_size` words joined by
/// single spaces.
pub open spec fn chunk_at(words: Seq<Seq<char>>, start: nat, cfg: ChunkingConfig) -> Seq<char> {
    let end = if start + cfg.chunk_size <= words.len() {
        start + cfg.chunk_size
    } else {
        words.len() as int
    };
    join(words.subrange(start as int, end), " "@)
}

/// The chunks from word `start` on: a chunk starts every
/// `chunk_size - chunk_overlap` words; chunks of fewer than
/// `min_chunk_size` words are left out; no chunk starts where fewer than
/// `min_chunk_size` words would remain.
pub open spec fn chunks_from(words: Seq<Seq<char>>, start: nat, cfg: ChunkingConfig) -> Seq<Seq<char>>
    decreases words.len() - start,
    when cfg.chunk_overlap < cfg.chunk_size
{
    if start >= words.len() {
        Seq::empty()
    } else {
        let c = chunk_at(words, start, cfg);
        let here = if words_of(c).len() >= cfg.min_chunk_size {
            seq![c]
        } else {
            Seq::empty()
        };
        let next = (start + cfg.chunk_size - cfg.chunk_overlap) as nat;
        if next + cfg.min_chunk_size > words.len() {
            here
        } else {
            here + chunks_from(words, next, cfg)
        }
    }
}

/// The chunks of a text: the text itself where it has at most
/// `chunk_size` words, else the chunks from its first word.
pub open spec fn text_chunks(text: Seq<char>, cfg: ChunkingConfig) -> Seq<Seq<char>> {
    if words_of(text).len() <= cfg.chunk_size {
        seq![text]
    } else {
        chunks_from(words_of(text), 0, cfg)
    }
}

/// Turns documents into chunks, numbering the documents it reads.
pub struct DocumentProcessor {
    config: ChunkingConfig,
    processed_count: usize,
}

impl DocumentProcessor {
    pub fn new(config: ChunkingConfig) -> (r: Self)
        ensures
            r.config() == config,
            r.processed_count() == 0,
    {
        DocumentProcessor { config, processed_count: 0 }
    }

    pub fn with_default_config() -> (r: Self)
        ensures
            r.config().chunk_size == 512,
            r.config().chunk_overlap == 50,
            r.config().min_chunk_size == 100,
            r.processed_count() == 0,
    {
        Self::new(ChunkingConfig::default())
    }

    pub closed spec fn config(&self) -> ChunkingConfig {
        self.config
    }

    pub closed spec fn processed_count(&self) -> nat {
        self.processed_count as nat
    }

    /// The chunking sizes in use.
    pub fn chunking(&self) -> (r: ChunkingConfig)
        ensures
            r == self.config(),
    {
        self.config
    }

    /// The id of the next document read, `doc-<n>` for the n-th from zero.
    pub fn next_document_id(&mut self) -> (r: String)
        requires
            old(self).processed_count() < usize::MAX,
        ensures
            r@ == "doc-"@ + decimal(old(self).processed_count()),
            final(self).processed_count() == old(self).processed_count() + 1,
            final(self).config() == old(self).config(),
    {
        let mut r = String::from_str("doc-");
        push_decimal(&mut r, self.processed_count as u64);
        self.processed_count = self.processed_count + 1;
        r
    }

    /// Cuts a text into overlapping chunks of words.
    pub fn split_text_into_chunks(&self, text: &str) -> (r: Vec<String>)
        requires
            self.config().chunk_overlap < self.config().chunk_size,
        ensures
            views(r@) == text_chunks(text@, self.config()),
    {
        let cfg = self.config;
        let words = split_words(text);
        let n = words.len();
        if n <= cfg.chunk_size {
            let mut r: Vec<String> = Vec::new();
            r.push(text.to_string());
            assert(views(r@) =~= seq![text@]);
            return r;
        }
        let step = cfg.chunk_size - cfg.chunk_overlap;
        let ghost ws = views(words@);
        let mut chunks: Vec<String> = Vec::new();
        let mut start: usize = 0;
        let mut done = false;
        while !done && start < n
            invariant
                n == words@.len(),
                ws == views(words@),
                ws == words_of(text@),
                step == cfg.chunk_size - cfg.chunk_overlap,
                cfg == self.config(),
                cfg.chunk_overlap < cfg.chunk_size,
                done ==> views(chunks@) == chunks_from(ws, 0, cfg),
                !done ==> views(chunks@) + chunks_from(ws, start as nat, cfg) == chunks_from(
                    ws,
                    0,
                    cfg,
                ),
            decreases n - start + (if done { 0int } else { 1int }),
        {
            let end = if n - start >= cfg.chunk_size {
                start + cfg.chunk_size
            } else {
                n
            };
            let chunk = join_range(&words, start, end, " ");
            assert(chunk@ == chunk_at(ws, start as nat, cfg));
            let count = split_words(chunk.as_str()).len();
            let ghost before = views(chunks@);
            let ghost here = if count >= cfg.min_chunk_size {
                seq![chunk@]
            } else {
                Seq::empty()
            };
            if count >= cfg.min_chunk_size {
                chunks.push(chunk);
            }
            assert(views(chunks@) =~= before + here);
            if n - start <= step || cfg.min_chunk_size > n - start - step {
                done = true;
                proof {
                    let next = (start + step) as nat;
                    assert(words_of(chunk_at(ws, start as nat, cfg)).len() == count);
                    if next + cfg.min_chunk_size <= n {
                        assert(chunks_from(ws, next, cfg) =~= Seq::<Seq<char>>::empty());
                        assert(here + Seq::<Seq<char>>::empty() =~= here);
                    }
                    assert(chunks_from(ws, start as nat, cfg) == here);
                }
                assert(views(chunks@) =~= before + chunks_from(ws, start as nat, cfg));
            } else {
                assert(words_of(chunk_at(ws, start as nat, cfg)).len() == count);
                assert(chunks_from(ws, start as nat, cfg) == here + chunks_from(
                    ws,
                    (start + step) as nat,
                    cfg,
                ));
                assert(views(chunks@) + chunks_from(ws, (start + step) as nat, cfg) =~= before
                    + chunks_from(ws, start as nat, cfg));
                start = start + step;
            }
        }
        if !done {
            assert(chunks_from(ws, start as nat, cfg) == Seq::<Seq<char>>::empty());
            assert(views(chunks@) =~= views(chunks@) + Seq::<Seq<char>>::empty());
        }
        chunks
    }
}

/// What collapsing every run of white space to one space yields for a text
/// (the pattern `\s+`).
pub uninterp spec fn collapse_whitespace_of(s: Seq<char>) -> Seq<char>;

/// What replacing every character outside word characters, white space and
/// `.,!?-'"` by a space yields for a text.
pub uninterp spec fn strip_special_of(s: Seq<char>) -> Seq<char>;

/// Relies on `regex::Regex::replace_all` with the pattern `\s+` and a space
/// (the constant pattern always compiles).
#[verifier::external_body]
fn collapse_whitespace(text: &str) -> (r: String)
    ensures
        r@ == collapse_whitespace_of(text@),
{
    match regex::Regex::new(r"\s+") {
        Ok(re) => re.replace_all(text, " ").into_owned(),
        Err(_) => text.to_string(),
    }
}

/// Relies on `regex::Regex::replace_all` with the pattern
/// `[^\w\s\.\,\!\?\-\'\"]` and a space (the constant pattern always
/// compiles).
#[verifier::external_body]
fn strip_special(text: &str) -> (r: String)
    ensures
        r@ == strip_special_of(text@),
{
    match regex::Regex::new(r#"[^\w\s\.\,\!\?\-\'\"]"#) {
        Ok(re) => re.replace_all(text, " ").into_owned(),
        Err(_) => text.to_string(),
    }
}

/// Normalises text for embedding: white space collapsed, special
/// characters replaced by spaces, ends trimmed.
pub fn clean_text(text: &str) -> (r: String)
    ensures
        r@ == trim_of(strip_special_of(collapse_whitespace_of(text@))),
{
    let collapsed = collapse_whitespace(text);
    let stripped = strip_special(collapsed.as_str());
    trimmed(stripped.as_str()).to_string()
}

/// What the pattern `^#\s+(.+)$` captures in its group for a line: the
/// text of a markdown heading of level one.
pub uninterp spec fn heading_of(line: Seq<char>) -> Option<Seq<char>>;

/// Relies on `regex::Regex::captures` with the pattern `^#\s+(.+)$` (the
/// constant pattern always compiles).
#[verifier::external_body]
fn heading(line: &str) -> (r: Option<String>)
    ensures
        crate::auth::opt_text(r) == heading_of(line@),
{
    match regex::Regex::new(r"^#\s+(.+)$") {
        Ok(re) => re.captures(line).and_then(|c| c.get(1)).map(|m| m.as_str().to_string()),
        Err(_) => None,
    }
}

/// The first heading among the lines.
pub open spec fn first_heading(lines: Seq<Seq<char>>) -> Option<Seq<char>>
    decreases lines.len(),
{
    if lines.len() == 0 {
        None
    } else if heading_of(lines[0]) is Some {
        heading_of(lines[0])
    } else {
        first_heading(lines.drop_first())
    }
}

/// The first line that is not blank, trimmed.
pub open spec fn first_nonblank(lines: Seq<Seq<char>>) -> Option<Seq<char>>
    decreases lines.len(),
{
    if lines.len() == 0 {
        None
    } else if trim_of(lines[0]).len() > 0 {
        Some(trim_of(lines[0]))
    } else {
        first_nonblank(lines.drop_first())
    }
}

/// The title of a text: its first level-one markdown heading, else its
/// first non-blank line, trimmed.
pub fn extract_title(content: &str) -> (r: Option<String>)
    ensures
        crate::auth::opt_text(r) == if first_heading(lines_of(content@)) is Some {
            first_heading(lines_of(content@))
        } else {
            first_nonblank(lines_of(content@))
        },
{
    let lines = split_lines(content);
    let ghost ls = views(lines@);
    let mut i: usize = 0;
    assert(ls.skip(0) =~= ls);
    while i < lines.len()
        invariant
            i <= lines.len(),
            ls == views(lines@),
            ls == lines_of(content@),
            first_heading(ls) == first_heading(ls.skip(i as int)),
        decreases lines.len() - i,
    {
        assert(ls.skip(i as int)[0] == lines@[i as int]@);
        assert(ls.skip(i as int).drop_first() =~= ls.skip(i + 1));
        match heading(lines[i].as_str()) {
            Some(h) => {
                return Some(h);
            },
            None => {},
        }
        i = i + 1;
    }
    assert(ls.skip(i as int).len() == 0);
    let mut k: usize = 0;
    while k < lines.len()
        invariant
            k <= lines.len(),
            ls == views(lines@),
            ls == lines_of(content@),
            first_heading(ls) is None,
            first_nonblank(ls) == first_nonblank(ls.skip(k as int)),
        decreases lines.len() - k,
    {
        assert(ls.skip(k as int)[0] == lines@[k as int]@);
        assert(ls.skip(k as int).drop_first() =~= ls.skip(k + 1));
        let t = trimmed(lines[k].as_str());
        if t.unicode_len() > 0 {
            return Some(t.to_string());
        }
        k = k + 1;
    }
    None
}

} // verus!
