//! The wordlist partitioner: the lines of a wordlist, handed out in disjoint
//! chunks.
//!
//! A wordlist is text with one payload per line. Lines end with a line feed;
//! the last line may do without one, and an empty line is a payload like any
//! other. A [`Reader`] owns the lines and a cursor. Each call of
//! [`Reader::get_next_chunk`] takes the next lines off the front, so that the
//! chunks, in the order in which they were taken, make up the wordlist once,
//! line for line.

use vstd::prelude::*;
use vstd::string::*;
use crate::text::push_char;

verus! {

/// The lines of `current + rest`, where `current` is the beginning of a line
/// that holds no line feed.
pub open spec fn lines_from(current: Seq<char>, rest: Seq<char>) -> Seq<Seq<char>>
    decreases rest.len(),
{
    if rest.len() == 0 {
        if current.len() == 0 {
            Seq::empty()
        } else {
            seq![current]
        }
    } else if rest[0] == '\n' {
        seq![current] + lines_from(Seq::empty(), rest.skip(1))
    } else {
        lines_from(current.push(rest[0]), rest.skip(1))
    }
}

/// The lines of a wordlist: the text between its line feeds. Text after the
/// last line feed is a line if there is any.
pub open spec fn lines_of(content: Seq<char>) -> Seq<Seq<char>> {
    lines_from(Seq::empty(), content)
}

/// The smaller of two numbers.
pub open spec fn at_most(a: nat, b: nat) -> nat {
    if a < b {
        a
    } else {
        b
    }
}

/// The chunk size for a wordlist of `line_count` lines shared among
/// `threads` workers: an equal share, and at least one line.
pub open spec fn chunk_size_for(line_count: nat, threads: nat) -> nat {
    if threads == 0 || line_count / threads < 1 {
        1
    } else {
        line_count / threads
    }
}

/// The chunks into which `lines` fall when they are taken off the front
/// `size` at a time.
pub open spec fn chunks_of(lines: Seq<Seq<char>>, size: nat) -> Seq<Seq<Seq<char>>>
    decreases lines.len(),
{
    if lines.len() == 0 || size == 0 {
        Seq::empty()
    } else {
        let n = at_most(size, lines.len());
        seq![lines.take(n as int)] + chunks_of(lines.skip(n as int), size)
    }
}

/// The lines of `content`.
pub fn split_lines(content: &str) -> (lines: Vec<String>)
    ensures
        lines.deep_view() == lines_of(content@),
{
    let mut lines: Vec<String> = Vec::new();
    let mut current = String::new();
    assert(content@.skip(0) =~= content@);
    assert(lines.deep_view() + lines_of(content@) =~= lines_of(content@));
    for c in it: content.chars()
        invariant
            it.seq() == content@,
            lines.deep_view() + lines_from(current@, content@.skip(it.index() as int)) == lines_of(
                content@,
            ),
    {
        let ghost rest = content@.skip(it.index() as int);
        let ghost before = lines.deep_view();
        assert(rest[0] == c);
        assert(rest.skip(1) =~= content@.skip(it.index() + 1));
        if c == '\n' {
            lines.push(current);
            current = String::new();
            assert(lines.deep_view() =~= before + seq![lines@.last()@]);
        } else {
            push_char(&mut current, c);
        }
    }
    assert(content@.skip(content@.len() as int).len() == 0);
    if !current.as_str().is_empty() {
        let ghost before = lines.deep_view();
        lines.push(current);
        assert(lines.deep_view() =~= before + seq![lines@.last()@]);
    }
    assert(lines.deep_view() =~= lines_of(content@));
    lines
}

/// Why a reader could not be built.
#[derive(Clone, Copy, Debug, PartialEq, Eq, Structural)]
pub enum ReaderBuilderError {
    FileNotSpecified,
    FileNotFound,
}

impl ReaderBuilderError {
    pub fn as_str(&self) -> (message: &'static str)
        ensures
            *self == ReaderBuilderError::FileNotSpecified ==> message@
                == "No wordlist file is specified"@,
            *self == ReaderBuilderError::FileNotFound ==> message@ == "Specified file not found"@,
    {
        match self {
            ReaderBuilderError::FileNotSpecified => "No wordlist file is specified",
            ReaderBuilderError::FileNotFound => "Specified file not found",
        }
    }
}

/// Why a reader handed out no chunk.
#[derive(Clone, Copy, Debug, PartialEq, Eq, Structural)]
pub enum ReaderError {
    EmptyChunk,
}

impl ReaderError {
    pub fn as_str(&self) -> (message: &'static str)
        ensures
            message@ == "Empty chunk"@,
    {
        match self {
            ReaderError::EmptyChunk => "Empty chunk",
        }
    }
}

/// What a reader is made from: where the wordlist is, and how many workers
/// will share it.
#[derive(Clone, Debug)]
pub struct ReaderArgs {
    pub path: String,
    pub threads: u8,
}

/// The lines of a wordlist behind a cursor that only moves forward.
pub struct Reader {
    lines: Vec<String>,
    cursor: usize,
    chunk_size: usize,
    line_count: usize,
}

impl Reader {
    #[verifier::type_invariant]
    spec fn well_formed(self) -> bool {
        &&& self.cursor <= self.lines.len()
        &&& self.chunk_size >= 1
        &&& self.line_count == self.lines.len()
    }

    /// The lines that have not been handed out yet, in wordlist order.
    pub closed spec fn remaining(&self) -> Seq<Seq<char>> {
        self.lines.deep_view().skip(self.cursor as int)
    }

    /// The largest number of lines that a chunk holds.
    pub closed spec fn chunk_size_spec(&self) -> usize {
        self.chunk_size
    }

    /// The number of lines of the whole wordlist.
    pub closed spec fn line_count_spec(&self) -> usize {
        self.line_count
    }

    /// The reader has handed out its last line.
    pub open spec fn exhausted(&self) -> bool {
        self.remaining().len() == 0
    }

    #[verifier::when_used_as_spec(chunk_size_spec)]
    pub fn chunk_size(&self) -> (size: usize)
        ensures
            size == self.chunk_size_spec(),
            size >= 1,
    {
        proof {
            use_type_invariant(self);
        }
        self.chunk_size
    }

    #[verifier::when_used_as_spec(line_count_spec)]
    pub fn line_count(&self) -> (count: usize)
        ensures
            count == self.line_count_spec(),
    {
        self.line_count
    }

    /// Takes the next chunk off the wordlist: the next `chunk_size` lines, or
    /// what is left of them. An exhausted reader returns `EmptyChunk`, and
    /// stays exhausted.
    pub fn get_next_chunk(&mut self) -> (result: Result<Vec<String>, ReaderError>)
        ensures
            final(self).chunk_size_spec() == old(self).chunk_size_spec(),
            final(self).line_count_spec() == old(self).line_count_spec(),
            old(self).exhausted() ==> result == Err::<Vec<String>, ReaderError>(
                ReaderError::EmptyChunk,
            ) && final(self).exhausted(),
            !old(self).exhausted() ==> {
                let n = at_most(old(self).chunk_size_spec() as nat, old(self).remaining().len());
                &&& result matches Ok(chunk)
                &&& chunk.deep_view() == old(self).remaining().take(n as int)
                &&& final(self).remaining() == old(self).remaining().skip(n as int)
            },
    {
        proof {
            use_type_invariant(&*self);
        }
        let mut chunk: Vec<String> = Vec::new();
        let start = self.cursor;
        let ghost all = self.lines.deep_view();
        while chunk.len() < self.chunk_size && self.cursor < self.lines.len()
            invariant
                start <= self.cursor <= self.lines.len(),
                self.chunk_size >= 1,
                self.chunk_size == old(self).chunk_size,
                self.line_count == old(self).line_count,
                self.line_count == self.lines.len(),
                self.lines == old(self).lines,
                all == self.lines.deep_view(),
                chunk.len() == self.cursor - start,
                chunk.len() <= self.chunk_size,
                chunk.deep_view() == all.subrange(start as int, self.cursor as int),
            decreases self.lines.len() - self.cursor,
        {
            let line = self.lines[self.cursor].clone();
            chunk.push(line);
            self.cursor = self.cursor + 1;
            assert(chunk.deep_view() =~= all.subrange(start as int, self.cursor as int));
        }
        if chunk.len() == 0 {
            Err(ReaderError::EmptyChunk)
        } else {
            assert(all.skip(start as int).take(chunk.len() as int) =~= all.subrange(
                start as int,
                self.cursor as int,
            ));
            assert(all.skip(start as int).skip(chunk.len() as int) =~= all.skip(self.cursor as int));
            Ok(chunk)
        }
    }

    /// Takes every chunk that is left, in order.
    pub fn drain(&mut self) -> (chunks: Vec<Vec<String>>)
        ensures
            chunks.deep_view() == chunks_of(old(self).remaining(), old(self).chunk_size_spec() as nat),
            final(self).exhausted(),
            final(self).chunk_size_spec() == old(self).chunk_size_spec(),
            final(self).line_count_spec() == old(self).line_count_spec(),
    {
        proof {
            use_type_invariant(&*self);
        }
        let mut chunks: Vec<Vec<String>> = Vec::new();
        let ghost size = self.chunk_size as nat;
        loop
            invariant
                size >= 1,
                size == self.chunk_size_spec(),
                self.chunk_size_spec() == old(self).chunk_size_spec(),
                self.line_count_spec() == old(self).line_count_spec(),
                chunks.deep_view() + chunks_of(self.remaining(), size) == chunks_of(
                    old(self).remaining(),
                    size,
                ),
            ensures
                self.exhausted(),
                self.chunk_size_spec() == old(self).chunk_size_spec(),
                self.line_count_spec() == old(self).line_count_spec(),
                chunks.deep_view() == chunks_of(old(self).remaining(), size),
            decreases self.remaining().len(),
        {
            let ghost before = chunks.deep_view();
            let ghost left = self.remaining();
            match self.get_next_chunk() {
                Ok(chunk) => {
                    chunks.push(chunk);
                    assert(chunks.deep_view() =~= before + seq![chunks@.last().deep_view()]);
                },
                Err(_) => {
                    assert(chunks_of(left, size) =~= Seq::<Seq<Seq<char>>>::empty());
                    break ;
                },
            }
        }
        chunks
    }
}

/// Collects what a reader is made from.
#[derive(Clone, Debug)]
pub struct ReaderBuilder {
    pub path: Option<String>,
    pub threads: u8,
}

impl ReaderBuilder {
    /// A builder without a wordlist, for forty workers.
    pub fn new() -> (builder: ReaderBuilder)
        ensures
            builder.path is None,
            builder.threads == 40,
    {
        ReaderBuilder { path: None, threads: 40 }
    }

    pub fn with_path(self, path: String) -> (builder: ReaderBuilder)
        ensures
            builder.path == Some(path),
            builder.threads == self.threads,
    {
        ReaderBuilder { path: Some(path), threads: self.threads }
    }

    pub fn with_threads(self, threads: u8) -> (builder: ReaderBuilder)
        ensures
            builder.path == self.path,
            builder.threads == threads,
    {
        ReaderBuilder { path: self.path, threads }
    }

    /// Builds the reader over `content`, the text of the file at the
    /// builder's path, or `None` where that file could not be opened.
    ///
    /// The reader starts at the first line. Its chunk size is the number of
    /// lines divided by the number of workers, and at least one.
    pub fn build(&self, content: Option<&str>) -> (result: Result<Reader, ReaderBuilderError>)
        requires
            self.threads >= 1,
        ensures
            self.path is None ==> (result matches Err(e) && e
                == ReaderBuilderError::FileNotSpecified),
            self.path is Some && content is None ==> (result matches Err(e) && e
                == ReaderBuilderError::FileNotFound),
            self.path is Some && content is Some ==> {
                let lines = lines_of(content->0@);
                &&& result matches Ok(reader)
                &&& reader.remaining() == lines
                &&& reader.line_count_spec() == lines.len()
                &&& reader.chunk_size_spec() == chunk_size_for(lines.len(), self.threads as nat)
            },
    {
        if self.path.is_none() {
            return Err(ReaderBuilderError::FileNotSpecified);
        }
        let text = match content {
            None => {
                return Err(ReaderBuilderError::FileNotFound);
            },
            Some(text) => text,
        };
        let lines = split_lines(text);
        let line_count = lines.len();
        let share = line_count / (self.threads as usize);
        let chunk_size: usize = if share < 1 {
            1
        } else {
            share
        };
        let reader = Reader { lines, cursor: 0, chunk_size, line_count };
        assert(reader.remaining() =~= lines_of(text@));
        Ok(reader)
    }
}

impl Default for ReaderBuilder {
    fn default() -> (builder: ReaderBuilder)
        ensures
            builder.path is None,
            builder.threads == 40,
    {
        ReaderBuilder::new()
    }
}

/// Every chunk holds at least one line and at most `size`.
pub open spec fn chunks_bounded(chunks: Seq<Seq<Seq<char>>>, size: nat) -> bool {
    forall|k: int| 0 <= k < chunks.len() ==> 1 <= (#[trigger] chunks[k]).len() <= size
}

/// Partition completeness: whatever the chunk size, the chunks taken off a
/// wordlist, put end to end in the order in which they were taken, are the
/// lines of the wordlist: each line once, none missing, in the order of the
/// wordlist. No chunk is empty and none exceeds the chunk size.
pub proof fn lemma_chunks_partition_lines(lines: Seq<Seq<char>>, size: nat)
    requires
        size >= 1,
    ensures
        chunks_of(lines, size).flatten() == lines,
        chunks_bounded(chunks_of(lines, size), size),
    decreases lines.len(),
{
    if lines.len() == 0 {
        assert(chunks_of(lines, size).flatten() =~= lines);
    } else {
        let n = at_most(size, lines.len());
        let head = lines.take(n as int);
        let tail = chunks_of(lines.skip(n as int), size);
        lemma_chunks_partition_lines(lines.skip(n as int), size);
        let all = chunks_of(lines, size);
        assert(all == seq![head] + tail);
        assert(all.first() == head);
        assert(all.drop_first() =~= tail);
        assert(all.flatten() =~= head + tail.flatten());
        assert(head + lines.skip(n as int) =~= lines);
        assert forall|k: int| 0 <= k < all.len() implies 1 <= (#[trigger] all[k]).len() <= size by {
            if k > 0 {
                assert(all[k] == tail[k - 1]);
            }
        }
    }
}

/// Partition completeness for a wordlist shared among any number of workers:
/// the chunks that a freshly built reader hands out are the lines of the
/// wordlist, each once and in order.
pub proof fn lemma_wordlist_is_partitioned(content: Seq<char>, threads: nat)
    ensures
        chunks_of(lines_of(content), chunk_size_for(lines_of(content).len(), threads)).flatten()
            == lines_of(content),
{
    lemma_chunks_partition_lines(lines_of(content), chunk_size_for(lines_of(content).len(), threads));
}

/// The number of lines in all of `chunks`.
pub open spec fn line_total(chunks: Seq<Seq<Seq<char>>>) -> nat
    decreases chunks.len(),
{
    if chunks.len() == 0 {
        0
    } else {
        chunks[0].len() + line_total(chunks.skip(1))
    }
}

/// The chunks of a wordlist hold as many lines as the wordlist: a counter
/// that moves by the length of every chunk taken ends at the number of
/// lines.
pub proof fn lemma_chunks_hold_every_line(lines: Seq<Seq<char>>, size: nat)
    requires
        size >= 1,
    ensures
        line_total(chunks_of(lines, size)) == lines.len(),
    decreases lines.len(),
{
    if lines.len() > 0 {
        let n = at_most(size, lines.len());
        let all = chunks_of(lines, size);
        lemma_chunks_hold_every_line(lines.skip(n as int), size);
        assert(all[0] == lines.take(n as int));
        assert(all.skip(1) =~= chunks_of(lines.skip(n as int), size));
    }
}

/// `lines`, each followed by a line feed, put end to end.
pub open spec fn joined(lines: Seq<Seq<char>>) -> Seq<char>
    decreases lines.len(),
{
    if lines.len() == 0 {
        Seq::empty()
    } else {
        lines[0].push('\n') + joined(lines.skip(1))
    }
}

/// `content` with a line feed after its last line, if it lacks one.
pub open spec fn terminated(content: Seq<char>) -> Seq<char> {
    if content.len() == 0 || content.last() == '\n' {
        content
    } else {
        content.push('\n')
    }
}

/// No line feed stands in `text`.
pub open spec fn is_single_line(text: Seq<char>) -> bool {
    forall|i: int| 0 <= i < text.len() ==> text[i] != '\n'
}

proof fn lemma_lines_from(current: Seq<char>, rest: Seq<char>)
    requires
        is_single_line(current),
    ensures
        joined(lines_from(current, rest)) == terminated(current + rest),
        forall|k: int|
            0 <= k < lines_from(current, rest).len() ==> is_single_line(
                #[trigger] lines_from(current, rest)[k],
            ),
    decreases rest.len(),
{
    let lines = lines_from(current, rest);
    if rest.len() == 0 {
        assert(current + rest =~= current);
        if current.len() > 0 {
            assert(lines[0] == current);
            assert(lines.skip(1) =~= Seq::<Seq<char>>::empty());
            assert(joined(lines.skip(1)) =~= Seq::<char>::empty());
            assert(joined(lines) =~= current.push('\n'));
        }
    } else if rest[0] == '\n' {
        let tail = lines_from(Seq::empty(), rest.skip(1));
        lemma_lines_from(Seq::empty(), rest.skip(1));
        assert(lines[0] == current);
        assert(lines.skip(1) =~= tail);
        assert(Seq::<char>::empty() + rest.skip(1) =~= rest.skip(1));
        assert(current + rest =~= current.push('\n') + rest.skip(1));
        assert(joined(lines) =~= terminated(current + rest));
        assert forall|k: int| 0 <= k < lines.len() implies is_single_line(#[trigger] lines[k]) by {
            if k > 0 {
                assert(lines[k] == tail[k - 1]);
            }
        }
    } else {
        lemma_lines_from(current.push(rest[0]), rest.skip(1));
        assert(current.push(rest[0]) + rest.skip(1) =~= current + rest);
    }
}

/// The lines of a wordlist are its text and nothing else: put end to end,
/// each with its line feed, they give the wordlist back, with a line feed
/// after the last line if the wordlist had none there. No line holds a line
/// feed.
pub proof fn lemma_lines_make_up_content(content: Seq<char>)
    ensures
        joined(lines_of(content)) == terminated(content),
        forall|k: int|
            0 <= k < lines_of(content).len() ==> is_single_line(#[trigger] lines_of(content)[k]),
{
    lemma_lines_from(Seq::empty(), content);
    assert(Seq::<char>::empty() + content =~= content);
}

} // verus!
