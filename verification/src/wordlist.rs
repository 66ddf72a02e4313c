//! The wordlist partitioner with the fixed chunk size.

use vstd::prelude::*;
use vstd::string::*;
use crate::reader::at_most;
use crate::reader::lines_of;
use crate::reader::split_lines;

verus! {

/// The number of lines of a chunk, but for the last.
pub const CHUNK_SIZE: usize = 500;

/// Why a wordlist could not be opened.
#[derive(Clone, Copy, Debug, PartialEq, Eq, Structural)]
pub enum WordlistError {
    FileNotFound,
}

impl WordlistError {
    pub fn as_str(&self) -> (message: &'static str)
        ensures
            message@ == "Wordlist file not found"@,
    {
        match self {
            WordlistError::FileNotFound => "Wordlist file not found",
        }
    }
}

/// Where the wordlist is.
#[derive(Clone, Debug)]
pub struct WordlistArgs {
    pub path: String,
}

/// The lines of a wordlist behind a cursor, and the chunk that was loaded
/// last.
pub struct Wordlist {
    lines: Vec<String>,
    cursor: usize,
    chunk: Vec<String>,
    args: WordlistArgs,
}

impl Wordlist {
    #[verifier::type_invariant]
    spec fn well_formed(self) -> bool {
        self.cursor <= self.lines.len()
    }

    /// The lines that have not been loaded yet.
    pub closed spec fn remaining(&self) -> Seq<Seq<char>> {
        self.lines.deep_view().skip(self.cursor as int)
    }

    /// The chunk that was loaded last.
    pub closed spec fn loaded(&self) -> Seq<Seq<char>> {
        self.chunk.deep_view()
    }

    /// The wordlist over `content`, the text of the file at the path that
    /// `args` names, or `None` where there is no such file. Nothing is
    /// loaded yet.
    pub fn new(args: WordlistArgs, content: Option<&str>) -> (result: Result<Wordlist, WordlistError>)
        ensures
            content is None ==> result is Err,
            content is Some ==> (result matches Ok(wordlist) && wordlist.remaining() == lines_of(
                content->0@,
            ) && wordlist.loaded().len() == 0),
    {
        let text = match content {
            None => {
                return Err(WordlistError::FileNotFound);
            },
            Some(text) => text,
        };
        let lines = split_lines(text);
        let wordlist = Wordlist { lines, cursor: 0, chunk: Vec::new(), args };
        assert(wordlist.remaining() =~= lines_of(text@));
        assert(wordlist.loaded() =~= Seq::<Seq<char>>::empty());
        Ok(wordlist)
    }

    /// The chunk that was loaded last.
    pub fn chunk(&self) -> (chunk: &Vec<String>)
        ensures
            chunk.deep_view() == self.loaded(),
    {
        &self.chunk
    }

    /// Loads the next chunk in place of the last: the next
    /// [`CHUNK_SIZE`] lines, or what is left of them, which at the end of the
    /// wordlist is nothing.
    pub fn load_next_chunk(&mut self)
        ensures
            final(self).loaded() == old(self).remaining().take(
                at_most(CHUNK_SIZE as nat, old(self).remaining().len()) as int,
            ),
            final(self).remaining() == old(self).remaining().skip(
                at_most(CHUNK_SIZE as nat, old(self).remaining().len()) as int,
            ),
    {
        proof {
            use_type_invariant(&*self);
        }
        let ghost all = self.lines.deep_view();
        let start = self.cursor;
        let mut chunk: Vec<String> = Vec::new();
        let mut next = self.cursor;
        while chunk.len() < CHUNK_SIZE && next < self.lines.len()
            invariant
                start <= next <= self.lines.len(),
                self.lines == old(self).lines,
                self.cursor == old(self).cursor,
                start == self.cursor,
                all == self.lines.deep_view(),
                chunk.len() == next - start,
                chunk.len() <= CHUNK_SIZE,
                chunk.deep_view() == all.subrange(start as int, next as int),
            decreases self.lines.len() - next,
        {
            chunk.push(self.lines[next].clone());
            next = next + 1;
            assert(chunk.deep_view() =~= all.subrange(start as int, next as int));
        }
        assert(all.skip(start as int).take(chunk.len() as int) =~= all.subrange(
            start as int,
            next as int,
        ));
        assert(all.skip(start as int).skip(chunk.len() as int) =~= all.skip(next as int));
        self.chunk = chunk;
        self.cursor = next;
    }
}

} // verus!
