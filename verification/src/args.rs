//! The settings of a run, as the command line gives them and as the parts of
//! the engine take them.

use vstd::prelude::*;
use vstd::string::*;
use crate::display::DisplayArgs;
use crate::display::DisplayArgsView;
use crate::ranges::expand_ranges;
use crate::ranges::expanded;
use crate::ranges::numbers_of;
use crate::ranges::RangeOrValue;
use crate::reader::ReaderArgs;
use crate::sender::SenderArgs;
use crate::sender::SenderArgsView;
use crate::text::clone_words;
use crate::wordlist::WordlistArgs;

verus! {

/// The settings as they come from the command line: lists of status codes
/// and content sizes are still lists of numbers and ranges.
#[derive(Clone, Debug)]
pub struct ArgsSchema {
    /// The URL template. Its placeholder `{}` is replaced by the payloads.
    pub url: String,
    /// Path of the wordlist.
    pub wordlist: String,
    /// Number of workers.
    pub threads: u8,
    /// Request timeout in milliseconds.
    pub timeout: u64,
    pub user_agent: String,
    /// Status codes that are left out of the report.
    pub filtered_code: Vec<RangeOrValue<u16>>,
    /// Words that leave a response out of the report.
    pub filtered_word: Vec<String>,
    /// Content sizes that are left out of the report.
    pub filtered_size: Vec<RangeOrValue<u64>>,
    /// Status codes that alone are reported.
    pub matched_code: Vec<RangeOrValue<u16>>,
    /// Words of which a reported response holds one.
    pub matched_word: Vec<String>,
    /// Content sizes that alone are reported.
    pub matched_size: Vec<RangeOrValue<u64>>,
    pub follow_redirect: bool,
    /// The HTTP method.
    pub method: String,
}

/// The settings of a run.
#[derive(Debug)]
pub struct FuzzerArgs {
    pub url: String,
    pub wordlist: String,
    pub threads: u8,
    pub timeout: u64,
    pub user_agent: String,
    pub filtered_code: Vec<u16>,
    pub filtered_size: Vec<u64>,
    pub filtered_word: Vec<String>,
    pub matched_code: Vec<u16>,
    pub matched_size: Vec<u64>,
    pub matched_word: Vec<String>,
    pub follow_redirect: bool,
    pub method: String,
}

/// The mathematical content of [`FuzzerArgs`].
pub struct FuzzerArgsView {
    pub url: Seq<char>,
    pub wordlist: Seq<char>,
    pub threads: u8,
    pub timeout: u64,
    pub user_agent: Seq<char>,
    pub filtered_code: Seq<u16>,
    pub filtered_size: Seq<u64>,
    pub filtered_word: Seq<Seq<char>>,
    pub matched_code: Seq<u16>,
    pub matched_size: Seq<u64>,
    pub matched_word: Seq<Seq<char>>,
    pub follow_redirect: bool,
    pub method: Seq<char>,
}

impl View for FuzzerArgs {
    type V = FuzzerArgsView;

    open spec fn view(&self) -> FuzzerArgsView {
        FuzzerArgsView {
            url: self.url@,
            wordlist: self.wordlist@,
            threads: self.threads,
            timeout: self.timeout,
            user_agent: self.user_agent@,
            filtered_code: self.filtered_code@,
            filtered_size: self.filtered_size@,
            filtered_word: self.filtered_word.deep_view(),
            matched_code: self.matched_code@,
            matched_size: self.matched_size@,
            matched_word: self.matched_word.deep_view(),
            follow_redirect: self.follow_redirect,
            method: self.method@,
        }
    }
}

impl Clone for FuzzerArgs {
    fn clone(&self) -> (copy: FuzzerArgs)
        ensures
            copy@ == self@,
    {
        FuzzerArgs {
            url: self.url.clone(),
            wordlist: self.wordlist.clone(),
            threads: self.threads,
            timeout: self.timeout,
            user_agent: self.user_agent.clone(),
            filtered_code: self.filtered_code.clone(),
            filtered_size: self.filtered_size.clone(),
            filtered_word: clone_words(&self.filtered_word),
            matched_code: self.matched_code.clone(),
            matched_size: self.matched_size.clone(),
            matched_word: clone_words(&self.matched_word),
            follow_redirect: self.follow_redirect,
            method: self.method.clone(),
        }
    }
}

impl FuzzerArgs {
    /// The settings of a run from those of the command line: every list of
    /// numbers and ranges is written out as the list of its numbers, and
    /// everything else is taken as it is.
    pub fn from(args: ArgsSchema) -> (out: FuzzerArgs)
        ensures
            out.url@ == args.url@,
            out.wordlist@ == args.wordlist@,
            out.threads == args.threads,
            out.timeout == args.timeout,
            out.user_agent@ == args.user_agent@,
            numbers_of(out.filtered_code@) == expanded(args.filtered_code@),
            numbers_of(out.filtered_size@) == expanded(args.filtered_size@),
            out.filtered_word.deep_view() == args.filtered_word.deep_view(),
            numbers_of(out.matched_code@) == expanded(args.matched_code@),
            numbers_of(out.matched_size@) == expanded(args.matched_size@),
            out.matched_word.deep_view() == args.matched_word.deep_view(),
            out.follow_redirect == args.follow_redirect,
            out.method@ == args.method@,
    {
        FuzzerArgs {
            url: args.url,
            wordlist: args.wordlist,
            threads: args.threads,
            timeout: args.timeout,
            user_agent: args.user_agent,
            filtered_code: expand_ranges(args.filtered_code),
            filtered_size: expand_ranges(args.filtered_size),
            filtered_word: args.filtered_word,
            matched_code: expand_ranges(args.matched_code),
            matched_size: expand_ranges(args.matched_size),
            matched_word: args.matched_word,
            follow_redirect: args.follow_redirect,
            method: args.method,
        }
    }
}

impl DisplayArgs {
    /// What the reporter is told of the settings of a run.
    pub fn from(args: &FuzzerArgs) -> (out: DisplayArgs)
        ensures
            out@ == (DisplayArgsView {
                url: args.url@,
                wordlist: args.wordlist@,
                threads: args.threads,
                timeout: args.timeout,
                user_agent: args.user_agent@,
                filtered_code: args.filtered_code@,
                filtered_size: args.filtered_size@,
                filtered_word: args.filtered_word.deep_view(),
                matched_code: args.matched_code@,
                matched_size: args.matched_size@,
                matched_word: args.matched_word.deep_view(),
                method: args.method@,
            }),
    {
        DisplayArgs {
            url: args.url.clone(),
            wordlist: args.wordlist.clone(),
            threads: args.threads,
            timeout: args.timeout,
            user_agent: args.user_agent.clone(),
            filtered_code: args.filtered_code.clone(),
            filtered_size: args.filtered_size.clone(),
            filtered_word: clone_words(&args.filtered_word),
            matched_code: args.matched_code.clone(),
            matched_size: args.matched_size.clone(),
            matched_word: clone_words(&args.matched_word),
            method: args.method.clone(),
        }
    }
}

impl SenderArgs {
    /// What every request is sent with, from the settings of a run.
    pub fn from(args: &FuzzerArgs) -> (out: SenderArgs)
        ensures
            out@ == (SenderArgsView {
                user_agent: args.user_agent@,
                request_timeout: args.timeout,
                url: args.url@,
                follow_redirect: args.follow_redirect,
                method: args.method@,
            }),
    {
        SenderArgs {
            user_agent: args.user_agent.clone(),
            request_timeout: args.timeout,
            url: args.url.clone(),
            follow_redirect: args.follow_redirect,
            method: args.method.clone(),
        }
    }
}

impl ReaderArgs {
    /// Where the wordlist is and how many workers share it, from the
    /// settings of a run.
    pub fn from(args: &FuzzerArgs) -> (out: ReaderArgs)
        ensures
            out.path@ == args.wordlist@,
            out.threads == args.threads,
    {
        ReaderArgs { path: args.wordlist.clone(), threads: args.threads }
    }
}

impl WordlistArgs {
    /// Where the wordlist is, from the settings of a run.
    pub fn from(args: &FuzzerArgs) -> (out: WordlistArgs)
        ensures
            out.path@ == args.wordlist@,
    {
        WordlistArgs { path: args.wordlist.clone() }
    }
}

} // verus!
