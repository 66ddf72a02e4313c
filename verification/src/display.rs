//! The reporter: which responses are shown, what a result line holds, and
//! how far the run has come.
//!
//! Nothing here writes to a terminal. The reporter hands out the text of
//! each line, together with what a terminal needs to colour it, and counts
//! the payloads that have been processed.

use vstd::prelude::*;
use vstd::string::*;
use crate::filter::holds_lists;
use crate::filter::FilterChain;
use crate::progress::counted;
use crate::progress::ProgressCounter;
use crate::ranges::range_entries;
use crate::ranges::range_formatted;
use crate::ranges::widen_codes;
use crate::ranges::widened;
use crate::response::ResponseRecord;
use crate::response::ResponseRecordView;
use crate::text::decimal;
use crate::text::padded;
use crate::text::push_char;
use crate::text::push_decimal;
use crate::text::push_padded;
use crate::text::clone_words;
use crate::text::to_decimal;
use crate::text::trim;
use crate::text::trimmed;
use crate::worker::Step;

verus! {

/// The band of a status code, by which result lines are grouped.
#[derive(Clone, Copy, Debug, PartialEq, Eq, Structural)]
pub enum StatusBand {
    /// 100 to 199.
    Informational,
    /// 200 to 299.
    Success,
    /// 300 to 399.
    Redirect,
    /// 400 to 499.
    ClientError,
    /// 500 to 599.
    ServerError,
    /// Every other code.
    Other,
}

/// The band of `status`.
pub open spec fn band_of(status: u16) -> StatusBand {
    if 100 <= status <= 199 {
        StatusBand::Informational
    } else if 200 <= status <= 299 {
        StatusBand::Success
    } else if 300 <= status <= 399 {
        StatusBand::Redirect
    } else if 400 <= status <= 499 {
        StatusBand::ClientError
    } else if 500 <= status <= 599 {
        StatusBand::ServerError
    } else {
        StatusBand::Other
    }
}

/// The status column: the code in parentheses.
pub open spec fn status_text(status: u16) -> Seq<char> {
    seq!['('] + decimal(status as nat) + seq![')']
}

/// The time column: the milliseconds, followed by `ms`.
pub open spec fn time_text(elapsed_ms: u128) -> Seq<char> {
    decimal(elapsed_ms as nat) + seq!['m', 's']
}

/// Width of the status column.
pub const STATUS_WIDTH: usize = 6;

/// Width of the size column.
pub const SIZE_WIDTH: usize = 6;

/// Width of the time column.
pub const TIME_WIDTH: usize = 8;

/// Width of the labels in the header.
pub const LABEL_WIDTH: usize = 14;

/// A line of three left-aligned columns and the URL, one space between them.
pub open spec fn line_text(status: Seq<char>, size: Seq<char>, time: Seq<char>, url: Seq<char>) -> Seq<
    char,
> {
    padded(status, STATUS_WIDTH as nat) + seq![' '] + padded(size, SIZE_WIDTH as nat) + seq![' ']
        + padded(time, TIME_WIDTH as nat) + seq![' '] + url
}

/// The band of `status`.
pub fn status_band(status: u16) -> (band: StatusBand)
    ensures
        band == band_of(status),
{
    if 100 <= status && status <= 199 {
        StatusBand::Informational
    } else if 200 <= status && status <= 299 {
        StatusBand::Success
    } else if 300 <= status && status <= 399 {
        StatusBand::Redirect
    } else if 400 <= status && status <= 499 {
        StatusBand::ClientError
    } else if 500 <= status && status <= 599 {
        StatusBand::ServerError
    } else {
        StatusBand::Other
    }
}

/// The line of the given columns.
pub fn render_columns(status: &str, size: &str, time: &str, url: &str) -> (text: String)
    ensures
        text@ == line_text(status@, size@, time@, url@),
{
    let mut text = String::new();
    push_padded(&mut text, status, STATUS_WIDTH);
    push_char(&mut text, ' ');
    push_padded(&mut text, size, SIZE_WIDTH);
    push_char(&mut text, ' ');
    push_padded(&mut text, time, TIME_WIDTH);
    push_char(&mut text, ' ');
    text.append(url);
    assert(text@ =~= line_text(status@, size@, time@, url@));
    text
}

/// One result line, column by column.
#[derive(Clone, Debug)]
pub struct ReportLine {
    /// The status column.
    pub status: String,
    /// The band of the status code.
    pub band: StatusBand,
    /// The size column.
    pub size: String,
    /// Whether the content size is zero.
    pub empty: bool,
    /// The time column.
    pub time: String,
    /// The URL, without white space around it.
    pub url: String,
}

impl ReportLine {
    /// The text of the line.
    pub open spec fn text(&self) -> Seq<char> {
        line_text(self.status@, self.size@, self.time@, self.url@)
    }

    /// The line for `record`.
    pub open spec fn describes(&self, record: ResponseRecordView) -> bool {
        &&& self.status@ == status_text(record.status)
        &&& self.band == band_of(record.status)
        &&& self.size@ == decimal(record.content_length as nat)
        &&& self.empty == (record.content_length == 0)
        &&& self.time@ == time_text(record.elapsed_ms)
        &&& self.url@ == trimmed(record.url)
    }

    /// The text of the line, without colours.
    pub fn render(&self) -> (text: String)
        ensures
            text@ == self.text(),
    {
        render_columns(self.status.as_str(), self.size.as_str(), self.time.as_str(), self.url.as_str())
    }
}

/// What the reporter is told about the run.
#[derive(Clone, Debug)]
pub struct DisplayArgs {
    pub url: String,
    pub wordlist: String,
    pub threads: u8,
    pub timeout: u64,
    pub user_agent: String,
    pub filtered_code: Vec<u16>,
    pub filtered_size: Vec<u64>,
    pub filtered_word: Vec<String>,
    pub matched_code: Vec<u16>,
    pub matched_size: Vec<u64>,
    pub matched_word: Vec<String>,
    pub method: String,
}

/// The mathematical content of [`DisplayArgs`].
pub struct DisplayArgsView {
    pub url: Seq<char>,
    pub wordlist: Seq<char>,
    pub threads: u8,
    pub timeout: u64,
    pub user_agent: Seq<char>,
    pub filtered_code: Seq<u16>,
    pub filtered_size: Seq<u64>,
    pub filtered_word: Seq<Seq<char>>,
    pub matched_code: Seq<u16>,
    pub matched_size: Seq<u64>,
    pub matched_word: Seq<Seq<char>>,
    pub method: Seq<char>,
}

impl View for DisplayArgs {
    type V = DisplayArgsView;

    open spec fn view(&self) -> DisplayArgsView {
        DisplayArgsView {
            url: self.url@,
            wordlist: self.wordlist@,
            threads: self.threads,
            timeout: self.timeout,
            user_agent: self.user_agent@,
            filtered_code: self.filtered_code@,
            filtered_size: self.filtered_size@,
            filtered_word: self.filtered_word.deep_view(),
            matched_code: self.matched_code@,
            matched_size: self.matched_size@,
            matched_word: self.matched_word.deep_view(),
            method: self.method@,
        }
    }
}

/// The rule of the header.
pub open spec fn header_rule() -> Seq<char> {
    "*=================================================*"@
}

/// A header line: the label in its column, then the value.
pub open spec fn labelled(label: Seq<char>, value: Seq<char>) -> Seq<char> {
    seq!['*', ' '] + padded(label, LABEL_WIDTH as nat) + seq![' ', ':', ' '] + value
}

/// `entry` between double quotes.
pub open spec fn quoted(entry: Seq<char>) -> Seq<char> {
    seq!['"'] + entry + seq!['"']
}

/// The entries, each between double quotes, with a comma and a space
/// between two of them.
pub open spec fn quoted_items(entries: Seq<Seq<char>>) -> Seq<char>
    decreases entries.len(),
{
    if entries.len() == 0 {
        Seq::empty()
    } else if entries.len() == 1 {
        quoted(entries[0])
    } else {
        quoted_items(entries.drop_last()) + seq![',', ' '] + quoted(entries.last())
    }
}

/// A list of numbers as the header shows it: its entries between square
/// brackets.
pub open spec fn list_text(values: Seq<u64>) -> Seq<char> {
    seq!['['] + quoted_items(range_entries(values)) + seq![']']
}

/// The header line for a list, which is left out where the list is empty.
pub open spec fn list_lines(label: Seq<char>, values: Seq<u64>) -> Seq<Seq<char>> {
    if values.len() == 0 {
        Seq::empty()
    } else {
        seq![labelled(label, list_text(values))]
    }
}

/// The head of the result table.
pub open spec fn table_head() -> Seq<char> {
    line_text("STATUS"@, "SIZE"@, "TIME"@, "URL"@)
}

/// The header of a run: its settings between two rules, then the head of
/// the result table.
pub open spec fn header_lines(args: DisplayArgsView) -> Seq<Seq<char>> {
    seq![
        header_rule(),
        Seq::empty(),
        labelled("URL"@, args.url),
        labelled("Wordlist"@, args.wordlist),
        labelled("Threads"@, decimal(args.threads as nat)),
        labelled("Timeout"@, decimal(args.timeout as nat)),
        labelled("User-Agent"@, args.user_agent),
    ] + list_lines("Filtered code"@, widened(args.filtered_code)) + list_lines(
        "Filtered size"@,
        args.filtered_size,
    ) + list_lines("Matched code"@, widened(args.matched_code)) + list_lines(
        "Matched size"@,
        args.matched_size,
    ) + seq![labelled("Method"@, args.method), Seq::empty(), header_rule(), Seq::empty(), table_head()]
}

fn labelled_line(label: &str, value: &str) -> (line: String)
    ensures
        line@ == labelled(label@, value@),
{
    let mut line = String::new();
    push_char(&mut line, '*');
    push_char(&mut line, ' ');
    push_padded(&mut line, label, LABEL_WIDTH);
    push_char(&mut line, ' ');
    push_char(&mut line, ':');
    push_char(&mut line, ' ');
    line.append(value);
    assert(line@ =~= labelled(label@, value@));
    line
}

fn list_line(lines: &mut Vec<String>, label: &str, values: &Vec<u64>)
    ensures
        final(lines).deep_view() == old(lines).deep_view() + list_lines(label@, values@),
{
    let ghost before = lines.deep_view();
    if values.len() == 0 {
        assert(lines.deep_view() =~= before + list_lines(label@, values@));
        return ;
    }
    let entries = range_formatted(values);
    let mut text = String::new();
    push_char(&mut text, '[');
    let mut i: usize = 0;
    while i < entries.len()
        invariant
            i <= entries.len(),
            text@ == seq!['['] + quoted_items(entries.deep_view().take(i as int)),
        decreases entries.len() - i,
    {
        let ghost done = entries.deep_view().take(i as int);
        let ghost next = entries.deep_view().take(i + 1);
        let ghost so_far = text@;
        assert(next.drop_last() =~= done);
        assert(next.last() == entries@[i as int]@);
        if i > 0 {
            push_char(&mut text, ',');
            push_char(&mut text, ' ');
        }
        push_char(&mut text, '"');
        text.append(entries[i].as_str());
        push_char(&mut text, '"');
        i = i + 1;
        assert(text@ =~= seq!['['] + quoted_items(next));
    }
    assert(entries.deep_view().take(entries.len() as int) =~= entries.deep_view());
    push_char(&mut text, ']');
    assert(text@ =~= list_text(values@));
    let line = labelled_line(label, text.as_str());
    lines.push(line);
    assert(lines.deep_view() =~= before + seq![lines@.last()@]);
    assert(lines@.last()@ == labelled(label@, list_text(values@)));
}

fn push_line(lines: &mut Vec<String>, line: String)
    ensures
        final(lines).deep_view() == old(lines).deep_view().push(line@),
{
    let ghost before = lines.deep_view();
    lines.push(line);
    assert(lines.deep_view() =~= before.push(line@));
}

/// The reporter of a run.
pub struct Display {
    filters: FilterChain,
    args: DisplayArgs,
    progress: ProgressCounter,
}

impl Display {
    /// The filter chain that decides which responses are shown.
    pub closed spec fn filters(&self) -> FilterChain {
        self.filters
    }

    /// What the reporter was told about the run.
    pub closed spec fn args(&self) -> DisplayArgs {
        self.args
    }

    /// The progress counter.
    pub closed spec fn progress(&self) -> ProgressCounter {
        self.progress
    }

    /// Whether the reporter leaves `record` out.
    pub open spec fn suppresses(&self, record: ResponseRecordView) -> bool {
        self.filters().suppresses(record)
    }

    /// The reporter is the one for a run with the settings `args` over a
    /// wordlist of `total` lines, before the first payload: its filter chain
    /// holds the rule on the status code, the rule on the content size and
    /// the rule on the body text, in this order, each with the lists that
    /// `args` gives for it, and its progress counter stands at zero.
    pub open spec fn made_for(&self, args: DisplayArgsView, total: nat) -> bool {
        &&& self.args()@ == args
        &&& self.progress().completed_spec() == 0
        &&& self.progress().total_spec() == total
        &&& holds_lists(
            self.filters()@,
            args.filtered_code,
            args.matched_code,
            args.filtered_size,
            args.matched_size,
            args.filtered_word,
            args.matched_word,
        )
    }

    /// The reporter for a run with the settings `args` over a wordlist of
    /// `wl_lines_count` lines.
    pub fn new(args: DisplayArgs, wl_lines_count: usize) -> (display: Display)
        ensures
            display.made_for(args@, wl_lines_count as nat),
    {
        let filters = FilterChain::from_lists(
            args.filtered_code.clone(),
            args.matched_code.clone(),
            args.filtered_size.clone(),
            args.matched_size.clone(),
            clone_words(&args.filtered_word),
            clone_words(&args.matched_word),
        );
        Display { filters, args, progress: ProgressCounter::new(wl_lines_count as u64) }
    }

    /// The lines of the header.
    pub fn headers(args: &DisplayArgs) -> (lines: Vec<String>)
        ensures
            lines.deep_view() == header_lines(args@),
    {
        let mut lines: Vec<String> = Vec::new();
        assert(lines.deep_view() =~= Seq::<Seq<char>>::empty());
        push_line(&mut lines, "*=================================================*".to_string());
        push_line(&mut lines, String::new());
        push_line(&mut lines, labelled_line("URL", args.url.as_str()));
        push_line(&mut lines, labelled_line("Wordlist", args.wordlist.as_str()));
        push_line(&mut lines, labelled_line("Threads", to_decimal(args.threads as u128).as_str()));
        push_line(&mut lines, labelled_line("Timeout", to_decimal(args.timeout as u128).as_str()));
        push_line(&mut lines, labelled_line("User-Agent", args.user_agent.as_str()));
        let ghost top = lines.deep_view();
        list_line(&mut lines, "Filtered code", &widen_codes(&args.filtered_code));
        list_line(&mut lines, "Filtered size", &args.filtered_size);
        list_line(&mut lines, "Matched code", &widen_codes(&args.matched_code));
        list_line(&mut lines, "Matched size", &args.matched_size);
        let ghost middle = lines.deep_view();
        push_line(&mut lines, labelled_line("Method", args.method.as_str()));
        push_line(&mut lines, String::new());
        push_line(&mut lines, "*=================================================*".to_string());
        push_line(&mut lines, String::new());
        push_line(&mut lines, render_columns("STATUS", "SIZE", "TIME", "URL"));
        assert(lines.deep_view() =~= header_lines(args@));
        lines
    }

    /// The status column for `status`.
    pub fn status_formatter(status: u16) -> (text: String)
        ensures
            text@ == status_text(status),
    {
        let mut text = String::new();
        push_char(&mut text, '(');
        push_decimal(&mut text, status as u128);
        push_char(&mut text, ')');
        assert(text@ =~= status_text(status));
        text
    }

    /// The size column for `size`.
    pub fn size_formatter(size: u64) -> (text: String)
        ensures
            text@ == decimal(size as nat),
    {
        to_decimal(size as u128)
    }

    /// The time column for `elapsed_ms` milliseconds.
    pub fn time_formatter(elapsed_ms: u128) -> (text: String)
        ensures
            text@ == time_text(elapsed_ms),
    {
        let mut text = to_decimal(elapsed_ms);
        push_char(&mut text, 'm');
        push_char(&mut text, 's');
        assert(text@ =~= time_text(elapsed_ms));
        text
    }

    /// The result line for `record`, or `None` where the filter chain
    /// suppresses the record. The progress counter stays as it is.
    pub fn log_response(&self, record: &ResponseRecord) -> (line: Option<ReportLine>)
        ensures
            line is None <==> self.suppresses(record@),
            line matches Some(line) ==> line.describes(record@),
    {
        if self.filters.should_suppress(record) {
            return None;
        }
        Some(
            ReportLine {
                status: Self::status_formatter(record.status),
                band: status_band(record.status),
                size: Self::size_formatter(record.content_length),
                empty: record.content_length == 0,
                time: Self::time_formatter(record.elapsed_ms),
                url: trim(record.url.as_str()),
            },
        )
    }

    /// Counts one more processed payload. Filters and settings stay as they
    /// are.
    pub fn bar_inc_progress(&mut self)
        ensures
            final(self).filters() == old(self).filters(),
            final(self).args() == old(self).args(),
            final(self).progress().total_spec() == old(self).progress().total_spec(),
            final(self).progress().completed_spec() == counted(
                old(self).progress().completed_spec(),
                1,
            ),
    {
        self.progress.increment();
    }

    /// Takes the step of a worker: makes the result line of the response
    /// that the step reports, unless the filter chain suppresses it, and
    /// counts the payloads that the step finished. What is counted does not
    /// depend on what is shown.
    pub fn handle(&mut self, step: &Step) -> (line: Option<ReportLine>)
        ensures
            final(self).filters() == old(self).filters(),
            final(self).args() == old(self).args(),
            final(self).progress().total_spec() == old(self).progress().total_spec(),
            final(self).progress().completed_spec() == counted(
                old(self).progress().completed_spec(),
                step.progress,
            ),
            line is Some <==> (step@.report matches Some(record) && !old(self).suppresses(record)),
            line matches Some(line) ==> line.describes(step@.report->0),
    {
        self.progress.advance(step.progress);
        match &step.report {
            Some(record) => self.log_response(record),
            None => None,
        }
    }

    /// The number of payloads processed so far.
    pub fn completed(&self) -> (count: u64)
        ensures
            count == self.progress().completed_spec(),
    {
        self.progress.completed()
    }

    /// The number of payloads of the run.
    pub fn total(&self) -> (count: u64)
        ensures
            count == self.progress().total_spec(),
    {
        self.progress.total()
    }
}

} // verus!
