//! The filter chain: rules that decide which responses are left out of the
//! report.
//!
//! Every rule looks at one dimension of a response (status code, content
//! size, body text) and carries two lists for it. A non-empty match-list
//! decides alone: the response is suppressed unless its value is on the list.
//! With an empty match-list the exclude-list decides: the response is
//! suppressed if its value is on that list. A chain suppresses a response as
//! soon as one of its rules does.

use vstd::prelude::*;
use vstd::string::*;
use crate::response::ResponseRecord;
use crate::response::ResponseRecordView;

verus! {

/// The decision of a rule whose match-list has `match_list_len` entries, on
/// a response whose value is on the match-list if `on_matched` holds and on
/// the exclude-list if `on_filtered` holds.
pub open spec fn rule_decision(match_list_len: nat, on_matched: bool, on_filtered: bool) -> bool {
    if match_list_len > 0 {
        !on_matched
    } else {
        on_filtered
    }
}

/// The decision of a rule over plain values: `value` is on a list if it is
/// one of its entries.
pub open spec fn value_rule<T>(matched: Seq<T>, filtered: Seq<T>, value: T) -> bool {
    rule_decision(matched.len(), matched.contains(value), filtered.contains(value))
}

/// `needle` occurs in `text` as a run of consecutive characters.
pub open spec fn occurs_in(needle: Seq<char>, text: Seq<char>) -> bool {
    exists|start: int|
        0 <= start && start + needle.len() <= text.len() && #[trigger] text.subrange(
            start,
            start + needle.len(),
        ) == needle
}

/// Some entry of `words` occurs in `body`.
pub open spec fn any_occurs_in(words: Seq<Seq<char>>, body: Seq<char>) -> bool {
    exists|k: int| 0 <= k < words.len() && occurs_in(#[trigger] words[k], body)
}

/// The decision of a rule over body text: the body is on a list if one of
/// the list's entries occurs in it.
pub open spec fn word_rule(matched: Seq<Seq<char>>, filtered: Seq<Seq<char>>, body: Seq<char>) -> bool {
    rule_decision(matched.len(), any_occurs_in(matched, body), any_occurs_in(filtered, body))
}

/// `str::contains` of the standard library, with a string as the pattern:
/// true exactly if the pattern matches a sub-slice of the text. The match is
/// case-sensitive; an empty pattern matches everywhere.
#[verifier::external_body]
fn contains_text(text: &str, needle: &str) -> (found: bool)
    ensures
        found == occurs_in(needle@, text@),
{
    text.contains(needle)
}

fn contains_code(list: &Vec<u16>, value: u16) -> (found: bool)
    ensures
        found == list@.contains(value),
{
    let mut i: usize = 0;
    while i < list.len()
        invariant
            i <= list.len(),
            forall|j: int| 0 <= j < i ==> list@[j] != value,
        decreases list.len() - i,
    {
        if list[i] == value {
            return true;
        }
        i = i + 1;
    }
    false
}

fn contains_size(list: &Vec<u64>, value: u64) -> (found: bool)
    ensures
        found == list@.contains(value),
{
    let mut i: usize = 0;
    while i < list.len()
        invariant
            i <= list.len(),
            forall|j: int| 0 <= j < i ==> list@[j] != value,
        decreases list.len() - i,
    {
        if list[i] == value {
            return true;
        }
        i = i + 1;
    }
    false
}

fn any_word_in(words: &Vec<String>, body: &str) -> (found: bool)
    ensures
        found == any_occurs_in(words.deep_view(), body@),
{
    let mut i: usize = 0;
    while i < words.len()
        invariant
            i <= words.len(),
            forall|j: int| 0 <= j < i ==> !occurs_in(#[trigger] words.deep_view()[j], body@),
        decreases words.len() - i,
    {
        assert(words.deep_view()[i as int] == words@[i as int]@);
        if contains_text(body, words[i].as_str()) {
            return true;
        }
        i = i + 1;
    }
    false
}

/// A predicate on responses: `should_filter` says whether a response with
/// the given status code, content size and body is left out of the report.
pub trait ResponseFilter {
    /// Whether this filter suppresses a response with these values.
    spec fn suppresses(&self, status: u16, size: u64, body: Seq<char>) -> bool;

    fn should_filter(&self, status: u16, size: u64, body: &str) -> (suppress: bool)
        ensures
            suppress == self.suppresses(status, size, body@),
    ;
}

/// The rule on the status code.
#[derive(Clone, Debug)]
pub struct StatusCodeFilter {
    filtered_code: Vec<u16>,
    matched_code: Vec<u16>,
}

impl StatusCodeFilter {
    /// The exclude-list.
    pub closed spec fn filtered_list(&self) -> Seq<u16> {
        self.filtered_code@
    }

    /// The match-list.
    pub closed spec fn matched_list(&self) -> Seq<u16> {
        self.matched_code@
    }

    pub fn new(filtered_code: Vec<u16>, matched_code: Vec<u16>) -> (filter: StatusCodeFilter)
        ensures
            filter.filtered_list() == filtered_code@,
            filter.matched_list() == matched_code@,
    {
        StatusCodeFilter { filtered_code, matched_code }
    }
}

impl ResponseFilter for StatusCodeFilter {
    open spec fn suppresses(&self, status: u16, size: u64, body: Seq<char>) -> bool {
        value_rule(self.matched_list(), self.filtered_list(), status)
    }

    fn should_filter(&self, status: u16, size: u64, body: &str) -> (suppress: bool) {
        if !self.matched_code.is_empty() {
            return !contains_code(&self.matched_code, status);
        }
        contains_code(&self.filtered_code, status)
    }
}

/// The rule on the content size.
#[derive(Clone, Debug)]
pub struct ContentSizeFilter {
    filtered_size: Vec<u64>,
    matched_size: Vec<u64>,
}

impl ContentSizeFilter {
    /// The exclude-list.
    pub closed spec fn filtered_list(&self) -> Seq<u64> {
        self.filtered_size@
    }

    /// The match-list.
    pub closed spec fn matched_list(&self) -> Seq<u64> {
        self.matched_size@
    }

    pub fn new(filtered_size: Vec<u64>, matched_size: Vec<u64>) -> (filter: ContentSizeFilter)
        ensures
            filter.filtered_list() == filtered_size@,
            filter.matched_list() == matched_size@,
    {
        ContentSizeFilter { filtered_size, matched_size }
    }
}

impl ResponseFilter for ContentSizeFilter {
    open spec fn suppresses(&self, status: u16, size: u64, body: Seq<char>) -> bool {
        value_rule(self.matched_list(), self.filtered_list(), size)
    }

    fn should_filter(&self, status: u16, size: u64, body: &str) -> (suppress: bool) {
        if !self.matched_size.is_empty() {
            return !contains_size(&self.matched_size, size);
        }
        contains_size(&self.filtered_size, size)
    }
}

/// The rule on the body text: an entry of a list applies to a body in which
/// it occurs, letter for letter.
#[derive(Clone, Debug)]
pub struct WordFilter {
    filtered_words: Vec<String>,
    matched_words: Vec<String>,
}

impl WordFilter {
    /// The exclude-list.
    pub closed spec fn filtered_list(&self) -> Seq<Seq<char>> {
        self.filtered_words.deep_view()
    }

    /// The match-list.
    pub closed spec fn matched_list(&self) -> Seq<Seq<char>> {
        self.matched_words.deep_view()
    }

    pub fn new(filtered_words: Vec<String>, matched_words: Vec<String>) -> (filter: WordFilter)
        ensures
            filter.filtered_list() == filtered_words.deep_view(),
            filter.matched_list() == matched_words.deep_view(),
    {
        WordFilter { filtered_words, matched_words }
    }
}

impl ResponseFilter for WordFilter {
    open spec fn suppresses(&self, status: u16, size: u64, body: Seq<char>) -> bool {
        word_rule(self.matched_list(), self.filtered_list(), body)
    }

    fn should_filter(&self, status: u16, size: u64, body: &str) -> (suppress: bool) {
        if !self.matched_words.is_empty() {
            return !any_word_in(&self.matched_words, body);
        }
        any_word_in(&self.filtered_words, body)
    }
}

/// One rule of a chain: a filter of one of the three kinds.
#[derive(Clone, Debug)]
pub enum FilterRule {
    StatusCode(StatusCodeFilter),
    ContentSize(ContentSizeFilter),
    BodyContains(WordFilter),
}

impl ResponseFilter for FilterRule {
    open spec fn suppresses(&self, status: u16, size: u64, body: Seq<char>) -> bool {
        match self {
            FilterRule::StatusCode(filter) => filter.suppresses(status, size, body),
            FilterRule::ContentSize(filter) => filter.suppresses(status, size, body),
            FilterRule::BodyContains(filter) => filter.suppresses(status, size, body),
        }
    }

    fn should_filter(&self, status: u16, size: u64, body: &str) -> (suppress: bool) {
        match self {
            FilterRule::StatusCode(filter) => filter.should_filter(status, size, body),
            FilterRule::ContentSize(filter) => filter.should_filter(status, size, body),
            FilterRule::BodyContains(filter) => filter.should_filter(status, size, body),
        }
    }
}

/// Some rule of `rules` suppresses a response with these values.
pub open spec fn some_rule_suppresses(rules: Seq<FilterRule>, status: u16, size: u64, body: Seq<char>) -> bool {
    exists|k: int| 0 <= k < rules.len() && (#[trigger] rules[k]).suppresses(status, size, body)
}

/// `rules` are the rule on the status code, the rule on the content size
/// and the rule on the body text, in this order, with the given lists.
pub open spec fn holds_lists(
    rules: Seq<FilterRule>,
    filtered_code: Seq<u16>,
    matched_code: Seq<u16>,
    filtered_size: Seq<u64>,
    matched_size: Seq<u64>,
    filtered_word: Seq<Seq<char>>,
    matched_word: Seq<Seq<char>>,
) -> bool {
    &&& rules.len() == 3
    &&& rules[0] matches FilterRule::StatusCode(f) && f.filtered_list() == filtered_code
        && f.matched_list() == matched_code
    &&& rules[1] matches FilterRule::ContentSize(f) && f.filtered_list() == filtered_size
        && f.matched_list() == matched_size
    &&& rules[2] matches FilterRule::BodyContains(f) && f.filtered_list() == filtered_word
        && f.matched_list() == matched_word
}

/// What a chain of the three rules suppresses: a response whose status
/// code, content size or body text its rule suppresses.
pub open spec fn lists_suppress(
    filtered_code: Seq<u16>,
    matched_code: Seq<u16>,
    filtered_size: Seq<u64>,
    matched_size: Seq<u64>,
    filtered_word: Seq<Seq<char>>,
    matched_word: Seq<Seq<char>>,
    status: u16,
    size: u64,
    body: Seq<char>,
) -> bool {
    ||| value_rule(matched_code, filtered_code, status)
    ||| value_rule(matched_size, filtered_size, size)
    ||| word_rule(matched_word, filtered_word, body)
}

/// An ordered list of rules, combined by "or".
#[derive(Clone, Debug)]
pub struct FilterChain {
    rules: Vec<FilterRule>,
}

impl View for FilterChain {
    type V = Seq<FilterRule>;

    closed spec fn view(&self) -> Seq<FilterRule> {
        self.rules@
    }
}

impl FilterChain {
    /// Whether the chain suppresses `record`: whether one of its rules does.
    pub open spec fn suppresses(&self, record: ResponseRecordView) -> bool {
        some_rule_suppresses(self@, record.status, record.content_length, record.body)
    }

    /// The chain without rules, which suppresses nothing.
    pub fn new() -> (chain: FilterChain)
        ensures
            chain@ == Seq::<FilterRule>::empty(),
    {
        FilterChain { rules: Vec::new() }
    }

    /// Adds `rule` at the end of the chain.
    pub fn push(&mut self, rule: FilterRule)
        ensures
            final(self)@ == old(self)@.push(rule),
    {
        self.rules.push(rule);
    }

    /// The number of rules.
    pub fn len(&self) -> (n: usize)
        ensures
            n == self@.len(),
    {
        self.rules.len()
    }

    /// The chain of the three rules in their fixed order: status code,
    /// content size, body text.
    pub fn from_lists(
        filtered_code: Vec<u16>,
        matched_code: Vec<u16>,
        filtered_size: Vec<u64>,
        matched_size: Vec<u64>,
        filtered_word: Vec<String>,
        matched_word: Vec<String>,
    ) -> (chain: FilterChain)
        ensures
            holds_lists(
                chain@,
                filtered_code@,
                matched_code@,
                filtered_size@,
                matched_size@,
                filtered_word.deep_view(),
                matched_word.deep_view(),
            ),
    {
        let mut chain = FilterChain::new();
        chain.push(FilterRule::StatusCode(StatusCodeFilter::new(filtered_code, matched_code)));
        chain.push(FilterRule::ContentSize(ContentSizeFilter::new(filtered_size, matched_size)));
        chain.push(FilterRule::BodyContains(WordFilter::new(filtered_word, matched_word)));
        chain
    }

    /// Whether `record` is left out of the report. The rules are tried in
    /// order and the first that suppresses decides.
    pub fn should_suppress(&self, record: &ResponseRecord) -> (suppress: bool)
        ensures
            suppress == self.suppresses(record@),
    {
        let mut i: usize = 0;
        while i < self.rules.len()
            invariant
                i <= self.rules.len(),
                forall|j: int|
                    0 <= j < i ==> !(#[trigger] self.rules@[j]).suppresses(
                        record.status,
                        record.content_length,
                        record.body@,
                    ),
            decreases self.rules.len() - i,
        {
            if self.rules[i].should_filter(record.status, record.content_length, record.body.as_str()) {
                return true;
            }
            i = i + 1;
        }
        false
    }
}

/// Filter precedence: where the match-list of a rule is not empty, the rule
/// suppresses a response exactly if the response's value is not on the
/// match-list, whatever the exclude-list holds.
pub proof fn lemma_match_list_decides(
    codes: StatusCodeFilter,
    sizes: ContentSizeFilter,
    words: WordFilter,
    status: u16,
    size: u64,
    body: Seq<char>,
)
    ensures
        codes.matched_list().len() > 0 ==> (codes.suppresses(status, size, body)
            <==> !codes.matched_list().contains(status)),
        sizes.matched_list().len() > 0 ==> (sizes.suppresses(status, size, body)
            <==> !sizes.matched_list().contains(size)),
        words.matched_list().len() > 0 ==> (words.suppresses(status, size, body) <==> !any_occurs_in(
            words.matched_list(),
            body,
        )),
{
}

/// Filter default: where the match-list of a rule is empty, the rule
/// suppresses a response exactly if the response's value is on the
/// exclude-list.
pub proof fn lemma_exclude_list_decides(
    codes: StatusCodeFilter,
    sizes: ContentSizeFilter,
    words: WordFilter,
    status: u16,
    size: u64,
    body: Seq<char>,
)
    ensures
        codes.matched_list().len() == 0 ==> (codes.suppresses(status, size, body)
            <==> codes.filtered_list().contains(status)),
        sizes.matched_list().len() == 0 ==> (sizes.suppresses(status, size, body)
            <==> sizes.filtered_list().contains(size)),
        words.matched_list().len() == 0 ==> (words.suppresses(status, size, body) <==> any_occurs_in(
            words.filtered_list(),
            body,
        )),
{
}

/// A chain is the "or" of its rules: adding a rule suppresses what the chain
/// suppressed before and what the new rule suppresses, nothing else.
pub proof fn lemma_chain_is_disjunction(
    rules: Seq<FilterRule>,
    rule: FilterRule,
    status: u16,
    size: u64,
    body: Seq<char>,
)
    ensures
        some_rule_suppresses(rules.push(rule), status, size, body) <==> (some_rule_suppresses(
            rules,
            status,
            size,
            body,
        ) || rule.suppresses(status, size, body)),
        !some_rule_suppresses(Seq::<FilterRule>::empty(), status, size, body),
{
    let extended = rules.push(rule);
    if some_rule_suppresses(rules, status, size, body) {
        let k = choose|k: int| 0 <= k < rules.len() && (#[trigger] rules[k]).suppresses(status, size, body);
        assert(extended[k] == rules[k]);
    }
    if rule.suppresses(status, size, body) {
        assert(extended[rules.len() as int] == rule);
    }
    if some_rule_suppresses(extended, status, size, body) {
        let k = choose|k: int|
            0 <= k < extended.len() && (#[trigger] extended[k]).suppresses(status, size, body);
        if k < rules.len() {
            assert(rules[k] == extended[k]);
        }
    }
}

/// The chain of the three rules suppresses a response exactly if the rule
/// of one of the three dimensions does.
pub proof fn lemma_three_rules_decide(
    rules: Seq<FilterRule>,
    filtered_code: Seq<u16>,
    matched_code: Seq<u16>,
    filtered_size: Seq<u64>,
    matched_size: Seq<u64>,
    filtered_word: Seq<Seq<char>>,
    matched_word: Seq<Seq<char>>,
    status: u16,
    size: u64,
    body: Seq<char>,
)
    requires
        holds_lists(
            rules,
            filtered_code,
            matched_code,
            filtered_size,
            matched_size,
            filtered_word,
            matched_word,
        ),
    ensures
        some_rule_suppresses(rules, status, size, body) <==> lists_suppress(
            filtered_code,
            matched_code,
            filtered_size,
            matched_size,
            filtered_word,
            matched_word,
            status,
            size,
            body,
        ),
{
    if some_rule_suppresses(rules, status, size, body) {
        let k = choose|k: int| 0 <= k < rules.len() && (#[trigger] rules[k]).suppresses(status, size, body);
        assert(k == 0 || k == 1 || k == 2);
    }
    assert(rules[0].suppresses(status, size, body) ==> some_rule_suppresses(rules, status, size, body));
    assert(rules[1].suppresses(status, size, body) ==> some_rule_suppresses(rules, status, size, body));
    assert(rules[2].suppresses(status, size, body) ==> some_rule_suppresses(rules, status, size, body));
}

} // verus!
