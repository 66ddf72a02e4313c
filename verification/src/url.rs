//! URL templates: text with a placeholder where the payload goes.

use vstd::prelude::*;
use vstd::string::*;
use crate::text::push_char;

verus! {

/// `template` with each placeholder `{}` replaced by `payload`. Placeholders
/// are found from left to right; the text of the payload is not searched.
pub open spec fn substituted(template: Seq<char>, payload: Seq<char>) -> Seq<char>
    decreases template.len(),
{
    if template.len() == 0 {
        Seq::empty()
    } else if template.len() >= 2 && template[0] == '{' && template[1] == '}' {
        payload + substituted(template.skip(2), payload)
    } else {
        seq![template[0]] + substituted(template.skip(1), payload)
    }
}

/// `template` holds the placeholder `{}`.
pub open spec fn has_placeholder(template: Seq<char>) -> bool {
    exists|i: int| 0 <= i && i + 1 < template.len() && #[trigger] template[i] == '{' && template[i + 1] == '}'
}

/// The URL for `payload`: `template` with every placeholder replaced by it.
pub fn substitute(template: &str, payload: &str) -> (url: String)
    ensures
        url@ == substituted(template@, payload@),
{
    let mut url = String::new();
    let mut open_brace = false;
    let ghost total = substituted(template@, payload@);
    assert(template@.skip(0) =~= template@);
    assert(url@ + total =~= total);
    for c in it: template.chars()
        invariant
            it.seq() == template@,
            total == substituted(template@, payload@),
            url@ + substituted(
                if open_brace {
                    seq!['{'] + template@.skip(it.index() as int)
                } else {
                    template@.skip(it.index() as int)
                },
                payload@,
            ) == total,
    {
        let ghost rest = template@.skip(it.index() as int);
        let ghost tail = template@.skip(it.index() + 1);
        let ghost before = url@;
        let ghost after_tail = substituted(tail, payload@);
        assert(rest[0] == c);
        assert(rest.skip(1) =~= tail);
        if open_brace {
            let ghost seen = seq!['{'] + rest;
            assert(seen[0] == '{' && seen[1] == c);
            assert(seen.skip(1) =~= rest);
            if c == '}' {
                assert(seen.skip(2) =~= tail);
                assert(substituted(seen, payload@) == payload@ + after_tail);
                url.append(payload);
                open_brace = false;
                assert(url@ + after_tail =~= before + (payload@ + after_tail));
            } else if c == '{' {
                assert(substituted(seen, payload@) == seq!['{'] + substituted(rest, payload@));
                push_char(&mut url, '{');
                assert(rest =~= seq!['{'] + tail);
                assert(url@ + substituted(rest, payload@) =~= before + (seq!['{'] + substituted(
                    rest,
                    payload@,
                )));
            } else {
                assert(substituted(seen, payload@) == seq!['{'] + substituted(rest, payload@));
                assert(substituted(rest, payload@) == seq![c] + after_tail);
                push_char(&mut url, '{');
                push_char(&mut url, c);
                open_brace = false;
                assert(url@ + after_tail =~= before + (seq!['{'] + (seq![c] + after_tail)));
            }
        } else {
            if c == '{' {
                open_brace = true;
                assert(rest =~= seq!['{'] + tail);
            } else {
                assert(substituted(rest, payload@) == seq![c] + after_tail);
                push_char(&mut url, c);
                assert(url@ + after_tail =~= before + (seq![c] + after_tail));
            }
        }
    }
    let ghost end = template@.skip(template@.len() as int);
    assert(end =~= Seq::<char>::empty());
    if open_brace {
        let ghost seen = seq!['{'] + end;
        let ghost before = url@;
        assert(seen.skip(1) =~= end);
        assert(substituted(seen, payload@) == seq!['{'] + substituted(end, payload@));
        push_char(&mut url, '{');
        assert(url@ =~= before + (seq!['{'] + substituted(end, payload@)));
    } else {
        assert(url@ =~= url@ + substituted(end, payload@));
    }
    url
}

/// A URL template.
#[derive(Clone, Debug)]
pub struct Url {
    pub str: String,
}

impl Url {
    /// The template `str`.
    pub fn new(str: &String) -> (url: Url)
        ensures
            url.str@ == str@,
    {
        Url { str: str.clone() }
    }

    /// Whether the template holds a placeholder.
    pub fn has_placeholder(&self) -> (found: bool)
        ensures
            found == has_placeholder(self.str@),
    {
        let mut open_brace = false;
        for c in it: self.str.as_str().chars()
            invariant
                it.seq() == self.str@,
                open_brace <==> (it.index() > 0 && self.str@[it.index() - 1] == '{'),
                forall|i: int|
                    0 <= i && i + 1 < it.index() ==> !(#[trigger] self.str@[i] == '{' && self.str@[i + 1]
                        == '}'),
        {
            if open_brace && c == '}' {
                assert(self.str@[it.index() - 1] == '{' && self.str@[it.index() - 1 + 1] == '}');
                return true;
            }
            open_brace = c == '{';
        }
        false
    }

    /// The URL for `payload`.
    pub fn resolve(&self, payload: &str) -> (url: String)
        ensures
            url@ == substituted(self.str@, payload@),
    {
        substitute(self.str.as_str(), payload)
    }
}

/// A template without a placeholder is every payload's URL.
pub proof fn lemma_no_placeholder_no_change(template: Seq<char>, payload: Seq<char>)
    requires
        !has_placeholder(template),
    ensures
        substituted(template, payload) == template,
    decreases template.len(),
{
    if template.len() == 0 {
        assert(substituted(template, payload) =~= template);
    } else {
        assert(!(template[0] == '{' && template[1] == '}') || template.len() < 2);
        let tail = template.skip(1);
        assert forall|i: int| 0 <= i && i + 1 < tail.len() implies !(#[trigger] tail[i] == '{' && tail[i
            + 1] == '}') by {
            assert(tail[i] == template[i + 1]);
            assert(!(template[i + 1] == '{' && template[i + 1 + 1] == '}'));
        }
        lemma_no_placeholder_no_change(tail, payload);
        assert(seq![template[0]] + tail =~= template);
    }
}

/// A template that ends in its only placeholder puts the payload, letter
/// for letter, behind the text before the placeholder, whatever the payload
/// holds.
pub proof fn lemma_trailing_placeholder(prefix: Seq<char>, payload: Seq<char>)
    requires
        !has_placeholder(prefix),
    ensures
        substituted(prefix + seq!['{', '}'], payload) == prefix + payload,
    decreases prefix.len(),
{
    let template = prefix + seq!['{', '}'];
    if prefix.len() == 0 {
        assert(template.skip(2) =~= Seq::<char>::empty());
        assert(substituted(template.skip(2), payload) =~= Seq::<char>::empty());
        assert(substituted(template, payload) =~= prefix + payload);
    } else {
        let tail = prefix.skip(1);
        assert(template[0] == prefix[0]);
        if prefix.len() >= 2 {
            assert(template[1] == prefix[1]);
            assert(!(prefix[0] == '{' && prefix[1] == '}'));
        } else {
            assert(template[1] == '{');
        }
        assert(template.skip(1) =~= tail + seq!['{', '}']);
        assert forall|i: int| 0 <= i && i + 1 < tail.len() implies !(#[trigger] tail[i] == '{' && tail[i
            + 1] == '}') by {
            assert(tail[i] == prefix[i + 1]);
            assert(!(prefix[i + 1] == '{' && prefix[i + 1 + 1] == '}'));
        }
        lemma_trailing_placeholder(tail, payload);
        assert(seq![prefix[0]] + (tail + payload) =~= prefix + payload);
    }
}

} // verus!
