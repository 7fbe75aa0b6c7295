//! Reading the headers out of a compiler's list of dependencies.
//!
//! Asked for the dependencies of a source, the compiler prints a rule: the
//! object, a colon, and the files that the object depends on, divided by
//! white space, with a backslash before each line break. The headers among
//! them are the words that end in `.h` or in `.hpp`.

use vstd::prelude::*;
use crate::bytes::{bytes_of, ends_with, slice, views};

verus! {

/// Whether a byte is white space: a space, a tab, a line feed, a form feed
/// or a carriage return.
pub open spec fn is_whitespace(b: u8) -> bool {
    b == 32 || b == 9 || b == 10 || b == 12 || b == 13
}

/// Tells whether a byte is white space.
pub fn whitespace(b: u8) -> (r: bool)
    ensures
        r == is_whitespace(b),
{
    b == 32 || b == 9 || b == 10 || b == 12 || b == 13
}

/// Where the word that begins at `from` ends: at the first white space from
/// there on, or at the end of the text.
pub open spec fn word_end(text: Seq<u8>, from: int) -> int
    decreases text.len() - from,
{
    if from < 0 || from >= text.len() || is_whitespace(text[from]) {
        from
    } else {
        word_end(text, from + 1)
    }
}

/// A word reaches from its beginning to white space or to the end of the
/// text, with no white space in it.
pub proof fn lemma_word_end(text: Seq<u8>, from: int)
    requires
        0 <= from <= text.len(),
    ensures
        from <= word_end(text, from) <= text.len(),
        word_end(text, from) < text.len() ==> is_whitespace(text[word_end(text, from)]),
        forall|j: int| from <= j < word_end(text, from) ==> !is_whitespace(#[trigger] text[j]),
        from < text.len() && !is_whitespace(text[from]) ==> from < word_end(text, from),
    decreases text.len() - from,
{
    if from < text.len() && !is_whitespace(text[from]) {
        lemma_word_end(text, from + 1);
    }
}

/// The words of the text from `from` on, in order.
pub open spec fn words(text: Seq<u8>, from: int) -> Seq<Seq<u8>>
    decreases text.len() - from,
    via words_decreases
{
    if from < 0 || from >= text.len() {
        Seq::empty()
    } else if is_whitespace(text[from]) {
        words(text, from + 1)
    } else {
        seq![text.subrange(from, word_end(text, from))] + words(text, word_end(text, from))
    }
}

#[via_fn]
proof fn words_decreases(text: Seq<u8>, from: int) {
    if 0 <= from < text.len() {
        lemma_word_end(text, from);
    }
}

/// Whether a word names a header: it ends in `.h` or in `.hpp`.
pub open spec fn is_header_name(word: Seq<u8>) -> bool {
    bytes_of(".h").is_suffix_of(word) || bytes_of(".hpp").is_suffix_of(word)
}

/// Tells whether a word names a header.
pub fn filter_headers(item: &[u8]) -> (r: bool)
    ensures
        r == is_header_name(item@),
{
    ends_with(item, ".h".as_bytes()) || ends_with(item, ".hpp".as_bytes())
}

/// The headers among the words of the text from `from` on, in order.
pub open spec fn headers_from(text: Seq<u8>, from: int) -> Seq<Seq<u8>>
    decreases text.len() - from,
    via headers_from_decreases
{
    if from < 0 || from >= text.len() {
        Seq::empty()
    } else if is_whitespace(text[from]) {
        headers_from(text, from + 1)
    } else {
        let word = text.subrange(from, word_end(text, from));
        if is_header_name(word) {
            seq![word] + headers_from(text, word_end(text, from))
        } else {
            headers_from(text, word_end(text, from))
        }
    }
}

#[via_fn]
proof fn headers_from_decreases(text: Seq<u8>, from: int) {
    if 0 <= from < text.len() {
        lemma_word_end(text, from);
    }
}

/// The headers that a compiler's list of dependencies names, in the order
/// of the list.
pub open spec fn headers_of(text: Seq<u8>) -> Seq<Seq<u8>> {
    headers_from(text, 0)
}

/// The headers of a text are its words that name a header, all of them and
/// in their order.
pub proof fn lemma_headers_are_words(text: Seq<u8>, from: int)
    ensures
        headers_from(text, from) == words(text, from).filter(|word: Seq<u8>| is_header_name(word)),
    decreases text.len() - from,
{
    let named = |word: Seq<u8>| is_header_name(word);
    if from < 0 || from >= text.len() {
        assert(words(text, from).filter(named) =~= Seq::<Seq<u8>>::empty()) by {
            reveal(Seq::filter);
        }
    } else if is_whitespace(text[from]) {
        lemma_headers_are_words(text, from + 1);
    } else {
        lemma_word_end(text, from);
        let end = word_end(text, from);
        let word = text.subrange(from, end);
        lemma_headers_are_words(text, end);
        Seq::filter_distributes_over_add(seq![word], words(text, end), named);
        let none = Seq::<Seq<u8>>::empty();
        assert(none.filter(named) =~= none) by {
            reveal(Seq::filter);
        }
        none.lemma_filter_push(word, named);
        assert(none.push(word) =~= seq![word]);
        assert(Seq::<Seq<u8>>::empty() + headers_from(text, end) =~= headers_from(text, end));
    }
}

/// Goes through a compiler's list of dependencies and hands out the headers
/// in it, one at a time.
#[derive(Debug)]
pub struct HeaderExtractor {
    text: Vec<u8>,
    position: usize,
}

impl HeaderExtractor {
    /// The headers that are still to come, in order.
    pub closed spec fn remaining(&self) -> Seq<Seq<u8>> {
        headers_from(self.text@, self.position as int)
    }

    /// Starts at the beginning of `text`: every header of it is still to
    /// come.
    pub fn new(text: Vec<u8>) -> (r: HeaderExtractor)
        ensures
            r.remaining() == headers_of(text@),
    {
        HeaderExtractor { text, position: 0 }
    }

    /// Hands out the next header, or nothing when none is left.
    pub fn next(&mut self) -> (r: Option<Vec<u8>>)
        ensures
            match r {
                Some(header) => old(self).remaining().len() > 0 && header@ == old(self).remaining()[0]
                    && final(self).remaining() == old(self).remaining().skip(1),
                None => old(self).remaining().len() == 0 && final(self).remaining().len() == 0,
            },
    {
        let ghost all = self.remaining();
        let len: usize = self.text.len();
        loop
            invariant
                len == self.text.len(),
                self.text@ == old(self).text@,
                all == old(self).remaining(),
                headers_from(self.text@, self.position as int) == all,
            decreases len - self.position,
        {
            if self.position >= len {
                return None;
            }
            if whitespace(self.text[self.position]) {
                self.position += 1;
            } else {
                let start: usize = self.position;
                proof {
                    lemma_word_end(self.text@, start as int);
                }
                while self.position < len && !whitespace(self.text[self.position])
                    invariant
                        len == self.text.len(),
                        self.text@ == old(self).text@,
                        start <= self.position <= len,
                        start < len,
                        !is_whitespace(self.text@[start as int]),
                        headers_from(self.text@, start as int) == all,
                        word_end(self.text@, start as int) == word_end(self.text@, self.position as int),
                    decreases len - self.position,
                {
                    self.position += 1;
                }
                let word = slice(self.text.as_slice(), start, self.position);
                if filter_headers(word.as_slice()) {
                    assert(all.skip(1) =~= headers_from(self.text@, self.position as int));
                    return Some(word);
                }
            }
        }
    }
}

/// Reads all the headers out of a compiler's list of dependencies.
pub fn extract_headers(text: Vec<u8>) -> (r: Vec<Vec<u8>>)
    ensures
        views(r@) == headers_of(text@),
{
    let ghost all = headers_of(text@);
    let mut extractor = HeaderExtractor::new(text);
    let mut r: Vec<Vec<u8>> = Vec::new();
    loop
        invariant
            all == headers_of(text@),
            views(r@) + extractor.remaining() == all,
        decreases extractor.remaining().len(),
    {
        let ghost before = extractor.remaining();
        match extractor.next() {
            Some(header) => {
                let ghost found = views(r@);
                r.push(header);
                assert(views(r@) =~= found.push(before[0]));
                assert(views(r@) + extractor.remaining() =~= found + before);
            },
            None => {
                assert(views(r@) + before =~= views(r@));
                return r;
            },
        }
    }
}

} // verus!
