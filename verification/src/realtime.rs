//! What is counted of the data that arrives while a service runs, how well
//! the service kept up with it, and the buffer of what arrived last.
//!
//! Complexities that are fractions are given as the counts they are made
//! of.

use crate::ranking::tally;
use crate::recent::appended;
use crate::text::{
    char_is_alphanumeric, chars_of, decimal, is_alphanumeric, lowercased, pieces, push_decimal,
    split_on, split_words, string_of, string_views, to_lowercase, views, words,
};
use vstd::prelude::*;
use vstd::string::StringSliceAdditionalSpecFns;

verus! {

/// The most items that the buffer keeps.
pub const MAX_BUFFERED: usize = 1000;

/// What processing one item found. What the counts are of depends on the
/// kind of item.
#[derive(Debug)]
pub struct ProcessingResult {
    pub status: String,
    pub word_count: usize,
    pub processing_notes: Vec<String>,
    /// The counts that the complexity is worked out from.
    pub measure: ComplexityCounts,
}

/// The counts that a complexity is worked out from.
#[derive(Clone, Copy, Debug, PartialEq, Eq, Structural)]
pub enum ComplexityCounts {
    /// For a message: the bytes of all its words, the number of its words,
    /// and the number of its different words. The complexity is
    /// `(bytes / words) * (different / words)`, and zero without words.
    Message { bytes: u128, words: usize, different: usize },
    /// For a text: its characters, words and sentences. The complexity is
    /// `(characters / words) * (sentences / words)`, and zero without words.
    Text { characters: usize, words: usize, sentences: usize },
    /// For other data: its length in bytes. The complexity is a hundredth
    /// of it.
    Generic { length: usize },
}

/// The word for how well a service kept up with an item of `content_length`
/// bytes that took `processing_millis` milliseconds: by the bytes for each
/// millisecond, `excellent` above a thousand, `good` above five hundred,
/// `fair` above a hundred, else `poor`, and `poor` for no time at all.
pub open spec fn quality_word(processing_millis: u128, content_length: usize) -> Seq<char> {
    if processing_millis == 0 {
        "poor"@
    } else if content_length > 1000 * processing_millis {
        "excellent"@
    } else if content_length > 500 * processing_millis {
        "good"@
    } else if content_length > 100 * processing_millis {
        "fair"@
    } else {
        "poor"@
    }
}

/// How well a service kept up with an item.
pub fn determine_quality(processing_millis: u128, content_length: usize) -> (quality: String)
    ensures
        quality@ == quality_word(processing_millis, content_length),
{
    if processing_millis == 0 || processing_millis > usize::MAX as u128 {
        "poor".to_owned()
    } else if content_length as u128 > 1000 * processing_millis {
        "excellent".to_owned()
    } else if content_length as u128 > 500 * processing_millis {
        "good".to_owned()
    } else if content_length as u128 > 100 * processing_millis {
        "fair".to_owned()
    } else {
        "poor".to_owned()
    }
}

/// A word of a message as it is counted: in lower case, and without the
/// characters that are neither letters nor digits.
pub open spec fn cleaned(word: Seq<char>) -> Seq<char> {
    letters_of(lowercased(word))
}

/// The letters and digits of a text.
pub open spec fn letters_of(s: Seq<char>) -> Seq<char>
    decreases s.len(),
{
    if s.len() == 0 {
        Seq::empty()
    } else if is_alphanumeric(s.last()) {
        letters_of(s.drop_last()).push(s.last())
    } else {
        letters_of(s.drop_last())
    }
}

/// The words of a message as they are counted.
pub open spec fn cleaned_words(content: Seq<char>) -> Seq<Seq<char>> {
    Seq::new(words(content).len(), |i: int| cleaned(words(content)[i]))
}

/// The bytes of some words, added up.
pub open spec fn total_bytes(parts: Seq<Seq<char>>) -> nat
    decreases parts.len(),
{
    if parts.len() == 0 {
        0
    } else {
        total_bytes(parts.drop_last()) + vstd::utf8::encode_utf8(parts.last()).len()
    }
}

fn clean(word: &[char]) -> (tidy: String)
    ensures
        tidy@ == cleaned(word@),
{
    let lower = to_lowercase(string_of(word).as_str());
    let chars = chars_of(lower.as_str());
    let mut kept: Vec<char> = Vec::new();
    let mut i: usize = 0;
    while i < chars.len()
        invariant
            i <= chars@.len(),
            kept@ == letters_of(chars@.take(i as int)),
        decreases chars@.len() - i,
    {
        proof {
            assert(chars@.take(i + 1).drop_last() =~= chars@.take(i as int));
        }
        if char_is_alphanumeric(chars[i]) {
            kept.push(chars[i]);
        }
        i = i + 1;
    }
    assert(chars@.take(i as int) =~= chars@);
    string_of(kept.as_slice())
}

/// Processes a message: its words are cleaned and counted.
pub fn process_telegram_message(content: &str) -> (result: ProcessingResult)
    ensures
        result.status@ == "processed"@,
        result.word_count == words(content@).len(),
        string_views(result.processing_notes@) == seq!["NLP processing completed"@],
        result.measure == (ComplexityCounts::Message {
            bytes: total_bytes(cleaned_words(content@)) as u128,
            words: words(content@).len() as usize,
            different: cleaned_words(content@).to_set().len() as usize,
        }),
{
    let chars = chars_of(content);
    let found = split_words(chars.as_slice());
    let mut tidy: Vec<String> = Vec::new();
    let mut bytes: u128 = 0;
    let mut i: usize = 0;
    assert(string_views(tidy@) =~= cleaned_words(content@).take(0));
    while i < found.len()
        invariant
            i <= found@.len(),
            views(found@) == words(content@),
            string_views(tidy@) == cleaned_words(content@).take(i as int),
            bytes == total_bytes(cleaned_words(content@).take(i as int)),
            bytes <= i * usize::MAX,
        decreases found@.len() - i,
    {
        let word = clean(found[i].as_slice());
        proof {
            let all = cleaned_words(content@);
            assert(views(found@)[i as int] == found@[i as int]@);
            assert(all.take(i + 1).drop_last() =~= all.take(i as int));
            assert(all.take(i + 1).last() == word@);
            assert((i + 1) * usize::MAX == i * usize::MAX + usize::MAX) by (nonlinear_arith);
            assert(i * usize::MAX + usize::MAX <= usize::MAX * usize::MAX + usize::MAX) by (nonlinear_arith)
                requires
                    i <= usize::MAX,
            ;
        }
        bytes = bytes + word.as_str().as_bytes().len() as u128;
        let ghost before = string_views(tidy@);
        tidy.push(word);
        assert(string_views(tidy@) =~= before.push(word@));
        i = i + 1;
    }
    proof {
        let all = cleaned_words(content@);
        assert(all.take(i as int) =~= all);
        assert(views(found@).len() == found@.len());
    }
    let counts = tally(&tidy);
    proof {
        counts.lemma_slots_are_the_map();
        assert(counts@.dom() =~= string_views(tidy@).to_set());
    }
    let mut notes: Vec<String> = Vec::new();
    notes.push("NLP processing completed".to_owned());
    assert(string_views(notes@) =~= seq!["NLP processing completed"@]);
    ProcessingResult {
        status: "processed".to_owned(),
        word_count: found.len(),
        processing_notes: notes,
        measure: ComplexityCounts::Message { bytes, words: found.len(), different: counts.len() },
    }
}

/// The notes on a text with the given counts.
pub open spec fn text_notes(characters: nat, word_count: nat, sentence_count: nat) -> Seq<Seq<char>> {
    seq![
        "Characters: "@ + decimal(characters),
        "Words: "@ + decimal(word_count),
        "Sentences: "@ + decimal(sentence_count),
        "Text analysis completed"@,
    ]
}

/// Processes a text: its characters, words and sentences are counted.
pub fn process_text_data(content: &str) -> (result: ProcessingResult)
    ensures
        result.status@ == "processed"@,
        result.word_count == words(content@).len(),
        string_views(result.processing_notes@) == text_notes(
            content@.len(),
            words(content@).len(),
            pieces(content@, seq!['.', '!', '?']).len(),
        ),
        result.measure == (ComplexityCounts::Text {
            characters: content@.len() as usize,
            words: words(content@).len() as usize,
            sentences: pieces(content@, seq!['.', '!', '?']).len() as usize,
        }),
{
    let chars = chars_of(content);
    let found = split_words(chars.as_slice());
    let ends: [char; 3] = ['.', '!', '?'];
    assert(ends@ =~= seq!['.', '!', '?']);
    let parts = split_on(chars.as_slice(), ends.as_slice());
    assert(views(found@).len() == found@.len());
    assert(views(parts@).len() == parts@.len());
    let mut notes: Vec<String> = Vec::new();
    let mut note = "Characters: ".to_owned();
    push_decimal(&mut note, chars.len() as u64);
    notes.push(note);
    let mut note = "Words: ".to_owned();
    push_decimal(&mut note, found.len() as u64);
    notes.push(note);
    let mut note = "Sentences: ".to_owned();
    push_decimal(&mut note, parts.len() as u64);
    notes.push(note);
    notes.push("Text analysis completed".to_owned());
    assert(string_views(notes@) =~= text_notes(
        content@.len(),
        words(content@).len(),
        pieces(content@, seq!['.', '!', '?']).len(),
    ));
    ProcessingResult {
        status: "processed".to_owned(),
        word_count: found.len(),
        processing_notes: notes,
        measure: ComplexityCounts::Text { characters: chars.len(), words: found.len(), sentences: parts.len() },
    }
}

/// Processes data of no special kind: its bytes are counted.
pub fn process_generic_data(content: &str) -> (result: ProcessingResult)
    ensures
        result.status@ == "processed"@,
        result.word_count == content.spec_bytes().len(),
        string_views(result.processing_notes@) == seq!["Generic processing completed"@],
        result.measure == (ComplexityCounts::Generic { length: content.spec_bytes().len() as usize }),
{
    let bytes = content.as_bytes().len();
    let mut notes: Vec<String> = Vec::new();
    notes.push("Generic processing completed".to_owned());
    assert(string_views(notes@) =~= seq!["Generic processing completed"@]);
    ProcessingResult {
        status: "processed".to_owned(),
        word_count: bytes,
        processing_notes: notes,
        measure: ComplexityCounts::Generic { length: bytes },
    }
}

/// The items that arrived last, the oldest first.
pub struct DataBuffer<T> {
    items: Vec<T>,
}

impl<T> DataBuffer<T> {
    /// The items, the oldest first.
    pub closed spec fn items(&self) -> Seq<T> {
        self.items@
    }

    /// The buffer holds no more than `MAX_BUFFERED` items.
    pub closed spec fn well_formed(&self) -> bool {
        self.items@.len() <= MAX_BUFFERED
    }

    /// An empty buffer.
    pub fn new() -> (buffer: Self)
        ensures
            buffer.well_formed(),
            buffer.items() == Seq::<T>::empty(),
    {
        DataBuffer { items: Vec::new() }
    }

    /// Adds an item. The oldest item leaves where the buffer is full.
    pub fn push(&mut self, item: T)
        requires
            old(self).well_formed(),
        ensures
            final(self).well_formed(),
            final(self).items() == appended(old(self).items(), item, MAX_BUFFERED as nat),
    {
        self.items.push(item);
        if self.items.len() > MAX_BUFFERED {
            let ghost all = self.items@;
            let _ = self.items.remove(0);
            assert(self.items@ =~= all.skip(1));
        }
    }

    /// Empties the buffer.
    pub fn clear(&mut self)
        ensures
            final(self).well_formed(),
            final(self).items() == Seq::<T>::empty(),
    {
        self.items.clear();
    }

    /// The number of items in the buffer.
    pub fn len(&self) -> (size: usize)
        ensures
            size == self.items().len(),
    {
        self.items.len()
    }

    /// The item at a position, counted from the oldest.
    pub fn item_at(&self, i: usize) -> (item: &T)
        requires
            i < self.items().len(),
        ensures
            *item == self.items()[i as int],
    {
        &self.items[i]
    }
}

/// Empties a buffer.
pub fn clear_data_buffer<T>(buffer: &mut DataBuffer<T>)
    ensures
        final(buffer).well_formed(),
        final(buffer).items() == Seq::<T>::empty(),
{
    buffer.clear()
}

/// The number of items in a buffer.
pub fn get_buffer_size<T>(buffer: &DataBuffer<T>) -> (size: usize)
    ensures
        size == buffer.items().len(),
{
    buffer.len()
}

} // verus!
