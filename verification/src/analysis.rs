//! What can be read off a text by counting: its mood, its keywords and
//! topics, the names in it, a summary, and how it scans.
//!
//! Scores that are fractions are given as the counts they are made of, or in
//! thousandths where they are fixed.

use crate::clock::millis_since;
use crate::numeric::{is_number, is_numeric};
use crate::pattern::{count_pieces, find_all, regex_found, regex_pieces};
use crate::ranking::{is_ranking, names_of, tally, tally_of, top};
use crate::ratio::Ratio;
use crate::text::{
    chars_of, contains_text, fields, holds_text, lowercased, pieces, same_text, select,
    split_fields, split_on, split_words, string_of, string_views, to_lowercase, trim, trimmed,
    unicode_word_list, unicode_words, views, words,
};
use std::time::Instant;
use vstd::prelude::*;
use vstd::utf8::encode_utf8;

verus! {

/// The words that speak for a good mood.
pub open spec fn positive_words() -> Seq<Seq<char>> {
    seq![
        "خوب"@,
        "عالی"@,
        "عالیه"@,
        "ممتاز"@,
        "good"@,
        "great"@,
        "excellent"@,
        "amazing"@,
        "wonderful"@,
        "fantastic"@,
        "perfect"@,
        "beautiful"@,
        "nice"@,
        "lovely"@,
        "happy"@,
        "joy"@,
        "love"@,
        "like"@,
        "enjoy"@,
        "brilliant"@,
        "outstanding"@,
        "superb"@,
        "magnificent"@,
        "delightful"@,
        "pleased"@,
    ]
}

/// The words that speak for a bad mood.
pub open spec fn negative_words() -> Seq<Seq<char>> {
    seq![
        "بد"@,
        "بدی"@,
        "بدیه"@,
        "bad"@,
        "terrible"@,
        "awful"@,
        "horrible"@,
        "disgusting"@,
        "hate"@,
        "dislike"@,
        "sad"@,
        "angry"@,
        "furious"@,
        "upset"@,
        "disappointed"@,
        "worried"@,
        "scared"@,
        "dreadful"@,
        "atrocious"@,
        "abysmal"@,
        "appalling"@,
        "repulsive"@,
        "revolting"@,
    ]
}

/// How many of `words` stand in `list`.
pub open spec fn count_in(words: Seq<Seq<char>>, list: Seq<Seq<char>>) -> nat
    decreases words.len(),
{
    if words.len() == 0 {
        0
    } else {
        count_in(words.drop_last(), list) + if list.contains(words.last()) {
            1nat
        } else {
            0nat
        }
    }
}

/// The mood for a number of good and of bad words: `positive` where the good
/// outnumber the bad by more than a fifth of all of them, `negative` where
/// the bad outnumber the good by more than that, else `neutral`.
pub open spec fn mood(positive: nat, negative: nat) -> Seq<char> {
    if 5 * (positive - negative) > positive + negative {
        "positive"@
    } else if 5 * (negative - positive) > positive + negative {
        "negative"@
    } else {
        "neutral"@
    }
}

/// The mood of a text, with the counts it was decided from. The score of
/// the mood is `(positive - negative) / (positive + negative)`, and zero
/// where both are zero.
#[derive(Debug)]
pub struct Sentiment {
    pub label: String,
    pub positive: usize,
    pub negative: usize,
}

fn word_list(words: &[&str]) -> (list: Vec<String>)
    ensures
        list@.len() == words@.len(),
        forall|i: int| 0 <= i < list@.len() ==> (#[trigger] list@[i])@ == words@[i]@,
{
    let mut list: Vec<String> = Vec::new();
    let mut i: usize = 0;
    while i < words.len()
        invariant
            i <= words@.len(),
            list@.len() == i,
            forall|j: int| 0 <= j < i ==> (#[trigger] list@[j])@ == words@[j]@,
        decreases words@.len() - i,
    {
        list.push(words[i].to_owned());
        i = i + 1;
    }
    list
}

fn positive_word_list() -> (list: Vec<String>)
    ensures
        string_views(list@) == positive_words(),
{
    let words: [&str; 25] = [
        "خوب",
        "عالی",
        "عالیه",
        "ممتاز",
        "good",
        "great",
        "excellent",
        "amazing",
        "wonderful",
        "fantastic",
        "perfect",
        "beautiful",
        "nice",
        "lovely",
        "happy",
        "joy",
        "love",
        "like",
        "enjoy",
        "brilliant",
        "outstanding",
        "superb",
        "magnificent",
        "delightful",
        "pleased",
    ];
    let list = word_list(words.as_slice());
    assert(string_views(list@) =~= positive_words());
    list
}

fn negative_word_list() -> (list: Vec<String>)
    ensures
        string_views(list@) == negative_words(),
{
    let words: [&str; 23] = [
        "بد",
        "بدی",
        "بدیه",
        "bad",
        "terrible",
        "awful",
        "horrible",
        "disgusting",
        "hate",
        "dislike",
        "sad",
        "angry",
        "furious",
        "upset",
        "disappointed",
        "worried",
        "scared",
        "dreadful",
        "atrocious",
        "abysmal",
        "appalling",
        "repulsive",
        "revolting",
    ];
    let list = word_list(words.as_slice());
    assert(string_views(list@) =~= negative_words());
    list
}

/// Whether `word` is one of `list`.
pub fn is_listed(list: &Vec<String>, word: &str) -> (found: bool)
    ensures
        found == string_views(list@).contains(word@),
{
    let mut i: usize = 0;
    while i < list.len()
        invariant
            i <= list@.len(),
            forall|j: int| 0 <= j < i ==> string_views(list@)[j] != word@,
        decreases list@.len() - i,
    {
        if same_text(list[i].as_str(), word) {
            assert(string_views(list@)[i as int] == word@);
            return true;
        }
        i = i + 1;
    }
    false
}

fn count_listed(words: &Vec<String>, list: &Vec<String>) -> (count: usize)
    ensures
        count == count_in(string_views(words@), string_views(list@)),
        count <= words@.len(),
{
    let mut count: usize = 0;
    let mut i: usize = 0;
    while i < words.len()
        invariant
            i <= words@.len(),
            count <= i,
            count == count_in(string_views(words@).take(i as int), string_views(list@)),
        decreases words@.len() - i,
    {
        proof {
            assert(string_views(words@).take(i + 1).drop_last() =~= string_views(words@).take(i as int));
        }
        if is_listed(list, words[i].as_str()) {
            count = count + 1;
        }
        i = i + 1;
    }
    assert(string_views(words@).take(i as int) =~= string_views(words@));
    count
}

/// The mood of a text: its words in lower case are counted against the
/// lists of good and of bad words.
pub fn analyze_sentiment_advanced(text: &str) -> (sentiment: Sentiment)
    ensures
        sentiment.positive == count_in(unicode_word_list(lowercased(text@)), positive_words()),
        sentiment.negative == count_in(unicode_word_list(lowercased(text@)), negative_words()),
        sentiment.label@ == mood(sentiment.positive as nat, sentiment.negative as nat),
{
    let lower = to_lowercase(text);
    let found = unicode_words(lower.as_str());
    let positive = count_listed(&found, &positive_word_list());
    let negative = count_listed(&found, &negative_word_list());
    let (p, n) = (positive as i128, negative as i128);
    let label = if 5 * (p - n) > p + n {
        "positive".to_owned()
    } else if 5 * (n - p) > p + n {
        "negative".to_owned()
    } else {
        "neutral".to_owned()
    };
    Sentiment { label, positive, negative }
}

/// Whether a character is one of `a`, `e`, `i`, `o`, `u` and `y`.
pub open spec fn is_vowel(c: char) -> bool {
    c == 'a' || c == 'e' || c == 'i' || c == 'o' || c == 'u' || c == 'y'
}

/// The number of runs of vowels in a word.
pub open spec fn vowel_runs(word: Seq<char>) -> nat
    decreases word.len(),
{
    if word.len() == 0 {
        0
    } else {
        vowel_runs(word.drop_last()) + if is_vowel(word.last()) && (word.len() == 1 || !is_vowel(
            word[word.len() - 2],
        )) {
            1nat
        } else {
            0nat
        }
    }
}

/// The syllables of a word: the runs of vowels in its lower-case form, and
/// one where there is none.
pub open spec fn word_syllables(word: Seq<char>) -> nat {
    if vowel_runs(lowercased(word)) < 1 {
        1
    } else {
        vowel_runs(lowercased(word))
    }
}

/// The syllables of some words, added up.
pub open spec fn syllables(words: Seq<Seq<char>>) -> nat
    decreases words.len(),
{
    if words.len() == 0 {
        0
    } else {
        syllables(words.drop_last()) + word_syllables(words.last())
    }
}

fn syllables_of(word: &str) -> (count: usize)
    ensures
        count == word_syllables(word@),
{
    let lower = to_lowercase(word);
    let chars = chars_of(lower.as_str());
    let mut count: usize = 0;
    let mut before = false;
    let mut i: usize = 0;
    while i < chars.len()
        invariant
            i <= chars@.len(),
            count <= i,
            count == vowel_runs(chars@.take(i as int)),
            before == (i > 0 && is_vowel(chars@[i - 1])),
        decreases chars@.len() - i,
    {
        let c = chars[i];
        proof {
            assert(chars@.take(i + 1).drop_last() =~= chars@.take(i as int));
        }
        let vowel = c == 'a' || c == 'e' || c == 'i' || c == 'o' || c == 'u' || c == 'y';
        if vowel && !before {
            count = count + 1;
        }
        before = vowel;
        i = i + 1;
    }
    assert(chars@.take(i as int) =~= chars@);
    if count < 1 {
        1
    } else {
        count
    }
}

/// The syllables of a text, counted word by word.
pub fn count_syllables(text: &str) -> (count: u128)
    ensures
        count == syllables(unicode_word_list(text@)),
{
    let found = unicode_words(text);
    let mut count: u128 = 0;
    let mut i: usize = 0;
    while i < found.len()
        invariant
            i <= found@.len(),
            count == syllables(string_views(found@).take(i as int)),
            count <= i * usize::MAX,
        decreases found@.len() - i,
    {
        proof {
            assert(string_views(found@).take(i + 1).drop_last() =~= string_views(found@).take(i as int));
            assert((i + 1) * usize::MAX == i * usize::MAX + usize::MAX) by (nonlinear_arith);
            assert(i * usize::MAX + usize::MAX <= usize::MAX * usize::MAX + usize::MAX) by (nonlinear_arith)
                requires
                    i <= usize::MAX,
            ;
        }
        count = count + syllables_of(found[i].as_str()) as u128;
        i = i + 1;
    }
    assert(string_views(found@).take(i as int) =~= string_views(found@));
    count
}

/// The turns of phrase that many texts share.
pub open spec fn common_phrases() -> Seq<Seq<char>> {
    seq![
        "in conclusion"@,
        "as a result"@,
        "it is important"@,
        "this shows"@,
        "according to"@,
        "research shows"@,
        "studies indicate"@,
        "it can be seen"@,
        "in addition"@,
        "furthermore"@,
        "moreover"@,
        "however"@,
        "nevertheless"@,
    ]
}

/// How many of `phrases` stand in `text`.
pub open spec fn phrases_in(text: Seq<char>, phrases: Seq<Seq<char>>) -> nat
    decreases phrases.len(),
{
    if phrases.len() == 0 {
        0
    } else {
        phrases_in(text, phrases.drop_last()) + if holds_text(text, phrases.last()) {
            1nat
        } else {
            0nat
        }
    }
}

/// How much of a text is turns of phrase that many texts share, in tenths:
/// one tenth for each common phrase that stands in the text in lower case,
/// and no more than ten.
pub fn detect_plagiarism(text: &str) -> (tenths: u32)
    ensures
        tenths == (if phrases_in(lowercased(text@), common_phrases()) > 10 {
            10
        } else {
            phrases_in(lowercased(text@), common_phrases())
        }),
{
    let phrases: [&str; 13] = [
        "in conclusion",
        "as a result",
        "it is important",
        "this shows",
        "according to",
        "research shows",
        "studies indicate",
        "it can be seen",
        "in addition",
        "furthermore",
        "moreover",
        "however",
        "nevertheless",
    ];
    let list = word_list(phrases.as_slice());
    assert(string_views(list@) =~= common_phrases());
    let lower = to_lowercase(text);
    let chars = chars_of(lower.as_str());
    let mut found: u32 = 0;
    let mut i: usize = 0;
    while i < list.len()
        invariant
            i <= list@.len(),
            list@.len() == 13,
            found <= i,
            found == phrases_in(chars@, string_views(list@).take(i as int)),
        decreases list@.len() - i,
    {
        proof {
            assert(string_views(list@).take(i + 1).drop_last() =~= string_views(list@).take(i as int));
        }
        let phrase = chars_of(list[i].as_str());
        if contains_text(chars.as_slice(), phrase.as_slice()) {
            found = found + 1;
        }
        i = i + 1;
    }
    assert(string_views(list@).take(i as int) =~= string_views(list@));
    if found > 10 {
        10
    } else {
        found
    }
}

/// Something that a text names.
#[derive(Debug)]
pub struct Entity {
    pub name: String,
    /// `PERSON`, `EMAIL`, `URL` or `PHONE`.
    pub entity_type: String,
    /// In thousandths.
    pub confidence: u32,
}

/// An entity with its texts as sequences of characters.
pub struct EntityView {
    pub name: Seq<char>,
    pub entity_type: Seq<char>,
    pub confidence: u32,
}

impl View for Entity {
    type V = EntityView;

    open spec fn view(&self) -> EntityView {
        EntityView { name: self.name@, entity_type: self.entity_type@, confidence: self.confidence }
    }
}

/// The views of the entities of a list.
pub open spec fn entity_views(entities: Seq<Entity>) -> Seq<EntityView> {
    Seq::new(entities.len(), |i: int| entities[i]@)
}

/// The regular expression for the names of persons: two capitalised words.
pub open spec fn person_pattern() -> Seq<char> {
    "\\b[A-Z][a-z]+ [A-Z][a-z]+\\b"@
}

/// The regular expression for e-mail addresses in a text.
pub open spec fn address_pattern() -> Seq<char> {
    "\\b[A-Za-z0-9._%+-]+@[A-Za-z0-9.-]+\\.[A-Z|a-z]{2,}\\b"@
}

/// The regular expression for web addresses.
pub open spec fn url_pattern() -> Seq<char> {
    "https?://[^\\s]+"@
}

/// The regular expression for telephone numbers of ten digits.
pub open spec fn phone_pattern() -> Seq<char> {
    "\\b\\d{3}[-.]?\\d{3}[-.]?\\d{4}\\b"@
}

/// The entities of one kind: one for each match of the pattern.
pub open spec fn entities_of(text: Seq<char>, pattern: Seq<char>, kind: Seq<char>, confidence: u32) -> Seq<
    EntityView,
> {
    match regex_found(pattern, text) {
        Some(found) => Seq::new(
            found.len(),
            |i: int| EntityView { name: found[i], entity_type: kind, confidence },
        ),
        None => Seq::empty(),
    }
}

/// The entities of a text: persons, then e-mail addresses, then web
/// addresses, then telephone numbers, each kind from the left.
pub open spec fn entities_in(text: Seq<char>) -> Seq<EntityView> {
    entities_of(text, person_pattern(), "PERSON"@, 800) + entities_of(text, address_pattern(), "EMAIL"@, 950)
        + entities_of(text, url_pattern(), "URL"@, 900) + entities_of(text, phone_pattern(), "PHONE"@, 850)
}

fn push_entities(entities: &mut Vec<Entity>, text: &str, pattern: &str, kind: &str, confidence: u32)
    ensures
        entity_views(final(entities)@) == entity_views(old(entities)@) + entities_of(
            text@,
            pattern@,
            kind@,
            confidence,
        ),
{
    let ghost start = entity_views(entities@);
    match find_all(pattern, text) {
        Some(found) => {
            let mut i: usize = 0;
            assert(entity_views(entities@) =~= start + entities_of(text@, pattern@, kind@, confidence).take(0));
            while i < found.len()
                invariant
                    i <= found@.len(),
                    regex_found(pattern@, text@) == Some(string_views(found@)),
                    entity_views(entities@) == start + entities_of(text@, pattern@, kind@, confidence).take(
                        i as int,
                    ),
                decreases found@.len() - i,
            {
                let entity = Entity { name: found[i].clone(), entity_type: kind.to_owned(), confidence };
                let ghost before = entity_views(entities@);
                entities.push(entity);
                proof {
                    let all = entities_of(text@, pattern@, kind@, confidence);
                    assert(entity_views(entities@) =~= before.push(entity@));
                    assert(all[i as int] == entity@);
                    assert(all.take(i + 1) =~= all.take(i as int).push(entity@));
                    assert(before.push(entity@) =~= start + all.take(i + 1));
                }
                i = i + 1;
            }
            proof {
                let all = entities_of(text@, pattern@, kind@, confidence);
                assert(all.take(i as int) =~= all);
            }
        },
        None => {
            assert(start + entities_of(text@, pattern@, kind@, confidence) =~= start);
        },
    }
}

/// The persons, e-mail addresses, web addresses and telephone numbers that
/// a text names.
pub fn extract_entities(text: &str) -> (entities: Vec<Entity>)
    ensures
        entity_views(entities@) == entities_in(text@),
{
    let mut entities: Vec<Entity> = Vec::new();
    assert(entity_views(entities@) =~= Seq::<EntityView>::empty());
    push_entities(&mut entities, text, "\\b[A-Z][a-z]+ [A-Z][a-z]+\\b", "PERSON", 800);
    push_entities(&mut entities, text, "\\b[A-Za-z0-9._%+-]+@[A-Za-z0-9.-]+\\.[A-Z|a-z]{2,}\\b", "EMAIL", 950);
    push_entities(&mut entities, text, "https?://[^\\s]+", "URL", 900);
    push_entities(&mut entities, text, "\\b\\d{3}[-.]?\\d{3}[-.]?\\d{4}\\b", "PHONE", 850);
    assert(entity_views(entities@) =~= entities_in(text@));
    entities
}

/// The characters that end a sentence.
pub open spec fn sentence_ends() -> Seq<char> {
    seq!['.', '!', '?']
}

/// The sentences of a text: its pieces between full stops, exclamation marks
/// and question marks.
pub open spec fn sentences(text: Seq<char>) -> Seq<Seq<char>> {
    pieces(text, sentence_ends())
}

/// The number of words of each sentence.
pub open spec fn word_counts(parts: Seq<Seq<char>>) -> Seq<nat> {
    Seq::new(parts.len(), |i: int| words(parts[i]).len())
}

/// The position of the greatest of `counts`, and of the first of them where
/// several are greatest, not counting the position `skip`; -1 where nothing
/// is left to choose from.
pub open spec fn strongest(counts: Seq<nat>, skip: int) -> int
    decreases counts.len(),
{
    if counts.len() == 0 {
        -1
    } else {
        let before = strongest(counts.drop_last(), skip);
        let last = counts.len() - 1;
        if last == skip {
            before
        } else if before < 0 || counts[last] > counts[before] {
            last
        } else {
            before
        }
    }
}

/// The strongest position is one of the positions, unless none is left.
pub proof fn lemma_strongest(counts: Seq<nat>, skip: int)
    ensures
        -1 <= strongest(counts, skip) < counts.len(),
        strongest(counts, skip) != skip || skip == -1,
        counts.len() >= 2 ==> strongest(counts, skip) >= 0,
        counts.len() >= 1 && !(0 <= skip < counts.len()) ==> strongest(counts, skip) >= 0,
    decreases counts.len(),
{
    if counts.len() > 0 {
        lemma_strongest(counts.drop_last(), skip);
    }
}

/// The summary of a text: the text itself where it has no more than two
/// sentences, else the sentence with the most words and, after a full stop
/// and a space, the one with the most words among the others.
pub open spec fn summary_of(text: Seq<char>) -> Seq<char> {
    let parts = sentences(text);
    if parts.len() <= 2 {
        text
    } else {
        let first = strongest(word_counts(parts), -1);
        let second = strongest(word_counts(parts), first);
        parts[first] + ". "@ + parts[second]
    }
}

fn strongest_of(counts: &Vec<usize>, skip: Option<usize>) -> (best: Option<usize>)
    ensures
        match best {
            Some(i) => i == strongest(naturals(counts@), skip_view(skip)) && i < counts@.len(),
            None => strongest(naturals(counts@), skip_view(skip)) == -1,
        },
{
    let mut best: Option<usize> = None;
    let mut i: usize = 0;
    while i < counts.len()
        invariant
            i <= counts@.len(),
            match best {
                Some(b) => b == strongest(naturals(counts@).take(i as int), skip_view(skip)) && b < i,
                None => strongest(naturals(counts@).take(i as int), skip_view(skip)) == -1,
            },
        decreases counts@.len() - i,
    {
        proof {
            assert(naturals(counts@).take(i + 1).drop_last() =~= naturals(counts@).take(i as int));
        }
        let skipped = match skip {
            Some(s) => s == i,
            None => false,
        };
        if !skipped {
            let better = match best {
                Some(b) => counts[i] > counts[b],
                None => true,
            };
            if better {
                best = Some(i);
            }
        }
        i = i + 1;
    }
    assert(naturals(counts@).take(i as int) =~= naturals(counts@));
    best
}

/// Counts as natural numbers.
pub open spec fn naturals(counts: Seq<usize>) -> Seq<nat> {
    Seq::new(counts.len(), |i: int| counts[i] as nat)
}

/// A position to skip, and -1 for none.
pub open spec fn skip_view(skip: Option<usize>) -> int {
    match skip {
        Some(s) => s as int,
        None => -1,
    }
}

/// A short form of a text: its two longest sentences.
pub fn generate_summary(text: &str) -> (summary: String)
    ensures
        summary@ == summary_of(text@),
{
    let chars = chars_of(text);
    let ends: [char; 3] = ['.', '!', '?'];
    assert(ends@ =~= sentence_ends());
    let parts = split_on(chars.as_slice(), ends.as_slice());
    if parts.len() <= 2 {
        return text.to_owned();
    }
    let mut counts: Vec<usize> = Vec::new();
    let mut i: usize = 0;
    while i < parts.len()
        invariant
            i <= parts@.len(),
            counts@.len() == i,
            forall|j: int| 0 <= j < i ==> counts@[j] == words(#[trigger] parts@[j]@).len(),
        decreases parts@.len() - i,
    {
        let found = split_words(parts[i].as_slice());
        counts.push(found.len());
        i = i + 1;
    }
    assert(naturals(counts@) =~= word_counts(views(parts@)));
    proof {
        lemma_strongest(naturals(counts@), -1);
        lemma_strongest(naturals(counts@), strongest(naturals(counts@), -1));
    }
    let first = match strongest_of(&counts, None) {
        Some(first) => first,
        None => 0,
    };
    let second = match strongest_of(&counts, Some(first)) {
        Some(second) => second,
        None => 0,
    };
    let head = string_of(parts[first].as_slice());
    let rest = string_of(parts[second].as_slice());
    head.concat(". ").concat(rest.as_str())
}

/// The counts that the reading ease of a text is worked out from: its
/// sentences, its words and its syllables. The reading ease is
/// `206.835 - 1.015 * words / sentences - 84.6 * syllables / words`, and zero
/// where there are no words.
#[derive(Clone, Copy, Debug, PartialEq, Eq, Structural)]
pub struct ReadabilityCounts {
    pub sentences: usize,
    pub words: usize,
    pub syllables: u128,
}

/// Counts the sentences, words and syllables of a text.
pub fn calculate_readability(text: &str) -> (counts: ReadabilityCounts)
    ensures
        counts.sentences == sentences(text@).len(),
        counts.sentences >= 1,
        counts.words == unicode_word_list(text@).len(),
        counts.syllables == syllables(unicode_word_list(text@)),
{
    let chars = chars_of(text);
    let ends: [char; 3] = ['.', '!', '?'];
    assert(ends@ =~= sentence_ends());
    let parts = split_on(chars.as_slice(), ends.as_slice());
    let found = unicode_words(text);
    let count = count_syllables(text);
    assert(views(parts@).len() == parts@.len());
    assert(string_views(found@).len() == found@.len());
    ReadabilityCounts { sentences: parts.len(), words: found.len(), syllables: count }
}

/// The words that are too common to be keywords.
pub open spec fn stop_words() -> Seq<Seq<char>> {
    seq![
        "the"@,
        "a"@,
        "an"@,
        "and"@,
        "or"@,
        "but"@,
        "in"@,
        "on"@,
        "at"@,
        "to"@,
        "for"@,
        "of"@,
        "with"@,
        "این"@,
        "آن"@,
        "که"@,
        "را"@,
        "در"@,
        "به"@,
        "از"@,
        "با"@,
        "برای"@,
        "تا"@,
        "یا"@,
        "و"@,
        "اما"@,
    ]
}

/// The words of a text that may be keywords: those of its lower-case form
/// that are no stop words and longer than two bytes.
pub open spec fn keyword_candidates(text: Seq<char>) -> Seq<Seq<char>> {
    select(
        unicode_word_list(lowercased(text)),
        |word: Seq<char>| !stop_words().contains(word) && encode_utf8(word).len() > 2,
    )
}

/// The words of a text that may be topics: those that are longer than three
/// bytes.
pub open spec fn topic_candidates(text: Seq<char>) -> Seq<Seq<char>> {
    select(unicode_word_list(text), |word: Seq<char>| encode_utf8(word).len() > 3)
}

/// The five most frequent keywords of a text, the most frequent first.
/// Among words that are equally frequent the choice and the order are open.
pub fn extract_keywords(text: &str) -> (keywords: Vec<String>)
    ensures
        is_ranking(string_views(keywords@), tally_of(keyword_candidates(text@)), 5),
{
    let stops: [&str; 26] = [
        "the",
        "a",
        "an",
        "and",
        "or",
        "but",
        "in",
        "on",
        "at",
        "to",
        "for",
        "of",
        "with",
        "این",
        "آن",
        "که",
        "را",
        "در",
        "به",
        "از",
        "با",
        "برای",
        "تا",
        "یا",
        "و",
        "اما",
    ];
    let stop_list = word_list(stops.as_slice());
    assert(string_views(stop_list@) =~= stop_words());
    let lower = to_lowercase(text);
    let found = unicode_words(lower.as_str());
    let ghost keep = |word: Seq<char>| !stop_words().contains(word) && encode_utf8(word).len() > 2;
    let mut candidates: Vec<String> = Vec::new();
    let mut i: usize = 0;
    assert(string_views(candidates@) =~= select(string_views(found@).take(0), keep));
    while i < found.len()
        invariant
            i <= found@.len(),
            string_views(stop_list@) == stop_words(),
            keep == |word: Seq<char>| !stop_words().contains(word) && encode_utf8(word).len() > 2,
            string_views(candidates@) == select(string_views(found@).take(i as int), keep),
        decreases found@.len() - i,
    {
        proof {
            assert(string_views(found@).take(i + 1).drop_last() =~= string_views(found@).take(i as int));
            assert(string_views(found@).take(i + 1).last() == found@[i as int]@);
        }
        let word = found[i].as_str();
        if !is_listed(&stop_list, word) && word.as_bytes().len() > 2 {
            let ghost before = string_views(candidates@);
            candidates.push(word.to_owned());
            assert(string_views(candidates@) =~= before.push(word@));
        }
        i = i + 1;
    }
    assert(string_views(found@).take(i as int) =~= string_views(found@));
    let counts = tally(&candidates);
    let ranked = top(&counts, 5);
    let mut keywords: Vec<String> = Vec::new();
    let mut j: usize = 0;
    while j < ranked.len()
        invariant
            j <= ranked@.len(),
            keywords@.len() == j,
            forall|k: int| 0 <= k < j ==> (#[trigger] keywords@[k])@ == ranked@[k].0@,
        decreases ranked@.len() - j,
    {
        keywords.push(ranked[j].0.clone());
        j = j + 1;
    }
    assert(string_views(keywords@) =~= names_of(ranked@));
    keywords
}

/// What a text is about: a word, how much of the text it makes up, and the
/// keywords that go with it.
#[derive(Debug)]
pub struct Topic {
    pub name: String,
    /// The occurrences of the word among all words of the text.
    pub weight: Ratio,
    pub keywords: Vec<String>,
}

/// The names of the topics of a list.
pub open spec fn topic_names(topics: Seq<Topic>) -> Seq<Seq<char>> {
    Seq::new(topics.len(), |i: int| topics[i].name@)
}

/// The three most frequent words of a text that are longer than three
/// bytes, the most frequent first, each with its share of all words of the
/// text and with itself as its one keyword. Among words that are equally
/// frequent the choice and the order are open.
pub fn extract_topics(text: &str) -> (topics: Vec<Topic>)
    ensures
        is_ranking(topic_names(topics@), tally_of(topic_candidates(text@)), 3),
        forall|i: int|
            0 <= i < topics@.len() ==> {
                &&& (#[trigger] topics@[i]).weight.numerator == tally_of(topic_candidates(text@))[topics@[i].name@]
                &&& topics@[i].weight.denominator == unicode_word_list(text@).len()
                &&& string_views(topics@[i].keywords@) == seq![topics@[i].name@]
            },
{
    let found = unicode_words(text);
    let ghost keep = |word: Seq<char>| encode_utf8(word).len() > 3;
    let mut candidates: Vec<String> = Vec::new();
    let mut i: usize = 0;
    assert(string_views(candidates@) =~= select(string_views(found@).take(0), keep));
    while i < found.len()
        invariant
            i <= found@.len(),
            keep == |word: Seq<char>| encode_utf8(word).len() > 3,
            string_views(candidates@) == select(string_views(found@).take(i as int), keep),
        decreases found@.len() - i,
    {
        proof {
            assert(string_views(found@).take(i + 1).drop_last() =~= string_views(found@).take(i as int));
            assert(string_views(found@).take(i + 1).last() == found@[i as int]@);
        }
        let word = found[i].as_str();
        if word.as_bytes().len() > 3 {
            let ghost before = string_views(candidates@);
            candidates.push(word.to_owned());
            assert(string_views(candidates@) =~= before.push(word@));
        }
        i = i + 1;
    }
    assert(string_views(found@).take(i as int) =~= string_views(found@));
    assert(string_views(found@).len() == found@.len());
    let counts = tally(&candidates);
    let ranked = top(&counts, 3);
    let mut topics: Vec<Topic> = Vec::new();
    let mut j: usize = 0;
    while j < ranked.len()
        invariant
            j <= ranked@.len(),
            topics@.len() == j,
            forall|k: int|
                0 <= k < j ==> {
                    &&& (#[trigger] topics@[k]).name@ == ranked@[k].0@
                    &&& topics@[k].weight.numerator == ranked@[k].1
                    &&& topics@[k].weight.denominator == found@.len()
                    &&& string_views(topics@[k].keywords@) == seq![topics@[k].name@]
                },
        decreases ranked@.len() - j,
    {
        let mut keywords: Vec<String> = Vec::new();
        keywords.push(ranked[j].0.clone());
        assert(string_views(keywords@) =~= seq![ranked@[j as int].0@]);
        topics.push(
            Topic {
                name: ranked[j].0.clone(),
                weight: Ratio { numerator: ranked[j].1 as u128, denominator: found.len() as u128 },
                keywords,
            },
        );
        j = j + 1;
    }
    assert(topic_names(topics@) =~= names_of(ranked@));
    topics
}

/// The fields of numeric data that are numbers once trimmed, trimmed and in
/// their order.
pub open spec fn numbers_in(data: Seq<char>) -> Seq<Seq<char>> {
    select(
        Seq::new(fields(data).len(), |i: int| trimmed(fields(data)[i])),
        |field: Seq<char>| is_number(field),
    )
}

/// The numbers of some numeric data, as they are written.
pub fn numeric_fields(data: &str) -> (numbers: Vec<String>)
    ensures
        string_views(numbers@) == numbers_in(data@),
{
    let chars = chars_of(data);
    let parts = split_fields(chars.as_slice());
    let ghost trimmed_fields = Seq::new(fields(data@).len(), |i: int| trimmed(fields(data@)[i]));
    let ghost keep = |field: Seq<char>| is_number(field);
    let mut numbers: Vec<String> = Vec::new();
    let mut i: usize = 0;
    assert(string_views(numbers@) =~= select(trimmed_fields.take(0), keep));
    while i < parts.len()
        invariant
            i <= parts@.len(),
            views(parts@) == fields(data@),
            trimmed_fields == Seq::new(fields(data@).len(), |i: int| trimmed(fields(data@)[i])),
            keep == |field: Seq<char>| is_number(field),
            string_views(numbers@) == select(trimmed_fields.take(i as int), keep),
        decreases parts@.len() - i,
    {
        let inner = trim(parts[i].as_slice());
        proof {
            assert(views(parts@)[i as int] == parts@[i as int]@);
            assert(trimmed_fields.take(i + 1).drop_last() =~= trimmed_fields.take(i as int));
            assert(trimmed_fields.take(i + 1).last() == inner@);
        }
        if is_numeric(inner.as_slice()) {
            let ghost before = string_views(numbers@);
            numbers.push(string_of(inner.as_slice()));
            assert(string_views(numbers@) =~= before.push(inner@));
        }
        i = i + 1;
    }
    assert(trimmed_fields.take(i as int) =~= trimmed_fields);
    numbers
}

/// What the analysis of a text found.
#[derive(Debug)]
pub struct TextAnalysisResult {
    /// The number of characters.
    pub char_count: usize,
    /// The number of words by the rules of Unicode.
    pub word_count: usize,
    /// The number of pieces between runs of sentence ends, and at least one.
    pub sentence_count: usize,
    pub language: String,
    /// In thousandths.
    pub language_confidence: u32,
    pub sentiment: String,
    pub sentiment_positive: usize,
    pub sentiment_negative: usize,
    pub keywords: Vec<String>,
    pub entities: Vec<Entity>,
    pub summary: String,
    pub readability: ReadabilityCounts,
    pub topics: Vec<Topic>,
    /// In tenths.
    pub plagiarism_score: u32,
    /// In milliseconds.
    pub processing_time: u128,
}

/// The regular expression for a run of sentence ends.
pub open spec fn sentence_end_pattern() -> Seq<char> {
    "[.!?]+"@
}

/// The number of sentences of a text: the pieces that runs of sentence ends
/// cut it into, and at least one.
pub open spec fn sentence_count_of(text: Seq<char>) -> nat {
    match regex_pieces(sentence_end_pattern(), text) {
        Some(count) => if count < 1 {
            1
        } else {
            count
        },
        None => 1,
    }
}

/// Analyses a text. The language and how sure it is are the caller's to
/// find; everything else is counted here, and the time that the counting
/// took is taken from the clock.
pub fn analyze_text(text: &str, language: String, language_confidence: u32) -> (result: TextAnalysisResult)
    ensures
        result.char_count == text@.len(),
        result.word_count == unicode_word_list(text@).len(),
        result.sentence_count == sentence_count_of(text@),
        result.language == language,
        result.language_confidence == language_confidence,
        result.sentiment_positive == count_in(unicode_word_list(lowercased(text@)), positive_words()),
        result.sentiment_negative == count_in(unicode_word_list(lowercased(text@)), negative_words()),
        result.sentiment@ == mood(result.sentiment_positive as nat, result.sentiment_negative as nat),
        is_ranking(string_views(result.keywords@), tally_of(keyword_candidates(text@)), 5),
        entity_views(result.entities@) == entities_in(text@),
        result.summary@ == summary_of(text@),
        result.readability.sentences == sentences(text@).len(),
        result.readability.words == unicode_word_list(text@).len(),
        result.readability.syllables == syllables(unicode_word_list(text@)),
        is_ranking(topic_names(result.topics@), tally_of(topic_candidates(text@)), 3),
        result.plagiarism_score == (if phrases_in(lowercased(text@), common_phrases()) > 10 {
            10
        } else {
            phrases_in(lowercased(text@), common_phrases())
        }),
{
    let start_time = Instant::now();
    let char_count = chars_of(text).len();
    let found = unicode_words(text);
    assert(string_views(found@).len() == found@.len());
    let sentence_count = match count_pieces("[.!?]+", text) {
        Some(count) => if count < 1 {
            1
        } else {
            count
        },
        None => 1,
    };
    let sentiment = analyze_sentiment_advanced(text);
    let keywords = extract_keywords(text);
    let entities = extract_entities(text);
    let summary = generate_summary(text);
    let readability = calculate_readability(text);
    let topics = extract_topics(text);
    let plagiarism_score = detect_plagiarism(text);
    let processing_time = millis_since(&start_time);
    TextAnalysisResult {
        char_count,
        word_count: found.len(),
        sentence_count,
        language,
        language_confidence,
        sentiment: sentiment.label,
        sentiment_positive: sentiment.positive,
        sentiment_negative: sentiment.negative,
        keywords,
        entities,
        summary,
        readability,
        topics,
        plagiarism_score,
        processing_time,
    }
}

} // verus!
