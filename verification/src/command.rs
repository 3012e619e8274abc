//! Splitting a command line into its words at white space.

use crate::text::texts_of;
use vstd::prelude::*;

verus! {

/// Whether `c` is white space: the characters with the Unicode property
/// `White_Space`.
pub open spec fn is_space(c: char) -> bool {
    let n = c as int;
    ||| 0x09 <= n <= 0x0d
    ||| n == 0x20
    ||| n == 0x85
    ||| n == 0xa0
    ||| n == 0x1680
    ||| 0x2000 <= n <= 0x200a
    ||| n == 0x2028
    ||| n == 0x2029
    ||| n == 0x202f
    ||| n == 0x205f
    ||| n == 0x3000
}

/// Reading `s` from the left: the words that have ended, and the word that
/// the last character belongs to, empty after white space.
pub open spec fn split_state(s: Seq<char>) -> (Seq<Seq<char>>, Seq<char>)
    decreases s.len(),
{
    if s.len() == 0 {
        (Seq::empty(), Seq::empty())
    } else {
        let (done, word) = split_state(s.drop_last());
        if !is_space(s.last()) {
            (done, word.push(s.last()))
        } else if word.len() > 0 {
            (done.push(word), Seq::empty())
        } else {
            (done, word)
        }
    }
}

/// The words of `s`: its longest runs of characters that are no white
/// space, in order. White space at either end gives no empty word.
pub open spec fn words_of(s: Seq<char>) -> Seq<Seq<char>> {
    let (done, word) = split_state(s);
    if word.len() > 0 {
        done.push(word)
    } else {
        done
    }
}

/// Whether `s` holds no white space.
pub open spec fn no_space(s: Seq<char>) -> bool {
    forall|i: int| 0 <= i < s.len() ==> !is_space(#[trigger] s[i])
}

/// Reading a text without white space ends no word: the whole text is the
/// word being read.
proof fn lemma_split_state_of_word(s: Seq<char>)
    requires
        no_space(s),
    ensures
        split_state(s) == (Seq::<Seq<char>>::empty(), s),
    decreases s.len(),
{
    if s.len() > 0 {
        lemma_split_state_of_word(s.drop_last());
        assert(s.drop_last().push(s.last()) =~= s);
    }
}

/// Reading on after a white-space character starts afresh: what was read
/// before it only adds its words in front.
proof fn lemma_split_state_after_space(a: Seq<char>, c: char, b: Seq<char>)
    requires
        is_space(c),
    ensures
        split_state(a.push(c) + b) == (words_of(a) + split_state(b).0, split_state(b).1),
    decreases b.len(),
{
    let s = a.push(c) + b;
    if b.len() == 0 {
        assert(s =~= a.push(c));
        assert(s.drop_last() =~= a);
        assert(words_of(a) + split_state(b).0 =~= words_of(a));
    } else {
        lemma_split_state_after_space(a, c, b.drop_last());
        assert(s.drop_last() =~= a.push(c) + b.drop_last());
        assert(s.last() == b.last());
        let (done, word) = split_state(b.drop_last());
        assert((words_of(a) + done).push(word) =~= words_of(a) + done.push(word));
    }
}

/// No word is empty and no word holds white space, neither the words that
/// have ended nor the word being read.
proof fn lemma_split_state_words(s: Seq<char>)
    ensures
        no_space(split_state(s).1),
        forall|i: int|
            0 <= i < split_state(s).0.len() ==> (#[trigger] split_state(s).0[i]).len() > 0
                && no_space(split_state(s).0[i]),
    decreases s.len(),
{
    if s.len() > 0 {
        lemma_split_state_words(s.drop_last());
    }
}

/// A text without white space is a single word, and the empty text has no
/// words.
pub proof fn law_word_is_one_word(s: Seq<char>)
    requires
        no_space(s),
    ensures
        words_of(s) == (if s.len() > 0 {
            seq![s]
        } else {
            Seq::<Seq<char>>::empty()
        }),
{
    lemma_split_state_of_word(s);
    if s.len() > 0 {
        assert(Seq::<Seq<char>>::empty().push(s) =~= seq![s]);
    }
}

/// White space separates: the words of two texts joined by one white-space
/// character are the words of the first, then the words of the second.
pub proof fn law_space_separates(a: Seq<char>, c: char, b: Seq<char>)
    requires
        is_space(c),
    ensures
        words_of(a.push(c) + b) == words_of(a) + words_of(b),
{
    lemma_split_state_after_space(a, c, b);
    let (done, word) = split_state(b);
    assert((words_of(a) + done).push(word) =~= words_of(a) + done.push(word));
}

/// Every word has a character and none of its characters is white space.
pub proof fn law_words_hold_no_space(s: Seq<char>)
    ensures
        forall|i: int|
            0 <= i < words_of(s).len() ==> (#[trigger] words_of(s)[i]).len() > 0 && no_space(
                words_of(s)[i],
            ),
{
    lemma_split_state_words(s);
}

/// Whether `c` is white space.
pub fn is_whitespace(c: char) -> (space: bool)
    ensures
        space == is_space(c),
{
    let n = c as u32;
    (0x09 <= n && n <= 0x0d) || n == 0x20 || n == 0x85 || n == 0xa0 || n == 0x1680 || (0x2000 <= n
        && n <= 0x200a) || n == 0x2028 || n == 0x2029 || n == 0x202f || n == 0x205f || n == 0x3000
}

/// Splits a command line into its words.
pub fn command_words(command: &str) -> (words: Vec<String>)
    ensures
        texts_of(words@) == words_of(command@),
{
    broadcast use vstd::string::group_string_axioms;

    let length = command.unicode_len();
    let mut words: Vec<String> = Vec::new();
    let mut start: usize = 0;
    let mut at: usize = 0;
    for c in it: command.chars()
        invariant
            it.seq() == command@,
            length == command@.len(),
            at == it.index(),
            start <= at,
            split_state(command@.take(at as int)) == (
                texts_of(words@),
                command@.subrange(start as int, at as int),
            ),
    {
        let ghost before = texts_of(words@);
        proof {
            assert(command@.take(at + 1).drop_last() =~= command@.take(at as int));
            assert(command@.take(at + 1).last() == c);
        }
        if is_whitespace(c) {
            if start < at {
                let word = command.substring_char(start, at);
                words.push(String::from_str(word));
                assert(texts_of(words@) =~= before.push(word@));
            }
            start = at + 1;
            assert(command@.subrange(start as int, at + 1) =~= Seq::<char>::empty());
        } else {
            assert(command@.subrange(start as int, at + 1) =~= command@.subrange(
                start as int,
                at as int,
            ).push(c));
        }
        at += 1;
    }
    assert(command@.take(at as int) =~= command@);
    if start < at {
        let ghost before = texts_of(words@);
        let word = command.substring_char(start, at);
        words.push(String::from_str(word));
        assert(texts_of(words@) =~= before.push(word@));
    }
    words
}

} // verus!
