//! Small operations on text: single characters, words, and searching.
use vstd::prelude::*;

verus! {

/// Whether the text is the single character `letter`.
pub fn is_letter(text: &str, letter: char) -> (same: bool)
    ensures
        same == (text@ == seq![letter]),
{
    if text.unicode_len() != 1 {
        return false;
    }
    let first = text.get_char(0);
    proof {
        if first == letter {
            assert(text@ =~= seq![letter]);
        } else {
            assert(seq![letter][0] == letter);
        }
    }
    first == letter
}

/// The first character of the text, if it has one.
pub fn first_char(text: &str) -> (first: Option<char>)
    ensures
        first == (if text@.len() > 0 {
            Some(text@[0])
        } else {
            None
        }),
{
    if text.unicode_len() == 0 {
        None
    } else {
        Some(text.get_char(0))
    }
}

/// The text of the single character at place `i`.
pub fn unit(text: &str, i: usize) -> (letter: String)
    requires
        i < text@.len(),
    ensures
        letter@ == seq![text@[i as int]],
{
    let count = text.unicode_len();
    let part = text.substring_char(i, i + 1);
    assert(part@ =~= seq![text@[i as int]]);
    String::from_str(part)
}

/// The characters that separate words: those that Unicode calls white
/// space.
pub open spec fn is_space(c: char) -> bool {
    ||| '\u{9}' <= c <= '\u{d}'
    ||| c == ' '
    ||| c == '\u{85}'
    ||| c == '\u{a0}'
    ||| c == '\u{1680}'
    ||| '\u{2000}' <= c <= '\u{200a}'
    ||| c == '\u{2028}'
    ||| c == '\u{2029}'
    ||| c == '\u{202f}'
    ||| c == '\u{205f}'
    ||| c == '\u{3000}'
}

/// Whether the character separates words.
pub fn is_space_char(c: char) -> (space: bool)
    ensures
        space == is_space(c),
{
    ('\u{9}' <= c && c <= '\u{d}') || c == ' ' || c == '\u{85}' || c == '\u{a0}' || c
        == '\u{1680}' || ('\u{2000}' <= c && c <= '\u{200a}') || c == '\u{2028}' || c
        == '\u{2029}' || c == '\u{202f}' || c == '\u{205f}' || c == '\u{3000}'
}

/// The one word `word`, or none where it is empty.
pub open spec fn closed(word: Seq<char>) -> Seq<Seq<char>> {
    if word.len() > 0 {
        seq![word]
    } else {
        Seq::empty()
    }
}

/// The words of `text` when `word` is the part of a word read just before
/// it.
pub open spec fn gather(text: Seq<char>, word: Seq<char>) -> Seq<Seq<char>>
    decreases text.len(),
{
    if text.len() == 0 {
        closed(word)
    } else if is_space(text[0]) {
        closed(word) + gather(text.drop_first(), Seq::empty())
    } else {
        gather(text.drop_first(), word.push(text[0]))
    }
}

/// The words of the text, in order: its longest stretches of characters
/// that do not separate words.
pub open spec fn words(text: Seq<char>) -> Seq<Seq<char>> {
    gather(text, Seq::empty())
}

/// The words of a text, each as a string of its own.
pub fn split_words(text: &str) -> (found: Vec<String>)
    ensures
        found@.len() == words(text@).len(),
        forall|k: int| 0 <= k < found@.len() ==> (#[trigger] found@[k])@ == words(text@)[k],
{
    let count = text.unicode_len();
    let ghost whole = text@;
    let mut found: Vec<String> = Vec::new();
    let ghost mut so_far: Seq<Seq<char>> = Seq::empty();
    let mut index: usize = 0;
    let mut start: usize = 0;
    let mut in_word = false;
    proof {
        assert(whole.skip(0) =~= whole);
        assert(so_far + words(whole) =~= words(whole));
    }
    while index < count
        invariant
            whole == text@,
            count == whole.len(),
            index <= count,
            in_word ==> start < index,
            found@.len() == so_far.len(),
            forall|k: int| 0 <= k < found@.len() ==> (#[trigger] found@[k])@ == so_far[k],
            so_far + gather(
                whole.skip(index as int),
                if in_word {
                    whole.subrange(start as int, index as int)
                } else {
                    Seq::empty()
                },
            ) == words(whole),
        decreases count - index,
    {
        let c = text.get_char(index);
        let ghost rest = whole.skip(index as int);
        let ghost word = if in_word {
            whole.subrange(start as int, index as int)
        } else {
            Seq::empty()
        };
        proof {
            assert(rest.len() > 0 && rest[0] == c);
            assert(rest.drop_first() =~= whole.skip(index as int + 1));
        }
        if is_space_char(c) {
            if in_word {
                let text_of_word = String::from_str(text.substring_char(start, index));
                found.push(text_of_word);
                proof {
                    assert(so_far.push(word) + gather(rest.drop_first(), Seq::empty()) =~= so_far
                        + (closed(word) + gather(rest.drop_first(), Seq::empty())));
                    so_far = so_far.push(word);
                }
                in_word = false;
            } else {
                assert(so_far + gather(rest.drop_first(), Seq::empty()) =~= so_far + (closed(word)
                    + gather(rest.drop_first(), Seq::empty())));
            }
        } else {
            if !in_word {
                start = index;
                in_word = true;
            }
            assert(whole.subrange(start as int, index as int + 1) =~= word.push(c));
        }
        index = index + 1;
    }
    let ghost last = if in_word {
        whole.subrange(start as int, index as int)
    } else {
        Seq::empty()
    };
    proof {
        assert(whole.skip(count as int) =~= Seq::empty());
    }
    if in_word {
        let text_of_word = String::from_str(text.substring_char(start, count));
        found.push(text_of_word);
        proof {
            assert(so_far.push(last) =~= so_far + closed(last));
        }
    } else {
        assert(so_far =~= so_far + closed(last));
    }
    found
}

/// The characters of a text.
pub fn to_chars(text: &str) -> (chars: Vec<char>)
    ensures
        chars@ == text@,
{
    let count = text.unicode_len();
    let mut chars: Vec<char> = Vec::new();
    let mut index: usize = 0;
    while index < count
        invariant
            count == text@.len(),
            index <= count,
            chars@ == text@.subrange(0, index as int),
        decreases count - index,
    {
        chars.push(text.get_char(index));
        assert(chars@ =~= text@.subrange(0, index as int + 1));
        index = index + 1;
    }
    assert(chars@ =~= text@);
    chars
}

/// Whether `word` stands in `text` at place `i`.
pub open spec fn occurs_at(text: Seq<char>, word: Seq<char>, i: int) -> bool {
    0 <= i && i + word.len() <= text.len() && text.subrange(i, i + word.len()) == word
}

/// Whether `word` stands somewhere in `text`.
pub open spec fn occurs(text: Seq<char>, word: Seq<char>) -> bool {
    exists|i: int| occurs_at(text, word, i)
}

/// Whether `word` stands in `text` at place `start`.
fn stands_at(text: &Vec<char>, word: &Vec<char>, start: usize) -> (found: bool)
    requires
        start + word@.len() <= text@.len(),
    ensures
        found == occurs_at(text@, word@, start as int),
{
    let size = text.len();
    let mut offset: usize = 0;
    while offset < word.len()
        invariant
            size == text@.len(),
            start + word@.len() <= text@.len(),
            offset <= word@.len(),
            text@.subrange(start as int, start + offset) == word@.subrange(0, offset as int),
        decreases word@.len() - offset,
    {
        if text[start + offset] != word[offset] {
            proof {
                let part = text@.subrange(start as int, start + word@.len());
                assert(part[offset as int] != word@[offset as int]);
            }
            return false;
        }
        assert(text@.subrange(start as int, start + offset + 1) =~= text@.subrange(
            start as int,
            start + offset,
        ).push(text@[start + offset]));
        assert(word@.subrange(0, offset as int + 1) =~= word@.subrange(0, offset as int).push(
            word@[offset as int],
        ));
        offset = offset + 1;
    }
    assert(word@.subrange(0, offset as int) =~= word@);
    true
}

/// Whether `word` stands somewhere in `text`.
pub fn contains_text(text: &str, word: &str) -> (found: bool)
    ensures
        found == occurs(text@, word@),
{
    let text_chars = to_chars(text);
    let word_chars = to_chars(word);
    if word_chars.len() > text_chars.len() {
        return false;
    }
    let last = text_chars.len() - word_chars.len();
    let mut start: usize = 0;
    while start < last
        invariant
            text_chars@ == text@,
            word_chars@ == word@,
            last == text@.len() - word@.len(),
            start <= last,
            forall|i: int| 0 <= i < start ==> !occurs_at(text@, word@, i),
        decreases last - start,
    {
        if stands_at(&text_chars, &word_chars, start) {
            return true;
        }
        start = start + 1;
    }
    stands_at(&text_chars, &word_chars, last)
}

} // verus!