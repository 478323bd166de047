//! Cutting raw harness output into lines and words.

use vstd::prelude::*;
use vstd::string::{is_ascii, is_ascii_spec_bytes, StrSliceExecFns, StringSliceAdditionalSpecFns};

verus! {

/// The line feed.
pub const LINE_FEED: u8 = 10;

/// The carriage return.
pub const CARRIAGE_RETURN: u8 = 13;

/// The tab.
pub const TAB: u8 = 9;

/// The space.
pub const SPACE: u8 = 32;

/// What separates the pieces of a text.
#[derive(Debug, Clone, Copy, PartialEq, Eq, Structural)]
pub enum Separator {
    /// A line feed.
    Line,
    /// A space, a tab or a carriage return.
    Blank,
}

impl Separator {
    /// Whether `byte` is a separator of this kind.
    pub open spec fn matches(self, byte: u8) -> bool {
        match self {
            Separator::Line => byte == LINE_FEED,
            Separator::Blank => byte == SPACE || byte == TAB || byte == CARRIAGE_RETURN,
        }
    }

    /// Whether `byte` is a separator of this kind.
    pub fn is(self, byte: u8) -> (found: bool)
        ensures
            found == self.matches(byte),
    {
        match self {
            Separator::Line => byte == LINE_FEED,
            Separator::Blank => byte == SPACE || byte == TAB || byte == CARRIAGE_RETURN,
        }
    }
}

/// The pieces that the separators cut `text` into, empty ones included: a
/// text with `n` separators has `n + 1` pieces, and none of them holds a
/// separator.
pub open spec fn pieces(text: Seq<u8>, separator: Separator) -> Seq<Seq<u8>>
    decreases text.len(),
{
    if text.len() == 0 {
        seq![Seq::empty()]
    } else {
        let before = pieces(text.drop_last(), separator);
        if separator.matches(text.last()) {
            before.push(Seq::empty())
        } else {
            before.drop_last().push(before.last().push(text.last()))
        }
    }
}

/// The lines of `text`. A text that ends in a line feed has an empty last
/// line.
pub open spec fn lines_of(text: Seq<u8>) -> Seq<Seq<u8>> {
    pieces(text, Separator::Line)
}

/// The words of `line`: its maximal runs of bytes that are not blank.
pub open spec fn words_of(line: Seq<u8>) -> Seq<Seq<u8>> {
    pieces(line, Separator::Blank).filter(|piece: Seq<u8>| piece.len() > 0)
}

/// The bytes of a text of ASCII characters.
pub open spec fn ascii(text: Seq<char>) -> Seq<u8> {
    text.map_values(|character: char| character as u8)
}

/// The byte strings that `parts` hold.
pub open spec fn texts(parts: Seq<Vec<u8>>) -> Seq<Seq<u8>> {
    parts.map_values(|part: Vec<u8>| part@)
}

/// There is always at least one piece.
pub proof fn lemma_pieces_nonempty(text: Seq<u8>, separator: Separator)
    ensures
        pieces(text, separator).len() >= 1,
    decreases text.len(),
{
    if text.len() > 0 {
        lemma_pieces_nonempty(text.drop_last(), separator);
    }
}

/// No piece holds a separator, and there is one piece more than there are
/// separators in the text.
pub proof fn lemma_pieces_clean(text: Seq<u8>, separator: Separator)
    ensures
        forall|i: int, j: int|
            0 <= i < pieces(text, separator).len() && 0 <= j < pieces(text, separator)[i].len()
                ==> !separator.matches(#[trigger] pieces(text, separator)[i][j]),
        pieces(text, separator).len() == 1 + text.filter(
            |byte: u8| separator.matches(byte),
        ).len(),
    decreases text.len(),
{
    reveal(Seq::filter);
    if text.len() > 0 {
        lemma_pieces_clean(text.drop_last(), separator);
        lemma_pieces_nonempty(text.drop_last(), separator);
    }
}

/// The pieces put together again, with `separator` between one and the
/// next.
pub open spec fn joined(parts: Seq<Seq<u8>>, separator: u8) -> Seq<u8>
    decreases parts.len(),
{
    if parts.len() == 0 {
        Seq::empty()
    } else if parts.len() == 1 {
        parts[0]
    } else {
        joined(parts.drop_last(), separator).push(separator) + parts.last()
    }
}

/// The lines of a text, put together again with line feeds, are the text.
pub proof fn lemma_lines_join(text: Seq<u8>)
    ensures
        joined(lines_of(text), LINE_FEED) == text,
    decreases text.len(),
{
    if text.len() == 0 {
        assert(lines_of(text)[0] =~= text);
    } else {
        let before = lines_of(text.drop_last());
        lemma_lines_join(text.drop_last());
        lemma_pieces_nonempty(text.drop_last(), Separator::Line);
        let last = text.last();
        if Separator::Line.matches(last) {
            let after = before.push(Seq::empty());
            assert(after.drop_last() =~= before);
            assert(joined(after, LINE_FEED) =~= text.drop_last().push(LINE_FEED));
            assert(text =~= text.drop_last().push(last));
        } else {
            let after = before.drop_last().push(before.last().push(last));
            if before.len() == 1 {
                assert(joined(after, LINE_FEED) =~= before[0].push(last));
            } else {
                assert(after.drop_last() =~= before.drop_last());
                assert(joined(after, LINE_FEED) =~= joined(before, LINE_FEED).push(last));
            }
            assert(text =~= text.drop_last().push(last));
        }
    }
}

/// A word is not empty and holds no blank.
pub proof fn lemma_words_clean(line: Seq<u8>)
    ensures
        forall|i: int| 0 <= i < words_of(line).len() ==> (#[trigger] words_of(line)[i]).len() > 0,
        forall|i: int, j: int|
            0 <= i < words_of(line).len() && 0 <= j < words_of(line)[i].len()
                ==> !Separator::Blank.matches(#[trigger] words_of(line)[i][j]),
{
    let all = pieces(line, Separator::Blank);
    let keep = |piece: Seq<u8>| piece.len() > 0;
    lemma_pieces_clean(line, Separator::Blank);
    assert forall|i: int| 0 <= i < words_of(line).len() implies (#[trigger] words_of(
        line,
    )[i]).len() > 0 by {
        all.lemma_filter_pred(keep, i);
    }
    assert forall|i: int, j: int|
        0 <= i < words_of(line).len() && 0 <= j < words_of(line)[i].len()
            implies !Separator::Blank.matches(#[trigger] words_of(line)[i][j]) by {
        let word = words_of(line)[i];
        assert(all.filter(keep).contains(word));
        all.lemma_filter_contains_rev(keep, word);
        let k = choose|k: int| 0 <= k < all.len() && all[k] == word;
        assert(!Separator::Blank.matches(all[k][j]));
    }
}

/// Cuts `text` at its separators.
pub fn split(text: &[u8], separator: Separator) -> (parts: Vec<Vec<u8>>)
    ensures
        texts(parts@) == pieces(text@, separator),
{
    let mut done: Vec<Vec<u8>> = Vec::new();
    let mut current: Vec<u8> = Vec::new();
    let mut i: usize = 0;
    assert(text@.take(0) =~= Seq::<u8>::empty());
    assert(texts(done@).push(current@) =~= pieces(text@.take(0), separator));
    while i < text.len()
        invariant
            i <= text.len(),
            texts(done@).push(current@) == pieces(text@.take(i as int), separator),
        decreases text.len() - i,
    {
        let byte = text[i];
        proof {
            let next = text@.take(i + 1);
            assert(next.drop_last() =~= text@.take(i as int));
            assert(next.last() == byte);
            lemma_pieces_nonempty(text@.take(i as int), separator);
        }
        let ghost before = texts(done@).push(current@);
        if separator.is(byte) {
            done.push(current);
            current = Vec::new();
            assert(texts(done@) =~= before);
        } else {
            current.push(byte);
            assert(texts(done@).push(current@) =~= before.drop_last().push(
                before.last().push(byte),
            ));
        }
        i += 1;
    }
    assert(text@.take(text.len() as int) =~= text@);
    let ghost before = texts(done@).push(current@);
    done.push(current);
    assert(texts(done@) =~= before);
    done
}

/// The words of `line`.
pub fn words(line: &[u8]) -> (found: Vec<Vec<u8>>)
    ensures
        texts(found@) == words_of(line@),
{
    let parts = split(line, Separator::Blank);
    let ghost keep = |piece: Seq<u8>| piece.len() > 0;
    let mut found: Vec<Vec<u8>> = Vec::new();
    let mut i: usize = 0;
    assert(texts(parts@).take(0) =~= Seq::<Seq<u8>>::empty());
    assert(texts(found@) =~= texts(parts@).take(0).filter(keep)) by {
        reveal(Seq::filter);
    }
    while i < parts.len()
        invariant
            i <= parts.len(),
            keep == |piece: Seq<u8>| piece.len() > 0,
            texts(found@) == texts(parts@).take(i as int).filter(keep),
        decreases parts.len() - i,
    {
        let ghost before = texts(found@);
        proof {
            let next = texts(parts@).take(i + 1);
            assert(next.drop_last() =~= texts(parts@).take(i as int));
            assert(next.last() == parts[i as int]@);
            reveal(Seq::filter);
        }
        if parts[i].len() > 0 {
            found.push(parts[i].clone());
            assert(texts(found@) =~= before.push(parts[i as int]@));
        }
        i += 1;
    }
    assert(texts(parts@).take(parts.len() as int) =~= texts(parts@));
    found
}

/// Whether `word` begins with `prefix`.
pub fn starts_with(word: &[u8], prefix: &[u8]) -> (found: bool)
    ensures
        found == (prefix@.len() <= word@.len() && word@.take(prefix@.len() as int) == prefix@),
{
    if prefix.len() > word.len() {
        return false;
    }
    let mut i: usize = 0;
    while i < prefix.len()
        invariant
            i <= prefix.len() <= word.len(),
            word@.take(i as int) == prefix@.take(i as int),
        decreases prefix.len() - i,
    {
        if word[i] != prefix[i] {
            assert(word@.take(prefix@.len() as int)[i as int] != prefix@[i as int]);
            return false;
        }
        assert(word@.take(i + 1) =~= word@.take(i as int).push(word@[i as int]));
        assert(prefix@.take(i + 1) =~= prefix@.take(i as int).push(prefix@[i as int]));
        i += 1;
    }
    assert(prefix@.take(prefix.len() as int) =~= prefix@);
    true
}

/// Whether two byte strings are the same.
pub fn same(left: &[u8], right: &[u8]) -> (equal: bool)
    ensures
        equal == (left@ == right@),
{
    if left.len() != right.len() {
        return false;
    }
    let found = starts_with(left, right);
    assert(left@.take(left@.len() as int) =~= left@);
    found
}

/// The bytes of `text` in UTF-8, which are those of [`ascii`] where the
/// text is of ASCII characters.
pub fn bytes_of(text: &str) -> (bytes: Vec<u8>)
    ensures
        bytes@ == text.spec_bytes(),
        is_ascii(text) ==> bytes@ == ascii(text@),
{
    broadcast use is_ascii_spec_bytes;

    let bytes = text.as_bytes_vec();
    assert(is_ascii(text) ==> bytes@ =~= ascii(text@));
    bytes
}

/// Whether `word` is the ASCII text `expected`.
pub fn spells(word: &[u8], expected: &str) -> (equal: bool)
    ensures
        equal == (word@ == expected.spec_bytes()),
        is_ascii(expected) ==> equal == (word@ == ascii(expected@)),
{
    let bytes = bytes_of(expected);
    same(word, bytes.as_slice())
}

/// Whether `word` begins with the ASCII text `prefix`.
pub fn begins(word: &[u8], prefix: &str) -> (found: bool)
    ensures
        found == (prefix.spec_bytes().len() <= word@.len() && word@.take(
            prefix.spec_bytes().len() as int,
        ) == prefix.spec_bytes()),
        is_ascii(prefix) ==> found == (ascii(prefix@).len() <= word@.len() && word@.take(
            ascii(prefix@).len() as int,
        ) == ascii(prefix@)),
{
    let bytes = bytes_of(prefix);
    starts_with(word, bytes.as_slice())
}

} // verus!
