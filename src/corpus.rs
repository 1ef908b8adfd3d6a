//! Turning the bytes of a corpus file into its ordered list of entries.

use vstd::prelude::*;
use vstd::utf8::{decode_utf8, valid_utf8};

use crate::text::chars_of;

verus! {

/// Errors that can occur when loading a corpus.
#[derive(Debug, Clone, Copy, PartialEq, Eq, Structural)]
pub enum FuzzySearchError {
    /// Unable to open the corpus file.
    UnableToOpenCorpusFile,
    /// Unable to read the corpus file to a string.
    UnableToReadCorpusFileToString,
}

/// What an attempt to read the corpus file came to.
#[derive(Debug, PartialEq, Eq)]
pub enum CorpusFile {
    /// The file could not be opened.
    Unopened,
    /// The file was opened, but reading its bytes failed.
    Unreadable,
    /// The file's whole contents.
    Contents(Vec<u8>),
}

/// The lines of `s`: the pieces between its newline characters, in order.
/// A text that ends in a newline has an empty last line, and the empty text
/// has one empty line.
pub open spec fn split_lines(s: Seq<char>) -> Seq<Seq<char>>
    decreases s.len(),
{
    if s.len() == 0 {
        seq![Seq::empty()]
    } else {
        let init = split_lines(s.drop_last());
        if s.last() == '\n' {
            init.push(Seq::empty())
        } else {
            init.update(init.len() - 1, init.last().push(s.last()))
        }
    }
}

/// A text has at least one line.
pub proof fn lemma_split_lines_nonempty(s: Seq<char>)
    ensures
        split_lines(s).len() >= 1,
    decreases s.len(),
{
    if s.len() > 0 {
        lemma_split_lines_nonempty(s.drop_last());
    }
}

/// `lines` joined into one text, with a newline between each two.
pub open spec fn join_lines(lines: Seq<Seq<char>>) -> Seq<char>
    decreases lines.len(),
{
    if lines.len() <= 1 {
        if lines.len() == 0 {
            Seq::empty()
        } else {
            lines[0]
        }
    } else {
        join_lines(lines.drop_last()).push('\n') + lines.last()
    }
}

/// Splitting a text into lines loses nothing: the lines hold no newline, and
/// joined with newlines they give the text back.
pub proof fn lemma_split_lines_join(s: Seq<char>)
    ensures
        join_lines(split_lines(s)) == s,
        forall|i: int|
            0 <= i < split_lines(s).len() ==> !(#[trigger] split_lines(s)[i]).contains('\n'),
    decreases s.len(),
{
    if s.len() > 0 {
        let prefix = s.drop_last();
        let init = split_lines(prefix);
        lemma_split_lines_join(prefix);
        lemma_split_lines_nonempty(prefix);
        let lines = split_lines(s);
        if s.last() == '\n' {
            assert(lines.drop_last() == init);
            assert(s == prefix.push('\n'));
            assert(join_lines(lines) == prefix.push('\n') + Seq::<char>::empty());
            assert forall|i: int| 0 <= i < lines.len() implies !(#[trigger] lines[i]).contains(
                '\n',
            ) by {
                if i < init.len() {
                    assert(lines[i] == init[i]);
                } else {
                    assert(lines[i] =~= Seq::<char>::empty());
                }
            }
        } else {
            let last = init.last().push(s.last());
            assert(lines.drop_last() == init.drop_last());
            assert(lines.last() == last);
            if init.len() == 1 {
                assert(join_lines(init) == init[0]);
                assert(join_lines(lines) == lines[0]);
                assert(s == prefix.push(s.last()));
            } else {
                assert(join_lines(init) == join_lines(init.drop_last()).push('\n') + init.last());
                assert(s =~= prefix.push(s.last()));
                assert(s =~= join_lines(init.drop_last()).push('\n') + last);
            }
            assert forall|i: int| 0 <= i < lines.len() implies !(#[trigger] lines[i]).contains(
                '\n',
            ) by {
                if i < init.len() - 1 {
                    assert(lines[i] == init[i]);
                } else {
                    assert(!init[i].contains('\n'));
                    if last.contains('\n') {
                        let j = choose|j: int| 0 <= j < last.len() && last[j] == '\n';
                        if j < init[i].len() {
                            assert(init[i][j] == '\n');
                        }
                    }
                }
            }
        }
    }
}

/// The entries that a corpus file holding `bytes` gives, when the bytes are
/// valid UTF-8.
pub open spec fn corpus_of(bytes: Seq<u8>) -> Seq<Seq<char>> {
    split_lines(decode_utf8(bytes))
}

/// Relies on `String::push`: the character is appended at the end.
pub assume_specification[ String::push ](s: &mut String, ch: char)
    ensures
        final(s)@ == old(s)@.push(ch),
;

/// Relies on `String::from_utf8`: it succeeds exactly when the bytes are
/// valid UTF-8, and then holds the characters that they encode.
#[verifier::external_body]
fn decode_text(bytes: Vec<u8>) -> (r: Option<String>)
    ensures
        r is Some <==> valid_utf8(bytes@),
        r is Some ==> r->0@ == decode_utf8(bytes@),
{
    String::from_utf8(bytes).ok()
}

/// The lines of `text`, each as a string of its own.
pub fn split_corpus(text: &str) -> (r: Vec<String>)
    ensures
        r@.map_values(|s: String| s@) == split_lines(text@),
{
    let cs = chars_of(text);
    let mut lines: Vec<String> = Vec::new();
    let mut line = String::new();
    let mut i: usize = 0;
    while i < cs.len()
        invariant
            cs@ == text@,
            i <= cs@.len(),
            lines@.map_values(|s: String| s@).push(line@) == split_lines(text@.take(i as int)),
        decreases cs@.len() - i,
    {
        let c = cs[i];
        proof {
            assert(text@.take(i + 1).drop_last() == text@.take(i as int));
        }
        let ghost before = lines@.map_values(|s: String| s@);
        if c == '\n' {
            let done = line;
            lines.push(done);
            line = String::new();
            assert(lines@.map_values(|s: String| s@) == before.push(done@));
        } else {
            line.push(c);
            assert(lines@.map_values(|s: String| s@).push(line@) == before.push(line@));
        }
        i = i + 1;
    }
    assert(text@.take(cs@.len() as int) == text@);
    lines.push(line);
    lines
}

/// The entries of a corpus file holding `bytes`: one per line, in order.
pub fn load_corpus(bytes: Vec<u8>) -> (r: Result<Vec<String>, FuzzySearchError>)
    ensures
        r is Ok <==> valid_utf8(bytes@),
        r is Ok ==> r->Ok_0@.map_values(|s: String| s@) == corpus_of(bytes@),
        r is Err ==> r == Err::<Vec<String>, _>(FuzzySearchError::UnableToReadCorpusFileToString),
{
    match decode_text(bytes) {
        Some(text) => Ok(split_corpus(text.as_str())),
        None => Err(FuzzySearchError::UnableToReadCorpusFileToString),
    }
}

} // verus!
