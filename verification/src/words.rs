//! A plain front end for text whose lexemes are set apart by blanks.

use vstd::prelude::*;
use vstd::string::*;
use crate::assembler::{open_blocks, stack_blocks, stack_outcome};
use crate::classifier::{classify_all, initial_tokenize};
use crate::error::ParseError;
use crate::scanner::{is_space, lexeme, strings_view, text_chars};
use crate::token::Block;

verus! {

/// A text without the white space at its two ends, as `str::trim` leaves it.
pub uninterp spec fn trimmed(s: Seq<char>) -> Seq<char>;

/// Calls `str::trim`. What it hands back depends on the text alone; the
/// contract gives it the name [`trimmed`] and claims nothing more about it.
#[verifier::external_body]
fn trim(s: &str) -> (t: &str)
    ensures
        t@ == trimmed(s@),
{
    s.trim()
}

/// Each piece without the white space at its two ends.
pub open spec fn trimmed_all(pieces: Seq<Seq<char>>) -> Seq<Seq<char>> {
    Seq::new(pieces.len(), |i: int| trimmed(pieces[i]))
}

/// The length of the longest run without a blank that starts at `from`.
pub open spec fn word_len(chars: Seq<char>, from: int) -> nat
    decreases chars.len() - from,
{
    if 0 <= from < chars.len() && !is_space(chars[from]) {
        1 + word_len(chars, from + 1)
    } else {
        0
    }
}

/// The pieces that the blanks cut the text from `from` on into. Every
/// blank ends one piece and starts the next, so two blanks in a row, or one
/// at either end of the text, give an empty piece.
pub open spec fn words_from(chars: Seq<char>, from: int) -> Seq<Seq<char>>
    decreases chars.len() - from,
{
    if from < 0 || from > chars.len() {
        Seq::empty()
    } else {
        let n: nat = word_len(chars, from);
        let word = chars.subrange(from, from + n);
        if from + n >= chars.len() {
            seq![word]
        } else {
            seq![word] + words_from(chars, from + n + 1)
        }
    }
}

/// The pieces that the blanks cut a text into.
pub open spec fn words(chars: Seq<char>) -> Seq<Seq<char>> {
    words_from(chars, 0)
}

/// The end of the run without a blank that starts at `from`.
fn word_end(chars: &Vec<char>, from: usize) -> (end: usize)
    requires
        from <= chars.len(),
    ensures
        end == from + word_len(chars@, from as int),
        end <= chars.len(),
{
    let mut end: usize = from;
    while end < chars.len() && chars[end] != ' ' && chars[end] != '\n'
        invariant
            from <= end <= chars.len(),
            from + word_len(chars@, from as int) == end + word_len(chars@, end as int),
        decreases chars.len() - end,
    {
        end += 1;
    }
    end
}

/// Cuts a text at every space and line feed.
pub fn split_words(text: &str) -> (pieces: Vec<String>)
    ensures
        strings_view(pieces@) == words(text@),
{
    let chars = text_chars(text);
    let mut pieces: Vec<String> = Vec::new();
    let mut from: usize = 0;
    loop
        invariant
            chars@ == text@,
            from <= chars.len(),
            words(chars@) == strings_view(pieces@) + words_from(chars@, from as int),
        decreases chars.len() - from,
    {
        let end: usize = word_end(&chars, from);
        let piece = lexeme(&chars, from, end);
        pieces.push(piece);
        if end >= chars.len() {
            return pieces;
        }
        from = end + 1;
    }
}

/// Takes the white space off both ends of every piece.
pub fn trim_all(pieces: &Vec<String>) -> (out: Vec<String>)
    ensures
        strings_view(out@) == trimmed_all(strings_view(pieces@)),
{
    let mut out: Vec<String> = Vec::new();
    let mut i: usize = 0;
    while i < pieces.len()
        invariant
            i <= pieces.len(),
            out.len() == i,
            forall|k: int| 0 <= k < i ==> out@[k]@ == trimmed(pieces@[k]@),
        decreases pieces.len() - i,
    {
        out.push(trim(pieces[i].as_str()).to_owned());
        i += 1;
    }
    out
}

/// Reads text whose lexemes are set apart by spaces and line feeds: the
/// pieces between them lose the white space at their ends, each is then
/// classified, and the tokens go through the stack of open blocks. The
/// stack is handed back as it stands at the end of the text, the root
/// first, so a block that the text leaves open is still on it.
pub fn lex(text: &str) -> (r: Result<Vec<Block>, ParseError>)
    ensures
        stack_outcome(r) == open_blocks(classify_all(trimmed_all(words(text@)))),
{
    let pieces = split_words(text);
    let tokens = initial_tokenize(trim_all(&pieces));
    stack_blocks(tokens)
}

} // verus!
