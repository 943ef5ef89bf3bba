//! The scanner: source text to raw lexemes.

use vstd::prelude::*;
use vstd::string::*;
use crate::error::ParseError;

verus! {

/// Whether a character is alphabetic, as `char::is_alphabetic` reports it.
pub uninterp spec fn alphabetic(c: char) -> bool;

/// Calls `char::is_alphabetic`. Its answer depends on the character alone;
/// the contract gives that answer the name [`alphabetic`] and claims
/// nothing more about it.
#[verifier::external_body]
fn is_alphabetic(c: char) -> (b: bool)
    ensures
        b == alphabetic(c),
{
    c.is_alphabetic()
}

/// Calls `String::push`, which appends one character to the end of the
/// string and leaves the rest as it was.
#[verifier::external_body]
fn push_char(s: &mut String, c: char)
    ensures
        final(s)@ == old(s)@.push(c),
{
    s.push(c)
}

/// A blank between lexemes: a space or a line feed.
pub open spec fn is_space(c: char) -> bool {
    c == ' ' || c == '\n'
}

/// A character that is a lexeme by itself.
pub open spec fn is_punctuation(c: char) -> bool {
    c == '(' || c == ')' || c == '{' || c == '}' || c == ';'
}

/// Whether `word` stands in `chars` at position `at`.
pub open spec fn has_word_at(chars: Seq<char>, at: int, word: Seq<char>) -> bool {
    &&& 0 <= at
    &&& at + word.len() <= chars.len()
    &&& chars.subrange(at, at + word.len()) == word
}

/// Whether position `i` holds a letter. `letters[i]` says so for `chars[i]`;
/// a position that either sequence lacks holds none.
pub open spec fn letter_at(chars: Seq<char>, letters: Seq<bool>, i: int) -> bool {
    0 <= i < chars.len() && i < letters.len() && letters[i]
}

/// The length of the longest run of letters that starts at `from`.
pub open spec fn letter_run(chars: Seq<char>, letters: Seq<bool>, from: int) -> nat
    decreases chars.len() - from,
{
    if letter_at(chars, letters, from) {
        1 + letter_run(chars, letters, from + 1)
    } else {
        0
    }
}

/// How many characters stand between `from` and the next double quote at or
/// after it; `None` where the input ends first.
pub open spec fn quote_distance(chars: Seq<char>, from: int) -> Option<nat>
    decreases chars.len() - from,
{
    if from < 0 || from >= chars.len() {
        None
    } else if chars[from] == '"' {
        Some(0)
    } else {
        match quote_distance(chars, from + 1) {
            Some(d) => Some(d + 1),
            None => None,
        }
    }
}

/// The length of the lexeme that starts at `at`, a position that holds no
/// blank. The first rule that fits decides:
/// a bracket or `;` stands alone; `:=` and the keyword `function` are taken
/// whole; a double quote opens a literal that runs up to and including the
/// next double quote; a letter opens a name, the longest run of letters.
/// Any other character is refused.
pub open spec fn lexeme_len(chars: Seq<char>, letters: Seq<bool>, at: int) -> Result<
    nat,
    ParseError,
> {
    if is_punctuation(chars[at]) {
        Ok(1)
    } else if has_word_at(chars, at, ":="@) {
        Ok(":="@.len())
    } else if has_word_at(chars, at, "function"@) {
        Ok("function"@.len())
    } else if chars[at] == '"' {
        match quote_distance(chars, at + 1) {
            Some(d) => Ok(d + 2),
            None => Err(ParseError::UnterminatedString),
        }
    } else if letter_at(chars, letters, at) {
        Ok(letter_run(chars, letters, at))
    } else {
        Err(ParseError::UnexpectedCharacter)
    }
}

/// The lexemes of the input from position `from` on, in order, or the first
/// error met.
pub open spec fn scan_from(chars: Seq<char>, letters: Seq<bool>, from: int) -> Result<
    Seq<Seq<char>>,
    ParseError,
>
    decreases chars.len() - from,
    via scan_from_decreases
{
    if from < 0 || from >= chars.len() {
        Ok(Seq::empty())
    } else if is_space(chars[from]) {
        scan_from(chars, letters, from + 1)
    } else {
        match lexeme_len(chars, letters, from) {
            Err(e) => Err(e),
            Ok(n) => match scan_from(chars, letters, from + n) {
                Err(e) => Err(e),
                Ok(rest) => Ok(seq![chars.subrange(from, from + n)] + rest),
            },
        }
    }
}

#[via_fn]
proof fn scan_from_decreases(chars: Seq<char>, letters: Seq<bool>, from: int) {
    if 0 <= from < chars.len() {
        lemma_lexeme_len_bounds(chars, letters, from);
    }
}

/// A run of letters ends within the input.
pub proof fn lemma_letter_run_bounds(chars: Seq<char>, letters: Seq<bool>, from: int)
    requires
        0 <= from <= chars.len(),
    ensures
        from + letter_run(chars, letters, from) <= chars.len(),
        !letter_at(chars, letters, from + letter_run(chars, letters, from)),
        forall|i: int|
            from <= i < from + letter_run(chars, letters, from) ==> letter_at(chars, letters, i),
    decreases chars.len() - from,
{
    if letter_at(chars, letters, from) {
        lemma_letter_run_bounds(chars, letters, from + 1);
    }
}

/// Where a quote is found, it is the first one at or after `from`.
pub proof fn lemma_quote_distance(chars: Seq<char>, from: int)
    requires
        0 <= from,
    ensures
        match quote_distance(chars, from) {
            Some(d) => {
                &&& from + d < chars.len()
                &&& chars[from + d] == '"'
                &&& forall|i: int| from <= i < from + d ==> chars[i] != '"'
            },
            None => forall|i: int| from <= i < chars.len() ==> chars[i] != '"',
        },
    decreases chars.len() - from,
{
    if from < chars.len() && chars[from] != '"' {
        lemma_quote_distance(chars, from + 1);
    }
}

/// A lexeme is not empty and ends within the input.
pub proof fn lemma_lexeme_len_bounds(chars: Seq<char>, letters: Seq<bool>, at: int)
    requires
        0 <= at < chars.len(),
    ensures
        lexeme_len(chars, letters, at) matches Ok(n) ==> 1 <= n && at + n <= chars.len(),
{
    reveal_strlit(":=");
    reveal_strlit("function");
    lemma_letter_run_bounds(chars, letters, at);
    lemma_quote_distance(chars, at + 1);
}

/// The lexemes of a whole input.
pub open spec fn scan(chars: Seq<char>, letters: Seq<bool>) -> Result<Seq<Seq<char>>, ParseError> {
    scan_from(chars, letters, 0)
}

/// For each character, whether it is alphabetic.
pub open spec fn alphabetic_flags(chars: Seq<char>) -> Seq<bool> {
    Seq::new(chars.len(), |i: int| alphabetic(chars[i]))
}

/// The character sequences that a run of strings holds.
pub open spec fn strings_view(strings: Seq<String>) -> Seq<Seq<char>> {
    Seq::new(strings.len(), |i: int| strings[i]@)
}

/// The model of a scanner's outcome.
pub open spec fn lexemes_view(r: Result<Vec<String>, ParseError>) -> Result<
    Seq<Seq<char>>,
    ParseError,
> {
    match r {
        Ok(v) => Ok(strings_view(v@)),
        Err(e) => Err(e),
    }
}

/// No lexeme is empty.
pub proof fn lemma_lexemes_not_empty(chars: Seq<char>, letters: Seq<bool>, from: int)
    ensures
        scan_from(chars, letters, from) matches Ok(lexemes) ==> forall|i: int|
            0 <= i < lexemes.len() ==> (#[trigger] lexemes[i]).len() > 0,
    decreases chars.len() - from,
{
    if 0 <= from < chars.len() {
        if is_space(chars[from]) {
            lemma_lexemes_not_empty(chars, letters, from + 1);
        } else if let Ok(n) = lexeme_len(chars, letters, from) {
            lemma_lexeme_len_bounds(chars, letters, from);
            lemma_lexemes_not_empty(chars, letters, from + n);
        }
    }
}

/// The characters of a text, in order.
pub(crate) fn text_chars(text: &str) -> (chars: Vec<char>)
    ensures
        chars@ == text@,
{
    let mut chars: Vec<char> = Vec::new();
    for c in it: text.chars()
        invariant
            it.seq() == text@,
            chars@ == it.seq().take(it.index() as int),
    {
        chars.push(c);
    }
    chars
}

/// Tells for each character whether it is alphabetic.
pub fn letter_flags(chars: &Vec<char>) -> (letters: Vec<bool>)
    ensures
        letters@ == alphabetic_flags(chars@),
{
    let mut letters: Vec<bool> = Vec::new();
    let mut i: usize = 0;
    while i < chars.len()
        invariant
            i <= chars.len(),
            letters.len() == i,
            forall|k: int| 0 <= k < i ==> letters@[k] == alphabetic(chars@[k]),
        decreases chars.len() - i,
    {
        letters.push(is_alphabetic(chars[i]));
        i += 1;
    }
    letters
}

/// Whether `word` stands in `chars` at position `at`.
pub(crate) fn matches_at(chars: &Vec<char>, at: usize, word: &str) -> (b: bool)
    ensures
        b == has_word_at(chars@, at as int, word@),
{
    let n: usize = word.unicode_len();
    if n > chars.len() || at > chars.len() - n {
        return false;
    }
    let mut j: usize = 0;
    while j < n
        invariant
            j <= n,
            n == word@.len(),
            at + n <= chars.len(),
            forall|k: int| 0 <= k < j ==> chars@[at + k] == word@[k],
        decreases n - j,
    {
        if chars[at + j] != word.get_char(j) {
            return false;
        }
        j += 1;
    }
    assert(chars@.subrange(at as int, at + n) =~= word@);
    true
}

/// The position of the first double quote at or after `from`.
fn quote_after(chars: &Vec<char>, from: usize) -> (found: Option<usize>)
    ensures
        match found {
            Some(j) => from <= j < chars.len() && quote_distance(chars@, from as int) == Some(
                (j - from) as nat,
            ),
            None => quote_distance(chars@, from as int) is None,
        },
{
    let mut j: usize = from;
    while j < chars.len()
        invariant
            from <= j,
            quote_distance(chars@, from as int) == match quote_distance(chars@, j as int) {
                Some(d) => Some((d + j - from) as nat),
                None => None,
            },
        decreases chars.len() - j,
    {
        if chars[j] == '"' {
            return Some(j);
        }
        j += 1;
    }
    None
}

/// The end of the run of letters that starts at `from`.
fn letters_end(chars: &Vec<char>, letters: &Vec<bool>, from: usize) -> (end: usize)
    requires
        from <= chars.len(),
    ensures
        end == from + letter_run(chars@, letters@, from as int),
        end <= chars.len(),
{
    let mut end: usize = from;
    while end < chars.len() && end < letters.len() && letters[end]
        invariant
            from <= end <= chars.len(),
            from + letter_run(chars@, letters@, from as int) == end + letter_run(
                chars@,
                letters@,
                end as int,
            ),
        decreases chars.len() - end,
    {
        end += 1;
    }
    end
}

/// The characters from `from` up to `to`, as a string.
pub(crate) fn lexeme(chars: &Vec<char>, from: usize, to: usize) -> (s: String)
    requires
        from <= to <= chars.len(),
    ensures
        s@ == chars@.subrange(from as int, to as int),
{
    let mut s = String::new();
    let mut i: usize = from;
    while i < to
        invariant
            from <= i <= to <= chars.len(),
            s@ == chars@.subrange(from as int, i as int),
        decreases to - i,
    {
        push_char(&mut s, chars[i]);
        i += 1;
    }
    s
}

/// Where the lexeme that starts at `at` ends.
fn lexeme_end(chars: &Vec<char>, letters: &Vec<bool>, at: usize) -> (r: Result<usize, ParseError>)
    requires
        at < chars.len(),
    ensures
        match r {
            Ok(end) => at < end <= chars.len() && lexeme_len(chars@, letters@, at as int) == Ok::<
                nat,
                ParseError,
            >((end - at) as nat),
            Err(e) => lexeme_len(chars@, letters@, at as int) == Err::<nat, ParseError>(e),
        },
{
    proof {
        reveal_strlit(":=");
        reveal_strlit("function");
        lemma_lexeme_len_bounds(chars@, letters@, at as int);
    }
    let c = chars[at];
    if c == '(' || c == ')' || c == '{' || c == '}' || c == ';' {
        Ok(at + 1)
    } else if matches_at(chars, at, ":=") {
        Ok(at + 2)
    } else if matches_at(chars, at, "function") {
        Ok(at + 8)
    } else if c == '"' {
        match quote_after(chars, at + 1) {
            Some(j) => Ok(j + 1),
            None => Err(ParseError::UnterminatedString),
        }
    } else if at < letters.len() && letters[at] {
        Ok(letters_end(chars, letters, at))
    } else {
        Err(ParseError::UnexpectedCharacter)
    }
}

/// Cuts the input into its lexemes. `letters[i]` tells whether `chars[i]`
/// may stand in a name.
pub fn scan_chars(chars: &Vec<char>, letters: &Vec<bool>) -> (r: Result<Vec<String>, ParseError>)
    ensures
        lexemes_view(r) == scan(chars@, letters@),
{
    let mut out: Vec<String> = Vec::new();
    let mut i: usize = 0;
    while i < chars.len()
        invariant
            i <= chars.len(),
            scan(chars@, letters@) == match scan_from(chars@, letters@, i as int) {
                Ok(rest) => Ok(strings_view(out@) + rest),
                Err(e) => Err(e),
            },
        decreases chars.len() - i,
    {
        let c = chars[i];
        if c == ' ' || c == '\n' {
            i += 1;
        } else {
            match lexeme_end(chars, letters, i) {
                Err(e) => {
                    return Err(e);
                },
                Ok(end) => {
                    let ghost before = strings_view(out@);
                    let word = lexeme(chars, i, end);
                    out.push(word);
                    proof {
                        let piece = chars@.subrange(i as int, end as int);
                        assert(strings_view(out@) =~= before.push(piece));
                        if let Ok(rest) = scan_from(chars@, letters@, end as int) {
                            assert(before + (seq![piece] + rest) =~= before.push(piece) + rest);
                        }
                    }
                    i = end;
                },
            }
        }
    }
    Ok(out)
}

/// Cuts source text into its lexemes: blanks are dropped, brackets and `;`
/// stand alone, `:=` and `function` are taken whole, a quoted literal keeps
/// its quotes, and a name is the longest run of alphabetic characters.
/// Text that ends inside a literal, or holds a character that starts no
/// lexeme, is refused.
pub fn split_tokens(string: &String) -> (r: Result<Vec<String>, ParseError>)
    ensures
        lexemes_view(r) == scan(string@, alphabetic_flags(string@)),
{
    let chars = text_chars(string.as_str());
    let letters = letter_flags(&chars);
    scan_chars(&chars, &letters)
}

} // verus!
