//! The classifier: one lexeme to one token.

use vstd::prelude::*;
use vstd::string::*;
use crate::order::reversed;
use crate::scanner::{matches_at, strings_view, text_chars};
use crate::token::{BlockKind, SpecToken, Token, tokens_view, lemma_tokens_view_push};

verus! {

/// The token that a lexeme stands for. The lexeme is matched whole and as
/// it is; the first rule that fits decides. The brackets, `;`, `:=` and
/// `function` are markers, the empty lexeme is blank, a lexeme that begins
/// and ends with a double quote is a literal, and anything else is a name.
pub open spec fn classify(s: Seq<char>) -> SpecToken {
    if s == "{"@ {
        SpecToken::OpenBlock(BlockKind::Code)
    } else if s == "}"@ {
        SpecToken::CloseBlock(BlockKind::Code)
    } else if s == "("@ {
        SpecToken::OpenBlock(BlockKind::Data)
    } else if s == ")"@ {
        SpecToken::CloseBlock(BlockKind::Data)
    } else if s == ";"@ {
        SpecToken::End
    } else if s == ":="@ {
        SpecToken::Assign
    } else if s.len() == 0 {
        SpecToken::Blank
    } else if s == "function"@ {
        SpecToken::StartFunction
    } else if s.first() == '"' && s.last() == '"' {
        SpecToken::Value(s)
    } else {
        SpecToken::Name(s)
    }
}

/// The tokens of a run of lexemes, in order, without the blank ones.
pub open spec fn classify_all(lexemes: Seq<Seq<char>>) -> Seq<SpecToken> {
    lexemes.map_values(|s: Seq<char>| classify(s)).filter(|t: SpecToken| !(t is Blank))
}

/// One more lexeme at the end adds its token at the end, unless it is blank.
pub proof fn lemma_classify_all_push(lexemes: Seq<Seq<char>>, s: Seq<char>)
    ensures
        classify_all(lexemes.push(s)) == if classify(s) is Blank {
            classify_all(lexemes)
        } else {
            classify_all(lexemes).push(classify(s))
        },
{
    let f = |s: Seq<char>| classify(s);
    assert(lexemes.push(s).map_values(f) =~= lexemes.map_values(f).push(classify(s)));
    assert(lexemes.map_values(f).push(classify(s)).drop_last() =~= lexemes.map_values(f));
    reveal(Seq::filter);
}

/// A token that stands for one lexeme: a marker, a literal or a name.
pub open spec fn is_atom(t: SpecToken) -> bool {
    !(t is Blank) && !(t is BlockToken) && !(t is Function) && !(t is Assignment)
}

/// The classifier makes markers, literals and names only: among the tokens
/// of a run of lexemes there is no blank token and none that holds other
/// tokens.
pub proof fn lemma_classified_are_atoms(lexemes: Seq<Seq<char>>)
    ensures
        forall|i: int|
            0 <= i < classify_all(lexemes).len() ==> is_atom(#[trigger] classify_all(lexemes)[i]),
    decreases lexemes.len(),
{
    if lexemes.len() > 0 {
        lemma_classified_are_atoms(lexemes.drop_last());
        lemma_classify_all_push(lexemes.drop_last(), lexemes.last());
        assert(lexemes.drop_last().push(lexemes.last()) =~= lexemes);
    } else {
        assert(classify_all(lexemes) =~= Seq::<SpecToken>::empty());
    }
}

/// Whether the characters spell exactly `word`.
fn spells(chars: &Vec<char>, word: &str) -> (b: bool)
    ensures
        b == (chars@ == word@),
{
    assert(chars@.subrange(0, chars@.len() as int) =~= chars@);
    chars.len() == word.unicode_len() && matches_at(chars, 0, word)
}

impl Token {
    /// Classifies one lexeme.
    pub fn from_string(string: String) -> (t: Token)
        ensures
            t@ == classify(string@),
    {
        let chars = text_chars(string.as_str());
        if spells(&chars, "{") {
            Token::OpenBlock(BlockKind::Code)
        } else if spells(&chars, "}") {
            Token::CloseBlock(BlockKind::Code)
        } else if spells(&chars, "(") {
            Token::OpenBlock(BlockKind::Data)
        } else if spells(&chars, ")") {
            Token::CloseBlock(BlockKind::Data)
        } else if spells(&chars, ";") {
            Token::End
        } else if spells(&chars, ":=") {
            Token::Assign
        } else if chars.len() == 0 {
            Token::Blank
        } else if spells(&chars, "function") {
            Token::StartFunction
        } else if chars[0] == '"' && chars[chars.len() - 1] == '"' {
            Token::Value(string)
        } else {
            Token::Name(string)
        }
    }
}

/// Classifies each lexeme and drops the blank tokens.
pub fn initial_tokenize(strings: Vec<String>) -> (tokens: Vec<Token>)
    ensures
        tokens_view(tokens@) == classify_all(strings_view(strings@)),
{
    let ghost all = strings_view(strings@);
    let ghost n = strings@.len();
    let mut rest = reversed(strings);
    let mut tokens: Vec<Token> = Vec::new();
    assert(classify_all(Seq::<Seq<char>>::empty()) =~= Seq::<SpecToken>::empty());
    while rest.len() > 0
        invariant
            all == strings_view(strings@),
            n == strings@.len(),
            rest.len() <= n,
            forall|j: int| 0 <= j < rest.len() ==> rest@[j] == strings@[n - 1 - j],
            tokens_view(tokens@) == classify_all(all.take(n - rest.len())),
        decreases rest.len(),
    {
        let ghost done = n - rest.len();
        let string = rest.pop().unwrap();
        let token = Token::from_string(string);
        proof {
            assert(all.take(done + 1) =~= all.take(done).push(string@));
            lemma_classify_all_push(all.take(done), string@);
        }
        match token {
            Token::Blank => {},
            other => {
                tokens.push(other);
            },
        }
    }
    assert(all.take(n as int) =~= all);
    tokens
}

} // verus!
