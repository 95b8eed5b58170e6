//! The lexer of the language's own text form.

use vstd::prelude::*;

verus! {

/// The tokens of the language.
#[derive(PartialEq, Eq, Structural, Debug, Clone, Copy)]
pub enum LexerToken {
    /// The name of a part of a file: one ASCII letter followed by `:`.
    Segment,
}

/// Whether `c` is an ASCII letter.
pub open spec fn is_ascii_letter(c: char) -> bool {
    ('a' <= c && c <= 'z') || ('A' <= c && c <= 'Z')
}

/// Whether the two characters of `s` from `2 * k` form a segment token.
pub open spec fn segment_at(s: Seq<char>, k: int) -> bool {
    is_ascii_letter(s[2 * k]) && s[2 * k + 1] == ':'
}

/// Whether `s` splits, from its start, into segment tokens with nothing left.
pub open spec fn lexes(s: Seq<char>) -> bool {
    s.len() % 2 == 0 && forall|k: int| 0 <= k < s.len() / 2 ==> #[trigger] segment_at(s, k)
}

/// Splits `input` into tokens; fails on the first character where no token
/// starts.
pub fn parse(input: &str) -> (r: Result<Vec<LexerToken>, ()>)
    ensures
        r is Ok <==> lexes(input@),
        r matches Ok(tokens) ==> tokens@ == Seq::new(
            (input@.len() / 2) as nat,
            |i: int| LexerToken::Segment,
        ),
{
    let n = input.unicode_len();
    let mut tokens: Vec<LexerToken> = Vec::new();
    let mut i: usize = 0;
    while i < n
        invariant
            n == input@.len(),
            i % 2 == 0,
            i <= n,
            tokens@ == Seq::new((i / 2) as nat, |j: int| LexerToken::Segment),
            forall|k: int| 0 <= k < i / 2 ==> #[trigger] segment_at(input@, k),
        decreases n - i,
    {
        if i + 1 >= n {
            return Err(());
        }
        let c = input.get_char(i);
        let colon = input.get_char(i + 1);
        if !(('a' <= c && c <= 'z') || ('A' <= c && c <= 'Z')) || colon != ':' {
            assert(!segment_at(input@, (i / 2) as int));
            return Err(());
        }
        tokens.push(LexerToken::Segment);
        i = i + 2;
        assert(tokens@ =~= Seq::new((i / 2) as nat, |j: int| LexerToken::Segment));
    }
    Ok(tokens)
}

} // verus!
