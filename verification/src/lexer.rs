//! Splitting program text into tokens.
//!
//! A token records its kind and where it stands in the text. White space and
//! comments are not tokens: they are the gaps between them, so the text can be
//! put back together exactly around any token.

use vstd::prelude::*;
use crate::text::{is_space, is_digit, is_ident_start, is_ident_continue, spec_is_space, spec_is_digit, spec_is_ident_start, spec_is_ident_continue};

verus! {

/// What kind of thing a token is.
#[derive(Clone, Copy, Debug, PartialEq, Eq, Structural)]
pub enum TokenKind {
    /// A name or a keyword.
    Ident,
    /// A number, with its suffix.
    Number,
    /// A string between double quotes, raw or not.
    Str,
    /// A character between single quotes.
    CharLit,
    /// A lifetime or a loop label.
    Lifetime,
    /// Any other single character.
    Punct,
}

/// A token: its kind, the position of its first character, and the position
/// after its last.
#[derive(Clone, Copy, Debug, PartialEq, Eq, Structural)]
pub struct Token {
    pub kind: TokenKind,
    pub start: usize,
    pub end: usize,
}

/// First position at or after `i` that holds no name character.
pub open spec fn run_end(s: Seq<char>, i: int) -> int
    decreases s.len() - i,
{
    if 0 <= i < s.len() && is_ident_continue(s[i]) {
        run_end(s, i + 1)
    } else {
        i
    }
}

/// First position at or after `i` that holds a line feed, or the end.
pub open spec fn line_end(s: Seq<char>, i: int) -> int
    decreases s.len() - i,
{
    if 0 <= i < s.len() && s[i] != '\n' {
        line_end(s, i + 1)
    } else {
        i
    }
}

/// Position just after the `*/` that closes a block comment, scanning from `i`
/// with `depth` comments open; comments nest. `None` when the text ends first.
pub open spec fn block_end(s: Seq<char>, i: int, depth: nat) -> Option<int>
    decreases s.len() - i,
{
    if i < 0 || i + 1 >= s.len() {
        None
    } else if s[i] == '*' && s[i + 1] == '/' {
        if depth <= 1 {
            Some(i + 2)
        } else {
            block_end(s, i + 2, (depth - 1) as nat)
        }
    } else if s[i] == '/' && s[i + 1] == '*' {
        block_end(s, i + 2, depth + 1)
    } else {
        block_end(s, i + 1, depth)
    }
}

/// Position just after the first `quote` at or after `i` that no backslash
/// escapes. `None` when the text ends first.
pub open spec fn quoted_end(s: Seq<char>, i: int, quote: char) -> Option<int>
    decreases s.len() - i,
{
    if i < 0 || i >= s.len() {
        None
    } else if s[i] == quote {
        Some(i + 1)
    } else if s[i] == '\\' {
        if i + 1 < s.len() {
            quoted_end(s, i + 2, quote)
        } else {
            None
        }
    } else {
        quoted_end(s, i + 1, quote)
    }
}

/// First position at or after `i` that holds no `#`.
pub open spec fn hash_end(s: Seq<char>, i: int) -> int
    decreases s.len() - i,
{
    if 0 <= i < s.len() && s[i] == '#' {
        hash_end(s, i + 1)
    } else {
        i
    }
}

/// Position just after the first `"` at or after `i` that `hashes` or more
/// `#` follow, and after those `hashes` `#`: the end of a raw string. `None`
/// when the text ends first.
pub open spec fn raw_end(s: Seq<char>, i: int, hashes: int) -> Option<int>
    decreases s.len() - i,
{
    if i < 0 || i >= s.len() {
        None
    } else if s[i] == '"' && hash_end(s, i + 1) - (i + 1) >= hashes {
        Some(i + 1 + hashes)
    } else {
        raw_end(s, i + 1, hashes)
    }
}

/// Where the `r` of a raw string stands if one starts at `p`: at `p`, or
/// after a `b` at `p`.
pub open spec fn raw_mark(s: Seq<char>, p: int) -> int {
    if s[p] == 'b' {
        p + 1
    } else {
        p
    }
}

/// A raw string starts at `p`: an `r` (after a `b`, for bytes), any number
/// of `#`, and a `"`.
pub open spec fn raw_starts(s: Seq<char>, p: int) -> bool {
    let r = raw_mark(s, p);
    let q = hash_end(s, r + 1);
    0 <= r < s.len() && s[r] == 'r' && q < s.len() && s[q] == '"'
}

/// What starts at position `p`: a token of some kind, or (`None` inside) a
/// piece of white space or a comment; and where it ends. `None` outside when
/// a comment, string or character is not closed, or a quote opens nothing.
#[verifier::opaque]
pub open spec fn lexeme_at(s: Seq<char>, p: int) -> Option<(Option<TokenKind>, int)> {
    let c = s[p];
    if is_space(c) {
        Some((None, p + 1))
    } else if c == '/' && p + 1 < s.len() && s[p + 1] == '/' {
        Some((None, line_end(s, p + 2)))
    } else if c == '/' && p + 1 < s.len() && s[p + 1] == '*' {
        match block_end(s, p + 2, 1) {
            Some(e) => Some((None, e)),
            None => None,
        }
    } else if c == '"' {
        match quoted_end(s, p + 1, '"') {
            Some(e) => Some((Some(TokenKind::Str), e)),
            None => None,
        }
    } else if c == '\'' {
        if p + 1 >= s.len() {
            None
        } else if s[p + 1] == '\\' {
            match quoted_end(s, p + 1, '\'') {
                Some(e) => Some((Some(TokenKind::CharLit), e)),
                None => None,
            }
        } else if p + 2 < s.len() && s[p + 2] == '\'' {
            Some((Some(TokenKind::CharLit), p + 3))
        } else if is_ident_start(s[p + 1]) {
            Some((Some(TokenKind::Lifetime), run_end(s, p + 2)))
        } else {
            None
        }
    } else if is_ident_start(c) {
        if raw_starts(s, p) {
            let r = raw_mark(s, p);
            let q = hash_end(s, r + 1);
            match raw_end(s, q + 1, q - (r + 1)) {
                Some(e) => Some((Some(TokenKind::Str), e)),
                None => None,
            }
        } else {
            Some((Some(TokenKind::Ident), run_end(s, p + 1)))
        }
    } else if is_digit(c) {
        Some((Some(TokenKind::Number), run_end(s, p + 1)))
    } else {
        Some((Some(TokenKind::Punct), p + 1))
    }
}

/// The tokens of `s` from position `p` on, appended to `acc`.
pub open spec fn lex_from(s: Seq<char>, p: int, acc: Seq<Token>) -> Option<Seq<Token>>
    decreases s.len() - p,
{
    if p < 0 || p >= s.len() {
        Some(acc)
    } else {
        match lexeme_at(s, p) {
            None => None,
            Some((kind, e)) => {
                if p < e <= s.len() {
                    lex_from(
                        s,
                        e,
                        match kind {
                            Some(k) => acc.push(Token { kind: k, start: p as usize, end: e as usize }),
                            None => acc,
                        },
                    )
                } else {
                    None
                }
            },
        }
    }
}

/// The tokens of a text, or `None` where it cannot be split.
pub open spec fn lex_spec(s: Seq<char>) -> Option<Seq<Token>> {
    lex_from(s, 0, Seq::empty())
}

/// Tokens lie inside the text, are not empty, follow one another without
/// overlap, and a punctuation token is one character.
pub open spec fn tokens_wf(s: Seq<char>, toks: Seq<Token>) -> bool {
    &&& forall|i: int| 0 <= i < toks.len() ==> (#[trigger] toks[i]).start < toks[i].end <= s.len()
    &&& forall|i: int, j: int|
        0 <= i < j < toks.len() ==> (#[trigger] toks[i]).end <= (#[trigger] toks[j]).start
    &&& forall|i: int|
        0 <= i < toks.len() && (#[trigger] toks[i]).kind == TokenKind::Punct ==> toks[i].end
            == toks[i].start + 1
}

/// Only white space and comments stand between the positions `a` and `b`.
pub open spec fn blank(s: Seq<char>, a: int, b: int) -> bool
    decreases b - a,
{
    if a >= b {
        a == b
    } else {
        lexeme_at(s, a) matches Some((None, e)) && a < e <= b && blank(s, e, b)
    }
}

/// Where the token before token `i` ends; the start of the text for the
/// first.
pub open spec fn prev_end(toks: Seq<Token>, i: int) -> int {
    if i <= 0 {
        0
    } else {
        toks[i - 1].end as int
    }
}

/// The tokens tile the text up to position `p`: they are well formed and end
/// by `p`; each is what starts at its first character, of the kind and the
/// length found there; and only white space and comments stand before the
/// first, between two neighbours, and between the last and `p`.
pub open spec fn tiled_to(s: Seq<char>, toks: Seq<Token>, p: int) -> bool {
    &&& tokens_wf(s, toks)
    &&& forall|i: int| 0 <= i < toks.len() ==> (#[trigger] toks[i]).end <= p
    &&& forall|i: int|
        0 <= i < toks.len() ==> lexeme_at(s, (#[trigger] toks[i]).start as int) == Some(
            (Some(toks[i].kind), toks[i].end as int),
        )
    &&& forall|i: int|
        0 <= i < toks.len() ==> blank(s, prev_end(toks, i), (#[trigger] toks[i]).start as int)
    &&& blank(s, prev_end(toks, toks.len() as int), p)
}

/// The tokens tile the whole text.
pub open spec fn tiles(s: Seq<char>, toks: Seq<Token>) -> bool {
    tiled_to(s, toks, s.len() as int)
}

proof fn lemma_blank_extend(s: Seq<char>, a: int, p: int, e: int)
    requires
        blank(s, a, p),
        lexeme_at(s, p) == Some((None::<TokenKind>, e)),
        p < e,
    ensures
        blank(s, a, e),
    decreases p - a,
{
    if a >= p {
        assert(blank(s, e, e));
    } else {
        let e1 = lexeme_at(s, a).unwrap().1;
        lemma_blank_extend(s, e1, p, e);
    }
}

proof fn lemma_punct_is_one_char(s: Seq<char>, p: int)
    ensures
        lexeme_at(s, p) matches Some((Some(k), e)) ==> (k == TokenKind::Punct ==> e == p + 1),
{
    reveal(lexeme_at);
}

proof fn lemma_push_tiled(s: Seq<char>, acc: Seq<Token>, p: int, k: TokenKind, e: int)
    requires
        tiled_to(s, acc, p),
        lexeme_at(s, p) == Some((Some(k), e)),
        0 <= p < e <= s.len(),
        e <= usize::MAX,
    ensures
        tiled_to(s, acc.push(Token { kind: k, start: p as usize, end: e as usize }), e),
{
    let t = Token { kind: k, start: p as usize, end: e as usize };
    let next = acc.push(t);
    lemma_punct_is_one_char(s, p);
    assert forall|i: int| 0 <= i < next.len() implies blank(
        s,
        prev_end(next, i),
        (#[trigger] next[i]).start as int,
    ) by {
        if i < acc.len() {
            assert(next[i] == acc[i]);
            assert(prev_end(next, i) == prev_end(acc, i));
        } else {
            assert(prev_end(next, i) == prev_end(acc, acc.len() as int));
        }
    }
    assert(blank(s, e, e));
    assert(prev_end(next, next.len() as int) == e);
}

/// Splitting a text yields tokens that tile it: if the tokens found so far
/// tile the text up to `p`, those found in the end tile all of it.
pub proof fn lemma_lex_tiles(s: Seq<char>, p: int, acc: Seq<Token>)
    requires
        0 <= p <= s.len() <= usize::MAX,
        tiled_to(s, acc, p),
    ensures
        lex_from(s, p, acc) matches Some(v) ==> tiles(s, v),
    decreases s.len() - p,
{
    if p < s.len() {
        match lexeme_at(s, p) {
            None => {},
            Some((kind, e)) => {
                if p < e <= s.len() {
                    match kind {
                        Some(k) => {
                            lemma_push_tiled(s, acc, p, k, e);
                            lemma_lex_tiles(
                                s,
                                e,
                                acc.push(Token { kind: k, start: p as usize, end: e as usize }),
                            );
                        },
                        None => {
                            lemma_blank_extend(s, prev_end(acc, acc.len() as int), p, e);
                            lemma_lex_tiles(s, e, acc);
                        },
                    }
                }
            },
        }
    }
}

/// The tokens of a text that is no longer than the machine can hold tile it.
pub proof fn lemma_tokens_tile(s: Seq<char>)
    requires
        s.len() <= usize::MAX,
    ensures
        lex_spec(s) matches Some(v) ==> tiles(s, v) && tokens_wf(s, v),
{
    assert(blank(s, 0, 0));
    lemma_lex_tiles(s, 0, Seq::empty());
}

fn scan_run(text: &Vec<char>, i: usize) -> (j: usize)
    requires
        i <= text.len(),
    ensures
        j == run_end(text@, i as int),
        i <= j <= text.len(),
{
    let mut j: usize = i;
    while j < text.len() && is_ident_continue(text[j])
        invariant
            i <= j <= text.len(),
            run_end(text@, j as int) == run_end(text@, i as int),
        decreases text.len() - j,
    {
        j += 1;
    }
    j
}

fn scan_line(text: &Vec<char>, i: usize) -> (j: usize)
    requires
        i <= text.len(),
    ensures
        j == line_end(text@, i as int),
        i <= j <= text.len(),
{
    let mut j: usize = i;
    while j < text.len() && text[j] != '\n'
        invariant
            i <= j <= text.len(),
            line_end(text@, j as int) == line_end(text@, i as int),
        decreases text.len() - j,
    {
        j += 1;
    }
    j
}

fn scan_block(text: &Vec<char>, i: usize) -> (r: Option<usize>)
    requires
        2 <= i <= text.len(),
    ensures
        r is Some <==> block_end(text@, i as int, 1) is Some,
        r matches Some(e) ==> block_end(text@, i as int, 1) == Some(e as int) && i < e
            <= text.len(),
{
    let mut j: usize = i;
    let mut depth: usize = 1;
    while j < text.len() && j + 1 < text.len()
        invariant
            i <= j <= text.len(),
            1 <= depth <= j,
            block_end(text@, j as int, depth as nat) == block_end(text@, i as int, 1),
        decreases text.len() - j,
    {
        if text[j] == '*' && text[j + 1] == '/' {
            if depth <= 1 {
                return Some(j + 2);
            }
            depth -= 1;
            j += 2;
        } else if text[j] == '/' && text[j + 1] == '*' {
            depth += 1;
            j += 2;
        } else {
            j += 1;
        }
    }
    None
}

fn scan_quoted(text: &Vec<char>, i: usize, quote: char) -> (r: Option<usize>)
    requires
        i <= text.len(),
    ensures
        r is Some <==> quoted_end(text@, i as int, quote) is Some,
        r matches Some(e) ==> quoted_end(text@, i as int, quote) == Some(e as int) && i < e
            <= text.len(),
{
    let mut j: usize = i;
    while j < text.len()
        invariant
            i <= j <= text.len(),
            quoted_end(text@, j as int, quote) == quoted_end(text@, i as int, quote),
        decreases text.len() - j,
    {
        if text[j] == quote {
            return Some(j + 1);
        } else if text[j] == '\\' {
            if j + 1 < text.len() {
                j += 2;
            } else {
                return None;
            }
        } else {
            j += 1;
        }
    }
    None
}

fn scan_hashes(text: &Vec<char>, i: usize) -> (j: usize)
    requires
        i <= text.len(),
    ensures
        j == hash_end(text@, i as int),
        i <= j <= text.len(),
{
    let mut j: usize = i;
    while j < text.len() && text[j] == '#'
        invariant
            i <= j <= text.len(),
            hash_end(text@, j as int) == hash_end(text@, i as int),
        decreases text.len() - j,
    {
        j += 1;
    }
    j
}

fn scan_raw(text: &Vec<char>, i: usize, hashes: usize) -> (r: Option<usize>)
    requires
        i <= text.len(),
    ensures
        r is Some <==> raw_end(text@, i as int, hashes as int) is Some,
        r matches Some(e) ==> raw_end(text@, i as int, hashes as int) == Some(e as int) && i < e
            <= text.len(),
{
    let mut j: usize = i;
    while j < text.len()
        invariant
            i <= j <= text.len(),
            raw_end(text@, j as int, hashes as int) == raw_end(text@, i as int, hashes as int),
        decreases text.len() - j,
    {
        if text[j] == '"' {
            let h = scan_hashes(text, j + 1);
            if h - (j + 1) >= hashes {
                return Some(j + 1 + hashes);
            }
        }
        j += 1;
    }
    None
}

/// What starts at position `p` of `text`, and where it ends.
pub fn lexeme(text: &Vec<char>, p: usize) -> (r: Option<(Option<TokenKind>, usize)>)
    requires
        p < text.len(),
    ensures
        r is Some <==> lexeme_at(text@, p as int) is Some,
        r matches Some((k, e)) ==> lexeme_at(text@, p as int) == Some((k, e as int)) && p < e
            <= text.len(),
{
    proof {
        reveal(lexeme_at);
    }
    let c = text[p];
    let n = text.len();
    if is_space(c) {
        Some((None, p + 1))
    } else if c == '/' && p + 1 < n && text[p + 1] == '/' {
        Some((None, scan_line(text, p + 2)))
    } else if c == '/' && p + 1 < n && text[p + 1] == '*' {
        match scan_block(text, p + 2) {
            Some(e) => Some((None, e)),
            None => None,
        }
    } else if c == '"' {
        match scan_quoted(text, p + 1, '"') {
            Some(e) => Some((Some(TokenKind::Str), e)),
            None => None,
        }
    } else if c == '\'' {
        if p + 1 >= n {
            None
        } else if text[p + 1] == '\\' {
            match scan_quoted(text, p + 1, '\'') {
                Some(e) => Some((Some(TokenKind::CharLit), e)),
                None => None,
            }
        } else if p + 2 < n && text[p + 2] == '\'' {
            Some((Some(TokenKind::CharLit), p + 3))
        } else if is_ident_start(text[p + 1]) {
            Some((Some(TokenKind::Lifetime), scan_run(text, p + 2)))
        } else {
            None
        }
    } else if is_ident_start(c) {
        let r: usize = if c == 'b' {
            p + 1
        } else {
            p
        };
        if r < n && text[r] == 'r' {
            let q = scan_hashes(text, r + 1);
            if q < n && text[q] == '"' {
                return match scan_raw(text, q + 1, q - (r + 1)) {
                    Some(e) => Some((Some(TokenKind::Str), e)),
                    None => None,
                };
            }
        }
        Some((Some(TokenKind::Ident), scan_run(text, p + 1)))
    } else if is_digit(c) {
        Some((Some(TokenKind::Number), scan_run(text, p + 1)))
    } else {
        Some((Some(TokenKind::Punct), p + 1))
    }
}

/// Splits `text` into tokens. Fails where a comment, a string or a character
/// is not closed, or a single quote opens neither a character nor a lifetime.
pub fn lex(text: &Vec<char>) -> (r: Option<Vec<Token>>)
    ensures
        r is Some <==> lex_spec(text@) is Some,
        r matches Some(v) ==> v@ == lex_spec(text@).unwrap() && tokens_wf(text@, v@) && tiles(
            text@,
            v@,
        ),
{
    let mut toks: Vec<Token> = Vec::new();
    let mut p: usize = 0;
    while p < text.len()
        invariant
            p <= text.len(),
            lex_from(text@, p as int, toks@) == lex_spec(text@),
        decreases text.len() - p,
    {
        match lexeme(text, p) {
            None => {
                return None;
            },
            Some((kind, e)) => {
                match kind {
                    Some(k) => {
                        toks.push(Token { kind: k, start: p, end: e });
                    },
                    None => {},
                }
                p = e;
            },
        }
    }
    proof {
        lemma_tokens_tile(text@);
    }
    Some(toks)
}

} // verus!
