//! A program text together with its tokens.

use vstd::prelude::*;
use crate::lexer::{lex, lex_spec, tokens_wf, Token, TokenKind};
use crate::text::{span_eq, span_is};

verus! {

/// A text and the tokens it was split into.
pub struct Source {
    pub text: Vec<char>,
    pub tokens: Vec<Token>,
}

/// The mathematical content of a [`Source`].
pub struct SourceView {
    pub text: Seq<char>,
    pub tokens: Seq<Token>,
}

impl View for Source {
    type V = SourceView;

    open spec fn view(&self) -> SourceView {
        SourceView { text: self.text@, tokens: self.tokens@ }
    }
}

impl SourceView {
    /// The tokens lie inside the text, in order.
    pub open spec fn wf(self) -> bool {
        tokens_wf(self.text, self.tokens)
    }

    /// Number of tokens.
    pub open spec fn len(self) -> int {
        self.tokens.len() as int
    }

    /// The characters of token `k`.
    pub open spec fn text_of(self, k: int) -> Seq<char> {
        self.text.subrange(self.tokens[k].start as int, self.tokens[k].end as int)
    }

    /// Token `k` exists and is the punctuation character `c`.
    pub open spec fn is_punct(self, k: int, c: char) -> bool {
        0 <= k < self.tokens.len() && self.tokens[k].kind == TokenKind::Punct
            && self.text[self.tokens[k].start as int] == c
    }

    /// Token `k` exists and is a name or a keyword.
    pub open spec fn is_ident(self, k: int) -> bool {
        0 <= k < self.tokens.len() && self.tokens[k].kind == TokenKind::Ident
    }

    /// Token `k` exists and is a lifetime.
    pub open spec fn is_lifetime(self, k: int) -> bool {
        0 <= k < self.tokens.len() && self.tokens[k].kind == TokenKind::Lifetime
    }

    /// Token `k` is the name or keyword spelled `w`.
    pub open spec fn is_word(self, k: int, w: Seq<char>) -> bool {
        self.is_ident(k) && self.text_of(k) == w
    }

    /// Token `k` opens a group; with `angles`, `<` opens one too.
    pub open spec fn is_open(self, k: int, angles: bool) -> bool {
        self.is_punct(k, '(') || self.is_punct(k, '[') || self.is_punct(k, '{') || (angles
            && self.is_punct(k, '<'))
    }

    /// Token `k` closes a group; with `angles`, so does a `>` that is not the
    /// head of an arrow.
    pub open spec fn is_shut(self, k: int, angles: bool) -> bool {
        self.is_punct(k, ')') || self.is_punct(k, ']') || self.is_punct(k, '}') || (angles
            && self.is_punct(k, '>') && !self.is_punct(k - 1, '-'))
    }

    /// Token `k` is an occurrence of the variable `name`: the name itself, not
    /// a field or method selected with a dot.
    pub open spec fn is_var(self, k: int, name: Seq<char>) -> bool {
        self.is_word(k, name) && !self.is_punct(k - 1, '.')
    }

    /// Some token in `lo..hi` is an occurrence of the variable `name`.
    pub open spec fn mentions(self, lo: int, hi: int, name: Seq<char>) -> bool {
        exists|k: int| lo <= k < hi && self.is_var(k, name)
    }

    /// Number of occurrences of the variable `name` among the tokens `lo..hi`.
    pub open spec fn count(self, lo: int, hi: int, name: Seq<char>) -> nat
        decreases hi - lo,
    {
        if lo >= hi {
            0
        } else {
            self.count(lo, hi - 1, name) + if self.is_var(hi - 1, name) {
                1nat
            } else {
                0nat
            }
        }
    }
}

/// Token `i` of `a` and token `j` of `b` are of one kind and spelled alike.
pub open spec fn same_token(a: SourceView, i: int, b: SourceView, j: int) -> bool {
    a.tokens[i].kind == b.tokens[j].kind && a.text_of(i) == b.text_of(j)
}

/// The keyword `fn`.
pub open spec fn word_fn() -> Seq<char> {
    seq!['f', 'n']
}

/// The keyword `mut`.
pub open spec fn word_mut() -> Seq<char> {
    seq!['m', 'u', 't']
}

/// The keyword `let`.
pub open spec fn word_let() -> Seq<char> {
    seq!['l', 'e', 't']
}

/// The character that closes what `c` opens.
pub open spec fn closer(c: char) -> char {
    if c == '(' {
        ')'
    } else if c == '[' {
        ']'
    } else {
        '}'
    }
}

/// Whether the brackets among the tokens from `k` on close, in the right
/// order and each by its own kind, what `stack` says is open, and nothing
/// else.
pub open spec fn balanced_from(v: SourceView, k: int, stack: Seq<char>) -> bool
    decreases v.tokens.len() - k,
{
    if k < 0 || k >= v.tokens.len() {
        stack.len() == 0
    } else if v.tokens[k].kind == TokenKind::Punct {
        let c = v.text[v.tokens[k].start as int];
        if c == '(' || c == '[' || c == '{' {
            balanced_from(v, k + 1, stack.push(closer(c)))
        } else if c == ')' || c == ']' || c == '}' {
            stack.len() > 0 && stack.last() == c && balanced_from(v, k + 1, stack.drop_last())
        } else {
            balanced_from(v, k + 1, stack)
        }
    } else {
        balanced_from(v, k + 1, stack)
    }
}

/// The text with its tokens, where it can be split into tokens.
pub open spec fn source_of(s: Seq<char>) -> SourceView {
    SourceView { text: s, tokens: lex_spec(s).unwrap() }
}

/// A text can be read when it splits into tokens (every comment, string and
/// character is closed) and its round, square and curly brackets match.
pub open spec fn tokenized(s: Seq<char>) -> bool {
    lex_spec(s) is Some && balanced_from(source_of(s), 0, Seq::empty())
}

impl Source {
    /// Whether token `k` exists and is the punctuation character `c`.
    pub fn is_punct(&self, k: usize, c: char) -> (r: bool)
        requires
            self@.wf(),
        ensures
            r == self@.is_punct(k as int, c),
    {
        k < self.tokens.len() && self.tokens[k].kind == TokenKind::Punct
            && self.text[self.tokens[k].start] == c
    }

    /// Whether token `k` exists and is a name or a keyword.
    pub fn is_ident(&self, k: usize) -> (r: bool)
        ensures
            r == self@.is_ident(k as int),
    {
        k < self.tokens.len() && self.tokens[k].kind == TokenKind::Ident
    }

    /// Whether token `k` exists and is a lifetime.
    pub fn is_lifetime(&self, k: usize) -> (r: bool)
        ensures
            r == self@.is_lifetime(k as int),
    {
        k < self.tokens.len() && self.tokens[k].kind == TokenKind::Lifetime
    }

    /// Whether token `k` is the name or keyword spelled `name`.
    pub fn is_word(&self, k: usize, name: &Vec<char>) -> (r: bool)
        requires
            self@.wf(),
        ensures
            r == self@.is_word(k as int, name@),
    {
        if k < self.tokens.len() && self.tokens[k].kind == TokenKind::Ident {
            let t = self.tokens[k];
            span_is(&self.text, t.start, t.end, name)
        } else {
            false
        }
    }

    /// Whether token `k` is the keyword `fn`.
    pub fn is_fn(&self, k: usize) -> (r: bool)
        requires
            self@.wf(),
        ensures
            r == self@.is_word(k as int, word_fn()),
    {
        if k < self.tokens.len() && self.tokens[k].kind == TokenKind::Ident {
            let t = self.tokens[k];
            let r = t.end - t.start == 2 && self.text[t.start] == 'f' && self.text[t.start + 1]
                == 'n';
            proof {
                let s = self@.text_of(k as int);
                if r {
                    assert(s =~= word_fn());
                } else if s.len() == 2 {
                    assert(s[0] != word_fn()[0] || s[1] != word_fn()[1]);
                }
            }
            r
        } else {
            false
        }
    }

    fn is_word3(&self, k: usize, c0: char, c1: char, c2: char) -> (r: bool)
        requires
            self@.wf(),
        ensures
            r == self@.is_word(k as int, seq![c0, c1, c2]),
    {
        if k < self.tokens.len() && self.tokens[k].kind == TokenKind::Ident {
            let t = self.tokens[k];
            let r = t.end - t.start == 3 && self.text[t.start] == c0 && self.text[t.start + 1]
                == c1 && self.text[t.start + 2] == c2;
            proof {
                let s = self@.text_of(k as int);
                let w = seq![c0, c1, c2];
                if r {
                    assert(s =~= w);
                } else if s.len() == 3 {
                    assert(s[0] != w[0] || s[1] != w[1] || s[2] != w[2]);
                }
            }
            r
        } else {
            false
        }
    }

    /// Whether token `k` is the keyword `mut`.
    pub fn is_mut(&self, k: usize) -> (r: bool)
        requires
            self@.wf(),
        ensures
            r == self@.is_word(k as int, word_mut()),
    {
        self.is_word3(k, 'm', 'u', 't')
    }

    /// Whether token `k` is the keyword `let`.
    pub fn is_let(&self, k: usize) -> (r: bool)
        requires
            self@.wf(),
        ensures
            r == self@.is_word(k as int, word_let()),
    {
        self.is_word3(k, 'l', 'e', 't')
    }

    /// Whether token `k` opens a group; with `angles`, `<` opens one too.
    pub fn is_open(&self, k: usize, angles: bool) -> (r: bool)
        requires
            self@.wf(),
        ensures
            r == self@.is_open(k as int, angles),
    {
        self.is_punct(k, '(') || self.is_punct(k, '[') || self.is_punct(k, '{') || (angles
            && self.is_punct(k, '<'))
    }

    /// Whether token `k` closes a group; with `angles`, so does a `>` that is
    /// not the head of an arrow.
    pub fn is_shut(&self, k: usize, angles: bool) -> (r: bool)
        requires
            self@.wf(),
        ensures
            r == self@.is_shut(k as int, angles),
    {
        self.is_punct(k, ')') || self.is_punct(k, ']') || self.is_punct(k, '}') || (angles
            && self.is_punct(k, '>') && !(k > 0 && self.is_punct(k - 1, '-')))
    }

    /// Whether token `k` is an occurrence of the variable spelled `name`.
    pub fn is_var(&self, k: usize, name: &Vec<char>) -> (r: bool)
        requires
            self@.wf(),
        ensures
            r == self@.is_var(k as int, name@),
    {
        self.is_word(k, name) && !(k > 0 && self.is_punct(k - 1, '.'))
    }

    /// Whether a token in `lo..hi` is an occurrence of the variable `name`.
    pub fn mentions(&self, lo: usize, hi: usize, name: &Vec<char>) -> (r: bool)
        requires
            self@.wf(),
        ensures
            r == self@.mentions(lo as int, hi as int, name@),
    {
        let mut k: usize = lo;
        while k < hi
            invariant
                lo <= k,
                self@.wf(),
                forall|j: int| lo <= j < k ==> !self@.is_var(j, name@),
            decreases hi - k,
        {
            if self.is_var(k, name) {
                return true;
            }
            k += 1;
        }
        false
    }

    /// Number of occurrences of the variable `name` among the tokens
    /// `lo..hi`.
    pub fn count(&self, lo: usize, hi: usize, name: &Vec<char>) -> (r: usize)
        requires
            self@.wf(),
        ensures
            r == self@.count(lo as int, hi as int, name@),
    {
        if lo >= hi {
            return 0;
        }
        let mut k: usize = lo;
        let mut n: usize = 0;
        while k < hi
            invariant
                lo <= k <= hi,
                self@.wf(),
                n == self@.count(lo as int, k as int, name@),
                n <= k - lo,
            decreases hi - k,
        {
            if self.is_var(k, name) {
                n += 1;
            }
            k += 1;
        }
        n
    }

    /// Whether token `i` and token `j` of `other` are of one kind and spelled
    /// alike.
    pub fn same_token(&self, i: usize, other: &Source, j: usize) -> (r: bool)
        requires
            self@.wf(),
            other@.wf(),
            i < self.tokens.len(),
            j < other.tokens.len(),
        ensures
            r == same_token(self@, i as int, other@, j as int),
    {
        let t = self.tokens[i];
        let u = other.tokens[j];
        t.kind == u.kind && span_eq(&self.text, t.start, t.end, &other.text, u.start, u.end)
    }
}

fn balanced(src: &Source) -> (r: bool)
    requires
        src@.wf(),
    ensures
        r == balanced_from(src@, 0, Seq::empty()),
{
    let mut stack: Vec<char> = Vec::new();
    let mut k: usize = 0;
    while k < src.tokens.len()
        invariant
            k <= src.tokens.len(),
            src@.wf(),
            balanced_from(src@, k as int, stack@) == balanced_from(src@, 0, Seq::empty()),
        decreases src.tokens.len() - k,
    {
        let t = src.tokens[k];
        if t.kind == TokenKind::Punct {
            let c = src.text[t.start];
            if c == '(' {
                stack.push(')');
            } else if c == '[' {
                stack.push(']');
            } else if c == '{' {
                stack.push('}');
            } else if c == ')' || c == ']' || c == '}' {
                match stack.pop() {
                    Some(top) => {
                        if top != c {
                            return false;
                        }
                    },
                    None => {
                        return false;
                    },
                }
            }
        }
        k += 1;
    }
    stack.len() == 0
}

/// Splits a text into tokens and checks its brackets.
pub fn tokenize(text: Vec<char>) -> (r: Option<Source>)
    ensures
        r is Some <==> tokenized(text@),
        r matches Some(src) ==> src@ == source_of(text@) && src@.wf(),
{
    match lex(&text) {
        None => None,
        Some(tokens) => {
            let src = Source { text, tokens };
            if balanced(&src) {
                Some(src)
            } else {
                None
            }
        },
    }
}

} // verus!
