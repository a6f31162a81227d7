//! The grammar of a program, over its tokens.
//!
//! A program is a sequence of items. An item may carry attributes, which an
//! item must follow. Behind its qualifiers it is led by `fn`, by one of the
//! keywords `struct`, `enum`, `union`, `trait`, `impl`, `mod`, `use`,
//! `static`, `type`, by the name of a constant behind `const`, or by what
//! follows `extern`; or it calls a macro (a name and `!`). It is one of:
//!
//! - a function: after its qualifiers (`pub`, `const`, `async`, `unsafe`,
//!   `extern` and the like) stands `fn`; it must then be a whole definition:
//!   `fn`, the name, generic parameters if any, the parameters in round
//!   brackets, a return type and a `where` clause if any, and a block in
//!   braces, with which the item ends;
//! - a declaration: it ends with the first `;` outside all brackets;
//! - an item with a body (a type, an implementation, a trait, a module, a
//!   macro): it ends with the first block in braces;
//! - an import, a constant, a static or a type alias that holds a block in
//!   braces: it runs on to the `;` behind that block.
//!
//! A block is a bracketed sequence of statements. Of a statement the grammar
//! reads where it begins and ends, not the whole expression in it:
//!
//! - A `let` must be placed: it starts a statement (behind `{`, `}`, `;` or
//!   an attribute), and that statement ends with a `;` in the same block; or
//!   it stands in a condition (behind `if`, `while`, `&&` or `||`).
//! - The keyword `fn` must be placed: followed by `(` it writes a function
//!   pointer type, and otherwise it must start a whole definition, or a
//!   declaration that ends in `;` (as in a trait).
//! - Two operands do not stand side by side: behind a name, a literal, `)` or
//!   `]` no name and no literal follows, unless one of the two is a keyword.
//!   (The bracket of `pub(..)` and of an attribute ends no operand, and a
//!   literal may be glued to its prefix, as in `b"bytes"`.) This is what a
//!   missing `;` or a missing operator looks like.
//! - Punctuation must be placed. The characters `\`, `` ` ``, `~` and `$`
//!   have no place. A `#` starts an attribute (or is glued behind the `r` of a
//!   raw name), an `@` follows a name. Behind an opening bracket, a `;` or a
//!   `,` stands nothing that needs something on its left (`%`, `/`, `^`, `=`,
//!   `?`, `@`, `+`, `,`, a single `.`; nor `>` behind a bracket or `;`), and
//!   before a closing bracket, a `;` or a `,` stands nothing that needs
//!   something on its right (`+`, `-`, `/`, `%`, `^`, `=`, `@`, `:`, `&`, `|`,
//!   `<`); nor do two such meet (`%`, `^`, `@` or `/` behind one that needs
//!   something on its right).
//! - A keyword that introduces something (`if`, `struct`, `as`, `mut` and the
//!   like) is followed by it: not by a closing bracket, a `;` or a `,`, and
//!   not by the end of the text.
//!
//! These rules hold everywhere outside macro calls, whose arguments are free
//! text.
//!
//! Whatever this grammar cannot place is refused: a token that starts no
//! item, an item that never ends, a `fn` that starts nothing, a `let` in the
//! middle of a statement or without its `;`, an operand behind an operand, an
//! operator with a side missing, a keyword with nothing behind it. What it
//! does not read are expressions, types and patterns in full, and the order
//! of the items inside a type, an implementation, a trait or a module.

use vstd::prelude::*;
use crate::lexer::TokenKind;
use crate::source::{
    source_of, tokenize, tokenized, word_fn, word_let, Source, SourceView,
};
use crate::text::chars_of;

verus! {

/// A bracket that is open: whether it is the bracket of `pub(..)` or of an
/// attribute, and whether it is, or stands in, the argument of a macro call.
#[derive(Clone, Copy, Debug, PartialEq, Eq, Structural)]
pub struct Frame {
    pub exempt: bool,
    pub in_macro: bool,
}

impl SourceView {
    /// Index of the first token behind the attributes that stand at token
    /// `k`; `None` where a `#` opens no attribute.
    pub open spec fn attrs_end(self, k: int) -> Option<int>
        decreases self.tokens.len() - k,
    {
        if self.is_punct(k, '#') {
            let b = if self.is_punct(k + 1, '!') {
                k + 2
            } else {
                k + 1
            };
            let c = self.close_of(b, false);
            if self.is_punct(b, '[') && k < c < self.len() {
                self.attrs_end(c + 1)
            } else {
                None
            }
        } else {
            Some(k)
        }
    }

    /// Index of the first `;` at or after `k` that stands outside all
    /// brackets, `depth` of which are open at `k`; the number of tokens if
    /// there is none.
    pub open spec fn semi_from(self, k: int, depth: nat) -> int
        decreases self.tokens.len() - k,
    {
        if k < 0 || k >= self.tokens.len() {
            self.tokens.len() as int
        } else if depth == 0 && self.is_punct(k, ';') {
            k
        } else if self.is_open(k, false) {
            self.semi_from(k + 1, depth + 1)
        } else if self.is_shut(k, false) {
            self.semi_from(
                k + 1,
                if depth > 0 {
                    (depth - 1) as nat
                } else {
                    0
                },
            )
        } else {
            self.semi_from(k + 1, depth)
        }
    }

    /// Token `k` is a qualifier of an item: one of the keywords that may
    /// stand before `fn`, or the string that names a calling convention.
    pub open spec fn is_qualifier(self, k: int) -> bool {
        self.is_word(k, "pub"@) || self.is_word(k, "const"@) || self.is_word(k, "async"@)
            || self.is_word(k, "unsafe"@) || self.is_word(k, "extern"@) || self.is_word(
            k,
            "default"@,
        ) || (0 <= k < self.tokens.len() && self.tokens[k].kind == TokenKind::Str)
    }

    /// Index of the first token at or after `k` that is no qualifier; the
    /// bracket behind a `pub` belongs to it.
    pub open spec fn quals_end(self, k: int) -> int
        decreases self.tokens.len() - k,
    {
        if self.is_word(k, "pub"@) && self.is_punct(k + 1, '(') {
            let c = self.close_of(k + 1, false);
            if k < c < self.len() {
                self.quals_end(c + 1)
            } else {
                self.len()
            }
        } else if self.is_qualifier(k) {
            self.quals_end(k + 1)
        } else {
            k
        }
    }

    /// Token `q` is a keyword that leads an item other than a function.
    pub open spec fn is_item_word(self, q: int) -> bool {
        self.is_word(q, "struct"@) || self.is_word(q, "enum"@) || self.is_word(q, "union"@)
            || self.is_word(q, "trait"@) || self.is_word(q, "impl"@) || self.is_word(q, "mod"@)
            || self.is_word(q, "use"@) || self.is_word(q, "static"@) || self.is_word(
            q,
            "type"@,
        )
    }

    /// An item may start at token `k`: a macro is called there, or behind the
    /// qualifiers stands `fn` or another keyword that leads an item, or the
    /// last qualifier is `const` (a constant follows) or `extern` or the name
    /// of a calling convention (a crate or a block of declarations follows).
    pub open spec fn item_led(self, k: int) -> bool {
        let q = self.quals_end(k);
        self.is_ident(k) && (self.is_punct(k + 1, '!') || self.is_word(q, word_fn())
            || self.is_item_word(q) || (q > k && (self.is_word(q - 1, "const"@) || self.is_word(
            q - 1,
            "extern"@,
        ) || (q - 1 < self.tokens.len() && self.tokens[q - 1].kind == TokenKind::Str))))
    }

    /// The item that starts at token `k` is an import, a static, a type alias
    /// or a constant.
    pub open spec fn runs_to_semi(self, k: int) -> bool {
        let q = self.quals_end(k);
        self.is_word(q, "use"@) || self.is_word(q, "static"@) || self.is_word(q, "type"@) || (q
            > k && self.is_word(q - 1, "const"@))
    }

    /// Index of the first token behind the item that starts at token `k`
    /// (behind its attributes); `None` where no item starts there.
    pub open spec fn item_end(self, k: int) -> Option<int> {
        let e = self.body_from(k, 0);
        let q = self.quals_end(k);
        let c = self.close_of(e, false);
        let s = self.semi_from(c + 1, 0);
        if !self.item_led(k) || e >= self.len() {
            None
        } else if self.is_word(q, word_fn()) {
            match self.fn_def_at(q) {
                Some(d) => Some(d.body_close + 1),
                None => None,
            }
        } else if self.is_punct(e, ';') {
            Some(e + 1)
        } else if c >= self.len() {
            None
        } else if self.runs_to_semi(k) {
            if s < self.len() {
                Some(s + 1)
            } else {
                None
            }
        } else {
            Some(c + 1)
        }
    }

    /// The tokens from `k` on are a sequence of items.
    pub open spec fn items_from(self, k: int) -> bool
        decreases self.tokens.len() - k,
    {
        if k < 0 || k >= self.tokens.len() {
            true
        } else {
            match self.attrs_end(k) {
                None => false,
                Some(a) => match self.item_end(a) {
                    None => false,
                    Some(e) => k < e <= self.len() && self.items_from(e),
                },
            }
        }
    }

    /// A function is declared without a body at token `j`: `fn`, a name,
    /// generic parameters if any, the parameters in round brackets, and a `;`
    /// before any block.
    pub open spec fn fn_decl_at(self, j: int) -> bool {
        let po = if self.is_punct(j + 2, '<') {
            self.close_of(j + 2, true) + 1
        } else {
            j + 2
        };
        let pc = self.close_of(po, false);
        self.is_word(j, word_fn()) && self.is_ident(j + 1) && self.is_punct(po, '(') && pc
            < self.len() && self.is_punct(self.body_from(pc + 1, 0), ';')
    }

    /// Token `j` is no `fn`, or a `fn` in its place: before `(` in a function
    /// pointer type, or at the start of a definition or a declaration.
    pub open spec fn fn_placed(self, j: int) -> bool {
        self.is_word(j, word_fn()) ==> self.is_punct(j + 1, '(') || self.fn_def_at(j) is Some
            || self.fn_decl_at(j)
    }

    /// Index of the token that ends the statement in which token `k` stands
    /// with `depth` brackets open since the statement began: the first `;`
    /// outside those brackets, or the bracket that closes the block; the
    /// number of tokens if there is none.
    pub open spec fn stmt_end(self, k: int, depth: nat) -> int
        decreases self.tokens.len() - k,
    {
        if k < 0 || k >= self.tokens.len() {
            self.tokens.len() as int
        } else if depth == 0 && (self.is_punct(k, ';') || self.is_shut(k, false)) {
            k
        } else if self.is_open(k, false) {
            self.stmt_end(k + 1, depth + 1)
        } else if self.is_shut(k, false) {
            self.stmt_end(k + 1, (depth - 1) as nat)
        } else {
            self.stmt_end(k + 1, depth)
        }
    }

    /// A statement may begin at token `k`: the token before it opens or
    /// closes a block, ends a statement, or closes an attribute.
    pub open spec fn starts_statement(self, k: int) -> bool {
        self.is_punct(k - 1, '{') || self.is_punct(k - 1, '}') || self.is_punct(k - 1, ';')
            || self.is_punct(k - 1, ']')
    }

    /// Token `k` stands where a condition may bind: behind `if` or `while`,
    /// or behind `&&` or `||`.
    pub open spec fn in_condition(self, k: int) -> bool {
        self.is_word(k - 1, "if"@) || self.is_word(k - 1, "while"@) || self.is_punct(k - 1, '&')
            || self.is_punct(k - 1, '|')
    }

    /// Token `k` is no `let`, or a `let` in its place: in a condition, or at
    /// the start of a statement that ends with `;`.
    pub open spec fn let_placed(self, k: int) -> bool {
        self.is_word(k, word_let()) ==> self.in_condition(k) || (self.starts_statement(k)
            && self.is_punct(self.stmt_end(k + 1, 0), ';'))
    }

    /// Token `k` is a keyword.
    pub open spec fn is_keyword(self, k: int) -> bool {
        self.is_word(k, "as"@) || self.is_word(k, "async"@) || self.is_word(k, "auto"@) || self.is_word(k, "await"@) || self.is_word(k, "become"@) || self.is_word(k, "box"@) || self.is_word(k, "break"@) || self.is_word(k, "const"@) || self.is_word(k, "continue"@) || self.is_word(k, "crate"@) || self.is_word(k, "default"@) || self.is_word(k, "do"@) || self.is_word(k, "dyn"@) || self.is_word(k, "else"@) || self.is_word(k, "enum"@) || self.is_word(k, "extern"@) || self.is_word(k, "false"@) || self.is_word(k, "fn"@) || self.is_word(k, "for"@) || self.is_word(k, "gen"@) || self.is_word(k, "if"@) || self.is_word(k, "impl"@) || self.is_word(k, "in"@) || self.is_word(k, "let"@) || self.is_word(k, "loop"@) || self.is_word(k, "macro"@) || self.is_word(k, "match"@) || self.is_word(k, "mod"@) || self.is_word(k, "move"@) || self.is_word(k, "mut"@) || self.is_word(k, "pub"@) || self.is_word(k, "raw"@) || self.is_word(k, "ref"@) || self.is_word(k, "return"@) || self.is_word(k, "safe"@) || self.is_word(k, "self"@) || self.is_word(k, "Self"@) || self.is_word(k, "static"@) || self.is_word(k, "struct"@) || self.is_word(k, "super"@) || self.is_word(k, "trait"@) || self.is_word(k, "true"@) || self.is_word(k, "try"@) || self.is_word(k, "type"@) || self.is_word(k, "union"@) || self.is_word(k, "unsafe"@) || self.is_word(k, "use"@) || self.is_word(k, "where"@) || self.is_word(k, "while"@) || self.is_word(k, "yield"@)
    }

    /// Token `k` opens the bracket of `pub(..)` or of an attribute.
    pub open spec fn opens_exempt(self, k: int) -> bool {
        (self.is_punct(k, '(') && self.is_word(k - 1, "pub"@)) || (self.is_punct(k, '[') && (
        self.is_punct(k - 1, '#') || (self.is_punct(k - 1, '!') && self.is_punct(k - 2, '#'))))
    }

    /// Token `k` is the name of a macro: a name that is no keyword.
    pub open spec fn is_macro_name(self, k: int) -> bool {
        self.is_ident(k) && !self.is_keyword(k)
    }

    /// Token `k` opens the argument of a macro call: a bracket behind a name
    /// and `!`, or behind a name, `!` and one more name.
    pub open spec fn opens_macro(self, k: int) -> bool {
        self.is_open(k, false) && ((self.is_punct(k - 1, '!') && self.is_macro_name(k - 2)) || (
        self.is_macro_name(k - 1) && self.is_punct(k - 2, '!') && self.is_macro_name(k - 3)))
    }

    /// The brackets that are open in front of token `k`, outermost first.
    pub open spec fn frames(self, k: int) -> Seq<Frame>
        decreases k,
    {
        if k <= 0 {
            Seq::empty()
        } else {
            let f = self.frames(k - 1);
            if self.is_open(k - 1, false) {
                f.push(
                    Frame {
                        exempt: self.opens_exempt(k - 1),
                        in_macro: self.opens_macro(k - 1) || (f.len() > 0 && f.last().in_macro),
                    },
                )
            } else if self.is_shut(k - 1, false) && f.len() > 0 {
                f.drop_last()
            } else {
                f
            }
        }
    }

    /// Token `k` stands in the argument of a macro call.
    pub open spec fn in_macro(self, k: int) -> bool {
        self.frames(k).len() > 0 && self.frames(k).last().in_macro
    }

    /// Token `k` closes the bracket of `pub(..)` or of an attribute.
    pub open spec fn closes_exempt(self, k: int) -> bool {
        self.is_shut(k, false) && self.frames(k).len() > 0 && self.frames(k).last().exempt
    }

    /// Token `k` is a number, a string or a character.
    pub open spec fn is_literal(self, k: int) -> bool {
        0 <= k < self.tokens.len() && (self.tokens[k].kind == TokenKind::Number
            || self.tokens[k].kind == TokenKind::Str || self.tokens[k].kind == TokenKind::CharLit)
    }

    /// An operand may end with token `k`: a name, a literal, or a `)` or `]`
    /// that closes neither `pub(..)` nor an attribute.
    pub open spec fn ends_operand(self, k: int) -> bool {
        self.is_ident(k) || self.is_literal(k) || ((self.is_punct(k, ')') || self.is_punct(k, ']'))
            && !self.closes_exempt(k))
    }

    /// Token `k` is a literal glued to the name before it, its prefix.
    pub open spec fn glued(self, k: int) -> bool {
        self.is_ident(k - 1) && self.is_literal(k) && self.tokens[k - 1].end
            == self.tokens[k].start
    }

    /// Token `k` does not start an operand right behind another operand.
    pub open spec fn apart(self, k: int) -> bool {
        !((self.is_ident(k) || self.is_literal(k)) && self.ends_operand(k - 1)) || self.is_keyword(
            k,
        ) || self.is_keyword(k - 1) || self.glued(k)
    }

    /// Token `k` is one of the punctuation characters in `set`.
    pub open spec fn is_one_of(self, k: int, set: Seq<char>) -> bool {
        0 <= k < self.tokens.len() && self.tokens[k].kind == TokenKind::Punct && set.contains(
            self.text[self.tokens[k].start as int],
        )
    }

    /// Nothing stands to the right of token `k` for the next token to lean
    /// on: it opens a bracket or is a `;` or a `,`.
    pub open spec fn opens_gap(self, k: int) -> bool {
        self.is_open(k, false) || self.is_punct(k, ';') || self.is_punct(k, ',')
    }

    /// Nothing stands to the left of token `k` for the token before it to
    /// lean on: it closes a bracket or is a `;` or a `,`.
    pub open spec fn closes_gap(self, k: int) -> bool {
        self.is_shut(k, false) || self.is_punct(k, ';') || self.is_punct(k, ',')
    }

    /// Token `k` is no `#`, or a `#` in its place: it starts an attribute, or
    /// is glued behind the `r` of a raw name.
    pub open spec fn hash_placed(self, k: int) -> bool {
        self.is_punct(k, '#') ==> self.is_punct(k + 1, '[') || (self.is_punct(k + 1, '!')
            && self.is_punct(k + 2, '[')) || (self.is_word(k - 1, "r"@) && self.tokens[k - 1].end
            == self.tokens[k].start)
    }

    /// Token `k` is a keyword that introduces what follows it.
    pub open spec fn leads_on(self, k: int) -> bool {
        self.is_word(k, "as"@) || self.is_word(k, "box"@) || self.is_word(k, "const"@) || self.is_word(k, "dyn"@) || self.is_word(k, "else"@) || self.is_word(k, "enum"@) || self.is_word(k, "extern"@) || self.is_word(k, "fn"@) || self.is_word(k, "for"@) || self.is_word(k, "if"@) || self.is_word(k, "impl"@) || self.is_word(k, "in"@) || self.is_word(k, "let"@) || self.is_word(k, "loop"@) || self.is_word(k, "match"@) || self.is_word(k, "mod"@) || self.is_word(k, "move"@) || self.is_word(k, "mut"@) || self.is_word(k, "pub"@) || self.is_word(k, "ref"@) || self.is_word(k, "static"@) || self.is_word(k, "struct"@) || self.is_word(k, "trait"@) || self.is_word(k, "type"@) || self.is_word(k, "unsafe"@) || self.is_word(k, "use"@) || self.is_word(k, "where"@) || self.is_word(k, "while"@)
    }

    /// Token `k` is no such keyword, or one that something follows.
    pub open spec fn keyword_placed(self, k: int) -> bool {
        self.leads_on(k) ==> k + 1 < self.len() && !self.closes_gap(k + 1)
    }

    /// Token `k` is a punctuation character in its place, or no punctuation.
    pub open spec fn punct_placed(self, k: int) -> bool {
        &&& !self.is_one_of(k, "\\`~$"@)
        &&& self.hash_placed(k)
        &&& (self.is_punct(k, '@') ==> self.is_ident(k - 1))
        &&& !(self.opens_gap(k - 1) && (self.is_one_of(k, "%/^=?@+,"@) || (self.is_punct(k, '.')
            && !self.is_punct(k + 1, '.'))))
        &&& !(self.is_punct(k, '>') && (self.is_open(k - 1, false) || self.is_punct(k - 1, ';')))
        &&& !(self.closes_gap(k) && self.is_one_of(k - 1, "+-/%^=@:&|<"@))
        &&& !(self.is_one_of(k, "%^@/"@) && self.is_one_of(k - 1, "+-/%^=@:&|<"@))
    }

    /// Token `j` is in its place: it stands in the argument of a macro call,
    /// or it is placed as a `fn`, as a `let`, as an operand, as punctuation
    /// and as a keyword.
    pub open spec fn placed(self, j: int) -> bool {
        self.in_macro(j) || (self.fn_placed(j) && self.let_placed(j) && self.apart(j)
            && self.punct_placed(j) && self.keyword_placed(j))
    }

    /// The tokens are a program: a sequence of items in which every token is
    /// in its place.
    pub open spec fn is_program(self) -> bool {
        self.items_from(0) && forall|j: int| 0 <= j < self.len() ==> #[trigger] self.placed(j)
    }
}

/// A text is well formed when it can be read (it splits into tokens and its
/// brackets match) and its tokens are a program.
pub open spec fn well_formed(s: Seq<char>) -> bool {
    tokenized(s) && source_of(s).is_program()
}

impl Source {
    fn attrs_end(&self, k: usize) -> (r: Option<usize>)
        requires
            self@.wf(),
            k <= self.tokens.len(),
        ensures
            r is Some <==> self@.attrs_end(k as int) is Some,
            r matches Some(a) ==> self@.attrs_end(k as int) == Some(a as int) && k <= a
                <= self.tokens.len(),
    {
        let n = self.tokens.len();
        let mut i: usize = k;
        while self.is_punct(i, '#')
            invariant
                k <= i <= n,
                n == self.tokens.len(),
                self@.wf(),
                self@.attrs_end(i as int) == self@.attrs_end(k as int),
            decreases n - i,
        {
            let b: usize = if i + 1 < n && self.is_punct(i + 1, '!') {
                i + 2
            } else {
                i + 1
            };
            if !self.is_punct(b, '[') {
                return None;
            }
            let c = self.close_of(b, false);
            if c >= n {
                return None;
            }
            i = c + 1;
        }
        Some(i)
    }

    fn semi_from(&self, start: usize) -> (r: usize)
        requires
            self@.wf(),
            start <= self.tokens.len(),
        ensures
            r == self@.semi_from(start as int, 0),
            start <= r <= self.tokens.len(),
    {
        let mut k: usize = start;
        let mut depth: usize = 0;
        while k < self.tokens.len()
            invariant
                start <= k <= self.tokens.len(),
                depth <= k - start,
                self@.wf(),
                self@.semi_from(k as int, depth as nat) == self@.semi_from(start as int, 0),
            decreases self.tokens.len() - k,
        {
            if depth == 0 && self.is_punct(k, ';') {
                return k;
            }
            if self.is_open(k, false) {
                depth += 1;
            } else if self.is_shut(k, false) {
                if depth > 0 {
                    depth -= 1;
                }
            }
            k += 1;
        }
        k
    }

    fn is_qualifier(&self, k: usize) -> (r: bool)
        requires
            self@.wf(),
        ensures
            r == self@.is_qualifier(k as int),
    {
        self.is_word(k, &chars_of("pub")) || self.is_word(k, &chars_of("const")) || self.is_word(
            k,
            &chars_of("async"),
        ) || self.is_word(k, &chars_of("unsafe")) || self.is_word(k, &chars_of("extern"))
            || self.is_word(k, &chars_of("default")) || (k < self.tokens.len()
            && self.tokens[k].kind == TokenKind::Str)
    }

    fn quals_end(&self, k: usize) -> (r: usize)
        requires
            self@.wf(),
            k <= self.tokens.len(),
        ensures
            r == self@.quals_end(k as int),
            k <= r <= self.tokens.len(),
    {
        let n = self.tokens.len();
        let mut i: usize = k;
        while i < n
            invariant
                k <= i <= n,
                n == self.tokens.len(),
                self@.wf(),
                self@.quals_end(i as int) == self@.quals_end(k as int),
            decreases n - i,
        {
            if self.is_word(i, &chars_of("pub")) && self.is_punct(i + 1, '(') {
                let c = self.close_of(i + 1, false);
                if c >= n {
                    return n;
                }
                i = c + 1;
            } else if self.is_qualifier(i) {
                i += 1;
            } else {
                return i;
            }
        }
        i
    }

    fn is_item_word(&self, q: usize) -> (r: bool)
        requires
            self@.wf(),
        ensures
            r == self@.is_item_word(q as int),
    {
        self.is_word(q, &chars_of("struct")) || self.is_word(q, &chars_of("enum")) || self.is_word(
            q,
            &chars_of("union"),
        ) || self.is_word(q, &chars_of("trait")) || self.is_word(q, &chars_of("impl"))
            || self.is_word(q, &chars_of("mod")) || self.is_word(q, &chars_of("use"))
            || self.is_word(q, &chars_of("static")) || self.is_word(q, &chars_of("type"))
    }

    fn item_led(&self, k: usize, q: usize) -> (r: bool)
        requires
            self@.wf(),
            k <= q <= self.tokens.len(),
            q == self@.quals_end(k as int),
        ensures
            r == self@.item_led(k as int),
    {
        if !self.is_ident(k) {
            return false;
        }
        self.is_punct(k + 1, '!') || self.is_fn(q) || self.is_item_word(q) || (q > k && (
        self.is_word(q - 1, &chars_of("const")) || self.is_word(q - 1, &chars_of("extern"))
            || self.tokens[q - 1].kind == TokenKind::Str))
    }

    fn runs_to_semi(&self, k: usize, q: usize) -> (r: bool)
        requires
            self@.wf(),
            k <= q <= self.tokens.len(),
            q == self@.quals_end(k as int),
        ensures
            r == self@.runs_to_semi(k as int),
    {
        self.is_word(q, &chars_of("use")) || self.is_word(q, &chars_of("static")) || self.is_word(
            q,
            &chars_of("type"),
        ) || (q > k && self.is_word(q - 1, &chars_of("const")))
    }

    fn item_end(&self, k: usize) -> (r: Option<usize>)
        requires
            self@.wf(),
            k <= self.tokens.len(),
        ensures
            r is Some <==> self@.item_end(k as int) is Some,
            r matches Some(e) ==> self@.item_end(k as int) == Some(e as int) && k < e
                <= self.tokens.len(),
    {
        let n = self.tokens.len();
        let q = self.quals_end(k);
        if !self.item_led(k, q) {
            return None;
        }
        let e = self.body_from(k);
        if e >= n {
            return None;
        }
        if self.is_fn(q) {
            return match self.fn_def(q) {
                Some(d) => Some(d.body_close + 1),
                None => None,
            };
        }
        if self.is_punct(e, ';') {
            return Some(e + 1);
        }
        let c = self.close_of(e, false);
        if c >= n {
            return None;
        }
        if self.runs_to_semi(k, q) {
            let s = self.semi_from(c + 1);
            if s < n {
                Some(s + 1)
            } else {
                None
            }
        } else {
            Some(c + 1)
        }
    }

    fn items_ok(&self) -> (r: bool)
        requires
            self@.wf(),
        ensures
            r == self@.items_from(0),
    {
        let n = self.tokens.len();
        let mut k: usize = 0;
        while k < n
            invariant
                k <= n,
                n == self.tokens.len(),
                self@.wf(),
                self@.items_from(k as int) == self@.items_from(0),
            decreases n - k,
        {
            let a = match self.attrs_end(k) {
                Some(a) => a,
                None => {
                    return false;
                },
            };
            match self.item_end(a) {
                Some(e) => {
                    k = e;
                },
                None => {
                    return false;
                },
            }
        }
        true
    }

    fn fn_decl(&self, j: usize) -> (r: bool)
        requires
            self@.wf(),
            self@.is_word(j as int, word_fn()),
        ensures
            r == self@.fn_decl_at(j as int),
    {
        let n = self.tokens.len();
        if !self.is_ident(j + 1) {
            return false;
        }
        let po: usize = if self.is_punct(j + 2, '<') {
            let c = self.close_of(j + 2, true);
            if c >= n {
                return false;
            }
            c + 1
        } else {
            j + 2
        };
        if !self.is_punct(po, '(') {
            return false;
        }
        let pc = self.close_of(po, false);
        if pc >= n {
            return false;
        }
        let bo = self.body_from(pc + 1);
        self.is_punct(bo, ';')
    }

    fn stmt_end(&self, start: usize) -> (r: usize)
        requires
            self@.wf(),
            start <= self.tokens.len(),
        ensures
            r == self@.stmt_end(start as int, 0),
            start <= r <= self.tokens.len(),
    {
        let mut k: usize = start;
        let mut depth: usize = 0;
        while k < self.tokens.len()
            invariant
                start <= k <= self.tokens.len(),
                depth <= k - start,
                self@.wf(),
                self@.stmt_end(k as int, depth as nat) == self@.stmt_end(start as int, 0),
            decreases self.tokens.len() - k,
        {
            if depth == 0 && (self.is_punct(k, ';') || self.is_shut(k, false)) {
                return k;
            }
            if self.is_open(k, false) {
                depth += 1;
            } else if self.is_shut(k, false) {
                depth -= 1;
            }
            k += 1;
        }
        k
    }

    fn let_placed(&self, k: usize) -> (r: bool)
        requires
            self@.wf(),
            self@.is_word(k as int, word_let()),
        ensures
            r == self@.let_placed(k as int),
    {
        if k == 0 {
            return false;
        }
        let n = self.tokens.len();
        if self.is_word(k - 1, &chars_of("if")) || self.is_word(k - 1, &chars_of("while"))
            || self.is_punct(k - 1, '&') || self.is_punct(k - 1, '|') {
            return true;
        }
        let starts = self.is_punct(k - 1, '{') || self.is_punct(k - 1, '}') || self.is_punct(
            k - 1,
            ';',
        ) || self.is_punct(k - 1, ']');
        starts && self.is_punct(self.stmt_end(k + 1), ';')
    }

    /// Whether token `k` is a keyword.
    pub fn is_keyword(&self, k: usize) -> (r: bool)
        requires
            self@.wf(),
        ensures
            r == self@.is_keyword(k as int),
    {
        self.is_word(k, &chars_of("as")) || self.is_word(k, &chars_of("async")) || self.is_word(k, &chars_of("auto")) || self.is_word(k, &chars_of("await")) || self.is_word(k, &chars_of("become")) || self.is_word(k, &chars_of("box")) || self.is_word(k, &chars_of("break")) || self.is_word(k, &chars_of("const")) || self.is_word(k, &chars_of("continue")) || self.is_word(k, &chars_of("crate")) || self.is_word(k, &chars_of("default")) || self.is_word(k, &chars_of("do")) || self.is_word(k, &chars_of("dyn")) || self.is_word(k, &chars_of("else")) || self.is_word(k, &chars_of("enum")) || self.is_word(k, &chars_of("extern")) || self.is_word(k, &chars_of("false")) || self.is_word(k, &chars_of("fn")) || self.is_word(k, &chars_of("for")) || self.is_word(k, &chars_of("gen")) || self.is_word(k, &chars_of("if")) || self.is_word(k, &chars_of("impl")) || self.is_word(k, &chars_of("in")) || self.is_word(k, &chars_of("let")) || self.is_word(k, &chars_of("loop")) || self.is_word(k, &chars_of("macro")) || self.is_word(k, &chars_of("match")) || self.is_word(k, &chars_of("mod")) || self.is_word(k, &chars_of("move")) || self.is_word(k, &chars_of("mut")) || self.is_word(k, &chars_of("pub")) || self.is_word(k, &chars_of("raw")) || self.is_word(k, &chars_of("ref")) || self.is_word(k, &chars_of("return")) || self.is_word(k, &chars_of("safe")) || self.is_word(k, &chars_of("self")) || self.is_word(k, &chars_of("Self")) || self.is_word(k, &chars_of("static")) || self.is_word(k, &chars_of("struct")) || self.is_word(k, &chars_of("super")) || self.is_word(k, &chars_of("trait")) || self.is_word(k, &chars_of("true")) || self.is_word(k, &chars_of("try")) || self.is_word(k, &chars_of("type")) || self.is_word(k, &chars_of("union")) || self.is_word(k, &chars_of("unsafe")) || self.is_word(k, &chars_of("use")) || self.is_word(k, &chars_of("where")) || self.is_word(k, &chars_of("while")) || self.is_word(k, &chars_of("yield"))
    }

    fn is_literal(&self, k: usize) -> (r: bool)
        ensures
            r == self@.is_literal(k as int),
    {
        k < self.tokens.len() && (self.tokens[k].kind == TokenKind::Number
            || self.tokens[k].kind == TokenKind::Str || self.tokens[k].kind == TokenKind::CharLit)
    }

    fn is_macro_name(&self, k: usize) -> (r: bool)
        requires
            self@.wf(),
        ensures
            r == self@.is_macro_name(k as int),
    {
        self.is_ident(k) && !self.is_keyword(k)
    }

    fn opens_exempt(&self, k: usize) -> (r: bool)
        requires
            self@.wf(),
        ensures
            r == self@.opens_exempt(k as int),
    {
        if k == 0 {
            return false;
        }
        (self.is_punct(k, '(') && self.is_word(k - 1, &chars_of("pub"))) || (self.is_punct(k, '[')
            && (self.is_punct(k - 1, '#') || (k >= 2 && self.is_punct(k - 1, '!') && self.is_punct(
            k - 2,
            '#',
        ))))
    }

    fn opens_macro(&self, k: usize) -> (r: bool)
        requires
            self@.wf(),
        ensures
            r == self@.opens_macro(k as int),
    {
        if k < 2 || !self.is_open(k, false) {
            return false;
        }
        (self.is_punct(k - 1, '!') && self.is_macro_name(k - 2)) || (k >= 3 && self.is_macro_name(
            k - 1,
        ) && self.is_punct(k - 2, '!') && self.is_macro_name(k - 3))
    }

    fn apart(&self, k: usize, before_exempt: bool) -> (r: bool)
        requires
            self@.wf(),
            0 < k < self.tokens.len(),
            before_exempt == self@.closes_exempt(k - 1),
        ensures
            r == self@.apart(k as int),
    {
        let starts = self.is_ident(k) || self.is_literal(k);
        if !starts {
            return true;
        }
        let ends = self.is_ident(k - 1) || self.is_literal(k - 1) || ((self.is_punct(k - 1, ')')
            || self.is_punct(k - 1, ']')) && !before_exempt);
        if !ends {
            return true;
        }
        self.is_keyword(k) || self.is_keyword(k - 1) || (self.is_ident(k - 1) && self.is_literal(k)
            && self.tokens[k - 1].end == self.tokens[k].start)
    }

    fn is_one_of(&self, k: usize, set: &str) -> (r: bool)
        requires
            self@.wf(),
        ensures
            r == self@.is_one_of(k as int, set@),
    {
        if k >= self.tokens.len() || self.tokens[k].kind != TokenKind::Punct {
            return false;
        }
        let c = self.text[self.tokens[k].start];
        let v = chars_of(set);
        let mut i: usize = 0;
        while i < v.len()
            invariant
                i <= v.len(),
                v@ == set@,
                k < self.tokens.len(),
                self.tokens[k as int].kind == TokenKind::Punct,
                c == self@.text[self@.tokens[k as int].start as int],
                forall|t: int| 0 <= t < i ==> v@[t] != c,
            decreases v.len() - i,
        {
            if v[i] == c {
                assert(set@[i as int] == c);
                return true;
            }
            i += 1;
        }
        false
    }

    fn punct_placed(&self, k: usize) -> (r: bool)
        requires
            self@.wf(),
            k < self.tokens.len(),
        ensures
            r == self@.punct_placed(k as int),
    {
        if self.tokens[k].kind != TokenKind::Punct {
            assert(!self@.is_punct(k as int, '#') && !self@.is_punct(k as int, '@')
                && !self@.is_punct(k as int, '.') && !self@.is_punct(k as int, '>')
                && !self@.is_punct(k as int, ')') && !self@.is_punct(k as int, ']')
                && !self@.is_punct(k as int, '}') && !self@.is_punct(k as int, ';')
                && !self@.is_punct(k as int, ','));
            return true;
        }
        if self.is_one_of(k, "\\`~$") {
            return false;
        }
        if self.is_punct(k, '#') {
            let attr = self.is_punct(k + 1, '[') || (self.is_punct(k + 1, '!') && self.is_punct(
                k + 2,
                '[',
            ));
            let raw = k > 0 && self.is_word(k - 1, &chars_of("r")) && self.tokens[k - 1].end
                == self.tokens[k].start;
            if !(attr || raw) {
                return false;
            }
        }
        if k == 0 {
            return !self.is_punct(k, '@');
        }
        if self.is_punct(k, '@') && !self.is_ident(k - 1) {
            return false;
        }
        let gap_before = self.is_open(k - 1, false) || self.is_punct(k - 1, ';') || self.is_punct(
            k - 1,
            ',',
        );
        if gap_before && (self.is_one_of(k, "%/^=?@+,") || (self.is_punct(k, '.') && !self.is_punct(
            k + 1,
            '.',
        ))) {
            return false;
        }
        if self.is_punct(k, '>') && (self.is_open(k - 1, false) || self.is_punct(k - 1, ';')) {
            return false;
        }
        let gap_here = self.is_shut(k, false) || self.is_punct(k, ';') || self.is_punct(k, ',');
        if gap_here && self.is_one_of(k - 1, "+-/%^=@:&|<") {
            return false;
        }
        !(self.is_one_of(k, "%^@/") && self.is_one_of(k - 1, "+-/%^=@:&|<"))
    }

    fn leads_on(&self, k: usize) -> (r: bool)
        requires
            self@.wf(),
        ensures
            r == self@.leads_on(k as int),
    {
        self.is_word(k, &chars_of("as")) || self.is_word(k, &chars_of("box")) || self.is_word(k, &chars_of("const")) || self.is_word(k, &chars_of("dyn")) || self.is_word(k, &chars_of("else")) || self.is_word(k, &chars_of("enum")) || self.is_word(k, &chars_of("extern")) || self.is_word(k, &chars_of("fn")) || self.is_word(k, &chars_of("for")) || self.is_word(k, &chars_of("if")) || self.is_word(k, &chars_of("impl")) || self.is_word(k, &chars_of("in")) || self.is_word(k, &chars_of("let")) || self.is_word(k, &chars_of("loop")) || self.is_word(k, &chars_of("match")) || self.is_word(k, &chars_of("mod")) || self.is_word(k, &chars_of("move")) || self.is_word(k, &chars_of("mut")) || self.is_word(k, &chars_of("pub")) || self.is_word(k, &chars_of("ref")) || self.is_word(k, &chars_of("static")) || self.is_word(k, &chars_of("struct")) || self.is_word(k, &chars_of("trait")) || self.is_word(k, &chars_of("type")) || self.is_word(k, &chars_of("unsafe")) || self.is_word(k, &chars_of("use")) || self.is_word(k, &chars_of("where")) || self.is_word(k, &chars_of("while"))
    }

    fn keyword_placed(&self, k: usize) -> (r: bool)
        requires
            self@.wf(),
            k < self.tokens.len(),
        ensures
            r == self@.keyword_placed(k as int),
    {
        if !self.is_ident(k) || !self.leads_on(k) {
            return true;
        }
        k + 1 < self.tokens.len() && !(self.is_shut(k + 1, false) || self.is_punct(k + 1, ';')
            || self.is_punct(k + 1, ','))
    }

    /// Whether the tokens are a program.
    pub fn is_program(&self) -> (r: bool)
        requires
            self@.wf(),
        ensures
            r == self@.is_program(),
    {
        if !self.items_ok() {
            return false;
        }
        let n = self.tokens.len();
        let mut stack: Vec<Frame> = Vec::new();
        let mut before_exempt = false;
        let mut j: usize = 0;
        while j < n
            invariant
                j <= n,
                n == self.tokens.len(),
                self@.wf(),
                stack@ == self@.frames(j as int),
                before_exempt == self@.closes_exempt(j - 1),
                forall|t: int| 0 <= t < j ==> #[trigger] self@.placed(t),
            decreases n - j,
        {
            let inside = stack.len() > 0 && stack[stack.len() - 1].in_macro;
            if !inside {
                if self.is_fn(j) {
                    let placed = self.is_punct(j + 1, '(') || self.fn_def(j).is_some()
                        || self.fn_decl(j);
                    if !placed {
                        assert(!self@.placed(j as int));
                        return false;
                    }
                }
                if self.is_let(j) {
                    if !self.let_placed(j) {
                        assert(!self@.placed(j as int));
                        return false;
                    }
                }
                if j > 0 && !self.apart(j, before_exempt) {
                    assert(!self@.placed(j as int));
                    return false;
                }
                if !self.punct_placed(j) {
                    assert(!self@.placed(j as int));
                    return false;
                }
                if !self.keyword_placed(j) {
                    assert(!self@.placed(j as int));
                    return false;
                }
            }
            assert(self@.placed(j as int));
            let shuts = self.is_shut(j, false);
            before_exempt = shuts && stack.len() > 0 && stack[stack.len() - 1].exempt;
            if self.is_open(j, false) {
                let frame = Frame {
                    exempt: self.opens_exempt(j),
                    in_macro: self.opens_macro(j) || inside,
                };
                stack.push(frame);
            } else if shuts && stack.len() > 0 {
                stack.pop();
            }
            j += 1;
        }
        true
    }
}

/// Reads a program: splits the text into tokens, checks its brackets and
/// holds its tokens against the grammar.
pub fn parse(text: Vec<char>) -> (r: Option<Source>)
    ensures
        r is Some <==> well_formed(text@),
        r matches Some(src) ==> src@ == source_of(text@) && src@.wf(),
{
    match tokenize(text) {
        None => None,
        Some(src) => if src.is_program() {
            Some(src)
        } else {
            None
        },
    }
}

} // verus!
