//! Choosing how each captured variable is passed.

use vstd::prelude::*;
use crate::capture::{Analysis, Case};
use crate::source::{word_let, word_mut, Source, SourceView};
use crate::syntax::Span;
use crate::text::same_text;

verus! {

/// How a captured variable crosses the call.
#[derive(Clone, Copy, Debug, PartialEq, Eq, Structural)]
pub enum PassMode {
    /// Moved into the callee.
    Value,
    /// Lent for reading: `&`.
    ImmutableRef,
    /// Lent for writing: `&mut`.
    MutableRef,
}

/// The passing mode that the facts about a variable call for. Mutation comes
/// first: a variable that is mutated is lent for writing whatever else holds. A
/// variable that is read exactly once and never used after the call is moved.
/// Any other is lent for reading.
pub open spec fn mode_for(mutated: bool, reads: nat, used_after: bool) -> PassMode {
    if mutated {
        PassMode::MutableRef
    } else if reads == 1 && !used_after {
        PassMode::Value
    } else {
        PassMode::ImmutableRef
    }
}

/// The passing mode that the facts about a variable call for.
pub fn choose_mode(mutated: bool, reads: usize, used_after: bool) -> (m: PassMode)
    ensures
        m == mode_for(mutated, reads as nat, used_after),
{
    if mutated {
        PassMode::MutableRef
    } else if reads == 1 && !used_after {
        PassMode::Value
    } else {
        PassMode::ImmutableRef
    }
}

impl SourceView {
    /// Token `j` is an operator that has a compound assignment form of two
    /// characters.
    pub open spec fn is_arith(self, j: int) -> bool {
        self.is_punct(j, '+') || self.is_punct(j, '-') || self.is_punct(j, '*') || self.is_punct(
            j,
            '/',
        ) || self.is_punct(j, '%') || self.is_punct(j, '^') || self.is_punct(j, '&')
            || self.is_punct(j, '|')
    }

    /// An assignment operator starts at token `j`: `=` alone (not `==`, not
    /// `=>`), an operator followed by `=`, or a shift followed by `=`.
    pub open spec fn assign_op_at(self, j: int) -> bool {
        ||| (self.is_punct(j, '=') && !self.is_punct(j + 1, '=') && !self.is_punct(j + 1, '>'))
        ||| (self.is_arith(j) && self.is_punct(j + 1, '='))
        ||| (self.is_punct(j, '<') && self.is_punct(j + 1, '<') && self.is_punct(j + 2, '='))
        ||| (self.is_punct(j, '>') && self.is_punct(j + 1, '>') && self.is_punct(j + 2, '='))
    }

    /// Token `k` is the target of a direct assignment to the variable `name`:
    /// an occurrence of it, not a new binding, with an assignment operator
    /// after it.
    pub open spec fn is_assign(self, k: int, name: Seq<char>) -> bool {
        self.is_var(k, name) && !self.is_word(k - 1, word_let()) && !self.is_word(
            k - 1,
            word_mut(),
        ) && self.assign_op_at(k + 1)
    }

    /// The variable `name` is assigned to directly somewhere in the tokens
    /// `lo..hi`.
    pub open spec fn reassigns(self, lo: int, hi: int, name: Seq<char>) -> bool {
        exists|k: int| lo <= k < hi && self.is_assign(k, name)
    }
}

impl Source {
    fn is_arith(&self, j: usize) -> (r: bool)
        requires
            self@.wf(),
        ensures
            r == self@.is_arith(j as int),
    {
        self.is_punct(j, '+') || self.is_punct(j, '-') || self.is_punct(j, '*') || self.is_punct(
            j,
            '/',
        ) || self.is_punct(j, '%') || self.is_punct(j, '^') || self.is_punct(j, '&')
            || self.is_punct(j, '|')
    }

    fn assign_op_at(&self, j: usize) -> (r: bool)
        requires
            self@.wf(),
        ensures
            r == self@.assign_op_at(j as int),
    {
        if j >= self.tokens.len() {
            return false;
        }
        (self.is_punct(j, '=') && !self.is_punct(j + 1, '=') && !self.is_punct(j + 1, '>')) || (
        self.is_arith(j) && self.is_punct(j + 1, '=')) || (self.is_punct(j, '<') && self.is_punct(
            j + 1,
            '<',
        ) && self.is_punct(j + 2, '=')) || (self.is_punct(j, '>') && self.is_punct(j + 1, '>')
            && self.is_punct(j + 2, '='))
    }

    /// Whether token `k` is the target of a direct assignment to `name`.
    pub fn is_assign(&self, k: usize, name: &Vec<char>) -> (r: bool)
        requires
            self@.wf(),
        ensures
            r == self@.is_assign(k as int, name@),
    {
        if k >= self.tokens.len() {
            return false;
        }
        self.is_var(k, name) && !(k > 0 && (self.is_let(k - 1) || self.is_mut(k - 1)))
            && self.assign_op_at(k + 1)
    }

    /// Whether `name` is assigned to directly somewhere in the tokens `lo..hi`.
    pub fn reassigns(&self, lo: usize, hi: usize, name: &Vec<char>) -> (r: bool)
        requires
            self@.wf(),
        ensures
            r == self@.reassigns(lo as int, hi as int, name@),
    {
        let mut k: usize = lo;
        while k < hi
            invariant
                lo <= k,
                self@.wf(),
                forall|j: int| lo <= j < k ==> !self@.is_assign(j, name@),
            decreases hi - k,
        {
            if self.is_assign(k, name) {
                return true;
            }
            k += 1;
        }
        false
    }
}

impl Case {
    /// The evidence names `name` as the receiver of a mutating call in the
    /// callee.
    pub open spec fn marked(self, name: Seq<char>) -> bool {
        exists|j: int| 0 <= j < self.marks.len() && #[trigger] self.marks[j] == name
    }

    /// The variable is mutated: the evidence says so, or the extracted piece
    /// of the original caller assigns to it.
    pub open spec fn mutated(self, name: Seq<char>) -> bool {
        self.marked(name) || self.o.reassigns(
            self.fragment().lo as int,
            self.fragment().hi as int,
            name,
        )
    }

    /// How often the callee's body uses the variable.
    pub open spec fn reads(self, name: Seq<char>) -> nat {
        self.e.count(self.site.callee.body_open + 1, self.site.callee.body_close as int, name)
    }

    /// The caller uses the variable again after its first call of the callee.
    pub open spec fn used_after(self, name: Seq<char>) -> bool {
        self.site.calls.len() > 0 && self.e.mentions(
            self.e.call_close(self.site.calls[0] as int) + 1,
            self.site.caller.body_close as int,
            name,
        )
    }

    /// The passing mode of parameter `i`; `None` for one that is not captured.
    pub open spec fn mode(self, i: int) -> Option<PassMode> {
        let name = self.site.names[i];
        if self.captured(i) {
            Some(mode_for(self.mutated(name), self.reads(name), self.used_after(name)))
        } else {
            None
        }
    }

    /// The passing modes of all parameters, in the order of the signature.
    pub open spec fn modes(self) -> Seq<Option<PassMode>> {
        Seq::new(self.site.params.len(), |i: int| self.mode(i))
    }

    /// Some captured parameter is called `name`.
    pub open spec fn captures(self, name: Seq<char>) -> bool {
        exists|i: int| self.captured(i) && #[trigger] self.site.names[i] == name
    }

    /// The evidence names a variable that is not captured.
    pub open spec fn inconsistent(self) -> bool {
        exists|j: int| 0 <= j < self.marks.len() && !self.captures(#[trigger] self.marks[j])
    }
}

impl Analysis {
    fn marked(&self, name: &Vec<char>) -> (r: bool)
        ensures
            r == self@.marked(name@),
    {
        let mut j: usize = 0;
        while j < self.marks.len()
            invariant
                j <= self.marks.len(),
                forall|t: int| 0 <= t < j ==> #[trigger] self@.marks[t] != name@,
            decreases self.marks.len() - j,
        {
            if same_text(&self.marks[j], name) {
                assert(self@.marks[j as int] == name@);
                return true;
            }
            assert(self@.marks[j as int] == self.marks@[j as int]@);
            j += 1;
        }
        false
    }

    fn used_after(&self, name: &Vec<char>) -> (r: bool)
        requires
            self@.wf(),
        ensures
            r == self@.used_after(name@),
    {
        if self.site.calls.len() == 0 {
            return false;
        }
        let first = self.site.calls[0];
        assert(first == self@.site.calls[0]);
        let close = self.e.close_of(self.e.call_open(first), false);
        if close >= self.e.tokens.len() {
            return false;
        }
        self.e.mentions(close + 1, self.site.caller.body_close, name)
    }

    /// The passing modes of all parameters, in the order of the signature.
    pub fn modes(&self, frag: Span) -> (r: Vec<Option<PassMode>>)
        requires
            self@.wf(),
            frag == self@.fragment(),
        ensures
            r@ == self@.modes(),
    {
        let mut out: Vec<Option<PassMode>> = Vec::new();
        let mut i: usize = 0;
        assert(self@.site.names.len() == self.site.names@.len());
        assert(self@.e.names_of(self@.site.params).len() == self.site.params@.len());
        while i < self.site.params.len()
            invariant
                i <= self.site.params.len(),
                out@.len() == i,
                self@.wf(),
                frag == self@.fragment(),
                self.site.names@.len() == self.site.params@.len(),
                forall|j: int| 0 <= j < i ==> #[trigger] out@[j] == self@.mode(j),
            decreases self.site.params.len() - i,
        {
            let name = &self.site.names[i];
            assert(name@ == self@.site.names[i as int]);
            let m = if self.o.mentions(frag.lo, frag.hi, name) {
                let mutated = self.marked(name) || self.o.reassigns(frag.lo, frag.hi, name);
                let reads = self.e.count(
                    self.site.callee.body_open + 1,
                    self.site.callee.body_close,
                    name,
                );
                let after = self.used_after(name);
                Some(choose_mode(mutated, reads, after))
            } else {
                None
            };
            out.push(m);
            i += 1;
        }
        assert(out@ =~= self@.modes());
        out
    }

    fn captures(&self, modes: &Vec<Option<PassMode>>, name: &Vec<char>) -> (r: bool)
        requires
            self@.wf(),
            modes@ == self@.modes(),
        ensures
            r == self@.captures(name@),
    {
        let mut i: usize = 0;
        assert(self@.site.names.len() == self.site.names@.len());
        assert(self@.e.names_of(self@.site.params).len() == self.site.params@.len());
        while i < modes.len()
            invariant
                i <= modes.len(),
                self@.wf(),
                modes@ == self@.modes(),
                self.site.names@.len() == modes@.len(),
                forall|t: int|
                    0 <= t < i ==> !(self@.captured(t) && #[trigger] self@.site.names[t] == name@),
            decreases modes.len() - i,
        {
            assert(self@.site.names[i as int] == self.site.names@[i as int]@);
            assert(modes@[i as int] == self@.mode(i as int));
            if modes[i].is_some() && same_text(&self.site.names[i], name) {
                assert(self@.captured(i as int));
                return true;
            }
            i += 1;
        }
        false
    }

    /// Whether the evidence names a variable that is not captured.
    pub fn inconsistent(&self, modes: &Vec<Option<PassMode>>) -> (r: bool)
        requires
            self@.wf(),
            modes@ == self@.modes(),
        ensures
            r == self@.inconsistent(),
    {
        let mut j: usize = 0;
        while j < self.marks.len()
            invariant
                j <= self.marks.len(),
                self@.wf(),
                modes@ == self@.modes(),
                forall|t: int| 0 <= t < j ==> self@.captures(#[trigger] self@.marks[t]),
            decreases self.marks.len() - j,
        {
            assert(self@.marks[j as int] == self.marks@[j as int]@);
            if !self.captures(modes, &self.marks[j]) {
                return true;
            }
            j += 1;
        }
        false
    }
}

} // verus!
