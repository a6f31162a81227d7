//! The evidence of mutation: method calls known to need a mutable receiver.
//!
//! The evidence is program text. Each method call `receiver.method(..)` in it
//! whose receiver is a plain variable, and which is not an argument of another
//! call, is one entry. An entry inside the body of a function speaks of that
//! function; one outside all functions speaks of whichever function is being
//! repaired.

use vstd::prelude::*;
use crate::source::{Source, SourceView};
use crate::syntax::FnDef;
use crate::text::{copy_span, views};

verus! {

/// Token `k` stands inside the body of `d`.
pub open spec fn inside(d: FnDef, k: int) -> bool {
    d.body_open < k < d.body_close
}

impl SourceView {
    /// Token `k` is the receiver of a method call: a name, a dot, the method's
    /// name and an opening bracket, the first name not itself selected with a
    /// dot.
    pub open spec fn is_receiver(self, k: int) -> bool {
        self.is_ident(k) && self.is_punct(k + 1, '.') && self.is_ident(k + 2) && self.is_punct(
            k + 3,
            '(',
        ) && !self.is_punct(k - 1, '.')
    }

    /// Token `k` stands inside the body of some function.
    pub open spec fn enclosed(self, k: int) -> bool {
        exists|i: int| 0 <= i < self.defs().len() && inside(#[trigger] self.defs()[i], k)
    }

    /// Token `k` stands inside the body of a function called `name`.
    pub open spec fn enclosed_by(self, k: int, name: Seq<char>) -> bool {
        exists|i: int|
            0 <= i < self.defs().len() && inside(#[trigger] self.defs()[i], k) && self.is_word(
                self.defs()[i].name as int,
                name,
            )
    }

    /// How many round and square brackets are open in front of token `k`.
    pub open spec fn bracket_depth(self, k: int) -> nat
        decreases k,
    {
        if k <= 0 {
            0
        } else {
            let d = self.bracket_depth(k - 1);
            if self.is_punct(k - 1, '(') || self.is_punct(k - 1, '[') {
                d + 1
            } else if (self.is_punct(k - 1, ')') || self.is_punct(k - 1, ']')) && d > 0 {
                (d - 1) as nat
            } else {
                d
            }
        }
    }

    /// Token `k` is the receiver of an entry that speaks of `callee`: of a
    /// method call that is not itself an argument of another call, and that
    /// stands outside all functions or inside one called `callee`.
    pub open spec fn concerns(self, k: int, callee: Seq<char>) -> bool {
        self.is_receiver(k) && self.bracket_depth(k) == 0 && (!self.enclosed(k)
            || self.enclosed_by(k, callee))
    }

    /// Some entry that speaks of `callee` has the receiver `name`.
    pub open spec fn has_receiver(self, name: Seq<char>, callee: Seq<char>) -> bool {
        exists|k: int| #[trigger] self.concerns(k, callee) && self.text_of(k) == name
    }

    /// The receivers of the entries that speak of `callee`, from token `k`
    /// on, appended to `acc`.
    pub open spec fn receivers_from(self, k: int, callee: Seq<char>, acc: Seq<Seq<char>>) -> Seq<
        Seq<char>,
    >
        decreases self.tokens.len() - k,
    {
        if k < 0 || k >= self.tokens.len() {
            acc
        } else {
            self.receivers_from(
                k + 1,
                callee,
                if self.concerns(k, callee) {
                    acc.push(self.text_of(k))
                } else {
                    acc
                },
            )
        }
    }

    /// The receivers of the entries that speak of `callee`, in the order of
    /// the text.
    pub open spec fn receivers(self, callee: Seq<char>) -> Seq<Seq<char>> {
        self.receivers_from(0, callee, Seq::empty())
    }
}

impl Source {
    fn is_receiver(&self, k: usize) -> (r: bool)
        requires
            self@.wf(),
        ensures
            r == self@.is_receiver(k as int),
    {
        if k >= self.tokens.len() {
            return false;
        }
        self.is_ident(k) && self.is_punct(k + 1, '.') && self.is_ident(k + 2) && self.is_punct(
            k + 3,
            '(',
        ) && !(k > 0 && self.is_punct(k - 1, '.'))
    }

    fn concerns(&self, defs: &Vec<FnDef>, k: usize, depth: usize, callee: &Vec<char>) -> (r: bool)
        requires
            self@.wf(),
            defs@ == self@.defs(),
            forall|i: int| 0 <= i < defs@.len() ==> self@.def_wf(#[trigger] defs@[i]),
            depth == self@.bracket_depth(k as int),
        ensures
            r == self@.concerns(k as int, callee@),
    {
        if depth != 0 || !self.is_receiver(k) {
            return false;
        }
        let mut any = false;
        let mut own = false;
        let mut i: usize = 0;
        while i < defs.len()
            invariant
                i <= defs.len(),
                self@.wf(),
                defs@ == self@.defs(),
                forall|j: int| 0 <= j < defs@.len() ==> self@.def_wf(#[trigger] defs@[j]),
                any <==> exists|j: int| 0 <= j < i && inside(#[trigger] defs@[j], k as int),
                own <==> exists|j: int|
                    0 <= j < i && inside(#[trigger] defs@[j], k as int) && self@.is_word(
                        defs@[j].name as int,
                        callee@,
                    ),
            decreases defs.len() - i,
        {
            let d = defs[i];
            if d.body_open < k && k < d.body_close {
                any = true;
                if self.is_word(d.name, callee) {
                    own = true;
                }
            }
            i += 1;
        }
        !any || own
    }

    /// The receivers of the entries that speak of `callee`, in the order of
    /// the text.
    pub fn receivers(&self, callee: &Vec<char>) -> (r: Vec<Vec<char>>)
        requires
            self@.wf(),
        ensures
            views(r@) == self@.receivers(callee@),
            forall|i: int|
                0 <= i < r@.len() ==> self@.has_receiver(#[trigger] views(r@)[i], callee@),
            forall|k: int|
                0 <= k < self@.len() && #[trigger] self@.concerns(k, callee@) ==> views(
                    r@,
                ).contains(self@.text_of(k)),
    {
        let defs = self.defs();
        let mut out: Vec<Vec<char>> = Vec::new();
        let mut k: usize = 0;
        let mut depth: usize = 0;
        assert(views(out@) =~= Seq::empty());
        while k < self.tokens.len()
            invariant
                k <= self.tokens.len(),
                depth == self@.bracket_depth(k as int),
                depth <= k,
                self@.wf(),
                defs@ == self@.defs(),
                forall|i: int| 0 <= i < defs@.len() ==> self@.def_wf(#[trigger] defs@[i]),
                self@.receivers_from(k as int, callee@, views(out@)) == self@.receivers(callee@),
                forall|i: int|
                    0 <= i < out@.len() ==> self@.has_receiver(
                        #[trigger] views(out@)[i],
                        callee@,
                    ),
                forall|t: int|
                    0 <= t < k && #[trigger] self@.concerns(t, callee@) ==> views(out@).contains(
                        self@.text_of(t),
                    ),
            decreases self.tokens.len() - k,
        {
            let ghost before = views(out@);
            if self.concerns(&defs, k, depth, callee) {
                let t = self.tokens[k];
                let name = copy_span(&self.text, t.start, t.end);
                proof {
                    assert(views(out@.push(name)) =~= views(out@).push(name@));
                }
                out.push(name);
                assert(views(out@)[before.len() as int] == self@.text_of(k as int));
            }
            assert forall|i: int| 0 <= i < out@.len() implies self@.has_receiver(
                #[trigger] views(out@)[i],
                callee@,
            ) by {
                if i < before.len() {
                    assert(views(out@)[i] == before[i]);
                } else {
                    assert(self@.concerns(k as int, callee@));
                }
            }
            assert forall|t: int| 0 <= t < k + 1 && #[trigger] self@.concerns(
                t,
                callee@,
            ) implies views(out@).contains(self@.text_of(t)) by {
                if t < k {
                    let i = choose|i: int| 0 <= i < before.len() && before[i] == self@.text_of(t);
                    assert(views(out@)[i] == self@.text_of(t));
                }
            }
            if self.is_punct(k, '(') || self.is_punct(k, '[') {
                depth += 1;
            } else if (self.is_punct(k, ')') || self.is_punct(k, ']')) && depth > 0 {
                depth -= 1;
            }
            k += 1;
        }
        out
    }
}

} // verus!
