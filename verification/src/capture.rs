//! Matching the callee's parameters with the caller as it was before the
//! extraction.
//!
//! The piece of the original caller that became the callee is found by
//! comparing the caller's body before and after: the tokens that both share at
//! the front, up to the first call, and at the back, after the last call, stand
//! outside it; what lies between is the extracted piece.

use vstd::prelude::*;
use crate::locate::{Located, Site};
use crate::source::{same_token, Source, SourceView};
use crate::syntax::{FnDef, Span};
use crate::text::views;

verus! {

/// Everything one repair reads: the extracted program and the site in it, the
/// original program and the body of the caller there, and the receivers that
/// the evidence names for the callee.
pub struct Analysis {
    pub e: Source,
    pub o: Source,
    pub site: Site,
    pub body: Span,
    pub marks: Vec<Vec<char>>,
}

/// The mathematical content of an [`Analysis`].
pub struct Case {
    pub e: SourceView,
    pub o: SourceView,
    pub site: Located,
    pub body: Span,
    pub marks: Seq<Seq<char>>,
}

impl View for Analysis {
    type V = Case;

    open spec fn view(&self) -> Case {
        Case {
            e: self.e@,
            o: self.o@,
            site: self.site@,
            body: self.body,
            marks: views(self.marks@),
        }
    }
}

/// The tokens between the braces of a definition; no tokens where there is no
/// definition.
pub open spec fn body_of(d: Option<FnDef>) -> Span {
    match d {
        Some(d) => Span { lo: (d.body_open + 1) as usize, hi: d.body_close },
        None => Span { lo: 0, hi: 0 },
    }
}

/// How many tokens the runs `ol..oh` of `o` and `el..eh` of `e` share at the
/// front, given that they share `n`.
pub open spec fn common_prefix(
    o: SourceView,
    ol: int,
    oh: int,
    e: SourceView,
    el: int,
    eh: int,
    n: int,
) -> int
    decreases oh - ol - n,
{
    if 0 <= n && ol + n < oh && el + n < eh && same_token(o, ol + n, e, el + n) {
        common_prefix(o, ol, oh, e, el, eh, n + 1)
    } else {
        n
    }
}

/// How many tokens the runs `ol..oh` of `o` and `el..eh` of `e` share at the
/// back, given that they share `n`.
pub open spec fn common_suffix(
    o: SourceView,
    ol: int,
    oh: int,
    e: SourceView,
    el: int,
    eh: int,
    n: int,
) -> int
    decreases oh - ol - n,
{
    if 0 <= n && ol + n < oh && el + n < eh && same_token(o, oh - 1 - n, e, eh - 1 - n) {
        common_suffix(o, ol, oh, e, el, eh, n + 1)
    } else {
        n
    }
}

impl Case {
    /// Both programs have well-formed tokens, the site lies inside the
    /// extracted program, and the caller's body inside the original one.
    pub open spec fn wf(self) -> bool {
        &&& self.e.wf()
        &&& self.o.wf()
        &&& self.site.wf(self.e)
        &&& self.body.lo <= self.body.hi <= self.o.len()
    }

    /// The piece of the original caller's body that the callee was made of.
    /// Without a call to go by, it is the whole body.
    pub open spec fn fragment(self) -> Span {
        let ol = self.body.lo as int;
        let oh = self.body.hi as int;
        if self.site.calls.len() == 0 {
            self.body
        } else {
            let el = self.site.caller.body_open + 1;
            let first = self.site.calls[0] as int;
            let after = self.e.call_close(self.site.calls.last() as int) + 1;
            let eh = self.site.caller.body_close as int;
            let pre = common_prefix(self.o, ol, oh, self.e, el, first, 0);
            let post = common_suffix(self.o, ol + pre, oh, self.e, after, eh, 0);
            Span { lo: (ol + pre) as usize, hi: (oh - post) as usize }
        }
    }

    /// Parameter `i` has no counterpart in the original caller: it is not of
    /// the form `name: type`, or its name does not occur in the caller's body.
    pub open spec fn unmatched(self, i: int) -> bool {
        self.site.params[i] is None || !self.o.mentions(
            self.body.lo as int,
            self.body.hi as int,
            self.site.names[i],
        )
    }

    /// The two programs do not fit together: a call does not have one
    /// argument for each parameter, a parameter has no counterpart in the
    /// original caller, or the callee takes nothing while the evidence names a
    /// variable that the original caller does not have.
    pub open spec fn capture_fails(self) -> bool {
        ||| !self.site.arity_ok(self.e)
        ||| exists|i: int| 0 <= i < self.site.params.len() && #[trigger] self.unmatched(i)
        ||| (self.site.params.len() == 0 && exists|j: int|
            0 <= j < self.marks.len() && !self.o.mentions(
                self.body.lo as int,
                self.body.hi as int,
                #[trigger] self.marks[j],
            ))
    }

    /// Parameter `i` is captured: its name occurs in the extracted piece of
    /// the original caller.
    pub open spec fn captured(self, i: int) -> bool {
        0 <= i < self.site.params.len() && self.o.mentions(
            self.fragment().lo as int,
            self.fragment().hi as int,
            self.site.names[i],
        )
    }
}

fn shared_front(o: &Source, ol: usize, oh: usize, e: &Source, el: usize, eh: usize) -> (n: usize)
    requires
        o@.wf(),
        e@.wf(),
        oh <= o.tokens.len(),
        eh <= e.tokens.len(),
    ensures
        n == common_prefix(o@, ol as int, oh as int, e@, el as int, eh as int, 0),
        ol + n <= oh || n == 0,
{
    if ol >= oh || el >= eh {
        return 0;
    }
    let mut n: usize = 0;
    while n < oh - ol && n < eh - el && o.same_token(ol + n, e, el + n)
        invariant
            ol < oh <= o.tokens.len(),
            el < eh <= e.tokens.len(),
            n <= oh - ol,
            n <= eh - el,
            o@.wf(),
            e@.wf(),
            common_prefix(o@, ol as int, oh as int, e@, el as int, eh as int, n as int)
                == common_prefix(o@, ol as int, oh as int, e@, el as int, eh as int, 0),
        decreases oh - ol - n,
    {
        n += 1;
    }
    n
}

fn shared_back(o: &Source, ol: usize, oh: usize, e: &Source, el: usize, eh: usize) -> (n: usize)
    requires
        o@.wf(),
        e@.wf(),
        oh <= o.tokens.len(),
        eh <= e.tokens.len(),
    ensures
        n == common_suffix(o@, ol as int, oh as int, e@, el as int, eh as int, 0),
        ol + n <= oh || n == 0,
{
    if ol >= oh || el >= eh {
        return 0;
    }
    let mut n: usize = 0;
    while n < oh - ol && n < eh - el && o.same_token(oh - 1 - n, e, eh - 1 - n)
        invariant
            ol < oh <= o.tokens.len(),
            el < eh <= e.tokens.len(),
            n <= oh - ol,
            n <= eh - el,
            o@.wf(),
            e@.wf(),
            common_suffix(o@, ol as int, oh as int, e@, el as int, eh as int, n as int)
                == common_suffix(o@, ol as int, oh as int, e@, el as int, eh as int, 0),
        decreases oh - ol - n,
    {
        n += 1;
    }
    n
}

impl Analysis {
    /// The piece of the original caller's body that the callee was made of.
    pub fn fragment(&self) -> (f: Span)
        requires
            self@.wf(),
        ensures
            f == self@.fragment(),
            self.body.lo <= f.lo <= f.hi <= self.body.hi,
    {
        let ol = self.body.lo;
        let oh = self.body.hi;
        if self.site.calls.len() == 0 {
            return self.body;
        }
        let el = self.site.caller.body_open + 1;
        let first = self.site.calls[0];
        let last = self.site.calls[self.site.calls.len() - 1];
        assert(first == self@.site.calls[0] && last == self@.site.calls.last());
        let eh = self.site.caller.body_close;
        let close = self.e.close_of(self.e.call_open(last), false);
        let pre = shared_front(&self.o, ol, oh, &self.e, el, first);
        let post = if close < self.e.tokens.len() {
            shared_back(&self.o, ol + pre, oh, &self.e, close + 1, eh)
        } else {
            0
        };
        Span { lo: ol + pre, hi: oh - post }
    }

    /// Whether the two programs fail to fit together.
    pub fn capture_fails(&self) -> (r: bool)
        requires
            self@.wf(),
        ensures
            r == self@.capture_fails(),
    {
        if !self.e.arity_ok(&self.site) {
            return true;
        }
        let lo = self.body.lo;
        let hi = self.body.hi;
        let mut i: usize = 0;
        assert(self@.site.names.len() == self.site.names@.len());
        assert(self@.e.names_of(self@.site.params).len() == self.site.params@.len());
        while i < self.site.params.len()
            invariant
                i <= self.site.params.len(),
                self@.wf(),
                lo == self.body.lo,
                hi == self.body.hi,
                self.site.names@.len() == self.site.params@.len(),
                forall|j: int| 0 <= j < i ==> !#[trigger] self@.unmatched(j),
            decreases self.site.params.len() - i,
        {
            if self.site.params[i].is_none() || !self.o.mentions(lo, hi, &self.site.names[i]) {
                assert(self@.unmatched(i as int));
                return true;
            }
            i += 1;
        }
        if self.site.params.len() == 0 {
            let mut j: usize = 0;
            while j < self.marks.len()
                invariant
                    j <= self.marks.len(),
                    self.site.params@.len() == 0,
                    self@.wf(),
                    lo == self.body.lo,
                    hi == self.body.hi,
                    forall|t: int|
                        0 <= t < j ==> self@.o.mentions(
                            lo as int,
                            hi as int,
                            #[trigger] self@.marks[t],
                        ),
                decreases self.marks.len() - j,
            {
                if !self.o.mentions(lo, hi, &self.marks[j]) {
                    assert(self@.marks[j as int] == self.marks@[j as int]@);
                    assert(!self@.o.mentions(
                        self@.body.lo as int,
                        self@.body.hi as int,
                        self@.marks[j as int],
                    ));
                    return true;
                }
                j += 1;
            }
        }
        false
    }
}

} // verus!
