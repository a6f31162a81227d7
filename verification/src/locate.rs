//! Finding the caller, the callee and the calls between them.

use vstd::prelude::*;
use crate::source::{Source, SourceView};
use crate::syntax::{FnDef, Param};
use crate::text::{copy_span, views};

verus! {

/// What the repair works on in the extracted program: the two definitions,
/// the callee's parameters with their names, and the calls of the callee in
/// the caller's body.
pub struct Site {
    pub caller: FnDef,
    pub callee: FnDef,
    pub params: Vec<Option<Param>>,
    pub names: Vec<Vec<char>>,
    pub calls: Vec<usize>,
}

/// The mathematical content of a [`Site`].
pub struct Located {
    pub caller: FnDef,
    pub callee: FnDef,
    pub params: Seq<Option<Param>>,
    pub names: Seq<Seq<char>>,
    pub calls: Seq<usize>,
}

impl View for Site {
    type V = Located;

    open spec fn view(&self) -> Located {
        Located {
            caller: self.caller,
            callee: self.callee,
            params: self.params@,
            names: views(self.names@),
            calls: self.calls@,
        }
    }
}

impl SourceView {
    /// The name that a parameter declares; the empty text for one that is not
    /// of the form `name: type`.
    pub open spec fn name_of(self, p: Option<Param>) -> Seq<char> {
        match p {
            Some(p) => self.text_of(p.name as int),
            None => Seq::empty(),
        }
    }

    /// The names of a list of parameters.
    pub open spec fn names_of(self, params: Seq<Option<Param>>) -> Seq<Seq<char>> {
        Seq::new(params.len(), |i: int| self.name_of(params[i]))
    }

    /// The call whose name is token `c` is closed and has `n` arguments.
    pub open spec fn call_fits(self, c: int, n: nat) -> bool {
        self.call_close(c) < self.len() && self.args_of(c).len() == n
    }

    /// Where caller and callee are defined, with the callee's parameters and
    /// its calls in the caller's body; `None` if either is not defined.
    pub open spec fn locate(self, caller: Seq<char>, callee: Seq<char>) -> Option<Located> {
        match (self.find_fn(caller), self.find_fn(callee)) {
            (Some(cr), Some(ce)) => Some(
                Located {
                    caller: cr,
                    callee: ce,
                    params: self.params_of(ce),
                    names: self.names_of(self.params_of(ce)),
                    calls: self.calls(cr.body_open + 1, cr.body_close as int, callee),
                },
            ),
            _ => None,
        }
    }
}

impl Located {
    /// The site lies inside the tokens of `e`.
    pub open spec fn wf(self, e: SourceView) -> bool {
        &&& e.wf()
        &&& e.def_wf(self.caller)
        &&& e.def_wf(self.callee)
        &&& self.names == e.names_of(self.params)
        &&& forall|i: int|
            0 <= i < self.params.len() ==> ((#[trigger] self.params[i]) matches Some(p)
                ==> self.callee.params_open < p.name && p.name + 2 == p.ty && p.ty < p.end
                <= self.callee.params_close)
        &&& forall|j: int|
            0 <= j < self.calls.len() ==> self.caller.body_open < (#[trigger] self.calls[j])
                < self.caller.body_close && e.call_open(self.calls[j] as int) < e.len()
        &&& forall|i: int, j: int|
            0 <= i < j < self.calls.len() ==> self.calls[i] < self.calls[j]
    }

    /// Every call has as many arguments as the callee has parameters.
    pub open spec fn arity_ok(self, e: SourceView) -> bool {
        forall|j: int|
            0 <= j < self.calls.len() ==> e.call_fits(
                (#[trigger] self.calls[j]) as int,
                self.params.len(),
            )
    }
}

impl Source {
    fn names_of(&self, params: &Vec<Option<Param>>) -> (r: Vec<Vec<char>>)
        requires
            self@.wf(),
            forall|i: int|
                0 <= i < params@.len() ==> ((#[trigger] params@[i]) matches Some(p) ==> p.name
                    < self.tokens.len()),
        ensures
            views(r@) == self@.names_of(params@),
    {
        let mut out: Vec<Vec<char>> = Vec::new();
        let mut i: usize = 0;
        while i < params.len()
            invariant
                i <= params.len(),
                out@.len() == i,
                self@.wf(),
                forall|j: int|
                    0 <= j < params@.len() ==> ((#[trigger] params@[j]) matches Some(p) ==> p.name
                        < self.tokens.len()),
                forall|j: int| 0 <= j < i ==> (#[trigger] out@[j])@ == self@.name_of(params@[j]),
            decreases params.len() - i,
        {
            let name = match params[i] {
                Some(p) => {
                    let t = self.tokens[p.name];
                    copy_span(&self.text, t.start, t.end)
                },
                None => Vec::new(),
            };
            out.push(name);
            i += 1;
        }
        assert(views(out@) =~= self@.names_of(params@));
        out
    }

    /// Finds caller and callee and the calls of the callee in the caller.
    pub fn locate(&self, caller: &Vec<char>, callee: &Vec<char>) -> (r: Option<Site>)
        requires
            self@.wf(),
        ensures
            r is Some <==> self@.locate(caller@, callee@) is Some,
            r matches Some(s) ==> self@.locate(caller@, callee@) == Some(s@) && s@.wf(self@),
    {
        let cr = match self.find_fn(caller) {
            Some(d) => d,
            None => {
                return None;
            },
        };
        let ce = match self.find_fn(callee) {
            Some(d) => d,
            None => {
                return None;
            },
        };
        let params = self.params(&ce);
        let names = self.names_of(&params);
        let calls = self.calls(cr.body_open + 1, cr.body_close, callee);
        Some(Site { caller: cr, callee: ce, params, names, calls })
    }

    /// Whether the call whose name is token `c` is closed and has `n`
    /// arguments.
    pub fn call_fits(&self, c: usize, n: usize) -> (r: bool)
        requires
            self@.wf(),
            c < self.tokens.len(),
            self@.call_open(c as int) < self.tokens.len(),
        ensures
            r == self@.call_fits(c as int, n as nat),
    {
        let open = self.call_open(c);
        let close = self.close_of(open, false);
        if close >= self.tokens.len() {
            return false;
        }
        let args = self.segments(open, close, false);
        args.len() == n
    }

    /// Whether every call at the site has as many arguments as the callee has
    /// parameters.
    pub fn arity_ok(&self, site: &Site) -> (r: bool)
        requires
            site@.wf(self@),
        ensures
            r == site@.arity_ok(self@),
    {
        let mut j: usize = 0;
        while j < site.calls.len()
            invariant
                j <= site.calls.len(),
                site@.wf(self@),
                forall|i: int|
                    0 <= i < j ==> self@.call_fits(
                        (#[trigger] site@.calls[i]) as int,
                        site@.params.len(),
                    ),
            decreases site.calls.len() - j,
        {
            let c = site.calls[j];
            assert(c == site@.calls[j as int]);
            if !self.call_fits(c, site.params.len()) {
                assert(!self@.call_fits(site@.calls[j as int] as int, site@.params.len()));
                return false;
            }
            j += 1;
        }
        true
    }
}

} // verus!
