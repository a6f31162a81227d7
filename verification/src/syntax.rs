//! Function definitions, parameter lists and calls, read off the tokens.

use vstd::prelude::*;
use crate::source::{word_fn, word_mut, Source, SourceView};

verus! {

/// A run of tokens: those with index `lo` up to, not including, `hi`.
#[derive(Clone, Copy, Debug, PartialEq, Eq, Structural)]
pub struct Span {
    pub lo: usize,
    pub hi: usize,
}

/// A function definition, by the indices of its landmark tokens: its name,
/// the brackets round its parameters and the braces round its body.
#[derive(Clone, Copy, Debug, PartialEq, Eq, Structural)]
pub struct FnDef {
    pub name: usize,
    pub params_open: usize,
    pub params_close: usize,
    pub body_open: usize,
    pub body_close: usize,
}

/// A parameter written as a name, a colon and a type: the index of the name,
/// of the first token of the type, and of the token after the type.
#[derive(Clone, Copy, Debug, PartialEq, Eq, Structural)]
pub struct Param {
    pub name: usize,
    pub ty: usize,
    pub end: usize,
}

impl SourceView {
    /// Index of the token that closes the group in which token `k` stands at
    /// nesting depth `depth`, or the number of tokens if none does.
    pub open spec fn close_from(self, k: int, depth: nat, angles: bool) -> int
        decreases self.tokens.len() - k,
    {
        if k < 0 || k >= self.tokens.len() {
            self.tokens.len() as int
        } else if self.is_open(k, angles) {
            self.close_from(k + 1, depth + 1, angles)
        } else if self.is_shut(k, angles) {
            if depth <= 1 {
                k
            } else {
                self.close_from(k + 1, (depth - 1) as nat, angles)
            }
        } else {
            self.close_from(k + 1, depth, angles)
        }
    }

    /// Index of the token that closes the group opened by token `open`.
    pub open spec fn close_of(self, open: int, angles: bool) -> int {
        self.close_from(open + 1, 1, angles)
    }

    /// Index of the first `{` or `;` at or after `k` that stands outside all
    /// brackets, `depth` of which are open at `k`; the number of tokens if
    /// there is none.
    pub open spec fn body_from(self, k: int, depth: nat) -> int
        decreases self.tokens.len() - k,
    {
        if k < 0 || k >= self.tokens.len() {
            self.tokens.len() as int
        } else if depth == 0 && (self.is_punct(k, '{') || self.is_punct(k, ';')) {
            k
        } else if self.is_open(k, false) {
            self.body_from(k + 1, depth + 1)
        } else if self.is_shut(k, false) {
            self.body_from(
                k + 1,
                if depth > 0 {
                    (depth - 1) as nat
                } else {
                    0
                },
            )
        } else {
            self.body_from(k + 1, depth)
        }
    }

    /// The function definition whose `fn` keyword is token `k`: the keyword,
    /// a name, generic parameters if any, the parameters in round brackets and,
    /// before any `;`, a body in braces.
    pub open spec fn fn_def_at(self, k: int) -> Option<FnDef> {
        let po = if self.is_punct(k + 2, '<') {
            self.close_of(k + 2, true) + 1
        } else {
            k + 2
        };
        let pc = self.close_of(po, false);
        let bo = self.body_from(pc + 1, 0);
        let bc = self.close_of(bo, false);
        if self.is_word(k, word_fn()) && self.is_ident(k + 1) && self.is_punct(po, '(') && pc
            < self.len() && self.is_punct(bo, '{') && bc < self.len() {
            Some(
                FnDef {
                    name: (k + 1) as usize,
                    params_open: po as usize,
                    params_close: pc as usize,
                    body_open: bo as usize,
                    body_close: bc as usize,
                },
            )
        } else {
            None
        }
    }

    /// The landmarks of a definition follow one another inside the tokens.
    pub open spec fn def_wf(self, d: FnDef) -> bool {
        d.name < d.params_open < d.params_close < d.body_open < d.body_close < self.len()
    }

    /// A function called `name` is defined with its keyword at token `k`.
    pub open spec fn defines(self, k: int, name: Seq<char>) -> bool {
        self.fn_def_at(k) is Some && self.text_of(k + 1) == name
    }

    /// The first definition of a function called `name` whose keyword stands
    /// at token `k` or later.
    pub open spec fn find_fn_from(self, name: Seq<char>, k: int) -> Option<FnDef>
        decreases self.tokens.len() - k,
    {
        if k < 0 || k >= self.tokens.len() {
            None
        } else if self.defines(k, name) {
            self.fn_def_at(k)
        } else {
            self.find_fn_from(name, k + 1)
        }
    }

    /// The first definition of a function called `name`.
    pub open spec fn find_fn(self, name: Seq<char>) -> Option<FnDef> {
        self.find_fn_from(name, 0)
    }

    /// The definitions whose keyword stands at token `k` or later, appended to
    /// `acc` in the order of the text.
    pub open spec fn defs_from(self, k: int, acc: Seq<FnDef>) -> Seq<FnDef>
        decreases self.tokens.len() - k,
    {
        if k < 0 || k >= self.tokens.len() {
            acc
        } else {
            self.defs_from(
                k + 1,
                match self.fn_def_at(k) {
                    Some(d) => acc.push(d),
                    None => acc,
                },
            )
        }
    }

    /// All function definitions, in the order of the text.
    pub open spec fn defs(self) -> Seq<FnDef> {
        self.defs_from(0, Seq::empty())
    }

    /// Index of the first comma in `k..hi` that stands outside all brackets,
    /// `depth` of which are open at `k`; `hi` if there is none.
    pub open spec fn seg_end(self, k: int, hi: int, depth: nat, angles: bool) -> int
        decreases hi - k,
    {
        if k >= hi {
            hi
        } else if depth == 0 && self.is_punct(k, ',') {
            k
        } else if self.is_open(k, angles) {
            self.seg_end(k + 1, hi, depth + 1, angles)
        } else if self.is_shut(k, angles) {
            self.seg_end(
                k + 1,
                hi,
                if depth > 0 {
                    (depth - 1) as nat
                } else {
                    0
                },
                angles,
            )
        } else {
            self.seg_end(k + 1, hi, depth, angles)
        }
    }

    /// The pieces into which the commas outside all brackets cut the tokens
    /// `k..hi`, appended to `acc`; empty pieces are left out.
    pub open spec fn segments_from(self, k: int, hi: int, angles: bool, acc: Seq<Span>) -> Seq<
        Span,
    >
        decreases hi - k,
    {
        if k >= hi {
            acc
        } else {
            let e = self.seg_end(k, hi, 0, angles);
            let next = if k < e {
                acc.push(Span { lo: k as usize, hi: e as usize })
            } else {
                acc
            };
            if k <= e < hi {
                self.segments_from(e + 1, hi, angles, next)
            } else {
                next
            }
        }
    }

    /// The items of the list that stands between the brackets `open` and
    /// `close`: its pieces between commas.
    pub open spec fn segments(self, open: int, close: int, angles: bool) -> Seq<Span> {
        self.segments_from(open + 1, close, angles, Seq::empty())
    }

    /// The parameter that a piece of a parameter list declares, if it has the
    /// form `name: type` or `mut name: type`.
    pub open spec fn param_of(self, seg: Span) -> Option<Param> {
        let n = if self.is_word(seg.lo as int, word_mut()) {
            seg.lo + 1
        } else {
            seg.lo as int
        };
        if self.is_ident(n) && self.is_punct(n + 1, ':') && n + 2 < seg.hi {
            Some(Param { name: n as usize, ty: (n + 2) as usize, end: seg.hi })
        } else {
            None
        }
    }

    /// The parameters of a definition, in order; `None` for one that is not of
    /// the form `name: type`.
    pub open spec fn params_of(self, d: FnDef) -> Seq<Option<Param>> {
        let segs = self.segments(d.params_open as int, d.params_close as int, true);
        Seq::new(segs.len(), |i: int| self.param_of(segs[i]))
    }

    /// Index of the token at which the argument list of a call must open
    /// whose name is token `k`: the next token, or the one behind the type
    /// arguments where these follow the name as `::<..>`.
    pub open spec fn call_open(self, k: int) -> int {
        if self.is_punct(k + 1, ':') && self.is_punct(k + 2, ':') && self.is_punct(k + 3, '<') {
            self.close_of(k + 3, true) + 1
        } else {
            k + 1
        }
    }

    /// Token `k` is the name in a call `callee(..)` or `callee::<..>(..)` of
    /// the free function `callee`: not a method selected with a dot, and not
    /// its definition.
    pub open spec fn is_call(self, k: int, callee: Seq<char>) -> bool {
        self.is_word(k, callee) && self.is_punct(self.call_open(k), '(') && !self.is_punct(
            k - 1,
            '.',
        ) && !self.is_word(k - 1, word_fn())
    }

    /// The calls of `callee` among the tokens `k..hi`, appended to `acc`.
    pub open spec fn calls_from(self, k: int, hi: int, callee: Seq<char>, acc: Seq<usize>) -> Seq<
        usize,
    >
        decreases hi - k,
    {
        if k >= hi {
            acc
        } else {
            self.calls_from(
                k + 1,
                hi,
                callee,
                if self.is_call(k, callee) {
                    acc.push(k as usize)
                } else {
                    acc
                },
            )
        }
    }

    /// The calls of `callee` among the tokens `lo..hi`, each by the index of
    /// its name, in the order of the text.
    pub open spec fn calls(self, lo: int, hi: int, callee: Seq<char>) -> Seq<usize> {
        self.calls_from(lo, hi, callee, Seq::empty())
    }

    /// Index of the bracket that closes the argument list of the call whose
    /// name is token `c`.
    pub open spec fn call_close(self, c: int) -> int {
        self.close_of(self.call_open(c), false)
    }

    /// The arguments of the call whose name is token `c`.
    pub open spec fn args_of(self, c: int) -> Seq<Span> {
        self.segments(self.call_open(c), self.call_close(c), false)
    }
}

impl Source {
    /// Index of the token that closes the group opened by token `open`.
    pub fn close_of(&self, open: usize, angles: bool) -> (r: usize)
        requires
            self@.wf(),
            open < self.tokens.len(),
        ensures
            r == self@.close_of(open as int, angles),
            open < r <= self.tokens.len(),
    {
        let mut k: usize = open + 1;
        let mut depth: usize = 1;
        while k < self.tokens.len()
            invariant
                open < k <= self.tokens.len(),
                1 <= depth <= k - open,
                self@.wf(),
                self@.close_from(k as int, depth as nat, angles) == self@.close_of(
                    open as int,
                    angles,
                ),
            decreases self.tokens.len() - k,
        {
            if self.is_open(k, angles) {
                depth += 1;
            } else if self.is_shut(k, angles) {
                if depth <= 1 {
                    return k;
                }
                depth -= 1;
            }
            k += 1;
        }
        k
    }

    /// Index of the first `{` or `;` at or after `start` that stands outside
    /// all brackets opened from there on.
    pub fn body_from(&self, start: usize) -> (r: usize)
        requires
            self@.wf(),
            start <= self.tokens.len(),
        ensures
            r == self@.body_from(start as int, 0),
            start <= r <= self.tokens.len(),
    {
        let mut k: usize = start;
        let mut depth: usize = 0;
        while k < self.tokens.len()
            invariant
                start <= k <= self.tokens.len(),
                depth <= k - start,
                self@.wf(),
                self@.body_from(k as int, depth as nat) == self@.body_from(start as int, 0),
            decreases self.tokens.len() - k,
        {
            if depth == 0 && (self.is_punct(k, '{') || self.is_punct(k, ';')) {
                return k;
            }
            if self.is_open(k, false) {
                depth += 1;
            } else if self.is_shut(k, false) {
                if depth > 0 {
                    depth -= 1;
                }
            }
            k += 1;
        }
        k
    }

    /// The function definition whose `fn` keyword is token `k`, if one starts
    /// there.
    pub fn fn_def(&self, k: usize) -> (r: Option<FnDef>)
        requires
            self@.wf(),
        ensures
            r == self@.fn_def_at(k as int),
            r matches Some(d) ==> self@.def_wf(d) && d.name == k + 1,
    {
        let n = self.tokens.len();
        if !self.is_fn(k) {
            return None;
        }
        if !self.is_ident(k + 1) {
            return None;
        }
        let po: usize = if self.is_punct(k + 2, '<') {
            let c = self.close_of(k + 2, true);
            if c >= n {
                return None;
            }
            c + 1
        } else {
            k + 2
        };
        if !self.is_punct(po, '(') {
            return None;
        }
        let pc = self.close_of(po, false);
        if pc >= n {
            return None;
        }
        let bo = self.body_from(pc + 1);
        if !self.is_punct(bo, '{') {
            return None;
        }
        let bc = self.close_of(bo, false);
        if bc >= n {
            return None;
        }
        Some(FnDef { name: k + 1, params_open: po, params_close: pc, body_open: bo, body_close: bc })
    }

    /// The first definition of a function called `name`: no function of that
    /// name is defined before it, and none at all where the result is `None`.
    pub fn find_fn(&self, name: &Vec<char>) -> (r: Option<FnDef>)
        requires
            self@.wf(),
        ensures
            r == self@.find_fn(name@),
            r matches Some(d) ==> self@.def_wf(d) && self@.fn_def_at(d.name - 1) == Some(d)
                && self@.defines(d.name - 1, name@) && forall|j: int|
                0 <= j < d.name - 1 ==> !self@.defines(j, name@),
            r is None ==> forall|j: int| 0 <= j < self@.len() ==> !self@.defines(j, name@),
    {
        let mut k: usize = 0;
        while k < self.tokens.len()
            invariant
                k <= self.tokens.len(),
                self@.wf(),
                self@.find_fn_from(name@, k as int) == self@.find_fn(name@),
                forall|j: int| 0 <= j < k ==> !self@.defines(j, name@),
            decreases self.tokens.len() - k,
        {
            match self.fn_def(k) {
                Some(d) => {
                    if self.is_word(k + 1, name) {
                        return Some(d);
                    }
                },
                None => {},
            }
            k += 1;
        }
        None
    }

    /// All function definitions, in the order of the text.
    pub fn defs(&self) -> (r: Vec<FnDef>)
        requires
            self@.wf(),
        ensures
            r@ == self@.defs(),
            forall|i: int|
                0 <= i < r@.len() ==> self@.def_wf(#[trigger] r@[i]) && self@.fn_def_at(
                    r@[i].name - 1,
                ) == Some(r@[i]),
            forall|k: int|
                0 <= k < self@.len() && self@.fn_def_at(k) is Some ==> r@.contains(
                    (#[trigger] self@.fn_def_at(k)).unwrap(),
                ),
    {
        let mut out: Vec<FnDef> = Vec::new();
        let mut k: usize = 0;
        while k < self.tokens.len()
            invariant
                k <= self.tokens.len(),
                self@.wf(),
                self@.defs_from(k as int, out@) == self@.defs(),
                forall|i: int|
                    0 <= i < out@.len() ==> self@.def_wf(#[trigger] out@[i]) && self@.fn_def_at(
                        out@[i].name - 1,
                    ) == Some(out@[i]),
                forall|j: int|
                    0 <= j < k && self@.fn_def_at(j) is Some ==> out@.contains(
                        (#[trigger] self@.fn_def_at(j)).unwrap(),
                    ),
            decreases self.tokens.len() - k,
        {
            let ghost before = out@;
            match self.fn_def(k) {
                Some(d) => {
                    out.push(d);
                    assert(out@[before.len() as int] == d);
                },
                None => {},
            }
            assert forall|j: int| 0 <= j < k + 1 && self@.fn_def_at(j) is Some implies out@.contains(
                (#[trigger] self@.fn_def_at(j)).unwrap(),
            ) by {
                if j < k {
                    let d = self@.fn_def_at(j).unwrap();
                    let i = choose|i: int| 0 <= i < before.len() && before[i] == d;
                    assert(out@[i] == d);
                }
            }
            k += 1;
        }
        out
    }

    fn seg_end(&self, k: usize, hi: usize, angles: bool) -> (r: usize)
        requires
            self@.wf(),
            k <= hi <= self.tokens.len(),
        ensures
            r == self@.seg_end(k as int, hi as int, 0, angles),
            k <= r <= hi,
    {
        let mut j: usize = k;
        let mut depth: usize = 0;
        while j < hi
            invariant
                k <= j <= hi,
                hi <= self.tokens.len(),
                depth <= j - k,
                self@.wf(),
                self@.seg_end(j as int, hi as int, depth as nat, angles) == self@.seg_end(
                    k as int,
                    hi as int,
                    0,
                    angles,
                ),
            decreases hi - j,
        {
            if depth == 0 && self.is_punct(j, ',') {
                return j;
            }
            if self.is_open(j, angles) {
                depth += 1;
            } else if self.is_shut(j, angles) {
                if depth > 0 {
                    depth -= 1;
                }
            }
            j += 1;
        }
        j
    }

    /// The items of the list between the brackets `open` and `close`.
    pub fn segments(&self, open: usize, close: usize, angles: bool) -> (r: Vec<Span>)
        requires
            self@.wf(),
            open < close < self.tokens.len(),
        ensures
            r@ == self@.segments(open as int, close as int, angles),
            forall|i: int| 0 <= i < r@.len() ==> open < (#[trigger] r@[i]).lo < r@[i].hi <= close,
    {
        let mut out: Vec<Span> = Vec::new();
        let mut k: usize = open + 1;
        while k < close
            invariant
                open < k <= close,
                close < self.tokens.len(),
                self@.wf(),
                self@.segments_from(k as int, close as int, angles, out@) == self@.segments(
                    open as int,
                    close as int,
                    angles,
                ),
                forall|i: int|
                    0 <= i < out@.len() ==> open < (#[trigger] out@[i]).lo < out@[i].hi <= close,
            decreases close - k,
        {
            let e = self.seg_end(k, close, angles);
            if k < e {
                out.push(Span { lo: k, hi: e });
            }
            k = if e < close {
                e + 1
            } else {
                close
            };
        }
        out
    }

    fn param_of(&self, seg: Span) -> (r: Option<Param>)
        requires
            self@.wf(),
            seg.lo < seg.hi <= self.tokens.len(),
        ensures
            r == self@.param_of(seg),
            r matches Some(p) ==> seg.lo <= p.name && p.name + 2 == p.ty && p.ty < p.end
                && p.end == seg.hi,
    {
        let n: usize = if self.is_mut(seg.lo) {
            seg.lo + 1
        } else {
            seg.lo
        };
        if self.is_ident(n) && self.is_punct(n + 1, ':') && n + 2 < seg.hi {
            Some(Param { name: n, ty: n + 2, end: seg.hi })
        } else {
            None
        }
    }

    /// The parameters of a definition, in order.
    pub fn params(&self, d: &FnDef) -> (r: Vec<Option<Param>>)
        requires
            self@.wf(),
            self@.def_wf(*d),
        ensures
            r@ == self@.params_of(*d),
            forall|i: int|
                0 <= i < r@.len() ==> ((#[trigger] r@[i]) matches Some(p) ==> d.params_open
                    < p.name && p.name + 2 == p.ty && p.ty < p.end <= d.params_close),
    {
        let segs = self.segments(d.params_open, d.params_close, true);
        let mut out: Vec<Option<Param>> = Vec::new();
        let mut i: usize = 0;
        while i < segs.len()
            invariant
                i <= segs.len(),
                out@.len() == i,
                self@.wf(),
                self@.def_wf(*d),
                segs@ == self@.segments(d.params_open as int, d.params_close as int, true),
                forall|j: int|
                    0 <= j < segs@.len() ==> d.params_open < (#[trigger] segs@[j]).lo < segs@[j].hi
                        <= d.params_close,
                forall|j: int| 0 <= j < i ==> (#[trigger] out@[j]) == self@.param_of(segs@[j]),
                forall|j: int|
                    0 <= j < i ==> ((#[trigger] out@[j]) matches Some(p) ==> d.params_open < p.name
                        && p.name + 2 == p.ty && p.ty < p.end <= d.params_close),
            decreases segs.len() - i,
        {
            let p = self.param_of(segs[i]);
            out.push(p);
            i += 1;
        }
        assert(out@ =~= self@.params_of(*d));
        out
    }

    /// Index of the token at which the argument list of a call must open
    /// whose name is token `k`; the number of tokens where type arguments are
    /// not closed.
    pub fn call_open(&self, k: usize) -> (r: usize)
        requires
            self@.wf(),
            k < self.tokens.len(),
        ensures
            k < r <= self.tokens.len(),
            r == self@.call_open(k as int) || (r == self.tokens.len() && self@.call_open(k as int)
                > self.tokens.len()),
    {
        let n = self.tokens.len();
        if self.is_punct(k + 1, ':') && self.is_punct(k + 2, ':') && self.is_punct(k + 3, '<') {
            let c = self.close_of(k + 3, true);
            if c >= n {
                n
            } else {
                c + 1
            }
        } else {
            k + 1
        }
    }

    /// Whether token `k` is the name in a call of the free function `callee`.
    pub fn is_call(&self, k: usize, callee: &Vec<char>) -> (r: bool)
        requires
            self@.wf(),
        ensures
            r == self@.is_call(k as int, callee@),
    {
        if k >= self.tokens.len() {
            return false;
        }
        self.is_word(k, callee) && self.is_punct(self.call_open(k), '(') && !(k > 0 && (
        self.is_punct(k - 1, '.') || self.is_fn(k - 1)))
    }

    /// The calls of `callee` among the tokens `lo..hi`, each by the index of
    /// its name, in the order of the text.
    pub fn calls(&self, lo: usize, hi: usize, callee: &Vec<char>) -> (r: Vec<usize>)
        requires
            self@.wf(),
            lo <= hi <= self.tokens.len(),
        ensures
            r@ == self@.calls(lo as int, hi as int, callee@),
            forall|i: int|
                0 <= i < r@.len() ==> lo <= (#[trigger] r@[i]) < hi && self@.is_call(
                    r@[i] as int,
                    callee@,
                ),
            forall|i: int, j: int| 0 <= i < j < r@.len() ==> r@[i] < r@[j],
            forall|k: int|
                lo <= k < hi && #[trigger] self@.is_call(k, callee@) ==> r@.contains(k as usize),
    {
        let mut out: Vec<usize> = Vec::new();
        let mut k: usize = lo;
        while k < hi
            invariant
                lo <= k <= hi,
                hi <= self.tokens.len(),
                self@.wf(),
                self@.calls_from(k as int, hi as int, callee@, out@) == self@.calls(
                    lo as int,
                    hi as int,
                    callee@,
                ),
                forall|i: int|
                    0 <= i < out@.len() ==> lo <= (#[trigger] out@[i]) < k && self@.is_call(
                        out@[i] as int,
                        callee@,
                    ),
                forall|i: int, j: int| 0 <= i < j < out@.len() ==> out@[i] < out@[j],
                forall|t: int|
                    lo <= t < k && #[trigger] self@.is_call(t, callee@) ==> out@.contains(
                        t as usize,
                    ),
            decreases hi - k,
        {
            let ghost before = out@;
            if self.is_call(k, callee) {
                out.push(k);
                assert(out@[before.len() as int] == k);
            }
            assert forall|t: int| lo <= t < k + 1 && #[trigger] self@.is_call(
                t,
                callee@,
            ) implies out@.contains(t as usize) by {
                if t < k {
                    let i = choose|i: int| 0 <= i < before.len() && before[i] == t as usize;
                    assert(out@[i] == t as usize);
                }
            }
            k += 1;
        }
        out
    }
}

} // verus!
