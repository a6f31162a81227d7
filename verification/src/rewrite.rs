//! Turning the chosen passing modes into insertions, and the insertions into
//! text.
//!
//! The rewriter never deletes or reorders anything. Its whole effect is a list
//! of small insertions (`&`, `&mut `, `mut `, `*`), each in front of one token
//! of the extracted program; all other characters come out as they went in.

use vstd::prelude::*;
use crate::classify::PassMode;
use crate::locate::{Located, Site};
use crate::source::{word_mut, Source, SourceView};
use crate::syntax::Span;

verus! {

/// What an insertion writes.
#[derive(Clone, Copy, Debug, PartialEq, Eq, Structural)]
pub enum EditKind {
    /// `&`
    Ref,
    /// `&mut `
    RefMut,
    /// `mut `, after an `&` that is already there
    Mut,
    /// `*`
    Deref,
}

/// One insertion: what is written, and in front of which character of the
/// text.
#[derive(Clone, Copy, Debug, PartialEq, Eq, Structural)]
pub struct Edit {
    pub at: usize,
    pub kind: EditKind,
}

/// The characters that an insertion writes.
pub open spec fn edit_text(kind: EditKind) -> Seq<char> {
    match kind {
        EditKind::Ref => seq!['&'],
        EditKind::RefMut => seq!['&', 'm', 'u', 't', ' '],
        EditKind::Mut => seq!['m', 'u', 't', ' '],
        EditKind::Deref => seq!['*'],
    }
}

/// `acc` with `x` appended, if there is an `x`.
pub open spec fn push_opt(acc: Seq<Edit>, x: Option<Edit>) -> Seq<Edit> {
    match x {
        Some(e) => acc.push(e),
        None => acc,
    }
}

impl SourceView {
    /// Where token `k` starts in the text; the end of the text if there is no
    /// such token.
    pub open spec fn start_of(self, k: int) -> usize {
        if 0 <= k < self.tokens.len() {
            self.tokens[k].start
        } else {
            self.text.len() as usize
        }
    }

    /// The insertion that makes the type or the argument whose first token is
    /// `first` carry the annotation of `mode`; `None` where it carries it
    /// already. A value needs none. A shared reference needs a leading `&`. A
    /// mutable reference needs `&mut`: all of it, or only the `mut` where the
    /// `&` (and a lifetime) is there.
    pub open spec fn annotation(self, first: int, mode: PassMode) -> Option<Edit> {
        let has_ref = self.is_punct(first, '&');
        let m = if self.is_lifetime(first + 1) {
            first + 2
        } else {
            first + 1
        };
        let has_mut = has_ref && self.is_word(m, word_mut());
        match mode {
            PassMode::Value => None,
            PassMode::ImmutableRef => if has_ref {
                None
            } else {
                Some(Edit { at: self.start_of(first), kind: EditKind::Ref })
            },
            PassMode::MutableRef => if has_mut {
                None
            } else if has_ref {
                Some(Edit { at: self.start_of(m), kind: EditKind::Mut })
            } else {
                Some(Edit { at: self.start_of(first), kind: EditKind::RefMut })
            },
        }
    }

    /// The insertion that parameter `i` of the signature needs.
    pub open spec fn param_edit(self, site: Located, modes: Seq<Option<PassMode>>, i: int) -> Option<
        Edit,
    > {
        if 0 <= i < site.params.len() && i < modes.len() {
            match (site.params[i], modes[i]) {
                (Some(p), Some(m)) => self.annotation(p.ty as int, m),
                _ => None,
            }
        } else {
            None
        }
    }

    /// The insertions for the signature, from parameter `i` on, appended to
    /// `acc`.
    pub open spec fn sig_edits_from(
        self,
        site: Located,
        modes: Seq<Option<PassMode>>,
        i: int,
        acc: Seq<Edit>,
    ) -> Seq<Edit>
        decreases site.params.len() - i,
    {
        if i < 0 || i >= site.params.len() {
            acc
        } else {
            self.sig_edits_from(site, modes, i + 1, push_opt(acc, self.param_edit(site, modes, i)))
        }
    }

    /// The insertion that argument `i` of a call needs.
    pub open spec fn arg_edit(self, modes: Seq<Option<PassMode>>, args: Seq<Span>, i: int) -> Option<
        Edit,
    > {
        if 0 <= i < args.len() && i < modes.len() {
            match modes[i] {
                Some(m) => self.annotation(args[i].lo as int, m),
                None => None,
            }
        } else {
            None
        }
    }

    /// The insertions for the arguments of one call, from argument `i` on,
    /// appended to `acc`.
    pub open spec fn args_edits_from(
        self,
        modes: Seq<Option<PassMode>>,
        args: Seq<Span>,
        i: int,
        acc: Seq<Edit>,
    ) -> Seq<Edit>
        decreases args.len() - i,
    {
        if i < 0 || i >= args.len() {
            acc
        } else {
            self.args_edits_from(modes, args, i + 1, push_opt(acc, self.arg_edit(modes, args, i)))
        }
    }

    /// The insertions for the calls, from call `j` on, appended to `acc`.
    pub open spec fn call_edits_from(
        self,
        site: Located,
        modes: Seq<Option<PassMode>>,
        j: int,
        acc: Seq<Edit>,
    ) -> Seq<Edit>
        decreases site.calls.len() - j,
    {
        if j < 0 || j >= site.calls.len() {
            acc
        } else {
            self.call_edits_from(
                site,
                modes,
                j + 1,
                self.args_edits_from(modes, self.args_of(site.calls[j] as int), 0, acc),
            )
        }
    }

    /// Token `k` must be dereferenced: it is the target of a direct
    /// assignment to a parameter that is passed by mutable reference, and no
    /// `*` stands before it.
    pub open spec fn needs_deref(self, site: Located, modes: Seq<Option<PassMode>>, k: int) -> bool {
        !self.is_punct(k - 1, '*') && exists|i: int|
            0 <= i < site.names.len() && i < modes.len() && modes[i] == Some(PassMode::MutableRef)
                && self.is_assign(k, #[trigger] site.names[i])
    }

    /// The insertions for the callee's body, from token `k` on, appended to
    /// `acc`.
    pub open spec fn deref_edits_from(
        self,
        site: Located,
        modes: Seq<Option<PassMode>>,
        k: int,
        acc: Seq<Edit>,
    ) -> Seq<Edit>
        decreases site.callee.body_close - k,
    {
        if k >= site.callee.body_close {
            acc
        } else {
            self.deref_edits_from(
                site,
                modes,
                k + 1,
                if self.needs_deref(site, modes, k) {
                    acc.push(Edit { at: self.start_of(k), kind: EditKind::Deref })
                } else {
                    acc
                },
            )
        }
    }

    /// The program carries every annotation that the passing modes call for:
    /// no parameter, no argument and no assignment needs an insertion.
    pub open spec fn settled(self, site: Located, modes: Seq<Option<PassMode>>) -> bool {
        &&& forall|i: int|
            0 <= i < site.params.len() ==> (#[trigger] self.param_edit(site, modes, i)) is None
        &&& forall|j: int, i: int|
            0 <= j < site.calls.len() && 0 <= i < self.args_of(site.calls[j] as int).len() ==> (
            #[trigger] self.arg_edit(modes, self.args_of(site.calls[j] as int), i)) is None
        &&& forall|k: int|
            site.callee.body_open < k < site.callee.body_close ==> !#[trigger] self.needs_deref(
                site,
                modes,
                k,
            )
    }

    /// All insertions that the passing modes call for: in the callee's
    /// signature, then in the arguments of each call, then in the callee's
    /// body.
    pub open spec fn edits(self, site: Located, modes: Seq<Option<PassMode>>) -> Seq<Edit> {
        self.deref_edits_from(
            site,
            modes,
            site.callee.body_open + 1,
            self.call_edits_from(site, modes, 0, self.sig_edits_from(site, modes, 0, Seq::empty())),
        )
    }
}

/// What the insertions from number `j` on write in front of position `pos`.
pub open spec fn inserted_from(edits: Seq<Edit>, pos: int, j: int) -> Seq<char>
    decreases edits.len() - j,
{
    if j < 0 || j >= edits.len() {
        Seq::empty()
    } else {
        (if edits[j].at == pos {
            edit_text(edits[j].kind)
        } else {
            Seq::empty()
        }) + inserted_from(edits, pos, j + 1)
    }
}

/// What the insertions write in front of position `pos`, in their order.
pub open spec fn inserted(edits: Seq<Edit>, pos: int) -> Seq<char> {
    inserted_from(edits, pos, 0)
}

/// The text from position `i` on with the insertions made.
pub open spec fn rendered_from(text: Seq<char>, edits: Seq<Edit>, i: int) -> Seq<char>
    decreases text.len() - i,
{
    if i < 0 || i >= text.len() {
        inserted(edits, text.len() as int)
    } else {
        inserted(edits, i) + seq![text[i]] + rendered_from(text, edits, i + 1)
    }
}

/// The text with the insertions made: every character of the text, in order,
/// each preceded by what is inserted in front of it.
pub open spec fn rendered(text: Seq<char>, edits: Seq<Edit>) -> Seq<char> {
    rendered_from(text, edits, 0)
}

fn push_edit(out: &mut Vec<char>, kind: EditKind)
    ensures
        final(out)@ == old(out)@ + edit_text(kind),
{
    match kind {
        EditKind::Ref => {
            out.push('&');
        },
        EditKind::RefMut => {
            out.push('&');
            out.push('m');
            out.push('u');
            out.push('t');
            out.push(' ');
        },
        EditKind::Mut => {
            out.push('m');
            out.push('u');
            out.push('t');
            out.push(' ');
        },
        EditKind::Deref => {
            out.push('*');
        },
    }
    assert(out@ =~= old(out)@ + edit_text(kind));
}

fn insert_at(out: &mut Vec<char>, edits: &Vec<Edit>, pos: usize)
    ensures
        final(out)@ == old(out)@ + inserted(edits@, pos as int),
{
    let mut j: usize = 0;
    assert(out@ + inserted_from(edits@, pos as int, 0) == old(out)@ + inserted(
        edits@,
        pos as int,
    ));
    while j < edits.len()
        invariant
            j <= edits.len(),
            out@ + inserted_from(edits@, pos as int, j as int) == old(out)@ + inserted(
                edits@,
                pos as int,
            ),
        decreases edits.len() - j,
    {
        let ghost before = out@;
        let ghost rest = inserted_from(edits@, pos as int, j + 1);
        if edits[j].at == pos {
            push_edit(out, edits[j].kind);
            assert((before + edit_text(edits@[j as int].kind)) + rest =~= before + (edit_text(
                edits@[j as int].kind,
            ) + rest));
        } else {
            assert(before + (Seq::<char>::empty() + rest) =~= before + rest);
        }
        j += 1;
    }
    assert(out@ + Seq::<char>::empty() =~= out@);
}

/// Writes out `text` with the insertions made.
pub fn render(text: &Vec<char>, edits: &Vec<Edit>) -> (out: Vec<char>)
    ensures
        out@ == rendered(text@, edits@),
{
    let mut out: Vec<char> = Vec::new();
    let mut i: usize = 0;
    assert(out@ + rendered_from(text@, edits@, 0) =~= rendered(text@, edits@));
    while i < text.len()
        invariant
            i <= text.len(),
            out@ + rendered_from(text@, edits@, i as int) == rendered(text@, edits@),
        decreases text.len() - i,
    {
        let ghost before = out@;
        let ghost ins = inserted(edits@, i as int);
        let ghost rest = rendered_from(text@, edits@, i + 1);
        insert_at(&mut out, edits, i);
        out.push(text[i]);
        assert(out@ + rest =~= before + (ins + seq![text@[i as int]] + rest));
        i += 1;
    }
    insert_at(&mut out, edits, i);
    out
}

impl Source {
    fn start_of(&self, k: usize) -> (r: usize)
        ensures
            r == self@.start_of(k as int),
    {
        if k < self.tokens.len() {
            self.tokens[k].start
        } else {
            self.text.len()
        }
    }

    fn annotation(&self, first: usize, mode: PassMode) -> (r: Option<Edit>)
        requires
            self@.wf(),
            first + 1 < self.tokens.len(),
        ensures
            r == self@.annotation(first as int, mode),
    {
        let has_ref = self.is_punct(first, '&');
        let m: usize = if self.is_lifetime(first + 1) {
            first + 2
        } else {
            first + 1
        };
        let has_mut = has_ref && self.is_mut(m);
        match mode {
            PassMode::Value => None,
            PassMode::ImmutableRef => if has_ref {
                None
            } else {
                Some(Edit { at: self.start_of(first), kind: EditKind::Ref })
            },
            PassMode::MutableRef => if has_mut {
                None
            } else if has_ref {
                Some(Edit { at: self.start_of(m), kind: EditKind::Mut })
            } else {
                Some(Edit { at: self.start_of(first), kind: EditKind::RefMut })
            },
        }
    }

    fn needs_deref(&self, site: &Site, modes: &Vec<Option<PassMode>>, k: usize) -> (r: bool)
        requires
            site@.wf(self@),
            modes@.len() == site@.params.len(),
        ensures
            r == self@.needs_deref(site@, modes@, k as int),
    {
        if k > 0 && self.is_punct(k - 1, '*') {
            return false;
        }
        assert(site@.names.len() == site.names@.len());
        assert(self@.names_of(site@.params).len() == site.params@.len());
        let mut i: usize = 0;
        while i < modes.len()
            invariant
                i <= modes.len(),
                site@.wf(self@),
                modes@.len() == site.names@.len(),
                site@.names.len() == site.names@.len(),
                !self@.is_punct(k - 1, '*'),
                forall|t: int|
                    0 <= t < i ==> !(modes@[t] == Some(PassMode::MutableRef) && self@.is_assign(
                        k as int,
                        #[trigger] site@.names[t],
                    )),
            decreases modes.len() - i,
        {
            assert(site@.names[i as int] == site.names@[i as int]@);
            let is_mut = match modes[i] {
                Some(PassMode::MutableRef) => true,
                _ => false,
            };
            if is_mut && self.is_assign(k, &site.names[i]) {
                assert(modes@[i as int] == Some(PassMode::MutableRef));
                assert(self@.is_assign(k as int, site@.names[i as int]));
                return true;
            }
            i += 1;
        }
        false
    }

    /// All insertions that the passing modes call for.
    pub fn edits(&self, site: &Site, modes: &Vec<Option<PassMode>>) -> (r: Vec<Edit>)
        requires
            site@.wf(self@),
            site@.arity_ok(self@),
            modes@.len() == site@.params.len(),
        ensures
            r@ == self@.edits(site@, modes@),
    {
        let mut out: Vec<Edit> = Vec::new();
        let mut i: usize = 0;
        while i < site.params.len()
            invariant
                i <= site.params.len(),
                site@.wf(self@),
                modes@.len() == site@.params.len(),
                self@.sig_edits_from(site@, modes@, i as int, out@) == self@.sig_edits_from(
                    site@,
                    modes@,
                    0,
                    Seq::empty(),
                ),
            decreases site.params.len() - i,
        {
            assert(site@.params[i as int] == site.params@[i as int]);
            match (site.params[i], modes[i]) {
                (Some(p), Some(m)) => {
                    match self.annotation(p.ty, m) {
                        Some(ed) => {
                            out.push(ed);
                        },
                        None => {},
                    }
                },
                _ => {},
            }
            i += 1;
        }
        let ghost after_sig = out@;
        let mut j: usize = 0;
        while j < site.calls.len()
            invariant
                j <= site.calls.len(),
                site@.wf(self@),
                site@.arity_ok(self@),
                modes@.len() == site@.params.len(),
                self@.call_edits_from(site@, modes@, j as int, out@) == self@.call_edits_from(
                    site@,
                    modes@,
                    0,
                    after_sig,
                ),
            decreases site.calls.len() - j,
        {
            let c = site.calls[j];
            assert(c == site@.calls[j as int]);
            assert(self@.call_fits(c as int, site@.params.len()));
            let open = self.call_open(c);
            let close = self.close_of(open, false);
            let args = self.segments(open, close, false);
            let ghost before = out@;
            let mut a: usize = 0;
            while a < args.len()
                invariant
                    a <= args.len(),
                    self@.wf(),
                    close < self.tokens.len(),
                    forall|t: int|
                        0 <= t < args@.len() ==> open < (#[trigger] args@[t]).lo < args@[t].hi
                            <= close,
                    self@.args_edits_from(modes@, args@, a as int, out@) == self@.args_edits_from(
                        modes@,
                        args@,
                        0,
                        before,
                    ),
                decreases args.len() - a,
            {
                if a < modes.len() {
                    match modes[a] {
                        Some(m) => {
                            match self.annotation(args[a].lo, m) {
                                Some(ed) => {
                                    out.push(ed);
                                },
                                None => {},
                            }
                        },
                        None => {},
                    }
                }
                a += 1;
            }
            j += 1;
        }
        let ghost after_calls = out@;
        let mut k: usize = site.callee.body_open + 1;
        while k < site.callee.body_close
            invariant
                site.callee.body_open < k <= site.callee.body_close,
                site@.wf(self@),
                modes@.len() == site@.params.len(),
                self@.deref_edits_from(site@, modes@, k as int, out@) == self@.deref_edits_from(
                    site@,
                    modes@,
                    site@.callee.body_open + 1,
                    after_calls,
                ),
            decreases site.callee.body_close - k,
        {
            if self.needs_deref(site, modes, k) {
                out.push(Edit { at: self.start_of(k), kind: EditKind::Deref });
            }
            k += 1;
        }
        out
    }
}

} // verus!
