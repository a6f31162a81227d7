//! What holds of every repair.

use vstd::prelude::*;
use crate::capture::Case;
use crate::classify::PassMode;
use crate::engine::{
    analysis, outcome, planned, resubmitted, rewritten, stable, PlanView, RepairInput, Request,
};
use crate::error::RepairError;
use crate::locate::Located;
use crate::rewrite::{
    inserted, inserted_from, push_opt, rendered, rendered_from, Edit, EditKind,
};
use crate::grammar::well_formed;
use crate::source::{source_of, tokenized, SourceView};
use crate::syntax::Span;

verus! {

/// A repair is a function of its input: two inputs that hold the same texts
/// and names have the same outcome, character for character.
pub proof fn lemma_same_input_same_outcome(a: RepairInput, b: RepairInput)
    requires
        a@ == b@,
    ensures
        outcome(a@) == outcome(b@),
        planned(a@) == planned(b@),
{
}

/// In a repaired program every call of the callee in the caller has exactly
/// one argument for each parameter of the callee, and the program is well
/// formed.
pub proof fn lemma_calls_fit_after_repair(r: Request, t: Seq<char>)
    requires
        outcome(r) == Ok::<Seq<char>, RepairError>(t),
    ensures
        well_formed(t),
        source_of(t).locate(r.caller, r.callee) matches Some(site) && forall|j: int|
            0 <= j < site.calls.len() ==> source_of(t).call_close(
                (#[trigger] site.calls[j]) as int,
            ) < source_of(t).len() && source_of(t).args_of(site.calls[j] as int).len()
                == site.params.len(),
{
    let c = analysis(r).unwrap();
    assert(stable(c, r, t));
    let d = analysis(resubmitted(r, t)).unwrap();
    assert(!d.capture_fails());
    assert(d.site.arity_ok(d.e));
}

/// A captured variable that the evidence names as a mutable receiver is
/// passed by mutable reference, however often it is read and whether or not
/// it is used again.
pub proof fn lemma_evidence_dominates(c: Case, i: int)
    requires
        c.captured(i),
        c.marked(c.site.names[i]),
    ensures
        c.mode(i) == Some(PassMode::MutableRef),
        c.modes()[i] == Some(PassMode::MutableRef),
{
}

proof fn lemma_receivers_keep(
    m: SourceView,
    callee: Seq<char>,
    k: int,
    acc: Seq<Seq<char>>,
    name: Seq<char>,
)
    requires
        acc.contains(name),
    ensures
        m.receivers_from(k, callee, acc).contains(name),
    decreases m.tokens.len() - k,
{
    if 0 <= k < m.tokens.len() {
        let next = if m.concerns(k, callee) {
            acc.push(m.text_of(k))
        } else {
            acc
        };
        let i = choose|i: int| 0 <= i < acc.len() && acc[i] == name;
        assert(next[i] == name);
        lemma_receivers_keep(m, callee, k + 1, next, name);
    }
}

proof fn lemma_receivers_find(m: SourceView, callee: Seq<char>, k: int, acc: Seq<Seq<char>>, t: int)
    requires
        0 <= k <= t < m.tokens.len(),
        m.concerns(t, callee),
    ensures
        m.receivers_from(k, callee, acc).contains(m.text_of(t)),
    decreases t - k,
{
    if k == t {
        let next = acc.push(m.text_of(t));
        assert(next[acc.len() as int] == m.text_of(t));
        lemma_receivers_keep(m, callee, k + 1, next, m.text_of(t));
    } else {
        let next = if m.concerns(k, callee) {
            acc.push(m.text_of(k))
        } else {
            acc
        };
        lemma_receivers_find(m, callee, k + 1, next, t);
    }
}

/// Mutation evidence wins. Where the evidence holds a method call that
/// speaks of the callee and whose receiver is a captured variable, that
/// variable is passed by mutable reference, whatever its reads and later uses
/// would otherwise call for.
pub proof fn lemma_evidence_wins(r: Request, k: int, i: int)
    requires
        analysis(r) matches Ok(c) && c.captured(i) && source_of(r.evidence).text_of(k)
            == c.site.names[i],
        0 <= k < source_of(r.evidence).len(),
        source_of(r.evidence).concerns(k, r.callee),
    ensures
        analysis(r).unwrap().mode(i) == Some(PassMode::MutableRef),
{
    let c = analysis(r).unwrap();
    let m = source_of(r.evidence);
    lemma_receivers_find(m, r.callee, 0, Seq::empty(), k);
    let name = c.site.names[i];
    let j = choose|j: int| 0 <= j < c.marks.len() && c.marks[j] == name;
    assert(c.marked(name));
}

proof fn lemma_plan_follows_evidence(c: Case, i: int, acc: Seq<(Seq<char>, PassMode)>)
    requires
        0 <= i,
        forall|t: int|
            0 <= t < acc.len() && c.marked((#[trigger] acc[t]).0) ==> acc[t].1
                == PassMode::MutableRef,
    ensures
        forall|t: int|
            0 <= t < c.plan_from(i, acc).len() && c.marked((#[trigger] c.plan_from(i, acc)[t]).0)
                ==> c.plan_from(i, acc)[t].1 == PassMode::MutableRef,
    decreases c.site.params.len() - i,
{
    if i < c.site.params.len() {
        let next = match c.mode(i) {
            Some(m) => acc.push((c.site.names[i], m)),
            None => acc,
        };
        assert forall|t: int| 0 <= t < next.len() && c.marked((#[trigger] next[t]).0) implies next[t].1
            == PassMode::MutableRef by {
            if t < acc.len() {
                assert(next[t] == acc[t]);
            }
        }
        lemma_plan_follows_evidence(c, i + 1, next);
    }
}

/// In the plan of a request, every variable that the evidence names as a
/// mutable receiver is passed by mutable reference.
pub proof fn lemma_plan_honours_evidence(r: Request, t: int)
    requires
        analysis(r) is Ok,
        planned(r) matches Ok(p) && 0 <= t < p.entries.len() && analysis(r).unwrap().marked(
            p.entries[t].0,
        ),
    ensures
        planned(r).unwrap().entries[t].1 == PassMode::MutableRef,
{
    let c = analysis(r).unwrap();
    lemma_plan_follows_evidence(c, 0, Seq::empty());
}

proof fn lemma_inserted_nothing(pos: int)
    ensures
        inserted(Seq::<Edit>::empty(), pos) == Seq::<char>::empty(),
{
    assert(inserted_from(Seq::<Edit>::empty(), pos, 0) == Seq::<char>::empty());
}

proof fn lemma_rendered_nothing(text: Seq<char>, i: int)
    requires
        0 <= i <= text.len(),
    ensures
        rendered_from(text, Seq::<Edit>::empty(), i) == text.subrange(i, text.len() as int),
    decreases text.len() - i,
{
    if i >= text.len() {
        lemma_inserted_nothing(text.len() as int);
        assert(text.subrange(i, text.len() as int) =~= Seq::<char>::empty());
    } else {
        lemma_rendered_nothing(text, i + 1);
        lemma_inserted_nothing(i);
        assert(Seq::<char>::empty() + seq![text[i]] + text.subrange(i + 1, text.len() as int)
            =~= text.subrange(i, text.len() as int));
    }
}

/// Without insertions the text comes out as it went in.
pub proof fn lemma_no_edits_same_text(text: Seq<char>)
    ensures
        rendered(text, Seq::<Edit>::empty()) == text,
{
    lemma_rendered_nothing(text, 0);
    assert(text.subrange(0, text.len() as int) =~= text);
}

proof fn lemma_sig_settled(
    e: SourceView,
    site: Located,
    modes: Seq<Option<PassMode>>,
    i: int,
    acc: Seq<Edit>,
)
    requires
        e.settled(site, modes),
        0 <= i,
    ensures
        e.sig_edits_from(site, modes, i, acc) == acc,
    decreases site.params.len() - i,
{
    if i < site.params.len() {
        assert(e.param_edit(site, modes, i) is None);
        lemma_sig_settled(e, site, modes, i + 1, acc);
    }
}

proof fn lemma_args_settled(
    e: SourceView,
    modes: Seq<Option<PassMode>>,
    args: Seq<Span>,
    i: int,
    acc: Seq<Edit>,
)
    requires
        forall|t: int| 0 <= t < args.len() ==> (#[trigger] e.arg_edit(modes, args, t)) is None,
        0 <= i,
    ensures
        e.args_edits_from(modes, args, i, acc) == acc,
    decreases args.len() - i,
{
    if i < args.len() {
        assert(e.arg_edit(modes, args, i) is None);
        lemma_args_settled(e, modes, args, i + 1, acc);
    }
}

proof fn lemma_calls_settled(
    e: SourceView,
    site: Located,
    modes: Seq<Option<PassMode>>,
    j: int,
    acc: Seq<Edit>,
)
    requires
        e.settled(site, modes),
        0 <= j,
    ensures
        e.call_edits_from(site, modes, j, acc) == acc,
    decreases site.calls.len() - j,
{
    if j < site.calls.len() {
        let args = e.args_of(site.calls[j] as int);
        assert forall|t: int| 0 <= t < args.len() implies (#[trigger] e.arg_edit(modes, args, t))
            is None by {
            assert(e.arg_edit(modes, e.args_of(site.calls[j] as int), t) is None);
        }
        lemma_args_settled(e, modes, args, 0, acc);
        lemma_calls_settled(e, site, modes, j + 1, acc);
    }
}

proof fn lemma_deref_settled(
    e: SourceView,
    site: Located,
    modes: Seq<Option<PassMode>>,
    k: int,
    acc: Seq<Edit>,
)
    requires
        e.settled(site, modes),
        site.callee.body_open < k,
    ensures
        e.deref_edits_from(site, modes, k, acc) == acc,
    decreases site.callee.body_close - k,
{
    if k < site.callee.body_close {
        assert(!e.needs_deref(site, modes, k));
        lemma_deref_settled(e, site, modes, k + 1, acc);
    }
}

/// The insertion stands in front of a token, or at the end of the text.
pub open spec fn before_token(e: SourceView, ed: Edit) -> bool {
    exists|k: int| ed.at == #[trigger] e.start_of(k)
}

/// Every insertion of a list stands in front of a token.
pub open spec fn all_before_tokens(e: SourceView, eds: Seq<Edit>) -> bool {
    forall|i: int| 0 <= i < eds.len() ==> before_token(e, #[trigger] eds[i])
}

proof fn lemma_annotation_before_token(e: SourceView, first: int, mode: PassMode)
    ensures
        e.annotation(first, mode) matches Some(ed) ==> before_token(e, ed),
{
    match e.annotation(first, mode) {
        Some(ed) => {
            assert(ed.at == e.start_of(first) || ed.at == e.start_of(first + 1) || ed.at
                == e.start_of(first + 2));
        },
        None => {},
    }
}

proof fn lemma_push_before_token(e: SourceView, acc: Seq<Edit>, x: Option<Edit>)
    requires
        all_before_tokens(e, acc),
        x matches Some(ed) ==> before_token(e, ed),
    ensures
        all_before_tokens(e, push_opt(acc, x)),
{
    let next = push_opt(acc, x);
    assert forall|i: int| 0 <= i < next.len() implies before_token(e, #[trigger] next[i]) by {
        if i < acc.len() {
            assert(next[i] == acc[i]);
        }
    }
}

proof fn lemma_sig_before_tokens(
    e: SourceView,
    site: Located,
    modes: Seq<Option<PassMode>>,
    i: int,
    acc: Seq<Edit>,
)
    requires
        all_before_tokens(e, acc),
        0 <= i,
    ensures
        all_before_tokens(e, e.sig_edits_from(site, modes, i, acc)),
    decreases site.params.len() - i,
{
    if i < site.params.len() {
        if i < modes.len() {
            match (site.params[i], modes[i]) {
                (Some(p), Some(m)) => {
                    lemma_annotation_before_token(e, p.ty as int, m);
                },
                _ => {},
            }
        }
        lemma_push_before_token(e, acc, e.param_edit(site, modes, i));
        lemma_sig_before_tokens(e, site, modes, i + 1, push_opt(acc, e.param_edit(site, modes, i)));
    }
}

proof fn lemma_args_before_tokens(
    e: SourceView,
    modes: Seq<Option<PassMode>>,
    args: Seq<Span>,
    i: int,
    acc: Seq<Edit>,
)
    requires
        all_before_tokens(e, acc),
        0 <= i,
    ensures
        all_before_tokens(e, e.args_edits_from(modes, args, i, acc)),
    decreases args.len() - i,
{
    if i < args.len() {
        if i < modes.len() {
            match modes[i] {
                Some(m) => {
                    lemma_annotation_before_token(e, args[i].lo as int, m);
                },
                None => {},
            }
        }
        lemma_push_before_token(e, acc, e.arg_edit(modes, args, i));
        lemma_args_before_tokens(e, modes, args, i + 1, push_opt(acc, e.arg_edit(modes, args, i)));
    }
}

proof fn lemma_calls_before_tokens(
    e: SourceView,
    site: Located,
    modes: Seq<Option<PassMode>>,
    j: int,
    acc: Seq<Edit>,
)
    requires
        all_before_tokens(e, acc),
        0 <= j,
    ensures
        all_before_tokens(e, e.call_edits_from(site, modes, j, acc)),
    decreases site.calls.len() - j,
{
    if j < site.calls.len() {
        let args = e.args_of(site.calls[j] as int);
        lemma_args_before_tokens(e, modes, args, 0, acc);
        lemma_calls_before_tokens(e, site, modes, j + 1, e.args_edits_from(modes, args, 0, acc));
    }
}

proof fn lemma_deref_before_tokens(
    e: SourceView,
    site: Located,
    modes: Seq<Option<PassMode>>,
    k: int,
    acc: Seq<Edit>,
)
    requires
        all_before_tokens(e, acc),
    ensures
        all_before_tokens(e, e.deref_edits_from(site, modes, k, acc)),
    decreases site.callee.body_close - k,
{
    if k < site.callee.body_close {
        let x = if e.needs_deref(site, modes, k) {
            Some(Edit { at: e.start_of(k), kind: EditKind::Deref })
        } else {
            None
        };
        lemma_push_before_token(e, acc, x);
        lemma_deref_before_tokens(e, site, modes, k + 1, push_opt(acc, x));
    }
}

/// The rewriter changes no token: each of its insertions stands in front of
/// a token of the extracted program (or at the end of the text), never inside
/// one, and everything else is written out as it was read.
pub proof fn lemma_edits_stand_before_tokens(
    e: SourceView,
    site: Located,
    modes: Seq<Option<PassMode>>,
)
    ensures
        all_before_tokens(e, e.edits(site, modes)),
{
    let none = Seq::<Edit>::empty();
    lemma_sig_before_tokens(e, site, modes, 0, none);
    let sig = e.sig_edits_from(site, modes, 0, none);
    lemma_calls_before_tokens(e, site, modes, 0, sig);
    let calls = e.call_edits_from(site, modes, 0, sig);
    lemma_deref_before_tokens(e, site, modes, site.callee.body_open + 1, calls);
}

/// A program that carries every annotation needs no insertion.
pub proof fn lemma_settled_needs_no_edits(e: SourceView, site: Located, modes: Seq<Option<PassMode>>)
    requires
        e.settled(site, modes),
    ensures
        e.edits(site, modes) == Seq::<Edit>::empty(),
{
    let none = Seq::<Edit>::empty();
    lemma_sig_settled(e, site, modes, 0, none);
    lemma_calls_settled(e, site, modes, 0, none);
    lemma_deref_settled(e, site, modes, site.callee.body_open + 1, none);
}

/// Where every variable is passed by value, or is not captured, the program
/// carries every annotation: such parameters and arguments are left as they
/// are written.
pub proof fn lemma_values_are_settled(e: SourceView, site: Located, modes: Seq<Option<PassMode>>)
    requires
        forall|i: int|
            0 <= i < modes.len() ==> (#[trigger] modes[i]) is None || modes[i] == Some(
                PassMode::Value,
            ),
    ensures
        e.settled(site, modes),
{
    assert forall|k: int| site.callee.body_open < k < site.callee.body_close implies !#[trigger]
    e.needs_deref(site, modes, k) by {
        assert forall|i: int| 0 <= i < modes.len() implies modes[i] != Some(
            PassMode::MutableRef,
        ) by {
            assert(modes[i] is None || modes[i] == Some(PassMode::Value));
        }
    }
}

proof fn lemma_same_plan(c: Case, d: Case, i: int, acc: Seq<(Seq<char>, PassMode)>)
    requires
        c.modes() == d.modes(),
        c.site.names == d.site.names,
        0 <= i,
    ensures
        c.plan_from(i, acc) == d.plan_from(i, acc),
    decreases c.site.params.len() - i,
{
    assert(c.modes().len() == c.site.params.len());
    assert(d.modes().len() == d.site.params.len());
    if i < c.site.params.len() {
        assert(c.mode(i) == c.modes()[i]);
        assert(d.mode(i) == d.modes()[i]);
        let next = match c.mode(i) {
            Some(m) => acc.push((c.site.names[i], m)),
            None => acc,
        };
        lemma_same_plan(c, d, i + 1, next);
    }
}

/// A repair does not oscillate. When the repaired program is handed in again
/// as the extracted program, with everything else as before, the second repair
/// chooses the same passing mode for the same variables and returns the
/// program as it is.
pub proof fn lemma_repair_is_idempotent(r: Request, t: Seq<char>)
    requires
        outcome(r) == Ok::<Seq<char>, RepairError>(t),
    ensures
        outcome(resubmitted(r, t)) == Ok::<Seq<char>, RepairError>(t),
        planned(resubmitted(r, t)) == planned(r),
{
    let c = analysis(r).unwrap();
    assert(stable(c, r, t));
    let again = resubmitted(r, t);
    let d = analysis(again).unwrap();
    assert(d.e.text == t);
    assert(d.e.edits(d.site, d.modes()) =~= Seq::<Edit>::empty());
    lemma_no_edits_same_text(t);
    assert(rewritten(d) == t);
    assert(resubmitted(again, t) == again);
    assert(stable(d, again, t));
    lemma_same_plan(d, c, 0, Seq::empty());
}

/// A program that already carries the annotations of the plan that is
/// computed for it is returned unchanged.
pub proof fn lemma_settled_is_kept(r: Request)
    requires
        analysis(r) matches Ok(c) && c.e.settled(c.site, c.modes()),
    ensures
        outcome(r) == Ok::<Seq<char>, RepairError>(r.extracted),
{
    let c = analysis(r).unwrap();
    lemma_settled_needs_no_edits(c.e, c.site, c.modes());
    lemma_no_edits_same_text(r.extracted);
    assert(c.e.text == r.extracted);
    assert(rewritten(c) == r.extracted);
    assert(resubmitted(r, r.extracted) == r);
    assert(stable(c, r, r.extracted));
}

/// A well-formed program that holds any token starts with an attribute or
/// with a name or keyword, and every token in it is in its place.
pub proof fn lemma_program_is_placed(s: Seq<char>)
    requires
        well_formed(s),
        source_of(s).len() > 0,
    ensures
        source_of(s).is_punct(0, '#') || source_of(s).is_ident(0),
        forall|j: int| 0 <= j < source_of(s).len() ==> #[trigger] source_of(s).placed(j),
{
    let v = source_of(s);
    assert(v.items_from(0));
    if !v.is_punct(0, '#') {
        assert(v.attrs_end(0) == Some(0int));
        assert(v.item_end(0) is Some);
    }
}

/// A text whose last token stands behind the last item is no program: where
/// the items end before the tokens do, what follows must itself be an item.
pub proof fn lemma_stray_token_is_refused(s: Seq<char>, k: int)
    requires
        tokenized(s),
        0 <= k < source_of(s).len(),
        source_of(s).items_from(0) == source_of(s).items_from(k),
        !source_of(s).is_punct(k, '#'),
        !source_of(s).is_ident(k),
    ensures
        !well_formed(s),
{
    let v = source_of(s);
    assert(v.attrs_end(k) == Some(k));
    assert(v.item_end(k) is None);
    assert(!v.items_from(k));
}

/// A request whose extracted or original program is not well formed fails
/// with a parse error; no text comes back.
pub proof fn lemma_malformed_input_fails(r: Request)
    requires
        !well_formed(r.extracted) || !well_formed(r.original),
    ensures
        outcome(r) == Err::<Seq<char>, RepairError>(RepairError::ParseError),
        planned(r) == Err::<PlanView, RepairError>(RepairError::ParseError),
{
}

} // verus!
