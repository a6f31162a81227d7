//! The repair itself: from the three texts and the two names to the repaired
//! program, or to the one reason why there is none.

use vstd::prelude::*;
use crate::capture::{body_of, Analysis, Case};
use crate::classify::PassMode;
use crate::error::{BorrowerError, RepairError};
use crate::rewrite::{render, rendered};
use crate::grammar::{parse, well_formed};
use crate::source::{source_of, tokenize, tokenized};
use crate::syntax::Span;
use crate::text::{chars_of, same_text, string_of, views};

verus! {

/// What a repair is given.
pub struct RepairInput {
    /// The program after the extraction, with caller and callee.
    pub extracted_code: String,
    /// The program before the extraction, with the caller only.
    pub original_code: String,
    /// Method calls that are known to need a mutable receiver.
    pub mutable_call_evidence: String,
    /// The function that the piece was taken out of.
    pub caller_name: String,
    /// The function that the piece was made into.
    pub callee_name: String,
}

/// The mathematical content of a [`RepairInput`].
pub struct Request {
    pub extracted: Seq<char>,
    pub original: Seq<char>,
    pub evidence: Seq<char>,
    pub caller: Seq<char>,
    pub callee: Seq<char>,
}

impl View for RepairInput {
    type V = Request;

    open spec fn view(&self) -> Request {
        Request {
            extracted: self.extracted_code@,
            original: self.original_code@,
            evidence: self.mutable_call_evidence@,
            caller: self.caller_name@,
            callee: self.callee_name@,
        }
    }
}

/// One line of a plan: a captured variable and how it is passed.
pub struct PlanEntry {
    pub name: String,
    pub mode: PassMode,
}

/// The passing mode of each captured variable, in the order of the callee's
/// signature, and the number of calls of the callee found in the caller (a
/// plan with no call is still a plan: the signature is repaired all the same).
pub struct BorrowPlan {
    pub entries: Vec<PlanEntry>,
    pub call_sites: usize,
}

/// The mathematical content of a [`BorrowPlan`].
pub struct PlanView {
    pub entries: Seq<(Seq<char>, PassMode)>,
    pub call_sites: nat,
}

impl View for BorrowPlan {
    type V = PlanView;

    open spec fn view(&self) -> PlanView {
        PlanView {
            entries: Seq::new(
                self.entries@.len(),
                |i: int| (self.entries@[i].name@, self.entries@[i].mode),
            ),
            call_sites: self.call_sites as nat,
        }
    }
}

/// The mode of the first line of `plan`, from line `i` on, that speaks of
/// `name`.
pub open spec fn lookup(plan: Seq<(Seq<char>, PassMode)>, name: Seq<char>, i: int) -> Option<
    PassMode,
>
    decreases plan.len() - i,
{
    if i < 0 || i >= plan.len() {
        None
    } else if plan[i].0 == name {
        Some(plan[i].1)
    } else {
        lookup(plan, name, i + 1)
    }
}

impl Case {
    /// The lines of the plan for the parameters from `i` on, appended to
    /// `acc`: one for each captured parameter.
    pub open spec fn plan_from(self, i: int, acc: Seq<(Seq<char>, PassMode)>) -> Seq<
        (Seq<char>, PassMode),
    >
        decreases self.site.params.len() - i,
    {
        if i < 0 || i >= self.site.params.len() {
            acc
        } else {
            self.plan_from(
                i + 1,
                match self.mode(i) {
                    Some(m) => acc.push((self.site.names[i], m)),
                    None => acc,
                },
            )
        }
    }

    /// The plan: each captured parameter with its passing mode, and the
    /// number of calls.
    pub open spec fn plan(self) -> PlanView {
        PlanView { entries: self.plan_from(0, Seq::empty()), call_sites: self.site.calls.len() }
    }
}

/// What the stages before the rewriting make of a request: the case to
/// rewrite, or the failure of the first stage that fails. The three texts are
/// read first (the two programs against the grammar, the evidence as tokens
/// with matching brackets), then caller and callee are found, then parameters
/// are matched, then the evidence is held against them.
pub open spec fn analysis(r: Request) -> Result<Case, RepairError> {
    if !well_formed(r.extracted) || !well_formed(r.original) || !tokenized(r.evidence) {
        Err(RepairError::ParseError)
    } else {
        let e = source_of(r.extracted);
        let o = source_of(r.original);
        match e.locate(r.caller, r.callee) {
            None => Err(RepairError::FunctionNotFound),
            Some(site) => {
                let c = Case {
                    e: e,
                    o: o,
                    site: site,
                    body: body_of(o.find_fn(r.caller)),
                    marks: source_of(r.evidence).receivers(r.callee),
                };
                if c.capture_fails() {
                    Err(RepairError::CaptureMismatch)
                } else if c.inconsistent() {
                    Err(RepairError::InconsistentMutabilityEvidence)
                } else {
                    Ok(c)
                }
            },
        }
    }
}

/// The request that hands in `t` as the extracted program and leaves the
/// rest of `r` as it is.
pub open spec fn resubmitted(r: Request, t: Seq<char>) -> Request {
    Request {
        extracted: t,
        original: r.original,
        evidence: r.evidence,
        caller: r.caller,
        callee: r.callee,
    }
}

/// The text `t` is a sound result for the case `c` of the request `r`: handed
/// in again as the extracted program it passes every stage, leads to the same
/// captured variables, the same passing modes and as many calls, and needs no
/// insertion any more.
pub open spec fn stable(c: Case, r: Request, t: Seq<char>) -> bool {
    analysis(resubmitted(r, t)) matches Ok(d) && d.site.names == c.site.names && d.modes()
        == c.modes() && d.site.calls.len() == c.site.calls.len() && d.e.edits(
        d.site,
        d.modes(),
    ).len() == 0
}

/// The text that a case is rewritten to.
pub open spec fn rewritten(c: Case) -> Seq<char> {
    rendered(c.e.text, c.e.edits(c.site, c.modes()))
}

/// What a repair returns for a request: the failure of the first stage that
/// fails; else the rewritten text, if it is a sound result; else a render
/// error.
pub open spec fn outcome(r: Request) -> Result<Seq<char>, RepairError> {
    match analysis(r) {
        Err(err) => Err(err),
        Ok(c) => if stable(c, r, rewritten(c)) {
            Ok(rewritten(c))
        } else {
            Err(RepairError::RenderError)
        },
    }
}

/// The plan that a request leads to.
pub open spec fn planned(r: Request) -> Result<PlanView, RepairError> {
    match analysis(r) {
        Err(err) => Err(err),
        Ok(c) => Ok(c.plan()),
    }
}

fn analyse(input: &RepairInput) -> (r: Result<(Analysis, Vec<Option<PassMode>>), RepairError>)
    ensures
        match r {
            Ok((a, modes)) => analysis(input@) == Ok::<Case, RepairError>(a@) && a@.wf()
                && modes@ == a@.modes(),
            Err(err) => analysis(input@) == Err::<Case, RepairError>(err),
        },
{
    let caller = chars_of(input.caller_name.as_str());
    let callee = chars_of(input.callee_name.as_str());
    let e = match parse(chars_of(input.extracted_code.as_str())) {
        Some(src) => src,
        None => {
            return Err(RepairError::ParseError);
        },
    };
    let o = match parse(chars_of(input.original_code.as_str())) {
        Some(src) => src,
        None => {
            return Err(RepairError::ParseError);
        },
    };
    let m = match tokenize(chars_of(input.mutable_call_evidence.as_str())) {
        Some(src) => src,
        None => {
            return Err(RepairError::ParseError);
        },
    };
    let site = match e.locate(&caller, &callee) {
        Some(site) => site,
        None => {
            return Err(RepairError::FunctionNotFound);
        },
    };
    let body = match o.find_fn(&caller) {
        Some(d) => Span { lo: d.body_open + 1, hi: d.body_close },
        None => Span { lo: 0, hi: 0 },
    };
    let marks = m.receivers(&callee);
    let a = Analysis { e, o, site, body, marks };
    if a.capture_fails() {
        return Err(RepairError::CaptureMismatch);
    }
    let frag = a.fragment();
    let modes = a.modes(frag);
    if a.inconsistent(&modes) {
        return Err(RepairError::InconsistentMutabilityEvidence);
    }
    Ok((a, modes))
}

fn same_modes(a: &Vec<Option<PassMode>>, b: &Vec<Option<PassMode>>) -> (r: bool)
    ensures
        r == (a@ == b@),
{
    if a.len() != b.len() {
        return false;
    }
    let mut i: usize = 0;
    while i < a.len()
        invariant
            i <= a.len(),
            a@.len() == b@.len(),
            forall|j: int| 0 <= j < i ==> a@[j] == b@[j],
        decreases a.len() - i,
    {
        let same = match (a[i], b[i]) {
            (Some(x), Some(y)) => x == y,
            (None, None) => true,
            _ => false,
        };
        if !same {
            return false;
        }
        i += 1;
    }
    assert(a@ =~= b@);
    true
}

fn same_names(a: &Vec<Vec<char>>, b: &Vec<Vec<char>>) -> (r: bool)
    ensures
        r == (views(a@) == views(b@)),
{
    if a.len() != b.len() {
        assert(views(a@).len() != views(b@).len());
        return false;
    }
    let mut i: usize = 0;
    while i < a.len()
        invariant
            i <= a.len(),
            a@.len() == b@.len(),
            forall|j: int| 0 <= j < i ==> a@[j]@ == b@[j]@,
        decreases a.len() - i,
    {
        if !same_text(&a[i], &b[i]) {
            assert(views(a@)[i as int] != views(b@)[i as int]);
            return false;
        }
        i += 1;
    }
    assert(views(a@) =~= views(b@));
    true
}

/// Repairs the extracted program: chooses how each captured variable is
/// passed and rewrites the callee's signature, its body and the calls in the
/// caller to match. The rewritten program is then handed in once more; it is
/// returned only if it proves to be a sound result. Returns the whole repaired
/// program, or the failure of the first stage that failed; never a part of a
/// text.
pub fn repair(input: &RepairInput) -> (r: Result<String, RepairError>)
    ensures
        match r {
            Ok(s) => outcome(input@) == Ok::<Seq<char>, RepairError>(s@),
            Err(err) => outcome(input@) == Err::<Seq<char>, RepairError>(err),
        },
{
    let (a, modes) = match analyse(input) {
        Ok(x) => x,
        Err(err) => {
            return Err(err);
        },
    };
    let edits = a.e.edits(&a.site, &modes);
    let out = render(&a.e.text, &edits);
    let again = RepairInput {
        extracted_code: string_of(&out),
        original_code: input.original_code.clone(),
        mutable_call_evidence: input.mutable_call_evidence.clone(),
        caller_name: input.caller_name.clone(),
        callee_name: input.callee_name.clone(),
    };
    assert(again@ == resubmitted(input@, rewritten(a@)));
    let sound = match analyse(&again) {
        Ok((b, modes_again)) => {
            let left = b.e.edits(&b.site, &modes_again);
            same_names(&b.site.names, &a.site.names) && same_modes(&modes_again, &modes)
                && b.site.calls.len() == a.site.calls.len() && left.len() == 0
        },
        Err(_) => false,
    };
    if sound {
        Ok(again.extracted_code)
    } else {
        Err(RepairError::RenderError)
    }
}

/// The repair with its failures folded into the one coarse signal.
pub fn make_borrows(input: RepairInput) -> (r: Result<String, BorrowerError>)
    ensures
        match r {
            Ok(s) => outcome(input@) == Ok::<Seq<char>, RepairError>(s@),
            Err(_) => outcome(input@) is Err,
        },
{
    match repair(&input) {
        Ok(s) => Ok(s),
        Err(err) => Err(BorrowerError::from(err)),
    }
}

/// The passing mode chosen for each captured variable, without rewriting
/// anything.
pub fn plan(input: &RepairInput) -> (r: Result<BorrowPlan, RepairError>)
    ensures
        match r {
            Ok(p) => planned(input@) == Ok::<PlanView, RepairError>(p@),
            Err(err) => planned(input@) == Err::<PlanView, RepairError>(err),
        },
{
    let (a, modes) = match analyse(input) {
        Ok(x) => x,
        Err(err) => {
            return Err(err);
        },
    };
    let mut p = BorrowPlan { entries: Vec::new(), call_sites: a.site.calls.len() };
    let mut i: usize = 0;
    assert(a@.site.names.len() == a.site.names@.len());
    assert(a@.e.names_of(a@.site.params).len() == a.site.params@.len());
    assert(p@.entries =~= Seq::empty());
    while i < modes.len()
        invariant
            i <= modes.len(),
            modes@ == a@.modes(),
            a.site.names@.len() == modes@.len(),
            a@.site.names.len() == modes@.len(),
            p.call_sites == a@.site.calls.len(),
            a@.plan_from(i as int, p@.entries) == a@.plan().entries,
        decreases modes.len() - i,
    {
        assert(modes@[i as int] == a@.mode(i as int));
        assert(a@.site.names[i as int] == a.site.names@[i as int]@);
        match modes[i] {
            Some(mode) => {
                let ghost before = p@.entries;
                let name = string_of(&a.site.names[i]);
                p.entries.push(PlanEntry { name, mode });
                assert(p@.entries =~= before.push((a@.site.names[i as int], mode)));
            },
            None => {},
        }
        i += 1;
    }
    Ok(p)
}

impl BorrowPlan {
    /// How many variables are captured.
    pub fn len(&self) -> (n: usize)
        ensures
            n == self@.entries.len(),
    {
        self.entries.len()
    }

    /// How the variable called `name` is passed; `None` if it is not
    /// captured.
    pub fn mode_of(&self, name: &str) -> (r: Option<PassMode>)
        ensures
            r == lookup(self@.entries, name@, 0),
    {
        let wanted = chars_of(name);
        let mut i: usize = 0;
        while i < self.entries.len()
            invariant
                i <= self.entries.len(),
                wanted@ == name@,
                lookup(self@.entries, name@, i as int) == lookup(self@.entries, name@, 0),
            decreases self.entries.len() - i,
        {
            let have = chars_of(self.entries[i].name.as_str());
            if same_text(&have, &wanted) {
                return Some(self.entries[i].mode);
            }
            i += 1;
        }
        None
    }
}

} // verus!
