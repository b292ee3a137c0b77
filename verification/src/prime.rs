//! The script that primes the database for a benchmark run: the lectures,
//! their questions, and each user's answer to each question, which a user
//! posts while logged in.
use vstd::prelude::*;
use crate::bench::{
    answer_row_sql, answer_row_text, lecture_row_sql, lecture_row_text, question_row_sql,
    question_row_text,
};

verus! {

/// One step of the priming script.
pub enum PrimeStep {
    /// Run this statement on the database.
    Sql(String),
    /// Log in as the benchmark's user with this number.
    Login(usize),
    /// Log out.
    Logout,
}

/// The mathematical content of a [`PrimeStep`].
pub enum PrimeStepView {
    Sql(Seq<char>),
    Login(nat),
    Logout,
}

impl View for PrimeStep {
    type V = PrimeStepView;

    open spec fn view(&self) -> PrimeStepView {
        match self {
            PrimeStep::Sql(s) => PrimeStepView::Sql(s@),
            PrimeStep::Login(u) => PrimeStepView::Login(*u as nat),
            PrimeStep::Logout => PrimeStepView::Logout,
        }
    }
}

/// The views of a sequence of steps.
pub open spec fn step_views(steps: Seq<PrimeStep>) -> Seq<PrimeStepView> {
    steps.map_values(|s: PrimeStep| s@)
}

/// For users `0..n`: log in, add the answer to question `q` of lecture `l`,
/// log out.
pub open spec fn answer_steps(l: nat, q: nat, n: nat) -> Seq<PrimeStepView>
    decreases n,
{
    if n == 0 {
        Seq::empty()
    } else {
        let u = (n - 1) as nat;
        answer_steps(l, q, u) + seq![
            PrimeStepView::Login(u),
            PrimeStepView::Sql(answer_row_text(u, l, q)),
            PrimeStepView::Logout,
        ]
    }
}

/// For questions `0..m` of lecture `l`: add the question, then the answers
/// of users `0..nusers`.
pub open spec fn question_steps(l: nat, m: nat, nusers: nat) -> Seq<PrimeStepView>
    decreases m,
{
    if m == 0 {
        Seq::empty()
    } else {
        let q = (m - 1) as nat;
        question_steps(l, q, nusers) + seq![PrimeStepView::Sql(question_row_text(l, q))]
            + answer_steps(l, q, nusers)
    }
}

/// For lectures `0..k`: add the lecture, then its questions `0..nqs` with
/// their answers.
pub open spec fn lecture_steps(k: nat, nqs: nat, nusers: nat) -> Seq<PrimeStepView>
    decreases k,
{
    if k == 0 {
        Seq::empty()
    } else {
        let l = (k - 1) as nat;
        lecture_steps(l, nqs, nusers) + seq![PrimeStepView::Sql(lecture_row_text(l))]
            + question_steps(l, nqs, nusers)
    }
}

/// In the answer part of the script, user `i` logs in, adds the answer
/// and logs out, in three consecutive steps, for each user in turn.
pub proof fn lemma_answer_steps_shape(l: nat, q: nat, n: nat)
    ensures
        answer_steps(l, q, n).len() == 3 * n,
        forall|i: int|
            0 <= i < n ==> {
                &&& #[trigger] answer_steps(l, q, n)[3 * i] == PrimeStepView::Login(i as nat)
                &&& answer_steps(l, q, n)[3 * i + 1] == PrimeStepView::Sql(
                    answer_row_text(i as nat, l, q),
                )
                &&& answer_steps(l, q, n)[3 * i + 2] == PrimeStepView::Logout
            },
    decreases n,
{
    if n > 0 {
        let u = (n - 1) as nat;
        lemma_answer_steps_shape(l, q, u);
        let prev = answer_steps(l, q, u);
        let cur = answer_steps(l, q, n);
        assert forall|i: int| 0 <= i < n implies {
            &&& #[trigger] cur[3 * i] == PrimeStepView::Login(i as nat)
            &&& cur[3 * i + 1] == PrimeStepView::Sql(answer_row_text(i as nat, l, q))
            &&& cur[3 * i + 2] == PrimeStepView::Logout
        } by {
            if i < u {
                assert(cur[3 * i] == prev[3 * i]);
                assert(cur[3 * i + 1] == prev[3 * i + 1]);
                assert(cur[3 * i + 2] == prev[3 * i + 2]);
            }
        }
    }
}

proof fn lemma_question_steps_len(l: nat, m: nat, nusers: nat)
    ensures
        question_steps(l, m, nusers).len() == m * (1 + 3 * nusers),
    decreases m,
{
    if m > 0 {
        let q = (m - 1) as nat;
        lemma_question_steps_len(l, q, nusers);
        lemma_answer_steps_shape(l, q, nusers);
        assert(question_steps(l, m, nusers).len() == question_steps(l, q, nusers).len() + 1
            + answer_steps(l, q, nusers).len());
        assert(q * (1 + 3 * nusers) + 1 + 3 * nusers == m * (1 + 3 * nusers)) by (nonlinear_arith)
            requires
                q + 1 == m,
        ;
    } else {
        assert(m * (1 + 3 * nusers) == 0) by (nonlinear_arith)
            requires
                m == 0,
        ;
    }
}

/// The priming script has, for each lecture, one step for the lecture and,
/// for each of its questions, one step for the question and three for each
/// user: `nlec * (1 + nqs * (1 + 3 * nusers))` steps.
pub proof fn lemma_priming_plan_len(nlec: nat, nqs: nat, nusers: nat)
    ensures
        lecture_steps(nlec, nqs, nusers).len() == nlec * (1 + nqs * (1 + 3 * nusers)),
    decreases nlec,
{
    if nlec > 0 {
        let l = (nlec - 1) as nat;
        lemma_priming_plan_len(l, nqs, nusers);
        lemma_question_steps_len(l, nqs, nusers);
        let x = 1 + nqs * (1 + 3 * nusers);
        assert(lecture_steps(nlec, nqs, nusers).len() == lecture_steps(l, nqs, nusers).len() + 1
            + question_steps(l, nqs, nusers).len());
        assert(l * x + x == nlec * x) by (nonlinear_arith)
            requires
                l + 1 == nlec,
        ;
    } else {
        assert(nlec * (1 + nqs * (1 + 3 * nusers)) == 0) by (nonlinear_arith)
            requires
                nlec == 0,
        ;
    }
}

fn push_step(steps: &mut Vec<PrimeStep>, step: PrimeStep)
    ensures
        step_views(final(steps)@) == step_views(old(steps)@).push(step@),
{
    let ghost before = steps@;
    steps.push(step);
    assert(step_views(steps@) =~= step_views(before).push(step@));
}

/// The priming script for `nlec` lectures of `nqs` questions each and
/// `nusers` users.
pub fn priming_plan(nlec: usize, nqs: usize, nusers: usize) -> (steps: Vec<PrimeStep>)
    ensures
        step_views(steps@) == lecture_steps(nlec as nat, nqs as nat, nusers as nat),
{
    let mut steps: Vec<PrimeStep> = Vec::new();
    assert(step_views(steps@) =~= lecture_steps(0, nqs as nat, nusers as nat));
    let mut l: usize = 0;
    while l < nlec
        invariant
            l <= nlec,
            step_views(steps@) == lecture_steps(l as nat, nqs as nat, nusers as nat),
        decreases nlec - l,
    {
        push_step(&mut steps, PrimeStep::Sql(lecture_row_sql(l)));
        let ghost lec_base = step_views(steps@);
        assert(lec_base =~= lec_base + question_steps(l as nat, 0, nusers as nat));
        let mut q: usize = 0;
        while q < nqs
            invariant
                l < nlec,
                q <= nqs,
                step_views(steps@) == lec_base + question_steps(l as nat, q as nat, nusers as nat),
            decreases nqs - q,
        {
            push_step(&mut steps, PrimeStep::Sql(question_row_sql(l, q)));
            let ghost q_base = step_views(steps@);
            assert(q_base =~= q_base + answer_steps(l as nat, q as nat, 0));
            let mut u: usize = 0;
            while u < nusers
                invariant
                    l < nlec,
                    q < nqs,
                    u <= nusers,
                    step_views(steps@) == q_base + answer_steps(l as nat, q as nat, u as nat),
                decreases nusers - u,
            {
                push_step(&mut steps, PrimeStep::Login(u));
                push_step(&mut steps, PrimeStep::Sql(answer_row_sql(u, l, q)));
                push_step(&mut steps, PrimeStep::Logout);
                assert(step_views(steps@) =~= q_base + answer_steps(
                    l as nat,
                    q as nat,
                    (u + 1) as nat,
                ));
                u = u + 1;
            }
            assert(step_views(steps@) =~= lec_base + question_steps(
                l as nat,
                (q + 1) as nat,
                nusers as nat,
            ));
            q = q + 1;
        }
        assert(step_views(steps@) =~= lecture_steps((l + 1) as nat, nqs as nat, nusers as nat));
        l = l + 1;
    }
    steps
}

} // verus!
