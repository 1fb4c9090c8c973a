//! What holds of every project however it is called: runs of calls by any
//! parties at any times, and the laws of the lifecycle over such runs.
//!
//! What a call does to a project is [`ProjectModel::after`]; the operations
//! of the executable [`Project`](crate::project::Project) state in their
//! contracts that they do exactly that.

use crate::error::Error;
use crate::ledger;
use crate::model::{
    lemma_annotated_inv, lemma_contributed_inv, lemma_refunded_inv, lemma_withdrawn_inv,
    ProjectModel, REWARD,
};
use crate::state::State;
use crate::tasks;
use crate::tasks::AnnotationModel;
use vstd::prelude::*;

verus! {

/// One call to a project.
pub enum Call {
    /// The state is asked for.
    State,
    /// The balance of `user` is asked for.
    Balance { user: Seq<char> },
    /// `user` offers `amount`.
    Contribute { authorized: bool, user: Seq<char>, amount: int },
    /// The annotator named in `annotation` submits it for `cid`.
    Submit { authorized: bool, cid: Seq<char>, annotation: AnnotationModel },
    /// `user` asks for the deposit back.
    Withdraw { authorized: bool, user: Seq<char> },
}

impl Call {
    /// What the call offers to put into custody.
    pub open spec fn offer(self) -> int {
        match self {
            Call::Contribute { amount, .. } => amount,
            _ => 0,
        }
    }

    /// Whether the caller proved control of the party the call speaks for.
    /// Asking for the state or for a balance speaks for nobody.
    pub open spec fn authorized(self) -> bool {
        match self {
            Call::Contribute { authorized, .. } => authorized,
            Call::Submit { authorized, .. } => authorized,
            Call::Withdraw { authorized, .. } => authorized,
            _ => true,
        }
    }

    /// Whether the call is a contribution of a positive amount by an
    /// authorized caller.
    pub open spec fn is_deposit(self) -> bool {
        self matches Call::Contribute { authorized, amount, .. } && authorized && amount > 0
    }
}

/// What a run of calls, each with its time, offers to put into custody.
pub open spec fn offered(calls: Seq<(Call, u64)>) -> int
    decreases calls.len(),
{
    if calls.len() == 0 {
        0
    } else {
        offered(calls.drop_last()) + calls.last().0.offer()
    }
}

/// Whether a project may pass from one stored state to another: it may stay
/// where it is, leave `Funding` for any state, and leave `Annotating` for
/// `Success`.
pub open spec fn may_follow(from: State, to: State) -> bool {
    from == to || from == State::Funding || (from == State::Annotating && to == State::Success)
}

impl ProjectModel {
    /// Why `call` is rejected at `now`, if it is. Asking for the state or for
    /// a balance is never rejected.
    pub open spec fn rejection(self, call: Call, now: u64) -> Option<Error> {
        match call {
            Call::State => None,
            Call::Balance { user } => None,
            Call::Contribute { authorized, user, amount } => self.contribute_rejection(
                authorized,
                amount,
                now,
            ),
            Call::Submit { authorized, cid, annotation } => self.submit_rejection(
                authorized,
                annotation.annotator,
                cid,
                annotation.label,
                now,
            ),
            Call::Withdraw { authorized, user } => self.withdraw_rejection(authorized, now),
        }
    }

    /// The project after `call` was made at `now`. A rejected call leaves the
    /// project as it was.
    pub open spec fn after(self, call: Call, now: u64) -> ProjectModel {
        if self.rejection(call, now) is Some {
            self
        } else {
            match call {
                Call::State => self.observed(now),
                Call::Balance { user } => self.observed(now),
                Call::Contribute { authorized, user, amount } => self.contributed(user, amount),
                Call::Submit { authorized, cid, annotation } => self.submitted(
                    cid,
                    annotation,
                    now,
                ),
                Call::Withdraw { authorized, user } => self.repaid(user, State::Expired),
            }
        }
    }

    /// The project after a run of calls, each made at its time.
    pub open spec fn after_all(self, calls: Seq<(Call, u64)>) -> ProjectModel
        decreases calls.len(),
    {
        if calls.len() == 0 {
            self
        } else {
            self.after_all(calls.drop_last()).after(calls.last().0, calls.last().1)
        }
    }

    /// The project after its state was observed `times` times at `now`.
    pub open spec fn observed_times(self, now: u64, times: nat) -> ProjectModel
        decreases times,
    {
        if times == 0 {
            self
        } else {
            self.observed_times(now, (times - 1) as nat).observed(now)
        }
    }
}

/// Whatever the call and whenever it is made, the project keeps its
/// invariant, what identifies it, its deadline and its target, and its state
/// moves forward or stays.
pub proof fn law_call_keeps_invariant(p: ProjectModel, call: Call, now: u64)
    requires
        p.inv(),
    ensures
        p.after(call, now).inv(),
        may_follow(p.state, p.after(call, now).state),
        p.after(call, now).id == p.id,
        p.after(call, now).deadline == p.deadline,
        p.after(call, now).target == p.target,
{
    match call {
        Call::State => {},
        Call::Balance { user } => {},
        Call::Contribute { authorized, user, amount } => {
            if p.contribute_rejection(authorized, amount, now) is None {
                lemma_contributed_inv(p, authorized, user, amount, now);
            }
        },
        Call::Submit { authorized, cid, annotation } => {
            if p.submit_rejection(authorized, annotation.annotator, cid, annotation.label, now)
                is None {
                if p.effective_state(now) == State::Success {
                    lemma_refunded_inv(p, authorized, annotation.annotator, now);
                } else {
                    lemma_annotated_inv(p, authorized, cid, annotation, now);
                }
            }
        },
        Call::Withdraw { authorized, user } => {
            if p.withdraw_rejection(authorized, now) is None {
                lemma_withdrawn_inv(p, authorized, user, now);
            }
        },
    }
}

/// Whatever the run of calls, in any order, by any parties and at any times,
/// the project keeps its invariant and its state moves forward or stays: a
/// project that has left `Funding` never funds again, and one that is
/// `Expired` or has reached `Success` stays so.
pub proof fn law_run_keeps_invariant(p: ProjectModel, calls: Seq<(Call, u64)>)
    requires
        p.inv(),
    ensures
        p.after_all(calls).inv(),
        may_follow(p.state, p.after_all(calls).state),
        p.after_all(calls).id == p.id,
        p.after_all(calls).deadline == p.deadline,
        p.after_all(calls).target == p.target,
    decreases calls.len(),
{
    if calls.len() > 0 {
        law_run_keeps_invariant(p, calls.drop_last());
        law_call_keeps_invariant(p.after_all(calls.drop_last()), calls.last().0, calls.last().1);
    }
}

/// A ledger entry moves in two ways only: it grows by a contribution while
/// the project is funding, and it is set to zero by a repayment once the
/// project is `Expired` or has reached `Success`.
pub proof fn law_deposit_moves(p: ProjectModel, call: Call, now: u64, user: Seq<char>)
    requires
        p.inv(),
    ensures
        ({
            let before = ledger::balance_of(p.contributions, user);
            let after = ledger::balance_of(p.after(call, now).contributions, user);
            let state = p.after(call, now).state;
            ||| after == before
            ||| after == before + call.offer() && call.is_deposit() && state == State::Funding
            ||| after == 0 && (state == State::Expired || state == State::Success)
        }),
{
    match call {
        Call::State => {},
        Call::Balance { user: asked } => {},
        Call::Contribute { authorized, user: payer, amount } => {
            if p.contribute_rejection(authorized, amount, now) is None {
                ledger::lemma_credited(p.contributions, payer, amount);
            }
        },
        Call::Submit { authorized, cid, annotation } => {
            if p.submit_rejection(authorized, annotation.annotator, cid, annotation.label, now)
                is None {
                ledger::lemma_cleared(p.contributions, annotation.annotator);
            }
        },
        Call::Withdraw { authorized, user: payee } => {
            if p.withdraw_rejection(authorized, now) is None {
                ledger::lemma_cleared(p.contributions, payee);
            }
        },
    }
}

/// Tasks are never added or removed, and the annotations of a task only
/// grow: a call leaves them as they were or adds one at the end.
pub proof fn law_annotations_grow(p: ProjectModel, call: Call, now: u64, cid: Seq<char>)
    requires
        p.inv(),
    ensures
        p.after(call, now).tasks.len() == p.tasks.len(),
        tasks::task(p.tasks, cid) is None ==> tasks::task(p.after(call, now).tasks, cid) is None,
        tasks::task(p.tasks, cid) matches Some(before) ==> (tasks::task(
            p.after(call, now).tasks,
            cid,
        ) matches Some(after) && (after == before || exists|annotation: AnnotationModel|
            after == tasks::point_with(before, annotation))),
{
    match call {
        Call::Submit { authorized, cid: target, annotation } => {
            if p.submit_rejection(authorized, annotation.annotator, target, annotation.label, now)
                is None && p.effective_state(now) != State::Success {
                tasks::lemma_recorded(p.tasks, target, annotation);
                if target == cid {
                    let before = tasks::task(p.tasks, cid).unwrap();
                    assert(tasks::task(p.after(call, now).tasks, cid) == Some(
                        tasks::point_with(before, annotation),
                    ));
                }
            }
        },
        _ => {},
    }
}

/// Contributions that reach the target open the annotation market.
///
/// Take a project that is funding and below its target, and a run of
/// contributions, each of a positive amount by an authorized caller and none
/// after the deadline, that together take custody to the target. After the
/// run the project is seen as `Annotating` at any time, whether or not its
/// state was asked for in between.
pub proof fn law_funded_project_opens(p: ProjectModel, calls: Seq<(Call, u64)>, later: u64)
    requires
        p.inv(),
        p.state == State::Funding,
        p.custody < p.target,
        forall|i: int|
            0 <= i < calls.len() ==> (#[trigger] calls[i]).0.is_deposit() && calls[i].1
                <= p.deadline,
        p.target <= p.custody + offered(calls) <= i128::MAX,
    ensures
        p.after_all(calls).target_reached(),
        p.after_all(calls).effective_state(later) == State::Annotating,
{
    lemma_deposits_add_up(p, calls);
}

/// A run of contributions before the deadline adds up in custody until the
/// target is reached.
proof fn lemma_deposits_add_up(p: ProjectModel, calls: Seq<(Call, u64)>)
    requires
        p.inv(),
        p.state == State::Funding,
        p.custody < p.target,
        forall|i: int|
            0 <= i < calls.len() ==> (#[trigger] calls[i]).0.is_deposit() && calls[i].1
                <= p.deadline,
        p.custody + offered(calls) <= i128::MAX,
    ensures
        p.after_all(calls).inv(),
        p.after_all(calls).state == State::Funding,
        p.after_all(calls).deadline == p.deadline,
        p.after_all(calls).target == p.target,
        offered(calls) >= 0,
        p.after_all(calls).custody == p.custody + offered(calls) || p.after_all(
            calls,
        ).target_reached(),
    decreases calls.len(),
{
    if calls.len() > 0 {
        let front = calls.drop_last();
        let (call, now) = calls.last();
        assert(calls[calls.len() - 1].0.is_deposit());
        assert forall|i: int| 0 <= i < front.len() implies (#[trigger] front[i]).0.is_deposit()
            && front[i].1 <= p.deadline by {
            assert(front[i] == calls[i]);
        }
        lemma_offered_nonnegative(front);
        lemma_deposits_add_up(p, front);
        let q = p.after_all(front);
        match call {
            Call::Contribute { authorized, user, amount } => {
                if q.contribute_rejection(authorized, amount, now) is None {
                    lemma_contributed_inv(q, authorized, user, amount, now);
                }
            },
            _ => {},
        }
    }
}

/// A run of contributions of positive amounts offers nothing negative.
proof fn lemma_offered_nonnegative(calls: Seq<(Call, u64)>)
    requires
        forall|i: int| 0 <= i < calls.len() ==> (#[trigger] calls[i]).0.is_deposit(),
    ensures
        offered(calls) >= 0,
    decreases calls.len(),
{
    if calls.len() > 0 {
        let front = calls.drop_last();
        assert(calls[calls.len() - 1].0.is_deposit());
        assert forall|i: int| 0 <= i < front.len() implies (#[trigger] front[i]).0.is_deposit() by {
            assert(front[i] == calls[i]);
        }
        lemma_offered_nonnegative(front);
    }
}

/// Funding does not come back: a project that is stored as past `Funding`,
/// or whose custody has reached the target, is seen as `Funding` at no time
/// after any run of calls.
pub proof fn law_never_funding_again(p: ProjectModel, calls: Seq<(Call, u64)>, later: u64)
    requires
        p.inv(),
        p.state != State::Funding || p.target_reached(),
    ensures
        p.after_all(calls).state != State::Funding || p.after_all(calls).target_reached(),
        p.after_all(calls).effective_state(later) != State::Funding,
    decreases calls.len(),
{
    if calls.len() > 0 {
        let q = p.after_all(calls.drop_last());
        law_never_funding_again(p, calls.drop_last(), later);
        law_run_keeps_invariant(p, calls.drop_last());
        law_call_keeps_invariant(q, calls.last().0, calls.last().1);
    }
}

/// A project whose deadline has passed with custody below the target is
/// seen as `Expired`, and once that was stored it stays `Expired` whatever
/// is called on it and whenever.
pub proof fn law_missed_deadline_expires(
    p: ProjectModel,
    now: u64,
    calls: Seq<(Call, u64)>,
    later: u64,
)
    requires
        p.inv(),
        p.state == State::Funding,
        p.custody < p.target,
        now > p.deadline,
    ensures
        p.effective_state(now) == State::Expired,
        p.observed(now).after_all(calls).state == State::Expired,
        p.observed(now).after_all(calls).effective_state(later) == State::Expired,
{
    law_run_keeps_invariant(p.observed(now), calls);
}

/// Asking for the state again and again at one time gives what the first
/// asking gave, and leaves the project as the first asking left it.
pub proof fn law_observation_idempotent(p: ProjectModel, now: u64, times: nat)
    requires
        times >= 1,
    ensures
        p.observed_times(now, times) == p.observed(now),
        p.observed_times(now, times).effective_state(now) == p.effective_state(now),
    decreases times,
{
    if times > 1 {
        law_observation_idempotent(p, now, (times - 1) as nat);
    } else {
        assert(p.observed_times(now, 0) == p);
    }
}

/// A deposit is withdrawn once: after a withdrawal by `user`, and after any
/// run of further calls, a withdrawal by `user` at any time is accepted, pays
/// nothing and leaves the project, custody included, as it was.
pub proof fn law_withdrawal_is_once(
    p: ProjectModel,
    user: Seq<char>,
    now: u64,
    calls: Seq<(Call, u64)>,
    later: u64,
)
    requires
        p.inv(),
        p.withdraw_rejection(true, now) is None,
    ensures
        p.repaid(user, State::Expired).custody == p.custody - ledger::balance_of(
            p.contributions,
            user,
        ),
        p.repaid(user, State::Expired).after_all(calls).withdraw_rejection(true, later) is None,
        ledger::balance_of(p.repaid(user, State::Expired).after_all(calls).contributions, user)
            == 0,
        p.repaid(user, State::Expired).after_all(calls).repaid(user, State::Expired) == p.repaid(
            user,
            State::Expired,
        ).after_all(calls),
{
    let paid = p.repaid(user, State::Expired);
    lemma_withdrawn_inv(p, true, user, now);
    ledger::lemma_cleared(p.contributions, user);
    lemma_repaid_stays_repaid(paid, user, calls);
    let q = paid.after_all(calls);
    assert(ledger::cleared(q.contributions, user) =~= q.contributions);
}

/// In an expired project, an entry that is zero stays zero.
proof fn lemma_repaid_stays_repaid(p: ProjectModel, user: Seq<char>, calls: Seq<(Call, u64)>)
    requires
        p.inv(),
        p.state == State::Expired,
        ledger::balance_of(p.contributions, user) == 0,
    ensures
        p.after_all(calls).inv(),
        p.after_all(calls).state == State::Expired,
        ledger::balance_of(p.after_all(calls).contributions, user) == 0,
    decreases calls.len(),
{
    if calls.len() > 0 {
        let q = p.after_all(calls.drop_last());
        lemma_repaid_stays_repaid(p, user, calls.drop_last());
        law_call_keeps_invariant(q, calls.last().0, calls.last().1);
        law_deposit_moves(q, calls.last().0, calls.last().1, user);
    }
}

/// Rewards are paid one for one: an accepted annotation takes exactly one
/// unit out of custody and adds exactly itself to the end of the
/// annotations of its data item, every other task and every deposit staying
/// as it was; and once custody is below one unit the project is seen as
/// `Success` at any time.
pub proof fn law_reward_conservation(
    p: ProjectModel,
    cid: Seq<char>,
    annotation: AnnotationModel,
    now: u64,
    later: u64,
)
    requires
        p.inv(),
        p.annotation_rejection(true, cid, annotation.label, now) is None,
    ensures
        p.annotated(cid, annotation).custody == p.custody - REWARD,
        p.annotated(cid, annotation).contributions == p.contributions,
        p.annotated(cid, annotation).tasks.len() == p.tasks.len(),
        tasks::task(p.tasks, cid) matches Some(before) && tasks::task(
            p.annotated(cid, annotation).tasks,
            cid,
        ) matches Some(after) && after.annotations == before.annotations.push(annotation)
            && after.annotated,
        forall|other: Seq<char>|
            other != cid ==> #[trigger] tasks::task(p.annotated(cid, annotation).tasks, other)
                == tasks::task(p.tasks, other),
        p.annotated(cid, annotation).custody < REWARD ==> p.annotated(
            cid,
            annotation,
        ).effective_state(later) == State::Success,
{
    tasks::lemma_recorded(p.tasks, cid, annotation);
}

} // verus!
