//! The project as a mathematical value, and each operation as a function on
//! that value: when it is rejected, and what the project is afterwards.
//!
//! The executable [`Project`](crate::project::Project) is held to these
//! functions by its contracts.

use crate::error::Error;
use crate::ledger;
use crate::state::{effective_state, settle_escrow, State};
use crate::tasks;
use crate::tasks::{AnnotationModel, DataPointModel};
use vstd::prelude::*;

verus! {

/// The reward for one annotation: one indivisible unit.
pub const REWARD: i128 = 1;

/// Everything a project records.
pub struct ProjectModel {
    pub id: u32,
    pub name: Seq<char>,
    pub description: Seq<char>,
    pub recipient: Seq<char>,
    /// When the project was created.
    pub started: u64,
    /// The last moment at which the project can still be funded.
    pub deadline: u64,
    /// What the contributions have to reach.
    pub target: int,
    /// What the project holds in custody.
    pub custody: int,
    pub tasks: Seq<DataPointModel>,
    /// What each contributor has deposited and may still claim back.
    pub contributions: Seq<(Seq<char>, int)>,
    /// A ledger for the earnings of annotators. It is created empty and
    /// carried with the project; no operation writes to it.
    pub earnings: Seq<(Seq<char>, int)>,
    /// The state as last stored.
    pub state: State,
}

impl ProjectModel {
    /// The invariant of a project.
    ///
    /// The ledgers and the task set are well formed. Custody is never
    /// negative. Every unit on the ledger of the contributors is either in
    /// custody or was paid as the reward of one annotation, so that custody
    /// and the number of annotations add up to what the ledger holds. While
    /// the project is funding, and once it has expired, nothing was
    /// annotated, so custody is exactly what the ledger holds. A project
    /// that has succeeded holds nothing.
    pub open spec fn inv(self) -> bool {
        &&& ledger::well_formed(self.contributions)
        &&& ledger::well_formed(self.earnings)
        &&& tasks::well_formed(self.tasks)
        &&& 0 <= self.custody
        &&& self.custody + tasks::annotation_count(self.tasks) == ledger::total(
            self.contributions,
        )
        &&& ledger::total(self.contributions) <= i128::MAX
        &&& (self.state == State::Funding || self.state == State::Expired)
            ==> tasks::annotation_count(self.tasks) == 0
        &&& self.state == State::Success ==> self.custody == 0
    }

    /// A new project: funding, with nothing in custody, empty ledgers and one
    /// fresh task per data item.
    pub open spec fn opened(
        id: u32,
        recipient: Seq<char>,
        deadline: u64,
        target: int,
        cids: Seq<Seq<char>>,
        name: Seq<char>,
        description: Seq<char>,
        now: u64,
    ) -> ProjectModel {
        ProjectModel {
            id,
            name,
            description,
            recipient,
            started: now,
            deadline,
            target,
            custody: 0,
            tasks: tasks::seeded(cids),
            contributions: Seq::empty(),
            earnings: Seq::empty(),
            state: State::Funding,
        }
    }

    /// The state of the project as seen at `now`.
    pub open spec fn effective_state(self, now: u64) -> State {
        effective_state(self.state, self.deadline, self.custody, self.target, now)
    }

    /// The project after its state was observed at `now`: the state seen is
    /// the state stored.
    pub open spec fn observed(self, now: u64) -> ProjectModel {
        ProjectModel { state: self.effective_state(now), ..self }
    }

    /// What `user` is shown as balance at `now`: while annotation runs, the
    /// recipient sees the custody and everybody else nothing; in every other
    /// state a user sees the own refundable deposit.
    pub open spec fn balance(self, user: Seq<char>, now: u64) -> int {
        if self.effective_state(now) == State::Annotating {
            if user == self.recipient {
                self.custody
            } else {
                0
            }
        } else {
            ledger::balance_of(self.contributions, user)
        }
    }

    /// Whether custody has reached the target.
    pub open spec fn target_reached(self) -> bool {
        self.custody >= self.target
    }

    /// Why a contribution is rejected, if it is. The checks come in this
    /// order: authorization, amount, state, range.
    pub open spec fn contribute_rejection(self, authorized: bool, amount: int, now: u64) -> Option<
        Error,
    > {
        if !authorized {
            Some(Error::Unauthorized)
        } else if amount <= 0 {
            Some(Error::NonPositiveAmount)
        } else if self.effective_state(now) != State::Funding {
            Some(Error::NotFunding)
        } else if self.custody + amount > i128::MAX {
            Some(Error::Overflow)
        } else {
            None
        }
    }

    /// The project after `user` has contributed `amount`.
    pub open spec fn contributed(self, user: Seq<char>, amount: int) -> ProjectModel {
        ProjectModel {
            custody: self.custody + amount,
            contributions: ledger::credited(self.contributions, user, amount),
            ..self
        }
    }

    /// Why an annotation is rejected, if it is. The checks come in this
    /// order: authorization, state, label, data item.
    pub open spec fn annotation_rejection(
        self,
        authorized: bool,
        cid: Seq<char>,
        label: Seq<char>,
        now: u64,
    ) -> Option<Error> {
        if !authorized {
            Some(Error::Unauthorized)
        } else {
            match self.effective_state(now) {
                State::Funding => Some(Error::StillFunding),
                State::Success => Some(Error::MarketClosed),
                State::Expired => Some(Error::Expired),
                State::Annotating => {
                    if label.len() == 0 {
                        Some(Error::EmptyLabel)
                    } else if tasks::position(self.tasks, cid) is None {
                        Some(Error::UnknownDataPoint)
                    } else {
                        None
                    }
                },
            }
        }
    }

    /// The project after an annotation for `cid` was recorded and rewarded:
    /// the task holds one annotation more, custody one unit less, and the
    /// state is `Success` if that used the escrow up.
    pub open spec fn annotated(self, cid: Seq<char>, annotation: AnnotationModel) -> ProjectModel {
        ProjectModel {
            tasks: tasks::recorded(self.tasks, cid, annotation),
            custody: self.custody - REWARD,
            state: settle_escrow(State::Annotating, self.custody - REWARD),
            ..self
        }
    }

    /// Why a refund after success is rejected, if it is. The checks come in
    /// this order: authorization, state, custody.
    pub open spec fn refund_rejection(self, authorized: bool, user: Seq<char>, now: u64) -> Option<
        Error,
    > {
        if !authorized {
            Some(Error::Unauthorized)
        } else {
            match self.effective_state(now) {
                State::Funding => Some(Error::StillFunding),
                State::Annotating => Some(Error::StillAnnotating),
                State::Expired => Some(Error::Expired),
                State::Success => {
                    if ledger::balance_of(self.contributions, user) > self.custody {
                        Some(Error::InsufficientCustody)
                    } else {
                        None
                    }
                },
            }
        }
    }

    /// Why a withdrawal is rejected, if it is. The checks come in this
    /// order: authorization, state.
    pub open spec fn withdraw_rejection(self, authorized: bool, now: u64) -> Option<Error> {
        if !authorized {
            Some(Error::Unauthorized)
        } else if self.effective_state(now) != State::Expired {
            Some(Error::NotExpired)
        } else {
            None
        }
    }

    /// The project after `user` was paid back in the final state `state`:
    /// the ledger entry is zero and custody is less by what the entry held.
    pub open spec fn repaid(self, user: Seq<char>, state: State) -> ProjectModel {
        ProjectModel {
            custody: self.custody - ledger::balance_of(self.contributions, user),
            contributions: ledger::cleared(self.contributions, user),
            state,
            ..self
        }
    }

    /// Why a submission is rejected, if it is. A submission to a project that
    /// has succeeded claims a refund; every other submission is an annotation.
    pub open spec fn submit_rejection(
        self,
        authorized: bool,
        annotator: Seq<char>,
        cid: Seq<char>,
        label: Seq<char>,
        now: u64,
    ) -> Option<Error> {
        if authorized && self.effective_state(now) == State::Success {
            self.refund_rejection(authorized, annotator, now)
        } else {
            self.annotation_rejection(authorized, cid, label, now)
        }
    }

    /// The project after a submission that was not rejected.
    pub open spec fn submitted(
        self,
        cid: Seq<char>,
        annotation: AnnotationModel,
        now: u64,
    ) -> ProjectModel {
        if self.effective_state(now) == State::Success {
            self.repaid(annotation.annotator, State::Success)
        } else {
            self.annotated(cid, annotation)
        }
    }
}

/// A new project satisfies the invariant.
pub proof fn lemma_opened_inv(
    id: u32,
    recipient: Seq<char>,
    deadline: u64,
    target: int,
    cids: Seq<Seq<char>>,
    name: Seq<char>,
    description: Seq<char>,
    now: u64,
)
    ensures
        ProjectModel::opened(id, recipient, deadline, target, cids, name, description, now).inv(),
{
    tasks::lemma_seeded(cids);
}

/// A contribution that is not rejected keeps the invariant, and leaves the
/// project funding.
pub proof fn lemma_contributed_inv(
    p: ProjectModel,
    authorized: bool,
    user: Seq<char>,
    amount: int,
    now: u64,
)
    requires
        p.inv(),
        p.contribute_rejection(authorized, amount, now) is None,
    ensures
        p.state == State::Funding,
        p.contributed(user, amount).inv(),
        ledger::balance_of(p.contributions, user) + amount <= i128::MAX,
{
    ledger::lemma_credited(p.contributions, user, amount);
    ledger::lemma_balance_bounds(p.contributions, user);
}

/// An annotation that is not rejected keeps the invariant, and finds at
/// least one unit in custody.
pub proof fn lemma_annotated_inv(
    p: ProjectModel,
    authorized: bool,
    cid: Seq<char>,
    annotation: AnnotationModel,
    now: u64,
)
    requires
        p.inv(),
        p.annotation_rejection(authorized, cid, annotation.label, now) is None,
    ensures
        p.custody >= REWARD,
        p.annotated(cid, annotation).inv(),
{
    tasks::lemma_recorded(p.tasks, cid, annotation);
}

/// A refund after success that is not rejected keeps the invariant.
pub proof fn lemma_refunded_inv(p: ProjectModel, authorized: bool, user: Seq<char>, now: u64)
    requires
        p.inv(),
        p.refund_rejection(authorized, user, now) is None,
    ensures
        p.repaid(user, State::Success).inv(),
{
    ledger::lemma_cleared(p.contributions, user);
    ledger::lemma_balance_bounds(p.contributions, user);
}

/// A withdrawal that is not rejected keeps the invariant, and custody covers
/// what is paid back.
pub proof fn lemma_withdrawn_inv(p: ProjectModel, authorized: bool, user: Seq<char>, now: u64)
    requires
        p.inv(),
        p.withdraw_rejection(authorized, now) is None,
    ensures
        ledger::balance_of(p.contributions, user) <= p.custody,
        p.repaid(user, State::Expired).inv(),
{
    ledger::lemma_cleared(p.contributions, user);
    ledger::lemma_balance_bounds(p.contributions, user);
}

} // verus!
