//! The project aggregate and its operations.
//!
//! Every operation takes the current time, and where it speaks for a party,
//! whether that party authorized the call. An operation that is rejected
//! changes nothing. One that succeeds says what has to be moved into or out
//! of custody; moving it is the caller's part.

use crate::error::Error;
use crate::ledger::Ledger;
use crate::lifecycle::Call;
use crate::model::{
    lemma_annotated_inv, lemma_contributed_inv, lemma_opened_inv, lemma_refunded_inv,
    lemma_withdrawn_inv, ProjectModel, REWARD,
};
use crate::state::{derive_state, State};
use crate::tasks::{names_view, Annotation, AnnotationModel, TaskSet};
use vstd::prelude::*;

verus! {

/// What a contribution leaves to do: `amount` moves from the contributor into
/// custody, the new custody is announced, and so is the target if this
/// contribution was the one to reach it.
#[derive(Clone, Copy, PartialEq, Eq, Structural, Debug)]
pub struct Deposit {
    /// What moves into custody.
    pub amount: i128,
    /// Custody after the contribution.
    pub custody: i128,
    /// Whether this contribution took custody from below the target to it.
    pub target_reached: bool,
}

/// What a submission or a withdrawal leaves to do: `amount` moves out of
/// custody to the caller.
#[derive(Clone, Copy, PartialEq, Eq, Structural, Debug)]
pub struct Payout {
    /// What moves out of custody.
    pub amount: i128,
    /// Custody after the payout.
    pub custody: i128,
    /// Whether a deposit is paid back, as opposed to a reward paid.
    pub refund: bool,
}

/// One funding and annotation campaign.
#[derive(Debug)]
pub struct Project {
    id: u32,
    name: String,
    description: String,
    recipient: String,
    started: u64,
    deadline: u64,
    target_amount: i128,
    current_amount: i128,
    data_points: TaskSet,
    contributions: Ledger,
    earnings: Ledger,
    state: State,
}

impl View for Project {
    type V = ProjectModel;

    closed spec fn view(&self) -> ProjectModel {
        ProjectModel {
            id: self.id,
            name: self.name@,
            description: self.description@,
            recipient: self.recipient@,
            started: self.started,
            deadline: self.deadline,
            target: self.target_amount as int,
            custody: self.current_amount as int,
            tasks: self.data_points@,
            contributions: self.contributions@,
            earnings: self.earnings@,
            state: self.state,
        }
    }
}

impl Project {
    /// The invariant of a project, see [`ProjectModel::inv`].
    pub open spec fn wf(&self) -> bool {
        self@.inv()
    }

    /// Creates a project: funding, nothing in custody, empty ledgers, one
    /// fresh task per data item, started at `now`.
    pub fn new(
        id: u32,
        recipient: String,
        deadline: u64,
        target_amount: i128,
        data_point_cids: &Vec<String>,
        name: String,
        description: String,
        now: u64,
    ) -> (project: Project)
        ensures
            project@ == ProjectModel::opened(
                id,
                recipient@,
                deadline,
                target_amount as int,
                names_view(data_point_cids@),
                name@,
                description@,
                now,
            ),
            project.wf(),
    {
        proof {
            lemma_opened_inv(
                id,
                recipient@,
                deadline,
                target_amount as int,
                names_view(data_point_cids@),
                name@,
                description@,
                now,
            );
        }
        Project {
            id,
            name,
            description,
            recipient,
            started: now,
            deadline,
            target_amount,
            current_amount: 0,
            data_points: TaskSet::seed(data_point_cids),
            contributions: Ledger::new(),
            earnings: Ledger::new(),
            state: State::Funding,
        }
    }

    /// Puts a stored project together again. `None` where the parts do not
    /// satisfy the invariant of a project.
    pub fn restore(
        id: u32,
        name: String,
        description: String,
        recipient: String,
        started: u64,
        deadline: u64,
        target_amount: i128,
        current_amount: i128,
        data_points: TaskSet,
        contributions: Ledger,
        earnings: Ledger,
        state: State,
    ) -> (project: Option<Project>)
        requires
            data_points.wf(),
            contributions.wf(),
            earnings.wf(),
        ensures
            project is Some <==> (ProjectModel {
                id,
                name: name@,
                description: description@,
                recipient: recipient@,
                started,
                deadline,
                target: target_amount as int,
                custody: current_amount as int,
                tasks: data_points@,
                contributions: contributions@,
                earnings: earnings@,
                state,
            }).inv(),
            project matches Some(p) ==> p@ == (ProjectModel {
                id,
                name: name@,
                description: description@,
                recipient: recipient@,
                started,
                deadline,
                target: target_amount as int,
                custody: current_amount as int,
                tasks: data_points@,
                contributions: contributions@,
                earnings: earnings@,
                state,
            }),
    {
        if current_amount < 0 {
            return None;
        }
        let deposited = match contributions.sum() {
            Some(total) => total,
            None => {
                return None;
            },
        };
        let annotations = match data_points.annotation_count() {
            Some(count) => count,
            None => {
                return None;
            },
        };
        if current_amount > deposited || deposited - current_amount != annotations {
            return None;
        }
        let settled = match state {
            State::Funding | State::Expired => annotations == 0,
            State::Annotating => true,
            State::Success => current_amount == 0,
        };
        if !settled {
            return None;
        }
        Some(
            Project {
                id,
                name,
                description,
                recipient,
                started,
                deadline,
                target_amount,
                current_amount,
                data_points,
                contributions,
                earnings,
                state,
            },
        )
    }

    /// The id under which the project was created.
    pub fn id(&self) -> (id: u32)
        ensures
            id == self@.id,
    {
        self.id
    }

    /// The name of the project.
    pub fn name(&self) -> (name: &String)
        ensures
            name@ == self@.name,
    {
        &self.name
    }

    /// The description of the project.
    pub fn description(&self) -> (description: &String)
        ensures
            description@ == self@.description,
    {
        &self.description
    }

    /// The account for which the project collects.
    pub fn recipient(&self) -> (recipient: &String)
        ensures
            recipient@ == self@.recipient,
    {
        &self.recipient
    }

    /// When the project was created.
    pub fn started(&self) -> (started: u64)
        ensures
            started == self@.started,
    {
        self.started
    }

    /// The last moment at which the project can still be funded.
    pub fn deadline(&self) -> (deadline: u64)
        ensures
            deadline == self@.deadline,
    {
        self.deadline
    }

    /// What the contributions have to reach.
    pub fn target(&self) -> (target: i128)
        ensures
            target == self@.target,
    {
        self.target_amount
    }

    /// What the project holds in custody.
    pub fn custody(&self) -> (custody: i128)
        ensures
            custody == self@.custody,
    {
        self.current_amount
    }

    /// The state as last stored, which the state at a given time may have
    /// left behind.
    pub fn stored_state(&self) -> (state: State)
        ensures
            state == self@.state,
    {
        self.state
    }

    /// The tasks of the project.
    pub fn data_points(&self) -> (tasks: &TaskSet)
        ensures
            tasks@ == self@.tasks,
    {
        &self.data_points
    }

    /// What each contributor has deposited and may still claim back.
    pub fn contributions(&self) -> (ledger: &Ledger)
        ensures
            ledger@ == self@.contributions,
    {
        &self.contributions
    }

    /// The ledger for the earnings of annotators, which no operation writes.
    pub fn earnings(&self) -> (ledger: &Ledger)
        ensures
            ledger@ == self@.earnings,
    {
        &self.earnings
    }

    /// Whether custody has reached the target.
    pub fn target_reached(&self) -> (reached: bool)
        ensures
            reached == self@.target_reached(),
    {
        self.current_amount >= self.target_amount
    }

    /// The state of the project as seen at `now`, without storing it.
    pub fn state_at(&self, now: u64) -> (state: State)
        ensures
            state == self@.effective_state(now),
    {
        derive_state(self.state, self.deadline, self.current_amount, self.target_amount, now)
    }

    /// The state of the project as seen at `now`. The state seen is stored.
    pub fn state(&mut self, now: u64) -> (state: State)
        requires
            old(self).wf(),
        ensures
            state == old(self)@.effective_state(now),
            final(self)@ == old(self)@.observed(now),
            final(self)@ == old(self)@.after(Call::State, now),
            final(self).wf(),
    {
        let state = self.state_at(now);
        self.state = state;
        state
    }

    /// What `user` is shown as balance at `now`, see
    /// [`ProjectModel::balance`]. The state seen is stored.
    pub fn balance(&mut self, user: &String, now: u64) -> (balance: i128)
        requires
            old(self).wf(),
        ensures
            balance == old(self)@.balance(user@, now),
            final(self)@ == old(self)@.observed(now),
            final(self)@ == old(self)@.after(Call::Balance { user: user@ }, now),
            final(self).wf(),
    {
        let state = self.state(now);
        if state == State::Annotating {
            if *user == self.recipient {
                self.current_amount
            } else {
                0
            }
        } else {
            self.contributions.get(user)
        }
    }

    /// Takes a contribution of `amount` from `user`.
    ///
    /// Accepted while the project is funding at `now`, for a positive amount
    /// from an authorized caller: the amount is added to custody and to the
    /// ledger entry of `user`.
    pub fn contribute(&mut self, authorized: bool, user: &String, amount: i128, now: u64) -> (result:
        Result<Deposit, Error>)
        requires
            old(self).wf(),
        ensures
            final(self).wf(),
            final(self)@ == old(self)@.after(
                Call::Contribute { authorized, user: user@, amount: amount as int },
                now,
            ),
            match result {
                Ok(deposit) => {
                    &&& old(self)@.contribute_rejection(authorized, amount as int, now) is None
                    &&& final(self)@ == old(self)@.contributed(user@, amount as int)
                    &&& deposit.amount == amount
                    &&& deposit.custody == final(self)@.custody
                    &&& deposit.target_reached == (!old(self)@.target_reached()
                        && final(self)@.target_reached())
                },
                Err(error) => {
                    &&& old(self)@.contribute_rejection(authorized, amount as int, now) == Some(
                        error,
                    )
                    &&& final(self)@ == old(self)@
                },
            },
    {
        if !authorized {
            return Err(Error::Unauthorized);
        }
        if amount <= 0 {
            return Err(Error::NonPositiveAmount);
        }
        if self.state_at(now) != State::Funding {
            return Err(Error::NotFunding);
        }
        if amount > i128::MAX - self.current_amount {
            return Err(Error::Overflow);
        }
        proof {
            lemma_contributed_inv(self@, authorized, user@, amount as int, now);
        }
        let was_reached = self.target_reached();
        let credited = self.contributions.credit(user, amount);
        assert(credited);
        self.current_amount = self.current_amount + amount;
        Ok(
            Deposit {
                amount,
                custody: self.current_amount,
                target_reached: !was_reached && self.target_reached(),
            },
        )
    }

    /// Records an annotation by `to` for the data item `data_point_cid` and
    /// rewards it with one unit from custody.
    ///
    /// Accepted while annotation runs at `now`, with a label that is not
    /// empty, for a data item the project holds.
    pub fn submit_annotation(
        &mut self,
        authorized: bool,
        to: &String,
        data_point_cid: &String,
        posy: u32,
        posx: u32,
        width: u32,
        height: u32,
        label: &String,
        now: u64,
    ) -> (result: Result<Payout, Error>)
        requires
            old(self).wf(),
        ensures
            final(self).wf(),
            match result {
                Ok(payout) => {
                    &&& old(self)@.annotation_rejection(authorized, data_point_cid@, label@, now)
                        is None
                    &&& final(self)@ == old(self)@.annotated(
                        data_point_cid@,
                        AnnotationModel {
                            annotator: to@,
                            posx,
                            posy,
                            width,
                            height,
                            label: label@,
                        },
                    )
                    &&& payout.amount == REWARD
                    &&& payout.custody == final(self)@.custody
                    &&& !payout.refund
                },
                Err(error) => {
                    &&& old(self)@.annotation_rejection(authorized, data_point_cid@, label@, now)
                        == Some(error)
                    &&& final(self)@ == old(self)@
                },
            },
    {
        if !authorized {
            return Err(Error::Unauthorized);
        }
        match self.state_at(now) {
            State::Funding => {
                return Err(Error::StillFunding);
            },
            State::Success => {
                return Err(Error::MarketClosed);
            },
            State::Expired => {
                return Err(Error::Expired);
            },
            State::Annotating => {},
        }
        if label.as_str().is_empty() {
            return Err(Error::EmptyLabel);
        }
        if self.data_points.find(data_point_cid).is_none() {
            return Err(Error::UnknownDataPoint);
        }
        let annotation = Annotation {
            annotator: to.clone(),
            posx,
            posy,
            width,
            height,
            label: label.clone(),
        };
        proof {
            lemma_annotated_inv(self@, authorized, data_point_cid@, annotation@, now);
        }
        let recorded = self.data_points.record(data_point_cid, annotation);
        assert(recorded);
        self.current_amount = self.current_amount - REWARD;
        self.state = derive_state(
            State::Annotating,
            self.deadline,
            self.current_amount,
            self.target_amount,
            now,
        );
        Ok(Payout { amount: REWARD, custody: self.current_amount, refund: false })
    }

    /// Pays `user` back what the ledger still holds for it, after the project
    /// has succeeded.
    ///
    /// Accepted once the project has succeeded at `now`, where custody covers
    /// the entry. A user without an entry is paid nothing.
    pub fn claim_refund(&mut self, authorized: bool, user: &String, now: u64) -> (result: Result<
        Payout,
        Error,
    >)
        requires
            old(self).wf(),
        ensures
            final(self).wf(),
            match result {
                Ok(payout) => {
                    &&& old(self)@.refund_rejection(authorized, user@, now) is None
                    &&& final(self)@ == old(self)@.repaid(user@, State::Success)
                    &&& payout.amount == old(self)@.custody - final(self)@.custody
                    &&& payout.custody == final(self)@.custody
                    &&& payout.refund
                },
                Err(error) => {
                    &&& old(self)@.refund_rejection(authorized, user@, now) == Some(error)
                    &&& final(self)@ == old(self)@
                },
            },
    {
        if !authorized {
            return Err(Error::Unauthorized);
        }
        match self.state_at(now) {
            State::Funding => {
                return Err(Error::StillFunding);
            },
            State::Annotating => {
                return Err(Error::StillAnnotating);
            },
            State::Expired => {
                return Err(Error::Expired);
            },
            State::Success => {},
        }
        if self.contributions.get(user) > self.current_amount {
            return Err(Error::InsufficientCustody);
        }
        proof {
            lemma_refunded_inv(self@, authorized, user@, now);
        }
        let amount = self.contributions.clear(user);
        self.current_amount = self.current_amount - amount;
        self.state = State::Success;
        Ok(Payout { amount, custody: self.current_amount, refund: true })
    }

    /// Takes a submission by `to`: a claim for a refund where the project has
    /// succeeded at `now`, see [`Project::claim_refund`], and an annotation
    /// otherwise, see [`Project::submit_annotation`].
    pub fn submit(
        &mut self,
        authorized: bool,
        to: &String,
        data_point_cid: &String,
        posy: u32,
        posx: u32,
        width: u32,
        height: u32,
        label: &String,
        now: u64,
    ) -> (result: Result<Payout, Error>)
        requires
            old(self).wf(),
        ensures
            final(self).wf(),
            final(self)@ == old(self)@.after(
                Call::Submit {
                    authorized,
                    cid: data_point_cid@,
                    annotation: AnnotationModel {
                        annotator: to@,
                        posx,
                        posy,
                        width,
                        height,
                        label: label@,
                    },
                },
                now,
            ),
            match result {
                Ok(payout) => {
                    &&& old(self)@.submit_rejection(
                        authorized,
                        to@,
                        data_point_cid@,
                        label@,
                        now,
                    ) is None
                    &&& final(self)@ == old(self)@.submitted(
                        data_point_cid@,
                        AnnotationModel {
                            annotator: to@,
                            posx,
                            posy,
                            width,
                            height,
                            label: label@,
                        },
                        now,
                    )
                    &&& payout.amount == old(self)@.custody - final(self)@.custody
                    &&& payout.custody == final(self)@.custody
                    &&& payout.refund == (old(self)@.effective_state(now) == State::Success)
                },
                Err(error) => {
                    &&& old(self)@.submit_rejection(
                        authorized,
                        to@,
                        data_point_cid@,
                        label@,
                        now,
                    ) == Some(error)
                    &&& final(self)@ == old(self)@
                },
            },
    {
        if authorized && self.state_at(now) == State::Success {
            self.claim_refund(authorized, to, now)
        } else {
            self.submit_annotation(
                authorized,
                to,
                data_point_cid,
                posy,
                posx,
                width,
                height,
                label,
                now,
            )
        }
    }

    /// Pays `user` back what the ledger holds for it, after the project has
    /// expired.
    ///
    /// Accepted once the project has expired at `now`. A user without an
    /// entry, or one that has withdrawn before, is paid nothing.
    pub fn withdraw(&mut self, authorized: bool, user: &String, now: u64) -> (result: Result<
        Payout,
        Error,
    >)
        requires
            old(self).wf(),
        ensures
            final(self).wf(),
            final(self)@ == old(self)@.after(Call::Withdraw { authorized, user: user@ }, now),
            match result {
                Ok(payout) => {
                    &&& old(self)@.withdraw_rejection(authorized, now) is None
                    &&& final(self)@ == old(self)@.repaid(user@, State::Expired)
                    &&& payout.amount == old(self)@.custody - final(self)@.custody
                    &&& payout.custody == final(self)@.custody
                    &&& payout.refund
                },
                Err(error) => {
                    &&& old(self)@.withdraw_rejection(authorized, now) == Some(error)
                    &&& final(self)@ == old(self)@
                },
            },
    {
        if !authorized {
            return Err(Error::Unauthorized);
        }
        if self.state_at(now) != State::Expired {
            return Err(Error::NotExpired);
        }
        proof {
            lemma_withdrawn_inv(self@, authorized, user@, now);
        }
        let amount = self.contributions.clear(user);
        self.current_amount = self.current_amount - amount;
        self.state = State::Expired;
        Ok(Payout { amount, custody: self.current_amount, refund: true })
    }
}

impl Clone for Project {
    fn clone(&self) -> (copy: Self)
        ensures
            copy@ == self@,
    {
        Project {
            id: self.id,
            name: self.name.clone(),
            description: self.description.clone(),
            recipient: self.recipient.clone(),
            started: self.started,
            deadline: self.deadline,
            target_amount: self.target_amount,
            current_amount: self.current_amount,
            data_points: self.data_points.clone(),
            contributions: self.contributions.clone(),
            earnings: self.earnings.clone(),
            state: self.state,
        }
    }
}

} // verus!
