//! A single project, created once. The operations are those of the
//! [registry](crate::registry), without the id.

use crate::error::Error;
use crate::lifecycle::Call;
use crate::model::ProjectModel;
use crate::project::{Deposit, Payout, Project};
use crate::state::State;
use crate::tasks::{names_view, AnnotationModel};
use vstd::prelude::*;

verus! {

/// Everything the campaign records.
pub struct CampaignModel {
    /// The account of the token in which custody is held.
    pub token: Seq<char>,
    /// The project, once it was created.
    pub project: Option<ProjectModel>,
}

impl CampaignModel {
    /// The invariant of the campaign: that of its project.
    pub open spec fn inv(self) -> bool {
        self.project matches Some(project) ==> project.inv()
    }

    /// The campaign with its project replaced.
    pub open spec fn with_project(self, project: ProjectModel) -> CampaignModel {
        CampaignModel { project: Some(project), ..self }
    }

    /// Why `call` is rejected at `now`, if it is. The caller is checked
    /// first, then whether there is a project, then what the project has
    /// against the call.
    pub open spec fn rejection(self, call: Call, now: u64) -> Option<Error> {
        if !call.authorized() {
            Some(Error::Unauthorized)
        } else {
            match self.project {
                None => Some(Error::NotInitialized),
                Some(project) => project.rejection(call, now),
            }
        }
    }

    /// The campaign after `call` was made at `now`: the project is what the
    /// call made of it. A rejected call leaves the campaign as it was.
    pub open spec fn after(self, call: Call, now: u64) -> CampaignModel {
        match self.project {
            Some(project) if call.authorized() => self.with_project(project.after(call, now)),
            _ => self,
        }
    }
}

/// A campaign of one project.
#[derive(Debug)]
pub struct DataAnnotate {
    token: String,
    project: Option<Project>,
}

impl View for DataAnnotate {
    type V = CampaignModel;

    closed spec fn view(&self) -> CampaignModel {
        CampaignModel {
            token: self.token@,
            project: match self.project {
                Some(project) => Some(project@),
                None => None,
            },
        }
    }
}

impl DataAnnotate {
    /// The invariant of the campaign, see [`CampaignModel::inv`].
    pub open spec fn wf(&self) -> bool {
        self@.inv()
    }

    /// A campaign without a project yet, holding custody in `token`.
    pub fn new(token: String) -> (campaign: DataAnnotate)
        ensures
            campaign@ == (CampaignModel { token: token@, project: None }),
            campaign.wf(),
    {
        DataAnnotate { token, project: None }
    }

    /// Creates the project, without a name or a description, under the id 0.
    ///
    /// Rejected with `AlreadyInitialized` where the project exists.
    pub fn initialize(
        &mut self,
        recipient: String,
        deadline: u64,
        target_amount: i128,
        data_point_cids: &Vec<String>,
        now: u64,
    ) -> (result: Result<(), Error>)
        requires
            old(self).wf(),
        ensures
            final(self).wf(),
            match result {
                Ok(_) => {
                    &&& old(self)@.project is None
                    &&& final(self)@ == old(self)@.with_project(
                        ProjectModel::opened(
                            0,
                            recipient@,
                            deadline,
                            target_amount as int,
                            names_view(data_point_cids@),
                            Seq::empty(),
                            Seq::empty(),
                            now,
                        ),
                    )
                },
                Err(error) => {
                    &&& old(self)@.project is Some
                    &&& error == Error::AlreadyInitialized
                    &&& final(self)@ == old(self)@
                },
            },
    {
        if self.project.is_some() {
            return Err(Error::AlreadyInitialized);
        }
        self.project = Some(
            Project::new(
                0,
                recipient,
                deadline,
                target_amount,
                data_point_cids,
                String::new(),
                String::new(),
                now,
            ),
        );
        Ok(())
    }

    /// The project, once it was created.
    pub fn project(&self) -> (result: Result<&Project, Error>)
        ensures
            match result {
                Ok(project) => self@.project == Some(project@),
                Err(error) => self@.project is None && error == Error::NotInitialized,
            },
    {
        match &self.project {
            Some(project) => Ok(project),
            None => Err(Error::NotInitialized),
        }
    }

    /// The deadline of the project.
    pub fn deadline(&self) -> (result: Result<u64, Error>)
        ensures
            match result {
                Ok(deadline) => self@.project matches Some(project) && deadline == project.deadline,
                Err(error) => self@.project is None && error == Error::NotInitialized,
            },
    {
        match self.project() {
            Ok(project) => Ok(project.deadline()),
            Err(error) => Err(error),
        }
    }

    /// The target of the project.
    pub fn target(&self) -> (result: Result<i128, Error>)
        ensures
            match result {
                Ok(target) => self@.project matches Some(project) && target == project.target,
                Err(error) => self@.project is None && error == Error::NotInitialized,
            },
    {
        match self.project() {
            Ok(project) => Ok(project.target()),
            Err(error) => Err(error),
        }
    }

    /// The account of the token in which custody is held.
    pub fn token(&self) -> (token: String)
        ensures
            token@ == self@.token,
    {
        self.token.clone()
    }

    /// The state of the project as seen at `now`, as its ordinal. The state
    /// seen is stored.
    pub fn state(&mut self, now: u64) -> (result: Result<u32, Error>)
        requires
            old(self).wf(),
        ensures
            final(self).wf(),
            final(self)@ == old(self)@.after(Call::State, now),
            match result {
                Ok(ordinal) => old(self)@.project matches Some(before) && ordinal
                    == before.effective_state(now).spec_ordinal(),
                Err(error) => old(self)@.rejection(Call::State, now) == Some(error),
            },
    {
        match &mut self.project {
            Some(project) => {
                let state = project.state(now);
                Ok(state.ordinal())
            },
            None => Err(Error::NotInitialized),
        }
    }

    /// What `user` is shown as balance at `now`, see
    /// [`ProjectModel::balance`]. The state seen is stored.
    pub fn balance(&mut self, user: &String, now: u64) -> (result: Result<i128, Error>)
        requires
            old(self).wf(),
        ensures
            final(self).wf(),
            final(self)@ == old(self)@.after(Call::Balance { user: user@ }, now),
            match result {
                Ok(balance) => old(self)@.project matches Some(before) && balance
                    == before.balance(user@, now),
                Err(error) => old(self)@.rejection(Call::Balance { user: user@ }, now) == Some(
                    error,
                ),
            },
    {
        match &mut self.project {
            Some(project) => Ok(project.balance(user, now)),
            None => Err(Error::NotInitialized),
        }
    }

    /// Takes a contribution, see [`Project::contribute`].
    pub fn contribute(&mut self, authorized: bool, user: &String, amount: i128, now: u64) -> (result:
        Result<Deposit, Error>)
        requires
            old(self).wf(),
        ensures
            final(self).wf(),
            ({
                let call = Call::Contribute { authorized, user: user@, amount: amount as int };
                &&& final(self)@ == old(self)@.after(call, now)
                &&& match result {
                    Ok(deposit) => {
                        &&& old(self)@.rejection(call, now) is None
                        &&& old(self)@.project matches Some(before)
                        &&& deposit.amount == amount
                        &&& deposit.custody == before.custody + amount
                        &&& deposit.target_reached == (before.custody < before.target
                            <= deposit.custody)
                    },
                    Err(error) => old(self)@.rejection(call, now) == Some(error),
                }
            }),
    {
        if !authorized {
            return Err(Error::Unauthorized);
        }
        match &mut self.project {
            Some(project) => project.contribute(authorized, user, amount, now),
            None => Err(Error::NotInitialized),
        }
    }

    /// Takes a submission, see [`Project::submit`].
    pub fn submit(
        &mut self,
        authorized: bool,
        to: &String,
        data_point_cid: &String,
        posy: u32,
        posx: u32,
        width: u32,
        height: u32,
        label: &String,
        now: u64,
    ) -> (result: Result<Payout, Error>)
        requires
            old(self).wf(),
        ensures
            final(self).wf(),
            ({
                let call = Call::Submit {
                    authorized,
                    cid: data_point_cid@,
                    annotation: AnnotationModel {
                        annotator: to@,
                        posx,
                        posy,
                        width,
                        height,
                        label: label@,
                    },
                };
                &&& final(self)@ == old(self)@.after(call, now)
                &&& match result {
                    Ok(payout) => {
                        &&& old(self)@.rejection(call, now) is None
                        &&& old(self)@.project matches Some(before)
                        &&& final(self)@.project matches Some(after)
                        &&& payout.amount == before.custody - after.custody
                        &&& payout.custody == after.custody
                        &&& payout.refund == (before.effective_state(now) == State::Success)
                    },
                    Err(error) => old(self)@.rejection(call, now) == Some(error),
                }
            }),
    {
        if !authorized {
            return Err(Error::Unauthorized);
        }
        match &mut self.project {
            Some(project) => project.submit(
                authorized,
                to,
                data_point_cid,
                posy,
                posx,
                width,
                height,
                label,
                now,
            ),
            None => Err(Error::NotInitialized),
        }
    }

    /// Pays `user` back, see [`Project::withdraw`].
    pub fn withdraw(&mut self, authorized: bool, user: &String, now: u64) -> (result: Result<
        Payout,
        Error,
    >)
        requires
            old(self).wf(),
        ensures
            final(self).wf(),
            ({
                let call = Call::Withdraw { authorized, user: user@ };
                &&& final(self)@ == old(self)@.after(call, now)
                &&& match result {
                    Ok(payout) => {
                        &&& old(self)@.rejection(call, now) is None
                        &&& old(self)@.project matches Some(before)
                        &&& final(self)@.project matches Some(after)
                        &&& payout.amount == before.custody - after.custody
                        &&& payout.custody == after.custody
                        &&& payout.refund
                    },
                    Err(error) => old(self)@.rejection(call, now) == Some(error),
                }
            }),
    {
        if !authorized {
            return Err(Error::Unauthorized);
        }
        match &mut self.project {
            Some(project) => project.withdraw(authorized, user, now),
            None => Err(Error::NotInitialized),
        }
    }
}

} // verus!
