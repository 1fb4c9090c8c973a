//! Many projects side by side, each under the id it was given when it was
//! created. An operation names its project by id and touches no other.

use crate::error::Error;
use crate::lifecycle::{law_call_keeps_invariant, Call};
use crate::model::ProjectModel;
use crate::project::{Deposit, Payout, Project};
use crate::state::State;
use crate::tasks::{names_view, AnnotationModel};
use vstd::prelude::*;

verus! {

/// Everything the registry records.
pub struct RegistryModel {
    /// The account of the token in which custody is held.
    pub token: Seq<char>,
    /// The projects, each at the place of its id.
    pub projects: Seq<ProjectModel>,
}

impl RegistryModel {
    /// The invariant of the registry: every project satisfies its own
    /// invariant and stands at the place of its id, and the ids fit in `u32`.
    pub open spec fn inv(self) -> bool {
        &&& self.projects.len() <= u32::MAX
        &&& forall|i: int|
            0 <= i < self.projects.len() ==> (#[trigger] self.projects[i]).inv()
                && self.projects[i].id == i
    }

    /// Whether a project was created under `id`.
    pub open spec fn has(self, id: u32) -> bool {
        id < self.projects.len()
    }

    /// The number of projects created, which is the id the next one gets.
    pub open spec fn count(self) -> nat {
        self.projects.len()
    }

    /// The registry with the project under `id` replaced.
    pub open spec fn with_project(self, id: u32, project: ProjectModel) -> RegistryModel {
        RegistryModel { projects: self.projects.update(id as int, project), ..self }
    }

    /// Why `call` to the project under `id` is rejected at `now`, if it is.
    /// The caller is checked first, then the id, then what the project has
    /// against the call.
    pub open spec fn rejection(self, id: u32, call: Call, now: u64) -> Option<Error> {
        if !call.authorized() {
            Some(Error::Unauthorized)
        } else if !self.has(id) {
            Some(Error::UnknownProject)
        } else {
            self.projects[id as int].rejection(call, now)
        }
    }

    /// The registry after `call` was made to the project under `id` at
    /// `now`: the project is what the call made of it, and every other
    /// project is as it was. A rejected call leaves the registry as it was.
    pub open spec fn after(self, id: u32, call: Call, now: u64) -> RegistryModel {
        if call.authorized() && self.has(id) {
            self.with_project(id, self.projects[id as int].after(call, now))
        } else {
            self
        }
    }
}

/// Projects do not touch each other: whatever is called on the project
/// under one id, the registry keeps its invariant and its projects, and the
/// project under every other id is as it was.
pub proof fn law_projects_are_isolated(
    registry: RegistryModel,
    id: u32,
    call: Call,
    now: u64,
    other: u32,
)
    requires
        registry.inv(),
        registry.has(other),
        other != id,
    ensures
        registry.after(id, call, now).inv(),
        registry.after(id, call, now).count() == registry.count(),
        registry.after(id, call, now).projects[other as int] == registry.projects[other as int],
{
    if call.authorized() && registry.has(id) {
        law_call_keeps_invariant(registry.projects[id as int], call, now);
    }
}

/// The ids `0, 1, ..` up to `count`.
pub open spec fn first_ids(count: nat) -> Seq<u32> {
    Seq::new(count, |i: int| i as u32)
}

/// What a sequence of projects holds.
pub open spec fn projects_view(projects: Seq<Project>) -> Seq<ProjectModel> {
    projects.map_values(|p: Project| p@)
}

/// A registry of projects.
#[derive(Debug)]
pub struct DataAnnotate {
    token: String,
    projects: Vec<Project>,
}

impl View for DataAnnotate {
    type V = RegistryModel;

    closed spec fn view(&self) -> RegistryModel {
        RegistryModel { token: self.token@, projects: projects_view(self.projects@) }
    }
}

impl DataAnnotate {
    /// The invariant of the registry, see [`RegistryModel::inv`].
    pub open spec fn wf(&self) -> bool {
        self@.inv()
    }

    /// A registry without projects, holding custody in `token`.
    pub fn new(token: String) -> (registry: DataAnnotate)
        ensures
            registry@ == (RegistryModel { token: token@, projects: Seq::empty() }),
            registry.wf(),
    {
        let registry = DataAnnotate { token, projects: Vec::new() };
        assert(registry@.projects =~= Seq::<ProjectModel>::empty());
        registry
    }

    /// Creates a project under the next free id and returns the id.
    ///
    /// Rejected with `Overflow` where the ids of `u32` are used up.
    pub fn initialize(
        &mut self,
        recipient: String,
        deadline: u64,
        target_amount: i128,
        data_point_cids: &Vec<String>,
        name: String,
        description: String,
        now: u64,
    ) -> (result: Result<u32, Error>)
        requires
            old(self).wf(),
        ensures
            final(self).wf(),
            match result {
                Ok(id) => {
                    &&& old(self)@.count() < u32::MAX
                    &&& id == old(self)@.count()
                    &&& final(self)@ == (RegistryModel {
                        projects: old(self)@.projects.push(
                            ProjectModel::opened(
                                id,
                                recipient@,
                                deadline,
                                target_amount as int,
                                names_view(data_point_cids@),
                                name@,
                                description@,
                                now,
                            ),
                        ),
                        ..old(self)@
                    })
                },
                Err(error) => {
                    &&& old(self)@.count() >= u32::MAX
                    &&& error == Error::Overflow
                    &&& final(self)@ == old(self)@
                },
            },
    {
        if self.projects.len() >= u32::MAX as usize {
            return Err(Error::Overflow);
        }
        let id = self.projects.len() as u32;
        let project = Project::new(
            id,
            recipient,
            deadline,
            target_amount,
            data_point_cids,
            name,
            description,
            now,
        );
        self.projects.push(project);
        assert(self@.projects =~= old(self)@.projects.push(project@));
        Ok(id)
    }

    /// The number of projects created.
    pub fn project_count(&self) -> (count: u32)
        requires
            self.wf(),
        ensures
            count == self@.count(),
    {
        self.projects.len() as u32
    }

    /// The ids of all projects, in the order of their creation.
    pub fn project_ids(&self) -> (ids: Vec<u32>)
        requires
            self.wf(),
        ensures
            ids@ == first_ids(self@.count()),
    {
        let mut ids: Vec<u32> = Vec::new();
        let mut i: usize = 0;
        while i < self.projects.len()
            invariant
                i <= self.projects.len() <= u32::MAX,
                ids@ == first_ids(i as nat),
            decreases self.projects.len() - i,
        {
            ids.push(i as u32);
            assert(ids@ =~= first_ids((i + 1) as nat));
            i += 1;
        }
        ids
    }

    /// Copies of all projects, in the order of their creation.
    pub fn get_projects(&self) -> (projects: Vec<Project>)
        ensures
            projects_view(projects@) == self@.projects,
    {
        let mut projects: Vec<Project> = Vec::new();
        let mut i: usize = 0;
        while i < self.projects.len()
            invariant
                i <= self.projects.len(),
                projects@.len() == i,
                forall|k: int| 0 <= k < i ==> (#[trigger] projects@[k])@ == self.projects@[k]@,
            decreases self.projects.len() - i,
        {
            projects.push(self.projects[i].clone());
            i += 1;
        }
        assert(projects_view(projects@) =~= self@.projects);
        projects
    }

    /// The project under `project_id`.
    pub fn get_project(&self, project_id: u32) -> (result: Result<&Project, Error>)
        ensures
            match result {
                Ok(project) => self@.has(project_id) && project@ == self@.projects[project_id as int],
                Err(error) => !self@.has(project_id) && error == Error::UnknownProject,
            },
    {
        if (project_id as usize) < self.projects.len() {
            Ok(&self.projects[project_id as usize])
        } else {
            Err(Error::UnknownProject)
        }
    }

    /// The deadline of the project under `project_id`.
    pub fn deadline(&self, project_id: u32) -> (result: Result<u64, Error>)
        ensures
            match result {
                Ok(deadline) => self@.has(project_id) && deadline
                    == self@.projects[project_id as int].deadline,
                Err(error) => !self@.has(project_id) && error == Error::UnknownProject,
            },
    {
        match self.get_project(project_id) {
            Ok(project) => Ok(project.deadline()),
            Err(error) => Err(error),
        }
    }

    /// The target of the project under `project_id`.
    pub fn target(&self, project_id: u32) -> (result: Result<i128, Error>)
        ensures
            match result {
                Ok(target) => self@.has(project_id) && target
                    == self@.projects[project_id as int].target,
                Err(error) => !self@.has(project_id) && error == Error::UnknownProject,
            },
    {
        match self.get_project(project_id) {
            Ok(project) => Ok(project.target()),
            Err(error) => Err(error),
        }
    }

    /// The account of the token in which custody is held.
    pub fn token(&self) -> (token: String)
        ensures
            token@ == self@.token,
    {
        self.token.clone()
    }

    /// The name of the project under `project_id`.
    pub fn get_name(&self, project_id: u32) -> (result: Result<String, Error>)
        ensures
            match result {
                Ok(name) => self@.has(project_id) && name@
                    == self@.projects[project_id as int].name,
                Err(error) => !self@.has(project_id) && error == Error::UnknownProject,
            },
    {
        match self.get_project(project_id) {
            Ok(project) => Ok(project.name().clone()),
            Err(error) => Err(error),
        }
    }

    /// The description of the project under `project_id`.
    pub fn get_description(&self, project_id: u32) -> (result: Result<String, Error>)
        ensures
            match result {
                Ok(description) => self@.has(project_id) && description@
                    == self@.projects[project_id as int].description,
                Err(error) => !self@.has(project_id) && error == Error::UnknownProject,
            },
    {
        match self.get_project(project_id) {
            Ok(project) => Ok(project.description().clone()),
            Err(error) => Err(error),
        }
    }

    /// The state of the project under `project_id` as seen at `now`, as its
    /// ordinal. The state seen is stored.
    pub fn state(&mut self, project_id: u32, now: u64) -> (result: Result<u32, Error>)
        requires
            old(self).wf(),
        ensures
            final(self).wf(),
            final(self)@ == old(self)@.after(project_id, Call::State, now),
            match result {
                Ok(ordinal) => old(self)@.has(project_id) && ordinal
                    == old(self)@.projects[project_id as int].effective_state(now).spec_ordinal(),
                Err(error) => old(self)@.rejection(project_id, Call::State, now) == Some(error),
            },
    {
        if (project_id as usize) >= self.projects.len() {
            return Err(Error::UnknownProject);
        }
        let state = self.projects[project_id as usize].state(now);
        assert(self@.projects =~= old(self)@.after(project_id, Call::State, now).projects);
        Ok(state.ordinal())
    }

    /// What `user` is shown as balance of the project under `project_id` at
    /// `now`, see [`ProjectModel::balance`]. The state seen is stored.
    pub fn balance(&mut self, user: &String, project_id: u32, now: u64) -> (result: Result<
        i128,
        Error,
    >)
        requires
            old(self).wf(),
        ensures
            final(self).wf(),
            final(self)@ == old(self)@.after(project_id, Call::Balance { user: user@ }, now),
            match result {
                Ok(balance) => old(self)@.has(project_id) && balance
                    == old(self)@.projects[project_id as int].balance(user@, now),
                Err(error) => old(self)@.rejection(project_id, Call::Balance { user: user@ }, now)
                    == Some(error),
            },
    {
        if (project_id as usize) >= self.projects.len() {
            return Err(Error::UnknownProject);
        }
        let balance = self.projects[project_id as usize].balance(user, now);
        assert(self@.projects =~= old(self)@.after(
            project_id,
            Call::Balance { user: user@ },
            now,
        ).projects);
        Ok(balance)
    }

    /// Takes a contribution to the project under `project_id`, see
    /// [`Project::contribute`].
    pub fn contribute(
        &mut self,
        authorized: bool,
        user: &String,
        amount: i128,
        project_id: u32,
        now: u64,
    ) -> (result: Result<Deposit, Error>)
        requires
            old(self).wf(),
        ensures
            final(self).wf(),
            ({
                let call = Call::Contribute { authorized, user: user@, amount: amount as int };
                &&& final(self)@ == old(self)@.after(project_id, call, now)
                &&& match result {
                    Ok(deposit) => {
                        let before = old(self)@.projects[project_id as int];
                        &&& old(self)@.rejection(project_id, call, now) is None
                        &&& deposit.amount == amount
                        &&& deposit.custody == before.custody + amount
                        &&& deposit.target_reached == (before.custody < before.target
                            <= deposit.custody)
                    },
                    Err(error) => old(self)@.rejection(project_id, call, now) == Some(error),
                }
            }),
    {
        if !authorized {
            return Err(Error::Unauthorized);
        }
        if (project_id as usize) >= self.projects.len() {
            return Err(Error::UnknownProject);
        }
        let result = self.projects[project_id as usize].contribute(authorized, user, amount, now);
        assert(self@.projects =~= old(self)@.after(
            project_id,
            Call::Contribute { authorized, user: user@, amount: amount as int },
            now,
        ).projects);
        result
    }

    /// Takes a submission to the project under `project_id`, see
    /// [`Project::submit`].
    pub fn submit(
        &mut self,
        authorized: bool,
        to: &String,
        data_point_cid: &String,
        posy: u32,
        posx: u32,
        width: u32,
        height: u32,
        label: &String,
        project_id: u32,
        now: u64,
    ) -> (result: Result<Payout, Error>)
        requires
            old(self).wf(),
        ensures
            final(self).wf(),
            ({
                let call = Call::Submit {
                    authorized,
                    cid: data_point_cid@,
                    annotation: AnnotationModel {
                        annotator: to@,
                        posx,
                        posy,
                        width,
                        height,
                        label: label@,
                    },
                };
                &&& final(self)@ == old(self)@.after(project_id, call, now)
                &&& match result {
                    Ok(payout) => {
                        let before = old(self)@.projects[project_id as int];
                        let after = final(self)@.projects[project_id as int];
                        &&& old(self)@.rejection(project_id, call, now) is None
                        &&& payout.amount == before.custody - after.custody
                        &&& payout.custody == after.custody
                        &&& payout.refund == (before.effective_state(now) == State::Success)
                    },
                    Err(error) => old(self)@.rejection(project_id, call, now) == Some(error),
                }
            }),
    {
        if !authorized {
            return Err(Error::Unauthorized);
        }
        if (project_id as usize) >= self.projects.len() {
            return Err(Error::UnknownProject);
        }
        let result = self.projects[project_id as usize].submit(
            authorized,
            to,
            data_point_cid,
            posy,
            posx,
            width,
            height,
            label,
            now,
        );
        assert(self@.projects =~= old(self)@.after(
            project_id,
            Call::Submit {
                authorized,
                cid: data_point_cid@,
                annotation: AnnotationModel {
                    annotator: to@,
                    posx,
                    posy,
                    width,
                    height,
                    label: label@,
                },
            },
            now,
        ).projects);
        result
    }

    /// Pays `user` back from the project under `project_id`, see
    /// [`Project::withdraw`].
    pub fn withdraw(&mut self, authorized: bool, user: &String, project_id: u32, now: u64) -> (result:
        Result<Payout, Error>)
        requires
            old(self).wf(),
        ensures
            final(self).wf(),
            ({
                let call = Call::Withdraw { authorized, user: user@ };
                &&& final(self)@ == old(self)@.after(project_id, call, now)
                &&& match result {
                    Ok(payout) => {
                        let before = old(self)@.projects[project_id as int];
                        let after = final(self)@.projects[project_id as int];
                        &&& old(self)@.rejection(project_id, call, now) is None
                        &&& payout.amount == before.custody - after.custody
                        &&& payout.custody == after.custody
                        &&& payout.refund
                    },
                    Err(error) => old(self)@.rejection(project_id, call, now) == Some(error),
                }
            }),
    {
        if !authorized {
            return Err(Error::Unauthorized);
        }
        if (project_id as usize) >= self.projects.len() {
            return Err(Error::UnknownProject);
        }
        let result = self.projects[project_id as usize].withdraw(authorized, user, now);
        assert(self@.projects =~= old(self)@.after(
            project_id,
            Call::Withdraw { authorized, user: user@ },
            now,
        ).projects);
        result
    }
}

} // verus!
