use open_annot::ledger::{Entry, Ledger};
use open_annot::tasks::{Annotation, TaskSet};
use open_annot::{Deposit, Error, Payout, Project, State};

fn t(value: &str) -> String {
    value.to_string()
}

// A project with target 100, deadline 1010 and the data items "a" and "b", created at 1000.
fn campaign() -> Project {
    Project::new(7, t("recipient"), 1010, 100, &vec![t("a"), t("b")], t("birds"), t("label birds"), 1000)
}

fn funded() -> Project {
    let mut project = campaign();
    project.contribute(true, &t("alice"), 60, 1001).unwrap();
    project.contribute(true, &t("bob"), 40, 1002).unwrap();
    project
}

fn annotate(project: &mut Project, who: &str, cid: &str, now: u64) -> Result<Payout, Error> {
    project.submit(true, &t(who), &t(cid), 2, 1, 3, 4, &t("cat"), now)
}

#[test]
fn new_project_is_funding_and_empty() {
    let project = campaign();
    assert_eq!(project.id(), 7);
    assert_eq!(project.name(), "birds");
    assert_eq!(project.description(), "label birds");
    assert_eq!(project.recipient(), "recipient");
    assert_eq!(project.started(), 1000);
    assert_eq!(project.deadline(), 1010);
    assert_eq!(project.target(), 100);
    assert_eq!(project.custody(), 0);
    assert_eq!(project.stored_state(), State::Funding);
    assert_eq!(project.contributions().len(), 0);
    assert_eq!(project.earnings().len(), 0);
    assert_eq!(project.data_points().len(), 2);
    assert!(!project.target_reached());
}

#[test]
fn contribution_adds_to_custody_and_ledger() {
    let mut project = campaign();
    let first = project.contribute(true, &t("alice"), 60, 1001);
    assert_eq!(first, Ok(Deposit { amount: 60, custody: 60, target_reached: false }));
    let second = project.contribute(true, &t("alice"), 5, 1002);
    assert_eq!(second, Ok(Deposit { amount: 5, custody: 65, target_reached: false }));
    assert_eq!(project.custody(), 65);
    assert_eq!(project.contributions().get(&t("alice")), 65);
    assert_eq!(project.stored_state(), State::Funding);
}

#[test]
fn contribution_that_reaches_the_target_says_so_once() {
    let mut project = campaign();
    assert!(!project.contribute(true, &t("alice"), 99, 1001).unwrap().target_reached);
    let crossing = project.contribute(true, &t("bob"), 1, 1002).unwrap();
    assert!(crossing.target_reached);
    assert_eq!(crossing.custody, 100);
    assert_eq!(project.contribute(true, &t("carol"), 1, 1003), Err(Error::NotFunding));
}

#[test]
fn contribution_may_pass_the_target() {
    let mut project = campaign();
    let deposit = project.contribute(true, &t("alice"), 250, 1001).unwrap();
    assert!(deposit.target_reached);
    assert_eq!(project.state_at(1001), State::Annotating);
    assert_eq!(project.custody(), 250);
}

#[test]
fn contribution_on_the_deadline_is_taken() {
    let mut project = campaign();
    assert!(project.contribute(true, &t("alice"), 1, 1010).is_ok());
    assert_eq!(project.contribute(true, &t("alice"), 1, 1011), Err(Error::NotFunding));
}

#[test]
fn contribution_is_rejected_without_authorization_first() {
    let mut project = campaign();
    assert_eq!(project.contribute(false, &t("alice"), 0, 2000), Err(Error::Unauthorized));
    assert_eq!(project.contribute(false, &t("alice"), 60, 1001), Err(Error::Unauthorized));
    assert_eq!(project.custody(), 0);
}

#[test]
fn contribution_of_nothing_or_less_is_rejected() {
    let mut project = campaign();
    assert_eq!(project.contribute(true, &t("alice"), 0, 1001), Err(Error::NonPositiveAmount));
    assert_eq!(project.contribute(true, &t("alice"), -5, 1001), Err(Error::NonPositiveAmount));
    assert_eq!(project.contribute(true, &t("alice"), -5, 2000), Err(Error::NonPositiveAmount));
    assert_eq!(project.contributions().len(), 0);
}

#[test]
fn contribution_after_the_deadline_is_rejected_and_changes_nothing() {
    let mut project = campaign();
    project.contribute(true, &t("alice"), 10, 1001).unwrap();
    assert_eq!(project.contribute(true, &t("bob"), 90, 1011), Err(Error::NotFunding));
    assert_eq!(project.custody(), 10);
    assert_eq!(project.stored_state(), State::Funding);
    assert_eq!(project.contributions().get(&t("bob")), 0);
}

#[test]
fn contribution_beyond_the_range_is_rejected() {
    let mut project = Project::new(0, t("r"), 10, i128::MAX, &Vec::new(), t("n"), t("d"), 0);
    project.contribute(true, &t("alice"), i128::MAX - 1, 1).unwrap();
    assert_eq!(project.contribute(true, &t("bob"), 2, 1), Err(Error::Overflow));
    assert_eq!(project.custody(), i128::MAX - 1);
    let last = project.contribute(true, &t("bob"), 1, 1).unwrap();
    assert!(last.target_reached);
    assert_eq!(last.custody, i128::MAX);
}

#[test]
fn state_is_stored_when_asked_for() {
    let mut project = funded();
    assert_eq!(project.stored_state(), State::Funding);
    assert_eq!(project.state_at(1003), State::Annotating);
    assert_eq!(project.stored_state(), State::Funding);
    assert_eq!(project.state(1003), State::Annotating);
    assert_eq!(project.stored_state(), State::Annotating);
}

#[test]
fn state_asked_again_is_the_same() {
    let mut project = campaign();
    project.contribute(true, &t("alice"), 10, 1001).unwrap();
    let first = project.state(1011);
    let record = (project.stored_state(), project.custody(), project.contributions().get(&t("alice")));
    for _ in 0..5 {
        assert_eq!(project.state(1011), first);
        assert_eq!(
            (project.stored_state(), project.custody(), project.contributions().get(&t("alice"))),
            record
        );
    }
    assert_eq!(first, State::Expired);
}

#[test]
fn balance_shows_the_deposit_while_funding() {
    let mut project = campaign();
    project.contribute(true, &t("alice"), 60, 1001).unwrap();
    assert_eq!(project.balance(&t("alice"), 1002), 60);
    assert_eq!(project.balance(&t("bob"), 1002), 0);
    assert_eq!(project.balance(&t("recipient"), 1002), 0);
}

#[test]
fn balance_shows_custody_to_the_recipient_while_annotating() {
    let mut project = funded();
    assert_eq!(project.balance(&t("recipient"), 1003), 100);
    assert_eq!(project.balance(&t("alice"), 1003), 0);
    assert_eq!(project.balance(&t("bob"), 1003), 0);
    assert_eq!(project.stored_state(), State::Annotating);
    annotate(&mut project, "carol", "a", 1004).unwrap();
    assert_eq!(project.balance(&t("recipient"), 1005), 99);
}

#[test]
fn balance_shows_the_deposit_after_expiry() {
    let mut project = campaign();
    project.contribute(true, &t("alice"), 60, 1001).unwrap();
    assert_eq!(project.balance(&t("alice"), 1011), 60);
    assert_eq!(project.stored_state(), State::Expired);
    assert_eq!(project.balance(&t("recipient"), 1011), 0);
}

#[test]
fn annotation_is_recorded_and_rewarded() {
    let mut project = funded();
    let payout = project.submit(true, &t("carol"), &t("a"), 20, 10, 30, 40, &t("cat"), 1003);
    assert_eq!(payout, Ok(Payout { amount: 1, custody: 99, refund: false }));
    assert_eq!(project.custody(), 99);
    assert_eq!(project.stored_state(), State::Annotating);
    let tasks = project.data_points();
    let a = tasks.get(&t("a")).unwrap();
    assert!(a.annotated);
    assert_eq!(a.annotations.len(), 1);
    assert_eq!(a.annotations[0].annotator, "carol");
    assert_eq!(a.annotations[0].posx, 10);
    assert_eq!(a.annotations[0].posy, 20);
    assert_eq!(a.annotations[0].width, 30);
    assert_eq!(a.annotations[0].height, 40);
    assert_eq!(a.annotations[0].label, "cat");
    assert!(!tasks.get(&t("b")).unwrap().annotated);
    assert_eq!(project.contributions().get(&t("alice")), 60);
    assert_eq!(project.earnings().len(), 0);
}

#[test]
fn annotated_task_takes_further_annotations() {
    let mut project = funded();
    annotate(&mut project, "carol", "a", 1003).unwrap();
    annotate(&mut project, "dave", "a", 1004).unwrap();
    annotate(&mut project, "carol", "a", 1005).unwrap();
    let a = project.data_points().get(&t("a")).unwrap();
    assert_eq!(a.annotations.len(), 3);
    assert_eq!(a.annotations[1].annotator, "dave");
    assert_eq!(project.custody(), 97);
}

#[test]
fn annotation_goes_on_after_the_deadline() {
    let mut project = funded();
    assert_eq!(annotate(&mut project, "carol", "a", 5000).unwrap().custody, 99);
    assert_eq!(project.state(u64::MAX), State::Annotating);
}

#[test]
fn submission_while_funding_is_rejected() {
    let mut project = campaign();
    assert_eq!(annotate(&mut project, "carol", "a", 1001), Err(Error::StillFunding));
    assert_eq!(
        project.submit_annotation(true, &t("carol"), &t("a"), 2, 1, 3, 4, &t("cat"), 1001),
        Err(Error::StillFunding)
    );
    assert_eq!(project.claim_refund(true, &t("carol"), 1001), Err(Error::StillFunding));
}

#[test]
fn submission_after_expiry_is_rejected() {
    let mut project = campaign();
    assert_eq!(annotate(&mut project, "carol", "a", 1011), Err(Error::Expired));
    assert_eq!(project.stored_state(), State::Funding);
    assert_eq!(project.claim_refund(true, &t("carol"), 1011), Err(Error::Expired));
}

#[test]
fn submission_without_authorization_is_rejected_first() {
    let mut project = funded();
    assert_eq!(
        project.submit(false, &t("carol"), &t("nowhere"), 2, 1, 3, 4, &t(""), 1003),
        Err(Error::Unauthorized)
    );
    let mut early = campaign();
    assert_eq!(
        early.submit(false, &t("carol"), &t("a"), 2, 1, 3, 4, &t("cat"), 1001),
        Err(Error::Unauthorized)
    );
}

#[test]
fn annotation_without_label_is_rejected() {
    let mut project = funded();
    assert_eq!(
        project.submit(true, &t("carol"), &t("a"), 2, 1, 3, 4, &t(""), 1003),
        Err(Error::EmptyLabel)
    );
    assert_eq!(
        project.submit(true, &t("carol"), &t("nowhere"), 2, 1, 3, 4, &t(""), 1003),
        Err(Error::EmptyLabel)
    );
    assert_eq!(project.custody(), 100);
    assert!(!project.data_points().get(&t("a")).unwrap().annotated);
}

#[test]
fn annotation_for_an_unknown_item_is_rejected() {
    let mut project = funded();
    assert_eq!(annotate(&mut project, "carol", "nowhere", 1003), Err(Error::UnknownDataPoint));
    assert_eq!(project.custody(), 100);
    assert_eq!(project.stored_state(), State::Funding);
}

#[test]
fn last_unit_paid_makes_the_project_succeed() {
    let mut project = Project::new(0, t("r"), 10, 2, &vec![t("a")], t("n"), t("d"), 0);
    project.contribute(true, &t("alice"), 2, 1).unwrap();
    assert_eq!(annotate(&mut project, "carol", "a", 2).unwrap().custody, 1);
    assert_eq!(project.stored_state(), State::Annotating);
    assert_eq!(annotate(&mut project, "dave", "a", 3).unwrap().custody, 0);
    assert_eq!(project.stored_state(), State::Success);
    assert_eq!(project.state(4), State::Success);
    assert_eq!(
        project.submit_annotation(true, &t("erin"), &t("a"), 2, 1, 3, 4, &t("cat"), 5),
        Err(Error::MarketClosed)
    );
    assert_eq!(project.data_points().get(&t("a")).unwrap().annotations.len(), 2);
}

#[test]
fn submission_after_success_claims_a_refund() {
    let mut project = Project::new(0, t("r"), 10, 1, &vec![t("a")], t("n"), t("d"), 0);
    project.contribute(true, &t("alice"), 1, 1).unwrap();
    annotate(&mut project, "carol", "a", 2).unwrap();
    // dave never deposited: he is paid nothing, whatever label and item he names
    let nothing = project.submit(true, &t("dave"), &t("nowhere"), 2, 1, 3, 4, &t(""), 3);
    assert_eq!(nothing, Ok(Payout { amount: 0, custody: 0, refund: true }));
    assert_eq!(project.claim_refund(true, &t("dave"), 3), Ok(Payout { amount: 0, custody: 0, refund: true }));
    // alice's deposit was spent on rewards: custody cannot cover it
    assert_eq!(annotate(&mut project, "alice", "a", 3), Err(Error::InsufficientCustody));
    assert_eq!(project.claim_refund(true, &t("alice"), 3), Err(Error::InsufficientCustody));
    assert_eq!(project.contributions().get(&t("alice")), 1);
    assert_eq!(project.claim_refund(false, &t("dave"), 3), Err(Error::Unauthorized));
}

#[test]
fn refund_while_annotating_is_rejected() {
    let mut project = funded();
    assert_eq!(project.claim_refund(true, &t("alice"), 1003), Err(Error::StillAnnotating));
    assert_eq!(project.contributions().get(&t("alice")), 60);
}

#[test]
fn project_without_target_succeeds_with_nothing_in_escrow() {
    let mut project = Project::new(0, t("r"), 10, 0, &vec![t("a")], t("n"), t("d"), 0);
    assert_eq!(project.state(1), State::Success);
    assert_eq!(project.contribute(true, &t("alice"), 5, 1), Err(Error::NotFunding));
    assert_eq!(annotate(&mut project, "dave", "a", 2), Ok(Payout { amount: 0, custody: 0, refund: true }));
}

#[test]
fn withdrawal_pays_the_deposit_back_once() {
    let mut project = campaign();
    project.contribute(true, &t("alice"), 10, 1001).unwrap();
    project.contribute(true, &t("bob"), 20, 1002).unwrap();
    let first = project.withdraw(true, &t("alice"), 1011);
    assert_eq!(first, Ok(Payout { amount: 10, custody: 20, refund: true }));
    assert_eq!(project.stored_state(), State::Expired);
    let second = project.withdraw(true, &t("alice"), 1012);
    assert_eq!(second, Ok(Payout { amount: 0, custody: 20, refund: true }));
    assert_eq!(project.custody(), 20);
    assert_eq!(project.withdraw(true, &t("bob"), 1013), Ok(Payout { amount: 20, custody: 0, refund: true }));
    assert_eq!(project.withdraw(true, &t("carol"), 1014), Ok(Payout { amount: 0, custody: 0, refund: true }));
}

#[test]
fn withdrawal_before_expiry_is_rejected() {
    let mut project = campaign();
    project.contribute(true, &t("alice"), 10, 1001).unwrap();
    assert_eq!(project.withdraw(true, &t("alice"), 1010), Err(Error::NotExpired));
    assert_eq!(project.custody(), 10);
    let mut open = funded();
    assert_eq!(open.withdraw(true, &t("alice"), 5000), Err(Error::NotExpired));
}

#[test]
fn withdrawal_without_authorization_is_rejected() {
    let mut project = campaign();
    project.contribute(true, &t("alice"), 10, 1001).unwrap();
    assert_eq!(project.withdraw(false, &t("alice"), 1011), Err(Error::Unauthorized));
    assert_eq!(project.withdraw(false, &t("alice"), 1001), Err(Error::Unauthorized));
    assert_eq!(project.contributions().get(&t("alice")), 10);
}

#[test]
fn expired_project_stays_expired() {
    let mut project = campaign();
    project.contribute(true, &t("alice"), 10, 1001).unwrap();
    assert_eq!(project.state(1011), State::Expired);
    assert_eq!(project.state(0), State::Expired);
    assert_eq!(project.contribute(true, &t("bob"), 500, 1005), Err(Error::NotFunding));
    assert_eq!(annotate(&mut project, "carol", "a", 1005), Err(Error::Expired));
    project.withdraw(true, &t("alice"), 1005).unwrap();
    assert_eq!(project.state(2000), State::Expired);
}

#[test]
fn restore_puts_a_project_together_again() {
    let mut live = funded();
    annotate(&mut live, "carol", "a", 1003).unwrap();
    let restored = Project::restore(
        live.id(),
        live.name().clone(),
        live.description().clone(),
        live.recipient().clone(),
        live.started(),
        live.deadline(),
        live.target(),
        live.custody(),
        live.data_points().clone(),
        live.contributions().clone(),
        live.earnings().clone(),
        live.stored_state(),
    )
    .unwrap();
    assert_eq!(restored.custody(), 99);
    assert_eq!(restored.stored_state(), State::Annotating);
    assert_eq!(restored.contributions().get(&t("bob")), 40);
    assert_eq!(restored.data_points().get(&t("a")).unwrap().annotations.len(), 1);
}

fn stored(custody: i128, deposits: Vec<(&str, i128)>, annotations: usize, state: State) -> Option<Project> {
    let entries = deposits.into_iter().map(|(a, n)| Entry { account: t(a), amount: n }).collect();
    let mut tasks = TaskSet::seed(&vec![t("a"), t("b")]);
    for i in 0..annotations {
        let annotation = Annotation {
            annotator: t("carol"),
            posx: 1,
            posy: 2,
            width: 3,
            height: 4,
            label: t("cat"),
        };
        tasks.record(&t(if i % 2 == 0 { "a" } else { "b" }), annotation);
    }
    Project::restore(
        0,
        t("n"),
        t("d"),
        t("r"),
        0,
        10,
        100,
        custody,
        tasks,
        Ledger::from_entries(entries).unwrap(),
        Ledger::new(),
        state,
    )
}

#[test]
fn restore_checks_custody_against_the_ledger() {
    assert!(stored(30, vec![("alice", 10), ("bob", 20)], 0, State::Funding).is_some());
    assert!(stored(29, vec![("alice", 10), ("bob", 20)], 0, State::Funding).is_none());
    assert!(stored(31, vec![("alice", 10), ("bob", 20)], 0, State::Funding).is_none());
    assert!(stored(30, vec![("alice", 10), ("bob", 20)], 0, State::Expired).is_some());
    assert!(stored(0, vec![("alice", 10)], 0, State::Expired).is_none());
    assert!(stored(0, vec![], 0, State::Funding).is_some());
    assert!(stored(-1, vec![], 0, State::Funding).is_none());
    assert!(stored(5, vec![("alice", i128::MAX), ("bob", 1)], 0, State::Funding).is_none());
}

#[test]
fn restore_checks_custody_against_the_rewards_paid() {
    assert!(stored(150, vec![("alice", 150)], 0, State::Annotating).is_some());
    assert!(stored(147, vec![("alice", 150)], 3, State::Annotating).is_some());
    assert!(stored(148, vec![("alice", 150)], 3, State::Annotating).is_none());
    assert!(stored(146, vec![("alice", 150)], 3, State::Annotating).is_none());
    assert!(stored(151, vec![("alice", 150)], 0, State::Annotating).is_none());
    assert!(stored(0, vec![("alice", 3)], 3, State::Annotating).is_some());
    assert!(stored(0, vec![("alice", 3)], 3, State::Success).is_some());
    assert!(stored(0, vec![], 0, State::Success).is_some());
    assert!(stored(1, vec![("alice", 4)], 3, State::Success).is_none());
    assert!(stored(0, vec![("alice", 150)], 0, State::Success).is_none());
    assert!(stored(27, vec![("alice", 10), ("bob", 20)], 3, State::Funding).is_none());
    assert!(stored(27, vec![("alice", 10), ("bob", 20)], 3, State::Expired).is_none());
}

#[test]
fn deposits_are_in_custody_or_were_paid_as_rewards() {
    let mut project = funded();
    let mut now = 1003;
    for (who, cid) in [("carol", "a"), ("dave", "b"), ("carol", "b"), ("erin", "nowhere"), ("dave", "a")] {
        let _ = annotate(&mut project, who, cid, now);
        now += 1;
        let annotations = project.data_points().annotation_count().unwrap();
        let deposited = project.contributions().sum().unwrap();
        assert_eq!(project.custody() + annotations, deposited);
    }
    assert_eq!(project.custody(), 96);
    assert_eq!(project.data_points().annotation_count(), Some(4));
}

#[test]
fn project_copy_is_independent() {
    let mut project = campaign();
    let copy = project.clone();
    project.contribute(true, &t("alice"), 10, 1001).unwrap();
    assert_eq!(copy.custody(), 0);
    assert_eq!(copy.name(), "birds");
    assert_eq!(copy.data_points().len(), 2);
    assert_eq!(project.custody(), 10);
}
