use open_annot::{DataAnnotate, Error, State};

fn n(value: &str) -> String {
    value.to_string()
}

const T: u64 = 1_700_000_000;

#[test]
fn funded_campaign_runs_until_the_escrow_is_used_up() {
    let mut engine = DataAnnotate::new(n("token"));
    let id = engine
        .initialize(n("recipient"), T + 10, 100, &vec![n("a")], n("birds"), n("label birds"), T)
        .unwrap();

    let first = engine.contribute(true, &n("alice"), 60, id, T + 1).unwrap();
    assert!(!first.target_reached);
    assert_eq!(engine.state(id, T + 1), Ok(State::Funding.ordinal()));
    assert_eq!(engine.balance(&n("alice"), id, T + 1), Ok(60));

    let second = engine.contribute(true, &n("bob"), 40, id, T + 2).unwrap();
    assert!(second.target_reached);
    assert_eq!(second.custody, 100);
    assert_eq!(engine.state(id, T + 2), Ok(State::Annotating.ordinal()));
    // the target is announced by the contribution that reaches it and by no other
    assert_eq!(engine.contribute(true, &n("erin"), 1, id, T + 2), Err(Error::NotFunding));

    let paid = engine.submit(true, &n("carol"), &n("a"), 0, 0, 5, 5, &n("cat"), id, T + 3).unwrap();
    assert_eq!(paid.amount, 1);
    assert_eq!(paid.custody, 99);
    assert!(!paid.refund);
    assert_eq!(engine.get_project(id).unwrap().data_points().get(&n("a")).unwrap().annotations.len(), 1);

    for i in 0..99u64 {
        let worker = format!("worker{}", i);
        let paid = engine.submit(true, &worker, &n("a"), 0, 0, 5, 5, &n("cat"), id, T + 4 + i).unwrap();
        assert_eq!(paid.amount, 1);
        assert_eq!(paid.custody, 98 - i as i128);
    }
    let project = engine.get_project(id).unwrap();
    assert_eq!(project.custody(), 0);
    assert_eq!(project.data_points().get(&n("a")).unwrap().annotations.len(), 100);
    assert_eq!(engine.state(id, T + 200), Ok(State::Success.ordinal()));

    let dave = engine.submit(true, &n("dave"), &n("a"), 0, 0, 5, 5, &n("cat"), id, T + 201).unwrap();
    assert_eq!(dave.amount, 0);
    assert_eq!(dave.custody, 0);
    assert!(dave.refund);
    assert_eq!(engine.state(id, T + 202), Ok(2));
}

#[test]
fn missed_deadline_lets_contributors_withdraw() {
    let mut engine = DataAnnotate::new(n("token"));
    let id = engine
        .initialize(n("recipient"), T + 1, 100, &Vec::new(), n("birds"), n("label birds"), T)
        .unwrap();
    engine.contribute(true, &n("alice"), 10, id, T).unwrap();
    assert_eq!(engine.state(id, T + 1), Ok(0));
    assert_eq!(engine.state(id, T + 2), Ok(State::Expired.ordinal()));
    let first = engine.withdraw(true, &n("alice"), id, T + 2).unwrap();
    assert_eq!(first.amount, 10);
    assert_eq!(first.custody, 0);
    let second = engine.withdraw(true, &n("alice"), id, T + 3).unwrap();
    assert_eq!(second.amount, 0);
    assert_eq!(second.custody, 0);
    assert_eq!(engine.state(id, T + 4), Ok(3));
}

#[test]
fn contributions_that_reach_the_target_open_annotation_whenever_it_is_seen() {
    let mut engine = DataAnnotate::new(n("token"));
    let id = engine.initialize(n("r"), T + 10, 100, &vec![n("a")], n("x"), n("y"), T).unwrap();
    for (i, amount) in [30i128, 30, 30, 30].into_iter().enumerate() {
        let deposit = engine.contribute(true, &n("alice"), amount, id, T + i as u64).unwrap();
        assert_eq!(deposit.target_reached, i == 3);
    }
    // the state was never asked for in between, and is asked for only long after the deadline
    assert_eq!(engine.get_project(id).unwrap().stored_state(), State::Funding);
    assert_eq!(engine.state(id, T + 1000), Ok(1));
    assert_eq!(engine.state(id, T), Ok(1));
    assert_eq!(engine.contribute(true, &n("bob"), 1, id, T + 5), Err(Error::NotFunding));
    assert_eq!(engine.state(id, T + 5), Ok(1));
}

#[test]
fn state_never_goes_back_to_funding() {
    let mut engine = DataAnnotate::new(n("token"));
    let id = engine.initialize(n("r"), T + 10, 3, &vec![n("a")], n("x"), n("y"), T).unwrap();
    let mut last = 0u32;
    let calls: Vec<(&str, i128, u64)> = vec![
        ("contribute", 1, T + 1),
        ("submit", 0, T + 2),
        ("withdraw", 0, T + 2),
        ("contribute", 2, T + 3),
        ("contribute", 5, T + 4),
        ("submit", 0, T + 5),
        ("withdraw", 0, T + 50),
        ("submit", 0, T + 6),
        ("submit", 0, T + 7),
        ("submit", 0, T + 8),
        ("contribute", 5, T + 9),
        ("withdraw", 0, T + 1),
    ];
    for (call, amount, now) in calls {
        match call {
            "contribute" => {
                let _ = engine.contribute(true, &n("alice"), amount, id, now);
            }
            "submit" => {
                let _ = engine.submit(true, &n("carol"), &n("a"), 0, 0, 1, 1, &n("cat"), id, now);
            }
            _ => {
                let _ = engine.withdraw(true, &n("alice"), id, now);
            }
        }
        let seen = engine.state(id, now).unwrap();
        assert!(seen >= last);
        assert_ne!(seen, 3);
        last = seen;
    }
    assert_eq!(last, 2);
    assert_eq!(engine.state(id, 0), Ok(2));
}
