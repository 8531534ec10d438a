use colabio::project::{Address, Project, ProjectStatus};
use colabio::{ColabioError, ColabioInstruction, Milestone};

fn addr(b: u8) -> Address {
    Address { bytes: [b; 32] }
}

fn milestone(name: &str, description: &str, amount: u64) -> Milestone {
    Milestone {
        name: name.to_string(),
        description: description.to_string(),
        amount,
        completed: false,
        validations: 0,
    }
}

fn push_string(out: &mut Vec<u8>, s: &str) {
    out.extend_from_slice(&(s.len() as u32).to_le_bytes());
    out.extend_from_slice(s.as_bytes());
}

fn init_payload(title: &str, description: &str, goal: u64, duration: u64, ms: &[(&str, &str, u64)]) -> Vec<u8> {
    let mut out = vec![0u8];
    push_string(&mut out, title);
    push_string(&mut out, description);
    out.extend_from_slice(&goal.to_le_bytes());
    out.extend_from_slice(&duration.to_le_bytes());
    out.push(ms.len() as u8);
    for (n, d, a) in ms {
        push_string(&mut out, n);
        push_string(&mut out, d);
        out.extend_from_slice(&a.to_le_bytes());
    }
    out
}

fn new_project(ms: Vec<Milestone>) -> Project {
    Project::initialize(true, addr(1), "t".to_string(), "d".to_string(), 1000, 86400, ms, 100).unwrap()
}

fn active_project(ms: Vec<Milestone>) -> Project {
    let mut p = new_project(ms);
    for _ in 0..10 {
        p.vote(true, addr(7), addr(9), true, 100).unwrap();
    }
    assert_eq!(p.status, ProjectStatus::Active);
    p
}

#[test]
fn unpack_initialize_project() {
    let data = init_payload("Title", "Desc", 1000, 86400, &[("m1", "first", 600), ("m2", "", 400)]);
    match ColabioInstruction::unpack(&data).unwrap() {
        ColabioInstruction::InitializeProject { title, description, goal_amount, duration, milestones } => {
            assert_eq!(title, "Title");
            assert_eq!(description, "Desc");
            assert_eq!(goal_amount, 1000);
            assert_eq!(duration, 86400);
            assert_eq!(milestones.len(), 2);
            assert_eq!(milestones[0].name, "m1");
            assert_eq!(milestones[0].description, "first");
            assert_eq!(milestones[0].amount, 600);
            assert_eq!(milestones[1].name, "m2");
            assert_eq!(milestones[1].amount, 400);
            assert!(milestones.iter().all(|m| !m.completed && m.validations == 0));
        }
        other => panic!("unexpected {:?}", other),
    }
}

#[test]
fn unpack_non_ascii_title() {
    let data = init_payload("héllo wörld", "", 5, 6, &[]);
    match ColabioInstruction::unpack(&data).unwrap() {
        ColabioInstruction::InitializeProject { title, .. } => assert_eq!(title, "héllo wörld"),
        other => panic!("unexpected {:?}", other),
    }
}

#[test]
fn unpack_invalid_utf8_is_malformed() {
    let mut data = vec![0u8];
    data.extend_from_slice(&2u32.to_le_bytes());
    data.extend_from_slice(&[0xff, 0xfe]);
    push_string(&mut data, "");
    data.extend_from_slice(&[0u8; 17]);
    assert_eq!(ColabioInstruction::unpack(&data).unwrap_err(), ColabioError::MalformedInstruction);
}

#[test]
fn unpack_small_instructions() {
    let mut c = vec![1u8];
    c.extend_from_slice(&700u64.to_le_bytes());
    assert!(matches!(ColabioInstruction::unpack(&c).unwrap(), ColabioInstruction::Contribute { amount: 700 }));
    assert!(matches!(ColabioInstruction::unpack(&[2, 4]).unwrap(), ColabioInstruction::ValidateMilestone { milestone_index: 4 }));
    assert!(matches!(ColabioInstruction::unpack(&[3, 1]).unwrap(), ColabioInstruction::ReleaseFunds { milestone_index: 1 }));
    assert!(matches!(ColabioInstruction::unpack(&[4]).unwrap(), ColabioInstruction::CancelProject {}));
    assert!(matches!(ColabioInstruction::unpack(&[5, 2]).unwrap(), ColabioInstruction::Vote { approve: true }));
    assert!(matches!(ColabioInstruction::unpack(&[5, 0]).unwrap(), ColabioInstruction::Vote { approve: false }));
}

#[test]
fn unpack_errors() {
    assert_eq!(ColabioInstruction::unpack(&[]).unwrap_err(), ColabioError::MalformedInstruction);
    assert_eq!(ColabioInstruction::unpack(&[6]).unwrap_err(), ColabioError::UnknownInstruction);
    assert_eq!(ColabioInstruction::unpack(&[255, 1, 2]).unwrap_err(), ColabioError::UnknownInstruction);
    assert_eq!(ColabioInstruction::unpack(&[1, 0, 0, 0]).unwrap_err(), ColabioError::MalformedInstruction);
    assert_eq!(ColabioInstruction::unpack(&[2]).unwrap_err(), ColabioError::MalformedInstruction);
    assert_eq!(ColabioInstruction::unpack(&[3]).unwrap_err(), ColabioError::MalformedInstruction);
    assert_eq!(ColabioInstruction::unpack(&[5]).unwrap_err(), ColabioError::MalformedInstruction);
}

#[test]
fn truncated_payloads_are_malformed() {
    let data = init_payload("Title", "Desc", 1000, 86400, &[("m1", "x", 600)]);
    assert!(ColabioInstruction::unpack(&data).is_ok());
    for k in 0..data.len() {
        assert_eq!(ColabioInstruction::unpack(&data[..k]).unwrap_err(), ColabioError::MalformedInstruction, "prefix {}", k);
    }
}

#[test]
fn pack_then_unpack_round_trips() {
    let instr = ColabioInstruction::InitializeProject {
        title: "Solar".to_string(),
        description: "panels ☀".to_string(),
        goal_amount: 123456789,
        duration: u64::MAX,
        milestones: vec![milestone("a", "b", 1), milestone("c", "", u64::MAX)],
    };
    let bytes = instr.pack();
    assert_eq!(bytes, init_payload("Solar", "panels ☀", 123456789, u64::MAX, &[("a", "b", 1), ("c", "", u64::MAX)]));
    match ColabioInstruction::unpack(&bytes).unwrap() {
        ColabioInstruction::InitializeProject { title, description, goal_amount, duration, milestones } => {
            assert_eq!(title, "Solar");
            assert_eq!(description, "panels ☀");
            assert_eq!(goal_amount, 123456789);
            assert_eq!(duration, u64::MAX);
            assert_eq!(milestones.len(), 2);
            assert_eq!(milestones[1].amount, u64::MAX);
        }
        other => panic!("unexpected {:?}", other),
    }
    assert_eq!(ColabioInstruction::Contribute { amount: 0x0102030405060708 }.pack(), vec![1, 8, 7, 6, 5, 4, 3, 2, 1]);
    assert_eq!(ColabioInstruction::Vote { approve: true }.pack(), vec![5, 1]);
    assert_eq!(ColabioInstruction::CancelProject {}.pack(), vec![4]);
}

#[test]
fn initialize_sets_fresh_state() {
    let p = Project::initialize(true, addr(1), "t".to_string(), "d".to_string(), 1000, 86400, vec![milestone("m1", "", 600)], 5000).unwrap();
    assert_eq!(p.status, ProjectStatus::Pending);
    assert_eq!(p.raised_amount, 0);
    assert_eq!(p.start_time, 5000);
    assert_eq!(p.end_time, 91400);
    assert_eq!(p.approve_votes, 0);
    assert_eq!(p.reject_votes, 0);
    assert_eq!(p.milestones.len(), 1);
    assert!(!p.milestones[0].completed);
    let e = Project::initialize(false, addr(1), "t".to_string(), "d".to_string(), 1, 1, vec![], 0).unwrap_err();
    assert_eq!(e, ColabioError::MissingSignature);
}

#[test]
fn contribute_requires_active_and_open() {
    let mut p = new_project(vec![milestone("m1", "", 600)]);
    assert_eq!(p.contribute(true, addr(2), addr(9), 100, 50).unwrap_err(), ColabioError::InvalidState);
    assert_eq!(p.raised_amount, 0);
    let mut p = active_project(vec![milestone("m1", "", 600)]);
    assert_eq!(p.contribute(false, addr(2), addr(9), 100, 50).unwrap_err(), ColabioError::MissingSignature);
    assert_eq!(p.contribute(true, addr(2), addr(9), p.end_time + 1, 50).unwrap_err(), ColabioError::InvalidState);
    assert_eq!(p.raised_amount, 0);
    let c = p.contribute(true, addr(2), addr(9), p.end_time, 50).unwrap();
    assert_eq!(p.raised_amount, 50);
    assert_eq!(c.amount, 50);
    assert_eq!(c.contributor.bytes, [2u8; 32]);
    assert_eq!(c.project.bytes, [9u8; 32]);
}

#[test]
fn validation_completes_on_third_call() {
    let mut p = active_project(vec![milestone("m1", "", 600), milestone("m2", "", 400)]);
    p.validate_milestone(true, addr(3), addr(9), 1, 200).unwrap();
    assert_eq!(p.milestones[1].validations, 1);
    assert!(!p.milestones[1].completed);
    p.validate_milestone(true, addr(3), addr(9), 1, 200).unwrap();
    assert!(!p.milestones[1].completed);
    let v = p.validate_milestone(true, addr(3), addr(9), 1, 200).unwrap();
    assert_eq!(v.milestone_index, 1);
    assert_eq!(p.milestones[1].validations, 3);
    assert!(p.milestones[1].completed);
    p.validate_milestone(true, addr(3), addr(9), 1, 200).unwrap();
    assert_eq!(p.milestones[1].validations, 4);
    assert!(p.milestones[1].completed);
    assert_eq!(p.milestones[0].validations, 0);
    assert_eq!(p.validate_milestone(true, addr(3), addr(9), 2, 200).unwrap_err(), ColabioError::IndexOutOfRange);
    let mut q = new_project(vec![milestone("m1", "", 600)]);
    assert_eq!(q.validate_milestone(true, addr(3), addr(9), 0, 200).unwrap_err(), ColabioError::InvalidState);
}

#[test]
fn ten_approvals_activate() {
    let mut p = new_project(vec![]);
    for _ in 0..9 {
        p.vote(true, addr(4), addr(9), false, 1).unwrap();
    }
    for i in 0..10 {
        assert_eq!(p.status, ProjectStatus::Pending, "after {} approvals", i);
        p.vote(true, addr(4), addr(9), true, 1).unwrap();
    }
    assert_eq!(p.status, ProjectStatus::Active);
    assert_eq!(p.approve_votes, 10);
    assert_eq!(p.reject_votes, 9);
    assert_eq!(p.vote(true, addr(4), addr(9), true, 1).unwrap_err(), ColabioError::InvalidState);
}

#[test]
fn ten_rejections_cancel() {
    let mut p = new_project(vec![]);
    for _ in 0..10 {
        p.vote(true, addr(4), addr(9), false, 1).unwrap();
    }
    assert_eq!(p.status, ProjectStatus::Cancelled);
    assert_eq!(p.vote(true, addr(4), addr(9), false, 1).unwrap_err(), ColabioError::InvalidState);
    assert_eq!(new_project(vec![]).vote(false, addr(4), addr(9), true, 1).unwrap_err(), ColabioError::MissingSignature);
}

#[test]
fn release_rules() {
    let mut p = active_project(vec![milestone("m1", "", 600), milestone("m2", "", 400)]);
    assert_eq!(p.release_funds(true, &addr(1), 0).unwrap_err(), ColabioError::MilestoneNotComplete);
    assert_eq!(p.release_funds(true, &addr(2), 0).unwrap_err(), ColabioError::NotOwner);
    assert_eq!(p.release_funds(false, &addr(1), 0).unwrap_err(), ColabioError::MissingSignature);
    assert_eq!(p.release_funds(true, &addr(1), 5).unwrap_err(), ColabioError::IndexOutOfRange);
    for _ in 0..3 {
        p.validate_milestone(true, addr(3), addr(9), 0, 1).unwrap();
    }
    assert_eq!(p.release_funds(true, &addr(1), 0).unwrap(), 600);
    assert_eq!(p.status, ProjectStatus::Active);
    for _ in 0..3 {
        p.validate_milestone(true, addr(3), addr(9), 1, 1).unwrap();
    }
    assert_eq!(p.release_funds(true, &addr(1), 1).unwrap(), 400);
    assert_eq!(p.status, ProjectStatus::Completed);
    assert_eq!(p.release_funds(true, &addr(1), 1).unwrap_err(), ColabioError::InvalidState);
}

#[test]
fn cancel_rules() {
    let mut p = new_project(vec![]);
    assert_eq!(p.cancel(true, &addr(2)).unwrap_err(), ColabioError::NotOwner);
    assert_eq!(p.cancel(false, &addr(1)).unwrap_err(), ColabioError::MissingSignature);
    p.cancel(true, &addr(1)).unwrap();
    assert_eq!(p.status, ProjectStatus::Cancelled);
    assert_eq!(p.cancel(true, &addr(1)).unwrap_err(), ColabioError::InvalidState);
    let mut q = active_project(vec![]);
    q.cancel(true, &addr(1)).unwrap();
    assert_eq!(q.status, ProjectStatus::Cancelled);
}

#[test]
fn same_as_compares_bytes() {
    let mut b = [1u8; 32];
    assert!(addr(1).same_as(&Address { bytes: b }));
    b[31] = 2;
    assert!(!addr(1).same_as(&Address { bytes: b }));
}

#[test]
fn end_to_end_single_milestone() {
    let data = init_payload("p", "", 1000, 86400, &[("m1", "", 600)]);
    let (title, description, goal_amount, duration, milestones) = match ColabioInstruction::unpack(&data).unwrap() {
        ColabioInstruction::InitializeProject { title, description, goal_amount, duration, milestones } => {
            (title, description, goal_amount, duration, milestones)
        }
        other => panic!("unexpected {:?}", other),
    };
    let now = 1_700_000_000u64;
    let mut p = Project::initialize(true, addr(1), title, description, goal_amount, duration, milestones, now).unwrap();
    assert_eq!(p.end_time, now + 86400);
    for _ in 0..10 {
        p.vote(true, addr(5), addr(9), true, now).unwrap();
    }
    assert_eq!(p.status, ProjectStatus::Active);
    p.contribute(true, addr(6), addr(9), now + 10, 700).unwrap();
    assert_eq!(p.raised_amount, 700);
    for _ in 0..3 {
        p.validate_milestone(true, addr(7), addr(9), 0, now + 20).unwrap();
    }
    assert!(p.milestones[0].completed);
    assert_eq!(p.release_funds(true, &addr(1), 0).unwrap(), 600);
    assert_eq!(p.status, ProjectStatus::Completed);
}

#[test]
fn creator_check_and_completion_queries() {
    let mut p = active_project(vec![milestone("m1", "", 1), milestone("m2", "", 2)]);
    assert_eq!(p.check_creator(true, &addr(1)), Ok(()));
    assert_eq!(p.check_creator(true, &addr(3)), Err(ColabioError::NotOwner));
    assert_eq!(p.check_creator(false, &addr(1)), Err(ColabioError::MissingSignature));
    assert!(!p.all_milestones_completed());
    for i in 0..2u8 {
        for _ in 0..3 {
            p.validate_milestone(true, addr(3), addr(9), i, 1).unwrap();
        }
    }
    assert!(p.all_milestones_completed());
    assert!(new_project(vec![]).all_milestones_completed());
}

#[test]
fn failed_calls_skip_overflowing_work() {
    let mut p = new_project(vec![milestone("m1", "", 1)]);
    p.raised_amount = u64::MAX;
    assert_eq!(p.contribute(true, addr(2), addr(9), 100, u64::MAX).unwrap_err(), ColabioError::InvalidState);
    assert_eq!(p.raised_amount, u64::MAX);
    let e = Project::initialize(false, addr(1), "t".to_string(), "d".to_string(), 1, u64::MAX, vec![], 1).unwrap_err();
    assert_eq!(e, ColabioError::MissingSignature);
    let mut q = active_project(vec![milestone("m1", "", 1)]);
    q.approve_votes = u32::MAX;
    assert_eq!(q.vote(true, addr(4), addr(9), true, 1).unwrap_err(), ColabioError::InvalidState);
    assert_eq!(q.approve_votes, u32::MAX);
}

#[test]
fn decoded_instruction_reencodes_identically() {
    let data = init_payload("é", "x", 7, 8, &[("n", "d", 9)]);
    let instr = ColabioInstruction::unpack(&data).unwrap();
    assert_eq!(instr.pack(), data);
    let mut longer = data.clone();
    longer.extend_from_slice(&[1, 2, 3]);
    assert_eq!(ColabioInstruction::unpack(&longer).unwrap().pack(), data);
}
