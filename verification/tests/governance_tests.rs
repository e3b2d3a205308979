use pi_stellar_nexus::governance::Governance;
use std::time::Duration;

#[test]
fn governance_tests_test_create_proposal() {
    let mut governance = Governance::new();
    let proposal_id =
        governance.create_proposal("Increase community funding".to_string(), Duration::new(60, 0));

    let proposal = governance.get_proposal(proposal_id).unwrap();
    assert_eq!(proposal.description, "Increase community funding");
    assert_eq!(proposal.votes_for, 0);
    assert_eq!(proposal.votes_against, 0);
    assert!(proposal.is_active);
}

#[test]
fn test_vote_for_proposal() {
    let mut governance = Governance::new();
    let proposal_id =
        governance.create_proposal("Increase community funding".to_string(), Duration::new(60, 0));

    governance.vote(proposal_id, true).unwrap();
    let proposal = governance.get_proposal(proposal_id).unwrap();
    assert_eq!(proposal.votes_for, 1);
    assert_eq!(proposal.votes_against, 0);
}

#[test]
fn test_vote_against_proposal() {
    let mut governance = Governance::new();
    let proposal_id =
        governance.create_proposal("Increase community funding".to_string(), Duration::new(60, 0));

    governance.vote(proposal_id, false).unwrap();
    let proposal = governance.get_proposal(proposal_id).unwrap();
    assert_eq!(proposal.votes_for, 0);
    assert_eq!(proposal.votes_against, 1);
}

#[test]
fn test_close_proposal() {
    let mut governance = Governance::new();
    let proposal_id =
        governance.create_proposal("Increase community funding".to_string(), Duration::new(60, 0));

    governance.close_proposal(proposal_id).unwrap();
    let proposal = governance.get_proposal(proposal_id).unwrap();
    assert!(!proposal.is_active);
}

#[test]
fn test_vote_on_closed_proposal() {
    let mut governance = Governance::new();
    let proposal_id =
        governance.create_proposal("Increase community funding".to_string(), Duration::new(60, 0));

    governance.close_proposal(proposal_id).unwrap();
    let result = governance.vote(proposal_id, true);
    assert!(result.is_err());
    assert_eq!(result.err().unwrap(), "Proposal is no longer active.");
}

#[test]
fn test_get_active_proposals() {
    let mut governance = Governance::new();
    let proposal_id1 =
        governance.create_proposal("Increase community funding".to_string(), Duration::new(60, 0));
    let proposal_id2 =
        governance.create_proposal("Improve community safety".to_string(), Duration::new(60, 0));

    let active_proposals = governance.get_active_proposals();
    assert_eq!(active_proposals.len(), 2);

    governance.close_proposal(proposal_id1).unwrap();
    let active_proposals_after_closing = governance.get_active_proposals();
    assert_eq!(active_proposals_after_closing.len(), 1);
    assert_eq!(active_proposals_after_closing[0].id, proposal_id2);
}

#[test]
fn test_get_nonexistent_proposal() {
    let governance = Governance::new();
    let proposal = governance.get_proposal(999);
    assert!(proposal.is_none());
}

// A proposal with a voting window of no length is created active; the first
// vote finds the window run out, closes the proposal and fails.
#[test]
fn test_create_proposal_with_zero_duration() {
    let mut governance = Governance::new();
    let proposal_id =
        governance.create_proposal("Instant proposal".to_string(), Duration::new(0, 0));

    let result = governance.vote(proposal_id, true);
    assert_eq!(result.err().unwrap(), "Voting period has expired.");

    let proposal = governance.get_proposal(proposal_id).unwrap();
    assert!(!proposal.is_active);
    assert_eq!(proposal.votes_for, 0);
    assert!(governance.get_active_proposals().is_empty());
}

#[test]
fn ids_are_handed_out_from_one() {
    let mut governance = Governance::new();
    assert_eq!(governance.create_proposal("a".to_string(), Duration::new(60, 0)), 1);
    assert_eq!(governance.create_proposal("b".to_string(), Duration::new(60, 0)), 2);
    assert_eq!(governance.create_proposal("c".to_string(), Duration::new(60, 0)), 3);
    let active = governance.get_active_proposals();
    assert_eq!(active.iter().map(|p| p.id).collect::<Vec<u32>>(), vec![1, 2, 3]);
}

#[test]
fn votes_on_unknown_proposals_fail() {
    let mut governance = Governance::new();
    assert_eq!(governance.vote(1, true).unwrap_err(), "Proposal not found.");
    assert_eq!(governance.vote_after(0, false, 0).unwrap_err(), "Proposal not found.");
    assert_eq!(governance.close_proposal(1).unwrap_err(), "Proposal not found.");
}

#[test]
fn a_vote_inside_the_window_counts() {
    let mut governance = Governance::new();
    let id = governance.create_proposal("a".to_string(), Duration::new(60, 0));
    assert!(governance.vote_after(id, true, 0).is_ok());
    assert!(governance.vote_after(id, true, 59_999_999_999).is_ok());
    // the window is closed above its length, not at it
    assert!(governance.vote_after(id, false, 60_000_000_000).is_ok());
    let proposal = governance.get_proposal(id).unwrap();
    assert_eq!(proposal.votes_for, 2);
    assert_eq!(proposal.votes_against, 1);
    assert!(proposal.is_active);
}

#[test]
fn a_vote_after_the_window_closes_the_proposal() {
    let mut governance = Governance::new();
    let id = governance.create_proposal("a".to_string(), Duration::new(60, 0));
    governance.vote_after(id, true, 1).unwrap();
    let result = governance.vote_after(id, true, 60_000_000_001);
    assert_eq!(result.unwrap_err(), "Voting period has expired.");
    let proposal = governance.get_proposal(id).unwrap();
    assert!(!proposal.is_active);
    assert_eq!(proposal.votes_for, 1);
    // from now on the proposal is closed, whatever the time
    assert_eq!(governance.vote_after(id, true, 0).unwrap_err(), "Proposal is no longer active.");
    assert!(governance.get_active_proposals().is_empty());
}

#[test]
fn a_window_of_no_length_has_run_out_at_once() {
    let mut governance = Governance::new();
    let id = governance.create_proposal("a".to_string(), Duration::new(0, 0));
    assert_eq!(governance.get_active_proposals().len(), 1);
    assert_eq!(governance.vote_after(id, true, 0).unwrap_err(), "Voting period has expired.");
    assert!(governance.get_active_proposals().is_empty());
}

#[test]
fn test_vote_after_voting_period_expires() {
    let mut governance = Governance::new();
    let proposal_id = governance
        .create_proposal("Increase community funding".to_string(), Duration::new(0, 1_000_000));

    let start = std::time::Instant::now();
    while start.elapsed() < Duration::new(0, 5_000_000) {}

    let result = governance.vote(proposal_id, true);
    assert!(result.is_err());
    assert_eq!(result.err().unwrap(), "Voting period has expired.");
}

#[test]
fn closing_twice_succeeds() {
    let mut governance = Governance::new();
    let id = governance.create_proposal("a".to_string(), Duration::new(60, 0));
    assert!(governance.close_proposal(id).is_ok());
    assert!(governance.close_proposal(id).is_ok());
    assert!(!governance.get_proposal(id).unwrap().is_active);
}

#[test]
fn a_snapshot_does_not_follow_later_changes() {
    let mut governance = Governance::new();
    let id = governance.create_proposal("a".to_string(), Duration::new(60, 0));
    let snapshot = governance.get_active_proposals();
    governance.vote(id, true).unwrap();
    governance.close_proposal(id).unwrap();
    assert_eq!(snapshot.len(), 1);
    assert!(snapshot[0].is_active);
    assert_eq!(snapshot[0].votes_for, 0);
}

#[test]
fn results_show_the_tallies() {
    let mut governance = Governance::new();
    let id = governance.create_proposal("a".to_string(), Duration::new(60, 0));
    governance.vote(id, true).unwrap();
    governance.vote(id, true).unwrap();
    governance.vote(id, false).unwrap();
    let results = governance.get_results(id).unwrap();
    assert_eq!(results.votes_for, 2);
    assert_eq!(results.votes_against, 1);
    assert!(governance.get_results(id + 1).is_none());
    assert_eq!(governance.get_next_id(), 2);
}
