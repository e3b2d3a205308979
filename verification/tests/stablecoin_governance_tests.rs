use pi_stellar_nexus::stablecoin::governance::Governance;

#[test]
fn governance_test_create_proposal() {
    let mut governance = Governance::new();
    governance.create_proposal("1".to_string(), "Test proposal".to_string());

    let proposal = governance.get_results("1").unwrap();
    assert_eq!(proposal.description, "Test proposal");
    assert_eq!(proposal.votes_for, 0);
    assert_eq!(proposal.votes_against, 0);
}

#[test]
fn test_vote() {
    let mut governance = Governance::new();
    governance.create_proposal("1".to_string(), "Test proposal".to_string());
    governance.vote("1".to_string(), "voter1".to_string(), true);

    let proposal = governance.get_results("1").unwrap();
    assert_eq!(proposal.votes_for, 1);
    assert_eq!(proposal.votes_against, 0);

    let votes = governance.get_votes("1").unwrap();
    assert_eq!(votes.len(), 1);
    assert_eq!(votes[0].voter, "voter1");
    assert!(votes[0].support);
}

#[test]
fn test_governance() {
    let mut governance = Governance::new();
    governance.create_proposal("1".to_string(), "Increase supply".to_string());

    governance.vote("1".to_string(), "voter1".to_string(), true);
    governance.vote("1".to_string(), "voter2".to_string(), false);

    let results = governance.get_results("1").expect("Failed to get results");
    assert_eq!(results.votes_for, 1);
    assert_eq!(results.votes_against, 1);
}

// Every vote is counted, also a second one by the same voter; the record
// keeps one vote per voter, the latest.
#[test]
fn test_governance_multiple_votes() {
    let mut governance = Governance::new();
    governance.create_proposal("2".to_string(), "Decrease supply".to_string());

    governance.vote("2".to_string(), "voter1".to_string(), true);
    governance.vote("2".to_string(), "voter1".to_string(), false);

    let results = governance.get_results("2").expect("Failed to get results");
    assert_eq!(results.votes_for, 1);
    assert_eq!(results.votes_against, 1);

    let votes = governance.get_votes("2").unwrap();
    assert_eq!(votes.len(), 1);
    assert_eq!(votes[0].voter, "voter1");
    assert!(!votes[0].support);
}

#[test]
fn votes_on_unknown_proposals_are_dropped() {
    let mut governance = Governance::new();
    governance.vote("9".to_string(), "voter1".to_string(), true);
    assert!(governance.get_results("9").is_none());
    assert!(governance.get_votes("9").is_none());
}

#[test]
fn a_proposal_without_votes_has_no_record() {
    let mut governance = Governance::new();
    governance.create_proposal("1".to_string(), "Test".to_string());
    assert!(governance.get_votes("1").is_none());
}

#[test]
fn filing_again_resets_the_count_and_keeps_the_record() {
    let mut governance = Governance::new();
    governance.create_proposal("1".to_string(), "First".to_string());
    governance.vote("1".to_string(), "a".to_string(), true);
    governance.vote("1".to_string(), "b".to_string(), false);
    governance.create_proposal("1".to_string(), "Second".to_string());
    let proposal = governance.get_results("1").unwrap();
    assert_eq!(proposal.id, "1");
    assert_eq!(proposal.description, "Second");
    assert_eq!(proposal.votes_for, 0);
    assert_eq!(proposal.votes_against, 0);
    let votes = governance.get_votes("1").unwrap();
    assert_eq!(votes.len(), 2);
    assert_eq!(votes[0].voter, "a");
    assert_eq!(votes[1].voter, "b");
    assert!(!votes[1].support);
}
