use nextdb_server::json::JsonValue;
use nextdb_server::schema_proposals::{
    SchemaApplyReport, SchemaProposal, SchemaProposalPhase, abort_schema_proposal, abort_schema_proposal_peer,
    check_schema_commit, commit_schema_proposal_peer, finish_schema_prepare, record_schema_commit,
    record_schema_commit_failure, required_schema_proposal_acks, schema_proposal_reason,
};
use nextdb_server::topology::TopologyPropagationResult;

fn result(applied: bool) -> TopologyPropagationResult {
    TopologyPropagationResult { node_id: "n".to_string(), url: "u".to_string(), applied, status: None, error: None }
}

fn proposal(required: usize) -> SchemaProposal {
    SchemaProposal {
        id: "s1".to_string(),
        created_at_ms: 1,
        updated_at_ms: 1,
        proposed_by: "n1".to_string(),
        reason: schema_proposal_reason(None),
        phase: SchemaProposalPhase::Prepared,
        expected_version: Some(3),
        allow_breaking_replay: false,
        schema: JsonValue::Null,
        report: JsonValue::Null,
        migration: JsonValue::Null,
        projection_rebuilt: false,
        projection_status: JsonValue::Null,
        prepare_acks: vec![result(true)],
        commit_acks: vec![],
        required_acks: required,
        schema_audit_lsn: None,
        peer_preflight: None,
        last_error: None,
    }
}

fn applied() -> SchemaApplyReport {
    SchemaApplyReport {
        report: JsonValue::Bool(true),
        migration: JsonValue::Null,
        projection_rebuilt: true,
        projection_status: JsonValue::Null,
        schema_audit_lsn: Some(12),
        peer_preflight: None,
    }
}

#[test]
fn schema_proposals_prepare_and_commit_with_a_quorum() {
    assert_eq!(schema_proposal_reason(Some("  ".to_string())), "operator schema proposal");
    assert_eq!(schema_proposal_reason(Some(" add index ".to_string())), " add index ");
    assert_eq!(required_schema_proposal_acks(true, 1), 2);
    assert_eq!(required_schema_proposal_acks(false, 5), 1);

    let mut p = proposal(2);
    assert!(!finish_schema_prepare(&mut p, vec![result(true), result(false)], 5));
    assert_eq!(check_schema_commit(&p).ok(), Some(true));
    record_schema_commit(&mut p, applied(), result(true), vec![result(false)], 6);
    assert_eq!(p.phase, SchemaProposalPhase::Committed);
    assert_eq!(p.last_error, Some("schema proposal commit requires 2 acks, got 1".to_string()));
    assert_eq!(p.schema_audit_lsn, Some(12));
    assert_eq!(check_schema_commit(&p).ok(), Some(false));
    assert_eq!(abort_schema_proposal(&mut p, 7).unwrap_err().message, "committed schema proposal cannot be aborted");
    assert!(!abort_schema_proposal_peer(&mut p, 7));
    assert_eq!(p.phase, SchemaProposalPhase::Committed);

    let mut q = proposal(3);
    assert!(finish_schema_prepare(&mut q, vec![result(false)], 5));
    assert_eq!(q.last_error, Some("schema proposal prepare requires 3 acks, got 1".to_string()));
    assert_eq!(check_schema_commit(&q).unwrap_err().message, "failed schema proposal cannot be committed");
}

#[test]
fn aborted_schema_proposals_are_never_committed() {
    let mut p = proposal(1);
    assert!(abort_schema_proposal(&mut p, 3).is_ok());
    assert_eq!(p.last_error, Some("aborted by operator".to_string()));
    assert_eq!(check_schema_commit(&p).unwrap_err().message, "aborted schema proposal cannot be committed");
    let mut copy = proposal(1);
    let e = commit_schema_proposal_peer(Some(SchemaProposalPhase::Aborted), &mut copy, 4).unwrap_err();
    assert_eq!(e.message, "aborted schema proposal cannot be committed");
    assert!(commit_schema_proposal_peer(None, &mut copy, 4).is_ok());
    assert_eq!(copy.phase, SchemaProposalPhase::Committed);
    let mut other = proposal(1);
    assert!(abort_schema_proposal_peer(&mut other, 9));
    assert_eq!(other.last_error, Some("aborted by coordinator".to_string()));
    let mut failed = proposal(1);
    record_schema_commit_failure(&mut failed, "schema version conflict".to_string(), 9);
    assert_eq!(failed.phase, SchemaProposalPhase::Failed);
}
