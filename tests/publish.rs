use psqlpack::publish::PublishAction::{Begin, Commit, Rollback, Run, Stop};
use psqlpack::publish::{group_statements, PublishAction, PublishCursor, PublishEvent, Statement, StatementGroup};

fn stmt(sql: &str, concurrent: bool) -> Statement {
    Statement { sql: sql.to_string(), concurrent }
}

fn shape(statements: Vec<Statement>) -> Vec<(bool, Vec<String>)> {
    group_statements(statements)
        .into_iter()
        .map(|g| (g.transactional, g.statements.into_iter().map(|s| s.sql).collect()))
        .collect()
}

#[test]
fn concurrent_index_stands_alone() {
    let groups = shape(vec![
        stmt("CREATE TABLE t (a int);", false),
        stmt("CREATE INDEX CONCURRENTLY ix ON t(a);", true),
        stmt("CREATE FUNCTION f() RETURNS int AS $$ SELECT 1 $$ LANGUAGE sql;", false),
    ]);
    assert_eq!(
        groups,
        vec![
            (true, vec!["CREATE TABLE t (a int);".to_string()]),
            (false, vec!["CREATE INDEX CONCURRENTLY ix ON t(a);".to_string()]),
            (true, vec!["CREATE FUNCTION f() RETURNS int AS $$ SELECT 1 $$ LANGUAGE sql;".to_string()]),
        ]
    );
}

#[test]
fn consecutive_statements_share_a_transaction() {
    let groups = shape(vec![stmt("a", false), stmt("b", false), stmt("c", true), stmt("d", true)]);
    assert_eq!(
        groups,
        vec![
            (true, vec!["a".to_string(), "b".to_string()]),
            (false, vec!["c".to_string()]),
            (false, vec!["d".to_string()]),
        ]
    );
}

#[test]
fn no_statements_no_groups() {
    assert!(group_statements(vec![]).is_empty());
}

fn three_groups() -> Vec<StatementGroup> {
    group_statements(vec![stmt("a", false), stmt("b", false), stmt("c", true), stmt("d", false)])
}

fn drive(groups: &Vec<StatementGroup>, fail_at: Option<usize>, cancel_at: Option<usize>) -> Vec<PublishAction> {
    let mut cursor = PublishCursor::start(groups);
    let mut seen = vec![cursor.pending];
    let mut step = 0;
    while !matches!(cursor.pending, PublishAction::Stop { .. }) {
        if cancel_at == Some(step) {
            cursor.request_cancel();
        }
        let event = if fail_at == Some(step) { PublishEvent::Failed } else { PublishEvent::Succeeded };
        seen.push(cursor.advance(groups, event));
        step += 1;
    }
    seen
}

#[test]
fn publish_runs_every_group_in_order() {
    assert_eq!(
        drive(&three_groups(), None, None),
        vec![
            Begin,
            Run { group: 0, statement: 0 },
            Run { group: 0, statement: 1 },
            Commit,
            Run { group: 1, statement: 0 },
            Begin,
            Run { group: 2, statement: 0 },
            Commit,
            Stop { completed: 3, failed: false },
        ]
    );
}

#[test]
fn failure_inside_a_transaction_rolls_back_and_halts() {
    assert_eq!(
        drive(&three_groups(), Some(2), None),
        vec![
            Begin,
            Run { group: 0, statement: 0 },
            Run { group: 0, statement: 1 },
            Rollback,
            Stop { completed: 0, failed: true },
        ]
    );
}

#[test]
fn failure_of_a_concurrent_build_halts() {
    assert_eq!(
        drive(&three_groups(), Some(4), None),
        vec![
            Begin,
            Run { group: 0, statement: 0 },
            Run { group: 0, statement: 1 },
            Commit,
            Run { group: 1, statement: 0 },
            Stop { completed: 1, failed: true },
        ]
    );
}

#[test]
fn cancel_waits_for_the_group_to_finish() {
    assert_eq!(
        drive(&three_groups(), None, Some(1)),
        vec![
            Begin,
            Run { group: 0, statement: 0 },
            Run { group: 0, statement: 1 },
            Commit,
            Stop { completed: 1, failed: false },
        ]
    );
}

#[test]
fn nothing_to_publish() {
    assert_eq!(drive(&vec![], None, None), vec![PublishAction::Stop { completed: 0, failed: false }]);
}
