//! The statements of a publish, cut into the groups that run one after the
//! other: a transaction each, but for a concurrent index build, which cannot
//! run inside a transaction and so stands alone.

use vstd::prelude::*;

verus! {

/// One DDL statement of a migration.
pub struct Statement {
    pub sql: String,
    /// A concurrent index build, which must run outside any transaction.
    pub concurrent: bool,
}

/// Statements that run together, inside one transaction or outside any.
pub struct StatementGroup {
    pub transactional: bool,
    pub statements: Vec<Statement>,
}

/// The statements of `groups`, group after group.
pub open spec fn flatten(groups: Seq<StatementGroup>) -> Seq<Statement>
    decreases groups.len(),
{
    if groups.len() == 0 {
        Seq::empty()
    } else {
        flatten(groups.drop_last()) + groups.last().statements@
    }
}

/// A transactional group holds no concurrent statement; any other group holds
/// exactly one statement, a concurrent one. No group is empty.
pub open spec fn group_well_formed(g: StatementGroup) -> bool {
    &&& g.statements@.len() > 0
    &&& g.transactional ==> forall|i: int|
        0 <= i < g.statements@.len() ==> !(#[trigger] g.statements@[i]).concurrent
    &&& !g.transactional ==> g.statements@.len() == 1 && g.statements@[0].concurrent
}

/// No two transactional groups follow each other: a transaction runs as long
/// as it can.
pub open spec fn groups_maximal(groups: Seq<StatementGroup>) -> bool {
    forall|i: int|
        0 <= i < groups.len() - 1 ==> !(#[trigger] groups[i].transactional && groups[i
            + 1].transactional)
}

/// Cuts `statements` into groups: each run of statements that are safe inside
/// a transaction forms one transactional group, and each concurrent index
/// build forms a non-transactional group of its own. The order is kept.
pub fn group_statements(statements: Vec<Statement>) -> (r: Vec<StatementGroup>)
    ensures
        flatten(r@) == statements@,
        forall|i: int| 0 <= i < r@.len() ==> group_well_formed(#[trigger] r@[i]),
        groups_maximal(r@),
{
    let ghost all = statements@;
    let mut rest = statements;
    let mut groups: Vec<StatementGroup> = Vec::new();
    let mut current: Vec<Statement> = Vec::new();
    assert(flatten(groups@) + current@ + rest@ =~= all);
    while rest.len() > 0
        invariant
            flatten(groups@) + current@ + rest@ == all,
            forall|i: int| 0 <= i < groups@.len() ==> group_well_formed(#[trigger] groups@[i]),
            groups_maximal(groups@),
            forall|i: int| 0 <= i < current@.len() ==> !(#[trigger] current@[i]).concurrent,
            groups@.len() > 0 ==> !groups@.last().transactional,
        decreases rest@.len(),
    {
        let ghost before_rest = rest@;
        let s = rest.remove(0);
        assert(before_rest =~= seq![s] + rest@);
        if s.concurrent {
            if current.len() > 0 {
                let ghost before = groups@;
                let ghost pending = current@;
                let closed = StatementGroup { transactional: true, statements: current };
                groups.push(closed);
                assert(groups@.drop_last() =~= before);
                assert(flatten(groups@) == flatten(before) + pending);
                current = Vec::new();
                assert(flatten(groups@) + current@ + before_rest =~= all);
            }
            let ghost before = groups@;
            let single = StatementGroup { transactional: false, statements: vec![s] };
            assert(single.statements@ =~= seq![s]);
            groups.push(single);
            assert(groups@.drop_last() =~= before);
            assert(flatten(groups@) == flatten(before) + seq![s]);
            assert(flatten(groups@) + current@ + rest@ =~= all);
        } else {
            current.push(s);
            assert(flatten(groups@) + current@ + rest@ =~= all);
        }
    }
    if current.len() > 0 {
        let ghost before = groups@;
        let ghost pending = current@;
        groups.push(StatementGroup { transactional: true, statements: current });
        assert(groups@.drop_last() =~= before);
        assert(flatten(groups@) == flatten(before) + pending);
        assert(flatten(groups@) =~= all);
    } else {
        assert(flatten(groups@) =~= all);
    }
    groups
}

/// What the runner of a publish does next.
#[derive(Clone, Copy, Debug, PartialEq, Eq, Structural)]
pub enum PublishAction {
    /// Open a transaction for the current group.
    Begin,
    /// Run one statement.
    Run { group: usize, statement: usize },
    /// Commit the current group's transaction.
    Commit,
    /// Roll back the current group's transaction after a failure.
    Rollback,
    /// The publish is over: `completed` groups were applied, and it `failed` or not.
    Stop { completed: usize, failed: bool },
}

/// How the last action went.
#[derive(Clone, Copy, Debug, PartialEq, Eq, Structural)]
pub enum PublishEvent {
    Succeeded,
    Failed,
}

/// Where a publish stands: the current group and statement, whether a
/// transaction is open, whether a cancellation was asked for, and the action
/// that the runner is to perform.
#[derive(Clone, Copy, Debug, PartialEq, Eq, Structural)]
pub struct PublishCursor {
    pub group: usize,
    pub statement: usize,
    pub in_transaction: bool,
    pub cancel_requested: bool,
    pub pending: PublishAction,
}

/// Moving to group `g`: stop if a cancellation was asked for or no group is
/// left, else open a transaction or run the group's only statement.
pub open spec fn start_group(groups: Seq<StatementGroup>, c: PublishCursor, g: int) -> PublishCursor {
    let next = if c.cancel_requested || g >= groups.len() {
        PublishAction::Stop { completed: g as usize, failed: false }
    } else if groups[g].transactional {
        PublishAction::Begin
    } else {
        PublishAction::Run { group: g as usize, statement: 0 }
    };
    PublishCursor { group: g as usize, statement: 0, in_transaction: false, pending: next, ..c }
}

pub open spec fn stop_failed(c: PublishCursor) -> PublishCursor {
    PublishCursor {
        in_transaction: false,
        pending: PublishAction::Stop { completed: c.group, failed: true },
        ..c
    }
}

/// The cursor after the pending action went as `event` says. A failed
/// statement inside a transaction rolls the group back; every other failure,
/// and the end of a rollback, stops the publish. Groups already committed stay.
pub open spec fn publish_step(
    groups: Seq<StatementGroup>,
    c: PublishCursor,
    event: PublishEvent,
) -> PublishCursor {
    match c.pending {
        PublishAction::Stop { .. } => c,
        PublishAction::Begin => match event {
            PublishEvent::Succeeded => PublishCursor {
                in_transaction: true,
                pending: PublishAction::Run { group: c.group, statement: 0 },
                ..c
            },
            PublishEvent::Failed => stop_failed(c),
        },
        PublishAction::Run { group, statement } => match event {
            PublishEvent::Succeeded => if statement + 1 < groups[group as int].statements@.len() {
                PublishCursor {
                    statement: (statement + 1) as usize,
                    pending: PublishAction::Run { group, statement: (statement + 1) as usize },
                    ..c
                }
            } else if c.in_transaction {
                PublishCursor { pending: PublishAction::Commit, ..c }
            } else {
                start_group(groups, c, group + 1)
            },
            PublishEvent::Failed => if c.in_transaction {
                PublishCursor { pending: PublishAction::Rollback, ..c }
            } else {
                stop_failed(c)
            },
        },
        PublishAction::Commit => match event {
            PublishEvent::Succeeded => start_group(groups, c, c.group + 1),
            PublishEvent::Failed => stop_failed(c),
        },
        PublishAction::Rollback => stop_failed(c),
    }
}

/// The bounds a cursor keeps: a statement runs inside a transaction exactly
/// when its group is transactional, and only groups that exist are named.
pub open spec fn cursor_ok(groups: Seq<StatementGroup>, c: PublishCursor) -> bool {
    &&& c.group <= groups.len()
    &&& match c.pending {
        PublishAction::Begin => c.group < groups.len() && groups[c.group as int].transactional
            && !c.in_transaction && c.statement == 0,
        PublishAction::Run { group, statement } => group == c.group && group < groups.len()
            && statement == c.statement && statement < groups[group as int].statements@.len()
            && c.in_transaction == groups[group as int].transactional,
        PublishAction::Commit => c.group < groups.len() && c.in_transaction,
        PublishAction::Rollback => c.group < groups.len() && c.in_transaction,
        PublishAction::Stop { completed, .. } => completed <= groups.len() && !c.in_transaction,
    }
}

pub open spec fn groups_non_empty(groups: Seq<StatementGroup>) -> bool {
    forall|i: int| 0 <= i < groups.len() ==> (#[trigger] groups[i]).statements@.len() > 0
}

fn start_group_exec(groups: &Vec<StatementGroup>, c: PublishCursor, g: usize) -> (r: PublishCursor)
    requires
        g <= groups@.len(),
        groups_non_empty(groups@),
    ensures
        r == start_group(groups@, c, g as int),
        cursor_ok(groups@, r),
{
    let next = if c.cancel_requested || g >= groups.len() {
        PublishAction::Stop { completed: g, failed: false }
    } else if groups[g].transactional {
        PublishAction::Begin
    } else {
        PublishAction::Run { group: g, statement: 0 }
    };
    PublishCursor { group: g, statement: 0, in_transaction: false, pending: next, ..c }
}

impl PublishCursor {
    /// The cursor of a publish that has not started: its first action is to
    /// open the first group, or to stop at once when there is none.
    pub fn start(groups: &Vec<StatementGroup>) -> (r: PublishCursor)
        requires
            groups_non_empty(groups@),
        ensures
            r == start_group(
                groups@,
                PublishCursor {
                    group: 0,
                    statement: 0,
                    in_transaction: false,
                    cancel_requested: false,
                    pending: PublishAction::Begin,
                },
                0,
            ),
            cursor_ok(groups@, r),
    {
        let c = PublishCursor {
            group: 0,
            statement: 0,
            in_transaction: false,
            cancel_requested: false,
            pending: PublishAction::Begin,
        };
        start_group_exec(groups, c, 0)
    }

    /// Asks the publish to stop once the current group is over.
    pub fn request_cancel(&mut self)
        ensures
            *final(self) == (PublishCursor { cancel_requested: true, ..*old(self) }),
    {
        self.cancel_requested = true;
    }

    /// Moves on after the pending action went as `event` says, and returns the
    /// next action.
    pub fn advance(&mut self, groups: &Vec<StatementGroup>, event: PublishEvent) -> (a:
        PublishAction)
        requires
            groups_non_empty(groups@),
            cursor_ok(groups@, *old(self)),
        ensures
            *final(self) == publish_step(groups@, *old(self), event),
            cursor_ok(groups@, *final(self)),
            a == final(self).pending,
    {
        let c = *self;
        let n = groups.len();
        assert(c.group < n ==> c.group + 1 <= usize::MAX);
        let next = match c.pending {
            PublishAction::Stop { .. } => c,
            PublishAction::Begin => match event {
                PublishEvent::Succeeded => PublishCursor {
                    in_transaction: true,
                    pending: PublishAction::Run { group: c.group, statement: 0 },
                    ..c
                },
                PublishEvent::Failed => PublishCursor {
                    in_transaction: false,
                    pending: PublishAction::Stop { completed: c.group, failed: true },
                    ..c
                },
            },
            PublishAction::Run { group, statement } => match event {
                PublishEvent::Succeeded => if statement < groups[group].statements.len() - 1 {
                    PublishCursor {
                        statement: statement + 1,
                        pending: PublishAction::Run { group, statement: statement + 1 },
                        ..c
                    }
                } else if c.in_transaction {
                    PublishCursor { pending: PublishAction::Commit, ..c }
                } else {
                    start_group_exec(groups, c, group + 1)
                },
                PublishEvent::Failed => if c.in_transaction {
                    PublishCursor { pending: PublishAction::Rollback, ..c }
                } else {
                    PublishCursor {
                        in_transaction: false,
                        pending: PublishAction::Stop { completed: c.group, failed: true },
                        ..c
                    }
                },
            },
            PublishAction::Commit => match event {
                PublishEvent::Succeeded => start_group_exec(groups, c, c.group + 1),
                PublishEvent::Failed => PublishCursor {
                    in_transaction: false,
                    pending: PublishAction::Stop { completed: c.group, failed: true },
                    ..c
                },
            },
            PublishAction::Rollback => PublishCursor {
                in_transaction: false,
                pending: PublishAction::Stop { completed: c.group, failed: true },
                ..c
            },
        };
        *self = next;
        next.pending
    }
}

/// When the runner is told to run a concurrent index build of well-formed
/// groups, no transaction is open.
pub proof fn lemma_concurrent_runs_outside_transactions(
    groups: Seq<StatementGroup>,
    c: PublishCursor,
    group: usize,
    statement: usize,
)
    requires
        forall|i: int| 0 <= i < groups.len() ==> group_well_formed(#[trigger] groups[i]),
        cursor_ok(groups, c),
        c.pending == (PublishAction::Run { group, statement }),
        groups[group as int].statements@[statement as int].concurrent,
    ensures
        !c.in_transaction,
{
    assert(group_well_formed(groups[group as int]));
}

} // verus!
