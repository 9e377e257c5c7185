//! Transactions: an ordered list of reversible actions that are applied
//! together and rolled back together.

use std::sync::atomic::{AtomicU32, Ordering};
use std::sync::Arc;

use vstd::prelude::*;

use crate::error::OpenCadError;
use crate::text::{decimal, push_decimal};

verus! {

/// A reversible change applied to a document.
///
/// An implementation states, with `apply_ok` and `rollback_ok`, whether its
/// `apply` and `rollback` succeed, and with `description_text` what it
/// describes itself as.
pub trait TransactionAction: Send + Sync {
    /// Whether applying this action succeeds.
    spec fn apply_ok(&self) -> bool;

    /// Whether rolling this action back succeeds.
    spec fn rollback_ok(&self) -> bool;

    /// The text that `description` returns.
    spec fn description_text(&self) -> String;

    fn description(&self) -> (d: &str)
        ensures
            d@ == self.description_text()@,
    ;

    fn apply(&self) -> (r: Result<(), OpenCadError>)
        ensures
            r is Ok <==> self.apply_ok(),
    ;

    fn rollback(&self) -> (r: Result<(), OpenCadError>)
        ensures
            r is Ok <==> self.rollback_ok(),
    ;
}

/// A boxed action forwards to the action it holds, so that one transaction
/// can hold actions of different types.
impl TransactionAction for Box<dyn TransactionAction> {
    open spec fn apply_ok(&self) -> bool {
        (**self).apply_ok()
    }

    open spec fn rollback_ok(&self) -> bool {
        (**self).rollback_ok()
    }

    open spec fn description_text(&self) -> String {
        (**self).description_text()
    }

    fn description(&self) -> (d: &str) {
        (**self).description()
    }

    fn apply(&self) -> (r: Result<(), OpenCadError>) {
        (**self).apply()
    }

    fn rollback(&self) -> (r: Result<(), OpenCadError>) {
        (**self).rollback()
    }
}

/// Which method of an action was called.
#[derive(PartialEq, Eq, Structural)]
pub enum ActionStep {
    Apply,
    Rollback,
}

/// One call that a transaction made on one of its actions, with whether the
/// action reported success.
pub struct ActionCall {
    pub step: ActionStep,
    pub index: usize,
    pub succeeded: bool,
}

/// Transaction lifecycle: begin → apply actions → commit or rollback.
pub struct Transaction<A = Box<dyn TransactionAction>> {
    description: String,
    actions: Vec<A>,
    /// Number of actions that have applied successfully and still need to be
    /// rolled back.  Failed actions are deliberately not included.
    applied_actions: usize,
    committed: bool,
    /// Every call made on the actions so far, in order.
    calls: Ghost<Seq<ActionCall>>,
}

/// The abstract state of a transaction: its description, whether each action
/// applies and rolls back successfully, what each action describes itself
/// as, how many actions are applied, and the calls made on the actions so
/// far.
pub struct TransactionView {
    pub description: Seq<char>,
    pub action_count: nat,
    pub apply_oks: Seq<bool>,
    pub rollback_oks: Seq<bool>,
    pub descriptions: Seq<Seq<char>>,
    pub applied: nat,
    pub committed: bool,
    pub calls: Seq<ActionCall>,
}

/// A transaction that a caller holds: it never counts more applied actions
/// than it holds, and it is not committed (`commit` consumes the transaction).
pub open spec fn well_formed(v: TransactionView) -> bool {
    &&& v.applied <= v.action_count
    &&& v.apply_oks.len() == v.action_count
    &&& v.rollback_oks.len() == v.action_count
    &&& v.descriptions.len() == v.action_count
    &&& !v.committed
}

/// Successful `apply` calls on the actions `from..to`, in order.
pub open spec fn apply_run(from: int, to: int) -> Seq<ActionCall> {
    Seq::new(
        (to - from) as nat,
        |k: int| ActionCall { step: ActionStep::Apply, index: (from + k) as usize, succeeded: true },
    )
}

/// `rollback` calls on the actions `hi - 1` down to `lo`, one each, with the
/// outcome each action gives.
pub open spec fn rollback_calls(oks: Seq<bool>, hi: int, lo: int) -> Seq<ActionCall> {
    Seq::new(
        (hi - lo) as nat,
        |k: int| ActionCall { step: ActionStep::Rollback, index: (hi - 1 - k) as usize, succeeded: oks[hi - 1 - k] },
    )
}

/// Whether the first `n` actions all roll back successfully.
pub open spec fn rollbacks_ok(oks: Seq<bool>, n: int) -> bool {
    forall|i: int| 0 <= i < n ==> #[trigger] oks[i]
}

/// Whether `h` is the highest index below `hi` (and not below `lo`) whose
/// outcome is a failure.
pub open spec fn last_failure(oks: Seq<bool>, lo: int, hi: int, h: int) -> bool {
    &&& lo <= h < hi
    &&& !oks[h]
    &&& forall|i: int| h < i < hi ==> #[trigger] oks[i]
}

/// Whether `j` is the first pending action (from `v.applied` on) that fails
/// to apply.
pub open spec fn first_apply_failure(v: TransactionView, j: int) -> bool {
    &&& v.applied <= j < v.action_count
    &&& !v.apply_oks[j]
    &&& forall|i: int| v.applied <= i < j ==> #[trigger] v.apply_oks[i]
}

/// Whether every pending action applies successfully.
pub open spec fn pending_apply_ok(v: TransactionView) -> bool {
    forall|i: int| v.applied <= i < v.action_count ==> #[trigger] v.apply_oks[i]
}

/// Whether `m` begins with `p`.
pub open spec fn has_prefix(m: Seq<char>, p: Seq<char>) -> bool {
    p.len() <= m.len() && m.subrange(0, p.len() as int) == p
}

/// The beginning of the message of a failed rollback of action `h`, which
/// describes itself as `d`; the action's own error follows it.
pub open spec fn rollback_failure_prefix(h: int, d: Seq<char>) -> Seq<char> {
    "failed to rollback action "@ + decimal(h as nat) + " ("@ + d + "): "@
}

/// The beginning of the message of a failed apply of action `j`, which
/// describes itself as `d`; the action's own error follows it.
pub open spec fn apply_failure_prefix(j: int, d: Seq<char>) -> Seq<char> {
    "failed at action "@ + decimal(j as nat) + " ("@ + d + "): "@
}

/// The state after a call that changes only the applied count and the calls.
pub open spec fn same_actions(v: TransactionView, w: TransactionView) -> bool {
    &&& w.description == v.description
    &&& w.action_count == v.action_count
    &&& w.apply_oks == v.apply_oks
    &&& w.rollback_oks == v.rollback_oks
    &&& w.descriptions == v.descriptions
    &&& w.committed == v.committed
}

/// What rolling back the applied actions does: every applied action is rolled
/// back once, the last applied first, even after a failure; the result is an
/// error exactly when one of those rollbacks failed, and its message names
/// the highest failing action.
pub open spec fn rollback_spec(
    v: TransactionView,
    w: TransactionView,
    r: Result<(), OpenCadError>,
) -> bool {
    &&& same_actions(v, w)
    &&& w.applied == 0
    &&& w.calls == v.calls + rollback_calls(v.rollback_oks, v.applied as int, 0)
    &&& (r is Ok <==> rollbacks_ok(v.rollback_oks, v.applied as int))
    &&& forall|h: int|
        #![trigger last_failure(v.rollback_oks, 0, v.applied as int, h)]
        last_failure(v.rollback_oks, 0, v.applied as int, h) ==> (r matches Err(
            OpenCadError::Transaction(m),
        ) && has_prefix(m@, rollback_failure_prefix(h, v.descriptions[h])))
}

/// What applying the pending actions does: the actions not yet applied are
/// applied in order.  When all succeed, the result is `Ok` and every action
/// counts as applied.  When action `j` is the first to fail, no later action
/// is applied, the failed action is not rolled back, every action applied
/// before it (including those of earlier calls) is rolled back in reverse
/// order, and the error names action `j`; when a rollback failed too, the
/// error carries both messages.
pub open spec fn apply_all_spec(
    v: TransactionView,
    w: TransactionView,
    r: Result<(), OpenCadError>,
) -> bool {
    &&& same_actions(v, w)
    &&& (r is Ok <==> pending_apply_ok(v))
    &&& (pending_apply_ok(v) ==> w.applied == v.action_count && w.calls == v.calls + apply_run(
        v.applied as int,
        v.action_count as int,
    ))
    &&& forall|j: int|
        #![trigger first_apply_failure(v, j)]
        first_apply_failure(v, j) ==> {
            &&& w.applied == 0
            &&& w.calls == v.calls + apply_run(v.applied as int, j) + seq![
                ActionCall { step: ActionStep::Apply, index: j as usize, succeeded: false },
            ] + rollback_calls(v.rollback_oks, j, 0)
            &&& r matches Err(OpenCadError::Transaction(m)) && if rollbacks_ok(v.rollback_oks, j) {
                has_prefix(m@, apply_failure_prefix(j, v.descriptions[j]))
            } else {
                has_prefix(m@, "transaction error: "@ + apply_failure_prefix(j, v.descriptions[j]))
            }
        }
}

/// Extending a text keeps its beginning.
proof fn lemma_prefix_extend(m: Seq<char>, p: Seq<char>, rest: Seq<char>)
    requires
        has_prefix(m, p),
    ensures
        has_prefix(m + rest, p),
{
    assert((m + rest).subrange(0, p.len() as int) =~= m.subrange(0, p.len() as int));
}

/// Putting a text in front keeps a beginning, behind it.
proof fn lemma_prefix_front(m: Seq<char>, p: Seq<char>, front: Seq<char>)
    requires
        has_prefix(m, p),
    ensures
        has_prefix(front + m, front + p),
{
    assert((front + m).subrange(0, (front + p).len() as int) =~= front + p);
}

/// Once every action is applied, applying again calls no action and
/// succeeds.
pub proof fn lemma_apply_all_again(v: TransactionView, w: TransactionView, r: Result<(), OpenCadError>)
    requires
        well_formed(v),
        v.applied == v.action_count,
        apply_all_spec(v, w, r),
    ensures
        r is Ok,
        w.applied == v.applied,
        w.calls == v.calls,
{
    assert(w.calls =~= v.calls);
}

/// Once everything is rolled back, rolling back again calls no action and
/// succeeds.
pub proof fn lemma_rollback_again(v: TransactionView, w: TransactionView, r: Result<(), OpenCadError>)
    requires
        well_formed(v),
        v.applied == 0,
        rollback_spec(v, w, r),
    ensures
        r is Ok,
        w.calls == v.calls,
{
    assert(w.calls =~= v.calls);
}

/// When the pending actions all apply, the last call applies the action
/// added last.
pub proof fn lemma_last_pushed_applied_last(v: TransactionView, w: TransactionView, r: Result<(), OpenCadError>)
    requires
        well_formed(v),
        v.applied < v.action_count,
        pending_apply_ok(v),
        apply_all_spec(v, w, r),
    ensures
        r is Ok,
        w.calls.last() == (ActionCall {
            step: ActionStep::Apply,
            index: (v.action_count - 1) as usize,
            succeeded: true,
        }),
{
}

/// The `k`-th call made after the state `v`, in the state `w`.
pub open spec fn call_after(v: TransactionView, w: TransactionView, k: int) -> ActionCall {
    w.calls[v.calls.len() + k]
}

/// Rolling back, read off the calls it records: the earlier calls stay as
/// they were, then `rollback` is called once on each applied action, the
/// last applied first and down to the first, whether or not an earlier one
/// failed; the result is `Ok` exactly when every one of those calls
/// succeeded.
pub proof fn lemma_rollback_recorded(v: TransactionView, w: TransactionView, r: Result<(), OpenCadError>)
    requires
        well_formed(v),
        rollback_spec(v, w, r),
    ensures
        w.calls.len() == v.calls.len() + v.applied,
        w.calls.subrange(0, v.calls.len() as int) == v.calls,
        forall|k: int|
            0 <= k < v.applied ==> (#[trigger] call_after(v, w, k)).step == ActionStep::Rollback
                && call_after(v, w, k).index == (v.applied - 1 - k) as usize,
        r is Ok <==> forall|k: int| 0 <= k < v.applied ==> (#[trigger] call_after(v, w, k)).succeeded,
{
    assert(w.calls.subrange(0, v.calls.len() as int) =~= v.calls);
    let n = v.applied as int;
    if r is Ok {
        assert forall|k: int| 0 <= k < n implies (#[trigger] call_after(v, w, k)).succeeded by {
            assert(v.rollback_oks[n - 1 - k]);
        }
    } else {
        assert(!rollbacks_ok(v.rollback_oks, n));
        let i = choose|i: int| 0 <= i < n && !#[trigger] v.rollback_oks[i];
        assert(!call_after(v, w, n - 1 - i).succeeded);
    }
}

impl<A: TransactionAction> Transaction<A> {
    /// The abstract state of the transaction.
    pub closed spec fn view(&self) -> TransactionView {
        TransactionView {
            description: self.description@,
            action_count: self.actions@.len(),
            apply_oks: self.actions@.map_values(|a: A| a.apply_ok()),
            rollback_oks: self.actions@.map_values(|a: A| a.rollback_ok()),
            descriptions: self.actions@.map_values(|a: A| a.description_text()@),
            applied: self.applied_actions as nat,
            committed: self.committed,
            calls: self.calls@,
        }
    }

    /// A new transaction with no actions.
    pub fn empty(description: &str) -> (t: Self)
        ensures
            well_formed(t.view()),
            t.view().description == description@,
            t.view().action_count == 0,
            t.view().applied == 0,
            t.view().calls == Seq::<ActionCall>::empty(),
    {
        let t = Transaction {
            description: description.to_owned(),
            actions: Vec::new(),
            applied_actions: 0,
            committed: false,
            calls: Ghost(Seq::empty()),
        };
        assert(t.view().apply_oks =~= Seq::<bool>::empty());
        assert(t.view().rollback_oks =~= Seq::<bool>::empty());
        assert(t.view().descriptions =~= Seq::<Seq<char>>::empty());
        t
    }

    /// The description given at `begin`.
    pub fn description(&self) -> (d: &str)
        ensures
            d@ == self.view().description,
    {
        self.description.as_str()
    }

    /// Append an action; it is applied by the next `apply_all`.  No action
    /// is called.
    pub fn push_action(&mut self, action: A)
        requires
            well_formed(old(self).view()),
        ensures
            well_formed(final(self).view()),
            final(self).view() == (TransactionView {
                action_count: old(self).view().action_count + 1,
                apply_oks: old(self).view().apply_oks.push(action.apply_ok()),
                rollback_oks: old(self).view().rollback_oks.push(action.rollback_ok()),
                descriptions: old(self).view().descriptions.push(action.description_text()@),
                ..old(self).view()
            }),
    {
        let ghost before = self.view();
        let ghost a = action;
        self.actions.push(action);
        assert(self.view().apply_oks =~= before.apply_oks.push(a.apply_ok()));
        assert(self.view().rollback_oks =~= before.rollback_oks.push(a.rollback_ok()));
        assert(self.view().descriptions =~= before.descriptions.push(a.description_text()@));
    }

    /// Apply every action that has not been applied yet, in order; on the
    /// first failure, roll back everything applied so far.
    pub fn apply_all(&mut self) -> (r: Result<(), OpenCadError>)
        requires
            well_formed(old(self).view()),
        ensures
            well_formed(final(self).view()),
            apply_all_spec(old(self).view(), final(self).view(), r),
    {
        let ghost v = self.view();
        let n = self.actions.len();
        let mut index = self.applied_actions;
        let mut failure: Option<OpenCadError> = None;
        while failure.is_none() && index < n
            invariant
                v.action_count == n,
                well_formed(v),
                v.applied <= index <= n,
                self.actions@.len() == n,
                self.applied_actions == index,
                same_actions(v, self.view()),
                forall|i: int| v.applied <= i < index ==> #[trigger] v.apply_oks[i],
                failure is None ==> self.calls@ == v.calls + apply_run(v.applied as int, index as int),
                failure is Some ==> index < n && !v.apply_oks[index as int] && self.calls@ == v.calls
                    + apply_run(v.applied as int, index as int) + seq![
                    ActionCall { step: ActionStep::Apply, index: index, succeeded: false },
                ],
                failure matches Some(e) ==> (e matches OpenCadError::Transaction(m) && has_prefix(
                    m@,
                    apply_failure_prefix(index as int, v.descriptions[index as int]),
                )),
            decreases n - index + if failure is None { 1int } else { 0int },
        {
            let outcome = self.actions[index].apply();
            assert(v.apply_oks[index as int] == self.actions@[index as int].apply_ok());
            match outcome {
                Ok(()) => {
                    self.calls = Ghost(
                        self.calls@.push(
                            ActionCall { step: ActionStep::Apply, index: index, succeeded: true },
                        ),
                    );
                    self.applied_actions = index + 1;
                    index = index + 1;
                    assert(self.calls@ =~= v.calls + apply_run(v.applied as int, index as int));
                },
                Err(err) => {
                    self.calls = Ghost(
                        self.calls@.push(
                            ActionCall { step: ActionStep::Apply, index: index, succeeded: false },
                        ),
                    );
                    assert(self.calls@ =~= v.calls + apply_run(v.applied as int, index as int)
                        + seq![ActionCall { step: ActionStep::Apply, index: index, succeeded: false }]);
                    let mut message = "failed at action ".to_owned();
                    push_decimal(&mut message, index as u64);
                    message.push_str(" (");
                    assert(v.descriptions[index as int] == self.actions@[index as int].description_text()@);
                    message.push_str(self.actions[index].description());
                    message.push_str("): ");
                    let ghost pre = message@;
                    assert(pre == apply_failure_prefix(index as int, v.descriptions[index as int]));
                    let detail = err.to_message();
                    message.push_str(detail.as_str());
                    proof {
                        assert(message@.subrange(0, pre.len() as int) =~= pre);
                    }
                    failure = Some(OpenCadError::Transaction(message));
                },
            }
        }
        match failure {
            None => {
                assert(pending_apply_ok(v));
                assert forall|j: int| !first_apply_failure(v, j) by {}
                Ok(())
            },
            Some(apply_error) => {
                let ghost j = index as int;
                assert(first_apply_failure(v, j));
                assert forall|k: int| #[trigger] first_apply_failure(v, k) implies k == j by {
                    if k < j {
                    } else if k > j {
                        assert(v.apply_oks[j]);
                    }
                }
                let ghost w0 = self.view();
                assert(w0.rollback_oks == v.rollback_oks);
                let rolled = self.rollback_applied_actions();
                proof {
                    let w = self.view();
                    assert(w.calls =~= v.calls + apply_run(v.applied as int, j) + seq![
                        ActionCall { step: ActionStep::Apply, index: j as usize, succeeded: false },
                    ] + rollback_calls(v.rollback_oks, j, 0));
                }
                match rolled {
                    Ok(()) => Err(apply_error),
                    Err(rollback_error) => {
                        let first = apply_error.to_message();
                        let mut combined = first;
                        combined.push_str("; ");
                        let second = rollback_error.to_message();
                        combined.push_str(second.as_str());
                        proof {
                            if let OpenCadError::Transaction(m) = apply_error {
                                lemma_prefix_front(m@, apply_failure_prefix(j, v.descriptions[j]), "transaction error: "@);
                                lemma_prefix_extend(
                                    "transaction error: "@ + m@,
                                    "transaction error: "@ + apply_failure_prefix(j, v.descriptions[j]),
                                    "; "@ + second@,
                                );
                                assert(combined@ =~= "transaction error: "@ + m@ + ("; "@ + second@));
                            }
                        }
                        Err(OpenCadError::Transaction(combined))
                    },
                }
            },
        }
    }

    /// Apply every pending action; the transaction is consumed.
    pub fn commit(self) -> (r: Result<(), OpenCadError>)
        requires
            well_formed(self.view()),
        ensures
            exists|w: TransactionView| apply_all_spec(self.view(), w, r),
    {
        let mut tx = self;
        let ghost v = tx.view();
        let outcome = tx.apply_all();
        let ghost w = tx.view();
        match outcome {
            Ok(()) => {
                tx.committed = true;
                assert(apply_all_spec(v, w, Ok(())));
                Ok(())
            },
            Err(e) => Err(e),
        }
    }

    /// Roll back every applied action, the last applied first.
    pub fn rollback(&mut self) -> (r: Result<(), OpenCadError>)
        requires
            well_formed(old(self).view()),
        ensures
            well_formed(final(self).view()),
            rollback_spec(old(self).view(), final(self).view(), r),
    {
        if self.committed {
            return Err(OpenCadError::transaction("cannot rollback a committed transaction"));
        }
        self.rollback_applied_actions()
    }

    fn rollback_applied_actions(&mut self) -> (r: Result<(), OpenCadError>)
        requires
            well_formed(old(self).view()),
        ensures
            well_formed(final(self).view()),
            rollback_spec(old(self).view(), final(self).view(), r),
    {
        let ghost v = self.view();
        let ghost oks = v.rollback_oks;
        let ghost top = v.applied as int;
        let mut first_error: Option<OpenCadError> = None;
        let ghost mut fail_at: int = 0;
        let mut index = self.applied_actions;
        while index > 0
            invariant
                well_formed(v),
                oks == v.rollback_oks,
                top == v.applied,
                index <= v.applied,
                self.applied_actions == v.applied,
                self.actions@.len() == v.action_count,
                same_actions(v, self.view()),
                self.calls@ == v.calls + rollback_calls(oks, top, index as int),
                first_error is None <==> (forall|i: int| index <= i < top ==> #[trigger] oks[i]),
                first_error matches Some(e) ==> last_failure(oks, index as int, top, fail_at) && (e matches OpenCadError::Transaction(m)
                    && has_prefix(m@, rollback_failure_prefix(fail_at, v.descriptions[fail_at]))),
            decreases index,
        {
            index = index - 1;
            let outcome = self.actions[index].rollback();
            assert(oks[index as int] == self.actions@[index as int].rollback_ok());
            let ghost prev = self.calls@;
            self.calls = Ghost(
                self.calls@.push(
                    ActionCall {
                        step: ActionStep::Rollback,
                        index: index,
                        succeeded: outcome is Ok,
                    },
                ),
            );
            assert(rollback_calls(oks, top, index as int) =~= rollback_calls(oks, top, index + 1).push(
                ActionCall { step: ActionStep::Rollback, index: index, succeeded: oks[index as int] },
            ));
            assert(self.calls@ =~= v.calls + rollback_calls(oks, top, index as int));
            if let Err(err) = outcome {
                if first_error.is_none() {
                    let mut message = "failed to rollback action ".to_owned();
                    push_decimal(&mut message, index as u64);
                    message.push_str(" (");
                    assert(v.descriptions[index as int] == self.actions@[index as int].description_text()@);
                    message.push_str(self.actions[index].description());
                    message.push_str("): ");
                    let ghost pre = message@;
                    assert(pre == rollback_failure_prefix(index as int, v.descriptions[index as int]));
                    let detail = err.to_message();
                    message.push_str(detail.as_str());
                    proof {
                        assert(message@.subrange(0, pre.len() as int) =~= pre);
                        fail_at = index as int;
                    }
                    first_error = Some(OpenCadError::Transaction(message));
                }
            }
        }
        self.applied_actions = 0;
        proof {
            assert forall|h: int| #[trigger] last_failure(oks, 0, top, h) implies h == fail_at && first_error is Some by {
                assert(!oks[h]);
                if first_error is Some {
                    if h < fail_at {
                        assert(oks[fail_at]);
                    } else if h > fail_at {
                        assert(oks[h]);
                    }
                }
            }
        }
        match first_error {
            Some(err) => Err(err),
            None => Ok(()),
        }
    }

    /// Whether the transaction is committed; a transaction a caller holds
    /// never is, since `commit` consumes it.
    pub fn is_committed(&self) -> (b: bool)
        requires
            well_formed(self.view()),
        ensures
            b == self.view().committed,
            !b,
    {
        self.committed
    }
}

impl Transaction<Box<dyn TransactionAction>> {
    /// A new, empty, uncommitted transaction whose actions may be of any type.
    pub fn begin(description: &str) -> (t: Self)
        ensures
            well_formed(t.view()),
            t.view().description == description@,
            t.view().action_count == 0,
            t.view().applied == 0,
            t.view().calls == Seq::<ActionCall>::empty(),
    {
        Self::empty(description)
    }
}

/// The magnitude of a signed counter step.
fn magnitude(delta: i32) -> (m: u32)
    ensures
        m as int == if delta >= 0 { delta as int } else { -(delta as int) },
{
    if delta >= 0 {
        delta as u32
    } else {
        ((-(delta as i64)) as u32)
    }
}

/// Atomic counter action used by tests and early prototypes.
#[derive(Debug)]
pub struct CounterAction {
    counter: Arc<AtomicU32>,
    delta: i32,
    description: String,
}

impl CounterAction {
    /// An action that adds `delta` to `counter` when applied and subtracts it
    /// again when rolled back.
    pub fn new(counter: Arc<AtomicU32>, delta: i32, description: &str) -> (a: Self)
        ensures
            a.delta() == delta,
            a.description_text()@ == description@,
    {
        CounterAction { counter, delta, description: description.to_owned() }
    }

    /// The signed step this action applies.
    pub closed spec fn delta(&self) -> i32 {
        self.delta
    }
}

impl TransactionAction for CounterAction {
    /// Adding the step to the counter always succeeds.
    open spec fn apply_ok(&self) -> bool {
        true
    }

    /// Taking the step back from the counter always succeeds.
    open spec fn rollback_ok(&self) -> bool {
        true
    }

    /// The description given to `new`.
    closed spec fn description_text(&self) -> String {
        self.description
    }

    fn description(&self) -> (d: &str) {
        self.description.as_str()
    }

    /// Adding the step to the counter always succeeds.
    fn apply(&self) -> (r: Result<(), OpenCadError>)
        ensures
            r is Ok,
    {
        let step = magnitude(self.delta);
        if self.delta >= 0 {
            self.counter.fetch_add(step, Ordering::Relaxed);
        } else {
            self.counter.fetch_sub(step, Ordering::Relaxed);
        }
        Ok(())
    }

    /// Taking the step back from the counter always succeeds.
    fn rollback(&self) -> (r: Result<(), OpenCadError>)
        ensures
            r is Ok,
    {
        let step = magnitude(self.delta);
        if self.delta >= 0 {
            self.counter.fetch_sub(step, Ordering::Relaxed);
        } else {
            self.counter.fetch_add(step, Ordering::Relaxed);
        }
        Ok(())
    }
}

/// An opaque snapshot payload that can be shared between threads.
pub trait Snapshot: Send + Sync {}

impl<T: Send + Sync> Snapshot for T {}

/// A recorded change: its description and an opaque snapshot payload.
struct TransactionRecord<P> {
    description: String,
    payload: P,
}

/// Type-erased document snapshots for undo stacks.
pub struct TransactionLog<P = Box<dyn Snapshot>> {
    entries: Vec<TransactionRecord<P>>,
}

impl<P> TransactionLog<P> {
    /// The descriptions of the recorded entries, oldest first.
    pub closed spec fn descriptions(&self) -> Seq<Seq<char>> {
        self.entries@.map_values(|r: TransactionRecord<P>| r.description@)
    }

    /// The payloads of the recorded entries, oldest first.
    pub closed spec fn payloads(&self) -> Seq<P> {
        self.entries@.map_values(|r: TransactionRecord<P>| r.payload)
    }

    /// A log with no entries.
    pub fn empty() -> (l: Self)
        ensures
            l.descriptions() == Seq::<Seq<char>>::empty(),
            l.payloads() == Seq::<P>::empty(),
    {
        let l = TransactionLog { entries: Vec::new() };
        assert(l.descriptions() =~= Seq::<Seq<char>>::empty());
        assert(l.payloads() =~= Seq::<P>::empty());
        l
    }

    /// Number of recorded entries.
    pub fn len(&self) -> (n: usize)
        ensures
            n == self.descriptions().len(),
    {
        self.entries.len()
    }

    /// Whether nothing has been recorded.
    pub fn is_empty(&self) -> (b: bool)
        ensures
            b == (self.descriptions().len() == 0),
    {
        self.entries.len() == 0
    }

    /// Append an entry, keeping its payload.
    pub fn record(&mut self, description: &str, payload: P)
        ensures
            final(self).descriptions() == old(self).descriptions().push(description@),
            final(self).payloads() == old(self).payloads().push(payload),
    {
        let ghost kept = payload;
        self.entries.push(TransactionRecord { description: description.to_owned(), payload });
        assert(self.descriptions() =~= old(self).descriptions().push(description@));
        assert(self.payloads() =~= old(self).payloads().push(kept));
    }
}

impl TransactionLog<Box<dyn Snapshot>> {
    /// An empty log of type-erased snapshots.
    pub fn new() -> (l: Self)
        ensures
            l.descriptions() == Seq::<Seq<char>>::empty(),
            l.payloads() == Seq::<Box<dyn Snapshot>>::empty(),
    {
        Self::empty()
    }
}

} // verus!
