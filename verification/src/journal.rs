//! The record of what the library has handed to the engine and of what the
//! engine has answered. Contracts state over it which statements an
//! operation runs, in which order, inside which scope, and how its result
//! follows from the engine's answers.

use vstd::prelude::*;
use crate::engine::CellView;
use crate::error::StoreErrorView;
use crate::statement::{QueryView, StatementView};
use crate::thread::Text;

verus! {

/// How a transaction scope ended. Each text is the engine's description of
/// its refusal.
pub enum ScopeEnd {
    /// The engine did not open the scope.
    NotOpened(Text),
    /// The engine refused the last statement that was handed to it, and was
    /// told to roll the scope back.
    RolledBack(Text),
    /// The engine accepted every statement and refused to commit; the scope
    /// was released without a commit.
    CommitRefused(Text),
    /// The engine accepted every statement and committed.
    Committed,
}

/// One transaction scope: the statements handed to the engine inside it, in
/// order, and how it ended.
pub struct Scope {
    pub statements: Seq<StatementView>,
    pub end: ScopeEnd,
}

/// What the engine answers to a query: the result rows, or its description
/// of the refusal.
pub type Answer = Result<Seq<Seq<CellView>>, Text>;

/// One exchange with the engine.
pub enum Exchange {
    /// A batch of statements without parameters, run outside any scope.
    Batch { sql: Text, refusal: Option<Text> },
    /// A transaction scope.
    Scope(Scope),
    /// A query, run outside any scope.
    Query { query: QueryView, answer: Answer },
}

impl Scope {
    /// Whether this scope is a run of `plan`: the statements are handed over
    /// in the order of the plan, none after the first refusal, and the scope
    /// is committed only after the engine has accepted all of them.
    pub open spec fn follows(self, plan: Seq<StatementView>) -> bool {
        match self.end {
            ScopeEnd::NotOpened(_) => self.statements == Seq::<StatementView>::empty(),
            ScopeEnd::RolledBack(_) => {
                &&& 1 <= self.statements.len() <= plan.len()
                &&& self.statements == plan.take(self.statements.len() as int)
            },
            ScopeEnd::CommitRefused(_) => self.statements == plan,
            ScopeEnd::Committed => self.statements == plan,
        }
    }

    /// Whether anything of the scope is kept.
    pub open spec fn committed(self) -> bool {
        self.end is Committed
    }

    /// What a write operation returns for this scope: success if it was
    /// committed, else `WriteFailed` with the engine's description of the
    /// refusal that ended it.
    pub open spec fn result(self) -> Result<(), StoreErrorView> {
        match self.end {
            ScopeEnd::NotOpened(t) => Err(StoreErrorView::WriteFailed(t)),
            ScopeEnd::RolledBack(t) => Err(StoreErrorView::WriteFailed(t)),
            ScopeEnd::CommitRefused(t) => Err(StoreErrorView::WriteFailed(t)),
            ScopeEnd::Committed => Ok(()),
        }
    }
}

/// Whether `later` is `earlier` with exactly one exchange added.
pub open spec fn extends_by_one(earlier: Seq<Exchange>, later: Seq<Exchange>) -> bool {
    later.len() == earlier.len() + 1 && later.drop_last() == earlier
}

/// Whether `later` is `earlier` with one transaction scope added that is a
/// run of `plan` and for which a write operation returns `r`.
pub open spec fn ran_scope(
    earlier: Seq<Exchange>,
    later: Seq<Exchange>,
    plan: Seq<StatementView>,
    r: Result<(), StoreErrorView>,
) -> bool {
    &&& extends_by_one(earlier, later)
    &&& later.last() matches Exchange::Scope(scope)
    &&& scope.follows(plan)
    &&& r == scope.result()
}

/// Whether `later` is `earlier` with exchanges added at its end.
pub open spec fn grows(earlier: Seq<Exchange>, later: Seq<Exchange>) -> bool {
    earlier.len() <= later.len() && later.take(earlier.len() as int) == earlier
}

/// The exchanges of `later` that come after those of `earlier`.
pub open spec fn added(earlier: Seq<Exchange>, later: Seq<Exchange>) -> Seq<Exchange> {
    later.skip(earlier.len() as int)
}

/// Whether an exchange is the query `q`.
pub open spec fn is_query(e: Exchange, q: QueryView) -> bool {
    e matches Exchange::Query { query, .. } && query == q
}

/// The engine's answer in an exchange that is a query.
pub open spec fn answer_of(e: Exchange) -> Answer {
    match e {
        Exchange::Query { answer, .. } => answer,
        _ => Err(Seq::empty()),
    }
}

/// A record with one exchange added has grown by that exchange.
pub proof fn lemma_one_more(earlier: Seq<Exchange>, later: Seq<Exchange>)
    requires
        extends_by_one(earlier, later),
    ensures
        grows(earlier, later),
        added(earlier, later) == seq![later.last()],
{
    assert(later.take(earlier.len() as int) =~= later.drop_last());
    assert(added(earlier, later) =~= seq![later.last()]);
}

/// A record that has grown twice has grown by what the first step added
/// and then what the second added.
pub proof fn lemma_grows_twice(before: Seq<Exchange>, middle: Seq<Exchange>, after: Seq<Exchange>)
    requires
        grows(before, middle),
        grows(middle, after),
    ensures
        grows(before, after),
        added(before, after) == added(before, middle) + added(middle, after),
{
    assert forall|k: int| 0 <= k < middle.len() implies after[k] == middle[k] by {
        assert(after.take(middle.len() as int)[k] == after[k]);
    }
    assert(after.take(before.len() as int) =~= middle.take(before.len() as int));
    assert(added(before, after) =~= added(before, middle) + added(middle, after));
}

} // verus!
