//! The control-flow complexity visitor.
//!
//! Walks one function's statement tree and computes its cyclomatic
//! complexity (one baseline path, plus one per branching statement anywhere
//! in the tree) and its maximum block-nesting depth. Branches that appear
//! only inside sub-expressions of a statement are, by design, not counted:
//! only constructs that are themselves statements contribute.

use vstd::prelude::*;

use crate::ast::StmtKind;
use crate::ast::StmtNode;
use crate::ast::count_branches;
use crate::ast::count_nodes;
use crate::ast::lemma_branches_le_nodes;
use crate::ast::lemma_nesting_le_nodes;
use crate::ast::lemma_skip_unfold;
use crate::ast::max_nesting_of;
use crate::ast::nat_max;
use crate::ast::node_branches;
use crate::ast::node_nesting;
use crate::ast::node_nodes;

verus! {

/// Running state of one traversal: the complexity accumulated so far, the
/// deepest nesting seen so far, and the current nesting depth.
pub struct CyclomaticComplexityVisitor {
    pub complexity: usize,
    pub max_nesting: usize,
    pub current_nesting: usize,
}

impl CyclomaticComplexityVisitor {
    /// A fresh traversal: one baseline path, no nesting seen.
    pub fn new() -> (v: Self)
        ensures
            v.complexity == 1,
            v.max_nesting == 0,
            v.current_nesting == 0,
    {
        Self { complexity: 1, max_nesting: 0, current_nesting: 0 }
    }

    /// Visits one statement and everything nested inside it: adds the
    /// subtree's branching statements to `complexity`, and raises
    /// `max_nesting` to the deepest block chain reached from the current
    /// depth. `current_nesting` is restored on exit.
    pub fn visit_stmt(&mut self, stmt: &StmtNode)
        requires
            old(self).complexity + node_branches(*stmt) <= usize::MAX,
            old(self).current_nesting + node_nodes(*stmt) <= usize::MAX,
            old(self).current_nesting <= old(self).max_nesting,
        ensures
            final(self).complexity == old(self).complexity + node_branches(*stmt),
            final(self).current_nesting == old(self).current_nesting,
            final(self).max_nesting == nat_max(
                old(self).max_nesting as nat,
                (old(self).current_nesting + node_nesting(*stmt)) as nat,
            ),
        decreases *stmt,
    {
        if stmt.kind == StmtKind::Branch {
            self.complexity = self.complexity + 1;
        }
        if stmt.kind == StmtKind::Block {
            self.current_nesting = self.current_nesting + 1;
            if self.current_nesting > self.max_nesting {
                self.max_nesting = self.current_nesting;
            }
        }
        let ghost cur: nat = self.current_nesting as nat;
        let ghost entry_complexity: nat = self.complexity as nat;
        let ghost entry_max: nat = old(self).max_nesting as nat;
        let n = stmt.children.len();
        let mut i: usize = 0;
        proof {
            assert(stmt.children@.skip(0) =~= stmt.children@);
        }
        while i < n
            invariant
                n == stmt.children.len(),
                0 <= i <= n,
                entry_complexity + count_branches(stmt.children@) <= usize::MAX,
                old(self).current_nesting + node_nodes(*stmt) <= usize::MAX,
                self.current_nesting == cur,
                self.current_nesting <= self.max_nesting,
                self.complexity + count_branches(stmt.children@.skip(i as int))
                    == entry_complexity + count_branches(stmt.children@),
                cur + count_nodes(stmt.children@.skip(i as int)) <= old(
                    self,
                ).current_nesting + node_nodes(*stmt),
                nat_max(self.max_nesting as nat, cur + max_nesting_of(stmt.children@.skip(i as int)))
                    == nat_max(
                    entry_max,
                    (old(self).current_nesting + node_nesting(*stmt)) as nat,
                ),
            decreases n - i,
        {
            proof {
                lemma_skip_unfold(stmt.children@, i as int);
            }
            self.visit_stmt(&stmt.children[i]);
            i = i + 1;
        }
        proof {
            assert(stmt.children@.skip(n as int) =~= Seq::<StmtNode>::empty());
        }
        if stmt.kind == StmtKind::Block {
            self.current_nesting = self.current_nesting - 1;
        }
    }
}

/// Computes one function body's `(complexity, max_nesting)`: complexity is
/// 1 plus the number of branching statements anywhere in the body, and
/// max_nesting is the deepest chain of nested block statements.
pub fn analyze_body(body: &Vec<StmtNode>) -> (r: (usize, usize))
    requires
        count_nodes(body@) < usize::MAX,
    ensures
        r.0 == 1 + count_branches(body@),
        r.1 == max_nesting_of(body@),
{
    proof {
        lemma_branches_le_nodes(body@);
        lemma_nesting_le_nodes(body@);
    }
    let mut v = CyclomaticComplexityVisitor::new();
    let n = body.len();
    let mut i: usize = 0;
    proof {
        assert(body@.skip(0) =~= body@);
    }
    while i < n
        invariant
            n == body.len(),
            0 <= i <= n,
            count_nodes(body@) < usize::MAX,
            count_branches(body@) <= count_nodes(body@),
            v.current_nesting == 0,
            v.current_nesting <= v.max_nesting,
            v.complexity + count_branches(body@.skip(i as int)) == 1 + count_branches(body@),
            count_nodes(body@.skip(i as int)) <= count_nodes(body@),
            nat_max(v.max_nesting as nat, max_nesting_of(body@.skip(i as int))) == max_nesting_of(
                body@,
            ),
        decreases n - i,
    {
        proof {
            lemma_skip_unfold(body@, i as int);
        }
        v.visit_stmt(&body[i]);
        i = i + 1;
    }
    proof {
        assert(body@.skip(n as int) =~= Seq::<StmtNode>::empty());
    }
    (v.complexity, v.max_nesting)
}

} // verus!
