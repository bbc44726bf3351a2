//! The statement-tree model of a parsed source file.
//!
//! The engine is decoupled from any concrete grammar: a front end turns each
//! top-level function of a file into a tree of [`StmtNode`]s, recording for
//! every statement only what the metrics read — whether it is a branching
//! statement, a bare block, or anything else — together with the statements
//! nested anywhere inside it.

use vstd::prelude::*;

verus! {

/// What a single statement is, as far as the metrics care.
#[derive(Clone, Copy, PartialEq, Eq, Structural, Debug)]
pub enum StmtKind {
    /// A conditional, pattern-match or loop statement: adds one execution path.
    Branch,
    /// A bare block statement: adds one level of nesting.
    Block,
    /// Any other statement.
    Other,
}

/// One statement of a function body. `children` holds, in order, the
/// statements nested directly inside this statement (one level down in the
/// traversal; their own nested statements are their children in turn).
pub struct StmtNode {
    pub kind: StmtKind,
    pub children: Vec<StmtNode>,
}

/// A top-level function definition: its name and the direct statements of
/// its body. The body's length is the function's statement-count `loc`.
pub struct FunctionDef {
    pub name: String,
    pub body: Vec<StmtNode>,
}

/// What could be obtained from one candidate file.
pub enum FileData {
    /// The file could not be read: it contributes nothing.
    Unreadable,
    /// The text was read but did not parse: only line and comment counts
    /// contribute.
    Unparsed(Vec<char>),
    /// The text was read and parsed into top-level function definitions.
    Parsed(Vec<char>, Vec<FunctionDef>),
}

/// One candidate file: its path (used only as a label) and its data.
pub struct SourceFile {
    pub path: String,
    pub data: FileData,
}

/// Total number of statement nodes in a forest.
pub open spec fn count_nodes(ss: Seq<StmtNode>) -> nat
    decreases ss,
{
    if ss.len() == 0 {
        0
    } else {
        1 + count_nodes(ss[0].children@) + count_nodes(ss.drop_first())
    }
}

/// Number of branching statements in a forest, at any depth.
pub open spec fn count_branches(ss: Seq<StmtNode>) -> nat
    decreases ss,
{
    if ss.len() == 0 {
        0
    } else {
        (if ss[0].kind is Branch {
            1nat
        } else {
            0nat
        }) + count_branches(ss[0].children@) + count_branches(ss.drop_first())
    }
}

/// Deepest chain of nested block statements in a forest: the maximum, over
/// all root-to-node paths, of the number of `Block` statements on the path.
pub open spec fn max_nesting_of(ss: Seq<StmtNode>) -> nat
    decreases ss,
{
    if ss.len() == 0 {
        0
    } else {
        let head = (if ss[0].kind is Block {
            1nat
        } else {
            0nat
        }) + max_nesting_of(ss[0].children@);
        let rest = max_nesting_of(ss.drop_first());
        if head > rest {
            head
        } else {
            rest
        }
    }
}

/// The larger of two naturals.
pub open spec fn nat_max(a: nat, b: nat) -> nat {
    if a > b {
        a
    } else {
        b
    }
}

/// Nodes in the subtree rooted at one statement, the statement included.
pub open spec fn node_nodes(s: StmtNode) -> nat {
    1 + count_nodes(s.children@)
}

/// Branching statements in the subtree rooted at one statement.
pub open spec fn node_branches(s: StmtNode) -> nat {
    (if s.kind is Branch {
        1nat
    } else {
        0nat
    }) + count_branches(s.children@)
}

/// Deepest chain of nested blocks in the subtree rooted at one statement,
/// the statement itself included if it is a block.
pub open spec fn node_nesting(s: StmtNode) -> nat {
    (if s.kind is Block {
        1nat
    } else {
        0nat
    }) + max_nesting_of(s.children@)
}

/// Unfolds each count of a suffix by one statement.
pub proof fn lemma_skip_unfold(ss: Seq<StmtNode>, i: int)
    requires
        0 <= i < ss.len(),
    ensures
        count_nodes(ss.skip(i)) == node_nodes(ss[i]) + count_nodes(ss.skip(i + 1)),
        count_branches(ss.skip(i)) == node_branches(ss[i]) + count_branches(ss.skip(i + 1)),
        max_nesting_of(ss.skip(i)) == nat_max(node_nesting(ss[i]), max_nesting_of(ss.skip(i + 1))),
{
    assert(ss.skip(i)[0] == ss[i]);
    assert(ss.skip(i).drop_first() =~= ss.skip(i + 1));
}

/// No branching statement anywhere in the forest.
pub open spec fn branch_free(ss: Seq<StmtNode>) -> bool
    decreases ss,
{
    if ss.len() == 0 {
        true
    } else {
        !(ss[0].kind is Branch) && branch_free(ss[0].children@) && branch_free(ss.drop_first())
    }
}

/// A forest without branching statements has a branch count of zero.
pub proof fn lemma_branch_free_no_branches(ss: Seq<StmtNode>)
    ensures
        branch_free(ss) ==> count_branches(ss) == 0,
    decreases ss,
{
    if ss.len() > 0 {
        lemma_branch_free_no_branches(ss[0].children@);
        lemma_branch_free_no_branches(ss.drop_first());
    }
}

/// There are at least as many nodes as branching statements.
pub proof fn lemma_branches_le_nodes(ss: Seq<StmtNode>)
    ensures
        count_branches(ss) <= count_nodes(ss),
    decreases ss,
{
    if ss.len() > 0 {
        lemma_branches_le_nodes(ss[0].children@);
        lemma_branches_le_nodes(ss.drop_first());
    }
}

/// The nesting depth never exceeds the number of nodes.
pub proof fn lemma_nesting_le_nodes(ss: Seq<StmtNode>)
    ensures
        max_nesting_of(ss) <= count_nodes(ss),
    decreases ss,
{
    if ss.len() > 0 {
        lemma_nesting_le_nodes(ss[0].children@);
        lemma_nesting_le_nodes(ss.drop_first());
    }
}

/// A forest has at least as many nodes as roots.
pub proof fn lemma_len_le_nodes(ss: Seq<StmtNode>)
    ensures
        ss.len() <= count_nodes(ss),
    decreases ss,
{
    if ss.len() > 0 {
        lemma_len_le_nodes(ss.drop_first());
    }
}

} // verus!
