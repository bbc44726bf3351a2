//! Executable size measurement.
//!
//! Every counter the engine accumulates is bounded by a size measure of its
//! input (nodes, functions and text length). The measure itself is computed
//! here with saturating arithmetic, so a caller can decide, without any
//! ghost knowledge, whether an input is small enough for the engine's
//! machine-limit preconditions.

use vstd::prelude::*;

use crate::ast::FunctionDef;
use crate::ast::SourceFile;
use crate::ast::StmtNode;
use crate::ast::count_nodes;
use crate::ast::node_nodes;
use crate::metrics::data_content;
use crate::metrics::data_funcs;
use crate::metrics::funcs_weight;

verus! {

/// The smaller of two naturals.
pub open spec fn nat_min(a: nat, b: nat) -> nat {
    if a < b {
        a
    } else {
        b
    }
}

/// Size measure of one candidate file: its text length plus the weight of
/// its parsed functions.
pub open spec fn file_weight(s: SourceFile) -> nat {
    data_content(s.data).len() + funcs_weight(data_funcs(s.data))
}

/// Size measure of the whole candidate file list.
pub open spec fn project_weight(files: Seq<SourceFile>) -> nat
    decreases files,
{
    if files.len() == 0 {
        0
    } else {
        file_weight(files[0]) + project_weight(files.drop_first())
    }
}

/// Appending one statement adds its subtree's node count.
pub proof fn lemma_count_nodes_push(ss: Seq<StmtNode>, x: StmtNode)
    ensures
        count_nodes(ss.push(x)) == count_nodes(ss) + node_nodes(x),
    decreases ss,
{
    assert(ss.push(x).len() == ss.len() + 1);
    if ss.len() == 0 {
        assert(ss.push(x)[0] == x);
        assert(ss.push(x).drop_first() =~= Seq::<StmtNode>::empty());
        assert(count_nodes(ss.push(x)) == node_nodes(ss.push(x)[0]) + count_nodes(
            ss.push(x).drop_first(),
        ));
    } else {
        assert(ss.push(x)[0] == ss[0]);
        assert(ss.push(x).drop_first() =~= ss.drop_first().push(x));
        lemma_count_nodes_push(ss.drop_first(), x);
        assert(count_nodes(ss.push(x)) == node_nodes(ss.push(x)[0]) + count_nodes(
            ss.push(x).drop_first(),
        ));
    }
}

/// Appending one function adds its own weight.
pub proof fn lemma_funcs_weight_push(fs: Seq<FunctionDef>, f: FunctionDef)
    ensures
        funcs_weight(fs.push(f)) == funcs_weight(fs) + 1 + count_nodes(f.body@),
    decreases fs,
{
    if fs.len() == 0 {
        assert(fs.push(f)[0] == f);
        assert(fs.push(f).drop_first() =~= Seq::<FunctionDef>::empty());
        assert(funcs_weight(fs.push(f)) == 1 + count_nodes(fs.push(f)[0].body@) + funcs_weight(
            fs.push(f).drop_first(),
        ));
    } else {
        assert(fs.push(f)[0] == fs[0]);
        assert(fs.push(f).drop_first() =~= fs.drop_first().push(f));
        lemma_funcs_weight_push(fs.drop_first(), f);
        assert(funcs_weight(fs.push(f)) == 1 + count_nodes(fs.push(f)[0].body@) + funcs_weight(
            fs.push(f).drop_first(),
        ));
    }
}

/// Appending one file adds its own weight.
pub proof fn lemma_project_weight_push(files: Seq<SourceFile>, s: SourceFile)
    ensures
        project_weight(files.push(s)) == project_weight(files) + file_weight(s),
    decreases files,
{
    if files.len() == 0 {
        assert(files.push(s)[0] == s);
        assert(files.push(s).drop_first() =~= Seq::<SourceFile>::empty());
        assert(project_weight(files.push(s)) == file_weight(files.push(s)[0]) + project_weight(
            files.push(s).drop_first(),
        ));
    } else {
        assert(files.push(s)[0] == files[0]);
        assert(files.push(s).drop_first() =~= files.drop_first().push(s));
        lemma_project_weight_push(files.drop_first(), s);
        assert(project_weight(files.push(s)) == file_weight(files.push(s)[0]) + project_weight(
            files.push(s).drop_first(),
        ));
    }
}

/// Node count of one statement's subtree, saturating at `usize::MAX`.
fn measure_stmt(s: &StmtNode) -> (r: usize)
    ensures
        r == nat_min(node_nodes(*s), usize::MAX as nat),
    decreases *s,
{
    let mut acc: usize = 1;
    let n = s.children.len();
    let mut i: usize = 0;
    proof {
        assert(s.children@.take(0) =~= Seq::<StmtNode>::empty());
    }
    while i < n
        invariant
            n == s.children@.len(),
            0 <= i <= n,
            acc == nat_min(1 + count_nodes(s.children@.take(i as int)), usize::MAX as nat),
        decreases n - i,
    {
        let w = measure_stmt(&s.children[i]);
        proof {
            lemma_count_nodes_push(s.children@.take(i as int), s.children@[i as int]);
            assert(s.children@.take(i as int + 1) =~= s.children@.take(i as int).push(
                s.children@[i as int],
            ));
        }
        acc = acc.saturating_add(w);
        i = i + 1;
    }
    proof {
        assert(s.children@.take(n as int) =~= s.children@);
    }
    acc
}

/// Weight of a list of functions, saturating at `usize::MAX`.
fn measure_funcs(fs: &Vec<FunctionDef>) -> (r: usize)
    ensures
        r == nat_min(funcs_weight(fs@), usize::MAX as nat),
{
    let n = fs.len();
    let mut acc: usize = 0;
    let mut i: usize = 0;
    proof {
        assert(fs@.take(0) =~= Seq::<FunctionDef>::empty());
    }
    while i < n
        invariant
            n == fs@.len(),
            0 <= i <= n,
            acc == nat_min(funcs_weight(fs@.take(i as int)), usize::MAX as nat),
        decreases n - i,
    {
        let body = &fs[i].body;
        let bn = body.len();
        let mut bw: usize = 0;
        let mut j: usize = 0;
        proof {
            assert(body@.take(0) =~= Seq::<StmtNode>::empty());
        }
        while j < bn
            invariant
                bn == body@.len(),
                0 <= j <= bn,
                bw == nat_min(count_nodes(body@.take(j as int)), usize::MAX as nat),
            decreases bn - j,
        {
            let w = measure_stmt(&body[j]);
            proof {
                lemma_count_nodes_push(body@.take(j as int), body@[j as int]);
                assert(body@.take(j as int + 1) =~= body@.take(j as int).push(body@[j as int]));
            }
            bw = bw.saturating_add(w);
            j = j + 1;
        }
        proof {
            assert(body@.take(bn as int) =~= body@);
            lemma_funcs_weight_push(fs@.take(i as int), fs@[i as int]);
            assert(fs@.take(i as int + 1) =~= fs@.take(i as int).push(fs@[i as int]));
        }
        acc = acc.saturating_add(1).saturating_add(bw);
        i = i + 1;
    }
    proof {
        assert(fs@.take(n as int) =~= fs@);
    }
    acc
}

/// Weight of the whole candidate file list, saturating at `usize::MAX`.
pub fn measure_project(files: &Vec<SourceFile>) -> (r: usize)
    ensures
        r == nat_min(project_weight(files@), usize::MAX as nat),
{
    let n = files.len();
    let mut acc: usize = 0;
    let mut i: usize = 0;
    proof {
        assert(files@.take(0) =~= Seq::<SourceFile>::empty());
    }
    while i < n
        invariant
            n == files@.len(),
            0 <= i <= n,
            acc == nat_min(project_weight(files@.take(i as int)), usize::MAX as nat),
        decreases n - i,
    {
        let fw: usize = match &files[i].data {
            crate::ast::FileData::Unreadable => 0,
            crate::ast::FileData::Unparsed(content) => content.len(),
            crate::ast::FileData::Parsed(content, funcs) => {
                let mw = measure_funcs(funcs);
                content.len().saturating_add(mw)
            },
        };
        proof {
            assert(fw == nat_min(file_weight(files@[i as int]), usize::MAX as nat));
            lemma_project_weight_push(files@.take(i as int), files@[i as int]);
            assert(files@.take(i as int + 1) =~= files@.take(i as int).push(files@[i as int]));
        }
        acc = acc.saturating_add(fw);
        i = i + 1;
    }
    proof {
        assert(files@.take(n as int) =~= files@);
    }
    acc
}

} // verus!
