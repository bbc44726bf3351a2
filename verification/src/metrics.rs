//! Per-function and per-file metric records, and the file analyzer.
//!
//! `analyze_file` turns one candidate file's data into its contribution to
//! the project totals and its per-file detail record. A file that could not
//! be read contributes all zeroes; one that was read but did not parse still
//! contributes its line and comment counts, but no functions — that
//! asymmetry is deliberate and kept.

use vstd::prelude::*;

use crate::ast::FileData;
use crate::ast::FunctionDef;
use crate::ast::count_branches;
use crate::ast::count_nodes;
use crate::ast::lemma_branches_le_nodes;
use crate::ast::max_nesting_of;
use crate::ast::nat_max;
use crate::text::count_comments;
use crate::text::count_lines;
use crate::text::spec_comment_count;
use crate::text::spec_line_count;
use crate::visitor::analyze_body;

verus! {

/// One function's metrics: the file it lives in, its name, its cyclomatic
/// complexity and its statement count.
pub struct FunctionMetric {
    pub file: String,
    pub function: String,
    pub complexity: usize,
    pub loc: usize,
}

impl Clone for FunctionMetric {
    /// An exact copy of the record.
    fn clone(&self) -> (r: Self)
        ensures
            r == *self,
    {
        FunctionMetric {
            file: self.file.clone(),
            function: self.function.clone(),
            complexity: self.complexity,
            loc: self.loc,
        }
    }
}

/// One file's detail: its label, the sum of its functions' complexities,
/// and one record per top-level function, in source order.
pub struct FileMetrics {
    pub file: String,
    pub total_complexity: usize,
    pub functions: Vec<FunctionMetric>,
}

impl Clone for FileMetrics {
    /// An exact copy of the detail record.
    fn clone(&self) -> (r: Self)
        ensures
            r.file == self.file,
            r.total_complexity == self.total_complexity,
            r.functions@ == self.functions@,
    {
        let mut functions: Vec<FunctionMetric> = Vec::new();
        let n = self.functions.len();
        let mut i: usize = 0;
        while i < n
            invariant
                n == self.functions@.len(),
                0 <= i <= n,
                functions@ == self.functions@.take(i as int),
            decreases n - i,
        {
            proof {
                assert(self.functions@.take(i as int + 1) =~= self.functions@.take(i as int).push(
                    self.functions@[i as int],
                ));
            }
            functions.push(self.functions[i].clone());
            i = i + 1;
        }
        proof {
            assert(self.functions@.take(n as int) =~= self.functions@);
        }
        FileMetrics { file: self.file.clone(), total_complexity: self.total_complexity, functions }
    }
}

/// Project-wide totals and extremal trackers. The Halstead counters exist
/// in the data model but no analyzer populates them; they stay zero, a
/// known defect that downstream consumers of the maintainability formula
/// depend on, so it is kept deliberately. KLOC is `loc / 1000`, derived at
/// the reporting edge.
pub struct CodeMetrics {
    pub loc: usize,
    pub cyclomatic_complexity: usize,
    pub functions: usize,
    pub comments: usize,
    pub longest_function_loc: usize,
    pub max_nesting_depth: usize,
    pub file_with_max_complexity: String,
    pub max_file_complexity: usize,
    pub halstead_operators: usize,
    pub halstead_operands: usize,
    pub halstead_unique_operators: usize,
    pub halstead_unique_operands: usize,
    pub cyclomatic_distribution: [usize; 3],
}

impl Clone for CodeMetrics {
    /// An exact copy of the totals.
    fn clone(&self) -> (r: Self)
        ensures
            r == *self,
    {
        CodeMetrics {
            loc: self.loc,
            cyclomatic_complexity: self.cyclomatic_complexity,
            functions: self.functions,
            comments: self.comments,
            longest_function_loc: self.longest_function_loc,
            max_nesting_depth: self.max_nesting_depth,
            file_with_max_complexity: self.file_with_max_complexity.clone(),
            max_file_complexity: self.max_file_complexity,
            halstead_operators: self.halstead_operators,
            halstead_operands: self.halstead_operands,
            halstead_unique_operators: self.halstead_unique_operators,
            halstead_unique_operands: self.halstead_unique_operands,
            cyclomatic_distribution: self.cyclomatic_distribution,
        }
    }
}

impl Default for CodeMetrics {
    /// All counters zero, no file named yet.
    fn default() -> (d: Self)
        ensures
            d.loc == 0,
            d.cyclomatic_complexity == 0,
            d.functions == 0,
            d.comments == 0,
            d.longest_function_loc == 0,
            d.max_nesting_depth == 0,
            d.file_with_max_complexity@ == Seq::<char>::empty(),
            d.max_file_complexity == 0,
            d.halstead_operators == 0,
            d.halstead_operands == 0,
            d.halstead_unique_operators == 0,
            d.halstead_unique_operands == 0,
            d.cyclomatic_distribution@ == seq![0usize, 0usize, 0usize],
    {
        let d = CodeMetrics {
            loc: 0,
            cyclomatic_complexity: 0,
            functions: 0,
            comments: 0,
            longest_function_loc: 0,
            max_nesting_depth: 0,
            file_with_max_complexity: String::new(),
            max_file_complexity: 0,
            halstead_operators: 0,
            halstead_operands: 0,
            halstead_unique_operators: 0,
            halstead_unique_operands: 0,
            cyclomatic_distribution: [0, 0, 0],
        };
        proof {
            assert(d.cyclomatic_distribution@ =~= seq![0usize, 0usize, 0usize]);
        }
        d
    }
}

/// The text that was read from a file, if any.
pub open spec fn data_content(d: FileData) -> Seq<char> {
    match d {
        FileData::Unreadable => Seq::<char>::empty(),
        FileData::Unparsed(c) => c@,
        FileData::Parsed(c, _) => c@,
    }
}

/// The top-level functions that were parsed out of a file, if any.
pub open spec fn data_funcs(d: FileData) -> Seq<FunctionDef> {
    match d {
        FileData::Parsed(_, fs) => fs@,
        _ => Seq::<FunctionDef>::empty(),
    }
}

/// One function's cyclomatic complexity: the baseline path plus one per
/// branching statement anywhere in its body.
pub open spec fn fd_complexity(f: FunctionDef) -> nat {
    1 + count_branches(f.body@)
}

/// One function's statement-count `loc`: its direct statements.
pub open spec fn fd_loc(f: FunctionDef) -> nat {
    f.body@.len()
}

/// The distribution bucket a complexity falls in: low is 5 or less,
/// moderate is 6 to 10, high is above 10.
pub open spec fn bucket_index(c: nat) -> int {
    if c <= 5 {
        0
    } else if c <= 10 {
        1
    } else {
        2
    }
}

/// Sum of the functions' complexities.
pub open spec fn total_complexity(fs: Seq<FunctionDef>) -> nat
    decreases fs,
{
    if fs.len() == 0 {
        0
    } else {
        fd_complexity(fs[0]) + total_complexity(fs.drop_first())
    }
}

/// Largest statement count of any of the functions.
pub open spec fn max_fn_loc(fs: Seq<FunctionDef>) -> nat
    decreases fs,
{
    if fs.len() == 0 {
        0
    } else {
        nat_max(fd_loc(fs[0]), max_fn_loc(fs.drop_first()))
    }
}

/// Deepest block nesting of any of the functions.
pub open spec fn max_fn_nesting(fs: Seq<FunctionDef>) -> nat
    decreases fs,
{
    if fs.len() == 0 {
        0
    } else {
        nat_max(max_nesting_of(fs[0].body@), max_fn_nesting(fs.drop_first()))
    }
}

/// How many of the functions fall in distribution bucket `b`.
pub open spec fn bucket_count(fs: Seq<FunctionDef>, b: int) -> nat
    decreases fs,
{
    if fs.len() == 0 {
        0
    } else {
        (if bucket_index(fd_complexity(fs[0])) == b {
            1nat
        } else {
            0nat
        }) + bucket_count(fs.drop_first(), b)
    }
}

/// Size measure of a list of functions: one unit per function plus one per
/// statement node. Every counter the analyzer accumulates is bounded by it.
pub open spec fn funcs_weight(fs: Seq<FunctionDef>) -> nat
    decreases fs,
{
    if fs.len() == 0 {
        0
    } else {
        1 + count_nodes(fs[0].body@) + funcs_weight(fs.drop_first())
    }
}

/// The metric record of one function of one file.
pub open spec fn record_of(path: String, f: FunctionDef) -> FunctionMetric {
    FunctionMetric {
        file: path,
        function: f.name,
        complexity: fd_complexity(f) as usize,
        loc: fd_loc(f) as usize,
    }
}

/// The metric records of a list of functions, in order.
pub open spec fn records_of(path: String, fs: Seq<FunctionDef>) -> Seq<FunctionMetric>
    decreases fs,
{
    if fs.len() == 0 {
        Seq::<FunctionMetric>::empty()
    } else {
        seq![record_of(path, fs[0])] + records_of(path, fs.drop_first())
    }
}

/// The counters are bounded by the size measure.
pub proof fn lemma_counters_le_weight(fs: Seq<FunctionDef>)
    ensures
        total_complexity(fs) <= funcs_weight(fs),
        fs.len() <= funcs_weight(fs),
        max_fn_loc(fs) <= funcs_weight(fs),
        max_fn_nesting(fs) <= funcs_weight(fs),
    decreases fs,
{
    if fs.len() > 0 {
        lemma_branches_le_nodes(fs[0].body@);
        crate::ast::lemma_nesting_le_nodes(fs[0].body@);
        crate::ast::lemma_len_le_nodes(fs[0].body@);
        lemma_counters_le_weight(fs.drop_first());
    }
}

/// Every function falls in exactly one bucket, so the three bucket counts
/// always sum to the number of functions.
pub proof fn lemma_buckets_sum(fs: Seq<FunctionDef>)
    ensures
        bucket_count(fs, 0) + bucket_count(fs, 1) + bucket_count(fs, 2) == fs.len(),
    decreases fs,
{
    if fs.len() > 0 {
        lemma_buckets_sum(fs.drop_first());
    }
}

/// No bucket holds more functions than there are.
pub proof fn lemma_bucket_le_len(fs: Seq<FunctionDef>, b: int)
    ensures
        bucket_count(fs, b) <= fs.len(),
    decreases fs,
{
    if fs.len() > 0 {
        lemma_bucket_le_len(fs.drop_first(), b);
    }
}

/// A function whose body holds no conditional, loop or pattern-match
/// statement anywhere keeps the single baseline path: its cyclomatic
/// complexity is exactly 1.
pub proof fn lemma_straight_line_complexity(f: FunctionDef)
    requires
        crate::ast::branch_free(f.body@),
    ensures
        fd_complexity(f) == 1,
{
    crate::ast::lemma_branch_free_no_branches(f.body@);
}

/// Analyzes one candidate file: its contribution to the project totals and
/// its per-file detail. An unreadable file contributes zeroes; an unparsed
/// one only its line and comment counts; a parsed one also one record per
/// top-level function. The extremal and Halstead fields of the returned
/// totals stay zero: only the project aggregator fills them.
pub fn analyze_file(path: &String, data: &FileData) -> (r: (CodeMetrics, FileMetrics))
    requires
        funcs_weight(data_funcs(*data)) <= usize::MAX,
    ensures
        r.0.loc == spec_line_count(data_content(*data)),
        r.0.comments == spec_comment_count(data_content(*data)),
        r.0.functions == data_funcs(*data).len(),
        r.0.cyclomatic_complexity == total_complexity(data_funcs(*data)),
        r.0.longest_function_loc == max_fn_loc(data_funcs(*data)),
        r.0.max_nesting_depth == max_fn_nesting(data_funcs(*data)),
        r.0.cyclomatic_distribution@.len() == 3,
        r.0.cyclomatic_distribution@[0] == bucket_count(data_funcs(*data), 0),
        r.0.cyclomatic_distribution@[1] == bucket_count(data_funcs(*data), 1),
        r.0.cyclomatic_distribution@[2] == bucket_count(data_funcs(*data), 2),
        r.0.max_file_complexity == 0,
        r.0.file_with_max_complexity@ == Seq::<char>::empty(),
        r.0.halstead_operators == 0,
        r.0.halstead_operands == 0,
        r.0.halstead_unique_operators == 0,
        r.0.halstead_unique_operands == 0,
        r.1.file == *path,
        r.1.total_complexity == total_complexity(data_funcs(*data)),
        r.1.functions@ == records_of(*path, data_funcs(*data)),
{
    let mut metrics = CodeMetrics::default();
    let mut detail_functions: Vec<FunctionMetric> = Vec::new();
    let mut detail_total: usize = 0;
    match data {
        FileData::Unreadable => {
            proof {
                assert(data_content(*data) =~= Seq::<char>::empty());
                assert(spec_line_count(data_content(*data)) == 0);
                assert(spec_comment_count(data_content(*data)) == 0);
            }
        },
        FileData::Unparsed(content) => {
            metrics.loc = count_lines(content);
            metrics.comments = count_comments(content);
            proof {
                assert(data_content(*data) == content@);
            }
        },
        FileData::Parsed(content, funcs) => {
            metrics.loc = count_lines(content);
            metrics.comments = count_comments(content);
            let ghost fs = funcs@;
            proof {
                assert(data_content(*data) == content@);
                assert(data_funcs(*data) == fs);
                assert(fs.skip(0) =~= fs);
                lemma_counters_le_weight(fs);
                lemma_bucket_le_len(fs, 0);
                lemma_bucket_le_len(fs, 1);
                lemma_bucket_le_len(fs, 2);
            }
            let n = funcs.len();
            let mut d0: usize = 0;
            let mut d1: usize = 0;
            let mut d2: usize = 0;
            let mut i: usize = 0;
            while i < n
                invariant
                    n == fs.len(),
                    fs == funcs@,
                    0 <= i <= n,
                    metrics.loc == spec_line_count(content@),
                    metrics.comments == spec_comment_count(content@),
                    metrics.max_file_complexity == 0,
                    metrics.file_with_max_complexity@ == Seq::<char>::empty(),
                    metrics.halstead_operators == 0,
                    metrics.halstead_operands == 0,
                    metrics.halstead_unique_operators == 0,
                    metrics.halstead_unique_operands == 0,
                    funcs_weight(fs) <= usize::MAX,
                    total_complexity(fs) <= funcs_weight(fs),
                    max_fn_loc(fs) <= funcs_weight(fs),
                    max_fn_nesting(fs) <= funcs_weight(fs),
                    funcs_weight(fs.skip(i as int)) <= funcs_weight(fs),
                    metrics.functions == i,
                    metrics.cyclomatic_complexity + total_complexity(fs.skip(i as int))
                        == total_complexity(fs),
                    detail_total == metrics.cyclomatic_complexity,
                    nat_max(metrics.longest_function_loc as nat, max_fn_loc(fs.skip(i as int)))
                        == max_fn_loc(fs),
                    nat_max(metrics.max_nesting_depth as nat, max_fn_nesting(fs.skip(i as int)))
                        == max_fn_nesting(fs),
                    d0 + bucket_count(fs.skip(i as int), 0) == bucket_count(fs, 0),
                    d1 + bucket_count(fs.skip(i as int), 1) == bucket_count(fs, 1),
                    d2 + bucket_count(fs.skip(i as int), 2) == bucket_count(fs, 2),
                    bucket_count(fs, 0) <= fs.len(),
                    bucket_count(fs, 1) <= fs.len(),
                    bucket_count(fs, 2) <= fs.len(),
                    detail_functions@ + records_of(*path, fs.skip(i as int)) == records_of(
                        *path,
                        fs,
                    ),
                decreases n - i,
            {
                proof {
                    assert(fs.skip(i as int)[0] == fs[i as int]);
                    assert(fs.skip(i as int).drop_first() =~= fs.skip(i as int + 1));
                }
                let fd = &funcs[i];
                let function_loc = fd.body.len();
                let (complexity, nesting) = analyze_body(&fd.body);
                metrics.functions = metrics.functions + 1;
                if function_loc > metrics.longest_function_loc {
                    metrics.longest_function_loc = function_loc;
                }
                metrics.cyclomatic_complexity = metrics.cyclomatic_complexity + complexity;
                detail_total = detail_total + complexity;
                if nesting > metrics.max_nesting_depth {
                    metrics.max_nesting_depth = nesting;
                }
                if complexity <= 5 {
                    d0 = d0 + 1;
                } else if complexity <= 10 {
                    d1 = d1 + 1;
                } else {
                    d2 = d2 + 1;
                }
                let m = FunctionMetric {
                    file: path.clone(),
                    function: fd.name.clone(),
                    complexity,
                    loc: function_loc,
                };
                proof {
                    assert(m == record_of(*path, fs[i as int]));
                    assert((detail_functions@ + seq![m]) + records_of(*path, fs.skip(i as int + 1))
                        =~= detail_functions@ + records_of(*path, fs.skip(i as int)));
                }
                detail_functions.push(m);
                i = i + 1;
            }
            proof {
                assert(fs.skip(n as int) =~= Seq::<FunctionDef>::empty());
                assert(detail_functions@ + Seq::<FunctionMetric>::empty() =~= detail_functions@);
            }
            metrics.cyclomatic_distribution = [d0, d1, d2];
            proof {
                assert(metrics.cyclomatic_distribution@ =~= seq![d0, d1, d2]);
            }
        },
    }
    let detail = FileMetrics {
        file: path.clone(),
        total_complexity: detail_total,
        functions: detail_functions,
    };
    (metrics, detail)
}

} // verus!
