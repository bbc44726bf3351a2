//! The project aggregator.
//!
//! Folds the per-file analyses over a caller-supplied list of candidate
//! files (an external directory walker chooses the files and their order)
//! into project-wide totals, extremal trackers and the ranked top-offenders
//! list. The fold is a pure function of the input list: every output field
//! is pinned to a specification-level fold, so two runs over the same list
//! produce the same report.

use vstd::prelude::*;

use crate::ast::SourceFile;
use crate::ast::nat_max;
use crate::metrics::CodeMetrics;
use crate::metrics::FileMetrics;
use crate::metrics::FunctionMetric;
use crate::metrics::analyze_file;
use crate::metrics::bucket_count;
use crate::metrics::data_content;
use crate::metrics::data_funcs;
use crate::metrics::lemma_bucket_le_len;
use crate::metrics::lemma_buckets_sum;
use crate::metrics::lemma_counters_le_weight;
use crate::metrics::max_fn_loc;
use crate::metrics::max_fn_nesting;
use crate::metrics::records_of;
use crate::metrics::total_complexity;
use crate::sort::sort_desc;
use crate::sort::sorted_by_complexity;
use crate::sort::sorted_desc;
use crate::text::lemma_comment_count_le;
use crate::text::lemma_line_count_le;
use crate::text::spec_comment_count;
use crate::text::spec_line_count;
use crate::weight::measure_project;
use crate::weight::project_weight;

verus! {

/// Sum of the files' line counts.
pub open spec fn loc_total(files: Seq<SourceFile>) -> nat
    decreases files,
{
    if files.len() == 0 {
        0
    } else {
        spec_line_count(data_content(files[0].data)) + loc_total(files.drop_first())
    }
}

/// Sum of the files' comment-line counts.
pub open spec fn comments_total(files: Seq<SourceFile>) -> nat
    decreases files,
{
    if files.len() == 0 {
        0
    } else {
        spec_comment_count(data_content(files[0].data)) + comments_total(files.drop_first())
    }
}

/// Total number of functions across the files.
pub open spec fn functions_total(files: Seq<SourceFile>) -> nat
    decreases files,
{
    if files.len() == 0 {
        0
    } else {
        data_funcs(files[0].data).len() + functions_total(files.drop_first())
    }
}

/// Sum of all functions' cyclomatic complexities.
pub open spec fn cc_total(files: Seq<SourceFile>) -> nat
    decreases files,
{
    if files.len() == 0 {
        0
    } else {
        total_complexity(data_funcs(files[0].data)) + cc_total(files.drop_first())
    }
}

/// Element-wise sum of the files' distribution buckets.
pub open spec fn bucket_total(files: Seq<SourceFile>, b: int) -> nat
    decreases files,
{
    if files.len() == 0 {
        0
    } else {
        bucket_count(data_funcs(files[0].data), b) + bucket_total(files.drop_first(), b)
    }
}

/// Largest statement count of any function in any file.
pub open spec fn longest_fn_total(files: Seq<SourceFile>) -> nat
    decreases files,
{
    if files.len() == 0 {
        0
    } else {
        nat_max(max_fn_loc(data_funcs(files[0].data)), longest_fn_total(files.drop_first()))
    }
}

/// Deepest block nesting of any function in any file.
pub open spec fn nesting_total(files: Seq<SourceFile>) -> nat
    decreases files,
{
    if files.len() == 0 {
        0
    } else {
        nat_max(max_fn_nesting(data_funcs(files[0].data)), nesting_total(files.drop_first()))
    }
}

/// The running maximum of per-file total complexity, together with the
/// label of the file that set it. A file takes the maximum over only when
/// its total strictly exceeds it, so on ties the earlier file is kept; the
/// caller's traversal order decides such ties and is otherwise meaningless.
pub open spec fn fold_max_file(files: Seq<SourceFile>, cur: nat, cur_file: Seq<char>) -> (
    nat,
    Seq<char>,
)
    decreases files,
{
    if files.len() == 0 {
        (cur, cur_file)
    } else {
        let tc = total_complexity(data_funcs(files[0].data));
        if tc > cur {
            fold_max_file(files.drop_first(), tc, files[0].path@)
        } else {
            fold_max_file(files.drop_first(), cur, cur_file)
        }
    }
}

/// All function records of all files, in traversal order.
pub open spec fn all_records(files: Seq<SourceFile>) -> Seq<FunctionMetric>
    decreases files,
{
    if files.len() == 0 {
        Seq::<FunctionMetric>::empty()
    } else {
        records_of(files[0].path, data_funcs(files[0].data)) + all_records(files.drop_first())
    }
}

/// The first twenty records of the ranked list, or all of them if there
/// are fewer.
pub open spec fn spec_top(s: Seq<FunctionMetric>) -> Seq<FunctionMetric> {
    if s.len() <= 20 {
        s
    } else {
        s.take(20)
    }
}

/// What `calculate_metrics` promises of its result: every field of the
/// totals, every per-file record and the ranked list are pinned to folds
/// of the input list.
pub open spec fn report_matches(
    files: Seq<SourceFile>,
    m: CodeMetrics,
    details: Seq<FileMetrics>,
    top: Seq<FunctionMetric>,
) -> bool {
    &&& m.loc == loc_total(files)
    &&& m.comments == comments_total(files)
    &&& m.functions == functions_total(files)
    &&& m.cyclomatic_complexity == cc_total(files)
    &&& m.longest_function_loc == longest_fn_total(files)
    &&& m.max_nesting_depth == nesting_total(files)
    &&& m.cyclomatic_distribution@.len() == 3
    &&& m.cyclomatic_distribution@[0] == bucket_total(files, 0)
    &&& m.cyclomatic_distribution@[1] == bucket_total(files, 1)
    &&& m.cyclomatic_distribution@[2] == bucket_total(files, 2)
    &&& m.max_file_complexity == fold_max_file(files, 0, Seq::<char>::empty()).0
    &&& m.file_with_max_complexity@ == fold_max_file(files, 0, Seq::<char>::empty()).1
    &&& m.halstead_operators == 0
    &&& m.halstead_operands == 0
    &&& m.halstead_unique_operators == 0
    &&& m.halstead_unique_operands == 0
    &&& details.len() == files.len()
    &&& (forall|i: int| 0 <= i < files.len() ==> (#[trigger] details[i]).file == files[i].path)
    &&& (forall|i: int|
        0 <= i < files.len() ==> (#[trigger] details[i]).total_complexity == total_complexity(
            data_funcs(files[i].data),
        ))
    &&& (forall|i: int|
        0 <= i < files.len() ==> (#[trigger] details[i]).functions@ == records_of(
            files[i].path,
            data_funcs(files[i].data),
        ))
    &&& top == spec_top(sort_desc(all_records(files)))
}

/// Every summed total is bounded by the project's size measure.
pub proof fn lemma_totals_le_weight(files: Seq<SourceFile>)
    ensures
        loc_total(files) <= project_weight(files),
        comments_total(files) <= project_weight(files),
        functions_total(files) <= project_weight(files),
        cc_total(files) <= project_weight(files),
    decreases files,
{
    if files.len() > 0 {
        lemma_line_count_le(data_content(files[0].data));
        lemma_comment_count_le(data_content(files[0].data));
        lemma_counters_le_weight(data_funcs(files[0].data));
        lemma_totals_le_weight(files.drop_first());
    }
}

/// No bucket sum exceeds the number of functions.
pub proof fn lemma_bucket_total_le(files: Seq<SourceFile>, b: int)
    ensures
        bucket_total(files, b) <= functions_total(files),
    decreases files,
{
    if files.len() > 0 {
        lemma_bucket_le_len(data_funcs(files[0].data), b);
        lemma_bucket_total_le(files.drop_first(), b);
    }
}

/// The three buckets partition the functions: their sums always add up to
/// the total function count.
pub proof fn lemma_distribution_sums_to_functions(files: Seq<SourceFile>)
    ensures
        bucket_total(files, 0) + bucket_total(files, 1) + bucket_total(files, 2)
            == functions_total(files),
    decreases files,
{
    if files.len() > 0 {
        lemma_buckets_sum(data_funcs(files[0].data));
        lemma_distribution_sums_to_functions(files.drop_first());
    }
}

/// The ranked list never holds more than twenty records and is sorted by
/// non-increasing complexity.
pub proof fn lemma_top_functions_shape(s: Seq<FunctionMetric>)
    ensures
        spec_top(sort_desc(s)).len() <= 20,
        sorted_desc(spec_top(sort_desc(s))),
{
    crate::sort::lemma_sort_desc_sorted(s);
    let sorted = sort_desc(s);
    let top = spec_top(sorted);
    assert forall|i: int, j: int|
        #![trigger top[i], top[j]]
        0 <= i <= j < top.len() implies top[i].complexity >= top[j].complexity by {
        assert(top[i] == sorted[i]);
        assert(top[j] == sorted[j]);
    }
}

/// A report is a function of the candidate list alone: any two outcomes
/// that both match the same list agree on every reported value. Running
/// the engine twice over an unchanged list therefore yields the same
/// report.
pub proof fn lemma_report_deterministic(
    files: Seq<SourceFile>,
    m1: CodeMetrics,
    d1: Seq<FileMetrics>,
    t1: Seq<FunctionMetric>,
    m2: CodeMetrics,
    d2: Seq<FileMetrics>,
    t2: Seq<FunctionMetric>,
)
    requires
        report_matches(files, m1, d1, t1),
        report_matches(files, m2, d2, t2),
    ensures
        m1.loc == m2.loc,
        m1.comments == m2.comments,
        m1.functions == m2.functions,
        m1.cyclomatic_complexity == m2.cyclomatic_complexity,
        m1.longest_function_loc == m2.longest_function_loc,
        m1.max_nesting_depth == m2.max_nesting_depth,
        m1.cyclomatic_distribution@ == m2.cyclomatic_distribution@,
        m1.max_file_complexity == m2.max_file_complexity,
        m1.file_with_max_complexity@ == m2.file_with_max_complexity@,
        t1 == t2,
        d1.len() == d2.len(),
        forall|i: int|
            0 <= i < files.len() ==> (#[trigger] d1[i]).file == d2[i].file
                && d1[i].total_complexity == d2[i].total_complexity && d1[i].functions@
                == d2[i].functions@,
{
    assert(m1.cyclomatic_distribution@ =~= m2.cyclomatic_distribution@);
}

/// Aggregates the whole candidate list into the project totals, the
/// per-file details and the ranked top-offenders list.
pub fn calculate_metrics(files: &Vec<SourceFile>) -> (r: (
    CodeMetrics,
    Vec<FileMetrics>,
    Vec<FunctionMetric>,
))
    requires
        project_weight(files@) < usize::MAX,
    ensures
        report_matches(files@, r.0, r.1@, r.2@),
{
    let ghost fsq = files@;
    proof {
        assert(fsq.skip(0) =~= fsq);
        lemma_totals_le_weight(fsq);
        lemma_bucket_total_le(fsq, 0);
        lemma_bucket_total_le(fsq, 1);
        lemma_bucket_total_le(fsq, 2);
    }
    let n = files.len();
    let mut loc_acc: usize = 0;
    let mut comments_acc: usize = 0;
    let mut functions_acc: usize = 0;
    let mut cc_acc: usize = 0;
    let mut longest_acc: usize = 0;
    let mut nesting_acc: usize = 0;
    let mut d0: usize = 0;
    let mut d1: usize = 0;
    let mut d2: usize = 0;
    let mut max_cc: usize = 0;
    let mut max_name: String = String::new();
    let mut out_files: Vec<FileMetrics> = Vec::new();
    let mut all_funcs: Vec<FunctionMetric> = Vec::new();
    let mut i: usize = 0;
    while i < n
        invariant
            n == fsq.len(),
            fsq == files@,
            0 <= i <= n,
            project_weight(fsq) < usize::MAX,
            loc_total(fsq) <= project_weight(fsq),
            comments_total(fsq) <= project_weight(fsq),
            functions_total(fsq) <= project_weight(fsq),
            cc_total(fsq) <= project_weight(fsq),
            bucket_total(fsq, 0) <= functions_total(fsq),
            bucket_total(fsq, 1) <= functions_total(fsq),
            bucket_total(fsq, 2) <= functions_total(fsq),
            project_weight(fsq.skip(i as int)) <= project_weight(fsq),
            loc_acc + loc_total(fsq.skip(i as int)) == loc_total(fsq),
            comments_acc + comments_total(fsq.skip(i as int)) == comments_total(fsq),
            functions_acc + functions_total(fsq.skip(i as int)) == functions_total(fsq),
            cc_acc + cc_total(fsq.skip(i as int)) == cc_total(fsq),
            nat_max(longest_acc as nat, longest_fn_total(fsq.skip(i as int))) == longest_fn_total(
                fsq,
            ),
            nat_max(nesting_acc as nat, nesting_total(fsq.skip(i as int))) == nesting_total(fsq),
            d0 + bucket_total(fsq.skip(i as int), 0) == bucket_total(fsq, 0),
            d1 + bucket_total(fsq.skip(i as int), 1) == bucket_total(fsq, 1),
            d2 + bucket_total(fsq.skip(i as int), 2) == bucket_total(fsq, 2),
            fold_max_file(fsq.skip(i as int), max_cc as nat, max_name@) == fold_max_file(
                fsq,
                0,
                Seq::<char>::empty(),
            ),
            all_funcs@ + all_records(fsq.skip(i as int)) == all_records(fsq),
            out_files@.len() == i,
            forall|j: int| 0 <= j < i ==> (#[trigger] out_files@[j]).file == fsq[j].path,
            forall|j: int|
                0 <= j < i ==> (#[trigger] out_files@[j]).total_complexity == total_complexity(
                    data_funcs(fsq[j].data),
                ),
            forall|j: int|
                0 <= j < i ==> (#[trigger] out_files@[j]).functions@ == records_of(
                    fsq[j].path,
                    data_funcs(fsq[j].data),
                ),
        decreases n - i,
    {
        proof {
            assert(fsq.skip(i as int)[0] == fsq[i as int]);
            assert(fsq.skip(i as int).drop_first() =~= fsq.skip(i as int + 1));
            crate::metrics::lemma_counters_le_weight(data_funcs(fsq[i as int].data));
        }
        let sf = &files[i];
        let (fm, detail) = analyze_file(&sf.path, &sf.data);
        loc_acc = loc_acc + fm.loc;
        comments_acc = comments_acc + fm.comments;
        functions_acc = functions_acc + fm.functions;
        cc_acc = cc_acc + fm.cyclomatic_complexity;
        if fm.longest_function_loc > longest_acc {
            longest_acc = fm.longest_function_loc;
        }
        if fm.max_nesting_depth > nesting_acc {
            nesting_acc = fm.max_nesting_depth;
        }
        d0 = d0 + fm.cyclomatic_distribution[0];
        d1 = d1 + fm.cyclomatic_distribution[1];
        d2 = d2 + fm.cyclomatic_distribution[2];
        if fm.cyclomatic_complexity > max_cc {
            max_cc = fm.cyclomatic_complexity;
            max_name = sf.path.clone();
        }
        let ghost funcs_before = all_funcs@;
        let fn_count = detail.functions.len();
        let mut j: usize = 0;
        while j < fn_count
            invariant
                fn_count == detail.functions@.len(),
                0 <= j <= fn_count,
                all_funcs@ == funcs_before + detail.functions@.take(j as int),
            decreases fn_count - j,
        {
            let rec = detail.functions[j].clone();
            proof {
                assert(detail.functions@.take(j as int + 1) =~= detail.functions@.take(
                    j as int,
                ).push(detail.functions@[j as int]));
            }
            all_funcs.push(rec);
            j = j + 1;
        }
        proof {
            assert(detail.functions@.take(fn_count as int) =~= detail.functions@);
            assert((funcs_before + records_of(fsq[i as int].path, data_funcs(fsq[i as int].data)))
                + all_records(fsq.skip(i as int + 1)) =~= funcs_before + all_records(
                fsq.skip(i as int),
            ));
        }
        out_files.push(detail);
        i = i + 1;
    }
    proof {
        assert(fsq.skip(n as int) =~= Seq::<SourceFile>::empty());
        assert(all_funcs@ + Seq::<FunctionMetric>::empty() =~= all_funcs@);
    }
    let mut top = sorted_by_complexity(&all_funcs);
    proof {
        crate::sort::lemma_sort_desc_len(all_records(fsq));
    }
    if top.len() > 20 {
        top.truncate(20);
        proof {
            assert(sort_desc(all_records(fsq)).subrange(0, 20) =~= spec_top(
                sort_desc(all_records(fsq)),
            ));
        }
    }
    let metrics = CodeMetrics {
        loc: loc_acc,
        cyclomatic_complexity: cc_acc,
        functions: functions_acc,
        comments: comments_acc,
        longest_function_loc: longest_acc,
        max_nesting_depth: nesting_acc,
        file_with_max_complexity: max_name,
        max_file_complexity: max_cc,
        halstead_operators: 0,
        halstead_operands: 0,
        halstead_unique_operators: 0,
        halstead_unique_operands: 0,
        cyclomatic_distribution: [d0, d1, d2],
    };
    proof {
        assert(metrics.cyclomatic_distribution@ =~= seq![d0, d1, d2]);
    }
    (metrics, out_files, top)
}

/// Aggregates the candidate list if it is small enough for the engine's
/// machine limits, and reports `None` otherwise. The limit is far beyond
/// any list that fits in memory.
pub fn try_calculate_metrics(files: &Vec<SourceFile>) -> (r: Option<
    (CodeMetrics, Vec<FileMetrics>, Vec<FunctionMetric>),
>)
    ensures
        project_weight(files@) < usize::MAX ==> (r matches Some(t) && report_matches(
            files@,
            t.0,
            t.1@,
            t.2@,
        )),
        project_weight(files@) >= usize::MAX ==> r is None,
{
    let w = measure_project(files);
    if w < usize::MAX {
        Some(calculate_metrics(files))
    } else {
        None
    }
}

/// Whether the project breaches a complexity gate: true exactly when the
/// largest per-file total complexity exceeds the threshold.
pub fn threshold_exceeded(metrics: &CodeMetrics, threshold: u32) -> (r: bool)
    ensures
        r <==> metrics.max_file_complexity > threshold as usize,
{
    metrics.max_file_complexity > threshold as usize
}

} // verus!
