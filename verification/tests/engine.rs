use techdebt_tracker::aggregate::calculate_metrics;
use techdebt_tracker::aggregate::threshold_exceeded;
use techdebt_tracker::aggregate::try_calculate_metrics;
use techdebt_tracker::ast::FileData;
use techdebt_tracker::ast::FunctionDef;
use techdebt_tracker::ast::SourceFile;
use techdebt_tracker::ast::StmtKind;
use techdebt_tracker::ast::StmtNode;
use techdebt_tracker::metrics::analyze_file;
use techdebt_tracker::text::count_comments;
use techdebt_tracker::text::count_lines;
use techdebt_tracker::visitor::analyze_body;
use techdebt_tracker::visitor::CyclomaticComplexityVisitor;

fn other() -> StmtNode {
    StmtNode { kind: StmtKind::Other, children: Vec::new() }
}

fn branch() -> StmtNode {
    StmtNode { kind: StmtKind::Branch, children: Vec::new() }
}

fn block(children: Vec<StmtNode>) -> StmtNode {
    StmtNode { kind: StmtKind::Block, children }
}

fn func(name: &str, body: Vec<StmtNode>) -> FunctionDef {
    FunctionDef { name: name.to_string(), body }
}

fn chars(text: &str) -> Vec<char> {
    text.chars().collect()
}

fn parsed_file(path: &str, text: &str, funcs: Vec<FunctionDef>) -> SourceFile {
    SourceFile { path: path.to_string(), data: FileData::Parsed(chars(text), funcs) }
}

#[test]
fn fresh_visitor_starts_at_baseline() {
    let v = CyclomaticComplexityVisitor::new();
    assert_eq!(v.complexity, 1);
    assert_eq!(v.max_nesting, 0);
    assert_eq!(v.current_nesting, 0);
}

#[test]
fn visitor_counts_a_branch_statement() {
    let mut v = CyclomaticComplexityVisitor::new();
    let stmt = branch();
    v.visit_stmt(&stmt);
    assert_eq!(v.complexity, 2);
    assert_eq!(v.max_nesting, 0);
    assert_eq!(v.current_nesting, 0);
}

#[test]
fn straight_line_function_has_complexity_one() {
    let body = vec![other(), other(), other()];
    let (complexity, nesting) = analyze_body(&body);
    assert_eq!(complexity, 1);
    assert_eq!(nesting, 0);
}

#[test]
fn two_ifs_and_a_while_score_four() {
    // One function with two sequential conditionals and one loop:
    // 1 baseline + 3 branches = 4, in the lowest bucket.
    let body = vec![branch(), branch(), branch()];
    let file = parsed_file("lib.rs", "fn f() {}\n", vec![func("f", body)]);
    let (metrics, detail) = analyze_file(&file.path, &file.data);
    assert_eq!(metrics.cyclomatic_complexity, 4);
    assert_eq!(metrics.cyclomatic_distribution, [1, 0, 0]);
    assert_eq!(detail.functions.len(), 1);
    assert_eq!(detail.functions[0].complexity, 4);
    assert_eq!(detail.functions[0].function, "f");
}

#[test]
fn nested_blocks_set_the_nesting_depth() {
    let body = vec![block(vec![block(vec![other()])]), other()];
    let (complexity, nesting) = analyze_body(&body);
    assert_eq!(complexity, 1);
    assert_eq!(nesting, 2);
}

#[test]
fn branches_inside_blocks_still_count() {
    let body = vec![block(vec![branch(), block(vec![branch()])])];
    let (complexity, nesting) = analyze_body(&body);
    assert_eq!(complexity, 3);
    assert_eq!(nesting, 2);
}

#[test]
fn line_counting_matches_newline_structure() {
    assert_eq!(count_lines(&chars("")), 0);
    assert_eq!(count_lines(&chars("a")), 1);
    assert_eq!(count_lines(&chars("a\n")), 1);
    assert_eq!(count_lines(&chars("a\nb")), 2);
    assert_eq!(count_lines(&chars("a\nb\n")), 2);
    assert_eq!(count_lines(&chars("\n\n")), 2);
}

#[test]
fn comment_lines_need_leading_double_slash() {
    assert_eq!(count_comments(&chars("// a\nx\n  // b\n")), 2);
    assert_eq!(count_comments(&chars("\t//tab indented\n")), 1);
    assert_eq!(count_comments(&chars("x // trailing is no comment line\n")), 0);
    assert_eq!(count_comments(&chars("/* block comments are not detected */\n")), 0);
    assert_eq!(count_comments(&chars("//last line without newline")), 1);
    assert_eq!(count_comments(&chars("/\n")), 0);
}

#[test]
fn unicode_whitespace_is_trimmed_before_the_marker() {
    assert_eq!(count_comments(&chars("\u{A0}// nbsp indented\n")), 1);
    assert_eq!(count_comments(&chars("\u{3000}// ideographic space\n")), 1);
}

#[test]
fn unreadable_file_contributes_nothing() {
    let path = "gone.rs".to_string();
    let (metrics, detail) = analyze_file(&path, &FileData::Unreadable);
    assert_eq!(metrics.loc, 0);
    assert_eq!(metrics.comments, 0);
    assert_eq!(metrics.functions, 0);
    assert_eq!(metrics.cyclomatic_complexity, 0);
    assert_eq!(detail.file, "gone.rs");
    assert_eq!(detail.total_complexity, 0);
    assert!(detail.functions.is_empty());
}

#[test]
fn unparsed_file_keeps_line_and_comment_counts() {
    let path = "broken.rs".to_string();
    let data = FileData::Unparsed(chars("// header\nfn broken( {\n"));
    let (metrics, detail) = analyze_file(&path, &data);
    assert_eq!(metrics.loc, 2);
    assert_eq!(metrics.comments, 1);
    assert_eq!(metrics.functions, 0);
    assert_eq!(metrics.cyclomatic_complexity, 0);
    assert!(detail.functions.is_empty());
}

#[test]
fn empty_project_yields_zero_metrics() {
    let files: Vec<SourceFile> = Vec::new();
    let (metrics, details, top) = calculate_metrics(&files);
    assert_eq!(metrics.loc, 0);
    assert_eq!(metrics.functions, 0);
    assert_eq!(metrics.cyclomatic_complexity, 0);
    assert_eq!(metrics.cyclomatic_distribution, [0, 0, 0]);
    assert_eq!(metrics.file_with_max_complexity, "");
    assert_eq!(metrics.max_file_complexity, 0);
    assert!(details.is_empty());
    assert!(top.is_empty());
}

#[test]
fn project_totals_sum_over_files() {
    let a = parsed_file(
        "a.rs",
        "// one\nfn f() {}\nfn g() {}\n",
        vec![func("f", vec![branch()]), func("g", vec![other(), other()])],
    );
    let b = parsed_file("b.rs", "fn h() {}\n", vec![func("h", (0..10).map(|_| branch()).collect())]);
    let (metrics, details, top) = calculate_metrics(&vec![a, b]);
    assert_eq!(metrics.loc, 4);
    assert_eq!(metrics.comments, 1);
    assert_eq!(metrics.functions, 3);
    // f: 2, g: 1, h: 11
    assert_eq!(metrics.cyclomatic_complexity, 14);
    assert_eq!(metrics.longest_function_loc, 10);
    assert_eq!(metrics.cyclomatic_distribution, [2, 0, 1]);
    assert_eq!(metrics.max_file_complexity, 11);
    assert_eq!(metrics.file_with_max_complexity, "b.rs");
    assert_eq!(details.len(), 2);
    assert_eq!(details[0].total_complexity, 3);
    assert_eq!(details[1].total_complexity, 11);
    assert_eq!(top.len(), 3);
    assert_eq!(top[0].function, "h");
    assert_eq!(top[0].complexity, 11);
}

#[test]
fn distribution_sums_to_function_count() {
    let mut functions = Vec::new();
    for i in 0..7usize {
        functions.push(func(&format!("f{}", i), (0..i).map(|_| branch()).collect()));
    }
    let file = parsed_file("d.rs", "x\n", functions);
    let (metrics, _, _) = calculate_metrics(&vec![file]);
    let [d0, d1, d2] = metrics.cyclomatic_distribution;
    assert_eq!(d0 + d1 + d2, metrics.functions);
    assert_eq!(metrics.functions, 7);
    assert_eq!([d0, d1, d2], [5, 2, 0]);
}

#[test]
fn top_functions_capped_at_twenty_and_sorted() {
    let mut files = Vec::new();
    for i in 0..25usize {
        let body: Vec<StmtNode> = (0..i).map(|_| branch()).collect();
        files.push(parsed_file(
            &format!("f{}.rs", i),
            "line\n",
            vec![func(&format!("fun{}", i), body)],
        ));
    }
    let (_, _, top) = calculate_metrics(&files);
    assert_eq!(top.len(), 20);
    for w in top.windows(2) {
        assert!(w[0].complexity >= w[1].complexity);
    }
    assert_eq!(top[0].complexity, 25);
    assert_eq!(top[19].complexity, 6);
}

#[test]
fn ranking_is_stable_on_equal_complexity() {
    let file = parsed_file(
        "s.rs",
        "x\n",
        vec![
            func("first", vec![branch()]),
            func("second", vec![branch()]),
            func("third", vec![branch(), branch()]),
        ],
    );
    let (_, _, top) = calculate_metrics(&vec![file]);
    assert_eq!(top[0].function, "third");
    assert_eq!(top[1].function, "first");
    assert_eq!(top[2].function, "second");
}

#[test]
fn max_complexity_tie_keeps_the_earlier_file() {
    let a = parsed_file("first.rs", "x\n", vec![func("f", vec![branch(), branch()])]);
    let b = parsed_file("second.rs", "x\n", vec![func("g", vec![branch(), branch()])]);
    let (metrics, _, _) = calculate_metrics(&vec![a, b]);
    assert_eq!(metrics.max_file_complexity, 3);
    assert_eq!(metrics.file_with_max_complexity, "first.rs");
}

#[test]
fn running_twice_gives_the_same_report() {
    let build = || {
        vec![
            parsed_file(
                "a.rs",
                "// c\nfn f() {}\n",
                vec![func("f", vec![branch(), block(vec![branch()])])],
            ),
            SourceFile { path: "skip.rs".to_string(), data: FileData::Unreadable },
            parsed_file("b.rs", "x\ny\n", vec![func("g", vec![other()])]),
        ]
    };
    let (m1, d1, t1) = calculate_metrics(&build());
    let (m2, d2, t2) = calculate_metrics(&build());
    assert_eq!(m1.loc, m2.loc);
    assert_eq!(m1.comments, m2.comments);
    assert_eq!(m1.functions, m2.functions);
    assert_eq!(m1.cyclomatic_complexity, m2.cyclomatic_complexity);
    assert_eq!(m1.longest_function_loc, m2.longest_function_loc);
    assert_eq!(m1.max_nesting_depth, m2.max_nesting_depth);
    assert_eq!(m1.cyclomatic_distribution, m2.cyclomatic_distribution);
    assert_eq!(m1.file_with_max_complexity, m2.file_with_max_complexity);
    assert_eq!(m1.max_file_complexity, m2.max_file_complexity);
    assert_eq!(d1.len(), d2.len());
    for (x, y) in d1.iter().zip(d2.iter()) {
        assert_eq!(x.file, y.file);
        assert_eq!(x.total_complexity, y.total_complexity);
        assert_eq!(x.functions.len(), y.functions.len());
        for (p, q) in x.functions.iter().zip(y.functions.iter()) {
            assert_eq!(p.file, q.file);
            assert_eq!(p.function, q.function);
            assert_eq!(p.complexity, q.complexity);
            assert_eq!(p.loc, q.loc);
        }
    }
    assert_eq!(t1.len(), t2.len());
    for (p, q) in t1.iter().zip(t2.iter()) {
        assert_eq!(p.function, q.function);
        assert_eq!(p.complexity, q.complexity);
    }
}

#[test]
fn guarded_entry_accepts_ordinary_input() {
    let files = vec![parsed_file("a.rs", "x\n", vec![func("f", vec![branch()])])];
    let result = try_calculate_metrics(&files);
    let (metrics, _, top) = result.expect("small input must be accepted");
    assert_eq!(metrics.functions, 1);
    assert_eq!(top.len(), 1);
}

#[test]
fn threshold_gate_fires_only_above_the_limit() {
    // A project whose worst file scores 9 breaches a limit of 5 but not 9.
    let body: Vec<StmtNode> = (0..8).map(|_| branch()).collect();
    let file = parsed_file("hot.rs", "x\n", vec![func("f", body)]);
    let (metrics, _, _) = calculate_metrics(&vec![file]);
    assert_eq!(metrics.max_file_complexity, 9);
    assert!(threshold_exceeded(&metrics, 5));
    assert!(!threshold_exceeded(&metrics, 9));
    assert!(!threshold_exceeded(&metrics, 20));
}

#[test]
fn function_loc_is_statement_count_not_line_span() {
    let file = parsed_file("l.rs", "1\n2\n3\n4\n5\n", vec![func("f", vec![other(), branch()])]);
    let (metrics, detail) = analyze_file(&file.path, &file.data);
    assert_eq!(metrics.loc, 5);
    assert_eq!(detail.functions[0].loc, 2);
    assert_eq!(metrics.longest_function_loc, 2);
}
