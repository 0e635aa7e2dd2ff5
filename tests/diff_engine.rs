use text_diff::text::contains_cjk;
use text_diff::{DiffChunk, DiffEngine, DiffOptions, DiffResult, DiffType, Similarity};

fn options() -> DiffOptions {
    DiffOptions {
        ignore_case: false,
        ignore_whitespace: false,
        ignore_punctuation: false,
        split_by_paragraph: false,
        split_by_sentence: false,
        use_web_worker: false,
    }
}

fn percent(s: &Similarity) -> f64 {
    if s.total == 0 {
        100.0
    } else {
        s.unchanged as f64 * 100.0 / s.total as f64
    }
}

fn words(s: &str) -> usize {
    s.split_whitespace().count()
}

fn pull_all(engine: &DiffEngine, left: &str, right: &str, chunk_size: usize) -> Vec<DiffChunk> {
    let mut stream = engine.compute_diff_stream(left, right, chunk_size);
    let mut out = Vec::new();
    while let Some(chunk) = stream.next_chunk() {
        out.push(chunk);
    }
    out
}

fn kinds(result: &DiffResult) -> Vec<DiffType> {
    result.items.iter().map(|i| i.diff_type).collect()
}

#[test]
fn test_basic_diff() {
    let engine = DiffEngine::new(options());
    let result = engine.compute_diff("hello world", "hello rust");

    assert!(result.stats.total_changes > 0);
    assert!(percent(&result.stats.similarity) < 100.0);
}

#[test]
fn test_chinese_diff() {
    let mut o = options();
    o.split_by_sentence = true;
    let engine = DiffEngine::new(o);
    let result = engine.compute_diff("这是第一段。这是第二段。", "这是第一段。这是修改后的第二段。");

    assert_eq!(result.stats.modifications, 1);
    assert_eq!(kinds(&result), vec![DiffType::Equal, DiffType::Modify]);
    assert_eq!(result.items[1].content, "这是修改后的第二段。");
    assert_eq!(result.items[1].original_content.as_deref(), Some("这是第二段。"));
}

#[test]
fn test_chinese_text_diff() {
    let engine = DiffEngine::new(options());
    let left = "这是一段中文文本。\n包含多个句子。";
    let right = "这是一段修改后的中文文本。\n包含多个句子。";

    let result = engine.compute_diff(left, right);

    assert!(contains_cjk(left) || contains_cjk(right));
    assert!(percent(&result.stats.similarity) > 80.0);
}

#[test]
fn test_ignore_whitespace() {
    let mut o = options();
    o.ignore_whitespace = true;
    let engine = DiffEngine::new(o);
    let result = engine.compute_diff("Hello   World", "Hello World");

    assert_eq!(percent(&result.stats.similarity), 100.0);
    assert!(result.items.iter().all(|i| i.diff_type == DiffType::Equal));
}

#[test]
fn test_ignore_case() {
    let mut o = options();
    o.ignore_case = true;
    let engine = DiffEngine::new(o);
    let result = engine.compute_diff("Hello World", "hello world");

    assert_eq!(percent(&result.stats.similarity), 100.0);
}

#[test]
fn identical_inputs_give_only_equal_records() {
    let texts = ["", "a", "hello world", "这是第一段。这是第二段。", "Mixed 中文 and Latin. Two!"];
    let mut variants = vec![options()];
    let mut o = options();
    o.split_by_sentence = true;
    variants.push(o);
    let mut o = options();
    o.split_by_paragraph = true;
    o.ignore_case = true;
    o.ignore_whitespace = true;
    o.ignore_punctuation = true;
    variants.push(o);
    for o in variants {
        let engine = DiffEngine::new(o);
        for x in texts.iter() {
            let result = engine.compute_diff(x, x);
            assert!(result.items.iter().all(|i| i.diff_type == DiffType::Equal));
            assert_eq!(result.stats.total_changes, 0);
            assert!(result.stats.similarity.is_full());
            assert_eq!(percent(&result.stats.similarity), 100.0);
        }
    }
}

#[test]
fn empty_inputs_give_no_records() {
    let engine = DiffEngine::new(options());
    let result = engine.compute_diff("", "");
    assert!(result.items.is_empty());
    assert_eq!(result.stats.similarity, Similarity { unchanged: 0, total: 0 });
    assert_eq!(percent(&result.stats.similarity), 100.0);
}

#[test]
fn word_totals_match_record_contents() {
    let cases = [
        ("the quick brown fox", "the slow brown dog jumps"),
        ("One. Two words. Three", "One. Two more words. Four five. Six"),
        ("", "a b c"),
        ("x y z", ""),
    ];
    let mut seg = options();
    seg.split_by_sentence = true;
    for o in [options(), seg] {
        let engine = DiffEngine::new(o);
        for (l, r) in cases.iter() {
            let result = engine.compute_diff(l, r);
            let mut added = 0;
            let mut deleted = 0;
            for it in result.items.iter() {
                match it.diff_type {
                    DiffType::Add | DiffType::Modify => added += words(&it.content),
                    _ => {}
                }
                match it.diff_type {
                    DiffType::Remove | DiffType::Modify => {
                        deleted += words(it.original_content.as_deref().unwrap())
                    }
                    _ => {}
                }
            }
            assert_eq!(result.stats.added_words, added);
            assert_eq!(result.stats.deleted_words, deleted);
        }
    }
}

#[test]
fn character_diff_exact_records() {
    let engine = DiffEngine::new(options());
    let result = engine.compute_diff("abc", "abd");
    assert_eq!(
        kinds(&result),
        vec![DiffType::Equal, DiffType::Equal, DiffType::Remove, DiffType::Add]
    );
    let ids: Vec<&str> = result.items.iter().map(|i| i.id.as_str()).collect();
    assert_eq!(ids, vec!["diff-3", "diff-2", "diff-1", "diff-0"]);
    let contents: Vec<&str> = result.items.iter().map(|i| i.content.as_str()).collect();
    assert_eq!(contents, vec!["a", "b", "c", "d"]);
    assert_eq!(result.items[2].original_content.as_deref(), Some("c"));
    assert_eq!(result.items[3].original_content, None);
    let lines: Vec<Option<usize>> = result.items.iter().map(|i| i.line_number).collect();
    assert_eq!(lines, vec![Some(1), Some(2), Some(3), Some(3)]);
    assert_eq!(result.items[3].position.start, 2);
    assert_eq!(result.items[3].position.end, 3);
    assert_eq!(result.stats.additions, 1);
    assert_eq!(result.stats.deletions, 1);
    assert_eq!(result.stats.modifications, 0);
    assert_eq!(result.stats.total_changes, 2);
    assert_eq!(result.stats.added_words, 1);
    assert_eq!(result.stats.deleted_words, 1);
    assert_eq!(result.stats.similarity, Similarity { unchanged: 1, total: 3 });
}

#[test]
fn ties_favour_adding() {
    let engine = DiffEngine::new(options());
    let result = engine.compute_diff("a", "b");
    assert_eq!(kinds(&result), vec![DiffType::Remove, DiffType::Add]);
    assert_eq!(result.stats.similarity, Similarity { unchanged: 0, total: 1 });
}

#[test]
fn similarity_never_below_zero() {
    let engine = DiffEngine::new(options());
    let result = engine.compute_diff("abc", "xyz");
    assert_eq!(result.stats.similarity, Similarity { unchanged: 0, total: 3 });
    assert_eq!(result.stats.total_changes, 6);
}

#[test]
fn similarity_counts_bytes() {
    let engine = DiffEngine::new(options());
    let result = engine.compute_diff("中", "中文");
    assert_eq!(kinds(&result), vec![DiffType::Equal, DiffType::Add]);
    assert_eq!(result.stats.similarity, Similarity { unchanged: 3, total: 6 });
}

#[test]
fn latin_segments_drop_delimiters() {
    let mut o = options();
    o.split_by_sentence = true;
    let engine = DiffEngine::new(o);
    let result = engine.compute_diff("Hello. World.", "Hello. Rust. More.");
    assert_eq!(kinds(&result), vec![DiffType::Equal, DiffType::Modify, DiffType::Add]);
    assert_eq!(result.items[0].content, "Hello");
    assert_eq!(result.items[1].content, " Rust");
    assert_eq!(result.items[1].original_content.as_deref(), Some(" World"));
    assert_eq!(result.items[2].content, " More");
    assert_eq!(result.items[2].line_number, Some(3));
    assert_eq!(result.stats.modifications, 1);
    assert_eq!(result.stats.additions, 1);
    assert_eq!(result.stats.added_words, 2);
    assert_eq!(result.stats.deleted_words, 1);
}

#[test]
fn segment_walk_removes_what_is_left() {
    let mut o = options();
    o.split_by_paragraph = true;
    let engine = DiffEngine::new(o);
    let result = engine.compute_diff("a;b;c", "a");
    assert_eq!(kinds(&result), vec![DiffType::Equal, DiffType::Remove, DiffType::Remove]);
    assert_eq!(result.items[1].original_content.as_deref(), Some("b"));
    assert_eq!(result.items[2].line_number, Some(3));
}

#[test]
fn cjk_segments_keep_terminal_marks() {
    let mut o = options();
    o.split_by_sentence = true;
    let engine = DiffEngine::new(o);
    let result = engine.compute_diff("你好！再见", "你好！再见。");
    assert_eq!(kinds(&result), vec![DiffType::Equal, DiffType::Modify]);
    assert_eq!(result.items[0].content, "你好！");
    assert_eq!(result.items[1].content, "再见。");
    assert_eq!(result.items[1].original_content.as_deref(), Some("再见"));
}

#[test]
fn ignore_case_folds_before_comparing() {
    let mut o = options();
    o.ignore_case = true;
    let engine = DiffEngine::new(o);
    let result = engine.compute_diff("ABC", "abc");
    assert!(result.items.iter().all(|i| i.diff_type == DiffType::Equal));
    let contents: Vec<&str> = result.items.iter().map(|i| i.content.as_str()).collect();
    assert_eq!(contents, vec!["a", "b", "c"]);
}

#[test]
fn ignore_punctuation_strips_marks() {
    let mut o = options();
    o.ignore_punctuation = true;
    let engine = DiffEngine::new(o);
    let result = engine.compute_diff("a, b!", "a b");
    assert!(result.items.iter().all(|i| i.diff_type == DiffType::Equal));
    assert_eq!(result.items.len(), 3);
}

#[test]
fn ignore_whitespace_trims_and_collapses() {
    let mut o = options();
    o.ignore_whitespace = true;
    let engine = DiffEngine::new(o);
    let processed = engine.preprocess_text("  a \t\n b  ");
    assert_eq!(processed, vec!['a', ' ', 'b']);
}

#[test]
fn preprocessing_order_is_case_whitespace_punctuation() {
    let mut o = options();
    o.ignore_case = true;
    o.ignore_whitespace = true;
    o.ignore_punctuation = true;
    let engine = DiffEngine::new(o);
    let processed: String = engine.preprocess_text(" Hello ,  World! ").into_iter().collect();
    assert_eq!(processed, "hello  world");
}

#[test]
fn stream_of_five_identical_lines() {
    let engine = DiffEngine::new(options());
    let text = "l1\nl2\nl3\nl4\nl5";
    let chunks = pull_all(&engine, text, text, 2);
    assert_eq!(chunks.len(), 3);
    let indices: Vec<usize> = chunks.iter().map(|c| c.index).collect();
    assert_eq!(indices, vec![0, 1, 2]);
    assert!(chunks.iter().all(|c| c.total == 3));
    let last: String = chunks[2].items.iter().map(|i| i.content.as_str()).collect();
    assert_eq!(last, "l5");
    let first: String = chunks[0].items.iter().map(|i| i.content.as_str()).collect();
    assert_eq!(first, "l1\nl2");
}

#[test]
fn stream_chunk_counts_round_up() {
    let engine = DiffEngine::new(options());
    let cases = [
        ("", "", 3, 0),
        ("a", "", 3, 1),
        ("a\nb\nc", "x", 1, 3),
        ("a\nb\nc\n", "x\ny", 2, 2),
        ("a\r\nb", "a\nb\nc\nd", 3, 2),
        ("a\nb", "c", usize::MAX, 1),
    ];
    for (l, r, c, n) in cases.iter() {
        let mut stream = engine.compute_diff_stream(l, r, *c);
        assert_eq!(stream.remaining(), *n);
        let mut seen = 0;
        while let Some(chunk) = stream.next_chunk() {
            assert_eq!(chunk.index, seen);
            assert_eq!(chunk.total, *n);
            seen += 1;
        }
        assert_eq!(seen, *n);
        assert!(stream.next_chunk().is_none());
    }
}

#[test]
fn stream_chunks_are_scoped_to_their_window() {
    let engine = DiffEngine::new(options());
    let chunks = pull_all(&engine, "a\nb\nc", "a\nx\nc\nd", 2);
    assert_eq!(chunks.len(), 2);
    assert_eq!(chunks[0].partial_stats.total_changes, 2);
    let second: Vec<DiffType> = chunks[1].items.iter().map(|i| i.diff_type).collect();
    assert_eq!(second, vec![DiffType::Equal, DiffType::Add, DiffType::Add]);
    assert_eq!(chunks[1].partial_stats.additions, 2);
}

#[test]
fn stream_strips_carriage_returns() {
    let engine = DiffEngine::new(options());
    let chunks = pull_all(&engine, "a\r\nb", "a\nb", 5);
    assert_eq!(chunks.len(), 1);
    assert!(chunks[0].items.iter().all(|i| i.diff_type == DiffType::Equal));
}

#[test]
fn default_options_are_all_off() {
    let o = DiffOptions::default();
    assert_eq!(o, options());
    assert_eq!(DiffEngine::new(o).options(), o);
}

#[test]
fn record_ids_are_unique_and_records_well_formed() {
    let mut seg = options();
    seg.split_by_sentence = true;
    for o in [options(), seg] {
        let engine = DiffEngine::new(o);
        let result = engine.compute_diff("one. two. three. four five six seven eight nine ten eleven", "one. 2. three");
        let mut ids: Vec<&str> = result.items.iter().map(|i| i.id.as_str()).collect();
        let n = ids.len();
        ids.sort();
        ids.dedup();
        assert_eq!(ids.len(), n);
        assert!(n >= 4);
        for it in result.items.iter() {
            assert!(it.position.end >= it.position.start);
            match it.diff_type {
                DiffType::Add | DiffType::Equal => assert!(it.original_content.is_none()),
                DiffType::Modify => assert!(it.original_content.is_some()),
                DiffType::Remove => assert_eq!(it.original_content.as_deref(), Some(it.content.as_str())),
            }
        }
    }
}
