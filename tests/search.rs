use lazyvim_helper::commands::{Category, Command, Mode};
use lazyvim_helper::search::{aggregate_score, SearchEngine};

fn sample_commands() -> Vec<Command> {
    vec![
        Command {
            keys: "<leader>ff".to_string(),
            description: "Find files".to_string(),
            category: Category::Search,
            mode: Mode::Normal,
        },
        Command {
            keys: "<leader>fg".to_string(),
            description: "Live grep".to_string(),
            category: Category::Search,
            mode: Mode::Normal,
        },
        Command {
            keys: "gd".to_string(),
            description: "Go to definition".to_string(),
            category: Category::Lsp,
            mode: Mode::Normal,
        },
        Command {
            keys: "<leader>gg".to_string(),
            description: "Open LazyGit".to_string(),
            category: Category::Git,
            mode: Mode::Normal,
        },
    ]
}

fn item(keys: &str, description: &str, category: Category) -> Command {
    Command {
        keys: keys.to_string(),
        description: description.to_string(),
        category,
        mode: Mode::Normal,
    }
}

#[test]
fn test_search_by_description() {
    let engine = SearchEngine::new();
    let commands = sample_commands();

    let results = engine.search(&commands, "find");
    assert!(!results.is_empty());
    assert_eq!(results[0].0.keys, "<leader>ff");
}

#[test]
fn test_search_by_keys() {
    let engine = SearchEngine::new();
    let commands = sample_commands();

    let results = engine.search(&commands, "ff");
    assert!(!results.is_empty());
    assert!(results.iter().any(|(cmd, _)| cmd.keys.contains("ff")));
}

#[test]
fn test_search_by_category() {
    let engine = SearchEngine::new();
    let commands = sample_commands();

    let results = engine.search(&commands, "git");
    assert!(!results.is_empty());
}

#[test]
fn test_empty_query() {
    let engine = SearchEngine::new();
    let commands = sample_commands();

    let results = engine.search(&commands, "");
    assert_eq!(results.len(), commands.len());
}

#[test]
fn empty_query_lists_everything_with_zero_in_order() {
    let engine = SearchEngine::new();
    let commands = sample_commands();
    let ranked = engine.rank(&commands, "");
    assert_eq!(ranked, vec![(0, 0), (1, 0), (2, 0), (3, 0)]);
    let results = engine.search(&commands, "");
    for (k, (cmd, score)) in results.iter().enumerate() {
        assert_eq!(cmd.keys, commands[k].keys);
        assert_eq!(*score, 0);
    }
}

#[test]
fn empty_catalog_ranks_nothing() {
    let engine = SearchEngine::new();
    assert!(engine.rank(&[], "").is_empty());
    assert!(engine.rank(&[], "find").is_empty());
}

#[test]
fn query_ranks_only_matches_best_first_stable() {
    let engine = SearchEngine::new();
    let commands = sample_commands();
    let ranked = engine.rank(&commands, "g");
    assert!(!ranked.is_empty());
    for w in ranked.windows(2) {
        assert!(w[0].1 > w[1].1 || (w[0].1 == w[1].1 && w[0].0 < w[1].0));
    }
    let ranked = engine.rank(&commands, "zzzz");
    assert!(ranked.is_empty());
}

#[test]
fn equal_scores_keep_catalog_order() {
    let engine = SearchEngine::new();
    let commands = vec![
        item("x", "same words", Category::General),
        item("y", "same words", Category::General),
        item("z", "same words", Category::General),
    ];
    let ranked = engine.rank(&commands, "same");
    assert_eq!(ranked.len(), 3);
    assert_eq!(ranked.iter().map(|p| p.0).collect::<Vec<_>>(), vec![0, 1, 2]);
    assert!(ranked[0].1 == ranked[1].1 && ranked[1].1 == ranked[2].1);
}

#[test]
fn description_match_outranks_notation_only_match() {
    let engine = SearchEngine::new();
    let commands = vec![
        item("q", "zz", Category::General),
        item("zz", "q", Category::General),
    ];
    let ranked = engine.rank(&commands, "zz");
    assert_eq!(ranked.len(), 2);
    assert_eq!(ranked[0].0, 0);
    assert_eq!(ranked[1].0, 1);
    assert_eq!(ranked[0].1 * 2, ranked[1].1 * 3);
}

#[test]
fn score_is_max_of_weighted_fields() {
    let engine = SearchEngine::new();
    let commands = vec![item("zz", "zz", Category::General)];
    let both = engine.rank(&commands, "zz");
    let only_desc = engine.rank(&[item("q", "zz", Category::General)], "zz");
    assert_eq!(both[0].1, only_desc[0].1);
}

#[test]
fn query_is_case_folded() {
    let engine = SearchEngine::new();
    let commands = sample_commands();
    let lower = engine.rank(&commands, "find");
    let upper = engine.rank(&commands, "FIND");
    assert_eq!(lower, upper);
    assert_eq!(upper[0].0, 0);
}

#[test]
fn category_match_scores_raw() {
    let engine = SearchEngine::new();
    let commands = vec![item("q", "q", Category::Terminal)];
    let ranked = engine.rank(&commands, "terminal");
    assert_eq!(ranked.len(), 1);
    assert!(ranked[0].1 > 0);
}

#[test]
fn ranking_repeats_identically() {
    let engine = SearchEngine::new();
    let commands = sample_commands();
    for q in ["", "g", "find", "leader", "zz"] {
        assert_eq!(engine.rank(&commands, q), SearchEngine::default().rank(&commands, q));
    }
}

#[test]
fn aggregate_takes_best_weighted_field() {
    assert_eq!(aggregate_score(Some(10), Some(14), Some(29)), Some(30));
    assert_eq!(aggregate_score(Some(10), Some(16), None), Some(32));
    assert_eq!(aggregate_score(None, None, Some(7)), Some(7));
    assert_eq!(aggregate_score(None, None, None), None);
    assert_eq!(aggregate_score(Some(-4), None, Some(-5)), Some(-5));
}

#[test]
fn earlier_searches_do_not_change_scores() {
    let used = SearchEngine::new();
    let first = vec![item("x", "abcde", Category::General)];
    let _ = used.rank(&first, "a");
    let second = vec![item("x", "aab", Category::General)];
    let after = used.rank(&second, "aab");
    let fresh = SearchEngine::new().rank(&second, "aab");
    assert_eq!(after, fresh);
}
