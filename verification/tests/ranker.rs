use fuzzy_matcher::skim::SkimMatcherV2;
use fuzzy_matcher::FuzzyMatcher;
use quickshot::matching::holds_in_order;
use quickshot::ranker::rank_candidates;
use quickshot::Candidate;

fn entry(path: &str) -> Candidate {
    Candidate::new(path.to_string())
}

fn store(paths: &[&str]) -> Vec<Candidate> {
    paths.iter().map(|path| entry(path)).collect()
}

fn query(text: &str) -> Vec<char> {
    text.chars().collect()
}

fn shown_paths(text: &str, candidates: &Vec<Candidate>) -> Vec<String> {
    rank_candidates(&query(text), candidates).into_iter().map(|c| c.path().to_string()).collect()
}

fn sorted_by_skim(text: &str, candidates: &Vec<Candidate>) -> Vec<String> {
    let matcher = SkimMatcherV2::default();
    let mut scored: Vec<(i64, String)> = candidates
        .iter()
        .filter_map(|c| matcher.fuzzy_match(c.path(), text).map(|score| (score, c.path().to_string())))
        .collect();
    scored.sort_by_key(|(score, _)| -score);
    scored.into_iter().map(|(_, path)| path).collect()
}

#[test]
fn empty_query_shows_the_store_in_its_order() {
    let candidates = store(&["alpha", "beta", "gamma"]);
    assert_eq!(rank_candidates(&query(""), &candidates), candidates);
}

#[test]
fn empty_query_does_not_sort_or_drop() {
    let candidates = store(&["zeta", "Alpha", "zeta", "", "beta"]);
    assert_eq!(shown_paths("", &candidates), vec!["zeta", "Alpha", "zeta", "", "beta"]);
}

#[test]
fn query_a_shows_all_three_best_first() {
    let candidates = store(&["alpha", "beta", "gamma"]);
    assert_eq!(shown_paths("a", &candidates), vec!["alpha", "beta", "gamma"]);
    assert_eq!(shown_paths("a", &candidates), sorted_by_skim("a", &candidates));
}

#[test]
fn query_a_puts_the_match_at_the_start_first_wherever_it_stands() {
    let candidates = store(&["gamma", "beta", "alpha"]);
    assert_eq!(shown_paths("a", &candidates), vec!["alpha", "gamma", "beta"]);
}

#[test]
fn query_gm_shows_gamma_only() {
    let candidates = store(&["alpha", "beta", "gamma"]);
    assert_eq!(rank_candidates(&query("gm"), &candidates), vec![entry("gamma")]);
}

#[test]
fn query_without_a_match_shows_nothing() {
    let candidates = store(&["alpha", "beta", "gamma"]);
    assert_eq!(rank_candidates(&query("xyz"), &candidates), Vec::<Candidate>::new());
}

#[test]
fn empty_store_shows_nothing() {
    assert_eq!(rank_candidates(&query(""), &Vec::new()), Vec::<Candidate>::new());
    assert_eq!(rank_candidates(&query("a"), &Vec::new()), Vec::<Candidate>::new());
}

#[test]
fn equal_scores_keep_the_order_of_the_store() {
    let candidates = store(&["/p/one/x-beta", "/p/two/x-beta", "/p/six/x-beta", "/p/ten/x-beta"]);
    let matcher = SkimMatcherV2::default();
    let score = matcher.fuzzy_match("/p/one/x-beta", "beta");
    assert!(score.is_some());
    for c in &candidates {
        assert_eq!(matcher.fuzzy_match(c.path(), "beta"), score);
    }
    assert_eq!(rank_candidates(&query("beta"), &candidates), candidates);
}

#[test]
fn equal_candidates_are_all_shown() {
    let candidates = store(&["beta", "alpha", "beta"]);
    assert_eq!(shown_paths("b", &candidates), vec!["beta", "beta"]);
}

#[test]
fn every_shown_candidate_holds_the_query_in_order() {
    let candidates = store(&[
        "/home/u/src/quickshot",
        "/home/u/src/Quartz",
        "/home/u/src/squash",
        "/home/u/src/tmux",
        "/home/U/SRC/SHOUT",
    ]);
    for text in ["", "q", "qs", "sh", "src", "SH", "uq", "tmux", "xq"] {
        let shown = rank_candidates(&query(text), &candidates);
        for c in &shown {
            assert!(holds_in_order(c.path(), &query(text)));
            assert!(candidates.contains(c));
        }
        for c in &candidates {
            assert_eq!(shown.contains(c), holds_in_order(c.path(), &query(text)));
        }
    }
}

#[test]
fn ranking_agrees_with_a_stable_sort_by_the_scorers_answers() {
    let candidates = store(&[
        "/srv/work/alpha",
        "/srv/work/alphabet",
        "/srv/work/beta",
        "/srv/work/gamma",
        "/srv/work/delta-alpha",
        "/srv/work/al",
        "/srv/work/pal",
        "/srv/work/opal",
        "/srv/work/lap",
    ]);
    for text in ["a", "al", "alp", "alpha", "la", "w", "srv", "/", "work/a", "pa", "e"] {
        assert_eq!(shown_paths(text, &candidates), sorted_by_skim(text, &candidates));
    }
}

#[test]
fn candidates_that_match_only_without_regard_to_case_are_left_out() {
    let candidates = store(&["Alpha", "alpha", "ALPHA"]);
    assert_eq!(sorted_by_skim("al", &candidates).len(), 3);
    assert_eq!(shown_paths("al", &candidates), vec!["alpha"]);
    assert_eq!(shown_paths("AL", &candidates), vec!["ALPHA"]);
    assert_eq!(shown_paths("Al", &candidates), vec!["Alpha"]);
}

#[test]
fn shown_candidates_keep_path_and_name() {
    let candidates = store(&["/home/u/alpha", "/home/u/gamma"]);
    let shown = rank_candidates(&query("gm"), &candidates);
    assert_eq!(shown.len(), 1);
    assert_eq!(shown[0].path(), "/home/u/gamma");
    assert_eq!(shown[0].name(), "gamma");
}

#[test]
fn a_query_too_long_to_score_still_filters() {
    let long = "a".repeat(quickshot::scorer::SCORED_QUERY_LIMIT + 1);
    let candidates = vec![Candidate::new("b".to_string()), Candidate::new(long.clone())];
    let shown = rank_candidates(&query(&long), &candidates);
    assert_eq!(shown.len(), 1);
    assert_eq!(shown[0].path().len(), long.len());
}

#[test]
fn the_same_query_and_store_give_the_same_list() {
    let candidates = store(&["/w/gamma", "/w/alpha", "/w/beta", "/w/alphabet", "/w/a"]);
    for text in ["", "a", "al", "w", "/", "ab"] {
        let first = rank_candidates(&query(text), &candidates);
        let second = rank_candidates(&query(text), &candidates);
        assert_eq!(first, second);
    }
}
