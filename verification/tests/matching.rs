use quickshot::matching::holds_in_order;

fn chars(text: &str) -> Vec<char> {
    text.chars().collect()
}

#[test]
fn holds_in_order_finds_scattered_characters() {
    assert!(holds_in_order("axbycz", &chars("abc")));
    assert!(holds_in_order("axbycz", &chars("xyz")));
    assert!(holds_in_order("gamma", &chars("gm")));
}

#[test]
fn holds_in_order_finds_a_substring() {
    assert!(holds_in_order("projects/alpha", &chars("alpha")));
    assert!(holds_in_order("alpha", &chars("alpha")));
}

#[test]
fn holds_in_order_rejects_a_missing_character() {
    assert!(!holds_in_order("abc", &chars("abx")));
    assert!(!holds_in_order("alpha", &chars("gm")));
    assert!(!holds_in_order("beta", &chars("gm")));
}

#[test]
fn holds_in_order_rejects_the_wrong_order() {
    assert!(!holds_in_order("gamma", &chars("mg")));
    assert!(!holds_in_order("ab", &chars("ba")));
}

#[test]
fn holds_in_order_counts_repeated_characters() {
    assert!(holds_in_order("gamma", &chars("mm")));
    assert!(!holds_in_order("gamma", &chars("mmm")));
    assert!(holds_in_order("gamma", &chars("aa")));
    assert!(!holds_in_order("beta", &chars("aa")));
}

#[test]
fn holds_in_order_compares_case_exactly() {
    assert!(!holds_in_order("Alpha", &chars("al")));
    assert!(holds_in_order("Alpha", &chars("Al")));
    assert!(!holds_in_order("alpha", &chars("A")));
}

#[test]
fn holds_in_order_accepts_the_empty_query() {
    assert!(holds_in_order("alpha", &chars("")));
    assert!(holds_in_order("", &chars("")));
}

#[test]
fn holds_in_order_rejects_a_query_longer_than_the_text() {
    assert!(!holds_in_order("", &chars("a")));
    assert!(!holds_in_order("ab", &chars("abc")));
}

#[test]
fn holds_in_order_walks_code_points_not_bytes() {
    assert!(holds_in_order("zoé/日本語", &chars("é本")));
    assert!(holds_in_order("zoé/日本語", &chars("z語")));
    assert!(!holds_in_order("zoé/日本語", &chars("本日")));
    assert!(!holds_in_order("zoe", &chars("é")));
}
