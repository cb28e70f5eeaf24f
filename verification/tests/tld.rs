use domain_suggest::domain::tld::{expand, DEFAULT_TLDS};

#[test]
fn test_expand_basic() {
    let names = vec!["nexora".to_string(), "brindle".to_string()];
    let tlds = vec![".com".to_string(), ".io".to_string()];
    let result = expand(&names, &tlds);
    assert_eq!(
        result,
        vec!["nexora.com", "nexora.io", "brindle.com", "brindle.io"]
    );
}

#[test]
fn test_expand_empty() {
    let names: Vec<String> = vec![];
    let tlds = vec![".com".to_string()];
    assert!(expand(&names, &tlds).is_empty());
}

#[test]
fn expand_trims_and_lowercases_names() {
    let names = vec!["  NexOra ".to_string()];
    let tlds = vec![".com".to_string()];
    assert_eq!(expand(&names, &tlds), vec!["nexora.com"]);
}

#[test]
fn expand_skips_blank_names() {
    let names = vec!["   ".to_string(), "".to_string(), "vertiq".to_string()];
    let tlds = vec![".ai".to_string(), ".dev".to_string()];
    assert_eq!(expand(&names, &tlds), vec!["vertiq.ai", "vertiq.dev"]);
}

#[test]
fn expand_without_tlds_is_empty() {
    let names = vec!["nexora".to_string()];
    let tlds: Vec<String> = vec![];
    assert!(expand(&names, &tlds).is_empty());
}

#[test]
fn expand_count_is_names_times_tlds() {
    let names = vec!["a".to_string(), " ".to_string(), "b".to_string(), "c".to_string()];
    let tlds: Vec<String> = DEFAULT_TLDS.iter().map(|t| t.to_string()).collect();
    assert_eq!(expand(&names, &tlds).len(), 3 * DEFAULT_TLDS.len());
}
