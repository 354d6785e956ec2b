use stottr::config::{Config, GigaChatConfig, OllamaConfig};
use stottr::content::parse_content;
use stottr::estimators::{EnumeratedMonteCarloEstimator, NestedMonteCarloEstimator};
use stottr::similarity::{count_words, dot_product, tokenize};

#[test]
fn test_parse_content() {
    let (system, user) = parse_content("Check\n[//]: # (SYSTEM)\nSystem content".to_string());
    assert_eq!(system, "System content");
    assert_eq!(user, "");

    let (system, user) = parse_content("User content".to_string());
    assert_eq!(system, "User content");
    assert_eq!(user, "");

    let (system, user) = parse_content("[//]: # (USER)\nUser content".to_string());
    assert_eq!(user, "User content");
    assert_eq!(system, "");

    let (system, user) = parse_content(
        "Check\n[//]: # (SYSTEM)\nSystem content \n\n [//]: # (USER)\nUser content sdf"
            .to_string(),
    );
    assert_eq!(system, "System content");
    assert_eq!(user, "User content sdf");

    let (system, user) = parse_content(" Check ".to_string());
    assert_eq!(system, "Check");
    assert_eq!(user, "");

    let (system, user) = parse_content(
        "Check\n[//]: # (USER)\nUser content sdf[//]: # (SYSTEM)\nSystem content \n\n "
            .to_string(),
    );
    assert_eq!(system, "System content");
    assert_eq!(user, "User content sdf");
}

#[test]
fn tokenize_splits_on_whitespace_runs() {
    let toks = tokenize("  a b\t\tc  a\n");
    assert_eq!(toks, vec!["a", "b", "c", "a"]);
    assert!(tokenize("   ").is_empty());
    assert!(tokenize("").is_empty());
}

#[test]
fn count_words_counts_each_distinct_token_once() {
    let toks = tokenize("a b a c b a");
    let counts = count_words(&toks);
    assert_eq!(
        counts,
        vec![("a".to_string(), 3), ("b".to_string(), 2), ("c".to_string(), 1)]
    );
}

#[test]
fn dot_product_multiplies_matching_counts() {
    let c1 = count_words(&tokenize("a a b"));
    let c2 = count_words(&tokenize("a b c"));
    assert_eq!(dot_product(&c1, &c2), 3);
    let c3 = count_words(&tokenize("x y"));
    assert_eq!(dot_product(&c1, &c3), 0);
    assert_eq!(dot_product(&c1, &c1), 5);
}

#[test]
fn estimator_constructors_keep_their_arguments() {
    let e = EnumeratedMonteCarloEstimator::new(vec![true, false], 100);
    assert_eq!(e.outcomes, vec![true, false]);
    assert_eq!(e.n_samples, 100);
    let e2 = EnumeratedMonteCarloEstimator::py_new(vec![true, false], 100);
    assert_eq!(e, e2);
    let _n = NestedMonteCarloEstimator {};
}

#[test]
fn config_values_carry_over() {
    let c = Config {
        ollama: Some(OllamaConfig {
            model: "llama3".to_string(),
            api_url: "http://localhost".to_string(),
            api_port: 11435,
        }),
        giga: Some(GigaChatConfig {
            auth_token: None,
            scope: Some("scope".to_string()),
            auth_url: None,
            api_base_url: None,
        }),
    };
    assert_eq!(c.ollama.as_ref().unwrap().api_port, 11435);
    assert_eq!(c.giga.as_ref().unwrap().scope.as_deref(), Some("scope"));
}
