use ekc::topics::{has_prefix, result_topic, same_text, send_topic, worker_of_result_topic};

#[test]
fn topics_derived_from_identity() {
    assert_eq!(send_topic("abc"), "ekc-send-abc");
    assert_eq!(result_topic("abc"), "ekc-recv-abc");
}

#[test]
fn worker_parsed_from_result_topic() {
    assert_eq!(worker_of_result_topic("ekc-recv-abc"), Some("abc".to_string()));
    assert_eq!(worker_of_result_topic("ekc-recv-"), Some(String::new()));
    assert_eq!(worker_of_result_topic("ekc-send-abc"), None);
    assert_eq!(worker_of_result_topic("ekc-rec"), None);
}

#[test]
fn text_comparisons() {
    assert!(has_prefix("ekc-reg", "ekc-"));
    assert!(!has_prefix("ekc", "ekc-"));
    assert!(same_text("ekc-reg", "ekc-reg"));
    assert!(!same_text("ekc-reg", "ekc-regx"));
}
