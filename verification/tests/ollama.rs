use mydistinctai::ollama::{
    contains, endpoint, full_prompt, has_model, is_success, model_info, model_names, pulled_message,
    GenerateResponse, OllamaModel,
};

#[test]
fn endpoints_lie_under_api() {
    assert_eq!(endpoint("http://localhost:11434", "tags"), "http://localhost:11434/api/tags");
    assert_eq!(endpoint("http://localhost:11434", "embeddings"), "http://localhost:11434/api/embeddings");
    assert_eq!(endpoint("", ""), "/api/");
}

#[test]
fn prompt_without_context_is_the_question() {
    assert_eq!(full_prompt("Why?", None), "Why?");
    assert_eq!(full_prompt("", None), "");
}

#[test]
fn prompt_with_context_puts_the_lines_first() {
    let lines = vec!["one".to_string(), "two".to_string(), "three".to_string()];
    assert_eq!(full_prompt("Why?", Some(&lines)), "Context:\none\ntwo\nthree\n\nQuestion: Why?");
    assert_eq!(full_prompt("Why?", Some(&vec!["only".to_string()])), "Context:\nonly\n\nQuestion: Why?");
    assert_eq!(full_prompt("Why?", Some(&Vec::new())), "Context:\n\n\nQuestion: Why?");
}

#[test]
fn a_model_is_there_if_a_name_holds_it() {
    let names = vec!["mistral:7b".to_string(), "nomic-embed-text:latest".to_string()];
    assert!(has_model(&names, "mistral"));
    assert!(has_model(&names, "mistral:7b"));
    assert!(has_model(&names, "embed"));
    assert!(has_model(&names, ""));
    assert!(!has_model(&names, "llama"));
    assert!(!has_model(&names, "mistral:7b-instruct"));
    assert!(!has_model(&Vec::new(), ""));
}

#[test]
fn contains_finds_a_part_anywhere() {
    assert!(contains("hello", "hello"));
    assert!(contains("hello", "lo"));
    assert!(contains("hello", "h"));
    assert!(contains("hello", ""));
    assert!(contains("", ""));
    assert!(!contains("", "a"));
    assert!(!contains("hello", "hellos"));
    assert!(!contains("hello", "ol"));
    assert!(contains("aab", "ab"));
    assert!(contains("grüße", "üß"));
}

#[test]
fn names_of_a_listing_keep_its_order() {
    let models = vec![
        OllamaModel { name: "b".to_string(), size: 2, modified_at: "t2".to_string() },
        OllamaModel { name: "a".to_string(), size: 1, modified_at: "t1".to_string() },
    ];
    assert_eq!(model_names(models), vec!["b", "a"]);
    assert!(model_names(Vec::new()).is_empty());
}

#[test]
fn confirmed_model_has_no_size() {
    assert_eq!(
        model_info("mistral:7b", "2024-01-01T00:00:00+00:00".to_string()),
        OllamaModel { name: "mistral:7b".to_string(), size: 0, modified_at: "2024-01-01T00:00:00+00:00".to_string() }
    );
}

#[test]
fn pulled_message_names_the_model() {
    assert_eq!(pulled_message("mistral:7b"), "Successfully pulled model: mistral:7b");
}

#[test]
fn success_is_a_status_in_the_two_hundreds() {
    assert!(is_success(200));
    assert!(is_success(204));
    assert!(is_success(299));
    assert!(!is_success(199));
    assert!(!is_success(300));
    assert!(!is_success(404));
}

#[test]
fn a_response_carries_its_text() {
    let r = GenerateResponse {
        model: "m".to_string(),
        created_at: "t".to_string(),
        response: "answer".to_string(),
        done: true,
        context: vec![1, 2],
    };
    assert_eq!(r.clone().response, "answer");
    assert_eq!(r.context, vec![1, 2]);
}
