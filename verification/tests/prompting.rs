use finanalize::error::FinanalizeError;
use finanalize::prompting::{get_prompt, path_of};

#[test]
fn test_get_prompt() {
    let prompt = get_prompt("title".to_string()).unwrap();
    println!("{}", prompt);
    assert!(prompt.contains("title"));
}

#[test]
fn data_classifier_prompt_is_stored() {
    let prompt = get_prompt("data-classifier".to_string()).unwrap();
    assert!(prompt.contains("{{input}}"));
}

#[test]
fn missing_prompt_names_its_path() {
    match get_prompt("nothing".to_string()) {
        Err(FinanalizeError::MissingPromptFile(p)) => assert_eq!(p, "nothing/nothing.prompt.hbs"),
        other => panic!("unexpected: {:?}", other),
    }
    assert_eq!(path_of("title"), "title/title.prompt.hbs");
}
