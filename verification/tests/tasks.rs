use finanalize::error::FinanalizeError;
use finanalize::tasks::{FixStrategy, RetryStrategy, Task};

fn val(s: &str) -> serde_json::Value {
    serde_json::from_str(s).unwrap()
}

#[test]
fn new_task_defaults() {
    let t = Task::new("Prompt {{x}}");
    assert_eq!(t.prompt_template(), "Prompt {{x}}");
    assert_eq!(t.params().model, "llama3.1:latest");
    assert_eq!(t.params().ctx, 12228);
    assert_eq!(t.retry_strategy(), RetryStrategy::Count(3));
}

#[test]
fn builders_change_one_thing_each() {
    let t = Task::new("p")
        .with_model("qwen".to_string())
        .with_context_len(4096)
        .with_retry_strategy(RetryStrategy::NoRetry)
        .with_fix_strategies(vec![FixStrategy::RemoveTrailingComma]);
    assert_eq!(t.params().model, "qwen");
    assert_eq!(t.params().ctx, 4096);
    assert_eq!(t.retry_strategy(), RetryStrategy::NoRetry);
    assert_eq!(t.prompt_template(), "p");
}

#[test]
fn output_is_cut_after_the_marker() {
    let t = Task::new("p");
    let out = "Intro\n<Output>\n```json\n{\"a\": 1}\n```\n</Output>\nrest";
    assert_eq!(t.parse_output(out).unwrap(), "{\"a\": 1}\n\n\nrest");
    assert_eq!(t.parse_output("no marker here").unwrap(), "");
    assert_eq!(t.parse_output("<Output> {\"b\":2}\n  {\"c\": 3}  ").unwrap(), "{\"c\": 3}");
}

#[test]
fn json_is_read_without_repairs() {
    let t = Task::new("p");
    let v = t.deserialize_into_value("{\"a\": 1}".to_string()).unwrap();
    assert_eq!(v["a"], 1);
    assert!(matches!(t.deserialize_into_value("{\"a\": 1".to_string()), Err(FinanalizeError::Serde(_))));
}

#[test]
fn missing_braces_are_inserted() {
    let t = Task::new("p").with_fix_strategies(vec![FixStrategy::InsertClosedBrace]);
    let v = t.deserialize_into_value("{\"a\": {\"b\": 1".to_string()).unwrap();
    assert_eq!(v["a"]["b"], 1);
    match t.deserialize_into_value("[".to_string()) {
        Err(FinanalizeError::MultipleErrors(es)) => {
            assert_eq!(es.len(), 3);
            assert!(es.iter().all(|e| matches!(e, FinanalizeError::Serde(_))));
        }
        other => panic!("unexpected: {:?}", other),
    }
}

#[test]
fn trailing_commas_are_removed() {
    let t = Task::new("p").with_fix_strategies(vec![FixStrategy::RemoveTrailingComma, FixStrategy::InsertClosedBrace]);
    let v = t.deserialize_into_value("{\"a\": 1,,".to_string()).unwrap();
    assert_eq!(v["a"], 1);
}

#[test]
fn trailing_alphanumerics_are_removed_in_order() {
    let t = Task::new("p").with_fix_strategies(vec![FixStrategy::RemoveTrailingAlphanumeric]);
    let v = t.deserialize_into_value(r#"{"a":1}abc"#.to_string()).unwrap();
    assert_eq!(v, val(r#"{"a": 1}"#));
}

#[test]
fn up_to_three_braces_are_inserted() {
    let t = Task::new("p").with_fix_strategies(vec![FixStrategy::InsertClosedBrace]);
    let v = t.deserialize_into_value(r#"{"a":{"b":{"c":1"#.to_string()).unwrap();
    assert_eq!(v, val(r#"{"a": {"b": {"c": 1}}}"#));
    let v = t.deserialize_into_value(r#"{"a":1"#.to_string()).unwrap();
    assert_eq!(v, val(r#"{"a": 1}"#));
    match t.deserialize_into_value(r#"{"a":{"b":{"c":{"d":1"#.to_string()) {
        Err(FinanalizeError::MultipleErrors(es)) => assert_eq!(es.len(), 3),
        other => panic!("unexpected: {:?}", other),
    }
}

#[test]
fn values_are_those_of_the_repaired_text() {
    let plain = Task::new("p");
    assert_eq!(plain.deserialize_into_value(r#"{"a":[1,2]}"#.to_string()).unwrap(), val(r#"{"a": [1, 2]}"#));
    assert!(matches!(plain.deserialize_into_value("x".to_string()), Err(FinanalizeError::Serde(_))));
    let commas = Task::new("p").with_fix_strategies(vec![FixStrategy::RemoveTrailingComma]);
    assert_eq!(commas.deserialize_into_value(r#"{"a":1},,"#.to_string()).unwrap(), val(r#"{"a": 1}"#));
}

#[test]
fn generation_is_read_after_the_prompt() {
    let t = Task::new("p");
    let v = t.read_generation("Question\n<Output>\n", "{\"x\": true}").unwrap();
    assert_eq!(v["x"], true);
}

#[test]
fn retry_counts() {
    let none = Task::new("p").with_retry_strategy(RetryStrategy::NoRetry);
    assert!(none.should_attempt(0));
    assert!(!none.should_attempt(1));
    let three = Task::new("p");
    assert!(three.should_attempt(2));
    assert!(!three.should_attempt(3));
    let forever = Task::new("p").with_retry_strategy(RetryStrategy::UntilSuccess);
    assert!(forever.should_attempt(1000));
}

#[test]
fn failures_are_kept_and_reported() {
    let three = Task::new("p");
    let mut errors = Vec::new();
    three.record_failure(&mut errors, FinanalizeError::NotFound);
    three.record_failure(&mut errors, FinanalizeError::InternalServerError);
    assert_eq!(errors.len(), 2);
    match three.give_up(errors) {
        FinanalizeError::MultipleErrors(es) => assert_eq!(es.len(), 2),
        other => panic!("unexpected: {:?}", other),
    }
    let none = Task::new("p").with_retry_strategy(RetryStrategy::NoRetry);
    let mut errors = Vec::new();
    none.record_failure(&mut errors, FinanalizeError::NotFound);
    assert!(matches!(none.give_up(errors), FinanalizeError::NotFound));
    let forever = Task::new("p").with_retry_strategy(RetryStrategy::UntilSuccess);
    let mut errors = Vec::new();
    forever.record_failure(&mut errors, FinanalizeError::NotFound);
    assert!(errors.is_empty());
}

#[test]
fn attempts_follow_the_retry_strategy() {
    let three = Task::new("p");
    let r = three.run_attempts(vec![Err(FinanalizeError::NotFound), Ok(7u8), Ok(8u8)]);
    assert!(matches!(r, Some(Ok((7, 2)))));
    let r = three.run_attempts::<u8>(vec![
        Err(FinanalizeError::NotFound),
        Err(FinanalizeError::InternalServerError),
        Err(FinanalizeError::NotFound),
        Ok(1),
    ]);
    match r {
        Some(Err(FinanalizeError::MultipleErrors(es))) => assert_eq!(es.len(), 3),
        other => panic!("unexpected: {:?}", other),
    }
    assert!(three.run_attempts::<u8>(vec![Err(FinanalizeError::NotFound)]).is_none());
    let none = Task::new("p").with_retry_strategy(RetryStrategy::NoRetry);
    assert!(matches!(
        none.run_attempts::<u8>(vec![Err(FinanalizeError::NotFound), Ok(1)]),
        Some(Err(FinanalizeError::NotFound))
    ));
    let zero = Task::new("p").with_retry_strategy(RetryStrategy::Count(0));
    match zero.run_attempts::<u8>(vec![]) {
        Some(Err(FinanalizeError::MultipleErrors(es))) => assert!(es.is_empty()),
        other => panic!("unexpected: {:?}", other),
    }
    let forever = Task::new("p").with_retry_strategy(RetryStrategy::UntilSuccess);
    assert!(matches!(
        forever.run_attempts(vec![Err(FinanalizeError::NotFound), Err(FinanalizeError::NotFound), Ok(3u8)]),
        Some(Ok((3, 3)))
    ));
}

#[test]
fn text_before_the_marker_is_ignored() {
    let t = Task::new("p");
    let s = "<Output>\n{\"k\": 2}\n";
    let with_prefix = format!("Some prompt\n  with lines\n{}", s);
    assert_eq!(t.parse_output(&with_prefix).unwrap(), t.parse_output(s).unwrap());
    let r = t.parse_output("<Output>\n   {\"k\": 2}  \n\n").unwrap();
    assert_eq!(r, r.trim());
    let cloned = t.clone();
    assert_eq!(cloned.prompt_template(), "p");
}
