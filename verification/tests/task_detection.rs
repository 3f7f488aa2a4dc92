//! Scenario tests for the context parser and the task classifier.

use agent_core::context::{ContextParser, ParserError, Period};
use agent_core::task::{Task, TaskDetector};

#[test]
fn test_detect_object_task() {
    let mut parser = ContextParser::new();
    let context = parser.parse("en", "show last object").unwrap();

    let detector = TaskDetector::new();
    let task = detector.detect_task(&context, "show last object").unwrap();

    match task {
        Task::Object { parameters } => {
            assert!(parameters.last);
        }
        _ => panic!("Expected Object task"),
    }
}

#[test]
fn test_detect_document_task() {
    let mut parser = ContextParser::new();
    let context = parser
        .parse("en", "get all documents for this month")
        .unwrap();

    let detector = TaskDetector::new();
    let task = detector
        .detect_task(&context, "get all documents for this month")
        .unwrap();

    match task {
        Task::Document { parameters } => {
            assert!(parameters.all);
            assert_eq!(parameters.period, Some(Period::Month));
        }
        _ => panic!("Expected Document task"),
    }
}

#[test]
fn test_detect_comparison_task() {
    let mut parser = ContextParser::new();
    let context = parser.parse("en", "compare objects").unwrap();

    let detector = TaskDetector::new();
    let task = detector.detect_task(&context, "compare objects").unwrap();

    match task {
        Task::Comparison { .. } => {}
        _ => panic!("Expected Comparison task"),
    }
}

#[test]
fn test_detect_chat_task() {
    let mut parser = ContextParser::new();
    let context = parser.parse("en", "hello how are you").unwrap();

    let detector = TaskDetector::new();
    let task = detector.detect_task(&context, "hello how are you").unwrap();

    match task {
        Task::Chat => {}
        _ => panic!("Expected Chat task"),
    }
}

#[test]
fn test_chat_with_punctuation() {
    let mut parser = ContextParser::new();
    let context = parser.parse("en", "hello, how are you?").unwrap();

    let detector = TaskDetector::new();
    let task = detector.detect_task(&context, "hello, how are you?").unwrap();

    assert!(matches!(task, Task::Chat), "Expected Chat task");
}

#[test]
fn test_object_with_amount() {
    let mut parser = ContextParser::new();
    let context = parser.parse("en", "show me the last 5 objects").unwrap();

    let detector = TaskDetector::new();
    let task = detector
        .detect_task(&context, "show me the last 5 objects")
        .unwrap();

    match task {
        Task::Object { parameters } => {
            assert!(parameters.last);
            assert_eq!(parameters.amount, Some(5));
        }
        _ => panic!("Expected Object task"),
    }
}

#[test]
fn test_comparison_beats_document() {
    let mut parser = ContextParser::new();
    let context = parser.parse("en", "compare the last 2 documents").unwrap();

    let detector = TaskDetector::new();
    let task = detector
        .detect_task(&context, "compare the last 2 documents")
        .unwrap();

    match task {
        Task::Comparison { parameters } => {
            assert!(parameters.last);
            assert_eq!(parameters.amount, Some(2));
        }
        Task::Document { .. } => panic!("Comparison must win over Document"),
        _ => panic!("Expected Comparison task"),
    }
}

#[test]
fn test_empty_message_is_rejected() {
    let mut parser = ContextParser::new();
    assert_eq!(parser.parse("en", "   ...  !! "), Err(ParserError::EmptyInput));
    assert_eq!(parser.parse("en", ""), Err(ParserError::EmptyInput));
}

#[test]
fn test_unknown_language_falls_back_to_english() {
    let mut parser = ContextParser::new();
    let context = parser.parse("zz", "compare documents").unwrap();

    let detector = TaskDetector::new();
    let task = detector.detect_task(&context, "compare documents").unwrap();

    assert!(matches!(task, Task::Comparison { .. }));
}

#[test]
fn test_case_folding_matches_keywords() {
    let mut parser = ContextParser::new();
    let context = parser.parse("en", "COMPARE THE DOCUMENTS").unwrap();

    let detector = TaskDetector::new();
    let task = detector.detect_task(&context, "COMPARE THE DOCUMENTS").unwrap();

    assert!(matches!(task, Task::Comparison { .. }));
}

#[test]
fn test_ukrainian_keywords_fold() {
    let mut parser = ContextParser::new();
    let context = parser.parse("uk", "ПОРІВНЯЙ ОСТАННІ ДОКУМЕНТИ").unwrap();

    let detector = TaskDetector::new();
    let task = detector
        .detect_task(&context, "ПОРІВНЯЙ ОСТАННІ ДОКУМЕНТИ")
        .unwrap();

    match task {
        Task::Comparison { parameters } => assert!(parameters.last),
        _ => panic!("Expected Comparison task"),
    }
}

#[test]
fn test_german_keywords() {
    let mut parser = ContextParser::new();
    let context = parser.parse("de", "vergleiche die letzte dokumente").unwrap();

    let detector = TaskDetector::new();
    let task = detector
        .detect_task(&context, "vergleiche die letzte dokumente")
        .unwrap();

    assert!(matches!(task, Task::Comparison { .. }));
}

#[test]
fn test_period_and_amount_are_independent() {
    let mut parser = ContextParser::new();
    let context = parser.parse("en", "3 things from this week").unwrap();

    assert_eq!(context.period, Some(Period::Week));
    assert_eq!(context.amount, Some(3));
}

#[test]
fn test_long_digit_runs_are_not_amounts() {
    let mut parser = ContextParser::new();
    let context = parser.parse("en", "order 12345678901 now").unwrap();
    assert_eq!(context.amount, None);

    let context = parser.parse("en", "order 0 now 7").unwrap();
    assert_eq!(context.amount, Some(7));
}
