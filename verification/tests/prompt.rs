use domain_suggest::llm::prompt::{
    build_system_prompt, build_user_prompt, extract_json_block, extract_quoted_strings,
    parse_suggestions, suggestions_from_value,
};
use domain_suggest::json::JsonValue;
use domain_suggest::llm::{BrandPersonality, CreativityMode, SuggestionRequest};

#[test]
fn test_parse_clean_json() {
    let input = r#"{"suggestions": ["nexora", "brindle", "vertiq"]}"#;
    let result = parse_suggestions(input).unwrap();
    assert_eq!(result, vec!["nexora", "brindle", "vertiq"]);
}

#[test]
fn test_parse_json_in_markdown() {
    let input = r#"Here are some suggestions:
```json
{"suggestions": ["cloudpeak", "mintflow"]}
```"#;
    let result = parse_suggestions(input).unwrap();
    assert_eq!(result, vec!["cloudpeak", "mintflow"]);
}

#[test]
fn test_parse_fallback_quoted() {
    let input = r#"I suggest: "nexora", "brindle", "vertiq""#;
    let result = parse_suggestions(input).unwrap();
    assert_eq!(result, vec!["nexora", "brindle", "vertiq"]);
}

#[test]
fn system_prompt_asks_for_json() {
    let p = build_system_prompt();
    assert!(p.starts_with("You are a world-class startup branding consultant."));
    assert!(p.ends_with(r#"{"suggestions": ["nexora", "brindle", "vertiq", "cloudpeak", "luminary"]}"#));
}

#[test]
fn user_prompt_lists_the_request() {
    let req = SuggestionRequest {
        keywords: "cloud, sync".to_string(),
        industry: "SaaS".to_string(),
        personality: BrandPersonality::Playful,
        max_length: 12,
        count: 20,
        creativity: CreativityMode::Creative,
    };
    let expected = "Generate 20 brandable domain name ideas for the following:\n\nKEYWORDS: cloud, sync\nINDUSTRY: SaaS\nBRAND PERSONALITY: Playful\nMAX CHARACTERS PER NAME: 12\n\nRemember: output ONLY a JSON object with a \"suggestions\" array. No other text.";
    assert_eq!(build_user_prompt(&req), expected);
}

#[test]
fn user_prompt_of_default_request() {
    let req = SuggestionRequest::default();
    let p = build_user_prompt(&req);
    assert!(p.starts_with("Generate 15 brandable"));
    assert!(p.contains("BRAND PERSONALITY: Bold\n"));
    assert!(p.contains("MAX CHARACTERS PER NAME: 14\n"));
}

#[test]
fn json_names_are_cleaned_and_filtered() {
    let input = r#"  {"suggestions": [" Nexora ", "Cloud Peak", "", "   ", "abcdefghijklmnopqrstuvwxyzabcde"]}  "#;
    assert_eq!(parse_suggestions(input).unwrap(), vec!["nexora", "cloudpeak"]);
}

#[test]
fn json_in_plain_fence() {
    let input = "```\n{\"suggestions\": [\"mintflow\"]}\n```";
    assert_eq!(parse_suggestions(input).unwrap(), vec!["mintflow"]);
}

#[test]
fn json_between_braces_in_prose() {
    let input = "Sure! {\"suggestions\": [\"Vertiq\", \"Luminary\"]} Enjoy.";
    assert_eq!(parse_suggestions(input).unwrap(), vec!["vertiq", "luminary"]);
}

#[test]
fn array_form_of_the_record() {
    let input = r#"[["nexora", "brindle"]]"#;
    assert_eq!(parse_suggestions(input).unwrap(), vec!["nexora", "brindle"]);
}

#[test]
fn empty_json_list_falls_back_to_quotes() {
    let input = r#"{"suggestions": []} "brindle""#;
    assert_eq!(parse_suggestions(input).unwrap(), vec!["brindle"]);
}

#[test]
fn unparsable_reply_is_an_error() {
    let err = parse_suggestions("no names here").unwrap_err();
    assert_eq!(err, "Could not parse any domain suggestions from LLM response:\nno names here");
}

#[test]
fn quoted_strings_skip_non_alphanumeric_and_keyword() {
    let got = extract_quoted_strings(r#""suggestions": "foo-bar", "Good Name", "ok1", "", "unterminated"#);
    assert_eq!(got, vec!["goodname", "ok1", "unterminated"]);
}

#[test]
fn quoted_strings_of_plain_text() {
    assert!(extract_quoted_strings("nothing quoted").is_empty());
}

#[test]
fn json_block_prefers_json_fence() {
    let text = "```\n{\"a\": 1}\n```\n```json\n  {\"b\": 2}  \n```";
    assert_eq!(extract_json_block(text), Some("{\"b\": 2}".to_string()));
}

#[test]
fn json_block_plain_fence_needs_object() {
    let text = "```\nnot json\n``` and {x}";
    assert_eq!(extract_json_block(text), Some("{x}".to_string()));
}

#[test]
fn json_block_none_without_braces() {
    assert_eq!(extract_json_block("} then {"), None);
    assert_eq!(extract_json_block("plain"), None);
}

#[test]
fn suggestions_from_given_values() {
    let obj = JsonValue::Object(vec![
        ("other".to_string(), JsonValue::Number(Some(7))),
        (
            "suggestions".to_string(),
            JsonValue::Array(vec![
                JsonValue::Str(" Alpha ".to_string()),
                JsonValue::Str("be ta".to_string()),
            ]),
        ),
    ]);
    assert_eq!(suggestions_from_value(&Some(obj)), Some(vec!["alpha".to_string(), "beta".to_string()]));
    let wrong = JsonValue::Object(vec![(
        "suggestions".to_string(),
        JsonValue::Array(vec![JsonValue::Str("a".to_string()), JsonValue::Null]),
    )]);
    assert_eq!(suggestions_from_value(&Some(wrong)), None);
    let missing = JsonValue::Object(vec![("names".to_string(), JsonValue::Array(vec![]))]);
    assert_eq!(suggestions_from_value(&Some(missing)), None);
    let two = JsonValue::Array(vec![JsonValue::Array(vec![]), JsonValue::Array(vec![])]);
    assert_eq!(suggestions_from_value(&Some(two)), None);
    assert_eq!(suggestions_from_value(&None), None);
    assert_eq!(suggestions_from_value(&Some(JsonValue::Bool(true))), None);
}

#[test]
fn names_with_tld_are_dropped() {
    let r = parse_suggestions(r#"{"suggestions": ["nexora.com", "brindle"]}"#).unwrap();
    assert_eq!(r, vec!["brindle"]);
    assert!(parse_suggestions(r#"{"suggestions": ["nexora.com"]}"#).is_err());
    let q = parse_suggestions(r#"Try "nexora.io" or "vertiq""#).unwrap();
    assert_eq!(q, vec!["vertiq"]);
}
