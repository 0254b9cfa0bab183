use openless::edit_plan::{
    apply_edit_plan, apply_plan_operation, check_plan, clean_json_llm_output, contains_nested_quantifiers, extract_json_object,
    normalize_edit_operation_value, normalize_edit_plan_value, normalize_operation_type,
    replace_all_chars, retry_candidate, EditApplyError, EditOperation, EditPlan, JsonValue,
    RegexFlags,
};

#[test]
fn literal_replace_masks_credentials() {
    let draft = "账号: old@mail.com\n密码: secret123";
    let plan = EditPlan {
        operations: vec![EditOperation::LiteralReplace {
            find: "old@mail.com".into(),
            replace: "user@example.com".into(),
        }],
        summary: None,
    };
    assert_eq!(
        apply_edit_plan(draft, &plan).unwrap(),
        "账号: user@example.com\n密码: secret123"
    );
}

#[test]
fn regex_replace_batch_email_format() {
    let draft = "邮箱1: a@b.com\n邮箱2: c@d.com";
    let plan = EditPlan {
        operations: vec![EditOperation::RegexReplace {
            pattern: r"([a-z]+)@([a-z]+\.com)".into(),
            replace: r"$1@company.com".into(),
            flags: RegexFlags::default(),
        }],
        summary: Some("normalize email domains".into()),
    };
    let out = apply_edit_plan(draft, &plan).unwrap();
    assert!(out.contains("a@company.com"));
    assert!(out.contains("c@company.com"));
}

#[test]
fn range_replace_is_char_safe() {
    let draft = "你好世界";
    let plan = EditPlan {
        operations: vec![EditOperation::RangeReplace {
            start: 2,
            end: 4,
            replace: "Rust".into(),
        }],
        summary: None,
    };
    assert_eq!(apply_edit_plan(draft, &plan).unwrap(), "你好Rust");
}

#[test]
fn full_rewrite_replaces_entire_draft() {
    let draft = "旧内容";
    let plan = EditPlan {
        operations: vec![EditOperation::FullRewrite {
            text: "新内容".into(),
        }],
        summary: None,
    };
    assert_eq!(apply_edit_plan(draft, &plan).unwrap(), "新内容");
}

#[test]
fn rejects_empty_operations() {
    let plan = EditPlan {
        operations: vec![],
        summary: None,
    };
    assert_eq!(
        apply_edit_plan("text", &plan),
        Err(EditApplyError::NoOperations)
    );
}

#[test]
fn rejects_invalid_range() {
    let plan = EditPlan {
        operations: vec![EditOperation::RangeReplace {
            start: 5,
            end: 2,
            replace: "x".into(),
        }],
        summary: None,
    };
    assert_eq!(
        apply_edit_plan("abc", &plan),
        Err(EditApplyError::InvalidRange)
    );
}

fn plan(operations: Vec<EditOperation>) -> EditPlan {
    EditPlan {
        operations,
        summary: None,
    }
}

#[test]
fn plan_limits_are_checked_in_order() {
    let one = EditOperation::FullRewrite { text: "x".into() };
    assert_eq!(
        apply_edit_plan("", &plan(vec![one.clone()])),
        Err(EditApplyError::EmptyDraft)
    );
    assert_eq!(
        apply_edit_plan("a", &plan(vec![one.clone(); 33])),
        Err(EditApplyError::TooManyOperations)
    );
    assert_eq!(apply_edit_plan("a", &plan(vec![one.clone(); 32])).unwrap(), "x");
    let big = "y".repeat(8_193);
    assert_eq!(
        apply_edit_plan("a", &plan(vec![EditOperation::FullRewrite { text: big }])),
        Err(EditApplyError::OperationTooLarge)
    );
    let long_pattern = "a".repeat(513);
    assert_eq!(
        apply_edit_plan(
            "a",
            &plan(vec![EditOperation::RegexReplace {
                pattern: long_pattern,
                replace: String::new(),
                flags: RegexFlags::default(),
            }])
        ),
        Err(EditApplyError::PatternTooLarge)
    );
}

#[test]
fn operations_run_in_sequence() {
    let ops = vec![
        EditOperation::LiteralReplace {
            find: "cat".into(),
            replace: "dog".into(),
        },
        EditOperation::RangeReplace {
            start: 0,
            end: 1,
            replace: "D".into(),
        },
        EditOperation::LiteralReplace {
            find: String::new(),
            replace: "ignored".into(),
        },
    ];
    assert_eq!(apply_edit_plan("cat and cat", &plan(ops)).unwrap(), "Dog and dog");
}

#[test]
fn literal_replace_is_left_to_right_and_non_overlapping() {
    assert_eq!(replace_all_chars("aaaa", "aa", "b"), "bb");
    assert_eq!(replace_all_chars("aaa", "aa", "b"), "ba");
    assert_eq!(replace_all_chars("no match", "zz", "b"), "no match");
}

#[test]
fn regex_problems_are_reported() {
    assert!(contains_nested_quantifiers("a+*"));
    assert!(!contains_nested_quantifiers("a+b*"));
    let nested = plan(vec![EditOperation::RegexReplace {
        pattern: "(a+)+?".into(),
        replace: String::new(),
        flags: RegexFlags::default(),
    }]);
    assert_eq!(
        apply_edit_plan("aaa", &nested),
        Err(EditApplyError::RegexRejected(
            "nested quantifiers are not allowed".into()
        ))
    );
    let broken = plan(vec![EditOperation::RegexReplace {
        pattern: "(unclosed".into(),
        replace: String::new(),
        flags: RegexFlags::default(),
    }]);
    assert!(matches!(
        apply_edit_plan("aaa", &broken),
        Err(EditApplyError::RegexRejected(_))
    ));
    let blank = plan(vec![EditOperation::RegexReplace {
        pattern: "  ".into(),
        replace: "x".into(),
        flags: RegexFlags::default(),
    }]);
    assert_eq!(apply_edit_plan("aaa", &blank).unwrap(), "aaa");
    let insensitive = plan(vec![EditOperation::RegexReplace {
        pattern: "^hello".into(),
        replace: "bye".into(),
        flags: RegexFlags {
            case_insensitive: true,
            multiline: true,
        },
    }]);
    assert_eq!(
        apply_edit_plan("HELLO a\nhello b", &insensitive).unwrap(),
        "bye a\nbye b"
    );
}

#[test]
fn error_messages() {
    assert_eq!(
        EditApplyError::RegexRejected("bad".into()).message(),
        "regex rejected: bad"
    );
    assert_eq!(EditApplyError::EmptyDraft.message(), "draft is empty");
}

#[test]
fn operation_types_are_normalized() {
    assert_eq!(normalize_operation_type(" Translate "), "full_rewrite");
    assert_eq!(normalize_operation_type("TEXT_REPLACE"), "literal_replace");
    assert_eq!(normalize_operation_type("regexp_replace"), "regex_replace");
    assert_eq!(normalize_operation_type("substring_replace"), "range_replace");
    assert_eq!(normalize_operation_type(" Other "), "other");
}

fn s(text: &str) -> JsonValue {
    JsonValue::String(text.into())
}

#[test]
fn plan_objects_are_normalized() {
    let mut value = JsonValue::Object(vec![(
        "operation".into(),
        JsonValue::Array(vec![
            JsonValue::Object(vec![
                ("type".into(), s("translate")),
                ("content".into(), s("Hello")),
            ]),
            JsonValue::Object(vec![
                ("type".into(), s("Replace")),
                ("search".into(), s("a")),
                ("with".into(), s("b")),
            ]),
        ]),
    )]);
    normalize_edit_plan_value(&mut value);
    assert_eq!(
        value,
        JsonValue::Object(vec![(
            "operations".into(),
            JsonValue::Array(vec![
                JsonValue::Object(vec![
                    ("type".into(), s("full_rewrite")),
                    ("text".into(), s("Hello")),
                ]),
                JsonValue::Object(vec![
                    ("type".into(), s("literal_replace")),
                    ("replace".into(), s("b")),
                    ("find".into(), s("a")),
                ]),
            ]),
        )])
    );
}

#[test]
fn existing_canonical_fields_win_over_aliases() {
    let mut op = JsonValue::Object(vec![
        ("type".into(), s("regex_replace")),
        ("pattern".into(), s("p")),
        ("regex".into(), s("ignored")),
    ]);
    normalize_edit_operation_value(&mut op);
    assert_eq!(
        op,
        JsonValue::Object(vec![
            ("type".into(), s("regex_replace")),
            ("pattern".into(), s("p")),
            ("regex".into(), s("ignored")),
        ])
    );
    let mut not_an_object = JsonValue::Number("3".into());
    normalize_edit_plan_value(&mut not_an_object);
    assert_eq!(not_an_object, JsonValue::Number("3".into()));
}

#[test]
fn json_is_cut_out_of_surrounding_text() {
    assert_eq!(
        extract_json_object("Here: {\"a\": {\"b\": 1}} done"),
        Some("{\"a\": {\"b\": 1}}")
    );
    assert_eq!(extract_json_object("no braces"), None);
    assert_eq!(extract_json_object("} before {"), None);
}

#[test]
fn code_fences_are_stripped() {
    assert_eq!(
        clean_json_llm_output("  ```json\n{\"a\":1}\n```  "),
        "{\"a\":1}"
    );
    assert_eq!(clean_json_llm_output("{\"a\":1}"), "{\"a\":1}");
    assert_eq!(retry_candidate(" {\"a\":1} "), None);
    assert_eq!(
        retry_candidate("```\n{}\n```"),
        Some("{}".to_string())
    );
}

#[test]
fn parses_operation_alias_and_translate_type() {
    // {"operation":[{"type":"translate","content":"Hello"}]}
    let mut value = JsonValue::Object(vec![(
        "operation".into(),
        JsonValue::Array(vec![JsonValue::Object(vec![
            ("type".into(), s("translate")),
            ("content".into(), s("Hello")),
        ])]),
    )]);
    normalize_edit_plan_value(&mut value);
    assert_eq!(
        value,
        JsonValue::Object(vec![(
            "operations".into(),
            JsonValue::Array(vec![JsonValue::Object(vec![
                ("type".into(), s("full_rewrite")),
                ("text".into(), s("Hello")),
            ])]),
        )])
    );
}

#[test]
fn parses_json_with_surrounding_markdown() {
    let raw = "Here is the plan:\n```json\n{\"operations\":[{\"type\":\"literal_replace\",\"find\":\"a\",\"replace\":\"b\"}],\"summary\":\"ok\"}\n```";
    assert_eq!(
        extract_json_object(raw.trim()),
        Some("{\"operations\":[{\"type\":\"literal_replace\",\"find\":\"a\",\"replace\":\"b\"}],\"summary\":\"ok\"}")
    );
    let canonical = || {
        JsonValue::Object(vec![
            (
                "operations".into(),
                JsonValue::Array(vec![JsonValue::Object(vec![
                    ("type".into(), s("literal_replace")),
                    ("find".into(), s("a")),
                    ("replace".into(), s("b")),
                ])]),
            ),
            ("summary".into(), s("ok")),
        ])
    };
    let mut value = canonical();
    normalize_edit_plan_value(&mut value);
    assert_eq!(value, canonical());
}

#[test]
fn serialized_plan_text_passes_whole() {
    let text = "{\"operations\":[{\"type\":\"full_rewrite\",\"text\":\"{x}\"}],\"summary\":\"}\"}";
    assert_eq!(text.trim(), text);
    assert_eq!(extract_json_object(text), Some(text));
    for name in ["full_rewrite", "literal_replace", "regex_replace", "range_replace"] {
        assert_eq!(normalize_operation_type(name), name);
    }
}

#[test]
fn plans_are_checked_and_run_step_by_step() {
    let plan = EditPlan {
        operations: vec![
            EditOperation::LiteralReplace { find: "a".into(), replace: "b".into() },
            EditOperation::FullRewrite { text: "x".repeat(8_193) },
        ],
        summary: None,
    };
    assert_eq!(check_plan("", &plan), Err(EditApplyError::EmptyDraft));
    assert_eq!(check_plan("abc", &plan), Ok(()));
    let empty = EditPlan { operations: vec![], summary: None };
    assert_eq!(check_plan("abc", &empty), Err(EditApplyError::NoOperations));
    let first = apply_plan_operation("aaa", &plan.operations[0]).unwrap();
    assert_eq!(first, "bbb");
    assert_eq!(
        apply_plan_operation(&first, &plan.operations[1]),
        Err(EditApplyError::OperationTooLarge)
    );
    assert_eq!(apply_edit_plan("aaa", &plan), Err(EditApplyError::OperationTooLarge));
}
