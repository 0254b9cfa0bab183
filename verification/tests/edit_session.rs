use openless::diff::learned_rule;
use openless::edit_session::{EditSession, MAX_FIELD_CHARS};
#[test]
fn tracks_only_the_inserted_region() {
    let mut s =
        EditSession::anchor("前文。今天讨论大禹养殖。后文", "今天讨论大禹养殖。").unwrap();
    assert!(s.region("改前文。今天讨论大禹养殖。后文").is_none());
    let edit = s.settled_edit("前文。今天讨论大鱼养殖。后文").unwrap();
    let rule = learned_rule(&edit).unwrap();
    assert_eq!(
        (rule.pattern.as_str(), rule.replacement.as_str()),
        ("大禹", "大鱼")
    );
    assert!(s.settled_edit("前文。今天讨论大鱼养殖。后文").is_none());
}

#[test]
fn rejects_ambiguous_and_oversized_fields() {
    assert!(EditSession::anchor("重复重复", "重复").is_none());
    assert!(EditSession::anchor(&"字".repeat(MAX_FIELD_CHARS + 1), "字").is_none());
    assert!(EditSession::anchor("空白", "").is_none());
}

#[test]
fn delete_then_retype_does_not_lose_the_original_word() {
    let mut s = EditSession::anchor("请用扣德克斯。", "请用扣德克斯。").unwrap();
    assert!(s.settled_edit("请用。").is_none());
    let edit = s.settled_edit("请用Codex。").unwrap();
    assert_eq!(edit.source, "扣德克斯");
    assert_eq!(edit.target, "Codex");
}

#[test]
fn rejects_append_send_and_sentence_rewrite() {
    let mut s = EditSession::anchor("今天讨论大禹养殖。", "今天讨论大禹养殖。").unwrap();
    assert!(s.settled_edit("今天讨论大禹养殖。继续输入").is_none());
    assert!(s.settled_edit("").is_none());
    assert!(s.settled_edit("明天不用开会了，取消安排。").is_none());
}
