use openless::diff::{
    classify_edit, edit_is_within_typed_text, learned_rule, minimal_edit, EditPair, LearnedRule,
    RuleTier, CONTEXT_CHARS,
};
fn edit(before: &str, after: &str) -> Option<(String, String)> {
    minimal_edit(before, after).map(|e| (e.source, e.target))
}

#[test]
fn extracts_a_single_changed_word() {
    assert_eq!(
        edit("今天讲一下大禹的养殖", "今天讲一下大鱼的养殖"),
        Some(("禹".to_string(), "鱼".to_string()))
    );
}

#[test]
fn extracts_a_cross_script_correction() {
    assert_eq!(
        edit("我们用扣德克斯写代码", "我们用 Codex 写代码"),
        Some(("扣德克斯".to_string(), " Codex ".to_string()))
    );
}

#[test]
fn identical_text_is_not_an_edit() {
    assert_eq!(edit("完全一样", "完全一样"), None);
    assert_eq!(edit("", ""), None);
}

#[test]
fn pure_insertion_is_rejected() {
    // 用户只是在补字。学成规则就是「在任意位置无条件插入」，最危险的假阳性。
    assert_eq!(edit("这个接口", "这个接口设计"), None);
    assert_eq!(edit("", "全新内容"), None);
    assert_eq!(edit("前后", "前中后"), None);
}

#[test]
fn pure_deletion_is_learned() {
    // 删除和插入不对称：删除是「这里不该有这个词」，有明确语义且不会到处触发。
    assert_eq!(
        edit("这个的接口设计", "这个接口设计"),
        Some(("的".to_string(), String::new()))
    );
}

#[test]
fn an_edit_longer_than_the_cap_is_rejected() {
    let before = "开头".to_string() + &"甲".repeat(65) + "结尾";
    let after = "开头".to_string() + &"乙".repeat(65) + "结尾";
    assert_eq!(edit(&before, &after), None);
}

#[test]
fn an_edit_exactly_at_the_cap_is_accepted() {
    let before = "开头".to_string() + &"甲".repeat(64) + "结尾";
    let after = "开头".to_string() + &"乙".repeat(64) + "结尾";
    let (source, target) = edit(&before, &after).expect("64 字应当仍在可学范围内");
    assert_eq!(source.chars().count(), 64);
    assert_eq!(target.chars().count(), 64);
}

#[test]
fn a_long_source_replaced_by_a_short_target_is_still_rejected() {
    // 上限看的是两侧的最大值，不是差值 —— 「删掉一大段」也是重写。
    let before = "开头".to_string() + &"甲".repeat(100) + "结尾";
    assert_eq!(edit(&before, "开头乙结尾"), None);
}

#[test]
fn whitespace_only_changes_are_rejected() {
    // 排版调整没有词汇价值。
    assert_eq!(edit("大 鱼", "大鱼"), None);
    assert_eq!(edit("一句话  另一句", "一句话 另一句"), None);
}

/// 真机抓到的假阳性：在聊天框里按回车发送，输入框清空并显示占位符。
///
/// 形式上这是一次「把整句话替换成另一句」的编辑，`MAX_EDIT_CHARS`（64）拦不住
/// ——那句话才 25 个字。要是没这条，它会被建议成一条纠正规则，以后每次说那句话
/// 都被替换成占位符。
#[test]
fn submitting_a_chat_box_never_becomes_a_rule() {
    let e = minimal_edit(
        "还有哪些是我们明明有，但 status 看板没有的模型呢？",
        "Type / for commands",
    )
    .expect("形式上确实是一处改动 —— 检测到它没问题");
    assert_eq!(
        classify_edit(&e),
        None,
        "整句被替换不该变成规则：以后每次说那句话都会被换成占位符"
    );
}

#[test]
fn a_technical_name_with_a_dot_is_still_learned() {
    // 句子边界守卫不看 ASCII 句点：Node.js / co.uk / v1.2 全带点，把它们当句子
    // 边界会误杀一整类技术名词 —— 而那正是这个功能最该学会的东西。
    let e = EditPair {
        source: "诺德点 JS".to_string(),
        target: "Node.js".to_string(),
        before: "用".to_string(),
        after: "写".to_string(),
    };
    assert_eq!(classify_edit(&e), Some(RuleTier::Auto));
}

#[test]
fn a_whole_sentence_is_not_a_word() {
    // 词汇表条目是「词」。一整句话进热词表毫无意义，还会把识别带偏。
    let e = EditPair {
        source: "短的".to_string(),
        target: "这是一句很长的话完全不像一个词".to_string(),
        before: String::new(),
        after: String::new(),
    };
    assert_eq!(classify_edit(&e), None);
}

#[test]
fn a_sentence_ending_in_a_period_never_becomes_a_rule() {
    // 第二条真机假阳性：用户清空了输入框里已经写完的一句话。
    let e = EditPair {
        source: "界面和界面之间的问题倒不大。".to_string(),
        target: "改成别的".to_string(),
        before: String::new(),
        after: String::new(),
    };
    assert_eq!(classify_edit(&e), None);
}

#[test]
fn a_multiline_change_never_becomes_a_rule() {
    // 词级字面替换装不下换行：要么永远匹配不上，要么一命中就改掉一整段。
    let edit = EditPair {
        source: "第一行\n第二行".to_string(),
        target: "改过的内容".to_string(),
        before: "上文".to_string(),
        after: "下文".to_string(),
    };
    assert_eq!(classify_edit(&edit), None);

    let edit = EditPair {
        source: "一个词".to_string(),
        target: "换成\n两行".to_string(),
        before: "上文".to_string(),
        after: "下文".to_string(),
    };
    assert_eq!(classify_edit(&edit), None);
}

#[test]
fn no_common_prefix_or_suffix_yields_the_whole_texts() {
    assert_eq!(
        edit("甲乙丙", "丁戊己"),
        Some(("甲乙丙".to_string(), "丁戊己".to_string()))
    );
}

#[test]
fn whole_text_replaced_by_empty_is_a_deletion() {
    assert_eq!(
        edit("整段删光", ""),
        Some(("整段删光".to_string(), String::new()))
    );
}

#[test]
fn overlapping_prefix_and_suffix_do_not_double_count() {
    // "aa" → "aaa"：前缀吃掉 2、后缀若不设上限会再吃 2，中间段会算出负长度。
    assert_eq!(edit("aa", "aaa"), None); // 纯插入，被拒
    assert_eq!(
        edit("aaa", "aa"),
        Some(("a".to_string(), String::new()))
    );
}

#[test]
fn cjk_is_counted_by_char_not_by_byte() {
    // 每个汉字 3 字节。按字节算前后缀会切出无效 UTF-8 或错位的边界。
    let pair = minimal_edit("接口设计文档", "借口设计文档").unwrap();
    assert_eq!(pair.source, "接");
    assert_eq!(pair.target, "借");
    assert_eq!(pair.before, "");
    assert_eq!(pair.after, "口设计文档");
}

#[test]
fn emoji_boundaries_are_not_split() {
    let pair = minimal_edit("好的🍎结束", "好的🍊结束").unwrap();
    assert_eq!(pair.source, "🍎");
    assert_eq!(pair.target, "🍊");
}

#[test]
fn context_is_captured_around_the_edit() {
    let pair = minimal_edit("前面的内容大禹后面的内容", "前面的内容大鱼后面的内容").unwrap();
    assert_eq!(pair.source, "禹");
    assert_eq!(pair.target, "鱼");
    assert_eq!(pair.before, "前面的内容大");
    assert_eq!(pair.after, "后面的内容");
}

// ─────────────────────── 分级 ───────────────────────

fn tier(before: &str, after: &str) -> Option<RuleTier> {
    classify_edit(&minimal_edit(before, after).expect("应当是一处有效改动"))
}

#[test]
fn a_latin_word_is_collected_automatically() {
    // 你把一个词改成英文写法，这件事本身就说明它是专名 —— 没人为了换语气这么做。
    assert_eq!(
        tier("我们用扣德克斯写代码", "我们用Codex写代码"),
        Some(RuleTier::Auto)
    );
}

#[test]
fn direction_no_longer_matters() {
    // 旧设计按「中文→英文」还是反过来分档，真机上撞出过一个环：词汇表里的 `Codex`
    // 热词让识别把中文听成英文，用户改回中文，系统又学一条规则把 `Codex` 换掉。
    //
    // 现在只看「你最后要的是哪个词」，方向不再参与判定。英文被改回中文时，要记的
    // 是那个中文词 —— 汉字词一律先问一声。
    assert_eq!(tier("打开setting页", "打开设置页"), Some(RuleTier::Confirm));
}

#[test]
fn a_chinese_homophone_needs_confirmation() {
    // 「大禹 → 大鱼」和「明天 → 后天」在文本上长得一模一样，光看字分不出「纠错」
    // 和「改主意」。这正是不引入拼音之后必须问用户的那一类。
    assert_eq!(tier("今天讲大禹养殖", "今天讲大鱼养殖"), Some(RuleTier::Confirm));
    assert_eq!(tier("我们明天见面", "我们后天见面"), Some(RuleTier::Confirm));
}

// ─────────────────────── 扩到安全长度 ───────────────────────

fn rule(before: &str, after: &str) -> Option<LearnedRule> {
    learned_rule(&minimal_edit(before, after).expect("应当是一处有效改动"))
}

#[test]
fn a_single_char_diff_is_widened_using_the_left_context() {
    // 最小差异是「禹 → 鱼」。直接入库会让往后每个「禹」都变成「鱼」；向左扩一个字
    // 得到的「大禹 → 大鱼」才是用户心里想的那条规则。
    let learned = rule("今天讲大禹养殖", "今天讲大鱼养殖").unwrap();
    assert_eq!(learned.pattern, "大禹");
    assert_eq!(learned.replacement, "大鱼");
    assert_eq!(learned.tier, RuleTier::Confirm);
}

#[test]
fn a_single_char_diff_at_the_start_is_widened_using_the_right_context() {
    // 左边没有上下文（改动就在开头），只能向右扩。
    let learned = rule("接口设计文档", "借口设计文档").unwrap();
    assert_eq!(learned.pattern, "接口");
    assert_eq!(learned.replacement, "借口");
}

#[test]
fn an_already_long_enough_diff_is_not_widened() {
    let learned = rule("我们用扣德克斯写代码", "我们用Codex写代码").unwrap();
    assert_eq!(learned.pattern, "扣德克斯");
    assert_eq!(learned.replacement, "Codex");
    assert_eq!(learned.tier, RuleTier::Auto);
}

#[test]
fn widening_never_swallows_whitespace() {
    // 把换行或空格卷进 literal 规则，它就再也匹配不上任何东西了。
    // 左边是换行 → 只能往右扩。
    let learned = rule("上一行\n甲乙", "上一行\n丙乙").unwrap();
    assert_eq!(learned.pattern, "甲乙");
    assert_eq!(learned.replacement, "丙乙");
}

#[test]
fn an_edit_with_no_usable_context_is_not_learned() {
    // 两侧都没有实字可借 —— 宁可不学，也不要一条到处误伤的单字规则。
    assert!(rule("甲", "乙").is_none());
    assert!(rule(" 甲 ", " 乙 ").is_none());
}

#[test]
fn tier_is_decided_before_widening() {
    // 扩长会把中文上下文粘到英文词上；先扩再判就永远判不出这是个拉丁词了。
    let learned = rule("装了容器之后", "装了docker之后").unwrap();
    assert_eq!(learned.tier, RuleTier::Auto);
}

#[test]
fn a_semantic_rewrite_needs_confirmation() {
    assert_eq!(
        tier("这个方案挺好的", "这个方案还行吧"),
        Some(RuleTier::Confirm)
    );
}

#[test]
fn a_pure_deletion_never_becomes_a_rule() {
    // 做成全局替换就是「以后所有听写里这个词一律删掉」。风险与收益完全不对等。
    assert_eq!(tier("这个的的接口", "这个的接口"), None);
    assert_eq!(tier("多余的词组在这", "在这"), None);
}

#[test]
fn swapping_one_latin_name_for_another_is_still_a_word_worth_keeping() {
    // 「Codex → Cursor」大概率是换工具而不是纠错，但要记的是 `Cursor` 这个词
    // 本身 —— 它值得进词汇表，跟这次改动的动机无关。词条只是提示，不做替换。
    assert_eq!(
        tier("我们用 Codex 写", "我们用 Cursor 写"),
        Some(RuleTier::Auto)
    );
}

#[test]
fn a_side_that_mixes_scripts_is_not_treated_as_a_loanword_mishearing() {
    // 「一侧纯 CJK、另一侧纯 ASCII」要求的是「纯」。混着的那种更可能是用户在换
    // 说法，不是我们把外来词听成了汉字。
    let edit = EditPair {
        source: "Docker容器".to_string(),
        target: "容器引擎".to_string(),
        before: "用".to_string(),
        after: "跑".to_string(),
    };
    assert_eq!(classify_edit(&edit), Some(RuleTier::Confirm));
}

#[test]
fn an_edit_inside_the_inserted_text_is_attributed_to_us() {
    let edit = minimal_edit("上文我们用大禹养殖下文", "上文我们用大鱼养殖下文").unwrap();
    assert!(edit_is_within_typed_text(&edit, "我们用大禹养殖"));
}

#[test]
fn an_edit_elsewhere_in_the_document_is_not_ours() {
    // 用户在同一个输入框里改自己之前写的东西 —— 观察器照样会收到通知，但这跟本次
    // 听写无关，学进来就是噪声。
    let edit = minimal_edit("用户旧内容甲\n我们插的话", "用户旧内容乙\n我们插的话").unwrap();
    assert_eq!(edit.source, "甲");
    assert!(!edit_is_within_typed_text(&edit, "我们插的话"));
}

#[test]
fn context_is_capped_on_both_sides() {
    let long = "字".repeat(500);
    let before = format!("{long}甲{long}");
    let after = format!("{long}乙{long}");
    let pair = minimal_edit(&before, &after).unwrap();
    assert_eq!(pair.source, "甲");
    assert_eq!(pair.before.chars().count(), CONTEXT_CHARS);
    assert_eq!(pair.after.chars().count(), CONTEXT_CHARS);
}
