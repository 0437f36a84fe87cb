//! What the built-in tables make of each of their words said alone: every
//! intent keyword, as the whole (lowercased) utterance, is understood as its
//! own intent with one hit, except "为什么", which also holds "什么" and
//! scores two, and "which", which also holds the greeting "hi" and so is
//! understood as a greeting (the first of two equal scores); every
//! sentiment word alone is one hit of its own kind.

use vstd::prelude::*;

use crate::nlp::{
    best_entry, hit_words, intent_score, intent_table, negative_lexicon, positive_lexicon, understood, Intent,
    NluResult,
};
use crate::text::{lowercase, occurs_at, seq_contains};

verus! {

/// Number of the first `n` words of `kws` that occur in `l`.
pub open spec fn hits_upto(l: Seq<char>, kws: Seq<Seq<char>>, n: int) -> nat
    decreases n,
{
    if n <= 0 {
        0
    } else {
        hits_upto(l, kws, n - 1) + if seq_contains(l, kws[n - 1]) {
            1nat
        } else {
            0nat
        }
    }
}

proof fn lemma_hits_upto_prefix(l: Seq<char>, kws: Seq<Seq<char>>, n: int)
    requires
        0 <= n < kws.len(),
    ensures
        hits_upto(l, kws.drop_last(), n) == hits_upto(l, kws, n),
    decreases n,
{
    if n > 0 {
        lemma_hits_upto_prefix(l, kws, n - 1);
    }
}

/// The number of hits is the number of words that occur.
proof fn lemma_hit_count(l: Seq<char>, kws: Seq<Seq<char>>)
    ensures
        hit_words(l, kws).len() == hits_upto(l, kws, kws.len() as int),
    decreases kws.len(),
{
    if kws.len() > 0 {
        lemma_hit_count(l, kws.drop_last());
        lemma_hits_upto_prefix(l, kws, kws.len() - 1);
    }
}

/// Each intent's score on `l` counts its keywords that occur in `l`.
proof fn lemma_scores(l: Seq<char>)
    ensures
        forall|k: int|
            0 <= k < intent_table().len() ==> #[trigger] intent_score(l, intent_table(), k) == hits_upto(
                l,
                intent_table()[k].1,
                intent_table()[k].1.len() as int,
            ),
{
    assert forall|k: int| 0 <= k < intent_table().len() implies #[trigger] intent_score(l, intent_table(), k)
        == hits_upto(l, intent_table()[k].1, intent_table()[k].1.len() as int) by {
        lemma_hit_count(l, intent_table()[k].1);
    }
}

/// A word with a character that `l` lacks does not occur in `l`.
proof fn lemma_word_absent(l: Seq<char>, w: Seq<char>, j: int)
    requires
        0 <= j < w.len(),
        forall|i: int| 0 <= i < l.len() ==> #[trigger] l[i] != w[j],
    ensures
        !seq_contains(l, w),
{
    if seq_contains(l, w) {
        let i = choose|i: int| occurs_at(l, w, i);
        assert(l.subrange(i, i + w.len())[j] == w[j]);
        assert(l[i + j] == w[j]);
    }
}

/// A word longer than `l` does not occur in `l`.
proof fn lemma_word_too_long(l: Seq<char>, w: Seq<char>)
    requires
        w.len() > l.len(),
    ensures
        !seq_contains(l, w),
{
}

/// A word found at position `i` of `l` occurs in `l`.
proof fn lemma_word_at(l: Seq<char>, w: Seq<char>, i: int)
    requires
        0 <= i,
        i + w.len() <= l.len(),
        forall|k: int| 0 <= k < w.len() ==> #[trigger] w[k] == l[i + k],
    ensures
        seq_contains(l, w),
{
    assert(l.subrange(i, i + w.len()) =~= w);
    assert(occurs_at(l, w, i));
}

/// "你好" alone: Greeting, with 1 hit.
proof fn lemma_alone_0(t: Seq<char>, r: NluResult)
    requires
        understood(r, t, intent_table(), positive_lexicon(), negative_lexicon()),
        lowercase(t) == "你好"@,
    ensures
        r.intent == Intent::Greeting,
        r.intent_score == 1,
{
    reveal(intent_table);
    reveal_with_fuel(hits_upto, 13);
    reveal_strlit("你好"); reveal_strlit("hello"); reveal_strlit("hi"); reveal_strlit("嗨"); reveal_strlit("您好");
    reveal_strlit("早上好"); reveal_strlit("下午好"); reveal_strlit("晚上好"); reveal_strlit("什么");
    reveal_strlit("怎么"); reveal_strlit("为什么"); reveal_strlit("如何"); reveal_strlit("哪"); reveal_strlit("谁");
    reveal_strlit("?"); reveal_strlit("？"); reveal_strlit("why"); reveal_strlit("how"); reveal_strlit("what");
    reveal_strlit("which"); reveal_strlit("做"); reveal_strlit("运行"); reveal_strlit("执行"); reveal_strlit("开始");
    reveal_strlit("停止"); reveal_strlit("请"); reveal_strlit("帮我"); reveal_strlit("do"); reveal_strlit("run");
    reveal_strlit("start"); reveal_strlit("stop"); reveal_strlit("please"); reveal_strlit("谢谢");
    reveal_strlit("感谢"); reveal_strlit("多谢"); reveal_strlit("thanks"); reveal_strlit("thank you");
    reveal_strlit("对不起"); reveal_strlit("抱歉"); reveal_strlit("不好意思"); reveal_strlit("sorry");
    reveal_strlit("apologize"); reveal_strlit("我是"); reveal_strlit("我叫"); reveal_strlit("我呢");
    reveal_strlit("my name is"); reveal_strlit("i am"); reveal_strlit("现在"); reveal_strlit("几点");
    reveal_strlit("今天"); reveal_strlit("星期"); reveal_strlit("日期"); reveal_strlit("now");
    reveal_strlit("time"); reveal_strlit("today"); reveal_strlit("date");
    let l = "你好"@;
    assert forall|i: int| 0 <= i < l.len() implies l[i] == '你' || l[i] == '好' by {
        if i == 0 {} else if i == 1 {}
    }
    lemma_word_at(l, "你好"@, 0); lemma_word_too_long(l, "hello"@); lemma_word_absent(l, "hi"@, 0);
    lemma_word_absent(l, "嗨"@, 0); lemma_word_absent(l, "您好"@, 0); lemma_word_too_long(l, "早上好"@);
    lemma_word_too_long(l, "下午好"@); lemma_word_too_long(l, "晚上好"@); lemma_word_absent(l, "什么"@, 0);
    lemma_word_absent(l, "怎么"@, 0); lemma_word_too_long(l, "为什么"@); lemma_word_absent(l, "如何"@, 0);
    lemma_word_absent(l, "哪"@, 0); lemma_word_absent(l, "谁"@, 0); lemma_word_absent(l, "?"@, 0);
    lemma_word_absent(l, "？"@, 0); lemma_word_too_long(l, "why"@); lemma_word_too_long(l, "how"@);
    lemma_word_too_long(l, "what"@); lemma_word_too_long(l, "which"@); lemma_word_absent(l, "做"@, 0);
    lemma_word_absent(l, "运行"@, 0); lemma_word_absent(l, "执行"@, 0); lemma_word_absent(l, "开始"@, 0);
    lemma_word_absent(l, "停止"@, 0); lemma_word_absent(l, "请"@, 0); lemma_word_absent(l, "帮我"@, 0);
    lemma_word_absent(l, "do"@, 0); lemma_word_too_long(l, "run"@); lemma_word_too_long(l, "start"@);
    lemma_word_too_long(l, "stop"@); lemma_word_too_long(l, "please"@); lemma_word_absent(l, "谢谢"@, 0);
    lemma_word_absent(l, "感谢"@, 0); lemma_word_absent(l, "多谢"@, 0); lemma_word_too_long(l, "thanks"@);
    lemma_word_too_long(l, "thank you"@); lemma_word_too_long(l, "对不起"@); lemma_word_absent(l, "抱歉"@, 0);
    lemma_word_too_long(l, "不好意思"@); lemma_word_too_long(l, "sorry"@); lemma_word_too_long(l, "apologize"@);
    lemma_word_absent(l, "我是"@, 0); lemma_word_absent(l, "我叫"@, 0); lemma_word_absent(l, "我呢"@, 0);
    lemma_word_too_long(l, "my name is"@); lemma_word_too_long(l, "i am"@); lemma_word_absent(l, "现在"@, 0);
    lemma_word_absent(l, "几点"@, 0); lemma_word_absent(l, "今天"@, 0); lemma_word_absent(l, "星期"@, 0);
    lemma_word_absent(l, "日期"@, 0); lemma_word_too_long(l, "now"@); lemma_word_too_long(l, "time"@);
    lemma_word_too_long(l, "today"@); lemma_word_too_long(l, "date"@);
    let table = intent_table();
    lemma_scores(l);
    assert(intent_score(l, table, 0) == 1 && intent_score(l, table, 1) == 0 && intent_score(l, table, 2) == 0 && intent_score(l, table, 3) == 0 && intent_score(l, table, 4) == 0 && intent_score(l, table, 5) == 0 && intent_score(l, table, 6) == 0);
    let k = choose|k: int| best_entry(l, table, k) && r.intent == table[k].0 && r.intent_score == intent_score(l, table, k);
    if k == 0 {} else if k == 1 {} else if k == 2 {} else if k == 3 {} else if k == 4 {} else if k == 5 {} else {}
}

/// "hello" alone: Greeting, with 1 hit.
proof fn lemma_alone_1(t: Seq<char>, r: NluResult)
    requires
        understood(r, t, intent_table(), positive_lexicon(), negative_lexicon()),
        lowercase(t) == "hello"@,
    ensures
        r.intent == Intent::Greeting,
        r.intent_score == 1,
{
    reveal(intent_table);
    reveal_with_fuel(hits_upto, 13);
    reveal_strlit("你好"); reveal_strlit("hello"); reveal_strlit("hi"); reveal_strlit("嗨"); reveal_strlit("您好");
    reveal_strlit("早上好"); reveal_strlit("下午好"); reveal_strlit("晚上好"); reveal_strlit("什么");
    reveal_strlit("怎么"); reveal_strlit("为什么"); reveal_strlit("如何"); reveal_strlit("哪"); reveal_strlit("谁");
    reveal_strlit("?"); reveal_strlit("？"); reveal_strlit("why"); reveal_strlit("how"); reveal_strlit("what");
    reveal_strlit("which"); reveal_strlit("做"); reveal_strlit("运行"); reveal_strlit("执行"); reveal_strlit("开始");
    reveal_strlit("停止"); reveal_strlit("请"); reveal_strlit("帮我"); reveal_strlit("do"); reveal_strlit("run");
    reveal_strlit("start"); reveal_strlit("stop"); reveal_strlit("please"); reveal_strlit("谢谢");
    reveal_strlit("感谢"); reveal_strlit("多谢"); reveal_strlit("thanks"); reveal_strlit("thank you");
    reveal_strlit("对不起"); reveal_strlit("抱歉"); reveal_strlit("不好意思"); reveal_strlit("sorry");
    reveal_strlit("apologize"); reveal_strlit("我是"); reveal_strlit("我叫"); reveal_strlit("我呢");
    reveal_strlit("my name is"); reveal_strlit("i am"); reveal_strlit("现在"); reveal_strlit("几点");
    reveal_strlit("今天"); reveal_strlit("星期"); reveal_strlit("日期"); reveal_strlit("now");
    reveal_strlit("time"); reveal_strlit("today"); reveal_strlit("date");
    let l = "hello"@;
    assert forall|i: int| 0 <= i < l.len() implies l[i] == 'e' || l[i] == 'h' || l[i] == 'l' || l[i] == 'o' by {
        if i == 0 {} else if i == 1 {} else if i == 2 {} else if i == 3 {} else if i == 4 {}
    }
    lemma_word_absent(l, "你好"@, 0); lemma_word_at(l, "hello"@, 0); lemma_word_absent(l, "hi"@, 1);
    lemma_word_absent(l, "嗨"@, 0); lemma_word_absent(l, "您好"@, 0); lemma_word_absent(l, "早上好"@, 0);
    lemma_word_absent(l, "下午好"@, 0); lemma_word_absent(l, "晚上好"@, 0); lemma_word_absent(l, "什么"@, 0);
    lemma_word_absent(l, "怎么"@, 0); lemma_word_absent(l, "为什么"@, 0); lemma_word_absent(l, "如何"@, 0);
    lemma_word_absent(l, "哪"@, 0); lemma_word_absent(l, "谁"@, 0); lemma_word_absent(l, "?"@, 0);
    lemma_word_absent(l, "？"@, 0); lemma_word_absent(l, "why"@, 0); lemma_word_absent(l, "how"@, 2);
    lemma_word_absent(l, "what"@, 0); lemma_word_absent(l, "which"@, 0); lemma_word_absent(l, "做"@, 0);
    lemma_word_absent(l, "运行"@, 0); lemma_word_absent(l, "执行"@, 0); lemma_word_absent(l, "开始"@, 0);
    lemma_word_absent(l, "停止"@, 0); lemma_word_absent(l, "请"@, 0); lemma_word_absent(l, "帮我"@, 0);
    lemma_word_absent(l, "do"@, 0); lemma_word_absent(l, "run"@, 0); lemma_word_absent(l, "start"@, 0);
    lemma_word_absent(l, "stop"@, 0); lemma_word_too_long(l, "please"@); lemma_word_absent(l, "谢谢"@, 0);
    lemma_word_absent(l, "感谢"@, 0); lemma_word_absent(l, "多谢"@, 0); lemma_word_too_long(l, "thanks"@);
    lemma_word_too_long(l, "thank you"@); lemma_word_absent(l, "对不起"@, 0); lemma_word_absent(l, "抱歉"@, 0);
    lemma_word_absent(l, "不好意思"@, 0); lemma_word_absent(l, "sorry"@, 0); lemma_word_too_long(l, "apologize"@);
    lemma_word_absent(l, "我是"@, 0); lemma_word_absent(l, "我叫"@, 0); lemma_word_absent(l, "我呢"@, 0);
    lemma_word_too_long(l, "my name is"@); lemma_word_absent(l, "i am"@, 0); lemma_word_absent(l, "现在"@, 0);
    lemma_word_absent(l, "几点"@, 0); lemma_word_absent(l, "今天"@, 0); lemma_word_absent(l, "星期"@, 0);
    lemma_word_absent(l, "日期"@, 0); lemma_word_absent(l, "now"@, 0); lemma_word_absent(l, "time"@, 0);
    lemma_word_absent(l, "today"@, 0); lemma_word_absent(l, "date"@, 0);
    let table = intent_table();
    lemma_scores(l);
    assert(intent_score(l, table, 0) == 1 && intent_score(l, table, 1) == 0 && intent_score(l, table, 2) == 0 && intent_score(l, table, 3) == 0 && intent_score(l, table, 4) == 0 && intent_score(l, table, 5) == 0 && intent_score(l, table, 6) == 0);
    let k = choose|k: int| best_entry(l, table, k) && r.intent == table[k].0 && r.intent_score == intent_score(l, table, k);
    if k == 0 {} else if k == 1 {} else if k == 2 {} else if k == 3 {} else if k == 4 {} else if k == 5 {} else {}
}

/// "hi" alone: Greeting, with 1 hit.
proof fn lemma_alone_2(t: Seq<char>, r: NluResult)
    requires
        understood(r, t, intent_table(), positive_lexicon(), negative_lexicon()),
        lowercase(t) == "hi"@,
    ensures
        r.intent == Intent::Greeting,
        r.intent_score == 1,
{
    reveal(intent_table);
    reveal_with_fuel(hits_upto, 13);
    reveal_strlit("你好"); reveal_strlit("hello"); reveal_strlit("hi"); reveal_strlit("嗨"); reveal_strlit("您好");
    reveal_strlit("早上好"); reveal_strlit("下午好"); reveal_strlit("晚上好"); reveal_strlit("什么");
    reveal_strlit("怎么"); reveal_strlit("为什么"); reveal_strlit("如何"); reveal_strlit("哪"); reveal_strlit("谁");
    reveal_strlit("?"); reveal_strlit("？"); reveal_strlit("why"); reveal_strlit("how"); reveal_strlit("what");
    reveal_strlit("which"); reveal_strlit("做"); reveal_strlit("运行"); reveal_strlit("执行"); reveal_strlit("开始");
    reveal_strlit("停止"); reveal_strlit("请"); reveal_strlit("帮我"); reveal_strlit("do"); reveal_strlit("run");
    reveal_strlit("start"); reveal_strlit("stop"); reveal_strlit("please"); reveal_strlit("谢谢");
    reveal_strlit("感谢"); reveal_strlit("多谢"); reveal_strlit("thanks"); reveal_strlit("thank you");
    reveal_strlit("对不起"); reveal_strlit("抱歉"); reveal_strlit("不好意思"); reveal_strlit("sorry");
    reveal_strlit("apologize"); reveal_strlit("我是"); reveal_strlit("我叫"); reveal_strlit("我呢");
    reveal_strlit("my name is"); reveal_strlit("i am"); reveal_strlit("现在"); reveal_strlit("几点");
    reveal_strlit("今天"); reveal_strlit("星期"); reveal_strlit("日期"); reveal_strlit("now");
    reveal_strlit("time"); reveal_strlit("today"); reveal_strlit("date");
    let l = "hi"@;
    assert forall|i: int| 0 <= i < l.len() implies l[i] == 'h' || l[i] == 'i' by {
        if i == 0 {} else if i == 1 {}
    }
    lemma_word_absent(l, "你好"@, 0); lemma_word_too_long(l, "hello"@); lemma_word_at(l, "hi"@, 0);
    lemma_word_absent(l, "嗨"@, 0); lemma_word_absent(l, "您好"@, 0); lemma_word_too_long(l, "早上好"@);
    lemma_word_too_long(l, "下午好"@); lemma_word_too_long(l, "晚上好"@); lemma_word_absent(l, "什么"@, 0);
    lemma_word_absent(l, "怎么"@, 0); lemma_word_too_long(l, "为什么"@); lemma_word_absent(l, "如何"@, 0);
    lemma_word_absent(l, "哪"@, 0); lemma_word_absent(l, "谁"@, 0); lemma_word_absent(l, "?"@, 0);
    lemma_word_absent(l, "？"@, 0); lemma_word_too_long(l, "why"@); lemma_word_too_long(l, "how"@);
    lemma_word_too_long(l, "what"@); lemma_word_too_long(l, "which"@); lemma_word_absent(l, "做"@, 0);
    lemma_word_absent(l, "运行"@, 0); lemma_word_absent(l, "执行"@, 0); lemma_word_absent(l, "开始"@, 0);
    lemma_word_absent(l, "停止"@, 0); lemma_word_absent(l, "请"@, 0); lemma_word_absent(l, "帮我"@, 0);
    lemma_word_absent(l, "do"@, 0); lemma_word_too_long(l, "run"@); lemma_word_too_long(l, "start"@);
    lemma_word_too_long(l, "stop"@); lemma_word_too_long(l, "please"@); lemma_word_absent(l, "谢谢"@, 0);
    lemma_word_absent(l, "感谢"@, 0); lemma_word_absent(l, "多谢"@, 0); lemma_word_too_long(l, "thanks"@);
    lemma_word_too_long(l, "thank you"@); lemma_word_too_long(l, "对不起"@); lemma_word_absent(l, "抱歉"@, 0);
    lemma_word_too_long(l, "不好意思"@); lemma_word_too_long(l, "sorry"@); lemma_word_too_long(l, "apologize"@);
    lemma_word_absent(l, "我是"@, 0); lemma_word_absent(l, "我叫"@, 0); lemma_word_absent(l, "我呢"@, 0);
    lemma_word_too_long(l, "my name is"@); lemma_word_too_long(l, "i am"@); lemma_word_absent(l, "现在"@, 0);
    lemma_word_absent(l, "几点"@, 0); lemma_word_absent(l, "今天"@, 0); lemma_word_absent(l, "星期"@, 0);
    lemma_word_absent(l, "日期"@, 0); lemma_word_too_long(l, "now"@); lemma_word_too_long(l, "time"@);
    lemma_word_too_long(l, "today"@); lemma_word_too_long(l, "date"@);
    let table = intent_table();
    lemma_scores(l);
    assert(intent_score(l, table, 0) == 1 && intent_score(l, table, 1) == 0 && intent_score(l, table, 2) == 0 && intent_score(l, table, 3) == 0 && intent_score(l, table, 4) == 0 && intent_score(l, table, 5) == 0 && intent_score(l, table, 6) == 0);
    let k = choose|k: int| best_entry(l, table, k) && r.intent == table[k].0 && r.intent_score == intent_score(l, table, k);
    if k == 0 {} else if k == 1 {} else if k == 2 {} else if k == 3 {} else if k == 4 {} else if k == 5 {} else {}
}

/// "嗨" alone: Greeting, with 1 hit.
proof fn lemma_alone_3(t: Seq<char>, r: NluResult)
    requires
        understood(r, t, intent_table(), positive_lexicon(), negative_lexicon()),
        lowercase(t) == "嗨"@,
    ensures
        r.intent == Intent::Greeting,
        r.intent_score == 1,
{
    reveal(intent_table);
    reveal_with_fuel(hits_upto, 13);
    reveal_strlit("你好"); reveal_strlit("hello"); reveal_strlit("hi"); reveal_strlit("嗨"); reveal_strlit("您好");
    reveal_strlit("早上好"); reveal_strlit("下午好"); reveal_strlit("晚上好"); reveal_strlit("什么");
    reveal_strlit("怎么"); reveal_strlit("为什么"); reveal_strlit("如何"); reveal_strlit("哪"); reveal_strlit("谁");
    reveal_strlit("?"); reveal_strlit("？"); reveal_strlit("why"); reveal_strlit("how"); reveal_strlit("what");
    reveal_strlit("which"); reveal_strlit("做"); reveal_strlit("运行"); reveal_strlit("执行"); reveal_strlit("开始");
    reveal_strlit("停止"); reveal_strlit("请"); reveal_strlit("帮我"); reveal_strlit("do"); reveal_strlit("run");
    reveal_strlit("start"); reveal_strlit("stop"); reveal_strlit("please"); reveal_strlit("谢谢");
    reveal_strlit("感谢"); reveal_strlit("多谢"); reveal_strlit("thanks"); reveal_strlit("thank you");
    reveal_strlit("对不起"); reveal_strlit("抱歉"); reveal_strlit("不好意思"); reveal_strlit("sorry");
    reveal_strlit("apologize"); reveal_strlit("我是"); reveal_strlit("我叫"); reveal_strlit("我呢");
    reveal_strlit("my name is"); reveal_strlit("i am"); reveal_strlit("现在"); reveal_strlit("几点");
    reveal_strlit("今天"); reveal_strlit("星期"); reveal_strlit("日期"); reveal_strlit("now");
    reveal_strlit("time"); reveal_strlit("today"); reveal_strlit("date");
    let l = "嗨"@;
    assert forall|i: int| 0 <= i < l.len() implies l[i] == '嗨' by {
        if i == 0 {}
    }
    lemma_word_too_long(l, "你好"@); lemma_word_too_long(l, "hello"@); lemma_word_too_long(l, "hi"@);
    lemma_word_at(l, "嗨"@, 0); lemma_word_too_long(l, "您好"@); lemma_word_too_long(l, "早上好"@);
    lemma_word_too_long(l, "下午好"@); lemma_word_too_long(l, "晚上好"@); lemma_word_too_long(l, "什么"@);
    lemma_word_too_long(l, "怎么"@); lemma_word_too_long(l, "为什么"@); lemma_word_too_long(l, "如何"@);
    lemma_word_absent(l, "哪"@, 0); lemma_word_absent(l, "谁"@, 0); lemma_word_absent(l, "?"@, 0);
    lemma_word_absent(l, "？"@, 0); lemma_word_too_long(l, "why"@); lemma_word_too_long(l, "how"@);
    lemma_word_too_long(l, "what"@); lemma_word_too_long(l, "which"@); lemma_word_absent(l, "做"@, 0);
    lemma_word_too_long(l, "运行"@); lemma_word_too_long(l, "执行"@); lemma_word_too_long(l, "开始"@);
    lemma_word_too_long(l, "停止"@); lemma_word_absent(l, "请"@, 0); lemma_word_too_long(l, "帮我"@);
    lemma_word_too_long(l, "do"@); lemma_word_too_long(l, "run"@); lemma_word_too_long(l, "start"@);
    lemma_word_too_long(l, "stop"@); lemma_word_too_long(l, "please"@); lemma_word_too_long(l, "谢谢"@);
    lemma_word_too_long(l, "感谢"@); lemma_word_too_long(l, "多谢"@); lemma_word_too_long(l, "thanks"@);
    lemma_word_too_long(l, "thank you"@); lemma_word_too_long(l, "对不起"@); lemma_word_too_long(l, "抱歉"@);
    lemma_word_too_long(l, "不好意思"@); lemma_word_too_long(l, "sorry"@); lemma_word_too_long(l, "apologize"@);
    lemma_word_too_long(l, "我是"@); lemma_word_too_long(l, "我叫"@); lemma_word_too_long(l, "我呢"@);
    lemma_word_too_long(l, "my name is"@); lemma_word_too_long(l, "i am"@); lemma_word_too_long(l, "现在"@);
    lemma_word_too_long(l, "几点"@); lemma_word_too_long(l, "今天"@); lemma_word_too_long(l, "星期"@);
    lemma_word_too_long(l, "日期"@); lemma_word_too_long(l, "now"@); lemma_word_too_long(l, "time"@);
    lemma_word_too_long(l, "today"@); lemma_word_too_long(l, "date"@);
    let table = intent_table();
    lemma_scores(l);
    assert(intent_score(l, table, 0) == 1 && intent_score(l, table, 1) == 0 && intent_score(l, table, 2) == 0 && intent_score(l, table, 3) == 0 && intent_score(l, table, 4) == 0 && intent_score(l, table, 5) == 0 && intent_score(l, table, 6) == 0);
    let k = choose|k: int| best_entry(l, table, k) && r.intent == table[k].0 && r.intent_score == intent_score(l, table, k);
    if k == 0 {} else if k == 1 {} else if k == 2 {} else if k == 3 {} else if k == 4 {} else if k == 5 {} else {}
}

/// "您好" alone: Greeting, with 1 hit.
proof fn lemma_alone_4(t: Seq<char>, r: NluResult)
    requires
        understood(r, t, intent_table(), positive_lexicon(), negative_lexicon()),
        lowercase(t) == "您好"@,
    ensures
        r.intent == Intent::Greeting,
        r.intent_score == 1,
{
    reveal(intent_table);
    reveal_with_fuel(hits_upto, 13);
    reveal_strlit("你好"); reveal_strlit("hello"); reveal_strlit("hi"); reveal_strlit("嗨"); reveal_strlit("您好");
    reveal_strlit("早上好"); reveal_strlit("下午好"); reveal_strlit("晚上好"); reveal_strlit("什么");
    reveal_strlit("怎么"); reveal_strlit("为什么"); reveal_strlit("如何"); reveal_strlit("哪"); reveal_strlit("谁");
    reveal_strlit("?"); reveal_strlit("？"); reveal_strlit("why"); reveal_strlit("how"); reveal_strlit("what");
    reveal_strlit("which"); reveal_strlit("做"); reveal_strlit("运行"); reveal_strlit("执行"); reveal_strlit("开始");
    reveal_strlit("停止"); reveal_strlit("请"); reveal_strlit("帮我"); reveal_strlit("do"); reveal_strlit("run");
    reveal_strlit("start"); reveal_strlit("stop"); reveal_strlit("please"); reveal_strlit("谢谢");
    reveal_strlit("感谢"); reveal_strlit("多谢"); reveal_strlit("thanks"); reveal_strlit("thank you");
    reveal_strlit("对不起"); reveal_strlit("抱歉"); reveal_strlit("不好意思"); reveal_strlit("sorry");
    reveal_strlit("apologize"); reveal_strlit("我是"); reveal_strlit("我叫"); reveal_strlit("我呢");
    reveal_strlit("my name is"); reveal_strlit("i am"); reveal_strlit("现在"); reveal_strlit("几点");
    reveal_strlit("今天"); reveal_strlit("星期"); reveal_strlit("日期"); reveal_strlit("now");
    reveal_strlit("time"); reveal_strlit("today"); reveal_strlit("date");
    let l = "您好"@;
    assert forall|i: int| 0 <= i < l.len() implies l[i] == '好' || l[i] == '您' by {
        if i == 0 {} else if i == 1 {}
    }
    lemma_word_absent(l, "你好"@, 0); lemma_word_too_long(l, "hello"@); lemma_word_absent(l, "hi"@, 0);
    lemma_word_absent(l, "嗨"@, 0); lemma_word_at(l, "您好"@, 0); lemma_word_too_long(l, "早上好"@);
    lemma_word_too_long(l, "下午好"@); lemma_word_too_long(l, "晚上好"@); lemma_word_absent(l, "什么"@, 0);
    lemma_word_absent(l, "怎么"@, 0); lemma_word_too_long(l, "为什么"@); lemma_word_absent(l, "如何"@, 0);
    lemma_word_absent(l, "哪"@, 0); lemma_word_absent(l, "谁"@, 0); lemma_word_absent(l, "?"@, 0);
    lemma_word_absent(l, "？"@, 0); lemma_word_too_long(l, "why"@); lemma_word_too_long(l, "how"@);
    lemma_word_too_long(l, "what"@); lemma_word_too_long(l, "which"@); lemma_word_absent(l, "做"@, 0);
    lemma_word_absent(l, "运行"@, 0); lemma_word_absent(l, "执行"@, 0); lemma_word_absent(l, "开始"@, 0);
    lemma_word_absent(l, "停止"@, 0); lemma_word_absent(l, "请"@, 0); lemma_word_absent(l, "帮我"@, 0);
    lemma_word_absent(l, "do"@, 0); lemma_word_too_long(l, "run"@); lemma_word_too_long(l, "start"@);
    lemma_word_too_long(l, "stop"@); lemma_word_too_long(l, "please"@); lemma_word_absent(l, "谢谢"@, 0);
    lemma_word_absent(l, "感谢"@, 0); lemma_word_absent(l, "多谢"@, 0); lemma_word_too_long(l, "thanks"@);
    lemma_word_too_long(l, "thank you"@); lemma_word_too_long(l, "对不起"@); lemma_word_absent(l, "抱歉"@, 0);
    lemma_word_too_long(l, "不好意思"@); lemma_word_too_long(l, "sorry"@); lemma_word_too_long(l, "apologize"@);
    lemma_word_absent(l, "我是"@, 0); lemma_word_absent(l, "我叫"@, 0); lemma_word_absent(l, "我呢"@, 0);
    lemma_word_too_long(l, "my name is"@); lemma_word_too_long(l, "i am"@); lemma_word_absent(l, "现在"@, 0);
    lemma_word_absent(l, "几点"@, 0); lemma_word_absent(l, "今天"@, 0); lemma_word_absent(l, "星期"@, 0);
    lemma_word_absent(l, "日期"@, 0); lemma_word_too_long(l, "now"@); lemma_word_too_long(l, "time"@);
    lemma_word_too_long(l, "today"@); lemma_word_too_long(l, "date"@);
    let table = intent_table();
    lemma_scores(l);
    assert(intent_score(l, table, 0) == 1 && intent_score(l, table, 1) == 0 && intent_score(l, table, 2) == 0 && intent_score(l, table, 3) == 0 && intent_score(l, table, 4) == 0 && intent_score(l, table, 5) == 0 && intent_score(l, table, 6) == 0);
    let k = choose|k: int| best_entry(l, table, k) && r.intent == table[k].0 && r.intent_score == intent_score(l, table, k);
    if k == 0 {} else if k == 1 {} else if k == 2 {} else if k == 3 {} else if k == 4 {} else if k == 5 {} else {}
}

/// "早上好" alone: Greeting, with 1 hit.
proof fn lemma_alone_5(t: Seq<char>, r: NluResult)
    requires
        understood(r, t, intent_table(), positive_lexicon(), negative_lexicon()),
        lowercase(t) == "早上好"@,
    ensures
        r.intent == Intent::Greeting,
        r.intent_score == 1,
{
    reveal(intent_table);
    reveal_with_fuel(hits_upto, 13);
    reveal_strlit("你好"); reveal_strlit("hello"); reveal_strlit("hi"); reveal_strlit("嗨"); reveal_strlit("您好");
    reveal_strlit("早上好"); reveal_strlit("下午好"); reveal_strlit("晚上好"); reveal_strlit("什么");
    reveal_strlit("怎么"); reveal_strlit("为什么"); reveal_strlit("如何"); reveal_strlit("哪"); reveal_strlit("谁");
    reveal_strlit("?"); reveal_strlit("？"); reveal_strlit("why"); reveal_strlit("how"); reveal_strlit("what");
    reveal_strlit("which"); reveal_strlit("做"); reveal_strlit("运行"); reveal_strlit("执行"); reveal_strlit("开始");
    reveal_strlit("停止"); reveal_strlit("请"); reveal_strlit("帮我"); reveal_strlit("do"); reveal_strlit("run");
    reveal_strlit("start"); reveal_strlit("stop"); reveal_strlit("please"); reveal_strlit("谢谢");
    reveal_strlit("感谢"); reveal_strlit("多谢"); reveal_strlit("thanks"); reveal_strlit("thank you");
    reveal_strlit("对不起"); reveal_strlit("抱歉"); reveal_strlit("不好意思"); reveal_strlit("sorry");
    reveal_strlit("apologize"); reveal_strlit("我是"); reveal_strlit("我叫"); reveal_strlit("我呢");
    reveal_strlit("my name is"); reveal_strlit("i am"); reveal_strlit("现在"); reveal_strlit("几点");
    reveal_strlit("今天"); reveal_strlit("星期"); reveal_strlit("日期"); reveal_strlit("now");
    reveal_strlit("time"); reveal_strlit("today"); reveal_strlit("date");
    let l = "早上好"@;
    assert forall|i: int| 0 <= i < l.len() implies l[i] == '上' || l[i] == '好' || l[i] == '早' by {
        if i == 0 {} else if i == 1 {} else if i == 2 {}
    }
    lemma_word_absent(l, "你好"@, 0); lemma_word_too_long(l, "hello"@); lemma_word_absent(l, "hi"@, 0);
    lemma_word_absent(l, "嗨"@, 0); lemma_word_absent(l, "您好"@, 0); lemma_word_at(l, "早上好"@, 0);
    lemma_word_absent(l, "下午好"@, 0); lemma_word_absent(l, "晚上好"@, 0); lemma_word_absent(l, "什么"@, 0);
    lemma_word_absent(l, "怎么"@, 0); lemma_word_absent(l, "为什么"@, 0); lemma_word_absent(l, "如何"@, 0);
    lemma_word_absent(l, "哪"@, 0); lemma_word_absent(l, "谁"@, 0); lemma_word_absent(l, "?"@, 0);
    lemma_word_absent(l, "？"@, 0); lemma_word_absent(l, "why"@, 0); lemma_word_absent(l, "how"@, 0);
    lemma_word_too_long(l, "what"@); lemma_word_too_long(l, "which"@); lemma_word_absent(l, "做"@, 0);
    lemma_word_absent(l, "运行"@, 0); lemma_word_absent(l, "执行"@, 0); lemma_word_absent(l, "开始"@, 0);
    lemma_word_absent(l, "停止"@, 0); lemma_word_absent(l, "请"@, 0); lemma_word_absent(l, "帮我"@, 0);
    lemma_word_absent(l, "do"@, 0); lemma_word_absent(l, "run"@, 0); lemma_word_too_long(l, "start"@);
    lemma_word_too_long(l, "stop"@); lemma_word_too_long(l, "please"@); lemma_word_absent(l, "谢谢"@, 0);
    lemma_word_absent(l, "感谢"@, 0); lemma_word_absent(l, "多谢"@, 0); lemma_word_too_long(l, "thanks"@);
    lemma_word_too_long(l, "thank you"@); lemma_word_absent(l, "对不起"@, 0); lemma_word_absent(l, "抱歉"@, 0);
    lemma_word_too_long(l, "不好意思"@); lemma_word_too_long(l, "sorry"@); lemma_word_too_long(l, "apologize"@);
    lemma_word_absent(l, "我是"@, 0); lemma_word_absent(l, "我叫"@, 0); lemma_word_absent(l, "我呢"@, 0);
    lemma_word_too_long(l, "my name is"@); lemma_word_too_long(l, "i am"@); lemma_word_absent(l, "现在"@, 0);
    lemma_word_absent(l, "几点"@, 0); lemma_word_absent(l, "今天"@, 0); lemma_word_absent(l, "星期"@, 0);
    lemma_word_absent(l, "日期"@, 0); lemma_word_absent(l, "now"@, 0); lemma_word_too_long(l, "time"@);
    lemma_word_too_long(l, "today"@); lemma_word_too_long(l, "date"@);
    let table = intent_table();
    lemma_scores(l);
    assert(intent_score(l, table, 0) == 1 && intent_score(l, table, 1) == 0 && intent_score(l, table, 2) == 0 && intent_score(l, table, 3) == 0 && intent_score(l, table, 4) == 0 && intent_score(l, table, 5) == 0 && intent_score(l, table, 6) == 0);
    let k = choose|k: int| best_entry(l, table, k) && r.intent == table[k].0 && r.intent_score == intent_score(l, table, k);
    if k == 0 {} else if k == 1 {} else if k == 2 {} else if k == 3 {} else if k == 4 {} else if k == 5 {} else {}
}

/// "下午好" alone: Greeting, with 1 hit.
proof fn lemma_alone_6(t: Seq<char>, r: NluResult)
    requires
        understood(r, t, intent_table(), positive_lexicon(), negative_lexicon()),
        lowercase(t) == "下午好"@,
    ensures
        r.intent == Intent::Greeting,
        r.intent_score == 1,
{
    reveal(intent_table);
    reveal_with_fuel(hits_upto, 13);
    reveal_strlit("你好"); reveal_strlit("hello"); reveal_strlit("hi"); reveal_strlit("嗨"); reveal_strlit("您好");
    reveal_strlit("早上好"); reveal_strlit("下午好"); reveal_strlit("晚上好"); reveal_strlit("什么");
    reveal_strlit("怎么"); reveal_strlit("为什么"); reveal_strlit("如何"); reveal_strlit("哪"); reveal_strlit("谁");
    reveal_strlit("?"); reveal_strlit("？"); reveal_strlit("why"); reveal_strlit("how"); reveal_strlit("what");
    reveal_strlit("which"); reveal_strlit("做"); reveal_strlit("运行"); reveal_strlit("执行"); reveal_strlit("开始");
    reveal_strlit("停止"); reveal_strlit("请"); reveal_strlit("帮我"); reveal_strlit("do"); reveal_strlit("run");
    reveal_strlit("start"); reveal_strlit("stop"); reveal_strlit("please"); reveal_strlit("谢谢");
    reveal_strlit("感谢"); reveal_strlit("多谢"); reveal_strlit("thanks"); reveal_strlit("thank you");
    reveal_strlit("对不起"); reveal_strlit("抱歉"); reveal_strlit("不好意思"); reveal_strlit("sorry");
    reveal_strlit("apologize"); reveal_strlit("我是"); reveal_strlit("我叫"); reveal_strlit("我呢");
    reveal_strlit("my name is"); reveal_strlit("i am"); reveal_strlit("现在"); reveal_strlit("几点");
    reveal_strlit("今天"); reveal_strlit("星期"); reveal_strlit("日期"); reveal_strlit("now");
    reveal_strlit("time"); reveal_strlit("today"); reveal_strlit("date");
    let l = "下午好"@;
    assert forall|i: int| 0 <= i < l.len() implies l[i] == '下' || l[i] == '午' || l[i] == '好' by {
        if i == 0 {} else if i == 1 {} else if i == 2 {}
    }
    lemma_word_absent(l, "你好"@, 0); lemma_word_too_long(l, "hello"@); lemma_word_absent(l, "hi"@, 0);
    lemma_word_absent(l, "嗨"@, 0); lemma_word_absent(l, "您好"@, 0); lemma_word_absent(l, "早上好"@, 0);
    lemma_word_at(l, "下午好"@, 0); lemma_word_absent(l, "晚上好"@, 0); lemma_word_absent(l, "什么"@, 0);
    lemma_word_absent(l, "怎么"@, 0); lemma_word_absent(l, "为什么"@, 0); lemma_word_absent(l, "如何"@, 0);
    lemma_word_absent(l, "哪"@, 0); lemma_word_absent(l, "谁"@, 0); lemma_word_absent(l, "?"@, 0);
    lemma_word_absent(l, "？"@, 0); lemma_word_absent(l, "why"@, 0); lemma_word_absent(l, "how"@, 0);
    lemma_word_too_long(l, "what"@); lemma_word_too_long(l, "which"@); lemma_word_absent(l, "做"@, 0);
    lemma_word_absent(l, "运行"@, 0); lemma_word_absent(l, "执行"@, 0); lemma_word_absent(l, "开始"@, 0);
    lemma_word_absent(l, "停止"@, 0); lemma_word_absent(l, "请"@, 0); lemma_word_absent(l, "帮我"@, 0);
    lemma_word_absent(l, "do"@, 0); lemma_word_absent(l, "run"@, 0); lemma_word_too_long(l, "start"@);
    lemma_word_too_long(l, "stop"@); lemma_word_too_long(l, "please"@); lemma_word_absent(l, "谢谢"@, 0);
    lemma_word_absent(l, "感谢"@, 0); lemma_word_absent(l, "多谢"@, 0); lemma_word_too_long(l, "thanks"@);
    lemma_word_too_long(l, "thank you"@); lemma_word_absent(l, "对不起"@, 0); lemma_word_absent(l, "抱歉"@, 0);
    lemma_word_too_long(l, "不好意思"@); lemma_word_too_long(l, "sorry"@); lemma_word_too_long(l, "apologize"@);
    lemma_word_absent(l, "我是"@, 0); lemma_word_absent(l, "我叫"@, 0); lemma_word_absent(l, "我呢"@, 0);
    lemma_word_too_long(l, "my name is"@); lemma_word_too_long(l, "i am"@); lemma_word_absent(l, "现在"@, 0);
    lemma_word_absent(l, "几点"@, 0); lemma_word_absent(l, "今天"@, 0); lemma_word_absent(l, "星期"@, 0);
    lemma_word_absent(l, "日期"@, 0); lemma_word_absent(l, "now"@, 0); lemma_word_too_long(l, "time"@);
    lemma_word_too_long(l, "today"@); lemma_word_too_long(l, "date"@);
    let table = intent_table();
    lemma_scores(l);
    assert(intent_score(l, table, 0) == 1 && intent_score(l, table, 1) == 0 && intent_score(l, table, 2) == 0 && intent_score(l, table, 3) == 0 && intent_score(l, table, 4) == 0 && intent_score(l, table, 5) == 0 && intent_score(l, table, 6) == 0);
    let k = choose|k: int| best_entry(l, table, k) && r.intent == table[k].0 && r.intent_score == intent_score(l, table, k);
    if k == 0 {} else if k == 1 {} else if k == 2 {} else if k == 3 {} else if k == 4 {} else if k == 5 {} else {}
}

/// "晚上好" alone: Greeting, with 1 hit.
proof fn lemma_alone_7(t: Seq<char>, r: NluResult)
    requires
        understood(r, t, intent_table(), positive_lexicon(), negative_lexicon()),
        lowercase(t) == "晚上好"@,
    ensures
        r.intent == Intent::Greeting,
        r.intent_score == 1,
{
    reveal(intent_table);
    reveal_with_fuel(hits_upto, 13);
    reveal_strlit("你好"); reveal_strlit("hello"); reveal_strlit("hi"); reveal_strlit("嗨"); reveal_strlit("您好");
    reveal_strlit("早上好"); reveal_strlit("下午好"); reveal_strlit("晚上好"); reveal_strlit("什么");
    reveal_strlit("怎么"); reveal_strlit("为什么"); reveal_strlit("如何"); reveal_strlit("哪"); reveal_strlit("谁");
    reveal_strlit("?"); reveal_strlit("？"); reveal_strlit("why"); reveal_strlit("how"); reveal_strlit("what");
    reveal_strlit("which"); reveal_strlit("做"); reveal_strlit("运行"); reveal_strlit("执行"); reveal_strlit("开始");
    reveal_strlit("停止"); reveal_strlit("请"); reveal_strlit("帮我"); reveal_strlit("do"); reveal_strlit("run");
    reveal_strlit("start"); reveal_strlit("stop"); reveal_strlit("please"); reveal_strlit("谢谢");
    reveal_strlit("感谢"); reveal_strlit("多谢"); reveal_strlit("thanks"); reveal_strlit("thank you");
    reveal_strlit("对不起"); reveal_strlit("抱歉"); reveal_strlit("不好意思"); reveal_strlit("sorry");
    reveal_strlit("apologize"); reveal_strlit("我是"); reveal_strlit("我叫"); reveal_strlit("我呢");
    reveal_strlit("my name is"); reveal_strlit("i am"); reveal_strlit("现在"); reveal_strlit("几点");
    reveal_strlit("今天"); reveal_strlit("星期"); reveal_strlit("日期"); reveal_strlit("now");
    reveal_strlit("time"); reveal_strlit("today"); reveal_strlit("date");
    let l = "晚上好"@;
    assert forall|i: int| 0 <= i < l.len() implies l[i] == '上' || l[i] == '好' || l[i] == '晚' by {
        if i == 0 {} else if i == 1 {} else if i == 2 {}
    }
    lemma_word_absent(l, "你好"@, 0); lemma_word_too_long(l, "hello"@); lemma_word_absent(l, "hi"@, 0);
    lemma_word_absent(l, "嗨"@, 0); lemma_word_absent(l, "您好"@, 0); lemma_word_absent(l, "早上好"@, 0);
    lemma_word_absent(l, "下午好"@, 0); lemma_word_at(l, "晚上好"@, 0); lemma_word_absent(l, "什么"@, 0);
    lemma_word_absent(l, "怎么"@, 0); lemma_word_absent(l, "为什么"@, 0); lemma_word_absent(l, "如何"@, 0);
    lemma_word_absent(l, "哪"@, 0); lemma_word_absent(l, "谁"@, 0); lemma_word_absent(l, "?"@, 0);
    lemma_word_absent(l, "？"@, 0); lemma_word_absent(l, "why"@, 0); lemma_word_absent(l, "how"@, 0);
    lemma_word_too_long(l, "what"@); lemma_word_too_long(l, "which"@); lemma_word_absent(l, "做"@, 0);
    lemma_word_absent(l, "运行"@, 0); lemma_word_absent(l, "执行"@, 0); lemma_word_absent(l, "开始"@, 0);
    lemma_word_absent(l, "停止"@, 0); lemma_word_absent(l, "请"@, 0); lemma_word_absent(l, "帮我"@, 0);
    lemma_word_absent(l, "do"@, 0); lemma_word_absent(l, "run"@, 0); lemma_word_too_long(l, "start"@);
    lemma_word_too_long(l, "stop"@); lemma_word_too_long(l, "please"@); lemma_word_absent(l, "谢谢"@, 0);
    lemma_word_absent(l, "感谢"@, 0); lemma_word_absent(l, "多谢"@, 0); lemma_word_too_long(l, "thanks"@);
    lemma_word_too_long(l, "thank you"@); lemma_word_absent(l, "对不起"@, 0); lemma_word_absent(l, "抱歉"@, 0);
    lemma_word_too_long(l, "不好意思"@); lemma_word_too_long(l, "sorry"@); lemma_word_too_long(l, "apologize"@);
    lemma_word_absent(l, "我是"@, 0); lemma_word_absent(l, "我叫"@, 0); lemma_word_absent(l, "我呢"@, 0);
    lemma_word_too_long(l, "my name is"@); lemma_word_too_long(l, "i am"@); lemma_word_absent(l, "现在"@, 0);
    lemma_word_absent(l, "几点"@, 0); lemma_word_absent(l, "今天"@, 0); lemma_word_absent(l, "星期"@, 0);
    lemma_word_absent(l, "日期"@, 0); lemma_word_absent(l, "now"@, 0); lemma_word_too_long(l, "time"@);
    lemma_word_too_long(l, "today"@); lemma_word_too_long(l, "date"@);
    let table = intent_table();
    lemma_scores(l);
    assert(intent_score(l, table, 0) == 1 && intent_score(l, table, 1) == 0 && intent_score(l, table, 2) == 0 && intent_score(l, table, 3) == 0 && intent_score(l, table, 4) == 0 && intent_score(l, table, 5) == 0 && intent_score(l, table, 6) == 0);
    let k = choose|k: int| best_entry(l, table, k) && r.intent == table[k].0 && r.intent_score == intent_score(l, table, k);
    if k == 0 {} else if k == 1 {} else if k == 2 {} else if k == 3 {} else if k == 4 {} else if k == 5 {} else {}
}

/// "什么" alone: Question, with 1 hit.
proof fn lemma_alone_8(t: Seq<char>, r: NluResult)
    requires
        understood(r, t, intent_table(), positive_lexicon(), negative_lexicon()),
        lowercase(t) == "什么"@,
    ensures
        r.intent == Intent::Question,
        r.intent_score == 1,
{
    reveal(intent_table);
    reveal_with_fuel(hits_upto, 13);
    reveal_strlit("你好"); reveal_strlit("hello"); reveal_strlit("hi"); reveal_strlit("嗨"); reveal_strlit("您好");
    reveal_strlit("早上好"); reveal_strlit("下午好"); reveal_strlit("晚上好"); reveal_strlit("什么");
    reveal_strlit("怎么"); reveal_strlit("为什么"); reveal_strlit("如何"); reveal_strlit("哪"); reveal_strlit("谁");
    reveal_strlit("?"); reveal_strlit("？"); reveal_strlit("why"); reveal_strlit("how"); reveal_strlit("what");
    reveal_strlit("which"); reveal_strlit("做"); reveal_strlit("运行"); reveal_strlit("执行"); reveal_strlit("开始");
    reveal_strlit("停止"); reveal_strlit("请"); reveal_strlit("帮我"); reveal_strlit("do"); reveal_strlit("run");
    reveal_strlit("start"); reveal_strlit("stop"); reveal_strlit("please"); reveal_strlit("谢谢");
    reveal_strlit("感谢"); reveal_strlit("多谢"); reveal_strlit("thanks"); reveal_strlit("thank you");
    reveal_strlit("对不起"); reveal_strlit("抱歉"); reveal_strlit("不好意思"); reveal_strlit("sorry");
    reveal_strlit("apologize"); reveal_strlit("我是"); reveal_strlit("我叫"); reveal_strlit("我呢");
    reveal_strlit("my name is"); reveal_strlit("i am"); reveal_strlit("现在"); reveal_strlit("几点");
    reveal_strlit("今天"); reveal_strlit("星期"); reveal_strlit("日期"); reveal_strlit("now");
    reveal_strlit("time"); reveal_strlit("today"); reveal_strlit("date");
    let l = "什么"@;
    assert forall|i: int| 0 <= i < l.len() implies l[i] == '么' || l[i] == '什' by {
        if i == 0 {} else if i == 1 {}
    }
    lemma_word_absent(l, "你好"@, 0); lemma_word_too_long(l, "hello"@); lemma_word_absent(l, "hi"@, 0);
    lemma_word_absent(l, "嗨"@, 0); lemma_word_absent(l, "您好"@, 0); lemma_word_too_long(l, "早上好"@);
    lemma_word_too_long(l, "下午好"@); lemma_word_too_long(l, "晚上好"@); lemma_word_at(l, "什么"@, 0);
    lemma_word_absent(l, "怎么"@, 0); lemma_word_too_long(l, "为什么"@); lemma_word_absent(l, "如何"@, 0);
    lemma_word_absent(l, "哪"@, 0); lemma_word_absent(l, "谁"@, 0); lemma_word_absent(l, "?"@, 0);
    lemma_word_absent(l, "？"@, 0); lemma_word_too_long(l, "why"@); lemma_word_too_long(l, "how"@);
    lemma_word_too_long(l, "what"@); lemma_word_too_long(l, "which"@); lemma_word_absent(l, "做"@, 0);
    lemma_word_absent(l, "运行"@, 0); lemma_word_absent(l, "执行"@, 0); lemma_word_absent(l, "开始"@, 0);
    lemma_word_absent(l, "停止"@, 0); lemma_word_absent(l, "请"@, 0); lemma_word_absent(l, "帮我"@, 0);
    lemma_word_absent(l, "do"@, 0); lemma_word_too_long(l, "run"@); lemma_word_too_long(l, "start"@);
    lemma_word_too_long(l, "stop"@); lemma_word_too_long(l, "please"@); lemma_word_absent(l, "谢谢"@, 0);
    lemma_word_absent(l, "感谢"@, 0); lemma_word_absent(l, "多谢"@, 0); lemma_word_too_long(l, "thanks"@);
    lemma_word_too_long(l, "thank you"@); lemma_word_too_long(l, "对不起"@); lemma_word_absent(l, "抱歉"@, 0);
    lemma_word_too_long(l, "不好意思"@); lemma_word_too_long(l, "sorry"@); lemma_word_too_long(l, "apologize"@);
    lemma_word_absent(l, "我是"@, 0); lemma_word_absent(l, "我叫"@, 0); lemma_word_absent(l, "我呢"@, 0);
    lemma_word_too_long(l, "my name is"@); lemma_word_too_long(l, "i am"@); lemma_word_absent(l, "现在"@, 0);
    lemma_word_absent(l, "几点"@, 0); lemma_word_absent(l, "今天"@, 0); lemma_word_absent(l, "星期"@, 0);
    lemma_word_absent(l, "日期"@, 0); lemma_word_too_long(l, "now"@); lemma_word_too_long(l, "time"@);
    lemma_word_too_long(l, "today"@); lemma_word_too_long(l, "date"@);
    let table = intent_table();
    lemma_scores(l);
    assert(intent_score(l, table, 0) == 0 && intent_score(l, table, 1) == 1 && intent_score(l, table, 2) == 0 && intent_score(l, table, 3) == 0 && intent_score(l, table, 4) == 0 && intent_score(l, table, 5) == 0 && intent_score(l, table, 6) == 0);
    let k = choose|k: int| best_entry(l, table, k) && r.intent == table[k].0 && r.intent_score == intent_score(l, table, k);
    if k == 0 {} else if k == 1 {} else if k == 2 {} else if k == 3 {} else if k == 4 {} else if k == 5 {} else {}
}

/// "怎么" alone: Question, with 1 hit.
proof fn lemma_alone_9(t: Seq<char>, r: NluResult)
    requires
        understood(r, t, intent_table(), positive_lexicon(), negative_lexicon()),
        lowercase(t) == "怎么"@,
    ensures
        r.intent == Intent::Question,
        r.intent_score == 1,
{
    reveal(intent_table);
    reveal_with_fuel(hits_upto, 13);
    reveal_strlit("你好"); reveal_strlit("hello"); reveal_strlit("hi"); reveal_strlit("嗨"); reveal_strlit("您好");
    reveal_strlit("早上好"); reveal_strlit("下午好"); reveal_strlit("晚上好"); reveal_strlit("什么");
    reveal_strlit("怎么"); reveal_strlit("为什么"); reveal_strlit("如何"); reveal_strlit("哪"); reveal_strlit("谁");
    reveal_strlit("?"); reveal_strlit("？"); reveal_strlit("why"); reveal_strlit("how"); reveal_strlit("what");
    reveal_strlit("which"); reveal_strlit("做"); reveal_strlit("运行"); reveal_strlit("执行"); reveal_strlit("开始");
    reveal_strlit("停止"); reveal_strlit("请"); reveal_strlit("帮我"); reveal_strlit("do"); reveal_strlit("run");
    reveal_strlit("start"); reveal_strlit("stop"); reveal_strlit("please"); reveal_strlit("谢谢");
    reveal_strlit("感谢"); reveal_strlit("多谢"); reveal_strlit("thanks"); reveal_strlit("thank you");
    reveal_strlit("对不起"); reveal_strlit("抱歉"); reveal_strlit("不好意思"); reveal_strlit("sorry");
    reveal_strlit("apologize"); reveal_strlit("我是"); reveal_strlit("我叫"); reveal_strlit("我呢");
    reveal_strlit("my name is"); reveal_strlit("i am"); reveal_strlit("现在"); reveal_strlit("几点");
    reveal_strlit("今天"); reveal_strlit("星期"); reveal_strlit("日期"); reveal_strlit("now");
    reveal_strlit("time"); reveal_strlit("today"); reveal_strlit("date");
    let l = "怎么"@;
    assert forall|i: int| 0 <= i < l.len() implies l[i] == '么' || l[i] == '怎' by {
        if i == 0 {} else if i == 1 {}
    }
    lemma_word_absent(l, "你好"@, 0); lemma_word_too_long(l, "hello"@); lemma_word_absent(l, "hi"@, 0);
    lemma_word_absent(l, "嗨"@, 0); lemma_word_absent(l, "您好"@, 0); lemma_word_too_long(l, "早上好"@);
    lemma_word_too_long(l, "下午好"@); lemma_word_too_long(l, "晚上好"@); lemma_word_absent(l, "什么"@, 0);
    lemma_word_at(l, "怎么"@, 0); lemma_word_too_long(l, "为什么"@); lemma_word_absent(l, "如何"@, 0);
    lemma_word_absent(l, "哪"@, 0); lemma_word_absent(l, "谁"@, 0); lemma_word_absent(l, "?"@, 0);
    lemma_word_absent(l, "？"@, 0); lemma_word_too_long(l, "why"@); lemma_word_too_long(l, "how"@);
    lemma_word_too_long(l, "what"@); lemma_word_too_long(l, "which"@); lemma_word_absent(l, "做"@, 0);
    lemma_word_absent(l, "运行"@, 0); lemma_word_absent(l, "执行"@, 0); lemma_word_absent(l, "开始"@, 0);
    lemma_word_absent(l, "停止"@, 0); lemma_word_absent(l, "请"@, 0); lemma_word_absent(l, "帮我"@, 0);
    lemma_word_absent(l, "do"@, 0); lemma_word_too_long(l, "run"@); lemma_word_too_long(l, "start"@);
    lemma_word_too_long(l, "stop"@); lemma_word_too_long(l, "please"@); lemma_word_absent(l, "谢谢"@, 0);
    lemma_word_absent(l, "感谢"@, 0); lemma_word_absent(l, "多谢"@, 0); lemma_word_too_long(l, "thanks"@);
    lemma_word_too_long(l, "thank you"@); lemma_word_too_long(l, "对不起"@); lemma_word_absent(l, "抱歉"@, 0);
    lemma_word_too_long(l, "不好意思"@); lemma_word_too_long(l, "sorry"@); lemma_word_too_long(l, "apologize"@);
    lemma_word_absent(l, "我是"@, 0); lemma_word_absent(l, "我叫"@, 0); lemma_word_absent(l, "我呢"@, 0);
    lemma_word_too_long(l, "my name is"@); lemma_word_too_long(l, "i am"@); lemma_word_absent(l, "现在"@, 0);
    lemma_word_absent(l, "几点"@, 0); lemma_word_absent(l, "今天"@, 0); lemma_word_absent(l, "星期"@, 0);
    lemma_word_absent(l, "日期"@, 0); lemma_word_too_long(l, "now"@); lemma_word_too_long(l, "time"@);
    lemma_word_too_long(l, "today"@); lemma_word_too_long(l, "date"@);
    let table = intent_table();
    lemma_scores(l);
    assert(intent_score(l, table, 0) == 0 && intent_score(l, table, 1) == 1 && intent_score(l, table, 2) == 0 && intent_score(l, table, 3) == 0 && intent_score(l, table, 4) == 0 && intent_score(l, table, 5) == 0 && intent_score(l, table, 6) == 0);
    let k = choose|k: int| best_entry(l, table, k) && r.intent == table[k].0 && r.intent_score == intent_score(l, table, k);
    if k == 0 {} else if k == 1 {} else if k == 2 {} else if k == 3 {} else if k == 4 {} else if k == 5 {} else {}
}

/// "为什么" alone: Question, with 2 hits.
proof fn lemma_alone_10(t: Seq<char>, r: NluResult)
    requires
        understood(r, t, intent_table(), positive_lexicon(), negative_lexicon()),
        lowercase(t) == "为什么"@,
    ensures
        r.intent == Intent::Question,
        r.intent_score == 2,
{
    reveal(intent_table);
    reveal_with_fuel(hits_upto, 13);
    reveal_strlit("你好"); reveal_strlit("hello"); reveal_strlit("hi"); reveal_strlit("嗨"); reveal_strlit("您好");
    reveal_strlit("早上好"); reveal_strlit("下午好"); reveal_strlit("晚上好"); reveal_strlit("什么");
    reveal_strlit("怎么"); reveal_strlit("为什么"); reveal_strlit("如何"); reveal_strlit("哪"); reveal_strlit("谁");
    reveal_strlit("?"); reveal_strlit("？"); reveal_strlit("why"); reveal_strlit("how"); reveal_strlit("what");
    reveal_strlit("which"); reveal_strlit("做"); reveal_strlit("运行"); reveal_strlit("执行"); reveal_strlit("开始");
    reveal_strlit("停止"); reveal_strlit("请"); reveal_strlit("帮我"); reveal_strlit("do"); reveal_strlit("run");
    reveal_strlit("start"); reveal_strlit("stop"); reveal_strlit("please"); reveal_strlit("谢谢");
    reveal_strlit("感谢"); reveal_strlit("多谢"); reveal_strlit("thanks"); reveal_strlit("thank you");
    reveal_strlit("对不起"); reveal_strlit("抱歉"); reveal_strlit("不好意思"); reveal_strlit("sorry");
    reveal_strlit("apologize"); reveal_strlit("我是"); reveal_strlit("我叫"); reveal_strlit("我呢");
    reveal_strlit("my name is"); reveal_strlit("i am"); reveal_strlit("现在"); reveal_strlit("几点");
    reveal_strlit("今天"); reveal_strlit("星期"); reveal_strlit("日期"); reveal_strlit("now");
    reveal_strlit("time"); reveal_strlit("today"); reveal_strlit("date");
    let l = "为什么"@;
    assert forall|i: int| 0 <= i < l.len() implies l[i] == '为' || l[i] == '么' || l[i] == '什' by {
        if i == 0 {} else if i == 1 {} else if i == 2 {}
    }
    lemma_word_absent(l, "你好"@, 0); lemma_word_too_long(l, "hello"@); lemma_word_absent(l, "hi"@, 0);
    lemma_word_absent(l, "嗨"@, 0); lemma_word_absent(l, "您好"@, 0); lemma_word_absent(l, "早上好"@, 0);
    lemma_word_absent(l, "下午好"@, 0); lemma_word_absent(l, "晚上好"@, 0); lemma_word_at(l, "什么"@, 1);
    lemma_word_absent(l, "怎么"@, 0); lemma_word_at(l, "为什么"@, 0); lemma_word_absent(l, "如何"@, 0);
    lemma_word_absent(l, "哪"@, 0); lemma_word_absent(l, "谁"@, 0); lemma_word_absent(l, "?"@, 0);
    lemma_word_absent(l, "？"@, 0); lemma_word_absent(l, "why"@, 0); lemma_word_absent(l, "how"@, 0);
    lemma_word_too_long(l, "what"@); lemma_word_too_long(l, "which"@); lemma_word_absent(l, "做"@, 0);
    lemma_word_absent(l, "运行"@, 0); lemma_word_absent(l, "执行"@, 0); lemma_word_absent(l, "开始"@, 0);
    lemma_word_absent(l, "停止"@, 0); lemma_word_absent(l, "请"@, 0); lemma_word_absent(l, "帮我"@, 0);
    lemma_word_absent(l, "do"@, 0); lemma_word_absent(l, "run"@, 0); lemma_word_too_long(l, "start"@);
    lemma_word_too_long(l, "stop"@); lemma_word_too_long(l, "please"@); lemma_word_absent(l, "谢谢"@, 0);
    lemma_word_absent(l, "感谢"@, 0); lemma_word_absent(l, "多谢"@, 0); lemma_word_too_long(l, "thanks"@);
    lemma_word_too_long(l, "thank you"@); lemma_word_absent(l, "对不起"@, 0); lemma_word_absent(l, "抱歉"@, 0);
    lemma_word_too_long(l, "不好意思"@); lemma_word_too_long(l, "sorry"@); lemma_word_too_long(l, "apologize"@);
    lemma_word_absent(l, "我是"@, 0); lemma_word_absent(l, "我叫"@, 0); lemma_word_absent(l, "我呢"@, 0);
    lemma_word_too_long(l, "my name is"@); lemma_word_too_long(l, "i am"@); lemma_word_absent(l, "现在"@, 0);
    lemma_word_absent(l, "几点"@, 0); lemma_word_absent(l, "今天"@, 0); lemma_word_absent(l, "星期"@, 0);
    lemma_word_absent(l, "日期"@, 0); lemma_word_absent(l, "now"@, 0); lemma_word_too_long(l, "time"@);
    lemma_word_too_long(l, "today"@); lemma_word_too_long(l, "date"@);
    let table = intent_table();
    lemma_scores(l);
    assert(intent_score(l, table, 0) == 0 && intent_score(l, table, 1) == 2 && intent_score(l, table, 2) == 0 && intent_score(l, table, 3) == 0 && intent_score(l, table, 4) == 0 && intent_score(l, table, 5) == 0 && intent_score(l, table, 6) == 0);
    let k = choose|k: int| best_entry(l, table, k) && r.intent == table[k].0 && r.intent_score == intent_score(l, table, k);
    if k == 0 {} else if k == 1 {} else if k == 2 {} else if k == 3 {} else if k == 4 {} else if k == 5 {} else {}
}

/// "如何" alone: Question, with 1 hit.
proof fn lemma_alone_11(t: Seq<char>, r: NluResult)
    requires
        understood(r, t, intent_table(), positive_lexicon(), negative_lexicon()),
        lowercase(t) == "如何"@,
    ensures
        r.intent == Intent::Question,
        r.intent_score == 1,
{
    reveal(intent_table);
    reveal_with_fuel(hits_upto, 13);
    reveal_strlit("你好"); reveal_strlit("hello"); reveal_strlit("hi"); reveal_strlit("嗨"); reveal_strlit("您好");
    reveal_strlit("早上好"); reveal_strlit("下午好"); reveal_strlit("晚上好"); reveal_strlit("什么");
    reveal_strlit("怎么"); reveal_strlit("为什么"); reveal_strlit("如何"); reveal_strlit("哪"); reveal_strlit("谁");
    reveal_strlit("?"); reveal_strlit("？"); reveal_strlit("why"); reveal_strlit("how"); reveal_strlit("what");
    reveal_strlit("which"); reveal_strlit("做"); reveal_strlit("运行"); reveal_strlit("执行"); reveal_strlit("开始");
    reveal_strlit("停止"); reveal_strlit("请"); reveal_strlit("帮我"); reveal_strlit("do"); reveal_strlit("run");
    reveal_strlit("start"); reveal_strlit("stop"); reveal_strlit("please"); reveal_strlit("谢谢");
    reveal_strlit("感谢"); reveal_strlit("多谢"); reveal_strlit("thanks"); reveal_strlit("thank you");
    reveal_strlit("对不起"); reveal_strlit("抱歉"); reveal_strlit("不好意思"); reveal_strlit("sorry");
    reveal_strlit("apologize"); reveal_strlit("我是"); reveal_strlit("我叫"); reveal_strlit("我呢");
    reveal_strlit("my name is"); reveal_strlit("i am"); reveal_strlit("现在"); reveal_strlit("几点");
    reveal_strlit("今天"); reveal_strlit("星期"); reveal_strlit("日期"); reveal_strlit("now");
    reveal_strlit("time"); reveal_strlit("today"); reveal_strlit("date");
    let l = "如何"@;
    assert forall|i: int| 0 <= i < l.len() implies l[i] == '何' || l[i] == '如' by {
        if i == 0 {} else if i == 1 {}
    }
    lemma_word_absent(l, "你好"@, 0); lemma_word_too_long(l, "hello"@); lemma_word_absent(l, "hi"@, 0);
    lemma_word_absent(l, "嗨"@, 0); lemma_word_absent(l, "您好"@, 0); lemma_word_too_long(l, "早上好"@);
    lemma_word_too_long(l, "下午好"@); lemma_word_too_long(l, "晚上好"@); lemma_word_absent(l, "什么"@, 0);
    lemma_word_absent(l, "怎么"@, 0); lemma_word_too_long(l, "为什么"@); lemma_word_at(l, "如何"@, 0);
    lemma_word_absent(l, "哪"@, 0); lemma_word_absent(l, "谁"@, 0); lemma_word_absent(l, "?"@, 0);
    lemma_word_absent(l, "？"@, 0); lemma_word_too_long(l, "why"@); lemma_word_too_long(l, "how"@);
    lemma_word_too_long(l, "what"@); lemma_word_too_long(l, "which"@); lemma_word_absent(l, "做"@, 0);
    lemma_word_absent(l, "运行"@, 0); lemma_word_absent(l, "执行"@, 0); lemma_word_absent(l, "开始"@, 0);
    lemma_word_absent(l, "停止"@, 0); lemma_word_absent(l, "请"@, 0); lemma_word_absent(l, "帮我"@, 0);
    lemma_word_absent(l, "do"@, 0); lemma_word_too_long(l, "run"@); lemma_word_too_long(l, "start"@);
    lemma_word_too_long(l, "stop"@); lemma_word_too_long(l, "please"@); lemma_word_absent(l, "谢谢"@, 0);
    lemma_word_absent(l, "感谢"@, 0); lemma_word_absent(l, "多谢"@, 0); lemma_word_too_long(l, "thanks"@);
    lemma_word_too_long(l, "thank you"@); lemma_word_too_long(l, "对不起"@); lemma_word_absent(l, "抱歉"@, 0);
    lemma_word_too_long(l, "不好意思"@); lemma_word_too_long(l, "sorry"@); lemma_word_too_long(l, "apologize"@);
    lemma_word_absent(l, "我是"@, 0); lemma_word_absent(l, "我叫"@, 0); lemma_word_absent(l, "我呢"@, 0);
    lemma_word_too_long(l, "my name is"@); lemma_word_too_long(l, "i am"@); lemma_word_absent(l, "现在"@, 0);
    lemma_word_absent(l, "几点"@, 0); lemma_word_absent(l, "今天"@, 0); lemma_word_absent(l, "星期"@, 0);
    lemma_word_absent(l, "日期"@, 0); lemma_word_too_long(l, "now"@); lemma_word_too_long(l, "time"@);
    lemma_word_too_long(l, "today"@); lemma_word_too_long(l, "date"@);
    let table = intent_table();
    lemma_scores(l);
    assert(intent_score(l, table, 0) == 0 && intent_score(l, table, 1) == 1 && intent_score(l, table, 2) == 0 && intent_score(l, table, 3) == 0 && intent_score(l, table, 4) == 0 && intent_score(l, table, 5) == 0 && intent_score(l, table, 6) == 0);
    let k = choose|k: int| best_entry(l, table, k) && r.intent == table[k].0 && r.intent_score == intent_score(l, table, k);
    if k == 0 {} else if k == 1 {} else if k == 2 {} else if k == 3 {} else if k == 4 {} else if k == 5 {} else {}
}

/// "哪" alone: Question, with 1 hit.
proof fn lemma_alone_12(t: Seq<char>, r: NluResult)
    requires
        understood(r, t, intent_table(), positive_lexicon(), negative_lexicon()),
        lowercase(t) == "哪"@,
    ensures
        r.intent == Intent::Question,
        r.intent_score == 1,
{
    reveal(intent_table);
    reveal_with_fuel(hits_upto, 13);
    reveal_strlit("你好"); reveal_strlit("hello"); reveal_strlit("hi"); reveal_strlit("嗨"); reveal_strlit("您好");
    reveal_strlit("早上好"); reveal_strlit("下午好"); reveal_strlit("晚上好"); reveal_strlit("什么");
    reveal_strlit("怎么"); reveal_strlit("为什么"); reveal_strlit("如何"); reveal_strlit("哪"); reveal_strlit("谁");
    reveal_strlit("?"); reveal_strlit("？"); reveal_strlit("why"); reveal_strlit("how"); reveal_strlit("what");
    reveal_strlit("which"); reveal_strlit("做"); reveal_strlit("运行"); reveal_strlit("执行"); reveal_strlit("开始");
    reveal_strlit("停止"); reveal_strlit("请"); reveal_strlit("帮我"); reveal_strlit("do"); reveal_strlit("run");
    reveal_strlit("start"); reveal_strlit("stop"); reveal_strlit("please"); reveal_strlit("谢谢");
    reveal_strlit("感谢"); reveal_strlit("多谢"); reveal_strlit("thanks"); reveal_strlit("thank you");
    reveal_strlit("对不起"); reveal_strlit("抱歉"); reveal_strlit("不好意思"); reveal_strlit("sorry");
    reveal_strlit("apologize"); reveal_strlit("我是"); reveal_strlit("我叫"); reveal_strlit("我呢");
    reveal_strlit("my name is"); reveal_strlit("i am"); reveal_strlit("现在"); reveal_strlit("几点");
    reveal_strlit("今天"); reveal_strlit("星期"); reveal_strlit("日期"); reveal_strlit("now");
    reveal_strlit("time"); reveal_strlit("today"); reveal_strlit("date");
    let l = "哪"@;
    assert forall|i: int| 0 <= i < l.len() implies l[i] == '哪' by {
        if i == 0 {}
    }
    lemma_word_too_long(l, "你好"@); lemma_word_too_long(l, "hello"@); lemma_word_too_long(l, "hi"@);
    lemma_word_absent(l, "嗨"@, 0); lemma_word_too_long(l, "您好"@); lemma_word_too_long(l, "早上好"@);
    lemma_word_too_long(l, "下午好"@); lemma_word_too_long(l, "晚上好"@); lemma_word_too_long(l, "什么"@);
    lemma_word_too_long(l, "怎么"@); lemma_word_too_long(l, "为什么"@); lemma_word_too_long(l, "如何"@);
    lemma_word_at(l, "哪"@, 0); lemma_word_absent(l, "谁"@, 0); lemma_word_absent(l, "?"@, 0);
    lemma_word_absent(l, "？"@, 0); lemma_word_too_long(l, "why"@); lemma_word_too_long(l, "how"@);
    lemma_word_too_long(l, "what"@); lemma_word_too_long(l, "which"@); lemma_word_absent(l, "做"@, 0);
    lemma_word_too_long(l, "运行"@); lemma_word_too_long(l, "执行"@); lemma_word_too_long(l, "开始"@);
    lemma_word_too_long(l, "停止"@); lemma_word_absent(l, "请"@, 0); lemma_word_too_long(l, "帮我"@);
    lemma_word_too_long(l, "do"@); lemma_word_too_long(l, "run"@); lemma_word_too_long(l, "start"@);
    lemma_word_too_long(l, "stop"@); lemma_word_too_long(l, "please"@); lemma_word_too_long(l, "谢谢"@);
    lemma_word_too_long(l, "感谢"@); lemma_word_too_long(l, "多谢"@); lemma_word_too_long(l, "thanks"@);
    lemma_word_too_long(l, "thank you"@); lemma_word_too_long(l, "对不起"@); lemma_word_too_long(l, "抱歉"@);
    lemma_word_too_long(l, "不好意思"@); lemma_word_too_long(l, "sorry"@); lemma_word_too_long(l, "apologize"@);
    lemma_word_too_long(l, "我是"@); lemma_word_too_long(l, "我叫"@); lemma_word_too_long(l, "我呢"@);
    lemma_word_too_long(l, "my name is"@); lemma_word_too_long(l, "i am"@); lemma_word_too_long(l, "现在"@);
    lemma_word_too_long(l, "几点"@); lemma_word_too_long(l, "今天"@); lemma_word_too_long(l, "星期"@);
    lemma_word_too_long(l, "日期"@); lemma_word_too_long(l, "now"@); lemma_word_too_long(l, "time"@);
    lemma_word_too_long(l, "today"@); lemma_word_too_long(l, "date"@);
    let table = intent_table();
    lemma_scores(l);
    assert(intent_score(l, table, 0) == 0 && intent_score(l, table, 1) == 1 && intent_score(l, table, 2) == 0 && intent_score(l, table, 3) == 0 && intent_score(l, table, 4) == 0 && intent_score(l, table, 5) == 0 && intent_score(l, table, 6) == 0);
    let k = choose|k: int| best_entry(l, table, k) && r.intent == table[k].0 && r.intent_score == intent_score(l, table, k);
    if k == 0 {} else if k == 1 {} else if k == 2 {} else if k == 3 {} else if k == 4 {} else if k == 5 {} else {}
}

/// "谁" alone: Question, with 1 hit.
proof fn lemma_alone_13(t: Seq<char>, r: NluResult)
    requires
        understood(r, t, intent_table(), positive_lexicon(), negative_lexicon()),
        lowercase(t) == "谁"@,
    ensures
        r.intent == Intent::Question,
        r.intent_score == 1,
{
    reveal(intent_table);
    reveal_with_fuel(hits_upto, 13);
    reveal_strlit("你好"); reveal_strlit("hello"); reveal_strlit("hi"); reveal_strlit("嗨"); reveal_strlit("您好");
    reveal_strlit("早上好"); reveal_strlit("下午好"); reveal_strlit("晚上好"); reveal_strlit("什么");
    reveal_strlit("怎么"); reveal_strlit("为什么"); reveal_strlit("如何"); reveal_strlit("哪"); reveal_strlit("谁");
    reveal_strlit("?"); reveal_strlit("？"); reveal_strlit("why"); reveal_strlit("how"); reveal_strlit("what");
    reveal_strlit("which"); reveal_strlit("做"); reveal_strlit("运行"); reveal_strlit("执行"); reveal_strlit("开始");
    reveal_strlit("停止"); reveal_strlit("请"); reveal_strlit("帮我"); reveal_strlit("do"); reveal_strlit("run");
    reveal_strlit("start"); reveal_strlit("stop"); reveal_strlit("please"); reveal_strlit("谢谢");
    reveal_strlit("感谢"); reveal_strlit("多谢"); reveal_strlit("thanks"); reveal_strlit("thank you");
    reveal_strlit("对不起"); reveal_strlit("抱歉"); reveal_strlit("不好意思"); reveal_strlit("sorry");
    reveal_strlit("apologize"); reveal_strlit("我是"); reveal_strlit("我叫"); reveal_strlit("我呢");
    reveal_strlit("my name is"); reveal_strlit("i am"); reveal_strlit("现在"); reveal_strlit("几点");
    reveal_strlit("今天"); reveal_strlit("星期"); reveal_strlit("日期"); reveal_strlit("now");
    reveal_strlit("time"); reveal_strlit("today"); reveal_strlit("date");
    let l = "谁"@;
    assert forall|i: int| 0 <= i < l.len() implies l[i] == '谁' by {
        if i == 0 {}
    }
    lemma_word_too_long(l, "你好"@); lemma_word_too_long(l, "hello"@); lemma_word_too_long(l, "hi"@);
    lemma_word_absent(l, "嗨"@, 0); lemma_word_too_long(l, "您好"@); lemma_word_too_long(l, "早上好"@);
    lemma_word_too_long(l, "下午好"@); lemma_word_too_long(l, "晚上好"@); lemma_word_too_long(l, "什么"@);
    lemma_word_too_long(l, "怎么"@); lemma_word_too_long(l, "为什么"@); lemma_word_too_long(l, "如何"@);
    lemma_word_absent(l, "哪"@, 0); lemma_word_at(l, "谁"@, 0); lemma_word_absent(l, "?"@, 0);
    lemma_word_absent(l, "？"@, 0); lemma_word_too_long(l, "why"@); lemma_word_too_long(l, "how"@);
    lemma_word_too_long(l, "what"@); lemma_word_too_long(l, "which"@); lemma_word_absent(l, "做"@, 0);
    lemma_word_too_long(l, "运行"@); lemma_word_too_long(l, "执行"@); lemma_word_too_long(l, "开始"@);
    lemma_word_too_long(l, "停止"@); lemma_word_absent(l, "请"@, 0); lemma_word_too_long(l, "帮我"@);
    lemma_word_too_long(l, "do"@); lemma_word_too_long(l, "run"@); lemma_word_too_long(l, "start"@);
    lemma_word_too_long(l, "stop"@); lemma_word_too_long(l, "please"@); lemma_word_too_long(l, "谢谢"@);
    lemma_word_too_long(l, "感谢"@); lemma_word_too_long(l, "多谢"@); lemma_word_too_long(l, "thanks"@);
    lemma_word_too_long(l, "thank you"@); lemma_word_too_long(l, "对不起"@); lemma_word_too_long(l, "抱歉"@);
    lemma_word_too_long(l, "不好意思"@); lemma_word_too_long(l, "sorry"@); lemma_word_too_long(l, "apologize"@);
    lemma_word_too_long(l, "我是"@); lemma_word_too_long(l, "我叫"@); lemma_word_too_long(l, "我呢"@);
    lemma_word_too_long(l, "my name is"@); lemma_word_too_long(l, "i am"@); lemma_word_too_long(l, "现在"@);
    lemma_word_too_long(l, "几点"@); lemma_word_too_long(l, "今天"@); lemma_word_too_long(l, "星期"@);
    lemma_word_too_long(l, "日期"@); lemma_word_too_long(l, "now"@); lemma_word_too_long(l, "time"@);
    lemma_word_too_long(l, "today"@); lemma_word_too_long(l, "date"@);
    let table = intent_table();
    lemma_scores(l);
    assert(intent_score(l, table, 0) == 0 && intent_score(l, table, 1) == 1 && intent_score(l, table, 2) == 0 && intent_score(l, table, 3) == 0 && intent_score(l, table, 4) == 0 && intent_score(l, table, 5) == 0 && intent_score(l, table, 6) == 0);
    let k = choose|k: int| best_entry(l, table, k) && r.intent == table[k].0 && r.intent_score == intent_score(l, table, k);
    if k == 0 {} else if k == 1 {} else if k == 2 {} else if k == 3 {} else if k == 4 {} else if k == 5 {} else {}
}

/// "?" alone: Question, with 1 hit.
proof fn lemma_alone_14(t: Seq<char>, r: NluResult)
    requires
        understood(r, t, intent_table(), positive_lexicon(), negative_lexicon()),
        lowercase(t) == "?"@,
    ensures
        r.intent == Intent::Question,
        r.intent_score == 1,
{
    reveal(intent_table);
    reveal_with_fuel(hits_upto, 13);
    reveal_strlit("你好"); reveal_strlit("hello"); reveal_strlit("hi"); reveal_strlit("嗨"); reveal_strlit("您好");
    reveal_strlit("早上好"); reveal_strlit("下午好"); reveal_strlit("晚上好"); reveal_strlit("什么");
    reveal_strlit("怎么"); reveal_strlit("为什么"); reveal_strlit("如何"); reveal_strlit("哪"); reveal_strlit("谁");
    reveal_strlit("?"); reveal_strlit("？"); reveal_strlit("why"); reveal_strlit("how"); reveal_strlit("what");
    reveal_strlit("which"); reveal_strlit("做"); reveal_strlit("运行"); reveal_strlit("执行"); reveal_strlit("开始");
    reveal_strlit("停止"); reveal_strlit("请"); reveal_strlit("帮我"); reveal_strlit("do"); reveal_strlit("run");
    reveal_strlit("start"); reveal_strlit("stop"); reveal_strlit("please"); reveal_strlit("谢谢");
    reveal_strlit("感谢"); reveal_strlit("多谢"); reveal_strlit("thanks"); reveal_strlit("thank you");
    reveal_strlit("对不起"); reveal_strlit("抱歉"); reveal_strlit("不好意思"); reveal_strlit("sorry");
    reveal_strlit("apologize"); reveal_strlit("我是"); reveal_strlit("我叫"); reveal_strlit("我呢");
    reveal_strlit("my name is"); reveal_strlit("i am"); reveal_strlit("现在"); reveal_strlit("几点");
    reveal_strlit("今天"); reveal_strlit("星期"); reveal_strlit("日期"); reveal_strlit("now");
    reveal_strlit("time"); reveal_strlit("today"); reveal_strlit("date");
    let l = "?"@;
    assert forall|i: int| 0 <= i < l.len() implies l[i] == '?' by {
        if i == 0 {}
    }
    lemma_word_too_long(l, "你好"@); lemma_word_too_long(l, "hello"@); lemma_word_too_long(l, "hi"@);
    lemma_word_absent(l, "嗨"@, 0); lemma_word_too_long(l, "您好"@); lemma_word_too_long(l, "早上好"@);
    lemma_word_too_long(l, "下午好"@); lemma_word_too_long(l, "晚上好"@); lemma_word_too_long(l, "什么"@);
    lemma_word_too_long(l, "怎么"@); lemma_word_too_long(l, "为什么"@); lemma_word_too_long(l, "如何"@);
    lemma_word_absent(l, "哪"@, 0); lemma_word_absent(l, "谁"@, 0); lemma_word_at(l, "?"@, 0);
    lemma_word_absent(l, "？"@, 0); lemma_word_too_long(l, "why"@); lemma_word_too_long(l, "how"@);
    lemma_word_too_long(l, "what"@); lemma_word_too_long(l, "which"@); lemma_word_absent(l, "做"@, 0);
    lemma_word_too_long(l, "运行"@); lemma_word_too_long(l, "执行"@); lemma_word_too_long(l, "开始"@);
    lemma_word_too_long(l, "停止"@); lemma_word_absent(l, "请"@, 0); lemma_word_too_long(l, "帮我"@);
    lemma_word_too_long(l, "do"@); lemma_word_too_long(l, "run"@); lemma_word_too_long(l, "start"@);
    lemma_word_too_long(l, "stop"@); lemma_word_too_long(l, "please"@); lemma_word_too_long(l, "谢谢"@);
    lemma_word_too_long(l, "感谢"@); lemma_word_too_long(l, "多谢"@); lemma_word_too_long(l, "thanks"@);
    lemma_word_too_long(l, "thank you"@); lemma_word_too_long(l, "对不起"@); lemma_word_too_long(l, "抱歉"@);
    lemma_word_too_long(l, "不好意思"@); lemma_word_too_long(l, "sorry"@); lemma_word_too_long(l, "apologize"@);
    lemma_word_too_long(l, "我是"@); lemma_word_too_long(l, "我叫"@); lemma_word_too_long(l, "我呢"@);
    lemma_word_too_long(l, "my name is"@); lemma_word_too_long(l, "i am"@); lemma_word_too_long(l, "现在"@);
    lemma_word_too_long(l, "几点"@); lemma_word_too_long(l, "今天"@); lemma_word_too_long(l, "星期"@);
    lemma_word_too_long(l, "日期"@); lemma_word_too_long(l, "now"@); lemma_word_too_long(l, "time"@);
    lemma_word_too_long(l, "today"@); lemma_word_too_long(l, "date"@);
    let table = intent_table();
    lemma_scores(l);
    assert(intent_score(l, table, 0) == 0 && intent_score(l, table, 1) == 1 && intent_score(l, table, 2) == 0 && intent_score(l, table, 3) == 0 && intent_score(l, table, 4) == 0 && intent_score(l, table, 5) == 0 && intent_score(l, table, 6) == 0);
    let k = choose|k: int| best_entry(l, table, k) && r.intent == table[k].0 && r.intent_score == intent_score(l, table, k);
    if k == 0 {} else if k == 1 {} else if k == 2 {} else if k == 3 {} else if k == 4 {} else if k == 5 {} else {}
}

/// "？" alone: Question, with 1 hit.
proof fn lemma_alone_15(t: Seq<char>, r: NluResult)
    requires
        understood(r, t, intent_table(), positive_lexicon(), negative_lexicon()),
        lowercase(t) == "？"@,
    ensures
        r.intent == Intent::Question,
        r.intent_score == 1,
{
    reveal(intent_table);
    reveal_with_fuel(hits_upto, 13);
    reveal_strlit("你好"); reveal_strlit("hello"); reveal_strlit("hi"); reveal_strlit("嗨"); reveal_strlit("您好");
    reveal_strlit("早上好"); reveal_strlit("下午好"); reveal_strlit("晚上好"); reveal_strlit("什么");
    reveal_strlit("怎么"); reveal_strlit("为什么"); reveal_strlit("如何"); reveal_strlit("哪"); reveal_strlit("谁");
    reveal_strlit("?"); reveal_strlit("？"); reveal_strlit("why"); reveal_strlit("how"); reveal_strlit("what");
    reveal_strlit("which"); reveal_strlit("做"); reveal_strlit("运行"); reveal_strlit("执行"); reveal_strlit("开始");
    reveal_strlit("停止"); reveal_strlit("请"); reveal_strlit("帮我"); reveal_strlit("do"); reveal_strlit("run");
    reveal_strlit("start"); reveal_strlit("stop"); reveal_strlit("please"); reveal_strlit("谢谢");
    reveal_strlit("感谢"); reveal_strlit("多谢"); reveal_strlit("thanks"); reveal_strlit("thank you");
    reveal_strlit("对不起"); reveal_strlit("抱歉"); reveal_strlit("不好意思"); reveal_strlit("sorry");
    reveal_strlit("apologize"); reveal_strlit("我是"); reveal_strlit("我叫"); reveal_strlit("我呢");
    reveal_strlit("my name is"); reveal_strlit("i am"); reveal_strlit("现在"); reveal_strlit("几点");
    reveal_strlit("今天"); reveal_strlit("星期"); reveal_strlit("日期"); reveal_strlit("now");
    reveal_strlit("time"); reveal_strlit("today"); reveal_strlit("date");
    let l = "？"@;
    assert forall|i: int| 0 <= i < l.len() implies l[i] == '？' by {
        if i == 0 {}
    }
    lemma_word_too_long(l, "你好"@); lemma_word_too_long(l, "hello"@); lemma_word_too_long(l, "hi"@);
    lemma_word_absent(l, "嗨"@, 0); lemma_word_too_long(l, "您好"@); lemma_word_too_long(l, "早上好"@);
    lemma_word_too_long(l, "下午好"@); lemma_word_too_long(l, "晚上好"@); lemma_word_too_long(l, "什么"@);
    lemma_word_too_long(l, "怎么"@); lemma_word_too_long(l, "为什么"@); lemma_word_too_long(l, "如何"@);
    lemma_word_absent(l, "哪"@, 0); lemma_word_absent(l, "谁"@, 0); lemma_word_absent(l, "?"@, 0);
    lemma_word_at(l, "？"@, 0); lemma_word_too_long(l, "why"@); lemma_word_too_long(l, "how"@);
    lemma_word_too_long(l, "what"@); lemma_word_too_long(l, "which"@); lemma_word_absent(l, "做"@, 0);
    lemma_word_too_long(l, "运行"@); lemma_word_too_long(l, "执行"@); lemma_word_too_long(l, "开始"@);
    lemma_word_too_long(l, "停止"@); lemma_word_absent(l, "请"@, 0); lemma_word_too_long(l, "帮我"@);
    lemma_word_too_long(l, "do"@); lemma_word_too_long(l, "run"@); lemma_word_too_long(l, "start"@);
    lemma_word_too_long(l, "stop"@); lemma_word_too_long(l, "please"@); lemma_word_too_long(l, "谢谢"@);
    lemma_word_too_long(l, "感谢"@); lemma_word_too_long(l, "多谢"@); lemma_word_too_long(l, "thanks"@);
    lemma_word_too_long(l, "thank you"@); lemma_word_too_long(l, "对不起"@); lemma_word_too_long(l, "抱歉"@);
    lemma_word_too_long(l, "不好意思"@); lemma_word_too_long(l, "sorry"@); lemma_word_too_long(l, "apologize"@);
    lemma_word_too_long(l, "我是"@); lemma_word_too_long(l, "我叫"@); lemma_word_too_long(l, "我呢"@);
    lemma_word_too_long(l, "my name is"@); lemma_word_too_long(l, "i am"@); lemma_word_too_long(l, "现在"@);
    lemma_word_too_long(l, "几点"@); lemma_word_too_long(l, "今天"@); lemma_word_too_long(l, "星期"@);
    lemma_word_too_long(l, "日期"@); lemma_word_too_long(l, "now"@); lemma_word_too_long(l, "time"@);
    lemma_word_too_long(l, "today"@); lemma_word_too_long(l, "date"@);
    let table = intent_table();
    lemma_scores(l);
    assert(intent_score(l, table, 0) == 0 && intent_score(l, table, 1) == 1 && intent_score(l, table, 2) == 0 && intent_score(l, table, 3) == 0 && intent_score(l, table, 4) == 0 && intent_score(l, table, 5) == 0 && intent_score(l, table, 6) == 0);
    let k = choose|k: int| best_entry(l, table, k) && r.intent == table[k].0 && r.intent_score == intent_score(l, table, k);
    if k == 0 {} else if k == 1 {} else if k == 2 {} else if k == 3 {} else if k == 4 {} else if k == 5 {} else {}
}

/// "why" alone: Question, with 1 hit.
proof fn lemma_alone_16(t: Seq<char>, r: NluResult)
    requires
        understood(r, t, intent_table(), positive_lexicon(), negative_lexicon()),
        lowercase(t) == "why"@,
    ensures
        r.intent == Intent::Question,
        r.intent_score == 1,
{
    reveal(intent_table);
    reveal_with_fuel(hits_upto, 13);
    reveal_strlit("你好"); reveal_strlit("hello"); reveal_strlit("hi"); reveal_strlit("嗨"); reveal_strlit("您好");
    reveal_strlit("早上好"); reveal_strlit("下午好"); reveal_strlit("晚上好"); reveal_strlit("什么");
    reveal_strlit("怎么"); reveal_strlit("为什么"); reveal_strlit("如何"); reveal_strlit("哪"); reveal_strlit("谁");
    reveal_strlit("?"); reveal_strlit("？"); reveal_strlit("why"); reveal_strlit("how"); reveal_strlit("what");
    reveal_strlit("which"); reveal_strlit("做"); reveal_strlit("运行"); reveal_strlit("执行"); reveal_strlit("开始");
    reveal_strlit("停止"); reveal_strlit("请"); reveal_strlit("帮我"); reveal_strlit("do"); reveal_strlit("run");
    reveal_strlit("start"); reveal_strlit("stop"); reveal_strlit("please"); reveal_strlit("谢谢");
    reveal_strlit("感谢"); reveal_strlit("多谢"); reveal_strlit("thanks"); reveal_strlit("thank you");
    reveal_strlit("对不起"); reveal_strlit("抱歉"); reveal_strlit("不好意思"); reveal_strlit("sorry");
    reveal_strlit("apologize"); reveal_strlit("我是"); reveal_strlit("我叫"); reveal_strlit("我呢");
    reveal_strlit("my name is"); reveal_strlit("i am"); reveal_strlit("现在"); reveal_strlit("几点");
    reveal_strlit("今天"); reveal_strlit("星期"); reveal_strlit("日期"); reveal_strlit("now");
    reveal_strlit("time"); reveal_strlit("today"); reveal_strlit("date");
    let l = "why"@;
    assert forall|i: int| 0 <= i < l.len() implies l[i] == 'h' || l[i] == 'w' || l[i] == 'y' by {
        if i == 0 {} else if i == 1 {} else if i == 2 {}
    }
    lemma_word_absent(l, "你好"@, 0); lemma_word_too_long(l, "hello"@); lemma_word_absent(l, "hi"@, 1);
    lemma_word_absent(l, "嗨"@, 0); lemma_word_absent(l, "您好"@, 0); lemma_word_absent(l, "早上好"@, 0);
    lemma_word_absent(l, "下午好"@, 0); lemma_word_absent(l, "晚上好"@, 0); lemma_word_absent(l, "什么"@, 0);
    lemma_word_absent(l, "怎么"@, 0); lemma_word_absent(l, "为什么"@, 0); lemma_word_absent(l, "如何"@, 0);
    lemma_word_absent(l, "哪"@, 0); lemma_word_absent(l, "谁"@, 0); lemma_word_absent(l, "?"@, 0);
    lemma_word_absent(l, "？"@, 0); lemma_word_at(l, "why"@, 0); lemma_word_absent(l, "how"@, 1);
    lemma_word_too_long(l, "what"@); lemma_word_too_long(l, "which"@); lemma_word_absent(l, "做"@, 0);
    lemma_word_absent(l, "运行"@, 0); lemma_word_absent(l, "执行"@, 0); lemma_word_absent(l, "开始"@, 0);
    lemma_word_absent(l, "停止"@, 0); lemma_word_absent(l, "请"@, 0); lemma_word_absent(l, "帮我"@, 0);
    lemma_word_absent(l, "do"@, 0); lemma_word_absent(l, "run"@, 0); lemma_word_too_long(l, "start"@);
    lemma_word_too_long(l, "stop"@); lemma_word_too_long(l, "please"@); lemma_word_absent(l, "谢谢"@, 0);
    lemma_word_absent(l, "感谢"@, 0); lemma_word_absent(l, "多谢"@, 0); lemma_word_too_long(l, "thanks"@);
    lemma_word_too_long(l, "thank you"@); lemma_word_absent(l, "对不起"@, 0); lemma_word_absent(l, "抱歉"@, 0);
    lemma_word_too_long(l, "不好意思"@); lemma_word_too_long(l, "sorry"@); lemma_word_too_long(l, "apologize"@);
    lemma_word_absent(l, "我是"@, 0); lemma_word_absent(l, "我叫"@, 0); lemma_word_absent(l, "我呢"@, 0);
    lemma_word_too_long(l, "my name is"@); lemma_word_too_long(l, "i am"@); lemma_word_absent(l, "现在"@, 0);
    lemma_word_absent(l, "几点"@, 0); lemma_word_absent(l, "今天"@, 0); lemma_word_absent(l, "星期"@, 0);
    lemma_word_absent(l, "日期"@, 0); lemma_word_absent(l, "now"@, 0); lemma_word_too_long(l, "time"@);
    lemma_word_too_long(l, "today"@); lemma_word_too_long(l, "date"@);
    let table = intent_table();
    lemma_scores(l);
    assert(intent_score(l, table, 0) == 0 && intent_score(l, table, 1) == 1 && intent_score(l, table, 2) == 0 && intent_score(l, table, 3) == 0 && intent_score(l, table, 4) == 0 && intent_score(l, table, 5) == 0 && intent_score(l, table, 6) == 0);
    let k = choose|k: int| best_entry(l, table, k) && r.intent == table[k].0 && r.intent_score == intent_score(l, table, k);
    if k == 0 {} else if k == 1 {} else if k == 2 {} else if k == 3 {} else if k == 4 {} else if k == 5 {} else {}
}

/// "how" alone: Question, with 1 hit.
proof fn lemma_alone_17(t: Seq<char>, r: NluResult)
    requires
        understood(r, t, intent_table(), positive_lexicon(), negative_lexicon()),
        lowercase(t) == "how"@,
    ensures
        r.intent == Intent::Question,
        r.intent_score == 1,
{
    reveal(intent_table);
    reveal_with_fuel(hits_upto, 13);
    reveal_strlit("你好"); reveal_strlit("hello"); reveal_strlit("hi"); reveal_strlit("嗨"); reveal_strlit("您好");
    reveal_strlit("早上好"); reveal_strlit("下午好"); reveal_strlit("晚上好"); reveal_strlit("什么");
    reveal_strlit("怎么"); reveal_strlit("为什么"); reveal_strlit("如何"); reveal_strlit("哪"); reveal_strlit("谁");
    reveal_strlit("?"); reveal_strlit("？"); reveal_strlit("why"); reveal_strlit("how"); reveal_strlit("what");
    reveal_strlit("which"); reveal_strlit("做"); reveal_strlit("运行"); reveal_strlit("执行"); reveal_strlit("开始");
    reveal_strlit("停止"); reveal_strlit("请"); reveal_strlit("帮我"); reveal_strlit("do"); reveal_strlit("run");
    reveal_strlit("start"); reveal_strlit("stop"); reveal_strlit("please"); reveal_strlit("谢谢");
    reveal_strlit("感谢"); reveal_strlit("多谢"); reveal_strlit("thanks"); reveal_strlit("thank you");
    reveal_strlit("对不起"); reveal_strlit("抱歉"); reveal_strlit("不好意思"); reveal_strlit("sorry");
    reveal_strlit("apologize"); reveal_strlit("我是"); reveal_strlit("我叫"); reveal_strlit("我呢");
    reveal_strlit("my name is"); reveal_strlit("i am"); reveal_strlit("现在"); reveal_strlit("几点");
    reveal_strlit("今天"); reveal_strlit("星期"); reveal_strlit("日期"); reveal_strlit("now");
    reveal_strlit("time"); reveal_strlit("today"); reveal_strlit("date");
    let l = "how"@;
    assert forall|i: int| 0 <= i < l.len() implies l[i] == 'h' || l[i] == 'o' || l[i] == 'w' by {
        if i == 0 {} else if i == 1 {} else if i == 2 {}
    }
    lemma_word_absent(l, "你好"@, 0); lemma_word_too_long(l, "hello"@); lemma_word_absent(l, "hi"@, 1);
    lemma_word_absent(l, "嗨"@, 0); lemma_word_absent(l, "您好"@, 0); lemma_word_absent(l, "早上好"@, 0);
    lemma_word_absent(l, "下午好"@, 0); lemma_word_absent(l, "晚上好"@, 0); lemma_word_absent(l, "什么"@, 0);
    lemma_word_absent(l, "怎么"@, 0); lemma_word_absent(l, "为什么"@, 0); lemma_word_absent(l, "如何"@, 0);
    lemma_word_absent(l, "哪"@, 0); lemma_word_absent(l, "谁"@, 0); lemma_word_absent(l, "?"@, 0);
    lemma_word_absent(l, "？"@, 0); lemma_word_absent(l, "why"@, 2); lemma_word_at(l, "how"@, 0);
    lemma_word_too_long(l, "what"@); lemma_word_too_long(l, "which"@); lemma_word_absent(l, "做"@, 0);
    lemma_word_absent(l, "运行"@, 0); lemma_word_absent(l, "执行"@, 0); lemma_word_absent(l, "开始"@, 0);
    lemma_word_absent(l, "停止"@, 0); lemma_word_absent(l, "请"@, 0); lemma_word_absent(l, "帮我"@, 0);
    lemma_word_absent(l, "do"@, 0); lemma_word_absent(l, "run"@, 0); lemma_word_too_long(l, "start"@);
    lemma_word_too_long(l, "stop"@); lemma_word_too_long(l, "please"@); lemma_word_absent(l, "谢谢"@, 0);
    lemma_word_absent(l, "感谢"@, 0); lemma_word_absent(l, "多谢"@, 0); lemma_word_too_long(l, "thanks"@);
    lemma_word_too_long(l, "thank you"@); lemma_word_absent(l, "对不起"@, 0); lemma_word_absent(l, "抱歉"@, 0);
    lemma_word_too_long(l, "不好意思"@); lemma_word_too_long(l, "sorry"@); lemma_word_too_long(l, "apologize"@);
    lemma_word_absent(l, "我是"@, 0); lemma_word_absent(l, "我叫"@, 0); lemma_word_absent(l, "我呢"@, 0);
    lemma_word_too_long(l, "my name is"@); lemma_word_too_long(l, "i am"@); lemma_word_absent(l, "现在"@, 0);
    lemma_word_absent(l, "几点"@, 0); lemma_word_absent(l, "今天"@, 0); lemma_word_absent(l, "星期"@, 0);
    lemma_word_absent(l, "日期"@, 0); lemma_word_absent(l, "now"@, 0); lemma_word_too_long(l, "time"@);
    lemma_word_too_long(l, "today"@); lemma_word_too_long(l, "date"@);
    let table = intent_table();
    lemma_scores(l);
    assert(intent_score(l, table, 0) == 0 && intent_score(l, table, 1) == 1 && intent_score(l, table, 2) == 0 && intent_score(l, table, 3) == 0 && intent_score(l, table, 4) == 0 && intent_score(l, table, 5) == 0 && intent_score(l, table, 6) == 0);
    let k = choose|k: int| best_entry(l, table, k) && r.intent == table[k].0 && r.intent_score == intent_score(l, table, k);
    if k == 0 {} else if k == 1 {} else if k == 2 {} else if k == 3 {} else if k == 4 {} else if k == 5 {} else {}
}

/// "what" alone: Question, with 1 hit.
proof fn lemma_alone_18(t: Seq<char>, r: NluResult)
    requires
        understood(r, t, intent_table(), positive_lexicon(), negative_lexicon()),
        lowercase(t) == "what"@,
    ensures
        r.intent == Intent::Question,
        r.intent_score == 1,
{
    reveal(intent_table);
    reveal_with_fuel(hits_upto, 13);
    reveal_strlit("你好"); reveal_strlit("hello"); reveal_strlit("hi"); reveal_strlit("嗨"); reveal_strlit("您好");
    reveal_strlit("早上好"); reveal_strlit("下午好"); reveal_strlit("晚上好"); reveal_strlit("什么");
    reveal_strlit("怎么"); reveal_strlit("为什么"); reveal_strlit("如何"); reveal_strlit("哪"); reveal_strlit("谁");
    reveal_strlit("?"); reveal_strlit("？"); reveal_strlit("why"); reveal_strlit("how"); reveal_strlit("what");
    reveal_strlit("which"); reveal_strlit("做"); reveal_strlit("运行"); reveal_strlit("执行"); reveal_strlit("开始");
    reveal_strlit("停止"); reveal_strlit("请"); reveal_strlit("帮我"); reveal_strlit("do"); reveal_strlit("run");
    reveal_strlit("start"); reveal_strlit("stop"); reveal_strlit("please"); reveal_strlit("谢谢");
    reveal_strlit("感谢"); reveal_strlit("多谢"); reveal_strlit("thanks"); reveal_strlit("thank you");
    reveal_strlit("对不起"); reveal_strlit("抱歉"); reveal_strlit("不好意思"); reveal_strlit("sorry");
    reveal_strlit("apologize"); reveal_strlit("我是"); reveal_strlit("我叫"); reveal_strlit("我呢");
    reveal_strlit("my name is"); reveal_strlit("i am"); reveal_strlit("现在"); reveal_strlit("几点");
    reveal_strlit("今天"); reveal_strlit("星期"); reveal_strlit("日期"); reveal_strlit("now");
    reveal_strlit("time"); reveal_strlit("today"); reveal_strlit("date");
    let l = "what"@;
    assert forall|i: int| 0 <= i < l.len() implies l[i] == 'a' || l[i] == 'h' || l[i] == 't' || l[i] == 'w' by {
        if i == 0 {} else if i == 1 {} else if i == 2 {} else if i == 3 {}
    }
    lemma_word_absent(l, "你好"@, 0); lemma_word_too_long(l, "hello"@); lemma_word_absent(l, "hi"@, 1);
    lemma_word_absent(l, "嗨"@, 0); lemma_word_absent(l, "您好"@, 0); lemma_word_absent(l, "早上好"@, 0);
    lemma_word_absent(l, "下午好"@, 0); lemma_word_absent(l, "晚上好"@, 0); lemma_word_absent(l, "什么"@, 0);
    lemma_word_absent(l, "怎么"@, 0); lemma_word_absent(l, "为什么"@, 0); lemma_word_absent(l, "如何"@, 0);
    lemma_word_absent(l, "哪"@, 0); lemma_word_absent(l, "谁"@, 0); lemma_word_absent(l, "?"@, 0);
    lemma_word_absent(l, "？"@, 0); lemma_word_absent(l, "why"@, 2); lemma_word_absent(l, "how"@, 1);
    lemma_word_at(l, "what"@, 0); lemma_word_too_long(l, "which"@); lemma_word_absent(l, "做"@, 0);
    lemma_word_absent(l, "运行"@, 0); lemma_word_absent(l, "执行"@, 0); lemma_word_absent(l, "开始"@, 0);
    lemma_word_absent(l, "停止"@, 0); lemma_word_absent(l, "请"@, 0); lemma_word_absent(l, "帮我"@, 0);
    lemma_word_absent(l, "do"@, 0); lemma_word_absent(l, "run"@, 0); lemma_word_too_long(l, "start"@);
    lemma_word_absent(l, "stop"@, 0); lemma_word_too_long(l, "please"@); lemma_word_absent(l, "谢谢"@, 0);
    lemma_word_absent(l, "感谢"@, 0); lemma_word_absent(l, "多谢"@, 0); lemma_word_too_long(l, "thanks"@);
    lemma_word_too_long(l, "thank you"@); lemma_word_absent(l, "对不起"@, 0); lemma_word_absent(l, "抱歉"@, 0);
    lemma_word_absent(l, "不好意思"@, 0); lemma_word_too_long(l, "sorry"@); lemma_word_too_long(l, "apologize"@);
    lemma_word_absent(l, "我是"@, 0); lemma_word_absent(l, "我叫"@, 0); lemma_word_absent(l, "我呢"@, 0);
    lemma_word_too_long(l, "my name is"@); lemma_word_absent(l, "i am"@, 0); lemma_word_absent(l, "现在"@, 0);
    lemma_word_absent(l, "几点"@, 0); lemma_word_absent(l, "今天"@, 0); lemma_word_absent(l, "星期"@, 0);
    lemma_word_absent(l, "日期"@, 0); lemma_word_absent(l, "now"@, 0); lemma_word_absent(l, "time"@, 1);
    lemma_word_too_long(l, "today"@); lemma_word_absent(l, "date"@, 0);
    let table = intent_table();
    lemma_scores(l);
    assert(intent_score(l, table, 0) == 0 && intent_score(l, table, 1) == 1 && intent_score(l, table, 2) == 0 && intent_score(l, table, 3) == 0 && intent_score(l, table, 4) == 0 && intent_score(l, table, 5) == 0 && intent_score(l, table, 6) == 0);
    let k = choose|k: int| best_entry(l, table, k) && r.intent == table[k].0 && r.intent_score == intent_score(l, table, k);
    if k == 0 {} else if k == 1 {} else if k == 2 {} else if k == 3 {} else if k == 4 {} else if k == 5 {} else {}
}

/// "which" alone: Greeting, with 1 hit.
proof fn lemma_alone_19(t: Seq<char>, r: NluResult)
    requires
        understood(r, t, intent_table(), positive_lexicon(), negative_lexicon()),
        lowercase(t) == "which"@,
    ensures
        r.intent == Intent::Greeting,
        r.intent_score == 1,
{
    reveal(intent_table);
    reveal_with_fuel(hits_upto, 13);
    reveal_strlit("你好"); reveal_strlit("hello"); reveal_strlit("hi"); reveal_strlit("嗨"); reveal_strlit("您好");
    reveal_strlit("早上好"); reveal_strlit("下午好"); reveal_strlit("晚上好"); reveal_strlit("什么");
    reveal_strlit("怎么"); reveal_strlit("为什么"); reveal_strlit("如何"); reveal_strlit("哪"); reveal_strlit("谁");
    reveal_strlit("?"); reveal_strlit("？"); reveal_strlit("why"); reveal_strlit("how"); reveal_strlit("what");
    reveal_strlit("which"); reveal_strlit("做"); reveal_strlit("运行"); reveal_strlit("执行"); reveal_strlit("开始");
    reveal_strlit("停止"); reveal_strlit("请"); reveal_strlit("帮我"); reveal_strlit("do"); reveal_strlit("run");
    reveal_strlit("start"); reveal_strlit("stop"); reveal_strlit("please"); reveal_strlit("谢谢");
    reveal_strlit("感谢"); reveal_strlit("多谢"); reveal_strlit("thanks"); reveal_strlit("thank you");
    reveal_strlit("对不起"); reveal_strlit("抱歉"); reveal_strlit("不好意思"); reveal_strlit("sorry");
    reveal_strlit("apologize"); reveal_strlit("我是"); reveal_strlit("我叫"); reveal_strlit("我呢");
    reveal_strlit("my name is"); reveal_strlit("i am"); reveal_strlit("现在"); reveal_strlit("几点");
    reveal_strlit("今天"); reveal_strlit("星期"); reveal_strlit("日期"); reveal_strlit("now");
    reveal_strlit("time"); reveal_strlit("today"); reveal_strlit("date");
    let l = "which"@;
    assert forall|i: int| 0 <= i < l.len() implies l[i] == 'c' || l[i] == 'h' || l[i] == 'i' || l[i] == 'w' by {
        if i == 0 {} else if i == 1 {} else if i == 2 {} else if i == 3 {} else if i == 4 {}
    }
    lemma_word_absent(l, "你好"@, 0); lemma_word_absent(l, "hello"@, 1); lemma_word_at(l, "hi"@, 1);
    lemma_word_absent(l, "嗨"@, 0); lemma_word_absent(l, "您好"@, 0); lemma_word_absent(l, "早上好"@, 0);
    lemma_word_absent(l, "下午好"@, 0); lemma_word_absent(l, "晚上好"@, 0); lemma_word_absent(l, "什么"@, 0);
    lemma_word_absent(l, "怎么"@, 0); lemma_word_absent(l, "为什么"@, 0); lemma_word_absent(l, "如何"@, 0);
    lemma_word_absent(l, "哪"@, 0); lemma_word_absent(l, "谁"@, 0); lemma_word_absent(l, "?"@, 0);
    lemma_word_absent(l, "？"@, 0); lemma_word_absent(l, "why"@, 2); lemma_word_absent(l, "how"@, 1);
    lemma_word_absent(l, "what"@, 2); lemma_word_at(l, "which"@, 0); lemma_word_absent(l, "做"@, 0);
    lemma_word_absent(l, "运行"@, 0); lemma_word_absent(l, "执行"@, 0); lemma_word_absent(l, "开始"@, 0);
    lemma_word_absent(l, "停止"@, 0); lemma_word_absent(l, "请"@, 0); lemma_word_absent(l, "帮我"@, 0);
    lemma_word_absent(l, "do"@, 0); lemma_word_absent(l, "run"@, 0); lemma_word_absent(l, "start"@, 0);
    lemma_word_absent(l, "stop"@, 0); lemma_word_too_long(l, "please"@); lemma_word_absent(l, "谢谢"@, 0);
    lemma_word_absent(l, "感谢"@, 0); lemma_word_absent(l, "多谢"@, 0); lemma_word_too_long(l, "thanks"@);
    lemma_word_too_long(l, "thank you"@); lemma_word_absent(l, "对不起"@, 0); lemma_word_absent(l, "抱歉"@, 0);
    lemma_word_absent(l, "不好意思"@, 0); lemma_word_absent(l, "sorry"@, 0); lemma_word_too_long(l, "apologize"@);
    lemma_word_absent(l, "我是"@, 0); lemma_word_absent(l, "我叫"@, 0); lemma_word_absent(l, "我呢"@, 0);
    lemma_word_too_long(l, "my name is"@); lemma_word_absent(l, "i am"@, 1); lemma_word_absent(l, "现在"@, 0);
    lemma_word_absent(l, "几点"@, 0); lemma_word_absent(l, "今天"@, 0); lemma_word_absent(l, "星期"@, 0);
    lemma_word_absent(l, "日期"@, 0); lemma_word_absent(l, "now"@, 0); lemma_word_absent(l, "time"@, 0);
    lemma_word_absent(l, "today"@, 0); lemma_word_absent(l, "date"@, 0);
    let table = intent_table();
    lemma_scores(l);
    assert(intent_score(l, table, 0) == 1 && intent_score(l, table, 1) == 1 && intent_score(l, table, 2) == 0 && intent_score(l, table, 3) == 0 && intent_score(l, table, 4) == 0 && intent_score(l, table, 5) == 0 && intent_score(l, table, 6) == 0);
    let k = choose|k: int| best_entry(l, table, k) && r.intent == table[k].0 && r.intent_score == intent_score(l, table, k);
    if k == 0 {} else if k == 1 {} else if k == 2 {} else if k == 3 {} else if k == 4 {} else if k == 5 {} else {}
}

/// "做" alone: Command, with 1 hit.
proof fn lemma_alone_20(t: Seq<char>, r: NluResult)
    requires
        understood(r, t, intent_table(), positive_lexicon(), negative_lexicon()),
        lowercase(t) == "做"@,
    ensures
        r.intent == Intent::Command,
        r.intent_score == 1,
{
    reveal(intent_table);
    reveal_with_fuel(hits_upto, 13);
    reveal_strlit("你好"); reveal_strlit("hello"); reveal_strlit("hi"); reveal_strlit("嗨"); reveal_strlit("您好");
    reveal_strlit("早上好"); reveal_strlit("下午好"); reveal_strlit("晚上好"); reveal_strlit("什么");
    reveal_strlit("怎么"); reveal_strlit("为什么"); reveal_strlit("如何"); reveal_strlit("哪"); reveal_strlit("谁");
    reveal_strlit("?"); reveal_strlit("？"); reveal_strlit("why"); reveal_strlit("how"); reveal_strlit("what");
    reveal_strlit("which"); reveal_strlit("做"); reveal_strlit("运行"); reveal_strlit("执行"); reveal_strlit("开始");
    reveal_strlit("停止"); reveal_strlit("请"); reveal_strlit("帮我"); reveal_strlit("do"); reveal_strlit("run");
    reveal_strlit("start"); reveal_strlit("stop"); reveal_strlit("please"); reveal_strlit("谢谢");
    reveal_strlit("感谢"); reveal_strlit("多谢"); reveal_strlit("thanks"); reveal_strlit("thank you");
    reveal_strlit("对不起"); reveal_strlit("抱歉"); reveal_strlit("不好意思"); reveal_strlit("sorry");
    reveal_strlit("apologize"); reveal_strlit("我是"); reveal_strlit("我叫"); reveal_strlit("我呢");
    reveal_strlit("my name is"); reveal_strlit("i am"); reveal_strlit("现在"); reveal_strlit("几点");
    reveal_strlit("今天"); reveal_strlit("星期"); reveal_strlit("日期"); reveal_strlit("now");
    reveal_strlit("time"); reveal_strlit("today"); reveal_strlit("date");
    let l = "做"@;
    assert forall|i: int| 0 <= i < l.len() implies l[i] == '做' by {
        if i == 0 {}
    }
    lemma_word_too_long(l, "你好"@); lemma_word_too_long(l, "hello"@); lemma_word_too_long(l, "hi"@);
    lemma_word_absent(l, "嗨"@, 0); lemma_word_too_long(l, "您好"@); lemma_word_too_long(l, "早上好"@);
    lemma_word_too_long(l, "下午好"@); lemma_word_too_long(l, "晚上好"@); lemma_word_too_long(l, "什么"@);
    lemma_word_too_long(l, "怎么"@); lemma_word_too_long(l, "为什么"@); lemma_word_too_long(l, "如何"@);
    lemma_word_absent(l, "哪"@, 0); lemma_word_absent(l, "谁"@, 0); lemma_word_absent(l, "?"@, 0);
    lemma_word_absent(l, "？"@, 0); lemma_word_too_long(l, "why"@); lemma_word_too_long(l, "how"@);
    lemma_word_too_long(l, "what"@); lemma_word_too_long(l, "which"@); lemma_word_at(l, "做"@, 0);
    lemma_word_too_long(l, "运行"@); lemma_word_too_long(l, "执行"@); lemma_word_too_long(l, "开始"@);
    lemma_word_too_long(l, "停止"@); lemma_word_absent(l, "请"@, 0); lemma_word_too_long(l, "帮我"@);
    lemma_word_too_long(l, "do"@); lemma_word_too_long(l, "run"@); lemma_word_too_long(l, "start"@);
    lemma_word_too_long(l, "stop"@); lemma_word_too_long(l, "please"@); lemma_word_too_long(l, "谢谢"@);
    lemma_word_too_long(l, "感谢"@); lemma_word_too_long(l, "多谢"@); lemma_word_too_long(l, "thanks"@);
    lemma_word_too_long(l, "thank you"@); lemma_word_too_long(l, "对不起"@); lemma_word_too_long(l, "抱歉"@);
    lemma_word_too_long(l, "不好意思"@); lemma_word_too_long(l, "sorry"@); lemma_word_too_long(l, "apologize"@);
    lemma_word_too_long(l, "我是"@); lemma_word_too_long(l, "我叫"@); lemma_word_too_long(l, "我呢"@);
    lemma_word_too_long(l, "my name is"@); lemma_word_too_long(l, "i am"@); lemma_word_too_long(l, "现在"@);
    lemma_word_too_long(l, "几点"@); lemma_word_too_long(l, "今天"@); lemma_word_too_long(l, "星期"@);
    lemma_word_too_long(l, "日期"@); lemma_word_too_long(l, "now"@); lemma_word_too_long(l, "time"@);
    lemma_word_too_long(l, "today"@); lemma_word_too_long(l, "date"@);
    let table = intent_table();
    lemma_scores(l);
    assert(intent_score(l, table, 0) == 0 && intent_score(l, table, 1) == 0 && intent_score(l, table, 2) == 1 && intent_score(l, table, 3) == 0 && intent_score(l, table, 4) == 0 && intent_score(l, table, 5) == 0 && intent_score(l, table, 6) == 0);
    let k = choose|k: int| best_entry(l, table, k) && r.intent == table[k].0 && r.intent_score == intent_score(l, table, k);
    if k == 0 {} else if k == 1 {} else if k == 2 {} else if k == 3 {} else if k == 4 {} else if k == 5 {} else {}
}

/// "运行" alone: Command, with 1 hit.
proof fn lemma_alone_21(t: Seq<char>, r: NluResult)
    requires
        understood(r, t, intent_table(), positive_lexicon(), negative_lexicon()),
        lowercase(t) == "运行"@,
    ensures
        r.intent == Intent::Command,
        r.intent_score == 1,
{
    reveal(intent_table);
    reveal_with_fuel(hits_upto, 13);
    reveal_strlit("你好"); reveal_strlit("hello"); reveal_strlit("hi"); reveal_strlit("嗨"); reveal_strlit("您好");
    reveal_strlit("早上好"); reveal_strlit("下午好"); reveal_strlit("晚上好"); reveal_strlit("什么");
    reveal_strlit("怎么"); reveal_strlit("为什么"); reveal_strlit("如何"); reveal_strlit("哪"); reveal_strlit("谁");
    reveal_strlit("?"); reveal_strlit("？"); reveal_strlit("why"); reveal_strlit("how"); reveal_strlit("what");
    reveal_strlit("which"); reveal_strlit("做"); reveal_strlit("运行"); reveal_strlit("执行"); reveal_strlit("开始");
    reveal_strlit("停止"); reveal_strlit("请"); reveal_strlit("帮我"); reveal_strlit("do"); reveal_strlit("run");
    reveal_strlit("start"); reveal_strlit("stop"); reveal_strlit("please"); reveal_strlit("谢谢");
    reveal_strlit("感谢"); reveal_strlit("多谢"); reveal_strlit("thanks"); reveal_strlit("thank you");
    reveal_strlit("对不起"); reveal_strlit("抱歉"); reveal_strlit("不好意思"); reveal_strlit("sorry");
    reveal_strlit("apologize"); reveal_strlit("我是"); reveal_strlit("我叫"); reveal_strlit("我呢");
    reveal_strlit("my name is"); reveal_strlit("i am"); reveal_strlit("现在"); reveal_strlit("几点");
    reveal_strlit("今天"); reveal_strlit("星期"); reveal_strlit("日期"); reveal_strlit("now");
    reveal_strlit("time"); reveal_strlit("today"); reveal_strlit("date");
    let l = "运行"@;
    assert forall|i: int| 0 <= i < l.len() implies l[i] == '行' || l[i] == '运' by {
        if i == 0 {} else if i == 1 {}
    }
    lemma_word_absent(l, "你好"@, 0); lemma_word_too_long(l, "hello"@); lemma_word_absent(l, "hi"@, 0);
    lemma_word_absent(l, "嗨"@, 0); lemma_word_absent(l, "您好"@, 0); lemma_word_too_long(l, "早上好"@);
    lemma_word_too_long(l, "下午好"@); lemma_word_too_long(l, "晚上好"@); lemma_word_absent(l, "什么"@, 0);
    lemma_word_absent(l, "怎么"@, 0); lemma_word_too_long(l, "为什么"@); lemma_word_absent(l, "如何"@, 0);
    lemma_word_absent(l, "哪"@, 0); lemma_word_absent(l, "谁"@, 0); lemma_word_absent(l, "?"@, 0);
    lemma_word_absent(l, "？"@, 0); lemma_word_too_long(l, "why"@); lemma_word_too_long(l, "how"@);
    lemma_word_too_long(l, "what"@); lemma_word_too_long(l, "which"@); lemma_word_absent(l, "做"@, 0);
    lemma_word_at(l, "运行"@, 0); lemma_word_absent(l, "执行"@, 0); lemma_word_absent(l, "开始"@, 0);
    lemma_word_absent(l, "停止"@, 0); lemma_word_absent(l, "请"@, 0); lemma_word_absent(l, "帮我"@, 0);
    lemma_word_absent(l, "do"@, 0); lemma_word_too_long(l, "run"@); lemma_word_too_long(l, "start"@);
    lemma_word_too_long(l, "stop"@); lemma_word_too_long(l, "please"@); lemma_word_absent(l, "谢谢"@, 0);
    lemma_word_absent(l, "感谢"@, 0); lemma_word_absent(l, "多谢"@, 0); lemma_word_too_long(l, "thanks"@);
    lemma_word_too_long(l, "thank you"@); lemma_word_too_long(l, "对不起"@); lemma_word_absent(l, "抱歉"@, 0);
    lemma_word_too_long(l, "不好意思"@); lemma_word_too_long(l, "sorry"@); lemma_word_too_long(l, "apologize"@);
    lemma_word_absent(l, "我是"@, 0); lemma_word_absent(l, "我叫"@, 0); lemma_word_absent(l, "我呢"@, 0);
    lemma_word_too_long(l, "my name is"@); lemma_word_too_long(l, "i am"@); lemma_word_absent(l, "现在"@, 0);
    lemma_word_absent(l, "几点"@, 0); lemma_word_absent(l, "今天"@, 0); lemma_word_absent(l, "星期"@, 0);
    lemma_word_absent(l, "日期"@, 0); lemma_word_too_long(l, "now"@); lemma_word_too_long(l, "time"@);
    lemma_word_too_long(l, "today"@); lemma_word_too_long(l, "date"@);
    let table = intent_table();
    lemma_scores(l);
    assert(intent_score(l, table, 0) == 0 && intent_score(l, table, 1) == 0 && intent_score(l, table, 2) == 1 && intent_score(l, table, 3) == 0 && intent_score(l, table, 4) == 0 && intent_score(l, table, 5) == 0 && intent_score(l, table, 6) == 0);
    let k = choose|k: int| best_entry(l, table, k) && r.intent == table[k].0 && r.intent_score == intent_score(l, table, k);
    if k == 0 {} else if k == 1 {} else if k == 2 {} else if k == 3 {} else if k == 4 {} else if k == 5 {} else {}
}

/// "执行" alone: Command, with 1 hit.
proof fn lemma_alone_22(t: Seq<char>, r: NluResult)
    requires
        understood(r, t, intent_table(), positive_lexicon(), negative_lexicon()),
        lowercase(t) == "执行"@,
    ensures
        r.intent == Intent::Command,
        r.intent_score == 1,
{
    reveal(intent_table);
    reveal_with_fuel(hits_upto, 13);
    reveal_strlit("你好"); reveal_strlit("hello"); reveal_strlit("hi"); reveal_strlit("嗨"); reveal_strlit("您好");
    reveal_strlit("早上好"); reveal_strlit("下午好"); reveal_strlit("晚上好"); reveal_strlit("什么");
    reveal_strlit("怎么"); reveal_strlit("为什么"); reveal_strlit("如何"); reveal_strlit("哪"); reveal_strlit("谁");
    reveal_strlit("?"); reveal_strlit("？"); reveal_strlit("why"); reveal_strlit("how"); reveal_strlit("what");
    reveal_strlit("which"); reveal_strlit("做"); reveal_strlit("运行"); reveal_strlit("执行"); reveal_strlit("开始");
    reveal_strlit("停止"); reveal_strlit("请"); reveal_strlit("帮我"); reveal_strlit("do"); reveal_strlit("run");
    reveal_strlit("start"); reveal_strlit("stop"); reveal_strlit("please"); reveal_strlit("谢谢");
    reveal_strlit("感谢"); reveal_strlit("多谢"); reveal_strlit("thanks"); reveal_strlit("thank you");
    reveal_strlit("对不起"); reveal_strlit("抱歉"); reveal_strlit("不好意思"); reveal_strlit("sorry");
    reveal_strlit("apologize"); reveal_strlit("我是"); reveal_strlit("我叫"); reveal_strlit("我呢");
    reveal_strlit("my name is"); reveal_strlit("i am"); reveal_strlit("现在"); reveal_strlit("几点");
    reveal_strlit("今天"); reveal_strlit("星期"); reveal_strlit("日期"); reveal_strlit("now");
    reveal_strlit("time"); reveal_strlit("today"); reveal_strlit("date");
    let l = "执行"@;
    assert forall|i: int| 0 <= i < l.len() implies l[i] == '执' || l[i] == '行' by {
        if i == 0 {} else if i == 1 {}
    }
    lemma_word_absent(l, "你好"@, 0); lemma_word_too_long(l, "hello"@); lemma_word_absent(l, "hi"@, 0);
    lemma_word_absent(l, "嗨"@, 0); lemma_word_absent(l, "您好"@, 0); lemma_word_too_long(l, "早上好"@);
    lemma_word_too_long(l, "下午好"@); lemma_word_too_long(l, "晚上好"@); lemma_word_absent(l, "什么"@, 0);
    lemma_word_absent(l, "怎么"@, 0); lemma_word_too_long(l, "为什么"@); lemma_word_absent(l, "如何"@, 0);
    lemma_word_absent(l, "哪"@, 0); lemma_word_absent(l, "谁"@, 0); lemma_word_absent(l, "?"@, 0);
    lemma_word_absent(l, "？"@, 0); lemma_word_too_long(l, "why"@); lemma_word_too_long(l, "how"@);
    lemma_word_too_long(l, "what"@); lemma_word_too_long(l, "which"@); lemma_word_absent(l, "做"@, 0);
    lemma_word_absent(l, "运行"@, 0); lemma_word_at(l, "执行"@, 0); lemma_word_absent(l, "开始"@, 0);
    lemma_word_absent(l, "停止"@, 0); lemma_word_absent(l, "请"@, 0); lemma_word_absent(l, "帮我"@, 0);
    lemma_word_absent(l, "do"@, 0); lemma_word_too_long(l, "run"@); lemma_word_too_long(l, "start"@);
    lemma_word_too_long(l, "stop"@); lemma_word_too_long(l, "please"@); lemma_word_absent(l, "谢谢"@, 0);
    lemma_word_absent(l, "感谢"@, 0); lemma_word_absent(l, "多谢"@, 0); lemma_word_too_long(l, "thanks"@);
    lemma_word_too_long(l, "thank you"@); lemma_word_too_long(l, "对不起"@); lemma_word_absent(l, "抱歉"@, 0);
    lemma_word_too_long(l, "不好意思"@); lemma_word_too_long(l, "sorry"@); lemma_word_too_long(l, "apologize"@);
    lemma_word_absent(l, "我是"@, 0); lemma_word_absent(l, "我叫"@, 0); lemma_word_absent(l, "我呢"@, 0);
    lemma_word_too_long(l, "my name is"@); lemma_word_too_long(l, "i am"@); lemma_word_absent(l, "现在"@, 0);
    lemma_word_absent(l, "几点"@, 0); lemma_word_absent(l, "今天"@, 0); lemma_word_absent(l, "星期"@, 0);
    lemma_word_absent(l, "日期"@, 0); lemma_word_too_long(l, "now"@); lemma_word_too_long(l, "time"@);
    lemma_word_too_long(l, "today"@); lemma_word_too_long(l, "date"@);
    let table = intent_table();
    lemma_scores(l);
    assert(intent_score(l, table, 0) == 0 && intent_score(l, table, 1) == 0 && intent_score(l, table, 2) == 1 && intent_score(l, table, 3) == 0 && intent_score(l, table, 4) == 0 && intent_score(l, table, 5) == 0 && intent_score(l, table, 6) == 0);
    let k = choose|k: int| best_entry(l, table, k) && r.intent == table[k].0 && r.intent_score == intent_score(l, table, k);
    if k == 0 {} else if k == 1 {} else if k == 2 {} else if k == 3 {} else if k == 4 {} else if k == 5 {} else {}
}

/// "开始" alone: Command, with 1 hit.
proof fn lemma_alone_23(t: Seq<char>, r: NluResult)
    requires
        understood(r, t, intent_table(), positive_lexicon(), negative_lexicon()),
        lowercase(t) == "开始"@,
    ensures
        r.intent == Intent::Command,
        r.intent_score == 1,
{
    reveal(intent_table);
    reveal_with_fuel(hits_upto, 13);
    reveal_strlit("你好"); reveal_strlit("hello"); reveal_strlit("hi"); reveal_strlit("嗨"); reveal_strlit("您好");
    reveal_strlit("早上好"); reveal_strlit("下午好"); reveal_strlit("晚上好"); reveal_strlit("什么");
    reveal_strlit("怎么"); reveal_strlit("为什么"); reveal_strlit("如何"); reveal_strlit("哪"); reveal_strlit("谁");
    reveal_strlit("?"); reveal_strlit("？"); reveal_strlit("why"); reveal_strlit("how"); reveal_strlit("what");
    reveal_strlit("which"); reveal_strlit("做"); reveal_strlit("运行"); reveal_strlit("执行"); reveal_strlit("开始");
    reveal_strlit("停止"); reveal_strlit("请"); reveal_strlit("帮我"); reveal_strlit("do"); reveal_strlit("run");
    reveal_strlit("start"); reveal_strlit("stop"); reveal_strlit("please"); reveal_strlit("谢谢");
    reveal_strlit("感谢"); reveal_strlit("多谢"); reveal_strlit("thanks"); reveal_strlit("thank you");
    reveal_strlit("对不起"); reveal_strlit("抱歉"); reveal_strlit("不好意思"); reveal_strlit("sorry");
    reveal_strlit("apologize"); reveal_strlit("我是"); reveal_strlit("我叫"); reveal_strlit("我呢");
    reveal_strlit("my name is"); reveal_strlit("i am"); reveal_strlit("现在"); reveal_strlit("几点");
    reveal_strlit("今天"); reveal_strlit("星期"); reveal_strlit("日期"); reveal_strlit("now");
    reveal_strlit("time"); reveal_strlit("today"); reveal_strlit("date");
    let l = "开始"@;
    assert forall|i: int| 0 <= i < l.len() implies l[i] == '始' || l[i] == '开' by {
        if i == 0 {} else if i == 1 {}
    }
    lemma_word_absent(l, "你好"@, 0); lemma_word_too_long(l, "hello"@); lemma_word_absent(l, "hi"@, 0);
    lemma_word_absent(l, "嗨"@, 0); lemma_word_absent(l, "您好"@, 0); lemma_word_too_long(l, "早上好"@);
    lemma_word_too_long(l, "下午好"@); lemma_word_too_long(l, "晚上好"@); lemma_word_absent(l, "什么"@, 0);
    lemma_word_absent(l, "怎么"@, 0); lemma_word_too_long(l, "为什么"@); lemma_word_absent(l, "如何"@, 0);
    lemma_word_absent(l, "哪"@, 0); lemma_word_absent(l, "谁"@, 0); lemma_word_absent(l, "?"@, 0);
    lemma_word_absent(l, "？"@, 0); lemma_word_too_long(l, "why"@); lemma_word_too_long(l, "how"@);
    lemma_word_too_long(l, "what"@); lemma_word_too_long(l, "which"@); lemma_word_absent(l, "做"@, 0);
    lemma_word_absent(l, "运行"@, 0); lemma_word_absent(l, "执行"@, 0); lemma_word_at(l, "开始"@, 0);
    lemma_word_absent(l, "停止"@, 0); lemma_word_absent(l, "请"@, 0); lemma_word_absent(l, "帮我"@, 0);
    lemma_word_absent(l, "do"@, 0); lemma_word_too_long(l, "run"@); lemma_word_too_long(l, "start"@);
    lemma_word_too_long(l, "stop"@); lemma_word_too_long(l, "please"@); lemma_word_absent(l, "谢谢"@, 0);
    lemma_word_absent(l, "感谢"@, 0); lemma_word_absent(l, "多谢"@, 0); lemma_word_too_long(l, "thanks"@);
    lemma_word_too_long(l, "thank you"@); lemma_word_too_long(l, "对不起"@); lemma_word_absent(l, "抱歉"@, 0);
    lemma_word_too_long(l, "不好意思"@); lemma_word_too_long(l, "sorry"@); lemma_word_too_long(l, "apologize"@);
    lemma_word_absent(l, "我是"@, 0); lemma_word_absent(l, "我叫"@, 0); lemma_word_absent(l, "我呢"@, 0);
    lemma_word_too_long(l, "my name is"@); lemma_word_too_long(l, "i am"@); lemma_word_absent(l, "现在"@, 0);
    lemma_word_absent(l, "几点"@, 0); lemma_word_absent(l, "今天"@, 0); lemma_word_absent(l, "星期"@, 0);
    lemma_word_absent(l, "日期"@, 0); lemma_word_too_long(l, "now"@); lemma_word_too_long(l, "time"@);
    lemma_word_too_long(l, "today"@); lemma_word_too_long(l, "date"@);
    let table = intent_table();
    lemma_scores(l);
    assert(intent_score(l, table, 0) == 0 && intent_score(l, table, 1) == 0 && intent_score(l, table, 2) == 1 && intent_score(l, table, 3) == 0 && intent_score(l, table, 4) == 0 && intent_score(l, table, 5) == 0 && intent_score(l, table, 6) == 0);
    let k = choose|k: int| best_entry(l, table, k) && r.intent == table[k].0 && r.intent_score == intent_score(l, table, k);
    if k == 0 {} else if k == 1 {} else if k == 2 {} else if k == 3 {} else if k == 4 {} else if k == 5 {} else {}
}

/// "停止" alone: Command, with 1 hit.
proof fn lemma_alone_24(t: Seq<char>, r: NluResult)
    requires
        understood(r, t, intent_table(), positive_lexicon(), negative_lexicon()),
        lowercase(t) == "停止"@,
    ensures
        r.intent == Intent::Command,
        r.intent_score == 1,
{
    reveal(intent_table);
    reveal_with_fuel(hits_upto, 13);
    reveal_strlit("你好"); reveal_strlit("hello"); reveal_strlit("hi"); reveal_strlit("嗨"); reveal_strlit("您好");
    reveal_strlit("早上好"); reveal_strlit("下午好"); reveal_strlit("晚上好"); reveal_strlit("什么");
    reveal_strlit("怎么"); reveal_strlit("为什么"); reveal_strlit("如何"); reveal_strlit("哪"); reveal_strlit("谁");
    reveal_strlit("?"); reveal_strlit("？"); reveal_strlit("why"); reveal_strlit("how"); reveal_strlit("what");
    reveal_strlit("which"); reveal_strlit("做"); reveal_strlit("运行"); reveal_strlit("执行"); reveal_strlit("开始");
    reveal_strlit("停止"); reveal_strlit("请"); reveal_strlit("帮我"); reveal_strlit("do"); reveal_strlit("run");
    reveal_strlit("start"); reveal_strlit("stop"); reveal_strlit("please"); reveal_strlit("谢谢");
    reveal_strlit("感谢"); reveal_strlit("多谢"); reveal_strlit("thanks"); reveal_strlit("thank you");
    reveal_strlit("对不起"); reveal_strlit("抱歉"); reveal_strlit("不好意思"); reveal_strlit("sorry");
    reveal_strlit("apologize"); reveal_strlit("我是"); reveal_strlit("我叫"); reveal_strlit("我呢");
    reveal_strlit("my name is"); reveal_strlit("i am"); reveal_strlit("现在"); reveal_strlit("几点");
    reveal_strlit("今天"); reveal_strlit("星期"); reveal_strlit("日期"); reveal_strlit("now");
    reveal_strlit("time"); reveal_strlit("today"); reveal_strlit("date");
    let l = "停止"@;
    assert forall|i: int| 0 <= i < l.len() implies l[i] == '停' || l[i] == '止' by {
        if i == 0 {} else if i == 1 {}
    }
    lemma_word_absent(l, "你好"@, 0); lemma_word_too_long(l, "hello"@); lemma_word_absent(l, "hi"@, 0);
    lemma_word_absent(l, "嗨"@, 0); lemma_word_absent(l, "您好"@, 0); lemma_word_too_long(l, "早上好"@);
    lemma_word_too_long(l, "下午好"@); lemma_word_too_long(l, "晚上好"@); lemma_word_absent(l, "什么"@, 0);
    lemma_word_absent(l, "怎么"@, 0); lemma_word_too_long(l, "为什么"@); lemma_word_absent(l, "如何"@, 0);
    lemma_word_absent(l, "哪"@, 0); lemma_word_absent(l, "谁"@, 0); lemma_word_absent(l, "?"@, 0);
    lemma_word_absent(l, "？"@, 0); lemma_word_too_long(l, "why"@); lemma_word_too_long(l, "how"@);
    lemma_word_too_long(l, "what"@); lemma_word_too_long(l, "which"@); lemma_word_absent(l, "做"@, 0);
    lemma_word_absent(l, "运行"@, 0); lemma_word_absent(l, "执行"@, 0); lemma_word_absent(l, "开始"@, 0);
    lemma_word_at(l, "停止"@, 0); lemma_word_absent(l, "请"@, 0); lemma_word_absent(l, "帮我"@, 0);
    lemma_word_absent(l, "do"@, 0); lemma_word_too_long(l, "run"@); lemma_word_too_long(l, "start"@);
    lemma_word_too_long(l, "stop"@); lemma_word_too_long(l, "please"@); lemma_word_absent(l, "谢谢"@, 0);
    lemma_word_absent(l, "感谢"@, 0); lemma_word_absent(l, "多谢"@, 0); lemma_word_too_long(l, "thanks"@);
    lemma_word_too_long(l, "thank you"@); lemma_word_too_long(l, "对不起"@); lemma_word_absent(l, "抱歉"@, 0);
    lemma_word_too_long(l, "不好意思"@); lemma_word_too_long(l, "sorry"@); lemma_word_too_long(l, "apologize"@);
    lemma_word_absent(l, "我是"@, 0); lemma_word_absent(l, "我叫"@, 0); lemma_word_absent(l, "我呢"@, 0);
    lemma_word_too_long(l, "my name is"@); lemma_word_too_long(l, "i am"@); lemma_word_absent(l, "现在"@, 0);
    lemma_word_absent(l, "几点"@, 0); lemma_word_absent(l, "今天"@, 0); lemma_word_absent(l, "星期"@, 0);
    lemma_word_absent(l, "日期"@, 0); lemma_word_too_long(l, "now"@); lemma_word_too_long(l, "time"@);
    lemma_word_too_long(l, "today"@); lemma_word_too_long(l, "date"@);
    let table = intent_table();
    lemma_scores(l);
    assert(intent_score(l, table, 0) == 0 && intent_score(l, table, 1) == 0 && intent_score(l, table, 2) == 1 && intent_score(l, table, 3) == 0 && intent_score(l, table, 4) == 0 && intent_score(l, table, 5) == 0 && intent_score(l, table, 6) == 0);
    let k = choose|k: int| best_entry(l, table, k) && r.intent == table[k].0 && r.intent_score == intent_score(l, table, k);
    if k == 0 {} else if k == 1 {} else if k == 2 {} else if k == 3 {} else if k == 4 {} else if k == 5 {} else {}
}

/// "请" alone: Command, with 1 hit.
proof fn lemma_alone_25(t: Seq<char>, r: NluResult)
    requires
        understood(r, t, intent_table(), positive_lexicon(), negative_lexicon()),
        lowercase(t) == "请"@,
    ensures
        r.intent == Intent::Command,
        r.intent_score == 1,
{
    reveal(intent_table);
    reveal_with_fuel(hits_upto, 13);
    reveal_strlit("你好"); reveal_strlit("hello"); reveal_strlit("hi"); reveal_strlit("嗨"); reveal_strlit("您好");
    reveal_strlit("早上好"); reveal_strlit("下午好"); reveal_strlit("晚上好"); reveal_strlit("什么");
    reveal_strlit("怎么"); reveal_strlit("为什么"); reveal_strlit("如何"); reveal_strlit("哪"); reveal_strlit("谁");
    reveal_strlit("?"); reveal_strlit("？"); reveal_strlit("why"); reveal_strlit("how"); reveal_strlit("what");
    reveal_strlit("which"); reveal_strlit("做"); reveal_strlit("运行"); reveal_strlit("执行"); reveal_strlit("开始");
    reveal_strlit("停止"); reveal_strlit("请"); reveal_strlit("帮我"); reveal_strlit("do"); reveal_strlit("run");
    reveal_strlit("start"); reveal_strlit("stop"); reveal_strlit("please"); reveal_strlit("谢谢");
    reveal_strlit("感谢"); reveal_strlit("多谢"); reveal_strlit("thanks"); reveal_strlit("thank you");
    reveal_strlit("对不起"); reveal_strlit("抱歉"); reveal_strlit("不好意思"); reveal_strlit("sorry");
    reveal_strlit("apologize"); reveal_strlit("我是"); reveal_strlit("我叫"); reveal_strlit("我呢");
    reveal_strlit("my name is"); reveal_strlit("i am"); reveal_strlit("现在"); reveal_strlit("几点");
    reveal_strlit("今天"); reveal_strlit("星期"); reveal_strlit("日期"); reveal_strlit("now");
    reveal_strlit("time"); reveal_strlit("today"); reveal_strlit("date");
    let l = "请"@;
    assert forall|i: int| 0 <= i < l.len() implies l[i] == '请' by {
        if i == 0 {}
    }
    lemma_word_too_long(l, "你好"@); lemma_word_too_long(l, "hello"@); lemma_word_too_long(l, "hi"@);
    lemma_word_absent(l, "嗨"@, 0); lemma_word_too_long(l, "您好"@); lemma_word_too_long(l, "早上好"@);
    lemma_word_too_long(l, "下午好"@); lemma_word_too_long(l, "晚上好"@); lemma_word_too_long(l, "什么"@);
    lemma_word_too_long(l, "怎么"@); lemma_word_too_long(l, "为什么"@); lemma_word_too_long(l, "如何"@);
    lemma_word_absent(l, "哪"@, 0); lemma_word_absent(l, "谁"@, 0); lemma_word_absent(l, "?"@, 0);
    lemma_word_absent(l, "？"@, 0); lemma_word_too_long(l, "why"@); lemma_word_too_long(l, "how"@);
    lemma_word_too_long(l, "what"@); lemma_word_too_long(l, "which"@); lemma_word_absent(l, "做"@, 0);
    lemma_word_too_long(l, "运行"@); lemma_word_too_long(l, "执行"@); lemma_word_too_long(l, "开始"@);
    lemma_word_too_long(l, "停止"@); lemma_word_at(l, "请"@, 0); lemma_word_too_long(l, "帮我"@);
    lemma_word_too_long(l, "do"@); lemma_word_too_long(l, "run"@); lemma_word_too_long(l, "start"@);
    lemma_word_too_long(l, "stop"@); lemma_word_too_long(l, "please"@); lemma_word_too_long(l, "谢谢"@);
    lemma_word_too_long(l, "感谢"@); lemma_word_too_long(l, "多谢"@); lemma_word_too_long(l, "thanks"@);
    lemma_word_too_long(l, "thank you"@); lemma_word_too_long(l, "对不起"@); lemma_word_too_long(l, "抱歉"@);
    lemma_word_too_long(l, "不好意思"@); lemma_word_too_long(l, "sorry"@); lemma_word_too_long(l, "apologize"@);
    lemma_word_too_long(l, "我是"@); lemma_word_too_long(l, "我叫"@); lemma_word_too_long(l, "我呢"@);
    lemma_word_too_long(l, "my name is"@); lemma_word_too_long(l, "i am"@); lemma_word_too_long(l, "现在"@);
    lemma_word_too_long(l, "几点"@); lemma_word_too_long(l, "今天"@); lemma_word_too_long(l, "星期"@);
    lemma_word_too_long(l, "日期"@); lemma_word_too_long(l, "now"@); lemma_word_too_long(l, "time"@);
    lemma_word_too_long(l, "today"@); lemma_word_too_long(l, "date"@);
    let table = intent_table();
    lemma_scores(l);
    assert(intent_score(l, table, 0) == 0 && intent_score(l, table, 1) == 0 && intent_score(l, table, 2) == 1 && intent_score(l, table, 3) == 0 && intent_score(l, table, 4) == 0 && intent_score(l, table, 5) == 0 && intent_score(l, table, 6) == 0);
    let k = choose|k: int| best_entry(l, table, k) && r.intent == table[k].0 && r.intent_score == intent_score(l, table, k);
    if k == 0 {} else if k == 1 {} else if k == 2 {} else if k == 3 {} else if k == 4 {} else if k == 5 {} else {}
}

/// "帮我" alone: Command, with 1 hit.
proof fn lemma_alone_26(t: Seq<char>, r: NluResult)
    requires
        understood(r, t, intent_table(), positive_lexicon(), negative_lexicon()),
        lowercase(t) == "帮我"@,
    ensures
        r.intent == Intent::Command,
        r.intent_score == 1,
{
    reveal(intent_table);
    reveal_with_fuel(hits_upto, 13);
    reveal_strlit("你好"); reveal_strlit("hello"); reveal_strlit("hi"); reveal_strlit("嗨"); reveal_strlit("您好");
    reveal_strlit("早上好"); reveal_strlit("下午好"); reveal_strlit("晚上好"); reveal_strlit("什么");
    reveal_strlit("怎么"); reveal_strlit("为什么"); reveal_strlit("如何"); reveal_strlit("哪"); reveal_strlit("谁");
    reveal_strlit("?"); reveal_strlit("？"); reveal_strlit("why"); reveal_strlit("how"); reveal_strlit("what");
    reveal_strlit("which"); reveal_strlit("做"); reveal_strlit("运行"); reveal_strlit("执行"); reveal_strlit("开始");
    reveal_strlit("停止"); reveal_strlit("请"); reveal_strlit("帮我"); reveal_strlit("do"); reveal_strlit("run");
    reveal_strlit("start"); reveal_strlit("stop"); reveal_strlit("please"); reveal_strlit("谢谢");
    reveal_strlit("感谢"); reveal_strlit("多谢"); reveal_strlit("thanks"); reveal_strlit("thank you");
    reveal_strlit("对不起"); reveal_strlit("抱歉"); reveal_strlit("不好意思"); reveal_strlit("sorry");
    reveal_strlit("apologize"); reveal_strlit("我是"); reveal_strlit("我叫"); reveal_strlit("我呢");
    reveal_strlit("my name is"); reveal_strlit("i am"); reveal_strlit("现在"); reveal_strlit("几点");
    reveal_strlit("今天"); reveal_strlit("星期"); reveal_strlit("日期"); reveal_strlit("now");
    reveal_strlit("time"); reveal_strlit("today"); reveal_strlit("date");
    let l = "帮我"@;
    assert forall|i: int| 0 <= i < l.len() implies l[i] == '帮' || l[i] == '我' by {
        if i == 0 {} else if i == 1 {}
    }
    lemma_word_absent(l, "你好"@, 0); lemma_word_too_long(l, "hello"@); lemma_word_absent(l, "hi"@, 0);
    lemma_word_absent(l, "嗨"@, 0); lemma_word_absent(l, "您好"@, 0); lemma_word_too_long(l, "早上好"@);
    lemma_word_too_long(l, "下午好"@); lemma_word_too_long(l, "晚上好"@); lemma_word_absent(l, "什么"@, 0);
    lemma_word_absent(l, "怎么"@, 0); lemma_word_too_long(l, "为什么"@); lemma_word_absent(l, "如何"@, 0);
    lemma_word_absent(l, "哪"@, 0); lemma_word_absent(l, "谁"@, 0); lemma_word_absent(l, "?"@, 0);
    lemma_word_absent(l, "？"@, 0); lemma_word_too_long(l, "why"@); lemma_word_too_long(l, "how"@);
    lemma_word_too_long(l, "what"@); lemma_word_too_long(l, "which"@); lemma_word_absent(l, "做"@, 0);
    lemma_word_absent(l, "运行"@, 0); lemma_word_absent(l, "执行"@, 0); lemma_word_absent(l, "开始"@, 0);
    lemma_word_absent(l, "停止"@, 0); lemma_word_absent(l, "请"@, 0); lemma_word_at(l, "帮我"@, 0);
    lemma_word_absent(l, "do"@, 0); lemma_word_too_long(l, "run"@); lemma_word_too_long(l, "start"@);
    lemma_word_too_long(l, "stop"@); lemma_word_too_long(l, "please"@); lemma_word_absent(l, "谢谢"@, 0);
    lemma_word_absent(l, "感谢"@, 0); lemma_word_absent(l, "多谢"@, 0); lemma_word_too_long(l, "thanks"@);
    lemma_word_too_long(l, "thank you"@); lemma_word_too_long(l, "对不起"@); lemma_word_absent(l, "抱歉"@, 0);
    lemma_word_too_long(l, "不好意思"@); lemma_word_too_long(l, "sorry"@); lemma_word_too_long(l, "apologize"@);
    lemma_word_absent(l, "我是"@, 1); lemma_word_absent(l, "我叫"@, 1); lemma_word_absent(l, "我呢"@, 1);
    lemma_word_too_long(l, "my name is"@); lemma_word_too_long(l, "i am"@); lemma_word_absent(l, "现在"@, 0);
    lemma_word_absent(l, "几点"@, 0); lemma_word_absent(l, "今天"@, 0); lemma_word_absent(l, "星期"@, 0);
    lemma_word_absent(l, "日期"@, 0); lemma_word_too_long(l, "now"@); lemma_word_too_long(l, "time"@);
    lemma_word_too_long(l, "today"@); lemma_word_too_long(l, "date"@);
    let table = intent_table();
    lemma_scores(l);
    assert(intent_score(l, table, 0) == 0 && intent_score(l, table, 1) == 0 && intent_score(l, table, 2) == 1 && intent_score(l, table, 3) == 0 && intent_score(l, table, 4) == 0 && intent_score(l, table, 5) == 0 && intent_score(l, table, 6) == 0);
    let k = choose|k: int| best_entry(l, table, k) && r.intent == table[k].0 && r.intent_score == intent_score(l, table, k);
    if k == 0 {} else if k == 1 {} else if k == 2 {} else if k == 3 {} else if k == 4 {} else if k == 5 {} else {}
}

/// "do" alone: Command, with 1 hit.
proof fn lemma_alone_27(t: Seq<char>, r: NluResult)
    requires
        understood(r, t, intent_table(), positive_lexicon(), negative_lexicon()),
        lowercase(t) == "do"@,
    ensures
        r.intent == Intent::Command,
        r.intent_score == 1,
{
    reveal(intent_table);
    reveal_with_fuel(hits_upto, 13);
    reveal_strlit("你好"); reveal_strlit("hello"); reveal_strlit("hi"); reveal_strlit("嗨"); reveal_strlit("您好");
    reveal_strlit("早上好"); reveal_strlit("下午好"); reveal_strlit("晚上好"); reveal_strlit("什么");
    reveal_strlit("怎么"); reveal_strlit("为什么"); reveal_strlit("如何"); reveal_strlit("哪"); reveal_strlit("谁");
    reveal_strlit("?"); reveal_strlit("？"); reveal_strlit("why"); reveal_strlit("how"); reveal_strlit("what");
    reveal_strlit("which"); reveal_strlit("做"); reveal_strlit("运行"); reveal_strlit("执行"); reveal_strlit("开始");
    reveal_strlit("停止"); reveal_strlit("请"); reveal_strlit("帮我"); reveal_strlit("do"); reveal_strlit("run");
    reveal_strlit("start"); reveal_strlit("stop"); reveal_strlit("please"); reveal_strlit("谢谢");
    reveal_strlit("感谢"); reveal_strlit("多谢"); reveal_strlit("thanks"); reveal_strlit("thank you");
    reveal_strlit("对不起"); reveal_strlit("抱歉"); reveal_strlit("不好意思"); reveal_strlit("sorry");
    reveal_strlit("apologize"); reveal_strlit("我是"); reveal_strlit("我叫"); reveal_strlit("我呢");
    reveal_strlit("my name is"); reveal_strlit("i am"); reveal_strlit("现在"); reveal_strlit("几点");
    reveal_strlit("今天"); reveal_strlit("星期"); reveal_strlit("日期"); reveal_strlit("now");
    reveal_strlit("time"); reveal_strlit("today"); reveal_strlit("date");
    let l = "do"@;
    assert forall|i: int| 0 <= i < l.len() implies l[i] == 'd' || l[i] == 'o' by {
        if i == 0 {} else if i == 1 {}
    }
    lemma_word_absent(l, "你好"@, 0); lemma_word_too_long(l, "hello"@); lemma_word_absent(l, "hi"@, 0);
    lemma_word_absent(l, "嗨"@, 0); lemma_word_absent(l, "您好"@, 0); lemma_word_too_long(l, "早上好"@);
    lemma_word_too_long(l, "下午好"@); lemma_word_too_long(l, "晚上好"@); lemma_word_absent(l, "什么"@, 0);
    lemma_word_absent(l, "怎么"@, 0); lemma_word_too_long(l, "为什么"@); lemma_word_absent(l, "如何"@, 0);
    lemma_word_absent(l, "哪"@, 0); lemma_word_absent(l, "谁"@, 0); lemma_word_absent(l, "?"@, 0);
    lemma_word_absent(l, "？"@, 0); lemma_word_too_long(l, "why"@); lemma_word_too_long(l, "how"@);
    lemma_word_too_long(l, "what"@); lemma_word_too_long(l, "which"@); lemma_word_absent(l, "做"@, 0);
    lemma_word_absent(l, "运行"@, 0); lemma_word_absent(l, "执行"@, 0); lemma_word_absent(l, "开始"@, 0);
    lemma_word_absent(l, "停止"@, 0); lemma_word_absent(l, "请"@, 0); lemma_word_absent(l, "帮我"@, 0);
    lemma_word_at(l, "do"@, 0); lemma_word_too_long(l, "run"@); lemma_word_too_long(l, "start"@);
    lemma_word_too_long(l, "stop"@); lemma_word_too_long(l, "please"@); lemma_word_absent(l, "谢谢"@, 0);
    lemma_word_absent(l, "感谢"@, 0); lemma_word_absent(l, "多谢"@, 0); lemma_word_too_long(l, "thanks"@);
    lemma_word_too_long(l, "thank you"@); lemma_word_too_long(l, "对不起"@); lemma_word_absent(l, "抱歉"@, 0);
    lemma_word_too_long(l, "不好意思"@); lemma_word_too_long(l, "sorry"@); lemma_word_too_long(l, "apologize"@);
    lemma_word_absent(l, "我是"@, 0); lemma_word_absent(l, "我叫"@, 0); lemma_word_absent(l, "我呢"@, 0);
    lemma_word_too_long(l, "my name is"@); lemma_word_too_long(l, "i am"@); lemma_word_absent(l, "现在"@, 0);
    lemma_word_absent(l, "几点"@, 0); lemma_word_absent(l, "今天"@, 0); lemma_word_absent(l, "星期"@, 0);
    lemma_word_absent(l, "日期"@, 0); lemma_word_too_long(l, "now"@); lemma_word_too_long(l, "time"@);
    lemma_word_too_long(l, "today"@); lemma_word_too_long(l, "date"@);
    let table = intent_table();
    lemma_scores(l);
    assert(intent_score(l, table, 0) == 0 && intent_score(l, table, 1) == 0 && intent_score(l, table, 2) == 1 && intent_score(l, table, 3) == 0 && intent_score(l, table, 4) == 0 && intent_score(l, table, 5) == 0 && intent_score(l, table, 6) == 0);
    let k = choose|k: int| best_entry(l, table, k) && r.intent == table[k].0 && r.intent_score == intent_score(l, table, k);
    if k == 0 {} else if k == 1 {} else if k == 2 {} else if k == 3 {} else if k == 4 {} else if k == 5 {} else {}
}

/// "run" alone: Command, with 1 hit.
proof fn lemma_alone_28(t: Seq<char>, r: NluResult)
    requires
        understood(r, t, intent_table(), positive_lexicon(), negative_lexicon()),
        lowercase(t) == "run"@,
    ensures
        r.intent == Intent::Command,
        r.intent_score == 1,
{
    reveal(intent_table);
    reveal_with_fuel(hits_upto, 13);
    reveal_strlit("你好"); reveal_strlit("hello"); reveal_strlit("hi"); reveal_strlit("嗨"); reveal_strlit("您好");
    reveal_strlit("早上好"); reveal_strlit("下午好"); reveal_strlit("晚上好"); reveal_strlit("什么");
    reveal_strlit("怎么"); reveal_strlit("为什么"); reveal_strlit("如何"); reveal_strlit("哪"); reveal_strlit("谁");
    reveal_strlit("?"); reveal_strlit("？"); reveal_strlit("why"); reveal_strlit("how"); reveal_strlit("what");
    reveal_strlit("which"); reveal_strlit("做"); reveal_strlit("运行"); reveal_strlit("执行"); reveal_strlit("开始");
    reveal_strlit("停止"); reveal_strlit("请"); reveal_strlit("帮我"); reveal_strlit("do"); reveal_strlit("run");
    reveal_strlit("start"); reveal_strlit("stop"); reveal_strlit("please"); reveal_strlit("谢谢");
    reveal_strlit("感谢"); reveal_strlit("多谢"); reveal_strlit("thanks"); reveal_strlit("thank you");
    reveal_strlit("对不起"); reveal_strlit("抱歉"); reveal_strlit("不好意思"); reveal_strlit("sorry");
    reveal_strlit("apologize"); reveal_strlit("我是"); reveal_strlit("我叫"); reveal_strlit("我呢");
    reveal_strlit("my name is"); reveal_strlit("i am"); reveal_strlit("现在"); reveal_strlit("几点");
    reveal_strlit("今天"); reveal_strlit("星期"); reveal_strlit("日期"); reveal_strlit("now");
    reveal_strlit("time"); reveal_strlit("today"); reveal_strlit("date");
    let l = "run"@;
    assert forall|i: int| 0 <= i < l.len() implies l[i] == 'n' || l[i] == 'r' || l[i] == 'u' by {
        if i == 0 {} else if i == 1 {} else if i == 2 {}
    }
    lemma_word_absent(l, "你好"@, 0); lemma_word_too_long(l, "hello"@); lemma_word_absent(l, "hi"@, 0);
    lemma_word_absent(l, "嗨"@, 0); lemma_word_absent(l, "您好"@, 0); lemma_word_absent(l, "早上好"@, 0);
    lemma_word_absent(l, "下午好"@, 0); lemma_word_absent(l, "晚上好"@, 0); lemma_word_absent(l, "什么"@, 0);
    lemma_word_absent(l, "怎么"@, 0); lemma_word_absent(l, "为什么"@, 0); lemma_word_absent(l, "如何"@, 0);
    lemma_word_absent(l, "哪"@, 0); lemma_word_absent(l, "谁"@, 0); lemma_word_absent(l, "?"@, 0);
    lemma_word_absent(l, "？"@, 0); lemma_word_absent(l, "why"@, 0); lemma_word_absent(l, "how"@, 0);
    lemma_word_too_long(l, "what"@); lemma_word_too_long(l, "which"@); lemma_word_absent(l, "做"@, 0);
    lemma_word_absent(l, "运行"@, 0); lemma_word_absent(l, "执行"@, 0); lemma_word_absent(l, "开始"@, 0);
    lemma_word_absent(l, "停止"@, 0); lemma_word_absent(l, "请"@, 0); lemma_word_absent(l, "帮我"@, 0);
    lemma_word_absent(l, "do"@, 0); lemma_word_at(l, "run"@, 0); lemma_word_too_long(l, "start"@);
    lemma_word_too_long(l, "stop"@); lemma_word_too_long(l, "please"@); lemma_word_absent(l, "谢谢"@, 0);
    lemma_word_absent(l, "感谢"@, 0); lemma_word_absent(l, "多谢"@, 0); lemma_word_too_long(l, "thanks"@);
    lemma_word_too_long(l, "thank you"@); lemma_word_absent(l, "对不起"@, 0); lemma_word_absent(l, "抱歉"@, 0);
    lemma_word_too_long(l, "不好意思"@); lemma_word_too_long(l, "sorry"@); lemma_word_too_long(l, "apologize"@);
    lemma_word_absent(l, "我是"@, 0); lemma_word_absent(l, "我叫"@, 0); lemma_word_absent(l, "我呢"@, 0);
    lemma_word_too_long(l, "my name is"@); lemma_word_too_long(l, "i am"@); lemma_word_absent(l, "现在"@, 0);
    lemma_word_absent(l, "几点"@, 0); lemma_word_absent(l, "今天"@, 0); lemma_word_absent(l, "星期"@, 0);
    lemma_word_absent(l, "日期"@, 0); lemma_word_absent(l, "now"@, 1); lemma_word_too_long(l, "time"@);
    lemma_word_too_long(l, "today"@); lemma_word_too_long(l, "date"@);
    let table = intent_table();
    lemma_scores(l);
    assert(intent_score(l, table, 0) == 0 && intent_score(l, table, 1) == 0 && intent_score(l, table, 2) == 1 && intent_score(l, table, 3) == 0 && intent_score(l, table, 4) == 0 && intent_score(l, table, 5) == 0 && intent_score(l, table, 6) == 0);
    let k = choose|k: int| best_entry(l, table, k) && r.intent == table[k].0 && r.intent_score == intent_score(l, table, k);
    if k == 0 {} else if k == 1 {} else if k == 2 {} else if k == 3 {} else if k == 4 {} else if k == 5 {} else {}
}

/// "start" alone: Command, with 1 hit.
proof fn lemma_alone_29(t: Seq<char>, r: NluResult)
    requires
        understood(r, t, intent_table(), positive_lexicon(), negative_lexicon()),
        lowercase(t) == "start"@,
    ensures
        r.intent == Intent::Command,
        r.intent_score == 1,
{
    reveal(intent_table);
    reveal_with_fuel(hits_upto, 13);
    reveal_strlit("你好"); reveal_strlit("hello"); reveal_strlit("hi"); reveal_strlit("嗨"); reveal_strlit("您好");
    reveal_strlit("早上好"); reveal_strlit("下午好"); reveal_strlit("晚上好"); reveal_strlit("什么");
    reveal_strlit("怎么"); reveal_strlit("为什么"); reveal_strlit("如何"); reveal_strlit("哪"); reveal_strlit("谁");
    reveal_strlit("?"); reveal_strlit("？"); reveal_strlit("why"); reveal_strlit("how"); reveal_strlit("what");
    reveal_strlit("which"); reveal_strlit("做"); reveal_strlit("运行"); reveal_strlit("执行"); reveal_strlit("开始");
    reveal_strlit("停止"); reveal_strlit("请"); reveal_strlit("帮我"); reveal_strlit("do"); reveal_strlit("run");
    reveal_strlit("start"); reveal_strlit("stop"); reveal_strlit("please"); reveal_strlit("谢谢");
    reveal_strlit("感谢"); reveal_strlit("多谢"); reveal_strlit("thanks"); reveal_strlit("thank you");
    reveal_strlit("对不起"); reveal_strlit("抱歉"); reveal_strlit("不好意思"); reveal_strlit("sorry");
    reveal_strlit("apologize"); reveal_strlit("我是"); reveal_strlit("我叫"); reveal_strlit("我呢");
    reveal_strlit("my name is"); reveal_strlit("i am"); reveal_strlit("现在"); reveal_strlit("几点");
    reveal_strlit("今天"); reveal_strlit("星期"); reveal_strlit("日期"); reveal_strlit("now");
    reveal_strlit("time"); reveal_strlit("today"); reveal_strlit("date");
    let l = "start"@;
    assert forall|i: int| 0 <= i < l.len() implies l[i] == 'a' || l[i] == 'r' || l[i] == 's' || l[i] == 't' by {
        if i == 0 {} else if i == 1 {} else if i == 2 {} else if i == 3 {} else if i == 4 {}
    }
    lemma_word_absent(l, "你好"@, 0); lemma_word_absent(l, "hello"@, 0); lemma_word_absent(l, "hi"@, 0);
    lemma_word_absent(l, "嗨"@, 0); lemma_word_absent(l, "您好"@, 0); lemma_word_absent(l, "早上好"@, 0);
    lemma_word_absent(l, "下午好"@, 0); lemma_word_absent(l, "晚上好"@, 0); lemma_word_absent(l, "什么"@, 0);
    lemma_word_absent(l, "怎么"@, 0); lemma_word_absent(l, "为什么"@, 0); lemma_word_absent(l, "如何"@, 0);
    lemma_word_absent(l, "哪"@, 0); lemma_word_absent(l, "谁"@, 0); lemma_word_absent(l, "?"@, 0);
    lemma_word_absent(l, "？"@, 0); lemma_word_absent(l, "why"@, 0); lemma_word_absent(l, "how"@, 0);
    lemma_word_absent(l, "what"@, 0); lemma_word_absent(l, "which"@, 0); lemma_word_absent(l, "做"@, 0);
    lemma_word_absent(l, "运行"@, 0); lemma_word_absent(l, "执行"@, 0); lemma_word_absent(l, "开始"@, 0);
    lemma_word_absent(l, "停止"@, 0); lemma_word_absent(l, "请"@, 0); lemma_word_absent(l, "帮我"@, 0);
    lemma_word_absent(l, "do"@, 0); lemma_word_absent(l, "run"@, 1); lemma_word_at(l, "start"@, 0);
    lemma_word_absent(l, "stop"@, 2); lemma_word_too_long(l, "please"@); lemma_word_absent(l, "谢谢"@, 0);
    lemma_word_absent(l, "感谢"@, 0); lemma_word_absent(l, "多谢"@, 0); lemma_word_too_long(l, "thanks"@);
    lemma_word_too_long(l, "thank you"@); lemma_word_absent(l, "对不起"@, 0); lemma_word_absent(l, "抱歉"@, 0);
    lemma_word_absent(l, "不好意思"@, 0); lemma_word_absent(l, "sorry"@, 1); lemma_word_too_long(l, "apologize"@);
    lemma_word_absent(l, "我是"@, 0); lemma_word_absent(l, "我叫"@, 0); lemma_word_absent(l, "我呢"@, 0);
    lemma_word_too_long(l, "my name is"@); lemma_word_absent(l, "i am"@, 0); lemma_word_absent(l, "现在"@, 0);
    lemma_word_absent(l, "几点"@, 0); lemma_word_absent(l, "今天"@, 0); lemma_word_absent(l, "星期"@, 0);
    lemma_word_absent(l, "日期"@, 0); lemma_word_absent(l, "now"@, 0); lemma_word_absent(l, "time"@, 1);
    lemma_word_absent(l, "today"@, 1); lemma_word_absent(l, "date"@, 0);
    let table = intent_table();
    lemma_scores(l);
    assert(intent_score(l, table, 0) == 0 && intent_score(l, table, 1) == 0 && intent_score(l, table, 2) == 1 && intent_score(l, table, 3) == 0 && intent_score(l, table, 4) == 0 && intent_score(l, table, 5) == 0 && intent_score(l, table, 6) == 0);
    let k = choose|k: int| best_entry(l, table, k) && r.intent == table[k].0 && r.intent_score == intent_score(l, table, k);
    if k == 0 {} else if k == 1 {} else if k == 2 {} else if k == 3 {} else if k == 4 {} else if k == 5 {} else {}
}

/// "stop" alone: Command, with 1 hit.
proof fn lemma_alone_30(t: Seq<char>, r: NluResult)
    requires
        understood(r, t, intent_table(), positive_lexicon(), negative_lexicon()),
        lowercase(t) == "stop"@,
    ensures
        r.intent == Intent::Command,
        r.intent_score == 1,
{
    reveal(intent_table);
    reveal_with_fuel(hits_upto, 13);
    reveal_strlit("你好"); reveal_strlit("hello"); reveal_strlit("hi"); reveal_strlit("嗨"); reveal_strlit("您好");
    reveal_strlit("早上好"); reveal_strlit("下午好"); reveal_strlit("晚上好"); reveal_strlit("什么");
    reveal_strlit("怎么"); reveal_strlit("为什么"); reveal_strlit("如何"); reveal_strlit("哪"); reveal_strlit("谁");
    reveal_strlit("?"); reveal_strlit("？"); reveal_strlit("why"); reveal_strlit("how"); reveal_strlit("what");
    reveal_strlit("which"); reveal_strlit("做"); reveal_strlit("运行"); reveal_strlit("执行"); reveal_strlit("开始");
    reveal_strlit("停止"); reveal_strlit("请"); reveal_strlit("帮我"); reveal_strlit("do"); reveal_strlit("run");
    reveal_strlit("start"); reveal_strlit("stop"); reveal_strlit("please"); reveal_strlit("谢谢");
    reveal_strlit("感谢"); reveal_strlit("多谢"); reveal_strlit("thanks"); reveal_strlit("thank you");
    reveal_strlit("对不起"); reveal_strlit("抱歉"); reveal_strlit("不好意思"); reveal_strlit("sorry");
    reveal_strlit("apologize"); reveal_strlit("我是"); reveal_strlit("我叫"); reveal_strlit("我呢");
    reveal_strlit("my name is"); reveal_strlit("i am"); reveal_strlit("现在"); reveal_strlit("几点");
    reveal_strlit("今天"); reveal_strlit("星期"); reveal_strlit("日期"); reveal_strlit("now");
    reveal_strlit("time"); reveal_strlit("today"); reveal_strlit("date");
    let l = "stop"@;
    assert forall|i: int| 0 <= i < l.len() implies l[i] == 'o' || l[i] == 'p' || l[i] == 's' || l[i] == 't' by {
        if i == 0 {} else if i == 1 {} else if i == 2 {} else if i == 3 {}
    }
    lemma_word_absent(l, "你好"@, 0); lemma_word_too_long(l, "hello"@); lemma_word_absent(l, "hi"@, 0);
    lemma_word_absent(l, "嗨"@, 0); lemma_word_absent(l, "您好"@, 0); lemma_word_absent(l, "早上好"@, 0);
    lemma_word_absent(l, "下午好"@, 0); lemma_word_absent(l, "晚上好"@, 0); lemma_word_absent(l, "什么"@, 0);
    lemma_word_absent(l, "怎么"@, 0); lemma_word_absent(l, "为什么"@, 0); lemma_word_absent(l, "如何"@, 0);
    lemma_word_absent(l, "哪"@, 0); lemma_word_absent(l, "谁"@, 0); lemma_word_absent(l, "?"@, 0);
    lemma_word_absent(l, "？"@, 0); lemma_word_absent(l, "why"@, 0); lemma_word_absent(l, "how"@, 0);
    lemma_word_absent(l, "what"@, 0); lemma_word_too_long(l, "which"@); lemma_word_absent(l, "做"@, 0);
    lemma_word_absent(l, "运行"@, 0); lemma_word_absent(l, "执行"@, 0); lemma_word_absent(l, "开始"@, 0);
    lemma_word_absent(l, "停止"@, 0); lemma_word_absent(l, "请"@, 0); lemma_word_absent(l, "帮我"@, 0);
    lemma_word_absent(l, "do"@, 0); lemma_word_absent(l, "run"@, 0); lemma_word_too_long(l, "start"@);
    lemma_word_at(l, "stop"@, 0); lemma_word_too_long(l, "please"@); lemma_word_absent(l, "谢谢"@, 0);
    lemma_word_absent(l, "感谢"@, 0); lemma_word_absent(l, "多谢"@, 0); lemma_word_too_long(l, "thanks"@);
    lemma_word_too_long(l, "thank you"@); lemma_word_absent(l, "对不起"@, 0); lemma_word_absent(l, "抱歉"@, 0);
    lemma_word_absent(l, "不好意思"@, 0); lemma_word_too_long(l, "sorry"@); lemma_word_too_long(l, "apologize"@);
    lemma_word_absent(l, "我是"@, 0); lemma_word_absent(l, "我叫"@, 0); lemma_word_absent(l, "我呢"@, 0);
    lemma_word_too_long(l, "my name is"@); lemma_word_absent(l, "i am"@, 0); lemma_word_absent(l, "现在"@, 0);
    lemma_word_absent(l, "几点"@, 0); lemma_word_absent(l, "今天"@, 0); lemma_word_absent(l, "星期"@, 0);
    lemma_word_absent(l, "日期"@, 0); lemma_word_absent(l, "now"@, 0); lemma_word_absent(l, "time"@, 1);
    lemma_word_too_long(l, "today"@); lemma_word_absent(l, "date"@, 0);
    let table = intent_table();
    lemma_scores(l);
    assert(intent_score(l, table, 0) == 0 && intent_score(l, table, 1) == 0 && intent_score(l, table, 2) == 1 && intent_score(l, table, 3) == 0 && intent_score(l, table, 4) == 0 && intent_score(l, table, 5) == 0 && intent_score(l, table, 6) == 0);
    let k = choose|k: int| best_entry(l, table, k) && r.intent == table[k].0 && r.intent_score == intent_score(l, table, k);
    if k == 0 {} else if k == 1 {} else if k == 2 {} else if k == 3 {} else if k == 4 {} else if k == 5 {} else {}
}

/// "please" alone: Command, with 1 hit.
proof fn lemma_alone_31(t: Seq<char>, r: NluResult)
    requires
        understood(r, t, intent_table(), positive_lexicon(), negative_lexicon()),
        lowercase(t) == "please"@,
    ensures
        r.intent == Intent::Command,
        r.intent_score == 1,
{
    reveal(intent_table);
    reveal_with_fuel(hits_upto, 13);
    reveal_strlit("你好"); reveal_strlit("hello"); reveal_strlit("hi"); reveal_strlit("嗨"); reveal_strlit("您好");
    reveal_strlit("早上好"); reveal_strlit("下午好"); reveal_strlit("晚上好"); reveal_strlit("什么");
    reveal_strlit("怎么"); reveal_strlit("为什么"); reveal_strlit("如何"); reveal_strlit("哪"); reveal_strlit("谁");
    reveal_strlit("?"); reveal_strlit("？"); reveal_strlit("why"); reveal_strlit("how"); reveal_strlit("what");
    reveal_strlit("which"); reveal_strlit("做"); reveal_strlit("运行"); reveal_strlit("执行"); reveal_strlit("开始");
    reveal_strlit("停止"); reveal_strlit("请"); reveal_strlit("帮我"); reveal_strlit("do"); reveal_strlit("run");
    reveal_strlit("start"); reveal_strlit("stop"); reveal_strlit("please"); reveal_strlit("谢谢");
    reveal_strlit("感谢"); reveal_strlit("多谢"); reveal_strlit("thanks"); reveal_strlit("thank you");
    reveal_strlit("对不起"); reveal_strlit("抱歉"); reveal_strlit("不好意思"); reveal_strlit("sorry");
    reveal_strlit("apologize"); reveal_strlit("我是"); reveal_strlit("我叫"); reveal_strlit("我呢");
    reveal_strlit("my name is"); reveal_strlit("i am"); reveal_strlit("现在"); reveal_strlit("几点");
    reveal_strlit("今天"); reveal_strlit("星期"); reveal_strlit("日期"); reveal_strlit("now");
    reveal_strlit("time"); reveal_strlit("today"); reveal_strlit("date");
    let l = "please"@;
    assert forall|i: int| 0 <= i < l.len() implies l[i] == 'a' || l[i] == 'e' || l[i] == 'l' || l[i] == 'p' || l[i] == 's' by {
        if i == 0 {} else if i == 1 {} else if i == 2 {} else if i == 3 {} else if i == 4 {} else if i == 5 {}
    }
    lemma_word_absent(l, "你好"@, 0); lemma_word_absent(l, "hello"@, 0); lemma_word_absent(l, "hi"@, 0);
    lemma_word_absent(l, "嗨"@, 0); lemma_word_absent(l, "您好"@, 0); lemma_word_absent(l, "早上好"@, 0);
    lemma_word_absent(l, "下午好"@, 0); lemma_word_absent(l, "晚上好"@, 0); lemma_word_absent(l, "什么"@, 0);
    lemma_word_absent(l, "怎么"@, 0); lemma_word_absent(l, "为什么"@, 0); lemma_word_absent(l, "如何"@, 0);
    lemma_word_absent(l, "哪"@, 0); lemma_word_absent(l, "谁"@, 0); lemma_word_absent(l, "?"@, 0);
    lemma_word_absent(l, "？"@, 0); lemma_word_absent(l, "why"@, 0); lemma_word_absent(l, "how"@, 0);
    lemma_word_absent(l, "what"@, 0); lemma_word_absent(l, "which"@, 0); lemma_word_absent(l, "做"@, 0);
    lemma_word_absent(l, "运行"@, 0); lemma_word_absent(l, "执行"@, 0); lemma_word_absent(l, "开始"@, 0);
    lemma_word_absent(l, "停止"@, 0); lemma_word_absent(l, "请"@, 0); lemma_word_absent(l, "帮我"@, 0);
    lemma_word_absent(l, "do"@, 0); lemma_word_absent(l, "run"@, 0); lemma_word_absent(l, "start"@, 1);
    lemma_word_absent(l, "stop"@, 1); lemma_word_at(l, "please"@, 0); lemma_word_absent(l, "谢谢"@, 0);
    lemma_word_absent(l, "感谢"@, 0); lemma_word_absent(l, "多谢"@, 0); lemma_word_absent(l, "thanks"@, 0);
    lemma_word_too_long(l, "thank you"@); lemma_word_absent(l, "对不起"@, 0); lemma_word_absent(l, "抱歉"@, 0);
    lemma_word_absent(l, "不好意思"@, 0); lemma_word_absent(l, "sorry"@, 1); lemma_word_too_long(l, "apologize"@);
    lemma_word_absent(l, "我是"@, 0); lemma_word_absent(l, "我叫"@, 0); lemma_word_absent(l, "我呢"@, 0);
    lemma_word_too_long(l, "my name is"@); lemma_word_absent(l, "i am"@, 0); lemma_word_absent(l, "现在"@, 0);
    lemma_word_absent(l, "几点"@, 0); lemma_word_absent(l, "今天"@, 0); lemma_word_absent(l, "星期"@, 0);
    lemma_word_absent(l, "日期"@, 0); lemma_word_absent(l, "now"@, 0); lemma_word_absent(l, "time"@, 0);
    lemma_word_absent(l, "today"@, 0); lemma_word_absent(l, "date"@, 0);
    let table = intent_table();
    lemma_scores(l);
    assert(intent_score(l, table, 0) == 0 && intent_score(l, table, 1) == 0 && intent_score(l, table, 2) == 1 && intent_score(l, table, 3) == 0 && intent_score(l, table, 4) == 0 && intent_score(l, table, 5) == 0 && intent_score(l, table, 6) == 0);
    let k = choose|k: int| best_entry(l, table, k) && r.intent == table[k].0 && r.intent_score == intent_score(l, table, k);
    if k == 0 {} else if k == 1 {} else if k == 2 {} else if k == 3 {} else if k == 4 {} else if k == 5 {} else {}
}

/// "谢谢" alone: Thanks, with 1 hit.
proof fn lemma_alone_32(t: Seq<char>, r: NluResult)
    requires
        understood(r, t, intent_table(), positive_lexicon(), negative_lexicon()),
        lowercase(t) == "谢谢"@,
    ensures
        r.intent == Intent::Thanks,
        r.intent_score == 1,
{
    reveal(intent_table);
    reveal_with_fuel(hits_upto, 13);
    reveal_strlit("你好"); reveal_strlit("hello"); reveal_strlit("hi"); reveal_strlit("嗨"); reveal_strlit("您好");
    reveal_strlit("早上好"); reveal_strlit("下午好"); reveal_strlit("晚上好"); reveal_strlit("什么");
    reveal_strlit("怎么"); reveal_strlit("为什么"); reveal_strlit("如何"); reveal_strlit("哪"); reveal_strlit("谁");
    reveal_strlit("?"); reveal_strlit("？"); reveal_strlit("why"); reveal_strlit("how"); reveal_strlit("what");
    reveal_strlit("which"); reveal_strlit("做"); reveal_strlit("运行"); reveal_strlit("执行"); reveal_strlit("开始");
    reveal_strlit("停止"); reveal_strlit("请"); reveal_strlit("帮我"); reveal_strlit("do"); reveal_strlit("run");
    reveal_strlit("start"); reveal_strlit("stop"); reveal_strlit("please"); reveal_strlit("谢谢");
    reveal_strlit("感谢"); reveal_strlit("多谢"); reveal_strlit("thanks"); reveal_strlit("thank you");
    reveal_strlit("对不起"); reveal_strlit("抱歉"); reveal_strlit("不好意思"); reveal_strlit("sorry");
    reveal_strlit("apologize"); reveal_strlit("我是"); reveal_strlit("我叫"); reveal_strlit("我呢");
    reveal_strlit("my name is"); reveal_strlit("i am"); reveal_strlit("现在"); reveal_strlit("几点");
    reveal_strlit("今天"); reveal_strlit("星期"); reveal_strlit("日期"); reveal_strlit("now");
    reveal_strlit("time"); reveal_strlit("today"); reveal_strlit("date");
    let l = "谢谢"@;
    assert forall|i: int| 0 <= i < l.len() implies l[i] == '谢' by {
        if i == 0 {} else if i == 1 {}
    }
    lemma_word_absent(l, "你好"@, 0); lemma_word_too_long(l, "hello"@); lemma_word_absent(l, "hi"@, 0);
    lemma_word_absent(l, "嗨"@, 0); lemma_word_absent(l, "您好"@, 0); lemma_word_too_long(l, "早上好"@);
    lemma_word_too_long(l, "下午好"@); lemma_word_too_long(l, "晚上好"@); lemma_word_absent(l, "什么"@, 0);
    lemma_word_absent(l, "怎么"@, 0); lemma_word_too_long(l, "为什么"@); lemma_word_absent(l, "如何"@, 0);
    lemma_word_absent(l, "哪"@, 0); lemma_word_absent(l, "谁"@, 0); lemma_word_absent(l, "?"@, 0);
    lemma_word_absent(l, "？"@, 0); lemma_word_too_long(l, "why"@); lemma_word_too_long(l, "how"@);
    lemma_word_too_long(l, "what"@); lemma_word_too_long(l, "which"@); lemma_word_absent(l, "做"@, 0);
    lemma_word_absent(l, "运行"@, 0); lemma_word_absent(l, "执行"@, 0); lemma_word_absent(l, "开始"@, 0);
    lemma_word_absent(l, "停止"@, 0); lemma_word_absent(l, "请"@, 0); lemma_word_absent(l, "帮我"@, 0);
    lemma_word_absent(l, "do"@, 0); lemma_word_too_long(l, "run"@); lemma_word_too_long(l, "start"@);
    lemma_word_too_long(l, "stop"@); lemma_word_too_long(l, "please"@); lemma_word_at(l, "谢谢"@, 0);
    lemma_word_absent(l, "感谢"@, 0); lemma_word_absent(l, "多谢"@, 0); lemma_word_too_long(l, "thanks"@);
    lemma_word_too_long(l, "thank you"@); lemma_word_too_long(l, "对不起"@); lemma_word_absent(l, "抱歉"@, 0);
    lemma_word_too_long(l, "不好意思"@); lemma_word_too_long(l, "sorry"@); lemma_word_too_long(l, "apologize"@);
    lemma_word_absent(l, "我是"@, 0); lemma_word_absent(l, "我叫"@, 0); lemma_word_absent(l, "我呢"@, 0);
    lemma_word_too_long(l, "my name is"@); lemma_word_too_long(l, "i am"@); lemma_word_absent(l, "现在"@, 0);
    lemma_word_absent(l, "几点"@, 0); lemma_word_absent(l, "今天"@, 0); lemma_word_absent(l, "星期"@, 0);
    lemma_word_absent(l, "日期"@, 0); lemma_word_too_long(l, "now"@); lemma_word_too_long(l, "time"@);
    lemma_word_too_long(l, "today"@); lemma_word_too_long(l, "date"@);
    let table = intent_table();
    lemma_scores(l);
    assert(intent_score(l, table, 0) == 0 && intent_score(l, table, 1) == 0 && intent_score(l, table, 2) == 0 && intent_score(l, table, 3) == 1 && intent_score(l, table, 4) == 0 && intent_score(l, table, 5) == 0 && intent_score(l, table, 6) == 0);
    let k = choose|k: int| best_entry(l, table, k) && r.intent == table[k].0 && r.intent_score == intent_score(l, table, k);
    if k == 0 {} else if k == 1 {} else if k == 2 {} else if k == 3 {} else if k == 4 {} else if k == 5 {} else {}
}

/// "感谢" alone: Thanks, with 1 hit.
proof fn lemma_alone_33(t: Seq<char>, r: NluResult)
    requires
        understood(r, t, intent_table(), positive_lexicon(), negative_lexicon()),
        lowercase(t) == "感谢"@,
    ensures
        r.intent == Intent::Thanks,
        r.intent_score == 1,
{
    reveal(intent_table);
    reveal_with_fuel(hits_upto, 13);
    reveal_strlit("你好"); reveal_strlit("hello"); reveal_strlit("hi"); reveal_strlit("嗨"); reveal_strlit("您好");
    reveal_strlit("早上好"); reveal_strlit("下午好"); reveal_strlit("晚上好"); reveal_strlit("什么");
    reveal_strlit("怎么"); reveal_strlit("为什么"); reveal_strlit("如何"); reveal_strlit("哪"); reveal_strlit("谁");
    reveal_strlit("?"); reveal_strlit("？"); reveal_strlit("why"); reveal_strlit("how"); reveal_strlit("what");
    reveal_strlit("which"); reveal_strlit("做"); reveal_strlit("运行"); reveal_strlit("执行"); reveal_strlit("开始");
    reveal_strlit("停止"); reveal_strlit("请"); reveal_strlit("帮我"); reveal_strlit("do"); reveal_strlit("run");
    reveal_strlit("start"); reveal_strlit("stop"); reveal_strlit("please"); reveal_strlit("谢谢");
    reveal_strlit("感谢"); reveal_strlit("多谢"); reveal_strlit("thanks"); reveal_strlit("thank you");
    reveal_strlit("对不起"); reveal_strlit("抱歉"); reveal_strlit("不好意思"); reveal_strlit("sorry");
    reveal_strlit("apologize"); reveal_strlit("我是"); reveal_strlit("我叫"); reveal_strlit("我呢");
    reveal_strlit("my name is"); reveal_strlit("i am"); reveal_strlit("现在"); reveal_strlit("几点");
    reveal_strlit("今天"); reveal_strlit("星期"); reveal_strlit("日期"); reveal_strlit("now");
    reveal_strlit("time"); reveal_strlit("today"); reveal_strlit("date");
    let l = "感谢"@;
    assert forall|i: int| 0 <= i < l.len() implies l[i] == '感' || l[i] == '谢' by {
        if i == 0 {} else if i == 1 {}
    }
    lemma_word_absent(l, "你好"@, 0); lemma_word_too_long(l, "hello"@); lemma_word_absent(l, "hi"@, 0);
    lemma_word_absent(l, "嗨"@, 0); lemma_word_absent(l, "您好"@, 0); lemma_word_too_long(l, "早上好"@);
    lemma_word_too_long(l, "下午好"@); lemma_word_too_long(l, "晚上好"@); lemma_word_absent(l, "什么"@, 0);
    lemma_word_absent(l, "怎么"@, 0); lemma_word_too_long(l, "为什么"@); lemma_word_absent(l, "如何"@, 0);
    lemma_word_absent(l, "哪"@, 0); lemma_word_absent(l, "谁"@, 0); lemma_word_absent(l, "?"@, 0);
    lemma_word_absent(l, "？"@, 0); lemma_word_too_long(l, "why"@); lemma_word_too_long(l, "how"@);
    lemma_word_too_long(l, "what"@); lemma_word_too_long(l, "which"@); lemma_word_absent(l, "做"@, 0);
    lemma_word_absent(l, "运行"@, 0); lemma_word_absent(l, "执行"@, 0); lemma_word_absent(l, "开始"@, 0);
    lemma_word_absent(l, "停止"@, 0); lemma_word_absent(l, "请"@, 0); lemma_word_absent(l, "帮我"@, 0);
    lemma_word_absent(l, "do"@, 0); lemma_word_too_long(l, "run"@); lemma_word_too_long(l, "start"@);
    lemma_word_too_long(l, "stop"@); lemma_word_too_long(l, "please"@); lemma_word_at(l, "感谢"@, 0);
    lemma_word_absent(l, "多谢"@, 0); lemma_word_too_long(l, "thanks"@); lemma_word_too_long(l, "thank you"@);
    lemma_word_too_long(l, "对不起"@); lemma_word_absent(l, "抱歉"@, 0); lemma_word_too_long(l, "不好意思"@);
    lemma_word_too_long(l, "sorry"@); lemma_word_too_long(l, "apologize"@); lemma_word_absent(l, "我是"@, 0);
    lemma_word_absent(l, "我叫"@, 0); lemma_word_absent(l, "我呢"@, 0); lemma_word_too_long(l, "my name is"@);
    lemma_word_too_long(l, "i am"@); lemma_word_absent(l, "现在"@, 0); lemma_word_absent(l, "几点"@, 0);
    lemma_word_absent(l, "今天"@, 0); lemma_word_absent(l, "星期"@, 0); lemma_word_absent(l, "日期"@, 0);
    lemma_word_too_long(l, "now"@); lemma_word_too_long(l, "time"@); lemma_word_too_long(l, "today"@);
    lemma_word_too_long(l, "date"@);
    assert(!seq_contains(l, "谢谢"@)) by {
        let w = "谢谢"@;
        if seq_contains(l, w) {
            let i = choose|i: int| occurs_at(l, w, i);
            if i == 0 { assert(l.subrange(i, i + w.len())[0] == w[0]); }
        }
    }
    let table = intent_table();
    lemma_scores(l);
    assert(intent_score(l, table, 0) == 0 && intent_score(l, table, 1) == 0 && intent_score(l, table, 2) == 0 && intent_score(l, table, 3) == 1 && intent_score(l, table, 4) == 0 && intent_score(l, table, 5) == 0 && intent_score(l, table, 6) == 0);
    let k = choose|k: int| best_entry(l, table, k) && r.intent == table[k].0 && r.intent_score == intent_score(l, table, k);
    if k == 0 {} else if k == 1 {} else if k == 2 {} else if k == 3 {} else if k == 4 {} else if k == 5 {} else {}
}

/// "多谢" alone: Thanks, with 1 hit.
proof fn lemma_alone_34(t: Seq<char>, r: NluResult)
    requires
        understood(r, t, intent_table(), positive_lexicon(), negative_lexicon()),
        lowercase(t) == "多谢"@,
    ensures
        r.intent == Intent::Thanks,
        r.intent_score == 1,
{
    reveal(intent_table);
    reveal_with_fuel(hits_upto, 13);
    reveal_strlit("你好"); reveal_strlit("hello"); reveal_strlit("hi"); reveal_strlit("嗨"); reveal_strlit("您好");
    reveal_strlit("早上好"); reveal_strlit("下午好"); reveal_strlit("晚上好"); reveal_strlit("什么");
    reveal_strlit("怎么"); reveal_strlit("为什么"); reveal_strlit("如何"); reveal_strlit("哪"); reveal_strlit("谁");
    reveal_strlit("?"); reveal_strlit("？"); reveal_strlit("why"); reveal_strlit("how"); reveal_strlit("what");
    reveal_strlit("which"); reveal_strlit("做"); reveal_strlit("运行"); reveal_strlit("执行"); reveal_strlit("开始");
    reveal_strlit("停止"); reveal_strlit("请"); reveal_strlit("帮我"); reveal_strlit("do"); reveal_strlit("run");
    reveal_strlit("start"); reveal_strlit("stop"); reveal_strlit("please"); reveal_strlit("谢谢");
    reveal_strlit("感谢"); reveal_strlit("多谢"); reveal_strlit("thanks"); reveal_strlit("thank you");
    reveal_strlit("对不起"); reveal_strlit("抱歉"); reveal_strlit("不好意思"); reveal_strlit("sorry");
    reveal_strlit("apologize"); reveal_strlit("我是"); reveal_strlit("我叫"); reveal_strlit("我呢");
    reveal_strlit("my name is"); reveal_strlit("i am"); reveal_strlit("现在"); reveal_strlit("几点");
    reveal_strlit("今天"); reveal_strlit("星期"); reveal_strlit("日期"); reveal_strlit("now");
    reveal_strlit("time"); reveal_strlit("today"); reveal_strlit("date");
    let l = "多谢"@;
    assert forall|i: int| 0 <= i < l.len() implies l[i] == '多' || l[i] == '谢' by {
        if i == 0 {} else if i == 1 {}
    }
    lemma_word_absent(l, "你好"@, 0); lemma_word_too_long(l, "hello"@); lemma_word_absent(l, "hi"@, 0);
    lemma_word_absent(l, "嗨"@, 0); lemma_word_absent(l, "您好"@, 0); lemma_word_too_long(l, "早上好"@);
    lemma_word_too_long(l, "下午好"@); lemma_word_too_long(l, "晚上好"@); lemma_word_absent(l, "什么"@, 0);
    lemma_word_absent(l, "怎么"@, 0); lemma_word_too_long(l, "为什么"@); lemma_word_absent(l, "如何"@, 0);
    lemma_word_absent(l, "哪"@, 0); lemma_word_absent(l, "谁"@, 0); lemma_word_absent(l, "?"@, 0);
    lemma_word_absent(l, "？"@, 0); lemma_word_too_long(l, "why"@); lemma_word_too_long(l, "how"@);
    lemma_word_too_long(l, "what"@); lemma_word_too_long(l, "which"@); lemma_word_absent(l, "做"@, 0);
    lemma_word_absent(l, "运行"@, 0); lemma_word_absent(l, "执行"@, 0); lemma_word_absent(l, "开始"@, 0);
    lemma_word_absent(l, "停止"@, 0); lemma_word_absent(l, "请"@, 0); lemma_word_absent(l, "帮我"@, 0);
    lemma_word_absent(l, "do"@, 0); lemma_word_too_long(l, "run"@); lemma_word_too_long(l, "start"@);
    lemma_word_too_long(l, "stop"@); lemma_word_too_long(l, "please"@); lemma_word_absent(l, "感谢"@, 0);
    lemma_word_at(l, "多谢"@, 0); lemma_word_too_long(l, "thanks"@); lemma_word_too_long(l, "thank you"@);
    lemma_word_too_long(l, "对不起"@); lemma_word_absent(l, "抱歉"@, 0); lemma_word_too_long(l, "不好意思"@);
    lemma_word_too_long(l, "sorry"@); lemma_word_too_long(l, "apologize"@); lemma_word_absent(l, "我是"@, 0);
    lemma_word_absent(l, "我叫"@, 0); lemma_word_absent(l, "我呢"@, 0); lemma_word_too_long(l, "my name is"@);
    lemma_word_too_long(l, "i am"@); lemma_word_absent(l, "现在"@, 0); lemma_word_absent(l, "几点"@, 0);
    lemma_word_absent(l, "今天"@, 0); lemma_word_absent(l, "星期"@, 0); lemma_word_absent(l, "日期"@, 0);
    lemma_word_too_long(l, "now"@); lemma_word_too_long(l, "time"@); lemma_word_too_long(l, "today"@);
    lemma_word_too_long(l, "date"@);
    assert(!seq_contains(l, "谢谢"@)) by {
        let w = "谢谢"@;
        if seq_contains(l, w) {
            let i = choose|i: int| occurs_at(l, w, i);
            if i == 0 { assert(l.subrange(i, i + w.len())[0] == w[0]); }
        }
    }
    let table = intent_table();
    lemma_scores(l);
    assert(intent_score(l, table, 0) == 0 && intent_score(l, table, 1) == 0 && intent_score(l, table, 2) == 0 && intent_score(l, table, 3) == 1 && intent_score(l, table, 4) == 0 && intent_score(l, table, 5) == 0 && intent_score(l, table, 6) == 0);
    let k = choose|k: int| best_entry(l, table, k) && r.intent == table[k].0 && r.intent_score == intent_score(l, table, k);
    if k == 0 {} else if k == 1 {} else if k == 2 {} else if k == 3 {} else if k == 4 {} else if k == 5 {} else {}
}

/// "thanks" alone: Thanks, with 1 hit.
proof fn lemma_alone_35(t: Seq<char>, r: NluResult)
    requires
        understood(r, t, intent_table(), positive_lexicon(), negative_lexicon()),
        lowercase(t) == "thanks"@,
    ensures
        r.intent == Intent::Thanks,
        r.intent_score == 1,
{
    reveal(intent_table);
    reveal_with_fuel(hits_upto, 13);
    reveal_strlit("你好"); reveal_strlit("hello"); reveal_strlit("hi"); reveal_strlit("嗨"); reveal_strlit("您好");
    reveal_strlit("早上好"); reveal_strlit("下午好"); reveal_strlit("晚上好"); reveal_strlit("什么");
    reveal_strlit("怎么"); reveal_strlit("为什么"); reveal_strlit("如何"); reveal_strlit("哪"); reveal_strlit("谁");
    reveal_strlit("?"); reveal_strlit("？"); reveal_strlit("why"); reveal_strlit("how"); reveal_strlit("what");
    reveal_strlit("which"); reveal_strlit("做"); reveal_strlit("运行"); reveal_strlit("执行"); reveal_strlit("开始");
    reveal_strlit("停止"); reveal_strlit("请"); reveal_strlit("帮我"); reveal_strlit("do"); reveal_strlit("run");
    reveal_strlit("start"); reveal_strlit("stop"); reveal_strlit("please"); reveal_strlit("谢谢");
    reveal_strlit("感谢"); reveal_strlit("多谢"); reveal_strlit("thanks"); reveal_strlit("thank you");
    reveal_strlit("对不起"); reveal_strlit("抱歉"); reveal_strlit("不好意思"); reveal_strlit("sorry");
    reveal_strlit("apologize"); reveal_strlit("我是"); reveal_strlit("我叫"); reveal_strlit("我呢");
    reveal_strlit("my name is"); reveal_strlit("i am"); reveal_strlit("现在"); reveal_strlit("几点");
    reveal_strlit("今天"); reveal_strlit("星期"); reveal_strlit("日期"); reveal_strlit("now");
    reveal_strlit("time"); reveal_strlit("today"); reveal_strlit("date");
    let l = "thanks"@;
    assert forall|i: int| 0 <= i < l.len() implies l[i] == 'a' || l[i] == 'h' || l[i] == 'k' || l[i] == 'n' || l[i] == 's' || l[i] == 't' by {
        if i == 0 {} else if i == 1 {} else if i == 2 {} else if i == 3 {} else if i == 4 {} else if i == 5 {}
    }
    lemma_word_absent(l, "你好"@, 0); lemma_word_absent(l, "hello"@, 1); lemma_word_absent(l, "hi"@, 1);
    lemma_word_absent(l, "嗨"@, 0); lemma_word_absent(l, "您好"@, 0); lemma_word_absent(l, "早上好"@, 0);
    lemma_word_absent(l, "下午好"@, 0); lemma_word_absent(l, "晚上好"@, 0); lemma_word_absent(l, "什么"@, 0);
    lemma_word_absent(l, "怎么"@, 0); lemma_word_absent(l, "为什么"@, 0); lemma_word_absent(l, "如何"@, 0);
    lemma_word_absent(l, "哪"@, 0); lemma_word_absent(l, "谁"@, 0); lemma_word_absent(l, "?"@, 0);
    lemma_word_absent(l, "？"@, 0); lemma_word_absent(l, "why"@, 0); lemma_word_absent(l, "how"@, 1);
    lemma_word_absent(l, "what"@, 0); lemma_word_absent(l, "which"@, 0); lemma_word_absent(l, "做"@, 0);
    lemma_word_absent(l, "运行"@, 0); lemma_word_absent(l, "执行"@, 0); lemma_word_absent(l, "开始"@, 0);
    lemma_word_absent(l, "停止"@, 0); lemma_word_absent(l, "请"@, 0); lemma_word_absent(l, "帮我"@, 0);
    lemma_word_absent(l, "do"@, 0); lemma_word_absent(l, "run"@, 0); lemma_word_absent(l, "start"@, 3);
    lemma_word_absent(l, "stop"@, 2); lemma_word_absent(l, "please"@, 0); lemma_word_absent(l, "谢谢"@, 0);
    lemma_word_absent(l, "感谢"@, 0); lemma_word_absent(l, "多谢"@, 0); lemma_word_at(l, "thanks"@, 0);
    lemma_word_too_long(l, "thank you"@); lemma_word_absent(l, "对不起"@, 0); lemma_word_absent(l, "抱歉"@, 0);
    lemma_word_absent(l, "不好意思"@, 0); lemma_word_absent(l, "sorry"@, 1); lemma_word_too_long(l, "apologize"@);
    lemma_word_absent(l, "我是"@, 0); lemma_word_absent(l, "我叫"@, 0); lemma_word_absent(l, "我呢"@, 0);
    lemma_word_too_long(l, "my name is"@); lemma_word_absent(l, "i am"@, 0); lemma_word_absent(l, "现在"@, 0);
    lemma_word_absent(l, "几点"@, 0); lemma_word_absent(l, "今天"@, 0); lemma_word_absent(l, "星期"@, 0);
    lemma_word_absent(l, "日期"@, 0); lemma_word_absent(l, "now"@, 1); lemma_word_absent(l, "time"@, 1);
    lemma_word_absent(l, "today"@, 1); lemma_word_absent(l, "date"@, 0);
    let table = intent_table();
    lemma_scores(l);
    assert(intent_score(l, table, 0) == 0 && intent_score(l, table, 1) == 0 && intent_score(l, table, 2) == 0 && intent_score(l, table, 3) == 1 && intent_score(l, table, 4) == 0 && intent_score(l, table, 5) == 0 && intent_score(l, table, 6) == 0);
    let k = choose|k: int| best_entry(l, table, k) && r.intent == table[k].0 && r.intent_score == intent_score(l, table, k);
    if k == 0 {} else if k == 1 {} else if k == 2 {} else if k == 3 {} else if k == 4 {} else if k == 5 {} else {}
}

/// "thank you" alone: Thanks, with 1 hit.
proof fn lemma_alone_36(t: Seq<char>, r: NluResult)
    requires
        understood(r, t, intent_table(), positive_lexicon(), negative_lexicon()),
        lowercase(t) == "thank you"@,
    ensures
        r.intent == Intent::Thanks,
        r.intent_score == 1,
{
    reveal(intent_table);
    reveal_with_fuel(hits_upto, 13);
    reveal_strlit("你好"); reveal_strlit("hello"); reveal_strlit("hi"); reveal_strlit("嗨"); reveal_strlit("您好");
    reveal_strlit("早上好"); reveal_strlit("下午好"); reveal_strlit("晚上好"); reveal_strlit("什么");
    reveal_strlit("怎么"); reveal_strlit("为什么"); reveal_strlit("如何"); reveal_strlit("哪"); reveal_strlit("谁");
    reveal_strlit("?"); reveal_strlit("？"); reveal_strlit("why"); reveal_strlit("how"); reveal_strlit("what");
    reveal_strlit("which"); reveal_strlit("做"); reveal_strlit("运行"); reveal_strlit("执行"); reveal_strlit("开始");
    reveal_strlit("停止"); reveal_strlit("请"); reveal_strlit("帮我"); reveal_strlit("do"); reveal_strlit("run");
    reveal_strlit("start"); reveal_strlit("stop"); reveal_strlit("please"); reveal_strlit("谢谢");
    reveal_strlit("感谢"); reveal_strlit("多谢"); reveal_strlit("thanks"); reveal_strlit("thank you");
    reveal_strlit("对不起"); reveal_strlit("抱歉"); reveal_strlit("不好意思"); reveal_strlit("sorry");
    reveal_strlit("apologize"); reveal_strlit("我是"); reveal_strlit("我叫"); reveal_strlit("我呢");
    reveal_strlit("my name is"); reveal_strlit("i am"); reveal_strlit("现在"); reveal_strlit("几点");
    reveal_strlit("今天"); reveal_strlit("星期"); reveal_strlit("日期"); reveal_strlit("now");
    reveal_strlit("time"); reveal_strlit("today"); reveal_strlit("date");
    let l = "thank you"@;
    assert forall|i: int| 0 <= i < l.len() implies l[i] == ' ' || l[i] == 'a' || l[i] == 'h' || l[i] == 'k' || l[i] == 'n' || l[i] == 'o' || l[i] == 't' || l[i] == 'u' || l[i] == 'y' by {
        if i == 0 {} else if i == 1 {} else if i == 2 {} else if i == 3 {} else if i == 4 {} else if i == 5 {} else if i == 6 {} else if i == 7 {} else if i == 8 {}
    }
    lemma_word_absent(l, "你好"@, 0); lemma_word_absent(l, "hello"@, 1); lemma_word_absent(l, "hi"@, 1);
    lemma_word_absent(l, "嗨"@, 0); lemma_word_absent(l, "您好"@, 0); lemma_word_absent(l, "早上好"@, 0);
    lemma_word_absent(l, "下午好"@, 0); lemma_word_absent(l, "晚上好"@, 0); lemma_word_absent(l, "什么"@, 0);
    lemma_word_absent(l, "怎么"@, 0); lemma_word_absent(l, "为什么"@, 0); lemma_word_absent(l, "如何"@, 0);
    lemma_word_absent(l, "哪"@, 0); lemma_word_absent(l, "谁"@, 0); lemma_word_absent(l, "?"@, 0);
    lemma_word_absent(l, "？"@, 0); lemma_word_absent(l, "why"@, 0); lemma_word_absent(l, "how"@, 2);
    lemma_word_absent(l, "what"@, 0); lemma_word_absent(l, "which"@, 0); lemma_word_absent(l, "做"@, 0);
    lemma_word_absent(l, "运行"@, 0); lemma_word_absent(l, "执行"@, 0); lemma_word_absent(l, "开始"@, 0);
    lemma_word_absent(l, "停止"@, 0); lemma_word_absent(l, "请"@, 0); lemma_word_absent(l, "帮我"@, 0);
    lemma_word_absent(l, "do"@, 0); lemma_word_absent(l, "run"@, 0); lemma_word_absent(l, "start"@, 0);
    lemma_word_absent(l, "stop"@, 0); lemma_word_absent(l, "please"@, 0); lemma_word_absent(l, "谢谢"@, 0);
    lemma_word_absent(l, "感谢"@, 0); lemma_word_absent(l, "多谢"@, 0); lemma_word_absent(l, "thanks"@, 5);
    lemma_word_at(l, "thank you"@, 0); lemma_word_absent(l, "对不起"@, 0); lemma_word_absent(l, "抱歉"@, 0);
    lemma_word_absent(l, "不好意思"@, 0); lemma_word_absent(l, "sorry"@, 0);
    lemma_word_absent(l, "apologize"@, 1); lemma_word_absent(l, "我是"@, 0); lemma_word_absent(l, "我叫"@, 0);
    lemma_word_absent(l, "我呢"@, 0); lemma_word_too_long(l, "my name is"@); lemma_word_absent(l, "i am"@, 0);
    lemma_word_absent(l, "现在"@, 0); lemma_word_absent(l, "几点"@, 0); lemma_word_absent(l, "今天"@, 0);
    lemma_word_absent(l, "星期"@, 0); lemma_word_absent(l, "日期"@, 0); lemma_word_absent(l, "now"@, 2);
    lemma_word_absent(l, "time"@, 1); lemma_word_absent(l, "today"@, 2); lemma_word_absent(l, "date"@, 0);
    let table = intent_table();
    lemma_scores(l);
    assert(intent_score(l, table, 0) == 0 && intent_score(l, table, 1) == 0 && intent_score(l, table, 2) == 0 && intent_score(l, table, 3) == 1 && intent_score(l, table, 4) == 0 && intent_score(l, table, 5) == 0 && intent_score(l, table, 6) == 0);
    let k = choose|k: int| best_entry(l, table, k) && r.intent == table[k].0 && r.intent_score == intent_score(l, table, k);
    if k == 0 {} else if k == 1 {} else if k == 2 {} else if k == 3 {} else if k == 4 {} else if k == 5 {} else {}
}

/// "对不起" alone: Apology, with 1 hit.
proof fn lemma_alone_37(t: Seq<char>, r: NluResult)
    requires
        understood(r, t, intent_table(), positive_lexicon(), negative_lexicon()),
        lowercase(t) == "对不起"@,
    ensures
        r.intent == Intent::Apology,
        r.intent_score == 1,
{
    reveal(intent_table);
    reveal_with_fuel(hits_upto, 13);
    reveal_strlit("你好"); reveal_strlit("hello"); reveal_strlit("hi"); reveal_strlit("嗨"); reveal_strlit("您好");
    reveal_strlit("早上好"); reveal_strlit("下午好"); reveal_strlit("晚上好"); reveal_strlit("什么");
    reveal_strlit("怎么"); reveal_strlit("为什么"); reveal_strlit("如何"); reveal_strlit("哪"); reveal_strlit("谁");
    reveal_strlit("?"); reveal_strlit("？"); reveal_strlit("why"); reveal_strlit("how"); reveal_strlit("what");
    reveal_strlit("which"); reveal_strlit("做"); reveal_strlit("运行"); reveal_strlit("执行"); reveal_strlit("开始");
    reveal_strlit("停止"); reveal_strlit("请"); reveal_strlit("帮我"); reveal_strlit("do"); reveal_strlit("run");
    reveal_strlit("start"); reveal_strlit("stop"); reveal_strlit("please"); reveal_strlit("谢谢");
    reveal_strlit("感谢"); reveal_strlit("多谢"); reveal_strlit("thanks"); reveal_strlit("thank you");
    reveal_strlit("对不起"); reveal_strlit("抱歉"); reveal_strlit("不好意思"); reveal_strlit("sorry");
    reveal_strlit("apologize"); reveal_strlit("我是"); reveal_strlit("我叫"); reveal_strlit("我呢");
    reveal_strlit("my name is"); reveal_strlit("i am"); reveal_strlit("现在"); reveal_strlit("几点");
    reveal_strlit("今天"); reveal_strlit("星期"); reveal_strlit("日期"); reveal_strlit("now");
    reveal_strlit("time"); reveal_strlit("today"); reveal_strlit("date");
    let l = "对不起"@;
    assert forall|i: int| 0 <= i < l.len() implies l[i] == '不' || l[i] == '对' || l[i] == '起' by {
        if i == 0 {} else if i == 1 {} else if i == 2 {}
    }
    lemma_word_absent(l, "你好"@, 0); lemma_word_too_long(l, "hello"@); lemma_word_absent(l, "hi"@, 0);
    lemma_word_absent(l, "嗨"@, 0); lemma_word_absent(l, "您好"@, 0); lemma_word_absent(l, "早上好"@, 0);
    lemma_word_absent(l, "下午好"@, 0); lemma_word_absent(l, "晚上好"@, 0); lemma_word_absent(l, "什么"@, 0);
    lemma_word_absent(l, "怎么"@, 0); lemma_word_absent(l, "为什么"@, 0); lemma_word_absent(l, "如何"@, 0);
    lemma_word_absent(l, "哪"@, 0); lemma_word_absent(l, "谁"@, 0); lemma_word_absent(l, "?"@, 0);
    lemma_word_absent(l, "？"@, 0); lemma_word_absent(l, "why"@, 0); lemma_word_absent(l, "how"@, 0);
    lemma_word_too_long(l, "what"@); lemma_word_too_long(l, "which"@); lemma_word_absent(l, "做"@, 0);
    lemma_word_absent(l, "运行"@, 0); lemma_word_absent(l, "执行"@, 0); lemma_word_absent(l, "开始"@, 0);
    lemma_word_absent(l, "停止"@, 0); lemma_word_absent(l, "请"@, 0); lemma_word_absent(l, "帮我"@, 0);
    lemma_word_absent(l, "do"@, 0); lemma_word_absent(l, "run"@, 0); lemma_word_too_long(l, "start"@);
    lemma_word_too_long(l, "stop"@); lemma_word_too_long(l, "please"@); lemma_word_absent(l, "谢谢"@, 0);
    lemma_word_absent(l, "感谢"@, 0); lemma_word_absent(l, "多谢"@, 0); lemma_word_too_long(l, "thanks"@);
    lemma_word_too_long(l, "thank you"@); lemma_word_at(l, "对不起"@, 0); lemma_word_absent(l, "抱歉"@, 0);
    lemma_word_too_long(l, "不好意思"@); lemma_word_too_long(l, "sorry"@); lemma_word_too_long(l, "apologize"@);
    lemma_word_absent(l, "我是"@, 0); lemma_word_absent(l, "我叫"@, 0); lemma_word_absent(l, "我呢"@, 0);
    lemma_word_too_long(l, "my name is"@); lemma_word_too_long(l, "i am"@); lemma_word_absent(l, "现在"@, 0);
    lemma_word_absent(l, "几点"@, 0); lemma_word_absent(l, "今天"@, 0); lemma_word_absent(l, "星期"@, 0);
    lemma_word_absent(l, "日期"@, 0); lemma_word_absent(l, "now"@, 0); lemma_word_too_long(l, "time"@);
    lemma_word_too_long(l, "today"@); lemma_word_too_long(l, "date"@);
    let table = intent_table();
    lemma_scores(l);
    assert(intent_score(l, table, 0) == 0 && intent_score(l, table, 1) == 0 && intent_score(l, table, 2) == 0 && intent_score(l, table, 3) == 0 && intent_score(l, table, 4) == 1 && intent_score(l, table, 5) == 0 && intent_score(l, table, 6) == 0);
    let k = choose|k: int| best_entry(l, table, k) && r.intent == table[k].0 && r.intent_score == intent_score(l, table, k);
    if k == 0 {} else if k == 1 {} else if k == 2 {} else if k == 3 {} else if k == 4 {} else if k == 5 {} else {}
}

/// "抱歉" alone: Apology, with 1 hit.
proof fn lemma_alone_38(t: Seq<char>, r: NluResult)
    requires
        understood(r, t, intent_table(), positive_lexicon(), negative_lexicon()),
        lowercase(t) == "抱歉"@,
    ensures
        r.intent == Intent::Apology,
        r.intent_score == 1,
{
    reveal(intent_table);
    reveal_with_fuel(hits_upto, 13);
    reveal_strlit("你好"); reveal_strlit("hello"); reveal_strlit("hi"); reveal_strlit("嗨"); reveal_strlit("您好");
    reveal_strlit("早上好"); reveal_strlit("下午好"); reveal_strlit("晚上好"); reveal_strlit("什么");
    reveal_strlit("怎么"); reveal_strlit("为什么"); reveal_strlit("如何"); reveal_strlit("哪"); reveal_strlit("谁");
    reveal_strlit("?"); reveal_strlit("？"); reveal_strlit("why"); reveal_strlit("how"); reveal_strlit("what");
    reveal_strlit("which"); reveal_strlit("做"); reveal_strlit("运行"); reveal_strlit("执行"); reveal_strlit("开始");
    reveal_strlit("停止"); reveal_strlit("请"); reveal_strlit("帮我"); reveal_strlit("do"); reveal_strlit("run");
    reveal_strlit("start"); reveal_strlit("stop"); reveal_strlit("please"); reveal_strlit("谢谢");
    reveal_strlit("感谢"); reveal_strlit("多谢"); reveal_strlit("thanks"); reveal_strlit("thank you");
    reveal_strlit("对不起"); reveal_strlit("抱歉"); reveal_strlit("不好意思"); reveal_strlit("sorry");
    reveal_strlit("apologize"); reveal_strlit("我是"); reveal_strlit("我叫"); reveal_strlit("我呢");
    reveal_strlit("my name is"); reveal_strlit("i am"); reveal_strlit("现在"); reveal_strlit("几点");
    reveal_strlit("今天"); reveal_strlit("星期"); reveal_strlit("日期"); reveal_strlit("now");
    reveal_strlit("time"); reveal_strlit("today"); reveal_strlit("date");
    let l = "抱歉"@;
    assert forall|i: int| 0 <= i < l.len() implies l[i] == '抱' || l[i] == '歉' by {
        if i == 0 {} else if i == 1 {}
    }
    lemma_word_absent(l, "你好"@, 0); lemma_word_too_long(l, "hello"@); lemma_word_absent(l, "hi"@, 0);
    lemma_word_absent(l, "嗨"@, 0); lemma_word_absent(l, "您好"@, 0); lemma_word_too_long(l, "早上好"@);
    lemma_word_too_long(l, "下午好"@); lemma_word_too_long(l, "晚上好"@); lemma_word_absent(l, "什么"@, 0);
    lemma_word_absent(l, "怎么"@, 0); lemma_word_too_long(l, "为什么"@); lemma_word_absent(l, "如何"@, 0);
    lemma_word_absent(l, "哪"@, 0); lemma_word_absent(l, "谁"@, 0); lemma_word_absent(l, "?"@, 0);
    lemma_word_absent(l, "？"@, 0); lemma_word_too_long(l, "why"@); lemma_word_too_long(l, "how"@);
    lemma_word_too_long(l, "what"@); lemma_word_too_long(l, "which"@); lemma_word_absent(l, "做"@, 0);
    lemma_word_absent(l, "运行"@, 0); lemma_word_absent(l, "执行"@, 0); lemma_word_absent(l, "开始"@, 0);
    lemma_word_absent(l, "停止"@, 0); lemma_word_absent(l, "请"@, 0); lemma_word_absent(l, "帮我"@, 0);
    lemma_word_absent(l, "do"@, 0); lemma_word_too_long(l, "run"@); lemma_word_too_long(l, "start"@);
    lemma_word_too_long(l, "stop"@); lemma_word_too_long(l, "please"@); lemma_word_absent(l, "谢谢"@, 0);
    lemma_word_absent(l, "感谢"@, 0); lemma_word_absent(l, "多谢"@, 0); lemma_word_too_long(l, "thanks"@);
    lemma_word_too_long(l, "thank you"@); lemma_word_too_long(l, "对不起"@); lemma_word_at(l, "抱歉"@, 0);
    lemma_word_too_long(l, "不好意思"@); lemma_word_too_long(l, "sorry"@); lemma_word_too_long(l, "apologize"@);
    lemma_word_absent(l, "我是"@, 0); lemma_word_absent(l, "我叫"@, 0); lemma_word_absent(l, "我呢"@, 0);
    lemma_word_too_long(l, "my name is"@); lemma_word_too_long(l, "i am"@); lemma_word_absent(l, "现在"@, 0);
    lemma_word_absent(l, "几点"@, 0); lemma_word_absent(l, "今天"@, 0); lemma_word_absent(l, "星期"@, 0);
    lemma_word_absent(l, "日期"@, 0); lemma_word_too_long(l, "now"@); lemma_word_too_long(l, "time"@);
    lemma_word_too_long(l, "today"@); lemma_word_too_long(l, "date"@);
    let table = intent_table();
    lemma_scores(l);
    assert(intent_score(l, table, 0) == 0 && intent_score(l, table, 1) == 0 && intent_score(l, table, 2) == 0 && intent_score(l, table, 3) == 0 && intent_score(l, table, 4) == 1 && intent_score(l, table, 5) == 0 && intent_score(l, table, 6) == 0);
    let k = choose|k: int| best_entry(l, table, k) && r.intent == table[k].0 && r.intent_score == intent_score(l, table, k);
    if k == 0 {} else if k == 1 {} else if k == 2 {} else if k == 3 {} else if k == 4 {} else if k == 5 {} else {}
}

/// "不好意思" alone: Apology, with 1 hit.
proof fn lemma_alone_39(t: Seq<char>, r: NluResult)
    requires
        understood(r, t, intent_table(), positive_lexicon(), negative_lexicon()),
        lowercase(t) == "不好意思"@,
    ensures
        r.intent == Intent::Apology,
        r.intent_score == 1,
{
    reveal(intent_table);
    reveal_with_fuel(hits_upto, 13);
    reveal_strlit("你好"); reveal_strlit("hello"); reveal_strlit("hi"); reveal_strlit("嗨"); reveal_strlit("您好");
    reveal_strlit("早上好"); reveal_strlit("下午好"); reveal_strlit("晚上好"); reveal_strlit("什么");
    reveal_strlit("怎么"); reveal_strlit("为什么"); reveal_strlit("如何"); reveal_strlit("哪"); reveal_strlit("谁");
    reveal_strlit("?"); reveal_strlit("？"); reveal_strlit("why"); reveal_strlit("how"); reveal_strlit("what");
    reveal_strlit("which"); reveal_strlit("做"); reveal_strlit("运行"); reveal_strlit("执行"); reveal_strlit("开始");
    reveal_strlit("停止"); reveal_strlit("请"); reveal_strlit("帮我"); reveal_strlit("do"); reveal_strlit("run");
    reveal_strlit("start"); reveal_strlit("stop"); reveal_strlit("please"); reveal_strlit("谢谢");
    reveal_strlit("感谢"); reveal_strlit("多谢"); reveal_strlit("thanks"); reveal_strlit("thank you");
    reveal_strlit("对不起"); reveal_strlit("抱歉"); reveal_strlit("不好意思"); reveal_strlit("sorry");
    reveal_strlit("apologize"); reveal_strlit("我是"); reveal_strlit("我叫"); reveal_strlit("我呢");
    reveal_strlit("my name is"); reveal_strlit("i am"); reveal_strlit("现在"); reveal_strlit("几点");
    reveal_strlit("今天"); reveal_strlit("星期"); reveal_strlit("日期"); reveal_strlit("now");
    reveal_strlit("time"); reveal_strlit("today"); reveal_strlit("date");
    let l = "不好意思"@;
    assert forall|i: int| 0 <= i < l.len() implies l[i] == '不' || l[i] == '好' || l[i] == '思' || l[i] == '意' by {
        if i == 0 {} else if i == 1 {} else if i == 2 {} else if i == 3 {}
    }
    lemma_word_absent(l, "你好"@, 0); lemma_word_too_long(l, "hello"@); lemma_word_absent(l, "hi"@, 0);
    lemma_word_absent(l, "嗨"@, 0); lemma_word_absent(l, "您好"@, 0); lemma_word_absent(l, "早上好"@, 0);
    lemma_word_absent(l, "下午好"@, 0); lemma_word_absent(l, "晚上好"@, 0); lemma_word_absent(l, "什么"@, 0);
    lemma_word_absent(l, "怎么"@, 0); lemma_word_absent(l, "为什么"@, 0); lemma_word_absent(l, "如何"@, 0);
    lemma_word_absent(l, "哪"@, 0); lemma_word_absent(l, "谁"@, 0); lemma_word_absent(l, "?"@, 0);
    lemma_word_absent(l, "？"@, 0); lemma_word_absent(l, "why"@, 0); lemma_word_absent(l, "how"@, 0);
    lemma_word_absent(l, "what"@, 0); lemma_word_too_long(l, "which"@); lemma_word_absent(l, "做"@, 0);
    lemma_word_absent(l, "运行"@, 0); lemma_word_absent(l, "执行"@, 0); lemma_word_absent(l, "开始"@, 0);
    lemma_word_absent(l, "停止"@, 0); lemma_word_absent(l, "请"@, 0); lemma_word_absent(l, "帮我"@, 0);
    lemma_word_absent(l, "do"@, 0); lemma_word_absent(l, "run"@, 0); lemma_word_too_long(l, "start"@);
    lemma_word_absent(l, "stop"@, 0); lemma_word_too_long(l, "please"@); lemma_word_absent(l, "谢谢"@, 0);
    lemma_word_absent(l, "感谢"@, 0); lemma_word_absent(l, "多谢"@, 0); lemma_word_too_long(l, "thanks"@);
    lemma_word_too_long(l, "thank you"@); lemma_word_absent(l, "对不起"@, 0); lemma_word_absent(l, "抱歉"@, 0);
    lemma_word_at(l, "不好意思"@, 0); lemma_word_too_long(l, "sorry"@); lemma_word_too_long(l, "apologize"@);
    lemma_word_absent(l, "我是"@, 0); lemma_word_absent(l, "我叫"@, 0); lemma_word_absent(l, "我呢"@, 0);
    lemma_word_too_long(l, "my name is"@); lemma_word_absent(l, "i am"@, 0); lemma_word_absent(l, "现在"@, 0);
    lemma_word_absent(l, "几点"@, 0); lemma_word_absent(l, "今天"@, 0); lemma_word_absent(l, "星期"@, 0);
    lemma_word_absent(l, "日期"@, 0); lemma_word_absent(l, "now"@, 0); lemma_word_absent(l, "time"@, 0);
    lemma_word_too_long(l, "today"@); lemma_word_absent(l, "date"@, 0);
    let table = intent_table();
    lemma_scores(l);
    assert(intent_score(l, table, 0) == 0 && intent_score(l, table, 1) == 0 && intent_score(l, table, 2) == 0 && intent_score(l, table, 3) == 0 && intent_score(l, table, 4) == 1 && intent_score(l, table, 5) == 0 && intent_score(l, table, 6) == 0);
    let k = choose|k: int| best_entry(l, table, k) && r.intent == table[k].0 && r.intent_score == intent_score(l, table, k);
    if k == 0 {} else if k == 1 {} else if k == 2 {} else if k == 3 {} else if k == 4 {} else if k == 5 {} else {}
}

/// "sorry" alone: Apology, with 1 hit.
proof fn lemma_alone_40(t: Seq<char>, r: NluResult)
    requires
        understood(r, t, intent_table(), positive_lexicon(), negative_lexicon()),
        lowercase(t) == "sorry"@,
    ensures
        r.intent == Intent::Apology,
        r.intent_score == 1,
{
    reveal(intent_table);
    reveal_with_fuel(hits_upto, 13);
    reveal_strlit("你好"); reveal_strlit("hello"); reveal_strlit("hi"); reveal_strlit("嗨"); reveal_strlit("您好");
    reveal_strlit("早上好"); reveal_strlit("下午好"); reveal_strlit("晚上好"); reveal_strlit("什么");
    reveal_strlit("怎么"); reveal_strlit("为什么"); reveal_strlit("如何"); reveal_strlit("哪"); reveal_strlit("谁");
    reveal_strlit("?"); reveal_strlit("？"); reveal_strlit("why"); reveal_strlit("how"); reveal_strlit("what");
    reveal_strlit("which"); reveal_strlit("做"); reveal_strlit("运行"); reveal_strlit("执行"); reveal_strlit("开始");
    reveal_strlit("停止"); reveal_strlit("请"); reveal_strlit("帮我"); reveal_strlit("do"); reveal_strlit("run");
    reveal_strlit("start"); reveal_strlit("stop"); reveal_strlit("please"); reveal_strlit("谢谢");
    reveal_strlit("感谢"); reveal_strlit("多谢"); reveal_strlit("thanks"); reveal_strlit("thank you");
    reveal_strlit("对不起"); reveal_strlit("抱歉"); reveal_strlit("不好意思"); reveal_strlit("sorry");
    reveal_strlit("apologize"); reveal_strlit("我是"); reveal_strlit("我叫"); reveal_strlit("我呢");
    reveal_strlit("my name is"); reveal_strlit("i am"); reveal_strlit("现在"); reveal_strlit("几点");
    reveal_strlit("今天"); reveal_strlit("星期"); reveal_strlit("日期"); reveal_strlit("now");
    reveal_strlit("time"); reveal_strlit("today"); reveal_strlit("date");
    let l = "sorry"@;
    assert forall|i: int| 0 <= i < l.len() implies l[i] == 'o' || l[i] == 'r' || l[i] == 's' || l[i] == 'y' by {
        if i == 0 {} else if i == 1 {} else if i == 2 {} else if i == 3 {} else if i == 4 {}
    }
    lemma_word_absent(l, "你好"@, 0); lemma_word_absent(l, "hello"@, 0); lemma_word_absent(l, "hi"@, 0);
    lemma_word_absent(l, "嗨"@, 0); lemma_word_absent(l, "您好"@, 0); lemma_word_absent(l, "早上好"@, 0);
    lemma_word_absent(l, "下午好"@, 0); lemma_word_absent(l, "晚上好"@, 0); lemma_word_absent(l, "什么"@, 0);
    lemma_word_absent(l, "怎么"@, 0); lemma_word_absent(l, "为什么"@, 0); lemma_word_absent(l, "如何"@, 0);
    lemma_word_absent(l, "哪"@, 0); lemma_word_absent(l, "谁"@, 0); lemma_word_absent(l, "?"@, 0);
    lemma_word_absent(l, "？"@, 0); lemma_word_absent(l, "why"@, 0); lemma_word_absent(l, "how"@, 0);
    lemma_word_absent(l, "what"@, 0); lemma_word_absent(l, "which"@, 0); lemma_word_absent(l, "做"@, 0);
    lemma_word_absent(l, "运行"@, 0); lemma_word_absent(l, "执行"@, 0); lemma_word_absent(l, "开始"@, 0);
    lemma_word_absent(l, "停止"@, 0); lemma_word_absent(l, "请"@, 0); lemma_word_absent(l, "帮我"@, 0);
    lemma_word_absent(l, "do"@, 0); lemma_word_absent(l, "run"@, 1); lemma_word_absent(l, "start"@, 1);
    lemma_word_absent(l, "stop"@, 1); lemma_word_too_long(l, "please"@); lemma_word_absent(l, "谢谢"@, 0);
    lemma_word_absent(l, "感谢"@, 0); lemma_word_absent(l, "多谢"@, 0); lemma_word_too_long(l, "thanks"@);
    lemma_word_too_long(l, "thank you"@); lemma_word_absent(l, "对不起"@, 0); lemma_word_absent(l, "抱歉"@, 0);
    lemma_word_absent(l, "不好意思"@, 0); lemma_word_at(l, "sorry"@, 0); lemma_word_too_long(l, "apologize"@);
    lemma_word_absent(l, "我是"@, 0); lemma_word_absent(l, "我叫"@, 0); lemma_word_absent(l, "我呢"@, 0);
    lemma_word_too_long(l, "my name is"@); lemma_word_absent(l, "i am"@, 0); lemma_word_absent(l, "现在"@, 0);
    lemma_word_absent(l, "几点"@, 0); lemma_word_absent(l, "今天"@, 0); lemma_word_absent(l, "星期"@, 0);
    lemma_word_absent(l, "日期"@, 0); lemma_word_absent(l, "now"@, 0); lemma_word_absent(l, "time"@, 0);
    lemma_word_absent(l, "today"@, 0); lemma_word_absent(l, "date"@, 0);
    let table = intent_table();
    lemma_scores(l);
    assert(intent_score(l, table, 0) == 0 && intent_score(l, table, 1) == 0 && intent_score(l, table, 2) == 0 && intent_score(l, table, 3) == 0 && intent_score(l, table, 4) == 1 && intent_score(l, table, 5) == 0 && intent_score(l, table, 6) == 0);
    let k = choose|k: int| best_entry(l, table, k) && r.intent == table[k].0 && r.intent_score == intent_score(l, table, k);
    if k == 0 {} else if k == 1 {} else if k == 2 {} else if k == 3 {} else if k == 4 {} else if k == 5 {} else {}
}

/// "apologize" alone: Apology, with 1 hit.
proof fn lemma_alone_41(t: Seq<char>, r: NluResult)
    requires
        understood(r, t, intent_table(), positive_lexicon(), negative_lexicon()),
        lowercase(t) == "apologize"@,
    ensures
        r.intent == Intent::Apology,
        r.intent_score == 1,
{
    reveal(intent_table);
    reveal_with_fuel(hits_upto, 13);
    reveal_strlit("你好"); reveal_strlit("hello"); reveal_strlit("hi"); reveal_strlit("嗨"); reveal_strlit("您好");
    reveal_strlit("早上好"); reveal_strlit("下午好"); reveal_strlit("晚上好"); reveal_strlit("什么");
    reveal_strlit("怎么"); reveal_strlit("为什么"); reveal_strlit("如何"); reveal_strlit("哪"); reveal_strlit("谁");
    reveal_strlit("?"); reveal_strlit("？"); reveal_strlit("why"); reveal_strlit("how"); reveal_strlit("what");
    reveal_strlit("which"); reveal_strlit("做"); reveal_strlit("运行"); reveal_strlit("执行"); reveal_strlit("开始");
    reveal_strlit("停止"); reveal_strlit("请"); reveal_strlit("帮我"); reveal_strlit("do"); reveal_strlit("run");
    reveal_strlit("start"); reveal_strlit("stop"); reveal_strlit("please"); reveal_strlit("谢谢");
    reveal_strlit("感谢"); reveal_strlit("多谢"); reveal_strlit("thanks"); reveal_strlit("thank you");
    reveal_strlit("对不起"); reveal_strlit("抱歉"); reveal_strlit("不好意思"); reveal_strlit("sorry");
    reveal_strlit("apologize"); reveal_strlit("我是"); reveal_strlit("我叫"); reveal_strlit("我呢");
    reveal_strlit("my name is"); reveal_strlit("i am"); reveal_strlit("现在"); reveal_strlit("几点");
    reveal_strlit("今天"); reveal_strlit("星期"); reveal_strlit("日期"); reveal_strlit("now");
    reveal_strlit("time"); reveal_strlit("today"); reveal_strlit("date");
    let l = "apologize"@;
    assert forall|i: int| 0 <= i < l.len() implies l[i] == 'a' || l[i] == 'e' || l[i] == 'g' || l[i] == 'i' || l[i] == 'l' || l[i] == 'o' || l[i] == 'p' || l[i] == 'z' by {
        if i == 0 {} else if i == 1 {} else if i == 2 {} else if i == 3 {} else if i == 4 {} else if i == 5 {} else if i == 6 {} else if i == 7 {} else if i == 8 {}
    }
    lemma_word_absent(l, "你好"@, 0); lemma_word_absent(l, "hello"@, 0); lemma_word_absent(l, "hi"@, 0);
    lemma_word_absent(l, "嗨"@, 0); lemma_word_absent(l, "您好"@, 0); lemma_word_absent(l, "早上好"@, 0);
    lemma_word_absent(l, "下午好"@, 0); lemma_word_absent(l, "晚上好"@, 0); lemma_word_absent(l, "什么"@, 0);
    lemma_word_absent(l, "怎么"@, 0); lemma_word_absent(l, "为什么"@, 0); lemma_word_absent(l, "如何"@, 0);
    lemma_word_absent(l, "哪"@, 0); lemma_word_absent(l, "谁"@, 0); lemma_word_absent(l, "?"@, 0);
    lemma_word_absent(l, "？"@, 0); lemma_word_absent(l, "why"@, 0); lemma_word_absent(l, "how"@, 0);
    lemma_word_absent(l, "what"@, 0); lemma_word_absent(l, "which"@, 0); lemma_word_absent(l, "做"@, 0);
    lemma_word_absent(l, "运行"@, 0); lemma_word_absent(l, "执行"@, 0); lemma_word_absent(l, "开始"@, 0);
    lemma_word_absent(l, "停止"@, 0); lemma_word_absent(l, "请"@, 0); lemma_word_absent(l, "帮我"@, 0);
    lemma_word_absent(l, "do"@, 0); lemma_word_absent(l, "run"@, 0); lemma_word_absent(l, "start"@, 0);
    lemma_word_absent(l, "stop"@, 0); lemma_word_absent(l, "please"@, 4); lemma_word_absent(l, "谢谢"@, 0);
    lemma_word_absent(l, "感谢"@, 0); lemma_word_absent(l, "多谢"@, 0); lemma_word_absent(l, "thanks"@, 0);
    lemma_word_absent(l, "thank you"@, 0); lemma_word_absent(l, "对不起"@, 0); lemma_word_absent(l, "抱歉"@, 0);
    lemma_word_absent(l, "不好意思"@, 0); lemma_word_absent(l, "sorry"@, 0); lemma_word_at(l, "apologize"@, 0);
    lemma_word_absent(l, "我是"@, 0); lemma_word_absent(l, "我叫"@, 0); lemma_word_absent(l, "我呢"@, 0);
    lemma_word_too_long(l, "my name is"@); lemma_word_absent(l, "i am"@, 1); lemma_word_absent(l, "现在"@, 0);
    lemma_word_absent(l, "几点"@, 0); lemma_word_absent(l, "今天"@, 0); lemma_word_absent(l, "星期"@, 0);
    lemma_word_absent(l, "日期"@, 0); lemma_word_absent(l, "now"@, 0); lemma_word_absent(l, "time"@, 0);
    lemma_word_absent(l, "today"@, 0); lemma_word_absent(l, "date"@, 0);
    let table = intent_table();
    lemma_scores(l);
    assert(intent_score(l, table, 0) == 0 && intent_score(l, table, 1) == 0 && intent_score(l, table, 2) == 0 && intent_score(l, table, 3) == 0 && intent_score(l, table, 4) == 1 && intent_score(l, table, 5) == 0 && intent_score(l, table, 6) == 0);
    let k = choose|k: int| best_entry(l, table, k) && r.intent == table[k].0 && r.intent_score == intent_score(l, table, k);
    if k == 0 {} else if k == 1 {} else if k == 2 {} else if k == 3 {} else if k == 4 {} else if k == 5 {} else {}
}

/// "我是" alone: SelfIntro, with 1 hit.
proof fn lemma_alone_42(t: Seq<char>, r: NluResult)
    requires
        understood(r, t, intent_table(), positive_lexicon(), negative_lexicon()),
        lowercase(t) == "我是"@,
    ensures
        r.intent == Intent::SelfIntro,
        r.intent_score == 1,
{
    reveal(intent_table);
    reveal_with_fuel(hits_upto, 13);
    reveal_strlit("你好"); reveal_strlit("hello"); reveal_strlit("hi"); reveal_strlit("嗨"); reveal_strlit("您好");
    reveal_strlit("早上好"); reveal_strlit("下午好"); reveal_strlit("晚上好"); reveal_strlit("什么");
    reveal_strlit("怎么"); reveal_strlit("为什么"); reveal_strlit("如何"); reveal_strlit("哪"); reveal_strlit("谁");
    reveal_strlit("?"); reveal_strlit("？"); reveal_strlit("why"); reveal_strlit("how"); reveal_strlit("what");
    reveal_strlit("which"); reveal_strlit("做"); reveal_strlit("运行"); reveal_strlit("执行"); reveal_strlit("开始");
    reveal_strlit("停止"); reveal_strlit("请"); reveal_strlit("帮我"); reveal_strlit("do"); reveal_strlit("run");
    reveal_strlit("start"); reveal_strlit("stop"); reveal_strlit("please"); reveal_strlit("谢谢");
    reveal_strlit("感谢"); reveal_strlit("多谢"); reveal_strlit("thanks"); reveal_strlit("thank you");
    reveal_strlit("对不起"); reveal_strlit("抱歉"); reveal_strlit("不好意思"); reveal_strlit("sorry");
    reveal_strlit("apologize"); reveal_strlit("我是"); reveal_strlit("我叫"); reveal_strlit("我呢");
    reveal_strlit("my name is"); reveal_strlit("i am"); reveal_strlit("现在"); reveal_strlit("几点");
    reveal_strlit("今天"); reveal_strlit("星期"); reveal_strlit("日期"); reveal_strlit("now");
    reveal_strlit("time"); reveal_strlit("today"); reveal_strlit("date");
    let l = "我是"@;
    assert forall|i: int| 0 <= i < l.len() implies l[i] == '我' || l[i] == '是' by {
        if i == 0 {} else if i == 1 {}
    }
    lemma_word_absent(l, "你好"@, 0); lemma_word_too_long(l, "hello"@); lemma_word_absent(l, "hi"@, 0);
    lemma_word_absent(l, "嗨"@, 0); lemma_word_absent(l, "您好"@, 0); lemma_word_too_long(l, "早上好"@);
    lemma_word_too_long(l, "下午好"@); lemma_word_too_long(l, "晚上好"@); lemma_word_absent(l, "什么"@, 0);
    lemma_word_absent(l, "怎么"@, 0); lemma_word_too_long(l, "为什么"@); lemma_word_absent(l, "如何"@, 0);
    lemma_word_absent(l, "哪"@, 0); lemma_word_absent(l, "谁"@, 0); lemma_word_absent(l, "?"@, 0);
    lemma_word_absent(l, "？"@, 0); lemma_word_too_long(l, "why"@); lemma_word_too_long(l, "how"@);
    lemma_word_too_long(l, "what"@); lemma_word_too_long(l, "which"@); lemma_word_absent(l, "做"@, 0);
    lemma_word_absent(l, "运行"@, 0); lemma_word_absent(l, "执行"@, 0); lemma_word_absent(l, "开始"@, 0);
    lemma_word_absent(l, "停止"@, 0); lemma_word_absent(l, "请"@, 0); lemma_word_absent(l, "帮我"@, 0);
    lemma_word_absent(l, "do"@, 0); lemma_word_too_long(l, "run"@); lemma_word_too_long(l, "start"@);
    lemma_word_too_long(l, "stop"@); lemma_word_too_long(l, "please"@); lemma_word_absent(l, "谢谢"@, 0);
    lemma_word_absent(l, "感谢"@, 0); lemma_word_absent(l, "多谢"@, 0); lemma_word_too_long(l, "thanks"@);
    lemma_word_too_long(l, "thank you"@); lemma_word_too_long(l, "对不起"@); lemma_word_absent(l, "抱歉"@, 0);
    lemma_word_too_long(l, "不好意思"@); lemma_word_too_long(l, "sorry"@); lemma_word_too_long(l, "apologize"@);
    lemma_word_at(l, "我是"@, 0); lemma_word_absent(l, "我叫"@, 1); lemma_word_absent(l, "我呢"@, 1);
    lemma_word_too_long(l, "my name is"@); lemma_word_too_long(l, "i am"@); lemma_word_absent(l, "现在"@, 0);
    lemma_word_absent(l, "几点"@, 0); lemma_word_absent(l, "今天"@, 0); lemma_word_absent(l, "星期"@, 0);
    lemma_word_absent(l, "日期"@, 0); lemma_word_too_long(l, "now"@); lemma_word_too_long(l, "time"@);
    lemma_word_too_long(l, "today"@); lemma_word_too_long(l, "date"@);
    let table = intent_table();
    lemma_scores(l);
    assert(intent_score(l, table, 0) == 0 && intent_score(l, table, 1) == 0 && intent_score(l, table, 2) == 0 && intent_score(l, table, 3) == 0 && intent_score(l, table, 4) == 0 && intent_score(l, table, 5) == 1 && intent_score(l, table, 6) == 0);
    let k = choose|k: int| best_entry(l, table, k) && r.intent == table[k].0 && r.intent_score == intent_score(l, table, k);
    if k == 0 {} else if k == 1 {} else if k == 2 {} else if k == 3 {} else if k == 4 {} else if k == 5 {} else {}
}

/// "我叫" alone: SelfIntro, with 1 hit.
proof fn lemma_alone_43(t: Seq<char>, r: NluResult)
    requires
        understood(r, t, intent_table(), positive_lexicon(), negative_lexicon()),
        lowercase(t) == "我叫"@,
    ensures
        r.intent == Intent::SelfIntro,
        r.intent_score == 1,
{
    reveal(intent_table);
    reveal_with_fuel(hits_upto, 13);
    reveal_strlit("你好"); reveal_strlit("hello"); reveal_strlit("hi"); reveal_strlit("嗨"); reveal_strlit("您好");
    reveal_strlit("早上好"); reveal_strlit("下午好"); reveal_strlit("晚上好"); reveal_strlit("什么");
    reveal_strlit("怎么"); reveal_strlit("为什么"); reveal_strlit("如何"); reveal_strlit("哪"); reveal_strlit("谁");
    reveal_strlit("?"); reveal_strlit("？"); reveal_strlit("why"); reveal_strlit("how"); reveal_strlit("what");
    reveal_strlit("which"); reveal_strlit("做"); reveal_strlit("运行"); reveal_strlit("执行"); reveal_strlit("开始");
    reveal_strlit("停止"); reveal_strlit("请"); reveal_strlit("帮我"); reveal_strlit("do"); reveal_strlit("run");
    reveal_strlit("start"); reveal_strlit("stop"); reveal_strlit("please"); reveal_strlit("谢谢");
    reveal_strlit("感谢"); reveal_strlit("多谢"); reveal_strlit("thanks"); reveal_strlit("thank you");
    reveal_strlit("对不起"); reveal_strlit("抱歉"); reveal_strlit("不好意思"); reveal_strlit("sorry");
    reveal_strlit("apologize"); reveal_strlit("我是"); reveal_strlit("我叫"); reveal_strlit("我呢");
    reveal_strlit("my name is"); reveal_strlit("i am"); reveal_strlit("现在"); reveal_strlit("几点");
    reveal_strlit("今天"); reveal_strlit("星期"); reveal_strlit("日期"); reveal_strlit("now");
    reveal_strlit("time"); reveal_strlit("today"); reveal_strlit("date");
    let l = "我叫"@;
    assert forall|i: int| 0 <= i < l.len() implies l[i] == '叫' || l[i] == '我' by {
        if i == 0 {} else if i == 1 {}
    }
    lemma_word_absent(l, "你好"@, 0); lemma_word_too_long(l, "hello"@); lemma_word_absent(l, "hi"@, 0);
    lemma_word_absent(l, "嗨"@, 0); lemma_word_absent(l, "您好"@, 0); lemma_word_too_long(l, "早上好"@);
    lemma_word_too_long(l, "下午好"@); lemma_word_too_long(l, "晚上好"@); lemma_word_absent(l, "什么"@, 0);
    lemma_word_absent(l, "怎么"@, 0); lemma_word_too_long(l, "为什么"@); lemma_word_absent(l, "如何"@, 0);
    lemma_word_absent(l, "哪"@, 0); lemma_word_absent(l, "谁"@, 0); lemma_word_absent(l, "?"@, 0);
    lemma_word_absent(l, "？"@, 0); lemma_word_too_long(l, "why"@); lemma_word_too_long(l, "how"@);
    lemma_word_too_long(l, "what"@); lemma_word_too_long(l, "which"@); lemma_word_absent(l, "做"@, 0);
    lemma_word_absent(l, "运行"@, 0); lemma_word_absent(l, "执行"@, 0); lemma_word_absent(l, "开始"@, 0);
    lemma_word_absent(l, "停止"@, 0); lemma_word_absent(l, "请"@, 0); lemma_word_absent(l, "帮我"@, 0);
    lemma_word_absent(l, "do"@, 0); lemma_word_too_long(l, "run"@); lemma_word_too_long(l, "start"@);
    lemma_word_too_long(l, "stop"@); lemma_word_too_long(l, "please"@); lemma_word_absent(l, "谢谢"@, 0);
    lemma_word_absent(l, "感谢"@, 0); lemma_word_absent(l, "多谢"@, 0); lemma_word_too_long(l, "thanks"@);
    lemma_word_too_long(l, "thank you"@); lemma_word_too_long(l, "对不起"@); lemma_word_absent(l, "抱歉"@, 0);
    lemma_word_too_long(l, "不好意思"@); lemma_word_too_long(l, "sorry"@); lemma_word_too_long(l, "apologize"@);
    lemma_word_absent(l, "我是"@, 1); lemma_word_at(l, "我叫"@, 0); lemma_word_absent(l, "我呢"@, 1);
    lemma_word_too_long(l, "my name is"@); lemma_word_too_long(l, "i am"@); lemma_word_absent(l, "现在"@, 0);
    lemma_word_absent(l, "几点"@, 0); lemma_word_absent(l, "今天"@, 0); lemma_word_absent(l, "星期"@, 0);
    lemma_word_absent(l, "日期"@, 0); lemma_word_too_long(l, "now"@); lemma_word_too_long(l, "time"@);
    lemma_word_too_long(l, "today"@); lemma_word_too_long(l, "date"@);
    let table = intent_table();
    lemma_scores(l);
    assert(intent_score(l, table, 0) == 0 && intent_score(l, table, 1) == 0 && intent_score(l, table, 2) == 0 && intent_score(l, table, 3) == 0 && intent_score(l, table, 4) == 0 && intent_score(l, table, 5) == 1 && intent_score(l, table, 6) == 0);
    let k = choose|k: int| best_entry(l, table, k) && r.intent == table[k].0 && r.intent_score == intent_score(l, table, k);
    if k == 0 {} else if k == 1 {} else if k == 2 {} else if k == 3 {} else if k == 4 {} else if k == 5 {} else {}
}

/// "我呢" alone: SelfIntro, with 1 hit.
proof fn lemma_alone_44(t: Seq<char>, r: NluResult)
    requires
        understood(r, t, intent_table(), positive_lexicon(), negative_lexicon()),
        lowercase(t) == "我呢"@,
    ensures
        r.intent == Intent::SelfIntro,
        r.intent_score == 1,
{
    reveal(intent_table);
    reveal_with_fuel(hits_upto, 13);
    reveal_strlit("你好"); reveal_strlit("hello"); reveal_strlit("hi"); reveal_strlit("嗨"); reveal_strlit("您好");
    reveal_strlit("早上好"); reveal_strlit("下午好"); reveal_strlit("晚上好"); reveal_strlit("什么");
    reveal_strlit("怎么"); reveal_strlit("为什么"); reveal_strlit("如何"); reveal_strlit("哪"); reveal_strlit("谁");
    reveal_strlit("?"); reveal_strlit("？"); reveal_strlit("why"); reveal_strlit("how"); reveal_strlit("what");
    reveal_strlit("which"); reveal_strlit("做"); reveal_strlit("运行"); reveal_strlit("执行"); reveal_strlit("开始");
    reveal_strlit("停止"); reveal_strlit("请"); reveal_strlit("帮我"); reveal_strlit("do"); reveal_strlit("run");
    reveal_strlit("start"); reveal_strlit("stop"); reveal_strlit("please"); reveal_strlit("谢谢");
    reveal_strlit("感谢"); reveal_strlit("多谢"); reveal_strlit("thanks"); reveal_strlit("thank you");
    reveal_strlit("对不起"); reveal_strlit("抱歉"); reveal_strlit("不好意思"); reveal_strlit("sorry");
    reveal_strlit("apologize"); reveal_strlit("我是"); reveal_strlit("我叫"); reveal_strlit("我呢");
    reveal_strlit("my name is"); reveal_strlit("i am"); reveal_strlit("现在"); reveal_strlit("几点");
    reveal_strlit("今天"); reveal_strlit("星期"); reveal_strlit("日期"); reveal_strlit("now");
    reveal_strlit("time"); reveal_strlit("today"); reveal_strlit("date");
    let l = "我呢"@;
    assert forall|i: int| 0 <= i < l.len() implies l[i] == '呢' || l[i] == '我' by {
        if i == 0 {} else if i == 1 {}
    }
    lemma_word_absent(l, "你好"@, 0); lemma_word_too_long(l, "hello"@); lemma_word_absent(l, "hi"@, 0);
    lemma_word_absent(l, "嗨"@, 0); lemma_word_absent(l, "您好"@, 0); lemma_word_too_long(l, "早上好"@);
    lemma_word_too_long(l, "下午好"@); lemma_word_too_long(l, "晚上好"@); lemma_word_absent(l, "什么"@, 0);
    lemma_word_absent(l, "怎么"@, 0); lemma_word_too_long(l, "为什么"@); lemma_word_absent(l, "如何"@, 0);
    lemma_word_absent(l, "哪"@, 0); lemma_word_absent(l, "谁"@, 0); lemma_word_absent(l, "?"@, 0);
    lemma_word_absent(l, "？"@, 0); lemma_word_too_long(l, "why"@); lemma_word_too_long(l, "how"@);
    lemma_word_too_long(l, "what"@); lemma_word_too_long(l, "which"@); lemma_word_absent(l, "做"@, 0);
    lemma_word_absent(l, "运行"@, 0); lemma_word_absent(l, "执行"@, 0); lemma_word_absent(l, "开始"@, 0);
    lemma_word_absent(l, "停止"@, 0); lemma_word_absent(l, "请"@, 0); lemma_word_absent(l, "帮我"@, 0);
    lemma_word_absent(l, "do"@, 0); lemma_word_too_long(l, "run"@); lemma_word_too_long(l, "start"@);
    lemma_word_too_long(l, "stop"@); lemma_word_too_long(l, "please"@); lemma_word_absent(l, "谢谢"@, 0);
    lemma_word_absent(l, "感谢"@, 0); lemma_word_absent(l, "多谢"@, 0); lemma_word_too_long(l, "thanks"@);
    lemma_word_too_long(l, "thank you"@); lemma_word_too_long(l, "对不起"@); lemma_word_absent(l, "抱歉"@, 0);
    lemma_word_too_long(l, "不好意思"@); lemma_word_too_long(l, "sorry"@); lemma_word_too_long(l, "apologize"@);
    lemma_word_absent(l, "我是"@, 1); lemma_word_absent(l, "我叫"@, 1); lemma_word_at(l, "我呢"@, 0);
    lemma_word_too_long(l, "my name is"@); lemma_word_too_long(l, "i am"@); lemma_word_absent(l, "现在"@, 0);
    lemma_word_absent(l, "几点"@, 0); lemma_word_absent(l, "今天"@, 0); lemma_word_absent(l, "星期"@, 0);
    lemma_word_absent(l, "日期"@, 0); lemma_word_too_long(l, "now"@); lemma_word_too_long(l, "time"@);
    lemma_word_too_long(l, "today"@); lemma_word_too_long(l, "date"@);
    let table = intent_table();
    lemma_scores(l);
    assert(intent_score(l, table, 0) == 0 && intent_score(l, table, 1) == 0 && intent_score(l, table, 2) == 0 && intent_score(l, table, 3) == 0 && intent_score(l, table, 4) == 0 && intent_score(l, table, 5) == 1 && intent_score(l, table, 6) == 0);
    let k = choose|k: int| best_entry(l, table, k) && r.intent == table[k].0 && r.intent_score == intent_score(l, table, k);
    if k == 0 {} else if k == 1 {} else if k == 2 {} else if k == 3 {} else if k == 4 {} else if k == 5 {} else {}
}

/// "my name is" alone: SelfIntro, with 1 hit.
proof fn lemma_alone_45(t: Seq<char>, r: NluResult)
    requires
        understood(r, t, intent_table(), positive_lexicon(), negative_lexicon()),
        lowercase(t) == "my name is"@,
    ensures
        r.intent == Intent::SelfIntro,
        r.intent_score == 1,
{
    reveal(intent_table);
    reveal_with_fuel(hits_upto, 13);
    reveal_strlit("你好"); reveal_strlit("hello"); reveal_strlit("hi"); reveal_strlit("嗨"); reveal_strlit("您好");
    reveal_strlit("早上好"); reveal_strlit("下午好"); reveal_strlit("晚上好"); reveal_strlit("什么");
    reveal_strlit("怎么"); reveal_strlit("为什么"); reveal_strlit("如何"); reveal_strlit("哪"); reveal_strlit("谁");
    reveal_strlit("?"); reveal_strlit("？"); reveal_strlit("why"); reveal_strlit("how"); reveal_strlit("what");
    reveal_strlit("which"); reveal_strlit("做"); reveal_strlit("运行"); reveal_strlit("执行"); reveal_strlit("开始");
    reveal_strlit("停止"); reveal_strlit("请"); reveal_strlit("帮我"); reveal_strlit("do"); reveal_strlit("run");
    reveal_strlit("start"); reveal_strlit("stop"); reveal_strlit("please"); reveal_strlit("谢谢");
    reveal_strlit("感谢"); reveal_strlit("多谢"); reveal_strlit("thanks"); reveal_strlit("thank you");
    reveal_strlit("对不起"); reveal_strlit("抱歉"); reveal_strlit("不好意思"); reveal_strlit("sorry");
    reveal_strlit("apologize"); reveal_strlit("我是"); reveal_strlit("我叫"); reveal_strlit("我呢");
    reveal_strlit("my name is"); reveal_strlit("i am"); reveal_strlit("现在"); reveal_strlit("几点");
    reveal_strlit("今天"); reveal_strlit("星期"); reveal_strlit("日期"); reveal_strlit("now");
    reveal_strlit("time"); reveal_strlit("today"); reveal_strlit("date");
    let l = "my name is"@;
    assert forall|i: int| 0 <= i < l.len() implies l[i] == ' ' || l[i] == 'a' || l[i] == 'e' || l[i] == 'i' || l[i] == 'm' || l[i] == 'n' || l[i] == 's' || l[i] == 'y' by {
        if i == 0 {} else if i == 1 {} else if i == 2 {} else if i == 3 {} else if i == 4 {} else if i == 5 {} else if i == 6 {} else if i == 7 {} else if i == 8 {} else if i == 9 {}
    }
    lemma_word_absent(l, "你好"@, 0); lemma_word_absent(l, "hello"@, 0); lemma_word_absent(l, "hi"@, 0);
    lemma_word_absent(l, "嗨"@, 0); lemma_word_absent(l, "您好"@, 0); lemma_word_absent(l, "早上好"@, 0);
    lemma_word_absent(l, "下午好"@, 0); lemma_word_absent(l, "晚上好"@, 0); lemma_word_absent(l, "什么"@, 0);
    lemma_word_absent(l, "怎么"@, 0); lemma_word_absent(l, "为什么"@, 0); lemma_word_absent(l, "如何"@, 0);
    lemma_word_absent(l, "哪"@, 0); lemma_word_absent(l, "谁"@, 0); lemma_word_absent(l, "?"@, 0);
    lemma_word_absent(l, "？"@, 0); lemma_word_absent(l, "why"@, 0); lemma_word_absent(l, "how"@, 0);
    lemma_word_absent(l, "what"@, 0); lemma_word_absent(l, "which"@, 0); lemma_word_absent(l, "做"@, 0);
    lemma_word_absent(l, "运行"@, 0); lemma_word_absent(l, "执行"@, 0); lemma_word_absent(l, "开始"@, 0);
    lemma_word_absent(l, "停止"@, 0); lemma_word_absent(l, "请"@, 0); lemma_word_absent(l, "帮我"@, 0);
    lemma_word_absent(l, "do"@, 0); lemma_word_absent(l, "run"@, 0); lemma_word_absent(l, "start"@, 1);
    lemma_word_absent(l, "stop"@, 1); lemma_word_absent(l, "please"@, 0); lemma_word_absent(l, "谢谢"@, 0);
    lemma_word_absent(l, "感谢"@, 0); lemma_word_absent(l, "多谢"@, 0); lemma_word_absent(l, "thanks"@, 0);
    lemma_word_absent(l, "thank you"@, 0); lemma_word_absent(l, "对不起"@, 0); lemma_word_absent(l, "抱歉"@, 0);
    lemma_word_absent(l, "不好意思"@, 0); lemma_word_absent(l, "sorry"@, 1);
    lemma_word_absent(l, "apologize"@, 1); lemma_word_absent(l, "我是"@, 0); lemma_word_absent(l, "我叫"@, 0);
    lemma_word_absent(l, "我呢"@, 0); lemma_word_at(l, "my name is"@, 0); lemma_word_absent(l, "现在"@, 0);
    lemma_word_absent(l, "几点"@, 0); lemma_word_absent(l, "今天"@, 0); lemma_word_absent(l, "星期"@, 0);
    lemma_word_absent(l, "日期"@, 0); lemma_word_absent(l, "now"@, 1); lemma_word_absent(l, "time"@, 0);
    lemma_word_absent(l, "today"@, 0); lemma_word_absent(l, "date"@, 0);
    assert(!seq_contains(l, "i am"@)) by {
        let w = "i am"@;
        if seq_contains(l, w) {
            let i = choose|i: int| occurs_at(l, w, i);
            if i == 0 { assert(l.subrange(i, i + w.len())[0] == w[0]); } else if i == 1 { assert(l.subrange(i, i + w.len())[0] == w[0]); } else if i == 2 { assert(l.subrange(i, i + w.len())[0] == w[0]); } else if i == 3 { assert(l.subrange(i, i + w.len())[0] == w[0]); } else if i == 4 { assert(l.subrange(i, i + w.len())[0] == w[0]); } else if i == 5 { assert(l.subrange(i, i + w.len())[0] == w[0]); } else if i == 6 { assert(l.subrange(i, i + w.len())[0] == w[0]); }
        }
    }
    let table = intent_table();
    lemma_scores(l);
    assert(intent_score(l, table, 0) == 0 && intent_score(l, table, 1) == 0 && intent_score(l, table, 2) == 0 && intent_score(l, table, 3) == 0 && intent_score(l, table, 4) == 0 && intent_score(l, table, 5) == 1 && intent_score(l, table, 6) == 0);
    let k = choose|k: int| best_entry(l, table, k) && r.intent == table[k].0 && r.intent_score == intent_score(l, table, k);
    if k == 0 {} else if k == 1 {} else if k == 2 {} else if k == 3 {} else if k == 4 {} else if k == 5 {} else {}
}

/// "i am" alone: SelfIntro, with 1 hit.
proof fn lemma_alone_46(t: Seq<char>, r: NluResult)
    requires
        understood(r, t, intent_table(), positive_lexicon(), negative_lexicon()),
        lowercase(t) == "i am"@,
    ensures
        r.intent == Intent::SelfIntro,
        r.intent_score == 1,
{
    reveal(intent_table);
    reveal_with_fuel(hits_upto, 13);
    reveal_strlit("你好"); reveal_strlit("hello"); reveal_strlit("hi"); reveal_strlit("嗨"); reveal_strlit("您好");
    reveal_strlit("早上好"); reveal_strlit("下午好"); reveal_strlit("晚上好"); reveal_strlit("什么");
    reveal_strlit("怎么"); reveal_strlit("为什么"); reveal_strlit("如何"); reveal_strlit("哪"); reveal_strlit("谁");
    reveal_strlit("?"); reveal_strlit("？"); reveal_strlit("why"); reveal_strlit("how"); reveal_strlit("what");
    reveal_strlit("which"); reveal_strlit("做"); reveal_strlit("运行"); reveal_strlit("执行"); reveal_strlit("开始");
    reveal_strlit("停止"); reveal_strlit("请"); reveal_strlit("帮我"); reveal_strlit("do"); reveal_strlit("run");
    reveal_strlit("start"); reveal_strlit("stop"); reveal_strlit("please"); reveal_strlit("谢谢");
    reveal_strlit("感谢"); reveal_strlit("多谢"); reveal_strlit("thanks"); reveal_strlit("thank you");
    reveal_strlit("对不起"); reveal_strlit("抱歉"); reveal_strlit("不好意思"); reveal_strlit("sorry");
    reveal_strlit("apologize"); reveal_strlit("我是"); reveal_strlit("我叫"); reveal_strlit("我呢");
    reveal_strlit("my name is"); reveal_strlit("i am"); reveal_strlit("现在"); reveal_strlit("几点");
    reveal_strlit("今天"); reveal_strlit("星期"); reveal_strlit("日期"); reveal_strlit("now");
    reveal_strlit("time"); reveal_strlit("today"); reveal_strlit("date");
    let l = "i am"@;
    assert forall|i: int| 0 <= i < l.len() implies l[i] == ' ' || l[i] == 'a' || l[i] == 'i' || l[i] == 'm' by {
        if i == 0 {} else if i == 1 {} else if i == 2 {} else if i == 3 {}
    }
    lemma_word_absent(l, "你好"@, 0); lemma_word_too_long(l, "hello"@); lemma_word_absent(l, "hi"@, 0);
    lemma_word_absent(l, "嗨"@, 0); lemma_word_absent(l, "您好"@, 0); lemma_word_absent(l, "早上好"@, 0);
    lemma_word_absent(l, "下午好"@, 0); lemma_word_absent(l, "晚上好"@, 0); lemma_word_absent(l, "什么"@, 0);
    lemma_word_absent(l, "怎么"@, 0); lemma_word_absent(l, "为什么"@, 0); lemma_word_absent(l, "如何"@, 0);
    lemma_word_absent(l, "哪"@, 0); lemma_word_absent(l, "谁"@, 0); lemma_word_absent(l, "?"@, 0);
    lemma_word_absent(l, "？"@, 0); lemma_word_absent(l, "why"@, 0); lemma_word_absent(l, "how"@, 0);
    lemma_word_absent(l, "what"@, 0); lemma_word_too_long(l, "which"@); lemma_word_absent(l, "做"@, 0);
    lemma_word_absent(l, "运行"@, 0); lemma_word_absent(l, "执行"@, 0); lemma_word_absent(l, "开始"@, 0);
    lemma_word_absent(l, "停止"@, 0); lemma_word_absent(l, "请"@, 0); lemma_word_absent(l, "帮我"@, 0);
    lemma_word_absent(l, "do"@, 0); lemma_word_absent(l, "run"@, 0); lemma_word_too_long(l, "start"@);
    lemma_word_absent(l, "stop"@, 0); lemma_word_too_long(l, "please"@); lemma_word_absent(l, "谢谢"@, 0);
    lemma_word_absent(l, "感谢"@, 0); lemma_word_absent(l, "多谢"@, 0); lemma_word_too_long(l, "thanks"@);
    lemma_word_too_long(l, "thank you"@); lemma_word_absent(l, "对不起"@, 0); lemma_word_absent(l, "抱歉"@, 0);
    lemma_word_absent(l, "不好意思"@, 0); lemma_word_too_long(l, "sorry"@); lemma_word_too_long(l, "apologize"@);
    lemma_word_absent(l, "我是"@, 0); lemma_word_absent(l, "我叫"@, 0); lemma_word_absent(l, "我呢"@, 0);
    lemma_word_too_long(l, "my name is"@); lemma_word_at(l, "i am"@, 0); lemma_word_absent(l, "现在"@, 0);
    lemma_word_absent(l, "几点"@, 0); lemma_word_absent(l, "今天"@, 0); lemma_word_absent(l, "星期"@, 0);
    lemma_word_absent(l, "日期"@, 0); lemma_word_absent(l, "now"@, 0); lemma_word_absent(l, "time"@, 0);
    lemma_word_too_long(l, "today"@); lemma_word_absent(l, "date"@, 0);
    let table = intent_table();
    lemma_scores(l);
    assert(intent_score(l, table, 0) == 0 && intent_score(l, table, 1) == 0 && intent_score(l, table, 2) == 0 && intent_score(l, table, 3) == 0 && intent_score(l, table, 4) == 0 && intent_score(l, table, 5) == 1 && intent_score(l, table, 6) == 0);
    let k = choose|k: int| best_entry(l, table, k) && r.intent == table[k].0 && r.intent_score == intent_score(l, table, k);
    if k == 0 {} else if k == 1 {} else if k == 2 {} else if k == 3 {} else if k == 4 {} else if k == 5 {} else {}
}

/// "现在" alone: AskState, with 1 hit.
proof fn lemma_alone_47(t: Seq<char>, r: NluResult)
    requires
        understood(r, t, intent_table(), positive_lexicon(), negative_lexicon()),
        lowercase(t) == "现在"@,
    ensures
        r.intent == Intent::AskState,
        r.intent_score == 1,
{
    reveal(intent_table);
    reveal_with_fuel(hits_upto, 13);
    reveal_strlit("你好"); reveal_strlit("hello"); reveal_strlit("hi"); reveal_strlit("嗨"); reveal_strlit("您好");
    reveal_strlit("早上好"); reveal_strlit("下午好"); reveal_strlit("晚上好"); reveal_strlit("什么");
    reveal_strlit("怎么"); reveal_strlit("为什么"); reveal_strlit("如何"); reveal_strlit("哪"); reveal_strlit("谁");
    reveal_strlit("?"); reveal_strlit("？"); reveal_strlit("why"); reveal_strlit("how"); reveal_strlit("what");
    reveal_strlit("which"); reveal_strlit("做"); reveal_strlit("运行"); reveal_strlit("执行"); reveal_strlit("开始");
    reveal_strlit("停止"); reveal_strlit("请"); reveal_strlit("帮我"); reveal_strlit("do"); reveal_strlit("run");
    reveal_strlit("start"); reveal_strlit("stop"); reveal_strlit("please"); reveal_strlit("谢谢");
    reveal_strlit("感谢"); reveal_strlit("多谢"); reveal_strlit("thanks"); reveal_strlit("thank you");
    reveal_strlit("对不起"); reveal_strlit("抱歉"); reveal_strlit("不好意思"); reveal_strlit("sorry");
    reveal_strlit("apologize"); reveal_strlit("我是"); reveal_strlit("我叫"); reveal_strlit("我呢");
    reveal_strlit("my name is"); reveal_strlit("i am"); reveal_strlit("现在"); reveal_strlit("几点");
    reveal_strlit("今天"); reveal_strlit("星期"); reveal_strlit("日期"); reveal_strlit("now");
    reveal_strlit("time"); reveal_strlit("today"); reveal_strlit("date");
    let l = "现在"@;
    assert forall|i: int| 0 <= i < l.len() implies l[i] == '在' || l[i] == '现' by {
        if i == 0 {} else if i == 1 {}
    }
    lemma_word_absent(l, "你好"@, 0); lemma_word_too_long(l, "hello"@); lemma_word_absent(l, "hi"@, 0);
    lemma_word_absent(l, "嗨"@, 0); lemma_word_absent(l, "您好"@, 0); lemma_word_too_long(l, "早上好"@);
    lemma_word_too_long(l, "下午好"@); lemma_word_too_long(l, "晚上好"@); lemma_word_absent(l, "什么"@, 0);
    lemma_word_absent(l, "怎么"@, 0); lemma_word_too_long(l, "为什么"@); lemma_word_absent(l, "如何"@, 0);
    lemma_word_absent(l, "哪"@, 0); lemma_word_absent(l, "谁"@, 0); lemma_word_absent(l, "?"@, 0);
    lemma_word_absent(l, "？"@, 0); lemma_word_too_long(l, "why"@); lemma_word_too_long(l, "how"@);
    lemma_word_too_long(l, "what"@); lemma_word_too_long(l, "which"@); lemma_word_absent(l, "做"@, 0);
    lemma_word_absent(l, "运行"@, 0); lemma_word_absent(l, "执行"@, 0); lemma_word_absent(l, "开始"@, 0);
    lemma_word_absent(l, "停止"@, 0); lemma_word_absent(l, "请"@, 0); lemma_word_absent(l, "帮我"@, 0);
    lemma_word_absent(l, "do"@, 0); lemma_word_too_long(l, "run"@); lemma_word_too_long(l, "start"@);
    lemma_word_too_long(l, "stop"@); lemma_word_too_long(l, "please"@); lemma_word_absent(l, "谢谢"@, 0);
    lemma_word_absent(l, "感谢"@, 0); lemma_word_absent(l, "多谢"@, 0); lemma_word_too_long(l, "thanks"@);
    lemma_word_too_long(l, "thank you"@); lemma_word_too_long(l, "对不起"@); lemma_word_absent(l, "抱歉"@, 0);
    lemma_word_too_long(l, "不好意思"@); lemma_word_too_long(l, "sorry"@); lemma_word_too_long(l, "apologize"@);
    lemma_word_absent(l, "我是"@, 0); lemma_word_absent(l, "我叫"@, 0); lemma_word_absent(l, "我呢"@, 0);
    lemma_word_too_long(l, "my name is"@); lemma_word_too_long(l, "i am"@); lemma_word_at(l, "现在"@, 0);
    lemma_word_absent(l, "几点"@, 0); lemma_word_absent(l, "今天"@, 0); lemma_word_absent(l, "星期"@, 0);
    lemma_word_absent(l, "日期"@, 0); lemma_word_too_long(l, "now"@); lemma_word_too_long(l, "time"@);
    lemma_word_too_long(l, "today"@); lemma_word_too_long(l, "date"@);
    let table = intent_table();
    lemma_scores(l);
    assert(intent_score(l, table, 0) == 0 && intent_score(l, table, 1) == 0 && intent_score(l, table, 2) == 0 && intent_score(l, table, 3) == 0 && intent_score(l, table, 4) == 0 && intent_score(l, table, 5) == 0 && intent_score(l, table, 6) == 1);
    let k = choose|k: int| best_entry(l, table, k) && r.intent == table[k].0 && r.intent_score == intent_score(l, table, k);
    if k == 0 {} else if k == 1 {} else if k == 2 {} else if k == 3 {} else if k == 4 {} else if k == 5 {} else {}
}

/// "几点" alone: AskState, with 1 hit.
proof fn lemma_alone_48(t: Seq<char>, r: NluResult)
    requires
        understood(r, t, intent_table(), positive_lexicon(), negative_lexicon()),
        lowercase(t) == "几点"@,
    ensures
        r.intent == Intent::AskState,
        r.intent_score == 1,
{
    reveal(intent_table);
    reveal_with_fuel(hits_upto, 13);
    reveal_strlit("你好"); reveal_strlit("hello"); reveal_strlit("hi"); reveal_strlit("嗨"); reveal_strlit("您好");
    reveal_strlit("早上好"); reveal_strlit("下午好"); reveal_strlit("晚上好"); reveal_strlit("什么");
    reveal_strlit("怎么"); reveal_strlit("为什么"); reveal_strlit("如何"); reveal_strlit("哪"); reveal_strlit("谁");
    reveal_strlit("?"); reveal_strlit("？"); reveal_strlit("why"); reveal_strlit("how"); reveal_strlit("what");
    reveal_strlit("which"); reveal_strlit("做"); reveal_strlit("运行"); reveal_strlit("执行"); reveal_strlit("开始");
    reveal_strlit("停止"); reveal_strlit("请"); reveal_strlit("帮我"); reveal_strlit("do"); reveal_strlit("run");
    reveal_strlit("start"); reveal_strlit("stop"); reveal_strlit("please"); reveal_strlit("谢谢");
    reveal_strlit("感谢"); reveal_strlit("多谢"); reveal_strlit("thanks"); reveal_strlit("thank you");
    reveal_strlit("对不起"); reveal_strlit("抱歉"); reveal_strlit("不好意思"); reveal_strlit("sorry");
    reveal_strlit("apologize"); reveal_strlit("我是"); reveal_strlit("我叫"); reveal_strlit("我呢");
    reveal_strlit("my name is"); reveal_strlit("i am"); reveal_strlit("现在"); reveal_strlit("几点");
    reveal_strlit("今天"); reveal_strlit("星期"); reveal_strlit("日期"); reveal_strlit("now");
    reveal_strlit("time"); reveal_strlit("today"); reveal_strlit("date");
    let l = "几点"@;
    assert forall|i: int| 0 <= i < l.len() implies l[i] == '几' || l[i] == '点' by {
        if i == 0 {} else if i == 1 {}
    }
    lemma_word_absent(l, "你好"@, 0); lemma_word_too_long(l, "hello"@); lemma_word_absent(l, "hi"@, 0);
    lemma_word_absent(l, "嗨"@, 0); lemma_word_absent(l, "您好"@, 0); lemma_word_too_long(l, "早上好"@);
    lemma_word_too_long(l, "下午好"@); lemma_word_too_long(l, "晚上好"@); lemma_word_absent(l, "什么"@, 0);
    lemma_word_absent(l, "怎么"@, 0); lemma_word_too_long(l, "为什么"@); lemma_word_absent(l, "如何"@, 0);
    lemma_word_absent(l, "哪"@, 0); lemma_word_absent(l, "谁"@, 0); lemma_word_absent(l, "?"@, 0);
    lemma_word_absent(l, "？"@, 0); lemma_word_too_long(l, "why"@); lemma_word_too_long(l, "how"@);
    lemma_word_too_long(l, "what"@); lemma_word_too_long(l, "which"@); lemma_word_absent(l, "做"@, 0);
    lemma_word_absent(l, "运行"@, 0); lemma_word_absent(l, "执行"@, 0); lemma_word_absent(l, "开始"@, 0);
    lemma_word_absent(l, "停止"@, 0); lemma_word_absent(l, "请"@, 0); lemma_word_absent(l, "帮我"@, 0);
    lemma_word_absent(l, "do"@, 0); lemma_word_too_long(l, "run"@); lemma_word_too_long(l, "start"@);
    lemma_word_too_long(l, "stop"@); lemma_word_too_long(l, "please"@); lemma_word_absent(l, "谢谢"@, 0);
    lemma_word_absent(l, "感谢"@, 0); lemma_word_absent(l, "多谢"@, 0); lemma_word_too_long(l, "thanks"@);
    lemma_word_too_long(l, "thank you"@); lemma_word_too_long(l, "对不起"@); lemma_word_absent(l, "抱歉"@, 0);
    lemma_word_too_long(l, "不好意思"@); lemma_word_too_long(l, "sorry"@); lemma_word_too_long(l, "apologize"@);
    lemma_word_absent(l, "我是"@, 0); lemma_word_absent(l, "我叫"@, 0); lemma_word_absent(l, "我呢"@, 0);
    lemma_word_too_long(l, "my name is"@); lemma_word_too_long(l, "i am"@); lemma_word_absent(l, "现在"@, 0);
    lemma_word_at(l, "几点"@, 0); lemma_word_absent(l, "今天"@, 0); lemma_word_absent(l, "星期"@, 0);
    lemma_word_absent(l, "日期"@, 0); lemma_word_too_long(l, "now"@); lemma_word_too_long(l, "time"@);
    lemma_word_too_long(l, "today"@); lemma_word_too_long(l, "date"@);
    let table = intent_table();
    lemma_scores(l);
    assert(intent_score(l, table, 0) == 0 && intent_score(l, table, 1) == 0 && intent_score(l, table, 2) == 0 && intent_score(l, table, 3) == 0 && intent_score(l, table, 4) == 0 && intent_score(l, table, 5) == 0 && intent_score(l, table, 6) == 1);
    let k = choose|k: int| best_entry(l, table, k) && r.intent == table[k].0 && r.intent_score == intent_score(l, table, k);
    if k == 0 {} else if k == 1 {} else if k == 2 {} else if k == 3 {} else if k == 4 {} else if k == 5 {} else {}
}

/// "今天" alone: AskState, with 1 hit.
proof fn lemma_alone_49(t: Seq<char>, r: NluResult)
    requires
        understood(r, t, intent_table(), positive_lexicon(), negative_lexicon()),
        lowercase(t) == "今天"@,
    ensures
        r.intent == Intent::AskState,
        r.intent_score == 1,
{
    reveal(intent_table);
    reveal_with_fuel(hits_upto, 13);
    reveal_strlit("你好"); reveal_strlit("hello"); reveal_strlit("hi"); reveal_strlit("嗨"); reveal_strlit("您好");
    reveal_strlit("早上好"); reveal_strlit("下午好"); reveal_strlit("晚上好"); reveal_strlit("什么");
    reveal_strlit("怎么"); reveal_strlit("为什么"); reveal_strlit("如何"); reveal_strlit("哪"); reveal_strlit("谁");
    reveal_strlit("?"); reveal_strlit("？"); reveal_strlit("why"); reveal_strlit("how"); reveal_strlit("what");
    reveal_strlit("which"); reveal_strlit("做"); reveal_strlit("运行"); reveal_strlit("执行"); reveal_strlit("开始");
    reveal_strlit("停止"); reveal_strlit("请"); reveal_strlit("帮我"); reveal_strlit("do"); reveal_strlit("run");
    reveal_strlit("start"); reveal_strlit("stop"); reveal_strlit("please"); reveal_strlit("谢谢");
    reveal_strlit("感谢"); reveal_strlit("多谢"); reveal_strlit("thanks"); reveal_strlit("thank you");
    reveal_strlit("对不起"); reveal_strlit("抱歉"); reveal_strlit("不好意思"); reveal_strlit("sorry");
    reveal_strlit("apologize"); reveal_strlit("我是"); reveal_strlit("我叫"); reveal_strlit("我呢");
    reveal_strlit("my name is"); reveal_strlit("i am"); reveal_strlit("现在"); reveal_strlit("几点");
    reveal_strlit("今天"); reveal_strlit("星期"); reveal_strlit("日期"); reveal_strlit("now");
    reveal_strlit("time"); reveal_strlit("today"); reveal_strlit("date");
    let l = "今天"@;
    assert forall|i: int| 0 <= i < l.len() implies l[i] == '今' || l[i] == '天' by {
        if i == 0 {} else if i == 1 {}
    }
    lemma_word_absent(l, "你好"@, 0); lemma_word_too_long(l, "hello"@); lemma_word_absent(l, "hi"@, 0);
    lemma_word_absent(l, "嗨"@, 0); lemma_word_absent(l, "您好"@, 0); lemma_word_too_long(l, "早上好"@);
    lemma_word_too_long(l, "下午好"@); lemma_word_too_long(l, "晚上好"@); lemma_word_absent(l, "什么"@, 0);
    lemma_word_absent(l, "怎么"@, 0); lemma_word_too_long(l, "为什么"@); lemma_word_absent(l, "如何"@, 0);
    lemma_word_absent(l, "哪"@, 0); lemma_word_absent(l, "谁"@, 0); lemma_word_absent(l, "?"@, 0);
    lemma_word_absent(l, "？"@, 0); lemma_word_too_long(l, "why"@); lemma_word_too_long(l, "how"@);
    lemma_word_too_long(l, "what"@); lemma_word_too_long(l, "which"@); lemma_word_absent(l, "做"@, 0);
    lemma_word_absent(l, "运行"@, 0); lemma_word_absent(l, "执行"@, 0); lemma_word_absent(l, "开始"@, 0);
    lemma_word_absent(l, "停止"@, 0); lemma_word_absent(l, "请"@, 0); lemma_word_absent(l, "帮我"@, 0);
    lemma_word_absent(l, "do"@, 0); lemma_word_too_long(l, "run"@); lemma_word_too_long(l, "start"@);
    lemma_word_too_long(l, "stop"@); lemma_word_too_long(l, "please"@); lemma_word_absent(l, "谢谢"@, 0);
    lemma_word_absent(l, "感谢"@, 0); lemma_word_absent(l, "多谢"@, 0); lemma_word_too_long(l, "thanks"@);
    lemma_word_too_long(l, "thank you"@); lemma_word_too_long(l, "对不起"@); lemma_word_absent(l, "抱歉"@, 0);
    lemma_word_too_long(l, "不好意思"@); lemma_word_too_long(l, "sorry"@); lemma_word_too_long(l, "apologize"@);
    lemma_word_absent(l, "我是"@, 0); lemma_word_absent(l, "我叫"@, 0); lemma_word_absent(l, "我呢"@, 0);
    lemma_word_too_long(l, "my name is"@); lemma_word_too_long(l, "i am"@); lemma_word_absent(l, "现在"@, 0);
    lemma_word_absent(l, "几点"@, 0); lemma_word_at(l, "今天"@, 0); lemma_word_absent(l, "星期"@, 0);
    lemma_word_absent(l, "日期"@, 0); lemma_word_too_long(l, "now"@); lemma_word_too_long(l, "time"@);
    lemma_word_too_long(l, "today"@); lemma_word_too_long(l, "date"@);
    let table = intent_table();
    lemma_scores(l);
    assert(intent_score(l, table, 0) == 0 && intent_score(l, table, 1) == 0 && intent_score(l, table, 2) == 0 && intent_score(l, table, 3) == 0 && intent_score(l, table, 4) == 0 && intent_score(l, table, 5) == 0 && intent_score(l, table, 6) == 1);
    let k = choose|k: int| best_entry(l, table, k) && r.intent == table[k].0 && r.intent_score == intent_score(l, table, k);
    if k == 0 {} else if k == 1 {} else if k == 2 {} else if k == 3 {} else if k == 4 {} else if k == 5 {} else {}
}

/// "星期" alone: AskState, with 1 hit.
proof fn lemma_alone_50(t: Seq<char>, r: NluResult)
    requires
        understood(r, t, intent_table(), positive_lexicon(), negative_lexicon()),
        lowercase(t) == "星期"@,
    ensures
        r.intent == Intent::AskState,
        r.intent_score == 1,
{
    reveal(intent_table);
    reveal_with_fuel(hits_upto, 13);
    reveal_strlit("你好"); reveal_strlit("hello"); reveal_strlit("hi"); reveal_strlit("嗨"); reveal_strlit("您好");
    reveal_strlit("早上好"); reveal_strlit("下午好"); reveal_strlit("晚上好"); reveal_strlit("什么");
    reveal_strlit("怎么"); reveal_strlit("为什么"); reveal_strlit("如何"); reveal_strlit("哪"); reveal_strlit("谁");
    reveal_strlit("?"); reveal_strlit("？"); reveal_strlit("why"); reveal_strlit("how"); reveal_strlit("what");
    reveal_strlit("which"); reveal_strlit("做"); reveal_strlit("运行"); reveal_strlit("执行"); reveal_strlit("开始");
    reveal_strlit("停止"); reveal_strlit("请"); reveal_strlit("帮我"); reveal_strlit("do"); reveal_strlit("run");
    reveal_strlit("start"); reveal_strlit("stop"); reveal_strlit("please"); reveal_strlit("谢谢");
    reveal_strlit("感谢"); reveal_strlit("多谢"); reveal_strlit("thanks"); reveal_strlit("thank you");
    reveal_strlit("对不起"); reveal_strlit("抱歉"); reveal_strlit("不好意思"); reveal_strlit("sorry");
    reveal_strlit("apologize"); reveal_strlit("我是"); reveal_strlit("我叫"); reveal_strlit("我呢");
    reveal_strlit("my name is"); reveal_strlit("i am"); reveal_strlit("现在"); reveal_strlit("几点");
    reveal_strlit("今天"); reveal_strlit("星期"); reveal_strlit("日期"); reveal_strlit("now");
    reveal_strlit("time"); reveal_strlit("today"); reveal_strlit("date");
    let l = "星期"@;
    assert forall|i: int| 0 <= i < l.len() implies l[i] == '星' || l[i] == '期' by {
        if i == 0 {} else if i == 1 {}
    }
    lemma_word_absent(l, "你好"@, 0); lemma_word_too_long(l, "hello"@); lemma_word_absent(l, "hi"@, 0);
    lemma_word_absent(l, "嗨"@, 0); lemma_word_absent(l, "您好"@, 0); lemma_word_too_long(l, "早上好"@);
    lemma_word_too_long(l, "下午好"@); lemma_word_too_long(l, "晚上好"@); lemma_word_absent(l, "什么"@, 0);
    lemma_word_absent(l, "怎么"@, 0); lemma_word_too_long(l, "为什么"@); lemma_word_absent(l, "如何"@, 0);
    lemma_word_absent(l, "哪"@, 0); lemma_word_absent(l, "谁"@, 0); lemma_word_absent(l, "?"@, 0);
    lemma_word_absent(l, "？"@, 0); lemma_word_too_long(l, "why"@); lemma_word_too_long(l, "how"@);
    lemma_word_too_long(l, "what"@); lemma_word_too_long(l, "which"@); lemma_word_absent(l, "做"@, 0);
    lemma_word_absent(l, "运行"@, 0); lemma_word_absent(l, "执行"@, 0); lemma_word_absent(l, "开始"@, 0);
    lemma_word_absent(l, "停止"@, 0); lemma_word_absent(l, "请"@, 0); lemma_word_absent(l, "帮我"@, 0);
    lemma_word_absent(l, "do"@, 0); lemma_word_too_long(l, "run"@); lemma_word_too_long(l, "start"@);
    lemma_word_too_long(l, "stop"@); lemma_word_too_long(l, "please"@); lemma_word_absent(l, "谢谢"@, 0);
    lemma_word_absent(l, "感谢"@, 0); lemma_word_absent(l, "多谢"@, 0); lemma_word_too_long(l, "thanks"@);
    lemma_word_too_long(l, "thank you"@); lemma_word_too_long(l, "对不起"@); lemma_word_absent(l, "抱歉"@, 0);
    lemma_word_too_long(l, "不好意思"@); lemma_word_too_long(l, "sorry"@); lemma_word_too_long(l, "apologize"@);
    lemma_word_absent(l, "我是"@, 0); lemma_word_absent(l, "我叫"@, 0); lemma_word_absent(l, "我呢"@, 0);
    lemma_word_too_long(l, "my name is"@); lemma_word_too_long(l, "i am"@); lemma_word_absent(l, "现在"@, 0);
    lemma_word_absent(l, "几点"@, 0); lemma_word_absent(l, "今天"@, 0); lemma_word_at(l, "星期"@, 0);
    lemma_word_absent(l, "日期"@, 0); lemma_word_too_long(l, "now"@); lemma_word_too_long(l, "time"@);
    lemma_word_too_long(l, "today"@); lemma_word_too_long(l, "date"@);
    let table = intent_table();
    lemma_scores(l);
    assert(intent_score(l, table, 0) == 0 && intent_score(l, table, 1) == 0 && intent_score(l, table, 2) == 0 && intent_score(l, table, 3) == 0 && intent_score(l, table, 4) == 0 && intent_score(l, table, 5) == 0 && intent_score(l, table, 6) == 1);
    let k = choose|k: int| best_entry(l, table, k) && r.intent == table[k].0 && r.intent_score == intent_score(l, table, k);
    if k == 0 {} else if k == 1 {} else if k == 2 {} else if k == 3 {} else if k == 4 {} else if k == 5 {} else {}
}

/// "日期" alone: AskState, with 1 hit.
proof fn lemma_alone_51(t: Seq<char>, r: NluResult)
    requires
        understood(r, t, intent_table(), positive_lexicon(), negative_lexicon()),
        lowercase(t) == "日期"@,
    ensures
        r.intent == Intent::AskState,
        r.intent_score == 1,
{
    reveal(intent_table);
    reveal_with_fuel(hits_upto, 13);
    reveal_strlit("你好"); reveal_strlit("hello"); reveal_strlit("hi"); reveal_strlit("嗨"); reveal_strlit("您好");
    reveal_strlit("早上好"); reveal_strlit("下午好"); reveal_strlit("晚上好"); reveal_strlit("什么");
    reveal_strlit("怎么"); reveal_strlit("为什么"); reveal_strlit("如何"); reveal_strlit("哪"); reveal_strlit("谁");
    reveal_strlit("?"); reveal_strlit("？"); reveal_strlit("why"); reveal_strlit("how"); reveal_strlit("what");
    reveal_strlit("which"); reveal_strlit("做"); reveal_strlit("运行"); reveal_strlit("执行"); reveal_strlit("开始");
    reveal_strlit("停止"); reveal_strlit("请"); reveal_strlit("帮我"); reveal_strlit("do"); reveal_strlit("run");
    reveal_strlit("start"); reveal_strlit("stop"); reveal_strlit("please"); reveal_strlit("谢谢");
    reveal_strlit("感谢"); reveal_strlit("多谢"); reveal_strlit("thanks"); reveal_strlit("thank you");
    reveal_strlit("对不起"); reveal_strlit("抱歉"); reveal_strlit("不好意思"); reveal_strlit("sorry");
    reveal_strlit("apologize"); reveal_strlit("我是"); reveal_strlit("我叫"); reveal_strlit("我呢");
    reveal_strlit("my name is"); reveal_strlit("i am"); reveal_strlit("现在"); reveal_strlit("几点");
    reveal_strlit("今天"); reveal_strlit("星期"); reveal_strlit("日期"); reveal_strlit("now");
    reveal_strlit("time"); reveal_strlit("today"); reveal_strlit("date");
    let l = "日期"@;
    assert forall|i: int| 0 <= i < l.len() implies l[i] == '日' || l[i] == '期' by {
        if i == 0 {} else if i == 1 {}
    }
    lemma_word_absent(l, "你好"@, 0); lemma_word_too_long(l, "hello"@); lemma_word_absent(l, "hi"@, 0);
    lemma_word_absent(l, "嗨"@, 0); lemma_word_absent(l, "您好"@, 0); lemma_word_too_long(l, "早上好"@);
    lemma_word_too_long(l, "下午好"@); lemma_word_too_long(l, "晚上好"@); lemma_word_absent(l, "什么"@, 0);
    lemma_word_absent(l, "怎么"@, 0); lemma_word_too_long(l, "为什么"@); lemma_word_absent(l, "如何"@, 0);
    lemma_word_absent(l, "哪"@, 0); lemma_word_absent(l, "谁"@, 0); lemma_word_absent(l, "?"@, 0);
    lemma_word_absent(l, "？"@, 0); lemma_word_too_long(l, "why"@); lemma_word_too_long(l, "how"@);
    lemma_word_too_long(l, "what"@); lemma_word_too_long(l, "which"@); lemma_word_absent(l, "做"@, 0);
    lemma_word_absent(l, "运行"@, 0); lemma_word_absent(l, "执行"@, 0); lemma_word_absent(l, "开始"@, 0);
    lemma_word_absent(l, "停止"@, 0); lemma_word_absent(l, "请"@, 0); lemma_word_absent(l, "帮我"@, 0);
    lemma_word_absent(l, "do"@, 0); lemma_word_too_long(l, "run"@); lemma_word_too_long(l, "start"@);
    lemma_word_too_long(l, "stop"@); lemma_word_too_long(l, "please"@); lemma_word_absent(l, "谢谢"@, 0);
    lemma_word_absent(l, "感谢"@, 0); lemma_word_absent(l, "多谢"@, 0); lemma_word_too_long(l, "thanks"@);
    lemma_word_too_long(l, "thank you"@); lemma_word_too_long(l, "对不起"@); lemma_word_absent(l, "抱歉"@, 0);
    lemma_word_too_long(l, "不好意思"@); lemma_word_too_long(l, "sorry"@); lemma_word_too_long(l, "apologize"@);
    lemma_word_absent(l, "我是"@, 0); lemma_word_absent(l, "我叫"@, 0); lemma_word_absent(l, "我呢"@, 0);
    lemma_word_too_long(l, "my name is"@); lemma_word_too_long(l, "i am"@); lemma_word_absent(l, "现在"@, 0);
    lemma_word_absent(l, "几点"@, 0); lemma_word_absent(l, "今天"@, 0); lemma_word_absent(l, "星期"@, 0);
    lemma_word_at(l, "日期"@, 0); lemma_word_too_long(l, "now"@); lemma_word_too_long(l, "time"@);
    lemma_word_too_long(l, "today"@); lemma_word_too_long(l, "date"@);
    let table = intent_table();
    lemma_scores(l);
    assert(intent_score(l, table, 0) == 0 && intent_score(l, table, 1) == 0 && intent_score(l, table, 2) == 0 && intent_score(l, table, 3) == 0 && intent_score(l, table, 4) == 0 && intent_score(l, table, 5) == 0 && intent_score(l, table, 6) == 1);
    let k = choose|k: int| best_entry(l, table, k) && r.intent == table[k].0 && r.intent_score == intent_score(l, table, k);
    if k == 0 {} else if k == 1 {} else if k == 2 {} else if k == 3 {} else if k == 4 {} else if k == 5 {} else {}
}

/// "now" alone: AskState, with 1 hit.
proof fn lemma_alone_52(t: Seq<char>, r: NluResult)
    requires
        understood(r, t, intent_table(), positive_lexicon(), negative_lexicon()),
        lowercase(t) == "now"@,
    ensures
        r.intent == Intent::AskState,
        r.intent_score == 1,
{
    reveal(intent_table);
    reveal_with_fuel(hits_upto, 13);
    reveal_strlit("你好"); reveal_strlit("hello"); reveal_strlit("hi"); reveal_strlit("嗨"); reveal_strlit("您好");
    reveal_strlit("早上好"); reveal_strlit("下午好"); reveal_strlit("晚上好"); reveal_strlit("什么");
    reveal_strlit("怎么"); reveal_strlit("为什么"); reveal_strlit("如何"); reveal_strlit("哪"); reveal_strlit("谁");
    reveal_strlit("?"); reveal_strlit("？"); reveal_strlit("why"); reveal_strlit("how"); reveal_strlit("what");
    reveal_strlit("which"); reveal_strlit("做"); reveal_strlit("运行"); reveal_strlit("执行"); reveal_strlit("开始");
    reveal_strlit("停止"); reveal_strlit("请"); reveal_strlit("帮我"); reveal_strlit("do"); reveal_strlit("run");
    reveal_strlit("start"); reveal_strlit("stop"); reveal_strlit("please"); reveal_strlit("谢谢");
    reveal_strlit("感谢"); reveal_strlit("多谢"); reveal_strlit("thanks"); reveal_strlit("thank you");
    reveal_strlit("对不起"); reveal_strlit("抱歉"); reveal_strlit("不好意思"); reveal_strlit("sorry");
    reveal_strlit("apologize"); reveal_strlit("我是"); reveal_strlit("我叫"); reveal_strlit("我呢");
    reveal_strlit("my name is"); reveal_strlit("i am"); reveal_strlit("现在"); reveal_strlit("几点");
    reveal_strlit("今天"); reveal_strlit("星期"); reveal_strlit("日期"); reveal_strlit("now");
    reveal_strlit("time"); reveal_strlit("today"); reveal_strlit("date");
    let l = "now"@;
    assert forall|i: int| 0 <= i < l.len() implies l[i] == 'n' || l[i] == 'o' || l[i] == 'w' by {
        if i == 0 {} else if i == 1 {} else if i == 2 {}
    }
    lemma_word_absent(l, "你好"@, 0); lemma_word_too_long(l, "hello"@); lemma_word_absent(l, "hi"@, 0);
    lemma_word_absent(l, "嗨"@, 0); lemma_word_absent(l, "您好"@, 0); lemma_word_absent(l, "早上好"@, 0);
    lemma_word_absent(l, "下午好"@, 0); lemma_word_absent(l, "晚上好"@, 0); lemma_word_absent(l, "什么"@, 0);
    lemma_word_absent(l, "怎么"@, 0); lemma_word_absent(l, "为什么"@, 0); lemma_word_absent(l, "如何"@, 0);
    lemma_word_absent(l, "哪"@, 0); lemma_word_absent(l, "谁"@, 0); lemma_word_absent(l, "?"@, 0);
    lemma_word_absent(l, "？"@, 0); lemma_word_absent(l, "why"@, 1); lemma_word_absent(l, "how"@, 0);
    lemma_word_too_long(l, "what"@); lemma_word_too_long(l, "which"@); lemma_word_absent(l, "做"@, 0);
    lemma_word_absent(l, "运行"@, 0); lemma_word_absent(l, "执行"@, 0); lemma_word_absent(l, "开始"@, 0);
    lemma_word_absent(l, "停止"@, 0); lemma_word_absent(l, "请"@, 0); lemma_word_absent(l, "帮我"@, 0);
    lemma_word_absent(l, "do"@, 0); lemma_word_absent(l, "run"@, 0); lemma_word_too_long(l, "start"@);
    lemma_word_too_long(l, "stop"@); lemma_word_too_long(l, "please"@); lemma_word_absent(l, "谢谢"@, 0);
    lemma_word_absent(l, "感谢"@, 0); lemma_word_absent(l, "多谢"@, 0); lemma_word_too_long(l, "thanks"@);
    lemma_word_too_long(l, "thank you"@); lemma_word_absent(l, "对不起"@, 0); lemma_word_absent(l, "抱歉"@, 0);
    lemma_word_too_long(l, "不好意思"@); lemma_word_too_long(l, "sorry"@); lemma_word_too_long(l, "apologize"@);
    lemma_word_absent(l, "我是"@, 0); lemma_word_absent(l, "我叫"@, 0); lemma_word_absent(l, "我呢"@, 0);
    lemma_word_too_long(l, "my name is"@); lemma_word_too_long(l, "i am"@); lemma_word_absent(l, "现在"@, 0);
    lemma_word_absent(l, "几点"@, 0); lemma_word_absent(l, "今天"@, 0); lemma_word_absent(l, "星期"@, 0);
    lemma_word_absent(l, "日期"@, 0); lemma_word_at(l, "now"@, 0); lemma_word_too_long(l, "time"@);
    lemma_word_too_long(l, "today"@); lemma_word_too_long(l, "date"@);
    let table = intent_table();
    lemma_scores(l);
    assert(intent_score(l, table, 0) == 0 && intent_score(l, table, 1) == 0 && intent_score(l, table, 2) == 0 && intent_score(l, table, 3) == 0 && intent_score(l, table, 4) == 0 && intent_score(l, table, 5) == 0 && intent_score(l, table, 6) == 1);
    let k = choose|k: int| best_entry(l, table, k) && r.intent == table[k].0 && r.intent_score == intent_score(l, table, k);
    if k == 0 {} else if k == 1 {} else if k == 2 {} else if k == 3 {} else if k == 4 {} else if k == 5 {} else {}
}

/// "time" alone: AskState, with 1 hit.
proof fn lemma_alone_53(t: Seq<char>, r: NluResult)
    requires
        understood(r, t, intent_table(), positive_lexicon(), negative_lexicon()),
        lowercase(t) == "time"@,
    ensures
        r.intent == Intent::AskState,
        r.intent_score == 1,
{
    reveal(intent_table);
    reveal_with_fuel(hits_upto, 13);
    reveal_strlit("你好"); reveal_strlit("hello"); reveal_strlit("hi"); reveal_strlit("嗨"); reveal_strlit("您好");
    reveal_strlit("早上好"); reveal_strlit("下午好"); reveal_strlit("晚上好"); reveal_strlit("什么");
    reveal_strlit("怎么"); reveal_strlit("为什么"); reveal_strlit("如何"); reveal_strlit("哪"); reveal_strlit("谁");
    reveal_strlit("?"); reveal_strlit("？"); reveal_strlit("why"); reveal_strlit("how"); reveal_strlit("what");
    reveal_strlit("which"); reveal_strlit("做"); reveal_strlit("运行"); reveal_strlit("执行"); reveal_strlit("开始");
    reveal_strlit("停止"); reveal_strlit("请"); reveal_strlit("帮我"); reveal_strlit("do"); reveal_strlit("run");
    reveal_strlit("start"); reveal_strlit("stop"); reveal_strlit("please"); reveal_strlit("谢谢");
    reveal_strlit("感谢"); reveal_strlit("多谢"); reveal_strlit("thanks"); reveal_strlit("thank you");
    reveal_strlit("对不起"); reveal_strlit("抱歉"); reveal_strlit("不好意思"); reveal_strlit("sorry");
    reveal_strlit("apologize"); reveal_strlit("我是"); reveal_strlit("我叫"); reveal_strlit("我呢");
    reveal_strlit("my name is"); reveal_strlit("i am"); reveal_strlit("现在"); reveal_strlit("几点");
    reveal_strlit("今天"); reveal_strlit("星期"); reveal_strlit("日期"); reveal_strlit("now");
    reveal_strlit("time"); reveal_strlit("today"); reveal_strlit("date");
    let l = "time"@;
    assert forall|i: int| 0 <= i < l.len() implies l[i] == 'e' || l[i] == 'i' || l[i] == 'm' || l[i] == 't' by {
        if i == 0 {} else if i == 1 {} else if i == 2 {} else if i == 3 {}
    }
    lemma_word_absent(l, "你好"@, 0); lemma_word_too_long(l, "hello"@); lemma_word_absent(l, "hi"@, 0);
    lemma_word_absent(l, "嗨"@, 0); lemma_word_absent(l, "您好"@, 0); lemma_word_absent(l, "早上好"@, 0);
    lemma_word_absent(l, "下午好"@, 0); lemma_word_absent(l, "晚上好"@, 0); lemma_word_absent(l, "什么"@, 0);
    lemma_word_absent(l, "怎么"@, 0); lemma_word_absent(l, "为什么"@, 0); lemma_word_absent(l, "如何"@, 0);
    lemma_word_absent(l, "哪"@, 0); lemma_word_absent(l, "谁"@, 0); lemma_word_absent(l, "?"@, 0);
    lemma_word_absent(l, "？"@, 0); lemma_word_absent(l, "why"@, 0); lemma_word_absent(l, "how"@, 0);
    lemma_word_absent(l, "what"@, 0); lemma_word_too_long(l, "which"@); lemma_word_absent(l, "做"@, 0);
    lemma_word_absent(l, "运行"@, 0); lemma_word_absent(l, "执行"@, 0); lemma_word_absent(l, "开始"@, 0);
    lemma_word_absent(l, "停止"@, 0); lemma_word_absent(l, "请"@, 0); lemma_word_absent(l, "帮我"@, 0);
    lemma_word_absent(l, "do"@, 0); lemma_word_absent(l, "run"@, 0); lemma_word_too_long(l, "start"@);
    lemma_word_absent(l, "stop"@, 0); lemma_word_too_long(l, "please"@); lemma_word_absent(l, "谢谢"@, 0);
    lemma_word_absent(l, "感谢"@, 0); lemma_word_absent(l, "多谢"@, 0); lemma_word_too_long(l, "thanks"@);
    lemma_word_too_long(l, "thank you"@); lemma_word_absent(l, "对不起"@, 0); lemma_word_absent(l, "抱歉"@, 0);
    lemma_word_absent(l, "不好意思"@, 0); lemma_word_too_long(l, "sorry"@); lemma_word_too_long(l, "apologize"@);
    lemma_word_absent(l, "我是"@, 0); lemma_word_absent(l, "我叫"@, 0); lemma_word_absent(l, "我呢"@, 0);
    lemma_word_too_long(l, "my name is"@); lemma_word_absent(l, "i am"@, 1); lemma_word_absent(l, "现在"@, 0);
    lemma_word_absent(l, "几点"@, 0); lemma_word_absent(l, "今天"@, 0); lemma_word_absent(l, "星期"@, 0);
    lemma_word_absent(l, "日期"@, 0); lemma_word_absent(l, "now"@, 0); lemma_word_at(l, "time"@, 0);
    lemma_word_too_long(l, "today"@); lemma_word_absent(l, "date"@, 0);
    let table = intent_table();
    lemma_scores(l);
    assert(intent_score(l, table, 0) == 0 && intent_score(l, table, 1) == 0 && intent_score(l, table, 2) == 0 && intent_score(l, table, 3) == 0 && intent_score(l, table, 4) == 0 && intent_score(l, table, 5) == 0 && intent_score(l, table, 6) == 1);
    let k = choose|k: int| best_entry(l, table, k) && r.intent == table[k].0 && r.intent_score == intent_score(l, table, k);
    if k == 0 {} else if k == 1 {} else if k == 2 {} else if k == 3 {} else if k == 4 {} else if k == 5 {} else {}
}

/// "today" alone: AskState, with 1 hit.
proof fn lemma_alone_54(t: Seq<char>, r: NluResult)
    requires
        understood(r, t, intent_table(), positive_lexicon(), negative_lexicon()),
        lowercase(t) == "today"@,
    ensures
        r.intent == Intent::AskState,
        r.intent_score == 1,
{
    reveal(intent_table);
    reveal_with_fuel(hits_upto, 13);
    reveal_strlit("你好"); reveal_strlit("hello"); reveal_strlit("hi"); reveal_strlit("嗨"); reveal_strlit("您好");
    reveal_strlit("早上好"); reveal_strlit("下午好"); reveal_strlit("晚上好"); reveal_strlit("什么");
    reveal_strlit("怎么"); reveal_strlit("为什么"); reveal_strlit("如何"); reveal_strlit("哪"); reveal_strlit("谁");
    reveal_strlit("?"); reveal_strlit("？"); reveal_strlit("why"); reveal_strlit("how"); reveal_strlit("what");
    reveal_strlit("which"); reveal_strlit("做"); reveal_strlit("运行"); reveal_strlit("执行"); reveal_strlit("开始");
    reveal_strlit("停止"); reveal_strlit("请"); reveal_strlit("帮我"); reveal_strlit("do"); reveal_strlit("run");
    reveal_strlit("start"); reveal_strlit("stop"); reveal_strlit("please"); reveal_strlit("谢谢");
    reveal_strlit("感谢"); reveal_strlit("多谢"); reveal_strlit("thanks"); reveal_strlit("thank you");
    reveal_strlit("对不起"); reveal_strlit("抱歉"); reveal_strlit("不好意思"); reveal_strlit("sorry");
    reveal_strlit("apologize"); reveal_strlit("我是"); reveal_strlit("我叫"); reveal_strlit("我呢");
    reveal_strlit("my name is"); reveal_strlit("i am"); reveal_strlit("现在"); reveal_strlit("几点");
    reveal_strlit("今天"); reveal_strlit("星期"); reveal_strlit("日期"); reveal_strlit("now");
    reveal_strlit("time"); reveal_strlit("today"); reveal_strlit("date");
    let l = "today"@;
    assert forall|i: int| 0 <= i < l.len() implies l[i] == 'a' || l[i] == 'd' || l[i] == 'o' || l[i] == 't' || l[i] == 'y' by {
        if i == 0 {} else if i == 1 {} else if i == 2 {} else if i == 3 {} else if i == 4 {}
    }
    lemma_word_absent(l, "你好"@, 0); lemma_word_absent(l, "hello"@, 0); lemma_word_absent(l, "hi"@, 0);
    lemma_word_absent(l, "嗨"@, 0); lemma_word_absent(l, "您好"@, 0); lemma_word_absent(l, "早上好"@, 0);
    lemma_word_absent(l, "下午好"@, 0); lemma_word_absent(l, "晚上好"@, 0); lemma_word_absent(l, "什么"@, 0);
    lemma_word_absent(l, "怎么"@, 0); lemma_word_absent(l, "为什么"@, 0); lemma_word_absent(l, "如何"@, 0);
    lemma_word_absent(l, "哪"@, 0); lemma_word_absent(l, "谁"@, 0); lemma_word_absent(l, "?"@, 0);
    lemma_word_absent(l, "？"@, 0); lemma_word_absent(l, "why"@, 0); lemma_word_absent(l, "how"@, 0);
    lemma_word_absent(l, "what"@, 0); lemma_word_absent(l, "which"@, 0); lemma_word_absent(l, "做"@, 0);
    lemma_word_absent(l, "运行"@, 0); lemma_word_absent(l, "执行"@, 0); lemma_word_absent(l, "开始"@, 0);
    lemma_word_absent(l, "停止"@, 0); lemma_word_absent(l, "请"@, 0); lemma_word_absent(l, "帮我"@, 0);
    lemma_word_absent(l, "run"@, 0); lemma_word_absent(l, "start"@, 0); lemma_word_absent(l, "stop"@, 0);
    lemma_word_too_long(l, "please"@); lemma_word_absent(l, "谢谢"@, 0); lemma_word_absent(l, "感谢"@, 0);
    lemma_word_absent(l, "多谢"@, 0); lemma_word_too_long(l, "thanks"@); lemma_word_too_long(l, "thank you"@);
    lemma_word_absent(l, "对不起"@, 0); lemma_word_absent(l, "抱歉"@, 0); lemma_word_absent(l, "不好意思"@, 0);
    lemma_word_absent(l, "sorry"@, 0); lemma_word_too_long(l, "apologize"@); lemma_word_absent(l, "我是"@, 0);
    lemma_word_absent(l, "我叫"@, 0); lemma_word_absent(l, "我呢"@, 0); lemma_word_too_long(l, "my name is"@);
    lemma_word_absent(l, "i am"@, 0); lemma_word_absent(l, "现在"@, 0); lemma_word_absent(l, "几点"@, 0);
    lemma_word_absent(l, "今天"@, 0); lemma_word_absent(l, "星期"@, 0); lemma_word_absent(l, "日期"@, 0);
    lemma_word_absent(l, "now"@, 0); lemma_word_absent(l, "time"@, 1); lemma_word_at(l, "today"@, 0);
    lemma_word_absent(l, "date"@, 3);
    assert(!seq_contains(l, "do"@)) by {
        let w = "do"@;
        if seq_contains(l, w) {
            let i = choose|i: int| occurs_at(l, w, i);
            if i == 0 { assert(l.subrange(i, i + w.len())[0] == w[0]); } else if i == 1 { assert(l.subrange(i, i + w.len())[0] == w[0]); } else if i == 2 { assert(l.subrange(i, i + w.len())[1] == w[1]); } else if i == 3 { assert(l.subrange(i, i + w.len())[0] == w[0]); }
        }
    }
    let table = intent_table();
    lemma_scores(l);
    assert(intent_score(l, table, 0) == 0 && intent_score(l, table, 1) == 0 && intent_score(l, table, 2) == 0 && intent_score(l, table, 3) == 0 && intent_score(l, table, 4) == 0 && intent_score(l, table, 5) == 0 && intent_score(l, table, 6) == 1);
    let k = choose|k: int| best_entry(l, table, k) && r.intent == table[k].0 && r.intent_score == intent_score(l, table, k);
    if k == 0 {} else if k == 1 {} else if k == 2 {} else if k == 3 {} else if k == 4 {} else if k == 5 {} else {}
}

/// "date" alone: AskState, with 1 hit.
proof fn lemma_alone_55(t: Seq<char>, r: NluResult)
    requires
        understood(r, t, intent_table(), positive_lexicon(), negative_lexicon()),
        lowercase(t) == "date"@,
    ensures
        r.intent == Intent::AskState,
        r.intent_score == 1,
{
    reveal(intent_table);
    reveal_with_fuel(hits_upto, 13);
    reveal_strlit("你好"); reveal_strlit("hello"); reveal_strlit("hi"); reveal_strlit("嗨"); reveal_strlit("您好");
    reveal_strlit("早上好"); reveal_strlit("下午好"); reveal_strlit("晚上好"); reveal_strlit("什么");
    reveal_strlit("怎么"); reveal_strlit("为什么"); reveal_strlit("如何"); reveal_strlit("哪"); reveal_strlit("谁");
    reveal_strlit("?"); reveal_strlit("？"); reveal_strlit("why"); reveal_strlit("how"); reveal_strlit("what");
    reveal_strlit("which"); reveal_strlit("做"); reveal_strlit("运行"); reveal_strlit("执行"); reveal_strlit("开始");
    reveal_strlit("停止"); reveal_strlit("请"); reveal_strlit("帮我"); reveal_strlit("do"); reveal_strlit("run");
    reveal_strlit("start"); reveal_strlit("stop"); reveal_strlit("please"); reveal_strlit("谢谢");
    reveal_strlit("感谢"); reveal_strlit("多谢"); reveal_strlit("thanks"); reveal_strlit("thank you");
    reveal_strlit("对不起"); reveal_strlit("抱歉"); reveal_strlit("不好意思"); reveal_strlit("sorry");
    reveal_strlit("apologize"); reveal_strlit("我是"); reveal_strlit("我叫"); reveal_strlit("我呢");
    reveal_strlit("my name is"); reveal_strlit("i am"); reveal_strlit("现在"); reveal_strlit("几点");
    reveal_strlit("今天"); reveal_strlit("星期"); reveal_strlit("日期"); reveal_strlit("now");
    reveal_strlit("time"); reveal_strlit("today"); reveal_strlit("date");
    let l = "date"@;
    assert forall|i: int| 0 <= i < l.len() implies l[i] == 'a' || l[i] == 'd' || l[i] == 'e' || l[i] == 't' by {
        if i == 0 {} else if i == 1 {} else if i == 2 {} else if i == 3 {}
    }
    lemma_word_absent(l, "你好"@, 0); lemma_word_too_long(l, "hello"@); lemma_word_absent(l, "hi"@, 0);
    lemma_word_absent(l, "嗨"@, 0); lemma_word_absent(l, "您好"@, 0); lemma_word_absent(l, "早上好"@, 0);
    lemma_word_absent(l, "下午好"@, 0); lemma_word_absent(l, "晚上好"@, 0); lemma_word_absent(l, "什么"@, 0);
    lemma_word_absent(l, "怎么"@, 0); lemma_word_absent(l, "为什么"@, 0); lemma_word_absent(l, "如何"@, 0);
    lemma_word_absent(l, "哪"@, 0); lemma_word_absent(l, "谁"@, 0); lemma_word_absent(l, "?"@, 0);
    lemma_word_absent(l, "？"@, 0); lemma_word_absent(l, "why"@, 0); lemma_word_absent(l, "how"@, 0);
    lemma_word_absent(l, "what"@, 0); lemma_word_too_long(l, "which"@); lemma_word_absent(l, "做"@, 0);
    lemma_word_absent(l, "运行"@, 0); lemma_word_absent(l, "执行"@, 0); lemma_word_absent(l, "开始"@, 0);
    lemma_word_absent(l, "停止"@, 0); lemma_word_absent(l, "请"@, 0); lemma_word_absent(l, "帮我"@, 0);
    lemma_word_absent(l, "do"@, 1); lemma_word_absent(l, "run"@, 0); lemma_word_too_long(l, "start"@);
    lemma_word_absent(l, "stop"@, 0); lemma_word_too_long(l, "please"@); lemma_word_absent(l, "谢谢"@, 0);
    lemma_word_absent(l, "感谢"@, 0); lemma_word_absent(l, "多谢"@, 0); lemma_word_too_long(l, "thanks"@);
    lemma_word_too_long(l, "thank you"@); lemma_word_absent(l, "对不起"@, 0); lemma_word_absent(l, "抱歉"@, 0);
    lemma_word_absent(l, "不好意思"@, 0); lemma_word_too_long(l, "sorry"@); lemma_word_too_long(l, "apologize"@);
    lemma_word_absent(l, "我是"@, 0); lemma_word_absent(l, "我叫"@, 0); lemma_word_absent(l, "我呢"@, 0);
    lemma_word_too_long(l, "my name is"@); lemma_word_absent(l, "i am"@, 0); lemma_word_absent(l, "现在"@, 0);
    lemma_word_absent(l, "几点"@, 0); lemma_word_absent(l, "今天"@, 0); lemma_word_absent(l, "星期"@, 0);
    lemma_word_absent(l, "日期"@, 0); lemma_word_absent(l, "now"@, 0); lemma_word_absent(l, "time"@, 1);
    lemma_word_too_long(l, "today"@); lemma_word_at(l, "date"@, 0);
    let table = intent_table();
    lemma_scores(l);
    assert(intent_score(l, table, 0) == 0 && intent_score(l, table, 1) == 0 && intent_score(l, table, 2) == 0 && intent_score(l, table, 3) == 0 && intent_score(l, table, 4) == 0 && intent_score(l, table, 5) == 0 && intent_score(l, table, 6) == 1);
    let k = choose|k: int| best_entry(l, table, k) && r.intent == table[k].0 && r.intent_score == intent_score(l, table, k);
    if k == 0 {} else if k == 1 {} else if k == 2 {} else if k == 3 {} else if k == 4 {} else if k == 5 {} else {}
}

/// "棒" alone: 1 positive and 0 negative words.
proof fn lemma_mood_alone_0(t: Seq<char>, r: NluResult)
    requires
        understood(r, t, intent_table(), positive_lexicon(), negative_lexicon()),
        lowercase(t) == "棒"@,
    ensures
        r.positive_hits == 1,
        r.negative_hits == 0,
{
    reveal(positive_lexicon);
    reveal(negative_lexicon);
    reveal_with_fuel(hits_upto, 15);
    reveal_strlit("棒"); reveal_strlit("喜欢"); reveal_strlit("开心"); reveal_strlit("高兴"); reveal_strlit("快乐");
    reveal_strlit("good"); reveal_strlit("great"); reveal_strlit("love"); reveal_strlit("happy");
    reveal_strlit("yes"); reveal_strlit("对"); reveal_strlit("可以"); reveal_strlit("ok"); reveal_strlit("差");
    reveal_strlit("坏"); reveal_strlit("讨厌"); reveal_strlit("难过"); reveal_strlit("生气"); reveal_strlit("悲伤");
    reveal_strlit("bad"); reveal_strlit("hate"); reveal_strlit("sad"); reveal_strlit("no");
    reveal_strlit("不"); reveal_strlit("错"); reveal_strlit("糟糕"); reveal_strlit("terrible");
    let l = "棒"@;
    assert forall|i: int| 0 <= i < l.len() implies l[i] == '棒' by {
        if i == 0 {}
    }
    lemma_word_at(l, "棒"@, 0); lemma_word_too_long(l, "喜欢"@); lemma_word_too_long(l, "开心"@);
    lemma_word_too_long(l, "高兴"@); lemma_word_too_long(l, "快乐"@); lemma_word_too_long(l, "good"@);
    lemma_word_too_long(l, "great"@); lemma_word_too_long(l, "love"@); lemma_word_too_long(l, "happy"@);
    lemma_word_too_long(l, "yes"@); lemma_word_absent(l, "对"@, 0); lemma_word_too_long(l, "可以"@);
    lemma_word_too_long(l, "ok"@); lemma_word_absent(l, "差"@, 0); lemma_word_absent(l, "坏"@, 0);
    lemma_word_too_long(l, "讨厌"@); lemma_word_too_long(l, "难过"@); lemma_word_too_long(l, "生气"@);
    lemma_word_too_long(l, "悲伤"@); lemma_word_too_long(l, "bad"@); lemma_word_too_long(l, "hate"@);
    lemma_word_too_long(l, "sad"@); lemma_word_too_long(l, "no"@); lemma_word_absent(l, "不"@, 0);
    lemma_word_absent(l, "错"@, 0); lemma_word_too_long(l, "糟糕"@); lemma_word_too_long(l, "terrible"@);
    lemma_hit_count(l, positive_lexicon());
    lemma_hit_count(l, negative_lexicon());
}

/// "喜欢" alone: 1 positive and 0 negative words.
proof fn lemma_mood_alone_1(t: Seq<char>, r: NluResult)
    requires
        understood(r, t, intent_table(), positive_lexicon(), negative_lexicon()),
        lowercase(t) == "喜欢"@,
    ensures
        r.positive_hits == 1,
        r.negative_hits == 0,
{
    reveal(positive_lexicon);
    reveal(negative_lexicon);
    reveal_with_fuel(hits_upto, 15);
    reveal_strlit("棒"); reveal_strlit("喜欢"); reveal_strlit("开心"); reveal_strlit("高兴"); reveal_strlit("快乐");
    reveal_strlit("good"); reveal_strlit("great"); reveal_strlit("love"); reveal_strlit("happy");
    reveal_strlit("yes"); reveal_strlit("对"); reveal_strlit("可以"); reveal_strlit("ok"); reveal_strlit("差");
    reveal_strlit("坏"); reveal_strlit("讨厌"); reveal_strlit("难过"); reveal_strlit("生气"); reveal_strlit("悲伤");
    reveal_strlit("bad"); reveal_strlit("hate"); reveal_strlit("sad"); reveal_strlit("no");
    reveal_strlit("不"); reveal_strlit("错"); reveal_strlit("糟糕"); reveal_strlit("terrible");
    let l = "喜欢"@;
    assert forall|i: int| 0 <= i < l.len() implies l[i] == '喜' || l[i] == '欢' by {
        if i == 0 {} else if i == 1 {}
    }
    lemma_word_absent(l, "棒"@, 0); lemma_word_at(l, "喜欢"@, 0); lemma_word_absent(l, "开心"@, 0);
    lemma_word_absent(l, "高兴"@, 0); lemma_word_absent(l, "快乐"@, 0); lemma_word_too_long(l, "good"@);
    lemma_word_too_long(l, "great"@); lemma_word_too_long(l, "love"@); lemma_word_too_long(l, "happy"@);
    lemma_word_too_long(l, "yes"@); lemma_word_absent(l, "对"@, 0); lemma_word_absent(l, "可以"@, 0);
    lemma_word_absent(l, "ok"@, 0); lemma_word_absent(l, "差"@, 0); lemma_word_absent(l, "坏"@, 0);
    lemma_word_absent(l, "讨厌"@, 0); lemma_word_absent(l, "难过"@, 0); lemma_word_absent(l, "生气"@, 0);
    lemma_word_absent(l, "悲伤"@, 0); lemma_word_too_long(l, "bad"@); lemma_word_too_long(l, "hate"@);
    lemma_word_too_long(l, "sad"@); lemma_word_absent(l, "no"@, 0); lemma_word_absent(l, "不"@, 0);
    lemma_word_absent(l, "错"@, 0); lemma_word_absent(l, "糟糕"@, 0); lemma_word_too_long(l, "terrible"@);
    lemma_hit_count(l, positive_lexicon());
    lemma_hit_count(l, negative_lexicon());
}

/// "开心" alone: 1 positive and 0 negative words.
proof fn lemma_mood_alone_2(t: Seq<char>, r: NluResult)
    requires
        understood(r, t, intent_table(), positive_lexicon(), negative_lexicon()),
        lowercase(t) == "开心"@,
    ensures
        r.positive_hits == 1,
        r.negative_hits == 0,
{
    reveal(positive_lexicon);
    reveal(negative_lexicon);
    reveal_with_fuel(hits_upto, 15);
    reveal_strlit("棒"); reveal_strlit("喜欢"); reveal_strlit("开心"); reveal_strlit("高兴"); reveal_strlit("快乐");
    reveal_strlit("good"); reveal_strlit("great"); reveal_strlit("love"); reveal_strlit("happy");
    reveal_strlit("yes"); reveal_strlit("对"); reveal_strlit("可以"); reveal_strlit("ok"); reveal_strlit("差");
    reveal_strlit("坏"); reveal_strlit("讨厌"); reveal_strlit("难过"); reveal_strlit("生气"); reveal_strlit("悲伤");
    reveal_strlit("bad"); reveal_strlit("hate"); reveal_strlit("sad"); reveal_strlit("no");
    reveal_strlit("不"); reveal_strlit("错"); reveal_strlit("糟糕"); reveal_strlit("terrible");
    let l = "开心"@;
    assert forall|i: int| 0 <= i < l.len() implies l[i] == '开' || l[i] == '心' by {
        if i == 0 {} else if i == 1 {}
    }
    lemma_word_absent(l, "棒"@, 0); lemma_word_absent(l, "喜欢"@, 0); lemma_word_at(l, "开心"@, 0);
    lemma_word_absent(l, "高兴"@, 0); lemma_word_absent(l, "快乐"@, 0); lemma_word_too_long(l, "good"@);
    lemma_word_too_long(l, "great"@); lemma_word_too_long(l, "love"@); lemma_word_too_long(l, "happy"@);
    lemma_word_too_long(l, "yes"@); lemma_word_absent(l, "对"@, 0); lemma_word_absent(l, "可以"@, 0);
    lemma_word_absent(l, "ok"@, 0); lemma_word_absent(l, "差"@, 0); lemma_word_absent(l, "坏"@, 0);
    lemma_word_absent(l, "讨厌"@, 0); lemma_word_absent(l, "难过"@, 0); lemma_word_absent(l, "生气"@, 0);
    lemma_word_absent(l, "悲伤"@, 0); lemma_word_too_long(l, "bad"@); lemma_word_too_long(l, "hate"@);
    lemma_word_too_long(l, "sad"@); lemma_word_absent(l, "no"@, 0); lemma_word_absent(l, "不"@, 0);
    lemma_word_absent(l, "错"@, 0); lemma_word_absent(l, "糟糕"@, 0); lemma_word_too_long(l, "terrible"@);
    lemma_hit_count(l, positive_lexicon());
    lemma_hit_count(l, negative_lexicon());
}

/// "高兴" alone: 1 positive and 0 negative words.
proof fn lemma_mood_alone_3(t: Seq<char>, r: NluResult)
    requires
        understood(r, t, intent_table(), positive_lexicon(), negative_lexicon()),
        lowercase(t) == "高兴"@,
    ensures
        r.positive_hits == 1,
        r.negative_hits == 0,
{
    reveal(positive_lexicon);
    reveal(negative_lexicon);
    reveal_with_fuel(hits_upto, 15);
    reveal_strlit("棒"); reveal_strlit("喜欢"); reveal_strlit("开心"); reveal_strlit("高兴"); reveal_strlit("快乐");
    reveal_strlit("good"); reveal_strlit("great"); reveal_strlit("love"); reveal_strlit("happy");
    reveal_strlit("yes"); reveal_strlit("对"); reveal_strlit("可以"); reveal_strlit("ok"); reveal_strlit("差");
    reveal_strlit("坏"); reveal_strlit("讨厌"); reveal_strlit("难过"); reveal_strlit("生气"); reveal_strlit("悲伤");
    reveal_strlit("bad"); reveal_strlit("hate"); reveal_strlit("sad"); reveal_strlit("no");
    reveal_strlit("不"); reveal_strlit("错"); reveal_strlit("糟糕"); reveal_strlit("terrible");
    let l = "高兴"@;
    assert forall|i: int| 0 <= i < l.len() implies l[i] == '兴' || l[i] == '高' by {
        if i == 0 {} else if i == 1 {}
    }
    lemma_word_absent(l, "棒"@, 0); lemma_word_absent(l, "喜欢"@, 0); lemma_word_absent(l, "开心"@, 0);
    lemma_word_at(l, "高兴"@, 0); lemma_word_absent(l, "快乐"@, 0); lemma_word_too_long(l, "good"@);
    lemma_word_too_long(l, "great"@); lemma_word_too_long(l, "love"@); lemma_word_too_long(l, "happy"@);
    lemma_word_too_long(l, "yes"@); lemma_word_absent(l, "对"@, 0); lemma_word_absent(l, "可以"@, 0);
    lemma_word_absent(l, "ok"@, 0); lemma_word_absent(l, "差"@, 0); lemma_word_absent(l, "坏"@, 0);
    lemma_word_absent(l, "讨厌"@, 0); lemma_word_absent(l, "难过"@, 0); lemma_word_absent(l, "生气"@, 0);
    lemma_word_absent(l, "悲伤"@, 0); lemma_word_too_long(l, "bad"@); lemma_word_too_long(l, "hate"@);
    lemma_word_too_long(l, "sad"@); lemma_word_absent(l, "no"@, 0); lemma_word_absent(l, "不"@, 0);
    lemma_word_absent(l, "错"@, 0); lemma_word_absent(l, "糟糕"@, 0); lemma_word_too_long(l, "terrible"@);
    lemma_hit_count(l, positive_lexicon());
    lemma_hit_count(l, negative_lexicon());
}

/// "快乐" alone: 1 positive and 0 negative words.
proof fn lemma_mood_alone_4(t: Seq<char>, r: NluResult)
    requires
        understood(r, t, intent_table(), positive_lexicon(), negative_lexicon()),
        lowercase(t) == "快乐"@,
    ensures
        r.positive_hits == 1,
        r.negative_hits == 0,
{
    reveal(positive_lexicon);
    reveal(negative_lexicon);
    reveal_with_fuel(hits_upto, 15);
    reveal_strlit("棒"); reveal_strlit("喜欢"); reveal_strlit("开心"); reveal_strlit("高兴"); reveal_strlit("快乐");
    reveal_strlit("good"); reveal_strlit("great"); reveal_strlit("love"); reveal_strlit("happy");
    reveal_strlit("yes"); reveal_strlit("对"); reveal_strlit("可以"); reveal_strlit("ok"); reveal_strlit("差");
    reveal_strlit("坏"); reveal_strlit("讨厌"); reveal_strlit("难过"); reveal_strlit("生气"); reveal_strlit("悲伤");
    reveal_strlit("bad"); reveal_strlit("hate"); reveal_strlit("sad"); reveal_strlit("no");
    reveal_strlit("不"); reveal_strlit("错"); reveal_strlit("糟糕"); reveal_strlit("terrible");
    let l = "快乐"@;
    assert forall|i: int| 0 <= i < l.len() implies l[i] == '乐' || l[i] == '快' by {
        if i == 0 {} else if i == 1 {}
    }
    lemma_word_absent(l, "棒"@, 0); lemma_word_absent(l, "喜欢"@, 0); lemma_word_absent(l, "开心"@, 0);
    lemma_word_absent(l, "高兴"@, 0); lemma_word_at(l, "快乐"@, 0); lemma_word_too_long(l, "good"@);
    lemma_word_too_long(l, "great"@); lemma_word_too_long(l, "love"@); lemma_word_too_long(l, "happy"@);
    lemma_word_too_long(l, "yes"@); lemma_word_absent(l, "对"@, 0); lemma_word_absent(l, "可以"@, 0);
    lemma_word_absent(l, "ok"@, 0); lemma_word_absent(l, "差"@, 0); lemma_word_absent(l, "坏"@, 0);
    lemma_word_absent(l, "讨厌"@, 0); lemma_word_absent(l, "难过"@, 0); lemma_word_absent(l, "生气"@, 0);
    lemma_word_absent(l, "悲伤"@, 0); lemma_word_too_long(l, "bad"@); lemma_word_too_long(l, "hate"@);
    lemma_word_too_long(l, "sad"@); lemma_word_absent(l, "no"@, 0); lemma_word_absent(l, "不"@, 0);
    lemma_word_absent(l, "错"@, 0); lemma_word_absent(l, "糟糕"@, 0); lemma_word_too_long(l, "terrible"@);
    lemma_hit_count(l, positive_lexicon());
    lemma_hit_count(l, negative_lexicon());
}

/// "good" alone: 1 positive and 0 negative words.
proof fn lemma_mood_alone_5(t: Seq<char>, r: NluResult)
    requires
        understood(r, t, intent_table(), positive_lexicon(), negative_lexicon()),
        lowercase(t) == "good"@,
    ensures
        r.positive_hits == 1,
        r.negative_hits == 0,
{
    reveal(positive_lexicon);
    reveal(negative_lexicon);
    reveal_with_fuel(hits_upto, 15);
    reveal_strlit("棒"); reveal_strlit("喜欢"); reveal_strlit("开心"); reveal_strlit("高兴"); reveal_strlit("快乐");
    reveal_strlit("good"); reveal_strlit("great"); reveal_strlit("love"); reveal_strlit("happy");
    reveal_strlit("yes"); reveal_strlit("对"); reveal_strlit("可以"); reveal_strlit("ok"); reveal_strlit("差");
    reveal_strlit("坏"); reveal_strlit("讨厌"); reveal_strlit("难过"); reveal_strlit("生气"); reveal_strlit("悲伤");
    reveal_strlit("bad"); reveal_strlit("hate"); reveal_strlit("sad"); reveal_strlit("no");
    reveal_strlit("不"); reveal_strlit("错"); reveal_strlit("糟糕"); reveal_strlit("terrible");
    let l = "good"@;
    assert forall|i: int| 0 <= i < l.len() implies l[i] == 'd' || l[i] == 'g' || l[i] == 'o' by {
        if i == 0 {} else if i == 1 {} else if i == 2 {} else if i == 3 {}
    }
    lemma_word_absent(l, "棒"@, 0); lemma_word_absent(l, "喜欢"@, 0); lemma_word_absent(l, "开心"@, 0);
    lemma_word_absent(l, "高兴"@, 0); lemma_word_absent(l, "快乐"@, 0); lemma_word_at(l, "good"@, 0);
    lemma_word_too_long(l, "great"@); lemma_word_absent(l, "love"@, 0); lemma_word_too_long(l, "happy"@);
    lemma_word_absent(l, "yes"@, 0); lemma_word_absent(l, "对"@, 0); lemma_word_absent(l, "可以"@, 0);
    lemma_word_absent(l, "ok"@, 1); lemma_word_absent(l, "差"@, 0); lemma_word_absent(l, "坏"@, 0);
    lemma_word_absent(l, "讨厌"@, 0); lemma_word_absent(l, "难过"@, 0); lemma_word_absent(l, "生气"@, 0);
    lemma_word_absent(l, "悲伤"@, 0); lemma_word_absent(l, "bad"@, 0); lemma_word_absent(l, "hate"@, 0);
    lemma_word_absent(l, "sad"@, 0); lemma_word_absent(l, "no"@, 0); lemma_word_absent(l, "不"@, 0);
    lemma_word_absent(l, "错"@, 0); lemma_word_absent(l, "糟糕"@, 0); lemma_word_too_long(l, "terrible"@);
    lemma_hit_count(l, positive_lexicon());
    lemma_hit_count(l, negative_lexicon());
}

/// "great" alone: 1 positive and 0 negative words.
proof fn lemma_mood_alone_6(t: Seq<char>, r: NluResult)
    requires
        understood(r, t, intent_table(), positive_lexicon(), negative_lexicon()),
        lowercase(t) == "great"@,
    ensures
        r.positive_hits == 1,
        r.negative_hits == 0,
{
    reveal(positive_lexicon);
    reveal(negative_lexicon);
    reveal_with_fuel(hits_upto, 15);
    reveal_strlit("棒"); reveal_strlit("喜欢"); reveal_strlit("开心"); reveal_strlit("高兴"); reveal_strlit("快乐");
    reveal_strlit("good"); reveal_strlit("great"); reveal_strlit("love"); reveal_strlit("happy");
    reveal_strlit("yes"); reveal_strlit("对"); reveal_strlit("可以"); reveal_strlit("ok"); reveal_strlit("差");
    reveal_strlit("坏"); reveal_strlit("讨厌"); reveal_strlit("难过"); reveal_strlit("生气"); reveal_strlit("悲伤");
    reveal_strlit("bad"); reveal_strlit("hate"); reveal_strlit("sad"); reveal_strlit("no");
    reveal_strlit("不"); reveal_strlit("错"); reveal_strlit("糟糕"); reveal_strlit("terrible");
    let l = "great"@;
    assert forall|i: int| 0 <= i < l.len() implies l[i] == 'a' || l[i] == 'e' || l[i] == 'g' || l[i] == 'r' || l[i] == 't' by {
        if i == 0 {} else if i == 1 {} else if i == 2 {} else if i == 3 {} else if i == 4 {}
    }
    lemma_word_absent(l, "棒"@, 0); lemma_word_absent(l, "喜欢"@, 0); lemma_word_absent(l, "开心"@, 0);
    lemma_word_absent(l, "高兴"@, 0); lemma_word_absent(l, "快乐"@, 0); lemma_word_absent(l, "good"@, 1);
    lemma_word_at(l, "great"@, 0); lemma_word_absent(l, "love"@, 0); lemma_word_absent(l, "happy"@, 0);
    lemma_word_absent(l, "yes"@, 0); lemma_word_absent(l, "对"@, 0); lemma_word_absent(l, "可以"@, 0);
    lemma_word_absent(l, "ok"@, 0); lemma_word_absent(l, "差"@, 0); lemma_word_absent(l, "坏"@, 0);
    lemma_word_absent(l, "讨厌"@, 0); lemma_word_absent(l, "难过"@, 0); lemma_word_absent(l, "生气"@, 0);
    lemma_word_absent(l, "悲伤"@, 0); lemma_word_absent(l, "bad"@, 0); lemma_word_absent(l, "hate"@, 0);
    lemma_word_absent(l, "sad"@, 0); lemma_word_absent(l, "no"@, 0); lemma_word_absent(l, "不"@, 0);
    lemma_word_absent(l, "错"@, 0); lemma_word_absent(l, "糟糕"@, 0); lemma_word_too_long(l, "terrible"@);
    lemma_hit_count(l, positive_lexicon());
    lemma_hit_count(l, negative_lexicon());
}

/// "love" alone: 1 positive and 0 negative words.
proof fn lemma_mood_alone_7(t: Seq<char>, r: NluResult)
    requires
        understood(r, t, intent_table(), positive_lexicon(), negative_lexicon()),
        lowercase(t) == "love"@,
    ensures
        r.positive_hits == 1,
        r.negative_hits == 0,
{
    reveal(positive_lexicon);
    reveal(negative_lexicon);
    reveal_with_fuel(hits_upto, 15);
    reveal_strlit("棒"); reveal_strlit("喜欢"); reveal_strlit("开心"); reveal_strlit("高兴"); reveal_strlit("快乐");
    reveal_strlit("good"); reveal_strlit("great"); reveal_strlit("love"); reveal_strlit("happy");
    reveal_strlit("yes"); reveal_strlit("对"); reveal_strlit("可以"); reveal_strlit("ok"); reveal_strlit("差");
    reveal_strlit("坏"); reveal_strlit("讨厌"); reveal_strlit("难过"); reveal_strlit("生气"); reveal_strlit("悲伤");
    reveal_strlit("bad"); reveal_strlit("hate"); reveal_strlit("sad"); reveal_strlit("no");
    reveal_strlit("不"); reveal_strlit("错"); reveal_strlit("糟糕"); reveal_strlit("terrible");
    let l = "love"@;
    assert forall|i: int| 0 <= i < l.len() implies l[i] == 'e' || l[i] == 'l' || l[i] == 'o' || l[i] == 'v' by {
        if i == 0 {} else if i == 1 {} else if i == 2 {} else if i == 3 {}
    }
    lemma_word_absent(l, "棒"@, 0); lemma_word_absent(l, "喜欢"@, 0); lemma_word_absent(l, "开心"@, 0);
    lemma_word_absent(l, "高兴"@, 0); lemma_word_absent(l, "快乐"@, 0); lemma_word_absent(l, "good"@, 0);
    lemma_word_too_long(l, "great"@); lemma_word_at(l, "love"@, 0); lemma_word_too_long(l, "happy"@);
    lemma_word_absent(l, "yes"@, 0); lemma_word_absent(l, "对"@, 0); lemma_word_absent(l, "可以"@, 0);
    lemma_word_absent(l, "ok"@, 1); lemma_word_absent(l, "差"@, 0); lemma_word_absent(l, "坏"@, 0);
    lemma_word_absent(l, "讨厌"@, 0); lemma_word_absent(l, "难过"@, 0); lemma_word_absent(l, "生气"@, 0);
    lemma_word_absent(l, "悲伤"@, 0); lemma_word_absent(l, "bad"@, 0); lemma_word_absent(l, "hate"@, 0);
    lemma_word_absent(l, "sad"@, 0); lemma_word_absent(l, "no"@, 0); lemma_word_absent(l, "不"@, 0);
    lemma_word_absent(l, "错"@, 0); lemma_word_absent(l, "糟糕"@, 0); lemma_word_too_long(l, "terrible"@);
    lemma_hit_count(l, positive_lexicon());
    lemma_hit_count(l, negative_lexicon());
}

/// "happy" alone: 1 positive and 0 negative words.
proof fn lemma_mood_alone_8(t: Seq<char>, r: NluResult)
    requires
        understood(r, t, intent_table(), positive_lexicon(), negative_lexicon()),
        lowercase(t) == "happy"@,
    ensures
        r.positive_hits == 1,
        r.negative_hits == 0,
{
    reveal(positive_lexicon);
    reveal(negative_lexicon);
    reveal_with_fuel(hits_upto, 15);
    reveal_strlit("棒"); reveal_strlit("喜欢"); reveal_strlit("开心"); reveal_strlit("高兴"); reveal_strlit("快乐");
    reveal_strlit("good"); reveal_strlit("great"); reveal_strlit("love"); reveal_strlit("happy");
    reveal_strlit("yes"); reveal_strlit("对"); reveal_strlit("可以"); reveal_strlit("ok"); reveal_strlit("差");
    reveal_strlit("坏"); reveal_strlit("讨厌"); reveal_strlit("难过"); reveal_strlit("生气"); reveal_strlit("悲伤");
    reveal_strlit("bad"); reveal_strlit("hate"); reveal_strlit("sad"); reveal_strlit("no");
    reveal_strlit("不"); reveal_strlit("错"); reveal_strlit("糟糕"); reveal_strlit("terrible");
    let l = "happy"@;
    assert forall|i: int| 0 <= i < l.len() implies l[i] == 'a' || l[i] == 'h' || l[i] == 'p' || l[i] == 'y' by {
        if i == 0 {} else if i == 1 {} else if i == 2 {} else if i == 3 {} else if i == 4 {}
    }
    lemma_word_absent(l, "棒"@, 0); lemma_word_absent(l, "喜欢"@, 0); lemma_word_absent(l, "开心"@, 0);
    lemma_word_absent(l, "高兴"@, 0); lemma_word_absent(l, "快乐"@, 0); lemma_word_absent(l, "good"@, 0);
    lemma_word_absent(l, "great"@, 0); lemma_word_absent(l, "love"@, 0); lemma_word_at(l, "happy"@, 0);
    lemma_word_absent(l, "yes"@, 1); lemma_word_absent(l, "对"@, 0); lemma_word_absent(l, "可以"@, 0);
    lemma_word_absent(l, "ok"@, 0); lemma_word_absent(l, "差"@, 0); lemma_word_absent(l, "坏"@, 0);
    lemma_word_absent(l, "讨厌"@, 0); lemma_word_absent(l, "难过"@, 0); lemma_word_absent(l, "生气"@, 0);
    lemma_word_absent(l, "悲伤"@, 0); lemma_word_absent(l, "bad"@, 0); lemma_word_absent(l, "hate"@, 2);
    lemma_word_absent(l, "sad"@, 0); lemma_word_absent(l, "no"@, 0); lemma_word_absent(l, "不"@, 0);
    lemma_word_absent(l, "错"@, 0); lemma_word_absent(l, "糟糕"@, 0); lemma_word_too_long(l, "terrible"@);
    lemma_hit_count(l, positive_lexicon());
    lemma_hit_count(l, negative_lexicon());
}

/// "yes" alone: 1 positive and 0 negative words.
proof fn lemma_mood_alone_9(t: Seq<char>, r: NluResult)
    requires
        understood(r, t, intent_table(), positive_lexicon(), negative_lexicon()),
        lowercase(t) == "yes"@,
    ensures
        r.positive_hits == 1,
        r.negative_hits == 0,
{
    reveal(positive_lexicon);
    reveal(negative_lexicon);
    reveal_with_fuel(hits_upto, 15);
    reveal_strlit("棒"); reveal_strlit("喜欢"); reveal_strlit("开心"); reveal_strlit("高兴"); reveal_strlit("快乐");
    reveal_strlit("good"); reveal_strlit("great"); reveal_strlit("love"); reveal_strlit("happy");
    reveal_strlit("yes"); reveal_strlit("对"); reveal_strlit("可以"); reveal_strlit("ok"); reveal_strlit("差");
    reveal_strlit("坏"); reveal_strlit("讨厌"); reveal_strlit("难过"); reveal_strlit("生气"); reveal_strlit("悲伤");
    reveal_strlit("bad"); reveal_strlit("hate"); reveal_strlit("sad"); reveal_strlit("no");
    reveal_strlit("不"); reveal_strlit("错"); reveal_strlit("糟糕"); reveal_strlit("terrible");
    let l = "yes"@;
    assert forall|i: int| 0 <= i < l.len() implies l[i] == 'e' || l[i] == 's' || l[i] == 'y' by {
        if i == 0 {} else if i == 1 {} else if i == 2 {}
    }
    lemma_word_absent(l, "棒"@, 0); lemma_word_absent(l, "喜欢"@, 0); lemma_word_absent(l, "开心"@, 0);
    lemma_word_absent(l, "高兴"@, 0); lemma_word_absent(l, "快乐"@, 0); lemma_word_too_long(l, "good"@);
    lemma_word_too_long(l, "great"@); lemma_word_too_long(l, "love"@); lemma_word_too_long(l, "happy"@);
    lemma_word_at(l, "yes"@, 0); lemma_word_absent(l, "对"@, 0); lemma_word_absent(l, "可以"@, 0);
    lemma_word_absent(l, "ok"@, 0); lemma_word_absent(l, "差"@, 0); lemma_word_absent(l, "坏"@, 0);
    lemma_word_absent(l, "讨厌"@, 0); lemma_word_absent(l, "难过"@, 0); lemma_word_absent(l, "生气"@, 0);
    lemma_word_absent(l, "悲伤"@, 0); lemma_word_absent(l, "bad"@, 0); lemma_word_too_long(l, "hate"@);
    lemma_word_absent(l, "sad"@, 1); lemma_word_absent(l, "no"@, 0); lemma_word_absent(l, "不"@, 0);
    lemma_word_absent(l, "错"@, 0); lemma_word_absent(l, "糟糕"@, 0); lemma_word_too_long(l, "terrible"@);
    lemma_hit_count(l, positive_lexicon());
    lemma_hit_count(l, negative_lexicon());
}

/// "对" alone: 1 positive and 0 negative words.
proof fn lemma_mood_alone_10(t: Seq<char>, r: NluResult)
    requires
        understood(r, t, intent_table(), positive_lexicon(), negative_lexicon()),
        lowercase(t) == "对"@,
    ensures
        r.positive_hits == 1,
        r.negative_hits == 0,
{
    reveal(positive_lexicon);
    reveal(negative_lexicon);
    reveal_with_fuel(hits_upto, 15);
    reveal_strlit("棒"); reveal_strlit("喜欢"); reveal_strlit("开心"); reveal_strlit("高兴"); reveal_strlit("快乐");
    reveal_strlit("good"); reveal_strlit("great"); reveal_strlit("love"); reveal_strlit("happy");
    reveal_strlit("yes"); reveal_strlit("对"); reveal_strlit("可以"); reveal_strlit("ok"); reveal_strlit("差");
    reveal_strlit("坏"); reveal_strlit("讨厌"); reveal_strlit("难过"); reveal_strlit("生气"); reveal_strlit("悲伤");
    reveal_strlit("bad"); reveal_strlit("hate"); reveal_strlit("sad"); reveal_strlit("no");
    reveal_strlit("不"); reveal_strlit("错"); reveal_strlit("糟糕"); reveal_strlit("terrible");
    let l = "对"@;
    assert forall|i: int| 0 <= i < l.len() implies l[i] == '对' by {
        if i == 0 {}
    }
    lemma_word_absent(l, "棒"@, 0); lemma_word_too_long(l, "喜欢"@); lemma_word_too_long(l, "开心"@);
    lemma_word_too_long(l, "高兴"@); lemma_word_too_long(l, "快乐"@); lemma_word_too_long(l, "good"@);
    lemma_word_too_long(l, "great"@); lemma_word_too_long(l, "love"@); lemma_word_too_long(l, "happy"@);
    lemma_word_too_long(l, "yes"@); lemma_word_at(l, "对"@, 0); lemma_word_too_long(l, "可以"@);
    lemma_word_too_long(l, "ok"@); lemma_word_absent(l, "差"@, 0); lemma_word_absent(l, "坏"@, 0);
    lemma_word_too_long(l, "讨厌"@); lemma_word_too_long(l, "难过"@); lemma_word_too_long(l, "生气"@);
    lemma_word_too_long(l, "悲伤"@); lemma_word_too_long(l, "bad"@); lemma_word_too_long(l, "hate"@);
    lemma_word_too_long(l, "sad"@); lemma_word_too_long(l, "no"@); lemma_word_absent(l, "不"@, 0);
    lemma_word_absent(l, "错"@, 0); lemma_word_too_long(l, "糟糕"@); lemma_word_too_long(l, "terrible"@);
    lemma_hit_count(l, positive_lexicon());
    lemma_hit_count(l, negative_lexicon());
}

/// "可以" alone: 1 positive and 0 negative words.
proof fn lemma_mood_alone_11(t: Seq<char>, r: NluResult)
    requires
        understood(r, t, intent_table(), positive_lexicon(), negative_lexicon()),
        lowercase(t) == "可以"@,
    ensures
        r.positive_hits == 1,
        r.negative_hits == 0,
{
    reveal(positive_lexicon);
    reveal(negative_lexicon);
    reveal_with_fuel(hits_upto, 15);
    reveal_strlit("棒"); reveal_strlit("喜欢"); reveal_strlit("开心"); reveal_strlit("高兴"); reveal_strlit("快乐");
    reveal_strlit("good"); reveal_strlit("great"); reveal_strlit("love"); reveal_strlit("happy");
    reveal_strlit("yes"); reveal_strlit("对"); reveal_strlit("可以"); reveal_strlit("ok"); reveal_strlit("差");
    reveal_strlit("坏"); reveal_strlit("讨厌"); reveal_strlit("难过"); reveal_strlit("生气"); reveal_strlit("悲伤");
    reveal_strlit("bad"); reveal_strlit("hate"); reveal_strlit("sad"); reveal_strlit("no");
    reveal_strlit("不"); reveal_strlit("错"); reveal_strlit("糟糕"); reveal_strlit("terrible");
    let l = "可以"@;
    assert forall|i: int| 0 <= i < l.len() implies l[i] == '以' || l[i] == '可' by {
        if i == 0 {} else if i == 1 {}
    }
    lemma_word_absent(l, "棒"@, 0); lemma_word_absent(l, "喜欢"@, 0); lemma_word_absent(l, "开心"@, 0);
    lemma_word_absent(l, "高兴"@, 0); lemma_word_absent(l, "快乐"@, 0); lemma_word_too_long(l, "good"@);
    lemma_word_too_long(l, "great"@); lemma_word_too_long(l, "love"@); lemma_word_too_long(l, "happy"@);
    lemma_word_too_long(l, "yes"@); lemma_word_absent(l, "对"@, 0); lemma_word_at(l, "可以"@, 0);
    lemma_word_absent(l, "ok"@, 0); lemma_word_absent(l, "差"@, 0); lemma_word_absent(l, "坏"@, 0);
    lemma_word_absent(l, "讨厌"@, 0); lemma_word_absent(l, "难过"@, 0); lemma_word_absent(l, "生气"@, 0);
    lemma_word_absent(l, "悲伤"@, 0); lemma_word_too_long(l, "bad"@); lemma_word_too_long(l, "hate"@);
    lemma_word_too_long(l, "sad"@); lemma_word_absent(l, "no"@, 0); lemma_word_absent(l, "不"@, 0);
    lemma_word_absent(l, "错"@, 0); lemma_word_absent(l, "糟糕"@, 0); lemma_word_too_long(l, "terrible"@);
    lemma_hit_count(l, positive_lexicon());
    lemma_hit_count(l, negative_lexicon());
}

/// "ok" alone: 1 positive and 0 negative words.
proof fn lemma_mood_alone_12(t: Seq<char>, r: NluResult)
    requires
        understood(r, t, intent_table(), positive_lexicon(), negative_lexicon()),
        lowercase(t) == "ok"@,
    ensures
        r.positive_hits == 1,
        r.negative_hits == 0,
{
    reveal(positive_lexicon);
    reveal(negative_lexicon);
    reveal_with_fuel(hits_upto, 15);
    reveal_strlit("棒"); reveal_strlit("喜欢"); reveal_strlit("开心"); reveal_strlit("高兴"); reveal_strlit("快乐");
    reveal_strlit("good"); reveal_strlit("great"); reveal_strlit("love"); reveal_strlit("happy");
    reveal_strlit("yes"); reveal_strlit("对"); reveal_strlit("可以"); reveal_strlit("ok"); reveal_strlit("差");
    reveal_strlit("坏"); reveal_strlit("讨厌"); reveal_strlit("难过"); reveal_strlit("生气"); reveal_strlit("悲伤");
    reveal_strlit("bad"); reveal_strlit("hate"); reveal_strlit("sad"); reveal_strlit("no");
    reveal_strlit("不"); reveal_strlit("错"); reveal_strlit("糟糕"); reveal_strlit("terrible");
    let l = "ok"@;
    assert forall|i: int| 0 <= i < l.len() implies l[i] == 'k' || l[i] == 'o' by {
        if i == 0 {} else if i == 1 {}
    }
    lemma_word_absent(l, "棒"@, 0); lemma_word_absent(l, "喜欢"@, 0); lemma_word_absent(l, "开心"@, 0);
    lemma_word_absent(l, "高兴"@, 0); lemma_word_absent(l, "快乐"@, 0); lemma_word_too_long(l, "good"@);
    lemma_word_too_long(l, "great"@); lemma_word_too_long(l, "love"@); lemma_word_too_long(l, "happy"@);
    lemma_word_too_long(l, "yes"@); lemma_word_absent(l, "对"@, 0); lemma_word_absent(l, "可以"@, 0);
    lemma_word_at(l, "ok"@, 0); lemma_word_absent(l, "差"@, 0); lemma_word_absent(l, "坏"@, 0);
    lemma_word_absent(l, "讨厌"@, 0); lemma_word_absent(l, "难过"@, 0); lemma_word_absent(l, "生气"@, 0);
    lemma_word_absent(l, "悲伤"@, 0); lemma_word_too_long(l, "bad"@); lemma_word_too_long(l, "hate"@);
    lemma_word_too_long(l, "sad"@); lemma_word_absent(l, "no"@, 0); lemma_word_absent(l, "不"@, 0);
    lemma_word_absent(l, "错"@, 0); lemma_word_absent(l, "糟糕"@, 0); lemma_word_too_long(l, "terrible"@);
    lemma_hit_count(l, positive_lexicon());
    lemma_hit_count(l, negative_lexicon());
}

/// "差" alone: 0 positive and 1 negative word.
proof fn lemma_mood_alone_13(t: Seq<char>, r: NluResult)
    requires
        understood(r, t, intent_table(), positive_lexicon(), negative_lexicon()),
        lowercase(t) == "差"@,
    ensures
        r.positive_hits == 0,
        r.negative_hits == 1,
{
    reveal(positive_lexicon);
    reveal(negative_lexicon);
    reveal_with_fuel(hits_upto, 15);
    reveal_strlit("棒"); reveal_strlit("喜欢"); reveal_strlit("开心"); reveal_strlit("高兴"); reveal_strlit("快乐");
    reveal_strlit("good"); reveal_strlit("great"); reveal_strlit("love"); reveal_strlit("happy");
    reveal_strlit("yes"); reveal_strlit("对"); reveal_strlit("可以"); reveal_strlit("ok"); reveal_strlit("差");
    reveal_strlit("坏"); reveal_strlit("讨厌"); reveal_strlit("难过"); reveal_strlit("生气"); reveal_strlit("悲伤");
    reveal_strlit("bad"); reveal_strlit("hate"); reveal_strlit("sad"); reveal_strlit("no");
    reveal_strlit("不"); reveal_strlit("错"); reveal_strlit("糟糕"); reveal_strlit("terrible");
    let l = "差"@;
    assert forall|i: int| 0 <= i < l.len() implies l[i] == '差' by {
        if i == 0 {}
    }
    lemma_word_absent(l, "棒"@, 0); lemma_word_too_long(l, "喜欢"@); lemma_word_too_long(l, "开心"@);
    lemma_word_too_long(l, "高兴"@); lemma_word_too_long(l, "快乐"@); lemma_word_too_long(l, "good"@);
    lemma_word_too_long(l, "great"@); lemma_word_too_long(l, "love"@); lemma_word_too_long(l, "happy"@);
    lemma_word_too_long(l, "yes"@); lemma_word_absent(l, "对"@, 0); lemma_word_too_long(l, "可以"@);
    lemma_word_too_long(l, "ok"@); lemma_word_at(l, "差"@, 0); lemma_word_absent(l, "坏"@, 0);
    lemma_word_too_long(l, "讨厌"@); lemma_word_too_long(l, "难过"@); lemma_word_too_long(l, "生气"@);
    lemma_word_too_long(l, "悲伤"@); lemma_word_too_long(l, "bad"@); lemma_word_too_long(l, "hate"@);
    lemma_word_too_long(l, "sad"@); lemma_word_too_long(l, "no"@); lemma_word_absent(l, "不"@, 0);
    lemma_word_absent(l, "错"@, 0); lemma_word_too_long(l, "糟糕"@); lemma_word_too_long(l, "terrible"@);
    lemma_hit_count(l, positive_lexicon());
    lemma_hit_count(l, negative_lexicon());
}

/// "坏" alone: 0 positive and 1 negative word.
proof fn lemma_mood_alone_14(t: Seq<char>, r: NluResult)
    requires
        understood(r, t, intent_table(), positive_lexicon(), negative_lexicon()),
        lowercase(t) == "坏"@,
    ensures
        r.positive_hits == 0,
        r.negative_hits == 1,
{
    reveal(positive_lexicon);
    reveal(negative_lexicon);
    reveal_with_fuel(hits_upto, 15);
    reveal_strlit("棒"); reveal_strlit("喜欢"); reveal_strlit("开心"); reveal_strlit("高兴"); reveal_strlit("快乐");
    reveal_strlit("good"); reveal_strlit("great"); reveal_strlit("love"); reveal_strlit("happy");
    reveal_strlit("yes"); reveal_strlit("对"); reveal_strlit("可以"); reveal_strlit("ok"); reveal_strlit("差");
    reveal_strlit("坏"); reveal_strlit("讨厌"); reveal_strlit("难过"); reveal_strlit("生气"); reveal_strlit("悲伤");
    reveal_strlit("bad"); reveal_strlit("hate"); reveal_strlit("sad"); reveal_strlit("no");
    reveal_strlit("不"); reveal_strlit("错"); reveal_strlit("糟糕"); reveal_strlit("terrible");
    let l = "坏"@;
    assert forall|i: int| 0 <= i < l.len() implies l[i] == '坏' by {
        if i == 0 {}
    }
    lemma_word_absent(l, "棒"@, 0); lemma_word_too_long(l, "喜欢"@); lemma_word_too_long(l, "开心"@);
    lemma_word_too_long(l, "高兴"@); lemma_word_too_long(l, "快乐"@); lemma_word_too_long(l, "good"@);
    lemma_word_too_long(l, "great"@); lemma_word_too_long(l, "love"@); lemma_word_too_long(l, "happy"@);
    lemma_word_too_long(l, "yes"@); lemma_word_absent(l, "对"@, 0); lemma_word_too_long(l, "可以"@);
    lemma_word_too_long(l, "ok"@); lemma_word_absent(l, "差"@, 0); lemma_word_at(l, "坏"@, 0);
    lemma_word_too_long(l, "讨厌"@); lemma_word_too_long(l, "难过"@); lemma_word_too_long(l, "生气"@);
    lemma_word_too_long(l, "悲伤"@); lemma_word_too_long(l, "bad"@); lemma_word_too_long(l, "hate"@);
    lemma_word_too_long(l, "sad"@); lemma_word_too_long(l, "no"@); lemma_word_absent(l, "不"@, 0);
    lemma_word_absent(l, "错"@, 0); lemma_word_too_long(l, "糟糕"@); lemma_word_too_long(l, "terrible"@);
    lemma_hit_count(l, positive_lexicon());
    lemma_hit_count(l, negative_lexicon());
}

/// "讨厌" alone: 0 positive and 1 negative word.
proof fn lemma_mood_alone_15(t: Seq<char>, r: NluResult)
    requires
        understood(r, t, intent_table(), positive_lexicon(), negative_lexicon()),
        lowercase(t) == "讨厌"@,
    ensures
        r.positive_hits == 0,
        r.negative_hits == 1,
{
    reveal(positive_lexicon);
    reveal(negative_lexicon);
    reveal_with_fuel(hits_upto, 15);
    reveal_strlit("棒"); reveal_strlit("喜欢"); reveal_strlit("开心"); reveal_strlit("高兴"); reveal_strlit("快乐");
    reveal_strlit("good"); reveal_strlit("great"); reveal_strlit("love"); reveal_strlit("happy");
    reveal_strlit("yes"); reveal_strlit("对"); reveal_strlit("可以"); reveal_strlit("ok"); reveal_strlit("差");
    reveal_strlit("坏"); reveal_strlit("讨厌"); reveal_strlit("难过"); reveal_strlit("生气"); reveal_strlit("悲伤");
    reveal_strlit("bad"); reveal_strlit("hate"); reveal_strlit("sad"); reveal_strlit("no");
    reveal_strlit("不"); reveal_strlit("错"); reveal_strlit("糟糕"); reveal_strlit("terrible");
    let l = "讨厌"@;
    assert forall|i: int| 0 <= i < l.len() implies l[i] == '厌' || l[i] == '讨' by {
        if i == 0 {} else if i == 1 {}
    }
    lemma_word_absent(l, "棒"@, 0); lemma_word_absent(l, "喜欢"@, 0); lemma_word_absent(l, "开心"@, 0);
    lemma_word_absent(l, "高兴"@, 0); lemma_word_absent(l, "快乐"@, 0); lemma_word_too_long(l, "good"@);
    lemma_word_too_long(l, "great"@); lemma_word_too_long(l, "love"@); lemma_word_too_long(l, "happy"@);
    lemma_word_too_long(l, "yes"@); lemma_word_absent(l, "对"@, 0); lemma_word_absent(l, "可以"@, 0);
    lemma_word_absent(l, "ok"@, 0); lemma_word_absent(l, "差"@, 0); lemma_word_absent(l, "坏"@, 0);
    lemma_word_at(l, "讨厌"@, 0); lemma_word_absent(l, "难过"@, 0); lemma_word_absent(l, "生气"@, 0);
    lemma_word_absent(l, "悲伤"@, 0); lemma_word_too_long(l, "bad"@); lemma_word_too_long(l, "hate"@);
    lemma_word_too_long(l, "sad"@); lemma_word_absent(l, "no"@, 0); lemma_word_absent(l, "不"@, 0);
    lemma_word_absent(l, "错"@, 0); lemma_word_absent(l, "糟糕"@, 0); lemma_word_too_long(l, "terrible"@);
    lemma_hit_count(l, positive_lexicon());
    lemma_hit_count(l, negative_lexicon());
}

/// "难过" alone: 0 positive and 1 negative word.
proof fn lemma_mood_alone_16(t: Seq<char>, r: NluResult)
    requires
        understood(r, t, intent_table(), positive_lexicon(), negative_lexicon()),
        lowercase(t) == "难过"@,
    ensures
        r.positive_hits == 0,
        r.negative_hits == 1,
{
    reveal(positive_lexicon);
    reveal(negative_lexicon);
    reveal_with_fuel(hits_upto, 15);
    reveal_strlit("棒"); reveal_strlit("喜欢"); reveal_strlit("开心"); reveal_strlit("高兴"); reveal_strlit("快乐");
    reveal_strlit("good"); reveal_strlit("great"); reveal_strlit("love"); reveal_strlit("happy");
    reveal_strlit("yes"); reveal_strlit("对"); reveal_strlit("可以"); reveal_strlit("ok"); reveal_strlit("差");
    reveal_strlit("坏"); reveal_strlit("讨厌"); reveal_strlit("难过"); reveal_strlit("生气"); reveal_strlit("悲伤");
    reveal_strlit("bad"); reveal_strlit("hate"); reveal_strlit("sad"); reveal_strlit("no");
    reveal_strlit("不"); reveal_strlit("错"); reveal_strlit("糟糕"); reveal_strlit("terrible");
    let l = "难过"@;
    assert forall|i: int| 0 <= i < l.len() implies l[i] == '过' || l[i] == '难' by {
        if i == 0 {} else if i == 1 {}
    }
    lemma_word_absent(l, "棒"@, 0); lemma_word_absent(l, "喜欢"@, 0); lemma_word_absent(l, "开心"@, 0);
    lemma_word_absent(l, "高兴"@, 0); lemma_word_absent(l, "快乐"@, 0); lemma_word_too_long(l, "good"@);
    lemma_word_too_long(l, "great"@); lemma_word_too_long(l, "love"@); lemma_word_too_long(l, "happy"@);
    lemma_word_too_long(l, "yes"@); lemma_word_absent(l, "对"@, 0); lemma_word_absent(l, "可以"@, 0);
    lemma_word_absent(l, "ok"@, 0); lemma_word_absent(l, "差"@, 0); lemma_word_absent(l, "坏"@, 0);
    lemma_word_absent(l, "讨厌"@, 0); lemma_word_at(l, "难过"@, 0); lemma_word_absent(l, "生气"@, 0);
    lemma_word_absent(l, "悲伤"@, 0); lemma_word_too_long(l, "bad"@); lemma_word_too_long(l, "hate"@);
    lemma_word_too_long(l, "sad"@); lemma_word_absent(l, "no"@, 0); lemma_word_absent(l, "不"@, 0);
    lemma_word_absent(l, "错"@, 0); lemma_word_absent(l, "糟糕"@, 0); lemma_word_too_long(l, "terrible"@);
    lemma_hit_count(l, positive_lexicon());
    lemma_hit_count(l, negative_lexicon());
}

/// "生气" alone: 0 positive and 1 negative word.
proof fn lemma_mood_alone_17(t: Seq<char>, r: NluResult)
    requires
        understood(r, t, intent_table(), positive_lexicon(), negative_lexicon()),
        lowercase(t) == "生气"@,
    ensures
        r.positive_hits == 0,
        r.negative_hits == 1,
{
    reveal(positive_lexicon);
    reveal(negative_lexicon);
    reveal_with_fuel(hits_upto, 15);
    reveal_strlit("棒"); reveal_strlit("喜欢"); reveal_strlit("开心"); reveal_strlit("高兴"); reveal_strlit("快乐");
    reveal_strlit("good"); reveal_strlit("great"); reveal_strlit("love"); reveal_strlit("happy");
    reveal_strlit("yes"); reveal_strlit("对"); reveal_strlit("可以"); reveal_strlit("ok"); reveal_strlit("差");
    reveal_strlit("坏"); reveal_strlit("讨厌"); reveal_strlit("难过"); reveal_strlit("生气"); reveal_strlit("悲伤");
    reveal_strlit("bad"); reveal_strlit("hate"); reveal_strlit("sad"); reveal_strlit("no");
    reveal_strlit("不"); reveal_strlit("错"); reveal_strlit("糟糕"); reveal_strlit("terrible");
    let l = "生气"@;
    assert forall|i: int| 0 <= i < l.len() implies l[i] == '气' || l[i] == '生' by {
        if i == 0 {} else if i == 1 {}
    }
    lemma_word_absent(l, "棒"@, 0); lemma_word_absent(l, "喜欢"@, 0); lemma_word_absent(l, "开心"@, 0);
    lemma_word_absent(l, "高兴"@, 0); lemma_word_absent(l, "快乐"@, 0); lemma_word_too_long(l, "good"@);
    lemma_word_too_long(l, "great"@); lemma_word_too_long(l, "love"@); lemma_word_too_long(l, "happy"@);
    lemma_word_too_long(l, "yes"@); lemma_word_absent(l, "对"@, 0); lemma_word_absent(l, "可以"@, 0);
    lemma_word_absent(l, "ok"@, 0); lemma_word_absent(l, "差"@, 0); lemma_word_absent(l, "坏"@, 0);
    lemma_word_absent(l, "讨厌"@, 0); lemma_word_absent(l, "难过"@, 0); lemma_word_at(l, "生气"@, 0);
    lemma_word_absent(l, "悲伤"@, 0); lemma_word_too_long(l, "bad"@); lemma_word_too_long(l, "hate"@);
    lemma_word_too_long(l, "sad"@); lemma_word_absent(l, "no"@, 0); lemma_word_absent(l, "不"@, 0);
    lemma_word_absent(l, "错"@, 0); lemma_word_absent(l, "糟糕"@, 0); lemma_word_too_long(l, "terrible"@);
    lemma_hit_count(l, positive_lexicon());
    lemma_hit_count(l, negative_lexicon());
}

/// "悲伤" alone: 0 positive and 1 negative word.
proof fn lemma_mood_alone_18(t: Seq<char>, r: NluResult)
    requires
        understood(r, t, intent_table(), positive_lexicon(), negative_lexicon()),
        lowercase(t) == "悲伤"@,
    ensures
        r.positive_hits == 0,
        r.negative_hits == 1,
{
    reveal(positive_lexicon);
    reveal(negative_lexicon);
    reveal_with_fuel(hits_upto, 15);
    reveal_strlit("棒"); reveal_strlit("喜欢"); reveal_strlit("开心"); reveal_strlit("高兴"); reveal_strlit("快乐");
    reveal_strlit("good"); reveal_strlit("great"); reveal_strlit("love"); reveal_strlit("happy");
    reveal_strlit("yes"); reveal_strlit("对"); reveal_strlit("可以"); reveal_strlit("ok"); reveal_strlit("差");
    reveal_strlit("坏"); reveal_strlit("讨厌"); reveal_strlit("难过"); reveal_strlit("生气"); reveal_strlit("悲伤");
    reveal_strlit("bad"); reveal_strlit("hate"); reveal_strlit("sad"); reveal_strlit("no");
    reveal_strlit("不"); reveal_strlit("错"); reveal_strlit("糟糕"); reveal_strlit("terrible");
    let l = "悲伤"@;
    assert forall|i: int| 0 <= i < l.len() implies l[i] == '伤' || l[i] == '悲' by {
        if i == 0 {} else if i == 1 {}
    }
    lemma_word_absent(l, "棒"@, 0); lemma_word_absent(l, "喜欢"@, 0); lemma_word_absent(l, "开心"@, 0);
    lemma_word_absent(l, "高兴"@, 0); lemma_word_absent(l, "快乐"@, 0); lemma_word_too_long(l, "good"@);
    lemma_word_too_long(l, "great"@); lemma_word_too_long(l, "love"@); lemma_word_too_long(l, "happy"@);
    lemma_word_too_long(l, "yes"@); lemma_word_absent(l, "对"@, 0); lemma_word_absent(l, "可以"@, 0);
    lemma_word_absent(l, "ok"@, 0); lemma_word_absent(l, "差"@, 0); lemma_word_absent(l, "坏"@, 0);
    lemma_word_absent(l, "讨厌"@, 0); lemma_word_absent(l, "难过"@, 0); lemma_word_absent(l, "生气"@, 0);
    lemma_word_at(l, "悲伤"@, 0); lemma_word_too_long(l, "bad"@); lemma_word_too_long(l, "hate"@);
    lemma_word_too_long(l, "sad"@); lemma_word_absent(l, "no"@, 0); lemma_word_absent(l, "不"@, 0);
    lemma_word_absent(l, "错"@, 0); lemma_word_absent(l, "糟糕"@, 0); lemma_word_too_long(l, "terrible"@);
    lemma_hit_count(l, positive_lexicon());
    lemma_hit_count(l, negative_lexicon());
}

/// "bad" alone: 0 positive and 1 negative word.
proof fn lemma_mood_alone_19(t: Seq<char>, r: NluResult)
    requires
        understood(r, t, intent_table(), positive_lexicon(), negative_lexicon()),
        lowercase(t) == "bad"@,
    ensures
        r.positive_hits == 0,
        r.negative_hits == 1,
{
    reveal(positive_lexicon);
    reveal(negative_lexicon);
    reveal_with_fuel(hits_upto, 15);
    reveal_strlit("棒"); reveal_strlit("喜欢"); reveal_strlit("开心"); reveal_strlit("高兴"); reveal_strlit("快乐");
    reveal_strlit("good"); reveal_strlit("great"); reveal_strlit("love"); reveal_strlit("happy");
    reveal_strlit("yes"); reveal_strlit("对"); reveal_strlit("可以"); reveal_strlit("ok"); reveal_strlit("差");
    reveal_strlit("坏"); reveal_strlit("讨厌"); reveal_strlit("难过"); reveal_strlit("生气"); reveal_strlit("悲伤");
    reveal_strlit("bad"); reveal_strlit("hate"); reveal_strlit("sad"); reveal_strlit("no");
    reveal_strlit("不"); reveal_strlit("错"); reveal_strlit("糟糕"); reveal_strlit("terrible");
    let l = "bad"@;
    assert forall|i: int| 0 <= i < l.len() implies l[i] == 'a' || l[i] == 'b' || l[i] == 'd' by {
        if i == 0 {} else if i == 1 {} else if i == 2 {}
    }
    lemma_word_absent(l, "棒"@, 0); lemma_word_absent(l, "喜欢"@, 0); lemma_word_absent(l, "开心"@, 0);
    lemma_word_absent(l, "高兴"@, 0); lemma_word_absent(l, "快乐"@, 0); lemma_word_too_long(l, "good"@);
    lemma_word_too_long(l, "great"@); lemma_word_too_long(l, "love"@); lemma_word_too_long(l, "happy"@);
    lemma_word_absent(l, "yes"@, 0); lemma_word_absent(l, "对"@, 0); lemma_word_absent(l, "可以"@, 0);
    lemma_word_absent(l, "ok"@, 0); lemma_word_absent(l, "差"@, 0); lemma_word_absent(l, "坏"@, 0);
    lemma_word_absent(l, "讨厌"@, 0); lemma_word_absent(l, "难过"@, 0); lemma_word_absent(l, "生气"@, 0);
    lemma_word_absent(l, "悲伤"@, 0); lemma_word_at(l, "bad"@, 0); lemma_word_too_long(l, "hate"@);
    lemma_word_absent(l, "sad"@, 0); lemma_word_absent(l, "no"@, 0); lemma_word_absent(l, "不"@, 0);
    lemma_word_absent(l, "错"@, 0); lemma_word_absent(l, "糟糕"@, 0); lemma_word_too_long(l, "terrible"@);
    lemma_hit_count(l, positive_lexicon());
    lemma_hit_count(l, negative_lexicon());
}

/// "hate" alone: 0 positive and 1 negative word.
proof fn lemma_mood_alone_20(t: Seq<char>, r: NluResult)
    requires
        understood(r, t, intent_table(), positive_lexicon(), negative_lexicon()),
        lowercase(t) == "hate"@,
    ensures
        r.positive_hits == 0,
        r.negative_hits == 1,
{
    reveal(positive_lexicon);
    reveal(negative_lexicon);
    reveal_with_fuel(hits_upto, 15);
    reveal_strlit("棒"); reveal_strlit("喜欢"); reveal_strlit("开心"); reveal_strlit("高兴"); reveal_strlit("快乐");
    reveal_strlit("good"); reveal_strlit("great"); reveal_strlit("love"); reveal_strlit("happy");
    reveal_strlit("yes"); reveal_strlit("对"); reveal_strlit("可以"); reveal_strlit("ok"); reveal_strlit("差");
    reveal_strlit("坏"); reveal_strlit("讨厌"); reveal_strlit("难过"); reveal_strlit("生气"); reveal_strlit("悲伤");
    reveal_strlit("bad"); reveal_strlit("hate"); reveal_strlit("sad"); reveal_strlit("no");
    reveal_strlit("不"); reveal_strlit("错"); reveal_strlit("糟糕"); reveal_strlit("terrible");
    let l = "hate"@;
    assert forall|i: int| 0 <= i < l.len() implies l[i] == 'a' || l[i] == 'e' || l[i] == 'h' || l[i] == 't' by {
        if i == 0 {} else if i == 1 {} else if i == 2 {} else if i == 3 {}
    }
    lemma_word_absent(l, "棒"@, 0); lemma_word_absent(l, "喜欢"@, 0); lemma_word_absent(l, "开心"@, 0);
    lemma_word_absent(l, "高兴"@, 0); lemma_word_absent(l, "快乐"@, 0); lemma_word_absent(l, "good"@, 0);
    lemma_word_too_long(l, "great"@); lemma_word_absent(l, "love"@, 0); lemma_word_too_long(l, "happy"@);
    lemma_word_absent(l, "yes"@, 0); lemma_word_absent(l, "对"@, 0); lemma_word_absent(l, "可以"@, 0);
    lemma_word_absent(l, "ok"@, 0); lemma_word_absent(l, "差"@, 0); lemma_word_absent(l, "坏"@, 0);
    lemma_word_absent(l, "讨厌"@, 0); lemma_word_absent(l, "难过"@, 0); lemma_word_absent(l, "生气"@, 0);
    lemma_word_absent(l, "悲伤"@, 0); lemma_word_absent(l, "bad"@, 0); lemma_word_at(l, "hate"@, 0);
    lemma_word_absent(l, "sad"@, 0); lemma_word_absent(l, "no"@, 0); lemma_word_absent(l, "不"@, 0);
    lemma_word_absent(l, "错"@, 0); lemma_word_absent(l, "糟糕"@, 0); lemma_word_too_long(l, "terrible"@);
    lemma_hit_count(l, positive_lexicon());
    lemma_hit_count(l, negative_lexicon());
}

/// "sad" alone: 0 positive and 1 negative word.
proof fn lemma_mood_alone_21(t: Seq<char>, r: NluResult)
    requires
        understood(r, t, intent_table(), positive_lexicon(), negative_lexicon()),
        lowercase(t) == "sad"@,
    ensures
        r.positive_hits == 0,
        r.negative_hits == 1,
{
    reveal(positive_lexicon);
    reveal(negative_lexicon);
    reveal_with_fuel(hits_upto, 15);
    reveal_strlit("棒"); reveal_strlit("喜欢"); reveal_strlit("开心"); reveal_strlit("高兴"); reveal_strlit("快乐");
    reveal_strlit("good"); reveal_strlit("great"); reveal_strlit("love"); reveal_strlit("happy");
    reveal_strlit("yes"); reveal_strlit("对"); reveal_strlit("可以"); reveal_strlit("ok"); reveal_strlit("差");
    reveal_strlit("坏"); reveal_strlit("讨厌"); reveal_strlit("难过"); reveal_strlit("生气"); reveal_strlit("悲伤");
    reveal_strlit("bad"); reveal_strlit("hate"); reveal_strlit("sad"); reveal_strlit("no");
    reveal_strlit("不"); reveal_strlit("错"); reveal_strlit("糟糕"); reveal_strlit("terrible");
    let l = "sad"@;
    assert forall|i: int| 0 <= i < l.len() implies l[i] == 'a' || l[i] == 'd' || l[i] == 's' by {
        if i == 0 {} else if i == 1 {} else if i == 2 {}
    }
    lemma_word_absent(l, "棒"@, 0); lemma_word_absent(l, "喜欢"@, 0); lemma_word_absent(l, "开心"@, 0);
    lemma_word_absent(l, "高兴"@, 0); lemma_word_absent(l, "快乐"@, 0); lemma_word_too_long(l, "good"@);
    lemma_word_too_long(l, "great"@); lemma_word_too_long(l, "love"@); lemma_word_too_long(l, "happy"@);
    lemma_word_absent(l, "yes"@, 0); lemma_word_absent(l, "对"@, 0); lemma_word_absent(l, "可以"@, 0);
    lemma_word_absent(l, "ok"@, 0); lemma_word_absent(l, "差"@, 0); lemma_word_absent(l, "坏"@, 0);
    lemma_word_absent(l, "讨厌"@, 0); lemma_word_absent(l, "难过"@, 0); lemma_word_absent(l, "生气"@, 0);
    lemma_word_absent(l, "悲伤"@, 0); lemma_word_absent(l, "bad"@, 0); lemma_word_too_long(l, "hate"@);
    lemma_word_at(l, "sad"@, 0); lemma_word_absent(l, "no"@, 0); lemma_word_absent(l, "不"@, 0);
    lemma_word_absent(l, "错"@, 0); lemma_word_absent(l, "糟糕"@, 0); lemma_word_too_long(l, "terrible"@);
    lemma_hit_count(l, positive_lexicon());
    lemma_hit_count(l, negative_lexicon());
}

/// "no" alone: 0 positive and 1 negative word.
proof fn lemma_mood_alone_22(t: Seq<char>, r: NluResult)
    requires
        understood(r, t, intent_table(), positive_lexicon(), negative_lexicon()),
        lowercase(t) == "no"@,
    ensures
        r.positive_hits == 0,
        r.negative_hits == 1,
{
    reveal(positive_lexicon);
    reveal(negative_lexicon);
    reveal_with_fuel(hits_upto, 15);
    reveal_strlit("棒"); reveal_strlit("喜欢"); reveal_strlit("开心"); reveal_strlit("高兴"); reveal_strlit("快乐");
    reveal_strlit("good"); reveal_strlit("great"); reveal_strlit("love"); reveal_strlit("happy");
    reveal_strlit("yes"); reveal_strlit("对"); reveal_strlit("可以"); reveal_strlit("ok"); reveal_strlit("差");
    reveal_strlit("坏"); reveal_strlit("讨厌"); reveal_strlit("难过"); reveal_strlit("生气"); reveal_strlit("悲伤");
    reveal_strlit("bad"); reveal_strlit("hate"); reveal_strlit("sad"); reveal_strlit("no");
    reveal_strlit("不"); reveal_strlit("错"); reveal_strlit("糟糕"); reveal_strlit("terrible");
    let l = "no"@;
    assert forall|i: int| 0 <= i < l.len() implies l[i] == 'n' || l[i] == 'o' by {
        if i == 0 {} else if i == 1 {}
    }
    lemma_word_absent(l, "棒"@, 0); lemma_word_absent(l, "喜欢"@, 0); lemma_word_absent(l, "开心"@, 0);
    lemma_word_absent(l, "高兴"@, 0); lemma_word_absent(l, "快乐"@, 0); lemma_word_too_long(l, "good"@);
    lemma_word_too_long(l, "great"@); lemma_word_too_long(l, "love"@); lemma_word_too_long(l, "happy"@);
    lemma_word_too_long(l, "yes"@); lemma_word_absent(l, "对"@, 0); lemma_word_absent(l, "可以"@, 0);
    lemma_word_absent(l, "ok"@, 1); lemma_word_absent(l, "差"@, 0); lemma_word_absent(l, "坏"@, 0);
    lemma_word_absent(l, "讨厌"@, 0); lemma_word_absent(l, "难过"@, 0); lemma_word_absent(l, "生气"@, 0);
    lemma_word_absent(l, "悲伤"@, 0); lemma_word_too_long(l, "bad"@); lemma_word_too_long(l, "hate"@);
    lemma_word_too_long(l, "sad"@); lemma_word_at(l, "no"@, 0); lemma_word_absent(l, "不"@, 0);
    lemma_word_absent(l, "错"@, 0); lemma_word_absent(l, "糟糕"@, 0); lemma_word_too_long(l, "terrible"@);
    lemma_hit_count(l, positive_lexicon());
    lemma_hit_count(l, negative_lexicon());
}

/// "不" alone: 0 positive and 1 negative word.
proof fn lemma_mood_alone_23(t: Seq<char>, r: NluResult)
    requires
        understood(r, t, intent_table(), positive_lexicon(), negative_lexicon()),
        lowercase(t) == "不"@,
    ensures
        r.positive_hits == 0,
        r.negative_hits == 1,
{
    reveal(positive_lexicon);
    reveal(negative_lexicon);
    reveal_with_fuel(hits_upto, 15);
    reveal_strlit("棒"); reveal_strlit("喜欢"); reveal_strlit("开心"); reveal_strlit("高兴"); reveal_strlit("快乐");
    reveal_strlit("good"); reveal_strlit("great"); reveal_strlit("love"); reveal_strlit("happy");
    reveal_strlit("yes"); reveal_strlit("对"); reveal_strlit("可以"); reveal_strlit("ok"); reveal_strlit("差");
    reveal_strlit("坏"); reveal_strlit("讨厌"); reveal_strlit("难过"); reveal_strlit("生气"); reveal_strlit("悲伤");
    reveal_strlit("bad"); reveal_strlit("hate"); reveal_strlit("sad"); reveal_strlit("no");
    reveal_strlit("不"); reveal_strlit("错"); reveal_strlit("糟糕"); reveal_strlit("terrible");
    let l = "不"@;
    assert forall|i: int| 0 <= i < l.len() implies l[i] == '不' by {
        if i == 0 {}
    }
    lemma_word_absent(l, "棒"@, 0); lemma_word_too_long(l, "喜欢"@); lemma_word_too_long(l, "开心"@);
    lemma_word_too_long(l, "高兴"@); lemma_word_too_long(l, "快乐"@); lemma_word_too_long(l, "good"@);
    lemma_word_too_long(l, "great"@); lemma_word_too_long(l, "love"@); lemma_word_too_long(l, "happy"@);
    lemma_word_too_long(l, "yes"@); lemma_word_absent(l, "对"@, 0); lemma_word_too_long(l, "可以"@);
    lemma_word_too_long(l, "ok"@); lemma_word_absent(l, "差"@, 0); lemma_word_absent(l, "坏"@, 0);
    lemma_word_too_long(l, "讨厌"@); lemma_word_too_long(l, "难过"@); lemma_word_too_long(l, "生气"@);
    lemma_word_too_long(l, "悲伤"@); lemma_word_too_long(l, "bad"@); lemma_word_too_long(l, "hate"@);
    lemma_word_too_long(l, "sad"@); lemma_word_too_long(l, "no"@); lemma_word_at(l, "不"@, 0);
    lemma_word_absent(l, "错"@, 0); lemma_word_too_long(l, "糟糕"@); lemma_word_too_long(l, "terrible"@);
    lemma_hit_count(l, positive_lexicon());
    lemma_hit_count(l, negative_lexicon());
}

/// "错" alone: 0 positive and 1 negative word.
proof fn lemma_mood_alone_24(t: Seq<char>, r: NluResult)
    requires
        understood(r, t, intent_table(), positive_lexicon(), negative_lexicon()),
        lowercase(t) == "错"@,
    ensures
        r.positive_hits == 0,
        r.negative_hits == 1,
{
    reveal(positive_lexicon);
    reveal(negative_lexicon);
    reveal_with_fuel(hits_upto, 15);
    reveal_strlit("棒"); reveal_strlit("喜欢"); reveal_strlit("开心"); reveal_strlit("高兴"); reveal_strlit("快乐");
    reveal_strlit("good"); reveal_strlit("great"); reveal_strlit("love"); reveal_strlit("happy");
    reveal_strlit("yes"); reveal_strlit("对"); reveal_strlit("可以"); reveal_strlit("ok"); reveal_strlit("差");
    reveal_strlit("坏"); reveal_strlit("讨厌"); reveal_strlit("难过"); reveal_strlit("生气"); reveal_strlit("悲伤");
    reveal_strlit("bad"); reveal_strlit("hate"); reveal_strlit("sad"); reveal_strlit("no");
    reveal_strlit("不"); reveal_strlit("错"); reveal_strlit("糟糕"); reveal_strlit("terrible");
    let l = "错"@;
    assert forall|i: int| 0 <= i < l.len() implies l[i] == '错' by {
        if i == 0 {}
    }
    lemma_word_absent(l, "棒"@, 0); lemma_word_too_long(l, "喜欢"@); lemma_word_too_long(l, "开心"@);
    lemma_word_too_long(l, "高兴"@); lemma_word_too_long(l, "快乐"@); lemma_word_too_long(l, "good"@);
    lemma_word_too_long(l, "great"@); lemma_word_too_long(l, "love"@); lemma_word_too_long(l, "happy"@);
    lemma_word_too_long(l, "yes"@); lemma_word_absent(l, "对"@, 0); lemma_word_too_long(l, "可以"@);
    lemma_word_too_long(l, "ok"@); lemma_word_absent(l, "差"@, 0); lemma_word_absent(l, "坏"@, 0);
    lemma_word_too_long(l, "讨厌"@); lemma_word_too_long(l, "难过"@); lemma_word_too_long(l, "生气"@);
    lemma_word_too_long(l, "悲伤"@); lemma_word_too_long(l, "bad"@); lemma_word_too_long(l, "hate"@);
    lemma_word_too_long(l, "sad"@); lemma_word_too_long(l, "no"@); lemma_word_absent(l, "不"@, 0);
    lemma_word_at(l, "错"@, 0); lemma_word_too_long(l, "糟糕"@); lemma_word_too_long(l, "terrible"@);
    lemma_hit_count(l, positive_lexicon());
    lemma_hit_count(l, negative_lexicon());
}

/// "糟糕" alone: 0 positive and 1 negative word.
proof fn lemma_mood_alone_25(t: Seq<char>, r: NluResult)
    requires
        understood(r, t, intent_table(), positive_lexicon(), negative_lexicon()),
        lowercase(t) == "糟糕"@,
    ensures
        r.positive_hits == 0,
        r.negative_hits == 1,
{
    reveal(positive_lexicon);
    reveal(negative_lexicon);
    reveal_with_fuel(hits_upto, 15);
    reveal_strlit("棒"); reveal_strlit("喜欢"); reveal_strlit("开心"); reveal_strlit("高兴"); reveal_strlit("快乐");
    reveal_strlit("good"); reveal_strlit("great"); reveal_strlit("love"); reveal_strlit("happy");
    reveal_strlit("yes"); reveal_strlit("对"); reveal_strlit("可以"); reveal_strlit("ok"); reveal_strlit("差");
    reveal_strlit("坏"); reveal_strlit("讨厌"); reveal_strlit("难过"); reveal_strlit("生气"); reveal_strlit("悲伤");
    reveal_strlit("bad"); reveal_strlit("hate"); reveal_strlit("sad"); reveal_strlit("no");
    reveal_strlit("不"); reveal_strlit("错"); reveal_strlit("糟糕"); reveal_strlit("terrible");
    let l = "糟糕"@;
    assert forall|i: int| 0 <= i < l.len() implies l[i] == '糕' || l[i] == '糟' by {
        if i == 0 {} else if i == 1 {}
    }
    lemma_word_absent(l, "棒"@, 0); lemma_word_absent(l, "喜欢"@, 0); lemma_word_absent(l, "开心"@, 0);
    lemma_word_absent(l, "高兴"@, 0); lemma_word_absent(l, "快乐"@, 0); lemma_word_too_long(l, "good"@);
    lemma_word_too_long(l, "great"@); lemma_word_too_long(l, "love"@); lemma_word_too_long(l, "happy"@);
    lemma_word_too_long(l, "yes"@); lemma_word_absent(l, "对"@, 0); lemma_word_absent(l, "可以"@, 0);
    lemma_word_absent(l, "ok"@, 0); lemma_word_absent(l, "差"@, 0); lemma_word_absent(l, "坏"@, 0);
    lemma_word_absent(l, "讨厌"@, 0); lemma_word_absent(l, "难过"@, 0); lemma_word_absent(l, "生气"@, 0);
    lemma_word_absent(l, "悲伤"@, 0); lemma_word_too_long(l, "bad"@); lemma_word_too_long(l, "hate"@);
    lemma_word_too_long(l, "sad"@); lemma_word_absent(l, "no"@, 0); lemma_word_absent(l, "不"@, 0);
    lemma_word_absent(l, "错"@, 0); lemma_word_at(l, "糟糕"@, 0); lemma_word_too_long(l, "terrible"@);
    lemma_hit_count(l, positive_lexicon());
    lemma_hit_count(l, negative_lexicon());
}

/// "terrible" alone: 0 positive and 1 negative word.
proof fn lemma_mood_alone_26(t: Seq<char>, r: NluResult)
    requires
        understood(r, t, intent_table(), positive_lexicon(), negative_lexicon()),
        lowercase(t) == "terrible"@,
    ensures
        r.positive_hits == 0,
        r.negative_hits == 1,
{
    reveal(positive_lexicon);
    reveal(negative_lexicon);
    reveal_with_fuel(hits_upto, 15);
    reveal_strlit("棒"); reveal_strlit("喜欢"); reveal_strlit("开心"); reveal_strlit("高兴"); reveal_strlit("快乐");
    reveal_strlit("good"); reveal_strlit("great"); reveal_strlit("love"); reveal_strlit("happy");
    reveal_strlit("yes"); reveal_strlit("对"); reveal_strlit("可以"); reveal_strlit("ok"); reveal_strlit("差");
    reveal_strlit("坏"); reveal_strlit("讨厌"); reveal_strlit("难过"); reveal_strlit("生气"); reveal_strlit("悲伤");
    reveal_strlit("bad"); reveal_strlit("hate"); reveal_strlit("sad"); reveal_strlit("no");
    reveal_strlit("不"); reveal_strlit("错"); reveal_strlit("糟糕"); reveal_strlit("terrible");
    let l = "terrible"@;
    assert forall|i: int| 0 <= i < l.len() implies l[i] == 'b' || l[i] == 'e' || l[i] == 'i' || l[i] == 'l' || l[i] == 'r' || l[i] == 't' by {
        if i == 0 {} else if i == 1 {} else if i == 2 {} else if i == 3 {} else if i == 4 {} else if i == 5 {} else if i == 6 {} else if i == 7 {}
    }
    lemma_word_absent(l, "棒"@, 0); lemma_word_absent(l, "喜欢"@, 0); lemma_word_absent(l, "开心"@, 0);
    lemma_word_absent(l, "高兴"@, 0); lemma_word_absent(l, "快乐"@, 0); lemma_word_absent(l, "good"@, 0);
    lemma_word_absent(l, "great"@, 0); lemma_word_absent(l, "love"@, 1); lemma_word_absent(l, "happy"@, 0);
    lemma_word_absent(l, "yes"@, 0); lemma_word_absent(l, "对"@, 0); lemma_word_absent(l, "可以"@, 0);
    lemma_word_absent(l, "ok"@, 0); lemma_word_absent(l, "差"@, 0); lemma_word_absent(l, "坏"@, 0);
    lemma_word_absent(l, "讨厌"@, 0); lemma_word_absent(l, "难过"@, 0); lemma_word_absent(l, "生气"@, 0);
    lemma_word_absent(l, "悲伤"@, 0); lemma_word_absent(l, "bad"@, 1); lemma_word_absent(l, "hate"@, 0);
    lemma_word_absent(l, "sad"@, 0); lemma_word_absent(l, "no"@, 0); lemma_word_absent(l, "不"@, 0);
    lemma_word_absent(l, "错"@, 0); lemma_word_absent(l, "糟糕"@, 0); lemma_word_at(l, "terrible"@, 0);
    lemma_hit_count(l, positive_lexicon());
    lemma_hit_count(l, negative_lexicon());
}

/// Every sentiment word of the built-in lexicons, said alone, counts as
/// one hit of its own kind and none of the other (so "good" is one positive
/// word, "bad" one negative word).
pub proof fn law_sentiment_words_alone(t: Seq<char>, r: NluResult)
    requires
        understood(r, t, intent_table(), positive_lexicon(), negative_lexicon()),
    ensures
        lowercase(t) == "棒"@ ==> r.positive_hits == 1 && r.negative_hits == 0,
        lowercase(t) == "喜欢"@ ==> r.positive_hits == 1 && r.negative_hits == 0,
        lowercase(t) == "开心"@ ==> r.positive_hits == 1 && r.negative_hits == 0,
        lowercase(t) == "高兴"@ ==> r.positive_hits == 1 && r.negative_hits == 0,
        lowercase(t) == "快乐"@ ==> r.positive_hits == 1 && r.negative_hits == 0,
        lowercase(t) == "good"@ ==> r.positive_hits == 1 && r.negative_hits == 0,
        lowercase(t) == "great"@ ==> r.positive_hits == 1 && r.negative_hits == 0,
        lowercase(t) == "love"@ ==> r.positive_hits == 1 && r.negative_hits == 0,
        lowercase(t) == "happy"@ ==> r.positive_hits == 1 && r.negative_hits == 0,
        lowercase(t) == "yes"@ ==> r.positive_hits == 1 && r.negative_hits == 0,
        lowercase(t) == "对"@ ==> r.positive_hits == 1 && r.negative_hits == 0,
        lowercase(t) == "可以"@ ==> r.positive_hits == 1 && r.negative_hits == 0,
        lowercase(t) == "ok"@ ==> r.positive_hits == 1 && r.negative_hits == 0,
        lowercase(t) == "差"@ ==> r.positive_hits == 0 && r.negative_hits == 1,
        lowercase(t) == "坏"@ ==> r.positive_hits == 0 && r.negative_hits == 1,
        lowercase(t) == "讨厌"@ ==> r.positive_hits == 0 && r.negative_hits == 1,
        lowercase(t) == "难过"@ ==> r.positive_hits == 0 && r.negative_hits == 1,
        lowercase(t) == "生气"@ ==> r.positive_hits == 0 && r.negative_hits == 1,
        lowercase(t) == "悲伤"@ ==> r.positive_hits == 0 && r.negative_hits == 1,
        lowercase(t) == "bad"@ ==> r.positive_hits == 0 && r.negative_hits == 1,
        lowercase(t) == "hate"@ ==> r.positive_hits == 0 && r.negative_hits == 1,
        lowercase(t) == "sad"@ ==> r.positive_hits == 0 && r.negative_hits == 1,
        lowercase(t) == "no"@ ==> r.positive_hits == 0 && r.negative_hits == 1,
        lowercase(t) == "不"@ ==> r.positive_hits == 0 && r.negative_hits == 1,
        lowercase(t) == "错"@ ==> r.positive_hits == 0 && r.negative_hits == 1,
        lowercase(t) == "糟糕"@ ==> r.positive_hits == 0 && r.negative_hits == 1,
        lowercase(t) == "terrible"@ ==> r.positive_hits == 0 && r.negative_hits == 1,
{
    if lowercase(t) == "棒"@ {
        lemma_mood_alone_0(t, r);
    }
    if lowercase(t) == "喜欢"@ {
        lemma_mood_alone_1(t, r);
    }
    if lowercase(t) == "开心"@ {
        lemma_mood_alone_2(t, r);
    }
    if lowercase(t) == "高兴"@ {
        lemma_mood_alone_3(t, r);
    }
    if lowercase(t) == "快乐"@ {
        lemma_mood_alone_4(t, r);
    }
    if lowercase(t) == "good"@ {
        lemma_mood_alone_5(t, r);
    }
    if lowercase(t) == "great"@ {
        lemma_mood_alone_6(t, r);
    }
    if lowercase(t) == "love"@ {
        lemma_mood_alone_7(t, r);
    }
    if lowercase(t) == "happy"@ {
        lemma_mood_alone_8(t, r);
    }
    if lowercase(t) == "yes"@ {
        lemma_mood_alone_9(t, r);
    }
    if lowercase(t) == "对"@ {
        lemma_mood_alone_10(t, r);
    }
    if lowercase(t) == "可以"@ {
        lemma_mood_alone_11(t, r);
    }
    if lowercase(t) == "ok"@ {
        lemma_mood_alone_12(t, r);
    }
    if lowercase(t) == "差"@ {
        lemma_mood_alone_13(t, r);
    }
    if lowercase(t) == "坏"@ {
        lemma_mood_alone_14(t, r);
    }
    if lowercase(t) == "讨厌"@ {
        lemma_mood_alone_15(t, r);
    }
    if lowercase(t) == "难过"@ {
        lemma_mood_alone_16(t, r);
    }
    if lowercase(t) == "生气"@ {
        lemma_mood_alone_17(t, r);
    }
    if lowercase(t) == "悲伤"@ {
        lemma_mood_alone_18(t, r);
    }
    if lowercase(t) == "bad"@ {
        lemma_mood_alone_19(t, r);
    }
    if lowercase(t) == "hate"@ {
        lemma_mood_alone_20(t, r);
    }
    if lowercase(t) == "sad"@ {
        lemma_mood_alone_21(t, r);
    }
    if lowercase(t) == "no"@ {
        lemma_mood_alone_22(t, r);
    }
    if lowercase(t) == "不"@ {
        lemma_mood_alone_23(t, r);
    }
    if lowercase(t) == "错"@ {
        lemma_mood_alone_24(t, r);
    }
    if lowercase(t) == "糟糕"@ {
        lemma_mood_alone_25(t, r);
    }
    if lowercase(t) == "terrible"@ {
        lemma_mood_alone_26(t, r);
    }
}

/// Every keyword of the built-in intent table, said alone, is understood as
/// its own intent with one hit (so "sorry" is an apology, "hello" a
/// greeting, "please" a command, and so on), except that "为什么" also holds
/// "什么" and scores two, and "which" also holds "hi" and is taken as a
/// greeting, the first of two equal scores.
pub proof fn law_keywords_alone(t: Seq<char>, r: NluResult)
    requires
        understood(r, t, intent_table(), positive_lexicon(), negative_lexicon()),
    ensures
        lowercase(t) == "你好"@ ==> r.intent == Intent::Greeting && r.intent_score == 1,
        lowercase(t) == "hello"@ ==> r.intent == Intent::Greeting && r.intent_score == 1,
        lowercase(t) == "hi"@ ==> r.intent == Intent::Greeting && r.intent_score == 1,
        lowercase(t) == "嗨"@ ==> r.intent == Intent::Greeting && r.intent_score == 1,
        lowercase(t) == "您好"@ ==> r.intent == Intent::Greeting && r.intent_score == 1,
        lowercase(t) == "早上好"@ ==> r.intent == Intent::Greeting && r.intent_score == 1,
        lowercase(t) == "下午好"@ ==> r.intent == Intent::Greeting && r.intent_score == 1,
        lowercase(t) == "晚上好"@ ==> r.intent == Intent::Greeting && r.intent_score == 1,
        lowercase(t) == "什么"@ ==> r.intent == Intent::Question && r.intent_score == 1,
        lowercase(t) == "怎么"@ ==> r.intent == Intent::Question && r.intent_score == 1,
        lowercase(t) == "为什么"@ ==> r.intent == Intent::Question && r.intent_score == 2,
        lowercase(t) == "如何"@ ==> r.intent == Intent::Question && r.intent_score == 1,
        lowercase(t) == "哪"@ ==> r.intent == Intent::Question && r.intent_score == 1,
        lowercase(t) == "谁"@ ==> r.intent == Intent::Question && r.intent_score == 1,
        lowercase(t) == "?"@ ==> r.intent == Intent::Question && r.intent_score == 1,
        lowercase(t) == "？"@ ==> r.intent == Intent::Question && r.intent_score == 1,
        lowercase(t) == "why"@ ==> r.intent == Intent::Question && r.intent_score == 1,
        lowercase(t) == "how"@ ==> r.intent == Intent::Question && r.intent_score == 1,
        lowercase(t) == "what"@ ==> r.intent == Intent::Question && r.intent_score == 1,
        lowercase(t) == "which"@ ==> r.intent == Intent::Greeting && r.intent_score == 1,
        lowercase(t) == "做"@ ==> r.intent == Intent::Command && r.intent_score == 1,
        lowercase(t) == "运行"@ ==> r.intent == Intent::Command && r.intent_score == 1,
        lowercase(t) == "执行"@ ==> r.intent == Intent::Command && r.intent_score == 1,
        lowercase(t) == "开始"@ ==> r.intent == Intent::Command && r.intent_score == 1,
        lowercase(t) == "停止"@ ==> r.intent == Intent::Command && r.intent_score == 1,
        lowercase(t) == "请"@ ==> r.intent == Intent::Command && r.intent_score == 1,
        lowercase(t) == "帮我"@ ==> r.intent == Intent::Command && r.intent_score == 1,
        lowercase(t) == "do"@ ==> r.intent == Intent::Command && r.intent_score == 1,
        lowercase(t) == "run"@ ==> r.intent == Intent::Command && r.intent_score == 1,
        lowercase(t) == "start"@ ==> r.intent == Intent::Command && r.intent_score == 1,
        lowercase(t) == "stop"@ ==> r.intent == Intent::Command && r.intent_score == 1,
        lowercase(t) == "please"@ ==> r.intent == Intent::Command && r.intent_score == 1,
        lowercase(t) == "谢谢"@ ==> r.intent == Intent::Thanks && r.intent_score == 1,
        lowercase(t) == "感谢"@ ==> r.intent == Intent::Thanks && r.intent_score == 1,
        lowercase(t) == "多谢"@ ==> r.intent == Intent::Thanks && r.intent_score == 1,
        lowercase(t) == "thanks"@ ==> r.intent == Intent::Thanks && r.intent_score == 1,
        lowercase(t) == "thank you"@ ==> r.intent == Intent::Thanks && r.intent_score == 1,
        lowercase(t) == "对不起"@ ==> r.intent == Intent::Apology && r.intent_score == 1,
        lowercase(t) == "抱歉"@ ==> r.intent == Intent::Apology && r.intent_score == 1,
        lowercase(t) == "不好意思"@ ==> r.intent == Intent::Apology && r.intent_score == 1,
        lowercase(t) == "sorry"@ ==> r.intent == Intent::Apology && r.intent_score == 1,
        lowercase(t) == "apologize"@ ==> r.intent == Intent::Apology && r.intent_score == 1,
        lowercase(t) == "我是"@ ==> r.intent == Intent::SelfIntro && r.intent_score == 1,
        lowercase(t) == "我叫"@ ==> r.intent == Intent::SelfIntro && r.intent_score == 1,
        lowercase(t) == "我呢"@ ==> r.intent == Intent::SelfIntro && r.intent_score == 1,
        lowercase(t) == "my name is"@ ==> r.intent == Intent::SelfIntro && r.intent_score == 1,
        lowercase(t) == "i am"@ ==> r.intent == Intent::SelfIntro && r.intent_score == 1,
        lowercase(t) == "现在"@ ==> r.intent == Intent::AskState && r.intent_score == 1,
        lowercase(t) == "几点"@ ==> r.intent == Intent::AskState && r.intent_score == 1,
        lowercase(t) == "今天"@ ==> r.intent == Intent::AskState && r.intent_score == 1,
        lowercase(t) == "星期"@ ==> r.intent == Intent::AskState && r.intent_score == 1,
        lowercase(t) == "日期"@ ==> r.intent == Intent::AskState && r.intent_score == 1,
        lowercase(t) == "now"@ ==> r.intent == Intent::AskState && r.intent_score == 1,
        lowercase(t) == "time"@ ==> r.intent == Intent::AskState && r.intent_score == 1,
        lowercase(t) == "today"@ ==> r.intent == Intent::AskState && r.intent_score == 1,
        lowercase(t) == "date"@ ==> r.intent == Intent::AskState && r.intent_score == 1,
{
    if lowercase(t) == "你好"@ {
        lemma_alone_0(t, r);
    }
    if lowercase(t) == "hello"@ {
        lemma_alone_1(t, r);
    }
    if lowercase(t) == "hi"@ {
        lemma_alone_2(t, r);
    }
    if lowercase(t) == "嗨"@ {
        lemma_alone_3(t, r);
    }
    if lowercase(t) == "您好"@ {
        lemma_alone_4(t, r);
    }
    if lowercase(t) == "早上好"@ {
        lemma_alone_5(t, r);
    }
    if lowercase(t) == "下午好"@ {
        lemma_alone_6(t, r);
    }
    if lowercase(t) == "晚上好"@ {
        lemma_alone_7(t, r);
    }
    if lowercase(t) == "什么"@ {
        lemma_alone_8(t, r);
    }
    if lowercase(t) == "怎么"@ {
        lemma_alone_9(t, r);
    }
    if lowercase(t) == "为什么"@ {
        lemma_alone_10(t, r);
    }
    if lowercase(t) == "如何"@ {
        lemma_alone_11(t, r);
    }
    if lowercase(t) == "哪"@ {
        lemma_alone_12(t, r);
    }
    if lowercase(t) == "谁"@ {
        lemma_alone_13(t, r);
    }
    if lowercase(t) == "?"@ {
        lemma_alone_14(t, r);
    }
    if lowercase(t) == "？"@ {
        lemma_alone_15(t, r);
    }
    if lowercase(t) == "why"@ {
        lemma_alone_16(t, r);
    }
    if lowercase(t) == "how"@ {
        lemma_alone_17(t, r);
    }
    if lowercase(t) == "what"@ {
        lemma_alone_18(t, r);
    }
    if lowercase(t) == "which"@ {
        lemma_alone_19(t, r);
    }
    if lowercase(t) == "做"@ {
        lemma_alone_20(t, r);
    }
    if lowercase(t) == "运行"@ {
        lemma_alone_21(t, r);
    }
    if lowercase(t) == "执行"@ {
        lemma_alone_22(t, r);
    }
    if lowercase(t) == "开始"@ {
        lemma_alone_23(t, r);
    }
    if lowercase(t) == "停止"@ {
        lemma_alone_24(t, r);
    }
    if lowercase(t) == "请"@ {
        lemma_alone_25(t, r);
    }
    if lowercase(t) == "帮我"@ {
        lemma_alone_26(t, r);
    }
    if lowercase(t) == "do"@ {
        lemma_alone_27(t, r);
    }
    if lowercase(t) == "run"@ {
        lemma_alone_28(t, r);
    }
    if lowercase(t) == "start"@ {
        lemma_alone_29(t, r);
    }
    if lowercase(t) == "stop"@ {
        lemma_alone_30(t, r);
    }
    if lowercase(t) == "please"@ {
        lemma_alone_31(t, r);
    }
    if lowercase(t) == "谢谢"@ {
        lemma_alone_32(t, r);
    }
    if lowercase(t) == "感谢"@ {
        lemma_alone_33(t, r);
    }
    if lowercase(t) == "多谢"@ {
        lemma_alone_34(t, r);
    }
    if lowercase(t) == "thanks"@ {
        lemma_alone_35(t, r);
    }
    if lowercase(t) == "thank you"@ {
        lemma_alone_36(t, r);
    }
    if lowercase(t) == "对不起"@ {
        lemma_alone_37(t, r);
    }
    if lowercase(t) == "抱歉"@ {
        lemma_alone_38(t, r);
    }
    if lowercase(t) == "不好意思"@ {
        lemma_alone_39(t, r);
    }
    if lowercase(t) == "sorry"@ {
        lemma_alone_40(t, r);
    }
    if lowercase(t) == "apologize"@ {
        lemma_alone_41(t, r);
    }
    if lowercase(t) == "我是"@ {
        lemma_alone_42(t, r);
    }
    if lowercase(t) == "我叫"@ {
        lemma_alone_43(t, r);
    }
    if lowercase(t) == "我呢"@ {
        lemma_alone_44(t, r);
    }
    if lowercase(t) == "my name is"@ {
        lemma_alone_45(t, r);
    }
    if lowercase(t) == "i am"@ {
        lemma_alone_46(t, r);
    }
    if lowercase(t) == "现在"@ {
        lemma_alone_47(t, r);
    }
    if lowercase(t) == "几点"@ {
        lemma_alone_48(t, r);
    }
    if lowercase(t) == "今天"@ {
        lemma_alone_49(t, r);
    }
    if lowercase(t) == "星期"@ {
        lemma_alone_50(t, r);
    }
    if lowercase(t) == "日期"@ {
        lemma_alone_51(t, r);
    }
    if lowercase(t) == "now"@ {
        lemma_alone_52(t, r);
    }
    if lowercase(t) == "time"@ {
        lemma_alone_53(t, r);
    }
    if lowercase(t) == "today"@ {
        lemma_alone_54(t, r);
    }
    if lowercase(t) == "date"@ {
        lemma_alone_55(t, r);
    }
}

} // verus!
