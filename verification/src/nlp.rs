//! Dialogue pipeline: understanding (intent and slots), response generation,
//! chain-of-thought orchestration and the end-to-end linker.
//!
//! Everything is rule based: keyword tables, pattern matching and templates.
//! Scores are kept as exact hit counts; a confidence is `min(hits, 3) / 3`
//! and a sentiment is `(positive - negative) / (positive + negative)`.

use vstd::prelude::*;
use vstd::string::*;

use crate::text::{
    chars_of, contains_chars, decimal, find_chars_from, fixed2, lowercase, occurs_at, push_decimal, push_fixed2,
    push_fixed2_wide, push_signed_decimal, seq_contains, signed_decimal, string_of, to_lowercase, trim, trim_chars,
};

verus! {

/// Intent of an utterance.
#[derive(Debug, Clone, Copy, PartialEq, Eq, Hash, Structural)]
pub enum Intent {
    /// A greeting.
    Greeting,
    /// A question.
    Question,
    /// A command.
    Command,
    /// A statement.
    Statement,
    /// Thanks.
    Thanks,
    /// An apology.
    Apology,
    /// Not understood.
    Unknown,
    /// The speaker introduces themself.
    SelfIntro,
    /// A question about the time or the system's state.
    AskState,
}

/// The machine name of an intent.
pub open spec fn intent_label(i: Intent) -> Seq<char> {
    match i {
        Intent::Greeting => "greeting"@,
        Intent::Question => "question"@,
        Intent::Command => "command"@,
        Intent::Statement => "statement"@,
        Intent::Thanks => "thanks"@,
        Intent::Apology => "apology"@,
        Intent::Unknown => "unknown"@,
        Intent::SelfIntro => "self_intro"@,
        Intent::AskState => "ask_state"@,
    }
}

/// The variant name of an intent, as `{:?}` writes it.
pub open spec fn intent_debug(i: Intent) -> Seq<char> {
    match i {
        Intent::Greeting => "Greeting"@,
        Intent::Question => "Question"@,
        Intent::Command => "Command"@,
        Intent::Statement => "Statement"@,
        Intent::Thanks => "Thanks"@,
        Intent::Apology => "Apology"@,
        Intent::Unknown => "Unknown"@,
        Intent::SelfIntro => "SelfIntro"@,
        Intent::AskState => "AskState"@,
    }
}

impl Intent {
    /// The machine name of the intent.
    pub fn as_str(&self) -> (s: &'static str)
        ensures
            s@ == intent_label(*self),
    {
        match self {
            Intent::Greeting => "greeting",
            Intent::Question => "question",
            Intent::Command => "command",
            Intent::Statement => "statement",
            Intent::Thanks => "thanks",
            Intent::Apology => "apology",
            Intent::Unknown => "unknown",
            Intent::SelfIntro => "self_intro",
            Intent::AskState => "ask_state",
        }
    }

    /// The variant name, as `{:?}` writes it.
    pub fn debug_name(&self) -> (s: &'static str)
        ensures
            s@ == intent_debug(*self),
    {
        match self {
            Intent::Greeting => "Greeting",
            Intent::Question => "Question",
            Intent::Command => "Command",
            Intent::Statement => "Statement",
            Intent::Thanks => "Thanks",
            Intent::Apology => "Apology",
            Intent::Unknown => "Unknown",
            Intent::SelfIntro => "SelfIntro",
            Intent::AskState => "AskState",
        }
    }
}

/// A slot value.
#[derive(Debug, Clone, PartialEq)]
pub enum Slot {
    Str(String),
    Int(i64),
}

/// The text of a slot value.
pub open spec fn slot_text(s: Slot) -> Seq<char> {
    match s {
        Slot::Str(t) => t@,
        Slot::Int(i) => signed_decimal(i as int),
    }
}

impl Slot {
    /// The slot value as text.
    pub fn as_str(&self) -> (s: String)
        ensures
            s@ == slot_text(*self),
    {
        match self {
            Slot::Str(t) => t.clone(),
            Slot::Int(i) => {
                let mut s = String::new();
                push_signed_decimal(&mut s, *i);
                s
            },
        }
    }
}

/// The views of a list of string literals.
pub open spec fn strs(v: Seq<&'static str>) -> Seq<Seq<char>> {
    v.map_values(|s: &'static str| s@)
}

/// The views of a list of strings.
pub open spec fn strings(v: Seq<String>) -> Seq<Seq<char>> {
    v.map_values(|s: String| s@)
}

/// The words of `kws` that occur in `text`, in order.
pub open spec fn hit_words(text: Seq<char>, kws: Seq<Seq<char>>) -> Seq<Seq<char>>
    decreases kws.len(),
{
    if kws.len() == 0 {
        Seq::empty()
    } else {
        let prev = hit_words(text, kws.drop_last());
        if seq_contains(text, kws.last()) {
            prev.push(kws.last())
        } else {
            prev
        }
    }
}

/// An intent table: each intent with its keywords.
pub type IntentTable = Seq<(Intent, Seq<Seq<char>>)>;

/// The keyword hits of every intent of `table`, in table order.
pub open spec fn table_hits(text: Seq<char>, table: IntentTable) -> Seq<Seq<char>>
    decreases table.len(),
{
    if table.len() == 0 {
        Seq::empty()
    } else {
        table_hits(text, table.drop_last()) + hit_words(text, table.last().1)
    }
}

/// Number of keywords of entry `k` that occur in `text`.
pub open spec fn intent_score(text: Seq<char>, table: IntentTable, k: int) -> nat {
    hit_words(text, table[k].1).len()
}

/// Entry `k` has the highest positive score, and every earlier entry scores
/// lower.
pub open spec fn best_entry(text: Seq<char>, table: IntentTable, k: int) -> bool {
    &&& 0 <= k < table.len()
    &&& intent_score(text, table, k) > 0
    &&& forall|j: int| 0 <= j < table.len() ==> #[trigger] intent_score(text, table, j) <= intent_score(text, table, k)
    &&& forall|j: int| 0 <= j < k ==> #[trigger] intent_score(text, table, j) < intent_score(text, table, k)
}

/// Index of the first occurrence of `pat` in `text` (which contains it).
pub open spec fn first_index(text: Seq<char>, pat: Seq<char>) -> int {
    choose|i: int| occurs_at(text, pat, i) && forall|j: int| 0 <= j < i ==> !occurs_at(text, pat, j)
}

/// The text after the first occurrence of `marker`, trimmed and cut to 20
/// characters, if `marker` occurs.
pub open spec fn text_after(text: Seq<char>, marker: Seq<char>) -> Option<Seq<char>> {
    if seq_contains(text, marker) {
        let t = trim(text.subrange(first_index(text, marker) + marker.len(), text.len() as int));
        Some(if t.len() > 20 { t.take(20) } else { t })
    } else {
        None
    }
}

/// The question markers, in the order in which they are tried.
pub open spec fn question_markers() -> Seq<Seq<char>> {
    seq!["什么"@, "what"@, "why"@, "how"@, "怎么"@, "如何"@]
}

/// The subject found by the markers `markers[i..]`: the first marker that
/// occurs with a non-empty text after it.
pub open spec fn subject_from(text: Seq<char>, markers: Seq<Seq<char>>, i: int) -> Option<Seq<char>>
    decreases markers.len() - i,
{
    if i < 0 || i >= markers.len() {
        None
    } else {
        match text_after(text, markers[i]) {
            Some(t) => if t.len() > 0 {
                Some(t)
            } else {
                subject_from(text, markers, i + 1)
            },
            None => subject_from(text, markers, i + 1),
        }
    }
}

/// The subject of a question ("什么 X" and the like).
pub open spec fn question_subject(text: Seq<char>) -> Option<Seq<char>> {
    subject_from(text, question_markers(), 0)
}

/// The command verbs, in the order in which they are tried.
pub open spec fn command_verbs() -> Seq<Seq<char>> {
    seq!["运行"@, "执行"@, "开始"@, "停止"@, "做"@, "run"@, "start"@, "stop"@, "do"@, "execute"@]
}

/// The first verb of `verbs[i..]` that occurs in `text`.
pub open spec fn verb_from(text: Seq<char>, verbs: Seq<Seq<char>>, i: int) -> Option<Seq<char>>
    decreases verbs.len() - i,
{
    if i < 0 || i >= verbs.len() {
        None
    } else if seq_contains(text, verbs[i]) {
        Some(verbs[i])
    } else {
        verb_from(text, verbs, i + 1)
    }
}

/// The verb of a command.
pub open spec fn command_verb(text: Seq<char>) -> Option<Seq<char>> {
    verb_from(text, command_verbs(), 0)
}

/// The slots found for `intent` in `text`: a "subject" for a question, a
/// "verb" for a command.
pub open spec fn slots_for(intent: Intent, text: Seq<char>) -> Seq<(Seq<char>, Seq<char>)> {
    if intent == Intent::Question {
        match question_subject(text) {
            Some(s) => seq![("subject"@, s)],
            None => Seq::empty(),
        }
    } else if intent == Intent::Command {
        match command_verb(text) {
            Some(v) => seq![("verb"@, v)],
            None => Seq::empty(),
        }
    } else {
        Seq::empty()
    }
}

/// The views of a slot list.
pub open spec fn slot_views(v: Seq<(String, Slot)>) -> Seq<(Seq<char>, Seq<char>)> {
    v.map_values(|p: (String, Slot)| (p.0@, slot_text(p.1)))
}

/// Result of understanding an utterance.
#[derive(Debug, Clone)]
pub struct NluResult {
    pub intent: Intent,
    /// Keyword hits of the chosen intent; the confidence is
    /// `min(intent_score, 3) / 3`.
    pub intent_score: usize,
    pub slots: Vec<(String, Slot)>,
    /// The keywords that were hit.
    pub keywords: Vec<String>,
    /// Positive sentiment words found.
    pub positive_hits: usize,
    /// Negative sentiment words found.
    pub negative_hits: usize,
}

impl NluResult {
    /// A result of the given intent with no score, slot, keyword or sentiment.
    pub fn new(intent: Intent) -> (r: Self)
        ensures
            r.intent == intent,
            r.intent_score == 0,
            r.slots@.len() == 0,
            r.keywords@.len() == 0,
            r.positive_hits == 0,
            r.negative_hits == 0,
    {
        NluResult {
            intent,
            intent_score: 0,
            slots: Vec::new(),
            keywords: Vec::new(),
            positive_hits: 0,
            negative_hits: 0,
        }
    }
}

/// The built-in intent keyword table.
#[verifier::opaque]
pub open spec fn intent_table() -> IntentTable {
    seq![
        (Intent::Greeting, seq!["你好"@, "hello"@, "hi"@, "嗨"@, "您好"@, "早上好"@, "下午好"@, "晚上好"@]),
        (Intent::Question, seq!["什么"@, "怎么"@, "为什么"@, "如何"@, "哪"@, "谁"@, "?"@, "？"@, "why"@, "how"@, "what"@, "which"@]),
        (Intent::Command, seq!["做"@, "运行"@, "执行"@, "开始"@, "停止"@, "请"@, "帮我"@, "do"@, "run"@, "start"@, "stop"@, "please"@]),
        (Intent::Thanks, seq!["谢谢"@, "感谢"@, "多谢"@, "thanks"@, "thank you"@]),
        (Intent::Apology, seq!["对不起"@, "抱歉"@, "不好意思"@, "sorry"@, "apologize"@]),
        (Intent::SelfIntro, seq!["我是"@, "我叫"@, "我呢"@, "my name is"@, "i am"@]),
        (Intent::AskState, seq!["现在"@, "几点"@, "今天"@, "星期"@, "日期"@, "now"@, "time"@, "today"@, "date"@]),
    ]
}

/// The built-in positive sentiment words.
#[verifier::opaque]
pub open spec fn positive_lexicon() -> Seq<Seq<char>> {
    seq!["棒"@, "喜欢"@, "开心"@, "高兴"@, "快乐"@, "good"@, "great"@, "love"@, "happy"@, "yes"@, "对"@, "可以"@, "ok"@]
}

/// The built-in negative sentiment words.
#[verifier::opaque]
pub open spec fn negative_lexicon() -> Seq<Seq<char>> {
    seq!["差"@, "坏"@, "讨厌"@, "难过"@, "生气"@, "悲伤"@, "bad"@, "hate"@, "sad"@, "no"@, "不"@, "错"@, "糟糕"@, "terrible"@]
}

/// Rule-based understanding engine.
pub struct NluEngine {
    intent_keywords: Vec<(Intent, Vec<&'static str>)>,
    positive_words: Vec<&'static str>,
    negative_words: Vec<&'static str>,
}

/// What understanding `text` with the given tables yields.
pub open spec fn understood(
    r: NluResult,
    text: Seq<char>,
    table: IntentTable,
    pos: Seq<Seq<char>>,
    neg: Seq<Seq<char>>,
) -> bool {
    understood_from(r, text, lowercase(text), table, pos, neg)
}

/// What understanding `text`, whose lowercased form is `lower`, with the
/// given tables yields: intents and sentiment are scored on `lower`, slots
/// are taken from `text`.
pub open spec fn understood_from(
    r: NluResult,
    text: Seq<char>,
    lower: Seq<char>,
    table: IntentTable,
    pos: Seq<Seq<char>>,
    neg: Seq<Seq<char>>,
) -> bool {
    &&& strings(r.keywords@) == table_hits(lower, table)
    &&& r.positive_hits == hit_words(lower, pos).len()
    &&& r.negative_hits == hit_words(lower, neg).len()
    &&& (forall|k: int| 0 <= k < table.len() ==> #[trigger] intent_score(lower, table, k) == 0) ==> (
    r.intent == Intent::Statement && r.intent_score == 0)
    &&& (exists|k: int| 0 <= k < table.len() && #[trigger] intent_score(lower, table, k) > 0) ==> exists|k: int|
        best_entry(lower, table, k) && r.intent == table[k].0 && r.intent_score == intent_score(
            lower,
            table,
            k,
        )
    &&& slot_views(r.slots@) == slots_for(r.intent, text)
    &&& forall|i: int| 0 <= i < r.slots@.len() ==> #[trigger] r.slots@[i].1 is Str
}

impl NluEngine {
    /// The engine's intent table.
    pub closed spec fn table(&self) -> IntentTable {
        self.intent_keywords@.map_values(|p: (Intent, Vec<&'static str>)| (p.0, strs(p.1@)))
    }

    /// The engine's positive words.
    pub closed spec fn positive(&self) -> Seq<Seq<char>> {
        strs(self.positive_words@)
    }

    /// The engine's negative words.
    pub closed spec fn negative(&self) -> Seq<Seq<char>> {
        strs(self.negative_words@)
    }

    /// An engine with the built-in tables.
    pub fn new() -> (e: Self)
        ensures
            e.table() == intent_table(),
            e.positive() == positive_lexicon(),
            e.negative() == negative_lexicon(),
    {
        let mut t: Vec<(Intent, Vec<&'static str>)> = Vec::new();
        let w0: Vec<&'static str> = vec!["你好", "hello", "hi", "嗨", "您好", "早上好", "下午好", "晚上好"];
        proof { reveal(intent_table); assert(strs(w0@) =~= intent_table()[0].1); }
        t.push((Intent::Greeting, w0));
        let w1: Vec<&'static str> = vec!["什么", "怎么", "为什么", "如何", "哪", "谁", "?", "？", "why", "how", "what", "which"];
        proof { reveal(intent_table); assert(strs(w1@) =~= intent_table()[1].1); }
        t.push((Intent::Question, w1));
        let w2: Vec<&'static str> = vec!["做", "运行", "执行", "开始", "停止", "请", "帮我", "do", "run", "start", "stop", "please"];
        proof { reveal(intent_table); assert(strs(w2@) =~= intent_table()[2].1); }
        t.push((Intent::Command, w2));
        let w3: Vec<&'static str> = vec!["谢谢", "感谢", "多谢", "thanks", "thank you"];
        proof { reveal(intent_table); assert(strs(w3@) =~= intent_table()[3].1); }
        t.push((Intent::Thanks, w3));
        let w4: Vec<&'static str> = vec!["对不起", "抱歉", "不好意思", "sorry", "apologize"];
        proof { reveal(intent_table); assert(strs(w4@) =~= intent_table()[4].1); }
        t.push((Intent::Apology, w4));
        let w5: Vec<&'static str> = vec!["我是", "我叫", "我呢", "my name is", "i am"];
        proof { reveal(intent_table); assert(strs(w5@) =~= intent_table()[5].1); }
        t.push((Intent::SelfIntro, w5));
        let w6: Vec<&'static str> = vec!["现在", "几点", "今天", "星期", "日期", "now", "time", "today", "date"];
        proof { reveal(intent_table); assert(strs(w6@) =~= intent_table()[6].1); }
        t.push((Intent::AskState, w6));
        let pos = vec!["棒", "喜欢", "开心", "高兴", "快乐", "good", "great", "love", "happy", "yes", "对", "可以", "ok"];
        let neg = vec!["差", "坏", "讨厌", "难过", "生气", "悲伤", "bad", "hate", "sad", "no", "不", "错", "糟糕", "terrible"];
        let e = NluEngine { intent_keywords: t, positive_words: pos, negative_words: neg };
        proof {
            reveal(intent_table);
            reveal(positive_lexicon);
            reveal(negative_lexicon);
            assert forall|i: int| 0 <= i < 7 implies #[trigger] e.table()[i] == intent_table()[i] by {}
            assert(e.table() =~= intent_table());
            assert(e.positive() =~= positive_lexicon());
            assert(e.negative() =~= negative_lexicon());
        }
        e
    }

    /// Collects the words of `words` that occur in `lower`.
    fn hits(lower: &[char], words: &Vec<&'static str>, out: &mut Vec<String>) -> (n: usize)
        ensures
            strings(final(out)@) == strings(old(out)@) + hit_words(lower@, strs(words@)),
            n == hit_words(lower@, strs(words@)).len(),
    {
        let mut n: usize = 0;
        let mut j: usize = 0;
        while j < words.len()
            invariant
                j <= words@.len(),
                strings(out@) == strings(old(out)@) + hit_words(lower@, strs(words@.subrange(0, j as int))),
                n == hit_words(lower@, strs(words@.subrange(0, j as int))).len(),
                n <= j,
            decreases words@.len() - j,
        {
            let w = words[j];
            let wc = chars_of(w);
            let ghost before = out@;
            proof {
                let ws = strs(words@.subrange(0, j + 1));
                assert(ws.drop_last() =~= strs(words@.subrange(0, j as int)));
                assert(ws.last() == w@);
            }
            if contains_chars(lower, wc.as_slice()) {
                out.push(String::from_str(w));
                n = n + 1;
                assert(strings(out@) =~= strings(before).push(w@));
            }
            j = j + 1;
        }
        assert(words@.subrange(0, words@.len() as int) =~= words@);
        n
    }

    /// Understands `text`: scores each intent by its keywords found in the
    /// lowercased text and takes the best (the first among equals), falling
    /// back to a statement when nothing matches; fills the slots of
    /// questions and commands; counts sentiment words.
    pub fn understand(&self, text: &str) -> (r: NluResult)
        ensures
            understood(r, text@, self.table(), self.positive(), self.negative()),
    {
        let lower_s = to_lowercase(text);
        self.understand_lowered(text, lower_s.as_str())
    }

    /// Understands `text` given its lowercased form `lower_text`: scores
    /// each intent by its keywords found in `lower_text` and takes the best
    /// (the first among equals), falling back to a statement when nothing
    /// matches; fills the slots of questions and commands from `text`;
    /// counts the sentiment words found in `lower_text`.
    pub fn understand_lowered(&self, text: &str, lower_text: &str) -> (r: NluResult)
        ensures
            understood_from(r, text@, lower_text@, self.table(), self.positive(), self.negative()),
    {
        let lower = chars_of(lower_text);
        let ghost low = lower_text@;
        let ghost table = self.table();
        let mut keywords: Vec<String> = Vec::new();
        let mut best: usize = 0;
        let mut best_score: usize = 0;
        let mut i: usize = 0;
        while i < self.intent_keywords.len()
            invariant
                lower@ == low,
                table == self.table(),
                i <= table.len(),
                strings(keywords@) == table_hits(low, table.subrange(0, i as int)),
                best_score == 0 ==> forall|j: int| 0 <= j < i ==> #[trigger] intent_score(low, table, j) == 0,
                best_score > 0 ==> best < i && best_score == intent_score(low, table, best as int) && (forall|j: int|
                    0 <= j < i ==> #[trigger] intent_score(low, table, j) <= best_score) && (forall|j: int|
                    0 <= j < best ==> #[trigger] intent_score(low, table, j) < best_score),
            decreases table.len() - i,
        {
            let ghost before = keywords@;
            let score = Self::hits(lower.as_slice(), &self.intent_keywords[i].1, &mut keywords);
            proof {
                let ts = table.subrange(0, i + 1);
                assert(ts.drop_last() =~= table.subrange(0, i as int));
                assert(ts.last() == table[i as int]);
                assert(table[i as int].1 == strs(self.intent_keywords@[i as int].1@));
            }
            if score > best_score {
                best_score = score;
                best = i;
            }
            i = i + 1;
        }
        assert(table.subrange(0, table.len() as int) =~= table);
        let intent = if best_score > 0 {
            self.intent_keywords[best].0
        } else {
            Intent::Statement
        };
        let mut pos_sink: Vec<String> = Vec::new();
        let mut neg_sink: Vec<String> = Vec::new();
        let positive_hits = Self::hits(lower.as_slice(), &self.positive_words, &mut pos_sink);
        let negative_hits = Self::hits(lower.as_slice(), &self.negative_words, &mut neg_sink);
        let mut slots: Vec<(String, Slot)> = Vec::new();
        if intent == Intent::Question {
            match extract_question_subject(text) {
                Some(s) => {
                    slots.push((String::from_str("subject"), Slot::Str(s)));
                },
                None => {},
            }
        } else if intent == Intent::Command {
            match extract_command_verb(text) {
                Some(v) => {
                    slots.push((String::from_str("verb"), Slot::Str(v)));
                },
                None => {},
            }
        }
        let r = NluResult { intent, intent_score: best_score, slots, keywords, positive_hits, negative_hits };
        proof {
            assert(slot_views(r.slots@) =~= slots_for(r.intent, text@));
            if best_score > 0 {
                assert(best_entry(low, table, best as int));
                assert(table[best as int].0 == self.intent_keywords@[best as int].0);
            } else {
                assert forall|k: int| 0 <= k < table.len() implies #[trigger] intent_score(low, table, k) == 0 by {}
            }
        }
        r
    }
}

/// The text after the first occurrence of `marker` in `text`, trimmed and
/// cut to 20 characters, if `marker` occurs.
fn after_marker(text: &[char], marker: &str) -> (r: Option<Vec<char>>)
    ensures
        match r {
            Some(v) => text_after(text@, marker@) == Some(v@),
            None => text_after(text@, marker@) is None,
        },
{
    let m = chars_of(marker);
    match find_chars_from(text, m.as_slice(), 0) {
        Some(idx) => {
            proof {
                assert(seq_contains(text@, marker@));
                let f = first_index(text@, marker@);
                assert(occurs_at(text@, marker@, f) && forall|j: int| 0 <= j < f ==> !occurs_at(text@, marker@, j)) by {
                    assert(occurs_at(text@, marker@, idx as int) && forall|j: int| 0 <= j < idx ==> !occurs_at(text@, marker@, j));
                }
                if f < idx {
                } else if idx < f {
                }
                assert(f == idx as int);
            }
            let ml = m.len();
            assert(occurs_at(text@, m@, idx as int));
            let tl = text.len();
            assert(idx + ml <= tl);
            let mut rest: Vec<char> = Vec::new();
            let mut k: usize = idx + ml;
            while k < text.len()
                invariant
                    idx + m@.len() <= k <= text@.len(),
                    rest@ == text@.subrange(idx + m@.len(), k as int),
                decreases text@.len() - k,
            {
                rest.push(text[k]);
                k = k + 1;
                assert(rest@ =~= text@.subrange(idx + m@.len(), k as int));
            }
            let t = trim_chars(rest.as_slice());
            if t.len() > 20 {
                let mut c: Vec<char> = Vec::new();
                let mut j: usize = 0;
                while j < 20
                    invariant
                        j <= 20,
                        t@.len() > 20,
                        c@ == t@.take(j as int),
                    decreases 20 - j,
                {
                    c.push(t[j]);
                    j = j + 1;
                    assert(c@ =~= t@.take(j as int));
                }
                Some(c)
            } else {
                Some(t)
            }
        },
        None => {
            proof {
                assert forall|j: int| !#[trigger] occurs_at(text@, marker@, j) by {
                    if j >= 0 {
                    }
                }
            }
            None
        },
    }
}

/// The subject of a question: the text after the first of the markers
/// "什么", "what", "why", "how", "怎么", "如何" that occurs with a non-empty
/// text after it, trimmed and cut to 20 characters.
pub fn extract_question_subject(text: &str) -> (r: Option<String>)
    ensures
        match r {
            Some(s) => question_subject(text@) == Some(s@),
            None => question_subject(text@) is None,
        },
{
    let tc = chars_of(text);
    let markers = vec!["什么", "what", "why", "how", "怎么", "如何"];
    proof {
        assert(strs(markers@) =~= question_markers());
    }
    let mut i: usize = 0;
    while i < markers.len()
        invariant
            i <= markers@.len(),
            tc@ == text@,
            strs(markers@) == question_markers(),
            subject_from(text@, question_markers(), 0) == subject_from(text@, question_markers(), i as int),
        decreases markers@.len() - i,
    {
        let marker = markers[i];
        assert(question_markers()[i as int] == marker@);
        match after_marker(tc.as_slice(), marker) {
            Some(t) => {
                if t.len() > 0 {
                    return Some(string_of(t.as_slice()));
                }
            },
            None => {},
        }
        i = i + 1;
    }
    None
}

/// The verb of a command: the first of "运行", "执行", "开始", "停止", "做",
/// "run", "start", "stop", "do", "execute" that occurs in the text.
pub fn extract_command_verb(text: &str) -> (r: Option<String>)
    ensures
        match r {
            Some(s) => command_verb(text@) == Some(s@),
            None => command_verb(text@) is None,
        },
{
    let tc = chars_of(text);
    let verbs = vec!["运行", "执行", "开始", "停止", "做", "run", "start", "stop", "do", "execute"];
    proof {
        assert(strs(verbs@) =~= command_verbs());
    }
    let mut i: usize = 0;
    while i < verbs.len()
        invariant
            i <= verbs@.len(),
            tc@ == text@,
            strs(verbs@) == command_verbs(),
            verb_from(text@, command_verbs(), 0) == verb_from(text@, command_verbs(), i as int),
        decreases verbs@.len() - i,
    {
        let verb = verbs[i];
        assert(command_verbs()[i as int] == verb@);
        let vc = chars_of(verb);
        if contains_chars(tc.as_slice(), vc.as_slice()) {
            return Some(String::from_str(verb));
        }
        i = i + 1;
    }
    None
}

/// The value of slot `key`: the first slot with that key.
pub open spec fn slot_lookup(slots: Seq<(Seq<char>, Seq<char>)>, key: Seq<char>) -> Option<Seq<char>>
    decreases slots.len(),
{
    if slots.len() == 0 {
        None
    } else if slots[0].0 == key {
        Some(slots[0].1)
    } else {
        slot_lookup(slots.drop_first(), key)
    }
}

/// The templated reply to an intent with its slots.
pub open spec fn response_text(intent: Intent, slots: Seq<(Seq<char>, Seq<char>)>) -> Seq<char> {
    match intent {
        Intent::Greeting => "你好!我是群星 A.I. OS,有什么我能帮你的?"@,
        Intent::Thanks => "不客气!这是我应该做的."@,
        Intent::Apology => "没关系,继续吧."@,
        Intent::Question => "关于「"@ + (match slot_lookup(slots, "subject"@) {
            Some(s) => s,
            None => "这个"@,
        }) + "」,让我想想..."@,
        Intent::Command => "好的,我会"@ + (match slot_lookup(slots, "verb"@) {
            Some(v) => v,
            None => "做"@,
        }) + "这件事."@,
        Intent::SelfIntro => "很高兴认识你!我是群星 A.I. OS,一个多模块 AGI 操作系统."@,
        Intent::AskState => "我正在运行,状态正常."@,
        Intent::Statement => "我听到了."@,
        Intent::Unknown => "抱歉,我没完全理解,请再说一遍?"@,
    }
}

/// Looking a key up finds the value of its first occurrence, and nothing
/// when the key does not occur.
proof fn lemma_slot_lookup_first(slots: Seq<(Seq<char>, Seq<char>)>, key: Seq<char>)
    ensures
        forall|i: int|
            0 <= i < slots.len() && slots[i].0 == key && (forall|j: int| 0 <= j < i ==> slots[j].0 != key)
                ==> slot_lookup(slots, key) == Some(#[trigger] slots[i].1),
        (forall|j: int| 0 <= j < slots.len() ==> slots[j].0 != key) ==> slot_lookup(slots, key) is None,
    decreases slots.len(),
{
    if slots.len() > 0 {
        let rest = slots.drop_first();
        lemma_slot_lookup_first(rest, key);
        assert forall|i: int|
            0 <= i < slots.len() && slots[i].0 == key && (forall|j: int| 0 <= j < i ==> slots[j].0 != key)
                implies slot_lookup(slots, key) == Some(#[trigger] slots[i].1) by {
            if i > 0 {
                assert(slots[0].0 != key);
                assert(rest[i - 1] == slots[i]);
                assert forall|j: int| 0 <= j < i - 1 implies rest[j].0 != key by {
                    assert(rest[j] == slots[j + 1]);
                }
            }
        }
        if forall|j: int| 0 <= j < slots.len() ==> slots[j].0 != key {
            assert(slots[0].0 != key);
            assert forall|j: int| 0 <= j < rest.len() implies rest[j].0 != key by {
                assert(rest[j] == slots[j + 1]);
            }
        }
    }
}

/// The question and command replies quote their slot: for a question whose
/// first "subject" slot holds `s` the reply is "关于「s」,让我想想...", and
/// "关于「这个」,让我想想..." when there is no subject; for a command whose
/// first "verb" slot holds `v` it is "好的,我会v这件事.", and "好的,我会做这件事."
/// when there is no verb.
pub proof fn law_replies_quote_slots(slots: Seq<(Seq<char>, Seq<char>)>, i: int)
    ensures
        0 <= i < slots.len() && slots[i].0 == "subject"@ && (forall|j: int|
            0 <= j < i ==> slots[j].0 != "subject"@) ==> response_text(Intent::Question, slots) == "关于「"@
            + slots[i].1 + "」,让我想想..."@,
        (forall|j: int| 0 <= j < slots.len() ==> slots[j].0 != "subject"@) ==> response_text(
            Intent::Question,
            slots,
        ) == "关于「"@ + "这个"@ + "」,让我想想..."@,
        0 <= i < slots.len() && slots[i].0 == "verb"@ && (forall|j: int| 0 <= j < i ==> slots[j].0 != "verb"@)
            ==> response_text(Intent::Command, slots) == "好的,我会"@ + slots[i].1 + "这件事."@,
        (forall|j: int| 0 <= j < slots.len() ==> slots[j].0 != "verb"@) ==> response_text(Intent::Command, slots)
            == "好的,我会"@ + "做"@ + "这件事."@,
{
    lemma_slot_lookup_first(slots, "subject"@);
    lemma_slot_lookup_first(slots, "verb"@);
    if 0 <= i < slots.len() {
        assert(slots[i].1 == slots[i].1);
    }
}

/// The numbered lines "  步骤 i: step" of an explanation, from step `from`
/// (counted from one) on.
pub open spec fn explanation_lines(steps: Seq<Seq<char>>) -> Seq<char>
    decreases steps.len(),
{
    if steps.len() == 0 {
        Seq::empty()
    } else {
        explanation_lines(steps.drop_last()) + "  步骤 "@ + decimal(steps.len()) + ": "@ + steps.last()
            + "\n"@
    }
}

/// The explanation of a list of reasoning steps.
pub open spec fn explanation_text(steps: Seq<Seq<char>>) -> Seq<char> {
    if steps.len() == 0 {
        "没有可解释的步骤."@
    } else {
        "我的推理过程:\n"@ + explanation_lines(steps)
    }
}

/// Template-based response generator.
pub struct NlgEngine;

impl NlgEngine {
    /// A generator.
    pub fn new() -> (e: Self) {
        NlgEngine
    }

    fn lookup(slots: &Vec<(String, Slot)>, key: &str) -> (r: Option<String>)
        ensures
            match r {
                Some(v) => slot_lookup(slot_views(slots@), key@) == Some(v@),
                None => slot_lookup(slot_views(slots@), key@) is None,
            },
    {
        let mut i: usize = 0;
        assert(slot_views(slots@).skip(0) =~= slot_views(slots@));
        while i < slots.len()
            invariant
                i <= slots@.len(),
                slot_lookup(slot_views(slots@), key@) == slot_lookup(slot_views(slots@).skip(i as int), key@),
            decreases slots@.len() - i,
        {
            proof {
                let sv = slot_views(slots@).skip(i as int);
                assert(sv.drop_first() =~= slot_views(slots@).skip(i + 1));
                assert(sv[0] == (slots@[i as int].0@, slot_text(slots@[i as int].1)));
            }
            if crate::text::str_eq(slots[i].0.as_str(), key) {
                return Some(slots[i].1.as_str());
            }
            i = i + 1;
        }
        None
    }

    /// The templated reply to `intent`, filled from `slots`.
    pub fn generate_response(&self, intent: &Intent, slots: &Vec<(String, Slot)>) -> (s: String)
        ensures
            s@ == response_text(*intent, slot_views(slots@)),
    {
        match intent {
            Intent::Greeting => String::from_str("你好!我是群星 A.I. OS,有什么我能帮你的?"),
            Intent::Thanks => String::from_str("不客气!这是我应该做的."),
            Intent::Apology => String::from_str("没关系,继续吧."),
            Intent::Question => {
                let subject = match Self::lookup(slots, "subject") {
                    Some(s) => s,
                    None => String::from_str("这个"),
                };
                let mut out = String::from_str("关于「");
                out.append(subject.as_str());
                out.append("」,让我想想...");
                out
            },
            Intent::Command => {
                let verb = match Self::lookup(slots, "verb") {
                    Some(v) => v,
                    None => String::from_str("做"),
                };
                let mut out = String::from_str("好的,我会");
                out.append(verb.as_str());
                out.append("这件事.");
                out
            },
            Intent::SelfIntro => String::from_str("很高兴认识你!我是群星 A.I. OS,一个多模块 AGI 操作系统."),
            Intent::AskState => String::from_str("我正在运行,状态正常."),
            Intent::Statement => String::from_str("我听到了."),
            Intent::Unknown => String::from_str("抱歉,我没完全理解,请再说一遍?"),
        }
    }

    /// The explanation of a list of reasoning steps, one numbered line each.
    pub fn generate_explanation(&self, steps: &[String]) -> (s: String)
        requires
            steps@.len() < u64::MAX,
        ensures
            s@ == explanation_text(strings(steps@)),
    {
        if steps.len() == 0 {
            return String::from_str("没有可解释的步骤.");
        }
        let mut out = String::from_str("我的推理过程:\n");
        let ghost head = out@;
        let mut i: usize = 0;
        while i < steps.len()
            invariant
                i <= steps@.len(),
                steps@.len() < u64::MAX,
                out@ == head + explanation_lines(strings(steps@.subrange(0, i as int))),
            decreases steps@.len() - i,
        {
            out.append("  步骤 ");
            push_decimal(&mut out, (i + 1) as u64);
            out.append(": ");
            out.append(steps[i].as_str());
            out.append("\n");
            proof {
                let ss = strings(steps@.subrange(0, i + 1));
                assert(ss.drop_last() =~= strings(steps@.subrange(0, i as int)));
                assert(ss.last() == steps@[i as int]@);
                assert(ss.len() == i + 1);
            }
            i = i + 1;
        }
        assert(steps@.subrange(0, steps@.len() as int) =~= steps@);
        out
    }
}

/// Kind of a chain-of-thought step.
#[derive(Debug, Clone, Copy, PartialEq, Eq, Structural)]
pub enum CotStepType {
    /// Observation.
    Observation,
    /// Hypothesis.
    Hypothesis,
    /// Inference.
    Inference,
    /// Verification.
    Verification,
    /// Decision.
    Decision,
}

/// The variant name of a step type, as `{:?}` writes it.
pub open spec fn step_type_debug(t: CotStepType) -> Seq<char> {
    match t {
        CotStepType::Observation => "Observation"@,
        CotStepType::Hypothesis => "Hypothesis"@,
        CotStepType::Inference => "Inference"@,
        CotStepType::Verification => "Verification"@,
        CotStepType::Decision => "Decision"@,
    }
}

impl CotStepType {
    /// The variant name, as `{:?}` writes it.
    pub fn debug_name(&self) -> (s: &'static str)
        ensures
            s@ == step_type_debug(*self),
    {
        match self {
            CotStepType::Observation => "Observation",
            CotStepType::Hypothesis => "Hypothesis",
            CotStepType::Inference => "Inference",
            CotStepType::Verification => "Verification",
            CotStepType::Decision => "Decision",
        }
    }
}

/// An exact fraction `num / den`.
#[derive(Debug, Clone, Copy, PartialEq, Eq, Structural)]
pub struct Ratio {
    pub num: u64,
    pub den: u64,
}

/// One step of a chain of thought.
#[derive(Debug, Clone)]
pub struct CotStep {
    pub id: u64,
    pub description: String,
    pub step_type: CotStepType,
    pub input: String,
    pub output: String,
    /// The step's confidence, as an exact fraction.
    pub confidence: Ratio,
}

/// A chain of thought: its goal, its steps and its conclusion.
#[derive(Debug, Clone)]
pub struct ChainOfThought {
    pub steps: Vec<CotStep>,
    pub goal: String,
    pub conclusion: String,
}

/// The one-line summary of a step: "[Type] input -> output".
pub open spec fn step_summary(s: CotStep) -> Seq<char> {
    "["@ + step_type_debug(s.step_type) + "] "@ + s.input@ + " -> "@ + s.output@
}

impl ChainOfThought {
    /// An empty chain towards `goal`.
    pub fn new(goal: String) -> (c: Self)
        ensures
            c.steps@.len() == 0,
            c.goal == goal,
            c.conclusion@.len() == 0,
    {
        ChainOfThought { steps: Vec::new(), goal, conclusion: String::new() }
    }

    /// Appends a step.
    pub fn add_step(&mut self, step: CotStep)
        ensures
            final(self).steps@ == old(self).steps@.push(step),
            final(self).goal == old(self).goal,
            final(self).conclusion == old(self).conclusion,
    {
        self.steps.push(step);
    }

    /// Number of steps.
    pub fn len(&self) -> (n: usize)
        ensures
            n == self.steps@.len(),
    {
        self.steps.len()
    }

    /// Whether there is no step.
    pub fn is_empty(&self) -> (b: bool)
        ensures
            b == (self.steps@.len() == 0),
    {
        self.steps.len() == 0
    }

    /// One summary line per step.
    pub fn summary(&self) -> (v: Vec<String>)
        ensures
            v@.len() == self.steps@.len(),
            forall|i: int| 0 <= i < v@.len() ==> #[trigger] v@[i]@ == step_summary(self.steps@[i]),
    {
        let mut v: Vec<String> = Vec::new();
        let mut i: usize = 0;
        while i < self.steps.len()
            invariant
                i <= self.steps@.len(),
                v@.len() == i,
                forall|j: int| 0 <= j < i ==> #[trigger] v@[j]@ == step_summary(self.steps@[j]),
            decreases self.steps@.len() - i,
        {
            let st = &self.steps[i];
            let mut line = String::from_str("[");
            line.append(st.step_type.debug_name());
            line.append("] ");
            line.append(st.input.as_str());
            line.append(" -> ");
            line.append(st.output.as_str());
            v.push(line);
            i = i + 1;
        }
        v
    }
}

/// The keywords joined with commas.
pub open spec fn join_commas(words: Seq<Seq<char>>) -> Seq<char>
    decreases words.len(),
{
    if words.len() == 0 {
        Seq::empty()
    } else if words.len() == 1 {
        words[0]
    } else {
        join_commas(words.drop_last()) + ","@ + words.last()
    }
}

/// The slots written as " key=value" each.
pub open spec fn slots_text(slots: Seq<(Seq<char>, Seq<char>)>) -> Seq<char>
    decreases slots.len(),
{
    if slots.len() == 0 {
        Seq::empty()
    } else {
        slots_text(slots.drop_last()) + " "@ + slots.last().0 + "="@ + slots.last().1
    }
}

/// The sentiment of a result, as a fraction: `(positive - negative) /
/// (positive + negative)`, or zero when no sentiment word was found.
pub open spec fn sentiment_fraction(r: NluResult) -> (int, nat) {
    if r.positive_hits + r.negative_hits == 0 {
        (0, 1)
    } else {
        (r.positive_hits - r.negative_hits, (r.positive_hits + r.negative_hits) as nat)
    }
}

/// The confidence of a result, as a fraction: `min(intent_score, 3) / 3`.
pub open spec fn confidence_fraction(r: NluResult) -> (int, nat) {
    (if r.intent_score < 3 { r.intent_score as int } else { 3 }, 3)
}

/// The four steps built for an understanding result, numbered from `first`.
pub open spec fn chain_steps_ok(steps: Seq<CotStep>, r: NluResult, first: u64) -> bool {
    let conf = confidence_fraction(r);
    let sent = sentiment_fraction(r);
    &&& steps.len() == 4
    &&& steps[0].id == first && steps[1].id == first + 1 && steps[2].id == first + 2 && steps[3].id
        == first + 3
    &&& steps[0].step_type == CotStepType::Observation && steps[0].description@ == "观察用户输入"@
        && steps[0].input@ == join_commas(strings(r.keywords@)) && steps[0].output@ == "意图:"@
        + intent_debug(r.intent) + ", 置信度:"@ + fixed2(conf.0, conf.1) && steps[0].confidence == Ratio {
        num: conf.0 as u64,
        den: 3,
    }
    &&& steps[1].step_type == CotStepType::Hypothesis && steps[1].description@ == "形成响应假设"@
        && steps[1].input@ == intent_label(r.intent) && steps[1].output@ == "选择对应的回复模板"@
        && steps[1].confidence == Ratio { num: (9 * conf.0) as u64, den: 30 }
    &&& steps[2].step_type == CotStepType::Inference && steps[2].description@ == "填充槽位"@
        && steps[2].input@ == decimal(r.slots@.len()) + " 个槽位"@ && steps[2].output@ == "槽位:"@
        + slots_text(slot_views(r.slots@)) && steps[2].confidence == Ratio { num: 8, den: 10 }
    &&& steps[3].step_type == CotStepType::Decision && steps[3].description@ == "决策"@
        && steps[3].input@ == intent_debug(r.intent) && steps[3].output@ == "情感:"@ + fixed2(
        sent.0,
        sent.1,
    ) + " -> 用模板生成"@ && steps[3].confidence == Ratio { num: 9, den: 10 }
}

/// Builds chains of thought with consecutive step ids.
pub struct CotOrchestrator {
    next_step_id: u64,
}

impl CotOrchestrator {
    /// The id the next step will get.
    pub closed spec fn next(&self) -> u64 {
        self.next_step_id
    }

    /// An orchestrator whose first step id is 1.
    pub fn new() -> (o: Self)
        ensures
            o.next() == 1,
    {
        CotOrchestrator { next_step_id: 1 }
    }

    /// Takes the next step id.
    pub fn next_id(&mut self) -> (id: u64)
        requires
            old(self).next() < u64::MAX,
        ensures
            id == old(self).next(),
            final(self).next() == old(self).next() + 1,
    {
        let id = self.next_step_id;
        self.next_step_id = self.next_step_id + 1;
        id
    }

    fn join_keywords(words: &Vec<String>) -> (s: String)
        ensures
            s@ == join_commas(strings(words@)),
    {
        let mut out = String::new();
        let mut i: usize = 0;
        while i < words.len()
            invariant
                i <= words@.len(),
                out@ == join_commas(strings(words@.subrange(0, i as int))),
            decreases words@.len() - i,
        {
            if i > 0 {
                out.append(",");
            }
            out.append(words[i].as_str());
            proof {
                let ws = strings(words@.subrange(0, i + 1));
                assert(ws.drop_last() =~= strings(words@.subrange(0, i as int)));
                assert(ws.last() == words@[i as int]@);
                if i == 0 {
                    assert(out@ =~= ws[0]);
                }
            }
            i = i + 1;
        }
        assert(words@.subrange(0, words@.len() as int) =~= words@);
        out
    }

    /// Builds the four-step chain (observation, hypothesis, inference,
    /// decision) for an understanding result.
    pub fn build_chain(&mut self, nlu: &NluResult) -> (c: ChainOfThought)
        requires
            old(self).next() <= u64::MAX - 4,
        ensures
            final(self).next() == old(self).next() + 4,
            c.goal@ == "响应意图: "@ + intent_debug(nlu.intent),
            chain_steps_ok(c.steps@, *nlu, old(self).next()),
            c.conclusion@ == "意图 "@ + intent_debug(nlu.intent) + " 已处理"@,
    {
        let mut goal = String::from_str("响应意图: ");
        goal.append(nlu.intent.debug_name());
        let mut cot = ChainOfThought::new(goal);
        let c3: u64 = if nlu.intent_score < 3 {
            nlu.intent_score as u64
        } else {
            3
        };
        // step 1: observe the input
        let mut out1 = String::from_str("意图:");
        out1.append(nlu.intent.debug_name());
        out1.append(", 置信度:");
        push_fixed2(&mut out1, c3 as i64, 3);
        let id1 = self.next_id();
        cot.add_step(
            CotStep {
                id: id1,
                description: String::from_str("观察用户输入"),
                step_type: CotStepType::Observation,
                input: Self::join_keywords(&nlu.keywords),
                output: out1,
                confidence: Ratio { num: c3, den: 3 },
            },
        );
        // step 2: form a hypothesis from the intent
        let id2 = self.next_id();
        cot.add_step(
            CotStep {
                id: id2,
                description: String::from_str("形成响应假设"),
                step_type: CotStepType::Hypothesis,
                input: String::from_str(nlu.intent.as_str()),
                output: String::from_str("选择对应的回复模板"),
                confidence: Ratio { num: 9 * c3, den: 30 },
            },
        );
        // step 3: fill the slots
        let mut out3 = String::from_str("槽位:");
        let mut i: usize = 0;
        while i < nlu.slots.len()
            invariant
                i <= nlu.slots@.len(),
                out3@ == "槽位:"@ + slots_text(slot_views(nlu.slots@.subrange(0, i as int))),
            decreases nlu.slots@.len() - i,
        {
            out3.append(" ");
            out3.append(nlu.slots[i].0.as_str());
            out3.append("=");
            let v = nlu.slots[i].1.as_str();
            out3.append(v.as_str());
            proof {
                let sv = slot_views(nlu.slots@.subrange(0, i + 1));
                assert(sv.drop_last() =~= slot_views(nlu.slots@.subrange(0, i as int)));
            }
            i = i + 1;
        }
        assert(nlu.slots@.subrange(0, nlu.slots@.len() as int) =~= nlu.slots@);
        let mut in3 = String::new();
        push_decimal(&mut in3, nlu.slots.len() as u64);
        in3.append(" 个槽位");
        let id3 = self.next_id();
        cot.add_step(
            CotStep {
                id: id3,
                description: String::from_str("填充槽位"),
                step_type: CotStepType::Inference,
                input: in3,
                output: out3,
                confidence: Ratio { num: 8, den: 10 },
            },
        );
        // step 4: decide
        let mut out4 = String::from_str("情感:");
        let p = nlu.positive_hits;
        let n = nlu.negative_hits;
        if p as u128 + n as u128 == 0 {
            push_fixed2(&mut out4, 0, 1);
        } else {
            let num: i128 = p as i128 - n as i128;
            let den: u128 = p as u128 + n as u128;
            push_fixed2_wide(&mut out4, num, den);
        }
        out4.append(" -> 用模板生成");
        let id4 = self.next_id();
        cot.add_step(
            CotStep {
                id: id4,
                description: String::from_str("决策"),
                step_type: CotStepType::Decision,
                input: String::from_str(nlu.intent.debug_name()),
                output: out4,
                confidence: Ratio { num: 9, den: 10 },
            },
        );
        let mut conclusion = String::from_str("意图 ");
        conclusion.append(nlu.intent.debug_name());
        conclusion.append(" 已处理");
        cot.conclusion = conclusion;
        cot
    }
}

/// A full reply: understanding, chain of thought, response and explanation.
#[derive(Debug, Clone)]
pub struct CotResponse {
    pub nlu: NluResult,
    pub chain: ChainOfThought,
    pub response: String,
    pub explanation: String,
}

/// The end-to-end pipeline: text, understanding, chain of thought, reply.
pub struct CotResponseLinker {
    nlu: NluEngine,
    nlg: NlgEngine,
    cot: CotOrchestrator,
}

impl CotResponseLinker {
    /// The id the next chain step will get.
    pub closed spec fn next_step(&self) -> u64 {
        self.cot.next()
    }

    /// The linker's understanding tables.
    pub closed spec fn tables(&self) -> (IntentTable, Seq<Seq<char>>, Seq<Seq<char>>) {
        (self.nlu.table(), self.nlu.positive(), self.nlu.negative())
    }

    /// A linker with the built-in tables.
    pub fn new() -> (l: Self)
        ensures
            l.next_step() == 1,
            l.tables() == (intent_table(), positive_lexicon(), negative_lexicon()),
    {
        CotResponseLinker { nlu: NluEngine::new(), nlg: NlgEngine::new(), cot: CotOrchestrator::new() }
    }

    /// Processes `text` end to end: understand it, build the chain of
    /// thought, generate the reply and explain the chain.
    pub fn process(&mut self, text: &str) -> (r: CotResponse)
        requires
            old(self).next_step() <= u64::MAX - 4,
        ensures
            final(self).tables() == old(self).tables(),
            final(self).next_step() == old(self).next_step() + 4,
            understood(r.nlu, text@, old(self).tables().0, old(self).tables().1, old(self).tables().2),
            chain_steps_ok(r.chain.steps@, r.nlu, old(self).next_step()),
            r.chain.goal@ == "响应意图: "@ + intent_debug(r.nlu.intent),
            r.chain.conclusion@ == "意图 "@ + intent_debug(r.nlu.intent) + " 已处理"@,
            r.response@ == response_text(r.nlu.intent, slot_views(r.nlu.slots@)),
            r.explanation@ == explanation_text(r.chain.steps@.map_values(|s: CotStep| step_summary(s))),
    {
        let nlu = self.nlu.understand(text);
        let chain = self.cot.build_chain(&nlu);
        let response = self.nlg.generate_response(&nlu.intent, &nlu.slots);
        let summary = chain.summary();
        let explanation = self.nlg.generate_explanation(summary.as_slice());
        assert(strings(summary@) =~= chain.steps@.map_values(|s: CotStep| step_summary(s)));
        CotResponse { nlu, chain, response, explanation }
    }
}

} // verus!
