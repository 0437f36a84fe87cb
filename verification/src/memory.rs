//! File memory injection and layered retrieval bookkeeping.
//!
//! Texts are cut into paragraph entries; each entry carries its keywords
//! (English words of three or more letters, lowercased, and two-character windows
//! of non-ASCII letters), a topic label and the inputs of its importance
//! score.  The injector keeps a bounded number of entries and evicts the
//! oldest first.

use vstd::prelude::*;
use vstd::string::*;
use vstd::utf8::encode_utf8;

use crate::clock::unix_time_nanos;
use crate::index::IdIndex;
use crate::text::{
    char_is_alphabetic, char_is_alphanumeric, chars_of, contains_chars, find_chars_from, insert_sorted,
    is_alphabetic, is_alphanumeric, lemma_trim_len, lowercase, occurs_at, seq_contains, str_eq,
    string_of, strictly_sorted, to_lowercase, trim, trim_chars,
};

verus! {

/// The pieces of `s` between non-alphanumeric characters (as `str::split`
/// with a character predicate yields them, empty pieces included).
pub open spec fn alnum_pieces(s: Seq<char>) -> Seq<Seq<char>>
    decreases s.len(),
{
    if s.len() == 0 {
        seq![Seq::empty()]
    } else {
        let prev = alnum_pieces(s.drop_last());
        if is_alphanumeric(s.last()) {
            prev.update(prev.len() - 1, prev.last().push(s.last()))
        } else {
            prev.push(Seq::empty())
        }
    }
}

/// Every character of `w` is alphanumeric.
pub open spec fn all_alnum(w: Seq<char>) -> bool {
    forall|i: int| 0 <= i < w.len() ==> is_alphanumeric(#[trigger] w[i])
}

/// A lowercased piece gives a keyword: it has three or more characters,
/// all alphanumeric.
pub open spec fn word_keyword(w: Seq<char>) -> bool {
    w.len() >= 3 && all_alnum(w)
}

/// The keywords among lowercased pieces `ws`.
pub open spec fn word_set(ws: Seq<Seq<char>>) -> Set<Seq<char>> {
    Set::new(|w: Seq<char>| exists|i: int| 0 <= i < ws.len() && word_keyword(#[trigger] ws[i]) && w == ws[i])
}

/// Each piece lowercased.
pub open spec fn lowered(ps: Seq<Seq<char>>) -> Seq<Seq<char>> {
    ps.map_values(|p: Seq<char>| lowercase(p))
}

/// A non-ASCII alphabetic character (a CJK ideograph, say).
pub open spec fn is_wide_letter(c: char) -> bool {
    is_alphabetic(c) && (c as int) > 0x7f
}

/// The non-ASCII alphabetic characters of `s`, in order.
pub open spec fn wide_letters(s: Seq<char>) -> Seq<char>
    decreases s.len(),
{
    if s.len() == 0 {
        Seq::empty()
    } else if is_wide_letter(s.last()) {
        wide_letters(s.drop_last()).push(s.last())
    } else {
        wide_letters(s.drop_last())
    }
}

/// The two-character windows `cs[k..k+2]` for `k < upto`.
pub open spec fn pair_set(cs: Seq<char>, upto: int) -> Set<Seq<char>> {
    Set::new(|w: Seq<char>| exists|k: int| 0 <= k < upto && w == #[trigger] cs.subrange(k, k + 2))
}

/// Number of two-character windows of a sequence of `n` characters.
pub open spec fn window_count(n: nat) -> int {
    if n >= 2 {
        n - 1
    } else {
        0
    }
}

/// The keywords of a text given its lowercased pieces `words`: the words
/// that are keywords, and every two-character window (a sliding window) over
/// the non-ASCII letters of `text`.
pub open spec fn keywords_of(words: Seq<Seq<char>>, text: Seq<char>) -> Set<Seq<char>> {
    word_set(words).union(pair_set(wide_letters(text), window_count(wide_letters(text).len())))
}

/// The keywords of a text: its lowercased alphanumeric pieces of three or
/// more characters, and every two-character window over its non-ASCII
/// letters.
pub open spec fn keyword_set(text: Seq<char>) -> Set<Seq<char>> {
    keywords_of(lowered(alnum_pieces(text)), text)
}

/// The views of a list of strings.
pub open spec fn views(v: Seq<String>) -> Seq<Seq<char>> {
    v.map_values(|s: String| s@)
}

/// The views of a list of character vectors.
pub open spec fn char_views(v: Seq<Vec<char>>) -> Seq<Seq<char>> {
    v.map_values(|x: Vec<char>| x@)
}

/// Adds `word` to `out` if it is a keyword.
fn take_word(word: &str, out: &mut Vec<Vec<char>>)
    requires
        strictly_sorted(char_views(old(out)@)),
    ensures
        strictly_sorted(char_views(final(out)@)),
        char_views(final(out)@).to_set() == if word_keyword(word@) {
            char_views(old(out)@).to_set().insert(word@)
        } else {
            char_views(old(out)@).to_set()
        },
{
    let w = chars_of(word);
    if w.len() < 3 {
        return;
    }
    let mut i: usize = 0;
    while i < w.len()
        invariant
            i <= w@.len(),
            w@ == word@,
            out@ == old(out)@,
            strictly_sorted(char_views(out@)),
            forall|t: int| 0 <= t < i ==> is_alphanumeric(#[trigger] w@[t]),
        decreases w@.len() - i,
    {
        if !char_is_alphanumeric(w[i]) {
            return;
        }
        i = i + 1;
    }
    insert_sorted(out, w);
}

/// The pieces of `text` between non-alphanumeric characters, each
/// lowercased.
fn lowered_pieces(text: &str) -> (ws: Vec<String>)
    ensures
        views(ws@) == lowered(alnum_pieces(text@)),
{
    let tc = chars_of(text);
    let mut ws: Vec<String> = Vec::new();
    let mut cur: Vec<char> = Vec::new();
    let ghost mut done: Seq<Seq<char>> = Seq::empty();
    let mut i: usize = 0;
    assert(tc@.subrange(0, 0) =~= Seq::<char>::empty());
    assert(alnum_pieces(Seq::<char>::empty()) =~= done.push(cur@));
    assert(views(ws@) =~= lowered(done));
    while i < tc.len()
        invariant
            i <= tc@.len(),
            tc@ == text@,
            alnum_pieces(tc@.subrange(0, i as int)) == done.push(cur@),
            views(ws@) == lowered(done),
        decreases tc@.len() - i,
    {
        let c = tc[i];
        proof {
            let s1 = tc@.subrange(0, i + 1);
            assert(s1.drop_last() =~= tc@.subrange(0, i as int));
            assert(s1.last() == c);
        }
        if char_is_alphanumeric(c) {
            let ghost old_cur = cur@;
            cur.push(c);
            proof {
                let p = done.push(old_cur);
                assert(p.last() == old_cur);
                assert(p.update(p.len() - 1, old_cur.push(c)) =~= done.push(cur@));
            }
        } else {
            let s = string_of(cur.as_slice());
            let low = to_lowercase(s.as_str());
            let ghost before = ws@;
            ws.push(low);
            proof {
                assert(views(ws@) =~= views(before).push(low@));
                assert(lowered(done.push(cur@)) =~= lowered(done).push(lowercase(cur@)));
                done = done.push(cur@);
            }
            cur = Vec::new();
        }
        i = i + 1;
    }
    assert(tc@.subrange(0, tc@.len() as int) =~= tc@);
    let s = string_of(cur.as_slice());
    let low = to_lowercase(s.as_str());
    let ghost before = ws@;
    ws.push(low);
    proof {
        assert(views(ws@) =~= views(before).push(low@));
        assert(lowered(done.push(cur@)) =~= lowered(done).push(lowercase(cur@)));
    }
    ws
}

/// Keywords of a text, sorted and without repeats: the English words of
/// three or more letters (split at non-alphanumeric characters, lowercased),
/// and every two-character window over its non-ASCII letters.
pub fn extract_keywords(text: &str) -> (r: Vec<String>)
    ensures
        strictly_sorted(views(r@)),
        views(r@).to_set() == keyword_set(text@),
{
    let words = lowered_pieces(text);
    keywords_from_lowered(words.as_slice(), text)
}

/// Keywords of `text` given its lowercased pieces `words`, sorted and
/// without repeats: the words of three or more characters, all
/// alphanumeric, and every two-character window over the non-ASCII letters
/// of `text`.
pub fn keywords_from_lowered(words: &[String], text: &str) -> (r: Vec<String>)
    ensures
        strictly_sorted(views(r@)),
        views(r@).to_set() == keywords_of(views(words@), text@),
{
    let ghost ws = views(words@);
    let mut out: Vec<Vec<char>> = Vec::new();
    let mut i: usize = 0;
    assert(char_views(out@).to_set() =~= word_set(ws.take(0)));
    while i < words.len()
        invariant
            i <= words@.len(),
            ws == views(words@),
            strictly_sorted(char_views(out@)),
            char_views(out@).to_set() == word_set(ws.take(i as int)),
        decreases words@.len() - i,
    {
        let ghost old_set = char_views(out@).to_set();
        take_word(words[i].as_str(), &mut out);
        proof {
            let t0 = ws.take(i as int);
            let t1 = ws.take(i + 1);
            assert(t1[i as int] == words@[i as int]@);
            let want = if word_keyword(ws[i as int]) {
                word_set(t0).insert(ws[i as int])
            } else {
                word_set(t0)
            };
            assert forall|w: Seq<char>| word_set(t1).contains(w) implies want.contains(w) by {
                let k = choose|k: int| 0 <= k < t1.len() && word_keyword(#[trigger] t1[k]) && w == t1[k];
                if k < i {
                    assert(t0[k] == t1[k]);
                }
            }
            assert forall|w: Seq<char>| want.contains(w) implies word_set(t1).contains(w) by {
                if word_keyword(ws[i as int]) && w == ws[i as int] {
                    assert(t1[i as int] == w);
                } else {
                    let k = choose|k: int| 0 <= k < t0.len() && word_keyword(#[trigger] t0[k]) && w == t0[k];
                    assert(t1[k] == t0[k]);
                }
            }
            assert(word_set(t1) =~= want);
        }
        i = i + 1;
    }
    assert(ws.take(ws.len() as int) =~= ws);
    let tc = chars_of(text);
    // the wide letters, two by two
    let mut wide: Vec<char> = Vec::new();
    let mut j: usize = 0;
    while j < tc.len()
        invariant
            j <= tc@.len(),
            wide@ == wide_letters(tc@.subrange(0, j as int)),
        decreases tc@.len() - j,
    {
        let c = tc[j];
        proof {
            let s1 = tc@.subrange(0, j + 1);
            assert(s1.drop_last() =~= tc@.subrange(0, j as int));
        }
        if char_is_alphabetic(c) && c > '\u{7f}' {
            wide.push(c);
        }
        j = j + 1;
    }
    assert(tc@.subrange(0, tc@.len() as int) =~= tc@);
    let ghost eng = char_views(out@).to_set();
    let wl = wide.len();
    let windows: usize = if wl >= 2 {
        wl - 1
    } else {
        0
    };
    let mut k: usize = 0;
    assert(pair_set(wide@, 0) =~= Set::<Seq<char>>::empty());
    while k < windows
        invariant
            k <= windows,
            windows == window_count(wide@.len()),
            wl == wide@.len(),
            strictly_sorted(char_views(out@)),
            char_views(out@).to_set() == eng.union(pair_set(wide@, k as int)),
        decreases windows - k,
    {
        assert(k + 1 < wl);
        let mut pair: Vec<char> = Vec::new();
        pair.push(wide[k]);
        pair.push(wide[k + 1]);
        assert(pair@ =~= wide@.subrange(k as int, k + 2));
        insert_sorted(&mut out, pair);
        proof {
            let ga = pair_set(wide@, k + 1);
            let gb = pair_set(wide@, k as int).insert(wide@.subrange(k as int, k + 2));
            assert forall|w: Seq<char>| ga.contains(w) implies gb.contains(w) by {
                let t = choose|t: int| 0 <= t < k + 1 && w == #[trigger] wide@.subrange(t, t + 2);
                if t < k {
                    assert(pair_set(wide@, k as int).contains(w));
                }
            }
            assert forall|w: Seq<char>| gb.contains(w) implies ga.contains(w) by {
                if w != wide@.subrange(k as int, k + 2) {
                    let t = choose|t: int| 0 <= t < k && w == #[trigger] wide@.subrange(t, t + 2);
                    assert(0 <= t < k + 1);
                } else {
                    assert(w == wide@.subrange(k as int, k + 2));
                }
            }
            assert(ga =~= gb);
            assert(char_views(out@).to_set() =~= eng.union(pair_set(wide@, k + 1)));
        }
        k = k + 1;
    }
    // to strings
    let mut r: Vec<String> = Vec::new();
    let mut t: usize = 0;
    while t < out.len()
        invariant
            t <= out@.len(),
            views(r@) == char_views(out@).subrange(0, t as int),
        decreases out@.len() - t,
    {
        let piece = string_of(out[t].as_slice());
        let ghost before = r@;
        r.push(piece);
        proof {
            assert(r@ =~= before.push(piece));
            assert(views(r@) =~= views(before).push(piece@));
            assert(char_views(out@).subrange(0, t + 1) =~= char_views(out@).subrange(0, t as int).push(
                out@[t as int]@,
            ));
        }
        t = t + 1;
    }
    assert(views(r@) =~= char_views(out@));
    r
}

/// The topic label of a text, by the first rule whose word occurs in the
/// lowercased text.
pub open spec fn topic_of(text: Seq<char>) -> Seq<char> {
    topic_rule(lowercase(text))
}

/// The topic label of an already lowercased text `l`, by the first rule
/// whose word occurs in it.
pub open spec fn topic_rule(l: Seq<char>) -> Seq<char> {
    if seq_contains(l, "代码"@) || seq_contains(l, "code"@) || seq_contains(l, "rust"@) || seq_contains(
        l,
        "python"@,
    ) {
        "code"@
    } else if seq_contains(l, "物理"@) || seq_contains(l, "physics"@) || seq_contains(l, "力"@) {
        "physics"@
    } else if seq_contains(l, "记忆"@) || seq_contains(l, "memory"@) {
        "memory"@
    } else if seq_contains(l, "意识"@) || seq_contains(l, "conscious"@) || seq_contains(l, "认知"@) {
        "cognition"@
    } else if seq_contains(l, "伦理"@) || seq_contains(l, "ethic"@) || seq_contains(l, "道德"@) {
        "ethics"@
    } else if seq_contains(l, "人"@) || seq_contains(l, "person"@) || seq_contains(l, "人类"@) {
        "human"@
    } else {
        "general"@
    }
}

/// The topic rules, in order: a lowercased text naming code (代码, code,
/// rust, python) is about code; otherwise one naming physics (物理,
/// physics, 力) is about physics; otherwise memory (记忆, memory); otherwise
/// cognition (意识, conscious, 认知); otherwise ethics (伦理, ethic, 道德);
/// otherwise human (人, person, 人类); a text naming none is general.
pub proof fn law_topic_rules(l: Seq<char>)
    ensures
        ({
            let code = seq_contains(l, "代码"@) || seq_contains(l, "code"@) || seq_contains(l, "rust"@)
                || seq_contains(l, "python"@);
            let physics = seq_contains(l, "物理"@) || seq_contains(l, "physics"@) || seq_contains(l, "力"@);
            let memory = seq_contains(l, "记忆"@) || seq_contains(l, "memory"@);
            let cognition = seq_contains(l, "意识"@) || seq_contains(l, "conscious"@) || seq_contains(l, "认知"@);
            let ethics = seq_contains(l, "伦理"@) || seq_contains(l, "ethic"@) || seq_contains(l, "道德"@);
            let human = seq_contains(l, "人"@) || seq_contains(l, "person"@) || seq_contains(l, "人类"@);
            &&& code ==> topic_rule(l) == "code"@
            &&& !code && physics ==> topic_rule(l) == "physics"@
            &&& !code && !physics && memory ==> topic_rule(l) == "memory"@
            &&& !code && !physics && !memory && cognition ==> topic_rule(l) == "cognition"@
            &&& !code && !physics && !memory && !cognition && ethics ==> topic_rule(l) == "ethics"@
            &&& !code && !physics && !memory && !cognition && !ethics && human ==> topic_rule(l) == "human"@
            &&& !code && !physics && !memory && !cognition && !ethics && !human ==> topic_rule(l) == "general"@
        }),
{
}

/// A text's topic follows the topic rules on its lowercased form: in
/// particular every text whose lowercase form names python is about code.
pub proof fn law_topic_of_text(text: Seq<char>)
    ensures
        seq_contains(lowercase(text), "python"@) ==> topic_of(text) == "code"@,
        topic_of(text) == topic_rule(lowercase(text)),
{
    law_topic_rules(lowercase(text));
}

fn has(text: &[char], w: &str) -> (b: bool)
    ensures
        b == seq_contains(text@, w@),
{
    let wc = chars_of(w);
    contains_chars(text, wc.as_slice())
}

/// The topic of a text: "code", "physics", "memory", "cognition",
/// "ethics", "human" or "general", by keyword rules on the lowercased text.
pub fn infer_topic(text: &str) -> (t: String)
    ensures
        t@ == topic_of(text@),
{
    let low = to_lowercase(text);
    topic_from_lowered(low.as_str())
}

/// The topic of an already lowercased text: "code", "physics", "memory",
/// "cognition", "ethics", "human" or "general", by the first rule whose word
/// occurs in it.
pub fn topic_from_lowered(lower_text: &str) -> (t: String)
    ensures
        t@ == topic_rule(lower_text@),
{
    let l = chars_of(lower_text);
    let l = l.as_slice();
    let t = if has(l, "代码") || has(l, "code") || has(l, "rust") || has(l, "python") {
        "code"
    } else if has(l, "物理") || has(l, "physics") || has(l, "力") {
        "physics"
    } else if has(l, "记忆") || has(l, "memory") {
        "memory"
    } else if has(l, "意识") || has(l, "conscious") || has(l, "认知") {
        "cognition"
    } else if has(l, "伦理") || has(l, "ethic") || has(l, "道德") {
        "ethics"
    } else if has(l, "人") || has(l, "person") || has(l, "人类") {
        "human"
    } else {
        "general"
    };
    String::from_str(t)
}

/// The words that raise an entry's importance.
pub open spec fn important_words() -> Seq<Seq<char>> {
    seq!["重要"@, "关键"@, "核心"@, "原理"@, "公式"@, "必须"@, "important"@, "key"@, "must"@, "essential"@]
}

/// Number of the words of `words[..upto]` that occur in `text`.
pub open spec fn count_present(text: Seq<char>, words: Seq<Seq<char>>, upto: int) -> nat
    decreases upto,
{
    if upto <= 0 {
        0
    } else {
        count_present(text, words, upto - 1) + if seq_contains(text, words[upto - 1]) {
            1nat
        } else {
            0nat
        }
    }
}

/// Number of importance words that occur in `text`; each raises the
/// importance by 0.2, up to 0.4 in all.
pub fn important_word_hits(text: &str) -> (n: usize)
    ensures
        n == count_present(text@, important_words(), 10),
{
    let tc = chars_of(text);
    let words = vec!["重要", "关键", "核心", "原理", "公式", "必须", "important", "key", "must", "essential"];
    let mut n: usize = 0;
    let mut i: usize = 0;
    while i < words.len()
        invariant
            i <= words@.len(),
            words@.len() == 10,
            tc@ == text@,
            forall|t: int| 0 <= t < 10 ==> #[trigger] words@[t]@ == important_words()[t],
            n == count_present(text@, important_words(), i as int),
            n <= i,
        decreases words@.len() - i,
    {
        if has(tc.as_slice(), words[i]) {
            n = n + 1;
        }
        i = i + 1;
    }
    n
}

/// One memory entry.
#[derive(Debug, Clone)]
pub struct MemoryEntry {
    /// Unique id.
    pub id: u64,
    /// Where the text came from.
    pub source: String,
    /// The text.
    pub content: String,
    /// The keywords of the text, sorted, without repeats.
    pub keywords: Vec<String>,
    /// The topic label.
    pub topic: String,
    /// Number of characters of the text; its importance grows with
    /// `min(content_chars / 200, 1) * 0.6`.
    pub content_chars: usize,
    /// Number of importance words in the text; each adds 0.2, up to 0.4.
    pub important_words: usize,
    /// When the entry was made, in nanoseconds since the Unix epoch.
    pub injected_at_ns: u128,
}

/// `e` was built from its id, source and content.
pub open spec fn entry_built(e: MemoryEntry) -> bool {
    &&& strictly_sorted(views(e.keywords@))
    &&& views(e.keywords@).to_set() == keyword_set(e.content@)
    &&& e.topic@ == topic_of(e.content@)
    &&& e.content_chars == e.content@.len()
    &&& e.important_words == count_present(e.content@, important_words(), 10)
}

impl MemoryEntry {
    /// A new entry for `content`, with its keywords, topic and importance
    /// inputs, stamped with the wall clock (the reading of
    /// `unix_time_nanos`).
    pub fn new(id: u64, source: String, content: String) -> (e: Self)
        ensures
            e.id == id,
            e.source == source,
            e.content == content,
            entry_built(e),
    {
        Self::new_at(id, source, content, unix_time_nanos())
    }

    /// A new entry for `content`, with its keywords, topic and importance
    /// inputs, injected at `injected_at_ns`.
    pub fn new_at(id: u64, source: String, content: String, injected_at_ns: u128) -> (e: Self)
        ensures
            e.id == id,
            e.source == source,
            e.content == content,
            e.injected_at_ns == injected_at_ns,
            entry_built(e),
    {
        let keywords = extract_keywords(content.as_str());
        let topic = infer_topic(content.as_str());
        let content_chars = content.as_str().unicode_len();
        let important_words = important_word_hits(content.as_str());
        MemoryEntry {
            id,
            source,
            content,
            keywords,
            topic,
            content_chars,
            important_words,
            injected_at_ns,
        }
    }
}

/// Index of the first occurrence of `sep` in `s` at or after `i`, or -1.
pub open spec fn first_from(s: Seq<char>, sep: Seq<char>, i: int) -> int
    decreases s.len() + 1 - i,
{
    if i < 0 || i + sep.len() > s.len() {
        -1
    } else if occurs_at(s, sep, i) {
        i
    } else {
        first_from(s, sep, i + 1)
    }
}

pub proof fn lemma_first_from(s: Seq<char>, sep: Seq<char>, i: int)
    requires
        0 <= i,
    ensures
        first_from(s, sep, i) == -1 || (i <= first_from(s, sep, i) && occurs_at(s, sep, first_from(s, sep, i))
            && forall|j: int| i <= j < first_from(s, sep, i) ==> !occurs_at(s, sep, j)),
        first_from(s, sep, i) == -1 ==> forall|j: int| i <= j ==> !occurs_at(s, sep, j),
    decreases s.len() + 1 - i,
{
    if i + sep.len() <= s.len() && !occurs_at(s, sep, i) {
        lemma_first_from(s, sep, i + 1);
    }
}

/// The pieces of `s` between occurrences of the non-empty `sep` (as
/// `str::split` with a string pattern yields them).
pub open spec fn split_on(s: Seq<char>, sep: Seq<char>) -> Seq<Seq<char>>
    decreases s.len(),
{
    let f = first_from(s, sep, 0);
    if sep.len() == 0 || f < 0 {
        seq![s]
    } else {
        proof {
            lemma_first_from(s, sep, 0);
        }
        seq![s.subrange(0, f)] + split_on(s.subrange(f + sep.len(), s.len() as int), sep)
    }
}

/// A UTF-8 encoding has one to four bytes per character.
pub proof fn lemma_encode_len(cs: Seq<char>)
    ensures
        cs.len() <= encode_utf8(cs).len() <= 4 * cs.len(),
    decreases cs.len(),
{
    if cs.len() > 0 {
        lemma_encode_len(cs.drop_first());
    }
}

/// The entry text made from one paragraph: `None` when the trimmed
/// paragraph is empty or shorter than 10 bytes; otherwise the trimmed
/// paragraph, cut to 2000 characters followed by "..." when longer.
pub open spec fn paragraph_chunk(p: Seq<char>) -> Option<Seq<char>> {
    let t = trim(p);
    if t.len() == 0 || encode_utf8(t).len() < 10 {
        None
    } else if t.len() > 2000 {
        Some(t.take(2000) + "..."@)
    } else {
        Some(t)
    }
}

/// The entry texts made from the paragraphs `ps` (paragraphs that give no
/// chunk are skipped).
pub open spec fn chunks_of(ps: Seq<Seq<char>>) -> Seq<Seq<char>>
    decreases ps.len(),
{
    if ps.len() == 0 {
        Seq::empty()
    } else {
        chunks_of(ps.drop_last()) + match paragraph_chunk(ps.last()) {
            Some(c) => seq![c],
            None => Seq::empty(),
        }
    }
}

/// The entry texts of a document: its paragraphs (split at blank lines
/// "\n\n") that give a chunk.
pub open spec fn document_chunks(text: Seq<char>) -> Seq<Seq<char>> {
    chunks_of(split_on(text, "\n\n"@))
}

/// Errors of memory injection.
#[derive(Debug)]
pub enum InjectError {
    /// Reading failed.
    Io(std::io::Error),
    /// The path is not a directory.
    NotADirectory(String),
    /// The file is larger than allowed: (its size, the limit).
    TooLarge(u64, u64),
}

/// A `std::io::Error`, carried through opaque.
#[verifier::external_type_specification]
#[verifier::external_body]
pub struct ExIoError(std::io::Error);

/// An entry as (id, source, content).
pub open spec fn entry_view(e: MemoryEntry) -> (u64, Seq<char>, Seq<char>) {
    (e.id, e.source@, e.content@)
}

/// The entries after pushing one entry of content `c` with id `id`: the
/// oldest entry goes first when the store is full.
pub open spec fn push_view(
    es: Seq<(u64, Seq<char>, Seq<char>)>,
    max: nat,
    item: (u64, Seq<char>, Seq<char>),
) -> Seq<(u64, Seq<char>, Seq<char>)> {
    if es.len() >= max {
        es.drop_first().push(item)
    } else {
        es.push(item)
    }
}

/// The entries after pushing the contents `cs` from `source`, with ids from
/// `next_id` on.
pub open spec fn push_all_view(
    es: Seq<(u64, Seq<char>, Seq<char>)>,
    max: nat,
    next_id: u64,
    source: Seq<char>,
    cs: Seq<Seq<char>>,
) -> Seq<(u64, Seq<char>, Seq<char>)>
    decreases cs.len(),
{
    if cs.len() == 0 {
        es
    } else {
        push_view(
            push_all_view(es, max, next_id, source, cs.drop_last()),
            max,
            ((next_id + cs.len() - 1) as u64, source, cs.last()),
        )
    }
}

/// `pat` occurs in the tail `s[pos..]` at `j` exactly when it occurs in `s`
/// at `pos + j`.
proof fn lemma_occurs_shift(s: Seq<char>, pat: Seq<char>, pos: int, j: int)
    requires
        0 <= pos <= s.len(),
        0 <= j,
    ensures
        occurs_at(s.subrange(pos, s.len() as int), pat, j) == occurs_at(s, pat, pos + j),
{
    let rest = s.subrange(pos, s.len() as int);
    if j + pat.len() <= rest.len() {
        assert(rest.subrange(j, j + pat.len()) =~= s.subrange(pos + j, pos + j + pat.len()));
    }
}

/// Splitting the tail `s[pos..]` at its first separator, found at `i`.
proof fn lemma_split_found(s: Seq<char>, sep: Seq<char>, pos: int, i: int)
    requires
        sep.len() > 0,
        0 <= pos <= i,
        occurs_at(s, sep, i),
        forall|j: int| pos <= j < i ==> !occurs_at(s, sep, j),
    ensures
        split_on(s.subrange(pos, s.len() as int), sep) == seq![s.subrange(pos, i)] + split_on(
            s.subrange(i + sep.len(), s.len() as int),
            sep,
        ),
{
    let rest = s.subrange(pos, s.len() as int);
    lemma_first_from(rest, sep, 0);
    let f = first_from(rest, sep, 0);
    lemma_occurs_shift(s, sep, pos, i - pos);
    if f >= 0 {
        lemma_occurs_shift(s, sep, pos, f);
    }
    assert(f == i - pos);
    assert(rest.subrange(0, f) =~= s.subrange(pos, i));
    assert(rest.subrange(f + sep.len(), rest.len() as int) =~= s.subrange(i + sep.len(), s.len() as int));
}

/// The tail `s[pos..]` without a separator is one piece.
proof fn lemma_split_none(s: Seq<char>, sep: Seq<char>, pos: int)
    requires
        sep.len() > 0,
        0 <= pos <= s.len(),
        forall|j: int| pos <= j ==> !occurs_at(s, sep, j),
    ensures
        split_on(s.subrange(pos, s.len() as int), sep) == seq![s.subrange(pos, s.len() as int)],
{
    let rest = s.subrange(pos, s.len() as int);
    lemma_first_from(rest, sep, 0);
    let f = first_from(rest, sep, 0);
    if f >= 0 {
        lemma_occurs_shift(s, sep, pos, f);
    }
}

/// File memory injector: a bounded store of memory entries.
#[derive(Debug)]
pub struct FileMemoryInjector {
    entries: Vec<MemoryEntry>,
    next_id: u64,
    max_entries: usize,
    max_file_size: u64,
}

/// The entry texts of a document: the text is split at blank lines, each
/// paragraph trimmed; paragraphs empty or shorter than 10 bytes are skipped,
/// longer than 2000 characters are cut to 2000 and marked "...".
pub fn paragraph_chunks(content: &str) -> (cs: Vec<String>)
    ensures
        views(cs@) == document_chunks(content@),
{
    let tc = chars_of(content);
    let sep = chars_of("\n\n");
    proof {
        reveal_strlit("\n\n");
    }
    let ghost mut done: Seq<Seq<char>> = Seq::empty();
    let mut cs: Vec<String> = Vec::new();
    let mut pos: usize = 0;
    let mut finished = false;
    assert(split_on(content@, sep@) =~= done + split_on(tc@.subrange(0, tc@.len() as int), sep@)) by {
        assert(tc@.subrange(0, tc@.len() as int) =~= tc@);
    }
    assert(chunks_of(done) =~= Seq::<Seq<char>>::empty());
    while !finished
        invariant
            tc@ == content@,
            sep@ == "\n\n"@,
            sep@.len() == 2,
            pos <= tc@.len(),
            !finished ==> split_on(content@, sep@) == done + split_on(
                tc@.subrange(pos as int, tc@.len() as int),
                sep@,
            ),
            finished ==> split_on(content@, sep@) == done,
            views(cs@) == chunks_of(done),
        decreases tc@.len() - pos + if finished { 0int } else { 1int },
    {
        let tlen = tc.len();
        let found = find_chars_from(tc.as_slice(), sep.as_slice(), pos);
        let end = match found {
            Some(i) => i,
            None => tc.len(),
        };
        proof {
            match found {
                Some(i) => {
                    lemma_split_found(tc@, sep@, pos as int, i as int);
                },
                None => {
                    lemma_split_none(tc@, sep@, pos as int);
                },
            }
        }
        let mut para: Vec<char> = Vec::new();
        let mut k: usize = pos;
        while k < end
            invariant
                pos <= k <= end,
                end <= tc@.len(),
                para@ == tc@.subrange(pos as int, k as int),
            decreases end - k,
        {
            para.push(tc[k]);
            k = k + 1;
            assert(para@ =~= tc@.subrange(pos as int, k as int));
        }
        let ghost p = para@;
        let t = trim_chars(para.as_slice());
        let ghost before = chunks_of(done);
        proof {
            assert(done.push(p).drop_last() =~= done);
            lemma_trim_len(p);
        }
        if t.len() > 0 {
            let ts = string_of(t.as_slice());
            proof {
                lemma_encode_len(t@);
            }
            if t.len() >= 10 || ts.as_str().len() >= 10 {
                let chunk = if t.len() > 2000 {
                    let mut cut: Vec<char> = Vec::new();
                    let mut q: usize = 0;
                    while q < 2000
                        invariant
                            q <= 2000,
                            t@.len() > 2000,
                            cut@ == t@.take(q as int),
                        decreases 2000 - q,
                    {
                        cut.push(t[q]);
                        q = q + 1;
                        assert(cut@ =~= t@.take(q as int));
                    }
                    cut.push('.');
                    cut.push('.');
                    cut.push('.');
                    proof {
                        reveal_strlit("...");
                        assert(cut@ =~= t@.take(2000) + "..."@);
                    }
                    string_of(cut.as_slice())
                } else {
                    ts
                };
                assert(paragraph_chunk(p) == Some(chunk@));
                let ghost cs_before = cs@;
                cs.push(chunk);
                proof {
                    assert(chunks_of(done.push(p)) =~= before.push(chunk@));
                    assert(views(cs@) =~= views(cs_before).push(chunk@));
                }
            } else {
                assert(paragraph_chunk(p) is None);
                assert(chunks_of(done.push(p)) =~= before);
            }
        } else {
            assert(paragraph_chunk(p) is None);
            assert(chunks_of(done.push(p)) =~= before);
        }
        proof {
            done = done.push(p);
        }
        match found {
            Some(i) => {
                assert(occurs_at(tc@, sep@, i as int));
                assert(i + 2 <= tlen);
                pos = i + 2;
            },
            None => {
                pos = tc.len();
                finished = true;
                assert(split_on(content@, sep@) =~= done);
            },
        }
    }
    assert(document_chunks(content@) == chunks_of(done));
    cs
}


impl FileMemoryInjector {
    /// The entries as (id, source, content), oldest first.
    pub closed spec fn entries_view(&self) -> Seq<(u64, Seq<char>, Seq<char>)> {
        self.entries@.map_values(|e: MemoryEntry| entry_view(e))
    }

    /// The id the next entry will get.
    pub closed spec fn next(&self) -> u64 {
        self.next_id
    }

    /// The maximum number of entries kept.
    pub closed spec fn capacity(&self) -> nat {
        self.max_entries as nat
    }

    /// The largest file accepted, in bytes.
    pub closed spec fn file_limit(&self) -> u64 {
        self.max_file_size
    }

    /// The injector's invariant: every entry was built from its content, and
    /// the store is within its capacity.
    pub closed spec fn wf(&self) -> bool {
        &&& forall|i: int| 0 <= i < self.entries@.len() ==> entry_built(#[trigger] self.entries@[i])
        &&& self.entries@.len() <= self.max_entries
    }

    /// An empty injector keeping at most `max_entries` entries, with a file
    /// limit of 1 000 000 bytes; the first id is 1.
    pub fn new(max_entries: usize) -> (inj: Self)
        ensures
            inj.wf(),
            inj.entries_view().len() == 0,
            inj.next() == 1,
            inj.capacity() == max_entries,
            inj.file_limit() == 1_000_000,
    {
        let inj = FileMemoryInjector {
            entries: Vec::new(),
            next_id: 1,
            max_entries,
            max_file_size: 1_000_000,
        };
        assert(inj.entries_view() =~= Seq::empty());
        inj
    }

    /// The same injector with a file limit of `bytes`.
    pub fn with_max_file_size(self, bytes: u64) -> (inj: Self)
        requires
            self.wf(),
        ensures
            inj.wf(),
            inj.entries_view() == self.entries_view(),
            inj.next() == self.next(),
            inj.capacity() == self.capacity(),
            inj.file_limit() == bytes,
    {
        let mut s = self;
        s.max_file_size = bytes;
        s
    }

    /// Accepts a file of `len` bytes, or refuses it as too large.
    pub fn admit_file_size(&self, len: u64) -> (r: Result<(), InjectError>)
        ensures
            r is Ok <==> len <= self.file_limit(),
            r matches Err(e) ==> e matches InjectError::TooLarge(got, max) && got == len && max
                == self.file_limit(),
    {
        if len > self.max_file_size {
            Err(InjectError::TooLarge(len, self.max_file_size))
        } else {
            Ok(())
        }
    }

    fn push_entry(&mut self, source: String, content: String) -> (id: u64)
        requires
            old(self).wf(),
            old(self).capacity() > 0,
            old(self).next() < u64::MAX,
        ensures
            final(self).wf(),
            id == old(self).next(),
            final(self).next() == old(self).next() + 1,
            final(self).capacity() == old(self).capacity(),
            final(self).file_limit() == old(self).file_limit(),
            final(self).entries_view() == push_view(
                old(self).entries_view(),
                old(self).capacity(),
                (id, source@, content@),
            ),
    {
        let ghost old_entries = self.entries@;
        if self.entries.len() >= self.max_entries {
            self.entries.remove(0);
        }
        let ghost mid = self.entries@;
        let id = self.next_id;
        self.next_id = self.next_id + 1;
        let e = MemoryEntry::new(id, source, content);
        self.entries.push(e);
        proof {
            let ov = old_entries.map_values(|e: MemoryEntry| entry_view(e));
            if old_entries.len() >= self.max_entries {
                assert(mid =~= old_entries.drop_first());
                assert(self.entries_view() =~= ov.drop_first().push(entry_view(e)));
            } else {
                assert(self.entries_view() =~= ov.push(entry_view(e)));
            }
            assert forall|i: int| 0 <= i < self.entries@.len() implies entry_built(#[trigger] self.entries@[i]) by {
                if i < mid.len() {
                    if old_entries.len() >= self.max_entries {
                        assert(mid[i] == old_entries[i + 1]);
                    } else {
                        assert(mid[i] == old_entries[i]);
                    }
                }
            }
        }
        id
    }

    /// Stores `text` as one entry from `source`; returns its id.  When the
    /// store is full the oldest entry is evicted.
    pub fn inject_text(&mut self, source: String, text: String) -> (id: u64)
        requires
            old(self).wf(),
            old(self).capacity() > 0,
            old(self).next() < u64::MAX,
        ensures
            final(self).wf(),
            id == old(self).next(),
            final(self).next() == old(self).next() + 1,
            final(self).capacity() == old(self).capacity(),
            final(self).file_limit() == old(self).file_limit(),
            final(self).entries_view() == push_view(
                old(self).entries_view(),
                old(self).capacity(),
                (id, source@, text@),
            ),
    {
        self.push_entry(source, text)
    }

    /// Stores the paragraphs of a document read from `source`, one entry per
    /// chunk of `paragraph_chunks`.  Returns the number of entries stored.
    pub fn inject_content(&mut self, source: String, content: &str) -> (n: usize)
        requires
            old(self).wf(),
            old(self).capacity() > 0,
            old(self).next() as int + document_chunks(content@).len() < u64::MAX,
        ensures
            final(self).wf(),
            n == document_chunks(content@).len(),
            final(self).next() == old(self).next() + n,
            final(self).capacity() == old(self).capacity(),
            final(self).file_limit() == old(self).file_limit(),
            final(self).entries_view() == push_all_view(
                old(self).entries_view(),
                old(self).capacity(),
                old(self).next(),
                source@,
                document_chunks(content@),
            ),
    {
        let cs = paragraph_chunks(content);
        let ghost all = views(cs@);
        let ghost start_view = self.entries_view();
        let ghost start_next = self.next_id;
        let ghost cap = old(self).capacity();
        let mut k: usize = 0;
        assert(all.take(0) =~= Seq::<Seq<char>>::empty());
        while k < cs.len()
            invariant
                k <= cs@.len(),
                all == views(cs@),
                all == document_chunks(content@),
                self.wf(),
                self.capacity() == cap,
                cap > 0,
                self.file_limit() == old(self).file_limit(),
                self.next() == start_next + k,
                start_next as int + all.len() < u64::MAX,
                self.entries_view() == push_all_view(start_view, cap, start_next, source@, all.take(k as int)),
            decreases cs@.len() - k,
        {
            self.push_entry(source.clone(), cs[k].clone());
            proof {
                let t = all.take(k + 1);
                assert(t.drop_last() =~= all.take(k as int));
                assert(t.last() == cs@[k as int]@);
            }
            k = k + 1;
        }
        assert(all.take(all.len() as int) =~= all);
        cs.len()
    }

    /// The maximum number of entries kept.
    pub fn max_entries(&self) -> (n: usize)
        ensures
            n == self.capacity(),
    {
        self.max_entries
    }

    /// The id the next entry will get.
    pub fn next_entry_id(&self) -> (n: u64)
        ensures
            n == self.next(),
    {
        self.next_id
    }

    /// Number of entries held.
    pub fn len(&self) -> (n: usize)
        ensures
            n == self.entries_view().len(),
    {
        self.entries.len()
    }

    /// Whether no entry is held.
    pub fn is_empty(&self) -> (b: bool)
        ensures
            b == (self.entries_view().len() == 0),
    {
        self.entries.len() == 0
    }

    /// All entries, oldest first.
    pub fn all_entries(&self) -> (es: &[MemoryEntry])
        requires
            self.wf(),
        ensures
            es@.map_values(|e: MemoryEntry| entry_view(e)) == self.entries_view(),
            forall|i: int| 0 <= i < es@.len() ==> entry_built(#[trigger] es@[i]),
    {
        self.entries.as_slice()
    }
}


/// The injector never holds more entries than its capacity.
pub proof fn law_store_bounded(inj: &FileMemoryInjector)
    requires
        inj.wf(),
    ensures
        inj.entries_view().len() <= inj.capacity(),
{
}

/// `id` once for each occurrence of `t` in `kws`.
pub open spec fn occ_ids(kws: Seq<Seq<char>>, id: u64, t: Seq<char>) -> Seq<u64>
    decreases kws.len(),
{
    if kws.len() == 0 {
        Seq::empty()
    } else if kws.last() == t {
        occ_ids(kws.drop_last(), id, t).push(id)
    } else {
        occ_ids(kws.drop_last(), id, t)
    }
}

/// The ids of the entries filed under keyword `t`, in order (an entry once
/// per occurrence of the keyword).
pub open spec fn keyword_ids_of(es: Seq<MemoryEntry>, t: Seq<char>) -> Seq<u64>
    decreases es.len(),
{
    if es.len() == 0 {
        Seq::empty()
    } else {
        keyword_ids_of(es.drop_last(), t) + occ_ids(views(es.last().keywords@), es.last().id, t)
    }
}

/// The ids of the entries with topic `t`, in order.
pub open spec fn topic_ids_of(es: Seq<MemoryEntry>, t: Seq<char>) -> Seq<u64>
    decreases es.len(),
{
    if es.len() == 0 {
        Seq::empty()
    } else if es.last().topic@ == t {
        topic_ids_of(es.drop_last(), t).push(es.last().id)
    } else {
        topic_ids_of(es.drop_last(), t)
    }
}

/// Layered retrieval indexes: from keywords and from topics to entry ids.
#[derive(Debug)]
pub struct LayeredRetriever {
    keyword_index: IdIndex,
    topic_index: IdIndex,
}

impl LayeredRetriever {
    /// The ids filed under keyword `t`.
    pub closed spec fn keyword_ids(&self, t: Seq<char>) -> Seq<u64> {
        self.keyword_index.ids(t)
    }

    /// The ids filed under topic `t`.
    pub closed spec fn topic_ids(&self, t: Seq<char>) -> Seq<u64> {
        self.topic_index.ids(t)
    }

    /// The retriever's invariant.
    pub closed spec fn wf(&self) -> bool {
        self.keyword_index.wf() && self.topic_index.wf()
    }

    /// A retriever with empty indexes.
    pub fn new() -> (r: Self)
        ensures
            r.wf(),
            forall|t: Seq<char>| #[trigger] r.keyword_ids(t) == Seq::<u64>::empty(),
            forall|t: Seq<char>| #[trigger] r.topic_ids(t) == Seq::<u64>::empty(),
    {
        LayeredRetriever { keyword_index: IdIndex::new(), topic_index: IdIndex::new() }
    }

    /// Rebuilds both indexes from `entries`: every entry's id is filed under
    /// each of its keywords and under its topic, in entry order.
    pub fn build_index(&mut self, entries: &[MemoryEntry])
        requires
            old(self).wf(),
        ensures
            final(self).wf(),
            forall|t: Seq<char>| #[trigger] final(self).keyword_ids(t) == keyword_ids_of(entries@, t),
            forall|t: Seq<char>| #[trigger] final(self).topic_ids(t) == topic_ids_of(entries@, t),
    {
        self.keyword_index.clear();
        self.topic_index.clear();
        let mut i: usize = 0;
        while i < entries.len()
            invariant
                i <= entries@.len(),
                self.wf(),
                forall|t: Seq<char>| #[trigger] self.keyword_ids(t) == keyword_ids_of(entries@.take(i as int), t),
                forall|t: Seq<char>| #[trigger] self.topic_ids(t) == topic_ids_of(entries@.take(i as int), t),
            decreases entries@.len() - i,
        {
            let e = &entries[i];
            let ghost t0 = entries@.take(i as int);
            let ghost kv = views(e.keywords@);
            let mut j: usize = 0;
            while j < e.keywords.len()
                invariant
                    j <= e.keywords@.len(),
                    self.wf(),
                    kv == views(e.keywords@),
                    forall|t: Seq<char>| #[trigger]
                        self.keyword_ids(t) == keyword_ids_of(t0, t) + occ_ids(kv.take(j as int), e.id, t),
                    forall|t: Seq<char>| #[trigger] self.topic_ids(t) == topic_ids_of(t0, t),
                decreases e.keywords@.len() - j,
            {
                let ghost before = self.keyword_index;
                let ghost topics_before = self.topic_index;
                let ghost s0 = *self;
                self.keyword_index.add(e.keywords[j].as_str(), e.id);
                proof {
                    assert(self.topic_index == topics_before);
                    assert forall|t: Seq<char>| #[trigger] self.topic_ids(t) == topic_ids_of(t0, t) by {
                        assert(s0.topic_ids(t) == topic_ids_of(t0, t));
                    }
                    let k1 = kv.take(j + 1);
                    assert(k1.drop_last() =~= kv.take(j as int));
                    assert(k1.last() == e.keywords@[j as int]@);
                    assert forall|t: Seq<char>| #[trigger]
                        self.keyword_ids(t) == keyword_ids_of(t0, t) + occ_ids(k1, e.id, t) by {
                        assert(self.keyword_index.ids(t) == if t == e.keywords@[j as int]@ {
                            before.ids(t).push(e.id)
                        } else {
                            before.ids(t)
                        });
                        assert(s0.keyword_ids(t) == keyword_ids_of(t0, t) + occ_ids(kv.take(j as int), e.id, t));
                        if t == e.keywords@[j as int]@ {
                            assert(keyword_ids_of(t0, t) + occ_ids(k1, e.id, t) =~= (keyword_ids_of(t0, t)
                                + occ_ids(kv.take(j as int), e.id, t)).push(e.id));
                        }
                    }
                }
                j = j + 1;
            }
            let ghost kw_before = self.keyword_index;
            let ghost tp_before = self.topic_index;
            let ghost s1 = *self;
            self.topic_index.add(e.topic.as_str(), e.id);
            proof {
                assert(self.keyword_index == kw_before);
                let t1 = entries@.take(i + 1);
                assert(t1.drop_last() =~= t0);
                assert(t1.last() == *e);
                assert(kv.take(kv.len() as int) =~= kv);
                assert forall|t: Seq<char>| #[trigger] self.keyword_ids(t) == keyword_ids_of(t1, t) by {
                    assert(s1.keyword_ids(t) == keyword_ids_of(t0, t) + occ_ids(kv.take(kv.len() as int), e.id, t));
                }
                assert forall|t: Seq<char>| #[trigger] self.topic_ids(t) == topic_ids_of(t1, t) by {
                    assert(self.topic_index.ids(t) == if t == e.topic@ {
                        tp_before.ids(t).push(e.id)
                    } else {
                        tp_before.ids(t)
                    });
                    assert(s1.topic_ids(t) == topic_ids_of(t0, t));
                }
            }
            i = i + 1;
        }
        assert(entries@.take(entries@.len() as int) =~= entries@);
    }

    /// The ids filed under keyword `key`.
    pub fn ids_for_keyword(&self, key: &str) -> (r: Vec<u64>)
        requires
            self.wf(),
        ensures
            r@ == self.keyword_ids(key@),
    {
        self.keyword_index.get(key)
    }

    /// The ids filed under topic `topic`.
    pub fn ids_for_topic(&self, topic: &str) -> (r: Vec<u64>)
        requires
            self.wf(),
        ensures
            r@ == self.topic_ids(topic@),
    {
        self.topic_index.get(topic)
    }
}

/// The members of `a` that occur in `b`, in order.
pub open spec fn keep_in(a: Seq<Seq<char>>, b: Seq<Seq<char>>) -> Seq<Seq<char>>
    decreases a.len(),
{
    if a.len() == 0 {
        Seq::empty()
    } else if b.contains(a.last()) {
        keep_in(a.drop_last(), b).push(a.last())
    } else {
        keep_in(a.drop_last(), b)
    }
}

/// The members of `b` that do not occur in `a`, in order.
pub open spec fn keep_out(b: Seq<Seq<char>>, a: Seq<Seq<char>>) -> Seq<Seq<char>>
    decreases b.len(),
{
    if b.len() == 0 {
        Seq::empty()
    } else if a.contains(b.last()) {
        keep_out(b.drop_last(), a)
    } else {
        keep_out(b.drop_last(), a).push(b.last())
    }
}

proof fn lemma_keep_in(a: Seq<Seq<char>>, b: Seq<Seq<char>>)
    requires
        a.no_duplicates(),
    ensures
        keep_in(a, b).no_duplicates(),
        keep_in(a, b).to_set() == a.to_set().intersect(b.to_set()),
    decreases a.len(),
{
    if a.len() > 0 {
        let p = a.drop_last();
        lemma_keep_in(p, b);
        let k = keep_in(p, b);
        if b.contains(a.last()) {
            assert(!k.contains(a.last())) by {
                if k.contains(a.last()) {
                    assert(k.to_set().contains(a.last()));
                    assert(p.contains(a.last()));
                    let t = choose|t: int| 0 <= t < p.len() && p[t] == a.last();
                    assert(a[t] == a[a.len() - 1]);
                }
            }
        }
        assert(keep_in(a, b).to_set() =~= a.to_set().intersect(b.to_set())) by {
            assert forall|x: Seq<char>| a.to_set().intersect(b.to_set()).contains(x) implies keep_in(
                a,
                b,
            ).to_set().contains(x) by {
                let t = choose|t: int| 0 <= t < a.len() && a[t] == x;
                if t < a.len() - 1 {
                    assert(p[t] == x);
                    assert(k.to_set().contains(x));
                    let u = choose|u: int| 0 <= u < k.len() && k[u] == x;
                    assert(keep_in(a, b)[u] == x);
                } else {
                    assert(keep_in(a, b).last() == x);
                }
            }
            assert forall|x: Seq<char>| keep_in(a, b).to_set().contains(x) implies a.to_set().intersect(
                b.to_set(),
            ).contains(x) by {
                let u = choose|u: int| 0 <= u < keep_in(a, b).len() && keep_in(a, b)[u] == x;
                if u < k.len() {
                    assert(k[u] == x);
                    assert(k.to_set().contains(x));
                    let t = choose|t: int| 0 <= t < p.len() && p[t] == x;
                    assert(a[t] == x);
                } else {
                    assert(a[a.len() - 1] == x);
                }
            }
        }
    } else {
        assert(keep_in(a, b).to_set() =~= a.to_set().intersect(b.to_set()));
    }
}

proof fn lemma_keep_out(b: Seq<Seq<char>>, a: Seq<Seq<char>>)
    requires
        b.no_duplicates(),
    ensures
        keep_out(b, a).no_duplicates(),
        keep_out(b, a).to_set() == b.to_set().difference(a.to_set()),
    decreases b.len(),
{
    if b.len() > 0 {
        let p = b.drop_last();
        lemma_keep_out(p, a);
        let k = keep_out(p, a);
        if !a.contains(b.last()) {
            assert(!k.contains(b.last())) by {
                if k.contains(b.last()) {
                    assert(k.to_set().contains(b.last()));
                    let t = choose|t: int| 0 <= t < p.len() && p[t] == b.last();
                    assert(b[t] == b[b.len() - 1]);
                }
            }
        }
        assert(keep_out(b, a).to_set() =~= b.to_set().difference(a.to_set())) by {
            assert forall|x: Seq<char>| b.to_set().difference(a.to_set()).contains(x) implies keep_out(
                b,
                a,
            ).to_set().contains(x) by {
                let t = choose|t: int| 0 <= t < b.len() && b[t] == x;
                if t < b.len() - 1 {
                    assert(p[t] == x);
                    assert(k.to_set().contains(x));
                    let u = choose|u: int| 0 <= u < k.len() && k[u] == x;
                    assert(keep_out(b, a)[u] == x);
                } else {
                    assert(keep_out(b, a).last() == x);
                }
            }
            assert forall|x: Seq<char>| keep_out(b, a).to_set().contains(x) implies b.to_set().difference(
                a.to_set(),
            ).contains(x) by {
                let u = choose|u: int| 0 <= u < keep_out(b, a).len() && keep_out(b, a)[u] == x;
                if u < k.len() {
                    assert(k[u] == x);
                    assert(k.to_set().contains(x));
                    let t = choose|t: int| 0 <= t < p.len() && p[t] == x;
                    assert(b[t] == x);
                } else {
                    assert(b[b.len() - 1] == x);
                }
            }
        }
    } else {
        assert(keep_out(b, a).to_set() =~= b.to_set().difference(a.to_set()));
    }
}

/// The overlap of two distinct keyword lists: the sizes of their
/// intersection and of their union.
pub proof fn lemma_overlap_sizes(a: Seq<Seq<char>>, b: Seq<Seq<char>>)
    requires
        a.no_duplicates(),
        b.no_duplicates(),
    ensures
        keep_in(a, b).len() == a.to_set().intersect(b.to_set()).len(),
        a.len() + keep_out(b, a).len() == a.to_set().union(b.to_set()).len(),
{
    lemma_keep_in(a, b);
    lemma_keep_out(b, a);
    keep_in(a, b).unique_seq_to_set();
    let c = a + keep_out(b, a);
    assert forall|i: int, j: int| 0 <= i < a.len() && 0 <= j < keep_out(b, a).len() implies a[i] != keep_out(
        b,
        a,
    )[j] by {
        assert(keep_out(b, a).to_set().contains(keep_out(b, a)[j]));
        assert(a.to_set().contains(a[i]));
    }
    vstd::seq_lib::lemma_no_dup_in_concat(a, keep_out(b, a));
    c.unique_seq_to_set();
    assert(c.to_set() =~= a.to_set().union(b.to_set())) by {
        assert forall|x: Seq<char>| a.to_set().union(b.to_set()).contains(x) implies c.to_set().contains(x) by {
            if a.contains(x) {
                let t = choose|t: int| 0 <= t < a.len() && a[t] == x;
                assert(c[t] == x);
            } else {
                assert(keep_out(b, a).to_set().contains(x));
                let u = choose|u: int| 0 <= u < keep_out(b, a).len() && keep_out(b, a)[u] == x;
                assert(c[a.len() + u] == x);
            }
        }
        assert forall|x: Seq<char>| c.to_set().contains(x) implies a.to_set().union(b.to_set()).contains(x) by {
            let u = choose|u: int| 0 <= u < c.len() && c[u] == x;
            if u < a.len() {
                assert(a[u] == x);
            } else {
                assert(keep_out(b, a)[u - a.len()] == x);
                assert(keep_out(b, a).to_set().contains(x));
            }
        }
    }
}

/// The integer inputs of one entry's retrieval score.
#[derive(Debug, Clone, Copy)]
pub struct MatchFeatures {
    /// The query occurs in the entry's content.
    pub exact: bool,
    /// Characters in the query.
    pub query_chars: usize,
    /// Characters in the content.
    pub content_chars: usize,
    /// Keywords shared by the query and the entry.
    pub shared_keywords: usize,
    /// Keywords of either.
    pub all_keywords: usize,
    /// The query has a topic, and it is the entry's.
    pub same_topic: bool,
}

fn contains_word(ws: &[String], w: &str) -> (b: bool)
    ensures
        b == views(ws@).contains(w@),
{
    let mut i: usize = 0;
    while i < ws.len()
        invariant
            i <= ws@.len(),
            forall|k: int| 0 <= k < i ==> ws@[k]@ != w@,
        decreases ws@.len() - i,
    {
        if str_eq(ws[i].as_str(), w) {
            assert(views(ws@)[i as int] == w@);
            return true;
        }
        i = i + 1;
    }
    proof {
        if views(ws@).contains(w@) {
            let t = choose|t: int| 0 <= t < views(ws@).len() && views(ws@)[t] == w@;
            assert(ws@[t]@ == w@);
        }
    }
    false
}

/// The retrieval features of `entry` for a query with keywords
/// `query_keywords` and topic `query_topic`: whether the query occurs in
/// the content, the character counts of both, the sizes of the
/// intersection and union of the keyword sets, and whether the topics agree
/// (a query without topic agrees with none).
pub fn match_features(query: &str, query_keywords: &[String], query_topic: &str, entry: &MemoryEntry) -> (f:
    MatchFeatures)
    requires
        views(query_keywords@).no_duplicates(),
        views(entry.keywords@).no_duplicates(),
        query_keywords@.len() + entry.keywords@.len() <= usize::MAX,
    ensures
        f.exact == seq_contains(entry.content@, query@),
        f.query_chars == query@.len(),
        f.content_chars == entry.content@.len(),
        f.shared_keywords == views(query_keywords@).to_set().intersect(views(entry.keywords@).to_set()).len(),
        f.all_keywords == views(query_keywords@).to_set().union(views(entry.keywords@).to_set()).len(),
        f.same_topic == (query_topic@ == entry.topic@ && query_topic@.len() > 0),
{
    let qc = chars_of(query);
    let cc = chars_of(entry.content.as_str());
    let exact = contains_chars(cc.as_slice(), qc.as_slice());
    let ghost a = views(query_keywords@);
    let ghost b = views(entry.keywords@);
    let mut shared: usize = 0;
    let mut i: usize = 0;
    while i < query_keywords.len()
        invariant
            i <= query_keywords@.len(),
            a == views(query_keywords@),
            b == views(entry.keywords@),
            shared == keep_in(a.take(i as int), b).len(),
            shared <= i,
        decreases query_keywords@.len() - i,
    {
        proof {
            assert(a.take(i + 1).drop_last() =~= a.take(i as int));
            assert(a.take(i + 1).last() == query_keywords@[i as int]@);
        }
        if contains_word(entry.keywords.as_slice(), query_keywords[i].as_str()) {
            shared = shared + 1;
        }
        i = i + 1;
    }
    assert(a.take(a.len() as int) =~= a);
    let mut extra: usize = 0;
    let mut j: usize = 0;
    while j < entry.keywords.len()
        invariant
            j <= entry.keywords@.len(),
            a == views(query_keywords@),
            b == views(entry.keywords@),
            extra == keep_out(b.take(j as int), a).len(),
            extra <= j,
            query_keywords@.len() + entry.keywords@.len() <= usize::MAX,
        decreases entry.keywords@.len() - j,
    {
        proof {
            assert(b.take(j + 1).drop_last() =~= b.take(j as int));
            assert(b.take(j + 1).last() == entry.keywords@[j as int]@);
        }
        if !contains_word(query_keywords, entry.keywords[j].as_str()) {
            extra = extra + 1;
        }
        j = j + 1;
    }
    assert(b.take(b.len() as int) =~= b);
    proof {
        lemma_overlap_sizes(a, b);
    }
    let same_topic = str_eq(query_topic, entry.topic.as_str()) && !query_topic.is_empty();
    MatchFeatures {
        exact,
        query_chars: qc.len(),
        content_chars: cc.len(),
        shared_keywords: shared,
        all_keywords: query_keywords.len() + extra,
        same_topic,
    }
}

} // verus!
