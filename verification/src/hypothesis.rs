//! The hypothesis bank: emergent products pass three checks (mathematics,
//! physics, ethics) and a confidence bar before the main system keeps them,
//! marked as unverified hypotheses, in a bounded first-in-first-out bank.

use vstd::prelude::*;
use vstd::string::*;

use crate::text::{chars_of, contains_chars, occurs_at, seq_contains};

verus! {

/// The kinds of emergent product.
#[derive(Debug, Clone, Copy, PartialEq, Eq, Structural)]
pub enum ProductKind {
    /// A concept.
    Concept,
    /// A causal rule.
    CausalRule,
    /// A physical law.
    PhysicalLaw,
    /// A strategy.
    Strategy,
}

/// The outcome of the three checks and the confidence bar.
#[derive(Debug, Clone, Copy, PartialEq, Eq, Structural)]
pub struct ValidationResult {
    /// The product has a description.
    pub math_consistent: bool,
    /// Its name and description name no impossible physics.
    pub physics_consistent: bool,
    /// Its name and description name no harm, and the anchor's non-harm
    /// value is above 0.7.
    pub ethics_consistent: bool,
    /// Its confidence is at least 0.7.
    pub confidence_ok: bool,
    /// All four hold.
    pub overall_pass: bool,
}

/// Words that mark impossible physics.
pub open spec fn physics_blacklist() -> Seq<Seq<char>> {
    seq!["永动机"@, "无中生有"@, "瞬间移动"@, "超光速"@]
}

/// Words that mark harm.
pub open spec fn ethics_blacklist() -> Seq<Seq<char>> {
    seq!["杀"@, "暴力"@, "虐待"@, "欺骗"@]
}

/// Some word of `words` occurs in `text`.
pub open spec fn mentions_any(text: Seq<char>, words: Seq<Seq<char>>) -> bool {
    exists|i: int| 0 <= i < words.len() && seq_contains(text, #[trigger] words[i])
}

/// The checks of a product named `name` with `description`; whether its
/// confidence reaches 0.7 and whether the anchor's non-harm value exceeds
/// 0.7 are given.
pub open spec fn checks_of(
    name: Seq<char>,
    description: Seq<char>,
    confident: bool,
    non_harm_ok: bool,
) -> ValidationResult {
    let combined = name + " "@ + description;
    let math = description.len() > 0;
    let physics = !mentions_any(combined, physics_blacklist());
    let ethics = !mentions_any(combined, ethics_blacklist()) && non_harm_ok;
    ValidationResult {
        math_consistent: math,
        physics_consistent: physics,
        ethics_consistent: ethics,
        confidence_ok: confident,
        overall_pass: math && physics && ethics && confident,
    }
}

/// `w` occurs in the name or in the description.
pub open spec fn named_in(name: Seq<char>, description: Seq<char>, w: Seq<char>) -> bool {
    seq_contains(name, w) || seq_contains(description, w)
}

/// A word found in the name or in the description is found in the text
/// joining them with a space.
proof fn lemma_joined_contains(name: Seq<char>, description: Seq<char>, w: Seq<char>)
    requires
        named_in(name, description, w),
    ensures
        seq_contains(name + " "@ + description, w),
{
    let c = name + " "@ + description;
    reveal_strlit(" ");
    if seq_contains(name, w) {
        let i = choose|i: int| occurs_at(name, w, i);
        assert(c.subrange(i, i + w.len()) =~= name.subrange(i, i + w.len()));
        assert(occurs_at(c, w, i));
    } else {
        let i = choose|i: int| occurs_at(description, w, i);
        let j = name.len() + 1 + i;
        assert(c.subrange(j, j + w.len()) =~= description.subrange(i, i + w.len()));
        assert(occurs_at(c, w, j));
    }
}

/// What the checks decide: a product whose name or description names harm
/// (杀, 暴力, 虐待, 欺骗) fails the ethics check, one naming impossible
/// physics (永动机, 无中生有, 瞬间移动, 超光速) fails the physics check, one
/// without a description fails the mathematics check, the ethics check also
/// needs the anchor's non-harm value, and a product passes exactly when all
/// checks and the confidence bar pass.
pub proof fn law_checks(name: Seq<char>, description: Seq<char>, confident: bool, non_harm_ok: bool)
    ensures
        ({
            let r = checks_of(name, description, confident, non_harm_ok);
            &&& named_in(name, description, "杀"@) ==> !r.ethics_consistent && !r.overall_pass
            &&& named_in(name, description, "暴力"@) ==> !r.ethics_consistent && !r.overall_pass
            &&& named_in(name, description, "虐待"@) ==> !r.ethics_consistent && !r.overall_pass
            &&& named_in(name, description, "欺骗"@) ==> !r.ethics_consistent && !r.overall_pass
            &&& named_in(name, description, "永动机"@) ==> !r.physics_consistent && !r.overall_pass
            &&& named_in(name, description, "无中生有"@) ==> !r.physics_consistent && !r.overall_pass
            &&& named_in(name, description, "瞬间移动"@) ==> !r.physics_consistent && !r.overall_pass
            &&& named_in(name, description, "超光速"@) ==> !r.physics_consistent && !r.overall_pass
            &&& !non_harm_ok ==> !r.ethics_consistent && !r.overall_pass
            &&& description.len() == 0 ==> !r.math_consistent && !r.overall_pass
            &&& description.len() > 0 <==> r.math_consistent
            &&& r.confidence_ok == confident
            &&& r.overall_pass <==> (r.math_consistent && r.physics_consistent && r.ethics_consistent && confident)
        }),
{
    let c = name + " "@ + description;
    let eb = ethics_blacklist();
    let pb = physics_blacklist();
    if named_in(name, description, "杀"@) {
        lemma_joined_contains(name, description, "杀"@);
        assert(seq_contains(c, eb[0]));
    }
    if named_in(name, description, "暴力"@) {
        lemma_joined_contains(name, description, "暴力"@);
        assert(seq_contains(c, eb[1]));
    }
    if named_in(name, description, "虐待"@) {
        lemma_joined_contains(name, description, "虐待"@);
        assert(seq_contains(c, eb[2]));
    }
    if named_in(name, description, "欺骗"@) {
        lemma_joined_contains(name, description, "欺骗"@);
        assert(seq_contains(c, eb[3]));
    }
    if named_in(name, description, "永动机"@) {
        lemma_joined_contains(name, description, "永动机"@);
        assert(seq_contains(c, pb[0]));
    }
    if named_in(name, description, "无中生有"@) {
        lemma_joined_contains(name, description, "无中生有"@);
        assert(seq_contains(c, pb[1]));
    }
    if named_in(name, description, "瞬间移动"@) {
        lemma_joined_contains(name, description, "瞬间移动"@);
        assert(seq_contains(c, pb[2]));
    }
    if named_in(name, description, "超光速"@) {
        lemma_joined_contains(name, description, "超光速"@);
        assert(seq_contains(c, pb[3]));
    }
}

fn mentions(text: &[char], words: &Vec<&str>, spec_words: Ghost<Seq<Seq<char>>>) -> (b: bool)
    requires
        words@.len() == spec_words@.len(),
        forall|i: int| 0 <= i < words@.len() ==> #[trigger] words@[i]@ == spec_words@[i],
    ensures
        b == mentions_any(text@, spec_words@),
{
    let mut i: usize = 0;
    while i < words.len()
        invariant
            i <= words@.len(),
            words@.len() == spec_words@.len(),
            forall|k: int| 0 <= k < words@.len() ==> #[trigger] words@[k]@ == spec_words@[k],
            forall|k: int| 0 <= k < i ==> !seq_contains(text@, #[trigger] spec_words@[k]),
        decreases words@.len() - i,
    {
        let w = chars_of(words[i]);
        if contains_chars(text, w.as_slice()) {
            assert(seq_contains(text@, spec_words@[i as int]));
            return true;
        }
        i = i + 1;
    }
    false
}

/// Runs the three checks and the confidence bar on a product.
pub fn validate_product(name: &str, description: &str, confident: bool, non_harm_ok: bool) -> (r:
    ValidationResult)
    ensures
        r == checks_of(name@, description@, confident, non_harm_ok),
{
    let mut combined = name.to_string();
    combined.append(" ");
    combined.append(description);
    proof {
        reveal_strlit(" ");
    }
    let text = chars_of(combined.as_str());
    let physics_words: Vec<&str> = vec!["永动机", "无中生有", "瞬间移动", "超光速"];
    let ethics_words: Vec<&str> = vec!["杀", "暴力", "虐待", "欺骗"];
    let math = !description.is_empty();
    let physics = !mentions(text.as_slice(), &physics_words, Ghost(physics_blacklist()));
    let harm = mentions(text.as_slice(), &ethics_words, Ghost(ethics_blacklist()));
    let ethics = !harm && non_harm_ok;
    ValidationResult {
        math_consistent: math,
        physics_consistent: physics,
        ethics_consistent: ethics,
        confidence_ok: confident,
        overall_pass: math && physics && ethics && confident,
    }
}

/// Number of the four checks passed.
pub open spec fn passed_count(r: ValidationResult) -> nat {
    (if r.math_consistent { 1nat } else { 0nat }) + (if r.physics_consistent { 1nat } else { 0nat })
        + (if r.ethics_consistent { 1nat } else { 0nat }) + (if r.confidence_ok { 1nat } else { 0nat })
}

/// "true" or "false".
pub open spec fn bool_text(b: bool) -> Seq<char> {
    if b {
        "true"@
    } else {
        "false"@
    }
}

/// The validation notes of a result.
pub open spec fn notes_of(r: ValidationResult) -> Seq<char> {
    if r.overall_pass {
        "三关验证全部通过"@
    } else {
        "验证未通过: math="@ + bool_text(r.math_consistent) + " physics="@ + bool_text(
            r.physics_consistent,
        ) + " ethics="@ + bool_text(r.ethics_consistent) + " conf="@ + bool_text(r.confidence_ok)
    }
}

fn append_bool(s: &mut String, b: bool)
    ensures
        final(s)@ == old(s)@ + bool_text(b),
{
    if b {
        s.append("true");
        proof {
            reveal_strlit("true");
        }
    } else {
        s.append("false");
        proof {
            reveal_strlit("false");
        }
    }
}

impl ValidationResult {
    /// Number of the four checks passed; a product's validity score is a
    /// quarter of it.
    pub fn checks_passed(&self) -> (n: u32)
        ensures
            n == passed_count(*self),
    {
        let mut n: u32 = 0;
        if self.math_consistent {
            n = n + 1;
        }
        if self.physics_consistent {
            n = n + 1;
        }
        if self.ethics_consistent {
            n = n + 1;
        }
        if self.confidence_ok {
            n = n + 1;
        }
        n
    }

    /// The notes stored with a product: all passed, or each check's result.
    pub fn notes(&self) -> (s: String)
        ensures
            s@ == notes_of(*self),
    {
        if self.overall_pass {
            return String::from_str("三关验证全部通过");
        }
        let mut s = String::from_str("验证未通过: math=");
        append_bool(&mut s, self.math_consistent);
        s.append(" physics=");
        append_bool(&mut s, self.physics_consistent);
        s.append(" ethics=");
        append_bool(&mut s, self.ethics_consistent);
        s.append(" conf=");
        append_bool(&mut s, self.confidence_ok);
        proof {
            reveal_strlit("验证未通过: math=");
            reveal_strlit(" physics=");
            reveal_strlit(" ethics=");
            reveal_strlit(" conf=");
        }
        s
    }
}

/// The bank's contents after keeping `item`: the oldest goes first when
/// the bank is full.
pub open spec fn kept_after<T>(items: Seq<T>, capacity: nat, item: T) -> Seq<T> {
    if items.len() >= capacity {
        items.drop_first().push(item)
    } else {
        items.push(item)
    }
}

/// The hypothesis bank: products that passed validation, at most
/// `capacity` of them, oldest first.
pub struct HypothesisBank<T> {
    products: Vec<T>,
    capacity: usize,
}

impl<T> HypothesisBank<T> {
    /// The products kept, oldest first.
    pub closed spec fn items(&self) -> Seq<T> {
        self.products@
    }

    /// How many products the bank keeps.
    pub closed spec fn limit(&self) -> nat {
        self.capacity as nat
    }

    /// The bank's invariant: it is within its capacity.
    pub closed spec fn wf(&self) -> bool {
        self.products@.len() <= self.capacity
    }

    /// A well-formed bank never holds more products than its capacity.
    pub proof fn lemma_within_limit(&self)
        requires
            self.wf(),
        ensures
            self.items().len() <= self.limit(),
    {
    }

    /// An empty bank keeping at most `capacity` products.
    pub fn new(capacity: usize) -> (b: Self)
        ensures
            b.wf(),
            b.items().len() == 0,
            b.limit() == capacity,
    {
        HypothesisBank { products: Vec::new(), capacity }
    }

    /// Keeps a product that passed validation; when the bank is full the
    /// oldest product is dropped first.
    pub fn keep(&mut self, item: T)
        requires
            old(self).wf(),
            old(self).limit() > 0,
        ensures
            final(self).wf(),
            final(self).limit() == old(self).limit(),
            final(self).items() == kept_after(old(self).items(), old(self).limit(), item),
    {
        let ghost before = self.products@;
        if self.products.len() >= self.capacity {
            self.products.remove(0);
            assert(self.products@ =~= before.drop_first());
        }
        self.products.push(item);
    }

    /// Files a validated product: it is kept (the oldest going first when
    /// the bank is full) exactly when it passed all checks; returns whether
    /// it was kept.
    pub fn submit(&mut self, result: &ValidationResult, item: T) -> (kept: bool)
        requires
            old(self).wf(),
            result.overall_pass ==> old(self).limit() > 0,
        ensures
            final(self).wf(),
            kept == result.overall_pass,
            final(self).limit() == old(self).limit(),
            final(self).items() == if result.overall_pass {
                kept_after(old(self).items(), old(self).limit(), item)
            } else {
                old(self).items()
            },
    {
        if result.overall_pass {
            self.keep(item);
            true
        } else {
            false
        }
    }

    /// How many products the bank keeps at most.
    pub fn capacity(&self) -> (n: usize)
        ensures
            n == self.limit(),
    {
        self.capacity
    }

    /// Number of products kept.
    pub fn len(&self) -> (n: usize)
        ensures
            n == self.items().len(),
    {
        self.products.len()
    }

    /// The products kept, oldest first.
    pub fn products(&self) -> (p: &[T])
        ensures
            p@ == self.items(),
    {
        self.products.as_slice()
    }
}

/// A full bank stays full and keeps the newest: after keeping an item in a
/// bank at its capacity, it still holds `capacity` items and the newest is
/// last.
pub proof fn law_bank_keeps_newest<T>(items: Seq<T>, capacity: nat, item: T)
    requires
        capacity > 0,
        items.len() <= capacity,
    ensures
        kept_after(items, capacity, item).len() == if items.len() == capacity {
            capacity
        } else {
            items.len() + 1
        },
        kept_after(items, capacity, item).last() == item,
        kept_after(items, capacity, item).len() <= capacity,
{
}

/// The verdict on one product.
#[derive(Debug, Clone)]
pub struct ValidationOutcome {
    /// The product's id.
    pub product_id: u64,
    /// Whether it passed.
    pub passed: bool,
    /// Free text.
    pub notes: String,
}

} // verus!
