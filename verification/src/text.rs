//! Character-level text utilities shared by the language and memory modules.

use vstd::prelude::*;
use vstd::string::*;

verus! {

/// `pat` occurs in `text` starting at index `i`.
pub open spec fn occurs_at(text: Seq<char>, pat: Seq<char>, i: int) -> bool {
    &&& 0 <= i
    &&& i + pat.len() <= text.len()
    &&& text.subrange(i, i + pat.len()) == pat
}

/// `pat` occurs somewhere in `text` (the empty pattern occurs everywhere).
pub open spec fn seq_contains(text: Seq<char>, pat: Seq<char>) -> bool {
    exists|i: int| #[trigger] occurs_at(text, pat, i)
}

/// The characters of a string slice, in order.
pub fn chars_of(s: &str) -> (v: Vec<char>)
    ensures
        v@ == s@,
{
    let n = s.unicode_len();
    let mut v: Vec<char> = Vec::new();
    let mut i: usize = 0;
    while i < n
        invariant
            n == s@.len(),
            i <= n,
            v@ == s@.subrange(0, i as int),
        decreases n - i,
    {
        let c = s.get_char(i);
        v.push(c);
        i = i + 1;
        assert(v@ =~= s@.subrange(0, i as int));
    }
    assert(v@ =~= s@);
    v
}

/// Builds a `String` from characters (`Iterator::collect` over the slice).
#[verifier::external_body]
pub fn string_of(cs: &[char]) -> (s: String)
    ensures
        s@ == cs@,
{
    cs.iter().collect()
}

/// Appends one character to a string (`String::push`).
#[verifier::external_body]
pub fn push_char(s: &mut String, c: char)
    ensures
        final(s)@ == old(s)@.push(c),
{
    s.push(c)
}

/// Index of the first occurrence of `pat` in `text`, searching from `from`.
pub fn find_chars_from(text: &[char], pat: &[char], from: usize) -> (r: Option<usize>)
    requires
        from <= text@.len(),
    ensures
        match r {
            Some(i) => {
                &&& from <= i
                &&& occurs_at(text@, pat@, i as int)
                &&& forall|j: int| from <= j < i ==> !occurs_at(text@, pat@, j)
            },
            None => forall|j: int| from <= j ==> !occurs_at(text@, pat@, j),
        },
{
    let n = text.len();
    let m = pat.len();
    if m > n {
        return None;
    }
    let mut i: usize = from;
    while i <= n - m
        invariant
            n == text@.len(),
            m == pat@.len(),
            m <= n,
            from <= i,
            i <= n,
            forall|j: int| from <= j < i ==> !occurs_at(text@, pat@, j),
        decreases n - i,
    {
        let mut k: usize = 0;
        let mut same = true;
        while k < m
            invariant
                n == text@.len(),
                m == pat@.len(),
                i + m <= n,
                k <= m,
                same == (forall|t: int| 0 <= t < k ==> text@[i + t] == pat@[t]),
            decreases m - k,
        {
            if text[i + k] != pat[k] {
                same = false;
            }
            k = k + 1;
        }
        if same {
            assert(text@.subrange(i as int, i + m) =~= pat@);
            return Some(i);
        }
        assert(!occurs_at(text@, pat@, i as int)) by {
            if occurs_at(text@, pat@, i as int) {
                assert forall|t: int| 0 <= t < m implies text@[i + t] == pat@[t] by {
                    assert(text@.subrange(i as int, i + m)[t] == text@[i + t]);
                }
            }
        }
        i = i + 1;
    }
    None
}

/// Whether `pat` occurs in `text` (`str::contains` on character sequences).
pub fn contains_chars(text: &[char], pat: &[char]) -> (b: bool)
    ensures
        b == seq_contains(text@, pat@),
{
    match find_chars_from(text, pat, 0) {
        Some(i) => {
            assert(occurs_at(text@, pat@, i as int));
            true
        },
        None => {
            assert forall|j: int| !#[trigger] occurs_at(text@, pat@, j) by {
                if j < 0 {
                }
            }
            false
        },
    }
}

/// Whether two string slices hold the same characters.
pub fn str_eq(a: &str, b: &str) -> (r: bool)
    ensures
        r == (a@ == b@),
{
    let va = chars_of(a);
    let vb = chars_of(b);
    chars_eq(va.as_slice(), vb.as_slice())
}

/// Whether two character slices are equal.
pub fn chars_eq(a: &[char], b: &[char]) -> (r: bool)
    ensures
        r == (a@ == b@),
{
    if a.len() != b.len() {
        return false;
    }
    let mut i: usize = 0;
    while i < a.len()
        invariant
            a@.len() == b@.len(),
            i <= a@.len(),
            forall|t: int| 0 <= t < i ==> a@[t] == b@[t],
        decreases a@.len() - i,
    {
        if a[i] != b[i] {
            return false;
        }
        i = i + 1;
    }
    assert(a@ =~= b@);
    true
}

/// The Unicode `White_Space` characters, as `char::is_whitespace` lists them.
pub open spec fn is_whitespace(c: char) -> bool {
    let u = c as u32;
    (0x09 <= u && u <= 0x0d) || u == 0x20 || u == 0x85 || u == 0xa0 || u == 0x1680 || (0x2000 <= u
        && u <= 0x200a) || u == 0x2028 || u == 0x2029 || u == 0x202f || u == 0x205f || u == 0x3000
}

/// Whether `c` is whitespace: exactly the Unicode `White_Space` characters
/// listed in `is_whitespace`, as `char::is_whitespace` decides.
pub fn char_is_whitespace(c: char) -> (b: bool)
    ensures
        b == is_whitespace(c),
{
    let u = c as u32;
    (0x09 <= u && u <= 0x0d) || u == 0x20 || u == 0x85 || u == 0xa0 || u == 0x1680 || (0x2000 <= u
        && u <= 0x200a) || u == 0x2028 || u == 0x2029 || u == 0x202f || u == 0x205f || u == 0x3000
}

/// What `char::is_alphanumeric` returns (Unicode `Alphabetic` or `Numeric`).
pub uninterp spec fn is_alphanumeric(c: char) -> bool;

/// Whether `c` is alphanumeric (`char::is_alphanumeric`); its result is named
/// by `is_alphanumeric`.  ASCII letters and digits are alphanumeric and ASCII
/// punctuation and whitespace are not.
#[verifier::external_body]
pub fn char_is_alphanumeric(c: char) -> (b: bool)
    ensures
        b == is_alphanumeric(c),
        ('a' <= c <= 'z' || 'A' <= c <= 'Z' || '0' <= c <= '9') ==> b,
        (c as u32) < 0x80 && !('a' <= c <= 'z' || 'A' <= c <= 'Z' || '0' <= c <= '9') ==> !b,
{
    c.is_alphanumeric()
}

/// What `char::is_alphabetic` returns (Unicode `Alphabetic`).
pub uninterp spec fn is_alphabetic(c: char) -> bool;

/// Whether `c` is alphabetic (`char::is_alphabetic`); its result is named by
/// `is_alphabetic`.  ASCII letters are alphabetic and other ASCII characters
/// are not.
#[verifier::external_body]
pub fn char_is_alphabetic(c: char) -> (b: bool)
    ensures
        b == is_alphabetic(c),
        ('a' <= c <= 'z' || 'A' <= c <= 'Z') ==> b,
        (c as u32) < 0x80 && !('a' <= c <= 'z' || 'A' <= c <= 'Z') ==> !b,
{
    c.is_alphabetic()
}

/// What `str::to_lowercase` returns for a string.
pub uninterp spec fn lowercase(s: Seq<char>) -> Seq<char>;

/// The lowercase of an ASCII character: `A`..`Z` become `a`..`z`, every
/// other ASCII character stays.
pub open spec fn ascii_lower(c: char) -> char {
    if 'A' <= c <= 'Z' {
        ((c as u32) + 32) as char
    } else {
        c
    }
}

/// Every character of `s` is ASCII.
pub open spec fn all_ascii(s: Seq<char>) -> bool {
    forall|i: int| 0 <= i < s.len() ==> (s[i] as u32) < 0x80
}

/// The lowercase form of `s` (`str::to_lowercase`); its result is named by
/// `lowercase`.  The Unicode `Lowercase` mapping it follows sends ASCII
/// capital letters to the small ones and leaves every other ASCII
/// character as it is, so an ASCII string is lowercased character by
/// character.
#[verifier::external_body]
pub fn to_lowercase(s: &str) -> (r: String)
    ensures
        r@ == lowercase(s@),
        all_ascii(s@) ==> r@ == s@.map_values(|c: char| ascii_lower(c)),
{
    s.to_lowercase()
}

/// `s` without its leading whitespace.
pub open spec fn trim_start(s: Seq<char>) -> Seq<char>
    decreases s.len(),
{
    if s.len() > 0 && is_whitespace(s[0]) {
        trim_start(s.drop_first())
    } else {
        s
    }
}

/// `s` without its trailing whitespace.
pub open spec fn trim_end(s: Seq<char>) -> Seq<char>
    decreases s.len(),
{
    if s.len() > 0 && is_whitespace(s.last()) {
        trim_end(s.drop_last())
    } else {
        s
    }
}

/// `s` without leading and trailing whitespace (`str::trim`).
pub open spec fn trim(s: Seq<char>) -> Seq<char> {
    trim_end(trim_start(s))
}

proof fn lemma_trim_start_len(s: Seq<char>)
    ensures
        trim_start(s).len() <= s.len(),
    decreases s.len(),
{
    if s.len() > 0 && is_whitespace(s[0]) {
        lemma_trim_start_len(s.drop_first());
    }
}

proof fn lemma_trim_end_len(s: Seq<char>)
    ensures
        trim_end(s).len() <= s.len(),
    decreases s.len(),
{
    if s.len() > 0 && is_whitespace(s.last()) {
        lemma_trim_end_len(s.drop_last());
    }
}

/// Trimming never lengthens.
pub proof fn lemma_trim_len(s: Seq<char>)
    ensures
        trim(s).len() <= s.len(),
{
    lemma_trim_start_len(s);
    lemma_trim_end_len(trim_start(s));
}

/// `str::trim` on a character slice.
pub fn trim_chars(s: &[char]) -> (r: Vec<char>)
    ensures
        r@ == trim(s@),
{
    let n = s.len();
    let mut a: usize = 0;
    assert(s@.subrange(0, n as int) =~= s@);
    while a < n && char_is_whitespace(s[a])
        invariant
            n == s@.len(),
            a <= n,
            trim_start(s@) == trim_start(s@.subrange(a as int, n as int)),
        decreases n - a,
    {
        proof {
            let t = s@.subrange(a as int, n as int);
            assert(t.drop_first() =~= s@.subrange(a + 1, n as int));
        }
        a = a + 1;
    }
    proof {
        let t = s@.subrange(a as int, n as int);
        assert(trim_start(t) == t);
    }
    let mut b: usize = n;
    while b > a && char_is_whitespace(s[b - 1])
        invariant
            n == s@.len(),
            a <= b <= n,
            trim_end(s@.subrange(a as int, n as int)) == trim_end(s@.subrange(a as int, b as int)),
        decreases b - a,
    {
        proof {
            let t = s@.subrange(a as int, b as int);
            assert(t.drop_last() =~= s@.subrange(a as int, b - 1));
        }
        b = b - 1;
    }
    let mut r: Vec<char> = Vec::new();
    let mut i: usize = a;
    while i < b
        invariant
            a <= i <= b <= n,
            n == s@.len(),
            r@ == s@.subrange(a as int, i as int),
        decreases b - i,
    {
        r.push(s[i]);
        i = i + 1;
        assert(r@ =~= s@.subrange(a as int, i as int));
    }
    r
}

/// The decimal digit character of `d` (which is below 10).
pub open spec fn digit_char(d: nat) -> char {
    if d == 0 {
        '0'
    } else if d == 1 {
        '1'
    } else if d == 2 {
        '2'
    } else if d == 3 {
        '3'
    } else if d == 4 {
        '4'
    } else if d == 5 {
        '5'
    } else if d == 6 {
        '6'
    } else if d == 7 {
        '7'
    } else if d == 8 {
        '8'
    } else {
        '9'
    }
}

/// The decimal representation of `n`, without leading zeros.
pub open spec fn decimal(n: nat) -> Seq<char>
    decreases n,
{
    if n < 10 {
        seq![digit_char(n)]
    } else {
        decimal(n / 10).push(digit_char(n % 10))
    }
}

/// The decimal representation of a signed integer (`-` before negatives).
pub open spec fn signed_decimal(i: int) -> Seq<char> {
    if i < 0 {
        seq!['-'] + decimal((-i) as nat)
    } else {
        decimal(i as nat)
    }
}

fn digit(d: u64) -> (c: char)
    requires
        d < 10,
    ensures
        c == digit_char(d as nat),
{
    if d == 0 {
        '0'
    } else if d == 1 {
        '1'
    } else if d == 2 {
        '2'
    } else if d == 3 {
        '3'
    } else if d == 4 {
        '4'
    } else if d == 5 {
        '5'
    } else if d == 6 {
        '6'
    } else if d == 7 {
        '7'
    } else if d == 8 {
        '8'
    } else {
        '9'
    }
}

/// Appends the decimal representation of `n` to `s`.
pub fn push_decimal(s: &mut String, n: u64)
    ensures
        final(s)@ == old(s)@ + decimal(n as nat),
    decreases n,
{
    if n < 10 {
        push_char(s, digit(n));
        assert(decimal(n as nat) =~= seq![digit_char(n as nat)]);
    } else {
        push_decimal(s, n / 10);
        push_char(s, digit(n % 10));
        assert(final(s)@ =~= old(s)@ + decimal(n as nat));
    }
}

/// Appends the decimal representation of a signed `i` to `s`.
pub fn push_signed_decimal(s: &mut String, i: i64)
    ensures
        final(s)@ == old(s)@ + signed_decimal(i as int),
{
    if i < 0 {
        push_char(s, '-');
        let m: u64 = if i == i64::MIN {
            9223372036854775808u64
        } else {
            (-i) as u64
        };
        push_decimal(s, m);
        assert(final(s)@ =~= old(s)@ + signed_decimal(i as int));
    } else {
        push_decimal(s, i as u64);
    }
}

/// `num / den` rounded to the nearest integer, ties to even.
pub open spec fn round_half_even(num: nat, den: nat) -> nat {
    let q = num / den;
    let r = num % den;
    if 2 * r < den {
        q
    } else if 2 * r > den {
        q + 1
    } else if q % 2 == 0 {
        q
    } else {
        q + 1
    }
}

/// `num / den` written with two decimals, rounded to nearest with ties to
/// even, as `{:.2}` writes it; a negative value keeps its sign.
pub open spec fn fixed2(num: int, den: nat) -> Seq<char> {
    let a: nat = if num < 0 {
        (-num) as nat
    } else {
        num as nat
    };
    let q = round_half_even(a * 100, den);
    (if num < 0 {
        seq!['-']
    } else {
        Seq::<char>::empty()
    }) + decimal(q / 100) + seq!['.', digit_char((q % 100) / 10), digit_char(q % 10)]
}

/// Appends `num / den` with two decimals (see `fixed2`).
pub fn push_fixed2(s: &mut String, num: i64, den: u64)
    requires
        0 < den,
    ensures
        final(s)@ == old(s)@ + fixed2(num as int, den as nat),
{
    let neg = num < 0;
    let a: u128 = if neg {
        (-(num as i128)) as u128
    } else {
        num as u128
    };
    let d = den as u128;
    let x = a * 100;
    let q0 = x / d;
    let r = x % d;
    let q = if 2 * r < d {
        q0
    } else if 2 * r > d {
        q0 + 1
    } else if q0 % 2 == 0 {
        q0
    } else {
        q0 + 1
    };
    assert(q <= x + 1);
    let ghost before = s@;
    if neg {
        push_char(s, '-');
    }
    let hi = (q / 100) as u64;
    push_decimal(s, hi);
    push_char(s, '.');
    push_char(s, digit(((q % 100) / 10) as u64));
    push_char(s, digit((q % 10) as u64));
    assert(s@ =~= before + fixed2(num as int, den as nat));
}

/// Appends `num / den` with two decimals (see `fixed2`), for wide operands.
pub fn push_fixed2_wide(s: &mut String, num: i128, den: u128)
    requires
        0 < den < 0x1_0000_0000_0000_0000_0000_0000,
        -0x1_0000_0000_0000_0000 < num < 0x1_0000_0000_0000_0000,
    ensures
        final(s)@ == old(s)@ + fixed2(num as int, den as nat),
{
    let neg = num < 0;
    let a: u128 = if neg {
        (-num) as u128
    } else {
        num as u128
    };
    let x = a * 100;
    let q0 = x / den;
    let r = x % den;
    let q = if 2 * r < den {
        q0
    } else if 2 * r > den {
        q0 + 1
    } else if q0 % 2 == 0 {
        q0
    } else {
        q0 + 1
    };
    let ghost before = s@;
    if neg {
        push_char(s, '-');
    }
    let hi = q / 100;
    assert(hi <= u64::MAX) by (nonlinear_arith)
        requires
            hi == q / 100,
            q <= x / den + 1,
            den >= 1,
            x == a * 100,
            a < 0x1_0000_0000_0000_0000,
    ;
    push_decimal(s, hi as u64);
    push_char(s, '.');
    push_char(s, digit(((q % 100) / 10) as u64));
    push_char(s, digit((q % 10) as u64));
    assert(s@ =~= before + fixed2(num as int, den as nat));
}

/// Lexicographic order on character sequences by code point (the order of
/// `String`'s `Ord`, since UTF-8 preserves code-point order): a proper prefix
/// comes first.
pub open spec fn seq_lt(a: Seq<char>, b: Seq<char>) -> bool
    decreases a.len(),
{
    if a.len() == 0 {
        b.len() > 0
    } else if b.len() == 0 {
        false
    } else if a[0] != b[0] {
        (a[0] as int) < (b[0] as int)
    } else {
        seq_lt(a.drop_first(), b.drop_first())
    }
}

/// `seq_lt` is irreflexive.
pub proof fn lemma_seq_lt_irreflexive(a: Seq<char>)
    ensures
        !seq_lt(a, a),
    decreases a.len(),
{
    if a.len() > 0 {
        lemma_seq_lt_irreflexive(a.drop_first());
    }
}

/// `seq_lt` is transitive.
pub proof fn lemma_seq_lt_transitive(a: Seq<char>, b: Seq<char>, c: Seq<char>)
    requires
        seq_lt(a, b),
        seq_lt(b, c),
    ensures
        seq_lt(a, c),
    decreases a.len(),
{
    if a.len() > 0 && b.len() > 0 && c.len() > 0 {
        if a[0] == b[0] && b[0] == c[0] {
            lemma_seq_lt_transitive(a.drop_first(), b.drop_first(), c.drop_first());
        }
    }
}

/// `seq_lt` is total on distinct sequences.
pub proof fn lemma_seq_lt_total(a: Seq<char>, b: Seq<char>)
    ensures
        a == b || seq_lt(a, b) || seq_lt(b, a),
    decreases a.len(),
{
    if a.len() > 0 && b.len() > 0 {
        if a[0] == b[0] {
            lemma_seq_lt_total(a.drop_first(), b.drop_first());
            if a.drop_first() == b.drop_first() {
                assert(a =~= seq![a[0]] + a.drop_first());
                assert(b =~= seq![b[0]] + b.drop_first());
            }
        }
    } else if a.len() == 0 && b.len() == 0 {
        assert(a =~= b);
    }
}

/// Whether `a` comes before `b` in `seq_lt` order.
pub fn chars_lt(a: &[char], b: &[char]) -> (r: bool)
    ensures
        r == seq_lt(a@, b@),
{
    let mut i: usize = 0;
    assert(a@.skip(0) =~= a@);
    assert(b@.skip(0) =~= b@);
    while i < a.len() && i < b.len()
        invariant
            i <= a@.len(),
            i <= b@.len(),
            forall|t: int| 0 <= t < i ==> a@[t] == b@[t],
            seq_lt(a@, b@) == seq_lt(a@.skip(i as int), b@.skip(i as int)),
        decreases a@.len() - i,
    {
        proof {
            let sa = a@.skip(i as int);
            let sb = b@.skip(i as int);
            assert(sa.drop_first() =~= a@.skip(i + 1));
            assert(sb.drop_first() =~= b@.skip(i + 1));
            assert(sa[0] == a@[i as int]);
            assert(sb[0] == b@[i as int]);
        }
        if a[i] != b[i] {
            return a[i] < b[i];
        }
        i = i + 1;
    }
    i < b.len() && i == a.len()
}

/// `v` is strictly increasing in `seq_lt` order.
pub open spec fn strictly_sorted(v: Seq<Seq<char>>) -> bool {
    forall|i: int, j: int| 0 <= i < j < v.len() ==> seq_lt(#[trigger] v[i], #[trigger] v[j])
}

/// Inserts `w` into the strictly sorted `v`, unless it is already there.
pub fn insert_sorted(v: &mut Vec<Vec<char>>, w: Vec<char>)
    requires
        strictly_sorted(old(v)@.map_values(|x: Vec<char>| x@)),
    ensures
        strictly_sorted(final(v)@.map_values(|x: Vec<char>| x@)),
        final(v)@.map_values(|x: Vec<char>| x@).to_set() == old(v)@.map_values(|x: Vec<char>| x@).to_set().insert(w@),
{
    let ghost vs = v@.map_values(|x: Vec<char>| x@);
    let mut p: usize = 0;
    while p < v.len() && chars_lt(v[p].as_slice(), w.as_slice())
        invariant
            p <= v@.len(),
            vs == v@.map_values(|x: Vec<char>| x@),
            forall|t: int| 0 <= t < p ==> seq_lt(#[trigger] vs[t], w@),
        decreases v@.len() - p,
    {
        p = p + 1;
    }
    if p < v.len() && chars_eq(v[p].as_slice(), w.as_slice()) {
        assert(vs[p as int] == w@);
        assert(vs.to_set().insert(w@) =~= vs.to_set()) by {
            assert(vs.contains(w@));
        }
        return;
    }
    let ghost wv = w@;
    proof {
        if p < vs.len() {
            lemma_seq_lt_total(vs[p as int], wv);
        }
    }
    v.insert(p, w);
    proof {
        let nv = v@.map_values(|x: Vec<char>| x@);
        assert(nv =~= vs.insert(p as int, wv));
        assert forall|i: int, j: int| 0 <= i < j < nv.len() implies seq_lt(#[trigger] nv[i], #[trigger] nv[j]) by {
            if j < p {
            } else if j == p {
            } else if i == p {
                // w < vs[p] <= vs[j-1]
                if j - 1 > p {
                    lemma_seq_lt_transitive(wv, vs[p as int], vs[j - 1]);
                }
            } else if i < p {
                // vs[i] < w < vs[p] <= vs[j - 1]
                assert(nv[j] == vs[j - 1]);
                assert(nv[i] == vs[i]);
            } else {
                assert(nv[j] == vs[j - 1]);
                assert(nv[i] == vs[i - 1]);
            }
        }
        assert(nv.to_set() =~= vs.to_set().insert(wv)) by {
            assert forall|x: Seq<char>| nv.to_set().contains(x) implies vs.to_set().insert(wv).contains(x) by {
                let k = choose|k: int| 0 <= k < nv.len() && nv[k] == x;
                if k < p {
                    assert(vs[k] == x);
                } else if k > p {
                    assert(vs[k - 1] == x);
                }
            }
            assert forall|x: Seq<char>| vs.to_set().insert(wv).contains(x) implies nv.to_set().contains(x) by {
                if x == wv {
                    assert(nv[p as int] == x);
                } else {
                    let k = choose|k: int| 0 <= k < vs.len() && vs[k] == x;
                    if k < p {
                        assert(nv[k] == x);
                    } else {
                        assert(nv[k + 1] == x);
                    }
                }
            }
        }
    }
}

/// The lowercase hexadecimal digit of `d < 16`.
pub open spec fn hex_digit(d: nat) -> char {
    if d < 10 {
        ((d + 48) as u32) as char
    } else {
        ((d + 87) as u32) as char
    }
}

/// The last `n` hexadecimal digits of `v`, zero-padded, most significant
/// first (`format!("{:0n$x}", v)` when `v < 16^n`).
pub open spec fn hex_low(v: nat, n: nat) -> Seq<char>
    decreases n,
{
    if n == 0 {
        Seq::empty()
    } else {
        hex_low(v / 16, (n - 1) as nat).push(hex_digit(v % 16))
    }
}

fn hex_digit_char(d: u64) -> (c: char)
    requires
        d < 16,
    ensures
        c == hex_digit(d as nat),
{
    let t: [char; 16] = ['0', '1', '2', '3', '4', '5', '6', '7', '8', '9', 'a', 'b', 'c', 'd', 'e', 'f'];
    let c = t[d as usize];
    assert(c == hex_digit(d as nat)) by {
        if d == 0 { } else if d == 1 { } else if d == 2 { } else if d == 3 { } else if d == 4 {
        } else if d == 5 { } else if d == 6 { } else if d == 7 { } else if d == 8 { } else if d == 9 {
        } else if d == 10 { } else if d == 11 { } else if d == 12 { } else if d == 13 {
        } else if d == 14 { } else { }
    }
    c
}

/// Appends the last `n` hexadecimal digits of `v` to `s`.
pub fn push_hex(s: &mut String, v: u64, n: u32)
    ensures
        final(s)@ == old(s)@ + hex_low(v as nat, n as nat),
    decreases n,
{
    if n > 0 {
        push_hex(s, v / 16, n - 1);
        push_char(s, hex_digit_char(v % 16));
        assert(final(s)@ =~= old(s)@ + hex_low(v as nat, n as nat));
    } else {
        assert(final(s)@ =~= old(s)@ + hex_low(v as nat, n as nat));
    }
}

} // verus!
