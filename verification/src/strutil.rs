//! Verified string utilities: case-insensitive matching, lexicographic
//! comparison, and decimal parsing and formatting.

use vstd::prelude::*;

verus! {

/// The character sequence that std's Unicode case folding returns for `s`.
pub uninterp spec fn lower_of(s: Seq<char>) -> Seq<char>;

/// Relies on str::to_lowercase: the result depends on the characters alone,
/// and an empty string stays empty.
#[verifier::external_body]
pub fn to_lowercase(s: &str) -> (r: String)
    ensures
        r@ == lower_of(s@),
        s@.len() == 0 ==> r@.len() == 0,
{
    s.to_lowercase()
}

/// Whether `n` occurs in `h` as a contiguous run of characters.
pub open spec fn contains_seq(h: Seq<char>, n: Seq<char>) -> bool {
    exists|k: int| 0 <= k && k + n.len() <= h.len() && #[trigger] h.subrange(k, k + n.len()) == n
}

/// Whether `n@` matches `h@` starting at position `k`.
pub fn matches_at(h: &str, k: usize, n: &str, hl: usize, nl: usize) -> (r: bool)
    requires
        hl == h@.len(),
        nl == n@.len(),
        k + nl <= hl,
    ensures
        r == (h@.subrange(k as int, k as int + nl as int) == n@),
{
    let mut j: usize = 0;
    while j < nl
        invariant
            hl == h@.len(),
            nl == n@.len(),
            k + nl <= hl,
            j <= nl,
            forall|m: int| 0 <= m < j ==> h@[k + m] == n@[m],
        decreases nl - j,
    {
        if h.get_char(k + j) != n.get_char(j) {
            proof {
                assert(h@.subrange(k as int, k as int + nl as int)[j as int] == h@[k + j]);
            }
            return false;
        }
        j = j + 1;
    }
    proof {
        assert(h@.subrange(k as int, k as int + nl as int) =~= n@);
    }
    true
}

/// Whether `n` occurs in `h` as a substring, character-wise.
pub fn contains_substring(h: &str, n: &str) -> (r: bool)
    ensures
        r == contains_seq(h@, n@),
{
    let hl = h.unicode_len();
    let nl = n.unicode_len();
    if nl > hl {
        return false;
    }
    if nl == 0 {
        proof {
            assert(h@.subrange(0, 0 + n@.len() as int) =~= n@);
        }
        return true;
    }
    let mut k: usize = 0;
    while k <= hl - nl
        invariant
            hl == h@.len(),
            nl == n@.len(),
            1 <= nl <= hl,
            k <= hl - nl + 1,
            forall|k2: int| 0 <= k2 < k ==> #[trigger] h@.subrange(k2, k2 + nl as int) != n@,
        decreases hl - nl - k + 1,
    {
        if matches_at(h, k, n, hl, nl) {
            return true;
        }
        k = k + 1;
    }
    false
}

/// Lexicographic order on character sequences, by code point: a prefix comes
/// first; otherwise the first differing character decides.
pub open spec fn lex_le(a: Seq<char>, b: Seq<char>) -> bool
    decreases a.len(),
{
    if a.len() == 0 {
        true
    } else if b.len() == 0 {
        false
    } else if a[0] < b[0] {
        true
    } else if b[0] < a[0] {
        false
    } else {
        lex_le(a.drop_first(), b.drop_first())
    }
}

/// The order is total: of any two sequences, one comes first.
pub proof fn lemma_lex_le_total(a: Seq<char>, b: Seq<char>)
    ensures
        lex_le(a, b) || lex_le(b, a),
    decreases a.len(),
{
    if a.len() > 0 && b.len() > 0 && a[0] == b[0] {
        lemma_lex_le_total(a.drop_first(), b.drop_first());
    }
}

/// The order is antisymmetric: two sequences that each come no later than the
/// other are equal.
pub proof fn lemma_lex_le_antisym(a: Seq<char>, b: Seq<char>)
    requires
        lex_le(a, b),
        lex_le(b, a),
    ensures
        a == b,
    decreases a.len(),
{
    if a.len() == 0 {
        assert(b.len() == 0);
        assert(a =~= b);
    } else {
        assert(b.len() > 0);
        assert(a[0] == b[0]);
        lemma_lex_le_antisym(a.drop_first(), b.drop_first());
        assert(a.drop_first() == b.drop_first());
        assert(a.drop_first().len() == a.len() - 1);
        assert(b.drop_first().len() == b.len() - 1);
        assert(a.len() == b.len());
        assert forall|i: int| 0 <= i < a.len() implies a[i] == b[i] by {
            if i >= 1 {
                assert(a.drop_first()[i - 1] == b.drop_first()[i - 1]);
            }
        }
        assert(a =~= b);
    }
}

/// The order is transitive.
pub proof fn lemma_lex_le_trans(a: Seq<char>, b: Seq<char>, c: Seq<char>)
    requires
        lex_le(a, b),
        lex_le(b, c),
    ensures
        lex_le(a, c),
    decreases a.len(),
{
    if a.len() > 0 && b.len() > 0 && c.len() > 0 && a[0] == b[0] && b[0] == c[0] {
        lemma_lex_le_trans(a.drop_first(), b.drop_first(), c.drop_first());
    }
}

/// Compares two strings in lexicographic (code point) order.
pub fn str_le(a: &str, b: &str) -> (r: bool)
    ensures
        r == lex_le(a@, b@),
{
    let al = a.unicode_len();
    let bl = b.unicode_len();
    let mut i: usize = 0;
    proof {
        assert(a@.skip(0) =~= a@);
        assert(b@.skip(0) =~= b@);
    }
    loop
        invariant
            al == a@.len(),
            bl == b@.len(),
            i <= al,
            i <= bl,
            lex_le(a@, b@) == lex_le(a@.skip(i as int), b@.skip(i as int)),
        decreases al - i,
    {
        let ghost sa = a@.skip(i as int);
        let ghost sb = b@.skip(i as int);
        if i >= al {
            proof {
                assert(sa.len() == 0);
            }
            return true;
        }
        if i >= bl {
            proof {
                assert(sa.len() > 0 && sb.len() == 0);
            }
            return false;
        }
        let ca = a.get_char(i);
        let cb = b.get_char(i);
        proof {
            assert(sa[0] == a@[i as int] && sb[0] == b@[i as int]);
        }
        if ca < cb {
            return true;
        }
        if cb < ca {
            return false;
        }
        proof {
            assert(sa[0] == sb[0]);
            assert(sa.drop_first() =~= a@.skip(i + 1));
            assert(sb.drop_first() =~= b@.skip(i + 1));
        }
        i = i + 1;
    }
}

/// Equality of two strings, character-wise.
pub fn str_eq(a: &str, b: &str) -> (r: bool)
    ensures
        r == (a@ == b@),
{
    let al = a.unicode_len();
    let bl = b.unicode_len();
    if al != bl {
        return false;
    }
    let r = matches_at(a, 0, b, al, bl);
    proof {
        assert(a@.subrange(0, a@.len() as int) =~= a@);
    }
    r
}

/// The whitespace characters that separate fields in command output.
pub open spec fn is_space(c: char) -> bool {
    c == ' ' || c == '\t' || c == '\n' || c == '\r'
}

/// The first position at or after `i` that does not hold whitespace.
pub open spec fn scan_spaces(s: Seq<char>, i: int) -> int
    decreases s.len() - i,
{
    if i < 0 || i >= s.len() {
        i
    } else if is_space(s[i]) {
        scan_spaces(s, i + 1)
    } else {
        i
    }
}

/// The first position at or after `i` that holds whitespace or ends the
/// sequence.
pub open spec fn scan_word(s: Seq<char>, i: int) -> int
    decreases s.len() - i,
{
    if i < 0 || i >= s.len() {
        i
    } else if !is_space(s[i]) {
        scan_word(s, i + 1)
    } else {
        i
    }
}

/// The second whitespace-separated word of `s`, if it has one.
pub open spec fn second_word(s: Seq<char>) -> Option<Seq<char>> {
    let a = scan_spaces(s, 0);
    let b = scan_word(s, a);
    let c = scan_spaces(s, b);
    let d = scan_word(s, c);
    if c < d {
        Option::Some(s.subrange(c, d))
    } else {
        Option::None
    }
}

/// Whether the character separates fields.
fn is_space_char(c: char) -> (r: bool)
    ensures
        r == is_space(c),
{
    c == ' ' || c == '\t' || c == '\n' || c == '\r'
}

/// Advances past whitespace.
fn skip_spaces(s: &str, start: usize, l: usize) -> (r: usize)
    requires
        l == s@.len(),
        start <= l,
    ensures
        r == scan_spaces(s@, start as int),
        start <= r <= l,
{
    let mut j = start;
    loop
        invariant
            l == s@.len(),
            start <= j <= l,
            scan_spaces(s@, start as int) == scan_spaces(s@, j as int),
        decreases l - j,
    {
        if j >= l {
            return j;
        }
        if !is_space_char(s.get_char(j)) {
            return j;
        }
        j = j + 1;
    }
}

/// Advances past one word.
fn skip_word(s: &str, start: usize, l: usize) -> (r: usize)
    requires
        l == s@.len(),
        start <= l,
    ensures
        r == scan_word(s@, start as int),
        start <= r <= l,
{
    let mut j = start;
    loop
        invariant
            l == s@.len(),
            start <= j <= l,
            scan_word(s@, start as int) == scan_word(s@, j as int),
        decreases l - j,
    {
        if j >= l {
            return j;
        }
        if is_space_char(s.get_char(j)) {
            return j;
        }
        j = j + 1;
    }
}

/// The second whitespace-separated word of a string, or "unknown" where
/// there is none.
pub fn second_word_or_unknown(s: &str) -> (r: String)
    ensures
        r@ == match second_word(s@) {
            Option::Some(w) => w,
            Option::None => "unknown"@,
        },
{
    let l = s.unicode_len();
    let a = skip_spaces(s, 0, l);
    let b = skip_word(s, a, l);
    let c = skip_spaces(s, b, l);
    let d = skip_word(s, c, l);
    if c < d {
        s.substring_char(c, d).to_owned()
    } else {
        "unknown".to_owned()
    }
}

/// Character sequences in strictly increasing lexicographic order.
pub open spec fn sorted_distinct_strs(s: Seq<Seq<char>>) -> bool {
    forall|i: int, j: int|
        0 <= i < j < s.len() ==> lex_le(#[trigger] s[i], #[trigger] s[j]) && s[i] != s[j]
}

/// Inserts a string into a strictly sorted vector, keeping it strictly
/// sorted; a string already present is left alone.
pub fn insert_sorted_distinct(out: &mut Vec<String>, s: &String)
    requires
        sorted_distinct_strs(old(out).deep_view()),
    ensures
        sorted_distinct_strs(final(out).deep_view()),
        forall|x: Seq<char>| #![trigger final(out).deep_view().contains(x)]
            final(out).deep_view().contains(x) <==> (old(out).deep_view().contains(x) || x == s@),
{
    let ghost pre = out.deep_view();
    let mut i: usize = 0;
    while i < out.len()
        invariant
            i <= out@.len(),
            pre == out.deep_view(),
            forall|j: int| 0 <= j < i ==> !lex_le(s@, #[trigger] pre[j]),
        decreases out@.len() - i,
    {
        if str_eq(out[i].as_str(), s.as_str()) {
            proof {
                assert(pre[i as int] == s@);
                assert(pre.contains(s@));
            }
            return ;
        }
        if str_le(s.as_str(), out[i].as_str()) {
            // s comes strictly before out[i]: insert here
            let ghost pos = i as int;
            out.insert(i, s.clone());
            proof {
                let cur = out.deep_view();
                assert(cur =~= pre.insert(pos, s@)) by {
                    assert forall|w: int| 0 <= w < cur.len() implies cur[w] == pre.insert(
                        pos,
                        s@,
                    )[w] by {}
                }
                assert forall|a: int, b: int|
                    0 <= a < b < cur.len() implies lex_le(#[trigger] cur[a], #[trigger] cur[b])
                    && cur[a] != cur[b] by {
                    let ra = if a < pos {
                        a
                    } else {
                        a - 1
                    };
                    let rb = if b < pos {
                        b
                    } else {
                        b - 1
                    };
                    if a == pos {
                        // cur[a] is s, cur[b] is pre[rb] with rb >= pos
                        assert(cur[b] == pre[rb]);
                        if rb == pos {
                            assert(lex_le(s@, pre[pos]));
                            if s@ == pre[pos] {
                                lemma_lex_le_total(s@, pre[pos]);
                            }
                            assert(s@ != pre[pos]);
                        } else {
                            assert(lex_le(pre[pos], pre[rb]) && pre[pos] != pre[rb]);
                            lemma_lex_le_trans(s@, pre[pos], pre[rb]);
                            if s@ == pre[rb] {
                                lemma_lex_le_total(s@, pre[pos]);
                                lemma_lex_le_antisym(s@, pre[pos]);
                            }
                        }
                    } else if b == pos {
                        // cur[a] is pre[ra] with ra < pos, cur[b] is s
                        assert(cur[a] == pre[ra]);
                        assert(!lex_le(s@, pre[ra]));
                        lemma_lex_le_total(s@, pre[ra]);
                        if pre[ra] == s@ {
                            assert(lex_le(s@, pre[ra]));
                        }
                    } else {
                        assert(cur[a] == pre[ra] && cur[b] == pre[rb]);
                        assert(lex_le(pre[ra], pre[rb]) && pre[ra] != pre[rb]);
                    }
                }
                assert forall|x: Seq<char>| cur.contains(x) implies (pre.contains(x) || x == s@) by {
                    let w = choose|w: int| 0 <= w < cur.len() && cur[w] == x;
                    if w != pos {
                        let rw = if w < pos {
                            w
                        } else {
                            w - 1
                        };
                        assert(pre[rw] == x);
                    }
                }
                assert forall|x: Seq<char>| pre.contains(x) || x == s@ implies cur.contains(x) by {
                    if pre.contains(x) {
                        let w = choose|w: int| 0 <= w < pre.len() && pre[w] == x;
                        let cw = if w < pos {
                            w
                        } else {
                            w + 1
                        };
                        assert(cur[cw] == x);
                    } else {
                        assert(cur[pos] == s@);
                    }
                }
            }
            return ;
        }
        proof {
            // s comes strictly after out[i]
            lemma_lex_le_total(s@, pre[i as int]);
        }
        i = i + 1;
    }
    // s comes after everything present
    out.push(s.clone());
    proof {
        let cur = out.deep_view();
        assert(cur =~= pre.push(s@)) by {
            assert forall|w: int| 0 <= w < cur.len() implies cur[w] == pre.push(s@)[w] by {}
        }
        assert forall|a: int, b: int|
            0 <= a < b < cur.len() implies lex_le(#[trigger] cur[a], #[trigger] cur[b]) && cur[a]
            != cur[b] by {
            if b == cur.len() - 1 {
                assert(cur[a] == pre[a] && cur[b] == s@);
                assert(!lex_le(s@, pre[a]));
                lemma_lex_le_total(s@, pre[a]);
                if pre[a] == s@ {
                    assert(lex_le(s@, pre[a]));
                }
            } else {
                assert(cur[a] == pre[a] && cur[b] == pre[b]);
            }
        }
        assert forall|x: Seq<char>| cur.contains(x) implies (pre.contains(x) || x == s@) by {
            let w = choose|w: int| 0 <= w < cur.len() && cur[w] == x;
            if w < pre.len() {
                assert(pre[w] == x);
            }
        }
        assert forall|x: Seq<char>| pre.contains(x) || x == s@ implies cur.contains(x) by {
            if pre.contains(x) {
                let w = choose|w: int| 0 <= w < pre.len() && pre[w] == x;
                assert(cur[w] == x);
            } else {
                assert(cur[cur.len() - 1] == s@);
            }
        }
    }
}

/// The decimal digits.
pub open spec fn is_digit(c: char) -> bool {
    '0' <= c && c <= '9'
}

/// The numeric value of one decimal digit.
pub open spec fn digit_val(c: char) -> int {
    if c == '0' {
        0
    } else if c == '1' {
        1
    } else if c == '2' {
        2
    } else if c == '3' {
        3
    } else if c == '4' {
        4
    } else if c == '5' {
        5
    } else if c == '6' {
        6
    } else if c == '7' {
        7
    } else if c == '8' {
        8
    } else {
        9
    }
}

/// Whether every character is a decimal digit.
pub open spec fn all_digits(s: Seq<char>) -> bool {
    forall|i: int| 0 <= i < s.len() ==> is_digit(#[trigger] s[i])
}

/// The number the digit sequence denotes, most significant digit first.
pub open spec fn dec_value(s: Seq<char>) -> int
    decreases s.len(),
{
    if s.len() == 0 {
        0
    } else {
        dec_value(s.drop_last()) * 10 + digit_val(s.last())
    }
}

/// A denoted number is never negative.
pub proof fn lemma_dec_value_nonneg(s: Seq<char>)
    requires
        all_digits(s),
    ensures
        dec_value(s) >= 0,
    decreases s.len(),
{
    if s.len() > 0 {
        lemma_dec_value_nonneg(s.drop_last());
    }
}

/// A digit sequence denotes at least what any of its prefixes denotes.
pub proof fn lemma_dec_value_prefix(s: Seq<char>, k: int)
    requires
        all_digits(s),
        0 <= k <= s.len(),
    ensures
        dec_value(s) >= dec_value(s.subrange(0, k)),
    decreases s.len() - k,
{
    if k < s.len() {
        lemma_dec_value_prefix(s, k + 1);
        let longer = s.subrange(0, k + 1);
        assert(longer.drop_last() =~= s.subrange(0, k));
        lemma_dec_value_nonneg(s.subrange(0, k));
        assert(dec_value(longer) == dec_value(s.subrange(0, k)) * 10 + digit_val(longer.last()));
    } else {
        assert(s.subrange(0, k) =~= s);
    }
}

/// The numeric value of a digit character.
fn digit_of(c: char) -> (r: u64)
    requires
        is_digit(c),
    ensures
        r == digit_val(c),
{
    if c == '0' {
        0
    } else if c == '1' {
        1
    } else if c == '2' {
        2
    } else if c == '3' {
        3
    } else if c == '4' {
        4
    } else if c == '5' {
        5
    } else if c == '6' {
        6
    } else if c == '7' {
        7
    } else if c == '8' {
        8
    } else {
        9
    }
}

/// Parses a non-empty, digits-only decimal number that fits the type;
/// anything else is rejected.
pub fn parse_u64(s: &str) -> (r: Option<u64>)
    ensures
        r matches Some(v) ==> s@.len() > 0 && all_digits(s@) && dec_value(s@) == v,
        r is None ==> s@.len() == 0 || !all_digits(s@) || dec_value(s@) > u64::MAX,
{
    let l = s.unicode_len();
    if l == 0 {
        return Option::None;
    }
    let mut acc: u64 = 0;
    let mut i: usize = 0;
    proof {
        assert(s@.subrange(0, 0) =~= Seq::<char>::empty());
    }
    while i < l
        invariant
            l == s@.len(),
            i <= l,
            all_digits(s@.subrange(0, i as int)),
            acc == dec_value(s@.subrange(0, i as int)),
        decreases l - i,
    {
        let c = s.get_char(i);
        if !(c >= '0' && c <= '9') {
            return Option::None;
        }
        let d = digit_of(c);
        let wide: u128 = (acc as u128) * 10 + (d as u128);
        if wide > (u64::MAX as u128) {
            proof {
                assert(s@.subrange(0, i + 1).drop_last() =~= s@.subrange(0, i as int));
                assert(all_digits(s@.subrange(0, i + 1)));
                assert(dec_value(s@.subrange(0, i + 1)) > u64::MAX);
                if all_digits(s@) {
                    lemma_dec_value_prefix(s@, i + 1);
                }
            }
            return Option::None;
        }
        acc = wide as u64;
        proof {
            assert(s@.subrange(0, i + 1).drop_last() =~= s@.subrange(0, i as int));
            assert(s@.subrange(0, i + 1).last() == s@[i as int]);
        }
        i = i + 1;
    }
    proof {
        assert(s@.subrange(0, l as int) =~= s@);
    }
    Option::Some(acc)
}

/// Parses exactly "true" or "false"; anything else is rejected.
pub fn parse_bool(s: &str) -> (r: Option<bool>)
    ensures
        r == Option::Some(true) <==> s@ == "true"@,
        r == Option::Some(false) <==> s@ == "false"@,
        r is None <==> s@ != "true"@ && s@ != "false"@,
{
    proof {
        reveal_strlit("true");
        reveal_strlit("false");
        assert("true"@.len() == 4);
        assert("false"@.len() == 5);
        assert("true"@ != "false"@);
    }
    if str_eq(s, "true") {
        Option::Some(true)
    } else if str_eq(s, "false") {
        Option::Some(false)
    } else {
        Option::None
    }
}

} // verus!
