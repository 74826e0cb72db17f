//! Character-level text utilities shared by the whole crate.
//!
//! All positions are indices into the sequence of Unicode scalar values of a
//! string, matching the coordinate system of the Go source parser.

use vstd::prelude::*;
use vstd::string::*;

verus! {

/// `s` begins with `prefix`.
pub open spec fn starts_with_spec(s: Seq<char>, prefix: Seq<char>) -> bool {
    prefix.len() <= s.len() && s.subrange(0, prefix.len() as int) == prefix
}

/// `s` ends with `suffix`.
pub open spec fn ends_with_spec(s: Seq<char>, suffix: Seq<char>) -> bool {
    suffix.len() <= s.len() && s.subrange(s.len() - suffix.len(), s.len() as int) == suffix
}

pub fn str_eq(a: &str, b: &str) -> (r: bool)
    ensures
        r == (a@ == b@),
{
    let n: usize = a.unicode_len();
    let m: usize = b.unicode_len();
    if n != m {
        return false;
    }
    let mut i: usize = 0;
    while i < n
        invariant
            i <= n,
            n == a@.len(),
            n == b@.len(),
            forall|j: int| 0 <= j < i ==> a@[j] == b@[j],
        decreases n - i,
    {
        if a.get_char(i) != b.get_char(i) {
            return false;
        }
        i += 1;
    }
    proof {
        assert(a@ =~= b@);
    }
    true
}

pub fn starts_with(s: &str, prefix: &str) -> (r: bool)
    ensures
        r == starts_with_spec(s@, prefix@),
{
    let n: usize = s.unicode_len();
    let m: usize = prefix.unicode_len();
    if m > n {
        return false;
    }
    let mut i: usize = 0;
    while i < m
        invariant
            i <= m <= n,
            n == s@.len(),
            m == prefix@.len(),
            forall|j: int| 0 <= j < i ==> s@[j] == prefix@[j],
        decreases m - i,
    {
        if s.get_char(i) != prefix.get_char(i) {
            proof {
                assert(s@.subrange(0, m as int)[i as int] == s@[i as int]);
            }
            return false;
        }
        i += 1;
    }
    proof {
        assert(s@.subrange(0, m as int) =~= prefix@);
    }
    true
}

pub fn ends_with(s: &str, suffix: &str) -> (r: bool)
    ensures
        r == ends_with_spec(s@, suffix@),
{
    let n: usize = s.unicode_len();
    let m: usize = suffix.unicode_len();
    if m > n {
        return false;
    }
    let mut i: usize = 0;
    while i < m
        invariant
            i <= m <= n,
            n == s@.len(),
            m == suffix@.len(),
            forall|j: int| 0 <= j < i ==> s@[n - m + j] == suffix@[j],
        decreases m - i,
    {
        if s.get_char(n - m + i) != suffix.get_char(i) {
            proof {
                assert(s@.subrange(s@.len() - m, s@.len() as int)[i as int] == s@[n - m + i]);
            }
            return false;
        }
        i += 1;
    }
    proof {
        assert(s@.subrange(s@.len() - m, s@.len() as int) =~= suffix@);
    }
    true
}

/// `sub` occurs in `s` at position `i`.
pub open spec fn occurs_at(s: Seq<char>, sub: Seq<char>, i: int) -> bool {
    0 <= i && i + sub.len() <= s.len() && s.subrange(i, i + sub.len()) == sub
}

/// `sub` occurs somewhere in `s`.
pub open spec fn contains_spec(s: Seq<char>, sub: Seq<char>) -> bool {
    exists|i: int| occurs_at(s, sub, i)
}

/// Whether `sub` occurs in `s` exactly at position `i`.
pub fn match_at(s: &str, sub: &str, i: usize) -> (r: bool)
    requires
        i + sub@.len() <= s@.len() <= usize::MAX,
    ensures
        r == occurs_at(s@, sub@, i as int),
{
    let m: usize = sub.unicode_len();
    let mut j: usize = 0;
    while j < m
        invariant
            j <= m,
            m == sub@.len(),
            i + m <= s@.len() <= usize::MAX,
            forall|k: int| 0 <= k < j ==> s@[i + k] == sub@[k],
        decreases m - j,
    {
        if s.get_char(i + j) != sub.get_char(j) {
            proof {
                assert(s@.subrange(i as int, i + m)[j as int] == s@[i + j]);
            }
            return false;
        }
        j += 1;
    }
    proof {
        assert(s@.subrange(i as int, i + m) =~= sub@);
    }
    true
}

/// Position of the leftmost occurrence of `sub` in `s`, if any.
pub fn find_sub(s: &str, sub: &str) -> (r: Option<usize>)
    ensures
        match r {
            Some(i) => occurs_at(s@, sub@, i as int) && forall|j: int|
                0 <= j < i ==> !occurs_at(s@, sub@, j),
            None => !contains_spec(s@, sub@),
        },
{
    let n: usize = s.unicode_len();
    let m: usize = sub.unicode_len();
    if m > n {
        return None;
    }
    if m == 0 {
        proof {
            assert(s@.subrange(0, 0) =~= sub@);
        }
        return Some(0);
    }
    let mut i: usize = 0;
    while i <= n - m
        invariant
            1 <= m <= n,
            n == s@.len(),
            m == sub@.len(),
            i <= n - m + 1,
            forall|j: int| 0 <= j < i ==> !occurs_at(s@, sub@, j),
        decreases n - i,
    {
        if match_at(s, sub, i) {
            return Some(i);
        }
        i += 1;
    }
    proof {
        assert(forall|j: int| occurs_at(s@, sub@, j) ==> 0 <= j <= n - m);
    }
    None
}

/// `s` contains `sub`.
pub fn contains_sub(s: &str, sub: &str) -> (r: bool)
    ensures
        r == contains_spec(s@, sub@),
{
    find_sub(s, sub).is_some()
}

/// The splice of `repl` over the range `[pos, pos + len)` of `s`.
pub open spec fn splice_spec(s: Seq<char>, pos: int, len: int, repl: Seq<char>) -> Seq<char> {
    s.subrange(0, pos) + repl + s.subrange(pos + len, s.len() as int)
}

/// Replaces the characters of `s` in `[pos, pos + len)` by `repl`.
pub fn splice_str(s: &str, pos: usize, len: usize, repl: &str) -> (r: String)
    requires
        pos + len <= s@.len(),
    ensures
        r@ == splice_spec(s@, pos as int, len as int, repl@),
{
    let n: usize = s.unicode_len();
    let head = s.substring_char(0, pos);
    let tail = s.substring_char(pos + len, n);
    let mut out = head.to_owned();
    out.append(repl);
    out.append(tail);
    out
}

/// Lexicographic order on character sequences, by Unicode scalar value.
pub open spec fn lex_le(a: Seq<char>, b: Seq<char>) -> bool
    decreases a.len(),
{
    if a.len() == 0 {
        true
    } else if b.len() == 0 {
        false
    } else if a[0] == b[0] {
        lex_le(a.drop_first(), b.drop_first())
    } else {
        a[0] < b[0]
    }
}

pub fn lex_le_exec(a: &str, b: &str) -> (r: bool)
    ensures
        r == lex_le(a@, b@),
    decreases a@.len(),
{
    let n: usize = a.unicode_len();
    let m: usize = b.unicode_len();
    if n == 0 {
        true
    } else if m == 0 {
        false
    } else {
        let ca = a.get_char(0);
        let cb = b.get_char(0);
        if ca == cb {
            lex_le_exec(a.substring_char(1, n), b.substring_char(1, m))
        } else {
            ca < cb
        }
    }
}

/// The lexicographic order is total: of two strings, one comes first.
pub proof fn lemma_lex_le_total(a: Seq<char>, b: Seq<char>)
    ensures
        lex_le(a, b) || lex_le(b, a),
    decreases a.len(),
{
    if a.len() == 0 {
        assert(lex_le(a, b));
    } else if b.len() == 0 {
        assert(lex_le(b, a));
    } else if a[0] == b[0] {
        lemma_lex_le_total(a.drop_first(), b.drop_first());
    } else if a[0] < b[0] {
        assert(lex_le(a, b));
    } else {
        assert(lex_le(b, a));
    }
}

/// The lexicographic order is transitive.
pub proof fn lemma_lex_le_trans(a: Seq<char>, b: Seq<char>, c: Seq<char>)
    requires
        lex_le(a, b),
        lex_le(b, c),
    ensures
        lex_le(a, c),
    decreases a.len(),
{
    if a.len() > 0 && b.len() > 0 && c.len() > 0 && a[0] == b[0] && b[0] == c[0] {
        lemma_lex_le_trans(a.drop_first(), b.drop_first(), c.drop_first());
    }
}

/// The stable insertion sort leaves its entries in `lex_le` order.
pub proof fn lemma_insort_chars_sorted(s: Seq<Seq<char>>)
    ensures
        forall|i: int, j: int|
            0 <= i < j < insort_chars(s).len() ==> lex_le(
                #[trigger] insort_chars(s)[i],
                #[trigger] insort_chars(s)[j],
            ),
    decreases s.len(),
{
    if s.len() > 0 {
        lemma_insort_chars_sorted(s.drop_last());
        let init = insort_chars(s.drop_last());
        let x = s.last();
        lemma_insert_pos_chars(x, init);
        let k = insert_pos_chars(x, init);
        let after = init.insert(k, x);
        assert forall|i: int, j: int|
            0 <= i < j < after.len() implies lex_le(#[trigger] after[i], #[trigger] after[j]) by {
            if j < k {
                assert(after[i] == init[i] && after[j] == init[j]);
            } else if j == k {
                assert(after[i] == init[i]);
                assert(lex_le(init[i], x));
            } else if i < k {
                assert(after[i] == init[i] && after[j] == init[j - 1]);
                assert(lex_le(init[i], init[j - 1]));
            } else if i == k {
                assert(after[j] == init[j - 1]);
                assert(!lex_le(init[k], x));
                lemma_lex_le_total(x, init[k]);
                if j - 1 > k {
                    assert(lex_le(init[k], init[j - 1]));
                    lemma_lex_le_trans(x, init[k], init[j - 1]);
                }
            } else {
                assert(after[i] == init[i - 1] && after[j] == init[j - 1]);
                assert(lex_le(init[i - 1], init[j - 1]));
            }
        }
    }
}

/// Where `x` belongs in `s` so that it comes after every entry that is
/// `lex_le` it: the index of the first entry that is not.
pub open spec fn insert_pos_chars(x: Seq<char>, s: Seq<Seq<char>>) -> int
    decreases s.len(),
{
    if s.len() == 0 {
        0
    } else if lex_le(s[0], x) {
        1 + insert_pos_chars(x, s.drop_first())
    } else {
        0
    }
}

pub proof fn lemma_insert_pos_chars(x: Seq<char>, s: Seq<Seq<char>>)
    ensures
        0 <= insert_pos_chars(x, s) <= s.len(),
        forall|i: int| 0 <= i < insert_pos_chars(x, s) ==> lex_le(s[i], x),
        insert_pos_chars(x, s) < s.len() ==> !lex_le(s[insert_pos_chars(x, s)], x),
    decreases s.len(),
{
    if s.len() > 0 {
        lemma_insert_pos_chars(x, s.drop_first());
        if lex_le(s[0], x) {
            let k2 = insert_pos_chars(x, s.drop_first());
            assert forall|i: int| 0 <= i < k2 + 1 implies lex_le(s[i], x) by {
                if i >= 1 {
                    assert(s.drop_first()[i - 1] == s[i]);
                    assert(lex_le(s.drop_first()[i - 1], x));
                }
            }
            if k2 + 1 < s.len() {
                assert(s.drop_first()[k2] == s[k2 + 1]);
            }
        }
    }
}

/// Stable insertion sort of a sequence of character strings, in `lex_le`
/// order: entries with equal keys keep their relative order.
pub open spec fn insort_chars(s: Seq<Seq<char>>) -> Seq<Seq<char>>
    decreases s.len(),
{
    if s.len() == 0 {
        s
    } else {
        let sorted_init = insort_chars(s.drop_last());
        sorted_init.insert(insert_pos_chars(s.last(), sorted_init), s.last())
    }
}

pub fn sort_strings(v: &Vec<String>) -> (r: Vec<String>)
    ensures
        r.deep_view() == insort_chars(v.deep_view()),
{
    let mut out: Vec<String> = Vec::new();
    let mut idx: usize = 0;
    while idx < v.len()
        invariant
            idx <= v.len(),
            out.deep_view() == insort_chars(v.deep_view().subrange(0, idx as int)),
        decreases v.len() - idx,
    {
        let x: String = v[idx].clone();
        let ghost pre = out.deep_view();
        let mut k: usize = 0;
        while k < out.len() && lex_le_exec(out[k].as_str(), x.as_str())
            invariant
                k <= out.len(),
                out.deep_view().len() == out.len(),
                forall|i: int| 0 <= i < k ==> lex_le(out.deep_view()[i], x@),
            decreases out.len() - k,
        {
            k += 1;
        }
        proof {
            lemma_insert_pos_chars(x@, pre);
            let sp = insert_pos_chars(x@, pre);
            if (k as int) < sp {
                assert(lex_le(pre[k as int], x@));
                assert(false);
            }
            if sp < (k as int) {
                assert(lex_le(pre[sp], x@));
                assert(false);
            }
        }
        out.insert(k, x);
        idx += 1;
        proof {
            assert(out.deep_view() =~= pre.insert(k as int, x@));
            assert(v.deep_view().subrange(0, idx as int).drop_last() =~= v.deep_view().subrange(
                0,
                idx - 1,
            ));
            assert(v.deep_view().subrange(0, idx as int).last() == v.deep_view()[idx - 1]);
            assert(v.deep_view()[idx - 1] == v@[idx - 1]@);
        }
    }
    proof {
        assert(v.deep_view().subrange(0, v@.len() as int) =~= v.deep_view());
    }
    out
}

/// The characters of `s`, as a vector.
pub fn to_chars(s: &str) -> (r: Vec<char>)
    ensures
        r@ == s@,
{
    let n: usize = s.unicode_len();
    let mut out: Vec<char> = Vec::new();
    let mut i: usize = 0;
    while i < n
        invariant
            i <= n,
            n == s@.len(),
            out@ == s@.subrange(0, i as int),
        decreases n - i,
    {
        out.push(s.get_char(i));
        proof {
            assert(out@ =~= s@.subrange(0, i + 1));
        }
        i += 1;
    }
    proof {
        assert(s@.subrange(0, n as int) =~= s@);
    }
    out
}

/// Relies on `String: FromIterator<char>`: collecting characters yields the
/// string holding exactly those characters in order.
#[verifier::external_body]
pub fn chars_to_string(v: &Vec<char>) -> (r: String)
    ensures
        r@ == v@,
{
    v.iter().collect()
}

/// The ASCII-lowercase counterpart of a character; other characters are kept.
pub open spec fn lower_char_spec(c: char) -> char {
    match c {
        'A' => 'a', 'B' => 'b', 'C' => 'c', 'D' => 'd', 'E' => 'e', 'F' => 'f',
        'G' => 'g', 'H' => 'h', 'I' => 'i', 'J' => 'j', 'K' => 'k', 'L' => 'l',
        'M' => 'm', 'N' => 'n', 'O' => 'o', 'P' => 'p', 'Q' => 'q', 'R' => 'r',
        'S' => 's', 'T' => 't', 'U' => 'u', 'V' => 'v', 'W' => 'w', 'X' => 'x',
        'Y' => 'y', 'Z' => 'z',
        _ => c,
    }
}

pub fn lower_char(c: char) -> (r: char)
    ensures
        r == lower_char_spec(c),
{
    match c {
        'A' => 'a', 'B' => 'b', 'C' => 'c', 'D' => 'd', 'E' => 'e', 'F' => 'f',
        'G' => 'g', 'H' => 'h', 'I' => 'i', 'J' => 'j', 'K' => 'k', 'L' => 'l',
        'M' => 'm', 'N' => 'n', 'O' => 'o', 'P' => 'p', 'Q' => 'q', 'R' => 'r',
        'S' => 's', 'T' => 't', 'U' => 'u', 'V' => 'v', 'W' => 'w', 'X' => 'x',
        'Y' => 'y', 'Z' => 'z',
        _ => c,
    }
}

/// `s` with every ASCII upper-case letter lowered.
pub open spec fn lower_spec(s: Seq<char>) -> Seq<char> {
    s.map_values(|c: char| lower_char_spec(c))
}

pub fn lower_str(s: &str) -> (r: String)
    ensures
        r@ == lower_spec(s@),
{
    let n: usize = s.unicode_len();
    let mut out: Vec<char> = Vec::new();
    let mut i: usize = 0;
    while i < n
        invariant
            i <= n,
            n == s@.len(),
            out@ == lower_spec(s@.subrange(0, i as int)),
        decreases n - i,
    {
        out.push(lower_char(s.get_char(i)));
        proof {
            assert(out@ =~= lower_spec(s@.subrange(0, i + 1)));
        }
        i += 1;
    }
    proof {
        assert(s@.subrange(0, n as int) =~= s@);
    }
    chars_to_string(&out)
}

/// The decimal digit character for `d`.
pub open spec fn dec_digit(d: int) -> char {
    if d == 0 { '0' } else if d == 1 { '1' } else if d == 2 { '2' }
    else if d == 3 { '3' } else if d == 4 { '4' } else if d == 5 { '5' }
    else if d == 6 { '6' } else if d == 7 { '7' } else if d == 8 { '8' }
    else { '9' }
}

/// The decimal rendering of `n`, most significant digit first.
pub open spec fn dec_spec(n: int) -> Seq<char>
    decreases n,
{
    if n < 10 {
        seq![dec_digit(n)]
    } else {
        dec_spec(n / 10).push(dec_digit(n % 10))
    }
}

fn digit_str(d: u64) -> (r: &'static str)
    requires
        d < 10,
    ensures
        r@ == seq![dec_digit(d as int)],
{
    proof {
        reveal_strlit("0");
        reveal_strlit("1");
        reveal_strlit("2");
        reveal_strlit("3");
        reveal_strlit("4");
        reveal_strlit("5");
        reveal_strlit("6");
        reveal_strlit("7");
        reveal_strlit("8");
        reveal_strlit("9");
    }
    let r = match d {
        0 => "0", 1 => "1", 2 => "2", 3 => "3", 4 => "4",
        5 => "5", 6 => "6", 7 => "7", 8 => "8", _ => "9",
    };
    proof {
        assert(r@ =~= seq![dec_digit(d as int)]);
    }
    r
}

/// Renders `n` in decimal.
pub fn u64_to_dec(n: u64) -> (r: String)
    ensures
        r@ == dec_spec(n as int),
    decreases n,
{
    if n < 10 {
        digit_str(n).to_owned()
    } else {
        let mut head = u64_to_dec(n / 10);
        head.append(digit_str(n % 10));
        proof {
            assert(head@ =~= dec_spec(n as int));
        }
        head
    }
}

/// A decimal digit.
pub open spec fn is_digit_spec(c: char) -> bool {
    48 <= (c as u32) <= 57
}

pub fn is_digit(c: char) -> (r: bool)
    ensures
        r == is_digit_spec(c),
{
    let v = c as u32;
    48 <= v && v <= 57
}

/// The first index at or after `i` whose character fails `pred`, or the
/// length of `s`.
pub open spec fn run_end_from(s: Seq<char>, i: int, pred: spec_fn(char) -> bool) -> int
    decreases s.len() - i,
{
    if i < 0 || i >= s.len() {
        s.len() as int
    } else if !pred(s[i]) {
        i
    } else {
        run_end_from(s, i + 1, pred)
    }
}

pub proof fn lemma_run_end_from(s: Seq<char>, i: int, pred: spec_fn(char) -> bool)
    requires
        0 <= i <= s.len(),
    ensures
        i <= run_end_from(s, i, pred) <= s.len(),
        forall|j: int| i <= j < run_end_from(s, i, pred) ==> pred(s[j]),
        run_end_from(s, i, pred) < s.len() ==> !pred(s[run_end_from(s, i, pred)]),
    decreases s.len() - i,
{
    if i < s.len() && pred(s[i]) {
        lemma_run_end_from(s, i + 1, pred);
    }
}

/// The end of the run of decimal digits beginning at `i`.
pub fn digit_run_end(s: &str, i: usize) -> (r: usize)
    requires
        i <= s@.len(),
    ensures
        r == run_end_from(s@, i as int, (|c: char| is_digit_spec(c))),
{
    let n: usize = s.unicode_len();
    let mut j: usize = i;
    while j < n && is_digit(s.get_char(j))
        invariant
            i <= j <= n,
            n == s@.len(),
            forall|k: int| i <= k < j ==> is_digit_spec(s@[k]),
        decreases n - j,
    {
        j += 1;
    }
    proof {
        lemma_run_end_from(s@, i as int, (|c: char| is_digit_spec(c)));
        let sj = run_end_from(s@, i as int, (|c: char| is_digit_spec(c)));
        if (j as int) < sj {
            assert(is_digit_spec(s@[j as int]));
            assert(false);
        }
        if sj < (j as int) {
            assert(!is_digit_spec(s@[sj]));
            assert(false);
        }
    }
    j
}

/// The end of the run of identifier characters beginning at `i`.
pub fn word_run_end(s: &str, i: usize) -> (r: usize)
    requires
        i <= s@.len(),
    ensures
        r == run_end_from(s@, i as int, (|c: char| is_word_char_spec(c))),
{
    let n: usize = s.unicode_len();
    let mut j: usize = i;
    while j < n && is_word_char(s.get_char(j))
        invariant
            i <= j <= n,
            n == s@.len(),
            forall|k: int| i <= k < j ==> is_word_char_spec(s@[k]),
        decreases n - j,
    {
        j += 1;
    }
    proof {
        lemma_run_end_from(s@, i as int, (|c: char| is_word_char_spec(c)));
        let sj = run_end_from(s@, i as int, (|c: char| is_word_char_spec(c)));
        if (j as int) < sj {
            assert(is_word_char_spec(s@[j as int]));
            assert(false);
        }
        if sj < (j as int) {
            assert(!is_word_char_spec(s@[sj]));
            assert(false);
        }
    }
    j
}

/// The first index at or after `i` holding `c`, or the length of `s`.
pub fn char_find_from(s: &str, i: usize, c: char) -> (r: usize)
    requires
        i <= s@.len(),
    ensures
        r == run_end_from(s@, i as int, (|x: char| x != c)),
{
    let n: usize = s.unicode_len();
    let mut j: usize = i;
    while j < n && s.get_char(j) != c
        invariant
            i <= j <= n,
            n == s@.len(),
            forall|k: int| i <= k < j ==> s@[k] != c,
        decreases n - j,
    {
        j += 1;
    }
    proof {
        lemma_run_end_from(s@, i as int, (|x: char| x != c));
        let sj = run_end_from(s@, i as int, (|x: char| x != c));
        if (j as int) < sj {
            assert(s@[j as int] != c);
            assert(false);
        }
        if sj < (j as int) {
            assert(!((|x: char| x != c)(s@[sj])));
            assert(false);
        }
    }
    j
}

/// The greatest index holding `c`, or `-1`.
pub open spec fn last_char_index(s: Seq<char>, c: char) -> int
    decreases s.len(),
{
    if s.len() == 0 {
        -1
    } else if s.last() == c {
        s.len() - 1
    } else {
        last_char_index(s.drop_last(), c)
    }
}

pub proof fn lemma_last_char_index(s: Seq<char>, c: char)
    ensures
        -1 <= last_char_index(s, c) < s.len(),
        forall|j: int| last_char_index(s, c) < j < s.len() ==> s[j] != c,
        last_char_index(s, c) >= 0 ==> s[last_char_index(s, c)] == c,
    decreases s.len(),
{
    if s.len() > 0 && s.last() != c {
        lemma_last_char_index(s.drop_last(), c);
        assert(forall|j: int| 0 <= j < s.len() - 1 ==> s.drop_last()[j] == s[j]);
    }
}

/// The greatest index of `s` holding `c`, or `None`.
pub fn rfind_char(s: &str, c: char) -> (r: Option<usize>)
    ensures
        match r {
            Option::Some(i) => last_char_index(s@, c) == i as int && (i as int) < s@.len(),
            Option::None => last_char_index(s@, c) == -1,
        },
{
    let n: usize = s.unicode_len();
    let mut j: usize = n;
    while j > 0
        invariant
            j <= n,
            n == s@.len(),
            forall|k: int| j <= k < n ==> s@[k] != c,
        decreases j,
    {
        if s.get_char(j - 1) == c {
            proof {
                lemma_last_char_index(s@, c);
                let li = last_char_index(s@, c);
                if li < j - 1 {
                    assert(s@[j - 1] != c);
                    assert(false);
                }
                if j - 1 < li {
                    assert(s@[li] != c);
                    assert(false);
                }
            }
            return Option::Some(j - 1);
        }
        j -= 1;
    }
    proof {
        lemma_last_char_index(s@, c);
        let li = last_char_index(s@, c);
        if li >= 0 {
            assert(s@[li] != c);
            assert(false);
        }
    }
    Option::None
}

/// The index of the leftmost occurrence of `sub` in `s`, or `-1`.
pub open spec fn find_first_spec(s: Seq<char>, sub: Seq<char>) -> int
    decreases s.len(),
{
    if sub.len() > s.len() {
        -1
    } else if s.subrange(0, sub.len() as int) == sub {
        0
    } else if s.len() == 0 {
        -1
    } else {
        let r = find_first_spec(s.drop_first(), sub);
        if r == -1 {
            -1
        } else {
            r + 1
        }
    }
}

pub proof fn lemma_find_first_spec(s: Seq<char>, sub: Seq<char>)
    ensures
        find_first_spec(s, sub) == -1 ==> !contains_spec(s, sub),
        find_first_spec(s, sub) != -1 ==> occurs_at(s, sub, find_first_spec(s, sub)) && forall|
            j: int,
        | 0 <= j < find_first_spec(s, sub) ==> !occurs_at(s, sub, j),
    decreases s.len(),
{
    let k = find_first_spec(s, sub);
    if sub.len() > s.len() {
        assert(forall|j: int| occurs_at(s, sub, j) ==> j + sub.len() <= s.len());
    } else if s.subrange(0, sub.len() as int) == sub {
        assert(occurs_at(s, sub, 0));
    } else if s.len() == 0 {
        assert(forall|j: int| occurs_at(s, sub, j) ==> j == 0 && sub.len() == 0);
    } else {
        lemma_find_first_spec(s.drop_first(), sub);
        assert forall|j: int| 1 <= j && occurs_at(s, sub, j) implies occurs_at(
            s.drop_first(),
            sub,
            j - 1,
        ) by {
            assert(s.subrange(j, j + sub.len() as int) =~= s.drop_first().subrange(
                j - 1,
                j - 1 + sub.len() as int,
            ));
        }
        assert forall|j: int| 0 <= j && occurs_at(s.drop_first(), sub, j) implies occurs_at(
            s,
            sub,
            j + 1,
        ) by {
            assert(s.subrange(j + 1, j + 1 + sub.len() as int) =~= s.drop_first().subrange(
                j,
                j + sub.len() as int,
            ));
        }
        if k == -1 {
            assert(!occurs_at(s, sub, 0));
            assert(forall|j: int| 1 <= j ==> !occurs_at(s, sub, j));
            assert forall|j: int| true implies !occurs_at(s, sub, j) by {
                if occurs_at(s, sub, j) {
                    assert(j >= 0);
                }
            }
        }
    }
}

/// `s` with every occurrence of `from` replaced by `to`, scanning from the
/// left and never across a replacement.
pub open spec fn replace_all_spec(s: Seq<char>, from: Seq<char>, to: Seq<char>) -> Seq<char>
    decreases s.len(),
{
    if from.len() == 0 {
        s
    } else {
        let k = find_first_spec(s, from);
        if k < 0 || k + from.len() > s.len() {
            s
        } else {
            s.subrange(0, k) + to + replace_all_spec(
                s.subrange(k + from.len(), s.len() as int),
                from,
                to,
            )
        }
    }
}

pub fn replace_all(s: &str, from: &str, to: &str) -> (r: String)
    ensures
        r@ == replace_all_spec(s@, from@, to@),
    decreases s@.len(),
{
    if from.unicode_len() == 0 {
        return s.to_owned();
    }
    match find_sub(s, from) {
        Option::None => {
            proof {
                lemma_find_first_spec(s@, from@);
                if find_first_spec(s@, from@) != -1 {
                    assert(contains_spec(s@, from@));
                }
            }
            s.to_owned()
        },
        Option::Some(k) => {
            proof {
                lemma_find_first_spec(s@, from@);
                let sk = find_first_spec(s@, from@);
                if sk == -1 {
                    assert(occurs_at(s@, from@, k as int));
                    assert(contains_spec(s@, from@));
                }
                if sk != -1 && sk < k as int {
                    assert(occurs_at(s@, from@, sk));
                }
                if sk != -1 && (k as int) < sk {
                    assert(!occurs_at(s@, from@, k as int));
                }
            }
            let n: usize = s.unicode_len();
            let m: usize = from.unicode_len();
            let mut out: String = s.substring_char(0, k).to_owned();
            out.append(to);
            let rest = replace_all(s.substring_char(k + m, n), from, to);
            out.append(rest.as_str());
            out
        },
    }
}

/// `s` split at every newline, the newlines removed; a trailing carriage
/// return before each break is removed too, and a final empty line is not
/// reported, the way Rust's own line iterator works.
pub open spec fn split_lines_spec(s: Seq<char>) -> Seq<Seq<char>>
    decreases s.len(),
{
    if s.len() == 0 {
        Seq::empty()
    } else {
        let k = find_first_spec(s, seq!['\n']);
        if k < 0 || k + 1 > s.len() {
            seq![s]
        } else {
            seq![strip_cr_spec(s.subrange(0, k))] + split_lines_spec(
                s.subrange(k + 1, s.len() as int),
            )
        }
    }
}

/// `line` without one trailing carriage return.
pub open spec fn strip_cr_spec(line: Seq<char>) -> Seq<char> {
    if line.len() > 0 && line.last() == '\r' {
        line.drop_last()
    } else {
        line
    }
}

fn strip_cr(line: &str) -> (r: String)
    ensures
        r@ == strip_cr_spec(line@),
{
    let n: usize = line.unicode_len();
    if n > 0 && line.get_char(n - 1) == '\r' {
        line.substring_char(0, n - 1).to_owned()
    } else {
        line.to_owned()
    }
}

pub fn split_lines(s: &str) -> (r: Vec<String>)
    ensures
        r.deep_view() == split_lines_spec(s@),
    decreases s@.len(),
{
    let n: usize = s.unicode_len();
    if n == 0 {
        let out: Vec<String> = Vec::new();
        proof {
            assert(out.deep_view() =~= split_lines_spec(s@));
        }
        return out;
    }
    let newline: &str = "\n";
    proof {
        reveal_strlit("\n");
        assert(newline@ =~= seq!['\n']);
    }
    match find_sub(s, newline) {
        Option::None => {
            proof {
                lemma_find_first_spec(s@, seq!['\n']);
                if find_first_spec(s@, seq!['\n']) != -1 {
                    assert(contains_spec(s@, seq!['\n']));
                }
            }
            let mut out: Vec<String> = Vec::new();
            out.push(s.to_owned());
            proof {
                assert(out.deep_view() =~= seq![s@]);
            }
            out
        },
        Option::Some(k) => {
            proof {
                lemma_find_first_spec(s@, seq!['\n']);
                let sk = find_first_spec(s@, seq!['\n']);
                if sk == -1 {
                    assert(contains_spec(s@, seq!['\n']));
                }
                if sk != -1 && sk < k as int {
                    assert(occurs_at(s@, seq!['\n'], sk));
                }
                if sk != -1 && (k as int) < sk {
                    assert(!occurs_at(s@, seq!['\n'], k as int));
                }
            }
            let head = strip_cr(s.substring_char(0, k));
            let rest = split_lines(s.substring_char(k + 1, n));
            let mut out: Vec<String> = Vec::new();
            out.push(head);
            let ghost rest_view = rest.deep_view();
            let mut i: usize = 0;
            let rest_len: usize = rest.len();
            while i < rest_len
                invariant
                    i <= rest_len,
                    rest_len == rest@.len(),
                    rest_view == rest.deep_view(),
                    rest_view.len() == rest@.len(),
                    out.deep_view() =~= seq![strip_cr_spec(s@.subrange(0, k as int))]
                        + rest_view.subrange(0, i as int),
                decreases rest_len - i,
            {
                let ghost pre = out.deep_view();
                out.push(rest[i].clone());
                proof {
                    assert(rest_view[i as int] == rest@[i as int]@);
                    assert(out.deep_view() =~= pre.push(rest_view[i as int]));
                }
                i += 1;
            }
            proof {
                assert(rest_view.subrange(0, rest_view.len() as int) =~= rest_view);
                assert(out.deep_view() =~= split_lines_spec(s@));
            }
            out
        },
    }
}

/// `s` without leading and trailing ASCII whitespace.
pub open spec fn trim_spec(s: Seq<char>) -> Seq<char> {
    let a = skip_spaces_from(s, 0);
    if a >= s.len() {
        Seq::empty()
    } else {
        let b = last_non_space(s);
        s.subrange(a, b + 1)
    }
}

/// The greatest index holding a non-whitespace character.
pub open spec fn last_non_space(s: Seq<char>) -> int
    decreases s.len(),
{
    if s.len() == 0 {
        -1
    } else if !is_space_spec(s.last()) {
        s.len() - 1
    } else {
        last_non_space(s.drop_last())
    }
}

pub proof fn lemma_last_non_space(s: Seq<char>)
    ensures
        -1 <= last_non_space(s) < s.len(),
        forall|j: int| last_non_space(s) < j < s.len() ==> is_space_spec(s[j]),
        last_non_space(s) >= 0 ==> !is_space_spec(s[last_non_space(s)]),
    decreases s.len(),
{
    if s.len() > 0 && is_space_spec(s.last()) {
        lemma_last_non_space(s.drop_last());
        assert(forall|j: int| 0 <= j < s.len() - 1 ==> s.drop_last()[j] == s[j]);
    }
}

pub fn trim(s: &str) -> (r: String)
    ensures
        r@ == trim_spec(s@),
{
    let n: usize = s.unicode_len();
    let mut a: usize = 0;
    while a < n && is_space_exec(s.get_char(a))
        invariant
            a <= n,
            n == s@.len(),
            forall|j: int| 0 <= j < a ==> is_space_spec(s@[j]),
        decreases n - a,
    {
        a += 1;
    }
    proof {
        lemma_skip_spaces_from(s@, 0);
        let sa = skip_spaces_from(s@, 0);
        if (a as int) < sa {
            assert(is_space_spec(s@[a as int]));
            assert(false);
        }
        if sa < (a as int) {
            assert(is_space_spec(s@[sa]));
            assert(false);
        }
    }
    if a == n {
        proof {
            reveal_strlit("");
        }
        return "".to_owned();
    }
    let mut b: usize = n;
    while b > a && is_space_exec(s.get_char(b - 1))
        invariant
            a <= b <= n,
            n == s@.len(),
            forall|j: int| b <= j < n ==> is_space_spec(s@[j]),
        decreases b,
    {
        b -= 1;
    }
    proof {
        lemma_last_non_space(s@);
        let lb = last_non_space(s@);
        assert(!is_space_spec(s@[a as int]));
        if (b as int) <= lb {
            assert(is_space_spec(s@[lb]));
            assert(false);
        }
        if lb + 1 < b as int {
            assert(is_space_spec(s@[b - 1]));
            assert(false);
        }
    }
    s.substring_char(a, b).to_owned()
}

/// The path `full` made relative to the directory `root`: what follows
/// `root` and one separator, when `full` lies under `root`.
pub open spec fn strip_dir_spec(full: Seq<char>, root: Seq<char>) -> Option<Seq<char>> {
    if starts_with_spec(full, root + "/"@) {
        Option::Some(full.subrange(root.len() + "/"@.len() as int, full.len() as int))
    } else {
        Option::None
    }
}

pub fn strip_dir(full: &str, root: &str) -> (r: Option<String>)
    ensures
        r.deep_view() == strip_dir_spec(full@, root@),
{
    let mut prefix = root.to_owned();
    prefix.append("/");
    if starts_with(full, prefix.as_str()) {
        let a: usize = prefix.as_str().unicode_len();
        let n: usize = full.unicode_len();
        Option::Some(full.substring_char(a, n).to_owned())
    } else {
        Option::None
    }
}

/// An ASCII whitespace character.
pub open spec fn is_space_spec(c: char) -> bool {
    c == ' ' || c == '\t' || c == '\n' || c == '\r'
}

pub fn is_space_exec(c: char) -> (r: bool)
    ensures
        r == is_space_spec(c),
{
    c == ' ' || c == '\t' || c == '\n' || c == '\r'
}

/// The first index at or after `i` holding a non-whitespace character, or
/// the length of `s`.
pub open spec fn skip_spaces_from(s: Seq<char>, i: int) -> int
    decreases s.len() - i,
{
    if i < 0 || i >= s.len() {
        s.len() as int
    } else if is_space_spec(s[i]) {
        skip_spaces_from(s, i + 1)
    } else {
        i
    }
}

pub proof fn lemma_skip_spaces_from(s: Seq<char>, i: int)
    requires
        0 <= i <= s.len(),
    ensures
        i <= skip_spaces_from(s, i) <= s.len(),
        forall|j: int| i <= j < skip_spaces_from(s, i) ==> is_space_spec(s[j]),
        skip_spaces_from(s, i) < s.len() ==> !is_space_spec(s[skip_spaces_from(s, i)]),
    decreases s.len() - i,
{
    if i < s.len() && is_space_spec(s[i]) {
        lemma_skip_spaces_from(s, i + 1);
    }
}

/// The first index at or after `i` holding a whitespace character, or the
/// length of `s`.
pub open spec fn token_end_from(s: Seq<char>, i: int) -> int
    decreases s.len() - i,
{
    if i < 0 || i >= s.len() {
        s.len() as int
    } else if is_space_spec(s[i]) {
        i
    } else {
        token_end_from(s, i + 1)
    }
}

pub proof fn lemma_token_end_from(s: Seq<char>, i: int)
    requires
        0 <= i <= s.len(),
    ensures
        i <= token_end_from(s, i) <= s.len(),
        forall|j: int| i <= j < token_end_from(s, i) ==> !is_space_spec(s[j]),
        token_end_from(s, i) < s.len() ==> is_space_spec(s[token_end_from(s, i)]),
    decreases s.len() - i,
{
    if i < s.len() && !is_space_spec(s[i]) {
        lemma_token_end_from(s, i + 1);
    }
}

/// The first whitespace-delimited token of `s`, or `s` itself when it holds
/// only whitespace.
pub open spec fn first_token_spec(s: Seq<char>) -> Seq<char> {
    let a = skip_spaces_from(s, 0);
    if a >= s.len() {
        s
    } else {
        s.subrange(a, token_end_from(s, a))
    }
}

pub fn first_token(s: &str) -> (r: String)
    ensures
        r@ == first_token_spec(s@),
{
    let n: usize = s.unicode_len();
    let mut a: usize = 0;
    while a < n && is_space_exec(s.get_char(a))
        invariant
            a <= n,
            n == s@.len(),
            forall|j: int| 0 <= j < a ==> is_space_spec(s@[j]),
        decreases n - a,
    {
        a += 1;
    }
    proof {
        lemma_skip_spaces_from(s@, 0);
        let sa = skip_spaces_from(s@, 0);
        if (a as int) < sa {
            assert(is_space_spec(s@[a as int]));
            assert(false);
        }
        if sa < (a as int) {
            assert(is_space_spec(s@[sa]));
            assert(false);
        }
    }
    if a == n {
        return s.to_owned();
    }
    let mut b: usize = a;
    while b < n && !is_space_exec(s.get_char(b))
        invariant
            a <= b <= n,
            n == s@.len(),
            forall|j: int| a <= j < b ==> !is_space_spec(s@[j]),
        decreases n - b,
    {
        b += 1;
    }
    proof {
        lemma_token_end_from(s@, a as int);
        let sb = token_end_from(s@, a as int);
        if (b as int) < sb {
            assert(!is_space_spec(s@[b as int]));
            assert(false);
        }
        if sb < (b as int) {
            assert(is_space_spec(s@[sb]));
            assert(false);
        }
    }
    s.substring_char(a, b).to_owned()
}

/// A letter, digit or underscore, as in an identifier.
pub open spec fn is_word_char_spec(c: char) -> bool {
    ||| 48 <= (c as u32) <= 57
    ||| 65 <= (c as u32) <= 90
    ||| 97 <= (c as u32) <= 122
    ||| c == '_'
}

pub fn is_word_char(c: char) -> (r: bool)
    ensures
        r == is_word_char_spec(c),
{
    let v = c as u32;
    (48 <= v && v <= 57) || (65 <= v && v <= 90) || (97 <= v && v <= 122) || c == '_'
}

} // verus!
