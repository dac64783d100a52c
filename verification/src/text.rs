//! Character-sequence helpers shared by the library: case folding, trimming,
//! substring search, lexicographic order and decimal rendering.

use vstd::prelude::*;
use vstd::string::*;

verus! {

/// The Unicode lowercase mapping of a whole string, as `str::to_lowercase`
/// computes it.
pub uninterp spec fn lowercase(s: Seq<char>) -> Seq<char>;

/// Whether a character has the Unicode `White_Space` property, as
/// `char::is_whitespace` reports it.
pub uninterp spec fn is_white(c: char) -> bool;

/// Calls `str::to_lowercase`. The result is taken to be a function of the
/// input characters alone (named `lowercase`); nothing more is claimed about it.
#[verifier::external_body]
pub(crate) fn to_lower(s: &str) -> (r: String)
    ensures
        r@ == lowercase(s@),
{
    s.to_lowercase()
}

/// Calls `char::is_whitespace`. The answer is named `is_white`; the table of
/// whitespace characters itself is not restated.
#[verifier::external_body]
pub(crate) fn char_is_whitespace(c: char) -> (r: bool)
    ensures
        r == is_white(c),
{
    c.is_whitespace()
}

/// Calls `String::push`, which appends one character.
#[verifier::external_body]
pub(crate) fn push_char(s: &mut String, c: char)
    ensures
        final(s)@ == old(s)@.push(c),
{
    s.push(c)
}

/// The characters of a string, in order.
pub fn chars_of(s: &str) -> (r: Vec<char>)
    ensures
        r@ == s@,
{
    let n = s.unicode_len();
    let mut v: Vec<char> = Vec::new();
    let mut i: usize = 0;
    while i < n
        invariant
            n == s@.len(),
            i <= n,
            v@ == s@.subrange(0, i as int),
        decreases n - i,
    {
        let c = s.get_char(i);
        v.push(c);
        i = i + 1;
        assert(v@ =~= s@.subrange(0, i as int));
    }
    assert(v@ =~= s@);
    v
}

/// Equality of two character vectors.
pub fn chars_eq(a: &Vec<char>, b: &Vec<char>) -> (r: bool)
    ensures
        r == (a@ == b@),
{
    if a.len() != b.len() {
        return false;
    }
    let n = a.len();
    let mut i: usize = 0;
    while i < n
        invariant
            n == a@.len(),
            n == b@.len(),
            i <= n,
            forall|k: int| 0 <= k < i ==> a@[k] == b@[k],
        decreases n - i,
    {
        if a[i] != b[i] {
            return false;
        }
        i = i + 1;
    }
    assert(a@ =~= b@);
    true
}

/// Equality of two string slices, character by character.
pub fn str_eq(a: &str, b: &str) -> (r: bool)
    ensures
        r == (a@ == b@),
{
    let x = chars_of(a);
    let y = chars_of(b);
    chars_eq(&x, &y)
}

/// Whether `s` begins with `p`.
pub fn starts_with(s: &str, p: &str) -> (r: bool)
    ensures
        r == p@.is_prefix_of(s@),
{
    let x = chars_of(s);
    let y = chars_of(p);
    if y.len() > x.len() {
        return false;
    }
    let mut i: usize = 0;
    while i < y.len()
        invariant
            x@ == s@,
            y@ == p@,
            y@.len() <= x@.len(),
            i <= y@.len(),
            forall|k: int| 0 <= k < i ==> #[trigger] y@[k] == x@[k],
        decreases y.len() - i,
    {
        if y[i] != x[i] {
            assert(x@.subrange(0, y@.len() as int)[i as int] != y@[i as int]);
            assert(!(y@ =~= x@.subrange(0, y@.len() as int)));
            return false;
        }
        i = i + 1;
    }
    assert(y@ =~= x@.subrange(0, y@.len() as int));
    true
}

/// Equality of two optional strings.
pub fn opt_string_eq(a: &Option<String>, b: &Option<String>) -> (r: bool)
    ensures
        r == (opt_view(*a) == opt_view(*b)),
{
    match (a, b) {
        (Some(x), Some(y)) => {
            let r = x.eq(y);
            r
        },
        (None, None) => true,
        _ => false,
    }
}

/// The view of an optional string.
pub open spec fn opt_view(o: Option<String>) -> Option<Seq<char>> {
    match o {
        Some(s) => Some(s@),
        None => None,
    }
}

/// Clone of an optional string, keeping its view.
pub fn clone_opt(o: &Option<String>) -> (r: Option<String>)
    ensures
        opt_view(r) == opt_view(*o),
{
    match o {
        Some(s) => Some(s.clone()),
        None => None,
    }
}

/// The views of a sequence of strings.
pub open spec fn strs_view(v: Seq<String>) -> Seq<Seq<char>> {
    v.map_values(|s: String| s@)
}

/// A copy of a vector of strings.
pub fn clone_strings(v: &Vec<String>) -> (r: Vec<String>)
    ensures
        strs_view(r@) == strs_view(v@),
{
    let mut out: Vec<String> = Vec::new();
    let mut i: usize = 0;
    while i < v.len()
        invariant
            i <= v.len(),
            out@.len() == i,
            forall|k: int| 0 <= k < i ==> #[trigger] out@[k]@ == v@[k]@,
        decreases v.len() - i,
    {
        out.push(v[i].clone());
        i = i + 1;
    }
    assert(strs_view(out@) =~= strs_view(v@));
    out
}

/// Whether a vector of strings holds one equal to `s`.
pub fn strings_contain(v: &Vec<String>, s: &String) -> (r: bool)
    ensures
        r == strs_view(v@).contains(s@),
{
    let mut i: usize = 0;
    while i < v.len()
        invariant
            i <= v.len(),
            forall|k: int| 0 <= k < i ==> v@[k]@ != s@,
        decreases v.len() - i,
    {
        if v[i] == *s {
            assert(strs_view(v@)[i as int] == s@);
            return true;
        }
        i = i + 1;
    }
    proof {
        if strs_view(v@).contains(s@) {
            let k = choose|k: int| 0 <= k < strs_view(v@).len() && strs_view(v@)[k] == s@;
            assert(v@[k]@ == s@);
        }
    }
    false
}

// --- Trimming ---------------------------------------------------------------

/// Drop leading whitespace.
pub open spec fn trim_start(s: Seq<char>) -> Seq<char>
    decreases s.len(),
{
    if s.len() > 0 && is_white(s[0]) {
        trim_start(s.drop_first())
    } else {
        s
    }
}

/// Drop trailing whitespace.
pub open spec fn trim_end(s: Seq<char>) -> Seq<char>
    decreases s.len(),
{
    if s.len() > 0 && is_white(s.last()) {
        trim_end(s.drop_last())
    } else {
        s
    }
}

/// Drop leading and trailing whitespace, as `str::trim` does.
pub open spec fn trimmed(s: Seq<char>) -> Seq<char> {
    trim_end(trim_start(s))
}

/// Whether every character is whitespace.
pub open spec fn all_white(s: Seq<char>) -> bool {
    forall|k: int| 0 <= k < s.len() ==> is_white(#[trigger] s[k])
}

/// A string trims to nothing exactly when it is all whitespace.
pub proof fn lemma_trimmed_empty(s: Seq<char>)
    ensures
        trimmed(s).len() == 0 <==> all_white(s),
{
    lemma_trim_start_empty(s);
    let t = trim_start(s);
    if t.len() > 0 {
        lemma_trim_end_keeps_head(t);
    }
}

proof fn lemma_trim_start_empty(s: Seq<char>)
    ensures
        trim_start(s).len() == 0 <==> all_white(s),
        trim_start(s).len() > 0 ==> !is_white(trim_start(s)[0]),
    decreases s.len(),
{
    if s.len() > 0 && is_white(s[0]) {
        lemma_trim_start_empty(s.drop_first());
        if all_white(s.drop_first()) {
            assert forall|k: int| 0 <= k < s.len() implies is_white(#[trigger] s[k]) by {
                if k > 0 {
                    assert(s[k] == s.drop_first()[k - 1]);
                }
            }
        }
        if all_white(s) {
            assert forall|k: int| 0 <= k < s.drop_first().len() implies is_white(
                #[trigger] s.drop_first()[k],
            ) by {
                assert(s.drop_first()[k] == s[k + 1]);
            }
        }
    } else if s.len() > 0 {
        assert(!is_white(s[0]));
    }
}

proof fn lemma_trim_end_keeps_head(t: Seq<char>)
    requires
        t.len() > 0,
        !is_white(t[0]),
    ensures
        trim_end(t).len() > 0,
    decreases t.len(),
{
    if is_white(t.last()) {
        assert(t.len() > 1);
        assert(t.drop_last()[0] == t[0]);
        lemma_trim_end_keeps_head(t.drop_last());
    }
}

/// Bounds `(i, j)` such that `s[i..j]` is `s` with surrounding whitespace removed.
pub fn trim_bounds(s: &Vec<char>) -> (r: (usize, usize))
    ensures
        r.0 <= r.1 <= s@.len(),
        s@.subrange(r.0 as int, r.1 as int) == trimmed(s@),
{
    let n = s.len();
    let mut i: usize = 0;
    assert(s@.subrange(0, n as int) =~= s@);
    while i < n && char_is_whitespace(s[i])
        invariant
            n == s@.len(),
            i <= n,
            trim_start(s@) == trim_start(s@.subrange(i as int, n as int)),
        decreases n - i,
    {
        let ghost t = s@.subrange(i as int, n as int);
        assert(t.drop_first() =~= s@.subrange(i + 1, n as int));
        i = i + 1;
    }
    proof {
        let t = s@.subrange(i as int, n as int);
        if i < n {
            assert(!is_white(t[0]));
        }
        assert(trim_start(s@) == t);
    }
    let mut j: usize = n;
    while j > i && char_is_whitespace(s[j - 1])
        invariant
            n == s@.len(),
            i <= j <= n,
            trim_end(s@.subrange(i as int, n as int)) == trim_end(s@.subrange(i as int, j as int)),
        decreases j - i,
    {
        let ghost t = s@.subrange(i as int, j as int);
        assert(t.last() == s@[j - 1]);
        assert(t.drop_last() =~= s@.subrange(i as int, j - 1));
        j = j - 1;
    }
    proof {
        let t = s@.subrange(i as int, j as int);
        if j > i {
            assert(t.last() == s@[j - 1]);
        }
        assert(trim_end(t) == t);
    }
    (i, j)
}

// --- Substring search ---------------------------------------------------------

/// `needle` occurs as a contiguous run inside `hay` (the empty needle occurs
/// everywhere), as `str::contains` with a string pattern decides.
pub open spec fn is_infix(needle: Seq<char>, hay: Seq<char>) -> bool {
    exists|k: int|
        0 <= k && k + needle.len() <= hay.len() && #[trigger] hay.subrange(k, k + needle.len())
            == needle
}

/// Whether `needle` occurs in `hay` at offset `k`.
fn matches_at(needle: &Vec<char>, hay: &Vec<char>, k: usize) -> (r: bool)
    requires
        k + needle@.len() <= hay@.len(),
    ensures
        r == (hay@.subrange(k as int, k + needle@.len()) == needle@),
{
    let n = needle.len();
    let h = hay.len();
    let mut j: usize = 0;
    while j < n
        invariant
            n == needle@.len(),
            h == hay@.len(),
            k + n <= hay@.len(),
            j <= n,
            forall|m: int| 0 <= m < j ==> hay@[k + m] == needle@[m],
        decreases n - j,
    {
        if hay[k + j] != needle[j] {
            assert(hay@.subrange(k as int, k + n)[j as int] != needle@[j as int]);
            return false;
        }
        j = j + 1;
    }
    assert(hay@.subrange(k as int, k + n) =~= needle@);
    true
}

/// Substring search over character vectors.
pub fn infix_of(needle: &Vec<char>, hay: &Vec<char>) -> (r: bool)
    ensures
        r == is_infix(needle@, hay@),
{
    let n = needle.len();
    let h = hay.len();
    if n > h {
        return false;
    }
    if n == 0 {
        assert(hay@.subrange(0int, 0int + needle@.len()) =~= needle@);
        return true;
    }
    let mut k: usize = 0;
    while k <= h - n
        invariant
            n == needle@.len(),
            h == hay@.len(),
            1 <= n <= h,
            k <= h - n + 1,
            forall|m: int| 0 <= m < k ==> #[trigger] hay@.subrange(m, m + n) != needle@,
        decreases h - n + 1 - k,
    {
        if matches_at(needle, hay, k) {
            return true;
        }
        k = k + 1;
    }
    false
}

// --- Lexicographic order -------------------------------------------------------

/// A `usize` as a mathematical integer.
pub open spec fn usz(i: usize) -> int {
    i as int
}

/// A mathematical integer as a `usize`.
pub open spec fn uidx(i: int) -> usize {
    i as usize
}

/// The scalar value of a character.
pub open spec fn char_code(c: char) -> u32 {
    c as u32
}

/// The scalar value of a character, at run time.
pub fn code_of(c: char) -> (r: u32)
    ensures
        r == char_code(c),
{
    c as u32
}

/// Lexicographic order on character sequences by scalar value, which is the
/// order `Ord for str` gives (UTF-8 preserves scalar order).
pub open spec fn seq_order(a: Seq<char>, b: Seq<char>) -> core::cmp::Ordering
    decreases a.len(),
{
    if a.len() == 0 {
        if b.len() == 0 {
            core::cmp::Ordering::Equal
        } else {
            core::cmp::Ordering::Less
        }
    } else if b.len() == 0 {
        core::cmp::Ordering::Greater
    } else if char_code(a[0]) < char_code(b[0]) {
        core::cmp::Ordering::Less
    } else if char_code(a[0]) > char_code(b[0]) {
        core::cmp::Ordering::Greater
    } else {
        seq_order(a.drop_first(), b.drop_first())
    }
}

/// Whether a comparison answered `Greater`.
pub fn is_greater(o: core::cmp::Ordering) -> (r: bool)
    ensures
        r == (o == core::cmp::Ordering::Greater),
{
    match o {
        core::cmp::Ordering::Greater => true,
        _ => false,
    }
}

/// The opposite answer.
pub open spec fn flipped(o: core::cmp::Ordering) -> core::cmp::Ordering {
    match o {
        core::cmp::Ordering::Less => core::cmp::Ordering::Greater,
        core::cmp::Ordering::Equal => core::cmp::Ordering::Equal,
        core::cmp::Ordering::Greater => core::cmp::Ordering::Less,
    }
}

/// Character codes determine characters.
pub proof fn lemma_char_code_injective(a: char, b: char)
    ensures
        char_code(a) == char_code(b) ==> a == b,
{
}

/// Swapping the arguments flips the answer; `Equal` exactly for equal sequences.
pub proof fn lemma_seq_order_basics(a: Seq<char>, b: Seq<char>)
    ensures
        seq_order(a, b) == flipped(seq_order(b, a)),
        (seq_order(a, b) == core::cmp::Ordering::Equal) <==> (a == b),
    decreases a.len(),
{
    if a.len() > 0 && b.len() > 0 {
        lemma_char_code_injective(a[0], b[0]);
        lemma_seq_order_basics(a.drop_first(), b.drop_first());
        if a.drop_first() == b.drop_first() && a[0] == b[0] {
            assert forall|k: int| 0 <= k < a.len() implies a[k] == b[k] by {
                if k > 0 {
                    assert(a[k] == a.drop_first()[k - 1]);
                    assert(b[k] == b.drop_first()[k - 1]);
                }
            }
            assert(a =~= b);
        }
        if a == b {
            assert(a.drop_first() == b.drop_first());
        }
    } else if a.len() == 0 && b.len() == 0 {
        assert(a =~= b);
    }
}

/// The order is transitive.
pub proof fn lemma_seq_order_transitive(a: Seq<char>, b: Seq<char>, c: Seq<char>)
    ensures
        seq_order(a, b) != core::cmp::Ordering::Greater && seq_order(b, c)
            != core::cmp::Ordering::Greater ==> seq_order(a, c) != core::cmp::Ordering::Greater,
        seq_order(a, b) == core::cmp::Ordering::Less && seq_order(b, c)
            != core::cmp::Ordering::Greater ==> seq_order(a, c) == core::cmp::Ordering::Less,
        seq_order(a, b) != core::cmp::Ordering::Greater && seq_order(b, c)
            == core::cmp::Ordering::Less ==> seq_order(a, c) == core::cmp::Ordering::Less,
    decreases a.len(),
{
    if a.len() > 0 && b.len() > 0 && c.len() > 0 {
        lemma_seq_order_transitive(a.drop_first(), b.drop_first(), c.drop_first());
    }
}

/// Lexicographic comparison of two character vectors.
pub fn chars_order(a: &Vec<char>, b: &Vec<char>) -> (r: core::cmp::Ordering)
    ensures
        r == seq_order(a@, b@),
{
    let mut i: usize = 0;
    assert(a@.skip(0) =~= a@);
    assert(b@.skip(0) =~= b@);
    while i < a.len() && i < b.len()
        invariant
            i <= a@.len(),
            i <= b@.len(),
            seq_order(a@, b@) == seq_order(a@.skip(usz(i)), b@.skip(usz(i))),
        decreases a.len() - i,
    {
        let x = code_of(a[i]);
        let y = code_of(b[i]);
        if x < y {
            return core::cmp::Ordering::Less;
        }
        if x > y {
            return core::cmp::Ordering::Greater;
        }
        assert(a@.skip(usz(i)).drop_first() =~= a@.skip(i + 1));
        assert(b@.skip(usz(i)).drop_first() =~= b@.skip(i + 1));
        i = i + 1;
    }
    if i < a.len() {
        core::cmp::Ordering::Greater
    } else if i < b.len() {
        core::cmp::Ordering::Less
    } else {
        core::cmp::Ordering::Equal
    }
}

// --- Decimal rendering ------------------------------------------------------------

/// The character for a decimal digit.
pub open spec fn digit_char(d: int) -> char {
    if d == 0 {
        '0'
    } else if d == 1 {
        '1'
    } else if d == 2 {
        '2'
    } else if d == 3 {
        '3'
    } else if d == 4 {
        '4'
    } else if d == 5 {
        '5'
    } else if d == 6 {
        '6'
    } else if d == 7 {
        '7'
    } else if d == 8 {
        '8'
    } else {
        '9'
    }
}

/// Decimal digits of a natural number, most significant first, as `Display`
/// prints an unsigned integer.
pub open spec fn nat_digits(n: nat) -> Seq<char>
    decreases n,
{
    if n < 10 {
        seq![digit_char(n as int)]
    } else {
        nat_digits(n / 10).push(digit_char((n % 10) as int))
    }
}

/// Decimal rendering of an integer, with a leading `-` when negative.
pub open spec fn int_digits(i: int) -> Seq<char> {
    if i < 0 {
        seq!['-'] + nat_digits((-i) as nat)
    } else {
        nat_digits(i as nat)
    }
}

fn digit(d: u64) -> (c: char)
    requires
        d < 10,
    ensures
        c == digit_char(d as int),
{
    if d == 0 {
        '0'
    } else if d == 1 {
        '1'
    } else if d == 2 {
        '2'
    } else if d == 3 {
        '3'
    } else if d == 4 {
        '4'
    } else if d == 5 {
        '5'
    } else if d == 6 {
        '6'
    } else if d == 7 {
        '7'
    } else if d == 8 {
        '8'
    } else {
        '9'
    }
}

/// Append the decimal digits of `n`.
pub fn push_nat(s: &mut String, n: u64)
    ensures
        final(s)@ == old(s)@ + nat_digits(n as nat),
    decreases n,
{
    if n >= 10 {
        push_nat(s, n / 10);
    }
    push_char(s, digit(n % 10));
    proof {
        if n >= 10 {
            assert(old(s)@ + nat_digits(n as nat) =~= old(s)@ + nat_digits((n / 10) as nat) + seq![
                digit_char((n % 10) as int),
            ]);
        } else {
            assert(old(s)@ + nat_digits(n as nat) =~= old(s)@.push(digit_char((n % 10) as int)));
        }
    }
}

/// Append the decimal rendering of a signed integer.
pub fn push_int(s: &mut String, n: i64)
    ensures
        final(s)@ == old(s)@ + int_digits(n as int),
{
    if n < 0 {
        push_char(s, '-');
        let m: u64 = (0i128 - (n as i128)) as u64;
        push_nat(s, m);
        assert(old(s)@ + int_digits(n as int) =~= old(s)@.push('-') + nat_digits(m as nat));
    } else {
        push_nat(s, n as u64);
    }
}

/// A fresh string holding `a` followed by `b`.
pub fn concat2(a: &str, b: &str) -> (r: String)
    ensures
        r@ == a@ + b@,
{
    let mut s = String::new();
    s.append(a);
    s.append(b);
    assert(s@ =~= a@ + b@);
    s
}

/// A fresh string copy of a slice.
pub fn owned(a: &str) -> (r: String)
    ensures
        r@ == a@,
{
    let mut s = String::new();
    s.append(a);
    assert(s@ =~= a@);
    s
}

// --- URLs -----------------------------------------------------------------------

/// `s` without any trailing `/`.
pub open spec fn trim_slashes(s: Seq<char>) -> Seq<char>
    decreases s.len(),
{
    if s.len() > 0 && s.last() == '/' {
        trim_slashes(s.drop_last())
    } else {
        s
    }
}

/// The server base URL with every trailing `/` removed.
pub fn base_url_of(raw: &str) -> (r: String)
    ensures
        r@ == trim_slashes(raw@),
{
    let cs = chars_of(raw);
    let mut n = cs.len();
    assert(cs@.subrange(0, n as int) =~= cs@);
    while n > 0 && cs[n - 1] == '/'
        invariant
            n <= cs@.len(),
            trim_slashes(raw@) == trim_slashes(cs@.subrange(0, n as int)),
            cs@ == raw@,
        decreases n,
    {
        assert(cs@.subrange(0, n as int).drop_last() =~= cs@.subrange(0, n - 1));
        n = n - 1;
    }
    let mut s = String::new();
    let mut i: usize = 0;
    while i < n
        invariant
            i <= n <= cs@.len(),
            s@ == cs@.subrange(0, i as int),
        decreases n - i,
    {
        push_char(&mut s, cs[i]);
        i = i + 1;
        assert(s@ =~= cs@.subrange(0, i as int));
    }
    s
}

// --- Sorted sets of strings -------------------------------------------------------

/// Strictly increasing in lexicographic order (so also free of duplicates).
pub open spec fn strictly_sorted(s: Seq<Seq<char>>) -> bool {
    forall|i: int, j: int|
        0 <= i < j < s.len() ==> seq_order(#[trigger] s[i], #[trigger] s[j])
            == core::cmp::Ordering::Less
}

fn string_order(a: &String, b: &String) -> (r: core::cmp::Ordering)
    ensures
        r == seq_order(a@, b@),
{
    let x = chars_of(a.as_str());
    let y = chars_of(b.as_str());
    chars_order(&x, &y)
}

/// Add `x` to a strictly sorted vector, keeping it strictly sorted; nothing
/// changes when an equal string is already present.
pub fn insert_sorted_unique(v: &mut Vec<String>, x: String)
    requires
        strictly_sorted(strs_view(old(v)@)),
    ensures
        strictly_sorted(strs_view(final(v)@)),
        strs_view(final(v)@).to_set() == strs_view(old(v)@).to_set().insert(x@),
{
    let ghost x_view = x@;
    let mut i: usize = 0;
    while i < v.len()
        invariant
            i <= v@.len(),
            x@ == x_view,
            forall|m: int| 0 <= m < i ==> seq_order(#[trigger] v@[m]@, x@) == core::cmp::Ordering::Less,
        ensures
            i <= v@.len(),
            x@ == x_view,
            forall|m: int| 0 <= m < i ==> seq_order(#[trigger] v@[m]@, x@) == core::cmp::Ordering::Less,
            i < v@.len() ==> seq_order(v@[usz(i)]@, x@) != core::cmp::Ordering::Less,
        decreases v.len() - i,
    {
        let c = string_order(&v[i], &x);
        match c {
            core::cmp::Ordering::Less => {},
            _ => {
                break;
            },
        }
        i = i + 1;
    }
    let ghost before = strs_view(v@);
    if i < v.len() && v[i].eq(&x) {
        assert(before[usz(i)] == x@);
        assert(before.to_set().insert(x@) =~= before.to_set());
        return;
    }
    proof {
        if i < v@.len() {
            lemma_seq_order_basics(v@[usz(i)]@, x@);
            assert(seq_order(x@, before[usz(i)]) == core::cmp::Ordering::Less);
        }
    }
    v.insert(i, x);
    proof {
        let n = strs_view(v@);
        assert(n =~= before.insert(usz(i), x_view));
        assert forall|a: int, b: int| 0 <= a < b < n.len() implies seq_order(
            #[trigger] n[a],
            #[trigger] n[b],
        ) == core::cmp::Ordering::Less by {
            if b < i {
                assert(n[a] == before[a] && n[b] == before[b]);
            } else if b == i {
                assert(n[a] == before[a]);
            } else if a == i {
                assert(n[b] == before[b - 1]);
                if b - 1 > i {
                    lemma_seq_order_transitive(x_view, before[usz(i)], before[b - 1]);
                }
            } else if a < i {
                assert(n[a] == before[a] && n[b] == before[b - 1]);
            } else {
                assert(n[a] == before[a - 1] && n[b] == before[b - 1]);
            }
        }
        assert forall|e: Seq<char>| n.to_set().contains(e) <==> before.to_set().insert(
            x_view,
        ).contains(e) by {
            if n.to_set().contains(e) {
                let t = choose|t: int| 0 <= t < n.len() && n[t] == e;
                if t < i {
                    assert(before[t] == e);
                } else if t > i {
                    assert(before[t - 1] == e);
                }
            }
            if before.to_set().contains(e) {
                let t = choose|t: int| 0 <= t < before.len() && before[t] == e;
                if t < i {
                    assert(n[t] == e);
                } else {
                    assert(n[t + 1] == e);
                }
            }
            if e == x_view {
                assert(n[usz(i)] == e);
            }
        }
        assert(n.to_set() =~= before.to_set().insert(x_view));
    }
}

// --- Sorting with duplicates and joining ---------------------------------------------

/// Non-decreasing in lexicographic order.
pub open spec fn sorted_le(s: Seq<Seq<char>>) -> bool {
    forall|i: int, j: int|
        0 <= i < j < s.len() ==> seq_order(#[trigger] s[i], #[trigger] s[j])
            != core::cmp::Ordering::Greater
}

/// The sorted arrangement of `s`: the non-decreasing sequence with the same
/// elements, counted with multiplicity (unique by `lemma_sorted_unique`).
pub open spec fn sorted_of(s: Seq<Seq<char>>) -> Seq<Seq<char>> {
    choose|t: Seq<Seq<char>>| sorted_le(t) && t.to_multiset() == s.to_multiset()
}

/// The elements of `s` separated by `sep`.
pub open spec fn joined(s: Seq<Seq<char>>, sep: Seq<char>) -> Seq<char>
    decreases s.len(),
{
    if s.len() == 0 {
        Seq::empty()
    } else if s.len() == 1 {
        s[0]
    } else {
        joined(s.drop_last(), sep) + sep + s.last()
    }
}

/// Two sorted arrangements of the same elements are equal.
pub proof fn lemma_sorted_unique(a: Seq<Seq<char>>, b: Seq<Seq<char>>)
    requires
        sorted_le(a),
        sorted_le(b),
        a.to_multiset() == b.to_multiset(),
    ensures
        a == b,
    decreases a.len(),
{
    broadcast use vstd::seq_lib::group_to_multiset_ensures;

    assert(a.len() == a.to_multiset().len());
    assert(b.len() == b.to_multiset().len());
    if a.len() == 0 {
        assert(a =~= b);
    } else {
        let x = a[0];
        let y = b[0];
        assert(b.contains(y));
        assert(b.to_multiset().count(y) > 0);
        assert(a.contains(y));
        let j = choose|j: int| 0 <= j < a.len() && a[j] == y;
        assert(a.contains(x));
        assert(a.to_multiset().count(x) > 0);
        assert(b.contains(x));
        let m = choose|m: int| 0 <= m < b.len() && b[m] == x;
        lemma_seq_order_basics(x, y);
        if j > 0 {
            assert(seq_order(a[0], a[j]) != core::cmp::Ordering::Greater);
        } else {
            lemma_seq_order_basics(x, x);
        }
        if m > 0 {
            assert(seq_order(b[0], b[m]) != core::cmp::Ordering::Greater);
        } else {
            lemma_seq_order_basics(y, y);
        }
        assert(x == y);
        let a1 = a.drop_first();
        let b1 = b.drop_first();
        assert(a.remove(0) =~= a1);
        assert(b.remove(0) =~= b1);
        assert(a1.to_multiset() == a.to_multiset().remove(x));
        assert(b1.to_multiset() == b.to_multiset().remove(y));
        assert(sorted_le(a1)) by {
            assert forall|i: int, k: int| 0 <= i < k < a1.len() implies seq_order(
                #[trigger] a1[i],
                #[trigger] a1[k],
            ) != core::cmp::Ordering::Greater by {
                assert(a1[i] == a[i + 1] && a1[k] == a[k + 1]);
            }
        }
        assert(sorted_le(b1)) by {
            assert forall|i: int, k: int| 0 <= i < k < b1.len() implies seq_order(
                #[trigger] b1[i],
                #[trigger] b1[k],
            ) != core::cmp::Ordering::Greater by {
                assert(b1[i] == b[i + 1] && b1[k] == b[k + 1]);
            }
        }
        lemma_sorted_unique(a1, b1);
        assert forall|i: int| 0 <= i < a.len() implies a[i] == b[i] by {
            if i > 0 {
                assert(a[i] == a1[i - 1] && b[i] == b1[i - 1]);
            }
        }
        assert(a =~= b);
    }
}

/// Any sorted arrangement of `s` is `sorted_of(s)`.
pub proof fn lemma_sorted_of(s: Seq<Seq<char>>, t: Seq<Seq<char>>)
    requires
        sorted_le(t),
        t.to_multiset() == s.to_multiset(),
    ensures
        sorted_of(s) == t,
{
    let c = sorted_of(s);
    assert(sorted_le(c) && c.to_multiset() == s.to_multiset());
    lemma_sorted_unique(c, t);
}

/// A sorted sequence with one more element inserted can be arranged sorted.
proof fn lemma_insert_sorted(t: Seq<Seq<char>>, x: Seq<char>)
    requires
        sorted_le(t),
    ensures
        exists|u: Seq<Seq<char>>| sorted_le(u) && u.to_multiset() == t.to_multiset().insert(x),
    decreases t.len(),
{
    broadcast use vstd::seq_lib::group_to_multiset_ensures;

    if t.len() == 0 {
        let u = seq![x];
        assert(u =~= t.insert(0, x));
        assert(sorted_le(u));
        assert(u.to_multiset() == t.to_multiset().insert(x));
    } else if seq_order(x, t[0]) != core::cmp::Ordering::Greater {
        let u = t.insert(0, x);
        assert forall|i: int, j: int| 0 <= i < j < u.len() implies seq_order(
            #[trigger] u[i],
            #[trigger] u[j],
        ) != core::cmp::Ordering::Greater by {
            if i == 0 {
                if j > 1 {
                    assert(seq_order(t[0], t[j - 1]) != core::cmp::Ordering::Greater);
                    lemma_seq_order_transitive(x, t[0], t[j - 1]);
                }
            } else {
                assert(u[i] == t[i - 1] && u[j] == t[j - 1]);
            }
        }
        assert(u.to_multiset() == t.to_multiset().insert(x));
    } else {
        let t1 = t.drop_first();
        assert(sorted_le(t1)) by {
            assert forall|i: int, j: int| 0 <= i < j < t1.len() implies seq_order(
                #[trigger] t1[i],
                #[trigger] t1[j],
            ) != core::cmp::Ordering::Greater by {
                assert(t1[i] == t[i + 1] && t1[j] == t[j + 1]);
            }
        }
        lemma_insert_sorted(t1, x);
        let u1 = choose|u: Seq<Seq<char>>| sorted_le(u) && u.to_multiset() == t1.to_multiset().insert(x);
        let y = t[0];
        let u = u1.insert(0, y);
        lemma_seq_order_basics(x, y);
        assert(t =~= t1.insert(0, y));
        assert forall|i: int, j: int| 0 <= i < j < u.len() implies seq_order(
            #[trigger] u[i],
            #[trigger] u[j],
        ) != core::cmp::Ordering::Greater by {
            if i == 0 {
                let z = u[j];
                assert(z == u1[j - 1]);
                assert(u1.contains(z));
                assert(u1.to_multiset().count(z) > 0);
                if z != x {
                    assert(t1.to_multiset().count(z) > 0);
                    assert(t1.contains(z));
                    let k = choose|k: int| 0 <= k < t1.len() && t1[k] == z;
                    assert(t[k + 1] == z);
                }
            } else {
                assert(u[i] == u1[i - 1] && u[j] == u1[j - 1]);
            }
        }
        assert(u.to_multiset() == u1.to_multiset().insert(y));
        assert(t.to_multiset() == t1.to_multiset().insert(y));
        assert(u.to_multiset() =~= t.to_multiset().insert(x));
        assert(sorted_le(u));
    }
}

/// Every sequence has a sorted arrangement, so `sorted_of` is one.
pub proof fn lemma_sorted_exists(s: Seq<Seq<char>>)
    ensures
        sorted_le(sorted_of(s)),
        sorted_of(s).to_multiset() == s.to_multiset(),
    decreases s.len(),
{
    broadcast use vstd::seq_lib::group_to_multiset_ensures;

    if s.len() == 0 {
        assert(sorted_le(s));
    } else {
        let s1 = s.drop_last();
        lemma_sorted_exists(s1);
        lemma_insert_sorted(sorted_of(s1), s.last());
        assert(s =~= s1.push(s.last()));
    }
}

/// The strings of `v` in non-decreasing lexicographic order, duplicates kept.
pub fn sort_strings(v: Vec<String>) -> (r: Vec<String>)
    ensures
        strs_view(r@) == sorted_of(strs_view(v@)),
{
    broadcast use vstd::seq_lib::group_to_multiset_ensures;

    let ghost src = strs_view(v@);
    let mut rest = v;
    let mut out: Vec<String> = Vec::new();
    let ghost mut k: int = 0;
    assert(src.subrange(0, 0) =~= Seq::<Seq<char>>::empty());
    assert(strs_view(out@) =~= Seq::<Seq<char>>::empty());
    while rest.len() > 0
        invariant
            0 <= k <= src.len(),
            strs_view(rest@) == src.skip(k),
            sorted_le(strs_view(out@)),
            strs_view(out@).to_multiset() == src.subrange(0, k).to_multiset(),
        decreases rest.len(),
    {
        let ghost rest0 = rest@;
        assert(strs_view(rest0).len() == rest0.len());
        let x = rest.remove(0);
        let ghost before = strs_view(out@);
        assert(strs_view(rest0)[0] == x@);
        assert(x@ == src[k]);
        let mut i: usize = 0;
        while i < out.len()
            invariant
                i <= out@.len(),
                strs_view(out@) == before,
                forall|m: int| 0 <= m < i ==> seq_order(#[trigger] before[m], x@) != core::cmp::Ordering::Greater,
            ensures
                i <= out@.len(),
                forall|m: int| 0 <= m < i ==> seq_order(#[trigger] before[m], x@) != core::cmp::Ordering::Greater,
                i < out@.len() ==> seq_order(before[usz(i)], x@) == core::cmp::Ordering::Greater,
            decreases out.len() - i,
        {
            let c = string_order(&out[i], &x);
            if is_greater(c) {
                break;
            }
            i = i + 1;
        }
        let ghost xv = x@;
        out.insert(i, x);
        proof {
            let n = strs_view(out@);
            assert(n =~= before.insert(usz(i), xv));
            assert forall|a: int, b: int| 0 <= a < b < n.len() implies seq_order(
                #[trigger] n[a],
                #[trigger] n[b],
            ) != core::cmp::Ordering::Greater by {
                if b < i {
                    assert(n[a] == before[a] && n[b] == before[b]);
                } else if b == i {
                    assert(n[a] == before[a]);
                } else if a == i {
                    assert(n[b] == before[b - 1]);
                    lemma_seq_order_basics(before[usz(i)], xv);
                    if b - 1 > i {
                        lemma_seq_order_transitive(xv, before[usz(i)], before[b - 1]);
                    }
                } else if a < i {
                    assert(n[a] == before[a] && n[b] == before[b - 1]);
                    lemma_seq_order_basics(before[usz(i)], xv);
                    lemma_seq_order_transitive(before[a], xv, before[usz(i)]);
                    if b - 1 > i {
                        lemma_seq_order_transitive(before[a], before[usz(i)], before[b - 1]);
                    }
                } else {
                    assert(n[a] == before[a - 1] && n[b] == before[b - 1]);
                }
            }
            assert(src.subrange(0, k + 1) =~= src.subrange(0, k).push(src[k]));
            vstd::seq_lib::to_multiset_insert(before, usz(i), xv);
            vstd::seq_lib::to_multiset_build(src.subrange(0, k), src[k]);
            assert(n.to_multiset() == before.to_multiset().insert(xv));
            assert(rest@ =~= rest0.drop_first());
            assert(strs_view(rest@) =~= strs_view(rest0).drop_first());
            k = k + 1;
            assert(strs_view(rest@) =~= src.skip(k));
        }
    }
    proof {
        assert(src.subrange(0, k) =~= src);
        lemma_sorted_of(src, strs_view(out@));
    }
    out
}

/// The strings of `v` separated by `sep`.
pub fn join_strings(v: &Vec<String>, sep: &str) -> (r: String)
    ensures
        r@ == joined(strs_view(v@), sep@),
{
    let mut out = String::new();
    let mut i: usize = 0;
    while i < v.len()
        invariant
            i <= v@.len(),
            out@ == joined(strs_view(v@).subrange(0, usz(i)), sep@),
        decreases v.len() - i,
    {
        let ghost pre = strs_view(v@).subrange(0, usz(i));
        let ghost nxt = strs_view(v@).subrange(0, i + 1);
        assert(nxt.drop_last() =~= pre);
        if i > 0 {
            out.append(sep);
        }
        out.append(v[i].as_str());
        proof {
            if i == 0 {
                assert(out@ =~= nxt[0]);
            } else {
                assert(out@ =~= joined(pre, sep@) + sep@ + nxt.last());
            }
        }
        i = i + 1;
    }
    assert(strs_view(v@).subrange(0, usz(i)) =~= strs_view(v@));
    out
}

/// `s` with every element equal to `x` removed, as `Vec::retain` leaves it.
pub open spec fn without(s: Seq<Seq<char>>, x: Seq<char>) -> Seq<Seq<char>>
    decreases s.len(),
{
    if s.len() == 0 {
        s
    } else if s.last() == x {
        without(s.drop_last(), x)
    } else {
        without(s.drop_last(), x).push(s.last())
    }
}

/// `s` keeping only elements that `allowed` contains, in order.
pub open spec fn kept_in(s: Seq<Seq<char>>, allowed: Set<Seq<char>>) -> Seq<Seq<char>>
    decreases s.len(),
{
    if s.len() == 0 {
        s
    } else if allowed.contains(s.last()) {
        kept_in(s.drop_last(), allowed).push(s.last())
    } else {
        kept_in(s.drop_last(), allowed)
    }
}

/// A copy of `v` without the strings equal to `x`.
pub fn strings_without(v: &Vec<String>, x: &String) -> (r: Vec<String>)
    ensures
        strs_view(r@) == without(strs_view(v@), x@),
{
    let mut out: Vec<String> = Vec::new();
    let mut i: usize = 0;
    while i < v.len()
        invariant
            i <= v@.len(),
            strs_view(out@) == without(strs_view(v@.subrange(0, usz(i))), x@),
        decreases v.len() - i,
    {
        let ghost pre = v@.subrange(0, usz(i));
        let ghost nxt = v@.subrange(0, i + 1);
        assert(strs_view(nxt).drop_last() =~= strs_view(pre));
        assert(strs_view(nxt).last() == v@[usz(i)]@);
        if !v[i].eq(x) {
            out.push(v[i].clone());
            assert(strs_view(out@) =~= strs_view(old_out_push_helper(out@)).push(v@[usz(i)]@));
        }
        i = i + 1;
    }
    assert(v@.subrange(0, usz(i)) =~= v@);
    out
}

/// All but the last element (used to name the vector before a push).
pub open spec fn old_out_push_helper(s: Seq<String>) -> Seq<String> {
    s.drop_last()
}

/// A copy of `v` keeping only the strings `allowed` contains.
pub fn strings_kept_in(v: &Vec<String>, allowed: &Vec<String>) -> (r: Vec<String>)
    ensures
        strs_view(r@) == kept_in(strs_view(v@), strs_view(allowed@).to_set()),
{
    let mut out: Vec<String> = Vec::new();
    let mut i: usize = 0;
    while i < v.len()
        invariant
            i <= v@.len(),
            strs_view(out@) == kept_in(strs_view(v@.subrange(0, usz(i))), strs_view(allowed@).to_set()),
        decreases v.len() - i,
    {
        let ghost pre = v@.subrange(0, usz(i));
        let ghost nxt = v@.subrange(0, i + 1);
        assert(strs_view(nxt).drop_last() =~= strs_view(pre));
        assert(strs_view(nxt).last() == v@[usz(i)]@);
        if strings_contain(allowed, &v[i]) {
            out.push(v[i].clone());
            assert(strs_view(out@) =~= strs_view(old_out_push_helper(out@)).push(v@[usz(i)]@));
        }
        i = i + 1;
    }
    assert(v@.subrange(0, usz(i)) =~= v@);
    out
}

} // verus!
