//! Text helpers: characters of a string, case folding, trimming, substring
//! search, and the two string orders the lists use.

use vstd::prelude::*;

use crate::order::three_way;

verus! {

/// What `str::to_lowercase` returns for a string.
pub uninterp spec fn lowercased(s: Seq<char>) -> Seq<char>;

/// What `str::to_uppercase` returns for a string.
pub uninterp spec fn uppercased(s: Seq<char>) -> Seq<char>;

/// White space as Unicode's `White_Space` property lists it, which is what
/// `char::is_whitespace` and `str::trim` go by.
pub open spec fn is_white_space(c: char) -> bool {
    let n = c as u32;
    ||| 0x09 <= n <= 0x0d
    ||| n == 0x20
    ||| n == 0x85
    ||| n == 0xa0
    ||| n == 0x1680
    ||| 0x2000 <= n <= 0x200a
    ||| n == 0x2028
    ||| n == 0x2029
    ||| n == 0x202f
    ||| n == 0x205f
    ||| n == 0x3000
}

/// The text without its leading white space.
pub open spec fn trim_start(s: Seq<char>) -> Seq<char>
    decreases s.len(),
{
    if s.len() > 0 && is_white_space(s[0]) {
        trim_start(s.drop_first())
    } else {
        s
    }
}

/// The text without its trailing white space.
pub open spec fn trim_end(s: Seq<char>) -> Seq<char>
    decreases s.len(),
{
    if s.len() > 0 && is_white_space(s.last()) {
        trim_end(s.drop_last())
    } else {
        s
    }
}

/// The text without leading and trailing white space, as `str::trim` gives it.
pub open spec fn trimmed(s: Seq<char>) -> Seq<char> {
    trim_end(trim_start(s))
}

/// Whether every character is ASCII.
pub open spec fn all_ascii(s: Seq<char>) -> bool {
    forall|i: int| 0 <= i < s.len() ==> (#[trigger] s[i]) as u32 <= 0x7f
}

/// ASCII case mapping: 'A' to 'Z' become 'a' to 'z', or the other way round;
/// everything else stays.
pub open spec fn ascii_lower(c: char) -> char {
    if 'A' <= c <= 'Z' {
        ((c as u32) + 32) as char
    } else {
        c
    }
}

pub open spec fn ascii_upper(c: char) -> char {
    if 'a' <= c <= 'z' {
        ((c as u32) - 32) as char
    } else {
        c
    }
}

/// `str::to_lowercase`: the string with every character replaced by its
/// lowercase mapping, as Unicode defines it. The contract names the result,
/// which depends on the string alone, and states it for ASCII text, where
/// Unicode's mapping is the ASCII one.
#[verifier::external_body]
fn to_lowercase(s: &str) -> (r: String)
    ensures
        r@ == lowercased(s@),
        all_ascii(s@) ==> r@ == s@.map_values(|c: char| ascii_lower(c)),
{
    s.to_lowercase()
}

/// `str::to_uppercase`: the string with every character replaced by its
/// uppercase mapping, as Unicode defines it (one character may become
/// several). The contract names the result, which depends on the string
/// alone, and states it for ASCII text, where Unicode's mapping is the ASCII
/// one.
#[verifier::external_body]
pub(crate) fn to_uppercase(s: &str) -> (r: String)
    ensures
        r@ == uppercased(s@),
        all_ascii(s@) ==> r@ == s@.map_values(|c: char| ascii_upper(c)),
{
    s.to_uppercase()
}

/// `str::trim`: the string without leading and trailing white space, white
/// space being the characters with Unicode's `White_Space` property.
#[verifier::external_body]
pub(crate) fn trim(s: &str) -> (r: &str)
    ensures
        r@ == trimmed(s@),
{
    s.trim()
}

/// `String::push`: appends one character to the end of the string.
#[verifier::external_body]
pub(crate) fn push_char(s: &mut String, c: char)
    ensures
        final(s)@ == old(s)@.push(c),
{
    s.push(c);
}

/// The characters of a string.
pub fn chars_of(s: &str) -> (r: Vec<char>)
    ensures
        r@ == s@,
{
    let n = s.unicode_len();
    let mut r: Vec<char> = Vec::new();
    let mut i: usize = 0;
    while i < n
        invariant
            0 <= i <= n,
            n == s@.len(),
            r@ == s@.take(i as int),
        decreases n - i,
    {
        let c = s.get_char(i);
        r.push(c);
        proof {
            assert(r@ =~= s@.take(i + 1));
        }
        i = i + 1;
    }
    proof {
        assert(r@ =~= s@);
    }
    r
}

/// The lowercase characters of a string.
pub fn lowercase_chars(s: &str) -> (r: Vec<char>)
    ensures
        r@ == lowercased(s@),
{
    let lower = to_lowercase(s);
    chars_of(lower.as_str())
}

/// A search query as it is matched: trimmed, then lowercased.
pub fn search_needle(query: &str) -> (r: Vec<char>)
    ensures
        r@ == lowercased(trimmed(query@)),
{
    lowercase_chars(trim(query))
}

/// `needle` occurs in `hay` at position `at`.
pub open spec fn occurs_at(hay: Seq<char>, needle: Seq<char>, at: int) -> bool {
    0 <= at && at + needle.len() <= hay.len() && hay.subrange(at, at + needle.len()) == needle
}

/// `needle` occurs somewhere in `hay`.
pub open spec fn contains_seq(hay: Seq<char>, needle: Seq<char>) -> bool {
    exists|at: int| occurs_at(hay, needle, at)
}

fn matches_at(hay: &Vec<char>, needle: &Vec<char>, at: usize) -> (b: bool)
    requires
        at + needle@.len() <= hay@.len(),
    ensures
        b == occurs_at(hay@, needle@, at as int),
{
    let hlen = hay.len();
    let mut k: usize = 0;
    while k < needle.len()
        invariant
            hlen == hay@.len(),
            0 <= k <= needle@.len(),
            at + needle@.len() <= hay@.len(),
            forall|q: int| 0 <= q < k ==> hay@[at + q] == needle@[q],
        decreases needle@.len() - k,
    {
        if hay[at + k] != needle[k] {
            proof {
                assert(hay@.subrange(at as int, at + needle@.len())[k as int] != needle@[k as int]);
            }
            return false;
        }
        k = k + 1;
    }
    proof {
        assert(hay@.subrange(at as int, at + needle@.len()) =~= needle@);
    }
    true
}

/// Whether `needle` occurs in `hay`.
pub fn contains_chars(hay: &Vec<char>, needle: &Vec<char>) -> (b: bool)
    ensures
        b == contains_seq(hay@, needle@),
{
    if needle.len() > hay.len() {
        proof {
            assert forall|at: int| !occurs_at(hay@, needle@, at) by {}
        }
        return false;
    }
    let last = hay.len() - needle.len();
    let mut at: usize = 0;
    while at <= last
        invariant
            last + needle@.len() == hay@.len(),
            forall|q: int| 0 <= q < at ==> !occurs_at(hay@, needle@, q),
        decreases last + 1 - at,
    {
        if matches_at(hay, needle, at) {
            return true;
        }
        if at == last {
            proof {
                assert forall|q: int| !occurs_at(hay@, needle@, q) by {
                    if 0 <= q && q + needle@.len() <= hay@.len() {
                        assert(q <= at);
                    }
                }
            }
            return false;
        }
        at = at + 1;
    }
    false
}

/// Code-point order of two strings from position `i` on: the order `String`
/// comparison gives.
pub open spec fn lex_from(a: Seq<char>, b: Seq<char>, i: int) -> int
    decreases a.len() - i,
{
    if i >= a.len() && i >= b.len() {
        0
    } else if i >= a.len() {
        -1
    } else if i >= b.len() {
        1
    } else if a[i] != b[i] {
        three_way(a[i] as int, b[i] as int)
    } else {
        lex_from(a, b, i + 1)
    }
}

/// Code-point order of two strings.
pub open spec fn lex_order(a: Seq<char>, b: Seq<char>) -> int {
    lex_from(a, b, 0)
}

/// Code-point order is antisymmetric: comparing the other way round gives the
/// opposite answer, and every answer is -1, 0 or 1.
pub proof fn lemma_lex_antisymmetric(a: Seq<char>, b: Seq<char>, i: int)
    ensures
        lex_from(a, b, i) == -lex_from(b, a, i),
        -1 <= lex_from(a, b, i) <= 1,
    decreases a.len() - i,
{
    if i >= a.len() || i >= b.len() {
    } else if a[i] != b[i] {
    } else {
        lemma_lex_antisymmetric(a, b, i + 1);
    }
}

/// Code-point order is transitive.
pub proof fn lemma_lex_transitive(a: Seq<char>, b: Seq<char>, c: Seq<char>, i: int)
    requires
        0 <= i,
        lex_from(a, b, i) == -1,
        lex_from(b, c, i) == -1,
    ensures
        lex_from(a, c, i) == -1,
    decreases a.len() - i,
{
    if i < a.len() && i < b.len() && i < c.len() && a[i] == b[i] && b[i] == c[i] {
        lemma_lex_transitive(a, b, c, i + 1);
    }
}

/// From a position on, strings equal in code-point order have the same rest.
pub proof fn lemma_lex_equal(a: Seq<char>, b: Seq<char>, i: int)
    requires
        0 <= i <= a.len(),
        i <= b.len(),
        lex_from(a, b, i) == 0,
    ensures
        a.len() == b.len(),
        a.subrange(i, a.len() as int) == b.subrange(i, b.len() as int),
    decreases a.len() - i,
{
    if i < a.len() && i < b.len() {
        lemma_lex_equal(a, b, i + 1);
        assert(a.subrange(i, a.len() as int) =~= seq![a[i]] + a.subrange(i + 1, a.len() as int));
        assert(b.subrange(i, b.len() as int) =~= seq![b[i]] + b.subrange(i + 1, b.len() as int));
    }
}

/// Strings equal in code-point order are the same string.
pub proof fn lemma_lex_zero_equal(a: Seq<char>, b: Seq<char>)
    requires
        lex_order(a, b) == 0,
    ensures
        a == b,
{
    lemma_lex_equal(a, b, 0);
    assert(a =~= a.subrange(0, a.len() as int));
    assert(b =~= b.subrange(0, b.len() as int));
}

/// "Not after" in code-point order is transitive.
pub proof fn lemma_lex_le_transitive(a: Seq<char>, b: Seq<char>, c: Seq<char>)
    requires
        lex_order(a, b) <= 0,
        lex_order(b, c) <= 0,
    ensures
        lex_order(a, c) <= 0,
{
    lemma_lex_antisymmetric(a, b, 0);
    lemma_lex_antisymmetric(b, c, 0);
    if lex_order(a, b) == 0 {
        lemma_lex_zero_equal(a, b);
    } else if lex_order(b, c) == 0 {
        lemma_lex_zero_equal(b, c);
    } else {
        lemma_lex_transitive(a, b, c, 0);
    }
}

/// A string is equal to itself in code-point order.
pub proof fn lemma_lex_reflexive(a: Seq<char>, i: int)
    requires
        0 <= i,
    ensures
        lex_from(a, a, i) == 0,
    decreases a.len() - i,
{
    if i < a.len() {
        lemma_lex_reflexive(a, i + 1);
    }
}

/// Compares two strings character by character.
pub fn compare_chars(a: &Vec<char>, b: &Vec<char>) -> (c: i8)
    ensures
        c == lex_order(a@, b@),
        -1 <= c <= 1,
{
    proof {
        lemma_lex_antisymmetric(a@, b@, 0);
    }
    let mut i: usize = 0;
    loop
        invariant
            lex_from(a@, b@, 0) == lex_from(a@, b@, i as int),
            i <= a@.len(),
            i <= b@.len(),
        decreases a@.len() - i,
    {
        if i >= a.len() && i >= b.len() {
            return 0;
        } else if i >= a.len() {
            return -1;
        } else if i >= b.len() {
            return 1;
        } else if a[i] != b[i] {
            return if a[i] < b[i] {
                -1
            } else {
                1
            };
        }
        i = i + 1;
    }
}

pub open spec fn is_digit(c: char) -> bool {
    '0' <= c && c <= '9'
}

/// End of the run of digits starting at `i`.
pub open spec fn run_end(a: Seq<char>, i: int) -> int
    decreases a.len() - i,
{
    if 0 <= i < a.len() && is_digit(a[i]) {
        run_end(a, i + 1)
    } else {
        i
    }
}

/// End of the leading zeros of `a[i..e]`.
pub open spec fn zeros_end(a: Seq<char>, i: int, e: int) -> int
    decreases e - i,
{
    if i < e && a[i] == '0' {
        zeros_end(a, i + 1, e)
    } else {
        i
    }
}

/// Character order of `k` characters of `a` from `i` and of `b` from `j`.
pub open spec fn digits_order(a: Seq<char>, i: int, b: Seq<char>, j: int, k: int) -> int
    decreases k,
{
    if k <= 0 {
        0
    } else if a[i] != b[j] {
        three_way(a[i] as int, b[j] as int)
    } else {
        digits_order(a, i + 1, b, j + 1, k - 1)
    }
}

/// Numeric order of the digit runs `a[i..ea]` and `b[j..eb]`: leading zeros
/// do not count, a longer number is larger, and equal lengths compare digit
/// by digit.
pub open spec fn numeric_order(a: Seq<char>, i: int, ea: int, b: Seq<char>, j: int, eb: int) -> int {
    let za = zeros_end(a, i, ea);
    let zb = zeros_end(b, j, eb);
    if ea - za != eb - zb {
        three_way(ea - za, eb - zb)
    } else {
        digits_order(a, za, b, zb, ea - za)
    }
}

/// A run of digits ends within the string, and holds only digits.
pub proof fn lemma_run_end(a: Seq<char>, i: int)
    requires
        0 <= i,
    ensures
        i <= run_end(a, i),
        run_end(a, i) <= a.len() || run_end(a, i) == i,
        0 <= i < a.len() && is_digit(a[i]) ==> i < run_end(a, i),
        forall|k: int| i <= k < run_end(a, i) ==> is_digit(a[k]),
    decreases a.len() - i,
{
    if 0 <= i < a.len() && is_digit(a[i]) {
        lemma_run_end(a, i + 1);
    }
}

proof fn lemma_zeros_end(a: Seq<char>, i: int, e: int)
    requires
        i <= e,
    ensures
        i <= zeros_end(a, i, e) <= e,
    decreases e - i,
{
    if i < e && a[i] == '0' {
        lemma_zeros_end(a, i + 1, e);
    }
}

/// Natural order of two names from positions `i` and `j` on: runs of digits
/// compare as numbers, everything else character by character, and a name
/// that runs out first sorts first.
pub open spec fn natural_from(a: Seq<char>, b: Seq<char>, i: int, j: int) -> int
    decreases a.len() - i + b.len() - j,
{
    if i < 0 || j < 0 {
        0
    } else if i >= a.len() && j >= b.len() {
        0
    } else if i >= a.len() {
        -1
    } else if j >= b.len() {
        1
    } else if is_digit(a[i]) && is_digit(b[j]) {
        let ea = run_end(a, i);
        let eb = run_end(b, j);
        let c = numeric_order(a, i, ea, b, j, eb);
        if c != 0 {
            c
        } else {
            proof {
                lemma_run_end(a, i);
                lemma_run_end(b, j);
            }
            natural_from(a, b, ea, eb)
        }
    } else if a[i] != b[j] {
        three_way(a[i] as int, b[j] as int)
    } else {
        natural_from(a, b, i + 1, j + 1)
    }
}

/// Natural order of two names ("Ch.9" before "Ch.10").
pub open spec fn natural_order(a: Seq<char>, b: Seq<char>) -> int {
    natural_from(a, b, 0, 0)
}

proof fn lemma_digits_antisymmetric(a: Seq<char>, i: int, b: Seq<char>, j: int, k: int)
    ensures
        digits_order(a, i, b, j, k) == -digits_order(b, j, a, i, k),
        -1 <= digits_order(a, i, b, j, k) <= 1,
    decreases k,
{
    if k <= 0 {
    } else if a[i] != b[j] {
    } else {
        lemma_digits_antisymmetric(a, i + 1, b, j + 1, k - 1);
    }
}

/// Natural order is antisymmetric: comparing the other way round gives the
/// opposite answer, and every answer is -1, 0 or 1.
pub proof fn lemma_natural_antisymmetric(a: Seq<char>, b: Seq<char>, i: int, j: int)
    ensures
        natural_from(a, b, i, j) == -natural_from(b, a, j, i),
        -1 <= natural_from(a, b, i, j) <= 1,
    decreases a.len() - i + b.len() - j,
{
    if i < 0 || j < 0 {
    } else if i >= a.len() || j >= b.len() {
    } else if is_digit(a[i]) && is_digit(b[j]) {
        let ea = run_end(a, i);
        let eb = run_end(b, j);
        lemma_run_end(a, i);
        lemma_run_end(b, j);
        let za = zeros_end(a, i, ea);
        let zb = zeros_end(b, j, eb);
        lemma_digits_antisymmetric(a, za, b, zb, ea - za);
        if numeric_order(a, i, ea, b, j, eb) == 0 {
            lemma_natural_antisymmetric(a, b, ea, eb);
        }
    } else if a[i] != b[j] {
    } else {
        lemma_natural_antisymmetric(a, b, i + 1, j + 1);
    }
}

proof fn lemma_digits_transitive(
    a: Seq<char>,
    i: int,
    b: Seq<char>,
    j: int,
    c: Seq<char>,
    m: int,
    k: int,
)
    requires
        digits_order(a, i, b, j, k) <= 0,
        digits_order(b, j, c, m, k) <= 0,
    ensures
        digits_order(a, i, c, m, k) <= 0,
        (digits_order(a, i, b, j, k) < 0 || digits_order(b, j, c, m, k) < 0) ==> digits_order(
            a,
            i,
            c,
            m,
            k,
        ) < 0,
    decreases k,
{
    if k > 0 && a[i] == b[j] && b[j] == c[m] {
        lemma_digits_transitive(a, i + 1, b, j + 1, c, m + 1, k - 1);
    }
}

proof fn lemma_numeric_transitive(
    a: Seq<char>,
    i: int,
    ea: int,
    b: Seq<char>,
    j: int,
    eb: int,
    c: Seq<char>,
    k: int,
    ec: int,
)
    requires
        i <= ea,
        j <= eb,
        k <= ec,
        numeric_order(a, i, ea, b, j, eb) <= 0,
        numeric_order(b, j, eb, c, k, ec) <= 0,
    ensures
        numeric_order(a, i, ea, c, k, ec) <= 0,
        (numeric_order(a, i, ea, b, j, eb) < 0 || numeric_order(b, j, eb, c, k, ec) < 0)
            ==> numeric_order(a, i, ea, c, k, ec) < 0,
{
    let za = zeros_end(a, i, ea);
    let zb = zeros_end(b, j, eb);
    let zc = zeros_end(c, k, ec);
    lemma_zeros_end(a, i, ea);
    lemma_zeros_end(b, j, eb);
    lemma_zeros_end(c, k, ec);
    if ea - za == eb - zb && eb - zb == ec - zc {
        lemma_digits_transitive(a, za, b, zb, c, zc, ea - za);
    }
}

/// "Not after" in natural order is transitive.
pub proof fn lemma_natural_transitive(
    a: Seq<char>,
    b: Seq<char>,
    c: Seq<char>,
    i: int,
    j: int,
    k: int,
)
    requires
        0 <= i,
        0 <= j,
        0 <= k,
        natural_from(a, b, i, j) <= 0,
        natural_from(b, c, j, k) <= 0,
    ensures
        natural_from(a, c, i, k) <= 0,
    decreases a.len() - i + b.len() - j + c.len() - k,
{
    if i >= a.len() || j >= b.len() || k >= c.len() {
    } else {
        let (x, y, z) = (a[i], b[j], c[k]);
        if is_digit(x) && is_digit(y) && is_digit(z) {
            let ea = run_end(a, i);
            let eb = run_end(b, j);
            let ec = run_end(c, k);
            lemma_run_end(a, i);
            lemma_run_end(b, j);
            lemma_run_end(c, k);
            lemma_numeric_transitive(a, i, ea, b, j, eb, c, k, ec);
            if numeric_order(a, i, ea, b, j, eb) == 0 && numeric_order(b, j, eb, c, k, ec) == 0 {
                lemma_natural_transitive(a, b, c, ea, eb, ec);
            }
        } else if !is_digit(x) && !is_digit(y) && !is_digit(z) && x == y && y == z {
            lemma_natural_transitive(a, b, c, i + 1, j + 1, k + 1);
        } else if is_digit(x) && is_digit(y) {
            lemma_run_end(a, i);
            lemma_run_end(b, j);
        } else if is_digit(y) && is_digit(z) {
            lemma_run_end(b, j);
            lemma_run_end(c, k);
        } else if is_digit(x) && is_digit(z) {
            lemma_run_end(a, i);
            lemma_run_end(c, k);
        }
    }
}

fn digit(c: char) -> (b: bool)
    ensures
        b == is_digit(c),
{
    '0' <= c && c <= '9'
}

fn find_run_end(a: &Vec<char>, i: usize) -> (e: usize)
    ensures
        e == run_end(a@, i as int),
{
    let mut k = i;
    while k < a.len() && digit(a[k])
        invariant
            i <= k,
            run_end(a@, i as int) == run_end(a@, k as int),
        decreases a@.len() - k,
    {
        k = k + 1;
    }
    k
}

fn find_zeros_end(a: &Vec<char>, i: usize, e: usize) -> (z: usize)
    requires
        i <= e <= a@.len(),
    ensures
        z == zeros_end(a@, i as int, e as int),
{
    let mut k = i;
    while k < e && a[k] == '0'
        invariant
            i <= k <= e,
            e <= a@.len(),
            zeros_end(a@, i as int, e as int) == zeros_end(a@, k as int, e as int),
        decreases e - k,
    {
        k = k + 1;
    }
    k
}

fn compare_numbers(a: &Vec<char>, i: usize, ea: usize, b: &Vec<char>, j: usize, eb: usize) -> (c: i8)
    requires
        i <= ea <= a@.len(),
        j <= eb <= b@.len(),
    ensures
        c == numeric_order(a@, i as int, ea as int, b@, j as int, eb as int),
        -1 <= c <= 1,
{
    let za = find_zeros_end(a, i, ea);
    let zb = find_zeros_end(b, j, eb);
    proof {
        lemma_zeros_end(a@, i as int, ea as int);
        lemma_zeros_end(b@, j as int, eb as int);
    }
    let la = ea - za;
    let lb = eb - zb;
    proof {
        lemma_digits_antisymmetric(a@, za as int, b@, zb as int, la as int);
    }
    if la < lb {
        return -1;
    }
    if la > lb {
        return 1;
    }
    let alen = a.len();
    let blen = b.len();
    let mut k: usize = 0;
    while k < la
        invariant
            alen == a@.len(),
            blen == b@.len(),
            0 <= k <= la,
            numeric_order(a@, i as int, ea as int, b@, j as int, eb as int) == digits_order(
                a@,
                za as int,
                b@,
                zb as int,
                la as int,
            ),
            za + la <= a@.len(),
            zb + la <= b@.len(),
            digits_order(a@, za as int, b@, zb as int, la as int) == digits_order(
                a@,
                za + k,
                b@,
                zb + k,
                la - k,
            ),
        decreases la - k,
    {
        if a[za + k] != b[zb + k] {
            proof {
                assert(digits_order(a@, za + k, b@, zb + k, la - k) == three_way(
                    a@[za + k] as int,
                    b@[zb + k] as int,
                ));
            }
            return if a[za + k] < b[zb + k] {
                -1
            } else {
                1
            };
        }
        k = k + 1;
    }
    0
}

/// Compares two names in natural order.
pub fn compare_natural(a: &Vec<char>, b: &Vec<char>) -> (c: i8)
    ensures
        c == natural_order(a@, b@),
        -1 <= c <= 1,
{
    proof {
        lemma_natural_antisymmetric(a@, b@, 0, 0);
    }
    let mut i: usize = 0;
    let mut j: usize = 0;
    loop
        invariant
            natural_from(a@, b@, 0, 0) == natural_from(a@, b@, i as int, j as int),
            i <= a@.len(),
            j <= b@.len(),
        decreases a@.len() - i + b@.len() - j,
    {
        if i >= a.len() && j >= b.len() {
            return 0;
        } else if i >= a.len() {
            return -1;
        } else if j >= b.len() {
            return 1;
        }
        if digit(a[i]) && digit(b[j]) {
            let ea = find_run_end(a, i);
            let eb = find_run_end(b, j);
            proof {
                lemma_run_end(a@, i as int);
                lemma_run_end(b@, j as int);
            }
            let c = compare_numbers(a, i, ea, b, j, eb);
            if c != 0 {
                return c;
            }
            i = ea;
            j = eb;
        } else if a[i] != b[j] {
            return if a[i] < b[j] {
                -1
            } else {
                1
            };
        } else {
            i = i + 1;
            j = j + 1;
        }
    }
}

/// Whether two strings are the same text.
pub fn same_text(a: &str, b: &str) -> (r: bool)
    ensures
        r == (a@ == b@),
{
    let x = chars_of(a);
    let y = chars_of(b);
    if x.len() != y.len() {
        proof {
            assert(a@.len() != b@.len());
        }
        return false;
    }
    let mut i: usize = 0;
    while i < x.len()
        invariant
            x@ == a@,
            y@ == b@,
            x@.len() == y@.len(),
            0 <= i <= x@.len(),
            forall|k: int| 0 <= k < i ==> x@[k] == y@[k],
        decreases x@.len() - i,
    {
        if x[i] != y[i] {
            proof {
                assert(a@[i as int] != b@[i as int]);
            }
            return false;
        }
        i = i + 1;
    }
    proof {
        assert(x@ =~= y@);
    }
    true
}

} // verus!
