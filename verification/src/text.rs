//! Text primitives over `Seq<char>`: trimming, case folding, searching, splitting and
//! decimal numbers.

use vstd::prelude::*;
use vstd::string::*;

verus! {

/// `String::push` appends the given character to the end of the string.
pub assume_specification[ String::push ](s: &mut String, c: char)
    ensures
        final(s)@ == old(s)@.push(c),
;

/// The code points with the Unicode property `White_Space`.
pub open spec fn is_space(c: char) -> bool {
    let n = c as u32;
    ||| 0x09 <= n <= 0x0d
    ||| n == 0x20
    ||| n == 0x85
    ||| n == 0xa0
    ||| n == 0x1680
    ||| 0x2000 <= n <= 0x200a
    ||| n == 0x2028
    ||| n == 0x2029
    ||| n == 0x202f
    ||| n == 0x205f
    ||| n == 0x3000
}

/// Tells whether a character is Unicode white space.
pub fn is_whitespace(c: char) -> (r: bool)
    ensures
        r == is_space(c),
{
    let n: u32 = c as u32;
    (0x09 <= n && n <= 0x0d) || n == 0x20 || n == 0x85 || n == 0xa0 || n == 0x1680 || (0x2000 <= n
        && n <= 0x200a) || n == 0x2028 || n == 0x2029 || n == 0x202f || n == 0x205f || n == 0x3000
}

/// ASCII lower case of one character.
pub open spec fn lower_char(c: char) -> char {
    if 'A' <= c <= 'Z' {
        (c as u32 + 32) as char
    } else {
        c
    }
}

/// ASCII lower case of a text.
pub open spec fn lower(s: Seq<char>) -> Seq<char> {
    Seq::new(s.len(), |i: int| lower_char(s[i]))
}

/// The characters of a string, in order.
pub fn to_chars(s: &str) -> (r: Vec<char>)
    ensures
        r@ == s@,
{
    let mut out: Vec<char> = Vec::new();
    for c in it: s.chars()
        invariant
            out@ == it.seq().take(it.index() as int),
            it.seq() == s@,
    {
        out.push(c);
        proof {
            assert(it.seq().take(it.index() + 1) =~= it.seq().take(it.index() as int).push(c));
        }
    }
    proof {
        assert(s@.take(s@.len() as int) =~= s@);
    }
    out
}

/// The string made of `chars[from..to]`.
pub fn from_chars(chars: &Vec<char>, from: usize, to: usize) -> (r: String)
    requires
        from <= to <= chars@.len(),
    ensures
        r@ == chars@.subrange(from as int, to as int),
{
    let mut out: String = String::new();
    let mut i: usize = from;
    while i < to
        invariant
            from <= i <= to <= chars@.len(),
            out@ == chars@.subrange(from as int, i as int),
        decreases to - i,
    {
        out.push(chars[i]);
        proof {
            assert(chars@.subrange(from as int, i + 1) =~= chars@.subrange(
                from as int,
                i as int,
            ).push(chars@[i as int]));
        }
        i = i + 1;
    }
    out
}

fn lower_one(c: char) -> (r: char)
    ensures
        r == lower_char(c),
{
    if 'A' <= c && c <= 'Z' {
        (c as u8 + 32) as char
    } else {
        c
    }
}

/// The text with its ASCII letters in lower case.
pub fn to_ascii_lowercase(s: &str) -> (r: String)
    ensures
        r@ == lower(s@),
{
    let chars = to_chars(s);
    let mut out: String = String::new();
    let mut i: usize = 0;
    while i < chars.len()
        invariant
            chars@ == s@,
            i <= chars@.len(),
            out@ == lower(s@).take(i as int),
        decreases chars@.len() - i,
    {
        out.push(lower_one(chars[i]));
        proof {
            assert(lower(s@).take(i + 1) =~= lower(s@).take(i as int).push(lower_char(s@[i as int])));
        }
        i = i + 1;
    }
    proof {
        assert(lower(s@).take(s@.len() as int) =~= lower(s@));
    }
    out
}

/// The text without its leading white space.
pub open spec fn trim_start_spec(s: Seq<char>) -> Seq<char>
    decreases s.len(),
{
    if s.len() > 0 && is_space(s[0]) {
        trim_start_spec(s.subrange(1, s.len() as int))
    } else {
        s
    }
}

/// The text without its trailing white space.
pub open spec fn trim_end_spec(s: Seq<char>) -> Seq<char>
    decreases s.len(),
{
    if s.len() > 0 && is_space(s[s.len() - 1]) {
        trim_end_spec(s.subrange(0, s.len() - 1))
    } else {
        s
    }
}

/// The text without leading and trailing white space.
pub open spec fn trimmed(s: Seq<char>) -> Seq<char> {
    trim_end_spec(trim_start_spec(s))
}

/// A text is blank when it holds nothing but white space.
pub open spec fn blank(s: Seq<char>) -> bool {
    forall|i: int| 0 <= i < s.len() ==> is_space(#[trigger] s[i])
}

proof fn lemma_trim_start_cut(s: Seq<char>, k: int)
    requires
        0 <= k <= s.len(),
        forall|i: int| 0 <= i < k ==> is_space(#[trigger] s[i]),
        k < s.len() ==> !is_space(s[k]),
    ensures
        trim_start_spec(s) == s.subrange(k, s.len() as int),
    decreases k,
{
    if k > 0 {
        let t = s.subrange(1, s.len() as int);
        lemma_trim_start_cut(t, k - 1);
        assert(t.subrange(k - 1, t.len() as int) =~= s.subrange(k, s.len() as int));
    } else {
        assert(s.subrange(0, s.len() as int) =~= s);
    }
}

proof fn lemma_trim_end_cut(s: Seq<char>, k: int)
    requires
        0 <= k <= s.len(),
        forall|i: int| k <= i < s.len() ==> is_space(#[trigger] s[i]),
        k > 0 ==> !is_space(s[k - 1]),
    ensures
        trim_end_spec(s) == s.subrange(0, k),
    decreases s.len() - k,
{
    if k < s.len() {
        let t = s.subrange(0, s.len() - 1);
        lemma_trim_end_cut(t, k);
        assert(t.subrange(0, k) =~= s.subrange(0, k));
    } else {
        assert(s.subrange(0, k) =~= s);
    }
}

/// Trimming keeps a window of the text: everything outside it is white space, and the window
/// neither starts nor ends with white space.
pub proof fn lemma_trimmed_window(s: Seq<char>) -> (w: (int, int))
    ensures
        0 <= w.0 <= w.1 <= s.len(),
        trimmed(s) == s.subrange(w.0, w.1),
        forall|i: int| 0 <= i < w.0 ==> is_space(#[trigger] s[i]),
        forall|i: int| w.1 <= i < s.len() ==> is_space(#[trigger] s[i]),
        w.0 < w.1 ==> !is_space(s[w.0]) && !is_space(s[w.1 - 1]),
{
    let k = trim_start_len(s);
    lemma_trim_start_len(s);
    lemma_trim_start_cut(s, k);
    let t = s.subrange(k, s.len() as int);
    let e = trim_end_len(t);
    lemma_trim_end_len(t);
    lemma_trim_end_cut(t, e);
    assert(t.subrange(0, e) =~= s.subrange(k, k + e));
    assert forall|i: int| k + e <= i < s.len() implies is_space(#[trigger] s[i]) by {
        assert(t[i - k] == s[i]);
    }
    if e > 0 {
        assert(t[e - 1] == s[k + e - 1]);
    }
    (k, k + e)
}

spec fn trim_start_len(s: Seq<char>) -> int
    decreases s.len(),
{
    if s.len() > 0 && is_space(s[0]) {
        1 + trim_start_len(s.subrange(1, s.len() as int))
    } else {
        0
    }
}

proof fn lemma_trim_start_len(s: Seq<char>)
    ensures
        0 <= trim_start_len(s) <= s.len(),
        forall|i: int| 0 <= i < trim_start_len(s) ==> is_space(#[trigger] s[i]),
        trim_start_len(s) < s.len() ==> !is_space(s[trim_start_len(s)]),
    decreases s.len(),
{
    if s.len() > 0 && is_space(s[0]) {
        let t = s.subrange(1, s.len() as int);
        lemma_trim_start_len(t);
        assert forall|i: int| 0 <= i < trim_start_len(s) implies is_space(#[trigger] s[i]) by {
            if i > 0 {
                assert(t[i - 1] == s[i]);
            }
        }
    }
}

spec fn trim_end_len(s: Seq<char>) -> int
    decreases s.len(),
{
    if s.len() > 0 && is_space(s[s.len() - 1]) {
        trim_end_len(s.subrange(0, s.len() - 1))
    } else {
        s.len() as int
    }
}

proof fn lemma_trim_end_len(s: Seq<char>)
    ensures
        0 <= trim_end_len(s) <= s.len(),
        forall|i: int| trim_end_len(s) <= i < s.len() ==> is_space(#[trigger] s[i]),
        trim_end_len(s) > 0 ==> !is_space(s[trim_end_len(s) - 1]),
    decreases s.len(),
{
    if s.len() > 0 && is_space(s[s.len() - 1]) {
        let t = s.subrange(0, s.len() - 1);
        lemma_trim_end_len(t);
        assert forall|i: int| trim_end_len(s) <= i < s.len() implies is_space(#[trigger] s[i]) by {
            if i < s.len() - 1 {
                assert(t[i] == s[i]);
            }
        }
    }
}

/// A text that neither starts nor ends with white space is its own trimmed form.
pub proof fn lemma_trimmed_fixed(s: Seq<char>)
    requires
        s.len() > 0 ==> !is_space(s[0]) && !is_space(s[s.len() - 1]),
    ensures
        trimmed(s) == s,
{
    lemma_trim_start_cut(s, 0);
    assert(s.subrange(0, s.len() as int) =~= s);
    lemma_trim_end_cut(s, s.len() as int);
}

/// Trimming twice is trimming once.
pub proof fn lemma_trimmed_idempotent(s: Seq<char>)
    ensures
        trimmed(trimmed(s)) == trimmed(s),
{
    let w = lemma_trimmed_window(s);
    lemma_trimmed_fixed(trimmed(s));
}

/// Nothing is left of a text after trimming exactly when it is blank.
pub proof fn lemma_trimmed_empty(s: Seq<char>)
    ensures
        trimmed(s).len() == 0 <==> blank(s),
{
    let w = lemma_trimmed_window(s);
    if blank(s) {
        assert(w.0 >= w.1);
    }
}

/// The text without leading and trailing white space.
pub fn trim(s: &str) -> (r: &str)
    ensures
        r@ == trimmed(s@),
{
    let chars = to_chars(s);
    let n: usize = chars.len();
    let mut from: usize = 0;
    while from < n && is_whitespace(chars[from])
        invariant
            n == chars@.len(),
            from <= n,
            forall|i: int| 0 <= i < from ==> is_space(#[trigger] chars@[i]),
        ensures
            from < n ==> !is_space(chars@[from as int]),
        decreases n - from,
    {
        from = from + 1;
    }
    let mut to: usize = n;
    while to > from && is_whitespace(chars[to - 1])
        invariant
            n == chars@.len(),
            from <= to <= n,
            forall|i: int| to <= i < n ==> is_space(#[trigger] chars@[i]),
        ensures
            to > from ==> !is_space(chars@[to - 1]),
        decreases to,
    {
        to = to - 1;
    }
    proof {
        lemma_trim_start_cut(s@, from as int);
        let t = s@.subrange(from as int, n as int);
        assert forall|i: int| to - from <= i < t.len() implies is_space(#[trigger] t[i]) by {
            assert(t[i] == chars@[i + from]);
        }
        lemma_trim_end_cut(t, to - from);
        assert(t.subrange(0, to - from) =~= s@.subrange(from as int, to as int));
    }
    s.substring_char(from, to)
}

/// The text without its trailing white space.
pub fn trim_end(s: &str) -> (r: &str)
    ensures
        r@ == trim_end_spec(s@),
{
    let chars = to_chars(s);
    let mut to: usize = chars.len();
    while to > 0 && is_whitespace(chars[to - 1])
        invariant
            to <= chars@.len(),
            forall|i: int| to <= i < chars@.len() ==> is_space(#[trigger] chars@[i]),
        ensures
            to > 0 ==> !is_space(chars@[to - 1]),
        decreases to,
    {
        to = to - 1;
    }
    proof {
        lemma_trim_end_cut(s@, to as int);
    }
    s.substring_char(0, to)
}

/// Tells whether a text holds nothing but white space.
pub fn is_blank(s: &str) -> (r: bool)
    ensures
        r == blank(s@),
{
    proof {
        lemma_trimmed_empty(s@);
    }
    trim(s).is_empty()
}

/// Text equality.
pub fn same(a: &str, b: &str) -> (r: bool)
    ensures
        r == (a@ == b@),
{
    let left = to_chars(a);
    let right = to_chars(b);
    if left.len() != right.len() {
        return false;
    }
    let mut i: usize = 0;
    while i < left.len()
        invariant
            left@ == a@,
            right@ == b@,
            left@.len() == right@.len(),
            i <= left@.len(),
            forall|j: int| 0 <= j < i ==> left@[j] == right@[j],
        decreases left@.len() - i,
    {
        if left[i] != right[i] {
            return false;
        }
        i = i + 1;
    }
    proof {
        assert(a@ =~= b@);
    }
    true
}

/// Lexicographic order of texts by code point: `a` comes strictly before `b`.
pub open spec fn text_lt(a: Seq<char>, b: Seq<char>) -> bool
    decreases a.len(),
{
    if b.len() == 0 {
        false
    } else if a.len() == 0 {
        true
    } else if a[0] != b[0] {
        a[0] < b[0]
    } else {
        text_lt(a.subrange(1, a.len() as int), b.subrange(1, b.len() as int))
    }
}

/// The lexicographic order is irreflexive.
pub proof fn lemma_text_lt_irreflexive(a: Seq<char>)
    ensures
        !text_lt(a, a),
    decreases a.len(),
{
    if a.len() > 0 {
        lemma_text_lt_irreflexive(a.subrange(1, a.len() as int));
    }
}

/// The lexicographic order is transitive.
pub proof fn lemma_text_lt_transitive(a: Seq<char>, b: Seq<char>, c: Seq<char>)
    requires
        text_lt(a, b),
        text_lt(b, c),
    ensures
        text_lt(a, c),
    decreases a.len(),
{
    if a.len() > 0 && a[0] == b[0] && b[0] == c[0] {
        lemma_text_lt_transitive(
            a.subrange(1, a.len() as int),
            b.subrange(1, b.len() as int),
            c.subrange(1, c.len() as int),
        );
    }
}

/// Of two different texts exactly one comes first.
pub proof fn lemma_text_lt_total(a: Seq<char>, b: Seq<char>)
    ensures
        a == b || text_lt(a, b) || text_lt(b, a),
        !(text_lt(a, b) && text_lt(b, a)),
    decreases a.len(),
{
    if a.len() == 0 && b.len() == 0 {
        assert(a =~= b);
    } else if a.len() > 0 && b.len() > 0 && a[0] == b[0] {
        let x = a.subrange(1, a.len() as int);
        let y = b.subrange(1, b.len() as int);
        lemma_text_lt_total(x, y);
        if x == y {
            assert(a =~= seq![a[0]] + x);
            assert(b =~= seq![b[0]] + y);
        }
    }
}

/// Tells whether `a` comes strictly before `b` in lexicographic order.
pub fn comes_before(a: &str, b: &str) -> (r: bool)
    ensures
        r == text_lt(a@, b@),
{
    let left = to_chars(a);
    let right = to_chars(b);
    let mut i: usize = 0;
    proof {
        assert(a@.subrange(0, a@.len() as int) =~= a@);
        assert(b@.subrange(0, b@.len() as int) =~= b@);
    }
    while i < left.len() && i < right.len()
        invariant
            left@ == a@,
            right@ == b@,
            i <= left@.len(),
            i <= right@.len(),
            text_lt(a@, b@) == text_lt(
                a@.subrange(i as int, a@.len() as int),
                b@.subrange(i as int, b@.len() as int),
            ),
        decreases left@.len() - i,
    {
        proof {
            let x = a@.subrange(i as int, a@.len() as int);
            let y = b@.subrange(i as int, b@.len() as int);
            assert(x.subrange(1, x.len() as int) =~= a@.subrange(i + 1, a@.len() as int));
            assert(y.subrange(1, y.len() as int) =~= b@.subrange(i + 1, b@.len() as int));
        }
        if left[i] != right[i] {
            return left[i] < right[i];
        }
        i = i + 1;
    }
    i < right.len()
}

/// The character of one decimal digit.
pub open spec fn digit_char(d: nat) -> char {
    (48 + d) as char
}

/// The decimal notation of a number.
pub open spec fn decimal(n: nat) -> Seq<char>
    decreases n,
{
    if n < 10 {
        seq![digit_char(n)]
    } else {
        decimal(n / 10).push(digit_char(n % 10))
    }
}

/// The decimal notation of a number.
pub fn u64_text(n: u64) -> (r: String)
    ensures
        r@ == decimal(n as nat),
    decreases n,
{
    let mut out: String = if n < 10 {
        String::new()
    } else {
        u64_text(n / 10)
    };
    let d: u8 = (n % 10) as u8;
    out.push((48 + d) as char);
    proof {
        assert(n < 10 ==> out@ =~= seq![digit_char(n as nat)]);
    }
    out
}

/// The decimal notation of a signed number.
pub open spec fn signed_decimal(n: int) -> Seq<char> {
    if n < 0 {
        seq!['-'] + decimal((-n) as nat)
    } else {
        decimal(n as nat)
    }
}

/// The decimal notation of a signed number.
pub fn i64_text(n: i64) -> (r: String)
    ensures
        r@ == signed_decimal(n as int),
{
    if n >= 0 {
        return u64_text(n as u64);
    }
    let magnitude: u64 = if n == i64::MIN {
        9_223_372_036_854_775_808
    } else {
        (-n) as u64
    };
    let mut out: String = String::new();
    out.push('-');
    out.append(u64_text(magnitude).as_str());
    proof {
        assert(out@ =~= seq!['-'] + decimal((-n) as nat));
    }
    out
}

/// A non-empty run of decimal digits.
pub open spec fn is_digits(s: Seq<char>) -> bool {
    s.len() > 0 && forall|i: int| 0 <= i < s.len() ==> '0' <= #[trigger] s[i] <= '9'
}

/// The number that a run of decimal digits stands for.
pub open spec fn digits_value(s: Seq<char>) -> nat
    decreases s.len(),
{
    if s.len() == 0 {
        0
    } else {
        digits_value(s.drop_last()) * 10 + (s.last() as u32 - '0' as u32) as nat
    }
}

/// The number that a decimal notation without a minus sign stands for. A plus sign may lead.
pub open spec fn unsigned_value(s: Seq<char>) -> Option<nat> {
    let body = if s.len() > 0 && s[0] == '+' {
        s.subrange(1, s.len() as int)
    } else {
        s
    };
    if is_digits(body) {
        Some(digits_value(body))
    } else {
        None
    }
}

/// The number that a decimal notation stands for. A plus or minus sign may lead.
pub open spec fn signed_value(s: Seq<char>) -> Option<int> {
    if s.len() > 0 && s[0] == '-' {
        let body = s.subrange(1, s.len() as int);
        if is_digits(body) {
            Some(-(digits_value(body) as int))
        } else {
            None
        }
    } else {
        match unsigned_value(s) {
            Some(n) => Some(n as int),
            None => None,
        }
    }
}

proof fn lemma_digits_grow(s: Seq<char>, i: int)
    requires
        is_digits(s),
        0 <= i <= s.len(),
    ensures
        digits_value(s.take(i)) <= digits_value(s),
    decreases s.len() - i,
{
    if i < s.len() {
        lemma_digits_grow(s, i + 1);
        assert(s.take(i + 1).drop_last() =~= s.take(i));
    } else {
        assert(s.take(i) =~= s);
    }
}

/// The number written in `chars[from..]`, where those are digits and the number fits.
fn parse_magnitude(chars: &Vec<char>, from: usize) -> (r: Option<u64>)
    requires
        from <= chars@.len(),
    ensures
        ({
            let body = chars@.subrange(from as int, chars@.len() as int);
            if is_digits(body) && digits_value(body) <= u64::MAX {
                r == Some(digits_value(body) as u64)
            } else {
                r is None
            }
        }),
{
    let ghost body = chars@.subrange(from as int, chars@.len() as int);
    if from == chars.len() {
        return None;
    }
    let mut acc: u64 = 0;
    let mut i: usize = from;
    proof {
        assert(body.take(0) =~= Seq::<char>::empty());
    }
    while i < chars.len()
        invariant
            from <= i <= chars@.len(),
            body == chars@.subrange(from as int, chars@.len() as int),
            body.len() > 0,
            forall|k: int| 0 <= k < i - from ==> '0' <= #[trigger] body[k] <= '9',
            acc == digits_value(body.take(i - from)),
        decreases chars@.len() - i,
    {
        let c: char = chars[i];
        proof {
            assert(body[i - from] == c);
            assert(body.take(i - from + 1).drop_last() =~= body.take(i - from));
            assert(body.take(i - from + 1).last() == c);
        }
        if c < '0' || c > '9' {
            return None;
        }
        let d: u64 = (c as u32 - 48) as u64;
        if acc > (u64::MAX - d) / 10 {
            proof {
                assert(acc * 10 + d > u64::MAX);
                if is_digits(body) {
                    lemma_digits_grow(body, i - from + 1);
                }
            }
            return None;
        }
        acc = acc * 10 + d;
        i = i + 1;
    }
    proof {
        assert(body.take(body.len() as int) =~= body);
    }
    Some(acc)
}

/// Reads an unsigned 64-bit number in decimal notation.
pub fn parse_u64(s: &str) -> (r: Option<u64>)
    ensures
        match unsigned_value(s@) {
            Some(n) => if n <= u64::MAX {
                r == Some(n as u64)
            } else {
                r is None
            },
            None => r is None,
        },
{
    let chars = to_chars(s);
    proof {
        assert(s@.subrange(0, s@.len() as int) =~= s@);
    }
    if chars.len() > 0 && chars[0] == '+' {
        parse_magnitude(&chars, 1)
    } else {
        parse_magnitude(&chars, 0)
    }
}

/// Reads an unsigned 32-bit number in decimal notation.
pub fn parse_u32(s: &str) -> (r: Option<u32>)
    ensures
        match unsigned_value(s@) {
            Some(n) => if n <= u32::MAX {
                r == Some(n as u32)
            } else {
                r is None
            },
            None => r is None,
        },
{
    match parse_u64(s) {
        Some(n) => if n <= u32::MAX as u64 {
            Some(n as u32)
        } else {
            None
        },
        None => None,
    }
}

/// Reads a signed 64-bit number in decimal notation.
pub fn parse_i64(s: &str) -> (r: Option<i64>)
    ensures
        match signed_value(s@) {
            Some(n) => if i64::MIN <= n <= i64::MAX {
                r == Some(n as i64)
            } else {
                r is None
            },
            None => r is None,
        },
{
    let chars = to_chars(s);
    if chars.len() > 0 && chars[0] == '-' {
        match parse_magnitude(&chars, 1) {
            Some(n) => if n <= i64::MAX as u64 {
                Some(-(n as i64))
            } else if n == i64::MAX as u64 + 1 {
                Some(i64::MIN)
            } else {
                None
            },
            None => None,
        }
    } else {
        match parse_u64(s) {
            Some(n) => if n <= i64::MAX as u64 {
                Some(n as i64)
            } else {
                None
            },
            None => None,
        }
    }
}

/// The views of a sequence of strings.
pub open spec fn texts(items: Seq<String>) -> Seq<Seq<char>> {
    Seq::new(items.len(), |i: int| items[i]@)
}

/// The view of an optional string.
pub open spec fn opt_text(item: Option<String>) -> Option<Seq<char>> {
    match item {
        Some(text) => Some(text@),
        None => None,
    }
}

/// The model of an optional borrowed text.
pub open spec fn opt_str(value: Option<&str>) -> Option<Seq<char>> {
    match value {
        Some(s) => Some(s@),
        None => None,
    }
}

/// A copy of an optional string.
pub fn clone_opt(item: &Option<String>) -> (r: Option<String>)
    ensures
        opt_text(r) == opt_text(*item),
{
    match item {
        Some(text) => Some(text.clone()),
        None => None,
    }
}

/// A copy of a list of strings.
pub fn clone_texts(items: &[String]) -> (r: Vec<String>)
    ensures
        texts(r@) == texts(items@),
{
    let mut out: Vec<String> = Vec::new();
    let mut i: usize = 0;
    while i < items.len()
        invariant
            i <= items@.len(),
            out@.len() == i,
            forall|k: int| 0 <= k < i ==> (#[trigger] out@[k])@ == items@[k]@,
        decreases items@.len() - i,
    {
        out.push(items[i].clone());
        i = i + 1;
    }
    proof {
        assert(texts(out@) =~= texts(items@));
    }
    out
}

/// The key under which a tracker state is known: without surrounding white space, in ASCII lower
/// case.
pub open spec fn state_key(state: Seq<char>) -> Seq<char> {
    lower(trimmed(state))
}

/// The key under which a tracker state is known.
pub fn normalize_state(value: &str) -> (r: String)
    ensures
        r@ == state_key(value@),
{
    to_ascii_lowercase(trim(value))
}

/// A state is one of the listed states, up to surrounding white space and ASCII case.
pub open spec fn state_listed(state: Seq<char>, states: Seq<Seq<char>>) -> bool {
    exists|i: int| 0 <= i < states.len() && state_key(#[trigger] states[i]) == state_key(state)
}

/// Tells whether a state is one of the listed states.
pub fn state_matches(current_state: &str, states: &[String]) -> (r: bool)
    ensures
        r == state_listed(current_state@, texts(states@)),
{
    let normalized = normalize_state(current_state);
    let mut i: usize = 0;
    while i < states.len()
        invariant
            i <= states@.len(),
            normalized@ == state_key(current_state@),
            forall|k: int| 0 <= k < i ==> state_key(#[trigger] texts(states@)[k]) != normalized@,
        decreases states@.len() - i,
    {
        let candidate = normalize_state(states[i].as_str());
        if same(candidate.as_str(), normalized.as_str()) {
            proof {
                assert(state_key(texts(states@)[i as int]) == state_key(current_state@));
            }
            return true;
        }
        i = i + 1;
    }
    false
}

/// A state key is its own key.
pub proof fn lemma_state_key_idempotent(state: Seq<char>)
    ensures
        state_key(state_key(state)) == state_key(state),
{
    let w = lemma_trimmed_window(state);
    let t = trimmed(state);
    let k = lower(t);
    if t.len() > 0 {
        assert(k[0] == lower_char(t[0]));
        assert(k[k.len() - 1] == lower_char(t[t.len() - 1]));
    }
    lemma_trimmed_fixed(k);
    assert(lower(k) =~= k);
}

/// Neither surrounding white space nor ASCII case changes whether a state is listed.
pub proof fn lemma_state_listed_by_key(a: Seq<char>, b: Seq<char>, states: Seq<Seq<char>>)
    requires
        state_key(a) == state_key(b),
    ensures
        state_listed(a, states) == state_listed(b, states),
{
}

/// Two texts, one after the other.
pub fn joined(a: &str, b: &str) -> (r: String)
    ensures
        r@ == a@ + b@,
{
    let mut out: String = a.to_owned();
    out.append(b);
    out
}

/// The trimmed form of an optional text that is not blank.
pub open spec fn filled(item: Option<Seq<char>>) -> Option<Seq<char>> {
    match item {
        Some(text) => if blank(text) {
            None
        } else {
            Some(trimmed(text))
        },
        None => None,
    }
}

/// The trimmed form of an optional text that is not blank.
pub fn filled_value(item: &Option<String>) -> (r: Option<&str>)
    ensures
        match r {
            Some(value) => filled(opt_text(*item)) == Some(value@),
            None => filled(opt_text(*item)) is None,
        },
{
    match item {
        Some(text) => {
            let value = trim(text.as_str());
            proof {
                lemma_trimmed_empty(text@);
            }
            if value.is_empty() {
                None
            } else {
                Some(value)
            }
        },
        None => None,
    }
}

/// The Unicode lower case of a text, as std gives it.
pub uninterp spec fn unicode_lower(s: Seq<char>) -> Seq<char>;

/// A text of ASCII characters.
pub open spec fn is_ascii(s: Seq<char>) -> bool {
    forall|i: int| 0 <= i < s.len() ==> (#[trigger] s[i]) <= '\x7f'
}

/// `str::to_lowercase`: the Unicode lower case of a text. The contract names the result, which is a
/// function of the text alone, and says what it is of ASCII text.
#[verifier::external_body]
pub(crate) fn to_lowercase(s: &str) -> (r: String)
    ensures
        r@ == unicode_lower(s@),
        is_ascii(s@) ==> r@ == lower(s@),
{
    s.to_lowercase()
}

/// The lower case of a text: letter by letter where it is ASCII, and else as Unicode has it.
pub open spec fn lowered(s: Seq<char>) -> Seq<char> {
    if is_ascii(s) {
        lower(s)
    } else {
        unicode_lower(s)
    }
}

/// A pattern stands at a position of a text.
pub open spec fn occurs_at(s: Seq<char>, i: int, pattern: Seq<char>) -> bool {
    0 <= i && i + pattern.len() <= s.len() && s.subrange(i, i + pattern.len()) == pattern
}

/// How often a pattern occurs from a position on, counted from left to right without overlap.
pub open spec fn matches_from(s: Seq<char>, i: int, pattern: Seq<char>) -> nat
    decreases s.len() - i,
{
    if i < 0 || i >= s.len() || pattern.len() == 0 {
        0
    } else if occurs_at(s, i, pattern) {
        1 + matches_from(s, i + pattern.len(), pattern)
    } else {
        matches_from(s, i + 1, pattern)
    }
}

/// Tells whether a pattern stands at a position of a text.
pub fn stands_at(chars: &Vec<char>, i: usize, pattern: &Vec<char>) -> (r: bool)
    requires
        i <= chars@.len(),
    ensures
        r == occurs_at(chars@, i as int, pattern@),
{
    if pattern.len() > chars.len() - i {
        return false;
    }
    let mut k: usize = 0;
    while k < pattern.len()
        invariant
            k <= pattern@.len(),
            i + pattern@.len() <= chars.len(),
            forall|j: int| 0 <= j < k ==> chars@[i + j] == #[trigger] pattern@[j],
        decreases pattern@.len() - k,
    {
        if chars[i + k] != pattern[k] {
            proof {
                assert(chars@.subrange(i as int, i + pattern@.len())[k as int] == chars@[i + k]);
            }
            return false;
        }
        k = k + 1;
    }
    proof {
        assert(chars@.subrange(i as int, i + pattern@.len()) =~= pattern@);
    }
    true
}

/// How often a pattern occurs in a text, counted from left to right without overlap.
pub fn count_matches(s: &str, pattern: &str) -> (r: usize)
    requires
        pattern@.len() > 0,
    ensures
        r == matches_from(s@, 0, pattern@),
        r <= s@.len(),
{
    let chars = to_chars(s);
    let needle = to_chars(pattern);
    let mut count: usize = 0;
    let mut i: usize = 0;
    while i < chars.len()
        invariant
            chars@ == s@,
            needle@ == pattern@,
            needle@.len() > 0,
            i <= chars@.len(),
            count <= i,
            matches_from(s@, 0, pattern@) == count + matches_from(s@, i as int, pattern@),
        decreases chars@.len() - i,
    {
        if stands_at(&chars, i, &needle) {
            count = count + 1;
            i = i + needle.len();
        } else {
            i = i + 1;
        }
    }
    count
}

/// The position of the first occurrence of a character from a position on; the length where there
/// is none.
pub open spec fn find_char(s: Seq<char>, i: int, c: char) -> int
    decreases s.len() - i,
{
    if i < 0 || i >= s.len() {
        s.len() as int
    } else if s[i] == c {
        i
    } else {
        find_char(s, i + 1, c)
    }
}

/// The first occurrence lies in the text, and nothing before it is one.
pub proof fn lemma_find_char(s: Seq<char>, i: int, c: char)
    requires
        0 <= i <= s.len(),
    ensures
        i <= find_char(s, i, c) <= s.len(),
        forall|k: int| i <= k < find_char(s, i, c) ==> #[trigger] s[k] != c,
        find_char(s, i, c) < s.len() ==> s[find_char(s, i, c)] == c,
    decreases s.len() - i,
{
    if i < s.len() && s[i] != c {
        lemma_find_char(s, i + 1, c);
    }
}

/// A line without the carriage return of its line ending.
pub open spec fn without_return(line: Seq<char>) -> Seq<char> {
    if line.len() > 0 && line.last() == '\r' {
        line.drop_last()
    } else {
        line
    }
}

/// The lines of a text from a position on, without their endings. A line ends with `\n` or `\r\n`;
/// the last line need not end.
pub open spec fn lines_from(s: Seq<char>, i: int) -> Seq<Seq<char>>
    decreases s.len() - i,
    when 0 <= i <= s.len()
    via lines_from_decreases
{
    if i >= s.len() {
        Seq::empty()
    } else {
        let end = find_char(s, i, '\n');
        if end >= s.len() {
            seq![s.subrange(i, s.len() as int)]
        } else {
            seq![without_return(s.subrange(i, end))] + lines_from(s, end + 1)
        }
    }
}

#[via_fn]
proof fn lines_from_decreases(s: Seq<char>, i: int) {
    lemma_find_char(s, i, '\n');
}

/// The lines of a text, without their endings.
pub open spec fn lines_of(s: Seq<char>) -> Seq<Seq<char>> {
    lines_from(s, 0)
}

/// The lines of a text, without their endings.
pub fn lines(s: &str) -> (r: Vec<String>)
    ensures
        texts(r@) == lines_of(s@),
{
    let chars = to_chars(s);
    let mut out: Vec<String> = Vec::new();
    let mut i: usize = 0;
    proof {
        assert(texts(out@) + lines_from(s@, 0) =~= lines_of(s@));
    }
    while i < chars.len()
        invariant
            chars@ == s@,
            i <= chars@.len(),
            texts(out@) + lines_from(s@, i as int) == lines_of(s@),
        decreases chars@.len() - i,
    {
        let mut end: usize = i;
        while end < chars.len() && chars[end] != '\n'
            invariant
                chars@ == s@,
                i <= end <= chars@.len(),
                find_char(s@, i as int, '\n') == find_char(s@, end as int, '\n'),
            ensures
                end < chars@.len() ==> chars@[end as int] == '\n',
            decreases chars@.len() - end,
        {
            end = end + 1;
        }
        let ghost before = texts(out@);
        if end >= chars.len() {
            out.push(from_chars(&chars, i, end));
            proof {
                assert(texts(out@) =~= before.push(s@.subrange(i as int, end as int)));
                assert(lines_from(s@, i as int) == seq![s@.subrange(i as int, end as int)]);
                assert(lines_from(s@, end as int) =~= Seq::<Seq<char>>::empty());
                assert(texts(out@) + lines_from(s@, end as int) =~= before + lines_from(
                    s@,
                    i as int,
                ));
            }
            i = end;
        } else {
            let ghost raw = s@.subrange(i as int, end as int);
            let cut: usize = if end > i && chars[end - 1] == '\r' {
                end - 1
            } else {
                end
            };
            out.push(from_chars(&chars, i, cut));
            proof {
                if end > i {
                    assert(raw.last() == s@[end - 1]);
                    assert(raw.drop_last() =~= s@.subrange(i as int, end - 1));
                }
                assert(texts(out@) =~= before.push(without_return(raw)));
                assert(texts(out@) + lines_from(s@, end + 1) =~= before + lines_from(
                    s@,
                    i as int,
                ));
            }
            i = end + 1;
        }
    }
    proof {
        assert(lines_from(s@, i as int) =~= Seq::<Seq<char>>::empty());
        assert(texts(out@) + lines_from(s@, i as int) =~= texts(out@));
    }
    out
}

/// Texts put together with a separator between each two.
pub open spec fn join(parts: Seq<Seq<char>>, separator: Seq<char>) -> Seq<char>
    decreases parts.len(),
{
    if parts.len() == 0 {
        Seq::empty()
    } else if parts.len() == 1 {
        parts[0]
    } else {
        join(parts.drop_last(), separator) + separator + parts.last()
    }
}

/// Texts put together with a separator between each two.
pub fn join_range(parts: &Vec<String>, from: usize, to: usize, separator: &str) -> (r: String)
    requires
        from <= to <= parts@.len(),
    ensures
        r@ == join(texts(parts@).subrange(from as int, to as int), separator@),
{
    let ghost all = texts(parts@);
    let mut out: String = String::new();
    let mut i: usize = from;
    while i < to
        invariant
            from <= i <= to <= parts@.len(),
            all == texts(parts@),
            out@ == join(all.subrange(from as int, i as int), separator@),
        decreases to - i,
    {
        proof {
            let next = all.subrange(from as int, i + 1);
            assert(next.drop_last() =~= all.subrange(from as int, i as int));
            assert(next.last() == parts@[i as int]@);
            if i == from {
                assert(out@ + parts@[i as int]@ =~= parts@[i as int]@);
            }
        }
        if i > from {
            out.append(separator);
        }
        out.append(parts[i].as_str());
        i = i + 1;
    }
    out
}

/// Adds a text at the end of a list.
pub fn push_text(items: &mut Vec<String>, item: String)
    ensures
        texts(final(items)@) == texts(old(items)@).push(item@),
{
    let ghost name = item@;
    items.push(item);
    proof {
        assert(texts(items@) =~= texts(old(items)@).push(name));
    }
}

/// A list with no texts yet.
pub fn no_texts() -> (r: Vec<String>)
    ensures
        texts(r@) == Seq::<Seq<char>>::empty(),
{
    let r: Vec<String> = Vec::new();
    proof {
        assert(texts(r@) =~= Seq::<Seq<char>>::empty());
    }
    r
}

/// A list with one more text at the end.
pub fn and_text(items: Vec<String>, item: &str) -> (r: Vec<String>)
    ensures
        texts(r@) == texts(items@).push(item@),
{
    let mut out = items;
    push_text(&mut out, item.to_owned());
    out
}

/// The lines of a list as one text.
pub fn join_lines(lines: &Vec<String>) -> (r: String)
    ensures
        r@ == join(texts(lines@), "\n"@),
{
    proof {
        let all = texts(lines@);
        assert(all.subrange(0, all.len() as int) =~= all);
    }
    join_range(lines, 0, lines.len(), "\n")
}

/// The pieces of a text from a position on, between occurrences of a character.
pub open spec fn split_from(s: Seq<char>, i: int, c: char) -> Seq<Seq<char>>
    decreases s.len() - i,
    when 0 <= i <= s.len()
    via split_from_decreases
{
    let end = find_char(s, i, c);
    if end >= s.len() {
        seq![s.subrange(i, s.len() as int)]
    } else {
        seq![s.subrange(i, end)] + split_from(s, end + 1, c)
    }
}

#[via_fn]
proof fn split_from_decreases(s: Seq<char>, i: int, c: char) {
    lemma_find_char(s, i, c);
}

/// The pieces of a text between occurrences of a character.
pub open spec fn split_on(s: Seq<char>, c: char) -> Seq<Seq<char>> {
    split_from(s, 0, c)
}

/// The pieces of a text between occurrences of a character.
pub fn split(s: &str, c: char) -> (r: Vec<String>)
    ensures
        texts(r@) == split_on(s@, c),
{
    let chars = to_chars(s);
    let mut out: Vec<String> = Vec::new();
    let mut i: usize = 0;
    proof {
        assert(texts(out@) + split_from(s@, 0, c) =~= split_on(s@, c));
    }
    loop
        invariant_except_break
            chars@ == s@,
            i <= chars@.len(),
            texts(out@) + split_from(s@, i as int, c) == split_on(s@, c),
        ensures
            texts(out@) == split_on(s@, c),
        decreases chars@.len() - i,
    {
        let mut end: usize = i;
        while end < chars.len() && chars[end] != c
            invariant
                chars@ == s@,
                i <= end <= chars@.len(),
                find_char(s@, i as int, c) == find_char(s@, end as int, c),
            ensures
                end < chars@.len() ==> chars@[end as int] == c,
            decreases chars@.len() - end,
        {
            end = end + 1;
        }
        let ghost before = texts(out@);
        let ghost piece = s@.subrange(i as int, end as int);
        out.push(from_chars(&chars, i, end));
        proof {
            assert(texts(out@) =~= before.push(piece));
        }
        if end >= chars.len() {
            proof {
                assert(split_from(s@, i as int, c) == seq![piece]);
                assert(texts(out@) =~= before + seq![piece]);
            }
            break;
        }
        proof {
            assert(texts(out@) + split_from(s@, end + 1, c) =~= before + split_from(
                s@,
                i as int,
                c,
            ));
        }
        i = end + 1;
    }
    out
}

proof fn lemma_find_char_unique(s: Seq<char>, i: int, c: char, end: int)
    requires
        0 <= i <= end <= s.len(),
        forall|k: int| i <= k < end ==> #[trigger] s[k] != c,
        end < s.len() ==> s[end] == c,
    ensures
        find_char(s, i, c) == end,
    decreases end - i,
{
    if i < end {
        lemma_find_char_unique(s, i + 1, c, end);
    }
}

proof fn lemma_split_from_append(a: Seq<char>, b: Seq<char>, i: int, c: char)
    requires
        0 <= i <= a.len(),
    ensures
        split_from(a + seq![c] + b, i, c) == split_from(a, i, c) + split_on(b, c),
    decreases a.len() - i,
{
    let s = a + seq![c] + b;
    let end = find_char(a, i, c);
    lemma_find_char(a, i, c);
    assert forall|k: int| i <= k < end implies #[trigger] s[k] != c by {
        assert(s[k] == a[k]);
    }
    if end < a.len() {
        assert(s[end] == a[end]);
        lemma_find_char_unique(s, i, c, end);
        lemma_split_from_append(a, b, end + 1, c);
        assert(s.subrange(i, end) =~= a.subrange(i, end));
        assert(split_from(s, i, c) =~= split_from(a, i, c) + split_on(b, c));
    } else {
        assert(s[a.len() as int] == c);
        lemma_find_char_unique(s, i, c, a.len() as int);
        assert(s.subrange(i, a.len() as int) =~= a.subrange(i, a.len() as int));
        assert(s.subrange((a.len() + 1) as int, s.len() as int) =~= b);
        lemma_split_shift(s, b, (a.len() + 1) as int, 0, c);
        assert(split_from(s, i, c) =~= split_from(a, i, c) + split_on(b, c));
    }
}

proof fn lemma_split_shift(s: Seq<char>, b: Seq<char>, offset: int, i: int, c: char)
    requires
        0 <= offset,
        s.len() == offset + b.len(),
        s.subrange(offset, s.len() as int) == b,
        0 <= i <= b.len(),
    ensures
        split_from(s, offset + i, c) == split_from(b, i, c),
    decreases b.len() - i,
{
    let end = find_char(b, i, c);
    lemma_find_char(b, i, c);
    assert forall|k: int| 0 <= k < b.len() implies s[offset + k] == #[trigger] b[k] by {
        assert(s.subrange(offset, s.len() as int)[k] == s[offset + k]);
    }
    assert forall|k: int| offset + i <= k < offset + end implies #[trigger] s[k] != c by {
        assert(s[offset + (k - offset)] == b[k - offset]);
    }
    if end < b.len() {
        assert(s[offset + end] == b[end]);
    }
    lemma_find_char_unique(s, offset + i, c, offset + end);
    assert(s.subrange(offset + i, offset + end) =~= b.subrange(i, end));
    if end < b.len() {
        lemma_split_shift(s, b, offset, end + 1, c);
    }
}

/// The pieces of two texts with the character between them are the pieces of each.
pub proof fn lemma_split_append(a: Seq<char>, b: Seq<char>, c: char)
    ensures
        split_on(a + seq![c] + b, c) == split_on(a, c) + split_on(b, c),
{
    lemma_split_from_append(a, b, 0, c);
}

/// A text without the character is its only piece.
pub proof fn lemma_split_single(s: Seq<char>, c: char)
    requires
        forall|k: int| 0 <= k < s.len() ==> #[trigger] s[k] != c,
    ensures
        split_on(s, c) == seq![s],
{
    lemma_find_char_unique(s, 0, c, s.len() as int);
    assert(s.subrange(0, s.len() as int) =~= s);
}

proof fn lemma_split_from_pieces(s: Seq<char>, i: int, c: char)
    requires
        0 <= i <= s.len(),
    ensures
        forall|p: int, k: int|
            0 <= p < split_from(s, i, c).len() && 0 <= k < split_from(s, i, c)[p].len()
                ==> #[trigger] split_from(s, i, c)[p][k] != c,
        split_from(s, i, c).len() > 0,
    decreases s.len() - i,
{
    let end = find_char(s, i, c);
    lemma_find_char(s, i, c);
    let all = split_from(s, i, c);
    if end < s.len() {
        lemma_split_from_pieces(s, end + 1, c);
        let rest = split_from(s, end + 1, c);
        assert forall|p: int, k: int| 0 <= p < all.len() && 0 <= k < all[p].len() implies
            #[trigger] all[p][k] != c by {
            if p > 0 {
                assert(all[p] == rest[p - 1]);
                assert(rest[p - 1][k] != c);
            } else {
                assert(all[0] == s.subrange(i, end));
            }
        }
    }
}

/// No piece holds the character.
pub proof fn lemma_split_pieces(s: Seq<char>, c: char)
    ensures
        forall|p: int, k: int|
            0 <= p < split_on(s, c).len() && 0 <= k < split_on(s, c)[p].len()
                ==> #[trigger] split_on(s, c)[p][k] != c,
        split_on(s, c).len() > 0,
{
    lemma_split_from_pieces(s, 0, c);
}

/// Splitting undoes joining, where no part holds the separator.
pub proof fn lemma_split_join(parts: Seq<Seq<char>>, c: char)
    requires
        parts.len() > 0,
        forall|p: int, k: int|
            0 <= p < parts.len() && 0 <= k < parts[p].len() ==> #[trigger] parts[p][k] != c,
    ensures
        split_on(join(parts, seq![c]), c) == parts,
    decreases parts.len(),
{
    let last = parts.last();
    assert forall|k: int| 0 <= k < last.len() implies #[trigger] last[k] != c by {
        assert(parts[parts.len() - 1][k] != c);
    }
    lemma_split_single(last, c);
    if parts.len() == 1 {
        assert(seq![parts[0]] =~= parts);
    } else {
        let front = parts.drop_last();
        assert forall|p: int, k: int| 0 <= p < front.len() && 0 <= k < front[p].len() implies
            #[trigger] front[p][k] != c by {
            assert(parts[p][k] != c);
        }
        lemma_split_join(front, c);
        lemma_split_append(join(front, seq![c]), last, c);
        assert(front + seq![last] =~= parts);
    }
}

/// A state is listed where one of the list has its name, whatever the case of its ASCII letters and
/// the white space around it.
pub proof fn lemma_state_is_listed(state: Seq<char>, list: Seq<Seq<char>>)
    ensures
        state_listed(state, list) <==> exists|i: int|
            0 <= i < list.len() && lower(trimmed(#[trigger] list[i])) == lower(trimmed(state)),
        state_key(state) == lower(trimmed(state)),
{
}

/// Lower case keeps the length, gives each capital letter its small one, and keeps all else.
pub proof fn lemma_lower_letter_by_letter(s: Seq<char>, i: int)
    requires
        0 <= i < s.len(),
    ensures
        lower(s).len() == s.len(),
        'A' <= s[i] <= 'Z' ==> lower(s)[i] as u32 == s[i] as u32 + 32,
        !('A' <= s[i] <= 'Z') ==> lower(s)[i] == s[i],
{
}

/// Spaces, tabs and line ends are white space, and no visible ASCII character is.
pub proof fn lemma_visible_is_no_space(c: char)
    ensures
        is_space(' ') && is_space('\t') && is_space('\n') && is_space('\r'),
        '!' <= c <= '~' ==> !is_space(c),
{
}

/// Trimming takes the white space off both ends of a text and leaves what stands between them.
pub proof fn lemma_trimmed_keeps_the_middle(
    before: Seq<char>,
    middle: Seq<char>,
    after: Seq<char>,
)
    requires
        forall|i: int| 0 <= i < before.len() ==> is_space(#[trigger] before[i]),
        forall|i: int| 0 <= i < after.len() ==> is_space(#[trigger] after[i]),
        middle.len() > 0,
        !is_space(middle[0]),
        !is_space(middle[middle.len() - 1]),
    ensures
        trimmed(before + middle + after) == middle,
{
    let s = before + middle + after;
    let t = middle + after;
    lemma_trim_start_cut(s, before.len() as int);
    assert(s.subrange(before.len() as int, s.len() as int) =~= t);
    assert forall|i: int| middle.len() <= i < t.len() implies is_space(#[trigger] t[i]) by {
        assert(t[i] == after[i - middle.len()]);
    }
    lemma_trim_end_cut(t, middle.len() as int);
    assert(t.subrange(0, middle.len() as int) =~= middle);
}

/// The decimal notation of a number reads back as the number, in digits alone, with no zero in front.
pub proof fn lemma_decimal_reads_back(n: nat)
    ensures
        is_digits(decimal(n)),
        digits_value(decimal(n)) == n,
        unsigned_value(decimal(n)) == Some(n),
        signed_value(decimal(n)) == Some(n as int),
        n > 0 ==> decimal(n)[0] != '0',
    decreases n,
{
    let s = decimal(n);
    if n >= 10 {
        let front = decimal(n / 10);
        lemma_decimal_reads_back(n / 10);
        assert(s.drop_last() =~= front);
        assert forall|i: int| 0 <= i < s.len() implies '0' <= #[trigger] s[i] <= '9' by {
            if i < front.len() {
                assert(s[i] == front[i]);
            }
        }
        assert(s[0] == front[0]);
    } else {
        assert(s.drop_last() =~= Seq::<char>::empty());
        assert(digits_value(Seq::<char>::empty()) == 0);
        assert(s.last() == digit_char(n));
    }
}

/// The decimal notation of a signed number reads back as the number.
pub proof fn lemma_signed_decimal_reads_back(n: int)
    ensures
        signed_value(signed_decimal(n)) == Some(n),
        n < 0 ==> signed_decimal(n)[0] == '-',
{
    if n < 0 {
        let body = decimal((-n) as nat);
        lemma_decimal_reads_back((-n) as nat);
        let s = signed_decimal(n);
        assert(s.subrange(1, s.len() as int) =~= body);
    } else {
        lemma_decimal_reads_back(n as nat);
    }
}

/// A text comes before another one if it is a shorter beginning of it, or has the lesser character at
/// the first place where they differ.
pub proof fn lemma_text_lt_by_character(a: Seq<char>, b: Seq<char>, k: int)
    requires
        0 <= k <= a.len(),
        k < b.len(),
        forall|i: int| 0 <= i < k ==> (#[trigger] a[i]) == b[i],
        k < a.len() ==> a[k] < b[k],
    ensures
        text_lt(a, b),
        !text_lt(b, a),
    decreases k,
{
    if k > 0 {
        let a1 = a.subrange(1, a.len() as int);
        let b1 = b.subrange(1, b.len() as int);
        assert forall|i: int| 0 <= i < k - 1 implies (#[trigger] a1[i]) == b1[i] by {
            assert(a[i + 1] == b[i + 1]);
        }
        assert(a[0] == b[0]);
        lemma_text_lt_by_character(a1, b1, k - 1);
    }
}

/// An optional text that has more than white space is filled with its trimmed form, and any other is
/// not filled.
pub proof fn lemma_filled_is_trimmed(item: Seq<char>)
    ensures
        trimmed(item).len() > 0 ==> filled(Some(item)) == Some(trimmed(item)),
        trimmed(item).len() == 0 ==> filled(Some(item)) is None,
        filled(None) is None,
{
    lemma_trimmed_empty(item);
}

/// Strings are modelled by their characters, one by one.
pub proof fn lemma_texts_are_modelled(items: Seq<String>, item: String, i: int)
    ensures
        texts(items).len() == items.len(),
        0 <= i < items.len() ==> texts(items)[i] == items[i]@,
        opt_text(Some(item)) == Some(item@),
        opt_text(None) is None,
        opt_str(None) is None,
{
}

/// A pattern that stands nowhere is counted nowhere.
pub proof fn lemma_absent_pattern(s: Seq<char>, i: int, pattern: Seq<char>)
    requires
        forall|k: int| i <= k < s.len() ==> !#[trigger] occurs_at(s, k, pattern),
    ensures
        matches_from(s, i, pattern) == 0,
    decreases s.len() - i,
{
    if 0 <= i < s.len() && pattern.len() > 0 {
        assert(!occurs_at(s, i, pattern));
        lemma_absent_pattern(s, i + 1, pattern);
    }
}

/// The first place where a pattern stands is counted, and the count goes on behind it.
pub proof fn lemma_present_pattern(s: Seq<char>, i: int, pattern: Seq<char>, k: int)
    requires
        0 <= i <= k,
        pattern.len() > 0,
        k + pattern.len() <= s.len(),
        s.subrange(k, k + pattern.len()) == pattern,
        forall|j: int| i <= j < k ==> !#[trigger] occurs_at(s, j, pattern),
    ensures
        matches_from(s, i, pattern) == 1 + matches_from(s, k + pattern.len(), pattern),
    decreases k - i,
{
    if i < k {
        assert(!occurs_at(s, i, pattern));
        lemma_present_pattern(s, i + 1, pattern, k);
    }
}

proof fn lemma_lines_shift(a: Seq<char>, s: Seq<char>, i: int)
    requires
        0 <= i <= s.len(),
    ensures
        lines_from(a + s, a.len() + i) == lines_from(s, i),
    decreases s.len() - i,
{
    let all = a + s;
    lemma_find_char(s, i, '\n');
    lemma_find_char(all, a.len() + i, '\n');
    if i < s.len() {
        let end = find_char(s, i, '\n');
        let e = find_char(all, a.len() + i, '\n');
        if e < a.len() + end {
            assert(all[e] == s[e - a.len()]);
            assert(false);
        }
        if e > a.len() + end {
            assert(all[a.len() + end] == s[end]);
            assert(false);
        }
        if end < s.len() {
            lemma_lines_shift(a, s, end + 1);
            assert(all.subrange(a.len() + i, e) =~= s.subrange(i, end));
        } else {
            assert(all.subrange(a.len() + i, all.len() as int) =~= s.subrange(i, s.len() as int));
        }
    }
}

/// The first line of a text ends at its first line end, and the other lines are those of the rest. A
/// carriage return before the line end belongs to it.
pub proof fn lemma_first_line(line: Seq<char>, rest: Seq<char>)
    requires
        forall|i: int| 0 <= i < line.len() ==> (#[trigger] line[i]) != '\n',
    ensures
        line.len() > 0 && line.last() == '\r' ==> lines_of(line.push('\n') + rest)
            == seq![line.drop_last()] + lines_of(rest),
        line.len() == 0 || line.last() != '\r' ==> lines_of(line.push('\n') + rest) == seq![line]
            + lines_of(rest),
{
    let a = line.push('\n');
    let s = a + rest;
    lemma_find_char(s, 0, '\n');
    let end = find_char(s, 0, '\n');
    if end < line.len() {
        assert(s[end] == line[end]);
        assert(false);
    }
    if end > line.len() {
        assert(s[line.len() as int] == '\n');
        assert(false);
    }
    assert(s.subrange(0, end) =~= line);
    lemma_lines_shift(a, rest, 0);
}

/// A text without a line end is one line, and an empty text none.
pub proof fn lemma_last_line(line: Seq<char>)
    requires
        forall|i: int| 0 <= i < line.len() ==> (#[trigger] line[i]) != '\n',
    ensures
        line.len() > 0 ==> lines_of(line) == seq![line],
        line.len() == 0 ==> lines_of(line).len() == 0,
{
    lemma_find_char(line, 0, '\n');
    if line.len() > 0 {
        let end = find_char(line, 0, '\n');
        if end < line.len() {
            assert(false);
        }
        assert(line.subrange(0, line.len() as int) =~= line);
    }
}

/// Texts are put together one by one, with the separator between each two.
pub proof fn lemma_join_one_by_one(parts: Seq<Seq<char>>, last: Seq<char>, separator: Seq<char>)
    ensures
        join(Seq::empty(), separator).len() == 0,
        join(seq![last], separator) == last,
        parts.len() > 0 ==> join(parts.push(last), separator) == join(parts, separator) + separator
            + last,
{
    assert(parts.push(last).drop_last() =~= parts);
}

/// The lower case of ASCII text has each capital letter changed to the small one.
pub proof fn lemma_lowered_ascii(s: Seq<char>, i: int)
    requires
        forall|k: int| 0 <= k < s.len() ==> (#[trigger] s[k]) <= '\x7f',
        0 <= i < s.len(),
    ensures
        lowered(s).len() == s.len(),
        'A' <= s[i] <= 'Z' ==> lowered(s)[i] as u32 == s[i] as u32 + 32,
        !('A' <= s[i] <= 'Z') ==> lowered(s)[i] == s[i],
{
}

/// A text stands somewhere in another one.
pub open spec fn shows(whole: Seq<char>, part: Seq<char>) -> bool {
    exists|i: int| #[trigger] occurs_at(whole, i, part)
}

/// A text shows what it ends with.
pub proof fn lemma_shows_end(before: Seq<char>, part: Seq<char>)
    ensures
        shows(before + part, part),
{
    let n = before.len() as int;
    assert((before + part).subrange(n, n + part.len()) =~= part);
    assert(occurs_at(before + part, n, part));
}

/// A text shows what its beginning shows.
pub proof fn lemma_shows_more(whole: Seq<char>, after: Seq<char>, part: Seq<char>)
    requires
        shows(whole, part),
    ensures
        shows(whole + after, part),
{
    let i = choose|i: int| #[trigger] occurs_at(whole, i, part);
    assert((whole + after).subrange(i, i + part.len()) =~= whole.subrange(i, i + part.len()));
    assert(occurs_at(whole + after, i, part));
}

/// What a part of a text shows, the text shows.
pub proof fn lemma_shows_within(whole: Seq<char>, part: Seq<char>, inner: Seq<char>)
    requires
        shows(whole, part),
        shows(part, inner),
    ensures
        shows(whole, inner),
{
    let i = choose|i: int| #[trigger] occurs_at(whole, i, part);
    let j = choose|j: int| #[trigger] occurs_at(part, j, inner);
    assert(whole.subrange(i + j, i + j + inner.len()) =~= whole.subrange(
        i,
        i + part.len(),
    ).subrange(j, j + inner.len()));
    assert(occurs_at(whole, i + j, inner));
}

/// Texts that are put together are all shown.
pub proof fn lemma_join_shows(parts: Seq<Seq<char>>, separator: Seq<char>, k: int)
    requires
        0 <= k < parts.len(),
    ensures
        shows(join(parts, separator), parts[k]),
    decreases parts.len(),
{
    if parts.len() == 1 {
        assert(parts[0].subrange(0, parts[0].len() as int) =~= parts[0]);
        assert(occurs_at(parts[0], 0, parts[0]));
    } else if k == parts.len() - 1 {
        lemma_shows_end(join(parts.drop_last(), separator) + separator, parts.last());
    } else {
        lemma_join_shows(parts.drop_last(), separator, k);
        assert(parts.drop_last()[k] == parts[k]);
        let most = join(parts.drop_last(), separator);
        lemma_shows_more(most, separator, parts[k]);
        lemma_shows_more(most + separator, parts.last(), parts[k]);
    }
}

/// White space beyond ASCII is the next line, the no-break spaces, and the spaces and separators of
/// Unicode.
pub proof fn lemma_unicode_space(c: char)
    ensures
        is_space('\u{85}') && is_space('\u{a0}') && is_space('\u{1680}') && is_space('\u{2028}')
            && is_space('\u{2029}') && is_space('\u{202f}') && is_space('\u{205f}') && is_space(
            '\u{3000}',
        ),
        '\u{2000}' <= c <= '\u{200a}' ==> is_space(c),
        '\u{a1}' <= c <= '\u{167f}' ==> !is_space(c),
        c > '\u{3000}' ==> !is_space(c),
{
}

} // verus!
