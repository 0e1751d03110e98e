//! Character-level text primitives shared by the parsers and the mana rules:
//! Unicode whitespace, ASCII case folding, whitespace splitting, trimming,
//! splitting on the word " or ", and decimal numerals.

use vstd::prelude::*;
use vstd::string::StrSliceExecFns;
use vstd::string::StringExecFns;

verus! {

/// The Unicode `White_Space` property, by code point.
pub open spec fn is_ws_code(x: u32) -> bool {
    ||| 9 <= x <= 13
    ||| x == 32
    ||| x == 0x85
    ||| x == 0xA0
    ||| x == 0x1680
    ||| 0x2000 <= x <= 0x200A
    ||| x == 0x2028
    ||| x == 0x2029
    ||| x == 0x202F
    ||| x == 0x205F
    ||| x == 0x3000
}

pub open spec fn is_ws(c: char) -> bool {
    is_ws_code(c as u32)
}

/// ASCII lower-casing of one character, as a code point.
pub open spec fn lower_code(c: char) -> u32 {
    let x = c as u32;
    if 65 <= x <= 90 {
        (x + 32) as u32
    } else {
        x
    }
}

/// Equality of two texts up to ASCII case.
pub open spec fn eq_ignore_ascii_case(a: Seq<char>, b: Seq<char>) -> bool {
    &&& a.len() == b.len()
    &&& forall|i: int| 0 <= i < a.len() ==> lower_code(#[trigger] a[i]) == lower_code(b[i])
}

/// The whitespace-separated words of a text, in order, none of them empty.
pub open spec fn words(s: Seq<char>) -> Seq<Seq<char>>
    decreases s.len(),
{
    if s.len() == 0 {
        Seq::empty()
    } else if is_ws(s[0]) {
        words(s.drop_first())
    } else {
        let rest = words(s.drop_first());
        if s.len() > 1 && !is_ws(s[1]) {
            rest.update(0, seq![s[0]] + rest[0])
        } else {
            seq![seq![s[0]]].add(rest)
        }
    }
}

/// Text with leading whitespace removed.
pub open spec fn trim_start(s: Seq<char>) -> Seq<char>
    decreases s.len(),
{
    if s.len() > 0 && is_ws(s[0]) {
        trim_start(s.drop_first())
    } else {
        s
    }
}

/// Text with trailing whitespace removed.
pub open spec fn trim_end(s: Seq<char>) -> Seq<char>
    decreases s.len(),
{
    if s.len() > 0 && is_ws(s.last()) {
        trim_end(s.drop_last())
    } else {
        s
    }
}

/// Text with whitespace removed at both ends.
pub open spec fn trim(s: Seq<char>) -> Seq<char> {
    trim_end(trim_start(s))
}

/// The separator `" or "`.
pub open spec fn or_sep() -> Seq<char> {
    seq![' ', 'o', 'r', ' ']
}

pub open spec fn or_at(s: Seq<char>, i: int) -> bool {
    0 <= i && i + 4 <= s.len() && s.subrange(i, i + 4) == or_sep()
}

/// Pieces of `s` between non-overlapping occurrences of `" or "`, found left
/// to right; `start` is where the current piece began, `i` the scan position.
pub open spec fn or_pieces_from(s: Seq<char>, start: int, i: int) -> Seq<Seq<char>>
    decreases s.len() - i,
{
    if i >= s.len() || start > i || start < 0 {
        seq![s.subrange(start, s.len() as int)]
    } else if or_at(s, i) {
        seq![s.subrange(start, i)].add(or_pieces_from(s, i + 4, i + 4))
    } else {
        or_pieces_from(s, start, i + 1)
    }
}

/// `s` split on `" or "` (never empty: text with no separator is one piece).
pub open spec fn or_pieces(s: Seq<char>) -> Seq<Seq<char>> {
    or_pieces_from(s, 0, 0)
}

/// Decimal digit value of a character, if it is an ASCII digit.
pub open spec fn is_digit(c: char) -> bool {
    48 <= (c as u32) <= 57
}

pub open spec fn digit_value(c: char) -> nat {
    ((c as u32) - 48) as nat
}

/// Value of a string of decimal digits (the empty string has value 0).
pub open spec fn digits_value(s: Seq<char>) -> nat
    decreases s.len(),
{
    if s.len() == 0 {
        0
    } else {
        digits_value(s.drop_last()) * 10 + digit_value(s.last())
    }
}

pub open spec fn all_digits(s: Seq<char>) -> bool {
    forall|i: int| 0 <= i < s.len() ==> is_digit(#[trigger] s[i])
}

/// What `u32::from_str` accepts: an optional `+`, then one or more decimal
/// digits, with a value that fits in 32 bits.
pub open spec fn numeral_digits(s: Seq<char>) -> Seq<char> {
    if s.len() > 0 && s[0] == '+' {
        s.drop_first()
    } else {
        s
    }
}

pub open spec fn u32_numeral(s: Seq<char>) -> Option<u32> {
    let d = numeral_digits(s);
    if d.len() > 0 && all_digits(d) && digits_value(d) <= u32::MAX {
        Some(digits_value(d) as u32)
    } else {
        None
    }
}

/// The shortest decimal numeral for `n`.
pub open spec fn decimal(n: nat) -> Seq<char>
    decreases n,
{
    if n < 10 {
        seq![(n + 48) as char]
    } else {
        decimal(n / 10).push(((n % 10) + 48) as char)
    }
}

/// `String::push`: appends one character.
#[verifier::external_body]
pub(crate) fn push_char(s: &mut String, c: char)
    ensures
        final(s)@ == old(s)@.push(c),
{
    s.push(c)
}

/// Distinct characters have distinct code points.
pub proof fn lemma_char_code_injective(x: char, y: char)
    ensures
        x != y ==> (x as u32) != (y as u32),
{
}

/// The characters of a text, in order.
pub fn str_chars(s: &str) -> (v: Vec<char>)
    ensures
        v@ == s@,
{
    let n = s.unicode_len();
    let mut v: Vec<char> = Vec::new();
    let mut i: usize = 0;
    while i < n
        invariant
            n == s@.len(),
            i <= n,
            v@ == s@.subrange(0, i as int),
        decreases n - i,
    {
        let c = s.get_char(i);
        v.push(c);
        i = i + 1;
    }
    v
}

/// A `String` holding the given characters.
pub fn string_from_chars(cs: &[char]) -> (s: String)
    ensures
        s@ == cs@,
{
    let mut s = String::new();
    let mut i: usize = 0;
    while i < cs.len()
        invariant
            i <= cs@.len(),
            s@ == cs@.subrange(0, i as int),
        decreases cs@.len() - i,
    {
        push_char(&mut s, cs[i]);
        i = i + 1;
    }
    s
}

/// A `String` copy of a text slice.
pub fn string_of(t: &str) -> (s: String)
    ensures
        s@ == t@,
{
    String::from_str(t)
}

/// Equality of two texts.
pub fn chars_eq(a: &[char], b: &[char]) -> (r: bool)
    ensures
        r == (a@ == b@),
{
    if a.len() != b.len() {
        return false;
    }
    let mut i: usize = 0;
    while i < a.len()
        invariant
            a@.len() == b@.len(),
            i <= a@.len(),
            forall|j: int| 0 <= j < i ==> a@[j] == b@[j],
        decreases a@.len() - i,
    {
        if a[i] != b[i] {
            return false;
        }
        i = i + 1;
    }
    assert(a@ =~= b@);
    true
}

/// Equality of two text slices.
pub fn str_eq(a: &str, b: &str) -> (r: bool)
    ensures
        r == (a@ == b@),
{
    let x = str_chars(a);
    let y = str_chars(b);
    chars_eq(x.as_slice(), y.as_slice())
}

pub fn char_is_ws(c: char) -> (r: bool)
    ensures
        r == is_ws(c),
{
    let x = c as u32;
    (9 <= x && x <= 13) || x == 32 || x == 0x85 || x == 0xA0 || x == 0x1680 || (0x2000 <= x && x
        <= 0x200A) || x == 0x2028 || x == 0x2029 || x == 0x202F || x == 0x205F || x == 0x3000
}

pub fn char_lower_code(c: char) -> (r: u32)
    ensures
        r == lower_code(c),
{
    let x = c as u32;
    if 65 <= x && x <= 90 {
        x + 32
    } else {
        x
    }
}

/// Equality up to ASCII case (`str::eq_ignore_ascii_case`).
pub fn chars_eq_ignore_ascii_case(a: &[char], b: &[char]) -> (r: bool)
    ensures
        r == eq_ignore_ascii_case(a@, b@),
{
    if a.len() != b.len() {
        return false;
    }
    let mut i: usize = 0;
    while i < a.len()
        invariant
            a@.len() == b@.len(),
            i <= a@.len(),
            forall|j: int| 0 <= j < i ==> lower_code(a@[j]) == lower_code(b@[j]),
        decreases a@.len() - i,
    {
        if char_lower_code(a[i]) != char_lower_code(b[i]) {
            return false;
        }
        i = i + 1;
    }
    true
}

pub proof fn lemma_words_subrange_step(s: Seq<char>, i: int)
    requires
        0 < i <= s.len(),
    ensures
        s.subrange(i - 1, s.len() as int).len() > 0,
        s.subrange(i - 1, s.len() as int)[0] == s[i - 1],
        s.subrange(i - 1, s.len() as int).drop_first() == s.subrange(i, s.len() as int),
        i < s.len() ==> s.subrange(i - 1, s.len() as int)[1] == s[i],
{
    assert(s.subrange(i - 1, s.len() as int).drop_first() =~= s.subrange(i, s.len() as int));
}

/// The texts held by a sequence of character vectors.
pub open spec fn texts(r: Seq<Vec<char>>) -> Seq<Seq<char>> {
    r.map_values(|v: Vec<char>| v@)
}

/// Whitespace-separated words (`str::split_whitespace`).
pub fn split_words(s: &[char]) -> (r: Vec<Vec<char>>)
    ensures
        texts(r@) == words(s@),
{
    let n = s.len();
    let mut r: Vec<Vec<char>> = Vec::new();
    let mut i: usize = n;
    assert(s@.subrange(n as int, n as int) =~= Seq::<char>::empty());
    while i > 0
        invariant
            n == s@.len(),
            i <= n,
            texts(r@) == words(s@.subrange(i as int, n as int)),
        decreases i,
    {
        let c = s[i - 1];
        proof {
            lemma_words_subrange_step(s@, i as int);
        }
        let ghost sub = s@.subrange(i - 1, n as int);
        if char_is_ws(c) {
            assert(words(sub) == words(sub.drop_first()));
        } else if i < n && !char_is_ws(s[i]) {
            assert(sub.len() > 1 && !is_ws(sub[1]) && !is_ws(sub[0]));
            assert(words(sub) == words(sub.drop_first()).update(
                0,
                seq![c] + words(sub.drop_first())[0],
            ));
            let ghost old_t = texts(r@);
            assert(texts(r@).len() > 0) by {
                assert(words(sub.drop_first()) == words(s@.subrange(i as int, n as int)));
                lemma_words_nonempty(s@.subrange(i as int, n as int));
            }
            let mut first = r.remove(0);
            first.insert(0, c);
            assert(first@ =~= seq![c] + old_t[0]);
            r.insert(0, first);
            assert(texts(r@) =~= old_t.update(0, seq![c] + old_t[0]));
        } else {
            let mut w: Vec<char> = Vec::new();
            w.push(c);
            r.insert(0, w);
            assert(w@ =~= seq![c]);
            assert(texts(r@) =~= words(sub));
        }
        i = i - 1;
    }
    assert(s@.subrange(0, n as int) =~= s@);
    r
}

/// A text that starts with a non-whitespace character has a first word,
/// which starts with that character.
pub proof fn lemma_words_nonempty(s: Seq<char>)
    requires
        s.len() > 0,
        !is_ws(s[0]),
    ensures
        words(s).len() > 0,
        words(s)[0].len() > 0,
        words(s)[0][0] == s[0],
    decreases s.len(),
{
    if s.len() > 1 && !is_ws(s[1]) {
        lemma_words_nonempty(s.drop_first());
    }
}

/// Every word is non-empty and holds no whitespace.
pub proof fn lemma_words_shape(s: Seq<char>)
    ensures
        forall|k: int|
            0 <= k < words(s).len() ==> (#[trigger] words(s)[k]).len() > 0 && forall|j: int|
                0 <= j < words(s)[k].len() ==> !is_ws(#[trigger] words(s)[k][j]),
    decreases s.len(),
{
    if s.len() > 0 {
        lemma_words_shape(s.drop_first());
        let rest = words(s.drop_first());
        if !is_ws(s[0]) && s.len() > 1 && !is_ws(s[1]) {
            lemma_words_nonempty(s.drop_first());
            assert forall|k: int| 0 <= k < words(s).len() implies (#[trigger] words(s)[k]).len()
                > 0 && forall|j: int|
                0 <= j < words(s)[k].len() ==> !is_ws(#[trigger] words(s)[k][j]) by {
                if k == 0 {
                    assert(words(s)[0] == seq![s[0]] + rest[0]);
                    assert forall|j: int| 0 <= j < words(s)[k].len() implies !is_ws(
                        #[trigger] words(s)[k][j],
                    ) by {
                        if j > 0 {
                            assert(words(s)[0][j] == rest[0][j - 1]);
                        }
                    }
                }
            }
        }
    }
}

/// Text with whitespace trimmed at both ends (`str::trim`), as character positions
/// `(start, end)`.
pub fn trim_bounds(s: &[char]) -> (r: (usize, usize))
    ensures
        r.0 <= r.1 <= s@.len(),
        s@.subrange(r.0 as int, r.1 as int) == trim(s@),
{
    let n = s.len();
    let mut a: usize = 0;
    assert(s@.subrange(0, n as int) =~= s@);
    while a < n && char_is_ws(s[a])
        invariant
            a <= n == s@.len(),
            trim_start(s@) == trim_start(s@.subrange(a as int, n as int)),
        decreases n - a,
    {
        assert(s@.subrange(a as int, n as int).drop_first() =~= s@.subrange(a + 1, n as int));
        a = a + 1;
    }
    assert(trim_start(s@.subrange(a as int, n as int)) == s@.subrange(a as int, n as int));
    let mut b: usize = n;
    while b > a && char_is_ws(s[b - 1])
        invariant
            a <= b <= n == s@.len(),
            trim(s@) == trim_end(s@.subrange(a as int, b as int)),
        decreases b - a,
    {
        assert(s@.subrange(a as int, b as int).drop_last() =~= s@.subrange(a as int, b - 1));
        b = b - 1;
    }
    (a, b)
}

/// Pieces of a text split on `" or "`, left to right (`str::split(" or ")`).
pub fn split_or(s: &[char]) -> (r: Vec<Vec<char>>)
    ensures
        texts(r@) == or_pieces(s@),
{
    let n = s.len();
    let mut r: Vec<Vec<char>> = Vec::new();
    let mut start: usize = 0;
    let mut i: usize = 0;
    while i < n
        invariant
            n == s@.len(),
            start <= i <= n,
            texts(r@) + or_pieces_from(s@, start as int, i as int) == or_pieces(s@),
        decreases n - i,
    {
        let found = n - i >= 4 && s[i] == ' ' && s[i + 1] == 'o' && s[i + 2] == 'r' && s[i + 3]
            == ' ';
        proof {
            if i + 4 <= n {
                assert(or_at(s@, i as int) == (s@[i as int] == ' ' && s@[i + 1] == 'o' && s@[i
                    + 2] == 'r' && s@[i + 3] == ' ')) by {
                    if s@[i as int] == ' ' && s@[i + 1] == 'o' && s@[i + 2] == 'r' && s@[i + 3]
                        == ' ' {
                        assert(s@.subrange(i as int, i + 4) =~= or_sep());
                    }
                    if or_at(s@, i as int) {
                        assert(s@.subrange(i as int, i + 4)[0] == ' ');
                        assert(s@.subrange(i as int, i + 4)[1] == 'o');
                        assert(s@.subrange(i as int, i + 4)[2] == 'r');
                        assert(s@.subrange(i as int, i + 4)[3] == ' ');
                    }
                }
            }
        }
        if found {
            let piece = slice_to_vec(s, start, i);
            let ghost old_r = texts(r@);
            r.push(piece);
            assert(texts(r@) =~= old_r.push(s@.subrange(start as int, i as int)));
            assert(or_pieces_from(s@, start as int, i as int) == seq![
                s@.subrange(start as int, i as int),
            ].add(or_pieces_from(s@, i + 4, i + 4)));
            assert(texts(r@) + or_pieces_from(s@, i + 4, i + 4) =~= old_r
                + or_pieces_from(s@, start as int, i as int));
            i = i + 4;
            start = i;
        } else {
            i = i + 1;
        }
    }
    let piece = slice_to_vec(s, start, n);
    let ghost old_r = texts(r@);
    r.push(piece);
    assert(texts(r@) =~= old_r.push(s@.subrange(start as int, n as int)));
    r
}

/// A copy of positions `a..b` of a character slice.
pub fn slice_to_vec(s: &[char], a: usize, b: usize) -> (v: Vec<char>)
    requires
        a <= b <= s@.len(),
    ensures
        v@ == s@.subrange(a as int, b as int),
{
    let mut v: Vec<char> = Vec::new();
    let mut k = a;
    while k < b
        invariant
            a <= k <= b <= s@.len(),
            v@ == s@.subrange(a as int, k as int),
        decreases b - k,
    {
        v.push(s[k]);
        k = k + 1;
    }
    v
}

/// `u32::from_str` on a text: `Some` exactly when the text is a numeral
/// (optional `+`, then decimal digits) whose value fits in 32 bits.
pub fn parse_u32(s: &[char]) -> (r: Option<u32>)
    ensures
        r == u32_numeral(s@),
{
    let n = s.len();
    let start: usize = if n > 0 && s[0] == '+' {
        1
    } else {
        0
    };
    let ghost d = numeral_digits(s@);
    assert(d =~= s@.subrange(start as int, n as int));
    if start == n {
        return None;
    }
    let mut acc: u64 = 0;
    let mut k = start;
    while k < n
        invariant
            start <= k <= n == s@.len(),
            d == s@.subrange(start as int, n as int),
            d == numeral_digits(s@),
            all_digits(s@.subrange(start as int, k as int)),
            acc == digits_value(s@.subrange(start as int, k as int)),
            acc <= u32::MAX,
        decreases n - k,
    {
        let c = s[k];
        let x = c as u32;
        if x < 48 || x > 57 {
            proof {
                assert(d[k - start] == c);
                assert(!is_digit(d[k - start]));
                assert(!all_digits(d));
                assert(u32_numeral(s@) is None);
            }
            return None;
        }
        let ghost pre = s@.subrange(start as int, k as int);
        let ghost post = s@.subrange(start as int, k + 1);
        assert(post.drop_last() =~= pre);
        assert(post.last() == c);
        let next: u64 = acc * 10 + (x - 48) as u64;
        assert(all_digits(post)) by {
            assert forall|j: int| 0 <= j < post.len() implies is_digit(#[trigger] post[j]) by {
                if j < pre.len() {
                    assert(post[j] == pre[j]);
                }
            }
        }
        assert(digits_value(post) == next);
        if next > 0xffff_ffff {
            proof {
                assert(d.subrange(0, (k + 1 - start) as int) =~= post);
                lemma_digits_value_prefix_bound(d, (k + 1 - start) as int);
            }
            return None;
        }
        acc = next;
        k = k + 1;
    }
    assert(s@.subrange(start as int, n as int) == d);
    Some(acc as u32)
}

/// The value of a digit string is at least the value of any of its prefixes.
pub proof fn lemma_digits_value_prefix_bound(d: Seq<char>, k: int)
    requires
        0 <= k <= d.len(),
        all_digits(d.subrange(0, k)),
    ensures
        all_digits(d) ==> digits_value(d) >= digits_value(d.subrange(0, k)),
    decreases d.len(),
{
    if all_digits(d) && k < d.len() {
        assert(all_digits(d.drop_last()));
        assert(d.drop_last().subrange(0, k) =~= d.subrange(0, k));
        lemma_digits_value_prefix_bound(d.drop_last(), k);
    }
    if k == d.len() {
        assert(d.subrange(0, k) =~= d);
    }
}

/// The decimal numeral of a number (`to_string` on an integer).
pub fn decimal_chars(n: u128) -> (r: Vec<char>)
    ensures
        r@ == decimal(n as nat),
    decreases n,
{
    if n < 10 {
        let mut v: Vec<char> = Vec::new();
        v.push(char_of_digit(n));
        assert(v@ =~= decimal(n as nat));
        v
    } else {
        let mut v = decimal_chars(n / 10);
        v.push(char_of_digit(n % 10));
        v
    }
}

fn char_of_digit(d: u128) -> (c: char)
    requires
        d < 10,
    ensures
        c == ((d + 48) as char),
{
    if d == 0 {
        '0'
    } else if d == 1 {
        '1'
    } else if d == 2 {
        '2'
    } else if d == 3 {
        '3'
    } else if d == 4 {
        '4'
    } else if d == 5 {
        '5'
    } else if d == 6 {
        '6'
    } else if d == 7 {
        '7'
    } else if d == 8 {
        '8'
    } else {
        '9'
    }
}

/// Appends a text slice's characters to a `String`.
pub fn append_chars(s: &mut String, cs: &[char])
    ensures
        final(s)@ == old(s)@ + cs@,
{
    let mut i: usize = 0;
    while i < cs.len()
        invariant
            i <= cs@.len(),
            s@ == old(s)@ + cs@.subrange(0, i as int),
        decreases cs@.len() - i,
    {
        push_char(s, cs[i]);
        i = i + 1;
        assert(s@ =~= old(s)@ + cs@.subrange(0, i as int));
    }
    assert(cs@.subrange(0, cs@.len() as int) =~= cs@);
}

/// Appends a `&str` to a `String`.
pub fn append_str(s: &mut String, t: &str)
    ensures
        final(s)@ == old(s)@ + t@,
{
    s.append(t);
}

/// The decimal numeral of `n` as a `String`.
pub fn decimal_string(n: u128) -> (r: String)
    ensures
        r@ == decimal(n as nat),
{
    let cs = decimal_chars(n);
    string_from_chars(cs.as_slice())
}

} // verus!
