//! Character-level text helpers shared by the configuration scanners and the
//! report renderers. Every helper works on the `Seq<char>` view of a string.

use vstd::prelude::*;

verus! {

// ---------------------------------------------------------------------------
// Specifications
// ---------------------------------------------------------------------------

/// The Unicode `White_Space` property, which is what `char::is_whitespace`,
/// `str::trim` and `str::split_whitespace` test.
pub open spec fn is_ws(c: char) -> bool {
    let v = c as u32;
    ||| 0x09 <= v <= 0x0D
    ||| v == 0x20
    ||| v == 0x85
    ||| v == 0xA0
    ||| v == 0x1680
    ||| 0x2000 <= v <= 0x200A
    ||| v == 0x2028
    ||| v == 0x2029
    ||| v == 0x202F
    ||| v == 0x205F
    ||| v == 0x3000
}

/// `s` with its trailing white space removed.
pub open spec fn trim_end(s: Seq<char>) -> Seq<char>
    decreases s.len(),
{
    if s.len() > 0 && is_ws(s.last()) {
        trim_end(s.drop_last())
    } else {
        s
    }
}

/// `s` with its leading white space removed.
pub open spec fn trim_start(s: Seq<char>) -> Seq<char>
    decreases s.len(),
{
    if s.len() > 0 && is_ws(s[0]) {
        trim_start(s.drop_first())
    } else {
        s
    }
}

/// `s` with white space removed at both ends (`str::trim`).
pub open spec fn trim(s: Seq<char>) -> Seq<char> {
    trim_start(trim_end(s))
}

/// `p` is a prefix of `s`.
pub open spec fn starts_with(s: Seq<char>, p: Seq<char>) -> bool {
    p.len() <= s.len() && s.take(p.len() as int) == p
}

/// `p` occurs in `s` starting at index `i`.
pub open spec fn occurs_at(s: Seq<char>, p: Seq<char>, i: int) -> bool {
    0 <= i && i + p.len() <= s.len() && s.subrange(i, i + p.len()) == p
}

/// `p` occurs somewhere in `s` (`str::contains`).
pub open spec fn contains(s: Seq<char>, p: Seq<char>) -> bool {
    exists|i: int| occurs_at(s, p, i)
}

/// A line as `str::lines` yields it: the trailing `'\r'` of a line that
/// ended in `'\n'` is not part of the line.
pub open spec fn strip_cr(s: Seq<char>) -> Seq<char> {
    if s.len() > 0 && s.last() == '\r' {
        s.drop_last()
    } else {
        s
    }
}

/// The lines of `s`, given the characters `cur` of an unfinished line that
/// precede `s`: lines end at `'\n'` (with `"\r\n"` stripped), and a final
/// line ending is optional.
pub open spec fn lines_from(s: Seq<char>, cur: Seq<char>) -> Seq<Seq<char>>
    decreases s.len(),
{
    if s.len() == 0 {
        if cur.len() == 0 {
            Seq::empty()
        } else {
            seq![cur]
        }
    } else if s[0] == '\n' {
        seq![strip_cr(cur)] + lines_from(s.drop_first(), Seq::empty())
    } else {
        lines_from(s.drop_first(), cur.push(s[0]))
    }
}

/// The lines of `s`, as `str::lines` yields them.
pub open spec fn lines(s: Seq<char>) -> Seq<Seq<char>> {
    lines_from(s, Seq::empty())
}

/// The last white-space separated word of a text that ends in a non-space
/// character: everything after its last white space.
pub open spec fn word_suffix(s: Seq<char>) -> Seq<char>
    decreases s.len(),
{
    if s.len() == 0 {
        s
    } else if is_ws(s.last()) {
        Seq::empty()
    } else {
        word_suffix(s.drop_last()).push(s.last())
    }
}

/// The last white-space separated word of `s`
/// (`s.split_whitespace().next_back()`).
pub open spec fn last_word(s: Seq<char>) -> Option<Seq<char>> {
    if trim_end(s).len() == 0 {
        None
    } else {
        Some(word_suffix(trim_end(s)))
    }
}

/// `s` with every occurrence of `from` replaced by `to`, scanning left to
/// right without overlaps (`str::replace`, for a non-empty `from`).
pub open spec fn replace(s: Seq<char>, from: Seq<char>, to: Seq<char>) -> Seq<char>
    recommends
        from.len() > 0,
    decreases s.len(),
{
    if s.len() == 0 || from.len() == 0 {
        s
    } else if starts_with(s, from) {
        to + replace(s.skip(from.len() as int), from, to)
    } else {
        seq![s[0]] + replace(s.drop_first(), from, to)
    }
}

/// `s` with every occurrence of the character `from` replaced by `to`.
pub open spec fn replace_char(s: Seq<char>, from: char, to: Seq<char>) -> Seq<char>
    decreases s.len(),
{
    if s.len() == 0 {
        s
    } else {
        replace_char(s.drop_last(), from, to) + if s.last() == from {
            to
        } else {
            seq![s.last()]
        }
    }
}

/// The decimal digit character for `d < 10`.
pub open spec fn digit_char(d: nat) -> char {
    if d == 0 { '0' }
    else if d == 1 { '1' }
    else if d == 2 { '2' }
    else if d == 3 { '3' }
    else if d == 4 { '4' }
    else if d == 5 { '5' }
    else if d == 6 { '6' }
    else if d == 7 { '7' }
    else if d == 8 { '8' }
    else { '9' }
}

/// The decimal representation of `n`, without leading zeros.
pub open spec fn decimal(n: nat) -> Seq<char>
    decreases n,
{
    if n < 10 {
        seq![digit_char(n)]
    } else {
        decimal(n / 10).push(digit_char(n % 10))
    }
}

/// The decimal representation of a signed number, with a leading `'-'`
/// for negative values.
pub open spec fn signed_decimal(n: int) -> Seq<char> {
    if n < 0 {
        seq!['-'] + decimal((-n) as nat)
    } else {
        decimal(n as nat)
    }
}

/// The digit value of an ASCII decimal digit.
pub open spec fn digit_value(c: char) -> nat {
    ((c as u32) - ('0' as u32)) as nat
}

/// `c` is one of the ASCII digits `'0'..='9'`.
pub open spec fn is_digit(c: char) -> bool {
    '0' as u32 <= c as u32 <= '9' as u32
}

/// All characters of `s` are ASCII digits.
pub open spec fn all_digits(s: Seq<char>) -> bool {
    forall|i: int| 0 <= i < s.len() ==> is_digit(#[trigger] s[i])
}

/// The value of a string of decimal digits.
pub open spec fn digits_value(s: Seq<char>) -> nat
    decreases s.len(),
{
    if s.len() == 0 {
        0
    } else {
        digits_value(s.drop_last()) * 10 + digit_value(s.last())
    }
}


/// The index of the first occurrence of `c` in `s`, if any.
pub open spec fn find_char(s: Seq<char>, c: char) -> Option<nat>
    decreases s.len(),
{
    if s.len() == 0 {
        None
    } else if s[0] == c {
        Some(0)
    } else {
        match find_char(s.drop_first(), c) {
            Some(i) => Some(i + 1),
            None => None,
        }
    }
}

/// The pieces of `s` between occurrences of `sep`, given the characters
/// `cur` of the unfinished piece before `s` (`str::split` on a character).
pub open spec fn split_from(s: Seq<char>, sep: char, cur: Seq<char>) -> Seq<Seq<char>>
    decreases s.len(),
{
    if s.len() == 0 {
        seq![cur]
    } else if s[0] == sep {
        seq![cur] + split_from(s.drop_first(), sep, Seq::empty())
    } else {
        split_from(s.drop_first(), sep, cur.push(s[0]))
    }
}

/// The pieces of `s` between occurrences of `sep` (`str::split`).
pub open spec fn split_on(s: Seq<char>, sep: char) -> Seq<Seq<char>> {
    split_from(s, sep, Seq::empty())
}

/// The value of an unsigned decimal text as `str::parse::<u8>` reads it:
/// an optional `+`, then one or more ASCII digits whose value fits in a
/// `u8`.
pub open spec fn parse_u8_text(s: Seq<char>) -> Option<u8> {
    let d = if s.len() > 0 && s[0] == '+' {
        s.drop_first()
    } else {
        s
    };
    if d.len() > 0 && all_digits(d) && digits_value(d) <= 255 {
        Some(digits_value(d) as u8)
    } else {
        None
    }
}

/// The value of an unsigned decimal text as `str::parse::<u32>` reads it:
/// an optional `+`, then one or more ASCII digits whose value fits in a
/// `u32`.
pub open spec fn parse_u32_text(s: Seq<char>) -> Option<u32> {
    let d = if s.len() > 0 && s[0] == '+' {
        s.drop_first()
    } else {
        s
    };
    if d.len() > 0 && all_digits(d) && digits_value(d) <= 4294967295 {
        Some(digits_value(d) as u32)
    } else {
        None
    }
}

// ---------------------------------------------------------------------------
// Lemmas
// ---------------------------------------------------------------------------

proof fn lemma_lines_from_step(s: Seq<char>, cur: Seq<char>, i: int)
    requires
        0 <= i < s.len(),
        s[i] != '\n',
    ensures
        lines_from(s.skip(i), cur) == lines_from(s.skip(i + 1), cur.push(s[i])),
{
    assert(s.skip(i).drop_first() =~= s.skip(i + 1));
}

proof fn lemma_lines_from_nl(s: Seq<char>, cur: Seq<char>, i: int)
    requires
        0 <= i < s.len(),
        s[i] == '\n',
    ensures
        lines_from(s.skip(i), cur) == seq![strip_cr(cur)] + lines_from(
            s.skip(i + 1),
            Seq::empty(),
        ),
{
    assert(s.skip(i).drop_first() =~= s.skip(i + 1));
}

/// There are no more lines than characters.
pub proof fn lemma_lines_len(s: Seq<char>)
    ensures
        lines(s).len() <= s.len(),
{
    lemma_lines_from_len(s, Seq::empty());
}

proof fn lemma_lines_from_len(s: Seq<char>, cur: Seq<char>)
    ensures
        lines_from(s, cur).len() <= s.len() + if cur.len() > 0 {
            1int
        } else {
            0int
        },
    decreases s.len(),
{
    if s.len() > 0 {
        if s[0] == '\n' {
            lemma_lines_from_len(s.drop_first(), Seq::empty());
        } else {
            lemma_lines_from_len(s.drop_first(), cur.push(s[0]));
        }
    }
}


/// Splitting past a piece free of `sep` continues the unfinished piece.
pub proof fn lemma_split_from_piece(a: Seq<char>, rest: Seq<char>, sep: char, cur: Seq<char>)
    requires
        forall|i: int| 0 <= i < a.len() ==> a[i] != sep,
    ensures
        split_from(a + rest, sep, cur) == split_from(rest, sep, cur + a),
    decreases a.len(),
{
    if a.len() == 0 {
        assert(a + rest =~= rest);
        assert(cur + a =~= cur);
    } else {
        assert((a + rest).drop_first() =~= a.drop_first() + rest);
        lemma_split_from_piece(a.drop_first(), rest, sep, cur.push(a[0]));
        assert(cur.push(a[0]) + a.drop_first() =~= cur + a);
    }
}

/// Three pieces free of `sep`, joined by `sep`, split back into those
/// pieces.
pub proof fn lemma_split_three(a: Seq<char>, b: Seq<char>, c: Seq<char>, sep: char)
    requires
        forall|i: int| 0 <= i < a.len() ==> a[i] != sep,
        forall|i: int| 0 <= i < b.len() ==> b[i] != sep,
        forall|i: int| 0 <= i < c.len() ==> c[i] != sep,
    ensures
        split_on(a + seq![sep] + b + seq![sep] + c, sep) == seq![a, b, c],
{
    let e = Seq::<char>::empty();
    let r1 = seq![sep] + b + seq![sep] + c;
    let r2 = seq![sep] + c;
    assert(a + seq![sep] + b + seq![sep] + c =~= a + r1);
    lemma_split_from_piece(a, r1, sep, e);
    assert(e + a =~= a);
    assert(r1.drop_first() =~= b + r2);
    lemma_split_from_piece(b, r2, sep, e);
    assert(e + b =~= b);
    assert(r2.drop_first() =~= c + e);
    lemma_split_from_piece(c, e, sep, e);
    assert(e + c =~= c);
    assert(c + e =~= c);
    assert(split_on(a + seq![sep] + b + seq![sep] + c, sep) =~= seq![a, b, c]);
}

/// The digit character of a value below 10 is a digit of that value.
proof fn lemma_digit_char(d: nat)
    requires
        d < 10,
    ensures
        is_digit(digit_char(d)),
        digit_value(digit_char(d)) == d,
        digit_char(d) == '0' <==> d == 0,
{
}

/// A decimal text is all digits, and its value is the number written.
pub proof fn lemma_decimal_digits(n: nat)
    ensures
        decimal(n).len() > 0,
        all_digits(decimal(n)),
        digits_value(decimal(n)) == n,
        decimal(n)[0] == '0' ==> n == 0,
        forall|i: int| 0 <= i < decimal(n).len() ==> is_digit(#[trigger] decimal(n)[i]),
    decreases n,
{
    if n >= 10 {
        lemma_decimal_digits(n / 10);
        lemma_digit_char(n % 10);
        let d = decimal(n / 10);
        let s = decimal(n);
        assert(s == d.push(digit_char(n % 10)));
        assert(s.drop_last() =~= d);
        assert(forall|i: int| 0 <= i < d.len() ==> s[i] == d[i]);
        assert(digits_value(s) == digits_value(d) * 10 + digit_value(digit_char(n % 10)));
        assert(n == (n / 10) * 10 + n % 10);
        assert(digits_value(s) == n);
    } else {
        lemma_digit_char(n);
        let s = decimal(n);
        assert(s.drop_last() =~= Seq::<char>::empty());
        assert(digits_value(Seq::<char>::empty()) == 0);
        assert(s.last() == digit_char(n));
        assert(digits_value(s) == digits_value(s.drop_last()) * 10 + digit_value(s.last()));
        assert(digits_value(s) == n);
    }
}

/// The decimal text of a number below 1000 has at most three digits.
pub proof fn lemma_decimal_len(n: nat)
    ensures
        n < 10 ==> decimal(n).len() == 1,
        10 <= n < 100 ==> decimal(n).len() == 2,
        100 <= n < 1000 ==> decimal(n).len() == 3,
{
    if n >= 10 {
        assert(decimal(n).len() == decimal(n / 10).len() + 1);
        if n >= 100 {
            assert(decimal(n / 10).len() == decimal(n / 100).len() + 1);
        }
    }
}

/// Four pieces free of `sep`, joined by `sep`, split back into those
/// pieces.
pub proof fn lemma_split_four(a: Seq<char>, b: Seq<char>, c: Seq<char>, d: Seq<char>, sep: char)
    requires
        forall|i: int| 0 <= i < a.len() ==> a[i] != sep,
        forall|i: int| 0 <= i < b.len() ==> b[i] != sep,
        forall|i: int| 0 <= i < c.len() ==> c[i] != sep,
        forall|i: int| 0 <= i < d.len() ==> d[i] != sep,
    ensures
        split_on(a + seq![sep] + b + seq![sep] + c + seq![sep] + d, sep) == seq![a, b, c, d],
{
    let e = Seq::<char>::empty();
    let r1 = seq![sep] + b + seq![sep] + c + seq![sep] + d;
    let r2 = seq![sep] + c + seq![sep] + d;
    let r3 = seq![sep] + d;
    assert(a + seq![sep] + b + seq![sep] + c + seq![sep] + d =~= a + r1);
    lemma_split_from_piece(a, r1, sep, e);
    assert(e + a =~= a);
    assert(r1.drop_first() =~= b + r2);
    lemma_split_from_piece(b, r2, sep, e);
    assert(e + b =~= b);
    assert(r2.drop_first() =~= c + r3);
    lemma_split_from_piece(c, r3, sep, e);
    assert(e + c =~= c);
    assert(r3.drop_first() =~= d + e);
    lemma_split_from_piece(d, e, sep, e);
    assert(e + d =~= d);
    assert(split_on(a + seq![sep] + b + seq![sep] + c + seq![sep] + d, sep) =~= seq![a, b, c, d]);
}

/// `find_char` is the first occurrence.
pub proof fn lemma_find_char(s: Seq<char>, c: char, i: int)
    requires
        0 <= i <= s.len(),
        forall|k: int| 0 <= k < i ==> s[k] != c,
    ensures
        i < s.len() && s[i] == c ==> find_char(s, c) == Some(i as nat),
        i == s.len() ==> find_char(s, c) is None,
    decreases i,
{
    if i > 0 {
        assert forall|k: int| 0 <= k < i - 1 implies s.drop_first()[k] != c by {
            assert(s[k + 1] != c);
        }
        lemma_find_char(s.drop_first(), c, i - 1);
    } else if s.len() > 0 {
    }
}

proof fn lemma_split_from_step(s: Seq<char>, sep: char, cur: Seq<char>, i: int)
    requires
        0 <= i < s.len(),
    ensures
        s[i] == sep ==> split_from(s.skip(i), sep, cur) == seq![cur] + split_from(
            s.skip(i + 1),
            sep,
            Seq::empty(),
        ),
        s[i] != sep ==> split_from(s.skip(i), sep, cur) == split_from(
            s.skip(i + 1),
            sep,
            cur.push(s[i]),
        ),
{
    assert(s.skip(i).drop_first() =~= s.skip(i + 1));
}


/// A digit string is worth at least any of its prefixes.
pub proof fn lemma_digits_value_prefix(s: Seq<char>, k: int)
    requires
        0 <= k <= s.len(),
        all_digits(s),
    ensures
        digits_value(s.take(k)) <= digits_value(s),
    decreases s.len() - k,
{
    if k < s.len() {
        lemma_digits_value_prefix(s, k + 1);
        assert(s.take(k + 1).drop_last() =~= s.take(k));
    } else {
        assert(s.take(k) =~= s);
    }
}

proof fn lemma_decimal_nonempty(n: nat)
    ensures
        decimal(n).len() > 0,
    decreases n,
{
    if n >= 10 {
        lemma_decimal_nonempty(n / 10);
    }
}

// ---------------------------------------------------------------------------
// Trusted std calls
// ---------------------------------------------------------------------------

/// What `str::to_lowercase` returns for the characters `s`: the Unicode
/// lowercase mapping of the whole string, which depends on `s` alone.
pub uninterp spec fn lowercase(s: Seq<char>) -> Seq<char>;

/// Every character of `s` is ASCII.
pub open spec fn is_ascii_text(s: Seq<char>) -> bool {
    forall|i: int| 0 <= i < s.len() ==> (#[trigger] s[i] as u32) < 128
}

/// `c` with `A`..`Z` mapped to `a`..`z`.
pub open spec fn ascii_lower_char(c: char) -> char {
    if 'A' <= c && c <= 'Z' {
        ((c as u32) + 32) as char
    } else {
        c
    }
}

/// `s` with each ASCII capital letter made small.
pub open spec fn ascii_lower(s: Seq<char>) -> Seq<char> {
    s.map_values(|c: char| ascii_lower_char(c))
}

/// The lowercase form of `s`: on ASCII text each capital letter made
/// small, else the Unicode mapping [`lowercase`].
pub open spec fn lower(s: Seq<char>) -> Seq<char> {
    if is_ascii_text(s) {
        ascii_lower(s)
    } else {
        lowercase(s)
    }
}

/// Calls `str::to_lowercase`. The claim is that the result is the function
/// `lowercase` of the input characters, and that on ASCII text it maps `A`..`Z`
/// to `a`..`z` and keeps every other character (the Unicode lowercase
/// mapping of the ASCII range, which `str::to_ascii_lowercase` shares); the
/// mapping of other characters is not stated.
#[verifier::external_body]
fn std_to_lowercase(s: &str) -> (r: String)
    ensures
        r@ == lowercase(s@),
        is_ascii_text(s@) ==> r@ == ascii_lower(s@),
{
    s.to_lowercase()
}

/// Calls `String::push`, which appends one character.
#[verifier::external_body]
fn std_string_push(s: &mut String, c: char)
    ensures
        final(s)@ == old(s)@.push(c),
{
    s.push(c)
}

// ---------------------------------------------------------------------------
// Executable helpers
// ---------------------------------------------------------------------------

/// Collects the characters of `s` in order.
pub fn chars_of(s: &str) -> (v: Vec<char>)
    ensures
        v@ == s@,
{
    let mut v: Vec<char> = Vec::new();
    for c in it: s.chars()
        invariant
            v@ == it.history(),
    {
        v.push(c);
    }
    v
}

/// Appends the characters `cs` to `out`.
pub fn push_chars(out: &mut String, cs: &[char])
    ensures
        final(out)@ == old(out)@ + cs@,
{
    let ghost start = out@;
    let mut i: usize = 0;
    while i < cs.len()
        invariant
            i <= cs.len(),
            out@ == start + cs@.take(i as int),
        decreases cs.len() - i,
    {
        std_string_push(out, cs[i]);
        proof {
            assert(cs@.take(i + 1) =~= cs@.take(i as int).push(cs@[i as int]));
        }
        i = i + 1;
    }
    proof {
        assert(cs@.take(cs.len() as int) =~= cs@);
    }
}

/// Appends one character to `out`.
pub fn push_char(out: &mut String, c: char)
    ensures
        final(out)@ == old(out)@.push(c),
{
    std_string_push(out, c);
}

/// Appends the string `s` to `out`.
pub fn push_str(out: &mut String, s: &str)
    ensures
        final(out)@ == old(out)@ + s@,
{
    let cs = chars_of(s);
    push_chars(out, cs.as_slice());
}

/// A `String` holding the characters `cs`.
pub fn string_of(cs: &[char]) -> (r: String)
    ensures
        r@ == cs@,
{
    let mut r = String::new();
    push_chars(&mut r, cs);
    proof {
        assert(Seq::<char>::empty() + cs@ =~= cs@);
    }
    r
}

/// The characters of the lowercase form of `cs` (`str::to_lowercase`).
pub fn to_lower(cs: &[char]) -> (r: Vec<char>)
    ensures
        r@ == lower(cs@),
{
    let s = string_of(cs);
    let l = std_to_lowercase(s.as_str());
    chars_of(l.as_str())
}

/// `char::is_whitespace`.
pub fn is_whitespace(c: char) -> (r: bool)
    ensures
        r == is_ws(c),
{
    let v = c as u32;
    (0x09 <= v && v <= 0x0D) || v == 0x20 || v == 0x85 || v == 0xA0 || v == 0x1680 || (0x2000
        <= v && v <= 0x200A) || v == 0x2028 || v == 0x2029 || v == 0x202F || v == 0x205F || v
        == 0x3000
}

/// `cs` with white space removed at both ends (`str::trim`).
pub fn trim_chars(cs: &[char]) -> (r: Vec<char>)
    ensures
        r@ == trim(cs@),
{
    let mut end = cs.len();
    proof {
        assert(cs@.take(cs.len() as int) =~= cs@);
    }
    while end > 0 && is_whitespace(cs[end - 1])
        invariant
            end <= cs.len(),
            trim_end(cs@) == trim_end(cs@.take(end as int)),
        decreases end,
    {
        proof {
            assert(cs@.take(end as int).drop_last() =~= cs@.take(end - 1));
        }
        end = end - 1;
    }
    let mut start: usize = 0;
    while start < end && is_whitespace(cs[start])
        invariant
            start <= end <= cs.len(),
            trim_end(cs@) == cs@.take(end as int),
            trim(cs@) == trim_start(cs@.subrange(start as int, end as int)),
        decreases end - start,
    {
        proof {
            assert(cs@.subrange(start as int, end as int).drop_first() =~= cs@.subrange(
                start + 1,
                end as int,
            ));
        }
        start = start + 1;
    }
    let mut r: Vec<char> = Vec::new();
    let mut i = start;
    while i < end
        invariant
            start <= i <= end <= cs.len(),
            r@ == cs@.subrange(start as int, i as int),
        decreases end - i,
    {
        r.push(cs[i]);
        proof {
            assert(cs@.subrange(start as int, i + 1) =~= cs@.subrange(start as int, i as int).push(
                cs@[i as int],
            ));
        }
        i = i + 1;
    }
    r
}

/// `cs` with its trailing white space removed (`str::trim_end`).
pub fn trim_end_chars(cs: &[char]) -> (r: Vec<char>)
    ensures
        r@ == trim_end(cs@),
{
    let mut end = cs.len();
    proof {
        assert(cs@.take(cs.len() as int) =~= cs@);
    }
    while end > 0 && is_whitespace(cs[end - 1])
        invariant
            end <= cs.len(),
            trim_end(cs@) == trim_end(cs@.take(end as int)),
        decreases end,
    {
        proof {
            assert(cs@.take(end as int).drop_last() =~= cs@.take(end - 1));
        }
        end = end - 1;
    }
    let mut r: Vec<char> = Vec::new();
    let mut i: usize = 0;
    while i < end
        invariant
            i <= end <= cs.len(),
            r@ == cs@.take(i as int),
        decreases end - i,
    {
        r.push(cs[i]);
        proof {
            assert(cs@.take(i + 1) =~= cs@.take(i as int).push(cs@[i as int]));
        }
        i = i + 1;
    }
    r
}

/// Whether `p` occurs in `s` at index `i`.
pub fn matches_at(s: &[char], p: &[char], i: usize) -> (r: bool)
    ensures
        r == occurs_at(s@, p@, i as int),
{
    if i > s.len() || p.len() > s.len() - i {
        return false;
    }
    let mut j: usize = 0;
    while j < p.len()
        invariant
            i + p.len() <= s.len(),
            j <= p.len(),
            forall|k: int| 0 <= k < j ==> s@[i + k] == p@[k],
        decreases p.len() - j,
    {
        if s[i + j] != p[j] {
            proof {
                assert(s@.subrange(i as int, i + p.len())[j as int] != p@[j as int]);
            }
            return false;
        }
        j = j + 1;
    }
    proof {
        assert(s@.subrange(i as int, i + p.len()) =~= p@);
    }
    true
}

/// Whether `s` begins with `p`.
pub fn starts_with_chars(s: &[char], p: &[char]) -> (r: bool)
    ensures
        r == starts_with(s@, p@),
{
    let r = matches_at(s, p, 0);
    proof {
        assert(s@.subrange(0, p@.len() as int) == s@.take(p@.len() as int));
    }
    r
}

/// Whether `s` begins with the text `p`.
pub fn starts_with_str(s: &[char], p: &str) -> (r: bool)
    ensures
        r == starts_with(s@, p@),
{
    let pc = chars_of(p);
    starts_with_chars(s, pc.as_slice())
}

/// Whether `p` occurs in `s`.
pub fn contains_chars(s: &[char], p: &[char]) -> (r: bool)
    ensures
        r == contains(s@, p@),
{
    if p.len() > s.len() {
        return false;
    }
    let mut i: usize = 0;
    while i <= s.len() && p.len() <= s.len() - i
        invariant
            i <= s.len(),
            forall|k: int| 0 <= k < i ==> !occurs_at(s@, p@, k),
        decreases s.len() - i,
    {
        if p.len() == 0 {
            proof {
                assert(occurs_at(s@, p@, i as int)) by {
                    assert(s@.subrange(i as int, i as int) =~= p@);
                }
            }
            return true;
        }
        if matches_at(s, p, i) {
            return true;
        }
        i = i + 1;
    }
    false
}

/// Whether the text `p` occurs in `s`.
pub fn contains_str(s: &[char], p: &str) -> (r: bool)
    ensures
        r == contains(s@, p@),
{
    let pc = chars_of(p);
    contains_chars(s, pc.as_slice())
}

/// Whether the character `c` occurs in `s`.
pub fn contains_char(s: &[char], c: char) -> (r: bool)
    ensures
        r == s@.contains(c),
{
    let mut i: usize = 0;
    while i < s.len()
        invariant
            i <= s.len(),
            forall|k: int| 0 <= k < i ==> s@[k] != c,
        decreases s.len() - i,
    {
        if s[i] == c {
            return true;
        }
        i = i + 1;
    }
    false
}

/// Whether `s` holds exactly the text `p`.
pub fn eq_str(s: &[char], p: &str) -> (r: bool)
    ensures
        r == (s@ == p@),
{
    let pc = chars_of(p);
    if s.len() != pc.len() {
        return false;
    }
    let r = matches_at(s, pc.as_slice(), 0);
    proof {
        assert(s@.subrange(0, s@.len() as int) =~= s@);
    }
    r
}

/// Splits `s` into lines exactly as `str::lines` does.
pub fn split_lines(s: &[char]) -> (r: Vec<Vec<char>>)
    ensures
        r@.map_values(|l: Vec<char>| l@) == lines(s@),
{
    let mut out: Vec<Vec<char>> = Vec::new();
    let mut cur: Vec<char> = Vec::new();
    let mut i: usize = 0;
    proof {
        assert(s@.skip(0) =~= s@);
    }
    while i < s.len()
        invariant
            i <= s.len(),
            lines(s@) == out@.map_values(|l: Vec<char>| l@) + lines_from(s@.skip(i as int), cur@),
        decreases s.len() - i,
    {
        let c = s[i];
        if c == '\n' {
            proof {
                lemma_lines_from_nl(s@, cur@, i as int);
            }
            let ghost prev = cur@;
            let mut line = cur;
            if line.len() > 0 && line[line.len() - 1] == '\r' {
                line.pop();
                proof {
                    assert(line@ =~= prev.drop_last());
                }
            }
            let ghost done = out@.map_values(|l: Vec<char>| l@);
            let ghost lv = line@;
            out.push(line);
            cur = Vec::new();
            proof {
                assert(lv == strip_cr(prev));
                assert(out@.map_values(|l: Vec<char>| l@) =~= done.push(lv));
                assert(done.push(lv) + lines_from(s@.skip(i + 1), Seq::empty()) =~= done + (
                seq![lv] + lines_from(s@.skip(i + 1), Seq::empty())));
                assert(cur@ =~= Seq::<char>::empty());
            }
        } else {
            proof {
                lemma_lines_from_step(s@, cur@, i as int);
            }
            cur.push(c);
        }
        i = i + 1;
    }
    proof {
        assert(s@.skip(s.len() as int) =~= Seq::<char>::empty());
    }
    if cur.len() > 0 {
        let ghost done = out@.map_values(|l: Vec<char>| l@);
        out.push(cur);
        proof {
            assert(out@.map_values(|l: Vec<char>| l@) =~= done.push(cur@));
            assert(done.push(cur@) =~= done + seq![cur@]);
        }
    } else {
        proof {
            assert(out@.map_values(|l: Vec<char>| l@) + Seq::<Seq<char>>::empty() =~= out@.map_values(|l: Vec<char>| l@));
        }
    }
    out
}


/// The last white-space separated word of `s`
/// (`s.split_whitespace().next_back()`).
pub fn last_word_chars(s: &[char]) -> (r: Option<Vec<char>>)
    ensures
        match r {
            Some(w) => last_word(s@) == Some(w@),
            None => last_word(s@) is None,
        },
{
    let t = trim_end_chars(s);
    if t.len() == 0 {
        return None;
    }
    let mut k = t.len();
    proof {
        assert(t@.take(t.len() as int) =~= t@);
        assert(t@.subrange(t.len() as int, t.len() as int) =~= Seq::<char>::empty());
    }
    while k > 0 && !is_whitespace(t[k - 1])
        invariant
            k <= t.len(),
            word_suffix(t@) == word_suffix(t@.take(k as int)) + t@.subrange(k as int, t.len() as int),
        decreases k,
    {
        proof {
            let pre = t@.take(k as int);
            assert(pre.drop_last() =~= t@.take(k - 1));
            assert(pre.last() == t@[k - 1]);
            assert(t@.subrange(k - 1, t.len() as int) =~= seq![t@[k - 1]] + t@.subrange(k as int, t.len() as int));
            assert(word_suffix(pre) == word_suffix(t@.take(k - 1)).push(t@[k - 1]));
            assert(word_suffix(t@.take(k - 1)).push(t@[k - 1]) + t@.subrange(k as int, t.len() as int)
                =~= word_suffix(t@.take(k - 1)) + t@.subrange(k - 1, t.len() as int));
        }
        k = k - 1;
    }
    let mut w: Vec<char> = Vec::new();
    let mut i = k;
    while i < t.len()
        invariant
            k <= i <= t.len(),
            w@ == t@.subrange(k as int, i as int),
        decreases t.len() - i,
    {
        w.push(t[i]);
        proof {
            assert(t@.subrange(k as int, i + 1) =~= t@.subrange(k as int, i as int).push(t@[i as int]));
        }
        i = i + 1;
    }
    proof {
        if k == 0 {
            assert(t@.take(0) =~= Seq::<char>::empty());
        }
        assert(word_suffix(t@.take(k as int)) =~= Seq::<char>::empty());
        assert(Seq::<char>::empty() + w@ =~= w@);
    }
    Some(w)
}


/// The digit character of `d % 10`.
fn digit_of(d: u64) -> (c: char)
    requires
        d < 10,
    ensures
        c == digit_char(d as nat),
{
    if d == 0 {
        '0'
    } else if d == 1 {
        '1'
    } else if d == 2 {
        '2'
    } else if d == 3 {
        '3'
    } else if d == 4 {
        '4'
    } else if d == 5 {
        '5'
    } else if d == 6 {
        '6'
    } else if d == 7 {
        '7'
    } else if d == 8 {
        '8'
    } else {
        '9'
    }
}

/// The decimal representation of `n`.
pub fn decimal_chars(n: u64) -> (r: Vec<char>)
    ensures
        r@ == decimal(n as nat),
{
    let mut m = n;
    let mut acc: Vec<char> = Vec::new();
    proof {
        assert(decimal(n as nat) =~= decimal(m as nat) + acc@);
    }
    while m >= 10
        invariant
            decimal(n as nat) == decimal(m as nat) + acc@,
        decreases m,
    {
        let c = digit_of(m % 10);
        let ghost old_acc = acc@;
        acc.insert(0, c);
        proof {
            assert(acc@ =~= seq![c] + old_acc);
            assert(decimal(m as nat) == decimal((m / 10) as nat).push(c));
            assert(decimal((m / 10) as nat).push(c) + old_acc =~= decimal((m / 10) as nat) + acc@);
        }
        m = m / 10;
    }
    let c = digit_of(m);
    let ghost old_acc = acc@;
    acc.insert(0, c);
    proof {
        assert(acc@ =~= seq![c] + old_acc);
        assert(decimal(m as nat) =~= seq![c]);
    }
    acc
}

/// Appends the decimal representation of `n` to `out`.
pub fn push_decimal(out: &mut String, n: u64)
    ensures
        final(out)@ == old(out)@ + decimal(n as nat),
{
    let d = decimal_chars(n);
    push_chars(out, d.as_slice());
}

/// Appends the decimal text of a signed number.
pub fn push_signed(out: &mut String, n: i64)
    ensures
        final(out)@ == old(out)@ + signed_decimal(n as int),
{
    if n < 0 {
        push_char(out, '-');
        let m: u64 = (-(n + 1)) as u64 + 1;
        push_decimal(out, m);
        proof {
            assert(old(out)@.push('-') + decimal(m as nat) =~= old(out)@ + (seq!['-'] + decimal(
                (-n) as nat,
            )));
        }
    } else {
        push_decimal(out, n as u64);
    }
}

/// `s` with every occurrence of the character `from` replaced by `to`.
pub fn replace_char_chars(s: &[char], from: char, to: &str) -> (r: Vec<char>)
    ensures
        r@ == replace_char(s@, from, to@),
{
    let tc = chars_of(to);
    let mut r: Vec<char> = Vec::new();
    let mut i: usize = 0;
    proof {
        assert(s@.take(0) =~= Seq::<char>::empty());
    }
    while i < s.len()
        invariant
            i <= s.len(),
            tc@ == to@,
            r@ == replace_char(s@.take(i as int), from, to@),
        decreases s.len() - i,
    {
        let ghost before = r@;
        proof {
            assert(s@.take(i + 1).drop_last() =~= s@.take(i as int));
        }
        if s[i] == from {
            let mut j: usize = 0;
            while j < tc.len()
                invariant
                    j <= tc.len(),
                    r@ == before + tc@.take(j as int),
                decreases tc.len() - j,
            {
                r.push(tc[j]);
                proof {
                    assert(tc@.take(j + 1) =~= tc@.take(j as int).push(tc@[j as int]));
                }
                j = j + 1;
            }
            proof {
                assert(tc@.take(tc.len() as int) =~= tc@);
            }
        } else {
            r.push(s[i]);
            proof {
                assert(r@ =~= before + seq![s@[i as int]]);
            }
        }
        i = i + 1;
    }
    proof {
        assert(s@.take(s.len() as int) =~= s@);
    }
    r
}


/// The index of the first occurrence of `c` in `s` (`str::find`).
pub fn find_char_index(s: &[char], c: char) -> (r: Option<usize>)
    ensures
        match r {
            Some(i) => i < s.len() && s@[i as int] == c && find_char(s@, c) == Some(i as nat),
            None => find_char(s@, c) is None,
        },
{
    let mut i: usize = 0;
    while i < s.len()
        invariant
            i <= s.len(),
            forall|k: int| 0 <= k < i ==> s@[k] != c,
        decreases s.len() - i,
    {
        if s[i] == c {
            proof {
                lemma_find_char(s@, c, i as int);
            }
            return Some(i);
        }
        i = i + 1;
    }
    proof {
        lemma_find_char(s@, c, i as int);
    }
    None
}

/// The characters of `s` from index `a` up to `b`.
pub fn slice_chars(s: &[char], a: usize, b: usize) -> (r: Vec<char>)
    requires
        a <= b <= s.len(),
    ensures
        r@ == s@.subrange(a as int, b as int),
{
    let mut r: Vec<char> = Vec::new();
    let mut i = a;
    while i < b
        invariant
            a <= i <= b <= s.len(),
            r@ == s@.subrange(a as int, i as int),
        decreases b - i,
    {
        r.push(s[i]);
        proof {
            assert(s@.subrange(a as int, i + 1) =~= s@.subrange(a as int, i as int).push(s@[i as int]));
        }
        i = i + 1;
    }
    r
}

/// `s` with every occurrence of `from` replaced by `to`, left to right
/// without overlaps (`str::replace`, for a non-empty `from`).
pub fn replace_chars(s: &[char], from: &[char], to: &[char]) -> (r: Vec<char>)
    requires
        from.len() > 0,
    ensures
        r@ == replace(s@, from@, to@),
{
    let mut r: Vec<char> = Vec::new();
    let mut i: usize = 0;
    proof {
        assert(s@.skip(0) =~= s@);
    }
    while i < s.len()
        invariant
            i <= s.len(),
            from.len() > 0,
            replace(s@, from@, to@) == r@ + replace(s@.skip(i as int), from@, to@),
        decreases s.len() - i,
    {
        let ghost rest = s@.skip(i as int);
        if matches_at(s, from, i) {
            proof {
                assert(rest.take(from@.len() as int) =~= s@.subrange(i as int, i + from@.len()));
                assert(rest.skip(from@.len() as int) =~= s@.skip(i + from@.len()));
            }
            let ghost before = r@;
            let mut k: usize = 0;
            while k < to.len()
                invariant
                    k <= to.len(),
                    r@ == before + to@.take(k as int),
                decreases to.len() - k,
            {
                r.push(to[k]);
                proof {
                    assert(to@.take(k + 1) =~= to@.take(k as int).push(to@[k as int]));
                }
                k = k + 1;
            }
            proof {
                assert(to@.take(to.len() as int) =~= to@);
                assert(before + (to@ + replace(s@.skip(i + from@.len()), from@, to@)) =~= r@
                    + replace(s@.skip(i + from@.len()), from@, to@));
            }
            i = i + from.len();
        } else {
            proof {
                if starts_with(rest, from@) {
                    assert(rest.take(from@.len() as int) =~= s@.subrange(i as int, i + from@.len()));
                }
                assert(rest.drop_first() =~= s@.skip(i + 1));
                assert(r@ + (seq![s@[i as int]] + replace(s@.skip(i + 1), from@, to@)) =~= r@.push(
                    s@[i as int],
                ) + replace(s@.skip(i + 1), from@, to@));
            }
            r.push(s[i]);
            i = i + 1;
        }
    }
    proof {
        assert(s@.skip(s.len() as int) =~= Seq::<char>::empty());
        assert(r@ + Seq::<char>::empty() =~= r@);
    }
    r
}

/// Splits `s` at every occurrence of `sep` (`str::split`).
pub fn split_chars(s: &[char], sep: char) -> (r: Vec<Vec<char>>)
    ensures
        r@.map_values(|p: Vec<char>| p@) == split_on(s@, sep),
{
    let mut out: Vec<Vec<char>> = Vec::new();
    let mut cur: Vec<char> = Vec::new();
    let mut i: usize = 0;
    proof {
        assert(s@.skip(0) =~= s@);
    }
    while i < s.len()
        invariant
            i <= s.len(),
            split_on(s@, sep) == out@.map_values(|p: Vec<char>| p@) + split_from(
                s@.skip(i as int),
                sep,
                cur@,
            ),
        decreases s.len() - i,
    {
        proof {
            lemma_split_from_step(s@, sep, cur@, i as int);
        }
        if s[i] == sep {
            let ghost done = out@.map_values(|p: Vec<char>| p@);
            let ghost cv = cur@;
            out.push(cur);
            cur = Vec::new();
            proof {
                assert(out@.map_values(|p: Vec<char>| p@) =~= done.push(cv));
                assert(done.push(cv) + split_from(s@.skip(i + 1), sep, Seq::empty()) =~= done + (
                seq![cv] + split_from(s@.skip(i + 1), sep, Seq::empty())));
                assert(cur@ =~= Seq::<char>::empty());
            }
        } else {
            cur.push(s[i]);
        }
        i = i + 1;
    }
    proof {
        assert(s@.skip(s.len() as int) =~= Seq::<char>::empty());
    }
    let ghost done = out@.map_values(|p: Vec<char>| p@);
    let ghost cv = cur@;
    out.push(cur);
    proof {
        assert(out@.map_values(|p: Vec<char>| p@) =~= done + seq![cv]);
    }
    out
}

/// Whether `c` is an ASCII decimal digit.
pub fn is_digit_char(c: char) -> (r: bool)
    ensures
        r == is_digit(c),
{
    '0' <= c && c <= '9'
}

/// Reads a text as `str::parse::<u8>` does: an optional `+`, then ASCII
/// digits whose value fits in a `u8`.
pub fn parse_u8(s: &[char]) -> (r: Option<u8>)
    ensures
        r == parse_u8_text(s@),
{
    let start: usize = if s.len() > 0 && s[0] == '+' {
        1
    } else {
        0
    };
    let ghost d = if s@.len() > 0 && s@[0] == '+' {
        s@.drop_first()
    } else {
        s@
    };
    proof {
        assert(d =~= s@.skip(start as int));
    }
    if start >= s.len() {
        return None;
    }
    let mut value: u32 = 0;
    let mut i = start;
    proof {
        assert(s@.subrange(start as int, start as int) =~= Seq::<char>::empty());
    }
    while i < s.len()
        invariant
            start <= i <= s.len(),
            d == s@.skip(start as int),
            d == (if s@.len() > 0 && s@[0] == '+' {
                s@.drop_first()
            } else {
                s@
            }),
            d.len() > 0,
            value == digits_value(s@.subrange(start as int, i as int)),
            value <= 255,
            all_digits(s@.subrange(start as int, i as int)),
        decreases s.len() - i,
    {
        let c = s[i];
        if !is_digit_char(c) {
            proof {
                assert(d[i - start] == c);
                assert(!is_digit(d[i - start]));
                assert(!all_digits(d));
                assert(parse_u8_text(s@) is None);
            }
            return None;
        }
        let next = value * 10 + (c as u32 - '0' as u32);
        proof {
            let pre = s@.subrange(start as int, i as int);
            let now = s@.subrange(start as int, i + 1);
            assert(now.drop_last() =~= pre);
            assert(now.last() == c);
            assert(digits_value(now) == digits_value(pre) * 10 + digit_value(c));
        }
        if next > 255 {
            proof {
                if all_digits(d) {
                    lemma_digits_value_prefix(d, (i + 1 - start) as int);
                    assert(s@.subrange(start as int, i + 1) =~= d.take(i + 1 - start));
                    assert(digits_value(d) > 255);
                }
                assert(parse_u8_text(s@) is None);
            }
            return None;
        }
        value = next;
        i = i + 1;
    }
    proof {
        assert(s@.subrange(start as int, s.len() as int) =~= d);
    }
    Some(value as u8)
}

/// Reads a text as `str::parse::<u8>` does: an optional `+`, then ASCII
/// digits whose value fits in a `u32`.
pub fn parse_u32(s: &[char]) -> (r: Option<u32>)
    ensures
        r == parse_u32_text(s@),
{
    let start: usize = if s.len() > 0 && s[0] == '+' {
        1
    } else {
        0
    };
    let ghost d = if s@.len() > 0 && s@[0] == '+' {
        s@.drop_first()
    } else {
        s@
    };
    proof {
        assert(d =~= s@.skip(start as int));
    }
    if start >= s.len() {
        return None;
    }
    let mut value: u64 = 0;
    let mut i = start;
    proof {
        assert(s@.subrange(start as int, start as int) =~= Seq::<char>::empty());
    }
    while i < s.len()
        invariant
            start <= i <= s.len(),
            d == s@.skip(start as int),
            d == (if s@.len() > 0 && s@[0] == '+' {
                s@.drop_first()
            } else {
                s@
            }),
            d.len() > 0,
            value == digits_value(s@.subrange(start as int, i as int)),
            value <= 4294967295,
            all_digits(s@.subrange(start as int, i as int)),
        decreases s.len() - i,
    {
        let c = s[i];
        if !is_digit_char(c) {
            proof {
                assert(d[i - start] == c);
                assert(!is_digit(d[i - start]));
                assert(!all_digits(d));
                assert(parse_u32_text(s@) is None);
            }
            return None;
        }
        let next = value * 10 + (c as u32 - '0' as u32) as u64;
        proof {
            let pre = s@.subrange(start as int, i as int);
            let now = s@.subrange(start as int, i + 1);
            assert(now.drop_last() =~= pre);
            assert(now.last() == c);
            assert(digits_value(now) == digits_value(pre) * 10 + digit_value(c));
        }
        if next > 4294967295 {
            proof {
                if all_digits(d) {
                    lemma_digits_value_prefix(d, (i + 1 - start) as int);
                    assert(s@.subrange(start as int, i + 1) =~= d.take(i + 1 - start));
                    assert(digits_value(d) > 4294967295);
                }
                assert(parse_u32_text(s@) is None);
            }
            return None;
        }
        value = next;
        i = i + 1;
    }
    proof {
        assert(s@.subrange(start as int, s.len() as int) =~= d);
    }
    Some(value as u32)
}

} // verus!
