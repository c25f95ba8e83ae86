//! Text as sequences of characters: trimming, splitting, joining, searching and
//! reading or writing decimal numbers.
use vstd::prelude::*;

verus! {

broadcast use vstd::string::group_string_axioms;

/// The characters with the Unicode property `White_Space`.
pub open spec fn white_space(c: char) -> bool {
    ||| '\u{9}' <= c <= '\u{d}'
    ||| c == ' '
    ||| c == '\u{85}'
    ||| c == '\u{a0}'
    ||| c == '\u{1680}'
    ||| '\u{2000}' <= c <= '\u{200a}'
    ||| c == '\u{2028}'
    ||| c == '\u{2029}'
    ||| c == '\u{202f}'
    ||| c == '\u{205f}'
    ||| c == '\u{3000}'
}

/// Whether `c` has the Unicode property `White_Space`.
pub fn is_white_space(c: char) -> (r: bool)
    ensures
        r == white_space(c),
{
    ('\u{9}' <= c && c <= '\u{d}') || c == ' ' || c == '\u{85}' || c == '\u{a0}' || c == '\u{1680}'
        || ('\u{2000}' <= c && c <= '\u{200a}') || c == '\u{2028}' || c == '\u{2029}'
        || c == '\u{202f}' || c == '\u{205f}' || c == '\u{3000}'
}

/// `s` without its leading characters that satisfy `p`.
pub open spec fn drop_leading(s: Seq<char>, p: spec_fn(char) -> bool) -> Seq<char>
    decreases s.len(),
{
    if s.len() > 0 && p(s[0]) {
        drop_leading(s.drop_first(), p)
    } else {
        s
    }
}

/// `s` without its trailing characters that satisfy `p`.
pub open spec fn drop_trailing(s: Seq<char>, p: spec_fn(char) -> bool) -> Seq<char>
    decreases s.len(),
{
    if s.len() > 0 && p(s.last()) {
        drop_trailing(s.drop_last(), p)
    } else {
        s
    }
}

/// `s` without leading and trailing white space.
pub open spec fn trimmed(s: Seq<char>) -> Seq<char> {
    drop_trailing(drop_leading(s, |c: char| white_space(c)), |c: char| white_space(c))
}

/// `s` without leading and trailing white space.
pub fn trim(s: &str) -> (r: &str)
    ensures
        r@ == trimmed(s@),
{
    let n: usize = s.unicode_len();
    let ghost p = |c: char| white_space(c);
    let mut from: usize = 0;
    assert(s@.subrange(0, n as int) =~= s@);
    while from < n && is_white_space(s.get_char(from))
        invariant
            from <= n,
            n == s@.len(),
            p == (|c: char| white_space(c)),
            drop_leading(s@, p) == drop_leading(s@.subrange(from as int, n as int), p),
        decreases n - from,
    {
        assert(s@.subrange(from as int, n as int).drop_first() =~= s@.subrange(from + 1, n as int));
        from = from + 1;
    }
    let ghost rest = s@.subrange(from as int, n as int);
    assert(drop_leading(s@, p) == rest);
    let mut to: usize = n;
    while to > from && is_white_space(s.get_char(to - 1))
        invariant
            from <= to <= n,
            n == s@.len(),
            p == (|c: char| white_space(c)),
            drop_trailing(rest, p) == drop_trailing(s@.subrange(from as int, to as int), p),
        decreases to,
    {
        assert(s@.subrange(from as int, to as int).drop_last() =~= s@.subrange(from as int, to - 1));
        to = to - 1;
    }
    s.substring_char(from, to)
}

/// `str`'s `==`: whether the two hold the same characters.
pub assume_specification[ <str as PartialEq<str>>::eq ](a: &str, b: &str) -> (r: bool)
    ensures
        r == (a@ == b@),
;

/// `String::push`: appends one character.
pub assume_specification[ String::push ](s: &mut String, c: char)
    ensures
        final(s)@ == old(s)@.push(c),
;

/// Whether the two texts hold the same characters.
pub fn same(a: &str, b: &str) -> (r: bool)
    ensures
        r == (a@ == b@),
{
    *a == *b
}

/// `s` without its leading characters equal to `c`.
pub fn trim_start_matches(s: &str, c: char) -> (r: &str)
    ensures
        r@ == drop_leading(s@, |x: char| x == c),
{
    let n: usize = s.unicode_len();
    let ghost p = |x: char| x == c;
    let mut from: usize = 0;
    assert(s@.subrange(0, n as int) =~= s@);
    while from < n && s.get_char(from) == c
        invariant
            from <= n,
            n == s@.len(),
            p == (|x: char| x == c),
            drop_leading(s@, p) == drop_leading(s@.subrange(from as int, n as int), p),
        decreases n - from,
    {
        assert(s@.subrange(from as int, n as int).drop_first() =~= s@.subrange(from + 1, n as int));
        from = from + 1;
    }
    s.substring_char(from, n)
}

/// `s` without its trailing characters equal to `c`.
pub fn trim_end_matches(s: &str, c: char) -> (r: &str)
    ensures
        r@ == drop_trailing(s@, |x: char| x == c),
{
    let ghost p = |x: char| x == c;
    let mut to: usize = s.unicode_len();
    assert(s@.subrange(0, to as int) =~= s@);
    while to > 0 && s.get_char(to - 1) == c
        invariant
            to <= s@.len(),
            p == (|x: char| x == c),
            drop_trailing(s@, p) == drop_trailing(s@.subrange(0, to as int), p),
        decreases to,
    {
        assert(s@.subrange(0, to as int).drop_last() =~= s@.subrange(0, to - 1));
        to = to - 1;
    }
    s.substring_char(0, to)
}

/// Whether `part` stands in `s` at position `at`.
pub open spec fn stands_at(s: Seq<char>, at: int, part: Seq<char>) -> bool {
    0 <= at && at + part.len() <= s.len() && s.subrange(at, at + part.len()) == part
}

/// Whether `s` begins with `prefix`.
pub open spec fn begins_with(s: Seq<char>, prefix: Seq<char>) -> bool {
    stands_at(s, 0, prefix)
}

/// Whether `s` begins with `prefix`.
pub fn starts_with(s: &str, prefix: &str) -> (r: bool)
    ensures
        r == begins_with(s@, prefix@),
{
    let n: usize = prefix.unicode_len();
    if n > s.unicode_len() {
        return false;
    }
    same(s.substring_char(0, n), prefix)
}

/// `s` with each occurrence of `from`, searched from the left and never
/// overlapping the one before, replaced by `to`.
pub open spec fn replaced(s: Seq<char>, from: Seq<char>, to: Seq<char>) -> Seq<char>
    decreases s.len(),
{
    if from.len() == 0 || s.len() < from.len() {
        s
    } else if begins_with(s, from) {
        to + replaced(s.skip(from.len() as int), from, to)
    } else {
        seq![s[0]] + replaced(s.drop_first(), from, to)
    }
}

/// `s` with each occurrence of `from` replaced by `to`.
pub fn replace(s: &str, from: &str, to: &str) -> (r: String)
    requires
        from@.len() > 0,
    ensures
        r@ == replaced(s@, from@, to@),
{
    let n: usize = s.unicode_len();
    let width: usize = from.unicode_len();
    let mut out = String::new();
    let mut at: usize = 0;
    assert(s@.skip(0) =~= s@);
    while at < n && n - at >= width
        invariant
            at <= n,
            n == s@.len(),
            width == from@.len(),
            width > 0,
            replaced(s@, from@, to@) =~= out@ + replaced(s@.skip(at as int), from@, to@),
        decreases n - at,
    {
        let ghost rest = s@.skip(at as int);
        assert(rest.subrange(0, width as int) =~= s@.subrange(at as int, at + width));
        if same(s.substring_char(at, at + width), from) {
            out.append(to);
            assert(rest.skip(width as int) =~= s@.skip(at + width));
            at = at + width;
        } else {
            out.push(s.get_char(at));
            assert(rest.drop_first() =~= s@.skip(at + 1));
            at = at + 1;
        }
    }
    assert(s@.skip(at as int) =~= s@.subrange(at as int, n as int));
    out.append(s.substring_char(at, n));
    out
}

/// `s` without the characters `a` and `b`, wherever they stand.
pub fn without(s: &str, a: char, b: char) -> (r: String)
    ensures
        r@ == s@.filter(|c: char| c != a && c != b),
{
    let mut out = String::new();
    let ghost p = |c: char| c != a && c != b;
    for c in it: s.chars()
        invariant
            p == (|c: char| c != a && c != b),
            it.seq() == s@,
            out@ == s@.take(it.index() as int).filter(p),
    {
        proof {
            let k = it.index() as int;
            assert(s@.take(k + 1).drop_last() =~= s@.take(k));
            reveal_with_fuel(Seq::filter, 2);
        }
        if c != a && c != b {
            out.push(c);
        }
    }
    assert(s@.take(s@.len() as int) =~= s@);
    out
}

/// The lower-case form of an ASCII letter; any other character itself.
pub open spec fn lower_char(c: char) -> char {
    if 'A' <= c <= 'Z' {
        (c as int + 32) as char
    } else {
        c
    }
}

/// `s` with its ASCII letters in lower case.
pub open spec fn ascii_lower(s: Seq<char>) -> Seq<char> {
    s.map_values(|c: char| lower_char(c))
}

/// `s` with its ASCII letters in lower case.
pub fn to_ascii_lowercase(s: &str) -> (r: String)
    ensures
        r@ == ascii_lower(s@),
{
    let mut out = String::new();
    for c in it: s.chars()
        invariant
            it.seq() == s@,
            out@ =~= ascii_lower(s@.take(it.index() as int)),
    {
        let ghost k = it.index() as int;
        assert(s@.take(k + 1) =~= s@.take(k).push(c));
        if 'A' <= c && c <= 'Z' {
            out.push((c as u8 + 32) as char);
        } else {
            out.push(c);
        }
    }
    assert(s@.take(s@.len() as int) =~= s@);
    out
}

/// The characters of a text that may be missing.
pub open spec fn opt_chars(s: Option<String>) -> Option<Seq<char>> {
    match s {
        Some(s) => Some(s@),
        None => None,
    }
}

/// The characters of each text of a list.
pub open spec fn views(list: Seq<String>) -> Seq<Seq<char>> {
    list.map_values(|s: String| s@)
}

/// The pieces of `s` between occurrences of `sep`: one more than there are such
/// occurrences.
pub open spec fn pieces(s: Seq<char>, sep: char) -> Seq<Seq<char>>
    decreases s.len(),
{
    if s.len() == 0 {
        seq![Seq::empty()]
    } else {
        let before = pieces(s.drop_last(), sep);
        if s.last() == sep {
            before.push(Seq::empty())
        } else {
            before.drop_last().push(before.last().push(s.last()))
        }
    }
}

/// The pieces of `s` between occurrences of `sep`.
pub fn split(s: &str, sep: char) -> (r: Vec<String>)
    ensures
        views(r@) == pieces(s@, sep),
{
    let mut done: Vec<String> = Vec::new();
    let mut piece = String::new();
    proof {
        assert(views(done@).push(piece@) =~= seq![Seq::<char>::empty()]);
        assert(s@.take(0) =~= Seq::<char>::empty());
    }
    for c in it: s.chars()
        invariant
            it.seq() == s@,
            views(done@).push(piece@) == pieces(s@.take(it.index() as int), sep),
    {
        let ghost k = it.index() as int;
        let ghost before = views(done@).push(piece@);
        assert(s@.take(k + 1).drop_last() =~= s@.take(k));
        assert(before.drop_last() =~= views(done@));
        if c == sep {
            done.push(piece);
            piece = String::new();
            assert(views(done@) =~= before);
        } else {
            piece.push(c);
        }
    }
    assert(s@.take(s@.len() as int) =~= s@);
    let ghost all = views(done@).push(piece@);
    done.push(piece);
    assert(views(done@) =~= all);
    done
}

/// The texts of `parts` in order, with `sep` between neighbours.
pub open spec fn joined(parts: Seq<Seq<char>>, sep: Seq<char>) -> Seq<char>
    decreases parts.len(),
{
    if parts.len() == 0 {
        Seq::empty()
    } else if parts.len() == 1 {
        parts[0]
    } else {
        joined(parts.drop_last(), sep) + sep + parts.last()
    }
}

/// The texts of `parts` in order, with `sep` between neighbours.
pub fn join(parts: &Vec<String>, sep: &str) -> (r: String)
    ensures
        r@ == joined(views(parts@), sep@),
{
    let mut out = String::new();
    let ghost all = views(parts@);
    let mut i: usize = 0;
    while i < parts.len()
        invariant
            i <= parts@.len(),
            all == views(parts@),
            out@ =~= joined(all.take(i as int), sep@),
        decreases parts@.len() - i,
    {
        assert(all.take(i + 1).drop_last() =~= all.take(i as int));
        if i > 0 {
            out.append(sep);
        }
        out.append(parts[i].as_str());
        i = i + 1;
    }
    assert(all.take(all.len() as int) =~= all);
    out
}

/// The decimal digit of `d`, for `d` under ten.
pub open spec fn digit(d: int) -> char {
    ('0' as int + d) as char
}

/// The decimal digits of `n`, without leading zeros.
pub open spec fn decimal(n: nat) -> Seq<char>
    decreases n,
{
    if n < 10 {
        seq![digit(n as int)]
    } else {
        decimal(n / 10).push(digit((n % 10) as int))
    }
}

/// `n` in decimal, with a leading `-` where it is negative.
pub open spec fn decimal_int(n: int) -> Seq<char> {
    if n < 0 {
        seq!['-'] + decimal((-n) as nat)
    } else {
        decimal(n as nat)
    }
}

/// `n` in decimal.
pub fn decimal_u64(n: u64) -> (r: String)
    ensures
        r@ == decimal(n as nat),
    decreases n,
{
    if n < 10 {
        let mut out = String::new();
        out.push((48 + n as u8) as char);
        assert(out@ =~= seq![digit(n as int)]);
        out
    } else {
        let mut out = decimal_u64(n / 10);
        out.push((48 + (n % 10) as u8) as char);
        out
    }
}

/// `n` in decimal, with a leading `-` where it is negative.
pub fn decimal_i64(n: i64) -> (r: String)
    ensures
        r@ == decimal_int(n as int),
{
    if n < 0 {
        let magnitude: u64 = if n == i64::MIN { 0x8000_0000_0000_0000 } else { (-n) as u64 };
        let mut out = String::new();
        out.push('-');
        out.append(decimal_u64(magnitude).as_str());
        assert(out@ =~= seq!['-'] + decimal(magnitude as nat));
        out
    } else {
        decimal_u64(n as u64)
    }
}

/// Whether every character of `s` is an ASCII digit, and there is one.
pub open spec fn all_digits(s: Seq<char>) -> bool {
    s.len() > 0 && forall|i: int| 0 <= i < s.len() ==> '0' <= #[trigger] s[i] <= '9'
}

/// The number that the ASCII digits `s` write in decimal.
pub open spec fn digits_value(s: Seq<char>) -> nat
    decreases s.len(),
{
    if s.len() == 0 {
        0
    } else {
        10 * digits_value(s.drop_last()) + (s.last() as int - '0' as int) as nat
    }
}

/// The digits that follow an optional sign.
pub open spec fn after_sign(s: Seq<char>) -> Seq<char> {
    if s.len() > 0 && (s[0] == '+' || s[0] == '-') {
        s.drop_first()
    } else {
        s
    }
}

/// The integer that `s` writes: an optional sign, then digits.
pub open spec fn integer(s: Seq<char>) -> Option<int> {
    if !all_digits(after_sign(s)) {
        None
    } else if s[0] == '-' {
        Some(-(digits_value(after_sign(s)) as int))
    } else {
        Some(digits_value(after_sign(s)) as int)
    }
}

/// The value of `o` where it lies between `low` and `high`.
pub open spec fn within(o: Option<int>, low: int, high: int) -> Option<int> {
    match o {
        Some(n) => if low <= n <= high { Some(n) } else { None },
        None => None,
    }
}

proof fn lemma_digits_value_grows(s: Seq<char>, k: int)
    requires
        0 <= k <= s.len(),
    ensures
        digits_value(s.take(k)) <= digits_value(s),
    decreases s.len() - k,
{
    if k < s.len() {
        lemma_digits_value_grows(s, k + 1);
        assert(s.take(k + 1).drop_last() =~= s.take(k));
    } else {
        assert(s.take(k) =~= s);
    }
}

/// The number that the digits of `s` write, where `s` is all ASCII digits and
/// the number is at most `max`.
fn digits(s: &str, max: u64) -> (r: Option<u64>)
    requires
        max <= 0x8000_0000_0000_0000,
    ensures
        r matches Some(v) ==> all_digits(s@) && v == digits_value(s@) && v <= max,
        r is None ==> !all_digits(s@) || digits_value(s@) > max,
{
    if s.is_empty() {
        return None;
    }
    let mut value: u64 = 0;
    for c in it: s.chars()
        invariant
            it.seq() == s@,
            value <= max,
            max <= 0x8000_0000_0000_0000,
            value == digits_value(s@.take(it.index() as int)),
            forall|i: int| 0 <= i < it.index() ==> '0' <= #[trigger] s@[i] <= '9',
    {
        let ghost k = it.index() as int;
        assert(c == s@[k]);
        if c < '0' || c > '9' {
            return None;
        }
        let d: u64 = c as u64 - 48;
        assert(s@.take(k + 1).drop_last() =~= s@.take(k));
        if d > max || value > (max - d) / 10 {
            proof {
                lemma_digits_value_grows(s@, k + 1);
            }
            return None;
        }
        value = value * 10 + d;
    }
    assert(s@.take(s@.len() as int) =~= s@);
    Some(value)
}

/// The `i64` that `s` writes in decimal, as `str::parse` reads it.
pub fn parse_i64(s: &str) -> (r: Option<i64>)
    ensures
        match r {
            Some(n) => within(integer(s@), i64::MIN as int, i64::MAX as int) == Some(n as int),
            None => within(integer(s@), i64::MIN as int, i64::MAX as int) is None,
        },
{
    if s.is_empty() {
        return None;
    }
    let first: char = s.get_char(0);
    if first == '-' || first == '+' {
        let rest = s.substring_char(1, s.unicode_len());
        assert(rest@ =~= s@.drop_first());
        if first == '-' {
            match digits(rest, 0x8000_0000_0000_0000) {
                Some(v) => if v == 0x8000_0000_0000_0000 {
                    Some(i64::MIN)
                } else {
                    Some(-(v as i64))
                },
                None => None,
            }
        } else {
            match digits(rest, 0x7fff_ffff_ffff_ffff) {
                Some(v) => Some(v as i64),
                None => None,
            }
        }
    } else {
        match digits(s, 0x7fff_ffff_ffff_ffff) {
            Some(v) => Some(v as i64),
            None => None,
        }
    }
}

/// The `i32` that `s` writes in decimal, as `str::parse` reads it.
pub fn parse_i32(s: &str) -> (r: Option<i32>)
    ensures
        match r {
            Some(n) => within(integer(s@), i32::MIN as int, i32::MAX as int) == Some(n as int),
            None => within(integer(s@), i32::MIN as int, i32::MAX as int) is None,
        },
{
    match parse_i64(s) {
        Some(n) => if -0x8000_0000 <= n && n <= 0x7fff_ffff {
            Some(n as i32)
        } else {
            None
        },
        None => None,
    }
}

/// The number that an unsigned type reads in `s`: an optional `+`, then digits.
pub open spec fn unsigned(s: Seq<char>) -> Option<int> {
    if s.len() > 0 && s[0] == '-' {
        None
    } else {
        integer(s)
    }
}

/// The `u32` that `s` writes in decimal, as `str::parse` reads it.
pub fn parse_u32(s: &str) -> (r: Option<u32>)
    ensures
        match r {
            Some(n) => within(unsigned(s@), 0, u32::MAX as int) == Some(n as int),
            None => within(unsigned(s@), 0, u32::MAX as int) is None,
        },
{
    if !s.is_empty() && s.get_char(0) == '-' {
        return None;
    }
    match parse_i64(s) {
        Some(n) => if 0 <= n && n <= 0xffff_ffff {
            Some(n as u32)
        } else {
            None
        },
        None => None,
    }
}

/// The digits of a number are digits, and write that number.
pub proof fn lemma_decimal_read(n: nat)
    ensures
        all_digits(decimal(n)),
        digits_value(decimal(n)) == n,
    decreases n,
{
    if n >= 10 {
        lemma_decimal_read(n / 10);
        assert(decimal(n).drop_last() =~= decimal(n / 10));
        assert forall|i: int| 0 <= i < decimal(n).len() implies '0' <= #[trigger] decimal(n)[i]
            <= '9' by {
            if i < decimal(n / 10).len() {
                assert(decimal(n)[i] == decimal(n / 10)[i]);
            }
        }
    } else {
        assert(decimal(n).drop_last() =~= Seq::empty());
        reveal_with_fuel(digits_value, 2);
    }
}

/// An integer in decimal is read back as that integer.
pub proof fn lemma_decimal_int_read(n: int)
    ensures
        integer(decimal_int(n)) == Some(n),
        !decimal_int(n).contains(':'),
{
    let magnitude = if n < 0 {
        (-n) as nat
    } else {
        n as nat
    };
    lemma_decimal_read(magnitude);
    assert(after_sign(decimal_int(n)) =~= decimal(magnitude));
}

proof fn lemma_drop_leading_stops(s: Seq<char>, p: spec_fn(char) -> bool)
    ensures
        drop_leading(s, p).len() == 0 || !p(drop_leading(s, p)[0]),
    decreases s.len(),
{
    if s.len() > 0 && p(s[0]) {
        lemma_drop_leading_stops(s.drop_first(), p);
    }
}

proof fn lemma_drop_trailing_stops(s: Seq<char>, p: spec_fn(char) -> bool)
    ensures
        drop_trailing(s, p).len() == 0 || !p(drop_trailing(s, p).last()),
        drop_trailing(s, p).len() > 0 ==> drop_trailing(s, p)[0] == s[0],
    decreases s.len(),
{
    if s.len() > 0 && p(s.last()) {
        lemma_drop_trailing_stops(s.drop_last(), p);
    }
}

/// Trimming a trimmed text changes nothing.
pub proof fn lemma_trimmed_twice(s: Seq<char>)
    ensures
        trimmed(trimmed(s)) == trimmed(s),
{
    let p = |c: char| white_space(c);
    lemma_drop_leading_stops(s, p);
    lemma_drop_trailing_stops(drop_leading(s, p), p);
}

} // verus!
