//! Promises about text.
use vstd::prelude::*;

use crate::names::{distinct, lemma_distinct, listed_with};
use crate::text::{
    after_sign, all_digits, ascii_lower, begins_with, decimal, decimal_int, digits_value,
    drop_leading, drop_trailing, integer, joined, lemma_decimal_read, pieces, replaced, stands_at, trimmed,
    unsigned, white_space, within,
};

verus! {

/// Whether every character of `s` satisfies `p`.
pub open spec fn all_of(s: Seq<char>, p: spec_fn(char) -> bool) -> bool {
    forall|i: int| 0 <= i < s.len() ==> p(#[trigger] s[i])
}

/// Whether every character of `s` is white space.
pub open spec fn blank(s: Seq<char>) -> bool {
    forall|i: int| 0 <= i < s.len() ==> white_space(#[trigger] s[i])
}

/// Whether `t` is `s` without the white space around it: `s` is `t` between two
/// blank texts, and `t` neither begins nor ends with white space.
pub open spec fn is_core(s: Seq<char>, t: Seq<char>) -> bool {
    &&& t.len() > 0 ==> !white_space(t[0]) && !white_space(t.last())
    &&& exists|before: Seq<char>, after: Seq<char>|
        blank(before) && blank(after) && s == #[trigger] (before + t + after)
}

/// White space is what Unicode says it is: the controls from the tab to the carriage
/// return, the space, the next line, the no-break space, and the spaces and
/// separators beyond.
pub proof fn law_white_space(c: char)
    ensures
        white_space(c) <==> {
            let n = c as int;
            ||| n == 9 || n == 10 || n == 11 || n == 12 || n == 13 || n == 32
            ||| n == 133 || n == 160 || n == 5760
            ||| 8192 <= n && n <= 8202
            ||| n == 8232 || n == 8233 || n == 8239 || n == 8287 || n == 12288
        },
{
}

/// A part stands in a text exactly where the text is what comes before, the part, and
/// what comes after.
pub proof fn law_parts_stand_where_the_text_splits(
    before: Seq<char>,
    part: Seq<char>,
    after: Seq<char>,
    s: Seq<char>,
    at: int,
)
    ensures
        stands_at(before + part + after, before.len() as int, part),
        stands_at(s, at, part) ==> 0 <= at && at + part.len() <= s.len() && s == s.take(at) + part
            + s.skip(at + part.len()),
        begins_with(part + after, part),
        begins_with(s, part) ==> part.len() <= s.len() && s == part + s.skip(part.len() as int),
{
    let whole = before + part + after;
    assert(whole.subrange(before.len() as int, (before.len() + part.len()) as int) =~= part);
    assert((part + after).subrange(0, part.len() as int) =~= part);
    if stands_at(s, at, part) {
        assert(s =~= s.take(at) + s.subrange(at, at + part.len()) + s.skip(at + part.len()));
    }
    if begins_with(s, part) {
        assert(s =~= s.subrange(0, part.len() as int) + s.skip(part.len() as int));
    }
}

/// Numbers are written digit by digit: those below ten as one digit, the others as
/// their tens and then their units; a minus stands before those below zero.
pub proof fn law_numbers_are_written(n: nat, d: nat)
    requires
        d < 10,
    ensures
        decimal(d) == seq![(d + 48) as char],
        n > 0 ==> decimal(10 * n + d) == decimal(n) + seq![(d + 48) as char],
        decimal_int(n as int) == decimal(n),
        n > 0 ==> decimal_int(-(n as int)) == seq!['-'] + decimal(n),
{
    assert((10 * n + d) / 10 == n && (10 * n + d) % 10 == d);
    assert('0' as int == 48);
}

/// What is left after leading characters are dropped: a suffix that begins with
/// no such character, after such characters only.
pub proof fn law_drop_leading(before: Seq<char>, rest: Seq<char>, p: spec_fn(char) -> bool)
    requires
        all_of(before, p),
        rest.len() > 0 ==> !p(rest[0]),
    ensures
        drop_leading(before + rest, p) == rest,
    decreases before.len(),
{
    let s = before + rest;
    if before.len() > 0 {
        assert(s[0] == before[0]);
        assert(s.drop_first() =~= before.drop_first() + rest);
        assert forall|i: int| 0 <= i < before.drop_first().len() implies p(
            #[trigger] before.drop_first()[i],
        ) by {
            assert(before.drop_first()[i] == before[i + 1]);
        }
        law_drop_leading(before.drop_first(), rest, p);
    } else {
        assert(s =~= rest);
    }
}

/// What is left after trailing characters are dropped: a prefix that ends with no
/// such character, before such characters only.
pub proof fn law_drop_trailing(rest: Seq<char>, after: Seq<char>, p: spec_fn(char) -> bool)
    requires
        all_of(after, p),
        rest.len() > 0 ==> !p(rest.last()),
    ensures
        drop_trailing(rest + after, p) == rest,
    decreases after.len(),
{
    let s = rest + after;
    if after.len() > 0 {
        assert(s.last() == after.last());
        assert(s.drop_last() =~= rest + after.drop_last());
        assert forall|i: int| 0 <= i < after.drop_last().len() implies p(
            #[trigger] after.drop_last()[i],
        ) by {
            assert(after.drop_last()[i] == after[i]);
        }
        law_drop_trailing(rest, after.drop_last(), p);
    } else {
        assert(s =~= rest);
    }
}

proof fn lemma_core_is_trimmed(s: Seq<char>, t: Seq<char>)
    requires
        is_core(s, t),
    ensures
        trimmed(s) == t,
{
    let p = |c: char| white_space(c);
    let (before, after) = choose|before: Seq<char>, after: Seq<char>|
        blank(before) && blank(after) && s == #[trigger] (before + t + after);
    if t.len() > 0 {
        assert(s =~= before + (t + after));
        assert((t + after)[0] == t[0]);
        law_drop_leading(before, t + after, p);
        law_drop_trailing(t, after, p);
    } else {
        assert forall|i: int| 0 <= i < s.len() implies p(#[trigger] s[i]) by {
            if i < before.len() {
                assert(s[i] == before[i]);
            } else {
                assert(s[i] == after[i - before.len()]);
            }
        }
        assert(s + Seq::<char>::empty() =~= s);
        law_drop_leading(s, Seq::empty(), p);
        assert(t =~= Seq::empty());
        assert(Seq::<char>::empty() + Seq::<char>::empty() =~= Seq::<char>::empty());
        law_drop_trailing(Seq::empty(), Seq::empty(), p);
    }
}

proof fn lemma_drop_leading_splits(s: Seq<char>, p: spec_fn(char) -> bool) -> (before: Seq<char>)
    ensures
        all_of(before, p),
        s == before + drop_leading(s, p),
        drop_leading(s, p).len() > 0 ==> !p(drop_leading(s, p)[0]),
    decreases s.len(),
{
    if s.len() > 0 && p(s[0]) {
        let rest = lemma_drop_leading_splits(s.drop_first(), p);
        let before = seq![s[0]] + rest;
        assert forall|i: int| 0 <= i < before.len() implies p(#[trigger] before[i]) by {
            if i > 0 {
                assert(before[i] == rest[i - 1]);
            }
        }
        let kept = drop_leading(s, p);
        assert(s =~= seq![s[0]] + s.drop_first());
        assert(before + kept =~= seq![s[0]] + (rest + kept));
        before
    } else {
        assert(s =~= Seq::<char>::empty() + s);
        Seq::empty()
    }
}

proof fn lemma_drop_trailing_splits(s: Seq<char>, p: spec_fn(char) -> bool) -> (after: Seq<char>)
    ensures
        all_of(after, p),
        s == drop_trailing(s, p) + after,
        drop_trailing(s, p).len() > 0 ==> !p(drop_trailing(s, p).last()),
    decreases s.len(),
{
    if s.len() > 0 && p(s.last()) {
        let rest = lemma_drop_trailing_splits(s.drop_last(), p);
        let after = rest.push(s.last());
        assert forall|i: int| 0 <= i < after.len() implies p(#[trigger] after[i]) by {
            if i < rest.len() {
                assert(after[i] == rest[i]);
            }
        }
        let kept = drop_trailing(s, p);
        assert(s =~= s.drop_last().push(s.last()));
        assert(kept + after =~= (kept + rest).push(s.last()));
        after
    } else {
        assert(s =~= s + Seq::<char>::empty());
        Seq::empty()
    }
}

/// Trimming gives the text between the white space around it, and there is only
/// one such text.
pub proof fn law_trimmed_is_the_core(s: Seq<char>, t: Seq<char>)
    ensures
        trimmed(s) == t <==> is_core(s, t),
{
    if is_core(s, t) {
        lemma_core_is_trimmed(s, t);
    }
    if trimmed(s) == t {
        let p = |c: char| white_space(c);
        let before = lemma_drop_leading_splits(s, p);
        let rest = drop_leading(s, p);
        let after = lemma_drop_trailing_splits(rest, p);
        assert forall|i: int| 0 <= i < before.len() implies white_space(#[trigger] before[i]) by {
            assert(p(before[i]));
        }
        assert forall|i: int| 0 <= i < after.len() implies white_space(#[trigger] after[i]) by {
            assert(p(after[i]));
        }
        assert(s =~= before + t + after);
        if t.len() > 0 {
            assert(rest[0] == t[0]);
        }
    }
}

/// A text begins with a prefix exactly where it is the prefix and something more.
pub proof fn law_begins_with(s: Seq<char>, prefix: Seq<char>)
    ensures
        begins_with(s, prefix) <==> exists|rest: Seq<char>| s == #[trigger] (prefix + rest),
{
    if begins_with(s, prefix) {
        assert(s =~= prefix + s.skip(prefix.len() as int));
    }
    if exists|rest: Seq<char>| s == #[trigger] (prefix + rest) {
        let rest = choose|rest: Seq<char>| s == #[trigger] (prefix + rest);
        assert(s.subrange(0, prefix.len() as int) =~= prefix);
    }
}

/// A text in which `from` does not occur stays as it is.
pub proof fn law_replaced_nothing(s: Seq<char>, from: Seq<char>, to: Seq<char>)
    requires
        from.len() > 0,
        forall|at: int| !#[trigger] stands_at(s, at, from),
    ensures
        replaced(s, from, to) == s,
    decreases s.len(),
{
    if s.len() >= from.len() {
        assert(!stands_at(s, 0, from));
        let rest = s.drop_first();
        assert forall|at: int| !#[trigger] stands_at(rest, at, from) by {
            if stands_at(rest, at, from) {
                assert(s.subrange(at + 1, at + 1 + from.len()) =~= rest.subrange(
                    at,
                    at + from.len(),
                ));
                assert(stands_at(s, at + 1, from));
            }
        }
        law_replaced_nothing(rest, from, to);
        assert(seq![s[0]] + rest =~= s);
    }
}

/// The first occurrence of `from` becomes `to`, what stands before it stays, and
/// the rest is treated in the same way.
pub proof fn law_replaced_first(s: Seq<char>, from: Seq<char>, to: Seq<char>, at: int)
    requires
        from.len() > 0,
        stands_at(s, at, from),
        forall|i: int| 0 <= i < at ==> !#[trigger] stands_at(s, i, from),
    ensures
        replaced(s, from, to) == s.take(at) + to + replaced(
            s.skip(at + from.len()),
            from,
            to,
        ),
    decreases s.len(),
{
    if at == 0 {
        assert(s.skip(at + from.len()) =~= s.skip(from.len() as int));
        assert(s.take(0) + to =~= to);
    } else {
        assert(!stands_at(s, 0, from));
        let rest = s.drop_first();
        assert(rest.subrange(at - 1, at - 1 + from.len()) =~= s.subrange(at, at + from.len()));
        assert forall|i: int| 0 <= i < at - 1 implies !#[trigger] stands_at(rest, i, from) by {
            if stands_at(rest, i, from) {
                assert(s.subrange(i + 1, i + 1 + from.len()) =~= rest.subrange(
                    i,
                    i + from.len(),
                ));
                assert(stands_at(s, i + 1, from));
            }
        }
        law_replaced_first(rest, from, to, at - 1);
        assert(rest.skip(at - 1 + from.len()) =~= s.skip(at + from.len()));
        let tail = replaced(s.skip(at + from.len()), from, to);
        assert(seq![s[0]] + (rest.take(at - 1) + to + tail) =~= s.take(at) + to + tail);
    }
}

/// One text joins to itself.
pub proof fn law_joined_one(part: Seq<char>, sep: Seq<char>)
    ensures
        joined(seq![part], sep) == part,
        joined(Seq::empty(), sep) == Seq::<char>::empty(),
{
}

/// Two lists of texts, neither of them empty, join with one separator between.
pub proof fn law_joined_lists(a: Seq<Seq<char>>, b: Seq<Seq<char>>, sep: Seq<char>)
    requires
        a.len() > 0,
        b.len() > 0,
    ensures
        joined(a + b, sep) == joined(a, sep) + sep + joined(b, sep),
    decreases b.len(),
{
    assert((a + b).drop_last() =~= a + b.drop_last());
    assert((a + b).last() == b.last());
    if b.len() > 1 {
        law_joined_lists(a, b.drop_last(), sep);
        assert(joined(a, sep) + sep + joined(b.drop_last(), sep) + sep + b.last() =~= joined(a, sep)
            + sep + (joined(b.drop_last(), sep) + sep + b.last()));
    } else {
        assert(a + b.drop_last() =~= a);
    }
}

/// The pieces of a text hold no separator, and joined by it are the text again.
pub proof fn law_pieces_join_to_the_text(s: Seq<char>, sep: char)
    ensures
        pieces(s, sep).len() > 0,
        joined(pieces(s, sep), seq![sep]) == s,
        forall|i: int| 0 <= i < pieces(s, sep).len() ==> !(#[trigger] pieces(s, sep)[i]).contains(
            sep,
        ),
    decreases s.len(),
{
    if s.len() == 0 {
        assert(s =~= Seq::empty());
    } else {
        let shorter = s.drop_last();
        let before = pieces(shorter, sep);
        law_pieces_join_to_the_text(shorter, sep);
        let all = pieces(s, sep);
        if s.last() == sep {
            assert(all.drop_last() =~= before);
            assert(joined(all, seq![sep]) =~= shorter + seq![sep] + Seq::<char>::empty());
            assert(shorter + seq![sep] + Seq::<char>::empty() =~= s);
            assert forall|i: int| 0 <= i < all.len() implies !(#[trigger] all[i]).contains(sep) by {
                if i < before.len() {
                    assert(all[i] == before[i]);
                }
            }
        } else {
            assert(all.drop_last() =~= before.drop_last());
            let last = before.last();
            assert(!last.contains(sep)) by {
                assert(last == before[before.len() - 1]);
            }
            assert(all.last() == last.push(s.last()));
            if before.len() > 1 {
                assert(joined(all, seq![sep]) =~= joined(before, seq![sep]).push(s.last()));
            }
            assert(shorter.push(s.last()) =~= s);
            assert forall|i: int| 0 <= i < all.len() implies !(#[trigger] all[i]).contains(sep) by {
                if i < before.len() - 1 {
                    assert(all[i] == before[i]);
                } else if last.push(s.last()).contains(sep) {
                    let k = choose|k: int|
                        0 <= k < last.push(s.last()).len() && last.push(s.last())[k] == sep;
                    assert(last[k] == sep);
                }
            }
        }
    }
}

/// A number in decimal has no zero before it.
pub proof fn law_decimal_has_no_leading_zero(n: nat)
    ensures
        decimal(n).len() > 0,
        decimal(n)[0] == '0' <==> n == 0,
    decreases n,
{
    if n >= 10 {
        law_decimal_has_no_leading_zero(n / 10);
    }
}

proof fn lemma_zero_before(s: Seq<char>)
    ensures
        digits_value(seq!['0'] + s) == digits_value(s),
    decreases s.len(),
{
    let t = seq!['0'] + s;
    if s.len() == 0 {
        assert(t.drop_last() =~= Seq::empty());
        reveal_with_fuel(digits_value, 2);
    } else {
        lemma_zero_before(s.drop_last());
        assert(t.drop_last() =~= seq!['0'] + s.drop_last());
        assert(t.last() == s.last());
    }
}

/// The number `n` in decimal, after `zeros` zeros.
pub open spec fn zeros_and(zeros: nat, n: nat) -> Seq<char>
    decreases zeros,
{
    if zeros == 0 {
        decimal(n)
    } else {
        seq!['0'] + zeros_and((zeros - 1) as nat, n)
    }
}

/// A number is read whatever zeros stand before it; with a sign before them it is
/// read too, and a minus turns it round. An unsigned number takes no minus.
pub proof fn law_numbers_are_read(zeros: nat, n: nat)
    ensures
        all_digits(zeros_and(zeros, n)),
        integer(zeros_and(zeros, n)) == Some(n as int),
        unsigned(zeros_and(zeros, n)) == Some(n as int),
        integer(seq!['+'] + zeros_and(zeros, n)) == Some(n as int),
        unsigned(seq!['+'] + zeros_and(zeros, n)) == Some(n as int),
        integer(seq!['-'] + zeros_and(zeros, n)) == Some(-(n as int)),
        unsigned(seq!['-'] + zeros_and(zeros, n)) is None,
    decreases zeros,
{
    let s = zeros_and(zeros, n);
    if zeros == 0 {
        lemma_decimal_read(n);
    } else {
        let shorter = zeros_and((zeros - 1) as nat, n);
        law_numbers_are_read((zeros - 1) as nat, n);
        assert(after_sign(shorter) =~= shorter);
        lemma_zero_before(shorter);
        assert forall|i: int| 0 <= i < s.len() implies '0' <= #[trigger] s[i] <= '9' by {
            if i > 0 {
                assert(s[i] == shorter[i - 1]);
            }
        }
    }
    assert(digits_value(s) == n) by {
        if zeros > 0 {
            let shorter = zeros_and((zeros - 1) as nat, n);
            assert(after_sign(shorter) =~= shorter);
        }
    }
    assert(after_sign(s) =~= s);
    assert((seq!['+'] + s).drop_first() =~= s);
    assert((seq!['-'] + s).drop_first() =~= s);
}

/// Text with a character other than a digit after its sign, or without a digit, is
/// no number.
pub proof fn law_other_text_is_no_number(s: Seq<char>, i: int)
    requires
        s.len() == 0 || (0 < i < s.len() && !('0' <= s[i] <= '9')) || (s.len() == 1 && !('0' <= s[0]
            <= '9')) || !('0' <= s[0] <= '9' || s[0] == '+' || s[0] == '-'),
    ensures
        integer(s) is None,
        unsigned(s) is None,
{
    let rest = after_sign(s);
    if s.len() > 0 {
        if 0 < i < s.len() && !('0' <= s[i] <= '9') {
            if s[0] == '+' || s[0] == '-' {
                assert(rest[i - 1] == s[i]);
            } else {
                assert(rest[i] == s[i]);
            }
        } else if s[0] == '+' || s[0] == '-' {
            assert(rest.len() == 0);
        } else {
            assert(rest[0] == s[0]);
        }
    }
}

/// A number between two limits is kept, any other is not.
pub proof fn law_within_keeps_the_middle(n: int, low: int, high: int)
    ensures
        low <= n <= high ==> within(Some(n), low, high) == Some(n),
        n < low || n > high ==> within(Some(n), low, high) is None,
        within(None, low, high) is None,
{
}

/// In lower case a text keeps its length, each capital of ASCII becomes the small
/// letter, and every other character stays.
pub proof fn law_lower_case(s: Seq<char>)
    ensures
        ascii_lower(s).len() == s.len(),
        forall|i: int|
            0 <= i < s.len() ==> {
                let c = s[i] as int;
                (#[trigger] ascii_lower(s)[i]) as int == if 65 <= c <= 90 {
                    c + 32
                } else {
                    c
                }
            },
{
}

/// A list of names reduced to first places keeps each name once, and what is added
/// later comes after what was there.
pub proof fn law_distinct_keeps_the_first(list: Seq<Seq<char>>, more: Seq<Seq<char>>)
    ensures
        distinct(list).is_prefix_of(distinct(list + more)),
        distinct(list).no_duplicates(),
        forall|name: Seq<char>| distinct(list).contains(name) <==> list.contains(name),
    decreases more.len(),
{
    lemma_distinct(list);
    if more.len() == 0 {
        assert(list + more =~= list);
    } else {
        law_distinct_keeps_the_first(list, more.drop_last());
        assert((list + more).drop_last() =~= list + more.drop_last());
        assert((list + more).last() == more.last());
        let before = distinct(list + more.drop_last());
        assert(distinct(list + more) == listed_with(before, more.last()));
    }
}

/// A name that is added to a list is in it afterwards, once; all else stays as it is.
pub proof fn law_listed_with(list: Seq<Seq<char>>, name: Seq<char>)
    ensures
        list.contains(name) ==> listed_with(list, name) == list,
        !list.contains(name) ==> listed_with(list, name) == list + seq![name],
{
    assert(list.push(name) =~= list + seq![name]);
}

} // verus!
