//! Promises about feeds, dates and series.
use vstd::prelude::*;

use super::fields::{has_field, has_text, holds};
use super::text::{
    all_of, is_core, law_begins_with, law_drop_trailing, law_lower_case, law_numbers_are_read,
    law_other_text_is_no_number, law_replaced_first, law_replaced_nothing, law_trimmed_is_the_core, zeros_and,
};
use crate::codec::json_read;
use crate::douban::date::{
    days_before_month, days_before_year, days_in_month, days_to, padded, DateView,
};
use crate::douban::extract::{
    compact, count_found, date_found, date_in_page, date_in_text, first_captures, page_date_found,
    wish_count_in_text, year_found, year_in_text,
};
use crate::douban::media::{
    feed_address, id_in, is_series, key_of, mediary_reply, notification_query, page_address,
    refusal_of, resolve_query, resolved_to, season_key, shown_title, subscribed_keys,
    subscription_query, tmdb_air_date, MediaView,
};
use crate::douban::rss::{
    gathered, item_with, items_from, unread, EventView, ItemView, ParserView,
};
use crate::json::JsonView;
use crate::lists::lemma_filter_map_keeps;
use crate::names::lemma_distinct;
use crate::text::{
    begins_with, decimal, decimal_int, integer, replaced, stands_at, trimmed, unsigned,
};

verus! {

/// Whether group `i` of a match took part and matched `text`.
pub open spec fn matched(groups: Seq<Option<Seq<char>>>, i: int, text: Seq<char>) -> bool {
    0 <= i < groups.len() && groups[i] == Some(text)
}

/// Whether group `i` of a match took no part.
pub open spec fn idle(groups: Seq<Option<Seq<char>>>, i: int) -> bool {
    0 <= i < groups.len() ==> groups[i] is None
}

/// The count is the number that the digits write, whatever zeros stand before it; a
/// number that does not fit counts as none.
pub proof fn law_counts_are_read(groups: Seq<Option<Seq<char>>>, zeros: nat, n: nat)
    requires
        matched(groups, 1, zeros_and(zeros, n)) || idle(groups, 1) && matched(
            groups,
            2,
            zeros_and(zeros, n),
        ),
    ensures
        n <= i64::MAX ==> count_found(Some(groups)) == n,
        n > i64::MAX ==> count_found(Some(groups)) == 0,
{
    law_numbers_are_read(zeros, n);
}

/// Without a match, or without a group that took part, nobody is counted.
pub proof fn law_nothing_is_counted(groups: Seq<Option<Seq<char>>>)
    requires
        idle(groups, 1),
        idle(groups, 2),
    ensures
        count_found(Some(groups)) == 0,
        count_found(None) == 0,
{
}

/// Whether `text` is no number: it is empty, or a character of it other than a sign at
/// its beginning is no digit of ASCII, or it is a sign alone.
pub open spec fn no_number(text: Seq<char>) -> bool {
    ||| text.len() == 0
    ||| text.len() == 1 && !('0' <= text[0] <= '9')
    ||| !('0' <= text[0] <= '9' || text[0] == '+' || text[0] == '-')
    ||| exists|i: int| 0 < i < text.len() && !('0' <= #[trigger] text[i] <= '9')
}

proof fn lemma_no_number(text: Seq<char>)
    requires
        no_number(text),
    ensures
        integer(text) is None,
        unsigned(text) is None,
{
    if exists|i: int| 0 < i < text.len() && !('0' <= #[trigger] text[i] <= '9') {
        let i = choose|i: int| 0 < i < text.len() && !('0' <= #[trigger] text[i] <= '9');
        law_other_text_is_no_number(text, i);
    } else {
        law_other_text_is_no_number(text, 0);
    }
}

/// Digits of other scripts make no count, no year and no date.
pub proof fn law_other_digits_do_not_count(groups: Seq<Option<Seq<char>>>, text: Seq<char>, i: int)
    requires
        no_number(text),
    ensures
        matched(groups, 1, text) || idle(groups, 1) && matched(groups, 2, text) ==> count_found(
            Some(groups),
        ) == 0,
        matched(groups, 0, text) ==> year_found(Some(groups)) is None,
        1 <= i <= 3 && (matched(groups, i, text) || idle(groups, i)) ==> date_found(Some(groups))
            is None,
{
    lemma_no_number(text);
}

/// Commas that group digits are dropped, and nothing else is.
pub proof fn law_commas_are_dropped(a: Seq<char>, c: char, b: Seq<char>)
    ensures
        c == ',' || c == '，' ==> compact(a + seq![c] + b) == compact(a) + compact(b),
        c != ',' && c != '，' ==> compact(a + seq![c] + b) == compact(a) + seq![c] + compact(b),
        compact(Seq::empty()) == Seq::<char>::empty(),
{
    let p = |x: char| x != ',' && x != '，';
    Seq::filter_distributes_over_add(a + seq![c], b, p);
    Seq::filter_distributes_over_add(a, seq![c], p);
    assert(seq![c].filter(p) =~= if p(c) {
        seq![c]
    } else {
        Seq::empty()
    }) by {
        reveal_with_fuel(Seq::filter, 2);
        assert(seq![c].drop_last() =~= Seq::empty());
    }
    assert(compact(a) + Seq::empty() =~= compact(a));
    assert(Seq::<char>::empty().filter(p) =~= Seq::empty()) by {
        reveal(Seq::filter);
    }
}

/// What is looked for in running text: a count of those who want to watch, a year, a
/// date, and a date beside a word for the first showing.
pub proof fn law_what_is_looked_for(text: Seq<char>)
    ensures
        wish_count_in_text(text) == count_found(
            first_captures(
                r"(?:想看人数|想看)\s*[:：]?\s*(\d+)|(\d+)\s*人想看"@,
                compact(text),
            ),
        ),
        year_in_text(text) == year_found(first_captures(r"(?:19|20)\d{2}"@, text)),
        date_in_text(text) == date_found(
            first_captures(
                r"(?P<year>19\d{2}|20\d{2})[-/年.](?P<month>\d{1,2})[-/月.](?P<day>\d{1,2})"@,
                text,
            ),
        ),
        date_in_page(text) == page_date_found(
            first_captures(
                r"(?:首播|上映日期|上映时间|开播)\s*[:：]?[\s\S]{0,60}?((?:19|20)\d{2})[-/年.](\d{1,2})[-/月.](\d{1,2})|((?:19|20)\d{2})[-/年.](\d{1,2})[-/月.](\d{1,2})\s*\([^)]{0,12}\)\s*上映"@,
                text,
            ),
        ),
{
}

/// The year is the number that the match writes.
pub proof fn law_years_are_read(groups: Seq<Option<Seq<char>>>, n: nat)
    requires
        matched(groups, 0, decimal(n)),
    ensures
        n <= i32::MAX ==> year_found(Some(groups)) == Some(n as int),
        n > i32::MAX ==> year_found(Some(groups)) is None,
        year_found(None) is None,
{
    law_numbers_are_read(0, n);
}

/// Whether a day is on the calendar: every month has 28 days, all but the second
/// have 30, seven have 31, and the second has 29 every fourth year, but for the
/// centuries that 400 does not divide.
pub open spec fn on_the_calendar(year: int, month: int, day: int) -> bool {
    &&& 1 <= month <= 12
    &&& 1 <= day
    &&& {
        ||| day <= 28
        ||| day <= 30 && month != 2
        ||| day == 31 && (month == 1 || month == 3 || month == 5 || month == 7 || month == 8
            || month == 10 || month == 12)
        ||| day == 29 && month == 2 && (year % 400 == 0 || (year % 4 == 0 && year % 100 != 0))
    }
}

/// A date exists exactly where its day is on the calendar, in the years that are
/// known.
pub proof fn law_calendar(date: DateView)
    ensures
        date.exists_in_calendar() <==> on_the_calendar(date.year, date.month, date.day)
            && -262143 <= date.year <= 262142,
{
}

/// A date is read from three groups: year, month and day, whatever zeros stand
/// before them. Where they are no day of the calendar there is no date.
pub proof fn law_dates_are_read(
    groups: Seq<Option<Seq<char>>>,
    at: int,
    year: nat,
    month: nat,
    day: nat,
    m_zeros: nat,
    d_zeros: nat,
)
    requires
        year <= 262142,
        month <= u32::MAX,
        day <= u32::MAX,
        at == 1 || at == 4 && idle(groups, 1),
        matched(groups, at, decimal(year)),
        matched(groups, at + 1, zeros_and(m_zeros, month)),
        matched(groups, at + 2, zeros_and(d_zeros, day)),
    ensures
        ({
            let found = if on_the_calendar(year as int, month as int, day as int) {
                Some(DateView { year: year as int, month: month as int, day: day as int })
            } else {
                None
            };
            &&& at == 1 ==> date_found(Some(groups)) == found
            &&& page_date_found(Some(groups)) == found
        }),
        date_found(None) is None,
        page_date_found(None) is None,
{
    law_numbers_are_read(0, year);
    law_numbers_are_read(m_zeros, month);
    law_numbers_are_read(d_zeros, day);
    law_calendar(DateView { year: year as int, month: month as int, day: day as int });
}

#[verifier::spinoff_prover]
proof fn lemma_one_more_quotient(n: int)
    ensures
        n / 4 - (n - 1) / 4 == if n % 4 == 0 {
            1int
        } else {
            0int
        },
        n / 100 - (n - 1) / 100 == if n % 100 == 0 {
            1int
        } else {
            0int
        },
        n / 400 - (n - 1) / 400 == if n % 400 == 0 {
            1int
        } else {
            0int
        },
{
    assert(n / 4 - (n - 1) / 4 == if n % 4 == 0 {
        1int
    } else {
        0int
    });
    assert(n / 100 - (n - 1) / 100 == if n % 100 == 0 {
        1int
    } else {
        0int
    });
    assert(n / 400 - (n - 1) / 400 == if n % 400 == 0 {
        1int
    } else {
        0int
    });
}

proof fn lemma_centuries(n: int)
    ensures
        n % 400 == 0 ==> n % 100 == 0,
        n % 100 == 0 ==> n % 4 == 0,
{
}

#[verifier::spinoff_prover]
proof fn lemma_year_length(year: int)
    ensures
        days_before_year(year + 1) == days_before_year(year) + 365 + if year % 400 == 0 || (year % 4
            == 0 && year % 100 != 0) {
            1int
        } else {
            0int
        },
{
    lemma_one_more_quotient(year);
    lemma_centuries(year);
}

/// The days are numbered one after the other: a day later in a month is one more,
/// the first of a month follows the last of the month before, and the first of
/// January follows the last of December. The first day of 1970 has the number
/// 719163.
#[verifier::spinoff_prover]
pub proof fn law_days_are_numbered_in_order(date: DateView)
    requires
        on_the_calendar(date.year, date.month, date.day),
    ensures
        ({
            let within = DateView { day: date.day + 1, ..date };
            let month = DateView { month: date.month + 1, day: 1, ..date };
            let year = DateView { year: date.year + 1, month: 1, day: 1 };
            if on_the_calendar(within.year, within.month, within.day) {
                within.number() == date.number() + 1
            } else if date.month < 12 {
                month.number() == date.number() + 1
            } else {
                year.number() == date.number() + 1
            }
        }),
        (DateView { year: 1970, month: 1, day: 1 }).number() == 719163,
{
    reveal_with_fuel(days_before_month, 13);
    lemma_year_length(date.year);
    assert(days_before_month(date.year, date.month + 1) == days_before_month(
        date.year,
        date.month,
    ) + days_in_month(date.year, date.month));
}

proof fn lemma_padded(n: nat, width: int, zeros: nat)
    requires
        zeros == if width > decimal(n).len() {
            width - decimal(n).len()
        } else {
            0
        },
    ensures
        padded(n, width) == zeros_and(zeros, n),
    decreases zeros,
{
    if zeros > 0 {
        if zeros > 1 {
            lemma_padded(n, width - 1, (zeros - 1) as nat);
        } else {
            lemma_padded(n, width - 1, 0);
        }
        assert(padded(n, width) =~= seq!['0'] + padded(n, width - 1));
    } else {
        assert(padded(n, width) =~= decimal(n));
    }
}

/// The days until a date are the difference of the two days' numbers.
pub proof fn law_days_until(date: Option<DateView>, today: DateView)
    ensures
        date is None <==> days_to(date, today) is None,
        date matches Some(date) ==> days_to(Some(date), today) == Some(
            date.number() - today.number(),
        ),
{
}

/// A date of a year before the year 0 or after the year 9999 is written with the sign
/// of the year before it, and with zeros up to four digits of the year.
pub proof fn law_far_dates_are_written(date: DateView, y_zeros: nat, m_zeros: nat, d_zeros: nat)
    requires
        date.year < 0 || date.year > 9999,
        0 <= date.month,
        0 <= date.day,
        ({
            let year = (if date.year < 0 { -date.year } else { date.year }) as nat;
            y_zeros + decimal(year).len() == 4 || y_zeros == 0 && decimal(year).len() > 4
        }),
        m_zeros + decimal(date.month as nat).len() == 2,
        d_zeros + decimal(date.day as nat).len() == 2,
    ensures
        date.text() == (if date.year < 0 {
            "-"@ + zeros_and(y_zeros, (-date.year) as nat)
        } else {
            "+"@ + zeros_and(y_zeros, date.year as nat)
        }) + "-"@ + zeros_and(m_zeros, date.month as nat) + "-"@ + zeros_and(
            d_zeros,
            date.day as nat,
        ),
{
    let year = (if date.year < 0 { -date.year } else { date.year }) as nat;
    lemma_padded(year, 4, y_zeros);
    lemma_padded(date.month as nat, 2, m_zeros);
    lemma_padded(date.day as nat, 2, d_zeros);
}

/// A date of four digits is written as its year, its month and its day, with zeros
/// up to four, two and two digits.
pub proof fn law_dates_are_written(date: DateView, y_zeros: nat, m_zeros: nat, d_zeros: nat)
    requires
        0 <= date.year <= 9999,
        0 <= date.month,
        0 <= date.day,
        y_zeros + decimal(date.year as nat).len() == 4,
        m_zeros + decimal(date.month as nat).len() == 2,
        d_zeros + decimal(date.day as nat).len() == 2,
    ensures
        date.text() == zeros_and(y_zeros, date.year as nat) + "-"@ + zeros_and(
            m_zeros,
            date.month as nat,
        ) + "-"@ + zeros_and(d_zeros, date.day as nat),
{
    lemma_padded(date.year as nat, 4, y_zeros);
    lemma_padded(date.month as nat, 2, m_zeros);
    lemma_padded(date.day as nat, 2, d_zeros);
}

/// A series is what TMDB calls `tv`, in letters of either size and with white space
/// around it or not.
pub proof fn law_series(media: MediaView, kind: Seq<char>)
    requires
        is_core(media.media_type, kind),
    ensures
        is_series(media) <==> kind.len() == 2 && (kind[0] == 't' || kind[0] == 'T') && (kind[1]
            == 'v' || kind[1] == 'V'),
{
    law_trimmed_is_the_core(media.media_type, kind);
    lemma_is_tv(kind);
}

proof fn lemma_is_tv(kind: Seq<char>)
    ensures
        crate::text::ascii_lower(kind) == "tv"@ <==> kind.len() == 2 && (kind[0] == 't' || kind[0]
            == 'T') && (kind[1] == 'v' || kind[1] == 'V'),
{
    let low = crate::text::ascii_lower(kind);
    law_lower_case(kind);
    reveal_strlit("tv");
    if kind.len() == 2 && (kind[0] == 't' || kind[0] == 'T') && (kind[1] == 'v' || kind[1]
        == 'V') {
        assert(low[0] as int == 't' as int);
        assert(low[1] as int == 'v' as int);
        assert(low =~= "tv"@);
    }
    if low == "tv"@ {
        assert(low.len() == 2);
        assert(low[0] == 't' && low[1] == 'v');
        assert(low[0] as int == 116 && low[1] as int == 118);
    }
}

/// The air date is read from the first date field that is there.
pub proof fn law_tmdb_dates(media: MediaView)
    ensures
        media.first_air_date matches Some(text) ==> tmdb_air_date(media) == date_in_text(text),
        media.first_air_date is None && media.air_date is Some ==> tmdb_air_date(media)
            == date_in_text(media.air_date->0),
        media.first_air_date is None && media.air_date is None && media.release_date is Some
            ==> tmdb_air_date(media) == date_in_text(media.release_date->0),
        media.first_air_date is None && media.air_date is None && media.release_date is None
            ==> tmdb_air_date(media) is None,
{
}

/// The title is TMDB's unless that is blank, else the feed's.
pub proof fn law_titles(item: ItemView, media: MediaView)
    ensures
        is_core(media.title, Seq::empty()) ==> shown_title(item, media) == item.title,
        !is_core(media.title, Seq::empty()) ==> shown_title(item, media) == media.title,
{
    law_trimmed_is_the_core(media.title, Seq::empty());
    assert(trimmed(media.title).len() == 0 ==> trimmed(media.title) =~= Seq::empty());
}

/// The key of a season names the series and the season.
pub proof fn law_season_keys(tmdb_id: Seq<char>, id: Seq<char>, season: int)
    requires
        is_core(tmdb_id, id),
    ensures
        season_key(tmdb_id, season) == "tv:"@ + id + ":"@ + decimal_int(season),
{
    law_trimmed_is_the_core(tmdb_id, id);
}

/// Whether `id` is the id of a series that `value` gives under `tmdb_id`: a text that
/// is not blank, without the white space around it, or an integer in decimal.
pub open spec fn gives_id(value: JsonView, id: Seq<char>) -> bool {
    &&& has_field(value, "tmdb_id"@)
    &&& match value->Object_0["tmdb_id"@] {
        JsonView::Text(s) => is_core(s, id) && id.len() > 0,
        JsonView::Int(n) => i64::MIN <= n <= i64::MAX && id == decimal_int(n),
        _ => false,
    }
}

/// Whether `season` is the season that a subscription names; the first where it
/// names none.
pub open spec fn gives_season(value: JsonView, season: int) -> bool {
    if has_field(value, "season"@) && value->Object_0["season"@] is Int && i64::MIN
        <= value->Object_0["season"@]->Int_0 <= i64::MAX {
        season == value->Object_0["season"@]->Int_0
    } else {
        season == 1
    }
}

/// Whether the kind of a subscription is `tv`, in letters of either size.
pub open spec fn is_tv_subscription(value: JsonView) -> bool {
    &&& has_text(value, "media_type"@)
    &&& {
        let kind = value->Object_0["media_type"@]->Text_0;
        kind.len() == 2 && (kind[0] == 't' || kind[0] == 'T') && (kind[1] == 'v' || kind[1] == 'V')
    }
}

/// A subscription has a key exactly where it is one to a series and gives an id.
pub proof fn law_subscription_keys(value: JsonView, id: Seq<char>, season: int)
    requires
        gives_season(value, season),
    ensures
        is_tv_subscription(value) && gives_id(value, id) ==> key_of(value) == Some(
            season_key(id, season),
        ),
        key_of(value) is Some ==> is_tv_subscription(value) && exists|given: Seq<char>|
            gives_id(value, given),
{
    if has_text(value, "media_type"@) {
        lemma_is_tv(value->Object_0["media_type"@]->Text_0);
    }
    if has_field(value, "tmdb_id"@) {
        let field = value->Object_0["tmdb_id"@];
        if let JsonView::Text(s) = field {
            law_trimmed_is_the_core(s, id);
            law_trimmed_is_the_core(s, trimmed(s));
        }
        if let Some(given) = id_in(field) {
            assert(gives_id(value, given));
        }
    }
}

/// The series that are subscribed to are exactly those of the listed subscriptions
/// that have a key; a reply that is no list is refused.
pub proof fn law_subscriptions_are_listed(response: JsonView, key: Seq<char>)
    ensures
        match response {
            JsonView::Array(items) => {
                &&& subscribed_keys(response) matches Ok(keys)
                &&& keys.no_duplicates()
                &&& keys.contains(key) <==> exists|i: int|
                    0 <= i < items.len() && key_of(#[trigger] items[i]) == Some(key)
            },
            _ => subscribed_keys(response) == Err::<Seq<Seq<char>>, Seq<char>>(
                "订阅列表响应格式无效"@,
            ),
        },
{
    if let JsonView::Array(items) = response {
        let f = |s: JsonView| key_of(s);
        let keys = items.filter_map(f);
        lemma_distinct(keys);
        if keys.contains(key) {
            items.lemma_filter_map_contains(f, key);
            let s = choose|s: JsonView| #[trigger] items.contains(s) && f(s) == Some(key);
            let i = choose|i: int| 0 <= i < items.len() && items[i] == s;
            assert(key_of(items[i]) == Some(key));
        }
        if exists|i: int| 0 <= i < items.len() && key_of(#[trigger] items[i]) == Some(key) {
            let i = choose|i: int| 0 <= i < items.len() && key_of(#[trigger] items[i]) == Some(key);
            lemma_filter_map_keeps(items, f, i);
        }
    }
}

/// An integer as a value, or `null`.
pub open spec fn number_or_null(n: Option<int>, value: JsonView) -> bool {
    match n {
        Some(n) => value == JsonView::Int(n),
        None => value == JsonView::Null,
    }
}

/// A text as a value, or `null`.
pub open spec fn words_or_null(s: Option<Seq<char>>, value: JsonView) -> bool {
    match s {
        Some(s) => value == JsonView::Text(s),
        None => value == JsonView::Null,
    }
}

proof fn lemma_query_keys()
    ensures
        "tmdb_id"@.len() == 7,
        "name"@.len() == 4,
        "year"@.len() == 4,
        "name"@[0] != "year"@[0],
        "season"@.len() == 6,
        "media_type"@.len() == 10,
        "poster_path"@.len() == 11,
        "backdrop_path"@.len() == 13,
        "vote_average"@.len() == 12,
        "description"@.len() == 11,
        "description"@[0] != "poster_path"@[0],
        "expected_episodes"@.len() == 17,
        "title"@.len() == 5,
        "content"@.len() == 7,
        "image_url"@.len() == 9,
{
    reveal_strlit("tmdb_id");
    reveal_strlit("name");
    reveal_strlit("year");
    reveal_strlit("season");
    reveal_strlit("media_type");
    reveal_strlit("poster_path");
    reveal_strlit("backdrop_path");
    reveal_strlit("vote_average");
    reveal_strlit("description");
    reveal_strlit("expected_episodes");
    reveal_strlit("title");
    reveal_strlit("content");
    reveal_strlit("image_url");
}

/// An item is resolved by its title and year, as a series.
pub proof fn law_resolve_queries(item: ItemView)
    ensures
        ({
            let query = resolve_query(item);
            &&& holds(query, "title"@, JsonView::Text(item.title))
            &&& holds(query, "media_type"@, JsonView::Text("tv"@))
            &&& has_field(query, "year"@)
            &&& number_or_null(item.year, query->Object_0["year"@])
        }),
{
    lemma_query_keys();
}

/// A subscription is asked for with the id and the shown title, the first season, and
/// what TMDB knows of the series; the year is the feed's where TMDB has none.
pub proof fn law_subscription_queries(item: ItemView, media: MediaView)
    ensures
        ({
            let query = subscription_query(item, media);
            let fields = query->Object_0;
            &&& holds(query, "tmdb_id"@, JsonView::Text(media.tmdb_id))
            &&& holds(query, "name"@, JsonView::Text(shown_title(item, media)))
            &&& holds(query, "season"@, JsonView::Int(1))
            &&& holds(query, "media_type"@, JsonView::Text("tv"@))
            &&& holds(query, "vote_average"@, media.vote_average)
            &&& has_field(query, "year"@)
            &&& media.year is Some ==> number_or_null(media.year, fields["year"@])
            &&& media.year is None ==> number_or_null(item.year, fields["year"@])
            &&& has_field(query, "poster_path"@) && words_or_null(
                media.poster_path,
                fields["poster_path"@],
            )
            &&& has_field(query, "backdrop_path"@) && words_or_null(
                media.backdrop_path,
                fields["backdrop_path"@],
            )
            &&& has_field(query, "description"@) && words_or_null(
                media.description,
                fields["description"@],
            )
            &&& has_field(query, "expected_episodes"@) && number_or_null(
                media.expected_episodes,
                fields["expected_episodes"@],
            )
        }),
{
    lemma_query_keys();
}

/// A notification is sent with its title, its content and its image.
pub proof fn law_notification_queries(
    title: Seq<char>,
    content: Seq<char>,
    image: Option<Seq<char>>,
)
    ensures
        ({
            let query = notification_query(title, content, image);
            &&& holds(query, "title"@, JsonView::Text(title))
            &&& holds(query, "content"@, JsonView::Text(content))
            &&& has_field(query, "image_url"@)
            &&& words_or_null(image, query->Object_0["image_url"@])
        }),
{
    lemma_query_keys();
}

/// A reply resolves an item to its data, or to itself where it has none; one whose
/// status is `failed` does not, and says why.
pub proof fn law_resolving(reply: JsonView)
    ensures
        holds(reply, "status"@, JsonView::Text("failed"@)) ==> resolved_to(reply) == Err::<
            JsonView,
            Seq<char>,
        >(
            if has_text(reply, "message"@) {
                reply->Object_0["message"@]->Text_0
            } else {
                "TMDB 未匹配"@
            },
        ),
        !holds(reply, "status"@, JsonView::Text("failed"@)) ==> resolved_to(reply) == Ok::<
            JsonView,
            Seq<char>,
        >(
            if has_field(reply, "data"@) {
                reply->Object_0["data"@]
            } else {
                reply
            },
        ),
{
}

/// The helper refreshes, and refuses whatever else it is asked to do.
pub proof fn law_refusals(action: Seq<char>)
    ensures
        action == "refresh"@ <==> refusal_of(action) is None,
        refusal_of(action) matches Some(error) ==> error == "不支持的豆瓣将映动作"@,
{
}

/// A reply of Mediary is what its body writes, where it succeeded.
pub proof fn law_mediary_replies(success: bool, status: Seq<char>, body: Seq<char>)
    ensures
        !success ==> mediary_reply(success, status, body) == Err::<JsonView, Seq<char>>(
            "Mediary API "@ + status,
        ),
        success ==> match json_read(body) {
            Ok(value) => mediary_reply(success, status, body) == Ok::<JsonView, Seq<char>>(value),
            Err(error) => mediary_reply(success, status, body) == Err::<JsonView, Seq<char>>(
                "解析 Mediary 响应失败: "@ + error,
            ),
        },
{
}

/// The feed is asked for at the RSSHub of the settings, by heat unless the settings
/// say by time, and with as many items as they ask for, between one and a hundred;
/// ten where they ask for nothing.
pub proof fn law_feed_addresses(
    settings: Map<Seq<char>, JsonView>,
    base: Seq<char>,
    slashes: Seq<char>,
    count: int,
)
    requires
        base + slashes == if settings.contains_key("rsshub"@) && settings["rsshub"@] is Text {
            settings["rsshub"@]->Text_0
        } else {
            "https://rsshub.ddsrem.com"@
        },
        all_of(slashes, |c: char| c == '/'),
        base.len() > 0 ==> base.last() != '/',
        if settings.contains_key("count"@) && settings["count"@] is Int && i64::MIN
            <= settings["count"@]->Int_0 <= i64::MAX {
            let asked = settings["count"@]->Int_0;
            &&& 1 <= asked <= 100 ==> count == asked
            &&& asked < 1 ==> count == 1
            &&& asked > 100 ==> count == 100
        } else {
            count == 10
        },
    ensures
        feed_address(settings) == base + "/douban/tv/coming/"@ + (if settings.contains_key(
            "sort_by"@,
        ) && settings["sort_by"@] == JsonView::Text("time"@) {
            "time"@
        } else {
            "hot"@
        }) + "/"@ + decimal_int(count),
{
    let p = |c: char| c == '/';
    law_drop_trailing(base, slashes, p);
    reveal_strlit("time");
    reveal_strlit("hot");
    assert("time"@.len() != "hot"@.len());
}

/// The page of a series is that of the mobile site under the same path, in which an
/// address of the main site is turned too; other links have none.
pub proof fn law_page_addresses(link: Seq<char>, path: Seq<char>)
    ensures
        link == "https://movie.douban.com/"@ + path && (forall|at: int|
            !#[trigger] stands_at(path, at, "https://movie.douban.com/"@)) ==> page_address(link)
            == Some("https://m.douban.com/movie/"@ + path),
        link == "https://movie.douban.com/"@ + path ==> page_address(link) == Some(
            "https://m.douban.com/movie/"@ + replaced(
                path,
                "https://movie.douban.com/"@,
                "https://m.douban.com/movie/"@,
            ),
        ),
        (forall|rest: Seq<char>| link != #[trigger] ("https://movie.douban.com/"@ + rest))
            ==> page_address(link) is None,
{
    let from = "https://movie.douban.com/"@;
    let to = "https://m.douban.com/movie/"@;
    reveal_strlit("https://movie.douban.com/");
    law_begins_with(link, from);
    if link == from + path {
        let turned = replaced(path, from, to);
        assert(begins_with(link, from));
        law_replaced_first(link, from, to, 0);
        assert(link.skip(from.len() as int) =~= path);
        assert(link.take(0) + to + turned =~= to + turned);
        if forall|at: int| !#[trigger] stands_at(path, at, from) {
            law_replaced_nothing(path, from, to);
        }
    }
}

/// The text of a member; empty where it is no text.
pub open spec fn word(fields: Map<Seq<char>, JsonView>, key: Seq<char>) -> Seq<char> {
    if fields.contains_key(key) && fields[key] is Text {
        fields[key]->Text_0
    } else {
        Seq::empty()
    }
}

/// An item has the title and the link that were gathered, without the white space
/// around them, and the description as it stands; how many want to watch is told by
/// the description, and the year by the category or else by the description. Without
/// a title and a link there is no item.
pub proof fn law_items_are_made(
    fields: Map<Seq<char>, JsonView>,
    title: Seq<char>,
    link: Seq<char>,
)
    requires
        is_core(word(fields, "title"@), title),
        is_core(word(fields, "link"@), link),
    ensures
        title.len() == 0 && link.len() == 0 ==> item_with(fields) is None,
        title.len() > 0 || link.len() > 0 ==> {
            let description = word(fields, "description"@);
            let year = year_in_text(word(fields, "category"@));
            item_with(fields) == Some(
                ItemView {
                    title,
                    link,
                    description,
                    wish_count: wish_count_in_text(description),
                    year: if year is Some {
                        year
                    } else {
                        year_in_text(description)
                    },
                },
            )
        },
{
    law_trimmed_is_the_core(word(fields, "title"@), title);
    law_trimmed_is_the_core(word(fields, "link"@), link);
    assert(gathered(fields, "title"@) == word(fields, "title"@));
}

/// Text inside a field of an item is added to what was gathered of the field, and
/// marked data takes its place; outside a field neither counts.
pub proof fn law_text_is_gathered(state: ParserView, text: Seq<char>)
    ensures
        ({
            let inside = state.in_item && state.field.len() > 0;
            let whole = word(state.fields, state.field) + text;
            &&& inside ==> state.after(EventView::Text(Ok(text))) == Ok::<ParserView, Seq<char>>(
                ParserView {
                    fields: state.fields.insert(state.field, JsonView::Text(whole)),
                    ..state
                },
            )
            &&& inside ==> state.after(EventView::Text(Err(text))) == Err::<ParserView, Seq<char>>(
                text,
            )
            &&& inside ==> state.after(EventView::CData(text)) == Ok::<ParserView, Seq<char>>(
                ParserView {
                    fields: state.fields.insert(state.field, JsonView::Text(text)),
                    ..state
                },
            )
            &&& !inside ==> state.after(EventView::Text(Ok(text))) == Ok::<ParserView, Seq<char>>(
                state,
            )
            &&& !inside ==> state.after(EventView::Text(Err(text))) == Ok::<
                ParserView,
                Seq<char>,
            >(state)
            &&& !inside ==> state.after(EventView::CData(text)) == Ok::<ParserView, Seq<char>>(
                state,
            )
        }),
{
    assert(gathered(state.fields, state.field) == word(state.fields, state.field));
}

/// An `item` begins without fields and is made at its end; within it each element
/// opens its field, and closes it at its end. Elsewhere elements do not count.
pub proof fn law_elements_open_and_close(state: ParserView, name: Seq<char>)
    ensures
        state.after(EventView::Start("item"@)) == Ok::<ParserView, Seq<char>>(
            ParserView { in_item: true, fields: Map::empty(), ..state },
        ),
        state.after(EventView::End("item"@)) == Ok::<ParserView, Seq<char>>(
            ParserView { in_item: false, field: Seq::empty(), ..state },
        ),
        state.completed(EventView::End("item"@)) == match item_with(state.fields) {
            Some(item) => seq![item],
            None => Seq::empty(),
        },
        name != "item"@ ==> {
            &&& state.in_item ==> state.after(EventView::Start(name)) == Ok::<
                ParserView,
                Seq<char>,
            >(ParserView { field: name, ..state })
            &&& !state.in_item ==> state.after(EventView::Start(name)) == Ok::<
                ParserView,
                Seq<char>,
            >(state)
            &&& state.field == name ==> state.after(EventView::End(name)) == Ok::<
                ParserView,
                Seq<char>,
            >(ParserView { field: Seq::empty(), ..state })
            &&& state.field != name ==> state.after(EventView::End(name)) == Ok::<
                ParserView,
                Seq<char>,
            >(state)
            &&& state.completed(EventView::End(name)).len() == 0
        },
        state.completed(EventView::Start(name)).len() == 0,
        state.completed(EventView::Text(Ok(name))).len() == 0,
        state.completed(EventView::Text(Err(name))).len() == 0,
        state.completed(EventView::CData(name)).len() == 0,
        state.completed(EventView::Other).len() == 0,
        state.after(EventView::Other) == Ok::<ParserView, Seq<char>>(state),
        state.after(EventView::Failed(name)) == Err::<ParserView, Seq<char>>(
            "解析 RSS 失败: "@ + name,
        ),
{
}

/// What stands outside of items is passed over, whatever it is.
pub proof fn law_nothing_is_read_outside_items(event: EventView, rest: Seq<EventView>)
    requires
        event != EventView::Start("item"@),
        !(event is Eof),
        !(event is Failed),
    ensures
        items_from(unread(), seq![event] + rest) == items_from(unread(), rest),
{
    law_events_are_read_in_order(unread(), event, rest);
    law_trimmed_is_the_core(Seq::empty(), Seq::empty());
    assert(item_with(unread().fields) is None);
    assert(unread().completed(event) =~= Seq::empty());
    if items_from(unread(), rest) is Ok {
        let items = items_from(unread(), rest)->Ok_0;
        assert(Seq::<ItemView>::empty() + items =~= items);
    }
}

/// A feed is read event by event: each item follows those before it, reading stops
/// at the end, and an error is all that is left of the feed.
pub proof fn law_events_are_read_in_order(
    state: ParserView,
    event: EventView,
    rest: Seq<EventView>,
)
    ensures
        items_from(state, Seq::empty()) == Ok::<Seq<ItemView>, Seq<char>>(Seq::empty()),
        event is Eof ==> items_from(state, seq![event] + rest) == Ok::<Seq<ItemView>, Seq<char>>(
            Seq::empty(),
        ),
        !(event is Eof) ==> items_from(state, seq![event] + rest) == match state.after(event) {
            Err(error) => Err::<Seq<ItemView>, Seq<char>>(error),
            Ok(next) => match items_from(next, rest) {
                Err(error) => Err(error),
                Ok(items) => Ok(state.completed(event) + items),
            },
        },
{
    assert((seq![event] + rest).drop_first() =~= rest);
}

/// A whole item of a feed: with a title, a link, a description and a category, each
/// written as one text, it becomes one item of the result, before all that follow.
pub proof fn law_an_item_is_read(
    state: ParserView,
    title: Seq<char>,
    link: Seq<char>,
    description: Seq<char>,
    category: Seq<char>,
    rest: Seq<EventView>,
    more: Seq<ItemView>,
)
    requires
        title.len() > 0,
        is_core(title, title),
        is_core(link, link),
        items_from(
            ParserView {
                in_item: false,
                field: Seq::empty(),
                fields: map![
                    "title"@ => JsonView::Text(title),
                    "link"@ => JsonView::Text(link),
                    "description"@ => JsonView::Text(description),
                    "category"@ => JsonView::Text(category),
                ],
            },
            rest,
        ) == Ok::<Seq<ItemView>, Seq<char>>(more),
    ensures
        items_from(
            state,
            seq![
                EventView::Start("item"@),
                EventView::Start("title"@),
                EventView::Text(Ok(title)),
                EventView::End("title"@),
                EventView::Start("link"@),
                EventView::Text(Ok(link)),
                EventView::End("link"@),
                EventView::Start("description"@),
                EventView::Text(Ok(description)),
                EventView::End("description"@),
                EventView::Start("category"@),
                EventView::Text(Ok(category)),
                EventView::End("category"@),
                EventView::End("item"@),
            ] + rest,
        ) == Ok::<Seq<ItemView>, Seq<char>>(
            seq![
                ItemView {
                    title,
                    link,
                    description,
                    wish_count: wish_count_in_text(description),
                    year: if year_in_text(category) is Some {
                        year_in_text(category)
                    } else {
                        year_in_text(description)
                    },
                },
            ] + more,
        ),
{
    reveal_strlit("item");
    reveal_strlit("title");
    reveal_strlit("link");
    reveal_strlit("description");
    reveal_strlit("category");
    assert("item"@.len() == 4 && "title"@.len() == 5 && "link"@.len() == 4 && "description"@.len()
        == 11 && "category"@.len() == 8 && "item"@[0] != "link"@[0]);
    let end = seq![EventView::End("item"@)] + rest;
    let fields0 = Map::<Seq<char>, JsonView>::empty();
    let fields1 = fields0.insert("title"@, JsonView::Text(title));
    let fields2 = fields1.insert("link"@, JsonView::Text(link));
    let fields3 = fields2.insert("description"@, JsonView::Text(description));
    let fields4 = fields3.insert("category"@, JsonView::Text(category));
    let s0 = ParserView { in_item: true, fields: fields0, ..state };
    let s1 = ParserView { in_item: true, field: Seq::empty(), fields: fields1 };
    let s2 = ParserView { in_item: true, field: Seq::empty(), fields: fields2 };
    let s3 = ParserView { in_item: true, field: Seq::empty(), fields: fields3 };
    let s4 = ParserView { in_item: true, field: Seq::empty(), fields: fields4 };
    let e4 = one_field("category"@, category) + end;
    let e3 = one_field("description"@, description) + e4;
    let e2 = one_field("link"@, link) + e3;
    let e1 = one_field("title"@, title) + e2;
    law_elements_open_and_close(state, "title"@);
    law_events_are_read_in_order(state, EventView::Start("item"@), e1);
    lemma_field_read(s0, "title"@, title, e2);
    lemma_field_read(s1, "link"@, link, e3);
    lemma_field_read(s2, "description"@, description, e4);
    lemma_field_read(s3, "category"@, category, end);
    law_events_are_read_in_order(s4, EventView::End("item"@), rest);
    law_elements_open_and_close(s4, "title"@);
    law_items_are_made(fields4, title, link);
    let events = seq![
        EventView::Start("item"@),
        EventView::Start("title"@),
        EventView::Text(Ok(title)),
        EventView::End("title"@),
        EventView::Start("link"@),
        EventView::Text(Ok(link)),
        EventView::End("link"@),
        EventView::Start("description"@),
        EventView::Text(Ok(description)),
        EventView::End("description"@),
        EventView::Start("category"@),
        EventView::Text(Ok(category)),
        EventView::End("category"@),
        EventView::End("item"@),
    ] + rest;
    assert(events =~= seq![EventView::Start("item"@)] + e1);
    assert(items_from(s4, end) is Ok);
    let last = items_from(s4, end)->Ok_0;
    assert(Seq::<ItemView>::empty() + last =~= last);
}

/// The events of a field with one text.
pub open spec fn one_field(name: Seq<char>, text: Seq<char>) -> Seq<EventView> {
    seq![EventView::Start(name), EventView::Text(Ok(text)), EventView::End(name)]
}

proof fn lemma_field_read(
    state: ParserView,
    name: Seq<char>,
    text: Seq<char>,
    rest: Seq<EventView>,
)
    requires
        state.in_item,
        name.len() > 0,
        name != "item"@,
        !state.fields.contains_key(name),
    ensures
        items_from(state, one_field(name, text) + rest) == items_from(
            ParserView {
                in_item: true,
                field: Seq::empty(),
                fields: state.fields.insert(name, JsonView::Text(text)),
            },
            rest,
        ),
{
    let opened = ParserView { field: name, ..state };
    let filled = ParserView {
        fields: state.fields.insert(name, JsonView::Text(text)),
        ..opened
    };
    let closed = ParserView { field: Seq::empty(), ..filled };
    let e2 = seq![EventView::End(name)] + rest;
    let e1 = seq![EventView::Text(Ok::<Seq<char>, Seq<char>>(text))] + e2;
    assert(one_field(name, text) + rest =~= seq![EventView::Start(name)] + e1);
    law_elements_open_and_close(state, name);
    law_events_are_read_in_order(state, EventView::Start(name), e1);
    law_text_is_gathered(opened, text);
    assert(word(opened.fields, name) + text =~= text);
    law_events_are_read_in_order(opened, EventView::Text(Ok(text)), e2);
    law_elements_open_and_close(filled, name);
    law_events_are_read_in_order(filled, EventView::End(name), rest);
    assert forall|items: Seq<ItemView>| Seq::<ItemView>::empty() + items == items by {
        assert(Seq::<ItemView>::empty() + items =~= items);
    }
    assert(state.completed(EventView::Start(name)) =~= Seq::empty());
    assert(opened.completed(EventView::Text(Ok(text))) =~= Seq::empty());
    assert(filled.completed(EventView::End(name)) =~= Seq::empty());
    assert(closed == (ParserView {
        in_item: true,
        field: Seq::empty(),
        fields: state.fields.insert(name, JsonView::Text(text)),
    }));
}

} // verus!
