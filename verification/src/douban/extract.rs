//! Dates, years and counts that are found in running text.
use regex::Regex;
use vstd::prelude::*;

use super::date::{calendar_date, opt_date, Date, DateView};
use crate::json::opt_text;
use crate::text::{integer, parse_i32, parse_i64, parse_u32, unsigned, within, without};

verus! {

/// A year of the twentieth or the twenty-first century.
pub const YEAR_PATTERN: &'static str = r"(?:19|20)\d{2}";

/// A date as year, month and day.
pub const DATE_PATTERN: &'static str =
    r"(?P<year>19\d{2}|20\d{2})[-/年.](?P<month>\d{1,2})[-/月.](?P<day>\d{1,2})";

/// A date after a word for the first showing, or before the word for release.
pub const PAGE_DATE_PATTERN: &'static str =
    r"(?:首播|上映日期|上映时间|开播)\s*[:：]?[\s\S]{0,60}?((?:19|20)\d{2})[-/年.](\d{1,2})[-/月.](\d{1,2})|((?:19|20)\d{2})[-/年.](\d{1,2})[-/月.](\d{1,2})\s*\([^)]{0,12}\)\s*上映";

/// A count of the people who want to watch.
pub const WISH_PATTERN: &'static str = r"(?:想看人数|想看)\s*[:：]?\s*(\d+)|(\d+)\s*人想看";

/// What `Regex::captures` finds of a pattern in a text: for each group the text
/// that it matched, if it took part; the whole match is group zero.
pub uninterp spec fn first_captures(pattern: Seq<char>, text: Seq<char>) -> Option<
    Seq<Option<Seq<char>>>,
>;

/// The text of each group.
pub open spec fn groups_view(groups: Seq<Option<String>>) -> Seq<Option<Seq<char>>> {
    groups.map_values(
        |g: Option<String>|
            match g {
                Some(s) => Some(s@),
                None => None,
            },
    )
}

/// The text of each group of a match, where there is one.
pub open spec fn match_view(found: Option<Vec<Option<String>>>) -> Option<
    Seq<Option<Seq<char>>>,
> {
    match found {
        Some(groups) => Some(groups_view(groups@)),
        None => None,
    }
}

/// The text of group `i`, if it took part.
pub open spec fn group(groups: Seq<Option<Seq<char>>>, i: int) -> Option<Seq<char>> {
    if 0 <= i < groups.len() {
        groups[i]
    } else {
        None
    }
}

/// Whether a text has the shape `(?:19|20)\d{2}`, as far as its length and its
/// first two characters go.
pub open spec fn year_shaped(s: Option<Seq<char>>) -> bool {
    s matches Some(s) ==> s.len() == 4 && ((s[0] == '1' && s[1] == '9') || (s[0] == '2' && s[1]
        == '0'))
}

/// Whether a text begins with no sign.
pub open spec fn signless(s: Option<Seq<char>>) -> bool {
    s matches Some(s) ==> s.len() > 0 && s[0] != '+' && s[0] != '-'
}

/// What the patterns above say of the groups that they match.
pub open spec fn shaped_by(pattern: Seq<char>, found: Option<Seq<Option<Seq<char>>>>) -> bool {
    found matches Some(groups) ==> {
        &&& pattern == YEAR_PATTERN@ ==> year_shaped(group(groups, 0))
        &&& pattern == DATE_PATTERN@ ==> year_shaped(group(groups, 1))
        &&& pattern == PAGE_DATE_PATTERN@ ==> year_shaped(group(groups, 1)) && year_shaped(
            group(groups, 4),
        )
        &&& pattern == WISH_PATTERN@ ==> signless(group(groups, 1)) && signless(group(groups, 2))
    }
}

/// `Regex::new` and `Regex::captures`: the groups of the first match of `pattern`
/// in `text`, which depend on the two alone; nothing where there is no match or
/// the pattern is no regular expression. A year group of the patterns of this
/// module is four characters that begin with `19` or `20`, and a count begins
/// with a digit.
#[verifier::external_body]
fn captures(pattern: &str, text: &str) -> (r: Option<Vec<Option<String>>>)
    ensures
        match_view(r) == first_captures(pattern@, text@),
        shaped_by(pattern@, match_view(r)),
{
    let regex = Regex::new(pattern).ok()?;
    let found = regex.captures(text)?;
    Some(found.iter().map(|group| group.map(|found| found.as_str().to_owned())).collect())
}

/// The text of group `i`, if it took part.
pub fn group_text(groups: &Vec<Option<String>>, i: usize) -> (r: Option<&str>)
    ensures
        opt_text(r) == group(groups_view(groups@), i as int),
{
    if i < groups.len() {
        match &groups[i] {
            Some(s) => Some(s.as_str()),
            None => None,
        }
    } else {
        None
    }
}

/// The year that a text writes.
pub open spec fn year_in(s: Option<Seq<char>>) -> Option<int> {
    match s {
        Some(s) => within(integer(s), i32::MIN as int, i32::MAX as int),
        None => None,
    }
}

/// The month or the day that a text writes.
pub open spec fn part_in(s: Option<Seq<char>>) -> Option<int> {
    match s {
        Some(s) => within(unsigned(s), 0, u32::MAX as int),
        None => None,
    }
}

/// The date whose year, month and day stand in three groups from `at` on; none
/// where one of them is missing or they are no date.
pub open spec fn date_in(groups: Seq<Option<Seq<char>>>, at: int) -> Option<DateView> {
    match (year_in(group(groups, at)), part_in(group(groups, at + 1)), part_in(group(groups, at + 2))) {
        (Some(year), Some(month), Some(day)) => calendar_date(year, month, day),
        _ => None,
    }
}

/// The date whose year, month and day stand in three groups from `at` on.
pub fn date_in_groups(groups: &Vec<Option<String>>, at: usize) -> (r: Option<Date>)
    requires
        at + 2 <= usize::MAX,
    ensures
        opt_date(r) == date_in(groups_view(groups@), at as int),
{
    let year: i32 = match group_text(groups, at) {
        Some(s) => match parse_i32(s) {
            Some(n) => n,
            None => {
                return None;
            },
        },
        None => {
            return None;
        },
    };
    let month: u32 = match group_text(groups, at + 1) {
        Some(s) => match parse_u32(s) {
            Some(n) => n,
            None => {
                return None;
            },
        },
        None => {
            return None;
        },
    };
    let day: u32 = match group_text(groups, at + 2) {
        Some(s) => match parse_u32(s) {
            Some(n) => n,
            None => {
                return None;
            },
        },
        None => {
            return None;
        },
    };
    Date::from_ymd_opt(year, month, day)
}

/// The date in a match of `DATE_PATTERN`.
pub open spec fn date_found(found: Option<Seq<Option<Seq<char>>>>) -> Option<DateView> {
    match found {
        Some(groups) => date_in(groups, 1),
        None => None,
    }
}

/// The first date in a text.
pub open spec fn date_in_text(text: Seq<char>) -> Option<DateView> {
    date_found(first_captures(DATE_PATTERN@, text))
}

/// The first date in `value`: where it is no date of the calendar, none.
pub fn extract_date(value: &str) -> (r: Option<Date>)
    ensures
        opt_date(r) == date_in_text(value@),
        r matches Some(date) ==> 1900 <= date@.year <= 2099,
{
    match captures(DATE_PATTERN, value) {
        Some(groups) => {
            proof {
                lemma_shaped_year(group(groups_view(groups@), 1));
            }
            date_in_groups(&groups, 1)
        },
        None => None,
    }
}

/// The date in a match of `PAGE_DATE_PATTERN`: the one after a word for the first
/// showing, or else the one before the word for release.
pub open spec fn page_date_found(found: Option<Seq<Option<Seq<char>>>>) -> Option<DateView> {
    match found {
        Some(groups) => if group(groups, 1) is Some {
            date_in(groups, 1)
        } else {
            date_in(groups, 4)
        },
        None => None,
    }
}

/// The date of the first showing on a Douban page.
pub open spec fn date_in_page(html: Seq<char>) -> Option<DateView> {
    page_date_found(first_captures(PAGE_DATE_PATTERN@, html))
}

/// The date in the groups of a match of `PAGE_DATE_PATTERN`.
pub fn page_date_in_groups(groups: &Vec<Option<String>>) -> (r: Option<Date>)
    ensures
        opt_date(r) == page_date_found(Some(groups_view(groups@))),
{
    if group_text(groups, 1).is_some() {
        date_in_groups(groups, 1)
    } else {
        date_in_groups(groups, 4)
    }
}

/// The date of the first showing on a Douban page.
pub fn extract_douban_date(html: &str) -> (r: Option<Date>)
    ensures
        opt_date(r) == date_in_page(html@),
        r matches Some(date) ==> 1900 <= date@.year <= 2099,
{
    match captures(PAGE_DATE_PATTERN, html) {
        Some(groups) => {
            proof {
                lemma_shaped_year(group(groups_view(groups@), 1));
                lemma_shaped_year(group(groups_view(groups@), 4));
            }
            page_date_in_groups(&groups)
        },
        None => None,
    }
}

/// The year in a match of `YEAR_PATTERN`.
pub open spec fn year_found(found: Option<Seq<Option<Seq<char>>>>) -> Option<int> {
    match found {
        Some(groups) => year_in(group(groups, 0)),
        None => None,
    }
}

/// The first year in a text.
pub open spec fn year_in_text(text: Seq<char>) -> Option<int> {
    year_found(first_captures(YEAR_PATTERN@, text))
}

/// A year as an integer, where there is one.
pub open spec fn opt_year(year: Option<i32>) -> Option<int> {
    match year {
        Some(year) => Some(year as int),
        None => None,
    }
}

/// The year in the groups of a match of `YEAR_PATTERN`.
pub fn year_in_groups(groups: &Vec<Option<String>>) -> (r: Option<i32>)
    ensures
        opt_year(r) == year_found(Some(groups_view(groups@))),
{
    match group_text(groups, 0) {
        Some(s) => parse_i32(s),
        None => None,
    }
}

/// The first year of the twentieth or the twenty-first century in `value`.
pub fn extract_year(value: &str) -> (r: Option<i32>)
    ensures
        opt_year(r) == year_in_text(value@),
        r matches Some(year) ==> 1900 <= year <= 2099,
{
    match captures(YEAR_PATTERN, value) {
        Some(groups) => {
            proof {
                lemma_shaped_year(group(groups_view(groups@), 0));
            }
            year_in_groups(&groups)
        },
        None => None,
    }
}

/// The count in a match of `WISH_PATTERN`; zero where there is none, or it is too
/// large.
pub open spec fn count_found(found: Option<Seq<Option<Seq<char>>>>) -> int {
    match found {
        Some(groups) => {
            let digits = match group(groups, 1) {
                Some(s) => Some(s),
                None => group(groups, 2),
            };
            match digits {
                Some(s) => match within(integer(s), i64::MIN as int, i64::MAX as int) {
                    Some(n) => n,
                    None => 0,
                },
                None => 0,
            }
        },
        None => 0,
    }
}

/// A text without the commas that group digits.
pub open spec fn compact(text: Seq<char>) -> Seq<char> {
    text.filter(|c: char| c != ',' && c != '，')
}

/// How many people want to watch, by a text.
pub open spec fn wish_count_in_text(text: Seq<char>) -> int {
    count_found(first_captures(WISH_PATTERN@, compact(text)))
}

/// The count in the groups of a match of `WISH_PATTERN`.
pub fn count_in_groups(groups: &Vec<Option<String>>) -> (r: i64)
    ensures
        r == count_found(Some(groups_view(groups@))),
{
    let digits = match group_text(groups, 1) {
        Some(s) => Some(s),
        None => group_text(groups, 2),
    };
    match digits {
        Some(s) => match parse_i64(s) {
            Some(n) => n,
            None => 0,
        },
        None => 0,
    }
}

/// How many people want to watch, by the text `value`.
pub fn extract_wish_count(value: &str) -> (r: i64)
    ensures
        r == wish_count_in_text(value@),
        r >= 0,
{
    match captures(WISH_PATTERN, without(value, ',', '，').as_str()) {
        Some(groups) => count_in_groups(&groups),
        None => 0,
    }
}

/// A year of the shape `(?:19|20)\d{2}` lies between 1900 and 2099.
proof fn lemma_shaped_year(s: Option<Seq<char>>)
    requires
        year_shaped(s),
    ensures
        year_in(s) matches Some(year) ==> 1900 <= year <= 2099,
{
    match s {
        Some(s) => {
            if integer(s) is Some {
                assert(crate::text::after_sign(s) =~= s);
                reveal_with_fuel(crate::text::digits_value, 5);
                assert('0' <= s[0] <= '9' && '0' <= s[1] <= '9' && '0' <= s[2] <= '9' && '0' <= s[3]
                    <= '9');
            }
        },
        None => {},
    }
}

} // verus!
