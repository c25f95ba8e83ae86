//! Series as TMDB knows them, and the requests that concern them.
use vstd::prelude::*;

use super::date::{opt_date, Date, DateView};
use super::extract::{date_in_text, extract_date, opt_year};
use super::rss::{FeedItem, ItemView};
use crate::codec::{json_read, parse_json, result_view};
use crate::json::{
    as_int, as_text, json_views, member, text_or_null_view, Json, JsonObject, JsonView,
};
use crate::lists::lemma_filter_map_push;
use crate::names::{distinct, NameSet};
use crate::settings::{int_setting, setting_i64, setting_text, text_setting};
use crate::text::{
    ascii_lower, begins_with, decimal_i64, decimal_int, drop_trailing, lemma_decimal_int_read,
    opt_chars, replace, replaced,
    same, starts_with, to_ascii_lowercase, trim, trim_end_matches, trimmed,
};

verus! {

/// A series that a feed item was resolved to.
#[derive(Debug)]
pub struct ResolvedMedia {
    pub tmdb_id: String,
    pub title: String,
    pub media_type: String,
    pub year: Option<i32>,
    pub poster_path: Option<String>,
    pub backdrop_path: Option<String>,
    /// The average vote: a number, or `null`.
    pub vote_average: Json,
    pub description: Option<String>,
    pub expected_episodes: Option<i32>,
    pub first_air_date: Option<String>,
    pub air_date: Option<String>,
    pub release_date: Option<String>,
}

#[verifier::ext_equal]
pub struct MediaView {
    pub tmdb_id: Seq<char>,
    pub title: Seq<char>,
    pub media_type: Seq<char>,
    pub year: Option<int>,
    pub poster_path: Option<Seq<char>>,
    pub backdrop_path: Option<Seq<char>>,
    pub vote_average: JsonView,
    pub description: Option<Seq<char>>,
    pub expected_episodes: Option<int>,
    pub first_air_date: Option<Seq<char>>,
    pub air_date: Option<Seq<char>>,
    pub release_date: Option<Seq<char>>,
}

impl View for ResolvedMedia {
    type V = MediaView;

    open spec fn view(&self) -> MediaView {
        MediaView {
            tmdb_id: self.tmdb_id@,
            title: self.title@,
            media_type: self.media_type@,
            year: opt_year(self.year),
            poster_path: opt_chars(self.poster_path),
            backdrop_path: opt_chars(self.backdrop_path),
            vote_average: self.vote_average@,
            description: opt_chars(self.description),
            expected_episodes: opt_year(self.expected_episodes),
            first_air_date: opt_chars(self.first_air_date),
            air_date: opt_chars(self.air_date),
            release_date: opt_chars(self.release_date),
        }
    }
}

/// The first of three texts that is there.
pub open spec fn first_present(
    a: Option<Seq<char>>,
    b: Option<Seq<char>>,
    c: Option<Seq<char>>,
) -> Option<Seq<char>> {
    if a is Some {
        a
    } else if b is Some {
        b
    } else {
        c
    }
}

/// The air date that TMDB knows: in the first of its three date fields that is
/// there.
pub open spec fn tmdb_air_date(media: MediaView) -> Option<DateView> {
    match first_present(media.first_air_date, media.air_date, media.release_date) {
        Some(text) => date_in_text(text),
        None => None,
    }
}

/// The air date that TMDB knows.
pub fn media_air_date(media: &ResolvedMedia) -> (r: Option<Date>)
    ensures
        opt_date(r) == tmdb_air_date(media@),
{
    let text = match &media.first_air_date {
        Some(s) => Some(s),
        None => match &media.air_date {
            Some(s) => Some(s),
            None => match &media.release_date {
                Some(s) => Some(s),
                None => None,
            },
        },
    };
    match text {
        Some(s) => extract_date(s.as_str()),
        None => None,
    }
}

/// Whether a series is what TMDB calls `tv`.
pub open spec fn is_series(media: MediaView) -> bool {
    ascii_lower(trimmed(media.media_type)) == "tv"@
}

/// Whether `media` is what TMDB calls `tv`.
pub fn is_tv(media: &ResolvedMedia) -> (r: bool)
    ensures
        r == is_series(media@),
{
    same(to_ascii_lowercase(trim(media.media_type.as_str())).as_str(), "tv")
}

/// The title that is shown: TMDB's, or the feed's where that is blank.
pub open spec fn shown_title(item: ItemView, media: MediaView) -> Seq<char> {
    if trimmed(media.title).len() == 0 {
        item.title
    } else {
        media.title
    }
}

/// The title that is shown: TMDB's, or the feed's where that is blank.
pub fn title_for(item: &FeedItem, media: &ResolvedMedia) -> (r: String)
    ensures
        r@ == shown_title(item@, media@),
{
    if trim(media.title.as_str()).is_empty() {
        item.title.clone()
    } else {
        media.title.clone()
    }
}

/// The key of a season of a series.
pub open spec fn season_key(tmdb_id: Seq<char>, season: int) -> Seq<char> {
    "tv:"@ + trimmed(tmdb_id) + ":"@ + decimal_int(season)
}

/// The key of a season of a series.
pub fn subscription_key(tmdb_id: &str, season: i64) -> (r: String)
    ensures
        r@ == season_key(tmdb_id@, season as int),
{
    "tv:".to_owned().concat(trim(tmdb_id)).concat(":").concat(decimal_i64(season).as_str())
}

/// The key of a season tells the series and the season: two keys are the same
/// exactly where the ids, without surrounding white space, and the seasons are.
pub proof fn law_keys_tell_seasons_apart(a: Seq<char>, m: int, b: Seq<char>, n: int)
    ensures
        season_key(a, m) == season_key(b, n) <==> trimmed(a) == trimmed(b) && m == n,
{
    if season_key(a, m) == season_key(b, n) {
        reveal_strlit("tv:");
        reveal_strlit(":");
        let (x, y) = ("tv:"@ + trimmed(a), "tv:"@ + trimmed(b));
        let (p, q) = (decimal_int(m), decimal_int(n));
        lemma_decimal_int_read(m);
        lemma_decimal_int_read(n);
        lemma_same_last_part(x, p, y, q);
        assert(trimmed(a) =~= x.skip(3));
        assert(trimmed(b) =~= y.skip(3));
    }
}

/// Two texts that each end in a colon and a part without one are the same only
/// where the parts are.
proof fn lemma_same_last_part(x: Seq<char>, p: Seq<char>, y: Seq<char>, q: Seq<char>)
    requires
        x + ":"@ + p == y + ":"@ + q,
        !p.contains(':'),
        !q.contains(':'),
    ensures
        x == y,
        p == q,
{
    reveal_strlit(":");
    let whole = x + ":"@ + p;
    let other = y + ":"@ + q;
    assert(":"@.len() == 1);
    assert(whole.len() == other.len());
    assert(whole[x.len() as int] == ':');
    assert(other[y.len() as int] == ':');
    if x.len() < y.len() {
        let i = y.len() - x.len() - 1;
        assert(whole[y.len() as int] == p[i]);
        assert(p.contains(':'));
    } else if y.len() < x.len() {
        let i = x.len() - y.len() - 1;
        assert(other[x.len() as int] == q[i]);
        assert(q.contains(':'));
    }
    assert(x =~= whole.take(x.len() as int));
    assert(y =~= other.take(y.len() as int));
    assert(p =~= whole.skip(x.len() as int + 1));
    assert(q =~= other.skip(y.len() as int + 1));
}

/// The id that a value gives: a text that is not blank, or an integer.
pub open spec fn id_in(value: JsonView) -> Option<Seq<char>> {
    match value {
        JsonView::Text(s) => if trimmed(s).len() > 0 {
            Some(trimmed(s))
        } else {
            None
        },
        _ => match as_int(Some(value), i64::MIN as int, i64::MAX as int) {
            Some(n) => Some(decimal_int(n)),
            None => None,
        },
    }
}

/// The id that `value` gives: a text that is not blank, or an integer.
pub fn value_id(value: &Json) -> (r: Option<String>)
    ensures
        opt_chars(r) == id_in(value@),
{
    match value.as_str() {
        Some(s) => {
            let id = trim(s);
            if id.is_empty() {
                None
            } else {
                Some(id.to_owned())
            }
        },
        None => match value.as_i64() {
            Some(n) => Some(decimal_i64(n)),
            None => None,
        },
    }
}

/// The season of a subscription; the first where it names none.
pub open spec fn season_of(subscription: JsonView) -> int {
    match as_int(member(subscription, "season"@), i64::MIN as int, i64::MAX as int) {
        Some(n) => n,
        None => 1,
    }
}

/// The key of a subscription to a series; none for any other value.
pub open spec fn key_of(subscription: JsonView) -> Option<Seq<char>> {
    match (as_text(member(subscription, "media_type"@)), member(subscription, "tmdb_id"@)) {
        (Some(kind), Some(id)) => match id_in(id) {
            Some(id) => if ascii_lower(kind) == "tv"@ {
                Some(season_key(id, season_of(subscription)))
            } else {
                None
            },
            None => None,
        },
        _ => None,
    }
}

/// The key of a subscription to a series.
fn subscribed_key(subscription: &Json) -> (r: Option<String>)
    ensures
        opt_chars(r) == key_of(subscription@),
{
    let kind = match subscription.get("media_type") {
        Some(field) => match field.as_str() {
            Some(s) => s,
            None => {
                return None;
            },
        },
        None => {
            return None;
        },
    };
    let id = match subscription.get("tmdb_id") {
        Some(field) => match value_id(field) {
            Some(id) => id,
            None => {
                return None;
            },
        },
        None => {
            return None;
        },
    };
    let season: i64 = match subscription.get("season") {
        Some(field) => match field.as_i64() {
            Some(n) => n,
            None => 1,
        },
        None => 1,
    };
    if same(to_ascii_lowercase(kind).as_str(), "tv") {
        Some(subscription_key(id.as_str(), season))
    } else {
        None
    }
}

/// The keys of the series that are subscribed to, or why they cannot be told.
pub open spec fn subscribed_keys(response: JsonView) -> Result<Seq<Seq<char>>, Seq<char>> {
    match response {
        JsonView::Array(items) => Ok(distinct(items.filter_map(|s: JsonView| key_of(s)))),
        _ => Err("订阅列表响应格式无效"@),
    }
}

/// What a set of keys, or an error, says.
pub open spec fn keys_view(r: Result<NameSet, String>) -> Result<Seq<Seq<char>>, Seq<char>> {
    match r {
        Ok(set) => Ok(set@),
        Err(error) => Err(error@),
    }
}

/// The keys of the series that are subscribed to.
pub fn existing_subscriptions(response: &Json) -> (r: Result<NameSet, String>)
    ensures
        keys_view(r) == subscribed_keys(response@),
{
    match response.as_array() {
        Some(items) => {
            let mut set = NameSet::new();
            let ghost all = json_views(items@);
            let ghost f = |s: JsonView| key_of(s);
            let mut i: usize = 0;
            assert(all.take(0).filter_map(f) =~= Seq::empty());
            while i < items.len()
                invariant
                    i <= items@.len(),
                    all == json_views(items@),
                    f == (|s: JsonView| key_of(s)),
                    set@ == distinct(all.take(i as int).filter_map(f)),
                decreases items@.len() - i,
            {
                proof {
                    lemma_filter_map_push(all, f, i as int);
                }
                match subscribed_key(&items[i]) {
                    Some(key) => {
                        let ghost before = all.take(i as int).filter_map(f);
                        assert(before.push(key@).drop_last() =~= before);
                        set = set.with(key.as_str());
                    },
                    None => {},
                }
                i = i + 1;
            }
            assert(all.take(all.len() as int) =~= all);
            Ok(set)
        },
        None => Err("订阅列表响应格式无效".to_owned()),
    }
}

/// An integer value, or `null` where there is none.
pub open spec fn int_or_null(n: Option<int>) -> JsonView {
    match n {
        Some(n) => JsonView::Int(n),
        None => JsonView::Null,
    }
}

/// An integer value, or `null` where there is none.
fn number_or_null(n: Option<i32>) -> (r: Json)
    ensures
        r@ == int_or_null(opt_year(n)),
{
    match n {
        Some(n) => Json::Signed(n as i64),
        None => Json::Null,
    }
}

/// A text value, or `null` where there is none.
fn string_or_null(s: &Option<String>) -> (r: Json)
    ensures
        r@ == text_or_null_view(opt_chars(*s)),
{
    match s {
        Some(s) => Json::text(s.as_str()),
        None => Json::Null,
    }
}

/// The request that resolves a feed item.
pub open spec fn resolve_query(item: ItemView) -> JsonView {
    JsonView::Object(
        map![
            "title"@ => JsonView::Text(item.title),
            "year"@ => int_or_null(item.year),
            "media_type"@ => JsonView::Text("tv"@),
        ],
    )
}

/// The request that resolves `item`.
pub fn resolve_request(item: &FeedItem) -> (r: Json)
    ensures
        r@ == resolve_query(item@),
{
    Json::Object(
        JsonObject::new().with("title", Json::text(item.title.as_str())).with(
            "year",
            number_or_null(item.year),
        ).with("media_type", Json::text("tv")),
    )
}

/// What a reply resolves an item to, or why it resolves it to nothing.
pub open spec fn resolved_to(response: JsonView) -> Result<JsonView, Seq<char>> {
    if as_text(member(response, "status"@)) == Some("failed"@) {
        Err(
            match as_text(member(response, "message"@)) {
                Some(message) => message,
                None => "TMDB 未匹配"@,
            },
        )
    } else {
        match member(response, "data"@) {
            Some(data) => Ok(data),
            None => Ok(response),
        }
    }
}

/// What the reply resolves an item to: its data, or itself where it has none.
pub fn resolve(response: &Json) -> (r: Result<Json, String>)
    ensures
        result_view(r) == resolved_to(response@),
{
    let failed = match response.get("status") {
        Some(field) => match field.as_str() {
            Some(s) => same(s, "failed"),
            None => false,
        },
        None => false,
    };
    if failed {
        let message = match response.get("message") {
            Some(field) => match field.as_str() {
                Some(s) => s,
                None => "TMDB 未匹配",
            },
            None => "TMDB 未匹配",
        };
        return Err(message.to_owned());
    }
    match response.get("data") {
        Some(data) => Ok(data.duplicate()),
        None => Ok(response.duplicate()),
    }
}

/// The request that subscribes to the first season of a series.
pub open spec fn subscription_query(item: ItemView, media: MediaView) -> JsonView {
    JsonView::Object(
        map![
            "tmdb_id"@ => JsonView::Text(media.tmdb_id),
            "name"@ => JsonView::Text(shown_title(item, media)),
            "year"@ => int_or_null(if media.year is Some { media.year } else { item.year }),
            "season"@ => JsonView::Int(1),
            "media_type"@ => JsonView::Text("tv"@),
            "poster_path"@ => text_or_null_view(media.poster_path),
            "backdrop_path"@ => text_or_null_view(media.backdrop_path),
            "vote_average"@ => media.vote_average,
            "description"@ => text_or_null_view(media.description),
            "expected_episodes"@ => int_or_null(media.expected_episodes),
        ],
    )
}

/// The request that subscribes to the first season of `media`.
pub fn create_subscription(item: &FeedItem, media: &ResolvedMedia) -> (r: Json)
    ensures
        r@ == subscription_query(item@, media@),
{
    let year = if media.year.is_some() {
        media.year
    } else {
        item.year
    };
    Json::Object(
        JsonObject::new().with("tmdb_id", Json::text(media.tmdb_id.as_str())).with(
            "name",
            Json::Text(title_for(item, media)),
        ).with("year", number_or_null(year)).with("season", Json::Unsigned(1)).with(
            "media_type",
            Json::text("tv"),
        ).with("poster_path", string_or_null(&media.poster_path)).with(
            "backdrop_path",
            string_or_null(&media.backdrop_path),
        ).with("vote_average", media.vote_average.duplicate()).with(
            "description",
            string_or_null(&media.description),
        ).with("expected_episodes", number_or_null(media.expected_episodes)),
    )
}

/// The request that sends a notification with an image, where there is one.
pub open spec fn notification_query(
    title: Seq<char>,
    content: Seq<char>,
    image_url: Option<Seq<char>>,
) -> JsonView {
    JsonView::Object(
        map![
            "title"@ => JsonView::Text(title),
            "content"@ => JsonView::Text(content),
            "image_url"@ => text_or_null_view(image_url),
        ],
    )
}

/// The request that sends a notification with an image, where there is one.
pub fn notification_request(title: &str, content: &str, image_url: &Option<String>) -> (r: Json)
    ensures
        r@ == notification_query(title@, content@, opt_chars(*image_url)),
{
    Json::Object(
        JsonObject::new().with("title", Json::text(title)).with("content", Json::text(content)).with(
            "image_url",
            string_or_null(image_url),
        ),
    )
}

/// What a parsed reply says, or why it cannot be used.
pub open spec fn reply_of(parsed: Result<JsonView, Seq<char>>) -> Result<JsonView, Seq<char>> {
    match parsed {
        Ok(value) => Ok(value),
        Err(error) => Err("解析 Mediary 响应失败: "@ + error),
    }
}

/// What a parsed reply says, or why it cannot be used.
pub fn accept_reply(parsed: Result<Json, String>) -> (r: Result<Json, String>)
    ensures
        result_view(r) == reply_of(result_view(parsed)),
{
    match parsed {
        Ok(value) => Ok(value),
        Err(error) => Err("解析 Mediary 响应失败: ".to_owned().concat(error.as_str())),
    }
}

/// What a reply of Mediary says: a body of JSON under a status of success.
pub open spec fn mediary_reply(success: bool, status: Seq<char>, body: Seq<char>) -> Result<
    JsonView,
    Seq<char>,
> {
    if success {
        reply_of(json_read(body))
    } else {
        Err("Mediary API "@ + status)
    }
}

/// What a reply of Mediary with this status and body says.
pub fn parse_response(success: bool, status: &str, body: &str) -> (r: Result<Json, String>)
    ensures
        result_view(r) == mediary_reply(success, status@, body@),
{
    if !success {
        return Err("Mediary API ".to_owned().concat(status));
    }
    accept_reply(parse_json(body))
}

/// What is said of a word that names no action of this helper.
pub open spec fn refusal_of(action: Seq<char>) -> Option<Seq<char>> {
    if action == "refresh"@ {
        None
    } else {
        Some("不支持的豆瓣将映动作"@)
    }
}

/// Whether `action` is the one that this helper knows.
pub fn accept_action(action: &str) -> (r: Result<(), String>)
    ensures
        match r {
            Ok(_) => refusal_of(action@) is None,
            Err(error) => refusal_of(action@) == Some(error@),
        },
{
    if same(action, "refresh") {
        Ok(())
    } else {
        Err("不支持的豆瓣将映动作".to_owned())
    }
}

/// The address of a request to Mediary.
pub open spec fn request_address(api_url: Seq<char>, path: Seq<char>) -> Seq<char> {
    drop_trailing(api_url, |c: char| c == '/') + path
}

/// The address of a request to Mediary.
pub fn api_address(api_url: &str, path: &str) -> (r: String)
    ensures
        r@ == request_address(api_url@, path@),
{
    trim_end_matches(api_url, '/').to_owned().concat(path)
}

/// The address of the feed that the settings ask for.
pub open spec fn feed_address(settings: Map<Seq<char>, JsonView>) -> Seq<char> {
    let base = drop_trailing(
        text_setting(settings, "rsshub"@, "https://rsshub.ddsrem.com"@),
        |c: char| c == '/',
    );
    let sort = if text_setting(settings, "sort_by"@, "hot"@) == "time"@ {
        "time"@
    } else {
        "hot"@
    };
    let asked = int_setting(settings, "count"@, 10, i64::MIN as int, i64::MAX as int);
    let count = if asked < 1 {
        1
    } else if asked > 100 {
        100
    } else {
        asked
    };
    base + "/douban/tv/coming/"@ + sort + "/"@ + decimal_int(count)
}

/// The address of the feed that the settings ask for.
pub fn feed_url(settings: &JsonObject) -> (r: String)
    ensures
        r@ == feed_address(settings.members()),
{
    let base = trim_end_matches(setting_text(settings, "rsshub", "https://rsshub.ddsrem.com"), '/');
    let sort = if same(setting_text(settings, "sort_by", "hot"), "time") {
        "time"
    } else {
        "hot"
    };
    let asked: i64 = setting_i64(settings, "count", 10);
    let count: i64 = if asked < 1 {
        1
    } else if asked > 100 {
        100
    } else {
        asked
    };
    base.to_owned().concat("/douban/tv/coming/").concat(sort).concat("/").concat(
        decimal_i64(count).as_str(),
    )
}

/// The address of the page that tells when the series at `link` airs; none where
/// the link is not Douban's.
pub open spec fn page_address(link: Seq<char>) -> Option<Seq<char>> {
    if begins_with(link, "https://movie.douban.com/"@) {
        Some(replaced(link, "https://movie.douban.com/"@, "https://m.douban.com/movie/"@))
    } else {
        None
    }
}

/// The address of the page that tells when the series at `link` airs.
pub fn page_url(link: &str) -> (r: Option<String>)
    ensures
        opt_chars(r) == page_address(link@),
{
    proof {
        reveal_strlit("https://movie.douban.com/");
    }
    if !starts_with(link, "https://movie.douban.com/") {
        return None;
    }
    Some(replace(link, "https://movie.douban.com/", "https://m.douban.com/movie/"))
}

} // verus!
