use mediary_plugins::codec::{parse_json, render_json};
use mediary_plugins::douban::date::{days_until, Date};
use mediary_plugins::douban::extract::{
    count_in_groups, date_in_groups, extract_date, extract_douban_date, extract_wish_count, extract_year, group_text,
    page_date_in_groups, year_in_groups,
};
use mediary_plugins::douban::history::{History, Record, Report, MAX_RECORDS};
use mediary_plugins::douban::media::{
    accept_action, accept_reply, api_address, create_subscription, existing_subscriptions, feed_url, is_tv, media_air_date,
    notification_request, page_url, parse_response, resolve, resolve_request, subscription_key, title_for, value_id,
    ResolvedMedia,
};
use mediary_plugins::douban::now::{seconds_until, timestamp, today};
use mediary_plugins::douban::refresh::{refresh, reminder_due, starting_history, Candidate, Refresh, RefreshStep, Rules};
use mediary_plugins::douban::rss::{items_of_events, parse_rss, FeedEvent, FeedItem};
use mediary_plugins::json::{Json, JsonObject};
use mediary_plugins::names::NameSet;
use mediary_plugins::settings::read_settings;

fn json(text: &str) -> Json {
    parse_json(text).unwrap()
}

fn settings(text: &str) -> JsonObject {
    read_settings(Some(text))
}

fn date(year: i32, month: u32, day: u32) -> Date {
    Date::from_ymd_opt(year, month, day).unwrap()
}

fn feed_item(title: &str, wish_count: i64) -> FeedItem {
    FeedItem {
        title: title.to_string(),
        link: "https://movie.douban.com/subject/1/".to_string(),
        description: String::new(),
        wish_count,
        year: Some(2026),
    }
}

fn series(id: &str, title: &str) -> ResolvedMedia {
    ResolvedMedia {
        tmdb_id: id.to_string(),
        title: title.to_string(),
        media_type: " TV ".to_string(),
        year: Some(2026),
        poster_path: Some("/p.jpg".to_string()),
        backdrop_path: None,
        vote_average: Json::Null,
        description: None,
        expected_episodes: Some(24),
        first_air_date: Some("2026-08-02".to_string()),
        air_date: None,
        release_date: None,
    }
}

fn groups(texts: &[Option<&str>]) -> Vec<Option<String>> {
    texts.iter().map(|text| text.map(|text| text.to_string())).collect()
}

#[test]
fn extracts_feed_values() {
    assert_eq!(extract_wish_count("已有 12,345 人想看"), 12345);
    assert_eq!(extract_date("首播 2026-08-02"), Date::from_ymd_opt(2026, 8, 2));
    assert_eq!(extract_year("2027 中国大陆"), Some(2027));
}

#[test]
fn extracts_douban_page_date() {
    assert_eq!(
        extract_douban_date(r#"<span class="pl">首播:</span> 2026-08-20(中国大陆) <br/>"#),
        Date::from_ymd_opt(2026, 8, 20)
    );
    assert_eq!(
        extract_douban_date(r#"<span class="pl">上映日期:</span> 2026年9月1日 <br/>"#),
        Date::from_ymd_opt(2026, 9, 1)
    );
    assert_eq!(
        extract_douban_date(r#"中国大陆 / 剧情 / 古装 / 2026-08-09(中国大陆)上映 / 片长45分钟"#),
        Date::from_ymd_opt(2026, 8, 9)
    );
    assert_eq!(extract_douban_date("<p>没有日期</p>"), None);
}

#[test]
fn parses_rss_items() {
    let feed = "<rss><channel><item><title>剧集</title><link>https://movie.douban.com/subject/1/</link><description>5000人想看</description><category>2027 / 中国大陆</category></item></channel></rss>";
    let items = parse_rss(feed).unwrap();
    assert_eq!(items.len(), 1);
    assert_eq!(items[0].wish_count, 5000);
    assert_eq!(items[0].year, Some(2027));
}

#[test]
fn values_at_the_edges_of_the_patterns() {
    assert_eq!(extract_wish_count("想看人数：1，234"), 1234);
    assert_eq!(extract_wish_count("想看 7 人"), 7);
    assert_eq!(extract_wish_count("99999999999999999999人想看"), 0);
    assert_eq!(extract_wish_count("没有人"), 0);
    assert_eq!(extract_date("2026年2月30日"), None);
    assert_eq!(extract_date("1999/1.2"), Some(date(1999, 1, 2)));
    assert_eq!(extract_date("1800-01-01"), None);
    assert_eq!(extract_year("1899 与 1999"), Some(1999));
    assert_eq!(extract_year("1800"), None);
}

#[test]
fn values_in_given_groups() {
    let found = groups(&[Some("x"), None, None, None, Some("2026"), Some("08"), Some("9")]);
    assert_eq!(group_text(&found, 4), Some("2026"));
    assert_eq!(group_text(&found, 1), None);
    assert_eq!(group_text(&found, 9), None);
    assert_eq!(date_in_groups(&found, 1), None);
    assert_eq!(page_date_in_groups(&found), Some(date(2026, 8, 9)));
    assert_eq!(year_in_groups(&groups(&[Some("2027")])), Some(2027));
    assert_eq!(count_in_groups(&groups(&[Some("12人想看"), None, Some("12")])), 12);
    assert_eq!(count_in_groups(&groups(&[Some("想看 3"), Some("3"), None])), 3);
    assert_eq!(count_in_groups(&groups(&[])), 0);
}

#[test]
fn dates_follow_the_calendar() {
    assert_eq!(Date::from_ymd_opt(2023, 2, 29), None);
    assert_eq!(date(2024, 2, 29).text(), "2024-02-29");
    assert_eq!(date(7, 1, 2).text(), "0007-01-02");
    assert_eq!(Date::from_ymd_opt(262_142, 12, 31).unwrap().text(), "+262142-12-31");
    assert_eq!(Date::from_ymd_opt(262_143, 1, 1), None);
    assert_eq!(Date::from_ymd_opt(-262_143, 1, 1).unwrap().text(), "-262143-01-01");
    assert_eq!(Date::from_ymd_opt(-262_144, 12, 31), None);
    for (year, month, day) in [(2026, 8, 2), (1, 1, 1), (0, 2, 29), (-5, 3, 4), (-10_000, 3, 4), (10_000, 10, 10), (262_142, 12, 31), (-262_143, 1, 1)] {
        let date = date(year, month, day);
        assert_eq!(Date::parse(&date.text()), Some(date));
    }
    assert_eq!(Date::parse("2026-8-2"), Some(date(2026, 8, 2)));
    assert_eq!(Date::parse("soon"), None);
    assert_eq!(Date::parse("2026-13-01"), None);
}

#[test]
fn days_are_counted() {
    assert_eq!(date(2024, 3, 1).days_after(&date(2024, 2, 28)), 2);
    assert_eq!(date(2100, 3, 1).days_after(&date(2100, 2, 28)), 1);
    assert_eq!(date(2000, 1, 1).days_after(&date(1, 1, 1)), 730_119);
    assert_eq!(date(1, 1, 1).days_after(&date(0, 1, 1)), 366);
    assert_eq!(date(2026, 1, 1).days_after(&date(2026, 12, 31)), -364);
    assert_eq!(days_until("2026-08-02", &date(2026, 7, 30)), Some(3));
    assert_eq!(days_until("-", &date(2026, 7, 30)), None);
}

#[test]
fn the_day_is_told_where_the_user_is() {
    let today = today();
    assert!(today.days_after(&date(2020, 1, 1)) > 0);
    let left = seconds_until(&today.text());
    assert!(left.is_none() || (left.unwrap() <= 0 && left.unwrap() > -26 * 3600), "{:?}", left);
    assert!(seconds_until("2999-01-02").unwrap() > seconds_until("2999-01-01").unwrap());
    assert_eq!(seconds_until("soon"), None);
    for (year, month, day) in [(1, 1, 1), (1960, 5, 6), (1970, 1, 1), (2026, 8, 2), (9999, 12, 31), (200_000, 1, 1)] {
        let begins = date(year, month, day);
        let left = seconds_until(&begins.text()).unwrap();
        assert!(left < begins.days_after(&date(1970, 1, 1)) * 86_400 + 86_400, "{}", year);
        assert!(left > begins.days_after(&date(262_142, 12, 31)) * 86_400 - 172_800, "{}", year);
    }
    let now = timestamp();
    let shown = chrono::DateTime::parse_from_rfc3339(&now).unwrap();
    assert_eq!(shown.to_rfc3339(), now);
    assert!((chrono::Local::now().timestamp() - shown.timestamp()).abs() < 60);
    let day = Date::parse(&now[..10]).unwrap();
    assert!(day.days_after(&today).abs() <= 1);
    assert_eq!(&now[10..11], "T");
}

#[test]
fn feeds_with_entities_sections_and_gaps() {
    let feed = "<rss><title>no item</title>
      <item><title> A &amp; B </title><link/><description><![CDATA[首播 2026-08-02, 想看 9,000 <b>]]></description></item>
      <item><title>  </title><description>nameless</description></item>
      <item><link>https://x/</link><description>2025 old</description><category>drama</category><extra><b>t</b></extra></item></rss>";
    let items = parse_rss(feed).unwrap();
    assert_eq!(items.len(), 2);
    assert_eq!(items[0].title, "A & B");
    assert_eq!(items[0].description, "首播 2026-08-02, 想看 9,000 <b>");
    assert_eq!((items[0].wish_count, items[0].year), (9000, Some(2026)));
    assert_eq!((items[1].title.as_str(), items[1].link.as_str()), ("", "https://x/"));
    assert_eq!((items[1].wish_count, items[1].year), (0, Some(2025)));
    for item in &items {
        assert!(!item.title.is_empty() || !item.link.is_empty());
    }
    assert_eq!(parse_rss("").unwrap().len(), 0);
}

#[test]
fn broken_feeds_give_an_error() {
    let error = parse_rss("<rss><item></rss>").unwrap_err();
    assert!(error.starts_with("解析 RSS 失败: "), "{}", error);
    let error = parse_rss("<rss><item><title>&nope;</title></item></rss>").unwrap_err();
    assert!(!error.starts_with("解析 RSS 失败: "), "{}", error);
    assert!(parse_rss("<rss><title>&nope;</title></rss>").is_ok());
}

#[test]
fn items_of_given_events() {
    let start = |name: &str| FeedEvent::Start(name.to_string());
    let end = |name: &str| FeedEvent::End(name.to_string());
    let text = |text: &str| FeedEvent::Text(Ok(text.to_string()));
    let items = items_of_events(vec![
        text("outside"),
        start("item"),
        start("title"),
        text("a"),
        FeedEvent::Other,
        text("b"),
        end("title"),
        text("between"),
        start("link"),
        text("x"),
        FeedEvent::CData("https://l/".to_string()),
        end("link"),
        end("item"),
        FeedEvent::Eof,
        FeedEvent::Failed("late".to_string()),
    ])
    .unwrap();
    assert_eq!(items.len(), 1);
    assert_eq!((items[0].title.as_str(), items[0].link.as_str()), ("ab", "https://l/"));
    let failed = items_of_events(vec![start("item"), FeedEvent::Failed("bad".to_string())]);
    assert_eq!(failed.unwrap_err(), "解析 RSS 失败: bad");
    let entity = items_of_events(vec![start("item"), start("title"), FeedEvent::Text(Err("entity".to_string()))]);
    assert_eq!(entity.unwrap_err(), "entity");
}

#[test]
fn media_dates_kinds_and_titles() {
    let mut media = series("1", "");
    assert!(is_tv(&media));
    assert_eq!(media_air_date(&media), Some(date(2026, 8, 2)));
    assert_eq!(title_for(&feed_item("剧集", 1), &media), "剧集");
    media.title = "名".to_string();
    assert_eq!(title_for(&feed_item("剧集", 1), &media), "名");
    media.first_air_date = None;
    assert_eq!(media_air_date(&media), None);
    media.release_date = Some("2026/9/1".to_string());
    assert_eq!(media_air_date(&media), Some(date(2026, 9, 1)));
    media.air_date = Some("later".to_string());
    assert_eq!(media_air_date(&media), None);
    media.media_type = "movie".to_string();
    assert!(!is_tv(&media));
}

#[test]
fn subscriptions_are_keyed_by_series_and_season() {
    assert_eq!(subscription_key(" 42 ", 1), "tv:42:1");
    assert_eq!(subscription_key("42:1", -1), "tv:42:1:-1");
    let keys: Vec<String> = [("42", 1), ("42", 11), ("421", 1), ("42:1", 1), ("42", -1), ("", 1), (":", 1)]
        .iter()
        .map(|(id, season)| subscription_key(id, *season))
        .collect();
    for (i, key) in keys.iter().enumerate() {
        assert!(!keys[..i].contains(key), "{}", key);
    }
    assert_eq!(value_id(&json(r#"" 7 ""#)), Some("7".to_string()));
    assert_eq!(value_id(&json("-8")), Some("-8".to_string()));
    assert_eq!(value_id(&json(r#"" ""#)), None);
    assert_eq!(value_id(&json("1.5")), None);
    let listed = existing_subscriptions(&json(
        r#"[{"media_type": "TV", "tmdb_id": 42}, {"media_type": "movie", "tmdb_id": 43}, {"media_type": "tv", "tmdb_id": "42", "season": 2},
            {"media_type": "tv"}, {"tmdb_id": 1}, {"media_type": "tv", "tmdb_id": " 42 "}]"#,
    ))
    .unwrap();
    assert_eq!(listed.list(), &vec!["tv:42:1".to_string(), "tv:42:2".to_string()]);
    assert_eq!(existing_subscriptions(&json("{}")).unwrap_err(), "订阅列表响应格式无效");
}

#[test]
fn requests_are_written() {
    let item = feed_item("剧集", 1);
    assert_eq!(render_json(&resolve_request(&item)), r#"{"media_type":"tv","title":"剧集","year":2026}"#);
    let mut media = series("42", "名");
    media.year = None;
    media.vote_average = json("8.5");
    assert_eq!(
        render_json(&create_subscription(&item, &media)),
        r#"{"backdrop_path":null,"description":null,"expected_episodes":24,"media_type":"tv","name":"名","poster_path":"/p.jpg","season":1,"tmdb_id":"42","vote_average":8.5,"year":2026}"#
    );
    assert_eq!(
        render_json(&notification_request("t", "c", &None)),
        r#"{"content":"c","image_url":null,"title":"t"}"#
    );
}

#[test]
fn replies_of_mediary_are_read() {
    assert_eq!(resolve(&json(r#"{"status": "failed"}"#)).unwrap_err(), "TMDB 未匹配");
    assert_eq!(resolve(&json(r#"{"status": "failed", "message": "m"}"#)).unwrap_err(), "m");
    assert_eq!(render_json(&resolve(&json(r#"{"status": "ok", "data": {"x": 1}}"#)).unwrap()), r#"{"x":1}"#);
    assert_eq!(render_json(&resolve(&json(r#"{"x": 1}"#)).unwrap()), r#"{"x":1}"#);
    assert_eq!(parse_response(false, "404 Not Found", "{}").unwrap_err(), "Mediary API 404 Not Found");
    assert!(parse_response(true, "200 OK", "{").unwrap_err().starts_with("解析 Mediary 响应失败: EOF"));
    assert_eq!(parse_response(true, "200 OK", "3").unwrap().as_i64(), Some(3));
    assert_eq!(accept_reply(Err("e".to_string())).unwrap_err(), "解析 Mediary 响应失败: e");
    assert_eq!(accept_action("refresh"), Ok(()));
    assert_eq!(accept_action(""), Err("不支持的豆瓣将映动作".to_string()));
}

#[test]
fn addresses_are_built() {
    assert_eq!(api_address("http://m/api//", "/subscriptions"), "http://m/api/subscriptions");
    assert_eq!(feed_url(&settings("{}")), "https://rsshub.ddsrem.com/douban/tv/coming/hot/10");
    assert_eq!(
        feed_url(&settings(r#"{"rsshub": "http://r//", "sort_by": "time", "count": 500}"#)),
        "http://r/douban/tv/coming/time/100"
    );
    assert_eq!(feed_url(&settings(r#"{"rsshub": "", "sort_by": "x", "count": -1}"#)), "/douban/tv/coming/hot/1");
    assert_eq!(page_url("https://movie.douban.com/subject/1/").as_deref(), Some("https://m.douban.com/movie/subject/1/"));
    assert_eq!(page_url("http://movie.douban.com/subject/1/"), None);
}

#[test]
fn rules_have_floors() {
    let rules = Rules::from_settings(&settings("{}"));
    assert_eq!((rules.threshold, rules.advance_days, rules.notify, rules.notify_hours), (5000, 7, true, 24));
    let rules = Rules::from_settings(&settings(
        r#"{"wish_count_threshold": -1, "advance_days": -2, "notify_before_air": false, "notify_hours": 0}"#,
    ));
    assert_eq!((rules.threshold, rules.advance_days, rules.notify, rules.notify_hours), (0, 0, false, 1));
}

#[test]
fn reminders_are_due_within_the_hours() {
    assert!(reminder_due(Some(0), 1));
    assert!(reminder_due(Some(3600), 1));
    assert!(!reminder_due(Some(3601), 1));
    assert!(!reminder_due(Some(-1), 1));
    assert!(!reminder_due(None, 1));
    assert!(reminder_due(Some(i64::MAX), i64::MAX));
}

fn record(title: &str, air_date: &str) -> Record {
    Record {
        title: title.to_string(),
        wish_count: 1,
        air_date: air_date.to_string(),
        subscription: String::new(),
        reminder: String::new(),
        processed_at: String::new(),
    }
}

#[test]
fn the_history_lists_a_dated_series_once() {
    let history = History::new()
        .with_record(record("a", "2026-01-01"), "2026-01-01")
        .with_record(record("b", "2026-01-01"), "2026-01-01")
        .with_record(record("a", "2026-01-01"), "2026-01-01")
        .with_record(record("a", "未知"), "")
        .with_record(record("a", "未知"), "");
    let listed: Vec<(&str, &str)> = history.records.iter().map(|r| (r.title.as_str(), r.air_date.as_str())).collect();
    assert_eq!(listed, vec![("a", "未知"), ("a", "未知"), ("a", "2026-01-01"), ("b", "2026-01-01")]);
}

#[test]
fn the_history_is_cut_and_counted() {
    let mut history = History::new().with_subscription().with_reminder("k").with_reminder("k");
    for n in 0..MAX_RECORDS + 3 {
        history.records.push(record(&format!("t{}", n), ""));
    }
    let history = history.closed_run();
    assert_eq!((history.runs, history.subscribed, history.notifications), (1, 1, 2));
    assert_eq!(history.records.len(), MAX_RECORDS);
    assert_eq!(history.records[0].title, "t0");
    assert_eq!(history.notified.len(), 1);
    let cleared = starting_history(&settings(r#"{"clear": true}"#), history);
    assert_eq!((cleared.runs, cleared.records.len(), cleared.notified.len()), (0, 0, 0));
    assert_eq!(starting_history(&settings("{}"), History::new().closed_run()).runs, 1);
}

#[test]
fn reports_are_written() {
    let mut report = Report::new(3);
    report.failures.push("x".to_string());
    assert_eq!(
        render_json(&report.result()),
        r#"{"notice":"豆瓣将映刷新完成：获取 3，新增订阅 0，发送提醒 0。","report":{"considered":0,"failures":["x"],"fetched":3,"notifications":0,"skipped":0,"subscribed":0}}"#
    );
}

fn resolve_step(step: RefreshStep) -> (FeedItem, Refresh) {
    assert!(step.has_room());
    match step {
        RefreshStep::Resolve { item, refresh, .. } => (item, refresh),
        other => panic!("{:?}", other),
    }
}

fn today_step(step: RefreshStep) -> (Candidate, Refresh) {
    assert!(step.has_room());
    match step {
        RefreshStep::AskToday { candidate, refresh } => (candidate, refresh),
        other => panic!("{:?}", other),
    }
}

fn time_step(step: RefreshStep) -> (Candidate, String, String, Refresh) {
    assert!(step.has_room());
    match step {
        RefreshStep::AskTime { candidate, subscription, reminder, refresh } => (candidate, subscription, reminder, refresh),
        other => panic!("{:?}", other),
    }
}

fn end(step: RefreshStep) -> (History, Report) {
    match step {
        RefreshStep::Finish { history, report } => (history, report),
        other => panic!("{:?}", other),
    }
}

#[test]
fn a_whole_refresh() {
    let items = vec![feed_item("few", 10), feed_item("a", 6000), feed_item("again", 7000), feed_item("few", 1)];
    let first = refresh(&settings("{}"), History::new(), items, NameSet::new().with("tv:9:1"));
    let (item, state) = resolve_step(first);
    assert_eq!(item.title, "a");
    let (candidate, state) = today_step(state.resolved(item, Ok(series("42", "名"))));
    let step = state.today_told(candidate, &date(2026, 7, 27));
    let step = match step {
        RefreshStep::Subscribe { query, candidate, refresh } => {
            assert_eq!(query.get("tmdb_id").unwrap().as_str(), Some("42"));
            refresh.subscribed(candidate, Ok(()))
        }
        other => panic!("{:?}", other),
    };
    let step = match step {
        RefreshStep::AskCountdown { candidate, subscription, refresh } => {
            assert_eq!(subscription, "已创建");
            refresh.countdown_told(candidate, subscription, Some(86_400))
        }
        other => panic!("{:?}", other),
    };
    let step = match step {
        RefreshStep::Notify { query, candidate, subscription, refresh } => {
            assert_eq!(
                render_json(&query),
                r#"{"content":"名称：名\n开播日期：2026-08-02\n想看人数：6000\n订阅状态：已订阅\n豆瓣链接：https://movie.douban.com/subject/1/","image_url":"/p.jpg","title":"豆瓣将映提醒"}"#
            );
            refresh.notified(candidate, subscription)
        }
        other => panic!("{:?}", other),
    };
    let (candidate, subscription, reminder, state) = time_step(step);
    assert_eq!((subscription.as_str(), reminder.as_str()), ("已创建", "已发送"));
    let (item, state) = resolve_step(state.time_told(candidate, subscription, reminder, "T1".to_string()));
    assert_eq!(item.title, "again");
    // The same series again: neither a second subscription nor a second reminder.
    let (candidate, state) = today_step(state.resolved(item, Ok(series("42", "名"))));
    let (candidate, subscription, reminder, state) = time_step(state.today_told(candidate, &date(2026, 7, 27)));
    assert_eq!((subscription.as_str(), reminder.as_str()), ("已存在", "未提醒"));
    let (history, report) = end(state.time_told(candidate, subscription, reminder, "T2".to_string()));
    assert_eq!((history.runs, history.subscribed, history.notifications), (1, 1, 1));
    assert!(history.notified.contains("42:2026-08-02"));
    assert_eq!(history.records.len(), 1);
    assert_eq!((history.records[0].processed_at.as_str(), history.records[0].wish_count), ("T2", 7000));
    assert_eq!((report.fetched, report.considered, report.subscribed, report.notifications, report.skipped), (4, 2, 1, 1, 2));
    assert!(report.failures.is_empty());
    // Two items were passed over and two were recorded.
    assert_eq!(report.fetched, report.skipped + report.failures.len() + 2);
}

fn one_item(settings_text: &str) -> (FeedItem, Refresh) {
    resolve_step(refresh(&settings(settings_text), History::new(), vec![feed_item("a", 6000)], NameSet::new()))
}

#[test]
fn items_that_cannot_be_used() {
    let (item, state) = one_item("{}");
    let (_, report) = end(state.resolved(item, Err("TMDB 未匹配".to_string())));
    assert_eq!(report.failures, vec!["a: TMDB 未匹配"]);
    let (item, state) = one_item("{}");
    let mut media = series("1", "");
    media.year = Some(2025);
    let (_, report) = end(state.resolved(item, Ok(media)));
    assert_eq!(report.failures, vec!["a: TMDB 年份不一致（RSS 2026，TMDB 2025）"]);
    let (item, state) = one_item("{}");
    let mut media = series("1", "");
    media.media_type = "movie".to_string();
    let (_, report) = end(state.resolved(item, Ok(media)));
    assert_eq!((report.considered, report.skipped, report.failures.len()), (1, 1, 0));
    let (item, state) = one_item("{}");
    let (candidate, state) = today_step(state.resolved(item, Ok(series("1", "名"))));
    match state.today_told(candidate, &date(2026, 8, 2)) {
        RefreshStep::Subscribe { candidate, refresh, .. } => {
            let (history, report) = end(refresh.subscribed(candidate, Err("Mediary API 500".to_string())));
            assert_eq!(report.failures, vec!["名: 创建订阅失败: Mediary API 500"]);
            assert_eq!((history.records.len(), history.subscribed), (0, 0));
        }
        other => panic!("{:?}", other),
    }
}

#[test]
fn the_page_is_the_last_source_of_the_air_date() {
    let undated = || {
        let mut media = series("1", "");
        media.first_air_date = None;
        media
    };
    let (item, state) = one_item("{}");
    match state.resolved(item, Ok(undated())) {
        RefreshStep::FetchPage { url, item, media, refresh } => {
            assert_eq!(url, "https://m.douban.com/movie/subject/1/");
            let (candidate, _) = today_step(refresh.page_fetched(item, media, Some("首播: 2026-08-20")));
            assert_eq!(candidate.air_date, Some(date(2026, 8, 20)));
        }
        other => panic!("{:?}", other),
    }
    let (item, state) = one_item("{}");
    match state.resolved(item, Ok(undated())) {
        RefreshStep::FetchPage { item, media, refresh, .. } => {
            let (candidate, subscription, reminder, state) = time_step(refresh.page_fetched(item, media, None));
            assert_eq!((subscription.as_str(), reminder.as_str()), ("日期未知", "未提醒"));
            let (history, _) = end(state.time_told(candidate, subscription, reminder, String::new()));
            assert_eq!(history.records[0].air_date, "未知");
        }
        other => panic!("{:?}", other),
    }
    let (mut item, state) = one_item("{}");
    item.description = "首播 2026-08-05".to_string();
    let (candidate, _) = today_step(state.resolved(item, Ok(undated())));
    assert_eq!(candidate.air_date, Some(date(2026, 8, 5)));
    let (mut item, state) = one_item("{}");
    item.link = String::new();
    let (_, subscription, _, _) = time_step(state.resolved(item, Ok(undated())));
    assert_eq!(subscription, "日期未知");
}

#[test]
fn subscriptions_wait_for_their_window() {
    for (day, subscribes) in [(25, false), (26, true), (31, true)] {
        let (item, state) = one_item("{}");
        let (candidate, state) = today_step(state.resolved(item, Ok(series("1", ""))));
        let step = state.today_told(candidate, &date(2026, 7, day));
        assert_eq!(matches!(step, RefreshStep::Subscribe { .. }), subscribes, "{}", day);
    }
    let (item, state) = one_item(r#"{"notify_before_air": false}"#);
    let (candidate, state) = today_step(state.resolved(item, Ok(series("1", ""))));
    let (_, subscription, reminder, _) = time_step(state.today_told(candidate, &date(2026, 8, 3)));
    assert_eq!((subscription.as_str(), reminder.as_str()), ("未到订阅窗口", "未提醒"));
}

#[test]
fn nothing_is_repeated_from_run_to_run() {
    let history = History::new().with_reminder("42:2026-08-02");
    let first = refresh(&settings("{}"), history, vec![feed_item("a", 6000)], NameSet::new().with("tv:42:1"));
    let (item, state) = resolve_step(first);
    let (candidate, state) = today_step(state.resolved(item, Ok(series(" 42 ", ""))));
    // The key of a subscription is trimmed, the key of a reminder is not.
    match state.today_told(candidate, &date(2026, 8, 1)) {
        RefreshStep::AskCountdown { candidate, subscription, refresh } => {
            assert_eq!(subscription, "已存在");
            let (_, _, reminder, _) = time_step(refresh.countdown_told(candidate, subscription, None));
            assert_eq!(reminder, "未提醒");
        }
        other => panic!("{:?}", other),
    }
    let history = History::new().with_reminder("42:2026-08-02");
    let first = refresh(&settings("{}"), history, vec![feed_item("a", 6000)], NameSet::new().with("tv:42:1"));
    let (item, state) = resolve_step(first);
    let (candidate, state) = today_step(state.resolved(item, Ok(series("42", ""))));
    let (candidate, subscription, reminder, state) = time_step(state.today_told(candidate, &date(2026, 8, 1)));
    assert_eq!((subscription.as_str(), reminder.as_str()), ("已存在", "未提醒"));
    let (history, report) = end(state.time_told(candidate, subscription, reminder, String::new()));
    assert_eq!((history.notifications, report.notifications, report.subscribed), (1, 0, 0));
    assert!(history.notified.contains("42:2026-08-02"));
}

#[test]
fn reminders_come_before_the_series_airs() {
    for (seconds, reminds) in [(Some(-1), false), (Some(0), true), (Some(86_400), true), (Some(86_401), false), (None, false)] {
        let (item, state) = resolve_step(refresh(
            &settings("{}"),
            History::new(),
            vec![feed_item("a", 6000)],
            NameSet::new().with("tv:1:1"),
        ));
        let (candidate, state) = today_step(state.resolved(item, Ok(series("1", ""))));
        match state.today_told(candidate, &date(2026, 8, 1)) {
            RefreshStep::AskCountdown { candidate, subscription, refresh } => {
                let step = refresh.countdown_told(candidate, subscription, seconds);
                assert_eq!(matches!(step, RefreshStep::Notify { .. }), reminds, "{:?}", seconds);
            }
            other => panic!("{:?}", other),
        }
    }
}
