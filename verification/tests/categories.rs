use serde_json::Value;
use tiktok_json_analyzer::categories::{
    audience_stats, daily_minutes, daily_time, favorites, likes, read_likes_received, read_logins,
    read_videos,
};
use tiktok_json_analyzer::export::{count_days, percent_of, rate_per_day};
use tiktok_json_analyzer::json::Json;
use tiktok_json_analyzer::messages::{clean_chat_name, private_messages};
use tiktok_json_analyzer::resolver::{find_latest_timestamp, pick_later, read_item_date};
use tiktok_json_analyzer::stats::CategoryStats;

fn convert(value: &Value) -> Json {
    match value {
        Value::Null => Json::Null,
        Value::Bool(flag) => Json::Bool(*flag),
        Value::Number(number) => Json::Number(number.to_string()),
        Value::String(text) => Json::Text(text.clone()),
        Value::Array(items) => Json::Array(items.iter().map(convert).collect()),
        Value::Object(members) => {
            Json::Object(members.iter().map(|(name, value)| (name.clone(), convert(value))).collect())
        }
    }
}

fn parse(text: &str) -> Json {
    convert(&serde_json::from_str::<Value>(text).unwrap())
}

fn figures(stats: &CategoryStats) -> Vec<(String, u64)> {
    stats.entries().clone()
}

fn named(pairs: &[(&str, u64)]) -> Vec<(String, u64)> {
    pairs.iter().map(|(name, value)| (name.to_string(), *value)).collect()
}

const JAN_1: i64 = 1_704_067_200;
const DAY: i64 = 86_400;

#[test]
fn rate_is_whole_division() {
    assert_eq!(rate_per_day(10, 5), 2);
    assert_eq!(rate_per_day(10, 3), 3);
    assert_eq!(rate_per_day(2, 3), 0);
    assert_eq!(rate_per_day(0, 3), 0);
    assert_eq!(rate_per_day(u64::MAX, 1), u64::MAX);
}

#[test]
fn rate_over_no_days_is_the_count() {
    assert_eq!(rate_per_day(10, 0), 10);
    assert_eq!(rate_per_day(0, 0), 0);
    assert_eq!(rate_per_day(u64::MAX, 0), u64::MAX);
}

#[test]
fn percentage_is_rounded_down() {
    assert_eq!(percent_of(1, 3), 33);
    assert_eq!(percent_of(2, 3), 66);
    assert_eq!(percent_of(3, 3), 100);
    assert_eq!(percent_of(3, 2), 150);
    assert_eq!(percent_of(0, 7), 0);
    assert_eq!(percent_of(1, 200), 0);
}

#[test]
fn percentage_of_nothing_is_zero() {
    assert_eq!(percent_of(0, 0), 0);
    assert_eq!(percent_of(12, 0), 0);
    assert_eq!(percent_of(u64::MAX, 0), 0);
}

#[test]
fn percentage_never_falls_as_the_rate_grows() {
    let mut before = 0;
    for rate in 0..500u64 {
        let now = percent_of(rate, 7);
        assert!(before <= now);
        assert!(now * 7 <= rate * 100 && rate * 100 < (now + 1) * 7);
        before = now;
    }
}

#[test]
fn percentage_is_held_at_the_greatest_figure() {
    assert_eq!(percent_of(u64::MAX, 1), u64::MAX);
    assert_eq!(percent_of(u64::MAX / 100, 1), u64::MAX / 100 * 100);
    assert_eq!(percent_of(u64::MAX, 100), u64::MAX);
    assert_eq!(percent_of(u64::MAX, 200), u64::MAX / 2);
}

#[test]
fn days_of_an_item() {
    let item = parse(r#"{"Date": "2024-01-01 00:00:00", "date": "2024-01-03 00:00:00"}"#);
    assert_eq!(count_days(JAN_1 + 4 * DAY, Some(&item), "Date"), 4);
    assert_eq!(count_days(JAN_1 + 4 * DAY, Some(&item), "date"), 2);
    assert_eq!(count_days(JAN_1 + 4 * DAY, Some(&item), "Other"), 0);
    assert_eq!(count_days(JAN_1 + 4 * DAY, None, "Date"), 0);
    assert_eq!(count_days(JAN_1 - 1, Some(&item), "Date"), 0);
    let untyped = parse(r#"{"Date": 20240101}"#);
    assert_eq!(count_days(JAN_1 + 4 * DAY, Some(&untyped), "Date"), 0);
    let garbled = parse(r#"{"Date": "first of January"}"#);
    assert_eq!(count_days(JAN_1 + 4 * DAY, Some(&garbled), "Date"), 0);
}

#[test]
fn logins_are_counted_from_the_first_listed() {
    let data = parse(
        r#"{"Your Activity": {"Login History": {"LoginHistoryList": [
            {"Date": "2024-01-01 00:00:00"},
            {"Date": "2024-01-02 00:00:00"},
            {"Date": "2024-01-03 00:00:00"},
            {"Date": "2024-01-04 00:00:00"},
            {"Date": "2024-01-05 00:00:00"},
            {"Date": "2024-01-06 00:00:00"}
        ]}}}"#,
    );
    let stats = read_logins(JAN_1 + 3 * DAY, &data);
    assert_eq!(
        figures(&stats),
        named(&[("Days since 1st login", 3), ("Openings", 6), ("Launches per day", 2)])
    );
    assert_eq!(stats.get("Openings"), Some(6));
    assert_eq!(stats.get("Days since 1st login"), Some(3));
    assert_eq!(stats.get("Launches per day"), Some(2));
    assert_eq!(stats.get("Videos watched"), None);
    assert_eq!(stats.len(), 3);
}

#[test]
fn logins_listed_newest_first_span_no_days() {
    let data = parse(
        r#"{"Your Activity": {"Login History": {"LoginHistoryList": [
            {"Date": "2024-01-03 00:00:00"},
            {"Date": "2024-01-02 00:00:00"},
            {"Date": "2024-01-01 00:00:00"}
        ]}}}"#,
    );
    let latest = find_latest_timestamp(&data);
    assert_eq!(latest, JAN_1 + 2 * DAY);
    let stats = read_logins(latest, &data);
    assert_eq!(
        figures(&stats),
        named(&[("Days since 1st login", 0), ("Openings", 3), ("Launches per day", 3)])
    );
}

#[test]
fn watched_videos_over_five_days() {
    let data = parse(
        r#"{"Your Activity": {"Watch History": {"VideoList": [
            {"Date": "2024-01-06 00:00:00", "Link": "https://example.com/10"},
            {"Date": "2024-01-05 18:00:00", "Link": "https://example.com/9"},
            {"Date": "2024-01-05 06:00:00", "Link": "https://example.com/8"},
            {"Date": "2024-01-04 12:00:00", "Link": "https://example.com/7"},
            {"Date": "2024-01-04 00:00:00", "Link": "https://example.com/6"},
            {"Date": "2024-01-03 12:00:00", "Link": "https://example.com/5"},
            {"Date": "2024-01-03 00:00:00", "Link": "https://example.com/4"},
            {"Date": "2024-01-02 12:00:00", "Link": "https://example.com/3"},
            {"Date": "2024-01-02 00:00:00", "Link": "https://example.com/2"},
            {"Date": "2024-01-01 00:00:00", "Link": "https://example.com/1"}
        ]}}}"#,
    );
    let latest = find_latest_timestamp(&data);
    assert_eq!(latest, JAN_1 + 5 * DAY);
    let stats = read_videos(latest, &data);
    assert_eq!(stats.get("Videos watched"), Some(10));
    assert_eq!(stats.get("Days since 1st video"), Some(5));
    assert_eq!(stats.get("Watched per day"), Some(2));
    assert_eq!(
        figures(&stats),
        named(&[("Days since 1st video", 5), ("Videos watched", 10), ("Watched per day", 2)])
    );
}

#[test]
fn likes_against_watched_videos() {
    let data = parse(
        r#"{"Your Activity": {
            "Watch History": {"VideoList": [
                {"Date": "2024-01-05 00:00:00"},
                {"Date": "2024-01-04 00:00:00"},
                {"Date": "2024-01-03 00:00:00"},
                {"Date": "2024-01-03 00:00:00"},
                {"Date": "2024-01-02 00:00:00"},
                {"Date": "2024-01-02 00:00:00"},
                {"Date": "2024-01-01 00:00:00"},
                {"Date": "2024-01-01 00:00:00"}
            ]},
            "Like List": {"ItemFavoriteList": [
                {"date": "2024-01-05 00:00:00", "link": "b"},
                {"date": "2024-01-04 00:00:00", "link": "m"},
                {"date": "2024-01-03 00:00:00", "link": "a"}
            ]}
        }}"#,
    );
    let latest = find_latest_timestamp(&data);
    assert_eq!(latest, JAN_1 + 4 * DAY);
    let stats = likes(latest, &data);
    assert_eq!(
        figures(&stats),
        named(&[
            ("Videos liked", 3),
            ("Days since oldest like", 2),
            ("Likes per day", 1),
            ("Liked videos percentage", 50),
        ])
    );
}

#[test]
fn likes_without_watched_videos() {
    let data = parse(
        r#"{"Your Activity": {"Like List": {"ItemFavoriteList": [
            {"date": "2024-01-02 00:00:00"},
            {"date": "2024-01-01 00:00:00"}
        ]}}}"#,
    );
    let stats = likes(JAN_1 + DAY, &data);
    assert_eq!(
        figures(&stats),
        named(&[
            ("Videos liked", 2),
            ("Days since oldest like", 1),
            ("Likes per day", 2),
            ("Liked videos percentage", 0),
        ])
    );
}

#[test]
fn likes_read_the_date_in_lower_case_only() {
    let data = parse(
        r#"{"Your Activity": {"Like List": {"ItemFavoriteList": [
            {"Date": "2024-01-01 00:00:00"}
        ]}}}"#,
    );
    let stats = likes(JAN_1 + 9 * DAY, &data);
    assert_eq!(stats.get("Days since oldest like"), Some(0));
    assert_eq!(stats.get("Likes per day"), Some(1));
}

#[test]
fn empty_and_absent_lists_give_zero() {
    let documents = [
        parse("{}"),
        parse("null"),
        parse(r#"{"Your Activity": {}}"#),
        parse(r#"{"Your Activity": {"Login History": {"LoginHistoryList": []},
            "Watch History": {"VideoList": []}, "Like List": {"ItemFavoriteList": []}}}"#),
        parse(r#"{"Your Activity": {"Login History": {"LoginHistoryList": "none"},
            "Watch History": {"VideoList": 3}, "Like List": {"ItemFavoriteList": {}}}}"#),
        parse(r#"{"Your Activity": [1, 2, 3]}"#),
    ];
    for data in documents.iter() {
        assert_eq!(find_latest_timestamp(data), 0);
        assert_eq!(
            figures(&read_logins(JAN_1, data)),
            named(&[("Days since 1st login", 0), ("Openings", 0), ("Launches per day", 0)])
        );
        assert_eq!(
            figures(&read_videos(JAN_1, data)),
            named(&[("Days since 1st video", 0), ("Videos watched", 0), ("Watched per day", 0)])
        );
        assert_eq!(
            figures(&likes(JAN_1, data)),
            named(&[
                ("Videos liked", 0),
                ("Days since oldest like", 0),
                ("Likes per day", 0),
                ("Liked videos percentage", 0),
            ])
        );
        assert_eq!(
            figures(&favorites(data)),
            named(&[("Effects", 0), ("Hashtags", 0), ("Sounds", 0), ("Videos", 0)])
        );
        assert_eq!(
            figures(&audience_stats(data)),
            named(&[("Videos published", 0), ("Likes received", 0)])
        );
        assert_eq!(private_messages(data).len(), 0);
    }
}

#[test]
fn rate_is_the_count_where_no_day_has_passed() {
    let data = parse(
        r#"{"Your Activity": {
            "Login History": {"LoginHistoryList": [
                {"Date": "2024-01-01 10:00:00"}, {"Date": "2024-01-01 11:00:00"},
                {"Date": "2024-01-01 12:00:00"}, {"Date": "2024-01-01 13:00:00"}
            ]},
            "Watch History": {"VideoList": [
                {"Date": "2024-01-01 13:00:00"}, {"Date": "2024-01-01 12:00:00"},
                {"Date": "no date"}
            ]},
            "Like List": {"ItemFavoriteList": [
                {"date": "2024-01-01 13:00:00"}, {"date": "2024-01-01 09:00:00"}
            ]}
        }}"#,
    );
    let latest = find_latest_timestamp(&data);
    assert_eq!(latest, JAN_1 + 13 * 3600);
    let logins = read_logins(latest, &data);
    assert_eq!(logins.get("Days since 1st login"), Some(0));
    assert_eq!(logins.get("Launches per day"), logins.get("Openings"));
    assert_eq!(logins.get("Launches per day"), Some(4));
    let watched = read_videos(latest, &data);
    assert_eq!(watched.get("Days since 1st video"), Some(0));
    assert_eq!(watched.get("Watched per day"), Some(3));
    let liked = likes(latest, &data);
    assert_eq!(liked.get("Days since oldest like"), Some(0));
    assert_eq!(liked.get("Likes per day"), Some(2));
    assert_eq!(liked.get("Liked videos percentage"), Some(66));
}

#[test]
fn favorites_are_counted_by_kind() {
    let data = parse(
        r#"{"Your Activity": {
            "Favorite Effects": {"FavoriteEffectsList": [1]},
            "Favorite Hashtags": {"FavoriteHashtagList": [1, 2]},
            "Favorite Sounds": {"FavoriteSoundList": [1, 2, 3]},
            "Favorite Videos": {"FavoriteVideoList": [1, 2, 3, 4]}
        }}"#,
    );
    let stats = favorites(&data);
    assert_eq!(
        figures(&stats),
        named(&[("Effects", 1), ("Hashtags", 2), ("Sounds", 3), ("Videos", 4)])
    );
    assert_eq!(stats.get("Sounds"), Some(3));
    assert_eq!(stats.get("Videos"), Some(4));
}

#[test]
fn audience_is_read_from_posts_and_profile() {
    let data = parse(
        r#"{"Post": {"Posts": {"VideoList": [{}, {}, {}]}},
            "Profile": {"Profile Info": {"likesReceived": "1234"}}}"#,
    );
    assert_eq!(
        figures(&audience_stats(&data)),
        named(&[("Videos published", 3), ("Likes received", 1234)])
    );
    assert_eq!(read_likes_received(&data), 1234);
}

#[test]
fn likes_received_fall_back_to_zero() {
    let texts = ["", "abc", "12a", "-5", " 7", "7 ", "1.5", "+", "++1", "18446744073709551616", "1_000"];
    for text in texts.iter() {
        let data = Json::Object(vec![(
            "Profile".to_string(),
            Json::Object(vec![(
                "Profile Info".to_string(),
                Json::Object(vec![("likesReceived".to_string(), Json::Text(text.to_string()))]),
            )]),
        )]);
        assert_eq!(read_likes_received(&data), 0);
        assert_eq!(read_likes_received(&data), text.parse::<u64>().unwrap_or(0));
    }
    let number = parse(r#"{"Profile": {"Profile Info": {"likesReceived": 1234}}}"#);
    assert_eq!(read_likes_received(&number), 0);
    assert_eq!(read_likes_received(&parse("{}")), 0);
}

#[test]
fn likes_received_are_read_as_std_reads_them() {
    let texts = ["0", "7", "+7", "007", "18446744073709551615", "+18446744073709551615", "1234567890"];
    for text in texts.iter() {
        let data = Json::Object(vec![(
            "Profile".to_string(),
            Json::Object(vec![(
                "Profile Info".to_string(),
                Json::Object(vec![("likesReceived".to_string(), Json::Text(text.to_string()))]),
            )]),
        )]);
        assert_eq!(Some(read_likes_received(&data)), text.parse::<u64>().ok());
    }
}

#[test]
fn chat_names_of_seventeen_characters_or_fewer_stay() {
    assert_eq!(clean_chat_name(""), "");
    assert_eq!(clean_chat_name("alice"), "alice");
    assert_eq!(clean_chat_name("Chat History with"), "Chat History with");
    assert_eq!(clean_chat_name("12345678901234567"), "12345678901234567");
}

#[test]
fn longer_chat_names_lose_their_first_seventeen_characters() {
    assert_eq!(clean_chat_name("Chat History with alice:"), "Chat with alice:");
    assert_eq!(clean_chat_name("123456789012345678"), "Chat with8");
    assert_eq!(clean_chat_name("Chat History with \u{e9}l\u{e9}onore:"), "Chat with \u{e9}l\u{e9}onore:");
}

#[test]
fn chat_names_are_measured_in_characters() {
    let seventeen = "\u{e9}".repeat(17);
    assert_eq!(clean_chat_name(&seventeen), seventeen);
    let eighteen = "\u{e9}".repeat(18);
    assert_eq!(clean_chat_name(&eighteen), "Chat with\u{e9}");
}

#[test]
fn messages_are_counted_by_chat() {
    let data = parse(
        r#"{"Direct Message": {"Direct Messages": {"ChatHistory": {
            "Chat History with alice:": [{}, {}, {}],
            "Chat History with bob:": [{}],
            "short": [],
            "Chat History with nobody:": "not a list"
        }}}}"#,
    );
    let counts = private_messages(&data);
    assert_eq!(
        figures(&counts),
        named(&[("Chat with alice:", 3), ("Chat with bob:", 1), ("short", 0)])
    );
    assert_eq!(counts.get("Chat with alice:"), Some(3));
    assert_eq!(counts.get("Chat History with alice:"), None);
    assert_eq!(counts.total(), 4);
}

#[test]
fn later_chat_of_the_same_cleaned_name_wins() {
    let data = Json::Object(vec![(
        "Direct Message".to_string(),
        Json::Object(vec![(
            "Direct Messages".to_string(),
            Json::Object(vec![(
                "ChatHistory".to_string(),
                Json::Object(vec![
                    ("AAAAAAAAAAAAAAAAA carol".to_string(), Json::Array(vec![Json::Null])),
                    ("other".to_string(), Json::Array(vec![Json::Null, Json::Null])),
                    ("BBBBBBBBBBBBBBBBB carol".to_string(), Json::Array((0..5).map(|_| Json::Null).collect())),
                ]),
            )]),
        )]),
    )]);
    let counts = private_messages(&data);
    assert_eq!(figures(&counts), named(&[("Chat with carol", 5), ("other", 2)]));
    assert_eq!(counts.total(), 7);
}

#[test]
fn latest_timestamp_is_the_greatest_of_three_lists() {
    let data = parse(
        r#"{"Your Activity": {
            "Login History": {"LoginHistoryList": [
                {"Date": "2024-01-02 00:00:00"}, {"Date": "garbage"}, {"Other": "2030-01-01 00:00:00"}
            ]},
            "Watch History": {"VideoList": [
                {"Date": "2024-01-03 00:00:00"}, {"Date": "2024-01-01 00:00:00"}
            ]},
            "Like List": {"ItemFavoriteList": [
                {"date": "2024-01-05 00:00:00"}, {"date": "2024-01-04 00:00:00"}
            ]},
            "Share History": {"ShareHistoryList": [{"Date": "2025-01-01 00:00:00"}]}
        }}"#,
    );
    assert_eq!(find_latest_timestamp(&data), JAN_1 + 4 * DAY);
}

#[test]
fn item_date_is_read_under_either_name() {
    let upper = parse(r#"{"Date": "a", "date": "b"}"#);
    assert_eq!(read_item_date(&upper), Some("a"));
    let lower = parse(r#"{"date": "b"}"#);
    assert_eq!(read_item_date(&lower), Some("b"));
    let untyped = parse(r#"{"Date": 5, "date": "b"}"#);
    assert_eq!(read_item_date(&untyped), None);
    assert_eq!(read_item_date(&parse("{}")), None);
    assert_eq!(read_item_date(&parse("[]")), None);
}

#[test]
fn latest_timestamp_before_the_epoch() {
    let data = parse(
        r#"{"Your Activity": {"Login History": {"LoginHistoryList": [
            {"Date": "1969-12-31 00:00:00"}, {"Date": "1969-12-30 00:00:00"}
        ]}}}"#,
    );
    assert_eq!(find_latest_timestamp(&data), -DAY);
}

#[test]
fn watch_time_in_words() {
    assert_eq!(daily_time(0), "0 hours and 0 minutes");
    assert_eq!(daily_time(2), "0 hours and 0 minutes");
    assert_eq!(daily_time(3), "0 hours and 1 minutes");
    assert_eq!(daily_time(120), "0 hours and 55 minutes");
    assert_eq!(daily_time(131), "1 hours and 0 minutes");
    assert_eq!(daily_time(1000), "7 hours and 38 minutes");
    assert_eq!(daily_time(300_000), "2291 hours and 40 minutes");
}

#[test]
fn watch_minutes_at_twenty_seven_and_a_half_seconds_a_video() {
    assert_eq!(daily_minutes(0), 0);
    assert_eq!(daily_minutes(1), 0);
    assert_eq!(daily_minutes(3), 1);
    assert_eq!(daily_minutes(120), 55);
    assert_eq!(daily_minutes(1000), 458);
    assert_eq!(daily_minutes(u64::MAX), (u64::MAX as u128 * 55 / 120) as u64);
}

#[test]
fn category_keeps_each_name_once() {
    let mut stats = CategoryStats::new();
    assert_eq!(stats.len(), 0);
    assert_eq!(stats.get("a"), None);
    assert_eq!(stats.total(), 0);
    stats.insert("a".to_string(), 1);
    stats.insert("b".to_string(), 2);
    stats.insert("a".to_string(), 30);
    stats.insert("c".to_string(), u64::MAX);
    assert_eq!(figures(&stats), named(&[("a", 30), ("b", 2), ("c", u64::MAX)]));
    assert_eq!(stats.get("a"), Some(30));
    assert_eq!(stats.get("b"), Some(2));
    assert_eq!(stats.get("d"), None);
    assert_eq!(stats.len(), 3);
    assert_eq!(stats.total(), 32 + u64::MAX as u128);
}

#[test]
fn later_of_two_moments() {
    assert_eq!(pick_later(None, None), None);
    assert_eq!(pick_later(Some(3), None), Some(3));
    assert_eq!(pick_later(None, Some(-3)), Some(-3));
    assert_eq!(pick_later(Some(3), Some(5)), Some(5));
    assert_eq!(pick_later(Some(5), Some(3)), Some(5));
    assert_eq!(pick_later(Some(-5), Some(-5)), Some(-5));
    assert_eq!(pick_later(Some(i64::MIN), Some(i64::MAX)), Some(i64::MAX));
}
