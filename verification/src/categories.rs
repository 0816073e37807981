//! The figures of each category of activity: how much there is of it, over
//! how many days, and at what rate.

use vstd::prelude::*;
use crate::export::{count_days, day_span, held, per_day, percent_of, percentage, rate_per_day};
use crate::json::{count_items, first_item, first_of, last_item, last_of, Json, JsonView};
use crate::stats::{has_name, names_distinct, value_of, CategoryStats};
use crate::text::{decimal_text, decimal_u64, parse_u64, push_decimal};

verus! {

/// The figures on logins: the days since the login that the history lists
/// first, the number of logins, and the logins per day.
pub open spec fn login_stats(latest: int, doc: JsonView) -> Seq<(Seq<char>, nat)> {
    let logins = doc.login_history();
    let days = day_span(latest, first_of(logins), "Date"@);
    seq![
        ("Days since 1st login"@, days),
        ("Openings"@, logins.len()),
        ("Launches per day"@, per_day(logins.len(), days)),
    ]
}

/// The videos watched per day, over the days since the video that the
/// history lists last, which is the earliest.
pub open spec fn watched_per_day(latest: int, doc: JsonView) -> nat {
    let watched = doc.watch_history();
    per_day(watched.len(), day_span(latest, last_of(watched), "Date"@))
}

/// The figures on watched videos: the days since the video that the history
/// lists last, which is the earliest, the number of videos, and the videos
/// per day.
pub open spec fn watch_stats(latest: int, doc: JsonView) -> Seq<(Seq<char>, nat)> {
    let watched = doc.watch_history();
    seq![
        ("Days since 1st video"@, day_span(latest, last_of(watched), "Date"@)),
        ("Videos watched"@, watched.len()),
        ("Watched per day"@, watched_per_day(latest, doc)),
    ]
}

/// The figures on likes: the number of liked videos, the days since the like
/// that is listed last, which is the oldest, the likes per day, and the share
/// that the likes per day are of the videos watched per day, in percent.
pub open spec fn like_stats(latest: int, doc: JsonView) -> Seq<(Seq<char>, nat)> {
    let liked = doc.liked_items();
    let days = day_span(latest, last_of(liked), "date"@);
    let rate = per_day(liked.len(), days);
    seq![
        ("Videos liked"@, liked.len()),
        ("Days since oldest like"@, days),
        ("Likes per day"@, rate),
        ("Liked videos percentage"@, held(percentage(rate, watched_per_day(latest, doc)))),
    ]
}

/// The figures on favorites: how many effects, hashtags, sounds and videos.
pub open spec fn favorite_stats(doc: JsonView) -> Seq<(Seq<char>, nat)> {
    seq![
        ("Effects"@, doc.favorite_effects().len()),
        ("Hashtags"@, doc.favorite_hashtags().len()),
        ("Sounds"@, doc.favorite_sounds().len()),
        ("Videos"@, doc.favorite_videos().len()),
    ]
}

/// The likes that the profile says were received: the decimal number that
/// its `likesReceived` text writes, and 0 where there is no such text or it
/// writes none.
pub open spec fn likes_received(doc: JsonView) -> nat {
    match doc.descend("Profile"@, "Profile Info"@, "likesReceived"@) {
        Some(value) => match value.text() {
            Some(text) => match decimal_u64(text) {
                Some(likes) => likes as nat,
                None => 0,
            },
            None => 0,
        },
        None => 0,
    }
}

/// The figures on the audience: the videos published and the likes received.
pub open spec fn audience(doc: JsonView) -> Seq<(Seq<char>, nat)> {
    seq![
        ("Videos published"@, doc.published_videos().len()),
        ("Likes received"@, likes_received(doc)),
    ]
}

/// Each figure on logins is found under its name, and no name is borne
/// twice.
pub proof fn lemma_login_figures(latest: int, doc: JsonView)
    ensures
        names_distinct(login_stats(latest, doc)),
        value_of(login_stats(latest, doc), "Days since 1st login"@) == Some(
            day_span(latest, first_of(doc.login_history()), "Date"@),
        ),
        value_of(login_stats(latest, doc), "Openings"@) == Some(doc.login_history().len()),
        value_of(login_stats(latest, doc), "Launches per day"@) == Some(
            per_day(
                doc.login_history().len(),
                day_span(latest, first_of(doc.login_history()), "Date"@),
            ),
        ),
{
    reveal_with_fuel(value_of, 4);
    reveal_strlit("Days since 1st login");
    reveal_strlit("Openings");
    reveal_strlit("Launches per day");
    assert("Days since 1st login"@.len() == 20);
    assert("Openings"@.len() == 8);
    assert("Launches per day"@.len() == 16);
    let figures = login_stats(latest, doc);
}

/// Each figure on watched videos is found under its name, and no name is
/// borne twice.
pub proof fn lemma_watch_figures(latest: int, doc: JsonView)
    ensures
        names_distinct(watch_stats(latest, doc)),
        value_of(watch_stats(latest, doc), "Days since 1st video"@) == Some(
            day_span(latest, last_of(doc.watch_history()), "Date"@),
        ),
        value_of(watch_stats(latest, doc), "Videos watched"@) == Some(doc.watch_history().len()),
        value_of(watch_stats(latest, doc), "Watched per day"@) == Some(
            watched_per_day(latest, doc),
        ),
{
    reveal_with_fuel(value_of, 4);
    reveal_strlit("Days since 1st video");
    reveal_strlit("Videos watched");
    reveal_strlit("Watched per day");
    assert("Days since 1st video"@.len() == 20);
    assert("Videos watched"@.len() == 14);
    assert("Watched per day"@.len() == 15);
    let figures = watch_stats(latest, doc);
}

/// Each figure on likes is found under its name, and no name is borne
/// twice.
pub proof fn lemma_like_figures(latest: int, doc: JsonView)
    ensures
        names_distinct(like_stats(latest, doc)),
        value_of(like_stats(latest, doc), "Videos liked"@) == Some(doc.liked_items().len()),
        value_of(like_stats(latest, doc), "Days since oldest like"@) == Some(
            day_span(latest, last_of(doc.liked_items()), "date"@),
        ),
        value_of(like_stats(latest, doc), "Likes per day"@) == Some(
            per_day(
                doc.liked_items().len(),
                day_span(latest, last_of(doc.liked_items()), "date"@),
            ),
        ),
        value_of(like_stats(latest, doc), "Liked videos percentage"@) == Some(
            held(
                percentage(
                    per_day(
                        doc.liked_items().len(),
                        day_span(latest, last_of(doc.liked_items()), "date"@),
                    ),
                    watched_per_day(latest, doc),
                ),
            ),
        ),
{
    reveal_with_fuel(value_of, 5);
    reveal_strlit("Videos liked");
    reveal_strlit("Days since oldest like");
    reveal_strlit("Likes per day");
    reveal_strlit("Liked videos percentage");
    assert("Videos liked"@.len() == 12);
    assert("Days since oldest like"@.len() == 22);
    assert("Likes per day"@.len() == 13);
    assert("Liked videos percentage"@.len() == 23);
    let figures = like_stats(latest, doc);
}

/// Each count of favorites is found under its name, and no name is borne
/// twice.
pub proof fn lemma_favorite_figures(doc: JsonView)
    ensures
        names_distinct(favorite_stats(doc)),
        value_of(favorite_stats(doc), "Effects"@) == Some(doc.favorite_effects().len()),
        value_of(favorite_stats(doc), "Hashtags"@) == Some(doc.favorite_hashtags().len()),
        value_of(favorite_stats(doc), "Sounds"@) == Some(doc.favorite_sounds().len()),
        value_of(favorite_stats(doc), "Videos"@) == Some(doc.favorite_videos().len()),
{
    reveal_with_fuel(value_of, 5);
    reveal_strlit("Effects");
    reveal_strlit("Hashtags");
    reveal_strlit("Sounds");
    reveal_strlit("Videos");
    assert("Effects"@.len() == 7);
    assert("Hashtags"@.len() == 8);
    assert("Sounds"@.len() == 6);
    assert("Sounds"@[0] != "Videos"@[0]);
    let figures = favorite_stats(doc);
}

/// Each figure on the audience is found under its name, and no name is
/// borne twice.
pub proof fn lemma_audience_figures(doc: JsonView)
    ensures
        names_distinct(audience(doc)),
        value_of(audience(doc), "Videos published"@) == Some(doc.published_videos().len()),
        value_of(audience(doc), "Likes received"@) == Some(likes_received(doc)),
{
    reveal_with_fuel(value_of, 3);
    reveal_strlit("Videos published");
    reveal_strlit("Likes received");
    assert("Videos published"@.len() == 16);
    assert("Likes received"@.len() == 14);
    let figures = audience(doc);
}

/// The minutes that go into watching so many videos a day, at 27.5 seconds a
/// video.
pub open spec fn watch_minutes(watched_per_day: nat) -> nat {
    watched_per_day * 55 / 2 / 60
}

/// The time that goes into watching so many videos a day, in words.
pub open spec fn watch_time(watched_per_day: nat) -> Seq<char> {
    decimal_text(watch_minutes(watched_per_day) / 60) + " hours and "@ + decimal_text(
        watch_minutes(watched_per_day) % 60,
    ) + " minutes"@
}

/// Enters a figure under a name that the category does not have yet.
fn enter(stats: &mut CategoryStats, name: &str, value: u64)
    requires
        !has_name(old(stats)@, name@),
    ensures
        final(stats)@ == old(stats)@.push((name@, value as nat)),
{
    stats.insert(String::from_str(name), value);
}

/// Computes the figures on logins, with `latest_timestamp` as the present.
pub fn read_logins(latest_timestamp: i64, data: &Json) -> (stats: CategoryStats)
    ensures
        stats@ == login_stats(latest_timestamp as int, data@),
{
    let logins = data.list("Your Activity", "Login History", "LoginHistoryList");
    let count = count_items(logins);
    let days = count_days(latest_timestamp, first_item(logins), "Date");
    let rate = rate_per_day(count, days);
    let mut stats = CategoryStats::new();
    proof {
        reveal_strlit("Days since 1st login");
        reveal_strlit("Openings");
        reveal_strlit("Launches per day");
        assert("Days since 1st login"@.len() == 20);
        assert("Openings"@.len() == 8);
        assert("Launches per day"@.len() == 16);
    }
    enter(&mut stats, "Days since 1st login", days);
    enter(&mut stats, "Openings", count);
    enter(&mut stats, "Launches per day", rate);
    stats
}

/// Computes the figures on watched videos, with `latest_timestamp` as the
/// present.
pub fn read_videos(latest_timestamp: i64, data: &Json) -> (stats: CategoryStats)
    ensures
        stats@ == watch_stats(latest_timestamp as int, data@),
{
    let watched = data.list("Your Activity", "Watch History", "VideoList");
    let count = count_items(watched);
    let days = count_days(latest_timestamp, last_item(watched), "Date");
    let rate = rate_per_day(count, days);
    let mut stats = CategoryStats::new();
    proof {
        reveal_strlit("Days since 1st video");
        reveal_strlit("Videos watched");
        reveal_strlit("Watched per day");
        assert("Days since 1st video"@.len() == 20);
        assert("Videos watched"@.len() == 14);
        assert("Watched per day"@.len() == 15);
    }
    enter(&mut stats, "Days since 1st video", days);
    enter(&mut stats, "Videos watched", count);
    enter(&mut stats, "Watched per day", rate);
    stats
}

/// Computes the figures on likes, with `latest_timestamp` as the present.
pub fn likes(latest_timestamp: i64, data: &Json) -> (stats: CategoryStats)
    ensures
        stats@ == like_stats(latest_timestamp as int, data@),
{
    let watched = data.list("Your Activity", "Watch History", "VideoList");
    let watched_count = count_items(watched);
    let watched_days = count_days(latest_timestamp, last_item(watched), "Date");
    let watched_rate = rate_per_day(watched_count, watched_days);

    let liked = data.list("Your Activity", "Like List", "ItemFavoriteList");
    let count = count_items(liked);
    let days = count_days(latest_timestamp, last_item(liked), "date");
    let rate = rate_per_day(count, days);
    let percent = percent_of(rate, watched_rate);

    let mut stats = CategoryStats::new();
    proof {
        reveal_strlit("Videos liked");
        reveal_strlit("Days since oldest like");
        reveal_strlit("Likes per day");
        reveal_strlit("Liked videos percentage");
        assert("Videos liked"@.len() == 12);
        assert("Days since oldest like"@.len() == 22);
        assert("Likes per day"@.len() == 13);
        assert("Liked videos percentage"@.len() == 23);
    }
    enter(&mut stats, "Videos liked", count);
    enter(&mut stats, "Days since oldest like", days);
    enter(&mut stats, "Likes per day", rate);
    enter(&mut stats, "Liked videos percentage", percent);
    stats
}

/// Counts the favorites of each kind.
pub fn favorites(data: &Json) -> (stats: CategoryStats)
    ensures
        stats@ == favorite_stats(data@),
{
    let effects = count_items(
        data.list("Your Activity", "Favorite Effects", "FavoriteEffectsList"),
    );
    let hashtags = count_items(
        data.list("Your Activity", "Favorite Hashtags", "FavoriteHashtagList"),
    );
    let sounds = count_items(data.list("Your Activity", "Favorite Sounds", "FavoriteSoundList"));
    let videos = count_items(data.list("Your Activity", "Favorite Videos", "FavoriteVideoList"));
    let mut stats = CategoryStats::new();
    proof {
        reveal_strlit("Effects");
        reveal_strlit("Hashtags");
        reveal_strlit("Sounds");
        reveal_strlit("Videos");
        assert("Effects"@.len() == 7);
        assert("Hashtags"@.len() == 8);
        assert("Sounds"@.len() == 6);
        assert("Sounds"@[0] != "Videos"@[0]);
    }
    enter(&mut stats, "Effects", effects);
    enter(&mut stats, "Hashtags", hashtags);
    enter(&mut stats, "Sounds", sounds);
    enter(&mut stats, "Videos", videos);
    stats
}

/// Reads the likes that the profile says were received.
pub fn read_likes_received(data: &Json) -> (likes: u64)
    ensures
        likes == likes_received(data@),
{
    match data.descend("Profile", "Profile Info", "likesReceived") {
        Some(value) => match value.as_str() {
            Some(text) => match parse_u64(text) {
                Some(likes) => likes,
                None => 0,
            },
            None => 0,
        },
        None => 0,
    }
}

/// Computes the figures on the audience.
pub fn audience_stats(data: &Json) -> (stats: CategoryStats)
    ensures
        stats@ == audience(data@),
{
    let published = count_items(data.list("Post", "Posts", "VideoList"));
    let received = read_likes_received(data);
    let mut stats = CategoryStats::new();
    proof {
        reveal_strlit("Videos published");
        reveal_strlit("Likes received");
        assert("Videos published"@.len() == 16);
        assert("Likes received"@.len() == 14);
    }
    enter(&mut stats, "Videos published", published);
    enter(&mut stats, "Likes received", received);
    stats
}

/// Estimates the minutes that go into watching so many videos a day.
pub fn daily_minutes(watched_per_day: u64) -> (minutes: u64)
    ensures
        minutes == watch_minutes(watched_per_day as nat),
{
    let seconds: u128 = watched_per_day as u128 * 55 / 2;
    (seconds / 60) as u64
}

/// Says in words how much time goes into watching so many videos a day.
pub fn daily_time(watched_per_day: u64) -> (time: String)
    ensures
        time@ == watch_time(watched_per_day as nat),
{
    let minutes = daily_minutes(watched_per_day);
    let mut time = String::new();
    push_decimal(minutes / 60, &mut time);
    time.append(" hours and ");
    push_decimal(minutes % 60, &mut time);
    time.append(" minutes");
    time
}

} // verus!
