//! Usage statistics from a personal social-media data export.
//!
//! An export is one JSON document ([`json::Json`]). [`Statistics::build`]
//! reads it once and gives back the report: figures for each category of
//! activity, and the first and the last event of four of them.

use vstd::prelude::*;
use crate::categories::{
    audience_stats, daily_time, favorite_stats, favorites, lemma_audience_figures,
    lemma_watch_figures, like_stats, likes, likes_received, login_stats, read_logins, read_videos,
    watch_stats, watch_time, watched_per_day,
};
use crate::json::{count_items, Json, JsonView};
use crate::messages::{message_counts, private_messages};
use crate::render::{read_user_name, user_name};
use crate::resolver::{find_latest_timestamp, latest_moment};
use crate::spans::{
    comment_span, get_comment_info, get_dm_info, get_like_info, get_watch_info, like_span,
    message_span, watch_span,
};
use crate::stats::CategoryStats;

pub mod categories;
pub mod chart;
pub mod date_utils;
pub mod export;
pub mod json;
pub mod laws;
pub mod messages;
pub mod render;
pub mod resolver;
pub mod spans;
pub mod stats;
pub mod text;

verus! {

/// One dated event, brought down to a date and a text to show for it.
#[derive(Debug)]
pub struct ActivityItem {
    pub date: String,
    pub content: String,
}

/// An [`ActivityItem`] as mathematics sees it.
pub struct ActivityView {
    pub date: Seq<char>,
    pub content: Seq<char>,
}

impl View for ActivityItem {
    type V = ActivityView;

    open spec fn view(&self) -> ActivityView {
        ActivityView { date: self.date@, content: self.content@ }
    }
}

impl Clone for ActivityItem {
    fn clone(&self) -> (copy: Self)
        ensures
            copy@ == self@,
    {
        ActivityItem { date: self.date.clone(), content: self.content.clone() }
    }
}

/// The earliest and the latest event of a category that has any.
#[derive(Debug)]
pub struct DateInfo {
    pub first: ActivityItem,
    pub last: ActivityItem,
}

/// A [`DateInfo`] as mathematics sees it.
pub struct DateInfoView {
    pub first: ActivityView,
    pub last: ActivityView,
}

impl View for DateInfo {
    type V = DateInfoView;

    open spec fn view(&self) -> DateInfoView {
        DateInfoView { first: self.first@, last: self.last@ }
    }
}

/// The view of a [`DateInfo`] that may be absent.
pub open spec fn span_view(info: Option<DateInfo>) -> Option<DateInfoView> {
    match info {
        Some(info) => Some(info@),
        None => None,
    }
}

/// The report on one export.
#[derive(Debug)]
pub struct Statistics {
    pub username: String,
    pub logins: CategoryStats,
    pub watched: CategoryStats,
    pub time: String,
    pub favorites: CategoryStats,
    pub likes_left: CategoryStats,
    pub comments: u64,
    pub dms: CategoryStats,
    pub likes_received: u64,
    pub videos_published: u64,
    pub shares: u64,
    pub hashtags_viewed: u64,
    pub comment_info: Option<DateInfo>,
    pub like_info: Option<DateInfo>,
    pub watch_info: Option<DateInfo>,
    pub dm_info: Option<DateInfo>,
}

/// Whether an export has the one section that it must have: a profile
/// section that is not `null`.
pub open spec fn has_profile(doc: JsonView) -> bool {
    doc.profile_info() matches Some(info) && !(info is Null)
}

/// Checks that an export has its profile section. A document without it is
/// no export, and no report should be built from it.
pub fn check_data_validity(data: &Json) -> (valid: bool)
    ensures
        valid == has_profile(data@),
{
    match data.get("Profile") {
        Some(profile) => match profile.get("Profile Info") {
            Some(info) => !info.is_null(),
            None => false,
        },
        None => false,
    }
}

impl Statistics {
    /// Builds the report on an export. Every day span in it is counted up to
    /// the latest moment that the export itself holds.
    pub fn build(data: Json) -> (report: Statistics)
        ensures
            report.username@ == user_name(data@),
            report.logins@ == login_stats(latest_moment(data@) as int, data@),
            report.watched@ == watch_stats(latest_moment(data@) as int, data@),
            report.time@ == watch_time(watched_per_day(latest_moment(data@) as int, data@)),
            report.favorites@ == favorite_stats(data@),
            report.likes_left@ == like_stats(latest_moment(data@) as int, data@),
            report.comments == data@.comment_list().len(),
            report.dms@ == message_counts(data@.chats()),
            report.likes_received == likes_received(data@),
            report.videos_published == data@.published_videos().len(),
            report.shares == data@.share_history().len(),
            report.hashtags_viewed == data@.hashtag_list().len(),
            span_view(report.comment_info) == comment_span(data@),
            span_view(report.like_info) == like_span(data@),
            span_view(report.watch_info) == watch_span(data@),
            span_view(report.dm_info) == message_span(data@),
    {
        let username = read_user_name(&data);
        let latest_timestamp = find_latest_timestamp(&data);
        let watched = read_videos(latest_timestamp, &data);
        let watched_rate = match watched.get("Watched per day") {
            Some(rate) => rate,
            None => 0,
        };
        let audience_figures = audience_stats(&data);
        let received = match audience_figures.get("Likes received") {
            Some(likes) => likes,
            None => 0,
        };
        let published = match audience_figures.get("Videos published") {
            Some(videos) => videos,
            None => 0,
        };
        proof {
            lemma_watch_figures(latest_timestamp as int, data@);
            lemma_audience_figures(data@);
        }
        Statistics {
            username,
            logins: read_logins(latest_timestamp, &data),
            watched,
            time: daily_time(watched_rate),
            favorites: favorites(&data),
            likes_left: likes(latest_timestamp, &data),
            comments: count_items(data.list("Comment", "Comments", "CommentsList")),
            dms: private_messages(&data),
            likes_received: received,
            videos_published: published,
            shares: count_items(data.list("Your Activity", "Share History", "ShareHistoryList")),
            hashtags_viewed: count_items(data.list("Your Activity", "Hashtag", "HashtagList")),
            comment_info: get_comment_info(&data),
            like_info: get_like_info(&data),
            watch_info: get_watch_info(&data),
            dm_info: get_dm_info(&data),
        }
    }

    /// The likes received for each video published, where any video was
    /// published.
    pub fn likes_per_video(&self) -> (likes: Option<u64>)
        ensures
            self.videos_published == 0 ==> likes is None,
            self.videos_published > 0 ==> likes == Some(
                self.likes_received / self.videos_published,
            ),
    {
        if self.videos_published > 0 {
            Some(self.likes_received / self.videos_published)
        } else {
            None
        }
    }
}

} // verus!
