//! The places of an export that the statistics are read from, and the
//! figures that are shared by every category: day spans and rates per day.

use vstd::prelude::*;
use crate::date_utils::{days_between, days_since};
use crate::json::{Json, JsonView, view_of};

verus! {

impl JsonView {
    /// The history of logins.
    pub open spec fn login_history(self) -> Seq<JsonView> {
        self.list("Your Activity"@, "Login History"@, "LoginHistoryList"@)
    }

    /// The history of watched videos, newest first.
    pub open spec fn watch_history(self) -> Seq<JsonView> {
        self.list("Your Activity"@, "Watch History"@, "VideoList"@)
    }

    /// The liked items, newest first.
    pub open spec fn liked_items(self) -> Seq<JsonView> {
        self.list("Your Activity"@, "Like List"@, "ItemFavoriteList"@)
    }

    /// The comments, oldest first.
    pub open spec fn comment_list(self) -> Seq<JsonView> {
        self.list("Comment"@, "Comments"@, "CommentsList"@)
    }

    /// The history of shares.
    pub open spec fn share_history(self) -> Seq<JsonView> {
        self.list("Your Activity"@, "Share History"@, "ShareHistoryList"@)
    }

    /// The hashtags viewed.
    pub open spec fn hashtag_list(self) -> Seq<JsonView> {
        self.list("Your Activity"@, "Hashtag"@, "HashtagList"@)
    }

    /// The favorite effects.
    pub open spec fn favorite_effects(self) -> Seq<JsonView> {
        self.list("Your Activity"@, "Favorite Effects"@, "FavoriteEffectsList"@)
    }

    /// The favorite hashtags.
    pub open spec fn favorite_hashtags(self) -> Seq<JsonView> {
        self.list("Your Activity"@, "Favorite Hashtags"@, "FavoriteHashtagList"@)
    }

    /// The favorite sounds.
    pub open spec fn favorite_sounds(self) -> Seq<JsonView> {
        self.list("Your Activity"@, "Favorite Sounds"@, "FavoriteSoundList"@)
    }

    /// The favorite videos.
    pub open spec fn favorite_videos(self) -> Seq<JsonView> {
        self.list("Your Activity"@, "Favorite Videos"@, "FavoriteVideoList"@)
    }

    /// The videos that the user published.
    pub open spec fn published_videos(self) -> Seq<JsonView> {
        self.list("Post"@, "Posts"@, "VideoList"@)
    }

    /// The chats, each under its name: the members of the chat history,
    /// where that is there and is an object.
    pub open spec fn chats(self) -> Seq<(Seq<char>, JsonView)> {
        match self.descend("Direct Message"@, "Direct Messages"@, "ChatHistory"@) {
            Some(history) => history.members(),
            None => Seq::empty(),
        }
    }

    /// The profile section, where the export has one.
    pub open spec fn profile_info(self) -> Option<JsonView> {
        match self.member("Profile"@) {
            Some(profile) => profile.member("Profile Info"@),
            None => None,
        }
    }
}

/// The whole days from the date that an item bears under `key` up to
/// `latest`. An item that is missing, or bears no text under that name, or a
/// text that names no moment, counts as no days.
pub open spec fn day_span(latest: int, item: Option<JsonView>, key: Seq<char>) -> nat {
    match item {
        Some(item) => match item.text_at(key) {
            Some(text) => match days_since(latest, text) {
                Some(days) => days,
                None => 0,
            },
            None => 0,
        },
        None => 0,
    }
}

/// How many of `count` events fall on one day of a span of `days`. Over no
/// days at all, everything happened today: the rate is the count itself.
pub open spec fn per_day(count: nat, days: nat) -> nat {
    if days > 0 {
        count / days
    } else {
        count
    }
}

/// What share one rate is of another, in whole percent; 0 where the other
/// rate is 0.
pub open spec fn percentage(rate: nat, of_rate: nat) -> nat {
    if of_rate > 0 {
        rate * 100 / of_rate
    } else {
        0
    }
}

/// A number as a figure can hold it: no greater than `u64::MAX`.
pub open spec fn held(n: nat) -> nat {
    if n <= u64::MAX {
        n
    } else {
        u64::MAX as nat
    }
}

/// Counts the whole days from the date that an item bears under `key` up to
/// `latest`.
pub fn count_days(latest: i64, item: Option<&Json>, key: &str) -> (days: u64)
    ensures
        days == day_span(latest as int, view_of(item), key@),
{
    match item {
        Some(item) => match item.text_at(key) {
            Some(text) => match days_between(latest, text) {
                Some(days) => days,
                None => 0,
            },
            None => 0,
        },
        None => 0,
    }
}

/// Computes how many of `count` events fall on one day of a span of `days`.
pub fn rate_per_day(count: u64, days: u64) -> (rate: u64)
    ensures
        rate == per_day(count as nat, days as nat),
        rate <= count,
        days == 0 ==> rate == count,
{
    if days > 0 {
        proof {
            vstd::arithmetic::div_mod::lemma_div_is_ordered_by_denominator(
                count as int,
                1,
                days as int,
            );
        }
        count / days
    } else {
        count
    }
}

/// Computes what share `rate` is of `of_rate`, in whole percent. A share
/// beyond `u64::MAX` percent is held at `u64::MAX`.
pub fn percent_of(rate: u64, of_rate: u64) -> (percent: u64)
    ensures
        percent == held(percentage(rate as nat, of_rate as nat)),
        of_rate == 0 ==> percent == 0,
{
    if of_rate > 0 {
        let share: u128 = (rate as u128 * 100) / (of_rate as u128);
        if share <= u64::MAX as u128 {
            share as u64
        } else {
            u64::MAX
        }
    } else {
        0
    }
}

} // verus!
