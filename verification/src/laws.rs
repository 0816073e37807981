//! What holds of the figures whatever the export: laws of day spans, rates
//! and percentages, each proved from the definitions that the contracts of
//! the library use.

use vstd::prelude::*;
use crate::categories::{audience, favorite_stats, like_stats, login_stats, watch_stats};
use crate::date_utils::{days_since, timestamp_of};
use crate::export::{held, per_day, percentage};
use crate::json::JsonView;
use crate::messages::message_counts;
use crate::resolver::{item_moment, latest_moment, lemma_newest_is_greatest, newest};
use crate::spans::{comment_span, like_span, message_span, watch_span};

verus! {

/// The days from a dated text up to a reference moment are none where the
/// reference lies before the text's moment; otherwise they are the seconds
/// between the two, divided by 86 400 and rounded down. They are never
/// negative. A text that names no moment has no such days.
pub proof fn lemma_days_since(reference: int, text: Seq<char>)
    ensures
        timestamp_of(text) is None ==> days_since(reference, text) is None,
        timestamp_of(text) matches Some(past) ==> days_since(reference, text) matches Some(days)
            && days >= 0 && (reference < past ==> days == 0) && (reference >= past ==> days == (
        reference - past) / 86_400),
{
}

/// The moment that stands for the present is no earlier than the moment of
/// any login, watched video or like. It is the moment of one of them, or 0
/// where none of them has a moment.
pub proof fn lemma_latest_moment(doc: JsonView)
    ensures
        forall|i: int|
            0 <= i < doc.login_history().len() ==> (#[trigger] item_moment(
                doc.login_history()[i],
            ) matches Some(moment) ==> moment <= latest_moment(doc)),
        forall|i: int|
            0 <= i < doc.watch_history().len() ==> (#[trigger] item_moment(
                doc.watch_history()[i],
            ) matches Some(moment) ==> moment <= latest_moment(doc)),
        forall|i: int|
            0 <= i < doc.liked_items().len() ==> (#[trigger] item_moment(
                doc.liked_items()[i],
            ) matches Some(moment) ==> moment <= latest_moment(doc)),
        ({
            ||| exists|i: int|
                0 <= i < doc.login_history().len() && #[trigger] item_moment(
                    doc.login_history()[i],
                ) == Some(latest_moment(doc))
            ||| exists|i: int|
                0 <= i < doc.watch_history().len() && #[trigger] item_moment(
                    doc.watch_history()[i],
                ) == Some(latest_moment(doc))
            ||| exists|i: int|
                0 <= i < doc.liked_items().len() && #[trigger] item_moment(doc.liked_items()[i])
                    == Some(latest_moment(doc))
            ||| (latest_moment(doc) == 0 && newest(doc.login_history()) is None && newest(
                doc.watch_history(),
            ) is None && newest(doc.liked_items()) is None)
        }),
{
    lemma_newest_is_greatest(doc.login_history());
    lemma_newest_is_greatest(doc.watch_history());
    lemma_newest_is_greatest(doc.liked_items());
}

/// A place that is missing, or that holds something other than an array,
/// lists nothing.
pub proof fn lemma_absent_list_is_empty(
    doc: JsonView,
    first: Seq<char>,
    second: Seq<char>,
    third: Seq<char>,
)
    ensures
        doc.descend(first, second, third) is None ==> doc.list(first, second, third).len() == 0,
        doc.descend(first, second, third) matches Some(found) && !(found is Array) ==> doc.list(
            first,
            second,
            third,
        ).len() == 0,
{
}

/// Without logins, every figure on logins is 0.
pub proof fn lemma_no_logins(latest: int, doc: JsonView)
    requires
        doc.login_history().len() == 0,
    ensures
        login_stats(latest, doc) == seq![
            ("Days since 1st login"@, 0nat),
            ("Openings"@, 0nat),
            ("Launches per day"@, 0nat),
        ],
{
}

/// Without watched videos, every figure on watched videos is 0.
pub proof fn lemma_no_videos(latest: int, doc: JsonView)
    requires
        doc.watch_history().len() == 0,
    ensures
        watch_stats(latest, doc) == seq![
            ("Days since 1st video"@, 0nat),
            ("Videos watched"@, 0nat),
            ("Watched per day"@, 0nat),
        ],
{
}

/// Without likes, every figure on likes is 0.
pub proof fn lemma_no_likes(latest: int, doc: JsonView)
    requires
        doc.liked_items().len() == 0,
    ensures
        like_stats(latest, doc) == seq![
            ("Videos liked"@, 0nat),
            ("Days since oldest like"@, 0nat),
            ("Likes per day"@, 0nat),
            ("Liked videos percentage"@, 0nat),
        ],
{
}

/// Without favorites, published videos, chats or events, every count is 0,
/// no chat is counted and no span is reported.
pub proof fn lemma_nothing_listed(doc: JsonView)
    ensures
        doc.favorite_effects().len() == 0 ==> favorite_stats(doc)[0].1 == 0,
        doc.favorite_hashtags().len() == 0 ==> favorite_stats(doc)[1].1 == 0,
        doc.favorite_sounds().len() == 0 ==> favorite_stats(doc)[2].1 == 0,
        doc.favorite_videos().len() == 0 ==> favorite_stats(doc)[3].1 == 0,
        doc.published_videos().len() == 0 ==> audience(doc)[0].1 == 0,
        doc.chats().len() == 0 ==> message_counts(doc.chats()).len() == 0,
        doc.chats().len() == 0 ==> message_span(doc) is None,
        doc.comment_list().len() == 0 ==> comment_span(doc) is None,
        doc.liked_items().len() == 0 ==> like_span(doc) is None,
        doc.watch_history().len() == 0 ==> watch_span(doc) is None,
{
}

/// Over a span of no days, a rate per day is the count itself.
pub proof fn lemma_rate_falls_back(count: nat)
    ensures
        per_day(count, 0) == count,
{
}

/// In each category that has a rate per day, the rate is the count itself
/// where the category's day span is 0.
pub proof fn lemma_rates_fall_back(latest: int, doc: JsonView)
    ensures
        login_stats(latest, doc)[0].1 == 0 ==> login_stats(latest, doc)[2].1 == login_stats(
            latest,
            doc,
        )[1].1,
        watch_stats(latest, doc)[0].1 == 0 ==> watch_stats(latest, doc)[2].1 == watch_stats(
            latest,
            doc,
        )[1].1,
        like_stats(latest, doc)[1].1 == 0 ==> like_stats(latest, doc)[2].1 == like_stats(
            latest,
            doc,
        )[0].1,
{
}

/// The percentage of liked videos is the share that the likes per day are
/// of the videos watched per day, as far as a figure can hold it. It is 0
/// where no video is watched per day.
pub proof fn lemma_liked_percentage(latest: int, doc: JsonView)
    ensures
        like_stats(latest, doc)[3].1 == held(
            percentage(like_stats(latest, doc)[2].1, watch_stats(latest, doc)[2].1),
        ),
        watch_stats(latest, doc)[2].1 == 0 ==> like_stats(latest, doc)[3].1 == 0,
{
}

/// A percentage is 0 where the rate that it is taken of is 0. Otherwise it
/// is the hundredfold of the one rate divided by the other, rounded down and
/// by no more than that rounding away from it. It never falls when the rate
/// grows.
pub proof fn lemma_percentage(rate: nat, greater: nat, of_rate: nat)
    requires
        rate <= greater,
    ensures
        percentage(rate, 0) == 0,
        percentage(rate, of_rate) >= 0,
        of_rate > 0 ==> percentage(rate, of_rate) * of_rate <= rate * 100 < (percentage(
            rate,
            of_rate,
        ) + 1) * of_rate,
        percentage(rate, of_rate) <= percentage(greater, of_rate),
        held(percentage(rate, of_rate)) <= held(percentage(greater, of_rate)),
{
    if of_rate > 0 {
        let d = of_rate as int;
        vstd::arithmetic::div_mod::lemma_fundamental_div_mod(rate as int * 100, d);
        vstd::arithmetic::div_mod::lemma_mod_bound(rate as int * 100, d);
        assert(d * (rate as int * 100 / d) == (rate as int * 100 / d) * d) by (nonlinear_arith);
        assert(((rate * 100 / of_rate) + 1) * of_rate == (rate * 100 / of_rate) * of_rate
            + of_rate) by (nonlinear_arith);
        vstd::arithmetic::div_mod::lemma_div_is_ordered(
            rate as int * 100,
            greater as int * 100,
            d,
        );
    }
}

} // verus!
