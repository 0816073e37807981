//! The present of an export. An export bears no date of its own making, so
//! the latest moment found in it stands for the present.

use vstd::prelude::*;
use crate::date_utils::{date_to_unix_timestamp, timestamp_of};
use crate::json::{item_views, listed, Json, JsonView};

verus! {

/// The date text of an item: what it bears under `Date`; an item without a
/// member of that name is read under `date` instead.
pub open spec fn item_date(item: JsonView) -> Option<Seq<char>> {
    match item.member("Date"@) {
        Some(value) => value.text(),
        None => item.text_at("date"@),
    }
}

/// The moment of an item, where it has a date text that names one.
pub open spec fn item_moment(item: JsonView) -> Option<i64> {
    match item_date(item) {
        Some(text) => timestamp_of(text),
        None => None,
    }
}

/// The later of two moments, either of which may be missing.
pub open spec fn later_of(a: Option<i64>, b: Option<i64>) -> Option<i64> {
    match (a, b) {
        (Some(x), Some(y)) => Some(
            if x < y {
                y
            } else {
                x
            },
        ),
        (Some(x), None) => Some(x),
        (None, _) => b,
    }
}

/// The latest moment among some items; none where no item has a moment.
pub open spec fn newest(items: Seq<JsonView>) -> Option<i64>
    decreases items.len(),
{
    if items.len() == 0 {
        None
    } else {
        later_of(newest(items.drop_last()), item_moment(items.last()))
    }
}

/// The latest moment in the histories of logins, of watched videos and of
/// likes taken together; 0 where none of them holds a moment.
pub open spec fn latest_moment(doc: JsonView) -> i64 {
    match later_of(
        later_of(newest(doc.login_history()), newest(doc.watch_history())),
        newest(doc.liked_items()),
    ) {
        Some(moment) => moment,
        None => 0,
    }
}

/// The latest moment among some items is the moment of one of them, and no
/// item has a later one. There is none exactly where no item has a moment.
pub proof fn lemma_newest_is_greatest(items: Seq<JsonView>)
    ensures
        forall|i: int|
            0 <= i < items.len() ==> (#[trigger] item_moment(items[i]) matches Some(moment)
                ==> newest(items) matches Some(top) && moment <= top),
        newest(items) matches Some(top) ==> exists|i: int|
            0 <= i < items.len() && #[trigger] item_moment(items[i]) == Some(top),
    decreases items.len(),
{
    if items.len() > 0 {
        let front = items.drop_last();
        lemma_newest_is_greatest(front);
        assert forall|i: int| 0 <= i < items.len() implies (#[trigger] item_moment(
            items[i],
        ) matches Some(moment) ==> newest(items) matches Some(top) && moment <= top) by {
            if i < front.len() {
                assert(front[i] == items[i]);
            }
        }
    }
}

/// Picks the later of two moments, either of which may be missing.
pub fn pick_later(a: Option<i64>, b: Option<i64>) -> (later: Option<i64>)
    ensures
        later == later_of(a, b),
{
    match (a, b) {
        (Some(x), Some(y)) => if x < y {
            Some(y)
        } else {
            Some(x)
        },
        (Some(x), None) => Some(x),
        (None, _) => b,
    }
}

/// Reads the date text of an item.
pub fn read_item_date<'a>(item: &'a Json) -> (date: Option<&'a str>)
    ensures
        match date {
            Some(date) => item_date(item@) == Some(date@),
            None => item_date(item@) is None,
        },
{
    match item.get("Date") {
        Some(value) => value.as_str(),
        None => item.text_at("date"),
    }
}

/// The later of a moment found so far, if any, and the latest moment of a
/// list.
fn newest_with(so_far: Option<i64>, items: Option<&Vec<Json>>) -> (found: Option<i64>)
    ensures
        found == later_of(so_far, newest(listed(items))),
{
    let items = match items {
        Some(items) => items,
        None => {
            return so_far;
        },
    };
    let ghost all = item_views(items@);
    let mut top: Option<i64> = None;
    let mut i: usize = 0;
    while i < items.len()
        invariant
            i <= items.len(),
            all == item_views(items@),
            top == newest(all.take(i as int)),
        decreases items.len() - i,
    {
        proof {
            assert(all.take(i + 1).drop_last() == all.take(i as int));
        }
        let moment = match read_item_date(&items[i]) {
            Some(date) => date_to_unix_timestamp(date),
            None => None,
        };
        top = pick_later(top, moment);
        i += 1;
    }
    assert(all.take(i as int) == all);
    pick_later(so_far, top)
}

/// Finds the moment that stands for the present: the latest in the
/// histories of logins, of watched videos and of likes, or 0 where there is
/// none.
pub fn find_latest_timestamp(data: &Json) -> (latest: i64)
    ensures
        latest == latest_moment(data@),
{
    let logins = newest_with(
        None,
        data.list("Your Activity", "Login History", "LoginHistoryList"),
    );
    let watched = newest_with(logins, data.list("Your Activity", "Watch History", "VideoList"));
    let liked = newest_with(watched, data.list("Your Activity", "Like List", "ItemFavoriteList"));
    match liked {
        Some(latest) => latest,
        None => 0,
    }
}

} // verus!
