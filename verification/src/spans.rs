//! The first and the last event of a category. Each list of an export keeps
//! its own order; what is reported is always the earliest event first and
//! the latest event last.

use vstd::prelude::*;
use crate::date_utils::{date_to_unix_timestamp, timestamp_of};
use crate::json::{
    first_item, item_views, last_item, listed, member_views, view_of, Json, JsonView,
};
use crate::{span_view, ActivityItem, ActivityView, DateInfo, DateInfoView};

verus! {

/// What is shown of an item: the text that it bears under `date_key`, or
/// nothing where it bears none, and the text that it bears under
/// `content_key`, or `missing` where it bears none.
pub open spec fn activity(
    item: JsonView,
    date_key: Seq<char>,
    content_key: Seq<char>,
    missing: Seq<char>,
) -> ActivityView {
    ActivityView {
        date: match item.text_at(date_key) {
            Some(date) => date,
            None => Seq::empty(),
        },
        content: match item.text_at(content_key) {
            Some(content) => content,
            None => missing,
        },
    }
}

/// The span of a list that keeps its oldest item first; none of an empty
/// list.
pub open spec fn span_oldest_first(
    items: Seq<JsonView>,
    date_key: Seq<char>,
    content_key: Seq<char>,
    missing: Seq<char>,
) -> Option<DateInfoView> {
    if items.len() == 0 {
        None
    } else {
        Some(
            DateInfoView {
                first: activity(items.first(), date_key, content_key, missing),
                last: activity(items.last(), date_key, content_key, missing),
            },
        )
    }
}

/// The span of a list that keeps its newest item first; none of an empty
/// list.
pub open spec fn span_newest_first(
    items: Seq<JsonView>,
    date_key: Seq<char>,
    content_key: Seq<char>,
    missing: Seq<char>,
) -> Option<DateInfoView> {
    if items.len() == 0 {
        None
    } else {
        Some(
            DateInfoView {
                first: activity(items.last(), date_key, content_key, missing),
                last: activity(items.first(), date_key, content_key, missing),
            },
        )
    }
}

/// The first and the last comment, each with its text.
pub open spec fn comment_span(doc: JsonView) -> Option<DateInfoView> {
    span_oldest_first(doc.comment_list(), "date"@, "comment"@, ""@)
}

/// The first and the last like, each with the link of the liked video.
pub open spec fn like_span(doc: JsonView) -> Option<DateInfoView> {
    span_newest_first(doc.liked_items(), "date"@, "link"@, ""@)
}

/// The first and the last watched video, each with its link, or with
/// `No link found` where it has none.
pub open spec fn watch_span(doc: JsonView) -> Option<DateInfoView> {
    span_newest_first(doc.watch_history(), "Date"@, "Link"@, "No link found"@)
}

/// Reads what is shown of an item.
pub fn read_activity(item: &Json, date_key: &str, content_key: &str, missing: &str) -> (shown:
    ActivityItem)
    ensures
        shown@ == activity(item@, date_key@, content_key@, missing@),
{
    let date = match item.text_at(date_key) {
        Some(date) => String::from_str(date),
        None => String::new(),
    };
    let content = match item.text_at(content_key) {
        Some(content) => String::from_str(content),
        None => String::from_str(missing),
    };
    ActivityItem { date, content }
}

/// Reads the span of a list from its two ends: the earliest item and the
/// latest item.
fn read_span(
    earliest: Option<&Json>,
    latest: Option<&Json>,
    date_key: &str,
    content_key: &str,
    missing: &str,
) -> (info: Option<DateInfo>)
    ensures
        span_view(info) == match (view_of(earliest), view_of(latest)) {
            (Some(earliest), Some(latest)) => Some(
                DateInfoView {
                    first: activity(earliest, date_key@, content_key@, missing@),
                    last: activity(latest, date_key@, content_key@, missing@),
                },
            ),
            _ => None,
        },
{
    match (earliest, latest) {
        (Some(earliest), Some(latest)) => Some(
            DateInfo {
                first: read_activity(earliest, date_key, content_key, missing),
                last: read_activity(latest, date_key, content_key, missing),
            },
        ),
        _ => None,
    }
}

/// Finds the first and the last comment. The comments are listed oldest
/// first.
pub fn get_comment_info(data: &Json) -> (info: Option<DateInfo>)
    ensures
        span_view(info) == comment_span(data@),
{
    let comments = data.list("Comment", "Comments", "CommentsList");
    read_span(first_item(comments), last_item(comments), "date", "comment", "")
}

/// Finds the first and the last like. The likes are listed newest first.
pub fn get_like_info(data: &Json) -> (info: Option<DateInfo>)
    ensures
        span_view(info) == like_span(data@),
{
    let liked = data.list("Your Activity", "Like List", "ItemFavoriteList");
    read_span(last_item(liked), first_item(liked), "date", "link", "")
}

/// Finds the first and the last watched video. The videos are listed newest
/// first.
pub fn get_watch_info(data: &Json) -> (info: Option<DateInfo>)
    ensures
        span_view(info) == watch_span(data@),
{
    let watched = data.list("Your Activity", "Watch History", "VideoList");
    read_span(last_item(watched), first_item(watched), "Date", "Link", "No link found")
}

/// A message with the moment that its date names.
pub struct Dated {
    pub seconds: int,
    pub item: ActivityView,
}

/// What is shown of a message: the chat that it stands in, then its text.
pub open spec fn message_text(chat_name: Seq<char>, content: Seq<char>) -> Seq<char> {
    "(in "@ + chat_name + ") "@ + content
}

/// A message of the chat named `chat_name` with its moment, where it bears a
/// text under `Date` that names one. Its text is what it bears under
/// `Content`, or nothing.
pub open spec fn dated_message(chat_name: Seq<char>, message: JsonView) -> Option<Dated> {
    match message.text_at("Date"@) {
        Some(date) => match timestamp_of(date) {
            Some(seconds) => Some(
                Dated {
                    seconds: seconds as int,
                    item: ActivityView {
                        date,
                        content: message_text(
                            chat_name,
                            match message.text_at("Content"@) {
                                Some(content) => content,
                                None => Seq::empty(),
                            },
                        ),
                    },
                },
            ),
            None => None,
        },
        None => None,
    }
}

/// Those of the messages of one chat that have a moment, in order.
pub open spec fn dated_in_chat(chat_name: Seq<char>, messages: Seq<JsonView>) -> Seq<Dated>
    decreases messages.len(),
{
    if messages.len() == 0 {
        Seq::empty()
    } else {
        let before = dated_in_chat(chat_name, messages.drop_last());
        match dated_message(chat_name, messages.last()) {
            Some(dated) => before.push(dated),
            None => before,
        }
    }
}

/// Those of the messages of all chats that have a moment: chat after chat in
/// the order of the export, and within a chat in the order of its messages.
pub open spec fn dated_messages(chats: Seq<(Seq<char>, JsonView)>) -> Seq<Dated>
    decreases chats.len(),
{
    if chats.len() == 0 {
        Seq::empty()
    } else {
        dated_messages(chats.drop_last()) + dated_in_chat(
            chats.last().0,
            chats.last().1.items(),
        )
    }
}

/// Whether the message at `i` is the earliest of all: none is earlier, and
/// none before it is as early.
pub open spec fn is_earliest(all: Seq<Dated>, i: int) -> bool {
    &&& 0 <= i < all.len()
    &&& forall|j: int| 0 <= j < all.len() ==> all[i].seconds <= (#[trigger] all[j]).seconds
    &&& forall|j: int| 0 <= j < i ==> all[i].seconds < (#[trigger] all[j]).seconds
}

/// Whether the message at `i` is the latest of all: none is later, and none
/// before it is as late.
pub open spec fn is_latest(all: Seq<Dated>, i: int) -> bool {
    &&& 0 <= i < all.len()
    &&& forall|j: int| 0 <= j < all.len() ==> all[i].seconds >= (#[trigger] all[j]).seconds
    &&& forall|j: int| 0 <= j < i ==> all[i].seconds > (#[trigger] all[j]).seconds
}

/// The earliest and the latest of some dated messages; none where there is
/// no message.
pub open spec fn extremes(all: Seq<Dated>) -> Option<DateInfoView> {
    if all.len() == 0 {
        None
    } else {
        Some(
            DateInfoView {
                first: all[choose|i: int| is_earliest(all, i)].item,
                last: all[choose|i: int| is_latest(all, i)].item,
            },
        )
    }
}

/// The first and the last direct message over all chats together.
pub open spec fn message_span(doc: JsonView) -> Option<DateInfoView> {
    extremes(dated_messages(doc.chats()))
}

/// Only one message is the earliest, and only one the latest.
pub proof fn lemma_extremes_unique(all: Seq<Dated>, i: int, k: int)
    ensures
        is_earliest(all, i) && is_earliest(all, k) ==> i == k,
        is_latest(all, i) && is_latest(all, k) ==> i == k,
{
    // Of two places, the later one would have to be strictly beyond the
    // earlier one, which is itself at least as far.
    if is_earliest(all, i) && is_earliest(all, k) {
        if i < k {
            assert(all[i].seconds <= all[k].seconds);
        } else if k < i {
            assert(all[k].seconds <= all[i].seconds);
        }
    }
    if is_latest(all, i) && is_latest(all, k) {
        if i < k {
            assert(all[i].seconds >= all[k].seconds);
        } else if k < i {
            assert(all[k].seconds >= all[i].seconds);
        }
    }
}

/// Among dated messages, where there is any, one is the earliest and one is
/// the latest.
pub proof fn lemma_extremes_exist(all: Seq<Dated>)
    requires
        all.len() > 0,
    ensures
        exists|i: int| is_earliest(all, i),
        exists|k: int| is_latest(all, k),
        extremes(all) matches Some(span) && (forall|i: int| #[trigger]
            is_earliest(all, i) ==> span.first == all[i].item) && (forall|k: int| #[trigger]
            is_latest(all, k) ==> span.last == all[k].item),
    decreases all.len(),
{
    if all.len() == 1 {
        assert(is_earliest(all, 0));
        assert(is_latest(all, 0));
    } else {
        let front = all.drop_last();
        let n = front.len() as int;
        lemma_extremes_exist(front);
        let i = choose|i: int| is_earliest(front, i);
        let k = choose|k: int| is_latest(front, k);
        if all[n].seconds < front[i].seconds {
            assert forall|j: int| 0 <= j < n implies all[n].seconds < (#[trigger] all[j]).seconds by {
                assert(front[i].seconds <= front[j].seconds);
            }
            assert(is_earliest(all, n));
        } else {
            assert forall|j: int| 0 <= j < all.len() implies all[i].seconds <= (
            #[trigger] all[j]).seconds by {
                if j < n {
                    assert(front[i].seconds <= front[j].seconds);
                }
            }
            assert forall|j: int| 0 <= j < i implies all[i].seconds < (#[trigger] all[j]).seconds by {
                assert(front[i].seconds < front[j].seconds);
            }
            assert(is_earliest(all, i));
        }
        if all[n].seconds > front[k].seconds {
            assert forall|j: int| 0 <= j < n implies all[n].seconds > (#[trigger] all[j]).seconds by {
                assert(front[k].seconds >= front[j].seconds);
            }
            assert(is_latest(all, n));
        } else {
            assert forall|j: int| 0 <= j < all.len() implies all[k].seconds >= (
            #[trigger] all[j]).seconds by {
                if j < n {
                    assert(front[k].seconds >= front[j].seconds);
                }
            }
            assert forall|j: int| 0 <= j < k implies all[k].seconds > (#[trigger] all[j]).seconds by {
                assert(front[k].seconds > front[j].seconds);
            }
            assert(is_latest(all, k));
        }
    }
}

/// The earliest and the latest of the dated messages taken so far.
pub struct SpanFinder {
    first: Option<ActivityItem>,
    last: Option<ActivityItem>,
    earliest: i64,
    latest: i64,
    taken: Ghost<Seq<Dated>>,
}

impl View for SpanFinder {
    type V = Seq<Dated>;

    /// The messages taken so far, in the order in which they were taken.
    closed spec fn view(&self) -> Seq<Dated> {
        self.taken@
    }
}

impl SpanFinder {
    #[verifier::type_invariant]
    spec fn holds_extremes(self) -> bool {
        if self@.len() == 0 {
            self.first is None && self.last is None
        } else {
            &&& self.first matches Some(first)
            &&& self.last matches Some(last)
            &&& exists|i: int|
                is_earliest(self@, i) && (#[trigger] self@[i]).seconds == self.earliest
                    && self@[i].item == first@
            &&& exists|k: int|
                is_latest(self@, k) && (#[trigger] self@[k]).seconds == self.latest && self@[k].item
                    == last@
        }
    }

    /// A finder that has taken no message yet.
    pub fn new() -> (finder: Self)
        ensures
            finder@ == Seq::<Dated>::empty(),
    {
        SpanFinder { first: None, last: None, earliest: 0, latest: 0, taken: Ghost(Seq::empty()) }
    }

    /// Takes one more message, dated `seconds`.
    pub fn take(self, seconds: i64, item: ActivityItem) -> (finder: Self)
        ensures
            finder@ == self@.push(Dated { seconds: seconds as int, item: item@ }),
    {
        proof {
            use_type_invariant(&self);
        }
        let ghost seen = self@;
        let ghost dated = Dated { seconds: seconds as int, item: item@ };
        let ghost longer = seen.push(dated);
        let ghost n = seen.len() as int;
        let earlier = match &self.first {
            Some(_) => seconds < self.earliest,
            None => true,
        };
        let later = match &self.last {
            Some(_) => seconds > self.latest,
            None => true,
        };
        proof {
            // The new message stands last. It is the earliest, or the latest,
            // exactly where it is taken for it; otherwise the one found
            // before stays.
            assert(longer[n] == dated);
            if n > 0 {
                let i = choose|i: int|
                    is_earliest(seen, i) && (#[trigger] seen[i]).seconds == self.earliest
                        && seen[i].item == self.first.unwrap()@;
                let k = choose|k: int|
                    is_latest(seen, k) && (#[trigger] seen[k]).seconds == self.latest
                        && seen[k].item == self.last.unwrap()@;
                assert forall|j: int| 0 <= j < n implies (#[trigger] longer[j]) == seen[j] by {}
                if earlier {
                    assert(is_earliest(longer, n));
                } else {
                    assert(is_earliest(longer, i));
                    assert(longer[i].item == self.first.unwrap()@);
                }
                if later {
                    assert(is_latest(longer, n));
                } else {
                    assert(is_latest(longer, k));
                    assert(longer[k].item == self.last.unwrap()@);
                }
            } else {
                assert(is_earliest(longer, 0));
                assert(is_latest(longer, 0));
            }
        }
        let (first, earliest) = if earlier {
            (Some(item.clone()), seconds)
        } else {
            (self.first, self.earliest)
        };
        let (last, latest) = if later {
            (Some(item), seconds)
        } else {
            (self.last, self.latest)
        };
        SpanFinder { first, last, earliest, latest, taken: Ghost(longer) }
    }

    /// The earliest and the latest of the messages taken; none where no
    /// message was taken.
    pub fn finish(self) -> (info: Option<DateInfo>)
        ensures
            span_view(info) == extremes(self@),
    {
        proof {
            use_type_invariant(&self);
            if self@.len() > 0 {
                lemma_extremes_exist(self@);
            }
        }
        match (self.first, self.last) {
            (Some(first), Some(last)) => Some(DateInfo { first, last }),
            _ => None,
        }
    }
}

/// Reads a message of the chat named `chat_name` with its moment.
pub fn read_dated_message(chat_name: &str, message: &Json) -> (dated: Option<(i64, ActivityItem)>)
    ensures
        match dated {
            Some((seconds, item)) => dated_message(chat_name@, message@) == Some(
                Dated { seconds: seconds as int, item: item@ },
            ),
            None => dated_message(chat_name@, message@) is None,
        },
{
    let date = match message.text_at("Date") {
        Some(date) => date,
        None => {
            return None;
        },
    };
    let seconds = match date_to_unix_timestamp(date) {
        Some(seconds) => seconds,
        None => {
            return None;
        },
    };
    let mut shown = String::from_str("(in ");
    shown.append(chat_name);
    shown.append(") ");
    match message.text_at("Content") {
        Some(content) => {
            shown.append(content);
        },
        None => {},
    }
    assert(shown@ =~= message_text(
        chat_name@,
        match message@.text_at("Content"@) {
            Some(content) => content,
            None => Seq::empty(),
        },
    ));
    Some((seconds, ActivityItem { date: String::from_str(date), content: shown }))
}

/// Finds the first and the last direct message over all chats together. A
/// message without a date that names a moment is passed over. Of several
/// messages at the same earliest or latest moment, the one that the export
/// lists first is taken.
pub fn get_dm_info(data: &Json) -> (info: Option<DateInfo>)
    ensures
        span_view(info) == message_span(data@),
{
    let mut finder = SpanFinder::new();
    let chats = match data.descend("Direct Message", "Direct Messages", "ChatHistory") {
        Some(history) => history.as_object(),
        None => None,
    };
    match chats {
        Some(chats) => {
            let ghost all = member_views(chats@);
            let mut i: usize = 0;
            while i < chats.len()
                invariant
                    i <= chats.len(),
                    all == member_views(chats@),
                    finder@ == dated_messages(all.take(i as int)),
                decreases chats.len() - i,
            {
                let chat_name = chats[i].0.as_str();
                let ghost before = finder@;
                proof {
                    assert(all.take(i + 1).drop_last() == all.take(i as int));
                }
                match chats[i].1.as_array() {
                    Some(messages) => {
                        let ghost these = item_views(messages@);
                        let mut j: usize = 0;
                        while j < messages.len()
                            invariant
                                j <= messages.len(),
                                these == item_views(messages@),
                                finder@ == before + dated_in_chat(chat_name@, these.take(j as int)),
                            decreases messages.len() - j,
                        {
                            proof {
                                assert(these.take(j + 1).drop_last() == these.take(j as int));
                            }
                            match read_dated_message(chat_name, &messages[j]) {
                                Some((seconds, item)) => {
                                    finder = finder.take(seconds, item);
                                },
                                None => {},
                            }
                            j += 1;
                        }
                        assert(these.take(j as int) == these);
                    },
                    None => {},
                }
                i += 1;
            }
            assert(all.take(i as int) == all);
        },
        None => {},
    }
    finder.finish()
}

} // verus!
