//! Direct messages: how many there are in each chat.

use vstd::prelude::*;
use crate::json::{member_views, Json, JsonView};
use crate::stats::{names_distinct, with_entry, CategoryStats};

verus! {

/// The number of leading characters that a long chat name loses.
pub const CHAT_PREFIX_LENGTH: usize = 17;

/// The name under which a chat is counted: a name of more than 17 characters
/// loses its first 17 and is led by `Chat with` instead; a shorter one stays
/// as it is.
pub open spec fn cleaned_name(name: Seq<char>) -> Seq<char> {
    if name.len() > 17 {
        "Chat with"@ + name.skip(17)
    } else {
        name
    }
}

/// The messages of each chat, counted under the chat's cleaned name. The
/// chats are taken in the order in which the export lists them; one that is
/// no array is passed over, and where two chats come to bear the same name,
/// the later count takes the place of the earlier.
pub open spec fn message_counts(chats: Seq<(Seq<char>, JsonView)>) -> Seq<(Seq<char>, nat)>
    decreases chats.len(),
{
    if chats.len() == 0 {
        Seq::empty()
    } else {
        let before = message_counts(chats.drop_last());
        let (name, chat) = chats.last();
        if chat is Array {
            with_entry(before, cleaned_name(name), chat.items().len())
        } else {
            before
        }
    }
}

/// No name is borne twice among the counts of messages.
pub proof fn lemma_message_counts_distinct(chats: Seq<(Seq<char>, JsonView)>)
    ensures
        names_distinct(message_counts(chats)),
    decreases chats.len(),
{
    if chats.len() > 0 {
        lemma_message_counts_distinct(chats.drop_last());
    }
}

/// Cleans the name of a chat.
pub fn clean_chat_name(name: &str) -> (cleaned: String)
    ensures
        cleaned@ == cleaned_name(name@),
        name@.len() <= 17 ==> cleaned@ == name@,
        name@.len() > 17 ==> cleaned@ == "Chat with"@ + name@.skip(17),
{
    let length = name.unicode_len();
    if length > CHAT_PREFIX_LENGTH {
        let rest = name.substring_char(CHAT_PREFIX_LENGTH, length);
        String::from_str("Chat with").concat(rest)
    } else {
        String::from_str(name)
    }
}

/// Counts the messages of each chat.
pub fn private_messages(data: &Json) -> (counts: CategoryStats)
    ensures
        counts@ == message_counts(data@.chats()),
{
    let mut counts = CategoryStats::new();
    let history = match data.descend("Direct Message", "Direct Messages", "ChatHistory") {
        Some(history) => history,
        None => {
            return counts;
        },
    };
    let chats = match history.as_object() {
        Some(chats) => chats,
        None => {
            return counts;
        },
    };
    let ghost all = member_views(chats@);
    let mut i: usize = 0;
    while i < chats.len()
        invariant
            i <= chats.len(),
            all == member_views(chats@),
            counts@ == message_counts(all.take(i as int)),
        decreases chats.len() - i,
    {
        proof {
            assert(all.take(i + 1).drop_last() == all.take(i as int));
        }
        match chats[i].1.as_array() {
            Some(messages) => {
                let name = clean_chat_name(chats[i].0.as_str());
                counts.insert(name, messages.len() as u64);
            },
            None => {},
        }
        i += 1;
    }
    assert(all.take(i as int) == all);
    counts
}

} // verus!
