//! A value written out as JSON text in its most compact form, and the name
//! of the user, which is read off that text.

use vstd::prelude::*;
use crate::json::{
    item_views, lemma_array_view, lemma_object_view, member_views, Json, JsonView,
};
use crate::text::chars_of;

verus! {

/// The hexadecimal digit, in lower case, for a number below sixteen.
pub open spec fn hex_digit(d: int) -> char {
    if d < 10 {
        ('0' as int + d) as char
    } else {
        ('a' as int + d - 10) as char
    }
}

/// How one character of a text stands between the quotes of a JSON text: the
/// quote and the backslash behind a backslash, a control character by its
/// short escape or, where it has none, as `\u00` and two hexadecimal digits,
/// any other character as itself.
pub open spec fn escaped_char(c: char) -> Seq<char> {
    if c == '"' {
        seq!['\\', '"']
    } else if c == '\\' {
        seq!['\\', '\\']
    } else if c == '\u{8}' {
        seq!['\\', 'b']
    } else if c == '\u{c}' {
        seq!['\\', 'f']
    } else if c == '\n' {
        seq!['\\', 'n']
    } else if c == '\r' {
        seq!['\\', 'r']
    } else if c == '\t' {
        seq!['\\', 't']
    } else if (c as int) < 0x20 {
        seq!['\\', 'u', '0', '0', hex_digit(c as int / 16), hex_digit(c as int % 16)]
    } else {
        seq![c]
    }
}

/// A text with each of its characters escaped.
pub open spec fn escaped(text: Seq<char>) -> Seq<char>
    decreases text.len(),
{
    if text.len() == 0 {
        Seq::empty()
    } else {
        escaped(text.drop_last()) + escaped_char(text.last())
    }
}

/// A text as JSON writes it: escaped, between two quotes.
pub open spec fn quoted(text: Seq<char>) -> Seq<char> {
    seq!['"'] + escaped(text) + seq!['"']
}

/// A value as compact JSON text: no space anywhere outside a text, a number
/// by the text that it is kept as, the items of an array and the members of
/// an object in their order, parted by commas.
pub open spec fn compact(value: JsonView) -> Seq<char>
    decreases value, 0nat,
{
    match value {
        JsonView::Null => "null"@,
        JsonView::Bool(b) => if b {
            "true"@
        } else {
            "false"@
        },
        JsonView::Number(digits) => digits,
        JsonView::Text(text) => quoted(text),
        JsonView::Array(items) => seq!['['] + compact_items(items, items.len()) + seq![']'],
        JsonView::Object(members) => seq!['{'] + compact_members(members, members.len()) + seq![
            '}',
        ],
    }
}

/// The first `n` items of an array as compact JSON text, parted by commas.
pub open spec fn compact_items(items: Seq<JsonView>, n: nat) -> Seq<char>
    decreases items, n,
{
    if n == 0 || n > items.len() {
        Seq::empty()
    } else if n == 1 {
        compact(items[0])
    } else {
        compact_items(items, (n - 1) as nat) + seq![','] + compact(items[n - 1])
    }
}

/// One member of an object as compact JSON text: its name, a colon, its
/// value.
pub open spec fn compact_member(members: Seq<(Seq<char>, JsonView)>, i: int) -> Seq<char>
    decreases members, 0nat, 0nat,
{
    if 0 <= i < members.len() {
        quoted(members[i].0) + seq![':'] + compact(members[i].1)
    } else {
        Seq::empty()
    }
}

/// The first `n` members of an object as compact JSON text, parted by
/// commas.
pub open spec fn compact_members(members: Seq<(Seq<char>, JsonView)>, n: nat) -> Seq<char>
    decreases members, 1nat, n,
{
    if n == 0 || n > members.len() {
        Seq::empty()
    } else if n == 1 {
        compact_member(members, 0)
    } else {
        compact_members(members, (n - 1) as nat) + seq![','] + compact_member(members, n - 1)
    }
}

/// A text without its double quotes.
pub open spec fn without_quotes(text: Seq<char>) -> Seq<char>
    decreases text.len(),
{
    if text.len() == 0 {
        Seq::empty()
    } else if text.last() == '"' {
        without_quotes(text.drop_last())
    } else {
        without_quotes(text.drop_last()).push(text.last())
    }
}

/// The name of the user: the compact JSON text of what the profile holds
/// under `userName`, or of `null` where it holds nothing there, without its
/// double quotes.
pub open spec fn user_name(doc: JsonView) -> Seq<char> {
    without_quotes(
        compact(
            match doc.descend("Profile"@, "Profile Info"@, "userName"@) {
                Some(value) => value,
                None => JsonView::Null,
            },
        ),
    )
}

/// Whether a character stands for itself in JSON text: it is no quote, no
/// backslash and no control character.
pub open spec fn is_plain(c: char) -> bool {
    c != '"' && c != '\\' && (c as int) >= 0x20
}

/// A text of plain characters is escaped as itself.
pub proof fn lemma_escaped_plain(text: Seq<char>)
    requires
        forall|i: int| 0 <= i < text.len() ==> is_plain(#[trigger] text[i]),
    ensures
        escaped(text) == text,
    decreases text.len(),
{
    if text.len() > 0 {
        lemma_escaped_plain(text.drop_last());
    }
}

/// Taking the quotes out of two texts in a row is taking them out of each.
pub proof fn lemma_without_quotes_of_two(front: Seq<char>, back: Seq<char>)
    ensures
        without_quotes(front + back) == without_quotes(front) + without_quotes(back),
    decreases back.len(),
{
    if back.len() > 0 {
        lemma_without_quotes_of_two(front, back.drop_last());
        assert((front + back).drop_last() == front + back.drop_last());
    }
}

/// A text without quotes stays as it is when the quotes are taken out.
pub proof fn lemma_without_quotes_of_none(text: Seq<char>)
    requires
        forall|i: int| 0 <= i < text.len() ==> #[trigger] text[i] != '"',
    ensures
        without_quotes(text) == text,
    decreases text.len(),
{
    if text.len() > 0 {
        lemma_without_quotes_of_none(text.drop_last());
    }
}

/// Where the profile holds a text of plain characters under `userName`,
/// that text is the name of the user.
pub proof fn lemma_plain_user_name(doc: JsonView, name: Seq<char>)
    requires
        doc.descend("Profile"@, "Profile Info"@, "userName"@) == Some(JsonView::Text(name)),
        forall|i: int| 0 <= i < name.len() ==> is_plain(#[trigger] name[i]),
    ensures
        user_name(doc) == name,
{
    lemma_escaped_plain(name);
    let quote = seq!['"'];
    assert(without_quotes(quote) =~= Seq::<char>::empty()) by {
        assert(without_quotes(quote.drop_last()) =~= Seq::<char>::empty());
    }
    lemma_without_quotes_of_two(quote + name, quote);
    lemma_without_quotes_of_two(quote, name);
    lemma_without_quotes_of_none(name);
}

/// The hexadecimal digit for a number below sixteen.
fn hex_digit_of(d: u8) -> (c: char)
    requires
        d < 16,
    ensures
        c == hex_digit(d as int),
{
    if d < 10 {
        (d + 48u8) as char
    } else {
        (d + 87u8) as char
    }
}

/// Appends one character of a text as it stands between the quotes of a
/// JSON text.
fn write_escaped_char(c: char, out: &mut String)
    ensures
        final(out)@ == old(out)@ + escaped_char(c),
{
    if c == '"' {
        out.push('\\');
        out.push('"');
    } else if c == '\\' {
        out.push('\\');
        out.push('\\');
    } else if c == '\u{8}' {
        out.push('\\');
        out.push('b');
    } else if c == '\u{c}' {
        out.push('\\');
        out.push('f');
    } else if c == '\n' {
        out.push('\\');
        out.push('n');
    } else if c == '\r' {
        out.push('\\');
        out.push('r');
    } else if c == '\t' {
        out.push('\\');
        out.push('t');
    } else if (c as u32) < 0x20 {
        let code: u8 = c as u8;
        out.push('\\');
        out.push('u');
        out.push('0');
        out.push('0');
        out.push(hex_digit_of(code / 16));
        out.push(hex_digit_of(code % 16));
    } else {
        out.push(c);
    }
}

/// Appends a text as JSON writes it.
pub fn write_quoted(text: &str, out: &mut String)
    ensures
        final(out)@ == old(out)@ + quoted(text@),
{
    let ghost start = out@;
    let chars = chars_of(text);
    out.push('"');
    let mut i: usize = 0;
    while i < chars.len()
        invariant
            i <= chars.len(),
            out@ == start + seq!['"'] + escaped(chars@.take(i as int)),
        decreases chars.len() - i,
    {
        proof {
            assert(chars@.take(i + 1).drop_last() == chars@.take(i as int));
        }
        write_escaped_char(chars[i], out);
        i += 1;
    }
    assert(chars@.take(i as int) == chars@);
    out.push('"');
}

/// Appends a value as compact JSON text.
pub fn write_compact(value: &Json, out: &mut String)
    ensures
        final(out)@ == old(out)@ + compact(value@),
    decreases value,
{
    let ghost start = out@;
    match value {
        Json::Null => {
            out.append("null");
        },
        Json::Bool(b) => {
            if *b {
                out.append("true");
            } else {
                out.append("false");
            }
        },
        Json::Number(digits) => {
            out.append(digits.as_str());
        },
        Json::Text(text) => {
            write_quoted(text.as_str(), out);
        },
        Json::Array(items) => {
            proof {
                lemma_array_view(*items);
            }
            let ghost all = item_views(items@);
            out.push('[');
            let mut i: usize = 0;
            while i < items.len()
                invariant
                    i <= items.len(),
                    all == item_views(items@),
                    value == Json::Array(*items),
                    out@ == start + seq!['['] + compact_items(all, i as nat),
                decreases items.len() - i,
            {
                if i > 0 {
                    out.push(',');
                }
                proof {
                    assert(decreases_to!(*value => value->Array_0));
                }
                write_compact(&items[i], out);
                i += 1;
            }
            out.push(']');
        },
        Json::Object(members) => {
            proof {
                lemma_object_view(*members);
            }
            let ghost all = member_views(members@);
            out.push('{');
            let mut i: usize = 0;
            while i < members.len()
                invariant
                    i <= members.len(),
                    all == member_views(members@),
                    value == Json::Object(*members),
                    out@ == start + seq!['{'] + compact_members(all, i as nat),
                decreases members.len() - i,
            {
                if i > 0 {
                    out.push(',');
                }
                write_quoted(members[i].0.as_str(), out);
                out.push(':');
                proof {
                    assert(decreases_to!(*value => value->Object_0));
                }
                write_compact(&members[i].1, out);
                assert(compact_member(all, i as int) == quoted(members[i as int].0@) + seq![':']
                    + compact(members[i as int].1@));
                i += 1;
            }
            out.push('}');
        },
    }
}

/// Takes the double quotes out of a text.
pub fn strip_quotes(text: &str) -> (stripped: String)
    ensures
        stripped@ == without_quotes(text@),
{
    let chars = chars_of(text);
    let mut stripped = String::new();
    let mut i: usize = 0;
    while i < chars.len()
        invariant
            i <= chars.len(),
            stripped@ == without_quotes(chars@.take(i as int)),
        decreases chars.len() - i,
    {
        proof {
            assert(chars@.take(i + 1).drop_last() == chars@.take(i as int));
        }
        if chars[i] != '"' {
            stripped.push(chars[i]);
        }
        i += 1;
    }
    assert(chars@.take(i as int) == chars@);
    stripped
}

/// Reads the name of the user.
pub fn read_user_name(data: &Json) -> (name: String)
    ensures
        name@ == user_name(data@),
{
    let mut written = String::new();
    match data.descend("Profile", "Profile Info", "userName") {
        Some(value) => {
            write_compact(value, &mut written);
        },
        None => {
            write_compact(&Json::Null, &mut written);
        },
    }
    strip_quotes(written.as_str())
}

} // verus!
