//! YouTube chat: the chat page of a stream and the message that a chat
//! line read from it becomes.
use vstd::prelude::*;

use crate::chat_objects::{emote_views, Emote, Message, MessageView};
use crate::text::{chars_of, extend_chars, string_of};

verus! {

broadcast use vstd::string::group_string_axioms;

/// The pop-out chat page of a stream.
pub open spec fn live_chat_url_of(stream_id: Seq<char>) -> Seq<char> {
    "https://www.youtube.com/live_chat?is_popout=1&v="@ + stream_id
}

/// The address of the pop-out chat page of a stream.
pub fn live_chat_url(stream_id: &str) -> (res: String)
    ensures
        res@ == live_chat_url_of(stream_id@),
{
    let mut v = chars_of("https://www.youtube.com/live_chat?is_popout=1&v=");
    let id = chars_of(stream_id);
    extend_chars(&mut v, &id);
    string_of(&v)
}

/// The message that a line of the chat page becomes.
pub open spec fn youtube_message_of(
    message: Seq<char>,
    raw_message: Seq<char>,
    username: Seq<char>,
    emotes: Seq<Emote>,
) -> MessageView {
    MessageView {
        message,
        raw_message,
        username,
        user_color_r: "FF"@,
        user_color_g: "00"@,
        user_color_b: "00"@,
        from: "Youtube"@,
        source_badge_large: "https://www.youtube.com/s/desktop/f9ccd8c6/img/favicon_32x32.png"@,
        source_badge_small: "https://www.youtube.com/s/desktop/f9ccd8c6/img/favicon.ico"@,
        user_badges: Seq::empty(),
        message_emotes: emote_views(emotes),
    }
}

/// Builds the message of a line of the chat page: the line's HTML, its
/// text, its author and its emotes, in red, from YouTube.
pub fn youtube_message(
    message: String,
    raw_message: String,
    username: String,
    emotes: Vec<Emote>,
) -> (res: Message)
    ensures
        res@ == youtube_message_of(message@, raw_message@, username@, emotes@),
{
    let m = Message {
        message,
        raw_message,
        username,
        user_color_r: "FF".to_string(),
        user_color_g: "00".to_string(),
        user_color_b: "00".to_string(),
        from: "Youtube".to_string(),
        source_badge_large: "https://www.youtube.com/s/desktop/f9ccd8c6/img/favicon_32x32.png".to_string(),
        source_badge_small: "https://www.youtube.com/s/desktop/f9ccd8c6/img/favicon.ico".to_string(),
        user_badges: Vec::new(),
        message_emotes: emotes,
    };
    assert(m@.user_badges =~= Seq::<Seq<char>>::empty());
    m
}

} // verus!
