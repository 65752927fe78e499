//! Twitch chat: turning a chat line and its emotes into a chat message.
use vstd::prelude::*;

use crate::chat_objects::{emote_views, Emote, EmoteView, Message, MessageView};
use crate::text::{chars_of, extend_chars, hex_byte, hex_of_byte, replace, replace_all, string_of};

verus! {

broadcast use vstd::string::group_string_axioms;

/// An emote of a Twitch chat line: its Twitch id and the word it replaces.
pub struct TwitchEmote {
    pub id: String,
    pub code: String,
}

/// A colour as red, green and blue bytes.
#[derive(Clone, Copy, Debug, PartialEq, Eq, Structural)]
pub struct RgbColor {
    pub r: u8,
    pub g: u8,
    pub b: u8,
}

/// The colour of an author who has not chosen one.
pub open spec fn default_name_color() -> RgbColor {
    RgbColor { r: 144, g: 70, b: 255 }
}

/// The image of a Twitch emote.
pub open spec fn twitch_emote_url(id: Seq<char>) -> Seq<char> {
    "https://static-cdn.jtvnw.net/emoticons/v1/"@ + id + "/3.0"@
}

/// The HTML that shows the image at `url`.
pub open spec fn img_tag(url: Seq<char>) -> Seq<char> {
    "<img src='"@ + url + "'>"@
}

/// The chat line with every emote's word replaced by its image, one emote
/// after the other.
pub open spec fn twitch_text(text: Seq<char>, emotes: Seq<(Seq<char>, Seq<char>)>) -> Seq<char>
    decreases emotes.len(),
{
    if emotes.len() == 0 {
        text
    } else {
        replace_all(
            twitch_text(text, emotes.drop_last()),
            emotes.last().1,
            img_tag(twitch_emote_url(emotes.last().0)),
        )
    }
}

/// The (id, word) pairs of a line's emotes.
pub open spec fn emote_pairs(emotes: Seq<TwitchEmote>) -> Seq<(Seq<char>, Seq<char>)> {
    emotes.map_values(|e: TwitchEmote| (e.id@, e.code@))
}

/// The emotes of a message, from a line's (id, word) pairs.
pub open spec fn twitch_emotes(pairs: Seq<(Seq<char>, Seq<char>)>) -> Seq<EmoteView> {
    pairs.map_values(|p: (Seq<char>, Seq<char>)| EmoteView { url: twitch_emote_url(p.0), name: p.1 })
}

/// The message that a Twitch chat line becomes.
pub open spec fn twitch_message_of(
    text: Seq<char>,
    sender: Seq<char>,
    emotes: Seq<(Seq<char>, Seq<char>)>,
    color: RgbColor,
) -> MessageView {
    MessageView {
        message: twitch_text(text, emotes),
        raw_message: text,
        username: sender,
        user_color_r: hex_byte(color.r),
        user_color_g: hex_byte(color.g),
        user_color_b: hex_byte(color.b),
        from: "Twitch"@,
        source_badge_large: "https://static.twitchcdn.net/assets/favicon-32-e29e246c157142c94346.png"@,
        source_badge_small: "https://static.twitchcdn.net/assets/favicon-16-52e571ffea063af7a7f4.png"@,
        user_badges: Seq::empty(),
        message_emotes: twitch_emotes(emotes),
    }
}

/// Builds the message of a Twitch chat line: every emote's word becomes
/// its image, and the author's colour (violet where none was chosen)
/// becomes three two-digit hexadecimal numbers.
pub fn twitch_message(
    message_text: String,
    sender_name: String,
    emotes: &Vec<TwitchEmote>,
    name_color: Option<RgbColor>,
) -> (res: Message)
    ensures
        res@ == twitch_message_of(
            message_text@,
            sender_name@,
            emote_pairs(emotes@),
            match name_color {
                Some(c) => c,
                None => default_name_color(),
            },
        ),
        res@.user_color_r.len() == 2,
        res@.user_color_g.len() == 2,
        res@.user_color_b.len() == 2,
{
    let ghost pairs = emote_pairs(emotes@);
    let mut text = chars_of(message_text.as_str());
    let mut out: Vec<Emote> = Vec::new();
    let prefix = chars_of("https://static-cdn.jtvnw.net/emoticons/v1/");
    let suffix = chars_of("/3.0");
    let open_tag = chars_of("<img src='");
    let close_tag = chars_of("'>");
    let mut i: usize = 0;
    while i < emotes.len()
        invariant
            i <= emotes@.len(),
            pairs == emote_pairs(emotes@),
            prefix@ == "https://static-cdn.jtvnw.net/emoticons/v1/"@,
            suffix@ == "/3.0"@,
            open_tag@ == "<img src='"@,
            close_tag@ == "'>"@,
            text@ == twitch_text(message_text@, pairs.take(i as int)),
            emote_views(out@) == twitch_emotes(pairs.take(i as int)),
        decreases emotes@.len() - i,
    {
        let e = &emotes[i];
        let mut url = prefix.clone();
        let id = chars_of(e.id.as_str());
        extend_chars(&mut url, &id);
        extend_chars(&mut url, &suffix);
        assert(url@ =~= twitch_emote_url(e.id@));
        let mut html = open_tag.clone();
        extend_chars(&mut html, &url);
        extend_chars(&mut html, &close_tag);
        assert(html@ =~= img_tag(twitch_emote_url(e.id@)));
        let code = chars_of(e.code.as_str());
        let ghost before = out@;
        out.push(Emote { url: string_of(&url), name: e.code.clone() });
        text = replace(&text, &code, &html);
        assert(pairs.take(i + 1).drop_last() =~= pairs.take(i as int));
        assert(pairs.take(i + 1).last() == (e.id@, e.code@));
        let ghost ev = EmoteView { url: twitch_emote_url(e.id@), name: e.code@ };
        assert(emote_views(out@) =~= emote_views(before).push(ev));
        assert(twitch_emotes(pairs.take(i + 1)) =~= twitch_emotes(pairs.take(i as int)).push(ev));
        i = i + 1;
    }
    assert(pairs.take(i as int) =~= pairs);
    let color = match name_color {
        Some(c) => c,
        None => RgbColor { r: 144, g: 70, b: 255 },
    };
    let m = Message {
        from: "Twitch".to_string(),
        source_badge_large: "https://static.twitchcdn.net/assets/favicon-32-e29e246c157142c94346.png".to_string(),
        source_badge_small: "https://static.twitchcdn.net/assets/favicon-16-52e571ffea063af7a7f4.png".to_string(),
        message: string_of(&text),
        raw_message: message_text,
        username: sender_name,
        user_color_r: hex_of_byte(color.r),
        user_color_g: hex_of_byte(color.g),
        user_color_b: hex_of_byte(color.b),
        user_badges: Vec::new(),
        message_emotes: out,
    };
    assert(m@.user_badges =~= Seq::<Seq<char>>::empty());
    m
}

/// Each emote of a line, in turn, changes the line as `str::replace`
/// would: every occurrence of its word in the line so far, after the
/// emotes before it, becomes its image; with no emotes the line is as it
/// was.
pub proof fn law_twitch_emotes_replace_in_turn(
    text: Seq<char>,
    emotes: Seq<(Seq<char>, Seq<char>)>,
    e: (Seq<char>, Seq<char>),
)
    ensures
        twitch_text(text, Seq::empty()) == text,
        twitch_text(text, emotes.push(e)) == replace_all(
            twitch_text(text, emotes),
            e.1,
            img_tag(twitch_emote_url(e.0)),
        ),
{
    assert(emotes.push(e).drop_last() =~= emotes);
}

} // verus!
