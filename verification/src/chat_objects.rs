//! The chat message that every source publishes, and the emotes inside it.
use vstd::prelude::*;
use vstd::std_specs::cmp::PartialEqSpecImpl;

verus! {

/// An emote: an image shown in place of a word of a chat message.
/// Two emotes are equal when their names are equal, whatever their URLs.
#[derive(Debug, Clone, Eq)]
pub struct Emote {
    pub url: String,
    pub name: String,
}

/// The abstract value of an emote.
pub ghost struct EmoteView {
    pub url: Seq<char>,
    pub name: Seq<char>,
}

impl View for Emote {
    type V = EmoteView;

    open spec fn view(&self) -> EmoteView {
        EmoteView { url: self.url@, name: self.name@ }
    }
}

impl PartialEq for Emote {
    fn eq(&self, other: &Self) -> (res: bool) {
        self.name == other.name
    }
}

impl PartialEqSpecImpl for Emote {
    open spec fn obeys_eq_spec() -> bool {
        true
    }

    open spec fn eq_spec(&self, other: &Emote) -> bool {
        self.name@ == other.name@
    }
}

/// The abstract values of a list of emotes.
pub open spec fn emote_views(s: Seq<Emote>) -> Seq<EmoteView> {
    s.map_values(|e: Emote| e@)
}

/// The abstract values of a list of strings.
pub open spec fn string_views(s: Seq<String>) -> Seq<Seq<char>> {
    s.map_values(|b: String| b@)
}

/// A chat message as every source publishes it to the exchange.
#[derive(Debug, Clone)]
pub struct Message {
    /// The message as HTML, with emotes as images.
    pub message: String,
    /// The message as its author wrote it.
    pub raw_message: String,
    pub username: String,
    pub user_color_r: String,
    pub user_color_g: String,
    pub user_color_b: String,
    /// The source that generated this message.
    pub from: String,
    pub source_badge_large: String,
    pub source_badge_small: String,
    pub user_badges: Vec<String>,
    pub message_emotes: Vec<Emote>,
}

/// The abstract value of a message.
pub ghost struct MessageView {
    pub message: Seq<char>,
    pub raw_message: Seq<char>,
    pub username: Seq<char>,
    pub user_color_r: Seq<char>,
    pub user_color_g: Seq<char>,
    pub user_color_b: Seq<char>,
    pub from: Seq<char>,
    pub source_badge_large: Seq<char>,
    pub source_badge_small: Seq<char>,
    pub user_badges: Seq<Seq<char>>,
    pub message_emotes: Seq<EmoteView>,
}

impl View for Message {
    type V = MessageView;

    open spec fn view(&self) -> MessageView {
        MessageView {
            message: self.message@,
            raw_message: self.raw_message@,
            username: self.username@,
            user_color_r: self.user_color_r@,
            user_color_g: self.user_color_g@,
            user_color_b: self.user_color_b@,
            from: self.from@,
            source_badge_large: self.source_badge_large@,
            source_badge_small: self.source_badge_small@,
            user_badges: string_views(self.user_badges@),
            message_emotes: emote_views(self.message_emotes@),
        }
    }
}

} // verus!
