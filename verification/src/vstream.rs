//! VStream chat: reading chat events out of the CBOR items that the chat
//! socket sends, and turning them into chat messages.
use vstd::prelude::*;

use crate::cbor::{cbor_decode_stream, decode_stream, get_int, get_text, lookup_int, lookup_text, CborValue};
use crate::chat_objects::{emote_views, Emote, EmoteView, Message, MessageView};
use crate::text::{
    chars_of, extend_chars, find, first_occurrence, lemma_first_occurrence, i8_to_decimal, signed_decimal, string_of,
};

verus! {

broadcast use vstd::string::group_string_axioms;

/// An emoji of a chat message: its text and its 28-pixel image.
pub struct Emoji {
    pub alt_text: String,
    pub size_28_src: String,
}

/// One piece of a chat message.
pub enum Node {
    Text(String),
    Emoji(Emoji),
}

/// The abstract value of a node.
pub ghost enum NodeView {
    Text(Seq<char>),
    /// The alternative text and the image URL.
    Emoji(Seq<char>, Seq<char>),
}

impl View for Node {
    type V = NodeView;

    open spec fn view(&self) -> NodeView {
        match self {
            Node::Text(t) => NodeView::Text(t@),
            Node::Emoji(e) => NodeView::Emoji(e.alt_text@, e.size_28_src@),
        }
    }
}

/// The author of a chat message.
pub struct Chatter {
    pub name: String,
}

/// A chat message as the socket reports it.
pub struct ChatEvent {
    pub nodes: Vec<Node>,
    pub chatter: Chatter,
    pub chatter_color: Vec<i8>,
}

/// The abstract value of a chat event.
pub ghost struct ChatEventView {
    pub nodes: Seq<NodeView>,
    pub chatter: Seq<char>,
    pub chatter_color: Seq<i8>,
}

impl View for ChatEvent {
    type V = ChatEventView;

    open spec fn view(&self) -> ChatEventView {
        ChatEventView {
            nodes: self.nodes@.map_values(|n: Node| n@),
            chatter: self.chatter.name@,
            chatter_color: self.chatter_color@,
        }
    }
}

/// The integers of a CBOR array, each truncated to a byte; other items are
/// skipped.
pub open spec fn colors_of(items: Seq<CborValue>) -> Seq<i8>
    decreases items.len(),
{
    if items.len() == 0 {
        Seq::empty()
    } else {
        let prev = colors_of(items.drop_last());
        match items.last() {
            CborValue::Integer(v) => prev.push(v as i8),
            _ => prev,
        }
    }
}

/// The colour of the author of a chat object: the integers under
/// `chatterColor`, or nothing where that is not an array.
pub open spec fn chat_color_of(chat: Seq<(CborValue, CborValue)>) -> Seq<i8> {
    match lookup_text(chat, "chatterColor"@) {
        Some(CborValue::Array(a)) => colors_of(a@),
        _ => Seq::empty(),
    }
}

/// The author's name: the text under key `5` of the map under `chatter`,
/// or the empty name.
pub open spec fn chatter_of(chat: Seq<(CborValue, CborValue)>) -> Seq<char> {
    match lookup_text(chat, "chatter"@) {
        Some(CborValue::Mapping(c)) => match lookup_int(c@, 5) {
            Some(CborValue::Text(n)) => n@,
            _ => Seq::empty(),
        },
        _ => Seq::empty(),
    }
}

/// The node that a CBOR item of a message's node list stands for: its type
/// is the text under key `-4`; text and link nodes carry their text or
/// target, a mention carries the name under key `5` behind an `@`, an
/// emoji carries its alternative text and image. Anything else is no node.
pub open spec fn node_of(v: CborValue) -> Option<NodeView> {
    match v {
        CborValue::Mapping(node) => match lookup_int(node@, -4) {
            Some(CborValue::Text(t)) => if t@ == "TextChatNode"@ {
                match lookup_text(node@, "text"@) {
                    Some(CborValue::Text(x)) => Some(NodeView::Text(x@)),
                    _ => None,
                }
            } else if t@ == "LinkChatNode"@ {
                match lookup_text(node@, "href"@) {
                    Some(CborValue::Text(x)) => Some(NodeView::Text(x@)),
                    _ => None,
                }
            } else if t@ == "MentionChatNode"@ {
                match lookup_int(node@, 5) {
                    Some(CborValue::Text(x)) => Some(NodeView::Text(seq!['@'] + x@)),
                    _ => None,
                }
            } else if t@ == "EmojiChatNode"@ {
                match lookup_text(node@, "emoji"@) {
                    Some(CborValue::Mapping(e)) => match lookup_text(e@, "altText"@) {
                        Some(CborValue::Text(a)) => match lookup_text(e@, "size28Src"@) {
                            Some(CborValue::Text(s)) => Some(NodeView::Emoji(a@, s@)),
                            _ => None,
                        },
                        _ => None,
                    },
                    _ => None,
                }
            } else {
                None
            },
            _ => None,
        },
        _ => None,
    }
}

/// The nodes that the items of a node list stand for, in order.
pub open spec fn nodes_of(items: Seq<CborValue>) -> Seq<NodeView>
    decreases items.len(),
{
    if items.len() == 0 {
        Seq::empty()
    } else {
        let prev = nodes_of(items.drop_last());
        match node_of(items.last()) {
            Some(n) => prev.push(n),
            None => prev,
        }
    }
}

/// The nodes of a chat object: those of the array under `nodes`.
pub open spec fn chat_nodes_of(chat: Seq<(CborValue, CborValue)>) -> Seq<NodeView> {
    match lookup_text(chat, "nodes"@) {
        Some(CborValue::Array(a)) => nodes_of(a@),
        _ => Seq::empty(),
    }
}

/// The chat event that a CBOR item stands for: a map whose type (key `-4`)
/// is `ChatCreatedEvent` and that holds a map under `chat`.
pub open spec fn chat_event_of(v: CborValue) -> Option<ChatEventView> {
    match v {
        CborValue::Mapping(obj) => match lookup_int(obj@, -4) {
            Some(CborValue::Text(t)) => if t@ != "ChatCreatedEvent"@ {
                None
            } else {
                match lookup_text(obj@, "chat"@) {
                    Some(CborValue::Mapping(chat)) => Some(
                        ChatEventView {
                            nodes: chat_nodes_of(chat@),
                            chatter: chatter_of(chat@),
                            chatter_color: chat_color_of(chat@),
                        },
                    ),
                    _ => None,
                }
            },
            _ => None,
        },
        _ => None,
    }
}

/// `v` is a map whose type, the text under the integer key `-4`, is
/// `ChatCreatedEvent`.
pub open spec fn is_chat_created(v: CborValue) -> bool {
    &&& v matches CborValue::Mapping(obj)
    &&& lookup_int(obj@, -4) matches Some(CborValue::Text(t))
    &&& t@ == "ChatCreatedEvent"@
}

/// Only a `ChatCreatedEvent` is a chat event: an item of any other type, or
/// none, gives no chat event and so no message.
pub proof fn law_only_created_events_are_chats(v: CborValue)
    ensures
        chat_event_of(v) is Some ==> is_chat_created(v),
        !is_chat_created(v) ==> chat_event_of(v) is None,
        !is_chat_created(v) ==> (chat_event_of(v) matches Some(e) ==> vstream_message_of(e) is None),
{
}

/// Reads the author's colour out of a chat object.
pub fn deserialize_chat_color(chat_obj: &Vec<(CborValue, CborValue)>) -> (res: Vec<i8>)
    ensures
        res@ == chat_color_of(chat_obj@),
{
    if let Some(CborValue::Array(chatter_color)) = get_text(chat_obj, "chatterColor") {
        let mut rv: Vec<i8> = Vec::new();
        let mut i: usize = 0;
        while i < chatter_color.len()
            invariant
                i <= chatter_color@.len(),
                rv@ == colors_of(chatter_color@.take(i as int)),
            decreases chatter_color@.len() - i,
        {
            assert(chatter_color@.take(i + 1).drop_last() =~= chatter_color@.take(i as int));
            if let CborValue::Integer(val) = &chatter_color[i] {
                rv.push(*val as i8);
            }
            i = i + 1;
        }
        assert(chatter_color@.take(i as int) =~= chatter_color@);
        return rv;
    }
    Vec::new()
}

/// Reads the author out of a chat object.
pub fn deserialize_chatter(chat_obj: &Vec<(CborValue, CborValue)>) -> (res: Chatter)
    ensures
        res.name@ == chatter_of(chat_obj@),
{
    if let Some(CborValue::Mapping(chatter)) = get_text(chat_obj, "chatter") {
        if let Some(CborValue::Text(name)) = get_int(chatter, 5) {
            return Chatter { name: name.clone() };
        }
    }
    Chatter { name: String::new() }
}

/// Reads one node of a message's node list.
pub fn deserialize_node(fake_node: &CborValue) -> (res: Option<Node>)
    ensures
        res matches Some(n) ==> node_of(*fake_node) == Some(n@),
        res is None ==> node_of(*fake_node) is None,
{
    if let CborValue::Mapping(node) = fake_node {
        if let Some(CborValue::Text(node_type)) = get_int(node, -4) {
            if *node_type == "TextChatNode".to_string() {
                if let Some(CborValue::Text(name)) = get_text(node, "text") {
                    return Some(Node::Text(name.clone()));
                }
            } else if *node_type == "LinkChatNode".to_string() {
                if let Some(CborValue::Text(href)) = get_text(node, "href") {
                    return Some(Node::Text(href.clone()));
                }
            } else if *node_type == "MentionChatNode".to_string() {
                if let Some(CborValue::Text(name)) = get_int(node, 5) {
                    let mut v: Vec<char> = Vec::new();
                    v.push('@');
                    let cs = chars_of(name.as_str());
                    extend_chars(&mut v, &cs);
                    assert(v@ =~= seq!['@'] + name@);
                    return Some(Node::Text(string_of(&v)));
                }
            } else if *node_type == "EmojiChatNode".to_string() {
                if let Some(CborValue::Mapping(emoji)) = get_text(node, "emoji") {
                    if let Some(CborValue::Text(alt_text)) = get_text(emoji, "altText") {
                        if let Some(CborValue::Text(src)) = get_text(emoji, "size28Src") {
                            return Some(
                                Node::Emoji(
                                    Emoji { alt_text: alt_text.clone(), size_28_src: src.clone() },
                                ),
                            );
                        }
                    }
                }
            }
        }
    }
    None
}

/// Reads the nodes of a chat object, skipping items that are no node.
pub fn deserialize_nodes(chat_obj: &Vec<(CborValue, CborValue)>) -> (res: Vec<Node>)
    ensures
        res@.map_values(|n: Node| n@) == chat_nodes_of(chat_obj@),
{
    if let Some(CborValue::Array(nodes)) = get_text(chat_obj, "nodes") {
        let mut parsed_nodes: Vec<Node> = Vec::new();
        let mut i: usize = 0;
        while i < nodes.len()
            invariant
                i <= nodes@.len(),
                parsed_nodes@.map_values(|n: Node| n@) == nodes_of(nodes@.take(i as int)),
            decreases nodes@.len() - i,
        {
            assert(nodes@.take(i + 1).drop_last() =~= nodes@.take(i as int));
            assert(nodes@.take(i + 1).last() == nodes@[i as int]);
            let ghost before = parsed_nodes@;
            if let Some(n) = deserialize_node(&nodes[i]) {
                parsed_nodes.push(n);
                assert(parsed_nodes@.map_values(|n: Node| n@) =~= before.map_values(
                    |n: Node| n@,
                ).push(n@));
            }
            i = i + 1;
        }
        assert(nodes@.take(i as int) =~= nodes@);
        return parsed_nodes;
    }
    assert(Seq::<Node>::empty().map_values(|n: Node| n@) =~= Seq::<NodeView>::empty());
    Vec::new()
}

/// Reads a chat event out of a CBOR item: `None` where the item is no
/// `ChatCreatedEvent` with a chat object.
pub fn deserialize_chat_event(raw_data: &CborValue) -> (res: Option<ChatEvent>)
    ensures
        res matches Some(e) ==> chat_event_of(*raw_data) == Some(e@),
        res is None ==> chat_event_of(*raw_data) is None,
        res is Some ==> is_chat_created(*raw_data),
{
    if let CborValue::Mapping(obj) = raw_data {
        if let Some(CborValue::Text(event_type_str)) = get_int(obj, -4) {
            if *event_type_str != "ChatCreatedEvent".to_string() {
                return None;
            }
            if let Some(CborValue::Mapping(chat_obj)) = get_text(obj, "chat") {
                return Some(
                    ChatEvent {
                        nodes: deserialize_nodes(chat_obj),
                        chatter: deserialize_chatter(chat_obj),
                        chatter_color: deserialize_chat_color(chat_obj),
                    },
                );
            }
        }
    }
    None
}

/// The text that a node contributes to a message: its text, or an emoji's
/// alternative text.
pub open spec fn node_text(n: NodeView) -> Seq<char> {
    match n {
        NodeView::Text(t) => t,
        NodeView::Emoji(alt, _) => alt,
    }
}

/// The text of a message: the texts of its nodes, one after the other.
pub open spec fn nodes_text(ns: Seq<NodeView>) -> Seq<char>
    decreases ns.len(),
{
    if ns.len() == 0 {
        Seq::empty()
    } else {
        nodes_text(ns.drop_last()) + node_text(ns.last())
    }
}

/// The emote that an emoji node shows.
pub open spec fn node_emote(n: NodeView) -> Option<EmoteView> {
    match n {
        NodeView::Text(_) => None,
        NodeView::Emoji(alt, src) => Some(EmoteView { url: src, name: alt }),
    }
}

/// The emotes of a message's emoji nodes, each (URL, name) pair once, in
/// the order of first appearance.
pub open spec fn distinct_emotes(ns: Seq<NodeView>) -> Seq<EmoteView>
    decreases ns.len(),
{
    if ns.len() == 0 {
        Seq::empty()
    } else {
        let prev = distinct_emotes(ns.drop_last());
        match node_emote(ns.last()) {
            Some(e) => if prev.contains(e) {
                prev
            } else {
                prev.push(e)
            },
            None => prev,
        }
    }
}

/// No emote of a message's emote list occurs twice.
pub proof fn lemma_distinct_emotes_unique(ns: Seq<NodeView>)
    ensures
        distinct_emotes(ns).no_duplicates(),
    decreases ns.len(),
{
    if ns.len() > 0 {
        lemma_distinct_emotes_unique(ns.drop_last());
        let prev = distinct_emotes(ns.drop_last());
        if let Some(e) = node_emote(ns.last()) {
            if !prev.contains(e) {
                assert forall|i: int, j: int|
                    0 <= i < prev.push(e).len() && 0 <= j < prev.push(e).len() && i != j implies
                    prev.push(e)[i] != prev.push(e)[j] by {
                    if i == prev.len() {
                        assert(prev[j] == prev.push(e)[j]);
                    } else if j == prev.len() {
                        assert(prev[i] == prev.push(e)[i]);
                    }
                }
            }
        }
    }
}

/// The message that a VStream chat event becomes: `None` where the author's
/// colour has fewer than three components.
pub open spec fn vstream_message_of(chat: ChatEventView) -> Option<MessageView> {
    if chat.chatter_color.len() < 3 {
        None
    } else {
        Some(
            MessageView {
                message: nodes_text(chat.nodes),
                raw_message: nodes_text(chat.nodes),
                username: chat.chatter,
                user_color_r: signed_decimal(chat.chatter_color[0] as int),
                user_color_g: signed_decimal(chat.chatter_color[1] as int),
                user_color_b: signed_decimal(chat.chatter_color[2] as int),
                from: "vstream"@,
                source_badge_large: "https://vstream.com/favicon_32.png"@,
                source_badge_small: "https://vstream.com/favicon_128.png"@,
                user_badges: Seq::empty(),
                message_emotes: distinct_emotes(chat.nodes),
            },
        )
    }
}

fn contains_emote(emotes: &Vec<Emote>, url: &String, name: &String) -> (res: bool)
    ensures
        res == emote_views(emotes@).contains(EmoteView { url: url@, name: name@ }),
{
    let ghost target = EmoteView { url: url@, name: name@ };
    let ghost views = emote_views(emotes@);
    let mut i: usize = 0;
    while i < emotes.len()
        invariant
            i <= emotes@.len(),
            views == emote_views(emotes@),
            target == (EmoteView { url: url@, name: name@ }),
            forall|j: int| 0 <= j < i ==> views[j] != target,
        decreases emotes@.len() - i,
    {
        let same_url = emotes[i].url == *url;
        let same_name = emotes[i].name == *name;
        assert(views[i as int] == emotes@[i as int]@);
        if same_url && same_name {
            assert(views[i as int] == target);
            return true;
        }
        i = i + 1;
    }
    false
}

/// The message that a chat event becomes, as the VStream source publishes
/// it: the node texts joined, the emoji nodes' emotes without repeats, the
/// colour components in decimal.
pub fn vstream_chat_message(chat: ChatEvent) -> (res: Option<Message>)
    ensures
        res matches Some(m) ==> vstream_message_of(chat@) == Some(m@),
        res is None ==> vstream_message_of(chat@) is None,
        res matches Some(m) ==> m@.message_emotes.no_duplicates(),
{
    if chat.chatter_color.len() < 3 {
        return None;
    }
    let ghost ns = chat@.nodes;
    let mut text: Vec<char> = Vec::new();
    let mut emotes: Vec<Emote> = Vec::new();
    let mut i: usize = 0;
    while i < chat.nodes.len()
        invariant
            i <= chat.nodes@.len(),
            ns == chat.nodes@.map_values(|n: Node| n@),
            text@ == nodes_text(ns.take(i as int)),
            emote_views(emotes@) == distinct_emotes(ns.take(i as int)),
        decreases chat.nodes@.len() - i,
    {
        assert(ns.take(i + 1).drop_last() =~= ns.take(i as int));
        assert(ns.take(i + 1).last() == chat.nodes@[i as int]@);
        match &chat.nodes[i] {
            Node::Text(t) => {
                let cs = chars_of(t.as_str());
                extend_chars(&mut text, &cs);
            },
            Node::Emoji(e) => {
                let cs = chars_of(e.alt_text.as_str());
                extend_chars(&mut text, &cs);
                if !contains_emote(&emotes, &e.size_28_src, &e.alt_text) {
                    let ghost before = emotes@;
                    emotes.push(Emote { url: e.size_28_src.clone(), name: e.alt_text.clone() });
                    assert(emote_views(emotes@) =~= emote_views(before).push(
                        EmoteView { url: e.size_28_src@, name: e.alt_text@ },
                    ));
                }
            },
        }
        i = i + 1;
    }
    assert(ns.take(i as int) =~= ns);
    proof {
        lemma_distinct_emotes_unique(ns);
    }
    let text_s = string_of(&text);
    let raw = text_s.clone();
    let r = i8_to_decimal(chat.chatter_color[0]);
    let g = i8_to_decimal(chat.chatter_color[1]);
    let b = i8_to_decimal(chat.chatter_color[2]);
    let m = Message {
        message: text_s,
        raw_message: raw,
        username: chat.chatter.name,
        user_color_r: r,
        user_color_g: g,
        user_color_b: b,
        from: "vstream".to_string(),
        source_badge_large: "https://vstream.com/favicon_32.png".to_string(),
        source_badge_small: "https://vstream.com/favicon_128.png".to_string(),
        user_badges: Vec::new(),
        message_emotes: emotes,
    };
    assert(m@.user_badges =~= Seq::<Seq<char>>::empty());
    Some(m)
}

/// The message that a CBOR item from the chat socket becomes, if any.
pub fn vstream_message(value: &CborValue) -> (res: Option<Message>)
    ensures
        res matches Some(m) ==> (chat_event_of(*value) matches Some(e) && vstream_message_of(e)
            == Some(m@)),
        res is None ==> (chat_event_of(*value) matches Some(e) ==> vstream_message_of(e) is None),
{
    match deserialize_chat_event(value) {
        Some(chat) => vstream_chat_message(chat),
        None => None,
    }
}

/// The messages that a run of CBOR items becomes, in order.
pub open spec fn vstream_messages_of(items: Seq<CborValue>) -> Seq<MessageView>
    decreases items.len(),
{
    if items.len() == 0 {
        Seq::empty()
    } else {
        let prev = vstream_messages_of(items.drop_last());
        match chat_event_of(items.last()) {
            Some(e) => match vstream_message_of(e) {
                Some(m) => prev.push(m),
                None => prev,
            },
            None => prev,
        }
    }
}

/// The messages in a binary frame from the chat socket: the frame's CBOR
/// items are decoded one after the other, and each chat event among them
/// becomes a message.
pub fn vstream_messages(bytes: &[u8]) -> (res: Vec<Message>)
    ensures
        res@.map_values(|m: Message| m@) == vstream_messages_of(cbor_decode_stream(bytes@)),
{
    let items = decode_stream(bytes);
    let mut res: Vec<Message> = Vec::new();
    let mut i: usize = 0;
    while i < items.len()
        invariant
            i <= items@.len(),
            res@.map_values(|m: Message| m@) == vstream_messages_of(items@.take(i as int)),
        decreases items@.len() - i,
    {
        assert(items@.take(i + 1).drop_last() =~= items@.take(i as int));
        assert(items@.take(i + 1).last() == items@[i as int]);
        let ghost before = res@;
        if let Some(m) = vstream_message(&items[i]) {
            res.push(m);
            assert(res@.map_values(|m: Message| m@) =~= before.map_values(|m: Message| m@).push(
                m@,
            ));
        }
        i = i + 1;
    }
    assert(items@.take(i as int) =~= items@);
    res
}

/// The page that embeds the chat of a stream.
pub open spec fn chat_popout_url_of(stream_id: Seq<char>) -> Seq<char> {
    "https://vstream.com/v/"@ + stream_id + "/chat-popout"@
}

/// The address of the page that embeds the chat of a stream.
pub fn chat_popout_url(stream_id: &str) -> (res: String)
    ensures
        res@ == chat_popout_url_of(stream_id@),
{
    let mut v = chars_of("https://vstream.com/v/");
    let id = chars_of(stream_id);
    let tail = chars_of("/chat-popout");
    extend_chars(&mut v, &id);
    extend_chars(&mut v, &tail);
    string_of(&v)
}

/// The chat socket's address in the chat page: from the first `wss` to the
/// first `","channelProfile`; `None` where either is missing or the second
/// comes first.
pub open spec fn ws_url_of(page: Seq<char>) -> Option<Seq<char>> {
    match (first_occurrence(page, "wss"@), first_occurrence(page, "\",\"channelProfile"@)) {
        (Some(start), Some(end)) => if start <= end {
            Some(page.subrange(start, end))
        } else {
            None
        },
        _ => None,
    }
}

/// Finds the chat socket's address in the chat page.
pub fn extract_ws_url(page: &str) -> (res: Option<String>)
    ensures
        res matches Some(u) ==> ws_url_of(page@) == Some(u@),
        res is None ==> ws_url_of(page@) is None,
{
    let text = chars_of(page);
    let open = chars_of("wss");
    let close = chars_of("\",\"channelProfile");
    let start = find(&text, &open);
    let end = find(&text, &close);
    match (start, end) {
        (Some(s), Some(e)) => {
            if s <= e {
                proof {
                    lemma_first_occurrence(text@, close@);
                }
                let mut v: Vec<char> = Vec::new();
                assert(v@ =~= text@.subrange(s as int, s as int));
                let mut k: usize = s;
                while k < e
                    invariant
                        s <= k <= e,
                        e <= text@.len(),
                        v@ == text@.subrange(s as int, k as int),
                    decreases e - k,
                {
                    v.push(text[k]);
                    k = k + 1;
                    assert(v@ =~= text@.subrange(s as int, k as int));
                }
                Some(string_of(&v))
            } else {
                None
            }
        },
        _ => None,
    }
}

} // verus!
