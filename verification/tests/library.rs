use std::collections::BTreeMap;

use serde_cbor::Value;
use streamcore::cbor::{decode_stream, CborValue};
use streamcore::chat_objects::{Emote, Message};
use streamcore::config::{add_config, remove_config, stream_to_ingest, Config, ConfigItem};
use streamcore::message_client::{
    BasicChannelCallback, BasicConnectionCallback, Client, ClientRegistry, OpenAction, OpenEvent,
};
use streamcore::string_map::StringMap;
use streamcore::text::{chars_of, find, hex_of_byte, i8_to_decimal, parse_port, replace, string_of};
use streamcore::trovo::{build_emote_table, emote_words, trovo_message, trovo_message_from_captures, TrovoEmote};
use streamcore::twitch::{twitch_message, RgbColor, TwitchEmote};
use streamcore::vstream::{
    chat_popout_url, deserialize_chat_event, extract_ws_url, vstream_chat_message, vstream_messages,
    ChatEvent, Chatter, Emoji, Node,
};
use streamcore::youtube::{live_chat_url, youtube_message};

fn s(x: &str) -> String {
    x.to_string()
}

fn emote(url: &str, name: &str) -> Emote {
    Emote { url: s(url), name: s(name) }
}

fn rep(text: &str, pat: &str, with: &str) -> String {
    string_of(&replace(&chars_of(text), &chars_of(pat), &chars_of(with)))
}

// ---------------------------------------------------------------- emotes

#[test]
fn emotes_are_equal_by_name() {
    assert!(emote("a.png", "Kappa") == emote("b.png", "Kappa"));
    assert!(emote("a.png", "Kappa") != emote("a.png", "Keepo"));
}

// ------------------------------------------------------------------ text

#[test]
fn port_parsing_follows_u16_from_str() {
    assert_eq!(parse_port("5672"), Some(5672));
    assert_eq!(parse_port("0"), Some(0));
    assert_eq!(parse_port("65535"), Some(65535));
    assert_eq!(parse_port("0080"), Some(80));
    assert_eq!(parse_port("+80"), Some(80));
    assert_eq!(parse_port("65536"), None);
    assert_eq!(parse_port("99999999999"), None);
    assert_eq!(parse_port(""), None);
    assert_eq!(parse_port("+"), None);
    assert_eq!(parse_port("-1"), None);
    assert_eq!(parse_port("12a"), None);
    assert_eq!(parse_port(" 80"), None);
    for p in [0u16, 1, 9, 10, 443, 5672, 8080, 65535] {
        assert_eq!(parse_port(&p.to_string()), Some(p));
        assert_eq!(parse_port(&p.to_string()), p.to_string().parse::<u16>().ok());
    }
}

#[test]
fn replace_matches_str_replace() {
    let cases = [
        ("hello Kappa world Kappa", "Kappa", "<img>"),
        ("aaaa", "aa", "b"),
        ("abc", "", "-"),
        ("", "", "x"),
        ("", "a", "x"),
        ("abc", "abcd", "x"),
        ("Kappa", "Kappa", ""),
        ("héllo wörld", "ö", "oe"),
    ];
    for (text, pat, with) in cases {
        assert_eq!(rep(text, pat, with), text.replace(pat, with), "{:?}", (text, pat, with));
    }
}

#[test]
fn find_gives_first_character_index() {
    assert_eq!(find(&chars_of("abcabc"), &chars_of("bc")), Some(1));
    assert_eq!(find(&chars_of("abc"), &chars_of("")), Some(0));
    assert_eq!(find(&chars_of("abc"), &chars_of("x")), None);
    assert_eq!(find(&chars_of("ab"), &chars_of("abc")), None);
    assert_eq!(find(&chars_of("ééwss"), &chars_of("wss")), Some(2));
}

#[test]
fn decimal_and_hex_renderings() {
    for x in [i8::MIN, -100, -5, -1, 0, 7, 10, 99, i8::MAX] {
        assert_eq!(i8_to_decimal(x), x.to_string());
    }
    for b in [0u8, 9, 10, 15, 16, 70, 144, 255] {
        assert_eq!(hex_of_byte(b), format!("{:02x}", b));
    }
    assert_eq!(hex_of_byte(255), "ff");
    assert_eq!(hex_of_byte(0), "00");
}

// ------------------------------------------------------------------ maps

#[test]
fn string_map_reads_back_what_was_written() {
    let mut m: StringMap<String> = StringMap::new();
    assert_eq!(m.len(), 0);
    m.insert(s("a"), s("1"));
    m.insert(s("b"), s("2"));
    assert_eq!(m.get("a"), Some(&s("1")));
    assert_eq!(m.get("b"), Some(&s("2")));
    assert_eq!(m.get("c"), None);
    m.insert(s("a"), s("3"));
    assert_eq!(m.len(), 2);
    assert_eq!(m.get("a"), Some(&s("3")));
    m.remove("a");
    assert_eq!(m.get("a"), None);
    assert_eq!(m.get("b"), Some(&s("2")));
    m.remove("zzz");
    assert_eq!(m.len(), 1);
    assert_eq!(m.entries().len(), 1);
}

#[test]
fn config_stream_id_follows_the_settings() {
    let mut config: Config = StringMap::new();
    assert_eq!(stream_to_ingest(&config), None);
    add_config(ConfigItem { key: s("stream_id"), val: s("") }, &mut config);
    assert_eq!(stream_to_ingest(&config), Some(s("")));
    add_config(ConfigItem { key: s("stream_id"), val: s("abc123") }, &mut config);
    add_config(ConfigItem { key: s("other"), val: s("x") }, &mut config);
    assert_eq!(stream_to_ingest(&config), Some(s("abc123")));
    remove_config("stream_id", &mut config);
    assert_eq!(stream_to_ingest(&config), None);
    assert_eq!(config.get("other"), Some(&s("x")));
}

// ---------------------------------------------------------------- client

fn open(client: &mut Client, connection: u64, channel: u64) -> Vec<OpenAction> {
    let events = vec![
        OpenEvent::Begin,
        OpenEvent::ConnectionOpened(connection),
        OpenEvent::ConnectionCallbackRegistered,
        OpenEvent::ChannelOpened(channel),
        OpenEvent::ChannelCallbackRegistered,
        OpenEvent::ExchangeDeclared,
        OpenEvent::QueueDeclared(s("amq.gen-1")),
        OpenEvent::QueueBound,
    ];
    events.into_iter().map(|e| client.open_client(e)).collect()
}

fn new_client(port: &str, key: &str) -> Client {
    Client::new(s("localhost"), s(port), s("guest"), s("guest"), s("chat"), s(key))
}

#[test]
fn opening_protocol_requests_in_order() {
    let mut c = new_client("5672", "twitch");
    assert!(!c.is_connection_good());
    let actions = open(&mut c, 7, 9);
    match &actions[0] {
        OpenAction::OpenConnection { host, port, username, password } => {
            assert_eq!((host.as_str(), *port, username.as_str(), password.as_str()), ("localhost", 5672, "guest", "guest"));
        }
        _ => panic!("expected OpenConnection"),
    }
    assert!(matches!(actions[1], OpenAction::RegisterConnectionCallback { connection: 7 }));
    assert!(matches!(actions[2], OpenAction::OpenChannel { connection: 7 }));
    assert!(matches!(actions[3], OpenAction::RegisterChannelCallback { channel: 9 }));
    match &actions[4] {
        OpenAction::DeclareExchange { channel, exchange, kind, durable } => {
            assert_eq!((*channel, exchange.as_str(), kind.as_str(), *durable), (9, "chat", "topic", true));
        }
        _ => panic!("expected DeclareExchange"),
    }
    assert!(matches!(actions[5], OpenAction::DeclareQueue { channel: 9 }));
    match &actions[6] {
        OpenAction::BindQueue { channel, queue, exchange, routing_key } => {
            assert_eq!(
                (*channel, queue.as_str(), exchange.as_str(), routing_key.as_str()),
                (9, "amq.gen-1", "chat", "twitch")
            );
        }
        _ => panic!("expected BindQueue"),
    }
    assert!(matches!(actions[7], OpenAction::Finished));
    assert!(c.is_open());
    assert!(c.is_connection_good());
    assert_eq!(c.queue_name(), "amq.gen-1");
    assert_eq!(c.connection_id(), Some(7));
    assert_eq!(c.channel_id(), Some(9));
}

#[test]
fn opening_with_a_bad_port_stops() {
    let mut c = new_client("amqp", "x");
    assert!(matches!(c.open_client(OpenEvent::Begin), OpenAction::InvalidPort));
    let mut c = new_client("5672", "x");
    assert!(matches!(c.open_client(OpenEvent::ConnectionCallbackRegistered), OpenAction::Aborted));
    assert!(matches!(c.open_client(OpenEvent::QueueBound), OpenAction::Aborted));
    assert!(!c.is_open());
}

#[test]
fn publish_and_consume_need_a_good_client() {
    let mut c = new_client("5672", "youtube");
    assert!(c.publish_message(s("{}")).is_none());
    assert!(c.attach_consumer(s("Name")).is_none());
    open(&mut c, 1, 2);
    let p = c.publish_message(s("{\"a\":1}")).unwrap();
    assert_eq!((p.channel, p.exchange.as_str(), p.routing_key.as_str(), p.content.as_str()), (2, "chat", "youtube", "{\"a\":1}"));
    let r = c.attach_consumer(s("Name")).unwrap();
    assert_eq!((r.channel, r.queue.as_str(), r.consumer_tag.as_str()), (2, "amq.gen-1", "Name"));
}

#[test]
fn close_client_then_publish_fails_and_close_again_does_nothing() {
    let mut c = new_client("5672", "k");
    assert!(c.close_client().is_none());
    open(&mut c, 3, 4);
    let r = c.close_client().unwrap();
    assert_eq!((r.channel, r.connection), (4, 3));
    assert!(!c.is_open());
    assert!(c.publish_message(s("x")).is_none());
    assert!(c.close_client().is_none());
    assert_eq!(c.connection_id(), None);
}

fn registry_with_two() -> ClientRegistry {
    let mut reg = ClientRegistry::new();
    let a = reg.register(new_client("5672", "a"));
    let b = reg.register(new_client("5672", "b"));
    assert_eq!((a, b), (0, 1));
    for e in [
        OpenEvent::Begin,
        OpenEvent::ConnectionOpened(10),
        OpenEvent::ConnectionCallbackRegistered,
        OpenEvent::ChannelOpened(11),
        OpenEvent::ChannelCallbackRegistered,
        OpenEvent::ExchangeDeclared,
        OpenEvent::QueueDeclared(s("q")),
        OpenEvent::QueueBound,
    ] {
        reg.open_client(0, e);
    }
    for e in [
        OpenEvent::Begin,
        OpenEvent::ConnectionOpened(20),
        OpenEvent::ConnectionCallbackRegistered,
        OpenEvent::ChannelOpened(21),
        OpenEvent::ChannelCallbackRegistered,
        OpenEvent::ExchangeDeclared,
        OpenEvent::QueueDeclared(s("q2")),
        OpenEvent::QueueBound,
    ] {
        reg.open_client(1, e);
    }
    reg
}

#[test]
fn connection_callbacks_act_on_their_clients_only() {
    let mut reg = registry_with_two();
    let mut cb = BasicConnectionCallback;
    cb.blocked(&mut reg, 10);
    assert!(!reg.client(0).is_connection_good());
    assert!(reg.client(0).is_blocked());
    assert!(reg.client(1).is_connection_good());
    cb.unblocked(&mut reg, 10);
    assert!(reg.client(0).is_connection_good());
    let closed = cb.close(&mut reg, 20);
    assert_eq!(closed.len(), 1);
    assert_eq!((closed[0].channel, closed[0].connection), (21, 20));
    assert!(!reg.client(1).is_open());
    assert!(reg.client(0).is_open());
    assert!(cb.close(&mut reg, 20).is_empty());
    assert_eq!(reg.close_client(0).map(|r| (r.channel, r.connection)), Some((11, 10)));
    assert!(reg.close_client(0).is_none());
    assert_eq!(reg.len(), 2);
}

#[test]
fn channel_callbacks_act_on_their_clients_only() {
    let mut reg = registry_with_two();
    let mut cb = BasicChannelCallback;
    assert!(cb.flow(&mut reg, 11, true));
    assert!(reg.client(0).is_flow_blocked());
    assert!(!reg.client(0).is_connection_good());
    assert!(!cb.flow(&mut reg, 11, false));
    assert!(reg.client(0).is_connection_good());
    let closed = cb.cancel(&mut reg, 21);
    assert_eq!(closed.len(), 1);
    assert!(!reg.client(1).is_open());
    let closed = cb.close(&mut reg, 11);
    assert_eq!((closed[0].channel, closed[0].connection), (11, 10));
    assert!(!reg.client(0).is_open());
    assert!(cb.close(&mut reg, 99).is_empty());
}

// --------------------------------------------------------------- vstream

fn text(x: &str) -> Value {
    Value::Text(s(x))
}

fn map(entries: Vec<(Value, Value)>) -> Value {
    Value::Map(entries.into_iter().collect::<BTreeMap<_, _>>())
}

fn chat_event(nodes: Vec<Value>, name: &str, color: Vec<i128>) -> Value {
    map(vec![
        (Value::Integer(-4), text("ChatCreatedEvent")),
        (
            text("chat"),
            map(vec![
                (text("nodes"), Value::Array(nodes)),
                (text("chatter"), map(vec![(Value::Integer(5), text(name))])),
                (text("chatterColor"), Value::Array(color.into_iter().map(Value::Integer).collect())),
            ]),
        ),
    ])
}

fn sample_nodes() -> Vec<Value> {
    let emoji = map(vec![
        (Value::Integer(-4), text("EmojiChatNode")),
        (text("emoji"), map(vec![(text("altText"), text(":wave:")), (text("size28Src"), text("https://e/wave.png"))])),
    ]);
    vec![
        map(vec![(Value::Integer(-4), text("TextChatNode")), (text("text"), text("hi "))]),
        map(vec![(Value::Integer(-4), text("MentionChatNode")), (Value::Integer(5), text("bob"))]),
        map(vec![(Value::Integer(-4), text("LinkChatNode")), (text("href"), text(" https://x.y "))]),
        emoji.clone(),
        map(vec![(Value::Integer(-4), text("UnknownNode")), (text("text"), text("ignored"))]),
        Value::Integer(3),
        emoji,
    ]
}

#[test]
fn vstream_frame_becomes_messages() {
    let mut bytes = serde_cbor::to_vec(&chat_event(sample_nodes(), "alice", vec![255, 10, -3])).unwrap();
    bytes.extend(serde_cbor::to_vec(&map(vec![(Value::Integer(-4), text("OtherEvent"))])).unwrap());
    bytes.extend(serde_cbor::to_vec(&chat_event(vec![], "carol", vec![1, 2])).unwrap());
    bytes.extend(serde_cbor::to_vec(&chat_event(vec![], "dave", vec![1, 2, 3])).unwrap());
    let messages: Vec<Message> = vstream_messages(&bytes);
    assert_eq!(messages.len(), 2);
    let m = &messages[0];
    assert_eq!(m.message, "hi @bob https://x.y :wave::wave:");
    assert_eq!(m.raw_message, m.message);
    assert_eq!(m.username, "alice");
    assert_eq!((m.user_color_r.as_str(), m.user_color_g.as_str(), m.user_color_b.as_str()), ("-1", "10", "-3"));
    assert_eq!(m.from, "vstream");
    assert_eq!(m.source_badge_large, "https://vstream.com/favicon_32.png");
    assert_eq!(m.source_badge_small, "https://vstream.com/favicon_128.png");
    assert!(m.user_badges.is_empty());
    assert_eq!(m.message_emotes.len(), 1);
    assert_eq!(m.message_emotes[0].url, "https://e/wave.png");
    assert_eq!(m.message_emotes[0].name, ":wave:");
    assert_eq!(messages[1].username, "dave");
    assert_eq!(messages[1].message, "");
}

#[test]
fn vstream_stream_stops_at_a_broken_item() {
    let mut bytes = serde_cbor::to_vec(&chat_event(vec![], "erin", vec![1, 2, 3])).unwrap();
    bytes.push(0xff);
    bytes.extend(serde_cbor::to_vec(&chat_event(vec![], "frank", vec![1, 2, 3])).unwrap());
    let messages = vstream_messages(&bytes);
    assert_eq!(messages.len(), 1);
    assert_eq!(messages[0].username, "erin");
    assert!(vstream_messages(&[]).is_empty());
    assert_eq!(decode_stream(&[0x01, 0x02]).len(), 2);
}

#[test]
fn chat_event_fields_are_read() {
    let bytes = serde_cbor::to_vec(&chat_event(sample_nodes(), "alice", vec![1, 300, 2])).unwrap();
    let values = decode_stream(&bytes);
    assert_eq!(values.len(), 1);
    let event = deserialize_chat_event(&values[0]).unwrap();
    assert_eq!(event.chatter.name, "alice");
    assert_eq!(event.chatter_color, vec![1i8, 300i128 as i8, 2]);
    assert_eq!(event.nodes.len(), 5);
    match &event.nodes[1] {
        Node::Text(t) => assert_eq!(t, "@bob"),
        _ => panic!("expected text"),
    }
    assert!(deserialize_chat_event(&CborValue::Integer(1)).is_none());
    let wrong = serde_cbor::to_vec(&map(vec![(Value::Integer(-4), text("ChatCreatedEvent"))])).unwrap();
    assert!(deserialize_chat_event(&decode_stream(&wrong)[0]).is_none());
}

#[test]
fn chat_without_color_gives_no_message() {
    let chat = ChatEvent { nodes: vec![], chatter: Chatter { name: s("x") }, chatter_color: vec![1, 2] };
    assert!(vstream_chat_message(chat).is_none());
    let chat = ChatEvent {
        nodes: vec![
            Node::Emoji(Emoji { alt_text: s("a"), size_28_src: s("u1") }),
            Node::Emoji(Emoji { alt_text: s("a"), size_28_src: s("u2") }),
            Node::Emoji(Emoji { alt_text: s("a"), size_28_src: s("u1") }),
        ],
        chatter: Chatter { name: s("x") },
        chatter_color: vec![0, 0, 0, 9],
    };
    let m = vstream_chat_message(chat).unwrap();
    assert_eq!(m.message, "aaa");
    assert_eq!(m.message_emotes.len(), 2);
    assert_eq!(m.message_emotes[0].url, "u1");
    assert_eq!(m.message_emotes[1].url, "u2");
}

#[test]
fn vstream_addresses() {
    assert_eq!(chat_popout_url("abc"), "https://vstream.com/v/abc/chat-popout");
    let page = "<script>{\"url\":\"wss://chat.vstream.com/x?y=1\",\"channelProfile\":{}}</script>";
    assert_eq!(extract_ws_url(page), Some(s("wss://chat.vstream.com/x?y=1")));
    assert_eq!(extract_ws_url("no socket here"), None);
    assert_eq!(extract_ws_url("\",\"channelProfile then wss"), None);
}

// ---------------------------------------------------------------- twitch

#[test]
fn twitch_line_becomes_message() {
    let emotes = vec![TwitchEmote { id: s("25"), code: s("Kappa") }];
    let m = twitch_message(s("hi Kappa Kappa"), s("bob"), &emotes, None);
    let img = "<img src='https://static-cdn.jtvnw.net/emoticons/v1/25/3.0'>";
    assert_eq!(m.message, format!("hi {} {}", img, img));
    assert_eq!(m.raw_message, "hi Kappa Kappa");
    assert_eq!(m.username, "bob");
    assert_eq!((m.user_color_r.as_str(), m.user_color_g.as_str(), m.user_color_b.as_str()), ("90", "46", "ff"));
    assert_eq!(m.from, "Twitch");
    assert_eq!(m.message_emotes, vec![emote("https://static-cdn.jtvnw.net/emoticons/v1/25/3.0", "Kappa")]);
    assert_eq!(m.message_emotes[0].url, "https://static-cdn.jtvnw.net/emoticons/v1/25/3.0");
    let m = twitch_message(s("plain"), s("amy"), &vec![], Some(RgbColor { r: 1, g: 0xab, b: 16 }));
    assert_eq!((m.user_color_r.as_str(), m.user_color_g.as_str(), m.user_color_b.as_str()), ("01", "ab", "10"));
    assert_eq!(m.message, "plain");
    assert!(m.message_emotes.is_empty());
}

// ----------------------------------------------------------------- trovo

fn trovo_table() -> StringMap<TrovoEmote> {
    build_emote_table(&vec![
        TrovoEmote { name: s("smile"), url: s("u/smile"), gifp: None, webp: None },
        TrovoEmote { name: s("cat"), url: s("u/cat"), gifp: None, webp: Some(s("w/cat")) },
        TrovoEmote { name: s("dog"), url: s("u/dog"), gifp: Some(s("g/dog")), webp: Some(s("w/dog")) },
        TrovoEmote { name: s("smile"), url: s("u/smile2"), gifp: None, webp: None },
    ])
}

#[test]
fn trovo_table_keeps_the_last_emote_of_a_name() {
    let t = trovo_table();
    assert_eq!(t.len(), 3);
    assert_eq!(t.get("smile").unwrap().url, "u/smile2");
}

#[test]
fn trovo_line_becomes_message() {
    let t = trovo_table();
    let m = trovo_message(":smile hello :dog :cat :nope x", s("nick"), &t);
    assert_eq!(
        m.message,
        "<img src='u/smile2?imageView2'> hello <img src='g/dog?imageView2'> <img src='w/cat?imageView2'> :nope x"
    );
    assert_eq!(m.raw_message, ":smile hello :dog :cat :nope x");
    assert_eq!(m.username, "nick");
    assert_eq!((m.user_color_r.as_str(), m.user_color_g.as_str(), m.user_color_b.as_str()), ("19", "d6", "6b"));
    assert_eq!(m.from, "Trovo");
    assert_eq!(m.message_emotes.len(), 3);
    assert_eq!(m.message_emotes[0].url, "u/smile2?imageView2");
    assert_eq!(m.message_emotes[0].name, ":smile");
    assert_eq!(m.message_emotes[1].url, "g/dog?imageView2");
    assert_eq!(m.message_emotes[2].url, "w/cat?imageView2");
    let m = trovo_message(":smile", s("n"), &t);
    assert_eq!(m.message, ":smile");
    assert!(m.message_emotes.is_empty());
}

#[test]
fn trovo_captures_given_by_hand() {
    let t = trovo_table();
    let caps = vec![(s(":cat"), s("cat")), (s(":zzz"), s("zzz"))];
    let m = trovo_message_from_captures("a :cat b", s("n"), &caps, &t);
    assert_eq!(m.message, "a <img src='w/cat?imageView2'> b");
    assert_eq!(m.message_emotes.len(), 1);
}

// --------------------------------------------------------------- youtube

#[test]
fn youtube_line_becomes_message() {
    let m = youtube_message(s("<b>hi</b>"), s("hi"), s("yt"), vec![emote("e.png", "wave")]);
    assert_eq!(m.message, "<b>hi</b>");
    assert_eq!(m.raw_message, "hi");
    assert_eq!(m.username, "yt");
    assert_eq!((m.user_color_r.as_str(), m.user_color_g.as_str(), m.user_color_b.as_str()), ("FF", "00", "00"));
    assert_eq!(m.from, "Youtube");
    assert_eq!(m.source_badge_small, "https://www.youtube.com/s/desktop/f9ccd8c6/img/favicon.ico");
    assert_eq!(m.message_emotes.len(), 1);
    assert_eq!(live_chat_url("abc"), "https://www.youtube.com/live_chat?is_popout=1&v=abc");
}

#[test]
fn emote_words_match_the_trovo_pattern() {
    let re = regex::Regex::new(r"(:([^\s]*)) ").unwrap();
    let lines = [
        ":smile hello :dog :cat :nope x",
        ":smile",
        "a:b: c",
        ":: x",
        ": ",
        ":a\t:b :c\n:d ",
        ":a\u{3000}:b :c\u{a0} :d\u{2003}e :f ",
        "no words here",
        "héllo :ünï :x",
        "::a:b  :c ",
    ];
    for line in lines {
        let expected: Vec<(String, String)> =
            re.captures_iter(line).map(|c| (c[1].to_string(), c[2].to_string())).collect();
        assert_eq!(emote_words(line), expected, "{:?}", line);
    }
    assert_eq!(emote_words(":hi there"), vec![(s(":hi"), s("hi"))]);
}

#[test]
fn add_client_appends_a_closed_client() {
    let mut reg = ClientRegistry::new();
    let a = reg.add_client(s("h"), s("5672"), s("u"), s("p"), s("chat"), s("a"));
    let b = reg.add_client(s("h2"), s("1"), s("u"), s("p"), s("chat"), s("b"));
    assert_eq!((a, b), (0, 1));
    assert_eq!(reg.len(), 2);
    assert_eq!(reg.client(1).host, "h2");
    assert_eq!(reg.client(1).routing_key, "b");
    assert!(!reg.client(0).is_open());
    assert_eq!(reg.client(0).connection_id(), None);
    assert_eq!(reg.client(0).queue_name(), "");
}
