//! Trovo chat: the table of a channel's emotes, finding emote words in a
//! chat line, and turning the line into a chat message.
use vstd::prelude::*;

use crate::chat_objects::{emote_views, Emote, EmoteView, Message, MessageView};
use crate::string_map::StringMap;
use crate::text::{chars_of, extend_chars, replace, replace_all, string_of};
use crate::twitch::img_tag;

verus! {

broadcast use vstd::string::group_string_axioms;

/// A Trovo emote: its name and its images (still, animated, WebP).
pub struct TrovoEmote {
    pub name: String,
    pub url: String,
    pub gifp: Option<String>,
    pub webp: Option<String>,
}

impl TrovoEmote {
    /// A copy of the emote.
    pub fn copy(&self) -> (res: TrovoEmote)
        ensures
            res == *self,
    {
        TrovoEmote {
            name: self.name.clone(),
            url: self.url.clone(),
            gifp: match &self.gifp {
                Some(g) => Some(g.clone()),
                None => None,
            },
            webp: match &self.webp {
                Some(w) => Some(w.clone()),
                None => None,
            },
        }
    }
}

/// The emote table after the emotes of `s` were stored one after the
/// other, each under its name; a later emote of a name takes the place of
/// an earlier one.
pub open spec fn emote_table_of(s: Seq<TrovoEmote>) -> Map<Seq<char>, TrovoEmote>
    decreases s.len(),
{
    if s.len() == 0 {
        Map::empty()
    } else {
        emote_table_of(s.drop_last()).insert(s.last().name@, s.last())
    }
}

/// Stores the emotes of a channel by name, in order: the global emotes,
/// the event emotes and the channel's own, as the caller lists them.
pub fn build_emote_table(emotes: &Vec<TrovoEmote>) -> (res: StringMap<TrovoEmote>)
    ensures
        res@ == emote_table_of(emotes@),
{
    let mut table: StringMap<TrovoEmote> = StringMap::new();
    let mut i: usize = 0;
    while i < emotes.len()
        invariant
            i <= emotes@.len(),
            table@ == emote_table_of(emotes@.take(i as int)),
        decreases emotes@.len() - i,
    {
        assert(emotes@.take(i + 1).drop_last() =~= emotes@.take(i as int));
        let e = emotes[i].copy();
        table.insert(emotes[i].name.clone(), e);
        i = i + 1;
    }
    assert(emotes@.take(i as int) =~= emotes@);
    table
}

/// The image an emote is shown with: the animated one if there is one,
/// else the WebP one, else the still one, with the image-view suffix.
pub open spec fn trovo_image(e: TrovoEmote) -> Seq<char> {
    (match e.gifp {
        Some(g) => g@,
        None => match e.webp {
            Some(w) => w@,
            None => e.url@,
        },
    }) + "?imageView2"@
}

/// The line and emotes after one more emote word: where the table knows
/// the name, the word (with its colon) becomes the image in the line, and
/// the emote joins the list.
pub open spec fn trovo_step(
    state: (Seq<char>, Seq<EmoteView>),
    cap: (Seq<char>, Seq<char>),
    table: Map<Seq<char>, TrovoEmote>,
) -> (Seq<char>, Seq<EmoteView>) {
    if table.dom().contains(cap.1) {
        let url = trovo_image(table[cap.1]);
        (replace_all(state.0, cap.0, img_tag(url)), state.1.push(EmoteView { url, name: cap.0 }))
    } else {
        state
    }
}

/// The line and emotes after all emote words, in order.
pub open spec fn trovo_fold(
    content: Seq<char>,
    caps: Seq<(Seq<char>, Seq<char>)>,
    table: Map<Seq<char>, TrovoEmote>,
) -> (Seq<char>, Seq<EmoteView>)
    decreases caps.len(),
{
    if caps.len() == 0 {
        (content, Seq::empty())
    } else {
        trovo_step(trovo_fold(content, caps.drop_last(), table), caps.last(), table)
    }
}

/// The message that a Trovo chat line becomes, given its emote words.
pub open spec fn trovo_message_of(
    content: Seq<char>,
    nick_name: Seq<char>,
    caps: Seq<(Seq<char>, Seq<char>)>,
    table: Map<Seq<char>, TrovoEmote>,
) -> MessageView {
    MessageView {
        message: trovo_fold(content, caps, table).0,
        raw_message: content,
        username: nick_name,
        user_color_r: "19"@,
        user_color_g: "d6"@,
        user_color_b: "6b"@,
        from: "Trovo"@,
        source_badge_large: "https://astatic.trovocdn.net/cat/favicon.ico"@,
        source_badge_small: "https://astatic.trovocdn.net/cat/favicon.ico"@,
        user_badges: Seq::empty(),
        message_emotes: trovo_fold(content, caps, table).1,
    }
}

/// `c` is white space in Unicode's sense (the `White_Space` property).
pub open spec fn is_white_space(c: char) -> bool {
    ||| '\u{9}' <= c <= '\u{d}'
    ||| c == ' '
    ||| c == '\u{85}'
    ||| c == '\u{a0}'
    ||| c == '\u{1680}'
    ||| '\u{2000}' <= c <= '\u{200a}'
    ||| c == '\u{2028}'
    ||| c == '\u{2029}'
    ||| c == '\u{202f}'
    ||| c == '\u{205f}'
    ||| c == '\u{3000}'
}

/// The end of the run of non-white-space characters of `s` that starts at
/// `i`: the first index at or after `i` that holds white space, or the end.
pub open spec fn run_end(s: Seq<char>, i: int) -> int
    decreases s.len() - i,
{
    if i < 0 || i >= s.len() || is_white_space(s[i]) {
        i
    } else {
        run_end(s, i + 1)
    }
}

/// An emote word starts at `i`: a colon, the longest run of non-white-space
/// characters after it, and then a space.
pub open spec fn emote_word_at(s: Seq<char>, i: int) -> bool {
    0 <= i < s.len() && s[i] == ':' && run_end(s, i + 1) < s.len() && s[run_end(s, i + 1)] == ' '
}

/// The emote words of `s` from index `i` on, searched left to right, each
/// as the colon with the run after it, and the run alone; the search goes
/// on after the space that ends a word.
pub open spec fn emote_words_from(s: Seq<char>, i: int) -> Seq<(Seq<char>, Seq<char>)>
    decreases s.len() - i,
{
    if i < 0 || i >= s.len() {
        Seq::empty()
    } else if emote_word_at(s, i) {
        proof {
            lemma_run_end_bounds(s, i + 1);
        }
        let j = run_end(s, i + 1);
        seq![(s.subrange(i, j), s.subrange(i + 1, j))] + emote_words_from(s, j + 1)
    } else {
        emote_words_from(s, i + 1)
    }
}

/// The emote words of a chat line (the captures of `(:([^\s]*)) `).
pub open spec fn emote_words_of(s: Seq<char>) -> Seq<(Seq<char>, Seq<char>)> {
    emote_words_from(s, 0)
}

/// A run ends within the string, at white space or at the end.
pub proof fn lemma_run_end_bounds(s: Seq<char>, i: int)
    requires
        0 <= i <= s.len(),
    ensures
        i <= run_end(s, i) <= s.len(),
        run_end(s, i) < s.len() ==> is_white_space(s[run_end(s, i)]),
    decreases s.len() - i,
{
    if i < s.len() && !is_white_space(s[i]) {
        lemma_run_end_bounds(s, i + 1);
    }
}

/// The (word, name) pairs of a list of captures.
pub open spec fn capture_views(s: Seq<(String, String)>) -> Seq<(Seq<char>, Seq<char>)> {
    s.map_values(|p: (String, String)| (p.0@, p.1@))
}

fn is_white_space_char(c: char) -> (res: bool)
    ensures
        res == is_white_space(c),
{
    ('\u{9}' <= c && c <= '\u{d}') || c == ' ' || c == '\u{85}' || c == '\u{a0}' || c
        == '\u{1680}' || ('\u{2000}' <= c && c <= '\u{200a}') || c == '\u{2028}' || c
        == '\u{2029}' || c == '\u{202f}' || c == '\u{205f}' || c == '\u{3000}'
}

fn sub_string(cs: &Vec<char>, from: usize, to: usize) -> (res: String)
    requires
        from <= to <= cs@.len(),
    ensures
        res@ == cs@.subrange(from as int, to as int),
{
    let mut v: Vec<char> = Vec::new();
    let mut k: usize = from;
    while k < to
        invariant
            from <= k <= to,
            to <= cs@.len(),
            v@ == cs@.subrange(from as int, k as int),
        decreases to - k,
    {
        v.push(cs[k]);
        k = k + 1;
        assert(v@ =~= cs@.subrange(from as int, k as int));
    }
    assert(v@ =~= cs@.subrange(from as int, to as int));
    string_of(&v)
}

/// Finds the emote words of a chat line: each `:` followed by the longest
/// run of non-white-space characters and then a space, left to right,
/// without overlap; each as the colon with its run, and the run alone.
pub fn emote_words(content: &str) -> (res: Vec<(String, String)>)
    ensures
        capture_views(res@) == emote_words_of(content@),
{
    let cs = chars_of(content);
    let n = cs.len();
    let ghost s = cs@;
    let mut res: Vec<(String, String)> = Vec::new();
    let mut i: usize = 0;
    while i < n
        invariant
            n == s.len(),
            s == cs@,
            i <= n,
            capture_views(res@) + emote_words_from(s, i as int) == emote_words_of(s),
        decreases n - i,
    {
        let ghost before = capture_views(res@);
        if cs[i] == ':' {
            let mut j: usize = i + 1;
            while j < n && !is_white_space_char(cs[j])
                invariant
                    n == s.len(),
                    s == cs@,
                    i < n,
                    i + 1 <= j <= n,
                    run_end(s, j as int) == run_end(s, i + 1),
                decreases n - j,
            {
                j = j + 1;
            }
            assert(run_end(s, j as int) == j as int);
            if j < n && cs[j] == ' ' {
                assert(emote_word_at(s, i as int));
                let word = sub_string(&cs, i, j);
                let name = sub_string(&cs, i + 1, j);
                res.push((word, name));
                assert(capture_views(res@) =~= before.push((s.subrange(i as int, j as int), s.subrange(i + 1, j as int))));
                assert(capture_views(res@) + emote_words_from(s, j + 1) =~= before + emote_words_from(s, i as int));
                i = j + 1;
            } else {
                assert(!emote_word_at(s, i as int));
                i = i + 1;
            }
        } else {
            i = i + 1;
        }
    }
    assert(capture_views(res@) =~= capture_views(res@) + emote_words_from(s, i as int));
    res
}

/// Builds the message of a Trovo chat line from the emote words found in
/// it: each word whose name the table knows becomes the emote's image.
pub fn trovo_message_from_captures(
    content: &str,
    nick_name: String,
    captures: &Vec<(String, String)>,
    table: &StringMap<TrovoEmote>,
) -> (res: Message)
    ensures
        res@ == trovo_message_of(content@, nick_name@, capture_views(captures@), table@),
{
    let ghost caps = capture_views(captures@);
    let mut text = chars_of(content);
    let mut emotes: Vec<Emote> = Vec::new();
    let suffix = chars_of("?imageView2");
    let open_tag = chars_of("<img src='");
    let close_tag = chars_of("'>");
    let mut i: usize = 0;
    while i < captures.len()
        invariant
            i <= captures@.len(),
            caps == capture_views(captures@),
            suffix@ == "?imageView2"@,
            open_tag@ == "<img src='"@,
            close_tag@ == "'>"@,
            (text@, emote_views(emotes@)) == trovo_fold(content@, caps.take(i as int), table@),
        decreases captures@.len() - i,
    {
        assert(caps.take(i + 1).drop_last() =~= caps.take(i as int));
        assert(caps.take(i + 1).last() == (captures@[i as int].0@, captures@[i as int].1@));
        let word = &captures[i].0;
        let name = &captures[i].1;
        match table.get(name.as_str()) {
            Some(e) => {
                let mut url = match &e.gifp {
                    Some(g) => chars_of(g.as_str()),
                    None => match &e.webp {
                        Some(w) => chars_of(w.as_str()),
                        None => chars_of(e.url.as_str()),
                    },
                };
                extend_chars(&mut url, &suffix);
                assert(url@ =~= trovo_image(*e));
                let mut html = open_tag.clone();
                extend_chars(&mut html, &url);
                extend_chars(&mut html, &close_tag);
                assert(html@ =~= img_tag(trovo_image(*e)));
                let ghost before = emotes@;
                emotes.push(Emote { url: string_of(&url), name: word.clone() });
                assert(emote_views(emotes@) =~= emote_views(before).push(
                    EmoteView { url: trovo_image(*e), name: word@ },
                ));
                let w = chars_of(word.as_str());
                text = replace(&text, &w, &html);
            },
            None => {},
        }
        i = i + 1;
    }
    assert(caps.take(i as int) =~= caps);
    let m = Message {
        from: "Trovo".to_string(),
        source_badge_large: "https://astatic.trovocdn.net/cat/favicon.ico".to_string(),
        source_badge_small: "https://astatic.trovocdn.net/cat/favicon.ico".to_string(),
        message: string_of(&text),
        raw_message: content.to_string(),
        username: nick_name,
        user_color_r: "19".to_string(),
        user_color_g: "d6".to_string(),
        user_color_b: "6b".to_string(),
        user_badges: Vec::new(),
        message_emotes: emotes,
    };
    assert(m@.user_badges =~= Seq::<Seq<char>>::empty());
    m
}

/// Builds the message of a Trovo chat line: finds its emote words, then
/// replaces those of known emotes by their images.
pub fn trovo_message(content: &str, nick_name: String, table: &StringMap<TrovoEmote>) -> (res:
    Message)
    ensures
        res@ == trovo_message_of(content@, nick_name@, emote_words_of(content@), table@),
{
    let captures = emote_words(content);
    trovo_message_from_captures(content, nick_name, &captures, table)
}

/// Every emote of the list is in the table under its name, and the emote
/// there is the last of the list with that name; the table holds no other
/// names.
pub proof fn law_emote_table_holds_every_emote(s: Seq<TrovoEmote>)
    ensures
        forall|i: int| 0 <= i < s.len() ==> #[trigger] emote_table_of(s).dom().contains(s[i].name@),
        forall|i: int|
            0 <= i < s.len() && (forall|j: int| i < j < s.len() ==> s[j].name@ != s[i].name@)
                ==> #[trigger] emote_table_of(s)[s[i].name@] == s[i],
        forall|k: Seq<char>| #[trigger] emote_table_of(s).dom().contains(k) ==> exists|i: int|
            0 <= i < s.len() && s[i].name@ == k,
    decreases s.len(),
{
    if s.len() > 0 {
        let p = s.drop_last();
        law_emote_table_holds_every_emote(p);
        assert forall|i: int| 0 <= i < s.len() implies #[trigger] emote_table_of(s).dom().contains(
            s[i].name@,
        ) by {
            if i < s.len() - 1 {
                assert(p[i] == s[i]);
                assert(emote_table_of(p).dom().contains(p[i].name@));
            }
        }
        assert forall|i: int|
            0 <= i < s.len() && (forall|j: int| i < j < s.len() ==> s[j].name@ != s[i].name@)
                implies #[trigger] emote_table_of(s)[s[i].name@] == s[i] by {
            if i < s.len() - 1 {
                assert(s[s.len() - 1].name@ != s[i].name@);
                assert(p[i] == s[i]);
                assert forall|j: int| i < j < p.len() implies p[j].name@ != p[i].name@ by {
                    assert(p[j] == s[j]);
                }
                assert(emote_table_of(p)[p[i].name@] == p[i]);
                assert(emote_table_of(s) == emote_table_of(p).insert(s.last().name@, s.last()));
            } else {
                assert(emote_table_of(s) == emote_table_of(p).insert(s.last().name@, s.last()));
            }
        }
        assert forall|k: Seq<char>| #[trigger] emote_table_of(s).dom().contains(k) implies exists|
            i: int,
        | 0 <= i < s.len() && s[i].name@ == k by {
            if k != s.last().name@ {
                assert(emote_table_of(p).dom().contains(k));
                let i = choose|i: int| 0 <= i < p.len() && p[i].name@ == k;
                assert(s[i] == p[i]);
            } else {
                assert(s[s.len() - 1].name@ == k);
            }
        }
    }
}

/// Each emote word, in turn, changes the line as `str::replace` would: every
/// occurrence of the word in the line so far becomes the emote's image
/// where the table knows the name, and the line stays as it was where it
/// does not; the emote list grows by that emote, or not at all.
pub proof fn law_trovo_words_replace_every_occurrence(
    content: Seq<char>,
    caps: Seq<(Seq<char>, Seq<char>)>,
    cap: (Seq<char>, Seq<char>),
    table: Map<Seq<char>, TrovoEmote>,
)
    ensures
        table.dom().contains(cap.1) ==> trovo_fold(content, caps.push(cap), table).0 == replace_all(
            trovo_fold(content, caps, table).0,
            cap.0,
            img_tag(trovo_image(table[cap.1])),
        ),
        table.dom().contains(cap.1) ==> trovo_fold(content, caps.push(cap), table).1 == trovo_fold(
            content,
            caps,
            table,
        ).1.push(EmoteView { url: trovo_image(table[cap.1]), name: cap.0 }),
        !table.dom().contains(cap.1) ==> trovo_fold(content, caps.push(cap), table) == trovo_fold(
            content,
            caps,
            table,
        ),
        trovo_fold(content, Seq::empty(), table) == (content, Seq::<EmoteView>::empty()),
{
    assert(caps.push(cap).drop_last() =~= caps);
}

} // verus!
