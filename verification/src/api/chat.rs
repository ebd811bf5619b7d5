//! The chats of the user.

use crate::chat_models::{ChatModelEntry, ChatModelV};
use crate::text;
use vstd::prelude::*;

verus! {

/// The name of the network `id`, where it has one that is not empty.
pub open spec fn network_name(v: Seq<(String, Option<String>)>, id: Seq<char>) -> Option<Seq<char>>
    decreases v.len(),
{
    if v.len() == 0 {
        None
    } else if v[0].0@ == id {
        match v[0].1 {
            Some(n) => if n@.len() > 0 {
                Some(n@)
            } else {
                None
            },
            None => None,
        }
    } else {
        network_name(v.skip(1), id)
    }
}

fn find_name(v: &Vec<(String, Option<String>)>, id: &str) -> (r: Option<String>)
    ensures
        text::opt_view(r) == network_name(v@, id@),
{
    assert(v@.skip(0) =~= v@);
    for i in 0..v.len()
        invariant
            network_name(v@, id@) == network_name(v@.skip(i as int), id@),
    {
        assert(v@.skip(i as int)[0] == v@[i as int]);
        assert(v@.skip(i as int).skip(1) =~= v@.skip(i as int + 1));
        if text::str_eq(&v[i].0, id) {
            return match &v[i].1 {
                Some(n) => if n.as_str().is_empty() {
                    None
                } else {
                    Some(text::copy(n))
                },
                None => None,
            };
        }
    }
    None
}

/// A model whose source goes by the name of its network.
pub open spec fn named_source(
    m: ChatModelV,
    clusters: Seq<(String, Option<String>)>,
    swarms: Seq<(String, Option<String>)>,
) -> ChatModelV {
    let name = if m.source_kind == "cluster"@ {
        network_name(clusters, m.source_label)
    } else if m.source_kind == "swarm"@ {
        network_name(swarms, m.source_label)
    } else {
        None
    };
    match name {
        Some(n) => ChatModelV { source_label: n, ..m },
        None => m,
    }
}

/// What a list of models says.
pub open spec fn entries_view(v: Seq<ChatModelEntry>) -> Seq<ChatModelV> {
    v.map_values(|m: ChatModelEntry| m@)
}

/// The models that a user can chat with, whose sources go by the names of their
/// networks. `clusters` and `swarms` give the id and the name of each.
pub fn get_chat_models(
    models: Vec<ChatModelEntry>,
    clusters: &Vec<(String, Option<String>)>,
    swarms: &Vec<(String, Option<String>)>,
) -> (r: Vec<ChatModelEntry>)
    ensures
        entries_view(r@) == entries_view(models@).map_values(
            |m: ChatModelV| named_source(m, clusters@, swarms@),
        ),
{
    let mut out: Vec<ChatModelEntry> = Vec::new();
    for i in 0..models.len()
        invariant
            out@.len() == i,
            forall|k: int|
                0 <= k < i ==> (#[trigger] out@[k])@ == named_source(
                    models@[k]@,
                    clusters@,
                    swarms@,
                ),
    {
        let m = &models[i];
        let name = if text::str_eq(&m.source_kind, "cluster") {
            find_name(clusters, &m.source_label)
        } else if text::str_eq(&m.source_kind, "swarm") {
            find_name(swarms, &m.source_label)
        } else {
            None
        };
        let source_label = match name {
            Some(n) => n,
            None => text::copy(&m.source_label),
        };
        out.push(
            ChatModelEntry {
                name: text::copy(&m.name),
                location: text::copy(&m.location),
                source_kind: text::copy(&m.source_kind),
                source_label,
                loaded: m.loaded,
            },
        );
    }
    assert(entries_view(out@) =~= entries_view(models@).map_values(
        |m: ChatModelV| named_source(m, clusters@, swarms@),
    ));
    out
}

/// A message of a chat.
#[derive(Debug)]
pub struct ChatMessage {
    pub role: String,
    pub content: String,
}

/// The text of the first message of the user.
pub open spec fn first_of_user(v: Seq<ChatMessage>) -> Option<Seq<char>>
    decreases v.len(),
{
    if v.len() == 0 {
        None
    } else if v[0].role@ == "user"@ {
        Some(v[0].content@)
    } else {
        first_of_user(v.skip(1))
    }
}

/// The title of a chat: the one that it has, or else the beginning of what the
/// user said first, at most 48 characters of it.
pub open spec fn chat_title(messages: Seq<ChatMessage>, current: Seq<char>) -> Seq<char> {
    if text::trimmed(current).len() > 0 && current != "New chat"@ {
        current
    } else {
        match first_of_user(messages) {
            None => "New chat"@,
            Some(s) => {
                let t = text::trimmed(s);
                if t.len() == 0 {
                    "New chat"@
                } else if t.len() > 48 {
                    t.take(48).push('\u{2026}')
                } else {
                    t
                }
            },
        }
    }
}

/// The title of a chat.
pub fn auto_chat_title(messages: &Vec<ChatMessage>, current: &str) -> (r: String)
    ensures
        r@ == chat_title(messages@, current@),
{
    let blank = text::trim(current).as_str().is_empty() || text::str_eq(current, "New chat");
    if !blank {
        return text::copy(current);
    }
    assert(messages@.skip(0) =~= messages@);
    for i in 0..messages.len()
        invariant
            text::trimmed(current@).len() == 0 || current@ == "New chat"@,
            first_of_user(messages@) == first_of_user(messages@.skip(i as int)),
    {
        assert(messages@.skip(i as int)[0] == messages@[i as int]);
        assert(messages@.skip(i as int).skip(1) =~= messages@.skip(i as int + 1));
        if text::str_eq(&messages[i].role, "user") {
            let t = text::trim(&messages[i].content);
            if t.as_str().is_empty() {
                return text::copy("New chat");
            }
            let cs = text::chars_of(&t);
            if cs.len() > 48 {
                let mut title = text::take(&t, 48);
                title.push('\u{2026}');
                return title;
            }
            return t;
        }
    }
    text::copy("New chat")
}

/// The title and the model of a new chat.
pub fn post_chat_session(title: Option<String>, model: Option<String>) -> (r: (String, String))
    ensures
        r.0@ == match title {
            Some(t) => if text::trimmed(t@).len() > 0 {
                t@
            } else {
                "New chat"@
            },
            None => "New chat"@,
        },
        r.1@ == match model {
            Some(m) => m@,
            None => Seq::empty(),
        },
{
    let t = match title {
        Some(t) => if text::trim(&t).as_str().is_empty() {
            text::copy("New chat")
        } else {
            t
        },
        None => text::copy("New chat"),
    };
    let m = match model {
        Some(m) => m,
        None => String::new(),
    };
    (t, m)
}

/// A chat that is kept.
#[derive(Debug)]
pub struct KeptChat {
    pub title: String,
    pub model: String,
    pub created_at_unix: u64,
}

/// The title, the model and the birth of a chat that the user changes: what the
/// user does not give stays, and a chat that was not kept is a new one.
pub fn put_chat_session(
    existing: Option<KeptChat>,
    title: Option<String>,
    model: Option<String>,
    messages: &Vec<ChatMessage>,
) -> (r: (String, String, Option<u64>))
    ensures
        ({
            let (before, kept, birth) = match existing {
                Some(k) => (k.title@, k.model@, Some(k.created_at_unix)),
                None => ("New chat"@, Seq::empty(), None),
            };
            &&& r.0@ == chat_title(
                messages@,
                match title {
                    Some(t) => t@,
                    None => before,
                },
            )
            &&& r.1@ == match model {
                Some(m) => if m@.len() > 0 {
                    m@
                } else {
                    kept
                },
                None => kept,
            }
            &&& r.2 == birth
        }),
{
    let (before, kept, birth) = match existing {
        Some(k) => (k.title, k.model, Some(k.created_at_unix)),
        None => (text::copy("New chat"), String::new(), None),
    };
    let current = match title {
        Some(t) => t,
        None => before,
    };
    let m = match model {
        Some(m) => if m.as_str().is_empty() {
            kept
        } else {
            m
        },
        None => kept,
    };
    (auto_chat_title(messages, &current), m, birth)
}

/// A title that a chat was given stays when it is changed again, whatever was said.
pub proof fn law_title_stays(messages: Seq<ChatMessage>, later: Seq<ChatMessage>, current: Seq<char>)
    requires
        text::trimmed(current).len() > 0,
        current != "New chat"@,
    ensures
        chat_title(later, chat_title(messages, current)) == current,
{
}

/// A new chat is named after the first thing that the user says, in full where that is
/// short, and by its front and an ellipsis where it is not.
pub proof fn law_chat_is_named_after_its_question(
    messages: Seq<ChatMessage>,
    i: int,
    s: Seq<char>,
)
    requires
        0 <= i < messages.len(),
        messages[i].role@ == "user"@,
        messages[i].content@ == s,
        forall|j: int| 0 <= j < i ==> (#[trigger] messages[j]).role@ != "user"@,
        text::is_tight(s),
    ensures
        s.len() <= 48 ==> chat_title(messages, "New chat"@) == s,
        s.len() > 48 ==> chat_title(messages, "New chat"@) == s.take(48).push('\u{2026}'),
{
    lemma_first_of_user(messages, i);
    text::lemma_tight_stays(s);
}

proof fn lemma_first_of_user(messages: Seq<ChatMessage>, i: int)
    requires
        0 <= i < messages.len(),
        messages[i].role@ == "user"@,
        forall|j: int| 0 <= j < i ==> (#[trigger] messages[j]).role@ != "user"@,
    ensures
        first_of_user(messages) == Some(messages[i].content@),
    decreases i,
{
    if i > 0 {
        let rest = messages.skip(1);
        assert(rest[i - 1] == messages[i]);
        assert(messages[0].role@ != "user"@);
        assert forall|j: int| 0 <= j < i - 1 implies (#[trigger] rest[j]).role@ != "user"@ by {
            assert(rest[j] == messages[j + 1]);
        }
        lemma_first_of_user(rest, i - 1);
    }
}

/// A model on a network is shown with the name of the network where that is known; all
/// else of it stays, and a model of another source stays as it is.
pub proof fn law_source_goes_by_its_name(
    m: ChatModelV,
    clusters: Seq<(String, Option<String>)>,
    swarms: Seq<(String, Option<String>)>,
    i: int,
    name: String,
)
    requires
        name@.len() > 0,
        0 <= i,
        m.source_kind == "cluster"@ ==> i < clusters.len() && clusters[i].0@ == m.source_label
            && clusters[i].1 == Some(name) && forall|k: int|
            0 <= k < i ==> (#[trigger] clusters[k]).0@ != m.source_label,
        m.source_kind == "swarm"@ ==> i < swarms.len() && swarms[i].0@ == m.source_label
            && swarms[i].1 == Some(name) && forall|k: int|
            0 <= k < i ==> (#[trigger] swarms[k]).0@ != m.source_label,
    ensures
        m.source_kind == "cluster"@ || m.source_kind == "swarm"@ ==> named_source(
            m,
            clusters,
            swarms,
        ) == (ChatModelV { source_label: name@, ..m }),
        m.source_kind != "cluster"@ && m.source_kind != "swarm"@ ==> named_source(
            m,
            clusters,
            swarms,
        ) == m,
{
    reveal_strlit("cluster");
    reveal_strlit("swarm");
    assert("cluster"@.len() != "swarm"@.len());
    if m.source_kind == "cluster"@ {
        lemma_network_is_named(clusters, i, name);
    }
    if m.source_kind == "swarm"@ {
        lemma_network_is_named(swarms, i, name);
    }
}

proof fn lemma_network_is_named(v: Seq<(String, Option<String>)>, i: int, name: String)
    requires
        0 <= i < v.len(),
        v[i].1 == Some(name),
        name@.len() > 0,
        forall|k: int| 0 <= k < i ==> (#[trigger] v[k]).0@ != v[i].0@,
    ensures
        network_name(v, v[i].0@) == Some(name@),
    decreases i,
{
    if i > 0 {
        let more = v.skip(1);
        assert(more[i - 1] == v[i]);
        assert forall|k: int| 0 <= k < i - 1 implies (#[trigger] more[k]).0@ != more[i - 1].0@ by {
            assert(more[k] == v[k + 1]);
        }
        assert(v[0].0@ != v[i].0@);
        lemma_network_is_named(more, i - 1, name);
    }
}

} // verus!
