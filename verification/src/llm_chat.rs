//! A chat with a model on this host.

use crate::json;
use crate::json::{Json, JsonV};
use crate::text;
use vstd::prelude::*;

verus! {

/// A chat: the model, and what was said.
#[derive(Debug)]
pub struct LLMChat {
    pub base_url: String,
    pub model_name: String,
    /// What the user said, and what the model answered.
    pub conversation_history: Vec<(String, String)>,
}

/// What was said.
pub open spec fn history_view(v: Seq<(String, String)>) -> Seq<(Seq<char>, Seq<char>)> {
    v.map_values(|p: (String, String)| (p.0@, p.1@))
}

/// The names of the models in an answer of Ollama.
pub open spec fn model_names(models: Seq<JsonV>) -> Seq<Seq<char>>
    decreases models.len(),
{
    if models.len() == 0 {
        Seq::empty()
    } else {
        let before = model_names(models.drop_last());
        match json::str_field(models.last(), "name"@) {
            Some(n) => before.push(n),
            None => before,
        }
    }
}

/// The names of the models in an answer of Ollama; none where it lists none.
pub fn available_models(body: &Json) -> (r: Option<Vec<String>>)
    ensures
        match json::arr_in(json::field(body@, "models"@)) {
            Some(ms) => r matches Some(v) && text::views(v@) == model_names(ms),
            None => r is None,
        },
{
    let models = match body.get("models") {
        Some(m) => m.as_array(),
        None => None,
    };
    let models = match models {
        Some(m) => m,
        None => {
            return None;
        },
    };
    let ghost mv = json::items_view(models@);
    let mut out: Vec<String> = Vec::new();
    assert(text::views(out@) =~= model_names(mv.take(0)));
    for i in 0..models.len()
        invariant
            mv == json::items_view(models@),
            text::views(out@) == model_names(mv.take(i as int)),
    {
        proof {
            assert(mv.take(i as int + 1).drop_last() =~= mv.take(i as int));
            assert(mv.take(i as int + 1).last() == models@[i as int]@);
        }
        if let Some(n) = models[i].get_str("name") {
            let item = text::copy(n);
            proof {
                text::lemma_views_push(out@, item);
            }
            out.push(item);
        }
    }
    assert(mv.take(mv.len() as int) =~= mv);
    Some(out)
}

/// Why a chat with `model` cannot begin, where Ollama has the models `names`.
pub open spec fn model_fault(names: Seq<Seq<char>>, model: Seq<char>) -> Option<Seq<char>> {
    if names.len() == 0 {
        Some("No models available. Please pull a model first."@)
    } else if !names.contains(model) {
        Some("Model '"@ + model + "' not found. Run: ollama pull "@ + model)
    } else {
        None
    }
}

/// The address of Ollama at `host` and `port`.
pub open spec fn ollama_at(host: Seq<char>, port: u16) -> Seq<char> {
    "http://"@ + host + ":"@ + text::dec(port as nat)
}

/// The address of Ollama at `host` and `port`.
pub fn ollama_url(host: &str, port: u16) -> (r: String)
    ensures
        r@ == ollama_at(host@, port),
{
    let front = text::concat3("http://", host, ":");
    text::concat2(&front, &text::dec_u64(port as u64))
}

/// The model that the user chose by its number, the first being 1.
pub fn chosen_model(names: &Vec<String>, input: &str) -> (r: Option<String>)
    ensures
        text::opt_view(r) == match text::parsed(text::trimmed(input@), usize::MAX as nat) {
            Some(n) => if 0 < n <= names@.len() {
                Some(names@[n - 1]@)
            } else {
                None
            },
            None => None,
        },
{
    match text::parse_up_to(&text::trim(input), usize::MAX as u64) {
        Some(n) => if n > 0 && n <= names.len() as u64 {
            Some(text::copy(&names[(n - 1) as usize]))
        } else {
            None
        },
        None => None,
    }
}

/// One thing that was said.
pub open spec fn message(role: Seq<char>, content: Seq<char>) -> JsonV {
    JsonV::Obj(
        Map::<Seq<char>, JsonV>::empty().insert("role"@, JsonV::Str(role)).insert(
            "content"@,
            JsonV::Str(content),
        ),
    )
}

/// All that was said, in turn.
pub open spec fn history_messages(h: Seq<(Seq<char>, Seq<char>)>) -> Seq<JsonV>
    decreases h.len(),
{
    if h.len() == 0 {
        Seq::empty()
    } else {
        history_messages(h.drop_last()).push(message("user"@, h.last().0)).push(
            message("assistant"@, h.last().1),
        )
    }
}

/// What the model is asked: all that was said, and what the user says now.
pub open spec fn chat_request(
    model: Seq<char>,
    h: Seq<(Seq<char>, Seq<char>)>,
    input: Seq<char>,
) -> JsonV {
    JsonV::Obj(
        Map::<Seq<char>, JsonV>::empty().insert("model"@, JsonV::Str(model)).insert(
            "messages"@,
            JsonV::Arr(history_messages(h).push(message("user"@, input))),
        ).insert("stream"@, JsonV::Bool(false)),
    )
}

/// The answer in a reply of Ollama.
pub open spec fn answer_in(body: JsonV) -> Option<Seq<char>> {
    match json::field(body, "message"@) {
        Some(m) => json::str_field(m, "content"@),
        None => None,
    }
}

/// Whether `r` and the talk `after` are what comes of a reply with `status` and `body` to
/// what the user said, where the talk was `before`.
pub open spec fn takes_in(
    before: Seq<(Seq<char>, Seq<char>)>,
    said: Seq<char>,
    status: u16,
    body: Result<&Json, &str>,
    after: Seq<(Seq<char>, Seq<char>)>,
    r: Result<String, String>,
) -> bool {
    let answer = match body {
        Ok(b) => if status == 200 {
            answer_in(b@)
        } else {
            None
        },
        Err(_) => None,
    };
    match r {
        Ok(a) => answer == Some(a@) && after == before.push((said, a@)),
        Err(m) => answer is None && m@ == (if status == 200 {
            match body {
                Ok(_) => "Invalid response from Ollama"@,
                Err(fault) => fault@,
            }
        } else {
            status_fault(status)
        }) && after == before,
    }
}

/// Why there is no answer, where Ollama replied with `status`.
pub open spec fn status_fault(status: u16) -> Seq<char> {
    if status == 404 {
        "Ollama error: Model endpoint returned 404. Check if model is installed."@
    } else if status == 500 {
        "Ollama server error: 500"@
    } else {
        "Ollama error: HTTP "@ + text::dec(status as nat)
    }
}

fn message_json(role: &str, content: &str) -> (r: Json)
    ensures
        r@ == message(role@, content@),
{
    json::object().with("role", json::string(role)).with("content", json::string(content))
}

impl LLMChat {
    /// A chat with `model` at `host` and `port`, where Ollama said what models it
    /// has. Where it lists none, any model will do.
    pub fn new(host: &str, port: u16, model: &str, names: Option<&Vec<String>>) -> (r: Result<
        LLMChat,
        String,
    >)
        ensures
            ({
                let fault = match names {
                    Some(v) => model_fault(text::views(v@), model@),
                    None => None,
                };
                match r {
                    Ok(c) => fault is None && c.base_url@ == ollama_at(host@, port)
                        && c.model_name@ == model@ && c.conversation_history@.len() == 0,
                    Err(m) => fault == Some(m@),
                }
            }),
    {
        if let Some(v) = names {
            assert(text::views(v@).len() == v@.len());
            if v.len() == 0 {
                return Err(text::copy("No models available. Please pull a model first."));
            }
            if !text::list_has(v, model) {
                let front = text::concat3("Model '", model, "' not found. Run: ollama pull ");
                return Err(text::concat2(&front, model));
            }
        }
        Ok(
            LLMChat {
                base_url: ollama_url(host, port),
                model_name: text::copy(model),
                conversation_history: Vec::new(),
            },
        )
    }

    /// What the model is asked when the user says `user_input`.
    pub fn request(&self, user_input: &str) -> (r: Json)
        ensures
            r@ == chat_request(
                self.model_name@,
                history_view(self.conversation_history@),
                user_input@,
            ),
    {
        let h = &self.conversation_history;
        let ghost hv = history_view(h@);
        let mut messages: Vec<Json> = Vec::new();
        assert(json::items_view(messages@) =~= history_messages(hv.take(0)));
        for i in 0..h.len()
            invariant
                hv == history_view(h@),
                json::items_view(messages@) == history_messages(hv.take(i as int)),
        {
            proof {
                assert(hv.take(i as int + 1).drop_last() =~= hv.take(i as int));
                assert(hv.take(i as int + 1).last() == (h@[i as int].0@, h@[i as int].1@));
            }
            let said = message_json("user", &h[i].0);
            let answered = message_json("assistant", &h[i].1);
            proof {
                json::lemma_items_push(messages@, said);
                json::lemma_items_push(messages@.push(said), answered);
            }
            messages.push(said);
            messages.push(answered);
        }
        assert(hv.take(hv.len() as int) =~= hv);
        let now = message_json("user", user_input);
        proof {
            json::lemma_items_push(messages@, now);
        }
        messages.push(now);
        json::object().with("model", json::string(&self.model_name)).with(
            "messages",
            json::array(messages),
        ).with("stream", Json::Bool(false))
    }

    /// Takes in how Ollama replied to what the user said: the status, and the body or
    /// the words why it is no JSON. An answer is remembered; where there is none,
    /// nothing changes.
    pub fn take_reply(&mut self, user_input: &str, status: u16, body: Result<&Json, &str>) -> (r:
        Result<String, String>)
        ensures
            final(self).base_url == old(self).base_url,
            final(self).model_name == old(self).model_name,
            r is Err ==> final(self).conversation_history@ == old(self).conversation_history@,
            takes_in(
                history_view(old(self).conversation_history@),
                user_input@,
                status,
                body,
                history_view(final(self).conversation_history@),
                r,
            ),
    {
        if status == 200 {
            let answer = match body {
                Ok(b) => match b.get("message") {
                    Some(m) => m.get_str("content"),
                    None => None,
                },
                Err(fault) => {
                    return Err(text::copy(fault));
                },
            };
            match answer {
                Some(a) => {
                    let ghost before = self.conversation_history@;
                    self.conversation_history.push((text::copy(user_input), text::copy(a)));
                    assert(history_view(self.conversation_history@) =~= history_view(before).push(
                        (user_input@, a@),
                    ));
                    Ok(text::copy(a))
                },
                None => Err(text::copy("Invalid response from Ollama")),
            }
        } else if status == 404 {
            Err(
                text::copy(
                    "Ollama error: Model endpoint returned 404. Check if model is installed.",
                ),
            )
        } else if status == 500 {
            Err(text::copy("Ollama server error: 500"))
        } else {
            Err(text::concat2("Ollama error: HTTP ", &text::dec_u64(status as u64)))
        }
    }

    /// What was said.
    pub fn get_history(&self) -> (r: &Vec<(String, String)>)
        ensures
            *r == self.conversation_history,
    {
        &self.conversation_history
    }

    /// Forgets what was said.
    pub fn clear_history(&mut self)
        ensures
            final(self).conversation_history@.len() == 0,
            final(self).base_url == old(self).base_url,
            final(self).model_name == old(self).model_name,
    {
        self.conversation_history.clear();
    }
}

/// What a line of the user asks for.
#[derive(Debug, PartialEq)]
pub enum ChatInput {
    Exit,
    Nothing,
    Say(String),
}

/// What a line of the user asks for.
pub fn read_input(line: &str) -> (r: ChatInput)
    ensures
        ({
            let t = text::trimmed(line@);
            match r {
                ChatInput::Exit => text::ascii_lower(t) == text::ascii_lower("exit"@),
                ChatInput::Nothing => t.len() == 0 && text::ascii_lower(t) != text::ascii_lower(
                    "exit"@,
                ),
                ChatInput::Say(s) => s@ == t && t.len() > 0 && text::ascii_lower(t)
                    != text::ascii_lower("exit"@),
            }
        }),
{
    let t = text::trim(line);
    if text::eq_ignore_ascii_case(&t, "exit") {
        ChatInput::Exit
    } else if t.as_str().is_empty() {
        ChatInput::Nothing
    } else {
        ChatInput::Say(t)
    }
}

proof fn lemma_history(h: Seq<(Seq<char>, Seq<char>)>)
    ensures
        history_messages(h).len() == 2 * h.len(),
        forall|i: int|
            #![trigger h[i]]
            0 <= i < h.len() ==> history_messages(h)[2 * i] == message("user"@, h[i].0)
                && history_messages(h)[2 * i + 1] == message("assistant"@, h[i].1),
    decreases h.len(),
{
    if h.len() > 0 {
        let front = h.drop_last();
        lemma_history(front);
        assert forall|i: int|
            #![trigger h[i]]
            0 <= i < h.len() implies history_messages(h)[2 * i] == message("user"@, h[i].0)
            && history_messages(h)[2 * i + 1] == message("assistant"@, h[i].1) by {
            if i < front.len() {
                assert(front[i] == h[i]);
            }
        }
    }
}

/// Whether `m` is a message of `role` that says `t`.
pub open spec fn says(m: JsonV, role: Seq<char>, t: Seq<char>) -> bool {
    json::field(m, "role"@) == Some(JsonV::Str(role)) && json::field(m, "content"@) == Some(
        JsonV::Str(t),
    )
}

/// A chat is asked with all that was said: each question of the user and each answer, in
/// their order, and the new question last; of the model that was chosen, and in one
/// piece.
pub proof fn law_chat_is_asked_in_full(
    model: Seq<char>,
    h: Seq<(Seq<char>, Seq<char>)>,
    input: Seq<char>,
)
    ensures
        json::field(chat_request(model, h, input), "model"@) == Some(JsonV::Str(model)),
        json::field(chat_request(model, h, input), "stream"@) == Some(JsonV::Bool(false)),
        json::field(chat_request(model, h, input), "messages"@) matches Some(JsonV::Arr(ms)) && {
            &&& ms.len() == 2 * h.len() + 1
            &&& says(ms.last(), "user"@, input)
            &&& forall|i: int|
                #![trigger h[i]]
                0 <= i < h.len() ==> says(ms[2 * i], "user"@, h[i].0) && says(
                    ms[2 * i + 1],
                    "assistant"@,
                    h[i].1,
                )
        },
{
    reveal_strlit("role");
    reveal_strlit("content");
    reveal_strlit("model");
    reveal_strlit("messages");
    reveal_strlit("stream");
    assert("role"@.len() == 4 && "content"@.len() == 7 && "model"@.len() == 5 && "messages"@.len()
        == 8 && "stream"@.len() == 6);
    lemma_history(h);
}

/// A chat can go on exactly with a model that is there.
pub proof fn law_missing_model_is_a_fault(names: Seq<Seq<char>>, model: Seq<char>)
    ensures
        names.contains(model) ==> model_fault(names, model) is None,
        !names.contains(model) ==> model_fault(names, model) is Some,
        !names.contains(model) && names.len() > 0 ==> (model_fault(names, model) matches Some(m)
            && text::has(m, model)),
{
    if names.len() > 0 && !names.contains(model) {
        let a = "Model '"@;
        let b = "' not found. Run: ollama pull "@;
        text::law_prefix_is_taken_off(model, a, b + model);
        assert(a + model + b + model =~= a + model + (b + model));
    }
}

/// The models of an answer of Ollama are those that have a name, in their order.
pub proof fn law_named_models_are_listed(models: Seq<JsonV>, m: JsonV, name: Seq<char>)
    ensures
        model_names(Seq::<JsonV>::empty()).len() == 0,
        json::field(m, "name"@) == Some(JsonV::Str(name)) ==> model_names(models.push(m))
            == model_names(models).push(name),
        json::field(m, "name"@) is None ==> model_names(models.push(m)) == model_names(models),
{
    assert(models.push(m).drop_last() =~= models);
}

/// The answer of a reply is the text of its message.
pub proof fn law_answer_is_read(body: JsonV, message: JsonV, said: Seq<char>)
    ensures
        json::field(body, "message"@) == Some(message) && json::field(message, "content"@) == Some(
            JsonV::Str(said),
        ) ==> answer_in(body) == Some(said),
        json::field(body, "message"@) is None ==> answer_in(body) is None,
{
}

/// An answer is remembered with what was said; a reply without one changes nothing, and
/// is a fault.
pub proof fn law_answer_is_remembered(
    before: Seq<(Seq<char>, Seq<char>)>,
    said: Seq<char>,
    status: u16,
    body: Result<&Json, &str>,
    after: Seq<(Seq<char>, Seq<char>)>,
    r: Result<String, String>,
)
    requires
        takes_in(before, said, status, body, after, r),
    ensures
        r is Ok <==> status == 200 && (body matches Ok(b) && answer_in(b@) is Some),
        r matches Ok(a) ==> after.len() == before.len() + 1 && after.last() == (said, a@) && after.take(
            before.len() as int,
        ) == before,
        r is Err ==> after == before,
{
    if r is Ok {
        assert(after.take(before.len() as int) =~= before);
    }
}

} // verus!
