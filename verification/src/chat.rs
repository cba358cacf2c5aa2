//! Requests to the chat service.

use vstd::prelude::*;
use crate::json::{
    lemma_field_trees_push, lemma_item_trees_push, lemma_tree, lookup, text_json, Json, JsonTree,
};
use crate::json_text::{compact_json, compact_text, ordered};
use crate::number::{decimal, u64_text};
use crate::search::{ends, ends_with, strip_suffixes, without_suffixes};
use crate::text::{
    chars, is_blank, lemma_run_len_is, lemma_tail_len, lemma_tail_len_is, lemma_trim_of,
    lemma_trim_of_fixed, string, trim, trim_end_class, trim_end_of, trimmed, white, CharClass,
};

verus! {

/// The address without white space around it and without slashes at its end.
pub open spec fn bare_url(base: Seq<char>) -> Seq<char> {
    trim_end_of(trimmed(base), CharClass::OneOf("/"))
}

/// The address of the service without its version.
pub open spec fn base_of(base: Seq<char>) -> Seq<char> {
    without_suffixes(bare_url(base), "/v1"@)
}

/// The address that chat requests go to.
pub open spec fn chat_url(base: Seq<char>) -> Seq<char> {
    if ends(bare_url(base), "/chat/completions"@) {
        bare_url(base)
    } else {
        base_of(base) + "/chat/completions"@
    }
}

/// The address of the service without its version.
pub fn normalize_base_url(base: &str) -> (r: String)
    ensures
        r@ == base_of(base@),
{
    let all = chars(base);
    let bare = trim_end_class(trim(all.as_slice()), CharClass::OneOf("/"));
    string(strip_suffixes(bare, "/v1"))
}

/// The address without white space around it and without slashes at its end.
pub fn strip_base_url(base: &str) -> (r: String)
    ensures
        r@ == bare_url(base@),
{
    let all = chars(base);
    string(trim_end_class(trim(all.as_slice()), CharClass::OneOf("/")))
}

/// The address that chat requests go to.
pub fn chat_completions_url(base_url: &str) -> (r: String)
    ensures
        r@ == chat_url(base_url@),
{
    let all = chars(base_url);
    let bare = trim_end_class(trim(all.as_slice()), CharClass::OneOf("/"));
    if ends_with(bare, "/chat/completions") {
        string(bare)
    } else {
        let mut out = string(strip_suffixes(bare, "/v1"));
        out.append("/chat/completions");
        out
    }
}

proof fn lemma_without_suffixes(s: Seq<char>, pat: Seq<char>)
    ensures
        without_suffixes(s, pat).len() <= s.len(),
        without_suffixes(s, pat) == s.take(without_suffixes(s, pat).len() as int),
    decreases s.len(),
{
    if pat.len() > 0 && ends(s, pat) {
        let t = s.take(s.len() - pat.len());
        lemma_without_suffixes(t, pat);
        let u = without_suffixes(t, pat);
        assert(t.take(u.len() as int) =~= s.take(u.len() as int));
    } else {
        assert(s.take(s.len() as int) =~= s);
    }
}

/// The address for chat requests is its own address for chat requests: it can
/// take the place of the address that it was made from.
pub proof fn law_chat_url_is_stable(base: Seq<char>)
    ensures
        chat_url(chat_url(base)) == chat_url(base),
        ends(chat_url(base), "/chat/completions"@),
{
    let path = "/chat/completions"@;
    let slash = CharClass::OneOf("/");
    reveal_strlit("/chat/completions");
    reveal_strlit("/");
    let t = bare_url(base);
    let r = chat_url(base);
    lemma_trim_of(base, CharClass::White);
    lemma_tail_len(trimmed(base), slash);
    if !ends(t, path) {
        lemma_without_suffixes(t, "/v1"@);
        assert(r.subrange(r.len() - path.len(), r.len() as int) =~= path);
    }
    assert(ends(r, path));
    let tail = r.subrange(r.len() - path.len(), r.len() as int);
    assert(r.last() == tail.last());
    assert(r.last() == 's');
    assert(!white(r[0])) by {
        if ends(t, path) {
            assert(r[0] == trimmed(base)[0]);
        } else if base_of(base).len() > 0 {
            assert(r[0] == trimmed(base)[0]);
        } else {
            assert(r[0] == path[0]);
        }
    }
    lemma_trim_of_fixed(r, CharClass::White);
    assert(!"/"@.contains('s')) by {
        assert("/"@ =~= seq!['/']);
    }
    lemma_tail_len_is(r, slash, 0);
    assert(bare_url(r) =~= r);
}

/// One message of the user, as the service takes it.
pub open spec fn user_message(content: Seq<char>) -> JsonTree {
    JsonTree::Object(
        seq![("role"@, JsonTree::Text("user"@)), ("content"@, JsonTree::Text(content))],
    )
}

/// The body of a request for a streamed answer.
pub open spec fn stream_request(model: Seq<char>, prompt: Seq<char>) -> JsonTree {
    JsonTree::Object(
        seq![
            ("model"@, JsonTree::Text(model)),
            ("messages"@, JsonTree::List(seq![user_message(prompt)])),
            ("stream"@, JsonTree::Bool(true)),
        ],
    )
}

/// The body of a request for an answer in one piece, with nothing left to chance.
pub open spec fn plain_request(model: Seq<char>, prompt: Seq<char>) -> JsonTree {
    JsonTree::Object(
        seq![
            ("model"@, JsonTree::Text(model)),
            ("messages"@, JsonTree::List(seq![user_message(prompt)])),
            ("stream"@, JsonTree::Bool(false)),
            ("temperature"@, JsonTree::Int(0)),
        ],
    )
}

fn message_list(content: &str) -> (r: Json)
    ensures
        r@ == JsonTree::List(seq![user_message(content@)]),
{
    broadcast use lemma_tree, lemma_field_trees_push, lemma_item_trees_push;

    let mut fields: Vec<(String, Json)> = Vec::new();
    fields.push(("role".to_string(), text_json("user")));
    fields.push(("content".to_string(), text_json(content)));
    let message = Json::Object(fields);
    assert(message@->Object_0 =~= user_message(content@)->Object_0);
    let mut items: Vec<Json> = Vec::new();
    items.push(message);
    let r = Json::List(items);
    assert(r@->List_0 =~= seq![user_message(content@)]);
    r
}

/// The body of a request for a streamed answer.
pub fn stream_request_body(model: &str, prompt: &str) -> (r: Json)
    ensures
        r@ == stream_request(model@, prompt@),
{
    broadcast use lemma_tree, lemma_field_trees_push;

    let mut fields: Vec<(String, Json)> = Vec::new();
    fields.push(("model".to_string(), text_json(model)));
    fields.push(("messages".to_string(), message_list(prompt)));
    fields.push(("stream".to_string(), Json::Bool(true)));
    let r = Json::Object(fields);
    assert(r@->Object_0 =~= stream_request(model@, prompt@)->Object_0);
    r
}

/// The body of a request for an answer in one piece.
pub fn plain_request_body(model: &str, prompt: &str) -> (r: Json)
    ensures
        r@ == plain_request(model@, prompt@),
{
    broadcast use lemma_tree, lemma_field_trees_push;

    let mut fields: Vec<(String, Json)> = Vec::new();
    fields.push(("model".to_string(), text_json(model)));
    fields.push(("messages".to_string(), message_list(prompt)));
    fields.push(("stream".to_string(), Json::Bool(false)));
    fields.push(("temperature".to_string(), Json::Int(0)));
    let r = Json::Object(fields);
    assert(r@->Object_0 =~= plain_request(model@, prompt@)->Object_0);
    r
}

/// A request to the chat service: where it goes and what it says.
pub struct ChatRequest {
    pub url: String,
    pub body: String,
}

/// Prepares the request for a streamed answer. Without a key there is none.
pub fn start_deepseek_streaming(api_key: &str, base_url: &str, model: &str, prompt: &str) -> (r:
    Result<ChatRequest, String>)
    ensures
        r is Err == (trimmed(api_key@).len() == 0),
        r matches Err(e) ==> e@ == "DeepSeek API Key is empty"@,
        r matches Ok(request) ==> {
            &&& request.url@ == chat_url(base_url@)
            &&& request.body@ == compact_text(ordered(stream_request(model@, prompt@)))
        },
{
    if is_blank(api_key) {
        return Err("DeepSeek API Key is empty".to_string());
    }
    match compact_json(&stream_request_body(model, prompt)) {
        Ok(body) => Ok(ChatRequest { url: chat_completions_url(base_url), body }),
        Err(e) => Err(e),
    }
}

/// The complaint about an answer whose status is no success.
pub fn http_error(status: u16, text: &str) -> (r: String)
    ensures
        r@ == "DeepSeek HTTP "@ + decimal(status as int) + ": "@ + text@,
{
    let mut out = "DeepSeek HTTP ".to_string();
    out.append(u64_text(status as u64).as_str());
    out.append(": ");
    out.append(text);
    out
}

/// The output and exit code of a streamed answer.
pub open spec fn stream_result(outcome: Result<Seq<char>, Seq<char>>) -> (Seq<char>, int) {
    match outcome {
        Ok(answer) => (answer, 0),
        Err(e) => ("DeepSeek 流式请求失败："@ + e, -1),
    }
}

/// The output and exit code of a streamed answer.
pub fn finish_deepseek_streaming(outcome: Result<String, String>) -> (r: (String, i32))
    ensures
        (r.0@, r.1 as int) == stream_result(
            match outcome {
                Ok(answer) => Ok(answer@),
                Err(e) => Err(e@),
            },
        ),
{
    match outcome {
        Ok(answer) => (answer, 0),
        Err(e) => {
            let mut out = "DeepSeek 流式请求失败：".to_string();
            out.append(e.as_str());
            (out, -1)
        },
    }
}

/// However an address is written, with white space around it, with slashes or the version
/// behind it, the address for chat requests is the plain one with the path behind it, and
/// the plain one is what the program is given.
pub proof fn law_addresses_are_completed(root: Seq<char>)
    requires
        root.len() > 0,
        !white(root[0]),
        !white(root.last()),
        root.last() != '/',
        !ends(root, "/v1"@),
        !ends(root, "/chat/completions"@),
    ensures
        chat_url(root) == root + "/chat/completions"@,
        chat_url(root + "/"@) == root + "/chat/completions"@,
        chat_url(root + "/v1"@) == root + "/chat/completions"@,
        chat_url(" "@ + root + "/v1/"@) == root + "/chat/completions"@,
        base_of(root) == root,
        base_of(root + "/"@) == root,
        base_of(root + "/v1"@) == root,
        bare_url(root) == root,
        bare_url(root + "/"@) == root,
        bare_url(root + "/v1"@) == root + "/v1"@,
{
    reveal_strlit("/");
    reveal_strlit("/v1");
    reveal_strlit("/v1/");
    reveal_strlit(" ");
    reveal_strlit("/chat/completions");
    let v1 = root + "/v1"@;
    lemma_plain(root);
    assert(bare_url(root) == root);
    assert(without_suffixes(root, "/v1"@) == root);
    lemma_plain_slash(root, root + "/"@);
    assert(v1.last() == '1');
    lemma_plain(v1);
    assert(v1.subrange(v1.len() - 3, v1.len() as int) =~= "/v1"@);
    assert(v1.take(v1.len() - 3) =~= root);
    assert(without_suffixes(v1, "/v1"@) == root);
    if ends(v1, "/chat/completions"@) {
        assert(v1.subrange(v1.len() - 17, v1.len() as int).last() == 's');
    }
    let spaced = " "@ + root + "/v1/"@;
    assert(spaced =~= " "@ + v1 + "/"@);
    lemma_spaced(v1, spaced);
}

/// An address without white space around it and without slashes behind stays as it is.
proof fn lemma_plain(s: Seq<char>)
    requires
        s.len() > 0,
        !white(s[0]),
        !white(s.last()),
        s.last() != '/',
    ensures
        bare_url(s) == s,
{
    reveal_strlit("/");
    assert("/"@ =~= seq!['/']);
    lemma_trim_of_fixed(s, CharClass::White);
    lemma_tail_len_is(s, CharClass::OneOf("/"), 0);
    assert(bare_url(s) =~= s);
}

/// A slash behind an address is taken away.
proof fn lemma_plain_slash(s: Seq<char>, t: Seq<char>)
    requires
        s.len() > 0,
        !white(s[0]),
        s.last() != '/',
        t == s + "/"@,
    ensures
        bare_url(t) == s,
{
    reveal_strlit("/");
    assert("/"@ =~= seq!['/']);
    let slash = CharClass::OneOf("/");
    assert("/"@[0] == '/');
    assert(slash.holds('/'));
    lemma_trim_of_fixed(t, CharClass::White);
    assert(t[t.len() - 1] == '/');
    lemma_tail_len_is(t, slash, 1);
    assert(bare_url(t) =~= s);
}

/// White space before an address and a slash behind it are taken away.
proof fn lemma_spaced(s: Seq<char>, t: Seq<char>)
    requires
        s.len() > 0,
        !white(s[0]),
        s.last() != '/',
        t == " "@ + s + "/"@,
    ensures
        bare_url(t) == s,
{
    reveal_strlit("/");
    reveal_strlit(" ");
    let inner = s + "/"@;
    lemma_run_len_is(t, CharClass::White, true, 1);
    assert(t.skip(1) =~= inner);
    lemma_tail_len_is(inner, CharClass::White, 0);
    assert(trimmed(t) =~= inner);
    lemma_trim_of_fixed(inner, CharClass::White);
    lemma_plain_slash(s, inner);
}

/// A request names the model and holds one message, of the user, with the prompt as it
/// is; for a streamed answer it says so, and for a plan it asks for a whole answer without
/// chance in it.
pub proof fn law_requests_hold_model_and_prompt(model: Seq<char>, prompt: Seq<char>)
    ensures
        forall|request: JsonTree|
            #![trigger request.text_at("model"@)]
            request == stream_request(model, prompt) || request == plain_request(model, prompt)
                ==> {
                &&& request.text_at("model"@) == Some(model)
                &&& request.list_at("messages"@) matches Some(messages) && messages.len() == 1
                    && messages[0].text_at("role"@) == Some("user"@) && messages[0].text_at(
                    "content"@,
                ) == Some(prompt)
            },
        stream_request(model, prompt).bool_at("stream"@) == Some(true),
        plain_request(model, prompt).bool_at("stream"@) == Some(false),
        plain_request(model, prompt).int_at("temperature"@) == Some(0int),
{
    reveal_with_fuel(lookup, 5);
    reveal_strlit("model");
    reveal_strlit("messages");
    reveal_strlit("stream");
    reveal_strlit("temperature");
    reveal_strlit("role");
    reveal_strlit("content");
    assert("model"@.len() == 5 && "messages"@.len() == 8 && "stream"@.len() == 6
        && "temperature"@.len() == 11 && "role"@.len() == 4 && "content"@.len() == 7);
    let s = stream_request(model, prompt)->Object_0;
    let p = plain_request(model, prompt)->Object_0;
    assert(s.drop_first()[0] == s[1] && s.drop_first().drop_first()[0] == s[2]);
    assert(p.drop_first()[0] == p[1] && p.drop_first().drop_first()[0] == p[2]);
    assert(p.drop_first().drop_first().drop_first()[0] == p[3]);
    let m = user_message(prompt)->Object_0;
    assert(m.drop_first()[0] == m[1]);
}

/// An answer is reported as it is, with success; a failure is reported with its reason and
/// never as a success.
pub proof fn law_failures_are_not_reported_as_answers(text: Seq<char>)
    ensures
        stream_result(Ok(text)) == (text, 0int),
        stream_result(Err(text)).1 != 0,
        ends(stream_result(Err(text)).0, text),
{
    let s = stream_result(Err(text)).0;
    assert(s.subrange(s.len() - text.len(), s.len() as int) =~= text);
}

} // verus!
