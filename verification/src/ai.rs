//! Talking to the language models: which key and model to use, what to send,
//! and how a reply (or a failure) is read.

use vstd::prelude::*;
use vstd::string::StringExecFns;
use crate::text::{
    chars_of, contains, lowercase, str_contains, str_eq, string_of, to_lowercase, trim,
    trim_chars,
};

verus! {

/// A failed model call: the HTTP status (0 for a network error) and the message.
#[derive(Clone, Debug)]
pub struct CallErr {
    pub status: u16,
    pub message: String,
}

/// A finished model answer and the provider that gave it.
#[derive(Clone, Debug)]
pub struct AiResult {
    pub text: String,
    pub engine: String,
}

/// The locally stored API keys; a missing key is empty.
#[derive(Clone, Debug)]
pub struct Keys {
    pub openai: String,
    pub gemini: String,
}

/// The smaller, more available model of a provider.
pub open spec fn small_model_of(provider: Seq<char>) -> Seq<char> {
    if provider == "openai"@ {
        "gpt-4o-mini"@
    } else {
        "gemini-flash-lite-latest"@
    }
}

/// The smaller, more-available model for a provider: the retry target when
/// the requested (usually large) model is momentarily overloaded.
pub fn small_model(provider: &str) -> (r: &'static str)
    ensures
        r@ == small_model_of(provider@),
{
    if str_eq(provider, "openai") {
        "gpt-4o-mini"
    } else {
        "gemini-flash-lite-latest"
    }
}

/// OpenAI falls back to "gpt-4o-mini"; every other provider to
/// "gemini-flash-lite-latest".
pub proof fn lemma_small_models(provider: Seq<char>)
    ensures
        provider == "openai"@ ==> small_model_of(provider) == "gpt-4o-mini"@,
        provider != "openai"@ ==> small_model_of(provider) == "gemini-flash-lite-latest"@,
{
}

/// The message phrases that mark a passing overload or rate limit.
pub open spec fn overload_phrase(m: Seq<char>) -> bool {
    ||| contains(m, "high demand"@)
    ||| contains(m, "overloaded"@)
    ||| contains(m, "unavailable"@)
    ||| contains(m, "exhausted"@)
    ||| contains(m, "rate limit"@)
    ||| contains(m, "try again"@)
}

/// A call failed only for the moment: status 503 or 429, or a message that,
/// lowercased, names an overload or a rate limit.
pub open spec fn transient(status: u16, message: Seq<char>) -> bool {
    status == 503 || status == 429 || overload_phrase(lowercase(message))
}

/// Exactly the passing failures are transient: status 503 or 429, or a
/// lowercased message that says "high demand", "overloaded", "unavailable",
/// "exhausted", "rate limit" or "try again". Any other failure, a plain 500
/// among them, is not.
pub proof fn lemma_transient_exactly(status: u16, message: Seq<char>)
    ensures
        transient(status, message) <==> (status == 503 || status == 429
            || contains(lowercase(message), "high demand"@)
            || contains(lowercase(message), "overloaded"@)
            || contains(lowercase(message), "unavailable"@)
            || contains(lowercase(message), "exhausted"@)
            || contains(lowercase(message), "rate limit"@)
            || contains(lowercase(message), "try again"@)),
{
}

/// A model can be briefly overloaded (503 "high demand") or rate-limited
/// (429) even when the key is valid and has quota left. Detect that so the
/// request is retried on the smaller model.
pub fn is_transient(e: &CallErr) -> (r: bool)
    ensures
        r == transient(e.status, e.message@),
{
    if e.status == 503 || e.status == 429 {
        return true;
    }
    let m = to_lowercase(e.message.as_str());
    let s = m.as_str();
    str_contains(s, "high demand") || str_contains(s, "overloaded") || str_contains(
        s,
        "unavailable",
    ) || str_contains(s, "exhausted") || str_contains(s, "rate limit") || str_contains(
        s,
        "try again",
    )
}


/// The key a provider's requests are made with: the trimmed stored key for
/// "openai" or "gemini", refused as "NO_KEY" when it is empty; any other
/// provider is refused as unknown.
pub open spec fn key_for(keys: Keys, provider: Seq<char>) -> Result<Seq<char>, Seq<char>> {
    if provider == "openai"@ || provider == "gemini"@ {
        let k = if provider == "openai"@ {
            trim(keys.openai@)
        } else {
            trim(keys.gemini@)
        };
        if k.len() == 0 {
            Err("NO_KEY"@)
        } else {
            Ok(k)
        }
    } else {
        Err("Unknown provider: "@ + provider)
    }
}

/// Each provider's requests carry that provider's own stored key, trimmed,
/// whatever the other provider's key is; an empty one is refused as "NO_KEY".
pub proof fn lemma_key_belongs_to_its_provider(keys: Keys, other: Keys)
    ensures
        trim(keys.gemini@).len() == 0 ==> key_for(keys, "gemini"@) == Err::<Seq<char>, Seq<char>>("NO_KEY"@),
        trim(keys.gemini@).len() > 0 ==> key_for(keys, "gemini"@) == Ok::<Seq<char>, Seq<char>>(trim(keys.gemini@)),
        trim(keys.openai@).len() == 0 ==> key_for(keys, "openai"@) == Err::<Seq<char>, Seq<char>>("NO_KEY"@),
        trim(keys.openai@).len() > 0 ==> key_for(keys, "openai"@) == Ok::<Seq<char>, Seq<char>>(trim(keys.openai@)),
        keys.gemini@ == other.gemini@ ==> key_for(keys, "gemini"@) == key_for(other, "gemini"@),
        keys.openai@ == other.openai@ ==> key_for(keys, "openai"@) == key_for(other, "openai"@),
{
    reveal_strlit("gemini");
    reveal_strlit("openai");
    assert("gemini"@[0] != "openai"@[0]);
}

/// `s`, trimmed.
pub fn trimmed(s: &str) -> (r: String)
    ensures
        r@ == trim(s@),
{
    let cs = chars_of(s);
    let t = trim_chars(cs.as_slice());
    string_of(t.as_slice())
}

/// The local key for `provider`, or the error the request fails with.
pub fn select_key(keys: &Keys, provider: &str) -> (r: Result<String, String>)
    ensures
        r matches Ok(k) ==> key_for(*keys, provider@) == Ok::<Seq<char>, Seq<char>>(k@),
        r matches Err(m) ==> key_for(*keys, provider@) == Err::<Seq<char>, Seq<char>>(m@),
{
    let key = if str_eq(provider, "openai") {
        trimmed(keys.openai.as_str())
    } else if str_eq(provider, "gemini") {
        trimmed(keys.gemini.as_str())
    } else {
        let mut m = "Unknown provider: ".to_owned();
        m.append(provider);
        return Err(m);
    };
    if chars_of(key.as_str()).len() == 0 {
        return Err("NO_KEY".to_owned());
    }
    Ok(key)
}

/// The user message of a rewrite: the trimmed instruction, then the text.
pub open spec fn rewrite_message(instruction: Seq<char>, text: Seq<char>) -> Seq<char> {
    "Instruction: "@ + trim(instruction) + "\n\nText:\n"@ + text
}

/// The message sent to the model for a rewrite: the user's instruction
/// (trimmed) and the text it applies to.
pub fn rewrite_request(instruction: &str, text: &str) -> (r: String)
    ensures
        r@ == rewrite_message(instruction@, text@),
{
    let mut m = "Instruction: ".to_owned();
    let i = trimmed(instruction);
    m.append(i.as_str());
    m.append("\n\nText:\n");
    m.append(text);
    m
}

/// Where a model request goes.
#[derive(Clone, Copy, Debug, PartialEq, Eq, Structural)]
pub enum Service {
    OpenAi,
    Gemini,
    /// The KonX server proxy, which meters use per plan.
    Server,
}

/// The message of a refused request whose reply names no error.
pub open spec fn refused_text(service: Service) -> Seq<char> {
    match service {
        Service::OpenAi => "OpenAI request failed"@,
        Service::Gemini => "Gemini request failed"@,
        Service::Server => "Server request failed"@,
    }
}

/// The message of an accepted request whose answer is blank.
pub open spec fn blank_text(service: Service) -> Seq<char> {
    match service {
        Service::OpenAi => "OpenAI returned nothing"@,
        Service::Gemini => "Gemini returned nothing"@,
        Service::Server => "Server returned nothing"@,
    }
}

/// The message a refused request fails with. The server's daily limit (429)
/// and expired login (401) get fixed markers so the caller knows not to
/// bypass them with the local key; otherwise the reply's own error message,
/// or a generic one.
pub open spec fn refusal_message(service: Service, status: u16, error_message: Option<Seq<char>>) -> Seq<char> {
    if service == Service::Server && status == 429 {
        "SERVER_LIMIT"@
    } else if service == Service::Server && status == 401 {
        "SERVER_AUTH"@
    } else {
        match error_message {
            Some(m) => m,
            None => refused_text(service),
        }
    }
}

/// One step into a decoded JSON reply: an object's field, or an array's item.
/// A step that does not apply (a field of an array, an item of an object, a
/// missing one) leads to nothing.
#[derive(Clone, Copy, Debug)]
pub enum JsonStep {
    Field(&'static str),
    Item(usize),
}

/// Where a service's decoded reply holds its error message and its answer
/// text.
pub open spec fn reply_paths_of(service: Service) -> (Seq<JsonStep>, Seq<JsonStep>) {
    match service {
        Service::OpenAi => (
            seq![JsonStep::Field("error"), JsonStep::Field("message")],
            seq![
                JsonStep::Field("choices"),
                JsonStep::Item(0),
                JsonStep::Field("message"),
                JsonStep::Field("content"),
            ],
        ),
        Service::Gemini => (
            seq![JsonStep::Field("error"), JsonStep::Field("message")],
            seq![
                JsonStep::Field("candidates"),
                JsonStep::Item(0),
                JsonStep::Field("content"),
                JsonStep::Field("parts"),
                JsonStep::Item(0),
                JsonStep::Field("text"),
            ],
        ),
        Service::Server => (seq![JsonStep::Field("message")], seq![JsonStep::Field("text")]),
    }
}

/// The paths to a service's reply error message and answer text: OpenAI's
/// `error.message` and first choice's message content, Gemini's
/// `error.message` and first candidate's first part's text, and the server's
/// own `message` and `text` fields.
pub fn reply_paths(service: Service) -> (r: (Vec<JsonStep>, Vec<JsonStep>))
    ensures
        (r.0@, r.1@) == reply_paths_of(service),
{
    match service {
        Service::OpenAi => {
            let e = vec![JsonStep::Field("error"), JsonStep::Field("message")];
            let t = vec![
                JsonStep::Field("choices"),
                JsonStep::Item(0),
                JsonStep::Field("message"),
                JsonStep::Field("content"),
            ];
            assert(e@ =~= reply_paths_of(service).0);
            assert(t@ =~= reply_paths_of(service).1);
            (e, t)
        },
        Service::Gemini => {
            let e = vec![JsonStep::Field("error"), JsonStep::Field("message")];
            let t = vec![
                JsonStep::Field("candidates"),
                JsonStep::Item(0),
                JsonStep::Field("content"),
                JsonStep::Field("parts"),
                JsonStep::Item(0),
                JsonStep::Field("text"),
            ];
            assert(e@ =~= reply_paths_of(service).0);
            assert(t@ =~= reply_paths_of(service).1);
            (e, t)
        },
        Service::Server => {
            let e = vec![JsonStep::Field("message")];
            let t = vec![JsonStep::Field("text")];
            assert(e@ =~= reply_paths_of(service).0);
            assert(t@ =~= reply_paths_of(service).1);
            (e, t)
        },
    }
}

/// How refused and blank replies read: the server's 429 is "SERVER_LIMIT" and
/// its 401 "SERVER_AUTH" whatever the reply says; every other refusal gives
/// the reply's own error message when it has one, else the service's
/// "... request failed"; a blank answer is the service's "... returned nothing".
pub proof fn lemma_reply_messages(service: Service, status: u16, error_message: Option<Seq<char>>)
    ensures
        service == Service::Server && status == 429 ==> refusal_message(service, status, error_message) == "SERVER_LIMIT"@,
        service == Service::Server && status == 401 ==> refusal_message(service, status, error_message) == "SERVER_AUTH"@,
        !(service == Service::Server && (status == 429 || status == 401)) ==> refusal_message(service, status, error_message) == match error_message {
            Some(m) => m,
            None => match service {
                Service::OpenAi => "OpenAI request failed"@,
                Service::Gemini => "Gemini request failed"@,
                Service::Server => "Server request failed"@,
            },
        },
        blank_text(service) == match service {
            Service::OpenAi => "OpenAI returned nothing"@,
            Service::Gemini => "Gemini returned nothing"@,
            Service::Server => "Server returned nothing"@,
        },
{
}

/// The view of an optional string.
pub open spec fn opt_view(s: Option<String>) -> Option<Seq<char>> {
    match s {
        Some(t) => Some(t@),
        None => None,
    }
}

/// The answer text of an accepted request: trimmed, empty when absent.
pub open spec fn answer_text(text: Option<Seq<char>>) -> Seq<char> {
    match text {
        Some(t) => trim(t),
        None => Seq::empty(),
    }
}

/// How a decoded model reply turns into an answer: a refused request (not a
/// success status) fails with `refusal_message`; an accepted one gives its
/// trimmed answer text, and fails with `blank_text` when that is empty. The
/// failure keeps the reply's HTTP status.
pub fn read_model_reply(
    service: Service,
    status: u16,
    success: bool,
    error_message: Option<String>,
    text: Option<String>,
) -> (r: Result<String, CallErr>)
    ensures
        !success ==> (r matches Err(e) && e.status == status && e.message@ == refusal_message(
            service,
            status,
            opt_view(error_message),
        )),
        success && answer_text(opt_view(text)).len() == 0 ==> (r matches Err(e) && e.status
            == status && e.message@ == blank_text(service)),
        success && answer_text(opt_view(text)).len() > 0 ==> (r matches Ok(out) && out@
            == answer_text(opt_view(text))),
{
    if !success {
        let message = if service == Service::Server && status == 429 {
            "SERVER_LIMIT".to_owned()
        } else if service == Service::Server && status == 401 {
            "SERVER_AUTH".to_owned()
        } else {
            match error_message {
                Some(m) => m,
                None => match service {
                    Service::OpenAi => "OpenAI request failed".to_owned(),
                    Service::Gemini => "Gemini request failed".to_owned(),
                    Service::Server => "Server request failed".to_owned(),
                },
            }
        };
        return Err(CallErr { status, message });
    }
    let out = match &text {
        Some(t) => trimmed(t.as_str()),
        None => String::new(),
    };
    if chars_of(out.as_str()).len() == 0 {
        let message = match service {
            Service::OpenAi => "OpenAI returned nothing".to_owned(),
            Service::Gemini => "Gemini returned nothing".to_owned(),
            Service::Server => "Server returned nothing".to_owned(),
        };
        return Err(CallErr { status, message });
    }
    Ok(out)
}


/// The instructions for rewriting the user's text.
pub const SYSTEM_PROMPT: &'static str = "You are Kaeya, a writing assistant. Apply the user's instruction to their text and reply with ONLY the resulting text — nothing else. Do NOT greet the user or address them by name. Do NOT add any preamble, introduction, explanation, notes, labels, or sign-off, and do NOT wrap the result in quotation marks. If the text is already correct for the instruction, return it unchanged.";

/// The on-screen helper: the model is shown a photo of the user's screen plus
/// their question, and answers with simple, friendly, step-by-step guidance.
pub const VISION_PROMPT: &'static str = "You are Kaeya, a warm, friendly helper for people who are NOT comfortable with computers. You are shown a photo of the user's screen and their question. Answer ONLY what they asked, based on what is really on their screen. Follow these rules strictly: keep it short and to the point; use everyday words, never technical jargon; when you give steps, write each step on its OWN line as a numbered list (1., 2., 3.), just one short sentence per step; tell them plainly where to look and what to click (for example: 'At the bottom, click the button that says Forward'); do NOT use asterisks, stars, markdown, bold symbols, hashes, or any special formatting characters; do NOT add a long introduction or a summary sentence at the end. If the answer is not visible on the screen, say so kindly in one short line, then give one or two simple tips.";

/// On-screen guidance one step at a time: the model sees the current screen,
/// the exact clickable element names on it, the goal and the steps done, and
/// returns just the single next step (or done).
pub const STEP_PROMPT: &'static str = "You are Kaeya, a warm, patient helper for people who are NOT comfortable with computers. You are shown a photo of the user's CURRENT screen and a list of the exact clickable things on it, with their real names. You are told the user's overall goal and the steps they have already done. Decide the SINGLE next thing they should do right now, based only on what is ACTUALLY on the current screen. Reply with ONLY a JSON object and nothing else — no markdown, no code fences, no text before or after. Use exactly this shape: {\"say\":\"one short friendly sentence telling them what to do next\",\"point\":\"the exact Name to point at, copied from the list, or an empty string if this step points at nothing\",\"done\":false}. Rules: 'say' is one short sentence in everyday words, no jargon; when the step means clicking something, 'point' MUST be a Name copied from the list, and copy ONLY the Name, never the '[Type]' part in square brackets; the Name in the list is the control's REAL name — use it even when the button only shows a single letter or a small icon (for example Microsoft Word's bold button is named 'Bold' in the list, not 'B'; its underline button is 'Underline', not 'U') — always copy the full Name from the list, never the single letter or symbol drawn on the button; if the step is to TYPE something, set 'point' to the box or field where they should type it (typing fields appear in the list as Edit or ComboBox) so Kaeya can point at it; only use an empty 'point' when there is genuinely nothing on the screen to point at; set 'done' to true ONLY when the goal is ALREADY completely finished with NOTHING left for the user to click or type (for example, you can see the email has already been sent); while ANY action still remains — including a final Send button — 'done' MUST be false and you MUST give that action as the step with its 'point' (do NOT describe it as a goodbye); when 'done' is true, put a short warm congratulations in 'say' and leave 'point' empty; never invent a name that is not in the list; no extra keys; output nothing but the JSON.";

/// The OpenAI chat-completions endpoint.
pub const OPENAI_CHAT_URL: &'static str = "https://api.openai.com/v1/chat/completions";

/// `s` without its trailing '/' characters (`str::trim_end_matches('/')`).
pub open spec fn without_trailing_slashes(s: Seq<char>) -> Seq<char>
    decreases s.len(),
{
    if s.len() > 0 && s.last() == '/' {
        without_trailing_slashes(s.drop_last())
    } else {
        s
    }
}

/// The server's AI function under a project URL.
pub open spec fn server_endpoint_of(url: Seq<char>) -> Seq<char> {
    without_trailing_slashes(url) + "/functions/v1/ai"@
}

/// The AI function of the KonX server at `url` (trailing slashes dropped).
pub fn server_endpoint(url: &str) -> (r: String)
    ensures
        r@ == server_endpoint_of(url@),
{
    let cs = chars_of(url);
    let mut j: usize = cs.len();
    assert(cs@.subrange(0, j as int) =~= cs@);
    while j > 0 && cs[j - 1] == '/'
        invariant
            j <= cs@.len(),
            cs@ == url@,
            without_trailing_slashes(cs@) == without_trailing_slashes(cs@.subrange(0, j as int)),
        decreases j,
    {
        proof {
            let u = cs@.subrange(0, j as int);
            assert(u.drop_last() =~= cs@.subrange(0, j - 1));
        }
        j = j - 1;
    }
    proof {
        let u = cs@.subrange(0, j as int);
        if u.len() > 0 {
            assert(u.last() == cs@[j - 1]);
        }
    }
    let head = string_of(crate::text::slice_range(cs.as_slice(), 0, j).as_slice());
    let mut r = head;
    r.append("/functions/v1/ai");
    r
}

/// A project URL given with or without a trailing slash reaches the same
/// endpoint.
pub proof fn lemma_endpoint_ignores_trailing_slash(url: Seq<char>)
    ensures
        server_endpoint_of(url.push('/')) == server_endpoint_of(url),
{
    assert(url.push('/').drop_last() =~= url);
}

/// The Gemini generate-content endpoint of a model.
pub open spec fn gemini_endpoint_of(model: Seq<char>) -> Seq<char> {
    "https://generativelanguage.googleapis.com/v1beta/models/"@ + model + ":generateContent"@
}

/// The Gemini generate-content endpoint of `model`.
pub fn gemini_endpoint(model: &str) -> (r: String)
    ensures
        r@ == gemini_endpoint_of(model@),
{
    let mut r = "https://generativelanguage.googleapis.com/v1beta/models/".to_owned();
    r.append(model);
    r.append(":generateContent");
    r
}

/// A JPEG image, base64-encoded, as a data URL.
pub fn jpeg_data_url(image_b64: &str) -> (r: String)
    ensures
        r@ == "data:image/jpeg;base64,"@ + image_b64@,
{
    let mut r = "data:image/jpeg;base64,".to_owned();
    r.append(image_b64);
    r
}

} // verus!
