//! The request flow shared by the text rewrite, the screen help and the
//! guidance steps: the KonX server first when the user is signed in, else the
//! local key, with one retry on the provider's smaller model when the
//! requested one is momentarily overloaded. The caller performs each action
//! and hands back what came of it.

use vstd::prelude::*;
use crate::ai::{
    is_transient, key_for, select_key, small_model, small_model_of, transient, AiResult, CallErr,
    Keys, Service,
};
use crate::text::str_eq;

verus! {

/// Whether the server route is open: a login token, a server URL and the
/// server's public key are all given, and neither the token nor the URL is empty.
pub open spec fn server_route_open(
    token: Option<Seq<char>>,
    url: Option<Seq<char>>,
    anon: Option<Seq<char>>,
) -> bool {
    &&& token matches Some(t) && t.len() > 0
    &&& url matches Some(u) && u.len() > 0
    &&& anon is Some
}

/// Whether requests go through the KonX server first (signed in).
pub fn use_server(
    auth_token: &Option<String>,
    server_url: &Option<String>,
    server_anon: &Option<String>,
) -> (r: bool)
    ensures
        r == server_route_open(
            crate::ai::opt_view(*auth_token),
            crate::ai::opt_view(*server_url),
            crate::ai::opt_view(*server_anon),
        ),
{
    match (auth_token, server_url, server_anon) {
        (Some(token), Some(url), Some(_)) => !token.as_str().is_empty() && !url.as_str().is_empty(),
        _ => false,
    }
}

/// Where the flow stands.
#[derive(Debug)]
pub enum Stage {
    /// Waiting for the server's reply.
    AwaitServer,
    /// Waiting for the locally stored keys.
    AwaitKeys,
    /// Waiting for the reply of the first local model call.
    AwaitFirst { key: String },
    /// Waiting for the reply of the retry on the smaller model.
    AwaitRetry { key: String, first_error: String },
    /// Finished.
    Done,
}

/// What the caller does next.
#[derive(Debug)]
pub enum AskAction {
    /// Ask the KonX server at the given tier with the user's provider and model.
    CallServer { provider: String, model: String, tier: String },
    /// Read the locally stored keys.
    LoadKeys,
    /// Call the provider's model directly with the local key.
    CallModel { service: Service, key: String, model: String },
    /// The request is over: the answer with the provider that gave it, or the error.
    Finish(Result<AiResult, String>),
}

/// What the caller hands back.
#[derive(Debug)]
pub enum AskEvent {
    ServerReply(Result<String, CallErr>),
    KeysLoaded(Keys),
    ModelReply(Result<String, CallErr>),
}

/// One model request, from the first call to its answer.
#[derive(Debug)]
pub struct AskFlow {
    provider: String,
    model: String,
    stage: Stage,
}

/// A server refusal that the local key must not bypass: the daily limit or
/// an expired login.
pub open spec fn binding_refusal(message: Seq<char>) -> bool {
    message == "SERVER_LIMIT"@ || message == "SERVER_AUTH"@
}

/// The service a provider's direct calls go to.
pub open spec fn service_of(provider: Seq<char>) -> Service {
    if provider == "openai"@ {
        Service::OpenAi
    } else {
        Service::Gemini
    }
}

/// Only the server's daily-limit and expired-login refusals end a request
/// before the local key is tried; OpenAI's requests go to OpenAI and every
/// other provider's to Gemini.
pub proof fn lemma_refusals_and_services(message: Seq<char>, provider: Seq<char>)
    ensures
        binding_refusal(message) <==> (message == "SERVER_LIMIT"@ || message == "SERVER_AUTH"@),
        provider == "openai"@ ==> service_of(provider) == Service::OpenAi,
        provider != "openai"@ ==> service_of(provider) == Service::Gemini,
{
}

/// The action finishes with `text` as the provider's answer.
pub open spec fn answers(a: AskAction, provider: Seq<char>, text: Seq<char>) -> bool {
    a matches AskAction::Finish(Ok(res)) && res.text@ == text && res.engine@ == provider
}

/// The action finishes with the error `message`.
pub open spec fn fails_with(a: AskAction, message: Seq<char>) -> bool {
    a matches AskAction::Finish(Err(m)) && m@ == message
}

impl AskFlow {
    pub closed spec fn provider_view(&self) -> Seq<char> {
        self.provider@
    }

    pub closed spec fn model_view(&self) -> Seq<char> {
        self.model@
    }

    /// The flow waits for the server's reply.
    pub closed spec fn awaits_server(&self) -> bool {
        self.stage is AwaitServer
    }

    /// The flow waits for the stored keys.
    pub closed spec fn awaits_keys(&self) -> bool {
        self.stage is AwaitKeys
    }

    /// The flow waits for the first local call, made with `key`.
    pub closed spec fn awaits_first(&self, key: Seq<char>) -> bool {
        self.stage matches Stage::AwaitFirst { key: k } && k@ == key
    }

    /// The flow waits for the retry, made with `key` after the first call
    /// failed with `first_error`.
    pub closed spec fn awaits_retry(&self, key: Seq<char>, first_error: Seq<char>) -> bool {
        self.stage matches Stage::AwaitRetry { key: k, first_error: f } && k@ == key && f@
            == first_error
    }

    /// The flow is over.
    pub closed spec fn is_done(&self) -> bool {
        self.stage is Done
    }

    /// Starts a request for `provider`'s `model`: at the server (large tier)
    /// when the route is open, else by reading the local keys.
    pub fn start(provider: &str, model: &str, server_first: bool) -> (r: (AskFlow, AskAction))
        ensures
            r.0.provider_view() == provider@,
            r.0.model_view() == model@,
            server_first ==> r.0.awaits_server() && (r.1 matches AskAction::CallServer {
                provider: p,
                model: m,
                tier: t,
            } && p@ == provider@ && m@ == model@ && t@ == "large"@),
            !server_first ==> r.0.awaits_keys() && r.1 is LoadKeys,
    {
        let provider = provider.to_owned();
        let model = model.to_owned();
        if server_first {
            let action = AskAction::CallServer {
                provider: provider.clone(),
                model: model.clone(),
                tier: "large".to_owned(),
            };
            (AskFlow { provider, model, stage: Stage::AwaitServer }, action)
        } else {
            (AskFlow { provider, model, stage: Stage::AwaitKeys }, AskAction::LoadKeys)
        }
    }

    fn finish_ok(&mut self, text: String) -> (r: AskAction)
        ensures
            final(self).provider_view() == old(self).provider_view(),
            final(self).model_view() == old(self).model_view(),
            final(self).is_done(),
            answers(r, old(self).provider_view(), text@),
    {
        self.stage = Stage::Done;
        AskAction::Finish(Ok(AiResult { text, engine: self.provider.clone() }))
    }

    fn finish_err(&mut self, message: String) -> (r: AskAction)
        ensures
            final(self).provider_view() == old(self).provider_view(),
            final(self).model_view() == old(self).model_view(),
            final(self).is_done(),
            fails_with(r, message@),
    {
        self.stage = Stage::Done;
        AskAction::Finish(Err(message))
    }

    /// Hands the flow what came of the last action. An event the flow is not
    /// waiting for is ignored (`None`, nothing changes).
    ///
    /// - The server's answer is the answer. A daily-limit or expired-login
    ///   refusal ends the request with that refusal; any other server failure
    ///   falls through to the local key.
    /// - With the keys read, the provider's key is chosen (`key_for`); without
    ///   one the request fails, else the requested model is called.
    /// - A failed first call is retried once on the provider's smaller model
    ///   when the failure is transient and the requested model is not already
    ///   the smaller one; otherwise its message is the error.
    /// - When the retry fails too, the first call's message is the error.
    pub fn step(&mut self, event: AskEvent) -> (r: Option<AskAction>)
        ensures
            final(self).provider_view() == old(self).provider_view(),
            final(self).model_view() == old(self).model_view(),
            // server stage
            old(self).awaits_server() ==> match event {
                AskEvent::ServerReply(Ok(text)) => r matches Some(a) && answers(a, old(self).provider_view(), text@)
                    && final(self).is_done(),
                AskEvent::ServerReply(Err(e)) => if binding_refusal(e.message@) {
                    r matches Some(a) && fails_with(a, e.message@) && final(self).is_done()
                } else {
                    r matches Some(AskAction::LoadKeys) && final(self).awaits_keys()
                },
                _ => r is None && *final(self) == *old(self),
            },
            // keys stage
            old(self).awaits_keys() ==> match event {
                AskEvent::KeysLoaded(keys) => match key_for(keys, old(self).provider_view()) {
                    Ok(k) => (r matches Some(AskAction::CallModel { service, key, model }) && service
                        == service_of(old(self).provider_view()) && key@ == k && model@ == old(self).model_view())
                        && final(self).awaits_first(k),
                    Err(m) => r matches Some(a) && fails_with(a, m) && final(self).is_done(),
                },
                _ => r is None && *final(self) == *old(self),
            },
            // first local call
            forall|k: Seq<char>| old(self).awaits_first(k) ==> match event {
                AskEvent::ModelReply(Ok(text)) => r matches Some(a) && answers(a, old(self).provider_view(), text@)
                    && final(self).is_done(),
                AskEvent::ModelReply(Err(e)) => {
                    let small = small_model_of(old(self).provider_view());
                    if old(self).model_view() != small && transient(e.status, e.message@) {
                        (r matches Some(AskAction::CallModel { service, key, model }) && service
                            == service_of(old(self).provider_view()) && key@ == k && model@ == small)
                            && final(self).awaits_retry(k, e.message@)
                    } else {
                        r matches Some(a) && fails_with(a, e.message@) && final(self).is_done()
                    }
                },
                _ => r is None && *final(self) == *old(self),
            },
            // the retry
            forall|k: Seq<char>, first: Seq<char>| old(self).awaits_retry(k, first) ==> match event {
                AskEvent::ModelReply(Ok(text)) => r matches Some(a) && answers(a, old(self).provider_view(), text@)
                    && final(self).is_done(),
                AskEvent::ModelReply(Err(_)) => r matches Some(a) && fails_with(a, first)
                    && final(self).is_done(),
                _ => r is None && *final(self) == *old(self),
            },
            old(self).is_done() ==> r is None && *final(self) == *old(self),
    {
        match event {
            AskEvent::ServerReply(reply) => {
                if !matches!(self.stage, Stage::AwaitServer) {
                    return None;
                }
                match reply {
                    Ok(text) => Some(self.finish_ok(text)),
                    Err(e) => {
                        if str_eq(e.message.as_str(), "SERVER_LIMIT") || str_eq(e.message.as_str(), "SERVER_AUTH") {
                            Some(self.finish_err(e.message))
                        } else {
                            self.stage = Stage::AwaitKeys;
                            Some(AskAction::LoadKeys)
                        }
                    },
                }
            },
            AskEvent::KeysLoaded(keys) => {
                if !matches!(self.stage, Stage::AwaitKeys) {
                    return None;
                }
                match select_key(&keys, self.provider.as_str()) {
                    Err(m) => Some(self.finish_err(m)),
                    Ok(key) => {
                        let service = if str_eq(self.provider.as_str(), "openai") {
                            Service::OpenAi
                        } else {
                            Service::Gemini
                        };
                        let action = AskAction::CallModel { service, key: key.clone(), model: self.model.clone() };
                        self.stage = Stage::AwaitFirst { key };
                        Some(action)
                    },
                }
            },
            AskEvent::ModelReply(reply) => {
                let mut stage = Stage::Done;
                std::mem::swap(&mut stage, &mut self.stage);
                match stage {
                    Stage::AwaitFirst { key } => match reply {
                        Ok(text) => Some(self.finish_ok(text)),
                        Err(e) => {
                            let small = small_model(self.provider.as_str());
                            if !str_eq(self.model.as_str(), small) && is_transient(&e) {
                                let service = if str_eq(self.provider.as_str(), "openai") {
                                    Service::OpenAi
                                } else {
                                    Service::Gemini
                                };
                                let action = AskAction::CallModel { service, key: key.clone(), model: small.to_owned() };
                                self.stage = Stage::AwaitRetry { key, first_error: e.message };
                                Some(action)
                            } else {
                                Some(self.finish_err(e.message))
                            }
                        },
                    },
                    Stage::AwaitRetry { key: _, first_error } => match reply {
                        Ok(text) => Some(self.finish_ok(text)),
                        Err(_) => Some(self.finish_err(first_error)),
                    },
                    other => {
                        self.stage = other;
                        None
                    },
                }
            },
        }
    }
}

} // verus!
