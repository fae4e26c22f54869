//! The dispatcher: one entry point for every incoming request envelope.
//!
//! A request is classified by its namespace name and forwarded to the
//! matching handler; the handler's result is wrapped in a `reply`
//! envelope. A message no handler claims — an unknown name, a malformed
//! body, an empty method — is answered by the inert, empty envelope and
//! nothing else happens; a known namespace with an unknown method is
//! answered with the explicit `undefined` result. Neither case ever
//! faults or hangs.

use vstd::prelude::*;
use crate::comm::{GreeterComm, WindowMeta, window_meta_json};
use crate::config::{GreeterConfig, config_result};
use crate::envelope::{Namespace, RawMessage, Reply, classified, inert_reply, part_views,
    reply_of};
use crate::json::{Json, JsonV, decode_args, encoded};
use crate::lightdm::{HostAction, LightDm, Outcome, OutcomeV, ResultV, action_view,
    lightdm_next, lightdm_out};
use crate::theme_utils::{ThemeUtils, ThemeUtilsStep, dirlist_precheck};

verus! {

/// What one routed request asks of the driver.
pub enum Routed {
    /// Send this reply back to the sender; nothing else.
    Reply(Reply),
    /// Send the reply back, and also perform the action, fire-and-forget.
    ReplyWithAction(Reply, HostAction),
    /// Send the reply back, and fan the data out to every surface on the
    /// broadcast channel.
    ReplyWithBroadcast(Reply, Json),
    /// Perform the action; the reply is built from its outcome with
    /// `finish_command` and `reply_of`.
    AwaitHost(HostAction),
    /// Resolve the path (second: whether only images are wanted); the
    /// reply is built with `dirlist_resolved` and `dirlist_entries`.
    AwaitDirlist(Vec<char>, bool),
    /// Raise a script-visible exception with this message.
    Fault(Vec<char>),
}

/// The body text of a reply for a modelled handler result.
pub open spec fn reply_body_v(rv: ResultV) -> Seq<char> {
    match rv {
        ResultV::Value(j) => encoded(j),
        ResultV::Undefined => "undefined"@,
    }
}

/// Whether `r` is a ready `reply` envelope carrying the result `rv`.
pub open spec fn is_reply(r: Routed, rv: ResultV) -> bool {
    &&& r matches Routed::Reply(rep)
    &&& rep.name@ == "reply"@
    &&& rep.body matches Some(b) && b@ == reply_body_v(rv)
}

/// Whether `r` reflects a session-API outcome.
pub open spec fn reflects(r: Routed, o: OutcomeV) -> bool {
    match o {
        OutcomeV::Reply(rv) => is_reply(r, rv),
        OutcomeV::ReplyWithAction(rv, a) => {
            &&& r matches Routed::ReplyWithAction(rep, act)
            &&& rep.name@ == "reply"@
            &&& rep.body matches Some(b) && b@ == reply_body_v(rv)
            &&& action_view(act) == a
        },
        OutcomeV::AwaitAction(a) => r matches Routed::AwaitHost(act) && action_view(act) == a,
        OutcomeV::Fault(t) => r matches Routed::Fault(ft) && ft@ == t,
    }
}

/// The dispatcher: the four handlers, one per namespace.
pub struct Dispatcher {
    pub lightdm: LightDm,
    pub config: GreeterConfig,
    pub comm: GreeterComm,
    pub theme_utils: ThemeUtils,
}

impl Dispatcher {
    /// A dispatcher over the given handlers.
    pub fn new(
        lightdm: LightDm,
        config: GreeterConfig,
        comm: GreeterComm,
        theme_utils: ThemeUtils,
    ) -> (r: Dispatcher)
        ensures
            r.lightdm == lightdm,
            r.config == config,
            r.comm == comm,
            r.theme_utils == theme_utils,
    {
        Dispatcher { lightdm, config, comm, theme_utils }
    }

    /// Routes one request envelope.
    ///
    /// A message that classifies to no namespace — wrong arity, empty
    /// method, unknown name — gets the inert, empty reply and changes
    /// nothing. A known namespace dispatches to its handler; an unknown
    /// method inside it is the explicit `undefined` reply, by the
    /// handlers' tables. The argument text is read as a JSON array; the
    /// clauses below pin the outcome for every argument list the script
    /// side can have encoded.
    pub fn route(&mut self, msg: RawMessage, meta: &WindowMeta) -> (r: Routed)
        ensures
            (match classified(msg.name@, part_views(msg.parts@)) {
                None => {
                    &&& r matches Routed::Reply(rep) && rep.name@ == Seq::<char>::empty()
                        && rep.body is None
                    &&& *final(self) == *old(self)
                },
                Some((ns, method, atext)) => {
                    match ns {
                        Namespace::SessionApi => forall|es: Seq<JsonV>|
                            atext == encoded(JsonV::Arr(es)) ==> ({
                                &&& final(self).lightdm == lightdm_next(
                                    old(self).lightdm,
                                    method,
                                    es,
                                )
                                &&& final(self).config == old(self).config
                                &&& final(self).theme_utils == old(self).theme_utils
                                &&& reflects(r, lightdm_out(old(self).lightdm, method, es))
                            }),
                        Namespace::ConfigSnapshot => {
                            &&& *final(self) == *old(self)
                            &&& is_reply(
                                r,
                                config_result(
                                    old(self).config.settings,
                                    old(self).config.layouts@,
                                    method,
                                ),
                            )
                        },
                        Namespace::BroadcastChannel => {
                            &&& *final(self) == *old(self)
                            &&& (method == "window_metadata"@ ==> is_reply(
                                r,
                                ResultV::Value(window_meta_json(*meta)),
                            ))
                            &&& forall|es: Seq<JsonV>|
                                atext == encoded(JsonV::Arr(es)) ==> ({
                                    &&& (method == "broadcast"@ && es.len() >= 1 ==> ({
                                        &&& r matches Routed::ReplyWithBroadcast(rep, d)
                                        &&& rep.name@ == "reply"@
                                        &&& rep.body matches Some(b) && b@ == reply_body_v(
                                            ResultV::Value(JsonV::Bool(true)),
                                        )
                                        &&& d@ == es[0]
                                    }))
                                    &&& (method != "window_metadata"@ && !(method == "broadcast"@
                                        && es.len() >= 1) ==> is_reply(r, ResultV::Undefined))
                                })
                        },
                        Namespace::FilesystemUtility => {
                            &&& *final(self) == *old(self)
                            &&& forall|es: Seq<JsonV>|
                                atext == encoded(JsonV::Arr(es)) ==> ({
                                    &&& ((method != "dirlist"@ || es.len() == 0) ==> is_reply(
                                        r,
                                        ResultV::Undefined,
                                    ))
                                    &&& (method == "dirlist"@ && es.len() == 1 ==> is_reply(
                                        r,
                                        ResultV::Value(JsonV::Null),
                                    ))
                                    &&& (method == "dirlist"@ && es.len() >= 2 ==> (match
                                        dirlist_precheck(es) {
                                        Some((p, oi)) => r matches Routed::AwaitDirlist(path, only)
                                            && path@ == p && only == oi,
                                        None => is_reply(
                                            r,
                                            ResultV::Value(JsonV::Arr(Seq::<JsonV>::empty())),
                                        ),
                                    }))
                                })
                        },
                    }
                },
            }),
    {
        let parsed = crate::envelope::parse_message(msg);
        let (ns, method, atext) = match parsed {
            Some(t) => t,
            None => {
                return Routed::Reply(inert_reply());
            },
        };
        let args: Vec<Json> = decode_args(&atext);
        proof {
            crate::json::lemma_jviews_len(args@);
            if args@.len() > 0 {
                crate::json::lemma_jviews_index(args@, 0);
            }
        }
        match ns {
            Namespace::SessionApi => {
                let outcome = self.lightdm.handle(&method, &args);
                match outcome {
                    Outcome::Reply(hr) => Routed::Reply(reply_of(hr)),
                    Outcome::ReplyWithAction(hr, a) => Routed::ReplyWithAction(reply_of(hr), a),
                    Outcome::AwaitAction(a) => Routed::AwaitHost(a),
                    Outcome::Fault(t) => Routed::Fault(t),
                }
            },
            Namespace::ConfigSnapshot => {
                let hr = self.config.handle(&method);
                Routed::Reply(reply_of(hr))
            },
            Namespace::BroadcastChannel => {
                let (hr, data) = self.comm.handle(&method, args, meta);
                match data {
                    Some(d) => Routed::ReplyWithBroadcast(reply_of(hr), d),
                    None => Routed::Reply(reply_of(hr)),
                }
            },
            Namespace::FilesystemUtility => {
                let step = self.theme_utils.handle(&method, args);
                match step {
                    ThemeUtilsStep::Done(hr) => Routed::Reply(reply_of(hr)),
                    ThemeUtilsStep::Resolve(path, only) => Routed::AwaitDirlist(path, only),
                }
            },
        }
    }
}

} // verus!
