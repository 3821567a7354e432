//! Getting a connection ready: the steps on the way to the server, and the secret that each takes.
use crate::credentials::{
    auth_method_with_secret, proxy_with_password, runtime_proxy_with_password, AuthMethod,
    ConnectionCredential, CredentialKind, CredentialPrompt, CredentialPromptKind, CredentialSource,
    RuntimeProxy,
};
use crate::message::SessionMessage;
use crate::profile::{
    find_profile, has_profile, is_direct_route, profile_position, same_profile, AuthConfig,
    ConnectionProfile, ConnectionRoute, ProxyConfig,
};
use crate::session::SessionId;
use crate::text::{clone_opt_text, text_eq};
use std::path::PathBuf;
use vstd::prelude::*;
use vstd::string::*;

verus! {

/// A server on the way, and how it is logged in to.
#[derive(Debug, PartialEq, Eq)]
pub struct ConnectionStep<S> {
    pub profile: ConnectionProfile,
    pub auth: AuthMethod<S>,
}

/// The whole way: a proxy, the servers to jump over in order, and the server itself.
#[derive(Debug, PartialEq, Eq)]
pub struct ConnectionPlan<S> {
    pub proxy: Option<RuntimeProxy<S>>,
    pub jumps: Vec<ConnectionStep<S>>,
    pub target: ConnectionStep<S>,
}

/// A secret that the user is asked for even where one is stored.
#[derive(Debug, PartialEq, Eq)]
pub struct ForcedPrompt {
    pub profile_id: String,
    pub kind: CredentialKind,
    pub error: Option<String>,
}

/// A connection that is being got ready. The steps are the servers to jump over and, last, the
/// target; the first `next_step` of them are ready.
#[derive(Debug, PartialEq, Eq)]
pub struct PendingConnectionPreparation<S> {
    pub session_id: SessionId,
    pub target_profile: ConnectionProfile,
    pub steps: Vec<ConnectionProfile>,
    pub next_step: usize,
    pub prepared_steps: Vec<ConnectionStep<S>>,
    pub credentials: Vec<ConnectionCredential<S>>,
    pub runtime_proxy: Option<RuntimeProxy<S>>,
    pub proxy_prepared: bool,
    pub force_prompt: Option<ForcedPrompt>,
}

/// What a connection that is being got ready needs next.
#[derive(Debug, PartialEq, Eq)]
pub enum PreparationNeed {
    /// The user is to be asked.
    Prompt { profile_id: String, ask: CredentialPromptKind, error: Option<String> },
    /// The keychain is to be asked; where it has nothing, the user is asked as `prompt` says.
    Lookup { profile_id: String, kind: CredentialKind, prompt: Option<CredentialPromptKind> },
    /// Nothing: every step is ready.
    Ready,
}

/// A profile's way to log in and a login agree.
pub open spec fn login_fits<S>(auth: AuthConfig, method: AuthMethod<S>) -> bool {
    match (auth, method) {
        (AuthConfig::NoPassword, AuthMethod::NoPassword) => true,
        (AuthConfig::Agent, AuthMethod::Agent) => true,
        (AuthConfig::Password, AuthMethod::Password { .. }) => true,
        (AuthConfig::PrivateKey { path }, AuthMethod::PrivateKey { path: used, .. }) => {
            used == path
        },
        _ => false,
    }
}

/// The secret that logging in to a profile's server takes.
pub open spec fn secret_of(profile: ConnectionProfile) -> Option<CredentialPromptKind> {
    match profile.auth {
        AuthConfig::Password => Some(CredentialPromptKind::Password),
        AuthConfig::PrivateKey { path } => Some(
            CredentialPromptKind::PrivateKeyPassphrase { path },
        ),
        AuthConfig::NoPassword => None,
        AuthConfig::Agent => None,
    }
}

/// The login of a profile that takes no secret.
pub open spec fn plain_login<S>(profile: ConnectionProfile) -> AuthMethod<S> {
    match profile.auth {
        AuthConfig::Agent => AuthMethod::Agent,
        _ => AuthMethod::NoPassword,
    }
}

/// The secret that a proxy takes, with what the user is asked where the keychain has none.
pub open spec fn secret_of_proxy(proxy: Option<ProxyConfig>) -> Option<
    (CredentialKind, Option<CredentialPromptKind>),
> {
    match proxy {
        Some(ProxyConfig::HttpConnect { username: Some(_), .. }) => Some(
            (CredentialKind::ProxyPassword, Some(CredentialPromptKind::ProxyPassword)),
        ),
        Some(ProxyConfig::Socks5 { username: Some(_), .. }) => Some(
            (CredentialKind::ProxyPassword, Some(CredentialPromptKind::ProxyPassword)),
        ),
        Some(ProxyConfig::ProxyCommand { .. }) => Some((CredentialKind::ProxyCommand, None)),
        _ => None,
    }
}

/// A proxy that takes no secret.
pub open spec fn plain_proxy<S>(proxy: Option<ProxyConfig>) -> Option<RuntimeProxy<S>> {
    match proxy {
        Some(ProxyConfig::HttpConnect { host, port, .. }) => Some(
            RuntimeProxy::HttpConnect { host, port, username: None, password: None },
        ),
        Some(ProxyConfig::Socks5 { host, port, .. }) => Some(
            RuntimeProxy::Socks5 { host, port, username: None, password: None },
        ),
        _ => None,
    }
}

/// The user is to be asked for this secret even where one is stored.
pub open spec fn is_forced(
    force: Option<ForcedPrompt>,
    profile_id: Seq<char>,
    kind: CredentialKind,
) -> bool {
    match force {
        Some(forced) => forced.profile_id@ == profile_id && forced.kind == kind,
        None => false,
    }
}

/// What a step that takes a secret needs.
pub open spec fn need_for(
    force: Option<ForcedPrompt>,
    profile_id: String,
    kind: CredentialKind,
    prompt: Option<CredentialPromptKind>,
) -> PreparationNeed {
    match (force, prompt) {
        (Some(forced), Some(asked)) => if is_forced(force, profile_id@, kind) {
            PreparationNeed::Prompt { profile_id, ask: asked, error: forced.error }
        } else {
            PreparationNeed::Lookup { profile_id, kind, prompt }
        },
        _ => PreparationNeed::Lookup { profile_id, kind, prompt },
    }
}

/// The first step from `from` on that takes a secret; the number of steps where there is none.
pub open spec fn next_secret_step(steps: Seq<ConnectionProfile>, from: int) -> int
    decreases steps.len() - from,
{
    if from >= steps.len() {
        steps.len() as int
    } else if secret_of(steps[from]) is Some {
        from
    } else {
        next_secret_step(steps, from + 1)
    }
}

proof fn next_secret_step_bounds(steps: Seq<ConnectionProfile>, from: int)
    requires
        0 <= from <= steps.len(),
    ensures
        from <= next_secret_step(steps, from) <= steps.len(),
    decreases steps.len() - from,
{
    if from < steps.len() && secret_of(steps[from]) is None {
        next_secret_step_bounds(steps, from + 1);
    }
}

/// Why a connection cannot be got ready: a server to jump over has no profile.
#[derive(Debug, PartialEq, Eq)]
pub struct MissingJump {
    pub jump_id: String,
}

/// The steps of the way to `target`: the profiles of the servers to jump over, each gone to
/// straight from the one before, and the target.
pub open spec fn are_steps_to(
    profiles: Seq<ConnectionProfile>,
    target: ConnectionProfile,
    steps: Seq<ConnectionProfile>,
) -> bool {
    let jumps = target.route.jump_host_ids@;
    &&& steps.len() == jumps.len() + 1
    &&& same_profile(steps.last(), target)
    &&& forall|i: int|
        0 <= i < jumps.len() ==> has_profile(profiles, (#[trigger] jumps[i])@) && is_jump_of(
            profiles[profile_position(profiles, jumps[i]@)],
            steps[i],
        )
}

/// `step` is `profile` gone to straight.
pub open spec fn is_jump_of(profile: ConnectionProfile, step: ConnectionProfile) -> bool {
    &&& step.id == profile.id
    &&& step.name == profile.name
    &&& step.host == profile.host
    &&& step.port == profile.port
    &&& step.username == profile.username
    &&& step.auth == profile.auth
    &&& is_direct_route(step.route)
}

/// The first server to jump over that has no profile.
pub open spec fn first_missing_jump(
    profiles: Seq<ConnectionProfile>,
    jumps: Seq<String>,
) -> int {
    crate::sequences::first_index(jumps, |id: String| !has_profile(profiles, id@))
}

/// The preparation after a secret was found or typed; `used` says whether it was of use.
pub open spec fn after_secret<S>(
    before: PendingConnectionPreparation<S>,
    profile_id: Seq<char>,
    kind: CredentialKind,
    prompt: Option<CredentialPromptKind>,
    secret: S,
    credential: ConnectionCredential<S>,
    after: PendingConnectionPreparation<S>,
    used: bool,
) -> bool {
    let proxy = before.target_profile.route.upstream_proxy;
    if kind == CredentialKind::ProxyCommand {
        match proxy {
            Some(ProxyConfig::ProxyCommand { approved_digest, .. }) => {
                &&& used
                &&& after == (PendingConnectionPreparation {
                    runtime_proxy: Some(
                        RuntimeProxy::ProxyCommand { command: secret, approved_digest },
                    ),
                    proxy_prepared: true,
                    ..before
                })
            },
            _ => !used && after == before,
        }
    } else {
        match prompt {
            None => !used && after == before,
            Some(CredentialPromptKind::ProxyPassword) => {
                &&& used
                &&& after == (PendingConnectionPreparation {
                    runtime_proxy: proxy_with_password(proxy, secret),
                    proxy_prepared: true,
                    credentials: after.credentials,
                    ..before
                })
                &&& after.credentials@ == before.credentials@.push(credential)
            },
            Some(CredentialPromptKind::PrivateKeyPassphrase { path }) => after_auth(
                before,
                profile_id,
                AuthMethod::PrivateKey { path, passphrase: Some(secret) },
                Some(credential),
                after,
                used,
            ),
            Some(CredentialPromptKind::Password) => after_auth(
                before,
                profile_id,
                AuthMethod::Password { password: secret },
                Some(credential),
                after,
                used,
            ),
        }
    }
}

/// The preparation after it was told how the step of `profile_id` is logged in to; `used` says
/// whether that is the step that comes next.
pub open spec fn after_auth<S>(
    before: PendingConnectionPreparation<S>,
    profile_id: Seq<char>,
    auth: AuthMethod<S>,
    credential: Option<ConnectionCredential<S>>,
    after: PendingConnectionPreparation<S>,
    used: bool,
) -> bool {
    &&& used == (before.next_step < before.steps@.len()
        && before.steps@[before.next_step as int].id@ == profile_id)
    &&& !used ==> after == before
    &&& used ==> {
        &&& after == (PendingConnectionPreparation {
            next_step: (before.next_step + 1) as usize,
            prepared_steps: after.prepared_steps,
            credentials: after.credentials,
            ..before
        })
        &&& after.prepared_steps@.len() == before.next_step + 1
        &&& after.prepared_steps@.drop_last() == before.prepared_steps@
        &&& after.prepared_steps@.last().auth == auth
        &&& same_profile(
            after.prepared_steps@.last().profile,
            before.steps@[before.next_step as int],
        )
        &&& after.credentials@ == match credential {
            Some(credential) => before.credentials@.push(credential),
            None => before.credentials@,
        }
    }
}

/// The preparation after it went on as far as no secret is needed, and what it needs then.
pub open spec fn continued<S>(
    before: PendingConnectionPreparation<S>,
    after: PendingConnectionPreparation<S>,
    need: PreparationNeed,
) -> bool {
    let proxy = before.target_profile.route.upstream_proxy;
    match (before.proxy_prepared, secret_of_proxy(proxy)) {
        (false, Some((kind, prompt))) => {
            &&& need == need_for(
                before.force_prompt,
                before.target_profile.id,
                kind,
                prompt,
            )
            &&& after == (PendingConnectionPreparation {
                force_prompt: if need is Prompt {
                    None
                } else {
                    before.force_prompt
                },
                ..before
            })
        },
        _ => {
            let stop = next_secret_step(before.steps@, before.next_step as int);
            &&& after == (PendingConnectionPreparation {
                runtime_proxy: if before.proxy_prepared || proxy is None {
                    before.runtime_proxy
                } else {
                    plain_proxy::<S>(proxy)
                },
                proxy_prepared: true,
                next_step: stop as usize,
                prepared_steps: after.prepared_steps,
                force_prompt: if need is Prompt {
                    None
                } else {
                    before.force_prompt
                },
                ..before
            })
            &&& before.next_step <= stop <= before.steps@.len()
            &&& after.prepared_steps@.len() == stop
            &&& after.prepared_steps@.take(before.next_step as int)
                == before.prepared_steps@
            &&& forall|i: int|
                before.next_step <= i < stop ==> (#[trigger] after.prepared_steps@[i])
                    .auth == plain_login::<S>(before.steps@[i])
            &&& need == if stop == before.steps@.len() {
                PreparationNeed::Ready
            } else {
                need_for(
                    before.force_prompt,
                    before.steps@[stop].id,
                    secret_of(before.steps@[stop])->Some_0.kind_of_secret(),
                    secret_of(before.steps@[stop]),
                )
            }
        },
    }
}

/// The proxy that a connection is made over is that of the profile: there is one exactly where the
/// profile has one, of the same kind and in the same place.
pub open spec fn has_proxy_of<S>(
    config: Option<ProxyConfig>,
    proxy: Option<RuntimeProxy<S>>,
) -> bool {
    match (config, proxy) {
        (None, None) => true,
        (
            Some(ProxyConfig::HttpConnect { host, port, username }),
            Some(RuntimeProxy::HttpConnect { host: h, port: p, username: u, .. }),
        ) => h == host && p == port && u == username,
        (
            Some(ProxyConfig::Socks5 { host, port, username }),
            Some(RuntimeProxy::Socks5 { host: h, port: p, username: u, .. }),
        ) => h == host && p == port && u == username,
        (
            Some(ProxyConfig::ProxyCommand { approved_digest, .. }),
            Some(RuntimeProxy::ProxyCommand { approved_digest: a, .. }),
        ) => a == approved_digest,
        _ => false,
    }
}

/// A proxy that can take a password.
pub open spec fn takes_password(proxy: Option<ProxyConfig>) -> bool {
    proxy matches Some(config) && (config is HttpConnect || config is Socks5)
}

/// What was asked for is what the next step takes, or goes to the proxy.
pub open spec fn secret_fits<S>(
    pending: PendingConnectionPreparation<S>,
    prompt: Option<CredentialPromptKind>,
) -> bool {
    prompt is None || prompt == Some(CredentialPromptKind::ProxyPassword) || (pending.next_step
        < pending.steps@.len() ==> secret_of(pending.steps@[pending.next_step as int]) == prompt)
}

impl<S> PendingConnectionPreparation<S> {
    /// The first steps are ready, in order, each with a login of its own.
    pub open spec fn wf(self) -> bool {
        &&& self.steps@.len() > 0
        &&& same_profile(self.steps@.last(), self.target_profile)
        &&& self.next_step <= self.steps@.len()
        &&& self.prepared_steps@.len() == self.next_step
        &&& forall|i: int|
            0 <= i < self.next_step ==> same_profile(
                (#[trigger] self.prepared_steps@[i]).profile,
                self.steps@[i],
            ) && login_fits(self.steps@[i].auth, self.prepared_steps@[i].auth)
    }

    /// Once the proxy is ready, it is that of the profile; until then there is none.
    pub open spec fn keeps_proxy(self) -> bool {
        if self.proxy_prepared {
            has_proxy_of(self.target_profile.route.upstream_proxy, self.runtime_proxy)
        } else {
            self.runtime_proxy is None
        }
    }

    /// Every step is ready, and the proxy too.
    pub open spec fn is_ready(self) -> bool {
        self.proxy_prepared && self.next_step == self.steps@.len()
    }

    /// Starts getting a connection ready.
    pub fn begin(
        profiles: &Vec<ConnectionProfile>,
        session_id: SessionId,
        target_profile: ConnectionProfile,
        force_prompt: Option<ForcedPrompt>,
    ) -> (r: Result<Self, MissingJump>)
        ensures
            ({
                let jumps = target_profile.route.jump_host_ids@;
                let missing = first_missing_jump(profiles@, jumps);
                match r {
                    Ok(pending) => {
                        &&& missing == jumps.len()
                        &&& pending.session_id == session_id
                        &&& pending.target_profile == target_profile
                        &&& are_steps_to(profiles@, target_profile, pending.steps@)
                        &&& pending.next_step == 0
                        &&& pending.prepared_steps@.len() == 0
                        &&& pending.credentials@.len() == 0
                        &&& pending.runtime_proxy is None
                        &&& !pending.proxy_prepared
                        &&& pending.force_prompt == force_prompt
                        &&& pending.wf()
                        &&& pending.keeps_proxy()
                    },
                    Err(error) => 0 <= missing < jumps.len() && error.jump_id == jumps[missing],
                }
            }),
    {
        let mut steps: Vec<ConnectionProfile> = Vec::new();
        let ghost jumps = target_profile.route.jump_host_ids@;
        let ghost lost = |id: String| !has_profile(profiles@, id@);
        let mut i: usize = 0;
        while i < target_profile.route.jump_host_ids.len()
            invariant
                i <= jumps.len(),
                jumps == target_profile.route.jump_host_ids@,
                lost == (|id: String| !has_profile(profiles@, id@)),
                steps@.len() == i,
                forall|k: int|
                    0 <= k < i ==> has_profile(profiles@, (#[trigger] jumps[k])@) && is_jump_of(
                        profiles@[profile_position(profiles@, jumps[k]@)],
                        steps@[k],
                    ),
            decreases jumps.len() - i,
        {
            let id = &target_profile.route.jump_host_ids[i];
            match find_profile(profiles, id.as_str()) {
                None => {
                    proof {
                        crate::sequences::first_index_is(jumps, lost, i as int);
                    }
                    return Err(MissingJump { jump_id: id.clone() });
                },
                Some(index) => {
                    let found = &profiles[index];
                    steps.push(
                        ConnectionProfile {
                            id: found.id.clone(),
                            name: found.name.clone(),
                            host: found.host.clone(),
                            port: found.port,
                            username: found.username.clone(),
                            auth: found.auth.clone(),
                            route: ConnectionRoute::default(),
                        },
                    );
                },
            }
            i = i + 1;
        }
        proof {
            crate::sequences::first_index_is(jumps, lost, i as int);
        }
        steps.push(target_profile.clone());
        Ok(
            PendingConnectionPreparation {
                session_id,
                target_profile,
                steps,
                next_step: 0,
                prepared_steps: Vec::new(),
                credentials: Vec::new(),
                runtime_proxy: None,
                proxy_prepared: false,
                force_prompt,
            },
        )
    }

    /// What a step that takes a secret needs; a forced prompt is used up by it.
    fn take_need(
        &mut self,
        profile_id: String,
        kind: CredentialKind,
        prompt: Option<CredentialPromptKind>,
    ) -> (r: PreparationNeed)
        ensures
            r == need_for(old(self).force_prompt, profile_id, kind, prompt),
            *final(self) == (PendingConnectionPreparation {
                force_prompt: if r is Prompt {
                    None
                } else {
                    old(self).force_prompt
                },
                ..*old(self)
            }),
    {
        let forced = match &self.force_prompt {
            Some(forced) => forced.kind == kind && text_eq(
                forced.profile_id.as_str(),
                profile_id.as_str(),
            ),
            None => false,
        };
        match prompt {
            Some(asked) => {
                if forced {
                    match self.force_prompt.take() {
                        Some(forced) => PreparationNeed::Prompt {
                            profile_id,
                            ask: asked,
                            error: forced.error,
                        },
                        None => PreparationNeed::Lookup { profile_id, kind, prompt: Some(asked) },
                    }
                } else {
                    PreparationNeed::Lookup { profile_id, kind, prompt: Some(asked) }
                }
            },
            None => PreparationNeed::Lookup { profile_id, kind, prompt: None },
        }
    }

    /// Goes on as far as no secret is needed: first the proxy, then step by step.
    pub fn continue_preparation(&mut self) -> (r: PreparationNeed)
        requires
            old(self).wf(),
        ensures
            final(self).wf(),
            continued(*old(self), *final(self), r),
            old(self).keeps_proxy() ==> final(self).keeps_proxy(),
    {
        if !self.proxy_prepared {
            let plain: Option<RuntimeProxy<S>> = match &self.target_profile.route.upstream_proxy {
                None => None,
                Some(ProxyConfig::HttpConnect { host, port, username }) => {
                    if username.is_some() {
                        let profile_id = self.target_profile.id.clone();
                        return self.take_need(
                            profile_id,
                            CredentialKind::ProxyPassword,
                            Some(CredentialPromptKind::ProxyPassword),
                        );
                    }
                    Some(
                        RuntimeProxy::HttpConnect {
                            host: host.clone(),
                            port: *port,
                            username: None,
                            password: None,
                        },
                    )
                },
                Some(ProxyConfig::Socks5 { host, port, username }) => {
                    if username.is_some() {
                        let profile_id = self.target_profile.id.clone();
                        return self.take_need(
                            profile_id,
                            CredentialKind::ProxyPassword,
                            Some(CredentialPromptKind::ProxyPassword),
                        );
                    }
                    Some(
                        RuntimeProxy::Socks5 {
                            host: host.clone(),
                            port: *port,
                            username: None,
                            password: None,
                        },
                    )
                },
                Some(ProxyConfig::ProxyCommand { .. }) => {
                    let profile_id = self.target_profile.id.clone();
                    return self.take_need(profile_id, CredentialKind::ProxyCommand, None);
                },
            };
            if plain.is_some() {
                self.runtime_proxy = plain;
            }
            self.proxy_prepared = true;
        }
        let ghost first = self.next_step as int;
        let ghost ready = self.prepared_steps@;
        let ghost stop = next_secret_step(self.steps@, first);
        proof {
            next_secret_step_bounds(self.steps@, first);
            assert(ready.take(first) =~= ready);
        }
        while self.next_step < self.steps.len()
            invariant
                self.wf(),
                0 <= first <= self.next_step,
                stop == next_secret_step(self.steps@, self.next_step as int),
                self.next_step <= stop <= self.steps@.len(),
                ready.len() == first,
                self.prepared_steps@.take(first) == ready,
                forall|i: int|
                    first <= i < self.next_step ==> (#[trigger] self.prepared_steps@[i]).auth
                        == plain_login::<S>(self.steps@[i]),
                *self == (PendingConnectionPreparation {
                    runtime_proxy: if old(self).proxy_prepared || old(
                        self,
                    ).target_profile.route.upstream_proxy is None {
                        old(self).runtime_proxy
                    } else {
                        plain_proxy::<S>(old(self).target_profile.route.upstream_proxy)
                    },
                    proxy_prepared: true,
                    next_step: self.next_step,
                    prepared_steps: self.prepared_steps,
                    ..*old(self)
                }),
                first == old(self).next_step,
                ready == old(self).prepared_steps@,
                stop == next_secret_step(old(self).steps@, first),
                old(self).proxy_prepared || secret_of_proxy(
                    old(self).target_profile.route.upstream_proxy,
                ) is None,
            decreases self.steps@.len() - self.next_step,
        {
            proof {
                next_secret_step_bounds(self.steps@, self.next_step + 1);
            }
            let step = &self.steps[self.next_step];
            let auth: AuthMethod<S> = match &step.auth {
                AuthConfig::NoPassword => AuthMethod::NoPassword,
                AuthConfig::Agent => AuthMethod::Agent,
                AuthConfig::Password => {
                    let profile_id = step.id.clone();
                    return self.take_need(
                        profile_id,
                        CredentialKind::Password,
                        Some(CredentialPromptKind::Password),
                    );
                },
                AuthConfig::PrivateKey { path } => {
                    let profile_id = step.id.clone();
                    let prompt = CredentialPromptKind::PrivateKeyPassphrase { path: path.clone() };
                    return self.take_need(
                        profile_id,
                        CredentialKind::PrivateKeyPassphrase,
                        Some(prompt),
                    );
                },
            };
            let profile = step.clone();
            let ghost earlier = self.prepared_steps@;
            self.prepared_steps.push(ConnectionStep { profile, auth });
            self.next_step = self.next_step + 1;
            assert(self.prepared_steps@.take(first) =~= earlier.take(first));
        }
        PreparationNeed::Ready
    }

    /// Takes in how the next step is logged in to, if that is the step of `profile_id`.
    pub fn accept_auth(
        &mut self,
        profile_id: &str,
        auth: AuthMethod<S>,
        credential: Option<ConnectionCredential<S>>,
    ) -> (r: bool)
        requires
            old(self).wf(),
        ensures
            after_auth(*old(self), profile_id@, auth, credential, *final(self), r),
            r && login_fits(old(self).steps@[old(self).next_step as int].auth, auth)
                ==> final(self).wf(),
    {
        if self.next_step >= self.steps.len() {
            return false;
        }
        if !text_eq(self.steps[self.next_step].id.as_str(), profile_id) {
            return false;
        }
        let profile = self.steps[self.next_step].clone();
        let ghost earlier = self.prepared_steps@;
        self.prepared_steps.push(ConnectionStep { profile, auth });
        assert(self.prepared_steps@.drop_last() =~= earlier);
        self.next_step = self.next_step + 1;
        if let Some(credential) = credential {
            self.credentials.push(credential);
        }
        true
    }

    /// Takes in a secret that was found or typed; says whether it was of use. `prompt` is what the
    /// user was or would have been asked.
    pub fn accept_secret(
        &mut self,
        profile_id: &str,
        kind: CredentialKind,
        prompt: Option<CredentialPromptKind>,
        secret: S,
        credential: ConnectionCredential<S>,
    ) -> (r: bool)
        requires
            old(self).wf(),
        ensures
            after_secret(
                *old(self),
                profile_id@,
                kind,
                prompt,
                secret,
                credential,
                *final(self),
                r,
            ),
            secret_fits(*old(self), prompt) ==> final(self).wf(),
            old(self).keeps_proxy() && (kind != CredentialKind::ProxyCommand && prompt == Some(
                CredentialPromptKind::ProxyPassword,
            ) ==> takes_password(old(self).target_profile.route.upstream_proxy))
                ==> final(self).keeps_proxy(),
    {
        if kind == CredentialKind::ProxyCommand {
            match &self.target_profile.route.upstream_proxy {
                Some(ProxyConfig::ProxyCommand { approved_digest, .. }) => {
                    let approved_digest = clone_opt_text(approved_digest);
                    self.runtime_proxy = Some(
                        RuntimeProxy::ProxyCommand { command: secret, approved_digest },
                    );
                    self.proxy_prepared = true;
                    return true;
                },
                _ => {
                    return false;
                },
            }
        }
        match prompt {
            None => false,
            Some(CredentialPromptKind::ProxyPassword) => {
                self.runtime_proxy = runtime_proxy_with_password(&self.target_profile, secret);
                self.proxy_prepared = true;
                self.credentials.push(credential);
                true
            },
            Some(asked) => {
                let auth = auth_method_with_secret(asked, secret);
                self.accept_auth(profile_id, auth, Some(credential))
            },
        }
    }

    /// The way, once every step is ready.
    pub fn into_plan(self) -> (r: (ConnectionPlan<S>, Vec<ConnectionCredential<S>>))
        requires
            self.wf(),
            self.is_ready(),
        ensures
            r.0.proxy == self.runtime_proxy,
            r.0.jumps@ == self.prepared_steps@.drop_last(),
            r.0.target == self.prepared_steps@.last(),
            r.1 == self.credentials,
            same_profile(r.0.target.profile, self.target_profile),
            r.0.jumps@.len() == self.steps@.len() - 1,
            forall|i: int|
                0 <= i < r.0.jumps@.len() ==> same_profile(
                    (#[trigger] r.0.jumps@[i]).profile,
                    self.steps@[i],
                ) && login_fits(self.steps@[i].auth, r.0.jumps@[i].auth),
            login_fits(self.target_profile.auth, r.0.target.auth),
            self.keeps_proxy() ==> has_proxy_of(
                self.target_profile.route.upstream_proxy,
                r.0.proxy,
            ),
    {
        let mut jumps = self.prepared_steps;
        let count: usize = jumps.len();
        let target = jumps.remove(count - 1);
        assert(jumps@ =~= self.prepared_steps@.drop_last());
        (ConnectionPlan { proxy: self.runtime_proxy, jumps, target }, self.credentials)
    }
}

/// What to do where the keychain has no secret.
#[derive(Debug, PartialEq, Eq)]
pub enum MissingSecret {
    /// The key is used without a passphrase.
    UseKeyWithoutPassphrase { path: PathBuf },
    /// The connection cannot be made; the error says why, where the keychain has told.
    GiveUp { error: Option<String> },
    /// The user is asked.
    Ask { kind: CredentialPromptKind, error: Option<String> },
    /// Nothing.
    Nothing,
}

/// What to do where the keychain has no secret: a key is tried without a passphrase unless the
/// keychain has failed, a proxy command is needed, and anything else the user is asked for.
pub open spec fn missing_secret(
    kind: CredentialKind,
    prompt: Option<CredentialPromptKind>,
    error: Option<String>,
) -> MissingSecret {
    match (kind, prompt, error) {
        (
            CredentialKind::PrivateKeyPassphrase,
            Some(CredentialPromptKind::PrivateKeyPassphrase { path }),
            None,
        ) => MissingSecret::UseKeyWithoutPassphrase { path },
        (CredentialKind::ProxyCommand, None, _) => MissingSecret::GiveUp { error },
        (_, Some(asked), _) => MissingSecret::Ask { kind: asked, error },
        _ => MissingSecret::Nothing,
    }
}

/// What to do where the keychain has no secret.
pub fn handle_missing_preparation_secret(
    kind: CredentialKind,
    prompt: Option<CredentialPromptKind>,
    error: Option<String>,
) -> (r: MissingSecret)
    ensures
        r == missing_secret(kind, prompt, error),
{
    match prompt {
        Some(CredentialPromptKind::PrivateKeyPassphrase { path }) => {
            if kind == CredentialKind::PrivateKeyPassphrase && error.is_none() {
                MissingSecret::UseKeyWithoutPassphrase { path }
            } else {
                MissingSecret::Ask {
                    kind: CredentialPromptKind::PrivateKeyPassphrase { path },
                    error,
                }
            }
        },
        Some(asked) => MissingSecret::Ask { kind: asked, error },
        None => {
            if kind == CredentialKind::ProxyCommand {
                MissingSecret::GiveUp { error }
            } else {
                MissingSecret::Nothing
            }
        },
    }
}

/// What submitting a secret comes to.
#[derive(Clone, Copy, Debug, PartialEq, Eq, Structural)]
pub enum PromptSubmission {
    /// Something has to be typed; the key of the field's name goes into the error.
    Required,
    /// The connection that the secret was for is no longer being got ready.
    Expired,
    /// The secret is taken.
    Accepted,
}

/// What submitting a secret comes to: something must have been typed, and the connection that it
/// is for must still be got ready.
pub open spec fn submission_of(
    prompt: CredentialPrompt,
    input_is_empty: bool,
    pending_session: Option<SessionId>,
) -> PromptSubmission {
    if input_is_empty {
        PromptSubmission::Required
    } else if pending_session != Some(prompt.session_id) {
        PromptSubmission::Expired
    } else {
        PromptSubmission::Accepted
    }
}

/// What submitting a secret comes to.
pub fn submit_credential_prompt(
    prompt: &CredentialPrompt,
    input_is_empty: bool,
    pending_session: Option<SessionId>,
) -> (r: PromptSubmission)
    ensures
        r == submission_of(*prompt, input_is_empty, pending_session),
{
    if input_is_empty {
        return PromptSubmission::Required;
    }
    match pending_session {
        Some(session_id) => {
            if session_id == prompt.session_id {
                PromptSubmission::Accepted
            } else {
                PromptSubmission::Expired
            }
        },
        None => PromptSubmission::Expired,
    }
}

/// The session whose connection is being got ready.
pub open spec fn session_of<S>(
    pending: Option<PendingConnectionPreparation<S>>,
) -> Option<SessionId> {
    match pending {
        Some(pending) => Some(pending.session_id),
        None => None,
    }
}

/// The session whose connection is being got ready.
fn pending_session<S>(pending: &Option<PendingConnectionPreparation<S>>) -> (r: Option<SessionId>)
    ensures
        r == session_of(*pending),
{
    match pending {
        Some(pending) => Some(pending.session_id),
        None => None,
    }
}

/// A secret that the user has typed, as it is noted: a copy is kept, to be stored once the server
/// has accepted it, only where the user wants it remembered.
pub open spec fn typed_credential<S>(prompt: CredentialPrompt, copy: S) -> ConnectionCredential<S> {
    ConnectionCredential {
        profile_id: prompt.profile_id,
        kind: prompt.kind.kind_of_secret(),
        source: CredentialSource::Prompt,
        save_on_success: if prompt.remember {
            Some(copy)
        } else {
            None
        },
    }
}

/// Takes in the secret that the user has typed, where the question still stands. `copy` is the same
/// secret once more.
pub fn submit_typed_secret<S>(
    pending: &mut Option<PendingConnectionPreparation<S>>,
    prompt: &CredentialPrompt,
    input_is_empty: bool,
    secret: S,
    copy: S,
) -> (r: PromptSubmission)
    requires
        *old(pending) is Some ==> (*old(pending))->0.wf(),
    ensures
        r == submission_of(*prompt, input_is_empty, session_of(*old(pending))),
        r != PromptSubmission::Accepted ==> *final(pending) == *old(pending),
        r == PromptSubmission::Accepted ==> {
            &&& *old(pending) is Some
            &&& *final(pending) is Some
            &&& exists|used: bool| #[trigger]
                after_secret(
                    (*old(pending))->0,
                    prompt.profile_id@,
                    prompt.kind.kind_of_secret(),
                    Some(prompt.kind),
                    secret,
                    typed_credential(*prompt, copy),
                    (*final(pending))->0,
                    used,
                )
            &&& secret_fits((*old(pending))->0, Some(prompt.kind)) ==> (*final(pending))->0.wf()
        },
{
    let submission = submit_credential_prompt(prompt, input_is_empty, pending_session(pending));
    if submission != PromptSubmission::Accepted {
        return submission;
    }
    let kind = prompt.kind.credential_kind();
    let save_on_success = if prompt.remember {
        Some(copy)
    } else {
        None
    };
    let credential = ConnectionCredential::from_prompt(
        prompt.profile_id.clone(),
        kind,
        save_on_success,
    );
    if let Some(ready) = pending.as_mut() {
        ready.accept_secret(
            prompt.profile_id.as_str(),
            kind,
            Some(prompt.kind.clone()),
            secret,
            credential,
        );
    }
    submission
}

/// What a look into the keychain came to.
#[derive(Debug, PartialEq, Eq)]
pub enum LookupOutcome {
    /// The connection that it was for is no longer being got ready.
    Ignored,
    /// What was found, or a key without a passphrase, was taken in. The preparation goes on where
    /// that was of use.
    Taken { used: bool },
    /// The connection cannot be made, and is no longer got ready; the session says this.
    GivenUp { message: SessionMessage },
    /// The user is asked.
    Ask { kind: CredentialPromptKind, error: Option<String> },
    /// Nothing.
    Nothing,
}

/// What is said where the keychain has no proxy command: why, where it has told.
pub open spec fn no_command_message(error: Option<String>) -> SessionMessage {
    match error {
        Some(error) => SessionMessage::Plain(error),
        None => SessionMessage::Localized("proxy-command-keychain-missing"),
    }
}

/// The preparation after the keychain had no secret, and what that came to.
pub open spec fn after_missing<S>(
    before: PendingConnectionPreparation<S>,
    profile_id: Seq<char>,
    missing: MissingSecret,
    after: Option<PendingConnectionPreparation<S>>,
    outcome: LookupOutcome,
) -> bool {
    match missing {
        MissingSecret::UseKeyWithoutPassphrase { path } => {
            &&& outcome matches LookupOutcome::Taken { used }
            &&& after matches Some(ready)
            &&& after_auth(
                before,
                profile_id,
                AuthMethod::PrivateKey { path, passphrase: None },
                None,
                ready,
                used,
            )
        },
        MissingSecret::GiveUp { error } => {
            &&& outcome == (LookupOutcome::GivenUp { message: no_command_message(error) })
            &&& after is None
        },
        MissingSecret::Ask { kind, error } => {
            &&& outcome == (LookupOutcome::Ask { kind, error })
            &&& after == Some(before)
        },
        MissingSecret::Nothing => outcome == LookupOutcome::Nothing && after == Some(before),
    }
}

/// The preparation after a look into the keychain for the session, and what that came to.
pub open spec fn looked_up<S>(
    before: Option<PendingConnectionPreparation<S>>,
    session_id: SessionId,
    profile_id: String,
    kind: CredentialKind,
    prompt: Option<CredentialPromptKind>,
    loaded: Result<Option<S>, String>,
    after: Option<PendingConnectionPreparation<S>>,
    outcome: LookupOutcome,
) -> bool {
    if session_of(before) != Some(session_id) {
        outcome == LookupOutcome::Ignored && after == before
    } else {
        match loaded {
            Ok(Some(secret)) => {
                &&& outcome matches LookupOutcome::Taken { used }
                &&& after matches Some(ready)
                &&& after_secret(
                    before->0,
                    profile_id@,
                    kind,
                    prompt,
                    secret,
                    ConnectionCredential {
                        profile_id,
                        kind,
                        source: CredentialSource::SystemKeychain,
                        save_on_success: None,
                    },
                    ready,
                    used,
                )
            },
            Ok(None) => after_missing(
                before->0,
                profile_id@,
                missing_secret(kind, prompt, None),
                after,
                outcome,
            ),
            Err(error) => after_missing(
                before->0,
                profile_id@,
                missing_secret(kind, prompt, Some(error)),
                after,
                outcome,
            ),
        }
    }
}

/// Takes in what a look into the keychain for the session gave, where its connection is still got
/// ready: a secret, none, or an error.
pub fn take_looked_up_secret<S>(
    pending: &mut Option<PendingConnectionPreparation<S>>,
    session_id: SessionId,
    profile_id: String,
    kind: CredentialKind,
    prompt: Option<CredentialPromptKind>,
    loaded: Result<Option<S>, String>,
) -> (r: LookupOutcome)
    requires
        *old(pending) is Some ==> (*old(pending))->0.wf(),
    ensures
        looked_up(
            *old(pending),
            session_id,
            profile_id,
            kind,
            prompt,
            loaded,
            *final(pending),
            r,
        ),
        *old(pending) is Some && secret_fits((*old(pending))->0, prompt) && *final(pending) is Some
            ==> (*final(pending))->0.wf(),
{
    match pending_session(pending) {
        None => return LookupOutcome::Ignored,
        Some(asked) => {
            if asked != session_id {
                return LookupOutcome::Ignored;
            }
        },
    }
    let error = match loaded {
        Ok(Some(secret)) => {
            let credential = ConnectionCredential::from_keychain(profile_id.clone(), kind);
            return match pending.as_mut() {
                Some(ready) => {
                    let used = ready.accept_secret(
                        profile_id.as_str(),
                        kind,
                        prompt,
                        secret,
                        credential,
                    );
                    LookupOutcome::Taken { used }
                },
                None => LookupOutcome::Ignored,
            };
        },
        Ok(None) => None,
        Err(error) => Some(error),
    };
    match handle_missing_preparation_secret(kind, prompt, error) {
        MissingSecret::UseKeyWithoutPassphrase { path } => match pending.as_mut() {
            Some(ready) => {
                let used = ready.accept_auth(
                    profile_id.as_str(),
                    AuthMethod::PrivateKey { path, passphrase: None },
                    None,
                );
                LookupOutcome::Taken { used }
            },
            None => LookupOutcome::Ignored,
        },
        MissingSecret::GiveUp { error } => {
            *pending = None;
            let shown = match error {
                Some(error) => SessionMessage::Plain(error),
                None => SessionMessage::Localized("proxy-command-keychain-missing"),
            };
            LookupOutcome::GivenUp { message: shown }
        },
        MissingSecret::Ask { kind, error } => LookupOutcome::Ask { kind, error },
        MissingSecret::Nothing => LookupOutcome::Nothing,
    }
}

/// A secret that the user does not want remembered is never kept for the keychain.
pub proof fn secrets_are_kept_only_if_wanted<S>(prompt: CredentialPrompt, copy: S)
    ensures
        typed_credential(prompt, copy).save_on_success is Some <==> prompt.remember,
{
}

/// A preparation that is ready has a proxy exactly where the target's profile has one: of the same
/// kind, with the same host, port and user name, or with the same approval. It had none before it
/// was made ready.
pub proof fn configured_proxy_is_used<S>(
    before: PendingConnectionPreparation<S>,
    after: PendingConnectionPreparation<S>,
    need: PreparationNeed,
)
    requires
        continued(before, after, need),
        !before.proxy_prepared ==> before.runtime_proxy is None,
        before.proxy_prepared ==> {
            match (before.target_profile.route.upstream_proxy, before.runtime_proxy) {
                (None, None) => true,
                (
                    Some(ProxyConfig::HttpConnect { host, port, username }),
                    Some(RuntimeProxy::HttpConnect { host: h, port: p, username: u, .. }),
                ) => h == host && p == port && u == username,
                (
                    Some(ProxyConfig::Socks5 { host, port, username }),
                    Some(RuntimeProxy::Socks5 { host: h, port: p, username: u, .. }),
                ) => h == host && p == port && u == username,
                (
                    Some(ProxyConfig::ProxyCommand { approved_digest, .. }),
                    Some(RuntimeProxy::ProxyCommand { approved_digest: a, .. }),
                ) => a == approved_digest,
                _ => false,
            }
        },
    ensures
        need == PreparationNeed::Ready ==> after.proxy_prepared,
        after.target_profile == before.target_profile,
        !after.proxy_prepared ==> after.runtime_proxy is None,
        after.proxy_prepared ==> {
            match (after.target_profile.route.upstream_proxy, after.runtime_proxy) {
                (None, None) => true,
                (
                    Some(ProxyConfig::HttpConnect { host, port, username }),
                    Some(RuntimeProxy::HttpConnect { host: h, port: p, username: u, .. }),
                ) => h == host && p == port && u == username,
                (
                    Some(ProxyConfig::Socks5 { host, port, username }),
                    Some(RuntimeProxy::Socks5 { host: h, port: p, username: u, .. }),
                ) => h == host && p == port && u == username,
                (
                    Some(ProxyConfig::ProxyCommand { approved_digest, .. }),
                    Some(RuntimeProxy::ProxyCommand { approved_digest: a, .. }),
                ) => a == approved_digest,
                _ => false,
            }
        },
{
}

/// The proxy of a way is that of the profile: there is one exactly where the profile has one, of
/// the same kind and in the same place.
pub proof fn proxy_of_a_way_is_the_configured_one<S>(
    config: Option<ProxyConfig>,
    proxy: Option<RuntimeProxy<S>>,
)
    ensures
        has_proxy_of(config, proxy) <==> match config {
            None => proxy is None,
            Some(ProxyConfig::HttpConnect { host, port, username }) => {
                &&& proxy is Some && proxy->0 is HttpConnect
                &&& proxy->0->HttpConnect_host == host
                &&& proxy->0->HttpConnect_port == port
                &&& proxy->0->HttpConnect_username == username
            },
            Some(ProxyConfig::Socks5 { host, port, username }) => {
                &&& proxy is Some && proxy->0 is Socks5
                &&& proxy->0->Socks5_host == host
                &&& proxy->0->Socks5_port == port
                &&& proxy->0->Socks5_username == username
            },
            Some(ProxyConfig::ProxyCommand { approved_digest, .. }) => {
                &&& proxy is Some && proxy->0 is ProxyCommand
                &&& proxy->0->approved_digest == approved_digest
            },
        },
{
}

/// A preparation goes on over the steps that take no secret, each with the login of its profile,
/// and stops before the first that takes one: that is what it needs. It is ready only where no
/// step is left. Before a proxy that takes a secret it does not go on at all.
pub proof fn preparation_stops_at_the_next_secret<S>(
    before: PendingConnectionPreparation<S>,
    after: PendingConnectionPreparation<S>,
    need: PreparationNeed,
)
    requires
        before.next_step <= before.steps@.len(),
        continued(before, after, need),
    ensures
        after.steps == before.steps,
        after.session_id == before.session_id,
        after.credentials == before.credentials,
        ({
            let proxy_takes_secret = match before.target_profile.route.upstream_proxy {
                None => false,
                Some(ProxyConfig::HttpConnect { username, .. }) => username is Some,
                Some(ProxyConfig::Socks5 { username, .. }) => username is Some,
                Some(ProxyConfig::ProxyCommand { .. }) => true,
            };
            if !before.proxy_prepared && proxy_takes_secret {
                &&& need != PreparationNeed::Ready
                &&& !after.proxy_prepared
                &&& after.next_step == before.next_step
                &&& after.prepared_steps == before.prepared_steps
            } else {
                &&& after.proxy_prepared
                &&& before.next_step <= after.next_step <= before.steps@.len()
                &&& need == PreparationNeed::Ready <==> after.next_step == before.steps@.len()
                &&& forall|i: int|
                    before.next_step <= i < after.next_step ==> match (
                    #[trigger] before.steps@[i]).auth {
                        AuthConfig::Agent => {
                            after.prepared_steps@[i].auth == AuthMethod::<S>::Agent
                        },
                        AuthConfig::NoPassword => after.prepared_steps@[i].auth
                            == AuthMethod::<S>::NoPassword,
                        _ => false,
                    }
                &&& after.next_step < before.steps@.len() ==> {
                    let auth = before.steps@[after.next_step as int].auth;
                    auth == AuthConfig::Password || auth is PrivateKey
                }
            }
        }),
{
    assert(before.steps@.len() == before.steps.len());
    if before.proxy_prepared || secret_of_proxy(
        before.target_profile.route.upstream_proxy,
    ) is None {
        steps_before_the_secret_are_plain(before.steps@, before.next_step as int);
        let stop = next_secret_step(before.steps@, before.next_step as int);
        assert forall|i: int| before.next_step <= i < stop implies secret_of(
            #[trigger] before.steps@[i],
        ) is None && after.prepared_steps@[i].auth == plain_login::<S>(before.steps@[i]) by {
            assert(after.prepared_steps@[i].auth == plain_login::<S>(before.steps@[i]));
        }
    }
}

/// No step before the next that takes a secret takes one, and that one does.
proof fn steps_before_the_secret_are_plain(steps: Seq<ConnectionProfile>, from: int)
    requires
        0 <= from <= steps.len(),
    ensures
        from <= next_secret_step(steps, from) <= steps.len(),
        forall|i: int|
            from <= i < next_secret_step(steps, from) ==> secret_of(#[trigger] steps[i]) is None,
        next_secret_step(steps, from) < steps.len() ==> secret_of(
            steps[next_secret_step(steps, from)],
        ) is Some,
    decreases steps.len() - from,
{
    if from < steps.len() && secret_of(steps[from]) is None {
        steps_before_the_secret_are_plain(steps, from + 1);
    }
}

/// What a preparation needs is the secret of the proxy or of the step that it stopped at: a
/// password, the passphrase of the step's key, or the proxy's. The user is asked at once only
/// where that was called for, with the error that was told, and only once.
pub proof fn need_is_that_of_the_next_step<S>(
    before: PendingConnectionPreparation<S>,
    after: PendingConnectionPreparation<S>,
    need: PreparationNeed,
)
    requires
        before.next_step <= before.steps@.len(),
        continued(before, after, need),
    ensures
        match need {
            PreparationNeed::Ready => after.force_prompt == before.force_prompt,
            PreparationNeed::Lookup { profile_id, kind, prompt } => {
                &&& after.force_prompt == before.force_prompt
                &&& match kind {
                    CredentialKind::Password => prompt == Some(CredentialPromptKind::Password),
                    CredentialKind::PrivateKeyPassphrase => prompt is Some
                        && prompt->0 is PrivateKeyPassphrase,
                    CredentialKind::ProxyPassword => prompt == Some(
                        CredentialPromptKind::ProxyPassword,
                    ),
                    CredentialKind::ProxyCommand => prompt is None,
                }
                &&& kind != CredentialKind::ProxyCommand && before.force_prompt is Some ==> !(
                before.force_prompt->0.profile_id@ == profile_id@ && before.force_prompt->0.kind
                    == kind)
            },
            PreparationNeed::Prompt { profile_id, ask, error } => {
                &&& before.force_prompt is Some
                &&& before.force_prompt->0.profile_id@ == profile_id@
                &&& before.force_prompt->0.error == error
                &&& before.force_prompt->0.kind == match ask {
                    CredentialPromptKind::Password => CredentialKind::Password,
                    CredentialPromptKind::PrivateKeyPassphrase { .. } => {
                        CredentialKind::PrivateKeyPassphrase
                    },
                    CredentialPromptKind::ProxyPassword => CredentialKind::ProxyPassword,
                }
                &&& after.force_prompt is None
            },
        },
        need != PreparationNeed::Ready ==> {
            let (id, asked) = match need {
                PreparationNeed::Lookup { profile_id, prompt, .. } => (profile_id, prompt),
                PreparationNeed::Prompt { profile_id, ask, .. } => (profile_id, Some(ask)),
                PreparationNeed::Ready => (before.target_profile.id, None),
            };
            if after.proxy_prepared {
                let step = before.steps@[after.next_step as int];
                &&& id == step.id
                &&& asked == match step.auth {
                    AuthConfig::Password => Some(CredentialPromptKind::Password),
                    AuthConfig::PrivateKey { path } => Some(
                        CredentialPromptKind::PrivateKeyPassphrase { path },
                    ),
                    _ => None,
                }
            } else {
                &&& id == before.target_profile.id
                &&& asked == match before.target_profile.route.upstream_proxy {
                    Some(ProxyConfig::ProxyCommand { .. }) => None,
                    _ => Some(CredentialPromptKind::ProxyPassword),
                }
            }
        },
{
    assert(before.steps@.len() == before.steps.len());
    if before.proxy_prepared || secret_of_proxy(
        before.target_profile.route.upstream_proxy,
    ) is None {
        steps_before_the_secret_are_plain(before.steps@, before.next_step as int);
    }
}

/// A secret goes where it was asked for: a password or a passphrase into the login of the next
/// step, where that is the one that was asked about, the proxy's password and command to the
/// profile's own proxy. Nothing else of the preparation changes, and the secret is noted as it was
/// given.
pub proof fn secret_goes_where_it_was_asked_for<S>(
    before: PendingConnectionPreparation<S>,
    profile_id: Seq<char>,
    kind: CredentialKind,
    prompt: Option<CredentialPromptKind>,
    secret: S,
    credential: ConnectionCredential<S>,
    after: PendingConnectionPreparation<S>,
    used: bool,
)
    requires
        after_secret(before, profile_id, kind, prompt, secret, credential, after, used),
    ensures
        after.session_id == before.session_id,
        after.target_profile == before.target_profile,
        after.steps == before.steps,
        after.force_prompt == before.force_prompt,
        !used ==> after == before,
        used && kind == CredentialKind::ProxyCommand ==> {
            &&& after.runtime_proxy is Some
            &&& after.runtime_proxy->0 is ProxyCommand
            &&& after.runtime_proxy->0->command == secret
            &&& before.target_profile.route.upstream_proxy is Some
            &&& before.target_profile.route.upstream_proxy->0 is ProxyCommand
            &&& after.runtime_proxy->0->approved_digest
                == before.target_profile.route.upstream_proxy->0->approved_digest
            &&& after.proxy_prepared
            &&& after.next_step == before.next_step
            &&& after.credentials == before.credentials
        },
        used && kind != CredentialKind::ProxyCommand ==> {
            &&& prompt is Some
            &&& after.credentials@ == before.credentials@.push(credential)
            &&& if prompt == Some(CredentialPromptKind::ProxyPassword) {
                &&& after.proxy_prepared
                &&& after.next_step == before.next_step
                &&& after.prepared_steps == before.prepared_steps
                &&& match (before.target_profile.route.upstream_proxy, after.runtime_proxy) {
                    (
                        Some(ProxyConfig::HttpConnect { host, port, username }),
                        Some(
                            RuntimeProxy::HttpConnect { host: h, port: p, username: u, password },
                        ),
                    ) => h == host && p == port && u == username && password == Some(secret),
                    (
                        Some(ProxyConfig::Socks5 { host, port, username }),
                        Some(RuntimeProxy::Socks5 { host: h, port: p, username: u, password }),
                    ) => h == host && p == port && u == username && password == Some(secret),
                    (Some(ProxyConfig::ProxyCommand { .. }), None) => true,
                    (None, None) => true,
                    _ => false,
                }
            } else {
                let step = before.steps@[before.next_step as int];
                &&& before.next_step < before.steps@.len()
                &&& step.id@ == profile_id
                &&& after.next_step == before.next_step + 1 || before.next_step == usize::MAX
                &&& after.runtime_proxy == before.runtime_proxy
                &&& after.proxy_prepared == before.proxy_prepared
                &&& after.prepared_steps@.drop_last() == before.prepared_steps@
                &&& after.prepared_steps@.last().profile.host == step.host
                &&& after.prepared_steps@.last().profile.port == step.port
                &&& after.prepared_steps@.last().profile.username == step.username
                &&& after.prepared_steps@.last().profile.id == step.id
                &&& match (prompt->0, after.prepared_steps@.last().auth) {
                    (CredentialPromptKind::Password, AuthMethod::Password { password }) => {
                        password == secret
                    },
                    (
                        CredentialPromptKind::PrivateKeyPassphrase { path },
                        AuthMethod::PrivateKey { path: used_path, passphrase },
                    ) => used_path == path && passphrase == Some(secret),
                    _ => false,
                }
            }
        },
        used <==> if kind == CredentialKind::ProxyCommand {
            before.target_profile.route.upstream_proxy is Some
                && before.target_profile.route.upstream_proxy->0 is ProxyCommand
        } else {
            prompt is Some && (prompt == Some(CredentialPromptKind::ProxyPassword) || (
            before.next_step < before.steps@.len() && before.steps@[before.next_step as int].id@
                == profile_id))
        },
{
}

/// The way to a server goes over the servers that its profile names, in that order and each gone to
/// straight, with what their own profiles say, and ends at the server itself.
pub proof fn way_goes_over_the_named_servers(
    profiles: Seq<ConnectionProfile>,
    target: ConnectionProfile,
    steps: Seq<ConnectionProfile>,
    i: int,
)
    requires
        are_steps_to(profiles, target, steps),
        0 <= i < target.route.jump_host_ids@.len(),
    ensures
        steps.len() == target.route.jump_host_ids@.len() + 1,
        steps.last().id == target.id,
        steps.last().host == target.host,
        steps.last().port == target.port,
        steps.last().username == target.username,
        steps.last().auth == target.auth,
        exists|k: int|
            0 <= k < profiles.len() && (#[trigger] profiles[k]).id@
                == target.route.jump_host_ids@[i]@ && (forall|h: int|
                0 <= h < k ==> (#[trigger] profiles[h]).id@ != target.route.jump_host_ids@[i]@)
                && steps[i].id == profiles[k].id && steps[i].host == profiles[k].host
                && steps[i].port == profiles[k].port && steps[i].username == profiles[k].username
                && steps[i].auth == profiles[k].auth,
        steps[i].route.upstream_proxy is None,
        steps[i].route.jump_host_ids@.len() == 0,
{
    let id = target.route.jump_host_ids@[i]@;
    crate::profile::profile_position_is_first(profiles, id);
    let k = profile_position(profiles, id);
    assert(has_profile(profiles, id) && is_jump_of(profiles[k], steps[i]));
}

/// The server that a way fails for has no profile, and every one before it has.
pub proof fn missing_server_has_no_profile(
    profiles: Seq<ConnectionProfile>,
    jumps: Seq<String>,
    i: int,
)
    requires
        0 <= i < jumps.len(),
    ensures
        0 <= first_missing_jump(profiles, jumps) <= jumps.len(),
        i <= first_missing_jump(profiles, jumps) ==> ((exists|k: int|
            0 <= k < profiles.len() && (#[trigger] profiles[k]).id@ == jumps[i]@) <==> i
            < first_missing_jump(profiles, jumps)),
{
    let lost = |id: String| !has_profile(profiles, id@);
    crate::sequences::first_index_properties(jumps, lost);
    crate::profile::profile_position_is_first(profiles, jumps[i]@);
    if i < first_missing_jump(profiles, jumps) {
        assert(!lost(jumps[i]));
    } else if i == first_missing_jump(profiles, jumps) {
        assert(lost(jumps[i]));
    }
}

/// A secret is taken only where something was typed for the connection that is being got ready; it
/// is noted with its profile and its kind, and kept only where the user wants it remembered.
pub proof fn typed_secret_is_for_its_question<S>(
    prompt: CredentialPrompt,
    input_is_empty: bool,
    pending: Option<SessionId>,
    copy: S,
)
    ensures
        submission_of(prompt, input_is_empty, pending) == PromptSubmission::Accepted
            <==> !input_is_empty && pending == Some(prompt.session_id),
        submission_of(prompt, input_is_empty, pending) == PromptSubmission::Required
            <==> input_is_empty,
        typed_credential(prompt, copy).profile_id == prompt.profile_id,
        typed_credential(prompt, copy).source == CredentialSource::Prompt,
        typed_credential(prompt, copy).kind == match prompt.kind {
            CredentialPromptKind::Password => CredentialKind::Password,
            CredentialPromptKind::PrivateKeyPassphrase { .. } => {
                CredentialKind::PrivateKeyPassphrase
            },
            CredentialPromptKind::ProxyPassword => CredentialKind::ProxyPassword,
        },
        typed_credential(prompt, copy).save_on_success == if prompt.remember {
            Some(copy)
        } else {
            None
        },
{
}

/// Where the keychain has no secret, a key is tried without one, unless the keychain has failed; a
/// connection without its proxy command is given up; anything else that can be asked for is, with
/// the error that was told.
pub proof fn nothing_is_guessed_for_a_missing_secret(
    kind: CredentialKind,
    prompt: Option<CredentialPromptKind>,
    error: Option<String>,
)
    ensures
        match missing_secret(kind, prompt, error) {
            MissingSecret::UseKeyWithoutPassphrase { path } => error is None && kind
                == CredentialKind::PrivateKeyPassphrase && prompt == Some(
                CredentialPromptKind::PrivateKeyPassphrase { path },
            ),
            MissingSecret::GiveUp { error: told } => kind == CredentialKind::ProxyCommand
                && prompt is None && told == error,
            MissingSecret::Ask { kind: asked, error: told } => prompt == Some(asked) && told
                == error,
            MissingSecret::Nothing => prompt is None && kind != CredentialKind::ProxyCommand,
        },
        error is None && kind == CredentialKind::PrivateKeyPassphrase && prompt is Some
            && prompt->0 is PrivateKeyPassphrase ==> missing_secret(
            kind,
            prompt,
            error,
        ) is UseKeyWithoutPassphrase,
{
}

/// What the keychain gave is taken in only for the session whose connection is being got ready; for
/// any other, nothing changes. A connection is given up only where its proxy command is missing;
/// the user is asked only where the keychain gave nothing, with the error that it told.
pub proof fn look_up_serves_its_session<S>(
    before: Option<PendingConnectionPreparation<S>>,
    session_id: SessionId,
    profile_id: String,
    kind: CredentialKind,
    prompt: Option<CredentialPromptKind>,
    loaded: Result<Option<S>, String>,
    after: Option<PendingConnectionPreparation<S>>,
    outcome: LookupOutcome,
)
    requires
        looked_up(before, session_id, profile_id, kind, prompt, loaded, after, outcome),
    ensures
        before is None || before->0.session_id != session_id ==> outcome is Ignored && after
            == before,
        before is Some && before->0.session_id == session_id ==> {
            &&& !(outcome is Ignored)
            &&& loaded is Ok && loaded->Ok_0 is Some ==> outcome is Taken && after is Some
            &&& outcome is GivenUp <==> !(loaded is Ok && loaded->Ok_0 is Some) && kind
                == CredentialKind::ProxyCommand && prompt is None
            &&& outcome is GivenUp <==> after is None
            &&& outcome matches LookupOutcome::Ask { kind: asked, error } ==> prompt == Some(asked)
                && after == before && (loaded matches Err(told) ==> error == Some(told)) && (
            loaded is Ok ==> error is None && loaded->Ok_0 is None)
            &&& outcome is Nothing ==> after == before
        },
{
}

/// A way to log in is taken in only for the step that is next, and only that step is done by it:
/// the steps before stay as they were prepared, and the one after is next then.
pub proof fn login_is_for_the_next_step<S>(
    before: PendingConnectionPreparation<S>,
    profile_id: Seq<char>,
    auth: AuthMethod<S>,
    credential: Option<ConnectionCredential<S>>,
    after: PendingConnectionPreparation<S>,
    used: bool,
    i: int,
)
    requires
        after_auth(before, profile_id, auth, credential, after, used),
        before.next_step < before.steps@.len(),
        before.prepared_steps@.len() == before.next_step,
    ensures
        used <==> before.steps@[before.next_step as int].id@ == profile_id,
        !used ==> after == before,
        used ==> {
            &&& after.next_step == before.next_step + 1 || before.next_step == usize::MAX
            &&& after.prepared_steps@.len() == before.prepared_steps@.len() + 1
            &&& after.prepared_steps@.last().auth == auth
            &&& after.prepared_steps@.last().profile.id@ == profile_id
            &&& 0 <= i < before.prepared_steps@.len() ==> after.prepared_steps@[i]
                == before.prepared_steps@[i]
            &&& credential is None ==> after.credentials@ == before.credentials@
            &&& credential matches Some(noted) ==> after.credentials@ == before.credentials@.push(
                noted,
            )
            &&& after.steps == before.steps && after.session_id == before.session_id
            &&& after.runtime_proxy == before.runtime_proxy
        },
{
    if used && 0 <= i < before.prepared_steps@.len() {
        assert(after.prepared_steps@.drop_last()[i] == after.prepared_steps@[i]);
    }
}

} // verus!
