//! Model profiles: several saved model configurations, one of them active.
//! Each profile keeps its own API key, stored under its key account.

use vstd::prelude::*;

use crate::constants::DEFAULT_CONTEXT_WINDOW;
use crate::ids::random_hex_id;
use crate::llm::provider::{ProviderKind, ProviderSettings};
use crate::llm::types::ThinkingLevel;
use crate::tasks::{dup_opt, opt_view};
use crate::text::{all_ws, append, is_blank, owned, str_eq};

verus! {

/// One saved model configuration.
#[derive(Debug, Clone)]
pub struct ModelProfile {
    pub id: String,
    /// Display name.
    pub name: String,
    pub kind: ProviderKind,
    pub base_url: String,
    /// The provider's model identifier.
    pub model: String,
    pub context_window: usize,
    pub thinking: ThinkingLevel,
    /// Whether the model offers a thinking mode.
    pub supports_thinking: bool,
}

/// The value of a profile.
pub struct ProfileView {
    pub id: Seq<char>,
    pub name: Seq<char>,
    pub kind: ProviderKind,
    pub base_url: Seq<char>,
    pub model: Seq<char>,
    pub context_window: usize,
    pub thinking: ThinkingLevel,
    pub supports_thinking: bool,
}

impl View for ModelProfile {
    type V = ProfileView;

    open spec fn view(&self) -> ProfileView {
        ProfileView {
            id: self.id@,
            name: self.name@,
            kind: self.kind,
            base_url: self.base_url@,
            model: self.model@,
            context_window: self.context_window,
            thinking: self.thinking,
            supports_thinking: self.supports_thinking,
        }
    }
}

/// A profile as listed: with whether its key is set and whether it is active.
#[derive(Debug, Clone)]
pub struct ModelProfileDto {
    pub profile: ModelProfile,
    pub has_key: bool,
    pub active: bool,
}

impl ModelProfile {
    /// A copy of this profile.
    pub fn duplicate(&self) -> (r: ModelProfile)
        ensures
            r@ == self@,
    {
        ModelProfile {
            id: self.id.clone(),
            name: self.name.clone(),
            kind: self.kind,
            base_url: self.base_url.clone(),
            model: self.model.clone(),
            context_window: self.context_window,
            thinking: self.thinking,
            supports_thinking: self.supports_thinking,
        }
    }

    /// The provider settings of this profile (no fallback model).
    pub fn to_settings(&self) -> (r: ProviderSettings)
        ensures
            r.kind == self.kind,
            r.base_url@ == self.base_url@,
            r.model@ == self.model@,
            r.fallback_model is None,
            r.context_window == self.context_window,
            r.thinking == self.thinking,
    {
        ProviderSettings {
            kind: self.kind,
            base_url: self.base_url.clone(),
            model: self.model.clone(),
            fallback_model: None,
            context_window: self.context_window,
            thinking: self.thinking,
        }
    }
}

/// The key-store account of profile `id`: `model:<id>`.
pub fn key_account(id: &str) -> (r: String)
    ensures
        r@ == "model:"@ + id@,
{
    let mut s = owned("model:");
    append(&mut s, id);
    s
}

/// The display name of a profile seeded from `model`.
pub fn default_name(model: &str) -> (r: String)
    ensures
        model@.len() == 0 ==> r@ == "默认模型"@,
        model@.len() > 0 ==> r@ == model@,
{
    if model.unicode_len() == 0 {
        owned("默认模型")
    } else {
        owned(model)
    }
}

/// A fresh profile id: `m-` and 32 random hexadecimal digits.
fn new_id() -> (r: String)
    ensures
        r@.len() == 34,
{
    let mut s = owned("m-");
    let hex = random_hex_id();
    append(&mut s, hex.as_str());
    proof {
        reveal_strlit("m-");
    }
    s
}

/// The values of a list of profiles.
pub open spec fn profiles_view(v: Seq<ModelProfile>) -> Seq<ProfileView> {
    v.map_values(|p: ModelProfile| p@)
}

/// The position of the first profile with id `id`, if any.
pub open spec fn first_with_id(s: Seq<ProfileView>, id: Seq<char>) -> Option<int> {
    if exists|i: int| 0 <= i < s.len() && (#[trigger] s[i]).id == id {
        Some(
            choose|i: int|
                0 <= i < s.len() && (#[trigger] s[i]).id == id && forall|j: int|
                    0 <= j < i ==> s[j].id != id,
        )
    } else {
        None
    }
}

/// What `first_with_id` finds holds the id, and nothing before it does.
pub proof fn lemma_first_with_id(s: Seq<ProfileView>, id: Seq<char>)
    ensures
        first_with_id(s, id) matches Some(i) ==> 0 <= i < s.len() && s[i].id == id
            && forall|j: int| 0 <= j < i ==> s[j].id != id,
        first_with_id(s, id) is None ==> forall|j: int| 0 <= j < s.len() ==> s[j].id != id,
{
    if exists|i: int| 0 <= i < s.len() && (#[trigger] s[i]).id == id {
        let w = choose|i: int| 0 <= i < s.len() && (#[trigger] s[i]).id == id;
        let m = min_with_id(s, id, w);
    }
}

proof fn min_with_id(s: Seq<ProfileView>, id: Seq<char>, w: int) -> (m: int)
    requires
        0 <= w < s.len(),
        s[w].id == id,
    ensures
        0 <= m <= w,
        s[m].id == id,
        forall|j: int| 0 <= j < m ==> s[j].id != id,
    decreases w,
{
    if exists|j: int| 0 <= j < w && (#[trigger] s[j]).id == id {
        let k = choose|j: int| 0 <= j < w && (#[trigger] s[j]).id == id;
        min_with_id(s, id, k)
    } else {
        w
    }
}

/// The store is consistent: there is an active profile exactly when there are
/// profiles, and it names one of them.
pub open spec fn consistent(profiles: Seq<ProfileView>, active: Option<Seq<char>>) -> bool {
    &&& (active is None <==> profiles.len() == 0)
    &&& (active matches Some(a) ==> exists|i: int| 0 <= i < profiles.len() && (#[trigger] profiles[i]).id == a)
}

/// The saved profiles and which one is active.
pub struct ModelStore {
    profiles: Vec<ModelProfile>,
    active_id: Option<String>,
}

impl ModelStore {
    /// The profiles, in order.
    pub closed spec fn profiles(&self) -> Seq<ProfileView> {
        profiles_view(self.profiles@)
    }

    /// The id of the active profile.
    pub closed spec fn active(&self) -> Option<Seq<char>> {
        opt_view(self.active_id)
    }

    fn find(&self, id: &str) -> (r: Option<usize>)
        ensures
            match r {
                Some(i) => i < self.profiles@.len() && first_with_id(self.profiles(), id@) == Some(i as int),
                None => first_with_id(self.profiles(), id@) is None,
            },
    {
        let mut i: usize = 0;
        while i < self.profiles.len()
            invariant
                i <= self.profiles@.len(),
                forall|j: int| 0 <= j < i ==> (#[trigger] self.profiles()[j]).id != id@,
            decreases self.profiles@.len() - i,
        {
            if str_eq(self.profiles[i].id.as_str(), id) {
                proof {
                    let s = self.profiles();
                    assert(s[i as int].id == id@);
                    let c = choose|c: int|
                        0 <= c < s.len() && (#[trigger] s[c]).id == id@ && forall|j: int|
                            0 <= j < c ==> s[j].id != id@;
                    assert(forall|j: int| 0 <= j < i ==> s[j].id != id@);
                    if c < i {
                        assert(s[c].id != id@);
                    }
                    if c > i {
                        assert(s[i as int].id != id@);
                    }
                }
                return Some(i);
            }
            i += 1;
        }
        None
    }

    /// The store read back: the saved profiles and active id, or, when there
    /// are no profiles, a single profile seeded from `legacy` settings (or the
    /// defaults) under a fresh id, made active. Without an active id the first
    /// profile becomes active.
    pub fn load(profiles: Vec<ModelProfile>, active_id: Option<String>, legacy: Option<ProviderSettings>) -> (r: ModelStore)
        ensures
            profiles@.len() > 0 ==> r.profiles() == profiles_view(profiles@),
            profiles@.len() > 0 && active_id is Some ==> r.active() == opt_view(active_id),
            profiles@.len() > 0 && active_id is None ==> r.active() == Some(profiles@[0].id@),
            profiles@.len() == 0 ==> ({
                let p = r.profiles()[0];
                &&& r.profiles().len() == 1
                &&& r.active() == Some(p.id)
                &&& p.supports_thinking
                &&& (legacy matches Some(s) ==> p.kind == s.kind && p.base_url == s.base_url@
                    && p.model == s.model@ && p.context_window == s.context_window
                    && p.thinking == s.thinking)
                &&& (legacy is None ==> p.model == "qwen-max"@ && p.kind == ProviderKind::OpenaiCompat
                    && p.context_window == DEFAULT_CONTEXT_WINDOW && p.thinking == ThinkingLevel::Off)
                &&& (p.model.len() > 0 ==> p.name == p.model)
            }),
            r.profiles().len() > 0,
            r.active() is Some,
    {
        let mut profiles = profiles;
        let mut active_id = active_id;
        if profiles.len() == 0 {
            let seed = match legacy {
                Some(s) => s,
                None => ProviderSettings::default(),
            };
            let id = new_id();
            let name = default_name(seed.model.as_str());
            let p = ModelProfile {
                id: id.clone(),
                name,
                kind: seed.kind,
                base_url: seed.base_url,
                model: seed.model,
                context_window: seed.context_window,
                thinking: seed.thinking,
                supports_thinking: true,
            };
            profiles.push(p);
            active_id = Some(id);
        }
        if active_id.is_none() {
            active_id = Some(profiles[0].id.clone());
        }
        ModelStore { profiles, active_id }
    }

    /// The profiles, in order.
    pub fn all(&self) -> (r: Vec<ModelProfile>)
        ensures
            profiles_view(r@) == self.profiles(),
    {
        let mut out: Vec<ModelProfile> = Vec::new();
        let mut i: usize = 0;
        while i < self.profiles.len()
            invariant
                i <= self.profiles@.len(),
                profiles_view(out@) == self.profiles().take(i as int),
            decreases self.profiles@.len() - i,
        {
            let ghost prev = out@;
            out.push(self.profiles[i].duplicate());
            assert(profiles_view(out@) =~= profiles_view(prev).push(self.profiles@[i as int]@));
            assert(self.profiles().take(i + 1) =~= self.profiles().take(i as int).push(self.profiles()[i as int]));
            i += 1;
        }
        assert(self.profiles().take(self.profiles@.len() as int) =~= self.profiles());
        out
    }

    /// The profiles as listed, `has_key[i]` telling whether profile `i` has a
    /// key stored.
    pub fn list(&self, has_key: &Vec<bool>) -> (r: Vec<ModelProfileDto>)
        requires
            has_key@.len() == self.profiles().len(),
        ensures
            r@.len() == self.profiles().len(),
            forall|i: int| 0 <= i < r@.len() ==> {
                &&& (#[trigger] r@[i]).profile@ == self.profiles()[i]
                &&& r@[i].has_key == has_key@[i]
                &&& r@[i].active == (self.active() == Some(self.profiles()[i].id))
            },
    {
        let mut out: Vec<ModelProfileDto> = Vec::new();
        let mut i: usize = 0;
        while i < self.profiles.len()
            invariant
                i <= self.profiles@.len(),
                has_key@.len() == self.profiles@.len(),
                out@.len() == i,
                forall|k: int| 0 <= k < i ==> {
                    &&& (#[trigger] out@[k]).profile@ == self.profiles()[k]
                    &&& out@[k].has_key == has_key@[k]
                    &&& out@[k].active == (self.active() == Some(self.profiles()[k].id))
                },
            decreases self.profiles@.len() - i,
        {
            let p = &self.profiles[i];
            let active = match &self.active_id {
                Some(a) => str_eq(a.as_str(), p.id.as_str()),
                None => false,
            };
            out.push(ModelProfileDto { profile: p.duplicate(), has_key: has_key[i], active });
            i += 1;
        }
        out
    }

    /// The active profile.
    pub fn active_profile(&self) -> (r: Option<ModelProfile>)
        ensures
            match self.active() {
                None => r is None,
                Some(a) => match first_with_id(self.profiles(), a) {
                    Some(i) => r matches Some(p) && p@ == self.profiles()[i],
                    None => r is None,
                },
            },
    {
        let id = match &self.active_id {
            Some(a) => a,
            None => return None,
        };
        match self.find(id.as_str()) {
            Some(i) => Some(self.profiles[i].duplicate()),
            None => None,
        }
    }

    /// The id of the active profile.
    pub fn active_id(&self) -> (r: Option<String>)
        ensures
            opt_view(r) == self.active(),
    {
        dup_opt(&self.active_id)
    }

    /// Adds or updates a profile (a blank id gets a fresh one) and returns its
    /// id; the first profile added to an empty store becomes active.
    pub fn upsert(&mut self, profile: ModelProfile) -> (r: String)
        ensures
            !all_ws(profile.id@) ==> r@ == profile.id@,
            match first_with_id(old(self).profiles(), r@) {
                Some(i) => final(self).profiles() == old(self).profiles().update(i, ProfileView { id: r@, ..profile@ })
                    && final(self).active() == old(self).active(),
                None => final(self).profiles() == old(self).profiles().push(ProfileView { id: r@, ..profile@ })
                    && final(self).active() == (if old(self).active() is None {
                        Some(r@)
                    } else {
                        old(self).active()
                    }),
            },
    {
        let mut profile = profile;
        if is_blank(profile.id.as_str()) {
            profile.id = new_id();
        }
        let id = profile.id.clone();
        let ghost pv = profile@;
        match self.find(id.as_str()) {
            Some(i) => {
                self.profiles.set(i, profile);
                assert(self.profiles() =~= old(self).profiles().update(i as int, pv));
            },
            None => {
                self.profiles.push(profile);
                assert(self.profiles() =~= old(self).profiles().push(pv));
                if self.active_id.is_none() {
                    self.active_id = Some(id.clone());
                }
            },
        }
        id
    }

    /// Deletes every profile with id `id`; when it was active, the first
    /// remaining profile (if any) becomes active.
    pub fn delete(&mut self, id: &str)
        ensures
            final(self).profiles() == old(self).profiles().filter(|p: ProfileView| p.id != id@),
            old(self).active() == Some(id@) ==> final(self).active() == (if final(self).profiles().len() > 0 {
                Some(final(self).profiles()[0].id)
            } else {
                None
            }),
            old(self).active() != Some(id@) ==> final(self).active() == old(self).active(),
    {
        let ghost src = old(self).profiles();
        let ghost pred = |p: ProfileView| p.id != id@;
        let mut kept: Vec<ModelProfile> = Vec::new();
        let mut i: usize = 0;
        while i < self.profiles.len()
            invariant
                i <= self.profiles@.len(),
                src == profiles_view(self.profiles@),
                pred == (|p: ProfileView| p.id != id@),
                profiles_view(kept@) == src.take(i as int).filter(pred),
            decreases self.profiles@.len() - i,
        {
            let p = &self.profiles[i];
            let keep = !str_eq(p.id.as_str(), id);
            let ghost prev = kept@;
            if keep {
                kept.push(p.duplicate());
                assert(profiles_view(kept@) =~= profiles_view(prev).push(src[i as int]));
            }
            proof {
                assert(src.take(i + 1).drop_last() =~= src.take(i as int));
                assert(src.take(i + 1).last() == src[i as int]);
                reveal(Seq::filter);
            }
            i += 1;
        }
        assert(src.take(src.len() as int) =~= src);
        self.profiles = kept;
        let was_active = match &self.active_id {
            Some(a) => str_eq(a.as_str(), id),
            None => false,
        };
        if was_active {
            if self.profiles.len() > 0 {
                self.active_id = Some(self.profiles[0].id.clone());
            } else {
                self.active_id = None;
            }
        }
    }

    /// Makes profile `id` active; an error when there is none.
    pub fn set_active(&mut self, id: &str) -> (r: Result<(), String>)
        ensures
            final(self).profiles() == old(self).profiles(),
            first_with_id(old(self).profiles(), id@) is Some ==> r is Ok && final(self).active() == Some(id@),
            first_with_id(old(self).profiles(), id@) is None ==> (r matches Err(m) && m@ == "模型不存在"@)
                && final(self).active() == old(self).active(),
    {
        match self.find(id) {
            Some(_) => {
                self.active_id = Some(owned(id));
                Ok(())
            },
            None => Err(owned("模型不存在")),
        }
    }

    /// Updates the runtime parameters of profile `id`: the context window,
    /// clamped to 4000..=2_000_000, and the thinking level, each when given.
    pub fn set_runtime(&mut self, id: &str, context_window: Option<usize>, thinking: Option<ThinkingLevel>) -> (r: Result<(), String>)
        ensures
            final(self).active() == old(self).active(),
            match first_with_id(old(self).profiles(), id@) {
                None => (r matches Err(m) && m@ == "模型不存在"@) && final(self).profiles() == old(self).profiles(),
                Some(i) => r is Ok && final(self).profiles() == old(self).profiles().update(i, ProfileView {
                    context_window: match context_window {
                        Some(cw) => if cw < 4000 {
                            4000
                        } else if cw > 2_000_000 {
                            2_000_000
                        } else {
                            cw
                        },
                        None => old(self).profiles()[i].context_window,
                    },
                    thinking: match thinking {
                        Some(t) => t,
                        None => old(self).profiles()[i].thinking,
                    },
                    ..old(self).profiles()[i]
                }),
            },
    {
        let i = match self.find(id) {
            Some(i) => i,
            None => return Err(owned("模型不存在")),
        };
        let mut p = self.profiles[i].duplicate();
        match context_window {
            Some(cw) => {
                p.context_window = if cw < 4000 {
                    4000
                } else if cw > 2_000_000 {
                    2_000_000
                } else {
                    cw
                };
            },
            None => {},
        }
        match thinking {
            Some(t) => {
                p.thinking = t;
            },
            None => {},
        }
        let ghost pv = p@;
        self.profiles.set(i, p);
        assert(self.profiles() =~= old(self).profiles().update(i as int, pv));
        Ok(())
    }
}

/// Every change of the store keeps it consistent (an active profile exactly
/// when there are profiles, naming one of them): adding or updating a
/// profile, deleting one, making one active, changing runtime parameters.
pub proof fn law_store_stays_consistent(
    profiles: Seq<ProfileView>,
    active: Option<Seq<char>>,
    p: ProfileView,
    id: Seq<char>,
)
    requires
        consistent(profiles, active),
    ensures
        // upsert
        ({
            match first_with_id(profiles, p.id) {
                Some(i) => consistent(profiles.update(i, p), active),
                None => consistent(profiles.push(p), if active is None { Some(p.id) } else { active }),
            }
        }),
        // delete
        ({
            let rest = profiles.filter(|q: ProfileView| q.id != id);
            let na = if active == Some(id) {
                if rest.len() > 0 { Some(rest[0].id) } else { None }
            } else {
                active
            };
            consistent(rest, na)
        }),
        // set_active on an existing profile
        first_with_id(profiles, id) is Some ==> consistent(profiles, Some(id)),
{
    // upsert
    match first_with_id(profiles, p.id) {
        Some(i) => {
            let u = profiles.update(i, p);
            lemma_first_with_id(profiles, p.id);
            assert(profiles[i].id == p.id);
            match active {
                Some(a) => {
                    let k = choose|k: int| 0 <= k < profiles.len() && (#[trigger] profiles[k]).id == a;
                    assert(u[k].id == a);
                },
                None => {},
            }
        },
        None => {
            let u = profiles.push(p);
            assert(u[profiles.len() as int].id == p.id);
            match active {
                Some(a) => {
                    let k = choose|k: int| 0 <= k < profiles.len() && (#[trigger] profiles[k]).id == a;
                    assert(u[k].id == a);
                },
                None => {},
            }
        },
    }
    // delete
    let pred = |q: ProfileView| q.id != id;
    let rest = profiles.filter(pred);
    broadcast use vstd::seq_lib::group_filter_ensures;
    match active {
        Some(a) => {
            if a != id {
                let k = choose|k: int| 0 <= k < profiles.len() && (#[trigger] profiles[k]).id == a;
                assert(pred(profiles[k]));
                assert(rest.contains(profiles[k]));
                let w = choose|w: int| 0 <= w < rest.len() && rest[w] == profiles[k];
                assert(rest[w].id == a);
            }
        },
        None => {},
    }
    // set_active
    if first_with_id(profiles, id) is Some {
        let i = first_with_id(profiles, id)->0;
        lemma_first_with_id(profiles, id);
        assert(profiles[i].id == id);
    }
}

} // verus!

verus! {

impl ModelStore {
    /// The settings of the model in use: those of the active profile, else the
    /// defaults.
    pub fn settings(&self) -> (r: ProviderSettings)
        ensures
            match self.active() {
                Some(a) => match first_with_id(self.profiles(), a) {
                    Some(i) => r.kind == self.profiles()[i].kind && r.base_url@ == self.profiles()[i].base_url
                        && r.model@ == self.profiles()[i].model && r.fallback_model is None && r.context_window
                        == self.profiles()[i].context_window && r.thinking == self.profiles()[i].thinking,
                    None => crate::llm::provider::is_default_settings(r),
                },
                None => crate::llm::provider::is_default_settings(r),
            },
    {
        match self.active_profile() {
            Some(p) => p.to_settings(),
            None => ProviderSettings::default(),
        }
    }

    /// What a model call needs: the active profile's settings and its key
    /// (`stored_key`, read from the key store by the caller); refused without
    /// an active profile or without a key.
    pub fn provider_settings(&self, stored_key: Option<String>) -> (r: Result<(ProviderSettings, String), String>)
        ensures
            match self.active() {
                None => r matches Err(m) && m@ == "尚未配置任何模型，请先添加模型"@,
                Some(a) => match first_with_id(self.profiles(), a) {
                    None => r matches Err(m) && m@ == "尚未配置任何模型，请先添加模型"@,
                    Some(i) => {
                        let p = self.profiles()[i];
                        match stored_key {
                            Some(k) => if k@.len() > 0 {
                                r matches Ok((s, key)) && key@ == k@ && s.model@ == p.model && s.kind == p.kind
                                    && s.base_url@ == p.base_url && s.context_window == p.context_window
                                    && s.thinking == p.thinking && s.fallback_model is None
                            } else {
                                r matches Err(m) && m@ == "模型「"@ + p.name + "」未配置 API Key"@
                            },
                            None => r matches Err(m) && m@ == "模型「"@ + p.name + "」未配置 API Key"@,
                        }
                    },
                },
            },
    {
        let p = match self.active_profile() {
            Some(p) => p,
            None => return Err(owned("尚未配置任何模型，请先添加模型")),
        };
        let key = match stored_key {
            Some(k) => if k.unicode_len() > 0 {
                k
            } else {
                let mut m = owned("模型「");
                append(&mut m, p.name.as_str());
                append(&mut m, "」未配置 API Key");
                return Err(m);
            },
            None => {
                let mut m = owned("模型「");
                append(&mut m, p.name.as_str());
                append(&mut m, "」未配置 API Key");
                return Err(m);
            },
        };
        Ok((p.to_settings(), key))
    }
}

} // verus!
