//! The application's configuration: model profiles, search backends and budgets,
//! with the upgrade of the legacy single-profile layout.
use crate::json::{json_member, json_str, member, JsonValue};
use crate::tools::str_or;
use vstd::prelude::*;

verus! {

/// A model profile: which provider, model, key and endpoint to use.
#[derive(Debug)]
pub struct LlmProfile {
    pub id: String,
    pub name: String,
    pub provider: String,
    pub model: String,
    pub api_key: String,
    pub base_url: String,
}

impl Clone for LlmProfile {
    fn clone(&self) -> (res: Self)
        ensures
            res == *self,
    {
        LlmProfile {
            id: self.id.clone(),
            name: self.name.clone(),
            provider: self.provider.clone(),
            model: self.model.clone(),
            api_key: self.api_key.clone(),
            base_url: self.base_url.clone(),
        }
    }
}

/// Whether `p` holds exactly the given strings.
pub open spec fn profile_is(
    p: LlmProfile,
    id: Seq<char>,
    name: Seq<char>,
    provider: Seq<char>,
    model: Seq<char>,
    api_key: Seq<char>,
    base_url: Seq<char>,
) -> bool {
    &&& p.id@ == id
    &&& p.name@ == name
    &&& p.provider@ == provider
    &&& p.model@ == model
    &&& p.api_key@ == api_key
    &&& p.base_url@ == base_url
}

impl LlmProfile {
    /// A profile with the given fields.
    pub fn new(id: &str, name: &str, provider: &str, model: &str, api_key: &str, base_url: &str) -> (res: Self)
        ensures
            profile_is(res, id@, name@, provider@, model@, api_key@, base_url@),
    {
        LlmProfile {
            id: crate::text::owned(id),
            name: crate::text::owned(name),
            provider: crate::text::owned(provider),
            model: crate::text::owned(model),
            api_key: crate::text::owned(api_key),
            base_url: crate::text::owned(base_url),
        }
    }
}

/// The model profiles and which one is active.
#[derive(Debug)]
pub struct LlmConfig {
    pub profiles: Vec<LlmProfile>,
    pub active_profile_id: String,
}

/// The position of the first profile of `ps` whose id is `id`, if any.
pub open spec fn first_with_id(ps: Seq<LlmProfile>, id: Seq<char>) -> Option<int> {
    if exists|i: int| 0 <= i < ps.len() && ps[i].id@ == id {
        Some(choose|i: int| 0 <= i < ps.len() && ps[i].id@ == id && forall|j: int| 0 <= j < i ==> ps[j].id@ != id)
    } else {
        None
    }
}

impl LlmConfig {
    /// The first profile whose id is the active id, if any.
    pub fn active_profile(&self) -> (res: Option<&LlmProfile>)
        ensures
            match res {
                Some(p) => exists|i: int|
                    0 <= i < self.profiles@.len() && self.profiles@[i] == *p && p.id@ == self.active_profile_id@
                        && forall|j: int| 0 <= j < i ==> self.profiles@[j].id@ != self.active_profile_id@,
                None => forall|i: int| 0 <= i < self.profiles@.len() ==> self.profiles@[i].id@ != self.active_profile_id@,
            },
    {
        let mut i: usize = 0;
        while i < self.profiles.len()
            invariant
                i <= self.profiles@.len(),
                forall|j: int| 0 <= j < i ==> self.profiles@[j].id@ != self.active_profile_id@,
            decreases self.profiles.len() - i,
        {
            if crate::text::str_eq(self.profiles[i].id.as_str(), self.active_profile_id.as_str()) {
                return Some(&self.profiles[i]);
            }
            i = i + 1;
        }
        None
    }

    /// The profile a model backend is built from: the active one, or the built-in
    /// default profile where no profile has the active id.
    pub fn profile_or_default(&self) -> (res: LlmProfile)
        ensures
            match first_with_id(self.profiles@, self.active_profile_id@) {
                Some(i) => res == self.profiles@[i],
                None => is_default_profile(res),
            },
    {
        match self.active_profile() {
            Some(p) => {
                proof {
                    let i = choose|i: int|
                        0 <= i < self.profiles@.len() && self.profiles@[i] == *p && p.id@ == self.active_profile_id@
                            && forall|j: int| 0 <= j < i ==> self.profiles@[j].id@ != self.active_profile_id@;
                    let k = first_with_id(self.profiles@, self.active_profile_id@)->0;
                    assert(k == i) by {
                        if k < i {
                            assert(self.profiles@[k].id@ != self.active_profile_id@);
                        }
                        if i < k {
                            assert(self.profiles@[i].id@ != self.active_profile_id@);
                        }
                    }
                }
                p.clone()
            },
            None => default_profile(),
        }
    }
}

/// Whether `p` is the built-in default profile.
pub open spec fn is_default_profile(p: LlmProfile) -> bool {
    profile_is(p, "default"@, "Default"@, "openai"@, "deepseek-chat"@, ""@, "https://api.deepseek.com"@)
}

/// The built-in default profile.
pub fn default_profile() -> (res: LlmProfile)
    ensures
        is_default_profile(res),
{
    LlmProfile::new("default", "Default", "openai", "deepseek-chat", "", "https://api.deepseek.com")
}

/// A search backend and whether it is used.
#[derive(Debug)]
pub struct SearchBackendConfig {
    pub name: String,
    pub enabled: bool,
    pub priority: u8,
    pub api_key: Option<String>,
}

/// The search backends and limits of a search.
#[derive(Debug)]
pub struct SearchConfig {
    pub backends: Vec<SearchBackendConfig>,
    pub max_results_per_query: usize,
    pub max_rounds: u32,
}

/// The budget of a search: how many model and backend calls it may make.
#[derive(Debug)]
pub struct BudgetConfig {
    pub max_llm_calls: u32,
    pub max_search_calls: u32,
}

/// The whole configuration.
#[derive(Debug)]
pub struct AppConfig {
    pub llm: LlmConfig,
    pub search: SearchConfig,
    pub budget: BudgetConfig,
}

/// The member list `es` with the value of its first member named `key` replaced by `v`.
pub open spec fn replace_member(es: Seq<(String, JsonValue)>, key: Seq<char>, v: JsonValue) -> Seq<(String, JsonValue)>
    decreases es.len(),
{
    if es.len() == 0 {
        es
    } else if es[0].0@ == key {
        es.update(0, (es[0].0, v))
    } else {
        seq![es[0]] + replace_member(es.drop_first(), key, v)
    }
}

/// Whether member `i` of `ms` is named `key` and holds the string `value`.
pub open spec fn string_member(ms: Seq<(String, JsonValue)>, i: int, key: Seq<char>, value: Seq<char>) -> bool {
    ms[i].0@ == key && ms[i].1.str_of() == Some(value)
}

/// The profile that the legacy layout's `llm` section `legacy` stands for: exactly
/// the members `id` "default", `name` "Default", and `provider`, `model`, `api_key`,
/// `base_url` from the legacy fields or their defaults, in this order.
pub open spec fn legacy_profile_ok(p: JsonValue, legacy: JsonValue) -> bool {
    p.object_of() matches Some(ms) && {
        &&& ms.len() == 6
        &&& string_member(ms, 0, "id"@, "default"@)
        &&& string_member(ms, 1, "name"@, "Default"@)
        &&& string_member(ms, 2, "provider"@, str_or(legacy.at("provider"@), "openai"@))
        &&& string_member(ms, 3, "model"@, str_or(legacy.at("model"@), "deepseek-chat"@))
        &&& string_member(ms, 4, "api_key"@, str_or(legacy.at("api_key"@), ""@))
        &&& string_member(ms, 5, "base_url"@, str_or(legacy.at("base_url"@), "https://api.deepseek.com"@))
    }
}

/// The `llm` section that replaces a legacy one: exactly the members `profiles`, a
/// single profile, and `active_profile_id` "default".
pub open spec fn upgraded_llm_ok(llm: JsonValue, legacy: JsonValue) -> bool {
    llm.object_of() matches Some(ms) && {
        &&& ms.len() == 2
        &&& ms[0].0@ == "profiles"@
        &&& ms[0].1 matches JsonValue::Array(ps) && ps@.len() == 1 && legacy_profile_ok(ps@[0], legacy)
        &&& string_member(ms, 1, "active_profile_id"@, "default"@)
    }
}

/// Whether a configuration document uses the legacy layout: an `llm` section without
/// `profiles`.
pub open spec fn is_legacy(doc: JsonValue) -> bool {
    !doc.at("llm"@).null() && doc.at("llm"@).at("profiles"@).null()
}

/// `res` is `doc` upgraded: a legacy document gets the `llm` section of a single
/// active profile built from its legacy fields; any other is kept as it is.
pub open spec fn upgrade_ok(doc: JsonValue, res: JsonValue) -> bool {
    &&& !is_legacy(doc) ==> res == doc
    &&& is_legacy(doc) ==> (doc matches JsonValue::Object(es) && exists|llm: JsonValue|
        upgraded_llm_ok(llm, doc.at("llm"@)) && res.object_of() == Some(replace_member(es@, "llm"@, llm)))
}

/// Replacing the value of a member present in a list makes it the value found.
proof fn lemma_member_replaced(es: Seq<(String, JsonValue)>, key: Seq<char>, v: JsonValue)
    requires
        member(es, key) is Some,
    ensures
        member(replace_member(es, key, v), key) == Some(v),
    decreases es.len(),
{
    if es.len() > 0 && es[0].0@ != key {
        lemma_member_replaced(es.drop_first(), key, v);
        assert((seq![es[0]] + replace_member(es.drop_first(), key, v)).drop_first() =~= replace_member(
            es.drop_first(),
            key,
            v,
        ));
    }
}

/// An upgraded configuration document is no longer of the legacy layout, so that
/// upgrading it again leaves it as it is.
pub proof fn lemma_upgrade_settles(doc: JsonValue, res: JsonValue)
    requires
        upgrade_ok(doc, res),
    ensures
        !is_legacy(res),
{
    if is_legacy(doc) {
        let es = doc.object_of()->0;
        let llm = choose|llm: JsonValue|
            upgraded_llm_ok(llm, doc.at("llm"@)) && res.object_of() == Some(replace_member(es, "llm"@, llm));
        lemma_member_replaced(es, "llm"@, llm);
        assert(res.at("llm"@) == llm);
    }
}

/// Looks up the position of the first member named `key`.
fn find_member(es: &Vec<(String, JsonValue)>, key: &str) -> (res: Option<usize>)
    ensures
        match res {
            Some(i) => i < es@.len() && es@[i as int].0@ == key@ && forall|j: int| 0 <= j < i ==> es@[j].0@ != key@,
            None => forall|j: int| 0 <= j < es@.len() ==> es@[j].0@ != key@,
        },
{
    let mut i: usize = 0;
    while i < es.len()
        invariant
            i <= es@.len(),
            forall|j: int| 0 <= j < i ==> es@[j].0@ != key@,
        decreases es.len() - i,
    {
        if crate::text::str_eq(es[i].0.as_str(), key) {
            return Some(i);
        }
        i = i + 1;
    }
    None
}

proof fn lemma_replace_member(es: Seq<(String, JsonValue)>, key: Seq<char>, v: JsonValue, i: int)
    requires
        0 <= i < es.len(),
        es[i].0@ == key,
        forall|j: int| 0 <= j < i ==> es[j].0@ != key,
    ensures
        replace_member(es, key, v) == es.update(i, (es[i].0, v)),
    decreases es.len(),
{
    if i > 0 {
        lemma_replace_member(es.drop_first(), key, v, i - 1);
        assert(es.update(i, (es[i].0, v)) =~= seq![es[0]] + es.drop_first().update(i - 1, (es[i].0, v)));
    }
}

proof fn lemma_member_absent(es: Seq<(String, JsonValue)>, key: Seq<char>)
    requires
        forall|j: int| 0 <= j < es.len() ==> es[j].0@ != key,
    ensures
        member(es, key) is None,
    decreases es.len(),
{
    if es.len() > 0 {
        lemma_member_absent(es.drop_first(), key);
    }
}

proof fn lemma_member_first(es: Seq<(String, JsonValue)>, key: Seq<char>, i: int)
    requires
        0 <= i < es.len(),
        es[i].0@ == key,
        forall|j: int| 0 <= j < i ==> es[j].0@ != key,
    ensures
        member(es, key) == Some(es[i].1),
    decreases es.len(),
{
    if i > 0 {
        lemma_member_first(es.drop_first(), key, i - 1);
    }
}

impl AppConfig {
    /// The configuration used where none can be read: the default profile, the
    /// OpenAlex backend, 15 results per query, 3 rounds, 10 model calls and 30 searches.
    pub fn default_config() -> (res: Self)
        ensures
            res.llm.profiles@.len() == 1,
            is_default_profile(res.llm.profiles@[0]),
            res.llm.active_profile_id@ == "default"@,
            res.search.backends@.len() == 1,
            res.search.backends@[0].name@ == "openalex"@,
            res.search.backends@[0].enabled,
            res.search.backends@[0].priority == 1,
            res.search.backends@[0].api_key is None,
            res.search.max_results_per_query == 15,
            res.search.max_rounds == 3,
            res.budget.max_llm_calls == 10,
            res.budget.max_search_calls == 30,
    {
        AppConfig {
            llm: LlmConfig { profiles: vec![default_profile()], active_profile_id: crate::text::owned("default") },
            search: SearchConfig {
                backends: vec![
                    SearchBackendConfig {
                        name: crate::text::owned("openalex"),
                        enabled: true,
                        priority: 1,
                        api_key: None,
                    },
                ],
                max_results_per_query: 15,
                max_rounds: 3,
            },
            budget: BudgetConfig { max_llm_calls: 10, max_search_calls: 30 },
        }
    }

    /// Upgrades a configuration document of the legacy layout (`llm.provider`, `model`,
    /// `api_key`, `base_url`) to the profile layout: the `llm` section becomes a single
    /// profile "default", built from the legacy fields with their defaults, and active.
    /// Other documents are returned unchanged.
    pub fn upgrade_legacy(doc: JsonValue) -> (res: JsonValue)
        ensures
            upgrade_ok(doc, res),
    {
        let legacy_needed = !doc.get("llm").is_null() && doc.get("llm").get("profiles").is_null();
        if !legacy_needed {
            return doc;
        }
        let ghost d0 = doc;
        match doc {
            JsonValue::Object(mut es) => {
                let idx = find_member(&es, "llm");
                match idx {
                    Some(i) => {
                        proof {
                            lemma_member_first(es@, "llm"@, i as int);
                        }
                        let llm = {
                            let legacy = &es[i].1;
                            let profile = JsonValue::Object(
                                vec![
                                    json_member("id", json_str("default")),
                                    json_member("name", json_str("Default")),
                                    json_member("provider", json_str(str_or_exec(legacy.get("provider"), "openai"))),
                                    json_member("model", json_str(str_or_exec(legacy.get("model"), "deepseek-chat"))),
                                    json_member("api_key", json_str(str_or_exec(legacy.get("api_key"), ""))),
                                    json_member("base_url", json_str(str_or_exec(legacy.get("base_url"), "https://api.deepseek.com"))),
                                ],
                            );
                            proof {
                                assert(legacy_profile_ok(profile, *legacy));
                            }
                            let llm = JsonValue::Object(
                                vec![
                                    json_member("profiles", JsonValue::Array(vec![profile])),
                                    json_member("active_profile_id", json_str("default")),
                                ],
                            );
                            proof {
                                assert(upgraded_llm_ok(llm, *legacy));
                            }
                            llm
                        };
                        let ghost es0 = es@;
                        let key = es[i].0.clone();
                        es.set(i, (key, llm));
                        proof {
                            lemma_replace_member(es0, "llm"@, llm, i as int);
                            assert(es@ =~= es0.update(i as int, (es0[i as int].0, llm)));
                            assert(d0.at("llm"@) == es0[i as int].1);
                            assert(upgraded_llm_ok(llm, d0.at("llm"@)));
                        }
                        JsonValue::Object(es)
                    },
                    None => {
                        proof {
                            lemma_member_absent(es@, "llm"@);
                        }
                        JsonValue::Object(es)
                    },
                }
            },
            other => other,
        }
    }

    /// Reads a configuration document from its YAML text, upgrading the legacy layout;
    /// `None` where the text is not YAML.
    pub fn read_document(text: &str) -> (res: Option<JsonValue>)
        ensures
            match crate::json::yaml_parsed(text@) {
                None => res is None,
                Some(doc) => res matches Some(r) && upgrade_ok(doc, r),
            },
    {
        match crate::json::parse_yaml(text) {
            Some(doc) => Some(AppConfig::upgrade_legacy(doc)),
            None => None,
        }
    }
}

/// `v.as_str().unwrap_or(d)`.
fn str_or_exec<'a>(v: &'a JsonValue, d: &'a str) -> (res: &'a str)
    ensures
        res@ == str_or(*v, d@),
{
    match v.as_str() {
        Some(s) => s,
        None => d,
    }
}

} // verus!
