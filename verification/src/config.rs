//! The configuration of the gateway: the settings as they are stored, what the environment
//! overrides in them, and the settings as they are used.
pub use crate::json::merge_json_maps;
use crate::json::{entries, law_merge_by_key, merged, new_map, parse_object, parsed_map, Json};
use crate::profiles::{
    by_name, has_match, in_name_order, is_match, lemma_last_exists, lemma_listed_once, lemma_match_exists, lemma_match_is_unique, lists, matched,
    ProfileTable,
};
use crate::text::{
    ascii_lower, decimal, equal_ignoring_case, law_trim, lemma_precedes_irreflexive, lemma_precedes_transitive, option_view, parse_decimal,
    precedes, result_view, trim, trimmed,
};
use serde_json::Map as JsonMap;
use serde_json::Value as JsonValue;
use vstd::prelude::*;
use vstd::string::*;

verus! {

/// The address of a host.
#[derive(Debug, Clone, Copy, PartialEq, Eq)]
pub enum HostAddr {
    V4 { octets: [u8; 4] },
    V6 { segments: [u16; 8], flow_info: u32, scope_id: u32 },
}

/// The address that the gateway listens on.
#[derive(Debug, Clone, Copy, PartialEq, Eq)]
pub struct BindAddr {
    pub host: HostAddr,
    pub port: u16,
}

impl View for BindAddr {
    type V = BindAddr;

    open spec fn view(&self) -> BindAddr {
        *self
    }
}

/// The settings as they are used.
#[derive(Debug, Clone)]
pub struct Config {
    pub bind_addr: BindAddr,
    /// The URL in its normal form.
    pub upstream_base_url: String,
    pub upstream_api_key: Option<String>,
    pub upstream_model: Option<String>,
    pub upstream_chat_kwargs: JsonMap<String, JsonValue>,
    pub model_profiles: ProfileTable<ModelProfile>,
    /// The URL in its normal form.
    pub brave_base_url: String,
    pub brave_api_key: Option<String>,
    pub brave_max_results: usize,
    pub request_timeout_secs: u64,
}

/// The settings of a model as they are stored.
#[derive(Debug, Clone, PartialEq)]
pub struct PersistedModelProfile {
    pub upstream_model: Option<String>,
    pub upstream_chat_kwargs: JsonMap<String, JsonValue>,
}

/// The settings of a model as they are used.
#[derive(Debug, Clone)]
pub struct ModelProfile {
    pub upstream_model: Option<String>,
    pub upstream_chat_kwargs: JsonMap<String, JsonValue>,
}

/// The settings as they are stored.
#[derive(Debug, Clone, PartialEq)]
pub struct PersistedConfig {
    pub bind_addr: String,
    pub upstream_base_url: String,
    pub upstream_api_key: Option<String>,
    pub upstream_model: Option<String>,
    pub upstream_chat_kwargs: JsonMap<String, JsonValue>,
    pub model_profiles: ProfileTable<PersistedModelProfile>,
    pub brave_base_url: String,
    pub brave_api_key: Option<String>,
    pub brave_max_results: usize,
    pub request_timeout_secs: u64,
}

/// The variables of the environment that override stored settings.
#[derive(Debug)]
pub struct EnvOverrides {
    pub bind_addr: Option<String>,
    pub upstream_base_url: Option<String>,
    pub upstream_api_key: Option<String>,
    /// The key that stands in where no other upstream key is set.
    pub openai_api_key: Option<String>,
    pub upstream_model: Option<String>,
    /// The text of a JSON object.
    pub upstream_chat_kwargs_json: Option<String>,
    pub brave_base_url: Option<String>,
    pub brave_api_key: Option<String>,
    pub brave_max_results: Option<String>,
    pub request_timeout_secs: Option<String>,
}

/// What the settings of a model say.
pub struct ModelProfileView {
    pub upstream_model: Option<Seq<char>>,
    pub upstream_chat_kwargs: Map<Seq<char>, Json>,
}

/// What a [`Config`] says.
pub struct ConfigView {
    pub bind_addr: BindAddr,
    pub upstream_base_url: Seq<char>,
    pub upstream_api_key: Option<Seq<char>>,
    pub upstream_model: Option<Seq<char>>,
    pub upstream_chat_kwargs: Map<Seq<char>, Json>,
    pub model_profiles: Map<Seq<char>, ModelProfileView>,
    pub brave_base_url: Seq<char>,
    pub brave_api_key: Option<Seq<char>>,
    pub brave_max_results: usize,
    pub request_timeout_secs: u64,
}

/// What a [`PersistedConfig`] says.
pub struct PersistedConfigView {
    pub bind_addr: Seq<char>,
    pub upstream_base_url: Seq<char>,
    pub upstream_api_key: Option<Seq<char>>,
    pub upstream_model: Option<Seq<char>>,
    pub upstream_chat_kwargs: Map<Seq<char>, Json>,
    pub model_profiles: Map<Seq<char>, ModelProfileView>,
    pub brave_base_url: Seq<char>,
    pub brave_api_key: Option<Seq<char>>,
    pub brave_max_results: usize,
    pub request_timeout_secs: u64,
}

impl View for ModelProfile {
    type V = ModelProfileView;

    open spec fn view(&self) -> ModelProfileView {
        ModelProfileView {
            upstream_model: option_view(self.upstream_model),
            upstream_chat_kwargs: entries(self.upstream_chat_kwargs),
        }
    }
}

impl View for PersistedModelProfile {
    type V = ModelProfileView;

    open spec fn view(&self) -> ModelProfileView {
        ModelProfileView {
            upstream_model: option_view(self.upstream_model),
            upstream_chat_kwargs: entries(self.upstream_chat_kwargs),
        }
    }
}

/// What the profiles of a table say.
pub open spec fn profile_views<P: View>(profiles: Map<Seq<char>, P>) -> Map<Seq<char>, P::V> {
    Map::new(|name: Seq<char>| profiles.contains_key(name), |name: Seq<char>| profiles[name]@)
}

impl View for Config {
    type V = ConfigView;

    open spec fn view(&self) -> ConfigView {
        ConfigView {
            bind_addr: self.bind_addr,
            upstream_base_url: self.upstream_base_url@,
            upstream_api_key: option_view(self.upstream_api_key),
            upstream_model: option_view(self.upstream_model),
            upstream_chat_kwargs: entries(self.upstream_chat_kwargs),
            model_profiles: profile_views(self.model_profiles@),
            brave_base_url: self.brave_base_url@,
            brave_api_key: option_view(self.brave_api_key),
            brave_max_results: self.brave_max_results,
            request_timeout_secs: self.request_timeout_secs,
        }
    }
}

impl View for PersistedConfig {
    type V = PersistedConfigView;

    open spec fn view(&self) -> PersistedConfigView {
        PersistedConfigView {
            bind_addr: self.bind_addr@,
            upstream_base_url: self.upstream_base_url@,
            upstream_api_key: option_view(self.upstream_api_key),
            upstream_model: option_view(self.upstream_model),
            upstream_chat_kwargs: entries(self.upstream_chat_kwargs),
            model_profiles: profile_views(self.model_profiles@),
            brave_base_url: self.brave_base_url@,
            brave_api_key: option_view(self.brave_api_key),
            brave_max_results: self.brave_max_results,
            request_timeout_secs: self.request_timeout_secs,
        }
    }
}

/// The stored settings where nothing is stored.
pub open spec fn default_settings() -> PersistedConfigView {
    PersistedConfigView {
        bind_addr: "127.0.0.1:4000"@,
        upstream_base_url: "http://127.0.0.1:8000/v1"@,
        upstream_api_key: None,
        upstream_model: None,
        upstream_chat_kwargs: Map::empty(),
        model_profiles: Map::empty(),
        brave_base_url: "https://api.search.brave.com/res/v1"@,
        brave_api_key: None,
        brave_max_results: 5,
        request_timeout_secs: 60,
    }
}

impl Default for PersistedConfig {
    fn default() -> (config: Self)
        ensures
            config@ == default_settings(),
    {
        let config = PersistedConfig {
            bind_addr: "127.0.0.1:4000".to_string(),
            upstream_base_url: "http://127.0.0.1:8000/v1".to_string(),
            upstream_api_key: None,
            upstream_model: None,
            upstream_chat_kwargs: new_map(),
            model_profiles: ProfileTable::new(),
            brave_base_url: "https://api.search.brave.com/res/v1".to_string(),
            brave_api_key: None,
            brave_max_results: 5,
            request_timeout_secs: 60,
        };
        assert(config@.model_profiles =~= default_settings().model_profiles);
        config
    }
}

impl Default for PersistedModelProfile {
    fn default() -> (profile: Self)
        ensures
            profile@ == (ModelProfileView {
                upstream_model: None,
                upstream_chat_kwargs: Map::empty(),
            }),
    {
        PersistedModelProfile { upstream_model: None, upstream_chat_kwargs: new_map() }
    }
}

/// What was found where the stored settings are looked for.
#[derive(Debug)]
pub enum StoredFile {
    /// There is no file.
    Missing,
    /// The file cannot be read, for this reason.
    Unreadable { reason: String },
    /// The file does not hold settings, for this reason.
    Malformed { reason: String },
    /// The settings that the file holds.
    Settings { config: PersistedConfig },
}

/// The stored settings of a file: a file that is not there leaves the defaults.
pub open spec fn stored_settings(path: Seq<char>, found: StoredFile) -> Result<
    PersistedConfigView,
    Seq<char>,
> {
    match found {
        StoredFile::Missing => Ok(default_settings()),
        StoredFile::Unreadable { reason } => Err("failed to read "@ + path + ": "@ + reason@),
        StoredFile::Malformed { reason } => Err("failed to parse "@ + path + ": "@ + reason@),
        StoredFile::Settings { config } => Ok(config@),
    }
}

/// The stored settings, from what was found at `path`.
pub fn load_persisted_config(path: &str, found: StoredFile) -> (result: Result<
    PersistedConfig,
    String,
>)
    ensures
        result_view(result) == stored_settings(path@, found),
{
    match found {
        StoredFile::Missing => Ok(PersistedConfig::default()),
        StoredFile::Unreadable { reason } => Err(
            "failed to read ".to_string().concat(path).concat(": ").concat(reason.as_str()),
        ),
        StoredFile::Malformed { reason } => Err(
            "failed to parse ".to_string().concat(path).concat(": ").concat(reason.as_str()),
        ),
        StoredFile::Settings { config } => Ok(config),
    }
}

/// A setting without the white space around it; a blank one is as good as absent.
pub open spec fn kept(setting: Option<Seq<char>>) -> Option<Seq<char>> {
    match setting {
        Some(text) => if trim(text).len() == 0 {
            None
        } else {
            Some(trim(text))
        },
        None => None,
    }
}

/// The settings of a model as they are used.
pub open spec fn kept_profile(profile: ModelProfileView) -> ModelProfileView {
    ModelProfileView { upstream_model: kept(profile.upstream_model), ..profile }
}

/// Whether some stored name is `name` but for the white space around it.
pub open spec fn is_spelled<P>(profiles: Map<Seq<char>, P>, name: Seq<char>) -> bool {
    exists|spelling: Seq<char>| #[trigger]
        profiles.contains_key(spelling) && trim(spelling) == name
}

/// Whether `spelling` is the last of the stored names that are `name` but for the white space
/// around them.
pub open spec fn is_last_spelling<P>(
    profiles: Map<Seq<char>, P>,
    name: Seq<char>,
    spelling: Seq<char>,
) -> bool {
    &&& profiles.contains_key(spelling)
    &&& trim(spelling) == name
    &&& forall|other: Seq<char>| #[trigger]
        profiles.contains_key(other) && trim(other) == name ==> other == spelling || precedes(
            other,
            spelling,
        )
}

/// The profiles as they are used: names lose the white space around them, profiles with a blank
/// name are dropped, and of profiles whose names become the same the last one stays.
pub open spec fn kept_profiles(profiles: Map<Seq<char>, ModelProfileView>) -> Map<
    Seq<char>,
    ModelProfileView,
> {
    Map::new(
        |name: Seq<char>| name.len() > 0 && is_spelled(profiles, name),
        |name: Seq<char>|
            kept_profile(
                profiles[choose|spelling: Seq<char>| is_last_spelling(profiles, name, spelling)],
            ),
    )
}

/// The settings as they are used, with the addresses that were read from them.
pub open spec fn usable_settings(
    stored: PersistedConfigView,
    bind_addr: BindAddr,
    upstream_base_url: Seq<char>,
    brave_base_url: Seq<char>,
) -> ConfigView {
    ConfigView {
        bind_addr,
        upstream_base_url,
        upstream_api_key: kept(stored.upstream_api_key),
        upstream_model: kept(stored.upstream_model),
        upstream_chat_kwargs: stored.upstream_chat_kwargs,
        model_profiles: kept_profiles(stored.model_profiles),
        brave_base_url,
        brave_api_key: kept(stored.brave_api_key),
        brave_max_results: stored.brave_max_results,
        request_timeout_secs: stored.request_timeout_secs,
    }
}

/// What comes of stored settings: the settings as they are used, or the first of the addresses
/// that cannot be read.
pub open spec fn outcome(
    stored: PersistedConfigView,
    bind_addr: Result<BindAddr, Seq<char>>,
    upstream_base_url: Result<Seq<char>, Seq<char>>,
    brave_base_url: Result<Seq<char>, Seq<char>>,
) -> Result<ConfigView, Seq<char>> {
    match (bind_addr, upstream_base_url, brave_base_url) {
        (Err(reason), _, _) => Err("invalid bind_addr: "@ + reason),
        (_, Err(reason), _) => Err("invalid upstream_base_url: "@ + reason),
        (_, _, Err(reason)) => Err("invalid brave_base_url: "@ + reason),
        (Ok(addr), Ok(upstream), Ok(brave)) => Ok(usable_settings(stored, addr, upstream, brave)),
    }
}

/// The model that the upstream is asked for: that of the matched profile, that of the settings, or
/// the requested one.
pub open spec fn upstream_model(config: ConfigView, request_model: Seq<char>) -> Seq<char> {
    let of_profile = match matched(config.model_profiles, request_model) {
        Some(profile) => profile.upstream_model,
        None => None,
    };
    match (of_profile, config.upstream_model) {
        (Some(model), _) => model,
        (None, Some(model)) => model,
        (None, None) => request_model,
    }
}

/// The profile of a request: the one that the requested model matches, or the one that the
/// upstream model matches, or the one named `*`.
pub open spec fn request_profile(config: ConfigView, request_model: Seq<char>) -> Option<
    ModelProfileView,
> {
    match (
        matched(config.model_profiles, request_model),
        matched(config.model_profiles, upstream_model(config, request_model)),
    ) {
        (Some(profile), _) => Some(profile),
        (None, Some(profile)) => Some(profile),
        (None, None) => if config.model_profiles.contains_key("*"@) {
            Some(config.model_profiles["*"@])
        } else {
            None
        },
    }
}

/// The arguments that are sent along with a request: those of the settings, with those of the
/// profile of the request merged into them.
pub open spec fn chat_kwargs(config: ConfigView, request_model: Seq<char>) -> Map<Seq<char>, Json> {
    match request_profile(config, request_model) {
        Some(profile) => merged(config.upstream_chat_kwargs, profile.upstream_chat_kwargs),
        None => config.upstream_chat_kwargs,
    }
}

/// A variable of the environment, unless it is unset or blank.
pub open spec fn set_variable(variable: Option<Seq<char>>) -> Option<Seq<char>> {
    match variable {
        Some(text) => if trim(text).len() == 0 {
            None
        } else {
            Some(text)
        },
        None => None,
    }
}

/// The variable where it is set, or else the stored setting.
pub open spec fn overridden(variable: Option<Seq<char>>, stored: Seq<char>) -> Seq<char> {
    match set_variable(variable) {
        Some(text) => text,
        None => stored,
    }
}

/// The variable where it is set, or else the stored setting.
pub open spec fn overridden_option(
    variable: Option<Seq<char>>,
    stored: Option<Seq<char>>,
) -> Option<Seq<char>> {
    match set_variable(variable) {
        Some(text) => Some(text),
        None => stored,
    }
}

/// The variable where it is a number of at most `max`, or else the stored setting.
pub open spec fn overridden_number(variable: Option<Seq<char>>, stored: int, max: int) -> int {
    match variable {
        Some(text) => match decimal(text) {
            Some(number) => if number <= max {
                number as int
            } else {
                stored
            },
            None => stored,
        },
        None => stored,
    }
}

/// What some variables of the environment say.
pub struct EnvOverridesView {
    pub bind_addr: Option<Seq<char>>,
    pub upstream_base_url: Option<Seq<char>>,
    pub upstream_api_key: Option<Seq<char>>,
    pub openai_api_key: Option<Seq<char>>,
    pub upstream_model: Option<Seq<char>>,
    pub upstream_chat_kwargs_json: Option<Seq<char>>,
    pub brave_base_url: Option<Seq<char>>,
    pub brave_api_key: Option<Seq<char>>,
    pub brave_max_results: Option<Seq<char>>,
    pub request_timeout_secs: Option<Seq<char>>,
}

impl View for EnvOverrides {
    type V = EnvOverridesView;

    open spec fn view(&self) -> EnvOverridesView {
        EnvOverridesView {
            bind_addr: option_view(self.bind_addr),
            upstream_base_url: option_view(self.upstream_base_url),
            upstream_api_key: option_view(self.upstream_api_key),
            openai_api_key: option_view(self.openai_api_key),
            upstream_model: option_view(self.upstream_model),
            upstream_chat_kwargs_json: option_view(self.upstream_chat_kwargs_json),
            brave_base_url: option_view(self.brave_base_url),
            brave_api_key: option_view(self.brave_api_key),
            brave_max_results: option_view(self.brave_max_results),
            request_timeout_secs: option_view(self.request_timeout_secs),
        }
    }
}

/// The stored settings with what the environment overrides in them. `kwargs` are the arguments
/// that were read from the environment.
pub open spec fn overridden_settings(
    stored: PersistedConfigView,
    env: EnvOverridesView,
    kwargs: Option<Map<Seq<char>, Json>>,
) -> PersistedConfigView {
    PersistedConfigView {
        bind_addr: overridden(env.bind_addr, stored.bind_addr),
        upstream_base_url: overridden(env.upstream_base_url, stored.upstream_base_url),
        upstream_api_key: overridden_option(
            env.upstream_api_key,
            match stored.upstream_api_key {
                Some(key) => Some(key),
                None => set_variable(env.openai_api_key),
            },
        ),
        upstream_model: overridden_option(env.upstream_model, stored.upstream_model),
        upstream_chat_kwargs: match kwargs {
            Some(kwargs) => kwargs,
            None => stored.upstream_chat_kwargs,
        },
        model_profiles: stored.model_profiles,
        brave_base_url: overridden(env.brave_base_url, stored.brave_base_url),
        brave_api_key: overridden_option(env.brave_api_key, stored.brave_api_key),
        brave_max_results: overridden_number(
            env.brave_max_results,
            stored.brave_max_results as int,
            usize::MAX as int,
        ) as usize,
        request_timeout_secs: overridden_number(
            env.request_timeout_secs,
            stored.request_timeout_secs as int,
            u64::MAX as int,
        ) as u64,
    }
}

/// The arguments that the environment gives: those of its JSON object, where it is set to one.
pub open spec fn env_kwargs(variable: Option<Seq<char>>) -> Option<Map<Seq<char>, Json>> {
    match set_variable(variable) {
        Some(text) => parsed_map(text),
        None => None,
    }
}

/// What `url::Url::parse` makes of `text`: the URL in its normal form, or the message of the
/// error.
pub uninterp spec fn parsed_url(text: Seq<char>) -> Result<Seq<char>, Seq<char>>;

/// `url::Url::parse`, with the URL handed on as its serialization and an error as its message.
#[verifier::external_body]
fn parse_url(text: &str) -> (url: Result<String, String>)
    ensures
        result_view(url) == parsed_url(text@),
{
    url::Url::parse(text).map(String::from).map_err(|err| err.to_string())
}

/// A setting without the white space around it; a blank one is as good as absent.
fn keep(setting: &Option<String>) -> (kept_setting: Option<String>)
    ensures
        option_view(kept_setting) == kept(option_view(*setting)),
{
    match setting {
        Some(text) => {
            let text = trimmed(text.as_str());
            if text.as_str().is_empty() {
                None
            } else {
                Some(text)
            }
        },
        None => None,
    }
}

/// Every stored name has a last spelling.
spec fn has_last_spellings<P>(profiles: Map<Seq<char>, P>) -> bool {
    forall|spelling: Seq<char>| #[trigger]
        profiles.contains_key(spelling) ==> exists|last: Seq<char>|
            is_last_spelling(profiles, trim(spelling), last)
}

/// A name has one last spelling.
proof fn lemma_last_spelling_is_unique<P>(
    profiles: Map<Seq<char>, P>,
    name: Seq<char>,
    spelling: Seq<char>,
)
    requires
        is_last_spelling(profiles, name, spelling),
    ensures
        (choose|other: Seq<char>| is_last_spelling(profiles, name, other)) == spelling,
{
    let chosen = choose|other: Seq<char>| is_last_spelling(profiles, name, other);
    if chosen != spelling {
        lemma_precedes_transitive(chosen, spelling, chosen);
        lemma_precedes_irreflexive(chosen);
    }
}

/// A profile behind all others leaves the other names alone.
proof fn lemma_other_name_stays(
    profiles: Map<Seq<char>, ModelProfileView>,
    spelling: Seq<char>,
    profile: ModelProfileView,
    name: Seq<char>,
)
    requires
        has_last_spellings(profiles),
        name != trim(spelling),
    ensures
        is_spelled(profiles.insert(spelling, profile), name) == is_spelled(profiles, name),
        is_spelled(profiles, name) ==> {
            let after = profiles.insert(spelling, profile);
            &&& exists|last: Seq<char>| is_last_spelling(after, name, last)
            &&& after[choose|last: Seq<char>| is_last_spelling(after, name, last)]
                == profiles[choose|last: Seq<char>| is_last_spelling(profiles, name, last)]
        },
{
    let after = profiles.insert(spelling, profile);
    if is_spelled(after, name) {
        let other = choose|other: Seq<char>| #[trigger]
            after.contains_key(other) && trim(other) == name;
        assert(profiles.contains_key(other));
    }
    if is_spelled(profiles, name) {
        let other = choose|other: Seq<char>| #[trigger]
            profiles.contains_key(other) && trim(other) == name;
        assert(after.contains_key(other));
        let last = choose|last: Seq<char>| is_last_spelling(profiles, trim(other), last);
        assert(is_last_spelling(profiles, name, last));
        assert(is_last_spelling(after, name, last));
        lemma_last_spelling_is_unique(after, name, last);
        lemma_last_spelling_is_unique(profiles, name, last);
    }
}

/// A profile behind all others takes its name over.
proof fn lemma_kept_profiles_insert(
    profiles: Map<Seq<char>, ModelProfileView>,
    spelling: Seq<char>,
    profile: ModelProfileView,
)
    requires
        has_last_spellings(profiles),
        forall|name: Seq<char>| #[trigger]
            profiles.contains_key(name) ==> precedes(name, spelling),
    ensures
        has_last_spellings(profiles.insert(spelling, profile)),
        kept_profiles(profiles.insert(spelling, profile)) == (if trim(spelling).len() == 0 {
            kept_profiles(profiles)
        } else {
            kept_profiles(profiles).insert(trim(spelling), kept_profile(profile))
        }),
{
    let after = profiles.insert(spelling, profile);
    assert(is_last_spelling(after, trim(spelling), spelling));
    lemma_last_spelling_is_unique(after, trim(spelling), spelling);
    assert(has_last_spellings(after)) by {
        assert forall|other: Seq<char>| #[trigger] after.contains_key(other) implies exists|
            last: Seq<char>,
        | is_last_spelling(after, trim(other), last) by {
            if trim(other) != trim(spelling) {
                assert(profiles.contains_key(other));
                lemma_other_name_stays(profiles, spelling, profile, trim(other));
            }
        }
    }
    let expected = if trim(spelling).len() == 0 {
        kept_profiles(profiles)
    } else {
        kept_profiles(profiles).insert(trim(spelling), kept_profile(profile))
    };
    assert(after.contains_key(spelling));
    assert(is_spelled(after, trim(spelling)));
    assert forall|name: Seq<char>| #[trigger]
        kept_profiles(after).contains_key(name) == expected.contains_key(name) by {
        if name != trim(spelling) {
            lemma_other_name_stays(profiles, spelling, profile, name);
        }
    }
    assert forall|name: Seq<char>| kept_profiles(after).contains_key(name) implies #[trigger]
        kept_profiles(after)[name] == expected[name] by {
        if name != trim(spelling) {
            lemma_other_name_stays(profiles, spelling, profile, name);
        }
    }
    assert(kept_profiles(after) =~= expected);
}

/// The profiles as they are used.
fn keep_profiles(stored: &ProfileTable<PersistedModelProfile>) -> (profiles: ProfileTable<
    ModelProfile,
>)
    ensures
        profile_views(profiles@) == kept_profiles(profile_views(stored@)),
{
    let mut profiles: ProfileTable<ModelProfile> = ProfileTable::new();
    let count = stored.len();
    let ghost listed = stored.listed();
    let mut i: usize = 0;
    proof {
        assert(listed.take(0) =~= Seq::empty());
        assert(profile_views(by_name(listed.take(0))) =~= Map::empty());
        assert(profile_views(profiles@) =~= kept_profiles(
            profile_views(by_name(listed.take(0))),
        ));
    }
    while i < count
        invariant
            i <= count,
            count == listed.len(),
            listed == stored.listed(),
            in_name_order(listed),
            has_last_spellings(profile_views(by_name(listed.take(i as int)))),
            profile_views(profiles@) == kept_profiles(
                profile_views(by_name(listed.take(i as int))),
            ),
        decreases count - i,
    {
        let (name, profile) = stored.entry(i);
        let ghost seen = profile_views(by_name(listed.take(i as int)));
        let ghost known = profiles@;
        proof {
            lemma_by_name_next(listed, i as int);
            assert(profile_views(by_name(listed.take(i + 1))) =~= seen.insert(name@, profile@));
            assert forall|other: Seq<char>| #[trigger] seen.contains_key(other) implies precedes(
                other,
                name@,
            ) by {
                assert(lists(listed.take(i as int), other));
            }
            lemma_kept_profiles_insert(seen, name@, profile@);
        }
        let name = trimmed(name);
        if !name.as_str().is_empty() {
            let ghost text = name@;
            let used = ModelProfile {
                upstream_model: keep(&profile.upstream_model),
                upstream_chat_kwargs: profile.upstream_chat_kwargs.clone(),
            };
            profiles.insert(name, used);
            assert(profile_views(profiles@) =~= profile_views(known).insert(text, used@));
        }
        i += 1;
    }
    assert(listed.take(i as int) =~= listed);
    profiles
}

/// One more entry of a list in name order adds its profile under its name.
proof fn lemma_by_name_next<P>(listed: Seq<(Seq<char>, P)>, i: int)
    requires
        in_name_order(listed),
        0 <= i < listed.len(),
    ensures
        by_name(listed.take(i + 1)) == by_name(listed.take(i)).insert(listed[i].0, listed[i].1),
{
    let before = listed.take(i);
    let after = listed.take(i + 1);
    assert forall|name: Seq<char>| #[trigger] by_name(after).contains_key(name) == by_name(
        before,
    ).insert(listed[i].0, listed[i].1).contains_key(name) by {
        if lists(before, name) {
            let j = choose|j: int| 0 <= j < before.len() && (#[trigger] before[j]).0 == name;
            assert(after[j].0 == name);
        }
        if name == listed[i].0 {
            assert(after[i].0 == name);
        }
        if lists(after, name) {
            let j = choose|j: int| 0 <= j < after.len() && (#[trigger] after[j]).0 == name;
            if j < i {
                assert(before[j].0 == name);
            }
        }
    }
    assert forall|name: Seq<char>| by_name(after).contains_key(name) implies #[trigger] by_name(
        after,
    )[name] == by_name(before).insert(listed[i].0, listed[i].1)[name] by {
        let j = choose|j: int| 0 <= j < after.len() && (#[trigger] after[j]).0 == name;
        lemma_listed_once(after, j);
        if j < i {
            assert(before[j] == after[j]);
            lemma_listed_once(before, j);
            assert(precedes(listed[j].0, listed[i].0));
            lemma_precedes_irreflexive(name);
        }
    }
    assert(by_name(after) =~= by_name(before).insert(listed[i].0, listed[i].1));
}

impl Config {
    /// The settings as they are used, from stored settings and what was read of their addresses:
    /// each address, or the reason why it cannot be read.
    pub fn from_parsed(
        config: &PersistedConfig,
        bind_addr: Result<BindAddr, String>,
        upstream_base_url: Result<String, String>,
        brave_base_url: Result<String, String>,
    ) -> (result: Result<Config, String>)
        ensures
            result_view(result) == outcome(
                config@,
                result_view(bind_addr),
                result_view(upstream_base_url),
                result_view(brave_base_url),
            ),
    {
        let bind_addr = match bind_addr {
            Ok(addr) => addr,
            Err(reason) => {
                return Err("invalid bind_addr: ".to_string().concat(reason.as_str()));
            },
        };
        let upstream_base_url = match upstream_base_url {
            Ok(url) => url,
            Err(reason) => {
                return Err("invalid upstream_base_url: ".to_string().concat(reason.as_str()));
            },
        };
        let brave_base_url = match brave_base_url {
            Ok(url) => url,
            Err(reason) => {
                return Err("invalid brave_base_url: ".to_string().concat(reason.as_str()));
            },
        };
        Ok(
            Config {
                bind_addr,
                upstream_base_url,
                upstream_api_key: keep(&config.upstream_api_key),
                upstream_model: keep(&config.upstream_model),
                upstream_chat_kwargs: config.upstream_chat_kwargs.clone(),
                model_profiles: keep_profiles(&config.model_profiles),
                brave_base_url,
                brave_api_key: keep(&config.brave_api_key),
                brave_max_results: config.brave_max_results,
                request_timeout_secs: config.request_timeout_secs,
            },
        )
    }

    /// The settings as they are used, from stored settings. `bind_addr` is what was read of the
    /// stored `bind_addr`: the address, or the reason why it cannot be read.
    pub fn from_persisted(
        config: &PersistedConfig,
        bind_addr: Result<BindAddr, String>,
    ) -> (result: Result<Config, String>)
        ensures
            result_view(result) == outcome(
                config@,
                result_view(bind_addr),
                parsed_url(config.upstream_base_url@),
                parsed_url(config.brave_base_url@),
            ),
    {
        let upstream_base_url = parse_url(config.upstream_base_url.as_str());
        let brave_base_url = parse_url(config.brave_base_url.as_str());
        Config::from_parsed(config, bind_addr, upstream_base_url, brave_base_url)
    }

    /// The model that the upstream is asked for.
    pub fn resolve_upstream_model(&self, request_model: &str) -> (model: String)
        ensures
            model@ == upstream_model(self@, request_model@),
    {
        let matching = self.model_profiles.find(request_model);
        proof {
            lemma_matched_view(self.model_profiles@, request_model@);
        }
        if let Some(profile) = matching {
            if let Some(model) = &profile.upstream_model {
                return model.clone();
            }
        }
        match &self.upstream_model {
            Some(model) => model.clone(),
            None => request_model.to_string(),
        }
    }

    /// The profile of a request.
    fn profile_of_request(&self, request_model: &str) -> (profile: Option<&ModelProfile>)
        ensures
            match profile {
                Some(found) => request_profile(self@, request_model@) == Some(found@),
                None => request_profile(self@, request_model@) is None,
            },
    {
        let of_request = self.model_profiles.find(request_model);
        let resolved = self.resolve_upstream_model(request_model);
        let of_upstream = self.model_profiles.find(resolved.as_str());
        proof {
            lemma_matched_view(self.model_profiles@, request_model@);
            lemma_matched_view(self.model_profiles@, resolved@);
        }
        if of_request.is_some() {
            return of_request;
        }
        if of_upstream.is_some() {
            return of_upstream;
        }
        self.model_profiles.get("*")
    }

    /// The arguments that are sent along with a request.
    pub fn resolve_upstream_chat_kwargs(&self, request_model: &str) -> (kwargs: JsonMap<
        String,
        JsonValue,
    >)
        ensures
            entries(kwargs) == chat_kwargs(self@, request_model@),
    {
        let mut kwargs = self.upstream_chat_kwargs.clone();
        if let Some(profile) = self.profile_of_request(request_model) {
            merge_json_maps(&mut kwargs, &profile.upstream_chat_kwargs);
        }
        kwargs
    }
}

/// A name matches the same profile whether the profiles or what they say are asked.
proof fn lemma_matched_view<P: View>(profiles: Map<Seq<char>, P>, name: Seq<char>)
    requires
        has_match(profiles, name) ==> exists|candidate: Seq<char>|
            is_match(profiles, name, candidate),
    ensures
        matched(profile_views(profiles), name) == option_view(matched(profiles, name)),
{
    let shown = profile_views(profiles);
    assert(forall|other: Seq<char>| #[trigger]
        shown.contains_key(other) == profiles.contains_key(other));
    if has_match(profiles, name) {
        let candidate = choose|candidate: Seq<char>| is_match(profiles, name, candidate);
        lemma_match_is_unique(profiles, name, candidate);
        assert(is_match(shown, name, candidate));
        lemma_match_is_unique(shown, name, candidate);
    } else if has_match(shown, name) {
        let candidate = choose|candidate: Seq<char>| #[trigger]
            shown.contains_key(candidate) && equal_ignoring_case(candidate, name);
        assert(profiles.contains_key(candidate));
    }
}

/// Whether a variable of the environment is set and not blank.
fn is_set(variable: &Option<String>) -> (set: bool)
    ensures
        set == (set_variable(option_view(*variable)) is Some),
{
    match variable {
        Some(text) => !trimmed(text.as_str()).as_str().is_empty(),
        None => false,
    }
}

/// The variable where it is set, or else the stored setting.
fn override_text(variable: &Option<String>, stored: &mut String)
    ensures
        final(stored)@ == overridden(option_view(*variable), old(stored)@),
{
    if is_set(variable) {
        if let Some(text) = variable {
            *stored = text.clone();
        }
    }
}

/// The variable where it is set, or else the stored setting.
fn override_option(variable: &Option<String>, stored: &mut Option<String>)
    ensures
        option_view(*final(stored)) == overridden_option(
            option_view(*variable),
            option_view(*old(stored)),
        ),
{
    if is_set(variable) {
        *stored = variable.clone();
    }
}

/// The variable where it is a number of at most `max`, or else the stored setting.
fn override_number(variable: &Option<String>, stored: u64, max: u64) -> (number: u64)
    ensures
        number == overridden_number(option_view(*variable), stored as int, max as int),
{
    match variable {
        Some(text) => match parse_decimal(text.as_str(), max) {
            Some(number) => number,
            None => stored,
        },
        None => stored,
    }
}

/// Overrides stored settings with what the environment sets. `kwargs` are the arguments that
/// were read from the environment.
pub fn apply_parsed_overrides(
    config: &mut PersistedConfig,
    env: &EnvOverrides,
    kwargs: Option<JsonMap<String, JsonValue>>,
)
    ensures
        final(config)@ == overridden_settings(
            old(config)@,
            env@,
            match kwargs {
                Some(map) => Some(entries(map)),
                None => None,
            },
        ),
{
    override_text(&env.bind_addr, &mut config.bind_addr);
    override_text(&env.upstream_base_url, &mut config.upstream_base_url);
    if is_set(&env.upstream_api_key) {
        override_option(&env.upstream_api_key, &mut config.upstream_api_key);
    } else if config.upstream_api_key.is_none() {
        override_option(&env.openai_api_key, &mut config.upstream_api_key);
    }
    override_option(&env.upstream_model, &mut config.upstream_model);
    if let Some(kwargs) = kwargs {
        config.upstream_chat_kwargs = kwargs;
    }
    override_text(&env.brave_base_url, &mut config.brave_base_url);
    override_option(&env.brave_api_key, &mut config.brave_api_key);
    config.brave_max_results = override_number(
        &env.brave_max_results,
        config.brave_max_results as u64,
        usize::MAX as u64,
    ) as usize;
    config.request_timeout_secs = override_number(
        &env.request_timeout_secs,
        config.request_timeout_secs,
        u64::MAX,
    );
}

/// Overrides stored settings with what the environment sets.
pub fn apply_env_overrides(config: &mut PersistedConfig, env: &EnvOverrides)
    ensures
        final(config)@ == overridden_settings(
            old(config)@,
            env@,
            env_kwargs(env@.upstream_chat_kwargs_json),
        ),
{
    let mut kwargs: Option<JsonMap<String, JsonValue>> = None;
    if is_set(&env.upstream_chat_kwargs_json) {
        if let Some(text) = &env.upstream_chat_kwargs_json {
            kwargs = parse_object(text.as_str());
        }
    }
    apply_parsed_overrides(config, env, kwargs);
}

/// The settings of a file with what the environment overrides in them, or why the file has none.
pub open spec fn effective_settings(
    path: Seq<char>,
    found: StoredFile,
    env: EnvOverridesView,
) -> Result<PersistedConfigView, Seq<char>> {
    match stored_settings(path, found) {
        Ok(stored) => Ok(
            overridden_settings(stored, env, env_kwargs(env.upstream_chat_kwargs_json)),
        ),
        Err(reason) => Err(reason),
    }
}

/// The settings of a file with what the environment overrides in them, from what was found at
/// `path`.
pub fn settings_from(path: &str, found: StoredFile, env: &EnvOverrides) -> (result: Result<
    PersistedConfig,
    String,
>)
    ensures
        result_view(result) == effective_settings(path@, found, env@),
{
    match load_persisted_config(path, found) {
        Ok(stored) => {
            let mut config = stored;
            apply_env_overrides(&mut config, env);
            Ok(config)
        },
        Err(reason) => Err(reason),
    }
}

/// A file that cannot be read, or does not hold settings, is an error whatever the environment
/// says.
pub proof fn law_file_error_comes_first(
    path: Seq<char>,
    found: StoredFile,
    env: EnvOverridesView,
)
    requires
        found is Unreadable || found is Malformed,
    ensures
        effective_settings(path, found, env) is Err,
        effective_settings(path, found, env) == stored_settings(path, found),
{
}

/// A variable of the environment that is set, or that is a number within its bound, goes before what
/// the file says, and before the default where there is no file.
pub proof fn law_environment_goes_before_the_file(
    path: Seq<char>,
    found: StoredFile,
    env: EnvOverridesView,
)
    requires
        found is Missing || found is Settings,
    ensures
        effective_settings(path, found, env) matches Ok(settings) && {
            &&& set_variable(env.bind_addr) matches Some(text) ==> settings.bind_addr == text
            &&& set_variable(env.upstream_base_url) matches Some(text)
                ==> settings.upstream_base_url == text
            &&& set_variable(env.upstream_api_key) matches Some(text)
                ==> settings.upstream_api_key == Some(text)
            &&& set_variable(env.upstream_model) matches Some(text)
                ==> settings.upstream_model == Some(text)
            &&& env_kwargs(env.upstream_chat_kwargs_json) matches Some(kwargs)
                ==> settings.upstream_chat_kwargs == kwargs
            &&& set_variable(env.brave_base_url) matches Some(text)
                ==> settings.brave_base_url == text
            &&& set_variable(env.brave_api_key) matches Some(text)
                ==> settings.brave_api_key == Some(text)
            &&& env.brave_max_results matches Some(text) ==> decimal(text) matches Some(number)
                ==> number <= usize::MAX ==> settings.brave_max_results == number
            &&& env.request_timeout_secs matches Some(text) ==> decimal(text) matches Some(number)
                ==> number <= u64::MAX ==> settings.request_timeout_secs == number
        },
{
}

/// A profile named `*` makes no difference to which profile another name matches.
proof fn lemma_fallback_matches_no_other_name(
    profiles: Map<Seq<char>, ModelProfileView>,
    fallback: ModelProfileView,
    name: Seq<char>,
)
    requires
        profiles.dom().finite(),
        name != "*"@,
    ensures
        matched(profiles.insert("*"@, fallback), name) == matched(profiles, name),
{
    let after = profiles.insert("*"@, fallback);
    assert(!equal_ignoring_case("*"@, name)) by {
        reveal_strlit("*");
        if equal_ignoring_case("*"@, name) {
            assert(ascii_lower("*"@[0]) == ascii_lower(name[0]));
            assert(name =~= "*"@);
        }
    }
    if has_match(profiles, name) {
        lemma_match_exists(profiles, name);
        let candidate = choose|candidate: Seq<char>| is_match(profiles, name, candidate);
        lemma_match_is_unique(profiles, name, candidate);
        assert(is_match(after, name, candidate));
        lemma_match_is_unique(after, name, candidate);
    } else if has_match(after, name) {
        let candidate = choose|candidate: Seq<char>| #[trigger]
            after.contains_key(candidate) && equal_ignoring_case(candidate, name);
        assert(profiles.contains_key(candidate));
    }
}

/// Where the requested model or the upstream model matches a profile of its own, the profile
/// named `*` is not consulted: whatever it says, the same arguments are sent along.
pub proof fn law_fallback_is_not_consulted(
    config: ConfigView,
    request_model: Seq<char>,
    fallback: ModelProfileView,
)
    requires
        config.model_profiles.dom().finite(),
        request_model != "*"@,
        upstream_model(config, request_model) != "*"@,
        has_match(config.model_profiles, request_model) || has_match(
            config.model_profiles,
            upstream_model(config, request_model),
        ),
    ensures
        chat_kwargs(
            ConfigView {
                model_profiles: config.model_profiles.insert("*"@, fallback),
                ..config
            },
            request_model,
        ) == chat_kwargs(config, request_model),
{
    lemma_fallback_matches_no_other_name(config.model_profiles, fallback, request_model);
    lemma_fallback_matches_no_other_name(
        config.model_profiles,
        fallback,
        upstream_model(config, request_model),
    );
}

/// Where neither the requested model nor the upstream model matches a profile, the profile named
/// `*` stands in.
pub proof fn law_fallback_stands_in(config: ConfigView, request_model: Seq<char>)
    requires
        !has_match(config.model_profiles, request_model),
        !has_match(config.model_profiles, upstream_model(config, request_model)),
        config.model_profiles.contains_key("*"@),
    ensures
        chat_kwargs(config, request_model) == merged(
            config.upstream_chat_kwargs,
            config.model_profiles["*"@].upstream_chat_kwargs,
        ),
{
}

/// A model without a profile, where there is none named `*` either, gets what the settings say.
pub proof fn law_settings_alone(config: ConfigView, request_model: Seq<char>)
    requires
        !has_match(config.model_profiles, request_model),
        !has_match(config.model_profiles, upstream_model(config, request_model)),
        !config.model_profiles.contains_key("*"@),
    ensures
        chat_kwargs(config, request_model) == config.upstream_chat_kwargs,
        upstream_model(config, request_model) == (match config.upstream_model {
            Some(model) => model,
            None => request_model,
        }),
{
}

/// What a profile says of an argument goes before what the settings say of it, unless both are
/// objects; what it is silent about stays as the settings have it.
pub proof fn law_profile_goes_first(config: ConfigView, request_model: Seq<char>, key: Seq<char>)
    requires
        request_profile(config, request_model) is Some,
    ensures
        ({
            let of_profile = request_profile(config, request_model)->0.upstream_chat_kwargs;
            let of_settings = config.upstream_chat_kwargs;
            let sent = chat_kwargs(config, request_model);
            &&& of_profile.contains_key(key) && !(of_profile[key] is Object
                && of_settings.contains_key(key) && of_settings[key] is Object)
                ==> sent.contains_pair(key, of_profile[key])
            &&& !of_profile.contains_key(key) && of_settings.contains_key(key)
                ==> sent.contains_pair(key, of_settings[key])
            &&& !of_profile.contains_key(key) && !of_settings.contains_key(key)
                ==> !sent.contains_key(key)
        }),
{
    law_merge_by_key(
        config.upstream_chat_kwargs,
        request_profile(config, request_model)->0.upstream_chat_kwargs,
        key,
    );
}

/// In the settings as they are used, keys and models are neither blank nor surrounded by white
/// space, and neither are the names and the models of the profiles.
pub proof fn law_usable_settings_are_trimmed(
    stored: PersistedConfigView,
    bind_addr: BindAddr,
    upstream_base_url: Seq<char>,
    brave_base_url: Seq<char>,
)
    ensures
        ({
            let used = usable_settings(stored, bind_addr, upstream_base_url, brave_base_url);
            &&& is_trimmed(used.upstream_api_key)
            &&& is_trimmed(used.upstream_model)
            &&& is_trimmed(used.brave_api_key)
            &&& forall|name: Seq<char>| #[trigger]
                used.model_profiles.contains_key(name) ==> is_trimmed(Some(name)) && is_trimmed(
                    used.model_profiles[name].upstream_model,
                )
        }),
{
    let used = usable_settings(stored, bind_addr, upstream_base_url, brave_base_url);
    lemma_kept_is_trimmed(stored.upstream_api_key);
    lemma_kept_is_trimmed(stored.upstream_model);
    lemma_kept_is_trimmed(stored.brave_api_key);
    assert forall|name: Seq<char>| #[trigger] used.model_profiles.contains_key(name) implies
        is_trimmed(Some(name)) && is_trimmed(used.model_profiles[name].upstream_model) by {
        let spelling = choose|spelling: Seq<char>| #[trigger]
            stored.model_profiles.contains_key(spelling) && trim(spelling) == name;
        law_trim(spelling);
        let last = choose|last: Seq<char>| is_last_spelling(stored.model_profiles, name, last);
        lemma_kept_is_trimmed(stored.model_profiles[last].upstream_model);
    }
}

/// Of the stored profiles whose names become the same, the last one stays.
pub proof fn law_last_spelling_stays(
    profiles: Map<Seq<char>, ModelProfileView>,
    spelling: Seq<char>,
)
    requires
        profiles.dom().finite(),
        profiles.contains_key(spelling),
        trim(spelling).len() > 0,
    ensures
        exists|last: Seq<char>| #[trigger]
            is_last_spelling(profiles, trim(spelling), last) && kept_profiles(
                profiles,
            ).contains_pair(trim(spelling), kept_profile(profiles[last])),
{
    let name = trim(spelling);
    let spellings = profiles.dom().filter(|other: Seq<char>| trim(other) == name);
    profiles.dom().lemma_len_filter(|other: Seq<char>| trim(other) == name);
    assert(spellings.contains(spelling));
    lemma_last_exists(spellings);
    let last = choose|last: Seq<char>| #[trigger]
        spellings.contains(last) && forall|other: Seq<char>| #[trigger]
            spellings.contains(other) ==> other == last || precedes(other, last);
    assert forall|other: Seq<char>| #[trigger]
        profiles.contains_key(other) && trim(other) == name implies other == last || precedes(
        other,
        last,
    ) by {
        assert(spellings.contains(other));
    }
    assert(is_last_spelling(profiles, name, last));
    lemma_last_spelling_is_unique(profiles, name, last);
    assert(is_spelled(profiles, name));
}

/// Whether a setting, where it is there, is neither blank nor surrounded by white space.
pub open spec fn is_trimmed(setting: Option<Seq<char>>) -> bool {
    setting matches Some(text) ==> text.len() > 0 && trim(text) == text
}

/// A kept setting is trimmed.
proof fn lemma_kept_is_trimmed(setting: Option<Seq<char>>)
    ensures
        is_trimmed(kept(setting)),
{
    if let Some(text) = setting {
        law_trim(text);
    }
}

/// Variables that are unset or blank, and numbers that cannot be read, change nothing.
pub proof fn law_blank_environment_changes_nothing(
    stored: PersistedConfigView,
    env: EnvOverridesView,
)
    requires
        set_variable(env.bind_addr) is None,
        set_variable(env.upstream_base_url) is None,
        set_variable(env.upstream_api_key) is None,
        set_variable(env.openai_api_key) is None,
        set_variable(env.upstream_model) is None,
        set_variable(env.upstream_chat_kwargs_json) is None,
        set_variable(env.brave_base_url) is None,
        set_variable(env.brave_api_key) is None,
        env.brave_max_results matches Some(text) ==> decimal(text) is None,
        env.request_timeout_secs matches Some(text) ==> decimal(text) is None,
    ensures
        overridden_settings(stored, env, env_kwargs(env.upstream_chat_kwargs_json)) == stored,
{
}

/// `OPENAI_API_KEY` is a fallback: it is used where no key is stored and no other variable gives
/// one, and makes no difference elsewhere.
pub proof fn law_openai_key_is_a_fallback(
    stored: PersistedConfigView,
    env: EnvOverridesView,
    kwargs: Option<Map<Seq<char>, Json>>,
    other_key: Option<Seq<char>>,
)
    ensures
        stored.upstream_api_key is None && set_variable(env.upstream_api_key) is None
            ==> overridden_settings(stored, env, kwargs).upstream_api_key == set_variable(
            env.openai_api_key,
        ),
        stored.upstream_api_key is Some || set_variable(env.upstream_api_key) is Some
            ==> overridden_settings(stored, env, kwargs) == overridden_settings(
            stored,
            EnvOverridesView { openai_api_key: other_key, ..env },
            kwargs,
        ),
{
}

/// Overriding settings a second time with the same environment changes nothing.
pub proof fn law_overriding_twice(
    stored: PersistedConfigView,
    env: EnvOverridesView,
    kwargs: Option<Map<Seq<char>, Json>>,
)
    ensures
        overridden_settings(overridden_settings(stored, env, kwargs), env, kwargs)
            == overridden_settings(stored, env, kwargs),
{
}

/// The view of stored settings says of each setting what is stored.
pub proof fn law_stored_settings_say_what_they_hold(
    config: PersistedConfig,
    profile: PersistedModelProfile,
    name: Seq<char>,
)
    ensures
        config@.bind_addr == config.bind_addr@,
        config@.upstream_base_url == config.upstream_base_url@,
        config@.upstream_api_key == option_view(config.upstream_api_key),
        config@.upstream_model == option_view(config.upstream_model),
        config@.upstream_chat_kwargs == entries(config.upstream_chat_kwargs),
        config@.model_profiles.contains_key(name) <==> config.model_profiles@.contains_key(name),
        config.model_profiles@.contains_key(name) ==> config@.model_profiles[name]
            == config.model_profiles@[name]@,
        config@.brave_base_url == config.brave_base_url@,
        config@.brave_api_key == option_view(config.brave_api_key),
        config@.brave_max_results == config.brave_max_results,
        config@.request_timeout_secs == config.request_timeout_secs,
        profile@.upstream_model == option_view(profile.upstream_model),
        profile@.upstream_chat_kwargs == entries(profile.upstream_chat_kwargs),
{
}

/// The view of used settings says of each setting what is used.
pub proof fn law_used_settings_say_what_they_hold(
    config: Config,
    profile: ModelProfile,
    name: Seq<char>,
)
    ensures
        config@.bind_addr == config.bind_addr,
        config@.upstream_base_url == config.upstream_base_url@,
        config@.upstream_api_key == option_view(config.upstream_api_key),
        config@.upstream_model == option_view(config.upstream_model),
        config@.upstream_chat_kwargs == entries(config.upstream_chat_kwargs),
        config@.model_profiles.contains_key(name) <==> config.model_profiles@.contains_key(name),
        config.model_profiles@.contains_key(name) ==> config@.model_profiles[name]
            == config.model_profiles@[name]@,
        config@.brave_base_url == config.brave_base_url@,
        config@.brave_api_key == option_view(config.brave_api_key),
        config@.brave_max_results == config.brave_max_results,
        config@.request_timeout_secs == config.request_timeout_secs,
        profile@.upstream_model == option_view(profile.upstream_model),
        profile@.upstream_chat_kwargs == entries(profile.upstream_chat_kwargs),
        config.bind_addr@ == config.bind_addr,
{
}

/// The view of the environment says of each variable what it is set to.
pub proof fn law_environment_says_what_is_set(env: EnvOverrides)
    ensures
        env@.bind_addr == option_view(env.bind_addr),
        env@.upstream_base_url == option_view(env.upstream_base_url),
        env@.upstream_api_key == option_view(env.upstream_api_key),
        env@.openai_api_key == option_view(env.openai_api_key),
        env@.upstream_model == option_view(env.upstream_model),
        env@.upstream_chat_kwargs_json == option_view(env.upstream_chat_kwargs_json),
        env@.brave_base_url == option_view(env.brave_base_url),
        env@.brave_api_key == option_view(env.brave_api_key),
        env@.brave_max_results == option_view(env.brave_max_results),
        env@.request_timeout_secs == option_view(env.request_timeout_secs),
{
}

/// Settings are usable if and only if all of their addresses can be read. Of those that cannot, the
/// refusal names the first: the one to listen on, the upstream, the search.
pub proof fn law_first_bad_address_is_named(
    stored: PersistedConfigView,
    bind_addr: Result<BindAddr, Seq<char>>,
    upstream_base_url: Result<Seq<char>, Seq<char>>,
    brave_base_url: Result<Seq<char>, Seq<char>>,
)
    ensures
        ({
            let result = outcome(stored, bind_addr, upstream_base_url, brave_base_url);
            &&& result is Ok <==> bind_addr is Ok && upstream_base_url is Ok && brave_base_url is Ok
            &&& bind_addr matches Err(reason) ==> result == Err::<ConfigView, Seq<char>>(
                "invalid bind_addr: "@ + reason,
            )
            &&& upstream_base_url matches Err(reason) ==> bind_addr is Ok ==> result == Err::<
                ConfigView,
                Seq<char>,
            >("invalid upstream_base_url: "@ + reason)
            &&& brave_base_url matches Err(reason) ==> bind_addr is Ok ==> upstream_base_url is Ok
                ==> result == Err::<ConfigView, Seq<char>>("invalid brave_base_url: "@ + reason)
        }),
{
}

/// Nothing that is stored gets lost: a key or a model that is not blank is used, without the white
/// space around it, and is missing only where it is absent or blank; addresses, arguments, bounds
/// and profiles are those that were read or stored.
pub proof fn law_stored_settings_are_used(
    stored: PersistedConfigView,
    bind_addr: BindAddr,
    upstream_base_url: Seq<char>,
    brave_base_url: Seq<char>,
)
    ensures
        outcome(
            stored,
            Ok(bind_addr),
            Ok(upstream_base_url),
            Ok(brave_base_url),
        ) matches Ok(used) && {
            &&& used.bind_addr == bind_addr
            &&& used.upstream_base_url == upstream_base_url
            &&& used.brave_base_url == brave_base_url
            &&& used.upstream_chat_kwargs == stored.upstream_chat_kwargs
            &&& used.brave_max_results == stored.brave_max_results
            &&& used.request_timeout_secs == stored.request_timeout_secs
            &&& used.model_profiles == kept_profiles(stored.model_profiles)
            &&& stored.upstream_api_key matches Some(text) ==> trim(text).len() > 0
                ==> used.upstream_api_key == Some(trim(text))
            &&& used.upstream_api_key is None ==> (stored.upstream_api_key matches Some(text)
                ==> trim(text).len() == 0)
            &&& used.upstream_api_key is Some ==> stored.upstream_api_key is Some
            &&& stored.upstream_model matches Some(text) ==> trim(text).len() > 0
                ==> used.upstream_model == Some(trim(text))
            &&& used.upstream_model is None ==> (stored.upstream_model matches Some(text)
                ==> trim(text).len() == 0)
            &&& used.upstream_model is Some ==> stored.upstream_model is Some
            &&& stored.brave_api_key matches Some(text) ==> trim(text).len() > 0
                ==> used.brave_api_key == Some(trim(text))
            &&& used.brave_api_key is None ==> (stored.brave_api_key matches Some(text) ==> trim(
                text,
            ).len() == 0)
            &&& used.brave_api_key is Some ==> stored.brave_api_key is Some
        },
        stored.upstream_api_key matches Some(text) ==> trim(text).len() == 0 ==> usable_settings(
            stored,
            bind_addr,
            upstream_base_url,
            brave_base_url,
        ).upstream_api_key is None,
        stored.upstream_model matches Some(text) ==> trim(text).len() == 0 ==> usable_settings(
            stored,
            bind_addr,
            upstream_base_url,
            brave_base_url,
        ).upstream_model is None,
        stored.brave_api_key matches Some(text) ==> trim(text).len() == 0 ==> usable_settings(
            stored,
            bind_addr,
            upstream_base_url,
            brave_base_url,
        ).brave_api_key is None,
{
}

/// A used profile stands under each stored name that is not blank, without the white space around
/// the name, and under no other name. It is what the last of the stored profiles of that name says:
/// the same arguments, and the same model without the white space around it.
pub proof fn law_stored_profiles_are_used(
    profiles: Map<Seq<char>, ModelProfileView>,
    name: Seq<char>,
)
    requires
        profiles.dom().finite(),
    ensures
        kept_profiles(profiles).contains_key(name) <==> name.len() > 0 && exists|
            spelling: Seq<char>,
        | #[trigger]
            profiles.contains_key(spelling) && trim(spelling) == name,
        kept_profiles(profiles).contains_key(name) ==> exists|last: Seq<char>| #[trigger]
            profiles.contains_key(last) && trim(last) == name && (forall|other: Seq<char>|
             #[trigger]
                profiles.contains_key(other) && trim(other) == name ==> other == last || precedes(
                    other,
                    last,
                )) && {
                let used = kept_profiles(profiles)[name];
                let stored = profiles[last];
                &&& used.upstream_chat_kwargs == stored.upstream_chat_kwargs
                &&& stored.upstream_model is None ==> used.upstream_model is None
                &&& stored.upstream_model matches Some(text) ==> used.upstream_model == (if trim(
                    text,
                ).len() > 0 {
                    Some(trim(text))
                } else {
                    None
                })
            },
{
    if kept_profiles(profiles).contains_key(name) {
        let spelling = choose|spelling: Seq<char>| #[trigger]
            profiles.contains_key(spelling) && trim(spelling) == name;
        law_last_spelling_stays(profiles, spelling);
        let last = choose|last: Seq<char>| #[trigger]
            is_last_spelling(profiles, trim(spelling), last) && kept_profiles(
                profiles,
            ).contains_pair(trim(spelling), kept_profile(profiles[last]));
        assert(profiles.contains_key(last));
    }
}

/// The upstream is asked for the model of the profile that the requested model matches, else for
/// the configured model, else for the requested one.
pub proof fn law_upstream_model(config: ConfigView, request_model: Seq<char>)
    ensures
        matched(config.model_profiles, request_model) matches Some(profile)
            ==> profile.upstream_model matches Some(model) ==> upstream_model(config, request_model)
            == model,
        (matched(config.model_profiles, request_model) matches Some(profile)
            ==> profile.upstream_model is None) ==> {
            &&& config.upstream_model matches Some(model) ==> upstream_model(config, request_model)
                == model
            &&& config.upstream_model is None ==> upstream_model(config, request_model)
                == request_model
        },
{
}

/// Where the requested model matches a profile, the arguments of that profile are merged into those
/// of the settings, whatever upstream model it names. Where only the upstream model matches one,
/// the arguments of that one are.
pub proof fn law_matched_profile_is_merged(config: ConfigView, request_model: Seq<char>)
    ensures
        has_match(config.model_profiles, request_model) ==> chat_kwargs(config, request_model)
            == merged(
            config.upstream_chat_kwargs,
            matched(config.model_profiles, request_model)->0.upstream_chat_kwargs,
        ),
        !has_match(config.model_profiles, request_model) && has_match(
            config.model_profiles,
            upstream_model(config, request_model),
        ) ==> chat_kwargs(config, request_model) == merged(
            config.upstream_chat_kwargs,
            matched(
                config.model_profiles,
                upstream_model(config, request_model),
            )->0.upstream_chat_kwargs,
        ),
{
}

/// Each setting is decided by its own variable alone: it is the text of that variable where the
/// variable is set and not blank, the number where it is one within its bound, and the stored
/// setting everywhere else, whatever the other variables say. No variable touches the profiles.
pub proof fn law_each_setting_has_its_own_variable(
    stored: PersistedConfigView,
    env: EnvOverridesView,
    kwargs: Option<Map<Seq<char>, Json>>,
)
    ensures
        ({
            let after = overridden_settings(stored, env, kwargs);
            &&& after.model_profiles == stored.model_profiles
            &&& env.bind_addr matches Some(text) ==> trim(text).len() > 0 ==> after.bind_addr
                == text
            &&& (env.bind_addr matches Some(text) ==> trim(text).len() == 0) ==> after.bind_addr
                == stored.bind_addr
            &&& env.upstream_base_url matches Some(text) ==> trim(text).len() > 0
                ==> after.upstream_base_url == text
            &&& (env.upstream_base_url matches Some(text) ==> trim(text).len() == 0)
                ==> after.upstream_base_url == stored.upstream_base_url
            &&& env.upstream_api_key matches Some(text) ==> trim(text).len() > 0
                ==> after.upstream_api_key == Some(text)
            &&& (env.upstream_api_key matches Some(text) ==> trim(text).len() == 0) ==> {
                &&& stored.upstream_api_key is Some ==> after.upstream_api_key
                    == stored.upstream_api_key
                &&& stored.upstream_api_key is None ==> {
                    &&& env.openai_api_key matches Some(text) ==> trim(text).len() > 0
                        ==> after.upstream_api_key == Some(text)
                    &&& (env.openai_api_key matches Some(text) ==> trim(text).len() == 0)
                        ==> after.upstream_api_key is None
                }
            }
            &&& env.upstream_model matches Some(text) ==> trim(text).len() > 0
                ==> after.upstream_model == Some(text)
            &&& (env.upstream_model matches Some(text) ==> trim(text).len() == 0)
                ==> after.upstream_model == stored.upstream_model
            &&& kwargs matches Some(given) ==> after.upstream_chat_kwargs == given
            &&& kwargs is None ==> after.upstream_chat_kwargs == stored.upstream_chat_kwargs
            &&& env.brave_base_url matches Some(text) ==> trim(text).len() > 0
                ==> after.brave_base_url == text
            &&& (env.brave_base_url matches Some(text) ==> trim(text).len() == 0)
                ==> after.brave_base_url == stored.brave_base_url
            &&& env.brave_api_key matches Some(text) ==> trim(text).len() > 0
                ==> after.brave_api_key == Some(text)
            &&& (env.brave_api_key matches Some(text) ==> trim(text).len() == 0)
                ==> after.brave_api_key == stored.brave_api_key
            &&& env.brave_max_results matches Some(text) ==> decimal(text) matches Some(number)
                ==> number <= usize::MAX ==> after.brave_max_results == number
            &&& (env.brave_max_results matches Some(text) ==> decimal(text) matches Some(number)
                ==> number > usize::MAX) ==> after.brave_max_results == stored.brave_max_results
            &&& env.request_timeout_secs matches Some(text) ==> decimal(text) matches Some(number)
                ==> number <= u64::MAX ==> after.request_timeout_secs == number
            &&& (env.request_timeout_secs matches Some(text) ==> decimal(text) matches Some(number)
                ==> number > u64::MAX) ==> after.request_timeout_secs
                == stored.request_timeout_secs
        }),
{
}

/// The environment gives arguments if and only if its variable for them is not blank and is read as
/// a JSON object, and then gives the entries of that object.
pub proof fn law_environment_arguments(variable: Option<Seq<char>>)
    ensures
        variable is None ==> env_kwargs(variable) is None,
        variable matches Some(text) ==> trim(text).len() == 0 ==> env_kwargs(variable) is None,
        variable matches Some(text) ==> trim(text).len() > 0 ==> env_kwargs(variable)
            == parsed_map(text),
{
}

/// A file gives the settings that it holds, no file gives the defaults, and a file that cannot be
/// read or does not hold settings gives an error with its path and the reason.
pub proof fn law_stored_file(path: Seq<char>, config: PersistedConfig, reason: String)
    ensures
        stored_settings(path, StoredFile::Missing) == Ok::<PersistedConfigView, Seq<char>>(
            default_settings(),
        ),
        stored_settings(path, StoredFile::Settings { config }) == Ok::<
            PersistedConfigView,
            Seq<char>,
        >(config@),
        stored_settings(path, StoredFile::Unreadable { reason }) == Err::<
            PersistedConfigView,
            Seq<char>,
        >("failed to read "@ + path + ": "@ + reason@),
        stored_settings(path, StoredFile::Malformed { reason }) == Err::<
            PersistedConfigView,
            Seq<char>,
        >("failed to parse "@ + path + ": "@ + reason@),
{
}

/// Where the environment sets nothing, the settings are those of the file, and whatever it sets, the
/// profiles are those of the file.
pub proof fn law_file_stands_where_the_environment_is_silent(
    path: Seq<char>,
    found: StoredFile,
    env: EnvOverridesView,
)
    ensures
        stored_settings(path, found) matches Ok(stored) ==> effective_settings(
            path,
            found,
            env,
        ) matches Ok(settings) && {
            &&& settings.model_profiles == stored.model_profiles
            &&& (env.bind_addr matches Some(text) ==> trim(text).len() == 0) ==> settings.bind_addr
                == stored.bind_addr
            &&& (env.upstream_base_url matches Some(text) ==> trim(text).len() == 0)
                ==> settings.upstream_base_url == stored.upstream_base_url
            &&& (env.upstream_api_key matches Some(text) ==> trim(text).len() == 0)
                && stored.upstream_api_key is Some ==> settings.upstream_api_key
                == stored.upstream_api_key
            &&& (env.upstream_model matches Some(text) ==> trim(text).len() == 0)
                ==> settings.upstream_model == stored.upstream_model
            &&& (env.upstream_chat_kwargs_json matches Some(text) ==> trim(text).len() == 0
                || parsed_map(text) is None) ==> settings.upstream_chat_kwargs
                == stored.upstream_chat_kwargs
            &&& (env.brave_base_url matches Some(text) ==> trim(text).len() == 0)
                ==> settings.brave_base_url == stored.brave_base_url
            &&& (env.brave_api_key matches Some(text) ==> trim(text).len() == 0)
                ==> settings.brave_api_key == stored.brave_api_key
            &&& (env.brave_max_results matches Some(text) ==> decimal(text) is None)
                ==> settings.brave_max_results == stored.brave_max_results
            &&& (env.request_timeout_secs matches Some(text) ==> decimal(text) is None)
                ==> settings.request_timeout_secs == stored.request_timeout_secs
        },
        stored_settings(path, found) is Ok && stored_settings(path, found)->Ok_0.upstream_api_key
            is None && (env.upstream_api_key matches Some(text) ==> trim(text).len() == 0)
            ==> effective_settings(path, found, env)->Ok_0.upstream_api_key == (
        match env.openai_api_key {
            Some(text) => if trim(text).len() > 0 {
                Some(text)
            } else {
                None
            },
            None => None,
        }),
{
}

} // verus!
