//! Provider profiles: the environment settings they carry, how setup builds
//! them, the environment block merged into the assistant's settings, and
//! where profile files live.
use crate::text::{chars_of, string_of, trim, trim_chars};
use vstd::prelude::*;

verus! {

/// The environment overrides of one provider profile; each one optional.
#[derive(Clone, Debug, PartialEq, Eq)]
pub struct EnvSettings {
    pub anthropic_base_url: Option<String>,
    pub anthropic_auth_token: Option<String>,
    pub api_timeout_ms: Option<String>,
    pub claude_code_disable_nonessential_traffic: Option<i32>,
    pub anthropic_model: Option<String>,
    pub anthropic_small_fast_model: Option<String>,
    pub anthropic_default_sonnet_model: Option<String>,
    pub anthropic_default_opus_model: Option<String>,
    pub anthropic_default_haiku_model: Option<String>,
}

/// A value in the environment block.
#[derive(Clone, Debug, PartialEq, Eq)]
pub enum EnvValue {
    Text(String),
    Number(i32),
}

/// The mathematical value of an `EnvValue`.
pub enum EnvVal {
    Text(Seq<char>),
    Number(int),
}

pub open spec fn env_val(v: EnvValue) -> EnvVal {
    match v {
        EnvValue::Text(s) => EnvVal::Text(s@),
        EnvValue::Number(n) => EnvVal::Number(n as int),
    }
}

pub open spec fn entries_view(v: Seq<(String, EnvValue)>) -> Seq<(Seq<char>, EnvVal)> {
    v.map_values(|e: (String, EnvValue)| (e.0@, env_val(e.1)))
}

/// Why setup refuses its input.
#[derive(Clone, Copy, Debug, PartialEq, Eq, Structural)]
pub enum SetupError {
    EmptyName,
    EmptyBaseUrl,
    EmptyApiKey,
}

/// The default request timeout, in milliseconds, that setup writes.
pub open spec fn default_timeout() -> Seq<char> {
    "3000000"@
}

/// A text entry, present only for a non-empty value.
pub open spec fn text_entry(key: Seq<char>, v: Option<String>) -> Seq<(Seq<char>, EnvVal)> {
    match v {
        Some(s) => if s@.len() > 0 {
            seq![(key, EnvVal::Text(s@))]
        } else {
            Seq::empty()
        },
        None => Seq::empty(),
    }
}

/// The environment block of `e`: one entry per present, non-empty field, in
/// the order of the fields.
pub open spec fn env_block_of(e: EnvSettings) -> Seq<(Seq<char>, EnvVal)> {
    text_entry("ANTHROPIC_BASE_URL"@, e.anthropic_base_url) + text_entry(
        "ANTHROPIC_AUTH_TOKEN"@,
        e.anthropic_auth_token,
    ) + text_entry("API_TIMEOUT_MS"@, e.api_timeout_ms) + match e.claude_code_disable_nonessential_traffic {
        Some(n) => seq![("CLAUDE_CODE_DISABLE_NONESSENTIAL_TRAFFIC"@, EnvVal::Number(n as int))],
        None => Seq::empty(),
    } + text_entry("ANTHROPIC_MODEL"@, e.anthropic_model) + text_entry(
        "ANTHROPIC_SMALL_FAST_MODEL"@,
        e.anthropic_small_fast_model,
    ) + text_entry("ANTHROPIC_DEFAULT_SONNET_MODEL"@, e.anthropic_default_sonnet_model)
        + text_entry("ANTHROPIC_DEFAULT_OPUS_MODEL"@, e.anthropic_default_opus_model) + text_entry(
        "ANTHROPIC_DEFAULT_HAIKU_MODEL"@,
        e.anthropic_default_haiku_model,
    )
}

/// `Some(s)` for a non-empty `s`, else `None`.
pub open spec fn non_empty(s: Seq<char>) -> Option<Seq<char>> {
    if s.len() > 0 {
        Some(s)
    } else {
        None
    }
}

pub open spec fn opt_view(o: Option<String>) -> Option<Seq<char>> {
    match o {
        Some(s) => Some(s@),
        None => None,
    }
}

/// What setup makes of its answers: an empty default model fills none of
/// the four fields it fans out to, an empty haiku model leaves haiku unset.
pub open spec fn setup_fields(
    e: EnvSettings,
    base_url: Seq<char>,
    api_key: Seq<char>,
    default_model: Seq<char>,
    haiku_model: Seq<char>,
) -> bool {
    &&& opt_view(e.anthropic_base_url) == Some(base_url)
    &&& opt_view(e.anthropic_auth_token) == Some(api_key)
    &&& opt_view(e.api_timeout_ms) == Some(default_timeout())
    &&& e.claude_code_disable_nonessential_traffic == Some(1i32)
    &&& opt_view(e.anthropic_model) == non_empty(default_model)
    &&& opt_view(e.anthropic_small_fast_model) == non_empty(default_model)
    &&& opt_view(e.anthropic_default_sonnet_model) == non_empty(default_model)
    &&& opt_view(e.anthropic_default_opus_model) == non_empty(default_model)
    &&& opt_view(e.anthropic_default_haiku_model) == non_empty(haiku_model)
}

fn non_empty_string(s: &str) -> (r: Option<String>)
    ensures
        opt_view(r) == non_empty(s@),
{
    if s.unicode_len() > 0 {
        Some(String::from_str(s))
    } else {
        None
    }
}

/// The profile that setup builds from the answers it was given, or why it
/// refuses them: the name, the base URL and the key must not be empty,
/// checked in that order.
pub fn setup_profile(
    name: &str,
    base_url: &str,
    api_key: &str,
    default_model: &str,
    haiku_model: &str,
) -> (r: Result<EnvSettings, SetupError>)
    ensures
        name@.len() == 0 ==> r == Err::<EnvSettings, SetupError>(SetupError::EmptyName),
        name@.len() > 0 && base_url@.len() == 0 ==> r == Err::<EnvSettings, SetupError>(
            SetupError::EmptyBaseUrl,
        ),
        name@.len() > 0 && base_url@.len() > 0 && api_key@.len() == 0 ==> r == Err::<
            EnvSettings,
            SetupError,
        >(SetupError::EmptyApiKey),
        name@.len() > 0 && base_url@.len() > 0 && api_key@.len() > 0 ==> (r matches Ok(e)
            && setup_fields(e, base_url@, api_key@, default_model@, haiku_model@)),
{
    if name.unicode_len() == 0 {
        return Err(SetupError::EmptyName);
    }
    if base_url.unicode_len() == 0 {
        return Err(SetupError::EmptyBaseUrl);
    }
    if api_key.unicode_len() == 0 {
        return Err(SetupError::EmptyApiKey);
    }
    Ok(
        EnvSettings {
            anthropic_base_url: Some(String::from_str(base_url)),
            anthropic_auth_token: Some(String::from_str(api_key)),
            api_timeout_ms: Some(String::from_str("3000000")),
            claude_code_disable_nonessential_traffic: Some(1),
            anthropic_model: non_empty_string(default_model),
            anthropic_small_fast_model: non_empty_string(default_model),
            anthropic_default_sonnet_model: non_empty_string(default_model),
            anthropic_default_opus_model: non_empty_string(default_model),
            anthropic_default_haiku_model: non_empty_string(haiku_model),
        },
    )
}

fn push_text(out: &mut Vec<(String, EnvValue)>, key: &str, v: &Option<String>)
    ensures
        entries_view(final(out)@) == entries_view(old(out)@) + text_entry(key@, *v),
{
    let ghost before = entries_view(out@);
    match v {
        Some(s) => {
            if s.as_str().unicode_len() > 0 {
                out.push((String::from_str(key), EnvValue::Text(s.clone())));
                assert(entries_view(out@) =~= before + text_entry(key@, *v));
            } else {
                assert(entries_view(out@) =~= before + text_entry(key@, *v));
            }
        },
        None => {
            assert(entries_view(out@) =~= before + text_entry(key@, *v));
        },
    }
}

/// The environment block of a profile, as `env_block_of` describes it.
pub fn build_env_object(env: &EnvSettings) -> (r: Vec<(String, EnvValue)>)
    ensures
        entries_view(r@) == env_block_of(*env),
{
    let mut out: Vec<(String, EnvValue)> = Vec::new();
    assert(entries_view(out@) =~= Seq::empty());
    push_text(&mut out, "ANTHROPIC_BASE_URL", &env.anthropic_base_url);
    push_text(&mut out, "ANTHROPIC_AUTH_TOKEN", &env.anthropic_auth_token);
    push_text(&mut out, "API_TIMEOUT_MS", &env.api_timeout_ms);
    let ghost before = entries_view(out@);
    match env.claude_code_disable_nonessential_traffic {
        Some(n) => {
            out.push(
                (String::from_str("CLAUDE_CODE_DISABLE_NONESSENTIAL_TRAFFIC"), EnvValue::Number(n)),
            );
            assert(entries_view(out@) =~= before + seq![
                ("CLAUDE_CODE_DISABLE_NONESSENTIAL_TRAFFIC"@, EnvVal::Number(n as int)),
            ]);
        },
        None => {
            assert(entries_view(out@) =~= before + Seq::empty());
        },
    }
    push_text(&mut out, "ANTHROPIC_MODEL", &env.anthropic_model);
    push_text(&mut out, "ANTHROPIC_SMALL_FAST_MODEL", &env.anthropic_small_fast_model);
    push_text(&mut out, "ANTHROPIC_DEFAULT_SONNET_MODEL", &env.anthropic_default_sonnet_model);
    push_text(&mut out, "ANTHROPIC_DEFAULT_OPUS_MODEL", &env.anthropic_default_opus_model);
    push_text(&mut out, "ANTHROPIC_DEFAULT_HAIKU_MODEL", &env.anthropic_default_haiku_model);
    out
}

/// A line typed at a prompt, as the prompt hands it on: trimmed.
pub fn prompt_password(raw: &str) -> (r: String)
    ensures
        r@ == trim(raw@),
{
    string_of(&trim_chars(&chars_of(raw)))
}

/// `base` joined with the relative path `rest`: a separator goes between
/// them unless `base` is empty or already ends with one.
pub open spec fn path_join(base: Seq<char>, rest: Seq<char>) -> Seq<char> {
    if base.len() == 0 || base.last() == '/' {
        base + rest
    } else {
        base + seq!['/'] + rest
    }
}

fn join_path(base: &str, rest: &str) -> (r: String)
    ensures
        r@ == path_join(base@, rest@),
{
    let n = base.unicode_len();
    if n == 0 || base.get_char(n - 1) == '/' {
        String::from_str(base).concat(rest)
    } else {
        proof {
            reveal_strlit("/");
        }
        let r = String::from_str(base).concat("/").concat(rest);
        assert(r@ =~= base@ + seq!['/'] + rest@);
        r
    }
}

/// The directory `dir_name` that holds the assistant's configuration,
/// under `home`.
pub fn get_config_dir(home: &str, dir_name: &str) -> (r: String)
    ensures
        r@ == path_join(home@, dir_name@),
{
    join_path(home, dir_name)
}

/// The directory that holds one profile file per provider, inside the
/// configuration directory `dir_name` under `home`.
pub fn get_providers_dir(home: &str, dir_name: &str) -> (r: String)
    ensures
        r@ == path_join(path_join(home@, dir_name@), "providers"@),
{
    let c = get_config_dir(home, dir_name);
    join_path(c.as_str(), "providers")
}

/// The name of the profile file for `name`.
pub fn profile_file_name(name: &str) -> (r: String)
    ensures
        r@ == name@ + ".json"@,
{
    String::from_str(name).concat(".json")
}

/// A field that adds nothing to the environment block.
pub open spec fn is_blank(v: Option<String>) -> bool {
    match v {
        Some(s) => s@.len() == 0,
        None => true,
    }
}

/// The four variables that the default model fans out to.
pub open spec fn is_default_model_key(k: Seq<char>) -> bool {
    k == "ANTHROPIC_MODEL"@ || k == "ANTHROPIC_SMALL_FAST_MODEL"@ || k
        == "ANTHROPIC_DEFAULT_SONNET_MODEL"@ || k == "ANTHROPIC_DEFAULT_OPUS_MODEL"@
}

/// A profile without a default model but with a haiku model gets the haiku
/// variable in its environment block and none of the four variables that
/// the default model fans out to.
pub proof fn lemma_haiku_without_default(e: EnvSettings)
    requires
        is_blank(e.anthropic_model),
        is_blank(e.anthropic_small_fast_model),
        is_blank(e.anthropic_default_sonnet_model),
        is_blank(e.anthropic_default_opus_model),
        e.anthropic_default_haiku_model matches Some(h) && h@.len() > 0,
    ensures
        env_block_of(e).contains(
            ("ANTHROPIC_DEFAULT_HAIKU_MODEL"@, EnvVal::Text(e.anthropic_default_haiku_model->0@)),
        ),
        forall|i: int| 0 <= i < env_block_of(e).len() ==> !is_default_model_key(#[trigger] env_block_of(e)[i].0),
{
    reveal_strlit("ANTHROPIC_BASE_URL");
    reveal_strlit("ANTHROPIC_AUTH_TOKEN");
    reveal_strlit("API_TIMEOUT_MS");
    reveal_strlit("CLAUDE_CODE_DISABLE_NONESSENTIAL_TRAFFIC");
    reveal_strlit("ANTHROPIC_MODEL");
    reveal_strlit("ANTHROPIC_SMALL_FAST_MODEL");
    reveal_strlit("ANTHROPIC_DEFAULT_SONNET_MODEL");
    reveal_strlit("ANTHROPIC_DEFAULT_OPUS_MODEL");
    reveal_strlit("ANTHROPIC_DEFAULT_HAIKU_MODEL");
    let b = env_block_of(e);
    let haiku = ("ANTHROPIC_DEFAULT_HAIKU_MODEL"@, EnvVal::Text(e.anthropic_default_haiku_model->0@));
    assert(b.last() == haiku);
    assert(b[b.len() - 1] == haiku);
    assert forall|i: int| 0 <= i < b.len() implies !is_default_model_key(#[trigger] b[i].0) by {
        let k = b[i].0;
        assert(k.len() == 18 || k.len() == 20 || k.len() == 14 || k.len() == 40 || k.len() == 29);
    }
}

} // verus!
