//! Merging the private model into the clients' configuration documents.
use vstd::prelude::*;
use crate::config::{ConfigError, ModelConfig, PROVIDER, config_base_url, base_url, string_result_view};
use crate::json::{Json, JsonV, text_eq, obj_get, obj_insert, obj_remove, members_view, elements_view, lemma_get_insert, lemma_insert_present, lemma_insert_after_remove, lemma_set_wf, lemma_get_wf, lemma_array_view, lemma_object_view, lemma_set_get};

verus! {

// ---------------------------------------------------------------------------
// What the merge writes
pub open spec fn openai_api() -> Seq<char> {
    "openai-completions"@
}

pub open spec fn zero() -> JsonV {
    JsonV::Number("0"@)
}

/// The zero cost of the private model.
pub open spec fn cost_object() -> JsonV {
    JsonV::Object(seq![]).set("cacheRead"@, zero()).set("cacheWrite"@, zero()).set(
        "input"@,
        zero(),
    ).set("output"@, zero())
}

/// The model entry's fixed fields set on `base`.
pub open spec fn model_fields(base: JsonV, id: Seq<char>) -> JsonV {
    base.set("api"@, JsonV::Str(openai_api())).set(
        "contextWindow"@,
        JsonV::Number("200000"@),
    ).set("cost"@, cost_object()).set("id"@, JsonV::Str(id)).set(
        "input"@,
        JsonV::Array(seq![JsonV::Str("text"@)]),
    ).set("maxTokens"@, JsonV::Number("32768"@)).set("name"@, JsonV::Str(id)).set(
        "reasoning"@,
        JsonV::Bool(true),
    )
}

/// The compatibility options set on `compat`.
pub open spec fn compat_fields(compat: JsonV) -> JsonV {
    compat.set("maxTokensField"@, JsonV::Str("max_tokens"@)).set(
        "supportsDeveloperRole"@,
        JsonV::Bool(false),
    ).set("supportsReasoningEffort"@, JsonV::Bool(false)).set("supportsStore"@, JsonV::Bool(false))
}

/// The provider's connection fields set on `provider`.
pub open spec fn provider_fields(provider: JsonV, endpoint: Seq<char>, api_key: Seq<char>) -> JsonV {
    provider.set("baseUrl"@, JsonV::Str(endpoint)).set("apiKey"@, JsonV::Str(api_key)).set(
        "api"@,
        JsonV::Str(openai_api()),
    )
}

/// The provider's model list, or an empty list where it has none.
pub open spec fn models_of(provider: JsonV) -> JsonV {
    match provider.get("models"@) {
        Some(m) => m,
        None => JsonV::Array(seq![]),
    }
}

/// An existing model entry is an object with a string identifier.
pub open spec fn entry_has_id(m: JsonV) -> bool {
    m is Object && (m.get("id"@) matches Some(JsonV::Str(_)))
}

pub open spec fn entry_id_is(m: JsonV, id: Seq<char>) -> bool {
    m.get("id"@) == Some(JsonV::Str(id))
}

pub open spec fn all_have_ids(ms: Seq<JsonV>) -> bool {
    forall|i: int| 0 <= i < ms.len() ==> entry_has_id(#[trigger] ms[i])
}

/// How many entries carry identifier `id`.
pub open spec fn count_id(ms: Seq<JsonV>, id: Seq<char>) -> nat
    decreases ms.len(),
{
    if ms.len() == 0 {
        0
    } else {
        count_id(ms.drop_last(), id) + if entry_id_is(ms.last(), id) {
            1nat
        } else {
            0nat
        }
    }
}

/// An entry carrying identifier `id`.
pub open spec fn match_index(ms: Seq<JsonV>, id: Seq<char>) -> int {
    choose|i: int| 0 <= i < ms.len() && entry_id_is(#[trigger] ms[i], id)
}

/// The private model merged into a models document: provider
/// `hotschmoe-local` gets the endpoint, key and API, and its model entry with
/// identifier `id` gets the fixed fields and compatibility options. Other
/// providers, entries and fields stay as they are.
pub open spec fn merge_models_spec(
    doc: JsonV,
    api_key: Seq<char>,
    id: Seq<char>,
    endpoint: Seq<char>,
) -> Result<JsonV, ConfigError> {
    let providers = doc.get_or_empty("providers"@);
    let provider = providers.get_or_empty(PROVIDER@);
    let provider1 = provider_fields(provider, endpoint, api_key);
    let models = models_of(provider1);
    if !(doc is Object) || !(providers is Object) || !(provider is Object) {
        Err(ConfigError::FieldNotObject)
    } else if !(models is Array) {
        Err(ConfigError::ModelsNotArray)
    } else {
        let ms = models->Array_0;
        if !all_have_ids(ms) {
            Err(ConfigError::ModelEntryWithoutId)
        } else if count_id(ms, id) > 1 {
            Err(ConfigError::DuplicateModelIds)
        } else {
            let found = count_id(ms, id) == 1;
            let base = if found {
                ms[match_index(ms, id)]
            } else {
                JsonV::Object(seq![])
            };
            let model1 = model_fields(base, id);
            let compat = model1.get_or_empty("compat"@);
            if !(compat is Object) {
                Err(ConfigError::FieldNotObject)
            } else {
                let model2 = model1.set("compat"@, compat_fields(compat));
                let ms2 = if found {
                    ms.update(match_index(ms, id), model2)
                } else {
                    ms.push(model2)
                };
                Ok(
                    doc.set(
                        "providers"@,
                        providers.set(PROVIDER@, provider1.set("models"@, JsonV::Array(ms2))),
                    ),
                )
            }
        }
    }
}

pub proof fn lemma_keys_distinct()
    ensures
        "providers"@ != PROVIDER@,
        "baseUrl"@ != "models"@,
        "apiKey"@ != "models"@,
        "api"@ != "models"@,
        "api"@ != "compat"@,
        "contextWindow"@ != "compat"@,
        "cost"@ != "compat"@,
        "id"@ != "compat"@,
        "input"@ != "compat"@,
        "maxTokens"@ != "compat"@,
        "name"@ != "compat"@,
        "reasoning"@ != "compat"@,
        "api"@ != "id"@,
        "contextWindow"@ != "id"@,
        "cost"@ != "id"@,
        "input"@ != "id"@,
        "maxTokens"@ != "id"@,
        "name"@ != "id"@,
        "reasoning"@ != "id"@,
        "compat"@ != "id"@,
{
    reveal_strlit("providers");
    reveal_strlit("hotschmoe-local");
    reveal_strlit("baseUrl");
    reveal_strlit("models");
    reveal_strlit("apiKey");
    reveal_strlit("api");
    reveal_strlit("compat");
    reveal_strlit("contextWindow");
    reveal_strlit("cost");
    reveal_strlit("id");
    reveal_strlit("input");
    reveal_strlit("maxTokens");
    reveal_strlit("name");
    reveal_strlit("reasoning");
    assert("providers"@.len() != PROVIDER@.len());
    assert("baseUrl"@.len() != "models"@.len());
    assert("apiKey"@[0] != "models"@[0]);
    assert("api"@.len() != "models"@.len());
    assert("api"@.len() != "compat"@.len());
    assert("contextWindow"@.len() != "compat"@.len());
    assert("cost"@[0] != "compat"@[0] || "cost"@.len() != "compat"@.len());
    assert("id"@.len() != "compat"@.len());
    assert("input"@.len() != "compat"@.len());
    assert("maxTokens"@.len() != "compat"@.len());
    assert("name"@.len() != "compat"@.len());
    assert("reasoning"@.len() != "compat"@.len());
    assert("api"@.len() != "id"@.len());
    assert("contextWindow"@.len() != "id"@.len());
    assert("cost"@.len() != "id"@.len());
    assert("input"@.len() != "id"@.len());
    assert("maxTokens"@.len() != "id"@.len());
    assert("name"@.len() != "id"@.len());
    assert("reasoning"@.len() != "id"@.len());
    assert("compat"@.len() != "id"@.len());
}


// ---------------------------------------------------------------------------
// Building the merged fields
fn number(text: &str) -> (r: Json)
    ensures
        r@ == JsonV::Number(text@),
        r@.wf(),
{
    Json::Number(text.to_owned())
}

fn cost_json() -> (r: Json)
    ensures
        r@ == cost_object(),
        r@.wf(),
{
    let mut c = Json::new_object();
    c.set("cacheRead", number("0"));
    c.set("cacheWrite", number("0"));
    c.set("input", number("0"));
    c.set("output", number("0"));
    c
}

fn text_array(text: &str) -> (r: Json)
    ensures
        r@ == JsonV::Array(seq![JsonV::Str(text@)]),
        r@.wf(),
{
    let mut v: Vec<Json> = Vec::new();
    v.push(Json::string(text));
    proof {
        lemma_array_view(v);
        assert(elements_view(v@) =~= seq![JsonV::Str(text@)]);
    }
    Json::Array(v)
}

fn apply_model_fields(model: &mut Json, id: &str)
    requires
        old(model)@.wf(),
        old(model)@ is Object,
    ensures
        final(model)@ == model_fields(old(model)@, id@),
        final(model)@.wf(),
        final(model)@ is Object,
{
    model.set("api", Json::string("openai-completions"));
    model.set("contextWindow", number("200000"));
    model.set("cost", cost_json());
    model.set("id", Json::string(id));
    model.set("input", text_array("text"));
    model.set("maxTokens", number("32768"));
    model.set("name", Json::string(id));
    model.set("reasoning", Json::Bool(true));
}

fn apply_compat_fields(compat: &mut Json)
    requires
        old(compat)@.wf(),
        old(compat)@ is Object,
    ensures
        final(compat)@ == compat_fields(old(compat)@),
        final(compat)@.wf(),
        final(compat)@ is Object,
{
    compat.set("maxTokensField", Json::string("max_tokens"));
    compat.set("supportsDeveloperRole", Json::Bool(false));
    compat.set("supportsReasoningEffort", Json::Bool(false));
    compat.set("supportsStore", Json::Bool(false));
}

fn apply_provider_fields(provider: &mut Json, endpoint: &str, api_key: &str)
    requires
        old(provider)@.wf(),
        old(provider)@ is Object,
    ensures
        final(provider)@ == provider_fields(old(provider)@, endpoint@, api_key@),
        final(provider)@.wf(),
        final(provider)@ is Object,
{
    provider.set("baseUrl", Json::string(endpoint));
    provider.set("apiKey", Json::string(api_key));
    provider.set("api", Json::string("openai-completions"));
}

// ---------------------------------------------------------------------------
// Checking the existing model entries
/// The identifier of a model entry, where it is an object with a string
/// identifier.
fn entry_id<'a>(m: &'a Json) -> (r: Option<&'a String>)
    requires
        m@.wf(),
    ensures
        r matches Some(s) ==> entry_has_id(m@) && m@.get("id"@) == Some(JsonV::Str(s@)),
        r is None ==> !entry_has_id(m@),
{
    if !m.is_object() {
        return None;
    }
    match m.member("id") {
        Some(x) => match x {
            Json::Str(s) => Some(s),
            _ => None,
        },
        None => None,
    }
}

proof fn lemma_count_step(ms: Seq<JsonV>, id: Seq<char>, i: int)
    requires
        0 <= i < ms.len(),
    ensures
        count_id(ms.take(i + 1), id) == count_id(ms.take(i), id) + if entry_id_is(ms[i], id) {
            1nat
        } else {
            0nat
        },
{
    assert(ms.take(i + 1).drop_last() =~= ms.take(i));
    assert(ms.take(i + 1).last() == ms[i]);
}

/// Checks the entries of a model list: every entry must carry a string
/// identifier, and at most one the identifier `id`, whose position is
/// returned.
pub fn scan_models(ms: &Vec<Json>, id: &str) -> (r: Result<Option<usize>, ConfigError>)
    requires
        forall|i: int| 0 <= i < ms@.len() ==> (#[trigger] ms@[i])@.wf(),
    ensures
        ({
            let v = elements_view(ms@);
            &&& !all_have_ids(v) ==> r == Err::<Option<usize>, ConfigError>(
                ConfigError::ModelEntryWithoutId,
            )
            &&& all_have_ids(v) && count_id(v, id@) > 1 ==> r == Err::<Option<usize>, ConfigError>(
                ConfigError::DuplicateModelIds,
            )
            &&& all_have_ids(v) && count_id(v, id@) == 1 ==> (r matches Ok(Some(i)) && i
                == match_index(v, id@) && i < v.len() && entry_id_is(v[i as int], id@))
            &&& all_have_ids(v) && count_id(v, id@) == 0 ==> r == Ok::<Option<usize>, ConfigError>(
                None,
            )
        }),
{
    let ghost v = elements_view(ms@);
    let mut i: usize = 0;
    while i < ms.len()
        invariant
            v == elements_view(ms@),
            forall|k: int| 0 <= k < ms@.len() ==> (#[trigger] ms@[k])@.wf(),
            i <= ms.len(),
            forall|j: int| 0 <= j < i ==> entry_has_id(#[trigger] v[j]),
        decreases ms.len() - i,
    {
        if entry_id(&ms[i]).is_none() {
            assert(!entry_has_id(v[i as int]));
            return Err(ConfigError::ModelEntryWithoutId);
        }
        i += 1;
    }
    let mut count: usize = 0;
    let mut idx: usize = 0;
    let mut i: usize = 0;
    while i < ms.len()
        invariant
            v == elements_view(ms@),
            forall|k: int| 0 <= k < ms@.len() ==> (#[trigger] ms@[k])@.wf(),
            all_have_ids(v),
            i <= ms.len(),
            count <= i,
            count == count_id(v.take(i as int), id@),
            count >= 1 ==> idx < i && entry_id_is(v[idx as int], id@),
            count == 1 ==> forall|j: int| 0 <= j < i && entry_id_is(#[trigger] v[j], id@) ==> j
                == idx,
            count == 0 ==> forall|j: int| 0 <= j < i ==> !entry_id_is(#[trigger] v[j], id@),
        decreases ms.len() - i,
    {
        let matched = match entry_id(&ms[i]) {
            Some(s) => text_eq(s.as_str(), id),
            None => false,
        };
        proof {
            lemma_count_step(v, id@, i as int);
            assert(v[i as int] == ms@[i as int]@);
        }
        if matched {
            if count == 0 {
                idx = i;
            }
            count += 1;
        }
        i += 1;
    }
    proof {
        assert(v.take(v.len() as int) =~= v);
    }
    if count > 1 {
        Err(ConfigError::DuplicateModelIds)
    } else if count == 1 {
        proof {
            let m = match_index(v, id@);
            assert(0 <= idx < v.len() && entry_id_is(v[idx as int], id@));
        }
        Ok(Some(idx))
    } else {
        Ok(None)
    }
}


proof fn lemma_provider_fields_keep(provider: JsonV, endpoint: Seq<char>, api_key: Seq<char>)
    requires
        provider is Object,
    ensures
        provider_fields(provider, endpoint, api_key) is Object,
        models_of(provider_fields(provider, endpoint, api_key)) == models_of(provider),
{
    lemma_keys_distinct();
    let p1 = provider.set("baseUrl"@, JsonV::Str(endpoint));
    let p2 = p1.set("apiKey"@, JsonV::Str(api_key));
    lemma_set_get(provider, "baseUrl"@, JsonV::Str(endpoint), "models"@);
    lemma_set_get(p1, "apiKey"@, JsonV::Str(api_key), "models"@);
    lemma_set_get(p2, "api"@, JsonV::Str(openai_api()), "models"@);
}

proof fn lemma_model_fields_keep(base: JsonV, id: Seq<char>)
    requires
        base is Object,
    ensures
        model_fields(base, id) is Object,
        model_fields(base, id).get("compat"@) == base.get("compat"@),
        model_fields(base, id).get("id"@) == Some(JsonV::Str(id)),
{
    lemma_keys_distinct();
    let c = "compat"@;
    let m1 = base.set("api"@, JsonV::Str(openai_api()));
    let m2 = m1.set("contextWindow"@, JsonV::Number("200000"@));
    let m3 = m2.set("cost"@, cost_object());
    let m4 = m3.set("id"@, JsonV::Str(id));
    let m5 = m4.set("input"@, JsonV::Array(seq![JsonV::Str("text"@)]));
    let m6 = m5.set("maxTokens"@, JsonV::Number("32768"@));
    let m7 = m6.set("name"@, JsonV::Str(id));
    lemma_set_get(base, "api"@, JsonV::Str(openai_api()), c);
    lemma_set_get(m1, "contextWindow"@, JsonV::Number("200000"@), c);
    lemma_set_get(m2, "cost"@, cost_object(), c);
    lemma_set_get(m3, "id"@, JsonV::Str(id), c);
    lemma_set_get(m4, "input"@, JsonV::Array(seq![JsonV::Str("text"@)]), c);
    lemma_set_get(m5, "maxTokens"@, JsonV::Number("32768"@), c);
    lemma_set_get(m6, "name"@, JsonV::Str(id), c);
    lemma_set_get(m7, "reasoning"@, JsonV::Bool(true), c);
    lemma_set_get(m4, "input"@, JsonV::Array(seq![JsonV::Str("text"@)]), "id"@);
    lemma_set_get(m5, "maxTokens"@, JsonV::Number("32768"@), "id"@);
    lemma_set_get(m6, "name"@, JsonV::Str(id), "id"@);
    lemma_set_get(m7, "reasoning"@, JsonV::Bool(true), "id"@);
    lemma_set_get(m3, "id"@, JsonV::Str(id), "id"@);
}

proof fn lemma_empty_object_get(k: Seq<char>)
    ensures
        JsonV::Object(seq![]).get(k) == None::<JsonV>,
        JsonV::Object(seq![]).get_or_empty(k) == JsonV::Object(seq![]),
        JsonV::Object(seq![]).wf(),
{
}

/// Reads the documents' shape without changing it: fails exactly where the
/// merge fails, else gives the position of the entry for the model, if any.
fn check_merge(value: &Json, config: &ModelConfig, endpoint: &str) -> (r: Result<
    Option<usize>,
    ConfigError,
>)
    requires
        value@.wf(),
    ensures
        ({
            let spec = merge_models_spec(value@, config.api_key@, config.model_id@, endpoint@);
            let provider1 = provider_fields(
                value@.get_or_empty("providers"@).get_or_empty(PROVIDER@),
                endpoint@,
                config.api_key@,
            );
            let ms = models_of(provider1)->Array_0;
            &&& r matches Err(e) ==> spec == Err::<JsonV, ConfigError>(e)
            &&& r matches Ok(f) ==> {
                &&& spec is Ok
                &&& models_of(provider1) is Array
                &&& all_have_ids(ms)
                &&& f matches Some(i) ==> count_id(ms, config.model_id@) == 1 && i == match_index(
                    ms,
                    config.model_id@,
                ) && i < ms.len()
                &&& f is None ==> count_id(ms, config.model_id@) == 0
            }
        }),
{
    let ghost doc = value@;
    let ghost key = config.api_key@;
    let ghost id = config.model_id@;
    let ghost ep = endpoint@;
    let ghost providers = doc.get_or_empty("providers"@);
    let ghost provider = providers.get_or_empty(PROVIDER@);
    if !value.is_object() {
        return Err(ConfigError::FieldNotObject);
    }
    proof {
        lemma_get_wf(doc, "providers"@);
        lemma_empty_object_get(PROVIDER@);
        lemma_empty_object_get("models"@);
    }
    let providers_ref = value.member("providers");
    let provider_ref = match providers_ref {
        Some(p) => {
            if !p.is_object() {
                return Err(ConfigError::FieldNotObject);
            }
            proof {
                lemma_get_wf(p@, PROVIDER@);
            }
            p.member(PROVIDER)
        },
        None => None,
    };
    let models_ref = match provider_ref {
        Some(p) => {
            if !p.is_object() {
                return Err(ConfigError::FieldNotObject);
            }
            proof {
                lemma_get_wf(p@, "models"@);
            }
            p.member("models")
        },
        None => None,
    };
    proof {
        assert(provider is Object);
        lemma_provider_fields_keep(provider, ep, key);
    }
    let ghost provider1 = provider_fields(provider, ep, key);
    let found = match models_ref {
        None => {
            proof {
                lemma_model_fields_keep(JsonV::Object(seq![]), id);
                lemma_empty_object_get("compat"@);
                assert(models_of(provider1)->Array_0 =~= Seq::<JsonV>::empty());
            }
            None
        },
        Some(m) => match m {
            Json::Array(v) => {
                proof {
                    lemma_array_view(*v);
                    assert forall|i: int| 0 <= i < v@.len() implies (#[trigger] v@[i])@.wf() by {
                        assert(elements_view(v@)[i] == v@[i]@);
                    }
                }
                let f = match scan_models(v, config.model_id.as_str()) {
                    Ok(f) => f,
                    Err(e) => {
                        return Err(e);
                    },
                };
                if let Some(i) = f {
                    let ghost base = elements_view(v@)[i as int];
                    proof {
                        assert(base == v@[i as int]@);
                        assert(base.wf());
                        lemma_model_fields_keep(base, id);
                    }
                    match v[i].member("compat") {
                        Some(c) => {
                            if !c.is_object() {
                                return Err(ConfigError::FieldNotObject);
                            }
                        },
                        None => {},
                    }
                } else {
                    proof {
                        lemma_model_fields_keep(JsonV::Object(seq![]), id);
                        lemma_empty_object_get("compat"@);
                    }
                }
                f
            },
            _ => {
                return Err(ConfigError::ModelsNotArray);
            },
        },
    };
    Ok(found)
}


/// Takes member `key` out of an object, or an empty object where it is
/// missing.
fn take_or_empty(o: &mut Json, key: &str) -> (r: Json)
    requires
        old(o)@.wf(),
        old(o)@ is Object,
    ensures
        r@ == old(o)@.get_or_empty(key@),
        r@.wf(),
        final(o)@ == JsonV::Object(obj_remove(old(o)@->Object_0, key@)),
        final(o)@.wf(),
        final(o)@ is Object,
{
    proof {
        lemma_get_wf(o@, key@);
    }
    match o.take(key) {
        Some(x) => x,
        None => Json::new_object(),
    }
}

/// Putting back member `key` after `take_or_empty` sets it.
proof fn lemma_put_back(o: JsonV, key: Seq<char>, v: JsonV)
    requires
        o.wf(),
        o is Object,
    ensures
        JsonV::Object(obj_remove(o->Object_0, key)).set(key, v) == o.set(key, v),
{
    lemma_insert_after_remove(o->Object_0, key, v);
}

/// Merges the private model into a models document (see
/// `merge_models_spec`). Where the document has a shape the merge cannot
/// handle, it is left unchanged.
pub fn merge_models(value: &mut Json, config: &ModelConfig, endpoint: &str) -> (r: Result<
    (),
    ConfigError,
>)
    requires
        old(value)@.wf(),
    ensures
        final(value)@.wf(),
        match merge_models_spec(old(value)@, config.api_key@, config.model_id@, endpoint@) {
            Ok(v) => r is Ok && final(value)@ == v,
            Err(e) => r == Err::<(), ConfigError>(e) && final(value)@ == old(value)@,
        },
{
    let ghost doc0 = value@;
    let ghost key = config.api_key@;
    let ghost id = config.model_id@;
    let ghost ep = endpoint@;
    let found = match check_merge(value, config, endpoint) {
        Ok(f) => f,
        Err(e) => {
            return Err(e);
        },
    };
    let ghost providers0 = doc0.get_or_empty("providers"@);
    let ghost provider0 = providers0.get_or_empty(PROVIDER@);
    let ghost provider1 = provider_fields(provider0, ep, key);
    let ghost ms0 = models_of(provider1)->Array_0;
    let mut doc = Json::Null;
    std::mem::swap(&mut doc, value);
    let mut providers = take_or_empty(&mut doc, "providers");
    let ghost doc1 = doc@;
    let mut provider = take_or_empty(&mut providers, PROVIDER);
    let ghost providers1 = providers@;
    apply_provider_fields(&mut provider, endpoint, config.api_key.as_str());
    assert(provider@ == provider1);
    let models = match provider.take("models") {
        Some(m) => m,
        None => Json::new_array(),
    };
    let ghost provider2 = provider@;
    proof {
        lemma_get_wf(provider1, "models"@);
        assert(models@ == models_of(provider1));
    }
    let mut ms: Vec<Json> = match models {
        Json::Array(v) => v,
        _ => {
            proof {
                assert(false);
            }
            Vec::new()
        },
    };
    proof {
        lemma_array_view(ms);
        assert(elements_view(ms@) == ms0);
        assert forall|i: int| 0 <= i < ms@.len() implies (#[trigger] ms@[i])@.wf() by {
            assert(elements_view(ms@)[i] == ms@[i]@);
        }
    }
    let ghost ms_before = ms@;
    let mut model = match found {
        Some(i) => ms.remove(i),
        None => Json::new_object(),
    };
    let ghost base = model@;
    proof {
        if let Some(i) = found {
            assert(base == ms0[i as int]);
            assert(entry_has_id(ms0[i as int]));
        }
    }
    apply_model_fields(&mut model, config.model_id.as_str());
    let ghost model1 = model@;
    let mut compat = take_or_empty(&mut model, "compat");
    proof {
        lemma_model_fields_keep(base, id);
    }
    assert(compat@ is Object);
    apply_compat_fields(&mut compat);
    let ghost compat1 = compat@;
    model.set("compat", compat);
    proof {
        lemma_put_back(model1, "compat"@, compat1);
    }
    let ghost model2 = model@;
    match found {
        Some(i) => {
            ms.insert(i, model);
            proof {
                assert(ms@ =~= ms_before.update(i as int, ms@[i as int]));
                assert(elements_view(ms@) =~= ms0.update(i as int, model2));
            }
        },
        None => {
            ms.push(model);
            proof {
                assert(elements_view(ms@) =~= ms0.push(model2));
            }
        },
    }
    proof {
        lemma_array_view(ms);
        let ev = elements_view(ms@);
        assert forall|i: int| 0 <= i < ev.len() implies (#[trigger] ev[i]).wf() by {
            assert(ev[i] == ms@[i]@);
            if found is Some && i == found->0 {
            } else if found is None && i == ev.len() - 1 {
            } else {
                assert(ev[i] == ms0[i]);
                lemma_get_wf(provider1, "models"@);
            }
        }
    }
    let ghost ms2 = elements_view(ms@);
    provider.set("models", Json::Array(ms));
    proof {
        lemma_put_back(provider1, "models"@, JsonV::Array(ms2));
    }
    let ghost provider3 = provider@;
    providers.set(PROVIDER, provider);
    proof {
        lemma_put_back(providers0, PROVIDER@, provider3);
    }
    let ghost providers3 = providers@;
    doc.set("providers", providers);
    proof {
        lemma_put_back(doc0, "providers"@, providers3);
    }
    *value = doc;
    Ok(())
}


// ---------------------------------------------------------------------------
// The other documents
/// Pi's settings name the provider and the model as the defaults.
pub open spec fn settings_spec(doc: JsonV, id: Seq<char>) -> Result<JsonV, ConfigError> {
    if !(doc is Object) {
        Err(ConfigError::FieldNotObject)
    } else {
        Ok(doc.set("defaultProvider"@, JsonV::Str(PROVIDER@)).set("defaultModel"@, JsonV::Str(id)))
    }
}

/// The model role that OMP's configuration names as default.
pub open spec fn default_role(id: Seq<char>) -> Seq<char> {
    PROVIDER@ + "/"@ + id
}

/// OMP's configuration names the model as its default role.
pub open spec fn roles_spec(doc: JsonV, id: Seq<char>) -> Result<JsonV, ConfigError> {
    let roles = doc.get_or_empty("modelRoles"@);
    if !(doc is Object) || !(roles is Object) {
        Err(ConfigError::FieldNotObject)
    } else {
        Ok(doc.set("modelRoles"@, roles.set("default"@, JsonV::Str(default_role(id)))))
    }
}

/// Makes the private model Pi's default (see `settings_spec`); a document
/// that is not an object is left unchanged.
pub fn set_default_model(value: &mut Json, config: &ModelConfig) -> (r: Result<(), ConfigError>)
    requires
        old(value)@.wf(),
    ensures
        final(value)@.wf(),
        match settings_spec(old(value)@, config.model_id@) {
            Ok(v) => r is Ok && final(value)@ == v,
            Err(e) => r == Err::<(), ConfigError>(e) && final(value)@ == old(value)@,
        },
{
    if !value.is_object() {
        return Err(ConfigError::FieldNotObject);
    }
    value.set("defaultProvider", Json::string(PROVIDER));
    proof {
        lemma_set_wf(old(value)@, "defaultProvider"@, JsonV::Str(PROVIDER@));
    }
    value.set("defaultModel", Json::string(config.model_id.as_str()));
    Ok(())
}

/// Makes the private model OMP's default role (see `roles_spec`); a
/// document of another shape is left unchanged.
pub fn set_default_role(value: &mut Json, config: &ModelConfig) -> (r: Result<(), ConfigError>)
    requires
        old(value)@.wf(),
    ensures
        final(value)@.wf(),
        match roles_spec(old(value)@, config.model_id@) {
            Ok(v) => r is Ok && final(value)@ == v,
            Err(e) => r == Err::<(), ConfigError>(e) && final(value)@ == old(value)@,
        },
{
    if !value.is_object() {
        return Err(ConfigError::FieldNotObject);
    }
    proof {
        lemma_get_wf(value@, "modelRoles"@);
    }
    match value.member("modelRoles") {
        Some(x) => {
            if !x.is_object() {
                return Err(ConfigError::FieldNotObject);
            }
        },
        None => {},
    }
    let ghost doc0 = value@;
    let mut roles = take_or_empty(value, "modelRoles");
    let mut role = PROVIDER.to_owned();
    role.append("/");
    role.append(config.model_id.as_str());
    roles.set("default", Json::Str(role));
    let ghost roles1 = roles@;
    value.set("modelRoles", roles);
    proof {
        lemma_put_back(doc0, "modelRoles"@, roles1);
    }
    Ok(())
}

/// The four client documents that a configuration touches.
pub struct ClientDocuments {
    /// Pi's `models.json`.
    pub pi_models: Json,
    /// Pi's `settings.json`.
    pub pi_settings: Json,
    /// OMP's models document.
    pub omp_models: Json,
    /// OMP's configuration document.
    pub omp_config: Json,
}

pub struct ClientDocumentsV {
    pub pi_models: JsonV,
    pub pi_settings: JsonV,
    pub omp_models: JsonV,
    pub omp_config: JsonV,
}

impl View for ClientDocuments {
    type V = ClientDocumentsV;

    open spec fn view(&self) -> ClientDocumentsV {
        ClientDocumentsV {
            pi_models: self.pi_models@,
            pi_settings: self.pi_settings@,
            omp_models: self.omp_models@,
            omp_config: self.omp_config@,
        }
    }
}

impl ClientDocumentsV {
    pub open spec fn wf(self) -> bool {
        self.pi_models.wf() && self.pi_settings.wf() && self.omp_models.wf() && self.omp_config.wf()
    }
}

/// All four documents merged in turn, once the configuration is valid; the
/// first failure stops the whole merge.
pub open spec fn documents_spec(
    endpoint: Result<Seq<char>, ConfigError>,
    api_key: Seq<char>,
    id: Seq<char>,
    docs: ClientDocumentsV,
) -> Result<ClientDocumentsV, ConfigError> {
    match endpoint {
        Err(e) => Err(e),
        Ok(ep) => match merge_models_spec(docs.pi_models, api_key, id, ep) {
            Err(e) => Err(e),
            Ok(a) => match settings_spec(docs.pi_settings, id) {
                Err(e) => Err(e),
                Ok(b) => match merge_models_spec(docs.omp_models, api_key, id, ep) {
                    Err(e) => Err(e),
                    Ok(c) => match roles_spec(docs.omp_config, id) {
                        Err(e) => Err(e),
                        Ok(d) => Ok(
                            ClientDocumentsV { pi_models: a, pi_settings: b, omp_models: c, omp_config: d },
                        ),
                    },
                },
            },
        },
    }
}

pub open spec fn configure_spec(config: ModelConfig, docs: ClientDocumentsV) -> Result<
    ClientDocumentsV,
    ConfigError,
> {
    documents_spec(config_base_url(config), config.api_key@, config.model_id@, docs)
}

/// Validates the configuration and merges it into all four documents. Every
/// document is checked before any result is handed back, so a failure leaves
/// nothing half merged.
pub fn merge_documents(config: &ModelConfig, docs: ClientDocuments) -> (r: Result<
    ClientDocuments,
    ConfigError,
>)
    requires
        docs@.wf(),
    ensures
        r matches Ok(d) ==> configure_spec(*config, docs@) == Ok::<ClientDocumentsV, ConfigError>(
            d@,
        ) && d@.wf(),
        r matches Err(e) ==> configure_spec(*config, docs@) == Err::<ClientDocumentsV, ConfigError>(
            e,
        ),
{
    let endpoint = match base_url(config) {
        Ok(e) => e,
        Err(e) => {
            return Err(e);
        },
    };
    let mut docs = docs;
    match merge_models(&mut docs.pi_models, config, endpoint.as_str()) {
        Ok(()) => {},
        Err(e) => {
            return Err(e);
        },
    }
    match set_default_model(&mut docs.pi_settings, config) {
        Ok(()) => {},
        Err(e) => {
            return Err(e);
        },
    }
    match merge_models(&mut docs.omp_models, config, endpoint.as_str()) {
        Ok(()) => {},
        Err(e) => {
            return Err(e);
        },
    }
    match set_default_role(&mut docs.omp_config, config) {
        Ok(()) => {},
        Err(e) => {
            return Err(e);
        },
    }
    Ok(docs)
}

/// Whether a document must be written: unless it exists and the merge left
/// it as it was.
pub fn needs_write(before: &Json, after: &Json, exists: bool) -> (r: bool)
    ensures
        r == !(before@ == after@ && exists),
{
    !(crate::json::json_equal(before, after) && exists)
}

/// Checks a document just read: it must be an object.
pub fn check_document(value: &Json) -> (r: Result<(), ConfigError>)
    ensures
        r is Ok <==> value@ is Object,
        r is Err ==> r == Err::<(), ConfigError>(ConfigError::DocumentNotObject),
{
    if value.is_object() {
        Ok(())
    } else {
        Err(ConfigError::DocumentNotObject)
    }
}


// ---------------------------------------------------------------------------
// Backups and document sources
/// The decimal digit `d`.
pub open spec fn digit_char(d: nat) -> char {
    (d + 48) as char
}

/// The decimal text of `n`.
pub open spec fn decimal(n: nat) -> Seq<char>
    decreases n,
{
    if n < 10 {
        seq![digit_char(n)]
    } else {
        decimal(n / 10).push(digit_char(n % 10))
    }
}

fn digit_text(d: u32) -> (r: &'static str)
    requires
        d < 10,
    ensures
        r@ == seq![digit_char(d as nat)],
{
    proof {
        reveal_strlit("0");
        reveal_strlit("1");
        reveal_strlit("2");
        reveal_strlit("3");
        reveal_strlit("4");
        reveal_strlit("5");
        reveal_strlit("6");
        reveal_strlit("7");
        reveal_strlit("8");
        reveal_strlit("9");
    }
    let r = match d {
        0 => "0",
        1 => "1",
        2 => "2",
        3 => "3",
        4 => "4",
        5 => "5",
        6 => "6",
        7 => "7",
        8 => "8",
        _ => "9",
    };
    assert(r@ =~= seq![digit_char(d as nat)]);
    r
}

/// The decimal text of `n`.
pub fn decimal_text(n: u32) -> (r: String)
    ensures
        r@ == decimal(n as nat),
    decreases n,
{
    if n < 10 {
        digit_text(n).to_owned()
    } else {
        let mut r = decimal_text(n / 10);
        r.append(digit_text(n % 10));
        assert(r@ =~= decimal((n / 10) as nat).push(digit_char((n % 10) as nat)));
        r
    }
}

/// The suffix of backup number `n` of a file: `.bak`, then `.bak.1`,
/// `.bak.2`, and so on.
pub open spec fn backup_suffix_spec(n: nat) -> Seq<char> {
    if n == 0 {
        ".bak"@
    } else {
        ".bak."@ + decimal(n)
    }
}

/// The suffix of backup number `n` of a file.
pub fn backup_suffix(n: u32) -> (r: String)
    ensures
        r@ == backup_suffix_spec(n as nat),
{
    if n == 0 {
        ".bak".to_owned()
    } else {
        let mut r = ".bak.".to_owned();
        r.append(decimal_text(n).as_str());
        r
    }
}

/// The OMP documents that can live in YAML or in an older JSON file.
#[derive(PartialEq, Eq, Structural, Clone, Copy, Debug)]
pub enum OmpDocument {
    Models,
    Config,
}

impl OmpDocument {
    /// The file stem: `models` or `config`.
    pub fn stem(&self) -> (r: &'static str)
        ensures
            r@ == match self {
                OmpDocument::Models => "models"@,
                OmpDocument::Config => "config"@,
            },
    {
        match self {
            OmpDocument::Models => "models",
            OmpDocument::Config => "config",
        }
    }
}

/// The older JSON file that a missing OMP YAML document is read from. A
/// configuration whose settings still live in OMP's database is refused until
/// OMP has migrated them.
pub fn legacy_source(document: OmpDocument, agent_db_exists: bool) -> (r: Result<
    &'static str,
    ConfigError,
>)
    ensures
        document == OmpDocument::Models ==> (r matches Ok(n) && n@ == "models.json"@),
        document == OmpDocument::Config && !agent_db_exists ==> (r matches Ok(n) && n@
            == "settings.json"@),
        document == OmpDocument::Config && agent_db_exists ==> r == Err::<&'static str, ConfigError>(
            ConfigError::LegacyDatabase,
        ),
{
    match document {
        OmpDocument::Models => Ok("models.json"),
        OmpDocument::Config => if agent_db_exists {
            Err(ConfigError::LegacyDatabase)
        } else {
            Ok("settings.json")
        },
    }
}

} // verus!
