//! Properties of the merge that hold across calls: repeating it changes
//! nothing, and it leaves everything it does not set as it was.
use vstd::prelude::*;
use crate::config::{ConfigError, ModelConfig, PROVIDER};
use crate::documents::{
    all_have_ids, compat_fields, cost_object, count_id, entry_has_id, entry_id_is, match_index,
    merge_models_spec, model_fields, models_of, openai_api, provider_fields, roles_spec,
    settings_spec, default_role, documents_spec, configure_spec, ClientDocumentsV, decimal,
    digit_char, backup_suffix_spec,
};
use crate::config::{model_id_ok, forbidden_in_model, config_base_url, rebased_url, parsed_url, api_key_ok};
use crate::text::{all_white, first_visible_is, has_control, strip_line_ends};
use crate::access::valid_sid;
use crate::text::{white_space, control_char};
use crate::vault::{aad_spec, kdf_key, argon2id_output, seal_with_spec, EnvelopeV, VaultError, b64_encode, b64_decode, open_checks};
use crate::client_files::{read_document_spec, staged_text};
use crate::codec::{json_pretty_text, yaml_text};
use crate::client_files::{omp_source_spec, DocumentSourceV};
use crate::documents::OmpDocument;
use crate::json::{JsonV, is_digits, is_digit, digits_value, lemma_set_get, lemma_set_wf, lemma_get_wf, lemma_insert_present};

verus! {

/// Setting a member to the value it holds changes nothing.
proof fn lemma_set_present(o: JsonV, k: Seq<char>, v: JsonV)
    requires
        o.wf(),
        o is Object,
        o.get(k) == Some(v),
    ensures
        o.set(k, v) == o,
{
    lemma_insert_present(o->Object_0, k, v);
}

proof fn lemma_literals()
    ensures
        "baseUrl"@.len() == 7,
        "apiKey"@ =~= seq!['a', 'p', 'i', 'K', 'e', 'y'],
        "api"@.len() == 3,
        "models"@ =~= seq!['m', 'o', 'd', 'e', 'l', 's'],
        "providers"@.len() == 9,
        PROVIDER@.len() == 15,
        "compat"@.len() == 6,
        "contextWindow"@.len() == 13,
        "cost"@ =~= seq!['c', 'o', 's', 't'],
        "id"@.len() == 2,
        "input"@.len() == 5,
        "maxTokens"@ =~= seq!['m', 'a', 'x', 'T', 'o', 'k', 'e', 'n', 's'],
        "name"@ =~= seq!['n', 'a', 'm', 'e'],
        "reasoning"@ =~= seq!['r', 'e', 'a', 's', 'o', 'n', 'i', 'n', 'g'],
        "maxTokensField"@.len() == 14,
        "supportsDeveloperRole"@.len() == 21,
        "supportsReasoningEffort"@.len() == 23,
        "supportsStore"@.len() == 13,
        "defaultProvider"@.len() == 15,
        "defaultModel"@.len() == 12,
        "modelRoles"@.len() == 10,
        "default"@.len() == 7,
{
    reveal_strlit("baseUrl");
    reveal_strlit("apiKey");
    reveal_strlit("api");
    reveal_strlit("models");
    reveal_strlit("providers");
    reveal_strlit("hotschmoe-local");
    reveal_strlit("compat");
    reveal_strlit("contextWindow");
    reveal_strlit("cost");
    reveal_strlit("id");
    reveal_strlit("input");
    reveal_strlit("maxTokens");
    reveal_strlit("name");
    reveal_strlit("reasoning");
    reveal_strlit("maxTokensField");
    reveal_strlit("supportsDeveloperRole");
    reveal_strlit("supportsReasoningEffort");
    reveal_strlit("supportsStore");
    reveal_strlit("defaultProvider");
    reveal_strlit("defaultModel");
    reveal_strlit("modelRoles");
    reveal_strlit("default");
}

proof fn lemma_distinct_keys()
    ensures
        "apiKey"@ != "models"@,
        "cost"@ != "name"@,
        "maxTokens"@ != "reasoning"@,
{
    lemma_literals();
    assert("apiKey"@[0] != "models"@[0]);
    assert("cost"@[0] != "name"@[0]);
    assert("maxTokens"@[0] != "reasoning"@[0]);
}


proof fn lemma_str_wf(t: Seq<char>)
    ensures
        JsonV::Str(t).wf(),
        JsonV::Number(t).wf(),
        JsonV::Array(seq![JsonV::Str(t)]).wf(),
{
    let a = seq![JsonV::Str(t)];
    assert forall|i: int| 0 <= i < a.len() implies (#[trigger] a[i]).wf() by {
        assert(a[i] == JsonV::Str(t));
    }
}

proof fn lemma_cost_wf()
    ensures
        cost_object().wf(),
        cost_object() is Object,
{
    let z = JsonV::Number("0"@);
    lemma_str_wf("0"@);
    let c0 = JsonV::Object(seq![]);
    let c1 = c0.set("cacheRead"@, z);
    let c2 = c1.set("cacheWrite"@, z);
    let c3 = c2.set("input"@, z);
    lemma_set_wf(c0, "cacheRead"@, z);
    lemma_set_wf(c1, "cacheWrite"@, z);
    lemma_set_wf(c2, "input"@, z);
    lemma_set_wf(c3, "output"@, z);
}

/// The fields that `model_fields` sets.
pub open spec fn is_model_field(k: Seq<char>) -> bool {
    k == "api"@ || k == "contextWindow"@ || k == "cost"@ || k == "id"@ || k == "input"@ || k
        == "maxTokens"@ || k == "name"@ || k == "reasoning"@
}

/// The options that `compat_fields` sets.
pub open spec fn is_compat_field(k: Seq<char>) -> bool {
    k == "maxTokensField"@ || k == "supportsDeveloperRole"@ || k == "supportsReasoningEffort"@ || k
        == "supportsStore"@
}

/// The values that `model_fields` sets.
pub open spec fn model_value(k: Seq<char>, id: Seq<char>, base: JsonV) -> Option<JsonV> {
    if k == "reasoning"@ {
        Some(JsonV::Bool(true))
    } else if k == "name"@ {
        Some(JsonV::Str(id))
    } else if k == "maxTokens"@ {
        Some(JsonV::Number("32768"@))
    } else if k == "input"@ {
        Some(JsonV::Array(seq![JsonV::Str("text"@)]))
    } else if k == "id"@ {
        Some(JsonV::Str(id))
    } else if k == "cost"@ {
        Some(cost_object())
    } else if k == "contextWindow"@ {
        Some(JsonV::Number("200000"@))
    } else if k == "api"@ {
        Some(JsonV::Str(openai_api()))
    } else {
        base.get(k)
    }
}

proof fn lemma_model_fields(base: JsonV, id: Seq<char>)
    requires
        base.wf(),
        base is Object,
    ensures
        model_fields(base, id).wf(),
        model_fields(base, id) is Object,
        forall|k: Seq<char>| #[trigger] model_fields(base, id).get(k) == model_value(k, id, base),
{
    let v1 = JsonV::Str(openai_api());
    let v2 = JsonV::Number("200000"@);
    let v3 = cost_object();
    let v4 = JsonV::Str(id);
    let v5 = JsonV::Array(seq![JsonV::Str("text"@)]);
    let v6 = JsonV::Number("32768"@);
    let v7 = JsonV::Str(id);
    let v8 = JsonV::Bool(true);
    let m1 = base.set("api"@, v1);
    let m2 = m1.set("contextWindow"@, v2);
    let m3 = m2.set("cost"@, v3);
    let m4 = m3.set("id"@, v4);
    let m5 = m4.set("input"@, v5);
    let m6 = m5.set("maxTokens"@, v6);
    let m7 = m6.set("name"@, v7);
    let m8 = m7.set("reasoning"@, v8);
    lemma_str_wf(openai_api());
    lemma_str_wf("200000"@);
    lemma_str_wf(id);
    lemma_str_wf("text"@);
    lemma_str_wf("32768"@);
    lemma_cost_wf();
    lemma_set_wf(base, "api"@, v1);
    lemma_set_wf(m1, "contextWindow"@, v2);
    lemma_set_wf(m2, "cost"@, v3);
    lemma_set_wf(m3, "id"@, v4);
    lemma_set_wf(m4, "input"@, v5);
    lemma_set_wf(m5, "maxTokens"@, v6);
    lemma_set_wf(m6, "name"@, v7);
    lemma_set_wf(m7, "reasoning"@, v8);
    assert forall|k: Seq<char>| #[trigger] m8.get(k) == model_value(k, id, base) by {
        lemma_set_get(base, "api"@, v1, k);
        lemma_set_get(m1, "contextWindow"@, v2, k);
        lemma_set_get(m2, "cost"@, v3, k);
        lemma_set_get(m3, "id"@, v4, k);
        lemma_set_get(m4, "input"@, v5, k);
        lemma_set_get(m5, "maxTokens"@, v6, k);
        lemma_set_get(m6, "name"@, v7, k);
        lemma_set_get(m7, "reasoning"@, v8, k);
    }
}

/// `model_fields` leaves an entry that already holds its values unchanged.
proof fn lemma_model_fields_present(m: JsonV, id: Seq<char>)
    requires
        m.wf(),
        m is Object,
        forall|k: Seq<char>|
            #![trigger m.get(k)]
            k == "api"@ || k == "contextWindow"@ || k == "cost"@ || k == "id"@ || k == "input"@
                || k == "maxTokens"@ || k == "name"@ || k == "reasoning"@ ==> m.get(k)
                == model_value(k, id, m),
    ensures
        model_fields(m, id) == m,
{
    lemma_literals();
    lemma_distinct_keys();
    assert(m.get("api"@) == model_value("api"@, id, m));
    assert(m.get("contextWindow"@) == model_value("contextWindow"@, id, m));
    assert(m.get("cost"@) == model_value("cost"@, id, m));
    assert(m.get("id"@) == model_value("id"@, id, m));
    assert(m.get("input"@) == model_value("input"@, id, m));
    assert(m.get("maxTokens"@) == model_value("maxTokens"@, id, m));
    assert(m.get("name"@) == model_value("name"@, id, m));
    assert(m.get("reasoning"@) == model_value("reasoning"@, id, m));
    lemma_set_present(m, "api"@, JsonV::Str(openai_api()));
    lemma_set_present(m, "contextWindow"@, JsonV::Number("200000"@));
    lemma_set_present(m, "cost"@, cost_object());
    lemma_set_present(m, "id"@, JsonV::Str(id));
    lemma_set_present(m, "input"@, JsonV::Array(seq![JsonV::Str("text"@)]));
    lemma_set_present(m, "maxTokens"@, JsonV::Number("32768"@));
    lemma_set_present(m, "name"@, JsonV::Str(id));
    lemma_set_present(m, "reasoning"@, JsonV::Bool(true));
}


/// The values that `compat_fields` sets.
pub open spec fn compat_value(k: Seq<char>, c: JsonV) -> Option<JsonV> {
    if k == "supportsStore"@ {
        Some(JsonV::Bool(false))
    } else if k == "supportsReasoningEffort"@ {
        Some(JsonV::Bool(false))
    } else if k == "supportsDeveloperRole"@ {
        Some(JsonV::Bool(false))
    } else if k == "maxTokensField"@ {
        Some(JsonV::Str("max_tokens"@))
    } else {
        c.get(k)
    }
}

proof fn lemma_compat_fields(c: JsonV)
    requires
        c.wf(),
        c is Object,
    ensures
        compat_fields(c).wf(),
        compat_fields(c) is Object,
        forall|k: Seq<char>| #[trigger] compat_fields(c).get(k) == compat_value(k, c),
{
    let v1 = JsonV::Str("max_tokens"@);
    let f = JsonV::Bool(false);
    let c1 = c.set("maxTokensField"@, v1);
    let c2 = c1.set("supportsDeveloperRole"@, f);
    let c3 = c2.set("supportsReasoningEffort"@, f);
    lemma_str_wf("max_tokens"@);
    lemma_set_wf(c, "maxTokensField"@, v1);
    lemma_set_wf(c1, "supportsDeveloperRole"@, f);
    lemma_set_wf(c2, "supportsReasoningEffort"@, f);
    lemma_set_wf(c3, "supportsStore"@, f);
    assert forall|k: Seq<char>| #[trigger] compat_fields(c).get(k) == compat_value(k, c) by {
        lemma_set_get(c, "maxTokensField"@, v1, k);
        lemma_set_get(c1, "supportsDeveloperRole"@, f, k);
        lemma_set_get(c2, "supportsReasoningEffort"@, f, k);
        lemma_set_get(c3, "supportsStore"@, f, k);
    }
}

proof fn lemma_compat_fields_present(c: JsonV)
    requires
        c.wf(),
        c is Object,
        c.get("maxTokensField"@) == Some(JsonV::Str("max_tokens"@)),
        c.get("supportsDeveloperRole"@) == Some(JsonV::Bool(false)),
        c.get("supportsReasoningEffort"@) == Some(JsonV::Bool(false)),
        c.get("supportsStore"@) == Some(JsonV::Bool(false)),
    ensures
        compat_fields(c) == c,
{
    lemma_set_present(c, "maxTokensField"@, JsonV::Str("max_tokens"@));
    lemma_set_present(c, "supportsDeveloperRole"@, JsonV::Bool(false));
    lemma_set_present(c, "supportsReasoningEffort"@, JsonV::Bool(false));
    lemma_set_present(c, "supportsStore"@, JsonV::Bool(false));
}

/// The values that `provider_fields` sets.
pub open spec fn provider_value(k: Seq<char>, endpoint: Seq<char>, api_key: Seq<char>, p: JsonV) -> Option<
    JsonV,
> {
    if k == "api"@ {
        Some(JsonV::Str(openai_api()))
    } else if k == "apiKey"@ {
        Some(JsonV::Str(api_key))
    } else if k == "baseUrl"@ {
        Some(JsonV::Str(endpoint))
    } else {
        p.get(k)
    }
}

proof fn lemma_provider_fields(p: JsonV, endpoint: Seq<char>, api_key: Seq<char>)
    requires
        p.wf(),
        p is Object,
    ensures
        provider_fields(p, endpoint, api_key).wf(),
        provider_fields(p, endpoint, api_key) is Object,
        forall|k: Seq<char>| #[trigger] provider_fields(p, endpoint, api_key).get(k)
            == provider_value(k, endpoint, api_key, p),
{
    let v1 = JsonV::Str(endpoint);
    let v2 = JsonV::Str(api_key);
    let v3 = JsonV::Str(openai_api());
    let p1 = p.set("baseUrl"@, v1);
    let p2 = p1.set("apiKey"@, v2);
    lemma_str_wf(endpoint);
    lemma_str_wf(api_key);
    lemma_str_wf(openai_api());
    lemma_set_wf(p, "baseUrl"@, v1);
    lemma_set_wf(p1, "apiKey"@, v2);
    lemma_set_wf(p2, "api"@, v3);
    assert forall|k: Seq<char>| #[trigger] provider_fields(p, endpoint, api_key).get(k)
        == provider_value(k, endpoint, api_key, p) by {
        lemma_set_get(p, "baseUrl"@, v1, k);
        lemma_set_get(p1, "apiKey"@, v2, k);
        lemma_set_get(p2, "api"@, v3, k);
    }
}

proof fn lemma_provider_fields_present(p: JsonV, endpoint: Seq<char>, api_key: Seq<char>)
    requires
        p.wf(),
        p is Object,
        p.get("baseUrl"@) == Some(JsonV::Str(endpoint)),
        p.get("apiKey"@) == Some(JsonV::Str(api_key)),
        p.get("api"@) == Some(JsonV::Str(openai_api())),
    ensures
        provider_fields(p, endpoint, api_key) == p,
{
    lemma_set_present(p, "baseUrl"@, JsonV::Str(endpoint));
    lemma_set_present(p, "apiKey"@, JsonV::Str(api_key));
    lemma_set_present(p, "api"@, JsonV::Str(openai_api()));
}

// ---------------------------------------------------------------------------
// Counting entries
proof fn lemma_count_none(ms: Seq<JsonV>, id: Seq<char>)
    ensures
        count_id(ms, id) == 0 <==> forall|i: int| 0 <= i < ms.len() ==> !entry_id_is(#[trigger] ms[i], id),
    decreases ms.len(),
{
    if ms.len() > 0 {
        let t = ms.drop_last();
        lemma_count_none(t, id);
        if count_id(ms, id) == 0 {
            assert forall|i: int| 0 <= i < ms.len() implies !entry_id_is(#[trigger] ms[i], id) by {
                if i < ms.len() - 1 {
                    assert(t[i] == ms[i]);
                }
            }
        } else {
            if count_id(t, id) != 0 {
                let i = choose|i: int| 0 <= i < t.len() && entry_id_is(#[trigger] t[i], id);
                assert(ms[i] == t[i]);
            }
        }
    }
}

/// Exactly one entry carries `id`: the one at `j`.
pub open spec fn only_match(ms: Seq<JsonV>, id: Seq<char>, j: int) -> bool {
    0 <= j < ms.len() && entry_id_is(ms[j], id) && forall|i: int|
        0 <= i < ms.len() && entry_id_is(#[trigger] ms[i], id) ==> i == j
}

proof fn lemma_count_one(ms: Seq<JsonV>, id: Seq<char>, j: int)
    requires
        0 <= j < ms.len(),
        entry_id_is(ms[j], id),
    ensures
        count_id(ms, id) == 1 <==> only_match(ms, id, j),
    decreases ms.len(),
{
    let t = ms.drop_last();
    let n = ms.len() - 1;
    if j == n {
        lemma_count_none(t, id);
        if count_id(ms, id) == 1 {
            assert forall|i: int| 0 <= i < ms.len() && entry_id_is(#[trigger] ms[i], id) implies i
                == j by {
                if i < n {
                    assert(t[i] == ms[i]);
                }
            }
        }
        if only_match(ms, id, j) {
            assert forall|i: int| 0 <= i < t.len() implies !entry_id_is(#[trigger] t[i], id) by {
                assert(t[i] == ms[i]);
            }
        }
    } else {
        assert(t[j] == ms[j]);
        lemma_count_one(t, id, j);
        if count_id(ms, id) == 1 {
            if entry_id_is(ms[n], id) {
                lemma_count_none(t, id);
                assert(!entry_id_is(t[j], id));
            }
            assert forall|i: int| 0 <= i < ms.len() && entry_id_is(#[trigger] ms[i], id) implies i
                == j by {
                if i < n {
                    assert(t[i] == ms[i]);
                }
            }
        }
        if only_match(ms, id, j) {
            assert forall|i: int| 0 <= i < t.len() && entry_id_is(#[trigger] t[i], id) implies i
                == j by {
                assert(t[i] == ms[i]);
            }
        }
    }
}

proof fn lemma_count_one_index(ms: Seq<JsonV>, id: Seq<char>)
    requires
        count_id(ms, id) == 1,
    ensures
        only_match(ms, id, match_index(ms, id)),
{
    lemma_count_none(ms, id);
    let i = choose|i: int| 0 <= i < ms.len() && entry_id_is(#[trigger] ms[i], id);
    lemma_count_one(ms, id, i);
}


// ---------------------------------------------------------------------------
// Repeating the merge
/// Merging the private model into a models document a second time changes
/// nothing: repeating the same setup leaves the clients' files as they are.
pub proof fn law_merge_models_idempotent(
    doc: JsonV,
    api_key: Seq<char>,
    id: Seq<char>,
    endpoint: Seq<char>,
)
    requires
        doc.wf(),
        merge_models_spec(doc, api_key, id, endpoint) is Ok,
    ensures
        merge_models_spec(doc, api_key, id, endpoint)->Ok_0.wf(),
        merge_models_spec(merge_models_spec(doc, api_key, id, endpoint)->Ok_0, api_key, id, endpoint)
            == merge_models_spec(doc, api_key, id, endpoint),
{
    lemma_literals();
    lemma_distinct_keys();
    let providers = doc.get_or_empty("providers"@);
    let provider = providers.get_or_empty(PROVIDER@);
    lemma_get_wf(doc, "providers"@);
    lemma_get_wf(providers, PROVIDER@);
    let provider1 = provider_fields(provider, endpoint, api_key);
    lemma_provider_fields(provider, endpoint, api_key);
    let models = models_of(provider1);
    lemma_get_wf(provider1, "models"@);
    assert(models.wf());
    let ms = models->Array_0;
    let found = count_id(ms, id) == 1;
    let j = if found {
        match_index(ms, id)
    } else {
        ms.len() as int
    };
    if found {
        lemma_count_one_index(ms, id);
    } else {
        lemma_count_none(ms, id);
    }
    let base = if found {
        ms[j]
    } else {
        JsonV::Object(seq![])
    };
    if found {
        assert(entry_has_id(ms[j]));
        assert(base.wf());
    }
    let model1 = model_fields(base, id);
    lemma_model_fields(base, id);
    let compat = model1.get_or_empty("compat"@);
    lemma_get_wf(model1, "compat"@);
    let compat1 = compat_fields(compat);
    lemma_compat_fields(compat);
    let model2 = model1.set("compat"@, compat1);
    lemma_set_wf(model1, "compat"@, compat1);
    let ms2 = if found {
        ms.update(j, model2)
    } else {
        ms.push(model2)
    };
    crate::json::lemma_array_update_wf(models, j, model2, !found);
    let provider2 = provider1.set("models"@, JsonV::Array(ms2));
    lemma_set_wf(provider1, "models"@, JsonV::Array(ms2));
    let providers2 = providers.set(PROVIDER@, provider2);
    lemma_set_wf(providers, PROVIDER@, provider2);
    let doc1 = doc.set("providers"@, providers2);
    lemma_set_wf(doc, "providers"@, providers2);
    assert(merge_models_spec(doc, api_key, id, endpoint) == Ok::<JsonV, ConfigError>(doc1));
    // the second merge finds what the first one wrote
    lemma_set_get(doc, "providers"@, providers2, "providers"@);
    lemma_set_get(providers, PROVIDER@, provider2, PROVIDER@);
    lemma_set_get(provider1, "models"@, JsonV::Array(ms2), "models"@);
    lemma_set_get(provider1, "models"@, JsonV::Array(ms2), "baseUrl"@);
    lemma_set_get(provider1, "models"@, JsonV::Array(ms2), "apiKey"@);
    lemma_set_get(provider1, "models"@, JsonV::Array(ms2), "api"@);
    assert(provider1.get("baseUrl"@) == provider_value("baseUrl"@, endpoint, api_key, provider));
    assert(provider1.get("apiKey"@) == provider_value("apiKey"@, endpoint, api_key, provider));
    assert(provider1.get("api"@) == provider_value("api"@, endpoint, api_key, provider));
    lemma_provider_fields_present(provider2, endpoint, api_key);
    assert(doc1.get_or_empty("providers"@) == providers2);
    assert(providers2.get_or_empty(PROVIDER@) == provider2);
    assert(models_of(provider2) == JsonV::Array(ms2));
    // the entry for the model is the only one carrying its identifier
    lemma_set_get(model1, "compat"@, compat1, "id"@);
    assert(model1.get("id"@) == model_value("id"@, id, base));
    assert(entry_id_is(model2, id));
    assert(ms2[j] == model2);
    assert forall|i: int| 0 <= i < ms2.len() implies entry_has_id(#[trigger] ms2[i]) by {
        if i != j {
            assert(ms2[i] == ms[i]);
        }
    }
    assert forall|i: int| 0 <= i < ms2.len() && entry_id_is(#[trigger] ms2[i], id) implies i == j by {
        if i != j {
            assert(ms2[i] == ms[i]);
        }
    }
    lemma_count_one(ms2, id, j);
    lemma_count_one_index(ms2, id);
    assert(match_index(ms2, id) == j);
    // every field the merge sets already holds its value
    assert forall|k: Seq<char>|
        #![trigger model2.get(k)]
        k == "api"@ || k == "contextWindow"@ || k == "cost"@ || k == "id"@ || k == "input"@ || k
            == "maxTokens"@ || k == "name"@ || k == "reasoning"@ implies model2.get(k)
        == model_value(k, id, model2) by {
        lemma_set_get(model1, "compat"@, compat1, k);
        assert(model1.get(k) == model_value(k, id, base));
    }
    lemma_model_fields_present(model2, id);
    lemma_set_get(model1, "compat"@, compat1, "compat"@);
    assert(model2.get_or_empty("compat"@) == compat1);
    assert(compat1.get("maxTokensField"@) == compat_value("maxTokensField"@, compat));
    assert(compat1.get("supportsDeveloperRole"@) == compat_value("supportsDeveloperRole"@, compat));
    assert(compat1.get("supportsReasoningEffort"@) == compat_value(
        "supportsReasoningEffort"@,
        compat,
    ));
    assert(compat1.get("supportsStore"@) == compat_value("supportsStore"@, compat));
    lemma_compat_fields_present(compat1);
    lemma_set_present(model2, "compat"@, compat1);
    assert(ms2.update(j, model2) =~= ms2);
    lemma_set_present(provider2, "models"@, JsonV::Array(ms2));
    lemma_set_present(providers2, PROVIDER@, provider2);
    lemma_set_present(doc1, "providers"@, providers2);
}


/// Making the model Pi's default a second time changes nothing.
pub proof fn law_settings_idempotent(doc: JsonV, id: Seq<char>)
    requires
        doc.wf(),
        settings_spec(doc, id) is Ok,
    ensures
        settings_spec(doc, id)->Ok_0.wf(),
        settings_spec(settings_spec(doc, id)->Ok_0, id) == settings_spec(doc, id),
{
    lemma_literals();
    let v1 = JsonV::Str(PROVIDER@);
    let v2 = JsonV::Str(id);
    let d1 = doc.set("defaultProvider"@, v1);
    let d2 = d1.set("defaultModel"@, v2);
    lemma_set_wf(doc, "defaultProvider"@, v1);
    lemma_set_wf(d1, "defaultModel"@, v2);
    lemma_set_get(d1, "defaultModel"@, v2, "defaultModel"@);
    lemma_set_get(d1, "defaultModel"@, v2, "defaultProvider"@);
    lemma_set_get(doc, "defaultProvider"@, v1, "defaultProvider"@);
    lemma_set_present(d2, "defaultProvider"@, v1);
    lemma_set_present(d2, "defaultModel"@, v2);
}

/// Making the model OMP's default role a second time changes nothing.
pub proof fn law_roles_idempotent(doc: JsonV, id: Seq<char>)
    requires
        doc.wf(),
        roles_spec(doc, id) is Ok,
    ensures
        roles_spec(doc, id)->Ok_0.wf(),
        roles_spec(roles_spec(doc, id)->Ok_0, id) == roles_spec(doc, id),
{
    let roles = doc.get_or_empty("modelRoles"@);
    lemma_get_wf(doc, "modelRoles"@);
    let v = JsonV::Str(default_role(id));
    let roles1 = roles.set("default"@, v);
    lemma_set_wf(roles, "default"@, v);
    let d1 = doc.set("modelRoles"@, roles1);
    lemma_set_wf(doc, "modelRoles"@, roles1);
    lemma_set_get(doc, "modelRoles"@, roles1, "modelRoles"@);
    lemma_set_get(roles, "default"@, v, "default"@);
    lemma_set_present(roles1, "default"@, v);
    lemma_set_present(d1, "modelRoles"@, roles1);
}

/// Configuring the clients a second time with the same configuration changes
/// none of the four documents: repeating the same setup is idempotent.
pub proof fn law_configure_idempotent(config: ModelConfig, docs: ClientDocumentsV)
    requires
        docs.wf(),
        configure_spec(config, docs) is Ok,
    ensures
        configure_spec(config, docs)->Ok_0.wf(),
        configure_spec(config, configure_spec(config, docs)->Ok_0) == configure_spec(config, docs),
{
    let ep = crate::config::config_base_url(config)->Ok_0;
    let key = config.api_key@;
    let id = config.model_id@;
    law_merge_models_idempotent(docs.pi_models, key, id, ep);
    law_settings_idempotent(docs.pi_settings, id);
    law_merge_models_idempotent(docs.omp_models, key, id, ep);
    law_roles_idempotent(docs.omp_config, id);
}

// ---------------------------------------------------------------------------
// What the merge leaves alone
/// The private provider's entry of a models document.
pub open spec fn provider_of(doc: JsonV) -> JsonV {
    doc.get_or_empty("providers"@).get_or_empty(PROVIDER@)
}

/// The private provider's model list.
pub open spec fn models_list(doc: JsonV) -> Seq<JsonV> {
    models_of(provider_of(doc))->Array_0
}

/// The merge keeps every other top-level field, every other provider, the
/// private provider's other fields, every other model entry, and the other
/// fields and compatibility options of the model's own entry.
pub proof fn law_merge_models_preserves(
    doc: JsonV,
    api_key: Seq<char>,
    id: Seq<char>,
    endpoint: Seq<char>,
)
    requires
        doc.wf(),
        merge_models_spec(doc, api_key, id, endpoint) is Ok,
    ensures
        ({
            let d1 = merge_models_spec(doc, api_key, id, endpoint)->Ok_0;
            let ms = models_list(doc);
            let ms2 = models_list(d1);
            &&& forall|k: Seq<char>| k != "providers"@ ==> #[trigger] d1.get(k) == doc.get(k)
            &&& forall|p: Seq<char>|
                p != PROVIDER@ ==> #[trigger] d1.get_or_empty("providers"@).get(p)
                    == doc.get_or_empty("providers"@).get(p)
            &&& forall|k: Seq<char>|
                k != "baseUrl"@ && k != "apiKey"@ && k != "api"@ && k != "models"@
                    ==> #[trigger] provider_of(d1).get(k) == provider_of(doc).get(k)
            &&& ms.len() <= ms2.len()
            &&& forall|i: int|
                0 <= i < ms.len() && !entry_id_is(ms[i], id) ==> #[trigger] ms2[i] == ms[i]
            &&& forall|i: int, k: Seq<char>|
                0 <= i < ms.len() && entry_id_is(ms[i], id) && !is_model_field(k) && k != "compat"@ ==> #[trigger] ms2[i].get(k)
                    == #[trigger] ms[i].get(k)
            &&& forall|i: int, k: Seq<char>|
                0 <= i < ms.len() && entry_id_is(ms[i], id) && !is_compat_field(k) ==> #[trigger] ms2[i].get_or_empty("compat"@).get(k)
                    == #[trigger] ms[i].get_or_empty("compat"@).get(k)
        }),
{
    lemma_literals();
    lemma_distinct_keys();
    let providers = doc.get_or_empty("providers"@);
    let provider = providers.get_or_empty(PROVIDER@);
    lemma_get_wf(doc, "providers"@);
    lemma_get_wf(providers, PROVIDER@);
    let provider1 = provider_fields(provider, endpoint, api_key);
    lemma_provider_fields(provider, endpoint, api_key);
    let models = models_of(provider1);
    lemma_get_wf(provider1, "models"@);
    let ms = models->Array_0;
    let found = count_id(ms, id) == 1;
    let j = if found {
        match_index(ms, id)
    } else {
        ms.len() as int
    };
    if found {
        lemma_count_one_index(ms, id);
    } else {
        lemma_count_none(ms, id);
    }
    let base = if found {
        ms[j]
    } else {
        JsonV::Object(seq![])
    };
    let model1 = model_fields(base, id);
    lemma_model_fields(base, id);
    let compat = model1.get_or_empty("compat"@);
    lemma_get_wf(model1, "compat"@);
    let compat1 = compat_fields(compat);
    lemma_compat_fields(compat);
    let model2 = model1.set("compat"@, compat1);
    let ms2 = if found {
        ms.update(j, model2)
    } else {
        ms.push(model2)
    };
    let provider2 = provider1.set("models"@, JsonV::Array(ms2));
    let providers2 = providers.set(PROVIDER@, provider2);
    let d1 = doc.set("providers"@, providers2);
    assert(merge_models_spec(doc, api_key, id, endpoint)->Ok_0 == d1);
    assert forall|k: Seq<char>| k != "providers"@ implies #[trigger] d1.get(k) == doc.get(k) by {
        lemma_set_get(doc, "providers"@, providers2, k);
    }
    lemma_set_get(doc, "providers"@, providers2, "providers"@);
    assert(d1.get_or_empty("providers"@) == providers2);
    assert forall|p: Seq<char>| p != PROVIDER@ implies #[trigger] d1.get_or_empty("providers"@).get(p)
        == doc.get_or_empty("providers"@).get(p) by {
        lemma_set_get(providers, PROVIDER@, provider2, p);
    }
    lemma_set_get(providers, PROVIDER@, provider2, PROVIDER@);
    assert(provider_of(d1) == provider2);
    assert(provider_of(doc) == provider);
    assert forall|k: Seq<char>|
        k != "baseUrl"@ && k != "apiKey"@ && k != "api"@ && k != "models"@ implies #[trigger] provider_of(
        d1,
    ).get(k) == provider_of(doc).get(k) by {
        lemma_set_get(provider1, "models"@, JsonV::Array(ms2), k);
        assert(provider1.get(k) == provider_value(k, endpoint, api_key, provider));
    }
    lemma_set_get(provider1, "models"@, JsonV::Array(ms2), "models"@);
    assert(models_list(d1) == ms2);
    assert(models_of(provider) == models);
    assert(models_list(doc) == ms);
    assert forall|i: int| 0 <= i < ms.len() && !entry_id_is(ms[i], id) implies #[trigger] ms2[i]
        == ms[i] by {
        if found {
            assert(i != j);
        }
    }
    assert forall|i: int, k: Seq<char>|
        0 <= i < ms.len() && entry_id_is(ms[i], id) && !is_model_field(k) && k != "compat"@ implies #[trigger] ms2[i].get(k)
        == #[trigger] ms[i].get(k) by {
        assert(found && i == j);
        assert(ms2[i] == model2);
        assert(ms[i] == base);
        lemma_set_get(model1, "compat"@, compat1, k);
        assert(model1.get(k) == model_value(k, id, base));
    }
    assert forall|i: int, k: Seq<char>|
        0 <= i < ms.len() && entry_id_is(ms[i], id) && !is_compat_field(k) implies #[trigger] ms2[i].get_or_empty("compat"@).get(k)
        == #[trigger] ms[i].get_or_empty("compat"@).get(k) by {
        assert(found && i == j);
        assert(ms2[i] == model2);
        assert(ms[i] == base);
        lemma_set_get(model1, "compat"@, compat1, "compat"@);
        assert(model2.get_or_empty("compat"@) == compat1);
        assert(model1.get("compat"@) == model_value("compat"@, id, base));
        assert(compat1.get(k) == compat_value(k, compat));
    }
}


// ---------------------------------------------------------------------------
// Backups
proof fn lemma_decimal_value(n: nat)
    ensures
        is_digits(decimal(n)),
        digits_value(decimal(n)) == n,
    decreases n,
{
    if n < 10 {
        let d = decimal(n);
        assert(d.drop_last() =~= Seq::<char>::empty());
        assert(d.last() == digit_char(n));
        assert((digit_char(n) as int) == n + 48);
        assert(digits_value(d.drop_last()) == 0);
        assert(digits_value(d) == digits_value(d.drop_last()) * 10 + ((d.last() as int) - 48));
    } else {
        lemma_decimal_value(n / 10);
        let d = decimal(n);
        assert(d.drop_last() =~= decimal(n / 10));
        assert(d.last() == digit_char(n % 10));
        assert((digit_char(n % 10) as int) == n % 10 + 48);
        assert(digits_value(d) == digits_value(d.drop_last()) * 10 + ((d.last() as int) - 48));
        assert((n / 10) * 10 + n % 10 == n);
        assert forall|i: int| 0 <= i < d.len() implies is_digit(#[trigger] d[i]) by {
            if i < d.len() - 1 {
                assert(d[i] == decimal(n / 10)[i]);
            }
        }
    }
}

/// Different backup numbers give different backup names, so numbered
/// backups never overwrite one another.
pub proof fn law_backup_suffixes_distinct(n: nat, m: nat)
    requires
        n != m,
    ensures
        backup_suffix_spec(n) != backup_suffix_spec(m),
{
    reveal_strlit(".bak");
    reveal_strlit(".bak.");
    lemma_decimal_value(n);
    lemma_decimal_value(m);
    if n != 0 && m != 0 {
        if backup_suffix_spec(n) == backup_suffix_spec(m) {
            assert(backup_suffix_spec(n).skip(5) =~= decimal(n));
            assert(backup_suffix_spec(m).skip(5) =~= decimal(m));
        }
    } else if n == 0 {
        assert(backup_suffix_spec(n).len() == 4);
        assert(backup_suffix_spec(m).len() >= 6);
    } else {
        assert(backup_suffix_spec(m).len() == 4);
        assert(backup_suffix_spec(n).len() >= 6);
    }
}


/// Making the model Pi's default keeps every other setting.
pub proof fn law_settings_preserves(doc: JsonV, id: Seq<char>)
    requires
        settings_spec(doc, id) is Ok,
    ensures
        forall|k: Seq<char>|
            k != "defaultProvider"@ && k != "defaultModel"@ ==> #[trigger] settings_spec(
                doc,
                id,
            )->Ok_0.get(k) == doc.get(k),
        settings_spec(doc, id)->Ok_0.get("defaultModel"@) == Some(JsonV::Str(id)),
        settings_spec(doc, id)->Ok_0.get("defaultProvider"@) == Some(JsonV::Str(PROVIDER@)),
{
    lemma_literals();
    let v1 = JsonV::Str(PROVIDER@);
    let d1 = doc.set("defaultProvider"@, v1);
    assert forall|k: Seq<char>| k != "defaultProvider"@ && k != "defaultModel"@ implies #[trigger] settings_spec(
        doc,
        id,
    )->Ok_0.get(k) == doc.get(k) by {
        lemma_set_get(doc, "defaultProvider"@, v1, k);
        lemma_set_get(d1, "defaultModel"@, JsonV::Str(id), k);
    }
    lemma_set_get(doc, "defaultProvider"@, v1, "defaultProvider"@);
    lemma_set_get(d1, "defaultModel"@, JsonV::Str(id), "defaultProvider"@);
    lemma_set_get(d1, "defaultModel"@, JsonV::Str(id), "defaultModel"@);
}

/// Making the model OMP's default role keeps every other field and every
/// other role.
pub proof fn law_roles_preserves(doc: JsonV, id: Seq<char>)
    requires
        roles_spec(doc, id) is Ok,
    ensures
        forall|k: Seq<char>|
            k != "modelRoles"@ ==> #[trigger] roles_spec(doc, id)->Ok_0.get(k) == doc.get(k),
        forall|r: Seq<char>|
            r != "default"@ ==> #[trigger] roles_spec(doc, id)->Ok_0.get_or_empty(
                "modelRoles"@,
            ).get(r) == doc.get_or_empty("modelRoles"@).get(r),
        roles_spec(doc, id)->Ok_0.get_or_empty("modelRoles"@).get("default"@) == Some(
            JsonV::Str(default_role(id)),
        ),
{
    let roles = doc.get_or_empty("modelRoles"@);
    let v = JsonV::Str(default_role(id));
    let roles1 = roles.set("default"@, v);
    assert forall|k: Seq<char>| k != "modelRoles"@ implies #[trigger] roles_spec(doc, id)->Ok_0.get(k)
        == doc.get(k) by {
        lemma_set_get(doc, "modelRoles"@, roles1, k);
    }
    lemma_set_get(doc, "modelRoles"@, roles1, "modelRoles"@);
    assert forall|r: Seq<char>| r != "default"@ implies #[trigger] roles_spec(doc, id)->Ok_0.get_or_empty(
        "modelRoles"@,
    ).get(r) == doc.get_or_empty("modelRoles"@).get(r) by {
        lemma_set_get(roles, "default"@, v, r);
    }
    lemma_set_get(roles, "default"@, v, "default"@);
}

/// The base64 text that sealing puts in an envelope (salt, nonce and
/// ciphertext, whose lengths `seal` states) is at most 43752 characters for
/// any configuration that sealing accepts, which leaves more than 21 KiB of a
/// 64 KiB bundle for the JSON around it.
pub proof fn law_sealed_text_fits(n: nat)
    requires
        n <= crate::vault::MAX_PLAINTEXT_BYTES,
    ensures
        24 + 16 + 4 * ((n + crate::vault::TAG_LEN + 2) / 3) <= 43752,
        43752 + 21 * 1024 <= crate::vault::MAX_BUNDLE_BYTES,
{
}


// ---------------------------------------------------------------------------
// What the merge writes
/// A cost object with exactly the members `input`, `output`, `cacheRead` and
/// `cacheWrite`, each the number 0.
pub open spec fn zero_cost(c: JsonV) -> bool {
    &&& c is Object
    &&& forall|k: Seq<char>|
        #[trigger] c.get(k) == if k == "input"@ || k == "output"@ || k == "cacheRead"@ || k
            == "cacheWrite"@ {
            Some(JsonV::Number("0"@))
        } else {
            None
        }
}

/// The private model's entry: identifier and name `id`, the OpenAI
/// completions API, reasoning, text input, a 200000-token context window,
/// 32768 output tokens, zero cost, and the compatibility options that turn
/// off reasoning effort, the developer role and `store`, with output capped
/// through `max_tokens`.
pub open spec fn private_model_entry(m: JsonV, id: Seq<char>) -> bool {
    &&& m is Object
    &&& m.get("id"@) == Some(JsonV::Str(id))
    &&& m.get("name"@) == Some(JsonV::Str(id))
    &&& m.get("api"@) == Some(JsonV::Str("openai-completions"@))
    &&& m.get("reasoning"@) == Some(JsonV::Bool(true))
    &&& m.get("input"@) == Some(JsonV::Array(seq![JsonV::Str("text"@)]))
    &&& m.get("contextWindow"@) == Some(JsonV::Number("200000"@))
    &&& m.get("maxTokens"@) == Some(JsonV::Number("32768"@))
    &&& m.get("cost"@) matches Some(c) && zero_cost(c)
    &&& m.get_or_empty("compat"@).get("supportsReasoningEffort"@) == Some(JsonV::Bool(false))
    &&& m.get_or_empty("compat"@).get("supportsDeveloperRole"@) == Some(JsonV::Bool(false))
    &&& m.get_or_empty("compat"@).get("supportsStore"@) == Some(JsonV::Bool(false))
    &&& m.get_or_empty("compat"@).get("maxTokensField"@) == Some(JsonV::Str("max_tokens"@))
}

proof fn lemma_zero_cost()
    ensures
        zero_cost(cost_object()),
{
    let z = JsonV::Number("0"@);
    let c0 = JsonV::Object(seq![]);
    let c1 = c0.set("cacheRead"@, z);
    let c2 = c1.set("cacheWrite"@, z);
    let c3 = c2.set("input"@, z);
    assert forall|k: Seq<char>|
        #[trigger] cost_object().get(k) == if k == "input"@ || k == "output"@ || k == "cacheRead"@
            || k == "cacheWrite"@ {
            Some(z)
        } else {
            None
        } by {
        lemma_set_get(c0, "cacheRead"@, z, k);
        lemma_set_get(c1, "cacheWrite"@, z, k);
        lemma_set_get(c2, "input"@, z, k);
        lemma_set_get(c3, "output"@, z, k);
    }
}

/// Merging the private model into a models document gives the private
/// provider the endpoint, the API key and the OpenAI completions API, and
/// leaves in its model list an entry for `id` with all the private model's
/// fields (see `private_model_entry`), its cost exactly zero.
pub proof fn law_merge_models_sets(doc: JsonV, api_key: Seq<char>, id: Seq<char>, endpoint: Seq<char>)
    requires
        doc.wf(),
        merge_models_spec(doc, api_key, id, endpoint) is Ok,
    ensures
        ({
            let d1 = merge_models_spec(doc, api_key, id, endpoint)->Ok_0;
            let ms2 = models_list(d1);
            &&& provider_of(d1).get("baseUrl"@) == Some(JsonV::Str(endpoint))
            &&& provider_of(d1).get("apiKey"@) == Some(JsonV::Str(api_key))
            &&& provider_of(d1).get("api"@) == Some(JsonV::Str("openai-completions"@))
            &&& exists|i: int| 0 <= i < ms2.len() && private_model_entry(#[trigger] ms2[i], id)
        }),
{
    lemma_literals();
    lemma_distinct_keys();
    lemma_zero_cost();
    reveal_strlit("openai-completions");
    let providers = doc.get_or_empty("providers"@);
    let provider = providers.get_or_empty(PROVIDER@);
    lemma_get_wf(doc, "providers"@);
    lemma_get_wf(providers, PROVIDER@);
    let provider1 = provider_fields(provider, endpoint, api_key);
    lemma_provider_fields(provider, endpoint, api_key);
    let models = models_of(provider1);
    lemma_get_wf(provider1, "models"@);
    let ms = models->Array_0;
    let found = count_id(ms, id) == 1;
    let j = if found {
        match_index(ms, id)
    } else {
        ms.len() as int
    };
    if found {
        lemma_count_one_index(ms, id);
    } else {
        lemma_count_none(ms, id);
    }
    let base = if found {
        ms[j]
    } else {
        JsonV::Object(seq![])
    };
    let model1 = model_fields(base, id);
    lemma_model_fields(base, id);
    let compat = model1.get_or_empty("compat"@);
    lemma_get_wf(model1, "compat"@);
    let compat1 = compat_fields(compat);
    lemma_compat_fields(compat);
    let model2 = model1.set("compat"@, compat1);
    let ms2 = if found {
        ms.update(j, model2)
    } else {
        ms.push(model2)
    };
    let provider2 = provider1.set("models"@, JsonV::Array(ms2));
    let providers2 = providers.set(PROVIDER@, provider2);
    let d1 = doc.set("providers"@, providers2);
    assert(merge_models_spec(doc, api_key, id, endpoint)->Ok_0 == d1);
    lemma_set_get(doc, "providers"@, providers2, "providers"@);
    lemma_set_get(providers, PROVIDER@, provider2, PROVIDER@);
    assert(provider_of(d1) == provider2);
    lemma_set_get(provider1, "models"@, JsonV::Array(ms2), "models"@);
    lemma_set_get(provider1, "models"@, JsonV::Array(ms2), "baseUrl"@);
    lemma_set_get(provider1, "models"@, JsonV::Array(ms2), "apiKey"@);
    lemma_set_get(provider1, "models"@, JsonV::Array(ms2), "api"@);
    assert(provider1.get("baseUrl"@) == provider_value("baseUrl"@, endpoint, api_key, provider));
    assert(provider1.get("apiKey"@) == provider_value("apiKey"@, endpoint, api_key, provider));
    assert(provider1.get("api"@) == provider_value("api"@, endpoint, api_key, provider));
    assert(models_list(d1) == ms2);
    assert(ms2[j] == model2);
    lemma_set_get(model1, "compat"@, compat1, "id"@);
    lemma_set_get(model1, "compat"@, compat1, "name"@);
    lemma_set_get(model1, "compat"@, compat1, "api"@);
    lemma_set_get(model1, "compat"@, compat1, "reasoning"@);
    lemma_set_get(model1, "compat"@, compat1, "input"@);
    lemma_set_get(model1, "compat"@, compat1, "contextWindow"@);
    lemma_set_get(model1, "compat"@, compat1, "maxTokens"@);
    lemma_set_get(model1, "compat"@, compat1, "cost"@);
    lemma_set_get(model1, "compat"@, compat1, "compat"@);
    assert(model1.get("id"@) == model_value("id"@, id, base));
    assert(model1.get("name"@) == model_value("name"@, id, base));
    assert(model1.get("api"@) == model_value("api"@, id, base));
    assert(model1.get("reasoning"@) == model_value("reasoning"@, id, base));
    assert(model1.get("input"@) == model_value("input"@, id, base));
    assert(model1.get("contextWindow"@) == model_value("contextWindow"@, id, base));
    assert(model1.get("maxTokens"@) == model_value("maxTokens"@, id, base));
    assert(model1.get("cost"@) == model_value("cost"@, id, base));
    assert(model2.get_or_empty("compat"@) == compat1);
    assert(compat1.get("supportsReasoningEffort"@) == compat_value("supportsReasoningEffort"@, compat));
    assert(compat1.get("supportsDeveloperRole"@) == compat_value("supportsDeveloperRole"@, compat));
    assert(compat1.get("supportsStore"@) == compat_value("supportsStore"@, compat));
    assert(compat1.get("maxTokensField"@) == compat_value("maxTokensField"@, compat));
    assert(private_model_entry(ms2[j], id));
}

/// OMP's default role after the merge is `hotschmoe-local/` followed by the
/// model identifier, so two different identifiers give two different roles.
pub proof fn law_default_role_names_model(doc: JsonV, id: Seq<char>, doc2: JsonV, id2: Seq<char>)
    requires
        roles_spec(doc, id) is Ok,
        roles_spec(doc2, id2) is Ok,
    ensures
        roles_spec(doc, id)->Ok_0.get_or_empty("modelRoles"@).get("default"@) == Some(
            JsonV::Str("hotschmoe-local/"@ + id),
        ),
        id != id2 ==> roles_spec(doc, id)->Ok_0.get_or_empty("modelRoles"@).get("default"@)
            != roles_spec(doc2, id2)->Ok_0.get_or_empty("modelRoles"@).get("default"@),
{
    reveal_strlit("hotschmoe-local/");
    reveal_strlit("hotschmoe-local");
    reveal_strlit("/");
    law_roles_preserves(doc, id);
    law_roles_preserves(doc2, id2);
    assert(default_role(id) =~= "hotschmoe-local/"@ + id);
    assert(default_role(id2) =~= "hotschmoe-local/"@ + id2);
    if id != id2 {
        let a = "hotschmoe-local/"@ + id;
        let b = "hotschmoe-local/"@ + id2;
        assert(id =~= a.subrange(16, a.len() as int));
        assert(id2 =~= b.subrange(16, b.len() as int));
    }
}

/// After a successful configuration both clients name the private model as
/// their default (Pi: provider `hotschmoe-local` and model `id`; OMP: role
/// `hotschmoe-local/id`), and both models documents hold the private
/// provider with base URL the endpoint set to path `/v1`, the API key, and
/// the private model's entry.
pub proof fn law_configure_sets(config: ModelConfig, docs: ClientDocumentsV)
    requires
        docs.wf(),
        configure_spec(config, docs) is Ok,
    ensures
        ({
            let d = configure_spec(config, docs)->Ok_0;
            let id = config.model_id@;
            let url = rebased_url(config.endpoint@, "/v1"@);
            &&& url is Some
            &&& d.pi_settings.get("defaultProvider"@) == Some(JsonV::Str("hotschmoe-local"@))
            &&& d.pi_settings.get("defaultModel"@) == Some(JsonV::Str(id))
            &&& d.omp_config.get_or_empty("modelRoles"@).get("default"@) == Some(
                JsonV::Str("hotschmoe-local/"@ + id),
            )
            &&& provider_of(d.pi_models).get("baseUrl"@) == Some(JsonV::Str(url->0))
            &&& provider_of(d.omp_models).get("baseUrl"@) == Some(JsonV::Str(url->0))
            &&& provider_of(d.pi_models).get("apiKey"@) == Some(JsonV::Str(config.api_key@))
            &&& provider_of(d.omp_models).get("apiKey"@) == Some(JsonV::Str(config.api_key@))
            &&& exists|i: int|
                0 <= i < models_list(d.pi_models).len() && private_model_entry(
                    #[trigger] models_list(d.pi_models)[i],
                    id,
                )
            &&& exists|i: int|
                0 <= i < models_list(d.omp_models).len() && private_model_entry(
                    #[trigger] models_list(d.omp_models)[i],
                    id,
                )
        }),
{
    reveal_strlit("hotschmoe-local");
    let id = config.model_id@;
    let ep = config_base_url(config)->Ok_0;
    let d = configure_spec(config, docs)->Ok_0;
    law_merge_models_sets(docs.pi_models, config.api_key@, id, ep);
    law_merge_models_sets(docs.omp_models, config.api_key@, id, ep);
    law_settings_preserves(docs.pi_settings, id);
    law_default_role_names_model(docs.omp_config, id, docs.omp_config, id);
}

// ---------------------------------------------------------------------------
// Which model identifiers are accepted
/// A model identifier is accepted exactly when it is not empty and holds no
/// white space, no control character and none of `:` `*` `?` `>` `@`.
pub proof fn law_model_id_rule(m: Seq<char>)
    ensures
        model_id_ok(m) <==> (m.len() > 0 && forall|i: int|
            0 <= i < m.len() ==> !white_space(#[trigger] m[i]) && !control_char(m[i]) && m[i]
                != ':' && m[i] != '*' && m[i] != '?' && m[i] != '>' && m[i] != '@'),
{
}

/// A letter, digit, `.`, `-`, `_` or `/` in ASCII.
pub open spec fn plain_id_char(c: char) -> bool {
    let n = c as u32;
    ||| 0x61 <= n <= 0x7A
    ||| 0x41 <= n <= 0x5A
    ||| 0x30 <= n <= 0x39
    ||| n == 0x2E
    ||| n == 0x2D
    ||| n == 0x5F
    ||| n == 0x2F
}

/// Every non-empty identifier made of ASCII letters, digits, `.`, `-`, `_`
/// and `/` (such as `qwen2.5-coder-32b`) is accepted; the empty identifier,
/// and one holding `:` `*` `?` `>` `@`, a space, or a character below U+0020
/// or U+007F, is refused.
pub proof fn law_model_id_examples(m: Seq<char>, i: int)
    ensures
        m.len() > 0 && (forall|j: int| 0 <= j < m.len() ==> plain_id_char(#[trigger] m[j]))
            ==> model_id_ok(m),
        !model_id_ok(Seq::<char>::empty()),
        0 <= i < m.len() && (m[i] == ':' || m[i] == '*' || m[i] == '?' || m[i] == '>' || m[i] == '@'
            || m[i] == ' ' || (m[i] as u32) < 0x20 || (m[i] as u32) == 0x7F) ==> !model_id_ok(m),
{
    if m.len() > 0 && (forall|j: int| 0 <= j < m.len() ==> plain_id_char(#[trigger] m[j])) {
        assert forall|j: int| 0 <= j < m.len() implies !forbidden_in_model(#[trigger] m[j]) by {
            assert(plain_id_char(m[j]));
        }
    }
    if 0 <= i < m.len() {
        assert(m[i] == m[i]);
    }
}

// ---------------------------------------------------------------------------
// The bundle format
/// The associated data bound to every bundle is exactly the 22 ASCII bytes
/// of `pi-omp-setup/config/v1`.
pub proof fn law_bundle_associated_data()
    ensures
        aad_spec().len() == "pi-omp-setup/config/v1"@.len(),
        aad_spec().len() == 22,
        forall|i: int|
            0 <= i < 22 ==> #[trigger] aad_spec()[i] as int == "pi-omp-setup/config/v1"@[i] as int,
{
    reveal_strlit("pi-omp-setup/config/v1");
}

// ---------------------------------------------------------------------------
// Which OMP files are used
pub open spec fn omp_name(document: OmpDocument, yaml_extension: bool) -> Seq<char> {
    match (document, yaml_extension) {
        (OmpDocument::Models, false) => "models.yml"@,
        (OmpDocument::Models, true) => "models.yaml"@,
        (OmpDocument::Config, false) => "config.yml"@,
        (OmpDocument::Config, true) => "config.yaml"@,
    }
}

/// An existing `.yml` file of an OMP document is both read, as YAML, and
/// written; failing that an existing `.yaml` file is. Only where neither
/// exists is the document read from its older JSON file (`models.json` or
/// `settings.json`) and written to a new `.yml` file, and a configuration
/// whose settings still live in `agent.db` is then refused.
pub proof fn law_existing_omp_yaml_is_kept(
    document: OmpDocument,
    yml_exists: bool,
    yaml_exists: bool,
    agent_db_exists: bool,
)
    ensures
        ({
            let r = omp_source_spec(document, yml_exists, yaml_exists, agent_db_exists);
            &&& yml_exists ==> (r matches Ok(s) && s.source == s.target && s.yaml && s.target
                == omp_name(document, false))
            &&& !yml_exists && yaml_exists ==> (r matches Ok(s) && s.source == s.target && s.yaml
                && s.target == omp_name(document, true))
            &&& !yml_exists && !yaml_exists && document == OmpDocument::Config && agent_db_exists
                ==> r == Err::<DocumentSourceV, ConfigError>(ConfigError::LegacyDatabase)
            &&& !yml_exists && !yaml_exists && !(document == OmpDocument::Config && agent_db_exists)
                ==> (r matches Ok(s) && !s.yaml && s.target == omp_name(document, false) && s.source
                == if document == OmpDocument::Models {
                "models.json"@
            } else {
                "settings.json"@
            })
        }),
{
    reveal_strlit("models");
    reveal_strlit("config");
    reveal_strlit(".yml");
    reveal_strlit(".yaml");
    reveal_strlit("models.yml");
    reveal_strlit("models.yaml");
    reveal_strlit("config.yml");
    reveal_strlit("config.yaml");
    assert("models"@ + ".yml"@ =~= "models.yml"@);
    assert("models"@ + ".yaml"@ =~= "models.yaml"@);
    assert("config"@ + ".yml"@ =~= "config.yml"@);
    assert("config"@ + ".yaml"@ =~= "config.yaml"@);
}


// ---------------------------------------------------------------------------
// Which configurations are accepted
/// An API key is refused when it is blank, when its first character that is
/// not white space is `!` (a shell command), or when it holds a control
/// character.
pub open spec fn api_key_rule(k: Seq<char>) -> bool {
    &&& exists|i: int| 0 <= i < k.len() && !white_space(#[trigger] k[i])
    &&& forall|i: int|
        0 <= i < k.len() && #[trigger] k[i] == '!' ==> exists|j: int|
            0 <= j < i && !white_space(#[trigger] k[j])
    &&& forall|i: int| 0 <= i < k.len() ==> !control_char(#[trigger] k[i])
}

/// A configuration is accepted exactly when its endpoint parses as an
/// `https` URL with a host, no user name, password, query or fragment, and
/// path empty, `/`, `/v1` or `/v1/`; its API key passes `api_key_rule`;
/// and its model identifier passes `law_model_id_rule`. The first failing
/// check names the error, in that order, and the base URL written is the
/// endpoint with its path set to `/v1`.
pub proof fn law_validation_rule(config: ModelConfig)
    ensures
        ({
            let e = config.endpoint@;
            let k = config.api_key@;
            let m = config.model_id@;
            let r = config_base_url(config);
            &&& parsed_url(e) is None ==> r == Err::<Seq<char>, ConfigError>(ConfigError::InvalidEndpoint)
            &&& parsed_url(e) matches Some(p) ==> {
                let allowed = p.scheme == "https"@ && p.has_host && p.username.len() == 0
                    && !p.has_password && !p.has_query && !p.has_fragment && (p.path == ""@ || p.path
                    == "/"@ || p.path == "/v1"@ || p.path == "/v1/"@);
                &&& !allowed ==> r == Err::<Seq<char>, ConfigError>(ConfigError::EndpointNotAllowed)
                &&& allowed && !api_key_rule(k) ==> r == Err::<Seq<char>, ConfigError>(
                    ConfigError::InvalidApiKey,
                )
                &&& allowed && api_key_rule(k) && !model_id_ok(m) ==> r == Err::<
                    Seq<char>,
                    ConfigError,
                >(ConfigError::InvalidModelId)
                &&& allowed && api_key_rule(k) && model_id_ok(m) ==> (rebased_url(e, "/v1"@)
                    matches Some(u) ==> r == Ok::<Seq<char>, ConfigError>(u))
            }
        }),
{
    let k = config.api_key@;
    assert(api_key_ok(k) == api_key_rule(k)) by {
        if api_key_rule(k) {
            if first_visible_is(k, '!') {
                let i = choose|i: int|
                    0 <= i < k.len() && #[trigger] k[i] == '!' && !white_space('!') && forall|j: int|
                        0 <= j < i ==> white_space(#[trigger] k[j]);
                assert(k[i] == '!');
            }
            if all_white(k) {
                let i = choose|i: int| 0 <= i < k.len() && !white_space(#[trigger] k[i]);
                assert(white_space(k[i]));
            }
        }
        if api_key_ok(k) {
            if !(exists|i: int| 0 <= i < k.len() && !white_space(#[trigger] k[i])) {
                assert(all_white(k));
            }
            assert forall|i: int| 0 <= i < k.len() && #[trigger] k[i] == '!' implies exists|j: int|
                0 <= j < i && !white_space(#[trigger] k[j]) by {
                if !(exists|j: int| 0 <= j < i && !white_space(#[trigger] k[j])) {
                    assert(first_visible_is(k, '!'));
                }
            }
            assert forall|i: int| 0 <= i < k.len() implies !control_char(#[trigger] k[i]) by {
                if control_char(k[i]) {
                    assert(has_control(k));
                }
            }
        }
    }
    reveal_strlit("https");
    reveal_strlit("");
    reveal_strlit("/");
    reveal_strlit("/v1");
    reveal_strlit("/v1/");
}


// ---------------------------------------------------------------------------
// The bundle's fixed parameters
/// The key is Argon2id with 65536 KiB of memory, 3 passes and 1 lane,
/// 32 bytes long.
pub proof fn law_key_derivation_parameters(password: Seq<u8>, salt: Seq<u8>)
    ensures
        kdf_key(password, salt) == argon2id_output(65536, 3, 1, 32, password, salt),
{
}

/// Sealing refuses a configuration over 32768 bytes or an empty passphrase,
/// and otherwise writes format `pi-omp-setup-v1`, KDF `argon2id-v19` with
/// 65536 KiB, 3 passes and 1 lane, and the base64 salt and nonce.
pub proof fn law_seal_parameters(plaintext: Seq<u8>, password: Seq<u8>, salt: Seq<u8>, nonce: Seq<u8>)
    ensures
        plaintext.len() > 32768 || password.len() == 0 ==> seal_with_spec(plaintext, password, salt, nonce)
            == Err::<EnvelopeV, VaultError>(VaultError::InputRejected),
        seal_with_spec(plaintext, password, salt, nonce) matches Ok(e) ==> {
            &&& plaintext.len() <= 32768 && password.len() > 0
            &&& e.format == "pi-omp-setup-v1"@
            &&& e.kdf == "argon2id-v19"@
            &&& e.memory_kib == 65536 && e.iterations == 3 && e.parallelism == 1
            &&& e.salt == b64_encode(salt) && e.nonce == b64_encode(nonce)
        },
{
}

/// Opening refuses an empty passphrase first, then any envelope whose
/// format, KDF or KDF parameters differ from the fixed ones, before any
/// decoding or key derivation; an envelope that passes the checks has a
/// 16-byte salt, a 12-byte nonce and a ciphertext at least as long as the
/// 16-byte tag.
pub proof fn law_open_fixed_parameters(e: EnvelopeV, password: Seq<u8>)
    ensures
        password.len() == 0 ==> open_checks(e, password) == Err::<
            (Seq<u8>, Seq<u8>, Seq<u8>),
            VaultError,
        >(VaultError::BundleRejected),
        password.len() > 0 && !(e.format == "pi-omp-setup-v1"@ && e.kdf == "argon2id-v19"@
            && e.memory_kib == 65536 && e.iterations == 3 && e.parallelism == 1) ==> open_checks(
            e,
            password,
        ) == Err::<(Seq<u8>, Seq<u8>, Seq<u8>), VaultError>(VaultError::Unsupported),
        open_checks(e, password) matches Ok(t) ==> t.0.len() == 16 && t.1.len() == 12 && t.2.len()
            >= 16 && Some(t.0) == b64_decode(e.salt) && Some(t.1) == b64_decode(e.nonce) && Some(t.2)
            == b64_decode(e.ciphertext),
{
}

// ---------------------------------------------------------------------------
// Client files
/// A missing file reads as an empty object; JSON is written as
/// `serde_json`'s pretty text with one final line feed; YAML as
/// `serde_yaml_ng`'s text.
pub proof fn law_client_file_text(doc: JsonV, yaml: bool)
    ensures
        read_document_spec(None, yaml) == Ok::<JsonV, ConfigError>(JsonV::Object(seq![])),
        staged_text(doc, false) matches Some(t) && t.len() == json_pretty_text(doc).len() + 1 && t.last()
            == 10u8 && t.drop_last() == json_pretty_text(doc),
        staged_text(doc, true) == yaml_text(doc),
{
    let t = json_pretty_text(doc).push(10u8);
    assert(t.drop_last() =~= json_pretty_text(doc));
}

// ---------------------------------------------------------------------------
// Backups
/// Backup number 0 is the file's name with `.bak`; number `n > 0` adds
/// `.bak.` and the decimal digits of `n`.
pub proof fn law_backup_names(n: nat)
    ensures
        backup_suffix_spec(0) == ".bak"@,
        n > 0 ==> backup_suffix_spec(n).len() > 5 && backup_suffix_spec(n).take(5) == ".bak."@
            && is_digits(backup_suffix_spec(n).skip(5)) && digits_value(backup_suffix_spec(n).skip(5))
            == n,
{
    reveal_strlit(".bak.");
    if n > 0 {
        lemma_decimal_value(n);
        let s = backup_suffix_spec(n);
        assert(s.take(5) =~= ".bak."@);
        assert(s.skip(5) =~= decimal(n));
    }
}


// ---------------------------------------------------------------------------
// What the merge refuses
/// Merging refuses a document that is not an object, or whose `providers`
/// is not an object. A merge that succeeds started from a model list whose
/// entries are all objects with a string `id`, at most one of them the
/// configured identifier.
pub proof fn law_merge_models_refusals(doc: JsonV, api_key: Seq<char>, id: Seq<char>, endpoint: Seq<char>)
    requires
        doc.wf(),
    ensures
        !(doc is Object) ==> merge_models_spec(doc, api_key, id, endpoint) == Err::<JsonV, ConfigError>(
            ConfigError::FieldNotObject,
        ),
        doc is Object && (doc.get("providers"@) matches Some(p) && !(p is Object))
            ==> merge_models_spec(doc, api_key, id, endpoint) == Err::<JsonV, ConfigError>(
            ConfigError::FieldNotObject,
        ),
        merge_models_spec(doc, api_key, id, endpoint) is Ok ==> {
            let ms = models_list(doc);
            &&& forall|i: int|
                0 <= i < ms.len() ==> (#[trigger] ms[i]) is Object && (ms[i].get("id"@) matches Some(
                    JsonV::Str(_),
                ))
            &&& forall|i: int, j: int|
                0 <= i < ms.len() && 0 <= j < ms.len() && (#[trigger] ms[i]).get("id"@) == Some(
                    JsonV::Str(id),
                ) && (#[trigger] ms[j]).get("id"@) == Some(JsonV::Str(id)) ==> i == j
        },
{
    lemma_literals();
    lemma_distinct_keys();
    if merge_models_spec(doc, api_key, id, endpoint) is Ok {
        let providers = doc.get_or_empty("providers"@);
        let provider = providers.get_or_empty(PROVIDER@);
        lemma_get_wf(doc, "providers"@);
        lemma_get_wf(providers, PROVIDER@);
        let provider1 = provider_fields(provider, endpoint, api_key);
        lemma_provider_fields(provider, endpoint, api_key);
        assert(provider1.get("models"@) == provider_value("models"@, endpoint, api_key, provider));
        assert(models_of(provider1) == models_of(provider));
        let ms = models_of(provider1)->Array_0;
        assert(models_list(doc) == ms);
        assert(all_have_ids(ms));
        assert forall|i: int| 0 <= i < ms.len() implies (#[trigger] ms[i]) is Object && (
        ms[i].get("id"@) matches Some(JsonV::Str(_))) by {
            assert(entry_has_id(ms[i]));
        }
        if count_id(ms, id) == 1 {
            lemma_count_one_index(ms, id);
        } else {
            lemma_count_none(ms, id);
        }
        assert forall|i: int, j: int|
            0 <= i < ms.len() && 0 <= j < ms.len() && (#[trigger] ms[i]).get("id"@) == Some(
                JsonV::Str(id),
            ) && (#[trigger] ms[j]).get("id"@) == Some(JsonV::Str(id)) implies i == j by {
            assert(entry_id_is(ms[i], id));
            assert(entry_id_is(ms[j], id));
        }
    }
}


// ---------------------------------------------------------------------------
// Passphrases and the Windows account
/// A passphrase file's passphrase is its text up to a final run of carriage
/// returns and line feeds: a prefix of the text that does not end in either,
/// followed in the text only by those characters.
pub proof fn law_passphrase_file_text(t: Seq<char>)
    ensures
        ({
            let p = strip_line_ends(t);
            &&& p.len() <= t.len()
            &&& p == t.take(p.len() as int)
            &&& p.len() > 0 ==> p.last() != '\r' && p.last() != '\n'
            &&& forall|i: int| p.len() <= i < t.len() ==> #[trigger] t[i] == '\r' || t[i] == '\n'
        }),
    decreases t.len(),
{
    if t.len() > 0 && (t.last() == '\r' || t.last() == '\n') {
        let u = t.drop_last();
        law_passphrase_file_text(u);
        let p = strip_line_ends(u);
        assert(p == t.take(p.len() as int)) by {
            assert(u.take(p.len() as int) =~= t.take(p.len() as int));
        }
        assert forall|i: int| p.len() <= i < t.len() implies #[trigger] t[i] == '\r' || t[i] == '\n' by {
            if i < u.len() {
                assert(u[i] == t[i]);
            }
        }
    } else {
        assert(t == t.take(t.len() as int));
    }
}

/// A Windows security identifier is accepted exactly when it starts with
/// `S-1-` and holds only ASCII digits, `S` and `-`.
pub proof fn law_sid_rule(sid: Seq<char>)
    ensures
        valid_sid(sid) <==> (sid.len() >= 4 && sid[0] == 'S' && sid[1] == '-' && sid[2] == '1' && sid[3]
            == '-' && forall|i: int|
            0 <= i < sid.len() ==> (48 <= (#[trigger] sid[i]) as int <= 57 || sid[i] == 'S'
                || sid[i] == '-')),
{
    reveal_strlit("S-1-");
    if sid.len() >= 4 && sid[0] == 'S' && sid[1] == '-' && sid[2] == '1' && sid[3] == '-' {
        assert(sid.take(4) =~= "S-1-"@);
    }
    if sid.len() >= 4 && sid.take(4) == "S-1-"@ {
        assert(sid.take(4)[0] == sid[0] && sid.take(4)[1] == sid[1] && sid.take(4)[2] == sid[2]
            && sid.take(4)[3] == sid[3]);
    }
    assert((forall|i: int| 0 <= i < sid.len() ==> crate::access::is_sid_char(#[trigger] sid[i]))
        <==> (forall|i: int|
        0 <= i < sid.len() ==> (48 <= (#[trigger] sid[i]) as int <= 57 || sid[i] == 'S' || sid[i]
            == '-')));
}

/// At most 10000 backup names are tried.
pub proof fn law_backup_limit()
    ensures
        crate::client_files::MAX_BACKUPS == 10000,
{
}

} // verus!
