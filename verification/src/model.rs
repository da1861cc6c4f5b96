//! Model references of the form `pi/<provider>/<model-id>`, and the model
//! list that Pi reports.

use vstd::prelude::*;
use vstd::string::StrSliceExecFns;
use vstd::string::StringExecFns;
use crate::json::{Json, JsonView, view_items, lemma_view_items, view_opt};
use crate::levels::opt_text;
use crate::text::{chars_of, str_eq};

verus! {

/// `pi/`, the prefix of the model references that name a Pi model.
pub open spec fn pi_prefix() -> Seq<char> {
    seq!['p', 'i', '/']
}

/// The model reference for a provider and a model id.
pub open spec fn model_ref(provider: Seq<char>, model_id: Seq<char>) -> Seq<char> {
    pi_prefix() + provider + seq!['/'] + model_id
}

/// `s` is the reference of `model_id` at `provider`, both non-empty and the
/// provider free of `/`.
pub open spec fn is_model_ref(s: Seq<char>, provider: Seq<char>, model_id: Seq<char>) -> bool {
    &&& s == model_ref(provider, model_id)
    &&& provider.len() > 0
    &&& model_id.len() > 0
    &&& !provider.contains('/')
}

/// `s` is the reference of some model at some provider.
pub open spec fn is_some_model_ref(s: Seq<char>) -> bool {
    exists|p: Seq<char>, m: Seq<char>| #[trigger] is_model_ref(s, p, m)
}

/// What a model reference is made of, character by character.
pub proof fn lemma_model_ref_shape(s: Seq<char>, provider: Seq<char>, model_id: Seq<char>)
    requires
        is_model_ref(s, provider, model_id),
    ensures
        s.len() == 4 + provider.len() + model_id.len(),
        s[0] == 'p' && s[1] == 'i' && s[2] == '/',
        forall|j: int| 3 <= j < 3 + provider.len() ==> s[j] != '/',
        s[3 + provider.len() as int] == '/',
        s.subrange(3, 3 + provider.len() as int) == provider,
        s.subrange(4 + provider.len() as int, s.len() as int) == model_id,
{
    let k: int = 3 + provider.len() as int;
    assert forall|j: int| 3 <= j < k implies s[j] != '/' by {
        assert(s[j] == provider[j - 3]);
    }
    assert(s.subrange(3, k) =~= provider);
    assert(s.subrange(k + 1, s.len() as int) =~= model_id);
}

/// A model reference names one provider and one model id.
pub proof fn lemma_model_ref_unique(
    s: Seq<char>,
    p1: Seq<char>,
    m1: Seq<char>,
    p2: Seq<char>,
    m2: Seq<char>,
)
    requires
        is_model_ref(s, p1, m1),
        is_model_ref(s, p2, m2),
    ensures
        p1 == p2,
        m1 == m2,
{
    lemma_model_ref_shape(s, p1, m1);
    lemma_model_ref_shape(s, p2, m2);
    if p1.len() < p2.len() {
        assert(s[3 + p1.len() as int] != '/');
    } else if p2.len() < p1.len() {
        assert(s[3 + p2.len() as int] != '/');
    }
}

/// The provider and model id that a model setting names, where it is a Pi
/// model reference (`pi/<provider>/<model-id>`).
pub fn parse_pi_model(model: Option<&str>) -> (r: Option<(String, String)>)
    ensures
        match r {
            Some((p, m)) => model matches Some(s) && is_model_ref(s@, p@, m@),
            None => model matches Some(s) ==> !is_some_model_ref(s@),
        },
{
    let s = match model {
        Some(s) => s,
        None => return None,
    };
    let v = chars_of(s);
    let n = v.len();
    if n < 3 || v[0] != 'p' || v[1] != 'i' || v[2] != '/' {
        proof {
            assert forall|p: Seq<char>, m: Seq<char>| !#[trigger] is_model_ref(s@, p, m) by {
                if is_model_ref(s@, p, m) {
                    lemma_model_ref_shape(s@, p, m);
                }
            }
        }
        return None;
    }
    let mut k: usize = 3;
    while k < n && v[k] != '/'
        invariant
            v@ == s@,
            n == v@.len(),
            3 <= k <= n,
            forall|j: int| 3 <= j < k ==> v@[j] != '/',
        decreases n - k,
    {
        k = k + 1;
    }
    if k == n || k == 3 || k + 1 == n {
        proof {
            assert forall|p: Seq<char>, m: Seq<char>| !#[trigger] is_model_ref(s@, p, m) by {
                if is_model_ref(s@, p, m) {
                    lemma_model_ref_shape(s@, p, m);
                    if k < 3 + p.len() {
                        assert(s@[k as int] != '/');
                    } else if k > 3 + p.len() {
                        assert(s@[3 + p.len() as int] != '/');
                    }
                }
            }
        }
        return None;
    }
    let provider = s.substring_char(3, k);
    let model_id = s.substring_char(k + 1, n);
    let p = provider.to_owned();
    let m = model_id.to_owned();
    proof {
        assert(s@ =~= model_ref(p@, m@));
        assert(!p@.contains('/')) by {
            if p@.contains('/') {
                let j = choose|j: int| 0 <= j < p@.len() && p@[j] == '/';
                assert(s@[3 + j] == '/');
            }
        }
    }
    Some((p, m))
}

/// A model as the model picker shows it.
pub struct PiModelInfo {
    pub id: String,
    pub provider: String,
    pub label: String,
    pub value: String,
    pub context_window: Option<u64>,
    pub supports_thinking: Option<bool>,
}

/// The view of a `PiModelInfo`.
pub struct PiModelInfoView {
    pub id: Seq<char>,
    pub provider: Seq<char>,
    pub label: Seq<char>,
    pub value: Seq<char>,
    pub context_window: Option<u64>,
    pub supports_thinking: Option<bool>,
}

impl View for PiModelInfo {
    type V = PiModelInfoView;

    open spec fn view(&self) -> PiModelInfoView {
        PiModelInfoView {
            id: self.id@,
            provider: self.provider@,
            label: self.label@,
            value: self.value@,
            context_window: self.context_window,
            supports_thinking: self.supports_thinking,
        }
    }
}

/// The member `first`, or where it is absent the member `second`.
pub open spec fn field_or(v: JsonView, first: Seq<char>, second: Seq<char>) -> Option<JsonView> {
    match v.field(first) {
        Some(x) => Some(x),
        None => v.field(second),
    }
}

/// The text of an optional value, where it is a string.
pub open spec fn text_of(o: Option<JsonView>) -> Option<Seq<char>> {
    match o {
        Some(x) => x.as_text(),
        None => None,
    }
}

/// A model's id: the first present of `id`, `modelId` and `model`, where it
/// is a string.
pub open spec fn model_id_of(v: JsonView) -> Option<Seq<char>> {
    text_of(
        match v.field("id"@) {
            Some(x) => Some(x),
            None => field_or(v, "modelId"@, "model"@),
        },
    )
}

/// A model's provider: `provider` where it is a string, else its `id` or
/// `name` text; else the text of `providerId`; else "default".
pub open spec fn provider_of(v: JsonView) -> Seq<char> {
    let nested = match v.field("provider"@) {
        Some(p) => match p.as_text() {
            Some(t) => Some(t),
            None => match p.text_field("id"@) {
                Some(t) => Some(t),
                None => p.text_field("name"@),
            },
        },
        None => None,
    };
    match nested {
        Some(t) => t,
        None => match v.text_field("providerId"@) {
            Some(t) => t,
            None => "default"@,
        },
    }
}

/// A model's label: the text of the first present of `label` and `name`,
/// else `<provider>/<id>`.
pub open spec fn label_of(v: JsonView, provider: Seq<char>, id: Seq<char>) -> Seq<char> {
    match text_of(field_or(v, "label"@, "name"@)) {
        Some(t) => t,
        None => provider + seq!['/'] + id,
    }
}

/// The model described by an entry of Pi's model list, where it has an id.
pub open spec fn model_of(v: JsonView) -> Option<PiModelInfoView> {
    match model_id_of(v) {
        Some(id) => {
            let provider = provider_of(v);
            Some(
                PiModelInfoView {
                    id: id,
                    provider: provider,
                    label: label_of(v, provider, id),
                    value: model_ref(provider, id),
                    context_window: match field_or(v, "contextWindow"@, "context_window"@) {
                        Some(x) => x.as_unsigned(),
                        None => None,
                    },
                    supports_thinking: match field_or(
                        v,
                        "supportsThinking"@,
                        "supports_thinking"@,
                    ) {
                        Some(x) => x.as_boolean(),
                        None => None,
                    },
                },
            )
        },
        None => None,
    }
}

/// The member `first`, or where it is absent the member `second`.
pub(crate) fn get_either<'a>(v: &'a Json, first: &str, second: &str) -> (r: Option<&'a Json>)
    ensures
        view_opt(r) == field_or(v@, first@, second@),
{
    match v.get(first) {
        Some(x) => Some(x),
        None => v.get(second),
    }
}

/// The text of an optional value, where it is a string.
pub(crate) fn str_of<'a>(o: Option<&'a Json>) -> (r: Option<&'a str>)
    ensures
        opt_text(r) == text_of(view_opt(o)),
{
    match o {
        Some(x) => x.as_str(),
        None => None,
    }
}

/// `a`, a slash, and `b`.
fn join_slash(a: &str, b: &str) -> (r: String)
    ensures
        r@ == a@ + seq!['/'] + b@,
{
    let mut s = a.to_owned();
    s.append("/");
    s.append(b);
    proof {
        reveal_strlit("/");
    }
    s
}

/// The model that an entry of Pi's model list describes; `None` where the
/// entry has no id.
pub fn model_from_value(value: &Json) -> (r: Option<PiModelInfo>)
    ensures
        match r {
            Some(m) => model_of(value@) == Some(m@),
            None => model_of(value@) is None,
        },
{
    let id_field = match value.get("id") {
        Some(x) => Some(x),
        None => get_either(value, "modelId", "model"),
    };
    let id: &str = match str_of(id_field) {
        Some(t) => t,
        None => return None,
    };
    let nested: Option<&str> = match value.get("provider") {
        Some(p) => match p.as_str() {
            Some(t) => Some(t),
            None => match p.get_str("id") {
                Some(t) => Some(t),
                None => p.get_str("name"),
            },
        },
        None => None,
    };
    let provider: String = match nested {
        Some(t) => t.to_owned(),
        None => match value.get_str("providerId") {
            Some(t) => t.to_owned(),
            None => "default".to_owned(),
        },
    };
    let label: String = match str_of(get_either(value, "label", "name")) {
        Some(t) => t.to_owned(),
        None => join_slash(provider.as_str(), id),
    };
    let context_window = match get_either(value, "contextWindow", "context_window") {
        Some(x) => x.as_u64(),
        None => None,
    };
    let supports_thinking = match get_either(value, "supportsThinking", "supports_thinking") {
        Some(x) => x.as_bool(),
        None => None,
    };
    let mut full = "pi/".to_owned();
    full.append(join_slash(provider.as_str(), id).as_str());
    proof {
        reveal_strlit("pi/");
        assert(full@ =~= model_ref(provider@, id@));
    }
    Some(
        PiModelInfo {
            id: id.to_owned(),
            provider: provider,
            label: label,
            value: full,
            context_window: context_window,
            supports_thinking: supports_thinking,
        },
    )
}

/// The models of a list of entries, in order, leaving out entries without
/// an id.
pub open spec fn models_of(items: Seq<JsonView>) -> Seq<PiModelInfoView>
    decreases items.len(),
{
    if items.len() == 0 {
        Seq::empty()
    } else {
        let rest = models_of(items.drop_last());
        match model_of(items.last()) {
            Some(m) => rest.push(m),
            None => rest,
        }
    }
}

/// The entries of the `data.models` array of a response.
pub open spec fn data_models(response: JsonView) -> Option<Seq<JsonView>> {
    match response.field("data"@) {
        Some(d) => match d.field("models"@) {
            Some(m) => m.as_items(),
            None => None,
        },
        None => None,
    }
}

/// What a `get_available_models` response answers: its error where it does
/// not report success, else the models of `data.models`.
pub open spec fn models_answer(response: JsonView) -> Result<Seq<PiModelInfoView>, Seq<char>> {
    if response.bool_field("success"@) != Some(true) {
        Err(
            match response.text_field("error"@) {
                Some(e) => e,
                None => "pi returned an error while listing models"@,
            },
        )
    } else {
        match data_models(response) {
            Some(items) => Ok(models_of(items)),
            None => Err("pi model response did not include data.models"@),
        }
    }
}

/// The views of a list of models.
pub open spec fn model_views(ms: Seq<PiModelInfo>) -> Seq<PiModelInfoView> {
    ms.map_values(|m: PiModelInfo| m@)
}

/// The models that Pi's answer to `get_available_models` lists, or the error
/// that the answer reports.
pub fn models_from_response(response: &Json) -> (r: Result<Vec<PiModelInfo>, String>)
    ensures
        match r {
            Ok(ms) => models_answer(response@) == Ok::<Seq<PiModelInfoView>, Seq<char>>(
                model_views(ms@),
            ),
            Err(e) => models_answer(response@) == Err::<Seq<PiModelInfoView>, Seq<char>>(e@),
        },
{
    if response.get_bool("success") != Some(true) {
        return Err(
            match response.get_str("error") {
                Some(e) => e.to_owned(),
                None => "pi returned an error while listing models".to_owned(),
            },
        );
    }
    let items: &Vec<Json> = match response.get("data") {
        Some(d) => match d.get("models") {
            Some(m) => match m.as_array() {
                Some(items) => items,
                None => return Err("pi model response did not include data.models".to_owned()),
            },
            None => return Err("pi model response did not include data.models".to_owned()),
        },
        None => return Err("pi model response did not include data.models".to_owned()),
    };
    let ghost vs = view_items(items@);
    proof {
        lemma_view_items(items@);
        assert(vs.take(0) =~= Seq::<JsonView>::empty());
    }
    let mut out: Vec<PiModelInfo> = Vec::new();
    let n = items.len();
    for i in 0..n
        invariant
            n == items@.len(),
            vs == view_items(items@),
            vs.len() == n,
            forall|k: int| 0 <= k < n ==> #[trigger] vs[k] == items@[k]@,
            model_views(out@) == models_of(vs.take(i as int)),
    {
        let m = model_from_value(&items[i]);
        proof {
            assert(vs.take(i + 1).drop_last() =~= vs.take(i as int));
            assert(vs.take(i + 1).last() == items@[i as int]@);
        }
        match m {
            Some(m) => {
                out.push(m);
                assert(model_views(out@) =~= models_of(vs.take(i + 1)));
            },
            None => {},
        }
    }
    assert(vs.take(n as int) =~= vs);
    Ok(out)
}

/// Whether a line of the RPC stream is the answer to the model-list request
/// (a `response` whose `id` is `models`).
pub fn is_models_response(value: &Json) -> (r: bool)
    ensures
        r == (value@.text_field("type"@) == Some("response"@) && value@.text_field("id"@) == Some(
            "models"@,
        )),
{
    let is_response = match value.get_str("type") {
        Some(t) => str_eq(t, "response"),
        None => false,
    };
    let is_models = match value.get_str("id") {
        Some(t) => str_eq(t, "models"),
        None => false,
    };
    is_response && is_models
}

/// The value that the model list gives a model parses back, as a model
/// reference, into the model's provider and id, where the provider is
/// non-empty and free of `/` and the id is non-empty.
pub proof fn lemma_model_value_roundtrip(m: PiModelInfoView, p: Seq<char>, id: Seq<char>)
    requires
        m.value == model_ref(m.provider, m.id),
        m.provider.len() > 0,
        !m.provider.contains('/'),
        m.id.len() > 0,
    ensures
        is_model_ref(m.value, m.provider, m.id),
        is_model_ref(m.value, p, id) ==> p == m.provider && id == m.id,
{
    if is_model_ref(m.value, p, id) {
        lemma_model_ref_unique(m.value, p, id, m.provider, m.id);
    }
}

} // verus!
