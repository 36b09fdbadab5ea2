//! The list of models: what the upstream lists, and the built-in models that it
//! does not list.

use vstd::prelude::*;

use crate::config::{BUILTIN_MODELS, MODELS_CACHE_TTL_SECS, UPSTREAM_BASE};
use crate::text::{concat3, str_eq};

verus! {

/// A model as it is listed.
#[derive(Debug)]
pub struct OpenAIModel {
    pub id: String,
    pub object: &'static str,
    pub created: u64,
    pub owned_by: &'static str,
    pub context_window: Option<u64>,
    pub max_output_tokens: Option<u64>,
}

/// A list of models.
#[derive(Debug)]
pub struct OpenAIModelList {
    pub object: &'static str,
    pub data: Vec<OpenAIModel>,
}

/// A model as the upstream lists it.
#[derive(Debug)]
pub struct UpstreamModel {
    pub slug: String,
    pub display_name: Option<String>,
    pub context_window: Option<u64>,
    pub max_output_tokens: Option<u64>,
}

/// What a listed model is.
#[verifier::ext_equal]
pub struct ModelSpec {
    pub id: Seq<char>,
    pub object: Seq<char>,
    pub created: u64,
    pub owned_by: Seq<char>,
    pub context_window: Option<u64>,
    pub max_output_tokens: Option<u64>,
}

impl View for OpenAIModel {
    type V = ModelSpec;

    open spec fn view(&self) -> ModelSpec {
        ModelSpec {
            id: self.id@,
            object: self.object@,
            created: self.created,
            owned_by: self.owned_by@,
            context_window: self.context_window,
            max_output_tokens: self.max_output_tokens,
        }
    }
}

impl Clone for OpenAIModel {
    fn clone(&self) -> (r: Self)
        ensures
            r@ == self@,
    {
        OpenAIModel {
            id: self.id.clone(),
            object: self.object,
            created: self.created,
            owned_by: self.owned_by,
            context_window: self.context_window,
            max_output_tokens: self.max_output_tokens,
        }
    }
}

/// What several listed models are.
pub open spec fn models_view(v: Seq<OpenAIModel>) -> Seq<ModelSpec> {
    v.map_values(|m: OpenAIModel| m@)
}

/// A model with this identifier and these limits.
pub open spec fn listed(id: Seq<char>, context: Option<u64>, output: Option<u64>) -> ModelSpec {
    ModelSpec {
        id,
        object: "model"@,
        created: 1_700_000_000,
        owned_by: "openai"@,
        context_window: context,
        max_output_tokens: output,
    }
}

/// The models that the upstream lists.
pub open spec fn upstream_models(v: Seq<UpstreamModel>) -> Seq<ModelSpec> {
    v.map_values(|m: UpstreamModel| listed(m.slug@, m.context_window, m.max_output_tokens))
}

/// Whether a model with this identifier is among several.
pub open spec fn has_model(models: Seq<ModelSpec>, id: Seq<char>) -> bool {
    exists|i: int| 0 <= i < models.len() && (#[trigger] models[i]).id == id
}

/// The first `n` built-in models, without those that are listed already.
pub open spec fn missing_builtins(models: Seq<ModelSpec>, n: int) -> Seq<ModelSpec>
    decreases n,
{
    if n <= 0 {
        seq![]
    } else {
        let rest = missing_builtins(models, n - 1);
        let id = BUILTIN_MODELS@[n - 1]@;
        if has_model(models, id) {
            rest
        } else {
            rest.push(listed(id, None, None))
        }
    }
}

/// The models that are listed: the upstream's, then the built-in ones that it
/// does not list.
pub open spec fn merged_models(v: Seq<UpstreamModel>) -> Seq<ModelSpec> {
    upstream_models(v) + missing_builtins(upstream_models(v), BUILTIN_MODELS@.len() as int)
}

/// A model with this identifier and these limits.
fn make_model(id: String, context: Option<u64>, output: Option<u64>) -> (r: OpenAIModel)
    ensures
        r@ == listed(id@, context, output),
{
    OpenAIModel {
        id,
        object: "model",
        created: 1_700_000_000,
        owned_by: "openai",
        context_window: context,
        max_output_tokens: output,
    }
}

/// Whether a model with this identifier is among the first `n` models.
fn find_model(models: &Vec<OpenAIModel>, n: usize, id: &str) -> (r: bool)
    requires
        n <= models@.len(),
    ensures
        r == has_model(models_view(models@).take(n as int), id@),
{
    let ghost all = models_view(models@).take(n as int);
    let mut i: usize = 0;
    while i < n
        invariant
            i <= n <= models@.len(),
            all == models_view(models@).take(n as int),
            forall|k: int| 0 <= k < i ==> (#[trigger] all[k]).id != id@,
        decreases n - i,
    {
        proof {
            assert(all[i as int].id == models@[i as int].id@);
        }
        if str_eq(models[i].id.as_str(), id) {
            return true;
        }
        i = i + 1;
    }
    false
}

/// The models that are listed.
pub fn merge_models(upstream: Vec<UpstreamModel>) -> (r: Vec<OpenAIModel>)
    ensures
        models_view(r@) == merged_models(upstream@),
{
    let ghost ups = upstream_models(upstream@);
    let ghost given = upstream@;
    let mut data: Vec<OpenAIModel> = Vec::new();
    proof {
        assert(models_view(data@) =~= ups.take(0));
    }
    for m in it: upstream
        invariant
            it.seq() == given,
            ups == upstream_models(given),
            models_view(data@) == ups.take(it.index() as int),
    {
        let ghost before = data@;
        let ghost k = it.index() as int;
        let model = make_model(m.slug, m.context_window, m.max_output_tokens);
        data.push(model);
        proof {
            assert(ups[k] == model@);
            assert(ups.take(k + 1) =~= ups.take(k).push(model@));
            assert(models_view(data@) =~= models_view(before).push(model@));
        }
    }
    proof {
        assert(ups.take(ups.len() as int) =~= ups);
        assert(models_view(data@) == ups);
        assert(ups + missing_builtins(ups, 0) =~= ups);
    }
    let n = data.len();
    let builtins = BUILTIN_MODELS;
    let mut i: usize = 0;
    while i < 4
        invariant
            i <= 4,
            n == ups.len(),
            n <= data@.len(),
            builtins == BUILTIN_MODELS,
            models_view(data@) == ups + missing_builtins(ups, i as int),
        decreases 4 - i,
    {
        let id: &'static str = builtins[i];
        proof {
            assert(models_view(data@).take(n as int) =~= ups);
        }
        if !find_model(&data, n, id) {
            let ghost before = data@;
            let model = make_model(id.to_owned(), None, None);
            data.push(model);
            proof {
                assert(models_view(data@) =~= models_view(before).push(model@));
                assert(models_view(data@) =~= ups + missing_builtins(ups, i + 1));
            }
        }
        i = i + 1;
    }
    data
}

// ---- the cache --------------------------------------------------------

/// A list of models, and when it was fetched, in nanoseconds.
#[derive(Debug)]
pub struct CacheEntry {
    pub data: Vec<OpenAIModel>,
    pub fetched_at: u64,
}

/// The list of models that was fetched last.
#[derive(Debug)]
pub struct ModelsCache {
    pub entry: Option<CacheEntry>,
}

/// Whether a list that was fetched at one time is good at another, both in
/// nanoseconds.
pub open spec fn is_fresh(fetched_at: u64, now: u64) -> bool {
    now - fetched_at < MODELS_CACHE_TTL_SECS * 1_000_000_000
}

/// A copy of several models.
fn copy_models(v: &Vec<OpenAIModel>) -> (r: Vec<OpenAIModel>)
    ensures
        models_view(r@) == models_view(v@),
{
    let mut out: Vec<OpenAIModel> = Vec::new();
    let mut i: usize = 0;
    proof {
        assert(models_view(out@) =~= models_view(v@).take(0));
    }
    while i < v.len()
        invariant
            i <= v@.len(),
            models_view(out@) == models_view(v@).take(i as int),
        decreases v@.len() - i,
    {
        let ghost before = out@;
        let m = v[i].clone();
        out.push(m);
        proof {
            assert(models_view(out@) =~= models_view(before).push(m@));
            assert(models_view(v@).take(i + 1) =~= models_view(v@).take(i as int).push(m@));
        }
        i = i + 1;
    }
    proof {
        assert(models_view(v@).take(v@.len() as int) =~= models_view(v@));
    }
    out
}

impl ModelsCache {
    /// A cache that holds nothing.
    pub fn new() -> (r: ModelsCache)
        ensures
            r.entry is None,
    {
        ModelsCache { entry: None }
    }

    /// The list that was fetched last, where it is good at `now`.
    pub fn get(&self, now: u64) -> (r: Option<Vec<OpenAIModel>>)
        ensures
            match self.entry {
                Some(e) => if is_fresh(e.fetched_at, now) {
                    r matches Some(v) && models_view(v@) == models_view(e.data@)
                } else {
                    r is None
                },
                None => r is None,
            },
    {
        match &self.entry {
            Some(e) => {
                let fresh = now < e.fetched_at || now - e.fetched_at < MODELS_CACHE_TTL_SECS
                    * 1_000_000_000;
                if fresh {
                    Some(copy_models(&e.data))
                } else {
                    None
                }
            },
            None => None,
        }
    }

    /// Takes up a list that was fetched at `now`.
    pub fn store(&mut self, data: Vec<OpenAIModel>, now: u64)
        ensures
            final(self).entry == Some(CacheEntry { data, fetched_at: now }),
    {
        self.entry = Some(CacheEntry { data, fetched_at: now });
    }
}

/// The address of the upstream's list of models.
pub fn models_url(version: &str) -> (r: String)
    ensures
        r@ == UPSTREAM_BASE@ + "/models?client_version="@ + version@,
{
    concat3(UPSTREAM_BASE, "/models?client_version=", version)
}

// ---- laws -------------------------------------------------------------

/// The models of the upstream are listed first, in its order.
pub proof fn law_upstream_models_come_first(v: Seq<UpstreamModel>)
    ensures
        merged_models(v).len() >= v.len(),
        merged_models(v).take(v.len() as int) == upstream_models(v),
{
    assert(merged_models(v).take(v.len() as int) =~= upstream_models(v));
}

/// What the missing built-in models are.
proof fn lemma_missing(models: Seq<ModelSpec>, n: int, k: int)
    requires
        0 <= k < n <= BUILTIN_MODELS@.len(),
    ensures
        has_model(models, BUILTIN_MODELS@[k]@) || has_model(
            missing_builtins(models, n),
            BUILTIN_MODELS@[k]@,
        ),
    decreases n,
{
    let rest = missing_builtins(models, n - 1);
    let all = missing_builtins(models, n);
    if k < n - 1 {
        lemma_missing(models, n - 1, k);
        if !has_model(models, BUILTIN_MODELS@[k]@) {
            let i = choose|i: int|
                0 <= i < rest.len() && (#[trigger] rest[i]).id == BUILTIN_MODELS@[k]@;
            assert(all[i].id == BUILTIN_MODELS@[k]@);
        }
    } else if !has_model(models, BUILTIN_MODELS@[k]@) {
        assert(all[all.len() - 1].id == BUILTIN_MODELS@[k]@);
    }
}

/// Every built-in model is listed.
pub proof fn law_builtins_are_listed(v: Seq<UpstreamModel>, k: int)
    requires
        0 <= k < BUILTIN_MODELS@.len(),
    ensures
        has_model(merged_models(v), BUILTIN_MODELS@[k]@),
{
    let ups = upstream_models(v);
    let extra = missing_builtins(ups, BUILTIN_MODELS@.len() as int);
    let id = BUILTIN_MODELS@[k]@;
    lemma_missing(ups, BUILTIN_MODELS@.len() as int, k);
    if has_model(ups, id) {
        let i = choose|i: int| 0 <= i < ups.len() && (#[trigger] ups[i]).id == id;
        assert(merged_models(v)[i].id == id);
    } else {
        let i = choose|i: int| 0 <= i < extra.len() && (#[trigger] extra[i]).id == id;
        assert(merged_models(v)[ups.len() + i].id == id);
    }
}

/// What the missing built-in models are not: listed already.
proof fn lemma_missing_not_listed(models: Seq<ModelSpec>, n: int, i: int)
    requires
        0 <= n <= BUILTIN_MODELS@.len(),
        0 <= i < missing_builtins(models, n).len(),
    ensures
        !has_model(models, missing_builtins(models, n)[i].id),
    decreases n,
{
    if n > 0 {
        let rest = missing_builtins(models, n - 1);
        if i < rest.len() {
            lemma_missing_not_listed(models, n - 1, i);
        }
    }
}

/// A built-in model that the upstream lists is not listed a second time.
pub proof fn law_builtins_are_not_doubled(v: Seq<UpstreamModel>, i: int)
    requires
        v.len() <= i < merged_models(v).len(),
    ensures
        !has_model(upstream_models(v), merged_models(v)[i].id),
{
    lemma_missing_not_listed(
        upstream_models(v),
        BUILTIN_MODELS@.len() as int,
        i - v.len(),
    );
}

/// What was stored is what is given out, for five minutes and no longer.
pub proof fn law_cache_lasts_five_minutes(fetched_at: u64, now: u64)
    requires
        fetched_at <= now,
    ensures
        is_fresh(fetched_at, now) <==> now - fetched_at < 300_000_000_000,
{
}

} // verus!
