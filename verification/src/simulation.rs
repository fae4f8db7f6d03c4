//! The batch of synthetic requests that the command line tool sends through the
//! engine: which prompts, and to which providers.

use crate::provider::{HttpProvider, DEFAULT_TIMEOUT_NANOS};
use crate::router::{tier, ROUTE_TIERS};
use rand::rngs::StdRng;
use rand::Rng;
use vstd::prelude::*;
use vstd::string::*;

verus! {

/// The synthetic prompts, trivial and demanding.
pub const DEMO_PROMPTS: [&'static str; 8] = [
    "Salut, comment ça va ?",
    "Quelle heure est-il à Tokyo en ce moment ?",
    "Résume-moi ce texte en une phrase.",
    "Explique pourquoi, étape par étape, ce test unitaire échoue et propose une architecture corrigée : ```code```",
    "Quel est le compromis performance/mémoire de cet algorithme ? Comment le prouver ? Et si n=1024 ?",
    "Traduis 'bonjour' en anglais.",
    "Debug ce code étape par étape : ```fn main() { panic!(); }```. Cause racine ?",
    "Écris une fonction qui additionne deux nombres.",
];

/// A seeded random generator, opaque.
#[verifier::external_type_specification]
#[verifier::external_body]
pub struct ExStdRng(StdRng);

/// `rand::Rng::gen_range` over `0..n`: some number below `n`. Which one rests on
/// the state of the generator, of which nothing is said.
#[verifier::external_body]
fn random_below(rng: &mut StdRng, n: usize) -> (i: usize)
    requires
        n > 0,
    ensures
        i < n,
{
    rng.gen_range(0..n)
}

/// One of the synthetic prompts.
pub fn demo_prompt(index: usize) -> (r: String)
    requires
        index < 8,
    ensures
        r@ == DEMO_PROMPTS@[index as int]@,
{
    DEMO_PROMPTS[index].to_owned()
}

/// A synthetic prompt drawn at random.
pub fn random_demo_prompt(rng: &mut StdRng) -> (r: String)
    ensures
        exists|i: int| 0 <= i < 8 && r@ == (#[trigger] DEMO_PROMPTS@[i])@,
{
    let index: usize = random_below(rng, DEMO_PROMPTS.len());
    demo_prompt(index)
}

/// A provider to register: for which route, and which model to ask it for.
#[derive(Clone, Debug)]
pub struct Registration {
    pub route: &'static str,
    pub model: &'static str,
    pub provider: HttpProvider,
}

/// A registration gives a tier a provider at a URL, with or without an API key.
pub open spec fn registers(
    r: Registration,
    k: int,
    model: Seq<char>,
    url: Seq<char>,
    key: Option<Seq<char>>,
) -> bool {
    &&& r.route@ == tier(k)
    &&& r.model@ == model
    &&& r.provider.spec_name() == tier(k)
    &&& r.provider.spec_base_url() == url
    &&& r.provider.spec_api_key() == key
    &&& r.provider.spec_timeout() == DEFAULT_TIMEOUT_NANOS
}

/// Whether the built-in servers are used: if they are wanted and no real service
/// is given.
pub fn uses_demo_backends(
    demo: bool,
    local_url: &Option<String>,
    paid_cheap_url: &Option<String>,
    paid_premium_url: &Option<String>,
) -> (b: bool)
    ensures
        b == (demo && local_url is None && paid_cheap_url is None && paid_premium_url is None),
{
    demo && local_url.is_none() && paid_cheap_url.is_none() && paid_premium_url.is_none()
}

fn register(k: usize, model: &'static str, url: &str, key: &Option<String>) -> (r: Registration)
    requires
        k < 3,
    ensures
        registers(r, k as int, model@, url@, key_view(*key)),
{
    let provider = HttpProvider::new(ROUTE_TIERS[k], url);
    let provider = match key {
        Some(key) => provider.with_api_key(key.as_str()),
        None => provider,
    };
    Registration { route: ROUTE_TIERS[k], model, provider }
}

/// The text of an optional key.
pub open spec fn key_view(key: Option<String>) -> Option<Seq<char>> {
    match key {
        Some(key) => Some(key@),
        None => None,
    }
}

/// The providers of a demonstration, one for each tier.
pub fn demo_registrations(local_url: &str, paid_cheap_url: &str, paid_premium_url: &str) -> (r: Vec<
    Registration,
>)
    ensures
        r@.len() == 3,
        registers(r@[0], 0, "demo-local"@, local_url@, None),
        registers(r@[1], 1, "demo-cheap"@, paid_cheap_url@, None),
        registers(r@[2], 2, "demo-premium"@, paid_premium_url@, None),
{
    let mut r: Vec<Registration> = Vec::new();
    r.push(register(0, "demo-local", local_url, &None));
    r.push(register(1, "demo-cheap", paid_cheap_url, &None));
    r.push(register(2, "demo-premium", paid_premium_url, &None));
    r
}

/// How many of the first `k` tiers were given a URL.
pub open spec fn given_before(urls: Seq<Option<String>>, k: int) -> nat
    decreases k,
{
    if k <= 0 {
        0
    } else {
        given_before(urls, k - 1) + (if urls[k - 1] is Some {
            1nat
        } else {
            0nat
        })
    }
}

/// The model to ask for on a tier.
pub open spec fn service_model(k: int) -> Seq<char> {
    if k == 0 {
        "local-model"@
    } else if k == 1 {
        "paid-cheap-model"@
    } else {
        "paid-premium-model"@
    }
}

/// The providers of the services that were given, in the order of their tiers.
/// The paid ones are sent the API key, if there is one; the local one is not.
pub fn service_registrations(
    local_url: &Option<String>,
    paid_cheap_url: &Option<String>,
    paid_premium_url: &Option<String>,
    paid_api_key: &Option<String>,
) -> (r: Vec<Registration>)
    ensures
        ({
            let urls = seq![*local_url, *paid_cheap_url, *paid_premium_url];
            &&& r@.len() == given_before(urls, 3)
            &&& forall|k: int|
                0 <= k < 3 && (#[trigger] urls[k]) is Some ==> registers(
                    r@[given_before(urls, k) as int],
                    k,
                    service_model(k),
                    urls[k]->0@,
                    if k == 0 {
                        None
                    } else {
                        key_view(*paid_api_key)
                    },
                )
        }),
{
    proof {
        reveal_with_fuel(given_before, 4);
    }
    let mut r: Vec<Registration> = Vec::new();
    if let Some(url) = local_url {
        r.push(register(0, "local-model", url.as_str(), &None));
    }
    if let Some(url) = paid_cheap_url {
        r.push(register(1, "paid-cheap-model", url.as_str(), paid_api_key));
    }
    if let Some(url) = paid_premium_url {
        r.push(register(2, "paid-premium-model", url.as_str(), paid_api_key));
    }
    r
}

} // verus!
