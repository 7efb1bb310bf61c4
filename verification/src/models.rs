//! The correction-model picker: entries built from the public model catalogue, recommended
//! models first, then by id (byte order, as `str` compares).
use vstd::prelude::*;
use vstd::utf8::encode_utf8;
use crate::api::ModelEntry;
use crate::text::{push_str, str_eq};

verus! {

/// One model of a catalogue provider: its key, and its `name` and `pricing.input` when they
/// are strings.
#[derive(Debug, Clone)]
pub struct CatalogModel {
    pub id: String,
    pub name: Option<String>,
    pub input_price: Option<String>,
}

/// One catalogue provider: its key, its `name` when it is a string, and its `models` when
/// that is an object (in the catalogue's key order).
#[derive(Debug, Clone)]
pub struct CatalogProvider {
    pub id: String,
    pub name: Option<String>,
    pub models: Option<Vec<CatalogModel>>,
}

/// A catalogue model as (id, name, input price).
pub type CatalogModelView = (Seq<char>, Option<Seq<char>>, Option<Seq<char>>);

/// A catalogue provider as (id, name, models).
pub type CatalogProviderView = (Seq<char>, Option<Seq<char>>, Option<Seq<CatalogModelView>>);

impl View for CatalogModel {
    type V = CatalogModelView;

    open spec fn view(&self) -> CatalogModelView {
        (self.id@, crate::json::opt_string_view(self.name), crate::json::opt_string_view(self.input_price))
    }
}

pub open spec fn models_view(ms: Seq<CatalogModel>) -> Seq<CatalogModelView> {
    Seq::new(ms.len(), |i: int| ms[i]@)
}

impl View for CatalogProvider {
    type V = CatalogProviderView;

    open spec fn view(&self) -> CatalogProviderView {
        (self.id@, crate::json::opt_string_view(self.name), match self.models {
            Some(ms) => Some(models_view(ms@)),
            None => None,
        })
    }
}

pub open spec fn providers_view(ps: Seq<CatalogProvider>) -> Seq<CatalogProviderView> {
    Seq::new(ps.len(), |i: int| ps[i]@)
}

/// An entry as (id, label, pricing, recommended).
pub type EntryModel = (Seq<char>, Seq<char>, Seq<char>, bool);

pub open spec fn entry_view(e: ModelEntry) -> EntryModel {
    (e.id@, e.name@, e.pricing@, e.rec)
}

pub open spec fn entries_view(v: Seq<ModelEntry>) -> Seq<EntryModel> {
    Seq::new(v.len(), |i: int| entry_view(v[i]))
}

/// The models suggested first.
pub open spec fn recommended(id: Seq<char>) -> bool {
    id == "deepseek/deepseek-chat-v4"@ || id == "deepseek/deepseek-chat"@ || id == "openai/gpt-4o-mini"@
        || id == "x-ai/grok-2"@
}

pub open spec fn or_default(v: Option<Seq<char>>, d: Seq<char>) -> Seq<char> {
    match v {
        Some(s) => s,
        None => d,
    }
}

/// The entry for model `m` of provider `pid` named `pname`, unless the model's name is 100
/// bytes or longer.
pub open spec fn model_entry(pid: Seq<char>, pname: Seq<char>, m: CatalogModelView) -> Option<EntryModel> {
    let name = or_default(m.1, m.0);
    if encode_utf8(name).len() >= 100 {
        None
    } else {
        let id = pid + "/"@ + m.0;
        Some((id, name + " ("@ + pname + ")"@, "$"@ + or_default(m.2, "?"@) + "/1M"@, recommended(id)))
    }
}

pub open spec fn models_entries(pid: Seq<char>, pname: Seq<char>, ms: Seq<CatalogModelView>) -> Seq<EntryModel>
    decreases ms.len(),
{
    if ms.len() == 0 {
        seq![]
    } else {
        let rest = models_entries(pid, pname, ms.drop_last());
        match model_entry(pid, pname, ms.last()) {
            Some(e) => rest.push(e),
            None => rest,
        }
    }
}

pub open spec fn provider_entries(p: CatalogProviderView) -> Seq<EntryModel> {
    match p.2 {
        Some(ms) => models_entries(p.0, or_default(p.1, p.0), ms),
        None => seq![],
    }
}

/// All entries, provider by provider and model by model, before sorting.
pub open spec fn catalog_entries(ps: Seq<CatalogProviderView>) -> Seq<EntryModel>
    decreases ps.len(),
{
    if ps.len() == 0 {
        seq![]
    } else {
        catalog_entries(ps.drop_last()) + provider_entries(ps.last())
    }
}

/// Byte-wise lexicographic order (how `str` values compare).
pub open spec fn lex_le(a: Seq<u8>, b: Seq<u8>) -> bool
    decreases a.len(),
{
    if a.len() == 0 {
        true
    } else if b.len() == 0 {
        false
    } else if a[0] < b[0] {
        true
    } else if a[0] > b[0] {
        false
    } else {
        lex_le(a.drop_first(), b.drop_first())
    }
}

proof fn lemma_lex_total(a: Seq<u8>, b: Seq<u8>)
    ensures
        lex_le(a, b) || lex_le(b, a),
    decreases a.len(),
{
    if a.len() > 0 && b.len() > 0 && a[0] == b[0] {
        lemma_lex_total(a.drop_first(), b.drop_first());
    }
}

proof fn lemma_lex_trans(a: Seq<u8>, b: Seq<u8>, c: Seq<u8>)
    requires
        lex_le(a, b),
        lex_le(b, c),
    ensures
        lex_le(a, c),
    decreases a.len(),
{
    if a.len() > 0 && b.len() > 0 && c.len() > 0 && a[0] == b[0] && b[0] == c[0] {
        lemma_lex_trans(a.drop_first(), b.drop_first(), c.drop_first());
    }
}

/// Picker order: recommended entries first, then ascending id.
pub open spec fn entry_le(a: EntryModel, b: EntryModel) -> bool {
    (a.3 && !b.3) || (a.3 == b.3 && lex_le(encode_utf8(a.0), encode_utf8(b.0)))
}

proof fn lemma_entry_total(a: EntryModel, b: EntryModel)
    ensures
        entry_le(a, b) || entry_le(b, a),
{
    lemma_lex_total(encode_utf8(a.0), encode_utf8(b.0));
}

proof fn lemma_entry_trans(a: EntryModel, b: EntryModel, c: EntryModel)
    requires
        entry_le(a, b),
        entry_le(b, c),
    ensures
        entry_le(a, c),
{
    if a.3 == b.3 && b.3 == c.3 {
        lemma_lex_trans(encode_utf8(a.0), encode_utf8(b.0), encode_utf8(c.0));
    }
}

pub open spec fn sorted_entries(s: Seq<EntryModel>) -> bool {
    forall|i: int, j: int| 0 <= i < j < s.len() ==> entry_le(s[i], s[j])
}

fn str_lex_le(a: &str, b: &str) -> (r: bool)
    ensures
        r == lex_le(encode_utf8(a@), encode_utf8(b@)),
{
    let x = a.as_bytes();
    let y = b.as_bytes();
    let mut i: usize = 0;
    assert(x@.skip(0) =~= x@);
    assert(y@.skip(0) =~= y@);
    while i < x.len() && i < y.len() && x[i] == y[i]
        invariant
            i <= x@.len(),
            i <= y@.len(),
            x@ == encode_utf8(a@),
            y@ == encode_utf8(b@),
            lex_le(x@, y@) == lex_le(x@.skip(i as int), y@.skip(i as int)),
        decreases x.len() - i,
    {
        assert(x@.skip(i as int).drop_first() =~= x@.skip(i + 1));
        assert(y@.skip(i as int).drop_first() =~= y@.skip(i + 1));
        i += 1;
    }
    if i == x.len() {
        return true;
    }
    if i == y.len() {
        return false;
    }
    assert(x@.skip(i as int)[0] == x@[i as int]);
    assert(y@.skip(i as int)[0] == y@[i as int]);
    x[i] < y[i]
}

fn entry_le_exec(a: &ModelEntry, b: &ModelEntry) -> (r: bool)
    ensures
        r == entry_le(entry_view(*a), entry_view(*b)),
{
    (a.rec && !b.rec) || (a.rec == b.rec && str_lex_le(a.id.as_str(), b.id.as_str()))
}

/// Stable insertion of `x` after every entry that is not after it.
fn insert_entry(v: &mut Vec<ModelEntry>, x: ModelEntry)
    requires
        sorted_entries(entries_view(old(v)@)),
    ensures
        sorted_entries(entries_view(final(v)@)),
        entries_view(final(v)@).to_multiset() == entries_view(old(v)@).to_multiset().insert(entry_view(x)),
{
    let ghost xv = entry_view(x);
    let ghost s0 = entries_view(v@);
    let mut p: usize = 0;
    while p < v.len() && entry_le_exec(&v[p], &x)
        invariant
            p <= v@.len(),
            s0 == entries_view(v@),
            xv == entry_view(x),
            forall|k: int| 0 <= k < p ==> entry_le(s0[k], xv),
        decreases v.len() - p,
    {
        p += 1;
    }
    v.insert(p, x);
    proof {
        let s1 = entries_view(v@);
        assert(s1 =~= s0.insert(p as int, xv));
        assert forall|i: int, j: int| 0 <= i < j < s1.len() implies entry_le(s1[i], s1[j]) by {
            if j < p as int {
                assert(entry_le(s0[i], s0[j]));
            } else if j == p as int {
            } else if i < p as int {
                if p < s0.len() {
                    lemma_entry_total(s0[p as int], xv);
                    assert(entry_le(xv, s0[p as int]));
                    if j - 1 > p as int {
                        assert(entry_le(s0[p as int], s0[j - 1]));
                        lemma_entry_trans(xv, s0[p as int], s0[j - 1]);
                    }
                    lemma_entry_trans(s0[i], xv, s0[j - 1]);
                }
            } else if i == p as int {
                lemma_entry_total(s0[p as int], xv);
                if j - 1 > p as int {
                    assert(entry_le(s0[p as int], s0[j - 1]));
                    lemma_entry_trans(xv, s0[p as int], s0[j - 1]);
                }
            } else {
                assert(entry_le(s0[i - 1], s0[j - 1]));
            }
        }
        vstd::seq_lib::to_multiset_insert(s0, p as int, xv);
    }
}

fn or_default_str(v: &Option<String>, d: &str) -> (s: String)
    ensures
        s@ == or_default(crate::json::opt_string_view(*v), d@),
{
    match v {
        Some(x) => x.clone(),
        None => String::from_str(d),
    }
}

fn model_entry_exec(pid: &str, pname: &str, m: &CatalogModel) -> (r: Option<ModelEntry>)
    ensures
        match model_entry(pid@, pname@, m@) {
            Some(e) => r matches Some(x) && entry_view(x) == e,
            None => r is None,
        },
{
    let name = or_default_str(&m.name, m.id.as_str());
    if name.as_str().as_bytes().len() >= 100 {
        return None;
    }
    let mut id = String::from_str(pid);
    push_str(&mut id, "/");
    push_str(&mut id, m.id.as_str());
    let mut label = name;
    push_str(&mut label, " (");
    push_str(&mut label, pname);
    push_str(&mut label, ")");
    let price = or_default_str(&m.input_price, "?");
    let mut pricing = String::from_str("$");
    push_str(&mut pricing, price.as_str());
    push_str(&mut pricing, "/1M");
    let i = id.as_str();
    let rec = str_eq(i, "deepseek/deepseek-chat-v4") || str_eq(i, "deepseek/deepseek-chat")
        || str_eq(i, "openai/gpt-4o-mini") || str_eq(i, "x-ai/grok-2");
    Some(ModelEntry { id, name: label, pricing, rec })
}

/// The picker entries of a catalogue, recommended first, then by id.
pub fn catalog_models(providers: &[CatalogProvider]) -> (r: Vec<ModelEntry>)
    ensures
        sorted_entries(entries_view(r@)),
        entries_view(r@).to_multiset() == catalog_entries(providers_view(providers@)).to_multiset(),
{
    let ghost pv = providers_view(providers@);
    let mut out: Vec<ModelEntry> = Vec::new();
    let mut k: usize = 0;
    proof {
        broadcast use vstd::seq_lib::group_to_multiset_ensures;
        assert(entries_view(out@) =~= Seq::<EntryModel>::empty());
        assert(pv.take(0) =~= Seq::<CatalogProviderView>::empty());
        assert(catalog_entries(pv.take(0)) =~= Seq::<EntryModel>::empty());
    }
    while k < providers.len()
        invariant
            k <= providers@.len(),
            sorted_entries(entries_view(out@)),
            pv == providers_view(providers@),
            entries_view(out@).to_multiset() == catalog_entries(pv.take(k as int)).to_multiset(),
        decreases providers.len() - k,
    {
        let p = &providers[k];
        assert(pv.take(k + 1).drop_last() =~= pv.take(k as int));
        assert(pv[k as int] == p@);
        let ghost before = entries_view(out@).to_multiset();
        match &p.models {
            Some(ms) => {
                let pname = or_default_str(&p.name, p.id.as_str());
                let mut j: usize = 0;
                proof {
                    broadcast use vstd::seq_lib::group_to_multiset_ensures;
                    assert(models_view(ms@).take(0) =~= Seq::<CatalogModelView>::empty());
                    assert(models_entries(p.id@, pname@, models_view(ms@).take(0)) =~= Seq::<EntryModel>::empty());
                    assert(before.add(Seq::<EntryModel>::empty().to_multiset()) =~= before);
                }
                while j < ms.len()
                    invariant
                        j <= ms@.len(),
                        sorted_entries(entries_view(out@)),
                        pname@ == or_default(crate::json::opt_string_view(p.name), p.id@),
                        entries_view(out@).to_multiset() == before.add(models_entries(p.id@, pname@, models_view(ms@).take(j as int)).to_multiset()),
                    decreases ms.len() - j,
                {
                    assert(models_view(ms@).take(j + 1).drop_last() =~= models_view(ms@).take(j as int));
                    assert(models_view(ms@)[j as int] == ms@[j as int]@);
                    let ghost prev = models_entries(p.id@, pname@, models_view(ms@).take(j as int));
                    match model_entry_exec(p.id.as_str(), pname.as_str(), &ms[j]) {
                        Some(e) => {
                            let ghost ev = entry_view(e);
                            insert_entry(&mut out, e);
                            proof {
                                vstd::seq_lib::lemma_multiset_commutative(prev, seq![ev]);
                                assert(prev.push(ev) =~= prev + seq![ev]);
                                broadcast use vstd::seq_lib::group_to_multiset_ensures;
                                assert(seq![ev] =~= Seq::<EntryModel>::empty().push(ev));
                                assert(prev.push(ev).to_multiset() =~= prev.to_multiset().insert(ev));
                            }
                        },
                        None => {},
                    }
                    j += 1;
                }
                assert(models_view(ms@).take(ms@.len() as int) =~= models_view(ms@));
            },
            None => {
                assert(provider_entries(p@) =~= Seq::<EntryModel>::empty());
            },
        }
        proof {
            vstd::seq_lib::lemma_multiset_commutative(catalog_entries(pv.take(k as int)), provider_entries(p@));
            assert(pv.take(k + 1).last() == p@);
        }
        k += 1;
    }
    assert(pv.take(providers@.len() as int) =~= pv);
    out
}

/// The providers `serde_json::from_slice::<Value>` reads from the catalogue bytes `data`
/// when they are one JSON object: each key with its `name` and `models` members (see
/// [`CatalogProvider`]), in the map's key order; `None` when `data` is not a JSON object.
pub uninterp spec fn json_catalog_of(data: Seq<u8>) -> Option<Seq<CatalogProviderView>>;

/// `serde_json::from_slice::<Value>(data)` and `Value::as_object`, each provider's and
/// model's fields picked with `Value::get` and `Value::as_str` / `Value::as_object`.
/// Claims only that the result is [`json_catalog_of`] of the bytes.
#[verifier::external_body]
fn json_catalog(data: &[u8]) -> (r: Option<Vec<CatalogProvider>>)
    ensures
        r matches Some(v) ==> json_catalog_of(data@) == Some(providers_view(v@)),
        r is None ==> json_catalog_of(data@) is None,
{
    let json: serde_json::Value = serde_json::from_slice(data).ok()?;
    let text = |v: &serde_json::Value, k: &str| v.get(k).and_then(|x| x.as_str()).map(String::from);
    Some(json.as_object()?.iter().map(|(pid, p)| CatalogProvider {
        id: pid.clone(),
        name: text(p, "name"),
        models: p.get("models").and_then(|m| m.as_object()).map(|ms| ms.iter().map(|(mid, m)| CatalogModel {
            id: mid.clone(),
            name: text(m, "name"),
            input_price: m.get("pricing").and_then(|x| text(x, "input")),
        }).collect()),
    }).collect())
}

/// The picker entries of a catalogue as served (`https://models.dev/api.json`): those of
/// [`catalog_models`] for the providers in the JSON, none when it is not a JSON object.
pub fn catalog_models_from_json(data: &[u8]) -> (r: Vec<ModelEntry>)
    ensures
        match json_catalog_of(data@) {
            Some(pv) => sorted_entries(entries_view(r@)) && entries_view(r@).to_multiset()
                == catalog_entries(pv).to_multiset(),
            None => r@.len() == 0,
        },
{
    match json_catalog(data) {
        Some(ps) => catalog_models(ps.as_slice()),
        None => Vec::new(),
    }
}

} // verus!
