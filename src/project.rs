use vstd::prelude::*;
use crate::catalogue::{Catalogue, FieldKind, FieldView, first_named, has_field};
use crate::document::{
    FieldValue, FloatSource, HostValue, coerce, index_named, lemma_first_named_unique, lemma_index_named,
    lemma_marshal_omits, marshal,
};
use crate::query::{QueryError, all_known, first_unknown};

verus! {

/// A stored value as it is handed back to the host. A float is kept as its
/// IEEE-754 bit pattern.
#[derive(Clone, Debug)]
pub enum HitValue {
    Text(String),
    UnsignedInt(u64),
    SignedInt(i64),
    Float(u64),
    Boolean(bool),
}

impl HitValue {
    /// A copy of this value.
    pub fn copied(&self) -> (r: HitValue)
        ensures
            r == *self,
    {
        match self {
            HitValue::Text(s) => HitValue::Text(s.clone()),
            HitValue::UnsignedInt(n) => HitValue::UnsignedInt(*n),
            HitValue::SignedInt(n) => HitValue::SignedInt(*n),
            HitValue::Float(b) => HitValue::Float(*b),
            HitValue::Boolean(b) => HitValue::Boolean(*b),
        }
    }
}

/// A document as the engine returns it: field positions with their values,
/// in the engine's order. `None` stands for a value of a kind that is not
/// handed back.
pub type StoredDocument = Vec<(usize, Option<HitValue>)>;

/// The first value that `s` holds for field `f`, if it holds any.
pub open spec fn first_entry(s: Seq<(usize, Option<HitValue>)>, f: usize) -> Option<
    Option<HitValue>,
>
    decreases s.len(),
{
    if s.len() == 0 {
        None
    } else if s[0].0 == f {
        Some(s[0].1)
    } else {
        first_entry(s.drop_first(), f)
    }
}

/// The host's view of stored document `s`: for each field of `c`, in
/// catalogue order, its name with its first value, where it has one that is
/// handed back.
pub open spec fn project(c: Seq<FieldView>, s: Seq<(usize, Option<HitValue>)>) -> Seq<
    (Seq<char>, HitValue),
>
    decreases c.len(),
{
    if c.len() == 0 {
        Seq::empty()
    } else {
        let rest = project(c.drop_last(), s);
        match first_entry(s, (c.len() - 1) as usize) {
            Some(Some(v)) => rest.push((c.last().name, v)),
            _ => rest,
        }
    }
}

/// The names and values of a projected document, as Verus reasons about it.
pub open spec fn named_values(d: Seq<(String, HitValue)>) -> Seq<(Seq<char>, HitValue)> {
    d.map_values(|p: (String, HitValue)| (p.0@, p.1))
}

/// The first value that `stored` holds for field `f`.
pub fn first_value(stored: &StoredDocument, f: usize) -> (r: Option<Option<HitValue>>)
    ensures
        r == first_entry(stored@, f),
{
    let mut j: usize = 0;
    assert(stored@.subrange(0, stored@.len() as int) =~= stored@);
    while j < stored.len()
        invariant
            0 <= j <= stored@.len(),
            first_entry(stored@, f) == first_entry(stored@.subrange(j as int, stored@.len() as int), f),
        decreases stored@.len() - j,
    {
        let ghost rest = stored@.subrange(j as int, stored@.len() as int);
        assert(rest.drop_first() =~= stored@.subrange(j as int + 1, stored@.len() as int));
        if stored[j].0 == f {
            return match &stored[j].1 {
                Some(v) => Some(Some(v.copied())),
                None => Some(None),
            };
        }
        j += 1;
    }
    None
}

/// Projects a stored document for the host: each field of the catalogue
/// with a value, in catalogue order, under its name, with its first value.
pub fn project_document(catalogue: &Catalogue, stored: &StoredDocument) -> (r: Vec<(String, HitValue)>)
    ensures
        named_values(r@) == project(catalogue@, stored@),
{
    let mut out: Vec<(String, HitValue)> = Vec::new();
    let mut k: usize = 0;
    while k < catalogue.len()
        invariant
            0 <= k <= catalogue@.len(),
            named_values(out@) == project(catalogue@.take(k as int), stored@),
        decreases catalogue@.len() - k,
    {
        let ghost c = catalogue@.take(k as int + 1);
        assert(c.drop_last() =~= catalogue@.take(k as int));
        match first_value(stored, k) {
            Some(Some(v)) => {
                out.push((catalogue.entry(k).name.clone(), v));
                assert(named_values(out@) =~= project(c, stored@));
            },
            _ => {},
        }
        k += 1;
    }
    assert(catalogue@.take(k as int) =~= catalogue@);
    out
}

/// The text fields that snippets are made for, given the names asked for:
/// names of fields of another kind are passed over, and each field comes
/// once, where it was first asked for.
pub open spec fn snippet_selection(c: Seq<FieldView>, names: Seq<String>) -> Seq<usize>
    decreases names.len(),
{
    if names.len() == 0 {
        Seq::empty()
    } else {
        let rest = snippet_selection(c, names.drop_last());
        let i = index_named(c, names.last()@);
        if c[i].kind == FieldKind::Text && !rest.contains(i as usize) {
            rest.push(i as usize)
        } else {
            rest
        }
    }
}

/// Chooses the fields to make snippets for. Every name must be a field of
/// the catalogue; fields that are not text are passed over.
pub fn select_snippet_fields(catalogue: &Catalogue, names: &Vec<String>) -> (r: Result<
    Vec<usize>,
    QueryError,
>)
    ensures
        r is Ok <==> all_known(catalogue@, names@),
        r matches Ok(v) ==> v@ == snippet_selection(catalogue@, names@),
        r matches Err(e) ==> exists|k: int|
            first_unknown(catalogue@, names@, k) && (e matches QueryError::FieldNotFound(n) && n@
                == (#[trigger] names@[k])@),
{
    let mut out: Vec<usize> = Vec::new();
    let mut k: usize = 0;
    while k < names.len()
        invariant
            0 <= k <= names@.len(),
            forall|j: int| 0 <= j < k ==> has_field(catalogue@, #[trigger] names@[j]@),
            out@ == snippet_selection(catalogue@, names@.take(k as int)),
        decreases names@.len() - k,
    {
        let ghost t = names@.take(k as int + 1);
        assert(t.drop_last() =~= names@.take(k as int));
        match catalogue.find(names[k].as_str()) {
            None => {
                assert(first_unknown(catalogue@, names@, k as int));
                return Err(QueryError::FieldNotFound(names[k].clone()));
            },
            Some(i) => {
                proof {
                    lemma_first_named_unique(catalogue@, names@[k as int]@, i as int, index_named(catalogue@, names@[k as int]@));
                }
                if catalogue.entry(i).kind == FieldKind::Text {
                    let mut seen = false;
                    let mut j: usize = 0;
                    while j < out.len()
                        invariant
                            0 <= j <= out@.len(),
                            seen <==> exists|m: int| 0 <= m < j && out@[m] == i,
                        decreases out@.len() - j,
                    {
                        if out[j] == i {
                            seen = true;
                        }
                        j += 1;
                    }
                    if !seen {
                        out.push(i);
                    }
                }
            },
        }
        k += 1;
    }
    assert(names@.take(k as int) =~= names@);
    Ok(out)
}


/// One ranked match as the engine returns it: its relevance score as an
/// IEEE-754 bit pattern, its stored document and, where snippets were asked
/// for, one highlighted fragment per snippet field position.
#[derive(Clone, Debug)]
pub struct RankedDocument {
    pub score_bits: u32,
    pub stored: StoredDocument,
    pub snippets: Option<Vec<(usize, String)>>,
}

/// One hit as the host receives it.
#[derive(Clone, Debug)]
pub struct Hit {
    pub score_bits: u32,
    pub document: Vec<(String, HitValue)>,
    pub snippets: Option<Vec<(String, String)>>,
}

/// The hits of one search, in rank order; `total_hits` counts the hits
/// returned, not every match.
#[derive(Clone, Debug)]
pub struct SearchResult {
    pub total_hits: usize,
    pub hits: Vec<Hit>,
}

/// Every snippet of `r` names a field of `c`.
pub open spec fn snippets_in(c: Seq<FieldView>, r: RankedDocument) -> bool {
    r.snippets matches Some(v) ==> forall|m: int| 0 <= m < v@.len() ==> (#[trigger] v@[m]).0 < c.len()
}

/// `h` is the host's form of ranked match `r`.
pub open spec fn hit_of(c: Seq<FieldView>, r: RankedDocument, h: Hit) -> bool {
    &&& h.score_bits == r.score_bits
    &&& named_values(h.document@) == project(c, r.stored@)
    &&& match (r.snippets, h.snippets) {
        (None, None) => true,
        (Some(given), Some(named)) => {
            &&& named@.len() == given@.len()
            &&& forall|m: int|
                0 <= m < given@.len() ==> (#[trigger] named@[m]).0@ == c[given@[m].0 as int].name
                    && named@[m].1@ == given@[m].1@
        },
        _ => false,
    }
}

/// Puts the fragments of a ranked match under the names of their fields.
fn name_snippets(catalogue: &Catalogue, given: &Vec<(usize, String)>) -> (r: Vec<(String, String)>)
    requires
        forall|m: int| 0 <= m < given@.len() ==> (#[trigger] given@[m]).0 < catalogue@.len(),
    ensures
        r@.len() == given@.len(),
        forall|m: int|
            0 <= m < given@.len() ==> (#[trigger] r@[m]).0@ == catalogue@[given@[m].0 as int].name
                && r@[m].1@ == given@[m].1@,
{
    let mut out: Vec<(String, String)> = Vec::new();
    let mut m: usize = 0;
    while m < given.len()
        invariant
            0 <= m <= given@.len(),
            out@.len() == m,
            forall|j: int| 0 <= j < given@.len() ==> (#[trigger] given@[j]).0 < catalogue@.len(),
            forall|j: int|
                0 <= j < m ==> (#[trigger] out@[j]).0@ == catalogue@[given@[j].0 as int].name
                    && out@[j].1@ == given@[j].1@,
        decreases given@.len() - m,
    {
        let f = given[m].0;
        out.push((catalogue.entry(f).name.clone(), given[m].1.clone()));
        m += 1;
    }
    out
}

/// Projects the ranked matches of a search, in rank order.
pub fn assemble_result(catalogue: &Catalogue, ranked: &Vec<RankedDocument>) -> (r: SearchResult)
    requires
        forall|k: int| 0 <= k < ranked@.len() ==> snippets_in(catalogue@, #[trigger] ranked@[k]),
    ensures
        r.total_hits == ranked@.len(),
        r.hits@.len() == ranked@.len(),
        forall|k: int| 0 <= k < ranked@.len() ==> hit_of(catalogue@, ranked@[k], #[trigger] r.hits@[k]),
{
    let mut hits: Vec<Hit> = Vec::new();
    let mut k: usize = 0;
    while k < ranked.len()
        invariant
            0 <= k <= ranked@.len(),
            hits@.len() == k,
            forall|j: int| 0 <= j < ranked@.len() ==> snippets_in(catalogue@, #[trigger] ranked@[j]),
            forall|j: int| 0 <= j < k ==> hit_of(catalogue@, ranked@[j], #[trigger] hits@[j]),
        decreases ranked@.len() - k,
    {
        let r = &ranked[k];
        assert(snippets_in(catalogue@, ranked@[k as int]));
        let document = project_document(catalogue, &r.stored);
        let snippets = match &r.snippets {
            Some(given) => Some(name_snippets(catalogue, given)),
            None => None,
        };
        hits.push(Hit { score_bits: r.score_bits, document, snippets });
        k += 1;
    }
    SearchResult { total_hits: hits.len(), hits }
}


/// The value the engine hands back for a typed value that it stored as
/// given. A float made from an integer is stored as the engine converts it,
/// which is not stated here.
pub open spec fn hit_form(v: FieldValue) -> Option<HitValue> {
    match v {
        FieldValue::Text(s) => Some(HitValue::Text(s)),
        FieldValue::UnsignedInt(n) => Some(HitValue::UnsignedInt(n)),
        FieldValue::SignedInt(n) => Some(HitValue::SignedInt(n)),
        FieldValue::Float(FloatSource::Bits(b)) => Some(HitValue::Float(b)),
        FieldValue::Float(_) => None,
        FieldValue::Boolean(b) => Some(HitValue::Boolean(b)),
    }
}

/// The stored document the engine keeps for typed document `t`: the values
/// of the stored fields, in the order given.
pub open spec fn stored_view(c: Seq<FieldView>, t: Seq<(usize, FieldValue)>) -> Seq<
    (usize, Option<HitValue>),
>
    decreases t.len(),
{
    if t.len() == 0 {
        Seq::empty()
    } else {
        let rest = stored_view(c, t.drop_last());
        let f = t.last().0;
        if (f as int) < c.len() && c[f as int].stored {
            rest.push((f, hit_form(t.last().1)))
        } else {
            rest
        }
    }
}

proof fn lemma_first_entry_push(s: Seq<(usize, Option<HitValue>)>, x: (usize, Option<HitValue>), f: usize)
    ensures
        first_entry(s.push(x), f) == if first_entry(s, f) is Some {
            first_entry(s, f)
        } else if x.0 == f {
            Some(x.1)
        } else {
            None
        },
    decreases s.len(),
{
    if s.len() > 0 {
        assert(s.push(x).drop_first() =~= s.drop_first().push(x));
        assert(s.push(x)[0] == s[0]);
        lemma_first_entry_push(s.drop_first(), x, f);
    } else {
        let empty = Seq::<(usize, Option<HitValue>)>::empty();
        assert(s.push(x).drop_first() =~= empty);
        assert(s.push(x)[0] == x);
        assert(first_entry(empty, f) is None);
    }
}

proof fn lemma_stored_absent(c: Seq<FieldView>, t: Seq<(usize, FieldValue)>, f: usize)
    requires
        forall|k: int| 0 <= k < t.len() ==> (#[trigger] t[k]).0 != f,
    ensures
        first_entry(stored_view(c, t), f) is None,
    decreases t.len(),
{
    if t.len() > 0 {
        let e = t.drop_last();
        assert forall|k: int| 0 <= k < e.len() implies (#[trigger] e[k]).0 != f by {
            assert(e[k] == t[k]);
        }
        lemma_stored_absent(c, e, f);
        assert(t[t.len() - 1] == t.last());
        let x = (t.last().0, hit_form(t.last().1));
        lemma_first_entry_push(stored_view(c, e), x, f);
    }
}

proof fn lemma_stored_entry(c: Seq<FieldView>, d: Seq<(String, HostValue)>, p: int, v: FieldValue)
    requires
        c.len() <= usize::MAX,
        0 <= p < d.len(),
        forall|q: int| 0 <= q < d.len() && q != p ==> (#[trigger] d[q]).0@ != d[p].0@,
        has_field(c, d[p].0@),
        c[index_named(c, d[p].0@)].stored,
        coerce(c[index_named(c, d[p].0@)].kind, d[p].1) == Some(v),
    ensures
        first_entry(stored_view(c, marshal(c, d)), index_named(c, d[p].0@) as usize) == Some(
            hit_form(v),
        ),
    decreases d.len(),
{
    let n = d[p].0@;
    lemma_index_named(c, n);
    let i = index_named(c, n);
    let e = d.drop_last();
    let rest = marshal(c, e);
    assert(d[d.len() - 1] == d.last());
    if p == d.len() - 1 {
        assert forall|q: int| 0 <= q < e.len() && (#[trigger] e[q]).0@ == n implies coerce(
            c[i].kind,
            e[q].1,
        ) is None by {
            assert(e[q] == d[q]);
        }
        lemma_marshal_omits(c, e, n);
        assert(marshal(c, d) == rest.push((i as usize, v)));
        lemma_stored_absent(c, rest, i as usize);
        lemma_first_entry_push(stored_view(c, rest), (i as usize, hit_form(v)), i as usize);
        assert(marshal(c, d).drop_last() =~= rest);
    } else {
        assert forall|q: int| 0 <= q < e.len() && q != p implies (#[trigger] e[q]).0@ != e[p].0@ by {
            assert(e[q] == d[q]);
            assert(e[p] == d[p]);
        }
        assert(e[p] == d[p]);
        lemma_stored_entry(c, e, p, v);
        let m = d.last().0@;
        assert(m != n);
        if has_field(c, m) {
            lemma_index_named(c, m);
            let j = index_named(c, m);
            assert(j != i);
            match coerce(c[j].kind, d.last().1) {
                Some(fv) => {
                    let t = marshal(c, d);
                    assert(t == rest.push((j as usize, fv)));
                    assert(t.drop_last() =~= rest);
                    lemma_first_entry_push(stored_view(c, rest), (j as usize, hit_form(fv)), i as usize);
                },
                None => {},
            }
        }
    }
}

proof fn lemma_project_has(c: Seq<FieldView>, s: Seq<(usize, Option<HitValue>)>, f: int, v: HitValue)
    requires
        c.len() <= usize::MAX,
        0 <= f < c.len(),
        first_entry(s, f as usize) == Some(Some(v)),
    ensures
        project(c, s).contains((c[f].name, v)),
    decreases c.len(),
{
    let rest = project(c.drop_last(), s);
    if f == c.len() - 1 {
        assert(project(c, s) == rest.push((c.last().name, v)));
        assert(project(c, s)[rest.len() as int] == (c[f].name, v));
    } else {
        assert(c.drop_last()[f] == c[f]);
        lemma_project_has(c.drop_last(), s, f, v);
        let k = choose|k: int| 0 <= k < rest.len() && rest[k] == (c[f].name, v);
        match first_entry(s, (c.len() - 1) as usize) {
            Some(Some(w)) => {
                assert(project(c, s)[k] == rest[k]);
            },
            _ => {},
        }
    }
}

/// A value that its field accepts, added under a name that the document
/// uses once, comes back unchanged under that name once the engine has
/// stored the document, where the field is stored.
pub proof fn lemma_round_trip(c: Seq<FieldView>, d: Seq<(String, HostValue)>, p: int)
    requires
        c.len() <= usize::MAX,
        0 <= p < d.len(),
        forall|q: int| 0 <= q < d.len() && q != p ==> (#[trigger] d[q]).0@ != d[p].0@,
        has_field(c, d[p].0@),
        c[index_named(c, d[p].0@)].stored,
        coerce(c[index_named(c, d[p].0@)].kind, d[p].1) matches Some(v) && hit_form(v) is Some,
    ensures
        project(c, stored_view(c, marshal(c, d))).contains(
            (d[p].0@, hit_form(coerce(c[index_named(c, d[p].0@)].kind, d[p].1)->Some_0)->Some_0),
        ),
{
    let n = d[p].0@;
    lemma_index_named(c, n);
    let i = index_named(c, n);
    let v = coerce(c[i].kind, d[p].1)->Some_0;
    lemma_stored_entry(c, d, p, v);
    lemma_project_has(c, stored_view(c, marshal(c, d)), i, hit_form(v)->Some_0);
}

} // verus!
