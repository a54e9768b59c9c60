use vstd::prelude::*;
use crate::catalogue::{Catalogue, FieldKind, FieldView, first_named, has_field};

verus! {

/// A loosely-typed host value, given as every reading of it that succeeded.
/// A float reading is kept as its IEEE-754 bit pattern.
#[derive(Clone, Debug)]
pub struct HostValue {
    pub text: Option<String>,
    pub unsigned: Option<u64>,
    pub signed: Option<i64>,
    pub float_bits: Option<u64>,
    pub boolean: Option<bool>,
}

/// Where the number stored in a float field comes from: a float given as its
/// bit pattern, or an integer to be converted to the nearest float.
#[derive(Clone, Copy, Debug, PartialEq, Eq, Structural)]
pub enum FloatSource {
    Bits(u64),
    Signed(i64),
    Unsigned(u64),
}

/// A value in the typed form that a field of the catalogue takes.
#[derive(Clone, Debug)]
pub enum FieldValue {
    Text(String),
    UnsignedInt(u64),
    SignedInt(i64),
    Float(FloatSource),
    Boolean(bool),
}

/// A document in typed form: field positions with their values, in order.
pub type TypedDocument = Vec<(usize, FieldValue)>;

/// A document as the host gives it: field names with loosely-typed values.
pub type PendingDocument = Vec<(String, HostValue)>;

/// The typed value that a field of kind `kind` takes from `v`: the first
/// acceptable reading, in a fixed order per kind, or none.
pub open spec fn coerce(kind: FieldKind, v: HostValue) -> Option<FieldValue> {
    match kind {
        FieldKind::Text => match v.text {
            Some(s) => Some(FieldValue::Text(s)),
            None => None,
        },
        FieldKind::UnsignedInt => match (v.unsigned, v.signed) {
            (Some(u), _) => Some(FieldValue::UnsignedInt(u)),
            (None, Some(i)) => if i >= 0 {
                Some(FieldValue::UnsignedInt(i as u64))
            } else {
                None
            },
            (None, None) => None,
        },
        FieldKind::SignedInt => match (v.signed, v.unsigned) {
            (Some(i), _) => Some(FieldValue::SignedInt(i)),
            (None, Some(u)) => Some(FieldValue::SignedInt(u as i64)),
            (None, None) => None,
        },
        FieldKind::Float => match (v.float_bits, v.signed, v.unsigned) {
            (Some(b), _, _) => Some(FieldValue::Float(FloatSource::Bits(b))),
            (None, Some(i), _) => Some(FieldValue::Float(FloatSource::Signed(i))),
            (None, None, Some(u)) => Some(FieldValue::Float(FloatSource::Unsigned(u))),
            (None, None, None) => None,
        },
        FieldKind::Boolean => match v.boolean {
            Some(b) => Some(FieldValue::Boolean(b)),
            None => None,
        },
    }
}

/// The position of the first field of `c` named `name` (meaningful where
/// `has_field(c, name)`).
pub open spec fn index_named(c: Seq<FieldView>, name: Seq<char>) -> int {
    choose|i: int| first_named(c, name, i)
}

/// The typed document that `d` becomes under catalogue `c`: unknown names
/// and values that no reading makes acceptable are left out.
pub open spec fn marshal(c: Seq<FieldView>, d: Seq<(String, HostValue)>) -> Seq<(usize, FieldValue)>
    decreases d.len(),
{
    if d.len() == 0 {
        Seq::empty()
    } else {
        let rest = marshal(c, d.drop_last());
        let name = d.last().0@;
        if has_field(c, name) {
            let i = index_named(c, name);
            match coerce(c[i].kind, d.last().1) {
                Some(fv) => rest.push((i as usize, fv)),
                None => rest,
            }
        } else {
            rest
        }
    }
}

/// A name that some field carries has a first field carrying it.
pub proof fn lemma_first_named_exists(c: Seq<FieldView>, name: Seq<char>, i: int)
    requires
        0 <= i < c.len(),
        c[i].name == name,
    ensures
        first_named(c, name, index_named(c, name)),
    decreases i,
{
    if exists|k: int| 0 <= k < i && #[trigger] c[k].name == name {
        let k = choose|k: int| 0 <= k < i && #[trigger] c[k].name == name;
        lemma_first_named_exists(c, name, k);
    } else {
        assert(first_named(c, name, i));
    }
}

/// The first field carrying a name that some field carries.
pub proof fn lemma_index_named(c: Seq<FieldView>, name: Seq<char>)
    requires
        c.len() <= usize::MAX,
        has_field(c, name),
    ensures
        first_named(c, name, index_named(c, name)),
{
    let i = choose|i: int| 0 <= i < c.len() && #[trigger] c[i].name == name;
    lemma_first_named_exists(c, name, i);
}

/// Only one position is the first to carry a name.
pub proof fn lemma_first_named_unique(c: Seq<FieldView>, name: Seq<char>, i: int, j: int)
    requires
        first_named(c, name, i),
        first_named(c, name, j),
    ensures
        i == j,
{
    if i < j {
        assert(c[i].name != name);
    } else if j < i {
        assert(c[j].name != name);
    }
}

/// Converts one host value for a field of kind `kind`.
pub fn coerce_value(kind: FieldKind, v: &HostValue) -> (r: Option<FieldValue>)
    ensures
        r == coerce(kind, *v),
{
    match kind {
        FieldKind::Text => match &v.text {
            Some(s) => Some(FieldValue::Text(s.clone())),
            None => None,
        },
        FieldKind::UnsignedInt => {
            if let Some(u) = v.unsigned {
                Some(FieldValue::UnsignedInt(u))
            } else if let Some(i) = v.signed {
                if i >= 0 {
                    Some(FieldValue::UnsignedInt(i as u64))
                } else {
                    None
                }
            } else {
                None
            }
        },
        FieldKind::SignedInt => {
            if let Some(i) = v.signed {
                Some(FieldValue::SignedInt(i))
            } else if let Some(u) = v.unsigned {
                Some(FieldValue::SignedInt(u as i64))
            } else {
                None
            }
        },
        FieldKind::Float => {
            if let Some(b) = v.float_bits {
                Some(FieldValue::Float(FloatSource::Bits(b)))
            } else if let Some(i) = v.signed {
                Some(FieldValue::Float(FloatSource::Signed(i)))
            } else if let Some(u) = v.unsigned {
                Some(FieldValue::Float(FloatSource::Unsigned(u)))
            } else {
                None
            }
        },
        FieldKind::Boolean => match v.boolean {
            Some(b) => Some(FieldValue::Boolean(b)),
            None => None,
        },
    }
}

/// Converts a host document into typed form against `catalogue`, entry by
/// entry. Unknown field names and unacceptable values are skipped.
pub fn marshal_document(catalogue: &Catalogue, document: &PendingDocument) -> (r: TypedDocument)
    ensures
        r@ == marshal(catalogue@, document@),
{
    let mut out: TypedDocument = Vec::new();
    let mut k: usize = 0;
    while k < document.len()
        invariant
            0 <= k <= document@.len(),
            out@ == marshal(catalogue@, document@.take(k as int)),
        decreases document@.len() - k,
    {
        let ghost d = document@.take(k as int + 1);
        assert(d.drop_last() =~= document@.take(k as int));
        let entry = &document[k];
        match catalogue.find(entry.0.as_str()) {
            Some(i) => {
                proof {
                    lemma_first_named_unique(catalogue@, entry.0@, i as int, index_named(catalogue@, entry.0@));
                }
                let kind = catalogue.entry(i).kind;
                match coerce_value(kind, &entry.1) {
                    Some(fv) => out.push((i, fv)),
                    None => {},
                }
            },
            None => {},
        }
        k += 1;
    }
    assert(document@.take(k as int) =~= document@);
    out
}


/// Where no entry of `d` named `name` gives an acceptable value for that
/// field, the typed document holds no value for the field.
pub proof fn lemma_marshal_omits(c: Seq<FieldView>, d: Seq<(String, HostValue)>, name: Seq<char>)
    requires
        c.len() <= usize::MAX,
        has_field(c, name),
        forall|q: int|
            0 <= q < d.len() && (#[trigger] d[q]).0@ == name ==> coerce(
                c[index_named(c, name)].kind,
                d[q].1,
            ) is None,
    ensures
        forall|k: int|
            0 <= k < marshal(c, d).len() ==> (#[trigger] marshal(c, d)[k]).0 as int != index_named(
                c,
                name,
            ),
    decreases d.len(),
{
    if d.len() > 0 {
        lemma_index_named(c, name);
        let e = d.drop_last();
        assert forall|q: int| 0 <= q < e.len() && (#[trigger] e[q]).0@ == name implies coerce(
            c[index_named(c, name)].kind,
            e[q].1,
        ) is None by {
            assert(e[q] == d[q]);
        }
        lemma_marshal_omits(c, e, name);
        let rest = marshal(c, e);
        let j = index_named(c, name);
        let n = d.last().0@;
        assert(d[d.len() - 1] == d.last());
        if has_field(c, n) {
            lemma_index_named(c, n);
            let i = index_named(c, n);
            if i == j {
                assert(n == name);
                assert(marshal(c, d) == rest);
            } else {
                assert forall|k: int| 0 <= k < marshal(c, d).len() implies (#[trigger] marshal(
                    c,
                    d,
                )[k]).0 as int != j by {
                    if k < rest.len() {
                        assert(marshal(c, d)[k] == rest[k]);
                    }
                }
            }
        } else {
            assert(marshal(c, d) == rest);
        }
    }
}

/// A text field given only values that are not strings is left out of the
/// typed document: no error, and no value of another kind.
pub proof fn lemma_text_needs_string(c: Seq<FieldView>, d: Seq<(String, HostValue)>, name: Seq<char>)
    requires
        c.len() <= usize::MAX,
        has_field(c, name),
        c[index_named(c, name)].kind == FieldKind::Text,
        forall|q: int| 0 <= q < d.len() && (#[trigger] d[q]).0@ == name ==> d[q].1.text is None,
    ensures
        forall|k: int|
            0 <= k < marshal(c, d).len() ==> (#[trigger] marshal(c, d)[k]).0 as int != index_named(
                c,
                name,
            ),
{
    lemma_marshal_omits(c, d, name);
}

/// An unsigned field given a negative signed integer, and no unsigned
/// reading, is left out of the typed document: the value never wraps.
pub proof fn lemma_unsigned_refuses_negative(
    c: Seq<FieldView>,
    d: Seq<(String, HostValue)>,
    name: Seq<char>,
)
    requires
        c.len() <= usize::MAX,
        has_field(c, name),
        c[index_named(c, name)].kind == FieldKind::UnsignedInt,
        forall|q: int|
            0 <= q < d.len() && (#[trigger] d[q]).0@ == name ==> (d[q].1.unsigned is None
                && (d[q].1.signed matches Some(i) && i < 0)),
    ensures
        forall|k: int|
            0 <= k < marshal(c, d).len() ==> (#[trigger] marshal(c, d)[k]).0 as int != index_named(
                c,
                name,
            ),
{
    lemma_marshal_omits(c, d, name);
}

} // verus!
