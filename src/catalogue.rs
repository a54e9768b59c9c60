use vstd::prelude::*;

verus! {

broadcast use vstd::string::to_string_from_display_ensures_for_str;

/// The five primitive kinds a field may have.
#[derive(Clone, Copy, Debug, PartialEq, Eq, Structural)]
pub enum FieldKind {
    Text,
    UnsignedInt,
    SignedInt,
    Float,
    Boolean,
}

/// The kind that a host kind name stands for, if any.
pub open spec fn kind_named(s: Seq<char>) -> Option<FieldKind> {
    if s == "text"@ {
        Some(FieldKind::Text)
    } else if s == "u64"@ {
        Some(FieldKind::UnsignedInt)
    } else if s == "i64"@ {
        Some(FieldKind::SignedInt)
    } else if s == "f64"@ {
        Some(FieldKind::Float)
    } else if s == "bool"@ {
        Some(FieldKind::Boolean)
    } else {
        None
    }
}

/// Reads a host kind name (`"text"`, `"u64"`, `"i64"`, `"f64"`, `"bool"`).
pub fn parse_kind(s: &str) -> (r: Option<FieldKind>)
    ensures
        r == kind_named(s@),
{
    let s = s.to_string();
    if s == "text".to_string() {
        Some(FieldKind::Text)
    } else if s == "u64".to_string() {
        Some(FieldKind::UnsignedInt)
    } else if s == "i64".to_string() {
        Some(FieldKind::SignedInt)
    } else if s == "f64".to_string() {
        Some(FieldKind::Float)
    } else if s == "bool".to_string() {
        Some(FieldKind::Boolean)
    } else {
        None
    }
}


/// One field of a catalogue, as Verus reasons about it.
pub struct FieldView {
    pub name: Seq<char>,
    pub kind: FieldKind,
    pub stored: bool,
    pub indexed: bool,
}

/// One field of a catalogue.
#[derive(Clone, Debug)]
pub struct FieldEntry {
    pub name: String,
    pub kind: FieldKind,
    pub stored: bool,
    pub indexed: bool,
}

impl View for FieldEntry {
    type V = FieldView;

    open spec fn view(&self) -> FieldView {
        FieldView { name: self.name@, kind: self.kind, stored: self.stored, indexed: self.indexed }
    }
}

/// A field specification from the host: name, kind name, stored, indexed.
pub type FieldDef = (String, String, bool, bool);

/// An ordered list of field specifications.
pub type SchemaDef = Vec<FieldDef>;

/// The ordered, immutable list of fields that documents and queries are
/// interpreted against. A field is addressed by its position.
#[derive(Clone, Debug)]
pub struct Catalogue {
    fields: Vec<FieldEntry>,
}

impl View for Catalogue {
    type V = Seq<FieldView>;

    closed spec fn view(&self) -> Seq<FieldView> {
        self.fields@.map_values(|e: FieldEntry| e@)
    }
}

/// Why a schema definition was refused.
#[derive(Clone, Debug, PartialEq, Eq)]
pub enum SchemaError {
    /// The kind name is none of the five supported kinds.
    UnsupportedFieldType(String),
    /// A second field carries a name already used.
    DuplicateField(String),
}

impl SchemaError {
    /// A human-readable description of the error.
    pub fn message(&self) -> String {
        match self {
            SchemaError::UnsupportedFieldType(k) => {
                "Unsupported field type: ".to_string().concat(k.as_str())
            },
            SchemaError::DuplicateField(n) => {
                "Field defined twice in schema: ".to_string().concat(n.as_str())
            },
        }
    }
}

/// No two fields of `c` share a name.
pub open spec fn names_unique(c: Seq<FieldView>) -> bool {
    forall|i: int, j: int| 0 <= i < c.len() && 0 <= j < c.len() && i != j ==> #[trigger] c[i].name != #[trigger] c[j].name
}

/// `i` is the first position of `c` whose field is named `name`.
pub open spec fn first_named(c: Seq<FieldView>, name: Seq<char>, i: int) -> bool {
    &&& 0 <= i < c.len()
    &&& c[i].name == name
    &&& forall|j: int| 0 <= j < i ==> #[trigger] c[j].name != name
}

/// Some field of `c` is named `name`.
pub open spec fn has_field(c: Seq<FieldView>, name: Seq<char>) -> bool {
    exists|i: int| 0 <= i < c.len() && #[trigger] c[i].name == name
}

/// The field at position `i` of definition list `d` is acceptable: its kind
/// is supported and no earlier field has its name.
pub open spec fn def_ok(d: Seq<FieldDef>, i: int) -> bool {
    &&& kind_named(d[i].1@) is Some
    &&& forall|j: int| 0 <= j < i ==> #[trigger] d[j].0@ != d[i].0@
}

/// Every field of `d` is acceptable.
pub open spec fn defs_ok(d: Seq<FieldDef>) -> bool {
    forall|i: int| 0 <= i < d.len() ==> def_ok(d, i)
}

/// `i` is the first position of `d` whose field is refused.
pub open spec fn first_fault(d: Seq<FieldDef>, i: int) -> bool {
    &&& 0 <= i < d.len()
    &&& !def_ok(d, i)
    &&& forall|j: int| 0 <= j < i ==> def_ok(d, j)
}

/// The error that the refused field `f` is reported with.
pub open spec fn fault_error(f: FieldDef, e: SchemaError) -> bool {
    if kind_named(f.1@) is None {
        e matches SchemaError::UnsupportedFieldType(k) && k@ == f.1@
    } else {
        e matches SchemaError::DuplicateField(n) && n@ == f.0@
    }
}

/// The catalogue field that an accepted definition becomes.
pub open spec fn field_of_def(f: FieldDef) -> FieldView {
    FieldView { name: f.0@, kind: kind_named(f.1@)->Some_0, stored: f.2, indexed: f.3 }
}

impl Catalogue {
    /// Number of fields.
    pub fn len(&self) -> (r: usize)
        ensures
            r == self@.len(),
    {
        self.fields.len()
    }

    /// The field at position `i`.
    pub fn entry(&self, i: usize) -> (r: &FieldEntry)
        requires
            i < self@.len(),
        ensures
            r@ == self@[i as int],
    {
        &self.fields[i]
    }

    /// Position of the field named `name`, if the catalogue has one.
    pub fn find(&self, name: &str) -> (r: Option<usize>)
        ensures
            r matches Some(i) ==> first_named(self@, name@, i as int),
            r is None <==> !has_field(self@, name@),
    {
        let key = name.to_string();
        assert(key@ == name@);
        let mut i: usize = 0;
        while i < self.fields.len()
            invariant
                0 <= i <= self.fields@.len(),
                key@ == name@,
                forall|j: int| 0 <= j < i ==> #[trigger] self@[j].name != name@,
            decreases self.fields@.len() - i,
        {
            if self.fields[i].name == key {
                assert(self@[i as int] == self.fields@[i as int]@);
                assert(self@[i as int].name == name@);
                return Some(i);
            }
            i += 1;
        }
        None
    }
}

/// Builds a catalogue from field specifications, in order. The first field
/// whose kind is unsupported, or whose name was already used, is reported.
pub fn build_schema(schema_def: SchemaDef) -> (r: Result<Catalogue, SchemaError>)
    ensures
        r is Ok <==> defs_ok(schema_def@),
        (exists|i: int| 0 <= i < schema_def@.len() && kind_named(#[trigger] schema_def@[i].1@) is None)
            ==> r is Err,
        r matches Ok(c) ==> c@ == schema_def@.map_values(|f: FieldDef| field_of_def(f)),
        r matches Ok(c) ==> names_unique(c@),
        r matches Err(e) ==> exists|i: int|
            first_fault(schema_def@, i) && fault_error(#[trigger] schema_def@[i], e),
{
    let mut fields: Vec<FieldEntry> = Vec::new();
    let mut i: usize = 0;
    while i < schema_def.len()
        invariant
            0 <= i <= schema_def@.len(),
            forall|j: int| 0 <= j < i ==> def_ok(schema_def@, j),
            fields@.len() == i,
            forall|j: int| 0 <= j < i ==> #[trigger] fields@[j]@ == field_of_def(schema_def@[j]),
        decreases schema_def@.len() - i,
    {
        let kind = parse_kind(schema_def[i].1.as_str());
        match kind {
            None => {
                assert(first_fault(schema_def@, i as int));
                let e = SchemaError::UnsupportedFieldType(schema_def[i].1.clone());
                assert(fault_error(schema_def@[i as int], e));
                return Err(e);
            },
            Some(kind) => {
                let mut j: usize = 0;
                while j < i
                    invariant
                        0 <= j <= i < schema_def@.len(),
                        kind_named(schema_def@[i as int].1@) == Some(kind),
                        forall|k: int| 0 <= k < i ==> def_ok(schema_def@, k),
                        forall|k: int| 0 <= k < j ==> #[trigger] schema_def@[k].0@ != schema_def@[i as int].0@,
                    decreases i - j,
                {
                    if schema_def[j].0 == schema_def[i].0 {
                        assert(schema_def@[j as int].0@ == schema_def@[i as int].0@);
                        assert(first_fault(schema_def@, i as int));
                        let e = SchemaError::DuplicateField(schema_def[i].0.clone());
                        assert(fault_error(schema_def@[i as int], e));
                        return Err(e);
                    }
                    j += 1;
                }
                let f = &schema_def[i];
                fields.push(FieldEntry { name: f.0.clone(), kind, stored: f.2, indexed: f.3 });
            },
        }
        i += 1;
    }
    assert forall|j: int| 0 <= j < schema_def@.len() implies kind_named(
        #[trigger] schema_def@[j].1@,
    ) is Some by {
        assert(def_ok(schema_def@, j));
    }
    let c = Catalogue { fields };
    assert(c@ =~= schema_def@.map_values(|f: FieldDef| field_of_def(f)));
    assert forall|a: int, b: int| 0 <= a < c@.len() && 0 <= b < c@.len() && a != b implies #[trigger] c@[a].name
        != #[trigger] c@[b].name by {
        if a < b {
            assert(def_ok(schema_def@, b));
            assert(schema_def@[a].0@ != schema_def@[b].0@);
        } else {
            assert(def_ok(schema_def@, a));
            assert(schema_def@[b].0@ != schema_def@[a].0@);
        }
    }
    Ok(c)
}

} // verus!
