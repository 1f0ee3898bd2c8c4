//! The bill-of-materials document: a stable rendering of a ledger snapshot.
//!
//! The document carries a fixed identity, tool metadata and one component
//! per ledger record, emitted in sorted order so that the rendering does not
//! depend on the order in which resources were fetched. Two documents count
//! as equal when their component sets are equal, whatever order they were
//! emitted in. The JSON transport format is produced and read by an outside
//! library behind trusted wrappers.

use crate::sbom::{
    has_key, key_le, keys_seq, lemma_append_keys, lemma_key_le_antisym, lemma_key_le_connected,
    lemma_key_le_trans, no_dup_keys, rec_key, sort_records, spec_append, GoshClassification,
    Sbom,
};
use cyclonedx_bom::models::component::Classification;
use cyclonedx_bom::models::tool::{Tool, Tools};
use cyclonedx_bom::prelude::{Bom, Component, Components, Metadata, NormalizedString, Purl, UrnUuid};
use vstd::prelude::*;

verus! {

/// The classification a document component carries.
#[derive(Debug, Clone, Copy, PartialEq, Eq, Structural)]
pub enum ComponentKind {
    File,
    Library,
}

/// How ledger classifications map into document classifications: files stay
/// files; commits and repositories are recorded as libraries.
pub open spec fn kind_of(c: GoshClassification) -> ComponentKind {
    match c {
        GoshClassification::File => ComponentKind::File,
        GoshClassification::Commit => ComponentKind::Library,
        GoshClassification::Repository => ComponentKind::Library,
    }
}

/// One component of the document.
#[derive(Debug)]
pub struct BomComponent {
    pub kind: ComponentKind,
    pub name: String,
    pub version: String,
    pub purl: String,
}

/// The document: fixed identity, tool metadata, and the components.
#[derive(Debug)]
pub struct BomDocument {
    pub serial_number: String,
    pub tool: String,
    pub components: Vec<BomComponent>,
}

/// The mathematical identity of a component.
pub open spec fn comp_key(c: BomComponent) -> (ComponentKind, Seq<char>, Seq<char>, Seq<char>) {
    (c.kind, c.name@, c.version@, c.purl@)
}

/// The component identities of a document, in emission order.
pub open spec fn comp_keys(s: Seq<BomComponent>) -> Seq<
    (ComponentKind, Seq<char>, Seq<char>, Seq<char>),
> {
    s.map_values(|c: BomComponent| comp_key(c))
}

/// What an outside package-URL renderer returns for a package type, name and
/// version; a function of those three alone.
pub uninterp spec fn purl_of(ptype: Seq<char>, name: Seq<char>, version: Seq<char>) -> Seq<char>;

/// Relies on cyclonedx_bom's Purl::new, which renders a package URL through
/// the packageurl crate from the type, name and version alone. The renderer
/// validates only the package type — letters, digits, `.`, `+`, `-`, not
/// starting with a digit — so for the library's own fixed type it always
/// succeeds, whatever the name and version hold.
#[verifier::external_body]
fn purl_string(ptype: &str, name: &str, version: &str) -> (r: Option<String>)
    ensures
        r matches Some(p) ==> p@ == purl_of(ptype@, name@, version@),
        ptype@ == spec_purl_type() ==> r is Some,
{
    match Purl::new(ptype, name, version) {
        Ok(p) => Some(p.to_string()),
        Err(_) => None,
    }
}

/// The fields of a component as handed to the JSON transport: whether it is
/// a file, then name, version and package URL.
pub open spec fn json_entry(c: BomComponent) -> (bool, Seq<char>, Seq<char>, Seq<char>) {
    (c.kind is File, c.name@, c.version@, c.purl@)
}

/// The transport fields of all components, in order.
pub open spec fn json_entries(s: Seq<BomComponent>) -> Seq<(bool, Seq<char>, Seq<char>, Seq<char>)> {
    s.map_values(|c: BomComponent| json_entry(c))
}

/// What the outside JSON serializer emits for a document with the given
/// serial number, tool name and components; a function of those alone.
pub uninterp spec fn document_json(
    serial: Seq<char>,
    tool: Seq<char>,
    comps: Seq<(bool, Seq<char>, Seq<char>, Seq<char>)>,
) -> Seq<u8>;

/// What the outside JSON parser reads out of the given bytes — the serial
/// number and the component fields — when it accepts them; a function of
/// the bytes alone.
pub uninterp spec fn parsed_document(b: Seq<u8>) -> Option<
    (Seq<char>, Seq<(bool, Seq<char>, Seq<char>, Seq<char>)>),
>;

/// Ways reading a document can fail; building and serializing one cannot.
#[derive(Debug, Clone, Copy, PartialEq, Eq, Structural)]
pub enum DocumentError {
    /// The JSON serializer failed.
    Serialize,
    /// The bytes are not a document the JSON parser accepts.
    Parse,
}

#[verifier::external_type_specification]
#[verifier::external_body]
pub struct ExBom(Bom);

#[verifier::external_type_specification]
#[verifier::external_body]
pub struct ExClassification(Classification);

/// What the outside JSON serializer emits for a given transport document;
/// a function of that document alone.
pub uninterp spec fn bom_json(b: Bom) -> Seq<u8>;

/// What the fields of a given transport document are, as read back out of
/// it; a function of that document alone.
pub uninterp spec fn bom_fields(b: Bom) -> (Seq<char>, Seq<(bool, Seq<char>, Seq<char>, Seq<char>)>);

/// Relies on cyclonedx_bom's Component, Metadata and Bom constructors: the
/// transport document is built from the given fields alone, so its JSON
/// rendering is a function of those fields.
#[verifier::external_body]
fn transport_bom(doc: &BomDocument) -> (r: Bom)
    ensures
        bom_json(r) == document_json(doc.serial_number@, doc.tool@, json_entries(doc.components@)),
{
    let comps = doc.components.iter().map(
        |c| {
            let kind = if matches!(c.kind, ComponentKind::File) { Classification::File } else { Classification::Library };
            let mut item = Component::new(kind, &c.name, &c.version, None);
            item.purl = c.purl.parse::<Purl>().ok();
            item
        },
    ).collect();
    let tool = Tool { name: Some(NormalizedString::new(&doc.tool)), ..Tool::default() };
    Bom {
        serial_number: UrnUuid::new(doc.serial_number.clone()).ok(),
        metadata: Some(Metadata { tools: Some(Tools(vec![tool])), ..Metadata::default() }),
        components: Some(Components(comps)),
        ..Bom::default()
    }
}

/// Relies on cyclonedx_bom's JSON v1.3 serializer: the emitted bytes are a
/// function of the transport document alone. The serializer writes plain
/// derive-serialized data into a growable buffer, so it cannot fail.
#[verifier::external_body]
fn bom_json_bytes(bom: Bom) -> (r: Result<Vec<u8>, DocumentError>)
    ensures
        r is Ok,
        r matches Ok(b) ==> b@ == bom_json(bom),
{
    let mut out = Vec::new();
    match bom.output_as_json_v1_3(&mut out) {
        Ok(()) => Ok(out),
        Err(_) => Err(DocumentError::Serialize),
    }
}

/// Serialize a document: this always succeeds, and the bytes are a
/// function of the document's fields alone.
pub fn document_to_json(doc: &BomDocument) -> (r: Result<Vec<u8>, DocumentError>)
    ensures
        r is Ok,
        r matches Ok(b) ==> b@ == document_json(
            doc.serial_number@,
            doc.tool@,
            json_entries(doc.components@),
        ),
{
    bom_json_bytes(transport_bom(doc))
}

/// Relies on cyclonedx_bom's JSON v1.3 parser: whether the bytes are
/// accepted, and the transport document they hold, is a function of the
/// bytes alone.
#[verifier::external_body]
fn parse_bom(bytes: &Vec<u8>) -> (r: Result<Bom, DocumentError>)
    ensures
        r is Ok <==> parsed_document(bytes@) is Some,
        r matches Ok(b) ==> bom_fields(b) == parsed_document(bytes@).unwrap(),
{
    Bom::parse_from_json_v1_3(&bytes[..]).map_err(|_| DocumentError::Parse)
}

/// Relies on reading the transport document's own fields: a component
/// classified as anything but a file is read back as a library.
#[verifier::external_body]
fn document_of_bom(bom: Bom) -> (r: BomDocument)
    ensures
        (r.serial_number@, json_entries(r.components@)) == bom_fields(bom),
{
    let serial_number = bom.serial_number.map(|u| u.to_string()).unwrap_or_default();
    let components = bom.components.map(|x| x.0).unwrap_or_default().into_iter().map(
        |c| BomComponent {
            kind: if matches!(c.component_type, Classification::File) { ComponentKind::File } else { ComponentKind::Library },
            name: c.name.to_string(),
            version: c.version.to_string(),
            purl: c.purl.map(|p| p.to_string()).unwrap_or_default(),
        },
    ).collect();
    BomDocument { serial_number, tool: String::new(), components }
}

/// Read a document back from its JSON bytes: accepted exactly when the
/// parser accepts them, and holding exactly the fields the parser read.
pub fn load_bom(bytes: &Vec<u8>) -> (r: Result<BomDocument, DocumentError>)
    ensures
        r is Ok <==> parsed_document(bytes@) is Some,
        r matches Ok(d) ==> (d.serial_number@, json_entries(d.components@)) == parsed_document(
            bytes@,
        ).unwrap(),
{
    match parse_bom(bytes) {
        Ok(b) => Ok(document_of_bom(b)),
        Err(e) => Err(e),
    }
}

/// The fixed document identity every emitted document carries.
pub open spec fn spec_serial() -> Seq<char> {
    "urn:uuid:3e671687-395b-41f5-a30f-a58921a69b79"@
}

/// The tool name recorded in the document's metadata.
pub open spec fn spec_tool_name() -> Seq<char> {
    "gosh-docker-build"@
}

/// The version every component is recorded with.
pub open spec fn spec_version() -> Seq<char> {
    "1.0.0"@
}

/// The package type of every component's package URL.
pub open spec fn spec_purl_type() -> Seq<char> {
    "gosh"@
}

/// The document component a ledger record key turns into.
pub open spec fn comp_of_key(k: (GoshClassification, Seq<char>)) -> (
    ComponentKind,
    Seq<char>,
    Seq<char>,
    Seq<char>,
) {
    (kind_of(k.0), k.1, spec_version(), purl_of(spec_purl_type(), k.1, spec_version()))
}

/// The record-key order as a relation value.
pub open spec fn key_order() -> spec_fn(
    (GoshClassification, Seq<char>),
    (GoshClassification, Seq<char>),
) -> bool {
    |a: (GoshClassification, Seq<char>), b: (GoshClassification, Seq<char>)| key_le(a, b)
}

/// The record-key order is a total order.
pub proof fn lemma_key_order_total()
    ensures
        vstd::relations::total_ordering(key_order()),
{
    let leq = key_order();
    assert forall|x: (GoshClassification, Seq<char>)| #[trigger] leq(x, x) by {
        assert(key_le(x, x));
    }
    assert forall|x: (GoshClassification, Seq<char>), y: (GoshClassification, Seq<char>)|
        #[trigger] leq(x, y) && #[trigger] leq(y, x) implies x == y by {
        lemma_key_le_antisym(x, y);
    }
    assert forall|
        x: (GoshClassification, Seq<char>),
        y: (GoshClassification, Seq<char>),
        z: (GoshClassification, Seq<char>),
    |
        #[trigger] leq(x, y) && #[trigger] leq(y, z) implies leq(x, z) by {
        lemma_key_le_trans(x, y, z);
    }
    assert forall|x: (GoshClassification, Seq<char>), y: (GoshClassification, Seq<char>)| #[trigger]
        leq(x, y) || #[trigger] leq(y, x) by {
        lemma_key_le_connected(x, y);
    }
}

/// The components of the document of a ledger: its record keys in canonical
/// sorted order, each turned into a component.
pub open spec fn doc_components_of(s: Seq<(GoshClassification, String)>) -> Seq<
    (ComponentKind, Seq<char>, Seq<char>, Seq<char>),
> {
    keys_seq(s).sort_by(key_order()).map_values(|k: (GoshClassification, Seq<char>)| comp_of_key(k))
}

fn kind_exec(c: GoshClassification) -> (r: ComponentKind)
    ensures
        r == kind_of(c),
{
    match c {
        GoshClassification::File => ComponentKind::File,
        GoshClassification::Commit => ComponentKind::Library,
        GoshClassification::Repository => ComponentKind::Library,
    }
}

impl Sbom {
    /// Build the bill-of-materials document of this ledger: the fixed
    /// serial number and tool name, and one component per record, in sorted
    /// order, so that the document does not depend on insertion order. This
    /// always succeeds: the package-URL renderer accepts the library's
    /// fixed package type whatever the record identities hold.
    pub fn get_bom(&self) -> (r: Result<BomDocument, DocumentError>)
        ensures
            r is Ok,
            r matches Ok(d) ==> {
                &&& d.serial_number@ == spec_serial()
                &&& d.tool@ == spec_tool_name()
                &&& comp_keys(d.components@) == doc_components_of(self.inner@)
            },
    {
        let sorted = sort_records(&self.inner);
        proof {
            lemma_key_order_total();
            let canon = keys_seq(self.inner@).sort_by(key_order());
            keys_seq(self.inner@).lemma_sort_by_ensures(key_order());
            assert(vstd::relations::sorted_by(keys_seq(sorted@), key_order())) by {
                assert(forall|i: int, j: int|
                    0 <= i < j < sorted@.len() ==> key_le(
                        rec_key(sorted@[i]),
                        rec_key(sorted@[j]),
                    ));
                assert(forall|i: int|
                    0 <= i < sorted@.len() ==> keys_seq(sorted@)[i] == rec_key(sorted@[i]));
            }
            vstd::seq_lib::lemma_sorted_unique(keys_seq(sorted@), canon, key_order());
            assert(keys_seq(sorted@) == canon);
        }
        let n = sorted.len();
        let mut components: Vec<BomComponent> = Vec::new();
        assert(comp_keys(components@) =~= keys_seq(sorted@.subrange(0, 0)).map_values(
            |k: (GoshClassification, Seq<char>)| comp_of_key(k),
        ));
        let mut i: usize = 0;
        while i < n
            invariant
                n == sorted@.len(),
                i <= n,
                comp_keys(components@) == keys_seq(sorted@.subrange(0, i as int)).map_values(
                    |k: (GoshClassification, Seq<char>)| comp_of_key(k),
                ),
            decreases n - i,
        {
            let kind = kind_exec(sorted[i].0);
            let name = sorted[i].1.clone();
            let version = String::from_str("1.0.0");
            let purl = match purl_string("gosh", name.as_str(), version.as_str()) {
                Some(p) => p,
                None => {
                    assert(false);
                    unreached()
                },
            };
            let c = BomComponent { kind, name, version, purl };
            assert(comp_key(c) == comp_of_key(rec_key(sorted@[i as int])));
            let ghost cs = components@;
            components.push(c);
            proof {
                let f = |k: (GoshClassification, Seq<char>)| comp_of_key(k);
                assert(comp_keys(components@) =~= comp_keys(cs).push(comp_of_key(
                    rec_key(sorted@[i as int]),
                )));
                assert(keys_seq(sorted@.subrange(0, i + 1)) =~= keys_seq(
                    sorted@.subrange(0, i as int),
                ).push(rec_key(sorted@[i as int])));
                assert(keys_seq(sorted@.subrange(0, i + 1)).map_values(f) =~= keys_seq(
                    sorted@.subrange(0, i as int),
                ).map_values(f).push(comp_of_key(rec_key(sorted@[i as int]))));
                assert(comp_keys(components@) =~= keys_seq(sorted@.subrange(0, i + 1)).map_values(
                    f,
                ));
            }
            i += 1;
        }
        assert(sorted@.subrange(0, n as int) =~= sorted@);
        let serial_number = String::from_str("urn:uuid:3e671687-395b-41f5-a30f-a58921a69b79");
        let tool = String::from_str("gosh-docker-build");
        Ok(BomDocument { serial_number, tool, components })
    }
}

fn comp_eq(a: &BomComponent, b: &BomComponent) -> (r: bool)
    ensures
        r == (comp_key(*a) == comp_key(*b)),
{
    let kind_eq = a.kind == b.kind;
    let name_eq = a.name == b.name;
    let version_eq = a.version == b.version;
    let purl_eq = a.purl == b.purl;
    kind_eq && name_eq && version_eq && purl_eq
}

fn holds_comp(v: &Vec<BomComponent>, c: &BomComponent) -> (r: bool)
    ensures
        r == comp_keys(v@).contains(comp_key(*c)),
{
    let n = v.len();
    let mut i: usize = 0;
    while i < n
        invariant
            n == v@.len(),
            i <= n,
            forall|j: int| 0 <= j < i ==> comp_keys(v@)[j] != comp_key(*c),
        decreases n - i,
    {
        if comp_eq(&v[i], c) {
            assert(comp_keys(v@)[i as int] == comp_key(*c));
            return true;
        }
        i += 1;
    }
    assert(forall|j: int| 0 <= j < v@.len() ==> comp_keys(v@)[j] != comp_key(*c));
    false
}

fn included_in(a: &Vec<BomComponent>, b: &Vec<BomComponent>) -> (r: bool)
    ensures
        r == forall|i: int|
            0 <= i < a@.len() ==> comp_keys(b@).contains(#[trigger] comp_keys(a@)[i]),
{
    let n = a.len();
    let mut i: usize = 0;
    while i < n
        invariant
            n == a@.len(),
            i <= n,
            forall|j: int| 0 <= j < i ==> comp_keys(b@).contains(#[trigger] comp_keys(a@)[j]),
        decreases n - i,
    {
        if !holds_comp(b, &a[i]) {
            assert(!comp_keys(b@).contains(comp_keys(a@)[i as int]));
            return false;
        }
        i += 1;
    }
    true
}

impl BomDocument {
    /// Whether this document and `other` list the same components, ignoring
    /// order and duplicate emission.
    pub fn compare(&self, other: &BomDocument) -> (r: bool)
        ensures
            r == (comp_keys(self.components@).to_set() == comp_keys(other.components@).to_set()),
    {
        let fwd = included_in(&self.components, &other.components);
        let bwd = included_in(&other.components, &self.components);
        proof {
            let sa = comp_keys(self.components@);
            let sb = comp_keys(other.components@);
            if fwd && bwd {
                assert forall|x: (ComponentKind, Seq<char>, Seq<char>, Seq<char>)|
                    sa.to_set().contains(x) implies sb.to_set().contains(x) by {
                    let i = choose|i: int| 0 <= i < sa.len() && sa[i] == x;
                    assert(sb.contains(sa[i]));
                }
                assert forall|x: (ComponentKind, Seq<char>, Seq<char>, Seq<char>)|
                    sb.to_set().contains(x) implies sa.to_set().contains(x) by {
                    let i = choose|i: int| 0 <= i < sb.len() && sb[i] == x;
                    assert(sa.contains(sb[i]));
                }
                assert(sa.to_set() =~= sb.to_set());
            } else if !fwd {
                let i = choose|i: int| 0 <= i < sa.len() && !sb.contains(#[trigger] sa[i]);
                assert(sa.to_set().contains(sa[i]));
                assert(!sb.to_set().contains(sa[i]));
            } else {
                let i = choose|i: int| 0 <= i < sb.len() && !sa.contains(#[trigger] sb[i]);
                assert(sb.to_set().contains(sb[i]));
                assert(!sa.to_set().contains(sb[i]));
            }
        }
        fwd && bwd
    }
}

proof fn lemma_nodup_count(x: Seq<(GoshClassification, Seq<char>)>, e: (GoshClassification, Seq<char>))
    requires
        x.no_duplicates(),
    ensures
        x.to_multiset().count(e) == (if x.contains(e) {
            1nat
        } else {
            0nat
        }),
    decreases x.len(),
{
    broadcast use vstd::seq_lib::group_to_multiset_ensures;
    broadcast use vstd::multiset::group_multiset_axioms;

    if x.len() == 0 {
        assert(!x.contains(e));
    } else {
        let r = x.drop_last();
        assert(r.no_duplicates()) by {
            assert(forall|i: int, j: int|
                0 <= i < j < r.len() ==> r[i] == x[i] && r[j] == x[j]);
        }
        lemma_nodup_count(r, e);
        assert(x =~= r.push(x.last()));
        vstd::seq_lib::to_multiset_build(r, x.last());
        if e == x.last() {
            assert(!r.contains(e)) by {
                assert(forall|i: int| 0 <= i < r.len() ==> #[trigger] x[i] != x[x.len() - 1]);
            }
            assert(x.contains(e)) by {
                assert(x[x.len() - 1] == e);
            }
        } else {
            assert(x.contains(e) == r.contains(e)) by {
                if x.contains(e) {
                    let i = choose|i: int| 0 <= i < x.len() && x[i] == e;
                    assert(r[i] == e);
                }
                if r.contains(e) {
                    let i = choose|i: int| 0 <= i < r.len() && r[i] == e;
                    assert(x[i] == e);
                }
            }
        }
    }
}

proof fn lemma_nodup_same_set_multiset(
    x: Seq<(GoshClassification, Seq<char>)>,
    y: Seq<(GoshClassification, Seq<char>)>,
)
    requires
        x.no_duplicates(),
        y.no_duplicates(),
        x.to_set() == y.to_set(),
    ensures
        x.to_multiset() == y.to_multiset(),
{
    broadcast use vstd::set::group_set_axioms;

    assert forall|e: (GoshClassification, Seq<char>)|
        x.to_multiset().count(e) == y.to_multiset().count(e) by {
        lemma_nodup_count(x, e);
        lemma_nodup_count(y, e);
        assert(x.contains(e) == x.to_set().contains(e));
        assert(y.contains(e) == y.to_set().contains(e));
    }
    assert(x.to_multiset() =~= y.to_multiset());
}

proof fn lemma_multiset_eq_to_set_eq(
    x: Seq<(GoshClassification, Seq<char>)>,
    y: Seq<(GoshClassification, Seq<char>)>,
)
    requires
        x.to_multiset() == y.to_multiset(),
    ensures
        x.to_set() == y.to_set(),
{
    broadcast use vstd::seq_lib::to_multiset_contains;
    broadcast use vstd::set::group_set_axioms;

    assert forall|e: (GoshClassification, Seq<char>)|
        x.to_set().contains(e) == y.to_set().contains(e) by {
        assert(x.contains(e) <==> x.to_multiset().count(e) > 0);
        assert(y.contains(e) <==> y.to_multiset().count(e) > 0);
    }
    assert(x.to_set() =~= y.to_set());
}

/// The set of components a ledger's document holds is the image of its set
/// of record keys.
pub proof fn lemma_doc_component_set(s: Seq<(GoshClassification, String)>)
    ensures
        doc_components_of(s).to_set() == keys_seq(s).to_set().map(
            |k: (GoshClassification, Seq<char>)| comp_of_key(k),
        ),
{
    broadcast use vstd::set::group_set_axioms;

    lemma_key_order_total();
    let ks = keys_seq(s);
    let sorted = ks.sort_by(key_order());
    ks.lemma_sort_by_ensures(key_order());
    lemma_multiset_eq_to_set_eq(sorted, ks);
    sorted.lemma_to_set_map_commutes(|k: (GoshClassification, Seq<char>)| comp_of_key(k));
}

/// Ledger records determine the document: two well-formed ledgers holding
/// the same set of records produce the same document components, whatever
/// order the records arrived in.
pub proof fn lemma_same_records_same_document(
    a: Seq<(GoshClassification, String)>,
    b: Seq<(GoshClassification, String)>,
)
    requires
        no_dup_keys(a),
        no_dup_keys(b),
        keys_seq(a).to_set() == keys_seq(b).to_set(),
    ensures
        doc_components_of(a) == doc_components_of(b),
{
    lemma_key_order_total();
    assert(keys_seq(a).no_duplicates()) by {
        assert(forall|i: int|
            0 <= i < a.len() ==> keys_seq(a)[i] == rec_key(a[i]));
    }
    assert(keys_seq(b).no_duplicates()) by {
        assert(forall|i: int|
            0 <= i < b.len() ==> keys_seq(b)[i] == rec_key(b[i]));
    }
    lemma_nodup_same_set_multiset(keys_seq(a), keys_seq(b));
    keys_seq(a).lemma_sort_by_ensures(key_order());
    keys_seq(b).lemma_sort_by_ensures(key_order());
    vstd::seq_lib::lemma_sorted_unique(
        keys_seq(a).sort_by(key_order()),
        keys_seq(b).sort_by(key_order()),
        key_order(),
    );
    assert(keys_seq(a).sort_by(key_order()) == keys_seq(b).sort_by(key_order()));
}

/// Components with the same identities hand the same fields to the JSON
/// transport, so — with the ledger determinism above — two well-formed
/// ledgers holding the same set of records serialize to the same bytes.
pub proof fn lemma_entries_of_comp_keys(a: Seq<BomComponent>, b: Seq<BomComponent>)
    requires
        comp_keys(a) == comp_keys(b),
    ensures
        json_entries(a) == json_entries(b),
{
    assert(comp_keys(a).len() == a.len());
    assert(comp_keys(b).len() == b.len());
    assert forall|i: int| 0 <= i < a.len() implies json_entries(a)[i] == json_entries(b)[i] by {
        assert(comp_keys(a)[i] == comp_keys(b)[i]);
        assert(comp_key(a[i]) == comp_key(b[i]));
        assert(a[i].kind == b[i].kind);
    }
    assert(json_entries(a) =~= json_entries(b));
}

/// A ledger that additionally holds one record no baseline record shares a
/// document component with — an extra fetched file, say — yields a document
/// with a different component set.
pub proof fn lemma_extra_record_changes_document(
    a: Seq<(GoshClassification, String)>,
    p: (GoshClassification, String),
)
    requires
        forall|j: int|
            0 <= j < a.len() ==> comp_of_key(rec_key(#[trigger] a[j])) != comp_of_key(rec_key(p)),
    ensures
        doc_components_of(spec_append(a, p)).to_set() != doc_components_of(a).to_set(),
{
    broadcast use vstd::set::group_set_axioms;

    let f = |k: (GoshClassification, Seq<char>)| comp_of_key(k);
    assert(!has_key(a, rec_key(p)));
    lemma_doc_component_set(a);
    lemma_doc_component_set(spec_append(a, p));
    lemma_append_keys(a, p);
    let extra = comp_of_key(rec_key(p));
    assert(doc_components_of(spec_append(a, p)).to_set().contains(extra)) by {
        assert(keys_seq(spec_append(a, p)).to_set().contains(rec_key(p)));
    }
    assert(!doc_components_of(a).to_set().contains(extra)) by {
        if keys_seq(a).to_set().map(f).contains(extra) {
            let k = choose|k: (GoshClassification, Seq<char>)|
                keys_seq(a).to_set().contains(k) && f(k) == extra;
            assert(keys_seq(a).contains(k));
            let j = choose|j: int| 0 <= j < keys_seq(a).len() && keys_seq(a)[j] == k;
            assert(comp_of_key(rec_key(a[j])) == extra);
        }
    }
}

/// The default file name the document is persisted under.
pub fn sbom_default_file_name() -> (r: String)
    ensures
        r@ == "sbom.spdx.json"@,
{
    String::from_str("sbom.spdx.json")
}

impl GoshClassification {
    /// Relies on cyclonedx_bom's Classification values: the document
    /// classification a ledger classification is recorded as — files as
    /// files, commits and repositories as libraries.
    #[verifier::external_body]
    pub fn to_component_type(&self) -> Classification {
        match self {
            GoshClassification::File => Classification::File,
            GoshClassification::Commit => Classification::Library,
            GoshClassification::Repository => Classification::Library,
        }
    }
}

/// The session's verdict on a validation run: success exactly when the
/// fresh document compares equal to the prior one.
pub fn validate_outcome(matches_prior: bool) -> (r: Result<(), crate::errors::ValidationError>)
    ensures
        r is Ok <==> matches_prior,
{
    if matches_prior {
        Ok(())
    } else {
        Err(crate::errors::ValidationError {})
    }
}

} // verus!



