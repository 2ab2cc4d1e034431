//! Reading the mapping catalog and the ambient identity out of flattened
//! device-tree blobs.
//!
//! The device-tree accessor itself is a capability this crate consumes,
//! not something it implements: the `flat_device_tree` crate parses the
//! blobs behind the trusted declarations below.  What each accessor call
//! returns is a function of the blob bytes alone, so the results carry
//! names: a handle denotes its bytes (`fdt_doc`), every node carries an
//! abstract identity (`node_id`, the same node value always denoting the
//! same node of the same document), and the content names (`name_of`,
//! `child_ids`, `prop_entries`, `prop_list`, `prop_str`) say what the
//! accessors answer for an identity.  The verified conversion below is
//! then proved, entry for entry, against [`catalog_model`], the catalog
//! those names denote for the blob.

use vstd::prelude::*;
use vstd::utf8::encode_utf8;

use crate::bytes::copy_range;
use crate::bytes::read_u32_be;
use crate::bytes::u32_be;
use crate::dmi::str_eq;
use crate::matching::CandidateDevice;
use crate::matching::DmiMatchField;
use crate::matching::MappingCatalog;

verus! {

#[verifier::external_type_specification]
#[verifier::external_body]
pub struct ExFdt<'a>(flat_device_tree::Fdt<'a>);

#[verifier::external_type_specification]
#[verifier::external_body]
pub struct ExFdtNode<'b, 'a: 'b>(flat_device_tree::node::FdtNode<'b, 'a>);

#[verifier::external_type_specification]
#[verifier::external_body]
pub struct ExRoot<'b, 'a: 'b>(flat_device_tree::standard_nodes::Root<'b, 'a>);

/// Whether a byte buffer parses as a flattened device tree.
pub uninterp spec fn fdt_ok(data: Seq<u8>) -> bool;

/// The document bytes a parsed handle denotes.
pub uninterp spec fn fdt_doc(f: flat_device_tree::Fdt<'_>) -> Seq<u8>;

/// The identity of the document's root node.
pub uninterp spec fn root_node_id(doc: Seq<u8>) -> int;

/// The abstract identity of a node value: the same node value always
/// denotes the same node of the same document.
pub uninterp spec fn node_id(n: flat_device_tree::node::FdtNode<'_, '_>) -> int;

/// The identities of a node's children, in document order.
pub uninterp spec fn child_ids(id: int) -> Seq<int>;

/// A node's name.
pub uninterp spec fn name_of(id: int) -> Seq<char>;

/// A node's properties in document order, each as its name and its value
/// read as a NUL-separated string list.
pub uninterp spec fn prop_entries(id: int) -> Seq<(Seq<char>, Seq<Seq<char>>)>;

/// The value of a node's property of the given name, read as a
/// NUL-separated string list; nothing when the property is absent.
pub uninterp spec fn prop_list(id: int, name: Seq<char>) -> Option<Seq<Seq<char>>>;

/// The value of a node's property of the given name, read as one string;
/// nothing when the property is absent or its value is not readable as a
/// string.
pub uninterp spec fn prop_str(id: int, name: Seq<char>) -> Option<Seq<char>>;

/// Whether the document has a root node.
pub uninterp spec fn root_exists(doc: Seq<u8>) -> bool;

/// The document bytes a root handle denotes.
pub uninterp spec fn root_doc(r: flat_device_tree::standard_nodes::Root<'_, '_>) -> Seq<u8>;

/// The root node's `compatible` strings, in property order.
pub uninterp spec fn root_compat(doc: Seq<u8>) -> Seq<Seq<char>>;

/// The element views of a sequence of strings.
pub open spec fn str_views(v: Seq<String>) -> Seq<Seq<char>> {
    v.map_values(|s: String| s@)
}

/// The view of a sequence of property entries.
pub open spec fn entries_views(v: Seq<(String, Vec<String>)>) -> Seq<(Seq<char>, Seq<Seq<char>>)> {
    v.map_values(|e: (String, Vec<String>)| (e.0@, str_views(e.1@)))
}

/// Relies on `flat_device_tree::Fdt::new`: parses a devicetree blob out of
/// a byte buffer, validating the header; whether it parses, and the
/// document the handle denotes, are functions of the bytes.
#[verifier::external_body]
fn fdt_parse(data: &[u8]) -> (r: Option<flat_device_tree::Fdt<'_>>)
    ensures
        r is Some <==> fdt_ok(data@),
        r matches Some(f) ==> fdt_doc(f) == data@,
{
    flat_device_tree::Fdt::new(data).ok()
}

/// Relies on `flat_device_tree::Fdt::find_node` with the root path.  The
/// call is given no other path: for any other path a miss falls back to
/// alias resolution, which re-enters `find_node` on an attacker-chosen
/// string and loops forever on an alias cycle.  For the root path the
/// fallback cannot resolve (reading the `/aliases` node needs the very
/// root that was not found), so the call always returns.
#[verifier::external_body]
fn fdt_root_node<'b, 'a>(
    fdt: &'b flat_device_tree::Fdt<'a>,
) -> (r: Option<flat_device_tree::node::FdtNode<'b, 'a>>)
    ensures
        r is Some <==> root_exists(fdt_doc(*fdt)),
        r matches Some(n) ==> node_id(n) == root_node_id(fdt_doc(*fdt)),
{
    fdt.find_node("/")
}

/// Relies on `flat_device_tree::Fdt::root`: the root node, when present.
/// It looks the root path up internally, for which the alias fallback
/// cannot re-enter (see [`fdt_root_node`]), so the call always returns.
#[verifier::external_body]
fn fdt_root<'b, 'a>(
    fdt: &'b flat_device_tree::Fdt<'a>,
) -> (r: Option<flat_device_tree::standard_nodes::Root<'b, 'a>>)
    ensures
        r is Some <==> root_exists(fdt_doc(*fdt)),
        r matches Some(rt) ==> root_doc(rt) == fdt_doc(*fdt),
{
    fdt.root().ok()
}

/// Relies on `flat_device_tree::standard_nodes::Root::compatible` and
/// `Compatible::all`: the root `compatible` value split on NULs.  A
/// missing or empty value yields one empty string; a value that is not
/// valid UTF-8 yields nothing.
#[verifier::external_body]
fn root_compatible_strings(root: &flat_device_tree::standard_nodes::Root<'_, '_>) -> (r: Vec<
    String,
>)
    ensures
        str_views(r@) == root_compat(root_doc(*root)),
{
    root.compatible().all().map(|s| s.to_owned()).collect()
}

/// Relies on `flat_device_tree::node::FdtNode::children`: the child nodes
/// in document order.
#[verifier::external_body]
fn node_children<'b, 'a>(
    node: &flat_device_tree::node::FdtNode<'b, 'a>,
) -> (r: Vec<flat_device_tree::node::FdtNode<'b, 'a>>)
    ensures
        r@.len() == child_ids(node_id(*node)).len(),
        forall|i: int|
            0 <= i < r@.len() ==> node_id(#[trigger] r@[i]) == child_ids(node_id(*node))[i],
{
    (*node).children().collect()
}

/// Relies on the `name` field of `flat_device_tree::node::FdtNode`.
#[verifier::external_body]
fn node_name(node: &flat_device_tree::node::FdtNode<'_, '_>) -> (r: String)
    ensures
        r@ == name_of(node_id(*node)),
{
    node.name.to_owned()
}

/// Relies on `flat_device_tree::node::FdtNode::properties` together with
/// the `name` field and `iter_str` of each property: the node's
/// properties in document order, each as its name and its value split on
/// NULs.  An empty value yields one empty string; a value that is not
/// valid UTF-8 yields nothing.
#[verifier::external_body]
fn node_property_entries(node: &flat_device_tree::node::FdtNode<'_, '_>) -> (r: Vec<
    (String, Vec<String>),
>)
    ensures
        entries_views(r@) == prop_entries(node_id(*node)),
{
    (*node).properties().map(
        |p| (p.name.to_owned(), p.iter_str().map(|s| s.to_owned()).collect()),
    ).collect()
}

/// Relies on `flat_device_tree::node::FdtNode::property` and
/// `NodeProperty::iter_str`: the named property's value split on NULs.
/// An empty value yields one empty string; a value that is not valid
/// UTF-8 yields nothing.
#[verifier::external_body]
fn node_property_string_list(
    node: &flat_device_tree::node::FdtNode<'_, '_>,
    name: &str,
) -> (r: Option<Vec<String>>)
    ensures
        (match r {
            Some(v) => Some(str_views(v@)),
            None => None,
        }) == prop_list(node_id(*node), name@),
{
    (*node).property(name).map(|p| p.iter_str().map(|s| s.to_owned()).collect())
}

/// Relies on `flat_device_tree::node::FdtNode::property` and
/// `NodeProperty::as_str`: the named property's value as one string,
/// trailing NULs dropped; nothing when the property is absent or its
/// value is not valid UTF-8.
#[verifier::external_body]
fn node_property_string(
    node: &flat_device_tree::node::FdtNode<'_, '_>,
    name: &str,
) -> (r: Option<String>)
    ensures
        (match r {
            Some(s) => Some(s@),
            None => None,
        }) == prop_str(node_id(*node), name@),
{
    (*node).property(name).and_then(|p| p.as_str()).map(|s| s.to_owned())
}

/// What one `dmi-match` constraint denotes: the property's name and its
/// acceptable values as byte strings.
pub struct FieldModel {
    pub name: Seq<char>,
    pub values: Seq<Seq<u8>>,
}

/// What one usable catalog entry denotes.
pub struct CandidateModel {
    pub name: Seq<char>,
    pub compatible: Option<Seq<Seq<char>>>,
    pub dmi: Option<Seq<FieldModel>>,
    pub dtb: Seq<char>,
}

/// The constraint one property entry denotes: its values are the UTF-8
/// bytes of its strings.
pub open spec fn field_model(e: (Seq<char>, Seq<Seq<char>>)) -> FieldModel {
    FieldModel { name: e.0, values: e.1.map_values(|s: Seq<char>| encode_utf8(s)) }
}

/// The constraints a `dmi-match` node's property entries denote.
pub open spec fn fields_model(entries: Seq<(Seq<char>, Seq<Seq<char>>)>) -> Seq<FieldModel> {
    entries.map_values(|e: (Seq<char>, Seq<Seq<char>>)| field_model(e))
}

/// Position of the first of the first `j` children that carries the
/// given name.
pub open spec fn first_named_upto(kids: Seq<int>, name: Seq<char>, j: int) -> Option<int>
    decreases j,
{
    if j <= 0 {
        None
    } else {
        match first_named_upto(kids, name, j - 1) {
            Some(x) => Some(x),
            None => if name_of(kids[j - 1]) == name {
                Some(j - 1)
            } else {
                None
            },
        }
    }
}

/// The candidate a catalog child denotes: its name, its `compatible`
/// list when it has one, the constraints of its first `dmi-match` child
/// when it has one, and its `dtb` path.  A child whose `dtb` path is
/// absent or not readable as a string names no blob to load, so it is no
/// usable candidate.
pub open spec fn candidate_model(id: int) -> Option<CandidateModel> {
    match prop_str(id, "dtb"@) {
        None => None,
        Some(d) => Some(
            CandidateModel {
                name: name_of(id),
                compatible: prop_list(id, "compatible"@),
                dmi: match first_named_upto(
                    child_ids(id),
                    "dmi-match"@,
                    child_ids(id).len() as int,
                ) {
                    Some(j) => Some(fields_model(prop_entries(child_ids(id)[j]))),
                    None => None,
                },
                dtb: d,
            },
        ),
    }
}

/// The candidates the first `n` catalog children denote, in document
/// order, unusable children skipped.
pub open spec fn catalog_models_upto(kids: Seq<int>, n: int) -> Seq<CandidateModel>
    decreases n,
{
    if n <= 0 {
        Seq::empty()
    } else {
        let prev = catalog_models_upto(kids, n - 1);
        match candidate_model(kids[n - 1]) {
            Some(m) => prev.push(m),
            None => prev,
        }
    }
}

/// The whole catalog a mapping blob denotes: the candidates of the
/// children of the root's first child named `mapping`, in document
/// order; empty when there is no root or no such child.
pub open spec fn catalog_model(doc: Seq<u8>) -> Seq<CandidateModel> {
    if root_exists(doc) {
        let top = child_ids(root_node_id(doc));
        match first_named_upto(top, "mapping"@, top.len() as int) {
            Some(j) => {
                let kids = child_ids(top[j]);
                catalog_models_upto(kids, kids.len() as int)
            },
            None => Seq::empty(),
        }
    } else {
        Seq::empty()
    }
}

/// A read constraint carries what its model says.
pub open spec fn field_corresponds(f: DmiMatchField, m: FieldModel) -> bool {
    &&& f.name@ == m.name
    &&& f.values@.len() == m.values.len()
    &&& forall|j: int| 0 <= j < m.values.len() ==> (#[trigger] f.values@[j])@ == m.values[j]
}

/// A read constraint list carries what its models say, in order.
pub open spec fn fields_correspond(fs: Seq<DmiMatchField>, ms: Seq<FieldModel>) -> bool {
    &&& fs.len() == ms.len()
    &&& forall|i: int| 0 <= i < ms.len() ==> field_corresponds(#[trigger] fs[i], ms[i])
}

/// A read candidate carries what its model says.
pub open spec fn candidate_corresponds(c: CandidateDevice, m: CandidateModel) -> bool {
    &&& c.name@ == m.name
    &&& (match (c.compatible, m.compatible) {
        (Some(v), Some(s)) => str_views(v@) == s,
        (None, None) => true,
        _ => false,
    })
    &&& (match (c.dmi_match, m.dmi) {
        (Some(fv), Some(fm)) => fields_correspond(fv@, fm),
        (None, None) => true,
        _ => false,
    })
    &&& c.dtb@ == m.dtb
}

/// A read candidate list carries what its models say, in order.
pub open spec fn candidates_correspond(cs: Seq<CandidateDevice>, ms: Seq<CandidateModel>) -> bool {
    &&& cs.len() == ms.len()
    &&& forall|i: int| 0 <= i < ms.len() ==> candidate_corresponds(#[trigger] cs[i], ms[i])
}

/// A read catalog carries exactly what the blob denotes.
pub open spec fn catalog_corresponds(c: MappingCatalog, doc: Seq<u8>) -> bool {
    candidates_correspond(c.candidates@, catalog_model(doc))
}

/// The UTF-8 bytes of a string, as an owned buffer.
fn string_bytes(s: &String) -> (r: Vec<u8>)
    ensures
        r@ == encode_utf8(s@),
{
    let b = s.as_str().as_bytes();
    let r = copy_range(b, 0, b.len());
    proof {
        assert(r@ =~= b@);
    }
    r
}

/// Converts a `dmi-match` node's property entries into constraints: one
/// per property, in order, the values as byte strings.
#[verifier::loop_isolation(false)]
fn read_dmi_fields(entries: &Vec<(String, Vec<String>)>) -> (r: Vec<DmiMatchField>)
    ensures
        fields_correspond(r@, fields_model(entries_views(entries@))),
{
    let mut fields: Vec<DmiMatchField> = Vec::new();
    let n = entries.len();
    let mut i: usize = 0;
    while i < n
        invariant
            i <= n,
            fields@.len() == i,
            forall|k: int|
                0 <= k < i ==> field_corresponds(
                    #[trigger] fields@[k],
                    fields_model(entries_views(entries@))[k],
                ),
        decreases n - i,
    {
        let name = entries[i].0.clone();
        let strings = &entries[i].1;
        let m = strings.len();
        let mut values: Vec<Vec<u8>> = Vec::new();
        let mut j: usize = 0;
        while j < m
            invariant
                j <= m,
                m == strings@.len(),
                values@.len() == j,
                forall|k: int| 0 <= k < j ==> (#[trigger] values@[k])@ == encode_utf8(strings@[k]@),
            decreases m - j,
        {
            values.push(string_bytes(&strings[j]));
            j = j + 1;
        }
        proof {
            let ev = entries_views(entries@);
            assert(ev[i as int] == (entries@[i as int].0@, str_views(entries@[i as int].1@)));
            assert(fields_model(ev)[i as int] == field_model(ev[i as int]));
            assert(forall|k: int|
                0 <= k < m ==> str_views(strings@)[k] == (#[trigger] strings@[k])@);
            assert(forall|k: int|
                0 <= k < m ==> field_model(ev[i as int]).values[k] == encode_utf8(
                    #[trigger] str_views(strings@)[k],
                ));
            assert(field_corresponds(
                DmiMatchField { name: name, values: values },
                fields_model(ev)[i as int],
            ));
        }
        fields.push(DmiMatchField { name, values });
        i = i + 1;
    }
    fields
}

/// One catalog child as a candidate, exactly as [`candidate_model`]
/// denotes it; an entry whose `dtb` path is absent or unreadable is
/// skipped.
#[verifier::loop_isolation(false)]
fn read_candidate(node: &flat_device_tree::node::FdtNode<'_, '_>) -> (r: Option<CandidateDevice>)
    ensures
        r is Some <==> candidate_model(node_id(*node)) is Some,
        r matches Some(c) ==> (candidate_model(node_id(*node)) matches Some(m)
            && candidate_corresponds(c, m)),
{
    let ghost id = node_id(*node);
    let name = node_name(node);
    let compatible = node_property_string_list(node, "compatible");
    let kids = node_children(node);
    let mut dmi_match: Option<Vec<DmiMatchField>> = None;
    let n = kids.len();
    let mut i: usize = 0;
    while i < n
        invariant
            i <= n,
            n == child_ids(id).len(),
            match first_named_upto(child_ids(id), "dmi-match"@, i as int) {
                None => dmi_match is None,
                Some(j) => dmi_match matches Some(fv) && fields_correspond(
                    fv@,
                    fields_model(prop_entries(child_ids(id)[j])),
                ),
            },
        decreases n - i,
    {
        if dmi_match.is_none() {
            let kid_name = node_name(&kids[i]);
            if str_eq(&kid_name, "dmi-match") {
                let entries = node_property_entries(&kids[i]);
                dmi_match = Some(read_dmi_fields(&entries));
            }
        }
        i = i + 1;
    }
    let dtb: String = match node_property_string(node, "dtb") {
        None => {
            return None;
        },
        Some(s) => s,
    };
    Some(CandidateDevice { name, compatible, dmi_match, dtb })
}

/// The root's first child named `mapping`, when the document has one.
#[verifier::loop_isolation(false)]
fn find_mapping_node<'b, 'a>(
    fdt: &'b flat_device_tree::Fdt<'a>,
) -> (r: Option<flat_device_tree::node::FdtNode<'b, 'a>>)
    ensures
        ({
            let doc = fdt_doc(*fdt);
            if root_exists(doc) {
                let top = child_ids(root_node_id(doc));
                match first_named_upto(top, "mapping"@, top.len() as int) {
                    Some(j) => r matches Some(n) && node_id(n) == top[j],
                    None => r is None,
                }
            } else {
                r is None
            }
        }),
{
    let root = match fdt_root_node(fdt) {
        None => {
            return None;
        },
        Some(n) => n,
    };
    let ghost top = child_ids(node_id(root));
    let children = node_children(&root);
    let mut found: Option<flat_device_tree::node::FdtNode<'b, 'a>> = None;
    let n = children.len();
    let mut i: usize = 0;
    while i < n
        invariant
            i <= n,
            n == top.len(),
            match first_named_upto(top, "mapping"@, i as int) {
                None => found is None,
                Some(j) => found matches Some(m) && node_id(m) == top[j],
            },
        decreases n - i,
    {
        if found.is_none() {
            let name = node_name(&children[i]);
            if str_eq(&name, "mapping") {
                found = Some(children[i]);
            }
        }
        i = i + 1;
    }
    found
}

/// Reads the mapping catalog out of a mapping device-tree blob: the
/// candidates of the `mapping` node's children, in document order,
/// exactly as the blob denotes them ([`catalog_model`]).  `None` exactly
/// when the blob does not parse as a device tree; a parsed blob without
/// a `mapping` node yields an empty catalog.
#[verifier::loop_isolation(false)]
pub fn read_catalog(data: &[u8]) -> (r: Option<MappingCatalog>)
    ensures
        r is Some <==> fdt_ok(data@),
        r matches Some(c) ==> catalog_corresponds(c, data@),
{
    match fdt_parse(data) {
        None => None,
        Some(fdt) => {
            let candidates: Vec<CandidateDevice> = match find_mapping_node(&fdt) {
                None => Vec::new(),
                Some(mapping) => {
                    let ghost kid_ids = child_ids(node_id(mapping));
                    let children = node_children(&mapping);
                    let mut out: Vec<CandidateDevice> = Vec::new();
                    let n = children.len();
                    let mut i: usize = 0;
                    while i < n
                        invariant
                            i <= n,
                            n == kid_ids.len(),
                            candidates_correspond(out@, catalog_models_upto(kid_ids, i as int)),
                        decreases n - i,
                    {
                        match read_candidate(&children[i]) {
                            Some(c) => {
                                proof {
                                    assert(catalog_models_upto(kid_ids, i + 1)
                                        == catalog_models_upto(kid_ids, i as int).push(
                                        candidate_model(kid_ids[i as int]).unwrap(),
                                    ));
                                }
                                out.push(c);
                            },
                            None => {},
                        }
                        i = i + 1;
                    }
                    out
                },
            };
            Some(MappingCatalog { candidates })
        },
    }
}

/// Reads the ambient identity out of an ambient device-tree blob: the
/// root node's `compatible` strings, most specific first.  `None` exactly
/// when the blob does not parse as a device tree or has no root node.
pub fn read_ambient_compatibles(data: &[u8]) -> (r: Option<Vec<String>>)
    ensures
        r is Some <==> fdt_ok(data@) && root_exists(data@),
        r matches Some(v) ==> str_views(v@) == root_compat(data@),
{
    match fdt_parse(data) {
        None => None,
        Some(fdt) => match fdt_root(&fdt) {
            None => None,
            Some(root) => Some(root_compatible_strings(&root)),
        },
    }
}

/// The total size a flattened device-tree blob declares for itself: the
/// big-endian word at byte 4 of its header.  Lets a caller that only
/// holds the start of a blob learn how many bytes the whole blob spans.
pub fn fdt_total_size(header: &[u8]) -> (r: Option<usize>)
    ensures
        header@.len() >= 8 ==> r == Some(
            u32_be(header@[4], header@[5], header@[6], header@[7]) as usize,
        ),
        header@.len() < 8 ==> r is None,
{
    if header.len() < 8 {
        return None;
    }
    Some(read_u32_be(header, 4) as usize)
}

} // verus!
