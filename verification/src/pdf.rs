use vstd::prelude::*;

verus! {

use crate::MergeError;
use crate::graph::{
    MergePlan, ObjectRole, SourceGraph, plan_merge, role_of_type_name, spec_role_of,
};

/// The paginated-document container type of the lopdf crate, carried
/// opaquely through the merge step.
#[verifier::external_type_specification]
#[verifier::external_body]
pub struct ExDocument(lopdf::Document);

/// One object of a document's object graph, carried opaquely.
#[verifier::external_type_specification]
#[verifier::external_body]
pub struct ExObject(lopdf::Object);

/// A dictionary object, carried opaquely while its entries are set
/// through the wrappers below.
#[verifier::external_type_specification]
#[verifier::external_body]
pub struct ExDictionary(lopdf::Dictionary);

/// What the merge reads and writes of one object: its Type entry's
/// name, its Parent reference, its Kids reference array, its Count
/// integer, its Pages reference, and whether it has an Outlines entry.
/// Each component is present only when the object is a dictionary (or
/// a stream with a dictionary) holding an entry of that key and shape.
pub type ObjModel = (
    Option<Seq<u8>>,
    Option<(u32, u16)>,
    Option<Seq<(u32, u16)>>,
    Option<int>,
    Option<(u32, u16)>,
    bool,
);

/// One source object as the merge walks it: its identifier, its role,
/// and the object itself.
pub type SourceObject = ((u32, u16), ObjectRole, lopdf::Object);

/// The `ObjModel` of an object (see there); the components an object
/// does not have are `None` (`false` for the Outlines flag).
pub uninterp spec fn obj_model(obj: lopdf::Object) -> ObjModel;

/// Whether an object is a plain dictionary (the one shape whose
/// entries the merge rewrites).
pub uninterp spec fn obj_is_dict(obj: lopdf::Object) -> bool;

/// The `ObjModel` a dictionary gives to an object holding it.
pub uninterp spec fn dict_model(dict: lopdf::Dictionary) -> ObjModel;

/// A document's object table: each held identifier mapped to the
/// `ObjModel` of the object under it.
pub uninterp spec fn doc_entries(doc: lopdf::Document) -> Map<(u32, u16), ObjModel>;

/// The document trailer's Root reference, if set.
pub uninterp spec fn doc_trailer_root(doc: lopdf::Document) -> Option<(u32, u16)>;

/// The document's identifier watermark (its `max_id` field).
pub uninterp spec fn doc_max(doc: lopdf::Document) -> int;

/// The role an object's model denotes, through its Type entry's name.
pub open spec fn model_role(m: ObjModel) -> ObjectRole {
    match m.0 {
        Option::None => ObjectRole::Other,
        Option::Some(n) => spec_role_of(n),
    }
}

/// The view of an optional byte buffer.
pub open spec fn opt_bytes(o: Option<Vec<u8>>) -> Option<Seq<u8>> {
    match o {
        Option::None => Option::None,
        Option::Some(v) => Option::Some(v@),
    }
}

/// Whether some source entry could serve as the dictionary of the
/// given role under the given identifier.
pub open spec fn has_dict_with(
    ss: Seq<Seq<SourceObject>>,
    role: ObjectRole,
    id: (u32, u16),
) -> bool {
    exists|i: int, j: int|
        0 <= i < ss.len() && 0 <= j < ss[i].len() && (#[trigger] ss[i][j]).1 == role && ss[i][j].0
            == id && obj_is_dict(ss[i][j].2)
}

/// Relies on lopdf::Document::load_mem: parses a document from bytes.
#[verifier::external_body]
fn doc_load(bytes: &[u8]) -> (r: Result<lopdf::Document, String>) {
    lopdf::Document::load_mem(bytes).map_err(|e| e.to_string())
}

/// Relies on lopdf::Document::is_encrypted: whether the document
/// reports itself as encrypted.
#[verifier::external_body]
fn doc_is_encrypted(doc: &lopdf::Document) -> (r: bool) {
    doc.is_encrypted()
}

/// Relies on lopdf::Document::decrypt: a best-effort decryption with
/// an empty credential whose failure is deliberately ignored.
#[verifier::external_body]
fn doc_decrypt_empty(doc: &mut lopdf::Document) {
    let _ = doc.decrypt("");
}

/// Relies on lopdf::Document::renumber_objects_with: renumbers every
/// object identifier of the document starting at `start`. The bounds
/// keep its identifier arithmetic inside `u32` (it ends by storing
/// `start + objects - 1`) and its page-order index inside `i32`.
#[verifier::external_body]
fn doc_renumber_from(doc: &mut lopdf::Document, start: u32)
    requires
        start >= 1,
        doc_entries(*old(doc)).dom().finite(),
        doc_entries(*old(doc)).dom().len() <= 0x7FFF_FFFF,
        start + doc_entries(*old(doc)).dom().len() <= 0xFFFF_FFFF,
{
    doc.renumber_objects_with(start);
}

/// Relies on the lopdf::Document::max_id field: the highest object
/// number the document has allocated.
#[verifier::external_body]
fn doc_max_id(doc: &lopdf::Document) -> (r: u32)
    ensures
        r == doc_max(*doc),
{
    doc.max_id
}

/// Relies on iterating lopdf::Document::objects (an ordered map from
/// identifier to object) and on lopdf::Dictionary::get_type: hands out
/// each object's identifier, its Type entry's name if it is a
/// dictionary or a stream that has one, and the object itself, in the
/// map's order. The listed name is the one the object's own model
/// carries.
#[verifier::external_body]
fn doc_list_objects(doc: &lopdf::Document) -> (r: Vec<((u32, u16), Option<Vec<u8>>, lopdf::Object)>)
    ensures
        forall|k: int|
            0 <= k < r@.len() ==> (#[trigger] obj_model(r@[k].2)).0 == opt_bytes(r@[k].1),
{
    doc.objects.iter().map(
        |(id, obj)| {
            let name = match obj {
                lopdf::Object::Dictionary(d) => d.get_type().ok().map(|n| n.to_vec()),
                lopdf::Object::Stream(s) => s.dict.get_type().ok().map(|n| n.to_vec()),
                _ => None,
            };
            (*id, name, obj.clone())
        },
    ).collect()
}

/// Relies on lopdf::Object::clone: a copy carries the same entries.
#[verifier::external_body]
fn obj_clone(obj: &lopdf::Object) -> (r: lopdf::Object)
    ensures
        obj_model(r) == obj_model(*obj),
        obj_is_dict(r) == obj_is_dict(*obj),
{
    obj.clone()
}

/// Relies on lopdf::Document::with_version: a fresh document with an
/// empty object table, an empty trailer and watermark zero.
#[verifier::external_body]
fn doc_new() -> (r: lopdf::Document)
    ensures
        doc_entries(r) =~= Map::empty(),
        doc_trailer_root(r) is None,
        doc_max(r) == 0,
{
    lopdf::Document::with_version("1.5")
}

/// Relies on inserting into lopdf::Document::objects: adds or replaces
/// the object under the given identifier; nothing else changes.
#[verifier::external_body]
fn doc_insert_object(doc: &mut lopdf::Document, id: (u32, u16), obj: lopdf::Object)
    ensures
        doc_entries(*final(doc)) == doc_entries(*old(doc)).insert(id, obj_model(obj)),
        doc_trailer_root(*final(doc)) == doc_trailer_root(*old(doc)),
        doc_max(*final(doc)) == doc_max(*old(doc)),
{
    doc.objects.insert(id, obj);
}

/// Relies on lopdf::Object::as_dict and lopdf::Dictionary::clone: the
/// object's dictionary, exactly when it is one, carrying the object's
/// entries.
#[verifier::external_body]
fn object_as_dict_cloned(obj: &lopdf::Object) -> (r: Option<lopdf::Dictionary>)
    ensures
        (r is Some) == obj_is_dict(*obj),
        r matches Some(dd) ==> dict_model(dd) == obj_model(*obj),
{
    obj.as_dict().ok().cloned()
}

/// Relies on lopdf::Dictionary::set with key Parent and a reference
/// value: the Parent entry changes, the other modelled entries stay.
#[verifier::external_body]
fn dict_set_parent(dict: &mut lopdf::Dictionary, id: (u32, u16))
    ensures
        dict_model(*final(dict)) == ({
            let m = dict_model(*old(dict));
            (m.0, Some(id), m.2, m.3, m.4, m.5)
        }),
{
    dict.set("Parent", lopdf::Object::Reference(id));
}

/// Relies on lopdf::Dictionary::set with key Pages and a reference
/// value: the Pages entry changes, the other modelled entries stay.
#[verifier::external_body]
fn dict_set_pages(dict: &mut lopdf::Dictionary, id: (u32, u16))
    ensures
        dict_model(*final(dict)) == ({
            let m = dict_model(*old(dict));
            (m.0, m.1, m.2, m.3, Some(id), m.5)
        }),
{
    dict.set("Pages", lopdf::Object::Reference(id));
}

/// Relies on lopdf::Dictionary::set with key Count and an integer
/// value: the Count entry changes, the other modelled entries stay.
#[verifier::external_body]
fn dict_set_count(dict: &mut lopdf::Dictionary, value: i64)
    ensures
        dict_model(*final(dict)) == ({
            let m = dict_model(*old(dict));
            (m.0, m.1, m.2, Some(value as int), m.4, m.5)
        }),
{
    dict.set("Count", lopdf::Object::Integer(value));
}

/// Relies on lopdf::Dictionary::set with key Kids and an array of
/// references, one per identifier in list order: the Kids entry
/// changes, the other modelled entries stay.
#[verifier::external_body]
fn dict_set_kids(dict: &mut lopdf::Dictionary, ids: &Vec<(u32, u16)>)
    ensures
        dict_model(*final(dict)) == ({
            let m = dict_model(*old(dict));
            (m.0, m.1, Some(ids@), m.3, m.4, m.5)
        }),
{
    dict.set(
        "Kids",
        lopdf::Object::Array(ids.iter().map(|id| lopdf::Object::Reference(*id)).collect()),
    );
}

/// Relies on lopdf::Dictionary::remove with key Outlines: the entry is
/// gone, the other modelled entries stay.
#[verifier::external_body]
fn dict_remove_outlines(dict: &mut lopdf::Dictionary)
    ensures
        dict_model(*final(dict)) == ({
            let m = dict_model(*old(dict));
            (m.0, m.1, m.2, m.3, m.4, false)
        }),
{
    let _ = dict.remove(b"Outlines");
}

/// Relies on lopdf::Object::Dictionary: wrapping a dictionary into an
/// object keeps its entries.
#[verifier::external_body]
fn object_from_dict(dict: lopdf::Dictionary) -> (r: lopdf::Object)
    ensures
        obj_model(r) == dict_model(dict),
        obj_is_dict(r),
{
    lopdf::Object::Dictionary(dict)
}

/// Relies on lopdf::Dictionary::set on the document trailer: points
/// the trailer's Root entry at the given identifier.
#[verifier::external_body]
fn doc_set_trailer_root(doc: &mut lopdf::Document, id: (u32, u16))
    ensures
        doc_trailer_root(*final(doc)) == Some(id),
        doc_entries(*final(doc)) == doc_entries(*old(doc)),
        doc_max(*final(doc)) == doc_max(*old(doc)),
{
    doc.trailer.set("Root", id);
}

/// That `n` counts a document's object table: the table's identifier
/// set is finite and has exactly `n` members.
pub open spec fn counts_entries(n: int, doc: lopdf::Document) -> bool {
    &&& doc_entries(doc).dom().finite()
    &&& n == doc_entries(doc).dom().len()
}

/// Relies on lopdf::Document::objects::len: how many objects the
/// document holds.
#[verifier::external_body]
fn doc_objects_len(doc: &lopdf::Document) -> (r: usize)
    ensures
        counts_entries(r as int, *doc),
{
    doc.objects.len()
}

/// Relies on the lopdf::Document::max_id field: records the number of
/// allocated object identifiers before compaction.
#[verifier::external_body]
fn doc_set_max_id(doc: &mut lopdf::Document, n: u32)
    ensures
        doc_max(*final(doc)) == n,
        doc_entries(*final(doc)) == doc_entries(*old(doc)),
        doc_trailer_root(*final(doc)) == doc_trailer_root(*old(doc)),
{
    doc.max_id = n;
}

/// Relies on lopdf::Document::renumber_objects: renumbers all object
/// identifiers into a dense range starting at one, rewriting
/// references, the trailer's Root among them. Afterwards the watermark
/// equals the object count, every held identifier's number lies
/// between one and that count, and no two held identifiers share a
/// number; the trailer keeps a Root entry exactly when it had one.
/// The bounds keep its identifier arithmetic inside `u32` and `i32`.
#[verifier::external_body]
fn doc_compact_ids(doc: &mut lopdf::Document)
    requires
        doc_entries(*old(doc)).dom().finite(),
        doc_entries(*old(doc)).dom().len() <= 0x7FFF_FFFF,
    ensures
        doc_entries(*final(doc)).dom().finite(),
        doc_entries(*final(doc)).dom().len() <= doc_entries(*old(doc)).dom().len(),
        doc_max(*final(doc)) == doc_entries(*final(doc)).dom().len(),
        forall|id: (u32, u16)|
            #[trigger] doc_entries(*final(doc)).dom().contains(id) ==> 1 <= id.0 <= doc_max(*final(doc)),
        forall|a: (u32, u16), b: (u32, u16)|
            doc_entries(*final(doc)).dom().contains(a) && doc_entries(*final(doc)).dom().contains(b) && a.0
                == b.0 ==> a == b,
        (doc_trailer_root(*final(doc)) is Some) == (doc_trailer_root(*old(doc)) is Some),
{
    doc.renumber_objects();
}

/// Relies on lopdf::Document::save_to writing to an in-memory buffer:
/// serializes the document to bytes. The bound keeps the writer's
/// cross-reference arithmetic (`max_id + 1`, plus one potential object
/// stream per object) inside `u32`.
#[verifier::external_body]
fn doc_save_to_bytes(doc: &mut lopdf::Document) -> (r: Result<Vec<u8>, String>)
    requires
        doc_entries(*old(doc)).dom().finite(),
        doc_max(*old(doc)) + doc_entries(*old(doc)).dom().len() + 1 <= 0xFFFF_FFFF,
{
    let mut buf: Vec<u8> = Vec::new();
    match doc.save_to(&mut buf) {
        Ok(()) => Ok(buf),
        Err(e) => Err(e.to_string()),
    }
}

/// Builds the merged document a plan describes out of the sources'
/// objects: pages are inserted with their parent link rewritten to the
/// canonical page-tree root, outlines are dropped, role duplicates
/// other than the canonical catalog and root are dropped, the root's
/// Kids and Count are set to exactly the plan's page list, the catalog
/// points at the root and loses any Outlines entry, and the trailer's
/// Root points at the catalog. Fails exactly when no source object
/// offers a dictionary for the canonical page-tree root, or none for
/// the canonical catalog.
pub fn assemble_document(plan: &MergePlan, sources: &Vec<Vec<SourceObject>>) -> (r: Result<
    lopdf::Document,
    MergeError,
>)
    requires
        plan.catalog_id != plan.pages_root_id,
        plan.page_ids@.len() <= 0xFFFF_FFFF,
        forall|i: int, j: int|
            0 <= i < sources@.len() && 0 <= j < sources@[i]@.len()
                ==> (#[trigger] sources@[i]@[j]).1 == model_role(obj_model(sources@[i]@[j].2)),
    ensures
        ({
            let ss = sources@.map_values(|v: Vec<SourceObject>| v@);
            if !has_dict_with(ss, ObjectRole::PagesRoot, plan.pages_root_id) {
                r matches Err(MergeError::Pdf(m)) && m@ == "Pages root not found"@
            } else if !has_dict_with(ss, ObjectRole::Catalog, plan.catalog_id) {
                r matches Err(MergeError::Pdf(m)) && m@ == "Catalog root not found"@
            } else {
                r matches Ok(doc) && ({
                    let m = doc_entries(doc);
                    &&& m.dom().finite()
                    &&& m.dom().contains(plan.pages_root_id)
                    &&& model_role(m[plan.pages_root_id]) == ObjectRole::PagesRoot
                    &&& m[plan.pages_root_id].2 == Some(plan.page_ids@)
                    &&& m[plan.pages_root_id].3 == Some(plan.page_ids@.len() as int)
                    &&& m.dom().contains(plan.catalog_id)
                    &&& model_role(m[plan.catalog_id]) == ObjectRole::Catalog
                    &&& m[plan.catalog_id].4 == Some(plan.pages_root_id)
                    &&& m[plan.catalog_id].5 == false
                    &&& forall|id: (u32, u16)|
                        #[trigger] m.dom().contains(id) && model_role(m[id])
                            == ObjectRole::Page ==> m[id].1 == Some(plan.pages_root_id)
                    &&& forall|id: (u32, u16)|
                        #[trigger] m.dom().contains(id) ==> model_role(m[id])
                            != ObjectRole::Outline
                    &&& forall|id: (u32, u16)|
                        #[trigger] m.dom().contains(id) && model_role(m[id])
                            == ObjectRole::Catalog ==> id == plan.catalog_id
                    &&& forall|id: (u32, u16)|
                        #[trigger] m.dom().contains(id) && model_role(m[id])
                            == ObjectRole::PagesRoot ==> id == plan.pages_root_id
                    &&& doc_trailer_root(doc) == Some(plan.catalog_id)
                })
            }
        }),
{
    let ghost ss = sources@.map_values(|v: Vec<SourceObject>| v@);
    let mut out = doc_new();
    let mut pages_root_dict: Option<lopdf::Dictionary> = None;
    let mut catalog_dict: Option<lopdf::Dictionary> = None;
    let mut s: usize = 0;
    while s < sources.len()
        invariant
            ss == sources@.map_values(|v: Vec<SourceObject>| v@),
            ss.len() == sources@.len(),
            s <= sources@.len(),
            plan.catalog_id != plan.pages_root_id,
            forall|i: int, j: int|
                0 <= i < sources@.len() && 0 <= j < sources@[i]@.len() ==> (
                #[trigger] sources@[i]@[j]).1 == model_role(obj_model(sources@[i]@[j].2)),
            doc_entries(out).dom().finite(),
            forall|id: (u32, u16)| #[trigger]
                doc_entries(out).dom().contains(id) ==> {
                    let mm = doc_entries(out)[id];
                    &&& model_role(mm) != ObjectRole::Outline
                    &&& model_role(mm) != ObjectRole::Catalog
                    &&& model_role(mm) != ObjectRole::PagesRoot
                    &&& (model_role(mm) == ObjectRole::Page ==> mm.1 == Some(
                        plan.pages_root_id,
                    ))
                },
            doc_trailer_root(out) is None,
            pages_root_dict matches Some(dd) ==> model_role(dict_model(dd))
                == ObjectRole::PagesRoot,
            catalog_dict matches Some(dd) ==> model_role(dict_model(dd)) == ObjectRole::Catalog,
            pages_root_dict is Some ==> has_dict_with(
                ss,
                ObjectRole::PagesRoot,
                plan.pages_root_id,
            ),
            catalog_dict is Some ==> has_dict_with(ss, ObjectRole::Catalog, plan.catalog_id),
            pages_root_dict is None ==> forall|i: int, j: int|
                0 <= i < s && 0 <= j < ss[i].len() ==> !((#[trigger] ss[i][j]).1
                    == ObjectRole::PagesRoot && ss[i][j].0 == plan.pages_root_id && obj_is_dict(
                    ss[i][j].2,
                )),
            catalog_dict is None ==> forall|i: int, j: int|
                0 <= i < s && 0 <= j < ss[i].len() ==> !((#[trigger] ss[i][j]).1
                    == ObjectRole::Catalog && ss[i][j].0 == plan.catalog_id && obj_is_dict(
                    ss[i][j].2,
                )),
        decreases sources@.len() - s,
    {
        let src = &sources[s];
        let mut k: usize = 0;
        while k < src.len()
            invariant
                ss == sources@.map_values(|v: Vec<SourceObject>| v@),
                ss.len() == sources@.len(),
                s < sources@.len(),
                src@ == ss[s as int],
                k <= src@.len(),
                plan.catalog_id != plan.pages_root_id,
                forall|i: int, j: int|
                    0 <= i < sources@.len() && 0 <= j < sources@[i]@.len() ==> (
                    #[trigger] sources@[i]@[j]).1 == model_role(obj_model(sources@[i]@[j].2)),
                doc_entries(out).dom().finite(),
                forall|id: (u32, u16)| #[trigger]
                    doc_entries(out).dom().contains(id) ==> {
                        let mm = doc_entries(out)[id];
                        &&& model_role(mm) != ObjectRole::Outline
                        &&& model_role(mm) != ObjectRole::Catalog
                        &&& model_role(mm) != ObjectRole::PagesRoot
                        &&& (model_role(mm) == ObjectRole::Page ==> mm.1 == Some(
                            plan.pages_root_id,
                        ))
                    },
                doc_trailer_root(out) is None,
                pages_root_dict matches Some(dd) ==> model_role(dict_model(dd))
                    == ObjectRole::PagesRoot,
                catalog_dict matches Some(dd) ==> model_role(dict_model(dd))
                    == ObjectRole::Catalog,
                pages_root_dict is Some ==> has_dict_with(
                    ss,
                    ObjectRole::PagesRoot,
                    plan.pages_root_id,
                ),
                catalog_dict is Some ==> has_dict_with(ss, ObjectRole::Catalog, plan.catalog_id),
                pages_root_dict is None ==> forall|i: int, j: int|
                    0 <= i < s && 0 <= j < ss[i].len() ==> !((#[trigger] ss[i][j]).1
                        == ObjectRole::PagesRoot && ss[i][j].0 == plan.pages_root_id
                        && obj_is_dict(ss[i][j].2)),
                catalog_dict is None ==> forall|i: int, j: int|
                    0 <= i < s && 0 <= j < ss[i].len() ==> !((#[trigger] ss[i][j]).1
                        == ObjectRole::Catalog && ss[i][j].0 == plan.catalog_id && obj_is_dict(
                        ss[i][j].2,
                    )),
                pages_root_dict is None ==> forall|j: int|
                    0 <= j < k ==> !((#[trigger] ss[s as int][j]).1 == ObjectRole::PagesRoot
                        && ss[s as int][j].0 == plan.pages_root_id && obj_is_dict(
                        ss[s as int][j].2,
                    )),
                catalog_dict is None ==> forall|j: int|
                    0 <= j < k ==> !((#[trigger] ss[s as int][j]).1 == ObjectRole::Catalog
                        && ss[s as int][j].0 == plan.catalog_id && obj_is_dict(ss[s as int][j].2)),
            decreases src@.len() - k,
        {
            let entry = &src[k];
            let id = entry.0;
            let role = entry.1;
            match role {
                ObjectRole::Page => {
                    match object_as_dict_cloned(&entry.2) {
                        Some(mut dict) => {
                            dict_set_parent(&mut dict, plan.pages_root_id);
                            doc_insert_object(&mut out, id, object_from_dict(dict));
                        },
                        None => {},
                    }
                },
                ObjectRole::Outline => {},
                ObjectRole::Catalog => {
                    if catalog_dict.is_none() && id.0 == plan.catalog_id.0 && id.1
                        == plan.catalog_id.1 {
                        catalog_dict = object_as_dict_cloned(&entry.2);
                        proof {
                            if catalog_dict is Some {
                                assert((ss[s as int][k as int]).1 == ObjectRole::Catalog
                                    && ss[s as int][k as int].0 == plan.catalog_id
                                    && obj_is_dict(ss[s as int][k as int].2));
                            }
                        }
                    }
                },
                ObjectRole::PagesRoot => {
                    if pages_root_dict.is_none() && id.0 == plan.pages_root_id.0 && id.1
                        == plan.pages_root_id.1 {
                        pages_root_dict = object_as_dict_cloned(&entry.2);
                        proof {
                            if pages_root_dict is Some {
                                assert((ss[s as int][k as int]).1 == ObjectRole::PagesRoot
                                    && ss[s as int][k as int].0 == plan.pages_root_id
                                    && obj_is_dict(ss[s as int][k as int].2));
                            }
                        }
                    }
                },
                ObjectRole::Other => {
                    doc_insert_object(&mut out, id, obj_clone(&entry.2));
                },
            }
            k = k + 1;
        }
        s = s + 1;
    }
    let mut root_dict = match pages_root_dict {
        Some(d) => d,
        None => {
            proof {
                assert(!has_dict_with(ss, ObjectRole::PagesRoot, plan.pages_root_id)) by {
                    if has_dict_with(ss, ObjectRole::PagesRoot, plan.pages_root_id) {
                        let (i, j) = choose|i: int, j: int|
                            0 <= i < ss.len() && 0 <= j < ss[i].len() && (#[trigger] ss[i][j]).1
                                == ObjectRole::PagesRoot && ss[i][j].0 == plan.pages_root_id
                                && obj_is_dict(ss[i][j].2);
                        assert(false);
                    }
                }
            }
            return Err(MergeError::Pdf("Pages root not found".to_owned()));
        },
    };
    let mut cat_dict = match catalog_dict {
        Some(d) => d,
        None => {
            proof {
                assert(!has_dict_with(ss, ObjectRole::Catalog, plan.catalog_id)) by {
                    if has_dict_with(ss, ObjectRole::Catalog, plan.catalog_id) {
                        let (i, j) = choose|i: int, j: int|
                            0 <= i < ss.len() && 0 <= j < ss[i].len() && (#[trigger] ss[i][j]).1
                                == ObjectRole::Catalog && ss[i][j].0 == plan.catalog_id
                                && obj_is_dict(ss[i][j].2);
                        assert(false);
                    }
                }
            }
            return Err(MergeError::Pdf("Catalog root not found".to_owned()));
        },
    };
    dict_set_count(&mut root_dict, plan.page_ids.len() as i64);
    dict_set_kids(&mut root_dict, &plan.page_ids);
    doc_insert_object(&mut out, plan.pages_root_id, object_from_dict(root_dict));
    dict_set_pages(&mut cat_dict, plan.pages_root_id);
    dict_remove_outlines(&mut cat_dict);
    doc_insert_object(&mut out, plan.catalog_id, object_from_dict(cat_dict));
    doc_set_trailer_root(&mut out, plan.catalog_id);
    Ok(out)
}

/// Merges an ordered, non-empty list of paginated documents, each given
/// as its serialized bytes, into one document, returned as bytes.
///
/// Every source is parsed, decrypted best-effort with an empty
/// credential when it reports itself encrypted, and renumbered above a
/// monotonically increasing watermark so that no two sources collide.
/// `plan_merge` then fixes, exactly, the page list (in source order),
/// the canonical catalog and page-tree root, and the error cases;
/// `assemble_document` fixes, exactly, the object table this function
/// hands to compaction and serialization. Those two carry the
/// contracts; this function owes only the sequencing around the
/// parser and writer, whose outcomes depend on the bytes and are not
/// promised here.
pub fn merge_documents(inputs: &Vec<Vec<u8>>) -> (r: Result<Vec<u8>, MergeError>)
    ensures
        inputs@.len() == 0 ==> r matches Err(MergeError::NoFiles),
        r matches Err(e) ==> (e matches MergeError::NoFiles || e matches MergeError::Pdf(_)),
{
    if inputs.len() == 0 {
        return Err(MergeError::NoFiles);
    }
    let mut graphs: Vec<SourceGraph> = Vec::new();
    let mut objects: Vec<Vec<SourceObject>> = Vec::new();
    let mut max_id: u32 = 1;
    let mut i: usize = 0;
    while i < inputs.len()
        invariant
            max_id >= 1,
            objects@.len() == graphs@.len(),
            forall|a: int, b: int|
                0 <= a < objects@.len() && 0 <= b < objects@[a]@.len()
                    ==> (#[trigger] objects@[a]@[b]).1 == model_role(obj_model(objects@[a]@[b].2)),
        decreases inputs@.len() - i,
    {
        let mut doc = match doc_load(inputs[i].as_slice()) {
            Ok(d) => d,
            Err(e) => {
                return Err(MergeError::Pdf(e));
            },
        };
        if doc_is_encrypted(&doc) {
            doc_decrypt_empty(&mut doc);
        }
        let n_objs = doc_objects_len(&doc);
        if n_objs > 0x7FFF_FFFF || max_id as usize > 0xFFFF_FFFF - n_objs {
            return Err(MergeError::Pdf("object identifier space exhausted".to_owned()));
        }
        doc_renumber_from(&mut doc, max_id);
        let mid = doc_max_id(&doc);
        max_id = match mid.checked_add(1) {
            Some(m) => m,
            None => {
                return Err(MergeError::Pdf("object identifier space exhausted".to_owned()));
            },
        };
        let listed = doc_list_objects(&doc);
        let mut graph_objs: Vec<((u32, u16), ObjectRole)> = Vec::new();
        let mut src_objs: Vec<SourceObject> = Vec::new();
        let mut k: usize = 0;
        while k < listed.len()
            invariant
                k <= listed@.len(),
                forall|t: int|
                    0 <= t < listed@.len() ==> (#[trigger] obj_model(listed@[t].2)).0
                        == opt_bytes(listed@[t].1),
                forall|t: int|
                    0 <= t < src_objs@.len() ==> (#[trigger] src_objs@[t]).1 == model_role(
                        obj_model(src_objs@[t].2),
                    ),
            decreases listed@.len() - k,
        {
            let entry = &listed[k];
            let role = match &entry.1 {
                Some(n) => role_of_type_name(n.as_slice()),
                None => ObjectRole::Other,
            };
            graph_objs.push((entry.0, role));
            src_objs.push((entry.0, role, obj_clone(&entry.2)));
            k = k + 1;
        }
        graphs.push(SourceGraph { objects: graph_objs });
        objects.push(src_objs);
        i = i + 1;
    }
    let plan = match plan_merge(&graphs) {
        Ok(p) => p,
        Err(e) => {
            return Err(e);
        },
    };
    if plan.catalog_id.0 == plan.pages_root_id.0 && plan.catalog_id.1 == plan.pages_root_id.1 {
        return Err(MergeError::Pdf("catalog and page tree root share an identifier".to_owned()));
    }
    if plan.page_ids.len() > 0xFFFF_FFFF {
        return Err(MergeError::Pdf("too many pages to count".to_owned()));
    }
    let mut out = match assemble_document(&plan, &objects) {
        Ok(d) => d,
        Err(e) => {
            return Err(e);
        },
    };
    let n = doc_objects_len(&out);
    if n > 0x7FFF_FFFF {
        return Err(MergeError::Pdf("too many objects to number".to_owned()));
    }
    doc_set_max_id(&mut out, n as u32);
    doc_compact_ids(&mut out);
    match doc_save_to_bytes(&mut out) {
        Ok(b) => Ok(b),
        Err(e) => Err(MergeError::Pdf(e)),
    }
}

} // verus!
