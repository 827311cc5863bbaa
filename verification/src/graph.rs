use vstd::prelude::*;

verus! {

use crate::MergeError;

/// The semantic role of one object of a paginated document's object
/// graph, determined once at parse time from the object's type name.
#[derive(Debug, Clone, Copy, PartialEq, Eq, Structural)]
pub enum ObjectRole {
    Catalog,
    PagesRoot,
    Page,
    Outline,
    Other,
}

/// The role a type name denotes: `Page`, `Pages` (the page-tree root),
/// `Catalog`, and `Outline`/`Outlines` have their own roles; every
/// other name is `Other`. Names are byte strings as they stand in the
/// document.
pub open spec fn spec_role_of(name: Seq<u8>) -> ObjectRole {
    if name == seq![80u8, 97u8, 103u8, 101u8] {
        ObjectRole::Page
    } else if name == seq![80u8, 97u8, 103u8, 101u8, 115u8] {
        ObjectRole::PagesRoot
    } else if name == seq![67u8, 97u8, 116u8, 97u8, 108u8, 111u8, 103u8] {
        ObjectRole::Catalog
    } else if name == seq![79u8, 117u8, 116u8, 108u8, 105u8, 110u8, 101u8, 115u8] || name
        == seq![79u8, 117u8, 116u8, 108u8, 105u8, 110u8, 101u8] {
        ObjectRole::Outline
    } else {
        ObjectRole::Other
    }
}

/// Classifies an object by its type name.
pub fn role_of_type_name(name: &[u8]) -> (r: ObjectRole)
    ensures
        r == spec_role_of(name@),
{
    let n = name.len();
    if n == 4 && name[0] == 80 && name[1] == 97 && name[2] == 103 && name[3] == 101 {
        proof {
            assert(name@ =~= seq![80u8, 97u8, 103u8, 101u8]);
        }
        ObjectRole::Page
    } else if n == 5 && name[0] == 80 && name[1] == 97 && name[2] == 103 && name[3] == 101
        && name[4] == 115 {
        proof {
            assert(name@ =~= seq![80u8, 97u8, 103u8, 101u8, 115u8]);
        }
        ObjectRole::PagesRoot
    } else if n == 7 && name[0] == 67 && name[1] == 97 && name[2] == 116 && name[3] == 97
        && name[4] == 108 && name[5] == 111 && name[6] == 103 {
        proof {
            assert(name@ =~= seq![67u8, 97u8, 116u8, 97u8, 108u8, 111u8, 103u8]);
        }
        ObjectRole::Catalog
    } else if n == 8 && name[0] == 79 && name[1] == 117 && name[2] == 116 && name[3] == 108
        && name[4] == 105 && name[5] == 110 && name[6] == 101 && name[7] == 115 {
        proof {
            assert(name@ =~= seq![79u8, 117u8, 116u8, 108u8, 105u8, 110u8, 101u8, 115u8]);
        }
        ObjectRole::Outline
    } else if n == 7 && name[0] == 79 && name[1] == 117 && name[2] == 116 && name[3] == 108
        && name[4] == 105 && name[5] == 110 && name[6] == 101 {
        proof {
            assert(name@ =~= seq![79u8, 117u8, 116u8, 108u8, 105u8, 110u8, 101u8]);
        }
        ObjectRole::Outline
    } else {
        ObjectRole::Other
    }
}

/// One source document's object graph, reduced to what the merge plan
/// reads: each object's identifier and role, in encounter order, with
/// identifiers already renumbered so that no two sources collide.
pub struct SourceGraph {
    pub objects: Vec<((u32, u16), ObjectRole)>,
}

/// The merge plan for an ordered list of sources: the identifiers of
/// every page in final order, and the canonical catalog and page-tree
/// root (the first of each role across all sources).
pub struct MergePlan {
    pub page_ids: Vec<(u32, u16)>,
    pub catalog_id: (u32, u16),
    pub pages_root_id: (u32, u16),
}

/// The page identifiers of one source, in encounter order.
pub open spec fn pages_of(s: Seq<((u32, u16), ObjectRole)>) -> Seq<(u32, u16)>
    decreases s.len(),
{
    if s.len() == 0 {
        Seq::empty()
    } else {
        let rest = pages_of(s.drop_last());
        if s.last().1 is Page {
            rest.push(s.last().0)
        } else {
            rest
        }
    }
}

/// The page identifiers of an ordered list of sources: each source's
/// pages in encounter order, sources in list order.
pub open spec fn all_pages(ss: Seq<Seq<((u32, u16), ObjectRole)>>) -> Seq<(u32, u16)>
    decreases ss.len(),
{
    if ss.len() == 0 {
        Seq::empty()
    } else {
        all_pages(ss.drop_last()) + pages_of(ss.last())
    }
}

/// All objects of an ordered list of sources, flattened in order.
pub open spec fn flat_objects(ss: Seq<Seq<((u32, u16), ObjectRole)>>) -> Seq<
    ((u32, u16), ObjectRole),
>
    decreases ss.len(),
{
    if ss.len() == 0 {
        Seq::empty()
    } else {
        flat_objects(ss.drop_last()) + ss.last()
    }
}

/// The identifier of the first object of the given role, if any.
pub open spec fn first_with_role(s: Seq<((u32, u16), ObjectRole)>, role: ObjectRole) -> Option<
    (u32, u16),
>
    decreases s.len(),
{
    if s.len() == 0 {
        Option::None
    } else if s.first().1 == role {
        Option::Some(s.first().0)
    } else {
        first_with_role(s.drop_first(), role)
    }
}

/// Appending one object changes the first object of a role only when
/// none was found before and the new object has that role.
proof fn lemma_first_with_role_push(
    s: Seq<((u32, u16), ObjectRole)>,
    e: ((u32, u16), ObjectRole),
    role: ObjectRole,
)
    ensures
        first_with_role(s.push(e), role) == if first_with_role(s, role) is Some {
            first_with_role(s, role)
        } else if e.1 == role {
            Option::Some(e.0)
        } else {
            Option::None::<(u32, u16)>
        },
    decreases s.len(),
{
    if s.len() == 0 {
        assert(s.push(e).first() == e);
        assert(s.push(e).drop_first() =~= Seq::<((u32, u16), ObjectRole)>::empty());
        if e.1 == role {
            assert(first_with_role(s.push(e), role) == Option::Some(e.0));
        } else {
            assert(first_with_role(s.push(e), role) == first_with_role(
                s.push(e).drop_first(),
                role,
            ));
            assert(first_with_role(s.push(e).drop_first(), role) == Option::None::<(u32, u16)>);
        }
    } else {
        assert(s.push(e).first() == s.first());
        assert(s.push(e).drop_first() =~= s.drop_first().push(e));
        lemma_first_with_role_push(s.drop_first(), e, role);
        if s.first().1 == role {
            assert(first_with_role(s.push(e), role) == Option::Some(s.first().0));
            assert(first_with_role(s, role) == Option::Some(s.first().0));
        } else {
            assert(first_with_role(s.push(e), role) == first_with_role(
                s.drop_first().push(e),
                role,
            ));
            assert(first_with_role(s, role) == first_with_role(s.drop_first(), role));
        }
    }
}

/// The number of pages each source contributes, summed in order.
pub open spec fn page_count_sum(ss: Seq<Seq<((u32, u16), ObjectRole)>>) -> int
    decreases ss.len(),
{
    if ss.len() == 0 {
        0
    } else {
        page_count_sum(ss.drop_last()) + pages_of(ss.last()).len()
    }
}

/// Merging sources with p1, ..., pn pages each yields exactly
/// p1 + ... + pn pages: the merged page list's length is the sum of
/// the per-source page counts.
pub proof fn lemma_page_count_is_sum(ss: Seq<Seq<((u32, u16), ObjectRole)>>)
    ensures
        all_pages(ss).len() == page_count_sum(ss),
    decreases ss.len(),
{
    if ss.len() > 0 {
        lemma_page_count_is_sum(ss.drop_last());
    }
}

/// Merging the same ordered source list twice is deterministic: any
/// two plans that satisfy the merge-plan contract for the same
/// sources agree on the page sequence, the page count, and the
/// canonical catalog and page-tree root. (The assembled document's
/// object table is in turn a function of the plan and the sources'
/// object models, by the assembly step's contract.)
pub proof fn lemma_plan_deterministic(
    ss: Seq<Seq<((u32, u16), ObjectRole)>>,
    p1: MergePlan,
    p2: MergePlan,
)
    requires
        p1.page_ids@ == all_pages(ss),
        p2.page_ids@ == all_pages(ss),
        Some(p1.catalog_id) == first_with_role(flat_objects(ss), ObjectRole::Catalog),
        Some(p2.catalog_id) == first_with_role(flat_objects(ss), ObjectRole::Catalog),
        Some(p1.pages_root_id) == first_with_role(flat_objects(ss), ObjectRole::PagesRoot),
        Some(p2.pages_root_id) == first_with_role(flat_objects(ss), ObjectRole::PagesRoot),
    ensures
        p1.page_ids@ == p2.page_ids@,
        p1.page_ids@.len() == p2.page_ids@.len(),
        p1.catalog_id == p2.catalog_id,
        p1.pages_root_id == p2.pages_root_id,
{
}

/// The per-source object lists of an ordered list of sources.
pub open spec fn graphs_view(gs: Seq<SourceGraph>) -> Seq<Seq<((u32, u16), ObjectRole)>> {
    gs.map_values(|g: SourceGraph| g.objects@)
}

/// Computes the merge plan for an ordered list of sources: collects
/// every page in order, keeps the first catalog and the first page-tree
/// root, and fails with `NoFiles` when there are no sources or no pages
/// at all, or with a structural error when some source contributed a
/// page but none contributed a catalog or a page-tree root.
pub fn plan_merge(sources: &Vec<SourceGraph>) -> (r: Result<MergePlan, MergeError>)
    ensures
        ({
            let ss = graphs_view(sources@);
            let flat = flat_objects(ss);
            &&& (r matches Err(MergeError::NoFiles)) <==> (sources@.len() == 0 || all_pages(
                ss,
            ).len() == 0)
            &&& (sources@.len() > 0 && all_pages(ss).len() > 0) ==> match first_with_role(
                flat,
                ObjectRole::PagesRoot,
            ) {
                Option::None => r matches Err(MergeError::Pdf(m)) && m@
                    == "Pages root not found"@,
                Option::Some(rid) => match first_with_role(flat, ObjectRole::Catalog) {
                    Option::None => r matches Err(MergeError::Pdf(m)) && m@
                        == "Catalog root not found"@,
                    Option::Some(cid) => r matches Ok(p) && p.page_ids@ == all_pages(ss)
                        && p.pages_root_id == rid && p.catalog_id == cid,
                },
            }
        }),
{
    if sources.len() == 0 {
        return Err(MergeError::NoFiles);
    }
    let ghost gv = graphs_view(sources@);
    let mut pages: Vec<(u32, u16)> = Vec::new();
    let mut catalog: Option<(u32, u16)> = None;
    let mut root: Option<(u32, u16)> = None;
    let mut i: usize = 0;
    proof {
        assert(gv.take(0) =~= Seq::<Seq<((u32, u16), ObjectRole)>>::empty());
    }
    while i < sources.len()
        invariant
            gv == graphs_view(sources@),
            gv.len() == sources@.len(),
            i <= sources@.len(),
            pages@ == all_pages(gv.take(i as int)),
            catalog == first_with_role(flat_objects(gv.take(i as int)), ObjectRole::Catalog),
            root == first_with_role(flat_objects(gv.take(i as int)), ObjectRole::PagesRoot),
        decreases sources@.len() - i,
    {
        let objs = &sources[i].objects;
        proof {
            assert(gv[i as int] == sources@[i as int].objects@);
            assert(objs@.take(0) =~= Seq::<((u32, u16), ObjectRole)>::empty());
            assert(flat_objects(gv.take(i as int)) + objs@.take(0) =~= flat_objects(
                gv.take(i as int),
            ));
            assert(all_pages(gv.take(i as int)) + pages_of(objs@.take(0)) =~= all_pages(
                gv.take(i as int),
            ));
        }
        let mut j: usize = 0;
        while j < objs.len()
            invariant
                gv == graphs_view(sources@),
                gv.len() == sources@.len(),
                i < sources@.len(),
                objs@ == gv[i as int],
                j <= objs@.len(),
                pages@ == all_pages(gv.take(i as int)) + pages_of(objs@.take(j as int)),
                catalog == first_with_role(
                    flat_objects(gv.take(i as int)) + objs@.take(j as int),
                    ObjectRole::Catalog,
                ),
                root == first_with_role(
                    flat_objects(gv.take(i as int)) + objs@.take(j as int),
                    ObjectRole::PagesRoot,
                ),
            decreases objs@.len() - j,
        {
            let e = objs[j];
            proof {
                let prefix = flat_objects(gv.take(i as int)) + objs@.take(j as int);
                assert(objs@.take(j + 1).drop_last() =~= objs@.take(j as int));
                assert(objs@.take(j + 1).last() == e);
                assert(flat_objects(gv.take(i as int)) + objs@.take(j + 1) =~= prefix.push(e));
                lemma_first_with_role_push(prefix, e, ObjectRole::Catalog);
                lemma_first_with_role_push(prefix, e, ObjectRole::PagesRoot);
            }
            match e.1 {
                ObjectRole::Page => {
                    pages.push(e.0);
                },
                ObjectRole::Catalog => {
                    if catalog.is_none() {
                        catalog = Some(e.0);
                    }
                },
                ObjectRole::PagesRoot => {
                    if root.is_none() {
                        root = Some(e.0);
                    }
                },
                ObjectRole::Outline => {},
                ObjectRole::Other => {},
            }
            j = j + 1;
        }
        proof {
            assert(objs@.take(objs@.len() as int) =~= objs@);
            assert(gv.take(i + 1).drop_last() =~= gv.take(i as int));
            assert(gv.take(i + 1).last() == gv[i as int]);
            assert(flat_objects(gv.take(i as int)) + objs@ =~= flat_objects(gv.take(i + 1)));
        }
        i = i + 1;
    }
    proof {
        assert(gv.take(sources@.len() as int) =~= gv);
    }
    if pages.len() == 0 {
        return Err(MergeError::NoFiles);
    }
    let rid = match root {
        Some(rid) => rid,
        None => {
            return Err(MergeError::Pdf("Pages root not found".to_owned()));
        },
    };
    let cid = match catalog {
        Some(cid) => cid,
        None => {
            return Err(MergeError::Pdf("Catalog root not found".to_owned()));
        },
    };
    Ok(MergePlan { page_ids: pages, catalog_id: cid, pages_root_id: rid })
}

} // verus!
