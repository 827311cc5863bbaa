use invoice_merge::graph::{plan_merge, role_of_type_name, MergePlan, ObjectRole, SourceGraph};
use invoice_merge::MergeError;

#[test]
fn roles_from_type_names() {
    assert_eq!(role_of_type_name(b"Page"), ObjectRole::Page);
    assert_eq!(role_of_type_name(b"Pages"), ObjectRole::PagesRoot);
    assert_eq!(role_of_type_name(b"Catalog"), ObjectRole::Catalog);
    assert_eq!(role_of_type_name(b"Outlines"), ObjectRole::Outline);
    assert_eq!(role_of_type_name(b"Outline"), ObjectRole::Outline);
    assert_eq!(role_of_type_name(b"Font"), ObjectRole::Other);
    assert_eq!(role_of_type_name(b""), ObjectRole::Other);
    assert_eq!(role_of_type_name(b"page"), ObjectRole::Other); // case matters
}

fn graph(objs: Vec<((u32, u16), ObjectRole)>) -> SourceGraph {
    SourceGraph { objects: objs }
}

#[test]
fn plan_collects_pages_in_order_and_first_roots() {
    let s1 = graph(vec![
        ((1, 0), ObjectRole::Catalog),
        ((2, 0), ObjectRole::PagesRoot),
        ((3, 0), ObjectRole::Page),
        ((4, 0), ObjectRole::Page),
        ((5, 0), ObjectRole::Other),
    ]);
    let s2 = graph(vec![
        ((11, 0), ObjectRole::Catalog),
        ((12, 0), ObjectRole::PagesRoot),
        ((13, 0), ObjectRole::Page),
        ((14, 0), ObjectRole::Outline),
    ]);
    let plan: MergePlan = plan_merge(&vec![s1, s2]).unwrap();
    assert_eq!(plan.page_ids, vec![(3, 0), (4, 0), (13, 0)]);
    assert_eq!(plan.catalog_id, (1, 0));
    assert_eq!(plan.pages_root_id, (2, 0));
}

#[test]
fn plan_page_count_is_sum_of_sources() {
    let s1 = graph(vec![
        ((1, 0), ObjectRole::Catalog),
        ((2, 0), ObjectRole::PagesRoot),
        ((3, 0), ObjectRole::Page),
        ((4, 0), ObjectRole::Page),
    ]);
    let s2 = graph(vec![((13, 0), ObjectRole::Page)]);
    let s3 = graph(vec![
        ((21, 0), ObjectRole::Page),
        ((22, 0), ObjectRole::Page),
        ((23, 0), ObjectRole::Page),
    ]);
    let plan = plan_merge(&vec![s1, s2, s3]).unwrap();
    assert_eq!(plan.page_ids.len(), 2 + 1 + 3);
}

#[test]
fn plan_of_no_sources_is_no_files() {
    let r = plan_merge(&vec![]);
    assert!(matches!(r, Err(MergeError::NoFiles)));
}

#[test]
fn plan_of_pageless_sources_is_no_files() {
    let s1 = graph(vec![
        ((1, 0), ObjectRole::Catalog),
        ((2, 0), ObjectRole::PagesRoot),
        ((5, 0), ObjectRole::Other),
    ]);
    let r = plan_merge(&vec![s1]);
    assert!(matches!(r, Err(MergeError::NoFiles)));
}

#[test]
fn plan_without_pages_root_is_structural_error() {
    let s1 = graph(vec![((1, 0), ObjectRole::Catalog), ((3, 0), ObjectRole::Page)]);
    let r = plan_merge(&vec![s1]);
    match r {
        Err(MergeError::Pdf(m)) => assert_eq!(m, "Pages root not found"),
        _ => panic!("expected a structural error"),
    }
}

#[test]
fn plan_without_catalog_is_structural_error() {
    let s1 = graph(vec![((2, 0), ObjectRole::PagesRoot), ((3, 0), ObjectRole::Page)]);
    let r = plan_merge(&vec![s1]);
    match r {
        Err(MergeError::Pdf(m)) => assert_eq!(m, "Catalog root not found"),
        _ => panic!("expected a structural error"),
    }
}

#[test]
fn plan_twice_is_identical() {
    let mk = || {
        vec![
            graph(vec![
                ((1, 0), ObjectRole::Catalog),
                ((2, 0), ObjectRole::PagesRoot),
                ((3, 0), ObjectRole::Page),
            ]),
            graph(vec![((13, 0), ObjectRole::Page), ((14, 0), ObjectRole::Page)]),
        ]
    };
    let p1 = plan_merge(&mk()).unwrap();
    let p2 = plan_merge(&mk()).unwrap();
    assert_eq!(p1.page_ids, p2.page_ids);
    assert_eq!(p1.catalog_id, p2.catalog_id);
    assert_eq!(p1.pages_root_id, p2.pages_root_id);
}

#[test]
fn later_duplicate_roots_are_dropped() {
    let s1 = graph(vec![
        ((1, 0), ObjectRole::PagesRoot),
        ((2, 0), ObjectRole::Catalog),
        ((3, 0), ObjectRole::Page),
    ]);
    let s2 = graph(vec![
        ((11, 0), ObjectRole::PagesRoot),
        ((12, 0), ObjectRole::Catalog),
        ((13, 0), ObjectRole::Page),
    ]);
    let plan = plan_merge(&vec![s1, s2]).unwrap();
    assert_eq!(plan.pages_root_id, (1, 0));
    assert_eq!(plan.catalog_id, (2, 0));
}
