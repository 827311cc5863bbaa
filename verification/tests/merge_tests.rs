use invoice_merge::pdf::merge_documents;
use invoice_merge::MergeError;
use lopdf::{Dictionary, Document, Object};

/// Builds a minimal, valid PDF with the given number of empty pages.
fn make_pdf(pages: usize) -> Vec<u8> {
    let mut doc = Document::with_version("1.5");
    let pages_id = doc.new_object_id();
    let mut kids: Vec<Object> = Vec::new();
    for _ in 0..pages {
        let mut pd = Dictionary::new();
        pd.set("Type", Object::Name(b"Page".to_vec()));
        pd.set("Parent", Object::Reference(pages_id));
        let pid = doc.add_object(Object::Dictionary(pd));
        kids.push(Object::Reference(pid));
    }
    let mut proot = Dictionary::new();
    proot.set("Type", Object::Name(b"Pages".to_vec()));
    proot.set("Kids", Object::Array(kids));
    proot.set("Count", Object::Integer(pages as i64));
    doc.objects.insert(pages_id, Object::Dictionary(proot));
    let mut cat = Dictionary::new();
    cat.set("Type", Object::Name(b"Catalog".to_vec()));
    cat.set("Pages", Object::Reference(pages_id));
    let cat_id = doc.add_object(Object::Dictionary(cat));
    doc.trailer.set("Root", cat_id);
    let mut buf: Vec<u8> = Vec::new();
    doc.save_to(&mut buf).unwrap();
    buf
}

fn page_count(bytes: &[u8]) -> usize {
    Document::load_mem(bytes).unwrap().get_pages().len()
}

#[test]
fn merged_page_count_is_sum() {
    let inputs = vec![make_pdf(2), make_pdf(3), make_pdf(1)];
    let out = merge_documents(&inputs).unwrap();
    assert_eq!(page_count(&out), 6);
}

#[test]
fn merged_output_has_single_catalog_and_root() {
    let inputs = vec![make_pdf(1), make_pdf(2)];
    let out = merge_documents(&inputs).unwrap();
    let doc = Document::load_mem(&out).unwrap();
    let mut catalogs = 0;
    let mut roots = 0;
    for (_, obj) in doc.objects.iter() {
        if let Ok(d) = obj.as_dict() {
            if let Ok(t) = d.get(b"Type") {
                if let Ok(name) = t.as_name() {
                    if name == b"Catalog" {
                        catalogs += 1;
                    }
                    if name == b"Pages" {
                        roots += 1;
                    }
                }
            }
        }
    }
    assert_eq!(catalogs, 1);
    assert_eq!(roots, 1);
}

#[test]
fn merging_no_inputs_is_no_files() {
    let r = merge_documents(&vec![]);
    assert!(matches!(r, Err(MergeError::NoFiles)));
}

#[test]
fn merging_pageless_documents_is_no_files() {
    let r = merge_documents(&vec![make_pdf(0)]);
    assert!(matches!(r, Err(MergeError::NoFiles)));
}

#[test]
fn merging_garbage_is_a_pdf_error() {
    let r = merge_documents(&vec![vec![1, 2, 3, 4]]);
    assert!(matches!(r, Err(MergeError::Pdf(_))));
}

#[test]
fn merging_twice_gives_identical_page_counts() {
    let inputs = vec![make_pdf(2), make_pdf(1)];
    let a = merge_documents(&inputs).unwrap();
    let b = merge_documents(&inputs).unwrap();
    assert_eq!(page_count(&a), 3);
    assert_eq!(page_count(&a), page_count(&b));
    let da = Document::load_mem(&a).unwrap();
    let db = Document::load_mem(&b).unwrap();
    let pa: Vec<u32> = da.get_pages().keys().cloned().collect();
    let pb: Vec<u32> = db.get_pages().keys().cloned().collect();
    assert_eq!(pa, pb);
}

#[test]
fn error_messages_are_readable() {
    assert_eq!(
        MergeError::NoFiles.message(),
        "no files eligible for merging"
    );
    assert_eq!(
        MergeError::Pdf("x".to_string()).message(),
        "PDF processing failed: x"
    );
    assert_eq!(
        MergeError::Image("y".to_string()).message(),
        "image decoding failed: y"
    );
    assert_eq!(
        MergeError::Io("z".to_string()).message(),
        "failed to read a file: z"
    );
    assert_eq!(
        MergeError::InvalidFolder.message(),
        "the selected folder is invalid"
    );
}
