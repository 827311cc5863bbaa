use invoice_merge::graph::ObjectRole;
use invoice_merge::orchestrate::{path_within, sort_files};
use invoice_merge::pdf::merge_documents;
use invoice_merge::placement::compute_placement;
use invoice_merge::raster::{normalize_heic_plane, normalize_image, NormalizedRaster};
use invoice_merge::{InvoiceFile, SortMode};
use lopdf::{Dictionary, Document, Object};
use printpdf::{ImageTransform, Mm, PdfDocument};

fn two_page_pdf() -> Vec<u8> {
    let mut doc = Document::with_version("1.5");
    let pages_id = doc.new_object_id();
    let mut kids: Vec<Object> = Vec::new();
    for _ in 0..2 {
        let mut pd = Dictionary::new();
        pd.set("Type", Object::Name(b"Page".to_vec()));
        pd.set("Parent", Object::Reference(pages_id));
        let pid = doc.add_object(Object::Dictionary(pd));
        kids.push(Object::Reference(pid));
    }
    let mut proot = Dictionary::new();
    proot.set("Type", Object::Name(b"Pages".to_vec()));
    proot.set("Kids", Object::Array(kids));
    proot.set("Count", Object::Integer(2));
    doc.objects.insert(pages_id, Object::Dictionary(proot));
    let mut cat = Dictionary::new();
    cat.set("Type", Object::Name(b"Catalog".to_vec()));
    cat.set("Pages", Object::Reference(pages_id));
    // an outline that the merge must drop
    let mut outl = Dictionary::new();
    outl.set("Type", Object::Name(b"Outlines".to_vec()));
    let outl_id = doc.add_object(Object::Dictionary(outl));
    cat.set("Outlines", Object::Reference(outl_id));
    let cat_id = doc.add_object(Object::Dictionary(cat));
    doc.trailer.set("Root", cat_id);
    let mut buf: Vec<u8> = Vec::new();
    doc.save_to(&mut buf).unwrap();
    buf
}

/// Mirrors the host's synthesis step: places a normalized raster on a
/// fixed A4 page with the placement the library computed.
fn synthesize_page(n: &NormalizedRaster) -> Vec<u8> {
    let p = compute_placement(n.width, n.height);
    let (doc, page1, layer1) =
        PdfDocument::new("Invoice Image", Mm(210.0), Mm(297.0), "Layer");
    let layer = doc.get_page(page1).get_layer(layer1);
    let rgb =
        printpdf::image_crate::RgbImage::from_raw(n.width, n.height, n.data.clone()).unwrap();
    let dynimg = printpdf::image_crate::DynamicImage::ImageRgb8(rgb);
    let img = printpdf::Image::from_dynamic_image(&dynimg);
    img.add_to_layer(
        layer,
        ImageTransform {
            translate_x: Some(Mm((p.off_x_num as f64 / (2.0 * p.den as f64)) as f32)),
            translate_y: Some(Mm((p.off_y_num as f64 / (2.0 * p.den as f64)) as f32)),
            rotate: None,
            scale_x: Some((p.scale_x_num as f64 / p.scale_x_den as f64) as f32),
            scale_y: Some((p.scale_y_num as f64 / p.scale_y_den as f64) as f32),
            dpi: Some(150.0),
        },
    );
    let mut buf = std::io::BufWriter::new(Vec::new());
    doc.save(&mut buf).unwrap();
    buf.into_inner().unwrap()
}

fn entry(name: &str, ext: &str) -> InvoiceFile {
    InvoiceFile {
        path: format!("/invoices/{}", name),
        file_name: name.to_string(),
        ext: ext.to_string(),
        modified_ts: 0,
        size: 1,
    }
}

#[test]
fn folder_scenario_merges_four_pages_in_name_order() {
    // Folder holds a.png (alpha raster, 800 x 600), b.pdf (2 pages) and
    // c.heic (1200 x 1200, planar); sort mode is by file name.
    let files = vec![entry("c.heic", "heic"), entry("a.png", "png"), entry("b.pdf", "pdf")];
    let sorted = sort_files(files, SortMode::FileNameAsc);
    let names: Vec<&str> = sorted.iter().map(|f| f.file_name.as_str()).collect();
    assert_eq!(names, vec!["a.png", "b.pdf", "c.heic"]);

    // a.png: an 800 x 600 raster whose transparent pixels must flatten
    // to white.
    let mut img = image::RgbaImage::new(800, 600);
    for (_, _, px) in img.enumerate_pixels_mut() {
        *px = image::Rgba([40, 80, 120, 0]);
    }
    let mut png: Vec<u8> = Vec::new();
    img.write_to(&mut std::io::Cursor::new(&mut png), image::ImageFormat::Png)
        .unwrap();
    let a = normalize_image(&png).unwrap();
    assert_eq!((a.width, a.height), (800, 600));
    assert_eq!(&a.data[0..3], &[255, 255, 255]);

    // c.heic: a 1200 x 1200 interleaved plane with per-row padding.
    let stride = 1200 * 3 + 4;
    let mut plane = vec![0u8; (1200 - 1) * stride + 1200 * 3];
    for b in plane.iter_mut() {
        *b = 90;
    }
    let c = normalize_heic_plane(1200, 1200, stride, 24, &plane).unwrap();
    assert_eq!((c.width, c.height), (1200, 1200));
    assert_eq!(c.data.len(), 1200 * 1200 * 3);

    let sources = vec![synthesize_page(&a), two_page_pdf(), synthesize_page(&c)];
    let out = merge_documents(&sources).unwrap();
    let merged = Document::load_mem(&out).unwrap();
    assert_eq!(merged.get_pages().len(), 4);
}

#[test]
fn escaping_path_fails_that_file_only() {
    let folder = "/invoices";
    let candidates = vec![
        ("a.pdf", "/invoices/a.pdf"),
        ("evil.pdf", "/elsewhere/evil.pdf"),
        ("b.pdf", "/invoices/b.pdf"),
    ];
    let mut failed: Vec<String> = Vec::new();
    let mut sources: Vec<Vec<u8>> = Vec::new();
    for (name, resolved) in candidates.iter() {
        if path_within(folder, resolved) {
            sources.push(two_page_pdf());
        } else {
            failed.push(name.to_string());
        }
    }
    assert_eq!(failed, vec!["evil.pdf".to_string()]);
    let out = merge_documents(&sources).unwrap();
    let merged = Document::load_mem(&out).unwrap();
    assert_eq!(merged.get_pages().len(), 4);
    let outcome =
        invoice_merge::orchestrate::build_outcome("/invoices/out.pdf".to_string(), failed, 3);
    assert!(outcome.success);
    assert_eq!(outcome.failed_files.len(), 1);
}

#[test]
fn merged_pages_reparent_to_single_root() {
    // Pages from different sources must all point at the one surviving
    // page-tree root.
    let sources = vec![two_page_pdf(), two_page_pdf()];
    let out = merge_documents(&sources).unwrap();
    let doc = Document::load_mem(&out).unwrap();
    let mut root_ids: Vec<lopdf::ObjectId> = Vec::new();
    for (id, obj) in doc.objects.iter() {
        if let Ok(d) = obj.as_dict() {
            if let Ok(t) = d.get(b"Type").and_then(Object::as_name) {
                if t == b"Pages" {
                    root_ids.push(*id);
                }
            }
        }
    }
    assert_eq!(root_ids.len(), 1);
    for (_, page_id) in doc.get_pages() {
        let page = doc.get_object(page_id).unwrap().as_dict().unwrap();
        let parent = page.get(b"Parent").unwrap().as_reference().unwrap();
        assert_eq!(parent, root_ids[0]);
    }
    // no outline objects survive
    for (_, obj) in doc.objects.iter() {
        if let Ok(d) = obj.as_dict() {
            if let Ok(t) = d.get(b"Type").and_then(Object::as_name) {
                assert!(t != b"Outlines" && t != b"Outline");
            }
        }
    }
    // the role classifier agrees with what the scenario relies on
    assert_eq!(invoice_merge::graph::role_of_type_name(b"Pages"), ObjectRole::PagesRoot);
}
