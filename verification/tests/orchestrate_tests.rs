use invoice_merge::orchestrate::{
    build_outcome, classify_extension, decide_file, is_heic_ext, is_supported_extension,
    path_within, phase_label, resolve_output_name, sort_files, FileAction, FileKind,
    ProgressPhase,
};
use invoice_merge::{InvoiceFile, SortMode};

fn file(name: &str, ts: i64) -> InvoiceFile {
    InvoiceFile {
        path: format!("/inv/{}", name),
        file_name: name.to_string(),
        ext: name.rsplit('.').next().unwrap_or("").to_string(),
        modified_ts: ts,
        size: 1,
    }
}

#[test]
fn classify_known_extensions() {
    assert_eq!(classify_extension("pdf"), FileKind::Pdf);
    assert_eq!(classify_extension("PDF"), FileKind::Pdf);
    assert_eq!(classify_extension("jpg"), FileKind::Image);
    assert_eq!(classify_extension("JPeG"), FileKind::Image);
    assert_eq!(classify_extension("png"), FileKind::Image);
    assert_eq!(classify_extension("bmp"), FileKind::Image);
    assert_eq!(classify_extension("gif"), FileKind::Image);
    assert_eq!(classify_extension("tiff"), FileKind::Image);
    assert_eq!(classify_extension("webp"), FileKind::Image);
    assert_eq!(classify_extension("heic"), FileKind::Image);
    assert_eq!(classify_extension("docx"), FileKind::Other);
    assert_eq!(classify_extension(""), FileKind::Other);
    assert!(is_supported_extension("HEIC"));
    assert!(!is_supported_extension("txt"));
    assert!(is_heic_ext("HeIc"));
    assert!(!is_heic_ext("jpeg"));
}

#[test]
fn sort_by_name_is_case_insensitive() {
    let files = vec![file("Beta.pdf", 5), file("alpha.pdf", 9), file("GAMMA.pdf", 1)];
    let sorted = sort_files(files, SortMode::FileNameAsc);
    let names: Vec<&str> = sorted.iter().map(|f| f.file_name.as_str()).collect();
    assert_eq!(names, vec!["alpha.pdf", "Beta.pdf", "GAMMA.pdf"]);
}

#[test]
fn sort_by_modified_time_ascending() {
    let files = vec![file("a.pdf", 30), file("b.pdf", 10), file("c.pdf", 20)];
    let sorted = sort_files(files, SortMode::ModifiedAsc);
    let ts: Vec<i64> = sorted.iter().map(|f| f.modified_ts).collect();
    assert_eq!(ts, vec![10, 20, 30]);
}

#[test]
fn custom_order_is_untouched() {
    let files = vec![file("z.pdf", 3), file("a.pdf", 1), file("m.pdf", 2)];
    let sorted = sort_files(files, SortMode::Custom);
    let names: Vec<&str> = sorted.iter().map(|f| f.file_name.as_str()).collect();
    assert_eq!(names, vec!["z.pdf", "a.pdf", "m.pdf"]);
}

#[test]
fn output_name_default_when_missing_or_blank() {
    let r = resolve_output_name(&None, "20240101_0930");
    assert_eq!(r, "merged_invoices_20240101_0930.pdf");
    let r = resolve_output_name(&Some("   ".to_string()), "20240101_0930");
    assert_eq!(r, "merged_invoices_20240101_0930.pdf");
    let r = resolve_output_name(&Some("".to_string()), "20240101_0930");
    assert_eq!(r, "merged_invoices_20240101_0930.pdf");
}

#[test]
fn output_name_keeps_or_appends_suffix() {
    let r = resolve_output_name(&Some("Report.PDF".to_string()), "s");
    assert_eq!(r, "Report.PDF");
    let r = resolve_output_name(&Some("report".to_string()), "s");
    assert_eq!(r, "report.pdf");
    let r = resolve_output_name(&Some("report.pdf".to_string()), "s");
    assert_eq!(r, "report.pdf");
}

#[test]
fn path_containment() {
    assert!(path_within("/home/u/inv", "/home/u/inv"));
    assert!(path_within("/home/u/inv", "/home/u/inv/a.pdf"));
    assert!(path_within("/home/u/inv", "/home/u/inv/sub/a.pdf"));
    assert!(!path_within("/home/u/inv", "/home/u/invoices/a.pdf"));
    assert!(!path_within("/home/u/inv", "/home/u/other/a.pdf"));
    assert!(!path_within("/home/u/inv", "/home/u"));
    assert!(path_within("/", "/anything.pdf"));
}

#[test]
fn outcome_success_and_message() {
    let ok = build_outcome("/inv/out.pdf".to_string(), vec![], 3);
    assert!(ok.success);
    assert_eq!(ok.output_path, "/inv/out.pdf");
    assert!(ok.message.is_none());
    assert!(ok.failed_files.is_empty());

    let partial = build_outcome("/inv/out.pdf".to_string(), vec!["bad.txt".to_string()], 3);
    assert!(partial.success);
    assert_eq!(partial.failed_files, vec!["bad.txt".to_string()]);
    assert_eq!(
        partial.message.as_deref(),
        Some("1 file(s) could not be processed")
    );

    let all_failed = build_outcome(
        "/inv/out.pdf".to_string(),
        vec!["a".to_string(), "b".to_string()],
        2,
    );
    assert!(!all_failed.success);
}

#[test]
fn per_file_decisions() {
    assert_eq!(decide_file(true, "pdf"), FileAction::UsePdf);
    assert_eq!(decide_file(true, "PNG"), FileAction::ConvertImage);
    assert_eq!(decide_file(true, "heic"), FileAction::ConvertImage);
    assert_eq!(decide_file(true, "txt"), FileAction::Reject);
    // a path that escapes the folder is rejected whatever it names
    assert_eq!(decide_file(false, "pdf"), FileAction::Reject);
    assert_eq!(decide_file(false, "png"), FileAction::Reject);
}

#[test]
fn phase_labels() {
    assert_eq!(phase_label(ProgressPhase::Enumerate), "enumerate");
    assert_eq!(phase_label(ProgressPhase::Convert), "convert");
    assert_eq!(phase_label(ProgressPhase::Merge), "merge");
    assert_eq!(phase_label(ProgressPhase::Write), "write");
}
