use vstd::prelude::*;

verus! {

use crate::{InvoiceFile, MergeResult, SortMode};
use crate::text::{
    bytes_lex_le, decimal_of, lex_le, lower_ascii, lower_byte, lower_bytes, lower_of, lowercase,
    str_concat, trim_of, trimmed, usize_decimal,
};
use vstd::string::StringSliceAdditionalSpecFns;
use vstd::multiset::Multiset;
use vstd::utf8::encode_utf8;

broadcast use vstd::seq_lib::group_to_multiset_ensures;

/// What a file's extension says about it: an existing paginated
/// document, a raster image to convert, or something unsupported.
#[derive(Debug, Clone, Copy, PartialEq, Eq, Structural)]
pub enum FileKind {
    Pdf,
    Image,
    Other,
}

/// The kind an ASCII-lowercased extension denotes. `pdf` is a
/// document; `jpg`, `jpeg`, `png`, `bmp`, `gif`, `tiff`, `webp` and
/// `heic` are rasters; everything else is unsupported.
pub open spec fn ext_kind(e: Seq<u8>) -> FileKind {
    if e == seq![112u8, 100u8, 102u8] {
        FileKind::Pdf
    } else if e == seq![106u8, 112u8, 103u8] || e == seq![106u8, 112u8, 101u8, 103u8] || e
        == seq![112u8, 110u8, 103u8] || e == seq![98u8, 109u8, 112u8] || e == seq![
        103u8,
        105u8,
        102u8,
    ] || e == seq![116u8, 105u8, 102u8, 102u8] || e == seq![119u8, 101u8, 98u8, 112u8] || e
        == seq![104u8, 101u8, 105u8, 99u8] {
        FileKind::Image
    } else {
        FileKind::Other
    }
}

/// The byte sequence of the planar raster extension, lowercased.
pub open spec fn heic_ext() -> Seq<u8> {
    seq![104u8, 101u8, 105u8, 99u8]
}

/// Classifies a file extension, case-insensitively.
pub fn classify_extension(ext: &str) -> (k: FileKind)
    ensures
        k == ext_kind(lower_bytes(ext.spec_bytes())),
{
    let lb = lower_ascii(ext.as_bytes());
    let n = lb.len();
    if n == 3 && lb[0] == 112 && lb[1] == 100 && lb[2] == 102 {
        proof {
            assert(lb@ =~= seq![112u8, 100u8, 102u8]);
        }
        FileKind::Pdf
    } else if n == 3 && lb[0] == 106 && lb[1] == 112 && lb[2] == 103 {
        proof {
            assert(lb@ =~= seq![106u8, 112u8, 103u8]);
        }
        FileKind::Image
    } else if n == 4 && lb[0] == 106 && lb[1] == 112 && lb[2] == 101 && lb[3] == 103 {
        proof {
            assert(lb@ =~= seq![106u8, 112u8, 101u8, 103u8]);
        }
        FileKind::Image
    } else if n == 3 && lb[0] == 112 && lb[1] == 110 && lb[2] == 103 {
        proof {
            assert(lb@ =~= seq![112u8, 110u8, 103u8]);
        }
        FileKind::Image
    } else if n == 3 && lb[0] == 98 && lb[1] == 109 && lb[2] == 112 {
        proof {
            assert(lb@ =~= seq![98u8, 109u8, 112u8]);
        }
        FileKind::Image
    } else if n == 3 && lb[0] == 103 && lb[1] == 105 && lb[2] == 102 {
        proof {
            assert(lb@ =~= seq![103u8, 105u8, 102u8]);
        }
        FileKind::Image
    } else if n == 4 && lb[0] == 116 && lb[1] == 105 && lb[2] == 102 && lb[3] == 102 {
        proof {
            assert(lb@ =~= seq![116u8, 105u8, 102u8, 102u8]);
        }
        FileKind::Image
    } else if n == 4 && lb[0] == 119 && lb[1] == 101 && lb[2] == 98 && lb[3] == 112 {
        proof {
            assert(lb@ =~= seq![119u8, 101u8, 98u8, 112u8]);
        }
        FileKind::Image
    } else if n == 4 && lb[0] == 104 && lb[1] == 101 && lb[2] == 105 && lb[3] == 99 {
        proof {
            assert(lb@ =~= seq![104u8, 101u8, 105u8, 99u8]);
        }
        FileKind::Image
    } else {
        FileKind::Other
    }
}

/// Whether an extension is supported at all (document or raster).
pub fn is_supported_extension(ext: &str) -> (r: bool)
    ensures
        r == (ext_kind(lower_bytes(ext.spec_bytes())) != FileKind::Other),
{
    let k = classify_extension(ext);
    match k {
        FileKind::Other => false,
        _ => true,
    }
}

/// Whether an extension names the planar raster format, which takes
/// the manual stride-aware decode path.
pub fn is_heic_ext(ext: &str) -> (r: bool)
    ensures
        r == (lower_bytes(ext.spec_bytes()) == heic_ext()),
{
    let lb = lower_ascii(ext.as_bytes());
    let n = lb.len();
    if n == 4 && lb[0] == 104 && lb[1] == 101 && lb[2] == 105 && lb[3] == 99 {
        proof {
            assert(lb@ =~= heic_ext());
        }
        true
    } else {
        proof {
            assert(lb@ != heic_ext());
        }
        false
    }
}

/// What the merge run does with one file of the resolved list: pass
/// it through as a document source, convert it from a raster first,
/// or record it as a per-file failure and continue.
#[derive(Debug, Clone, Copy, PartialEq, Eq, Structural)]
pub enum FileAction {
    UsePdf,
    ConvertImage,
    Reject,
}

/// Decides one file of the run. A file whose path does not exist or
/// does not resolve inside the source folder is rejected, whatever its
/// extension; otherwise a paginated document passes through, a
/// supported raster is converted, and anything else is rejected. A
/// rejection is a per-file failure, never a run failure.
pub fn decide_file(resolved_in_folder: bool, ext: &str) -> (a: FileAction)
    ensures
        !resolved_in_folder ==> a is Reject,
        resolved_in_folder ==> a == match ext_kind(lower_bytes(ext.spec_bytes())) {
            FileKind::Pdf => FileAction::UsePdf,
            FileKind::Image => FileAction::ConvertImage,
            FileKind::Other => FileAction::Reject,
        },
{
    if !resolved_in_folder {
        return FileAction::Reject;
    }
    match classify_extension(ext) {
        FileKind::Pdf => FileAction::UsePdf,
        FileKind::Image => FileAction::ConvertImage,
        FileKind::Other => FileAction::Reject,
    }
}

/// The key the name sort compares: the file's display name,
/// Unicode-lowercased, as bytes.
pub open spec fn name_key(f: InvoiceFile) -> Seq<u8> {
    encode_utf8(lower_of(f.file_name@))
}

/// The order the chosen sort policy puts two files in: by lowercased
/// display name, by modification time, or no constraint at all for
/// caller-supplied order.
pub open spec fn file_le(mode: SortMode, a: InvoiceFile, b: InvoiceFile) -> bool {
    match mode {
        SortMode::FileNameAsc => lex_le(name_key(a), name_key(b)),
        SortMode::ModifiedAsc => a.modified_ts <= b.modified_ts,
        SortMode::Custom => true,
    }
}

/// Compares two files under the chosen sort policy.
pub fn file_le_exec(mode: SortMode, a: &InvoiceFile, b: &InvoiceFile) -> (r: bool)
    ensures
        r == file_le(mode, *a, *b),
{
    match mode {
        SortMode::FileNameAsc => {
            let la = lowercase(a.file_name.as_str());
            let lb = lowercase(b.file_name.as_str());
            bytes_lex_le(la.as_str().as_bytes(), lb.as_str().as_bytes())
        },
        SortMode::ModifiedAsc => a.modified_ts <= b.modified_ts,
        SortMode::Custom => true,
    }
}

/// `lex_le` is total: of any two byte sequences, one comes first.
proof fn lemma_lex_le_total(a: Seq<u8>, b: Seq<u8>)
    ensures
        lex_le(a, b) || lex_le(b, a),
    decreases a.len(),
{
    if a.len() > 0 && b.len() > 0 && a[0] == b[0] {
        lemma_lex_le_total(a.drop_first(), b.drop_first());
    }
}

/// `lex_le` is transitive.
proof fn lemma_lex_le_trans(a: Seq<u8>, b: Seq<u8>, c: Seq<u8>)
    requires
        lex_le(a, b),
        lex_le(b, c),
    ensures
        lex_le(a, c),
    decreases a.len(),
{
    if a.len() > 0 {
        if a[0] == b[0] && b[0] == c[0] {
            lemma_lex_le_trans(a.drop_first(), b.drop_first(), c.drop_first());
        }
    }
}

/// `file_le` is total for every sort policy.
proof fn lemma_file_le_total(mode: SortMode, a: InvoiceFile, b: InvoiceFile)
    ensures
        file_le(mode, a, b) || file_le(mode, b, a),
{
    if mode is FileNameAsc {
        lemma_lex_le_total(name_key(a), name_key(b));
    }
}

/// `file_le` is transitive for every sort policy.
proof fn lemma_file_le_trans(mode: SortMode, a: InvoiceFile, b: InvoiceFile, c: InvoiceFile)
    requires
        file_le(mode, a, b),
        file_le(mode, b, c),
    ensures
        file_le(mode, a, c),
{
    if mode is FileNameAsc {
        lemma_lex_le_trans(name_key(a), name_key(b), name_key(c));
    }
}

/// Sorts the file list under the chosen policy. The result holds
/// exactly the given files, ordered by the policy's relation; a
/// caller-supplied order is returned unchanged.
pub fn sort_files(files: Vec<InvoiceFile>, mode: SortMode) -> (r: Vec<InvoiceFile>)
    ensures
        r@.to_multiset() == files@.to_multiset(),
        forall|i: int, j: int|
            0 <= i < j < r@.len() ==> file_le(mode, #[trigger] r@[i], #[trigger] r@[j]),
        mode is Custom ==> r@ == files@,
{
    match mode {
        SortMode::Custom => {
            return files;
        },
        _ => {},
    }
    let ghost orig = files@;
    let mut rem = files;
    let mut out: Vec<InvoiceFile> = Vec::new();
    proof {
        assert(out@.to_multiset().add(rem@.to_multiset()) =~= orig.to_multiset());
    }
    while rem.len() > 0
        invariant
            out@.to_multiset().add(rem@.to_multiset()) == orig.to_multiset(),
            forall|i: int, j: int|
                0 <= i < j < out@.len() ==> file_le(mode, #[trigger] out@[i], #[trigger] out@[j]),
            forall|i: int, j: int|
                0 <= i < out@.len() && 0 <= j < rem@.len() ==> file_le(
                    mode,
                    #[trigger] out@[i],
                    #[trigger] rem@[j],
                ),
        decreases rem@.len(),
    {
        let mut m: usize = 0;
        let mut k: usize = 1;
        proof {
            lemma_file_le_total(mode, rem@[0], rem@[0]);
        }
        while k < rem.len()
            invariant
                rem@.len() > 0,
                m < k,
                k <= rem@.len(),
                forall|t: int| 0 <= t < k ==> file_le(mode, rem@[m as int], #[trigger] rem@[t]),
            decreases rem@.len() - k,
        {
            let strictly_less = file_le_exec(mode, &rem[k], &rem[m]) && !file_le_exec(
                mode,
                &rem[m],
                &rem[k],
            );
            if strictly_less {
                proof {
                    assert forall|t: int| 0 <= t < k + 1 implies file_le(
                        mode,
                        rem@[k as int],
                        #[trigger] rem@[t],
                    ) by {
                        if t < k {
                            lemma_file_le_trans(mode, rem@[k as int], rem@[m as int], rem@[t]);
                        } else {
                            lemma_file_le_total(mode, rem@[k as int], rem@[k as int]);
                        }
                    }
                }
                m = k;
            } else {
                proof {
                    lemma_file_le_total(mode, rem@[m as int], rem@[k as int]);
                }
            }
            k = k + 1;
        }
        let x = rem.remove(m);
        proof {
            assert(out@.push(x).to_multiset().add(rem@.to_multiset()) =~= orig.to_multiset());
        }
        out.push(x);
        proof {
            assert forall|j: int| 0 <= j < rem@.len() implies file_le(
                mode,
                x,
                #[trigger] rem@[j],
            ) by {
            }
        }
    }
    proof {
        assert(rem@.to_multiset() =~= Multiset::<InvoiceFile>::empty());
        assert(out@.to_multiset().add(rem@.to_multiset()) =~= out@.to_multiset());
    }
    out
}

/// Whether a name is blank: empty once its surrounding whitespace is
/// trimmed.
pub fn is_blank(s: &str) -> (r: bool)
    ensures
        r == (trim_of(s@).len() == 0),
{
    trimmed(s).is_empty()
}

/// Whether a name already carries the paginated-document suffix,
/// case-insensitively: its last four bytes lowercase to `.pdf`.
pub open spec fn ends_with_pdf(s: Seq<u8>) -> bool {
    &&& s.len() >= 4
    &&& lower_byte(s[s.len() - 4]) == 46
    &&& lower_byte(s[s.len() - 3]) == 112
    &&& lower_byte(s[s.len() - 2]) == 100
    &&& lower_byte(s[s.len() - 1]) == 102
}

fn ends_with_pdf_exec(s: &str) -> (r: bool)
    ensures
        r == ends_with_pdf(s.spec_bytes()),
{
    let b = s.as_bytes();
    let n = b.len();
    if n < 4 {
        return false;
    }
    let lower4 = lower_ascii(b);
    lower4[n - 4] == 46 && lower4[n - 3] == 112 && lower4[n - 2] == 100 && lower4[n - 1] == 102
}

/// Resolves the output file name: a blank or missing request becomes a
/// timestamped default, a request already ending in `.pdf` (in any
/// case) is used as given, and any other request gets `.pdf` appended.
pub fn resolve_output_name(requested: &Option<String>, stamp: &str) -> (r: String)
    ensures
        match requested {
            Option::None => r@ == "merged_invoices_"@ + stamp@ + ".pdf"@,
            Option::Some(name) => if trim_of(name@).len() == 0 {
                r@ == "merged_invoices_"@ + stamp@ + ".pdf"@
            } else if ends_with_pdf(encode_utf8(name@)) {
                r@ == name@
            } else {
                r@ == name@ + ".pdf"@
            },
        },
{
    match requested {
        Some(name) => {
            if is_blank(name.as_str()) {
                str_concat(str_concat("merged_invoices_", stamp).as_str(), ".pdf")
            } else if ends_with_pdf_exec(name.as_str()) {
                name.clone()
            } else {
                str_concat(name.as_str(), ".pdf")
            }
        },
        None => str_concat(str_concat("merged_invoices_", stamp).as_str(), ".pdf"),
    }
}

/// Whether `cand` lies inside `folder`, both given as canonical
/// absolute paths with `/` as the separator (the shape the host's
/// path resolution hands over here): the candidate is the folder
/// itself, or extends it at a separator boundary, component-wise. A
/// root folder contains every absolute path.
pub open spec fn spec_path_within(folder: Seq<u8>, cand: Seq<u8>) -> bool {
    if folder == seq![47u8] {
        cand.len() >= 1 && cand[0] == 47
    } else {
        cand == folder || (cand.len() > folder.len() && cand.subrange(0, folder.len() as int)
            == folder && cand[folder.len() as int] == 47)
    }
}

/// Checks that a canonical path stays inside a canonical folder; a
/// path that resolves elsewhere is a path-escape failure.
pub fn path_within(folder: &str, cand: &str) -> (r: bool)
    ensures
        r == spec_path_within(folder.spec_bytes(), cand.spec_bytes()),
{
    let f = folder.as_bytes();
    let c = cand.as_bytes();
    if f.len() == 1 && f[0] == 47 {
        proof {
            assert(f@ =~= seq![47u8]);
        }
        return c.len() >= 1 && c[0] == 47;
    }
    proof {
        assert(f@ != seq![47u8]) by {
            if f@ == seq![47u8] {
                assert(f@.len() == 1);
                assert(f@[0] == 47);
            }
        }
    }
    if crate::text::bytes_eq(c, f) {
        return true;
    }
    if c.len() <= f.len() {
        return false;
    }
    if c[f.len()] != 47 {
        return false;
    }
    let mut i: usize = 0;
    while i < f.len()
        invariant
            i <= f@.len(),
            f@ == folder.spec_bytes(),
            c@ == cand.spec_bytes(),
            f@ != seq![47u8],
            c@ != f@,
            c@.len() > f@.len(),
            c@[f@.len() as int] == 47,
            forall|t: int| 0 <= t < i ==> c@[t] == f@[t],
        decreases f@.len() - i,
    {
        if c[i] != f[i] {
            proof {
                assert(!spec_path_within(f@, c@)) by {
                    if spec_path_within(f@, c@) {
                        assert(c@.subrange(0, f@.len() as int) == f@);
                        assert(c@.subrange(0, f@.len() as int)[i as int] == f@[i as int]);
                        assert(c@[i as int] == f@[i as int]);
                    }
                }
            }
            return false;
        }
        i = i + 1;
    }
    proof {
        assert(c@.subrange(0, f@.len() as int) =~= f@);
    }
    true
}

/// Builds the outcome of a merge run: the run counts as a success when
/// fewer files failed than were given, the failed display names are
/// reported as they are, and a summary message appears exactly when at
/// least one file failed.
pub fn build_outcome(output_path: String, failed: Vec<String>, total: usize) -> (r: MergeResult)
    ensures
        r.success == (failed@.len() < total),
        r.output_path == output_path,
        r.failed_files == failed,
        failed@.len() == 0 ==> r.message is None,
        failed@.len() > 0 ==> (r.message matches Some(m) && m@
            == decimal_of(failed@.len() as int) + " file(s) could not be processed"@),
{
    let success = failed.len() < total;
    let message: Option<String> = if failed.len() == 0 {
        None
    } else {
        Some(
            str_concat(
                usize_decimal(failed.len()).as_str(),
                " file(s) could not be processed",
            ),
        )
    };
    MergeResult { success, output_path, failed_files: failed, message }
}

/// The discrete phases a merge run reports progress for.
#[derive(Debug, Clone, Copy, PartialEq, Eq, Structural)]
pub enum ProgressPhase {
    Enumerate,
    Convert,
    Merge,
    Write,
}

/// The wire label of a progress phase.
pub fn phase_label(p: ProgressPhase) -> (s: &'static str)
    ensures
        p is Enumerate ==> s@ == "enumerate"@,
        p is Convert ==> s@ == "convert"@,
        p is Merge ==> s@ == "merge"@,
        p is Write ==> s@ == "write"@,
{
    match p {
        ProgressPhase::Enumerate => "enumerate",
        ProgressPhase::Convert => "convert",
        ProgressPhase::Merge => "merge",
        ProgressPhase::Write => "write",
    }
}

} // verus!
