//! Basic facts about a PDF file.

use vstd::prelude::*;
use vstd::string::StringExecFns;
use crate::text::opt_str_view;

verus! {

/// A PDF file's name, path and size.
#[derive(Debug)]
pub struct PdfInfo {
    pub file_name: String,
    pub file_path: String,
    pub size_bytes: u64,
}

/// The facts about a file whose path gives the name `file_name`, or none,
/// and whose size is `size_bytes`.
pub fn pdf_info(file_name: Option<&str>, file_path: &str, size_bytes: u64) -> (r: PdfInfo)
    ensures
        r.file_name@ == match opt_str_view(file_name) {
            Some(n) => n,
            None => Seq::<char>::empty(),
        },
        r.file_path@ == file_path@,
        r.size_bytes == size_bytes,
{
    let file_name = match file_name {
        Some(n) => String::from_str(n),
        None => String::new(),
    };
    PdfInfo { file_name, file_path: String::from_str(file_path), size_bytes }
}

} // verus!
