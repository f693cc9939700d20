//! The folder watcher's decisions: which changes are reported.

use vstd::prelude::*;
use vstd::string::StringExecFns;
use crate::code_review::{is_code_extension, is_code_file};
use crate::text::opt_str_view;
use crate::error::AppError;

verus! {

/// The kind of a change in a watched folder.
#[derive(Clone, Copy, Debug, PartialEq, Eq, Structural)]
pub enum ChangeKind {
    Create,
    Modify,
    Other,
}

/// Whether a file with this extension counts as a PDF: the extension is
/// `pdf`, all in lower or all in upper case.
pub open spec fn is_pdf_extension(extension: Option<Seq<char>>) -> bool {
    match extension {
        Some(e) => e == "pdf"@ || e == "PDF"@,
        None => false,
    }
}

/// Whether a file with this extension counts as a PDF.
pub fn is_pdf_file(extension: Option<&str>) -> (r: bool)
    ensures
        r == is_pdf_extension(opt_str_view(extension)),
{
    match extension {
        Some(e) => {
            let ext = String::from_str(e);
            ext == String::from_str("pdf") || ext == String::from_str("PDF")
        },
        None => false,
    }
}

/// Whether the document watcher reports a change: a PDF file was created or modified.
pub fn reports_pdf(kind: ChangeKind, extension: Option<&str>) -> (r: bool)
    ensures
        r == (kind != ChangeKind::Other && is_pdf_extension(opt_str_view(extension))),
{
    match kind {
        ChangeKind::Other => false,
        _ => is_pdf_file(extension),
    }
}

/// Whether the code watcher considers a change: a code file was created or modified.
pub fn considers_code(kind: ChangeKind, extension: Option<&str>) -> (r: bool)
    ensures
        r == (kind != ChangeKind::Other && is_code_extension(opt_str_view(extension))),
{
    match kind {
        ChangeKind::Other => false,
        _ => is_code_file(extension),
    }
}

/// Whether a watch of a folder may start: a folder that does not exist is
/// refused as not found.
pub fn check_watch_folder(exists: bool) -> (r: Result<(), AppError>)
    ensures
        r is Ok <==> exists,
        r is Err ==> r->Err_0 is NotFound && r->Err_0.detail() == "フォルダが存在しません"@,
{
    if exists {
        Ok(())
    } else {
        Err(AppError::NotFound(String::from_str("フォルダが存在しません")))
    }
}


/// The watch of one subsystem: the folder that is watched, if any. There is
/// never more than one.
pub struct WatchSession {
    pub active: Option<String>,
}

impl WatchSession {
    /// A session that watches nothing.
    pub fn new() -> (r: Self)
        ensures
            r.active is None,
    {
        WatchSession { active: None }
    }

    /// Starts a watch of `folder`. A running watch is stopped first, so a
    /// folder that does not exist leaves no watch behind. Returns whether
    /// a running watch was stopped.
    pub fn start(&mut self, folder: &str, exists: bool) -> (r: Result<bool, AppError>)
        ensures
            r is Ok <==> exists,
            r is Ok ==> r->Ok_0 == old(self).active is Some && final(self).active is Some
                && final(self).active->Some_0@ == folder@,
            r is Err ==> final(self).active is None && r->Err_0 is NotFound && r->Err_0.detail()
                == "フォルダが存在しません"@,
    {
        let stopped = self.stop();
        match check_watch_folder(exists) {
            Ok(()) => {
                self.active = Some(String::from_str(folder));
                Ok(stopped)
            },
            Err(e) => Err(e),
        }
    }

    /// Stops the watch; stopping a session that watches nothing changes
    /// nothing. Returns whether a watch was running.
    pub fn stop(&mut self) -> (r: bool)
        ensures
            final(self).active is None,
            r == old(self).active is Some,
    {
        let was = self.active.is_some();
        self.active = None;
        was
    }
}

} // verus!
