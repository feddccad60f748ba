//! The on-disk shape of a packwiz mod record, for import.

use vstd::prelude::*;

verus! {

/// One packwiz mod file.
#[derive(Debug)]
pub struct PackWizMod {
    pub filename: String,
    pub name: String,
    pub side: String,
    pub download: Download,
    pub option: Option<PackWizOption>,
}

/// The download table of a packwiz mod file.
#[derive(Debug)]
pub struct Download {
    pub hash_format: String,
    pub hash: String,
    pub url: String,
}

/// The option table of a packwiz mod file.
#[derive(Debug)]
pub struct PackWizOption {
    pub optional: bool,
    pub default: bool,
    pub description: String,
}

/// The mathematical content of a download table.
#[verifier::ext_equal]
pub ghost struct DownloadModel {
    pub hash_format: Seq<char>,
    pub hash: Seq<char>,
    pub url: Seq<char>,
}

impl View for Download {
    type V = DownloadModel;

    open spec fn view(&self) -> DownloadModel {
        DownloadModel {
            hash_format: self.hash_format@,
            hash: self.hash@,
            url: self.url@,
        }
    }
}

} // verus!
