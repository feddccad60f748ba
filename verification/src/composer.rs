//! Structured errors, digest formats, and the package form imported from
//! packwiz records.

use vstd::prelude::*;
use crate::packwiz_compat::PackWizMod;
use crate::text::str_eq;
use crate::util::{nix_base32_of, sha256_of, sha512_of};

verus! {

/// Every failure the engine can surface.
#[derive(Debug)]
pub enum JadeError {
    SyntaxError { file: String, error: String },
    Error(String),
    FailedDownload { url: String, return_code: u16, package: String },
    CheckSumError { expected_sum: String, real_sum: String, package: String },
    DependencyMissingError { package: String, dependencies: Vec<String> },
    IOError { package: String, io_error: String },
}

/// The mathematical content of an error.
#[verifier::ext_equal]
pub ghost enum JadeErrorModel {
    SyntaxError { file: Seq<char>, error: Seq<char> },
    Error(Seq<char>),
    FailedDownload { url: Seq<char>, return_code: u16, package: Seq<char> },
    CheckSumError { expected_sum: Seq<char>, real_sum: Seq<char>, package: Seq<char> },
    DependencyMissingError { package: Seq<char>, dependencies: Seq<Seq<char>> },
    IOError { package: Seq<char>, io_error: Seq<char> },
}

impl View for JadeError {
    type V = JadeErrorModel;

    open spec fn view(&self) -> JadeErrorModel {
        match self {
            JadeError::SyntaxError { file, error } => JadeErrorModel::SyntaxError {
                file: file@,
                error: error@,
            },
            JadeError::Error(m) => JadeErrorModel::Error(m@),
            JadeError::FailedDownload { url, return_code, package } => {
                JadeErrorModel::FailedDownload {
                    url: url@,
                    return_code: *return_code,
                    package: package@,
                }
            },
            JadeError::CheckSumError { expected_sum, real_sum, package } => {
                JadeErrorModel::CheckSumError {
                    expected_sum: expected_sum@,
                    real_sum: real_sum@,
                    package: package@,
                }
            },
            JadeError::DependencyMissingError { package, dependencies } => {
                JadeErrorModel::DependencyMissingError {
                    package: package@,
                    dependencies: dependencies.deep_view(),
                }
            },
            JadeError::IOError { package, io_error } => JadeErrorModel::IOError {
                package: package@,
                io_error: io_error@,
            },
        }
    }
}

/// The digest algorithms a record may name.
#[derive(Clone, Copy, Debug, PartialEq, Eq, Structural)]
pub enum HashFmt {
    Sha256,
    Sha512,
}

/// The digest of `bytes` under the chosen algorithm, in Nix base32.
pub open spec fn fmt_hash_of(fmt: HashFmt, bytes: Seq<u8>) -> Seq<char> {
    match fmt {
        HashFmt::Sha256 => nix_base32_of(sha256_of(bytes)),
        HashFmt::Sha512 => nix_base32_of(sha512_of(bytes)),
    }
}

/// The message given for an unsupported format name.
pub open spec fn unsupported_fmt_msg(s: Seq<char>) -> Seq<char> {
    s + " is not a supported hash format, supported are sha256, sha512"@
}

impl HashFmt {
    /// Read a digest format name.
    pub fn from_string(s: &str) -> (r: Result<HashFmt, JadeError>)
        ensures
            s@ == "sha256"@ ==> r == Ok::<HashFmt, JadeError>(HashFmt::Sha256),
            s@ != "sha256"@ && s@ == "sha512"@ ==> r == Ok::<HashFmt, JadeError>(HashFmt::Sha512),
            s@ != "sha256"@ && s@ != "sha512"@ ==> (r matches Err(e) && e@
                == JadeErrorModel::Error(unsupported_fmt_msg(s@))),
    {
        if str_eq(s, "sha256") {
            Ok(HashFmt::Sha256)
        } else if str_eq(s, "sha512") {
            Ok(HashFmt::Sha512)
        } else {
            let mut m = s.to_owned();
            m.append(" is not a supported hash format, supported are sha256, sha512");
            Err(JadeError::Error(m))
        }
    }

    /// Digest a byte stream under this algorithm, rendered in Nix base32.
    pub fn hash(&self, bytes: &[u8]) -> (r: String)
        ensures
            r@ == fmt_hash_of(*self, bytes@),
    {
        match self {
            HashFmt::Sha256 => crate::util::hash_stream(bytes),
            HashFmt::Sha512 => {
                let digest = crate::util::sha512_digest(bytes);
                crate::util::nix_base32_encode(digest.as_slice())
            },
        }
    }

    /// Digest a byte stream and compare it against the expected value;
    /// a disagreement is a checksum error naming the offending artifact.
    pub fn check(&self, f: &str, bytes: &[u8], expected_hash: &str) -> (r: Result<
        String,
        JadeError,
    >)
        ensures
            expected_hash@ == fmt_hash_of(*self, bytes@) ==> (r matches Ok(h) && h@ == fmt_hash_of(
                *self,
                bytes@,
            )),
            expected_hash@ != fmt_hash_of(*self, bytes@) ==> (r matches Err(e) && e@
                == JadeErrorModel::CheckSumError {
                expected_sum: expected_hash@,
                real_sum: fmt_hash_of(*self, bytes@),
                package: f@,
            }),
    {
        let real_hash = self.hash(bytes);
        if str_eq(expected_hash, real_hash.as_str()) {
            Ok(real_hash)
        } else {
            Err(
                JadeError::CheckSumError {
                    expected_sum: expected_hash.to_owned(),
                    real_sum: real_hash,
                    package: f.to_owned(),
                },
            )
        }
    }
}

/// How the fetched artifact is post-processed.
#[derive(Clone, Copy, Debug, PartialEq, Eq, Structural)]
pub enum PackageFmt {
    File,
    Zip,
}

/// A package prepared for composition.
#[derive(Debug)]
pub struct Package {
    pub name: String,
    pub file_name: String,
    pub url: String,
    pub dep: Vec<String>,
    pub hash_format: HashFmt,
    pub hash: Option<String>,
    pub tags: Option<Vec<String>>,
    pub dest: Option<String>,
    pub target: Option<String>,
    pub package_format: PackageFmt,
}

impl Package {
    /// Import a packwiz record: its hash travels along, no dependencies
    /// are assumed, and the artifact is treated as a plain file.
    pub fn from_packwiz(pack_wiz: PackWizMod) -> (r: Result<Package, JadeError>)
        ensures
            pack_wiz.download@.hash_format == "sha256"@ || pack_wiz.download@.hash_format
                == "sha512"@ ==> (r matches Ok(p) && {
                &&& p.name@ == pack_wiz.name@
                &&& p.file_name@ == pack_wiz.filename@
                &&& p.url@ == pack_wiz.download@.url
                &&& p.dep.deep_view() == Seq::<Seq<char>>::empty()
                &&& (p.hash_format == HashFmt::Sha256 <==> pack_wiz.download@.hash_format
                    == "sha256"@)
                &&& p.hash.deep_view() == Some(pack_wiz.download@.hash)
                &&& p.tags is None
                &&& p.dest is None
                &&& p.target is None
                &&& p.package_format == PackageFmt::File
            }),
            pack_wiz.download@.hash_format != "sha256"@ && pack_wiz.download@.hash_format
                != "sha512"@ ==> (r matches Err(e) && e@ == JadeErrorModel::Error(
                unsupported_fmt_msg(pack_wiz.download@.hash_format),
            )),
    {
        let hash_format = match HashFmt::from_string(pack_wiz.download.hash_format.as_str()) {
            Ok(f) => f,
            Err(e) => {
                return Err(e);
            },
        };
        Ok(
            Package {
                name: pack_wiz.name,
                file_name: pack_wiz.filename,
                url: pack_wiz.download.url,
                dep: Vec::new(),
                hash_format,
                hash: Some(pack_wiz.download.hash),
                tags: None,
                dest: None,
                target: None,
                package_format: PackageFmt::File,
            },
        )
    }

    /// The store directory this package would occupy, `{root}/store/{hash}-{name}`,
    /// known only once the hash is.
    pub fn get_store_location(&self, jade_root: &str) -> (r: Option<String>)
        ensures
            self.hash is Some ==> (r matches Some(p) && self.hash.deep_view() matches Some(h)
                && p@ == jade_root@ + "/store/"@ + h + "-"@ + self.name@),
            self.hash is None ==> r is None,
    {
        match &self.hash {
            Some(hash) => {
                let mut base = jade_root.to_owned();
                base.append("/store/");
                base.append(hash.as_str());
                base.append("-");
                base.append(self.name.as_str());
                Some(base)
            },
            None => None,
        }
    }
}

} // verus!
