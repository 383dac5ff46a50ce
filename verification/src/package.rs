//! Source-package manifests and the safety rules for unpacking `.fid`
//! archives.
//!
//! Reading files, TOML parsing and tar/bzip2 streaming happen around this
//! module; what a manifest must satisfy and which archive entries are
//! accepted is decided here.
use vstd::prelude::*;
use vstd::string::StringSliceAdditionalSpecFns;
use vstd::relations::sorted_by;
use crate::hash::{byte_order, bytes_le, bytes_le_exec, lemma_bytes_le_total, lemma_bytes_le_transitive};
use crate::text::{str_ends_with, str_eq, string_bytes};

verus! {

#[verifier::external_type_specification]
#[verifier::external_body]
pub struct ExTomlDeError(toml::de::Error);

#[verifier::external_type_specification]
#[verifier::external_body]
pub struct ExIoError(std::io::Error);

#[verifier::external_type_specification]
#[verifier::external_body]
pub struct ExPathBuf(std::path::PathBuf);

/// A parsed package manifest, generic over the host-defined metadata schema.
#[derive(Debug, Clone)]
pub struct PackageManifest<M> {
    /// Fixed header fields required by fidius.
    pub package: PackageHeader,
    /// Host-defined metadata (the `[metadata]` section).
    pub metadata: M,
    /// Python-runtime fields; required exactly when the runtime is Python.
    pub python: Option<PythonPackageMeta>,
}

/// Fixed header fields that every package manifest must have.
#[derive(Debug, Clone)]
pub struct PackageHeader {
    /// Package name (e.g. `"blur-filter"`).
    pub name: String,
    /// Package version (e.g. `"1.2.0"`).
    pub version: String,
    /// Name of the interface crate this package implements.
    pub interface: String,
    /// Expected interface version.
    pub interface_version: u32,
    /// Custom archive extension; `"fid"` when absent.
    pub extension: Option<String>,
    /// Plugin runtime: `"rust"` (default) or `"python"`.
    pub runtime: Option<String>,
}

/// Plugin runtime kind.
#[derive(Debug, Clone, Copy, PartialEq, Eq)]
pub enum PackageRuntime {
    /// A cdylib exposing a plugin registry (the default).
    Rust,
    /// A directory of Python sources loaded by an embedded interpreter.
    Python,
}

/// Fields under the `[python]` section of a manifest.
#[derive(Debug, Clone)]
pub struct PythonPackageMeta {
    /// Python module the loader imports first (dotted path).
    pub entry_module: String,
    /// Requirements file used to vendor dependencies; `"requirements.txt"`
    /// when absent.
    pub requirements: Option<String>,
}

/// Errors that can occur when loading, packing or unpacking a package.
#[derive(Debug)]
pub enum PackageError {
    /// The `package.toml` file was not found in the given directory.
    ManifestNotFound { path: String },
    /// The manifest could not be parsed or failed schema validation.
    ParseError(toml::de::Error),
    /// An I/O error.
    Io(std::io::Error),
    /// Build failed.
    BuildFailed(String),
    /// Package signature file not found.
    SignatureNotFound { path: String },
    /// No trusted key verified the package signature.
    SignatureInvalid { path: String },
    /// An error occurred creating or reading an archive.
    ArchiveError(String),
    /// The archive does not contain a valid package.
    InvalidArchive(String),
    /// The manifest parsed but failed cross-section validation.
    InvalidManifest(String),
    /// An archive entry has a `..` component.
    PathTraversal { entry: String },
    /// An archive entry has an absolute path.
    AbsolutePath { entry: String },
    /// An archive entry is a symlink.
    SymlinkRejected { entry: String },
    /// An archive entry is a hardlink.
    HardlinkRejected { entry: String },
    /// Cumulative declared size exceeded a cap.
    SizeLimitExceeded { limit: u64, actual: u64 },
    /// The archive has more entries than allowed.
    TooManyEntries { limit: u32 },
}

/// The runtime a header's `runtime` field selects; unknown values read as Rust.
pub open spec fn runtime_of(runtime: Option<Seq<char>>) -> PackageRuntime {
    match runtime {
        Some(r) => if r == "python"@ {
            PackageRuntime::Python
        } else {
            PackageRuntime::Rust
        },
        None => PackageRuntime::Rust,
    }
}

/// Whether a header's `runtime` field names a known runtime (or is absent).
pub open spec fn runtime_known(runtime: Option<Seq<char>>) -> bool {
    match runtime {
        Some(r) => r == "rust"@ || r == "python"@,
        None => true,
    }
}

/// The message for an unknown runtime value.
pub open spec fn unknown_runtime_message(r: Seq<char>) -> Seq<char> {
    "unknown runtime '"@ + r + "': allowed values are \"rust\", \"python\""@
}

/// The view of an optional owned string.
pub open spec fn opt_view(s: Option<String>) -> Option<Seq<char>> {
    match s {
        Some(x) => Some(x@),
        None => None,
    }
}

impl PackageHeader {
    /// The package extension, defaulting to `"fid"`.
    pub fn extension(&self) -> (e: &str)
        ensures
            e@ == match self.extension {
                Some(x) => x@,
                None => "fid"@,
            },
    {
        match &self.extension {
            Some(x) => x.as_str(),
            None => "fid",
        }
    }

    /// The runtime kind; absent and unknown values read as Rust.
    pub fn runtime(&self) -> (r: PackageRuntime)
        ensures
            r == runtime_of(opt_view(self.runtime)),
    {
        match &self.runtime {
            Some(r) => if str_eq(r.as_str(), "python") {
                PackageRuntime::Python
            } else {
                PackageRuntime::Rust
            },
            None => PackageRuntime::Rust,
        }
    }

    /// The runtime kind, rejecting unknown values.
    pub fn runtime_strict(&self) -> (r: Result<PackageRuntime, PackageError>)
        ensures
            runtime_known(opt_view(self.runtime)) <==> r is Ok,
            r matches Ok(k) ==> k == runtime_of(opt_view(self.runtime)),
            r matches Err(e) ==> (e matches PackageError::InvalidManifest(m) && m@
                == unknown_runtime_message(self.runtime->Some_0@)),
    {
        match &self.runtime {
            None => Ok(PackageRuntime::Rust),
            Some(r) => {
                if str_eq(r.as_str(), "rust") {
                    proof {
                        reveal_strlit("rust");
                        reveal_strlit("python");
                        assert(r@ == "rust"@);
                        assert(r@.len() == 4);
                        assert("python"@.len() == 6);
                        assert(r@ != "python"@);
                    }
                    Ok(PackageRuntime::Rust)
                } else if str_eq(r.as_str(), "python") {
                    Ok(PackageRuntime::Python)
                } else {
                    let mut msg = String::from_str("unknown runtime '");
                    msg.append(r.as_str());
                    msg.append("': allowed values are \"rust\", \"python\"");
                    Err(PackageError::InvalidManifest(msg))
                }
            },
        }
    }
}

impl PackageRuntime {
    /// The canonical string form used in `package.toml`.
    pub fn as_str(&self) -> (s: &'static str)
        ensures
            s@ == match self {
                PackageRuntime::Rust => "rust"@,
                PackageRuntime::Python => "python"@,
            },
    {
        match self {
            PackageRuntime::Rust => "rust",
            PackageRuntime::Python => "python",
        }
    }

    /// The runtime as displayed: its canonical string form.
    pub fn to_string(&self) -> (s: String)
        ensures
            s@ == match self {
                PackageRuntime::Rust => "rust"@,
                PackageRuntime::Python => "python"@,
            },
    {
        String::from_str(self.as_str())
    }
}

impl PythonPackageMeta {
    /// The requirements file path, defaulting to `"requirements.txt"`.
    pub fn requirements_path(&self) -> (p: &str)
        ensures
            p@ == match self.requirements {
                Some(x) => x@,
                None => "requirements.txt"@,
            },
    {
        match &self.requirements {
            Some(x) => x.as_str(),
            None => "requirements.txt",
        }
    }
}

/// The message when a `[python]` section accompanies a non-Python runtime.
pub open spec fn python_section_forbidden_message() -> Seq<char> {
    "[python] section is only valid when runtime = \"python\""@
}

/// The message when a Python runtime lacks its `[python]` section.
pub open spec fn python_section_required_message() -> Seq<char> {
    "runtime = \"python\" requires a [python] section with `entry_module`"@
}

impl<M> PackageManifest<M> {
    /// Cross-section validation: the runtime must be one this version knows,
    /// and it and the `[python]` section must agree (a Python package has the
    /// section, any other has none).
    pub fn validate_runtime(&self) -> (r: Result<(), PackageError>)
        ensures
            r is Ok <==> runtime_known(opt_view(self.package.runtime)) && (runtime_of(
                opt_view(self.package.runtime),
            ) == PackageRuntime::Python) == self.python.is_some(),
            r matches Err(e) ==> (e matches PackageError::InvalidManifest(m) && m@ == if !runtime_known(
                opt_view(self.package.runtime),
            ) {
                unknown_runtime_message(self.package.runtime->Some_0@)
            } else if self.python.is_some() {
                python_section_forbidden_message()
            } else {
                python_section_required_message()
            }),
    {
        if let Err(e) = self.package.runtime_strict() {
            return Err(e);
        }
        match self.package.runtime() {
            PackageRuntime::Rust => {
                if self.python.is_some() {
                    return Err(
                        PackageError::InvalidManifest(
                            String::from_str(
                                "[python] section is only valid when runtime = \"python\"",
                            ),
                        ),
                    );
                }
                Ok(())
            },
            PackageRuntime::Python => {
                if self.python.is_none() {
                    return Err(
                        PackageError::InvalidManifest(
                            String::from_str(
                                "runtime = \"python\" requires a [python] section with `entry_module`",
                            ),
                        ),
                    );
                }
                Ok(())
            },
        }
    }

    /// The checks a freshly parsed manifest must pass: a known runtime, then
    /// runtime/`[python]` agreement.
    pub fn validate(&self) -> (r: Result<(), PackageError>)
        ensures
            r is Ok <==> runtime_known(opt_view(self.package.runtime)) && (runtime_of(
                opt_view(self.package.runtime),
            ) == PackageRuntime::Python) == self.python.is_some(),
            r matches Err(e) ==> e is InvalidManifest,
    {
        self.package.runtime_strict()?;
        self.validate_runtime()
    }
}


/// Safety limits for archive extraction.
#[derive(Debug, Clone)]
pub struct UnpackOptions {
    /// Maximum total declared uncompressed size of all entries, in bytes.
    pub max_decompressed: u64,
    /// Maximum ratio of total declared size to compressed archive size.
    pub max_ratio: u64,
    /// Maximum number of entries in the archive.
    pub max_entries: u32,
}

impl Default for UnpackOptions {
    /// Strict defaults for untrusted input: 500 MiB, ratio 10, 10 000 entries.
    fn default() -> (o: Self)
        ensures
            o.max_decompressed == 500 * 1024 * 1024,
            o.max_ratio == 10,
            o.max_entries == 10_000,
    {
        UnpackOptions { max_decompressed: 500 * 1024 * 1024, max_ratio: 10, max_entries: 10_000 }
    }
}

/// One component of an archive entry's path.
#[derive(Debug, Clone, Copy, PartialEq, Eq)]
pub enum PathComponentKind {
    /// A drive or UNC prefix (Windows).
    Prefix,
    /// The root directory.
    RootDir,
    /// `.`
    CurDir,
    /// `..`
    ParentDir,
    /// An ordinary name.
    Normal,
}

/// What extraction checks about one archive entry.
#[derive(Debug, Clone)]
pub struct ArchiveEntry {
    /// The entry's path as displayed in errors.
    pub display: String,
    /// The kinds of the path's components, in order.
    pub components: Vec<PathComponentKind>,
    /// Whether the entry is a symlink.
    pub is_symlink: bool,
    /// Whether the entry is a hard link.
    pub is_hard_link: bool,
    /// The size its header declares.
    pub declared_size: u64,
}

/// Running totals while entries are checked.
#[derive(Debug, Clone)]
pub struct UnpackBudget {
    /// Size of the compressed archive (0 when unknown).
    pub compressed_size: u64,
    /// `compressed_size * max_ratio`, saturating.
    pub ratio_cap: u64,
    /// Cumulative declared size of the entries so far, saturating.
    pub total: u64,
    /// Number of entries so far, saturating.
    pub count: u32,
}

/// `a + b`, saturating at the maximum.
pub open spec fn sat_add_u64(a: u64, b: u64) -> u64 {
    if a + b > u64::MAX {
        u64::MAX
    } else {
        (a + b) as u64
    }
}

/// `a * b`, saturating at the maximum.
pub open spec fn sat_mul_u64(a: u64, b: u64) -> u64 {
    if a * b > u64::MAX {
        u64::MAX
    } else {
        (a * b) as u64
    }
}

/// The first `..`, root or prefix component of a path, if any.
pub open spec fn first_unsafe_component(cs: Seq<PathComponentKind>) -> Option<PathComponentKind>
    decreases cs.len(),
{
    if cs.len() == 0 {
        None
    } else if cs[0] == PathComponentKind::ParentDir || cs[0] == PathComponentKind::RootDir
        || cs[0] == PathComponentKind::Prefix {
        Some(cs[0])
    } else {
        first_unsafe_component(cs.drop_first())
    }
}

/// The budget invariant: what the entries accepted so far are known to respect.
pub open spec fn budget_respected(b: UnpackBudget, o: UnpackOptions) -> bool {
    &&& b.count <= o.max_entries
    &&& b.total <= o.max_decompressed
    &&& (b.compressed_size > 0 && o.max_ratio > 0) ==> b.total <= b.ratio_cap
}

impl UnpackBudget {
    /// A fresh budget for an archive of `compressed_size` bytes.
    pub fn new(compressed_size: u64, options: &UnpackOptions) -> (b: UnpackBudget)
        ensures
            b.compressed_size == compressed_size,
            b.ratio_cap == sat_mul_u64(compressed_size, options.max_ratio),
            b.total == 0,
            b.count == 0,
            budget_respected(b, *options),
    {
        let ratio_cap = match compressed_size.checked_mul(options.max_ratio) {
            Some(c) => c,
            None => u64::MAX,
        };
        UnpackBudget { compressed_size, ratio_cap, total: 0, count: 0 }
    }

    /// Counts one more entry, rejecting the archive once it exceeds the entry cap.
    pub fn admit_entry(&mut self, options: &UnpackOptions) -> (r: Result<(), PackageError>)
        ensures
            final(self).count == if old(self).count == u32::MAX {
                u32::MAX
            } else {
                (old(self).count + 1) as u32
            },
            final(self).total == old(self).total,
            final(self).ratio_cap == old(self).ratio_cap,
            final(self).compressed_size == old(self).compressed_size,
            r is Ok <==> final(self).count <= options.max_entries,
            r matches Err(e) ==> (e matches PackageError::TooManyEntries { limit } && limit
                == options.max_entries),
    {
        self.count = self.count.saturating_add(1);
        if self.count > options.max_entries {
            return Err(PackageError::TooManyEntries { limit: options.max_entries });
        }
        Ok(())
    }

    /// Checks one entry: no links, no `..`/absolute paths, and the cumulative
    /// declared size within both the absolute cap and the compression-ratio cap.
    pub fn check_entry(&mut self, options: &UnpackOptions, entry: &ArchiveEntry) -> (r: Result<
        (),
        PackageError,
    >)
        ensures
            final(self).count == old(self).count,
            final(self).ratio_cap == old(self).ratio_cap,
            final(self).compressed_size == old(self).compressed_size,
            entry.is_symlink ==> (r matches Err(PackageError::SymlinkRejected { entry: n }) && n@
                == entry.display@),
            !entry.is_symlink && entry.is_hard_link ==> (r matches Err(
                PackageError::HardlinkRejected { entry: n },
            ) && n@ == entry.display@),
            !entry.is_symlink && !entry.is_hard_link && first_unsafe_component(entry.components@)
                == Some(PathComponentKind::ParentDir) ==> (r matches Err(
                PackageError::PathTraversal { entry: n },
            ) && n@ == entry.display@),
            !entry.is_symlink && !entry.is_hard_link && (first_unsafe_component(
                entry.components@,
            ) == Some(PathComponentKind::RootDir) || first_unsafe_component(entry.components@)
                == Some(PathComponentKind::Prefix)) ==> (r matches Err(
                PackageError::AbsolutePath { entry: n },
            ) && n@ == entry.display@),
            ({
                let t = sat_add_u64(old(self).total, entry.declared_size);
                let links_or_paths = entry.is_symlink || entry.is_hard_link
                    || first_unsafe_component(entry.components@) is Some;
                &&& links_or_paths ==> final(self).total == old(self).total
                &&& !links_or_paths ==> final(self).total == t
                &&& !links_or_paths && t > options.max_decompressed ==> (r matches Err(
                    PackageError::SizeLimitExceeded { limit, actual },
                ) && limit == options.max_decompressed && actual == t)
                &&& !links_or_paths && t <= options.max_decompressed && old(self).compressed_size
                    > 0 && options.max_ratio > 0 && t > old(self).ratio_cap ==> (r matches Err(
                    PackageError::SizeLimitExceeded { limit, actual },
                ) && limit == old(self).ratio_cap && actual == t)
                &&& r is Ok <==> !links_or_paths && t <= options.max_decompressed && !(
                old(self).compressed_size > 0 && options.max_ratio > 0 && t > old(self).ratio_cap)
            }),
    {
        if entry.is_symlink {
            return Err(PackageError::SymlinkRejected { entry: entry.display.clone() });
        }
        if entry.is_hard_link {
            return Err(PackageError::HardlinkRejected { entry: entry.display.clone() });
        }
        let n = entry.components.len();
        let mut i: usize = 0;
        assert(entry.components@.skip(0) =~= entry.components@);
        while i < n
            invariant
                !entry.is_symlink,
                !entry.is_hard_link,
                n == entry.components@.len(),
                i <= n,
                first_unsafe_component(entry.components@) == first_unsafe_component(
                    entry.components@.skip(i as int),
                ),
            decreases n - i,
        {
            let c = entry.components[i];
            match c {
                PathComponentKind::ParentDir => {
                    return Err(PackageError::PathTraversal { entry: entry.display.clone() });
                },
                PathComponentKind::RootDir | PathComponentKind::Prefix => {
                    return Err(PackageError::AbsolutePath { entry: entry.display.clone() });
                },
                _ => {},
            }
            assert(entry.components@.skip(i as int).drop_first() =~= entry.components@.skip(
                i as int + 1,
            ));
            i += 1;
        }
        assert(entry.components@.skip(i as int).len() == 0);
        self.total = self.total.saturating_add(entry.declared_size);
        if self.total > options.max_decompressed {
            return Err(
                PackageError::SizeLimitExceeded {
                    limit: options.max_decompressed,
                    actual: self.total,
                },
            );
        }
        if self.compressed_size > 0 && options.max_ratio > 0 && self.total > self.ratio_cap {
            return Err(
                PackageError::SizeLimitExceeded { limit: self.ratio_cap, actual: self.total },
            );
        }
        Ok(())
    }
}

/// Every entry the budget accepts keeps the archive within its limits: after an
/// accepted count and an accepted check, the budget invariant still holds.
pub proof fn lemma_accepted_entries_stay_within_limits(
    before: UnpackBudget,
    counted: UnpackBudget,
    after: UnpackBudget,
    options: UnpackOptions,
    entry_size: u64,
)
    requires
        budget_respected(before, options),
        counted.count <= options.max_entries,
        counted.total == before.total,
        counted.ratio_cap == before.ratio_cap,
        counted.compressed_size == before.compressed_size,
        after.count == counted.count,
        after.ratio_cap == counted.ratio_cap,
        after.compressed_size == counted.compressed_size,
        after.total == sat_add_u64(counted.total, entry_size),
        after.total <= options.max_decompressed,
        !(counted.compressed_size > 0 && options.max_ratio > 0 && after.total > counted.ratio_cap),
    ensures
        budget_respected(after, options),
        after.total >= before.total,
{
}

/// Whether a directory name is skipped when collecting package files.
pub fn is_excluded_dir(name: &str) -> (r: bool)
    ensures
        r == (name@ == "target"@ || name@ == ".git"@),
{
    str_eq(name, "target") || str_eq(name, ".git")
}

/// Whether a file name is a signature file (`*.sig`), left out of digests.
pub fn is_signature_file(name: &str) -> (r: bool)
    ensures
        r == (".sig".spec_bytes().len() <= name.spec_bytes().len() && name.spec_bytes().subrange(
            name.spec_bytes().len() - ".sig".spec_bytes().len(),
            name.spec_bytes().len() as int,
        ) == ".sig".spec_bytes()),
{
    str_ends_with(name, ".sig")
}

/// The top-level directory inside a package archive: `{name}-{version}`.
pub fn archive_prefix(header: &PackageHeader) -> (p: String)
    ensures
        p@ == header.name@ + "-"@ + header.version@,
{
    let mut p = header.name.clone();
    p.append("-");
    p.append(header.version.as_str());
    p
}

/// The archive path of a package file: `{prefix}/{relative path}`.
pub fn archive_entry_name(prefix: &str, rel_path: &str) -> (p: String)
    ensures
        p@ == prefix@ + "/"@ + rel_path@,
{
    let mut p = String::from_str(prefix);
    p.append("/");
    p.append(rel_path);
    p
}

/// The default archive file name: `{name}-{version}.{extension}`.
pub fn default_archive_file_name(header: &PackageHeader) -> (p: String)
    ensures
        p@ == header.name@ + "-"@ + header.version@ + "."@ + match header.extension {
            Some(x) => x@,
            None => "fid"@,
        },
{
    let mut p = archive_prefix(header);
    p.append(".");
    p.append(header.extension());
    p
}

/// The result of packing a package.
#[derive(Debug)]
pub struct PackResult {
    /// Path to the created archive.
    pub path: std::path::PathBuf,
    /// Whether the package was unsigned (no `package.sig` found).
    pub unsigned: bool,
}

/// The UTF-8 bytes of each string.
pub open spec fn strings_bytes(v: Seq<String>) -> Seq<Seq<u8>> {
    v.map_values(|s: String| string_bytes(s))
}

/// Sorts relative paths into byte order (the order digests and archives use).
pub fn sort_paths(paths: Vec<String>) -> (out: Vec<String>)
    ensures
        sorted_by(strings_bytes(out@), byte_order()),
        out@.to_multiset() == paths@.to_multiset(),
{
    broadcast use vstd::seq_lib::group_to_multiset_ensures;

    let mut out: Vec<String> = Vec::new();
    let n = paths.len();
    assert(out@ =~= paths@.take(0));
    for i in 0..n
        invariant
            n == paths@.len(),
            sorted_by(strings_bytes(out@), byte_order()),
            out@.to_multiset() == paths@.take(i as int).to_multiset(),
    {
        let x = paths[i].clone();
        let ghost g = strings_bytes(out@);
        let ghost xb = string_bytes(x);
        let mut j: usize = 0;
        while j < out.len() && bytes_le_exec(out[j].as_str().as_bytes(), x.as_str().as_bytes())
            invariant
                j <= out@.len(),
                g == strings_bytes(out@),
                xb == string_bytes(x),
                forall|k: int| 0 <= k < j ==> bytes_le(#[trigger] g[k], xb),
            decreases out@.len() - j,
        {
            j += 1;
        }
        proof {
            if j < out@.len() {
                lemma_bytes_le_total(g[j as int], xb);
            }
        }
        let ghost before = out@;
        out.insert(j, x);
        let ghost g2 = strings_bytes(out@);
        assert(g2 =~= g.insert(j as int, xb));
        assert(sorted_by(g2, byte_order())) by {
            assert forall|p: int, q: int| 0 <= p < q < g2.len() implies
                #[trigger] byte_order()(g2[p], g2[q]) by {
                if q < j {
                    assert(byte_order()(g[p], g[q]));
                } else if q == j {
                } else if p < j {
                    assert(byte_order()(g[p], g[q - 1]));
                } else if p == j {
                    if q - 1 > j {
                        assert(byte_order()(g[j as int], g[q - 1]));
                        lemma_bytes_le_transitive(xb, g[j as int], g[q - 1]);
                    }
                } else {
                    assert(byte_order()(g[p - 1], g[q - 1]));
                }
            }
        }
        assert(out@.remove(j as int) =~= before);
        proof {
            out@.to_multiset_ensures();
            assert(out@[j as int] == x);
            assert(out@.contains(x));
            paths@.take(i as int).to_multiset_ensures();
        }
        assert(out@.to_multiset() =~= before.to_multiset().insert(x));
        assert(paths@.take(i as int + 1) =~= paths@.take(i as int).push(x));
    }
    assert(paths@.take(n as int) =~= paths@);
    out
}


/// SHA-256 of a byte string.
pub uninterp spec fn sha256_digest(data: Seq<u8>) -> Seq<u8>;

/// Calls `sha2::Sha256::digest`. Claims: the 32 bytes returned are the SHA-256
/// digest of `data` (a function of the bytes alone).
#[verifier::external_body]
fn sha256(data: &[u8]) -> (d: [u8; 32])
    ensures
        d@ == sha256_digest(data@),
{
    <sha2::Sha256 as sha2::Digest>::digest(data).into()
}

/// The `n` little-endian bytes of `x` (taken modulo `256^n`).
pub open spec fn le_bytes(x: nat, n: nat) -> Seq<u8>
    decreases n,
{
    if n == 0 {
        Seq::empty()
    } else {
        seq![(x % 256) as u8] + le_bytes(x / 256, (n - 1) as nat)
    }
}

/// One file's contribution to a package digest: the length-prefixed relative
/// path followed by the length-prefixed contents (lengths as `u64`, LE).
pub open spec fn digest_record(path: Seq<u8>, contents: Seq<u8>) -> Seq<u8> {
    le_bytes(path.len(), 8) + path + le_bytes(contents.len(), 8) + contents
}

/// The byte stream a package digest hashes, for files in the given order.
pub open spec fn digest_stream(files: Seq<(Seq<u8>, Seq<u8>)>) -> Seq<u8>
    decreases files.len(),
{
    if files.len() == 0 {
        Seq::empty()
    } else {
        digest_stream(files.drop_last()) + digest_record(files.last().0, files.last().1)
    }
}

/// The bytes of each (relative path, contents) pair.
pub open spec fn files_bytes(files: Seq<(String, Vec<u8>)>) -> Seq<(Seq<u8>, Seq<u8>)> {
    files.map_values(|f: (String, Vec<u8>)| (string_bytes(f.0), f.1@))
}

fn push_le64(out: &mut Vec<u8>, x: u64)
    ensures
        final(out)@ == old(out)@ + le_bytes(x as nat, 8),
{
    let mut v = x;
    let mut i: usize = 0;
    while i < 8
        invariant
            i <= 8,
            out@ + le_bytes(v as nat, (8 - i) as nat) == old(out)@ + le_bytes(x as nat, 8),
        decreases 8 - i,
    {
        let ghost before = out@;
        assert(le_bytes(v as nat, (8 - i) as nat) =~= seq![(v % 256) as u8] + le_bytes(
            (v / 256) as nat,
            (8 - i - 1) as nat,
        ));
        out.push((v % 256) as u8);
        assert(out@ + le_bytes((v / 256) as nat, (8 - i - 1) as nat) =~= before + le_bytes(
            v as nat,
            (8 - i) as nat,
        ));
        v = v / 256;
        i += 1;
    }
    assert(le_bytes(v as nat, 0) =~= Seq::<u8>::empty());
    assert(out@ =~= old(out)@ + le_bytes(x as nat, 8));
}

/// The SHA-256 digest of a package's files, given as (relative path, contents)
/// pairs in the order they are hashed (sorted by path, see [`sort_paths`]).
pub fn package_digest_of(files: &[(String, Vec<u8>)]) -> (d: [u8; 32])
    ensures
        d@ == sha256_digest(digest_stream(files_bytes(files@))),
{
    let ghost fb = files_bytes(files@);
    let mut stream: Vec<u8> = Vec::new();
    let n = files.len();
    for i in 0..n
        invariant
            n == files@.len(),
            fb == files_bytes(files@),
            stream@ == digest_stream(fb.take(i as int)),
    {
        let (path, contents) = &files[i];
        let ghost before = stream@;
        let pb = path.as_str().as_bytes();
        push_le64(&mut stream, pb.len() as u64);
        stream.extend_from_slice(pb);
        push_le64(&mut stream, contents.len() as u64);
        stream.extend_from_slice(contents.as_slice());
        assert(fb.take(i as int + 1).drop_last() =~= fb.take(i as int));
        assert(fb[i as int] == (string_bytes(*path), contents@));
        assert(stream@ =~= before + digest_record(fb[i as int].0, fb[i as int].1));
    }
    assert(fb.take(n as int) =~= fb);
    sha256(stream.as_slice())
}

} // verus!
