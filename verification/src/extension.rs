//! What an editor extension decides when it launches the server: which binary to run, and which
//! release asset to download where there is none yet.

use vstd::prelude::*;
use vstd::string::*;

use crate::text::str_eq;

verus! {

/// Releases of this repository carry the prebuilt server binaries.
pub const GITHUB_REPO: &'static str = "postalservice14/zed-ebcdicconverter";

/// The binary, on systems that put no extension behind it.
pub const BINARY_STEM: &'static str = "ebcdic-lsp";

/// The binary on Windows.
pub const WINDOWS_BINARY: &'static str = "ebcdic-lsp.exe";

/// An operating system that the editor runs on.
#[derive(Debug, Clone, Copy, PartialEq, Eq, Structural)]
pub enum Os {
    Mac,
    Linux,
    Windows,
}

/// A processor that the editor runs on.
#[derive(Debug, Clone, Copy, PartialEq, Eq, Structural)]
pub enum Architecture {
    Aarch64,
    X86,
    X8664,
}

/// How a release asset is packed. Archives rather than bare binaries, so that the executable bit
/// survives the download.
#[derive(Debug, Clone, Copy, PartialEq, Eq, Structural)]
pub enum ArchiveKind {
    Zip,
    GzipTar,
}

impl Os {
    /// The name in release assets.
    pub open spec fn asset_part(self) -> Seq<char> {
        match self {
            Os::Mac => "darwin"@,
            Os::Linux => "linux"@,
            Os::Windows => "windows"@,
        }
    }

    /// The file name extension of release assets.
    pub open spec fn asset_extension(self) -> Seq<char> {
        match self {
            Os::Windows => "zip"@,
            _ => "tar.gz"@,
        }
    }

    /// What the binary is called.
    pub open spec fn binary(self) -> Seq<char> {
        match self {
            Os::Windows => WINDOWS_BINARY@,
            _ => BINARY_STEM@,
        }
    }
}

impl Architecture {
    /// The name in release assets.
    pub open spec fn asset_part(self) -> Seq<char> {
        match self {
            Architecture::Aarch64 => "arm64"@,
            _ => "amd64"@,
        }
    }
}

/// What the binary is called.
pub fn binary_name(os: Os) -> (name: &'static str)
    ensures
        name@ == os.binary(),
{
    match os {
        Os::Windows => WINDOWS_BINARY,
        _ => BINARY_STEM,
    }
}

// ---------------------------------------------------------------------------------------------
// Finding the binary
// ---------------------------------------------------------------------------------------------
/// Where the binary is.
#[derive(Debug)]
pub enum Location {
    /// Where the user put it.
    Given(String),
    /// Where it was downloaded to before.
    Cached(String),
    /// It is still to be downloaded.
    Missing,
}

/// Decide which binary to run.
///
/// An explicit path in settings always wins, so that a user can point at a local build. Then comes
/// anything on the search path, which is what makes a development build work without touching
/// releases at all, and then what was downloaded before, if it is still there.
pub fn locate(
    configured: Option<String>,
    on_path: Option<String>,
    cached: Option<String>,
    cached_is_file: bool,
) -> (location: Location)
    ensures
        match (configured, on_path, cached) {
            (Some(path), _, _) => location == Location::Given(path),
            (None, Some(path), _) => location == Location::Given(path),
            (None, None, Some(path)) => location == if cached_is_file {
                Location::Cached(path)
            } else {
                Location::Missing
            },
            (None, None, None) => location == Location::Missing,
        },
{
    match (configured, on_path, cached) {
        (Some(path), _, _) => Location::Given(path),
        (None, Some(path), _) => Location::Given(path),
        (None, None, Some(path)) => if cached_is_file {
            Location::Cached(path)
        } else {
            Location::Missing
        },
        (None, None, None) => Location::Missing,
    }
}

// ---------------------------------------------------------------------------------------------
// Downloading the binary
// ---------------------------------------------------------------------------------------------
/// A file of a release.
#[derive(Debug)]
pub struct Asset {
    pub name: String,
    pub download_url: String,
}

/// A release.
#[derive(Debug)]
pub struct Release {
    pub version: String,
    pub assets: Vec<Asset>,
}

/// What a release holds for one platform.
#[derive(Debug)]
pub struct Package {
    /// The asset to download.
    pub asset_name: String,
    /// How the asset is packed.
    pub kind: ArchiveKind,
    /// Where to unpack it.
    pub directory: String,
    /// Where the binary is, once it is unpacked.
    pub binary_path: String,
}

/// The asset for a platform.
pub open spec fn asset_of(os: Os, architecture: Architecture) -> Seq<char> {
    BINARY_STEM@ + "-"@ + os.asset_part() + "-"@ + architecture.asset_part() + "."@
        + os.asset_extension()
}

/// The directory that a version is unpacked in.
pub open spec fn directory_of(version: Seq<char>) -> Seq<char> {
    BINARY_STEM@ + "-"@ + version
}

/// The binary of a version.
pub open spec fn binary_of(version: Seq<char>, os: Os) -> Seq<char> {
    directory_of(version) + "/"@ + os.binary()
}

/// Says what a release holds for a platform.
pub fn package(version: &str, os: Os, architecture: Architecture) -> (package: Package)
    ensures
        package.asset_name@ == asset_of(os, architecture),
        package.kind == (if os == Os::Windows {
            ArchiveKind::Zip
        } else {
            ArchiveKind::GzipTar
        }),
        package.directory@ == directory_of(version@),
        package.binary_path@ == binary_of(version@, os),
{
    let mut asset_name = BINARY_STEM.to_owned();
    asset_name.append("-");
    asset_name.append(
        match os {
            Os::Mac => "darwin",
            Os::Linux => "linux",
            Os::Windows => "windows",
        },
    );
    asset_name.append("-");
    asset_name.append(
        match architecture {
            Architecture::Aarch64 => "arm64",
            Architecture::X86 | Architecture::X8664 => "amd64",
        },
    );
    asset_name.append(".");
    asset_name.append(
        match os {
            Os::Windows => "zip",
            _ => "tar.gz",
        },
    );
    let mut directory = BINARY_STEM.to_owned();
    directory.append("-");
    directory.append(version);
    let mut binary_path = directory.as_str().to_owned();
    binary_path.append("/");
    binary_path.append(binary_name(os));
    let kind = match os {
        Os::Windows => ArchiveKind::Zip,
        _ => ArchiveKind::GzipTar,
    };
    Package { asset_name, kind, directory, binary_path }
}

/// Where the first asset of the given name can be downloaded.
pub open spec fn url_of(assets: Seq<Asset>, name: Seq<char>) -> Option<Seq<char>>
    decreases assets.len(),
{
    if assets.len() == 0 {
        None
    } else if assets[0].name@ == name {
        Some(assets[0].download_url@)
    } else {
        url_of(assets.drop_first(), name)
    }
}

/// What to say where a release has no asset for this platform.
pub open spec fn no_asset(asset_name: Seq<char>, version: Seq<char>, os: Os) -> Seq<char> {
    "no "@ + asset_name + " in release "@ + version
        + ". This platform may not have a prebuilt binary; build server/ with cargo and put "@
        + os.binary() + " on your PATH."@
}

/// Find where the asset for this platform can be downloaded.
pub fn download_url<'a>(release: &'a Release, asset_name: &str, os: Os) -> (url: Result<
    &'a str,
    String,
>)
    ensures
        match url {
            Ok(u) => url_of(release.assets@, asset_name@) == Some(u@),
            Err(message) => {
                &&& url_of(release.assets@, asset_name@) is None
                &&& message@ == no_asset(asset_name@, release.version@, os)
            },
        },
{
    let mut i: usize = 0;
    assert(release.assets@.skip(0) == release.assets@);
    while i < release.assets.len()
        invariant
            i <= release.assets@.len(),
            url_of(release.assets@, asset_name@) == url_of(
                release.assets@.skip(i as int),
                asset_name@,
            ),
        decreases release.assets@.len() - i,
    {
        let ghost rest = release.assets@.skip(i as int);
        assert(rest[0] == release.assets@[i as int]);
        assert(rest.drop_first() == release.assets@.skip(i + 1));
        if str_eq(release.assets[i].name.as_str(), asset_name) {
            return Ok(release.assets[i].download_url.as_str());
        }
        i += 1;
    }
    let mut message = "no ".to_owned();
    message.append(asset_name);
    message.append(" in release ");
    message.append(release.version.as_str());
    message.append(
        ". This platform may not have a prebuilt binary; build server/ with cargo and put ",
    );
    message.append(binary_name(os));
    message.append(" on your PATH.");
    Err(message)
}

/// What to say where a download failed.
pub fn download_failed(asset_name: &str, error: &str) -> (message: String)
    ensures
        message@ == "failed to download "@ + asset_name@ + ": "@ + error@,
{
    let mut message = "failed to download ".to_owned();
    message.append(asset_name);
    message.append(": ");
    message.append(error);
    message
}

/// What to say where an asset does not hold the binary.
pub fn binary_missing(asset_name: &str, os: Os) -> (message: String)
    ensures
        message@ == asset_name@ + " did not contain "@ + os.binary(),
{
    let mut message = asset_name.to_owned();
    message.append(" did not contain ");
    message.append(binary_name(os));
    message
}

/// What has just happened in an installation.
#[derive(Debug)]
pub enum InstallEvent {
    /// The release is known, and whether its binary is there already.
    Released { unpacked: bool },
    /// The download has ended, or failed with a message.
    Downloaded(Result<(), String>),
    /// Whether the binary is there after the download.
    Checked(bool),
}

/// What to do next in an installation.
#[derive(Debug)]
pub enum InstallAction<'a> {
    /// Nothing: the binary was there already.
    Done,
    /// Download the package from this address and unpack it.
    Download(&'a str),
    /// See whether the binary is there now.
    CheckBinary,
    /// Delete the other versions; the binary is there.
    RemoveOthers,
}

/// Decide how an installation goes on.
///
/// A binary that is there already is not downloaded again, and other versions are deleted only
/// once the new binary is known to be there.
pub fn next_install_step<'a>(
    release: &'a Release,
    package: &Package,
    os: Os,
    event: InstallEvent,
) -> (action: Result<InstallAction<'a>, String>)
    ensures
        match event {
            InstallEvent::Released { unpacked: true } => action == Ok::<InstallAction, String>(
                InstallAction::Done,
            ),
            InstallEvent::Released { unpacked: false } => match url_of(
                release.assets@,
                package.asset_name@,
            ) {
                Some(url) => action matches Ok(InstallAction::Download(u)) && u@ == url,
                None => action matches Err(message) && message@ == no_asset(
                    package.asset_name@,
                    release.version@,
                    os,
                ),
            },
            InstallEvent::Downloaded(Ok(_)) => action == Ok::<InstallAction, String>(
                InstallAction::CheckBinary,
            ),
            InstallEvent::Downloaded(Err(error)) => action matches Err(message) && message@
                == "failed to download "@ + package.asset_name@ + ": "@ + error@,
            InstallEvent::Checked(true) => action == Ok::<InstallAction, String>(
                InstallAction::RemoveOthers,
            ),
            InstallEvent::Checked(false) => action matches Err(message) && message@
                == package.asset_name@ + " did not contain "@ + os.binary(),
        },
{
    let asset_name = package.asset_name.as_str();
    match event {
        InstallEvent::Released { unpacked } => if unpacked {
            Ok(InstallAction::Done)
        } else {
            match download_url(release, asset_name, os) {
                Ok(url) => Ok(InstallAction::Download(url)),
                Err(message) => Err(message),
            }
        },
        InstallEvent::Downloaded(Ok(_)) => Ok(InstallAction::CheckBinary),
        InstallEvent::Downloaded(Err(error)) => Err(download_failed(asset_name, error.as_str())),
        InstallEvent::Checked(found) => if found {
            Ok(InstallAction::RemoveOthers)
        } else {
            Err(binary_missing(asset_name, os))
        },
    }
}

/// Whether a directory entry is a previously downloaded version to delete, so that the extension
/// directory does not grow forever: everything but the directory to keep is. A name that is not
/// text is never the one to keep.
pub fn is_stale(entry: Option<&str>, keep: &str) -> (stale: bool)
    ensures
        stale == match entry {
            Some(name) => name@ != keep@,
            None => true,
        },
{
    match entry {
        Some(name) => !str_eq(name, keep),
        None => true,
    }
}

// ---------------------------------------------------------------------------------------------
// Laws
// ---------------------------------------------------------------------------------------------
/// The binary lies in the directory of its version, so keeping that directory keeps the binary.
pub proof fn lemma_binary_in_directory(version: Seq<char>, os: Os)
    ensures
        directory_of(version).is_prefix_of(binary_of(version, os)),
{
    assert(binary_of(version, os).take(directory_of(version).len() as int) =~= directory_of(
        version,
    ));
}

/// Platforms that differ in operating system, or in more than the width of an Intel processor,
/// have different assets.
pub proof fn lemma_assets_differ(os: Os, architecture: Architecture, os2: Os, architecture2: Architecture)
    requires
        os != os2 || architecture.asset_part() != architecture2.asset_part(),
    ensures
        asset_of(os, architecture) != asset_of(os2, architecture2),
{
    reveal_strlit("ebcdic-lsp");
    reveal_strlit("-");
    reveal_strlit(".");
    reveal_strlit("darwin");
    reveal_strlit("linux");
    reveal_strlit("windows");
    reveal_strlit("arm64");
    reveal_strlit("amd64");
    reveal_strlit("zip");
    reveal_strlit("tar.gz");
    let a = asset_of(os, architecture);
    let b = asset_of(os2, architecture2);
    if os != os2 {
        assert(a[11] == os.asset_part()[0]);
        assert(b[11] == os2.asset_part()[0]);
    } else {
        let at = 12 + os.asset_part().len() as int;
        assert(a[at + 1] == architecture.asset_part()[1]);
        assert(b[at + 1] == architecture2.asset_part()[1]);
    }
}

/// What everything is called, platform by platform and version by version.
pub proof fn lemma_names(os: Os, architecture: Architecture, version: Seq<char>)
    ensures
        os == Os::Windows ==> os.binary() == "ebcdic-lsp.exe"@,
        os != Os::Windows ==> os.binary() == "ebcdic-lsp"@,
        ({
            let cpu = if architecture == Architecture::Aarch64 {
                "arm64"@
            } else {
                "amd64"@
            };
            asset_of(os, architecture) == match os {
                Os::Mac => "ebcdic-lsp-darwin-"@ + cpu + ".tar.gz"@,
                Os::Linux => "ebcdic-lsp-linux-"@ + cpu + ".tar.gz"@,
                Os::Windows => "ebcdic-lsp-windows-"@ + cpu + ".zip"@,
            }
        }),
        directory_of(version) == "ebcdic-lsp-"@ + version,
        os == Os::Windows ==> binary_of(version, os) == "ebcdic-lsp-"@ + version
            + "/ebcdic-lsp.exe"@,
        os != Os::Windows ==> binary_of(version, os) == "ebcdic-lsp-"@ + version + "/ebcdic-lsp"@,
{
    reveal_strlit("ebcdic-lsp");
    reveal_strlit("ebcdic-lsp.exe");
    reveal_strlit("ebcdic-lsp-");
    reveal_strlit("/ebcdic-lsp");
    reveal_strlit("/ebcdic-lsp.exe");
    reveal_strlit("/");
    reveal_strlit("-");
    reveal_strlit(".");
    reveal_strlit("darwin");
    reveal_strlit("linux");
    reveal_strlit("windows");
    reveal_strlit("arm64");
    reveal_strlit("amd64");
    reveal_strlit("zip");
    reveal_strlit("tar.gz");
    reveal_strlit(".zip");
    reveal_strlit(".tar.gz");
    reveal_strlit("ebcdic-lsp-darwin-");
    reveal_strlit("ebcdic-lsp-linux-");
    reveal_strlit("ebcdic-lsp-windows-");
    let cpu = architecture.asset_part();
    let asset = asset_of(os, architecture);
    match os {
        Os::Mac => {
            assert(asset =~= "ebcdic-lsp-darwin-"@ + cpu + ".tar.gz"@);
        },
        Os::Linux => {
            assert(asset =~= "ebcdic-lsp-linux-"@ + cpu + ".tar.gz"@);
        },
        Os::Windows => {
            assert(asset =~= "ebcdic-lsp-windows-"@ + cpu + ".zip"@);
        },
    }
    assert("ebcdic-lsp"@ + "-"@ =~= "ebcdic-lsp-"@);
    assert("/"@ + "ebcdic-lsp"@ =~= "/ebcdic-lsp"@);
    assert("/"@ + "ebcdic-lsp.exe"@ =~= "/ebcdic-lsp.exe"@);
    assert(directory_of(version) =~= "ebcdic-lsp-"@ + version);
    assert(binary_of(version, os) =~= directory_of(version) + ("/"@ + os.binary()));
}

/// The asset that is downloaded is the first of its name, and there is none exactly where no asset
/// has the name.
pub proof fn lemma_url_is_that_of_the_first(assets: Seq<Asset>, name: Seq<char>, i: int)
    requires
        forall|k: int| 0 <= k < i ==> (#[trigger] assets[k]).name@ != name,
        0 <= i <= assets.len(),
    ensures
        i < assets.len() && assets[i].name@ == name ==> url_of(assets, name) == Some(
            assets[i].download_url@,
        ),
        i == assets.len() ==> url_of(assets, name) is None,
    decreases i,
{
    if i > 0 {
        assert(assets[0].name@ != name);
        let rest = assets.drop_first();
        assert forall|k: int| 0 <= k < i - 1 implies (#[trigger] rest[k]).name@ != name by {
            assert(rest[k] == assets[k + 1]);
        }
        lemma_url_is_that_of_the_first(rest, name, i - 1);
        if i < assets.len() {
            assert(rest[i - 1] == assets[i]);
        }
    }
}

/// How a missing asset is reported.
pub proof fn lemma_missing_asset_message(asset_name: Seq<char>, version: Seq<char>, os: Os)
    ensures
        no_asset(asset_name, version, os) == "no "@ + asset_name + " in release "@ + version
            + ". This platform may not have a prebuilt binary; build server/ with cargo and put "@
            + os.binary() + " on your PATH."@,
{
}

} // verus!
