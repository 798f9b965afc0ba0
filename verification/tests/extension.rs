use ebcdic_lsp::extension::{
    binary_missing, binary_name, download_failed, download_url, is_stale, locate,
    next_install_step, package, Architecture, ArchiveKind, Asset, InstallAction, InstallEvent,
    Location, Os, Release,
};

fn release(names: &[&str]) -> Release {
    Release {
        version: "v1.2.3".to_string(),
        assets: names
            .iter()
            .map(|name| Asset {
                name: name.to_string(),
                download_url: format!("https://example.com/{name}"),
            })
            .collect(),
    }
}

fn text(path: &str) -> Option<String> {
    Some(path.to_string())
}

#[test]
fn the_binary_has_an_extension_on_windows_only() {
    assert_eq!(binary_name(Os::Mac), "ebcdic-lsp");
    assert_eq!(binary_name(Os::Linux), "ebcdic-lsp");
    assert_eq!(binary_name(Os::Windows), "ebcdic-lsp.exe");
}

#[test]
fn packages_are_named_after_their_platform() {
    let mac = package("v1.2.3", Os::Mac, Architecture::Aarch64);
    assert_eq!(mac.asset_name, "ebcdic-lsp-darwin-arm64.tar.gz");
    assert_eq!(mac.kind, ArchiveKind::GzipTar);
    assert_eq!(mac.directory, "ebcdic-lsp-v1.2.3");
    assert_eq!(mac.binary_path, "ebcdic-lsp-v1.2.3/ebcdic-lsp");

    let linux = package("v1.2.3", Os::Linux, Architecture::X8664);
    assert_eq!(linux.asset_name, "ebcdic-lsp-linux-amd64.tar.gz");

    let windows = package("v1.2.3", Os::Windows, Architecture::X86);
    assert_eq!(windows.asset_name, "ebcdic-lsp-windows-amd64.zip");
    assert_eq!(windows.kind, ArchiveKind::Zip);
    assert_eq!(windows.binary_path, "ebcdic-lsp-v1.2.3/ebcdic-lsp.exe");
}

#[test]
fn a_configured_path_wins_over_everything() {
    match locate(text("/mine"), text("/bin/x"), text("cached"), true) {
        Location::Given(path) => assert_eq!(path, "/mine"),
        other => panic!("unexpected {other:?}"),
    }
    match locate(None, text("/bin/x"), text("cached"), true) {
        Location::Given(path) => assert_eq!(path, "/bin/x"),
        other => panic!("unexpected {other:?}"),
    }
    match locate(None, None, text("cached"), true) {
        Location::Cached(path) => assert_eq!(path, "cached"),
        other => panic!("unexpected {other:?}"),
    }
    assert!(matches!(
        locate(None, None, text("cached"), false),
        Location::Missing
    ));
    assert!(matches!(locate(None, None, None, true), Location::Missing));
}

#[test]
fn the_asset_of_the_platform_is_downloaded() {
    let release = release(&[
        "ebcdic-lsp-darwin-arm64.tar.gz",
        "ebcdic-lsp-linux-amd64.tar.gz",
    ]);
    assert_eq!(
        download_url(&release, "ebcdic-lsp-linux-amd64.tar.gz", Os::Linux),
        Ok("https://example.com/ebcdic-lsp-linux-amd64.tar.gz")
    );
    assert_eq!(
        download_url(&release, "ebcdic-lsp-windows-amd64.zip", Os::Windows),
        Err(
            "no ebcdic-lsp-windows-amd64.zip in release v1.2.3. This platform may not have a \
             prebuilt binary; build server/ with cargo and put ebcdic-lsp.exe on your PATH."
                .to_string()
        )
    );
}

#[test]
fn failures_say_what_failed() {
    assert_eq!(
        download_failed("a.zip", "timeout"),
        "failed to download a.zip: timeout"
    );
    assert_eq!(
        binary_missing("a.zip", Os::Windows),
        "a.zip did not contain ebcdic-lsp.exe"
    );
}

#[test]
fn everything_but_the_kept_directory_is_stale() {
    assert!(!is_stale(Some("ebcdic-lsp-v2"), "ebcdic-lsp-v2"));
    assert!(is_stale(Some("ebcdic-lsp-v1"), "ebcdic-lsp-v2"));
    assert!(is_stale(None, "ebcdic-lsp-v2"));
}

#[test]
fn an_installation_goes_step_by_step() {
    let release = release(&["ebcdic-lsp-linux-amd64.tar.gz"]);
    let linux = package("v1.2.3", Os::Linux, Architecture::X8664);
    let step = |event| next_install_step(&release, &linux, Os::Linux, event);

    assert!(matches!(
        step(InstallEvent::Released { unpacked: true }),
        Ok(InstallAction::Done)
    ));
    match step(InstallEvent::Released { unpacked: false }) {
        Ok(InstallAction::Download(url)) => {
            assert_eq!(url, "https://example.com/ebcdic-lsp-linux-amd64.tar.gz")
        }
        other => panic!("unexpected {other:?}"),
    }
    assert!(matches!(
        step(InstallEvent::Downloaded(Ok(()))),
        Ok(InstallAction::CheckBinary)
    ));
    assert_eq!(
        step(InstallEvent::Downloaded(Err("timeout".to_string()))).unwrap_err(),
        "failed to download ebcdic-lsp-linux-amd64.tar.gz: timeout"
    );
    assert!(matches!(
        step(InstallEvent::Checked(true)),
        Ok(InstallAction::RemoveOthers)
    ));
    assert_eq!(
        step(InstallEvent::Checked(false)).unwrap_err(),
        "ebcdic-lsp-linux-amd64.tar.gz did not contain ebcdic-lsp"
    );

    let mac = package("v1.2.3", Os::Mac, Architecture::Aarch64);
    let missing = InstallEvent::Released { unpacked: false };
    assert_eq!(
        next_install_step(&release, &mac, Os::Mac, missing).unwrap_err(),
        "no ebcdic-lsp-darwin-arm64.tar.gz in release v1.2.3. This platform may not have a \
         prebuilt binary; build server/ with cargo and put ebcdic-lsp on your PATH."
    );
}
