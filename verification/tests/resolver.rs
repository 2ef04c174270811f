use clash_launcher::errors::LauncherError;
use clash_launcher::release::{
    ambiguity_message, check_response, is_client_asset, is_server_asset, resolve_update,
    AssetDescriptor, ReleaseDescriptor, UpdateAvailability,
};

fn b(s: &str) -> Vec<u8> {
    s.as_bytes().to_vec()
}

fn asset(name: &str, url: &str) -> AssetDescriptor {
    AssetDescriptor {
        name: b(name),
        download_url: b(url),
    }
}

#[test]
fn update_found_for_different_tag() {
    let release = ReleaseDescriptor {
        tag: b("v2"),
        assets: vec![
            asset("client-v2.tar.gz", "https://example.test/client-v2.tar.gz"),
            asset("server-v2.tar.gz", "https://example.test/server-v2.tar.gz"),
        ],
    };
    let r = resolve_update(&b("v1"), &release);
    assert_eq!(
        r,
        UpdateAvailability::UpdateFound {
            client_url: b("https://example.test/client-v2.tar.gz"),
            server_url: b("https://example.test/server-v2.tar.gz"),
        }
    );
}

#[test]
fn no_update_for_same_tag() {
    let release = ReleaseDescriptor {
        tag: b("v2"),
        assets: vec![
            asset("client-v2.tar.gz", "https://example.test/c"),
            asset("server-v2.tar.gz", "https://example.test/s"),
        ],
    };
    let r = resolve_update(&b("v2"), &release);
    assert_eq!(r, UpdateAvailability::NoUpdate);
}

#[test]
fn ambiguous_when_server_asset_missing() {
    let release = ReleaseDescriptor {
        tag: b("v3"),
        assets: vec![asset("client-v3.tar.gz", "https://example.test/c")],
    };
    let r = resolve_update(&b("v1"), &release);
    assert_eq!(
        r,
        UpdateAvailability::UpdateAmbiguous {
            client_matches: 1,
            server_matches: 0,
        }
    );
}

#[test]
fn ambiguous_when_server_asset_duplicated() {
    let release = ReleaseDescriptor {
        tag: b("v3"),
        assets: vec![
            asset("client-v3.tar.gz", "https://example.test/c"),
            asset("server-v3.tar.gz", "https://example.test/s1"),
            asset("server-v3b.tar.gz", "https://example.test/s2"),
        ],
    };
    let r = resolve_update(&b("v1"), &release);
    assert_eq!(
        r,
        UpdateAvailability::UpdateAmbiguous {
            client_matches: 1,
            server_matches: 2,
        }
    );
}

#[test]
fn ambiguous_when_no_assets_at_all() {
    let release = ReleaseDescriptor {
        tag: b("v9"),
        assets: vec![],
    };
    let r = resolve_update(&b("v1"), &release);
    assert_eq!(
        r,
        UpdateAvailability::UpdateAmbiguous {
            client_matches: 0,
            server_matches: 0,
        }
    );
}

#[test]
fn asset_naming_convention() {
    assert!(is_client_asset(&b("client-v2.tar.gz")));
    assert!(is_server_asset(&b("server-v2.tar.gz")));
    assert!(!is_client_asset(&b("server-v2.tar.gz")));
    assert!(!is_client_asset(&b("client-v2.zip")));
    assert!(!is_server_asset(&b("presever-v2.tar.gz")));
    assert!(!is_client_asset(&b("client-")));
}

#[test]
fn ambiguity_account() {
    assert_eq!(
        ambiguity_message(),
        b("Could not find both client and server packages.")
    );
}

#[test]
fn response_classification() {
    assert_eq!(check_response(false, 0), Err(LauncherError::NetworkError));
    assert_eq!(
        check_response(true, 404),
        Err(LauncherError::RemoteError { status: 404 })
    );
    assert_eq!(check_response(true, 200), Ok(()));
    assert_eq!(check_response(true, 299), Ok(()));
    assert_eq!(
        check_response(true, 300),
        Err(LauncherError::RemoteError { status: 300 })
    );
}
