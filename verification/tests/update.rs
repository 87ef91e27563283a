use oxidenms::update::status_for;
use oxidenms::update::check_current_version;
use oxidenms::update::{decide, UpdateError, UpdateStatus, VersionManifest};

fn manifest(minimum: &str, latest: &str) -> VersionManifest {
    VersionManifest {
        latest_version: latest.to_string(),
        minimum_version: minimum.to_string(),
        download_url: "https://ornek.com/indir".to_string(),
        notes: None,
    }
}

#[test]
fn eski_surum_zorunlu_guncelleme() {
    let result = decide("0.1.0", manifest("1.0.0", "1.0.0")).unwrap();
    assert!(matches!(result, UpdateStatus::Mandatory(_)));
}

#[test]
fn yeni_var_ama_zorunlu_degil() {
    let result = decide("1.0.0", manifest("1.0.0", "1.2.0")).unwrap();
    assert!(matches!(result, UpdateStatus::Optional(_)));
}

#[test]
fn guncel_surum() {
    let result = decide("1.2.0", manifest("1.0.0", "1.2.0")).unwrap();
    assert!(matches!(result, UpdateStatus::UpToDate));
}

#[test]
fn gecersiz_surum_hata_dondurur() {
    assert!(decide("abc", manifest("1.0.0", "1.0.0")).is_err());
}

#[test]
fn invalid_minimum_or_latest_is_a_version_error() {
    assert!(matches!(
        decide("1.0.0", manifest("x.y", "1.0.0")),
        Err(UpdateError::Version(_))
    ));
    assert!(matches!(
        decide("1.0.0", manifest("1.0.0", "")),
        Err(UpdateError::Version(_))
    ));
}

#[test]
fn prerelease_precedes_its_release() {
    let result = decide("1.0.0-beta.1", manifest("0.9.0", "1.0.0")).unwrap();
    assert!(matches!(result, UpdateStatus::Optional(_)));
}

#[test]
fn mandatory_status_carries_the_manifest() {
    match decide("0.1.0", manifest("1.0.0", "2.0.0")).unwrap() {
        UpdateStatus::Mandatory(m) => {
            assert_eq!(m.minimum_version, "1.0.0");
            assert_eq!(m.latest_version, "2.0.0");
        }
        _ => panic!("expected a mandatory update"),
    }
}

#[test]
fn status_table() {
    let m = manifest("1.0.0", "2.0.0");
    assert!(matches!(status_for(true, true, m.clone()), UpdateStatus::Mandatory(_)));
    assert!(matches!(status_for(true, false, m.clone()), UpdateStatus::Mandatory(_)));
    assert!(matches!(status_for(false, true, m.clone()), UpdateStatus::Optional(_)));
    assert!(matches!(status_for(false, false, m), UpdateStatus::UpToDate));
}

#[test]
fn current_version_check() {
    assert!(check_current_version("1.0.5").is_ok());
    assert!(matches!(check_current_version("1.0"), Err(UpdateError::Version(_))));
}
