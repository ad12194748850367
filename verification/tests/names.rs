//! The names of containers and buckets.

use providers::azure::AzureBlobAdapter;
use providers::faults::redirect_status;
use providers::gcs::GcsAdapter;

#[test]
fn should_apply_azure_container_naming_rules() {
    for name in ["abc", "container-01", "$root"] {
        assert!(AzureBlobAdapter::valid_container_name(name), "{name}");
    }
    for name in ["aa", "Upper", "bad--name", "-leading", "trailing-"] {
        assert!(!AzureBlobAdapter::valid_container_name(name), "{name}");
    }
}

#[test]
fn should_apply_gcs_bucket_naming_rules() {
    for name in ["abc", "bucket_name-01", "test.example.com"] {
        assert!(GcsAdapter::valid_bucket_name(name), "{name}");
    }
    for name in [
        "ab",
        "Upper",
        "192.168.5.4",
        "goog-data",
        "my-google-bucket",
        "bad..name",
    ] {
        assert!(!GcsAdapter::valid_bucket_name(name), "{name}");
    }
}

#[test]
fn should_map_every_supported_redirect_failpoint() {
    for (name, expected) in [
        ("redirect-301", 301),
        ("redirect-302", 302),
        ("redirect-303", 303),
        ("redirect-307", 307),
        ("redirect-308", 308),
    ] {
        assert_eq!(redirect_status(name), Some(expected));
    }
    assert_eq!(redirect_status("redirect-304"), None);
}
