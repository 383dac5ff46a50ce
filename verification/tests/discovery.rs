use fidius::descriptor::BufferStrategyKind;
use fidius::discovery::{is_python_package_named, python_package_info};
use fidius::package::PackageHeader;
use fidius::types::PluginRuntimeKind;

fn header(name: &str, runtime: Option<&str>) -> PackageHeader {
    PackageHeader {
        name: name.to_string(),
        version: "0.1.0".to_string(),
        interface: "greeter-api".to_string(),
        interface_version: 3,
        extension: None,
        runtime: runtime.map(|r| r.to_string()),
    }
}

#[test]
fn python_packages_are_reported_unvalidated() {
    let info = python_package_info(&header("hello", Some("python"))).unwrap();
    assert_eq!(info.name, "hello");
    assert_eq!(info.interface_name, "greeter-api");
    assert_eq!(info.interface_hash, 0);
    assert_eq!(info.interface_version, 3);
    assert_eq!(info.capabilities, 0);
    assert_eq!(info.buffer_strategy, BufferStrategyKind::PluginAllocated);
    assert_eq!(info.runtime, PluginRuntimeKind::Python);
    assert!(info.is_python());
    assert!(!info.is_cdylib());
    assert!(python_package_info(&header("hello", None)).is_none());
}

#[test]
fn packages_are_found_by_name_and_runtime() {
    assert!(is_python_package_named(&header("hello", Some("python")), "hello"));
    assert!(!is_python_package_named(&header("hello", Some("python")), "other"));
    assert!(!is_python_package_named(&header("hello", Some("rust")), "hello"));
}
