use cosmic_widgets::install::{installed_file_name, is_package_archive_name, staging_file_name};

#[test]
fn archive_names_should_follow_path_extension_rules() {
    assert!(is_package_archive_name("0.1.0.cwidget"));
    assert!(is_package_archive_name("a.cwidget"));
    assert!(!is_package_archive_name(".cwidget"));
    assert!(!is_package_archive_name("cwidget"));
    assert!(!is_package_archive_name("0.1.0.cwidgets"));
    assert!(!is_package_archive_name("0.1.0.tmp"));
    assert!(!is_package_archive_name("a.CWIDGET"));
}

#[test]
fn install_names_should_embed_the_version() {
    assert_eq!(installed_file_name("1.2.3"), "1.2.3.cwidget");
    assert_eq!(staging_file_name("1.2.3"), ".1.2.3.tmp");
}
