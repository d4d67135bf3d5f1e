use cloudencryptor::credentials::CredentialManager;
use cloudencryptor::remote::{
    download_target, encrypted_item_path, numbered_download_target, split_extension,
    upload_file_name,
};
use std::path::Path;

#[test]
fn credential_files_live_in_the_cache_directory() {
    let m = CredentialManager::in_home("/home/ann");
    assert_eq!(m.directory, "/home/ann/.cache/cloudencryptor/");
    assert_eq!(m.token_path(), "/home/ann/.cache/cloudencryptor//token");
    assert_eq!(m.passwd_path(), "/home/ann/.cache/cloudencryptor//key");
}

#[test]
fn saved_password_goes_to_the_token_file() {
    let m = CredentialManager { directory: "/tmp/c".to_string() };
    assert_eq!(m.passwd_save_path(), m.token_path());
    assert_ne!(m.passwd_save_path(), m.passwd_path());
}

#[test]
fn encrypted_paths_are_under_the_encrypted_folder() {
    assert_eq!(encrypted_item_path("a.txt"), Some("/encrypted/a.txt".to_string()));
    assert_eq!(encrypted_item_path("dir/b.bin"), Some("/encrypted/dir/b.bin".to_string()));
    assert_eq!(encrypted_item_path(""), Some("/encrypted/".to_string()));
    assert_eq!(encrypted_item_path("a:b"), None);
    assert_eq!(encrypted_item_path("what?"), None);
    assert_eq!(encrypted_item_path("/abs"), None);
    assert_eq!(encrypted_item_path("a//b"), None);
    assert_eq!(encrypted_item_path("a/"), Some("/encrypted/a/".to_string()));
}

#[test]
fn upload_name_is_the_final_component() {
    assert_eq!(upload_file_name("/tmp/x/y.txt"), Some("y.txt".to_string()));
    assert_eq!(upload_file_name("notes.md"), Some("notes.md".to_string()));
    assert_eq!(upload_file_name("dir/"), Some("dir".to_string()));
    assert_eq!(upload_file_name("/tmp/.."), None);
    assert_eq!(upload_file_name("/"), None);
}

#[test]
fn stem_and_extension_match_std_path() {
    for name in ["a.txt", "archive.tar.gz", ".bashrc", "noext", "trailing.", ".a.b", "x"].iter() {
        let (stem, ext) = split_extension(name);
        let p = Path::new(name);
        assert_eq!(Some(stem.as_str()), p.file_stem().and_then(|s| s.to_str()), "{}", name);
        assert_eq!(ext.as_deref(), p.extension().and_then(|s| s.to_str()), "{}", name);
    }
}

#[test]
fn parent_name_has_no_extension() {
    assert_eq!(split_extension(".."), ("..".to_string(), None));
}

#[test]
fn download_paths() {
    assert_eq!(download_target("/home/ann/Downloads", "r.pdf"), "/home/ann/Downloads/r.pdf");
    let first = download_target("/d", "report.pdf");
    assert_eq!(numbered_download_target("/d", &first, 0), Some("/d/report_0.pdf".to_string()));
    assert_eq!(numbered_download_target("/d", &first, 12), Some("/d/report_12.pdf".to_string()));
    let tgz = download_target("/d", "a.tar.gz");
    assert_eq!(numbered_download_target("/d", &tgz, 1), Some("/d/a.tar_1.gz".to_string()));
    assert_eq!(numbered_download_target("/d", "/d/README", 0), None);
    assert_eq!(numbered_download_target("/d", "/d/.bashrc", 0), None);
}

#[test]
fn numbered_download_paths_differ() {
    let first = download_target("/d", "x.bin");
    let mut seen = Vec::new();
    for i in 0u32..200 {
        let p = numbered_download_target("/d", &first, i).unwrap();
        assert!(!seen.contains(&p));
        seen.push(p);
    }
}

#[test]
fn drive_path_check_agrees_with_onedrive_api() {
    let names = [
        "a", "a.txt", "", "/", "a/", "a/b", "a//b", "/a", "x\"y", "x*y", "x:y", "x<y", "x>y",
        "x?y", "x\\y", "x|y", "spaces ok", "ümlaut", "a/b/", "a/b//", "con",
    ];
    for name in names.iter() {
        let full = format!("/encrypted/{}", name);
        let accepted = onedrive_api::ItemLocation::from_path(&full).is_some();
        assert_eq!(encrypted_item_path(name).is_some(), accepted, "{:?}", name);
        if accepted {
            assert_eq!(encrypted_item_path(name), Some(full));
        }
    }
}

#[test]
fn upload_name_agrees_with_std_path() {
    for p in ["a", "/a/b", "a/b/", "./x.y", "x/.", "/", "", "..", "a/..", "//double//slash"].iter() {
        let expected = Path::new(p).file_name().map(|n| n.to_string_lossy().into_owned());
        assert_eq!(upload_file_name(p), expected, "{:?}", p);
    }
}
