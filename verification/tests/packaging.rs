use nono_core::packaging::{
    find_library, library_file_name, link_directives, DataFile, Library, Platform, LIB_DIR_ENV,
    LIB_NAME_ENV, WATCH_DATA,
};

fn text(s: &str) -> Option<String> {
    Some(s.to_string())
}

#[test]
fn library_is_named_by_platform() {
    assert_eq!(library_file_name("python3.14", &Platform::Linux), "libpython3.14.so");
    assert_eq!(library_file_name("python3.14t", &Platform::MacOs), "libpython3.14t.dylib");
    assert_eq!(library_file_name("python3.14", &Platform::Other), "libpython3.14.so");
}

#[test]
fn missing_variables_are_reported() {
    let refusal = |dir: Option<String>, name: Option<String>| -> String {
        match find_library(dir, name, &Platform::Linux) {
            Ok(_) => panic!("accepted"),
            Err(message) => message,
        }
    };
    let no_dir = "PYTHON_LAUNCHER_LIB_DIR must be set when building with \
                  --features python-launcher (expected: absolute path to the \
                  directory containing libpython, e.g. $PREFIX/lib)";
    assert_eq!(refusal(None, text("python3.14")), no_dir);
    assert_eq!(refusal(None, None), no_dir);
    assert_eq!(
        refusal(text("/p/lib"), None),
        "PYTHON_LAUNCHER_LIB_NAME must be set when building with \
         --features python-launcher (expected: library name without \
         'lib' prefix or extension, e.g. 'python3.14' or 'python3.14t')"
    );
    assert!(no_dir.starts_with(LIB_DIR_ENV));
    assert!(refusal(text("/p/lib"), None).starts_with(LIB_NAME_ENV));
}

fn library() -> Library {
    match find_library(text("/p/lib"), text("python3.14"), &Platform::Linux) {
        Ok(library) => library,
        Err(message) => panic!("{message}"),
    }
}

#[test]
fn library_is_linked_where_it_is() {
    assert_eq!(library().file_name, "libpython3.14.so");
    assert_eq!(
        link_directives(&library(), "/p/lib/libpython3.14.so", true).unwrap(),
        [
            "cargo:rustc-link-search=native=/p/lib",
            "cargo:rustc-link-lib=dylib=python3.14",
            "cargo:rerun-if-env-changed=PYTHON_LAUNCHER_LIB_DIR",
            "cargo:rerun-if-env-changed=PYTHON_LAUNCHER_LIB_NAME",
            "cargo:rerun-if-changed=/p/lib/libpython3.14.so",
        ]
    );
}

#[test]
fn missing_library_is_reported() {
    assert_eq!(
        link_directives(&library(), "/p/lib/libpython3.14.so", false).unwrap_err(),
        "PYTHON_LAUNCHER_LIB_DIR=/p/lib: expected libpython3.14.so not found at \
         /p/lib/libpython3.14.so. Ensure libpython is built and installed into $PREFIX/lib \
         before running `cargo build --features python-launcher`."
    );
}

#[test]
fn flags_tell_what_is_embedded() {
    assert_eq!(WATCH_DATA, "cargo:rerun-if-changed=data/");
    assert_eq!(
        DataFile::Policy.embed_directives(true),
        ["cargo:rustc-env=POLICY_JSON_EMBEDDED=1"]
    );
    assert_eq!(
        DataFile::Policy.embed_directives(false),
        [
            "cargo:warning=data/policy.json not found",
            "cargo:rustc-env=POLICY_JSON_EMBEDDED=0",
        ]
    );
    assert_eq!(
        DataFile::NetworkPolicy.embed_directives(true),
        ["cargo:rustc-env=NETWORK_POLICY_JSON_EMBEDDED=1"]
    );
    assert_eq!(
        DataFile::NetworkPolicy.embed_directives(false),
        [
            "cargo:warning=data/network-policy.json not found",
            "cargo:rustc-env=NETWORK_POLICY_JSON_EMBEDDED=0",
        ]
    );
    for found in [true, false] {
        assert!(DataFile::ProfileSchema.embed_directives(found).is_empty());
        assert!(DataFile::AuthoringGuide.embed_directives(found).is_empty());
    }
}

#[test]
fn data_files_have_names_and_reports() {
    let cases = [
        (DataFile::Policy, "policy.json", "policy.json"),
        (DataFile::NetworkPolicy, "network-policy.json", "network-policy.json"),
        (DataFile::ProfileSchema, "nono-profile.schema.json", "profile schema"),
        (DataFile::AuthoringGuide, "profile-authoring-guide.md", "profile authoring guide"),
    ];
    for (file, name, title) in cases {
        assert_eq!(file.file_name(), name);
        assert_eq!(file.read_failure(), format!("Failed to read {title}"));
        assert_eq!(file.write_failure(), format!("Failed to write {title} to OUT_DIR"));
    }
}
