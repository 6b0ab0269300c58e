//! What the build of the launcher tells the compiler: which Python library to link
//! against, and which data files are embedded.

use vstd::prelude::*;
use vstd::string::*;

verus! {

/// The variable with the directory that the Python library is in.
pub const LIB_DIR_ENV: &'static str = "PYTHON_LAUNCHER_LIB_DIR";

/// The variable with the name of the Python library, without `lib` and without its suffix.
pub const LIB_NAME_ENV: &'static str = "PYTHON_LAUNCHER_LIB_NAME";

/// The line that makes the build run again when a data file changes.
pub const WATCH_DATA: &'static str = "cargo:rerun-if-changed=data/";

/// What kind of system the launcher is built on.
pub enum Platform {
    Linux,
    MacOs,
    Other,
}

/// The Python library to link against.
pub struct Library {
    /// The directory that it is in.
    pub dir: String,
    /// Its name, such as `python3.14`.
    pub name: String,
    /// The name of its file, such as `libpython3.14.so`.
    pub file_name: String,
}

/// What the build reports without the directory of the library.
pub open spec fn no_dir_message() -> Seq<char> {
    "PYTHON_LAUNCHER_LIB_DIR must be set when building with --features python-launcher (expected: absolute path to the directory containing libpython, e.g. $PREFIX/lib)"@
}

/// What the build reports without the name of the library.
pub open spec fn no_name_message() -> Seq<char> {
    "PYTHON_LAUNCHER_LIB_NAME must be set when building with --features python-launcher (expected: library name without 'lib' prefix or extension, e.g. 'python3.14' or 'python3.14t')"@
}

/// The suffix of a shared library.
pub open spec fn library_suffix(platform: Platform) -> Seq<char> {
    match platform {
        Platform::MacOs => ".dylib"@,
        _ => ".so"@,
    }
}

/// The file name of the library called `name`.
pub open spec fn library_file(name: Seq<char>, platform: Platform) -> Seq<char> {
    "lib"@ + name + library_suffix(platform)
}

/// The file name of the library called `name`.
pub fn library_file_name(name: &str, platform: &Platform) -> (r: String)
    ensures
        r@ == library_file(name@, *platform),
{
    let mut file = "lib".to_owned();
    file.append(name);
    match platform {
        Platform::MacOs => file.append(".dylib"),
        _ => file.append(".so"),
    }
    file
}

/// Determines the library from the two variables, or reports which of them is missing; the
/// directory first.
pub fn find_library(
    lib_dir: Option<String>,
    lib_name: Option<String>,
    platform: &Platform,
) -> (r: Result<Library, String>)
    ensures
        match (lib_dir, lib_name) {
            (None, _) => r matches Err(message) && message@ == no_dir_message(),
            (Some(_), None) => r matches Err(message) && message@ == no_name_message(),
            (Some(dir), Some(name)) => {
                &&& r matches Ok(library)
                &&& library.dir == dir
                &&& library.name == name
                &&& library.file_name@ == library_file(name@, *platform)
            },
        },
{
    match (lib_dir, lib_name) {
        (None, _) => Err(
            "PYTHON_LAUNCHER_LIB_DIR must be set when building with --features python-launcher (expected: absolute path to the directory containing libpython, e.g. $PREFIX/lib)".to_owned(),
        ),
        (Some(_), None) => Err(
            "PYTHON_LAUNCHER_LIB_NAME must be set when building with --features python-launcher (expected: library name without 'lib' prefix or extension, e.g. 'python3.14' or 'python3.14t')".to_owned(),
        ),
        (Some(dir), Some(name)) => {
            let file_name = library_file_name(name.as_str(), platform);
            Ok(Library { dir, name, file_name })
        },
    }
}

/// What the build reports when the library is not there; `path` is where it was looked for.
pub open spec fn missing_message(library: Library, path: Seq<char>) -> Seq<char> {
    "PYTHON_LAUNCHER_LIB_DIR="@ + library.dir@ + ": expected "@ + library.file_name@
        + " not found at "@ + path
        + ". Ensure libpython is built and installed into $PREFIX/lib before running `cargo build --features python-launcher`."@
}

/// The lines that have the library linked, and the build run again when it changes.
pub open spec fn link_lines(library: Library, path: Seq<char>) -> Seq<Seq<char>> {
    seq![
        "cargo:rustc-link-search=native="@ + library.dir@,
        "cargo:rustc-link-lib=dylib="@ + library.name@,
        "cargo:rerun-if-env-changed=PYTHON_LAUNCHER_LIB_DIR"@,
        "cargo:rerun-if-env-changed=PYTHON_LAUNCHER_LIB_NAME"@,
        "cargo:rerun-if-changed="@ + path,
    ]
}

/// The texts of the lines.
pub open spec fn lines_of(lines: Seq<String>) -> Seq<Seq<char>> {
    lines.map_values(|l: String| l@)
}

/// Has the library linked, if it is there: `path` is where it is looked for, and `exists`
/// whether it was found.
pub fn link_directives(library: &Library, path: &str, exists: bool) -> (r: Result<
    Vec<String>,
    String,
>)
    ensures
        match r {
            Ok(lines) => exists && lines_of(lines@) == link_lines(*library, path@),
            Err(message) => !exists && message@ == missing_message(*library, path@),
        },
{
    if !exists {
        let mut message = "PYTHON_LAUNCHER_LIB_DIR=".to_owned();
        message.append(library.dir.as_str());
        message.append(": expected ");
        message.append(library.file_name.as_str());
        message.append(" not found at ");
        message.append(path);
        message.append(
            ". Ensure libpython is built and installed into $PREFIX/lib before running `cargo build --features python-launcher`.",
        );
        return Err(message);
    }
    let mut search = "cargo:rustc-link-search=native=".to_owned();
    search.append(library.dir.as_str());
    let mut link = "cargo:rustc-link-lib=dylib=".to_owned();
    link.append(library.name.as_str());
    let mut watch = "cargo:rerun-if-changed=".to_owned();
    watch.append(path);
    let mut lines: Vec<String> = Vec::new();
    lines.push(search);
    lines.push(link);
    lines.push("cargo:rerun-if-env-changed=PYTHON_LAUNCHER_LIB_DIR".to_owned());
    lines.push("cargo:rerun-if-env-changed=PYTHON_LAUNCHER_LIB_NAME".to_owned());
    lines.push(watch);
    Ok(lines)
}

/// A data file that is embedded where it is there.
pub enum DataFile {
    Policy,
    NetworkPolicy,
    ProfileSchema,
    AuthoringGuide,
}

impl DataFile {
    /// The name of the file in the data directory, and of its copy.
    pub open spec fn name(self) -> Seq<char> {
        match self {
            DataFile::Policy => "policy.json"@,
            DataFile::NetworkPolicy => "network-policy.json"@,
            DataFile::ProfileSchema => "nono-profile.schema.json"@,
            DataFile::AuthoringGuide => "profile-authoring-guide.md"@,
        }
    }

    /// What the file is called in reports.
    pub open spec fn title(self) -> Seq<char> {
        match self {
            DataFile::Policy => "policy.json"@,
            DataFile::NetworkPolicy => "network-policy.json"@,
            DataFile::ProfileSchema => "profile schema"@,
            DataFile::AuthoringGuide => "profile authoring guide"@,
        }
    }

    /// The variable that tells the compiler whether the file is embedded.
    pub open spec fn flag(self) -> Option<Seq<char>> {
        match self {
            DataFile::Policy => Some("POLICY_JSON_EMBEDDED"@),
            DataFile::NetworkPolicy => Some("NETWORK_POLICY_JSON_EMBEDDED"@),
            _ => None,
        }
    }

    /// The lines for a file that was found, or not: whether it is embedded is told by its
    /// flag, and a file with a flag that is missing is warned of.
    pub open spec fn lines(self, found: bool) -> Seq<Seq<char>> {
        match self.flag() {
            Some(flag) => if found {
                seq!["cargo:rustc-env="@ + flag + "=1"@]
            } else {
                seq![
                    "cargo:warning=data/"@ + self.name() + " not found"@,
                    "cargo:rustc-env="@ + flag + "=0"@,
                ]
            },
            None => seq![],
        }
    }

    /// The name of the file in the data directory, and of its copy.
    pub fn file_name(&self) -> (r: &'static str)
        ensures
            r@ == self.name(),
    {
        match self {
            DataFile::Policy => "policy.json",
            DataFile::NetworkPolicy => "network-policy.json",
            DataFile::ProfileSchema => "nono-profile.schema.json",
            DataFile::AuthoringGuide => "profile-authoring-guide.md",
        }
    }

    /// What the file is called in reports.
    fn reported(&self) -> (r: &'static str)
        ensures
            r@ == self.title(),
    {
        match self {
            DataFile::Policy => "policy.json",
            DataFile::NetworkPolicy => "network-policy.json",
            DataFile::ProfileSchema => "profile schema",
            DataFile::AuthoringGuide => "profile authoring guide",
        }
    }

    /// What the build reports when the file cannot be read.
    pub fn read_failure(&self) -> (r: String)
        ensures
            r@ == "Failed to read "@ + self.title(),
    {
        let mut message = "Failed to read ".to_owned();
        message.append(self.reported());
        message
    }

    /// What the build reports when the copy of the file cannot be written.
    pub fn write_failure(&self) -> (r: String)
        ensures
            r@ == "Failed to write "@ + self.title() + " to OUT_DIR"@,
    {
        let mut message = "Failed to write ".to_owned();
        message.append(self.reported());
        message.append(" to OUT_DIR");
        message
    }

    /// The lines for a file that was found and copied, or not found.
    pub fn embed_directives(&self, found: bool) -> (r: Vec<String>)
        ensures
            lines_of(r@) == self.lines(found),
    {
        let flag = match self {
            DataFile::Policy => "POLICY_JSON_EMBEDDED",
            DataFile::NetworkPolicy => "NETWORK_POLICY_JSON_EMBEDDED",
            _ => {
                return Vec::new();
            },
        };
        let mut lines: Vec<String> = Vec::new();
        let mut setting = "cargo:rustc-env=".to_owned();
        setting.append(flag);
        if found {
            setting.append("=1");
        } else {
            let mut warning = "cargo:warning=data/".to_owned();
            warning.append(self.file_name());
            warning.append(" not found");
            lines.push(warning);
            setting.append("=0");
        }
        lines.push(setting);
        lines
    }
}

/// The flag of a file tells whether the file was found.
pub proof fn law_flag_tells_the_truth(file: DataFile, found: bool, other: bool)
    requires
        file.flag() is Some,
    ensures
        file.lines(found).last() == file.lines(other).last() <==> found == other,
{
    let set = "cargo:rustc-env="@ + file.flag()->0;
    reveal_strlit("=1");
    reveal_strlit("=0");
    assert((set + "=1"@).last() == '1');
    assert((set + "=0"@).last() == '0');
}

/// The file of a library is its name between `lib` and the suffix of the platform, whatever
/// the name.
pub proof fn law_file_of_a_library(name: Seq<char>)
    ensures
        library_file(name, Platform::Linux) == "lib"@ + name + ".so"@,
        library_file(name, Platform::MacOs) == "lib"@ + name + ".dylib"@,
        library_file(name, Platform::Other) == "lib"@ + name + ".so"@,
{
}

/// The lines for a library: where to search, what to link, and what to watch, in this order.
pub proof fn law_lines_for_a_library(library: Library, path: Seq<char>)
    ensures
        link_lines(library, path).len() == 5,
        link_lines(library, path)[0] == "cargo:rustc-link-search=native="@ + library.dir@,
        link_lines(library, path)[1] == "cargo:rustc-link-lib=dylib="@ + library.name@,
        link_lines(library, path)[2] == "cargo:rerun-if-env-changed=PYTHON_LAUNCHER_LIB_DIR"@,
        link_lines(library, path)[3] == "cargo:rerun-if-env-changed=PYTHON_LAUNCHER_LIB_NAME"@,
        link_lines(library, path)[4] == "cargo:rerun-if-changed="@ + path,
        missing_message(library, path) == "PYTHON_LAUNCHER_LIB_DIR="@ + library.dir@
            + ": expected "@ + library.file_name@ + " not found at "@ + path
            + ". Ensure libpython is built and installed into $PREFIX/lib before running `cargo build --features python-launcher`."@,
        no_dir_message()
            == "PYTHON_LAUNCHER_LIB_DIR must be set when building with --features python-launcher (expected: absolute path to the directory containing libpython, e.g. $PREFIX/lib)"@,
        no_name_message()
            == "PYTHON_LAUNCHER_LIB_NAME must be set when building with --features python-launcher (expected: library name without 'lib' prefix or extension, e.g. 'python3.14' or 'python3.14t')"@,
{
}

/// Lines are seen whole: all of them, in order.
pub proof fn law_lines_are_seen_whole(lines: Seq<String>, i: int)
    ensures
        lines_of(lines).len() == lines.len(),
        0 <= i < lines.len() ==> lines_of(lines)[i] == lines[i]@,
{
}

/// The lines for a data file: a policy that is there is flagged as embedded, one that is
/// missing is warned of by its name and flagged as not; the other files have no lines.
pub proof fn law_lines_for_a_data_file()
    ensures
        DataFile::Policy.lines(true) == seq!["cargo:rustc-env=POLICY_JSON_EMBEDDED=1"@],
        DataFile::Policy.lines(false) == seq![
            "cargo:warning=data/policy.json not found"@,
            "cargo:rustc-env=POLICY_JSON_EMBEDDED=0"@,
        ],
        DataFile::NetworkPolicy.lines(true) == seq![
            "cargo:rustc-env=NETWORK_POLICY_JSON_EMBEDDED=1"@,
        ],
        DataFile::NetworkPolicy.lines(false) == seq![
            "cargo:warning=data/network-policy.json not found"@,
            "cargo:rustc-env=NETWORK_POLICY_JSON_EMBEDDED=0"@,
        ],
        DataFile::ProfileSchema.lines(true) == Seq::<Seq<char>>::empty(),
        DataFile::ProfileSchema.lines(false) == Seq::<Seq<char>>::empty(),
        DataFile::AuthoringGuide.lines(true) == Seq::<Seq<char>>::empty(),
        DataFile::AuthoringGuide.lines(false) == Seq::<Seq<char>>::empty(),
{
    reveal_strlit("cargo:rustc-env=");
    reveal_strlit("cargo:warning=data/");
    reveal_strlit(" not found");
    reveal_strlit("=1");
    reveal_strlit("=0");
    reveal_strlit("policy.json");
    reveal_strlit("network-policy.json");
    reveal_strlit("POLICY_JSON_EMBEDDED");
    reveal_strlit("NETWORK_POLICY_JSON_EMBEDDED");
    reveal_strlit("cargo:rustc-env=POLICY_JSON_EMBEDDED=1");
    reveal_strlit("cargo:rustc-env=POLICY_JSON_EMBEDDED=0");
    reveal_strlit("cargo:rustc-env=NETWORK_POLICY_JSON_EMBEDDED=1");
    reveal_strlit("cargo:rustc-env=NETWORK_POLICY_JSON_EMBEDDED=0");
    reveal_strlit("cargo:warning=data/policy.json not found");
    reveal_strlit("cargo:warning=data/network-policy.json not found");
    assert("cargo:rustc-env="@ + "POLICY_JSON_EMBEDDED"@ + "=1"@
        == "cargo:rustc-env=POLICY_JSON_EMBEDDED=1"@);
    assert("cargo:rustc-env="@ + "POLICY_JSON_EMBEDDED"@ + "=0"@
        == "cargo:rustc-env=POLICY_JSON_EMBEDDED=0"@);
    assert("cargo:rustc-env="@ + "NETWORK_POLICY_JSON_EMBEDDED"@ + "=1"@
        == "cargo:rustc-env=NETWORK_POLICY_JSON_EMBEDDED=1"@);
    assert("cargo:rustc-env="@ + "NETWORK_POLICY_JSON_EMBEDDED"@ + "=0"@
        == "cargo:rustc-env=NETWORK_POLICY_JSON_EMBEDDED=0"@);
    assert("cargo:warning=data/"@ + "policy.json"@ + " not found"@
        == "cargo:warning=data/policy.json not found"@);
    assert("cargo:warning=data/"@ + "network-policy.json"@ + " not found"@
        == "cargo:warning=data/network-policy.json not found"@);
}

/// Each data file has its name, and its title in reports.
pub proof fn law_names_of_data_files()
    ensures
        DataFile::Policy.name() == "policy.json"@,
        DataFile::NetworkPolicy.name() == "network-policy.json"@,
        DataFile::ProfileSchema.name() == "nono-profile.schema.json"@,
        DataFile::AuthoringGuide.name() == "profile-authoring-guide.md"@,
        DataFile::Policy.title() == "policy.json"@,
        DataFile::NetworkPolicy.title() == "network-policy.json"@,
        DataFile::ProfileSchema.title() == "profile schema"@,
        DataFile::AuthoringGuide.title() == "profile authoring guide"@,
{
}

/// The build reads these two variables, and watches the whole data directory.
pub proof fn law_what_the_build_reads()
    ensures
        LIB_DIR_ENV@ == "PYTHON_LAUNCHER_LIB_DIR"@,
        LIB_NAME_ENV@ == "PYTHON_LAUNCHER_LIB_NAME"@,
        WATCH_DATA@ == "cargo:rerun-if-changed=data/"@,
{
}

} // verus!
