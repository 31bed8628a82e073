//! Where the compiled JNI library lies after a release build, and where the
//! Android project expects it: both paths as text, built from their parts.

use vstd::prelude::*;
use vstd::string::StringExecFns;

verus! {

/// The file name of the compiled JNI library.
pub const JNI_LIB_FILE_NAME: &'static str = "libcryptor_jni.so";

/// `project_dir/target/android_target/release/` and the library's file
/// name, with `separator` between the parts.
pub open spec fn crate_file_path(
    project_dir: Seq<char>,
    separator: Seq<char>,
    android_target: Seq<char>,
) -> Seq<char> {
    project_dir + separator + "target"@ + separator + android_target + separator + "release"@
        + separator + JNI_LIB_FILE_NAME@
}

/// `android_project_dir/android-sample/app/src/main/jniLibs/jni_lib_folder/`
/// and the library's file name, with `separator` between the parts.
pub open spec fn android_jni_path(
    android_project_dir: Seq<char>,
    separator: Seq<char>,
    jni_lib_folder: Seq<char>,
) -> Seq<char> {
    android_project_dir + separator + "android-sample"@ + separator + "app"@ + separator + "src"@
        + separator + "main"@ + separator + "jniLibs"@ + separator + jni_lib_folder + separator
        + JNI_LIB_FILE_NAME@
}

/// Reads `std::path::MAIN_SEPARATOR_STR`, the separator of path components
/// on the platform the library was compiled for.
///
/// Claimed: it is one character long, as it is `std::path::MAIN_SEPARATOR`
/// written as a string. Which character it is depends on the platform, and
/// nothing is said of it.
#[verifier::external_body]
fn main_separator() -> (separator: &'static str)
    ensures
        separator@.len() == 1,
{
    std::path::MAIN_SEPARATOR_STR
}

/// The path of the release build of the library for `android_target`, below
/// `project_dir_path`, written with the given separator.
pub fn crate_file_path_with_separator(
    project_dir_path: &str,
    separator: &str,
    android_target: &str,
) -> (path: String)
    ensures
        path@ == crate_file_path(project_dir_path@, separator@, android_target@),
{
    let mut path = project_dir_path.to_owned();
    path.append(separator);
    path.append("target");
    path.append(separator);
    path.append(android_target);
    path.append(separator);
    path.append("release");
    path.append(separator);
    path.append(JNI_LIB_FILE_NAME);
    path
}

/// The path of the release build of the library for `android_target`, below
/// `project_dir_path`, written with the platform's separator.
pub fn crate_file_path_for_target(project_dir_path: &str, android_target: &str) -> (path: String)
    ensures
        exists|separator: Seq<char>|
            separator.len() == 1 && path@ == #[trigger] crate_file_path(
                project_dir_path@,
                separator,
                android_target@,
            ),
{
    let separator = main_separator();
    crate_file_path_with_separator(project_dir_path, separator, android_target)
}

/// The place of the library for the ABI folder `android_jni_lib_folder` in
/// the Android project that lies in `android_project_dir_path`, written with
/// the given separator.
pub fn android_jni_dir_path_with_separator(
    android_project_dir_path: &str,
    separator: &str,
    android_jni_lib_folder: &str,
) -> (path: String)
    ensures
        path@ == android_jni_path(android_project_dir_path@, separator@, android_jni_lib_folder@),
{
    let mut path = android_project_dir_path.to_owned();
    path.append(separator);
    path.append("android-sample");
    path.append(separator);
    path.append("app");
    path.append(separator);
    path.append("src");
    path.append(separator);
    path.append("main");
    path.append(separator);
    path.append("jniLibs");
    path.append(separator);
    path.append(android_jni_lib_folder);
    path.append(separator);
    path.append(JNI_LIB_FILE_NAME);
    path
}

/// The place of the library for the ABI folder `android_jni_lib_folder` in
/// the Android project that lies in `android_project_dir_path`, written with
/// the platform's separator.
pub fn android_jni_dir_path(android_project_dir_path: &str, android_jni_lib_folder: &str) -> (path:
    String)
    ensures
        exists|separator: Seq<char>|
            separator.len() == 1 && path@ == #[trigger] android_jni_path(
                android_project_dir_path@,
                separator,
                android_jni_lib_folder@,
            ),
{
    let separator = main_separator();
    android_jni_dir_path_with_separator(android_project_dir_path, separator, android_jni_lib_folder)
}

} // verus!
