//! Archive packaging support: the output archive's file name and the
//! manifest text written into it.

use vstd::prelude::*;

use crate::text::{append_str_chars, chars_to_string, str_to_chars};

verus! {

/// The name of the packaged archive: `{name}-{version}.jar`.
pub open spec fn spec_jar_file_name(name: Seq<char>, version: Seq<char>) -> Seq<char> {
    name + "-"@ + version + ".jar"@
}

/// Builds the packaged archive's file name from the project name and
/// version.
pub fn jar_file_name(name: &str, version: &str) -> (r: String)
    ensures
        r@ == spec_jar_file_name(name@, version@),
{
    let mut out = str_to_chars(name);
    append_str_chars(&mut out, "-");
    append_str_chars(&mut out, version);
    append_str_chars(&mut out, ".jar");
    chars_to_string(&out)
}

/// The manifest's fixed part: the format version, the configured main
/// class, and the required blank line.
pub open spec fn spec_manifest_header(main_class: Seq<char>) -> Seq<char> {
    "Manifest-Version: 1.0\n"@ + "Main-Class: "@ + main_class + "\n\n"@
}

/// Builds the manifest's fixed part for a main class.
pub fn manifest_header(main_class: &str) -> (r: String)
    ensures
        r@ == spec_manifest_header(main_class@),
{
    let mut out: Vec<char> = Vec::new();
    append_str_chars(&mut out, "Manifest-Version: 1.0\n");
    append_str_chars(&mut out, "Main-Class: ");
    append_str_chars(&mut out, main_class);
    append_str_chars(&mut out, "\n\n");
    chars_to_string(&out)
}

/// The bundled archive entries in manifest form: each prefixed by one space,
/// a second space between entries, and a continuation line started before
/// every third entry to keep the column width bounded.
pub open spec fn spec_class_path_items(deps: Seq<Seq<char>>) -> Seq<char>
    decreases deps.len(),
{
    if deps.len() == 0 {
        Seq::empty()
    } else {
        let i = deps.len() - 1;
        spec_class_path_items(deps.drop_last()) + (if i == 0 {
            " "@
        } else if i % 3 == 0 {
            "\n  "@
        } else {
            "  "@
        }) + deps.last()
    }
}

/// The manifest's `Class-Path` section for the bundled archives: empty when
/// nothing is bundled, otherwise the wrapped entry list on its own line.
pub open spec fn spec_class_path_section(deps: Seq<Seq<char>>) -> Seq<char> {
    if deps.len() == 0 {
        Seq::empty()
    } else {
        "Class-Path:"@ + spec_class_path_items(deps) + "\n"@
    }
}

/// Builds the manifest's `Class-Path` section listing every bundled
/// archive, line-wrapped to a bounded column width.
pub fn class_path_section(deps: &Vec<String>) -> (r: String)
    ensures
        r@ == spec_class_path_section(deps@.map_values(|p: String| p@)),
{
    let ghost dvs = deps@.map_values(|p: String| p@);
    let n = deps.len();
    if n == 0 {
        let out: Vec<char> = Vec::new();
        return chars_to_string(&out);
    }
    let mut out: Vec<char> = Vec::new();
    append_str_chars(&mut out, "Class-Path:");
    let ghost head = out@;
    let mut i: usize = 0;
    assert(dvs.take(0) =~= Seq::<Seq<char>>::empty());
    assert(out@ =~= head + spec_class_path_items(dvs.take(0)));
    while i < n
        invariant
            n == deps@.len(),
            dvs == deps@.map_values(|p: String| p@),
            i <= n,
            out@ == head + spec_class_path_items(dvs.take(i as int)),
        decreases n - i,
    {
        proof {
            assert(dvs.take(i + 1).drop_last() =~= dvs.take(i as int));
            assert(dvs.take(i + 1).last() == dvs[i as int]);
        }
        if i == 0 {
            append_str_chars(&mut out, " ");
        } else if i % 3 == 0 {
            append_str_chars(&mut out, "\n  ");
        } else {
            append_str_chars(&mut out, "  ");
        }
        append_str_chars(&mut out, deps[i].as_str());
        assert(out@ =~= head + spec_class_path_items(dvs.take(i + 1)));
        i = i + 1;
    }
    assert(dvs.take(n as int) =~= dvs);
    append_str_chars(&mut out, "\n");
    chars_to_string(&out)
}

/// The archive names as they are bundled inside the package: each under the
/// `lib/` directory.
pub open spec fn spec_lib_entries(names: Seq<Seq<char>>) -> Seq<Seq<char>> {
    names.map_values(|x: Seq<char>| "lib/"@ + x)
}

/// Prefixes every bundled archive name with its `lib/` directory.
pub fn lib_entries(names: &Vec<String>) -> (r: Vec<String>)
    ensures
        r@.map_values(|p: String| p@) == spec_lib_entries(names@.map_values(|p: String| p@)),
{
    let ghost nvs = names@.map_values(|p: String| p@);
    let n = names.len();
    let mut r: Vec<String> = Vec::new();
    let mut i: usize = 0;
    while i < n
        invariant
            n == names@.len(),
            nvs == names@.map_values(|p: String| p@),
            i <= n,
            r@.map_values(|p: String| p@) == spec_lib_entries(nvs.take(i as int)),
        decreases n - i,
    {
        let mut e: Vec<char> = Vec::new();
        append_str_chars(&mut e, "lib/");
        append_str_chars(&mut e, names[i].as_str());
        let ghost pre = r@.map_values(|p: String| p@);
        r.push(chars_to_string(&e));
        assert(r@.map_values(|p: String| p@) =~= pre.push("lib/"@ + nvs[i as int]));
        assert(r@.map_values(|p: String| p@) =~= spec_lib_entries(nvs.take(i + 1)));
        i = i + 1;
    }
    assert(nvs.take(n as int) =~= nvs);
    r
}

} // verus!
