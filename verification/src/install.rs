//! Names of installed package files.

use vstd::prelude::*;

verus! {

/// Whether a file name has the extension `cwidget` as `Path::extension` reads it: the
/// part after the last `.`, where a name whose only `.` leads has no extension.
pub open spec fn has_cwidget_extension(file_name: Seq<char>) -> bool {
    exists|dot: int|
        0 < dot < file_name.len() && file_name[dot] == '.' && file_name.skip(dot + 1)
            == "cwidget"@
}

/// Whether `file_name` is an installed package archive.
pub fn is_package_archive_name(file_name: &str) -> (res: bool)
    ensures
        res == has_cwidget_extension(file_name@),
{
    proof {
        reveal_strlit("cwidget");
    }
    let n = file_name.unicode_len();
    if n < 9 {
        proof {
            assert forall|dot: int|
                0 < dot < file_name@.len() && file_name@[dot] == '.' implies file_name@.skip(dot + 1)
                != "cwidget"@ by {
                assert(file_name@.skip(dot + 1).len() < 7);
            }
        }
        return false;
    }
    let dot = n - 8;
    let suffix = file_name.substring_char(dot + 1, n);
    let ok = dot > 0 && file_name.get_char(dot) == '.' && crate::text::contains_str(suffix, "cwidget")
        && suffix.unicode_len() == 7;
    proof {
        assert(file_name@.skip(dot + 1) =~= file_name@.subrange(dot + 1, n as int));
        if suffix@.len() == 7 && crate::text::contains_seq(suffix@, "cwidget"@) {
            let at = choose|at: int| crate::text::occurs_at(suffix@, "cwidget"@, at);
            assert(at == 0);
            assert(suffix@ =~= suffix@.subrange(0, 7));
        }
        if ok {
            assert(file_name@.skip(dot + 1) == "cwidget"@);
        } else if has_cwidget_extension(file_name@) {
            let d = choose|d: int|
                0 < d < file_name@.len() && file_name@[d] == '.' && file_name@.skip(d + 1)
                    == "cwidget"@;
            assert("cwidget"@.len() == 7);
            assert(file_name@.skip(d + 1).len() == 7);
            assert(d == dot);
            assert(crate::text::occurs_at(suffix@, "cwidget"@, 0)) by {
                assert(suffix@.subrange(0, 7) =~= suffix@);
            }
        }
    }
    ok
}

/// File name of an installed package version: `<version>.cwidget`.
pub fn installed_file_name(version: &str) -> (res: String)
    ensures
        res@ == version@ + ".cwidget"@,
{
    let mut name = String::from_str(version);
    name.append(".cwidget");
    name
}

/// File name a package version is staged under before it is activated:
/// `.<version>.tmp`.
pub fn staging_file_name(version: &str) -> (res: String)
    ensures
        res@ == "."@ + version@ + ".tmp"@,
{
    let mut name = String::from_str(".");
    name.append(version);
    name.append(".tmp");
    name
}

} // verus!
