//! Destination computation for emitted files: the source-set segment, the
//! package directory chain, and the file name that encodes both namespace
//! and variant. Pure functions of their inputs, so repeated calls agree.

use vstd::prelude::*;

verus! {

use vstd::string::StrSliceExecFns;
use vstd::string::StringExecFns;

/// Relies on String::push: appends the given character to the end of the
/// string.
pub assume_specification[ String::push ](s: &mut String, ch: char)
    ensures
        final(s)@ == old(s)@.push(ch),
;

/// The package name as a directory chain: its separator dots become path
/// separators.
pub open spec fn package_path_spec(pkg: Seq<char>) -> Seq<char> {
    Seq::new(pkg.len(), |i: int| if pkg[i] == '.' { '/' } else { pkg[i] })
}

/// The source-set segment a variant lands in: its own `<variant>Main` tree
/// in multiplatform mode, the single `main` tree otherwise.
pub open spec fn source_set_spec(variant: Seq<char>, multiplatform: bool) -> Seq<char> {
    if multiplatform {
        variant + "Main"@
    } else {
        "main"@
    }
}

/// The directory a binding source file for `variant` is written to.
pub open spec fn bindings_dir_spec(
    out_dir: Seq<char>,
    variant: Seq<char>,
    multiplatform: bool,
    pkg: Seq<char>,
) -> Seq<char> {
    out_dir + "/"@ + source_set_spec(variant, multiplatform) + "/kotlin/"@ + package_path_spec(pkg)
}

/// The file name of a binding source file: it encodes both the namespace
/// and the variant, so distinct variants never collide.
pub open spec fn file_name_spec(namespace: Seq<char>, variant: Seq<char>) -> Seq<char> {
    namespace + "."@ + variant + ".kt"@
}

/// The full path of a binding source file.
pub open spec fn bindings_path_spec(
    out_dir: Seq<char>,
    namespace: Seq<char>,
    variant: Seq<char>,
    multiplatform: bool,
    pkg: Seq<char>,
) -> Seq<char> {
    bindings_dir_spec(out_dir, variant, multiplatform, pkg) + "/"@ + file_name_spec(
        namespace,
        variant,
    )
}

/// The directory a component's native-interop header is written to: keyed by
/// namespace alone, not by package name.
pub open spec fn header_dir_spec(out_dir: Seq<char>, namespace: Seq<char>) -> Seq<char> {
    out_dir + "/nativeInterop/cinterop/headers/"@ + namespace
}

/// The full path of a component's native-interop header.
pub open spec fn header_path_spec(out_dir: Seq<char>, namespace: Seq<char>) -> Seq<char> {
    header_dir_spec(out_dir, namespace) + "/"@ + namespace + ".h"@
}

/// Translates a package name into its directory chain.
fn package_path(pkg: &String) -> (r: String)
    ensures
        r@ == package_path_spec(pkg@),
{
    let n = pkg.as_str().unicode_len();
    let mut out = String::new();
    let mut i: usize = 0;
    while i < n
        invariant
            n == pkg@.len(),
            i <= n,
            out@ == package_path_spec(pkg@).take(i as int),
        decreases n - i,
    {
        let c = pkg.as_str().get_char(i);
        if c == '.' {
            out.push('/');
        } else {
            out.push(c);
        }
        proof {
            assert(out@ =~= package_path_spec(pkg@).take(i + 1));
        }
        i += 1;
    }
    proof {
        assert(package_path_spec(pkg@).take(n as int) =~= package_path_spec(pkg@));
    }
    out
}

/// Computes where a binding source file for one variant goes: the directory
/// to create and the full file path to write.
pub fn bindings_destination(
    out_dir: &String,
    namespace: &String,
    variant: &str,
    multiplatform: bool,
    package_name: &String,
) -> (r: (String, String))
    ensures
        r.0@ == bindings_dir_spec(out_dir@, variant@, multiplatform, package_name@),
        r.1@ == bindings_path_spec(out_dir@, namespace@, variant@, multiplatform, package_name@),
{
    let mut dir = out_dir.clone();
    dir.append("/");
    if multiplatform {
        dir.append(variant);
        dir.append("Main");
    } else {
        dir.append("main");
    }
    dir.append("/kotlin/");
    let pp = package_path(package_name);
    dir.append(pp.as_str());
    proof {
        assert(dir@ =~= bindings_dir_spec(out_dir@, variant@, multiplatform, package_name@));
    }

    let mut path = dir.clone();
    path.append("/");
    path.append(namespace.as_str());
    path.append(".");
    path.append(variant);
    path.append(".kt");
    proof {
        assert(path@ =~= bindings_path_spec(
            out_dir@,
            namespace@,
            variant@,
            multiplatform,
            package_name@,
        ));
    }
    (dir, path)
}

/// Computes where a component's native-interop header goes.
pub fn cinterop_destination(out_dir: &String, namespace: &String) -> (r: (String, String))
    ensures
        r.0@ == header_dir_spec(out_dir@, namespace@),
        r.1@ == header_path_spec(out_dir@, namespace@),
{
    let mut dir = out_dir.clone();
    dir.append("/nativeInterop/cinterop/headers/");
    dir.append(namespace.as_str());
    proof {
        assert(dir@ =~= header_dir_spec(out_dir@, namespace@));
    }
    let mut path = dir.clone();
    path.append("/");
    path.append(namespace.as_str());
    path.append(".h");
    proof {
        assert(path@ =~= header_path_spec(out_dir@, namespace@));
    }
    (dir, path)
}

proof fn lemma_append_cancel_left(a: Seq<char>, x: Seq<char>, y: Seq<char>)
    requires
        a + x == a + y,
    ensures
        x == y,
{
    assert((a + x).len() == a.len() + x.len());
    assert((a + y).len() == a.len() + y.len());
    assert(x.len() == y.len());
    assert forall|k: int| 0 <= k < x.len() implies x[k] == y[k] by {
        assert((a + x)[a.len() + k] == x[k]);
        assert((a + y)[a.len() + k] == y[k]);
    }
    assert(x =~= y);
}

/// Destination determinism: the computed directory and path are functions of
/// (output root, namespace, package name, variant, multiplatform flag)
/// alone, so any two computations over equal inputs agree, whatever else
/// happened between them.
pub proof fn lemma_destination_deterministic(
    out_dir1: Seq<char>,
    ns1: Seq<char>,
    variant1: Seq<char>,
    multi1: bool,
    pkg1: Seq<char>,
    out_dir2: Seq<char>,
    ns2: Seq<char>,
    variant2: Seq<char>,
    multi2: bool,
    pkg2: Seq<char>,
)
    requires
        out_dir1 == out_dir2,
        ns1 == ns2,
        variant1 == variant2,
        multi1 == multi2,
        pkg1 == pkg2,
    ensures
        bindings_dir_spec(out_dir1, variant1, multi1, pkg1) == bindings_dir_spec(
            out_dir2,
            variant2,
            multi2,
            pkg2,
        ),
        bindings_path_spec(out_dir1, ns1, variant1, multi1, pkg1) == bindings_path_spec(
            out_dir2,
            ns2,
            variant2,
            multi2,
            pkg2,
        ),
{
}

/// Distinct variants of one component never share a file name: the variant
/// is encoded in the name itself.
pub proof fn lemma_file_names_distinct(namespace: Seq<char>, v1: Seq<char>, v2: Seq<char>)
    requires
        v1 != v2,
    ensures
        file_name_spec(namespace, v1) != file_name_spec(namespace, v2),
{
    if file_name_spec(namespace, v1) == file_name_spec(namespace, v2) {
        assert((namespace + "."@ + v1 + ".kt"@) == ((namespace + "."@) + (v1 + ".kt"@))) by {
            assert((namespace + "."@ + v1 + ".kt"@) =~= ((namespace + "."@) + (v1 + ".kt"@)));
        }
        assert((namespace + "."@ + v2 + ".kt"@) == ((namespace + "."@) + (v2 + ".kt"@))) by {
            assert((namespace + "."@ + v2 + ".kt"@) =~= ((namespace + "."@) + (v2 + ".kt"@)));
        }
        lemma_append_cancel_left(namespace + "."@, v1 + ".kt"@, v2 + ".kt"@);
        assert(v1 + ".kt"@ == v2 + ".kt"@);
        assert(v1.len() == v2.len());
        assert forall|k: int| 0 <= k < v1.len() implies v1[k] == v2[k] by {
            assert((v1 + ".kt"@)[k] == v1[k]);
            assert((v2 + ".kt"@)[k] == v2[k]);
        }
        assert(v1 =~= v2);
    }
}

/// Single-target collapse: with multiplatform mode off, every variant lands
/// in the same source-set directory, and still in distinct files, because
/// the file name encodes the variant.
pub proof fn lemma_single_target_collapse(
    out_dir: Seq<char>,
    namespace: Seq<char>,
    v1: Seq<char>,
    v2: Seq<char>,
    pkg: Seq<char>,
)
    requires
        v1 != v2,
    ensures
        bindings_dir_spec(out_dir, v1, false, pkg) == bindings_dir_spec(out_dir, v2, false, pkg),
        bindings_path_spec(out_dir, namespace, v1, false, pkg) != bindings_path_spec(
            out_dir,
            namespace,
            v2,
            false,
            pkg,
        ),
{
    lemma_file_names_distinct(namespace, v1, v2);
    let dir = bindings_dir_spec(out_dir, v1, false, pkg);
    if bindings_path_spec(out_dir, namespace, v1, false, pkg) == bindings_path_spec(
        out_dir,
        namespace,
        v2,
        false,
        pkg,
    ) {
        assert((dir + "/"@ + file_name_spec(namespace, v1)) == ((dir + "/"@) + file_name_spec(
            namespace,
            v1,
        ))) by {
            assert((dir + "/"@ + file_name_spec(namespace, v1)) =~= ((dir + "/"@)
                + file_name_spec(namespace, v1)));
        }
        assert((dir + "/"@ + file_name_spec(namespace, v2)) == ((dir + "/"@) + file_name_spec(
            namespace,
            v2,
        ))) by {
            assert((dir + "/"@ + file_name_spec(namespace, v2)) =~= ((dir + "/"@)
                + file_name_spec(namespace, v2)));
        }
        lemma_append_cancel_left(
            dir + "/"@,
            file_name_spec(namespace, v1),
            file_name_spec(namespace, v2),
        );
    }
}

} // verus!
