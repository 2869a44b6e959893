//! Emission dispatch: routing the text blobs generated for one component to
//! their destinations. The result is a plan of file writes; carrying it out,
//! and the best-effort formatting pass afterwards, is the caller's I/O.

use vstd::prelude::*;

use crate::config::Config;
use crate::link::{effective_package, effective_package_name, GenerationSettings, InterfaceDescription};
use crate::paths::{
    bindings_destination, bindings_dir_spec, bindings_path_spec, cinterop_destination,
    header_dir_spec, header_path_spec,
};

verus! {

use vstd::string::StringExecFns;

/// The generated text for one component, one optional blob per variant: the
/// mandatory shared core, the platform variants, a stub for unsupported
/// platforms, and a native-interop header.
pub struct Bindings {
    pub common: String,
    pub jvm: Option<String>,
    pub android: Option<String>,
    pub native: Option<String>,
    pub stub: Option<String>,
    pub header: Option<String>,
}

/// One pending file write: the directory to create, the file path inside
/// it, and the content to write there.
pub struct WriteAction {
    pub dir: String,
    pub path: String,
    pub content: String,
}

/// The abstract value of a write action.
pub open spec fn action_view(a: WriteAction) -> (Seq<char>, Seq<char>, Seq<char>) {
    (a.dir@, a.path@, a.content@)
}

/// The abstract value of a plan: each action's directory, path and content.
pub open spec fn actions_view(s: Seq<WriteAction>) -> Seq<(Seq<char>, Seq<char>, Seq<char>)> {
    s.map_values(|a: WriteAction| action_view(a))
}

/// The write a present variant blob contributes; an absent blob contributes
/// nothing.
pub open spec fn variant_writes(
    out_dir: Seq<char>,
    ns: Seq<char>,
    pkg: Seq<char>,
    multi: bool,
    variant: Seq<char>,
    blob: Option<String>,
) -> Seq<(Seq<char>, Seq<char>, Seq<char>)> {
    match blob {
        Some(c) => seq![
            (
                bindings_dir_spec(out_dir, variant, multi, pkg),
                bindings_path_spec(out_dir, ns, variant, multi, pkg),
                c@,
            ),
        ],
        None => Seq::empty(),
    }
}

/// Every write one component's bundle calls for, in emission order: the
/// mandatory common blob, then each present platform blob, then the header,
/// which goes to its own namespace-keyed tree. Which files are written is a
/// function of the bundle and of (output root, namespace, package name,
/// multiplatform flag) alone; the formatting switch plays no part in it.
pub open spec fn planned_writes(
    out_dir: Seq<char>,
    ns: Seq<char>,
    pkg: Seq<char>,
    multi: bool,
    b: Bindings,
) -> Seq<(Seq<char>, Seq<char>, Seq<char>)> {
    seq![
        (
            bindings_dir_spec(out_dir, "common"@, multi, pkg),
            bindings_path_spec(out_dir, ns, "common"@, multi, pkg),
            b.common@,
        ),
    ] + variant_writes(out_dir, ns, pkg, multi, "jvm"@, b.jvm) + variant_writes(
        out_dir,
        ns,
        pkg,
        multi,
        "android"@,
        b.android,
    ) + variant_writes(out_dir, ns, pkg, multi, "native"@, b.native) + variant_writes(
        out_dir,
        ns,
        pkg,
        multi,
        "stub"@,
        b.stub,
    ) + (match b.header {
        Some(h) => seq![(header_dir_spec(out_dir, ns), header_path_spec(out_dir, ns), h@)],
        None => Seq::empty(),
    })
}

/// Routes every present blob of one component's bundle to its destination.
/// The plan is the same whether or not formatting is later attempted, and
/// carries each blob's content unchanged.
pub fn plan_component_writes(
    settings: &GenerationSettings,
    ci: &InterfaceDescription,
    config: &Config,
    bindings: Bindings,
) -> (r: Vec<WriteAction>)
    ensures
        actions_view(r@) == planned_writes(
            settings.out_dir@,
            ci.namespace@,
            effective_package(*config, ci.namespace@),
            config.kotlin_multiplatform,
            bindings,
        ),
{
    let pkg = effective_package_name(config, &ci.namespace);
    let multi = config.kotlin_multiplatform;
    let mut out: Vec<WriteAction> = Vec::new();

    let (dir, path) = bindings_destination(&settings.out_dir, &ci.namespace, "common", multi, &pkg);
    out.push(WriteAction { dir, path, content: bindings.common });

    if let Some(jvm) = bindings.jvm {
        let (dir, path) = bindings_destination(&settings.out_dir, &ci.namespace, "jvm", multi, &pkg);
        out.push(WriteAction { dir, path, content: jvm });
    }
    if let Some(android) = bindings.android {
        let (dir, path) = bindings_destination(
            &settings.out_dir,
            &ci.namespace,
            "android",
            multi,
            &pkg,
        );
        out.push(WriteAction { dir, path, content: android });
    }
    if let Some(native) = bindings.native {
        let (dir, path) = bindings_destination(
            &settings.out_dir,
            &ci.namespace,
            "native",
            multi,
            &pkg,
        );
        out.push(WriteAction { dir, path, content: native });
    }
    if let Some(stub) = bindings.stub {
        let (dir, path) = bindings_destination(
            &settings.out_dir,
            &ci.namespace,
            "stub",
            multi,
            &pkg,
        );
        out.push(WriteAction { dir, path, content: stub });
    }
    if let Some(header) = bindings.header {
        let (dir, path) = cinterop_destination(&settings.out_dir, &ci.namespace);
        out.push(WriteAction { dir, path, content: header });
    }
    proof {
        assert(actions_view(out@) =~= planned_writes(
            settings.out_dir@,
            ci.namespace@,
            effective_package(*config, ci.namespace@),
            config.kotlin_multiplatform,
            bindings,
        ));
    }
    out
}

/// Downgrades the outcome of a formatter invocation: success yields nothing,
/// and a failure yields a warning diagnostic, never an error. Formatting is
/// cosmetic; a missing or failing formatter must not fail the run, and the
/// planned writes above do not depend on it.
pub fn format_diagnostic(outcome: Result<(), String>, file_name: &String) -> (r: Option<String>)
    ensures
        match outcome {
            Ok(_) => r is None,
            Err(detail) => match r {
                Some(w) => w@ == "Warning: Unable to auto-format "@ + file_name@
                    + " using ktlint: "@ + detail@,
                None => false,
            },
        },
{
    match outcome {
        Ok(_) => None,
        Err(detail) => {
            let mut w = "Warning: Unable to auto-format ".to_owned();
            w.append(file_name.as_str());
            w.append(" using ktlint: ");
            w.append(detail.as_str());
            Some(w)
        },
    }
}

} // verus!
