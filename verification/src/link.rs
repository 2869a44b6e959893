//! Cross-component linking: defaulting package and artifact names, then
//! injecting into every component's external package map an entry for every
//! *other* component of the build, never overwriting an explicit entry.

use vstd::prelude::*;

use crate::config::{Config, PackageMap, map_of};
use crate::KotlinBindingGenerator;

verus! {

use vstd::string::StringExecFns;

/// The interface description of one component, as far as this layer reads
/// it: the namespace naming the component, and the crate name identifying
/// its native library.
pub struct InterfaceDescription {
    pub namespace: String,
    pub crate_name: String,
}

/// Build-wide settings handed down by the invoking build tool.
pub struct GenerationSettings {
    pub out_dir: String,
    pub try_format_code: bool,
    pub cdylib: Option<String>,
}

/// One component of a build: its interface description and its resolved
/// configuration.
pub struct Component {
    pub ci: InterfaceDescription,
    pub config: Config,
}

/// The package name a component's bindings are emitted under: the explicit
/// choice when one was made, a namespace-derived default otherwise.
pub open spec fn effective_package(c: Config, namespace: Seq<char>) -> Seq<char> {
    match c.package_name {
        Some(p) => p@,
        None => "uniffi."@ + namespace,
    }
}

/// The native artifact name of a component: explicit, else the build-wide
/// name, else a namespace-derived default.
pub open spec fn effective_cdylib(
    c: Config,
    build_cdylib: Option<String>,
    namespace: Seq<char>,
) -> Seq<char> {
    match c.cdylib_name {
        Some(d) => d@,
        None => match build_cdylib {
            Some(s) => s@,
            None => "uniffi_"@ + namespace,
        },
    }
}

/// The total mapping from every component's crate name to its effective
/// package name. A repeated crate name keeps its first binding.
pub open spec fn packages_map(cs: Seq<Component>) -> Map<Seq<char>, Seq<char>>
    decreases cs.len(),
{
    if cs.len() == 0 {
        Map::empty()
    } else {
        let m = packages_map(cs.drop_last());
        let c = cs.last();
        if m.contains_key(c.ci.crate_name@) {
            m
        } else {
            m.insert(c.ci.crate_name@, effective_package(c.config, c.ci.namespace@))
        }
    }
}

/// A component's external package map after linking: its own explicit
/// entries, untouched, plus an inferred entry for every crate name of the
/// build other than its own.
pub open spec fn linked_externals(
    own_entries: Map<Seq<char>, Seq<char>>,
    own_crate: Seq<char>,
    pkgs: Map<Seq<char>, Seq<char>>,
) -> Map<Seq<char>, Seq<char>> {
    Map::new(
        |k: Seq<char>| own_entries.contains_key(k) || (pkgs.contains_key(k) && k != own_crate),
        |k: Seq<char>|
            if own_entries.contains_key(k) {
                own_entries[k]
            } else {
                pkgs[k]
            },
    )
}

/// Component `c1` is `c0` with its package and artifact names resolved and
/// its interface, flag and target list untouched.
pub open spec fn names_resolved(c0: Component, c1: Component, build_cdylib: Option<String>) -> bool {
    &&& c1.ci == c0.ci
    &&& c1.config.kotlin_multiplatform == c0.config.kotlin_multiplatform
    &&& c1.config.kotlin_targets == c0.config.kotlin_targets
    &&& (match c1.config.package_name {
        Some(p) => p@ == effective_package(c0.config, c0.ci.namespace@),
        None => false,
    })
    &&& (match c1.config.cdylib_name {
        Some(d) => d@ == effective_cdylib(c0.config, build_cdylib, c0.ci.namespace@),
        None => false,
    })
}

/// What linking must leave in a component, given the components as they all
/// stood before linking.
pub open spec fn linked_component(
    c0: Component,
    c1: Component,
    cs0: Seq<Component>,
    build_cdylib: Option<String>,
) -> bool {
    &&& names_resolved(c0, c1, build_cdylib)
    &&& c1.config.external_packages.wf()
    &&& c1.config.external_packages@ == linked_externals(
        c0.config.external_packages@,
        c0.ci.crate_name@,
        packages_map(cs0),
    )
}

proof fn lemma_linked_step(
    o: Map<Seq<char>, Seq<char>>,
    own: Seq<char>,
    m: Map<Seq<char>, Seq<char>>,
    k: Seq<char>,
    v: Seq<char>,
)
    requires
        !m.contains_key(k),
    ensures
        linked_externals(o, own, m.insert(k, v)) == if k != own && !o.contains_key(k) {
            linked_externals(o, own, m).insert(k, v)
        } else {
            linked_externals(o, own, m)
        },
{
    if k != own && !o.contains_key(k) {
        assert(linked_externals(o, own, m.insert(k, v)) =~= linked_externals(o, own, m).insert(
            k,
            v,
        ));
    } else {
        assert(linked_externals(o, own, m.insert(k, v)) =~= linked_externals(o, own, m));
    }
}

/// Linker non-overwrite: an explicit entry of a component's external
/// package map survives linking with its value untouched, whatever package
/// name the named component actually resolved to.
pub proof fn lemma_linker_preserves_explicit(
    c0: Component,
    c1: Component,
    cs0: Seq<Component>,
    build_cdylib: Option<String>,
    k: Seq<char>,
)
    requires
        linked_component(c0, c1, cs0, build_cdylib),
        c0.config.external_packages@.contains_key(k),
    ensures
        c1.config.external_packages@.contains_key(k),
        c1.config.external_packages@[k] == c0.config.external_packages@[k],
{
}

/// Crate names are pairwise distinct across the build.
pub open spec fn distinct_crates(cs: Seq<Component>) -> bool {
    forall|i: int, j: int|
        0 <= i < j < cs.len() ==> (#[trigger] cs[i]).ci.crate_name@ != (
        #[trigger] cs[j]).ci.crate_name@
}

proof fn lemma_packages_map_props(cs: Seq<Component>)
    requires
        distinct_crates(cs),
    ensures
        packages_map(cs).dom().finite(),
        packages_map(cs).len() == cs.len(),
        forall|j: int|
            0 <= j < cs.len() ==> packages_map(cs).contains_key(
                (#[trigger] cs[j]).ci.crate_name@,
            ) && packages_map(cs)[cs[j].ci.crate_name@] == effective_package(
                cs[j].config,
                cs[j].ci.namespace@,
            ),
        forall|k: Seq<char>|
            packages_map(cs).contains_key(k) ==> exists|j: int|
                0 <= j < cs.len() && (#[trigger] cs[j]).ci.crate_name@ == k,
    decreases cs.len(),
{
    if cs.len() > 0 {
        let pre = cs.drop_last();
        assert(forall|j: int| 0 <= j < pre.len() ==> pre[j] == cs[j]);
        lemma_packages_map_props(pre);
        let last = cs.last();
        if packages_map(pre).contains_key(last.ci.crate_name@) {
            let j = choose|j: int|
                0 <= j < pre.len() && (#[trigger] pre[j]).ci.crate_name@ == last.ci.crate_name@;
            assert(cs[j].ci.crate_name@ == cs[cs.len() - 1].ci.crate_name@);
            assert(false);
        }
        vstd::set::axiom_set_insert_len(packages_map(pre).dom(), last.ci.crate_name@);
        vstd::set::axiom_set_insert_finite(packages_map(pre).dom(), last.ci.crate_name@);
        assert(packages_map(cs).dom() =~= packages_map(pre).dom().insert(last.ci.crate_name@));
        assert forall|k: Seq<char>| packages_map(cs).contains_key(k) implies exists|j: int|
            0 <= j < cs.len() && (#[trigger] cs[j]).ci.crate_name@ == k by {
            if k == last.ci.crate_name@ {
                assert(cs[cs.len() - 1].ci.crate_name@ == k);
            } else {
                let j = choose|j: int|
                    0 <= j < pre.len() && (#[trigger] pre[j]).ci.crate_name@ == k;
                assert(cs[j].ci.crate_name@ == k);
            }
        }
    }
}

/// Linker completeness: after linking components with pairwise-distinct
/// crate names and no explicit overrides, every component's external
/// package map holds exactly one entry per *other* component, mapping that
/// component's crate name to its effective package name, and no entry for
/// itself.
pub proof fn lemma_linker_completeness(
    cs0: Seq<Component>,
    cs1: Seq<Component>,
    build_cdylib: Option<String>,
    i: int,
)
    requires
        0 <= i < cs0.len(),
        cs1.len() == cs0.len(),
        distinct_crates(cs0),
        forall|j: int|
            0 <= j < cs0.len() ==> (#[trigger] cs0[j]).config.external_packages@ == Map::<
                Seq<char>,
                Seq<char>,
            >::empty(),
        forall|j: int|
            0 <= j < cs0.len() ==> linked_component(
                cs0[j],
                #[trigger] cs1[j],
                cs0,
                build_cdylib,
            ),
    ensures
        cs1[i].config.external_packages@.len() == cs0.len() - 1,
        !cs1[i].config.external_packages@.contains_key(cs0[i].ci.crate_name@),
        forall|j: int|
            0 <= j < cs0.len() && j != i ==> cs1[i].config.external_packages@.contains_key(
                (#[trigger] cs0[j]).ci.crate_name@,
            ) && cs1[i].config.external_packages@[cs0[j].ci.crate_name@] == effective_package(
                cs0[j].config,
                cs0[j].ci.namespace@,
            ),
{
    lemma_packages_map_props(cs0);
    let pkgs = packages_map(cs0);
    let own = cs0[i].ci.crate_name@;
    let linked = cs1[i].config.external_packages@;
    assert(linked == linked_externals(Map::<Seq<char>, Seq<char>>::empty(), own, pkgs));
    assert(linked.dom() =~= pkgs.dom().remove(own));
    vstd::set::axiom_set_remove_len(pkgs.dom(), own);
    assert(pkgs.contains_key(own));
    assert(linked.len() == pkgs.len() - 1);
    assert forall|j: int|
        0 <= j < cs0.len() && j != i implies linked.contains_key(
        (#[trigger] cs0[j]).ci.crate_name@,
    ) && linked[cs0[j].ci.crate_name@] == effective_package(
        cs0[j].config,
        cs0[j].ci.namespace@,
    ) by {
        if i < j {
            assert(cs0[i].ci.crate_name@ != cs0[j].ci.crate_name@);
        } else {
            assert(cs0[j].ci.crate_name@ != cs0[i].ci.crate_name@);
        }
    }
}

/// The effective package name of a component is the same before and after
/// linking: every consumer that asks, at either time, gets one answer.
pub proof fn lemma_effective_package_stable(
    c0: Component,
    c1: Component,
    cs0: Seq<Component>,
    build_cdylib: Option<String>,
)
    requires
        linked_component(c0, c1, cs0, build_cdylib),
    ensures
        effective_package(c1.config, c1.ci.namespace@) == effective_package(
            c0.config,
            c0.ci.namespace@,
        ),
{
}

/// Computes the package name a component's bindings are emitted under.
pub fn effective_package_name(config: &Config, namespace: &String) -> (r: String)
    ensures
        r@ == effective_package(*config, namespace@),
{
    match &config.package_name {
        Some(p) => p.clone(),
        None => {
            let mut d = "uniffi.".to_owned();
            d.append(namespace.as_str());
            d
        },
    }
}

impl KotlinBindingGenerator {
    /// Links the components of one build: defaults every missing package and
    /// artifact name, then gives every component an external package entry
    /// for every other component's crate name. Explicit entries are never
    /// overwritten.
    pub fn update_component_configs(
        &self,
        settings: &GenerationSettings,
        components: &mut Vec<Component>,
    )
        requires
            forall|i: int|
                0 <= i < old(components)@.len() ==> (#[trigger] old(
                    components,
                )@[i]).config.external_packages.wf(),
        ensures
            final(components)@.len() == old(components)@.len(),
            forall|i: int|
                0 <= i < old(components)@.len() ==> linked_component(
                    old(components)@[i],
                    #[trigger] final(components)@[i],
                    old(components)@,
                    settings.cdylib,
                ),
    {
        let ghost cs0 = components@;
        let n = components.len();

        let mut i: usize = 0;
        while i < n
            invariant
                n == components@.len(),
                cs0.len() == n,
                i <= n,
                forall|j: int| i <= j < n ==> components@[j] == cs0[j],
                forall|j: int|
                    0 <= j < i ==> names_resolved(
                        cs0[j],
                        #[trigger] components@[j],
                        settings.cdylib,
                    ),
                forall|j: int|
                    0 <= j < i ==> (#[trigger] components@[j]).config.external_packages
                        == cs0[j].config.external_packages,
            decreases n - i,
        {
            if components[i].config.package_name.is_none() {
                let mut p = "uniffi.".to_owned();
                p.append(components[i].ci.namespace.as_str());
                components[i].config.package_name = Some(p);
            }
            if components[i].config.cdylib_name.is_none() {
                let d: String = match &settings.cdylib {
                    Some(s) => s.clone(),
                    None => {
                        let mut d = "uniffi_".to_owned();
                        d.append(components[i].ci.namespace.as_str());
                        d
                    },
                };
                components[i].config.cdylib_name = Some(d);
            }
            i += 1;
        }

        let mut packages = PackageMap::new();
        let mut i: usize = 0;
        while i < n
            invariant
                n == components@.len(),
                cs0.len() == n,
                i <= n,
                forall|j: int|
                    0 <= j < n ==> names_resolved(
                        cs0[j],
                        #[trigger] components@[j],
                        settings.cdylib,
                    ),
                forall|j: int|
                    0 <= j < n ==> (#[trigger] components@[j]).config.external_packages
                        == cs0[j].config.external_packages,
                packages.wf(),
                packages@ == packages_map(cs0.take(i as int)),
            decreases n - i,
        {
            let key = components[i].ci.crate_name.clone();
            let value: String = match &components[i].config.package_name {
                Some(p) => p.clone(),
                None => String::new(),
            };
            packages.insert_if_absent(key, value);
            proof {
                assert(cs0.take(i + 1).drop_last() =~= cs0.take(i as int));
                assert(cs0.take(i + 1).last() == cs0[i as int]);
            }
            i += 1;
        }
        proof {
            assert(cs0.take(n as int) =~= cs0);
        }

        let m = packages.len();
        let mut i: usize = 0;
        while i < n
            invariant
                n == components@.len(),
                cs0.len() == n,
                i <= n,
                packages.wf(),
                m == packages.entries@.len(),
                packages@ == packages_map(cs0),
                forall|j: int|
                    0 <= j < n ==> (#[trigger] cs0[j]).config.external_packages.wf(),
                forall|j: int|
                    0 <= j < n ==> names_resolved(
                        cs0[j],
                        #[trigger] components@[j],
                        settings.cdylib,
                    ),
                forall|j: int|
                    i <= j < n ==> (#[trigger] components@[j]).config.external_packages
                        == cs0[j].config.external_packages,
                forall|j: int|
                    0 <= j < i ==> linked_component(
                        cs0[j],
                        #[trigger] components@[j],
                        cs0,
                        settings.cdylib,
                    ),
            decreases n - i,
        {
            let ghost snap = components@;
            proof {
                assert(packages.entries@.take(0) =~= Seq::<(String, String)>::empty());
                assert(linked_externals(
                    cs0[i as int].config.external_packages@,
                    cs0[i as int].ci.crate_name@,
                    map_of(packages.entries@.take(0)),
                ) =~= cs0[i as int].config.external_packages@);
            }
            let mut j: usize = 0;
            while j < m
                invariant
                    n == components@.len(),
                    cs0.len() == n,
                    snap.len() == n,
                    i < n,
                    j <= m,
                    packages.wf(),
                    m == packages.entries@.len(),
                    forall|l: int| 0 <= l < n && l != i ==> components@[l] == snap[l],
                    components@[i as int].ci == snap[i as int].ci,
                    components@[i as int].config.package_name == snap[i as int].config.package_name,
                    components@[i as int].config.cdylib_name == snap[i as int].config.cdylib_name,
                    components@[i as int].config.kotlin_multiplatform == snap[
                        i as int
                    ].config.kotlin_multiplatform,
                    components@[i as int].config.kotlin_targets == snap[
                        i as int
                    ].config.kotlin_targets,
                    snap[i as int].ci == cs0[i as int].ci,
                    components@[i as int].config.external_packages.wf(),
                    components@[i as int].config.external_packages@ == linked_externals(
                        cs0[i as int].config.external_packages@,
                        cs0[i as int].ci.crate_name@,
                        map_of(packages.entries@.take(j as int)),
                    ),
                decreases m - j,
            {
                let key = packages.entries[j].0.clone();
                let value = packages.entries[j].1.clone();
                proof {
                    assert(packages.entries@.take(j + 1).drop_last() =~= packages.entries@.take(
                        j as int,
                    ));
                    assert(packages.entries@.take(j + 1).last() == packages.entries@[j as int]);
                    assert(forall|l: int|
                        0 <= l < j ==> packages.entries@.take(j as int)[l] == packages.entries@[l]);
                    crate::config::lemma_map_of_contains(packages.entries@.take(j as int), key@);
                    assert(!map_of(packages.entries@.take(j as int)).contains_key(key@));
                    lemma_linked_step(
                        cs0[i as int].config.external_packages@,
                        cs0[i as int].ci.crate_name@,
                        map_of(packages.entries@.take(j as int)),
                        key@,
                        value@,
                    );
                }
                if !key.eq(&components[i].ci.crate_name) {
                    components[i].config.external_packages.insert_if_absent(key, value);
                } else {
                    proof {
                        assert(key@ == cs0[i as int].ci.crate_name@);
                    }
                }
                j += 1;
            }
            proof {
                assert(packages.entries@.take(m as int) =~= packages.entries@);
                assert forall|l: int|
                    0 <= l < n implies names_resolved(
                    cs0[l],
                    #[trigger] components@[l],
                    settings.cdylib,
                ) by {
                    assert(names_resolved(cs0[l], snap[l], settings.cdylib));
                    if l != i {
                        assert(components@[l] == snap[l]);
                    }
                }
                assert forall|l: int|
                    i + 1 <= l < n implies (#[trigger] components@[l]).config.external_packages
                    == cs0[l].config.external_packages by {
                    assert(components@[l] == snap[l]);
                    assert(snap[l].config.external_packages == cs0[l].config.external_packages);
                }
                assert(linked_component(cs0[i as int], components@[i as int], cs0, settings.cdylib));
                assert forall|l: int|
                    0 <= l < i + 1 implies linked_component(
                    cs0[l],
                    #[trigger] components@[l],
                    cs0,
                    settings.cdylib,
                ) by {
                    if l < i {
                        assert(components@[l] == snap[l]);
                        assert(linked_component(cs0[l], snap[l], cs0, settings.cdylib));
                    }
                }
            }
            i += 1;
        }
    }
}

} // verus!
