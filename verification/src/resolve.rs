//! Resolving one raw configuration document into a [`Config`]: the nested
//! `bindings.kotlin` sub-table shadows the document root when present, the
//! recognized keys are read with their expected kinds, and the process-wide
//! multiplatform override is applied last.

use vstd::prelude::*;

use crate::config::{Config, ConfigError, ConfigKotlinTarget, PackageMap};
use crate::doc::{DocTable, DocValue};
use crate::KotlinBindingGenerator;

verus! {

/// The nested configuration source, when the document carries one: the value
/// at `bindings.kotlin`. Its presence fully shadows root-level keys.
pub open spec fn nested_source(root: DocTable) -> Option<DocValue> {
    match root.spec_get("bindings"@) {
        Some(DocValue::Table(b)) => b.spec_get("kotlin"@),
        _ => None,
    }
}

/// The entry list configuration is read from: the nested sub-table when the
/// document has one, the document root otherwise. `Err` means the nested
/// value is not a table.
pub open spec fn source_entries(root: DocTable) -> Result<Seq<(String, DocValue)>, ()> {
    match nested_source(root) {
        Some(DocValue::Table(tb)) => Ok(tb.entries@),
        Some(_) => Err(()),
        None => Ok(root.entries@),
    }
}

/// Whether the optional string key `key` is well-typed in `t`.
pub open spec fn str_key_ok(t: Seq<(String, DocValue)>, key: Seq<char>) -> bool {
    match crate::doc::lookup_spec(t, key) {
        None => true,
        Some(DocValue::Str(_)) => true,
        Some(_) => false,
    }
}

/// The value of the optional string key `key` in `t`.
pub open spec fn str_key_val(t: Seq<(String, DocValue)>, key: Seq<char>) -> Option<Seq<char>> {
    match crate::doc::lookup_spec(t, key) {
        Some(DocValue::Str(s)) => Some(s@),
        _ => None,
    }
}

/// Whether the optional boolean key `key` is well-typed in `t`.
pub open spec fn bool_key_ok(t: Seq<(String, DocValue)>, key: Seq<char>) -> bool {
    match crate::doc::lookup_spec(t, key) {
        None => true,
        Some(DocValue::Bool(_)) => true,
        Some(_) => false,
    }
}

/// The value of the optional boolean key `key` in `t`; absent means `false`.
pub open spec fn bool_key_val(t: Seq<(String, DocValue)>, key: Seq<char>) -> bool {
    match crate::doc::lookup_spec(t, key) {
        Some(DocValue::Bool(b)) => b,
        _ => false,
    }
}

/// The target a configuration string names, if any.
pub open spec fn target_of(s: Seq<char>) -> Option<ConfigKotlinTarget> {
    if s == "jvm"@ {
        Some(ConfigKotlinTarget::Jvm)
    } else if s == "android"@ {
        Some(ConfigKotlinTarget::Android)
    } else if s == "native"@ {
        Some(ConfigKotlinTarget::Native)
    } else {
        None
    }
}

/// The target list an array of document values denotes: every element must
/// be a recognized target name, and repetitions collapse onto the first
/// occurrence. `None` means some element is ill-typed or unrecognized.
pub open spec fn parse_targets(a: Seq<DocValue>) -> Option<Seq<ConfigKotlinTarget>>
    decreases a.len(),
{
    if a.len() == 0 {
        Some(Seq::empty())
    } else {
        match parse_targets(a.drop_last()) {
            None => None,
            Some(ts) => match a.last() {
                DocValue::Str(s) => match target_of(s@) {
                    Some(t) => Some(if ts.contains(t) { ts } else { ts.push(t) }),
                    None => None,
                },
                _ => None,
            },
        }
    }
}

/// The name-to-package map an `external_packages` table denotes: every value
/// must be a string; a repeated key keeps its first binding. `None` means
/// some value is not a string.
pub open spec fn parse_packages(t: Seq<(String, DocValue)>) -> Option<Map<Seq<char>, Seq<char>>>
    decreases t.len(),
{
    if t.len() == 0 {
        Some(Map::empty())
    } else {
        match parse_packages(t.drop_last()) {
            None => None,
            Some(m) => match t.last().1 {
                DocValue::Str(s) => Some(
                    if m.contains_key(t.last().0@) {
                        m
                    } else {
                        m.insert(t.last().0@, s@)
                    },
                ),
                _ => None,
            },
        }
    }
}

/// Whether the optional `kotlin_targets` key of `t` is well-typed.
pub open spec fn targets_key_ok(t: Seq<(String, DocValue)>) -> bool {
    match crate::doc::lookup_spec(t, "kotlin_targets"@) {
        None => true,
        Some(DocValue::Array(a)) => parse_targets(a@) is Some,
        Some(_) => false,
    }
}

/// The target list `t` selects; absent means empty.
pub open spec fn targets_key_val(t: Seq<(String, DocValue)>) -> Seq<ConfigKotlinTarget> {
    match crate::doc::lookup_spec(t, "kotlin_targets"@) {
        Some(DocValue::Array(a)) => match parse_targets(a@) {
            Some(ts) => ts,
            None => Seq::empty(),
        },
        _ => Seq::empty(),
    }
}

/// Whether the optional `external_packages` key of `t` is well-typed.
pub open spec fn packages_key_ok(t: Seq<(String, DocValue)>) -> bool {
    match crate::doc::lookup_spec(t, "external_packages"@) {
        None => true,
        Some(DocValue::Table(tb)) => parse_packages(tb.entries@) is Some,
        Some(_) => false,
    }
}

/// The explicit external package map of `t`; absent means empty.
pub open spec fn packages_key_val(t: Seq<(String, DocValue)>) -> Map<Seq<char>, Seq<char>> {
    match crate::doc::lookup_spec(t, "external_packages"@) {
        Some(DocValue::Table(tb)) => match parse_packages(tb.entries@) {
            Some(m) => m,
            None => Map::empty(),
        },
        _ => Map::empty(),
    }
}

/// All recognized keys of `t` are well-typed.
pub open spec fn table_ok(t: Seq<(String, DocValue)>) -> bool {
    &&& str_key_ok(t, "package_name"@)
    &&& str_key_ok(t, "cdylib_name"@)
    &&& bool_key_ok(t, "kotlin_multiplatform"@)
    &&& targets_key_ok(t)
    &&& packages_key_ok(t)
}

/// The first ill-typed recognized key of `t`, in the order the keys are read.
pub open spec fn offending_key(t: Seq<(String, DocValue)>) -> Seq<char> {
    if !str_key_ok(t, "package_name"@) {
        "package_name"@
    } else if !str_key_ok(t, "cdylib_name"@) {
        "cdylib_name"@
    } else if !bool_key_ok(t, "kotlin_multiplatform"@) {
        "kotlin_multiplatform"@
    } else if !targets_key_ok(t) {
        "kotlin_targets"@
    } else {
        "external_packages"@
    }
}

/// The full default target list, used when the multiplatform override is
/// forced onto a document that selects no targets of its own.
pub open spec fn default_targets() -> Seq<ConfigKotlinTarget> {
    seq![ConfigKotlinTarget::Jvm, ConfigKotlinTarget::Android, ConfigKotlinTarget::Native]
}

/// The target list after the process-wide override: an explicit non-empty
/// choice is preserved verbatim; only a forced run with no choice at all
/// receives the full default set.
pub open spec fn final_targets(doc_targets: Seq<ConfigKotlinTarget>, force: bool) -> Seq<
    ConfigKotlinTarget,
> {
    if force && doc_targets.len() == 0 {
        default_targets()
    } else {
        doc_targets
    }
}

/// What resolving `root` under override flag `force` must produce.
pub open spec fn resolution_ok(
    root: DocTable,
    force: bool,
    r: Result<Config, ConfigError>,
) -> bool {
    match source_entries(root) {
        Err(_) => match r {
            Ok(_) => false,
            Err(e) => e.key@ == "bindings.kotlin"@,
        },
        Ok(t) => if table_ok(t) {
            match r {
                Ok(c) => {
                    &&& c.wf()
                    &&& (match c.package_name {
                        Some(p) => str_key_val(t, "package_name"@) == Some(p@),
                        None => str_key_val(t, "package_name"@) is None,
                    })
                    &&& (match c.cdylib_name {
                        Some(d) => str_key_val(t, "cdylib_name"@) == Some(d@),
                        None => str_key_val(t, "cdylib_name"@) is None,
                    })
                    &&& c.kotlin_multiplatform == (bool_key_val(t, "kotlin_multiplatform"@)
                        || force)
                    &&& c.kotlin_targets@ == final_targets(targets_key_val(t), force)
                    &&& c.external_packages@ == packages_key_val(t)
                },
                Err(_) => false,
            }
        } else {
            match r {
                Ok(_) => false,
                Err(e) => e.key@ == offending_key(t),
            }
        },
    }
}

/// The observable content of a resolved configuration.
pub open spec fn config_abs(c: Config) -> (
    Option<Seq<char>>,
    Option<Seq<char>>,
    bool,
    Seq<ConfigKotlinTarget>,
    Map<Seq<char>, Seq<char>>,
) {
    (
        match c.package_name {
            Some(p) => Some(p@),
            None => None,
        },
        match c.cdylib_name {
            Some(d) => Some(d@),
            None => None,
        },
        c.kotlin_multiplatform,
        c.kotlin_targets@,
        c.external_packages@,
    )
}

/// Shape precedence: a document that carries a nested `bindings.kotlin`
/// sub-tree is resolved from that sub-tree alone. Two documents with the
/// same nested value resolve alike, whatever conflicting keys stand at
/// their roots.
pub proof fn lemma_shape_precedence(
    r1: DocTable,
    r2: DocTable,
    force: bool,
    c1: Result<Config, ConfigError>,
    c2: Result<Config, ConfigError>,
)
    requires
        nested_source(r1) is Some,
        nested_source(r1) == nested_source(r2),
        resolution_ok(r1, force, c1),
        resolution_ok(r2, force, c2),
    ensures
        match (c1, c2) {
            (Ok(a), Ok(b)) => config_abs(a) == config_abs(b),
            (Err(a), Err(b)) => a.key@ == b.key@,
            _ => false,
        },
{
}

/// Override idempotence and explicit preservation: forcing multiplatform
/// mode never narrows or replaces a non-empty target selection; whatever
/// targets the document chose, explicitly, stay exactly as chosen.
pub proof fn lemma_override_preserves_explicit_targets(
    doc_targets: Seq<ConfigKotlinTarget>,
    force: bool,
)
    requires
        doc_targets.len() > 0,
    ensures
        final_targets(doc_targets, force) == doc_targets,
{
}

/// Override default population: forcing multiplatform mode onto a document
/// that selects no targets yields exactly the three default targets, each
/// appearing once.
pub proof fn lemma_override_populates_defaults(doc_targets: Seq<ConfigKotlinTarget>)
    requires
        doc_targets.len() == 0,
    ensures
        final_targets(doc_targets, true) == default_targets(),
        default_targets().len() == 3,
        default_targets().no_duplicates(),
        default_targets().contains(ConfigKotlinTarget::Jvm),
        default_targets().contains(ConfigKotlinTarget::Android),
        default_targets().contains(ConfigKotlinTarget::Native),
{
    assert(default_targets()[0] == ConfigKotlinTarget::Jvm);
    assert(default_targets()[1] == ConfigKotlinTarget::Android);
    assert(default_targets()[2] == ConfigKotlinTarget::Native);
}

proof fn lemma_parse_targets_extend_none(a: Seq<DocValue>, i: int)
    requires
        0 <= i <= a.len(),
        parse_targets(a.take(i)) is None,
    ensures
        parse_targets(a) is None,
    decreases a.len() - i,
{
    if i < a.len() {
        assert(a.take(i + 1).drop_last() =~= a.take(i));
        lemma_parse_targets_extend_none(a, i + 1);
    } else {
        assert(a.take(i) =~= a);
    }
}

proof fn lemma_parse_packages_extend_none(t: Seq<(String, DocValue)>, i: int)
    requires
        0 <= i <= t.len(),
        parse_packages(t.take(i)) is None,
    ensures
        parse_packages(t) is None,
    decreases t.len() - i,
{
    if i < t.len() {
        assert(t.take(i + 1).drop_last() =~= t.take(i));
        lemma_parse_packages_extend_none(t, i + 1);
    } else {
        assert(t.take(i) =~= t);
    }
}

fn targets_contain(v: &Vec<ConfigKotlinTarget>, t: ConfigKotlinTarget) -> (r: bool)
    ensures
        r == v@.contains(t),
{
    let n = v.len();
    let mut i: usize = 0;
    while i < n
        invariant
            n == v@.len(),
            i <= n,
            forall|j: int| 0 <= j < i ==> v@[j] != t,
        decreases n - i,
    {
        if v[i] == t {
            assert(v@[i as int] == t);
            return true;
        }
        i += 1;
    }
    false
}

/// Reads a `kotlin_targets` array, collapsing repetitions onto the first
/// occurrence of each target.
fn read_targets(a: &Vec<DocValue>) -> (r: Result<Vec<ConfigKotlinTarget>, ConfigError>)
    ensures
        match r {
            Ok(ts) => parse_targets(a@) == Some(ts@) && ts@.no_duplicates(),
            Err(e) => parse_targets(a@) is None && e.key@ == "kotlin_targets"@,
        },
{
    let n = a.len();
    let mut out: Vec<ConfigKotlinTarget> = Vec::new();
    let mut i: usize = 0;
    while i < n
        invariant
            n == a@.len(),
            i <= n,
            parse_targets(a@.take(i as int)) == Some(out@),
            out@.no_duplicates(),
        decreases n - i,
    {
        proof {
            assert(a@.take(i + 1).drop_last() =~= a@.take(i as int));
            assert(a@.take(i + 1).last() == a@[i as int]);
        }
        match &a[i] {
            DocValue::Str(s) => {
                let t: ConfigKotlinTarget = if s.eq(&"jvm".to_owned()) {
                    ConfigKotlinTarget::Jvm
                } else if s.eq(&"android".to_owned()) {
                    ConfigKotlinTarget::Android
                } else if s.eq(&"native".to_owned()) {
                    ConfigKotlinTarget::Native
                } else {
                    proof {
                        lemma_parse_targets_extend_none(a@, i + 1);
                    }
                    return Err(ConfigError { key: "kotlin_targets".to_owned() });
                };
                assert(target_of(s@) == Some(t));
                if !targets_contain(&out, t) {
                    out.push(t);
                }
            },
            _ => {
                proof {
                    lemma_parse_targets_extend_none(a@, i + 1);
                }
                return Err(ConfigError { key: "kotlin_targets".to_owned() });
            },
        }
        i += 1;
    }
    proof {
        assert(a@.take(n as int) =~= a@);
    }
    Ok(out)
}

/// Reads an `external_packages` table; a repeated key keeps its first binding.
fn read_packages(t: &DocTable) -> (r: Result<PackageMap, ConfigError>)
    ensures
        match r {
            Ok(m) => parse_packages(t.entries@) == Some(m@) && m.wf(),
            Err(e) => parse_packages(t.entries@) is None && e.key@ == "external_packages"@,
        },
{
    let n = t.entries.len();
    let mut out = PackageMap::new();
    let mut i: usize = 0;
    while i < n
        invariant
            n == t.entries@.len(),
            i <= n,
            parse_packages(t.entries@.take(i as int)) == Some(out@),
            out.wf(),
        decreases n - i,
    {
        proof {
            assert(t.entries@.take(i + 1).drop_last() =~= t.entries@.take(i as int));
            assert(t.entries@.take(i + 1).last() == t.entries@[i as int]);
        }
        match &t.entries[i].1 {
            DocValue::Str(s) => {
                out.insert_if_absent(t.entries[i].0.clone(), s.clone());
            },
            _ => {
                proof {
                    lemma_parse_packages_extend_none(t.entries@, i + 1);
                }
                return Err(ConfigError { key: "external_packages".to_owned() });
            },
        }
        i += 1;
    }
    proof {
        assert(t.entries@.take(n as int) =~= t.entries@);
    }
    Ok(out)
}

impl KotlinBindingGenerator {
    /// Resolves one raw configuration document. A `bindings.kotlin` sub-table,
    /// when present, fully shadows root-level keys; unrecognized keys are
    /// ignored; an ill-typed recognized key is reported by name. When the
    /// multiplatform override is set, the resolved configuration has the flag
    /// enabled and, if the document selected no targets, the full default
    /// target list.
    pub fn new_config(&self, root: &DocTable) -> (r: Result<Config, ConfigError>)
        ensures
            resolution_ok(*root, self.force_multiplatform, r),
    {
        let nested: Option<&DocValue> = match root.get(&"bindings".to_owned()) {
            Some(DocValue::Table(b)) => b.get(&"kotlin".to_owned()),
            _ => None,
        };
        let source: &DocTable = match nested {
            Some(DocValue::Table(tb)) => tb,
            Some(_) => {
                return Err(ConfigError { key: "bindings.kotlin".to_owned() });
            },
            None => root,
        };

        let package_name: Option<String> = match source.get(&"package_name".to_owned()) {
            None => None,
            Some(DocValue::Str(s)) => Some(s.clone()),
            Some(_) => {
                return Err(ConfigError { key: "package_name".to_owned() });
            },
        };
        let cdylib_name: Option<String> = match source.get(&"cdylib_name".to_owned()) {
            None => None,
            Some(DocValue::Str(s)) => Some(s.clone()),
            Some(_) => {
                return Err(ConfigError { key: "cdylib_name".to_owned() });
            },
        };
        let kotlin_multiplatform: bool = match source.get(&"kotlin_multiplatform".to_owned()) {
            None => false,
            Some(DocValue::Bool(b)) => *b,
            Some(_) => {
                return Err(ConfigError { key: "kotlin_multiplatform".to_owned() });
            },
        };
        let kotlin_targets: Vec<ConfigKotlinTarget> = match source.get(
            &"kotlin_targets".to_owned(),
        ) {
            None => Vec::new(),
            Some(DocValue::Array(a)) => match read_targets(a) {
                Ok(ts) => ts,
                Err(e) => {
                    return Err(e);
                },
            },
            Some(_) => {
                return Err(ConfigError { key: "kotlin_targets".to_owned() });
            },
        };
        let external_packages: PackageMap = match source.get(&"external_packages".to_owned()) {
            None => PackageMap::new(),
            Some(DocValue::Table(tb)) => match read_packages(tb) {
                Ok(m) => m,
                Err(e) => {
                    return Err(e);
                },
            },
            Some(_) => {
                return Err(ConfigError { key: "external_packages".to_owned() });
            },
        };

        let mut config = Config {
            package_name,
            cdylib_name,
            kotlin_multiplatform,
            kotlin_targets,
            external_packages,
        };
        if self.force_multiplatform {
            config.kotlin_multiplatform = true;
            if config.kotlin_targets.len() == 0 {
                config.kotlin_targets = vec![
                    ConfigKotlinTarget::Jvm,
                    ConfigKotlinTarget::Android,
                    ConfigKotlinTarget::Native,
                ];
            }
        }
        Ok(config)
    }
}

} // verus!

