//! Resolution of `import from` statements to absolute dotted module
//! paths, including relative-import levels and the package-main special
//! case.

use vstd::prelude::*;

verus! {

use vstd::string::StrSliceExecFns;
use vstd::string::StringExecFns;
use crate::strings::count_char;
use crate::strings::lemma_count_char_bound;
use crate::strings::count_dots;
use crate::strings::concat_dot;
use crate::strings::str_eq;
use crate::strings::str_ends_with;
use crate::strings::str_take;
use crate::module_spec::parent_package_of;
use crate::module_spec::get_parent_package;
use crate::ast::PyAlias;

/// Why an import statement could not be resolved to an absolute module.
#[derive(Debug, PartialEq, Eq, Structural, Clone, Copy)]
pub enum ImportResolutionError {
    /// A relative import asked for more levels than the enclosing package
    /// has segments.
    BeyondTopLevelPackage,
    /// The statement names no module and has no relative level.
    NoAbsoluteModule,
}

/// Number of dot-separated segments of `s` (one more than its dots; the
/// empty path counts as one empty segment).
pub open spec fn segment_count(s: Seq<char>) -> int {
    count_char(s, '.') + 1
}

/// `s` with its last `k` segments removed, one parent step at a time.
pub open spec fn strip_last_segments(s: Seq<char>, k: int) -> Seq<char>
    decreases k,
{
    if k <= 0 {
        s
    } else {
        parent_package_of(strip_last_segments(s, k - 1))
    }
}

/// What a relative import of `name` at `level` resolves to inside
/// `package`: `name` itself at level zero; otherwise the package with
/// `level - 1` trailing segments stripped, extended by `name` when it is
/// non-empty. Fails when the package has fewer segments than the level.
pub open spec fn relative_name_of(name: Seq<char>, package: Seq<char>, level: int) -> Result<
    Seq<char>,
    ImportResolutionError,
> {
    if level == 0 {
        Ok(name)
    } else if segment_count(package) < level {
        Err(ImportResolutionError::BeyondTopLevelPackage)
    } else {
        let base = strip_last_segments(package, level - 1);
        if name.len() > 0 {
            Ok(base + seq!['.'] + name)
        } else {
            Ok(base)
        }
    }
}

/// Resolves a relative import of `name` at `level` inside `package`.
pub fn resolve_relative_name(name: &str, package: &str, level: usize) -> (r: Result<
    String,
    ImportResolutionError,
>)
    ensures
        match relative_name_of(name@, package@, level as int) {
            Ok(t) => r matches Ok(s) && s@ == t,
            Err(e) => r == Err::<String, ImportResolutionError>(e),
        },
{
    if level == 0 {
        return Ok(String::from_str(name));
    }
    let dots = count_dots(package);
    proof {
        lemma_count_char_bound(package@, '.');
    }
    if dots < level - 1 {
        return Err(ImportResolutionError::BeyondTopLevelPackage);
    }
    let mut base = String::from_str(package);
    let mut j: usize = 0;
    while j < level - 1
        invariant
            j <= level - 1,
            base@ == strip_last_segments(package@, j as int),
        decreases level - 1 - j,
    {
        base = get_parent_package(base.as_str());
        j += 1;
    }
    if name.unicode_len() > 0 {
        Ok(concat_dot(base.as_str(), name))
    } else {
        Ok(base)
    }
}

/// The parent package with a trailing `.__main__` segment removed: a
/// module named like the package entry point stands for its package.
pub open spec fn fixed_parent_package(parent: Seq<char>) -> Seq<char> {
    if ".__main__"@.is_suffix_of(parent) {
        parent.take(parent.len() - 9)
    } else {
        parent
    }
}

/// The additional candidate targets a greedy resolution adds: one
/// `target.name` for every imported name other than the wildcard.
pub open spec fn greedy_targets(target: Seq<char>, names: Seq<PyAlias>) -> Seq<Seq<char>>
    decreases names.len(),
{
    if names.len() == 0 {
        Seq::empty()
    } else {
        greedy_targets(target, names.drop_last()) + if names.last().name@ == "*"@ {
            Seq::<Seq<char>>::empty()
        } else {
            seq![target + seq!['.'] + names.last().name@]
        }
    }
}

/// The absolute module paths denoted by a `from module import names`
/// statement with `level` leading dots, seen from `parent`:
/// an explicit module is resolved relative to the fixed parent package;
/// a purely relative import denotes the parent stripped by `level - 1`
/// segments, and greedily also every `target.name` candidate.
pub open spec fn import_from_targets(
    module: Option<Seq<char>>,
    names: Seq<PyAlias>,
    level: int,
    parent: Seq<char>,
    greedy: bool,
) -> Result<Seq<Seq<char>>, ImportResolutionError> {
    let fp = fixed_parent_package(parent);
    match module {
        Some(m) => match relative_name_of(m, fp, level) {
            Ok(t) => Ok(seq![t]),
            Err(e) => Err(e),
        },
        None => {
            if level == 0 {
                Err(ImportResolutionError::NoAbsoluteModule)
            } else {
                let target = strip_last_segments(fp, level - 1);
                if greedy {
                    Ok(seq![target] + greedy_targets(target, names))
                } else {
                    Ok(seq![target])
                }
            }
        },
    }
}

/// Strips a trailing `.__main__` from `parent`.
fn fix_parent_package(parent: &str) -> (r: String)
    ensures
        r@ == fixed_parent_package(parent@),
{
    proof {
        reveal_strlit(".__main__");
    }
    if str_ends_with(parent, ".__main__") {
        let len = parent.unicode_len();
        String::from_str(str_take(parent, len - 9))
    } else {
        String::from_str(parent)
    }
}

/// Spec-level view of what `get_import_from_absolute_module_spec`
/// returns on the statement fields it is given.
pub open spec fn import_from_targets_of(
    module: Option<String>,
    names: Seq<PyAlias>,
    level: u32,
    parent: Seq<char>,
    greedy: bool,
) -> Result<Seq<Seq<char>>, ImportResolutionError> {
    import_from_targets(
        match module {
            Some(m) => Some(m@),
            None => None,
        },
        names,
        level as int,
        parent,
        greedy,
    )
}

/// Computes the absolute module paths denoted by a `from ... import ...`
/// statement (its `module`, `names` and `level` fields), seen from
/// `parent_package`. Greedy resolution also returns each `target.name`
/// candidate, since an imported name may itself be a submodule.
pub fn get_import_from_absolute_module_spec(
    module: &Option<String>,
    names: &Vec<PyAlias>,
    level: u32,
    parent_package: &str,
    greedy: bool,
) -> (r: Result<Vec<String>, ImportResolutionError>)
    ensures
        match import_from_targets_of(*module, names@, level, parent_package@, greedy) {
            Ok(ts) => r matches Ok(v) && v.deep_view() == ts,
            Err(e) => r == Err::<Vec<String>, ImportResolutionError>(e),
        },
{
    let fp = fix_parent_package(parent_package);
    match module {
        Some(m) => {
            match resolve_relative_name(m.as_str(), fp.as_str(), level as usize) {
                Ok(t) => {
                    let mut out: Vec<String> = Vec::new();
                    out.push(t);
                    proof {
                        assert(out.deep_view() =~~= seq![
                            relative_name_of(m@, fixed_parent_package(parent_package@), level as int).unwrap(),
                        ]);
                    }
                    Ok(out)
                },
                Err(e) => Err(e),
            }
        },
        None => {
            if level == 0 {
                return Err(ImportResolutionError::NoAbsoluteModule);
            }
            let mut target = fp;
            let mut j: usize = 0;
            while j < (level as usize) - 1
                invariant
                    j <= level - 1,
                    target@ == strip_last_segments(
                        fixed_parent_package(parent_package@),
                        j as int,
                    ),
                decreases level - j,
            {
                target = get_parent_package(target.as_str());
                j += 1;
            }
            let ghost starget = strip_last_segments(
                fixed_parent_package(parent_package@),
                level - 1,
            );
            let mut out: Vec<String> = Vec::new();
            out.push(target.clone());
            if greedy {
                proof {
                    assert(out.deep_view() =~~= seq![starget] + greedy_targets(
                        starget,
                        names@.take(0),
                    ));
                }
                let mut i: usize = 0;
                while i < names.len()
                    invariant
                        i <= names.len(),
                        target@ == starget,
                        out.deep_view() == seq![starget] + greedy_targets(
                            starget,
                            names@.take(i as int),
                        ),
                    decreases names.len() - i,
                {
                    proof {
                        assert(names@.take(i + 1).drop_last() =~= names@.take(i as int));
                        assert(names@.take(i + 1).last() == names@[i as int]);
                    }
                    let ghost old_deep = out.deep_view();
                    let name = &names[i];
                    if !str_eq(name.name.as_str(), "*") {
                        let appended = concat_dot(target.as_str(), name.name.as_str());
                        assert(appended@ == starget + seq!['.'] + names@[i as int].name@);
                        out.push(appended);
                        proof {
                            assert(out.deep_view() =~~= old_deep + seq![
                                starget + seq!['.'] + names@[i as int].name@,
                            ]);
                            assert(greedy_targets(starget, names@.take(i + 1))
                                == greedy_targets(starget, names@.take(i as int)) + seq![
                                starget + seq!['.'] + names@[i as int].name@,
                            ]);
                        }
                    } else {
                        proof {
                            assert(names@[i as int].name@ == "*"@);
                            assert(greedy_targets(starget, names@.take(i + 1)) =~~= greedy_targets(
                                starget,
                                names@.take(i as int),
                            ));
                        }
                    }
                    proof {
                        assert(out.deep_view() =~~= seq![starget] + greedy_targets(
                            starget,
                            names@.take(i + 1),
                        ));
                    }
                    i += 1;
                }
                proof {
                    assert(names@.take(names@.len() as int) =~= names@);
                }
            }
            proof {
                assert(out.deep_view() =~~= import_from_targets_of(
                    *module,
                    names@,
                    level,
                    parent_package@,
                    greedy,
                ).unwrap());
            }
            Ok(out)
        },
    }
}

} // verus!
