//! Decisions of the vendoring rewrite: which imported module paths get
//! the vendor prefix, how an un-aliased dotted import is re-bound, which
//! chain prefixes and annotation strings must be re-routed, and which
//! synthesized imports a rewritten body still needs. The cosmetic tree
//! walk that applies these decisions lives with the driver.

use vstd::prelude::*;

verus! {

use vstd::string::StrSliceExecFns;
use vstd::string::StringExecFns;
use crate::strings::concat_dot;
use crate::strings::concat_str;
use crate::strings::contains_char;
use crate::strings::contains_dot;
use crate::strings::str_eq;
use crate::strings::str_skip;
use crate::strings::str_starts_with;
use crate::strings::str_take;
use crate::ast::PyStmt;
use crate::ast::PyStmtKind;
use crate::module_spec::in_std_lib;
use crate::module_spec::is_in_std_lib;
use crate::tables::StrSet;

/// `s` with every `.` replaced by `_`: the local name a sanitized
/// dotted import is bound to.
pub open spec fn underscored(s: Seq<char>) -> Seq<char> {
    s.map_values(
        |c: char|
            if c == '.' {
                '_'
            } else {
                c
            },
    )
}

/// The proper dotted prefixes of `s` up to index `i`: one for every `.`
/// before `i`, in increasing length.
pub open spec fn dotted_prefixes_upto(s: Seq<char>, i: int) -> Seq<Seq<char>>
    decreases i,
{
    if i <= 0 {
        Seq::empty()
    } else {
        dotted_prefixes_upto(s, i - 1) + if s[i - 1] == '.' {
            seq![s.take(i - 1)]
        } else {
            Seq::<Seq<char>>::empty()
        }
    }
}

/// All proper dotted prefixes of `s`: every package an un-aliased
/// dotted import also needs bound.
pub open spec fn dotted_prefixes(s: Seq<char>) -> Seq<Seq<char>> {
    dotted_prefixes_upto(s, s.len() as int)
}

/// A set extended by every name of a list.
pub open spec fn set_with_all(s: Set<Seq<char>>, ns: Seq<Seq<char>>) -> Set<Seq<char>>
    decreases ns.len(),
{
    if ns.len() == 0 {
        s
    } else {
        set_with_all(s, ns.drop_last()).insert(ns.last())
    }
}

/// The dotted join of the first `i` parts of a name chain.
pub open spec fn join_dotted(parts: Seq<Seq<char>>) -> Seq<char>
    decreases parts.len(),
{
    if parts.len() == 0 {
        Seq::empty()
    } else if parts.len() == 1 {
        parts[0]
    } else {
        join_dotted(parts.drop_last()) + seq!['.'] + parts.last()
    }
}

/// Rewrites import statements to point into a vendored sub-namespace:
/// this type holds the configuration and the names affected so far.
pub struct ImportsTransformer {
    pub top_level_package: String,
    pub vendor_module_name: String,
    pub names_to_sanitize: StrSet,
    pub needed_imports: StrSet,
}

impl ImportsTransformer {
    pub open spec fn wf(&self) -> bool {
        self.names_to_sanitize.wf() && self.needed_imports.wf()
    }

    /// The vendored namespace: `top_level_package.vendor_module_name`.
    pub open spec fn vendor_view(&self) -> Seq<char> {
        self.top_level_package@ + seq!['.'] + self.vendor_module_name@
    }

    pub fn new(top_level_package: String, vendor_module_name: String) -> (r: Self)
        ensures
            r.wf(),
            r.top_level_package@ == top_level_package@,
            r.vendor_module_name@ == vendor_module_name@,
            r.names_to_sanitize@ =~= Set::<Seq<char>>::empty(),
            r.needed_imports@ =~= Set::<Seq<char>>::empty(),
    {
        ImportsTransformer {
            top_level_package,
            vendor_module_name,
            names_to_sanitize: StrSet::new(),
            needed_imports: StrSet::new(),
        }
    }

    /// The vendored namespace prefix.
    pub fn get_vendor_string(&self) -> (r: String)
        ensures
            r@ == self.vendor_view(),
    {
        concat_dot(self.top_level_package.as_str(), self.vendor_module_name.as_str())
    }

    /// `name` moved under the vendored namespace.
    pub fn prepend_vendor(&self, name: &str) -> (r: String)
        ensures
            r@ == self.vendor_view() + seq!['.'] + name@,
    {
        let vendor = self.get_vendor_string();
        concat_dot(vendor.as_str(), name)
    }

    /// An imported module path after vendoring: paths already under the
    /// protected top-level package and standard-library paths stay as
    /// they are; everything else moves under the vendor namespace.
    pub fn prepend_vendor_import(&self, module_spec: &str) -> (r: String)
        ensures
            r@ == if self.top_level_package@.is_prefix_of(module_spec@) || in_std_lib(
                module_spec@,
            ) {
                module_spec@
            } else {
                self.vendor_view() + seq!['.'] + module_spec@
            },
    {
        if str_starts_with(module_spec, self.top_level_package.as_str()) || is_in_std_lib(
            module_spec,
        ) {
            String::from_str(module_spec)
        } else {
            self.prepend_vendor(module_spec)
        }
    }

    /// The module path a dynamic-import string argument is rewritten
    /// to: unchanged under the protected package, vendored otherwise.
    pub fn rewrite_dynamic_argument(&self, value: &str) -> (r: String)
        ensures
            r@ == if self.top_level_package@.is_prefix_of(value@) {
                value@
            } else {
                self.vendor_view() + seq!['.'] + value@
            },
    {
        if str_starts_with(value, self.top_level_package.as_str()) {
            String::from_str(value)
        } else {
            self.prepend_vendor(value)
        }
    }

    /// `s` with dots replaced by underscores.
    #[verifier::loop_isolation(false)]
    pub fn underscore_dotted(s: &str) -> (r: String)
        ensures
            r@ == underscored(s@),
    {
        let len = s.unicode_len();
        let mut out = String::new();
        let mut i: usize = 0;
        proof {
            assert(out@ =~= underscored(s@.take(0)));
        }
        while i < len
            invariant
                i <= len,
                out@ == underscored(s@.take(i as int)),
            decreases len - i,
        {
            if s.get_char(i) == '.' {
                out.append("_");
                proof {
                    reveal_strlit("_");
                    assert(out@ =~= underscored(s@.take(i + 1)));
                }
            } else {
                let piece = s.substring_char(i, i + 1);
                out.append(piece);
                proof {
                    assert(out@ =~= underscored(s@.take(i + 1)));
                }
            }
            i += 1;
        }
        proof {
            assert(s@.take(len as int) =~= s@);
        }
        out
    }

    /// Decides the local binding of one import alias: an explicit `as`
    /// name wins; an un-aliased dotted name is bound to its underscored
    /// form, recorded as affected, and every proper dotted prefix is
    /// recorded as a still-needed import; a plain name binds itself.
    #[verifier::loop_isolation(false)]
    pub fn decide_asname(&mut self, name: &str, asname: &Option<String>) -> (r: String)
        requires
            old(self).wf(),
        ensures
            final(self).wf(),
            final(self).top_level_package == old(self).top_level_package,
            final(self).vendor_module_name == old(self).vendor_module_name,
            match asname {
                Some(a) => {
                    &&& r@ == a@
                    &&& final(self).names_to_sanitize@ == old(self).names_to_sanitize@
                    &&& final(self).needed_imports@ == old(self).needed_imports@
                },
                None => {
                    if contains_char(name@, '.') {
                        &&& r@ == underscored(name@)
                        &&& final(self).names_to_sanitize@ == old(self).names_to_sanitize@.insert(
                            name@,
                        )
                        &&& final(self).needed_imports@ == set_with_all(
                            old(self).needed_imports@,
                            dotted_prefixes(name@),
                        )
                    } else {
                        &&& r@ == name@
                        &&& final(self).names_to_sanitize@ == old(self).names_to_sanitize@
                        &&& final(self).needed_imports@ == old(self).needed_imports@
                    }
                },
            },
    {
        match asname {
            Some(a) => a.clone(),
            None => {
                if contains_dot(name) {
                    self.names_to_sanitize.insert(String::from_str(name));
                    let len = name.unicode_len();
                    let mut i: usize = 0;
                    proof {
                        assert(self.needed_imports@ =~= set_with_all(
                            old(self).needed_imports@,
                            dotted_prefixes_upto(name@, 0),
                        ));
                    }
                    while i < len
                        invariant
                            i <= len,
                            self.wf(),
                            self.names_to_sanitize@ == old(self).names_to_sanitize@.insert(name@),
                            self.needed_imports@ == set_with_all(
                                old(self).needed_imports@,
                                dotted_prefixes_upto(name@, i as int),
                            ),
                            self.top_level_package == old(self).top_level_package,
                            self.vendor_module_name == old(self).vendor_module_name,
                        decreases len - i,
                    {
                        if name.get_char(i) == '.' {
                            let prefix = str_take(name, i);
                            self.needed_imports.insert(String::from_str(prefix));
                            proof {
                                assert(dotted_prefixes_upto(name@, i + 1).drop_last()
                                    =~= dotted_prefixes_upto(name@, i as int));
                                assert(dotted_prefixes_upto(name@, i + 1).last() == name@.take(
                                    i as int,
                                ));
                            }
                        } else {
                            proof {
                                assert(dotted_prefixes_upto(name@, i + 1)
                                    =~= dotted_prefixes_upto(name@, i as int));
                            }
                        }
                        i += 1;
                    }
                    Self::underscore_dotted(name)
                } else {
                    String::from_str(name)
                }
            },
        }
    }

    /// The longest affected prefix of a dotted name chain: the largest
    /// `i` such that the join of the first `i` parts was recorded as a
    /// name to sanitize, together with its underscored binding.
    #[verifier::loop_isolation(false)]
    pub fn find_affected_prefix(&self, parts: &Vec<String>) -> (r: Option<(usize, String)>)
        requires
            self.wf(),
        ensures
            match r {
                Some((i, bound)) => {
                    &&& 0 < i < parts@.len()
                    &&& self.names_to_sanitize@.contains(
                        join_dotted(parts.deep_view().take(i as int)),
                    )
                    &&& bound@ == underscored(join_dotted(parts.deep_view().take(i as int)))
                    &&& forall|j: int|
                        i < j < parts@.len() ==> !self.names_to_sanitize@.contains(
                            join_dotted(#[trigger] parts.deep_view().take(j)),
                        )
                },
                None => forall|j: int|
                    0 < j < parts@.len() ==> !self.names_to_sanitize@.contains(
                        join_dotted(#[trigger] parts.deep_view().take(j)),
                    ),
            },
    {
        if parts.len() == 0 {
            return None;
        }
        let mut i: usize = parts.len() - 1;
        while i > 0
            invariant
                i < parts@.len(),
                forall|j: int|
                    i < j < parts@.len() ==> !self.names_to_sanitize@.contains(
                        join_dotted(#[trigger] parts.deep_view().take(j)),
                    ),
            decreases i,
        {
            let joined = Self::join_parts(parts, i);
            if self.names_to_sanitize.contains(joined.as_str()) {
                let bound = Self::underscore_dotted(joined.as_str());
                return Some((i, bound));
            }
            i -= 1;
        }
        None
    }

    /// The dotted join of the first `count` parts.
    #[verifier::loop_isolation(false)]
    pub fn join_parts(parts: &Vec<String>, count: usize) -> (r: String)
        requires
            count <= parts@.len(),
        ensures
            r@ == join_dotted(parts.deep_view().take(count as int)),
    {
        let mut out = String::new();
        let mut i: usize = 0;
        proof {
            assert(out@ =~= join_dotted(parts.deep_view().take(0)));
        }
        while i < count
            invariant
                i <= count,
                count <= parts@.len(),
                out@ == join_dotted(parts.deep_view().take(i as int)),
            decreases count - i,
        {
            proof {
                assert(parts.deep_view().take(i + 1).drop_last() =~= parts.deep_view().take(
                    i as int,
                ));
                assert(parts.deep_view().take(i + 1).last() == parts.deep_view()[i as int]);
            }
            if i == 0 {
                out = parts[0].clone();
            } else {
                out = concat_dot(out.as_str(), parts[i].as_str());
            }
            i += 1;
        }
        out
    }

    /// Rewrites a string literal standing in a type annotation: when an
    /// affected name is its dotted prefix, the prefix is re-routed to
    /// the underscored binding; the first affected name in recording
    /// order wins.
    #[verifier::loop_isolation(false)]
    pub fn sanitize_annotation_string(&self, value: &str) -> (r: String)
        requires
            self.wf(),
        ensures
            ({
                let items = self.names_to_sanitize.items_seq();
                match first_prefix_index(items, value@) {
                    Some(i) => r@ == underscored(items[i]) + value@.skip(items[i].len() as int),
                    None => r@ == value@,
                }
            }),
    {
        let ghost items = self.names_to_sanitize.items_seq();
        let n = self.names_to_sanitize.len();
        let mut i: usize = 0;
        while i < n
            invariant
                i <= n,
                n == items.len(),
                items == self.names_to_sanitize.items_seq(),
                forall|j: int| 0 <= j < i ==> !(#[trigger] items[j]).is_prefix_of(value@),
            decreases n - i,
        {
            let candidate = self.names_to_sanitize.item_at(i);
            if str_starts_with(value, candidate.as_str()) {
                let bound = Self::underscore_dotted(candidate.as_str());
                let rest = str_skip(value, candidate.as_str().unicode_len());
                proof {
                    lemma_first_prefix_index(items, value@, i as int);
                }
                return concat_str(bound.as_str(), rest);
            }
            i += 1;
        }
        proof {
            lemma_first_prefix_none(items, value@);
        }
        String::from_str(value)
    }

    /// The needed imports not yet provided by `present`, in recording
    /// order.
    #[verifier::loop_isolation(false)]
    pub fn missing_needed_imports(&self, present: &Vec<String>) -> (r: Vec<String>)
        requires
            self.wf(),
        ensures
            ({
                let needed = self.needed_imports.items_seq();
                r.deep_view() == needed.filter(
                    |n: Seq<char>| !present.deep_view().contains(n),
                )
            }),
    {
        let ghost needed = self.needed_imports.items_seq();
        let mut out: Vec<String> = Vec::new();
        let n = self.needed_imports.len();
        let mut i: usize = 0;
        proof {
            assert(needed.take(0).filter(|n: Seq<char>| !present.deep_view().contains(n))
                =~~= Seq::<Seq<char>>::empty());
            assert(out.deep_view() =~~= needed.take(0).filter(
                |n: Seq<char>| !present.deep_view().contains(n),
            ));
        }
        while i < n
            invariant
                i <= n,
                n == needed.len(),
                needed == self.needed_imports.items_seq(),
                out.deep_view() == needed.take(i as int).filter(
                    |n: Seq<char>| !present.deep_view().contains(n),
                ),
            decreases n - i,
        {
            proof {
                assert(needed.take(i + 1).drop_last() =~= needed.take(i as int));
                assert(needed.take(i + 1).last() == needed[i as int]);
            }
            let item = self.needed_imports.item_at(i);
            let ghost old_deep = out.deep_view();
            if !contains_string(present, item.as_str()) {
                out.push(String::from_str(item.as_str()));
                proof {
                    assert(out.deep_view() =~~= old_deep.push(needed[i as int]));
                }
            }
            proof {
                reveal_with_fuel(Seq::filter, 2);
                assert(out.deep_view() =~~= needed.take(i + 1).filter(
                    |n: Seq<char>| !present.deep_view().contains(n),
                ));
            }
            i += 1;
        }
        proof {
            assert(needed.take(needed.len() as int) =~= needed);
        }
        out
    }

    /// Where synthesized imports are inserted: after a `__future__`
    /// import block when one is present, else at the top.
    pub fn insertion_index(has_future_import: bool) -> (r: usize)
        ensures
            r == if has_future_import {
                2usize
            } else {
                0usize
            },
    {
        if has_future_import {
            2
        } else {
            0
        }
    }

    /// Whether `stmt` is a `from __future__ import ...` statement.
    pub fn is_future_import(stmt: &PyStmt) -> (r: bool)
        ensures
            r == (stmt.kind matches PyStmtKind::ImportFrom { module: Some(m), names, level }
                && m@ == "__future__"@),
    {
        proof {
            reveal_strlit("__future__");
        }
        match &stmt.kind {
            PyStmtKind::ImportFrom { module: Some(m), names, level } => str_eq(
                m.as_str(),
                "__future__",
            ),
            _ => false,
        }
    }
}

/// The first index of `items` whose entry is a prefix of `s`, if any.
pub open spec fn first_prefix_index(items: Seq<Seq<char>>, s: Seq<char>) -> Option<int> {
    if exists|j: int| 0 <= j < items.len() && (#[trigger] items[j]).is_prefix_of(s) {
        Some(
            choose|j: int|
                0 <= j < items.len() && (#[trigger] items[j]).is_prefix_of(s) && forall|k: int|
                    0 <= k < j ==> !(#[trigger] items[k]).is_prefix_of(s),
        )
    } else {
        None
    }
}

/// The witness of `first_prefix_index`: the scanned index is the first.
pub proof fn lemma_first_prefix_index(items: Seq<Seq<char>>, s: Seq<char>, i: int)
    requires
        0 <= i < items.len(),
        items[i].is_prefix_of(s),
        forall|k: int| 0 <= k < i ==> !(#[trigger] items[k]).is_prefix_of(s),
    ensures
        first_prefix_index(items, s) == Some(i),
{
    assert(exists|j: int| 0 <= j < items.len() && (#[trigger] items[j]).is_prefix_of(s));
    let j = choose|j: int|
        0 <= j < items.len() && (#[trigger] items[j]).is_prefix_of(s) && forall|k: int|
            0 <= k < j ==> !(#[trigger] items[k]).is_prefix_of(s);
    if j < i {
        assert(items[j].is_prefix_of(s));
    }
    if j > i {
        assert(!items[i].is_prefix_of(s));
    }
}

/// With no prefix among the items, `first_prefix_index` finds none.
pub proof fn lemma_first_prefix_none(items: Seq<Seq<char>>, s: Seq<char>)
    requires
        forall|k: int| 0 <= k < items.len() ==> !(#[trigger] items[k]).is_prefix_of(s),
    ensures
        first_prefix_index(items, s) is None,
{
}

/// Whether `needle` occurs in a vector of strings.
fn contains_string(v: &Vec<String>, needle: &str) -> (r: bool)
    ensures
        r == v.deep_view().contains(needle@),
{
    let mut i: usize = 0;
    while i < v.len()
        invariant
            i <= v.len(),
            forall|j: int| 0 <= j < i ==> v.deep_view()[j] != needle@,
        decreases v.len() - i,
    {
        if crate::strings::str_eq(v[i].as_str(), needle) {
            proof {
                assert(v.deep_view()[i as int] == needle@);
            }
            return true;
        }
        i += 1;
    }
    proof {
        if v.deep_view().contains(needle@) {
            let j = choose|j: int| 0 <= j < v.deep_view().len() && v.deep_view()[j] == needle@;
            assert(v.deep_view()[j] != needle@);
        }
    }
    false
}

} // verus!
