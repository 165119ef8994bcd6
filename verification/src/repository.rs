//! The repository manager: dependency resolution over the definition store,
//! and the per-session install-status tracker.

use vstd::prelude::*;
use crate::config::Config;
use crate::definition::DefinitionLoader;
use crate::definition::contains_string;
use crate::definition::has_def;
use crate::definition::store_wf;
use crate::error::Error;
use crate::error::concat_str;
use crate::package::DependencyType;
use crate::package::DependencyV;
use crate::package::InstallStatus;
use crate::package::Installation;
use crate::package::Package;
use crate::package::PackageV;
use crate::strutil::str_eq;

verus! {

/// A dependency that takes part in recursive resolution: package-kind and
/// not optional.
pub open spec fn mand_pkg_dep(d: DependencyV) -> bool {
    !d.optional && d.dep_type == DependencyType::Package
}

/// Whether `name` is a mandatory package-kind dependency of `p`.
pub open spec fn is_mand_dep_of(name: Seq<char>, p: PackageV) -> bool {
    exists|k: int|
        0 <= k < p.dependencies.len() && mand_pkg_dep(#[trigger] p.dependencies[k])
            && p.dependencies[k].name == name
}

/// Resolved names are pairwise distinct.
pub open spec fn res_names_distinct(res: Seq<PackageV>) -> bool {
    forall|i: int, j: int|
        0 <= i < j < res.len() ==> (#[trigger] res[i]).name != (#[trigger] res[j]).name
}

/// Every resolved package is a copy of a stored definition.
pub open spec fn res_from_store(defs: Seq<PackageV>, res: Seq<PackageV>) -> bool {
    forall|i: int| 0 <= i < res.len() ==> defs.contains(#[trigger] res[i])
}

/// Every mandatory package dependency of a resolved package appears earlier
/// in the resolved order than its dependent.
pub open spec fn deps_before(res: Seq<PackageV>) -> bool {
    forall|i: int, k: int|
        0 <= i < res.len() && 0 <= k < res[i].dependencies.len() && mand_pkg_dep(
            #[trigger] res[i].dependencies[k],
        ) ==> exists|j: int| 0 <= j < i && (#[trigger] res[j]).name == res[i].dependencies[k].name
}

/// Whether one resolved name is accounted for: it was requested (`roots`),
/// or it is a mandatory package dependency of a resolved package, or of a
/// definition on the active resolution path.
pub open spec fn name_justified(
    defs: Seq<PackageV>,
    active: Seq<Seq<char>>,
    res: Seq<PackageV>,
    name: Seq<char>,
    roots: Set<Seq<char>>,
) -> bool {
    ||| roots.contains(name)
    ||| exists|j: int| 0 <= j < res.len() && is_mand_dep_of(name, #[trigger] res[j])
    ||| exists|j: int, q: int|
        0 <= j < active.len() && 0 <= q < defs.len() && (#[trigger] defs[q]).name == (
        #[trigger] active[j]) && is_mand_dep_of(name, defs[q])
}

/// Every resolved name is accounted for. This is what keeps optional
/// dependencies out of an install list unless they are requested themselves.
pub open spec fn all_justified(
    defs: Seq<PackageV>,
    active: Seq<Seq<char>>,
    res: Seq<PackageV>,
    roots: Set<Seq<char>>,
) -> bool {
    forall|i: int|
        0 <= i < res.len() ==> name_justified(defs, active, res, (#[trigger] res[i]).name, roots)
}

/// Tracked status names are pairwise distinct.
pub open spec fn statuses_wf(sts: Seq<(Seq<char>, crate::package::InstallStatusV)>) -> bool {
    forall|i: int, j: int| 0 <= i < j < sts.len() ==> (#[trigger] sts[i]).0 != (#[trigger] sts[j]).0
}

/// Whether the tracked statuses report `name` as installed.
pub open spec fn installed_in(
    sts: Seq<(Seq<char>, crate::package::InstallStatusV)>,
    name: Seq<char>,
) -> bool {
    exists|i: int|
        0 <= i < sts.len() && (#[trigger] sts[i]).0 == name && sts[i].1 is Installed
}

/// The names of the system-kind dependencies of a package, in definition
/// order, whatever their optional flag.
pub open spec fn system_dep_names(p: PackageV) -> Seq<Seq<char>> {
    p.dependencies.filter(|d: DependencyV| d.dep_type == DependencyType::System).map_values(
        |d: DependencyV| d.name,
    )
}

/// Every name marked fully visited has made it into the resolved list.
pub open spec fn visited_in_res(res: Seq<PackageV>, visited: Seq<Seq<char>>) -> bool {
    forall|j: int| 0 <= j < visited.len() ==> has_def(res, #[trigger] visited[j])
}

/// The active path: pairwise distinct names, each naming a definition.
pub open spec fn visiting_wf(defs: Seq<PackageV>, visiting: Seq<Seq<char>>) -> bool {
    visiting.no_duplicates() && forall|j: int|
        0 <= j < visiting.len() ==> has_def(defs, #[trigger] visiting[j])
}

/// A rank map that witnesses acyclicity: every definition has a rank, and a
/// mandatory package dependency always ranks strictly below its dependent.
pub open spec fn valid_rank(defs: Seq<PackageV>, rank: Map<Seq<char>, nat>) -> bool {
    &&& forall|i: int|
        0 <= i < defs.len() ==> rank.dom().contains((#[trigger] defs[i]).name)
    &&& forall|i: int, k: int|
        0 <= i < defs.len() && 0 <= k < defs[i].dependencies.len() && mand_pkg_dep(
            #[trigger] defs[i].dependencies[k],
        ) ==> rank[defs[i].dependencies[k].name] < rank[defs[i].name]
}

/// The mandatory-package-dependency graph has no cycle.
pub open spec fn acyclic(defs: Seq<PackageV>) -> bool {
    exists|rank: Map<Seq<char>, nat>| valid_rank(defs, rank)
}

/// One rank map witnessing acyclicity, fixed for the proofs below.
pub open spec fn the_rank(defs: Seq<PackageV>) -> Map<Seq<char>, nat> {
    choose|rank: Map<Seq<char>, nat>| valid_rank(defs, rank)
}

/// Every mandatory package dependency of a definition is itself defined.
pub open spec fn closed_defs(defs: Seq<PackageV>) -> bool {
    forall|i: int, k: int|
        0 <= i < defs.len() && 0 <= k < defs[i].dependencies.len() && mand_pkg_dep(
            #[trigger] defs[i].dependencies[k],
        ) ==> has_def(defs, defs[i].dependencies[k].name)
}

/// When the store is acyclic and closed, everything on the active path ranks
/// strictly above `name`.
pub open spec fn ranks_above(
    defs: Seq<PackageV>,
    visiting: Seq<Seq<char>>,
    name: Seq<char>,
) -> bool {
    acyclic(defs) && closed_defs(defs) ==> forall|j: int|
        0 <= j < visiting.len() ==> the_rank(defs)[#[trigger] visiting[j]] > the_rank(defs)[name]
}

/// Distinct names that each refer to a definition cannot outnumber the
/// definitions.
pub proof fn lemma_distinct_names_bound(defs: Seq<PackageV>, names: Seq<Seq<char>>)
    requires
        store_wf(defs),
        names.no_duplicates(),
        forall|j: int| 0 <= j < names.len() ==> has_def(defs, #[trigger] names[j]),
    ensures
        names.len() <= defs.len(),
{
    broadcast use vstd::seq_lib::group_seq_properties;

    let dn = defs.map_values(|p: PackageV| p.name);
    assert(dn.no_duplicates()) by {
        assert forall|i: int, j: int|
            0 <= i < dn.len() && 0 <= j < dn.len() && i != j implies dn[i] != dn[j] by {
            if i < j {
                assert(defs[i].name != defs[j].name);
            } else {
                assert(defs[j].name != defs[i].name);
            }
        }
    }
    names.unique_seq_to_set();
    dn.unique_seq_to_set();
    assert(names.to_set().subset_of(dn.to_set())) by {
        assert forall|x: Seq<char>| names.to_set().contains(x) implies dn.to_set().contains(
            x,
        ) by {
            assert(names.contains(x));
            let j = choose|j: int| 0 <= j < names.len() && names[j] == x;
            assert(has_def(defs, x));
            let q = choose|q: int| 0 <= q < defs.len() && defs[q].name == x;
            assert(dn[q] == x);
            assert(dn.contains(x));
        }
    }
    vstd::set_lib::lemma_len_subset(names.to_set(), dn.to_set());
}

/// Drives resolution and tracks per-session installation status.
pub struct Manager {
    /// The authoritative definition store.
    pub loader: DefinitionLoader,
    config: Config,
    installed_cache: Vec<(String, InstallStatus)>,
}

impl Manager {
    /// The definitions the manager resolves against.
    pub closed spec fn defs(&self) -> Seq<PackageV> {
        self.loader.defs()
    }

    /// The store holds pairwise-distinct names, and so does the status map.
    pub closed spec fn wf(&self) -> bool {
        self.loader.wf() && statuses_wf(self.statuses())
    }

    /// The tracked per-session statuses, name to status.
    pub closed spec fn statuses(&self) -> Seq<(Seq<char>, crate::package::InstallStatusV)> {
        self.installed_cache.deep_view()
    }

    /// A manager over an already-loaded store; the status map starts empty.
    pub fn new(loader: DefinitionLoader, config: Config) -> (r: Manager)
        ensures
            r.defs() == loader.defs(),
            r.statuses() == Seq::<(Seq<char>, crate::package::InstallStatusV)>::empty(),
            loader.wf() ==> r.wf(),
    {
        let r = Manager { loader, config, installed_cache: Vec::new() };
        proof {
            assert(r.statuses() =~= Seq::<(Seq<char>, crate::package::InstallStatusV)>::empty());
        }
        r
    }

    /// Resolves the requested names into an installable order: every
    /// requested package and each of its transitive mandatory package-kind
    /// dependencies appears exactly once, dependencies before dependents, and
    /// nothing else appears. Resolution fails on an undefined name or on a
    /// dependency cycle, and succeeds on every acyclic, closed store.
    pub fn resolve_packages(&self, package_names: &Vec<String>) -> (r: Result<Vec<Package>, Error>)
        requires
            self.wf(),
        ensures
            r matches Ok(res) ==> {
                &&& res_names_distinct(res.deep_view())
                &&& res_from_store(self.defs(), res.deep_view())
                &&& deps_before(res.deep_view())
                &&& forall|k: int|
                    0 <= k < package_names.deep_view().len() ==> has_def(
                        res.deep_view(),
                        #[trigger] package_names.deep_view()[k],
                    )
                &&& all_justified(
                    self.defs(),
                    Seq::<Seq<char>>::empty(),
                    res.deep_view(),
                    package_names.deep_view().to_set(),
                )
            },
            r matches Err(e) ==> ((e matches Error::PackageNotFound(n) && !has_def(
                self.defs(),
                n@,
            )) || (e matches Error::Dependency(m) && exists|c: Seq<char>|
                has_def(self.defs(), c) && m@ == "Circular dependency detected: "@ + c)),
            acyclic(self.defs()) && closed_defs(self.defs()) && (forall|k: int|
                0 <= k < package_names.deep_view().len() ==> has_def(
                    self.defs(),
                    #[trigger] package_names.deep_view()[k],
                )) ==> r is Ok,
    {
        let mut resolved: Vec<Package> = Vec::new();
        let mut visited: Vec<String> = Vec::new();
        let mut visiting: Vec<String> = Vec::new();
        let ghost roots = package_names.deep_view().to_set();
        let mut idx: usize = 0;
        proof {
            assert(resolved.deep_view() =~= Seq::<PackageV>::empty());
            assert(visited.deep_view() =~= Seq::<Seq<char>>::empty());
            assert(visiting.deep_view() =~= Seq::<Seq<char>>::empty());
        }
        while idx < package_names.len()
            invariant
                idx <= package_names@.len(),
                visiting.deep_view() == Seq::<Seq<char>>::empty(),
                res_names_distinct(resolved.deep_view()),
                res_from_store(self.defs(), resolved.deep_view()),
                deps_before(resolved.deep_view()),
                all_justified(self.defs(), visiting.deep_view(), resolved.deep_view(), roots),
                visited_in_res(resolved.deep_view(), visited.deep_view()),
                visiting_wf(self.defs(), visiting.deep_view()),
                forall|k: int|
                    0 <= k < idx ==> has_def(
                        resolved.deep_view(),
                        #[trigger] package_names.deep_view()[k],
                    ),
            decreases package_names@.len() - idx,
        {
            proof {
                assert(roots.contains(package_names.deep_view()[idx as int])) by {
                    assert(package_names.deep_view().contains(
                        package_names.deep_view()[idx as int],
                    ));
                }
            }
            let ghost pre_res = resolved.deep_view();
            let outcome = self.resolve_package_recursive(
                package_names[idx].as_str(),
                &mut resolved,
                &mut visited,
                &mut visiting,
                Ghost(roots),
            );
            if let Result::Err(e) = outcome {
                return Result::Err(e);
            }
            proof {
                assert forall|k: int|
                    0 <= k < idx + 1 implies has_def(
                    resolved.deep_view(),
                    #[trigger] package_names.deep_view()[k],
                ) by {
                    if k < idx {
                        let w = choose|w: int|
                            0 <= w < pre_res.len() && pre_res[w].name
                                == package_names.deep_view()[k];
                        assert(resolved.deep_view()[w] == pre_res[w]);
                    }
                }
            }
            idx = idx + 1;
        }
        Result::Ok(resolved)
    }

    /// One step of depth-first resolution: resolves `name` and everything it
    /// transitively requires into `resolved`, keeping `visiting` as the
    /// active path for cycle detection and `visited` as the set of finished
    /// names.
    pub fn resolve_package_recursive(
        &self,
        name: &str,
        resolved: &mut Vec<Package>,
        visited: &mut Vec<String>,
        visiting: &mut Vec<String>,
        Ghost(roots): Ghost<Set<Seq<char>>>,
    ) -> (r: Result<(), Error>)
        requires
            self.wf(),
            res_names_distinct(old(resolved).deep_view()),
            res_from_store(self.defs(), old(resolved).deep_view()),
            deps_before(old(resolved).deep_view()),
            all_justified(self.defs(), old(visiting).deep_view(), old(resolved).deep_view(), roots),
            visited_in_res(old(resolved).deep_view(), old(visited).deep_view()),
            visiting_wf(self.defs(), old(visiting).deep_view()),
            name_justified(
                self.defs(),
                old(visiting).deep_view(),
                old(resolved).deep_view(),
                name@,
                roots,
            ),
            ranks_above(self.defs(), old(visiting).deep_view(), name@),
        ensures
            final(resolved).deep_view().len() >= old(resolved).deep_view().len(),
            forall|w: int|
                0 <= w < old(resolved).deep_view().len() ==> final(resolved).deep_view()[w] == old(
                    resolved,
                ).deep_view()[w],
            res_names_distinct(final(resolved).deep_view()),
            res_from_store(self.defs(), final(resolved).deep_view()),
            deps_before(final(resolved).deep_view()),
            all_justified(
                self.defs(),
                final(visiting).deep_view(),
                final(resolved).deep_view(),
                roots,
            ),
            visited_in_res(final(resolved).deep_view(), final(visited).deep_view()),
            visiting_wf(self.defs(), final(visiting).deep_view()),
            r is Ok ==> final(visiting).deep_view() == old(visiting).deep_view(),
            r is Ok ==> has_def(final(resolved).deep_view(), name@),
            r matches Err(e) ==> ((e matches Error::PackageNotFound(n) && !has_def(
                self.defs(),
                n@,
            )) || (e matches Error::Dependency(m) && exists|c: Seq<char>|
                has_def(self.defs(), c) && m@ == "Circular dependency detected: "@ + c)),
            !has_def(self.defs(), name@) && !old(visiting).deep_view().contains(name@) ==> (
            r matches Err(e) && e matches Error::PackageNotFound(n) && n@ == name@),
            acyclic(self.defs()) && closed_defs(self.defs()) && has_def(self.defs(), name@)
                ==> r is Ok,
        decreases self.defs().len() - old(visiting).deep_view().len(),
    {
        let ghost defs = self.defs();
        let ghost hypothesis = acyclic(defs) && closed_defs(defs) && has_def(defs, name@);
        if contains_string(visited, name) {
            proof {
                assert(has_def(resolved.deep_view(), name@));
            }
            return Result::Ok(());
        }
        if contains_string(visiting, name) {
            proof {
                let j = choose|j: int|
                    0 <= j < visiting.deep_view().len() && visiting.deep_view()[j] == name@;
                assert(has_def(defs, name@));
                if hypothesis {
                    // under an acyclic, closed store the active path ranks
                    // strictly above the name, so the name cannot be on it
                    assert(the_rank(defs)[name@] > the_rank(defs)[name@]);
                }
            }
            return Result::Err(
                Error::Dependency(concat_str("Circular dependency detected: ", name)),
            );
        }
        let found = self.loader.get_package(name);
        let package = match found {
            Option::Some(p) => p,
            Option::None => {
                return Result::Err(Error::PackageNotFound(name.to_owned()));
            },
        };
        let ghost pv = package@;
        let ghost qi = choose|qi: int| 0 <= qi < defs.len() && defs[qi] == pv;
        proof {
            assert(defs.contains(pv));
        }
        let ghost pre_visiting = visiting.deep_view();
        visiting.push(name.to_owned());
        proof {
            assert(visiting.deep_view() =~= pre_visiting.push(name@));
            assert(visiting.deep_view().no_duplicates()) by {
                assert(!pre_visiting.contains(name@));
                assert forall|a: int, b: int|
                    0 <= a < visiting.deep_view().len() && 0 <= b < visiting.deep_view().len()
                        && a != b implies visiting.deep_view()[a] != visiting.deep_view()[b] by {
                    if a < pre_visiting.len() && b < pre_visiting.len() {
                    } else if a < pre_visiting.len() {
                        assert(pre_visiting.contains(pre_visiting[a]));
                    } else if b < pre_visiting.len() {
                        assert(pre_visiting.contains(pre_visiting[b]));
                    }
                }
            }
            lemma_distinct_names_bound(defs, visiting.deep_view());
            assert forall|i: int|
                0 <= i < resolved.deep_view().len() implies name_justified(
                defs,
                visiting.deep_view(),
                resolved.deep_view(),
                (#[trigger] resolved.deep_view()[i]).name,
                roots,
            ) by {
                lemma_justified_active_grows(
                    defs,
                    pre_visiting,
                    visiting.deep_view(),
                    resolved.deep_view(),
                    resolved.deep_view()[i].name,
                    roots,
                );
            }
        }
        let ghost mid_visiting = visiting.deep_view();
        let num_deps = package.dependencies.len();
        let mut k: usize = 0;
        while k < num_deps
            invariant
                num_deps == pv.dependencies.len(),
                k <= num_deps,
                visiting.deep_view() == mid_visiting,
                resolved.deep_view().len() >= old(resolved).deep_view().len(),
                forall|w: int|
                    0 <= w < old(resolved).deep_view().len() ==> resolved.deep_view()[w] == old(
                        resolved,
                    ).deep_view()[w],
                res_names_distinct(resolved.deep_view()),
                res_from_store(defs, resolved.deep_view()),
                deps_before(resolved.deep_view()),
                all_justified(defs, visiting.deep_view(), resolved.deep_view(), roots),
                visited_in_res(resolved.deep_view(), visited.deep_view()),
                forall|m: int|
                    0 <= m < k && mand_pkg_dep(#[trigger] pv.dependencies[m]) ==> has_def(
                        resolved.deep_view(),
                        pv.dependencies[m].name,
                    ),
            decreases num_deps - k,
        {
            let dep = &package.dependencies[k];
            let is_mand = !dep.optional && matches!(dep.dep_type, DependencyType::Package);
            if is_mand {
                proof {
                    assert(mand_pkg_dep(pv.dependencies[k as int]));
                    assert(is_mand_dep_of(pv.dependencies[k as int].name, pv));
                    assert(mid_visiting[mid_visiting.len() - 1] == name@);
                    assert(name_justified(
                        defs,
                        visiting.deep_view(),
                        resolved.deep_view(),
                        dep.name@,
                        roots,
                    )) by {
                        assert(defs[qi].name == mid_visiting[mid_visiting.len() - 1]);
                        assert(is_mand_dep_of(dep.name@, defs[qi]));
                    }
                    if acyclic(defs) && closed_defs(defs) {
                        assert(valid_rank(defs, the_rank(defs)));
                        assert(the_rank(defs)[pv.dependencies[k as int].name]
                            < the_rank(defs)[pv.name]);
                        assert forall|j: int|
                            0 <= j < visiting.deep_view().len() implies the_rank(defs)[
                        #[trigger] visiting.deep_view()[j]] > the_rank(defs)[dep.name@] by {
                            if j < pre_visiting.len() {
                                assert(the_rank(defs)[pre_visiting[j]] > the_rank(defs)[name@]);
                            }
                        }
                        assert(has_def(defs, dep.name@));
                    }
                }
                let ghost before = resolved.deep_view();
                let outcome = self.resolve_package_recursive(
                    dep.name.as_str(),
                    resolved,
                    visited,
                    visiting,
                    Ghost(roots),
                );
                if let Result::Err(e) = outcome {
                    proof {
                        if hypothesis {
                            assert(false);
                        }
                    }
                    return Result::Err(e);
                }
                proof {
                    assert forall|m: int|
                        0 <= m < k + 1 && mand_pkg_dep(#[trigger] pv.dependencies[m]) implies
                        has_def(resolved.deep_view(), pv.dependencies[m].name) by {
                        if m < k {
                            let w = choose|w: int|
                                0 <= w < before.len() && before[w].name == pv.dependencies[m].name;
                            assert(resolved.deep_view()[w] == before[w]);
                        }
                    }
                }
            }
            k = k + 1;
        }
        let ghost pre_pop = visiting@;
        let popped = visiting.pop();
        proof {
            assert forall|j: int|
                0 <= j < visiting.deep_view().len() implies visiting.deep_view()[j]
                == pre_visiting[j] by {
                assert(visiting@[j] == pre_pop[j]);
                assert(mid_visiting[j] == pre_visiting[j]);
            }
            assert(visiting.deep_view() =~= pre_visiting);
        }
        let ghost pre_visited = visited.deep_view();
        let ghost res_before_push = resolved.deep_view();
        if !contains_package_name(resolved, name) {
            let copy = package.clone();
            resolved.push(copy);
            proof {
                assert(resolved.deep_view() =~= res_before_push.push(pv));
            }
        }
        visited.push(name.to_owned());
        proof {
            let cur = resolved.deep_view();
            // name is now resolved, either freshly pushed or already present
            assert(has_def(cur, name@)) by {
                if has_def(res_before_push, name@) {
                    let w = choose|w: int|
                        0 <= w < res_before_push.len() && res_before_push[w].name == name@;
                    assert(cur[w] == res_before_push[w]);
                } else {
                    assert(cur[cur.len() - 1].name == name@);
                }
            }
            assert(visited.deep_view() =~= pre_visited.push(name@));
            assert(visited_in_res(cur, visited.deep_view())) by {
                assert forall|j: int|
                    0 <= j < visited.deep_view().len() implies has_def(
                    cur,
                    #[trigger] visited.deep_view()[j],
                ) by {
                    if j < pre_visited.len() {
                        let w = choose|w: int|
                            0 <= w < res_before_push.len() && res_before_push[w].name
                                == pre_visited[j];
                        assert(cur[w] == res_before_push[w]);
                    }
                }
            }
            if !has_def(res_before_push, name@) {
                let cur2 = res_before_push.push(pv);
                assert(res_names_distinct(cur2)) by {
                    assert forall|a: int, b: int|
                        0 <= a < b < cur2.len() implies (#[trigger] cur2[a]).name != (
                    #[trigger] cur2[b]).name by {
                        if b == cur2.len() - 1 {
                            assert(cur2[a] == res_before_push[a]);
                            assert(!has_def(res_before_push, name@));
                        }
                    }
                }
                assert(deps_before(cur2)) by {
                    assert forall|i: int, k2: int|
                        0 <= i < cur2.len() && 0 <= k2 < cur2[i].dependencies.len() && mand_pkg_dep(
                            #[trigger] cur2[i].dependencies[k2],
                        ) implies exists|j: int|
                        0 <= j < i && (#[trigger] cur2[j]).name == cur2[i].dependencies[k2].name by {
                        if i == cur2.len() - 1 {
                            assert(cur2[i] == pv);
                            assert(has_def(res_before_push, pv.dependencies[k2].name));
                            let w = choose|w: int|
                                0 <= w < res_before_push.len() && res_before_push[w].name
                                    == pv.dependencies[k2].name;
                            assert(cur2[w].name == cur2[i].dependencies[k2].name);
                        } else {
                            assert(cur2[i] == res_before_push[i]);
                            let j = choose|j: int|
                                0 <= j < i && res_before_push[j].name
                                    == res_before_push[i].dependencies[k2].name;
                            assert(cur2[j].name == cur2[i].dependencies[k2].name);
                        }
                    }
                }
                assert(all_justified(defs, visiting.deep_view(), cur2, roots)) by {
                    assert forall|i: int|
                        0 <= i < cur2.len() implies name_justified(
                        defs,
                        visiting.deep_view(),
                        cur2,
                        (#[trigger] cur2[i]).name,
                        roots,
                    ) by {
                        if i == cur2.len() - 1 {
                            lemma_justified_stable(
                                defs,
                                mid_visiting,
                                pre_visiting,
                                res_before_push,
                                cur2,
                                name@,
                                name@,
                                roots,
                            );
                        } else {
                            assert(cur2[i] == res_before_push[i]);
                            lemma_justified_stable(
                                defs,
                                mid_visiting,
                                pre_visiting,
                                res_before_push,
                                cur2,
                                res_before_push[i].name,
                                name@,
                                roots,
                            );
                        }
                    }
                }
            } else {
                assert(all_justified(defs, visiting.deep_view(), cur, roots)) by {
                    assert forall|i: int|
                        0 <= i < cur.len() implies name_justified(
                        defs,
                        visiting.deep_view(),
                        cur,
                        (#[trigger] cur[i]).name,
                        roots,
                    ) by {
                        lemma_justified_stable(
                            defs,
                            mid_visiting,
                            pre_visiting,
                            res_before_push,
                            cur,
                            cur[i].name,
                            name@,
                            roots,
                        );
                    }
                }
            }
        }
        Result::Ok(())
    }
}

/// Justification survives the active path growing.
proof fn lemma_justified_active_grows(
    defs: Seq<PackageV>,
    active_before: Seq<Seq<char>>,
    active_after: Seq<Seq<char>>,
    res: Seq<PackageV>,
    name: Seq<char>,
    roots: Set<Seq<char>>,
)
    requires
        name_justified(defs, active_before, res, name, roots),
        active_after.len() >= active_before.len(),
        forall|w: int| 0 <= w < active_before.len() ==> active_after[w] == active_before[w],
    ensures
        name_justified(defs, active_after, res, name, roots),
{
    if !roots.contains(name) && !(exists|j: int|
        0 <= j < res.len() && is_mand_dep_of(name, #[trigger] res[j])) {
        let (j, q) = choose|j: int, q: int|
            0 <= j < active_before.len() && 0 <= q < defs.len() && (#[trigger] defs[q]).name == (
            #[trigger] active_before[j]) && is_mand_dep_of(name, defs[q]);
        assert(active_after[j] == active_before[j]);
    }
}

/// Justification survives the end of a resolution step: the name leaving the
/// active path is by then resolved, so anything it justified is justified by
/// the resolved list instead.
proof fn lemma_justified_stable(
    defs: Seq<PackageV>,
    mid_visiting: Seq<Seq<char>>,
    pre_visiting: Seq<Seq<char>>,
    res_before: Seq<PackageV>,
    res_after: Seq<PackageV>,
    name: Seq<char>,
    finished: Seq<char>,
    roots: Set<Seq<char>>,
)
    requires
        store_wf(defs),
        mid_visiting == pre_visiting.push(finished),
        name_justified(defs, mid_visiting, res_before, name, roots) || (name == finished
            && name_justified(defs, pre_visiting, res_before, name, roots)),
        res_after.len() >= res_before.len(),
        forall|w: int| 0 <= w < res_before.len() ==> res_after[w] == res_before[w],
        has_def(res_after, finished),
        res_from_store(defs, res_after),
    ensures
        name_justified(defs, pre_visiting, res_after, name, roots),
{
    if name == finished && name_justified(defs, pre_visiting, res_before, name, roots) {
        lemma_justified_grows(defs, pre_visiting, res_before, res_after, name, roots);
    } else {
        if roots.contains(name) {
        } else if exists|j: int|
            0 <= j < res_before.len() && is_mand_dep_of(name, #[trigger] res_before[j]) {
            let j = choose|j: int|
                0 <= j < res_before.len() && is_mand_dep_of(name, #[trigger] res_before[j]);
            assert(res_after[j] == res_before[j]);
            assert(is_mand_dep_of(name, res_after[j]));
        } else {
            let (j, q) = choose|j: int, q: int|
                0 <= j < mid_visiting.len() && 0 <= q < defs.len() && (#[trigger] defs[q]).name
                    == (#[trigger] mid_visiting[j]) && is_mand_dep_of(name, defs[q]);
            if j < pre_visiting.len() {
                assert(mid_visiting[j] == pre_visiting[j]);
            } else {
                // the justifier was the name that just finished: it is now
                // resolved, and by name uniqueness the resolved copy is the
                // same definition
                assert(mid_visiting[j] == finished);
                let w = choose|w: int| 0 <= w < res_after.len() && res_after[w].name == finished;
                assert(defs.contains(res_after[w]));
                let qq = choose|qq: int| 0 <= qq < defs.len() && defs[qq] == res_after[w];
                assert(defs[qq].name == defs[q].name);
                if qq != q {
                    assert(defs[qq].name != defs[q].name);
                }
                assert(res_after[w] == defs[q]);
                assert(is_mand_dep_of(name, res_after[w]));
            }
        }
    }
}

/// Justification is monotone in the resolved list.
proof fn lemma_justified_grows(
    defs: Seq<PackageV>,
    visiting: Seq<Seq<char>>,
    res_before: Seq<PackageV>,
    res_after: Seq<PackageV>,
    name: Seq<char>,
    roots: Set<Seq<char>>,
)
    requires
        name_justified(defs, visiting, res_before, name, roots),
        res_after.len() >= res_before.len(),
        forall|w: int| 0 <= w < res_before.len() ==> res_after[w] == res_before[w],
    ensures
        name_justified(defs, visiting, res_after, name, roots),
{
    if !roots.contains(name) {
        if exists|j: int|
            0 <= j < res_before.len() && is_mand_dep_of(name, #[trigger] res_before[j]) {
            let j = choose|j: int|
                0 <= j < res_before.len() && is_mand_dep_of(name, #[trigger] res_before[j]);
            assert(res_after[j] == res_before[j]);
            assert(is_mand_dep_of(name, res_after[j]));
        }
    }
}

/// Whether the resolved list already holds a package with this name.
fn contains_package_name(resolved: &Vec<Package>, name: &str) -> (r: bool)
    ensures
        r == has_def(resolved.deep_view(), name@),
{
    let mut i: usize = 0;
    while i < resolved.len()
        invariant
            i <= resolved@.len(),
            forall|j: int| 0 <= j < i ==> (#[trigger] resolved.deep_view()[j]).name != name@,
        decreases resolved@.len() - i,
    {
        if str_eq(resolved[i].name.as_str(), name) {
            proof {
                assert(resolved.deep_view()[i as int].name == name@);
            }
            return true;
        }
        i = i + 1;
    }
    false
}

impl Manager {
    /// Whether the tracker currently reports the package as installed.
    pub fn is_installed(&self, package_name: &str) -> (r: bool)
        ensures
            r == installed_in(self.statuses(), package_name@),
    {
        let mut i: usize = 0;
        while i < self.installed_cache.len()
            invariant
                i <= self.installed_cache@.len(),
                forall|j: int|
                    0 <= j < i ==> !((#[trigger] self.statuses()[j]).0 == package_name@
                        && self.statuses()[j].1 is Installed),
            decreases self.installed_cache@.len() - i,
        {
            let entry = &self.installed_cache[i];
            if str_eq(entry.0.as_str(), package_name) {
                if let InstallStatus::Installed { .. } = entry.1 {
                    proof {
                        assert(self.statuses()[i as int].0 == package_name@
                            && self.statuses()[i as int].1 is Installed);
                    }
                    return true;
                }
            }
            i = i + 1;
        }
        false
    }

    /// The tracked status of a package; a package never seen reports
    /// `NotInstalled`.
    pub fn status(&self, package_name: &str) -> (r: InstallStatus)
        requires
            self.wf(),
        ensures
            (exists|i: int|
                0 <= i < self.statuses().len() && (#[trigger] self.statuses()[i]).0
                    == package_name@) ==> exists|i: int|
                0 <= i < self.statuses().len() && (#[trigger] self.statuses()[i]).0 == package_name@
                    && r@ == self.statuses()[i].1,
            !(exists|i: int|
                0 <= i < self.statuses().len() && (#[trigger] self.statuses()[i]).0
                    == package_name@) ==> r@ is NotInstalled,
    {
        let mut i: usize = 0;
        while i < self.installed_cache.len()
            invariant
                i <= self.installed_cache@.len(),
                forall|j: int| 0 <= j < i ==> (#[trigger] self.statuses()[j]).0 != package_name@,
            decreases self.installed_cache@.len() - i,
        {
            let entry = &self.installed_cache[i];
            if str_eq(entry.0.as_str(), package_name) {
                let st = entry.1.clone();
                proof {
                    assert(self.statuses()[i as int].0 == package_name@);
                    assert(st@ == self.statuses()[i as int].1);
                }
                return st;
            }
            i = i + 1;
        }
        InstallStatus::NotInstalled
    }

    /// Records a status for a package, replacing any earlier record.
    pub fn set_status(&mut self, package_name: &str, status: InstallStatus)
        requires
            old(self).wf(),
        ensures
            final(self).wf(),
            final(self).defs() == old(self).defs(),
            installed_in(final(self).statuses(), package_name@) == (status@ is Installed),
            forall|n: Seq<char>|
                n != package_name@ ==> installed_in(final(self).statuses(), n) == installed_in(
                    old(self).statuses(),
                    n,
                ),
            exists|i: int|
                0 <= i < final(self).statuses().len() && (#[trigger] final(self).statuses()[i]).0
                    == package_name@ && final(self).statuses()[i].1 == status@,
    {
        let ghost pre = self.statuses();
        let mut i: usize = 0;
        while i < self.installed_cache.len()
            invariant
                i <= self.installed_cache@.len(),
                self.statuses() == pre,
                self.loader == old(self).loader,
                self.wf(),
                forall|j: int| 0 <= j < i ==> (#[trigger] pre[j]).0 != package_name@,
            decreases self.installed_cache@.len() - i,
        {
            if str_eq(self.installed_cache[i].0.as_str(), package_name) {
                let ghost found = i as int;
                let name_copy = self.installed_cache[i].0.clone();
                self.installed_cache.set(i, (name_copy, status));
                proof {
                    let cur = self.statuses();
                    assert(cur =~= pre.update(found, (package_name@, status@))) by {
                        assert(pre[found].0 == package_name@);
                        assert forall|w: int| 0 <= w < cur.len() implies cur[w] == pre.update(
                            found,
                            (package_name@, status@),
                        )[w] by {}
                    }
                    assert forall|a: int, b: int|
                        0 <= a < b < cur.len() implies (#[trigger] cur[a]).0 != (
                    #[trigger] cur[b]).0 by {
                        assert(pre[a].0 != pre[b].0);
                        assert(pre[found].0 == package_name@);
                    }
                    assert(installed_in(cur, package_name@) == (status@ is Installed)) by {
                        if status@ is Installed {
                            assert(cur[found].0 == package_name@ && cur[found].1 is Installed);
                        } else {
                            assert forall|w: int|
                                0 <= w < cur.len() && (#[trigger] cur[w]).0 == package_name@
                                    implies !(cur[w].1 is Installed) by {
                                if w != found {
                                    assert(pre[w].0 == package_name@);
                                    assert(pre[w].0 != pre[found].0);
                                }
                            }
                        }
                    }
                    assert forall|n: Seq<char>| n != package_name@ implies installed_in(cur, n)
                        == installed_in(pre, n) by {
                        if installed_in(pre, n) {
                            let w = choose|w: int|
                                0 <= w < pre.len() && (#[trigger] pre[w]).0 == n && pre[w].1
                                    is Installed;
                            assert(cur[w].0 == n && cur[w].1 is Installed);
                        }
                        if installed_in(cur, n) {
                            let w = choose|w: int|
                                0 <= w < cur.len() && (#[trigger] cur[w]).0 == n && cur[w].1
                                    is Installed;
                            assert(pre[w].0 == n && pre[w].1 is Installed);
                        }
                    }
                }
                return ;
            }
            i = i + 1;
        }
        self.installed_cache.push((package_name.to_owned(), status));
        proof {
            let cur = self.statuses();
            assert(cur =~= pre.push((package_name@, status@))) by {
                assert forall|w: int| 0 <= w < cur.len() implies cur[w] == pre.push(
                    (package_name@, status@),
                )[w] by {}
            }
            assert forall|a: int, b: int|
                0 <= a < b < cur.len() implies (#[trigger] cur[a]).0 != (#[trigger] cur[b]).0 by {
                if b < pre.len() {
                    assert(pre[a].0 != pre[b].0);
                } else {
                    assert(cur[b].0 == package_name@);
                    assert(pre[a].0 != package_name@);
                }
            }
            assert(installed_in(cur, package_name@) == (status@ is Installed)) by {
                if status@ is Installed {
                    assert(cur[cur.len() - 1].0 == package_name@ && cur[cur.len() - 1].1
                        is Installed);
                } else {
                    assert forall|w: int|
                        0 <= w < cur.len() && (#[trigger] cur[w]).0 == package_name@ implies !(
                    cur[w].1 is Installed) by {
                        if w < pre.len() {
                            assert(pre[w].0 != package_name@);
                        }
                    }
                }
            }
            assert forall|n: Seq<char>| n != package_name@ implies installed_in(cur, n)
                == installed_in(pre, n) by {
                if installed_in(pre, n) {
                    let w = choose|w: int|
                        0 <= w < pre.len() && (#[trigger] pre[w]).0 == n && pre[w].1 is Installed;
                    assert(cur[w].0 == n && cur[w].1 is Installed);
                }
                if installed_in(cur, n) {
                    let w = choose|w: int|
                        0 <= w < cur.len() && (#[trigger] cur[w]).0 == n && cur[w].1 is Installed;
                    assert(w < pre.len());
                    assert(pre[w].0 == n && pre[w].1 is Installed);
                }
            }
        }
    }

    /// Whether an install of this package should short-circuit with success:
    /// not forced, and already tracked as installed.
    pub fn should_skip_install(&self, package_name: &str, force: bool) -> (r: bool)
        ensures
            r == (!force && installed_in(self.statuses(), package_name@)),
    {
        if force {
            return false;
        }
        self.is_installed(package_name)
    }

    /// Records a successful install of the package at the given time.
    pub fn record_installed(&mut self, package: &Package, installed_at: String)
        requires
            old(self).wf(),
        ensures
            final(self).wf(),
            final(self).defs() == old(self).defs(),
            installed_in(final(self).statuses(), package@.name),
            forall|n: Seq<char>|
                n != package@.name ==> installed_in(final(self).statuses(), n) == installed_in(
                    old(self).statuses(),
                    n,
                ),
            exists|i: int|
                0 <= i < final(self).statuses().len() && (#[trigger] final(self).statuses()[i]).0
                    == package@.name && final(self).statuses()[i].1
                    == (crate::package::InstallStatusV::Installed {
                    version: package@.version,
                    installed_at: installed_at@,
                }),
    {
        let status = InstallStatus::Installed {
            version: package.version.clone(),
            installed_at,
        };
        self.set_status(package.name.as_str(), status);
    }

    /// The one batched native-manager command that installs every
    /// system-kind dependency of the package: `None` exactly when the package
    /// has no system dependencies, otherwise a single invocation whose
    /// arguments end with all the system-dependency names, in definition
    /// order.
    pub fn install_system_dependencies(&self, package: &Package) -> (r: Option<(
        String,
        Vec<String>,
    )>)
        ensures
            r is None <==> system_dep_names(package@).len() == 0,
            r matches Some(cmd) ==> cmd.0@ == "pacman"@ && cmd.1.deep_view() == seq![
                "-S"@,
                "--needed"@,
                "--noconfirm"@,
            ] + system_dep_names(package@),
    {
        let system_deps = package.get_dependencies(DependencyType::System);
        if system_deps.len() == 0 {
            proof {
                assert(system_dep_names(package@) =~= Seq::<Seq<char>>::empty());
            }
            return Option::None;
        }
        let mut args: Vec<String> = Vec::new();
        args.push("-S".to_owned());
        args.push("--needed".to_owned());
        args.push("--noconfirm".to_owned());
        let ghost prefix = seq!["-S"@, "--needed"@, "--noconfirm"@];
        proof {
            assert(args.deep_view() =~= prefix);
        }
        let mut i: usize = 0;
        while i < system_deps.len()
            invariant
                i <= system_deps@.len(),
                system_deps.deep_view() == package@.dependencies.filter(
                    |d: DependencyV| d.dep_type == DependencyType::System,
                ),
                args.deep_view() =~= prefix + system_deps.deep_view().map_values(
                    |d: DependencyV| d.name,
                ).subrange(0, i as int),
            decreases system_deps@.len() - i,
        {
            let ghost pre_args = args.deep_view();
            args.push(system_deps[i].name.clone());
            proof {
                let mapped = system_deps.deep_view().map_values(|d: DependencyV| d.name);
                assert forall|w: int| 0 <= w < args.deep_view().len() implies args.deep_view()[w]
                    == (prefix + mapped.subrange(0, i + 1))[w] by {
                    if w < pre_args.len() {
                        assert(args.deep_view()[w] == pre_args[w]);
                    } else {
                        assert(args.deep_view()[w] == system_deps.deep_view()[i as int].name);
                        assert(mapped[i as int] == system_deps.deep_view()[i as int].name);
                    }
                }
                assert(args.deep_view() =~= prefix + mapped.subrange(0, i + 1));
            }
            i = i + 1;
        }
        proof {
            let mapped = system_deps.deep_view().map_values(|d: DependencyV| d.name);
            assert(mapped.subrange(0, mapped.len() as int) =~= mapped);
            assert(args.deep_view() =~= prefix + system_dep_names(package@));
        }
        Option::Some(("pacman".to_owned(), args))
    }
}

/// Resolved names in non-decreasing lexicographic order.
pub open spec fn pkgs_sorted_by_name(res: Seq<PackageV>) -> bool {
    forall|i: int, j: int|
        0 <= i < j < res.len() ==> crate::strutil::lex_le(
            (#[trigger] res[i]).name,
            (#[trigger] res[j]).name,
        )
}

/// The first position whose package name does not come strictly before
/// `name`.
fn find_pos_by_name(out: &Vec<Package>, name: &String) -> (pos: usize)
    requires
        pkgs_sorted_by_name(out.deep_view()),
    ensures
        pos <= out.deep_view().len(),
        forall|j: int|
            0 <= j < pos ==> crate::strutil::lex_le((#[trigger] out.deep_view()[j]).name, name@),
        pos < out.deep_view().len() ==> crate::strutil::lex_le(name@, out.deep_view()[pos as int].name),
{
    let mut i: usize = 0;
    while i < out.len()
        invariant
            i <= out@.len(),
            forall|j: int|
                0 <= j < i ==> !crate::strutil::lex_le(name@, (#[trigger] out.deep_view()[j]).name),
        decreases out@.len() - i,
    {
        if crate::strutil::str_le(name.as_str(), out[i].name.as_str()) {
            proof {
                assert forall|j: int|
                    0 <= j < i implies crate::strutil::lex_le(
                    (#[trigger] out.deep_view()[j]).name,
                    name@,
                ) by {
                    crate::strutil::lemma_lex_le_total(name@, out.deep_view()[j].name);
                }
            }
            return i;
        }
        i = i + 1;
    }
    proof {
        assert forall|j: int|
            0 <= j < i implies crate::strutil::lex_le(
            (#[trigger] out.deep_view()[j]).name,
            name@,
        ) by {
            crate::strutil::lemma_lex_le_total(name@, out.deep_view()[j].name);
        }
    }
    i
}

/// Inserts a package into a name-sorted vector, keeping it sorted.
fn insert_by_name(out: &mut Vec<Package>, p: Package)
    requires
        pkgs_sorted_by_name(old(out).deep_view()),
    ensures
        pkgs_sorted_by_name(final(out).deep_view()),
        final(out).deep_view().to_multiset() == old(out).deep_view().to_multiset().insert(p@),
{
    broadcast use vstd::seq_lib::to_multiset_insert;

    let ghost pre = out.deep_view();
    let pos = find_pos_by_name(out, &p.name);
    let ghost pi = pos as int;
    out.insert(pos, p);
    proof {
        let cur = out.deep_view();
        assert(cur =~= pre.insert(pi, p@)) by {
            assert forall|w: int| 0 <= w < cur.len() implies cur[w] == pre.insert(pi, p@)[w] by {}
        }
        assert forall|a: int, b: int|
            0 <= a < b < cur.len() implies crate::strutil::lex_le(
            (#[trigger] cur[a]).name,
            (#[trigger] cur[b]).name,
        ) by {
            let ra = if a < pi {
                a
            } else {
                a - 1
            };
            let rb = if b < pi {
                b
            } else {
                b - 1
            };
            if a == pi {
                assert(cur[b] == pre[rb]);
                if rb == pi {
                    assert(crate::strutil::lex_le(p@.name, pre[pi].name));
                } else {
                    assert(crate::strutil::lex_le(pre[pi].name, pre[rb].name));
                    crate::strutil::lemma_lex_le_trans(p@.name, pre[pi].name, pre[rb].name);
                }
            } else if b == pi {
                assert(cur[a] == pre[ra]);
                assert(crate::strutil::lex_le(pre[ra].name, p@.name));
            } else {
                assert(cur[a] == pre[ra] && cur[b] == pre[rb]);
            }
        }
    }
}

/// Sorts packages by name, in lexicographic (code point) order, keeping the
/// collection.
pub fn sort_packages_by_name(v: Vec<Package>) -> (r: Vec<Package>)
    ensures
        pkgs_sorted_by_name(r.deep_view()),
        r.deep_view().to_multiset() == v.deep_view().to_multiset(),
{
    broadcast use vstd::seq_lib::group_to_multiset_ensures;

    let mut r: Vec<Package> = Vec::new();
    let mut i: usize = 0;
    proof {
        assert(r.deep_view() =~= Seq::<PackageV>::empty());
        assert(v.deep_view().subrange(0, 0) =~= Seq::<PackageV>::empty());
        assert(r.deep_view().to_multiset() =~= v.deep_view().subrange(0, 0).to_multiset());
    }
    while i < v.len()
        invariant
            i <= v@.len(),
            pkgs_sorted_by_name(r.deep_view()),
            r.deep_view().to_multiset() == v.deep_view().subrange(0, i as int).to_multiset(),
        decreases v@.len() - i,
    {
        let ghost pre_ms = r.deep_view().to_multiset();
        insert_by_name(&mut r, v[i].clone());
        proof {
            let prefix1 = v.deep_view().subrange(0, i + 1);
            assert(prefix1.drop_last() =~= v.deep_view().subrange(0, i as int));
            assert(prefix1 =~= prefix1.drop_last().push(v.deep_view()[i as int]));
            assert(prefix1.to_multiset() =~= prefix1.drop_last().to_multiset().insert(
                v.deep_view()[i as int],
            ));
        }
        i = i + 1;
    }
    proof {
        assert(v.deep_view().subrange(0, v.deep_view().len() as int) =~= v.deep_view());
    }
    r
}

/// Whether the package carries the category, when one is asked for.
pub open spec fn category_ok(p: PackageV, category: Option<Seq<char>>) -> bool {
    match category {
        Option::Some(c) => p.categories.contains(c),
        Option::None => true,
    }
}

impl Manager {
    /// All definitions carrying the requested category (all definitions when
    /// none is named), sorted by name.
    pub fn list_packages(&self, args: &crate::cli::ListArgs) -> (r: Result<Vec<Package>, Error>)
        ensures
            r matches Ok(pkgs) ==> {
                &&& pkgs_sorted_by_name(pkgs.deep_view())
                &&& pkgs.deep_view().to_multiset() == self.defs().filter(
                    |p: PackageV| category_ok(p, args.category.deep_view()),
                ).to_multiset()
            },
            r is Ok,
    {
        let mut picked: Vec<Package> = Vec::new();
        let defs = self.loader.packages();
        let mut i: usize = 0;
        proof {
            assert(picked.deep_view() =~= Seq::<PackageV>::empty());
        }
        while i < defs.len()
            invariant
                i <= defs@.len(),
                defs.deep_view() == self.defs(),
                picked.deep_view() =~= self.defs().subrange(0, i as int).filter(
                    |p: PackageV| category_ok(p, args.category.deep_view()),
                ),
            decreases defs@.len() - i,
        {
            proof {
                assert(self.defs().subrange(0, i + 1 as int).drop_last() =~= self.defs().subrange(
                    0,
                    i as int,
                ));
                reveal_with_fuel(Seq::filter, 2);
            }
            let keep = match &args.category {
                Option::Some(c) => crate::definition::contains_string(&defs[i].categories, c.as_str()),
                Option::None => true,
            };
            if keep {
                picked.push(defs[i].clone());
            }
            i = i + 1;
        }
        proof {
            assert(self.defs().subrange(0, self.defs().len() as int) =~= self.defs());
        }
        Result::Ok(sort_packages_by_name(picked))
    }

    /// The arguments of the read-only native-manager query for one candidate
    /// package name.
    pub fn pacman_query_args(candidate: &str) -> (r: Vec<String>)
        ensures
            r.deep_view() =~= seq!["-Q"@, candidate@],
    {
        let mut r: Vec<String> = Vec::new();
        r.push("-Q".to_owned());
        r.push(candidate.to_owned());
        r
    }

    /// The status a probe reports for one package. For a native-manager
    /// method the caller queries each candidate name in order and hands over
    /// the raw output of each successful query; the first hit decides the
    /// installed version (the second word of the query output). Other
    /// methods always report `NotInstalled` here and only become `Installed`
    /// through an orchestrated install in the same session.
    pub fn check_package_status(&self, package: &Package, probe: &Vec<Option<String>>) -> (r:
        InstallStatus)
        requires
            package.installation matches Installation::Pacman { packages, .. } ==> probe@.len()
                == packages@.len(),
        ensures
            !(package.installation matches Installation::Pacman { .. }) ==> r@ is NotInstalled,
            package.installation matches Installation::Pacman { .. } ==> {
                let ps = probe.deep_view();
                if exists|i: int| 0 <= i < ps.len() && (#[trigger] ps[i]) is Some {
                    exists|i: int|
                        {
                            &&& 0 <= i < ps.len()
                            &&& (#[trigger] ps[i]) matches Option::Some(out)
                            &&& forall|j: int| 0 <= j < i ==> (#[trigger] ps[j]) is None
                            &&& r@ == crate::package::InstallStatusV::Installed {
                                version: match crate::strutil::second_word(out) {
                                    Option::Some(w) => w,
                                    Option::None => "unknown"@,
                                },
                                installed_at: "unknown"@,
                            }
                        }
                } else {
                    r@ is NotInstalled
                }
            },
    {
        match &package.installation {
            Installation::Pacman { .. } => {
                let mut i: usize = 0;
                while i < probe.len()
                    invariant
                        i <= probe@.len(),
                        forall|j: int| 0 <= j < i ==> (#[trigger] probe.deep_view()[j]) is None,
                    decreases probe@.len() - i,
                {
                    if let Option::Some(out) = &probe[i] {
                        let version = crate::strutil::second_word_or_unknown(out.as_str());
                        let st = InstallStatus::Installed {
                            version,
                            installed_at: "unknown".to_owned(),
                        };
                        proof {
                            assert(probe.deep_view()[i as int] matches Option::Some(o) && o
                                == out@);
                        }
                        return st;
                    }
                    i = i + 1;
                }
                InstallStatus::NotInstalled
            },
            _ => InstallStatus::NotInstalled,
        }
    }

    /// Relies on chrono's `Utc::now` and its RFC 3339 rendering; the moment
    /// it names depends on the clock, so nothing is promised of the text.
    #[verifier::external_body]
    fn now_rfc3339() -> (r: String) {
        chrono::Utc::now().to_rfc3339()
    }

    /// Records a successful orchestration run: the package is tracked as
    /// installed at its definition's version, timestamped with the clock.
    pub fn finish_install(&mut self, package: &Package)
        requires
            old(self).wf(),
        ensures
            final(self).wf(),
            final(self).defs() == old(self).defs(),
            installed_in(final(self).statuses(), package@.name),
            forall|n: Seq<char>|
                n != package@.name ==> installed_in(final(self).statuses(), n) == installed_in(
                    old(self).statuses(),
                    n,
                ),
    {
        let stamp = Self::now_rfc3339();
        self.record_installed(package, stamp);
    }

    /// The definitions of tracked-installed packages, each paired with the
    /// placeholder version the session knows for it.
    pub fn get_installed_packages(&self) -> (r: Vec<(String, String)>)
        ensures
            r.deep_view() == self.defs().filter(
                |p: PackageV| installed_in(self.statuses(), p.name),
            ).map_values(|p: PackageV| (p.name, "unknown"@)),
    {
        let mut r: Vec<(String, String)> = Vec::new();
        let defs = self.loader.packages();
        let mut i: usize = 0;
        proof {
            assert(r.deep_view() =~= Seq::<(Seq<char>, Seq<char>)>::empty());
            assert(self.defs().subrange(0, 0).filter(
                |p: PackageV| installed_in(self.statuses(), p.name),
            ).map_values(|p: PackageV| (p.name, "unknown"@)) =~= Seq::<(
                Seq<char>,
                Seq<char>,
            )>::empty());
        }
        while i < defs.len()
            invariant
                i <= defs@.len(),
                defs.deep_view() == self.defs(),
                r.deep_view() =~= self.defs().subrange(0, i as int).filter(
                    |p: PackageV| installed_in(self.statuses(), p.name),
                ).map_values(|p: PackageV| (p.name, "unknown"@)),
            decreases defs@.len() - i,
        {
            let ghost pred = |p: PackageV| installed_in(self.statuses(), p.name);
            let ghost f = |p: PackageV| (p.name, "unknown"@);
            proof {
                assert(self.defs().subrange(0, i + 1 as int).drop_last() =~= self.defs().subrange(
                    0,
                    i as int,
                ));
                reveal_with_fuel(Seq::filter, 2);
            }
            let ghost pre = r.deep_view();
            if self.is_installed(defs[i].name.as_str()) {
                r.push((defs[i].name.clone(), "unknown".to_owned()));
                proof {
                    let prefix1 = self.defs().subrange(0, i + 1 as int);
                    assert(prefix1.filter(pred) =~= prefix1.drop_last().filter(pred).push(
                        self.defs()[i as int],
                    ));
                    assert forall|w: int|
                        0 <= w < r.deep_view().len() implies r.deep_view()[w] == prefix1.filter(
                        pred,
                    ).map_values(f)[w] by {
                        if w < pre.len() {
                            assert(r.deep_view()[w] == pre[w]);
                        } else {
                            assert(r.deep_view()[w] == (self.defs()[i as int].name, "unknown"@));
                        }
                    }
                    assert(r.deep_view() =~= prefix1.filter(pred).map_values(f));
                }
            } else {
                proof {
                    let prefix1 = self.defs().subrange(0, i + 1 as int);
                    assert(prefix1.filter(pred) =~= prefix1.drop_last().filter(pred));
                    assert(r.deep_view() =~= prefix1.filter(pred).map_values(f));
                }
            }
            i = i + 1;
        }
        proof {
            assert(self.defs().subrange(0, self.defs().len() as int) =~= self.defs());
        }
        r
    }
}

/// The search rank of a definition against a lowercased query: exact name
/// matches come first.
pub open spec fn search_rank(p: PackageV, lq: Seq<char>) -> int {
    if crate::strutil::lower_of(p.name) == lq {
        0
    } else {
        1
    }
}

/// Search order: exact name matches first, then names in lexicographic
/// order.
pub open spec fn search_le(a: PackageV, b: PackageV, lq: Seq<char>) -> bool {
    search_rank(a, lq) < search_rank(b, lq) || (search_rank(a, lq) == search_rank(b, lq)
        && crate::strutil::lex_le(a.name, b.name))
}

/// Results in search order throughout.
pub open spec fn pkgs_sorted_by_search(res: Seq<PackageV>, lq: Seq<char>) -> bool {
    forall|i: int, j: int|
        0 <= i < j < res.len() ==> search_le(#[trigger] res[i], #[trigger] res[j], lq)
}

/// The order is total.
proof fn lemma_search_le_total(a: PackageV, b: PackageV, lq: Seq<char>)
    ensures
        search_le(a, b, lq) || search_le(b, a, lq),
{
    crate::strutil::lemma_lex_le_total(a.name, b.name);
}

/// The order is transitive.
proof fn lemma_search_le_trans(a: PackageV, b: PackageV, c: PackageV, lq: Seq<char>)
    requires
        search_le(a, b, lq),
        search_le(b, c, lq),
    ensures
        search_le(a, c, lq),
{
    if search_rank(a, lq) == search_rank(b, lq) && search_rank(b, lq) == search_rank(c, lq) {
        crate::strutil::lemma_lex_le_trans(a.name, b.name, c.name);
    }
}

/// The first position that does not come strictly before `p` in search
/// order.
fn find_pos_by_search(out: &Vec<Package>, p: &Package, exact: bool, lq: &String) -> (pos: usize)
    requires
        pkgs_sorted_by_search(out.deep_view(), lq@),
        exact == (crate::strutil::lower_of(p@.name) == lq@),
    ensures
        pos <= out.deep_view().len(),
        forall|j: int| 0 <= j < pos ==> search_le(#[trigger] out.deep_view()[j], p@, lq@),
        pos < out.deep_view().len() ==> search_le(p@, out.deep_view()[pos as int], lq@),
{
    let mut i: usize = 0;
    while i < out.len()
        invariant
            i <= out@.len(),
            exact == (crate::strutil::lower_of(p@.name) == lq@),
            forall|j: int| 0 <= j < i ==> !search_le(p@, #[trigger] out.deep_view()[j], lq@),
        decreases out@.len() - i,
    {
        let other = &out[i];
        let other_lower = crate::strutil::to_lowercase(other.name.as_str());
        let other_exact = crate::strutil::str_eq(other_lower.as_str(), lq.as_str());
        let le = if exact && !other_exact {
            true
        } else if !exact && other_exact {
            false
        } else {
            crate::strutil::str_le(p.name.as_str(), other.name.as_str())
        };
        proof {
            assert(other_exact == (crate::strutil::lower_of(out.deep_view()[i as int].name)
                == lq@));
            assert(le == search_le(p@, out.deep_view()[i as int], lq@));
        }
        if le {
            proof {
                assert forall|j: int|
                    0 <= j < i implies search_le(#[trigger] out.deep_view()[j], p@, lq@) by {
                    lemma_search_le_total(p@, out.deep_view()[j], lq@);
                }
            }
            return i;
        }
        i = i + 1;
    }
    proof {
        assert forall|j: int|
            0 <= j < i implies search_le(#[trigger] out.deep_view()[j], p@, lq@) by {
            lemma_search_le_total(p@, out.deep_view()[j], lq@);
        }
    }
    i
}

/// Inserts a package into a search-ordered vector, keeping the order.
fn insert_by_search(out: &mut Vec<Package>, p: Package, exact: bool, lq: &String)
    requires
        pkgs_sorted_by_search(old(out).deep_view(), lq@),
        exact == (crate::strutil::lower_of(p@.name) == lq@),
    ensures
        pkgs_sorted_by_search(final(out).deep_view(), lq@),
        final(out).deep_view().to_multiset() == old(out).deep_view().to_multiset().insert(p@),
{
    broadcast use vstd::seq_lib::to_multiset_insert;

    let ghost pre = out.deep_view();
    let pos = find_pos_by_search(out, &p, exact, lq);
    let ghost pi = pos as int;
    out.insert(pos, p);
    proof {
        let cur = out.deep_view();
        assert(cur =~= pre.insert(pi, p@)) by {
            assert forall|w: int| 0 <= w < cur.len() implies cur[w] == pre.insert(pi, p@)[w] by {}
        }
        assert forall|a: int, b: int|
            0 <= a < b < cur.len() implies search_le(#[trigger] cur[a], #[trigger] cur[b], lq@) by {
            let ra = if a < pi {
                a
            } else {
                a - 1
            };
            let rb = if b < pi {
                b
            } else {
                b - 1
            };
            if a == pi {
                assert(cur[b] == pre[rb]);
                if rb == pi {
                    assert(search_le(p@, pre[pi], lq@));
                } else {
                    assert(search_le(pre[pi], pre[rb], lq@));
                    lemma_search_le_trans(p@, pre[pi], pre[rb], lq@);
                }
            } else if b == pi {
                assert(cur[a] == pre[ra]);
                assert(search_le(pre[ra], p@, lq@));
            } else {
                assert(cur[a] == pre[ra] && cur[b] == pre[rb]);
            }
        }
    }
}

impl Manager {
    /// Every definition that matches the query (case-insensitively, against
    /// name, description and tags), narrowed by category and by installed
    /// state when asked, ordered with exact name matches first and by name
    /// within each class.
    pub fn search_packages(&self, query: &str, args: &crate::cli::SearchArgs) -> (r: Result<
        Vec<Package>,
        Error,
    >)
        ensures
            r is Ok,
            r matches Ok(pkgs) ==> {
                &&& pkgs_sorted_by_search(pkgs.deep_view(), crate::strutil::lower_of(query@))
                &&& pkgs.deep_view().to_multiset() == self.defs().filter(
                    |p: PackageV|
                        DefinitionLoader::search_match(p, crate::strutil::lower_of(query@))
                            && category_ok(p, args.category.deep_view()) && (args.installed
                            ==> installed_in(self.statuses(), p.name)),
                ).to_multiset()
            },
    {
        let query_lower = crate::strutil::to_lowercase(query);
        let ghost pred = |p: PackageV|
            DefinitionLoader::search_match(p, crate::strutil::lower_of(query@)) && category_ok(
                p,
                args.category.deep_view(),
            ) && (args.installed ==> installed_in(self.statuses(), p.name));
        let mut picked: Vec<Package> = Vec::new();
        let defs = self.loader.packages();
        let mut i: usize = 0;
        proof {
            assert(picked.deep_view() =~= Seq::<PackageV>::empty());
        }
        while i < defs.len()
            invariant
                i <= defs@.len(),
                defs.deep_view() == self.defs(),
                query_lower@ == crate::strutil::lower_of(query@),
                picked.deep_view() =~= self.defs().subrange(0, i as int).filter(pred),
            decreases defs@.len() - i,
        {
            proof {
                assert(self.defs().subrange(0, i + 1 as int).drop_last() =~= self.defs().subrange(
                    0,
                    i as int,
                ));
                reveal_with_fuel(Seq::filter, 2);
            }
            let p = &defs[i];
            let mut keep = DefinitionLoader::package_matches(p, &query_lower);
            if keep {
                keep = match &args.category {
                    Option::Some(c) => crate::definition::contains_string(
                        &p.categories,
                        c.as_str(),
                    ),
                    Option::None => true,
                };
            }
            if keep && args.installed {
                keep = self.is_installed(p.name.as_str());
            }
            proof {
                assert(keep == pred(self.defs()[i as int]));
            }
            if keep {
                picked.push(p.clone());
            }
            i = i + 1;
        }
        proof {
            assert(self.defs().subrange(0, self.defs().len() as int) =~= self.defs());
        }
        // order the hits: exact name matches first, then by name
        broadcast use vstd::seq_lib::group_to_multiset_ensures;

        let mut sorted: Vec<Package> = Vec::new();
        let mut k: usize = 0;
        proof {
            assert(sorted.deep_view() =~= Seq::<PackageV>::empty());
            assert(picked.deep_view().subrange(0, 0) =~= Seq::<PackageV>::empty());
            assert(sorted.deep_view().to_multiset() =~= picked.deep_view().subrange(
                0,
                0,
            ).to_multiset());
        }
        while k < picked.len()
            invariant
                k <= picked@.len(),
                query_lower@ == crate::strutil::lower_of(query@),
                pkgs_sorted_by_search(sorted.deep_view(), crate::strutil::lower_of(query@)),
                sorted.deep_view().to_multiset() == picked.deep_view().subrange(
                    0,
                    k as int,
                ).to_multiset(),
            decreases picked@.len() - k,
        {
            let p = picked[k].clone();
            let name_lower = crate::strutil::to_lowercase(p.name.as_str());
            let exact = crate::strutil::str_eq(name_lower.as_str(), query_lower.as_str());
            insert_by_search(&mut sorted, p, exact, &query_lower);
            proof {
                let prefix1 = picked.deep_view().subrange(0, k + 1);
                assert(prefix1.drop_last() =~= picked.deep_view().subrange(0, k as int));
                assert(prefix1 =~= prefix1.drop_last().push(picked.deep_view()[k as int]));
                assert(prefix1.to_multiset() =~= prefix1.drop_last().to_multiset().insert(
                    picked.deep_view()[k as int],
                ));
            }
            k = k + 1;
        }
        proof {
            assert(picked.deep_view().subrange(0, picked.deep_view().len() as int)
                =~= picked.deep_view());
        }
        Result::Ok(sorted)
    }
}

/// Whether an installed record is outdated: a definition of that name exists
/// and its version differs from the installed one.
pub open spec fn update_candidate(defs: Seq<PackageV>, e: (Seq<char>, Seq<char>)) -> bool {
    exists|q: int|
        0 <= q < defs.len() && (#[trigger] defs[q]).name == e.0 && defs[q].version != e.1
}

/// The definition that carries the given name.
pub open spec fn def_named(defs: Seq<PackageV>, name: Seq<char>) -> PackageV {
    defs[choose|q: int| 0 <= q < defs.len() && (#[trigger] defs[q]).name == name]
}

impl Manager {
    /// The definitions of the given installed packages whose definition
    /// version differs from the installed one, in the order given.
    pub fn updates_available(&self, installed: &Vec<(String, String)>) -> (r: Vec<Package>)
        requires
            self.wf(),
        ensures
            r.deep_view() == installed.deep_view().filter(
                |e: (Seq<char>, Seq<char>)| update_candidate(self.defs(), e),
            ).map_values(|e: (Seq<char>, Seq<char>)| def_named(self.defs(), e.0)),
    {
        let ghost pred = |e: (Seq<char>, Seq<char>)| update_candidate(self.defs(), e);
        let ghost f = |e: (Seq<char>, Seq<char>)| def_named(self.defs(), e.0);
        let mut r: Vec<Package> = Vec::new();
        let mut i: usize = 0;
        proof {
            assert(r.deep_view() =~= Seq::<PackageV>::empty());
            assert(installed.deep_view().subrange(0, 0).filter(pred).map_values(f) =~= Seq::<
                PackageV,
            >::empty());
        }
        while i < installed.len()
            invariant
                i <= installed@.len(),
                r.deep_view() =~= installed.deep_view().subrange(0, i as int).filter(
                    pred,
                ).map_values(f),
            decreases installed@.len() - i,
        {
            proof {
                assert(installed.deep_view().subrange(0, i + 1 as int).drop_last()
                    =~= installed.deep_view().subrange(0, i as int));
                reveal_with_fuel(Seq::filter, 2);
            }
            let ghost e = installed.deep_view()[i as int];
            let ghost pre = r.deep_view();
            let entry = &installed[i];
            let hit = self.loader.get_package(entry.0.as_str());
            match hit {
                Option::Some(p) => {
                    if !crate::strutil::str_eq(p.version.as_str(), entry.1.as_str()) {
                        proof {
                            let w = choose|w: int|
                                0 <= w < self.defs().len() && self.defs()[w] == p@;
                            assert(update_candidate(self.defs(), e));
                            let q = choose|q: int|
                                0 <= q < self.defs().len() && (#[trigger] self.defs()[q]).name
                                    == e.0;
                            if q != w {
                                assert(self.defs()[q].name != self.defs()[w].name);
                            }
                            assert(def_named(self.defs(), e.0) == p@);
                        }
                        r.push(p.clone());
                        proof {
                            let prefix1 = installed.deep_view().subrange(0, i + 1 as int);
                            assert(prefix1.filter(pred) =~= prefix1.drop_last().filter(pred).push(
                                e,
                            ));
                            assert forall|w: int|
                                0 <= w < r.deep_view().len() implies r.deep_view()[w]
                                == prefix1.filter(pred).map_values(f)[w] by {
                                if w < pre.len() {
                                    assert(r.deep_view()[w] == pre[w]);
                                }
                            }
                            assert(r.deep_view() =~= prefix1.filter(pred).map_values(f));
                        }
                    } else {
                        proof {
                            // the only definition with this name has the same
                            // version, so the entry is not a candidate
                            let w = choose|w: int|
                                0 <= w < self.defs().len() && self.defs()[w] == p@;
                            assert forall|q: int|
                                !(0 <= q < self.defs().len() && (#[trigger] self.defs()[q]).name
                                    == e.0 && self.defs()[q].version != e.1) by {
                                if 0 <= q < self.defs().len() && self.defs()[q].name == e.0 {
                                    if q != w {
                                        assert(self.defs()[q].name != self.defs()[w].name);
                                    }
                                }
                            }
                            let prefix1 = installed.deep_view().subrange(0, i + 1 as int);
                            assert(prefix1.filter(pred) =~= prefix1.drop_last().filter(pred));
                            assert(r.deep_view() =~= prefix1.filter(pred).map_values(f));
                        }
                    }
                },
                Option::None => {
                    proof {
                        assert forall|q: int|
                            !(0 <= q < self.defs().len() && (#[trigger] self.defs()[q]).name == e.0
                                && self.defs()[q].version != e.1) by {}
                        let prefix1 = installed.deep_view().subrange(0, i + 1 as int);
                        assert(prefix1.filter(pred) =~= prefix1.drop_last().filter(pred));
                        assert(r.deep_view() =~= prefix1.filter(pred).map_values(f));
                    }
                },
            }
            i = i + 1;
        }
        proof {
            assert(installed.deep_view().subrange(0, installed.deep_view().len() as int)
                =~= installed.deep_view());
        }
        r
    }
}

/// Optional dependencies never drag a package in: a resolved name that was
/// not requested is a mandatory package-kind dependency of some resolved
/// package.
pub proof fn lemma_only_requested_or_required(
    defs: Seq<PackageV>,
    res: Seq<PackageV>,
    roots: Set<Seq<char>>,
    name: Seq<char>,
)
    requires
        all_justified(defs, Seq::<Seq<char>>::empty(), res, roots),
        has_def(res, name),
        !roots.contains(name),
    ensures
        exists|j: int| 0 <= j < res.len() && is_mand_dep_of(name, #[trigger] res[j]),
{
    let i = choose|i: int| 0 <= i < res.len() && (#[trigger] res[i]).name == name;
    assert(name_justified(defs, Seq::<Seq<char>>::empty(), res, res[i].name, roots));
}

} // verus!
