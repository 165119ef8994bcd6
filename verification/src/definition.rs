//! The definition store: a name-keyed collection of validated package
//! definitions, with lookup, search and category queries.

use vstd::prelude::*;
use crate::error::Error;
use crate::error::concat_str;
use crate::package::Package;
use crate::package::PackageV;
use crate::package::Installation;
use crate::package::InstallationV;
use crate::strutil::contains_seq;
use crate::strutil::contains_substring;
use crate::strutil::lower_of;
use crate::strutil::str_eq;
use crate::strutil::to_lowercase;

verus! {

/// Whether an installation method has all its required fields non-empty.
pub open spec fn installation_valid(inst: InstallationV) -> bool {
    match inst {
        InstallationV::Pacman { packages, .. } => packages.len() > 0,
        InstallationV::Aur { package, .. } => package.len() > 0,
        InstallationV::Binary { url, install_path, .. } => url.len() > 0 && install_path.len()
            > 0,
        InstallationV::Source { url, build_commands, install_commands } => url.len() > 0
            && build_commands.len() > 0 && install_commands.len() > 0,
        InstallationV::Script { script, .. } => script.len() > 0,
        InstallationV::AppImage { url, .. } => url.len() > 0,
        InstallationV::Flatpak { id, .. } => id.len() > 0,
    }
}

/// The message reported for an invalid installation method, given the
/// owning package's name.
pub open spec fn installation_error_msg(inst: InstallationV, name: Seq<char>) -> Seq<char> {
    match inst {
        InstallationV::Pacman { .. } => "Package "@ + name + " has empty pacman packages list"@,
        InstallationV::Aur { .. } => "Package "@ + name + " has empty AUR package name"@,
        InstallationV::Binary { .. } => "Package "@ + name
            + " has invalid binary installation config"@,
        InstallationV::Source { url, build_commands, .. } => {
            if url.len() == 0 {
                "Package "@ + name + " has empty source URL"@
            } else if build_commands.len() == 0 {
                "Package "@ + name + " has empty build commands"@
            } else {
                "Package "@ + name + " has empty install commands"@
            }
        },
        InstallationV::Script { .. } => "Package "@ + name + " has empty installation script"@,
        InstallationV::AppImage { .. } => "Package "@ + name + " has empty AppImage URL"@,
        InstallationV::Flatpak { .. } => "Package "@ + name + " has empty Flatpak ID"@,
    }
}

/// Whether a whole definition passes load-time validation.
pub open spec fn package_valid(p: PackageV) -> bool {
    &&& p.name.len() > 0
    &&& p.version.len() > 0
    &&& p.description.len() > 0
    &&& installation_valid(p.installation)
    &&& forall|i: int| 0 <= i < p.dependencies.len() ==> (#[trigger] p.dependencies[i]).name.len()
        > 0
}

/// The message reported for an invalid definition: the first failing check,
/// in validation order. `None` when the definition is valid.
pub open spec fn validation_error(p: PackageV) -> Option<Seq<char>> {
    if p.name.len() == 0 {
        Option::Some("Package name cannot be empty"@)
    } else if p.version.len() == 0 {
        Option::Some("Package "@ + p.name + " missing version"@)
    } else if p.description.len() == 0 {
        Option::Some("Package "@ + p.name + " missing description"@)
    } else if !installation_valid(p.installation) {
        Option::Some(installation_error_msg(p.installation, p.name))
    } else if exists|i: int|
        0 <= i < p.dependencies.len() && (#[trigger] p.dependencies[i]).name.len() == 0 {
        Option::Some("Package "@ + p.name + " has dependency with empty name"@)
    } else {
        Option::None
    }
}

/// Whether a definition with the given name is present.
pub open spec fn has_def(defs: Seq<PackageV>, name: Seq<char>) -> bool {
    exists|i: int| 0 <= i < defs.len() && (#[trigger] defs[i]).name == name
}

/// Whether definition names are pairwise distinct.
pub open spec fn store_wf(defs: Seq<PackageV>) -> bool {
    forall|i: int, j: int|
        0 <= i < j < defs.len() ==> (#[trigger] defs[i]).name != (#[trigger] defs[j]).name
}

/// Builds the "Package {name} {suffix}" validation messages.
fn pkg_msg(name: &String, suffix: &str) -> (r: String)
    ensures
        r@ == "Package "@ + name@ + suffix@,
{
    let mut s = concat_str("Package ", name.as_str());
    s.append(suffix);
    s
}

/// Loads and holds package definitions, keyed by name.
pub struct DefinitionLoader {
    packages: Vec<Package>,
}

impl DefinitionLoader {
    /// The definitions currently held, as mathematical values, in insertion
    /// order.
    pub closed spec fn defs(&self) -> Seq<PackageV> {
        self.packages.deep_view()
    }

    /// Names are pairwise distinct.
    pub open spec fn wf(&self) -> bool {
        store_wf(self.defs())
    }

    /// An empty store.
    pub fn new() -> (r: Self)
        ensures
            r.defs() == Seq::<PackageV>::empty(),
            r.wf(),
    {
        let r = DefinitionLoader { packages: Vec::new() };
        proof {
            assert(r.defs() =~= Seq::<PackageV>::empty());
        }
        r
    }

    /// All definitions, in insertion order.
    pub fn packages(&self) -> (r: &Vec<Package>)
        ensures
            r.deep_view() == self.defs(),
            r@.len() == self.defs().len(),
    {
        &self.packages
    }

    /// Validates a definition exactly as loading does: name, version and
    /// description must be non-empty, the installation method must be valid,
    /// and no dependency name may be empty.
    pub fn validate_package(&self, package: &Package) -> (r: Result<(), Error>)
        ensures
            r is Ok <==> package_valid(package@),
            r matches Err(e) ==> e matches Error::Config(m) && Option::Some(m@)
                == validation_error(package@),
    {
        if package.name.as_str().is_empty() {
            return Result::Err(Error::Config("Package name cannot be empty".to_owned()));
        }
        if package.version.as_str().is_empty() {
            return Result::Err(Error::Config(pkg_msg(&package.name, " missing version")));
        }
        if package.description.as_str().is_empty() {
            return Result::Err(Error::Config(pkg_msg(&package.name, " missing description")));
        }
        let inst_check = self.validate_installation(&package.installation, package.name.as_str());
        if let Result::Err(e) = inst_check {
            return Result::Err(e);
        }
        let mut i: usize = 0;
        while i < package.dependencies.len()
            invariant
                i <= package.dependencies@.len(),
                forall|j: int| 0 <= j < i ==> (#[trigger] package@.dependencies[j]).name.len()
                    > 0,
            decreases package.dependencies@.len() - i,
        {
            if package.dependencies[i].name.as_str().is_empty() {
                proof {
                    assert((package@.dependencies[i as int]).name.len() == 0);
                }
                return Result::Err(
                    Error::Config(pkg_msg(&package.name, " has dependency with empty name")),
                );
            }
            i = i + 1;
        }
        Result::Ok(())
    }

    /// Validates one installation method, reporting against the owning
    /// package's name.
    pub fn validate_installation(&self, installation: &Installation, package_name: &str) -> (r:
        Result<(), Error>)
        ensures
            r is Ok <==> installation_valid(installation@),
            r matches Err(e) ==> e matches Error::Config(m) && m@ == installation_error_msg(
                installation@,
                package_name@,
            ),
    {
        let name = package_name.to_owned();
        match installation {
            Installation::Pacman { packages, .. } => {
                if packages.len() == 0 {
                    return Result::Err(
                        Error::Config(pkg_msg(&name, " has empty pacman packages list")),
                    );
                }
            },
            Installation::Aur { package, .. } => {
                if package.as_str().is_empty() {
                    return Result::Err(
                        Error::Config(pkg_msg(&name, " has empty AUR package name")),
                    );
                }
            },
            Installation::Binary { url, install_path, .. } => {
                if url.as_str().is_empty() || install_path.as_str().is_empty() {
                    return Result::Err(
                        Error::Config(pkg_msg(&name, " has invalid binary installation config")),
                    );
                }
            },
            Installation::Source { url, build_commands, install_commands } => {
                if url.as_str().is_empty() {
                    return Result::Err(Error::Config(pkg_msg(&name, " has empty source URL")));
                }
                if build_commands.len() == 0 {
                    return Result::Err(
                        Error::Config(pkg_msg(&name, " has empty build commands")),
                    );
                }
                if install_commands.len() == 0 {
                    return Result::Err(
                        Error::Config(pkg_msg(&name, " has empty install commands")),
                    );
                }
            },
            Installation::Script { script, .. } => {
                if script.as_str().is_empty() {
                    return Result::Err(
                        Error::Config(pkg_msg(&name, " has empty installation script")),
                    );
                }
            },
            Installation::AppImage { url, .. } => {
                if url.as_str().is_empty() {
                    return Result::Err(Error::Config(pkg_msg(&name, " has empty AppImage URL")));
                }
            },
            Installation::Flatpak { id, .. } => {
                if id.as_str().is_empty() {
                    return Result::Err(Error::Config(pkg_msg(&name, " has empty Flatpak ID")));
                }
            },
        }
        Result::Ok(())
    }

    /// Validates a definition and stores it, replacing any definition of the
    /// same name. Rejected definitions leave the store unchanged.
    pub fn add_package(&mut self, package: Package) -> (r: Result<(), Error>)
        requires
            old(self).wf(),
        ensures
            final(self).wf(),
            r is Ok <==> package_valid(package@),
            r is Err ==> final(self).defs() == old(self).defs(),
            r matches Err(e) ==> e matches Error::Config(m) && Option::Some(m@)
                == validation_error(package@),
            r is Ok && !has_def(old(self).defs(), package@.name) ==> final(self).defs() == old(
                self,
            ).defs().push(package@),
            r is Ok && has_def(old(self).defs(), package@.name) ==> exists|i: int|
                0 <= i < old(self).defs().len() && old(self).defs()[i].name == package@.name
                    && final(self).defs() == old(self).defs().update(i, package@),
    {
        let valid = self.validate_package(&package);
        if let Result::Err(e) = valid {
            return Result::Err(e);
        }
        let ghost old_defs = self.defs();
        let mut i: usize = 0;
        while i < self.packages.len()
            invariant
                i <= self.packages@.len(),
                self.defs() == old_defs,
                forall|j: int| 0 <= j < i ==> (#[trigger] old_defs[j]).name != package@.name,
        decreases self.packages@.len() - i,
        {
            if str_eq(self.packages[i].name.as_str(), package.name.as_str()) {
                let ghost found = i as int;
                proof {
                    assert(old_defs[found].name == package@.name);
                }
                self.packages.set(i, package);
                proof {
                    assert(self.defs() =~= old_defs.update(found, package@));
                    assert forall|a: int, b: int|
                        0 <= a < b < self.defs().len() implies (#[trigger] self.defs()[a]).name
                        != (#[trigger] self.defs()[b]).name by {
                        assert(old_defs[a].name != old_defs[b].name);
                        assert(self.defs()[a] == if a == found {
                            package@
                        } else {
                            old_defs[a]
                        });
                        assert(self.defs()[b] == if b == found {
                            package@
                        } else {
                            old_defs[b]
                        });
                    }
                }
                return Result::Ok(());
            }
            i = i + 1;
        }
        self.packages.push(package);
        proof {
            assert(self.defs() =~= old_defs.push(package@));
            assert(!has_def(old_defs, package@.name));
            assert forall|a: int, b: int|
                0 <= a < b < self.defs().len() implies (#[trigger] self.defs()[a]).name
                != (#[trigger] self.defs()[b]).name by {
                if b < old_defs.len() {
                    assert(old_defs[a].name != old_defs[b].name);
                } else {
                    assert(self.defs()[b] == package@);
                    assert(old_defs[a].name != package@.name);
                }
            }
        }
        Result::Ok(())
    }

    /// Looks up a definition by name.
    pub fn get_package(&self, name: &str) -> (r: Option<&Package>)
        ensures
            match r {
                Option::Some(p) => has_def(self.defs(), name@) && p@.name == name@
                    && self.defs().contains(p@),
                Option::None => !has_def(self.defs(), name@),
            },
    {
        let mut i: usize = 0;
        while i < self.packages.len()
            invariant
                i <= self.packages@.len(),
                forall|j: int| 0 <= j < i ==> (#[trigger] self.defs()[j]).name != name@,
            decreases self.packages@.len() - i,
        {
            if str_eq(self.packages[i].name.as_str(), name) {
                proof {
                    assert(self.defs()[i as int].name == name@);
                }
                return Option::Some(&self.packages[i]);
            }
            i = i + 1;
        }
        Option::None
    }

    /// Whether `p` matches `q`: its lowercased name, description or one of
    /// its lowercased tags contains the (already lowercased) query.
    pub open spec fn search_match(p: PackageV, q: Seq<char>) -> bool {
        ||| contains_seq(lower_of(p.name), q)
        ||| contains_seq(lower_of(p.description), q)
        ||| (p.metadata.tags is Some && exists|i: int|
            0 <= i < p.metadata.tags->Some_0.len() && contains_seq(
                lower_of(#[trigger] p.metadata.tags->Some_0[i]),
                q,
            ))
    }

    /// All definitions whose name, description or tags contain the query,
    /// case-insensitively, in insertion order.
    pub fn search_packages(&self, query: &str) -> (r: Vec<&Package>)
        ensures
            r.deep_view() == self.defs().filter(
                |p: PackageV| DefinitionLoader::search_match(p, lower_of(query@)),
            ),
    {
        let query_lower = to_lowercase(query);
        let mut r: Vec<&Package> = Vec::new();
        let mut i: usize = 0;
        while i < self.packages.len()
            invariant
                i <= self.packages@.len(),
                query_lower@ == lower_of(query@),
                r.deep_view() =~= self.defs().subrange(0, i as int).filter(
                    |p: PackageV| DefinitionLoader::search_match(p, lower_of(query@)),
                ),
            decreases self.packages@.len() - i,
        {
            proof {
                assert(self.defs().subrange(0, i + 1 as int).drop_last() =~= self.defs().subrange(
                    0,
                    i as int,
                ));
                reveal_with_fuel(Seq::filter, 2);
            }
            let p = &self.packages[i];
            if Self::package_matches(p, &query_lower) {
                r.push(p);
            }
            i = i + 1;
        }
        proof {
            assert(self.defs().subrange(0, self.defs().len() as int) =~= self.defs());
        }
        r
    }

    /// Whether one definition matches an already-lowercased query.
    pub fn package_matches(p: &Package, query_lower: &String) -> (r: bool)
        ensures
            r == DefinitionLoader::search_match(p@, query_lower@),
    {
        let name_lower = to_lowercase(p.name.as_str());
        if contains_substring(name_lower.as_str(), query_lower.as_str()) {
            return true;
        }
        let desc_lower = to_lowercase(p.description.as_str());
        if contains_substring(desc_lower.as_str(), query_lower.as_str()) {
            return true;
        }
        match &p.metadata.tags {
            Option::Some(tags) => {
                let ghost tsv = tags.deep_view();
                proof {
                    assert(p@.metadata.tags == Option::Some(tsv));
                }
                let mut i: usize = 0;
                while i < tags.len()
                    invariant
                        i <= tags@.len(),
                        tsv == tags.deep_view(),
                        p@.metadata.tags == Option::Some(tsv),
                        forall|j: int| 0 <= j < i ==> !contains_seq(
                            lower_of(#[trigger] tsv[j]),
                            query_lower@,
                        ),
                    decreases tags@.len() - i,
                {
                    let tag_lower = to_lowercase(tags[i].as_str());
                    if contains_substring(tag_lower.as_str(), query_lower.as_str()) {
                        proof {
                            let pts = p@.metadata.tags->Some_0;
                            assert(pts == tsv);
                            assert(contains_seq(lower_of(pts[i as int]), query_lower@));
                            assert(DefinitionLoader::search_match(p@, query_lower@));
                        }
                        return true;
                    }
                    i = i + 1;
                }
                false
            },
            Option::None => false,
        }
    }

    /// All definitions carrying the given category, in insertion order.
    pub fn get_packages_by_category(&self, category: &str) -> (r: Vec<&Package>)
        ensures
            r.deep_view() == self.defs().filter(
                |p: PackageV| p.categories.contains(category@),
            ),
    {
        let mut r: Vec<&Package> = Vec::new();
        let mut i: usize = 0;
        while i < self.packages.len()
            invariant
                i <= self.packages@.len(),
                r.deep_view() =~= self.defs().subrange(0, i as int).filter(
                    |p: PackageV| p.categories.contains(category@),
                ),
            decreases self.packages@.len() - i,
        {
            proof {
                assert(self.defs().subrange(0, i + 1 as int).drop_last() =~= self.defs().subrange(
                    0,
                    i as int,
                ));
                reveal_with_fuel(Seq::filter, 2);
            }
            let p = &self.packages[i];
            if contains_string(&p.categories, category) {
                r.push(p);
            }
            i = i + 1;
        }
        proof {
            assert(self.defs().subrange(0, self.defs().len() as int) =~= self.defs());
        }
        r
    }

    /// Every category any definition carries, sorted and without duplicates.
    pub fn get_categories(&self) -> (r: Vec<String>)
        ensures
            crate::strutil::sorted_distinct_strs(r.deep_view()),
            forall|x: Seq<char>|
                r.deep_view().contains(x) <==> exists|i: int|
                    0 <= i < self.defs().len() && (#[trigger] self.defs()[i]).categories.contains(
                        x,
                    ),
    {
        let mut r: Vec<String> = Vec::new();
        let mut i: usize = 0;
        proof {
            assert(r.deep_view() =~= Seq::<Seq<char>>::empty());
        }
        while i < self.packages.len()
            invariant
                i <= self.packages@.len(),
                crate::strutil::sorted_distinct_strs(r.deep_view()),
                forall|x: Seq<char>| #![trigger r.deep_view().contains(x)]
                    r.deep_view().contains(x) <==> exists|j: int|
                        0 <= j < i && (#[trigger] self.defs()[j]).categories.contains(x),
            decreases self.packages@.len() - i,
        {
            let cats = &self.packages[i].categories;
            let ghost cv = cats.deep_view();
            proof {
                assert(self.defs()[i as int].categories == cv);
            }
            let ghost before = r.deep_view();
            let mut m: usize = 0;
            while m < cats.len()
                invariant
                    m <= cats@.len(),
                    cv == cats.deep_view(),
                    crate::strutil::sorted_distinct_strs(r.deep_view()),
                    forall|x: Seq<char>| #![trigger r.deep_view().contains(x)]
                        r.deep_view().contains(x) <==> (before.contains(x) || exists|w: int|
                            0 <= w < m && #[trigger] cv[w] == x),
                decreases cats@.len() - m,
            {
                let ghost pre_ins = r.deep_view();
                crate::strutil::insert_sorted_distinct(&mut r, &cats[m]);
                let ghost prev_m = m as int;
                m = m + 1;
                proof {
                    assert(cv[prev_m] == cats@[prev_m]@);
                    assert forall|x: Seq<char>| #![trigger r.deep_view().contains(x)]
                        r.deep_view().contains(x) <==> (before.contains(x) || exists|w: int|
                            0 <= w < m && #[trigger] cv[w] == x) by {
                        if r.deep_view().contains(x) {
                            if pre_ins.contains(x) {
                                if !before.contains(x) {
                                    let w = choose|w: int|
                                        0 <= w < prev_m && #[trigger] cv[w] == x;
                                    assert(0 <= w < m && cv[w] == x);
                                }
                            } else {
                                assert(cv[prev_m] == x);
                            }
                        }
                        if before.contains(x) {
                            assert(pre_ins.contains(x));
                            assert(r.deep_view().contains(x));
                        }
                        if exists|w: int| 0 <= w < m && #[trigger] cv[w] == x {
                            let w = choose|w: int| 0 <= w < m && #[trigger] cv[w] == x;
                            if w < prev_m {
                                assert(pre_ins.contains(x));
                            }
                            assert(r.deep_view().contains(x));
                        }
                    }
                }
            }
            proof {
                assert forall|x: Seq<char>| #![trigger r.deep_view().contains(x)]
                    r.deep_view().contains(x) <==> exists|j: int|
                        0 <= j < i + 1 && (#[trigger] self.defs()[j]).categories.contains(x) by {
                    if r.deep_view().contains(x) {
                        if before.contains(x) {
                            let j = choose|j: int|
                                0 <= j < i && (#[trigger] self.defs()[j]).categories.contains(x);
                            assert(self.defs()[j].categories.contains(x));
                        } else {
                            let w = choose|w: int| 0 <= w < cv.len() && #[trigger] cv[w] == x;
                            assert(self.defs()[i as int].categories.contains(x));
                        }
                    }
                    if exists|j: int|
                        0 <= j < i + 1 && (#[trigger] self.defs()[j]).categories.contains(x) {
                        let j = choose|j: int|
                            0 <= j < i + 1 && (#[trigger] self.defs()[j]).categories.contains(x);
                        if j < i {
                            assert(before.contains(x));
                        } else {
                            let w = choose|w: int| 0 <= w < cv.len() && cv[w] == x;
                            assert(exists|w2: int| 0 <= w2 < cv.len() && #[trigger] cv[w2] == x);
                        }
                        assert(r.deep_view().contains(x));
                    }
                }
            }
            i = i + 1;
        }
        r
    }
}

/// Whether the vector holds a string with exactly these characters.
pub fn contains_string(v: &Vec<String>, s: &str) -> (r: bool)
    ensures
        r == v.deep_view().contains(s@),
{
    let mut i: usize = 0;
    while i < v.len()
        invariant
            i <= v@.len(),
            forall|j: int| 0 <= j < i ==> v.deep_view()[j] != s@,
        decreases v@.len() - i,
    {
        if str_eq(v[i].as_str(), s) {
            proof {
                assert(v.deep_view()[i as int] == s@);
            }
            return true;
        }
        i = i + 1;
    }
    proof {
        assert forall|j: int| 0 <= j < v.deep_view().len() implies v.deep_view()[j] != s@ by {}
    }
    false
}

} // verus!
