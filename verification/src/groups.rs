//! Named package groups and installation profiles, with the built-in
//! defaults.

use vstd::prelude::*;
use crate::error::Error;
use crate::error::concat_str;
use crate::package::clone_string_vec;
use crate::package::clone_opt_string;
use crate::strutil::insert_sorted_distinct;
use crate::strutil::lex_le;
use crate::strutil::sorted_distinct_strs;
use crate::strutil::str_eq;
use crate::strutil::lemma_lex_le_total;
use crate::strutil::lemma_lex_le_trans;

verus! {

/// A named set of packages that are usually installed together.
#[derive(Debug)]
pub struct PackageGroup {
    pub name: String,
    pub description: String,
    pub packages: Vec<String>,
    pub optional_packages: Vec<String>,
    pub conflicts: Vec<String>,
    pub category: Option<String>,
}

/// The mathematical value of a `PackageGroup`.
pub ghost struct PackageGroupV {
    pub name: Seq<char>,
    pub description: Seq<char>,
    pub packages: Seq<Seq<char>>,
    pub optional_packages: Seq<Seq<char>>,
    pub conflicts: Seq<Seq<char>>,
    pub category: Option<Seq<char>>,
}

impl View for PackageGroup {
    type V = PackageGroupV;

    open spec fn view(&self) -> PackageGroupV {
        PackageGroupV {
            name: self.name@,
            description: self.description@,
            packages: self.packages.deep_view(),
            optional_packages: self.optional_packages.deep_view(),
            conflicts: self.conflicts.deep_view(),
            category: self.category.deep_view(),
        }
    }
}

impl DeepView for PackageGroup {
    type V = PackageGroupV;

    open spec fn deep_view(&self) -> PackageGroupV {
        self.view()
    }
}

impl Clone for PackageGroup {
    fn clone(&self) -> (res: Self)
        ensures
            res@ == self@,
    {
        PackageGroup {
            name: self.name.clone(),
            description: self.description.clone(),
            packages: clone_string_vec(&self.packages),
            optional_packages: clone_string_vec(&self.optional_packages),
            conflicts: clone_string_vec(&self.conflicts),
            category: clone_opt_string(&self.category),
        }
    }
}

/// A named installation recipe: groups plus additions minus exclusions.
#[derive(Debug)]
pub struct InstallationProfile {
    pub name: String,
    pub description: String,
    pub groups: Vec<String>,
    pub additional_packages: Vec<String>,
    pub excluded_packages: Vec<String>,
    pub post_install_script: Option<String>,
}

/// The mathematical value of an `InstallationProfile`.
pub ghost struct InstallationProfileV {
    pub name: Seq<char>,
    pub description: Seq<char>,
    pub groups: Seq<Seq<char>>,
    pub additional_packages: Seq<Seq<char>>,
    pub excluded_packages: Seq<Seq<char>>,
    pub post_install_script: Option<Seq<char>>,
}

impl View for InstallationProfile {
    type V = InstallationProfileV;

    open spec fn view(&self) -> InstallationProfileV {
        InstallationProfileV {
            name: self.name@,
            description: self.description@,
            groups: self.groups.deep_view(),
            additional_packages: self.additional_packages.deep_view(),
            excluded_packages: self.excluded_packages.deep_view(),
            post_install_script: self.post_install_script.deep_view(),
        }
    }
}

impl DeepView for InstallationProfile {
    type V = InstallationProfileV;

    open spec fn deep_view(&self) -> InstallationProfileV {
        self.view()
    }
}

impl Clone for InstallationProfile {
    fn clone(&self) -> (res: Self)
        ensures
            res@ == self@,
    {
        InstallationProfile {
            name: self.name.clone(),
            description: self.description.clone(),
            groups: clone_string_vec(&self.groups),
            additional_packages: clone_string_vec(&self.additional_packages),
            excluded_packages: clone_string_vec(&self.excluded_packages),
            post_install_script: clone_opt_string(&self.post_install_script),
        }
    }
}

/// Whether a group with this name exists and lists this package.
pub open spec fn group_lists(groups: Seq<PackageGroupV>, group_name: Seq<char>, x: Seq<char>) -> bool {
    exists|gi: int|
        0 <= gi < groups.len() && (#[trigger] groups[gi]).name == group_name
            && groups[gi].packages.contains(x)
}

/// Whether a profile pulls in package `x`: through one of its groups or as
/// an additional package, and not excluded.
pub open spec fn profile_pulls(
    groups: Seq<PackageGroupV>,
    profile: InstallationProfileV,
    x: Seq<char>,
) -> bool {
    ((exists|j: int| 0 <= j < profile.groups.len() && group_lists(groups, #[trigger] profile.groups[j], x))
        || profile.additional_packages.contains(x)) && !profile.excluded_packages.contains(x)
}

/// Whether `x` occurs among the first `upto` elements of `all`.
pub open spec fn from_prefix(all: Seq<Seq<char>>, upto: int, x: Seq<char>) -> bool {
    exists|ja: int| 0 <= ja < upto && x == #[trigger] all[ja]
}

/// Removes from a strictly sorted vector every string that the exclusion
/// list names.
fn remove_excluded(out: &mut Vec<String>, excluded: &Vec<String>)
    requires
        sorted_distinct_strs(old(out).deep_view()),
    ensures
        sorted_distinct_strs(final(out).deep_view()),
        forall|x: Seq<char>| #![trigger final(out).deep_view().contains(x)]
            final(out).deep_view().contains(x) <==> (old(out).deep_view().contains(x)
                && !excluded.deep_view().contains(x)),
{
    let ghost all = out.deep_view();
    let mut kept: Vec<String> = Vec::new();
    let mut i: usize = 0;
    proof {
        assert(kept.deep_view() =~= Seq::<Seq<char>>::empty());
    }
    while i < out.len()
        invariant
            i <= out@.len(),
            all == out.deep_view(),
            sorted_distinct_strs(all),
            sorted_distinct_strs(kept.deep_view()),
            forall|a: int|
                0 <= a < kept.deep_view().len() ==> from_prefix(
                    all,
                    i as int,
                    #[trigger] kept.deep_view()[a],
                ),
            forall|x: Seq<char>|
                kept.deep_view().contains(x) <==> (all.subrange(0, i as int).contains(x)
                    && !excluded.deep_view().contains(x)),
        decreases out@.len() - i,
    {
        let ghost pre_kept = kept.deep_view();
        let is_excluded = crate::definition::contains_string(excluded, out[i].as_str());
        if !is_excluded {
            kept.push(out[i].clone());
            proof {
                let cur = kept.deep_view();
                let prefix = all.subrange(0, i + 1 as int);
                assert forall|a: int|
                    0 <= a < cur.len() implies from_prefix(all, i + 1, #[trigger] cur[a]) by {
                    if a < pre_kept.len() {
                        assert(cur[a] == pre_kept[a]);
                        assert(from_prefix(all, i as int, pre_kept[a]));
                        let ja = choose|ja: int| 0 <= ja < i && pre_kept[a] == #[trigger] all[ja];
                        assert(cur[a] == all[ja]);
                    } else {
                        assert(cur[a] == all[i as int]);
                    }
                }
                assert forall|a: int, b: int|
                    0 <= a < b < cur.len() implies lex_le(#[trigger] cur[a], #[trigger] cur[b])
                    && cur[a] != cur[b] by {
                    if b < pre_kept.len() {
                        assert(pre_kept[a] == cur[a] && pre_kept[b] == cur[b]);
                    } else {
                        assert(cur[a] == pre_kept[a]);
                        assert(a < pre_kept.len());
                        assert(from_prefix(all, i as int, pre_kept[a]));
                        let ja = choose|ja: int| 0 <= ja < i && pre_kept[a] == #[trigger] all[ja];
                        assert(0 <= ja < i < all.len());
                        assert(lex_le(all[ja], all[i as int]) && all[ja] != all[i as int]);
                    }
                }
                assert forall|x: Seq<char>|
                    cur.contains(x) implies (prefix.contains(x)
                        && !excluded.deep_view().contains(x)) by {
                    let w = choose|w: int| 0 <= w < cur.len() && cur[w] == x;
                    if w < pre_kept.len() {
                        assert(pre_kept[w] == x);
                        assert(pre_kept.contains(x));
                        assert(all.subrange(0, i as int).contains(x));
                        let v = choose|v: int|
                            0 <= v < all.subrange(0, i as int).len() && all.subrange(0, i as int)[v]
                                == x;
                        assert(prefix[v] == x);
                    } else {
                        assert(cur[w] == all[i as int]);
                        assert(prefix[i as int] == x);
                    }
                }
                assert forall|x: Seq<char>|
                    prefix.contains(x) && !excluded.deep_view().contains(x) implies cur.contains(
                    x,
                ) by {
                    let w = choose|w: int| 0 <= w < prefix.len() && prefix[w] == x;
                    if w < i {
                        assert(all.subrange(0, i as int)[w] == x);
                        assert(pre_kept.contains(x));
                        let a = choose|a: int| 0 <= a < pre_kept.len() && pre_kept[a] == x;
                        assert(cur[a] == x);
                    } else {
                        assert(all[i as int] == x);
                        assert(cur[cur.len() - 1] == x);
                    }
                }
            }
        } else {
            proof {
                let cur = kept.deep_view();
                let prefix = all.subrange(0, i + 1 as int);
                assert forall|a: int|
                    0 <= a < cur.len() implies from_prefix(all, i + 1, #[trigger] cur[a]) by {
                    assert(from_prefix(all, i as int, cur[a]));
                    let ja = choose|ja: int| 0 <= ja < i && cur[a] == #[trigger] all[ja];
                    assert(0 <= ja < i + 1 && cur[a] == all[ja]);
                }
                assert forall|x: Seq<char>|
                    cur.contains(x) implies (prefix.contains(x)
                        && !excluded.deep_view().contains(x)) by {
                    let v = choose|v: int|
                        0 <= v < all.subrange(0, i as int).len() && all.subrange(0, i as int)[v]
                            == x;
                    assert(prefix[v] == x);
                }
                assert forall|x: Seq<char>|
                    prefix.contains(x) && !excluded.deep_view().contains(x) implies cur.contains(
                    x,
                ) by {
                    let w = choose|w: int| 0 <= w < prefix.len() && prefix[w] == x;
                    if w < i {
                        assert(all.subrange(0, i as int)[w] == x);
                    } else {
                        assert(all[i as int] == x);
                        assert(excluded.deep_view().contains(x));
                    }
                }
            }
        }
        i = i + 1;
    }
    proof {
        assert(all.subrange(0, all.len() as int) =~= all);
    }
    *out = kept;
}

/// Holds the built-in groups and profiles and resolves profiles to package
/// lists.
pub struct GroupManager {
    groups: Vec<PackageGroup>,
    profiles: Vec<InstallationProfile>,
}

impl GroupManager {
    /// The groups held, in insertion order.
    pub closed spec fn groups_v(&self) -> Seq<PackageGroupV> {
        self.groups.deep_view()
    }

    /// The profiles held, in insertion order.
    pub closed spec fn profiles_v(&self) -> Seq<InstallationProfileV> {
        self.profiles.deep_view()
    }

    /// Group names are pairwise distinct, and so are profile names.
    pub open spec fn gm_wf(&self) -> bool {
        (forall|i: int, j: int|
            0 <= i < j < self.groups_v().len() ==> (#[trigger] self.groups_v()[i]).name != (
            #[trigger] self.groups_v()[j]).name) && (forall|i: int, j: int|
            0 <= i < j < self.profiles_v().len() ==> (#[trigger] self.profiles_v()[i]).name != (
            #[trigger] self.profiles_v()[j]).name)
    }

    /// A manager loaded with the built-in groups and profiles.
    pub fn new() -> (r: GroupManager)
        ensures
            r.gm_wf(),
            r.groups_v().len() == 3,
            r.groups_v()[0].name == "development"@,
            r.groups_v()[0].packages =~= seq![
                "neovim"@,
                "git"@,
                "rust-toolchain"@,
                "nodejs-lts"@,
            ],
            r.groups_v()[0].optional_packages =~= seq!["docker"@, "lazygit"@],
            r.groups_v()[0].conflicts =~= Seq::<Seq<char>>::empty(),
            r.groups_v()[0].category == Option::Some("development"@),
            r.groups_v()[1].name == "media"@,
            r.groups_v()[1].packages =~= seq!["vlc"@, "gimp"@, "obs-studio"@],
            r.groups_v()[1].optional_packages =~= seq!["blender"@, "audacity"@],
            r.groups_v()[1].category == Option::Some("media"@),
            r.groups_v()[2].name == "gaming"@,
            r.groups_v()[2].packages =~= seq!["steam"@, "discord"@],
            r.groups_v()[2].optional_packages =~= seq!["lutris"@, "gamemode"@],
            r.groups_v()[2].category == Option::Some("gaming"@),
            r.profiles_v().len() == 3,
            r.profiles_v()[0].name == "developer"@,
            r.profiles_v()[0].groups =~= seq!["development"@],
            r.profiles_v()[0].additional_packages =~= seq!["starship"@, "obsidian"@],
            r.profiles_v()[0].excluded_packages =~= Seq::<Seq<char>>::empty(),
            r.profiles_v()[0].post_install_script is Some,
            r.profiles_v()[1].name == "content-creator"@,
            r.profiles_v()[1].groups =~= seq!["media"@],
            r.profiles_v()[1].additional_packages =~= seq!["discord"@],
            r.profiles_v()[1].excluded_packages =~= Seq::<Seq<char>>::empty(),
            r.profiles_v()[1].post_install_script is None,
            r.profiles_v()[2].name == "gamer"@,
            r.profiles_v()[2].groups =~= seq!["gaming"@],
            r.profiles_v()[2].additional_packages =~= Seq::<Seq<char>>::empty(),
            r.profiles_v()[2].excluded_packages =~= Seq::<Seq<char>>::empty(),
            r.profiles_v()[2].post_install_script is Some,
    {
        let mut groups: Vec<PackageGroup> = Vec::new();
        let mut dev_packages: Vec<String> = Vec::new();
        dev_packages.push("neovim".to_owned());
        dev_packages.push("git".to_owned());
        dev_packages.push("rust-toolchain".to_owned());
        dev_packages.push("nodejs-lts".to_owned());
        let mut dev_optional: Vec<String> = Vec::new();
        dev_optional.push("docker".to_owned());
        dev_optional.push("lazygit".to_owned());
        groups.push(
            PackageGroup {
                name: "development".to_owned(),
                description: "Essential development tools".to_owned(),
                packages: dev_packages,
                optional_packages: dev_optional,
                conflicts: Vec::new(),
                category: Option::Some("development".to_owned()),
            },
        );
        let mut media_packages: Vec<String> = Vec::new();
        media_packages.push("vlc".to_owned());
        media_packages.push("gimp".to_owned());
        media_packages.push("obs-studio".to_owned());
        let mut media_optional: Vec<String> = Vec::new();
        media_optional.push("blender".to_owned());
        media_optional.push("audacity".to_owned());
        groups.push(
            PackageGroup {
                name: "media".to_owned(),
                description: "Media creation and consumption tools".to_owned(),
                packages: media_packages,
                optional_packages: media_optional,
                conflicts: Vec::new(),
                category: Option::Some("media".to_owned()),
            },
        );
        let mut gaming_packages: Vec<String> = Vec::new();
        gaming_packages.push("steam".to_owned());
        gaming_packages.push("discord".to_owned());
        let mut gaming_optional: Vec<String> = Vec::new();
        gaming_optional.push("lutris".to_owned());
        gaming_optional.push("gamemode".to_owned());
        groups.push(
            PackageGroup {
                name: "gaming".to_owned(),
                description: "Gaming platform and tools".to_owned(),
                packages: gaming_packages,
                optional_packages: gaming_optional,
                conflicts: Vec::new(),
                category: Option::Some("gaming".to_owned()),
            },
        );
        let mut profiles: Vec<InstallationProfile> = Vec::new();
        let mut dev_groups: Vec<String> = Vec::new();
        dev_groups.push("development".to_owned());
        let mut dev_additional: Vec<String> = Vec::new();
        dev_additional.push("starship".to_owned());
        dev_additional.push("obsidian".to_owned());
        profiles.push(
            InstallationProfile {
                name: "developer".to_owned(),
                description: "Complete development environment".to_owned(),
                groups: dev_groups,
                additional_packages: dev_additional,
                excluded_packages: Vec::new(),
                post_install_script: Option::Some(
                    "git config --global init.defaultBranch main".to_owned(),
                ),
            },
        );
        let mut cc_groups: Vec<String> = Vec::new();
        cc_groups.push("media".to_owned());
        let mut cc_additional: Vec<String> = Vec::new();
        cc_additional.push("discord".to_owned());
        profiles.push(
            InstallationProfile {
                name: "content-creator".to_owned(),
                description: "Content creation and streaming setup".to_owned(),
                groups: cc_groups,
                additional_packages: cc_additional,
                excluded_packages: Vec::new(),
                post_install_script: Option::None,
            },
        );
        let mut gamer_groups: Vec<String> = Vec::new();
        gamer_groups.push("gaming".to_owned());
        profiles.push(
            InstallationProfile {
                name: "gamer".to_owned(),
                description: "Gaming setup with performance optimizations".to_owned(),
                groups: gamer_groups,
                additional_packages: Vec::new(),
                excluded_packages: Vec::new(),
                post_install_script: Option::Some(
                    "sudo systemctl enable --now gamemode".to_owned(),
                ),
            },
        );
        let r = GroupManager { groups, profiles };
        proof {
            assert(r.groups_v()[0].conflicts =~= Seq::<Seq<char>>::empty());
            assert(r.profiles_v()[0].excluded_packages =~= Seq::<Seq<char>>::empty());
            assert(r.profiles_v()[1].excluded_packages =~= Seq::<Seq<char>>::empty());
            assert(r.profiles_v()[2].additional_packages =~= Seq::<Seq<char>>::empty());
            assert(r.profiles_v()[2].excluded_packages =~= Seq::<Seq<char>>::empty());
            reveal_strlit("development");
            reveal_strlit("media");
            reveal_strlit("gaming");
            reveal_strlit("developer");
            reveal_strlit("content-creator");
            reveal_strlit("gamer");
            assert(r.gm_wf()) by {
                assert(r.groups_v()[0].name.len() == 11);
                assert(r.groups_v()[1].name.len() == 5);
                assert(r.groups_v()[2].name.len() == 6);
                assert(r.profiles_v()[0].name.len() == 9);
                assert(r.profiles_v()[1].name.len() == 15);
                assert(r.profiles_v()[2].name.len() == 5);
            }
        }
        r
    }

    /// Looks up a group by name.
    pub fn get_group(&self, name: &str) -> (r: Option<&PackageGroup>)
        ensures
            match r {
                Option::Some(g) => self.groups_v().contains(g@) && g@.name == name@,
                Option::None => forall|i: int|
                    0 <= i < self.groups_v().len() ==> (#[trigger] self.groups_v()[i]).name
                        != name@,
            },
    {
        let mut i: usize = 0;
        while i < self.groups.len()
            invariant
                i <= self.groups@.len(),
                forall|j: int| 0 <= j < i ==> (#[trigger] self.groups_v()[j]).name != name@,
            decreases self.groups@.len() - i,
        {
            if str_eq(self.groups[i].name.as_str(), name) {
                proof {
                    assert(self.groups_v()[i as int].name == name@);
                }
                return Option::Some(&self.groups[i]);
            }
            i = i + 1;
        }
        Option::None
    }

    /// Looks up a profile by name.
    pub fn get_profile(&self, name: &str) -> (r: Option<&InstallationProfile>)
        ensures
            match r {
                Option::Some(p) => self.profiles_v().contains(p@) && p@.name == name@,
                Option::None => forall|i: int|
                    0 <= i < self.profiles_v().len() ==> (#[trigger] self.profiles_v()[i]).name
                        != name@,
            },
    {
        let mut i: usize = 0;
        while i < self.profiles.len()
            invariant
                i <= self.profiles@.len(),
                forall|j: int| 0 <= j < i ==> (#[trigger] self.profiles_v()[j]).name != name@,
            decreases self.profiles@.len() - i,
        {
            if str_eq(self.profiles[i].name.as_str(), name) {
                proof {
                    assert(self.profiles_v()[i as int].name == name@);
                }
                return Option::Some(&self.profiles[i]);
            }
            i = i + 1;
        }
        Option::None
    }

    /// All groups, in insertion order.
    pub fn list_groups(&self) -> (r: Vec<&PackageGroup>)
        ensures
            r.deep_view() == self.groups_v(),
    {
        let mut r: Vec<&PackageGroup> = Vec::new();
        let mut i: usize = 0;
        while i < self.groups.len()
            invariant
                i <= self.groups@.len(),
                r@.len() == i as int,
                forall|j: int| 0 <= j < i ==> r.deep_view()[j] == self.groups_v()[j],
            decreases self.groups@.len() - i,
        {
            r.push(&self.groups[i]);
            i = i + 1;
        }
        proof {
            assert(r.deep_view() =~= self.groups_v());
        }
        r
    }

    /// All profiles, in insertion order.
    pub fn list_profiles(&self) -> (r: Vec<&InstallationProfile>)
        ensures
            r.deep_view() == self.profiles_v(),
    {
        let mut r: Vec<&InstallationProfile> = Vec::new();
        let mut i: usize = 0;
        while i < self.profiles.len()
            invariant
                i <= self.profiles@.len(),
                r@.len() == i as int,
                forall|j: int| 0 <= j < i ==> r.deep_view()[j] == self.profiles_v()[j],
            decreases self.profiles@.len() - i,
        {
            r.push(&self.profiles[i]);
            i = i + 1;
        }
        proof {
            assert(r.deep_view() =~= self.profiles_v());
        }
        r
    }

    /// Resolves a profile to the sorted, duplicate-free list of packages it
    /// pulls in: the packages of each of its groups plus its additional
    /// packages, minus its exclusions.
    #[verifier::rlimit(60)]
    pub fn resolve_profile_packages(&self, profile_name: &str) -> (r: Result<Vec<String>, Error>)
        requires
            self.gm_wf(),
        ensures
            r matches Ok(pkgs) ==> exists|pi: int|
                {
                    &&& 0 <= pi < self.profiles_v().len()
                    &&& (#[trigger] self.profiles_v()[pi]).name == profile_name@
                    &&& sorted_distinct_strs(pkgs.deep_view())
                    &&& forall|x: Seq<char>|
                        pkgs.deep_view().contains(x) <==> profile_pulls(
                            self.groups_v(),
                            self.profiles_v()[pi],
                            x,
                        )
                },
            r matches Err(e) ==> (e matches Error::Config(m) && m@ == "Profile not found: "@
                + profile_name@ && forall|i: int|
                0 <= i < self.profiles_v().len() ==> (#[trigger] self.profiles_v()[i]).name
                    != profile_name@),
    {
        let profile = match self.get_profile(profile_name) {
            Option::Some(p) => p,
            Option::None => {
                return Result::Err(
                    Error::Config(concat_str("Profile not found: ", profile_name)),
                );
            },
        };
        let ghost pv = profile@;
        let ghost pi = choose|pi: int|
            0 <= pi < self.profiles_v().len() && self.profiles_v()[pi] == pv;
        let mut collected: Vec<String> = Vec::new();
        proof {
            assert(collected.deep_view() =~= Seq::<Seq<char>>::empty());
        }
        let mut gi: usize = 0;
        while gi < profile.groups.len()
            invariant
                gi <= profile.groups@.len(),
                pv == profile@,
                sorted_distinct_strs(collected.deep_view()),
                forall|x: Seq<char>| #![trigger collected.deep_view().contains(x)]
                    collected.deep_view().contains(x) <==> exists|j: int|
                        0 <= j < gi && group_lists(self.groups_v(), #[trigger] pv.groups[j], x),
            decreases profile.groups@.len() - gi,
        {
            let group = self.get_group(profile.groups[gi].as_str());
            let ghost pre_collected = collected.deep_view();
            if let Option::Some(g) = group {
                let ghost gv = g@;
                let ghost gw = choose|wg: int|
                    0 <= wg < self.groups_v().len() && self.groups_v()[wg] == gv;
                proof {
                    assert(self.groups_v()[gw] == gv);
                    assert(gv.name == pv.groups[gi as int]);
                }
                let mut mi: usize = 0;
                while mi < g.packages.len()
                    invariant
                        mi <= g.packages@.len(),
                        gv == g@,
                        pv == profile@,
                        sorted_distinct_strs(collected.deep_view()),
                        forall|x: Seq<char>| #![trigger collected.deep_view().contains(x)]
                            collected.deep_view().contains(x) <==> (pre_collected.contains(x)
                                || exists|m: int|
                                0 <= m < mi && #[trigger] gv.packages[m] == x),
                    decreases g.packages@.len() - mi,
                {
                    let ghost pre_ins = collected.deep_view();
                    insert_sorted_distinct(&mut collected, &g.packages[mi]);
                    let ghost prev_mi = mi as int;
                    mi = mi + 1;
                    proof {
                        assert(gv.packages[prev_mi] == g.packages.deep_view()[prev_mi]);
                        assert forall|x: Seq<char>| #![trigger collected.deep_view().contains(x)]
                            collected.deep_view().contains(x) <==> (pre_collected.contains(x)
                                || exists|m: int|
                                0 <= m < mi && #[trigger] gv.packages[m] == x) by {
                            if collected.deep_view().contains(x) {
                                if pre_ins.contains(x) {
                                    if !pre_collected.contains(x) {
                                        let m = choose|m: int|
                                            0 <= m < prev_mi && #[trigger] gv.packages[m] == x;
                                        assert(0 <= m < mi && gv.packages[m] == x);
                                    }
                                } else {
                                    assert(x == g.packages@[prev_mi]@);
                                    assert(gv.packages[prev_mi] == x);
                                }
                            }
                            if pre_collected.contains(x) {
                                assert(pre_ins.contains(x));
                                assert(collected.deep_view().contains(x));
                            }
                            if exists|m: int|
                                0 <= m < mi && #[trigger] gv.packages[m] == x {
                                let m = choose|m: int|
                                    0 <= m < mi && #[trigger] gv.packages[m] == x;
                                if m < prev_mi {
                                    assert(pre_ins.contains(x));
                                } else {
                                    assert(x == g.packages@[prev_mi]@);
                                }
                                assert(collected.deep_view().contains(x));
                            }
                        }
                    }
                }
                proof {
                    assert forall|x: Seq<char>| #![trigger collected.deep_view().contains(x)]
                        collected.deep_view().contains(x) <==> (exists|j: int|
                            0 <= j < gi + 1 && group_lists(
                                self.groups_v(),
                                #[trigger] pv.groups[j],
                                x,
                            )) by {
                        if collected.deep_view().contains(x) {
                            if pre_collected.contains(x) {
                                let j = choose|j: int|
                                    0 <= j < gi && group_lists(
                                        self.groups_v(),
                                        #[trigger] pv.groups[j],
                                        x,
                                    );
                                assert(group_lists(self.groups_v(), pv.groups[j], x));
                            } else {
                                let m = choose|m: int|
                                    0 <= m < gv.packages.len() && #[trigger] gv.packages[m] == x;
                                assert(gv.packages.contains(x));
                                assert(self.groups_v()[gw].name == pv.groups[gi as int]);
                                assert(group_lists(self.groups_v(), pv.groups[gi as int], x));
                            }
                        }
                        if exists|j: int|
                            0 <= j < gi + 1 && group_lists(
                                self.groups_v(),
                                #[trigger] pv.groups[j],
                                x,
                            ) {
                            let j = choose|j: int|
                                0 <= j < gi + 1 && group_lists(
                                    self.groups_v(),
                                    #[trigger] pv.groups[j],
                                    x,
                                );
                            if j < gi {
                                assert(pre_collected.contains(x));
                                assert(collected.deep_view().contains(x));
                            } else {
                                let w = choose|w: int|
                                    0 <= w < self.groups_v().len() && (
                                    #[trigger] self.groups_v()[w]).name == pv.groups[gi as int]
                                        && self.groups_v()[w].packages.contains(x);
                                if w != gw {
                                    if w < gw {
                                        assert(self.groups_v()[w].name
                                            != self.groups_v()[gw].name);
                                    } else {
                                        assert(self.groups_v()[gw].name
                                            != self.groups_v()[w].name);
                                    }
                                    assert(false);
                                }
                                assert(gv.packages.contains(x));
                                assert(mi == gv.packages.len());
                                assert(collected.deep_view().contains(x) <==> (
                                pre_collected.contains(x) || exists|m: int|
                                    0 <= m < mi && #[trigger] gv.packages[m] == x));
                                let m = choose|m: int|
                                    0 <= m < gv.packages.len() && gv.packages[m] == x;
                                assert(0 <= m < mi && gv.packages[m] == x);
                                assert(collected.deep_view().contains(x));
                            }
                        }
                    }
                }
            } else {
                proof {
                    assert forall|x: Seq<char>| #![trigger collected.deep_view().contains(x)]
                        collected.deep_view().contains(x) <==> (exists|j: int|
                            0 <= j < gi + 1 && group_lists(
                                self.groups_v(),
                                #[trigger] pv.groups[j],
                                x,
                            )) by {
                        if collected.deep_view().contains(x) {
                            let j = choose|j: int|
                                0 <= j < gi && group_lists(
                                    self.groups_v(),
                                    #[trigger] pv.groups[j],
                                    x,
                                );
                            assert(group_lists(self.groups_v(), pv.groups[j], x));
                        }
                        if exists|j: int|
                            0 <= j < gi + 1 && group_lists(
                                self.groups_v(),
                                #[trigger] pv.groups[j],
                                x,
                            ) {
                            let j = choose|j: int|
                                0 <= j < gi + 1 && group_lists(
                                    self.groups_v(),
                                    #[trigger] pv.groups[j],
                                    x,
                                );
                            if j == gi {
                                let w = choose|w: int|
                                    0 <= w < self.groups_v().len() && (
                                    #[trigger] self.groups_v()[w]).name == pv.groups[gi as int]
                                        && self.groups_v()[w].packages.contains(x);
                                assert(false);
                            }
                            assert(pre_collected.contains(x));
                        }
                    }
                }
            }
            gi = gi + 1;
        }
        let ghost after_groups = collected.deep_view();
        let mut ai: usize = 0;
        while ai < profile.additional_packages.len()
            invariant
                ai <= profile.additional_packages@.len(),
                pv == profile@,
                sorted_distinct_strs(collected.deep_view()),
                forall|x: Seq<char>| #![trigger collected.deep_view().contains(x)]
                    collected.deep_view().contains(x) <==> (after_groups.contains(x) || exists|
                        m: int,
                    |
                        0 <= m < ai && #[trigger] pv.additional_packages[m] == x),
            decreases profile.additional_packages@.len() - ai,
        {
            let ghost pre_add = collected.deep_view();
            insert_sorted_distinct(&mut collected, &profile.additional_packages[ai]);
            let ghost prev_ai = ai as int;
            ai = ai + 1;
            proof {
                assert(pv.additional_packages[prev_ai]
                    == profile.additional_packages.deep_view()[prev_ai]);
                assert forall|x: Seq<char>| #![trigger collected.deep_view().contains(x)]
                    collected.deep_view().contains(x) <==> (after_groups.contains(x) || exists|
                        m: int,
                    |
                        0 <= m < ai && #[trigger] pv.additional_packages[m] == x) by {
                    if collected.deep_view().contains(x) {
                        if pre_add.contains(x) {
                            if !after_groups.contains(x) {
                                let m = choose|m: int|
                                    0 <= m < prev_ai && #[trigger] pv.additional_packages[m] == x;
                                assert(0 <= m < ai && pv.additional_packages[m] == x);
                            }
                        } else {
                            assert(x == profile.additional_packages@[prev_ai]@);
                            assert(pv.additional_packages[prev_ai] == x);
                        }
                    }
                    if after_groups.contains(x) {
                        assert(pre_add.contains(x));
                        assert(collected.deep_view().contains(x));
                    }
                    if exists|m: int|
                        0 <= m < ai && #[trigger] pv.additional_packages[m] == x {
                        let m = choose|m: int|
                            0 <= m < ai && #[trigger] pv.additional_packages[m] == x;
                        if m < prev_ai {
                            assert(pre_add.contains(x));
                        } else {
                            assert(x == profile.additional_packages@[prev_ai]@);
                        }
                        assert(collected.deep_view().contains(x));
                    }
                }
            }
        }
        let ghost with_additional = collected.deep_view();
        remove_excluded(&mut collected, &profile.excluded_packages);
        proof {
            assert(self.profiles_v()[pi].name == profile_name@);
            assert(pv.excluded_packages == profile.excluded_packages.deep_view());
            assert forall|x: Seq<char>|
                collected.deep_view().contains(x) <==> profile_pulls(
                    self.groups_v(),
                    self.profiles_v()[pi],
                    x,
                ) by {
                assert(collected.deep_view().contains(x) <==> (with_additional.contains(x)
                    && !profile.excluded_packages.deep_view().contains(x)));
                assert(with_additional.contains(x) <==> (after_groups.contains(x) || exists|m: int|
                    0 <= m < pv.additional_packages.len()
                        && #[trigger] pv.additional_packages[m] == x));
                if collected.deep_view().contains(x) {
                    assert(with_additional.contains(x));
                    assert(!pv.excluded_packages.contains(x));
                    if after_groups.contains(x) {
                        let j = choose|j: int|
                            0 <= j < pv.groups.len() && group_lists(
                                self.groups_v(),
                                #[trigger] pv.groups[j],
                                x,
                            );
                        assert(profile_pulls(self.groups_v(), pv, x));
                    } else {
                        let m = choose|m: int|
                            0 <= m < pv.additional_packages.len()
                                && #[trigger] pv.additional_packages[m] == x;
                        assert(pv.additional_packages.contains(x));
                    }
                }
                if profile_pulls(self.groups_v(), pv, x) {
                    if exists|j: int|
                        0 <= j < pv.groups.len() && group_lists(
                            self.groups_v(),
                            #[trigger] pv.groups[j],
                            x,
                        ) {
                        assert(after_groups.contains(x));
                        assert(after_groups.contains(x) || exists|m: int|
                            0 <= m < pv.additional_packages.len()
                                && #[trigger] pv.additional_packages[m] == x);
                        assert(with_additional.contains(x));
                    } else {
                        assert(pv.additional_packages.contains(x));
                        let m = choose|m: int|
                            0 <= m < pv.additional_packages.len() && pv.additional_packages[m]
                                == x;
                        assert(exists|m2: int|
                            0 <= m2 < pv.additional_packages.len()
                                && #[trigger] pv.additional_packages[m2] == x);
                        assert(with_additional.contains(x));
                    }
                    assert(collected.deep_view().contains(x));
                }
            }
        }
        Result::Ok(collected)
    }
}

} // verus!
