//! The built-in catalog of profiles: named sets of directory names worth
//! sweeping, one set per ecosystem, plus the pure lookups over the catalog.

use vstd::prelude::*;

use crate::text::{seq_views, str_eq};

verus! {

/// A named set of directory names to search for.
#[derive(Debug)]
pub struct Profile {
    pub name: String,
    pub description: String,
    pub targets: Vec<String>,
}

/// The mathematical model of a `Profile`.
#[verifier::ext_equal]
pub ghost struct ProfileView {
    pub name: Seq<char>,
    pub description: Seq<char>,
    pub targets: Seq<Seq<char>>,
}

impl View for Profile {
    type V = ProfileView;

    open spec fn view(&self) -> ProfileView {
        ProfileView {
            name: self.name@,
            description: self.description@,
            targets: seq_views(self.targets@),
        }
    }
}

/// The views of a sequence of profiles.
pub open spec fn profile_views(v: Seq<Profile>) -> Seq<ProfileView> {
    v.map_values(|p: Profile| p@)
}

pub open spec fn pv(name: Seq<char>, description: Seq<char>, targets: Seq<Seq<char>>) -> ProfileView {
    ProfileView { name: name, description: description, targets: targets }
}

/// The catalog, in its fixed order.
pub open spec fn spec_builtin_profiles() -> Seq<ProfileView> {
    seq![
        pv(
            "node"@,
            "Node.js dependencies and caches"@,
            seq![
                "node_modules"@,
                ".npm"@,
                ".next"@,
                ".nuxt"@,
                ".angular"@,
                ".svelte-kit"@,
                ".vite"@,
                ".nx"@,
                ".turbo"@,
                ".parcel-cache"@,
                ".eslintcache"@,
                ".cache"@,
                ".jest"@,
                "coverage"@,
                "deno_cache"@,
            ],
        ),
        pv(
            "python"@,
            "Python caches and virtual environments"@,
            seq!["__pycache__"@, ".pytest_cache"@, ".mypy_cache"@, ".venv"@, "venv"@],
        ),
        pv(
            "data-science"@,
            "Data science and ML caches"@,
            seq![".ipynb_checkpoints"@, ".dvc"@, ".mlruns"@, "outputs"@],
        ),
        pv("java"@, "Java build artifacts"@, seq!["target"@, ".gradle"@, "out"@]),
        pv("android"@, "Android native build caches"@, seq![".cxx"@, "externalNativeBuild"@]),
        pv("swift"@, "Swift/Xcode build artifacts"@, seq!["DerivedData"@, ".swiftpm"@]),
        pv("dotnet"@, ".NET build artifacts"@, seq!["obj"@, "TestResults"@, ".vs"@]),
        pv("rust"@, "Rust build artifacts"@, seq!["target"@]),
        pv("ruby"@, "Ruby dependencies"@, seq![".bundle"@]),
        pv("elixir"@, "Elixir build artifacts"@, seq!["_build"@, "deps"@, "cover"@]),
        pv("haskell"@, "Haskell build artifacts"@, seq!["dist-newstyle"@, ".stack-work"@]),
        pv("scala"@, "Scala build artifacts"@, seq![".bloop"@, ".metals"@, "target"@]),
        pv(
            "cpp"@,
            "C++ CMake build artifacts"@,
            seq!["CMakeFiles"@, "cmake-build-debug"@, "cmake-build-release"@],
        ),
        pv("unity"@, "Unity project caches"@, seq!["Library"@, "Temp"@, "Obj"@]),
        pv(
            "unreal"@,
            "Unreal Engine caches"@,
            seq!["Intermediate"@, "DerivedDataCache"@, "Binaries"@],
        ),
        pv("godot"@, "Godot Engine caches"@, seq![".import"@, ".godot"@]),
        pv(
            "infra"@,
            "Infrastructure and deployment caches"@,
            seq![
                ".serverless"@,
                ".vercel"@,
                ".netlify"@,
                ".terraform"@,
                ".sass-cache"@,
                "elm_stuff"@,
                "nimcache"@,
            ],
        ),
    ]
}

fn push_target(t: &mut Vec<String>, s: &str)
    ensures
        seq_views(final(t)@) == seq_views(old(t)@).push(s@),
{
    t.push(s.to_owned());
    proof {
        assert(seq_views(t@) =~= seq_views(old(t)@).push(s@));
    }
}

fn make_profile(name: &str, description: &str, targets: Vec<String>) -> (p: Profile)
    ensures
        p@ == (pv(name@, description@, seq_views(targets@))),
{
    Profile { name: name.to_owned(), description: description.to_owned(), targets }
}

impl Clone for Profile {
    fn clone(&self) -> (res: Self)
        ensures
            res@ == self@,
    {
        let res = Profile {
            name: self.name.clone(),
            description: self.description.clone(),
            targets: self.targets.clone(),
        };
        proof {
            broadcast use vstd::std_specs::vec::vec_clone_deep_view_proof;

            assert(res.targets.deep_view() == self.targets.deep_view());
            assert(seq_views(res.targets@) =~= res.targets.deep_view());
            assert(seq_views(self.targets@) =~= self.targets.deep_view());
        }
        res
    }
}

/// The whole catalog, in its fixed order.
pub fn builtin_profiles() -> (r: Vec<Profile>)
    ensures
        profile_views(r@) == spec_builtin_profiles(),
{
    let mut r: Vec<Profile> = Vec::new();

    let mut t: Vec<String> = Vec::new();
    push_target(&mut t, "node_modules");
    push_target(&mut t, ".npm");
    push_target(&mut t, ".next");
    push_target(&mut t, ".nuxt");
    push_target(&mut t, ".angular");
    push_target(&mut t, ".svelte-kit");
    push_target(&mut t, ".vite");
    push_target(&mut t, ".nx");
    push_target(&mut t, ".turbo");
    push_target(&mut t, ".parcel-cache");
    push_target(&mut t, ".eslintcache");
    push_target(&mut t, ".cache");
    push_target(&mut t, ".jest");
    push_target(&mut t, "coverage");
    push_target(&mut t, "deno_cache");
    proof {
        assert(seq_views(t@) =~= spec_builtin_profiles()[0].targets);
    }
    r.push(make_profile("node", "Node.js dependencies and caches", t));

    let mut t: Vec<String> = Vec::new();
    push_target(&mut t, "__pycache__");
    push_target(&mut t, ".pytest_cache");
    push_target(&mut t, ".mypy_cache");
    push_target(&mut t, ".venv");
    push_target(&mut t, "venv");
    proof {
        assert(seq_views(t@) =~= spec_builtin_profiles()[1].targets);
    }
    r.push(make_profile("python", "Python caches and virtual environments", t));

    let mut t: Vec<String> = Vec::new();
    push_target(&mut t, ".ipynb_checkpoints");
    push_target(&mut t, ".dvc");
    push_target(&mut t, ".mlruns");
    push_target(&mut t, "outputs");
    proof {
        assert(seq_views(t@) =~= spec_builtin_profiles()[2].targets);
    }
    r.push(make_profile("data-science", "Data science and ML caches", t));

    let mut t: Vec<String> = Vec::new();
    push_target(&mut t, "target");
    push_target(&mut t, ".gradle");
    push_target(&mut t, "out");
    proof {
        assert(seq_views(t@) =~= spec_builtin_profiles()[3].targets);
    }
    r.push(make_profile("java", "Java build artifacts", t));

    let mut t: Vec<String> = Vec::new();
    push_target(&mut t, ".cxx");
    push_target(&mut t, "externalNativeBuild");
    proof {
        assert(seq_views(t@) =~= spec_builtin_profiles()[4].targets);
    }
    r.push(make_profile("android", "Android native build caches", t));

    let mut t: Vec<String> = Vec::new();
    push_target(&mut t, "DerivedData");
    push_target(&mut t, ".swiftpm");
    proof {
        assert(seq_views(t@) =~= spec_builtin_profiles()[5].targets);
    }
    r.push(make_profile("swift", "Swift/Xcode build artifacts", t));

    let mut t: Vec<String> = Vec::new();
    push_target(&mut t, "obj");
    push_target(&mut t, "TestResults");
    push_target(&mut t, ".vs");
    proof {
        assert(seq_views(t@) =~= spec_builtin_profiles()[6].targets);
    }
    r.push(make_profile("dotnet", ".NET build artifacts", t));

    let mut t: Vec<String> = Vec::new();
    push_target(&mut t, "target");
    proof {
        assert(seq_views(t@) =~= spec_builtin_profiles()[7].targets);
    }
    r.push(make_profile("rust", "Rust build artifacts", t));

    let mut t: Vec<String> = Vec::new();
    push_target(&mut t, ".bundle");
    proof {
        assert(seq_views(t@) =~= spec_builtin_profiles()[8].targets);
    }
    r.push(make_profile("ruby", "Ruby dependencies", t));

    let mut t: Vec<String> = Vec::new();
    push_target(&mut t, "_build");
    push_target(&mut t, "deps");
    push_target(&mut t, "cover");
    proof {
        assert(seq_views(t@) =~= spec_builtin_profiles()[9].targets);
    }
    r.push(make_profile("elixir", "Elixir build artifacts", t));

    let mut t: Vec<String> = Vec::new();
    push_target(&mut t, "dist-newstyle");
    push_target(&mut t, ".stack-work");
    proof {
        assert(seq_views(t@) =~= spec_builtin_profiles()[10].targets);
    }
    r.push(make_profile("haskell", "Haskell build artifacts", t));

    let mut t: Vec<String> = Vec::new();
    push_target(&mut t, ".bloop");
    push_target(&mut t, ".metals");
    push_target(&mut t, "target");
    proof {
        assert(seq_views(t@) =~= spec_builtin_profiles()[11].targets);
    }
    r.push(make_profile("scala", "Scala build artifacts", t));

    let mut t: Vec<String> = Vec::new();
    push_target(&mut t, "CMakeFiles");
    push_target(&mut t, "cmake-build-debug");
    push_target(&mut t, "cmake-build-release");
    proof {
        assert(seq_views(t@) =~= spec_builtin_profiles()[12].targets);
    }
    r.push(make_profile("cpp", "C++ CMake build artifacts", t));

    let mut t: Vec<String> = Vec::new();
    push_target(&mut t, "Library");
    push_target(&mut t, "Temp");
    push_target(&mut t, "Obj");
    proof {
        assert(seq_views(t@) =~= spec_builtin_profiles()[13].targets);
    }
    r.push(make_profile("unity", "Unity project caches", t));

    let mut t: Vec<String> = Vec::new();
    push_target(&mut t, "Intermediate");
    push_target(&mut t, "DerivedDataCache");
    push_target(&mut t, "Binaries");
    proof {
        assert(seq_views(t@) =~= spec_builtin_profiles()[14].targets);
    }
    r.push(make_profile("unreal", "Unreal Engine caches", t));

    let mut t: Vec<String> = Vec::new();
    push_target(&mut t, ".import");
    push_target(&mut t, ".godot");
    proof {
        assert(seq_views(t@) =~= spec_builtin_profiles()[15].targets);
    }
    r.push(make_profile("godot", "Godot Engine caches", t));

    let mut t: Vec<String> = Vec::new();
    push_target(&mut t, ".serverless");
    push_target(&mut t, ".vercel");
    push_target(&mut t, ".netlify");
    push_target(&mut t, ".terraform");
    push_target(&mut t, ".sass-cache");
    push_target(&mut t, "elm_stuff");
    push_target(&mut t, "nimcache");
    proof {
        assert(seq_views(t@) =~= spec_builtin_profiles()[16].targets);
    }
    r.push(make_profile("infra", "Infrastructure and deployment caches", t));

    proof {
        assert(profile_views(r@) =~~= spec_builtin_profiles());
    }
    r
}

/// The catalog ordered by profile name.
pub open spec fn spec_profiles_by_name() -> Seq<ProfileView> {
    let b = spec_builtin_profiles();
    seq![
        b[4],
        b[12],
        b[2],
        b[6],
        b[9],
        b[15],
        b[10],
        b[16],
        b[3],
        b[0],
        b[1],
        b[8],
        b[7],
        b[11],
        b[5],
        b[13],
        b[14],
    ]
}

/// All profiles, ordered by name.
pub fn list_profiles() -> (r: Vec<Profile>)
    ensures
        profile_views(r@) == spec_profiles_by_name(),
{
    let ps = builtin_profiles();
    proof {
        assert(profile_views(ps@).len() == 17);
        assert(ps@.len() == 17);
    }
    let mut r: Vec<Profile> = Vec::new();
    r.push(ps[4].clone());
    r.push(ps[12].clone());
    r.push(ps[2].clone());
    r.push(ps[6].clone());
    r.push(ps[9].clone());
    r.push(ps[15].clone());
    r.push(ps[10].clone());
    r.push(ps[16].clone());
    r.push(ps[3].clone());
    r.push(ps[0].clone());
    r.push(ps[1].clone());
    r.push(ps[8].clone());
    r.push(ps[7].clone());
    r.push(ps[11].clone());
    r.push(ps[5].clone());
    r.push(ps[13].clone());
    r.push(ps[14].clone());
    proof {
        assert(profile_views(r@) =~~= spec_profiles_by_name());
    }
    r
}

/// Adds `x` to `acc` unless it is already present.
pub open spec fn add_one(acc: Seq<Seq<char>>, x: Seq<char>) -> Seq<Seq<char>> {
    if acc.contains(x) {
        acc
    } else {
        acc.push(x)
    }
}

/// Adds each element of `xs` in order, skipping those already present.
pub open spec fn add_unique(acc: Seq<Seq<char>>, xs: Seq<Seq<char>>) -> Seq<Seq<char>>
    decreases xs.len(),
{
    if xs.len() == 0 {
        acc
    } else {
        add_unique(add_one(acc, xs[0]), xs.drop_first())
    }
}

proof fn lemma_add_unique_push(acc: Seq<Seq<char>>, xs: Seq<Seq<char>>, x: Seq<char>)
    ensures
        add_unique(acc, xs.push(x)) == add_one(add_unique(acc, xs), x),
    decreases xs.len(),
{
    if xs.len() == 0 {
        reveal_with_fuel(add_unique, 3);
        assert(xs.push(x)[0] == x);
        assert(xs.push(x).drop_first() =~~= Seq::<Seq<char>>::empty());
    } else {
        assert(xs.push(x)[0] == xs[0]);
        assert(xs.push(x).drop_first() =~~= xs.drop_first().push(x));
        lemma_add_unique_push(add_one(acc, xs[0]), xs.drop_first(), x);
    }
}

/// The targets of the first `n` profiles of `ps`, concatenated.
pub open spec fn profile_targets_upto(ps: Seq<ProfileView>, n: int) -> Seq<Seq<char>>
    decreases n,
{
    if n <= 0 {
        Seq::empty()
    } else {
        profile_targets_upto(ps, n - 1) + ps[n - 1].targets
    }
}

/// The targets of every profile of the catalog, concatenated in order.
pub open spec fn spec_all_targets() -> Seq<Seq<char>> {
    profile_targets_upto(spec_builtin_profiles(), spec_builtin_profiles().len() as int)
}

proof fn lemma_add_unique_append(acc: Seq<Seq<char>>, xs: Seq<Seq<char>>, ys: Seq<Seq<char>>)
    ensures
        add_unique(acc, xs + ys) == add_unique(add_unique(acc, xs), ys),
    decreases ys.len(),
{
    if ys.len() == 0 {
        assert(xs + ys =~~= xs);
    } else {
        assert((xs + ys.drop_last()).push(ys.last()) =~~= xs + ys);
        lemma_add_unique_append(acc, xs, ys.drop_last());
        lemma_add_unique_push(acc, xs + ys.drop_last(), ys.last());
        lemma_add_unique_push(add_unique(acc, xs), ys.drop_last(), ys.last());
        assert(ys.drop_last().push(ys.last()) =~~= ys);
    }
}

/// The index of the profile with the given name, if one exists.
pub open spec fn spec_profile_index_from(name: Seq<char>, i: int) -> Option<int>
    decreases spec_builtin_profiles().len() - i,
{
    if i < 0 || i >= spec_builtin_profiles().len() {
        None
    } else if spec_builtin_profiles()[i].name == name {
        Some(i)
    } else {
        spec_profile_index_from(name, i + 1)
    }
}

pub open spec fn spec_profile_index(name: Seq<char>) -> Option<int> {
    spec_profile_index_from(name, 0)
}

/// One step of the target-collection fold: what one profile name contributes.
pub open spec fn spec_targets_step(acc: Seq<Seq<char>>, name: Seq<char>) -> Seq<Seq<char>> {
    if name == "all"@ {
        add_unique(acc, spec_all_targets())
    } else {
        match spec_profile_index(name) {
            Some(i) => add_unique(acc, spec_builtin_profiles()[i].targets),
            None => acc,
        }
    }
}

pub open spec fn spec_targets_fold(acc: Seq<Seq<char>>, names: Seq<Seq<char>>) -> Seq<Seq<char>>
    decreases names.len(),
{
    if names.len() == 0 {
        acc
    } else {
        spec_targets_fold(spec_targets_step(acc, names[0]), names.drop_first())
    }
}

/// The de-duplicated targets of the named profiles, in order of first
/// appearance; `"all"` contributes every profile's targets.
pub open spec fn spec_targets_for_profiles(names: Seq<Seq<char>>) -> Seq<Seq<char>> {
    spec_targets_fold(Seq::empty(), names)
}

proof fn lemma_targets_fold_push(acc: Seq<Seq<char>>, names: Seq<Seq<char>>, x: Seq<char>)
    ensures
        spec_targets_fold(acc, names.push(x)) == spec_targets_step(
            spec_targets_fold(acc, names),
            x,
        ),
    decreases names.len(),
{
    if names.len() == 0 {
        reveal_with_fuel(spec_targets_fold, 3);
        assert(names.push(x)[0] == x);
        assert(names.push(x).drop_first() =~~= Seq::<Seq<char>>::empty());
    } else {
        assert(names.push(x)[0] == names[0]);
        assert(names.push(x).drop_first() =~~= names.drop_first().push(x));
        lemma_targets_fold_push(spec_targets_step(acc, names[0]), names.drop_first(), x);
    }
}

/// Appends `x` unless an equal string is already in `acc`.
fn push_unique(acc: &mut Vec<String>, x: &String)
    ensures
        seq_views(final(acc)@) == add_one(seq_views(old(acc)@), x@),
{
    let mut i: usize = 0;
    while i < acc.len()
        invariant
            i <= acc@.len(),
            forall|j: int| 0 <= j < i ==> acc@[j]@ != x@,
            acc@ == old(acc)@,
        decreases acc@.len() - i,
    {
        if acc[i].eq(x) {
            proof {
                assert(seq_views(acc@)[i as int] == x@);
                assert(seq_views(acc@).contains(x@));
            }
            return ;
        }
        i = i + 1;
    }
    proof {
        assert(forall|j: int| 0 <= j < acc@.len() ==> seq_views(acc@)[j] == acc@[j]@);
        assert(!seq_views(acc@).contains(x@));
    }
    let ghost pre = acc@;
    acc.push(x.clone());
    proof {
        assert(seq_views(acc@) =~= seq_views(pre).push(x@));
    }
}

/// The union of the targets of the named profiles, first appearance first,
/// without duplicates; the name `"all"` stands for every profile.
pub fn get_targets_for_profiles(profile_names: &Vec<String>) -> (r: Vec<String>)
    ensures
        seq_views(r@) == spec_targets_for_profiles(seq_views(profile_names@)),
{
    let profiles = builtin_profiles();
    let mut targets: Vec<String> = Vec::new();
    let ghost names = seq_views(profile_names@);
    let mut i: usize = 0;
    proof {
        assert(names.take(0) =~~= Seq::<Seq<char>>::empty());
    }
    while i < profile_names.len()
        invariant
            i <= profile_names@.len(),
            names == seq_views(profile_names@),
            profile_views(profiles@) == spec_builtin_profiles(),
            seq_views(targets@) == spec_targets_fold(Seq::empty(), names.take(i as int)),
        decreases profile_names@.len() - i,
    {
        let name = &profile_names[i];
        let ghost acc0 = seq_views(targets@);
        proof {
            assert(names.take(i + 1) =~~= names.take(i as int).push(names[i as int]));
            lemma_targets_fold_push(Seq::empty(), names.take(i as int), names[i as int]);
            assert(names[i as int] == name@);
        }
        if str_eq(name.as_str(), "all") {
            let mut p: usize = 0;
            proof {
                assert(acc0 =~~= add_unique(acc0, profile_targets_upto(spec_builtin_profiles(), 0)));
            }
            while p < profiles.len()
                invariant
                    p <= profiles@.len(),
                    profile_views(profiles@) == spec_builtin_profiles(),
                    seq_views(targets@) == add_unique(
                        acc0,
                        profile_targets_upto(spec_builtin_profiles(), p as int),
                    ),
                decreases profiles@.len() - p,
            {
                let ghost upto = profile_targets_upto(spec_builtin_profiles(), p as int);
                let ghost ptargets = spec_builtin_profiles()[p as int].targets;
                let prof = &profiles[p];
                let mut q: usize = 0;
                proof {
                    lemma_add_unique_append(acc0, upto, ptargets.take(0));
                    assert(upto + ptargets.take(0) =~~= upto);
                    assert(prof@.targets == ptargets);
                }
                while q < prof.targets.len()
                    invariant
                        q <= prof.targets@.len(),
                        prof@.targets == ptargets,
                        seq_views(targets@) == add_unique(add_unique(acc0, upto), ptargets.take(q as int)),
                    decreases prof.targets@.len() - q,
                {
                    proof {
                        assert(ptargets.take(q + 1) =~~= ptargets.take(q as int).push(
                            ptargets[q as int],
                        ));
                        lemma_add_unique_push(
                            add_unique(acc0, upto),
                            ptargets.take(q as int),
                            ptargets[q as int],
                        );
                        assert(ptargets[q as int] == prof.targets@[q as int]@);
                    }
                    push_unique(&mut targets, &prof.targets[q]);
                    q = q + 1;
                }
                proof {
                    assert(ptargets.take(q as int) =~~= ptargets);
                    lemma_add_unique_append(acc0, upto, ptargets);
                    assert(upto + ptargets =~~= profile_targets_upto(
                        spec_builtin_profiles(),
                        p + 1,
                    ));
                }
                p = p + 1;
            }
            proof {
                assert(seq_views(targets@) == spec_targets_step(acc0, name@));
            }
        } else {
            let mut p: usize = 0;
            let mut found = false;
            while p < profiles.len() && !found
                invariant
                    p <= profiles@.len(),
                    profile_views(profiles@) == spec_builtin_profiles(),
                    name@ != "all"@,
                    !found ==> spec_profile_index(name@) == spec_profile_index_from(name@, p as int),
                    found ==> {
                        &&& 0 < p <= profiles@.len()
                        &&& spec_profile_index(name@) == Some(p - 1)
                        &&& seq_views(targets@) == add_unique(
                            acc0,
                            spec_builtin_profiles()[p - 1].targets,
                        )
                    },
                    !found ==> seq_views(targets@) == acc0,
                decreases profiles@.len() - p,
            {
                let prof = &profiles[p];
                if str_eq(prof.name.as_str(), name.as_str()) {
                    let ghost ptargets = spec_builtin_profiles()[p as int].targets;
                    let mut q: usize = 0;
                    proof {
                        assert(ptargets.take(0) =~~= Seq::<Seq<char>>::empty());
                        assert(prof@.targets == ptargets);
                    }
                    while q < prof.targets.len()
                        invariant
                            q <= prof.targets@.len(),
                            prof@.targets == ptargets,
                            seq_views(targets@) == add_unique(acc0, ptargets.take(q as int)),
                        decreases prof.targets@.len() - q,
                    {
                        proof {
                            assert(ptargets.take(q + 1) =~~= ptargets.take(q as int).push(
                                ptargets[q as int],
                            ));
                            lemma_add_unique_push(acc0, ptargets.take(q as int), ptargets[q as int]);
                            assert(ptargets[q as int] == prof.targets@[q as int]@);
                        }
                        push_unique(&mut targets, &prof.targets[q]);
                        q = q + 1;
                    }
                    proof {
                        assert(ptargets.take(q as int) =~~= ptargets);
                    }
                    found = true;
                }
                p = p + 1;
            }
            proof {
                if !found {
                    assert(spec_profile_index(name@) is None);
                }
                assert(seq_views(targets@) == spec_targets_step(acc0, name@));
            }
        }
        i = i + 1;
    }
    proof {
        assert(names.take(names.len() as int) =~~= names);
    }
    targets
}

} // verus!
