//! `daisy build`: the command lines of firmware builds.
use crate::text::owned;
use vstd::prelude::*;

verus! {

/// Arguments of the command.
#[derive(Debug)]
pub struct Args {
    /// Package to build; all firmware packages if none is named.
    pub package: Option<String>,
    /// Build profile.
    pub profile: String,
    /// Features to enable.
    pub features: Vec<String>,
}

/// The texts of a list of strings.
pub open spec fn texts(v: Seq<String>) -> Seq<Seq<char>> {
    v.map_values(|s: String| s@)
}

/// Texts with a comma between each two.
pub open spec fn joined(v: Seq<Seq<char>>) -> Seq<char>
    decreases v.len(),
{
    if v.len() == 0 {
        Seq::empty()
    } else if v.len() == 1 {
        v[0]
    } else {
        joined(v.drop_last()) + ","@ + v.last()
    }
}

/// The feature option, if there are features.
pub open spec fn feature_args(features: Seq<Seq<char>>) -> Seq<Seq<char>> {
    if features.len() == 0 {
        Seq::empty()
    } else {
        seq!["--features"@, joined(features)]
    }
}

/// The arguments that every firmware build starts with.
pub open spec fn common_args(profile: Seq<char>) -> Seq<Seq<char>> {
    seq!["build"@, "--target"@, "thumbv7em-none-eabihf"@, "--profile"@, profile]
}

/// The firmware packages, in build order.
pub open spec fn firmware_packages() -> Seq<Seq<char>> {
    seq!["daisy-boot"@, "daisy-bsp"@, "daisy-audio"@, "daisy-dsp"@, "daisy-app-template"@]
}

/// The package options of a build of everything: each package behind a `-p`.
pub open spec fn all_packages_args() -> Seq<Seq<char>> {
    Seq::new(
        10,
        |i: int|
            if i % 2 == 0 {
                "-p"@
            } else {
                firmware_packages()[i / 2]
            },
    )
}

fn join_features(features: &Vec<String>) -> (s: String)
    ensures
        s@ == joined(texts(features@)),
{
    let ghost v = texts(features@);
    let mut s = String::new();
    let mut i: usize = 0;
    assert(v.take(0) =~= Seq::empty());
    assert(s@ =~= Seq::empty());
    while i < features.len()
        invariant
            i <= features@.len(),
            v == texts(features@),
            s@ == joined(v.take(i as int)),
        decreases features@.len() - i,
    {
        assert(v.take(i + 1).drop_last() =~= v.take(i as int));
        assert(v.take(i + 1).last() == features@[i as int]@);
        let ghost before = s@;
        if i > 0 {
            s.append(",");
        }
        s.append(features[i].as_str());
        assert(s@ =~= joined(v.take(i + 1)));
        i = i + 1;
    }
    assert(v.take(i as int) =~= v);
    s
}

fn push_arg(args: &mut Vec<String>, s: &str)
    ensures
        texts(final(args)@) == texts(old(args)@).push(s@),
{
    let ghost before = texts(args@);
    args.push(owned(s));
    assert(texts(args@) =~= before.push(s@));
}

fn push_features(args: &mut Vec<String>, features: &Vec<String>)
    ensures
        texts(final(args)@) == texts(old(args)@) + feature_args(texts(features@)),
{
    let ghost before = texts(args@);
    if features.len() > 0 {
        push_arg(args, "--features");
        let f = join_features(features);
        push_arg(args, f.as_str());
    }
    assert(texts(args@) =~= before + feature_args(texts(features@)));
}

fn common(profile: &str) -> (args: Vec<String>)
    ensures
        texts(args@) == common_args(profile@),
{
    let mut args: Vec<String> = Vec::new();
    assert(texts(args@) =~= Seq::empty());
    push_arg(&mut args, "build");
    push_arg(&mut args, "--target");
    push_arg(&mut args, "thumbv7em-none-eabihf");
    push_arg(&mut args, "--profile");
    push_arg(&mut args, profile);
    assert(texts(args@) =~= common_args(profile@));
    args
}

/// Arguments of a build of one package, or of every firmware package.
pub fn workspace_args(a: &Args) -> (args: Vec<String>)
    ensures
        texts(args@) == common_args(a.profile@) + feature_args(texts(a.features@)) + match a.package {
            Some(p) => seq!["-p"@, p@],
            None => all_packages_args(),
        },
{
    let mut args = common(a.profile.as_str());
    push_features(&mut args, &a.features);
    let ghost before = texts(args@);
    match &a.package {
        Some(p) => {
            push_arg(&mut args, "-p");
            push_arg(&mut args, p.as_str());
            assert(texts(args@) =~= before + seq!["-p"@, p@]);
        },
        None => {
            push_arg(&mut args, "-p");
            push_arg(&mut args, "daisy-boot");
            push_arg(&mut args, "-p");
            push_arg(&mut args, "daisy-bsp");
            push_arg(&mut args, "-p");
            push_arg(&mut args, "daisy-audio");
            push_arg(&mut args, "-p");
            push_arg(&mut args, "daisy-dsp");
            push_arg(&mut args, "-p");
            push_arg(&mut args, "daisy-app-template");
            assert(texts(args@) =~= before + all_packages_args());
        },
    }
    args
}

/// Arguments of the build of one package that is then flashed.
pub fn firmware_args(package: &str, profile: &str, features: &Vec<String>) -> (args: Vec<String>)
    ensures
        texts(args@) == common_args(profile@) + seq!["-p"@, package@] + feature_args(
            texts(features@),
        ),
{
    let mut args = common(profile);
    let ghost before = texts(args@);
    push_arg(&mut args, "-p");
    push_arg(&mut args, package);
    assert(texts(args@) =~= before + seq!["-p"@, package@]);
    push_features(&mut args, features);
    args
}

/// The directory that a profile's artifacts lie in: the profile's name, but for
/// `dev`, whose artifacts lie in `debug`.
pub fn profile_dir(profile: &str) -> (d: String)
    ensures
        d@ == if profile@ == "dev"@ {
            "debug"@
        } else {
            profile@
        },
{
    let dev = owned("dev");
    let p = owned(profile);
    if p == dev {
        owned("debug")
    } else {
        p
    }
}

/// The place of a package's ELF file below the working directory.
pub fn artifact_path(package: &str, profile: &str) -> (p: String)
    ensures
        p@ == "target/thumbv7em-none-eabihf/"@ + (if profile@ == "dev"@ {
            "debug"@
        } else {
            profile@
        }) + "/"@ + package@,
{
    let mut p = owned("target/thumbv7em-none-eabihf/");
    let d = profile_dir(profile);
    p.append(d.as_str());
    p.append("/");
    p.append(package);
    p
}

/// Joining puts one comma between each two texts and nothing else.
pub proof fn law_joining_puts_commas_between(v: Seq<Seq<char>>, last: Seq<char>)
    ensures
        joined(Seq::<Seq<char>>::empty()) == Seq::<char>::empty(),
        joined(seq![last]) == last,
        v.len() > 0 ==> joined(v.push(last)) == joined(v) + seq![','] + last,
{
    reveal_strlit(",");
    assert(","@ =~= seq![',']);
    assert(v.push(last).drop_last() =~= v);
}

/// Every firmware package is named behind a `-p` of its own, in build order.
pub proof fn law_every_package_is_named(i: int)
    requires
        0 <= i < 5,
    ensures
        all_packages_args().len() == 10,
        all_packages_args()[2 * i] == "-p"@,
        all_packages_args()[2 * i + 1] == seq![
            "daisy-boot"@,
            "daisy-bsp"@,
            "daisy-audio"@,
            "daisy-dsp"@,
            "daisy-app-template"@,
        ][i],
{
    assert((2 * i) % 2 == 0 && (2 * i + 1) % 2 == 1 && (2 * i + 1) / 2 == i);
}

/// A build names its target and profile, and its features only if there are any.
pub proof fn law_builds_name_target_and_profile(profile: Seq<char>, features: Seq<Seq<char>>)
    ensures
        common_args(profile) == seq![
            "build"@,
            "--target"@,
            "thumbv7em-none-eabihf"@,
            "--profile"@,
            profile,
        ],
        features.len() == 0 ==> feature_args(features).len() == 0,
        features.len() > 0 ==> feature_args(features) == seq!["--features"@, joined(features)],
{
}

} // verus!
