//! Finding what the command line names.

use crate::config::package::{Package, PackagePlatform};
use crate::util::text::str_eq;
use std::sync::Arc;
use vstd::prelude::*;

verus! {

/// The platform of the packages that are meant.
pub open spec fn meant_platform(tool: bool) -> PackagePlatform {
    if tool {
        PackagePlatform::Host
    } else {
        PackagePlatform::Target
    }
}

/// A package is the one with a name.
pub open spec fn is_meant(pkg: Package, name: Seq<char>, tool: bool) -> bool {
    pkg.name@ == name && pkg.platform == meant_platform(tool)
}

/// The first package with a name.
pub open spec fn find_package(packages: Seq<Arc<Package>>, name: Seq<char>, tool: bool) -> Option<
    Arc<Package>,
>
    decreases packages.len(),
{
    if packages.len() == 0 {
        None
    } else {
        match find_package(packages.drop_last(), name, tool) {
            Some(pkg) => Some(pkg),
            None => if is_meant(*packages.last(), name, tool) {
                Some(packages.last())
            } else {
                None
            },
        }
    }
}

/// What is said of a name that no package has.
pub open spec fn not_found_text(name: Seq<char>, tool: bool) -> Seq<char> {
    "Could not find a "@ + (if tool {
        "tool"@
    } else {
        "package"@
    }) + " with the name `"@ + name + "`"@
}

/// The first of the names that no package has.
pub open spec fn first_unknown(
    packages: Seq<Arc<Package>>,
    names: Seq<String>,
    tool: bool,
) -> Option<Seq<char>>
    decreases names.len(),
{
    if names.len() == 0 {
        None
    } else {
        match first_unknown(packages, names.drop_last(), tool) {
            Some(name) => Some(name),
            None => if find_package(packages, names.last()@, tool) is None {
                Some(names.last()@)
            } else {
                None
            },
        }
    }
}

/// The packages with names, where all names are known.
pub open spec fn found_packages(
    packages: Seq<Arc<Package>>,
    names: Seq<String>,
    tool: bool,
) -> Seq<Arc<Package>> {
    names.map_values(|name: String| find_package(packages, name@, tool)->0)
}

fn look_for_package(packages: &Vec<Arc<Package>>, name: &str, tool: bool) -> (r: Option<
    Arc<Package>,
>)
    ensures
        r == find_package(packages@, name@, tool),
{
    let platform: PackagePlatform = if tool {
        PackagePlatform::Host
    } else {
        PackagePlatform::Target
    };
    let mut found: Option<Arc<Package>> = None;
    let mut i: usize = 0;
    while i < packages.len()
        invariant
            0 <= i <= packages@.len(),
            platform == meant_platform(tool),
            found == find_package(packages@.take(i as int), name@, tool),
        decreases packages@.len() - i,
    {
        assert(packages@.take(i + 1).drop_last() =~= packages@.take(i as int));
        if found.is_none() && packages[i].platform == platform && str_eq(
            packages[i].name.as_str(),
            name,
        ) {
            found = Some(packages[i].clone());
        }
        i = i + 1;
    }
    assert(packages@.take(packages@.len() as int) =~= packages@);
    found
}

/// The packages, or the tools, with the given names, in the order of the names. A name that none
/// has is an error, and the first such name is the one that is complained about.
pub fn select_packages(packages: &Vec<Arc<Package>>, names: &Vec<String>, tool: bool) -> (r: Result<
    Vec<Arc<Package>>,
    String,
>)
    ensures
        match first_unknown(packages@, names@, tool) {
            None => r matches Ok(found) && found@ == found_packages(packages@, names@, tool),
            Some(name) => r matches Err(message) && message@ == not_found_text(name, tool),
        },
{
    let mut found: Vec<Arc<Package>> = Vec::new();
    let mut i: usize = 0;
    assert(found@ =~= found_packages(packages@, names@, tool).take(0));
    while i < names.len()
        invariant
            0 <= i <= names@.len(),
            first_unknown(packages@, names@.take(i as int), tool) is None,
            found@ == found_packages(packages@, names@, tool).take(i as int),
        decreases names@.len() - i,
    {
        assert(names@.take(i + 1).drop_last() =~= names@.take(i as int));
        match look_for_package(packages, names[i].as_str(), tool) {
            Some(pkg) => {
                let ghost all = found_packages(packages@, names@, tool);
                found.push(pkg);
                assert(all.take(i + 1) =~= all.take(i as int).push(all[i as int]));
            },
            None => {
                let mut message: String = "Could not find a ".to_string();
                message.append(
                    if tool {
                        "tool"
                    } else {
                        "package"
                    },
                );
                message.append(" with the name `");
                message.append(names[i].as_str());
                message.append("`");
                proof {
                    lemma_first_unknown_stays(packages@, names@, tool, i + 1);
                }
                return Err(message);
            },
        }
        i = i + 1;
    }
    assert(names@.take(names@.len() as int) =~= names@);
    let ghost all = found_packages(packages@, names@, tool);
    assert(all.take(names@.len() as int) =~= all);
    Ok(found)
}

proof fn lemma_first_unknown_stays(
    packages: Seq<Arc<Package>>,
    names: Seq<String>,
    tool: bool,
    count: int,
)
    requires
        0 <= count <= names.len(),
        first_unknown(packages, names.take(count), tool) is Some,
    ensures
        first_unknown(packages, names, tool) == first_unknown(packages, names.take(count), tool),
    decreases names.len() - count,
{
    if count < names.len() {
        assert(names.take(count + 1).drop_last() =~= names.take(count));
        lemma_first_unknown_stays(packages, names, tool, count + 1);
    } else {
        assert(names.take(count) =~= names);
    }
}

/// What is found under a name has that name, is for the platform that is meant, and is one of the
/// packages; nothing is found only if no package has the name.
pub proof fn lemma_found_package(packages: Seq<Arc<Package>>, name: Seq<char>, tool: bool)
    ensures
        match find_package(packages, name, tool) {
            Some(pkg) => is_meant(*pkg, name, tool) && packages.contains(pkg),
            None => forall|i: int|
                0 <= i < packages.len() ==> !is_meant(*#[trigger] packages[i], name, tool),
        },
    decreases packages.len(),
{
    if packages.len() > 0 {
        lemma_found_package(packages.drop_last(), name, tool);
        match find_package(packages.drop_last(), name, tool) {
            Some(pkg) => {
                let i = packages.drop_last().index_of(pkg);
                assert(packages[i] == pkg);
            },
            None => {
                assert(packages[packages.len() - 1] == packages.last());
                assert forall|i: int| 0 <= i < packages.len() - 1 implies !is_meant(
                    *#[trigger] packages[i],
                    name,
                    tool,
                ) by {
                    assert(packages.drop_last()[i] == packages[i]);
                }
            },
        }
    }
}

// ---------------------------------------------------------------------------
// Programs of the root file system
// ---------------------------------------------------------------------------

/// The number of programs that the root file system has to have packages for.
pub const REQUIRED_BINARY_COUNT: usize = 5;

/// A program that the root file system has to have a package for.
pub open spec fn required_binary(number: int) -> Seq<char> {
    if number == 0 {
        "bsdtar"@
    } else if number == 1 {
        "git"@
    } else if number == 2 {
        "patch"@
    } else if number == 3 {
        "sha256sum"@
    } else {
        "wget"@
    }
}

/// A program that the root file system has to have a package for, by its number.
pub fn get_required_binary(number: usize) -> (r: &'static str)
    requires
        number < REQUIRED_BINARY_COUNT,
    ensures
        r@ == required_binary(number as int),
{
    if number == 0 {
        "bsdtar"
    } else if number == 1 {
        "git"
    } else if number == 2 {
        "patch"
    } else if number == 3 {
        "sha256sum"
    } else {
        "wget"
    }
}

/// What is said of a root file system that has no package for a program.
pub open spec fn missing_binary_text(binary: Seq<char>) -> Seq<char> {
    "This rootfs manifest is missing a required package mapping for the `"@ + binary + "` binary"@
}

/// The package for a program, or the complaint that there is none.
pub fn require_binary(number: usize, package: Option<String>) -> (r: Result<String, String>)
    requires
        number < REQUIRED_BINARY_COUNT,
    ensures
        match package {
            Some(package) => r == Ok::<String, String>(package),
            None => r matches Err(message) && message@ == missing_binary_text(
                required_binary(number as int),
            ),
        },
{
    match package {
        Some(package) => Ok(package),
        None => {
            let mut message: String =
                "This rootfs manifest is missing a required package mapping for the `".to_string();
            message.append(get_required_binary(number));
            message.append("` binary");
            Err(message)
        },
    }
}

} // verus!
