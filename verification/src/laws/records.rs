//! What is remembered: profiles, build directories, what a user wants to be different, and the ledger
//! as people read it.

use crate::buildcache::{dir_name, dir_name_start, is_kept};
use crate::cli::config::{override_map, overrides_of, CliConfig};
use crate::cli::profile::{
    position_of, profile_step, profiles_after, ProfileSpec, ProfileStep, StateSpec,
};
use crate::cli::table::{category_width, table_lines, Record};
use crate::config::package::{platform_name, Package, PackagePlatform};
use crate::hashes::outcome_hash;
use crate::laws::packaging::arch_of;
use crate::lock::{removal_step, LockOutcome, RemovalStep};
use crate::util::feed::enc_u128;
use crate::util::text::{has_prefix, hex_text, lemma_hex_length, lemma_utf8_not_shorter};
use crate::util::unambiguous::lemma_u128_cut;
use crate::util::xxh3::xxh3_128;
use crate::HOST_PREFIX;
use vstd::prelude::*;

verus! {

// ---------------------------------------------------------------------------
// Profiles
// ---------------------------------------------------------------------------

proof fn lemma_position(profiles: Seq<ProfileSpec>, profile: ProfileSpec)
    ensures
        match position_of(profiles, profile) {
            Some(i) => 0 <= i < profiles.len() && profiles[i] == profile && forall|k: int|
                0 <= k < i ==> #[trigger] profiles[k] != profile,
            None => forall|k: int| 0 <= k < profiles.len() ==> #[trigger] profiles[k] != profile,
        },
    decreases profiles.len(),
{
    if profiles.len() > 0 {
        let front = profiles.drop_last();
        lemma_position(front, profile);
        assert forall|k: int| 0 <= k < front.len() implies front[k] == #[trigger] profiles[k] by {}
    }
}

/// A known profile is used without asking, under the number that it has. Of a new one the user is asked;
/// with their consent it is used under the next number, and without it the run is canceled.
pub proof fn lemma_new_profiles_are_asked_about(
    state: StateSpec,
    profile: ProfileSpec,
    confirmed: Option<bool>,
)
    requires
        state.profiles.len() < usize::MAX,
    ensures
        match profile_step(state, profile, confirmed) {
            ProfileStep::Use(number) => {
                ||| number < state.profiles.len() && state.profiles[number as int] == profile
                    && profiles_after(state, profile, confirmed) == state
                ||| {
                    &&& !state.profiles.contains(profile)
                    &&& confirmed == Some(true)
                    &&& number == state.profiles.len()
                    &&& profiles_after(state, profile, confirmed).profiles == state.profiles.push(
                        profile,
                    )
                    &&& profiles_after(state, profile, confirmed).hashes == state.hashes
                }
            },
            ProfileStep::Ask => !state.profiles.contains(profile) && confirmed is None
                && profiles_after(state, profile, confirmed) == state,
            ProfileStep::Cancel => !state.profiles.contains(profile) && confirmed == Some(false)
                && profiles_after(state, profile, confirmed) == state,
        },
{
    lemma_position(state.profiles, profile);
}

// ---------------------------------------------------------------------------
// Build directories
// ---------------------------------------------------------------------------

/// Which build directories stay: that of a package stays just if one of the packages to keep is for the
/// same platform and its name, up to a dot, is what the rest of the directory's name begins with.
pub proof fn lemma_kept_build_directories(
    platform: PackagePlatform,
    arch: Seq<char>,
    name: Seq<char>,
    exclude: Seq<(PackagePlatform, String)>,
)
    ensures
        is_kept(dir_name(platform, arch, name), exclude) <==> exists|i: int|
            0 <= i < exclude.len() && (#[trigger] exclude[i]).0 == platform && has_prefix(
                name + "."@ + arch,
                exclude[i].1@ + "."@,
            ),
{
    let file_name = dir_name(platform, arch, name);
    assert forall|i: int| 0 <= i < exclude.len() implies has_prefix(
        file_name,
        dir_name_start((#[trigger] exclude[i]).0, exclude[i].1@),
    ) == (exclude[i].0 == platform && has_prefix(name + "."@ + arch, exclude[i].1@ + "."@)) by {
        lemma_directory_name_start(platform, arch, name, exclude[i].0, exclude[i].1@);
    }
    if is_kept(file_name, exclude) {
        let i = choose|i: int|
            0 <= i < exclude.len() && has_prefix(
                file_name,
                dir_name_start((#[trigger] exclude[i]).0, exclude[i].1@),
            );
        assert(exclude[i].0 == platform);
    }
}

proof fn lemma_directory_name_start(
    platform: PackagePlatform,
    arch: Seq<char>,
    name: Seq<char>,
    other: PackagePlatform,
    start: Seq<char>,
)
    ensures
        has_prefix(dir_name(platform, arch, name), dir_name_start(other, start)) == (other
            == platform && has_prefix(name + "."@ + arch, start + "."@)),
{
    reveal_strlit("host");
    reveal_strlit("target");
    reveal_strlit(".");
    let whole = dir_name(platform, arch, name);
    let part = dir_name_start(other, start);
    let rest = name + "."@ + arch;
    let rest_start = start + "."@;
    assert(whole[0] == (if platform == PackagePlatform::Host {
        'h'
    } else {
        't'
    }));
    assert(part[0] == (if other == PackagePlatform::Host {
        'h'
    } else {
        't'
    }));
    if other != platform {
        if has_prefix(whole, part) {
            assert(whole.take(part.len() as int)[0] == part[0]);
        }
    } else {
        let head = platform_name(platform) + "."@;
        let n = head.len() as int;
        assert(whole =~= head + rest);
        assert(part =~= head + rest_start);
        if has_prefix(whole, part) {
            assert(rest.take(rest_start.len() as int) =~= whole.take(part.len() as int).skip(n));
            assert(rest_start =~= part.skip(n));
        }
        if has_prefix(rest, rest_start) {
            assert(whole.take(part.len() as int) =~= head + rest.take(rest_start.len() as int));
        }
    }
}

// ---------------------------------------------------------------------------
// Local configuration
// ---------------------------------------------------------------------------

/// The directories that take the place of sources are those that the local configuration names for the
/// package: for a package of the target under the packages, for a tool under the tools.
pub proof fn lemma_overrides_are_by_platform(config: CliConfig, name: Seq<char>)
    ensures
        override_map(config).contains_key((name, PackagePlatform::Target))
            <==> config.pkgs@.contains_key(name),
        config.pkgs@.contains_key(name) ==> override_map(config)[(name, PackagePlatform::Target)]
            == overrides_of(config.pkgs@[name].source_overrides),
        override_map(config).contains_key((name, PackagePlatform::Host))
            <==> config.tools@.contains_key(name),
        config.tools@.contains_key(name) ==> override_map(config)[(name, PackagePlatform::Host)]
            == overrides_of(config.tools@[name].source_overrides),
{
}

// ---------------------------------------------------------------------------
// The ledger as a table
// ---------------------------------------------------------------------------

proof fn lemma_width_suffices(records: Seq<Record>, i: int)
    requires
        0 <= i < records.len(),
    ensures
        records[i].0@.len() <= category_width(records),
    decreases records.len(),
{
    lemma_utf8_not_shorter(records.last().0@);
    if i < records.len() - 1 {
        lemma_width_suffices(records.drop_last(), i);
        assert(records.drop_last()[i] == records[i]);
    }
}

/// Each record has its line, in their order, and can be read off it: the category at the beginning, then
/// the hash of the recipe and that of the outcome, each in hexadecimal at the place of its column.
pub proof fn lemma_line_tells_its_record(records: Seq<Record>, i: int)
    requires
        0 <= i < records.len(),
    ensures
        ({
            let line = table_lines(records)[i + 2];
            let width = category_width(records) as int;
            let recipe = hex_text(records[i].1 as nat);
            let outcome = hex_text(records[i].2 as nat);
            &&& table_lines(records).len() == records.len() + 2
            &&& line.take(records[i].0@.len() as int) == records[i].0@
            &&& line.subrange(width + 1, width + 1 + recipe.len()) == recipe
            &&& line.subrange(width + 34, width + 34 + outcome.len()) == outcome
        }),
{
    reveal_strlit(" ");
    lemma_width_suffices(records, i);
    lemma_hex_length(records[i].1);
    lemma_hex_length(records[i].2);
    let line = table_lines(records)[i + 2];
    let width = category_width(records) as int;
    let recipe = hex_text(records[i].1 as nat);
    let outcome = hex_text(records[i].2 as nat);
    assert(line.take(records[i].0@.len() as int) =~= records[i].0@);
    assert(line.subrange(width + 1, width + 1 + recipe.len()) =~= recipe);
    assert(line.subrange(width + 34, width + 34 + outcome.len()) =~= outcome);
}

// ---------------------------------------------------------------------------
// Others
// ---------------------------------------------------------------------------

/// A directory is removed only under its lock, left alone while somebody uses it, and its removal fails
/// only if the lock could not be got for another reason, or it is missing where it has to be there.
pub proof fn lemma_used_directories_are_left_alone(outcome: LockOutcome, missing_is_fine: bool)
    ensures
        match removal_step(outcome, missing_is_fine) {
            RemovalStep::Remove => outcome == LockOutcome::Acquired,
            RemovalStep::Skip => outcome == LockOutcome::Blocked || (outcome == LockOutcome::Missing
                && missing_is_fine),
            RemovalStep::Fail => outcome == LockOutcome::Failed || (outcome == LockOutcome::Missing
                && !missing_is_fine),
        },
{
}

/// A package is built and installed for its platform: for the architecture of the host and under its
/// prefix, or for those of the target.
pub proof fn lemma_packages_are_for_their_platform(package: Package)
    ensures
        package.arch() == arch_of(package),
        package.prefix() == (if package.platform == PackagePlatform::Host {
            HOST_PREFIX@
        } else {
            package.global_env.target_prefix@
        }),
{
}

/// The hash of an outcome is the digest of bytes that tell both the recipe and what is in its
/// environment.
pub proof fn lemma_outcome_bytes_are_exact(
    recipe: u128,
    deps: u128,
    other_recipe: u128,
    other_deps: u128,
)
    ensures
        outcome_hash(recipe, deps) == xxh3_128(enc_u128(recipe) + enc_u128(deps)),
        enc_u128(recipe) + enc_u128(deps) == enc_u128(other_recipe) + enc_u128(other_deps)
            ==> recipe == other_recipe && deps == other_deps,
{
    if enc_u128(recipe) + enc_u128(deps) == enc_u128(other_recipe) + enc_u128(other_deps) {
        lemma_u128_cut(recipe, enc_u128(deps), other_recipe, enc_u128(other_deps));
        let none = Seq::<u8>::empty();
        assert(enc_u128(deps) + none =~= enc_u128(deps));
        assert(enc_u128(other_deps) + none =~= enc_u128(other_deps));
        lemma_u128_cut(deps, none, other_deps, none);
    }
}

} // verus!
