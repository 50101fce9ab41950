//! Of which bytes the hashes of recipes are the digests. That these bytes tell all that counts is shown
//! in [`crate::config::exact`].

use crate::config::exact::{enc_content, enc_meta, enc_prepare_base};
use crate::config::package::Package;
use crate::config::source::{enc_base, Source};
use crate::config::CONFIG_VERSION;
use crate::util::feed::{enc_texts, enc_u128, enc_u64};
use crate::util::xxh3::xxh3_128;
use vstd::prelude::*;

verus! {

/// The hashes of a source build on each other: the base on where the files come from, the patches on the
/// base, the preparation on the patches, and the whole on what the preparation depends on, too.
pub proof fn lemma_digests_of_a_source(source: Source, below: u128)
    ensures
        source.base_hash() == xxh3_128(enc_u64(CONFIG_VERSION as nat) + enc_base(source.base)),
        source.patch_hash(below) == xxh3_128(enc_u128(below) + enc_texts(source.patches@)),
        source.prepare is None ==> {
            &&& source.prepare_base_hash(below) == xxh3_128(enc_u128(below))
            &&& source.prepare_hash(below) == xxh3_128(enc_u128(below))
        },
        source.prepare is Some ==> {
            &&& source.prepare_base_hash(below) == xxh3_128(
                enc_prepare_base(below, source.prepare->0),
            )
            &&& source.prepare_hash(below) == xxh3_128(
                enc_content(below, (source.prepare->0).dependencies),
            )
        },
        source.hash() == source.prepare_hash(
            source.prepare_base_hash(source.patch_hash(source.base_hash())),
        ),
{
}

/// The hashes of a package build on each other: the content on the recipe and on what it depends on, and
/// the whole on the content and the description.
pub proof fn lemma_digests_of_a_package(package: Package)
    ensures
        package.content_base_hash() == xxh3_128(package.enc_content_base()),
        package.content_hash() == xxh3_128(
            enc_content(package.content_base_hash(), package.dependencies),
        ),
        package.package_meta_hash() == xxh3_128(enc_meta(package)),
        package.package_hash() == xxh3_128(
            enc_u128(package.content_hash()) + enc_u128(package.package_meta_hash()),
        ),
{
}

} // verus!
