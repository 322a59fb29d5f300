//! The cache of OCI images.
use vstd::prelude::*;
use vstd::string::*;
use std::collections::hash_map::DefaultHasher;
use std::hash::Hasher;
use crate::collections::order_descending;
#[allow(unused_imports)]
use crate::collections::{arranged, descending, int_keys, positions};
use crate::container::kernel::image_arch;
#[allow(unused_imports)]
use crate::container::kernel::image_arch_of;
use crate::container::size::format_size;
#[allow(unused_imports)]
use crate::container::size::size_text;
use crate::json::{parse_text, Json};
#[allow(unused_imports)]
use crate::json::{json_in, text_field};
use crate::keys::join_path;
#[allow(unused_imports)]
use crate::keys::path_join;
use crate::numbers::{hex, u64_to_string};
#[allow(unused_imports)]
use crate::numbers::{decimal, in_base};
use crate::text::{cat3, cat4, ends_with, str_eq};
#[allow(unused_imports)]
use crate::text::has_suffix;
#[allow(unused_imports)]
use vstd::std_specs::hash::DefaultHasherAdditionalSpecFns;
#[allow(unused_imports)]
use vstd::utf8::encode_utf8;

verus! {

// ---------------------------------------------------------------------------
// References
// ---------------------------------------------------------------------------

/// The whole form of an image reference as oci_client reads it, or what it says
/// where it cannot.
pub uninterp spec fn reference_in(s: Seq<char>) -> Result<Seq<char>, Seq<char>>;

/// Whether a result holds the given texts.
pub open spec fn holds(r: Result<String, String>, v: Result<Seq<char>, Seq<char>>) -> bool {
    match (r, v) {
        (Ok(a), Ok(b)) => a@ == b,
        (Err(a), Err(b)) => a@ == b,
        _ => false,
    }
}

/// Reads an image reference, by `oci_client::Reference`'s `FromStr`, and gives
/// its whole form; what is read is a function of the text, and so is the error.
#[verifier::external_body]
fn parse_reference(s: &str) -> (r: Result<String, String>)
    ensures
        holds(r, reference_in(s@)),
{
    match s.parse::<oci_client::Reference>() {
        Ok(t) => Ok(t.whole()),
        Err(e) => Err(e.to_string()),
    }
}

/// What a string feeds to a hasher, in one build: std does not fix it across its
/// releases or across platforms.
pub uninterp spec fn text_writes(s: Seq<char>) -> Seq<Seq<u8>>;

/// Feeds a string to a hasher, by `str`'s `Hash`: within one build what is fed is a
/// function of the string. Nothing is claimed of what it is, nor that another
/// release of std or another platform feeds the same.
#[verifier::external_body]
fn hash_text(state: &mut DefaultHasher, s: &str)
    ensures
        final(state)@ == old(state)@ + text_writes(s@),
{
    std::hash::Hash::hash(s, state)
}

/// The hash of an image reference.
pub open spec fn reference_hash(s: Seq<char>) -> u64 {
    DefaultHasher::spec_finish(text_writes(s))
}

/// Hashes an image reference.
fn md5_hash(s: &str) -> (r: u64)
    ensures
        r == reference_hash(s@),
{
    let mut h: DefaultHasher = DefaultHasher::new();
    hash_text(&mut h, s);
    assert(h@ =~= text_writes(s@));
    h.finish()
}

// ---------------------------------------------------------------------------
// The cache
// ---------------------------------------------------------------------------

/// Metadata about a cached OCI image.
#[derive(Debug)]
pub struct ImageInfo {
    /// Name of the image's directory.
    pub id: String,
    /// Node that has it; empty on the node itself.
    pub node_name: String,
    /// Size of its layers in bytes.
    pub size: u64,
    /// The size in a form for people.
    pub size_human: String,
    /// Number of layers.
    pub layers: usize,
    /// Architecture it is for.
    pub architecture: String,
    /// Operating system it is for.
    pub os: String,
    /// When it was built.
    pub created: String,
}

/// The contents of an [`ImageInfo`].
#[verifier::ext_equal]
pub struct ImageInfoV {
    pub id: Seq<char>,
    pub node_name: Seq<char>,
    pub size: u64,
    pub size_human: Seq<char>,
    pub layers: usize,
    pub architecture: Seq<char>,
    pub os: Seq<char>,
    pub created: Seq<char>,
}

impl DeepView for ImageInfo {
    type V = ImageInfoV;

    open spec fn deep_view(&self) -> ImageInfoV {
        ImageInfoV {
            id: self.id@,
            node_name: self.node_name@,
            size: self.size,
            size_human: self.size_human@,
            layers: self.layers,
            architecture: self.architecture@,
            os: self.os@,
            created: self.created@,
        }
    }
}

impl Clone for ImageInfo {
    fn clone(&self) -> (r: Self)
        ensures
            r.deep_view() == self.deep_view(),
    {
        ImageInfo {
            id: self.id.clone(),
            node_name: self.node_name.clone(),
            size: self.size,
            size_human: self.size_human.clone(),
            layers: self.layers,
            architecture: self.architecture.clone(),
            os: self.os.clone(),
            created: self.created.clone(),
        }
    }
}

/// What is found in the directory of a cached image.
#[derive(Debug)]
pub struct CachedImage {
    /// Name of the directory.
    pub name: String,
    /// The text of its configuration, if there is one.
    pub config: Option<String>,
    /// The sizes of its layers.
    pub layer_sizes: Vec<u64>,
}

/// The contents of a [`CachedImage`].
pub struct CachedImageV {
    pub name: Seq<char>,
    pub config: Option<Seq<char>>,
    pub layer_sizes: Seq<u64>,
}

impl DeepView for CachedImage {
    type V = CachedImageV;

    open spec fn deep_view(&self) -> CachedImageV {
        CachedImageV {
            name: self.name@,
            config: self.config.deep_view(),
            layer_sizes: self.layer_sizes@,
        }
    }
}

/// The sum of some sizes.
pub open spec fn total(sizes: Seq<u64>) -> nat
    decreases sizes.len(),
{
    if sizes.len() == 0 {
        0
    } else {
        total(sizes.drop_last()) + sizes.last() as nat
    }
}

/// A text in an image's configuration, or what stands in for it.
pub open spec fn config_text(config: Option<Seq<char>>, key: Seq<char>, otherwise: Seq<char>) -> Seq<
    char,
> {
    match config {
        Some(c) => match json_in(encode_utf8(c)) {
            Some(v) => match text_field(v, key) {
                Some(t) => t,
                None => otherwise,
            },
            None => otherwise,
        },
        None => otherwise,
    }
}

/// What is said of a cached image.
pub open spec fn image_info(c: CachedImageV) -> ImageInfoV {
    ImageInfoV {
        id: c.name,
        node_name: Seq::empty(),
        size: total(c.layer_sizes) as u64,
        size_human: size_text(total(c.layer_sizes) as u64),
        layers: c.layer_sizes.len() as usize,
        architecture: config_text(c.config, "architecture"@, "unknown"@),
        os: config_text(c.config, "os"@, "unknown"@),
        created: config_text(c.config, "created"@, Seq::empty()),
    }
}

/// The sizes of some images.
pub open spec fn sizes_of(images: Seq<ImageInfoV>) -> Seq<int> {
    Seq::new(images.len(), |i: int| images[i].size as int)
}

/// Whether a list holds the given images, the greatest first, those of one size
/// in their order.
pub open spec fn greatest_first(images: Seq<ImageInfoV>, r: Seq<ImageInfoV>) -> bool {
    exists|order: Seq<int>|
        #[trigger] descending(sizes_of(images), order) && r == arranged(images, order)
}

/// Orders images by size, the greatest first, stable.
pub fn sort_by_size(images: &Vec<ImageInfo>) -> (r: Vec<ImageInfo>)
    ensures
        greatest_first(images.deep_view(), r.deep_view()),
{
    let ghost all = images.deep_view();
    let mut keys: Vec<i128> = Vec::new();
    let mut i: usize = 0;
    while i < images.len()
        invariant
            i <= images@.len(),
            all == images.deep_view(),
            keys@.len() == i,
            forall|j: int| 0 <= j < i ==> (#[trigger] keys@[j]) == all[j].size,
        decreases images@.len() - i,
    {
        assert(all[i as int] == images@[i as int].deep_view());
        keys.push(images[i].size as i128);
        i = i + 1;
    }
    assert(int_keys(keys@) =~= sizes_of(all));
    let order: Vec<usize> = order_descending(&keys);
    let ghost o = positions(order@);
    let mut out: Vec<ImageInfo> = Vec::new();
    let mut k: usize = 0;
    while k < order.len()
        invariant
            k <= order@.len(),
            o == positions(order@),
            all == images.deep_view(),
            descending(sizes_of(all), o),
            out@.len() == k,
            forall|j: int| 0 <= j < k ==> (#[trigger] out@[j]).deep_view() == all[o[j]],
        decreases order@.len() - k,
    {
        assert(o[k as int] == order@[k as int]);
        assert(all[o[k as int]] == images@[o[k as int]].deep_view());
        out.push(images[order[k]].clone());
        k = k + 1;
    }
    assert(out.deep_view() =~= arranged(all, o));
    out
}

/// Whether a file name has the extension of a layer.
pub open spec fn is_layer(name: Seq<char>) -> bool {
    has_suffix(name, ".gz"@) && name.len() > 3
}

/// Whether one of some files is a layer by its name.
pub open spec fn holds_layer(files: Seq<String>) -> bool {
    exists|i: int| 0 <= i < files.len() && is_layer((#[trigger] files[i])@)
}

/// Decides whether a file name has the extension of a layer.
pub fn names_layer(name: &str) -> (r: bool)
    ensures
        r == is_layer(name@),
{
    ends_with(name, ".gz") && name.unicode_len() > 3
}

/// What a pull starts from.
#[derive(Debug)]
pub struct PullPlan {
    /// The directory of the image.
    pub image_dir: String,
    /// Whether the image is there already.
    pub cached: bool,
}

/// Manages the cache of OCI images.
pub struct ImageManager {
    /// The directory of the images.
    pub images_dir: String,
}

impl ImageManager {
    /// The cache under a data directory.
    pub fn new(data_dir: &str) -> (r: Self)
        ensures
            r.images_dir@ == path_join(data_dir@, "images"@),
    {
        ImageManager { images_dir: join_path(data_dir, "images") }
    }

    /// The directory of an image.
    pub open spec fn dir_of(&self, image_ref: Seq<char>) -> Seq<char> {
        path_join(self.images_dir@, in_base(reference_hash(image_ref) as nat, 16))
    }

    /// The directory of an image.
    pub fn image_dir(&self, image_ref: &str) -> (r: String)
        ensures
            r@ == self.dir_of(image_ref@),
    {
        join_path(self.images_dir.as_str(), hex(md5_hash(image_ref)).as_str())
    }

    /// What a pull starts from, by whether the image has a manifest and which
    /// files are among its layers. An image with a manifest but no layer counts
    /// as missing.
    pub fn pull(&self, image_ref: &str, has_manifest: bool, layer_files: &Vec<String>) -> (r: Result<
        PullPlan,
        String,
    >)
        ensures
            match r {
                Ok(p) => {
                    &&& reference_in(image_ref@) is Ok
                    &&& p.image_dir@ == self.dir_of(image_ref@)
                    &&& p.cached == (has_manifest && holds_layer(layer_files@))
                },
                Err(e) => reference_in(image_ref@) is Err && e@ == "Invalid image reference '"@
                    + image_ref@ + "': "@ + reference_in(image_ref@)->Err_0,
            },
    {
        match parse_reference(image_ref) {
            Ok(_) => {
                let has_layers: bool = any_layer(layer_files);
                Ok(
                    PullPlan {
                        image_dir: self.image_dir(image_ref),
                        cached: has_manifest && has_layers,
                    },
                )
            },
            Err(e) => Err(cat4("Invalid image reference '", image_ref, "': ", e.as_str())),
        }
    }

    /// The file of a layer.
    pub fn layer_path(layers_dir: &str, index: usize) -> (r: String)
        ensures
            r@ == path_join(layers_dir@, "layer_"@ + decimal(index as nat) + ".tar.gz"@),
    {
        join_path(
            layers_dir,
            cat3("layer_", u64_to_string(index as u64).as_str(), ".tar.gz").as_str(),
        )
    }

    /// The directory of an image that is cached.
    pub fn get_cached(&self, image_ref: &str, has_manifest: bool) -> (r: Option<String>)
        ensures
            r.deep_view() == if has_manifest {
                Some(self.dir_of(image_ref@))
            } else {
                None
            },
    {
        if has_manifest {
            Some(self.image_dir(image_ref))
        } else {
            None
        }
    }

    /// What is said of the cached images, the greatest first.
    pub fn list_images(found: &Vec<CachedImage>) -> (r: Vec<ImageInfo>)
        requires
            forall|i: int|
                0 <= i < found@.len() ==> total((#[trigger] found@[i]).layer_sizes@) <= u64::MAX,
        ensures
            greatest_first(
                found.deep_view().map_values(|c: CachedImageV| image_info(c)),
                r.deep_view(),
            ),
    {
        let ghost f = |c: CachedImageV| image_info(c);
        let mut images: Vec<ImageInfo> = Vec::new();
        let mut i: usize = 0;
        while i < found.len()
            invariant
                i <= found@.len(),
                images@.len() == i,
                forall|j: int|
                    0 <= j < found@.len() ==> total((#[trigger] found@[j]).layer_sizes@)
                        <= u64::MAX,
                forall|j: int|
                    0 <= j < i ==> (#[trigger] images@[j]).deep_view() == image_info(
                        found@[j].deep_view(),
                    ),
            decreases found@.len() - i,
        {
            images.push(describe(&found[i]));
            i = i + 1;
        }
        assert(images.deep_view() =~= found.deep_view().map_values(f));
        sort_by_size(&images)
    }

    /// Where an image is deleted, or what is said where there is none.
    pub fn delete_image(&self, image_id: &str, present: bool) -> (r: Result<String, String>)
        ensures
            match r {
                Ok(p) => present && p@ == path_join(self.images_dir@, image_id@),
                Err(e) => !present && e@ == "Image "@ + image_id@ + " not found"@,
            },
    {
        if present {
            Ok(join_path(self.images_dir.as_str(), image_id))
        } else {
            Err(cat3("Image ", image_id, " not found"))
        }
    }
}

fn any_layer(files: &Vec<String>) -> (r: bool)
    ensures
        r == holds_layer(files@),
{
    let mut i: usize = 0;
    while i < files.len()
        invariant
            i <= files@.len(),
            forall|j: int| 0 <= j < i ==> !is_layer((#[trigger] files@[j])@),
        decreases files@.len() - i,
    {
        if names_layer(files[i].as_str()) {
            assert(is_layer(files@[i as int]@));
            return true;
        }
        i = i + 1;
    }
    false
}

fn sum(sizes: &Vec<u64>) -> (r: u64)
    requires
        total(sizes@) <= u64::MAX,
    ensures
        r == total(sizes@),
{
    let mut t: u64 = 0;
    let mut i: usize = 0;
    while i < sizes.len()
        invariant
            i <= sizes@.len(),
            total(sizes@) <= u64::MAX,
            t == total(sizes@.take(i as int)),
        decreases sizes@.len() - i,
    {
        proof {
            lemma_total_grows(sizes@, i + 1);
            assert(sizes@.take(i + 1).drop_last() =~= sizes@.take(i as int));
        }
        t = t + sizes[i];
        i = i + 1;
    }
    assert(sizes@.take(i as int) =~= sizes@);
    t
}

/// No part of some sizes adds up to more than all of them.
proof fn lemma_total_grows(sizes: Seq<u64>, n: int)
    requires
        0 <= n <= sizes.len(),
    ensures
        total(sizes.take(n)) <= total(sizes),
    decreases sizes.len() - n,
{
    if n < sizes.len() {
        lemma_total_grows(sizes, n + 1);
        assert(sizes.take(n + 1).drop_last() =~= sizes.take(n));
    } else {
        assert(sizes.take(n) =~= sizes);
    }
}

fn text_or(v: &Option<Json>, key: &str, otherwise: &str) -> (r: String)
    ensures
        r@ == match v {
            Some(j) => match text_field(j.deep_view(), key@) {
                Some(t) => t,
                None => otherwise@,
            },
            None => otherwise@,
        },
{
    match v {
        Some(j) => match j.get_str(key) {
            Some(t) => t.clone(),
            None => otherwise.to_owned(),
        },
        None => otherwise.to_owned(),
    }
}

fn describe(c: &CachedImage) -> (r: ImageInfo)
    requires
        total(c.layer_sizes@) <= u64::MAX,
    ensures
        r.deep_view() == image_info(c.deep_view()),
{
    let config: Option<Json> = match &c.config {
        Some(t) => parse_text(t.as_str()),
        None => None,
    };
    let size: u64 = sum(&c.layer_sizes);
    let none: String = String::new();
    assert(none@ =~= Seq::<char>::empty());
    ImageInfo {
        id: c.name.clone(),
        node_name: String::new(),
        size,
        size_human: format_size(size),
        layers: c.layer_sizes.len(),
        architecture: text_or(&config, "architecture", "unknown"),
        os: text_or(&config, "os", "unknown"),
        created: text_or(&config, "created", none.as_str()),
    }
}

// ---------------------------------------------------------------------------
// Platforms
// ---------------------------------------------------------------------------

/// An entry of an image index: a digest and, where it is given, the operating
/// system and the architecture.
#[derive(Debug)]
pub struct IndexEntry {
    /// The digest of the manifest.
    pub digest: String,
    /// Operating system and architecture.
    pub platform: Option<(String, String)>,
}

/// The contents of an [`IndexEntry`].
pub struct IndexEntryV {
    pub digest: Seq<char>,
    pub platform: Option<(Seq<char>, Seq<char>)>,
}

impl DeepView for IndexEntry {
    type V = IndexEntryV;

    open spec fn deep_view(&self) -> IndexEntryV {
        IndexEntryV {
            digest: self.digest@,
            platform: match &self.platform {
                Some(p) => Some((p.0@, p.1@)),
                None => None,
            },
        }
    }
}

/// Whether an entry is for Linux, on the given architecture where there is one.
pub open spec fn fits(e: IndexEntryV, arch: Option<Seq<char>>) -> bool {
    match e.platform {
        Some(p) => p.0 == "linux"@ && match arch {
            Some(a) => p.1 == a,
            None => true,
        },
        None => false,
    }
}

/// The first entry that fits.
pub open spec fn first_fit(entries: Seq<IndexEntryV>, arch: Option<Seq<char>>) -> Option<Seq<char>>
    decreases entries.len(),
{
    if entries.len() == 0 {
        None
    } else if fits(entries[0], arch) {
        Some(entries[0].digest)
    } else {
        first_fit(entries.skip(1), arch)
    }
}

fn find_fit(entries: &Vec<IndexEntry>, arch: Option<&str>) -> (r: Option<String>)
    ensures
        r.deep_view() == first_fit(entries.deep_view(), arch.deep_view()),
{
    let ghost all = entries.deep_view();
    let mut i: usize = 0;
    assert(all.skip(0) =~= all);
    while i < entries.len()
        invariant
            i <= entries@.len(),
            all == entries.deep_view(),
            first_fit(all, arch.deep_view()) == first_fit(all.skip(i as int), arch.deep_view()),
        decreases entries@.len() - i,
    {
        assert(all.skip(i as int)[0] == entries@[i as int].deep_view());
        assert(all.skip(i as int).skip(1) =~= all.skip(i + 1));
        if let Some(p) = &entries[i].platform {
            let same: bool = match arch {
                Some(a) => str_eq(p.1.as_str(), a),
                None => true,
            };
            if str_eq(p.0.as_str(), "linux") && same {
                return Some(entries[i].digest.clone());
            }
        }
        i = i + 1;
    }
    None
}

/// Picks the image for Linux on an architecture from an image index, or any
/// image for Linux where there is none.
pub fn linux_platform_resolver(manifests: &Vec<IndexEntry>, arch: &str) -> (r: Option<String>)
    ensures
        r.deep_view() == match first_fit(manifests.deep_view(), Some(image_arch_of(arch@))) {
            Some(d) => Some(d),
            None => first_fit(manifests.deep_view(), None),
        },
{
    let wanted: String = image_arch(arch);
    match find_fit(manifests, Some(wanted.as_str())) {
        Some(d) => Some(d),
        None => find_fit(manifests, None),
    }
}

/// Whatever is picked is an image for Linux, and one is picked wherever there is
/// one.
pub proof fn law_picked_image_is_for_linux(entries: Seq<IndexEntryV>, arch: Option<Seq<char>>)
    ensures
        match first_fit(entries, arch) {
            Some(d) => exists|i: int|
                0 <= i < entries.len() && fits(#[trigger] entries[i], arch) && entries[i].digest
                    == d,
            None => forall|i: int| 0 <= i < entries.len() ==> !fits(#[trigger] entries[i], arch),
        },
    decreases entries.len(),
{
    if entries.len() > 0 {
        if fits(entries[0], arch) {
        } else {
            let t = entries.skip(1);
            law_picked_image_is_for_linux(t, arch);
            match first_fit(t, arch) {
                Some(d) => {
                    let i = choose|i: int|
                        0 <= i < t.len() && fits(#[trigger] t[i], arch) && t[i].digest == d;
                    assert(fits(entries[i + 1], arch));
                },
                None => {
                    assert forall|i: int| 0 <= i < entries.len() implies !fits(
                        #[trigger] entries[i],
                        arch,
                    ) by {
                        if i > 0 {
                            assert(t[i - 1] == entries[i]);
                        }
                    }
                },
            }
        }
    }
}

/// Ordering images by size keeps every image and adds none, and puts none before a
/// greater one.
pub proof fn law_sorting_keeps_images(
    images: Seq<ImageInfoV>,
    r: Seq<ImageInfoV>,
    x: ImageInfoV,
)
    requires
        greatest_first(images, r),
    ensures
        r.len() == images.len(),
        r.contains(x) <==> images.contains(x),
        forall|i: int, j: int|
            0 <= i < j < r.len() ==> (#[trigger] r[i]).size >= (#[trigger] r[j]).size,
{
    let order = choose|order: Seq<int>|
        #[trigger] descending(sizes_of(images), order) && r == arranged(images, order);
    let keys = sizes_of(images);
    if r.contains(x) {
        let i = choose|i: int| 0 <= i < r.len() && r[i] == x;
        assert(0 <= order[i] < keys.len());
        assert(images[order[i]] == x);
    }
    if images.contains(x) {
        let k = choose|k: int| 0 <= k < images.len() && images[k] == x;
        crate::collections::lemma_descending_is_complete(keys, order, k);
        let j = choose|j: int| 0 <= j < order.len() && #[trigger] order[j] == k;
        assert(r[j] == x);
    }
    assert forall|i: int, j: int| 0 <= i < j < r.len() implies (#[trigger] r[i]).size >= (
    #[trigger] r[j]).size by {
        assert(keys[order[i]] >= keys[order[j]]);
    }
}

proof fn lemma_first_fit(entries: Seq<IndexEntryV>, arch: Option<Seq<char>>, i: int)
    requires
        0 <= i < entries.len(),
        fits(entries[i], arch),
        forall|j: int| 0 <= j < i ==> !fits(#[trigger] entries[j], arch),
    ensures
        first_fit(entries, arch) == Some(entries[i].digest),
    decreases entries.len(),
{
    if i > 0 {
        assert(!fits(entries[0], arch));
        let t = entries.skip(1);
        assert(t[i - 1] == entries[i]);
        assert forall|j: int| 0 <= j < i - 1 implies !fits(#[trigger] t[j], arch) by {
            assert(t[j] == entries[j + 1]);
        }
        lemma_first_fit(t, arch, i - 1);
    }
}

/// Of the images in an index the first one for Linux on the machine's architecture
/// is taken; without one the first one for Linux; and without that none.
pub proof fn law_first_fitting_image_is_taken(
    manifests: Vec<IndexEntry>,
    arch: &str,
    r: Option<String>,
    i: int,
)
    requires
        call_ensures(linux_platform_resolver, (&manifests, arch), r),
        0 <= i < manifests.len(),
        manifests.deep_view()[i].platform is Some,
        (manifests.deep_view()[i].platform->0).0 == "linux"@,
    ensures
        r is Some,
        ({
            let all = manifests.deep_view();
            let wanted = if arch@ == "aarch64"@ {
                "arm64"@
            } else if arch@ == "x86_64"@ {
                "amd64"@
            } else {
                arch@
            };
            &&& all[i].platform == Some(("linux"@, wanted)) && (forall|j: int|
                0 <= j < i ==> (#[trigger] all[j]).platform != Some(("linux"@, wanted)))
                ==> r->0@ == all[i].digest
            &&& (forall|j: int|
                0 <= j < all.len() ==> (#[trigger] all[j]).platform != Some(("linux"@, wanted)))
                && (forall|j: int|
                0 <= j < i ==> ((#[trigger] all[j]).platform is None || (all[j].platform->0).0
                    != "linux"@)) ==> r->0@ == all[i].digest
        }),
{
    let all = manifests.deep_view();
    let wanted = image_arch_of(arch@);
    law_picked_image_is_for_linux(all, Some(wanted));
    law_picked_image_is_for_linux(all, None);
    assert(fits(all[i], None));
    if all[i].platform == Some(("linux"@, wanted)) && (forall|j: int|
        0 <= j < i ==> (#[trigger] all[j]).platform != Some(("linux"@, wanted))) {
        assert forall|j: int| 0 <= j < i implies !fits(#[trigger] all[j], Some(wanted)) by {
            assert(all[j].platform != Some(("linux"@, wanted)));
        }
        lemma_first_fit(all, Some(wanted), i);
    }
    if (forall|j: int|
        0 <= j < all.len() ==> (#[trigger] all[j]).platform != Some(("linux"@, wanted))) && (forall|
        j: int,
    |
        0 <= j < i ==> ((#[trigger] all[j]).platform is None || (all[j].platform->0).0
            != "linux"@)) {
        assert forall|j: int| 0 <= j < all.len() implies !fits(#[trigger] all[j], Some(wanted)) by {
            assert(all[j].platform != Some(("linux"@, wanted)));
        }
        lemma_first_fit(all, None, i);
    }
}

/// Without an image for Linux none is taken.
pub proof fn law_no_image_without_linux(manifests: Vec<IndexEntry>, arch: &str, r: Option<String>)
    requires
        call_ensures(linux_platform_resolver, (&manifests, arch), r),
        forall|j: int|
            0 <= j < manifests.len() ==> ((#[trigger] manifests.deep_view()[j]).platform is None
                || (manifests.deep_view()[j].platform->0).0 != "linux"@),
    ensures
        r is None,
{
    law_picked_image_is_for_linux(manifests.deep_view(), Some(image_arch_of(arch@)));
    law_picked_image_is_for_linux(manifests.deep_view(), None);
}

/// An image is taken from the cache exactly where its manifest is there and some
/// layer; a layer is a file whose name ends in `.gz` and holds more than that.
pub proof fn law_pull_uses_the_cache(
    m: ImageManager,
    image_ref: &str,
    has_manifest: bool,
    layer_files: Vec<String>,
    r: Result<PullPlan, String>,
    dir: String,
)
    requires
        call_ensures(ImageManager::pull, (&m, image_ref, has_manifest, &layer_files), r),
        call_ensures(ImageManager::image_dir, (&m, image_ref), dir),
    ensures
        r is Ok <==> reference_in(image_ref@) is Ok,
        r matches Ok(p) ==> p.image_dir@ == dir@ && (p.cached <==> has_manifest && exists|i: int|
            0 <= i < layer_files@.len() && (#[trigger] layer_files@[i])@.len() > 3 && has_suffix(
                layer_files@[i]@,
                ".gz"@,
            )),
{
    if r is Ok {
        if holds_layer(layer_files@) {
            let i = choose|i: int|
                0 <= i < layer_files@.len() && is_layer((#[trigger] layer_files@[i])@);
            assert(layer_files@[i]@.len() > 3);
        }
        if exists|i: int|
            0 <= i < layer_files@.len() && (#[trigger] layer_files@[i])@.len() > 3 && has_suffix(
                layer_files@[i]@,
                ".gz"@,
            ) {
            let i = choose|i: int|
                0 <= i < layer_files@.len() && (#[trigger] layer_files@[i])@.len() > 3
                    && has_suffix(layer_files@[i]@, ".gz"@);
            assert(is_layer(layer_files@[i]@));
        }
    }
}

/// The size of an image is the sum of its layers: without layers it is nothing, and
/// one layer more adds its size.
pub proof fn law_layers_add_up(c: CachedImageV, more: u64)
    requires
        total(c.layer_sizes.push(more)) <= u64::MAX,
        c.layer_sizes.len() < usize::MAX,
    ensures
        ({
            let larger = CachedImageV { layer_sizes: c.layer_sizes.push(more), ..c };
            &&& image_info(larger).size == image_info(c).size + more
            &&& image_info(larger).layers == image_info(c).layers + 1
            &&& c.layer_sizes.len() == 0 ==> image_info(c).size == 0
            &&& image_info(larger).id == c.name && image_info(larger).architecture
                == image_info(c).architecture && image_info(larger).os == image_info(c).os
        }),
{
    assert(c.layer_sizes.push(more).drop_last() =~= c.layer_sizes);
}

/// The cached images are listed, every one of them and no other, none before a
/// greater one.
pub proof fn law_cached_images_are_listed(found: Vec<CachedImage>, r: Vec<ImageInfo>, i: int)
    requires
        call_ensures(ImageManager::list_images, (&found,), r),
        0 <= i < found.len(),
    ensures
        r.len() == found.len(),
        exists|k: int|
            0 <= k < r.len() && (#[trigger] r.deep_view()[k]).id == found[i].name@
                && r.deep_view()[k] == image_info(found[i].deep_view()),
        forall|a: int, b: int|
            0 <= a < b < r.len() ==> (#[trigger] r.deep_view()[a]).size >= (
            #[trigger] r.deep_view()[b]).size,
{
    let all = found.deep_view().map_values(|c: CachedImageV| image_info(c));
    let x = image_info(found[i].deep_view());
    assert(all[i] == x);
    assert(all.contains(x));
    law_sorting_keeps_images(all, r.deep_view(), x);
    assert(r.deep_view().len() == r.len());
    let k = choose|k: int| 0 <= k < r.deep_view().len() && r.deep_view()[k] == x;
    assert(r.deep_view()[k].id == found[i].name@);
}

/// A cached image is named by its directory exactly where its manifest is there, and
/// deleted from the image directory exactly where it is there.
pub proof fn law_cache_answers(
    m: ImageManager,
    image_ref: &str,
    has_manifest: bool,
    present: bool,
    dir: String,
    cached: Option<String>,
    gone: Result<String, String>,
)
    requires
        call_ensures(ImageManager::image_dir, (&m, image_ref), dir),
        call_ensures(ImageManager::get_cached, (&m, image_ref, has_manifest), cached),
        call_ensures(ImageManager::delete_image, (&m, image_ref, present), gone),
    ensures
        cached is Some <==> has_manifest,
        cached matches Some(d) ==> d@ == dir@,
        gone is Ok <==> present,
        gone matches Ok(p) ==> p@ == path_join(m.images_dir@, image_ref@),
{
}

/// A cached image is listed under the name of its directory, with the number of its
/// layers and with the architecture, the system and the time that its configuration
/// names; where it names none, the first two are unknown.
pub proof fn law_image_is_described(c: CachedImageV, v: crate::json::JsonV)
    ensures
        image_info(c).id == c.name,
        c.layer_sizes.len() <= usize::MAX ==> image_info(c).layers == c.layer_sizes.len(),
        (c.config matches Some(t) && json_in(encode_utf8(t)) == Some(v)) ==> {
            &&& text_field(v, "architecture"@) matches Some(a) ==> image_info(c).architecture == a
            &&& text_field(v, "os"@) matches Some(o) ==> image_info(c).os == o
            &&& text_field(v, "created"@) matches Some(d) ==> image_info(c).created == d
        },
        c.config is None ==> image_info(c).architecture == "unknown"@ && image_info(c).os
            == "unknown"@ && image_info(c).created.len() == 0,
{
}

} // verus!
