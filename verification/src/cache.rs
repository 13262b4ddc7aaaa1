//! Caching of the system folder icon set.
//!
//! The cache keeps one PNG file per icon image plus a manifest inside a
//! cache directory, modeled by a [`FileStore`]. A cache is valid only if the
//! manifest file exists, every file it lists exists, and the force-refresh
//! flag is off; a missing listed file triggers one transparent repopulation
//! (self-healing) instead of a failure. The manifest is rewritten wholesale
//! on every population and removed wholesale when the cache is cleared.

use vstd::prelude::*;

use crate::convert::{convert_icon_set, spec_to_render, supported_dims};
use crate::error::Error;
use crate::icons::{ImageView, RenderIconSet, SysIconImage, SysIconSet};
use crate::manifest::{
    encode_manifest, manifest_wf, parse_manifest, spec_encode_manifest, CacheManifest,
    CachedIconInfo, IconInfoView, ManifestView,
};
use crate::store::{seq_starts_with, FileData, FileDataView, FileStore};
use crate::textutil::{spec_dec, u64_to_string};

verus! {

/// The external icon-extraction capability: produces the platform's default
/// folder icon set. What a call returns is the provider's own; the trait
/// only records the calls made and their outcomes, so that the cache
/// contracts can tie what they return and whether they fetched at all to
/// the provider.
pub trait IconProvider {
    /// The outcomes of the dump calls made so far, in order: the returned
    /// set's view on success, nothing on failure.
    spec fn history(&self) -> Seq<Option<Seq<ImageView>>>;

    /// Produces the full default folder icon set, or reports why it cannot.
    fn dump_default_icon_set(&mut self) -> (r: Result<SysIconSet, String>)
        ensures
            final(self).history() == old(self).history().push(
                match r {
                    Result::Ok(s) => Some(s@),
                    Result::Err(_) => None,
                },
            );
}

/// A provider that serves a fixed icon set; useful for tests and previews.
pub struct FixedIconProvider {
    pub set: SysIconSet,
    pub calls: Ghost<Seq<Option<Seq<ImageView>>>>,
}

impl FixedIconProvider {
    pub fn new(set: SysIconSet) -> (r: FixedIconProvider)
        ensures
            r.set@ == set@,
            r.history() == Seq::<Option<Seq<ImageView>>>::empty(),
    {
        FixedIconProvider { set, calls: Ghost(Seq::empty()) }
    }
}

impl IconProvider for FixedIconProvider {
    open spec fn history(&self) -> Seq<Option<Seq<ImageView>>> {
        self.calls@
    }

    fn dump_default_icon_set(&mut self) -> (r: Result<SysIconSet, String>)
        ensures
            r is Ok,
            r matches Ok(s) ==> s@ == old(self).set@ && final(self).set@ == old(self).set@,
    {
        let s = self.set.clone();
        self.calls = Ghost(self.calls@.push(Some(s@)));
        Ok(s)
    }
}

/// A provider that always fails with a fixed message; useful for tests that
/// must show a code path never reaches the provider.
pub struct FailingIconProvider {
    pub message: String,
    pub calls: Ghost<Seq<Option<Seq<ImageView>>>>,
}

impl FailingIconProvider {
    pub fn new(message: String) -> (r: FailingIconProvider)
        ensures
            r.message@ == message@,
            r.history() == Seq::<Option<Seq<ImageView>>>::empty(),
    {
        FailingIconProvider { message, calls: Ghost(Seq::empty()) }
    }
}

impl IconProvider for FailingIconProvider {
    open spec fn history(&self) -> Seq<Option<Seq<ImageView>>> {
        self.calls@
    }

    fn dump_default_icon_set(&mut self) -> (r: Result<SysIconSet, String>)
        ensures
            r is Err,
            r matches Err(m) ==> m@ == old(self).message@,
            final(self).message@ == old(self).message@,
    {
        self.calls = Ghost(self.calls@.push(None));
        Err(self.message.clone())
    }
}

/// The PNG encoding of an RGBA pixel buffer, as the image crate produces it.
pub uninterp spec fn png_data_of(width: u32, height: u32, pixels: Seq<u8>) -> Seq<u8>;

/// Whether the image crate can PNG-encode the given buffer as a
/// width-by-height RGBA image; success depends on the arguments alone.
pub uninterp spec fn png_encodable(width: u32, height: u32, pixels: Seq<u8>) -> bool;

/// What the image crate's PNG decoder makes of a byte buffer: the RGBA
/// image as (width, height, pixels), or nothing when the bytes are not a
/// decodable PNG.
pub uninterp spec fn png_decoding_of(data: Seq<u8>) -> Option<(u32, u32, Seq<u8>)>;

/// Whether every image of the set can be PNG-encoded.
pub open spec fn spec_all_encodable(imgs: Seq<ImageView>) -> bool {
    forall|i: int|
        0 <= i < imgs.len() ==> #[trigger] png_encodable(
            imgs[i].width,
            imgs[i].height,
            imgs[i].pixels,
        )
}

/// Relies on image::RgbaImage::from_raw and ImageBuffer::write_to with the
/// PNG format: encodes the pixel buffer; both the output and whether
/// encoding succeeds depend on the dimensions and pixel data alone.
#[verifier::external_body]
fn encode_png(width: u32, height: u32, pixels: &Vec<u8>) -> (r: Result<Vec<u8>, String>)
    ensures
        r is Ok <==> png_encodable(width, height, pixels@),
        r matches Ok(b) ==> b@ == png_data_of(width, height, pixels@),
{
    let img = match image::RgbaImage::from_raw(width, height, pixels.clone()) {
        Some(i) => i,
        None => return Err("pixel buffer does not match the dimensions".to_string()),
    };
    let mut buf: Vec<u8> = Vec::new();
    match img.write_to(&mut std::io::Cursor::new(&mut buf), image::ImageFormat::Png) {
        Ok(()) => Ok(buf),
        Err(e) => Err(e.to_string()),
    }
}

/// Relies on image::load_from_memory_with_format with the PNG format, and
/// DynamicImage::to_rgba8: the pinned builtin PNG decoder consults no
/// process-global hook registry, so decoding depends on the bytes alone,
/// and the returned RGBA buffer holds four bytes per pixel of the decoded
/// dimensions.
#[verifier::external_body]
fn decode_png(data: &Vec<u8>) -> (r: Result<(u32, u32, Vec<u8>), String>)
    ensures
        r matches Ok(t) ==> png_decoding_of(data@) == Some((t.0, t.1, t.2@)),
        r is Err ==> png_decoding_of(data@) is None,
        r matches Ok(t) ==> t.2@.len() == 4 * t.0 * t.1,
{
    match image::load_from_memory_with_format(data, image::ImageFormat::Png) {
        Ok(d) => {
            let rgba = d.to_rgba8();
            let (w, h) = (rgba.width(), rgba.height());
            Ok((w, h, rgba.into_raw()))
        },
        Err(e) => Err(e.to_string()),
    }
}

/// Relies on directories::ProjectDirs::from and data_dir: resolves the
/// platform data directory for the app identity. The outcome depends on the
/// environment, so nothing is promised of it.
#[verifier::external_body]
fn app_data_dir(qualifier: &str, organization: &str, application: &str) -> (r: Option<String>) {
    directories::ProjectDirs::from(qualifier, organization, application).map(
        |d| d.data_dir().to_string_lossy().into_owned(),
    )
}

/// The mathematical view of a cache configuration.
pub struct CacheConfigView {
    pub cache_dir: Seq<char>,
    pub force_refresh: bool,
}

/// Configuration for the icon cache.
#[derive(Debug, Clone)]
pub struct CacheConfig {
    /// The directory where cached icons are stored.
    pub cache_dir: String,
    /// Whether to force a refresh of the cache on next access.
    pub force_refresh: bool,
}

impl View for CacheConfig {
    type V = CacheConfigView;

    open spec fn view(&self) -> CacheConfigView {
        CacheConfigView { cache_dir: self.cache_dir@, force_refresh: self.force_refresh }
    }
}

impl CacheConfig {
    /// Creates a new cache configuration with the given cache directory.
    pub fn new(cache_dir: String) -> (r: CacheConfig)
        ensures
            r@.cache_dir == cache_dir@,
            !r@.force_refresh,
    {
        CacheConfig { cache_dir, force_refresh: false }
    }

    /// Creates a cache configuration under the standard app data directory
    /// for the given application identity.
    pub fn from_app_info(qualifier: &str, organization: &str, application: &str) -> (r: Result<
        CacheConfig,
        Error,
    >)
        ensures
            r matches Ok(c) ==> !c@.force_refresh && (exists|base: Seq<char>|
                c@.cache_dir == base + "/icon_cache"@),
            r matches Err(e) ==> e is AppDataDir,
    {
        match app_data_dir(qualifier, organization, application) {
            Some(base) => {
                let ghost base_view = base@;
                let mut dir = base;
                dir.append("/icon_cache");
                proof {
                    assert(dir@ == base_view + "/icon_cache"@);
                }
                Ok(CacheConfig { cache_dir: dir, force_refresh: false })
            },
            None => Err(
                Error::AppDataDir(String::from_str("failed to determine app data directory")),
            ),
        }
    }

    /// Sets whether to force a refresh of the cache.
    pub fn with_force_refresh(self, force: bool) -> (r: CacheConfig)
        ensures
            r@.cache_dir == self@.cache_dir,
            r@.force_refresh == force,
    {
        CacheConfig { cache_dir: self.cache_dir, force_refresh: force }
    }
}

/// The path of the manifest file inside the cache directory.
pub open spec fn spec_manifest_path(dir: Seq<char>) -> Seq<char> {
    dir + "/index.json"@
}

/// The path of the cached image file for (size, index).
pub open spec fn spec_icon_path(dir: Seq<char>, size: u32, index: nat) -> Seq<char> {
    dir + "/folder_icon_"@ + spec_dec(size as nat) + "_"@ + spec_dec(index) + ".png"@
}

/// The manifest a population run writes for the given icon set.
pub open spec fn spec_manifest_of(dir: Seq<char>, imgs: Seq<ImageView>) -> ManifestView {
    ManifestView {
        version: 1,
        icon_count: imgs.len() as usize,
        icons: Seq::new(
            imgs.len(),
            |i: int|
                IconInfoView {
                    size: imgs[i].width,
                    index: i as usize,
                    path: spec_icon_path(dir, imgs[i].width, i as nat),
                },
        ),
    }
}

/// The file tree after the first `n` image files have been written.
pub open spec fn spec_with_icon_files(
    m: Map<Seq<char>, FileDataView>,
    dir: Seq<char>,
    imgs: Seq<ImageView>,
    n: int,
) -> Map<Seq<char>, FileDataView>
    decreases n,
{
    if n <= 0 {
        m
    } else {
        spec_with_icon_files(m, dir, imgs, n - 1).insert(
            spec_icon_path(dir, imgs[n - 1].width, (n - 1) as nat),
            FileDataView::Bytes(
                png_data_of(imgs[n - 1].width, imgs[n - 1].height, imgs[n - 1].pixels),
            ),
        )
    }
}

/// The file tree after a full population run for `imgs`: every image file
/// written, then the manifest.
pub open spec fn spec_populated(
    m: Map<Seq<char>, FileDataView>,
    dir: Seq<char>,
    imgs: Seq<ImageView>,
) -> Map<Seq<char>, FileDataView> {
    spec_with_icon_files(m, dir, imgs, imgs.len() as int).insert(
        spec_manifest_path(dir),
        FileDataView::Text(spec_encode_manifest(spec_manifest_of(dir, imgs))),
    )
}

/// The file tree after the cache directory has been cleared.
pub open spec fn spec_cleared(m: Map<Seq<char>, FileDataView>, dir: Seq<char>) -> Map<
    Seq<char>,
    FileDataView,
> {
    Map::<Seq<char>, FileDataView>::new(
        |k: Seq<char>| m.contains_key(k) && !seq_starts_with(k, dir + "/"@),
        |k: Seq<char>| m[k],
    )
}

/// Whether the cache reports itself as valid: the refresh flag is off and
/// the manifest file exists.
pub open spec fn spec_is_cached(cfg: CacheConfigView, files: Map<Seq<char>, FileDataView>) -> bool {
    !cfg.force_refresh && files.contains_key(spec_manifest_path(cfg.cache_dir))
}

/// Whether `imgs` is exactly what the cache files under `m` decode to, in
/// manifest order, for the manifest `man`.
pub open spec fn spec_loaded_from(
    m: Map<Seq<char>, FileDataView>,
    dir: Seq<char>,
    man: ManifestView,
    imgs: Seq<ImageView>,
) -> bool {
    &&& manifest_wf(man)
    &&& m.contains_key(spec_manifest_path(dir))
    &&& m[spec_manifest_path(dir)] == FileDataView::Text(spec_encode_manifest(man))
    &&& imgs.len() == man.icons.len()
    &&& forall|i: int|
        0 <= i < imgs.len() ==> m.contains_key(#[trigger] man.icons[i].path) && (m[man.icons[i].path] matches FileDataView::Bytes(b)
            && png_decoding_of(b) == Some((imgs[i].width, imgs[i].height, imgs[i].pixels)))
}

/// Whether the well-formed manifest `man` is what the manifest file under
/// `m` holds.
pub open spec fn spec_manifest_stored(
    m: Map<Seq<char>, FileDataView>,
    dir: Seq<char>,
    man: ManifestView,
) -> bool {
    &&& manifest_wf(man)
    &&& m.contains_key(spec_manifest_path(dir))
    &&& m[spec_manifest_path(dir)] == FileDataView::Text(spec_encode_manifest(man))
}

/// Whether every file the manifest lists exists under `m`.
pub open spec fn spec_all_listed_present(m: Map<Seq<char>, FileDataView>, man: ManifestView) -> bool {
    forall|i: int| 0 <= i < man.icons.len() ==> m.contains_key(#[trigger] man.icons[i].path)
}

/// Whether the file at `path`, if present, holds a decodable PNG.
pub open spec fn spec_listed_file_good(m: Map<Seq<char>, FileDataView>, path: Seq<char>) -> bool {
    m.contains_key(path) ==> (m[path] matches FileDataView::Bytes(b) && png_decoding_of(b) is Some)
}

/// Whether the cache is stale but otherwise sound: a stored well-formed
/// manifest with at least one listed file missing, and every present listed
/// file decodable. On such a tree a load is owed exactly one transparent
/// repopulation.
pub open spec fn spec_cache_stale(m: Map<Seq<char>, FileDataView>, dir: Seq<char>) -> bool {
    exists|man: ManifestView|
        #[trigger] spec_manifest_stored(m, dir, man) && !spec_all_listed_present(m, man) && (forall|
            i: int,
        | 0 <= i < man.icons.len() ==> spec_listed_file_good(m, #[trigger] man.icons[i].path))
}

/// What a population pass promises, over the provider's one new record: it
/// succeeds exactly when the provider's dump succeeded with an encodable
/// set, and then returns that set with the tree fully repopulated.
pub open spec fn spec_populate_post(
    m0: Map<Seq<char>, FileDataView>,
    dir: Seq<char>,
    h0: Seq<Option<Seq<ImageView>>>,
    h1: Seq<Option<Seq<ImageView>>>,
    m1: Map<Seq<char>, FileDataView>,
    r: Result<SysIconSet, Error>,
) -> bool {
    &&& h1.len() == h0.len() + 1
    &&& h1.drop_last() == h0
    &&& (r is Ok <==> (h1.last() matches Some(imgs) && spec_all_encodable(imgs)))
    &&& (r matches Ok(set) ==> h1.last() == Some(set@) && m1 == spec_populated(m0, dir, set@))
}

/// Whether the cache files are fully intact: a stored well-formed manifest
/// whose listed files are all present and all decode. On such a tree a load
/// is owed success.
pub open spec fn spec_cache_intact(m: Map<Seq<char>, FileDataView>, dir: Seq<char>) -> bool {
    exists|man: ManifestView, imgs: Seq<ImageView>| #[trigger] spec_loaded_from(m, dir, man, imgs)
}

/// Whether `imgs` is exactly what the cache files under `m` decode to, for
/// some stored manifest.
pub open spec fn spec_loadable(
    m: Map<Seq<char>, FileDataView>,
    dir: Seq<char>,
    imgs: Seq<ImageView>,
) -> bool {
    exists|man: ManifestView| spec_loaded_from(m, dir, man, imgs)
}

/// What holds of the file tree after a successful `get`: either the set was
/// loaded from the cache files, which are unchanged, or the cache was
/// (re)populated with it.
pub open spec fn spec_got_set(
    m0: Map<Seq<char>, FileDataView>,
    cfg: CacheConfigView,
    m1: Map<Seq<char>, FileDataView>,
    imgs: Seq<ImageView>,
) -> bool {
    ||| ((exists|man: ManifestView| spec_loaded_from(m0, cfg.cache_dir, man, imgs)) && m1 == m0)
    ||| m1 == spec_populated(m0, cfg.cache_dir, imgs)
}

/// Manages caching of the system folder icon set over a modeled file tree.
#[derive(Debug)]
pub struct IconCache {
    /// The configuration the cache was created with; immutable afterwards.
    pub config: CacheConfig,
    /// The modeled contents of the disk the cache works against.
    pub files: FileStore,
}

impl IconCache {
    /// Creates a new icon cache with the given configuration, over an empty
    /// file tree.
    pub fn new(config: CacheConfig) -> (r: IconCache)
        ensures
            r.config@ == config@,
            r.files@ == Map::<Seq<char>, FileDataView>::empty(),
    {
        IconCache { config, files: FileStore::new() }
    }

    /// Creates a new icon cache under the standard app data directory.
    pub fn from_app_info(qualifier: &str, organization: &str, application: &str) -> (r: Result<
        IconCache,
        Error,
    >)
        ensures
            r matches Ok(c) ==> !c.config@.force_refresh && c.files@ == Map::<
                Seq<char>,
                FileDataView,
            >::empty(),
            r matches Err(e) ==> e is AppDataDir,
    {
        match CacheConfig::from_app_info(qualifier, organization, application) {
            Ok(config) => Ok(IconCache::new(config)),
            Err(e) => Err(e),
        }
    }

    /// Returns the cache directory path.
    pub fn cache_dir(&self) -> (r: &String)
        ensures
            r@ == self.config@.cache_dir,
    {
        &self.config.cache_dir
    }

    /// The path of the manifest file.
    fn manifest_path(&self) -> (r: String)
        ensures
            r@ == spec_manifest_path(self.config@.cache_dir),
    {
        let mut s = self.config.cache_dir.clone();
        s.append("/index.json");
        s
    }

    /// The path where the image of the given size and position is cached.
    fn icon_path(&self, size: u32, index: usize) -> (r: String)
        ensures
            r@ == spec_icon_path(self.config@.cache_dir, size, index as nat),
    {
        let mut s = self.config.cache_dir.clone();
        s.append("/folder_icon_");
        let size_str = u64_to_string(size as u64);
        s.append(size_str.as_str());
        s.append("_");
        let index_str = u64_to_string(index as u64);
        s.append(index_str.as_str());
        s.append(".png");
        proof {
            assert(s@ =~= spec_icon_path(self.config@.cache_dir, size, index as nat));
        }
        s
    }

    /// Checks whether a valid cache exists: false immediately when the
    /// refresh flag is set, otherwise true exactly when the manifest exists.
    pub fn is_cached(&self) -> (r: bool)
        ensures
            r == spec_is_cached(self.config@, self.files@),
    {
        if self.config.force_refresh {
            return false;
        }
        let mp = self.manifest_path();
        self.files.contains(mp.as_str())
    }

    /// Fetches the icon set from the provider and populates the cache:
    /// writes one PNG file per image, keyed by (size, index), then writes
    /// the manifest. The manifest is written only after every image write,
    /// so a failed run never creates one. Succeeds exactly when the
    /// provider's dump succeeded and every returned image is encodable, and
    /// then returns the provider's set unmodified.
    pub fn fetch_and_cache<P: IconProvider>(&mut self, provider: &mut P) -> (r: Result<
        SysIconSet,
        Error,
    >)
        ensures
            final(self).config == old(self).config,
            final(provider).history().len() == old(provider).history().len() + 1,
            final(provider).history().drop_last() == old(provider).history(),
            ({
                let rec = final(provider).history().last();
                &&& (r is Ok <==> (rec matches Some(imgs) && spec_all_encodable(imgs)))
                &&& (r matches Ok(set) ==> rec == Some(set@) && final(self).files@
                    == spec_populated(old(self).files@, old(self).config@.cache_dir, set@))
                &&& (r matches Err(e) ==> ((rec is None ==> e is IconSys) && (rec matches Some(_)
                    ==> e is Image)))
                &&& (r is Err && rec is None ==> final(self).files@ == old(self).files@)
            }),
            r is Err && !old(self).files@.contains_key(
                spec_manifest_path(old(self).config@.cache_dir),
            ) ==> !final(self).files@.contains_key(spec_manifest_path(old(self).config@.cache_dir)),
    {
        let set = match provider.dump_default_icon_set() {
            Ok(s) => s,
            Err(m) => {
                proof {
                    assert(provider.history().drop_last() =~= old(provider).history());
                }
                return Err(Error::IconSys(m));
            },
        };
        proof {
            assert(provider.history().drop_last() =~= old(provider).history());
        }
        let ghost dir = self.config@.cache_dir;
        let ghost m0 = self.files@;
        let mut icons_meta: Vec<CachedIconInfo> = Vec::new();
        let mut i: usize = 0;
        while i < set.images.len()
            invariant
                i <= set.images@.len(),
                self.config == old(self).config,
                dir == self.config@.cache_dir,
                m0 == old(self).files@,
                self.files@ == spec_with_icon_files(m0, dir, set@, i as int),
                provider.history().len() == old(provider).history().len() + 1,
                provider.history().drop_last() == old(provider).history(),
                provider.history().last() == Some(set@),
                icons_meta@.len() == i,
                forall|j: int|
                    0 <= j < i ==> #[trigger] png_encodable(
                        set@[j].width,
                        set@[j].height,
                        set@[j].pixels,
                    ),
                forall|j: int|
                    0 <= j < i ==> (#[trigger] icons_meta@[j])@ == (IconInfoView {
                        size: set@[j].width,
                        index: j as usize,
                        path: spec_icon_path(dir, set@[j].width, j as nat),
                    }),
            decreases set.images@.len() - i,
        {
            let img = &set.images[i];
            let bytes = match encode_png(img.width, img.height, &img.pixels) {
                Ok(b) => b,
                Err(m) => {
                    proof {
                        let v = set@[i as int];
                        assert(!png_encodable(v.width, v.height, v.pixels));
                        assert(!spec_all_encodable(set@));
                        lemma_with_icon_files_manifest(m0, dir, set@, i as int);
                    }
                    return Err(Error::Image(m));
                },
            };
            let path = self.icon_path(img.width, i);
            let meta_path = path.clone();
            self.files.write(path, FileData::Bytes(bytes));
            icons_meta.push(CachedIconInfo { size: img.width, index: i, path: meta_path });
            i += 1;
        }
        let manifest = CacheManifest {
            version: 1,
            icon_count: set.images.len(),
            icons: icons_meta,
        };
        proof {
            assert(manifest@.icons =~= spec_manifest_of(dir, set@).icons);
            assert(manifest@ == spec_manifest_of(dir, set@));
        }
        let text = encode_manifest(&manifest);
        let mpath = self.manifest_path();
        self.files.write(mpath, FileData::Text(text));
        Ok(set)
    }

    /// Loads the icon set from the cache files, decoding every file listed
    /// in the manifest, in manifest order. A missing listed file triggers
    /// exactly one transparent repopulation; a corrupt manifest or an
    /// undecodable file is an error.
    #[verifier::rlimit(100)]
    #[verifier::spinoff_prover]
    pub fn load_from_cache<P: IconProvider>(&mut self, provider: &mut P) -> (r: Result<
        SysIconSet,
        Error,
    >)
        requires
            old(self).files@.contains_key(spec_manifest_path(old(self).config@.cache_dir)),
        ensures
            final(self).config == old(self).config,
            r matches Ok(set) ==> spec_got_set(
                old(self).files@,
                old(self).config@,
                final(self).files@,
                set@,
            ),
            r matches Err(e) ==> (e is Serialization || e is Image || e is IconSys),
            ({
                let h0 = old(provider).history();
                let h1 = final(provider).history();
                h1 == h0 || (h1.len() == h0.len() + 1 && h1.drop_last() == h0)
            }),
            spec_cache_intact(old(self).files@, old(self).config@.cache_dir) ==> r is Ok
                && final(self).files@ == old(self).files@ && final(provider).history() == old(
                provider,
            ).history(),
            r matches Ok(set) ==> (spec_cache_intact(old(self).files@, old(self).config@.cache_dir)
                ==> spec_loadable(old(self).files@, old(self).config@.cache_dir, set@)),
            r matches Err(e) && e is Serialization ==> final(self).files@ == old(self).files@
                && final(provider).history() == old(provider).history(),
            forall|man: ManifestView|
                (#[trigger] spec_manifest_stored(old(self).files@, old(self).config@.cache_dir, man))
                    && spec_all_listed_present(old(self).files@, man) ==> final(provider).history()
                    == old(provider).history() && (r is Err ==> final(self).files@ == old(
                    self,
                ).files@),
            spec_cache_stale(old(self).files@, old(self).config@.cache_dir) ==> spec_populate_post(
                old(self).files@,
                old(self).config@.cache_dir,
                old(provider).history(),
                final(provider).history(),
                final(self).files@,
                r,
            ),
    {
        let ghost dir = self.config@.cache_dir;
        let ghost m0 = self.files@;
        let mpath = self.manifest_path();
        let manifest: CacheManifest = {
            let data = self.files.read(mpath.as_str());
            match data {
                Some(FileData::Text(t)) => {
                    match parse_manifest(t.as_str()) {
                        Some(m) => {
                            proof {
                                assert forall|man: ManifestView| #[trigger]
                                    spec_manifest_stored(m0, dir, man) implies man == m@ by {
                                    assert(t@ == spec_encode_manifest(man));
                                }
                            }
                            m
                        },
                        None => {
                            proof {
                                assert forall|man: ManifestView| #[trigger]
                                    spec_manifest_stored(m0, dir, man) implies false by {
                                    assert(t@ == spec_encode_manifest(man));
                                }
                                assert(!spec_cache_intact(m0, dir)) by {
                                    if spec_cache_intact(m0, dir) {
                                        let (man, imgs) = choose|
                                            man: ManifestView,
                                            imgs: Seq<ImageView>,
                                        | spec_loaded_from(m0, dir, man, imgs);
                                        assert(spec_manifest_stored(m0, dir, man));
                                    }
                                }
                                assert(!spec_cache_stale(m0, dir)) by {
                                    if spec_cache_stale(m0, dir) {
                                        let man = choose|man: ManifestView|
                                            spec_manifest_stored(m0, dir, man)
                                                && !spec_all_listed_present(m0, man) && (forall|
                                                i: int,
                                            |
                                                0 <= i < man.icons.len()
                                                    ==> spec_listed_file_good(
                                                    m0,
                                                    #[trigger] man.icons[i].path,
                                                ));
                                        assert(spec_manifest_stored(m0, dir, man));
                                    }
                                }
                            }
                            return Err(
                                Error::Serialization(
                                    String::from_str("cache manifest cannot be parsed"),
                                ),
                            );
                        },
                    }
                },
                Some(FileData::Bytes(_)) => {
                    proof {
                        assert forall|man: ManifestView| #[trigger]
                            spec_manifest_stored(m0, dir, man) implies false by {}
                        assert(!spec_cache_intact(m0, dir)) by {
                            if spec_cache_intact(m0, dir) {
                                let (man, imgs) = choose|man: ManifestView, imgs: Seq<ImageView>|
                                    spec_loaded_from(m0, dir, man, imgs);
                                assert(spec_manifest_stored(m0, dir, man));
                            }
                        }
                        assert(!spec_cache_stale(m0, dir)) by {
                            if spec_cache_stale(m0, dir) {
                                let man = choose|man: ManifestView|
                                    spec_manifest_stored(m0, dir, man) && !spec_all_listed_present(
                                        m0,
                                        man,
                                    ) && (forall|i: int|
                                        0 <= i < man.icons.len() ==> spec_listed_file_good(
                                            m0,
                                            #[trigger] man.icons[i].path,
                                        ));
                                assert(spec_manifest_stored(m0, dir, man));
                            }
                        }
                    }
                    return Err(
                        Error::Serialization(String::from_str("cache manifest is not a text file")),
                    );
                },
                None => {
                    proof {
                        assert(false);
                    }
                    return Err(Error::Serialization(String::new()));
                },
            }
        };
        let mut images: Vec<SysIconImage> = Vec::new();
        let mut i: usize = 0;
        while i < manifest.icons.len()
            invariant
                i <= manifest.icons@.len(),
                self.config == old(self).config,
                self.files@ == m0,
                m0 == old(self).files@,
                dir == self.config@.cache_dir,
                provider.history() == old(provider).history(),
                manifest_wf(manifest@),
                m0.contains_key(spec_manifest_path(dir)),
                m0[spec_manifest_path(dir)] == FileDataView::Text(spec_encode_manifest(manifest@)),
                forall|man: ManifestView| #[trigger]
                    spec_manifest_stored(m0, dir, man) ==> man == manifest@,
                images@.len() == i,
                forall|j: int|
                    0 <= j < i ==> m0.contains_key(#[trigger] manifest@.icons[j].path) && (
                    m0[manifest@.icons[j].path] matches FileDataView::Bytes(b) && png_decoding_of(b)
                        == Some((images@[j]@.width, images@[j]@.height, images@[j]@.pixels))),
            decreases manifest.icons@.len() - i,
        {
            let info = &manifest.icons[i];
            if !self.files.contains(info.path.as_str()) {
                proof {
                    assert forall|man: ManifestView|
                        (#[trigger] spec_manifest_stored(m0, dir, man)) && spec_all_listed_present(
                            m0,
                            man,
                        ) implies false by {
                        assert(man == manifest@);
                        assert(m0.contains_key(man.icons[i as int].path));
                    }
                    assert(!spec_cache_intact(m0, dir)) by {
                        if spec_cache_intact(m0, dir) {
                            let (man, imgs) = choose|man: ManifestView, imgs: Seq<ImageView>|
                                spec_loaded_from(m0, dir, man, imgs);
                            assert(spec_manifest_stored(m0, dir, man));
                            assert(man == manifest@);
                            assert(imgs.len() == man.icons.len());
                            assert(m0.contains_key(man.icons[i as int].path));
                        }
                    }
                }
                // Self-healing: a listed file is gone; repopulate in full.
                let healed = self.fetch_and_cache(provider);
                proof {
                    if healed is Ok {
                        assert(spec_got_set(m0, old(self).config@, self.files@, healed->Ok_0@));
                    }
                    if healed is Err {
                        assert(!(healed->Err_0 is Serialization));
                    }
                    assert(spec_populate_post(
                        m0,
                        dir,
                        old(provider).history(),
                        provider.history(),
                        self.files@,
                        healed,
                    ));
                }
                return healed;
            }
            let data = self.files.read(info.path.as_str());
            match data {
                Some(FileData::Bytes(b)) => {
                    match decode_png(b) {
                        Ok((w, h, px)) => {
                            images.push(SysIconImage { width: w, height: h, pixels: px });
                        },
                        Err(m) => {
                            proof {
                                assert(!spec_cache_intact(m0, dir)) by {
                                    if spec_cache_intact(m0, dir) {
                                        let (man, imgs) = choose|
                                            man: ManifestView,
                                            imgs: Seq<ImageView>,
                                        | spec_loaded_from(m0, dir, man, imgs);
                                        assert(spec_manifest_stored(m0, dir, man));
                                        assert(man == manifest@);
                                        assert(imgs.len() == man.icons.len());
                                        assert(m0.contains_key(man.icons[i as int].path)
                                            && (m0[man.icons[i as int].path] matches FileDataView::Bytes(
                                            bb,
                                        ) && png_decoding_of(bb) is Some));
                                    }
                                }
                                assert(!spec_cache_stale(m0, dir)) by {
                                    if spec_cache_stale(m0, dir) {
                                        let man = choose|man: ManifestView|
                                            spec_manifest_stored(m0, dir, man)
                                                && !spec_all_listed_present(m0, man) && (forall|
                                                ii: int,
                                            |
                                                0 <= ii < man.icons.len()
                                                    ==> spec_listed_file_good(
                                                    m0,
                                                    #[trigger] man.icons[ii].path,
                                                ));
                                        assert(man == manifest@);
                                        assert(spec_listed_file_good(m0, man.icons[i as int].path));
                                    }
                                }
                            }
                            return Err(Error::Image(m));
                        },
                    }
                },
                Some(FileData::Text(_)) => {
                    proof {
                        assert(!spec_cache_intact(m0, dir)) by {
                            if spec_cache_intact(m0, dir) {
                                let (man, imgs) = choose|man: ManifestView, imgs: Seq<ImageView>|
                                    spec_loaded_from(m0, dir, man, imgs);
                                assert(spec_manifest_stored(m0, dir, man));
                                assert(man == manifest@);
                                assert(imgs.len() == man.icons.len());
                                assert(m0.contains_key(man.icons[i as int].path)
                                    && (m0[man.icons[i as int].path] matches FileDataView::Bytes(bb)
                                    && png_decoding_of(bb) is Some));
                            }
                        }
                        assert(!spec_cache_stale(m0, dir)) by {
                            if spec_cache_stale(m0, dir) {
                                let man = choose|man: ManifestView|
                                    spec_manifest_stored(m0, dir, man) && !spec_all_listed_present(
                                        m0,
                                        man,
                                    ) && (forall|ii: int|
                                        0 <= ii < man.icons.len() ==> spec_listed_file_good(
                                            m0,
                                            #[trigger] man.icons[ii].path,
                                        ));
                                assert(man == manifest@);
                                assert(spec_listed_file_good(m0, man.icons[i as int].path));
                            }
                        }
                    }
                    return Err(Error::Image(String::from_str("cached icon file is not an image")));
                },
                None => {
                    proof {
                        assert(false);
                    }
                    return Err(Error::Image(String::new()));
                },
            }
            i += 1;
        }
        let set = SysIconSet { images };
        proof {
            assert(spec_loaded_from(m0, dir, manifest@, set@));
            assert(!spec_cache_stale(m0, dir)) by {
                if spec_cache_stale(m0, dir) {
                    let man = choose|man: ManifestView|
                        spec_manifest_stored(m0, dir, man) && !spec_all_listed_present(m0, man) && (
                        forall|ii: int|
                            0 <= ii < man.icons.len() ==> spec_listed_file_good(
                                m0,
                                #[trigger] man.icons[ii].path,
                            ));
                    assert(man == manifest@);
                    assert(spec_all_listed_present(m0, man)) by {
                        assert(forall|j: int|
                            0 <= j < manifest@.icons.len() ==> m0.contains_key(
                                #[trigger] manifest@.icons[j].path,
                            ));
                    }
                }
            }
            assert(spec_loadable(old(self).files@, old(self).config@.cache_dir, set@)) by {
                assert(spec_loaded_from(
                    old(self).files@,
                    old(self).config@.cache_dir,
                    manifest@,
                    set@,
                ));
            }
        }
        Ok(set)
    }

    /// Gets the system folder icon set, loading from the cache when it is
    /// valid and populating it otherwise.
    pub fn get_sys_icon_set<P: IconProvider>(&mut self, provider: &mut P) -> (r: Result<
        SysIconSet,
        Error,
    >)
        ensures
            final(self).config == old(self).config,
            r matches Ok(set) ==> spec_got_set(
                old(self).files@,
                old(self).config@,
                final(self).files@,
                set@,
            ),
            r matches Err(e) ==> (e is Serialization || e is Image || e is IconSys),
            ({
                let h0 = old(provider).history();
                let h1 = final(provider).history();
                h1 == h0 || (h1.len() == h0.len() + 1 && h1.drop_last() == h0)
            }),
            spec_is_cached(old(self).config@, old(self).files@) && spec_cache_intact(
                old(self).files@,
                old(self).config@.cache_dir,
            ) ==> r is Ok && final(self).files@ == old(self).files@ && final(provider).history()
                == old(provider).history(),
            r matches Ok(set) ==> (spec_is_cached(old(self).config@, old(self).files@)
                && spec_cache_intact(old(self).files@, old(self).config@.cache_dir)
                ==> spec_loadable(old(self).files@, old(self).config@.cache_dir, set@)),
            r matches Err(e) && e is Serialization ==> final(self).files@ == old(self).files@
                && final(provider).history() == old(provider).history(),
            spec_is_cached(old(self).config@, old(self).files@) && spec_cache_stale(
                old(self).files@,
                old(self).config@.cache_dir,
            ) ==> spec_populate_post(
                old(self).files@,
                old(self).config@.cache_dir,
                old(provider).history(),
                final(provider).history(),
                final(self).files@,
                r,
            ),
            !spec_is_cached(old(self).config@, old(self).files@) ==> spec_populate_post(
                old(self).files@,
                old(self).config@.cache_dir,
                old(provider).history(),
                final(provider).history(),
                final(self).files@,
                r,
            ),
    {
        if self.is_cached() {
            self.load_from_cache(provider)
        } else {
            self.fetch_and_cache(provider)
        }
    }

    /// Gets the icon set in the render representation: `get_sys_icon_set`
    /// followed by the structural conversion.
    pub fn get_renderer_icon_set<P: IconProvider>(&mut self, provider: &mut P) -> (r: Result<
        RenderIconSet,
        Error,
    >)
        ensures
            final(self).config == old(self).config,
            r matches Ok(rs) ==> exists|imgs: Seq<ImageView>|
                {
                    &&& #[trigger] spec_got_set(
                        old(self).files@,
                        old(self).config@,
                        final(self).files@,
                        imgs,
                    )
                    &&& supported_dims(imgs)
                    &&& rs@ == spec_to_render(imgs)
                },
            r matches Err(e) ==> (e is Serialization || e is Image || e is IconSys
                || e is Render),
            ({
                let h0 = old(provider).history();
                let h1 = final(provider).history();
                h1 == h0 || (h1.len() == h0.len() + 1 && h1.drop_last() == h0)
            }),
            spec_is_cached(old(self).config@, old(self).files@) && spec_cache_intact(
                old(self).files@,
                old(self).config@.cache_dir,
            ) && (forall|imgs: Seq<ImageView>|
                spec_loadable(old(self).files@, old(self).config@.cache_dir, imgs)
                    ==> supported_dims(imgs)) ==> r is Ok,
            !spec_is_cached(old(self).config@, old(self).files@) ==> ({
                let h1 = final(provider).history();
                &&& h1.len() == old(provider).history().len() + 1
                &&& h1.drop_last() == old(provider).history()
                &&& (r is Ok <==> (h1.last() matches Some(imgs) && spec_all_encodable(imgs)
                    && supported_dims(imgs)))
                &&& (r matches Ok(rs) ==> (h1.last() matches Some(imgs) && rs@ == spec_to_render(
                    imgs,
                ) && final(self).files@ == spec_populated(
                    old(self).files@,
                    old(self).config@.cache_dir,
                    imgs,
                )))
            }),
    {
        let set = match self.get_sys_icon_set(provider) {
            Ok(s) => s,
            Err(e) => return Err(e),
        };
        match convert_icon_set(&set) {
            Ok(rs) => {
                proof {
                    assert(spec_got_set(old(self).files@, old(self).config@, self.files@, set@)
                        && supported_dims(set@) && rs@ == spec_to_render(set@));
                }
                Ok(rs)
            },
            Err(e) => Err(e),
        }
    }

    /// Clears the cache: removes everything under the cache directory.
    /// Idempotent when the directory is already empty.
    pub fn clear(&mut self) -> (r: Result<(), Error>)
        ensures
            r is Ok,
            final(self).config == old(self).config,
            final(self).files@ == spec_cleared(old(self).files@, old(self).config@.cache_dir),
            !spec_is_cached(final(self).config@, final(self).files@),
    {
        let mut prefix = self.config.cache_dir.clone();
        prefix.append("/");
        self.files.remove_matching_prefix(prefix.as_str());
        proof {
            lemma_manifest_path_under_dir(self.config@.cache_dir);
        }
        Ok(())
    }

    /// Refreshes the cache: clears it and repopulates from the provider,
    /// returning the freshly fetched set.
    pub fn refresh<P: IconProvider>(&mut self, provider: &mut P) -> (r: Result<SysIconSet, Error>)
        ensures
            final(self).config == old(self).config,
            r matches Ok(set) ==> final(self).files@ == spec_populated(
                spec_cleared(old(self).files@, old(self).config@.cache_dir),
                old(self).config@.cache_dir,
                set@,
            ),
            r matches Err(e) ==> (e is IconSys || e is Image),
            final(provider).history().len() == old(provider).history().len() + 1,
            final(provider).history().drop_last() == old(provider).history(),
            ({
                let rec = final(provider).history().last();
                &&& (r is Ok <==> (rec matches Some(imgs) && spec_all_encodable(imgs)))
                &&& (r matches Ok(set) ==> rec == Some(set@))
                &&& (r matches Err(e) ==> ((rec is None ==> e is IconSys) && (rec matches Some(_)
                    ==> e is Image)))
                &&& (r is Err && rec is None ==> final(self).files@ == spec_cleared(
                    old(self).files@,
                    old(self).config@.cache_dir,
                ))
            }),
            r is Err ==> !final(self).files@.contains_key(
                spec_manifest_path(old(self).config@.cache_dir),
            ),
    {
        let cleared = self.clear();
        match cleared {
            Ok(()) => {},
            Err(e) => return Err(e),
        }
        proof {
            lemma_manifest_path_under_dir(self.config@.cache_dir);
            assert(!self.files@.contains_key(spec_manifest_path(self.config@.cache_dir)));
        }
        self.fetch_and_cache(provider)
    }
}

/// A cached image file is never the manifest file: their names differ just
/// after the directory prefix.
proof fn lemma_icon_path_not_manifest(dir: Seq<char>, size: u32, index: nat)
    ensures
        spec_icon_path(dir, size, index) != spec_manifest_path(dir),
{
    reveal_strlit("/folder_icon_");
    reveal_strlit("/index.json");
    let ip = spec_icon_path(dir, size, index);
    let mp = spec_manifest_path(dir);
    assert(ip.len() >= dir.len() + 13);
    assert(mp.len() == dir.len() + 11);
    if ip == mp {
        let k = dir.len() as int + 1;
        assert((dir + "/folder_icon_"@)[k] == "/folder_icon_"@[1]);
        assert(ip[k] == "/folder_icon_"@[1]);
        assert(mp[k] == "/index.json"@[1]);
        assert("/folder_icon_"@[1] == 'f');
        assert("/index.json"@[1] == 'i');
    }
}

/// Writing image files touches no manifest key: the manifest is present in
/// the written tree exactly when it was present before.
proof fn lemma_with_icon_files_manifest(
    m: Map<Seq<char>, FileDataView>,
    dir: Seq<char>,
    imgs: Seq<ImageView>,
    n: int,
)
    ensures
        spec_with_icon_files(m, dir, imgs, n).contains_key(spec_manifest_path(dir))
            == m.contains_key(spec_manifest_path(dir)),
    decreases n,
{
    if n > 0 {
        lemma_with_icon_files_manifest(m, dir, imgs, n - 1);
        lemma_icon_path_not_manifest(dir, imgs[n - 1].width, (n - 1) as nat);
    }
}

/// The manifest file lies inside the cache directory, so clearing the
/// directory removes it.
proof fn lemma_manifest_path_under_dir(dir: Seq<char>)
    ensures
        seq_starts_with(spec_manifest_path(dir), dir + "/"@),
{
    reveal_strlit("/index.json");
    reveal_strlit("/");
    assert(spec_manifest_path(dir).subrange(0, (dir + "/"@).len() as int) =~= dir + "/"@);
}

/// A population run leaves the manifest in place, so a populated cache
/// reports itself cached exactly while the refresh flag is off.
pub proof fn lemma_populated_is_cached(
    m: Map<Seq<char>, FileDataView>,
    cfg: CacheConfigView,
    imgs: Seq<ImageView>,
)
    ensures
        spec_is_cached(cfg, spec_populated(m, cfg.cache_dir, imgs)) == !cfg.force_refresh,
{
}

/// Clearing the cache removes the manifest: immediately after `clear`, the
/// cache reports itself not cached, whatever the refresh flag.
pub proof fn lemma_cleared_not_cached(m: Map<Seq<char>, FileDataView>, cfg: CacheConfigView)
    ensures
        !spec_is_cached(cfg, spec_cleared(m, cfg.cache_dir)),
{
    lemma_manifest_path_under_dir(cfg.cache_dir);
}

/// Loading from a valid cache does not touch the files: a populated cache
/// stays cached across `get` until the refresh flag is set or the cache is
/// cleared.
pub proof fn lemma_got_set_preserves_cached(
    m0: Map<Seq<char>, FileDataView>,
    cfg: CacheConfigView,
    m1: Map<Seq<char>, FileDataView>,
    imgs: Seq<ImageView>,
)
    requires
        spec_got_set(m0, cfg, m1, imgs),
        spec_is_cached(cfg, m0),
    ensures
        spec_is_cached(cfg, m1),
{
}

} // verus!
