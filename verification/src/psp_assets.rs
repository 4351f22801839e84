//! Texture assets and the cache that shares them.

use vstd::prelude::*;
use vstd::string::StrSliceExecFns;
use vstd::string::StringExecFns;
use crate::aligned::AlignedBytes;
use crate::error::PipelineError;
use crate::psp_image::load_png_swizzled;
use crate::psp_image::lemma_tiled_texture_is_tileable;
use crate::psp_image::DecodedImage;
use crate::psp_image::outcome_of;
use crate::psp_image::tiled_outcome;
use crate::psp_image::tiled_texture;
use crate::padding::padded;
use crate::padding::padded_width;
use crate::swizzle::lemma_tiling_round_trip;
use crate::swizzle::untiled;
use crate::texture::TextureHandle;
use crate::texture::TextureView;
use crate::texture_map::map_get;
use crate::texture_map::map_get_mut;
use crate::texture_map::map_insert;
use crate::texture_map::map_len;
use crate::texture_map::map_new;
use crate::texture_map::map_retain_referenced;
use crate::texture_map::no_entries;
use crate::texture_map::TextureMap;

verus! {

/// Whether `c` parts the components of a path.
pub open spec fn is_separator(c: char) -> bool {
    c == '/' || c == '\\'
}

/// Where the last component of `path` starts: behind its last separator, or
/// at the start of a path that has none.
pub open spec fn name_start(path: Seq<char>) -> int
    decreases path.len(),
{
    if path.len() == 0 {
        0
    } else if is_separator(path.last()) {
        path.len() as int
    } else {
        name_start(path.drop_last())
    }
}

/// The cache key of a source path: its last component, the directory left
/// out. A path that ends in a separator has the empty name.
pub open spec fn file_name(path: Seq<char>) -> Seq<char> {
    path.skip(name_start(path))
}

/// Derives the cache key from a source path.
pub fn file_name_of(path: &str) -> (name: String)
    ensures
        name@ == file_name(path@),
{
    let len = path.unicode_len();
    let mut start: usize = 0;
    let mut seen: usize = 0;
    for c in chars: path.chars()
        invariant
            chars.seq() == path@,
            seen == chars.index(),
            start <= seen <= len == path@.len(),
            start == name_start(path@.take(seen as int)),
    {
        assert(path@.take(seen + 1).drop_last() =~= path@.take(seen as int));
        seen += 1;
        if c == '/' || c == '\\' {
            start = seen;
        }
    }
    assert(path@.take(seen as int) =~= path@);
    String::from_str(path.substring_char(start, len))
}

/// Whether no character of `name` parts path components.
pub open spec fn is_plain_name(name: Seq<char>) -> bool {
    forall|i: int| 0 <= i < name.len() ==> !is_separator(#[trigger] name[i])
}

/// The cache key leaves the directory out: whatever stands before the last
/// separator of a path, the key is what follows it. A path without a
/// separator is its own key.
pub proof fn lemma_file_name_drops_directory(directory: Seq<char>, separator: char, name: Seq<char>)
    requires
        is_separator(separator),
        is_plain_name(name),
    ensures
        file_name(directory.push(separator) + name) == name,
        file_name(name) == name,
    decreases name.len(),
{
    let path = directory.push(separator) + name;
    if name.len() == 0 {
        assert(path =~= directory.push(separator));
        assert(path.skip(path.len() as int) =~= name);
        assert(name.skip(0) =~= name);
    } else {
        let shorter = name.drop_last();
        let before = directory.push(separator) + shorter;
        lemma_file_name_drops_directory(directory, separator, shorter);
        lemma_name_start_bounds(before);
        lemma_name_start_bounds(shorter);
        assert(path.drop_last() =~= before);
        assert(path.last() == name.last());
        assert(before.skip(name_start(before)).len() == shorter.len());
        assert(shorter.skip(name_start(shorter)).len() == shorter.len());
        assert(path.skip(directory.len() as int + 1) =~= name);
        assert(name.skip(0) =~= name);
    }
}

/// The last component starts inside the path.
pub proof fn lemma_name_start_bounds(path: Seq<char>)
    ensures
        0 <= name_start(path) <= path.len(),
    decreases path.len(),
{
    if path.len() > 0 && !is_separator(path.last()) {
        lemma_name_start_bounds(path.drop_last());
    }
}

/// Two source paths that end in the same file name have the same cache
/// key, whatever their directories.
pub proof fn lemma_same_file_name_same_key(
    first: Seq<char>,
    second: Seq<char>,
    separator: char,
    name: Seq<char>,
)
    requires
        is_separator(separator),
        is_plain_name(name),
    ensures
        file_name(first.push(separator) + name) == file_name(second.push(separator) + name),
{
    lemma_file_name_drops_directory(first, separator, name);
    lemma_file_name_drops_directory(second, separator, name);
}

/// The parts of a texture as an asset's load hands them over: width,
/// height, pitch and the pixel buffer.
pub open spec fn parts_outcome(
    result: Result<(usize, usize, usize, AlignedBytes), PipelineError>,
) -> Result<TextureView, PipelineError> {
    match result {
        Ok((width, height, pitch, pixels)) => Ok(
            TextureView {
                width: width as nat,
                height: height as nat,
                pitch: pitch as nat,
                bytes: pixels@,
            },
        ),
        Err(e) => Err(e),
    }
}

/// Something that a file holds and that is cached as a texture.
///
/// The kinds of asset differ in their names and paths. All of them are
/// loaded alike: what the cache holds is the tiled texture of the decoded
/// image.
pub trait Asset {
    /// The name under which the asset is cached.
    spec fn cache_name(&self) -> Seq<char>;

    /// The path of the file that holds the asset.
    spec fn source_path(&self) -> Seq<char>;

    /// The name under which the asset is cached.
    fn name(&self) -> (name: String)
        ensures
            name@ == self.cache_name(),
    ;

    /// The path of the file that holds the asset.
    fn path(&self) -> (path: String)
        ensures
            path@ == self.source_path(),
    ;

    /// Makes the texture from the decoded image of the asset's file: pads
    /// it, cuts it into tiles and puts it into aligned storage.
    fn load(&self, image: &DecodedImage) -> (result: Result<
        (usize, usize, usize, AlignedBytes),
        PipelineError,
    >)
        ensures
            tiled_outcome(image@, parts_outcome(result)),
    ;
}

/// Copies a loaded texture's bytes into aligned storage.
fn into_parts(loaded: Result<(u32, u32, usize, Vec<u8>), PipelineError>) -> (result: Result<
    (usize, usize, usize, AlignedBytes),
    PipelineError,
>)
    ensures
        match result {
            Ok(_) => parts_outcome(result) == outcome_of(loaded),
            Err(PipelineError::Allocation(e)) => match loaded {
                Ok((_, _, _, data)) => e.requested_size == data@.len(),
                Err(other) => other == PipelineError::Allocation(e),
            },
            Err(e) => loaded == Err::<(u32, u32, usize, Vec<u8>), PipelineError>(e),
        },
{
    match loaded {
        Ok((width, height, pitch, data)) => match AlignedBytes::from_slice(data.as_slice()) {
            Ok(pixels) => Ok((width as usize, height as usize, pitch, pixels)),
            Err(e) => Err(PipelineError::Allocation(e)),
        },
        Err(e) => Err(e),
    }
}

/// An image file that is shown as a texture.
#[derive(Clone, Debug, PartialEq, Eq)]
pub struct Image {
    path: String,
}

/// A bitmap font file. Its glyphs are cached as a texture like any image.
#[derive(Clone, Debug, PartialEq, Eq)]
pub struct Font {
    path: String,
}

impl Image {
    /// The image in the file at `path`.
    pub fn new(path: &str) -> (image: Self)
        ensures
            image.source_path() == path@,
            image.cache_name() == file_name(path@),
    {
        Image { path: String::from_str(path) }
    }
}

impl Font {
    /// The font in the file at `path`.
    pub fn new(path: &str) -> (font: Self)
        ensures
            font.source_path() == path@,
            font.cache_name() == file_name(path@),
    {
        Font { path: String::from_str(path) }
    }
}

impl Asset for Image {
    closed spec fn cache_name(&self) -> Seq<char> {
        file_name(self.path@)
    }

    closed spec fn source_path(&self) -> Seq<char> {
        self.path@
    }

    fn name(&self) -> (name: String) {
        file_name_of(self.path.as_str())
    }

    fn path(&self) -> (path: String) {
        self.path.clone()
    }

    fn load(&self, image: &DecodedImage) -> (result: Result<
        (usize, usize, usize, AlignedBytes),
        PipelineError,
    >) {
        into_parts(load_png_swizzled(image))
    }
}

impl Asset for Font {
    closed spec fn cache_name(&self) -> Seq<char> {
        file_name(self.path@)
    }

    closed spec fn source_path(&self) -> Seq<char> {
        self.path@
    }

    fn name(&self) -> (name: String) {
        file_name_of(self.path.as_str())
    }

    fn path(&self) -> (path: String) {
        self.path.clone()
    }

    fn load(&self, image: &DecodedImage) -> (result: Result<
        (usize, usize, usize, AlignedBytes),
        PipelineError,
    >) {
        into_parts(load_png_swizzled(image))
    }
}

/// One cached texture and the count of its users.
#[derive(Debug)]
pub struct AssetEntry {
    /// The texture.
    pub handle: TextureHandle,
    /// The number of strong handles to the entry that are out.
    pub strong: usize,
    /// The number of weak handles to the entry that are out.
    pub weak: usize,
    /// The number that tells this entry from every other that the cache has
    /// held or will hold.
    pub generation: u64,
}

impl AssetEntry {
    /// Whether a handle to the entry is out: such an entry stays in the
    /// cache.
    pub open spec fn referenced(&self) -> bool {
        self.strong > 0 || self.weak > 0
    }

    /// The texture of the entry.
    pub fn handle(&self) -> (texture: &TextureHandle)
        ensures
            *texture == self.handle,
    {
        &self.handle
    }

    /// Whether a handle to the entry is out.
    pub fn is_referenced(&self) -> (referenced: bool)
        ensures
            referenced == self.referenced(),
    {
        self.strong > 0 || self.weak > 0
    }
}

/// What a handle stands for: the entry that the cache holds under `name`,
/// as long as that entry is the one with this `generation`.
pub struct HandleView {
    /// The entry's name.
    pub name: Seq<char>,
    /// The entry's generation.
    pub generation: u64,
}

/// A strong handle: while it is out, its entry stays in the cache. It is
/// given back with `AssetServer::release`.
#[derive(Debug, PartialEq, Eq)]
pub struct Handle {
    name: String,
    generation: u64,
}

/// A weak handle: it watches an entry for an object that shows the texture
/// but does not own it. It gives no access to the texture: for that it is
/// turned into a strong handle with `AssetServer::upgrade`, which fails once
/// the entry has left the cache. It is given back with
/// `AssetServer::release_weak`; as long as it is counted, the sweep leaves
/// its entry in place.
#[derive(Debug, PartialEq, Eq)]
pub struct WeakHandle {
    name: String,
    generation: u64,
}

impl View for Handle {
    type V = HandleView;

    closed spec fn view(&self) -> HandleView {
        HandleView { name: self.name@, generation: self.generation }
    }
}

impl View for WeakHandle {
    type V = HandleView;

    closed spec fn view(&self) -> HandleView {
        HandleView { name: self.name@, generation: self.generation }
    }
}

impl Handle {
    /// The name of the entry that the handle stands for.
    pub fn name(&self) -> (name: &str)
        ensures
            name@ == self@.name,
    {
        self.name.as_str()
    }
}

impl WeakHandle {
    /// The name of the entry that the handle stands for.
    pub fn name(&self) -> (name: &str)
        ensures
            name@ == self@.name,
    {
        self.name.as_str()
    }
}

/// The cache of textures: at most one entry for each name, each with the
/// count of the handles that are out.
#[derive(Debug)]
pub struct AssetServer {
    texture_map: TextureMap,
    next_generation: u64,
}

/// Putting an entry where it already is changes nothing: an operation that
/// finds its entry and leaves it alone leaves the whole table alone.
proof fn lemma_same_entry_is_no_change(entries: Map<Seq<char>, AssetEntry>, name: Seq<char>)
    ensures
        entries.contains_key(name) ==> entries.insert(name, entries[name]) == entries,
{
    if entries.contains_key(name) {
        assert(entries.insert(name, entries[name]) =~= entries);
    }
}

/// The entry `entry` with other counts.
pub open spec fn with_counts(entry: AssetEntry, strong: int, weak: int) -> AssetEntry {
    AssetEntry { strong: strong as usize, weak: weak as usize, ..entry }
}

impl AssetServer {
    /// The entries of the cache, by name.
    pub closed spec fn entries(&self) -> Map<Seq<char>, AssetEntry> {
        self.texture_map@
    }

    /// The generation that the next new entry gets.
    pub closed spec fn next_generation(&self) -> u64 {
        self.next_generation
    }

    /// What holds of the cache at all times: it has finitely many entries,
    /// every texture in it is well formed and has the shape of a tiled one,
    /// and every entry's generation has been given out.
    pub open spec fn wf(&self) -> bool {
        &&& self.entries().dom().finite()
        &&& forall|name: Seq<char>| #[trigger]
            self.entries().contains_key(name) ==> {
                &&& self.entries()[name].handle.wf()
                &&& self.entries()[name].handle@.tiled_shape()
                &&& self.entries()[name].generation < self.next_generation()
            }
    }

    /// The numbers of strong and weak handles that are out for `name`.
    pub open spec fn counts(&self, name: Seq<char>) -> Option<(usize, usize)> {
        if self.entries().contains_key(name) {
            Some((self.entries()[name].strong, self.entries()[name].weak))
        } else {
            None
        }
    }

    /// Whether the entry that `handle` stands for is in the cache.
    pub open spec fn holds(&self, handle: HandleView) -> bool {
        &&& self.entries().contains_key(handle.name)
        &&& self.entries()[handle.name].generation == handle.generation
    }

    /// Whether the entry `name`, if the cache holds it, can count one more
    /// strong handle.
    pub open spec fn can_share(&self, name: Seq<char>) -> bool {
        self.entries().contains_key(name) ==> self.entries()[name].strong < usize::MAX
    }

    /// Whether a new entry can be made for `name`, if the cache does not
    /// hold it: whether a generation is left to give out.
    pub open spec fn can_store(&self, name: Seq<char>) -> bool {
        !self.entries().contains_key(name) ==> self.next_generation() < u64::MAX
    }

    /// Whether one more strong handle to `name` can be counted, or, where
    /// the cache has no such entry, one more generation given out.
    pub open spec fn can_add(&self, name: Seq<char>) -> bool {
        self.can_share(name) && self.can_store(name)
    }

    /// Whether `after` holds what `self` holds: nothing changed.
    pub open spec fn unchanged(&self, after: Self) -> bool {
        &&& after.next_generation() == self.next_generation()
        &&& after.entries() == self.entries()
    }

    /// Whether `after` is `self` with the counts of the entry `name` set
    /// anew and nothing else changed.
    pub open spec fn recounted(&self, name: Seq<char>, strong: int, weak: int, after: Self) -> bool {
        &&& after.next_generation() == self.next_generation()
        &&& after.entries() == self.entries().insert(
            name,
            with_counts(self.entries()[name], strong, weak),
        )
    }

    /// Whether `after` and `handle` are what sharing the entry `name`
    /// gives: one more strong handle is counted, and `handle` stands for the
    /// entry.
    pub open spec fn shared(&self, name: Seq<char>, after: Self, handle: HandleView) -> bool {
        &&& self.recounted(
            name,
            self.entries()[name].strong + 1,
            self.entries()[name].weak as int,
            after,
        )
        &&& handle == HandleView { name, generation: self.entries()[name].generation }
    }

    /// Whether one more weak handle to `name` can be counted.
    pub open spec fn can_watch(&self, name: Seq<char>) -> bool {
        self.entries().contains_key(name) ==> self.entries()[name].weak < usize::MAX
    }

    /// An empty cache.
    pub fn new() -> (server: Self)
        ensures
            server.wf(),
            server.entries() == no_entries(),
            server.next_generation() == 0,
    {
        AssetServer { texture_map: map_new(), next_generation: 0 }
    }

    /// The number of entries.
    pub fn size(&self) -> (size: usize)
        ensures
            size == self.entries().len(),
    {
        map_len(&self.texture_map)
    }

    /// A new strong handle to the entry `key`, if the cache has one.
    pub fn get(&mut self, key: &str) -> (result: Option<Handle>)
        requires
            old(self).wf(),
            old(self).can_share(key@),
        ensures
            final(self).wf(),
            match result {
                Some(handle) => old(self).entries().contains_key(key@) && old(self).shared(
                    key@,
                    *final(self),
                    handle@,
                ),
                None => !old(self).entries().contains_key(key@) && old(self).unchanged(*final(self)),
            },
    {
        match map_get_mut(&mut self.texture_map, key) {
            Some(entry) => {
                entry.strong = entry.strong + 1;
                Some(Handle { name: String::from_str(key), generation: entry.generation })
            },
            None => None,
        }
    }

    /// The numbers of strong and weak handles that are out for `key`.
    pub fn check_references(&self, key: &str) -> (counts: Option<(usize, usize)>)
        ensures
            counts == self.counts(key@),
    {
        match map_get(&self.texture_map, key) {
            Some(entry) => Some((entry.strong, entry.weak)),
            None => None,
        }
    }

    /// Whether `add`, `get` and `upgrade` can be called for `key`: whether
    /// one more strong handle can be counted or, for a name that the cache
    /// does not hold, one more generation given out.
    pub fn has_room(&self, key: &str) -> (room: bool)
        ensures
            room == self.can_add(key@),
    {
        match map_get(&self.texture_map, key) {
            Some(entry) => entry.strong < usize::MAX,
            None => self.next_generation < u64::MAX,
        }
    }

    /// Whether `downgrade` can be called for a handle to `key`: whether one
    /// more weak handle can be counted.
    pub fn has_room_to_watch(&self, key: &str) -> (room: bool)
        ensures
            room == self.can_watch(key@),
    {
        match map_get(&self.texture_map, key) {
            Some(entry) => entry.weak < usize::MAX,
            None => true,
        }
    }

    /// The texture that a strong handle stands for, unless its entry has
    /// left the cache.
    pub fn texture(&self, handle: &Handle) -> (texture: Option<&TextureHandle>)
        ensures
            match texture {
                Some(t) => self.holds(handle@) && *t == self.entries()[handle@.name].handle,
                None => !self.holds(handle@),
            },
    {
        match map_get(&self.texture_map, handle.name.as_str()) {
            Some(entry) => if entry.generation == handle.generation {
                Some(&entry.handle)
            } else {
                None
            },
            None => None,
        }
    }

    /// Gives a strong handle back: its entry counts one strong handle less.
    /// A handle whose entry has left the cache, or counts no strong handle,
    /// changes nothing.
    pub fn release(&mut self, handle: Handle)
        requires
            old(self).wf(),
        ensures
            final(self).wf(),
            if old(self).holds(handle@) && old(self).entries()[handle@.name].strong > 0 {
                old(self).recounted(
                    handle@.name,
                    old(self).entries()[handle@.name].strong - 1,
                    old(self).entries()[handle@.name].weak as int,
                    *final(self),
                )
            } else {
                old(self).unchanged(*final(self))
            },
    {
        match map_get_mut(&mut self.texture_map, handle.name.as_str()) {
            Some(entry) => {
                if entry.generation == handle.generation && entry.strong > 0 {
                    entry.strong = entry.strong - 1;
                }
            },
            None => {},
        }
        proof {
            lemma_same_entry_is_no_change(old(self).entries(), handle@.name);
        }
    }

    /// Gives a weak handle back: its entry counts one weak handle less. A
    /// handle whose entry has left the cache, or counts no weak handle,
    /// changes nothing.
    pub fn release_weak(&mut self, handle: WeakHandle)
        requires
            old(self).wf(),
        ensures
            final(self).wf(),
            if old(self).holds(handle@) && old(self).entries()[handle@.name].weak > 0 {
                old(self).recounted(
                    handle@.name,
                    old(self).entries()[handle@.name].strong as int,
                    old(self).entries()[handle@.name].weak - 1,
                    *final(self),
                )
            } else {
                old(self).unchanged(*final(self))
            },
    {
        match map_get_mut(&mut self.texture_map, handle.name.as_str()) {
            Some(entry) => {
                if entry.generation == handle.generation && entry.weak > 0 {
                    entry.weak = entry.weak - 1;
                }
            },
            None => {},
        }
        proof {
            lemma_same_entry_is_no_change(old(self).entries(), handle@.name);
        }
    }

    /// A new weak handle to the entry of a strong handle, unless the entry
    /// has left the cache.
    pub fn downgrade(&mut self, handle: &Handle) -> (result: Option<WeakHandle>)
        requires
            old(self).wf(),
            old(self).holds(handle@) ==> old(self).can_watch(handle@.name),
        ensures
            final(self).wf(),
            match result {
                Some(weak) => {
                    &&& old(self).holds(handle@)
                    &&& weak@ == handle@
                    &&& old(self).recounted(
                        handle@.name,
                        old(self).entries()[handle@.name].strong as int,
                        old(self).entries()[handle@.name].weak + 1,
                        *final(self),
                    )
                },
                None => !old(self).holds(handle@) && old(self).unchanged(*final(self)),
            },
    {
        let result = match map_get_mut(&mut self.texture_map, handle.name.as_str()) {
            Some(entry) => {
                if entry.generation == handle.generation {
                    entry.weak = entry.weak + 1;
                    Some(WeakHandle { name: handle.name.clone(), generation: handle.generation })
                } else {
                    None
                }
            },
            None => None,
        };
        proof {
            lemma_same_entry_is_no_change(old(self).entries(), handle@.name);
        }
        result
    }

    /// A new strong handle to the entry of a weak handle, unless the entry
    /// has left the cache: then the texture is gone, and the caller goes on
    /// without it.
    pub fn upgrade(&mut self, weak: &WeakHandle) -> (result: Option<Handle>)
        requires
            old(self).wf(),
            old(self).holds(weak@) ==> old(self).can_share(weak@.name),
        ensures
            final(self).wf(),
            match result {
                Some(handle) => old(self).holds(weak@) && old(self).shared(
                    weak@.name,
                    *final(self),
                    handle@,
                ),
                None => !old(self).holds(weak@) && old(self).unchanged(*final(self)),
            },
    {
        let result = match map_get_mut(&mut self.texture_map, weak.name.as_str()) {
            Some(entry) => {
                if entry.generation == weak.generation {
                    entry.strong = entry.strong + 1;
                    Some(Handle { name: weak.name.clone(), generation: weak.generation })
                } else {
                    None
                }
            },
            None => None,
        };
        proof {
            lemma_same_entry_is_no_change(old(self).entries(), weak@.name);
        }
        result
    }

    /// The entries that stay when the cache is swept: those for which a
    /// handle is out.
    pub open spec fn swept(&self) -> Map<Seq<char>, AssetEntry> {
        self.entries().restrict(Set::new(|name: Seq<char>| self.entries()[name].referenced()))
    }

    /// Whether `after` and `result` are what the cache comes to when the
    /// outcome `loaded` of a load is stored under `name`, a name that it
    /// does not hold: a loaded texture becomes a new entry with one strong
    /// handle out, the one that is returned; a failed load is reported and
    /// changes nothing.
    pub open spec fn stored(
        &self,
        name: Seq<char>,
        loaded: Result<TextureView, PipelineError>,
        after: Self,
        result: Result<Handle, PipelineError>,
    ) -> bool {
        match loaded {
            Ok(texture) => {
                &&& result matches Ok(handle)
                &&& handle@ == HandleView { name, generation: self.next_generation() }
                &&& after.next_generation() == self.next_generation() + 1
                &&& after.entries() == self.entries().insert(name, after.entries()[name])
                &&& after.entries()[name].handle@ == texture
                &&& after.entries()[name].strong == 1
                &&& after.entries()[name].weak == 0
                &&& after.entries()[name].generation == self.next_generation()
            },
            Err(e) => result == Err::<Handle, PipelineError>(e) && self.unchanged(after),
        }
    }

    /// Whether `after` and `result` are what the cache comes to when the
    /// asset, which it does not hold, is added from what reading and
    /// decoding its file gave. An error of storage or of the decoder is
    /// reported and changes nothing. Of a decoded image the tiled texture
    /// is stored; where that texture cannot be made, the error of the load
    /// is reported and nothing changes.
    pub open spec fn decoded_stored<A: Asset>(
        &self,
        asset: A,
        decoded: Result<DecodedImage, PipelineError>,
        after: Self,
        result: Result<Handle, PipelineError>,
    ) -> bool {
        match decoded {
            Ok(image) => match result {
                Ok(_) => image@.height % 8 == 0 && self.stored(
                    asset.cache_name(),
                    Ok(tiled_texture(image@)),
                    after,
                    result,
                ),
                Err(e) => tiled_outcome(image@, Err(e)) && self.unchanged(after),
            },
            Err(e) => result == Err::<Handle, PipelineError>(e) && self.unchanged(after),
        }
    }

    /// Whether what reading and decoding a file gave can come to be stored:
    /// it is an image whose height fills whole tiles. Only then does an add
    /// need a generation for a new entry.
    pub open spec fn may_store(decoded: Result<DecodedImage, PipelineError>) -> bool {
        decoded matches Ok(image) && image@.height % 8 == 0
    }

    /// Stores the outcome of a load under `name`. Where the cache holds the
    /// name already, the entry is shared and the outcome is dropped.
    pub fn add_loaded(
        &mut self,
        name: String,
        loaded: Result<(usize, usize, usize, AlignedBytes), PipelineError>,
    ) -> (result: Result<Handle, PipelineError>)
        requires
            old(self).wf(),
            old(self).can_share(name@),
            loaded is Ok ==> old(self).can_store(name@),
            parts_outcome(loaded) matches Ok(texture) ==> texture.wf() && texture.tiled_shape(),
        ensures
            final(self).wf(),
            if old(self).entries().contains_key(name@) {
                result matches Ok(handle) && old(self).shared(name@, *final(self), handle@)
            } else {
                old(self).stored(name@, parts_outcome(loaded), *final(self), result)
            },
    {
        if let Some(handle) = self.get(name.as_str()) {
            return Ok(handle);
        }
        match loaded {
            Ok((width, height, pitch, pixels)) => {
                let generation = self.next_generation;
                let entry = AssetEntry {
                    handle: TextureHandle::new(width, height, pitch, pixels),
                    strong: 1,
                    weak: 0,
                    generation,
                };
                let handle = Handle { name: name.clone(), generation };
                map_insert(&mut self.texture_map, name, entry);
                self.next_generation = generation + 1;
                Ok(handle)
            },
            Err(e) => Err(e),
        }
    }

    /// Adds an asset from what reading and decoding its file gave. Where
    /// the cache holds the asset's name already, the entry is shared and
    /// `decoded` is dropped.
    pub fn add_decoded<A: Asset>(
        &mut self,
        asset: &A,
        decoded: Result<DecodedImage, PipelineError>,
    ) -> (result: Result<Handle, PipelineError>)
        requires
            old(self).wf(),
            old(self).can_share(asset.cache_name()),
            Self::may_store(decoded) ==> old(self).can_store(asset.cache_name()),
        ensures
            final(self).wf(),
            if old(self).entries().contains_key(asset.cache_name()) {
                result matches Ok(handle) && old(self).shared(
                    asset.cache_name(),
                    *final(self),
                    handle@,
                )
            } else {
                old(self).decoded_stored(*asset, decoded, *final(self), result)
            },
    {
        let name = asset.name();
        if let Some(handle) = self.get(name.as_str()) {
            return Ok(handle);
        }
        match decoded {
            Ok(image) => {
                let loaded = asset.load(&image);
                proof {
                    if loaded is Ok {
                        lemma_tiled_texture_is_tileable(image@);
                    }
                }
                self.add_loaded(name, loaded)
            },
            Err(e) => Err(e),
        }
    }

    /// Adds an asset to the cache and returns a strong handle to its entry.
    ///
    /// Where the cache holds the asset's name, the entry is shared: `read`
    /// is not called, whatever file the asset names. Otherwise `read` is
    /// called once, with the asset's path, to read the file and decode it.
    /// The image that it gives is padded and tiled, and the texture becomes
    /// a new entry with one strong handle out. An error of `read` or of the
    /// load is returned, and the cache stays as it was.
    ///
    /// A shared entry must be able to count one more handle, and a new
    /// entry needs a generation; a `read` that is known to fail needs
    /// neither. `has_room` tests both at once.
    pub fn add<A: Asset, F: FnOnce(String) -> Result<DecodedImage, PipelineError>>(
        &mut self,
        asset: A,
        read: F,
    ) -> (result: Result<Handle, PipelineError>)
        requires
            old(self).wf(),
            old(self).can_share(asset.cache_name()),
            !old(self).entries().contains_key(asset.cache_name()) ==> forall|path: String|
                path@ == asset.source_path() ==> call_requires(read, (path,)),
            forall|path: String, decoded: Result<DecodedImage, PipelineError>|
                path@ == asset.source_path() && #[trigger] call_ensures(read, (path,), decoded)
                    && Self::may_store(decoded) ==> old(self).can_store(asset.cache_name()),
        ensures
            final(self).wf(),
            if old(self).entries().contains_key(asset.cache_name()) {
                result matches Ok(handle) && old(self).shared(
                    asset.cache_name(),
                    *final(self),
                    handle@,
                )
            } else {
                exists|path: String, decoded: Result<DecodedImage, PipelineError>|
                    {
                        &&& path@ == asset.source_path()
                        &&& #[trigger] call_ensures(read, (path,), decoded)
                        &&& old(self).decoded_stored(asset, decoded, *final(self), result)
                    }
            },
    {
        let name = asset.name();
        if let Some(handle) = self.get(name.as_str()) {
            return Ok(handle);
        }
        let decoded = read(asset.path());
        self.add_decoded(&asset, decoded)
    }

    /// The sweep: every entry for which no handle is out leaves the cache,
    /// and every other entry stays as it is.
    pub fn drop_unused(&mut self)
        ensures
            final(self).next_generation() == old(self).next_generation(),
            final(self).entries() == old(self).swept(),
            old(self).wf() ==> final(self).wf(),
    {
        map_retain_referenced(&mut self.texture_map);
        proof {
            if old(self).wf() {
                vstd::set_lib::lemma_set_subset_finite(
                    old(self).entries().dom(),
                    self.entries().dom(),
                );
            }
        }
    }
}

impl Default for AssetServer {
    fn default() -> (server: Self)
        ensures
            server.wf(),
            server.entries() == no_entries(),
            server.next_generation() == 0,
    {
        AssetServer::new()
    }
}

/// Adding a name twice gives the same entry: where the first `add` stored
/// a texture under `name` and the second one shared the entry, both handles
/// stand for the same entry, the texture is the one that the first `add`
/// stored, and two strong handles are counted.
pub proof fn lemma_second_add_shares_entry(
    before: AssetServer,
    name: Seq<char>,
    texture: TextureView,
    first: Result<Handle, PipelineError>,
    between: AssetServer,
    second: HandleView,
    after: AssetServer,
)
    requires
        !before.entries().contains_key(name),
        before.stored(name, Ok(texture), between, first),
        between.shared(name, after, second),
    ensures
        first matches Ok(handle) && handle@ == second,
        after.holds(second),
        after.entries()[name].handle == between.entries()[name].handle,
        after.entries()[name].handle@ == texture,
        after.counts(name) == Some((2usize, 0usize)),
        after.entries().dom() == between.entries().dom(),
        after.entries().len() == between.entries().len(),
{
    assert(between.entries().contains_key(name));
    assert(after.entries().dom() =~= between.entries().dom());
}

/// The life of an entry: a texture that was just added counts one strong
/// handle and no weak one; when that handle has been given back, the next
/// sweep takes the entry out, and the cache no longer holds the name.
pub proof fn lemma_released_entry_is_swept(
    before: AssetServer,
    name: Seq<char>,
    texture: TextureView,
    handle: Handle,
    added: AssetServer,
    released: AssetServer,
)
    requires
        !before.entries().contains_key(name),
        before.stored(name, Ok(texture), added, Ok(handle)),
        added.recounted(name, added.entries()[name].strong - 1, 0, released),
    ensures
        added.holds(handle@),
        added.counts(name) == Some((1usize, 0usize)),
        released.counts(name) == Some((0usize, 0usize)),
        !released.swept().contains_key(name),
        released.swept() == before.swept(),
{
    assert(added.entries().contains_key(name));
    assert(released.entries().contains_key(name));
    assert(released.swept() =~= before.swept());
}

/// A failed add makes no entry: whatever stage fails, the reading of the
/// file, its decoding or the making of the texture, the cache holds
/// afterwards what it held before, and is as large as it was. An error of
/// the reading or the decoding is returned as it came.
pub proof fn lemma_failed_add_changes_nothing<A: Asset>(
    before: AssetServer,
    asset: A,
    decoded: Result<DecodedImage, PipelineError>,
    after: AssetServer,
    result: Result<Handle, PipelineError>,
)
    requires
        !before.entries().contains_key(asset.cache_name()),
        before.decoded_stored(asset, decoded, after, result),
        result is Err,
    ensures
        before.unchanged(after),
        after.entries().len() == before.entries().len(),
        !after.entries().contains_key(asset.cache_name()),
        decoded matches Err(e) ==> result == Err::<Handle, PipelineError>(e),
{
}

/// What the cache holds after a miss is the tiled form of the image: the
/// texture of the new entry is the image's padded rows cut into tiles, and
/// untiling its bytes gives the padded rows back.
pub proof fn lemma_cached_texture_is_tiled<A: Asset>(
    before: AssetServer,
    asset: A,
    image: DecodedImage,
    after: AssetServer,
    result: Result<Handle, PipelineError>,
)
    requires
        !before.entries().contains_key(asset.cache_name()),
        before.decoded_stored(asset, Ok(image), after, result),
        result is Ok,
    ensures
        after.entries().contains_key(asset.cache_name()),
        after.entries()[asset.cache_name()].handle@ == tiled_texture(image@),
        untiled(
            after.entries()[asset.cache_name()].handle@.bytes,
            padded_width(image@.width as int) * 4,
        ) == padded(image@.pixels, image@.width as int, image@.height as int),
{
    let pitch = padded_width(image@.width as int);
    let rows = padded(image@.pixels, image@.width as int, image@.height as int);
    assert(after.entries().contains_key(asset.cache_name()));
    lemma_tiled_texture_is_tileable(image@);
    assert(pitch * 4 * image@.height >= 0) by (nonlinear_arith)
        requires
            pitch >= 0,
            image@.height >= 0,
    ;
    lemma_tiling_round_trip(rows, pitch * 4, image@.height as int);
}

/// A texture that is stored under a new name makes the cache larger by one
/// entry, and changes no other entry.
pub proof fn lemma_stored_entry_is_one_more(
    before: AssetServer,
    name: Seq<char>,
    texture: TextureView,
    after: AssetServer,
    result: Result<Handle, PipelineError>,
)
    requires
        before.wf(),
        !before.entries().contains_key(name),
        before.stored(name, Ok(texture), after, result),
    ensures
        after.entries().len() == before.entries().len() + 1,
        forall|other: Seq<char>|
            other != name ==> (after.entries().contains_key(other)
                <==> before.entries().contains_key(other)),
        forall|other: Seq<char>| #[trigger]
            before.entries().contains_key(other) ==> after.entries()[other]
                == before.entries()[other],
{
    assert(after.entries().dom() =~= before.entries().dom().insert(name));
}

/// Only the sweep takes entries out: a cache that comes from another by
/// counting handles anew, by sharing an entry or by storing a texture holds
/// every name that the other held, with the same texture.
pub proof fn lemma_only_the_sweep_removes(
    before: AssetServer,
    after: AssetServer,
    name: Seq<char>,
    strong: int,
    weak: int,
    handle: HandleView,
    loaded: Result<TextureView, PipelineError>,
    result: Result<Handle, PipelineError>,
)
    requires
        ({
            ||| before.unchanged(after)
            ||| before.entries().contains_key(name) && before.recounted(name, strong, weak, after)
            ||| before.entries().contains_key(name) && before.shared(name, after, handle)
            ||| !before.entries().contains_key(name) && before.stored(name, loaded, after, result)
        }),
    ensures
        forall|held: Seq<char>| #[trigger]
            before.entries().contains_key(held) ==> after.entries().contains_key(held)
                && after.entries()[held].handle == before.entries()[held].handle
                && after.entries()[held].generation == before.entries()[held].generation,
{
}

/// What the sweep keeps and what it takes: an entry stays if and only if a
/// strong or a weak handle to it is out, and an entry that stays is not
/// changed.
pub proof fn lemma_sweep_keeps_what_is_referenced(server: AssetServer, name: Seq<char>)
    ensures
        server.swept().contains_key(name) <==> server.entries().contains_key(name)
            && server.entries()[name].referenced(),
        server.swept().contains_key(name) ==> server.swept()[name] == server.entries()[name],
{
}

/// A handle does not come to stand for a later entry of the same name:
/// once its entry has left the cache, no texture that is stored afterwards
/// is held by the handle, so that an upgrade of it fails.
pub proof fn lemma_stale_handle_stays_stale(
    before: AssetServer,
    handle: HandleView,
    name: Seq<char>,
    texture: TextureView,
    after: AssetServer,
    result: Result<Handle, PipelineError>,
)
    requires
        handle.generation < before.next_generation(),
        !before.holds(handle),
        !before.entries().contains_key(name),
        before.stored(name, Ok(texture), after, result),
    ensures
        !after.holds(handle),
{
    assert(after.entries().contains_key(name));
    if handle.name != name {
        assert(after.entries().contains_key(handle.name) ==> before.entries().contains_key(
            handle.name,
        ));
    }
}

} // verus!
