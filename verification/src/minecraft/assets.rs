//! Asset index and asset objects: where they are stored and fetched from.
use vstd::prelude::*;
use vstd::utf8::{decode_utf8, encode_utf8, is_char_boundary};
use crate::paths::{path_join, join_path};
use crate::text::{str_concat, append_str, from_chars};

verus! {

/// Where asset objects are downloaded from.
pub const RESOURCES_BASE: &'static str = "https://resources.download.minecraft.net";

/// The asset index of a version: each asset's name with its object, in the
/// order the index is walked.
#[derive(Debug)]
pub struct AssetIndex {
    pub objects: Vec<(String, AssetObject)>,
}

impl AssetIndex {
    /// No asset name occurs twice: the index maps names to objects.
    pub open spec fn wf(&self) -> bool {
        names_distinct(self.objects@)
    }
}

/// No name occurs twice among the entries.
pub open spec fn names_distinct(objects: Seq<(String, AssetObject)>) -> bool {
    forall|i: int, j: int|
        0 <= i < j < objects.len() ==> (#[trigger] objects[i]).0@ != (#[trigger] objects[j]).0@
}

/// An asset object, named by its hash.
#[derive(Debug)]
pub struct AssetObject {
    pub hash: String,
    pub size: u64,
}

/// The characters made by the first `n` bytes of the UTF-8 encoding of `s`.
pub open spec fn byte_prefix(s: Seq<char>, n: int) -> Seq<char> {
    decode_utf8(encode_utf8(s).subrange(0, n))
}

/// The hash can be cut after its second byte (what slicing `[..2]` needs).
pub open spec fn cuttable_hash(hash: Seq<char>) -> bool {
    is_char_boundary(encode_utf8(hash), 2)
}

/// `{game_dir}/assets/indexes/{id}.json`.
pub open spec fn asset_index_path_spec(game_dir: Seq<char>, id: Seq<char>) -> Seq<char> {
    path_join(path_join(path_join(game_dir, "assets"@), "indexes"@), id + ".json"@)
}

/// `{game_dir}/assets/objects/{first two bytes of hash}/{hash}`.
pub open spec fn asset_object_path_spec(game_dir: Seq<char>, hash: Seq<char>) -> Seq<char> {
    path_join(
        path_join(path_join(path_join(game_dir, "assets"@), "objects"@), byte_prefix(hash, 2)),
        hash,
    )
}

/// `{RESOURCES_BASE}/{first two bytes of hash}/{hash}`.
pub open spec fn asset_object_url_spec(hash: Seq<char>) -> Seq<char> {
    RESOURCES_BASE@ + "/"@ + byte_prefix(hash, 2) + "/"@ + hash
}

/// Where the asset index with this id is stored.
pub fn asset_index_path(game_dir: &str, asset_index_id: &str) -> (r: String)
    ensures
        r@ == asset_index_path_spec(game_dir@, asset_index_id@),
{
    let assets = join_path(game_dir, "assets");
    let indexes = join_path(assets.as_str(), "indexes");
    let file = str_concat(asset_index_id, ".json");
    join_path(indexes.as_str(), file.as_str())
}

/// The first two bytes of a hash, which name its directory.
pub fn hash_prefix(hash: &str) -> (r: String)
    requires
        cuttable_hash(hash@),
    ensures
        r@ == byte_prefix(hash@, 2),
{
    let (prefix, _) = hash.split_at(2);
    proof {
        vstd::utf8::encode_utf8_decode_utf8(prefix@);
    }
    String::from_str(prefix)
}

/// Where an asset object is stored.
pub fn asset_object_path(game_dir: &str, hash: &str) -> (r: String)
    requires
        cuttable_hash(hash@),
    ensures
        r@ == asset_object_path_spec(game_dir@, hash@),
{
    let prefix = hash_prefix(hash);
    let assets = join_path(game_dir, "assets");
    let objects = join_path(assets.as_str(), "objects");
    let dir = join_path(objects.as_str(), prefix.as_str());
    join_path(dir.as_str(), hash)
}

/// Where an asset object is downloaded from.
pub fn asset_object_url(hash: &str) -> (r: String)
    requires
        cuttable_hash(hash@),
    ensures
        r@ == asset_object_url_spec(hash@),
{
    let prefix = hash_prefix(hash);
    let mut v = crate::text::to_chars(RESOURCES_BASE);
    append_str(&mut v, "/");
    append_str(&mut v, prefix.as_str());
    append_str(&mut v, "/");
    append_str(&mut v, hash);
    from_chars(&v)
}

/// An asset object to have on disk: where it goes and where it comes from.
#[derive(Debug)]
pub struct AssetDownload {
    pub path: String,
    pub url: String,
}

/// Every hash of the index can be cut after its second byte.
pub open spec fn index_cuttable(objects: Seq<(String, AssetObject)>) -> bool {
    forall|i: int| 0 <= i < objects.len() ==> cuttable_hash(#[trigger] objects[i].1.hash@)
}

/// The location and source of every object of the index, in index order.
pub fn asset_downloads(game_dir: &str, index: &AssetIndex) -> (r: Vec<AssetDownload>)
    requires
        index.wf(),
        index_cuttable(index.objects@),
    ensures
        r@.len() == index.objects@.len(),
        forall|i: int|
            0 <= i < r@.len() ==> {
                &&& (#[trigger] r@[i]).path@ == asset_object_path_spec(
                    game_dir@,
                    index.objects@[i].1.hash@,
                )
                &&& r@[i].url@ == asset_object_url_spec(index.objects@[i].1.hash@)
            },
{
    let n = index.objects.len();
    let mut out: Vec<AssetDownload> = Vec::new();
    let mut i: usize = 0;
    while i < n
        invariant
            n == index.objects@.len(),
            index_cuttable(index.objects@),
            i <= n,
            out@.len() == i,
            forall|k: int|
                0 <= k < i ==> {
                    &&& (#[trigger] out@[k]).path@ == asset_object_path_spec(
                        game_dir@,
                        index.objects@[k].1.hash@,
                    )
                    &&& out@[k].url@ == asset_object_url_spec(index.objects@[k].1.hash@)
                },
        decreases n - i,
    {
        let hash = index.objects[i].1.hash.as_str();
        assert(cuttable_hash(index.objects@[i as int].1.hash@));
        let path = asset_object_path(game_dir, hash);
        let url = asset_object_url(hash);
        out.push(AssetDownload { path, url });
        i = i + 1;
    }
    out
}

} // verus!
