//! Looking things up in manifests, and judging files against them.

use vstd::hash_map::StringHashMap;
use vstd::prelude::*;

use crate::error::{Error, ErrorView};
use crate::paths;
use crate::text;
use crate::types::{
    ChunkInfo, ChunkInfoView, GroupInfo, GroupInfoView, PatchConfig, ResourceItem, ResourceItemView,
};

verus! {

/// Whether a manifest entry is a patch.
pub open spec fn is_patch(dest: Seq<char>) -> bool {
    ".krpdiff"@.is_suffix_of(text::lowered(dest))
}

/// Whether a manifest entry is a patch: its name ends in `.krpdiff`, in small or capital letters.
pub fn is_krpdiff(dest: &str) -> (r: bool)
    ensures
        r == is_patch(dest@),
{
    let low = text::to_lower(dest);
    text::ends_with(low.as_str(), ".krpdiff")
}

/// The position of the last entry for `dest`, if there is one: later entries count.
pub open spec fn entry_at(list: Seq<ResourceItemView>, dest: Seq<char>) -> Option<int>
    decreases list.len(),
{
    if list.len() == 0 {
        None
    } else if list.last().dest == dest {
        Some(list.len() - 1)
    } else {
        entry_at(list.drop_last(), dest)
    }
}

/// The last entry for `dest`, if there is one.
pub open spec fn entry_for(list: Seq<ResourceItemView>, dest: Seq<char>) -> Option<ResourceItemView> {
    match entry_at(list, dest) {
        Some(i) => Some(list[i]),
        None => None,
    }
}

/// The position of the last entry for `dest` is one of the list, and `dest` stands there.
pub proof fn lemma_entry_at(list: Seq<ResourceItemView>, dest: Seq<char>)
    ensures
        match entry_at(list, dest) {
            Some(i) => 0 <= i < list.len() && list[i].dest == dest,
            None => forall|i: int| 0 <= i < list.len() ==> (#[trigger] list[i]).dest != dest,
        },
    decreases list.len(),
{
    if list.len() > 0 && list.last().dest != dest {
        let rest = list.drop_last();
        lemma_entry_at(rest, dest);
        if entry_at(list, dest) is None {
            assert forall|i: int| 0 <= i < list.len() implies (#[trigger] list[i]).dest != dest by {
                if i < rest.len() {
                    assert(rest[i] == list[i]);
                }
            }
        }
    }
}

/// The entries of a manifest by their `dest`.
pub struct DestIndex {
    map: StringHashMap<usize>,
}

impl DestIndex {
    /// Whether this is the index of `list`.
    pub closed spec fn indexes(&self, list: Seq<ResourceItemView>) -> bool {
        forall|dest: Seq<char>|
            #![trigger self.map@.contains_key(dest)]
            match entry_at(list, dest) {
                Some(i) => self.map@.contains_key(dest) && self.map@[dest] == i,
                None => !self.map@.contains_key(dest),
            }
    }

    /// Indexes a manifest.
    pub fn new(list: &Vec<ResourceItem>) -> (r: Self)
        ensures
            r.indexes(list.deep_view()),
    {
        let mut r = DestIndex { map: StringHashMap::new() };
        let ghost all = list.deep_view();
        let mut i: usize = 0;
        while i < list.len()
            invariant
                i <= list@.len(),
                all == list.deep_view(),
                r.indexes(all.take(i as int)),
            decreases list@.len() - i,
        {
            let ghost old_map = r.map@;
            r.map.insert(list[i].dest.clone(), i);
            proof {
                assert(all.take(i + 1).drop_last() =~= all.take(i as int));
                assert(all.take(i + 1).last() == list@[i as int].deep_view());
                assert forall|dest: Seq<char>|
                    #![trigger r.map@.contains_key(dest)]
                    match entry_at(all.take(i + 1), dest) {
                        Some(k) => r.map@.contains_key(dest) && r.map@[dest] == k,
                        None => !r.map@.contains_key(dest),
                    } by {
                    assert(old_map.contains_key(dest) || !old_map.contains_key(dest));
                }
            }
            i = i + 1;
        }
        assert(all.take(all.len() as int) =~= all);
        r
    }

    /// The position of the last entry for `dest`.
    pub(crate) fn position(&self, Ghost(list): Ghost<Seq<ResourceItemView>>, dest: &str) -> (r: Option<usize>)
        requires
            self.indexes(list),
        ensures
            match r {
                Some(i) => entry_at(list, dest@) == Some(i as int),
                None => entry_at(list, dest@) is None,
            },
    {
        match self.map.get(dest) {
            Some(i) => Some(*i),
            None => None,
        }
    }

    /// The last entry for `dest`.
    pub fn get<'a>(&self, list: &'a Vec<ResourceItem>, dest: &str) -> (r: Option<&'a ResourceItem>)
        requires
            self.indexes(list.deep_view()),
        ensures
            match r {
                Some(item) => entry_for(list.deep_view(), dest@) == Some(item.deep_view()),
                None => entry_for(list.deep_view(), dest@) is None,
            },
    {
        proof {
            lemma_entry_at(list.deep_view(), dest@);
        }
        match self.map.get(dest) {
            Some(i) => Some(&list[*i]),
            None => None,
        }
    }
}

/// The position of the first update from `version`, if there is one.
pub open spec fn update_from(configs: Seq<PatchConfig>, version: Seq<char>, i: int) -> bool {
    &&& 0 <= i < configs.len()
    &&& configs[i].version@ == version
    &&& forall|j: int| 0 <= j < i ==> (#[trigger] configs[j]).version@ != version
}

/// The failure that tells that no update leads away from the installed version.
pub open spec fn no_update() -> ErrorView {
    ErrorView::MissingField("patchConfig entry for local version"@)
}

/// The update that starts from `version`.
pub fn find_patch_config<'a>(configs: &'a Vec<PatchConfig>, version: &str) -> (r: Result<
    &'a PatchConfig,
    Error,
>)
    ensures
        match r {
            Ok(c) => exists|i: int|
                #[trigger] update_from(configs@, version@, i) && *c == configs@[i],
            Err(e) => e.deep_view() == no_update() && forall|i: int|
                0 <= i < configs@.len() ==> (#[trigger] configs@[i]).version@ != version@,
        },
        r is Err ==> r->Err_0.deep_view() == ErrorView::MissingField(
            "patchConfig entry for local version"@,
        ),
        r is Ok ==> exists|i: int|
            0 <= i < configs@.len() && #[trigger] configs@[i] == *r->Ok_0 && configs@[i].version@
                == version@ && forall|j: int|
                0 <= j < i ==> (#[trigger] configs@[j]).version@ != version@,
{
    let mut i: usize = 0;
    while i < configs.len()
        invariant
            i <= configs@.len(),
            forall|j: int| 0 <= j < i ==> (#[trigger] configs@[j]).version@ != version@,
        decreases configs@.len() - i,
    {
        if text::same_text(configs[i].version.as_str(), version) {
            assert(update_from(configs@, version@, i as int));
            return Ok(&configs[i]);
        }
        i = i + 1;
    }
    Err(Error::MissingField("patchConfig entry for local version"))
}

/// What was found of a file: its size, where it exists, and its digest, where it was hashed.
#[derive(Debug)]
pub struct FileProbe {
    pub size: Option<u64>,
    pub md5: Option<String>,
}

/// Whether a file is the one that a manifest describes; an empty digest matches any.
pub open spec fn is_intact(
    found_size: Option<u64>,
    found_md5: Option<Seq<char>>,
    size: u64,
    md5: Seq<char>,
) -> bool {
    found_size == Some(size) && (md5.len() == 0 || found_md5 == Some(md5))
}

/// Whether a file must be hashed to tell whether it is the one that a manifest describes.
pub fn match_needs_hash(found_size: Option<u64>, size: u64, md5: &str) -> (r: bool)
    ensures
        r == (found_size == Some(size) && md5@.len() > 0),
{
    match found_size {
        Some(n) => n == size && !md5.is_empty(),
        None => false,
    }
}

/// Whether a file is the one that a manifest describes.
pub fn file_matches(found: &FileProbe, size: u64, md5: &str) -> (r: bool)
    ensures
        r == is_intact(found.size, found.md5.deep_view(), size, md5@),
        r <==> found.size is Some && found.size->0 == size && (md5@.len() == 0 || (found.md5 is Some
            && found.md5->0@ == md5@)),
{
    match found.size {
        Some(n) => n == size && (md5.is_empty() || match &found.md5 {
            Some(m) => text::same_text(m.as_str(), md5),
            None => false,
        }),
        None => false,
    }
}

/// Whether all files that a group produces exist at their size.
pub open spec fn at_target(group: GroupInfoView, sizes: Seq<Option<u64>>) -> bool {
    &&& group.dst_files.len() > 0
    &&& sizes.len() == group.dst_files.len()
    &&& forall|i: int|
        0 <= i < group.dst_files.len() ==> #[trigger] sizes[i] == Some(group.dst_files[i].size)
}

/// Whether a group was applied already: all files that it produces exist at their size.
pub fn group_already_target(group: &GroupInfo, sizes: &Vec<Option<u64>>) -> (r: bool)
    ensures
        r == at_target(group.deep_view(), sizes@),
        r <==> {
            &&& group.dst_files@.len() > 0
            &&& sizes@.len() == group.dst_files@.len()
            &&& forall|i: int|
                0 <= i < sizes@.len() ==> (#[trigger] sizes@[i]) is Some && sizes@[i]->0
                    == group.dst_files@[i].size
        },
{
    let n: usize = group.dst_files.len();
    if n == 0 || sizes.len() != n {
        return false;
    }
    let mut i: usize = 0;
    while i < n
        invariant
            n == group.dst_files@.len(),
            sizes@.len() == n,
            i <= n,
            forall|j: int|
                0 <= j < i ==> #[trigger] sizes@[j] == Some(group.deep_view().dst_files[j].size),
        decreases n - i,
    {
        let same = match sizes[i] {
            Some(s) => s == group.dst_files[i].size,
            None => false,
        };
        if !same {
            assert(sizes@[i as int] != Some(group.deep_view().dst_files[i as int].size));
            assert(!(sizes@[i as int] is Some && sizes@[i as int]->0
                == group.dst_files@[i as int].size));
            return false;
        }
        i = i + 1;
    }
    true
}

/// The paths of the files that a group produces, inside the game folder.
pub fn target_paths(game_folder: &str, group: &GroupInfo) -> (r: Vec<String>)
    ensures
        r@.len() == group.dst_files@.len(),
        forall|i: int|
            0 <= i < r@.len() ==> (#[trigger] r@[i])@ == paths::inside(
                game_folder@,
                group.deep_view().dst_files[i].dest,
            ),
{
    let mut r: Vec<String> = Vec::new();
    let mut i: usize = 0;
    while i < group.dst_files.len()
        invariant
            i <= group.dst_files@.len(),
            r@.len() == i,
            forall|j: int|
                0 <= j < i ==> (#[trigger] r@[j])@ == paths::inside(
                    game_folder@,
                    group.deep_view().dst_files[j].dest,
                ),
        decreases group.dst_files@.len() - i,
    {
        r.push(paths::join_inside(game_folder, group.dst_files[i].dest.as_str()));
        i = i + 1;
    }
    r
}

/// One file to fetch: from where, through which temporary file, to where, and what it must be.
#[derive(Debug)]
pub struct FetchJob {
    pub name: String,
    pub url: String,
    pub tmp: String,
    pub target: String,
    /// The size that the file must have where it is fetched in one stream; in ranges it must be as
    /// long as they say.
    pub size: Option<u64>,
    pub md5: Option<String>,
    /// The ranges to fetch the file in; none for one stream.
    pub chunks: Vec<ChunkInfo>,
}

/// The model of [`FetchJob`].
#[verifier::ext_equal]
pub struct FetchJobView {
    pub name: Seq<char>,
    pub url: Seq<char>,
    pub tmp: Seq<char>,
    pub target: Seq<char>,
    pub size: Option<u64>,
    pub md5: Option<Seq<char>>,
    pub chunks: Seq<ChunkInfoView>,
}

impl Clone for FetchJob {
    fn clone(&self) -> (r: Self)
        ensures
            r.deep_view() == self.deep_view(),
            r.name@ == self.name@,
            r.url@ == self.url@,
            r.tmp@ == self.tmp@,
            r.target@ == self.target@,
            r.size == self.size,
            r.md5.deep_view() == self.md5.deep_view(),
            r.chunks.deep_view() == self.chunks.deep_view(),
    {
        let r = FetchJob {
            name: self.name.clone(),
            url: self.url.clone(),
            tmp: self.tmp.clone(),
            target: self.target.clone(),
            size: self.size,
            md5: self.md5.clone(),
            chunks: self.chunks.clone(),
        };
        assert(r.deep_view() =~= self.deep_view());
        r
    }
}

impl DeepView for FetchJob {
    type V = FetchJobView;

    open spec fn deep_view(&self) -> FetchJobView {
        FetchJobView {
            name: self.name@,
            url: self.url@,
            tmp: self.tmp@,
            target: self.target@,
            size: self.size,
            md5: self.md5.deep_view(),
            chunks: self.chunks.deep_view(),
        }
    }
}

}
