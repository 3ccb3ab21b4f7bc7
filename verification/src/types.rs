//! The records of the launcher protocol.
//!
//! * the launcher index: the entry point of one game on one server;
//! * the patch index: one per source version, it lists the groups of patches that lead to the
//!   target version, and full files beside them.

use vstd::prelude::*;

verus! {

/// A byte range of a file on the server, both ends included; `md5` may be empty.
#[derive(Debug)]
pub struct ChunkInfo {
    pub start: u64,
    pub end: u64,
    pub md5: String,
}

/// The model of [`ChunkInfo`].
#[verifier::ext_equal]
pub struct ChunkInfoView {
    pub start: u64,
    pub end: u64,
    pub md5: Seq<char>,
}

impl DeepView for ChunkInfo {
    type V = ChunkInfoView;

    open spec fn deep_view(&self) -> ChunkInfoView {
        ChunkInfoView {
            start: self.start,
            end: self.end,
            md5: self.md5@,
        }
    }
}

impl Clone for ChunkInfo {
    fn clone(&self) -> (r: Self)
        ensures
            r.deep_view() == self.deep_view(),
            r.start == self.start,
            r.end == self.end,
            r.md5@ == self.md5@,
    {
        let r = ChunkInfo {
            start: self.start,
            end: self.end,
            md5: self.md5.clone(),
        };
        r
    }
}

/// A full file of a manifest. Entries whose `dest` ends in `.krpdiff` are patch payloads.
#[derive(Debug)]
pub struct ResourceItem {
    pub dest: String,
    pub md5: String,
    pub size: u64,
    pub from_folder: Option<String>,
    pub chunk_infos: Vec<ChunkInfo>,
}

/// The model of [`ResourceItem`].
#[verifier::ext_equal]
pub struct ResourceItemView {
    pub dest: Seq<char>,
    pub md5: Seq<char>,
    pub size: u64,
    pub from_folder: Option<Seq<char>>,
    pub chunk_infos: Seq<ChunkInfoView>,
}

impl DeepView for ResourceItem {
    type V = ResourceItemView;

    open spec fn deep_view(&self) -> ResourceItemView {
        ResourceItemView {
            dest: self.dest@,
            md5: self.md5@,
            size: self.size,
            from_folder: self.from_folder.deep_view(),
            chunk_infos: self.chunk_infos.deep_view(),
        }
    }
}

impl Clone for ResourceItem {
    fn clone(&self) -> (r: Self)
        ensures
            r.deep_view() == self.deep_view(),
            r.dest@ == self.dest@,
            r.md5@ == self.md5@,
            r.size == self.size,
            r.from_folder.deep_view() == self.from_folder.deep_view(),
            r.chunk_infos.deep_view() == self.chunk_infos.deep_view(),
    {
        let r = ResourceItem {
            dest: self.dest.clone(),
            md5: self.md5.clone(),
            size: self.size,
            from_folder: self.from_folder.clone(),
            chunk_infos: self.chunk_infos.clone(),
        };
        assert(r.from_folder.deep_view() =~= self.from_folder.deep_view());
        assert(r.chunk_infos.deep_view() =~= self.chunk_infos.deep_view());
        r
    }
}

/// A file that a patch group reads or produces.
#[derive(Debug)]
pub struct FileRef {
    pub dest: String,
    pub md5: String,
    pub size: u64,
    pub chunk_infos: Vec<ChunkInfo>,
}

/// The model of [`FileRef`].
#[verifier::ext_equal]
pub struct FileRefView {
    pub dest: Seq<char>,
    pub md5: Seq<char>,
    pub size: u64,
    pub chunk_infos: Seq<ChunkInfoView>,
}

impl DeepView for FileRef {
    type V = FileRefView;

    open spec fn deep_view(&self) -> FileRefView {
        FileRefView {
            dest: self.dest@,
            md5: self.md5@,
            size: self.size,
            chunk_infos: self.chunk_infos.deep_view(),
        }
    }
}

impl Clone for FileRef {
    fn clone(&self) -> (r: Self)
        ensures
            r.deep_view() == self.deep_view(),
            r.dest@ == self.dest@,
            r.md5@ == self.md5@,
            r.size == self.size,
            r.chunk_infos.deep_view() == self.chunk_infos.deep_view(),
    {
        let r = FileRef {
            dest: self.dest.clone(),
            md5: self.md5.clone(),
            size: self.size,
            chunk_infos: self.chunk_infos.clone(),
        };
        assert(r.chunk_infos.deep_view() =~= self.chunk_infos.deep_view());
        r
    }
}

/// One patch group: the old files it reads and the new files it produces.
#[derive(Debug)]
pub struct GroupInfo {
    /// File name of the patch.
    pub dest: String,
    pub src_files: Vec<FileRef>,
    pub dst_files: Vec<FileRef>,
}

/// The model of [`GroupInfo`].
#[verifier::ext_equal]
pub struct GroupInfoView {
    pub dest: Seq<char>,
    pub src_files: Seq<FileRefView>,
    pub dst_files: Seq<FileRefView>,
}

impl DeepView for GroupInfo {
    type V = GroupInfoView;

    open spec fn deep_view(&self) -> GroupInfoView {
        GroupInfoView {
            dest: self.dest@,
            src_files: self.src_files.deep_view(),
            dst_files: self.dst_files.deep_view(),
        }
    }
}

impl Clone for GroupInfo {
    fn clone(&self) -> (r: Self)
        ensures
            r.deep_view() == self.deep_view(),
            r.dest@ == self.dest@,
            r.src_files.deep_view() == self.src_files.deep_view(),
            r.dst_files.deep_view() == self.dst_files.deep_view(),
    {
        let r = GroupInfo {
            dest: self.dest.clone(),
            src_files: self.src_files.clone(),
            dst_files: self.dst_files.clone(),
        };
        assert(r.src_files.deep_view() =~= self.src_files.deep_view());
        assert(r.dst_files.deep_view() =~= self.dst_files.deep_view());
        r
    }
}

/// The incremental update from one source version.
#[derive(Debug)]
pub struct PatchConfig {
    pub version: String,
    /// Path of the patch index on the server.
    pub index_file: String,
    /// Path under which the patches lie.
    pub base_url: String,
    pub size: u64,
}

/// The model of [`PatchConfig`].
#[verifier::ext_equal]
pub struct PatchConfigView {
    pub version: Seq<char>,
    pub index_file: Seq<char>,
    pub base_url: Seq<char>,
    pub size: u64,
}

impl DeepView for PatchConfig {
    type V = PatchConfigView;

    open spec fn deep_view(&self) -> PatchConfigView {
        PatchConfigView {
            version: self.version@,
            index_file: self.index_file@,
            base_url: self.base_url@,
            size: self.size,
        }
    }
}

impl Clone for PatchConfig {
    fn clone(&self) -> (r: Self)
        ensures
            r.deep_view() == self.deep_view(),
            r.version@ == self.version@,
            r.index_file@ == self.index_file@,
            r.base_url@ == self.base_url@,
            r.size == self.size,
    {
        let r = PatchConfig {
            version: self.version.clone(),
            index_file: self.index_file.clone(),
            base_url: self.base_url.clone(),
            size: self.size,
        };
        r
    }
}

/// The manifest of one update, or of a whole client.
#[derive(Debug)]
pub struct PatchIndex {
    pub resource: Vec<ResourceItem>,
    pub delete_files: Vec<String>,
    pub group_infos: Vec<GroupInfo>,
    pub apply_types: Vec<String>,
}

/// The model of [`PatchIndex`].
#[verifier::ext_equal]
pub struct PatchIndexView {
    pub resource: Seq<ResourceItemView>,
    pub delete_files: Seq<Seq<char>>,
    pub group_infos: Seq<GroupInfoView>,
    pub apply_types: Seq<Seq<char>>,
}

impl DeepView for PatchIndex {
    type V = PatchIndexView;

    open spec fn deep_view(&self) -> PatchIndexView {
        PatchIndexView {
            resource: self.resource.deep_view(),
            delete_files: self.delete_files.deep_view(),
            group_infos: self.group_infos.deep_view(),
            apply_types: self.apply_types.deep_view(),
        }
    }
}

impl Clone for PatchIndex {
    fn clone(&self) -> (r: Self)
        ensures
            r.deep_view() == self.deep_view(),
            r.resource.deep_view() == self.resource.deep_view(),
            r.delete_files.deep_view() == self.delete_files.deep_view(),
            r.group_infos.deep_view() == self.group_infos.deep_view(),
            r.apply_types.deep_view() == self.apply_types.deep_view(),
    {
        let r = PatchIndex {
            resource: self.resource.clone(),
            delete_files: self.delete_files.clone(),
            group_infos: self.group_infos.clone(),
            apply_types: self.apply_types.clone(),
        };
        assert(r.resource.deep_view() =~= self.resource.deep_view());
        assert(r.delete_files.deep_view() =~= self.delete_files.deep_view());
        assert(r.group_infos.deep_view() =~= self.group_infos.deep_view());
        assert(r.apply_types.deep_view() =~= self.apply_types.deep_view());
        r
    }
}

/// A download server with its weight `p`; the weight 0 excludes it.
#[derive(Debug)]
pub struct CdnNode {
    pub p: u64,
    pub k1: u64,
    pub k2: u64,
    pub url: String,
}

/// The model of [`CdnNode`].
#[verifier::ext_equal]
pub struct CdnNodeView {
    pub p: u64,
    pub k1: u64,
    pub k2: u64,
    pub url: Seq<char>,
}

impl DeepView for CdnNode {
    type V = CdnNodeView;

    open spec fn deep_view(&self) -> CdnNodeView {
        CdnNodeView {
            p: self.p,
            k1: self.k1,
            k2: self.k2,
            url: self.url@,
        }
    }
}

impl Clone for CdnNode {
    fn clone(&self) -> (r: Self)
        ensures
            r.deep_view() == self.deep_view(),
            r.p == self.p,
            r.k1 == self.k1,
            r.k2 == self.k2,
            r.url@ == self.url@,
    {
        let r = CdnNode {
            p: self.p,
            k1: self.k1,
            k2: self.k2,
            url: self.url.clone(),
        };
        r
    }
}

/// The installed version and server, as `launcherDownloadConfig.json` holds them.
#[derive(Debug)]
pub struct LocalConfig {
    pub version: String,
    pub app_id: String,
    pub group: String,
}

/// The model of [`LocalConfig`].
#[verifier::ext_equal]
pub struct LocalConfigView {
    pub version: Seq<char>,
    pub app_id: Seq<char>,
    pub group: Seq<char>,
}

impl DeepView for LocalConfig {
    type V = LocalConfigView;

    open spec fn deep_view(&self) -> LocalConfigView {
        LocalConfigView {
            version: self.version@,
            app_id: self.app_id@,
            group: self.group@,
        }
    }
}

impl Clone for LocalConfig {
    fn clone(&self) -> (r: Self)
        ensures
            r.deep_view() == self.deep_view(),
            r.version@ == self.version@,
            r.app_id@ == self.app_id@,
            r.group@ == self.group@,
    {
        let r = LocalConfig {
            version: self.version.clone(),
            app_id: self.app_id.clone(),
            group: self.group.clone(),
        };
        r
    }
}

/// The entry point of a game on a server.
#[derive(Debug)]
pub struct LauncherIndex {
    pub default: DefaultSection,
    /// Present only while a predownload window is open.
    pub predownload: Option<PredownloadSection>,
    pub predownload_switch: Option<i64>,
}

/// The live release: its servers, its manifest and the updates that lead to it.
#[derive(Debug)]
pub struct DefaultSection {
    pub cdn_list: Vec<CdnNode>,
    pub config: LauncherConfig,
    pub resources_base_path: String,
    pub version: String,
}

/// The release that can be fetched ahead of its start.
#[derive(Debug)]
pub struct PredownloadSection {
    pub config: LauncherConfig,
}

/// Where the manifest of a release lies, and the updates that lead to the release.
#[derive(Debug)]
pub struct LauncherConfig {
    pub version: String,
    pub index_file: String,
    pub index_file_md5: String,
    pub base_url: String,
    pub size: u64,
    pub patch_type: String,
    /// One entry per source version.
    pub patch_config: Vec<PatchConfig>,
}

impl Default for LauncherConfig {
    /// Nothing is known: all texts and lists are empty, the size is 0.
    fn default() -> (r: Self)
        ensures
            r.version@.len() == 0,
            r.index_file@.len() == 0,
            r.index_file_md5@.len() == 0,
            r.base_url@.len() == 0,
            r.size == 0,
            r.patch_type@.len() == 0,
            r.patch_config@.len() == 0,
    {
        LauncherConfig {
            version: String::new(),
            index_file: String::new(),
            index_file_md5: String::new(),
            base_url: String::new(),
            size: 0,
            patch_type: String::new(),
            patch_config: Vec::new(),
        }
    }
}

}
