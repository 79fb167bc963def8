//! The catalog model: the rows the store holds and the operations on them.
//!
//! `Catalog` gives the relational semantics of the persisted catalog: what
//! ingestion writes, what a query returns, and what the keyword and field
//! updates change. Each operation's contract pins the resulting rows exactly,
//! so the laws of the library are proved against this model.

use vstd::prelude::*;

verus! {

use vstd::seq_lib::group_seq_properties;

broadcast use {
    group_seq_properties,
    Seq::lemma_filter_push,
    Seq::lemma_filter_len_push,
    Seq::lemma_push_map_commute,
    Seq::lemma_map_take_succ,
};

/// Restrictions applied by the query engine.
///
/// `rating` keeps only images rated at least that high. `flag` equal to
/// `"unpicked"` and `color_label` equal to `"none"` are sentinels meaning
/// "no restriction on this field"; any other value demands an exact match.
pub struct Filter {
    pub rating: u32,
    pub flag: String,
    pub color_label: String,
}

impl Filter {
    /// A filter that restricts nothing: every cataloged image matches.
    pub fn unrestricted() -> (f: Filter)
        ensures
            f.rating == 0,
            f.flag@ == "unpicked"@,
            f.color_label@ == "none"@,
    {
        Filter {
            rating: 0,
            flag: String::from_str("unpicked"),
            color_label: String::from_str("none"),
        }
    }
}

/// Filesystem attributes of one scanned file: one catalog row per file.
pub struct LibraryFile {
    pub original_file_name: String,
    pub base_name: String,
    pub extension: String,
    pub file_created_time: String,
    pub file_modified_time: String,
    pub path: String,
    pub parent_path: String,
}

/// One entry of a directory listing, before the image allow-list is applied.
pub struct DirContent {
    pub name: String,
    pub path: String,
    pub parent_path: String,
    pub extension: String,
    pub is_directory: bool,
}

/// The mathematical shape of a library file's attributes.
#[verifier::ext_equal]
pub ghost struct LibraryFileV {
    pub original_file_name: Seq<char>,
    pub base_name: Seq<char>,
    pub extension: Seq<char>,
    pub file_created_time: Seq<char>,
    pub file_modified_time: Seq<char>,
    pub path: Seq<char>,
    pub parent_path: Seq<char>,
}

impl View for LibraryFile {
    type V = LibraryFileV;

    open spec fn view(&self) -> LibraryFileV {
        LibraryFileV {
            original_file_name: self.original_file_name@,
            base_name: self.base_name@,
            extension: self.extension@,
            file_created_time: self.file_created_time@,
            file_modified_time: self.file_modified_time@,
            path: self.path@,
            parent_path: self.parent_path@,
        }
    }
}

impl LibraryFile {
    /// A copy with the same attributes.
    pub fn duplicate(&self) -> (r: LibraryFile)
        ensures
            r@ == self@,
    {
        LibraryFile {
            original_file_name: self.original_file_name.clone(),
            base_name: self.base_name.clone(),
            extension: self.extension.clone(),
            file_created_time: self.file_created_time.clone(),
            file_modified_time: self.file_modified_time.clone(),
            path: self.path.clone(),
            parent_path: self.parent_path.clone(),
        }
    }
}

/// One persisted library-file row: a generated id and the file's attributes.
pub struct LibraryFileRow {
    pub id: i64,
    pub file: LibraryFile,
}

/// One persisted image row: the photo's curatorial state.
pub struct ImageRow {
    pub id: i64,
    pub library_file_id: i64,
    pub rating: u32,
    pub flag: String,
    pub color_label: String,
    pub capture_time: String,
}

/// The mathematical shape of an image row.
#[verifier::ext_equal]
pub ghost struct ImageV {
    pub id: int,
    pub library_file_id: int,
    pub rating: int,
    pub flag: Seq<char>,
    pub color_label: Seq<char>,
    pub capture_time: Seq<char>,
}

impl View for ImageRow {
    type V = ImageV;

    open spec fn view(&self) -> ImageV {
        ImageV {
            id: self.id as int,
            library_file_id: self.library_file_id as int,
            rating: self.rating as int,
            flag: self.flag@,
            color_label: self.color_label@,
            capture_time: self.capture_time@,
        }
    }
}

/// One sparse metadata row: the owning image and the (column, value) pairs
/// that were present.
pub struct MetaRow {
    pub image_id: i64,
    pub values: Vec<(String, String)>,
}

/// One tag row: a free-text keyword scoped to one image.
pub struct TagRow {
    pub image_id: i64,
    pub tag_name: String,
}

/// The mathematical shape of a tag row.
#[verifier::ext_equal]
pub ghost struct TagV {
    pub image_id: int,
    pub name: Seq<char>,
}

impl View for TagRow {
    type V = TagV;

    open spec fn view(&self) -> TagV {
        TagV { image_id: self.image_id as int, name: self.tag_name@ }
    }
}

/// The views of a sequence of tag rows.
pub open spec fn tags_view(s: Seq<TagRow>) -> Seq<TagV> {
    s.map_values(|t: TagRow| t@)
}

/// The views of a sequence of image rows.
pub open spec fn images_view(s: Seq<ImageRow>) -> Seq<ImageV> {
    s.map_values(|r: ImageRow| r@)
}

/// The defined flag values.
pub open spec fn spec_is_flag(f: Seq<char>) -> bool {
    f == "unpicked"@ || f == "picked"@ || f == "rejected"@
}

/// The catalog: the five relations and the next generated id of each
/// id-bearing table.
pub struct Catalog {
    pub library_files: Vec<LibraryFileRow>,
    pub images: Vec<ImageRow>,
    pub exifs: Vec<MetaRow>,
    pub iptcs: Vec<MetaRow>,
    pub tags: Vec<TagRow>,
    pub next_library_file_id: i64,
    pub next_image_id: i64,
}

impl Catalog {
    /// Well-formedness: generated ids are positive, below the next id of
    /// their table and distinct; every image references an existing library
    /// file; every flag holds a defined value.
    pub open spec fn wf(self) -> bool {
        &&& 0 < self.next_library_file_id
        &&& 0 < self.next_image_id
        &&& lf_seq_ids_distinct(self.library_files@)
        &&& forall|i: int, j: int|
            0 <= i < j < self.images@.len() ==> (#[trigger] self.images@[i]).id != (
            #[trigger] self.images@[j]).id
        &&& forall|i: int|
            0 <= i < self.library_files@.len() ==> 0 < (#[trigger] self.library_files@[i]).id
                < self.next_library_file_id
        &&& forall|i: int|
            0 <= i < self.images@.len() ==> 0 < (#[trigger] self.images@[i]).id
                < self.next_image_id
        &&& forall|i: int|
            0 <= i < self.images@.len() ==> self.spec_has_library_file(
                (#[trigger] self.images@[i]).library_file_id,
            )
        &&& forall|i: int|
            0 <= i < self.images@.len() ==> spec_is_flag((#[trigger] self.images@[i]).flag@)
    }

    /// Whether some library-file row carries the given id.
    pub open spec fn spec_has_library_file(self, id: i64) -> bool {
        exists|j: int|
            0 <= j < self.library_files@.len() && (#[trigger] self.library_files@[j]).id == id
    }

    /// An empty catalog.
    pub fn new() -> (c: Catalog)
        ensures
            c.wf(),
            c.library_files@.len() == 0,
            c.images@.len() == 0,
            c.exifs@.len() == 0,
            c.iptcs@.len() == 0,
            c.tags@.len() == 0,
    {
        Catalog {
            library_files: Vec::new(),
            images: Vec::new(),
            exifs: Vec::new(),
            iptcs: Vec::new(),
            tags: Vec::new(),
            next_library_file_id: 1,
            next_image_id: 1,
        }
    }

    /// Whether some cataloged file lies directly in the given directory.
    pub open spec fn spec_has_images_for_path(self, dir: Seq<char>) -> bool {
        exists|i: int|
            0 <= i < self.library_files@.len() && (#[trigger] self.library_files@[i]).file.parent_path@
                == dir
    }

    /// Whether the catalog holds any file of the given directory.
    pub fn has_images_for_path(&self, folder_path: &str) -> (r: bool)
        ensures
            r == self.spec_has_images_for_path(folder_path@),
    {
        let mut i: usize = 0;
        while i < self.library_files.len()
            invariant
                i <= self.library_files@.len(),
                forall|k: int|
                    0 <= k < i ==> (#[trigger] self.library_files@[k]).file.parent_path@
                        != folder_path@,
            decreases self.library_files@.len() - i,
        {
            if crate::sql::str_eq(self.library_files[i].file.parent_path.as_str(), folder_path) {
                return true;
            }
            i = i + 1;
        }
        false
    }
}

/// What one ingestion run writes, for every file in listing order: one
/// library-file row with a fresh id, one image row with default curatorial
/// state whose capture time follows the extraction outcome, one sparse exif
/// row and one sparse iptc row. Earlier rows and the tag relation are
/// untouched.
pub open spec fn ingest_post(pre: Catalog, post: Catalog, files: Seq<crate::meta::ScannedFile>) -> bool {
    let n = files.len();
    let lf0 = pre.library_files@.len();
    let im0 = pre.images@.len();
    let ex0 = pre.exifs@.len();
    let ip0 = pre.iptcs@.len();
    &&& post.library_files@.len() == lf0 + n
    &&& post.images@.len() == im0 + n
    &&& post.exifs@.len() == ex0 + n
    &&& post.iptcs@.len() == ip0 + n
    &&& post.tags@ == pre.tags@
    &&& post.next_library_file_id == pre.next_library_file_id + n
    &&& post.next_image_id == pre.next_image_id + n
    &&& forall|k: int| 0 <= k < lf0 ==> post.library_files@[k] == pre.library_files@[k]
    &&& forall|k: int| 0 <= k < im0 ==> post.images@[k] == pre.images@[k]
    &&& forall|k: int| 0 <= k < ex0 ==> post.exifs@[k] == pre.exifs@[k]
    &&& forall|k: int| 0 <= k < ip0 ==> post.iptcs@[k] == pre.iptcs@[k]
    &&& forall|k: int| 0 <= k < n ==> #[trigger] spec_ingested_row(pre, post, files, k)
}

/// The four rows that ingestion writes for the k-th file, and their contents.
pub open spec fn spec_ingested_row(
    pre: Catalog,
    post: Catalog,
    files: Seq<crate::meta::ScannedFile>,
    k: int,
) -> bool {
    let lf0 = pre.library_files@.len();
    let im0 = pre.images@.len();
    let ex0 = pre.exifs@.len();
    let ip0 = pre.iptcs@.len();
    &&& lf0 + k < post.library_files@.len()
    &&& im0 + k < post.images@.len()
    &&& ex0 + k < post.exifs@.len()
    &&& ip0 + k < post.iptcs@.len()
    &&& {
        let lf = post.library_files@[lf0 + k];
        let im = post.images@[im0 + k];
        let ex = post.exifs@[ex0 + k];
        let ip = post.iptcs@[ip0 + k];
        &&& lf.id == pre.next_library_file_id + k
        &&& lf.file@ == files[k].file@
        &&& im.id == pre.next_image_id + k
        &&& im.library_file_id == lf.id
        &&& im.rating == 0
        &&& im.flag@ == "unpicked"@
        &&& im.color_label@ == "none"@
        &&& im.capture_time@ == files[k].spec_capture_time()
        &&& ex.image_id == im.id
        &&& crate::meta::pairs_view(ex.values@) == files[k].spec_exif_values()
        &&& ip.image_id == im.id
        &&& crate::meta::pairs_view(ip.values@) == files[k].spec_iptc_values()
    }
}

/// Ingestion cannot break the catalog's well-formedness: the new rows carry
/// fresh, increasing ids and default flags, and reference each other.
pub proof fn lemma_ingest_preserves_wf(
    pre: Catalog,
    post: Catalog,
    files: Seq<crate::meta::ScannedFile>,
)
    requires
        pre.wf(),
        ingest_post(pre, post, files),
        post.next_library_file_id <= i64::MAX,
        post.next_image_id <= i64::MAX,
    ensures
        post.wf(),
{
    let n = files.len();
    let lf0 = pre.library_files@.len();
    let im0 = pre.images@.len();
    assert forall|i: int, j: int| 0 <= i < j < post.library_files@.len() implies (
    #[trigger] post.library_files@[i]).id != (#[trigger] post.library_files@[j]).id by {
        if j >= lf0 {
            assert(spec_ingested_row(pre, post, files, j - lf0));
        }
        if i >= lf0 {
            assert(spec_ingested_row(pre, post, files, i - lf0));
        }
    }
    assert forall|i: int, j: int| 0 <= i < j < post.images@.len() implies (
    #[trigger] post.images@[i]).id != (#[trigger] post.images@[j]).id by {
        if j >= im0 {
            assert(spec_ingested_row(pre, post, files, j - im0));
        }
        if i >= im0 {
            assert(spec_ingested_row(pre, post, files, i - im0));
        }
    }
    assert forall|i: int| 0 <= i < post.library_files@.len() implies 0 < (
    #[trigger] post.library_files@[i]).id < post.next_library_file_id by {
        if i >= lf0 {
            assert(spec_ingested_row(pre, post, files, i - lf0));
        }
    }
    assert forall|i: int| 0 <= i < post.images@.len() implies 0 < (
    #[trigger] post.images@[i]).id < post.next_image_id by {
        if i >= im0 {
            assert(spec_ingested_row(pre, post, files, i - im0));
        }
    }
    assert forall|i: int| 0 <= i < post.images@.len() implies post.spec_has_library_file(
        (#[trigger] post.images@[i]).library_file_id,
    ) by {
        if i < im0 {
            assert(pre.spec_has_library_file(pre.images@[i].library_file_id));
            let j = choose|j: int|
                0 <= j < pre.library_files@.len() && (#[trigger] pre.library_files@[j]).id
                    == pre.images@[i].library_file_id;
            assert(post.library_files@[j].id == post.images@[i].library_file_id);
        } else {
            assert(spec_ingested_row(pre, post, files, i - im0));
            assert(post.library_files@[lf0 + (i - im0)].id == post.images@[im0 + (i
                - im0)].library_file_id);
        }
    }
    assert forall|i: int| 0 <= i < post.images@.len() implies spec_is_flag(
        (#[trigger] post.images@[i]).flag@,
    ) by {
        if i < im0 {
            assert(spec_is_flag(pre.images@[i].flag@));
        } else {
            assert(spec_ingested_row(pre, post, files, i - im0));
        }
    }
}

impl Catalog {
    /// Ingests the scanned files of one directory, in listing order.
    ///
    /// Every file produces exactly one row in each of the four per-file
    /// relations, as `ingest_post` states; in particular a file whose
    /// metadata could not be read still produces exactly one image row, with
    /// the file's creation time as its capture time. Returns how many files
    /// were ingested.
    pub fn insert_images(&mut self, files: &Vec<crate::meta::ScannedFile>) -> (count: usize)
        requires
            old(self).wf(),
            old(self).next_library_file_id + files@.len() <= i64::MAX,
            old(self).next_image_id + files@.len() <= i64::MAX,
        ensures
            final(self).wf(),
            ingest_post(*old(self), *final(self), files@),
            count == files@.len(),
    {
        let ghost pre: Catalog = *self;
        let mut k: usize = 0;
        while k < files.len()
            invariant
                k <= files@.len(),
                pre.wf(),
                pre.next_library_file_id + files@.len() <= i64::MAX,
                pre.next_image_id + files@.len() <= i64::MAX,
                ingest_post(pre, *self, files@.take(k as int)),
            decreases files@.len() - k,
        {
            let f = &files[k];
            let ghost prev: Catalog = *self;
            let lf_id: i64 = self.next_library_file_id;
            let im_id: i64 = self.next_image_id;
            self.library_files.push(LibraryFileRow { id: lf_id, file: f.file.duplicate() });
            self.images.push(
                ImageRow {
                    id: im_id,
                    library_file_id: lf_id,
                    rating: 0,
                    flag: String::from_str("unpicked"),
                    color_label: String::from_str("none"),
                    capture_time: f.capture_time(),
                },
            );
            self.exifs.push(MetaRow { image_id: im_id, values: f.exif_values() });
            self.iptcs.push(MetaRow { image_id: im_id, values: f.iptc_values() });
            self.next_library_file_id = lf_id + 1;
            self.next_image_id = im_id + 1;
            proof {
                assert(files@.take(k + 1 as int) =~= files@.take(k as int).push(files@[k as int]));
                assert forall|k2: int| 0 <= k2 < k + 1 implies #[trigger] spec_ingested_row(
                    pre,
                    *self,
                    files@.take(k + 1 as int),
                    k2,
                ) by {
                    if k2 < k {
                        assert(spec_ingested_row(pre, prev, files@.take(k as int), k2));
                    } else {
                        assert(self.library_files@.last().file@ == files@[k as int].file@);
                        assert(self.images@.last().capture_time@ == files@[k as int].spec_capture_time());
                    }
                }
                assert(ingest_post(pre, *self, files@.take(k + 1 as int)));
            }
            k = k + 1;
        }
        proof {
            assert(files@.take(files@.len() as int) =~= files@);
            lemma_ingest_preserves_wf(pre, *self, files@);
        }
        k
    }
}

/// Why a keyword or update operation failed.
#[derive(Debug)]
pub enum CatalogError {
    /// The given path resolves to no cataloged image.
    NoSuchImage,
}

/// The distinct elements of a sequence, each at its first occurrence,
/// in order.
pub open spec fn dedup_first(s: Seq<Seq<char>>) -> Seq<Seq<char>>
    decreases s.len(),
{
    if s.len() == 0 {
        Seq::empty()
    } else {
        let rest = dedup_first(s.drop_last());
        if rest.contains(s.last()) {
            rest
        } else {
            rest.push(s.last())
        }
    }
}

/// Whether the rows hold pairwise distinct ids.
pub open spec fn lf_seq_ids_distinct(lfs: Seq<LibraryFileRow>) -> bool {
    forall|i: int, j: int|
        0 <= i < j < lfs.len() ==> (#[trigger] lfs[i]).id != (#[trigger] lfs[j]).id
}

/// Whether some row carries the given id and lies at the given path.
pub open spec fn lf_seq_path_matches(
    lfs: Seq<LibraryFileRow>,
    library_file_id: i64,
    path: Seq<char>,
) -> bool {
    exists|j: int|
        0 <= j < lfs.len() && (#[trigger] lfs[j]).id == library_file_id && lfs[j].file.path@
            == path
}

/// The tag rows left after removing every row of one image with one name.
pub open spec fn spec_tags_without(tags: Seq<TagV>, image_id: int, name: Seq<char>) -> Seq<TagV> {
    tags.filter(|t: TagV| !(t.image_id == image_id && t.name == name))
}

/// Whether `v` holds a string whose characters are `s`.
fn contains_string(v: &Vec<String>, s: &str) -> (r: bool)
    ensures
        r == v.deep_view().contains(s@),
{
    let mut i: usize = 0;
    while i < v.len()
        invariant
            i <= v@.len(),
            forall|k: int| 0 <= k < i ==> v.deep_view()[k] != s@,
        decreases v@.len() - i,
    {
        if crate::sql::str_eq(v[i].as_str(), s) {
            assert(v.deep_view()[i as int] == s@);
            return true;
        }
        i = i + 1;
    }
    false
}

impl Catalog {
    /// The name of every tag row, in row order.
    pub open spec fn spec_tag_names(self) -> Seq<Seq<char>> {
        self.tags@.map_values(|t: TagRow| t.tag_name@)
    }

    /// Every distinct keyword of the catalog, each once, ordered by its first
    /// appearance in the tag relation.
    pub fn get_keywords(&self) -> (r: Vec<String>)
        ensures
            r.deep_view() == dedup_first(self.spec_tag_names()),
    {
        let mut r: Vec<String> = Vec::new();
        let mut i: usize = 0;
        while i < self.tags.len()
            invariant
                i <= self.tags@.len(),
                r.deep_view() =~= dedup_first(self.spec_tag_names().take(i as int)),
            decreases self.tags@.len() - i,
        {
            let name = &self.tags[i].tag_name;
            let ghost prev = r.deep_view();
            proof {
                assert(self.spec_tag_names().take(i + 1 as int).drop_last() =~= self.spec_tag_names().take(i as int));
                assert(self.spec_tag_names().take(i + 1 as int).last() == name@);
            }
            if !contains_string(&r, name.as_str()) {
                r.push(name.clone());
                proof {
                    assert forall|k: int| 0 <= k < r@.len() implies r.deep_view()[k] == prev.push(
                        name@,
                    )[k] by {
                        if k < prev.len() {
                            assert(r@[k] == r@.take(r@.len() - 1)[k]);
                        }
                    }
                    assert(r.deep_view() =~= prev.push(name@));
                }
            }
            i = i + 1;
        }
        proof {
            assert(self.spec_tag_names().take(self.tags@.len() as int) =~= self.spec_tag_names());
        }
        r
    }

    /// Whether the library files hold pairwise distinct ids.
    pub open spec fn spec_lf_ids_distinct(self) -> bool {
        lf_seq_ids_distinct(self.library_files@)
    }

    /// Whether the library file with the given id lies at the given path.
    pub open spec fn spec_lf_path_matches(self, library_file_id: i64, path: Seq<char>) -> bool {
        lf_seq_path_matches(self.library_files@, library_file_id, path)
    }

    /// Whether the i-th image's file lies at the given path.
    pub open spec fn spec_image_path_matches(self, i: int, path: Seq<char>) -> bool {
        self.spec_lf_path_matches(self.images@[i].library_file_id, path)
    }

    /// The first image, in row order, whose file lies at the given path,
    /// from position `i` on.
    pub open spec fn spec_resolve_from(self, path: Seq<char>, i: int) -> Option<int>
        decreases self.images@.len() - i,
        when 0 <= i <= self.images@.len()
    {
        if i >= self.images@.len() {
            None
        } else if self.spec_image_path_matches(i, path) {
            Some(i)
        } else {
            self.spec_resolve_from(path, i + 1)
        }
    }

    /// The image a path resolves to: the first, in row order, whose file
    /// lies at the path.
    pub open spec fn spec_resolve_image(self, path: Seq<char>) -> Option<int> {
        self.spec_resolve_from(path, 0)
    }

    /// Index of a library-file row with the given id, if one exists.
    pub(crate) fn find_library_file(&self, id: i64) -> (r: Option<usize>)
        ensures
            match r {
                Some(j) => j < self.library_files@.len() && self.library_files@[j as int].id
                    == id,
                None => !self.spec_has_library_file(id),
            },
    {
        let mut j: usize = 0;
        while j < self.library_files.len()
            invariant
                j <= self.library_files@.len(),
                forall|k: int| 0 <= k < j ==> (#[trigger] self.library_files@[k]).id != id,
            decreases self.library_files@.len() - j,
        {
            if self.library_files[j].id == id {
                return Some(j);
            }
            j = j + 1;
        }
        None
    }

    /// Whether the library file with the given id lies at the given path.
    fn lf_path_matches(&self, library_file_id: i64, image_path: &str) -> (r: bool)
        requires
            self.spec_lf_ids_distinct(),
        ensures
            r == self.spec_lf_path_matches(library_file_id, image_path@),
    {
        match self.find_library_file(library_file_id) {
            Some(j) => {
                let m = crate::sql::str_eq(
                    self.library_files[j].file.path.as_str(),
                    image_path,
                );
                proof {
                    if !m && self.spec_lf_path_matches(library_file_id, image_path@) {
                        let j2 = choose|j2: int|
                            0 <= j2 < self.library_files@.len() && (
                            #[trigger] self.library_files@[j2]).id == library_file_id
                                && self.library_files@[j2].file.path@ == image_path@;
                        assert(j2 == j as int);
                    }
                }
                m
            },
            None => {
                proof {
                    if self.spec_lf_path_matches(library_file_id, image_path@) {
                        let j2 = choose|j2: int|
                            0 <= j2 < self.library_files@.len() && (
                            #[trigger] self.library_files@[j2]).id == library_file_id
                                && self.library_files@[j2].file.path@ == image_path@;
                        assert(self.spec_has_library_file(library_file_id));
                    }
                }
                false
            },
        }
    }

    /// Resolves a path to the index of its image row, as the store's
    /// first-row lookup does.
    fn resolve_image(&self, image_path: &str) -> (r: Option<usize>)
        requires
            self.spec_lf_ids_distinct(),
        ensures
            match r {
                Some(i) => i < self.images@.len() && self.spec_resolve_image(image_path@)
                    == Some(i as int),
                None => self.spec_resolve_image(image_path@) is None,
            },
    {
        let mut i: usize = 0;
        while i < self.images.len()
            invariant
                self.spec_lf_ids_distinct(),
                i <= self.images@.len(),
                self.spec_resolve_image(image_path@) == self.spec_resolve_from(
                    image_path@,
                    i as int,
                ),
            decreases self.images@.len() - i,
        {
            if self.lf_path_matches(self.images[i].library_file_id, image_path) {
                return Some(i);
            }
            i = i + 1;
        }
        None
    }
}

/// What adding a keyword writes: one tag row for the resolved image, with
/// everything else untouched. Holds only when the path resolves.
pub open spec fn add_keyword_post(pre: Catalog, post: Catalog, path: Seq<char>, kw: Seq<char>) -> bool {
    match pre.spec_resolve_image(path) {
        Some(i) => {
            &&& tags_view(post.tags@) == tags_view(pre.tags@).push(
                TagV { image_id: pre.images@[i]@.id, name: kw },
            )
            &&& post.library_files@ == pre.library_files@
            &&& post.images@ == pre.images@
            &&& post.exifs@ == pre.exifs@
            &&& post.iptcs@ == pre.iptcs@
            &&& post.next_library_file_id == pre.next_library_file_id
            &&& post.next_image_id == pre.next_image_id
        },
        None => false,
    }
}

/// What removing a keyword deletes: every tag row of the resolved image
/// whose name matches exactly, with everything else untouched. Holds only
/// when the path resolves.
pub open spec fn remove_keyword_post(
    pre: Catalog,
    post: Catalog,
    path: Seq<char>,
    kw: Seq<char>,
) -> bool {
    match pre.spec_resolve_image(path) {
        Some(i) => {
            &&& tags_view(post.tags@) == spec_tags_without(
                tags_view(pre.tags@),
                pre.images@[i]@.id,
                kw,
            )
            &&& post.library_files@ == pre.library_files@
            &&& post.images@ == pre.images@
            &&& post.exifs@ == pre.exifs@
            &&& post.iptcs@ == pre.iptcs@
            &&& post.next_library_file_id == pre.next_library_file_id
            &&& post.next_image_id == pre.next_image_id
        },
        None => false,
    }
}

impl Catalog {
    /// Adds a keyword to the image the path resolves to; fails with
    /// `NoSuchImage`, changing nothing, when no image lies at the path.
    pub fn add_keyword(&mut self, image_path: &str, keyword: &str) -> (r: Result<
        (),
        CatalogError,
    >)
        requires
            old(self).wf(),
        ensures
            final(self).wf(),
            match r {
                Ok(()) => add_keyword_post(*old(self), *final(self), image_path@, keyword@),
                Err(CatalogError::NoSuchImage) => {
                    &&& old(self).spec_resolve_image(image_path@) is None
                    &&& *final(self) == *old(self)
                },
            },
    {
        let img_index = match self.resolve_image(image_path) {
            Some(i) => i,
            None => {
                return Err(CatalogError::NoSuchImage);
            },
        };
        let image_id = self.images[img_index].id;
        let ghost prev = tags_view(self.tags@);
        self.tags.push(TagRow { image_id, tag_name: String::from_str(keyword) });
        proof {
            assert(tags_view(self.tags@) =~= prev.push(
                TagV { image_id: image_id as int, name: keyword@ },
            ));
            assert(self.library_files@ == old(self).library_files@);
            assert(self.images@ == old(self).images@);
            assert(self.next_image_id == old(self).next_image_id);
            assert(self.wf());
        }
        Ok(())
    }

    /// Removes a keyword from the image the path resolves to: every tag row
    /// of that image with an exact name match is deleted. Fails with
    /// `NoSuchImage`, changing nothing, when no image lies at the path.
    pub fn remove_keyword(&mut self, image_path: &str, keyword: &str) -> (r: Result<
        (),
        CatalogError,
    >)
        requires
            old(self).wf(),
        ensures
            final(self).wf(),
            match r {
                Ok(()) => remove_keyword_post(*old(self), *final(self), image_path@, keyword@),
                Err(CatalogError::NoSuchImage) => {
                    &&& old(self).spec_resolve_image(image_path@) is None
                    &&& *final(self) == *old(self)
                },
            },
    {
        let img_index = match self.resolve_image(image_path) {
            Some(i) => i,
            None => {
                return Err(CatalogError::NoSuchImage);
            },
        };
        let image_id = self.images[img_index].id;
        let mut taken: Vec<TagRow> = Vec::new();
        core::mem::swap(&mut taken, &mut self.tags);
        let ghost orig = taken@;
        let n0: usize = taken.len();
        proof {
            assert(orig.len() == n0);
        }
        let mut p: usize = 0;
        while taken.len() > 0
            invariant
                p + taken@.len() == orig.len(),
                orig.len() <= usize::MAX,
                taken@ =~= orig.skip(p as int),
                tags_view(self.tags@) =~= spec_tags_without(
                    tags_view(orig.take(p as int)),
                    image_id as int,
                    keyword@,
                ),
                orig == old(self).tags@,
                self.library_files@ == old(self).library_files@,
                self.images@ == old(self).images@,
                self.exifs@ == old(self).exifs@,
                self.iptcs@ == old(self).iptcs@,
                self.next_library_file_id == old(self).next_library_file_id,
                self.next_image_id == old(self).next_image_id,
            decreases taken@.len(),
        {
            let ghost prev_kept = tags_view(self.tags@);
            let t = taken.remove(0);
            let keep = !(t.image_id == image_id && crate::sql::str_eq(
                t.tag_name.as_str(),
                keyword,
            ));
            proof {
                assert(orig.skip(p as int)[0] == orig[p as int]);
                assert(taken@ =~= orig.skip(p + 1 as int));
                assert(orig.take(p + 1 as int) =~= orig.take(p as int).push(orig[p as int]));
                assert(tags_view(orig.take(p + 1 as int)) =~= tags_view(
                    orig.take(p as int),
                ).push(orig[p as int]@));
            }
            if keep {
                self.tags.push(t);
                proof {
                    assert(tags_view(self.tags@) =~= prev_kept.push(orig[p as int]@));
                }
            }
            p = p + 1;
        }
        proof {
            assert(orig.take(orig.len() as int) =~= orig);
            assert(self.library_files@ == old(self).library_files@);
            assert(self.images@ == old(self).images@);
            assert(self.wf());
        }
        Ok(())
    }
}

/// What a rating update writes: the new rating on every image whose file
/// lies at the path, with every other attribute and relation untouched.
pub open spec fn update_rating_post(
    pre: Catalog,
    post: Catalog,
    path: Seq<char>,
    rating: int,
) -> bool {
    &&& post.images@.len() == pre.images@.len()
    &&& forall|k: int|
        0 <= k < pre.images@.len() ==> (#[trigger] post.images@[k])@ == (
        if pre.spec_image_path_matches(k, path) {
            ImageV { rating: rating, ..pre.images@[k]@ }
        } else {
            pre.images@[k]@
        })
    &&& post.library_files@ == pre.library_files@
    &&& post.exifs@ == pre.exifs@
    &&& post.iptcs@ == pre.iptcs@
    &&& post.tags@ == pre.tags@
    &&& post.next_library_file_id == pre.next_library_file_id
    &&& post.next_image_id == pre.next_image_id
}

/// What a flag update writes, in the same shape as `update_rating_post`.
pub open spec fn update_flag_post(pre: Catalog, post: Catalog, path: Seq<char>, flag: Seq<char>) -> bool {
    &&& post.images@.len() == pre.images@.len()
    &&& forall|k: int|
        0 <= k < pre.images@.len() ==> (#[trigger] post.images@[k])@ == (
        if pre.spec_image_path_matches(k, path) {
            ImageV { flag: flag, ..pre.images@[k]@ }
        } else {
            pre.images@[k]@
        })
    &&& post.library_files@ == pre.library_files@
    &&& post.exifs@ == pre.exifs@
    &&& post.iptcs@ == pre.iptcs@
    &&& post.tags@ == pre.tags@
    &&& post.next_library_file_id == pre.next_library_file_id
    &&& post.next_image_id == pre.next_image_id
}

/// What a color-label update writes, in the same shape as
/// `update_rating_post`.
pub open spec fn update_color_label_post(
    pre: Catalog,
    post: Catalog,
    path: Seq<char>,
    color: Seq<char>,
) -> bool {
    &&& post.images@.len() == pre.images@.len()
    &&& forall|k: int|
        0 <= k < pre.images@.len() ==> (#[trigger] post.images@[k])@ == (
        if pre.spec_image_path_matches(k, path) {
            ImageV { color_label: color, ..pre.images@[k]@ }
        } else {
            pre.images@[k]@
        })
    &&& post.library_files@ == pre.library_files@
    &&& post.exifs@ == pre.exifs@
    &&& post.iptcs@ == pre.iptcs@
    &&& post.tags@ == pre.tags@
    &&& post.next_library_file_id == pre.next_library_file_id
    &&& post.next_image_id == pre.next_image_id
}

/// An update that keeps every image's id, file reference and flag validity
/// keeps the catalog well-formed.
proof fn lemma_update_preserves_wf(pre: Catalog, post: Catalog)
    requires
        pre.wf(),
        post.library_files@ == pre.library_files@,
        post.next_library_file_id == pre.next_library_file_id,
        post.next_image_id == pre.next_image_id,
        post.images@.len() == pre.images@.len(),
        forall|k: int|
            0 <= k < pre.images@.len() ==> {
                let a = (#[trigger] post.images@[k])@;
                &&& a.id == pre.images@[k]@.id
                &&& a.library_file_id == pre.images@[k]@.library_file_id
                &&& spec_is_flag(a.flag)
            },
    ensures
        post.wf(),
{
    assert forall|i: int, j: int| 0 <= i < j < post.images@.len() implies (
    #[trigger] post.images@[i]).id != (#[trigger] post.images@[j]).id by {
        assert(post.images@[i]@.id == pre.images@[i]@.id);
        assert(post.images@[j]@.id == pre.images@[j]@.id);
        assert(pre.images@[i].id != pre.images@[j].id);
    }
    assert forall|i: int| 0 <= i < post.images@.len() implies 0 < (
    #[trigger] post.images@[i]).id < post.next_image_id by {
        assert(post.images@[i]@.id == pre.images@[i]@.id);
        assert(0 < pre.images@[i].id < pre.next_image_id);
    }
    assert forall|i: int| 0 <= i < post.images@.len() implies post.spec_has_library_file(
        (#[trigger] post.images@[i]).library_file_id,
    ) by {
        assert(post.images@[i]@.library_file_id == pre.images@[i]@.library_file_id);
        assert(pre.spec_has_library_file(pre.images@[i].library_file_id));
        let j = choose|j: int|
            0 <= j < pre.library_files@.len() && (#[trigger] pre.library_files@[j]).id
                == pre.images@[i].library_file_id;
        assert(post.library_files@[j].id == post.images@[i].library_file_id);
    }
    assert forall|i: int| 0 <= i < post.images@.len() implies spec_is_flag(
        (#[trigger] post.images@[i]).flag@,
    ) by {
        assert(spec_is_flag(post.images@[i]@.flag));
    }
}

impl Catalog {
    /// Sets the rating of every image whose file lies at the path; fails
    /// with `NoSuchImage`, changing nothing, when no image lies there.
    pub fn update_image_rating(&mut self, image_path: &str, rating: u32) -> (r: Result<
        (),
        CatalogError,
    >)
        requires
            old(self).wf(),
        ensures
            final(self).wf(),
            match r {
                Ok(()) => {
                    &&& old(self).spec_resolve_image(image_path@) is Some
                    &&& update_rating_post(
                        *old(self),
                        *final(self),
                        image_path@,
                        rating as int,
                    )
                },
                Err(CatalogError::NoSuchImage) => {
                    &&& old(self).spec_resolve_image(image_path@) is None
                    &&& *final(self) == *old(self)
                },
            },
    {
        if self.resolve_image(image_path).is_none() {
            return Err(CatalogError::NoSuchImage);
        }
        let mut taken: Vec<ImageRow> = Vec::new();
        core::mem::swap(&mut taken, &mut self.images);
        let ghost orig = taken@;
        let n0: usize = taken.len();
        proof {
            assert(orig.len() == n0);
        }
        let mut p: usize = 0;
        while taken.len() > 0
            invariant
                old(self).wf(),
                p + taken@.len() == orig.len(),
                orig.len() <= usize::MAX,
                taken@ =~= orig.skip(p as int),
                orig == old(self).images@,
                self.images@.len() == p,
                forall|k: int|
                    0 <= k < p ==> (#[trigger] self.images@[k])@ == (
                    if old(self).spec_image_path_matches(k, image_path@) {
                        ImageV { rating: rating as int, ..old(self).images@[k]@ }
                    } else {
                        old(self).images@[k]@
                    }),
                self.library_files@ == old(self).library_files@,
                self.exifs@ == old(self).exifs@,
                self.iptcs@ == old(self).iptcs@,
                self.tags@ == old(self).tags@,
                self.next_library_file_id == old(self).next_library_file_id,
                self.next_image_id == old(self).next_image_id,
            decreases taken@.len(),
        {
            let mut t = taken.remove(0);
            proof {
                assert(orig.skip(p as int)[0] == orig[p as int]);
                assert(taken@ =~= orig.skip(p + 1 as int));
            }
            if self.lf_path_matches(t.library_file_id, image_path) {
                t.rating = rating;
            }
            self.images.push(t);
            p = p + 1;
        }
        proof {
            lemma_update_preserves_wf(*old(self), *self);
        }
        Ok(())
    }

    /// Sets the flag of every image whose file lies at the path; the flag
    /// must be a defined value. Fails with `NoSuchImage`, changing nothing,
    /// when no image lies there.
    pub fn update_flag(&mut self, image_path: &str, flag: &str) -> (r: Result<(), CatalogError>)
        requires
            old(self).wf(),
            spec_is_flag(flag@),
        ensures
            final(self).wf(),
            match r {
                Ok(()) => {
                    &&& old(self).spec_resolve_image(image_path@) is Some
                    &&& update_flag_post(*old(self), *final(self), image_path@, flag@)
                },
                Err(CatalogError::NoSuchImage) => {
                    &&& old(self).spec_resolve_image(image_path@) is None
                    &&& *final(self) == *old(self)
                },
            },
    {
        if self.resolve_image(image_path).is_none() {
            return Err(CatalogError::NoSuchImage);
        }
        let mut taken: Vec<ImageRow> = Vec::new();
        core::mem::swap(&mut taken, &mut self.images);
        let ghost orig = taken@;
        let n0: usize = taken.len();
        proof {
            assert(orig.len() == n0);
        }
        let mut p: usize = 0;
        while taken.len() > 0
            invariant
                old(self).wf(),
                p + taken@.len() == orig.len(),
                orig.len() <= usize::MAX,
                taken@ =~= orig.skip(p as int),
                orig == old(self).images@,
                self.images@.len() == p,
                forall|k: int|
                    0 <= k < p ==> (#[trigger] self.images@[k])@ == (
                    if old(self).spec_image_path_matches(k, image_path@) {
                        ImageV { flag: flag@, ..old(self).images@[k]@ }
                    } else {
                        old(self).images@[k]@
                    }),
                self.library_files@ == old(self).library_files@,
                self.exifs@ == old(self).exifs@,
                self.iptcs@ == old(self).iptcs@,
                self.tags@ == old(self).tags@,
                self.next_library_file_id == old(self).next_library_file_id,
                self.next_image_id == old(self).next_image_id,
            decreases taken@.len(),
        {
            let mut t = taken.remove(0);
            proof {
                assert(orig.skip(p as int)[0] == orig[p as int]);
                assert(taken@ =~= orig.skip(p + 1 as int));
            }
            if self.lf_path_matches(t.library_file_id, image_path) {
                t.flag = String::from_str(flag);
            }
            self.images.push(t);
            p = p + 1;
        }
        proof {
            lemma_update_preserves_wf(*old(self), *self);
        }
        Ok(())
    }

    /// Sets the color label of every image whose file lies at the path;
    /// fails with `NoSuchImage`, changing nothing, when no image lies there.
    pub fn update_color_label(&mut self, image_path: &str, color_label: &str) -> (r: Result<
        (),
        CatalogError,
    >)
        requires
            old(self).wf(),
        ensures
            final(self).wf(),
            match r {
                Ok(()) => {
                    &&& old(self).spec_resolve_image(image_path@) is Some
                    &&& update_color_label_post(
                        *old(self),
                        *final(self),
                        image_path@,
                        color_label@,
                    )
                },
                Err(CatalogError::NoSuchImage) => {
                    &&& old(self).spec_resolve_image(image_path@) is None
                    &&& *final(self) == *old(self)
                },
            },
    {
        if self.resolve_image(image_path).is_none() {
            return Err(CatalogError::NoSuchImage);
        }
        let mut taken: Vec<ImageRow> = Vec::new();
        core::mem::swap(&mut taken, &mut self.images);
        let ghost orig = taken@;
        let n0: usize = taken.len();
        proof {
            assert(orig.len() == n0);
        }
        let mut p: usize = 0;
        while taken.len() > 0
            invariant
                old(self).wf(),
                p + taken@.len() == orig.len(),
                orig.len() <= usize::MAX,
                taken@ =~= orig.skip(p as int),
                orig == old(self).images@,
                self.images@.len() == p,
                forall|k: int|
                    0 <= k < p ==> (#[trigger] self.images@[k])@ == (
                    if old(self).spec_image_path_matches(k, image_path@) {
                        ImageV { color_label: color_label@, ..old(self).images@[k]@ }
                    } else {
                        old(self).images@[k]@
                    }),
                self.library_files@ == old(self).library_files@,
                self.exifs@ == old(self).exifs@,
                self.iptcs@ == old(self).iptcs@,
                self.tags@ == old(self).tags@,
                self.next_library_file_id == old(self).next_library_file_id,
                self.next_image_id == old(self).next_image_id,
            decreases taken@.len(),
        {
            let mut t = taken.remove(0);
            proof {
                assert(orig.skip(p as int)[0] == orig[p as int]);
                assert(taken@ =~= orig.skip(p + 1 as int));
            }
            if self.lf_path_matches(t.library_file_id, image_path) {
                t.color_label = String::from_str(color_label);
            }
            self.images.push(t);
            p = p + 1;
        }
        proof {
            lemma_update_preserves_wf(*old(self), *self);
        }
        Ok(())
    }
}

} // verus!
