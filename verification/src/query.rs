//! The query engine over the catalog model: filter composition, per-image
//! tag aggregation, and sort-column selection.

use vstd::prelude::*;

verus! {

use vstd::multiset::Multiset;
use vstd::seq_lib::group_seq_properties;

broadcast use {
    group_seq_properties,
    Seq::lemma_filter_push,
    Seq::lemma_filter_len_push,
    Seq::lemma_push_map_commute,
    Seq::lemma_map_take_succ,
    vstd::multiset::group_multiset_properties,
    vstd::string::group_string_axioms,
};

use crate::catalog::Catalog;
use crate::catalog::Filter;
use crate::catalog::ImageRow;
use crate::catalog::LibraryFileRow;
use crate::catalog::TagRow;
use crate::catalog::lf_seq_ids_distinct;
use crate::sql::QueryError;
use crate::sql::flag_filtered;
use crate::sql::color_filtered;
use crate::sql::spec_is_sort_key;
use crate::sql::spec_is_sort_dir;
use crate::sql::str_eq;

/// One query result row: an image, its file's attributes, and its tags in
/// row order.
#[derive(Debug)]
pub struct ImageRecord {
    pub original_file_name: String,
    pub extension: String,
    pub file_created_time: String,
    pub path: String,
    pub parent_path: String,
    pub rating: u32,
    pub flag: String,
    pub color_label: String,
    pub capture_time: String,
    pub tags: Vec<String>,
}

/// The mathematical shape of a result row.
#[verifier::ext_equal]
pub ghost struct RecordV {
    pub original_file_name: Seq<char>,
    pub extension: Seq<char>,
    pub file_created_time: Seq<char>,
    pub path: Seq<char>,
    pub parent_path: Seq<char>,
    pub rating: int,
    pub flag: Seq<char>,
    pub color_label: Seq<char>,
    pub capture_time: Seq<char>,
    pub tags: Seq<Seq<char>>,
}

impl View for ImageRecord {
    type V = RecordV;

    open spec fn view(&self) -> RecordV {
        RecordV {
            original_file_name: self.original_file_name@,
            extension: self.extension@,
            file_created_time: self.file_created_time@,
            path: self.path@,
            parent_path: self.parent_path@,
            rating: self.rating as int,
            flag: self.flag@,
            color_label: self.color_label@,
            capture_time: self.capture_time@,
            tags: self.tags.deep_view(),
        }
    }
}

/// The views of a sequence of result rows.
pub open spec fn records_view(s: Seq<ImageRecord>) -> Seq<RecordV> {
    s.map_values(|r: ImageRecord| r@)
}

/// The names, in row order, of the tag rows owned by one image.
pub open spec fn tag_seq_names_for(tags: Seq<TagRow>, image_id: i64) -> Seq<Seq<char>> {
    tags.filter(|t: TagRow| t.image_id == image_id).map_values(|t: TagRow| t.tag_name@)
}

/// Index of the row carrying the given id; meaningful only when one exists.
pub open spec fn lf_index_of(lfs: Seq<LibraryFileRow>, id: i64) -> int {
    choose|j: int| 0 <= j < lfs.len() && (#[trigger] lfs[j]).id == id
}

/// Whether some row carries the given id.
pub open spec fn lf_seq_has_id(lfs: Seq<LibraryFileRow>, id: i64) -> bool {
    exists|j: int| 0 <= j < lfs.len() && (#[trigger] lfs[j]).id == id
}

/// Whether an image satisfies the query's restrictions: its file exists and
/// lies directly in the queried directory, its rating reaches the minimum,
/// and each non-sentinel filter value matches exactly.
pub open spec fn spec_row_matches(
    lfs: Seq<LibraryFileRow>,
    img: ImageRow,
    dir: Seq<char>,
    rating: int,
    flag: Seq<char>,
    color: Seq<char>,
) -> bool {
    &&& lf_seq_has_id(lfs, img.library_file_id)
    &&& lfs[lf_index_of(lfs, img.library_file_id)].file.parent_path@ == dir
    &&& img.rating >= rating
    &&& (flag_filtered(flag) ==> img.flag@ == flag)
    &&& (color_filtered(color) ==> img.color_label@ == color)
}

/// The result row of one image.
pub open spec fn spec_record_of(cat: Catalog, img: ImageRow) -> RecordV {
    let lf = cat.library_files@[lf_index_of(cat.library_files@, img.library_file_id)];
    RecordV {
        original_file_name: lf.file.original_file_name@,
        extension: lf.file.extension@,
        file_created_time: lf.file.file_created_time@,
        path: lf.file.path@,
        parent_path: lf.file.parent_path@,
        rating: img.rating as int,
        flag: img.flag@,
        color_label: img.color_label@,
        capture_time: img.capture_time@,
        tags: tag_seq_names_for(cat.tags@, img.id),
    }
}

/// The result rows of the given images, in row order: one per matching
/// image, with its tags aggregated.
pub open spec fn spec_query_records(
    cat: Catalog,
    imgs: Seq<ImageRow>,
    dir: Seq<char>,
    rating: int,
    flag: Seq<char>,
    color: Seq<char>,
) -> Seq<RecordV> {
    imgs.filter(
        |img: ImageRow| spec_row_matches(cat.library_files@, img, dir, rating, flag, color),
    ).map_values(|img: ImageRow| spec_record_of(cat, img))
}

impl Catalog {
    /// The unordered result of a query: one row per image that matches the
    /// directory and filter, in image-row order.
    pub open spec fn spec_query(
        self,
        dir: Seq<char>,
        rating: int,
        flag: Seq<char>,
        color: Seq<char>,
    ) -> Seq<RecordV> {
        spec_query_records(self, self.images@, dir, rating, flag, color)
    }
}

/// The names of one image's tag rows, as executable data.
fn tags_of(cat: &Catalog, image_id: i64) -> (r: Vec<String>)
    ensures
        r.deep_view() == tag_seq_names_for(cat.tags@, image_id),
{
    let mut r: Vec<String> = Vec::new();
    let mut j: usize = 0;
    while j < cat.tags.len()
        invariant
            j <= cat.tags@.len(),
            r.deep_view() =~= tag_seq_names_for(cat.tags@.take(j as int), image_id),
        decreases cat.tags@.len() - j,
    {
        let t = &cat.tags[j];
        proof {
            assert(cat.tags@.take(j + 1 as int) =~= cat.tags@.take(j as int).push(
                cat.tags@[j as int],
            ));
        }
        if t.image_id == image_id {
            let ghost prev = r.deep_view();
            r.push(t.tag_name.clone());
            proof {
                assert forall|k: int| 0 <= k < r@.len() implies r.deep_view()[k] == prev.push(
                    t.tag_name@,
                )[k] by {
                    if k < prev.len() {
                        assert(r@[k] == r@.take(r@.len() - 1)[k]);
                    }
                }
                assert(r.deep_view() =~= prev.push(t.tag_name@));
            }
        }
        j = j + 1;
    }
    proof {
        assert(cat.tags@.take(cat.tags@.len() as int) =~= cat.tags@);
    }
    r
}

/// Whether an image satisfies the query's restrictions.
fn row_matches(cat: &Catalog, img: &ImageRow, dir: &str, filter: &Filter) -> (r: bool)
    requires
        lf_seq_ids_distinct(cat.library_files@),
    ensures
        r == spec_row_matches(
            cat.library_files@,
            *img,
            dir@,
            filter.rating as int,
            filter.flag@,
            filter.color_label@,
        ),
{
    let lf_idx = match cat.find_library_file(img.library_file_id) {
        Some(j) => j,
        None => {
            proof {
                if lf_seq_has_id(cat.library_files@, img.library_file_id) {
                    let j2 = choose|j2: int|
                        0 <= j2 < cat.library_files@.len() && (
                        #[trigger] cat.library_files@[j2]).id == img.library_file_id;
                    assert(cat.spec_has_library_file(img.library_file_id));
                }
            }
            return false;
        },
    };
    proof {
        assert(lf_seq_has_id(cat.library_files@, img.library_file_id));
        let j2 = lf_index_of(cat.library_files@, img.library_file_id);
        assert(cat.library_files@[j2].id == img.library_file_id);
        assert(j2 == lf_idx as int);
    }
    if !str_eq(cat.library_files[lf_idx].file.parent_path.as_str(), dir) {
        return false;
    }
    if img.rating < filter.rating {
        return false;
    }
    if !str_eq(filter.flag.as_str(), "unpicked") && !str_eq(
        img.flag.as_str(),
        filter.flag.as_str(),
    ) {
        return false;
    }
    if !str_eq(filter.color_label.as_str(), "none") && !str_eq(
        img.color_label.as_str(),
        filter.color_label.as_str(),
    ) {
        return false;
    }
    true
}

/// The result row of one matching image, as executable data.
fn record_for(cat: &Catalog, img: &ImageRow) -> (r: ImageRecord)
    requires
        lf_seq_ids_distinct(cat.library_files@),
        lf_seq_has_id(cat.library_files@, img.library_file_id),
    ensures
        r@ == spec_record_of(*cat, *img),
{
    let lf_idx = match cat.find_library_file(img.library_file_id) {
        Some(j) => j,
        None => {
            proof {
                let j2 = choose|j2: int|
                    0 <= j2 < cat.library_files@.len() && (#[trigger] cat.library_files@[j2]).id
                        == img.library_file_id;
                assert(cat.spec_has_library_file(img.library_file_id));
                assert(false);
            }
            0
        },
    };
    proof {
        let j2 = lf_index_of(cat.library_files@, img.library_file_id);
        assert(cat.library_files@[j2].id == img.library_file_id);
        assert(j2 == lf_idx as int);
    }
    let lf = &cat.library_files[lf_idx].file;
    ImageRecord {
        original_file_name: lf.original_file_name.clone(),
        extension: lf.extension.clone(),
        file_created_time: lf.file_created_time.clone(),
        path: lf.path.clone(),
        parent_path: lf.parent_path.clone(),
        rating: img.rating,
        flag: img.flag.clone(),
        color_label: img.color_label.clone(),
        capture_time: img.capture_time.clone(),
        tags: tags_of(cat, img.id),
    }
}

/// Lexicographic order on character sequences, by code point.
pub open spec fn lex_le(a: Seq<char>, b: Seq<char>) -> bool
    decreases a.len(),
{
    if a.len() == 0 {
        true
    } else if b.len() == 0 {
        false
    } else if (a[0] as u32) < (b[0] as u32) {
        true
    } else if (a[0] as u32) > (b[0] as u32) {
        false
    } else {
        lex_le(a.skip(1), b.skip(1))
    }
}

/// The lexicographic order is total.
pub proof fn lemma_lex_le_total(a: Seq<char>, b: Seq<char>)
    ensures
        lex_le(a, b) || lex_le(b, a),
    decreases a.len(),
{
    if a.len() > 0 && b.len() > 0 && (a[0] as u32) == (b[0] as u32) {
        lemma_lex_le_total(a.skip(1), b.skip(1));
    }
}

/// The lexicographic order is transitive.
pub proof fn lemma_lex_le_trans(a: Seq<char>, b: Seq<char>, c: Seq<char>)
    requires
        lex_le(a, b),
        lex_le(b, c),
    ensures
        lex_le(a, c),
    decreases a.len(),
{
    if a.len() > 0 && b.len() > 0 && c.len() > 0 && (a[0] as u32) == (b[0] as u32) && (b[0]
        as u32) == (c[0] as u32) {
        lemma_lex_le_trans(a.skip(1), b.skip(1), c.skip(1));
    }
}

/// Order of two result rows under one sort column: numeric for the rating,
/// lexicographic for every text column. An unknown column imposes no order;
/// the query engine rejects such a column before sorting.
pub open spec fn record_key_le(key: Seq<char>, a: RecordV, b: RecordV) -> bool {
    if key == "rating"@ {
        a.rating <= b.rating
    } else if key == "capture_time"@ {
        lex_le(a.capture_time, b.capture_time)
    } else if key == "file_created_time"@ {
        lex_le(a.file_created_time, b.file_created_time)
    } else if key == "original_file_name"@ {
        lex_le(a.original_file_name, b.original_file_name)
    } else if key == "extension"@ {
        lex_le(a.extension, b.extension)
    } else if key == "path"@ {
        lex_le(a.path, b.path)
    } else if key == "parent_path"@ {
        lex_le(a.parent_path, b.parent_path)
    } else if key == "flag"@ {
        lex_le(a.flag, b.flag)
    } else if key == "color_label"@ {
        lex_le(a.color_label, b.color_label)
    } else {
        true
    }
}

/// Order of two result rows under a sort column and direction.
pub open spec fn record_le(key: Seq<char>, dir: Seq<char>, a: RecordV, b: RecordV) -> bool {
    if dir == "desc"@ {
        record_key_le(key, b, a)
    } else {
        record_key_le(key, a, b)
    }
}

/// Whether the rows stand in the chosen order.
pub open spec fn spec_sorted_by(s: Seq<RecordV>, key: Seq<char>, dir: Seq<char>) -> bool {
    forall|i: int, j: int| 0 <= i < j < s.len() ==> record_le(key, dir, s[i], s[j])
}

/// The nine sort-column names are pairwise distinct texts.
proof fn lemma_sort_key_literals_distinct()
    ensures
        "rating"@.len() == 6,
        "capture_time"@.len() == 12,
        "file_created_time"@.len() == 17,
        "original_file_name"@.len() == 18,
        "extension"@.len() == 9,
        "path"@.len() == 4,
        "parent_path"@.len() == 11,
        "flag"@.len() == 4,
        "color_label"@.len() == 11,
        "path"@ != "flag"@,
        "parent_path"@ != "color_label"@,
{
    reveal_strlit("rating");
    reveal_strlit("capture_time");
    reveal_strlit("file_created_time");
    reveal_strlit("original_file_name");
    reveal_strlit("extension");
    reveal_strlit("path");
    reveal_strlit("parent_path");
    reveal_strlit("flag");
    reveal_strlit("color_label");
    assert("rating"@.len() == 6);
    assert("capture_time"@.len() == 12);
    assert("file_created_time"@.len() == 17);
    assert("original_file_name"@.len() == 18);
    assert("extension"@.len() == 9);
    assert("path"@.len() == 4);
    assert("parent_path"@.len() == 11);
    assert("flag"@.len() == 4);
    assert("color_label"@.len() == 11);
    assert("path"@[0] == 'p');
    assert("flag"@[0] == 'f');
    assert("parent_path"@[6] == '_');
    assert("color_label"@[6] == 'l');
}

/// The row order is total.
pub proof fn lemma_record_le_total(key: Seq<char>, dir: Seq<char>, a: RecordV, b: RecordV)
    ensures
        record_le(key, dir, a, b) || record_le(key, dir, b, a),
{
    lemma_sort_key_literals_distinct();
    if key == "capture_time"@ {
        lemma_lex_le_total(a.capture_time, b.capture_time);
    } else if key == "file_created_time"@ {
        lemma_lex_le_total(a.file_created_time, b.file_created_time);
    } else if key == "original_file_name"@ {
        lemma_lex_le_total(a.original_file_name, b.original_file_name);
    } else if key == "extension"@ {
        lemma_lex_le_total(a.extension, b.extension);
    } else if key == "path"@ {
        lemma_lex_le_total(a.path, b.path);
    } else if key == "parent_path"@ {
        lemma_lex_le_total(a.parent_path, b.parent_path);
    } else if key == "flag"@ {
        lemma_lex_le_total(a.flag, b.flag);
    } else if key == "color_label"@ {
        lemma_lex_le_total(a.color_label, b.color_label);
    }
}

/// The row order is transitive.
pub proof fn lemma_record_le_trans(
    key: Seq<char>,
    dir: Seq<char>,
    a: RecordV,
    b: RecordV,
    c: RecordV,
)
    requires
        record_le(key, dir, a, b),
        record_le(key, dir, b, c),
    ensures
        record_le(key, dir, a, c),
{
    lemma_sort_key_literals_distinct();
    let (x, y, z) = if dir == "desc"@ {
        (c, b, a)
    } else {
        (a, b, c)
    };
    if key == "capture_time"@ {
        lemma_lex_le_trans(x.capture_time, y.capture_time, z.capture_time);
    } else if key == "file_created_time"@ {
        lemma_lex_le_trans(x.file_created_time, y.file_created_time, z.file_created_time);
    } else if key == "original_file_name"@ {
        lemma_lex_le_trans(x.original_file_name, y.original_file_name, z.original_file_name);
    } else if key == "extension"@ {
        lemma_lex_le_trans(x.extension, y.extension, z.extension);
    } else if key == "path"@ {
        lemma_lex_le_trans(x.path, y.path, z.path);
    } else if key == "parent_path"@ {
        lemma_lex_le_trans(x.parent_path, y.parent_path, z.parent_path);
    } else if key == "flag"@ {
        lemma_lex_le_trans(x.flag, y.flag, z.flag);
    } else if key == "color_label"@ {
        lemma_lex_le_trans(x.color_label, y.color_label, z.color_label);
    }
}

/// Lexicographic comparison of two strings.
fn lex_le_exec(a: &str, b: &str) -> (r: bool)
    ensures
        r == lex_le(a@, b@),
{
    let an: usize = a.unicode_len();
    let bn: usize = b.unicode_len();
    let mut i: usize = 0;
    while i < an && i < bn
        invariant
            an == a@.len(),
            bn == b@.len(),
            i <= an,
            i <= bn,
            lex_le(a@, b@) == lex_le(a@.skip(i as int), b@.skip(i as int)),
        decreases an - i,
    {
        let ca: u32 = a.get_char(i) as u32;
        let cb: u32 = b.get_char(i) as u32;
        proof {
            assert(a@.skip(i as int)[0] == a@[i as int]);
            assert(b@.skip(i as int)[0] == b@[i as int]);
            assert(a@.skip(i as int).skip(1) =~= a@.skip(i + 1 as int));
            assert(b@.skip(i as int).skip(1) =~= b@.skip(i + 1 as int));
        }
        if ca < cb {
            return true;
        }
        if ca > cb {
            return false;
        }
        i = i + 1;
    }
    proof {
        if i >= an {
            assert(a@.skip(i as int).len() == 0);
        } else {
            assert(b@.skip(i as int).len() == 0);
            assert(a@.skip(i as int).len() > 0);
        }
    }
    i >= an
}

/// Comparison of two result rows under one sort column.
fn record_key_le_exec(key: &str, a: &ImageRecord, b: &ImageRecord) -> (r: bool)
    ensures
        r == record_key_le(key@, a@, b@),
{
    if str_eq(key, "rating") {
        a.rating <= b.rating
    } else if str_eq(key, "capture_time") {
        lex_le_exec(a.capture_time.as_str(), b.capture_time.as_str())
    } else if str_eq(key, "file_created_time") {
        lex_le_exec(a.file_created_time.as_str(), b.file_created_time.as_str())
    } else if str_eq(key, "original_file_name") {
        lex_le_exec(a.original_file_name.as_str(), b.original_file_name.as_str())
    } else if str_eq(key, "extension") {
        lex_le_exec(a.extension.as_str(), b.extension.as_str())
    } else if str_eq(key, "path") {
        lex_le_exec(a.path.as_str(), b.path.as_str())
    } else if str_eq(key, "parent_path") {
        lex_le_exec(a.parent_path.as_str(), b.parent_path.as_str())
    } else if str_eq(key, "flag") {
        lex_le_exec(a.flag.as_str(), b.flag.as_str())
    } else if str_eq(key, "color_label") {
        lex_le_exec(a.color_label.as_str(), b.color_label.as_str())
    } else {
        true
    }
}

/// Comparison of two result rows under a sort column and direction.
fn record_le_exec(key: &str, dir: &str, a: &ImageRecord, b: &ImageRecord) -> (r: bool)
    ensures
        r == record_le(key@, dir@, a@, b@),
{
    if str_eq(dir, "desc") {
        record_key_le_exec(key, b, a)
    } else {
        record_key_le_exec(key, a, b)
    }
}

/// Inserting an element anywhere in a sequence adds it, and nothing else,
/// to the sequence's multiset.
proof fn lemma_insert_to_multiset(s: Seq<RecordV>, pos: int, e: RecordV)
    requires
        0 <= pos <= s.len(),
    ensures
        s.insert(pos, e).to_multiset() =~= s.to_multiset().insert(e),
{
    let t = s.insert(pos, e);
    assert(t.remove(pos) =~= s);
    assert(t[pos] == e);
    assert(t.remove(pos).to_multiset() =~= t.to_multiset().remove(t[pos]));
    assert(t.contains(e));
    assert(t.to_multiset().count(e) > 0);
    assert forall|x: RecordV| t.to_multiset().count(x) == s.to_multiset().insert(e).count(
        x,
    ) by {
        if x == e {
            assert(s.to_multiset().count(e) == t.to_multiset().remove(e).count(e));
        } else {
            assert(s.to_multiset().count(x) == t.to_multiset().remove(e).count(x));
        }
    }
}

/// Sorts result rows by the chosen column and direction: the output is a
/// permutation of the input, in order.
pub fn sort_records(rows: Vec<ImageRecord>, sort_key: &str, sort_order: &str) -> (r: Vec<
    ImageRecord,
>)
    ensures
        records_view(r@).to_multiset() == records_view(rows@).to_multiset(),
        spec_sorted_by(records_view(r@), sort_key@, sort_order@),
{
    let ghost orig = records_view(rows@);
    let mut rest = rows;
    let mut out: Vec<ImageRecord> = Vec::new();
    while rest.len() > 0
        invariant
            records_view(out@).to_multiset().add(records_view(rest@).to_multiset())
                =~= orig.to_multiset(),
            spec_sorted_by(records_view(out@), sort_key@, sort_order@),
        decreases rest@.len(),
    {
        let ghost rows_pre = rest@;
        let ghost rest_pre = records_view(rest@);
        let e = rest.remove(0);
        proof {
            rows_pre.remove_ensures(0);
            rest_pre.remove_ensures(0);
            assert forall|k: int| 0 <= k < rest@.len() implies records_view(rest@)[k]
                == rest_pre.remove(0)[k] by {
                assert(rest@[k] == rows_pre.remove(0)[k]);
                assert(rows_pre.remove(0)[k] == rows_pre[k + 1]);
                assert(rest_pre.remove(0)[k] == rest_pre[k + 1]);
            }
            assert(records_view(rest@) =~= rest_pre.remove(0));
            assert(rest_pre.remove(0).to_multiset() =~= rest_pre.to_multiset().remove(
                rest_pre[0],
            ));
            assert(rest_pre[0] == e@);
        }
        let mut pos: usize = 0;
        while pos < out.len() && record_le_exec(sort_key, sort_order, &out[pos], &e)
            invariant
                pos <= out@.len(),
                forall|k: int|
                    0 <= k < pos ==> record_le(
                        sort_key@,
                        sort_order@,
                        records_view(out@)[k],
                        e@,
                    ),
            decreases out@.len() - pos,
        {
            pos = pos + 1;
        }
        let ghost out_rows_mid = out@;
        let ghost out_mid = records_view(out@);
        out.insert(pos, e);
        proof {
            out_rows_mid.insert_ensures(pos as int, e);
            out_mid.insert_ensures(pos as int, e@);
            assert forall|k: int| 0 <= k < out@.len() implies records_view(out@)[k]
                == out_mid.insert(pos as int, e@)[k] by {
                assert(out@[k] == out_rows_mid.insert(pos as int, e)[k]);
                if k < pos as int {
                    assert(out_rows_mid.insert(pos as int, e)[k] == out_rows_mid[k]);
                    assert(out_mid.insert(pos as int, e@)[k] == out_mid[k]);
                } else if k > pos as int {
                    assert(out_rows_mid.insert(pos as int, e)[(k - 1) + 1] == out_rows_mid[k
                        - 1]);
                    assert(out_mid.insert(pos as int, e@)[(k - 1) + 1] == out_mid[k - 1]);
                }
            }
            assert(records_view(out@) =~= out_mid.insert(pos as int, e@));
            lemma_insert_to_multiset(out_mid, pos as int, e@);
            let cur = records_view(out@);
            out_mid.insert_ensures(pos as int, e@);
            assert forall|i: int, j: int| 0 <= i < j < cur.len() implies record_le(
                sort_key@,
                sort_order@,
                cur[i],
                cur[j],
            ) by {
                if pos < out_mid.len() {
                    lemma_record_le_total(sort_key@, sort_order@, out_mid[pos as int], e@);
                }
                if i == pos as int && j > pos as int + 1 {
                    lemma_record_le_trans(
                        sort_key@,
                        sort_order@,
                        e@,
                        out_mid[pos as int],
                        out_mid[j - 1],
                    );
                }
            }
        }
    }
    proof {
        assert(records_view(rest@).to_multiset() =~= Multiset::empty());
        assert(records_view(out@).to_multiset() =~= orig.to_multiset());
    }
    out
}

impl Catalog {
    /// Runs a query: every image of the directory that passes the filter,
    /// one result row each with its tags aggregated, in image-row order;
    /// ordered by the chosen column and direction when the sort key is not
    /// the `"default"` sentinel. A sort key that is not a result-row column,
    /// or a direction that is neither `asc` nor `desc`, is rejected before
    /// it is used.
    pub fn get_images_in_path(
        &self,
        path: &str,
        sort_option: &str,
        sort_order: &str,
        filter: &Filter,
    ) -> (r: Result<Vec<ImageRecord>, QueryError>)
        requires
            self.wf(),
        ensures
            match r {
                Ok(rows) => {
                    &&& sort_option@ == "default"@ || (spec_is_sort_key(sort_option@)
                        && spec_is_sort_dir(sort_order@))
                    &&& records_view(rows@).to_multiset() == self.spec_query(
                        path@,
                        filter.rating as int,
                        filter.flag@,
                        filter.color_label@,
                    ).to_multiset()
                    &&& sort_option@ == "default"@ ==> records_view(rows@) == self.spec_query(
                        path@,
                        filter.rating as int,
                        filter.flag@,
                        filter.color_label@,
                    )
                    &&& sort_option@ != "default"@ ==> spec_sorted_by(
                        records_view(rows@),
                        sort_option@,
                        sort_order@,
                    )
                },
                Err(QueryError::UnknownSortKey) => sort_option@ != "default"@
                    && !spec_is_sort_key(sort_option@),
                Err(QueryError::UnknownSortOrder) => sort_option@ != "default"@
                    && spec_is_sort_key(sort_option@) && !spec_is_sort_dir(sort_order@),
            },
    {
        let sorted = !str_eq(sort_option, "default");
        if sorted && !crate::sql::is_sort_key(sort_option) {
            return Err(QueryError::UnknownSortKey);
        }
        if sorted && !crate::sql::is_sort_dir(sort_order) {
            return Err(QueryError::UnknownSortOrder);
        }
        let mut rows: Vec<ImageRecord> = Vec::new();
        let mut i: usize = 0;
        while i < self.images.len()
            invariant
                self.wf(),
                i <= self.images@.len(),
                records_view(rows@) =~= spec_query_records(
                    *self,
                    self.images@.take(i as int),
                    path@,
                    filter.rating as int,
                    filter.flag@,
                    filter.color_label@,
                ),
            decreases self.images@.len() - i,
        {
            let img = &self.images[i];
            proof {
                assert(self.images@.take(i + 1 as int) =~= self.images@.take(i as int).push(
                    self.images@[i as int],
                ));
            }
            if row_matches(self, img, path, filter) {
                let ghost prev = records_view(rows@);
                let rec = record_for(self, img);
                rows.push(rec);
                proof {
                    assert forall|k: int| 0 <= k < rows@.len() implies records_view(rows@)[k]
                        == prev.push(rec@)[k] by {
                        if k < prev.len() {
                            assert(rows@[k] == rows@.take(rows@.len() - 1)[k]);
                        }
                    }
                    assert(records_view(rows@) =~= prev.push(rec@));
                }
            }
            i = i + 1;
        }
        proof {
            assert(self.images@.take(self.images@.len() as int) =~= self.images@);
        }
        if sorted {
            let out = sort_records(rows, sort_option, sort_order);
            Ok(out)
        } else {
            Ok(rows)
        }
    }
}

} // verus!
