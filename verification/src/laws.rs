//! The laws of the catalog: what ingestion, querying and the keyword
//! operations guarantee together, proved against the operations' contracts.

use vstd::prelude::*;

verus! {

use vstd::seq_lib::group_seq_properties;

broadcast use {
    group_seq_properties,
    Seq::lemma_filter_push,
    Seq::lemma_filter_len_push,
    Seq::lemma_filter_pred,
    Seq::lemma_push_map_commute,
    Seq::lemma_map_take_succ,
};

use crate::catalog::Catalog;
use crate::catalog::ImageRow;
use crate::catalog::TagV;
use crate::catalog::add_keyword_post;
use crate::catalog::dedup_first;
use crate::catalog::ingest_post;
use crate::catalog::lemma_ingest_preserves_wf;
use crate::catalog::remove_keyword_post;
use crate::catalog::spec_ingested_row;
use crate::catalog::spec_tags_without;
use crate::meta::ScannedFile;
use crate::query::lf_index_of;
use crate::query::lf_seq_has_id;
use crate::query::spec_query_records;
use crate::query::spec_record_of;
use crate::query::spec_row_matches;
use crate::sql::flag_filtered;

/// Every row a query returns carries a rating at least as high as the
/// filter's minimum.
pub proof fn lemma_query_min_rating(
    cat: Catalog,
    dir: Seq<char>,
    rating: int,
    flag: Seq<char>,
    color: Seq<char>,
    i: int,
)
    requires
        0 <= i < cat.spec_query(dir, rating, flag, color).len(),
    ensures
        cat.spec_query(dir, rating, flag, color)[i].rating >= rating,
{
    let matched = cat.images@.filter(
        |img: ImageRow| spec_row_matches(cat.library_files@, img, dir, rating, flag, color),
    );
    assert(spec_row_matches(cat.library_files@, matched[i], dir, rating, flag, color));
    assert(cat.spec_query(dir, rating, flag, color)[i] == spec_record_of(cat, matched[i]));
}

/// When the flag filter is not the sentinel, every returned row carries
/// exactly that flag; likewise for the color filter.
pub proof fn lemma_query_exact_filters(
    cat: Catalog,
    dir: Seq<char>,
    rating: int,
    flag: Seq<char>,
    color: Seq<char>,
    i: int,
)
    requires
        0 <= i < cat.spec_query(dir, rating, flag, color).len(),
    ensures
        flag != "unpicked"@ ==> cat.spec_query(dir, rating, flag, color)[i].flag == flag,
        color != "none"@ ==> cat.spec_query(dir, rating, flag, color)[i].color_label == color,
{
    let matched = cat.images@.filter(
        |img: ImageRow| spec_row_matches(cat.library_files@, img, dir, rating, flag, color),
    );
    assert(spec_row_matches(cat.library_files@, matched[i], dir, rating, flag, color));
    assert(cat.spec_query(dir, rating, flag, color)[i] == spec_record_of(cat, matched[i]));
}

/// Filtering by the sentinel flag `"unpicked"` restricts nothing: whether an
/// image is returned depends only on its directory, rating and color, never
/// on its flag.
pub proof fn lemma_flag_sentinel_no_restriction(
    cat: Catalog,
    img: ImageRow,
    dir: Seq<char>,
    rating: int,
    color: Seq<char>,
)
    ensures
        spec_row_matches(cat.library_files@, img, dir, rating, "unpicked"@, color) <==> {
            &&& lf_seq_has_id(cat.library_files@, img.library_file_id)
            &&& cat.library_files@[lf_index_of(
                cat.library_files@,
                img.library_file_id,
            )].file.parent_path@ == dir
            &&& img.rating >= rating
            &&& (color != "none"@ ==> img.color_label@ == color)
        },
{
    assert(!flag_filtered("unpicked"@));
}

/// The result rows of images that all match number exactly the images.
proof fn lemma_query_records_full(
    cat: Catalog,
    imgs: Seq<ImageRow>,
    dir: Seq<char>,
    rating: int,
    flag: Seq<char>,
    color: Seq<char>,
)
    requires
        forall|i: int|
            0 <= i < imgs.len() ==> spec_row_matches(
                cat.library_files@,
                #[trigger] imgs[i],
                dir,
                rating,
                flag,
                color,
            ),
    ensures
        spec_query_records(cat, imgs, dir, rating, flag, color).len() == imgs.len(),
    decreases imgs.len(),
{
    if imgs.len() > 0 {
        let rest = imgs.drop_last();
        lemma_query_records_full(cat, rest, dir, rating, flag, color);
        assert(imgs =~= rest.push(imgs.last()));
        assert(spec_row_matches(
            cat.library_files@,
            imgs[imgs.len() - 1],
            dir,
            rating,
            flag,
            color,
        ));
    }
}

/// The result rows of images of which none matches number zero.
proof fn lemma_query_records_empty(
    cat: Catalog,
    imgs: Seq<ImageRow>,
    dir: Seq<char>,
    rating: int,
    flag: Seq<char>,
    color: Seq<char>,
)
    requires
        forall|i: int|
            0 <= i < imgs.len() ==> !spec_row_matches(
                cat.library_files@,
                #[trigger] imgs[i],
                dir,
                rating,
                flag,
                color,
            ),
    ensures
        spec_query_records(cat, imgs, dir, rating, flag, color).len() == 0,
    decreases imgs.len(),
{
    if imgs.len() > 0 {
        let rest = imgs.drop_last();
        lemma_query_records_empty(cat, rest, dir, rating, flag, color);
        assert(imgs =~= rest.push(imgs.last()));
        assert(!spec_row_matches(
            cat.library_files@,
            imgs[imgs.len() - 1],
            dir,
            rating,
            flag,
            color,
        ));
    }
}

/// Two catalogs under which the same images match alike yield result counts
/// that agree on those images.
proof fn lemma_query_records_len_eq(
    cat1: Catalog,
    cat2: Catalog,
    imgs: Seq<ImageRow>,
    dir: Seq<char>,
    rating: int,
    flag: Seq<char>,
    color: Seq<char>,
)
    requires
        forall|i: int|
            0 <= i < imgs.len() ==> spec_row_matches(
                cat1.library_files@,
                #[trigger] imgs[i],
                dir,
                rating,
                flag,
                color,
            ) == spec_row_matches(cat2.library_files@, imgs[i], dir, rating, flag, color),
    ensures
        spec_query_records(cat1, imgs, dir, rating, flag, color).len() == spec_query_records(
            cat2,
            imgs,
            dir,
            rating,
            flag,
            color,
        ).len(),
    decreases imgs.len(),
{
    if imgs.len() > 0 {
        let rest = imgs.drop_last();
        lemma_query_records_len_eq(cat1, cat2, rest, dir, rating, flag, color);
        assert(imgs =~= rest.push(imgs.last()));
        assert(spec_row_matches(
            cat1.library_files@,
            imgs[imgs.len() - 1],
            dir,
            rating,
            flag,
            color,
        ) == spec_row_matches(
            cat2.library_files@,
            imgs[imgs.len() - 1],
            dir,
            rating,
            flag,
            color,
        ));
    }
}

/// Ingesting files of one directory adds exactly one unrestricted-query row
/// per file, on top of whatever the directory already held. Applied to a
/// directory ingested before, this shows re-ingestion duplicating rows: the
/// catalog holds no content-based deduplication.
pub proof fn lemma_ingest_query_additivity(
    pre: Catalog,
    post: Catalog,
    files: Seq<ScannedFile>,
    dir: Seq<char>,
)
    requires
        pre.wf(),
        ingest_post(pre, post, files),
        forall|k: int| 0 <= k < files.len() ==> (#[trigger] files[k]).file.parent_path@ == dir,
    ensures
        post.spec_query(dir, 0, "unpicked"@, "none"@).len() == pre.spec_query(
            dir,
            0,
            "unpicked"@,
            "none"@,
        ).len() + files.len(),
{
    lemma_ingest_preserves_wf(pre, post, files);
    let im0 = pre.images@.len();
    let lf0 = pre.library_files@.len();
    let old_part = post.images@.take(im0 as int);
    let new_part = post.images@.skip(im0 as int);
    assert(old_part =~= pre.images@);
    assert(post.images@ =~= old_part + new_part);
    // The old images match under the grown catalog exactly as they did before.
    assert forall|i: int| 0 <= i < pre.images@.len() implies spec_row_matches(
        post.library_files@,
        #[trigger] pre.images@[i],
        dir,
        0,
        "unpicked"@,
        "none"@,
    ) == spec_row_matches(pre.library_files@, pre.images@[i], dir, 0, "unpicked"@, "none"@) by {
        let img = pre.images@[i];
        assert(pre.spec_has_library_file(img.library_file_id));
        let j = choose|j: int|
            0 <= j < pre.library_files@.len() && (#[trigger] pre.library_files@[j]).id
                == img.library_file_id;
        assert(post.library_files@[j].id == img.library_file_id);
        assert(lf_seq_has_id(post.library_files@, img.library_file_id));
        assert(lf_seq_has_id(pre.library_files@, img.library_file_id));
        let jpost = lf_index_of(post.library_files@, img.library_file_id);
        let jpre = lf_index_of(pre.library_files@, img.library_file_id);
        assert(post.library_files@[jpost].id == img.library_file_id);
        assert(pre.library_files@[jpre].id == img.library_file_id);
        assert(jpost == j);
        assert(jpre == j);
        assert(post.library_files@[jpost] == pre.library_files@[jpre]);
    }
    lemma_query_records_len_eq(post, pre, pre.images@, dir, 0, "unpicked"@, "none"@);
    // Every newly ingested image matches: its file lies in the directory and
    // its curatorial state is the unrestricted default.
    assert forall|i: int| 0 <= i < new_part.len() implies spec_row_matches(
        post.library_files@,
        #[trigger] new_part[i],
        dir,
        0,
        "unpicked"@,
        "none"@,
    ) by {
        assert(spec_ingested_row(pre, post, files, i));
        let img = post.images@[im0 + i];
        assert(new_part[i] == img);
        assert(post.library_files@[lf0 + i].id == img.library_file_id);
        assert(lf_seq_has_id(post.library_files@, img.library_file_id));
        let jpost = lf_index_of(post.library_files@, img.library_file_id);
        assert(post.library_files@[jpost].id == img.library_file_id);
        assert(jpost == lf0 + i);
        assert(post.library_files@[lf0 + i].file@.parent_path == files[i].file@.parent_path);
        assert(!flag_filtered("unpicked"@));
    }
    lemma_query_records_full(post, new_part, dir, 0, "unpicked"@, "none"@);
    // Filtering distributes over the split into old and new images.
    assert(spec_query_records(post, post.images@, dir, 0, "unpicked"@, "none"@).len()
        == spec_query_records(post, old_part, dir, 0, "unpicked"@, "none"@).len()
        + spec_query_records(post, new_part, dir, 0, "unpicked"@, "none"@).len()) by {
        lemma_filter_add_split(post, old_part, new_part, dir, 0, "unpicked"@, "none"@);
    }
}

/// Result rows over a concatenation are the rows of each part, concatenated.
proof fn lemma_filter_add_split(
    cat: Catalog,
    a: Seq<ImageRow>,
    b: Seq<ImageRow>,
    dir: Seq<char>,
    rating: int,
    flag: Seq<char>,
    color: Seq<char>,
)
    ensures
        spec_query_records(cat, a + b, dir, rating, flag, color) == spec_query_records(
            cat,
            a,
            dir,
            rating,
            flag,
            color,
        ) + spec_query_records(cat, b, dir, rating, flag, color),
    decreases b.len(),
{
    if b.len() == 0 {
        assert(a + b =~= a);
        assert(spec_query_records(cat, a, dir, rating, flag, color) + spec_query_records(
            cat,
            b,
            dir,
            rating,
            flag,
            color,
        ) =~= spec_query_records(cat, a, dir, rating, flag, color));
    } else {
        let b1 = b.drop_last();
        lemma_filter_add_split(cat, a, b1, dir, rating, flag, color);
        assert(a + b =~= (a + b1).push(b.last()));
        assert(b =~= b1.push(b.last()));
        assert(spec_query_records(cat, (a + b1).push(b.last()), dir, rating, flag, color)
            =~= spec_query_records(cat, a, dir, rating, flag, color) + spec_query_records(
            cat,
            b1.push(b.last()),
            dir,
            rating,
            flag,
            color,
        ));
    }
}

/// A freshly scanned directory: ingesting its files and querying with the
/// unrestricted filter returns exactly one row per ingested file.
pub proof fn lemma_fresh_ingest_query_count(
    pre: Catalog,
    post: Catalog,
    files: Seq<ScannedFile>,
    dir: Seq<char>,
)
    requires
        pre.wf(),
        ingest_post(pre, post, files),
        forall|k: int| 0 <= k < files.len() ==> (#[trigger] files[k]).file.parent_path@ == dir,
        !pre.spec_has_images_for_path(dir),
    ensures
        post.spec_query(dir, 0, "unpicked"@, "none"@).len() == files.len(),
{
    assert forall|i: int| 0 <= i < pre.images@.len() implies !spec_row_matches(
        pre.library_files@,
        #[trigger] pre.images@[i],
        dir,
        0,
        "unpicked"@,
        "none"@,
    ) by {
        let img = pre.images@[i];
        if lf_seq_has_id(pre.library_files@, img.library_file_id) {
            let j = lf_index_of(pre.library_files@, img.library_file_id);
            assert(pre.library_files@[j].id == img.library_file_id);
            assert(pre.library_files@[j].file.parent_path@ != dir);
        }
    }
    lemma_query_records_empty(pre, pre.images@, dir, 0, "unpicked"@, "none"@);
    lemma_ingest_query_additivity(pre, post, files, dir);
}

/// A file whose metadata could not be read still yields exactly one image
/// row, whose capture time is the file's creation time.
pub proof fn lemma_unreadable_metadata_fallback(
    pre: Catalog,
    post: Catalog,
    files: Seq<ScannedFile>,
    k: int,
)
    requires
        ingest_post(pre, post, files),
        0 <= k < files.len(),
        files[k].meta is None,
    ensures
        post.images@.len() == pre.images@.len() + files.len(),
        post.images@[pre.images@.len() + k].capture_time@ == files[k].file.file_created_time@,
{
    assert(spec_ingested_row(pre, post, files, k));
}

/// The distinct elements of a sequence are exactly the elements it contains.
proof fn lemma_dedup_first_contains(s: Seq<Seq<char>>, x: Seq<char>)
    ensures
        dedup_first(s).contains(x) == s.contains(x),
    decreases s.len(),
{
    if s.len() > 0 {
        let rest = s.drop_last();
        lemma_dedup_first_contains(rest, x);
        if s.contains(x) {
            let i = choose|i: int| 0 <= i < s.len() && s[i] == x;
            if i < s.len() - 1 {
                assert(rest[i] == x);
                assert(rest.contains(x));
            }
            if x == s.last() && !dedup_first(rest).contains(x) {
                assert(dedup_first(s) == dedup_first(rest).push(s.last()));
                assert(dedup_first(s).last() == x);
            }
        }
        if rest.contains(x) {
            let i = choose|i: int| 0 <= i < rest.len() && rest[i] == x;
            assert(s[i] == x);
        }
    }
}

/// Tag rows of which none names the keyword on the image survive its removal
/// unchanged.
proof fn lemma_tags_without_none_match(tags: Seq<TagV>, image_id: int, name: Seq<char>)
    requires
        forall|i: int|
            0 <= i < tags.len() ==> !((#[trigger] tags[i]).image_id == image_id && tags[i].name
                == name),
    ensures
        spec_tags_without(tags, image_id, name) == tags,
    decreases tags.len(),
{
    if tags.len() > 0 {
        let rest = tags.drop_last();
        lemma_tags_without_none_match(rest, image_id, name);
        assert(tags =~= rest.push(tags.last()));
        assert(!(tags[tags.len() - 1].image_id == image_id && tags[tags.len() - 1].name
            == name));
        assert(spec_tags_without(tags, image_id, name) =~= tags);
    }
}

/// Adding a novel keyword grows the distinct-keyword list by exactly one and
/// makes it contain the keyword; removing that keyword afterwards restores
/// the tag names, and with them the distinct-keyword list, exactly.
pub proof fn lemma_keyword_round_trip(
    c0: Catalog,
    c1: Catalog,
    c2: Catalog,
    path: Seq<char>,
    kw: Seq<char>,
)
    requires
        !c0.spec_tag_names().contains(kw),
        add_keyword_post(c0, c1, path, kw),
        remove_keyword_post(c1, c2, path, kw),
    ensures
        dedup_first(c1.spec_tag_names()).len() == dedup_first(c0.spec_tag_names()).len() + 1,
        dedup_first(c1.spec_tag_names()).contains(kw),
        c2.spec_tag_names() == c0.spec_tag_names(),
{
    assert(c0.spec_resolve_image(path) is Some);
    lemma_resolve_in_range(c0, path, 0);
    let i0 = c0.spec_resolve_image(path)->0;
    let id = c0.images@[i0]@.id;
    let names0 = c0.spec_tag_names();
    let names1 = c1.spec_tag_names();
    let tv0 = crate::catalog::tags_view(c0.tags@);
    let tv1 = crate::catalog::tags_view(c1.tags@);
    // The names after the addition are the old names with the keyword appended.
    assert(tv1 == tv0.push(TagV { image_id: id, name: kw }));
    assert(names1.len() == tv1.len());
    assert(names0.len() == tv0.len());
    assert forall|k: int| 0 <= k < names1.len() implies names1[k] == names0.push(kw)[k] by {
        assert(names1[k] == tv1[k].name);
        if k < tv0.len() {
            assert(tv1[k] == tv0[k]);
            assert(names0[k] == tv0[k].name);
            assert(names0.push(kw)[k] == names0[k]);
        } else {
            assert(tv1[k].name == kw);
            assert(names0.push(kw)[k] == kw);
        }
    }
    assert(tv1.len() == tv0.len() + 1);
    assert(names1 =~= names0.push(kw));
    // The keyword being novel, it survives deduplication as one new element.
    lemma_dedup_first_contains(names0, kw);
    assert(names0.push(kw).drop_last() =~= names0);
    assert(dedup_first(names1) == dedup_first(names0).push(kw));
    lemma_dedup_first_contains(names1, kw);
    assert(names1.last() == kw);
    assert(names1.contains(kw));
    // Removal deletes exactly the appended row: no older row names the
    // keyword on any image.
    assert(c1.spec_resolve_image(path) == c0.spec_resolve_image(path)) by {
        assert(c1.images@ == c0.images@);
        assert(c1.library_files@ == c0.library_files@);
        lemma_resolve_same(c0, c1, path, 0);
    }
    assert forall|i: int| 0 <= i < tv0.len() implies !((#[trigger] tv0[i]).image_id == id
        && tv0[i].name == kw) by {
        if tv0[i].name == kw {
            assert(names0[i] == kw);
            assert(names0.contains(kw));
        }
    }
    assert(c1.spec_resolve_image(path) is Some);
    assert(c1.images@[c1.spec_resolve_image(path)->0]@.id == id);
    assert(tv1 =~= tv0.push(TagV { image_id: id, name: kw }));
    assert(spec_tags_without(tv1, id, kw) =~= spec_tags_without(tv0, id, kw)) by {
        assert(!(!(TagV { image_id: id, name: kw }.image_id == id && TagV {
            image_id: id,
            name: kw,
        }.name == kw)));
    }
    lemma_tags_without_none_match(tv0, id, kw);
    // Equal tag views give equal tag names.
    let tv2 = crate::catalog::tags_view(c2.tags@);
    assert(tv2 == tv0);
    assert forall|k: int| 0 <= k < c2.spec_tag_names().len() implies c2.spec_tag_names()[k]
        == names0[k] by {
        assert(tv2[k] == tv0[k]);
        assert(c2.spec_tag_names()[k] == tv2[k].name);
        assert(names0[k] == tv0[k].name);
    }
    assert(tv2.len() == tv0.len());
    assert(c2.spec_tag_names() =~= names0);
}

/// A resolved index lies among the image rows.
proof fn lemma_resolve_in_range(c: Catalog, path: Seq<char>, i: int)
    requires
        0 <= i <= c.images@.len(),
        c.spec_resolve_from(path, i) is Some,
    ensures
        i <= c.spec_resolve_from(path, i)->0 < c.images@.len(),
    decreases c.images@.len() - i,
{
    if i < c.images@.len() && !c.spec_image_path_matches(i, path) {
        lemma_resolve_in_range(c, path, i + 1);
    }
}

/// Resolution depends only on the images and library files, which the
/// keyword operations leave untouched.
proof fn lemma_resolve_same(c0: Catalog, c1: Catalog, path: Seq<char>, i: int)
    requires
        c1.images@ == c0.images@,
        c1.library_files@ == c0.library_files@,
        0 <= i <= c0.images@.len(),
    ensures
        c1.spec_resolve_from(path, i) == c0.spec_resolve_from(path, i),
    decreases c0.images@.len() - i,
{
    if i < c0.images@.len() {
        lemma_resolve_same(c0, c1, path, i + 1);
    }
}

} // verus!
