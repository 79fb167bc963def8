//! Builders for the parameterized statements the store executes.
//!
//! Every statement is a single text together with the ordered list of values
//! bound to its placeholders. A conditional predicate is appended to the text
//! and its value to the binds in one step, from one list, so the two can
//! never fall out of alignment.

use vstd::prelude::*;

verus! {

use crate::catalog::Filter;
use crate::catalog::LibraryFile;

/// A value bound to one `?` placeholder.
pub enum BindValue {
    Int(i64),
    Uint(u32),
    Text(String),
}

/// The mathematical shape of a bound value.
pub ghost enum BindV {
    Int(int),
    Uint(int),
    Text(Seq<char>),
}

impl View for BindValue {
    type V = BindV;

    open spec fn view(&self) -> BindV {
        match self {
            BindValue::Int(v) => BindV::Int(*v as int),
            BindValue::Uint(v) => BindV::Uint(*v as int),
            BindValue::Text(s) => BindV::Text(s@),
        }
    }
}

/// The bound values of a statement, as their mathematical shapes, in order.
pub open spec fn binds_view(binds: Seq<BindValue>) -> Seq<BindV> {
    binds.map_values(|b: BindValue| b@)
}

/// One parameterized statement: its text and, in placeholder order, its binds.
pub struct Stmt {
    pub text: String,
    pub binds: Vec<BindValue>,
}

/// Why a query could not be built.
#[derive(Debug)]
pub enum QueryError {
    /// The sort key is not a column of the result rows.
    UnknownSortKey,
    /// The sort direction is neither `asc` nor `desc`.
    UnknownSortOrder,
}

/// The flag filter restricts only when it is not the `"unpicked"` sentinel.
pub open spec fn flag_filtered(flag: Seq<char>) -> bool {
    flag != "unpicked"@
}

/// The color filter restricts only when it is not the `"none"` sentinel.
pub open spec fn color_filtered(color: Seq<char>) -> bool {
    color != "none"@
}

/// The columns of a result row that a caller may sort by.
pub open spec fn spec_is_sort_key(k: Seq<char>) -> bool {
    ||| k == "rating"@
    ||| k == "capture_time"@
    ||| k == "file_created_time"@
    ||| k == "original_file_name"@
    ||| k == "extension"@
    ||| k == "path"@
    ||| k == "parent_path"@
    ||| k == "flag"@
    ||| k == "color_label"@
}

/// The accepted sort directions.
pub open spec fn spec_is_sort_dir(d: Seq<char>) -> bool {
    d == "asc"@ || d == "desc"@
}

/// The text of the image query: the joined base restricted by parent path and
/// minimum rating, the two optional exact-match predicates, per-image
/// grouping, and the optional order clause.
pub open spec fn images_query_text(
    flag_on: bool,
    color_on: bool,
    sort_key: Seq<char>,
    sort_dir: Seq<char>,
) -> Seq<char> {
    "select *, json_group_array(t.tag_name) as tags from library_file as lf join image as i on lf.id == i.library_file_id left join tag as t on t.image_id = i.id where lf.parent_path=? and i.rating >= ?"@
        + (if flag_on {
        " and i.flag=?"@
    } else {
        Seq::empty()
    }) + (if color_on {
        " and i.color_label=?"@
    } else {
        Seq::empty()
    }) + " group by i.id"@ + (if sort_key == "default"@ {
        Seq::empty()
    } else {
        " order by "@ + sort_key + " "@ + sort_dir
    })
}

/// The binds of the image query, in the same order as its placeholders.
pub open spec fn images_query_binds(
    path: Seq<char>,
    rating: int,
    flag: Seq<char>,
    color: Seq<char>,
) -> Seq<BindV> {
    seq![BindV::Text(path), BindV::Uint(rating)] + (if flag_filtered(flag) {
        seq![BindV::Text(flag)]
    } else {
        Seq::empty()
    }) + (if color_filtered(color) {
        seq![BindV::Text(color)]
    } else {
        Seq::empty()
    })
}

/// Exact string comparison.
pub fn str_eq(a: &str, b: &str) -> (r: bool)
    ensures
        r == (a@ == b@),
{
    let sa = String::from_str(a);
    let sb = String::from_str(b);
    sa == sb
}

/// Whether the text is an accepted sort key.
pub(crate) fn is_sort_key(k: &str) -> (r: bool)
    ensures
        r == spec_is_sort_key(k@),
{
    ||| str_eq(k, "rating")
    ||| str_eq(k, "capture_time")
    ||| str_eq(k, "file_created_time")
    ||| str_eq(k, "original_file_name")
    ||| str_eq(k, "extension")
    ||| str_eq(k, "path")
    ||| str_eq(k, "parent_path")
    ||| str_eq(k, "flag")
    ||| str_eq(k, "color_label")
}

/// Whether the text is an accepted sort direction.
pub(crate) fn is_sort_dir(d: &str) -> (r: bool)
    ensures
        r == spec_is_sort_dir(d@),
{
    str_eq(d, "asc") || str_eq(d, "desc")
}

/// Builds the image query for one directory.
///
/// The sort key `"default"` disables ordering. Any other key must be a column
/// of the result rows and the direction must be `asc` or `desc`: both are
/// checked before the key is interpolated into the text, so no caller-chosen
/// text reaches the store unvalidated. Every conditional predicate appends
/// its bound value in the same step, keeping text and binds aligned.
pub fn get_images_query(
    path: &str,
    sort_option: &str,
    sort_order: &str,
    filter: &Filter,
) -> (r: Result<Stmt, QueryError>)
    ensures
        match r {
            Ok(stmt) => {
                &&& sort_option@ == "default"@ || (spec_is_sort_key(sort_option@)
                    && spec_is_sort_dir(sort_order@))
                &&& stmt.text@ == images_query_text(
                    flag_filtered(filter.flag@),
                    color_filtered(filter.color_label@),
                    sort_option@,
                    sort_order@,
                )
                &&& binds_view(stmt.binds@) == images_query_binds(
                    path@,
                    filter.rating as int,
                    filter.flag@,
                    filter.color_label@,
                )
            },
            Err(QueryError::UnknownSortKey) => sort_option@ != "default"@ && !spec_is_sort_key(
                sort_option@,
            ),
            Err(QueryError::UnknownSortOrder) => sort_option@ != "default"@ && spec_is_sort_key(
                sort_option@,
            ) && !spec_is_sort_dir(sort_order@),
        },
{
    let sorted = !str_eq(sort_option, "default");
    if sorted && !is_sort_key(sort_option) {
        return Err(QueryError::UnknownSortKey);
    }
    if sorted && !is_sort_dir(sort_order) {
        return Err(QueryError::UnknownSortOrder);
    }
    let mut text = String::from_str(
        "select *, json_group_array(t.tag_name) as tags from library_file as lf join image as i on lf.id == i.library_file_id left join tag as t on t.image_id = i.id where lf.parent_path=? and i.rating >= ?",
    );
    let mut binds: Vec<BindValue> = Vec::new();
    binds.push(BindValue::Text(String::from_str(path)));
    binds.push(BindValue::Uint(filter.rating));
    if !str_eq(filter.flag.as_str(), "unpicked") {
        text.append(" and i.flag=?");
        binds.push(BindValue::Text(filter.flag.clone()));
    }
    if !str_eq(filter.color_label.as_str(), "none") {
        text.append(" and i.color_label=?");
        binds.push(BindValue::Text(filter.color_label.clone()));
    }
    text.append(" group by i.id");
    if sorted {
        text.append(" order by ");
        text.append(sort_option);
        text.append(" ");
        text.append(sort_order);
    }
    proof {
        assert(text@ =~= images_query_text(
            flag_filtered(filter.flag@),
            color_filtered(filter.color_label@),
            sort_option@,
            sort_order@,
        ));
        assert(binds_view(binds@) =~= images_query_binds(
            path@,
            filter.rating as int,
            filter.flag@,
            filter.color_label@,
        ));
    }
    Ok(Stmt { text, binds })
}

/// The two sparse attribute tables a metadata insert can target.
#[derive(Clone, Copy)]
pub enum MetaTable {
    Exif,
    Iptc,
}

/// The table name a metadata insert is addressed to.
pub open spec fn meta_table_name(t: MetaTable) -> Seq<char> {
    match t {
        MetaTable::Exif => "exif"@,
        MetaTable::Iptc => "iptc"@,
    }
}

/// The column clause of a sparse insert: each present column followed by a
/// comma, so that the fixed `image_id` column can close the list.
pub open spec fn cols_clause(cols: Seq<Seq<char>>) -> Seq<char>
    decreases cols.len(),
{
    if cols.len() == 0 {
        Seq::empty()
    } else {
        cols_clause(cols.drop_last()) + cols.last() + ", "@
    }
}

/// `n` placeholders, each followed by a comma, so that the fixed `image_id`
/// placeholder can close the list.
pub open spec fn placeholders(n: nat) -> Seq<char>
    decreases n,
{
    if n == 0 {
        Seq::empty()
    } else {
        placeholders((n - 1) as nat) + "?, "@
    }
}

/// The text of a sparse metadata insert: exactly the present columns, then
/// `image_id`, with one placeholder for each.
pub open spec fn insert_meta_text(t: MetaTable, cols: Seq<Seq<char>>) -> Seq<char> {
    "INSERT INTO "@ + meta_table_name(t) + " ("@ + cols_clause(cols) + "image_id) VALUES ("@
        + placeholders(cols.len()) + "?)"@
}

proof fn lemma_cols_clause_push(cols: Seq<Seq<char>>, c: Seq<char>)
    ensures
        cols_clause(cols.push(c)) == cols_clause(cols) + c + ", "@,
{
    assert(cols.push(c).drop_last() =~= cols);
}

/// Builds the insert of one sparse metadata row: the given (column, value)
/// pairs — exactly the attributes that resolved — and the owning image's id.
///
/// Column clause, placeholder clause and bound values are all derived from
/// the one `values` list, in one pass, so the three stay in lock-step: the
/// statement has `values.len() + 1` placeholders and as many binds, and the
/// k-th placeholder receives the value of the k-th column.
pub fn insert_meta_stmt(table: MetaTable, image_id: i64, values: &Vec<(String, String)>) -> (stmt:
    Stmt)
    ensures
        stmt.text@ == insert_meta_text(
            table,
            values@.map_values(|p: (String, String)| p.0@),
        ),
        binds_view(stmt.binds@) == values@.map_values(|p: (String, String)| BindV::Text(p.1@)).push(
            BindV::Int(image_id as int),
        ),
{
    let ghost cols: Seq<Seq<char>> = values@.map_values(|p: (String, String)| p.0@);
    let ghost vals: Seq<BindV> = values@.map_values(|p: (String, String)| BindV::Text(p.1@));
    let mut col_text = String::new();
    let mut mark_text = String::new();
    let mut binds: Vec<BindValue> = Vec::new();
    let mut i: usize = 0;
    while i < values.len()
        invariant
            i <= values@.len(),
            cols == values@.map_values(|p: (String, String)| p.0@),
            vals == values@.map_values(|p: (String, String)| BindV::Text(p.1@)),
            col_text@ == cols_clause(cols.take(i as int)),
            mark_text@ == placeholders(i as nat),
            binds_view(binds@) =~= vals.take(i as int),
        decreases values@.len() - i,
    {
        let p = &values[i];
        col_text.append(p.0.as_str());
        col_text.append(", ");
        mark_text.append("?, ");
        binds.push(BindValue::Text(p.1.clone()));
        proof {
            assert(cols.take(i + 1 as int) =~= cols.take(i as int).push(cols[i as int]));
            lemma_cols_clause_push(cols.take(i as int), cols[i as int]);
            assert(vals.take(i + 1 as int) =~= vals.take(i as int).push(vals[i as int]));
        }
        i = i + 1;
    }
    proof {
        assert(cols.take(values@.len() as int) =~= cols);
        assert(vals.take(values@.len() as int) =~= vals);
    }
    binds.push(BindValue::Int(image_id));
    let mut text = String::from_str("INSERT INTO ");
    match table {
        MetaTable::Exif => text.append("exif"),
        MetaTable::Iptc => text.append("iptc"),
    }
    text.append(" (");
    text.append(col_text.as_str());
    text.append("image_id) VALUES (");
    text.append(mark_text.as_str());
    text.append("?)");
    proof {
        assert(text@ =~= insert_meta_text(table, cols));
        assert(binds_view(binds@) =~= vals.push(BindV::Int(image_id as int)));
    }
    Stmt { text, binds }
}

/// The counting statement behind `has_images_for_path`.
pub fn has_images_stmt(folder_path: &str) -> (stmt: Stmt)
    ensures
        stmt.text@ == "select count(*) as count from library_file where parent_path=$1"@,
        binds_view(stmt.binds@) =~= seq![BindV::Text(folder_path@)],
{
    let mut binds: Vec<BindValue> = Vec::new();
    binds.push(BindValue::Text(String::from_str(folder_path)));
    Stmt {
        text: String::from_str("select count(*) as count from library_file where parent_path=$1"),
        binds,
    }
}

/// The insert of one library-file row.
pub fn insert_library_file_stmt(file: &LibraryFile) -> (stmt: Stmt)
    ensures
        stmt.text@
            == "INSERT INTO library_file (original_file_name, base_name, extension, file_created_time, file_modified_time, path, parent_path) values (?, ?, ?, ?, ?, ?, ?)"@,
        binds_view(stmt.binds@) =~= seq![
            BindV::Text(file.original_file_name@),
            BindV::Text(file.base_name@),
            BindV::Text(file.extension@),
            BindV::Text(file.file_created_time@),
            BindV::Text(file.file_modified_time@),
            BindV::Text(file.path@),
            BindV::Text(file.parent_path@),
        ],
{
    let mut binds: Vec<BindValue> = Vec::new();
    binds.push(BindValue::Text(file.original_file_name.clone()));
    binds.push(BindValue::Text(file.base_name.clone()));
    binds.push(BindValue::Text(file.extension.clone()));
    binds.push(BindValue::Text(file.file_created_time.clone()));
    binds.push(BindValue::Text(file.file_modified_time.clone()));
    binds.push(BindValue::Text(file.path.clone()));
    binds.push(BindValue::Text(file.parent_path.clone()));
    Stmt {
        text: String::from_str(
            "INSERT INTO library_file (original_file_name, base_name, extension, file_created_time, file_modified_time, path, parent_path) values (?, ?, ?, ?, ?, ?, ?)",
        ),
        binds,
    }
}

/// The insert of one image row referencing its library file.
pub fn insert_image_stmt(library_file_id: i64, capture_time: &str) -> (stmt: Stmt)
    ensures
        stmt.text@ == "INSERT INTO image (library_file_id, capture_time) values (?, ?)"@,
        binds_view(stmt.binds@) =~= seq![
            BindV::Int(library_file_id as int),
            BindV::Text(capture_time@),
        ],
{
    let mut binds: Vec<BindValue> = Vec::new();
    binds.push(BindValue::Int(library_file_id));
    binds.push(BindValue::Text(String::from_str(capture_time)));
    Stmt {
        text: String::from_str("INSERT INTO image (library_file_id, capture_time) values (?, ?)"),
        binds,
    }
}

/// The distinct-keyword listing.
pub fn get_keywords_stmt() -> (stmt: Stmt)
    ensures
        stmt.text@ == "SELECT DISTINCT tag_name from tag"@,
        binds_view(stmt.binds@) =~= Seq::<BindV>::empty(),
{
    Stmt { text: String::from_str("SELECT DISTINCT tag_name from tag"), binds: Vec::new() }
}

/// The lookup that resolves an image path to the image's id.
pub fn image_id_from_path_stmt(image_path: &str) -> (stmt: Stmt)
    ensures
        stmt.text@
            == "Select image.id from image left join library_file on image.library_file_id=library_file.id where library_file.path=$1"@,
        binds_view(stmt.binds@) =~= seq![BindV::Text(image_path@)],
{
    let mut binds: Vec<BindValue> = Vec::new();
    binds.push(BindValue::Text(String::from_str(image_path)));
    Stmt {
        text: String::from_str(
            "Select image.id from image left join library_file on image.library_file_id=library_file.id where library_file.path=$1",
        ),
        binds,
    }
}

/// The insert of one tag row.
pub fn add_keyword_stmt(image_id: i64, keyword: &str) -> (stmt: Stmt)
    ensures
        stmt.text@ == "INSERT into tag (image_id, tag_name) values (?, ?)"@,
        binds_view(stmt.binds@) =~= seq![BindV::Int(image_id as int), BindV::Text(keyword@)],
{
    let mut binds: Vec<BindValue> = Vec::new();
    binds.push(BindValue::Int(image_id));
    binds.push(BindValue::Text(String::from_str(keyword)));
    Stmt {
        text: String::from_str("INSERT into tag (image_id, tag_name) values (?, ?)"),
        binds,
    }
}

/// The delete of every tag row of one image with an exact name match.
pub fn remove_keyword_stmt(image_id: i64, keyword: &str) -> (stmt: Stmt)
    ensures
        stmt.text@ == "DELETE from tag where image_id=$1 and tag_name=$2"@,
        binds_view(stmt.binds@) =~= seq![BindV::Int(image_id as int), BindV::Text(keyword@)],
{
    let mut binds: Vec<BindValue> = Vec::new();
    binds.push(BindValue::Int(image_id));
    binds.push(BindValue::Text(String::from_str(keyword)));
    Stmt {
        text: String::from_str("DELETE from tag where image_id=$1 and tag_name=$2"),
        binds,
    }
}

/// The rating update of the image resolved through its file's path.
pub fn update_image_rating_stmt(image_path: &str, rating: u32) -> (stmt: Stmt)
    ensures
        stmt.text@
            == "UPDATE image set rating=? from library_file lf where lf.id=image.library_file_id and lf.path=?"@,
        binds_view(stmt.binds@) =~= seq![BindV::Uint(rating as int), BindV::Text(image_path@)],
{
    let mut binds: Vec<BindValue> = Vec::new();
    binds.push(BindValue::Uint(rating));
    binds.push(BindValue::Text(String::from_str(image_path)));
    Stmt {
        text: String::from_str(
            "UPDATE image set rating=? from library_file lf where lf.id=image.library_file_id and lf.path=?",
        ),
        binds,
    }
}

/// The color-label update of the image resolved through its file's path.
pub fn update_color_label_stmt(image_path: &str, color_label: &str) -> (stmt: Stmt)
    ensures
        stmt.text@
            == "UPDATE image set color_label=? from library_file lf where lf.id=image.library_file_id and lf.path=?"@,
        binds_view(stmt.binds@) =~= seq![
            BindV::Text(color_label@),
            BindV::Text(image_path@),
        ],
{
    let mut binds: Vec<BindValue> = Vec::new();
    binds.push(BindValue::Text(String::from_str(color_label)));
    binds.push(BindValue::Text(String::from_str(image_path)));
    Stmt {
        text: String::from_str(
            "UPDATE image set color_label=? from library_file lf where lf.id=image.library_file_id and lf.path=?",
        ),
        binds,
    }
}

/// The flag update of the image resolved through its file's path.
pub fn update_flag_stmt(image_path: &str, flag: &str) -> (stmt: Stmt)
    ensures
        stmt.text@
            == "UPDATE image set flag=? from library_file lf where lf.id=image.library_file_id and lf.path=?"@,
        binds_view(stmt.binds@) =~= seq![BindV::Text(flag@), BindV::Text(image_path@)],
{
    let mut binds: Vec<BindValue> = Vec::new();
    binds.push(BindValue::Text(String::from_str(flag)));
    binds.push(BindValue::Text(String::from_str(image_path)));
    Stmt {
        text: String::from_str(
            "UPDATE image set flag=? from library_file lf where lf.id=image.library_file_id and lf.path=?",
        ),
        binds,
    }
}

} // verus!
