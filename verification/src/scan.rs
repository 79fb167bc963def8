//! Directory-scan support: deciding which files are images and deriving the
//! catalog attributes of a file from its path and filesystem timestamps.

use vstd::prelude::*;

verus! {

use crate::catalog::LibraryFile;

/// Lower-cases an ASCII letter's code point; leaves every other code point as is.
pub open spec fn lower_code(c: char) -> u32 {
    if 65 <= c as u32 && c as u32 <= 90 {
        (c as u32 + 32) as u32
    } else {
        c as u32
    }
}

/// Character sequences equal up to ASCII case.
pub open spec fn eq_ignore_ascii_case(a: Seq<char>, b: Seq<char>) -> bool {
    a.len() == b.len() && forall|i: int|
        0 <= i < a.len() ==> lower_code(#[trigger] a[i]) == lower_code(b[i])
}

/// The file-name component of a path: everything after the last `/`,
/// or the whole path when it has no `/`.
pub open spec fn spec_file_name(p: Seq<char>) -> Seq<char> {
    match p.index_of_last('/') {
        Some(i) => p.skip(i + 1),
        None => p,
    }
}

/// The extension of a path: everything after the last `.` of the file-name
/// component. A name without a `.`, or whose only `.` starts it, has none.
pub open spec fn spec_extension(p: Seq<char>) -> Option<Seq<char>> {
    let name = spec_file_name(p);
    match name.index_of_last('.') {
        Some(i) => if i == 0 {
            None
        } else {
            Some(name.skip(i + 1))
        },
        None => None,
    }
}

/// The file-name component with its extension (and the `.` before it) removed.
pub open spec fn spec_base_name(p: Seq<char>) -> Seq<char> {
    let name = spec_file_name(p);
    match name.index_of_last('.') {
        Some(i) => if i == 0 {
            name
        } else {
            name.take(i)
        },
        None => name,
    }
}

/// The directory part of a path: everything before the last `/`,
/// empty when the path has no `/`.
pub open spec fn spec_parent(p: Seq<char>) -> Seq<char> {
    match p.index_of_last('/') {
        Some(i) => p.take(i),
        None => Seq::empty(),
    }
}

/// Extensions of the standard raster formats, matched case-insensitively.
pub open spec fn spec_is_regular_ext(e: Seq<char>) -> bool {
    ||| eq_ignore_ascii_case(e, "jpg"@)
    ||| eq_ignore_ascii_case(e, "png"@)
    ||| eq_ignore_ascii_case(e, "tif"@)
    ||| eq_ignore_ascii_case(e, "jpeg"@)
    ||| eq_ignore_ascii_case(e, "jpe"@)
    ||| eq_ignore_ascii_case(e, "gif"@)
    ||| eq_ignore_ascii_case(e, "bmp"@)
    ||| eq_ignore_ascii_case(e, "webp"@)
    ||| eq_ignore_ascii_case(e, "tiff"@)
}

/// Extensions of the vendor raw-camera formats, matched case-insensitively.
pub open spec fn spec_is_raw_ext(e: Seq<char>) -> bool {
    ||| eq_ignore_ascii_case(e, "raf"@)
    ||| eq_ignore_ascii_case(e, "cr2"@)
    ||| eq_ignore_ascii_case(e, "mrw"@)
    ||| eq_ignore_ascii_case(e, "arw"@)
    ||| eq_ignore_ascii_case(e, "srf"@)
    ||| eq_ignore_ascii_case(e, "sr2"@)
    ||| eq_ignore_ascii_case(e, "mef"@)
    ||| eq_ignore_ascii_case(e, "orf"@)
    ||| eq_ignore_ascii_case(e, "srw"@)
    ||| eq_ignore_ascii_case(e, "erf"@)
    ||| eq_ignore_ascii_case(e, "kdc"@)
    ||| eq_ignore_ascii_case(e, "dcs"@)
    ||| eq_ignore_ascii_case(e, "rw2"@)
    ||| eq_ignore_ascii_case(e, "dcr"@)
    ||| eq_ignore_ascii_case(e, "dng"@)
    ||| eq_ignore_ascii_case(e, "pef"@)
    ||| eq_ignore_ascii_case(e, "crw"@)
    ||| eq_ignore_ascii_case(e, "raw"@)
    ||| eq_ignore_ascii_case(e, "iiq"@)
    ||| eq_ignore_ascii_case(e, "3rf"@)
    ||| eq_ignore_ascii_case(e, "nrw"@)
    ||| eq_ignore_ascii_case(e, "nef"@)
    ||| eq_ignore_ascii_case(e, "mos"@)
    ||| eq_ignore_ascii_case(e, "ari"@)
}

/// A path names a standard raster image when its extension is in the
/// raster allow-list. A path without an extension never does.
pub open spec fn spec_is_regular_image(p: Seq<char>) -> bool {
    match spec_extension(p) {
        Some(e) => spec_is_regular_ext(e),
        None => false,
    }
}

/// A path names a raw camera image when its extension is in the raw allow-list.
pub open spec fn spec_is_raw_image(p: Seq<char>) -> bool {
    match spec_extension(p) {
        Some(e) => spec_is_raw_ext(e),
        None => false,
    }
}

/// A path names an image file when either allow-list admits its extension.
pub open spec fn spec_is_image_file(p: Seq<char>) -> bool {
    spec_is_regular_image(p) || spec_is_raw_image(p)
}

/// Index of the last occurrence of `c` in `s`, if any.
fn last_index_of_char(s: &str, c: char) -> (r: Option<usize>)
    ensures
        match r {
            Some(i) => s@.index_of_last(c) == Some(i as int),
            None => s@.index_of_last(c) is None,
        },
{
    let n: usize = s.unicode_len();
    let mut found: Option<usize> = None;
    let mut i: usize = 0;
    while i < n
        invariant
            n == s@.len(),
            i <= n,
            match found {
                Some(k) => k < i && s@[k as int] == c && forall|j: int|
                    k < j < i ==> s@[j] != c,
                None => forall|j: int| 0 <= j < i ==> s@[j] != c,
            },
        decreases n - i,
    {
        if s.get_char(i) == c {
            found = Some(i);
        }
        i = i + 1;
    }
    proof {
        s@.index_of_last_ensures(c);
    }
    found
}

/// The file-name component of a path.
pub fn file_name_of(path: &str) -> (r: String)
    ensures
        r@ == spec_file_name(path@),
{
    let n: usize = path.unicode_len();
    match last_index_of_char(path, '/') {
        Some(i) => {
            proof {
                path@.index_of_last_ensures('/');
            }
            let part = path.substring_char(i + 1, n);
            String::from_str(part)
        },
        None => String::from_str(path),
    }
}

/// The extension of a path, under the same rule as `spec_extension`.
pub fn extension_of(path: &str) -> (r: Option<String>)
    ensures
        match r {
            Some(e) => spec_extension(path@) == Some(e@),
            None => spec_extension(path@) is None,
        },
{
    let name = file_name_of(path);
    let name_str = name.as_str();
    let n: usize = name_str.unicode_len();
    match last_index_of_char(name_str, '.') {
        Some(i) => {
            proof {
                name_str@.index_of_last_ensures('.');
            }
            if i == 0 {
                None
            } else {
                let part = name_str.substring_char(i + 1, n);
                Some(String::from_str(part))
            }
        },
        None => None,
    }
}

/// The file-name component with the extension removed.
pub fn base_name_of(path: &str) -> (r: String)
    ensures
        r@ == spec_base_name(path@),
{
    let name = file_name_of(path);
    let name_str = name.as_str();
    match last_index_of_char(name_str, '.') {
        Some(i) => {
            proof {
                name_str@.index_of_last_ensures('.');
            }
            if i == 0 {
                name
            } else {
                let part = name_str.substring_char(0, i);
                String::from_str(part)
            }
        },
        None => name,
    }
}

/// The directory part of a path.
pub fn parent_of(path: &str) -> (r: String)
    ensures
        r@ == spec_parent(path@),
{
    match last_index_of_char(path, '/') {
        Some(i) => {
            proof {
                path@.index_of_last_ensures('/');
            }
            let part = path.substring_char(0, i);
            String::from_str(part)
        },
        None => {
            let r = String::new();
            proof {
                assert(r@ =~= spec_parent(path@));
            }
            r
        },
    }
}

/// Case-insensitive ASCII comparison of two strings.
fn str_eq_ignore_case(a: &str, b: &str) -> (r: bool)
    ensures
        r == eq_ignore_ascii_case(a@, b@),
{
    let an: usize = a.unicode_len();
    let bn: usize = b.unicode_len();
    if an != bn {
        return false;
    }
    let mut i: usize = 0;
    while i < an
        invariant
            an == a@.len(),
            bn == b@.len(),
            an == bn,
            i <= an,
            forall|j: int| 0 <= j < i ==> lower_code(#[trigger] a@[j]) == lower_code(b@[j]),
        decreases an - i,
    {
        let ca: u32 = a.get_char(i) as u32;
        let cb: u32 = b.get_char(i) as u32;
        let la: u32 = if 65 <= ca && ca <= 90 {
            ca + 32
        } else {
            ca
        };
        let lb: u32 = if 65 <= cb && cb <= 90 {
            cb + 32
        } else {
            cb
        };
        if la != lb {
            return false;
        }
        i = i + 1;
    }
    true
}

/// Whether the extension is one of the standard raster formats.
fn is_regular_ext(e: &str) -> (r: bool)
    ensures
        r == spec_is_regular_ext(e@),
{
    ||| str_eq_ignore_case(e, "jpg")
    ||| str_eq_ignore_case(e, "png")
    ||| str_eq_ignore_case(e, "tif")
    ||| str_eq_ignore_case(e, "jpeg")
    ||| str_eq_ignore_case(e, "jpe")
    ||| str_eq_ignore_case(e, "gif")
    ||| str_eq_ignore_case(e, "bmp")
    ||| str_eq_ignore_case(e, "webp")
    ||| str_eq_ignore_case(e, "tiff")
}

/// Whether the extension is one of the vendor raw formats.
fn is_raw_ext(e: &str) -> (r: bool)
    ensures
        r == spec_is_raw_ext(e@),
{
    ||| str_eq_ignore_case(e, "raf")
    ||| str_eq_ignore_case(e, "cr2")
    ||| str_eq_ignore_case(e, "mrw")
    ||| str_eq_ignore_case(e, "arw")
    ||| str_eq_ignore_case(e, "srf")
    ||| str_eq_ignore_case(e, "sr2")
    ||| str_eq_ignore_case(e, "mef")
    ||| str_eq_ignore_case(e, "orf")
    ||| str_eq_ignore_case(e, "srw")
    ||| str_eq_ignore_case(e, "erf")
    ||| str_eq_ignore_case(e, "kdc")
    ||| str_eq_ignore_case(e, "dcs")
    ||| str_eq_ignore_case(e, "rw2")
    ||| str_eq_ignore_case(e, "dcr")
    ||| str_eq_ignore_case(e, "dng")
    ||| str_eq_ignore_case(e, "pef")
    ||| str_eq_ignore_case(e, "crw")
    ||| str_eq_ignore_case(e, "raw")
    ||| str_eq_ignore_case(e, "iiq")
    ||| str_eq_ignore_case(e, "3rf")
    ||| str_eq_ignore_case(e, "nrw")
    ||| str_eq_ignore_case(e, "nef")
    ||| str_eq_ignore_case(e, "mos")
    ||| str_eq_ignore_case(e, "ari")
}

/// Whether the path names a standard raster image.
pub fn is_regular_image(path: &str) -> (r: bool)
    ensures
        r == spec_is_regular_image(path@),
{
    match extension_of(path) {
        Some(e) => is_regular_ext(e.as_str()),
        None => false,
    }
}

/// Whether the path names a raw camera image.
pub fn is_raw_image(path: &str) -> (r: bool)
    ensures
        r == spec_is_raw_image(path@),
{
    match extension_of(path) {
        Some(e) => is_raw_ext(e.as_str()),
        None => false,
    }
}

/// Whether the path names an image file of either family.
pub fn is_image_file(path: &str) -> (r: bool)
    ensures
        r == spec_is_image_file(path@),
{
    is_regular_image(path) || is_raw_image(path)
}

/// ISO-8601 UTC rendering, with millisecond precision, of an instant given
/// as seconds and milliseconds since the Unix epoch.
pub uninterp spec fn iso8601_utc_of(secs: int, millis: int) -> Seq<char>;

/// Latest epoch second this library formats: the first instant of year 10000.
pub const MAX_FORMATTED_SECS: i64 = 253402300800;

/// Relies on chrono's `DateTime::<Utc>::from_timestamp`, which its source
/// shows returns `Some` for every instant admitted here, and on chrono's
/// `%Y-%m-%dT%H:%M:%S%.3fZ` formatting, whose output depends on the instant
/// alone.
#[verifier::external_body]
pub(crate) fn format_iso8601_utc(secs: i64, millis: u32) -> (r: String)
    requires
        0 <= secs < MAX_FORMATTED_SECS,
        millis < 1000,
    ensures
        r@ == iso8601_utc_of(secs as int, millis as int),
{
    let dt = chrono::DateTime::<chrono::Utc>::from_timestamp(secs, millis * 1_000_000)
        .expect("instant is within the formattable range");
    dt.format("%Y-%m-%dT%H:%M:%S%.3fZ").to_string()
}

/// Derives the catalog row for one directory entry, or `None` when the entry
/// is not an image file. Timestamps are epoch seconds and milliseconds and
/// are rendered as ISO-8601 UTC text.
pub fn make_library_file(
    path: &str,
    created_secs: i64,
    created_millis: u32,
    modified_secs: i64,
    modified_millis: u32,
) -> (r: Option<LibraryFile>)
    requires
        0 <= created_secs < MAX_FORMATTED_SECS,
        created_millis < 1000,
        0 <= modified_secs < MAX_FORMATTED_SECS,
        modified_millis < 1000,
    ensures
        match r {
            Some(lf) => {
                &&& spec_is_image_file(path@)
                &&& lf.path@ == path@
                &&& lf.parent_path@ == spec_parent(path@)
                &&& lf.original_file_name@ == spec_file_name(path@)
                &&& lf.base_name@ == spec_base_name(path@)
                &&& Some(lf.extension@) == spec_extension(path@)
                &&& lf.file_created_time@ == iso8601_utc_of(
                    created_secs as int,
                    created_millis as int,
                )
                &&& lf.file_modified_time@ == iso8601_utc_of(
                    modified_secs as int,
                    modified_millis as int,
                )
            },
            None => !spec_is_image_file(path@),
        },
{
    if !is_image_file(path) {
        return None;
    }
    let extension = match extension_of(path) {
        Some(e) => e,
        None => {
            proof {
                assert(false);
            }
            String::new()
        },
    };
    Some(
        LibraryFile {
            original_file_name: file_name_of(path),
            base_name: base_name_of(path),
            extension,
            file_created_time: format_iso8601_utc(created_secs, created_millis),
            file_modified_time: format_iso8601_utc(modified_secs, modified_millis),
            path: String::from_str(path),
            parent_path: parent_of(path),
        },
    )
}

} // verus!
