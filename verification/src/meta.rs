//! Embedded-metadata handling: the fixed catalogs that map result-row columns
//! to metadata attribute identifiers, and the per-file decisions that turn an
//! extraction outcome into the rows to write.

use vstd::prelude::*;

verus! {

use crate::catalog::LibraryFile;

/// The fixed catalog of EXIF attributes: each pair maps a column of the exif
/// row to the attribute identifier that the metadata reader resolves.
pub open spec fn spec_exif_key_catalog() -> Seq<(Seq<char>, Seq<char>)> {
    seq![
        ("camera_make"@, "Exif.Image.Make"@),
        ("camera_model"@, "Exif.Image.Model"@),
        ("exposure_time"@, "Exif.Image.ExposureTime"@),
        ("f_number"@, "Exif.Image.FNumber"@),
        ("exposure_program"@, "Exif.Image.ExposureProgram"@),
        ("iso_speed"@, "Exif.Photo.ISOSpeed"@),
        ("exif_version"@, "Exif.Photo.ExifVersion"@),
        ("datetime_original"@, "Exif.Photo.DateTimeOriginal"@),
        ("offset_time_original"@, "Exif.Photo.OffsetTimeOriginal"@),
        ("shutter_speed"@, "Exif.Photo.ShutterSpeedValue"@),
        ("aperture_value"@, "Exif.Photo.ApertureValue"@),
        ("brightness_value"@, "Exif.Photo.BrightnessValue"@),
        ("metering_mode"@, "Exif.Photo.MeteringMode"@),
        ("flash"@, "Exif.Photo.Flash"@),
        ("exposure_mode"@, "Exif.Photo.ExposureMode"@),
        ("white_balance"@, "Exif.Photo.WhiteBalance"@),
        ("focal_length"@, "Exif.Photo.FocalLength"@),
        ("focal_length_in_35mm_film"@, "Exif.Photo.FocalLengthIn35mmFilm"@),
        ("sharpness"@, "Exif.Photo.Sharpness"@),
        ("lens_specification"@, "Exif.Photo.LensSpecification"@),
        ("lens_make"@, "Exif.Photo.LensMake"@),
        ("lens_model"@, "Exif.Photo.LensModel"@),
        ("body_serial_number"@, "Exif.Photo.BodySerialNumber"@),
        ("saturation"@, "Exif.Photo.Saturation"@),
        ("contrast"@, "Exif.Photo.Contrast"@),
        ("gps_latitude"@, "Exif.GPSInfo.GPSLatitude"@),
        ("gps_longitude"@, "Exif.GPSInfo.GPSLongitude"@),
        ("gps_altitude"@, "Exif.GPSInfo.GPSAltitude"@),
        ("gps_timestamp"@, "Exif.GPSInfo.GPSTimeStamp"@),
        ("gps_status"@, "Exif.GPSInfo.GPSStatus"@),
        ("artist"@, "Exif.Image.Artist"@),
    ]
}

/// The fixed catalog of IPTC attributes, in the same shape.
pub open spec fn spec_iptc_key_catalog() -> Seq<(Seq<char>, Seq<char>)> {
    seq![
        ("copyright"@, "Iptc.Application2.Copyright"@),
        ("city"@, "Iptc.Application2.City"@),
        ("creator"@, "Iptc.Application2.Byline"@),
        ("country_iso_code"@, "Iptc.Application2.CountryCode"@),
        ("country_name"@, "Iptc.Application2.CountryName"@),
        ("description"@, "Iptc.Application2.Caption"@),
    ]
}

/// The views of a sequence of (column, value) text pairs.
pub open spec fn pairs_view(s: Seq<(String, String)>) -> Seq<(Seq<char>, Seq<char>)> {
    s.map_values(|p: (String, String)| (p.0@, p.1@))
}

/// The EXIF attribute catalog as executable data.
pub fn exif_key_catalog() -> (r: Vec<(&'static str, &'static str)>)
    ensures
        r@.map_values(|p: (&'static str, &'static str)| (p.0@, p.1@)) =~= spec_exif_key_catalog(),
{
    let r: Vec<(&'static str, &'static str)> = vec![
        ("camera_make", "Exif.Image.Make"),
        ("camera_model", "Exif.Image.Model"),
        ("exposure_time", "Exif.Image.ExposureTime"),
        ("f_number", "Exif.Image.FNumber"),
        ("exposure_program", "Exif.Image.ExposureProgram"),
        ("iso_speed", "Exif.Photo.ISOSpeed"),
        ("exif_version", "Exif.Photo.ExifVersion"),
        ("datetime_original", "Exif.Photo.DateTimeOriginal"),
        ("offset_time_original", "Exif.Photo.OffsetTimeOriginal"),
        ("shutter_speed", "Exif.Photo.ShutterSpeedValue"),
        ("aperture_value", "Exif.Photo.ApertureValue"),
        ("brightness_value", "Exif.Photo.BrightnessValue"),
        ("metering_mode", "Exif.Photo.MeteringMode"),
        ("flash", "Exif.Photo.Flash"),
        ("exposure_mode", "Exif.Photo.ExposureMode"),
        ("white_balance", "Exif.Photo.WhiteBalance"),
        ("focal_length", "Exif.Photo.FocalLength"),
        ("focal_length_in_35mm_film", "Exif.Photo.FocalLengthIn35mmFilm"),
        ("sharpness", "Exif.Photo.Sharpness"),
        ("lens_specification", "Exif.Photo.LensSpecification"),
        ("lens_make", "Exif.Photo.LensMake"),
        ("lens_model", "Exif.Photo.LensModel"),
        ("body_serial_number", "Exif.Photo.BodySerialNumber"),
        ("saturation", "Exif.Photo.Saturation"),
        ("contrast", "Exif.Photo.Contrast"),
        ("gps_latitude", "Exif.GPSInfo.GPSLatitude"),
        ("gps_longitude", "Exif.GPSInfo.GPSLongitude"),
        ("gps_altitude", "Exif.GPSInfo.GPSAltitude"),
        ("gps_timestamp", "Exif.GPSInfo.GPSTimeStamp"),
        ("gps_status", "Exif.GPSInfo.GPSStatus"),
        ("artist", "Exif.Image.Artist"),
    ];
    r
}

/// The IPTC attribute catalog as executable data.
pub fn iptc_key_catalog() -> (r: Vec<(&'static str, &'static str)>)
    ensures
        r@.map_values(|p: (&'static str, &'static str)| (p.0@, p.1@)) =~= spec_iptc_key_catalog(),
{
    let r: Vec<(&'static str, &'static str)> = vec![
        ("copyright", "Iptc.Application2.Copyright"),
        ("city", "Iptc.Application2.City"),
        ("creator", "Iptc.Application2.Byline"),
        ("country_iso_code", "Iptc.Application2.CountryCode"),
        ("country_name", "Iptc.Application2.CountryName"),
        ("description", "Iptc.Application2.Caption"),
    ];
    r
}

/// The full column set of the exif relation: each attribute present only
/// when the source metadata exposed it. The sparse writes fill exactly the
/// columns that resolved; this shape carries a whole row.
#[derive(Debug, Default)]
pub struct Exif {
    pub image_id: i64,
    pub created_at: String,
    pub modified_at: String,
    pub camera_make: Option<String>,
    pub camera_model: Option<String>,
    pub x_resolution: Option<String>,
    pub y_resolution: Option<String>,
    pub resolution_unit: Option<String>,
    pub software: Option<String>,
    pub copyright: Option<String>,
    pub exposure_time: Option<String>,
    pub f_number: Option<String>,
    pub exposure_program: Option<String>,
    pub photographic_sensitivty: Option<String>,
    pub sensitivity_type: Option<String>,
    pub iso_speed: Option<String>,
    pub exif_version: Option<String>,
    pub datetime: Option<String>,
    pub offset_time: Option<String>,
    pub datetime_original: Option<String>,
    pub offset_time_original: Option<String>,
    pub shutter_speed_value: Option<String>,
    pub aperture_value: Option<String>,
    pub brightness_value: Option<String>,
    pub max_aperture_value: Option<String>,
    pub metering_mode: Option<String>,
    pub light_source: Option<String>,
    pub flash: Option<String>,
    pub focal_length: Option<String>,
    pub pixel_x_dimension: Option<String>,
    pub pixel_y_dimension: Option<String>,
    pub sensing_method: Option<String>,
    pub file_source: Option<String>,
    pub scene_type: Option<String>,
    pub custom_rendered: Option<String>,
    pub exposure_mode: Option<String>,
    pub white_balance: Option<String>,
    pub focal_length_in_35mm_film: Option<String>,
    pub scene_capture_type: Option<String>,
    pub sharpness: Option<String>,
    pub subject_distance: Option<String>,
    pub subject_distance_range: Option<String>,
    pub lens_specification: Option<String>,
    pub lens_make: Option<String>,
    pub lens_model: Option<String>,
    pub compression: Option<String>,
    pub body_serial_number: Option<String>,
    pub saturation: Option<String>,
    pub contrast: Option<String>,
    pub gps_latitude: Option<String>,
    pub gps_longitude: Option<String>,
    pub gps_altitude: Option<String>,
    pub gps_timestamp: Option<String>,
    pub gps_status: Option<String>,
    pub orientation: Option<String>,
    pub description: Option<String>,
    pub user_comment: Option<String>,
    pub artist: Option<String>,
}

/// What the metadata reader resolved for one file: the capture timestamp, if
/// the file carried one, and the (column, value) pairs of each catalog whose
/// attribute resolved to text.
pub struct ExtractedMeta {
    pub capture_time: Option<String>,
    pub exif_values: Vec<(String, String)>,
    pub iptc_values: Vec<(String, String)>,
}

/// One file ready for ingestion: its filesystem attributes and the outcome of
/// metadata extraction, `None` when the file's format carried no metadata.
pub struct ScannedFile {
    pub file: LibraryFile,
    pub meta: Option<ExtractedMeta>,
}

/// Copies a list of text pairs.
fn clone_pairs(v: &Vec<(String, String)>) -> (r: Vec<(String, String)>)
    ensures
        pairs_view(r@) =~= pairs_view(v@),
{
    let mut r: Vec<(String, String)> = Vec::new();
    let mut i: usize = 0;
    while i < v.len()
        invariant
            i <= v@.len(),
            r@.len() == i,
            pairs_view(r@) =~= pairs_view(v@.take(i as int)),
        decreases v@.len() - i,
    {
        let p = &v[i];
        let c0 = p.0.clone();
        let c1 = p.1.clone();
        let ghost prev = r@;
        r.push((c0, c1));
        proof {
            assert(v@.take(i + 1 as int) =~= v@.take(i as int).push(v@[i as int]));
            assert(c0@ == v@[i as int].0@ && c1@ == v@[i as int].1@);
            assert forall|k: int| 0 <= k < r@.len() implies pairs_view(r@)[k] == pairs_view(
                v@.take(i + 1 as int),
            )[k] by {
                if k < i {
                    assert(r@[k] == prev[k]);
                    assert(pairs_view(prev)[k] == pairs_view(v@.take(i as int))[k]);
                }
            }
            assert(pairs_view(r@) =~= pairs_view(v@.take(i + 1 as int)));
        }
        i = i + 1;
    }
    proof {
        assert(v@.take(v@.len() as int) =~= v@);
    }
    r
}

impl ScannedFile {
    /// The capture time the image row records: the embedded capture timestamp
    /// when extraction resolved one, else the file's creation time.
    pub open spec fn spec_capture_time(self) -> Seq<char> {
        match self.meta {
            Some(m) => match m.capture_time {
                Some(t) => t@,
                None => self.file.file_created_time@,
            },
            None => self.file.file_created_time@,
        }
    }

    /// The (column, value) pairs of the exif row: the resolved attributes, or
    /// the degenerate fallback that carries only the file's creation time as
    /// the original capture time.
    pub open spec fn spec_exif_values(self) -> Seq<(Seq<char>, Seq<char>)> {
        match self.meta {
            Some(m) => pairs_view(m.exif_values@),
            None => seq![("datetime_original"@, self.file.file_created_time@)],
        }
    }

    /// The (column, value) pairs of the iptc row: the resolved attributes, or
    /// none at all when extraction failed.
    pub open spec fn spec_iptc_values(self) -> Seq<(Seq<char>, Seq<char>)> {
        match self.meta {
            Some(m) => pairs_view(m.iptc_values@),
            None => Seq::empty(),
        }
    }

    /// The capture time to record, as text.
    pub fn capture_time(&self) -> (r: String)
        ensures
            r@ == self.spec_capture_time(),
    {
        match &self.meta {
            Some(m) => match &m.capture_time {
                Some(t) => t.clone(),
                None => self.file.file_created_time.clone(),
            },
            None => self.file.file_created_time.clone(),
        }
    }

    /// The (column, value) pairs of the exif row to write.
    pub fn exif_values(&self) -> (r: Vec<(String, String)>)
        ensures
            pairs_view(r@) == self.spec_exif_values(),
    {
        match &self.meta {
            Some(m) => clone_pairs(&m.exif_values),
            None => {
                let mut r: Vec<(String, String)> = Vec::new();
                r.push(
                    (String::from_str("datetime_original"), self.file.file_created_time.clone()),
                );
                proof {
                    assert(pairs_view(r@) =~= self.spec_exif_values());
                }
                r
            },
        }
    }

    /// The (column, value) pairs of the iptc row to write.
    pub fn iptc_values(&self) -> (r: Vec<(String, String)>)
        ensures
            pairs_view(r@) == self.spec_iptc_values(),
    {
        match &self.meta {
            Some(m) => clone_pairs(&m.iptc_values),
            None => {
                let r: Vec<(String, String)> = Vec::new();
                proof {
                    assert(pairs_view(r@) =~= self.spec_iptc_values());
                }
                r
            },
        }
    }
}

} // verus!
