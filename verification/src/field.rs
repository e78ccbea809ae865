//! The file attributes that a query can select, filter and sort by.

use vstd::prelude::*;
use vstd::string::*;

use crate::strings::{ascii_lower, push_str, str_eq, str_to_string, to_ascii_lowercase};

verus! {

#[derive(Debug, Clone, Copy, PartialEq, Eq, Hash, Structural)]
pub enum Field {
    Name,
    Extension,
    Path,
    AbsPath,
    Directory,
    AbsDir,
    Size,
    FormattedSize,
    Uid,
    Gid,
    User,
    Group,
    Created,
    Accessed,
    Modified,
    IsDir,
    IsFile,
    IsSymlink,
    IsPipe,
    IsCharacterDevice,
    IsBlockDevice,
    IsSocket,
    Device,
    Inode,
    Blocks,
    Hardlinks,
    Mode,
    UserRead,
    UserWrite,
    UserExec,
    UserAll,
    GroupRead,
    GroupWrite,
    GroupExec,
    GroupAll,
    OtherRead,
    OtherWrite,
    OtherExec,
    OtherAll,
    Suid,
    Sgid,
    IsHidden,
    HasXattrs,
    Capabilities,
    IsShebang,
    IsEmpty,
    Width,
    Height,
    Duration,
    Bitrate,
    Freq,
    Title,
    Artist,
    Album,
    Year,
    Genre,
    ExifDateTime,
    ExifGpsAltitude,
    ExifGpsLatitude,
    ExifGpsLongitude,
    ExifMake,
    ExifModel,
    ExifSoftware,
    ExifVersion,
    ExifExposureTime,
    ExifAperture,
    ExifShutterSpeed,
    ExifFNumber,
    ExifIsoSpeed,
    ExifFocalLength,
    ExifLensMake,
    ExifLensModel,
    Mime,
    LineCount,
    IsBinary,
    IsText,
    IsArchive,
    IsAudio,
    IsBook,
    IsDoc,
    IsFont,
    IsImage,
    IsSource,
    IsVideo,
    Sha1,
    Sha256,
    Sha512,
    Sha3,
}

/// The field that a lower-case spelling names.
pub open spec fn spec_field_from_lower(t: Seq<char>) -> Option<Field> {
    if t == "name"@ {
        Some(Field::Name)
    } else if t == "ext"@ || t == "extension"@ {
        Some(Field::Extension)
    } else if t == "path"@ {
        Some(Field::Path)
    } else if t == "abspath"@ {
        Some(Field::AbsPath)
    } else if t == "dir"@ || t == "directory"@ || t == "dirname"@ {
        Some(Field::Directory)
    } else if t == "absdir"@ {
        Some(Field::AbsDir)
    } else if t == "size"@ {
        Some(Field::Size)
    } else if t == "fsize"@ || t == "hsize"@ {
        Some(Field::FormattedSize)
    } else if t == "uid"@ {
        Some(Field::Uid)
    } else if t == "gid"@ {
        Some(Field::Gid)
    } else if t == "user"@ {
        Some(Field::User)
    } else if t == "group"@ {
        Some(Field::Group)
    } else if t == "created"@ {
        Some(Field::Created)
    } else if t == "accessed"@ {
        Some(Field::Accessed)
    } else if t == "modified"@ {
        Some(Field::Modified)
    } else if t == "is_dir"@ {
        Some(Field::IsDir)
    } else if t == "is_file"@ {
        Some(Field::IsFile)
    } else if t == "is_symlink"@ {
        Some(Field::IsSymlink)
    } else if t == "is_pipe"@ || t == "is_fifo"@ {
        Some(Field::IsPipe)
    } else if t == "is_char"@ || t == "is_character"@ {
        Some(Field::IsCharacterDevice)
    } else if t == "is_block"@ {
        Some(Field::IsBlockDevice)
    } else if t == "is_socket"@ {
        Some(Field::IsSocket)
    } else if t == "device"@ {
        Some(Field::Device)
    } else if t == "inode"@ {
        Some(Field::Inode)
    } else if t == "blocks"@ {
        Some(Field::Blocks)
    } else if t == "hardlinks"@ {
        Some(Field::Hardlinks)
    } else if t == "mode"@ {
        Some(Field::Mode)
    } else if t == "user_read"@ {
        Some(Field::UserRead)
    } else if t == "user_write"@ {
        Some(Field::UserWrite)
    } else if t == "user_exec"@ {
        Some(Field::UserExec)
    } else if t == "user_all"@ || t == "user_rwx"@ {
        Some(Field::UserAll)
    } else if t == "group_read"@ {
        Some(Field::GroupRead)
    } else if t == "group_write"@ {
        Some(Field::GroupWrite)
    } else if t == "group_exec"@ {
        Some(Field::GroupExec)
    } else if t == "group_all"@ || t == "group_rwx"@ {
        Some(Field::GroupAll)
    } else if t == "other_read"@ {
        Some(Field::OtherRead)
    } else if t == "other_write"@ {
        Some(Field::OtherWrite)
    } else if t == "other_exec"@ {
        Some(Field::OtherExec)
    } else if t == "other_all"@ || t == "other_rwx"@ {
        Some(Field::OtherAll)
    } else if t == "suid"@ {
        Some(Field::Suid)
    } else if t == "sgid"@ {
        Some(Field::Sgid)
    } else if t == "is_hidden"@ {
        Some(Field::IsHidden)
    } else if t == "has_xattrs"@ {
        Some(Field::HasXattrs)
    } else if t == "capabilities"@ || t == "caps"@ {
        Some(Field::Capabilities)
    } else if t == "is_shebang"@ {
        Some(Field::IsShebang)
    } else if t == "is_empty"@ {
        Some(Field::IsEmpty)
    } else if t == "width"@ {
        Some(Field::Width)
    } else if t == "height"@ {
        Some(Field::Height)
    } else if t == "duration"@ {
        Some(Field::Duration)
    } else if t == "mp3_bitrate"@ || t == "bitrate"@ {
        Some(Field::Bitrate)
    } else if t == "mp3_freq"@ || t == "freq"@ {
        Some(Field::Freq)
    } else if t == "mp3_title"@ || t == "title"@ {
        Some(Field::Title)
    } else if t == "mp3_artist"@ || t == "artist"@ {
        Some(Field::Artist)
    } else if t == "mp3_album"@ || t == "album"@ {
        Some(Field::Album)
    } else if t == "mp3_year"@ {
        Some(Field::Year)
    } else if t == "mp3_genre"@ || t == "genre"@ {
        Some(Field::Genre)
    } else if t == "exif_datetime"@ {
        Some(Field::ExifDateTime)
    } else if t == "exif_altitude"@ || t == "exif_alt"@ {
        Some(Field::ExifGpsAltitude)
    } else if t == "exif_latitude"@ || t == "exif_lat"@ {
        Some(Field::ExifGpsLatitude)
    } else if t == "exif_longitude"@ || t == "exif_lon"@ || t == "exif_lng"@ {
        Some(Field::ExifGpsLongitude)
    } else if t == "exif_make"@ {
        Some(Field::ExifMake)
    } else if t == "exif_model"@ {
        Some(Field::ExifModel)
    } else if t == "exif_software"@ {
        Some(Field::ExifSoftware)
    } else if t == "exif_version"@ {
        Some(Field::ExifVersion)
    } else if t == "exif_exposure_time"@ || t == "exif_exptime"@ {
        Some(Field::ExifExposureTime)
    } else if t == "exif_aperture"@ {
        Some(Field::ExifAperture)
    } else if t == "exif_shutter_speed"@ {
        Some(Field::ExifShutterSpeed)
    } else if t == "exif_f_number"@ || t == "exif_f_num"@ {
        Some(Field::ExifFNumber)
    } else if t == "exif_iso_speed"@ || t == "exif_iso"@ {
        Some(Field::ExifIsoSpeed)
    } else if t == "exif_focal_length"@ || t == "exif_focal_len"@ {
        Some(Field::ExifFocalLength)
    } else if t == "exif_lens_make"@ {
        Some(Field::ExifLensMake)
    } else if t == "exif_lens_model"@ {
        Some(Field::ExifLensModel)
    } else if t == "mime"@ {
        Some(Field::Mime)
    } else if t == "line_count"@ {
        Some(Field::LineCount)
    } else if t == "is_binary"@ {
        Some(Field::IsBinary)
    } else if t == "is_text"@ {
        Some(Field::IsText)
    } else if t == "is_archive"@ {
        Some(Field::IsArchive)
    } else if t == "is_audio"@ {
        Some(Field::IsAudio)
    } else if t == "is_book"@ {
        Some(Field::IsBook)
    } else if t == "is_doc"@ {
        Some(Field::IsDoc)
    } else if t == "is_font"@ {
        Some(Field::IsFont)
    } else if t == "is_image"@ {
        Some(Field::IsImage)
    } else if t == "is_source"@ {
        Some(Field::IsSource)
    } else if t == "is_video"@ {
        Some(Field::IsVideo)
    } else if t == "sha1"@ {
        Some(Field::Sha1)
    } else if t == "sha2_256"@ || t == "sha256"@ {
        Some(Field::Sha256)
    } else if t == "sha2_512"@ || t == "sha512"@ {
        Some(Field::Sha512)
    } else if t == "sha3_512"@ || t == "sha3"@ {
        Some(Field::Sha3)
    } else {
        None
    }
}

fn field_from_lower(t: &str) -> (r: Option<Field>)
    ensures
        r == spec_field_from_lower(t@),
{
    if str_eq(t, "name") {
        Some(Field::Name)
    } else if str_eq(t, "ext") || str_eq(t, "extension") {
        Some(Field::Extension)
    } else if str_eq(t, "path") {
        Some(Field::Path)
    } else if str_eq(t, "abspath") {
        Some(Field::AbsPath)
    } else if str_eq(t, "dir") || str_eq(t, "directory") || str_eq(t, "dirname") {
        Some(Field::Directory)
    } else if str_eq(t, "absdir") {
        Some(Field::AbsDir)
    } else if str_eq(t, "size") {
        Some(Field::Size)
    } else if str_eq(t, "fsize") || str_eq(t, "hsize") {
        Some(Field::FormattedSize)
    } else if str_eq(t, "uid") {
        Some(Field::Uid)
    } else if str_eq(t, "gid") {
        Some(Field::Gid)
    } else if str_eq(t, "user") {
        Some(Field::User)
    } else if str_eq(t, "group") {
        Some(Field::Group)
    } else if str_eq(t, "created") {
        Some(Field::Created)
    } else if str_eq(t, "accessed") {
        Some(Field::Accessed)
    } else if str_eq(t, "modified") {
        Some(Field::Modified)
    } else if str_eq(t, "is_dir") {
        Some(Field::IsDir)
    } else if str_eq(t, "is_file") {
        Some(Field::IsFile)
    } else if str_eq(t, "is_symlink") {
        Some(Field::IsSymlink)
    } else if str_eq(t, "is_pipe") || str_eq(t, "is_fifo") {
        Some(Field::IsPipe)
    } else if str_eq(t, "is_char") || str_eq(t, "is_character") {
        Some(Field::IsCharacterDevice)
    } else if str_eq(t, "is_block") {
        Some(Field::IsBlockDevice)
    } else if str_eq(t, "is_socket") {
        Some(Field::IsSocket)
    } else if str_eq(t, "device") {
        Some(Field::Device)
    } else if str_eq(t, "inode") {
        Some(Field::Inode)
    } else if str_eq(t, "blocks") {
        Some(Field::Blocks)
    } else if str_eq(t, "hardlinks") {
        Some(Field::Hardlinks)
    } else if str_eq(t, "mode") {
        Some(Field::Mode)
    } else if str_eq(t, "user_read") {
        Some(Field::UserRead)
    } else if str_eq(t, "user_write") {
        Some(Field::UserWrite)
    } else if str_eq(t, "user_exec") {
        Some(Field::UserExec)
    } else if str_eq(t, "user_all") || str_eq(t, "user_rwx") {
        Some(Field::UserAll)
    } else if str_eq(t, "group_read") {
        Some(Field::GroupRead)
    } else if str_eq(t, "group_write") {
        Some(Field::GroupWrite)
    } else if str_eq(t, "group_exec") {
        Some(Field::GroupExec)
    } else if str_eq(t, "group_all") || str_eq(t, "group_rwx") {
        Some(Field::GroupAll)
    } else if str_eq(t, "other_read") {
        Some(Field::OtherRead)
    } else if str_eq(t, "other_write") {
        Some(Field::OtherWrite)
    } else if str_eq(t, "other_exec") {
        Some(Field::OtherExec)
    } else if str_eq(t, "other_all") || str_eq(t, "other_rwx") {
        Some(Field::OtherAll)
    } else if str_eq(t, "suid") {
        Some(Field::Suid)
    } else if str_eq(t, "sgid") {
        Some(Field::Sgid)
    } else if str_eq(t, "is_hidden") {
        Some(Field::IsHidden)
    } else if str_eq(t, "has_xattrs") {
        Some(Field::HasXattrs)
    } else if str_eq(t, "capabilities") || str_eq(t, "caps") {
        Some(Field::Capabilities)
    } else if str_eq(t, "is_shebang") {
        Some(Field::IsShebang)
    } else if str_eq(t, "is_empty") {
        Some(Field::IsEmpty)
    } else if str_eq(t, "width") {
        Some(Field::Width)
    } else if str_eq(t, "height") {
        Some(Field::Height)
    } else if str_eq(t, "duration") {
        Some(Field::Duration)
    } else if str_eq(t, "mp3_bitrate") || str_eq(t, "bitrate") {
        Some(Field::Bitrate)
    } else if str_eq(t, "mp3_freq") || str_eq(t, "freq") {
        Some(Field::Freq)
    } else if str_eq(t, "mp3_title") || str_eq(t, "title") {
        Some(Field::Title)
    } else if str_eq(t, "mp3_artist") || str_eq(t, "artist") {
        Some(Field::Artist)
    } else if str_eq(t, "mp3_album") || str_eq(t, "album") {
        Some(Field::Album)
    } else if str_eq(t, "mp3_year") {
        Some(Field::Year)
    } else if str_eq(t, "mp3_genre") || str_eq(t, "genre") {
        Some(Field::Genre)
    } else if str_eq(t, "exif_datetime") {
        Some(Field::ExifDateTime)
    } else if str_eq(t, "exif_altitude") || str_eq(t, "exif_alt") {
        Some(Field::ExifGpsAltitude)
    } else if str_eq(t, "exif_latitude") || str_eq(t, "exif_lat") {
        Some(Field::ExifGpsLatitude)
    } else if str_eq(t, "exif_longitude") || str_eq(t, "exif_lon") || str_eq(t, "exif_lng") {
        Some(Field::ExifGpsLongitude)
    } else if str_eq(t, "exif_make") {
        Some(Field::ExifMake)
    } else if str_eq(t, "exif_model") {
        Some(Field::ExifModel)
    } else if str_eq(t, "exif_software") {
        Some(Field::ExifSoftware)
    } else if str_eq(t, "exif_version") {
        Some(Field::ExifVersion)
    } else if str_eq(t, "exif_exposure_time") || str_eq(t, "exif_exptime") {
        Some(Field::ExifExposureTime)
    } else if str_eq(t, "exif_aperture") {
        Some(Field::ExifAperture)
    } else if str_eq(t, "exif_shutter_speed") {
        Some(Field::ExifShutterSpeed)
    } else if str_eq(t, "exif_f_number") || str_eq(t, "exif_f_num") {
        Some(Field::ExifFNumber)
    } else if str_eq(t, "exif_iso_speed") || str_eq(t, "exif_iso") {
        Some(Field::ExifIsoSpeed)
    } else if str_eq(t, "exif_focal_length") || str_eq(t, "exif_focal_len") {
        Some(Field::ExifFocalLength)
    } else if str_eq(t, "exif_lens_make") {
        Some(Field::ExifLensMake)
    } else if str_eq(t, "exif_lens_model") {
        Some(Field::ExifLensModel)
    } else if str_eq(t, "mime") {
        Some(Field::Mime)
    } else if str_eq(t, "line_count") {
        Some(Field::LineCount)
    } else if str_eq(t, "is_binary") {
        Some(Field::IsBinary)
    } else if str_eq(t, "is_text") {
        Some(Field::IsText)
    } else if str_eq(t, "is_archive") {
        Some(Field::IsArchive)
    } else if str_eq(t, "is_audio") {
        Some(Field::IsAudio)
    } else if str_eq(t, "is_book") {
        Some(Field::IsBook)
    } else if str_eq(t, "is_doc") {
        Some(Field::IsDoc)
    } else if str_eq(t, "is_font") {
        Some(Field::IsFont)
    } else if str_eq(t, "is_image") {
        Some(Field::IsImage)
    } else if str_eq(t, "is_source") {
        Some(Field::IsSource)
    } else if str_eq(t, "is_video") {
        Some(Field::IsVideo)
    } else if str_eq(t, "sha1") {
        Some(Field::Sha1)
    } else if str_eq(t, "sha2_256") || str_eq(t, "sha256") {
        Some(Field::Sha256)
    } else if str_eq(t, "sha2_512") || str_eq(t, "sha512") {
        Some(Field::Sha512)
    } else if str_eq(t, "sha3_512") || str_eq(t, "sha3") {
        Some(Field::Sha3)
    } else {
        None
    }
}

/// What reading a field's name gives: the field, or the message naming the
/// unknown (lower-cased) spelling.
pub open spec fn spec_field_from_str(s: Seq<char>) -> Result<Field, Seq<char>> {
    match spec_field_from_lower(ascii_lower(s)) {
        Some(f) => Ok(f),
        None => Err("Unknown field "@ + ascii_lower(s)),
    }
}

/// The position of the only `.` in a text, when it holds exactly one.
pub open spec fn single_dot(s: Seq<char>) -> Option<int> {
    if exists|k: int| #![trigger s[k]] 0 <= k < s.len() && s[k] == '.' && (forall|j: int|
        0 <= j < s.len() && j != k ==> s[j] != '.') {
        Some(choose|k: int| #![trigger s[k]] 0 <= k < s.len() && s[k] == '.' && (forall|j: int|
            0 <= j < s.len() && j != k ==> s[j] != '.'))
    } else {
        None
    }
}

/// Reading a possibly qualified field (`alias.field`): with exactly one dot
/// the part before it is the root alias and the part after it the field;
/// otherwise the whole text is the field.
pub open spec fn spec_parse_field(s: Seq<char>) -> Result<(Field, Option<Seq<char>>), Seq<char>> {
    match single_dot(s) {
        Some(k) => match spec_field_from_str(s.skip(k + 1)) {
            Ok(f) => Ok((f, Some(s.take(k)))),
            Err(e) => Err(e),
        },
        None => match spec_field_from_str(s) {
            Ok(f) => Ok((f, None)),
            Err(e) => Err(e),
        },
    }
}

pub open spec fn parse_field_view(r: Result<(Field, Option<String>), String>) -> Result<(Field, Option<Seq<char>>), Seq<char>> {
    match r {
        Ok((f, Some(a))) => Ok((f, Some(a@))),
        Ok((f, None)) => Ok((f, None)),
        Err(e) => Err(e@),
    }
}

impl Field {

    pub open spec fn spec_is_numeric(self) -> bool {
        self is Size || self is FormattedSize || self is Uid || self is Gid || self is Width || self is Height || self is Duration || self is Bitrate || self is Freq || self is Year || self is ExifGpsAltitude || self is ExifGpsLatitude || self is ExifGpsLongitude || self is ExifExposureTime || self is ExifAperture || self is ExifShutterSpeed || self is ExifFNumber || self is ExifFocalLength || self is LineCount
    }

    /// Whether the field holds a number.
    pub fn is_numeric_field(&self) -> (r: bool)
        ensures
            r == self.spec_is_numeric(),
    {
        match self {
            Field::Size
            | Field::FormattedSize
            | Field::Uid
            | Field::Gid
            | Field::Width
            | Field::Height
            | Field::Duration
            | Field::Bitrate
            | Field::Freq
            | Field::Year
            | Field::ExifGpsAltitude
            | Field::ExifGpsLatitude
            | Field::ExifGpsLongitude
            | Field::ExifExposureTime
            | Field::ExifAperture
            | Field::ExifShutterSpeed
            | Field::ExifFNumber
            | Field::ExifFocalLength
            | Field::LineCount => true,
            _ => false,
        }
    }

    pub open spec fn spec_is_datetime(self) -> bool {
        self is Created || self is Accessed || self is Modified || self is ExifDateTime
    }

    /// Whether the field holds a date and time.
    pub fn is_datetime_field(&self) -> (r: bool)
        ensures
            r == self.spec_is_datetime(),
    {
        match self {
            Field::Created
            | Field::Accessed
            | Field::Modified
            | Field::ExifDateTime => true,
            _ => false,
        }
    }

    pub open spec fn spec_is_boolean(self) -> bool {
        self is IsDir || self is IsFile || self is IsSymlink || self is IsPipe || self is IsCharacterDevice || self is IsBlockDevice || self is IsSocket || self is UserRead || self is UserWrite || self is UserExec || self is UserAll || self is GroupRead || self is GroupWrite || self is GroupExec || self is GroupAll || self is OtherRead || self is OtherWrite || self is OtherExec || self is OtherAll || self is Suid || self is Sgid || self is IsHidden || self is HasXattrs || self is IsShebang || self is IsEmpty || self is IsBinary || self is IsText || self is IsArchive || self is IsAudio || self is IsBook || self is IsDoc || self is IsFont || self is IsImage || self is IsSource || self is IsVideo
    }

    /// Whether the field holds a boolean.
    pub fn is_boolean_field(&self) -> (r: bool)
        ensures
            r == self.spec_is_boolean(),
    {
        match self {
            Field::IsDir
            | Field::IsFile
            | Field::IsSymlink
            | Field::IsPipe
            | Field::IsCharacterDevice
            | Field::IsBlockDevice
            | Field::IsSocket
            | Field::UserRead
            | Field::UserWrite
            | Field::UserExec
            | Field::UserAll
            | Field::GroupRead
            | Field::GroupWrite
            | Field::GroupExec
            | Field::GroupAll
            | Field::OtherRead
            | Field::OtherWrite
            | Field::OtherExec
            | Field::OtherAll
            | Field::Suid
            | Field::Sgid
            | Field::IsHidden
            | Field::HasXattrs
            | Field::IsShebang
            | Field::IsEmpty
            | Field::IsBinary
            | Field::IsText
            | Field::IsArchive
            | Field::IsAudio
            | Field::IsBook
            | Field::IsDoc
            | Field::IsFont
            | Field::IsImage
            | Field::IsSource
            | Field::IsVideo => true,
            _ => false,
        }
    }

    pub open spec fn spec_is_colorized(self) -> bool {
        self is Name
    }

    /// Whether the field is shown in colour on a terminal.
    pub fn is_colorized_field(&self) -> (r: bool)
        ensures
            r == self.spec_is_colorized(),
    {
        match self {
            Field::Name => true,
            _ => false,
        }
    }

    pub open spec fn spec_is_available_for_archived(self) -> bool {
        self is Name || self is Extension || self is Path || self is AbsPath || self is Directory || self is AbsDir || self is Size || self is FormattedSize || self is Modified || self is IsDir || self is IsFile || self is IsSymlink || self is IsPipe || self is IsCharacterDevice || self is IsBlockDevice || self is IsSocket || self is Mode || self is UserRead || self is UserWrite || self is UserExec || self is UserAll || self is GroupRead || self is GroupWrite || self is GroupExec || self is GroupAll || self is OtherRead || self is OtherWrite || self is OtherExec || self is OtherAll || self is Suid || self is Sgid || self is IsHidden || self is IsEmpty || self is IsArchive || self is IsAudio || self is IsBook || self is IsDoc || self is IsFont || self is IsImage || self is IsSource || self is IsVideo
    }

    /// Whether the field can be computed for an entry inside an archive.
    pub fn is_available_for_archived_files(&self) -> (r: bool)
        ensures
            r == self.spec_is_available_for_archived(),
    {
        match self {
            Field::Name
            | Field::Extension
            | Field::Path
            | Field::AbsPath
            | Field::Directory
            | Field::AbsDir
            | Field::Size
            | Field::FormattedSize
            | Field::Modified
            | Field::IsDir
            | Field::IsFile
            | Field::IsSymlink
            | Field::IsPipe
            | Field::IsCharacterDevice
            | Field::IsBlockDevice
            | Field::IsSocket
            | Field::Mode
            | Field::UserRead
            | Field::UserWrite
            | Field::UserExec
            | Field::UserAll
            | Field::GroupRead
            | Field::GroupWrite
            | Field::GroupExec
            | Field::GroupAll
            | Field::OtherRead
            | Field::OtherWrite
            | Field::OtherExec
            | Field::OtherAll
            | Field::Suid
            | Field::Sgid
            | Field::IsHidden
            | Field::IsEmpty
            | Field::IsArchive
            | Field::IsAudio
            | Field::IsBook
            | Field::IsDoc
            | Field::IsFont
            | Field::IsImage
            | Field::IsSource
            | Field::IsVideo => true,
            _ => false,
        }
    }

    pub open spec fn spec_weight(self) -> i32 {
        match self {
            Field::AbsPath | Field::AbsDir | Field::Size | Field::FormattedSize | Field::Uid | Field::Gid | Field::User | Field::Group | Field::Created | Field::Accessed | Field::Modified | Field::IsDir | Field::IsFile | Field::IsSymlink | Field::IsPipe | Field::IsCharacterDevice | Field::IsBlockDevice | Field::IsSocket | Field::Device | Field::Inode | Field::Blocks | Field::Hardlinks | Field::Mode | Field::UserRead | Field::UserWrite | Field::UserExec | Field::UserAll | Field::GroupRead | Field::GroupWrite | Field::GroupExec | Field::GroupAll | Field::OtherRead | Field::OtherWrite | Field::OtherExec | Field::OtherAll | Field::Suid | Field::Sgid | Field::IsHidden => 1,
            Field::HasXattrs | Field::Capabilities | Field::IsShebang | Field::IsEmpty => 2,
            Field::Width | Field::Height | Field::Duration | Field::Bitrate | Field::Freq | Field::Title | Field::Artist | Field::Album | Field::Year | Field::Genre | Field::ExifDateTime | Field::ExifGpsAltitude | Field::ExifGpsLatitude | Field::ExifGpsLongitude | Field::ExifMake | Field::ExifModel | Field::ExifSoftware | Field::ExifVersion | Field::ExifExposureTime | Field::ExifAperture | Field::ExifShutterSpeed | Field::ExifFNumber | Field::ExifIsoSpeed | Field::ExifFocalLength | Field::ExifLensMake | Field::ExifLensModel | Field::Mime | Field::IsBinary | Field::IsText => 16,
            Field::LineCount | Field::Sha1 | Field::Sha256 | Field::Sha512 | Field::Sha3 => 1024,
            _ => 0,
        }
    }

    /// The relative cost of computing the value, used to order the branches of a condition.
    pub fn get_weight(&self) -> (r: i32)
        ensures
            r == self.spec_weight(),
    {
        match self {
            Field::AbsPath
            | Field::AbsDir
            | Field::Size
            | Field::FormattedSize
            | Field::Uid
            | Field::Gid
            | Field::User
            | Field::Group
            | Field::Created
            | Field::Accessed
            | Field::Modified
            | Field::IsDir
            | Field::IsFile
            | Field::IsSymlink
            | Field::IsPipe
            | Field::IsCharacterDevice
            | Field::IsBlockDevice
            | Field::IsSocket
            | Field::Device
            | Field::Inode
            | Field::Blocks
            | Field::Hardlinks
            | Field::Mode
            | Field::UserRead
            | Field::UserWrite
            | Field::UserExec
            | Field::UserAll
            | Field::GroupRead
            | Field::GroupWrite
            | Field::GroupExec
            | Field::GroupAll
            | Field::OtherRead
            | Field::OtherWrite
            | Field::OtherExec
            | Field::OtherAll
            | Field::Suid
            | Field::Sgid
            | Field::IsHidden => 1,
            Field::HasXattrs
            | Field::Capabilities
            | Field::IsShebang
            | Field::IsEmpty => 2,
            Field::Width
            | Field::Height
            | Field::Duration
            | Field::Bitrate
            | Field::Freq
            | Field::Title
            | Field::Artist
            | Field::Album
            | Field::Year
            | Field::Genre
            | Field::ExifDateTime
            | Field::ExifGpsAltitude
            | Field::ExifGpsLatitude
            | Field::ExifGpsLongitude
            | Field::ExifMake
            | Field::ExifModel
            | Field::ExifSoftware
            | Field::ExifVersion
            | Field::ExifExposureTime
            | Field::ExifAperture
            | Field::ExifShutterSpeed
            | Field::ExifFNumber
            | Field::ExifIsoSpeed
            | Field::ExifFocalLength
            | Field::ExifLensMake
            | Field::ExifLensModel
            | Field::Mime
            | Field::IsBinary
            | Field::IsText => 16,
            Field::LineCount
            | Field::Sha1
            | Field::Sha256
            | Field::Sha512
            | Field::Sha3 => 1024,
            _ => 0,
        }
    }

    /// The variant's name, as the value is printed.
    pub open spec fn spec_name(self) -> Seq<char> {
        match self {
            Field::Name => "Name"@,
            Field::Extension => "Extension"@,
            Field::Path => "Path"@,
            Field::AbsPath => "AbsPath"@,
            Field::Directory => "Directory"@,
            Field::AbsDir => "AbsDir"@,
            Field::Size => "Size"@,
            Field::FormattedSize => "FormattedSize"@,
            Field::Uid => "Uid"@,
            Field::Gid => "Gid"@,
            Field::User => "User"@,
            Field::Group => "Group"@,
            Field::Created => "Created"@,
            Field::Accessed => "Accessed"@,
            Field::Modified => "Modified"@,
            Field::IsDir => "IsDir"@,
            Field::IsFile => "IsFile"@,
            Field::IsSymlink => "IsSymlink"@,
            Field::IsPipe => "IsPipe"@,
            Field::IsCharacterDevice => "IsCharacterDevice"@,
            Field::IsBlockDevice => "IsBlockDevice"@,
            Field::IsSocket => "IsSocket"@,
            Field::Device => "Device"@,
            Field::Inode => "Inode"@,
            Field::Blocks => "Blocks"@,
            Field::Hardlinks => "Hardlinks"@,
            Field::Mode => "Mode"@,
            Field::UserRead => "UserRead"@,
            Field::UserWrite => "UserWrite"@,
            Field::UserExec => "UserExec"@,
            Field::UserAll => "UserAll"@,
            Field::GroupRead => "GroupRead"@,
            Field::GroupWrite => "GroupWrite"@,
            Field::GroupExec => "GroupExec"@,
            Field::GroupAll => "GroupAll"@,
            Field::OtherRead => "OtherRead"@,
            Field::OtherWrite => "OtherWrite"@,
            Field::OtherExec => "OtherExec"@,
            Field::OtherAll => "OtherAll"@,
            Field::Suid => "Suid"@,
            Field::Sgid => "Sgid"@,
            Field::IsHidden => "IsHidden"@,
            Field::HasXattrs => "HasXattrs"@,
            Field::Capabilities => "Capabilities"@,
            Field::IsShebang => "IsShebang"@,
            Field::IsEmpty => "IsEmpty"@,
            Field::Width => "Width"@,
            Field::Height => "Height"@,
            Field::Duration => "Duration"@,
            Field::Bitrate => "Bitrate"@,
            Field::Freq => "Freq"@,
            Field::Title => "Title"@,
            Field::Artist => "Artist"@,
            Field::Album => "Album"@,
            Field::Year => "Year"@,
            Field::Genre => "Genre"@,
            Field::ExifDateTime => "ExifDateTime"@,
            Field::ExifGpsAltitude => "ExifGpsAltitude"@,
            Field::ExifGpsLatitude => "ExifGpsLatitude"@,
            Field::ExifGpsLongitude => "ExifGpsLongitude"@,
            Field::ExifMake => "ExifMake"@,
            Field::ExifModel => "ExifModel"@,
            Field::ExifSoftware => "ExifSoftware"@,
            Field::ExifVersion => "ExifVersion"@,
            Field::ExifExposureTime => "ExifExposureTime"@,
            Field::ExifAperture => "ExifAperture"@,
            Field::ExifShutterSpeed => "ExifShutterSpeed"@,
            Field::ExifFNumber => "ExifFNumber"@,
            Field::ExifIsoSpeed => "ExifIsoSpeed"@,
            Field::ExifFocalLength => "ExifFocalLength"@,
            Field::ExifLensMake => "ExifLensMake"@,
            Field::ExifLensModel => "ExifLensModel"@,
            Field::Mime => "Mime"@,
            Field::LineCount => "LineCount"@,
            Field::IsBinary => "IsBinary"@,
            Field::IsText => "IsText"@,
            Field::IsArchive => "IsArchive"@,
            Field::IsAudio => "IsAudio"@,
            Field::IsBook => "IsBook"@,
            Field::IsDoc => "IsDoc"@,
            Field::IsFont => "IsFont"@,
            Field::IsImage => "IsImage"@,
            Field::IsSource => "IsSource"@,
            Field::IsVideo => "IsVideo"@,
            Field::Sha1 => "Sha1"@,
            Field::Sha256 => "Sha256"@,
            Field::Sha512 => "Sha512"@,
            Field::Sha3 => "Sha3"@,
        }
    }

    /// The variant's name, as the value is printed.
    pub fn name(&self) -> (r: &'static str)
        ensures
            r@ == self.spec_name(),
    {
        match self {
            Field::Name => "Name",
            Field::Extension => "Extension",
            Field::Path => "Path",
            Field::AbsPath => "AbsPath",
            Field::Directory => "Directory",
            Field::AbsDir => "AbsDir",
            Field::Size => "Size",
            Field::FormattedSize => "FormattedSize",
            Field::Uid => "Uid",
            Field::Gid => "Gid",
            Field::User => "User",
            Field::Group => "Group",
            Field::Created => "Created",
            Field::Accessed => "Accessed",
            Field::Modified => "Modified",
            Field::IsDir => "IsDir",
            Field::IsFile => "IsFile",
            Field::IsSymlink => "IsSymlink",
            Field::IsPipe => "IsPipe",
            Field::IsCharacterDevice => "IsCharacterDevice",
            Field::IsBlockDevice => "IsBlockDevice",
            Field::IsSocket => "IsSocket",
            Field::Device => "Device",
            Field::Inode => "Inode",
            Field::Blocks => "Blocks",
            Field::Hardlinks => "Hardlinks",
            Field::Mode => "Mode",
            Field::UserRead => "UserRead",
            Field::UserWrite => "UserWrite",
            Field::UserExec => "UserExec",
            Field::UserAll => "UserAll",
            Field::GroupRead => "GroupRead",
            Field::GroupWrite => "GroupWrite",
            Field::GroupExec => "GroupExec",
            Field::GroupAll => "GroupAll",
            Field::OtherRead => "OtherRead",
            Field::OtherWrite => "OtherWrite",
            Field::OtherExec => "OtherExec",
            Field::OtherAll => "OtherAll",
            Field::Suid => "Suid",
            Field::Sgid => "Sgid",
            Field::IsHidden => "IsHidden",
            Field::HasXattrs => "HasXattrs",
            Field::Capabilities => "Capabilities",
            Field::IsShebang => "IsShebang",
            Field::IsEmpty => "IsEmpty",
            Field::Width => "Width",
            Field::Height => "Height",
            Field::Duration => "Duration",
            Field::Bitrate => "Bitrate",
            Field::Freq => "Freq",
            Field::Title => "Title",
            Field::Artist => "Artist",
            Field::Album => "Album",
            Field::Year => "Year",
            Field::Genre => "Genre",
            Field::ExifDateTime => "ExifDateTime",
            Field::ExifGpsAltitude => "ExifGpsAltitude",
            Field::ExifGpsLatitude => "ExifGpsLatitude",
            Field::ExifGpsLongitude => "ExifGpsLongitude",
            Field::ExifMake => "ExifMake",
            Field::ExifModel => "ExifModel",
            Field::ExifSoftware => "ExifSoftware",
            Field::ExifVersion => "ExifVersion",
            Field::ExifExposureTime => "ExifExposureTime",
            Field::ExifAperture => "ExifAperture",
            Field::ExifShutterSpeed => "ExifShutterSpeed",
            Field::ExifFNumber => "ExifFNumber",
            Field::ExifIsoSpeed => "ExifIsoSpeed",
            Field::ExifFocalLength => "ExifFocalLength",
            Field::ExifLensMake => "ExifLensMake",
            Field::ExifLensModel => "ExifLensModel",
            Field::Mime => "Mime",
            Field::LineCount => "LineCount",
            Field::IsBinary => "IsBinary",
            Field::IsText => "IsText",
            Field::IsArchive => "IsArchive",
            Field::IsAudio => "IsAudio",
            Field::IsBook => "IsBook",
            Field::IsDoc => "IsDoc",
            Field::IsFont => "IsFont",
            Field::IsImage => "IsImage",
            Field::IsSource => "IsSource",
            Field::IsVideo => "IsVideo",
            Field::Sha1 => "Sha1",
            Field::Sha256 => "Sha256",
            Field::Sha512 => "Sha512",
            Field::Sha3 => "Sha3",
        }
    }

    /// Reads a field's name, without regard to ASCII case.
    pub fn parse_name(s: &str) -> (r: Result<Field, String>)
        ensures
            match r {
                Ok(f) => spec_field_from_str(s@) == Ok::<Field, Seq<char>>(f),
                Err(e) => spec_field_from_str(s@) == Err::<Field, Seq<char>>(e@),
            },
    {
        let lower = to_ascii_lowercase(s);
        match field_from_lower(lower.as_str()) {
            Some(f) => Ok(f),
            None => {
                let mut msg = str_to_string("Unknown field ");
                push_str(&mut msg, lower.as_str());
                Err(msg)
            },
        }
    }

    /// Reads a possibly qualified field: `alias.field` gives the field with
    /// its root alias, a plain name the field alone.
    pub fn parse_field(s: &str) -> (r: Result<(Field, Option<String>), String>)
        ensures
            parse_field_view(r) == spec_parse_field(s@),
    {
        let n = s.unicode_len();
        let mut count: usize = 0;
        let mut pos: usize = 0;
        let mut i: usize = 0;
        while i < n
            invariant
                n == s@.len(),
                i <= n,
                count <= i,
                count == 0 ==> forall|j: int| 0 <= j < i ==> s@[j] != '.',
                count >= 1 ==> pos < i && s@[pos as int] == '.' && forall|j: int| 0 <= j < pos ==> s@[j] != '.',
                count == 1 ==> forall|j: int| 0 <= j < i && j != pos ==> s@[j] != '.',
                count >= 2 ==> exists|j: int| 0 <= j < i && j != pos && s@[j] == '.',
            decreases n - i,
        {
            if s.get_char(i) == '.' {
                if count == 0 {
                    pos = i;
                }
                count = count + 1;
            }
            i = i + 1;
        }
        if count == 1 {
            assert(single_dot(s@) == Some(pos as int)) by {
                let k = pos as int;
                assert(0 <= k < s@.len() && s@[k] == '.' && (forall|j: int|
                    0 <= j < s@.len() && j != k ==> s@[j] != '.'));
            }
            let alias = s.substring_char(0, pos);
            let rest = s.substring_char(pos + 1, n);
            assert(rest@ =~= s@.skip(pos + 1));
            match Field::parse_name(rest) {
                Ok(f) => Ok((f, Some(str_to_string(alias)))),
                Err(e) => Err(e),
            }
        } else {
            assert(single_dot(s@) is None) by {
                if exists|k: int| #![trigger s@[k]] 0 <= k < s@.len() && s@[k] == '.' && (forall|j: int|
                    0 <= j < s@.len() && j != k ==> s@[j] != '.') {
                    let k = choose|k: int| #![trigger s@[k]] 0 <= k < s@.len() && s@[k] == '.' && (forall|j: int|
                        0 <= j < s@.len() && j != k ==> s@[j] != '.');
                    if count == 0 {
                        assert(s@[k] != '.');
                    } else {
                        let j = choose|j: int| 0 <= j < n && j != pos && s@[j] == '.';
                        assert(k == pos || s@[pos as int] != '.');
                        assert(s@[j] != '.');
                    }
                }
            }
            match Field::parse_name(s) {
                Ok(f) => Ok((f, None)),
                Err(e) => Err(e),
            }
        }
    }
}

impl std::str::FromStr for Field {
    type Err = String;

    fn from_str(s: &str) -> (r: Result<Self, Self::Err>)
        ensures
            match r {
                Ok(f) => spec_field_from_str(s@) == Ok::<Field, Seq<char>>(f),
                Err(e) => spec_field_from_str(s@) == Err::<Field, Seq<char>>(e@),
            },
    {
        Field::parse_name(s)
    }
}

/// The first spelling of each field in the list of fields.
pub open spec fn field_spelling(f: Field) -> Seq<char> {
    match f {
        Field::Name => "name"@,
        Field::Extension => "ext"@,
        Field::Path => "path"@,
        Field::AbsPath => "abspath"@,
        Field::Directory => "dir"@,
        Field::AbsDir => "absdir"@,
        Field::Size => "size"@,
        Field::FormattedSize => "fsize"@,
        Field::Uid => "uid"@,
        Field::Gid => "gid"@,
        Field::User => "user"@,
        Field::Group => "group"@,
        Field::Created => "created"@,
        Field::Accessed => "accessed"@,
        Field::Modified => "modified"@,
        Field::IsDir => "is_dir"@,
        Field::IsFile => "is_file"@,
        Field::IsSymlink => "is_symlink"@,
        Field::IsPipe => "is_pipe"@,
        Field::IsCharacterDevice => "is_char"@,
        Field::IsBlockDevice => "is_block"@,
        Field::IsSocket => "is_socket"@,
        Field::Device => "device"@,
        Field::Inode => "inode"@,
        Field::Blocks => "blocks"@,
        Field::Hardlinks => "hardlinks"@,
        Field::Mode => "mode"@,
        Field::UserRead => "user_read"@,
        Field::UserWrite => "user_write"@,
        Field::UserExec => "user_exec"@,
        Field::UserAll => "user_all"@,
        Field::GroupRead => "group_read"@,
        Field::GroupWrite => "group_write"@,
        Field::GroupExec => "group_exec"@,
        Field::GroupAll => "group_all"@,
        Field::OtherRead => "other_read"@,
        Field::OtherWrite => "other_write"@,
        Field::OtherExec => "other_exec"@,
        Field::OtherAll => "other_all"@,
        Field::Suid => "suid"@,
        Field::Sgid => "sgid"@,
        Field::IsHidden => "is_hidden"@,
        Field::HasXattrs => "has_xattrs"@,
        Field::Capabilities => "capabilities"@,
        Field::IsShebang => "is_shebang"@,
        Field::IsEmpty => "is_empty"@,
        Field::Width => "width"@,
        Field::Height => "height"@,
        Field::Duration => "duration"@,
        Field::Bitrate => "mp3_bitrate"@,
        Field::Freq => "mp3_freq"@,
        Field::Title => "mp3_title"@,
        Field::Artist => "mp3_artist"@,
        Field::Album => "mp3_album"@,
        Field::Year => "mp3_year"@,
        Field::Genre => "mp3_genre"@,
        Field::ExifDateTime => "exif_datetime"@,
        Field::ExifGpsAltitude => "exif_altitude"@,
        Field::ExifGpsLatitude => "exif_latitude"@,
        Field::ExifGpsLongitude => "exif_longitude"@,
        Field::ExifMake => "exif_make"@,
        Field::ExifModel => "exif_model"@,
        Field::ExifSoftware => "exif_software"@,
        Field::ExifVersion => "exif_version"@,
        Field::ExifExposureTime => "exif_exposure_time"@,
        Field::ExifAperture => "exif_aperture"@,
        Field::ExifShutterSpeed => "exif_shutter_speed"@,
        Field::ExifFNumber => "exif_f_number"@,
        Field::ExifIsoSpeed => "exif_iso_speed"@,
        Field::ExifFocalLength => "exif_focal_length"@,
        Field::ExifLensMake => "exif_lens_make"@,
        Field::ExifLensModel => "exif_lens_model"@,
        Field::Mime => "mime"@,
        Field::LineCount => "line_count"@,
        Field::IsBinary => "is_binary"@,
        Field::IsText => "is_text"@,
        Field::IsArchive => "is_archive"@,
        Field::IsAudio => "is_audio"@,
        Field::IsBook => "is_book"@,
        Field::IsDoc => "is_doc"@,
        Field::IsFont => "is_font"@,
        Field::IsImage => "is_image"@,
        Field::IsSource => "is_source"@,
        Field::IsVideo => "is_video"@,
        Field::Sha1 => "sha1"@,
        Field::Sha256 => "sha2_256"@,
        Field::Sha512 => "sha2_512"@,
        Field::Sha3 => "sha3_512"@,
    }
}

/// Each field's spelling names that field, and no other: reading the
/// spelling gives back the field it belongs to.
#[verifier::rlimit(100)]
#[verifier::spinoff_prover]
pub proof fn law_field_spelling(f: Field)
    ensures
        spec_field_from_lower(field_spelling(f)) == Some(f),
{
    reveal_strlit("name");
    assert("name"@.len() == 4 && "name"@[0] == 'n' && "name"@[1] == 'a' && "name"@[2] == 'm' && "name"@[3] == 'e');
    reveal_strlit("ext");
    assert("ext"@.len() == 3 && "ext"@[0] == 'e' && "ext"@[1] == 'x' && "ext"@[2] == 't');
    reveal_strlit("extension");
    assert("extension"@.len() == 9 && "extension"@[0] == 'e' && "extension"@[1] == 'x' && "extension"@[2] == 't' && "extension"@[3] == 'e' && "extension"@[4] == 'n' && "extension"@[5] == 's' && "extension"@[6] == 'i' && "extension"@[7] == 'o' && "extension"@[8] == 'n');
    reveal_strlit("path");
    assert("path"@.len() == 4 && "path"@[0] == 'p' && "path"@[1] == 'a' && "path"@[2] == 't' && "path"@[3] == 'h');
    reveal_strlit("abspath");
    assert("abspath"@.len() == 7 && "abspath"@[0] == 'a' && "abspath"@[1] == 'b' && "abspath"@[2] == 's' && "abspath"@[3] == 'p' && "abspath"@[4] == 'a' && "abspath"@[5] == 't' && "abspath"@[6] == 'h');
    reveal_strlit("dir");
    assert("dir"@.len() == 3 && "dir"@[0] == 'd' && "dir"@[1] == 'i' && "dir"@[2] == 'r');
    reveal_strlit("directory");
    assert("directory"@.len() == 9 && "directory"@[0] == 'd' && "directory"@[1] == 'i' && "directory"@[2] == 'r' && "directory"@[3] == 'e' && "directory"@[4] == 'c' && "directory"@[5] == 't' && "directory"@[6] == 'o' && "directory"@[7] == 'r' && "directory"@[8] == 'y');
    reveal_strlit("dirname");
    assert("dirname"@.len() == 7 && "dirname"@[0] == 'd' && "dirname"@[1] == 'i' && "dirname"@[2] == 'r' && "dirname"@[3] == 'n' && "dirname"@[4] == 'a' && "dirname"@[5] == 'm' && "dirname"@[6] == 'e');
    reveal_strlit("absdir");
    assert("absdir"@.len() == 6 && "absdir"@[0] == 'a' && "absdir"@[1] == 'b' && "absdir"@[2] == 's' && "absdir"@[3] == 'd' && "absdir"@[4] == 'i' && "absdir"@[5] == 'r');
    reveal_strlit("size");
    assert("size"@.len() == 4 && "size"@[0] == 's' && "size"@[1] == 'i' && "size"@[2] == 'z' && "size"@[3] == 'e');
    reveal_strlit("fsize");
    assert("fsize"@.len() == 5 && "fsize"@[0] == 'f' && "fsize"@[1] == 's' && "fsize"@[2] == 'i' && "fsize"@[3] == 'z' && "fsize"@[4] == 'e');
    reveal_strlit("hsize");
    assert("hsize"@.len() == 5 && "hsize"@[0] == 'h' && "hsize"@[1] == 's' && "hsize"@[2] == 'i' && "hsize"@[3] == 'z' && "hsize"@[4] == 'e');
    reveal_strlit("uid");
    assert("uid"@.len() == 3 && "uid"@[0] == 'u' && "uid"@[1] == 'i' && "uid"@[2] == 'd');
    reveal_strlit("gid");
    assert("gid"@.len() == 3 && "gid"@[0] == 'g' && "gid"@[1] == 'i' && "gid"@[2] == 'd');
    reveal_strlit("user");
    assert("user"@.len() == 4 && "user"@[0] == 'u' && "user"@[1] == 's' && "user"@[2] == 'e' && "user"@[3] == 'r');
    reveal_strlit("group");
    assert("group"@.len() == 5 && "group"@[0] == 'g' && "group"@[1] == 'r' && "group"@[2] == 'o' && "group"@[3] == 'u' && "group"@[4] == 'p');
    reveal_strlit("created");
    assert("created"@.len() == 7 && "created"@[0] == 'c' && "created"@[1] == 'r' && "created"@[2] == 'e' && "created"@[3] == 'a' && "created"@[4] == 't' && "created"@[5] == 'e' && "created"@[6] == 'd');
    reveal_strlit("accessed");
    assert("accessed"@.len() == 8 && "accessed"@[0] == 'a' && "accessed"@[1] == 'c' && "accessed"@[2] == 'c' && "accessed"@[3] == 'e' && "accessed"@[4] == 's' && "accessed"@[5] == 's' && "accessed"@[6] == 'e' && "accessed"@[7] == 'd');
    reveal_strlit("modified");
    assert("modified"@.len() == 8 && "modified"@[0] == 'm' && "modified"@[1] == 'o' && "modified"@[2] == 'd' && "modified"@[3] == 'i' && "modified"@[4] == 'f' && "modified"@[5] == 'i' && "modified"@[6] == 'e' && "modified"@[7] == 'd');
    reveal_strlit("is_dir");
    assert("is_dir"@.len() == 6 && "is_dir"@[0] == 'i' && "is_dir"@[1] == 's' && "is_dir"@[2] == '_' && "is_dir"@[3] == 'd' && "is_dir"@[4] == 'i' && "is_dir"@[5] == 'r');
    reveal_strlit("is_file");
    assert("is_file"@.len() == 7 && "is_file"@[0] == 'i' && "is_file"@[1] == 's' && "is_file"@[2] == '_' && "is_file"@[3] == 'f' && "is_file"@[4] == 'i' && "is_file"@[5] == 'l' && "is_file"@[6] == 'e');
    reveal_strlit("is_symlink");
    assert("is_symlink"@.len() == 10 && "is_symlink"@[0] == 'i' && "is_symlink"@[1] == 's' && "is_symlink"@[2] == '_' && "is_symlink"@[3] == 's' && "is_symlink"@[4] == 'y' && "is_symlink"@[5] == 'm' && "is_symlink"@[6] == 'l' && "is_symlink"@[7] == 'i' && "is_symlink"@[8] == 'n' && "is_symlink"@[9] == 'k');
    reveal_strlit("is_pipe");
    assert("is_pipe"@.len() == 7 && "is_pipe"@[0] == 'i' && "is_pipe"@[1] == 's' && "is_pipe"@[2] == '_' && "is_pipe"@[3] == 'p' && "is_pipe"@[4] == 'i' && "is_pipe"@[5] == 'p' && "is_pipe"@[6] == 'e');
    reveal_strlit("is_fifo");
    assert("is_fifo"@.len() == 7 && "is_fifo"@[0] == 'i' && "is_fifo"@[1] == 's' && "is_fifo"@[2] == '_' && "is_fifo"@[3] == 'f' && "is_fifo"@[4] == 'i' && "is_fifo"@[5] == 'f' && "is_fifo"@[6] == 'o');
    reveal_strlit("is_char");
    assert("is_char"@.len() == 7 && "is_char"@[0] == 'i' && "is_char"@[1] == 's' && "is_char"@[2] == '_' && "is_char"@[3] == 'c' && "is_char"@[4] == 'h' && "is_char"@[5] == 'a' && "is_char"@[6] == 'r');
    reveal_strlit("is_character");
    assert("is_character"@.len() == 12 && "is_character"@[0] == 'i' && "is_character"@[1] == 's' && "is_character"@[2] == '_' && "is_character"@[3] == 'c' && "is_character"@[4] == 'h' && "is_character"@[5] == 'a' && "is_character"@[6] == 'r' && "is_character"@[7] == 'a' && "is_character"@[8] == 'c' && "is_character"@[9] == 't' && "is_character"@[10] == 'e' && "is_character"@[11] == 'r');
    reveal_strlit("is_block");
    assert("is_block"@.len() == 8 && "is_block"@[0] == 'i' && "is_block"@[1] == 's' && "is_block"@[2] == '_' && "is_block"@[3] == 'b' && "is_block"@[4] == 'l' && "is_block"@[5] == 'o' && "is_block"@[6] == 'c' && "is_block"@[7] == 'k');
    reveal_strlit("is_socket");
    assert("is_socket"@.len() == 9 && "is_socket"@[0] == 'i' && "is_socket"@[1] == 's' && "is_socket"@[2] == '_' && "is_socket"@[3] == 's' && "is_socket"@[4] == 'o' && "is_socket"@[5] == 'c' && "is_socket"@[6] == 'k' && "is_socket"@[7] == 'e' && "is_socket"@[8] == 't');
    reveal_strlit("device");
    assert("device"@.len() == 6 && "device"@[0] == 'd' && "device"@[1] == 'e' && "device"@[2] == 'v' && "device"@[3] == 'i' && "device"@[4] == 'c' && "device"@[5] == 'e');
    reveal_strlit("inode");
    assert("inode"@.len() == 5 && "inode"@[0] == 'i' && "inode"@[1] == 'n' && "inode"@[2] == 'o' && "inode"@[3] == 'd' && "inode"@[4] == 'e');
    reveal_strlit("blocks");
    assert("blocks"@.len() == 6 && "blocks"@[0] == 'b' && "blocks"@[1] == 'l' && "blocks"@[2] == 'o' && "blocks"@[3] == 'c' && "blocks"@[4] == 'k' && "blocks"@[5] == 's');
    reveal_strlit("hardlinks");
    assert("hardlinks"@.len() == 9 && "hardlinks"@[0] == 'h' && "hardlinks"@[1] == 'a' && "hardlinks"@[2] == 'r' && "hardlinks"@[3] == 'd' && "hardlinks"@[4] == 'l' && "hardlinks"@[5] == 'i' && "hardlinks"@[6] == 'n' && "hardlinks"@[7] == 'k' && "hardlinks"@[8] == 's');
    reveal_strlit("mode");
    assert("mode"@.len() == 4 && "mode"@[0] == 'm' && "mode"@[1] == 'o' && "mode"@[2] == 'd' && "mode"@[3] == 'e');
    reveal_strlit("user_read");
    assert("user_read"@.len() == 9 && "user_read"@[0] == 'u' && "user_read"@[1] == 's' && "user_read"@[2] == 'e' && "user_read"@[3] == 'r' && "user_read"@[4] == '_' && "user_read"@[5] == 'r' && "user_read"@[6] == 'e' && "user_read"@[7] == 'a' && "user_read"@[8] == 'd');
    reveal_strlit("user_write");
    assert("user_write"@.len() == 10 && "user_write"@[0] == 'u' && "user_write"@[1] == 's' && "user_write"@[2] == 'e' && "user_write"@[3] == 'r' && "user_write"@[4] == '_' && "user_write"@[5] == 'w' && "user_write"@[6] == 'r' && "user_write"@[7] == 'i' && "user_write"@[8] == 't' && "user_write"@[9] == 'e');
    reveal_strlit("user_exec");
    assert("user_exec"@.len() == 9 && "user_exec"@[0] == 'u' && "user_exec"@[1] == 's' && "user_exec"@[2] == 'e' && "user_exec"@[3] == 'r' && "user_exec"@[4] == '_' && "user_exec"@[5] == 'e' && "user_exec"@[6] == 'x' && "user_exec"@[7] == 'e' && "user_exec"@[8] == 'c');
    reveal_strlit("user_all");
    assert("user_all"@.len() == 8 && "user_all"@[0] == 'u' && "user_all"@[1] == 's' && "user_all"@[2] == 'e' && "user_all"@[3] == 'r' && "user_all"@[4] == '_' && "user_all"@[5] == 'a' && "user_all"@[6] == 'l' && "user_all"@[7] == 'l');
    reveal_strlit("user_rwx");
    assert("user_rwx"@.len() == 8 && "user_rwx"@[0] == 'u' && "user_rwx"@[1] == 's' && "user_rwx"@[2] == 'e' && "user_rwx"@[3] == 'r' && "user_rwx"@[4] == '_' && "user_rwx"@[5] == 'r' && "user_rwx"@[6] == 'w' && "user_rwx"@[7] == 'x');
    reveal_strlit("group_read");
    assert("group_read"@.len() == 10 && "group_read"@[0] == 'g' && "group_read"@[1] == 'r' && "group_read"@[2] == 'o' && "group_read"@[3] == 'u' && "group_read"@[4] == 'p' && "group_read"@[5] == '_' && "group_read"@[6] == 'r' && "group_read"@[7] == 'e' && "group_read"@[8] == 'a' && "group_read"@[9] == 'd');
    reveal_strlit("group_write");
    assert("group_write"@.len() == 11 && "group_write"@[0] == 'g' && "group_write"@[1] == 'r' && "group_write"@[2] == 'o' && "group_write"@[3] == 'u' && "group_write"@[4] == 'p' && "group_write"@[5] == '_' && "group_write"@[6] == 'w' && "group_write"@[7] == 'r' && "group_write"@[8] == 'i' && "group_write"@[9] == 't' && "group_write"@[10] == 'e');
    reveal_strlit("group_exec");
    assert("group_exec"@.len() == 10 && "group_exec"@[0] == 'g' && "group_exec"@[1] == 'r' && "group_exec"@[2] == 'o' && "group_exec"@[3] == 'u' && "group_exec"@[4] == 'p' && "group_exec"@[5] == '_' && "group_exec"@[6] == 'e' && "group_exec"@[7] == 'x' && "group_exec"@[8] == 'e' && "group_exec"@[9] == 'c');
    reveal_strlit("group_all");
    assert("group_all"@.len() == 9 && "group_all"@[0] == 'g' && "group_all"@[1] == 'r' && "group_all"@[2] == 'o' && "group_all"@[3] == 'u' && "group_all"@[4] == 'p' && "group_all"@[5] == '_' && "group_all"@[6] == 'a' && "group_all"@[7] == 'l' && "group_all"@[8] == 'l');
    reveal_strlit("group_rwx");
    assert("group_rwx"@.len() == 9 && "group_rwx"@[0] == 'g' && "group_rwx"@[1] == 'r' && "group_rwx"@[2] == 'o' && "group_rwx"@[3] == 'u' && "group_rwx"@[4] == 'p' && "group_rwx"@[5] == '_' && "group_rwx"@[6] == 'r' && "group_rwx"@[7] == 'w' && "group_rwx"@[8] == 'x');
    reveal_strlit("other_read");
    assert("other_read"@.len() == 10 && "other_read"@[0] == 'o' && "other_read"@[1] == 't' && "other_read"@[2] == 'h' && "other_read"@[3] == 'e' && "other_read"@[4] == 'r' && "other_read"@[5] == '_' && "other_read"@[6] == 'r' && "other_read"@[7] == 'e' && "other_read"@[8] == 'a' && "other_read"@[9] == 'd');
    reveal_strlit("other_write");
    assert("other_write"@.len() == 11 && "other_write"@[0] == 'o' && "other_write"@[1] == 't' && "other_write"@[2] == 'h' && "other_write"@[3] == 'e' && "other_write"@[4] == 'r' && "other_write"@[5] == '_' && "other_write"@[6] == 'w' && "other_write"@[7] == 'r' && "other_write"@[8] == 'i' && "other_write"@[9] == 't' && "other_write"@[10] == 'e');
    reveal_strlit("other_exec");
    assert("other_exec"@.len() == 10 && "other_exec"@[0] == 'o' && "other_exec"@[1] == 't' && "other_exec"@[2] == 'h' && "other_exec"@[3] == 'e' && "other_exec"@[4] == 'r' && "other_exec"@[5] == '_' && "other_exec"@[6] == 'e' && "other_exec"@[7] == 'x' && "other_exec"@[8] == 'e' && "other_exec"@[9] == 'c');
    reveal_strlit("other_all");
    assert("other_all"@.len() == 9 && "other_all"@[0] == 'o' && "other_all"@[1] == 't' && "other_all"@[2] == 'h' && "other_all"@[3] == 'e' && "other_all"@[4] == 'r' && "other_all"@[5] == '_' && "other_all"@[6] == 'a' && "other_all"@[7] == 'l' && "other_all"@[8] == 'l');
    reveal_strlit("other_rwx");
    assert("other_rwx"@.len() == 9 && "other_rwx"@[0] == 'o' && "other_rwx"@[1] == 't' && "other_rwx"@[2] == 'h' && "other_rwx"@[3] == 'e' && "other_rwx"@[4] == 'r' && "other_rwx"@[5] == '_' && "other_rwx"@[6] == 'r' && "other_rwx"@[7] == 'w' && "other_rwx"@[8] == 'x');
    reveal_strlit("suid");
    assert("suid"@.len() == 4 && "suid"@[0] == 's' && "suid"@[1] == 'u' && "suid"@[2] == 'i' && "suid"@[3] == 'd');
    reveal_strlit("sgid");
    assert("sgid"@.len() == 4 && "sgid"@[0] == 's' && "sgid"@[1] == 'g' && "sgid"@[2] == 'i' && "sgid"@[3] == 'd');
    reveal_strlit("is_hidden");
    assert("is_hidden"@.len() == 9 && "is_hidden"@[0] == 'i' && "is_hidden"@[1] == 's' && "is_hidden"@[2] == '_' && "is_hidden"@[3] == 'h' && "is_hidden"@[4] == 'i' && "is_hidden"@[5] == 'd' && "is_hidden"@[6] == 'd' && "is_hidden"@[7] == 'e' && "is_hidden"@[8] == 'n');
    reveal_strlit("has_xattrs");
    assert("has_xattrs"@.len() == 10 && "has_xattrs"@[0] == 'h' && "has_xattrs"@[1] == 'a' && "has_xattrs"@[2] == 's' && "has_xattrs"@[3] == '_' && "has_xattrs"@[4] == 'x' && "has_xattrs"@[5] == 'a' && "has_xattrs"@[6] == 't' && "has_xattrs"@[7] == 't' && "has_xattrs"@[8] == 'r' && "has_xattrs"@[9] == 's');
    reveal_strlit("capabilities");
    assert("capabilities"@.len() == 12 && "capabilities"@[0] == 'c' && "capabilities"@[1] == 'a' && "capabilities"@[2] == 'p' && "capabilities"@[3] == 'a' && "capabilities"@[4] == 'b' && "capabilities"@[5] == 'i' && "capabilities"@[6] == 'l' && "capabilities"@[7] == 'i' && "capabilities"@[8] == 't' && "capabilities"@[9] == 'i' && "capabilities"@[10] == 'e' && "capabilities"@[11] == 's');
    reveal_strlit("caps");
    assert("caps"@.len() == 4 && "caps"@[0] == 'c' && "caps"@[1] == 'a' && "caps"@[2] == 'p' && "caps"@[3] == 's');
    reveal_strlit("is_shebang");
    assert("is_shebang"@.len() == 10 && "is_shebang"@[0] == 'i' && "is_shebang"@[1] == 's' && "is_shebang"@[2] == '_' && "is_shebang"@[3] == 's' && "is_shebang"@[4] == 'h' && "is_shebang"@[5] == 'e' && "is_shebang"@[6] == 'b' && "is_shebang"@[7] == 'a' && "is_shebang"@[8] == 'n' && "is_shebang"@[9] == 'g');
    reveal_strlit("is_empty");
    assert("is_empty"@.len() == 8 && "is_empty"@[0] == 'i' && "is_empty"@[1] == 's' && "is_empty"@[2] == '_' && "is_empty"@[3] == 'e' && "is_empty"@[4] == 'm' && "is_empty"@[5] == 'p' && "is_empty"@[6] == 't' && "is_empty"@[7] == 'y');
    reveal_strlit("width");
    assert("width"@.len() == 5 && "width"@[0] == 'w' && "width"@[1] == 'i' && "width"@[2] == 'd' && "width"@[3] == 't' && "width"@[4] == 'h');
    reveal_strlit("height");
    assert("height"@.len() == 6 && "height"@[0] == 'h' && "height"@[1] == 'e' && "height"@[2] == 'i' && "height"@[3] == 'g' && "height"@[4] == 'h' && "height"@[5] == 't');
    reveal_strlit("duration");
    assert("duration"@.len() == 8 && "duration"@[0] == 'd' && "duration"@[1] == 'u' && "duration"@[2] == 'r' && "duration"@[3] == 'a' && "duration"@[4] == 't' && "duration"@[5] == 'i' && "duration"@[6] == 'o' && "duration"@[7] == 'n');
    reveal_strlit("mp3_bitrate");
    assert("mp3_bitrate"@.len() == 11 && "mp3_bitrate"@[0] == 'm' && "mp3_bitrate"@[1] == 'p' && "mp3_bitrate"@[2] == '3' && "mp3_bitrate"@[3] == '_' && "mp3_bitrate"@[4] == 'b' && "mp3_bitrate"@[5] == 'i' && "mp3_bitrate"@[6] == 't' && "mp3_bitrate"@[7] == 'r' && "mp3_bitrate"@[8] == 'a' && "mp3_bitrate"@[9] == 't' && "mp3_bitrate"@[10] == 'e');
    reveal_strlit("bitrate");
    assert("bitrate"@.len() == 7 && "bitrate"@[0] == 'b' && "bitrate"@[1] == 'i' && "bitrate"@[2] == 't' && "bitrate"@[3] == 'r' && "bitrate"@[4] == 'a' && "bitrate"@[5] == 't' && "bitrate"@[6] == 'e');
    reveal_strlit("mp3_freq");
    assert("mp3_freq"@.len() == 8 && "mp3_freq"@[0] == 'm' && "mp3_freq"@[1] == 'p' && "mp3_freq"@[2] == '3' && "mp3_freq"@[3] == '_' && "mp3_freq"@[4] == 'f' && "mp3_freq"@[5] == 'r' && "mp3_freq"@[6] == 'e' && "mp3_freq"@[7] == 'q');
    reveal_strlit("freq");
    assert("freq"@.len() == 4 && "freq"@[0] == 'f' && "freq"@[1] == 'r' && "freq"@[2] == 'e' && "freq"@[3] == 'q');
    reveal_strlit("mp3_title");
    assert("mp3_title"@.len() == 9 && "mp3_title"@[0] == 'm' && "mp3_title"@[1] == 'p' && "mp3_title"@[2] == '3' && "mp3_title"@[3] == '_' && "mp3_title"@[4] == 't' && "mp3_title"@[5] == 'i' && "mp3_title"@[6] == 't' && "mp3_title"@[7] == 'l' && "mp3_title"@[8] == 'e');
    reveal_strlit("title");
    assert("title"@.len() == 5 && "title"@[0] == 't' && "title"@[1] == 'i' && "title"@[2] == 't' && "title"@[3] == 'l' && "title"@[4] == 'e');
    reveal_strlit("mp3_artist");
    assert("mp3_artist"@.len() == 10 && "mp3_artist"@[0] == 'm' && "mp3_artist"@[1] == 'p' && "mp3_artist"@[2] == '3' && "mp3_artist"@[3] == '_' && "mp3_artist"@[4] == 'a' && "mp3_artist"@[5] == 'r' && "mp3_artist"@[6] == 't' && "mp3_artist"@[7] == 'i' && "mp3_artist"@[8] == 's' && "mp3_artist"@[9] == 't');
    reveal_strlit("artist");
    assert("artist"@.len() == 6 && "artist"@[0] == 'a' && "artist"@[1] == 'r' && "artist"@[2] == 't' && "artist"@[3] == 'i' && "artist"@[4] == 's' && "artist"@[5] == 't');
    reveal_strlit("mp3_album");
    assert("mp3_album"@.len() == 9 && "mp3_album"@[0] == 'm' && "mp3_album"@[1] == 'p' && "mp3_album"@[2] == '3' && "mp3_album"@[3] == '_' && "mp3_album"@[4] == 'a' && "mp3_album"@[5] == 'l' && "mp3_album"@[6] == 'b' && "mp3_album"@[7] == 'u' && "mp3_album"@[8] == 'm');
    reveal_strlit("album");
    assert("album"@.len() == 5 && "album"@[0] == 'a' && "album"@[1] == 'l' && "album"@[2] == 'b' && "album"@[3] == 'u' && "album"@[4] == 'm');
    reveal_strlit("mp3_year");
    assert("mp3_year"@.len() == 8 && "mp3_year"@[0] == 'm' && "mp3_year"@[1] == 'p' && "mp3_year"@[2] == '3' && "mp3_year"@[3] == '_' && "mp3_year"@[4] == 'y' && "mp3_year"@[5] == 'e' && "mp3_year"@[6] == 'a' && "mp3_year"@[7] == 'r');
    reveal_strlit("mp3_genre");
    assert("mp3_genre"@.len() == 9 && "mp3_genre"@[0] == 'm' && "mp3_genre"@[1] == 'p' && "mp3_genre"@[2] == '3' && "mp3_genre"@[3] == '_' && "mp3_genre"@[4] == 'g' && "mp3_genre"@[5] == 'e' && "mp3_genre"@[6] == 'n' && "mp3_genre"@[7] == 'r' && "mp3_genre"@[8] == 'e');
    reveal_strlit("genre");
    assert("genre"@.len() == 5 && "genre"@[0] == 'g' && "genre"@[1] == 'e' && "genre"@[2] == 'n' && "genre"@[3] == 'r' && "genre"@[4] == 'e');
    reveal_strlit("exif_datetime");
    assert("exif_datetime"@.len() == 13 && "exif_datetime"@[0] == 'e' && "exif_datetime"@[1] == 'x' && "exif_datetime"@[2] == 'i' && "exif_datetime"@[3] == 'f' && "exif_datetime"@[4] == '_' && "exif_datetime"@[5] == 'd' && "exif_datetime"@[6] == 'a' && "exif_datetime"@[7] == 't' && "exif_datetime"@[8] == 'e' && "exif_datetime"@[9] == 't' && "exif_datetime"@[10] == 'i' && "exif_datetime"@[11] == 'm' && "exif_datetime"@[12] == 'e');
    reveal_strlit("exif_altitude");
    assert("exif_altitude"@.len() == 13 && "exif_altitude"@[0] == 'e' && "exif_altitude"@[1] == 'x' && "exif_altitude"@[2] == 'i' && "exif_altitude"@[3] == 'f' && "exif_altitude"@[4] == '_' && "exif_altitude"@[5] == 'a' && "exif_altitude"@[6] == 'l' && "exif_altitude"@[7] == 't' && "exif_altitude"@[8] == 'i' && "exif_altitude"@[9] == 't' && "exif_altitude"@[10] == 'u' && "exif_altitude"@[11] == 'd' && "exif_altitude"@[12] == 'e');
    reveal_strlit("exif_alt");
    assert("exif_alt"@.len() == 8 && "exif_alt"@[0] == 'e' && "exif_alt"@[1] == 'x' && "exif_alt"@[2] == 'i' && "exif_alt"@[3] == 'f' && "exif_alt"@[4] == '_' && "exif_alt"@[5] == 'a' && "exif_alt"@[6] == 'l' && "exif_alt"@[7] == 't');
    reveal_strlit("exif_latitude");
    assert("exif_latitude"@.len() == 13 && "exif_latitude"@[0] == 'e' && "exif_latitude"@[1] == 'x' && "exif_latitude"@[2] == 'i' && "exif_latitude"@[3] == 'f' && "exif_latitude"@[4] == '_' && "exif_latitude"@[5] == 'l' && "exif_latitude"@[6] == 'a' && "exif_latitude"@[7] == 't' && "exif_latitude"@[8] == 'i' && "exif_latitude"@[9] == 't' && "exif_latitude"@[10] == 'u' && "exif_latitude"@[11] == 'd' && "exif_latitude"@[12] == 'e');
    reveal_strlit("exif_lat");
    assert("exif_lat"@.len() == 8 && "exif_lat"@[0] == 'e' && "exif_lat"@[1] == 'x' && "exif_lat"@[2] == 'i' && "exif_lat"@[3] == 'f' && "exif_lat"@[4] == '_' && "exif_lat"@[5] == 'l' && "exif_lat"@[6] == 'a' && "exif_lat"@[7] == 't');
    reveal_strlit("exif_longitude");
    assert("exif_longitude"@.len() == 14 && "exif_longitude"@[0] == 'e' && "exif_longitude"@[1] == 'x' && "exif_longitude"@[2] == 'i' && "exif_longitude"@[3] == 'f' && "exif_longitude"@[4] == '_' && "exif_longitude"@[5] == 'l' && "exif_longitude"@[6] == 'o' && "exif_longitude"@[7] == 'n' && "exif_longitude"@[8] == 'g' && "exif_longitude"@[9] == 'i' && "exif_longitude"@[10] == 't' && "exif_longitude"@[11] == 'u' && "exif_longitude"@[12] == 'd' && "exif_longitude"@[13] == 'e');
    reveal_strlit("exif_lon");
    assert("exif_lon"@.len() == 8 && "exif_lon"@[0] == 'e' && "exif_lon"@[1] == 'x' && "exif_lon"@[2] == 'i' && "exif_lon"@[3] == 'f' && "exif_lon"@[4] == '_' && "exif_lon"@[5] == 'l' && "exif_lon"@[6] == 'o' && "exif_lon"@[7] == 'n');
    reveal_strlit("exif_lng");
    assert("exif_lng"@.len() == 8 && "exif_lng"@[0] == 'e' && "exif_lng"@[1] == 'x' && "exif_lng"@[2] == 'i' && "exif_lng"@[3] == 'f' && "exif_lng"@[4] == '_' && "exif_lng"@[5] == 'l' && "exif_lng"@[6] == 'n' && "exif_lng"@[7] == 'g');
    reveal_strlit("exif_make");
    assert("exif_make"@.len() == 9 && "exif_make"@[0] == 'e' && "exif_make"@[1] == 'x' && "exif_make"@[2] == 'i' && "exif_make"@[3] == 'f' && "exif_make"@[4] == '_' && "exif_make"@[5] == 'm' && "exif_make"@[6] == 'a' && "exif_make"@[7] == 'k' && "exif_make"@[8] == 'e');
    reveal_strlit("exif_model");
    assert("exif_model"@.len() == 10 && "exif_model"@[0] == 'e' && "exif_model"@[1] == 'x' && "exif_model"@[2] == 'i' && "exif_model"@[3] == 'f' && "exif_model"@[4] == '_' && "exif_model"@[5] == 'm' && "exif_model"@[6] == 'o' && "exif_model"@[7] == 'd' && "exif_model"@[8] == 'e' && "exif_model"@[9] == 'l');
    reveal_strlit("exif_software");
    assert("exif_software"@.len() == 13 && "exif_software"@[0] == 'e' && "exif_software"@[1] == 'x' && "exif_software"@[2] == 'i' && "exif_software"@[3] == 'f' && "exif_software"@[4] == '_' && "exif_software"@[5] == 's' && "exif_software"@[6] == 'o' && "exif_software"@[7] == 'f' && "exif_software"@[8] == 't' && "exif_software"@[9] == 'w' && "exif_software"@[10] == 'a' && "exif_software"@[11] == 'r' && "exif_software"@[12] == 'e');
    reveal_strlit("exif_version");
    assert("exif_version"@.len() == 12 && "exif_version"@[0] == 'e' && "exif_version"@[1] == 'x' && "exif_version"@[2] == 'i' && "exif_version"@[3] == 'f' && "exif_version"@[4] == '_' && "exif_version"@[5] == 'v' && "exif_version"@[6] == 'e' && "exif_version"@[7] == 'r' && "exif_version"@[8] == 's' && "exif_version"@[9] == 'i' && "exif_version"@[10] == 'o' && "exif_version"@[11] == 'n');
    reveal_strlit("exif_exposure_time");
    assert("exif_exposure_time"@.len() == 18 && "exif_exposure_time"@[0] == 'e' && "exif_exposure_time"@[1] == 'x' && "exif_exposure_time"@[2] == 'i' && "exif_exposure_time"@[3] == 'f' && "exif_exposure_time"@[4] == '_' && "exif_exposure_time"@[5] == 'e' && "exif_exposure_time"@[6] == 'x' && "exif_exposure_time"@[7] == 'p' && "exif_exposure_time"@[8] == 'o' && "exif_exposure_time"@[9] == 's' && "exif_exposure_time"@[10] == 'u' && "exif_exposure_time"@[11] == 'r' && "exif_exposure_time"@[12] == 'e' && "exif_exposure_time"@[13] == '_' && "exif_exposure_time"@[14] == 't' && "exif_exposure_time"@[15] == 'i' && "exif_exposure_time"@[16] == 'm' && "exif_exposure_time"@[17] == 'e');
    reveal_strlit("exif_exptime");
    assert("exif_exptime"@.len() == 12 && "exif_exptime"@[0] == 'e' && "exif_exptime"@[1] == 'x' && "exif_exptime"@[2] == 'i' && "exif_exptime"@[3] == 'f' && "exif_exptime"@[4] == '_' && "exif_exptime"@[5] == 'e' && "exif_exptime"@[6] == 'x' && "exif_exptime"@[7] == 'p' && "exif_exptime"@[8] == 't' && "exif_exptime"@[9] == 'i' && "exif_exptime"@[10] == 'm' && "exif_exptime"@[11] == 'e');
    reveal_strlit("exif_aperture");
    assert("exif_aperture"@.len() == 13 && "exif_aperture"@[0] == 'e' && "exif_aperture"@[1] == 'x' && "exif_aperture"@[2] == 'i' && "exif_aperture"@[3] == 'f' && "exif_aperture"@[4] == '_' && "exif_aperture"@[5] == 'a' && "exif_aperture"@[6] == 'p' && "exif_aperture"@[7] == 'e' && "exif_aperture"@[8] == 'r' && "exif_aperture"@[9] == 't' && "exif_aperture"@[10] == 'u' && "exif_aperture"@[11] == 'r' && "exif_aperture"@[12] == 'e');
    reveal_strlit("exif_shutter_speed");
    assert("exif_shutter_speed"@.len() == 18 && "exif_shutter_speed"@[0] == 'e' && "exif_shutter_speed"@[1] == 'x' && "exif_shutter_speed"@[2] == 'i' && "exif_shutter_speed"@[3] == 'f' && "exif_shutter_speed"@[4] == '_' && "exif_shutter_speed"@[5] == 's' && "exif_shutter_speed"@[6] == 'h' && "exif_shutter_speed"@[7] == 'u' && "exif_shutter_speed"@[8] == 't' && "exif_shutter_speed"@[9] == 't' && "exif_shutter_speed"@[10] == 'e' && "exif_shutter_speed"@[11] == 'r' && "exif_shutter_speed"@[12] == '_' && "exif_shutter_speed"@[13] == 's' && "exif_shutter_speed"@[14] == 'p' && "exif_shutter_speed"@[15] == 'e' && "exif_shutter_speed"@[16] == 'e' && "exif_shutter_speed"@[17] == 'd');
    reveal_strlit("exif_f_number");
    assert("exif_f_number"@.len() == 13 && "exif_f_number"@[0] == 'e' && "exif_f_number"@[1] == 'x' && "exif_f_number"@[2] == 'i' && "exif_f_number"@[3] == 'f' && "exif_f_number"@[4] == '_' && "exif_f_number"@[5] == 'f' && "exif_f_number"@[6] == '_' && "exif_f_number"@[7] == 'n' && "exif_f_number"@[8] == 'u' && "exif_f_number"@[9] == 'm' && "exif_f_number"@[10] == 'b' && "exif_f_number"@[11] == 'e' && "exif_f_number"@[12] == 'r');
    reveal_strlit("exif_f_num");
    assert("exif_f_num"@.len() == 10 && "exif_f_num"@[0] == 'e' && "exif_f_num"@[1] == 'x' && "exif_f_num"@[2] == 'i' && "exif_f_num"@[3] == 'f' && "exif_f_num"@[4] == '_' && "exif_f_num"@[5] == 'f' && "exif_f_num"@[6] == '_' && "exif_f_num"@[7] == 'n' && "exif_f_num"@[8] == 'u' && "exif_f_num"@[9] == 'm');
    reveal_strlit("exif_iso_speed");
    assert("exif_iso_speed"@.len() == 14 && "exif_iso_speed"@[0] == 'e' && "exif_iso_speed"@[1] == 'x' && "exif_iso_speed"@[2] == 'i' && "exif_iso_speed"@[3] == 'f' && "exif_iso_speed"@[4] == '_' && "exif_iso_speed"@[5] == 'i' && "exif_iso_speed"@[6] == 's' && "exif_iso_speed"@[7] == 'o' && "exif_iso_speed"@[8] == '_' && "exif_iso_speed"@[9] == 's' && "exif_iso_speed"@[10] == 'p' && "exif_iso_speed"@[11] == 'e' && "exif_iso_speed"@[12] == 'e' && "exif_iso_speed"@[13] == 'd');
    reveal_strlit("exif_iso");
    assert("exif_iso"@.len() == 8 && "exif_iso"@[0] == 'e' && "exif_iso"@[1] == 'x' && "exif_iso"@[2] == 'i' && "exif_iso"@[3] == 'f' && "exif_iso"@[4] == '_' && "exif_iso"@[5] == 'i' && "exif_iso"@[6] == 's' && "exif_iso"@[7] == 'o');
    reveal_strlit("exif_focal_length");
    assert("exif_focal_length"@.len() == 17 && "exif_focal_length"@[0] == 'e' && "exif_focal_length"@[1] == 'x' && "exif_focal_length"@[2] == 'i' && "exif_focal_length"@[3] == 'f' && "exif_focal_length"@[4] == '_' && "exif_focal_length"@[5] == 'f' && "exif_focal_length"@[6] == 'o' && "exif_focal_length"@[7] == 'c' && "exif_focal_length"@[8] == 'a' && "exif_focal_length"@[9] == 'l' && "exif_focal_length"@[10] == '_' && "exif_focal_length"@[11] == 'l' && "exif_focal_length"@[12] == 'e' && "exif_focal_length"@[13] == 'n' && "exif_focal_length"@[14] == 'g' && "exif_focal_length"@[15] == 't' && "exif_focal_length"@[16] == 'h');
    reveal_strlit("exif_focal_len");
    assert("exif_focal_len"@.len() == 14 && "exif_focal_len"@[0] == 'e' && "exif_focal_len"@[1] == 'x' && "exif_focal_len"@[2] == 'i' && "exif_focal_len"@[3] == 'f' && "exif_focal_len"@[4] == '_' && "exif_focal_len"@[5] == 'f' && "exif_focal_len"@[6] == 'o' && "exif_focal_len"@[7] == 'c' && "exif_focal_len"@[8] == 'a' && "exif_focal_len"@[9] == 'l' && "exif_focal_len"@[10] == '_' && "exif_focal_len"@[11] == 'l' && "exif_focal_len"@[12] == 'e' && "exif_focal_len"@[13] == 'n');
    reveal_strlit("exif_lens_make");
    assert("exif_lens_make"@.len() == 14 && "exif_lens_make"@[0] == 'e' && "exif_lens_make"@[1] == 'x' && "exif_lens_make"@[2] == 'i' && "exif_lens_make"@[3] == 'f' && "exif_lens_make"@[4] == '_' && "exif_lens_make"@[5] == 'l' && "exif_lens_make"@[6] == 'e' && "exif_lens_make"@[7] == 'n' && "exif_lens_make"@[8] == 's' && "exif_lens_make"@[9] == '_' && "exif_lens_make"@[10] == 'm' && "exif_lens_make"@[11] == 'a' && "exif_lens_make"@[12] == 'k' && "exif_lens_make"@[13] == 'e');
    reveal_strlit("exif_lens_model");
    assert("exif_lens_model"@.len() == 15 && "exif_lens_model"@[0] == 'e' && "exif_lens_model"@[1] == 'x' && "exif_lens_model"@[2] == 'i' && "exif_lens_model"@[3] == 'f' && "exif_lens_model"@[4] == '_' && "exif_lens_model"@[5] == 'l' && "exif_lens_model"@[6] == 'e' && "exif_lens_model"@[7] == 'n' && "exif_lens_model"@[8] == 's' && "exif_lens_model"@[9] == '_' && "exif_lens_model"@[10] == 'm' && "exif_lens_model"@[11] == 'o' && "exif_lens_model"@[12] == 'd' && "exif_lens_model"@[13] == 'e' && "exif_lens_model"@[14] == 'l');
    reveal_strlit("mime");
    assert("mime"@.len() == 4 && "mime"@[0] == 'm' && "mime"@[1] == 'i' && "mime"@[2] == 'm' && "mime"@[3] == 'e');
    reveal_strlit("line_count");
    assert("line_count"@.len() == 10 && "line_count"@[0] == 'l' && "line_count"@[1] == 'i' && "line_count"@[2] == 'n' && "line_count"@[3] == 'e' && "line_count"@[4] == '_' && "line_count"@[5] == 'c' && "line_count"@[6] == 'o' && "line_count"@[7] == 'u' && "line_count"@[8] == 'n' && "line_count"@[9] == 't');
    reveal_strlit("is_binary");
    assert("is_binary"@.len() == 9 && "is_binary"@[0] == 'i' && "is_binary"@[1] == 's' && "is_binary"@[2] == '_' && "is_binary"@[3] == 'b' && "is_binary"@[4] == 'i' && "is_binary"@[5] == 'n' && "is_binary"@[6] == 'a' && "is_binary"@[7] == 'r' && "is_binary"@[8] == 'y');
    reveal_strlit("is_text");
    assert("is_text"@.len() == 7 && "is_text"@[0] == 'i' && "is_text"@[1] == 's' && "is_text"@[2] == '_' && "is_text"@[3] == 't' && "is_text"@[4] == 'e' && "is_text"@[5] == 'x' && "is_text"@[6] == 't');
    reveal_strlit("is_archive");
    assert("is_archive"@.len() == 10 && "is_archive"@[0] == 'i' && "is_archive"@[1] == 's' && "is_archive"@[2] == '_' && "is_archive"@[3] == 'a' && "is_archive"@[4] == 'r' && "is_archive"@[5] == 'c' && "is_archive"@[6] == 'h' && "is_archive"@[7] == 'i' && "is_archive"@[8] == 'v' && "is_archive"@[9] == 'e');
    reveal_strlit("is_audio");
    assert("is_audio"@.len() == 8 && "is_audio"@[0] == 'i' && "is_audio"@[1] == 's' && "is_audio"@[2] == '_' && "is_audio"@[3] == 'a' && "is_audio"@[4] == 'u' && "is_audio"@[5] == 'd' && "is_audio"@[6] == 'i' && "is_audio"@[7] == 'o');
    reveal_strlit("is_book");
    assert("is_book"@.len() == 7 && "is_book"@[0] == 'i' && "is_book"@[1] == 's' && "is_book"@[2] == '_' && "is_book"@[3] == 'b' && "is_book"@[4] == 'o' && "is_book"@[5] == 'o' && "is_book"@[6] == 'k');
    reveal_strlit("is_doc");
    assert("is_doc"@.len() == 6 && "is_doc"@[0] == 'i' && "is_doc"@[1] == 's' && "is_doc"@[2] == '_' && "is_doc"@[3] == 'd' && "is_doc"@[4] == 'o' && "is_doc"@[5] == 'c');
    reveal_strlit("is_font");
    assert("is_font"@.len() == 7 && "is_font"@[0] == 'i' && "is_font"@[1] == 's' && "is_font"@[2] == '_' && "is_font"@[3] == 'f' && "is_font"@[4] == 'o' && "is_font"@[5] == 'n' && "is_font"@[6] == 't');
    reveal_strlit("is_image");
    assert("is_image"@.len() == 8 && "is_image"@[0] == 'i' && "is_image"@[1] == 's' && "is_image"@[2] == '_' && "is_image"@[3] == 'i' && "is_image"@[4] == 'm' && "is_image"@[5] == 'a' && "is_image"@[6] == 'g' && "is_image"@[7] == 'e');
    reveal_strlit("is_source");
    assert("is_source"@.len() == 9 && "is_source"@[0] == 'i' && "is_source"@[1] == 's' && "is_source"@[2] == '_' && "is_source"@[3] == 's' && "is_source"@[4] == 'o' && "is_source"@[5] == 'u' && "is_source"@[6] == 'r' && "is_source"@[7] == 'c' && "is_source"@[8] == 'e');
    reveal_strlit("is_video");
    assert("is_video"@.len() == 8 && "is_video"@[0] == 'i' && "is_video"@[1] == 's' && "is_video"@[2] == '_' && "is_video"@[3] == 'v' && "is_video"@[4] == 'i' && "is_video"@[5] == 'd' && "is_video"@[6] == 'e' && "is_video"@[7] == 'o');
    reveal_strlit("sha1");
    assert("sha1"@.len() == 4 && "sha1"@[0] == 's' && "sha1"@[1] == 'h' && "sha1"@[2] == 'a' && "sha1"@[3] == '1');
    reveal_strlit("sha2_256");
    assert("sha2_256"@.len() == 8 && "sha2_256"@[0] == 's' && "sha2_256"@[1] == 'h' && "sha2_256"@[2] == 'a' && "sha2_256"@[3] == '2' && "sha2_256"@[4] == '_' && "sha2_256"@[5] == '2' && "sha2_256"@[6] == '5' && "sha2_256"@[7] == '6');
    reveal_strlit("sha256");
    assert("sha256"@.len() == 6 && "sha256"@[0] == 's' && "sha256"@[1] == 'h' && "sha256"@[2] == 'a' && "sha256"@[3] == '2' && "sha256"@[4] == '5' && "sha256"@[5] == '6');
    reveal_strlit("sha2_512");
    assert("sha2_512"@.len() == 8 && "sha2_512"@[0] == 's' && "sha2_512"@[1] == 'h' && "sha2_512"@[2] == 'a' && "sha2_512"@[3] == '2' && "sha2_512"@[4] == '_' && "sha2_512"@[5] == '5' && "sha2_512"@[6] == '1' && "sha2_512"@[7] == '2');
    reveal_strlit("sha512");
    assert("sha512"@.len() == 6 && "sha512"@[0] == 's' && "sha512"@[1] == 'h' && "sha512"@[2] == 'a' && "sha512"@[3] == '5' && "sha512"@[4] == '1' && "sha512"@[5] == '2');
    reveal_strlit("sha3_512");
    assert("sha3_512"@.len() == 8 && "sha3_512"@[0] == 's' && "sha3_512"@[1] == 'h' && "sha3_512"@[2] == 'a' && "sha3_512"@[3] == '3' && "sha3_512"@[4] == '_' && "sha3_512"@[5] == '5' && "sha3_512"@[6] == '1' && "sha3_512"@[7] == '2');
    reveal_strlit("sha3");
    assert("sha3"@.len() == 4 && "sha3"@[0] == 's' && "sha3"@[1] == 'h' && "sha3"@[2] == 'a' && "sha3"@[3] == '3');
    match f {
        Field::Name => {},
        Field::Extension => {},
        Field::Path => {},
        Field::AbsPath => {},
        Field::Directory => {},
        Field::AbsDir => {},
        Field::Size => {},
        Field::FormattedSize => {},
        Field::Uid => {},
        Field::Gid => {},
        Field::User => {},
        Field::Group => {},
        Field::Created => {},
        Field::Accessed => {},
        Field::Modified => {},
        Field::IsDir => {},
        Field::IsFile => {},
        Field::IsSymlink => {},
        Field::IsPipe => {},
        Field::IsCharacterDevice => {},
        Field::IsBlockDevice => {},
        Field::IsSocket => {},
        Field::Device => {},
        Field::Inode => {},
        Field::Blocks => {},
        Field::Hardlinks => {},
        Field::Mode => {},
        Field::UserRead => {},
        Field::UserWrite => {},
        Field::UserExec => {},
        Field::UserAll => {},
        Field::GroupRead => {},
        Field::GroupWrite => {},
        Field::GroupExec => {},
        Field::GroupAll => {},
        Field::OtherRead => {},
        Field::OtherWrite => {},
        Field::OtherExec => {},
        Field::OtherAll => {},
        Field::Suid => {},
        Field::Sgid => {},
        Field::IsHidden => {},
        Field::HasXattrs => {},
        Field::Capabilities => {},
        Field::IsShebang => {},
        Field::IsEmpty => {},
        Field::Width => {},
        Field::Height => {},
        Field::Duration => {},
        Field::Bitrate => {},
        Field::Freq => {},
        Field::Title => {},
        Field::Artist => {},
        Field::Album => {},
        Field::Year => {},
        Field::Genre => {},
        Field::ExifDateTime => {},
        Field::ExifGpsAltitude => {},
        Field::ExifGpsLatitude => {},
        Field::ExifGpsLongitude => {},
        Field::ExifMake => {},
        Field::ExifModel => {},
        Field::ExifSoftware => {},
        Field::ExifVersion => {},
        Field::ExifExposureTime => {},
        Field::ExifAperture => {},
        Field::ExifShutterSpeed => {},
        Field::ExifFNumber => {},
        Field::ExifIsoSpeed => {},
        Field::ExifFocalLength => {},
        Field::ExifLensMake => {},
        Field::ExifLensModel => {},
        Field::Mime => {},
        Field::LineCount => {},
        Field::IsBinary => {},
        Field::IsText => {},
        Field::IsArchive => {},
        Field::IsAudio => {},
        Field::IsBook => {},
        Field::IsDoc => {},
        Field::IsFont => {},
        Field::IsImage => {},
        Field::IsSource => {},
        Field::IsVideo => {},
        Field::Sha1 => {},
        Field::Sha256 => {},
        Field::Sha512 => {},
        Field::Sha3 => {},
    }
}

/// A field's name is read without regard to ASCII case: any text that
/// lower-cases to a field's spelling names that field.
pub proof fn law_field_name_any_case(f: Field, s: Seq<char>)
    requires
        ascii_lower(s) == field_spelling(f),
    ensures
        spec_field_from_str(s) == Ok::<Field, Seq<char>>(f),
{
    law_field_spelling(f);
}

} // verus!
