//! The files that the application finds on disk: programs that can be
//! offered as applications, cover images, and images shown inline.

use crate::outside::{base64_encode, base64_standard, lowercase, to_lowercase};
use crate::text::{
    append, ascii_lower, bytes_eq, copy_of, ends_with, last_segment,
    last_segment_of, starts_with, to_ascii_lower, views, SLASH,
};
use vstd::prelude::*;
use vstd::string::StringSliceAdditionalSpecFns;

verus! {

pub const BACKSLASH: u8 = 92;

pub const QUOTE: u8 = 34;

/// A program that was found and can be offered as an application.
#[derive(Debug)]
pub struct ScannedApp {
    pub name: Vec<u8>,
    pub cmd: Vec<u8>,
    pub working_dir: Vec<u8>,
    pub source_path: Vec<u8>,
}

pub struct ScannedAppView {
    pub name: Seq<u8>,
    pub cmd: Seq<u8>,
    pub working_dir: Seq<u8>,
    pub source_path: Seq<u8>,
}

impl View for ScannedApp {
    type V = ScannedAppView;

    open spec fn view(&self) -> ScannedAppView {
        ScannedAppView {
            name: self.name@,
            cmd: self.cmd@,
            working_dir: self.working_dir@,
            source_path: self.source_path@,
        }
    }
}

/// What a shortcut file points to.
#[derive(Debug)]
pub struct LnkInfo {
    pub name: Vec<u8>,
    pub target_path: Vec<u8>,
    pub working_dir: Vec<u8>,
    pub arguments: Vec<u8>,
}

/// The kinds of file that can be offered as applications.
#[derive(Clone, Copy, PartialEq, Eq, Structural, Debug)]
pub enum AppFileKind {
    Shortcut,
    Executable,
    Batch,
    UrlFile,
}

/// The kind of a file with this extension, given in lower case and without the dot.
pub open spec fn kind_of(lowered: Seq<u8>) -> Option<AppFileKind> {
    if lowered == "lnk".spec_bytes() {
        Some(AppFileKind::Shortcut)
    } else if lowered == "exe".spec_bytes() {
        Some(AppFileKind::Executable)
    } else if lowered == "bat".spec_bytes() || lowered == "cmd".spec_bytes() {
        Some(AppFileKind::Batch)
    } else if lowered == "url".spec_bytes() {
        Some(AppFileKind::UrlFile)
    } else {
        None
    }
}

pub fn kind_of_lowered(lowered: &[u8]) -> (kind: Option<AppFileKind>)
    ensures
        kind == kind_of(lowered@),
{
    if bytes_eq(lowered, "lnk".as_bytes()) {
        Some(AppFileKind::Shortcut)
    } else if bytes_eq(lowered, "exe".as_bytes()) {
        Some(AppFileKind::Executable)
    } else if bytes_eq(lowered, "bat".as_bytes()) || bytes_eq(lowered, "cmd".as_bytes()) {
        Some(AppFileKind::Batch)
    } else if bytes_eq(lowered, "url".as_bytes()) {
        Some(AppFileKind::UrlFile)
    } else {
        None
    }
}

/// The kind of a file with this extension, in whatever case it is written.
pub fn app_file_kind(extension: &[u8]) -> (kind: Option<AppFileKind>)
    ensures
        kind == kind_of(lowercase(extension@)),
{
    let lowered = to_lowercase(extension);
    kind_of_lowered(lowered.as_slice())
}

/// Whether a directory is passed over: its name begins with a dot, or it
/// is one of two system directories, in whatever ASCII case.
pub open spec fn is_skipped(name: Seq<u8>) -> bool {
    ||| name.len() > 0 && name[0] == 46
    ||| ascii_lower(name) == ascii_lower("$RECYCLE.BIN".spec_bytes())
    ||| ascii_lower(name) == ascii_lower("System Volume Information".spec_bytes())
}

pub fn is_skipped_directory(name: &[u8]) -> (skipped: bool)
    ensures
        skipped == is_skipped(name@),
{
    if name.len() > 0 && name[0] == 46 {
        return true;
    }
    let lowered = to_ascii_lower(name);
    let bin = to_ascii_lower("$RECYCLE.BIN".as_bytes());
    let volume = to_ascii_lower("System Volume Information".as_bytes());
    bytes_eq(lowered.as_slice(), bin.as_slice()) || bytes_eq(
        lowered.as_slice(),
        volume.as_slice(),
    )
}

/// A path between double quotes.
pub open spec fn quoted(path: Seq<u8>) -> Seq<u8> {
    seq![QUOTE] + path + seq![QUOTE]
}

/// The command that runs a file of a kind.
pub open spec fn command_for(kind: AppFileKind, file_path: Seq<u8>) -> Seq<u8> {
    match kind {
        AppFileKind::Shortcut => quoted(file_path),
        AppFileKind::Executable => quoted(file_path),
        AppFileKind::Batch => "cmd /c ".spec_bytes() + quoted(file_path),
        AppFileKind::UrlFile => "start \"\" ".spec_bytes() + quoted(file_path),
    }
}

/// The application that a file is offered as. `stem` is the file's name
/// without extension and `parent` its directory, each where the path has
/// one; `shortcut` is the name that the shortcut resolved to, where the file
/// is a shortcut that could be resolved. A program and a script run in
/// their own directory and need both stem and parent; a URL file needs its
/// stem; a shortcut needs to have been resolved.
pub open spec fn app_for(
    kind: AppFileKind,
    file_path: Seq<u8>,
    stem: Option<Seq<u8>>,
    parent: Option<Seq<u8>>,
    shortcut: Option<Seq<u8>>,
) -> Option<ScannedAppView> {
    match kind {
        AppFileKind::Shortcut => match shortcut {
            Some(name) => Some(
                ScannedAppView {
                    name,
                    cmd: command_for(kind, file_path),
                    working_dir: Seq::empty(),
                    source_path: file_path,
                },
            ),
            None => None,
        },
        AppFileKind::Executable | AppFileKind::Batch => match (stem, parent) {
            (Some(name), Some(directory)) => Some(
                ScannedAppView {
                    name,
                    cmd: command_for(kind, file_path),
                    working_dir: directory,
                    source_path: file_path,
                },
            ),
            _ => None,
        },
        AppFileKind::UrlFile => match stem {
            Some(name) => Some(
                ScannedAppView {
                    name,
                    cmd: command_for(kind, file_path),
                    working_dir: Seq::empty(),
                    source_path: file_path,
                },
            ),
            None => None,
        },
    }
}

pub open spec fn slice_view(value: Option<&[u8]>) -> Option<Seq<u8>> {
    match value {
        Some(bytes) => Some(bytes@),
        None => None,
    }
}

pub open spec fn app_view(app: Option<ScannedApp>) -> Option<ScannedAppView> {
    match app {
        Some(app) => Some(app@),
        None => None,
    }
}

fn command(kind: AppFileKind, file_path: &[u8]) -> (cmd: Vec<u8>)
    ensures
        cmd@ == command_for(kind, file_path@),
{
    let mut cmd: Vec<u8> = match kind {
        AppFileKind::Shortcut => Vec::new(),
        AppFileKind::Executable => Vec::new(),
        AppFileKind::Batch => copy_of("cmd /c ".as_bytes()),
        AppFileKind::UrlFile => copy_of("start \"\" ".as_bytes()),
    };
    let ghost head = cmd@;
    cmd.push(QUOTE);
    append(&mut cmd, file_path);
    cmd.push(QUOTE);
    assert(cmd@ =~= head + quoted(file_path@));
    assert(Seq::<u8>::empty() + quoted(file_path@) =~= quoted(file_path@));
    cmd
}

fn make_app(kind: AppFileKind, file_path: &[u8], name: &[u8], working_dir: &[u8]) -> (app:
    ScannedApp)
    ensures
        app@ == (ScannedAppView {
            name: name@,
            cmd: command_for(kind, file_path@),
            working_dir: working_dir@,
            source_path: file_path@,
        }),
{
    ScannedApp {
        name: copy_of(name),
        cmd: command(kind, file_path),
        working_dir: copy_of(working_dir),
        source_path: copy_of(file_path),
    }
}

pub fn process_lnk_file(file_path: &[u8], shortcut: Option<&LnkInfo>) -> (app: Option<ScannedApp>)
    ensures
        app_view(app) == app_for(
            AppFileKind::Shortcut,
            file_path@,
            None,
            None,
            match shortcut {
                Some(info) => Some(info.name@),
                None => None,
            },
        ),
{
    let nothing: Vec<u8> = Vec::new();
    match shortcut {
        Some(info) => Some(
            make_app(AppFileKind::Shortcut, file_path, info.name.as_slice(), nothing.as_slice()),
        ),
        None => None,
    }
}

pub fn process_exe_file(file_path: &[u8], stem: Option<&[u8]>, parent: Option<&[u8]>) -> (app:
    Option<ScannedApp>)
    ensures
        app_view(app) == app_for(
            AppFileKind::Executable,
            file_path@,
            slice_view(stem),
            slice_view(parent),
            None,
        ),
{
    match (stem, parent) {
        (Some(name), Some(directory)) => Some(
            make_app(AppFileKind::Executable, file_path, name, directory),
        ),
        _ => None,
    }
}

pub fn process_batch_file(file_path: &[u8], stem: Option<&[u8]>, parent: Option<&[u8]>) -> (app:
    Option<ScannedApp>)
    ensures
        app_view(app) == app_for(
            AppFileKind::Batch,
            file_path@,
            slice_view(stem),
            slice_view(parent),
            None,
        ),
{
    match (stem, parent) {
        (Some(name), Some(directory)) => Some(
            make_app(AppFileKind::Batch, file_path, name, directory),
        ),
        _ => None,
    }
}

pub fn process_url_file(file_path: &[u8], stem: Option<&[u8]>) -> (app: Option<ScannedApp>)
    ensures
        app_view(app) == app_for(AppFileKind::UrlFile, file_path@, slice_view(stem), None, None),
{
    let nothing: Vec<u8> = Vec::new();
    match stem {
        Some(name) => Some(make_app(AppFileKind::UrlFile, file_path, name, nothing.as_slice())),
        None => None,
    }
}

/// Whether a file of the colour directory is a colour profile.
pub fn is_icc_file(name: &[u8]) -> (r: bool)
    ensures
        r == (".icc".spec_bytes().is_suffix_of(name@) || ".icm".spec_bytes().is_suffix_of(name@)),
{
    ends_with(name, ".icc".as_bytes()) || ends_with(name, ".icm".as_bytes())
}

/// Whether a file of the configuration directory is left over from an upload.
pub fn is_temp_file(name: &[u8]) -> (r: bool)
    ensures
        r == "temp_".spec_bytes().is_prefix_of(name@),
{
    starts_with(name, "temp_".as_bytes())
}

/// The media type of an image with this extension, given in lower case.
pub open spec fn mime_of(lowered: Seq<u8>) -> Seq<u8> {
    if lowered == "jpg".spec_bytes() || lowered == "jpeg".spec_bytes() {
        "image/jpeg".spec_bytes()
    } else if lowered == "gif".spec_bytes() {
        "image/gif".spec_bytes()
    } else if lowered == "webp".spec_bytes() {
        "image/webp".spec_bytes()
    } else {
        "image/png".spec_bytes()
    }
}

pub fn mime_of_lowered(lowered: &[u8]) -> (mime: &'static str)
    ensures
        mime.spec_bytes() == mime_of(lowered@),
{
    if bytes_eq(lowered, "jpg".as_bytes()) || bytes_eq(lowered, "jpeg".as_bytes()) {
        "image/jpeg"
    } else if bytes_eq(lowered, "gif".as_bytes()) {
        "image/gif"
    } else if bytes_eq(lowered, "webp".as_bytes()) {
        "image/webp"
    } else {
        "image/png"
    }
}

/// An image as a `data:` URL.
pub open spec fn data_url(extension: Seq<u8>, image: Seq<u8>) -> Seq<u8> {
    "data:".spec_bytes() + mime_of(lowercase(extension)) + ";base64,".spec_bytes()
        + base64_standard(image)
}

/// Frames what the encoder made of an image as a `data:` URL.
pub fn frame_data_url(mime: &[u8], encoded: &[u8]) -> (url: Vec<u8>)
    ensures
        url@ == "data:".spec_bytes() + mime@ + ";base64,".spec_bytes() + encoded@,
{
    let mut url = copy_of("data:".as_bytes());
    append(&mut url, mime);
    append(&mut url, ";base64,".as_bytes());
    append(&mut url, encoded);
    url
}

/// Writes an image as a `data:` URL, with the media type that goes with
/// the file's extension.
pub fn image_data_url(extension: &[u8], image: &[u8]) -> (url: Vec<u8>)
    requires
        image@.len() <= usize::MAX / 2,
    ensures
        url@ == data_url(extension@, image@),
{
    let lowered = to_lowercase(extension);
    let mime = mime_of_lowered(lowered.as_slice());
    let encoded = base64_encode(image);
    frame_data_url(mime.as_bytes(), encoded.as_slice())
}

/// Writes an image as a `data:` URL; `None` for an image too large to be encoded.
pub fn read_image_as_data_url(extension: &[u8], image: &[u8]) -> (url: Option<Vec<u8>>)
    ensures
        image@.len() <= usize::MAX / 2 ==> (url matches Some(u) && u@ == data_url(
            extension@,
            image@,
        )),
        image@.len() > usize::MAX / 2 ==> url is None,
{
    if image.len() <= usize::MAX / 2 {
        Some(image_data_url(extension, image))
    } else {
        None
    }
}

/// Whether a cover image is named by an application: not at all by an empty
/// path or the word `desktop`.
pub open spec fn names_cover(image_path: Seq<u8>) -> bool {
    &&& image_path.len() > 0
    &&& image_path != "desktop".spec_bytes()
    &&& last_segment(image_path, SLASH).len() > 0
    &&& last_segment(image_path, SLASH) != "desktop".spec_bytes()
}

/// Whether a path holds a separator of either kind.
pub open spec fn has_separator(image_path: Seq<u8>) -> bool {
    image_path.contains(SLASH) || image_path.contains(BACKSLASH)
}

/// The names under which the first `upto` image paths are in use: for each
/// path that names a cover, its file name, and the path itself where it
/// holds a separator. No name is listed twice.
pub open spec fn names_in_use(image_paths: Seq<Seq<u8>>, upto: int) -> Seq<Seq<u8>>
    decreases upto,
{
    if upto <= 0 || upto > image_paths.len() {
        Seq::empty()
    } else {
        let before = names_in_use(image_paths, upto - 1);
        let path = image_paths[upto - 1];
        if !names_cover(path) {
            before
        } else {
            let listed = with_name(before, last_segment(path, SLASH));
            if has_separator(path) {
                with_name(listed, path)
            } else {
                listed
            }
        }
    }
}

/// `names` with `name` added, unless it is there already.
pub open spec fn with_name(names: Seq<Seq<u8>>, name: Seq<u8>) -> Seq<Seq<u8>> {
    if names.contains(name) {
        names
    } else {
        names.push(name)
    }
}

/// Whether a file of the covers directory is in use: its name is listed,
/// or a listed path ends in a separator and its name.
pub open spec fn cover_in_use(used: Seq<Seq<u8>>, filename: Seq<u8>) -> bool {
    exists|i: int|
        0 <= i < used.len() && {
            ||| #[trigger] used[i] == filename
            ||| (seq![SLASH] + filename).is_suffix_of(used[i])
            ||| (seq![BACKSLASH] + filename).is_suffix_of(used[i])
        }
}

fn contains_byte(s: &[u8], b: u8) -> (r: bool)
    ensures
        r == s@.contains(b),
{
    let mut i: usize = 0;
    while i < s.len()
        invariant
            i <= s.len(),
            forall|j: int| 0 <= j < i ==> s@[j] != b,
        decreases s.len() - i,
    {
        if s[i] == b {
            return true;
        }
        i += 1;
    }
    false
}

fn holds_name(names: &Vec<Vec<u8>>, name: &[u8]) -> (r: bool)
    ensures
        r == views(names@).contains(name@),
{
    let mut i: usize = 0;
    while i < names.len()
        invariant
            i <= names.len(),
            forall|j: int| 0 <= j < i ==> views(names@)[j] != name@,
        decreases names.len() - i,
    {
        assert(views(names@)[i as int] == names@[i as int]@);
        if bytes_eq(names[i].as_slice(), name) {
            return true;
        }
        i += 1;
    }
    false
}

fn add_name(names: &mut Vec<Vec<u8>>, name: &[u8])
    ensures
        views(final(names)@) == with_name(views(old(names)@), name@),
{
    if !holds_name(names, name) {
        let ghost before = views(names@);
        names.push(copy_of(name));
        assert(views(names@) =~= before.push(name@));
    }
}

/// The names under which cover images are in use, given the image path of
/// each application.
pub fn used_images(image_paths: &Vec<Vec<u8>>) -> (used: Vec<Vec<u8>>)
    ensures
        views(used@) == names_in_use(views(image_paths@), image_paths@.len() as int),
{
    let mut used: Vec<Vec<u8>> = Vec::new();
    let mut i: usize = 0;
    assert(views(used@) =~= Seq::<Seq<u8>>::empty());
    while i < image_paths.len()
        invariant
            i <= image_paths.len(),
            views(used@) == names_in_use(views(image_paths@), i as int),
        decreases image_paths.len() - i,
    {
        let path = image_paths[i].as_slice();
        assert(views(image_paths@)[i as int] == path@);
        let filename = last_segment_of(path, SLASH);
        let named = path.len() > 0 && !bytes_eq(path, "desktop".as_bytes()) && filename.len() > 0
            && !bytes_eq(filename, "desktop".as_bytes());
        if named {
            add_name(&mut used, filename);
            if contains_byte(path, SLASH) || contains_byte(path, BACKSLASH) {
                add_name(&mut used, path);
            }
        }
        i += 1;
    }
    used
}

/// Whether a file of the covers directory is in use.
pub fn is_cover_used(used: &Vec<Vec<u8>>, filename: &[u8]) -> (r: bool)
    ensures
        r == cover_in_use(views(used@), filename@),
{
    let mut with_slash: Vec<u8> = Vec::new();
    with_slash.push(SLASH);
    append(&mut with_slash, filename);
    let mut with_backslash: Vec<u8> = Vec::new();
    with_backslash.push(BACKSLASH);
    append(&mut with_backslash, filename);
    assert(with_slash@ =~= seq![SLASH] + filename@);
    assert(with_backslash@ =~= seq![BACKSLASH] + filename@);
    let mut i: usize = 0;
    while i < used.len()
        invariant
            i <= used.len(),
            with_slash@ == seq![SLASH] + filename@,
            with_backslash@ == seq![BACKSLASH] + filename@,
            forall|j: int|
                0 <= j < i ==> !({
                    ||| #[trigger] views(used@)[j] == filename@
                    ||| (seq![SLASH] + filename@).is_suffix_of(views(used@)[j])
                    ||| (seq![BACKSLASH] + filename@).is_suffix_of(views(used@)[j])
                }),
        decreases used.len() - i,
    {
        let name = used[i].as_slice();
        assert(views(used@)[i as int] == name@);
        if bytes_eq(name, filename) || ends_with(name, with_slash.as_slice()) || ends_with(
            name,
            with_backslash.as_slice(),
        ) {
            return true;
        }
        i += 1;
    }
    false
}

} // verus!
