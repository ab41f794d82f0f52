//! The update check: which release is offered, whether it is newer than what
//! is installed, and where its installer is fetched from.

use crate::commands::{escape_quotes, quote_escaped};
use crate::outside::{lowercase, to_lowercase};
use crate::text::{
    append, bytes_eq, contains, contains_bytes, copy_of, ends_with, joined, option_view,
    parse_number, parsed_number, split, split_bytes, starts_with, strip_leading, trim_start,
    trimmed_start, views, without_leading, DOT, SLASH,
};
use vstd::prelude::*;
use vstd::string::StringSliceAdditionalSpecFns;

verus! {

/// Seconds between two automatic checks.
pub const UPDATE_CHECK_INTERVAL: u64 = 14400;

/// How many of the newest releases are looked at.
pub const MAX_RELEASES_TO_CHECK: usize = 10;

/// What is known of an update that can be installed.
#[derive(Debug)]
pub struct UpdateInfo {
    pub version: Vec<u8>,
    pub release_notes: Vec<u8>,
    pub download_url: Option<Vec<u8>>,
    pub download_name: Option<Vec<u8>>,
    pub release_page: Vec<u8>,
}

pub struct UpdateInfoView {
    pub version: Seq<u8>,
    pub release_notes: Seq<u8>,
    pub download_url: Option<Seq<u8>>,
    pub download_name: Option<Seq<u8>>,
    pub release_page: Seq<u8>,
}

impl View for UpdateInfo {
    type V = UpdateInfoView;

    open spec fn view(&self) -> UpdateInfoView {
        UpdateInfoView {
            version: self.version@,
            release_notes: self.release_notes@,
            download_url: option_view(self.download_url),
            download_name: option_view(self.download_name),
            release_page: self.release_page@,
        }
    }
}

/// When updates were last checked for (seconds since the epoch).
#[derive(Clone, Copy, PartialEq, Eq, Structural, Debug)]
pub struct UpdatePreferences {
    pub last_check_time: u64,
}

impl Default for UpdatePreferences {
    fn default() -> (preferences: UpdatePreferences)
        ensures
            preferences.last_check_time == 0,
    {
        UpdatePreferences { last_check_time: 0 }
    }
}

/// A file attached to a release.
#[derive(Debug)]
pub struct GitHubAsset {
    pub name: Vec<u8>,
    pub browser_download_url: Vec<u8>,
}

pub struct AssetView {
    pub name: Seq<u8>,
    pub url: Seq<u8>,
}

impl View for GitHubAsset {
    type V = AssetView;

    open spec fn view(&self) -> AssetView {
        AssetView { name: self.name@, url: self.browser_download_url@ }
    }
}

pub open spec fn assets_view(assets: Seq<GitHubAsset>) -> Seq<AssetView> {
    Seq::new(assets.len(), |i: int| assets[i]@)
}

/// A release as the hosting service lists it.
#[derive(Debug)]
pub struct GitHubRelease {
    pub tag_name: Vec<u8>,
    pub body: Vec<u8>,
    pub assets: Vec<GitHubAsset>,
    pub html_url: Vec<u8>,
    pub prerelease: bool,
    pub draft: bool,
    pub published_at: Option<Vec<u8>>,
}

pub struct ReleaseView {
    pub tag_name: Seq<u8>,
    pub body: Seq<u8>,
    pub assets: Seq<AssetView>,
    pub html_url: Seq<u8>,
    pub prerelease: bool,
    pub draft: bool,
    pub published_at: Option<Seq<u8>>,
}

impl View for GitHubRelease {
    type V = ReleaseView;

    open spec fn view(&self) -> ReleaseView {
        ReleaseView {
            tag_name: self.tag_name@,
            body: self.body@,
            assets: assets_view(self.assets@),
            html_url: self.html_url@,
            prerelease: self.prerelease,
            draft: self.draft,
            published_at: option_view(self.published_at),
        }
    }
}

pub open spec fn releases_view(releases: Seq<GitHubRelease>) -> Seq<ReleaseView> {
    Seq::new(releases.len(), |i: int| releases[i]@)
}

/// A version without the `v`s, and then the `V`s, that it begins with.
pub open spec fn normalized(version: Seq<u8>) -> Seq<u8> {
    trim_start(trim_start(version, 118), 86)
}

pub fn normalize_version(version: &[u8]) -> (plain: &[u8])
    ensures
        plain@ == normalized(version@),
{
    trimmed_start(trimmed_start(version, 118), 86)
}

/// The numbers among `pieces`, in order; a piece that is no number is left out.
pub open spec fn numbers_among(pieces: Seq<Seq<u8>>) -> Seq<u32>
    decreases pieces.len(),
{
    if pieces.len() == 0 {
        Seq::empty()
    } else {
        numbers_among(pieces.drop_last()) + (match parsed_number(pieces.last(), u32::MAX as nat) {
            Some(n) => seq![n as u32],
            None => Seq::empty(),
        })
    }
}

/// The numbers of a version: those of its pieces between dots that are numbers.
pub open spec fn version_numbers(version: Seq<u8>) -> Seq<u32> {
    numbers_among(split(normalized(version), DOT))
}

/// The number at a position, where a version that is too short counts as 0.
pub open spec fn number_at(numbers: Seq<u32>, at: int) -> u32 {
    if 0 <= at < numbers.len() {
        numbers[at]
    } else {
        0
    }
}

/// `latest` is newer than `current`: at the first position where they
/// differ, `latest` has the greater number.
pub open spec fn is_newer(current: Seq<u32>, latest: Seq<u32>) -> bool {
    exists|at: int|
        {
            &&& 0 <= at
            &&& #[trigger] number_at(latest, at) > number_at(current, at)
            &&& forall|before: int|
                0 <= before < at ==> number_at(latest, before) == number_at(current, before)
        }
}

/// No version is newer than itself, and of two versions at most one is
/// newer than the other.
pub proof fn lemma_newer_is_strict(current: Seq<u32>, latest: Seq<u32>)
    ensures
        !is_newer(current, current),
        is_newer(current, latest) ==> !is_newer(latest, current),
{
    if is_newer(current, latest) && is_newer(latest, current) {
        let up = choose|at: int|
            {
                &&& 0 <= at
                &&& #[trigger] number_at(latest, at) > number_at(current, at)
                &&& forall|before: int|
                    0 <= before < at ==> number_at(latest, before) == number_at(current, before)
            };
        let down = choose|at: int|
            {
                &&& 0 <= at
                &&& #[trigger] number_at(current, at) > number_at(latest, at)
                &&& forall|before: int|
                    0 <= before < at ==> number_at(current, before) == number_at(latest, before)
            };
        if up < down {
            assert(number_at(current, up) == number_at(latest, up));
        } else if down < up {
            assert(number_at(latest, down) == number_at(current, down));
        }
    }
}

/// The numbers of a version.
pub fn parse_version(version: &[u8]) -> (numbers: Vec<u32>)
    ensures
        numbers@ == version_numbers(version@),
{
    let pieces = split_bytes(normalize_version(version), DOT);
    let mut numbers: Vec<u32> = Vec::new();
    let mut i: usize = 0;
    assert(views(pieces@).take(0) =~= Seq::<Seq<u8>>::empty());
    while i < pieces.len()
        invariant
            i <= pieces.len(),
            numbers@ == numbers_among(views(pieces@).take(i as int)),
        decreases pieces.len() - i,
    {
        let ghost next = views(pieces@).take(i + 1);
        assert(next.drop_last() =~= views(pieces@).take(i as int));
        assert(next.last() == pieces@[i as int]@);
        match parse_number(pieces[i].as_slice(), 0xFFFF_FFFF) {
            Some(n) => {
                numbers.push(n);
            },
            None => {},
        }
        assert(numbers@ =~= numbers_among(next));
        i += 1;
    }
    assert(views(pieces@).take(pieces@.len() as int) =~= views(pieces@));
    numbers
}

fn number_or_zero(numbers: &Vec<u32>, at: usize) -> (n: u32)
    ensures
        n == number_at(numbers@, at as int),
{
    if at < numbers.len() {
        numbers[at]
    } else {
        0
    }
}

/// Whether the numbers `latest` stand for a newer version than `current`.
pub fn compare_versions(current: &Vec<u32>, latest: &Vec<u32>) -> (newer: bool)
    ensures
        newer == is_newer(current@, latest@),
{
    let longest = if current.len() > latest.len() {
        current.len()
    } else {
        latest.len()
    };
    let mut i: usize = 0;
    while i < longest
        invariant
            i <= longest,
            longest >= current@.len(),
            longest >= latest@.len(),
            forall|before: int|
                0 <= before < i ==> number_at(latest@, before) == number_at(current@, before),
        decreases longest - i,
    {
        let mine = number_or_zero(current, i);
        let theirs = number_or_zero(latest, i);
        if theirs > mine {
            assert(number_at(latest@, i as int) > number_at(current@, i as int));
            return true;
        } else if theirs < mine {
            assert forall|at: int|
                0 <= at && #[trigger] number_at(latest@, at) > number_at(current@, at) implies !(
            forall|before: int|
                0 <= before < at ==> number_at(latest@, before) == number_at(
                    current@,
                    before,
                )) by {
                if at > i {
                    assert(number_at(latest@, i as int) != number_at(current@, i as int));
                }
            }
            return false;
        }
        i += 1;
    }
    false
}

/// Whether version `latest` is newer than version `current`.
pub fn is_new_version_available(current: &[u8], latest: &[u8]) -> (newer: bool)
    ensures
        newer == is_newer(version_numbers(current@), version_numbers(latest@)),
{
    let mine = parse_version(current);
    let theirs = parse_version(latest);
    compare_versions(&mine, &theirs)
}

/// Whether a file name in lower case is that of an installer for Windows.
pub open spec fn is_windows_name(lowered: Seq<u8>) -> bool {
    ||| contains(lowered, "windows".spec_bytes())
    ||| ".msi".spec_bytes().is_suffix_of(lowered)
    ||| ".exe".spec_bytes().is_suffix_of(lowered)
}

/// Whether an asset is an installer for Windows, going by its name.
pub open spec fn is_windows_asset(asset: AssetView) -> bool {
    is_windows_name(lowercase(asset.name))
}

/// The first installer for Windows among the assets from `from` on.
pub open spec fn first_windows_asset(assets: Seq<AssetView>, from: int) -> Option<int>
    decreases assets.len() - from,
{
    if from < 0 || from >= assets.len() {
        None
    } else if is_windows_asset(assets[from]) {
        Some(from)
    } else {
        first_windows_asset(assets, from + 1)
    }
}

/// The asset to download: the first installer for Windows; the first asset
/// where there is no such installer; none where there are no assets.
pub open spec fn best_asset(assets: Seq<AssetView>) -> Option<int> {
    match first_windows_asset(assets, 0) {
        Some(at) => Some(at),
        None => if assets.len() > 0 {
            Some(0)
        } else {
            None
        },
    }
}

/// The URL and the name of the asset to download.
pub open spec fn best_download(assets: Seq<AssetView>) -> (Option<Seq<u8>>, Option<Seq<u8>>) {
    match best_asset(assets) {
        Some(at) => (Some(assets[at].url), Some(assets[at].name)),
        None => (None, None),
    }
}

pub fn is_windows_package_name(lowered: &[u8]) -> (r: bool)
    ensures
        r == is_windows_name(lowered@),
{
    contains_bytes(lowered, "windows".as_bytes()) || ends_with(lowered, ".msi".as_bytes())
        || ends_with(lowered, ".exe".as_bytes())
}

pub fn is_windows_package(asset: &GitHubAsset) -> (r: bool)
    ensures
        r == is_windows_asset(asset@),
{
    let lowered = to_lowercase(asset.name.as_slice());
    is_windows_package_name(lowered.as_slice())
}

/// The URL and the name of the asset to download.
pub fn find_best_download_asset(assets: &Vec<GitHubAsset>) -> (download: (
    Option<Vec<u8>>,
    Option<Vec<u8>>,
))
    ensures
        (option_view(download.0), option_view(download.1)) == best_download(assets_view(assets@)),
{
    let mut i: usize = 0;
    while i < assets.len()
        invariant
            i <= assets.len(),
            first_windows_asset(assets_view(assets@), 0) == first_windows_asset(
                assets_view(assets@),
                i as int,
            ),
        decreases assets.len() - i,
    {
        assert(assets_view(assets@)[i as int] == assets@[i as int]@);
        if is_windows_package(&assets[i]) {
            return (
                Some(copy_of(assets[i].browser_download_url.as_slice())),
                Some(copy_of(assets[i].name.as_slice())),
            );
        }
        i += 1;
    }
    if assets.len() > 0 {
        assert(assets_view(assets@)[0] == assets@[0]@);
        (
            Some(copy_of(assets[0].browser_download_url.as_slice())),
            Some(copy_of(assets[0].name.as_slice())),
        )
    } else {
        (None, None)
    }
}

/// Whether a release may be offered: it is no draft, and it is no
/// pre-release unless pre-releases are asked for.
pub open spec fn is_usable(release: ReleaseView, include_prerelease: bool) -> bool {
    !release.draft && (include_prerelease || !release.prerelease)
}

/// The first usable release from `from` on, among the first `MAX_RELEASES_TO_CHECK`.
pub open spec fn first_usable(releases: Seq<ReleaseView>, include_prerelease: bool, from: int)
    -> Option<int>
    decreases releases.len() - from,
{
    if from < 0 || from >= releases.len() || from >= MAX_RELEASES_TO_CHECK {
        None
    } else if is_usable(releases[from], include_prerelease) {
        Some(from)
    } else {
        first_usable(releases, include_prerelease, from + 1)
    }
}

/// What `first_usable` finds is usable and has no usable release before it
/// among those looked at; where it finds nothing, none of those is usable.
pub proof fn lemma_first_usable(releases: Seq<ReleaseView>, include_prerelease: bool, from: int)
    requires
        0 <= from,
    ensures
        match first_usable(releases, include_prerelease, from) {
            Some(at) => {
                &&& from <= at < releases.len()
                &&& at < MAX_RELEASES_TO_CHECK
                &&& is_usable(releases[at], include_prerelease)
                &&& forall|before: int|
                    from <= before < at ==> !is_usable(
                        #[trigger] releases[before],
                        include_prerelease,
                    )
            },
            None => forall|at: int|
                from <= at < releases.len() && at < MAX_RELEASES_TO_CHECK ==> !is_usable(
                    #[trigger] releases[at],
                    include_prerelease,
                ),
        },
    decreases releases.len() - from,
{
    if from < releases.len() && from < MAX_RELEASES_TO_CHECK && !is_usable(
        releases[from],
        include_prerelease,
    ) {
        lemma_first_usable(releases, include_prerelease, from + 1);
    }
}

/// The position of the release to offer.
pub fn find_latest_release(releases: &Vec<GitHubRelease>, include_prerelease: bool) -> (found:
    Option<usize>)
    ensures
        found is Some == first_usable(releases_view(releases@), include_prerelease, 0) is Some,
        found matches Some(at) ==> first_usable(releases_view(releases@), include_prerelease, 0)
            == Some(at as int) && at < releases@.len() && at < MAX_RELEASES_TO_CHECK && is_usable(
            releases@[at as int]@,
            include_prerelease,
        ),
{
    proof {
        lemma_first_usable(releases_view(releases@), include_prerelease, 0);
    }
    let mut i: usize = 0;
    while i < releases.len() && i < MAX_RELEASES_TO_CHECK
        invariant
            i <= releases.len(),
            first_usable(releases_view(releases@), include_prerelease, 0) == first_usable(
                releases_view(releases@),
                include_prerelease,
                i as int,
            ),
        decreases releases.len() - i,
    {
        assert(releases_view(releases@)[i as int] == releases@[i as int]@);
        let release = &releases[i];
        if !release.draft && (include_prerelease || !release.prerelease) {
            return Some(i);
        }
        i += 1;
    }
    None
}

/// `original_url` as it is asked of the mirror `proxy`: the mirror, a slash
/// unless the mirror ends in one, and the URL without its `https://`.
pub open spec fn proxied_url(proxy: Seq<u8>, original_url: Seq<u8>) -> Seq<u8> {
    let bare = without_leading(original_url, "https://".spec_bytes());
    if proxy.len() > 0 && proxy.last() == SLASH {
        proxy + bare
    } else {
        proxy + seq![SLASH] + bare
    }
}

pub fn build_proxy_url(proxy: &[u8], original_url: &[u8]) -> (url: Vec<u8>)
    ensures
        url@ == proxied_url(proxy@, original_url@),
{
    let bare = strip_leading(original_url, "https://".as_bytes());
    let mut url = copy_of(proxy);
    if !(proxy.len() > 0 && proxy[proxy.len() - 1] == SLASH) {
        url.push(SLASH);
    }
    append(&mut url, bare);
    url
}

/// The URLs under which the release list is asked for, in order: the
/// service itself, then its mirrors.
pub open spec fn api_urls(url: Seq<u8>) -> Seq<Seq<u8>> {
    seq![
        url,
        proxied_url("https://ghapi.hackhub.cn/".spec_bytes(), url),
        proxied_url("https://mirror.ghproxy.com/".spec_bytes(), url),
    ]
}

pub fn build_api_urls(url: &[u8]) -> (urls: Vec<Vec<u8>>)
    ensures
        views(urls@) == api_urls(url@),
{
    let mut urls: Vec<Vec<u8>> = Vec::new();
    urls.push(copy_of(url));
    urls.push(build_proxy_url("https://ghapi.hackhub.cn/".as_bytes(), url));
    urls.push(build_proxy_url("https://mirror.ghproxy.com/".as_bytes(), url));
    assert(views(urls@) =~= api_urls(url@));
    urls
}

/// The parts of the URL of a file attached to a release.
pub struct ReleaseDownload {
    pub owner: Vec<u8>,
    pub repo: Vec<u8>,
    pub tag: Vec<u8>,
    pub filename: Vec<u8>,
}

pub struct ReleaseDownloadView {
    pub owner: Seq<u8>,
    pub repo: Seq<u8>,
    pub tag: Seq<u8>,
    pub filename: Seq<u8>,
}

impl View for ReleaseDownload {
    type V = ReleaseDownloadView;

    open spec fn view(&self) -> ReleaseDownloadView {
        ReleaseDownloadView {
            owner: self.owner@,
            repo: self.repo@,
            tag: self.tag@,
            filename: self.filename@,
        }
    }
}

pub open spec fn github_prefix() -> Seq<u8> {
    "https://github.com/".spec_bytes()
}

/// The parts of a URL of the form
/// `https://github.com/OWNER/REPO/releases/download/TAG/FILENAME`, where the
/// file name is not empty and may hold slashes.
pub open spec fn release_download(url: Seq<u8>) -> Option<ReleaseDownloadView> {
    if !github_prefix().is_prefix_of(url) {
        None
    } else {
        let pieces = split(url.skip(github_prefix().len() as int), SLASH);
        if pieces.len() < 5 || pieces[2] != "releases".spec_bytes() || pieces[3]
            != "download".spec_bytes() || joined(pieces.skip(5), SLASH).len() == 0 {
            None
        } else {
            Some(
                ReleaseDownloadView {
                    owner: pieces[0],
                    repo: pieces[1],
                    tag: pieces[4],
                    filename: joined(pieces.skip(5), SLASH),
                },
            )
        }
    }
}

/// Puts the pieces from `from` on together, with `sep` between each two.
fn join_from(pieces: &Vec<Vec<u8>>, from: usize, sep: u8) -> (text: Vec<u8>)
    requires
        from <= pieces@.len(),
    ensures
        text@ == joined(views(pieces@).skip(from as int), sep),
{
    let ghost tail = views(pieces@).skip(from as int);
    let mut text: Vec<u8> = Vec::new();
    let mut i: usize = from;
    assert(tail.take(0) =~= Seq::<Seq<u8>>::empty());
    while i < pieces.len()
        invariant
            from <= i <= pieces.len(),
            tail == views(pieces@).skip(from as int),
            text@ == joined(tail.take(i - from), sep),
        decreases pieces.len() - i,
    {
        if i > from {
            text.push(sep);
        }
        append(&mut text, pieces[i].as_slice());
        proof {
            let next = tail.take(i + 1 - from);
            assert(next.drop_last() =~= tail.take(i - from));
            assert(next.last() == pieces@[i as int]@);
            assert(text@ =~= joined(next, sep));
        }
        i += 1;
    }
    assert(tail.take(pieces@.len() - from) =~= tail);
    text
}

/// Takes the URL of a file attached to a release apart.
pub fn parse_github_release_download_url(url: &[u8]) -> (parts: Option<ReleaseDownload>)
    ensures
        parts is Some == release_download(url@) is Some,
        parts matches Some(p) ==> release_download(url@) == Some(p@),
{
    let prefix = "https://github.com/".as_bytes();
    if !starts_with(url, prefix) {
        return None;
    }
    let rest = vstd::slice::slice_subrange(url, prefix.len(), url.len());
    assert(rest@ =~= url@.skip(github_prefix().len() as int));
    let pieces = split_bytes(rest, SLASH);
    if pieces.len() < 5 {
        return None;
    }
    assert(views(pieces@)[0] == pieces@[0]@);
    assert(views(pieces@)[1] == pieces@[1]@);
    assert(views(pieces@)[2] == pieces@[2]@);
    assert(views(pieces@)[3] == pieces@[3]@);
    assert(views(pieces@)[4] == pieces@[4]@);
    if !bytes_eq(pieces[2].as_slice(), "releases".as_bytes()) || !bytes_eq(
        pieces[3].as_slice(),
        "download".as_bytes(),
    ) {
        return None;
    }
    let filename = join_from(&pieces, 5, SLASH);
    if filename.len() == 0 {
        return None;
    }
    Some(
        ReleaseDownload {
            owner: copy_of(pieces[0].as_slice()),
            repo: copy_of(pieces[1].as_slice()),
            tag: copy_of(pieces[4].as_slice()),
            filename,
        },
    )
}

/// The URL of a release's file on the CDN.
pub open spec fn jsdelivr_url(owner: Seq<u8>, repo: Seq<u8>, tag: Seq<u8>, filename: Seq<u8>)
    -> Seq<u8> {
    "https://cdn.jsdelivr.net/gh/".spec_bytes() + owner + seq![SLASH] + repo + seq![64u8] + tag
        + seq![SLASH] + filename
}

pub fn build_jsdelivr_url(owner: &[u8], repo: &[u8], tag: &[u8], filename: &[u8]) -> (url: Vec<u8>)
    ensures
        url@ == jsdelivr_url(owner@, repo@, tag@, filename@),
{
    let mut url = copy_of("https://cdn.jsdelivr.net/gh/".as_bytes());
    append(&mut url, owner);
    url.push(SLASH);
    append(&mut url, repo);
    url.push(64);
    append(&mut url, tag);
    url.push(SLASH);
    append(&mut url, filename);
    url
}

/// The URLs under which a download is tried, in order: the CDN where the
/// URL is that of a release's file, three mirrors, and the URL itself.
pub open spec fn download_urls(original_url: Seq<u8>) -> Seq<Seq<u8>> {
    (match release_download(original_url) {
        Some(parts) => seq![jsdelivr_url(parts.owner, parts.repo, parts.tag, parts.filename)],
        None => Seq::empty(),
    }) + seq![
        "https://ghfast.top/".spec_bytes() + original_url,
        "https://ghproxy.com/".spec_bytes() + original_url,
        "https://mirror.ghproxy.com/".spec_bytes() + original_url,
        original_url,
    ]
}

fn prefixed(prefix: &[u8], url: &[u8]) -> (text: Vec<u8>)
    ensures
        text@ == prefix@ + url@,
{
    let mut text = copy_of(prefix);
    append(&mut text, url);
    text
}

pub fn build_download_urls(original_url: &[u8]) -> (urls: Vec<Vec<u8>>)
    ensures
        views(urls@) == download_urls(original_url@),
{
    let mut urls: Vec<Vec<u8>> = Vec::new();
    match parse_github_release_download_url(original_url) {
        Some(parts) => {
            urls.push(
                build_jsdelivr_url(
                    parts.owner.as_slice(),
                    parts.repo.as_slice(),
                    parts.tag.as_slice(),
                    parts.filename.as_slice(),
                ),
            );
        },
        None => {},
    }
    urls.push(prefixed("https://ghfast.top/".as_bytes(), original_url));
    urls.push(prefixed("https://ghproxy.com/".as_bytes(), original_url));
    urls.push(prefixed("https://mirror.ghproxy.com/".as_bytes(), original_url));
    urls.push(copy_of(original_url));
    assert(views(urls@) =~= download_urls(original_url@));
    urls
}

/// Why a check for updates offers nothing.
#[derive(Clone, Copy, PartialEq, Eq, Structural, Debug)]
pub enum UpdateCheckError {
    /// The list of releases is empty.
    NoReleases,
    /// None of the releases looked at may be offered.
    NoUsableRelease,
    /// What is installed is not older than the release; reported only where
    /// the user asked for the check.
    AlreadyLatest,
}

/// The words in which an error is reported.
pub open spec fn update_error_words(error: UpdateCheckError) -> Seq<u8> {
    match error {
        UpdateCheckError::NoReleases => "未找到任何发布版本".spec_bytes(),
        UpdateCheckError::NoUsableRelease => "未找到可用的发布版本".spec_bytes(),
        UpdateCheckError::AlreadyLatest => "已是最新版本".spec_bytes(),
    }
}

impl UpdateCheckError {
    pub fn message(&self) -> (words: Vec<u8>)
        ensures
            words@ == update_error_words(*self),
    {
        match self {
            UpdateCheckError::NoReleases => copy_of("未找到任何发布版本".as_bytes()),
            UpdateCheckError::NoUsableRelease => copy_of("未找到可用的发布版本".as_bytes()),
            UpdateCheckError::AlreadyLatest => copy_of("已是最新版本".as_bytes()),
        }
    }
}

/// The update that a release offers.
pub open spec fn offer_of(release: ReleaseView) -> UpdateInfoView {
    UpdateInfoView {
        version: release.tag_name,
        release_notes: release.body,
        download_url: best_download(release.assets).0,
        download_name: best_download(release.assets).1,
        release_page: release.html_url,
    }
}

/// What a check for updates comes to, given the installed version and the
/// releases, newest first. Pre-releases are offered like any release.
pub open spec fn check_outcome(
    current_version: Seq<u8>,
    releases: Seq<ReleaseView>,
    show_notification: bool,
) -> Result<Option<UpdateInfoView>, UpdateCheckError> {
    if releases.len() == 0 {
        Err(UpdateCheckError::NoReleases)
    } else {
        match first_usable(releases, true, 0) {
            None => Err(UpdateCheckError::NoUsableRelease),
            Some(at) => if is_newer(
                version_numbers(current_version),
                version_numbers(releases[at].tag_name),
            ) {
                Ok(Some(offer_of(releases[at])))
            } else if show_notification {
                Err(UpdateCheckError::AlreadyLatest)
            } else {
                Ok(None)
            },
        }
    }
}

pub open spec fn outcome_view(outcome: Result<Option<UpdateInfo>, UpdateCheckError>) -> Result<
    Option<UpdateInfoView>,
    UpdateCheckError,
> {
    match outcome {
        Ok(Some(info)) => Ok(Some(info@)),
        Ok(None) => Ok(None),
        Err(error) => Err(error),
    }
}

/// Decides what a check for updates comes to.
pub fn evaluate_releases(
    current_version: &[u8],
    releases: &Vec<GitHubRelease>,
    show_notification: bool,
) -> (outcome: Result<Option<UpdateInfo>, UpdateCheckError>)
    ensures
        outcome_view(outcome) == check_outcome(
            current_version@,
            releases_view(releases@),
            show_notification,
        ),
{
    if releases.len() == 0 {
        return Err(UpdateCheckError::NoReleases);
    }
    let at = match find_latest_release(releases, true) {
        Some(at) => at,
        None => {
            return Err(UpdateCheckError::NoUsableRelease);
        },
    };
    let release = &releases[at];
    assert(releases_view(releases@)[at as int] == release@);
    if !is_new_version_available(current_version, release.tag_name.as_slice()) {
        if show_notification {
            return Err(UpdateCheckError::AlreadyLatest);
        }
        return Ok(None);
    }
    let (download_url, download_name) = find_best_download_asset(&release.assets);
    Ok(
        Some(
            UpdateInfo {
                version: copy_of(release.tag_name.as_slice()),
                release_notes: copy_of(release.body.as_slice()),
                download_url,
                download_name,
                release_page: copy_of(release.html_url.as_slice()),
            },
        ),
    )
}

/// Whether an automatic check is due at `now`: more than the interval has
/// passed since the last one. A clock that went back makes none due.
pub open spec fn check_is_due(last_check_time: u64, now: u64) -> bool {
    now > last_check_time && now - last_check_time > UPDATE_CHECK_INTERVAL
}

impl UpdatePreferences {
    pub fn is_check_due(&self, now: u64) -> (due: bool)
        ensures
            due == check_is_due(self.last_check_time, now),
    {
        now.saturating_sub(self.last_check_time) > UPDATE_CHECK_INTERVAL
    }

    /// Records that updates were checked for at `now`.
    pub fn record_check(&mut self, now: u64)
        ensures
            final(self).last_check_time == now,
    {
        self.last_check_time = now;
    }
}

/// The percentage that `downloaded` is of `total`, rounded down; 0 where
/// the total is not known.
pub open spec fn percent_of(downloaded: u64, total: u64) -> int {
    if total == 0 {
        0
    } else {
        downloaded * 100 / total as int
    }
}

/// How far a download has got, in percent; capped at `u32::MAX`.
pub fn progress_percent(downloaded: u64, total: u64) -> (percent: u32)
    ensures
        percent == if percent_of(downloaded, total) > u32::MAX {
            u32::MAX as int
        } else {
            percent_of(downloaded, total)
        },
{
    if total == 0 {
        return 0;
    }
    let scaled: u128 = downloaded as u128 * 100;
    let percent: u128 = scaled / (total as u128);
    if percent > 0xFFFF_FFFF {
        0xFFFF_FFFF
    } else {
        percent as u32
    }
}

/// Whether a step of a download is reported: the percentage has grown, or
/// it has reached 100, or the download is complete.
pub fn is_progress_reported(percent: u32, last_reported: u32, downloaded: u64, total: u64) -> (r:
    bool)
    ensures
        r == (percent > last_reported || percent >= 100 || downloaded == total),
{
    percent > last_reported || percent >= 100 || downloaded == total
}

/// The command that installs the file at `file_path`, by the file's
/// extension; the words of an error for an extension that is not known.
pub open spec fn install_command(file_path: Seq<u8>, extension: Seq<u8>) -> Result<
    Seq<u8>,
    Seq<u8>,
> {
    let escaped = quote_escaped(file_path);
    if extension == "msi".spec_bytes() {
        Ok(
            "Start-Process msiexec -ArgumentList '/i', '".spec_bytes() + escaped
                + "', '/passive', '/norestart' -Verb RunAs -Wait".spec_bytes(),
        )
    } else if extension == "exe".spec_bytes() {
        Ok(
            "Start-Process '".spec_bytes() + escaped
                + "' -ArgumentList '/VERYSILENT', '/SILENT', '/S', '/SUPPRESSMSGBOXES', '/NORESTART', '/SP-' -Verb RunAs -Wait".spec_bytes(),
        )
    } else {
        Err("不支持的安装包格式: ".spec_bytes() + extension)
    }
}

pub open spec fn result_view(result: Result<Vec<u8>, Vec<u8>>) -> Result<Seq<u8>, Seq<u8>> {
    match result {
        Ok(text) => Ok(text@),
        Err(text) => Err(text@),
    }
}

pub fn build_install_command(file_path: &[u8], extension: &[u8]) -> (command: Result<
    Vec<u8>,
    Vec<u8>,
>)
    ensures
        result_view(command) == install_command(file_path@, extension@),
{
    if bytes_eq(extension, "msi".as_bytes()) {
        let escaped = escape_quotes(file_path);
        let mut command = copy_of("Start-Process msiexec -ArgumentList '/i', '".as_bytes());
        append(&mut command, escaped.as_slice());
        append(&mut command, "', '/passive', '/norestart' -Verb RunAs -Wait".as_bytes());
        Ok(command)
    } else if bytes_eq(extension, "exe".as_bytes()) {
        let escaped = escape_quotes(file_path);
        let mut command = copy_of("Start-Process '".as_bytes());
        append(&mut command, escaped.as_slice());
        append(
            &mut command,
            "' -ArgumentList '/VERYSILENT', '/SILENT', '/S', '/SUPPRESSMSGBOXES', '/NORESTART', '/SP-' -Verb RunAs -Wait".as_bytes(),
        );
        Ok(command)
    } else {
        Err(prefixed("不支持的安装包格式: ".as_bytes(), extension))
    }
}

} // verus!
