//! Release channels, release selection and update decisions.
use vstd::prelude::*;

use crate::sync::append_decimal;
use crate::text::{
    chars_contains, chars_eq, chars_to_ascii_lower, contains_seq, copy_str, lower_seq, occurs_at, str_eq,
    to_chars,
};
use crate::timefmt::decimal;

verus! {

/// Which release channel to check for updates.
#[derive(Debug, Clone, Copy, PartialEq, Eq, Structural)]
pub enum UpdateChannel {
    Stable,
    Beta,
    Nightly,
}

/// Name a channel is written under.
pub open spec fn channel_name(c: UpdateChannel) -> Seq<char> {
    match c {
        UpdateChannel::Stable => "stable"@,
        UpdateChannel::Beta => "beta"@,
        UpdateChannel::Nightly => "nightly"@,
    }
}

/// Channel whose name is exactly `l`.
pub open spec fn channel_of_text(l: Seq<char>) -> Option<UpdateChannel> {
    if l == "stable"@ {
        Some(UpdateChannel::Stable)
    } else if l == "beta"@ {
        Some(UpdateChannel::Beta)
    } else if l == "nightly"@ {
        Some(UpdateChannel::Nightly)
    } else {
        None
    }
}

/// The Unicode lowercase of a text, as `str::to_lowercase` gives it.
pub uninterp spec fn unicode_lowercase(s: Seq<char>) -> Seq<char>;

/// A text made of the letters `a` to `z` alone.
pub open spec fn is_ascii_lower_word(s: Seq<char>) -> bool {
    forall|i: int| 0 <= i < s.len() ==> 'a' <= #[trigger] s[i] <= 'z'
}

/// `str::to_lowercase`: the text's lowercase equivalent under Unicode's `Lowercase`
/// property, a function of the text alone; letters that are already lowercase, as `a`
/// to `z` are, stay as they are.
#[verifier::external_body]
fn lowercase_of(s: &str) -> (r: String)
    ensures
        r@ == unicode_lowercase(s@),
        is_ascii_lower_word(s@) ==> r@ == s@,
{
    s.to_lowercase()
}

/// Channel named by `s`, compared after Unicode lowercasing.
pub open spec fn channel_of_name(s: Seq<char>) -> Option<UpdateChannel> {
    channel_of_text(unicode_lowercase(s))
}

/// A channel name that is none of `stable`, `beta`, `nightly`.
#[derive(Debug, Clone)]
pub struct UnknownUpdateChannel {
    pub value: String,
}

impl UnknownUpdateChannel {
    /// Human readable description of the error.
    pub fn message(&self) -> (r: String)
        ensures
            r@ == "Unknown update channel: "@ + self.value@ + ". Expected stable, beta, or nightly"@,
    {
        let mut r = copy_str("Unknown update channel: ");
        r.append(self.value.as_str());
        r.append(". Expected stable, beta, or nightly");
        r
    }
}

impl Default for UpdateChannel {
    fn default() -> (r: Self)
        ensures
            r == UpdateChannel::Stable,
    {
        UpdateChannel::Stable
    }
}

impl UpdateChannel {
    /// The channel's name, as `Display` renders it.
    pub fn as_str(&self) -> (r: String)
        ensures
            r@ == channel_name(*self),
    {
        match self {
            UpdateChannel::Stable => copy_str("stable"),
            UpdateChannel::Beta => copy_str("beta"),
            UpdateChannel::Nightly => copy_str("nightly"),
        }
    }

    /// The channel an already lowercased name names, or the name as the error.
    pub fn channel_of_lowered(lowered: String) -> (r: Result<UpdateChannel, UnknownUpdateChannel>)
        ensures
            match r {
                Ok(c) => channel_of_text(lowered@) == Some(c),
                Err(e) => channel_of_text(lowered@) is None && e.value == lowered,
            },
    {
        if str_eq(lowered.as_str(), "stable") {
            Ok(UpdateChannel::Stable)
        } else if str_eq(lowered.as_str(), "beta") {
            Ok(UpdateChannel::Beta)
        } else if str_eq(lowered.as_str(), "nightly") {
            Ok(UpdateChannel::Nightly)
        } else {
            Err(UnknownUpdateChannel { value: lowered })
        }
    }

    /// Parses a channel name without regard to case: its Unicode lowercase must be
    /// `stable`, `beta` or `nightly`; otherwise the error holds that lowercase.
    pub fn parse_name(s: &str) -> (r: Result<UpdateChannel, UnknownUpdateChannel>)
        ensures
            match r {
                Ok(c) => channel_of_name(s@) == Some(c),
                Err(e) => channel_of_name(s@) is None && e.value@ == unicode_lowercase(s@),
            },
            forall|c: UpdateChannel| s@ == #[trigger] channel_name(c) ==> (r matches Ok(d) && d == c),
    {
        let lowered = lowercase_of(s);
        proof {
            assert forall|c: UpdateChannel| s@ == #[trigger] channel_name(c) implies lowered@ == s@
                && channel_of_text(s@) == Some(c) by {
                channel_name_round_trips(c);
            }
        }
        UpdateChannel::channel_of_lowered(lowered)
    }

    /// Resolves the active channel: an explicit override must parse; otherwise the
    /// persisted setting is used when it parses, and `Stable` when it does not.
    pub fn resolve(override_value: Option<&str>, persisted: Option<&str>) -> (r: Result<
        UpdateChannel,
        UnknownUpdateChannel,
    >)
        ensures
            match override_value {
                Some(s) => match r {
                    Ok(c) => channel_of_name(s@) == Some(c),
                    Err(e) => channel_of_name(s@) is None && e.value@ == unicode_lowercase(s@),
                },
                None => r == Ok::<UpdateChannel, UnknownUpdateChannel>(
                    match persisted {
                        Some(p) => match channel_of_name(p@) {
                            Some(c) => c,
                            None => UpdateChannel::Stable,
                        },
                        None => UpdateChannel::Stable,
                    },
                ),
            },
    {
        match override_value {
            Some(s) => UpdateChannel::parse_name(s),
            None => match persisted {
                Some(p) => match UpdateChannel::parse_name(p) {
                    Ok(c) => Ok(c),
                    Err(_) => Ok(UpdateChannel::Stable),
                },
                None => Ok(UpdateChannel::Stable),
            },
        }
    }
}

impl core::str::FromStr for UpdateChannel {
    type Err = UnknownUpdateChannel;

    fn from_str(s: &str) -> (r: Result<Self, Self::Err>)
        ensures
            match r {
                Ok(c) => channel_of_name(s@) == Some(c),
                Err(e) => channel_of_name(s@) is None && e.value@ == unicode_lowercase(s@),
            },
            forall|c: UpdateChannel| s@ == #[trigger] channel_name(c) ==> (r matches Ok(d) && d == c),
    {
        UpdateChannel::parse_name(s)
    }
}

/// Parse of a SemVer version text by the `semver` crate: major, minor, patch,
/// pre-release and build metadata, or `None` when the text is not a version.
pub uninterp spec fn semver_parse(text: Seq<char>) -> Option<(u64, u64, u64, Seq<char>, Seq<char>)>;

/// Whether `semver` orders the version written `a` before the one written `b`.
pub uninterp spec fn semver_less(a: Seq<char>, b: Seq<char>) -> bool;

/// A SemVer version, kept with the text it was parsed from.
#[derive(Debug)]
pub struct Version {
    text: String,
    major: u64,
    minor: u64,
    patch: u64,
    pre: String,
    build: String,
}

/// `(a1, a2, a3)` comes before `(b1, b2, b3)` in lexicographic order.
pub open spec fn triple_less(a1: u64, a2: u64, a3: u64, b1: u64, b2: u64, b3: u64) -> bool {
    a1 < b1 || (a1 == b1 && (a2 < b2 || (a2 == b2 && a3 < b3)))
}

impl Clone for Version {
    fn clone(&self) -> (r: Self)
        ensures
            r == *self,
    {
        proof {
            use_type_invariant(self);
        }
        Version {
            text: self.text.clone(),
            major: self.major,
            minor: self.minor,
            patch: self.patch,
            pre: self.pre.clone(),
            build: self.build.clone(),
        }
    }
}

impl Version {
    #[verifier::type_invariant]
    spec fn parsed(self) -> bool {
        semver_parse(self.text@) == Some(
            (self.major, self.minor, self.patch, self.pre@, self.build@),
        )
    }

    /// Text the version was parsed from.
    pub closed spec fn text_view(&self) -> Seq<char> {
        self.text@
    }

    /// Major, minor, patch.
    pub closed spec fn numbers(&self) -> (u64, u64, u64) {
        (self.major, self.minor, self.patch)
    }

    /// Pre-release identifiers (empty for a release).
    pub closed spec fn pre_view(&self) -> Seq<char> {
        self.pre@
    }

    /// Parses a version with `semver::Version::parse`.
    #[verifier::external_body]
    fn semver_parse_text(text: &str) -> (r: Option<Version>)
        ensures
            r is Some <==> semver_parse(text@) is Some,
            r matches Some(v) ==> v.text@ == text@ && semver_parse(text@) == Some(
                (v.major, v.minor, v.patch, v.pre@, v.build@),
            ),
    {
        match semver::Version::parse(text) {
            Ok(v) => Some(Version {
                text: text.to_string(),
                major: v.major,
                minor: v.minor,
                patch: v.patch,
                pre: v.pre.as_str().to_string(),
                build: v.build.as_str().to_string(),
            }),
            Err(_) => None,
        }
    }

    /// Parses SemVer text; `None` when the text is not a version.
    pub fn parse(text: &str) -> (r: Option<Version>)
        ensures
            r is Some <==> semver_parse(text@) is Some,
            r matches Some(v) ==> v.text_view() == text@ && semver_parse(text@) == Some(
                (v.numbers().0, v.numbers().1, v.numbers().2, v.pre_view(), semver_parse(
                    text@,
                )->Some_0.4),
            ),
    {
        Version::semver_parse_text(text)
    }

    pub fn major(&self) -> (r: u64)
        ensures
            r == self.numbers().0,
    {
        self.major
    }

    pub fn minor(&self) -> (r: u64)
        ensures
            r == self.numbers().1,
    {
        self.minor
    }

    pub fn patch(&self) -> (r: u64)
        ensures
            r == self.numbers().2,
    {
        self.patch
    }

    /// Whether the version has no pre-release part.
    pub fn pre_is_empty(&self) -> (r: bool)
        ensures
            r == (self.pre_view().len() == 0),
    {
        self.pre.as_str().unicode_len() == 0
    }

    /// The version's text.
    pub fn text(&self) -> (r: String)
        ensures
            r@ == self.text_view(),
    {
        self.text.clone()
    }

    /// `semver::Version`'s order (`<`) on two parsed versions. The order is a total order
    /// (`Ord`), so a version written the same way is never before itself, and the
    /// major/minor/patch numbers decide when they differ.
    #[verifier::external_body]
    fn semver_lt(a: &Version, b: &Version) -> (r: bool)
        ensures
            r == semver_less(a.text@, b.text@),
            triple_less(a.major, a.minor, a.patch, b.major, b.minor, b.patch) ==> r,
            triple_less(b.major, b.minor, b.patch, a.major, a.minor, a.patch) ==> !r,
            a.text@ == b.text@ ==> !r,
    {
        match (semver::Version::parse(&a.text), semver::Version::parse(&b.text)) {
            (Ok(x), Ok(y)) => x < y,
            _ => false,
        }
    }

    /// Whether `self` comes before `other` in SemVer order.
    pub fn less_than(&self, other: &Version) -> (r: bool)
        ensures
            r == semver_less(self.text_view(), other.text_view()),
            triple_less(
                self.numbers().0,
                self.numbers().1,
                self.numbers().2,
                other.numbers().0,
                other.numbers().1,
                other.numbers().2,
            ) ==> r,
            triple_less(
                other.numbers().0,
                other.numbers().1,
                other.numbers().2,
                self.numbers().0,
                self.numbers().1,
                self.numbers().2,
            ) ==> !r,
            self.text_view() == other.text_view() ==> !r,
    {
        Version::semver_lt(self, other)
    }
}


/// A downloadable asset attached to a release.
#[derive(Debug, Clone)]
pub struct ReleaseAsset {
    pub name: String,
    pub browser_download_url: String,
    pub size: u64,
}

/// A single release from the GitHub Releases API.
#[derive(Debug, Clone)]
pub struct ReleaseInfo {
    pub tag_name: String,
    pub html_url: String,
    pub published_at: Option<String>,
    pub prerelease: bool,
    pub assets: Vec<ReleaseAsset>,
}

/// Asset object as the GitHub API returns it.
#[derive(Debug, Clone)]
pub struct GitHubAsset {
    pub name: String,
    pub browser_download_url: String,
    pub size: u64,
}

/// Release object as the GitHub API returns it (only the fields used).
#[derive(Debug, Clone)]
pub struct GitHubRelease {
    pub tag_name: String,
    pub html_url: String,
    pub published_at: Option<String>,
    pub prerelease: bool,
    pub assets: Vec<GitHubAsset>,
}

/// Result of checking whether an update is available.
#[derive(Debug, Clone)]
pub struct UpdateCheckResult {
    pub current_version: String,
    pub latest_version: Option<String>,
    pub update_available: bool,
    pub channel: UpdateChannel,
    pub release_url: Option<String>,
}

/// Whether a release with this tag and pre-release flag belongs to the channel.
pub open spec fn release_in_channel(tag: Seq<char>, prerelease: bool, channel: UpdateChannel) -> bool {
    match channel {
        UpdateChannel::Stable => !prerelease,
        UpdateChannel::Beta => prerelease && contains_seq(tag, "-beta"@),
        UpdateChannel::Nightly => tag == "nightly"@ || (prerelease && contains_seq(tag, "-nightly"@)),
    }
}

/// The release is in the channel and carries an asset with the required name.
pub open spec fn installable(r: GitHubRelease, channel: UpdateChannel, asset: Seq<char>) -> bool {
    &&& release_in_channel(r.tag_name@, r.prerelease, channel)
    &&& exists|j: int| 0 <= j < r.assets@.len() && #[trigger] r.assets@[j].name@ == asset
}

/// Whether `release` belongs to `channel`.
pub fn matches_channel(release: &GitHubRelease, channel: UpdateChannel) -> (r: bool)
    ensures
        r == release_in_channel(release.tag_name@, release.prerelease, channel),
{
    match channel {
        UpdateChannel::Stable => !release.prerelease,
        UpdateChannel::Beta => release.prerelease && chars_contains(
            &to_chars(release.tag_name.as_str()),
            &to_chars("-beta"),
        ),
        UpdateChannel::Nightly => {
            let tag = to_chars(release.tag_name.as_str());
            chars_eq(&tag, &to_chars("nightly")) || (release.prerelease && chars_contains(
                &tag,
                &to_chars("-nightly"),
            ))
        },
    }
}

fn has_asset_named(release: &GitHubRelease, asset_name: &str) -> (r: bool)
    ensures
        r == exists|j: int|
            0 <= j < release.assets@.len() && #[trigger] release.assets@[j].name@ == asset_name@,
{
    let mut j: usize = 0;
    while j < release.assets.len()
        invariant
            j <= release.assets.len(),
            forall|k: int| 0 <= k < j ==> release.assets@[k].name@ != asset_name@,
        decreases release.assets.len() - j,
    {
        if crate::text::str_eq(release.assets[j].name.as_str(), asset_name) {
            return true;
        }
        j = j + 1;
    }
    false
}

/// Index of the first (newest) release that matches the channel and ships the asset.
pub fn latest_matching_release_index(
    releases: &Vec<GitHubRelease>,
    channel: UpdateChannel,
    required_asset_name: &str,
) -> (r: Option<usize>)
    ensures
        match r {
            Some(i) => i < releases.len() && installable(
                releases@[i as int],
                channel,
                required_asset_name@,
            ) && forall|k: int|
                0 <= k < i ==> !installable(#[trigger] releases@[k], channel, required_asset_name@),
            None => forall|k: int|
                0 <= k < releases.len() ==> !installable(
                    #[trigger] releases@[k],
                    channel,
                    required_asset_name@,
                ),
        },
{
    let mut i: usize = 0;
    while i < releases.len()
        invariant
            i <= releases.len(),
            forall|k: int|
                0 <= k < i ==> !installable(#[trigger] releases@[k], channel, required_asset_name@),
        decreases releases.len() - i,
    {
        if matches_channel(&releases[i], channel) && has_asset_named(
            &releases[i],
            required_asset_name,
        ) {
            return Some(i);
        }
        i = i + 1;
    }
    None
}

/// The first (newest) release that matches the channel and ships the asset.
pub fn latest_matching_release<'a>(
    releases: &'a Vec<GitHubRelease>,
    channel: UpdateChannel,
    required_asset_name: &str,
) -> (r: Option<&'a GitHubRelease>)
    ensures
        match r {
            Some(x) => exists|i: int|
                0 <= i < releases.len() && releases@[i] == *x && installable(
                    releases@[i],
                    channel,
                    required_asset_name@,
                ) && forall|k: int|
                    0 <= k < i ==> !installable(
                        #[trigger] releases@[k],
                        channel,
                        required_asset_name@,
                    ),
            None => forall|k: int|
                0 <= k < releases.len() ==> !installable(
                    #[trigger] releases@[k],
                    channel,
                    required_asset_name@,
                ),
        },
{
    match latest_matching_release_index(releases, channel, required_asset_name) {
        Some(i) => Some(&releases[i]),
        None => None,
    }
}

fn copy_opt(s: &Option<String>) -> (r: Option<String>)
    ensures
        r == *s,
{
    match s {
        Some(v) => Some(v.clone()),
        None => None,
    }
}

impl ReleaseInfo {
    /// The release as the library keeps it, copied from the API object.
    pub fn from_github(r: &GitHubRelease) -> (out: ReleaseInfo)
        ensures
            out.tag_name == r.tag_name,
            out.html_url == r.html_url,
            out.published_at == r.published_at,
            out.prerelease == r.prerelease,
            out.assets@.len() == r.assets@.len(),
            forall|j: int|
                0 <= j < r.assets@.len() ==> (#[trigger] out.assets@[j]).name == r.assets@[j].name
                    && out.assets@[j].browser_download_url == r.assets@[j].browser_download_url
                    && out.assets@[j].size == r.assets@[j].size,
    {
        let mut assets: Vec<ReleaseAsset> = Vec::new();
        let mut j: usize = 0;
        while j < r.assets.len()
            invariant
                j <= r.assets.len(),
                assets@.len() == j,
                forall|k: int|
                    0 <= k < j ==> (#[trigger] assets@[k]).name == r.assets@[k].name
                        && assets@[k].browser_download_url == r.assets@[k].browser_download_url
                        && assets@[k].size == r.assets@[k].size,
            decreases r.assets.len() - j,
        {
            let a = &r.assets[j];
            assets.push(
                ReleaseAsset {
                    name: a.name.clone(),
                    browser_download_url: a.browser_download_url.clone(),
                    size: a.size,
                },
            );
            j = j + 1;
        }
        ReleaseInfo {
            tag_name: r.tag_name.clone(),
            html_url: r.html_url.clone(),
            published_at: copy_opt(&r.published_at),
            prerelease: r.prerelease,
            assets,
        }
    }

    /// The asset with the given name, if the release has one (the first such).
    pub fn asset_named(&self, asset_name: &str) -> (r: Option<&ReleaseAsset>)
        ensures
            match r {
                Some(a) => exists|j: int|
                    0 <= j < self.assets@.len() && self.assets@[j] == *a && a.name@ == asset_name@
                        && forall|k: int|
                        0 <= k < j ==> (#[trigger] self.assets@[k]).name@ != asset_name@,
                None => forall|k: int|
                    0 <= k < self.assets@.len() ==> (#[trigger] self.assets@[k]).name@
                        != asset_name@,
            },
    {
        let mut j: usize = 0;
        while j < self.assets.len()
            invariant
                j <= self.assets.len(),
                forall|k: int| 0 <= k < j ==> (#[trigger] self.assets@[k]).name@ != asset_name@,
            decreases self.assets.len() - j,
        {
            if crate::text::str_eq(self.assets[j].name.as_str(), asset_name) {
                return Some(&self.assets[j]);
            }
            j = j + 1;
        }
        None
    }

    /// The tag parsed as a version, after dropping one leading `v`.
    pub fn version(&self) -> (r: Option<Version>)
        ensures
            ({
                let tag = self.tag_name@;
                let raw = if tag.len() > 0 && tag[0] == 'v' {
                    tag.drop_first()
                } else {
                    tag
                };
                &&& r is Some <==> semver_parse(raw) is Some
                &&& r matches Some(v) ==> v.text_view() == raw && semver_parse(raw)->Some_0.3
                    == v.pre_view()
            }),
    {
        let tag = to_chars(self.tag_name.as_str());
        let raw = if tag.len() > 0 && tag[0] == 'v' {
            crate::text::string_from_range(&tag, 1, tag.len())
        } else {
            crate::text::string_from_chars(&tag)
        };
        proof {
            if tag@.len() > 0 && tag@[0] == 'v' {
                assert(tag@.subrange(1, tag@.len() as int) == tag@.drop_first());
            }
        }
        Version::parse(raw.as_str())
    }
}

/// Whether `latest` is an update over `current` on the channel: it must be newer,
/// and on the stable channel it must not be a pre-release. A version is never an update
/// over itself.
pub fn is_update(current: &Version, latest: &Version, channel: UpdateChannel) -> (r: bool)
    ensures
        r == match channel {
            UpdateChannel::Stable => semver_less(current.text_view(), latest.text_view())
                && latest.pre_view().len() == 0,
            _ => semver_less(current.text_view(), latest.text_view()),
        },
        current.text_view() == latest.text_view() ==> !r,
{
    match channel {
        UpdateChannel::Stable => current.less_than(latest) && latest.pre_is_empty(),
        _ => current.less_than(latest),
    }
}

/// Tag text with one leading `v` dropped.
pub open spec fn strip_v(tag: Seq<char>) -> Seq<char> {
    if tag.len() > 0 && tag[0] == 'v' {
        tag.drop_first()
    } else {
        tag
    }
}

/// Whether the release tagged `tag` is an update over the version written `current`:
/// a tag that is not a version counts as an update only on the nightly channel.
pub open spec fn update_available_for_tag(
    current: Seq<char>,
    tag: Seq<char>,
    channel: UpdateChannel,
) -> bool {
    let raw = strip_v(tag);
    match semver_parse(raw) {
        Some(p) => match channel {
            UpdateChannel::Stable => semver_less(current, raw) && p.3.len() == 0,
            _ => semver_less(current, raw),
        },
        None => channel == UpdateChannel::Nightly,
    }
}

/// Builds the update-check answer for the current version and the newest installable release.
pub fn update_check_result(
    current: &Version,
    latest_release: Option<&ReleaseInfo>,
    channel: UpdateChannel,
) -> (r: UpdateCheckResult)
    ensures
        r.current_version@ == current.text_view(),
        r.channel == channel,
        match latest_release {
            Some(rel) => {
                &&& r.latest_version == Some(rel.tag_name)
                &&& r.release_url == Some(rel.html_url)
                &&& r.update_available == update_available_for_tag(
                    current.text_view(),
                    rel.tag_name@,
                    channel,
                )
            },
            None => !r.update_available && r.latest_version is None && r.release_url is None,
        },
{
    match latest_release {
        Some(release) => {
            let v = release.version();
            let available = match &v {
                Some(latest_ver) => is_update(current, latest_ver, channel),
                None => match channel {
                    UpdateChannel::Nightly => true,
                    _ => false,
                },
            };
            UpdateCheckResult {
                current_version: current.text(),
                latest_version: Some(release.tag_name.clone()),
                update_available: available,
                channel,
                release_url: Some(release.html_url.clone()),
            }
        },
        None => UpdateCheckResult {
            current_version: current.text(),
            latest_version: None,
            update_available: false,
            channel,
            release_url: None,
        },
    }
}

/// The release asset this build installs from, by operating system and architecture:
/// any macOS build takes the arm64 archive, Linux builds the archive of their
/// architecture (x86_64 or aarch64).
pub open spec fn platform_asset(os: Seq<char>, arch: Seq<char>) -> Option<Seq<char>> {
    if os == "macos"@ {
        Some("orbitdock-darwin-arm64.zip"@)
    } else if os == "linux"@ && arch == "x86_64"@ {
        Some("orbitdock-linux-x86_64.zip"@)
    } else if os == "linux"@ && arch == "aarch64"@ {
        Some("orbitdock-linux-aarch64.zip"@)
    } else {
        None
    }
}

/// The name of the release asset for a platform, or the error for a platform that has
/// none.
pub fn release_asset_name(os: &str, arch: &str) -> (r: Result<String, String>)
    ensures
        match platform_asset(os@, arch@) {
            Some(name) => r matches Ok(v) && v@ == name,
            None => r matches Err(e) && e@ == "Unsupported platform: "@ + os@ + " / "@ + arch@,
        },
{
    if str_eq(os, "macos") {
        Ok(copy_str("orbitdock-darwin-arm64.zip"))
    } else if str_eq(os, "linux") && str_eq(arch, "x86_64") {
        Ok(copy_str("orbitdock-linux-x86_64.zip"))
    } else if str_eq(os, "linux") && str_eq(arch, "aarch64") {
        Ok(copy_str("orbitdock-linux-aarch64.zip"))
    } else {
        let mut e = copy_str("Unsupported platform: ");
        e.append(os);
        e.append(" / ");
        e.append(arch);
        Err(e)
    }
}

/// An ASCII decimal digit.
pub open spec fn is_decimal_digit(c: char) -> bool {
    '0' <= c && c <= '9'
}

/// The number a string of decimal digits spells.
pub open spec fn digits_value(d: Seq<char>) -> nat
    decreases d.len(),
{
    if d.len() == 0 {
        0
    } else {
        digits_value(d.drop_last()) * 10 + (d.last() as nat - '0' as nat) as nat
    }
}

/// The text after an optional leading `+`.
pub open spec fn unsigned_digits(s: Seq<char>) -> Seq<char> {
    if s.len() > 0 && s[0] == '+' {
        s.drop_first()
    } else {
        s
    }
}

/// Every character is an ASCII digit.
pub open spec fn all_digits(d: Seq<char>) -> bool {
    forall|i: int| 0 <= i < d.len() ==> is_decimal_digit(#[trigger] d[i])
}

/// `u64::from_str`: an optional `+`, then one or more ASCII digits whose value fits.
pub open spec fn parse_u64(s: Seq<char>) -> Option<u64> {
    let d = unsigned_digits(s);
    if d.len() > 0 && all_digits(d) && digits_value(d) <= u64::MAX {
        Some(digits_value(d) as u64)
    } else {
        None
    }
}

proof fn lemma_digits_value_grows(d: Seq<char>, k: int)
    requires
        0 <= k <= d.len(),
        forall|i: int| 0 <= i < d.len() ==> is_decimal_digit(#[trigger] d[i]),
    ensures
        digits_value(d.take(k)) <= digits_value(d),
    decreases d.len() - k,
{
    if k < d.len() {
        lemma_digits_value_grows(d, k + 1);
        assert(d.take(k + 1).drop_last() =~= d.take(k));
    } else {
        assert(d.take(k) =~= d);
    }
}

/// Parses a decimal `u64` as `str::parse::<u64>` does.
pub fn parse_decimal_u64(s: &str) -> (r: Option<u64>)
    ensures
        r == parse_u64(s@),
{
    let chars = to_chars(s);
    let start: usize = if chars.len() > 0 && chars[0] == '+' {
        1
    } else {
        0
    };
    let ghost d = unsigned_digits(s@);
    proof {
        assert(d =~= chars@.skip(start as int));
    }
    if start >= chars.len() {
        return None;
    }
    let mut value: u64 = 0;
    let mut i: usize = start;
    while i < chars.len()
        invariant
            start <= i <= chars@.len(),
            d == unsigned_digits(s@),
            d =~= chars@.skip(start as int),
            forall|j: int| 0 <= j < i - start ==> is_decimal_digit(#[trigger] d[j]),
            value == digits_value(d.take(i - start)),
        decreases chars.len() - i,
    {
        let c = chars[i];
        proof {
            assert(d[i - start] == chars@[i as int]);
        }
        if c < '0' || c > '9' {
            proof {
                assert(!is_decimal_digit(d[i - start]));
                assert(!all_digits(d));
            }
            return None;
        }
        let digit = (c as u32 - '0' as u32) as u64;
        proof {
            assert(d.take(i + 1 - start).drop_last() =~= d.take(i - start));
            assert(d.take(i + 1 - start).last() == c);
        }
        if value > (u64::MAX - digit) / 10 {
            proof {
                assert(digits_value(d.take(i + 1 - start)) > u64::MAX) by (nonlinear_arith)
                    requires
                        value > (u64::MAX - digit) / 10,
                        digits_value(d.take(i + 1 - start)) == value * 10 + digit,
                        digit <= 9,
                ;
            }
            let mut j: usize = i + 1;
            while j < chars.len()
                invariant
                    start <= i,
                    i + 1 <= j <= chars@.len(),
                    d == unsigned_digits(s@),
                    digits_value(d.take(i + 1 - start)) > u64::MAX,
                    d =~= chars@.skip(start as int),
                    forall|x: int| 0 <= x < j - start ==> is_decimal_digit(#[trigger] d[x]),
                decreases chars.len() - j,
            {
                let cj = chars[j];
                proof {
                    assert(d[j - start] == chars@[j as int]);
                }
                if cj < '0' || cj > '9' {
                    proof {
                        assert(!is_decimal_digit(d[j - start]));
                        assert(!all_digits(d));
                    }
                    return None;
                }
                j = j + 1;
            }
            proof {
                assert(j - start == d.len());
                lemma_digits_value_grows(d, i + 1 - start);
            }
            return None;
        }
        value = value * 10 + digit;
        i = i + 1;
    }
    proof {
        assert(d.take(i - start) =~= d);
    }
    Some(value)
}

/// GitHub refused the request and reports no requests left.
pub open spec fn rate_limit_spent(forbidden: bool, remaining: Option<&str>) -> bool {
    forbidden && match remaining {
        Some(v) => parse_u64(v@) == Some(0u64),
        None => false,
    }
}

/// When the limit resets, if the header says so as a number.
pub open spec fn reset_note(reset: Option<&str>) -> Seq<char> {
    match reset {
        Some(t) => match parse_u64(t@) {
            Some(n) => " (resets at epoch "@ + decimal(n as nat) + ")"@,
            None => Seq::empty(),
        },
        None => Seq::empty(),
    }
}

/// The error when GitHub refuses a request because the rate limit is spent: a 403
/// answer with `x-ratelimit-remaining: 0`. It names the reset time when
/// `x-ratelimit-reset` holds a number.
pub fn check_rate_limit(forbidden: bool, remaining: Option<&str>, reset: Option<&str>) -> (r: Result<
    (),
    String,
>)
    ensures
        match r {
            Ok(()) => !rate_limit_spent(forbidden, remaining),
            Err(e) => rate_limit_spent(forbidden, remaining) && e@ == "GitHub API rate limit exceeded"@
                + reset_note(reset),
        },
{
    let remaining_count = match remaining {
        Some(v) => parse_decimal_u64(v),
        None => None,
    };
    if forbidden && remaining_count == Some(0u64) {
        let mut e = copy_str("GitHub API rate limit exceeded");
        let reset_epoch = match reset {
            Some(t) => parse_decimal_u64(t),
            None => None,
        };
        match reset_epoch {
            Some(n) => {
                e.append(" (resets at epoch ");
                append_decimal(&mut e, n);
                e.append(")");
            },
            None => {},
        }
        return Err(e);
    }
    Ok(())
}

/// Automatic update checks wait this long after the last one (six hours, in
/// nanoseconds).
pub const UPDATE_RECHECK_NANOS: i128 = 6 * 60 * 60 * 1_000_000_000;

/// Manual update checks wait this long after the last one (five minutes, in
/// nanoseconds).
pub const MANUAL_RECHECK_NANOS: i128 = 5 * 60 * 1_000_000_000;

/// Whether more than `interval` has passed since the last check, or there was none.
pub open spec fn recheck_due(checked_at: Option<i128>, now: i128, interval: i128) -> bool {
    match checked_at {
        None => true,
        Some(t) => now - t > interval,
    }
}

/// Whether an automatic update check is due: none was made, or the last is more than
/// six hours old. Times are nanoseconds since the Unix epoch.
pub fn should_recheck_update(checked_at_nanos: Option<i128>, now_nanos: i128) -> (r: bool)
    requires
        -0x1_0000_0000_0000_0000_0000_0000 <= now_nanos <= 0x1_0000_0000_0000_0000_0000_0000,
        checked_at_nanos matches Some(t) ==> -0x1_0000_0000_0000_0000_0000_0000 <= t
            <= 0x1_0000_0000_0000_0000_0000_0000,
    ensures
        r == recheck_due(checked_at_nanos, now_nanos, UPDATE_RECHECK_NANOS),
{
    match checked_at_nanos {
        None => true,
        Some(t) => now_nanos - t > UPDATE_RECHECK_NANOS,
    }
}

/// Whether a manual update check may run: none was made, or the last is more than
/// five minutes old.
pub fn should_recheck_update_manual(checked_at_nanos: Option<i128>, now_nanos: i128) -> (r: bool)
    requires
        -0x1_0000_0000_0000_0000_0000_0000 <= now_nanos <= 0x1_0000_0000_0000_0000_0000_0000,
        checked_at_nanos matches Some(t) ==> -0x1_0000_0000_0000_0000_0000_0000 <= t
            <= 0x1_0000_0000_0000_0000_0000_0000,
    ensures
        r == recheck_due(checked_at_nanos, now_nanos, MANUAL_RECHECK_NANOS),
{
    match checked_at_nanos {
        None => true,
        Some(t) => now_nanos - t > MANUAL_RECHECK_NANOS,
    }
}

/// Guard that lets one update check run at a time.
#[derive(Debug, Clone, Copy, PartialEq, Eq, Structural)]
pub struct UpdateCheckGuard {
    pub in_flight: bool,
}

impl UpdateCheckGuard {
    /// A guard with no check running.
    pub fn new() -> (r: Self)
        ensures
            !r.in_flight,
    {
        UpdateCheckGuard { in_flight: false }
    }

    /// Claims the guard; `true` when this caller won and should run the check.
    pub fn claim_update_check(&mut self) -> (r: bool)
        ensures
            r == !old(self).in_flight,
            final(self).in_flight,
    {
        let won = !self.in_flight;
        self.in_flight = true;
        won
    }

    /// Releases the guard after a check.
    pub fn release_update_check(&mut self)
        ensures
            !final(self).in_flight,
    {
        self.in_flight = false;
    }
}

/// The name a channel is written under is lowercase letters alone, and names that
/// channel and only that one.
pub proof fn channel_name_round_trips(c: UpdateChannel)
    ensures
        is_ascii_lower_word(channel_name(c)),
        channel_of_text(channel_name(c)) == Some(c),
{
    reveal_strlit("stable");
    reveal_strlit("beta");
    reveal_strlit("nightly");
    assert("beta"@ != "stable"@) by {
        assert("beta"@.len() != "stable"@.len());
    }
    assert("nightly"@ != "stable"@) by {
        assert("nightly"@.len() != "stable"@.len());
    }
    assert("nightly"@ != "beta"@) by {
        assert("nightly"@.len() != "beta"@.len());
    }
}

/// Which releases each channel offers. The stable channel offers exactly the full
/// releases. The beta channel offers exactly the pre-releases whose tag holds `-beta`.
/// The nightly channel offers the release tagged `nightly` and the pre-releases whose tag
/// holds `-nightly`, and nothing else: never a beta pre-release whose tag does not also
/// name nightly, and no full release but the one tagged `nightly`.
pub proof fn channels_offer_their_own_releases(tag: Seq<char>, prerelease: bool)
    ensures
        release_in_channel(tag, prerelease, UpdateChannel::Stable) <==> !prerelease,
        release_in_channel(tag, prerelease, UpdateChannel::Beta) <==> prerelease && contains_seq(
            tag,
            "-beta"@,
        ),
        release_in_channel(tag, prerelease, UpdateChannel::Nightly) ==> tag == "nightly"@ || (
        prerelease && contains_seq(tag, "-nightly"@)),
        tag == "nightly"@ ==> release_in_channel(tag, prerelease, UpdateChannel::Nightly),
        prerelease && contains_seq(tag, "-nightly"@) ==> release_in_channel(
            tag,
            prerelease,
            UpdateChannel::Nightly,
        ),
        contains_seq(tag, "-beta"@) && !contains_seq(tag, "-nightly"@) ==> !release_in_channel(
            tag,
            prerelease,
            UpdateChannel::Nightly,
        ),
        !prerelease && tag != "nightly"@ ==> !release_in_channel(
            tag,
            prerelease,
            UpdateChannel::Nightly,
        ) && !release_in_channel(tag, prerelease, UpdateChannel::Beta),
{
    reveal_strlit("nightly");
    reveal_strlit("-beta");
    if tag == "nightly"@ && contains_seq(tag, "-beta"@) {
        let i = choose|i: int| occurs_at(tag, "-beta"@, i);
        assert(tag.subrange(i, i + 5)[0] == tag[i]);
        assert(tag[i] == '-');
    }
}

} // verus!
