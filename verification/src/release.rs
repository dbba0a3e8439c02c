//! The latest release of a repository, and whether it is an update.
use crate::checksum::{github_checksum, parse_github_sha256};
use crate::config::{
    config_fault, law_settings_that_can_work, validate_config, ConfigView, UpdateConfig,
};
use crate::http::{HttpRequest, RequestView};
use crate::text::{
    blank, chars_of, eq_ignore_ascii_case, option_text, same_ignoring_case, string_of,
};
use crate::version::{is_newer, law_version_survives_without_v, newer, strip_v, without_v};
use vstd::prelude::*;

verus! {

/// The host that tells of releases.
pub const API_HOST: &'static str = "api.github.com";

/// The size that the description of a release must not exceed: 4 MiB.
pub const METADATA_MAX_SIZE: usize = 4 * 1024 * 1024;

/// A release, as GitHub describes it.
#[derive(Clone, Debug)]
pub struct GithubRelease {
    pub tag_name: String,
    pub html_url: String,
    pub assets: Vec<GithubAsset>,
}

/// A file of a release, as GitHub describes it.
#[derive(Clone, Debug)]
pub struct GithubAsset {
    pub name: String,
    pub browser_download_url: String,
    pub digest: Option<String>,
}

/// What a [`GithubRelease`] says.
pub struct ReleaseView {
    pub tag_name: Seq<char>,
    pub html_url: Seq<char>,
    pub assets: Seq<AssetView>,
}

/// What a [`GithubAsset`] says.
pub struct AssetView {
    pub name: Seq<char>,
    pub browser_download_url: Seq<char>,
    pub digest: Option<Seq<char>>,
}

impl View for GithubAsset {
    type V = AssetView;

    open spec fn view(&self) -> AssetView {
        AssetView {
            name: self.name@,
            browser_download_url: self.browser_download_url@,
            digest: option_text(self.digest),
        }
    }
}

impl View for GithubRelease {
    type V = ReleaseView;

    open spec fn view(&self) -> ReleaseView {
        ReleaseView {
            tag_name: self.tag_name@,
            html_url: self.html_url@,
            assets: self.assets@.map_values(|a: GithubAsset| a@),
        }
    }
}

/// An update that can be downloaded.
#[derive(Debug)]
pub struct UpdateInfo {
    /// The version of the update.
    pub version: String,
    /// The page of the release.
    pub release_url: String,
    /// Where the executable is.
    pub download_url: String,
    /// Where the checksum file is, if there is one.
    pub checksum_url: Option<String>,
    /// The digest that GitHub tells of the executable, if it does.
    pub asset_digest: Option<String>,
}

/// What an [`UpdateInfo`] says.
pub struct InfoView {
    pub version: Seq<char>,
    pub release_url: Seq<char>,
    pub download_url: Seq<char>,
    pub checksum_url: Option<Seq<char>>,
    pub asset_digest: Option<Seq<char>>,
}

impl View for UpdateInfo {
    type V = InfoView;

    open spec fn view(&self) -> InfoView {
        InfoView {
            version: self.version@,
            release_url: self.release_url@,
            download_url: self.download_url@,
            checksum_url: option_text(self.checksum_url),
            asset_digest: option_text(self.asset_digest),
        }
    }
}

fn clone_option(text: &Option<String>) -> (copy: Option<String>)
    ensures
        option_text(copy) == option_text(*text),
{
    match text {
        Some(t) => Some(t.clone()),
        None => None,
    }
}

impl Clone for UpdateInfo {
    fn clone(&self) -> (copy: Self)
        ensures
            copy@ == self@,
    {
        UpdateInfo {
            version: self.version.clone(),
            release_url: self.release_url.clone(),
            download_url: self.download_url.clone(),
            checksum_url: clone_option(&self.checksum_url),
            asset_digest: clone_option(&self.asset_digest),
        }
    }
}

/// The first asset of that name; the case of ASCII letters does not count.
pub open spec fn asset_named(assets: Seq<AssetView>, name: Seq<char>) -> Option<AssetView>
    decreases assets.len(),
{
    if assets.len() == 0 {
        None
    } else if same_ignoring_case(assets[0].name, name) {
        Some(assets[0])
    } else {
        asset_named(assets.drop_first(), name)
    }
}

/// Where the configured checksum asset is, if the release has it.
pub open spec fn checksum_location(config: ConfigView, assets: Seq<AssetView>) -> Option<
    Seq<char>,
> {
    match config.checksum_asset_name {
        Some(name) => match asset_named(assets, name) {
            Some(asset) => Some(asset.browser_download_url),
            None => None,
        },
        None => None,
    }
}

/// The update that a release offers, if it is newer than the running version. Or what is missing
/// in the release.
pub open spec fn offered_update(config: ConfigView, release: ReleaseView) -> Result<
    Option<InfoView>,
    Seq<char>,
> {
    let checksum_url = checksum_location(config, release.assets);
    if !newer(release.tag_name, config.current_version) {
        Ok(None)
    } else {
        match asset_named(release.assets, config.asset_name) {
            None => Err(
                "Release "@ + release.tag_name + " has no "@ + config.asset_name + " asset."@,
            ),
            Some(executable) => if config.require_checksum && github_checksum(
                executable.digest,
            ) is None && checksum_url is None {
                let expected = match config.checksum_asset_name {
                    Some(name) => name,
                    None => "a SHA-256 digest"@,
                };
                Err(
                    "Release "@ + release.tag_name + " has no usable checksum ("@ + expected
                        + ")."@,
                )
            } else {
                Ok(
                    Some(
                        InfoView {
                            version: strip_v(release.tag_name),
                            release_url: release.html_url,
                            download_url: executable.browser_download_url,
                            checksum_url,
                            asset_digest: executable.digest,
                        },
                    ),
                )
            },
        }
    }
}

/// The outcome of a check, given what came of the request for the latest release: a message, or
/// no release at all, or a release.
pub open spec fn check_outcome(
    config: ConfigView,
    response: Result<Option<ReleaseView>, Seq<char>>,
) -> Result<Option<InfoView>, Seq<char>> {
    match config_fault(config) {
        Some(message) => Err(message),
        None => match response {
            Err(message) => Err(message),
            Ok(None) => Ok(None),
            Ok(Some(release)) => offered_update(config, release),
        },
    }
}

/// What a response says.
pub open spec fn response_view(response: Result<Option<GithubRelease>, String>) -> Result<
    Option<ReleaseView>,
    Seq<char>,
> {
    match response {
        Err(message) => Err(message@),
        Ok(None) => Ok(None),
        Ok(Some(release)) => Ok(Some(release@)),
    }
}

/// What the outcome of a check says.
pub open spec fn outcome_view(outcome: Result<Option<UpdateInfo>, String>) -> Result<
    Option<InfoView>,
    Seq<char>,
> {
    match outcome {
        Err(message) => Err(message@),
        Ok(None) => Ok(None),
        Ok(Some(info)) => Ok(Some(info@)),
    }
}

/// The request that tells of the latest release.
pub open spec fn release_request(config: ConfigView) -> RequestView {
    RequestView {
        host: API_HOST@,
        path: "/repos/"@ + config.repository + "/releases/latest"@,
        max_size: METADATA_MAX_SIZE as nat,
    }
}

/// Asks for the latest release, if the settings can work.
pub fn latest_release_request(config: &UpdateConfig) -> (request: Result<HttpRequest, String>)
    ensures
        match request {
            Ok(r) => config_fault(config@) is None && r@ == release_request(config@),
            Err(message) => config_fault(config@) == Some(message@),
        },
{
    match validate_config(config) {
        Ok(()) => {},
        Err(message) => {
            return Err(message);
        },
    }
    let mut path = String::from("/repos/");
    path.append(config.repository.as_str());
    path.append("/releases/latest");
    Ok(HttpRequest { host: String::from(API_HOST), path, max_size: METADATA_MAX_SIZE })
}

fn find_asset<'a>(assets: &'a Vec<GithubAsset>, name: &str) -> (found: Option<&'a GithubAsset>)
    ensures
        asset_named(assets@.map_values(|a: GithubAsset| a@), name@) == match found {
            Some(asset) => Some(asset@),
            None => None,
        },
{
    let ghost views = assets@.map_values(|a: GithubAsset| a@);
    let mut i: usize = 0;
    assert(views.skip(0) =~= views);
    while i < assets.len()
        invariant
            views == assets@.map_values(|a: GithubAsset| a@),
            i <= assets@.len(),
            asset_named(views, name@) == asset_named(views.skip(i as int), name@),
        decreases assets@.len() - i,
    {
        assert(views.skip(i as int)[0] == assets@[i as int]@);
        if eq_ignore_ascii_case(assets[i].name.as_str(), name) {
            return Some(&assets[i]);
        }
        assert(views.skip(i as int).drop_first() =~= views.skip(i + 1));
        i = i + 1;
    }
    None
}

fn find_checksum_url(config: &UpdateConfig, assets: &Vec<GithubAsset>) -> (url: Option<String>)
    ensures
        option_text(url) == checksum_location(config@, assets@.map_values(|a: GithubAsset| a@)),
{
    match &config.checksum_asset_name {
        Some(name) => match find_asset(assets, name.as_str()) {
            Some(asset) => Some(asset.browser_download_url.clone()),
            None => None,
        },
        None => None,
    }
}

fn has_github_checksum(digest: &Option<String>) -> (yes: bool)
    ensures
        yes == (github_checksum(option_text(*digest)) is Some),
{
    match digest {
        Some(text) => parse_github_sha256(Some(text.as_str())).is_some(),
        None => false,
    }
}

/// Finds the update in a release.
pub fn select_update(config: &UpdateConfig, release: &GithubRelease) -> (outcome: Result<
    Option<UpdateInfo>,
    String,
>)
    ensures
        outcome_view(outcome) == offered_update(config@, release@),
{
    if !is_newer(release.tag_name.as_str(), config.current_version.as_str()) {
        return Ok(None);
    }
    let executable = match find_asset(&release.assets, config.asset_name.as_str()) {
        Some(asset) => asset,
        None => {
            let mut message = String::from("Release ");
            message.append(release.tag_name.as_str());
            message.append(" has no ");
            message.append(config.asset_name.as_str());
            message.append(" asset.");
            return Err(message);
        },
    };
    let checksum_url = find_checksum_url(config, &release.assets);
    if config.require_checksum && !has_github_checksum(&executable.digest)
        && checksum_url.is_none() {
        let mut message = String::from("Release ");
        message.append(release.tag_name.as_str());
        message.append(" has no usable checksum (");
        match &config.checksum_asset_name {
            Some(name) => {
                message.append(name.as_str());
            },
            None => {
                message.append("a SHA-256 digest");
            },
        }
        message.append(").");
        return Err(message);
    }
    let tag = chars_of(release.tag_name.as_str());
    Ok(
        Some(
            UpdateInfo {
                version: string_of(without_v(tag.as_slice())),
                release_url: release.html_url.clone(),
                download_url: executable.browser_download_url.clone(),
                checksum_url,
                asset_digest: clone_option(&executable.digest),
            },
        ),
    )
}

/// Decides whether there is an update, from what came of [`latest_release_request`]: a message,
/// or `None` where the repository has no release, or the release.
pub fn check_latest_release(
    config: &UpdateConfig,
    response: Result<Option<GithubRelease>, String>,
) -> (outcome: Result<Option<UpdateInfo>, String>)
    ensures
        outcome_view(outcome) == check_outcome(config@, response_view(response)),
{
    match validate_config(config) {
        Ok(()) => {},
        Err(message) => {
            return Err(message);
        },
    }
    match response {
        Ok(Some(release)) => select_update(config, &release),
        Ok(None) => Ok(None),
        Err(message) => Err(message),
    }
}

/// An update is offered only where it is newer than the running version, and the version that it
/// is offered under is newer too.
pub proof fn law_offered_update_is_newer(config: ConfigView, release: ReleaseView)
    requires
        offered_update(config, release) matches Ok(Some(_)),
    ensures
        newer(release.tag_name, config.current_version),
        newer(offered_update(config, release)->Ok_0->0.version, config.current_version),
{
    law_version_survives_without_v(release.tag_name);
}

/// Where a checksum is required, an offered update has one: a digest from GitHub or a checksum
/// file.
pub proof fn law_required_checksum_is_offered(config: ConfigView, release: ReleaseView)
    requires
        config.require_checksum,
        offered_update(config, release) matches Ok(Some(_)),
    ensures
        ({
            let info = offered_update(config, release)->Ok_0->0;
            github_checksum(info.asset_digest) is Some || info.checksum_url is Some
        }),
{
}

proof fn lemma_asset_named(assets: Seq<AssetView>, name: Seq<char>)
    ensures
        match asset_named(assets, name) {
            Some(asset) => exists|i: int|
                0 <= i < assets.len() && assets[i] == asset && same_ignoring_case(
                    asset.name,
                    name,
                ) && forall|j: int| 0 <= j < i ==> !same_ignoring_case(assets[j].name, name),
            None => forall|j: int|
                0 <= j < assets.len() ==> !same_ignoring_case((#[trigger] assets[j]).name, name),
        },
    decreases assets.len(),
{
    if assets.len() > 0 && !same_ignoring_case(assets[0].name, name) {
        let rest = assets.drop_first();
        lemma_asset_named(rest, name);
        match asset_named(assets, name) {
            Some(asset) => {
                let i = choose|i: int|
                    0 <= i < rest.len() && rest[i] == asset && same_ignoring_case(asset.name, name)
                        && forall|j: int| 0 <= j < i ==> !same_ignoring_case(rest[j].name, name);
                assert(assets[i + 1] == asset);
                assert forall|j: int| 0 <= j < i + 1 implies !same_ignoring_case(
                    assets[j].name,
                    name,
                ) by {
                    if j > 0 {
                        assert(assets[j] == rest[j - 1]);
                    }
                }
            },
            None => {
                assert forall|j: int| 0 <= j < assets.len() implies !same_ignoring_case(
                    (#[trigger] assets[j]).name,
                    name,
                ) by {
                    if j > 0 {
                        assert(assets[j] == rest[j - 1]);
                    }
                }
            },
        }
    }
}

/// An offered update points at the first asset of the release that has the configured name, and
/// carries that asset's digest.
pub proof fn law_offered_update_is_the_named_asset(config: ConfigView, release: ReleaseView)
    requires
        offered_update(config, release) matches Ok(Some(_)),
    ensures
        ({
            let info = offered_update(config, release)->Ok_0->0;
            exists|i: int|
                #![trigger release.assets[i]]
                0 <= i < release.assets.len() && same_ignoring_case(
                    release.assets[i].name,
                    config.asset_name,
                ) && info.download_url == release.assets[i].browser_download_url
                    && info.asset_digest == release.assets[i].digest && forall|j: int|
                    0 <= j < i ==> !same_ignoring_case(
                        (#[trigger] release.assets[j]).name,
                        config.asset_name,
                    )
        }),
{
    lemma_asset_named(release.assets, config.asset_name);
}

/// The asset of a name is the first whose name is the same but for the case of ASCII letters;
/// there is none exactly where no asset has the name.
pub proof fn law_first_asset_of_the_name_is_found(
    assets: Seq<AssetView>,
    name: Seq<char>,
    i: int,
)
    ensures
        0 <= i < assets.len() && same_ignoring_case(assets[i].name, name) && (forall|j: int|
            0 <= j < i ==> !same_ignoring_case((#[trigger] assets[j]).name, name)) ==> asset_named(
            assets,
            name,
        ) == Some(assets[i]),
        asset_named(assets, name) is None <==> (forall|j: int|
            0 <= j < assets.len() ==> !same_ignoring_case((#[trigger] assets[j]).name, name)),
{
    lemma_asset_named(assets, name);
}

/// The checksum file is where the first asset of the configured name is. There is none where none
/// is configured or no asset has the name.
pub proof fn law_checksum_file_is_the_named_asset(
    config: ConfigView,
    assets: Seq<AssetView>,
    i: int,
)
    ensures
        config.checksum_asset_name is None ==> checksum_location(config, assets) is None,
        config.checksum_asset_name matches Some(name) ==> (0 <= i < assets.len()
            && same_ignoring_case(assets[i].name, name) && (forall|j: int|
            0 <= j < i ==> !same_ignoring_case((#[trigger] assets[j]).name, name))
            ==> checksum_location(config, assets) == Some(assets[i].browser_download_url)),
        config.checksum_asset_name matches Some(name) ==> (checksum_location(config, assets) is None
            <==> (forall|j: int|
            0 <= j < assets.len() ==> !same_ignoring_case((#[trigger] assets[j]).name, name))),
{
    match config.checksum_asset_name {
        Some(name) => {
            law_first_asset_of_the_name_is_found(assets, name, i);
        },
        None => {},
    }
}

/// Every newer release is offered where it has the configured asset and, if a checksum is
/// required, a readable digest or the configured checksum asset. The offer tells the version
/// without its `v`, the page of the release, where the asset is, and its digest.
pub proof fn law_newer_release_is_offered(config: ConfigView, release: ReleaseView, i: int)
    requires
        newer(release.tag_name, config.current_version),
        0 <= i < release.assets.len(),
        same_ignoring_case(release.assets[i].name, config.asset_name),
        forall|j: int|
            0 <= j < i ==> !same_ignoring_case(
                (#[trigger] release.assets[j]).name,
                config.asset_name,
            ),
        !config.require_checksum || github_checksum(release.assets[i].digest) is Some || (
        config.checksum_asset_name is Some && exists|k: int|
            0 <= k < release.assets.len() && same_ignoring_case(
                (#[trigger] release.assets[k]).name,
                config.checksum_asset_name->0,
            )),
    ensures
        offered_update(config, release) == Ok::<Option<InfoView>, Seq<char>>(
            Some(
                InfoView {
                    version: strip_v(release.tag_name),
                    release_url: release.html_url,
                    download_url: release.assets[i].browser_download_url,
                    checksum_url: checksum_location(config, release.assets),
                    asset_digest: release.assets[i].digest,
                },
            ),
        ),
{
    law_first_asset_of_the_name_is_found(release.assets, config.asset_name, i);
    law_checksum_file_is_the_named_asset(config, release.assets, 0);
}

/// Some asset of the name is enough for an offer, wherever it stands: if no checksum is required,
/// or every asset of that name has a readable digest, or the checksum asset is there.
pub proof fn law_newer_release_with_the_asset_is_offered(
    config: ConfigView,
    release: ReleaseView,
    i: int,
)
    requires
        newer(release.tag_name, config.current_version),
        0 <= i < release.assets.len(),
        same_ignoring_case(release.assets[i].name, config.asset_name),
        !config.require_checksum || (forall|k: int|
            0 <= k < release.assets.len() && same_ignoring_case(
                (#[trigger] release.assets[k]).name,
                config.asset_name,
            ) ==> github_checksum(release.assets[k].digest) is Some) || (
        config.checksum_asset_name is Some && exists|k: int|
            0 <= k < release.assets.len() && same_ignoring_case(
                (#[trigger] release.assets[k]).name,
                config.checksum_asset_name->0,
            )),
    ensures
        offered_update(config, release) matches Ok(Some(_)),
{
    lemma_asset_named(release.assets, config.asset_name);
    law_checksum_file_is_the_named_asset(config, release.assets, 0);
}

/// A release that is not newer is no update, whatever it lacks.
pub proof fn law_release_that_is_not_newer_is_no_update(config: ConfigView, release: ReleaseView)
    requires
        !newer(release.tag_name, config.current_version),
    ensures
        offered_update(config, release) == Ok::<Option<InfoView>, Seq<char>>(None),
{
}

/// A newer release without the configured asset is refused, and the message names both.
pub proof fn law_release_without_the_asset_is_refused(config: ConfigView, release: ReleaseView)
    requires
        newer(release.tag_name, config.current_version),
        forall|j: int|
            0 <= j < release.assets.len() ==> !same_ignoring_case(
                (#[trigger] release.assets[j]).name,
                config.asset_name,
            ),
    ensures
        offered_update(config, release) == Err::<Option<InfoView>, Seq<char>>(
            "Release "@ + release.tag_name + " has no "@ + config.asset_name + " asset."@,
        ),
{
    lemma_asset_named(release.assets, config.asset_name);
}

/// A newer release without a checksum is refused where one is required, and the message names the
/// configured checksum asset, or a digest where none is configured.
pub proof fn law_release_without_a_checksum_is_refused(
    config: ConfigView,
    release: ReleaseView,
    i: int,
)
    requires
        config.require_checksum,
        newer(release.tag_name, config.current_version),
        0 <= i < release.assets.len(),
        same_ignoring_case(release.assets[i].name, config.asset_name),
        forall|j: int|
            0 <= j < i ==> !same_ignoring_case(
                (#[trigger] release.assets[j]).name,
                config.asset_name,
            ),
        github_checksum(release.assets[i].digest) is None,
        config.checksum_asset_name matches Some(name) ==> forall|k: int|
            0 <= k < release.assets.len() ==> !same_ignoring_case(
                (#[trigger] release.assets[k]).name,
                name,
            ),
    ensures
        config.checksum_asset_name matches Some(name) ==> offered_update(config, release) == Err::<
            Option<InfoView>,
            Seq<char>,
        >("Release "@ + release.tag_name + " has no usable checksum ("@ + name + ")."@),
        config.checksum_asset_name is None ==> offered_update(config, release) == Err::<
            Option<InfoView>,
            Seq<char>,
        >(
            "Release "@ + release.tag_name + " has no usable checksum ("@ + "a SHA-256 digest"@
                + ")."@,
        ),
{
    law_first_asset_of_the_name_is_found(release.assets, config.asset_name, i);
    law_checksum_file_is_the_named_asset(config, release.assets, 0);
}

/// A check on settings that can work passes a failure on, finds nothing where there is no release,
/// and else finds what the release offers. On other settings it tells their fault.
pub proof fn law_check_tells_what_the_release_offers(
    config: ConfigView,
    message: Seq<char>,
    release: ReleaseView,
)
    ensures
        (exists|i: int| 0 <= i < config.repository.len() && config.repository[i] == '/') && !blank(
            config.asset_name,
        ) && !blank(config.current_version) && config.max_download_size > 0 ==> {
            &&& check_outcome(config, Err(message)) == Err::<Option<InfoView>, Seq<char>>(message)
            &&& check_outcome(config, Ok(None)) == Ok::<Option<InfoView>, Seq<char>>(None)
            &&& check_outcome(config, Ok(Some(release))) == offered_update(config, release)
        },
        config_fault(config) matches Some(fault) ==> {
            &&& check_outcome(config, Err(message)) == Err::<Option<InfoView>, Seq<char>>(fault)
            &&& check_outcome(config, Ok(None)) == Err::<Option<InfoView>, Seq<char>>(fault)
            &&& check_outcome(config, Ok(Some(release))) == Err::<Option<InfoView>, Seq<char>>(
                fault,
            )
        },
{
    law_settings_that_can_work(config);
}

/// The latest release is asked of `api.github.com`, under the path of the configured repository,
/// in an answer of at most 4 MiB.
pub proof fn law_latest_release_is_asked_of_github(config: ConfigView)
    ensures
        release_request(config).host == "api.github.com"@,
        release_request(config).path == "/repos/"@ + config.repository + "/releases/latest"@,
        release_request(config).max_size == 4_194_304,
{
}

/// The views of releases, assets and updates have every field as it is.
pub proof fn law_releases_are_seen_as_they_are(
    release: GithubRelease,
    asset: GithubAsset,
    info: UpdateInfo,
    i: int,
)
    ensures
        release@.tag_name == release.tag_name@,
        release@.html_url == release.html_url@,
        release@.assets.len() == release.assets@.len(),
        0 <= i < release.assets@.len() ==> release@.assets[i] == release.assets@[i]@,
        asset@.name == asset.name@,
        asset@.browser_download_url == asset.browser_download_url@,
        asset.digest is None ==> asset@.digest is None,
        asset.digest matches Some(text) ==> asset@.digest == Some(text@),
        info@.version == info.version@,
        info@.release_url == info.release_url@,
        info@.download_url == info.download_url@,
        info.checksum_url is None ==> info@.checksum_url is None,
        info.checksum_url matches Some(text) ==> info@.checksum_url == Some(text@),
        info.asset_digest is None ==> info@.asset_digest is None,
        info.asset_digest matches Some(text) ==> info@.asset_digest == Some(text@),
{
}

/// Responses and outcomes are seen case by case.
pub proof fn law_responses_are_seen_as_they_are(
    message: String,
    release: GithubRelease,
    info: UpdateInfo,
)
    ensures
        response_view(Err(message)) == Err::<Option<ReleaseView>, Seq<char>>(message@),
        response_view(Ok(None)) == Ok::<Option<ReleaseView>, Seq<char>>(None),
        response_view(Ok(Some(release))) == Ok::<Option<ReleaseView>, Seq<char>>(Some(release@)),
        outcome_view(Err(message)) == Err::<Option<InfoView>, Seq<char>>(message@),
        outcome_view(Ok(None)) == Ok::<Option<InfoView>, Seq<char>>(None),
        outcome_view(Ok(Some(info))) == Ok::<Option<InfoView>, Seq<char>>(Some(info@)),
{
}

} // verus!
