//! What to update, and under which conditions.
use crate::text::{
    blank, chars_of, find_char, is_blank, law_whitespace_by_code_point, option_text, string_of,
    whitespace,
};
use vstd::prelude::*;
use vstd::slice::slice_subrange;

verus! {

/// Makes an owned text.
///
/// Trusted: `String::from` on a string slice holds the characters of the slice.
pub assume_specification<'_0>[ <String as From<&str>>::from ](s: &str) -> (r: String)
    ensures
        r@ == s@,
;

/// Takes a value as it is.
///
/// Trusted: `From::from` between a type and itself returns its argument unchanged.
pub assume_specification<T>[ <T as From<T>>::from ](value: T) -> (same: T)
    ensures
        same == value,
;

/// The settings of an updater.
#[derive(Debug)]
pub struct UpdateConfig {
    /// The repository on GitHub, as `owner/name`.
    pub repository: String,
    /// The release asset that holds the executable.
    pub asset_name: String,
    /// The version that is running.
    pub current_version: String,
    /// The application's name, for the names of temporary files.
    pub app_name: String,
    /// The release asset that holds a SHA-256 checksum, if there is one.
    pub checksum_asset_name: Option<String>,
    /// The size that a download must not exceed.
    pub max_download_size: usize,
    /// The size that an executable must have at least.
    pub min_executable_size: usize,
    /// Whether an update without a checksum is refused.
    pub require_checksum: bool,
}

/// What an [`UpdateConfig`] says.
pub struct ConfigView {
    pub repository: Seq<char>,
    pub asset_name: Seq<char>,
    pub current_version: Seq<char>,
    pub app_name: Seq<char>,
    pub checksum_asset_name: Option<Seq<char>>,
    pub max_download_size: nat,
    pub min_executable_size: nat,
    pub require_checksum: bool,
}

impl View for UpdateConfig {
    type V = ConfigView;

    open spec fn view(&self) -> ConfigView {
        ConfigView {
            repository: self.repository@,
            asset_name: self.asset_name@,
            current_version: self.current_version@,
            app_name: self.app_name@,
            checksum_asset_name: option_text(self.checksum_asset_name),
            max_download_size: self.max_download_size as nat,
            min_executable_size: self.min_executable_size as nat,
            require_checksum: self.require_checksum,
        }
    }
}

impl Clone for UpdateConfig {
    fn clone(&self) -> (copy: Self)
        ensures
            copy@ == self@,
    {
        UpdateConfig {
            repository: self.repository.clone(),
            asset_name: self.asset_name.clone(),
            current_version: self.current_version.clone(),
            app_name: self.app_name.clone(),
            checksum_asset_name: match &self.checksum_asset_name {
                Some(name) => Some(name.clone()),
                None => None,
            },
            max_download_size: self.max_download_size,
            min_executable_size: self.min_executable_size,
            require_checksum: self.require_checksum,
        }
    }
}

/// A file name without its ending `.exe`, if it has that ending.
pub open spec fn without_exe(name: Seq<char>) -> Seq<char> {
    if ".exe"@.is_suffix_of(name) {
        name.take(name.len() - ".exe"@.len())
    } else {
        name
    }
}

fn strip_exe(name: &str) -> (stem: String)
    ensures
        stem@ == without_exe(name@),
{
    let chars = chars_of(name);
    let n: usize = chars.len();
    proof {
        reveal_strlit(".exe");
    }
    if n >= 4 && chars[n - 4] == '.' && chars[n - 3] == 'e' && chars[n - 2] == 'x' && chars[n - 1]
        == 'e' {
        assert(".exe"@ =~= name@.subrange(n - 4, n as int));
        assert(name@.take(n - 4) =~= name@.subrange(0, n - 4));
        string_of(slice_subrange(chars.as_slice(), 0, n - 4))
    } else {
        proof {
            if ".exe"@.is_suffix_of(name@) {
                let tail = name@.subrange(n - 4, n as int);
                assert(tail[0] == '.' && tail[1] == 'e' && tail[2] == 'x' && tail[3] == 'e');
            }
        }
        string_of(chars.as_slice())
    }
}

impl UpdateConfig {
    /// Settings for a repository, an executable asset and the running version. The application
    /// takes its name from the asset; downloads are limited to 100 MiB, executables hold at least
    /// 100000 bytes, and no checksum is required.
    pub fn new(
        repository: impl Into<String>,
        asset_name: impl Into<String>,
        current_version: impl Into<String>,
    ) -> (config: Self)
        ensures
            call_ensures(Into::<String>::into, (repository,), config.repository),
            call_ensures(Into::<String>::into, (asset_name,), config.asset_name),
            call_ensures(Into::<String>::into, (current_version,), config.current_version),
            config.app_name@ == without_exe(config.asset_name@),
            config.checksum_asset_name is None,
            config.max_download_size == 100 * 1024 * 1024,
            config.min_executable_size == 100_000,
            !config.require_checksum,
    {
        let asset_name: String = asset_name.into();
        let app_name = strip_exe(asset_name.as_str());
        let config = UpdateConfig {
            repository: repository.into(),
            asset_name,
            current_version: current_version.into(),
            app_name: String::new(),
            checksum_asset_name: None,
            max_download_size: 100 * 1024 * 1024,
            min_executable_size: 100_000,
            require_checksum: false,
        };
        config.with_app_name(app_name)
    }

    /// The same settings with another application name.
    pub fn with_app_name(self, app_name: impl Into<String>) -> (config: Self)
        ensures
            call_ensures(Into::<String>::into, (app_name,), config.app_name),
            config == (UpdateConfig { app_name: config.app_name, ..self }),
    {
        let mut config = self;
        config.app_name = app_name.into();
        config
    }

    /// The same settings with a checksum asset.
    pub fn with_checksum_asset(self, asset_name: impl Into<String>) -> (config: Self)
        ensures
            config.checksum_asset_name matches Some(name) && call_ensures(
                Into::<String>::into,
                (asset_name,),
                name,
            ),
            config == (UpdateConfig { checksum_asset_name: config.checksum_asset_name, ..self }),
    {
        let mut config = self;
        config.checksum_asset_name = Some(asset_name.into());
        config
    }

    /// The same settings with another limit on downloads.
    pub fn with_max_download_size(self, bytes: usize) -> (config: Self)
        ensures
            config == (UpdateConfig { max_download_size: bytes, ..self }),
    {
        let mut config = self;
        config.max_download_size = bytes;
        config
    }

    /// The same settings with another least size of executables.
    pub fn with_min_executable_size(self, bytes: usize) -> (config: Self)
        ensures
            config == (UpdateConfig { min_executable_size: bytes, ..self }),
    {
        let mut config = self;
        config.min_executable_size = bytes;
        config
    }

    /// The same settings, with a checksum required or not.
    pub fn with_required_checksum(self, required: bool) -> (config: Self)
        ensures
            config == (UpdateConfig { require_checksum: required, ..self }),
    {
        let mut config = self;
        config.require_checksum = required;
        config
    }
}

/// What is wrong with the settings, the first thing first.
pub open spec fn config_fault(config: ConfigView) -> Option<Seq<char>> {
    if blank(config.repository) || !config.repository.contains('/') {
        Some("GitHub repository must be in owner/name format."@)
    } else if blank(config.asset_name) {
        Some("Update asset name cannot be empty."@)
    } else if blank(config.current_version) {
        Some("Current application version cannot be empty."@)
    } else if config.max_download_size == 0 {
        Some("Maximum download size must be greater than zero."@)
    } else {
        None
    }
}

/// Refuses settings that cannot work.
pub fn validate_config(config: &UpdateConfig) -> (checked: Result<(), String>)
    ensures
        match checked {
            Ok(()) => config_fault(config@) is None,
            Err(message) => config_fault(config@) == Some(message@),
        },
{
    let repository = chars_of(config.repository.as_str());
    if is_blank(config.repository.as_str()) || find_char(repository.as_slice(), '/').is_none() {
        return Err(String::from("GitHub repository must be in owner/name format."));
    }
    if is_blank(config.asset_name.as_str()) {
        return Err(String::from("Update asset name cannot be empty."));
    }
    if is_blank(config.current_version.as_str()) {
        return Err(String::from("Current application version cannot be empty."));
    }
    if config.max_download_size == 0 {
        return Err(String::from("Maximum download size must be greater than zero."));
    }
    Ok(())
}

/// A name that ends in `.exe` loses just that ending; any other name stays.
pub proof fn law_ending_exe_is_taken_off(stem: Seq<char>, name: Seq<char>)
    requires
        name.len() >= 4 ==> !(name[name.len() - 4] == '.' && name[name.len() - 3] == 'e'
            && name[name.len() - 2] == 'x' && name[name.len() - 1] == 'e'),
    ensures
        without_exe(stem + seq!['.', 'e', 'x', 'e']) == stem,
        without_exe(name) == name,
{
    reveal_strlit(".exe");
    let whole = stem + seq!['.', 'e', 'x', 'e'];
    assert(".exe"@ =~= whole.subrange(stem.len() as int, whole.len() as int));
    assert(whole.take(stem.len() as int) =~= stem);
    if ".exe"@.is_suffix_of(name) {
        let tail = name.subrange(name.len() - 4, name.len() as int);
        assert(tail[0] == '.' && tail[1] == 'e' && tail[2] == 'x' && tail[3] == 'e');
    }
}

/// Settings can work exactly where the repository has a slash, none of the three texts is blank,
/// and something may be downloaded. The sizes of executables, the application's name and the
/// checksum settings do not matter.
pub proof fn law_settings_that_can_work(config: ConfigView)
    ensures
        config_fault(config) is None <==> (exists|i: int|
            0 <= i < config.repository.len() && config.repository[i] == '/') && !blank(
            config.asset_name,
        ) && !blank(config.current_version) && config.max_download_size > 0,
{
    if exists|i: int| 0 <= i < config.repository.len() && config.repository[i] == '/' {
        let i = choose|i: int| 0 <= i < config.repository.len() && config.repository[i] == '/';
        law_whitespace_by_code_point(config.repository[i]);
        assert(config.repository.contains('/'));
        assert(!whitespace(config.repository[i]));
    }
}

/// Of several faults the first is told: the repository's, the asset's, the version's, the limit's.
pub proof fn law_first_fault_is_told(config: ConfigView)
    ensures
        (forall|i: int| 0 <= i < config.repository.len() ==> config.repository[i] != '/')
            ==> config_fault(config) == Some("GitHub repository must be in owner/name format."@),
        (exists|i: int| 0 <= i < config.repository.len() && config.repository[i] == '/') && blank(
            config.asset_name,
        ) ==> config_fault(config) == Some("Update asset name cannot be empty."@),
        (exists|i: int| 0 <= i < config.repository.len() && config.repository[i] == '/') && !blank(
            config.asset_name,
        ) && blank(config.current_version) ==> config_fault(config) == Some(
            "Current application version cannot be empty."@,
        ),
        (exists|i: int| 0 <= i < config.repository.len() && config.repository[i] == '/') && !blank(
            config.asset_name,
        ) && !blank(config.current_version) && config.max_download_size == 0 ==> config_fault(
            config,
        ) == Some("Maximum download size must be greater than zero."@),
{
    if exists|i: int| 0 <= i < config.repository.len() && config.repository[i] == '/' {
        let i = choose|i: int| 0 <= i < config.repository.len() && config.repository[i] == '/';
        law_whitespace_by_code_point(config.repository[i]);
        assert(config.repository.contains('/'));
        assert(!whitespace(config.repository[i]));
    }
}

/// The view of settings has every field as it is.
pub proof fn law_settings_are_seen_as_they_are(config: UpdateConfig)
    ensures
        config@.repository == config.repository@,
        config@.asset_name == config.asset_name@,
        config@.current_version == config.current_version@,
        config@.app_name == config.app_name@,
        config.checksum_asset_name is None ==> config@.checksum_asset_name is None,
        config.checksum_asset_name matches Some(name) ==> config@.checksum_asset_name == Some(
            name@,
        ),
        config@.max_download_size == config.max_download_size,
        config@.min_executable_size == config.min_executable_size,
        config@.require_checksum == config.require_checksum,
{
}

} // verus!
