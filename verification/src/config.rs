//! The application's settings: where the 3DMigoto importer lives, which
//! release of it is managed, the interface language and the download limit.

use vstd::prelude::*;

use crate::paths::{join, path_join};
use crate::text::push_str;

verus! {

/// All settings, grouped as they are stored.
#[derive(Clone, Debug)]
pub struct AppSettings {
    pub core: CoreSettings,
    pub ui: UiSettings,
    pub network: NetworkSettings,
}

#[derive(Clone, Debug)]
pub struct CoreSettings {
    pub gimi_runtime: GimiRuntimeSettings,
}

/// The managed GIMI importer: its directory, the release it should run and
/// the repository it comes from.
#[derive(Clone, Debug)]
pub struct GimiRuntimeSettings {
    pub importer_directory: String,
    pub managed_version: String,
    pub github_repo_owner: String,
    pub github_repo_name: String,
}

#[derive(Clone, Debug)]
pub struct UiSettings {
    pub language: String,
    pub night_mode: bool,
}

#[derive(Clone, Debug)]
pub struct NetworkSettings {
    pub concurrent_downloads: u32,
    pub cdn_base_url: Option<String>,
}

/// The interface languages offered.
pub fn ui_language_options() -> (r: Vec<&'static str>)
    ensures
        r@.len() == 3,
        r@[0]@ == "zh-CN"@,
        r@[1]@ == "en-US"@,
        r@[2]@ == "ja-JP"@,
{
    let mut r: Vec<&'static str> = Vec::new();
    r.push("zh-CN");
    r.push("en-US");
    r.push("ja-JP");
    r
}

impl Default for UiSettings {
    fn default() -> (r: Self)
        ensures
            r.language@ == "zh-CN"@,
            !r.night_mode,
    {
        UiSettings { language: "zh-CN".to_owned(), night_mode: false }
    }
}

impl Default for NetworkSettings {
    fn default() -> (r: Self)
        ensures
            r.concurrent_downloads == 3,
            r.cdn_base_url is None,
    {
        NetworkSettings { concurrent_downloads: 3, cdn_base_url: None }
    }
}

impl GimiRuntimeSettings {
    /// The default runtime: under `gimi` in the application's directory,
    /// managing release v8.7.8 of SilentNightSound/GIMI-Package.
    pub fn defaults_in(runtime_dir: &str) -> (r: Self)
        ensures
            r.importer_directory@ == path_join(runtime_dir@, "gimi"@),
            r.managed_version@ == "v8.7.8"@,
            r.github_repo_owner@ == "SilentNightSound"@,
            r.github_repo_name@ == "GIMI-Package"@,
    {
        GimiRuntimeSettings {
            importer_directory: join(runtime_dir, "gimi"),
            managed_version: "v8.7.8".to_owned(),
            github_repo_owner: "SilentNightSound".to_owned(),
            github_repo_name: "GIMI-Package".to_owned(),
        }
    }

    /// Where the importer keeps mods.
    pub fn mods_directory(&self) -> (r: String)
        ensures
            r@ == path_join(self.importer_directory@, "Mods"@),
    {
        join(self.importer_directory.as_str(), "Mods")
    }

    /// The file recording the installed release.
    pub fn version_marker_path(&self) -> (r: String)
        ensures
            r@ == path_join(self.importer_directory@, ".anime-mod-manager-version"@),
    {
        join(self.importer_directory.as_str(), ".anime-mod-manager-version")
    }

    /// The repository's releases page.
    pub fn releases_url(&self) -> (r: String)
        ensures
            r@ == "https://github.com/"@ + self.github_repo_owner@ + "/"@ + self.github_repo_name@
                + "/releases"@,
    {
        let mut r = "https://github.com/".to_owned();
        push_str(&mut r, self.github_repo_owner.as_str());
        push_str(&mut r, "/");
        push_str(&mut r, self.github_repo_name.as_str());
        push_str(&mut r, "/releases");
        r
    }

    /// The zip archive of the repository at `tag`.
    pub fn tag_archive_url(&self, tag: &str) -> (r: String)
        ensures
            r@ == "https://github.com/"@ + self.github_repo_owner@ + "/"@ + self.github_repo_name@
                + "/archive/refs/tags/"@ + tag@ + ".zip"@,
    {
        let mut r = "https://github.com/".to_owned();
        push_str(&mut r, self.github_repo_owner.as_str());
        push_str(&mut r, "/");
        push_str(&mut r, self.github_repo_name.as_str());
        push_str(&mut r, "/archive/refs/tags/");
        push_str(&mut r, tag);
        push_str(&mut r, ".zip");
        r
    }
}

impl NetworkSettings {
    /// The download limit, at least one.
    pub fn concurrent_downloads_usize(&self) -> (r: usize)
        ensures
            r == (if self.concurrent_downloads < 1 {
                1
            } else {
                self.concurrent_downloads
            }),
    {
        let n = if self.concurrent_downloads < 1 {
            1
        } else {
            self.concurrent_downloads
        };
        n as usize
    }
}

impl AppSettings {
    /// The default settings for an application running from `runtime_dir`.
    pub fn defaults_in(runtime_dir: &str) -> (r: Self)
        ensures
            r.core.gimi_runtime.importer_directory@ == path_join(runtime_dir@, "gimi"@),
            r.core.gimi_runtime.managed_version@ == "v8.7.8"@,
            r.core.gimi_runtime.github_repo_owner@ == "SilentNightSound"@,
            r.core.gimi_runtime.github_repo_name@ == "GIMI-Package"@,
            r.ui.language@ == "zh-CN"@,
            !r.ui.night_mode,
            r.network.concurrent_downloads == 3,
            r.network.cdn_base_url is None,
    {
        AppSettings {
            core: CoreSettings { gimi_runtime: GimiRuntimeSettings::defaults_in(runtime_dir) },
            ui: UiSettings::default(),
            network: NetworkSettings::default(),
        }
    }

    /// Where the settings are stored for an application running from
    /// `runtime_dir`.
    pub fn config_path(runtime_dir: &str) -> (r: String)
        ensures
            r@ == path_join(runtime_dir@, "config.json"@),
    {
        join(runtime_dir, "config.json")
    }

    /// Settings as loaded: a download limit below one is raised to one.
    pub fn normalized(self) -> (r: Self)
        ensures
            r.network.concurrent_downloads == (if self.network.concurrent_downloads < 1 {
                1
            } else {
                self.network.concurrent_downloads
            }),
            r.network.cdn_base_url == self.network.cdn_base_url,
            r.core == self.core,
            r.ui == self.ui,
    {
        let mut s = self;
        if s.network.concurrent_downloads < 1 {
            s.network.concurrent_downloads = 1;
        }
        s
    }
}

} // verus!
