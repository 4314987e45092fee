//! Per-user configuration: the configuration and model directories derived
//! from the home directory, model path resolution, and the catalog of
//! models the engine can use. Reading and writing the settings file, and
//! checking which model files exist on disk, happen outside this library;
//! callers pass the observed facts in as plain values.

use crate::types::WhisperModel;
use vstd::prelude::*;
use vstd::string::*;

verus! {

/// Base of the download URL of every catalog model.
pub open spec fn model_url_prefix() -> Seq<char> {
    "https://huggingface.co/ggerganov/whisper.cpp/resolve/main/ggml-"@
}

/// Name of the catalog model at position `i`.
pub open spec fn catalog_name(i: int) -> Seq<char> {
    if i == 0 {
        "tiny"@
    } else if i == 1 {
        "base"@
    } else if i == 2 {
        "small"@
    } else if i == 3 {
        "medium"@
    } else if i == 4 {
        "large-v1"@
    } else if i == 5 {
        "large-v2"@
    } else if i == 6 {
        "large-v3"@
    } else {
        "large-v3-turbo"@
    }
}

/// Human-readable download size of the catalog model at position `i`.
pub open spec fn catalog_size(i: int) -> Seq<char> {
    if i == 0 {
        "39 MB"@
    } else if i == 1 {
        "142 MB"@
    } else if i == 2 {
        "466 MB"@
    } else if i == 3 {
        "1.5 GB"@
    } else if i == 4 {
        "2.9 GB"@
    } else if i == 5 {
        "2.9 GB"@
    } else if i == 6 {
        "2.9 GB"@
    } else {
        "1.6 GB"@
    }
}

pub struct ConfigManager {
    pub config_dir: String,
    pub models_dir: String,
    pub settings_file: String,
}

impl ConfigManager {
    /// Derives the configuration layout from the home directory. Creating
    /// the directories on disk is the caller's side effect, not this
    /// function's.
    pub fn new(home_dir: &str) -> (r: Self)
        ensures
            r.config_dir@ == home_dir@ + "/.whisper-tauri"@,
            r.models_dir@ == home_dir@ + "/.whisper-tauri"@ + "/models"@,
            r.settings_file@ == home_dir@ + "/.whisper-tauri"@ + "/settings.json"@,
    {
        let mut config_dir = String::from_str(home_dir);
        config_dir.append("/.whisper-tauri");
        let mut models_dir = config_dir.clone();
        models_dir.append("/models");
        let mut settings_file = config_dir.clone();
        settings_file.append("/settings.json");
        ConfigManager { config_dir, models_dir, settings_file }
    }

    pub fn get_models_dir(&self) -> (r: &String)
        ensures
            r@ == self.models_dir@,
    {
        &self.models_dir
    }

    pub fn get_config_dir(&self) -> (r: &String)
        ensures
            r@ == self.config_dir@,
    {
        &self.config_dir
    }

    /// Where the model file of `name` lives under the models directory.
    pub open spec fn model_path_spec(self, name: Seq<char>) -> Seq<char> {
        self.models_dir@ + "/ggml-"@ + name + ".bin"@
    }

    pub fn get_model_path(&self, model_name: &str) -> (r: String)
        ensures
            r@ == self.model_path_spec(model_name@),
    {
        let mut p = self.models_dir.clone();
        p.append("/ggml-");
        p.append(model_name);
        p.append(".bin");
        p
    }

    /// One catalog entry; `downloaded` is whether the caller found the
    /// model file on disk.
    fn catalog_entry(&self, name: &str, size: &str, downloaded: bool) -> (r: WhisperModel)
        ensures
            r.name@ == name@,
            r.size@ == size@,
            r.url@ == model_url_prefix() + name@ + ".bin"@,
            r.downloaded == downloaded,
            r.file_path matches Some(p) <==> downloaded,
            downloaded ==> (r.file_path matches Some(p) && p@ == self.model_path_spec(name@)),
    {
        let mut url = String::from_str(
            "https://huggingface.co/ggerganov/whisper.cpp/resolve/main/ggml-",
        );
        url.append(name);
        url.append(".bin");
        let file_path = if downloaded {
            Some(self.get_model_path(name))
        } else {
            None
        };
        WhisperModel {
            name: String::from_str(name),
            size: String::from_str(size),
            url,
            downloaded,
            file_path,
        }
    }

    /// The fixed catalog of models, each marked with whether its file was
    /// found on disk: `downloaded[i]` is the caller's observation for the
    /// catalog entry at position `i` (missing positions count as absent).
    pub fn get_available_models(&self, downloaded: &Vec<bool>) -> (r: Vec<WhisperModel>)
        ensures
            r@.len() == 8,
            forall|i: int|
                0 <= i < 8 ==> {
                    &&& (#[trigger] r@[i]).name@ == catalog_name(i)
                    &&& r@[i].size@ == catalog_size(i)
                    &&& r@[i].url@ == model_url_prefix() + catalog_name(i) + ".bin"@
                    &&& r@[i].downloaded == (i < downloaded@.len() && downloaded@[i])
                    &&& (r@[i].downloaded ==> (r@[i].file_path matches Some(p) && p@
                        == self.model_path_spec(catalog_name(i))))
                    &&& (!r@[i].downloaded ==> r@[i].file_path is None)
                },
    {
        let mut out: Vec<WhisperModel> = Vec::new();
        out.push(self.catalog_entry("tiny", "39 MB", flag_at(downloaded, 0)));
        out.push(self.catalog_entry("base", "142 MB", flag_at(downloaded, 1)));
        out.push(self.catalog_entry("small", "466 MB", flag_at(downloaded, 2)));
        out.push(self.catalog_entry("medium", "1.5 GB", flag_at(downloaded, 3)));
        out.push(self.catalog_entry("large-v1", "2.9 GB", flag_at(downloaded, 4)));
        out.push(self.catalog_entry("large-v2", "2.9 GB", flag_at(downloaded, 5)));
        out.push(self.catalog_entry("large-v3", "2.9 GB", flag_at(downloaded, 6)));
        out.push(self.catalog_entry("large-v3-turbo", "1.6 GB", flag_at(downloaded, 7)));
        out
    }
}

/// The flag at position `i`, with anything past the end reading as false.
fn flag_at(flags: &Vec<bool>, i: usize) -> (b: bool)
    ensures
        b == (i < flags@.len() && flags@[i as int]),
{
    if i < flags.len() {
        flags[i]
    } else {
        false
    }
}

} // verus!
