//! Configuration shared by the upload pipeline and the imagehost.

use vstd::prelude::*;

verus! {

/// Server configuration, immutable for the process lifetime once loaded.
/// Loading it from the environment or a file is the caller's business; the
/// library only reads it.
#[derive(Debug, Clone)]
pub struct Config {
    /// The target location for images to be stored (if enabled)
    pub target_dir: Option<String>,
    /// Enable imagehost functionality
    pub enable_imagehost: bool,
    /// Enable using regex to attempt to guess the name of the program
    /// that was screenshotted, and store images in a corresponding subdirectory
    pub enable_subdirectories: bool,
    /// Override the regex used to extract the program name
    pub subdirectory_regex: String,
    /// The IP and port(s) (in `<IP>:[<PORT>]` format) that should be listened on
    pub bind: Vec<String>,
    /// Maximum allowable size for uploaded images in bytes
    pub max_image_size: u64,
}

impl Config {
    /// Reconcile options that depend on one another: the imagehost can only
    /// be enabled when a target directory is configured.  All other fields
    /// are left untouched.
    pub fn check_options(&mut self)
        ensures
            final(self).enable_imagehost == (old(self).enable_imagehost
                && old(self).target_dir is Some),
            final(self).target_dir == old(self).target_dir,
            final(self).enable_subdirectories == old(self).enable_subdirectories,
            final(self).subdirectory_regex == old(self).subdirectory_regex,
            final(self).bind == old(self).bind,
            final(self).max_image_size == old(self).max_image_size,
    {
        if self.enable_imagehost && self.target_dir.is_none() {
            self.enable_imagehost = false;
        }
    }

    /// The built-in default for every option, used when the environment and
    /// the configuration file leave one unset.
    pub fn defaults() -> (c: Config)
        ensures
            c.target_dir is None,
            !c.enable_imagehost,
            !c.enable_subdirectories,
            c.subdirectory_regex@ == "(?P<subdir>.*)_[\\d\\w]{10}.[\\w]+"@,
            c.bind@.len() == 1,
            c.bind@[0]@ == "localhost:1256"@,
            c.max_image_size == 100_000_000u64,
    {
        let mut bind: Vec<String> = Vec::new();
        bind.push("localhost:1256".to_owned());
        Config {
            target_dir: None,
            enable_imagehost: false,
            enable_subdirectories: false,
            subdirectory_regex: "(?P<subdir>.*)_[\\d\\w]{10}.[\\w]+".to_owned(),
            bind,
            max_image_size: 100_000_000,
        }
    }
}

} // verus!
