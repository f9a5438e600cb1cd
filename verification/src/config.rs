//! Site configuration: recognized options with their defaults. A
//! project-local configuration file and command-line flags may override
//! any of them; the overriding itself happens outside the library.

use vstd::prelude::*;

verus! {

/// Configuration values for a site.
#[derive(Debug, Clone, PartialEq, Eq)]
pub struct Config {
    /// Site base URL; the trailing slash is significant.
    pub url: String,
    /// Content root directory.
    pub root: String,
    /// Publish target directory.
    pub output_path: String,
    /// Directory for log files.
    pub log_path: String,
    /// Development mode: drafts become visible.
    pub development: bool,
    /// Filename suffixes of pages that are always rebuilt.
    pub special_pages: Vec<String>,
    /// Syntax-highlighting theme name.
    pub theme: String,
}

impl Default for Config {
    /// The default configuration.
    fn default() -> (c: Config)
        ensures
            c.url@ == "http://0.0.0.0:8000/"@,
            c.root@ == "blog/"@,
            c.output_path@ == "public/"@,
            c.log_path@ == "log/"@,
            !c.development,
            c.special_pages.deep_view() == seq![
                "index.md"@,
                "search.md"@,
                "about.md"@,
                "500.md"@,
                "404.md"@,
            ],
            c.theme@ == "Solarized (light)"@,
    {
        let mut special_pages: Vec<String> = Vec::new();
        special_pages.push(String::from_str("index.md"));
        special_pages.push(String::from_str("search.md"));
        special_pages.push(String::from_str("about.md"));
        special_pages.push(String::from_str("500.md"));
        special_pages.push(String::from_str("404.md"));
        proof {
            assert(special_pages.deep_view() =~= seq![
                "index.md"@,
                "search.md"@,
                "about.md"@,
                "500.md"@,
                "404.md"@,
            ]);
        }
        Config {
            url: String::from_str("http://0.0.0.0:8000/"),
            root: String::from_str("blog/"),
            output_path: String::from_str("public/"),
            log_path: String::from_str("log/"),
            development: false,
            special_pages,
            theme: String::from_str("Solarized (light)"),
        }
    }
}

} // verus!
