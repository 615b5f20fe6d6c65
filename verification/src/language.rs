//! Language classification: a closed set of known file types recognized by
//! extension, an `Unknown` escape hatch carrying the unrecognized extension,
//! and a generic `Text` fallback for paths without an extension. Each
//! classification has a display name and an associated RGB color.

use vstd::prelude::*;

use crate::text::str_eq;

verus! {

/// The language/file-type tag assigned to a file from its extension.
#[derive(Debug)]
pub enum Language {
    Astro,
    Bash,
    C,
    CPP,
    CSharp,
    CSS,
    CSV,
    Go,
    HTML,
    Java,
    JavaScript,
    JSON,
    Kotlin,
    Lua,
    Makefile,
    Markdown,
    Perl,
    PHP,
    PowerShell,
    Python,
    React,
    Ruby,
    Rust,
    Svelte,
    SVG,
    Swift,
    Text,
    TOML,
    TSV,
    TypeScript,
    XML,
    YAML,
    Unknown(String),
}

/// The mathematical model of a [`Language`]: the same tags, with the unknown
/// extension held as a character sequence.
pub enum LangTag {
    Astro,
    Bash,
    C,
    CPP,
    CSharp,
    CSS,
    CSV,
    Go,
    HTML,
    Java,
    JavaScript,
    JSON,
    Kotlin,
    Lua,
    Makefile,
    Markdown,
    Perl,
    PHP,
    PowerShell,
    Python,
    React,
    Ruby,
    Rust,
    Svelte,
    SVG,
    Swift,
    Text,
    TOML,
    TSV,
    TypeScript,
    XML,
    YAML,
    Unknown(Seq<char>),
}

impl View for Language {
    type V = LangTag;

    open spec fn view(&self) -> LangTag {
        match self {
            Language::Astro => LangTag::Astro,
            Language::Bash => LangTag::Bash,
            Language::C => LangTag::C,
            Language::CPP => LangTag::CPP,
            Language::CSharp => LangTag::CSharp,
            Language::CSS => LangTag::CSS,
            Language::CSV => LangTag::CSV,
            Language::Go => LangTag::Go,
            Language::HTML => LangTag::HTML,
            Language::Java => LangTag::Java,
            Language::JavaScript => LangTag::JavaScript,
            Language::JSON => LangTag::JSON,
            Language::Kotlin => LangTag::Kotlin,
            Language::Lua => LangTag::Lua,
            Language::Makefile => LangTag::Makefile,
            Language::Markdown => LangTag::Markdown,
            Language::Perl => LangTag::Perl,
            Language::PHP => LangTag::PHP,
            Language::PowerShell => LangTag::PowerShell,
            Language::Python => LangTag::Python,
            Language::React => LangTag::React,
            Language::Ruby => LangTag::Ruby,
            Language::Rust => LangTag::Rust,
            Language::Svelte => LangTag::Svelte,
            Language::SVG => LangTag::SVG,
            Language::Swift => LangTag::Swift,
            Language::Text => LangTag::Text,
            Language::TOML => LangTag::TOML,
            Language::TSV => LangTag::TSV,
            Language::TypeScript => LangTag::TypeScript,
            Language::XML => LangTag::XML,
            Language::YAML => LangTag::YAML,
            Language::Unknown(ext) => LangTag::Unknown(ext@),
        }
    }
}

impl PartialEq for Language {
    fn eq(&self, other: &Language) -> (r: bool) {
        match (self, other) {
            (Language::Astro, Language::Astro) => true,
            (Language::Bash, Language::Bash) => true,
            (Language::C, Language::C) => true,
            (Language::CPP, Language::CPP) => true,
            (Language::CSharp, Language::CSharp) => true,
            (Language::CSS, Language::CSS) => true,
            (Language::CSV, Language::CSV) => true,
            (Language::Go, Language::Go) => true,
            (Language::HTML, Language::HTML) => true,
            (Language::Java, Language::Java) => true,
            (Language::JavaScript, Language::JavaScript) => true,
            (Language::JSON, Language::JSON) => true,
            (Language::Kotlin, Language::Kotlin) => true,
            (Language::Lua, Language::Lua) => true,
            (Language::Makefile, Language::Makefile) => true,
            (Language::Markdown, Language::Markdown) => true,
            (Language::Perl, Language::Perl) => true,
            (Language::PHP, Language::PHP) => true,
            (Language::PowerShell, Language::PowerShell) => true,
            (Language::Python, Language::Python) => true,
            (Language::React, Language::React) => true,
            (Language::Ruby, Language::Ruby) => true,
            (Language::Rust, Language::Rust) => true,
            (Language::Svelte, Language::Svelte) => true,
            (Language::SVG, Language::SVG) => true,
            (Language::Swift, Language::Swift) => true,
            (Language::Text, Language::Text) => true,
            (Language::TOML, Language::TOML) => true,
            (Language::TSV, Language::TSV) => true,
            (Language::TypeScript, Language::TypeScript) => true,
            (Language::XML, Language::XML) => true,
            (Language::YAML, Language::YAML) => true,
            (Language::Unknown(a), Language::Unknown(b)) => a.eq(b),
            _ => false,
        }
    }
}

impl vstd::std_specs::cmp::PartialEqSpecImpl for Language {
    open spec fn obeys_eq_spec() -> bool {
        true
    }

    open spec fn eq_spec(&self, other: &Language) -> bool {
        self@ == other@
    }
}

/// Extension characters lowercased by `str::to_lowercase`, named so contracts
/// can speak about the folded form without restating Unicode case folding.
pub uninterp spec fn lower_of(s: Seq<char>) -> Seq<char>;

/// Relies on str::to_lowercase: the result is a function of the characters
/// alone.
#[verifier::external_body]
pub(crate) fn lowercase(s: &str) -> (r: String)
    ensures
        r@ == lower_of(s@),
{
    s.to_lowercase()
}

/// The classification an already-lowercased extension maps to.
pub open spec fn tag_of_ext(ext: Seq<char>) -> LangTag {
    if ext == "astro"@ {
        LangTag::Astro
    } else if ext == "sh"@ {
        LangTag::Bash
    } else if ext == "c"@ {
        LangTag::C
    } else if ext == "cpp"@ {
        LangTag::CPP
    } else if ext == "cs"@ {
        LangTag::CSharp
    } else if ext == "css"@ {
        LangTag::CSS
    } else if ext == "csv"@ {
        LangTag::CSV
    } else if ext == "go"@ {
        LangTag::Go
    } else if ext == "html"@ || ext == "htm"@ {
        LangTag::HTML
    } else if ext == "java"@ {
        LangTag::Java
    } else if ext == "js"@ || ext == "mjs"@ || ext == "cjs"@ {
        LangTag::JavaScript
    } else if ext == "json"@ || ext == "jsonc"@ {
        LangTag::JSON
    } else if ext == "kt"@ || ext == "kts"@ {
        LangTag::Kotlin
    } else if ext == "lua"@ {
        LangTag::Lua
    } else if ext == "mk"@ || ext == "makefile"@ {
        LangTag::Makefile
    } else if ext == "md"@ || ext == "markdown"@ {
        LangTag::Markdown
    } else if ext == "pl"@ || ext == "pm"@ {
        LangTag::Perl
    } else if ext == "php"@ {
        LangTag::PHP
    } else if ext == "ps1"@ || ext == "psm1"@ || ext == "psd1"@ {
        LangTag::PowerShell
    } else if ext == "py"@ {
        LangTag::Python
    } else if ext == "jsx"@ || ext == "tsx"@ {
        LangTag::React
    } else if ext == "rb"@ {
        LangTag::Ruby
    } else if ext == "rs"@ {
        LangTag::Rust
    } else if ext == "svelte"@ {
        LangTag::Svelte
    } else if ext == "svg"@ {
        LangTag::SVG
    } else if ext == "swift"@ {
        LangTag::Swift
    } else if ext == "txt"@ || ext == "text"@ {
        LangTag::Text
    } else if ext == "toml"@ {
        LangTag::TOML
    } else if ext == "tsv"@ {
        LangTag::TSV
    } else if ext == "ts"@ {
        LangTag::TypeScript
    } else if ext == "xml"@ {
        LangTag::XML
    } else if ext == "yaml"@ || ext == "yml"@ {
        LangTag::YAML
    } else {
        LangTag::Unknown(ext)
    }
}

/// Index of the last `/` in `s`, or -1 when there is none.
pub open spec fn last_slash(s: Seq<char>) -> int
    decreases s.len(),
{
    if s.len() == 0 {
        -1
    } else if s.last() == '/' {
        s.len() - 1
    } else {
        last_slash(s.drop_last())
    }
}

/// Index of the last `.` in `s`, or -1 when there is none.
pub open spec fn last_dot(s: Seq<char>) -> int
    decreases s.len(),
{
    if s.len() == 0 {
        -1
    } else if s.last() == '.' {
        s.len() - 1
    } else {
        last_dot(s.drop_last())
    }
}

/// The extension of a path: the portion of the final path component after its
/// last `.`, unless that `.` starts the component (a hidden file) or the
/// component has no `.` at all.
pub open spec fn ext_of_path(p: Seq<char>) -> Option<Seq<char>> {
    let ld = last_dot(p);
    if ld >= 0 && ld > last_slash(p) + 1 {
        Some(p.subrange(ld + 1, p.len() as int))
    } else {
        None
    }
}

/// The classification of a whole path: its extension looked up after case
/// folding, or the generic text tag when it has none.
pub open spec fn tag_of_path(p: Seq<char>) -> LangTag {
    match ext_of_path(p) {
        Option::None => LangTag::Text,
        Option::Some(e) => tag_of_ext(lower_of(e)),
    }
}

impl Language {
    /// Parse a [`Language`] from a file-extension.
    pub fn from_extension(ext: &str) -> (l: Language)
        ensures
            l@ == tag_of_ext(lower_of(ext@)),
    {
        let low = lowercase(ext);
        let s = low.as_str();
        if str_eq(s, "astro") {
            Language::Astro
        } else if str_eq(s, "sh") {
            Language::Bash
        } else if str_eq(s, "c") {
            Language::C
        } else if str_eq(s, "cpp") {
            Language::CPP
        } else if str_eq(s, "cs") {
            Language::CSharp
        } else if str_eq(s, "css") {
            Language::CSS
        } else if str_eq(s, "csv") {
            Language::CSV
        } else if str_eq(s, "go") {
            Language::Go
        } else if str_eq(s, "html") || str_eq(s, "htm") {
            Language::HTML
        } else if str_eq(s, "java") {
            Language::Java
        } else if str_eq(s, "js") || str_eq(s, "mjs") || str_eq(s, "cjs") {
            Language::JavaScript
        } else if str_eq(s, "json") || str_eq(s, "jsonc") {
            Language::JSON
        } else if str_eq(s, "kt") || str_eq(s, "kts") {
            Language::Kotlin
        } else if str_eq(s, "lua") {
            Language::Lua
        } else if str_eq(s, "mk") || str_eq(s, "makefile") {
            Language::Makefile
        } else if str_eq(s, "md") || str_eq(s, "markdown") {
            Language::Markdown
        } else if str_eq(s, "pl") || str_eq(s, "pm") {
            Language::Perl
        } else if str_eq(s, "php") {
            Language::PHP
        } else if str_eq(s, "ps1") || str_eq(s, "psm1") || str_eq(s, "psd1") {
            Language::PowerShell
        } else if str_eq(s, "py") {
            Language::Python
        } else if str_eq(s, "jsx") || str_eq(s, "tsx") {
            Language::React
        } else if str_eq(s, "rb") {
            Language::Ruby
        } else if str_eq(s, "rs") {
            Language::Rust
        } else if str_eq(s, "svelte") {
            Language::Svelte
        } else if str_eq(s, "svg") {
            Language::SVG
        } else if str_eq(s, "swift") {
            Language::Swift
        } else if str_eq(s, "txt") || str_eq(s, "text") {
            Language::Text
        } else if str_eq(s, "toml") {
            Language::TOML
        } else if str_eq(s, "tsv") {
            Language::TSV
        } else if str_eq(s, "ts") {
            Language::TypeScript
        } else if str_eq(s, "xml") {
            Language::XML
        } else if str_eq(s, "yaml") || str_eq(s, "yml") {
            Language::YAML
        } else {
            Language::Unknown(low)
        }
    }

    /// Parse a [`Language`] from a file-path.
    pub fn from_path(path: &str) -> (l: Language)
        ensures
            l@ == tag_of_path(path@),
    {
        match extension_of(path) {
            Option::None => Language::Text,
            Option::Some(e) => Language::from_extension(e.as_str()),
        }
    }

    /// The RGB color associated with the language.
    pub fn color(&self) -> (c: (u8, u8, u8))
        ensures
            c == color_of(self@),
    {
        match self {
            Language::Astro => (255, 69, 0),
            Language::Bash => (88, 156, 88),
            Language::C => (70, 70, 240),
            Language::CPP => (45, 45, 255),
            Language::CSharp => (98, 164, 228),
            Language::CSS => (86, 61, 124),
            Language::CSV => (0, 123, 255),
            Language::Go => (0, 173, 216),
            Language::HTML => (227, 76, 38),
            Language::Java => (176, 114, 25),
            Language::JavaScript => (247, 223, 30),
            Language::JSON => (255, 224, 102),
            Language::Kotlin => (136, 58, 163),
            Language::Lua => (0, 0, 255),
            Language::Makefile => (48, 77, 48),
            Language::Markdown => (0, 102, 204),
            Language::Perl => (129, 133, 149),
            Language::PHP => (79, 93, 149),
            Language::PowerShell => (1, 36, 86),
            Language::Python => (53, 114, 165),
            Language::React => (0, 122, 204),
            Language::Ruby => (204, 52, 51),
            Language::Rust => (255, 165, 0),
            Language::Svelte => (255, 62, 0),
            Language::SVG => (255, 181, 0),
            Language::Swift => (255, 102, 0),
            Language::Text => (255, 255, 255),
            Language::TOML => (120, 120, 120),
            Language::TSV => (0, 123, 255),
            Language::TypeScript => (0, 122, 204),
            Language::XML => (255, 153, 51),
            Language::YAML => (255, 255, 0),
            Language::Unknown(_) => (127, 127, 127),
        }
    }

    /// The variant identifier, used by the structured output format.
    pub fn ident(&self) -> (r: String)
        ensures
            r@ == ident_of(self@),
    {
        match self {
            Language::Astro => "Astro".to_owned(),
            Language::Bash => "Bash".to_owned(),
            Language::C => "C".to_owned(),
            Language::CPP => "CPP".to_owned(),
            Language::CSharp => "CSharp".to_owned(),
            Language::CSS => "CSS".to_owned(),
            Language::CSV => "CSV".to_owned(),
            Language::Go => "Go".to_owned(),
            Language::HTML => "HTML".to_owned(),
            Language::Java => "Java".to_owned(),
            Language::JavaScript => "JavaScript".to_owned(),
            Language::JSON => "JSON".to_owned(),
            Language::Kotlin => "Kotlin".to_owned(),
            Language::Lua => "Lua".to_owned(),
            Language::Makefile => "Makefile".to_owned(),
            Language::Markdown => "Markdown".to_owned(),
            Language::Perl => "Perl".to_owned(),
            Language::PHP => "PHP".to_owned(),
            Language::PowerShell => "PowerShell".to_owned(),
            Language::Python => "Python".to_owned(),
            Language::React => "React".to_owned(),
            Language::Ruby => "Ruby".to_owned(),
            Language::Rust => "Rust".to_owned(),
            Language::Svelte => "Svelte".to_owned(),
            Language::SVG => "SVG".to_owned(),
            Language::Swift => "Swift".to_owned(),
            Language::Text => "Text".to_owned(),
            Language::TOML => "TOML".to_owned(),
            Language::TSV => "TSV".to_owned(),
            Language::TypeScript => "TypeScript".to_owned(),
            Language::XML => "XML".to_owned(),
            Language::YAML => "YAML".to_owned(),
            Language::Unknown(_) => "Unknown".to_owned(),
        }
    }

    /// The human-readable display name, `.ext` for an unknown extension.
    pub fn name(&self) -> (r: String)
        ensures
            r@ == name_of(self@),
    {
        match self {
            Language::CPP => "C++".to_owned(),
            Language::CSharp => "C#".to_owned(),
            Language::Unknown(ext) => {
                let mut r = ".".to_owned();
                r.append(ext.as_str());
                r
            },
            _ => self.ident(),
        }
    }

    /// A copy whose model is the same as this value's.
    pub fn dup(&self) -> (r: Language)
        ensures
            r@ == self@,
    {
        match self {
            Language::Astro => Language::Astro,
            Language::Bash => Language::Bash,
            Language::C => Language::C,
            Language::CPP => Language::CPP,
            Language::CSharp => Language::CSharp,
            Language::CSS => Language::CSS,
            Language::CSV => Language::CSV,
            Language::Go => Language::Go,
            Language::HTML => Language::HTML,
            Language::Java => Language::Java,
            Language::JavaScript => Language::JavaScript,
            Language::JSON => Language::JSON,
            Language::Kotlin => Language::Kotlin,
            Language::Lua => Language::Lua,
            Language::Makefile => Language::Makefile,
            Language::Markdown => Language::Markdown,
            Language::Perl => Language::Perl,
            Language::PHP => Language::PHP,
            Language::PowerShell => Language::PowerShell,
            Language::Python => Language::Python,
            Language::React => Language::React,
            Language::Ruby => Language::Ruby,
            Language::Rust => Language::Rust,
            Language::Svelte => Language::Svelte,
            Language::SVG => Language::SVG,
            Language::Swift => Language::Swift,
            Language::Text => Language::Text,
            Language::TOML => Language::TOML,
            Language::TSV => Language::TSV,
            Language::TypeScript => Language::TypeScript,
            Language::XML => Language::XML,
            Language::YAML => Language::YAML,
            Language::Unknown(ext) => Language::Unknown(ext.clone()),
        }
    }
}

/// The RGB color associated with a classification.
pub open spec fn color_of(t: LangTag) -> (u8, u8, u8) {
    match t {
        LangTag::Astro => (255u8, 69u8, 0u8),
        LangTag::Bash => (88u8, 156u8, 88u8),
        LangTag::C => (70u8, 70u8, 240u8),
        LangTag::CPP => (45u8, 45u8, 255u8),
        LangTag::CSharp => (98u8, 164u8, 228u8),
        LangTag::CSS => (86u8, 61u8, 124u8),
        LangTag::CSV => (0u8, 123u8, 255u8),
        LangTag::Go => (0u8, 173u8, 216u8),
        LangTag::HTML => (227u8, 76u8, 38u8),
        LangTag::Java => (176u8, 114u8, 25u8),
        LangTag::JavaScript => (247u8, 223u8, 30u8),
        LangTag::JSON => (255u8, 224u8, 102u8),
        LangTag::Kotlin => (136u8, 58u8, 163u8),
        LangTag::Lua => (0u8, 0u8, 255u8),
        LangTag::Makefile => (48u8, 77u8, 48u8),
        LangTag::Markdown => (0u8, 102u8, 204u8),
        LangTag::Perl => (129u8, 133u8, 149u8),
        LangTag::PHP => (79u8, 93u8, 149u8),
        LangTag::PowerShell => (1u8, 36u8, 86u8),
        LangTag::Python => (53u8, 114u8, 165u8),
        LangTag::React => (0u8, 122u8, 204u8),
        LangTag::Ruby => (204u8, 52u8, 51u8),
        LangTag::Rust => (255u8, 165u8, 0u8),
        LangTag::Svelte => (255u8, 62u8, 0u8),
        LangTag::SVG => (255u8, 181u8, 0u8),
        LangTag::Swift => (255u8, 102u8, 0u8),
        LangTag::Text => (255u8, 255u8, 255u8),
        LangTag::TOML => (120u8, 120u8, 120u8),
        LangTag::TSV => (0u8, 123u8, 255u8),
        LangTag::TypeScript => (0u8, 122u8, 204u8),
        LangTag::XML => (255u8, 153u8, 51u8),
        LangTag::YAML => (255u8, 255u8, 0u8),
        LangTag::Unknown(_) => (127u8, 127u8, 127u8),
    }
}

/// The variant identifier of a classification.
pub open spec fn ident_of(t: LangTag) -> Seq<char> {
    match t {
        LangTag::Astro => "Astro"@,
        LangTag::Bash => "Bash"@,
        LangTag::C => "C"@,
        LangTag::CPP => "CPP"@,
        LangTag::CSharp => "CSharp"@,
        LangTag::CSS => "CSS"@,
        LangTag::CSV => "CSV"@,
        LangTag::Go => "Go"@,
        LangTag::HTML => "HTML"@,
        LangTag::Java => "Java"@,
        LangTag::JavaScript => "JavaScript"@,
        LangTag::JSON => "JSON"@,
        LangTag::Kotlin => "Kotlin"@,
        LangTag::Lua => "Lua"@,
        LangTag::Makefile => "Makefile"@,
        LangTag::Markdown => "Markdown"@,
        LangTag::Perl => "Perl"@,
        LangTag::PHP => "PHP"@,
        LangTag::PowerShell => "PowerShell"@,
        LangTag::Python => "Python"@,
        LangTag::React => "React"@,
        LangTag::Ruby => "Ruby"@,
        LangTag::Rust => "Rust"@,
        LangTag::Svelte => "Svelte"@,
        LangTag::SVG => "SVG"@,
        LangTag::Swift => "Swift"@,
        LangTag::Text => "Text"@,
        LangTag::TOML => "TOML"@,
        LangTag::TSV => "TSV"@,
        LangTag::TypeScript => "TypeScript"@,
        LangTag::XML => "XML"@,
        LangTag::YAML => "YAML"@,
        LangTag::Unknown(_) => "Unknown"@,
    }
}

/// The display name of a classification.
pub open spec fn name_of(t: LangTag) -> Seq<char> {
    match t {
        LangTag::CPP => "C++"@,
        LangTag::CSharp => "C#"@,
        LangTag::Unknown(ext) => "."@ + ext,
        _ => ident_of(t),
    }
}

/// The extension of `path` under the rule of [`ext_of_path`].
pub fn extension_of(path: &str) -> (r: Option<String>)
    ensures
        match r {
            Option::Some(e) => ext_of_path(path@) == Option::Some(e@),
            Option::None => ext_of_path(path@) == Option::<Seq<char>>::None,
        },
{
    let n = path.unicode_len();
    let mut ls: Option<usize> = Option::None;
    let mut ld: Option<usize> = Option::None;
    let mut i: usize = 0;
    while i < n
        invariant
            n == path@.len(),
            0 <= i <= n,
            match ls {
                Option::Some(j) => j < i && last_slash(path@.take(i as int)) == j as int,
                Option::None => last_slash(path@.take(i as int)) == -1,
            },
            match ld {
                Option::Some(j) => j < i && last_dot(path@.take(i as int)) == j as int,
                Option::None => last_dot(path@.take(i as int)) == -1,
            },
        decreases n - i,
    {
        let c = path.get_char(i);
        proof {
            assert(path@.take(i + 1).drop_last() =~= path@.take(i as int));
            assert(path@.take(i + 1).last() == path@[i as int]);
        }
        if c == '/' {
            ls = Option::Some(i);
        }
        if c == '.' {
            ld = Option::Some(i);
        }
        i = i + 1;
    }
    proof {
        assert(path@.take(n as int) =~= path@);
    }
    match ld {
        Option::Some(d) => {
            let past_component_start = match ls {
                Option::Some(j) => d > j + 1,
                Option::None => d >= 1,
            };
            if past_component_start {
                let e = path.substring_char(d + 1, n).to_owned();
                proof {
                    assert(e@ =~= path@.subrange(d + 1, n as int));
                }
                Option::Some(e)
            } else {
                Option::None
            }
        },
        Option::None => Option::None,
    }
}

} // verus!
