//! The starting project files that `fyr init` writes.

use vstd::prelude::*;
use crate::text::text_eq;

verus! {

/// A starting project file.
#[derive(Debug, PartialEq, Eq, Clone, Copy)]
pub enum Template {
    /// No particular language: a project file with no task yet.
    Default,
    /// Rust
    Rust,
    /// Node.js
    Node,
    /// Go
    Go,
    /// C
    C,
    /// C++
    Cpp,
    /// Ruby
    Ruby,
    /// PHP
    Php,
    /// Java
    Java,
    /// Kotlin
    Kotlin,
    /// Swift
    Swift,
    /// Zig
    Zig,
    /// Elixir
    Elixir,
    /// Haskell
    Haskell,
    /// CSS and SCSS
    Css,
    /// Lua
    Lua,
    /// Shell scripts
    Shell,
}

/// The template that a lower-case name selects; any other name selects the default.
pub open spec fn template_of(key: Seq<char>) -> Template {
    if key == "rust"@ {
        Template::Rust
    } else if key == "node"@ || key == "nodejs"@ {
        Template::Node
    } else if key == "go"@ {
        Template::Go
    } else if key == "c"@ {
        Template::C
    } else if key == "cpp"@ {
        Template::Cpp
    } else if key == "ruby"@ {
        Template::Ruby
    } else if key == "php"@ {
        Template::Php
    } else if key == "java"@ {
        Template::Java
    } else if key == "kotlin"@ {
        Template::Kotlin
    } else if key == "swift"@ {
        Template::Swift
    } else if key == "zig"@ {
        Template::Zig
    } else if key == "elixir"@ {
        Template::Elixir
    } else if key == "haskell"@ {
        Template::Haskell
    } else if key == "css"@ || key == "scss"@ {
        Template::Css
    } else if key == "lua"@ {
        Template::Lua
    } else if key == "shell"@ || key == "sh"@ {
        Template::Shell
    } else {
        Template::Default
    }
}

/// The template that a lower-case name selects.
pub fn template_for_key(key: &str) -> (r: Template)
    ensures
        r == template_of(key@),
{
    if text_eq(key, "rust") {
        return Template::Rust;
    }
    if text_eq(key, "node") || text_eq(key, "nodejs") {
        return Template::Node;
    }
    if text_eq(key, "go") {
        return Template::Go;
    }
    if text_eq(key, "c") {
        return Template::C;
    }
    if text_eq(key, "cpp") {
        return Template::Cpp;
    }
    if text_eq(key, "ruby") {
        return Template::Ruby;
    }
    if text_eq(key, "php") {
        return Template::Php;
    }
    if text_eq(key, "java") {
        return Template::Java;
    }
    if text_eq(key, "kotlin") {
        return Template::Kotlin;
    }
    if text_eq(key, "swift") {
        return Template::Swift;
    }
    if text_eq(key, "zig") {
        return Template::Zig;
    }
    if text_eq(key, "elixir") {
        return Template::Elixir;
    }
    if text_eq(key, "haskell") {
        return Template::Haskell;
    }
    if text_eq(key, "css") || text_eq(key, "scss") {
        return Template::Css;
    }
    if text_eq(key, "lua") {
        return Template::Lua;
    }
    if text_eq(key, "shell") || text_eq(key, "sh") {
        return Template::Shell;
    }
    Template::Default
}

/// The lower-case form that `str::to_lowercase` gives of `s`.
pub uninterp spec fn lowercase_of(s: Seq<char>) -> Seq<char>;

/// Calls `str::to_lowercase`, which maps each character to its lower-case form
/// as Unicode defines it. Claimed: the result is what `lowercase_of` names.
#[verifier::external_body]
fn lowercase(s: &str) -> (r: String)
    ensures
        r@ == lowercase_of(s@),
{
    s.to_lowercase()
}

/// The template for a name, or for none: the default where no name is given,
/// else the one that its lower-case form selects.
pub open spec fn template_chosen(name: Option<Seq<char>>) -> Template {
    match name {
        None => Template::Default,
        Some(n) => template_of(lowercase_of(n)),
    }
}

/// The name of a template is read without regard to case: two names with the
/// same lower-case form choose the same template.
pub proof fn law_template_name_ignores_case(a: Seq<char>, b: Seq<char>)
    requires
        lowercase_of(a) == lowercase_of(b),
    ensures
        template_chosen(Some(a)) == template_chosen(Some(b)),
{
}

/// The template that `fyr init` writes: the default where no name is given,
/// else the one that the name selects, whatever its case.
pub fn get_template(template: Option<String>) -> (r: Template)
    ensures
        r == template_chosen(template.deep_view()),
{
    match template {
        None => Template::Default,
        Some(name) => {
            let key = lowercase(name.as_str());
            template_for_key(key.as_str())
        },
    }
}

/// The text of a template.
pub open spec fn template_text(t: Template) -> Seq<char> {
    match t {
        Template::Default => "# default = \"dev\"\n\n[tasks]\n# [tasks.dev]\n# watch = [\"src\"]\n# run = \"make\"\n"@,
        Template::Rust => "default = \"run\"\n\n[tasks.run]\nwatch = [\"src\"]\nrun = \"cargo run\"\n\n[tasks.test]\nwatch = [\"src\", \"tests\"]\nrun = \"cargo test\"\n"@,
        Template::Node => "default = \"start\"\n\n[tasks.start]\nwatch = []\nextensions = [\"js\", \"ts\"]\nrun = \"node index.js\"\n\n[tasks.test]\nwatch = []\nextensions = [\"js\", \"ts\"]\nrun = \"npm test\"\n"@,
        Template::Go => "default = \"run\"\n\n[tasks.run]\nwatch = []\nextensions = [\"go\"]\nrun = \"go run .\"\n\n[tasks.test]\nwatch = []\nextensions = [\"go\"]\nrun = \"go test ./...\"\n"@,
        Template::C => "default = \"build\"\n\n[tasks.build]\nwatch = []\nextensions = [\"c\", \"h\"]\nrun = \"make\"\n"@,
        Template::Cpp => "default = \"build\"\n\n[tasks.build]\nwatch = []\nextensions = [\"cpp\", \"hpp\", \"cc\", \"h\"]\nrun = \"make\"\n"@,
        Template::Ruby => "default = \"run\"\n\n[tasks.run]\nwatch = []\nextensions = [\"rb\"]\nrun = \"ruby main.rb\"\n"@,
        Template::Php => "default = \"run\"\n\n[tasks.run]\nwatch = []\nextensions = [\"php\"]\nrun = \"php index.php\"\n"@,
        Template::Java => "default = \"build\"\n\n[tasks.build]\nwatch = [\"src\"]\nextensions = [\"java\"]\nrun = \"mvn compile\"\n"@,
        Template::Kotlin => "default = \"build\"\n\n[tasks.build]\nwatch = [\"src\"]\nextensions = [\"kt\", \"kts\"]\nrun = \"gradle build\"\n"@,
        Template::Swift => "default = \"build\"\n\n[tasks.build]\nwatch = [\"Sources\"]\nrun = \"swift build\"\n"@,
        Template::Zig => "default = \"build\"\n\n[tasks.build]\nwatch = [\"src\"]\nrun = \"zig build\"\n"@,
        Template::Elixir => "default = \"test\"\n\n[tasks.test]\nwatch = [\"lib\", \"test\"]\nrun = \"mix test\"\n"@,
        Template::Haskell => "default = \"build\"\n\n[tasks.build]\nwatch = []\nextensions = [\"hs\"]\nrun = \"cabal build\"\n"@,
        Template::Css => "default = \"build\"\n\n[tasks.build]\nwatch = []\nextensions = [\"css\", \"scss\"]\nrun = \"npm run build\"\n"@,
        Template::Lua => "default = \"run\"\n\n[tasks.run]\nwatch = []\nextensions = [\"lua\"]\nrun = \"lua main.lua\"\n"@,
        Template::Shell => "default = \"run\"\n\n[tasks.run]\nwatch = []\nextensions = [\"sh\"]\nrun = \"sh main.sh\"\n"@,
    }
}

impl Template {
    /// The text of the project file.
    pub fn contents(&self) -> (r: &'static str)
        ensures
            r@ == template_text(*self),
    {
        match self {
            Template::Default => "# default = \"dev\"\n\n[tasks]\n# [tasks.dev]\n# watch = [\"src\"]\n# run = \"make\"\n",
            Template::Rust => "default = \"run\"\n\n[tasks.run]\nwatch = [\"src\"]\nrun = \"cargo run\"\n\n[tasks.test]\nwatch = [\"src\", \"tests\"]\nrun = \"cargo test\"\n",
            Template::Node => "default = \"start\"\n\n[tasks.start]\nwatch = []\nextensions = [\"js\", \"ts\"]\nrun = \"node index.js\"\n\n[tasks.test]\nwatch = []\nextensions = [\"js\", \"ts\"]\nrun = \"npm test\"\n",
            Template::Go => "default = \"run\"\n\n[tasks.run]\nwatch = []\nextensions = [\"go\"]\nrun = \"go run .\"\n\n[tasks.test]\nwatch = []\nextensions = [\"go\"]\nrun = \"go test ./...\"\n",
            Template::C => "default = \"build\"\n\n[tasks.build]\nwatch = []\nextensions = [\"c\", \"h\"]\nrun = \"make\"\n",
            Template::Cpp => "default = \"build\"\n\n[tasks.build]\nwatch = []\nextensions = [\"cpp\", \"hpp\", \"cc\", \"h\"]\nrun = \"make\"\n",
            Template::Ruby => "default = \"run\"\n\n[tasks.run]\nwatch = []\nextensions = [\"rb\"]\nrun = \"ruby main.rb\"\n",
            Template::Php => "default = \"run\"\n\n[tasks.run]\nwatch = []\nextensions = [\"php\"]\nrun = \"php index.php\"\n",
            Template::Java => "default = \"build\"\n\n[tasks.build]\nwatch = [\"src\"]\nextensions = [\"java\"]\nrun = \"mvn compile\"\n",
            Template::Kotlin => "default = \"build\"\n\n[tasks.build]\nwatch = [\"src\"]\nextensions = [\"kt\", \"kts\"]\nrun = \"gradle build\"\n",
            Template::Swift => "default = \"build\"\n\n[tasks.build]\nwatch = [\"Sources\"]\nrun = \"swift build\"\n",
            Template::Zig => "default = \"build\"\n\n[tasks.build]\nwatch = [\"src\"]\nrun = \"zig build\"\n",
            Template::Elixir => "default = \"test\"\n\n[tasks.test]\nwatch = [\"lib\", \"test\"]\nrun = \"mix test\"\n",
            Template::Haskell => "default = \"build\"\n\n[tasks.build]\nwatch = []\nextensions = [\"hs\"]\nrun = \"cabal build\"\n",
            Template::Css => "default = \"build\"\n\n[tasks.build]\nwatch = []\nextensions = [\"css\", \"scss\"]\nrun = \"npm run build\"\n",
            Template::Lua => "default = \"run\"\n\n[tasks.run]\nwatch = []\nextensions = [\"lua\"]\nrun = \"lua main.lua\"\n",
            Template::Shell => "default = \"run\"\n\n[tasks.run]\nwatch = []\nextensions = [\"sh\"]\nrun = \"sh main.sh\"\n",
        }
    }
}

} // verus!
