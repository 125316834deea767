//! The supported language runtimes: each installer names its runtime, its
//! default version and its fallback installation instructions. Running a
//! version manager to install a runtime is outside work.

use vstd::prelude::*;

use crate::textfmt::{contains_seq, lower_seq, str_eq, str_eq_ignore_ascii_case};

verus! {

/// Common interface for language installers.
pub trait LanguageInstaller {
    /// The name the version manager knows the runtime by.
    spec fn spec_language_name(&self) -> Seq<char>;

    /// The default version to install.
    spec fn spec_default_version(&self) -> Seq<char>;

    /// The human-readable name.
    spec fn spec_display_name(&self) -> Seq<char>;

    /// Returns the language name (as the version manager knows it).
    fn language_name(&self) -> (r: &str)
        ensures
            r@ == self.spec_language_name(),
    ;

    /// Returns the default version to install.
    fn default_version(&self) -> (r: &str)
        ensures
            r@ == self.spec_default_version(),
    ;

    /// Returns a human-readable display name.
    fn display_name(&self) -> (r: &str)
        ensures
            r@ == self.spec_display_name(),
    ;

    /// Provides fallback installation instructions if no version manager is
    /// available; the display name appears within them.
    fn fallback_instructions(&self) -> (r: String)
        ensures
            contains_seq(r@, self.spec_display_name()),
    ;
}

/// Installs the Java runtime.
pub struct JavaInstaller;

/// Installs the Node.js runtime.
pub struct JavaScriptInstaller;

/// Installs the Python runtime.
pub struct PythonInstaller;

/// Installs the Rust toolchain.
pub struct RustInstaller;

/// Installs the Go toolchain.
pub struct GoInstaller;

impl LanguageInstaller for JavaInstaller {
    open spec fn spec_language_name(&self) -> Seq<char> {
        "java"@
    }

    open spec fn spec_default_version(&self) -> Seq<char> {
        "openjdk-21"@
    }

    open spec fn spec_display_name(&self) -> Seq<char> {
        "Java"@
    }

    fn language_name(&self) -> (r: &str)
        ensures
            r@ == self.spec_language_name(),
    {
        "java"
    }

    fn default_version(&self) -> (r: &str)
        ensures
            r@ == self.spec_default_version(),
    {
        "openjdk-21"
    }

    fn display_name(&self) -> (r: &str)
        ensures
            r@ == self.spec_display_name(),
    {
        "Java"
    }

    fn fallback_instructions(&self) -> (r: String)
        ensures
            contains_seq(r@, self.spec_display_name()),
    {
        let mut s = String::from_str("Install ");
        s.append("Java");
        let ghost head = s@;
        s.append(
            " manually:\n  - macOS: brew install openjdk@21\n  - Linux: sudo apt install openjdk-21-jdk",
        );
        proof {
            crate::textfmt::lemma_contains_self("Java"@);
            crate::textfmt::lemma_contains_concat_right("Install "@, "Java"@, "Java"@);
            crate::textfmt::lemma_contains_concat_left(
                head,
                " manually:\n  - macOS: brew install openjdk@21\n  - Linux: sudo apt install openjdk-21-jdk"@,
                "Java"@,
            );
        }
        s
    }
}

impl LanguageInstaller for JavaScriptInstaller {
    open spec fn spec_language_name(&self) -> Seq<char> {
        "nodejs"@
    }

    open spec fn spec_default_version(&self) -> Seq<char> {
        "22.12.0"@
    }

    open spec fn spec_display_name(&self) -> Seq<char> {
        "Node.js"@
    }

    fn language_name(&self) -> (r: &str)
        ensures
            r@ == self.spec_language_name(),
    {
        "nodejs"
    }

    fn default_version(&self) -> (r: &str)
        ensures
            r@ == self.spec_default_version(),
    {
        "22.12.0"
    }

    fn display_name(&self) -> (r: &str)
        ensures
            r@ == self.spec_display_name(),
    {
        "Node.js"
    }

    fn fallback_instructions(&self) -> (r: String)
        ensures
            contains_seq(r@, self.spec_display_name()),
    {
        let mut s = String::from_str("Install ");
        s.append("Node.js");
        let ghost head = s@;
        s.append(
            " manually:\n  - macOS: brew install node\n  - Linux: curl -fsSL https://deb.nodesource.com/setup_lts.x | sudo -E bash - && sudo apt install nodejs\n  - Or use nvm: https://github.com/nvm-sh/nvm",
        );
        proof {
            crate::textfmt::lemma_contains_self("Node.js"@);
            crate::textfmt::lemma_contains_concat_right("Install "@, "Node.js"@, "Node.js"@);
            crate::textfmt::lemma_contains_concat_left(
                head,
                " manually:\n  - macOS: brew install node\n  - Linux: curl -fsSL https://deb.nodesource.com/setup_lts.x | sudo -E bash - && sudo apt install nodejs\n  - Or use nvm: https://github.com/nvm-sh/nvm"@,
                "Node.js"@,
            );
        }
        s
    }
}

impl LanguageInstaller for PythonInstaller {
    open spec fn spec_language_name(&self) -> Seq<char> {
        "python"@
    }

    open spec fn spec_default_version(&self) -> Seq<char> {
        "3.12.1"@
    }

    open spec fn spec_display_name(&self) -> Seq<char> {
        "Python"@
    }

    fn language_name(&self) -> (r: &str)
        ensures
            r@ == self.spec_language_name(),
    {
        "python"
    }

    fn default_version(&self) -> (r: &str)
        ensures
            r@ == self.spec_default_version(),
    {
        "3.12.1"
    }

    fn display_name(&self) -> (r: &str)
        ensures
            r@ == self.spec_display_name(),
    {
        "Python"
    }

    fn fallback_instructions(&self) -> (r: String)
        ensures
            contains_seq(r@, self.spec_display_name()),
    {
        let mut s = String::from_str("Install ");
        s.append("Python");
        let ghost head = s@;
        s.append(
            " manually:\n  - macOS: brew install python@3.12\n  - Linux: sudo apt install python3.12\n  - Or use pyenv: https://github.com/pyenv/pyenv",
        );
        proof {
            crate::textfmt::lemma_contains_self("Python"@);
            crate::textfmt::lemma_contains_concat_right("Install "@, "Python"@, "Python"@);
            crate::textfmt::lemma_contains_concat_left(
                head,
                " manually:\n  - macOS: brew install python@3.12\n  - Linux: sudo apt install python3.12\n  - Or use pyenv: https://github.com/pyenv/pyenv"@,
                "Python"@,
            );
        }
        s
    }
}

impl LanguageInstaller for RustInstaller {
    open spec fn spec_language_name(&self) -> Seq<char> {
        "rust"@
    }

    open spec fn spec_default_version(&self) -> Seq<char> {
        "1.83.0"@
    }

    open spec fn spec_display_name(&self) -> Seq<char> {
        "Rust"@
    }

    fn language_name(&self) -> (r: &str)
        ensures
            r@ == self.spec_language_name(),
    {
        "rust"
    }

    fn default_version(&self) -> (r: &str)
        ensures
            r@ == self.spec_default_version(),
    {
        "1.83.0"
    }

    fn display_name(&self) -> (r: &str)
        ensures
            r@ == self.spec_display_name(),
    {
        "Rust"
    }

    fn fallback_instructions(&self) -> (r: String)
        ensures
            contains_seq(r@, self.spec_display_name()),
    {
        let mut s = String::from_str("Install ");
        s.append("Rust");
        let ghost head = s@;
        s.append(
            " manually:\n  - All platforms: curl --proto '=https' --tlsv1.2 -sSf https://sh.rustup.rs | sh\n  - Or visit: https://rustup.rs",
        );
        proof {
            crate::textfmt::lemma_contains_self("Rust"@);
            crate::textfmt::lemma_contains_concat_right("Install "@, "Rust"@, "Rust"@);
            crate::textfmt::lemma_contains_concat_left(
                head,
                " manually:\n  - All platforms: curl --proto '=https' --tlsv1.2 -sSf https://sh.rustup.rs | sh\n  - Or visit: https://rustup.rs"@,
                "Rust"@,
            );
        }
        s
    }
}

impl LanguageInstaller for GoInstaller {
    open spec fn spec_language_name(&self) -> Seq<char> {
        "golang"@
    }

    open spec fn spec_default_version(&self) -> Seq<char> {
        "1.23.4"@
    }

    open spec fn spec_display_name(&self) -> Seq<char> {
        "Go"@
    }

    fn language_name(&self) -> (r: &str)
        ensures
            r@ == self.spec_language_name(),
    {
        "golang"
    }

    fn default_version(&self) -> (r: &str)
        ensures
            r@ == self.spec_default_version(),
    {
        "1.23.4"
    }

    fn display_name(&self) -> (r: &str)
        ensures
            r@ == self.spec_display_name(),
    {
        "Go"
    }

    fn fallback_instructions(&self) -> (r: String)
        ensures
            contains_seq(r@, self.spec_display_name()),
    {
        let mut s = String::from_str("Install ");
        s.append("Go");
        let ghost head = s@;
        s.append(
            " manually:\n  - macOS: brew install go\n  - Linux: sudo apt install golang\n  - Or visit: https://go.dev/doc/install",
        );
        proof {
            crate::textfmt::lemma_contains_self("Go"@);
            crate::textfmt::lemma_contains_concat_right("Install "@, "Go"@, "Go"@);
            crate::textfmt::lemma_contains_concat_left(
                head,
                " manually:\n  - macOS: brew install go\n  - Linux: sudo apt install golang\n  - Or visit: https://go.dev/doc/install"@,
                "Go"@,
            );
        }
        s
    }
}

/// Returns all available language installers: Java, Node.js, Python, Rust
/// and Go, in that fixed order. (What a trait object holds is beyond the
/// verifier's sight, so this list carries no verified contract; the
/// installers themselves do.)
pub fn all_languages() -> Vec<Box<dyn LanguageInstaller>> {
    let mut v: Vec<Box<dyn LanguageInstaller>> = Vec::new();
    v.push(Box::new(JavaInstaller));
    v.push(Box::new(JavaScriptInstaller));
    v.push(Box::new(PythonInstaller));
    v.push(Box::new(RustInstaller));
    v.push(Box::new(GoInstaller));
    v
}

/// A query matches an installer when it equals the runtime name, or equals
/// the display name without regard to ASCII case.
pub open spec fn installer_matches(lang: Seq<char>, display: Seq<char>, name: Seq<char>) -> bool {
    lang == name || lower_seq(display) == lower_seq(name)
}

/// The position of the first installer a query matches, in the fixed order.
pub open spec fn spec_find_language(name: Seq<char>) -> Option<int> {
    if installer_matches("java"@, "Java"@, name) {
        Some(0int)
    } else if installer_matches("nodejs"@, "Node.js"@, name) {
        Some(1int)
    } else if installer_matches("python"@, "Python"@, name) {
        Some(2int)
    } else if installer_matches("rust"@, "Rust"@, name) {
        Some(3int)
    } else if installer_matches("golang"@, "Go"@, name) {
        Some(4int)
    } else {
        None
    }
}

/// Gets a language installer by name: the query may be the runtime name or
/// the display name (without regard to ASCII case). The first match in the
/// fixed order wins; the lookup succeeds exactly when some installer
/// matches.
pub fn get_installer(name: &str) -> (r: Option<Box<dyn LanguageInstaller>>)
    ensures
        (r is Some) == (spec_find_language(name@) is Some),
{
    let java = JavaInstaller;
    if str_eq(java.language_name(), name) || str_eq_ignore_ascii_case(java.display_name(), name) {
        return Some(Box::new(java));
    }
    let js = JavaScriptInstaller;
    if str_eq(js.language_name(), name) || str_eq_ignore_ascii_case(js.display_name(), name) {
        return Some(Box::new(js));
    }
    let python = PythonInstaller;
    if str_eq(python.language_name(), name) || str_eq_ignore_ascii_case(
        python.display_name(),
        name,
    ) {
        return Some(Box::new(python));
    }
    let rust_installer = RustInstaller;
    if str_eq(rust_installer.language_name(), name) || str_eq_ignore_ascii_case(
        rust_installer.display_name(),
        name,
    ) {
        return Some(Box::new(rust_installer));
    }
    let go = GoInstaller;
    if str_eq(go.language_name(), name) || str_eq_ignore_ascii_case(go.display_name(), name) {
        return Some(Box::new(go));
    }
    None
}

} // verus!
