//! Package bookkeeping: the fixed package lists of the tool and the pure
//! decisions over them, given which packages the system reports installed.

use vstd::prelude::*;

use crate::textfmt::{mem_str, strs_view};

verus! {

/// Essential packages for dotfiles management.
pub open spec fn spec_essential_packages() -> Seq<Seq<char>> {
    seq!["stow"@, "fzf"@, "bat"@, "fd"@, "tree"@, "nvim"@, "tmux"@]
}

/// Optional but recommended packages.
pub open spec fn spec_optional_packages() -> Seq<Seq<char>> {
    seq!["ripgrep"@, "git"@, "curl"@, "wget"@]
}

/// Development tools.
pub open spec fn spec_development_packages() -> Seq<Seq<char>> {
    seq!["gh"@, "jq"@, "yq"@, "httpie"@, "just"@]
}

/// Cloud and infrastructure tools.
pub open spec fn spec_cloud_packages() -> Seq<Seq<char>> {
    seq!["awscli"@, "opentofu"@, "terraform"@]
}

/// Productivity tools.
pub open spec fn spec_productivity_packages() -> Seq<Seq<char>> {
    seq!["obsidian"@, "yakitrak/tap/obsidian-cli"@]
}

/// Additional editors and tools.
pub open spec fn spec_editor_packages() -> Seq<Seq<char>> {
    seq!["helix"@, "lazygit"@]
}

/// Essential packages to install for dotfiles management.
pub fn essential_packages() -> (r: Vec<String>)
    ensures
        strs_view(r@) == spec_essential_packages(),
{
    let mut v: Vec<String> = Vec::new();
    v.push(String::from_str("stow"));
    v.push(String::from_str("fzf"));
    v.push(String::from_str("bat"));
    v.push(String::from_str("fd"));
    v.push(String::from_str("tree"));
    v.push(String::from_str("nvim"));
    v.push(String::from_str("tmux"));
    proof {
        assert(strs_view(v@) =~= spec_essential_packages());
    }
    v
}

/// Optional but recommended packages.
pub fn optional_packages() -> (r: Vec<String>)
    ensures
        strs_view(r@) == spec_optional_packages(),
{
    let mut v: Vec<String> = Vec::new();
    v.push(String::from_str("ripgrep"));
    v.push(String::from_str("git"));
    v.push(String::from_str("curl"));
    v.push(String::from_str("wget"));
    proof {
        assert(strs_view(v@) =~= spec_optional_packages());
    }
    v
}

/// Development tools.
pub fn development_packages() -> (r: Vec<String>)
    ensures
        strs_view(r@) == spec_development_packages(),
{
    let mut v: Vec<String> = Vec::new();
    v.push(String::from_str("gh"));
    v.push(String::from_str("jq"));
    v.push(String::from_str("yq"));
    v.push(String::from_str("httpie"));
    v.push(String::from_str("just"));
    proof {
        assert(strs_view(v@) =~= spec_development_packages());
    }
    v
}

/// Cloud and infrastructure tools.
pub fn cloud_packages() -> (r: Vec<String>)
    ensures
        strs_view(r@) == spec_cloud_packages(),
{
    let mut v: Vec<String> = Vec::new();
    v.push(String::from_str("awscli"));
    v.push(String::from_str("opentofu"));
    v.push(String::from_str("terraform"));
    proof {
        assert(strs_view(v@) =~= spec_cloud_packages());
    }
    v
}

/// Productivity tools.
pub fn productivity_packages() -> (r: Vec<String>)
    ensures
        strs_view(r@) == spec_productivity_packages(),
{
    let mut v: Vec<String> = Vec::new();
    v.push(String::from_str("obsidian"));
    v.push(String::from_str("yakitrak/tap/obsidian-cli"));
    proof {
        assert(strs_view(v@) =~= spec_productivity_packages());
    }
    v
}

/// Additional editors and tools.
pub fn editor_packages() -> (r: Vec<String>)
    ensures
        strs_view(r@) == spec_editor_packages(),
{
    let mut v: Vec<String> = Vec::new();
    v.push(String::from_str("helix"));
    v.push(String::from_str("lazygit"));
    proof {
        assert(strs_view(v@) =~= spec_editor_packages());
    }
    v
}

/// The packages of `list` that `installed` lacks, in list order.
pub open spec fn missing_of(list: Seq<Seq<char>>, installed: Seq<Seq<char>>) -> Seq<Seq<char>>
    decreases list.len(),
{
    if list.len() == 0 {
        Seq::empty()
    } else {
        missing_of(list.drop_last(), installed) + if installed.contains(list.last()) {
            Seq::empty()
        } else {
            seq![list.last()]
        }
    }
}

/// The packages of `list` that `installed` holds, in list order.
pub open spec fn present_of(list: Seq<Seq<char>>, installed: Seq<Seq<char>>) -> Seq<Seq<char>>
    decreases list.len(),
{
    if list.len() == 0 {
        Seq::empty()
    } else {
        present_of(list.drop_last(), installed) + if installed.contains(list.last()) {
            seq![list.last()]
        } else {
            Seq::empty()
        }
    }
}

/// The packages of `list` that `installed` lacks, in list order.
fn filter_missing(list: &Vec<String>, installed: &Vec<String>) -> (r: Vec<String>)
    ensures
        strs_view(r@) == missing_of(strs_view(list@), strs_view(installed@)),
{
    let n = list.len();
    let mut r: Vec<String> = Vec::new();
    let mut i: usize = 0;
    proof {
        assert(strs_view(list@).take(0) =~= Seq::empty());
        assert(strs_view(r@) =~= missing_of(strs_view(list@).take(0), strs_view(installed@)));
    }
    while i < n
        invariant
            n == list@.len(),
            0 <= i <= n,
            strs_view(r@) == missing_of(strs_view(list@).take(i as int), strs_view(installed@)),
        decreases n - i,
    {
        let ghost prev = r@;
        if !mem_str(installed, list[i].as_str()) {
            r.push(list[i].clone());
        }
        proof {
            let t1 = strs_view(list@).take(i + 1);
            assert(t1.drop_last() =~= strs_view(list@).take(i as int));
            assert(t1.last() == strs_view(list@)[i as int]);
            if !strs_view(installed@).contains(list@[i as int]@) {
                assert(strs_view(r@) =~= strs_view(prev) + seq![list@[i as int]@]);
            }
            assert(strs_view(r@) =~= missing_of(t1, strs_view(installed@)));
        }
        i += 1;
    }
    proof {
        assert(strs_view(list@).take(n as int) =~= strs_view(list@));
    }
    r
}

/// The packages of `list` that `installed` holds, in list order.
fn filter_present(list: &Vec<String>, installed: &Vec<String>) -> (r: Vec<String>)
    ensures
        strs_view(r@) == present_of(strs_view(list@), strs_view(installed@)),
{
    let n = list.len();
    let mut r: Vec<String> = Vec::new();
    let mut i: usize = 0;
    proof {
        assert(strs_view(list@).take(0) =~= Seq::empty());
        assert(strs_view(r@) =~= present_of(strs_view(list@).take(0), strs_view(installed@)));
    }
    while i < n
        invariant
            n == list@.len(),
            0 <= i <= n,
            strs_view(r@) == present_of(strs_view(list@).take(i as int), strs_view(installed@)),
        decreases n - i,
    {
        let ghost prev = r@;
        if mem_str(installed, list[i].as_str()) {
            r.push(list[i].clone());
        }
        proof {
            let t1 = strs_view(list@).take(i + 1);
            assert(t1.drop_last() =~= strs_view(list@).take(i as int));
            assert(t1.last() == strs_view(list@)[i as int]);
            if strs_view(installed@).contains(list@[i as int]@) {
                assert(strs_view(r@) =~= strs_view(prev) + seq![list@[i as int]@]);
            }
            assert(strs_view(r@) =~= present_of(t1, strs_view(installed@)));
        }
        i += 1;
    }
    proof {
        assert(strs_view(list@).take(n as int) =~= strs_view(list@));
    }
    r
}

/// Returns the essential packages missing from `installed`.
pub fn check_essential_packages(installed: &Vec<String>) -> (r: Vec<String>)
    ensures
        strs_view(r@) == missing_of(spec_essential_packages(), strs_view(installed@)),
{
    filter_missing(&essential_packages(), installed)
}

/// Returns the development packages missing from `installed`.
pub fn check_development_packages(installed: &Vec<String>) -> (r: Vec<String>)
    ensures
        strs_view(r@) == missing_of(spec_development_packages(), strs_view(installed@)),
{
    filter_missing(&development_packages(), installed)
}

/// Returns the cloud packages missing from `installed`.
pub fn check_cloud_packages(installed: &Vec<String>) -> (r: Vec<String>)
    ensures
        strs_view(r@) == missing_of(spec_cloud_packages(), strs_view(installed@)),
{
    filter_missing(&cloud_packages(), installed)
}

/// Returns the productivity packages missing from `installed`.
pub fn check_productivity_packages(installed: &Vec<String>) -> (r: Vec<String>)
    ensures
        strs_view(r@) == missing_of(spec_productivity_packages(), strs_view(installed@)),
{
    filter_missing(&productivity_packages(), installed)
}

/// Returns the editor packages missing from `installed`.
pub fn check_editor_packages(installed: &Vec<String>) -> (r: Vec<String>)
    ensures
        strs_view(r@) == missing_of(spec_editor_packages(), strs_view(installed@)),
{
    filter_missing(&editor_packages(), installed)
}

/// Package installation status summary.
#[derive(Debug, Clone, PartialEq, Eq)]
pub struct PackageStatus {
    /// Essential packages not installed.
    pub missing_essential: Vec<String>,
    /// Essential packages installed.
    pub installed_essential: Vec<String>,
    /// Optional packages installed.
    pub installed_optional: Vec<String>,
    /// Development packages installed.
    pub installed_development: Vec<String>,
    /// Cloud packages installed.
    pub installed_cloud: Vec<String>,
    /// Productivity packages installed.
    pub installed_productivity: Vec<String>,
    /// Editor packages installed.
    pub installed_editors: Vec<String>,
}

impl PackageStatus {
    /// Returns true if all essential packages are installed.
    pub fn is_complete(&self) -> (r: bool)
        ensures
            r == (self.missing_essential@.len() == 0),
    {
        self.missing_essential.len() == 0
    }

    /// Returns the total number of installed packages.
    pub fn total_installed(&self) -> (r: usize)
        requires
            self.installed_essential@.len() + self.installed_optional@.len()
                + self.installed_development@.len() + self.installed_cloud@.len()
                + self.installed_productivity@.len() + self.installed_editors@.len()
                <= usize::MAX,
        ensures
            r == self.installed_essential@.len() + self.installed_optional@.len()
                + self.installed_development@.len() + self.installed_cloud@.len()
                + self.installed_productivity@.len() + self.installed_editors@.len(),
    {
        self.installed_essential.len() + self.installed_optional.len()
            + self.installed_development.len() + self.installed_cloud.len()
            + self.installed_productivity.len() + self.installed_editors.len()
    }
}

/// Returns a summary of package installation status, given which packages
/// the system reports installed.
pub fn package_status(installed: &Vec<String>) -> (r: PackageStatus)
    ensures
        strs_view(r.missing_essential@) == missing_of(
            spec_essential_packages(),
            strs_view(installed@),
        ),
        strs_view(r.installed_essential@) == present_of(
            spec_essential_packages(),
            strs_view(installed@),
        ),
        strs_view(r.installed_optional@) == present_of(
            spec_optional_packages(),
            strs_view(installed@),
        ),
        strs_view(r.installed_development@) == present_of(
            spec_development_packages(),
            strs_view(installed@),
        ),
        strs_view(r.installed_cloud@) == present_of(spec_cloud_packages(), strs_view(installed@)),
        strs_view(r.installed_productivity@) == present_of(
            spec_productivity_packages(),
            strs_view(installed@),
        ),
        strs_view(r.installed_editors@) == present_of(
            spec_editor_packages(),
            strs_view(installed@),
        ),
{
    PackageStatus {
        missing_essential: filter_missing(&essential_packages(), installed),
        installed_essential: filter_present(&essential_packages(), installed),
        installed_optional: filter_present(&optional_packages(), installed),
        installed_development: filter_present(&development_packages(), installed),
        installed_cloud: filter_present(&cloud_packages(), installed),
        installed_productivity: filter_present(&productivity_packages(), installed),
        installed_editors: filter_present(&editor_packages(), installed),
    }
}

} // verus!
