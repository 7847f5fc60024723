use vstd::prelude::*;
use vstd::string::StringExecFns;

verus! {

/// The text that `str::replace` makes of `text` where every match of `from`
/// is replaced by `to`.
pub uninterp spec fn replaced(text: Seq<char>, from: Seq<char>, to: Seq<char>) -> Seq<char>;

/// `str::replace` of std, with a string as the pattern. Not proved: that the
/// result is the text which the name `replaced` stands for, a function of the
/// three texts alone.
#[verifier::external_body]
fn replace_all(text: &str, from: &str, to: &str) -> (r: String)
    ensures
        r@ == replaced(text@, from@, to@),
{
    text.replace(from, to)
}

/// The address of a repository in the hosting service's interface, from the
/// repository's path (`owner/name`).
pub open spec fn api_url_of(path: Seq<char>) -> Seq<char> {
    "https://api.github.com/repos/"@ + path
}

/// The interface address for a repository path.
pub fn api_url_for(path: &str) -> (url: String)
    ensures
        url@ == api_url_of(path@),
{
    String::from_str("https://api.github.com/repos/").concat(path)
}

/// The interface address for a repository given by its web address: the web
/// address without the service's prefix, behind the interface's prefix.
pub fn get_api_url(repo_url: &str) -> (url: String)
    ensures
        url@ == api_url_of(replaced(repo_url@, "https://github.com/"@, ""@)),
{
    let path = replace_all(repo_url, "https://github.com/", "");
    api_url_for(path.as_str())
}

/// A file of a release: its name and, where the release gives one, the
/// address it is fetched from.
pub struct Asset {
    pub name: String,
    pub url: Option<String>,
}

/// A release's version: three numbers, the most significant first.
#[derive(Clone, Copy, Debug, PartialEq, Eq, Structural)]
pub struct Version {
    pub major: u64,
    pub minor: u64,
    pub patch: u64,
}

impl Version {
    /// Whether `self` is `other` or a later version: the first number in
    /// which the two differ is greater in `self`.
    pub open spec fn covers(self, other: Version) -> bool {
        self.major > other.major || (self.major == other.major && (self.minor > other.minor || (
        self.minor == other.minor && self.patch >= other.patch)))
    }

    /// Whether `self` is `other` or a later version.
    pub fn at_least(&self, other: &Version) -> (r: bool)
        ensures
            r == self.covers(*other),
    {
        if self.major != other.major {
            self.major > other.major
        } else if self.minor != other.minor {
            self.minor > other.minor
        } else {
            self.patch >= other.patch
        }
    }
}

/// Versions are ordered in a line: of two versions one covers the other,
/// both only where they are the same, and what covers a version covers all
/// that it covers.
pub proof fn lemma_versions_are_ordered(a: Version, b: Version, c: Version)
    ensures
        a.covers(b) || b.covers(a),
        a.covers(b) && b.covers(a) ==> a == b,
        a.covers(b) && b.covers(c) ==> a.covers(c),
{
}

/// Whether a new binary is to be installed: where the running one is older
/// than the latest release, or where the caller insists.
pub fn should_install(current: &Version, latest: &Version, force_update: bool) -> (r: bool)
    ensures
        r == (force_update || !current.covers(*latest)),
{
    force_update || !current.at_least(latest)
}

/// The place of the first asset named `binary_name`, or `None` where no
/// asset has that name.
pub fn find_asset(assets: &Vec<Asset>, binary_name: &String) -> (r: Option<usize>)
    ensures
        match r {
            Some(i) => {
                &&& i < assets@.len()
                &&& assets@[i as int].name@ == binary_name@
                &&& forall|j: int| 0 <= j < i ==> assets@[j].name@ != binary_name@
            },
            None => forall|j: int| 0 <= j < assets@.len() ==> assets@[j].name@ != binary_name@,
        },
{
    let mut k: usize = 0;
    while k < assets.len()
        invariant
            k <= assets@.len(),
            forall|j: int| 0 <= j < k ==> assets@[j].name@ != binary_name@,
        decreases assets.len() - k,
    {
        if assets[k].name == *binary_name {
            return Some(k);
        }
        k += 1;
    }
    None
}

} // verus!
