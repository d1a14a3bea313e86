//! Where the snippet file lives.
//!
//! A path is kept as the list of its components, outermost first. Turning the
//! list into a path of the platform is the caller's part: it joins the
//! components in order, so that a component that is absolute on its platform
//! takes the place of what stood before it.

use vstd::prelude::*;

verus! {

/// What the environment was asked for.
#[derive(Clone, Copy, Debug, PartialEq, Eq, Structural)]
pub enum Lookup {
    /// The home directory of the current user.
    HomeDirectory,
    /// The variable that names the application-data directory.
    AppData,
}

/// Why a location could not be worked out.
#[derive(Clone, Copy, Debug, PartialEq, Eq, Structural)]
pub enum Failure {
    /// The environment does not tell what was asked of it.
    Environment(Lookup),
    /// A path has no parent directory.
    Path,
}

/// The wording of each failure.
pub open spec fn message_of(failure: Failure) -> Seq<char> {
    match failure {
        Failure::Environment(Lookup::HomeDirectory) => "Failed to get home directory"@,
        Failure::Environment(Lookup::AppData) => "Failed to get APPDATA environment variable"@,
        Failure::Path => "Failed to get parent folder"@,
    }
}

impl Failure {
    /// A sentence that names the failure.
    pub fn message(&self) -> (text: &'static str)
        ensures
            text@ == message_of(*self),
    {
        match self {
            Failure::Environment(Lookup::HomeDirectory) => "Failed to get home directory",
            Failure::Environment(Lookup::AppData) => "Failed to get APPDATA environment variable",
            Failure::Path => "Failed to get parent folder",
        }
    }
}

/// The name of the environment variable that holds the application-data
/// directory.
pub fn app_data_variable() -> (name: &'static str)
    ensures
        name@ == "APPDATA"@,
{
    "APPDATA"
}

/// A path as its components, outermost first.
#[derive(Debug, PartialEq, Eq)]
pub struct ComponentPath {
    pub parts: Vec<String>,
}

impl View for ComponentPath {
    type V = Seq<Seq<char>>;

    open spec fn view(&self) -> Seq<Seq<char>> {
        self.parts.deep_view()
    }
}

/// The directory that holds the snippet file: below the home directory, then
/// the application-data directory, `espanso` and `match`.
pub open spec fn config_dir_of(home: Seq<char>, app_data: Seq<char>) -> Seq<Seq<char>> {
    seq![home, app_data, "espanso"@, "match"@]
}

/// The snippet file: `custom.yml` in the configuration directory.
pub open spec fn snippet_path_of(home: Seq<char>, app_data: Seq<char>) -> Seq<Seq<char>> {
    config_dir_of(home, app_data).push("custom.yml"@)
}

/// The path of the snippet file, from the home directory and the value of the
/// application-data variable as far as the environment gave them. The home
/// directory is asked for first.
pub fn snippet_path(home: Option<String>, app_data: Option<String>) -> (found: Result<
    ComponentPath,
    Failure,
>)
    ensures
        match found {
            Ok(path) => home is Some && app_data is Some && path@ == snippet_path_of(
                home->0@,
                app_data->0@,
            ),
            Err(failure) => if home is None {
                failure == Failure::Environment(Lookup::HomeDirectory)
            } else {
                app_data is None && failure == Failure::Environment(Lookup::AppData)
            },
        },
{
    let home = match home {
        Some(home) => home,
        None => { return Err(Failure::Environment(Lookup::HomeDirectory)); },
    };
    let app_data = match app_data {
        Some(app_data) => app_data,
        None => { return Err(Failure::Environment(Lookup::AppData)); },
    };
    let mut parts: Vec<String> = Vec::new();
    parts.push(home);
    parts.push(app_data);
    parts.push(String::from_str("espanso"));
    parts.push(String::from_str("match"));
    parts.push(String::from_str("custom.yml"));
    Ok(ComponentPath { parts })
}

/// The first `count` components, copied.
fn leading_parts(parts: &Vec<String>, count: usize) -> (copy: Vec<String>)
    requires
        count <= parts.len(),
    ensures
        copy.deep_view() == parts.deep_view().take(count as int),
{
    let mut copy: Vec<String> = Vec::new();
    let mut i: usize = 0;
    while i < count
        invariant
            i <= count <= parts.len(),
            copy.deep_view() == parts.deep_view().take(i as int),
        decreases count - i,
    {
        let ghost before = copy.deep_view();
        copy.push(parts[i].clone());
        assert(copy.deep_view() == before.push(parts[i as int]@));
        i = i + 1;
    }
    copy
}

impl Clone for ComponentPath {
    fn clone(&self) -> (copy: ComponentPath)
        ensures
            copy@ == self@,
    {
        ComponentPath { parts: leading_parts(&self.parts, self.parts.len()) }
    }
}

impl ComponentPath {
    /// The path without its last component. A path of no components has no
    /// parent.
    pub fn parent(&self) -> (found: Result<ComponentPath, Failure>)
        ensures
            match found {
                Ok(directory) => self@.len() > 0 && directory@ == self@.drop_last(),
                Err(failure) => self@.len() == 0 && failure == Failure::Path,
            },
    {
        if self.parts.len() == 0 {
            return Err(Failure::Path);
        }
        Ok(ComponentPath { parts: leading_parts(&self.parts, self.parts.len() - 1) })
    }
}

/// The snippet file always has a parent: the configuration directory.
pub proof fn snippet_path_has_parent(home: Seq<char>, app_data: Seq<char>)
    ensures
        snippet_path_of(home, app_data).len() > 0,
        snippet_path_of(home, app_data).drop_last() == config_dir_of(home, app_data),
        snippet_path_of(home, app_data).last() == "custom.yml"@,
{
}

} // verus!
