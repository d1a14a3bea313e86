//! Showing the folder of the snippet file in the file browser.
//!
//! Each platform has one program that opens a folder. It is started with the
//! folder as its only argument; starting it is the caller's part.

use crate::location::{ComponentPath, Failure};
use vstd::prelude::*;

verus! {

/// The platforms that are told apart.
#[derive(Clone, Copy, Debug, PartialEq, Eq, Structural)]
pub enum Platform {
    Windows,
    Linux,
    MacOs,
    /// Any other platform: none of its programs is known here.
    Other,
}

/// The platform that goes by the name `os`.
pub open spec fn platform_of(os: Seq<char>) -> Platform {
    if os == "windows"@ {
        Platform::Windows
    } else if os == "linux"@ {
        Platform::Linux
    } else if os == "macos"@ {
        Platform::MacOs
    } else {
        Platform::Other
    }
}

/// The program that opens a folder on `platform`, where one is known.
pub open spec fn launcher_of(platform: Platform) -> Option<Seq<char>> {
    match platform {
        Platform::Windows => Some("explorer"@),
        Platform::Linux => Some("xdg-open"@),
        Platform::MacOs => Some("open"@),
        Platform::Other => None,
    }
}

impl Platform {
    /// The platform that goes by the name `os`, as the running system reports
    /// it.
    pub fn from_os_name(os: &str) -> (platform: Platform)
        ensures
            platform == platform_of(os@),
    {
        let os = String::from_str(os);
        if os == String::from_str("windows") {
            Platform::Windows
        } else if os == String::from_str("linux") {
            Platform::Linux
        } else if os == String::from_str("macos") {
            Platform::MacOs
        } else {
            Platform::Other
        }
    }

    /// The program that opens a folder on this platform.
    pub fn launcher(&self) -> (program: Option<&'static str>)
        ensures
            match program {
                Some(name) => launcher_of(*self) == Some(name@),
                None => launcher_of(*self) is None,
            },
    {
        match self {
            Platform::Windows => Some("explorer"),
            Platform::Linux => Some("xdg-open"),
            Platform::MacOs => Some("open"),
            Platform::Other => None,
        }
    }
}

/// One program to start, with a folder as its only argument.
#[derive(Debug, PartialEq, Eq)]
pub struct Launch {
    pub program: String,
    pub folder: ComponentPath,
}

impl Clone for Launch {
    fn clone(&self) -> (copy: Launch)
        ensures
            copy.program@ == self.program@,
            copy.folder@ == self.folder@,
    {
        Launch { program: self.program.clone(), folder: self.folder.clone() }
    }
}

/// What to start on `platform` to show the folder that holds `file`: the
/// platform's program with the parent of `file`, or nothing where the platform
/// has no such program. A file without a parent is a failure on every
/// platform.
pub fn folder_launch(platform: Platform, file: &ComponentPath) -> (plan: Result<
    Option<Launch>,
    Failure,
>)
    ensures
        match plan {
            Ok(Some(launch)) => {
                &&& file@.len() > 0
                &&& launcher_of(platform) == Some(launch.program@)
                &&& launch.folder@ == file@.drop_last()
            },
            Ok(None) => file@.len() > 0 && launcher_of(platform) is None,
            Err(failure) => file@.len() == 0 && failure == Failure::Path,
        },
{
    let folder = match file.parent() {
        Ok(folder) => folder,
        Err(failure) => { return Err(failure); },
    };
    match platform.launcher() {
        Some(program) => Ok(Some(Launch { program: String::from_str(program), folder })),
        None => Ok(None),
    }
}

} // verus!
