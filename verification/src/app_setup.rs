//! What the map maker checks before it starts.

use vstd::prelude::*;
use crate::dependency::DependencyError;

verus! {

/// What the setup reports, given how its three steps went: the first step
/// that failed, with its text; or success where none failed.
pub open spec fn setup_report(
    project_directory: Result<(), String>,
    temporary_directory: Result<(), String>,
    dependencies: Result<(), DependencyError>,
) -> Result<(), Seq<char>> {
    if project_directory is Err {
        Err(project_directory->Err_0@)
    } else if temporary_directory is Err {
        Err(temporary_directory->Err_0@)
    } else if dependencies is Err {
        Err(dependencies->Err_0.message_of())
    } else {
        Ok(())
    }
}

/// Sums up the setup: the directory of the projects is made, then the
/// directory for downloads, then the dependencies are checked. The first
/// failure is the one reported. A missing 7-Zip has no text to report it
/// with, so it must not be the first failure.
pub fn setup_check(
    project_directory: Result<(), String>,
    temporary_directory: Result<(), String>,
    dependencies: Result<(), DependencyError>,
) -> (report: Result<(), String>)
    requires
        project_directory is Ok && temporary_directory is Ok && dependencies is Err
            ==> !(dependencies->Err_0 is SevenZipNotInstalled),
    ensures
        report is Ok <==> setup_report(project_directory, temporary_directory, dependencies) is Ok,
        report is Err ==> Err::<(), Seq<char>>(report->Err_0@) == setup_report(
            project_directory,
            temporary_directory,
            dependencies,
        ),
{
    match project_directory {
        Err(text) => {
            return Err(text);
        },
        Ok(()) => {},
    }
    match temporary_directory {
        Err(text) => {
            return Err(text);
        },
        Ok(()) => {},
    }
    match dependencies {
        Err(error) => Err(error.message()),
        Ok(()) => Ok(()),
    }
}

} // verus!
