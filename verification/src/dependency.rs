//! The programs the map maker relies on, and how their presence is checked.
//!
//! The check itself runs programs, which is left to the host. What is decided
//! here is the order of the probes, the command line of each, and what a
//! failed probe means.

use vstd::prelude::*;
use vstd::string::StringExecFns;

verus! {

/// A program or module that the map maker needs and that was not found.
#[derive(Clone, Debug, PartialEq, Eq)]
pub enum DependencyError {
    QgisNotInstalled,
    PythonNotInstalled,
    PythonModuleNotInstalled(String),
    SevenZipNotInstalled,
}

impl DependencyError {
    /// The text that reports this error. There is none for a missing 7-Zip.
    pub open spec fn message_of(self) -> Seq<char>
        recommends
            !(self is SevenZipNotInstalled),
    {
        match self {
            DependencyError::QgisNotInstalled => "QGIS is not installed"@,
            DependencyError::PythonNotInstalled => "Python is not installed"@,
            DependencyError::PythonModuleNotInstalled(module) => "Python module "@ + module@
                + " is not installed"@,
            DependencyError::SevenZipNotInstalled => Seq::empty(),
        }
    }

    /// Writes the text that reports this error.
    pub fn message(&self) -> (text: String)
        requires
            !(self is SevenZipNotInstalled),
        ensures
            text@ == self.message_of(),
    {
        match self {
            DependencyError::QgisNotInstalled => "QGIS is not installed".to_owned(),
            DependencyError::PythonNotInstalled => "Python is not installed".to_owned(),
            DependencyError::PythonModuleNotInstalled(module) => {
                let mut text = "Python module ".to_owned();
                text.append(module.as_str());
                text.append(" is not installed");
                text
            },
            DependencyError::SevenZipNotInstalled => String::new(),
        }
    }
}

/// One probe of the check: a program is started, and the host reports what
/// became of it.
#[derive(Clone, Copy, Debug, PartialEq, Eq, Structural)]
pub enum Probe {
    /// Is QGIS there?
    Qgis,
    /// Is Python there?
    Python,
    /// Can Python import `qgis.core`?
    QgisCoreModule,
    /// Can Python import `qgis.gui`?
    QgisGuiModule,
    /// Is 7-Zip there?
    SevenZip,
}

/// What the host saw of a probe: whether the program could be started at
/// all, and whether it ended with success.
#[derive(Clone, Copy, Debug, PartialEq, Eq, Structural)]
pub struct ProbeOutcome {
    pub started: bool,
    pub succeeded: bool,
}

/// What follows a probe.
#[derive(Clone, Debug, PartialEq, Eq)]
pub enum Step {
    /// Run this probe next.
    Run(Probe),
    /// The check has failed, for this reason.
    Failed(DependencyError),
    /// Every probe has passed.
    Done,
}

/// A program and the arguments it is started with.
#[derive(Clone, Debug, PartialEq, Eq)]
pub struct CommandLine {
    pub program: String,
    pub arguments: Vec<String>,
}

impl Probe {
    /// The Python module that the probe imports, if it imports one.
    pub open spec fn module_of(self) -> Option<Seq<char>> {
        match self {
            Probe::QgisCoreModule => Some("qgis.core"@),
            Probe::QgisGuiModule => Some("qgis.gui"@),
            _ => None,
        }
    }

    /// Whether the outcome lets the probe pass. A program passes when it
    /// could be started; an import must also end with success.
    pub open spec fn passes(self, outcome: ProbeOutcome) -> bool {
        match self {
            Probe::QgisCoreModule | Probe::QgisGuiModule => outcome.started && outcome.succeeded,
            _ => outcome.started,
        }
    }

    /// The probe that follows this one when it has passed, if one does.
    pub open spec fn successor(self) -> Option<Probe> {
        match self {
            Probe::Qgis => Some(Probe::Python),
            Probe::Python => Some(Probe::QgisCoreModule),
            Probe::QgisCoreModule => Some(Probe::QgisGuiModule),
            Probe::QgisGuiModule => Some(Probe::SevenZip),
            Probe::SevenZip => None,
        }
    }

    /// The program that the probe starts. On Windows the programs go by
    /// other names.
    pub open spec fn program_of(self, windows: bool) -> Seq<char> {
        match self {
            Probe::Qgis => if windows {
                "qgis-bin.exe"@
            } else {
                "qgis"@
            },
            Probe::Python | Probe::QgisCoreModule | Probe::QgisGuiModule => if windows {
                "python"@
            } else {
                "python3"@
            },
            Probe::SevenZip => if windows {
                "7z.exe"@
            } else {
                "7z"@
            },
        }
    }

    /// The arguments that the probe hands to its program.
    pub open spec fn arguments_of(self) -> Seq<Seq<char>> {
        match self {
            Probe::Qgis | Probe::Python => seq!["--version"@],
            Probe::QgisCoreModule => seq!["-c"@, "import "@ + "qgis.core"@],
            Probe::QgisGuiModule => seq!["-c"@, "import "@ + "qgis.gui"@],
            Probe::SevenZip => seq!["--help"@],
        }
    }
}

/// The error that a failed probe stands for.
pub open spec fn failure_of(probe: Probe, error: DependencyError) -> bool {
    match probe {
        Probe::Qgis => error is QgisNotInstalled,
        Probe::Python => error is PythonNotInstalled,
        Probe::QgisCoreModule | Probe::QgisGuiModule => error is PythonModuleNotInstalled
            && Some(error->PythonModuleNotInstalled_0@) == probe.module_of(),
        Probe::SevenZip => error is SevenZipNotInstalled,
    }
}

/// The probe with which the check begins.
pub fn first_probe() -> (probe: Probe)
    ensures
        probe == Probe::Qgis,
{
    Probe::Qgis
}

/// The command line of a probe.
pub fn probe_command(probe: Probe, windows: bool) -> (command: CommandLine)
    ensures
        command.program@ == probe.program_of(windows),
        command.arguments@.len() == probe.arguments_of().len(),
        forall|i: int|
            0 <= i < command.arguments@.len() ==> (#[trigger] command.arguments@[i])@
                == probe.arguments_of()[i],
{
    let program = match probe {
        Probe::Qgis => if windows {
            "qgis-bin.exe"
        } else {
            "qgis"
        },
        Probe::Python | Probe::QgisCoreModule | Probe::QgisGuiModule => if windows {
            "python"
        } else {
            "python3"
        },
        Probe::SevenZip => if windows {
            "7z.exe"
        } else {
            "7z"
        },
    };
    let mut arguments: Vec<String> = Vec::new();
    match probe {
        Probe::Qgis | Probe::Python => {
            arguments.push("--version".to_owned());
        },
        Probe::QgisCoreModule => {
            arguments.push("-c".to_owned());
            let mut import = "import ".to_owned();
            import.append("qgis.core");
            arguments.push(import);
        },
        Probe::QgisGuiModule => {
            arguments.push("-c".to_owned());
            let mut import = "import ".to_owned();
            import.append("qgis.gui");
            arguments.push(import);
        },
        Probe::SevenZip => {
            arguments.push("--help".to_owned());
        },
    }
    CommandLine { program: program.to_owned(), arguments }
}

/// Decides what follows a probe: after a probe that has passed, the next
/// probe, or the end of the check after the last one; after a probe that has
/// not passed, the failure it stands for. No probe is run after a failure.
pub fn after_probe(probe: Probe, outcome: ProbeOutcome) -> (step: Step)
    ensures
        probe.passes(outcome) ==> match probe.successor() {
            Some(next) => step is Run && step->Run_0 == next,
            None => step is Done,
        },
        !probe.passes(outcome) ==> step is Failed && failure_of(probe, step->Failed_0),
{
    match probe {
        Probe::Qgis => if outcome.started {
            Step::Run(Probe::Python)
        } else {
            Step::Failed(DependencyError::QgisNotInstalled)
        },
        Probe::Python => if outcome.started {
            Step::Run(Probe::QgisCoreModule)
        } else {
            Step::Failed(DependencyError::PythonNotInstalled)
        },
        Probe::QgisCoreModule => if outcome.started && outcome.succeeded {
            Step::Run(Probe::QgisGuiModule)
        } else {
            Step::Failed(DependencyError::PythonModuleNotInstalled("qgis.core".to_owned()))
        },
        Probe::QgisGuiModule => if outcome.started && outcome.succeeded {
            Step::Run(Probe::SevenZip)
        } else {
            Step::Failed(DependencyError::PythonModuleNotInstalled("qgis.gui".to_owned()))
        },
        Probe::SevenZip => if outcome.started {
            Step::Done
        } else {
            Step::Failed(DependencyError::SevenZipNotInstalled)
        },
    }
}

} // verus!
