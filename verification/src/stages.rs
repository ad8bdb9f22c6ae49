//! The stages in which a new project is opened, and what the user is told at
//! each.
//!
//! The work of a stage is the host's. A stage that fails ends the opening;
//! the stages decided here are those that follow a stage that went well.

use vstd::prelude::*;

verus! {

/// A stage of opening a new project.
#[derive(Clone, Copy, Debug, PartialEq, Eq, Structural)]
pub enum Stage {
    /// The links to the archives are looked up.
    FindFiles,
    /// The archives are downloaded.
    Download,
    /// QGIS is set up and the empty project is written.
    Initialise,
    /// The layers are unpacked and added to the project.
    PrepareLayers,
    /// Nothing is left to do.
    Finish,
}

impl Stage {
    /// What the user is told when the stage begins.
    pub open spec fn progress_of(self) -> Seq<char> {
        match self {
            Stage::FindFiles => "Recherche des fichiers"@,
            Stage::Download => "Téléchargement des données"@,
            Stage::Initialise => "Initialisation du projet"@,
            Stage::PrepareLayers => "Preparation des Couches"@,
            Stage::Finish => "Finalisation"@,
        }
    }

    /// The stage that follows this one, if one does.
    pub open spec fn successor(self) -> Option<Stage> {
        match self {
            Stage::FindFiles => Some(Stage::Download),
            Stage::Download => Some(Stage::Initialise),
            Stage::Initialise => Some(Stage::PrepareLayers),
            Stage::PrepareLayers => Some(Stage::Finish),
            Stage::Finish => None,
        }
    }

    /// How many stages follow this one.
    pub open spec fn remaining(self) -> nat {
        match self {
            Stage::FindFiles => 4,
            Stage::Download => 3,
            Stage::Initialise => 2,
            Stage::PrepareLayers => 1,
            Stage::Finish => 0,
        }
    }

    /// Says what the user is told when the stage begins.
    pub fn progress_message(&self) -> (text: &'static str)
        ensures
            text@ == self.progress_of(),
    {
        match self {
            Stage::FindFiles => "Recherche des fichiers",
            Stage::Download => "Téléchargement des données",
            Stage::Initialise => "Initialisation du projet",
            Stage::PrepareLayers => "Preparation des Couches",
            Stage::Finish => "Finalisation",
        }
    }

    /// The stage that follows this one once it has gone well. Each step
    /// brings the last stage nearer, so the opening ends.
    pub fn next(&self) -> (following: Option<Stage>)
        ensures
            following == self.successor(),
            following is Some ==> following->0.remaining() + 1 == self.remaining(),
            following is None <==> *self == Stage::Finish,
    {
        match self {
            Stage::FindFiles => Some(Stage::Download),
            Stage::Download => Some(Stage::Initialise),
            Stage::Initialise => Some(Stage::PrepareLayers),
            Stage::PrepareLayers => Some(Stage::Finish),
            Stage::Finish => None,
        }
    }
}

/// The stage with which the opening of a project begins.
pub fn first_stage() -> (stage: Stage)
    ensures
        stage == Stage::FindFiles,
{
    Stage::FindFiles
}

} // verus!
