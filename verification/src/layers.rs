//! The layers of a new project: which they are, where each comes from and
//! where it goes, in which order the work on them is done, and what a
//! failure of that work means.

use vstd::prelude::*;
use vstd::string::StringExecFns;
use crate::qgis_api_wrapper::{project_file, project_file_of};

verus! {

/// How a layer is drawn.
#[derive(Clone, Copy, Debug, PartialEq, Eq, Structural)]
pub enum LayerStyle {
    /// Coloured by species, in the group of the vegetation.
    Vegetation,
    /// Drawn in black, in the group of the topography.
    Topography,
}

/// One layer to set up: what to take from which archive, and what to tell
/// QGIS about it.
#[derive(Clone, Debug, PartialEq, Eq)]
pub struct LayerJob {
    /// The database whose archive holds the layer.
    pub database: String,
    /// The folder of the layer inside the archive.
    pub layer_name: String,
    /// The folder below the projects' directory into which it is unpacked.
    pub extraction_folder: String,
    /// The name that unpacked entries must have to be kept, if only some are.
    pub filter: Option<String>,
    /// The file of the project that the layer is added to.
    pub project_file: String,
    /// The shapefile of the layer once it is unpacked.
    pub layer_path: String,
    /// The name of the layer in the project.
    pub layer_title: String,
    /// How the layer is drawn.
    pub style: LayerStyle,
}

/// The mathematical model of a [`LayerJob`].
pub struct LayerJobView {
    pub database: Seq<char>,
    pub layer_name: Seq<char>,
    pub extraction_folder: Seq<char>,
    pub filter: Option<Seq<char>>,
    pub project_file: Seq<char>,
    pub layer_path: Seq<char>,
    pub layer_title: Seq<char>,
    pub style: LayerStyle,
}

impl View for LayerJob {
    type V = LayerJobView;

    open spec fn view(&self) -> LayerJobView {
        LayerJobView {
            database: self.database@,
            layer_name: self.layer_name@,
            extraction_folder: self.extraction_folder@,
            filter: match self.filter {
                Some(text) => Some(text@),
                None => None,
            },
            project_file: self.project_file@,
            layer_path: self.layer_path@,
            layer_title: self.layer_title@,
            style: self.style,
        }
    }
}

/// The topographic layers of a project, in the order in which they are set
/// up.
pub const TOPO_LAYERS: [&'static str; 13] = [
    "TERRAIN_DE_SPORT",
    "RESERVOIR",
    "CONSTRUCTION_SURFACIQUE",
    "BATIMENT",
    "PLAN_D_EAU",
    "COURS_D_EAU",
    "ZONE_D_HABITATION",
    "TRONCON_DE_ROUTE",
    "TRONCON_DE_VOIE_FERREE",
    "PISTE_D_AERODROME",
    "ZONE_D_ESTRAN",
    "EQUIPEMENT_DE_TRANSPORT",
    "AERODROME",
];

/// The list of [`TOPO_LAYERS`].
pub open spec fn topo_layers() -> Seq<&'static str> {
    TOPO_LAYERS@
}

/// The job for the vegetation of the project `name`.
pub open spec fn vegetation_job_of(name: Seq<char>) -> LayerJobView {
    LayerJobView {
        database: "BDFORET"@,
        layer_name: "FORMATION_VEGETALE"@,
        extraction_folder: name + "/Vegetation"@,
        filter: None,
        project_file: project_file_of(name),
        layer_path: "resources/QGIS/"@ + name
            + "/Vegetation/FORMATION_VEGETALE/FORMATION_VEGETALE.shp"@,
        layer_title: "BDFORET"@,
        style: LayerStyle::Vegetation,
    }
}

/// The job for the topographic layer `layer` of the project `name`.
pub open spec fn topography_job_of(name: Seq<char>, layer: Seq<char>) -> LayerJobView {
    LayerJobView {
        database: "BDTOPO"@,
        layer_name: layer,
        extraction_folder: name + "/Topographie"@,
        filter: Some(layer),
        project_file: project_file_of(name),
        layer_path: "resources/QGIS/"@ + name + "/Topographie/"@ + layer + "/"@ + layer + ".shp"@,
        layer_title: layer,
        style: LayerStyle::Topography,
    }
}

/// Writes the job for the vegetation of a project.
pub fn vegetation_job(name: &str) -> (job: LayerJob)
    ensures
        job@ == vegetation_job_of(name@),
{
    let mut extraction_folder = name.to_owned();
    extraction_folder.append("/Vegetation");
    let mut layer_path = "resources/QGIS/".to_owned();
    layer_path.append(name);
    layer_path.append("/Vegetation/FORMATION_VEGETALE/FORMATION_VEGETALE.shp");
    LayerJob {
        database: "BDFORET".to_owned(),
        layer_name: "FORMATION_VEGETALE".to_owned(),
        extraction_folder,
        filter: None,
        project_file: project_file(name),
        layer_path,
        layer_title: "BDFORET".to_owned(),
        style: LayerStyle::Vegetation,
    }
}

/// Writes the job for one topographic layer of a project.
pub fn topography_job(name: &str, layer: &str) -> (job: LayerJob)
    ensures
        job@ == topography_job_of(name@, layer@),
{
    let mut extraction_folder = name.to_owned();
    extraction_folder.append("/Topographie");
    let mut layer_path = "resources/QGIS/".to_owned();
    layer_path.append(name);
    layer_path.append("/Topographie/");
    layer_path.append(layer);
    layer_path.append("/");
    layer_path.append(layer);
    layer_path.append(".shp");
    LayerJob {
        database: "BDTOPO".to_owned(),
        layer_name: layer.to_owned(),
        extraction_folder,
        filter: Some(layer.to_owned()),
        project_file: project_file(name),
        layer_path,
        layer_title: layer.to_owned(),
        style: LayerStyle::Topography,
    }
}

/// Lists the layers of the project `name` in the order in which they are set
/// up: the vegetation first, then the topographic layers.
pub fn prepare_layers(name: &str) -> (jobs: Vec<LayerJob>)
    ensures
        jobs@.len() == 1 + topo_layers().len(),
        jobs@[0]@ == vegetation_job_of(name@),
        forall|i: int|
            0 <= i < topo_layers().len() ==> (#[trigger] jobs@[i + 1])@ == topography_job_of(
                name@,
                topo_layers()[i]@,
            ),
{
    let layers = TOPO_LAYERS;
    let mut jobs: Vec<LayerJob> = Vec::with_capacity(layers.len() + 1);
    jobs.push(vegetation_job(name));
    let mut i: usize = 0;
    while i < layers.len()
        invariant
            i <= layers@.len(),
            layers@ == topo_layers(),
            jobs@.len() == i + 1,
            jobs@[0]@ == vegetation_job_of(name@),
            forall|k: int|
                0 <= k < i ==> (#[trigger] jobs@[k + 1])@ == topography_job_of(
                    name@,
                    topo_layers()[k]@,
                ),
        decreases layers@.len() - i,
    {
        jobs.push(topography_job(name, layers[i]));
        i += 1;
    }
    jobs
}

/// What is done with a layer, one phase after the other.
#[derive(Clone, Copy, Debug, PartialEq, Eq, Structural)]
pub enum LayerPhase {
    /// The layer is unpacked from its archive.
    Extract,
    /// The unpacked layer is added to the project.
    Load,
    /// The layer in the project is given its style.
    Style,
}

/// One piece of work on the layers: a phase of the job with the number `job`
/// in the list of [`prepare_layers`].
#[derive(Clone, Copy, Debug, PartialEq, Eq, Structural)]
pub struct LayerTask {
    pub job: usize,
    pub phase: LayerPhase,
}

/// What follows a piece of work on the layers.
#[derive(Clone, Debug, PartialEq, Eq)]
pub enum LayerStep {
    /// Do this next.
    Run(LayerTask),
    /// The preparation has failed; the text says where and why.
    Failed(String),
    /// Every layer is prepared.
    Done,
}

/// The number of jobs in the list of [`prepare_layers`].
pub open spec fn layer_count() -> int {
    1 + topo_layers().len() as int
}

/// How many pieces of work are left when `task` is about to be done and
/// nothing fails.
pub open spec fn tasks_left(task: LayerTask) -> int {
    3 * (layer_count() - task.job) - match task.phase {
        LayerPhase::Extract => 0int,
        LayerPhase::Load => 1int,
        LayerPhase::Style => 2int,
    }
}

/// The text that reports a phase that failed, from what the host says of
/// the failure. A failed styling is not reported.
pub open spec fn failure_text(phase: LayerPhase, report: Seq<char>) -> Seq<char> {
    match phase {
        LayerPhase::Extract => "Error extracting layer1: "@ + report,
        LayerPhase::Load => "Error loading layer to project: "@ + report,
        LayerPhase::Style => Seq::empty(),
    }
}

/// What follows `task`, given how it went: after an extraction or a load
/// that went well, the next phase of the same job; after one that failed,
/// the failure, and nothing more is done. After the styling, however it
/// went, the extraction of the next job, or the end after the last job.
pub open spec fn step_after(task: LayerTask, outcome: Result<(), Seq<char>>) -> Result<
    Option<LayerTask>,
    Seq<char>,
> {
    match task.phase {
        LayerPhase::Extract => match outcome {
            Ok(_) => Ok(Some(LayerTask { job: task.job, phase: LayerPhase::Load })),
            Err(report) => Err(failure_text(LayerPhase::Extract, report)),
        },
        LayerPhase::Load => match outcome {
            Ok(_) => Ok(Some(LayerTask { job: task.job, phase: LayerPhase::Style })),
            Err(report) => Err(failure_text(LayerPhase::Load, report)),
        },
        LayerPhase::Style => if task.job + 1 < layer_count() {
            Ok(Some(LayerTask { job: (task.job + 1) as usize, phase: LayerPhase::Extract }))
        } else {
            Ok(None)
        },
    }
}

/// The work with which the preparation of the layers begins: the
/// extraction of the first job.
pub fn first_layer_task() -> (task: LayerTask)
    ensures
        task == (LayerTask { job: 0, phase: LayerPhase::Extract }),
{
    LayerTask { job: 0, phase: LayerPhase::Extract }
}

/// Decides what follows a piece of work, as [`step_after`] says. `outcome`
/// is how the work went; for a failure it holds what the host says of it.
/// Each step that goes on brings the end nearer.
pub fn after_layer_task(task: LayerTask, outcome: Result<(), String>) -> (step: LayerStep)
    ensures
        match step_after(
            task,
            match outcome {
                Ok(_) => Ok(()),
                Err(report) => Err(report@),
            },
        ) {
            Ok(Some(next)) => step is Run && step->Run_0 == next,
            Ok(None) => step is Done,
            Err(text) => step is Failed && step->Failed_0@ == text,
        },
        step is Run && task.job < layer_count() ==> tasks_left(step->Run_0) + 1 == tasks_left(task),
{
    match task.phase {
        LayerPhase::Extract => match outcome {
            Ok(_) => LayerStep::Run(LayerTask { job: task.job, phase: LayerPhase::Load }),
            Err(report) => {
                let mut text = "Error extracting layer1: ".to_owned();
                text.append(report.as_str());
                LayerStep::Failed(text)
            },
        },
        LayerPhase::Load => match outcome {
            Ok(_) => LayerStep::Run(LayerTask { job: task.job, phase: LayerPhase::Style }),
            Err(report) => {
                let mut text = "Error loading layer to project: ".to_owned();
                text.append(report.as_str());
                LayerStep::Failed(text)
            },
        },
        LayerPhase::Style => if task.job < TOPO_LAYERS.len() {
            LayerStep::Run(LayerTask { job: task.job + 1, phase: LayerPhase::Extract })
        } else {
            LayerStep::Done
        },
    }
}

} // verus!
