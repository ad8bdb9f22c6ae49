//! What the map maker asks of QGIS.
//!
//! QGIS is driven by Python programs. Running them is left to the host; here
//! each request is put together: the program, and the text that reports its
//! success.

use vstd::prelude::*;
use vstd::string::StringExecFns;
use crate::text::same_text;

verus! {

/// A request to QGIS: the Python program to run, and what to report when it
/// has run without error.
#[derive(Clone, Debug, PartialEq, Eq)]
pub struct QgisRequest {
    pub code: String,
    pub success_message: String,
}

/// The mathematical model of a [`QgisRequest`].
pub struct QgisRequestView {
    pub code: Seq<char>,
    pub success_message: Seq<char>,
}

impl View for QgisRequest {
    type V = QgisRequestView;

    open spec fn view(&self) -> QgisRequestView {
        QgisRequestView { code: self.code@, success_message: self.success_message@ }
    }
}

/// Where QGIS keeps its settings below the user's home directory, for the
/// operating systems on which the map maker runs.
pub open spec fn qgis_app_path_of(os: Seq<char>) -> Option<Seq<char>> {
    if os == "windows"@ {
        Some("AppData\\Roaming\\QGIS\\QGIS3"@)
    } else if os == "linux"@ {
        Some(".local/share/QGIS/QGIS3"@)
    } else if os == "macos"@ {
        Some("Library/Application Support/QGIS/QGIS3"@)
    } else {
        None
    }
}

/// Looks up where QGIS keeps its settings on the operating system `os`.
pub fn get_qgis_app_path(os: &str) -> (path: Option<&'static str>)
    ensures
        path is Some <==> qgis_app_path_of(os@) is Some,
        path is Some ==> Some(path->0@) == qgis_app_path_of(os@),
{
    if same_text(os, "windows") {
        Some("AppData\\Roaming\\QGIS\\QGIS3")
    } else if same_text(os, "linux") {
        Some(".local/share/QGIS/QGIS3")
    } else if same_text(os, "macos") {
        Some("Library/Application Support/QGIS/QGIS3")
    } else {
        None
    }
}

/// The folder of a project.
pub open spec fn project_folder_of(project_name: Seq<char>) -> Seq<char> {
    "resources/QGIS/"@ + project_name
}

/// The file of a project, inside its folder.
pub open spec fn project_file_of(project_name: Seq<char>) -> Seq<char> {
    project_folder_of(project_name) + "/"@ + project_name + ".qgz"@
}

/// Writes the path of a project's folder.
pub fn project_folder(project_name: &str) -> (path: String)
    ensures
        path@ == project_folder_of(project_name@),
{
    let mut path = "resources/QGIS/".to_owned();
    path.append(project_name);
    path
}

/// Writes the path of a project's file.
pub fn project_file(project_name: &str) -> (path: String)
    ensures
        path@ == project_file_of(project_name@),
{
    let mut path = project_folder(project_name);
    path.append("/");
    path.append(project_name);
    path.append(".qgz");
    path
}

/// Part 1 of the program of [`initialize_qgis_app_path`].
pub const INITIALIZE_QGIS_APP_PATH_PART_1: &'static str = r#"
from qgis.core import QgsApplication
QgsApplication.setPrefixPath(""#;

/// Part 2 of the program of [`initialize_qgis_app_path`].
pub const INITIALIZE_QGIS_APP_PATH_PART_2: &'static str = r#"", True)
"#;

/// The program that tells QGIS where its settings are.
pub open spec fn initialize_qgis_app_path_code(path: Seq<char>) -> Seq<char> {
    INITIALIZE_QGIS_APP_PATH_PART_1@
        + path
        + INITIALIZE_QGIS_APP_PATH_PART_2@
}

/// Asks QGIS to take its settings from where the operating system `os` keeps
/// them. There is no such request for an operating system that the map maker
/// does not run on.
pub fn initialize_qgis_app_path(os: &str) -> (request: Option<QgisRequest>)
    ensures
        request is Some <==> qgis_app_path_of(os@) is Some,
        request is Some ==> request->0@ == (QgisRequestView {
            code: initialize_qgis_app_path_code(qgis_app_path_of(os@)->0),
            success_message: "QGIS app path initialized"@,
        }),
{
    match get_qgis_app_path(os) {
        None => None,
        Some(path) => {
            let mut code = INITIALIZE_QGIS_APP_PATH_PART_1.to_owned();
            code.append(path);
            code.append(INITIALIZE_QGIS_APP_PATH_PART_2);
            Some(QgisRequest { code, success_message: "QGIS app path initialized".to_owned() })
        },
    }
}

/// Part 1 of the program of [`create_blank_project`].
pub const CREATE_BLANK_PROJECT_PART_1: &'static str = r#"
from qgis.core import QgsProject
project = QgsProject.instance()
project.clear()
project.write(""#;

/// Part 2 of the program of [`create_blank_project`].
pub const CREATE_BLANK_PROJECT_PART_2: &'static str = r#"")
"#;

/// The program of [`create_blank_project`].
pub open spec fn create_blank_project_code(project_name: Seq<char>) -> Seq<char> {
    CREATE_BLANK_PROJECT_PART_1@
        + project_file_of(project_name)
        + CREATE_BLANK_PROJECT_PART_2@
}

/// What [`create_blank_project`] reports on success.
pub open spec fn create_blank_project_message(project_name: Seq<char>) -> Seq<char> {
    "Project "@
        + project_name
        + " created at "@
        + project_folder_of(project_name)
}

/// Asks QGIS for an empty project, written to the project's file in the project's
/// folder. The folder itself is the host's to make.
pub fn create_blank_project(project_name: &str) -> (request: QgisRequest)
    ensures
        request.code@ == create_blank_project_code(project_name@),
        request.success_message@ == create_blank_project_message(project_name@),
{
    let folder = project_folder(project_name);
    let file = project_file(project_name);
    let mut code = CREATE_BLANK_PROJECT_PART_1.to_owned();
    code.append(file.as_str());
    code.append(CREATE_BLANK_PROJECT_PART_2);
    let mut success_message = "Project ".to_owned();
    success_message.append(project_name);
    success_message.append(" created at ");
    success_message.append(folder.as_str());
    QgisRequest { code, success_message }
}

/// Part 1 of the program of [`load_vector_layer_to_project`].
pub const LOAD_VECTOR_LAYER_TO_PROJECT_PART_1: &'static str = r#"
from qgis.core import QgsProject, QgsVectorLayer
project = QgsProject.instance()
project.read(""#;

/// Part 2 of the program of [`load_vector_layer_to_project`].
pub const LOAD_VECTOR_LAYER_TO_PROJECT_PART_2: &'static str = r#"")
layer = QgsVectorLayer(""#;

/// Part 3 of the program of [`load_vector_layer_to_project`].
pub const LOAD_VECTOR_LAYER_TO_PROJECT_PART_3: &'static str = r#"", ""#;

/// Part 4 of the program of [`load_vector_layer_to_project`].
pub const LOAD_VECTOR_LAYER_TO_PROJECT_PART_4: &'static str = r#"", "ogr")
if not layer.isValid():
    raise Exception("Layer not valid")
else:
    project.addMapLayer(layer)
project.write(project.fileName())
"#;

/// The program of [`load_vector_layer_to_project`].
pub open spec fn load_vector_layer_to_project_code(project_name: Seq<char>, layer_path: Seq<char>, layer_name: Seq<char>) -> Seq<char> {
    LOAD_VECTOR_LAYER_TO_PROJECT_PART_1@
        + project_name
        + LOAD_VECTOR_LAYER_TO_PROJECT_PART_2@
        + layer_path
        + LOAD_VECTOR_LAYER_TO_PROJECT_PART_3@
        + layer_name
        + LOAD_VECTOR_LAYER_TO_PROJECT_PART_4@
}

/// What [`load_vector_layer_to_project`] reports on success.
pub open spec fn load_vector_layer_to_project_message(project_name: Seq<char>, layer_path: Seq<char>, layer_name: Seq<char>) -> Seq<char> {
    "Layer "@
        + layer_name
        + " loaded to project "@
        + project_name
}

/// Asks QGIS to add the vector layer stored at `layer_path` to a project, under the
/// name `layer_name`.
pub fn load_vector_layer_to_project(project_name: &str, layer_path: &str, layer_name: &str) -> (request: QgisRequest)
    ensures
        request.code@ == load_vector_layer_to_project_code(project_name@, layer_path@, layer_name@),
        request.success_message@ == load_vector_layer_to_project_message(project_name@, layer_path@, layer_name@),
{
    let mut code = LOAD_VECTOR_LAYER_TO_PROJECT_PART_1.to_owned();
    code.append(project_name);
    code.append(LOAD_VECTOR_LAYER_TO_PROJECT_PART_2);
    code.append(layer_path);
    code.append(LOAD_VECTOR_LAYER_TO_PROJECT_PART_3);
    code.append(layer_name);
    code.append(LOAD_VECTOR_LAYER_TO_PROJECT_PART_4);
    let mut success_message = "Layer ".to_owned();
    success_message.append(layer_name);
    success_message.append(" loaded to project ");
    success_message.append(project_name);
    QgisRequest { code, success_message }
}

/// Part 1 of the program of [`create_tree_group`].
pub const CREATE_TREE_GROUP_PART_1: &'static str = r#"
from qgis.core import QgsProject, QgsLayerTreeGroup
project = QgsProject.instance()
project.read(""#;

/// Part 2 of the program of [`create_tree_group`].
pub const CREATE_TREE_GROUP_PART_2: &'static str = r#"")
root = project.layerTreeRoot()
group = root.addGroup("combustion")
group.addGroup("BDTOPO")
group.addGroup("Vegetation")
project.write(project.fileName())
"#;

/// The program of [`create_tree_group`].
pub open spec fn create_tree_group_code(project_name: Seq<char>) -> Seq<char> {
    CREATE_TREE_GROUP_PART_1@
        + project_name
        + CREATE_TREE_GROUP_PART_2@
}

/// What [`create_tree_group`] reports on success.
pub open spec fn create_tree_group_message(project_name: Seq<char>) -> Seq<char> {
    "Group 'combustion' created in project "@
        + project_name
}

/// Asks QGIS for the group `combustion` of a project, with its two subgroups.
pub fn create_tree_group(project_name: &str) -> (request: QgisRequest)
    ensures
        request.code@ == create_tree_group_code(project_name@),
        request.success_message@ == create_tree_group_message(project_name@),
{
    let mut code = CREATE_TREE_GROUP_PART_1.to_owned();
    code.append(project_name);
    code.append(CREATE_TREE_GROUP_PART_2);
    let mut success_message = "Group 'combustion' created in project ".to_owned();
    success_message.append(project_name);
    QgisRequest { code, success_message }
}

/// Part 1 of the program of [`setup_basic_veg_layer`].
pub const SETUP_BASIC_VEG_LAYER_PART_1: &'static str = r#"
from qgis.core import QgsProject, QgsCategorizedSymbolRenderer, QgsField, QgsFillSymbol, QgsRendererCategory, QgsLayerTreeGroup
from qgis.PyQt.QtGui import QColor

project = QgsProject.instance()
project.read(""#;

/// Part 2 of the program of [`setup_basic_veg_layer`].
pub const SETUP_BASIC_VEG_LAYER_PART_2: &'static str = r#"")

layer = project.mapLayersByName(""#;

/// Part 3 of the program of [`setup_basic_veg_layer`].
pub const SETUP_BASIC_VEG_LAYER_PART_3: &'static str = r#"")
if not layer:
    raise Exception("Layer not found")
layer = layer[0]

root = project.layerTreeRoot()
combustion_group = root.findGroup('combustion')
vegetation_group = combustion_group.findGroup('Vegetation')

if not vegetation_group:
    raise Exception("Group 'Vegetation' not found")
layer_node = root.findLayer(layer.id())
if layer_node:
    parent = layer_node.parent()
    parent.removeChildNode(layer_node)

vegetation_group.addLayer(layer)
essence_field_index = layer.fields().indexFromName('ESSENCE')
if essence_field_index == -1:
    raise Exception("'ESSENCE' field not found")

unique_values = layer.uniqueValues(essence_field_index)

categories = []
for value in unique_values:
    if str(value) in ['Feuillus', 'Châtaignier', 'Chênes sempervirents', 'Chênes décidus', 'Hêtre']:
        symbol = QgsFillSymbol.createSimple({'color': '80,200,120,255', 'outline_style': 'no'})
    elif str(value) in ['NC', 'NR']:
        symbol = QgsFillSymbol.createSimple({'color': '25,50,60,255', 'outline_style': 'no'})
    else:
        symbol = QgsFillSymbol.createSimple({'color': '50,200,80,255', 'outline_style': 'no'})
    category = QgsRendererCategory(value, symbol, str(value))
    categories.append(category)

renderer = QgsCategorizedSymbolRenderer('ESSENCE', categories)
layer.setRenderer(renderer)
layer.triggerRepaint()
project.write(project.fileName())
"#;

/// The program of [`setup_basic_veg_layer`].
pub open spec fn setup_basic_veg_layer_code(project_name: Seq<char>, layer_name: Seq<char>) -> Seq<char> {
    SETUP_BASIC_VEG_LAYER_PART_1@
        + project_name
        + SETUP_BASIC_VEG_LAYER_PART_2@
        + layer_name
        + SETUP_BASIC_VEG_LAYER_PART_3@
}

/// What [`setup_basic_veg_layer`] reports on success.
pub open spec fn setup_basic_veg_layer_message(project_name: Seq<char>, layer_name: Seq<char>) -> Seq<char> {
    "Layer "@
        + layer_name
        + " in project "@
        + project_name
        + " categorized by ESSENCE, moved to 'combustion' group, and processed successfully"@
}

/// Asks QGIS to move the vegetation layer into its group and to colour it by
/// species.
pub fn setup_basic_veg_layer(project_name: &str, layer_name: &str) -> (request: QgisRequest)
    ensures
        request.code@ == setup_basic_veg_layer_code(project_name@, layer_name@),
        request.success_message@ == setup_basic_veg_layer_message(project_name@, layer_name@),
{
    let mut code = SETUP_BASIC_VEG_LAYER_PART_1.to_owned();
    code.append(project_name);
    code.append(SETUP_BASIC_VEG_LAYER_PART_2);
    code.append(layer_name);
    code.append(SETUP_BASIC_VEG_LAYER_PART_3);
    let mut success_message = "Layer ".to_owned();
    success_message.append(layer_name);
    success_message.append(" in project ");
    success_message.append(project_name);
    success_message.append(" categorized by ESSENCE, moved to 'combustion' group, and processed successfully");
    QgisRequest { code, success_message }
}

/// Part 1 of the program of [`setup_basic_topo_layer`].
pub const SETUP_BASIC_TOPO_LAYER_PART_1: &'static str = r#"
from qgis.core import QgsProject, QgsSimpleLineSymbolLayer, QgsSimpleFillSymbolLayer, QgsSymbol, QgsLayerTreeGroup
from qgis.PyQt.QtGui import QColor

project = QgsProject.instance()
project.read(""#;

/// Part 2 of the program of [`setup_basic_topo_layer`].
pub const SETUP_BASIC_TOPO_LAYER_PART_2: &'static str = r#"")
layer = project.mapLayersByName(""#;

/// Part 3 of the program of [`setup_basic_topo_layer`].
pub const SETUP_BASIC_TOPO_LAYER_PART_3: &'static str = r#"")
if not layer:
    raise Exception(f"Layer '"#;

/// Part 4 of the program of [`setup_basic_topo_layer`].
pub const SETUP_BASIC_TOPO_LAYER_PART_4: &'static str = r#"' not found in the project '"#;

/// Part 5 of the program of [`setup_basic_topo_layer`].
pub const SETUP_BASIC_TOPO_LAYER_PART_5: &'static str = r#"'")
layer = layer[0]

root = project.layerTreeRoot()
combustion_group = root.findGroup('combustion')
bdtopo_group = combustion_group.findGroup('BDTOPO')

if not bdtopo_group:
    raise Exception("Group 'BDTOPO' not found")

layer_node = root.findLayer(layer.id())
if layer_node:
    current_parent = layer_node.parent()
    current_parent.removeChildNode(layer_node)
    bdtopo_group.addLayer(layer)
try:
    if layer.name() in ["COURS_D_EAU", "TRONCON_DE_ROUTE", "TRONCON_DE_VOIE_FERREE"]:
        symbol = QgsSymbol.defaultSymbol(layer.geometryType())
        symbol.deleteSymbolLayer(0)
        symbol_layer = QgsSimpleLineSymbolLayer.create({'color': '0,0,0,255', 'width': '0,46000'})
        if symbol_layer:
            symbol.appendSymbolLayer(symbol_layer)
        else:
            raise Exception("Failed to create line symbol layer")
    else:
        symbol = QgsSymbol.defaultSymbol(layer.geometryType())
        symbol.deleteSymbolLayer(0)
        symbol_layer = QgsSimpleFillSymbolLayer.create({'color': '0,0,0,255', 'outline_style': 'no'})
        if symbol_layer:
            symbol.appendSymbolLayer(symbol_layer)
        else:
            raise Exception("Failed to create fill symbol layer")
    layer.renderer().setSymbol(symbol)
    layer.triggerRepaint()
    print(f"Styling applied to the layer '"#;

/// Part 6 of the program of [`setup_basic_topo_layer`].
pub const SETUP_BASIC_TOPO_LAYER_PART_6: &'static str = r#"'.")
except Exception as e:
    raise Exception(f"Error applying styling to layer '"#;

/// Part 7 of the program of [`setup_basic_topo_layer`].
pub const SETUP_BASIC_TOPO_LAYER_PART_7: &'static str = r#"': {str(e)}")
project.write(project.fileName())
"#;

/// The program of [`setup_basic_topo_layer`].
pub open spec fn setup_basic_topo_layer_code(project_name: Seq<char>, layer_name: Seq<char>) -> Seq<char> {
    SETUP_BASIC_TOPO_LAYER_PART_1@
        + project_name
        + SETUP_BASIC_TOPO_LAYER_PART_2@
        + layer_name
        + SETUP_BASIC_TOPO_LAYER_PART_3@
        + layer_name
        + SETUP_BASIC_TOPO_LAYER_PART_4@
        + project_name
        + SETUP_BASIC_TOPO_LAYER_PART_5@
        + layer_name
        + SETUP_BASIC_TOPO_LAYER_PART_6@
        + layer_name
        + SETUP_BASIC_TOPO_LAYER_PART_7@
}

/// What [`setup_basic_topo_layer`] reports on success.
pub open spec fn setup_basic_topo_layer_message(project_name: Seq<char>, layer_name: Seq<char>) -> Seq<char> {
    "Layer '"@
        + layer_name
        + "' in project '"@
        + project_name
        + "' categorized and moved to group 'combustion/BDTOPO' successfully."@
}

/// Asks QGIS to move a topographic layer into its group and to draw it in black.
pub fn setup_basic_topo_layer(project_name: &str, layer_name: &str) -> (request: QgisRequest)
    ensures
        request.code@ == setup_basic_topo_layer_code(project_name@, layer_name@),
        request.success_message@ == setup_basic_topo_layer_message(project_name@, layer_name@),
{
    let mut code = SETUP_BASIC_TOPO_LAYER_PART_1.to_owned();
    code.append(project_name);
    code.append(SETUP_BASIC_TOPO_LAYER_PART_2);
    code.append(layer_name);
    code.append(SETUP_BASIC_TOPO_LAYER_PART_3);
    code.append(layer_name);
    code.append(SETUP_BASIC_TOPO_LAYER_PART_4);
    code.append(project_name);
    code.append(SETUP_BASIC_TOPO_LAYER_PART_5);
    code.append(layer_name);
    code.append(SETUP_BASIC_TOPO_LAYER_PART_6);
    code.append(layer_name);
    code.append(SETUP_BASIC_TOPO_LAYER_PART_7);
    let mut success_message = "Layer '".to_owned();
    success_message.append(layer_name);
    success_message.append("' in project '");
    success_message.append(project_name);
    success_message.append("' categorized and moved to group 'combustion/BDTOPO' successfully.");
    QgisRequest { code, success_message }
}

/// Part 1 of the program of [`edit_layer_field_color`].
pub const EDIT_LAYER_FIELD_COLOR_PART_1: &'static str = r#"
from qgis.core import QgsProject, QgsCategorizedSymbolRenderer, QgsRendererCategory, QgsFillSymbol
from qgis.PyQt.QtGui import QColor
project = QgsProject.instance()
project.read(""#;

/// Part 2 of the program of [`edit_layer_field_color`].
pub const EDIT_LAYER_FIELD_COLOR_PART_2: &'static str = r#"")
layer = project.mapLayersByName(""#;

/// Part 3 of the program of [`edit_layer_field_color`].
pub const EDIT_LAYER_FIELD_COLOR_PART_3: &'static str = r#"")
if not layer:
    raise Exception("Layer not found")
layer = layer[0]
category_field_index = layer.fields().indexFromName(""#;

/// Part 4 of the program of [`edit_layer_field_color`].
pub const EDIT_LAYER_FIELD_COLOR_PART_4: &'static str = r#"")
if category_field_index == -1:
    raise Exception("Category field not found")
unique_values = layer.uniqueValues(category_field_index)
categories = []
for value in unique_values:
    if str(value) == ""#;

/// Part 5 of the program of [`edit_layer_field_color`].
pub const EDIT_LAYER_FIELD_COLOR_PART_5: &'static str = r#"":
        symbol = QgsFillSymbol.createSimple({'color': '"#;

/// Part 6 of the program of [`edit_layer_field_color`].
pub const EDIT_LAYER_FIELD_COLOR_PART_6: &'static str = r#"', 'outline_style': 'no'})
    else:
        symbol = QgsFillSymbol.createSimple({'color': '50,200,80,255', 'outline_style': 'no'})
    category = QgsRendererCategory(value, symbol, str(value))
    categories.append(category)

renderer = QgsCategorizedSymbolRenderer('"#;

/// Part 7 of the program of [`edit_layer_field_color`].
pub const EDIT_LAYER_FIELD_COLOR_PART_7: &'static str = r#"', categories)
layer.setRenderer(renderer)
layer.triggerRepaint()
project.write(project.fileName())
"#;

/// The program of [`edit_layer_field_color`].
pub open spec fn edit_layer_field_color_code(project_name: Seq<char>, layer_name: Seq<char>, category: Seq<char>, field_name: Seq<char>, color: Seq<char>) -> Seq<char> {
    EDIT_LAYER_FIELD_COLOR_PART_1@
        + project_name
        + EDIT_LAYER_FIELD_COLOR_PART_2@
        + layer_name
        + EDIT_LAYER_FIELD_COLOR_PART_3@
        + category
        + EDIT_LAYER_FIELD_COLOR_PART_4@
        + field_name
        + EDIT_LAYER_FIELD_COLOR_PART_5@
        + color
        + EDIT_LAYER_FIELD_COLOR_PART_6@
        + category
        + EDIT_LAYER_FIELD_COLOR_PART_7@
}

/// What [`edit_layer_field_color`] reports on success.
pub open spec fn edit_layer_field_color_message(project_name: Seq<char>, layer_name: Seq<char>, category: Seq<char>, field_name: Seq<char>, color: Seq<char>) -> Seq<char> {
    "Field color for "@
        + field_name
        + " in layer "@
        + layer_name
        + " in project "@
        + project_name
        + " updated to "@
        + color
        + " for category "@
        + category
}

/// Asks QGIS to draw one value of a category of a layer in the colour `color`.
pub fn edit_layer_field_color(project_name: &str, layer_name: &str, category: &str, field_name: &str, color: &str) -> (request: QgisRequest)
    ensures
        request.code@ == edit_layer_field_color_code(project_name@, layer_name@, category@, field_name@, color@),
        request.success_message@ == edit_layer_field_color_message(project_name@, layer_name@, category@, field_name@, color@),
{
    let mut code = EDIT_LAYER_FIELD_COLOR_PART_1.to_owned();
    code.append(project_name);
    code.append(EDIT_LAYER_FIELD_COLOR_PART_2);
    code.append(layer_name);
    code.append(EDIT_LAYER_FIELD_COLOR_PART_3);
    code.append(category);
    code.append(EDIT_LAYER_FIELD_COLOR_PART_4);
    code.append(field_name);
    code.append(EDIT_LAYER_FIELD_COLOR_PART_5);
    code.append(color);
    code.append(EDIT_LAYER_FIELD_COLOR_PART_6);
    code.append(category);
    code.append(EDIT_LAYER_FIELD_COLOR_PART_7);
    let mut success_message = "Field color for ".to_owned();
    success_message.append(field_name);
    success_message.append(" in layer ");
    success_message.append(layer_name);
    success_message.append(" in project ");
    success_message.append(project_name);
    success_message.append(" updated to ");
    success_message.append(color);
    success_message.append(" for category ");
    success_message.append(category);
    QgisRequest { code, success_message }
}

/// Part 1 of the program of [`get_layer_fields_by_category`].
pub const GET_LAYER_FIELDS_BY_CATEGORY_PART_1: &'static str = r#"
from qgis.core import QgsProject
project = QgsProject.instance()
project.read(""#;

/// Part 2 of the program of [`get_layer_fields_by_category`].
pub const GET_LAYER_FIELDS_BY_CATEGORY_PART_2: &'static str = r#"")
layer = project.mapLayersByName(""#;

/// Part 3 of the program of [`get_layer_fields_by_category`].
pub const GET_LAYER_FIELDS_BY_CATEGORY_PART_3: &'static str = r#"")
if not layer:
    raise Exception("Layer not found")
layer = layer[0]
category_field_index = layer.fields().indexFromName(""#;

/// Part 4 of the program of [`get_layer_fields_by_category`].
pub const GET_LAYER_FIELDS_BY_CATEGORY_PART_4: &'static str = r#"")
if category_field_index == -1:
    raise Exception("Category field not found")
unique_values = list(layer.uniqueValues(category_field_index))
unique_values
"#;

/// The program of [`get_layer_fields_by_category`].
pub open spec fn get_layer_fields_by_category_code(project_name: Seq<char>, layer_name: Seq<char>, category: Seq<char>) -> Seq<char> {
    GET_LAYER_FIELDS_BY_CATEGORY_PART_1@
        + project_name
        + GET_LAYER_FIELDS_BY_CATEGORY_PART_2@
        + layer_name
        + GET_LAYER_FIELDS_BY_CATEGORY_PART_3@
        + category
        + GET_LAYER_FIELDS_BY_CATEGORY_PART_4@
}

/// Writes the program that asks QGIS for the values that one category of a
/// layer takes. The program leaves them in its variable `unique_values`, where
/// the host finds them.
pub fn get_layer_fields_by_category(project_name: &str, layer_name: &str, category: &str) -> (code:
    String)
    ensures
        code@ == get_layer_fields_by_category_code(project_name@, layer_name@, category@),
{
    let mut code = GET_LAYER_FIELDS_BY_CATEGORY_PART_1.to_owned();
    code.append(project_name);
    code.append(GET_LAYER_FIELDS_BY_CATEGORY_PART_2);
    code.append(layer_name);
    code.append(GET_LAYER_FIELDS_BY_CATEGORY_PART_3);
    code.append(category);
    code.append(GET_LAYER_FIELDS_BY_CATEGORY_PART_4);
    code
}

/// Where an exported map is written.
pub open spec fn export_image_path_of(output_image_name: Seq<char>) -> Seq<char> {
    "resources/QGIS/"@ + output_image_name + ".jpg"@
}

/// Part 1 of the program of [`export_map_to_jpg`].
pub const EXPORT_MAP_TO_JPG_PART_1: &'static str = r#"
from qgis.core import QgsProject, QgsPrintLayout, QgsLayoutItemMap, QgsLayoutExporter, QgsCoordinateReferenceSystem, QgsRectangle
from qgis.PyQt.QtCore import QSize, QRectF
try:
    project = QgsProject.instance()
    project.read(""#;

/// Part 2 of the program of [`export_map_to_jpg`].
pub const EXPORT_MAP_TO_JPG_PART_2: &'static str = r#"")
    layout = QgsPrintLayout(project)
    layout.initializeDefaults()
    map_item = QgsLayoutItemMap(layout)
    layout.addLayoutItem(map_item)
    map_rect = QgsRectangle("#;

/// Part 3 of the program of [`export_map_to_jpg`].
pub const EXPORT_MAP_TO_JPG_PART_3: &'static str = r#", "#;

/// Part 4 of the program of [`export_map_to_jpg`].
pub const EXPORT_MAP_TO_JPG_PART_4: &'static str = r#", "#;

/// Part 5 of the program of [`export_map_to_jpg`].
pub const EXPORT_MAP_TO_JPG_PART_5: &'static str = r#", "#;

/// Part 6 of the program of [`export_map_to_jpg`].
pub const EXPORT_MAP_TO_JPG_PART_6: &'static str = r#")
    map_item.setExtent(map_rect)
    map_item.setCrs(QgsCoordinateReferenceSystem('EPSG:2154'))
    map_item.setScale("#;

/// Part 7 of the program of [`export_map_to_jpg`].
pub const EXPORT_MAP_TO_JPG_PART_7: &'static str = r#")
    map_item.setFixedSize(QSize(400, 400))
    map_item.attemptMove(QRectF(5, 5, 200, 150))
    exporter = QgsLayoutExporter(layout)
    export_settings = QgsLayoutExporter.ImageExportSettings()
    export_settings.dpi = "#;

/// Part 8 of the program of [`export_map_to_jpg`].
pub const EXPORT_MAP_TO_JPG_PART_8: &'static str = r#"
    result = exporter.exportToImage(""#;

/// Part 9 of the program of [`export_map_to_jpg`].
pub const EXPORT_MAP_TO_JPG_PART_9: &'static str = r#"", export_settings)
    if result == QgsLayoutExporter.Success:
        print("Map exported successfully to " + ""#;

/// Part 10 of the program of [`export_map_to_jpg`].
pub const EXPORT_MAP_TO_JPG_PART_10: &'static str = r#"")
    else:
        print("Failed to export map")
except Exception as e:
    print("An error occurred: " + str(e))
"#;

/// The program of [`export_map_to_jpg`].
pub open spec fn export_map_to_jpg_code(project_name: Seq<char>, xmin: Seq<char>, ymin: Seq<char>, xmax: Seq<char>, ymax: Seq<char>, output_image_name: Seq<char>) -> Seq<char> {
    EXPORT_MAP_TO_JPG_PART_1@
        + ("resources/QGIS/"@ + project_name + ".qgz"@)
        + EXPORT_MAP_TO_JPG_PART_2@
        + xmin
        + EXPORT_MAP_TO_JPG_PART_3@
        + ymin
        + EXPORT_MAP_TO_JPG_PART_4@
        + xmax
        + EXPORT_MAP_TO_JPG_PART_5@
        + ymax
        + EXPORT_MAP_TO_JPG_PART_6@
        + "25000"@
        + EXPORT_MAP_TO_JPG_PART_7@
        + "63.5"@
        + EXPORT_MAP_TO_JPG_PART_8@
        + export_image_path_of(output_image_name)
        + EXPORT_MAP_TO_JPG_PART_9@
        + export_image_path_of(output_image_name)
        + EXPORT_MAP_TO_JPG_PART_10@
}

/// Asks QGIS to export the part of a project's map that lies between the
/// given corners, at the scale 1:25000 and with 63.5 dots per inch. The
/// corners are given as the host has written the numbers out.
pub fn export_map_to_jpg(
    project_name: &str,
    xmin: &str,
    ymin: &str,
    xmax: &str,
    ymax: &str,
    output_image_name: &str,
) -> (request: QgisRequest)
    ensures
        request.code@ == export_map_to_jpg_code(
            project_name@,
            xmin@,
            ymin@,
            xmax@,
            ymax@,
            output_image_name@,
        ),
        request.success_message@ == "Map exported successfully to "@ + export_image_path_of(
            output_image_name@,
        ),
{
    let mut project_file_path = "resources/QGIS/".to_owned();
    project_file_path.append(project_name);
    project_file_path.append(".qgz");
    let mut output_image_path = "resources/QGIS/".to_owned();
    output_image_path.append(output_image_name);
    output_image_path.append(".jpg");
    let mut code = EXPORT_MAP_TO_JPG_PART_1.to_owned();
    code.append(project_file_path.as_str());
    code.append(EXPORT_MAP_TO_JPG_PART_2);
    code.append(xmin);
    code.append(EXPORT_MAP_TO_JPG_PART_3);
    code.append(ymin);
    code.append(EXPORT_MAP_TO_JPG_PART_4);
    code.append(xmax);
    code.append(EXPORT_MAP_TO_JPG_PART_5);
    code.append(ymax);
    code.append(EXPORT_MAP_TO_JPG_PART_6);
    code.append("25000");
    code.append(EXPORT_MAP_TO_JPG_PART_7);
    code.append("63.5");
    code.append(EXPORT_MAP_TO_JPG_PART_8);
    code.append(output_image_path.as_str());
    code.append(EXPORT_MAP_TO_JPG_PART_9);
    code.append(output_image_path.as_str());
    code.append(EXPORT_MAP_TO_JPG_PART_10);
    let mut success_message = "Map exported successfully to ".to_owned();
    success_message.append(output_image_path.as_str());
    QgisRequest { code, success_message }
}

} // verus!
